use splat_viewer::animation::{Motion, TrajectoryType};
use splat_viewer::time::Duration;
use splat_viewer::views::{SceneCamera, SceneInfo, Split};
use splat_viewer::window::{
    start_view, CloudInfo, Effect, ReloadError, StartView, UpdateStep, WindowContext,
};

const CLOUD: CloudInfo = CloudInfo {
    compressed: false,
    sh_deg: 3,
    num_points: 10,
};

/// A window whose cameras are numbers and whose paths are texts.
type Window = WindowContext<u32, &'static str>;

fn window() -> Window {
    WindowContext::new((800, 600), 7, 1, Some(50), CLOUD, None)
}

fn view(camera: u32, id: usize) -> SceneCamera<u32> {
    SceneCamera {
        camera,
        img_name: "view".to_string(),
        id,
        width: 1,
        height: 1,
        split: Split::Train,
    }
}

fn scene(ids: Vec<usize>) -> SceneInfo {
    SceneInfo {
        num_cameras: ids.len(),
        ids,
    }
}

#[test]
fn new_window() {
    let w = window();
    assert_eq!((w.width, w.height), (800, 600));
    assert_eq!(w.viewport, (800, 600));
    assert_eq!(w.scale_factor, 7);
    assert_eq!(w.camera, 1);
    assert!(w.walltime.is_zero());
    assert!(w.animation.is_none());
    assert!(w.scene.is_none());
    assert!(w.ui_visible);
    assert!(w.saved_cameras.is_empty());
    assert!(w.has_initial_camera());
}

#[test]
fn views_start_at_the_embedded_camera() {
    assert_eq!(start_view(&Some(4)), StartView::At(4));
    assert_eq!(start_view::<u32>(&None), StartView::Overview);
}

#[test]
fn resizing() {
    let mut w = window();
    assert_eq!(
        w.resize(10, 20, None),
        vec![
            Effect::ConfigureSurface(10, 20),
            Effect::ResizeDisplay(10, 20),
            Effect::ResizeProjection(10, 20),
            Effect::ResizeProjection(10, 20),
        ]
    );
    assert_eq!((w.width, w.height, w.viewport), (10, 20, (10, 20)));
    assert_eq!(w.scale_factor, 7);
    assert_eq!(w.resize(0, 20, Some((9, true))), vec![]);
    assert_eq!((w.width, w.height, w.viewport), (10, 20, (10, 20)));
    assert_eq!(w.scale_factor, 9);
    w.resize(5, 0, Some((11, false)));
    assert_eq!(w.scale_factor, 9);
    assert_eq!(w.width, 10);
}

#[test]
fn clock_stops_after_five_seconds() {
    let mut w = window();
    assert_eq!(
        w.update(Duration::from_millis(4999), false),
        UpdateStep::Free
    );
    w.update(Duration::from_secs(2), false);
    assert_eq!(w.walltime, Duration::from_millis(6999));
    w.update(Duration::from_secs(2), false);
    assert_eq!(w.walltime, Duration::from_millis(6999));
}

#[test]
fn camera_moves_over_time() {
    let mut w = window();
    assert_eq!(w.set_camera(9, Duration::from_millis(200)), None);
    assert_eq!(w.camera, 1);
    match &w.animation {
        Some((a, true)) => {
            assert_eq!(a.duration(), Duration::from_millis(200));
            assert!(!a.looping);
            match &a.sampler {
                Motion::Transition(t) => assert_eq!((t.from, t.to), (1, 9)),
                _ => panic!("another motion"),
            }
        }
        _ => panic!("no animation"),
    }
    assert_eq!(
        w.update(Duration::from_millis(150), false),
        UpdateStep::Sample
    );
    assert_eq!(w.sampled(5), vec![Effect::ResizeProjection(800, 600)]);
    assert_eq!(w.camera, 5);
    assert!(w.animation.is_some());
    w.update(Duration::from_millis(50), false);
    assert_eq!(
        w.sampled(9),
        vec![
            Effect::ResizeProjection(800, 600),
            Effect::ResetController
        ]
    );
    assert_eq!(w.camera, 9);
    assert!(w.animation.is_none());
}

#[test]
fn camera_moves_at_once() {
    let mut w = window();
    assert_eq!(
        w.set_camera(9, Duration::zero()),
        Some(Effect::ResizeProjection(800, 600))
    );
    assert_eq!(w.camera, 9);
    assert!(w.animation.is_none());
}

#[test]
fn user_input_ends_an_animation() {
    let mut w = window();
    w.reset_view(60);
    assert_eq!(
        w.update(Duration::from_millis(1), true),
        UpdateStep::Cancelled
    );
    assert!(w.animation.is_none());
    assert_eq!(w.camera, 1);
}

#[test]
fn stopped_animations_rest() {
    let mut w = window();
    w.start_trajectory(TrajectoryType::Swipe, "path");
    assert_eq!(w.stop_animation(), Effect::ResetController);
    assert_eq!(w.update(Duration::from_secs(1), false), UpdateStep::Sample);
    match &w.animation {
        Some((a, playing)) => {
            assert!(!playing);
            assert_eq!(a.time_left, Duration::from_secs(2));
        }
        None => panic!("no animation"),
    }
    assert_eq!(w.cancle_animation(), Effect::ResetController);
    assert!(w.animation.is_none());
    assert_eq!(w.stop_animation(), Effect::ResetController);
    assert!(w.animation.is_none());
}

#[test]
fn home_is_the_initial_camera() {
    let mut w = window();
    w.reset_view(60);
    let (a, playing) = w.animation.as_ref().unwrap();
    assert!(playing);
    assert!(!a.looping);
    assert_eq!(a.duration(), Duration::from_millis(300));
    match &a.sampler {
        Motion::Transition(t) => assert_eq!((t.from, t.to), (1, 50)),
        _ => panic!("another motion"),
    }
    let mut w: Window = WindowContext::new((1, 1), 0, 1, None, CLOUD, None);
    assert!(!w.has_initial_camera());
    w.reset_view(60);
    let (a, playing) = w.animation.as_ref().unwrap();
    assert!(playing);
    assert_eq!(a.duration(), Duration::from_millis(300));
    match &a.sampler {
        Motion::Transition(t) => assert_eq!((t.from, t.to), (1, 60)),
        _ => panic!("another motion"),
    }
}

#[test]
fn replay_starts_at_the_initial_camera() {
    let mut w = window();
    assert_eq!(
        w.reset_and_replay(Some(TrajectoryType::Rotate)),
        vec![
            Effect::ResetController,
            Effect::StartTrajectory(TrajectoryType::Rotate)
        ]
    );
    assert_eq!(w.camera, 50);
    assert_eq!(w.reset_and_replay(None), vec![Effect::ResetController]);
    let mut w: Window = WindowContext::new((1, 1), 0, 1, None, CLOUD, None);
    assert_eq!(w.reset_and_replay(Some(TrajectoryType::Rotate)), vec![]);
    assert_eq!(w.camera, 1);
}

#[test]
fn trajectories_take_two_seconds() {
    let mut w = window();
    w.start_trajectory(TrajectoryType::Shake, "path");
    let (a, playing) = w.animation.as_ref().unwrap();
    assert!(playing);
    assert!(!a.looping);
    assert_eq!(a.duration(), Duration::from_secs(2));
    match &a.sampler {
        Motion::Trajectory(t, path) => assert_eq!((*t, *path), (TrajectoryType::Shake, "path")),
        _ => panic!("another motion"),
    }
}

#[test]
fn tracking_shot_runs_through_saved_views() {
    let mut w = window();
    w.saved_cameras = vec![view(3, 0)];
    w.start_tracking_shot();
    assert!(w.animation.is_none());
    w.saved_cameras = vec![view(3, 0), view(4, 1), view(5, 2)];
    w.start_tracking_shot();
    let (a, playing) = w.animation.as_ref().unwrap();
    assert!(playing);
    assert!(a.looping);
    assert_eq!(a.duration(), Duration::from_secs(6));
    match &a.sampler {
        Motion::TrackingShot(shot) => assert_eq!(shot.control_points, vec![4, 5, 3, 4, 5, 3, 4]),
        _ => panic!("another motion"),
    }
}

#[test]
fn saved_views_get_fresh_ids() {
    let mut w = window();
    w.save_view();
    assert_eq!(w.saved_cameras[0].id, 1);
    assert_eq!(w.saved_cameras[0].img_name, "1");
    assert_eq!(w.saved_cameras[0].camera, 1);
    assert_eq!(w.saved_cameras[0].split, Split::Test);
    assert_eq!(
        (w.saved_cameras[0].width, w.saved_cameras[0].height),
        (800, 600)
    );
    w.scene = Some(scene(vec![4, 1041, 2]));
    w.save_view();
    assert_eq!(w.saved_cameras[1].id, 1042);
    assert_eq!(w.saved_cameras[1].img_name, "1042");
    w.saved_cameras.push(view(1, 2000));
    w.save_view();
    assert_eq!(w.saved_cameras[3].id, 2001);
}

#[test]
fn scenes_bring_their_test_cameras() {
    let mut w = window();
    w.set_scene(scene(vec![0, 1]), vec![view(8, 0)]);
    assert_eq!(w.saved_cameras, vec![view(8, 0)]);
    w.set_scene(scene(vec![3]), vec![view(9, 3)]);
    assert_eq!(w.saved_cameras, vec![view(8, 0)]);
    assert_eq!(w.scene, Some(scene(vec![3])));
}

#[test]
fn scene_cameras_are_selected() {
    let mut w = window();
    w.set_scene_camera(3, Some(8));
    assert_eq!(w.current_view, None);
    assert!(w.animation.is_none());
    w.scene = Some(scene(vec![0]));
    w.set_scene_camera(3, None);
    assert_eq!(w.current_view, Some(3));
    assert!(w.animation.is_none());
    w.set_scene_camera(0, Some(8));
    assert_eq!(w.current_view, Some(0));
    let (a, _) = w.animation.as_ref().unwrap();
    assert_eq!(a.duration(), Duration::from_millis(200));
    assert_eq!(w.view_to_check(), Some(0));
    w.leave_view();
    assert_eq!(w.current_view, None);
    w.current_view = Some(1);
    w.scene = None;
    assert_eq!(w.view_to_check(), None);
}

#[test]
fn frames_are_drawn_where_something_changed() {
    let mut w = window();
    assert_eq!(w.frame_plan(false, false), None);
    let plan = w.frame_plan(true, false).unwrap();
    assert!(plan.redraw_scene && plan.with_ui);
    let plan = w.frame_plan(false, true).unwrap();
    assert!(!plan.redraw_scene && plan.with_ui);
    w.ui_visible = false;
    w.viewport = (800, 601);
    let plan = w.frame_plan(false, false).unwrap();
    assert!(plan.redraw_scene && !plan.with_ui);
    w.rendered();
    assert_eq!(w.frame_plan(false, false), None);
}

#[test]
fn updates_tell_whether_the_screen_changed() {
    let mut w = window();
    // The clock runs.
    let before = w.shown();
    w.update(Duration::from_secs(5), false);
    assert!(w.finish_update(&before, 1));
    // Nothing moves any more.
    let before = w.shown();
    assert_eq!(w.update(Duration::from_secs(1), false), UpdateStep::Free);
    assert!(!w.screen_changed(&before));
    assert!(!w.finish_update(&before, 1));
    // The camera moves.
    let before = w.shown();
    w.update(Duration::from_secs(1), false);
    assert!(w.finish_update(&before, 2));
    assert_eq!(w.camera, 2);
    // The window has another size.
    let before = w.shown();
    w.resize(10, 10, None);
    assert!(w.screen_changed(&before));
}

#[test]
fn reloading_takes_a_path() {
    let mut w = window();
    assert_eq!(w.reload(), Err(ReloadError::NoPointcloudPath));
    w.has_scene_path = true;
    assert_eq!(w.reload(), Err(ReloadError::NoPointcloudPath));
    w.has_cloud_path = true;
    assert_eq!(w.reload(), Ok(true));
    w.has_scene_path = false;
    assert_eq!(w.reload(), Ok(false));
    w.reloaded(Some(5), None);
    assert_eq!(w.downsampled_from, Some(5));
    assert_eq!(w.cloud, CLOUD);
    let other = CloudInfo {
        num_points: 3,
        ..CLOUD
    };
    w.reloaded(None, Some(other));
    assert_eq!(w.downsampled_from, None);
    assert_eq!(w.cloud, other);
}

#[test]
fn new_clouds_reset_the_window() {
    let mut w = window();
    w.scene = Some(scene(vec![0]));
    w.set_scene_camera(0, Some(8));
    w.update(Duration::from_secs(1), false);
    let same_kind = CloudInfo {
        num_points: 3,
        ..CLOUD
    };
    assert_eq!(
        w.install_pointcloud(same_kind, None, Some(12), 77),
        (false, Effect::ResetController)
    );
    assert_eq!(w.camera, 77);
    assert!(w.walltime.is_zero());
    assert!(w.animation.is_none());
    assert!(w.scene.is_none());
    assert_eq!(w.current_view, None);
    assert_eq!(w.downsampled_from, Some(12));
    assert!(!w.has_initial_camera());
    let other = CloudInfo {
        compressed: true,
        ..CLOUD
    };
    assert!(w.install_pointcloud(other, None, None, 1).0);
    let other = CloudInfo {
        sh_deg: 2,
        ..other
    };
    assert!(w.install_pointcloud(other, None, None, 1).0);
}
