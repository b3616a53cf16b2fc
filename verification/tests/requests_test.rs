use splat_viewer::animation::TrajectoryType;
use splat_viewer::ply::EmbeddedCamera;
use splat_viewer::requests::{get_trajectory_types, PageRequests};

fn camera(width: u32, height: u32) -> EmbeddedCamera {
    EmbeddedCamera {
        extrinsic: [[0; 4]; 4],
        intrinsic: [[0; 3]; 3],
        image_size: (width, height),
    }
}

#[test]
fn the_last_file_is_loaded_once() {
    let mut requests = PageRequests::new();
    assert!(requests.take_file().is_none());
    requests.load_new_file(vec![1], "a.ply".to_string(), false);
    requests.load_new_file(vec![2, 3], "b.ply".to_string(), true);
    let file = requests.take_file().unwrap();
    assert_eq!(file.data, vec![2, 3]);
    assert_eq!(file.filename, "b.ply");
    assert!(file.compress);
    assert!(requests.take_file().is_none());
}

#[test]
fn trajectories_are_taken_by_name() {
    let mut requests = PageRequests::new();
    assert_eq!(requests.take_trajectory(), None);
    requests.start_trajectory("Swipe".to_string());
    requests.reset_view_and_play("forward".to_string());
    assert_eq!(
        requests.take_trajectory(),
        Some(Some(TrajectoryType::Swipe))
    );
    assert_eq!(requests.take_trajectory(), None);
    assert_eq!(
        requests.take_reset_and_play(),
        Some(Some(TrajectoryType::Forward))
    );
    assert_eq!(requests.take_reset_and_play(), None);
    requests.start_trajectory("moonwalk".to_string());
    assert_eq!(requests.take_trajectory(), Some(None));
    requests.reset_view_and_play("".to_string());
    assert_eq!(requests.take_reset_and_play(), Some(None));
}

#[test]
fn every_listed_trajectory_can_be_asked_for() {
    let names = get_trajectory_types();
    assert_eq!(
        names,
        vec!["rotate_forward", "swipe", "shake", "rotate", "forward"]
    );
    let types = [
        TrajectoryType::RotateForward,
        TrajectoryType::Swipe,
        TrajectoryType::Shake,
        TrajectoryType::Rotate,
        TrajectoryType::Forward,
    ];
    for (name, t) in names.iter().zip(types) {
        assert_eq!(TrajectoryType::parse(name), Some(t));
        assert_eq!(TrajectoryType::parse(&name.to_uppercase()), Some(t));
    }
}

#[test]
fn canvas_size_follows_the_camera() {
    let mut requests = PageRequests::new();
    assert!(!requests.has_target_canvas_size());
    assert_eq!(requests.get_target_canvas_size(), None);
    requests.opened(&Some(camera(640, 480)));
    assert!(requests.has_target_canvas_size());
    assert_eq!(requests.get_target_canvas_size(), Some((640, 480)));
    requests.opened(&None);
    assert_eq!(requests.get_target_canvas_size(), Some((640, 480)));
    requests.loaded(&Some(camera(2, 1)));
    assert_eq!(requests.get_target_canvas_size(), Some((2, 1)));
    requests.loaded(&None);
    assert!(!requests.has_target_canvas_size());
    assert_eq!(requests.get_target_canvas_size(), None);
}
