use splat_viewer::animation::TrajectoryType;
use splat_viewer::events::{frame_wait, refresh_wait, Key, KeyAction};
use splat_viewer::time::Duration;
use splat_viewer::views::SceneInfo;
use splat_viewer::window::{CloudInfo, WindowContext};

type Window = WindowContext<u32, ()>;

fn window() -> Window {
    let cloud = CloudInfo {
        compressed: false,
        sh_deg: 0,
        num_points: 1,
    };
    WindowContext::new((8, 6), 0, 1, None, cloud, None)
}

fn with_scene(num_cameras: usize, current_view: Option<usize>) -> Window {
    let mut w = window();
    w.scene = Some(SceneInfo {
        num_cameras,
        ids: (0..num_cameras).collect(),
    });
    w.current_view = current_view;
    w
}

#[test]
fn keys_without_a_scene() {
    let mut w = window();
    assert_eq!(
        w.key_released(Key::T, false, None),
        KeyAction::StartTrackingShot
    );
    w.start_trajectory(TrajectoryType::Swipe, ());
    assert_eq!(
        w.key_released(Key::T, false, None),
        KeyAction::StopAnimation
    );
    assert_eq!(w.key_released(Key::U, false, None), KeyAction::ToggleUi);
    assert_eq!(w.key_released(Key::C, true, None), KeyAction::SaveView);
    assert_eq!(w.key_released(Key::H, false, None), KeyAction::ResetView);
    assert_eq!(w.key_released(Key::R, true, None), KeyAction::Reload);
    for key in [
        Key::R,
        Key::N,
        Key::PageUp,
        Key::PageDown,
        Key::Number(3),
        Key::Other,
    ] {
        assert_eq!(w.key_released(key, false, Some(1)), KeyAction::Nothing);
    }
}

#[test]
fn keys_select_views() {
    let w = with_scene(5, Some(4));
    assert_eq!(
        w.key_released(Key::Number(7), false, None),
        KeyAction::Select(7)
    );
    assert_eq!(
        w.key_released(Key::N, false, Some(2)),
        KeyAction::Select(2)
    );
    assert_eq!(w.key_released(Key::N, false, None), KeyAction::Nothing);
    assert_eq!(
        w.key_released(Key::PageUp, false, None),
        KeyAction::Select(0)
    );
    assert_eq!(
        w.key_released(Key::PageDown, false, None),
        KeyAction::Select(3)
    );
    assert_eq!(w.key_released(Key::R, true, None), KeyAction::Reload);
    assert_eq!(w.key_released(Key::Other, false, None), KeyAction::Nothing);
    let w = with_scene(5, None);
    assert_eq!(
        w.key_released(Key::PageUp, false, None),
        KeyAction::Select(0)
    );
    assert_eq!(
        w.key_released(Key::PageDown, false, None),
        KeyAction::Select(0)
    );
}

#[test]
fn paging_down_undoes_paging_up() {
    let w = with_scene(5, Some(2));
    assert_eq!(
        w.key_released(Key::PageUp, false, None),
        KeyAction::Select(3)
    );
    let w = with_scene(5, Some(3));
    assert_eq!(
        w.key_released(Key::PageDown, false, None),
        KeyAction::Select(2)
    );
}

#[test]
fn random_views_exist() {
    let w = with_scene(3, None);
    assert_eq!(w.key_action(Key::R, false, 7, None), KeyAction::Select(1));
    assert_eq!(
        w.key_action(Key::R, false, u32::MAX, None),
        KeyAction::Select(0)
    );
    let mut seen = [false; 3];
    for _ in 0..1000 {
        match w.key_released(Key::R, false, None) {
            KeyAction::Select(view) => seen[view] = true,
            _ => panic!("no view"),
        }
    }
    assert_eq!(seen, [true; 3]);
}

#[test]
fn monitors_set_the_pace() {
    assert_eq!(refresh_wait(None), Duration::from_millis(17));
    assert_eq!(refresh_wait(Some(None)), Duration::from_millis(16));
    assert_eq!(refresh_wait(Some(Some(60_000))), Duration::from_millis(16));
    assert_eq!(refresh_wait(Some(Some(30_000))), Duration::from_millis(33));
    assert_eq!(refresh_wait(Some(Some(144_000))), Duration::from_millis(6));
    assert_eq!(
        refresh_wait(Some(Some(1))),
        Duration::from_millis(1_000_000)
    );
}

#[test]
fn frames_are_at_least_16_milliseconds_apart() {
    let ms = Duration::from_millis;
    assert_eq!(frame_wait(false, ms(6)), ms(16));
    assert_eq!(frame_wait(false, ms(33)), ms(33));
    assert_eq!(frame_wait(true, ms(33)), ms(16));
    assert_eq!(frame_wait(true, ms(6)), ms(16));
}
