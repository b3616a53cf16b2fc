use splat_viewer::animation::{
    nearest_single, Animation, Motion, Smoothstep, TrackingShot, TrajectoryType, Transition,
};
use splat_viewer::time::Duration;

#[test]
fn trajectory_names_parse() {
    assert_eq!(
        TrajectoryType::parse("rotate_forward"),
        Some(TrajectoryType::RotateForward)
    );
    assert_eq!(
        TrajectoryType::parse("RotateForward"),
        Some(TrajectoryType::RotateForward)
    );
    assert_eq!(TrajectoryType::parse("SWIPE"), Some(TrajectoryType::Swipe));
    assert_eq!(TrajectoryType::parse("Shake"), Some(TrajectoryType::Shake));
    assert_eq!(TrajectoryType::parse("rotate"), Some(TrajectoryType::Rotate));
    assert_eq!(
        TrajectoryType::parse("ForWard"),
        Some(TrajectoryType::Forward)
    );
    assert_eq!(TrajectoryType::parse(""), None);
    assert_eq!(TrajectoryType::parse("rotate forward"), None);
    assert_eq!(TrajectoryType::parse(" swipe"), None);
}

#[test]
fn trajectory_names_parse_beyond_ascii() {
    // The Kelvin sign is a capital letter whose small one is k.
    assert_eq!(
        TrajectoryType::parse("SHA\u{212A}E"),
        Some(TrajectoryType::Shake)
    );
    assert_eq!(TrajectoryType::parse("\u{17F}wipe"), None);
}

#[test]
fn lowercase_names_are_taken_letter_for_letter() {
    assert_eq!(
        TrajectoryType::from_lowercase("swipe"),
        Some(TrajectoryType::Swipe)
    );
    assert_eq!(TrajectoryType::from_lowercase("Swipe"), None);
}

#[test]
fn animation_ends_when_its_time_has_passed() {
    let mut a = Animation::new(Duration::from_millis(300), false, ());
    assert!(!a.done());
    a.update(Duration::from_millis(100));
    assert_eq!(a.time_left, Duration::from_millis(200));
    assert!(!a.done());
    a.update(Duration::from_millis(200));
    assert!(a.done());
    a.update(Duration::from_secs(9));
    assert_eq!(a.time_left, Duration::zero());
    assert!(a.done());
    assert_eq!(a.duration(), Duration::from_millis(300));
}

#[test]
fn time_may_pass_in_parts() {
    let mut once = Animation::new(Duration::from_millis(900), false, ());
    let mut twice = Animation::new(Duration::from_millis(900), false, ());
    once.update(Duration::from_millis(500));
    twice.update(Duration::from_millis(123));
    twice.update(Duration::from_millis(377));
    assert_eq!(once.time_left, twice.time_left);
}

#[test]
fn looping_animation_starts_over() {
    let mut a = Animation::new(Duration::from_secs(4), true, ());
    a.update(Duration::from_secs(3));
    assert_eq!(a.time_left, Duration::from_secs(1));
    a.update(Duration::from_secs(2));
    assert_eq!(a.time_left, Duration::from_secs(3));
    assert!(!a.done());
    a.update(Duration::from_secs(3));
    assert_eq!(a.time_left, Duration::zero());
    assert!(!a.done());
    a.update(Duration::from_secs(4));
    assert_eq!(a.time_left, Duration::zero());
}

#[test]
fn animation_can_be_put_elsewhere() {
    let mut a = Animation::new(Duration::from_secs(4), false, ());
    a.set_progress(Duration::from_secs(1));
    assert_eq!(a.time_left, Duration::from_secs(1));
    a.set_duration(Duration::from_secs(8), Duration::from_secs(2));
    assert_eq!(a.duration(), Duration::from_secs(8));
    assert_eq!(a.time_left, Duration::from_secs(2));
    assert!(!a.looping);
}

#[test]
fn tracking_shot_is_closed() {
    let shot = TrackingShot::from_cameras(&vec![1u8, 2, 3]);
    assert_eq!(shot.control_points, vec![2, 3, 1, 2, 3, 1, 2]);
    assert_eq!(shot.num_control_points(), 7);
    assert_eq!(shot.num_cameras, 3);
    for i in 0..4 {
        assert_eq!(shot.control_points[i], shot.control_points[i + 3]);
    }
    let shot = TrackingShot::from_cameras(&vec![1u8, 2]);
    assert_eq!(shot.control_points, vec![1, 2, 1, 2, 1, 2]);
}

#[test]
fn transition_knows_both_ends() {
    let t = Transition::new(3, 5, |x: u32| 2 * x);
    assert_eq!((t.from, t.to, (t.interp_fn)(4)), (3, 5, 8));
    let motion: Motion<u8, ()> = Motion::Transition(Transition::new(3, 5, Smoothstep));
    match motion {
        Motion::Transition(t) => assert_eq!((t.from, t.to), (3, 5)),
        _ => panic!("another motion"),
    }
}

#[test]
fn counts_round_as_single_precision_does() {
    for n in [
        0usize,
        1,
        2,
        511,
        16_777_215,
        16_777_216,
        16_777_217,
        16_777_218,
        16_777_219,
        33_554_434,
        33_554_435,
        33_554_438,
        4_294_967_295,
        1 << 40,
        usize::MAX,
    ] {
        assert_eq!(nearest_single(n), n as f32 as u128, "{}", n);
    }
    assert_eq!(nearest_single(16_777_219), 16_777_220);
}
