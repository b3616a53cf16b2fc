use splat_viewer::time::Duration;

#[test]
fn spans_add_and_subtract() {
    let a = Duration::new(1, 250_000_000);
    assert_eq!(a, Duration::from_millis(1250));
    assert_eq!(a.as_secs(), 1);
    assert_eq!(a.subsec_nanos(), 250_000_000);
    assert_eq!(
        a.checked_sub(Duration::from_millis(250)),
        Some(Duration::from_secs(1))
    );
    assert_eq!(a.checked_sub(Duration::from_millis(1251)), None);
    assert_eq!(
        a.checked_add(Duration::from_millis(750)),
        Some(Duration::from_secs(2))
    );
}

#[test]
fn spans_have_a_limit() {
    let longest = Duration::new(u64::MAX, 999_999_999);
    assert_eq!(longest.as_secs(), u64::MAX);
    assert_eq!(longest.checked_add(Duration::new(0, 1)), None);
    assert_eq!(longest.checked_add(Duration::zero()), Some(longest));
}

#[test]
fn spans_are_ordered() {
    let a = Duration::from_millis(16);
    let b = Duration::from_millis(17);
    assert!(a.shorter_than(b));
    assert!(!b.shorter_than(b));
    assert_eq!(a.max(b), b);
    assert_eq!(b.max(a), b);
    assert!(Duration::zero().is_zero());
    assert!(!a.is_zero());
}
