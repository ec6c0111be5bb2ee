use rust_story::units::Millis;

#[test]
fn add_two_times() {
    let sum = Millis(500).add(Millis(250));
    assert_eq!(sum, Millis(750));
}

#[test]
fn sub_two_times() {
    let diff = Millis(500).sub(Millis(250));
    assert_eq!(diff, Millis(250));
}

#[test]
fn negative_time_is_possible() {
    let diff = Millis(100).sub(Millis(350));
    assert_eq!(diff, Millis(-250));
    let back = diff.add(Millis(350));
    assert_eq!(back, Millis(100));
}

#[test]
fn add_wraps_on_overflow() {
    let sum = Millis(i64::MAX).add(Millis(1));
    assert_eq!(sum, Millis(i64::MIN));
}

#[test]
fn sub_wraps_on_underflow() {
    let diff = Millis(i64::MIN).sub(Millis(1));
    assert_eq!(diff, Millis(i64::MAX));
}

#[test]
fn add_sub_round_trip() {
    let cases: Vec<(i64, i64)> = vec![
        (0, 0),
        (1500, 42),
        (-37, 99),
        (i64::MAX, 1),
        (i64::MIN, -1),
        (i64::MAX - 5, 100),
    ];
    for (a, b) in cases {
        let (t1, t2) = (Millis(a), Millis(b));
        assert_eq!(t1.add(t2).sub(t2), t1);
    }
}

#[test]
fn times_are_totally_ordered() {
    assert!(Millis(-5) < Millis(3));
    assert!(Millis(3) < Millis(4));
    assert_eq!(Millis(7), Millis(7));
    assert!(Millis(7) <= Millis(7));
}
