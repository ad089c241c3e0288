use firmware::pwm::EnableLine;
use firmware::tbh::SignCrossing;

#[test]
fn first_feed_records() {
    let mut s: SignCrossing<f32> = SignCrossing::new();
    assert!(!s.last_positive);
    assert_eq!(s.value_at_last_crossing, None);
    assert_eq!(s.observe(true, 0.5), None);
    assert!(s.last_positive);
    assert_eq!(s.value_at_last_crossing, Some(0.5));
}

#[test]
fn same_sign_keeps_memory() {
    let mut s: SignCrossing<f32> = SignCrossing::new();
    s.observe(true, 0.5);
    assert_eq!(s.observe(true, 0.6), None);
    assert_eq!(s.value_at_last_crossing, Some(0.5));
    assert!(s.last_positive);
}

#[test]
fn crossing_hands_back_previous() {
    let mut s: SignCrossing<f32> = SignCrossing::new();
    s.observe(true, 0.5);
    s.observe(true, 0.6);
    assert_eq!(s.observe(false, 0.3), Some(0.5));
    assert_eq!(s.value_at_last_crossing, Some(0.3));
    assert!(!s.last_positive);
    assert_eq!(s.observe(true, 0.4), Some(0.3));
    assert_eq!(s.value_at_last_crossing, Some(0.4));
}

#[test]
fn first_feed_negative() {
    let mut s: SignCrossing<i32> = SignCrossing::new();
    assert_eq!(s.observe(false, 7), None);
    assert_eq!(s.observe(false, 8), None);
    assert_eq!(s.observe(true, 9), Some(7));
}

#[test]
fn enable_line_switches_on_change_only() {
    let mut line = EnableLine::new();
    assert!(!line.enabled);
    assert_eq!(line.update(false), None);
    assert_eq!(line.update(true), Some(true));
    assert!(line.enabled);
    assert_eq!(line.update(true), None);
    assert_eq!(line.update(false), Some(false));
    assert!(!line.enabled);
}
