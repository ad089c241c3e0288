use firmware::pump::{
    can_drive, compensation_done, compensation_duties, motor_duties, Delta, DOSE_A, DOSE_B,
};

#[test]
fn dose_weights() {
    assert_eq!(DOSE_A, 115);
    assert_eq!(DOSE_B, 291);
}

#[test]
fn delta_counts_level_changes() {
    let mut d = Delta::new(false, DOSE_A, false, DOSE_B);
    assert_eq!(d.get(), 0);
    d.count(true, false);
    assert_eq!(d.get(), 115);
    d.count(true, false);
    assert_eq!(d.get(), 115);
    d.count(true, true);
    assert_eq!(d.get(), 115 - 291);
    d.count(false, false);
    assert_eq!(d.get(), 115 - 291 + 115 - 291);
    d.reset();
    assert_eq!(d.get(), 0);
    assert!(d.can_count(true, true));
    d.count(false, false);
    assert_eq!(d.get(), 0);
}

#[test]
fn delta_matches_transition_count() {
    let samples: Vec<(bool, bool)> = (0..200u32)
        .map(|i| ((i * 7 + i / 3) % 5 < 2, (i * 11 + 1) % 7 < 3))
        .collect();
    let mut d = Delta::new(true, 3, false, 2);
    let (mut la, mut lb) = (true, false);
    let (mut ta, mut tb) = (0i32, 0i32);
    for &(a, b) in &samples {
        assert!(d.can_count(a, b));
        d.count(a, b);
        if a != la {
            ta += 1;
        }
        if b != lb {
            tb += 1;
        }
        la = a;
        lb = b;
    }
    assert_eq!(d.get(), 3 * ta - 2 * tb);
}

#[test]
fn delta_refuses_overflow() {
    let mut d = Delta::new(false, u16::MAX, false, 0);
    let mut level = false;
    while d.can_count(!level, false) {
        level = !level;
        d.count(level, false);
    }
    assert!(d.get() > i32::MAX - 65535);
    assert!(d.can_count(level, false));
}

#[test]
fn duties_balanced() {
    assert!(can_drive(0, 1000));
    assert_eq!(motor_duties(0, 1000), (500, 197));
}

#[test]
fn duties_when_a_is_ahead() {
    assert_eq!(motor_duties(10000, 1000), (461, 500));
    assert_eq!(motor_duties(8800, 65535), (32767, 32767));
}

#[test]
fn duties_at_full_sixteen_bit_scale() {
    assert!(can_drive(0, 65536));
    assert_eq!(motor_duties(0, 65536), (32768, 12948));
}

#[test]
fn duties_with_scale_beyond_i32() {
    // The full duty is taken as i32, so u32::MAX counts as -1.
    assert!(can_drive(0, u32::MAX));
    assert_eq!(motor_duties(0, u32::MAX), (0, 0));
}

#[test]
fn duties_when_b_is_far_ahead() {
    assert_eq!(motor_duties(-5750, 1000), (500, 0));
    assert!(can_drive(-5751, 1000));
    assert_eq!(motor_duties(-5751, 1000), (500, 0));
}

#[test]
fn duties_refused_when_negative() {
    assert!(!can_drive(-5751, 40000));
    assert!(!can_drive(-6000, 1000));
    assert!(!can_drive(i32::MAX, 1000));
}

#[test]
fn duties_never_exceed_half() {
    for delta in (-5750..200000).step_by(997) {
        let (d1, d2) = motor_duties(delta, 4799);
        assert!(d1 <= 2399 && d2 <= 2399);
        assert!(d1 == 2399 || d2 == 2399);
    }
}

#[test]
fn compensation() {
    assert_eq!(compensation_duties(5, 100), Some((0, 100)));
    assert_eq!(compensation_duties(-3, 100), Some((100, 0)));
    assert_eq!(compensation_duties(0, 100), None);
}

#[test]
fn compensation_stops_at_or_past_zero() {
    assert!(!compensation_done(500, 1));
    assert!(compensation_done(500, 0));
    assert!(compensation_done(500, -115));
    assert!(!compensation_done(-500, -1));
    assert!(compensation_done(-500, 0));
    assert!(compensation_done(-500, 291));
    assert!(compensation_done(0, 0));
}
