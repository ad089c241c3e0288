use firmware::report::{battery_line, battery_report, box_report, cool_lines, push_decimal, ReportTimer};

#[test]
fn decimal_matches_display() {
    for n in [0u32, 1, 9, 10, 99, 100, 4095, 65535, 1_000_000, u32::MAX] {
        let mut out = Vec::new();
        push_decimal(&mut out, n);
        assert_eq!(out, n.to_string().into_bytes());
    }
}

#[test]
fn battery_serial_report() {
    assert_eq!(
        battery_report(12600, 12000, 1500),
        b":BATT 12600\n:OUTP 12000\n:CURR 1500\n".to_vec()
    );
    assert_eq!(battery_report(0, 0, 0), b":BATT 0\n:OUTP 0\n:CURR 0\n".to_vec());
}

#[test]
fn box_serial_report() {
    assert_eq!(box_report(215), b":BOXT 215\n".to_vec());
    assert_eq!(box_report(-15), b":BOXT -15\n".to_vec());
    assert_eq!(box_report(i16::MIN), b":BOXT -32768\n".to_vec());
}

#[test]
fn battery_display_line() {
    assert_eq!(battery_line(800), b"Bat:   800 mV".to_vec());
    assert_eq!(battery_line(12600), b"Bat: 12600 mV".to_vec());
    for v in [0u16, 7, 42, 999, 12345, 65535] {
        assert_eq!(battery_line(v), format!("Bat: {:>5} mV", v).into_bytes());
    }
}

#[test]
fn cool_box_display_lines() {
    assert_eq!(cool_lines(215, 42), b"Temp:   215 /10C\nDuty:  42%".to_vec());
    assert_eq!(cool_lines(-100, 100), b"Temp:  -100 /10C\nDuty: 100%".to_vec());
    for (t, d) in [(0i16, 0u8), (-32768, 255), (32767, 5), (-9, 99)] {
        assert_eq!(
            cool_lines(t, d),
            format!("Temp: {:>5} /10C\nDuty: {:>3}%", t, d).into_bytes()
        );
    }
}

#[test]
fn reports_are_paced() {
    let mut t = ReportTimer::new(5_000_000);
    assert!(!t.due(0));
    assert!(!t.due(5_000_000));
    assert!(t.due(5_000_001));
    assert_eq!(t.last, 5_000_001);
    assert!(!t.due(6_000_000));
    assert!(!t.due(10_000_001));
    assert!(t.due(10_000_002));
    assert_eq!(t.period, 5_000_000);
}
