use firmware::adc::{AdcCalibration, AdcResolution, Converter, Reading};

fn calibration() -> AdcCalibration {
    AdcCalibration::new(1527, 1750, 1340, AdcResolution::Bits12)
}

#[test]
fn max_count_follows_resolution() {
    assert_eq!(AdcCalibration::new(1, 2, 3, AdcResolution::Bits12).max, 4095);
    assert_eq!(AdcCalibration::new(1, 2, 3, AdcResolution::Bits10).max, 1023);
    assert_eq!(AdcCalibration::new(1, 2, 3, AdcResolution::Bits8).max, 255);
    assert_eq!(AdcCalibration::new(1, 2, 3, AdcResolution::Bits6).max, 63);
}

#[test]
fn vdda_from_reference() {
    let cal = calibration();
    assert_eq!(cal.vdda_mv(1527), 3300);
    assert_eq!(cal.vdda_mv(1400), 3599);
    assert_eq!(cal.vdda_mv(100), 50391);
    let full = AdcCalibration::new(u16::MAX, 0, 1, AdcResolution::Bits12);
    assert_eq!(full.vdda_mv(1), 65535 * 3300);
}

#[test]
fn chip_temperature_at_calibration_points() {
    let cal = calibration();
    assert_eq!(cal.chip_celsius(1750, 3300), 30);
    assert_eq!(cal.chip_celsius(1340, 3300), 110);
}

#[test]
fn chip_temperature_interpolates_and_rounds_toward_zero() {
    let cal = calibration();
    assert_eq!(cal.chip_celsius(1600, 3300), 59);
    // At 3000 mV the count 1600 is 1454 at 3.3 V: (1454 - 1750) * 80 / -410 = 57.75.
    assert_eq!(cal.chip_celsius(1600, 3000), 87);
    assert_eq!(cal.checked_chip_celsius(1600, 3000), Some(87));
    // (1841 - 1750) * 80 / -410 is -17.76: rounded toward zero, not down.
    assert_eq!(cal.chip_celsius(1841, 3300), 13);
}

#[test]
fn chip_temperature_undefined_inputs() {
    let cal = calibration();
    // With no supply the sensor count refers to zero.
    assert_eq!(cal.checked_chip_celsius(1600, 0), Some(371));
    let flat = AdcCalibration::new(1527, 1750, 1750, AdcResolution::Bits12);
    assert_eq!(flat.checked_chip_celsius(1600, 3300), None);
    // (65535 * 2000000 / 3300 - 1750) * 80 does not fit in i32.
    assert_eq!(cal.checked_chip_celsius(65535, 2_000_000), None);
}

#[test]
fn divider_conversion() {
    let cal = calibration();
    let cv = Converter::from_vdda(&cal, 3300);
    assert_eq!(cv.vdda, 3300);
    assert_eq!(cv.max, 4095);
    assert_eq!(cv.convert_reading(1000, 10, 3), 2683);
    assert_eq!(cv.convert_reading(2000, 4, 1), 6444);
    assert_eq!(cv.convert_reading(4095, 1, 1), 3300);
    assert_eq!(cv.convert_reading(0, 4, 1), 0);
    assert!(cv.can_convert_reading(4095, 4, 1));
    assert!(!cv.can_convert_reading(4095, 4, 0));
    let huge = Converter::from_vdda(&cal, u32::MAX);
    assert!(!huge.can_convert_reading(2, 1, 1));
}

#[test]
fn conversion_is_monotone_on_samples() {
    let cv = Converter::from_vdda(&calibration(), 3300);
    let mut last = 0;
    for raw in 0..4096u16 {
        let v = cv.convert_reading(raw, 10, 3);
        assert!(v >= last);
        last = v;
    }
}

#[test]
fn full_pass() {
    let cal = calibration();
    let raw: [u16; 8] = [100, 200, 300, 400, 1600, 1527, 1000, 2000];
    let ts: [i32; 4] = [-5, 0, 25000, 45000];
    assert!(cal.can_convert(&raw));
    let r: Reading = cal.convert(&raw, &ts);
    assert_eq!(r.ts, [-5, 0, 25000, 45000]);
    assert_eq!(r.chip_temperature, 59000);
    assert_eq!(r.output_current_ma, 2683);
    assert_eq!(r.output_voltage_mv, 6444);
}

#[test]
fn full_pass_cuts_to_sixteen_bits() {
    let cal = calibration();
    let raw: [u16; 8] = [0, 0, 0, 0, 1600, 100, 1000, 4095];
    assert!(cal.can_convert(&raw));
    let r = cal.convert(&raw, &[0, 0, 0, 0]);
    assert_eq!(r.chip_temperature, -4395000);
    assert_eq!(r.output_current_ma, 41016);
    // 50391 * 4 = 201564 does not fit in 16 bits.
    assert_eq!(r.output_voltage_mv, (201564u32 % 65536) as u16);
}

#[test]
fn full_pass_refused() {
    let cal = calibration();
    assert!(!cal.can_convert(&[0, 0, 0, 0, 1600, 0, 1000, 2000]));
    let flat = AdcCalibration::new(1527, 1750, 1750, AdcResolution::Bits12);
    assert!(!flat.can_convert(&[0, 0, 0, 0, 1600, 1527, 1000, 2000]));
    let zero_max = AdcCalibration { vref_cal: 1527, t30_cal: 1750, t110_cal: 1340, max: 0 };
    assert!(!zero_max.can_convert(&[0, 0, 0, 0, 1600, 1527, 1000, 2000]));
}

#[test]
fn full_pass_at_three_volts() {
    let cal = AdcCalibration::new(1500, 1750, 1340, AdcResolution::Bits12);
    let raw: [u16; 8] = [0, 0, 0, 0, 1600, 1650, 1000, 2000];
    assert_eq!(cal.vdda_mv(1650), 3000);
    assert!(cal.can_convert(&raw));
    let r = cal.convert(&raw, &[0, 0, 0, 0]);
    assert_eq!(r.chip_temperature, 87000);
    // 1000 * 3000 / 4095 = 732 mV, * 10 / 3.
    assert_eq!(r.output_current_ma, 2440);
    // 2000 * 3000 / 4095 = 1465 mV, * 4.
    assert_eq!(r.output_voltage_mv, 5860);
}

#[test]
fn full_pass_without_supply() {
    // The reference is so low that VDDA is zero: every voltage reads zero.
    let low = AdcCalibration::new(1, 1750, 1340, AdcResolution::Bits12);
    let raw: [u16; 8] = [0, 0, 0, 0, 1600, 4000, 1000, 2000];
    assert!(low.can_convert(&raw));
    let r = low.convert(&raw, &[0, 0, 0, 0]);
    assert_eq!(r.output_current_ma, 0);
    assert_eq!(r.output_voltage_mv, 0);
    assert_eq!(r.chip_temperature, 371000);
}
