use firmware::adc::{AdcCalibration, AdcResolution};
use firmware::supply::{
    supervise, ButtonEvent, Color, PowerButton, BATT_LOW_THRESHOLD_MV, CONTROL_LOW_THRESHOLD_MV, HOLD_MS,
};

fn calibration() -> AdcCalibration {
    AdcCalibration::new(1527, 1750, 1340, AdcResolution::Bits12)
}

#[test]
fn healthy_supply_stays_on() {
    let cal = calibration();
    assert!(cal.can_sample(1564, 1500, 1527, 1750));
    let s = cal.supply_sample(1564, 1500, 1527, 1750);
    assert_eq!(s.battery_voltage_mv, 12600);
    assert_eq!(s.control_voltage_mv, 12080);
    assert_eq!(s.cpu_temperature, 30);
    assert!(!s.shutdown);
}

#[test]
fn low_battery_switches_off() {
    let s = calibration().supply_sample(1500, 1500, 1527, 1750);
    assert_eq!(s.battery_voltage_mv, 12080);
    assert!(s.battery_voltage_mv < BATT_LOW_THRESHOLD_MV);
    assert!(s.shutdown);
}

#[test]
fn low_control_line_switches_off() {
    let s = calibration().supply_sample(1564, 1200, 1527, 1340);
    assert_eq!(s.control_voltage_mv, 9670);
    assert!(s.control_voltage_mv < CONTROL_LOW_THRESHOLD_MV);
    assert_eq!(s.cpu_temperature, 110);
    assert!(s.shutdown);
}

#[test]
fn thresholds_are_exclusive() {
    // 1241 * 3300 / 4095 = 1000 mV at the pin, 10000 mV on the line.
    let s = calibration().supply_sample(1564, 1241, 1527, 1750);
    assert_eq!(s.control_voltage_mv, 10000);
    assert!(!s.shutdown);
}

#[test]
fn chip_temperature_referred_to_calibration_supply() {
    // VREFINT_CAL 1500 read as 1650: the supply is at 3000 mV.
    let cal = AdcCalibration::new(1500, 1750, 1340, AdcResolution::Bits12);
    let s = cal.supply_sample(1723, 1500, 1650, 1600);
    assert_eq!(s.cpu_temperature, 87);
    // 1723 * 3000 / 4095 = 1262 mV at the pin.
    assert_eq!(s.battery_voltage_mv, 12620);
    assert_eq!(s.control_voltage_mv, 10980);
    assert!(!s.shutdown);
}

#[test]
fn sample_refused_without_reference() {
    let cal = calibration();
    assert!(!cal.can_sample(1564, 1500, 0, 1750));
    let flat = AdcCalibration::new(1527, 1750, 1750, AdcResolution::Bits12);
    assert!(!flat.can_sample(1564, 1500, 1527, 1750));
}

#[test]
fn supervision_loop_outputs() {
    assert!(matches!(supervise(true, false), (Color::Blue, false)));
    assert!(matches!(supervise(false, true), (Color::Green, true)));
    assert!(matches!(supervise(true, true), (Color::Blue, true)));
}

#[test]
fn long_press_switches_off() {
    assert_eq!(HOLD_MS, 1000);
    let mut b = PowerButton::new();
    assert_eq!(b.deadline(), None);
    assert!(!b.step(ButtonEvent::RisingEdge, 5000));
    assert_eq!(b.held_since, Some(5000));
    assert_eq!(b.deadline(), Some(6000));
    assert!(!b.step(ButtonEvent::Time, 5999));
    assert_eq!(b.held_since, Some(5000));
    assert!(b.step(ButtonEvent::Time, 6000));
    assert_eq!(b.held_since, None);
    // Still held: nothing more until the next press.
    assert!(!b.step(ButtonEvent::Time, 9000));
}

#[test]
fn short_press_is_ignored() {
    let mut b = PowerButton::new();
    assert!(!b.step(ButtonEvent::RisingEdge, 100));
    assert!(!b.step(ButtonEvent::Low, 600));
    assert_eq!(b.held_since, None);
    assert!(!b.step(ButtonEvent::Time, 5000));
    assert!(!b.step(ButtonEvent::Low, 5000));
}

#[test]
fn deadline_saturates() {
    let mut b = PowerButton::new();
    b.step(ButtonEvent::RisingEdge, u64::MAX - 10);
    assert_eq!(b.deadline(), Some(u64::MAX));
}
