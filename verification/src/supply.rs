//! Battery supply monitoring of the power switch: voltages of the battery and
//! of the control line, chip temperature, and the decision to switch off.
use vstd::prelude::*;
use crate::adc::{AdcCalibration, Converter, scale_defined, scaled_spec};

verus! {

/// Below this battery voltage (mV) the supply switches itself off.
pub const BATT_LOW_THRESHOLD_MV: u16 = 12200;
/// Below this control line voltage (mV) the supply switches itself off.
pub const CONTROL_LOW_THRESHOLD_MV: u16 = 10000;
/// Ratio of the voltage dividers on the battery and control inputs.
pub const VOLT_FACTOR: u32 = 10;

/// What one pass of the monitor measured and decided.
#[derive(Clone, Copy, Debug)]
pub struct SupplySample {
    pub battery_voltage_mv: u16,
    pub control_voltage_mv: u16,
    /// Chip temperature in °C.
    pub cpu_temperature: i16,
    /// The supply must switch off.
    pub shutdown: bool,
}

/// The supply must switch off when either voltage is below its threshold.
pub open spec fn needs_shutdown(control_mv: int, battery_mv: int) -> bool {
    control_mv < CONTROL_LOW_THRESHOLD_MV || battery_mv < BATT_LOW_THRESHOLD_MV
}

impl AdcCalibration {
    /// Every formula of a monitor pass is defined and stays in range.
    pub open spec fn supply_defined(self, voltage: int, control: int, vref: int, temperature: int) -> bool {
        let vdda: int = self.vdda_of(vref);
        &&& vref > 0
        &&& self.chip_celsius_defined(temperature, vdda)
        &&& scale_defined(voltage, vdda, self.max as int, VOLT_FACTOR as int, 1)
        &&& scale_defined(control, vdda, self.max as int, VOLT_FACTOR as int, 1)
    }

    /// `s` is what a monitor pass makes of the four raw samples.
    pub open spec fn is_supply_sample_of(self, voltage: int, control: int, vref: int, temperature: int, s: SupplySample) -> bool {
        let vdda: int = self.vdda_of(vref);
        &&& s.battery_voltage_mv == scaled_spec(voltage, vdda, self.max as int, VOLT_FACTOR as int, 1) as u16
        &&& s.control_voltage_mv == scaled_spec(control, vdda, self.max as int, VOLT_FACTOR as int, 1) as u16
        &&& s.cpu_temperature == self.chip_celsius_of(temperature, vdda) as i16
        &&& s.shutdown == needs_shutdown(s.control_voltage_mv as int, s.battery_voltage_mv as int)
    }

    /// One monitor pass over raw samples of the battery divider, the control
    /// line divider, the internal reference and the internal temperature
    /// sensor. Voltages are cut to 16 bits and the temperature to `i16`, as
    /// `as` does.
    pub fn supply_sample(&self, voltage: u16, control: u16, vref: u16, temperature: u16) -> (s: SupplySample)
        requires
            self.supply_defined(voltage as int, control as int, vref as int, temperature as int),
        ensures
            self.is_supply_sample_of(voltage as int, control as int, vref as int, temperature as int, s),
            s.shutdown <==> (s.control_voltage_mv < 10000 || s.battery_voltage_mv < 12200),
    {
        let vdda: u32 = self.vdda_mv(vref);
        let cv = Converter::from_vdda(self, vdda);
        let cpu_temperature: i16 = self.chip_celsius(temperature, vdda) as i16;
        let battery_voltage_mv: u16 = cv.convert_reading(voltage, VOLT_FACTOR, 1) as u16;
        let control_voltage_mv: u16 = cv.convert_reading(control, VOLT_FACTOR, 1) as u16;
        let shutdown = control_voltage_mv < CONTROL_LOW_THRESHOLD_MV
            || battery_voltage_mv < BATT_LOW_THRESHOLD_MV;
        SupplySample { battery_voltage_mv, control_voltage_mv, cpu_temperature, shutdown }
    }

    /// Tells whether `supply_sample` may be called on these samples.
    pub fn can_sample(&self, voltage: u16, control: u16, vref: u16, temperature: u16) -> (b: bool)
        ensures
            b == self.supply_defined(voltage as int, control as int, vref as int, temperature as int),
    {
        if vref == 0 {
            return false;
        }
        let vdda: u32 = self.vdda_mv(vref);
        let cv = Converter::from_vdda(self, vdda);
        self.checked_chip_celsius(temperature, vdda).is_some()
            && cv.can_convert_reading(voltage, VOLT_FACTOR, 1)
            && cv.can_convert_reading(control, VOLT_FACTOR, 1)
    }
}

} // verus!

verus! {

/// A monitor pass switches the supply off exactly when the control line is
/// below 10000 mV or the battery below 12200 mV: with both at or above
/// their thresholds it never does.
pub proof fn lemma_switch_off_thresholds(
    cal: AdcCalibration,
    voltage: int,
    control: int,
    vref: int,
    temperature: int,
    s: SupplySample,
)
    requires
        cal.is_supply_sample_of(voltage, control, vref, temperature, s),
    ensures
        s.shutdown <==> (s.control_voltage_mv < 10000 || s.battery_voltage_mv < 12200),
        s.control_voltage_mv >= 10000 && s.battery_voltage_mv >= 12200 ==> !s.shutdown,
{
}

/// The battery and control voltages are the pin voltages, rounded down,
/// times the divider ratio 10, cut to 16 bits.
pub proof fn lemma_supply_voltages(
    cal: AdcCalibration,
    voltage: int,
    control: int,
    vref: int,
    temperature: int,
    s: SupplySample,
)
    requires
        cal.is_supply_sample_of(voltage, control, vref, temperature, s),
        voltage >= 0,
        control >= 0,
        vref > 0,
        cal.max > 0,
    ensures
        ({
            let vdda = cal.vdda_of(vref);
            let pin_b = scaled_spec(voltage, vdda, cal.max as int, 1, 1);
            let pin_c = scaled_spec(control, vdda, cal.max as int, 1, 1);
            &&& pin_b * cal.max <= voltage * vdda < (pin_b + 1) * cal.max
            &&& pin_c * cal.max <= control * vdda < (pin_c + 1) * cal.max
            &&& s.battery_voltage_mv == (pin_b * 10) as u16
            &&& s.control_voltage_mv == (pin_c * 10) as u16
        }),
{
    let vdda = cal.vdda_of(vref);
    crate::adc::lemma_vdda_rounds_down(cal.vref_cal as int, vref);
    assert(vdda >= 0) by {
        vstd::arithmetic::div_mod::lemma_div_pos_is_pos(cal.vref_cal * 3300, vref);
    }
    crate::adc::lemma_scaled_rounds_down(voltage, vdda, cal.max as int, 10, 1);
    crate::adc::lemma_scaled_rounds_down(control, vdda, cal.max as int, 10, 1);
    let pin_b = scaled_spec(voltage, vdda, cal.max as int, 1, 1);
    let pin_c = scaled_spec(control, vdda, cal.max as int, 1, 1);
    assert(voltage * vdda / (cal.max as int) == pin_b);
    assert(control * vdda / (cal.max as int) == pin_c);
    vstd::arithmetic::div_mod::lemma_div_basics(pin_b * 10);
    vstd::arithmetic::div_mod::lemma_div_basics(pin_c * 10);
}

/// Colours of the status LED of the power switch.
#[derive(Clone, Copy, Debug)]
pub enum Color {
    Off,
    Red,
    Green,
    Blue,
    Magenta,
}

/// One pass of the supervision loop while the supply is on: the LED shows
/// blue while the 12 V power-good line is low and green otherwise, and the
/// 12 V enable output follows the request to switch 12 V on.
pub fn supervise(pg_12v_low: bool, want_12v: bool) -> (r: (Color, bool))
    ensures
        r.0 == (if pg_12v_low { Color::Blue } else { Color::Green }),
        r.1 == want_12v,
{
    let color = if pg_12v_low { Color::Blue } else { Color::Green };
    (color, want_12v)
}

} // verus!

verus! {

/// How long, in milliseconds, the power button must be held to switch off.
pub const HOLD_MS: u64 = 1000;

/// What the power button task has just seen.
#[derive(Clone, Copy, Debug)]
pub enum ButtonEvent {
    /// The button line went high: the button was pressed.
    RisingEdge,
    /// The button line is low: the button was released.
    Low,
    /// Time passed without a change of the line.
    Time,
}

/// State of the power button watcher.
#[derive(Clone, Copy, Debug)]
pub struct PowerButton {
    /// Time (milliseconds) of the press being watched, if any.
    pub held_since: Option<u64>,
}

/// Next state after `event` at time `now` (milliseconds), and whether the
/// supply must switch off: a press held for `HOLD_MS` switches it off, a
/// release before that cancels the press, and after a switch-off request
/// the watcher waits for the next press.
pub open spec fn button_step(s: PowerButton, event: ButtonEvent, now: u64) -> (PowerButton, bool) {
    match (s.held_since, event) {
        (None, ButtonEvent::RisingEdge) => (PowerButton { held_since: Some(now) }, false),
        (Some(_), ButtonEvent::Low) => (PowerButton { held_since: None }, false),
        (Some(t), ButtonEvent::Time) => if now >= t && now - t >= HOLD_MS {
            (PowerButton { held_since: None }, true)
        } else {
            (s, false)
        },
        _ => (s, false),
    }
}

impl PowerButton {
    /// No press watched.
    pub fn new() -> (r: Self)
        ensures
            r.held_since is None,
    {
        PowerButton { held_since: None }
    }

    /// Feeds one event seen at `now`; returns whether the supply must switch off.
    pub fn step(&mut self, event: ButtonEvent, now: u64) -> (shutdown: bool)
        ensures
            (*final(self), shutdown) == button_step(*old(self), event, now),
            old(self).held_since is None && event is RisingEdge ==> final(self).held_since == Some(now),
            shutdown ==> (old(self).held_since matches Some(t) && now >= t && now - t >= 1000),
    {
        match (self.held_since, event) {
            (None, ButtonEvent::RisingEdge) => {
                self.held_since = Some(now);
                false
            },
            (Some(_), ButtonEvent::Low) => {
                self.held_since = None;
                false
            },
            (Some(t), ButtonEvent::Time) => {
                if now >= t && now - t >= HOLD_MS {
                    self.held_since = None;
                    true
                } else {
                    false
                }
            },
            _ => false,
        }
    }

    /// Time (milliseconds) at which the watched press becomes a switch-off
    /// request; `u64::MAX` when that time is past the clock's range.
    pub fn deadline(&self) -> (r: Option<u64>)
        ensures
            r == (match self.held_since {
                None => None,
                Some(t) => Some(if t + HOLD_MS > u64::MAX { u64::MAX } else { (t + HOLD_MS) as u64 }),
            }),
    {
        match self.held_since {
            None => None,
            Some(t) => Some(if t > u64::MAX - HOLD_MS { u64::MAX } else { t + HOLD_MS }),
        }
    }
}

/// A press seen by an idle watcher at `pressed` is recorded at that time.
/// From then on, a release cancels it without switching off; a time step at
/// `now` switches off exactly when `now` is at least 1000 ms after the press;
/// and no event switches off earlier.
pub proof fn lemma_press_then_event(s: PowerButton, pressed: u64, event: ButtonEvent, now: u64)
    requires
        s.held_since is None,
        pressed <= now,
    ensures
        ({
            let (held, first) = button_step(s, ButtonEvent::RisingEdge, pressed);
            let (after, shutdown) = button_step(held, event, now);
            &&& !first
            &&& held.held_since == Some(pressed)
            &&& (shutdown ==> now >= pressed + 1000)
            &&& (event is Time ==> (shutdown <==> now >= pressed + 1000))
            &&& (event is Low ==> !shutdown && after.held_since is None)
        }),
{
}

/// A switch-off is requested only for a press that was seen, not released,
/// and held for at least `HOLD_MS`; afterwards no press is watched.
pub proof fn lemma_switch_off_needs_long_press(s: PowerButton, event: ButtonEvent, now: u64)
    ensures
        ({
            let (t, shutdown) = button_step(s, event, now);
            shutdown ==> {
                &&& event is Time
                &&& s.held_since matches Some(since) && now >= since && now - since >= HOLD_MS
                &&& t.held_since is None
            }
        }),
{
}

} // verus!
