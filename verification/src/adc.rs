//! Conversion of raw ADC samples into physical values: the supply voltage VDDA
//! from the internal reference, the chip temperature from the internal sensor,
//! and scaled voltages and currents from external dividers.
use vstd::prelude::*;
use crate::arith::{tdiv, div_trunc, lemma_tdiv_rounds_toward_zero};
use embassy_stm32::adc::{resolution_to_max_count, Resolution, VDDA_CALIB_MV};

verus! {

/// Sample resolution of the ADC.
#[derive(Clone, Copy, Debug)]
pub enum AdcResolution {
    Bits12,
    Bits10,
    Bits8,
    Bits6,
}

impl AdcResolution {
    /// Largest raw reading at this resolution, `2^bits - 1`.
    pub open spec fn max_count(self) -> nat {
        match self {
            AdcResolution::Bits12 => 4095,
            AdcResolution::Bits10 => 1023,
            AdcResolution::Bits8 => 255,
            AdcResolution::Bits6 => 63,
        }
    }
}

/// Calls `embassy_stm32::adc::resolution_to_max_count`, whose documentation
/// says it returns `2^n - 1` for an `n`-bit resolution.
#[verifier::external_body]
fn resolution_max_count(res: AdcResolution) -> (r: u32)
    ensures
        r == res.max_count(),
{
    let hal_res = match res {
        AdcResolution::Bits12 => Resolution::BITS12,
        AdcResolution::Bits10 => Resolution::BITS10,
        AdcResolution::Bits8 => Resolution::BITS8,
        AdcResolution::Bits6 => Resolution::BITS6,
    };
    resolution_to_max_count(hal_res)
}

/// Supply voltage, in millivolts, at which the factory calibration values
/// were measured.
pub open spec fn calibration_vdda_mv() -> int {
    3300
}

/// Reads `embassy_stm32::adc::VDDA_CALIB_MV`, which the crate defines as 3300
/// for this chip family.
#[verifier::external_body]
fn vdda_calib_mv() -> (r: u32)
    ensures
        r == calibration_vdda_mv(),
{
    VDDA_CALIB_MV
}

/// The values the conversions need besides the samples themselves: the
/// factory calibration words of the chip and the largest raw reading.
#[derive(Clone, Copy, Debug)]
pub struct AdcCalibration {
    /// Reference reading at 3.3 V (VREFINT_CAL).
    pub vref_cal: u16,
    /// Temperature sensor reading at 30 °C (TS_CAL1).
    pub t30_cal: u16,
    /// Temperature sensor reading at 110 °C (TS_CAL2).
    pub t110_cal: u16,
    /// Largest raw reading at the configured resolution.
    pub max: u32,
}

/// Supply voltage in millivolts from a reference reading:
/// `VDDA = 3.3 V * VREFINT_CAL / VREFINT_DATA`.
pub open spec fn vdda_spec(vref_cal: int, vref: int) -> int {
    vref_cal * calibration_vdda_mv() / vref
}

/// Sensor reading taken at supply `vdda` (millivolts), referred to the
/// 3.3 V supply at which the calibration points were measured:
/// `TS_DATA = raw * VDDA / 3.3 V`.
pub open spec fn sensor_at_calibration(raw: int, vdda: int) -> int {
    raw * vdda / 3300
}

/// Numerator of the sensor interpolation, `(TS_DATA - TS_CAL1) * (110 - 30)`.
pub open spec fn celsius_numerator(raw: int, vdda: int, t30: int) -> int {
    (sensor_at_calibration(raw, vdda) - t30) * 80
}

/// Chip temperature in °C, interpolated linearly between the two calibration
/// points and rounded toward zero:
/// `T = (110 - 30) * (TS_DATA - TS_CAL1) / (TS_CAL2 - TS_CAL1) + 30`.
pub open spec fn chip_celsius_spec(raw: int, vdda: int, t30: int, t110: int) -> int {
    tdiv(celsius_numerator(raw, vdda, t30), t110 - t30) + 30
}

/// A reading scaled to millivolts at supply `vdda` and full scale `max`, then
/// multiplied by `nominator / denominator`, each step rounded down as the
/// integer operations do.
pub open spec fn scaled_spec(reading: int, vdda: int, max: int, nominator: int, denominator: int) -> int {
    reading * vdda / max * nominator / denominator
}

/// `scaled_spec` is defined and no intermediate value leaves `u32`.
pub open spec fn scale_defined(reading: int, vdda: int, max: int, nominator: int, denominator: int) -> bool {
    &&& max > 0
    &&& denominator > 0
    &&& reading * vdda <= u32::MAX
    &&& reading * vdda / max * nominator <= u32::MAX
}

pub open spec fn in_i32(x: int) -> bool {
    i32::MIN <= x <= i32::MAX
}

impl AdcCalibration {
    /// Collects the calibration words and derives the largest reading from
    /// the resolution.
    pub fn new(vref_cal: u16, t30_cal: u16, t110_cal: u16, resolution: AdcResolution) -> (r: Self)
        ensures
            r.vref_cal == vref_cal,
            r.t30_cal == t30_cal,
            r.t110_cal == t110_cal,
            r.max == resolution.max_count(),
    {
        let max: u32 = resolution_max_count(resolution);
        AdcCalibration { vref_cal, t30_cal, t110_cal, max }
    }

    pub open spec fn vdda_of(self, vref: int) -> int {
        vdda_spec(self.vref_cal as int, vref)
    }

    pub open spec fn chip_celsius_of(self, raw: int, vdda: int) -> int {
        chip_celsius_spec(raw, vdda, self.t30_cal as int, self.t110_cal as int)
    }

    /// The chip temperature formula is defined and every step fits in `i32`.
    pub open spec fn chip_celsius_defined(self, raw: int, vdda: int) -> bool {
        &&& self.t110_cal != self.t30_cal
        &&& in_i32(celsius_numerator(raw, vdda, self.t30_cal as int))
        &&& in_i32(self.chip_celsius_of(raw, vdda))
    }

    /// Supply voltage VDDA in millivolts, from a reading of the internal
    /// reference.
    pub fn vdda_mv(&self, vref: u16) -> (r: u32)
        requires
            vref > 0,
        ensures
            r == self.vdda_of(vref as int),
            r <= 65535 * 3300,
    {
        let calib: u32 = vdda_calib_mv();
        proof {
            assert(self.vref_cal * 3300 <= 65535 * 3300) by (nonlinear_arith)
                requires
                    self.vref_cal <= 65535,
            ;
            vstd::arithmetic::div_mod::lemma_div_is_ordered_by_denominator(
                self.vref_cal * 3300,
                1,
                vref as int,
            );
        }
        (self.vref_cal as u32 * calib) / vref as u32
    }

    /// Chip temperature in °C from a reading of the internal sensor taken at
    /// supply `vdda` (millivolts).
    pub fn chip_celsius(&self, raw: u16, vdda: u32) -> (r: i32)
        requires
            self.chip_celsius_defined(raw as int, vdda as int),
        ensures
            r == self.chip_celsius_of(raw as int, vdda as int),
    {
        let num: i64 = Self::celsius_numerator_wide(raw, vdda, self.t30_cal);
        let num: i32 = num as i32;
        let den: i32 = self.t110_cal as i32 - self.t30_cal as i32;
        div_trunc(num, den) + 30
    }
}

/// Converts readings of external dividers at a known supply voltage.
#[derive(Clone, Copy, Debug)]
pub struct Converter {
    /// Supply voltage in millivolts.
    pub vdda: u32,
    /// Largest raw reading.
    pub max: u32,
}

impl Converter {
    pub fn from_vdda(state: &AdcCalibration, vdda: u32) -> (r: Self)
        ensures
            r.vdda == vdda,
            r.max == state.max,
    {
        Converter { vdda, max: state.max }
    }

    /// The conversion is defined and no step leaves `u32`.
    pub open spec fn convert_defined(self, reading: int, nominator: int, denominator: int) -> bool {
        scale_defined(reading, self.vdda as int, self.max as int, nominator, denominator)
    }

    /// Millivolts at the pin, times `nominator / denominator`:
    /// `reading * vdda / max * nominator / denominator`.
    pub fn convert_reading(&self, reading: u16, nominator: u32, denominator: u32) -> (r: u32)
        requires
            self.convert_defined(reading as int, nominator as int, denominator as int),
        ensures
            r == scaled_spec(reading as int, self.vdda as int, self.max as int, nominator as int, denominator as int),
            reading == self.max && nominator == denominator ==> r == self.vdda,
    {
        proof {
            if reading == self.max && nominator == denominator {
                lemma_full_scale_reads_supply(self.vdda as int, self.max as int, nominator as int);
            }
        }
        let pin_mv: u32 = reading as u32 * self.vdda / self.max;
        let scaled: u32 = pin_mv * nominator;
        proof {
            vstd::arithmetic::div_mod::lemma_div_is_ordered_by_denominator(scaled as int, 1, denominator as int);
        }
        scaled / denominator
    }
}

} // verus!

verus! {

/// Slot of the first of the four thermistor samples in a pass.
pub const TS_SLOT: usize = 0;
/// Slot of the chip temperature sensor sample.
pub const TEMP_SENSOR_SLOT: usize = 4;
/// Slot of the internal reference sample.
pub const REFERENCE_SLOT: usize = 5;
/// Slot of the output current sense sample.
pub const ISENSE_SLOT: usize = 6;
/// Slot of the output voltage sense sample.
pub const VSENSE_SLOT: usize = 7;

/// Output voltage divider ratio.
pub const VOLTAGE_FACTOR: u32 = 4;
/// Output current sense gain, as the fraction `CURRENT_FACTOR_N / CURRENT_FACTOR_D`.
pub const CURRENT_FACTOR_N: u32 = 10;
pub const CURRENT_FACTOR_D: u32 = 3;

/// One converted pass over the eight ADC inputs of the temperature controller.
#[derive(Debug)]
pub struct Reading {
    /// Thermistor temperatures in 1/1000 °C.
    pub ts: [i32; 4],
    /// Chip temperature in 1/1000 °C (whole degrees times 1000).
    pub chip_temperature: i32,
    pub output_current_ma: u16,
    pub output_voltage_mv: u16,
}

impl AdcCalibration {
    /// Every formula of a pass over `raw` is defined and stays in range.
    pub open spec fn reading_defined(self, raw: Seq<u16>) -> bool {
        let vdda: int = self.vdda_of(raw[REFERENCE_SLOT as int] as int);
        &&& raw.len() == 8
        &&& raw[REFERENCE_SLOT as int] > 0
        &&& self.chip_celsius_defined(raw[TEMP_SENSOR_SLOT as int] as int, vdda)
        &&& in_i32(self.chip_celsius_of(raw[TEMP_SENSOR_SLOT as int] as int, vdda) * 1000)
        &&& scale_defined(raw[ISENSE_SLOT as int] as int, vdda, self.max as int,
            CURRENT_FACTOR_N as int, CURRENT_FACTOR_D as int)
        &&& scale_defined(raw[VSENSE_SLOT as int] as int, vdda, self.max as int,
            VOLTAGE_FACTOR as int, 1)
    }

    /// `r` is the reading of the raw pass `raw`, with the thermistor
    /// temperatures `ts` (1/1000 °C) computed from its first four slots.
    pub open spec fn is_reading_of(self, raw: Seq<u16>, ts: Seq<i32>, r: Reading) -> bool {
        let vdda: int = self.vdda_of(raw[REFERENCE_SLOT as int] as int);
        &&& forall|i: int| 0 <= i < 4 ==> r.ts[i] == ts[i]
        &&& r.chip_temperature == self.chip_celsius_of(raw[TEMP_SENSOR_SLOT as int] as int, vdda) * 1000
        &&& r.output_current_ma == scaled_spec(raw[ISENSE_SLOT as int] as int, vdda, self.max as int,
            CURRENT_FACTOR_N as int, CURRENT_FACTOR_D as int) as u16
        &&& r.output_voltage_mv == scaled_spec(raw[VSENSE_SLOT as int] as int, vdda, self.max as int,
            VOLTAGE_FACTOR as int, 1) as u16
    }

    /// Converts one pass of raw samples. The current and voltage are cut to
    /// their low 16 bits, as `as u16` does.
    pub fn convert(&self, raw: &[u16; 8], ts: &[i32; 4]) -> (r: Reading)
        requires
            self.reading_defined(raw@),
        ensures
            self.is_reading_of(raw@, ts@, r),
    {
        let vdda: u32 = self.vdda_mv(raw[REFERENCE_SLOT]);
        let cv = Converter::from_vdda(self, vdda);
        let chip_temperature: i32 = self.chip_celsius(raw[TEMP_SENSOR_SLOT], vdda) * 1000;
        let output_current_ma: u16 = cv.convert_reading(raw[ISENSE_SLOT], CURRENT_FACTOR_N, CURRENT_FACTOR_D) as u16;
        let output_voltage_mv: u16 = cv.convert_reading(raw[VSENSE_SLOT], VOLTAGE_FACTOR, 1) as u16;
        Reading {
            ts: [ts[0], ts[1], ts[2], ts[3]],
            chip_temperature,
            output_current_ma,
            output_voltage_mv,
        }
    }
}

} // verus!

verus! {

impl Converter {
    /// Tells whether `convert_reading(reading, nominator, denominator)` may be called.
    pub fn can_convert_reading(&self, reading: u16, nominator: u32, denominator: u32) -> (b: bool)
        ensures
            b == self.convert_defined(reading as int, nominator as int, denominator as int),
    {
        if self.max == 0 || denominator == 0 {
            return false;
        }
        proof {
            assert(reading * self.vdda <= 65535 * 0xffff_ffff) by (nonlinear_arith)
                requires
                    reading <= 65535,
                    self.vdda <= 0xffff_ffff,
            ;
        }
        let product: u64 = reading as u64 * self.vdda as u64;
        if product > u32::MAX as u64 {
            return false;
        }
        let pin_mv: u64 = product / self.max as u64;
        proof {
            vstd::arithmetic::div_mod::lemma_div_is_ordered_by_denominator(product as int, 1, self.max as int);
            assert(pin_mv * nominator <= 0xffff_ffff * 0xffff_ffff) by (nonlinear_arith)
                requires
                    pin_mv <= 0xffff_ffff,
                    nominator <= 0xffff_ffff,
            ;
        }
        pin_mv * (nominator as u64) <= u32::MAX as u64
    }
}

impl AdcCalibration {
    /// `celsius_numerator`, computed in `i64`, where it always fits.
    fn celsius_numerator_wide(raw: u16, vdda: u32, t30: u16) -> (r: i64)
        ensures
            r == celsius_numerator(raw as int, vdda as int, t30 as int),
    {
        proof {
            assert(0 <= raw * vdda <= 65535 * 0xffff_ffff) by (nonlinear_arith)
                requires
                    raw <= 65535,
                    vdda <= 0xffff_ffff,
            ;
            vstd::arithmetic::div_mod::lemma_div_is_ordered_by_denominator(raw * vdda, 1, 3300);
            vstd::arithmetic::div_mod::lemma_div_pos_is_pos(raw * vdda, 3300);
        }
        let ts: i64 = raw as i64 * vdda as i64 / 3300;
        (ts - t30 as i64) * 80
    }

    /// Tells whether `chip_celsius(raw, vdda)` may be called, and gives its
    /// value when it may.
    pub fn checked_chip_celsius(&self, raw: u16, vdda: u32) -> (r: Option<i32>)
        ensures
            r is Some <==> self.chip_celsius_defined(raw as int, vdda as int),
            r matches Some(c) ==> c == self.chip_celsius_of(raw as int, vdda as int),
    {
        if self.t110_cal == self.t30_cal {
            return None;
        }
        let num: i64 = Self::celsius_numerator_wide(raw, vdda, self.t30_cal);
        if num < i32::MIN as i64 || num > i32::MAX as i64 {
            return None;
        }
        let den: i32 = self.t110_cal as i32 - self.t30_cal as i32;
        let q: i32 = div_trunc(num as i32, den);
        if q > i32::MAX - 30 {
            return None;
        }
        Some(q + 30)
    }

    /// Tells whether `convert(raw, _)` may be called.
    pub fn can_convert(&self, raw: &[u16; 8]) -> (b: bool)
        ensures
            b == self.reading_defined(raw@),
    {
        if raw[REFERENCE_SLOT] == 0 {
            return false;
        }
        let vdda: u32 = self.vdda_mv(raw[REFERENCE_SLOT]);
        match self.checked_chip_celsius(raw[TEMP_SENSOR_SLOT], vdda) {
            None => false,
            Some(c) => {
                let milli: i64 = c as i64 * 1000;
                if milli < i32::MIN as i64 || milli > i32::MAX as i64 {
                    return false;
                }
                let cv = Converter::from_vdda(self, vdda);
                cv.can_convert_reading(raw[ISENSE_SLOT], CURRENT_FACTOR_N, CURRENT_FACTOR_D)
                    && cv.can_convert_reading(raw[VSENSE_SLOT], VOLTAGE_FACTOR, 1)
            },
        }
    }
}

} // verus!

verus! {

/// Calibration points: a reference reading equal to VREFINT_CAL means the
/// supply is at 3300 mV, and at that supply a sensor reading equal to
/// TS_CAL1 or TS_CAL2 gives exactly 30 °C or 110 °C.
pub proof fn lemma_calibration_points(cal: AdcCalibration)
    requires
        cal.vref_cal > 0,
        cal.t30_cal != cal.t110_cal,
    ensures
        cal.vdda_of(cal.vref_cal as int) == 3300,
        cal.chip_celsius_of(cal.t30_cal as int, 3300) == 30,
        cal.chip_celsius_of(cal.t110_cal as int, 3300) == 110,
{
    let v: int = cal.vref_cal as int;
    vstd::arithmetic::div_mod::lemma_div_multiples_vanish(3300, v);
    assert(v * 3300 == 3300 * v) by (nonlinear_arith);
    let t30: int = cal.t30_cal as int;
    let t110: int = cal.t110_cal as int;
    vstd::arithmetic::div_mod::lemma_div_multiples_vanish(t30, 3300);
    vstd::arithmetic::div_mod::lemma_div_multiples_vanish(t110, 3300);
    assert(t30 * 3300 == 3300 * t30) by (nonlinear_arith);
    assert(t110 * 3300 == 3300 * t110) by (nonlinear_arith);
    let d: int = t110 - t30;
    let ad: int = vstd::math::abs(d) as int;
    if d >= 0 {
        assert(d * 80 >= 0);
    } else {
        assert(d * 80 < 0);
        assert(-(d * 80) == (-d) * 80);
    }
    assert(vstd::math::abs(d * 80) == 80 * ad);
    vstd::arithmetic::div_mod::lemma_div_multiples_vanish(80, ad);
    assert(80 * ad == ad * 80) by (nonlinear_arith);
}

/// A larger raw reading never converts to a smaller value.
pub proof fn lemma_scaled_monotone(r1: int, r2: int, vdda: int, max: int, nominator: int, denominator: int)
    requires
        0 <= r1 <= r2,
        0 <= vdda,
        0 < max,
        0 <= nominator,
        0 < denominator,
    ensures
        scaled_spec(r1, vdda, max, nominator, denominator) <= scaled_spec(r2, vdda, max, nominator, denominator),
{
    vstd::arithmetic::mul::lemma_mul_inequality(r1, r2, vdda);
    vstd::arithmetic::div_mod::lemma_div_is_ordered(r1 * vdda, r2 * vdda, max);
    vstd::arithmetic::mul::lemma_mul_inequality(r1 * vdda / max, r2 * vdda / max, nominator);
    vstd::arithmetic::div_mod::lemma_div_is_ordered(
        r1 * vdda / max * nominator,
        r2 * vdda / max * nominator,
        denominator,
    );
}

} // verus!

verus! {

/// The supply voltage is VREFINT_CAL × 3300 / VREFINT_DATA rounded down:
/// `vdda * vref <= VREFINT_CAL * 3300 < (vdda + 1) * vref`.
pub proof fn lemma_vdda_rounds_down(vref_cal: int, vref: int)
    requires
        vref > 0,
        vref_cal >= 0,
    ensures
        vdda_spec(vref_cal, vref) * vref <= vref_cal * 3300 < (vdda_spec(vref_cal, vref) + 1) * vref,
{
    let x: int = vref_cal * 3300;
    let v: int = x / vref;
    vstd::arithmetic::div_mod::lemma_fundamental_div_mod(x, vref);
    vstd::arithmetic::div_mod::lemma_mod_pos_bound(x, vref);
    assert(vref * v == v * vref) by (nonlinear_arith);
    assert((v + 1) * vref == v * vref + vref) by (nonlinear_arith);
}

/// A divider reading converts to millivolts at the pin rounded down, and the
/// ratio is applied to that, rounded down again: with `pin` the reading at
/// ratio one, `pin * max <= reading * vdda < (pin + 1) * max` and
/// `r * denominator <= pin * nominator < (r + 1) * denominator`.
pub proof fn lemma_scaled_rounds_down(reading: int, vdda: int, max: int, nominator: int, denominator: int)
    requires
        reading >= 0,
        vdda >= 0,
        max > 0,
        nominator >= 0,
        denominator > 0,
    ensures
        ({
            let pin = scaled_spec(reading, vdda, max, 1, 1);
            let r = scaled_spec(reading, vdda, max, nominator, denominator);
            &&& pin * max <= reading * vdda < (pin + 1) * max
            &&& r * denominator <= pin * nominator < (r + 1) * denominator
        }),
{
    let x: int = reading * vdda;
    let pin: int = x / max;
    vstd::arithmetic::div_mod::lemma_fundamental_div_mod(x, max);
    vstd::arithmetic::div_mod::lemma_mod_pos_bound(x, max);
    assert(max * pin == pin * max) by (nonlinear_arith);
    assert((pin + 1) * max == pin * max + max) by (nonlinear_arith);
    vstd::arithmetic::div_mod::lemma_div_basics(pin);
    assert(pin * 1 == pin);
    assert(scaled_spec(reading, vdda, max, 1, 1) == pin);
    let y: int = pin * nominator;
    let r: int = y / denominator;
    vstd::arithmetic::div_mod::lemma_fundamental_div_mod(y, denominator);
    vstd::arithmetic::div_mod::lemma_mod_pos_bound(y, denominator);
    assert(denominator * r == r * denominator) by (nonlinear_arith);
    assert((r + 1) * denominator == r * denominator + denominator) by (nonlinear_arith);
}

/// The full-scale reading converts to the supply voltage itself, whatever
/// the full scale, when the ratio is one.
pub proof fn lemma_full_scale_reads_supply(vdda: int, max: int, k: int)
    requires
        vdda >= 0,
        max > 0,
        k > 0,
    ensures
        scaled_spec(max, vdda, max, k, k) == vdda,
{
    vstd::arithmetic::div_mod::lemma_div_multiples_vanish(vdda, max);
    assert(max * vdda / max == vdda);
    vstd::arithmetic::div_mod::lemma_div_multiples_vanish(vdda, k);
    assert(vdda * k == k * vdda) by (nonlinear_arith);
}

/// The chip temperature refers the sensor count to the 3.3 V calibration
/// supply, rounding down (`ts * 3300 <= raw * vdda < (ts + 1) * 3300`), and
/// interpolates between the calibration points rounding toward zero: `c - 30`
/// times `TS_CAL2 - TS_CAL1` has the sign of `(ts - TS_CAL1) * 80` and falls
/// short of it by less than `|TS_CAL2 - TS_CAL1|`.
pub proof fn lemma_chip_celsius_interpolates(raw: int, vdda: int, t30: int, t110: int)
    requires
        raw >= 0,
        vdda >= 0,
        t30 != t110,
    ensures
        ({
            let ts = sensor_at_calibration(raw, vdda);
            let p = (chip_celsius_spec(raw, vdda, t30, t110) - 30) * (t110 - t30);
            let n = (ts - t30) * 80;
            &&& ts * 3300 <= raw * vdda < (ts + 1) * 3300
            &&& p * n >= 0
            &&& vstd::math::abs(p) <= vstd::math::abs(n)
            &&& vstd::math::abs(n) < vstd::math::abs(p) + vstd::math::abs(t110 - t30)
        }),
{
    let x: int = raw * vdda;
    let ts: int = x / 3300;
    assert(raw * vdda >= 0) by (nonlinear_arith)
        requires
            raw >= 0,
            vdda >= 0,
    ;
    vstd::arithmetic::div_mod::lemma_fundamental_div_mod(x, 3300);
    vstd::arithmetic::div_mod::lemma_mod_pos_bound(x, 3300);
    lemma_tdiv_rounds_toward_zero((ts - t30) * 80, t110 - t30);
}

} // verus!
