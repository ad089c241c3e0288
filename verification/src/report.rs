//! Text the test board shows and sends: decimal rendering of integers, the
//! serial report lines and the display lines, and the pacing of the serial
//! reports.
use vstd::prelude::*;
use vstd::string::StringSliceAdditionalSpecFns;

verus! {

/// ASCII code of the digit `d`.
pub open spec fn digit_char(d: nat) -> u8 {
    (48 + d) as u8
}

/// Decimal digits of `n`, most significant first, without leading zeros.
pub open spec fn decimal(n: nat) -> Seq<u8>
    decreases n,
{
    if n < 10 {
        seq![digit_char(n)]
    } else {
        decimal(n / 10).push(digit_char(n % 10))
    }
}

/// Decimal rendering of a signed value: a minus sign before negative values.
pub open spec fn signed_decimal(n: int) -> Seq<u8> {
    if n < 0 {
        seq![45u8] + decimal((-n) as nat)
    } else {
        decimal(n as nat)
    }
}

/// `s` right-aligned in a field of `width` characters, padded with spaces;
/// `s` itself when it is at least that long.
pub open spec fn align_right(s: Seq<u8>, width: nat) -> Seq<u8> {
    if s.len() >= width {
        s
    } else {
        Seq::new((width - s.len()) as nat, |i: int| 32u8) + s
    }
}

/// Value of a string of ASCII digits read in base ten.
pub open spec fn digits_value(s: Seq<u8>) -> int
    decreases s.len(),
{
    if s.len() == 0 {
        0
    } else {
        digits_value(s.drop_last()) * 10 + (s.last() - 48)
    }
}

pub open spec fn is_digit(c: u8) -> bool {
    48 <= c <= 57
}

/// The rendering of `n` is made of digits, starts with a nonzero digit
/// unless `n` is zero, and reads back as `n`.
pub proof fn lemma_decimal_reads_back(n: nat)
    ensures
        decimal(n).len() >= 1,
        forall|i: int| 0 <= i < decimal(n).len() ==> is_digit(#[trigger] decimal(n)[i]),
        n > 0 ==> decimal(n)[0] != 48u8,
        digits_value(decimal(n)) == n,
    decreases n,
{
    if n >= 10 {
        lemma_decimal_reads_back(n / 10);
        let p = decimal(n / 10);
        assert(decimal(n).drop_last() =~= p);
        assert forall|i: int| 0 <= i < decimal(n).len() implies is_digit(#[trigger] decimal(n)[i]) by {
            if i < p.len() {
                assert(decimal(n)[i] == p[i]);
            }
        }
        assert(decimal(n)[0] == p[0]);
        assert(digit_char(n % 10) - 48 == n % 10);
        vstd::arithmetic::div_mod::lemma_fundamental_div_mod(n as int, 10);
        assert(digits_value(decimal(n)) == digits_value(p) * 10 + (n % 10));
    } else {
        assert(digit_char(n) - 48 == n);
        let s = seq![digit_char(n)];
        assert(s.drop_last() =~= Seq::<u8>::empty());
        assert(digits_value(s.drop_last()) == 0);
        assert(decimal(n) == s);
        assert(digits_value(s) == digits_value(s.drop_last()) * 10 + (s.last() - 48));
    }
}

/// Right alignment keeps the text at the end, fills the field with spaces
/// before it, and is as long as the field or the text, whichever is longer.
pub proof fn lemma_align_right_fills_with_spaces(s: Seq<u8>, width: nat)
    ensures
        ({
            let a = align_right(s, width);
            let pad = a.len() - s.len();
            &&& a.len() == if s.len() >= width { s.len() } else { width }
            &&& a.subrange(pad, a.len() as int) == s
            &&& forall|i: int| 0 <= i < pad ==> a[i] == 32u8
        }),
{
    let a = align_right(s, width);
    let pad = a.len() - s.len();
    assert(a.subrange(pad, a.len() as int) =~= s);
}

/// Appends the decimal digits of `n`.
pub fn push_decimal(out: &mut Vec<u8>, n: u32)
    ensures
        final(out)@ == old(out)@ + decimal(n as nat),
    decreases n,
{
    if n >= 10 {
        push_decimal(out, n / 10);
    }
    out.push(48 + (n % 10) as u8);
    proof {
        if n < 10 {
            assert(decimal(n as nat) =~= seq![digit_char(n as nat)]);
        }
    }
}

/// Appends the decimal rendering of `n`, with a minus sign when negative.
pub fn push_signed_decimal(out: &mut Vec<u8>, n: i32)
    ensures
        final(out)@ == old(out)@ + signed_decimal(n as int),
{
    if n < 0 {
        out.push(45);
        let magnitude: u32 = if n == i32::MIN { 0x8000_0000 } else { (-n) as u32 };
        push_decimal(out, magnitude);
        proof {
            assert(old(out)@ + signed_decimal(n as int) =~= old(out)@.push(45u8) + decimal((-n) as nat));
        }
    } else {
        push_decimal(out, n as u32);
    }
}

/// Appends `s` right-aligned in a field of `width` characters.
pub fn push_aligned(out: &mut Vec<u8>, s: &Vec<u8>, width: usize)
    ensures
        final(out)@ == old(out)@ + align_right(s@, width as nat),
{
    let mut k: usize = s.len();
    while k < width
        invariant
            s.len() <= k <= width || (k == s.len() && k >= width),
            out@ == old(out)@ + Seq::new((k - s.len()) as nat, |i: int| 32u8),
        decreases width - k,
    {
        out.push(32);
        k = k + 1;
        proof {
            assert(out@ =~= old(out)@ + Seq::new((k - s.len()) as nat, |i: int| 32u8));
        }
    }
    let mut j: usize = 0;
    let ghost pad = out@;
    while j < s.len()
        invariant
            j <= s.len(),
            out@ == pad + s@.subrange(0, j as int),
        decreases s.len() - j,
    {
        out.push(s[j]);
        j = j + 1;
        proof {
            assert(out@ =~= pad + s@.subrange(0, j as int));
        }
    }
    proof {
        assert(s@.subrange(0, s.len() as int) =~= s@);
        if s.len() >= width {
            assert(pad =~= old(out)@);
        }
        assert(out@ =~= old(out)@ + align_right(s@, width as nat));
    }
}

/// Appends the bytes of `text`.
pub fn push_text(out: &mut Vec<u8>, text: &[u8])
    ensures
        final(out)@ == old(out)@ + text@,
{
    let mut j: usize = 0;
    while j < text.len()
        invariant
            j <= text.len(),
            out@ == old(out)@ + text@.subrange(0, j as int),
        decreases text.len() - j,
    {
        out.push(text[j]);
        j = j + 1;
        proof {
            assert(out@ =~= old(out)@ + text@.subrange(0, j as int));
        }
    }
    proof {
        assert(text@.subrange(0, text.len() as int) =~= text@);
    }
}

} // verus!

verus! {

/// Serial report of a battery status message:
/// `:BATT {battery}\n:OUTP {output}\n:CURR {current}\n`.
pub open spec fn battery_report_spec(battery_mv: nat, output_mv: nat, current_ma: nat) -> Seq<u8> {
    ":BATT ".spec_bytes() + decimal(battery_mv) + "\n:OUTP ".spec_bytes() + decimal(output_mv)
        + "\n:CURR ".spec_bytes() + decimal(current_ma) + "\n".spec_bytes()
}

/// Serial report of a cool box message: `:BOXT {temperature}\n`.
pub open spec fn box_report_spec(temperature_deg10: int) -> Seq<u8> {
    ":BOXT ".spec_bytes() + signed_decimal(temperature_deg10) + "\n".spec_bytes()
}

/// Display line of the battery voltage: `Bat: {:>5} mV`.
pub open spec fn battery_line_spec(battery_mv: nat) -> Seq<u8> {
    "Bat: ".spec_bytes() + align_right(decimal(battery_mv), 5) + " mV".spec_bytes()
}

/// Display lines of the cool box: `Temp: {:>5} /10C\nDuty: {:>3}%`.
pub open spec fn cool_lines_spec(temperature_deg10: int, duty: nat) -> Seq<u8> {
    "Temp: ".spec_bytes() + align_right(signed_decimal(temperature_deg10), 5) + " /10C\nDuty: ".spec_bytes()
        + align_right(decimal(duty), 3) + "%".spec_bytes()
}

/// Text of the serial report of a battery status message.
pub fn battery_report(battery_voltage_mv: u16, output_voltage_mv: u16, output_current_ma: u16) -> (r: Vec<u8>)
    ensures
        r@ == battery_report_spec(battery_voltage_mv as nat, output_voltage_mv as nat, output_current_ma as nat),
{
    let mut out: Vec<u8> = Vec::new();
    push_text(&mut out, ":BATT ".as_bytes());
    push_decimal(&mut out, battery_voltage_mv as u32);
    push_text(&mut out, "\n:OUTP ".as_bytes());
    push_decimal(&mut out, output_voltage_mv as u32);
    push_text(&mut out, "\n:CURR ".as_bytes());
    push_decimal(&mut out, output_current_ma as u32);
    push_text(&mut out, "\n".as_bytes());
    out
}

/// Text of the serial report of a cool box message.
pub fn box_report(box_temperature_deg10: i16) -> (r: Vec<u8>)
    ensures
        r@ == box_report_spec(box_temperature_deg10 as int),
{
    let mut out: Vec<u8> = Vec::new();
    push_text(&mut out, ":BOXT ".as_bytes());
    push_signed_decimal(&mut out, box_temperature_deg10 as i32);
    push_text(&mut out, "\n".as_bytes());
    out
}

/// Text of the display line of the battery voltage.
pub fn battery_line(battery_voltage_mv: u16) -> (r: Vec<u8>)
    ensures
        r@ == battery_line_spec(battery_voltage_mv as nat),
{
    let mut number: Vec<u8> = Vec::new();
    push_decimal(&mut number, battery_voltage_mv as u32);
    assert(number@ =~= decimal(battery_voltage_mv as nat));
    let mut out: Vec<u8> = Vec::new();
    push_text(&mut out, "Bat: ".as_bytes());
    push_aligned(&mut out, &number, 5);
    push_text(&mut out, " mV".as_bytes());
    out
}

/// Text of the display lines of the cool box.
pub fn cool_lines(box_temperature_deg10: i16, pwm_duty: u8) -> (r: Vec<u8>)
    ensures
        r@ == cool_lines_spec(box_temperature_deg10 as int, pwm_duty as nat),
{
    let mut temperature: Vec<u8> = Vec::new();
    push_signed_decimal(&mut temperature, box_temperature_deg10 as i32);
    assert(temperature@ =~= signed_decimal(box_temperature_deg10 as int));
    let mut duty: Vec<u8> = Vec::new();
    push_decimal(&mut duty, pwm_duty as u32);
    assert(duty@ =~= decimal(pwm_duty as nat));
    let mut out: Vec<u8> = Vec::new();
    push_text(&mut out, "Temp: ".as_bytes());
    push_aligned(&mut out, &temperature, 5);
    push_text(&mut out, " /10C\nDuty: ".as_bytes());
    push_aligned(&mut out, &duty, 3);
    push_text(&mut out, "%".as_bytes());
    out
}

/// Paces the serial reports of one kind of message: a report is due when
/// more than `period` ticks passed since the last one.
#[derive(Clone, Copy, Debug)]
pub struct ReportTimer {
    /// Time of the last report, in ticks (zero before the first).
    pub last: u64,
    /// Least time between two reports, in ticks.
    pub period: u64,
}

/// Timer after a message at `now`, and whether a report is due.
pub open spec fn timer_step(t: ReportTimer, now: u64) -> (ReportTimer, bool) {
    if now - t.last > t.period {
        (ReportTimer { last: now, period: t.period }, true)
    } else {
        (t, false)
    }
}

impl ReportTimer {
    /// A timer that has not reported yet, as if it last reported at time zero.
    pub fn new(period: u64) -> (r: Self)
        ensures
            r.last == 0,
            r.period == period,
    {
        ReportTimer { last: 0, period }
    }

    /// Called for each message, at time `now` (not before the last report):
    /// tells whether to report it, and if so remembers `now`.
    pub fn due(&mut self, now: u64) -> (r: bool)
        requires
            old(self).last <= now,
        ensures
            (*final(self), r) == timer_step(*old(self), now),
            r <==> now > old(self).last + old(self).period,
            final(self).period == old(self).period,
            final(self).last == (if r { now } else { old(self).last }),
    {
        if now - self.last > self.period {
            self.last = now;
            true
        } else {
            false
        }
    }
}

/// A report is due exactly when more than one period passed since the last
/// report, whatever the period; a report moves the last-report time to the
/// time of the message, and the next one is then due exactly when more
/// than one period passed after that.
pub proof fn lemma_due_exactly_after_period(t: ReportTimer, now: u64, later: u64)
    requires
        t.last <= now <= later,
    ensures
        ({
            let (t1, r1) = timer_step(t, now);
            &&& (r1 <==> now > t.last + t.period)
            &&& t1.period == t.period
            &&& (r1 ==> t1.last == now)
            &&& (!r1 ==> t1 == t)
            &&& (r1 ==> (timer_step(t1, later).1 <==> later > now + t.period))
        }),
{
}

/// Two reports of the same timer are always more than `period` ticks apart.
pub proof fn lemma_reports_spaced(t: ReportTimer, t1: u64, t2: u64)
    requires
        t.last <= t1 <= t2,
    ensures
        ({
            let (s1, r1) = timer_step(t, t1);
            let (s2, r2) = timer_step(s1, t2);
            r1 && r2 ==> t2 - t1 > t.period
        }),
{
}

} // verus!
