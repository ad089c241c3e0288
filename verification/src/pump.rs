//! Two-component dosing pump: a counter of the flow sensor pulses of both
//! components, and the motor speeds that keep the dosed amounts in ratio.
use vstd::prelude::*;
use crate::arith::{tdiv, div_trunc};
use crate::adc::in_i32;

verus! {

/// Weight of one flow pulse of component A.
pub const DOSE_A: u16 = 115 * 1;
/// Weight of one flow pulse of component B.
pub const DOSE_B: u16 = 97 * 3;
/// Speed scale of the nominal ratio.
pub const SPEED_SCALE: u16 = 50;
/// Full scale of the motor speed values.
pub const SPEED_FULL: i32 = 32768;
/// Speed of the faster motor: half of full scale.
pub const SPEED_RUN: i32 = 16384;

/// Abstract state of a `Delta` counter.
pub ghost struct DeltaState {
    /// Last seen level of input A.
    pub level_a: bool,
    /// Last seen level of input B.
    pub level_b: bool,
    /// Weight added per level change of A.
    pub a: int,
    /// Weight subtracted per level change of B.
    pub b: int,
    /// Accumulated imbalance.
    pub value: int,
    /// Level of input A at the last reset (or at creation).
    pub start_a: bool,
    /// Level of input B at the last reset (or at creation).
    pub start_b: bool,
    /// Samples `(A, B)` taken since then, oldest first.
    pub samples: Seq<(bool, bool)>,
}

/// Levels of input A in a sequence of samples.
pub open spec fn levels_a(samples: Seq<(bool, bool)>) -> Seq<bool> {
    samples.map_values(|p: (bool, bool)| p.0)
}

/// Levels of input B in a sequence of samples.
pub open spec fn levels_b(samples: Seq<(bool, bool)>) -> Seq<bool> {
    samples.map_values(|p: (bool, bool)| p.1)
}

/// Number of level changes in `levels` when the level before them was `start`.
pub open spec fn transitions(start: bool, levels: Seq<bool>) -> nat
    decreases levels.len(),
{
    if levels.len() == 0 {
        0
    } else {
        let before = if levels.len() == 1 { start } else { levels[levels.len() - 2] };
        transitions(start, levels.drop_last()) + (if levels.last() != before { 1nat } else { 0nat })
    }
}

/// Last level of `levels`, or `start` when there is none.
pub open spec fn last_level(start: bool, levels: Seq<bool>) -> bool {
    if levels.len() == 0 { start } else { levels.last() }
}

/// Effect of one sample `(va, vb)` of the two input levels.
pub open spec fn delta_step(s: DeltaState, va: bool, vb: bool) -> DeltaState {
    DeltaState {
        level_a: va,
        level_b: vb,
        value: s.value + (if va != s.level_a { s.a } else { 0 }) - (if vb != s.level_b { s.b } else { 0 }),
        samples: s.samples.push((va, vb)),
        ..s
    }
}

/// One more level counts one more change exactly when it differs from the
/// last level before it.
proof fn lemma_transitions_push(start: bool, levels: Seq<bool>, x: bool)
    ensures
        transitions(start, levels.push(x))
            == transitions(start, levels) + (if x != last_level(start, levels) { 1nat } else { 0nat }),
        last_level(start, levels.push(x)) == x,
{
    let l = levels.push(x);
    assert(l.drop_last() =~= levels);
    if levels.len() > 0 {
        assert(l[l.len() - 2] == levels.last());
    }
}

/// Counter of the imbalance between two pulse inputs: every level change of
/// input A adds `a`, every level change of input B subtracts `b`.
pub struct Delta {
    oa: bool,
    ob: bool,
    a: u16,
    b: u16,
    value: i32,
    start: Ghost<(bool, bool)>,
    samples: Ghost<Seq<(bool, bool)>>,
}

impl View for Delta {
    type V = DeltaState;

    closed spec fn view(&self) -> DeltaState {
        DeltaState {
            level_a: self.oa,
            level_b: self.ob,
            a: self.a as int,
            b: self.b as int,
            value: self.value as int,
            start_a: self.start@.0,
            start_b: self.start@.1,
            samples: self.samples@,
        }
    }
}

/// The imbalance is `a` times the level changes of A minus `b` times the
/// level changes of B over the samples since the last reset, and the last
/// seen levels are those of the last sample.
pub open spec fn counts_transitions(s: DeltaState) -> bool {
    &&& s.value == s.a * transitions(s.start_a, levels_a(s.samples))
        - s.b * transitions(s.start_b, levels_b(s.samples))
    &&& s.level_a == last_level(s.start_a, levels_a(s.samples))
    &&& s.level_b == last_level(s.start_b, levels_b(s.samples))
}

/// A step keeps the counter counting transitions.
proof fn lemma_step_counts_transitions(s: DeltaState, va: bool, vb: bool)
    requires
        counts_transitions(s),
    ensures
        counts_transitions(delta_step(s, va, vb)),
{
    let t = delta_step(s, va, vb);
    assert(levels_a(t.samples) =~= levels_a(s.samples).push(va));
    assert(levels_b(t.samples) =~= levels_b(s.samples).push(vb));
    lemma_transitions_push(s.start_a, levels_a(s.samples), va);
    lemma_transitions_push(s.start_b, levels_b(s.samples), vb);
    let ta = transitions(s.start_a, levels_a(s.samples));
    let tb = transitions(s.start_b, levels_b(s.samples));
    let ia: int = if va != s.level_a { 1 } else { 0 };
    let ib: int = if vb != s.level_b { 1 } else { 0 };
    assert(s.a * (ta + ia) == s.a * ta + s.a * ia) by (nonlinear_arith);
    assert(s.b * (tb + ib) == s.b * tb + s.b * ib) by (nonlinear_arith);
    if ia == 1 {
        assert(s.a * ia == s.a);
    } else {
        assert(s.a * ia == 0);
    }
    if ib == 1 {
        assert(s.b * ib == s.b);
    } else {
        assert(s.b * ib == 0);
    }
}

impl Delta {
    #[verifier::type_invariant]
    spec fn inv(self) -> bool {
        counts_transitions(self@)
    }

    /// A counter at zero, given the current levels of both inputs.
    pub fn new(oa: bool, a: u16, ob: bool, b: u16) -> (d: Self)
        ensures
            d@ == (DeltaState {
                level_a: oa,
                level_b: ob,
                a: a as int,
                b: b as int,
                value: 0,
                start_a: oa,
                start_b: ob,
                samples: Seq::empty(),
            }),
    {
        proof {
            assert(levels_a(Seq::empty()) =~= Seq::<bool>::empty());
            assert(levels_b(Seq::empty()) =~= Seq::<bool>::empty());
            assert(a * 0 == 0 && b * 0 == 0);
        }
        Delta { oa, ob, a, b, value: 0, start: Ghost((oa, ob)), samples: Ghost(Seq::empty()) }
    }

    /// The imbalance: `a` times the level changes of input A minus `b` times
    /// the level changes of input B, over the samples since the last reset.
    pub fn get(&self) -> (r: i32)
        ensures
            0 <= self@.a <= u16::MAX,
            0 <= self@.b <= u16::MAX,
            r == self@.value,
            r == self@.a * transitions(self@.start_a, levels_a(self@.samples))
                - self@.b * transitions(self@.start_b, levels_b(self@.samples)),
    {
        proof {
            use_type_invariant(self);
        }
        self.value
    }

    /// Sets the imbalance to zero; counting starts again from the current
    /// levels.
    pub fn reset(&mut self)
        ensures
            0 <= final(self)@.a <= u16::MAX,
            0 <= final(self)@.b <= u16::MAX,
            final(self)@ == (DeltaState {
                value: 0,
                start_a: old(self)@.level_a,
                start_b: old(self)@.level_b,
                samples: Seq::empty(),
                ..old(self)@
            }),
    {
        proof {
            assert(levels_a(Seq::empty()) =~= Seq::<bool>::empty());
            assert(levels_b(Seq::empty()) =~= Seq::<bool>::empty());
            assert(self.a * 0 == 0 && self.b * 0 == 0);
        }
        *self = Delta {
            oa: self.oa,
            ob: self.ob,
            a: self.a,
            b: self.b,
            value: 0,
            start: Ghost((self.oa, self.ob)),
            samples: Ghost(Seq::empty()),
        };
    }

    /// The sample `(va, vb)` keeps the counter in `i32`.
    pub open spec fn count_defined(s: DeltaState, va: bool, vb: bool) -> bool {
        let plus_a: int = s.value + (if va != s.level_a { s.a } else { 0 });
        &&& plus_a <= i32::MAX
        &&& delta_step(s, va, vb).value >= i32::MIN
    }

    /// Right after a reset (or creation) any sample can be counted.
    pub proof fn lemma_count_after_reset(s: DeltaState, va: bool, vb: bool)
        requires
            s.value == 0,
            0 <= s.a <= u16::MAX,
            0 <= s.b <= u16::MAX,
        ensures
            Self::count_defined(s, va, vb),
    {
    }

    /// Takes one sample of the two input levels (`true` for low).
    pub fn count(&mut self, va: bool, vb: bool)
        requires
            Self::count_defined(old(self)@, va, vb),
        ensures
            final(self)@ == delta_step(old(self)@, va, vb),
            0 <= final(self)@.a <= u16::MAX,
            0 <= final(self)@.b <= u16::MAX,
    {
        proof {
            use_type_invariant(&*self);
            lemma_step_counts_transitions(self@, va, vb);
        }
        let mut value: i32 = self.value;
        if va != self.oa {
            value += self.a as i32;
        }
        if vb != self.ob {
            value -= self.b as i32;
        }
        let ghost samples = self.samples@.push((va, vb));
        *self = Delta {
            oa: va,
            ob: vb,
            a: self.a,
            b: self.b,
            value,
            start: self.start,
            samples: Ghost(samples),
        };
    }

    /// Tells whether `count(va, vb)` may be called.
    pub fn can_count(&self, va: bool, vb: bool) -> (r: bool)
        ensures
            r == Self::count_defined(self@, va, vb),
    {
        let inc_a: i64 = if va != self.oa { self.a as i64 } else { 0 };
        let dec_b: i64 = if vb != self.ob { self.b as i64 } else { 0 };
        let plus_a: i64 = self.value as i64 + inc_a;
        plus_a <= i32::MAX as i64 && plus_a - dec_b >= i32::MIN as i64
    }
}

} // verus!

verus! {

/// Nominal speed of motor A in ratio units, `SPEED_SCALE * DOSE_B`; that
/// of motor B is `SPEED_SCALE * DOSE_A` corrected by the imbalance.
pub open spec fn nominal_speed_a() -> int {
    SPEED_SCALE * DOSE_B
}

/// Speeds of motors A and B, on the scale `SPEED_FULL`, for the imbalance
/// `delta`: the motor that is behind runs at `SPEED_RUN` and the other one
/// slower, in proportion.
pub open spec fn motor_speeds(delta: int) -> (int, int) {
    let v1: int = SPEED_SCALE * DOSE_B;
    let v2: int = SPEED_SCALE * DOSE_A + delta;
    if v1 > v2 {
        (SPEED_RUN as int, tdiv(SPEED_RUN * v2, v1))
    } else {
        (tdiv(SPEED_RUN * v1, v2), SPEED_RUN as int)
    }
}

/// PWM duty for a speed, on a timer whose full duty is `max`.
pub open spec fn speed_to_duty(speed: int, max: int) -> int {
    tdiv(speed * max, SPEED_FULL as int)
}

/// The timer's full duty as the duty formula takes it, converted to `i32`.
pub open spec fn duty_scale(max: u32) -> int {
    (max as i32) as int
}

/// The speed formulas stay in `i32` and both duties are non-negative (they
/// are converted to the timer's unsigned duty).
pub open spec fn motor_duties_defined(delta: int, max: u32) -> bool {
    let v2: int = SPEED_SCALE * DOSE_A + delta;
    let (m1, m2) = motor_speeds(delta);
    &&& v2 <= i32::MAX
    &&& (v2 < nominal_speed_a() ==> i32::MIN <= SPEED_RUN * v2)
    &&& in_i32(m1 * duty_scale(max))
    &&& in_i32(m2 * duty_scale(max))
    &&& speed_to_duty(m1, duty_scale(max)) >= 0
    &&& speed_to_duty(m2, duty_scale(max)) >= 0
}

proof fn lemma_speed_bounds(delta: int)
    requires
        SPEED_SCALE * DOSE_A + delta <= i32::MAX,
    ensures
        motor_speeds(delta).0 <= SPEED_RUN,
        motor_speeds(delta).1 <= SPEED_RUN,
        motor_speeds(delta).0 == SPEED_RUN || motor_speeds(delta).1 == SPEED_RUN,
{
    let v1: int = 14550;
    let v2: int = 5750 + delta;
    if v1 > v2 {
        if v2 >= 0 {
            vstd::arithmetic::div_mod::lemma_div_is_ordered(16384 * v2, 16384 * v1, v1);
            vstd::arithmetic::div_mod::lemma_div_multiples_vanish(16384, v1);
        }
    } else {
        vstd::arithmetic::div_mod::lemma_div_is_ordered_by_denominator(16384 * v1, v1, v2);
        vstd::arithmetic::div_mod::lemma_div_multiples_vanish(16384, v1);
    }
}

proof fn lemma_duty_bounds(speed: int, max: int)
    requires
        speed <= SPEED_RUN,
        0 <= max,
        speed_to_duty(speed, max) >= 0,
    ensures
        speed_to_duty(speed, max) <= max / 2,
        speed == SPEED_RUN ==> speed_to_duty(speed, max) == max / 2,
{
    lemma_duty_sign(speed, max);
    if speed >= 0 {
        assert(speed * max <= 16384 * max) by (nonlinear_arith)
            requires
                speed <= 16384,
                0 <= max,
                0 <= speed,
        ;
        assert(speed * max >= 0) by (nonlinear_arith)
            requires
                0 <= max,
                0 <= speed,
        ;
        vstd::arithmetic::div_mod::lemma_div_is_ordered(speed * max, 16384 * max, 32768);
        assert(16384 * max / 32768 == max / 2) by {
            vstd::arithmetic::div_mod::lemma_div_denominator(16384 * max, 16384, 2);
            vstd::arithmetic::div_mod::lemma_div_multiples_vanish(max, 16384);
        }
    } else {
        assert(speed * max <= 0) by (nonlinear_arith)
            requires
                0 <= max,
                speed < 0,
        ;
        if speed * max < 0 {
            vstd::arithmetic::div_mod::lemma_basic_div(-(speed * max), 32768);
        }
    }
}

proof fn lemma_duty_sign(speed: int, max: int)
    ensures
        speed_to_duty(speed, max) >= 0 <==> speed * max > -(SPEED_FULL as int),
{
    let n: int = speed * max;
    if n <= -32768 {
        vstd::arithmetic::div_mod::lemma_div_is_ordered(32768, -n, 32768);
    } else if n < 0 {
        vstd::arithmetic::div_mod::lemma_basic_div(-n, 32768);
    } else {
        vstd::arithmetic::div_mod::lemma_div_pos_is_pos(n, 32768);
    }
}

/// Division rounded down, for a non-negative dividend and a positive divisor.
proof fn lemma_floor_div(a: int, b: int)
    requires
        a >= 0,
        b > 0,
    ensures
        tdiv(a, b) * b <= a < (tdiv(a, b) + 1) * b,
        tdiv(a, b) >= 0,
{
    vstd::arithmetic::div_mod::lemma_fundamental_div_mod(a, b);
    vstd::arithmetic::div_mod::lemma_mod_pos_bound(a, b);
    vstd::arithmetic::div_mod::lemma_div_pos_is_pos(a, b);
    let q: int = a / b;
    assert(tdiv(a, b) == q);
    assert(b * q == q * b) by (nonlinear_arith);
    assert((q + 1) * b == q * b + b) by (nonlinear_arith);
}

/// While motor B is behind (imbalance from -5750 below 8800), motor A runs
/// at `SPEED_RUN` and motor B at `SPEED_RUN * (5750 + delta) / 14550`
/// rounded down.
pub proof fn lemma_speed_b_tracks_imbalance(delta: int)
    requires
        -5750 <= delta < 8800,
    ensures
        motor_speeds(delta).0 == 16384,
        motor_speeds(delta).1 * 14550 <= 16384 * (5750 + delta) < (motor_speeds(delta).1 + 1) * 14550,
{
    lemma_floor_div(16384 * (5750 + delta), 14550);
}

/// Once motor A is behind (imbalance 8800 or more), motor B runs at
/// `SPEED_RUN` and motor A at `SPEED_RUN * 14550 / (5750 + delta)` rounded
/// down.
pub proof fn lemma_speed_a_tracks_imbalance(delta: int)
    requires
        8800 <= delta,
    ensures
        motor_speeds(delta).1 == 16384,
        motor_speeds(delta).0 * (5750 + delta) <= 16384 * 14550 < (motor_speeds(delta).0 + 1) * (5750 + delta),
{
    lemma_floor_div(16384int * 14550, 5750 + delta);
}

/// The slower motor follows the imbalance: motor B speeds up strictly as A
/// gets ahead (by two weight units or more), and motor A never speeds up as
/// A gets further ahead.
pub proof fn lemma_speeds_follow_imbalance(d1: int, d2: int)
    ensures
        -5750 <= d1 && d1 + 2 <= d2 && d2 < 8800 ==> motor_speeds(d1).1 < motor_speeds(d2).1,
        8800 <= d1 <= d2 ==> motor_speeds(d2).0 <= motor_speeds(d1).0,
{
    if -5750 <= d1 && d1 + 2 <= d2 && d2 < 8800 {
        lemma_speed_b_tracks_imbalance(d1);
        lemma_speed_b_tracks_imbalance(d2);
        let a: int = motor_speeds(d1).1;
        let b: int = motor_speeds(d2).1;
        assert(a < b) by (nonlinear_arith)
            requires
                a * 14550 <= 16384 * (5750 + d1),
                16384 * (5750 + d2) < (b + 1) * 14550,
                d1 + 2 <= d2,
        ;
    }
    if 8800 <= d1 <= d2 {
        vstd::arithmetic::div_mod::lemma_div_is_ordered_by_denominator(16384int * 14550, 5750 + d1, 5750 + d2);
    }
}

/// A non-negative duty is the speed times the full duty over `SPEED_FULL`,
/// rounded down: `d * 32768 <= speed * max < (d + 1) * 32768`.
pub proof fn lemma_duty_rounds_down(speed: int, max: int)
    requires
        speed * max >= 0,
    ensures
        speed_to_duty(speed, max) * 32768 <= speed * max < (speed_to_duty(speed, max) + 1) * 32768,
{
    lemma_floor_div(speed * max, 32768);
}

/// A duty computed in `i32` from a product that fits there.
fn duty_of(speed: i32, scale: i32) -> (r: u32)
    requires
        in_i32(speed * scale),
        speed_to_duty(speed as int, scale as int) >= 0,
    ensures
        r == speed_to_duty(speed as int, scale as int),
{
    let n: i32 = speed * scale;
    let d: i32 = div_trunc(n, SPEED_FULL);
    proof {
        let an: int = vstd::math::abs(n as int) as int;
        vstd::arithmetic::div_mod::lemma_div_is_ordered_by_denominator(an, 1, 32768);
    }
    d as u32
}

/// PWM duties of motors A and B while dosing, for the imbalance `delta`
/// and a timer whose full duty is `max`. The motor that is behind runs at
/// half duty and the other one proportionally slower.
pub fn motor_duties(delta: i32, max: u32) -> (r: (u32, u32))
    requires
        motor_duties_defined(delta as int, max),
    ensures
        r.0 == speed_to_duty(motor_speeds(delta as int).0, duty_scale(max)),
        r.1 == speed_to_duty(motor_speeds(delta as int).1, duty_scale(max)),
        max <= i32::MAX ==> {
            &&& r.0 <= max / 2
            &&& r.1 <= max / 2
            &&& (r.0 == max / 2 || r.1 == max / 2)
        },
{
    proof {
        lemma_speed_bounds(delta as int);
        if max <= i32::MAX {
            assert(duty_scale(max) == max);
            lemma_duty_bounds(motor_speeds(delta as int).0, max as int);
            lemma_duty_bounds(motor_speeds(delta as int).1, max as int);
        }
    }
    let v1: i32 = SPEED_SCALE as i32 * DOSE_B as i32;
    let v2: i32 = SPEED_SCALE as i32 * DOSE_A as i32 + delta;
    let (m1, m2) = if v1 > v2 {
        (SPEED_RUN, div_trunc(SPEED_RUN * v2, v1))
    } else {
        (div_trunc(SPEED_RUN * v1, v2), SPEED_RUN)
    };
    let scale: i32 = max as i32;
    (duty_of(m1, scale), duty_of(m2, scale))
}

/// Tells whether `motor_duties(delta, max)` may be called.
pub fn can_drive(delta: i32, max: u32) -> (b: bool)
    ensures
        b == motor_duties_defined(delta as int, max),
{
    assert(SPEED_SCALE * DOSE_A == 5750 && SPEED_SCALE * DOSE_B == 14550);
    let v2: i64 = SPEED_SCALE as i64 * DOSE_A as i64 + delta as i64;
    if v2 > i32::MAX as i64 {
        return false;
    }
    let v1: i64 = SPEED_SCALE as i64 * DOSE_B as i64;
    proof {
        assert(SPEED_RUN == 16384);
        assert(-0x8000_0000 * 16384 <= 16384 * v2 <= 0x8000_0000 * 16384) by (nonlinear_arith)
            requires
                -0x8000_0000 <= v2 <= 0x8000_0000,
        ;
    }
    if v2 < v1 && (SPEED_RUN as i64) * v2 < i32::MIN as i64 {
        return false;
    }
    proof {
        lemma_speed_bounds(delta as int);
    }
    let (m1, m2) = if v1 > v2 {
        (SPEED_RUN, div_trunc(SPEED_RUN * v2 as i32, v1 as i32))
    } else {
        (div_trunc(SPEED_RUN * v1 as i32, v2 as i32), SPEED_RUN)
    };
    let scale: i64 = max as i32 as i64;
    proof {
        lemma_duty_sign(m1 as int, scale as int);
        lemma_duty_sign(m2 as int, scale as int);
        assert(-0x8000_0000 * 0x8000_0000 <= m1 * scale <= 0x8000_0000 * 0x8000_0000) by (nonlinear_arith)
            requires
                -0x8000_0000 <= m1 <= 0x8000_0000,
                -0x8000_0000 <= scale <= 0x8000_0000,
        ;
        assert(-0x8000_0000 * 0x8000_0000 <= m2 * scale <= 0x8000_0000 * 0x8000_0000) by (nonlinear_arith)
            requires
                -0x8000_0000 <= m2 <= 0x8000_0000,
                -0x8000_0000 <= scale <= 0x8000_0000,
        ;
    }
    let p1: i64 = m1 as i64 * scale;
    let p2: i64 = m2 as i64 * scale;
    p1 >= i32::MIN as i64 && p1 <= i32::MAX as i64 && p2 >= i32::MIN as i64 && p2 <= i32::MAX as i64
        && p1 > -(SPEED_FULL as i64) && p2 > -(SPEED_FULL as i64)
}

/// PWM duties of motors A and B once dosing stopped: the motor that fell
/// behind runs at full duty until the imbalance is gone. `None` when there
/// is nothing to make up.
pub fn compensation_duties(delta: i32, max: u32) -> (r: Option<(u32, u32)>)
    ensures
        delta > 0 ==> r == Some((0u32, max)),
        delta < 0 ==> r == Some((max, 0u32)),
        delta == 0 ==> r is None,
{
    if delta > 0 {
        Some((0, max))
    } else if delta < 0 {
        Some((max, 0))
    } else {
        None
    }
}

/// Whether the compensation that started at the imbalance `start` is over
/// at the imbalance `now`: when the imbalance reached zero or went past it.
pub fn compensation_done(start: i32, now: i32) -> (r: bool)
    ensures
        r == ((start > 0 && now <= 0) || (start < 0 && now >= 0) || start == 0),
{
    if start > 0 {
        now <= 0
    } else if start < 0 {
        now >= 0
    } else {
        true
    }
}

} // verus!
