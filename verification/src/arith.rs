//! Integer division as Rust computes it on signed values (rounding toward zero).
use vstd::prelude::*;

verus! {

/// Quotient of `a` by `b` rounded toward zero, which is what Rust's `/` gives on
/// signed integers. Zero for a zero divisor (never used there).
pub open spec fn tdiv(a: int, b: int) -> int {
    if b == 0 {
        0
    } else {
        let q: int = (vstd::math::abs(a) / vstd::math::abs(b)) as int;
        if (a >= 0) == (b > 0) { q } else { -q }
    }
}

/// `a / b` on `i32`, for a divisor of either sign.
pub fn div_trunc(a: i32, b: i32) -> (r: i32)
    requires
        b != 0,
        !(a == i32::MIN && b == -1),
    ensures
        r == tdiv(a as int, b as int),
{
    let a64: i64 = a as i64;
    let b64: i64 = b as i64;
    let m: i64 = if b64 > 0 { b64 } else { -b64 };
    let q: i64 = if a64 >= 0 { a64 / m } else { -((-a64) / m) };
    proof {
        let n: int = vstd::math::abs(a as int) as int;
        vstd::arithmetic::div_mod::lemma_div_is_ordered_by_denominator(n, 1, m as int);
        vstd::arithmetic::div_mod::lemma_div_pos_is_pos(n, m as int);
        if m >= 2 {
            vstd::arithmetic::div_mod::lemma_div_is_ordered_by_denominator(n, 2, m as int);
        }
    }
    if b64 > 0 {
        q as i32
    } else {
        (-q) as i32
    }
}

} // verus!

verus! {

/// Rounding toward zero: the quotient times the divisor has the sign of the
/// dividend (or is zero) and falls short of it in magnitude by less than one
/// divisor.
pub proof fn lemma_tdiv_rounds_toward_zero(a: int, b: int)
    requires
        b != 0,
    ensures
        ({
            let p = tdiv(a, b) * b;
            &&& p * a >= 0
            &&& vstd::math::abs(p) <= vstd::math::abs(a)
            &&& vstd::math::abs(a) < vstd::math::abs(p) + vstd::math::abs(b)
        }),
{
    let aa: int = vstd::math::abs(a) as int;
    let ab: int = vstd::math::abs(b) as int;
    let q: int = aa / ab;
    vstd::arithmetic::div_mod::lemma_fundamental_div_mod(aa, ab);
    vstd::arithmetic::div_mod::lemma_mod_pos_bound(aa, ab);
    vstd::arithmetic::div_mod::lemma_div_pos_is_pos(aa, ab);
    assert(ab * q == q * ab) by (nonlinear_arith);
    assert(q * ab >= 0) by (nonlinear_arith)
        requires
            q >= 0,
            ab > 0,
    ;
    let p: int = tdiv(a, b) * b;
    if b > 0 {
        assert(ab == b);
    } else {
        assert(ab == -b);
    }
    if a >= 0 {
        if b > 0 {
            assert(p == q * b);
        } else {
            assert(p == (-q) * b);
            assert((-q) * b == q * ab) by (nonlinear_arith)
                requires
                    ab == -b,
            ;
        }
        assert(p == q * ab);
        assert(p * a >= 0) by (nonlinear_arith)
            requires
                p >= 0,
                a >= 0,
        ;
    } else {
        if b > 0 {
            assert(p == (-q) * b);
            assert((-q) * b == -(q * ab)) by (nonlinear_arith)
                requires
                    ab == b,
            ;
        } else {
            assert(p == q * b);
            assert(q * b == -(q * ab)) by (nonlinear_arith)
                requires
                    ab == -b,
            ;
        }
        assert(p == -(q * ab));
        assert(p * a >= 0) by (nonlinear_arith)
            requires
                p <= 0,
                a < 0,
        ;
    }
}

} // verus!
