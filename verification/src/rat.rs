//! Exact rational quantities and the rounding rules of the engine.
//!
//! Sample rates, repetition frequencies and durations are carried as exact
//! rationals, so that every length computed from them is a precise integer
//! function of the inputs.  All length quantization uses one rounding rule,
//! round-half-up, both for the overall target length and for each
//! intermediate step target; mixing rules would let cumulative padding drift
//! from the final target.

use vstd::arithmetic::div_mod::lemma_div_nonincreasing;
use vstd::prelude::*;

verus! {

/// A rational quantity `num / den`.  Well-formed values have `den >= 1`;
/// the sign of the quantity is the sign of `num`.
#[derive(Clone, Copy, Debug, PartialEq, Eq, Structural)]
pub struct Rat {
    /// Numerator; carries the sign of the quantity.
    pub num: i32,
    /// Denominator; must be at least 1.
    pub den: u32,
}

impl Rat {
    /// A well-formed rational has a nonzero denominator.
    pub open spec fn valid(self) -> bool {
        self.den >= 1
    }

    /// Builds `num / den`, rejecting a zero denominator.
    pub fn new(num: i32, den: u32) -> (r: Option<Rat>)
        ensures
            r is Some <==> den >= 1,
            r is Some ==> r->0 == (Rat { num, den }) && r->0.valid(),
    {
        if den >= 1 {
            Some(Rat { num, den })
        } else {
            None
        }
    }

    /// Builds the rational `n / 1`.
    pub fn from_int(n: i32) -> (r: Rat)
        ensures
            r == (Rat { num: n, den: 1 }),
            r.valid(),
    {
        Rat { num: n, den: 1 }
    }
}

/// `p / q` rounded to the nearest integer, halves rounded up.
/// Meaningful for `p >= 0`, `q >= 1`.
pub open spec fn round_div(p: int, q: int) -> int {
    p / q + if 2 * (p % q) >= q {
        1int
    } else {
        0int
    }
}

/// `p / q` rounded up to an integer.  Meaningful for `p >= 0`, `q >= 1`.
pub open spec fn ceil_div(p: int, q: int) -> int {
    p / q + if p % q == 0 {
        0int
    } else {
        1int
    }
}

/// Computes `round_div` on machine integers.
pub(crate) fn round_div_u128(p: u128, q: u128) -> (r: u128)
    requires
        1 <= q,
        p < u128::MAX,
    ensures
        r == round_div(p as int, q as int),
{
    let d = p / q;
    let m = p % q;
    proof {
        lemma_div_nonincreasing(p as int, q as int);
    }
    // `m >= q - m` is `2 * m >= q` written without overflow.
    if m >= q - m {
        d + 1
    } else {
        d
    }
}

/// Computes `ceil_div` on machine integers.
pub(crate) fn ceil_div_u128(p: u128, q: u128) -> (r: u128)
    requires
        1 <= q,
        p < u128::MAX,
    ensures
        r == ceil_div(p as int, q as int),
{
    let d = p / q;
    let m = p % q;
    proof {
        lemma_div_nonincreasing(p as int, q as int);
    }
    if m == 0 {
        d
    } else {
        d + 1
    }
}

/// Rounding never increases a quotient by more than one, so a rounded
/// quotient is bounded by the dividend.
pub proof fn lemma_round_div_le_dividend(p: int, q: int)
    requires
        p >= 0,
        q >= 1,
    ensures
        0 <= round_div(p, q) <= p,
        0 <= ceil_div(p, q) <= p,
{
    vstd::arithmetic::div_mod::lemma_div_pos_is_pos(p, q);
    lemma_div_nonincreasing(p, q);
    if q == 1 {
        assert(p % q == 0) by (nonlinear_arith)
            requires q == 1, p >= 0;
        assert(p / 1 == p) by (nonlinear_arith);
    } else if p == 0 {
        vstd::arithmetic::div_mod::lemma_small_mod(0nat, q as nat);
        assert(0int / q == 0) by (nonlinear_arith)
            requires q >= 2;
    } else {
        lemma_div_le_dividend_minus_one(p, q);
    }
}

/// For a divisor of at least 2 and a positive dividend, the quotient leaves
/// room for the round-up.
proof fn lemma_div_le_dividend_minus_one(p: int, q: int)
    by (nonlinear_arith)
    requires
        p >= 1,
        q >= 2,
    ensures
        p / q + 1 <= p,
{
    let d = p / q;
    let m = p % q;
    assert(p == d * q + m);
}

/// Round-half-up is monotone over rational values: if `p1/q1 <= p2/q2`
/// (stated by cross-multiplication), the rounded quotients are ordered the
/// same way.  The engine leans on this to show that step targets never
/// shrink and that the final step target reaches the overall target.
pub proof fn lemma_round_div_mono(p1: int, q1: int, p2: int, q2: int)
    requires
        p1 >= 0,
        p2 >= 0,
        q1 >= 1,
        q2 >= 1,
        p1 * q2 <= p2 * q1,
    ensures
        round_div(p1, q1) <= round_div(p2, q2),
{
    // round_div(p, q) == floor((2p + q) / (2q)); monotonicity of floor over
    // rationals then gives the result.
    lemma_round_div_as_floor(p1, q1);
    lemma_round_div_as_floor(p2, q2);
    assert((2 * p1 + q1) * (2 * q2) <= (2 * p2 + q2) * (2 * q1)) by (nonlinear_arith)
        requires
            p1 * q2 <= p2 * q1,
            q1 >= 1,
            q2 >= 1;
    lemma_floor_div_mono(2 * p1 + q1, 2 * q1, 2 * p2 + q2, 2 * q2);
}

/// Rewrites round-half-up as a single floor division.
proof fn lemma_round_div_as_floor(p: int, q: int)
    requires
        p >= 0,
        q >= 1,
    ensures
        round_div(p, q) == (2 * p + q) / (2 * q),
{
    let d = p / q;
    let m = p % q;
    vstd::arithmetic::div_mod::lemma_fundamental_div_mod(p, q);
    assert(2 * p + q == d * (2 * q) + (2 * m + q)) by (nonlinear_arith)
        requires p == d * q + m;
    if 2 * m >= q {
        assert((2 * p + q) / (2 * q) == d + 1) by (nonlinear_arith)
            requires
                2 * p + q == d * (2 * q) + (2 * m + q),
                0 <= m < q,
                2 * m >= q,
                q >= 1;
    } else {
        assert((2 * p + q) / (2 * q) == d) by (nonlinear_arith)
            requires
                2 * p + q == d * (2 * q) + (2 * m + q),
                0 <= m < q,
                2 * m < q,
                q >= 1;
    }
}

/// Floor division is monotone over rational values, stated by
/// cross-multiplication.
pub proof fn lemma_floor_div_mono(p1: int, q1: int, p2: int, q2: int)
    by (nonlinear_arith)
    requires
        p1 >= 0,
        p2 >= 0,
        q1 >= 1,
        q2 >= 1,
        p1 * q2 <= p2 * q1,
    ensures
        p1 / q1 <= p2 / q2,
{
    let d1 = p1 / q1;
    let m1 = p1 % q1;
    let d2 = p2 / q2;
    let m2 = p2 % q2;
    assert(p1 == d1 * q1 + m1);
    assert(p2 == d2 * q2 + m2);
}

/// A quotient rounded up, multiplied back by the divisor, covers the
/// dividend: `ceil(p/q) * q >= p`.
pub proof fn lemma_ceil_div_covers(p: int, q: int)
    by (nonlinear_arith)
    requires
        p >= 0,
        q >= 1,
    ensures
        ceil_div(p, q) * q >= p,
{
    let d = p / q;
    let m = p % q;
    assert(p == d * q + m);
}

} // verus!
