//! Fixed-point amounts.
//!
//! Every nutrient amount in the engine is a [`Quantity`]: a count of
//! millionths of a unit (gram, milligram, kilocalorie or serving, depending
//! on the field), stored in an `i64`. All formula arithmetic is exact
//! integer arithmetic over these micro-unit counts.

use vstd::arithmetic::div_mod::{
    lemma_div_nonincreasing, lemma_div_pos_is_pos, lemma_multiply_divide_le,
    lemma_multiply_divide_lt,
};
use vstd::prelude::*;

verus! {

/// Micro-units per unit: quantities carry six decimal places.
pub const SCALE: i64 = 1_000_000;

/// Largest magnitude, in micro-units, accepted for a single raw input value
/// (one million units).
pub const MAX_INPUT_MICROS: i64 = 1_000_000_000_000;

/// Largest magnitude, in micro-units, a canonical-vector amount may reach.
pub const MAX_FIELD_MICROS: i64 = 2_000_000_000_000_000_000;

/// A fixed-point amount: `micros` counts millionths of a unit.
#[derive(Clone, Copy, Debug, PartialEq, Eq, Structural)]
pub struct Quantity {
    pub micros: i64,
}

impl View for Quantity {
    type V = int;

    open spec fn view(&self) -> int {
        self.micros as int
    }
}

/// Division truncating toward zero, as Rust's integer division does.
pub open spec fn div_trunc(n: int, d: int) -> int
    recommends
        d > 0,
{
    if n >= 0 {
        n / d
    } else {
        -((-n) / d)
    }
}

impl Quantity {
    /// True of amounts small enough to be accepted as one raw input value.
    pub open spec fn is_input(self) -> bool {
        -MAX_INPUT_MICROS <= self.micros <= MAX_INPUT_MICROS
    }

    /// True of amounts small enough to be stored in a canonical vector.
    pub open spec fn is_bounded(self) -> bool {
        -MAX_FIELD_MICROS <= self.micros <= MAX_FIELD_MICROS
    }

    /// The amount holding exactly `micros` millionths of a unit.
    pub fn from_micros(micros: i64) -> (r: Quantity)
        ensures
            r@ == micros as int,
    {
        Quantity { micros }
    }

    /// The amount holding exactly `units` whole units.
    pub fn from_units(units: i64) -> (r: Quantity)
        requires
            -1_000_000_000_000 <= units <= 1_000_000_000_000,
        ensures
            r@ == units * SCALE,
    {
        Quantity { micros: units * SCALE }
    }

    /// The stored count of millionths of a unit.
    pub fn micros(self) -> (r: i64)
        ensures
            r as int == self@,
    {
        self.micros
    }
}

/// A nonnegative dividend and positive divisor give a nonnegative quotient
/// no larger than the dividend.
pub proof fn lemma_div_nonneg_le(p: int, d: int)
    requires
        p >= 0,
        d > 0,
    ensures
        0 <= p / d <= p,
{
    lemma_div_pos_is_pos(p, d);
    lemma_div_nonincreasing(p, d);
}

/// If `p < q * d` then `p / d < q`, for nonnegative `p`.
pub proof fn lemma_div_upper(p: int, d: int, q: int)
    requires
        d > 0,
        0 <= p,
        p < q * d,
    ensures
        p / d < q,
{
    assert(p < d * q) by (nonlinear_arith)
        requires
            p < q * d,
    ;
    lemma_multiply_divide_lt(p, d, q);
}

/// If `q * d <= p` then `q <= p / d`, for nonnegative `q * d`.
pub proof fn lemma_div_lower(p: int, d: int, q: int)
    requires
        d > 0,
        q * d <= p,
        0 <= p,
    ensures
        q <= p / d,
{
    if q >= 0 {
        vstd::arithmetic::div_mod::lemma_fundamental_div_mod(p, d);
        vstd::arithmetic::div_mod::lemma_mod_division_less_than_divisor(p, d);
        assert(q <= p / d) by (nonlinear_arith)
            requires
                d > 0,
                q * d <= p,
                p == d * (p / d) + p % d,
                0 <= p % d < d,
        ;
    } else {
        lemma_div_pos_is_pos(p, d);
    }
}

/// Truncating division keeps the quotient within the dividend's bound.
pub proof fn lemma_div_trunc_bound(n: int, d: int, bound: int)
    requires
        d >= 1,
        -bound <= n <= bound,
        bound >= 0,
    ensures
        -bound <= div_trunc(n, d) <= bound,
{
    if n >= 0 {
        lemma_div_nonneg_le(n, d);
    } else {
        lemma_div_nonneg_le(-n, d);
    }
}

/// Truncating division of a nonnegative multiple bound: if `0 <= n <= q * d`
/// then `div_trunc(n, d) <= q`.
pub proof fn lemma_div_trunc_upper_le(n: int, d: int, q: int)
    requires
        d > 0,
        0 <= n,
        n <= q * d,
    ensures
        div_trunc(n, d) <= q,
{
    assert(n <= d * q) by (nonlinear_arith)
        requires
            n <= q * d,
    ;
    lemma_multiply_divide_le(n, d, q);
}

/// If `|n| <= q * d` then `|div_trunc(n, d)| <= q`.
pub proof fn lemma_div_trunc_scaled_bound(n: int, d: int, q: int)
    requires
        d > 0,
        q >= 0,
        -(q * d) <= n <= q * d,
    ensures
        -q <= div_trunc(n, d) <= q,
{
    if n >= 0 {
        lemma_div_nonneg_le(n, d);
        assert(n <= d * q) by (nonlinear_arith)
            requires
                n <= q * d,
        ;
        lemma_multiply_divide_le(n, d, q);
    } else {
        lemma_div_nonneg_le(-n, d);
        assert(-n <= d * q) by (nonlinear_arith)
            requires
                -(q * d) <= n,
        ;
        lemma_multiply_divide_le(-n, d, q);
    }
}

/// The product of two `i64` values, computed exactly in an `i128`.
pub fn mul_i64(a: i64, b: i64) -> (r: i128)
    ensures
        r as int == a as int * b as int,
{
    proof {
        assert((a as int) * (b as int) <= 0x4000_0000_0000_0000_0000_0000_0000_0000int
            && (a as int) * (b as int) >= -0x4000_0000_0000_0000_0000_0000_0000_0000int)
            by (nonlinear_arith)
            requires
                -0x8000_0000_0000_0000int <= a as int <= 0x7fff_ffff_ffff_ffffint,
                -0x8000_0000_0000_0000int <= b as int <= 0x7fff_ffff_ffff_ffffint,
        ;
    }
    (a as i128) * (b as i128)
}

/// `div_trunc(a * b, d)`, for results known to fit in an `i64`.
pub fn mul_div(a: i64, b: i64, d: i64) -> (r: i64)
    requires
        d > 0,
        -0x7fff_ffff_ffff_ffff <= div_trunc(a as int * b as int, d as int)
            <= 0x7fff_ffff_ffff_ffff,
    ensures
        r as int == div_trunc(a as int * b as int, d as int),
{
    let p: i128 = mul_i64(a, b);
    let q: i128 = p / (d as i128);
    proof {
        if p >= 0 {
            lemma_div_nonneg_le(p as int, d as int);
        } else {
            lemma_div_nonneg_le(-(p as int), d as int);
        }
    }
    q as i64
}

} // verus!
