//! Fixed-point scalars.
//!
//! Every real-valued quantity in the library (states, control actions, cost
//! weights, dynamics coefficients) is held as a `Scalar`: an `i64` count of
//! units of `1 / SCALE`.  All arithmetic on scalars is exact integer
//! arithmetic; the fixed-point product rounds toward zero, and that rounding
//! is part of the stated contract.

use vstd::prelude::*;

verus! {

/// Number of raw units in one whole unit: a `Scalar` with `raw == SCALE`
/// has the value one.
pub const SCALE: i64 = 1_000_000;

/// A fixed-point number with value `raw / SCALE`.
#[derive(Clone, Copy, PartialEq, Eq, Structural, Debug)]
pub struct Scalar {
    pub raw: i64,
}

/// Truncating division of `a` by a positive divisor `d`: the quotient is
/// rounded toward zero, as the machine division of signed integers rounds.
pub open spec fn div_trunc(a: int, d: int) -> int
    recommends
        d > 0,
{
    if a >= 0 {
        a / d
    } else {
        -((-a) / d)
    }
}

/// The raw value of the fixed-point product of two raw values.
pub open spec fn mul_raw(a: int, b: int) -> int {
    div_trunc(a * b, SCALE as int)
}

impl Scalar {
    /// The raw value lies within magnitude `m`.
    pub open spec fn bounded(self, m: int) -> bool {
        -m <= self.raw <= m
    }

    pub fn new(raw: i64) -> (r: Scalar)
        ensures
            r.raw == raw,
    {
        Scalar { raw }
    }

    pub fn zero() -> (r: Scalar)
        ensures
            r.raw == 0,
    {
        Scalar { raw: 0 }
    }

    pub fn one() -> (r: Scalar)
        ensures
            r.raw == SCALE,
    {
        Scalar { raw: SCALE }
    }

    /// The scalar holding the whole number `v`.
    pub fn from_units(v: i64) -> (r: Scalar)
        requires
            i64::MIN <= v * SCALE <= i64::MAX,
        ensures
            r.raw == v * SCALE,
    {
        Scalar { raw: v * SCALE }
    }

    pub fn neg(self) -> (r: Scalar)
        requires
            self.raw != i64::MIN,
        ensures
            r.raw == -self.raw,
    {
        Scalar { raw: -self.raw }
    }

    pub fn add(self, other: Scalar) -> (r: Scalar)
        requires
            i64::MIN <= self.raw + other.raw <= i64::MAX,
        ensures
            r.raw == self.raw + other.raw,
    {
        Scalar { raw: self.raw + other.raw }
    }

    /// Fixed-point product, rounded toward zero.
    pub fn mul(self, other: Scalar) -> (r: Scalar)
        requires
            i64::MIN <= mul_raw(self.raw as int, other.raw as int) <= i64::MAX,
        ensures
            r.raw == mul_raw(self.raw as int, other.raw as int),
    {
        proof {
            lemma_i64_product_fits(self.raw as int, other.raw as int);
        }
        let p: i128 = (self.raw as i128) * (other.raw as i128);
        if p >= 0 {
            let q: u128 = (p as u128) / (SCALE as u128);
            proof {
                assert(q == (p as int) / (SCALE as int));
            }
            Scalar { raw: q as i64 }
        } else {
            let np: i128 = -p;
            let q: u128 = (np as u128) / (SCALE as u128);
            proof {
                assert(q == (np as int) / (SCALE as int));
            }
            let qi: i128 = q as i128;
            Scalar { raw: (-qi) as i64 }
        }
    }
}

/// The raw values of a sequence of scalars, in order.
pub open spec fn raw_seq(s: Seq<Scalar>) -> Seq<int> {
    s.map_values(|x: Scalar| x.raw as int)
}

/// The whole-unit part of a raw value, rounded toward zero: the integer a
/// scalar holds once its fractional part is truncated.
pub fn scale_trunc(raw: i64) -> (q: i64)
    ensures
        q == div_trunc(raw as int, SCALE as int),
{
    if raw >= 0 {
        let q: u64 = (raw as u64) / (SCALE as u64);
        q as i64
    } else {
        let nr: i128 = -(raw as i128);
        let q: u128 = (nr as u128) / (SCALE as u128);
        let qi: i128 = q as i128;
        (-qi) as i64
    }
}

/// The product of two values in `i64` range fits in `i128`.
proof fn lemma_i64_product_fits(a: int, b: int)
    requires
        i64::MIN <= a <= i64::MAX,
        i64::MIN <= b <= i64::MAX,
    ensures
        i128::MIN <= a * b <= i128::MAX,
{
    assert(i128::MIN <= a * b <= i128::MAX) by (nonlinear_arith)
        requires
            i64::MIN <= a <= i64::MAX,
            i64::MIN <= b <= i64::MAX,
    ;
}

/// Truncating division by a positive divisor never grows the magnitude of a
/// bound: if `|a| <= d * m` then `|div_trunc(a, d)| <= m`.
pub proof fn lemma_div_trunc_bounded(a: int, d: int, m: int)
    requires
        d > 0,
        0 <= m,
        -(d * m) <= a <= d * m,
    ensures
        -m <= div_trunc(a, d) <= m,
{
    if a >= 0 {
        vstd::arithmetic::div_mod::lemma_div_is_ordered(a, d * m, d);
        vstd::arithmetic::div_mod::lemma_div_multiples_vanish(m, d);
        vstd::arithmetic::div_mod::lemma_div_pos_is_pos(a, d);
    } else {
        vstd::arithmetic::div_mod::lemma_div_is_ordered(-a, d * m, d);
        vstd::arithmetic::div_mod::lemma_div_multiples_vanish(m, d);
        vstd::arithmetic::div_mod::lemma_div_pos_is_pos(-a, d);
    }
}

/// A fixed-point product with a factor of magnitude at most one (raw
/// magnitude at most `SCALE`) never grows the other factor's bound.
pub proof fn lemma_mul_raw_contracts(a: int, x: int, m: int)
    requires
        -(SCALE as int) <= a <= SCALE as int,
        0 <= m,
        -m <= x <= m,
    ensures
        -m <= mul_raw(a, x) <= m,
{
    assert(-((SCALE as int) * m) <= a * x <= (SCALE as int) * m) by (nonlinear_arith)
        requires
            -(SCALE as int) <= a <= SCALE as int,
            0 <= m,
            -m <= x <= m,
    ;
    lemma_div_trunc_bounded(a * x, SCALE as int, m);
}

} // verus!
