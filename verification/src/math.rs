//! Exact integer arithmetic shared by the pricing and liquidity formulas.
//!
//! Every formula of the pool has the shape `floor(a * b / d)` with factors
//! that do not fit a machine word once multiplied. [`mul_div`] computes that
//! quotient exactly and reports when it leaves the 64-bit range, so no
//! formula ever wraps or truncates silently.

use vstd::prelude::*;
use vstd::arithmetic::div_mod::lemma_fundamental_div_mod;
use vstd::arithmetic::div_mod::lemma_fundamental_div_mod_converse;

verus! {

/// Upper bound on the wide factor and on the divisor of [`mul_div`]: `2^80`.
pub open spec fn wide_limit() -> int {
    0x1_0000_0000_0000_0000_0000
}

/// The value `x` clamped into the 64-bit range.
pub open spec fn clamp_u64(x: int) -> int {
    if x > u64::MAX as int {
        u64::MAX as int
    } else {
        x
    }
}

/// A quotient is at most `q` as soon as the dividend lies below
/// `(q + 1) * d`.
pub proof fn lemma_div_upper(x: int, d: int, q: int)
    requires
        0 < d,
        x < (q + 1) * d,
    ensures
        x / d <= q,
{
    lemma_fundamental_div_mod(x, d);
    let qx = x / d;
    if qx > q {
        assert(d * qx >= d * (q + 1)) by (nonlinear_arith)
            requires
                qx >= q + 1,
                0 < d,
        ;
        assert(d * (q + 1) == (q + 1) * d) by (nonlinear_arith);
    }
}

/// A quotient is at least `q` as soon as the dividend reaches `q * d`.
pub proof fn lemma_div_lower(x: int, d: int, q: int)
    requires
        0 < d,
        q * d <= x,
    ensures
        q <= x / d,
{
    lemma_fundamental_div_mod(x, d);
    let qx = x / d;
    if qx < q {
        assert(d * (qx + 1) <= d * q) by (nonlinear_arith)
            requires
                qx + 1 <= q,
                0 < d,
        ;
        assert(d * (qx + 1) == d * qx + d) by (nonlinear_arith);
        assert(d * q == q * d) by (nonlinear_arith);
    }
}

/// Splits `floor(a * b / d)` into two limbs: the quotient is
/// `hi * 2^32 + lo`.
///
/// The product may need up to 144 bits, so it is never formed; the wide
/// factor is multiplied with each half of `b` and divided in turn.
fn wide_quotient(a: u128, b: u64, d: u128) -> (q: (u128, u128))
    requires
        a <= wide_limit(),
        0 < d <= wide_limit(),
    ensures
        (a as int * b as int) / (d as int) == q.0 as int * 0x1_0000_0000 + q.1 as int,
        q.0 <= 0xffff_ffff_ffff_ffff_ffff_ffff_ffff,
        q.1 <= 0x3_ffff_ffff_ffff_ffff_ffff_ffff_ffff,
{
    let base: u128 = 0x1_0000_0000;
    let b_hi: u128 = (b / 0x1_0000_0000) as u128;
    let b_lo: u128 = (b % 0x1_0000_0000) as u128;
    assert(a * b_hi <= 0x1_0000_0000_0000_0000_0000 * 0xffff_ffff) by (nonlinear_arith)
        requires
            a <= 0x1_0000_0000_0000_0000_0000,
            b_hi <= 0xffff_ffff,
    ;
    assert(a * b_lo <= 0x1_0000_0000_0000_0000_0000 * 0xffff_ffff) by (nonlinear_arith)
        requires
            a <= 0x1_0000_0000_0000_0000_0000,
            b_lo <= 0xffff_ffff,
    ;
    let t_hi: u128 = a * b_hi;
    let q_hi: u128 = t_hi / d;
    let r_hi: u128 = t_hi % d;
    let t_lo: u128 = r_hi * base + a * b_lo;
    let q_lo: u128 = t_lo / d;
    proof {
        let ai = a as int;
        let di = d as int;
        let r_lo = t_lo as int % di;
        lemma_fundamental_div_mod(t_hi as int, di);
        lemma_fundamental_div_mod(t_lo as int, di);
        assert(ai * (b as int) == (q_hi as int * 0x1_0000_0000 + q_lo as int) * di + r_lo)
            by (nonlinear_arith)
            requires
                b as int == b_hi as int * 0x1_0000_0000 + b_lo as int,
                t_hi as int == ai * b_hi as int,
                t_hi as int == di * q_hi as int + r_hi as int,
                t_lo as int == r_hi as int * 0x1_0000_0000 + ai * b_lo as int,
                t_lo as int == di * q_lo as int + r_lo,
        ;
        lemma_fundamental_div_mod_converse(
            ai * (b as int),
            di,
            q_hi as int * 0x1_0000_0000 + q_lo as int,
            r_lo,
        );
    }
    (q_hi, q_lo)
}

/// Computes `floor(a * b / d)` without losing precision.
///
/// `None` reports that the quotient does not fit 64 bits.
pub fn mul_div(a: u128, b: u64, d: u128) -> (q: Option<u64>)
    requires
        a <= wide_limit(),
        0 < d <= wide_limit(),
    ensures
        match q {
            Some(v) => v as int == (a as int * b as int) / (d as int),
            None => (a as int * b as int) / (d as int) > u64::MAX as int,
        },
{
    let (q_hi, q_lo) = wide_quotient(a, b, d);
    if q_hi > 0xffff_ffff {
        None
    } else {
        let total: u128 = q_hi * 0x1_0000_0000 + q_lo;
        if total > u64::MAX as u128 {
            None
        } else {
            Some(total as u64)
        }
    }
}

/// Computes `floor(a * b / d)` for a proper fraction `a / d`, which never
/// exceeds `b`.
pub fn mul_div_fraction(a: u128, b: u64, d: u128) -> (q: u64)
    requires
        a <= d,
        0 < d <= wide_limit(),
    ensures
        q as int == (a as int * b as int) / (d as int),
        q <= b,
{
    let (q_hi, q_lo) = wide_quotient(a, b, d);
    proof {
        assert((a as int * b as int) < (b as int + 1) * d as int) by (nonlinear_arith)
            requires
                0 <= a as int <= d as int,
                0 < d as int,
                0 <= b as int,
        ;
        lemma_div_upper(a as int * b as int, d as int, b as int);
    }
    (q_hi * 0x1_0000_0000 + q_lo) as u64
}

} // verus!
