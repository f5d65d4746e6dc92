//! Fixed-point scalar arithmetic.
//!
//! A scalar is an `i64` holding its real value scaled by [`FX_ONE`]:
//! `FX_ONE` itself stands for 1.0, `FX_ONE / 2` for 0.5. Products and
//! quotients are computed through 128-bit intermediates and rounded toward
//! zero, which [`div_t`] captures exactly.

use vstd::prelude::*;

verus! {

/// The fixed-point unit: the representation of 1.0.
pub const FX_ONE: i64 = 65536;

/// Truncating (round-toward-zero) integer division, the rounding rule used
/// by every fixed-point operation in this crate. Matches the `/` operator
/// of the machine integers. Unspecified when `b == 0`.
pub open spec fn div_t(a: int, b: int) -> int {
    if a >= 0 {
        a / b
    } else {
        -((-a) / b)
    }
}

/// The exact value of a fixed-point product: `a * b` scaled back down.
pub open spec fn fx_mul_v(a: int, b: int) -> int {
    div_t(a * b, FX_ONE as int)
}

/// The exact value of a fixed-point quotient: `a / b` scaled up.
pub open spec fn fx_div_v(a: int, b: int) -> int {
    div_t(a * FX_ONE, b)
}

/// Fixed-point multiplication, exact up to the truncation that
/// `fx_mul_v` states.
pub fn fx_mul(a: i64, b: i64) -> (r: i64)
    requires
        i64::MIN <= fx_mul_v(a as int, b as int) <= i64::MAX,
    ensures
        r as int == fx_mul_v(a as int, b as int),
{
    let p: i128 = (a as i128) * (b as i128);
    let q: i128 = p / (FX_ONE as i128);
    assert(q == fx_mul_v(a as int, b as int));
    q as i64
}

/// Fixed-point division, exact up to the truncation that `fx_div_v` states.
pub fn fx_div(a: i64, b: i64) -> (r: i64)
    requires
        b != 0,
        i64::MIN <= fx_div_v(a as int, b as int) <= i64::MAX,
    ensures
        r as int == fx_div_v(a as int, b as int),
{
    let p: i128 = (a as i128) * (FX_ONE as i128);
    let q: i128 = p / (b as i128);
    assert(q == fx_div_v(a as int, b as int));
    q as i64
}

/// The truncated quotient is bounded by the quotient of a bound on the
/// dividend: if `-m <= a <= m` then `|div_t(a, b)| <= m / b`.
pub proof fn lemma_div_t_abs_bound(a: int, b: int, m: int)
    requires
        b > 0,
        0 <= m,
        -m <= a <= m,
    ensures
        -(m / b) <= div_t(a, b) <= m / b,
{
    if a >= 0 {
        vstd::arithmetic::div_mod::lemma_div_pos_is_pos(a, b);
        vstd::arithmetic::div_mod::lemma_div_is_ordered(a, m, b);
    } else {
        vstd::arithmetic::div_mod::lemma_div_pos_is_pos(-a, b);
        vstd::arithmetic::div_mod::lemma_div_is_ordered(-a, m, b);
    }
}

/// Truncating division by a positive divisor preserves order.
pub proof fn lemma_div_t_ordered(a: int, b: int, d: int)
    requires
        a <= b,
        d > 0,
    ensures
        div_t(a, d) <= div_t(b, d),
{
    if a >= 0 {
        vstd::arithmetic::div_mod::lemma_div_is_ordered(a, b, d);
    } else if b < 0 {
        vstd::arithmetic::div_mod::lemma_div_is_ordered(-b, -a, d);
    } else {
        vstd::arithmetic::div_mod::lemma_div_pos_is_pos(-a, d);
        vstd::arithmetic::div_mod::lemma_div_pos_is_pos(b, d);
    }
}

/// Truncating division undoes multiplication by the (positive) divisor.
pub proof fn lemma_div_t_scale_cancel(x: int, s: int)
    requires
        s > 0,
    ensures
        div_t(s * x, s) == x,
{
    if x >= 0 {
        assert(s * x >= 0) by (nonlinear_arith)
            requires
                s > 0,
                x >= 0,
        ;
        vstd::arithmetic::div_mod::lemma_div_multiples_vanish(x, s);
    } else {
        assert(s * x < 0 && -(s * x) == s * (-x)) by (nonlinear_arith)
            requires
                s > 0,
                x < 0,
        ;
        vstd::arithmetic::div_mod::lemma_div_multiples_vanish(-x, s);
    }
}

/// A product of bounded factors is bounded by the product of the bounds.
pub proof fn lemma_mul_abs_bound(a: int, b: int, ca: int, cb: int)
    by (nonlinear_arith)
    requires
        -ca <= a <= ca,
        -cb <= b <= cb,
    ensures
        -(ca * cb) <= a * b <= ca * cb,
{
}

/// The integer square root of `n` (floor of the real square root), as a
/// spec-level value. Meaningful for `n >= 0`.
pub open spec fn sqrt_v(n: int) -> int {
    choose|r: int| 0 <= r && #[trigger] (r * r) <= n && n < (r + 1) * (r + 1)
}

/// `sqrt_v(n)` is the unique `r >= 0` with `r * r <= n < (r + 1) * (r + 1)`.
pub proof fn lemma_sqrt_v_is(n: int, r: int)
    requires
        0 <= r,
        r * r <= n,
        n < (r + 1) * (r + 1),
    ensures
        sqrt_v(n) == r,
{
    assert(0 <= r && #[trigger] (r * r) <= n && n < (r + 1) * (r + 1));
    let q = sqrt_v(n);
    assert(0 <= q && q * q <= n && n < (q + 1) * (q + 1));
    assert(q == r) by (nonlinear_arith)
        requires
            0 <= q,
            q * q <= n,
            n < (q + 1) * (q + 1),
            0 <= r,
            r * r <= n,
            n < (r + 1) * (r + 1),
    ;
}

/// Integer square root: the largest `r` with `r * r <= n`.
pub fn isqrt(n: u128) -> (r: u64)
    ensures
        (r as int) * (r as int) <= n as int,
        (n as int) < ((r + 1) as int) * ((r + 1) as int),
{
    let mut lo: u128 = 0;
    let mut hi: u128 = 0x1_0000_0000_0000_0000;
    assert((hi as int) * (hi as int) > n as int) by (nonlinear_arith)
        requires
            hi == 0x1_0000_0000_0000_0000u128,
            (n as int) < 0x1_0000_0000_0000_0000_0000_0000_0000_0000int,
    ;
    while lo + 1 < hi
        invariant
            lo < hi,
            hi <= 0x1_0000_0000_0000_0000u128,
            (lo as int) * (lo as int) <= n as int,
            (n as int) < (hi as int) * (hi as int),
        decreases hi - lo,
    {
        let mid: u128 = lo + (hi - lo) / 2;
        assert((mid as int) * (mid as int) < 0x1_0000_0000_0000_0000_0000_0000_0000_0000int)
            by (nonlinear_arith)
            requires
                (mid as int) < 0x1_0000_0000_0000_0000int,
        ;
        if mid * mid <= n {
            lo = mid;
        } else {
            hi = mid;
        }
    }
    assert(lo <= u64::MAX as u128);
    lo as u64
}

} // verus!
