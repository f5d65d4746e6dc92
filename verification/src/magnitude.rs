//! The magnitude law of fixed-point normalization.

use vstd::prelude::*;

use crate::fixed::{fx_div_v, sqrt_v};
use crate::vectors::{mag_sq3, mag_v, Vec3};

verus! {

/// The integer square root exists for every nonnegative integer, so
/// `sqrt_v(n)` satisfies its defining bounds.
pub proof fn lemma_sqrt_v_bounds(n: int)
    requires
        n >= 0,
    ensures
        sqrt_v(n) >= 0,
        sqrt_v(n) * sqrt_v(n) <= n,
        n < (sqrt_v(n) + 1) * (sqrt_v(n) + 1),
    decreases n,
{
    if n == 0 {
        crate::fixed::lemma_sqrt_v_is(0, 0);
    } else {
        lemma_sqrt_v_bounds(n - 1);
        let r = sqrt_v(n - 1);
        if (r + 1) * (r + 1) <= n {
            assert(n < (r + 2) * (r + 2)) by (nonlinear_arith)
                requires
                    n - 1 < (r + 1) * (r + 1),
                    r >= 0,
            ;
            crate::fixed::lemma_sqrt_v_is(n, r + 1);
        } else {
            crate::fixed::lemma_sqrt_v_is(n, r);
        }
    }
}

/// One component's contribution to the magnitude bounds: squaring the
/// two Euclidean-division inequalities.
proof fn lemma_component_squares(a: int, nh: int, m: int, s: int)
    requires
        0 <= a,
        0 <= nh,
        1 <= m,
        0 < s,
        m * nh <= a * s,
        a * s < m * (nh + 1),
    ensures
        m * m * (nh * nh) <= (s * s) * (a * a),
        (s * s) * (a * a) < m * m * (nh * nh + 2 * nh + 1),
{
    assert(m * m * (nh * nh) == (m * nh) * (m * nh)) by (nonlinear_arith);
    assert((m * nh) * (m * nh) <= (a * s) * (a * s)) by (nonlinear_arith)
        requires
            0 <= m * nh,
            m * nh <= a * s,
    ;
    assert((a * s) * (a * s) == (s * s) * (a * a)) by (nonlinear_arith);
    assert((a * s) * (a * s) < (m * (nh + 1)) * (m * (nh + 1))) by (nonlinear_arith)
        requires
            0 <= a * s,
            a * s < m * (nh + 1),
    ;
    assert((m * (nh + 1)) * (m * (nh + 1)) == m * m * (nh * nh + 2 * nh + 1)) by (nonlinear_arith);
}

/// Normalization yields a vector of magnitude 1, up to the fixed-point
/// grid: for any vector of length at least 1.0, the squared magnitude of
/// the normalized vector lies between `(FX_ONE - 3)^2` (exclusive) and
/// `(FX_ONE + 1)^2` (inclusive). Vectors shorter than 1.0 are excluded:
/// with so few bits below the point, their direction is too coarse for
/// any such bound.
pub proof fn lemma_normalize_unit_magnitude(v: Vec3)
    requires
        mag_sq3(v) >= 0x1_0000_0000,
    ensures
        ({
            let m = mag_v(v);
            let nx = fx_div_v(v.x as int, m);
            let ny = fx_div_v(v.y as int, m);
            let nz = fx_div_v(v.z as int, m);
            65533 * 65533 < nx * nx + ny * ny + nz * nz <= 65537 * 65537
        }),
{
    let s = 65536int;
    let q = mag_sq3(v);
    lemma_sqrt_v_bounds(q);
    let m = mag_v(v);
    assert(m >= s) by (nonlinear_arith)
        requires
            s == 65536,
            q >= 0x1_0000_0000,
            q < (m + 1) * (m + 1),
            m >= 0,
    ;
    let hx = lemma_abs_component(v.x as int, m);
    let hy = lemma_abs_component(v.y as int, m);
    let hz = lemma_abs_component(v.z as int, m);
    let ax = hx.0;
    let nhx = hx.1;
    let ay = hy.0;
    let nhy = hy.1;
    let az = hz.0;
    let nhz = hz.1;
    let nx = fx_div_v(v.x as int, m);
    let ny = fx_div_v(v.y as int, m);
    let nz = fx_div_v(v.z as int, m);
    assert(nx * nx == nhx * nhx && ny * ny == nhy * nhy && nz * nz == nhz * nhz)
        by (nonlinear_arith)
        requires
            nhx == nx || nhx == -nx,
            nhy == ny || nhy == -ny,
            nhz == nz || nhz == -nz,
    ;
    assert(ax * ax == (v.x as int) * (v.x as int) && ay * ay == (v.y as int) * (v.y as int) && az
        * az == (v.z as int) * (v.z as int)) by (nonlinear_arith)
        requires
            ax == v.x as int || ax == -(v.x as int),
            ay == v.y as int || ay == -(v.y as int),
            az == v.z as int || az == -(v.z as int),
    ;
    assert(q == ax * ax + ay * ay + az * az);
    lemma_component_squares(ax, nhx, m, s);
    lemma_component_squares(ay, nhy, m, s);
    lemma_component_squares(az, nhz, m, s);
    let sq = nhx * nhx + nhy * nhy + nhz * nhz;
    // Upper bound.
    assert(m * m * sq == m * m * (nhx * nhx) + m * m * (nhy * nhy) + m * m * (nhz * nhz))
        by (nonlinear_arith)
        requires
            sq == nhx * nhx + nhy * nhy + nhz * nhz,
    ;
    assert((s * s) * q == (s * s) * (ax * ax) + (s * s) * (ay * ay) + (s * s) * (az * az))
        by (nonlinear_arith)
        requires
            q == ax * ax + ay * ay + az * az,
    ;
    assert(m * m * sq <= (s * s) * q);
    assert((s * s) * q <= (s + 1) * (s + 1) * (m * m)) by (nonlinear_arith)
        requires
            q < (m + 1) * (m + 1),
            m >= s,
            s == 65536,
    ;
    assert(sq <= (s + 1) * (s + 1)) by (nonlinear_arith)
        requires
            m * m * sq <= (s + 1) * (s + 1) * (m * m),
            m >= 1,
    ;
    // Lower bound.
    assert((ax + ay + az) * (ax + ay + az) <= 3 * q) by (nonlinear_arith)
        requires
            q == ax * ax + ay * ay + az * az,
    ;
    assert(ax + ay + az < 2 * (m + 1)) by (nonlinear_arith)
        requires
            (ax + ay + az) * (ax + ay + az) <= 3 * q,
            q < (m + 1) * (m + 1),
            0 <= ax && 0 <= ay && 0 <= az,
            m >= 0,
    ;
    let sn = nhx + nhy + nhz;
    assert(sn <= 2 * s + 2) by (nonlinear_arith)
        requires
            sn == nhx + nhy + nhz,
            m * nhx <= ax * s,
            m * nhy <= ay * s,
            m * nhz <= az * s,
            ax + ay + az < 2 * (m + 1),
            0 <= nhx && 0 <= nhy && 0 <= nhz,
            m >= s,
            s == 65536,
    ;
    assert(m * m * (nhx * nhx + 2 * nhx + 1) + m * m * (nhy * nhy + 2 * nhy + 1) + m * m * (nhz
        * nhz + 2 * nhz + 1) == m * m * (sq + 2 * sn + 3)) by (nonlinear_arith)
        requires
            sq == nhx * nhx + nhy * nhy + nhz * nhz,
            sn == nhx + nhy + nhz,
    ;
    assert((s * s) * q < m * m * (sq + 2 * sn + 3));
    assert((s * s) * (m * m) <= (s * s) * q) by (nonlinear_arith)
        requires
            m * m <= q,
            s == 65536,
    ;
    assert(s * s < sq + 2 * sn + 3) by (nonlinear_arith)
        requires
            (s * s) * (m * m) < m * m * (sq + 2 * sn + 3),
            m >= 1,
    ;
    assert(sq > 65533 * 65533) by (nonlinear_arith)
        requires
            s * s < sq + 2 * sn + 3,
            sn <= 2 * s + 2,
            s == 65536,
    ;
}

/// The absolute value of a component and of its normalized image, with
/// the Euclidean-division bounds that tie them: returns `(|c|, |n_c|)`
/// where `n_c == fx_div_v(c, m)`.
proof fn lemma_abs_component(c: int, m: int) -> (r: (int, int))
    requires
        m >= 1,
    ensures
        r.0 == if c >= 0 {
            c
        } else {
            -c
        },
        r.1 == fx_div_v(c, m) || r.1 == -fx_div_v(c, m),
        0 <= r.0,
        0 <= r.1,
        m * r.1 <= r.0 * 65536,
        r.0 * 65536 < m * (r.1 + 1),
{
    let a = if c >= 0 {
        c
    } else {
        -c
    };
    let f = a * 65536;
    vstd::arithmetic::div_mod::lemma_fundamental_div_mod(f, m);
    vstd::arithmetic::div_mod::lemma_div_pos_is_pos(f, m);
    assert(0 <= f % m < m) by {
        vstd::arithmetic::div_mod::lemma_mod_division_less_than_divisor(f, m);
    }
    let nh = f / m;
    assert(m * nh <= f && f < m * (nh + 1)) by (nonlinear_arith)
        requires
            f == m * nh + f % m,
            0 <= f % m < m,
    ;
    if c >= 0 {
        assert(fx_div_v(c, m) == nh);
        (a, nh)
    } else {
        assert(fx_div_v(c, m) == -nh);
        (a, nh)
    }
}

} // verus!
