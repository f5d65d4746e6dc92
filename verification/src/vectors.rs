//! 3D and homogeneous 4D vectors over fixed-point coordinates.
//!
//! Every operation states its result exactly: component arithmetic is the
//! plain integer arithmetic of the scaled representation, and the rounded
//! operations (`dot`, `cross`, `normalize`) are pinned down through
//! [`crate::fixed::div_t`] and [`crate::fixed::sqrt_v`].

use vstd::prelude::*;

use crate::fixed::{div_t, fx_div_v, sqrt_v, FX_ONE};

verus! {

/// Coordinates handed to the rounded vector operations must stay within
/// this bound, so that 128-bit intermediates cannot overflow.
pub const COORD_LIMIT: i64 = 0x4000_0000_0000_0000;

/// A 3D vector (or point): fixed-point coordinates scaled by `FX_ONE`.
#[derive(Clone, Copy, Debug, PartialEq, Eq, Structural)]
pub struct Vec3 {
    pub x: i64,
    pub y: i64,
    pub z: i64,
}

/// A homogeneous point for the projection stage: `w` starts at `FX_ONE`
/// (1.0) for object-space vertices and is produced anew by the
/// perspective-projection matrix.
#[derive(Clone, Copy, Debug, PartialEq, Eq, Structural)]
pub struct Vec4 {
    pub x: i64,
    pub y: i64,
    pub z: i64,
    pub w: i64,
}

/// All three coordinates bounded by `c` in absolute value.
pub open spec fn vec3_bounded(v: Vec3, c: int) -> bool {
    &&& -c <= v.x <= c
    &&& -c <= v.y <= c
    &&& -c <= v.z <= c
}

/// The unscaled dot product of two coordinate triples.
pub open spec fn dot3(a: Vec3, b: Vec3) -> int {
    a.x * b.x + a.y * b.y + a.z * b.z
}

/// The unscaled (exact) cross product of two coordinate triples. The
/// executable `cross` scales this back down by `FX_ONE`.
pub open spec fn cross3(a: Vec3, b: Vec3) -> (int, int, int) {
    (a.y * b.z - a.z * b.y, a.z * b.x - a.x * b.z, a.x * b.y - a.y * b.x)
}

/// The squared magnitude of the coordinate triple, unscaled.
pub open spec fn mag_sq3(v: Vec3) -> int {
    v.x * v.x + v.y * v.y + v.z * v.z
}

/// The fixed-point magnitude of `v`: since `mag_sq3` carries two factors
/// of `FX_ONE`, its square root carries one, so no rescaling is needed.
pub open spec fn mag_v(v: Vec3) -> int {
    sqrt_v(mag_sq3(v))
}

impl Vec3 {
    pub fn new(x: i64, y: i64, z: i64) -> (r: Self)
        ensures
            r == (Vec3 { x, y, z }),
    {
        Self { x, y, z }
    }

    /// Componentwise sum.
    pub fn add(&self, other: &Self) -> (r: Self)
        requires
            i64::MIN <= self.x + other.x <= i64::MAX,
            i64::MIN <= self.y + other.y <= i64::MAX,
            i64::MIN <= self.z + other.z <= i64::MAX,
        ensures
            r.x == self.x + other.x,
            r.y == self.y + other.y,
            r.z == self.z + other.z,
    {
        Self { x: self.x + other.x, y: self.y + other.y, z: self.z + other.z }
    }

    /// Componentwise difference.
    pub fn sub(&self, other: &Self) -> (r: Self)
        requires
            i64::MIN <= self.x - other.x <= i64::MAX,
            i64::MIN <= self.y - other.y <= i64::MAX,
            i64::MIN <= self.z - other.z <= i64::MAX,
        ensures
            r.x == self.x - other.x,
            r.y == self.y - other.y,
            r.z == self.z - other.z,
    {
        Self { x: self.x - other.x, y: self.y - other.y, z: self.z - other.z }
    }

    /// Scalar multiplication by a fixed-point factor.
    pub fn scale(&self, s: i64) -> (r: Self)
        requires
            i64::MIN <= crate::fixed::fx_mul_v(self.x as int, s as int) <= i64::MAX,
            i64::MIN <= crate::fixed::fx_mul_v(self.y as int, s as int) <= i64::MAX,
            i64::MIN <= crate::fixed::fx_mul_v(self.z as int, s as int) <= i64::MAX,
        ensures
            r.x as int == crate::fixed::fx_mul_v(self.x as int, s as int),
            r.y as int == crate::fixed::fx_mul_v(self.y as int, s as int),
            r.z as int == crate::fixed::fx_mul_v(self.z as int, s as int),
    {
        Self {
            x: crate::fixed::fx_mul(self.x, s),
            y: crate::fixed::fx_mul(self.y, s),
            z: crate::fixed::fx_mul(self.z, s),
        }
    }

    /// Scalar division by a fixed-point divisor.
    pub fn div_scalar(&self, s: i64) -> (r: Self)
        requires
            s != 0,
            i64::MIN <= fx_div_v(self.x as int, s as int) <= i64::MAX,
            i64::MIN <= fx_div_v(self.y as int, s as int) <= i64::MAX,
            i64::MIN <= fx_div_v(self.z as int, s as int) <= i64::MAX,
        ensures
            r.x as int == fx_div_v(self.x as int, s as int),
            r.y as int == fx_div_v(self.y as int, s as int),
            r.z as int == fx_div_v(self.z as int, s as int),
    {
        Self {
            x: crate::fixed::fx_div(self.x, s),
            y: crate::fixed::fx_div(self.y, s),
            z: crate::fixed::fx_div(self.z, s),
        }
    }

    /// The fixed-point dot product: the exact product sum `dot3`, scaled
    /// back down by `FX_ONE`.
    pub fn dot(&self, other: &Self) -> (r: i64)
        requires
            vec3_bounded(*self, COORD_LIMIT as int),
            vec3_bounded(*other, COORD_LIMIT as int),
            i64::MIN <= div_t(dot3(*self, *other), FX_ONE as int) <= i64::MAX,
        ensures
            r as int == div_t(dot3(*self, *other), FX_ONE as int),
    {
        proof {
            crate::fixed::lemma_mul_abs_bound(
                self.x as int,
                other.x as int,
                0x4000_0000_0000_0000,
                0x4000_0000_0000_0000,
            );
            crate::fixed::lemma_mul_abs_bound(
                self.y as int,
                other.y as int,
                0x4000_0000_0000_0000,
                0x4000_0000_0000_0000,
            );
            crate::fixed::lemma_mul_abs_bound(
                self.z as int,
                other.z as int,
                0x4000_0000_0000_0000,
                0x4000_0000_0000_0000,
            );
        }
        let p: i128 = (self.x as i128) * (other.x as i128) + (self.y as i128) * (other.y as i128)
            + (self.z as i128) * (other.z as i128);
        let q: i128 = p / (FX_ONE as i128);
        assert(q == div_t(dot3(*self, *other), FX_ONE as int));
        q as i64
    }

    /// The fixed-point cross product: each component of the exact `cross3`,
    /// scaled back down by `FX_ONE`.
    pub fn cross(&self, other: &Self) -> (r: Self)
        requires
            vec3_bounded(*self, COORD_LIMIT as int),
            vec3_bounded(*other, COORD_LIMIT as int),
            i64::MIN <= div_t(cross3(*self, *other).0, FX_ONE as int) <= i64::MAX,
            i64::MIN <= div_t(cross3(*self, *other).1, FX_ONE as int) <= i64::MAX,
            i64::MIN <= div_t(cross3(*self, *other).2, FX_ONE as int) <= i64::MAX,
        ensures
            r.x as int == div_t(cross3(*self, *other).0, FX_ONE as int),
            r.y as int == div_t(cross3(*self, *other).1, FX_ONE as int),
            r.z as int == div_t(cross3(*self, *other).2, FX_ONE as int),
    {
        proof {
            let cl = 0x4000_0000_0000_0000int;
            crate::fixed::lemma_mul_abs_bound(self.y as int, other.z as int, cl, cl);
            crate::fixed::lemma_mul_abs_bound(self.z as int, other.y as int, cl, cl);
            crate::fixed::lemma_mul_abs_bound(self.z as int, other.x as int, cl, cl);
            crate::fixed::lemma_mul_abs_bound(self.x as int, other.z as int, cl, cl);
            crate::fixed::lemma_mul_abs_bound(self.x as int, other.y as int, cl, cl);
            crate::fixed::lemma_mul_abs_bound(self.y as int, other.x as int, cl, cl);
        }
        let cx: i128 = (self.y as i128) * (other.z as i128) - (self.z as i128) * (other.y as i128);
        let cy: i128 = (self.z as i128) * (other.x as i128) - (self.x as i128) * (other.z as i128);
        let cz: i128 = (self.x as i128) * (other.y as i128) - (self.y as i128) * (other.x as i128);
        let qx: i128 = cx / (FX_ONE as i128);
        let qy: i128 = cy / (FX_ONE as i128);
        let qz: i128 = cz / (FX_ONE as i128);
        assert(qx == div_t(cross3(*self, *other).0, FX_ONE as int));
        assert(qy == div_t(cross3(*self, *other).1, FX_ONE as int));
        assert(qz == div_t(cross3(*self, *other).2, FX_ONE as int));
        Self { x: qx as i64, y: qy as i64, z: qz as i64 }
    }

    /// The fixed-point magnitude: the integer square root of the unscaled
    /// squared magnitude.
    pub fn mag(&self) -> (r: i64)
        requires
            vec3_bounded(*self, COORD_LIMIT as int),
        ensures
            r as int == mag_v(*self),
            r >= 0,
            (r as int) * (r as int) <= mag_sq3(*self),
            mag_sq3(*self) < ((r + 1) as int) * ((r + 1) as int),
    {
        proof {
            let cl = 0x4000_0000_0000_0000int;
            crate::fixed::lemma_mul_abs_bound(self.x as int, self.x as int, cl, cl);
            crate::fixed::lemma_mul_abs_bound(self.y as int, self.y as int, cl, cl);
            crate::fixed::lemma_mul_abs_bound(self.z as int, self.z as int, cl, cl);
        }
        let p: i128 = (self.x as i128) * (self.x as i128) + (self.y as i128) * (self.y as i128)
            + (self.z as i128) * (self.z as i128);
        proof {
            assert(p >= 0 && p <= 3 * (0x4000_0000_0000_0000int * 0x4000_0000_0000_0000int))
                by (nonlinear_arith)
                requires
                    p == (self.x as int) * (self.x as int) + (self.y as int) * (self.y as int) + (
                    self.z as int) * (self.z as int),
                    -0x4000_0000_0000_0000int <= self.x as int <= 0x4000_0000_0000_0000int,
                    -0x4000_0000_0000_0000int <= self.y as int <= 0x4000_0000_0000_0000int,
                    -0x4000_0000_0000_0000int <= self.z as int <= 0x4000_0000_0000_0000int,
            ;
        }
        let root: u64 = crate::fixed::isqrt(p as u128);
        proof {
            crate::fixed::lemma_sqrt_v_is(mag_sq3(*self), root as int);
            assert(root as int <= i64::MAX as int) by (nonlinear_arith)
                requires
                    (root as int) * (root as int) <= 3 * (0x4000_0000_0000_0000int
                        * 0x4000_0000_0000_0000int),
            ;
        }
        root as i64
    }

    /// In-place normalization: each coordinate is divided (in fixed point)
    /// by the magnitude, so the result has magnitude close to `FX_ONE`.
    /// The zero vector is excluded: its direction is undefined.
    pub fn normalize(&mut self)
        requires
            vec3_bounded(*old(self), COORD_LIMIT as int),
            mag_sq3(*old(self)) > 0,
        ensures
            final(self).x as int == fx_div_v(old(self).x as int, mag_v(*old(self))),
            final(self).y as int == fx_div_v(old(self).y as int, mag_v(*old(self))),
            final(self).z as int == fx_div_v(old(self).z as int, mag_v(*old(self))),
            vec3_bounded(*final(self), 131072),
    {
        let m: i64 = self.mag();
        proof {
            let n = mag_sq3(*self);
            assert(m as int > 0) by (nonlinear_arith)
                requires
                    n > 0,
                    (m as int) * (m as int) <= n,
                    n < ((m as int) + 1) * ((m as int) + 1),
                    m as int >= 0,
            ;
            assert((self.x as int) * (self.x as int) <= n && (self.y as int) * (self.y as int) <= n
                && (self.z as int) * (self.z as int) <= n) by (nonlinear_arith)
                requires
                    n == (self.x as int) * (self.x as int) + (self.y as int) * (self.y as int) + (
                    self.z as int) * (self.z as int),
            ;
            lemma_normalize_component_fits(self.x as int, m as int);
            lemma_normalize_component_fits(self.y as int, m as int);
            lemma_normalize_component_fits(self.z as int, m as int);
        }
        self.x = crate::fixed::fx_div(self.x, m);
        self.y = crate::fixed::fx_div(self.y, m);
        self.z = crate::fixed::fx_div(self.z, m);
    }
}

/// Each component of the fixed-point cross product of bounded vectors is
/// bounded by `(2 * ca * cb) / FX_ONE`.
pub proof fn lemma_cross_bound(a: Vec3, b: Vec3, ca: int, cb: int)
    requires
        0 <= ca,
        0 <= cb,
        vec3_bounded(a, ca),
        vec3_bounded(b, cb),
    ensures
        -((2 * (ca * cb)) / (FX_ONE as int)) <= div_t(cross3(a, b).0, FX_ONE as int) <= (2 * (ca
            * cb)) / (FX_ONE as int),
        -((2 * (ca * cb)) / (FX_ONE as int)) <= div_t(cross3(a, b).1, FX_ONE as int) <= (2 * (ca
            * cb)) / (FX_ONE as int),
        -((2 * (ca * cb)) / (FX_ONE as int)) <= div_t(cross3(a, b).2, FX_ONE as int) <= (2 * (ca
            * cb)) / (FX_ONE as int),
{
    crate::fixed::lemma_mul_abs_bound(a.y as int, b.z as int, ca, cb);
    crate::fixed::lemma_mul_abs_bound(a.z as int, b.y as int, ca, cb);
    crate::fixed::lemma_mul_abs_bound(a.z as int, b.x as int, ca, cb);
    crate::fixed::lemma_mul_abs_bound(a.x as int, b.z as int, ca, cb);
    crate::fixed::lemma_mul_abs_bound(a.x as int, b.y as int, ca, cb);
    crate::fixed::lemma_mul_abs_bound(a.y as int, b.x as int, ca, cb);
    assert(0 <= ca * cb) by (nonlinear_arith)
        requires
            0 <= ca,
            0 <= cb,
    ;
    crate::fixed::lemma_div_t_abs_bound(cross3(a, b).0, FX_ONE as int, 2 * (ca * cb));
    crate::fixed::lemma_div_t_abs_bound(cross3(a, b).1, FX_ONE as int, 2 * (ca * cb));
    crate::fixed::lemma_div_t_abs_bound(cross3(a, b).2, FX_ONE as int, 2 * (ca * cb));
}

/// The fixed-point dot product of bounded vectors is bounded by
/// `(3 * ca * cb) / FX_ONE`.
pub proof fn lemma_dot_bound(a: Vec3, b: Vec3, ca: int, cb: int)
    requires
        0 <= ca,
        0 <= cb,
        vec3_bounded(a, ca),
        vec3_bounded(b, cb),
    ensures
        -((3 * (ca * cb)) / (FX_ONE as int)) <= div_t(dot3(a, b), FX_ONE as int) <= (3 * (ca * cb))
            / (FX_ONE as int),
{
    crate::fixed::lemma_mul_abs_bound(a.x as int, b.x as int, ca, cb);
    crate::fixed::lemma_mul_abs_bound(a.y as int, b.y as int, ca, cb);
    crate::fixed::lemma_mul_abs_bound(a.z as int, b.z as int, ca, cb);
    assert(0 <= ca * cb) by (nonlinear_arith)
        requires
            0 <= ca,
            0 <= cb,
    ;
    crate::fixed::lemma_div_t_abs_bound(dot3(a, b), FX_ONE as int, 3 * (ca * cb));
}

/// A normalized component is at most 2.0 in fixed point: the magnitude
/// bounds the coordinate, so dividing by it and scaling by `FX_ONE`
/// cannot overflow.
proof fn lemma_normalize_component_fits(c: int, m: int)
    requires
        m > 0,
        c * c < (m + 1) * (m + 1),
    ensures
        -131072 <= fx_div_v(c, m) <= 131072,
{
    assert(-(m + 1) <= c <= m + 1) by (nonlinear_arith)
        requires
            c * c < (m + 1) * (m + 1),
            m > 0,
    ;
    crate::fixed::lemma_mul_abs_bound(c, 65536, m + 1, 65536);
    crate::fixed::lemma_div_t_abs_bound(c * 65536, m, (m + 1) * 65536);
    assert((m + 1) * 65536 <= m * 131072);
    vstd::arithmetic::div_mod::lemma_div_is_ordered((m + 1) * 65536, m * 131072, m);
    vstd::arithmetic::div_mod::lemma_div_multiples_vanish(131072, m);
    assert(c * (FX_ONE as int) == c * 65536);
}

/// The coordinates of a vector, as a triple of unbounded integers: the
/// view-matrix construction chains rounded operations, and these triples
/// let its contract name each intermediate value exactly.
pub open spec fn t_of(v: Vec3) -> (int, int, int) {
    (v.x as int, v.y as int, v.z as int)
}

/// The fixed-point magnitude of a coordinate triple.
pub open spec fn t_mag(a: (int, int, int)) -> int {
    sqrt_v(a.0 * a.0 + a.1 * a.1 + a.2 * a.2)
}

/// A coordinate triple normalized in fixed point.
pub open spec fn t_norm(a: (int, int, int)) -> (int, int, int) {
    (fx_div_v(a.0, t_mag(a)), fx_div_v(a.1, t_mag(a)), fx_div_v(a.2, t_mag(a)))
}

/// The fixed-point cross product of two coordinate triples.
pub open spec fn t_cross(a: (int, int, int), b: (int, int, int)) -> (int, int, int) {
    (
        div_t(a.1 * b.2 - a.2 * b.1, FX_ONE as int),
        div_t(a.2 * b.0 - a.0 * b.2, FX_ONE as int),
        div_t(a.0 * b.1 - a.1 * b.0, FX_ONE as int),
    )
}

/// The fixed-point dot product of two coordinate triples.
pub open spec fn t_dot(a: (int, int, int), b: (int, int, int)) -> int {
    div_t(a.0 * b.0 + a.1 * b.1 + a.2 * b.2, FX_ONE as int)
}

/// A vector with a nonzero component has a positive squared magnitude.
pub proof fn lemma_nonzero_mag_sq(v: Vec3)
    requires
        v.x != 0 || v.y != 0 || v.z != 0,
    ensures
        mag_sq3(v) > 0,
{
    assert(mag_sq3(v) > 0) by (nonlinear_arith)
        requires
            mag_sq3(v) == (v.x as int) * (v.x as int) + (v.y as int) * (v.y as int)
                + (v.z as int) * (v.z as int),
            v.x != 0 || v.y != 0 || v.z != 0,
    ;
}

} // verus!
