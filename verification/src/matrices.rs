//! 4x4 fixed-point transform matrices.
//!
//! The pipeline uses the column-vector convention throughout: a matrix is
//! applied as `M * v`, and in a composition `A * B` the transform `B` acts
//! first. Every entry of a product or of a transformed point is stated
//! exactly as a rounded row-column product ([`rc_v`]).

use vstd::prelude::*;

use crate::fixed::{div_t, fx_div_v, FX_ONE};
use crate::vectors::{Vec3, Vec4};

verus! {

/// Matrix entries handed to `multiply` must stay within this bound so
/// that every entry of the product fits in an `i64`.
pub const MAT_LIMIT: i64 = 0x40_0000_0000;

/// A 4x4 matrix, row by row: `m[r][c]` is the field `m<r><c>`.
#[derive(Clone, Copy, Debug, PartialEq, Eq, Structural)]
pub struct Matrix4x4 {
    pub m00: i64,
    pub m01: i64,
    pub m02: i64,
    pub m03: i64,
    pub m10: i64,
    pub m11: i64,
    pub m12: i64,
    pub m13: i64,
    pub m20: i64,
    pub m21: i64,
    pub m22: i64,
    pub m23: i64,
    pub m30: i64,
    pub m31: i64,
    pub m32: i64,
    pub m33: i64,
}

/// The rounded row-column product: the exact sum of the four entry
/// products, scaled back down by `FX_ONE`.
pub open spec fn rc_v(a0: int, a1: int, a2: int, a3: int, b0: int, b1: int, b2: int, b3: int) -> int {
    div_t(a0 * b0 + a1 * b1 + a2 * b2 + a3 * b3, FX_ONE as int)
}

/// All sixteen entries bounded by `c` in absolute value.
pub open spec fn mat_bounded(m: Matrix4x4, c: int) -> bool {
    &&& -c <= m.m00 <= c && -c <= m.m01 <= c && -c <= m.m02 <= c && -c <= m.m03 <= c
    &&& -c <= m.m10 <= c && -c <= m.m11 <= c && -c <= m.m12 <= c && -c <= m.m13 <= c
    &&& -c <= m.m20 <= c && -c <= m.m21 <= c && -c <= m.m22 <= c && -c <= m.m23 <= c
    &&& -c <= m.m30 <= c && -c <= m.m31 <= c && -c <= m.m32 <= c && -c <= m.m33 <= c
}

/// Row `r` of `a` times column `c` of `b`, for every entry of `r == a * b`.
pub open spec fn is_mat_product(r: Matrix4x4, a: Matrix4x4, b: Matrix4x4) -> bool {
    &&& r.m00 as int == rc_v(
        a.m00 as int,
        a.m01 as int,
        a.m02 as int,
        a.m03 as int,
        b.m00 as int,
        b.m10 as int,
        b.m20 as int,
        b.m30 as int,
    )
    &&& r.m01 as int == rc_v(
        a.m00 as int,
        a.m01 as int,
        a.m02 as int,
        a.m03 as int,
        b.m01 as int,
        b.m11 as int,
        b.m21 as int,
        b.m31 as int,
    )
    &&& r.m02 as int == rc_v(
        a.m00 as int,
        a.m01 as int,
        a.m02 as int,
        a.m03 as int,
        b.m02 as int,
        b.m12 as int,
        b.m22 as int,
        b.m32 as int,
    )
    &&& r.m03 as int == rc_v(
        a.m00 as int,
        a.m01 as int,
        a.m02 as int,
        a.m03 as int,
        b.m03 as int,
        b.m13 as int,
        b.m23 as int,
        b.m33 as int,
    )
    &&& r.m10 as int == rc_v(
        a.m10 as int,
        a.m11 as int,
        a.m12 as int,
        a.m13 as int,
        b.m00 as int,
        b.m10 as int,
        b.m20 as int,
        b.m30 as int,
    )
    &&& r.m11 as int == rc_v(
        a.m10 as int,
        a.m11 as int,
        a.m12 as int,
        a.m13 as int,
        b.m01 as int,
        b.m11 as int,
        b.m21 as int,
        b.m31 as int,
    )
    &&& r.m12 as int == rc_v(
        a.m10 as int,
        a.m11 as int,
        a.m12 as int,
        a.m13 as int,
        b.m02 as int,
        b.m12 as int,
        b.m22 as int,
        b.m32 as int,
    )
    &&& r.m13 as int == rc_v(
        a.m10 as int,
        a.m11 as int,
        a.m12 as int,
        a.m13 as int,
        b.m03 as int,
        b.m13 as int,
        b.m23 as int,
        b.m33 as int,
    )
    &&& r.m20 as int == rc_v(
        a.m20 as int,
        a.m21 as int,
        a.m22 as int,
        a.m23 as int,
        b.m00 as int,
        b.m10 as int,
        b.m20 as int,
        b.m30 as int,
    )
    &&& r.m21 as int == rc_v(
        a.m20 as int,
        a.m21 as int,
        a.m22 as int,
        a.m23 as int,
        b.m01 as int,
        b.m11 as int,
        b.m21 as int,
        b.m31 as int,
    )
    &&& r.m22 as int == rc_v(
        a.m20 as int,
        a.m21 as int,
        a.m22 as int,
        a.m23 as int,
        b.m02 as int,
        b.m12 as int,
        b.m22 as int,
        b.m32 as int,
    )
    &&& r.m23 as int == rc_v(
        a.m20 as int,
        a.m21 as int,
        a.m22 as int,
        a.m23 as int,
        b.m03 as int,
        b.m13 as int,
        b.m23 as int,
        b.m33 as int,
    )
    &&& r.m30 as int == rc_v(
        a.m30 as int,
        a.m31 as int,
        a.m32 as int,
        a.m33 as int,
        b.m00 as int,
        b.m10 as int,
        b.m20 as int,
        b.m30 as int,
    )
    &&& r.m31 as int == rc_v(
        a.m30 as int,
        a.m31 as int,
        a.m32 as int,
        a.m33 as int,
        b.m01 as int,
        b.m11 as int,
        b.m21 as int,
        b.m31 as int,
    )
    &&& r.m32 as int == rc_v(
        a.m30 as int,
        a.m31 as int,
        a.m32 as int,
        a.m33 as int,
        b.m02 as int,
        b.m12 as int,
        b.m22 as int,
        b.m32 as int,
    )
    &&& r.m33 as int == rc_v(
        a.m30 as int,
        a.m31 as int,
        a.m32 as int,
        a.m33 as int,
        b.m03 as int,
        b.m13 as int,
        b.m23 as int,
        b.m33 as int,
    )
}

/// The components of `M * v` for a homogeneous point `v`.
pub open spec fn xform_x(m: Matrix4x4, v: Vec4) -> int {
    rc_v(m.m00 as int, m.m01 as int, m.m02 as int, m.m03 as int, v.x as int, v.y as int, v.z as int, v.w as int)
}

pub open spec fn xform_y(m: Matrix4x4, v: Vec4) -> int {
    rc_v(m.m10 as int, m.m11 as int, m.m12 as int, m.m13 as int, v.x as int, v.y as int, v.z as int, v.w as int)
}

pub open spec fn xform_z(m: Matrix4x4, v: Vec4) -> int {
    rc_v(m.m20 as int, m.m21 as int, m.m22 as int, m.m23 as int, v.x as int, v.y as int, v.z as int, v.w as int)
}

pub open spec fn xform_w(m: Matrix4x4, v: Vec4) -> int {
    rc_v(m.m30 as int, m.m31 as int, m.m32 as int, m.m33 as int, v.x as int, v.y as int, v.z as int, v.w as int)
}

/// All four components of `M * v` fit in `i64`.
pub open spec fn xform_fits(m: Matrix4x4, v: Vec4) -> bool {
    &&& i64::MIN <= xform_x(m, v) <= i64::MAX
    &&& i64::MIN <= xform_y(m, v) <= i64::MAX
    &&& i64::MIN <= xform_z(m, v) <= i64::MAX
    &&& i64::MIN <= xform_w(m, v) <= i64::MAX
}

/// All four coordinates of a homogeneous point bounded by `c`.
pub open spec fn vec4_bounded(v: Vec4, c: int) -> bool {
    &&& -c <= v.x <= c
    &&& -c <= v.y <= c
    &&& -c <= v.z <= c
    &&& -c <= v.w <= c
}

/// One rounded row-column product, computed through 128-bit intermediates.
pub(crate) fn rc4(a0: i64, a1: i64, a2: i64, a3: i64, b0: i64, b1: i64, b2: i64, b3: i64) -> (r:
    i64)
    requires
        -0x4000_0000_0000_0000 <= a0 <= 0x4000_0000_0000_0000,
        -0x4000_0000_0000_0000 <= a1 <= 0x4000_0000_0000_0000,
        -0x4000_0000_0000_0000 <= a2 <= 0x4000_0000_0000_0000,
        -0x4000_0000_0000_0000 <= a3 <= 0x4000_0000_0000_0000,
        -0x4000_0000_0000_0000 <= b0 <= 0x4000_0000_0000_0000,
        -0x4000_0000_0000_0000 <= b1 <= 0x4000_0000_0000_0000,
        -0x4000_0000_0000_0000 <= b2 <= 0x4000_0000_0000_0000,
        -0x4000_0000_0000_0000 <= b3 <= 0x4000_0000_0000_0000,
        i64::MIN <= rc_v(
            a0 as int,
            a1 as int,
            a2 as int,
            a3 as int,
            b0 as int,
            b1 as int,
            b2 as int,
            b3 as int,
        ) <= i64::MAX,
    ensures
        r as int == rc_v(
            a0 as int,
            a1 as int,
            a2 as int,
            a3 as int,
            b0 as int,
            b1 as int,
            b2 as int,
            b3 as int,
        ),
{
    proof {
        let cl = 0x4000_0000_0000_0000int;
        crate::fixed::lemma_mul_abs_bound(a0 as int, b0 as int, cl, cl);
        crate::fixed::lemma_mul_abs_bound(a1 as int, b1 as int, cl, cl);
        crate::fixed::lemma_mul_abs_bound(a2 as int, b2 as int, cl, cl);
        crate::fixed::lemma_mul_abs_bound(a3 as int, b3 as int, cl, cl);
    }
    let p: i128 = (a0 as i128) * (b0 as i128) + (a1 as i128) * (b1 as i128) + (a2 as i128) * (b2
        as i128) + (a3 as i128) * (b3 as i128);
    let q: i128 = p / (FX_ONE as i128);
    assert(q == rc_v(
        a0 as int,
        a1 as int,
        a2 as int,
        a3 as int,
        b0 as int,
        b1 as int,
        b2 as int,
        b3 as int,
    ));
    q as i64
}

/// A rounded row-column product of bounded factors is bounded by
/// `(4 * ca * cb) / FX_ONE`.
pub proof fn lemma_rc_v_bound(
    a0: int,
    a1: int,
    a2: int,
    a3: int,
    b0: int,
    b1: int,
    b2: int,
    b3: int,
    ca: int,
    cb: int,
)
    requires
        0 <= ca,
        0 <= cb,
        -ca <= a0 <= ca && -ca <= a1 <= ca && -ca <= a2 <= ca && -ca <= a3 <= ca,
        -cb <= b0 <= cb && -cb <= b1 <= cb && -cb <= b2 <= cb && -cb <= b3 <= cb,
    ensures
        -((4 * ca * cb) / (FX_ONE as int)) <= rc_v(a0, a1, a2, a3, b0, b1, b2, b3) <= (4 * ca * cb)
            / (FX_ONE as int),
{
    crate::fixed::lemma_mul_abs_bound(a0, b0, ca, cb);
    crate::fixed::lemma_mul_abs_bound(a1, b1, ca, cb);
    crate::fixed::lemma_mul_abs_bound(a2, b2, ca, cb);
    crate::fixed::lemma_mul_abs_bound(a3, b3, ca, cb);
    assert(0 <= ca * cb) by (nonlinear_arith)
        requires
            0 <= ca,
            0 <= cb,
    ;
    assert(4 * ca * cb == 4 * (ca * cb)) by (nonlinear_arith);
    crate::fixed::lemma_div_t_abs_bound(
        a0 * b0 + a1 * b1 + a2 * b2 + a3 * b3,
        FX_ONE as int,
        4 * ca * cb,
    );
}

impl Matrix4x4 {
    /// The all-zero matrix.
    pub fn new() -> (r: Self)
        ensures
            mat_bounded(r, 0),
            r.m00 == 0 && r.m01 == 0 && r.m02 == 0 && r.m03 == 0,
            r.m10 == 0 && r.m11 == 0 && r.m12 == 0 && r.m13 == 0,
            r.m20 == 0 && r.m21 == 0 && r.m22 == 0 && r.m23 == 0,
            r.m30 == 0 && r.m31 == 0 && r.m32 == 0 && r.m33 == 0,
    {
        Self {
            m00: 0,
            m01: 0,
            m02: 0,
            m03: 0,
            m10: 0,
            m11: 0,
            m12: 0,
            m13: 0,
            m20: 0,
            m21: 0,
            m22: 0,
            m23: 0,
            m30: 0,
            m31: 0,
            m32: 0,
            m33: 0,
        }
    }

    /// Matrix composition `self * other`: applied to a point, `other`
    /// acts first, then `self`.
    pub fn multiply(&self, other: &Self) -> (r: Self)
        requires
            mat_bounded(*self, MAT_LIMIT as int),
            mat_bounded(*other, MAT_LIMIT as int),
        ensures
            is_mat_product(r, *self, *other),
            mat_bounded(r, 0x4000_0000_0000_0000),
    {
        proof {
            lemma_multiply_entries_fit(*self, *other);
        }
        Self {
            m00: rc4(self.m00, self.m01, self.m02, self.m03, other.m00, other.m10, other.m20, other.m30),
            m01: rc4(self.m00, self.m01, self.m02, self.m03, other.m01, other.m11, other.m21, other.m31),
            m02: rc4(self.m00, self.m01, self.m02, self.m03, other.m02, other.m12, other.m22, other.m32),
            m03: rc4(self.m00, self.m01, self.m02, self.m03, other.m03, other.m13, other.m23, other.m33),
            m10: rc4(self.m10, self.m11, self.m12, self.m13, other.m00, other.m10, other.m20, other.m30),
            m11: rc4(self.m10, self.m11, self.m12, self.m13, other.m01, other.m11, other.m21, other.m31),
            m12: rc4(self.m10, self.m11, self.m12, self.m13, other.m02, other.m12, other.m22, other.m32),
            m13: rc4(self.m10, self.m11, self.m12, self.m13, other.m03, other.m13, other.m23, other.m33),
            m20: rc4(self.m20, self.m21, self.m22, self.m23, other.m00, other.m10, other.m20, other.m30),
            m21: rc4(self.m20, self.m21, self.m22, self.m23, other.m01, other.m11, other.m21, other.m31),
            m22: rc4(self.m20, self.m21, self.m22, self.m23, other.m02, other.m12, other.m22, other.m32),
            m23: rc4(self.m20, self.m21, self.m22, self.m23, other.m03, other.m13, other.m23, other.m33),
            m30: rc4(self.m30, self.m31, self.m32, self.m33, other.m00, other.m10, other.m20, other.m30),
            m31: rc4(self.m30, self.m31, self.m32, self.m33, other.m01, other.m11, other.m21, other.m31),
            m32: rc4(self.m30, self.m31, self.m32, self.m33, other.m02, other.m12, other.m22, other.m32),
            m33: rc4(self.m30, self.m31, self.m32, self.m33, other.m03, other.m13, other.m23, other.m33),
        }
    }

    /// Application to a homogeneous point: `self * v`.
    pub fn apply(&self, v: &Vec4) -> (r: Vec4)
        requires
            mat_bounded(*self, 0x4000_0000_0000_0000),
            vec4_bounded(*v, 0x4000_0000_0000_0000),
            xform_fits(*self, *v),
        ensures
            r.x as int == xform_x(*self, *v),
            r.y as int == xform_y(*self, *v),
            r.z as int == xform_z(*self, *v),
            r.w as int == xform_w(*self, *v),
    {
        Vec4 {
            x: rc4(self.m00, self.m01, self.m02, self.m03, v.x, v.y, v.z, v.w),
            y: rc4(self.m10, self.m11, self.m12, self.m13, v.x, v.y, v.z, v.w),
            z: rc4(self.m20, self.m21, self.m22, self.m23, v.x, v.y, v.z, v.w),
            w: rc4(self.m30, self.m31, self.m32, self.m33, v.x, v.y, v.z, v.w),
        }
    }
}

/// A 3D point lifted to homogeneous coordinates with `w == 1`.
pub open spec fn lift3(v: Vec3) -> Vec4 {
    Vec4 { x: v.x, y: v.y, z: v.z, w: FX_ONE }
}

impl Vec3 {
    /// Applies a 4x4 matrix to the point (with implicit `w == 1`) and
    /// writes the result into `p_out`. When the transformed `w` is not
    /// zero the three coordinates are divided by it, as in a perspective
    /// transform; when it is zero they are left undivided.
    pub fn dot_by_matrix(&self, m: &Matrix4x4, p_out: &mut Vec3)
        requires
            mat_bounded(*m, 0x4000_0000_0000_0000),
            crate::vectors::vec3_bounded(*self, 0x4000_0000_0000_0000),
            xform_fits(*m, lift3(*self)),
            xform_w(*m, lift3(*self)) != 0 ==> i64::MIN <= fx_div_v(
                xform_x(*m, lift3(*self)),
                xform_w(*m, lift3(*self)),
            ) <= i64::MAX,
            xform_w(*m, lift3(*self)) != 0 ==> i64::MIN <= fx_div_v(
                xform_y(*m, lift3(*self)),
                xform_w(*m, lift3(*self)),
            ) <= i64::MAX,
            xform_w(*m, lift3(*self)) != 0 ==> i64::MIN <= fx_div_v(
                xform_z(*m, lift3(*self)),
                xform_w(*m, lift3(*self)),
            ) <= i64::MAX,
        ensures
            xform_w(*m, lift3(*self)) != 0 ==> final(p_out).x as int == fx_div_v(
                xform_x(*m, lift3(*self)),
                xform_w(*m, lift3(*self)),
            ),
            xform_w(*m, lift3(*self)) != 0 ==> final(p_out).y as int == fx_div_v(
                xform_y(*m, lift3(*self)),
                xform_w(*m, lift3(*self)),
            ),
            xform_w(*m, lift3(*self)) != 0 ==> final(p_out).z as int == fx_div_v(
                xform_z(*m, lift3(*self)),
                xform_w(*m, lift3(*self)),
            ),
            xform_w(*m, lift3(*self)) == 0 ==> final(p_out).x as int == xform_x(*m, lift3(*self)),
            xform_w(*m, lift3(*self)) == 0 ==> final(p_out).y as int == xform_y(*m, lift3(*self)),
            xform_w(*m, lift3(*self)) == 0 ==> final(p_out).z as int == xform_z(*m, lift3(*self)),
    {
        let v4 = Vec4 { x: self.x, y: self.y, z: self.z, w: FX_ONE };
        let t = m.apply(&v4);
        if t.w != 0 {
            p_out.x = crate::fixed::fx_div(t.x, t.w);
            p_out.y = crate::fixed::fx_div(t.y, t.w);
            p_out.z = crate::fixed::fx_div(t.z, t.w);
        } else {
            p_out.x = t.x;
            p_out.y = t.y;
            p_out.z = t.z;
        }
    }
}

/// A matrix applied to a homogeneous point given as an integer 4-tuple:
/// the pipeline's stages chain through this form, so each intermediate
/// value can be named exactly even when it only exists mid-computation.
pub open spec fn xf4(m: Matrix4x4, p: (int, int, int, int)) -> (int, int, int, int) {
    (
        rc_v(m.m00 as int, m.m01 as int, m.m02 as int, m.m03 as int, p.0, p.1, p.2, p.3),
        rc_v(m.m10 as int, m.m11 as int, m.m12 as int, m.m13 as int, p.0, p.1, p.2, p.3),
        rc_v(m.m20 as int, m.m21 as int, m.m22 as int, m.m23 as int, p.0, p.1, p.2, p.3),
        rc_v(m.m30 as int, m.m31 as int, m.m32 as int, m.m33 as int, p.0, p.1, p.2, p.3),
    )
}

/// A homogeneous point as an integer 4-tuple.
pub open spec fn t4_of(v: Vec4) -> (int, int, int, int) {
    (v.x as int, v.y as int, v.z as int, v.w as int)
}

/// The shape of a perspective-projection matrix: scale factors on the
/// diagonal, the depth terms in the third row, and a bottom row that
/// turns the view-space `z` into the homogeneous `w`.
pub open spec fn proj_shape(m: Matrix4x4) -> bool {
    &&& -0x8_0000 <= m.m00 <= 0x8_0000 && m.m01 == 0 && m.m02 == 0 && m.m03 == 0
    &&& m.m10 == 0 && -0x8_0000 <= m.m11 <= 0x8_0000 && m.m12 == 0 && m.m13 == 0
    &&& m.m20 == 0 && m.m21 == 0 && -0x8_0000 <= m.m22 <= 0x8_0000 && -0x2000_0000_0000
        <= m.m23 <= 0x2000_0000_0000
    &&& m.m30 == 0 && m.m31 == 0 && m.m32 == FX_ONE && m.m33 == 0
}

/// Applying a projection-shaped matrix to a point with bounded
/// coordinates and `w == 1`: the new `w` is the old `z`, and every
/// component stays well within `i64`.
pub proof fn lemma_proj_apply_bounds(m: Matrix4x4, p: (int, int, int, int), c: int)
    requires
        proj_shape(m),
        0 <= c <= 0x8_0000_0000,
        -c <= p.0 <= c,
        -c <= p.1 <= c,
        -c <= p.2 <= c,
        p.3 == FX_ONE,
    ensures
        -0x40_0000_0000 <= xf4(m, p).0 <= 0x40_0000_0000,
        -0x40_0000_0000 <= xf4(m, p).1 <= 0x40_0000_0000,
        -0x4000_0000_0000 <= xf4(m, p).2 <= 0x4000_0000_0000,
        xf4(m, p).3 == p.2,
{
    let s = FX_ONE as int;
    crate::fixed::lemma_mul_abs_bound(m.m00 as int, p.0, 0x8_0000, 0x8_0000_0000);
    crate::fixed::lemma_mul_abs_bound(m.m11 as int, p.1, 0x8_0000, 0x8_0000_0000);
    crate::fixed::lemma_mul_abs_bound(m.m22 as int, p.2, 0x8_0000, 0x8_0000_0000);
    assert(xf4(m, p).0 == div_t(m.m00 as int * p.0, s)) by {
        assert(m.m00 as int * p.0 + 0 * p.1 + 0 * p.2 + 0 * p.3 == m.m00 as int * p.0)
            by (nonlinear_arith);
    }
    crate::fixed::lemma_div_t_abs_bound(m.m00 as int * p.0, s, 0x8_0000int * 0x8_0000_0000int);
    assert(xf4(m, p).1 == div_t(m.m11 as int * p.1, s)) by {
        assert(0 * p.0 + m.m11 as int * p.1 + 0 * p.2 + 0 * p.3 == m.m11 as int * p.1)
            by (nonlinear_arith);
    }
    crate::fixed::lemma_div_t_abs_bound(m.m11 as int * p.1, s, 0x8_0000int * 0x8_0000_0000int);
    assert(xf4(m, p).2 == div_t(m.m22 as int * p.2 + m.m23 as int * s, s)) by {
        assert(0 * p.0 + 0 * p.1 + m.m22 as int * p.2 + m.m23 as int * p.3 == m.m22 as int * p.2
            + m.m23 as int * s) by (nonlinear_arith)
            requires
                p.3 == s,
        ;
    }
    crate::fixed::lemma_mul_abs_bound(m.m23 as int, s, 0x2000_0000_0000, s);
    crate::fixed::lemma_div_t_abs_bound(
        m.m22 as int * p.2 + m.m23 as int * s,
        s,
        0x8_0000int * 0x8_0000_0000int + 0x2000_0000_0000 * s,
    );
    assert(xf4(m, p).3 == div_t(s * p.2, s)) by {
        assert(0 * p.0 + 0 * p.1 + s * p.2 + 0 * p.3 == s * p.2) by (nonlinear_arith);
    }
    crate::fixed::lemma_div_t_scale_cancel(p.2, s);
}

/// The perspective divide of a projected point: its 3D coordinates, each
/// divided (in fixed point) by its homogeneous `w`. A `w` of zero leaves
/// the divide undefined, so it is reported instead of computed.
pub fn perspective_divide(v: &Vec4) -> (r: Result<Vec3, crate::errors::RenderError>)
    requires
        v.w != 0 ==> i64::MIN <= fx_div_v(v.x as int, v.w as int) <= i64::MAX,
        v.w != 0 ==> i64::MIN <= fx_div_v(v.y as int, v.w as int) <= i64::MAX,
        v.w != 0 ==> i64::MIN <= fx_div_v(v.z as int, v.w as int) <= i64::MAX,
    ensures
        v.w == 0 <==> (r == Err::<Vec3, crate::errors::RenderError>(
            crate::errors::RenderError::PerspectiveDivideByZero,
        )),
        v.w != 0 ==> (r matches Ok(p) && p.x as int == fx_div_v(v.x as int, v.w as int) && p.y
            as int == fx_div_v(v.y as int, v.w as int) && p.z as int == fx_div_v(
            v.z as int,
            v.w as int,
        )),
{
    if v.w == 0 {
        return Err(crate::errors::RenderError::PerspectiveDivideByZero);
    }
    Ok(
        Vec3 {
            x: crate::fixed::fx_div(v.x, v.w),
            y: crate::fixed::fx_div(v.y, v.w),
            z: crate::fixed::fx_div(v.z, v.w),
        },
    )
}

/// The shape of a world or view transform: a rotation-and-scale block
/// bounded by `rot`, a translation column bounded by `trans`, and the
/// homogeneous bottom row `(0, 0, 0, 1)`, which keeps `w` unchanged.
pub open spec fn affine_shape(m: Matrix4x4, rot: int, trans: int) -> bool {
    &&& -rot <= m.m00 <= rot && -rot <= m.m01 <= rot && -rot <= m.m02 <= rot
    &&& -rot <= m.m10 <= rot && -rot <= m.m11 <= rot && -rot <= m.m12 <= rot
    &&& -rot <= m.m20 <= rot && -rot <= m.m21 <= rot && -rot <= m.m22 <= rot
    &&& -trans <= m.m03 <= trans && -trans <= m.m13 <= trans && -trans <= m.m23 <= trans
    &&& m.m30 == 0 && m.m31 == 0 && m.m32 == 0 && m.m33 == FX_ONE
}

/// Applying an affine-shaped matrix to a point with `w == 1` keeps `w`
/// and bounds the coordinates by `(3 * rot * c + trans * FX_ONE) / FX_ONE`.
pub proof fn lemma_affine_apply_bounds(m: Matrix4x4, v: Vec4, rot: int, trans: int, c: int)
    requires
        affine_shape(m, rot, trans),
        0 <= rot,
        0 <= trans,
        0 <= c,
        -c <= v.x <= c,
        -c <= v.y <= c,
        -c <= v.z <= c,
        v.w == FX_ONE,
    ensures
        -((3 * (rot * c) + trans * (FX_ONE as int)) / (FX_ONE as int)) <= xform_x(m, v) <= (3 * (
        rot * c) + trans * (FX_ONE as int)) / (FX_ONE as int),
        -((3 * (rot * c) + trans * (FX_ONE as int)) / (FX_ONE as int)) <= xform_y(m, v) <= (3 * (
        rot * c) + trans * (FX_ONE as int)) / (FX_ONE as int),
        -((3 * (rot * c) + trans * (FX_ONE as int)) / (FX_ONE as int)) <= xform_z(m, v) <= (3 * (
        rot * c) + trans * (FX_ONE as int)) / (FX_ONE as int),
        xform_w(m, v) == v.w,
{
    let s = FX_ONE as int;
    let bound = 3 * (rot * c) + trans * s;
    lemma_affine_row_bound(m.m00 as int, m.m01 as int, m.m02 as int, m.m03 as int, v, rot, trans, c);
    lemma_affine_row_bound(m.m10 as int, m.m11 as int, m.m12 as int, m.m13 as int, v, rot, trans, c);
    lemma_affine_row_bound(m.m20 as int, m.m21 as int, m.m22 as int, m.m23 as int, v, rot, trans, c);
    assert(xform_w(m, v) == div_t(s * (v.w as int), s)) by {
        assert(0 * (v.x as int) + 0 * (v.y as int) + 0 * (v.z as int) + s * (v.w as int) == s * (
        v.w as int)) by (nonlinear_arith);
    }
    crate::fixed::lemma_div_t_scale_cancel(v.w as int, s);
}

/// One row of an affine-shaped matrix applied to a bounded point with
/// `w == 1` stays within `(3 * rot * c + trans * FX_ONE) / FX_ONE`.
proof fn lemma_affine_row_bound(a0: int, a1: int, a2: int, a3: int, v: Vec4, rot: int, trans: int, c: int)
    requires
        0 <= rot,
        0 <= trans,
        0 <= c,
        -rot <= a0 <= rot && -rot <= a1 <= rot && -rot <= a2 <= rot,
        -trans <= a3 <= trans,
        -c <= v.x <= c,
        -c <= v.y <= c,
        -c <= v.z <= c,
        v.w == FX_ONE,
    ensures
        -((3 * (rot * c) + trans * (FX_ONE as int)) / (FX_ONE as int)) <= rc_v(
            a0,
            a1,
            a2,
            a3,
            v.x as int,
            v.y as int,
            v.z as int,
            v.w as int,
        ) <= (3 * (rot * c) + trans * (FX_ONE as int)) / (FX_ONE as int),
{
    let s = FX_ONE as int;
    crate::fixed::lemma_mul_abs_bound(a0, v.x as int, rot, c);
    crate::fixed::lemma_mul_abs_bound(a1, v.y as int, rot, c);
    crate::fixed::lemma_mul_abs_bound(a2, v.z as int, rot, c);
    crate::fixed::lemma_mul_abs_bound(a3, v.w as int, trans, s);
    assert(0 <= rot * c) by (nonlinear_arith)
        requires
            0 <= rot,
            0 <= c,
    ;
    assert(0 <= trans * s) by (nonlinear_arith)
        requires
            0 <= trans,
            s == 65536,
    ;
    crate::fixed::lemma_div_t_abs_bound(
        a0 * (v.x as int) + a1 * (v.y as int) + a2 * (v.z as int) + a3 * (v.w as int),
        s,
        3 * (rot * c) + trans * s,
    );
}

/// Every entry of a product of `MAT_LIMIT`-bounded matrices fits in `i64`
/// (it is in fact bounded by `COORD_LIMIT`).
proof fn lemma_multiply_entries_fit(a: Matrix4x4, b: Matrix4x4)
    requires
        mat_bounded(a, MAT_LIMIT as int),
        mat_bounded(b, MAT_LIMIT as int),
    ensures
        forall|a0: int, a1: int, a2: int, a3: int, b0: int, b1: int, b2: int, b3: int|
            (-(MAT_LIMIT as int) <= a0 <= MAT_LIMIT as int && -(MAT_LIMIT as int) <= a1
                <= MAT_LIMIT as int && -(MAT_LIMIT as int) <= a2 <= MAT_LIMIT as int && -(MAT_LIMIT
                as int) <= a3 <= MAT_LIMIT as int && -(MAT_LIMIT as int) <= b0 <= MAT_LIMIT as int
                && -(MAT_LIMIT as int) <= b1 <= MAT_LIMIT as int && -(MAT_LIMIT as int) <= b2
                <= MAT_LIMIT as int && -(MAT_LIMIT as int) <= b3 <= MAT_LIMIT as int) ==> -0x4000_0000_0000_0000
                <= #[trigger] rc_v(a0, a1, a2, a3, b0, b1, b2, b3) <= 0x4000_0000_0000_0000,
{
    assert forall|a0: int, a1: int, a2: int, a3: int, b0: int, b1: int, b2: int, b3: int|
        (-(MAT_LIMIT as int) <= a0 <= MAT_LIMIT as int && -(MAT_LIMIT as int) <= a1 <= MAT_LIMIT
            as int && -(MAT_LIMIT as int) <= a2 <= MAT_LIMIT as int && -(MAT_LIMIT as int) <= a3
            <= MAT_LIMIT as int && -(MAT_LIMIT as int) <= b0 <= MAT_LIMIT as int && -(MAT_LIMIT
            as int) <= b1 <= MAT_LIMIT as int && -(MAT_LIMIT as int) <= b2 <= MAT_LIMIT as int && -(
        MAT_LIMIT as int) <= b3 <= MAT_LIMIT as int) implies -0x4000_0000_0000_0000 <= #[trigger] rc_v(
        a0,
        a1,
        a2,
        a3,
        b0,
        b1,
        b2,
        b3,
    ) <= 0x4000_0000_0000_0000 by {
        lemma_rc_v_bound(a0, a1, a2, a3, b0, b1, b2, b3, MAT_LIMIT as int, MAT_LIMIT as int);
        assert((4 * (MAT_LIMIT as int) * (MAT_LIMIT as int)) / (FX_ONE as int)
            <= 0x4000_0000_0000_0000);
    }
}

} // verus!
