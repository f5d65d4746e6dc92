//! Global laws of the geometry core, proved once and for all.

use vstd::prelude::*;

use crate::matrices::Matrix4x4;
use crate::polygons::{tri_edge1, tri_edge2, Tri};

verus! {

/// The exact (unrounded) cross product of two integer triples.
pub open spec fn cross_e(a: (int, int, int), b: (int, int, int)) -> (int, int, int) {
    (a.1 * b.2 - a.2 * b.1, a.2 * b.0 - a.0 * b.2, a.0 * b.1 - a.1 * b.0)
}

/// The exact application of the matrix's linear 3x3 block to a triple.
pub open spec fn mat3_apply(m: Matrix4x4, v: (int, int, int)) -> (int, int, int) {
    (
        m.m00 * v.0 + m.m01 * v.1 + m.m02 * v.2,
        m.m10 * v.0 + m.m11 * v.1 + m.m12 * v.2,
        m.m20 * v.0 + m.m21 * v.1 + m.m22 * v.2,
    )
}

/// A triple scaled by `s`.
pub open spec fn scale_e(s: int, v: (int, int, int)) -> (int, int, int) {
    (s * v.0, s * v.1, s * v.2)
}

/// The linear block of `m` is a rotation scaled by `s`: its columns form
/// a right-handed frame in which each column is `s` times the cross
/// product of the other two (for the fixed-point rotation constructors
/// with an exact sine/cosine pair, `s` is `FX_ONE`).
pub open spec fn is_scaled_rotation(m: Matrix4x4, s: int) -> bool {
    let c1 = (m.m00 as int, m.m10 as int, m.m20 as int);
    let c2 = (m.m01 as int, m.m11 as int, m.m21 as int);
    let c3 = (m.m02 as int, m.m12 as int, m.m22 as int);
    &&& s >= 0
    &&& cross_e(c1, c2) == scale_e(s, c3)
    &&& cross_e(c2, c3) == scale_e(s, c1)
    &&& cross_e(c3, c1) == scale_e(s, c2)
}

/// The bilinear expansion of one component of a cross product of two
/// matrix images: the diagonal terms cancel and the six mixed terms
/// group by the column-pair minors.
proof fn lemma_cross_component_expansion(
    p0: int,
    p1: int,
    p2: int,
    q0: int,
    q1: int,
    q2: int,
    a0: int,
    a1: int,
    a2: int,
    b0: int,
    b1: int,
    b2: int,
)
    ensures
        (p0 * a0 + p1 * a1 + p2 * a2) * (q0 * b0 + q1 * b1 + q2 * b2) - (q0 * a0 + q1 * a1 + q2
            * a2) * (p0 * b0 + p1 * b1 + p2 * b2) == (a1 * b2 - a2 * b1) * (p1 * q2 - q1 * p2) + (a2
            * b0 - a0 * b2) * (p2 * q0 - q2 * p0) + (a0 * b1 - a1 * b0) * (p0 * q1 - q0 * p1),
{
    broadcast use vstd::arithmetic::mul::group_mul_properties;

}

/// Regrouping the substituted minors back into the rotated cross
/// product.
proof fn lemma_cross_component_regroup(
    e0: int,
    e1: int,
    e2: int,
    s: int,
    r0: int,
    r1: int,
    r2: int,
)
    ensures
        e0 * (s * r0) + e1 * (s * r1) + e2 * (s * r2) == s * (r0 * e0 + r1 * e1 + r2 * e2),
{
    broadcast use vstd::arithmetic::mul::group_mul_properties;

}

/// Rotating two vectors and crossing them gives the rotated cross
/// product, scaled by the rotation's own scale factor: taking the normal
/// commutes with rotation. The executable cross product is this exact
/// one scaled down by `FX_ONE` with truncation, and normalization
/// removes any positive length factor, so the law is stated here over
/// the exact values the contracts name.
pub proof fn lemma_cross_commutes_with_rotation(
    m: Matrix4x4,
    s: int,
    a: (int, int, int),
    b: (int, int, int),
)
    requires
        is_scaled_rotation(m, s),
    ensures
        cross_e(mat3_apply(m, a), mat3_apply(m, b)) == scale_e(s, mat3_apply(m, cross_e(a, b))),
{
    let m00 = m.m00 as int;
    let m01 = m.m01 as int;
    let m02 = m.m02 as int;
    let m10 = m.m10 as int;
    let m11 = m.m11 as int;
    let m12 = m.m12 as int;
    let m20 = m.m20 as int;
    let m21 = m.m21 as int;
    let m22 = m.m22 as int;
    let e0 = a.1 * b.2 - a.2 * b.1;
    let e1 = a.2 * b.0 - a.0 * b.2;
    let e2 = a.0 * b.1 - a.1 * b.0;
    // Component 0: rows 1 and 2 of the two images.
    lemma_cross_component_expansion(m10, m11, m12, m20, m21, m22, a.0, a.1, a.2, b.0, b.1, b.2);
    assert(m11 * m22 - m21 * m12 == s * m00 && m12 * m20 - m22 * m10 == s * m01 && m10 * m21 - m20
        * m11 == s * m02);
    lemma_cross_component_regroup(e0, e1, e2, s, m00, m01, m02);
    // Component 1: rows 2 and 0.
    lemma_cross_component_expansion(m20, m21, m22, m00, m01, m02, a.0, a.1, a.2, b.0, b.1, b.2);
    assert(m21 * m02 - m01 * m22 == s * m10 && m22 * m00 - m02 * m20 == s * m11 && m20 * m01 - m00
        * m21 == s * m12);
    lemma_cross_component_regroup(e0, e1, e2, s, m10, m11, m12);
    // Component 2: rows 0 and 1.
    lemma_cross_component_expansion(m00, m01, m02, m10, m11, m12, a.0, a.1, a.2, b.0, b.1, b.2);
    assert(m01 * m12 - m11 * m02 == s * m20 && m02 * m10 - m12 * m00 == s * m21 && m00 * m11 - m10
        * m01 == s * m22);
    lemma_cross_component_regroup(e0, e1, e2, s, m20, m21, m22);
}

/// The triangle form of the law: the (unnormalized, exact) normal of a
/// rotated triangle is the rotated normal, scaled by the rotation's
/// scale. A rotation applied to all three vertices maps each edge
/// through the linear block alone, so the edge cross products relate the
/// same way.
pub proof fn lemma_triangle_normal_commutes(t: Tri, m: Matrix4x4, s: int)
    requires
        is_scaled_rotation(m, s),
    ensures
        cross_e(mat3_apply(m, tri_edge1(t)), mat3_apply(m, tri_edge2(t))) == scale_e(
            s,
            mat3_apply(m, cross_e(tri_edge1(t), tri_edge2(t))),
        ),
{
    lemma_cross_commutes_with_rotation(m, s, tri_edge1(t), tri_edge2(t));
}

} // verus!
