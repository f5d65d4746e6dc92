//! Constructors for the standard transform matrices.
//!
//! All of them follow the crate's single convention: matrices act on
//! column vectors (`M * v`), so in a composition the right factor is
//! applied first. Angles enter as a fixed-point sine/cosine pair, which
//! the caller obtains from whatever trigonometric source it has; the
//! constructors themselves are exact.

use vstd::prelude::*;

use crate::errors::RenderError;
use crate::fixed::{fx_div_v, fx_mul_v, FX_ONE};
use crate::matrices::Matrix4x4;
use crate::vectors::{lemma_nonzero_mag_sq, t_cross, t_dot, t_norm, t_of, vec3_bounded, Vec3};

verus! {

/// Parameters of the fallible constructors must stay within this bound
/// (about 16384.0 in fixed point) so that every matrix entry fits.
pub const PARAM_LIMIT: i64 = 0x4000_0000;

/// Rotation about the X axis: `sin_t` and `cos_t` are the fixed-point
/// sine and cosine of the angle.
pub fn rotation_matrix_x(sin_t: i64, cos_t: i64) -> (r: Matrix4x4)
    requires
        -FX_ONE <= sin_t <= FX_ONE,
        -FX_ONE <= cos_t <= FX_ONE,
    ensures
        r.m00 == FX_ONE && r.m01 == 0 && r.m02 == 0 && r.m03 == 0,
        r.m10 == 0 && r.m11 == cos_t && r.m12 == -sin_t && r.m13 == 0,
        r.m20 == 0 && r.m21 == sin_t && r.m22 == cos_t && r.m23 == 0,
        r.m30 == 0 && r.m31 == 0 && r.m32 == 0 && r.m33 == FX_ONE,
{
    Matrix4x4 {
        m00: FX_ONE,
        m01: 0,
        m02: 0,
        m03: 0,
        m10: 0,
        m11: cos_t,
        m12: -sin_t,
        m13: 0,
        m20: 0,
        m21: sin_t,
        m22: cos_t,
        m23: 0,
        m30: 0,
        m31: 0,
        m32: 0,
        m33: FX_ONE,
    }
}

/// Rotation about the Y axis.
pub fn rotation_matrix_y(sin_t: i64, cos_t: i64) -> (r: Matrix4x4)
    requires
        -FX_ONE <= sin_t <= FX_ONE,
        -FX_ONE <= cos_t <= FX_ONE,
    ensures
        r.m00 == cos_t && r.m01 == 0 && r.m02 == sin_t && r.m03 == 0,
        r.m10 == 0 && r.m11 == FX_ONE && r.m12 == 0 && r.m13 == 0,
        r.m20 == -sin_t && r.m21 == 0 && r.m22 == cos_t && r.m23 == 0,
        r.m30 == 0 && r.m31 == 0 && r.m32 == 0 && r.m33 == FX_ONE,
{
    Matrix4x4 {
        m00: cos_t,
        m01: 0,
        m02: sin_t,
        m03: 0,
        m10: 0,
        m11: FX_ONE,
        m12: 0,
        m13: 0,
        m20: -sin_t,
        m21: 0,
        m22: cos_t,
        m23: 0,
        m30: 0,
        m31: 0,
        m32: 0,
        m33: FX_ONE,
    }
}

/// Rotation about the Z axis.
pub fn rotation_matrix_z(sin_t: i64, cos_t: i64) -> (r: Matrix4x4)
    requires
        -FX_ONE <= sin_t <= FX_ONE,
        -FX_ONE <= cos_t <= FX_ONE,
    ensures
        r.m00 == cos_t && r.m01 == -sin_t && r.m02 == 0 && r.m03 == 0,
        r.m10 == sin_t && r.m11 == cos_t && r.m12 == 0 && r.m13 == 0,
        r.m20 == 0 && r.m21 == 0 && r.m22 == FX_ONE && r.m23 == 0,
        r.m30 == 0 && r.m31 == 0 && r.m32 == 0 && r.m33 == FX_ONE,
{
    Matrix4x4 {
        m00: cos_t,
        m01: -sin_t,
        m02: 0,
        m03: 0,
        m10: sin_t,
        m11: cos_t,
        m12: 0,
        m13: 0,
        m20: 0,
        m21: 0,
        m22: FX_ONE,
        m23: 0,
        m30: 0,
        m31: 0,
        m32: 0,
        m33: FX_ONE,
    }
}

/// Translation by `(x, y, z)`: identity rotation block, offsets in the
/// last column.
pub fn translation_matrix(x: i64, y: i64, z: i64) -> (r: Matrix4x4)
    ensures
        r == (Matrix4x4 {
            m00: FX_ONE,
            m01: 0,
            m02: 0,
            m03: x,
            m10: 0,
            m11: FX_ONE,
            m12: 0,
            m13: y,
            m20: 0,
            m21: 0,
            m22: FX_ONE,
            m23: z,
            m30: 0,
            m31: 0,
            m32: 0,
            m33: FX_ONE,
        }),
{
    Matrix4x4 {
        m00: FX_ONE,
        m01: 0,
        m02: 0,
        m03: x,
        m10: 0,
        m11: FX_ONE,
        m12: 0,
        m13: y,
        m20: 0,
        m21: 0,
        m22: FX_ONE,
        m23: z,
        m30: 0,
        m31: 0,
        m32: 0,
        m33: FX_ONE,
    }
}

/// The camera-space basis: `z` along the view direction, `x` across it,
/// `y` completing the frame, each normalized.
pub open spec fn view_z_axis(dir: Vec3) -> (int, int, int) {
    t_norm(t_of(dir))
}

pub open spec fn view_x_axis(dir: Vec3, up: Vec3) -> (int, int, int) {
    t_norm(t_cross(t_of(up), view_z_axis(dir)))
}

pub open spec fn view_y_axis(dir: Vec3, up: Vec3) -> (int, int, int) {
    t_norm(t_cross(view_z_axis(dir), view_x_axis(dir, up)))
}

/// A view frame degenerates when the view direction is zero or when `up`
/// is parallel (after rounding) to it: no basis can be built.
pub open spec fn view_degenerate(dir: Vec3, up: Vec3) -> bool {
    ||| t_of(dir) == (0int, 0int, 0int)
    ||| t_cross(t_of(up), view_z_axis(dir)) == (0int, 0int, 0int)
    ||| t_cross(view_z_axis(dir), view_x_axis(dir, up)) == (0int, 0int, 0int)
}

/// The view (camera) matrix for a camera position, view direction and up
/// vector: its rows are the camera-space basis and its last column moves
/// the camera to the origin.
pub fn view_matrix(camera: &Vec3, view_direction: &Vec3, up: &Vec3) -> (r: Result<
    Matrix4x4,
    RenderError,
>)
    requires
        vec3_bounded(*camera, PARAM_LIMIT as int),
        vec3_bounded(*view_direction, PARAM_LIMIT as int),
        vec3_bounded(*up, PARAM_LIMIT as int),
    ensures
        view_degenerate(*view_direction, *up) <==> (r == Err::<Matrix4x4, RenderError>(
            RenderError::DegenerateGeometry,
        )),
        !view_degenerate(*view_direction, *up) ==> (r matches Ok(m) && {
            let xa = view_x_axis(*view_direction, *up);
            let ya = view_y_axis(*view_direction, *up);
            let za = view_z_axis(*view_direction);
            let nc = (-(camera.x as int), -(camera.y as int), -(camera.z as int));
            &&& m.m00 as int == xa.0 && m.m01 as int == xa.1 && m.m02 as int == xa.2
            &&& m.m03 as int == t_dot(xa, nc)
            &&& m.m10 as int == ya.0 && m.m11 as int == ya.1 && m.m12 as int == ya.2
            &&& m.m13 as int == t_dot(ya, nc)
            &&& m.m20 as int == za.0 && m.m21 as int == za.1 && m.m22 as int == za.2
            &&& m.m23 as int == t_dot(za, nc)
            &&& m.m30 == 0 && m.m31 == 0 && m.m32 == 0 && m.m33 == FX_ONE
        }),
{
    if view_direction.x == 0 && view_direction.y == 0 && view_direction.z == 0 {
        return Err(RenderError::DegenerateGeometry);
    }
    proof {
        lemma_nonzero_mag_sq(*view_direction);
    }
    let mut z = *view_direction;
    z.normalize();
    proof {
        assert(t_of(z) == view_z_axis(*view_direction));
        crate::vectors::lemma_cross_bound(*up, z, PARAM_LIMIT as int, 131072);
    }
    let xc = up.cross(&z);
    proof {
        assert(t_of(xc) == t_cross(t_of(*up), view_z_axis(*view_direction)));
    }
    if xc.x == 0 && xc.y == 0 && xc.z == 0 {
        return Err(RenderError::DegenerateGeometry);
    }
    proof {
        lemma_nonzero_mag_sq(xc);
    }
    let mut x = xc;
    x.normalize();
    proof {
        assert(t_of(x) == view_x_axis(*view_direction, *up));
        crate::vectors::lemma_cross_bound(z, x, 131072, 131072);
    }
    let yc = z.cross(&x);
    proof {
        assert(t_of(yc) == t_cross(view_z_axis(*view_direction), view_x_axis(*view_direction, *up)));
    }
    if yc.x == 0 && yc.y == 0 && yc.z == 0 {
        return Err(RenderError::DegenerateGeometry);
    }
    proof {
        lemma_nonzero_mag_sq(yc);
    }
    let mut y = yc;
    y.normalize();
    proof {
        assert(t_of(y) == view_y_axis(*view_direction, *up));
    }
    let neg_cam = Vec3 { x: -camera.x, y: -camera.y, z: -camera.z };
    proof {
        crate::vectors::lemma_dot_bound(x, neg_cam, 131072, PARAM_LIMIT as int);
        crate::vectors::lemma_dot_bound(y, neg_cam, 131072, PARAM_LIMIT as int);
        crate::vectors::lemma_dot_bound(z, neg_cam, 131072, PARAM_LIMIT as int);
    }
    let d0: i64 = x.dot(&neg_cam);
    let d1: i64 = y.dot(&neg_cam);
    let d2: i64 = z.dot(&neg_cam);
    Ok(
        Matrix4x4 {
            m00: x.x,
            m01: x.y,
            m02: x.z,
            m03: d0,
            m10: y.x,
            m11: y.y,
            m12: y.z,
            m13: d1,
            m20: z.x,
            m21: z.y,
            m22: z.z,
            m23: d2,
            m30: 0,
            m31: 0,
            m32: 0,
            m33: FX_ONE,
        },
    )
}

/// Projection parameters are rejected when the field-of-view scale
/// (`1 / tan(fov / 2)`, fixed point) or the aspect ratio is not positive,
/// when the near plane is negative, or when the far plane does not lie
/// beyond the near plane: each of those leaves a zero denominator or an
/// empty view volume.
pub open spec fn projection_params_bad(fov_scale: int, aspect_ratio: int, near: int, far: int) -> bool {
    fov_scale <= 0 || aspect_ratio <= 0 || near < 0 || far <= near
}

/// Perspective projection with the given field-of-view scale, aspect
/// ratio and near/far planes. After application, a point's view-space `z`
/// becomes its homogeneous `w`, which enables the perspective divide.
pub fn projection_matrix(fov_scale: i64, aspect_ratio: i64, near: i64, far: i64) -> (r: Result<
    Matrix4x4,
    RenderError,
>)
    requires
        -PARAM_LIMIT <= fov_scale <= PARAM_LIMIT,
        -PARAM_LIMIT <= aspect_ratio <= PARAM_LIMIT,
        -PARAM_LIMIT <= near <= PARAM_LIMIT,
        -PARAM_LIMIT <= far <= PARAM_LIMIT,
    ensures
        projection_params_bad(fov_scale as int, aspect_ratio as int, near as int, far as int)
            <==> (r == Err::<Matrix4x4, RenderError>(RenderError::InvalidProjectionParameters)),
        !projection_params_bad(fov_scale as int, aspect_ratio as int, near as int, far as int)
            ==> (r matches Ok(m) && m.m00 as int == fx_div_v(fov_scale as int, aspect_ratio as int)
            && m.m01 == 0 && m.m02 == 0 && m.m03 == 0 && m.m10 == 0 && m.m11 == fov_scale
            && m.m12 == 0 && m.m13 == 0 && m.m20 == 0 && m.m21 == 0 && m.m22 as int == fx_div_v(
            far as int,
            far - near,
        ) && m.m23 as int == fx_div_v(-fx_mul_v(far as int, near as int), far - near) && m.m30 == 0
            && m.m31 == 0 && m.m32 == FX_ONE && m.m33 == 0),
{
    if fov_scale <= 0 || aspect_ratio <= 0 || near < 0 || far <= near {
        return Err(RenderError::InvalidProjectionParameters);
    }
    proof {
        let pl = PARAM_LIMIT as int;
        let s = FX_ONE as int;
        crate::fixed::lemma_div_t_abs_bound(fov_scale * s, aspect_ratio as int, pl * s);
        vstd::arithmetic::div_mod::lemma_div_nonincreasing(pl * s, aspect_ratio as int);
        crate::fixed::lemma_div_t_abs_bound(far * s, far - near, pl * s);
        vstd::arithmetic::div_mod::lemma_div_nonincreasing(pl * s, far - near);
        crate::fixed::lemma_mul_abs_bound(far as int, near as int, pl, pl);
        crate::fixed::lemma_div_t_abs_bound(far * near, s, pl * pl);
        assert((pl * pl) / s * s <= pl * pl) by (nonlinear_arith)
            requires
                pl == 0x4000_0000,
                s == 65536,
        ;
        crate::fixed::lemma_mul_abs_bound(fx_mul_v(far as int, near as int), s, (pl * pl) / s, s);
        crate::fixed::lemma_div_t_abs_bound(
            -fx_mul_v(far as int, near as int) * s,
            far - near,
            ((pl * pl) / s) * s,
        );
        vstd::arithmetic::div_mod::lemma_div_nonincreasing(((pl * pl) / s) * s, far - near);
    }
    let m00: i64 = crate::fixed::fx_div(fov_scale, aspect_ratio);
    let m22: i64 = crate::fixed::fx_div(far, far - near);
    let fn_prod: i64 = crate::fixed::fx_mul(far, near);
    let m23: i64 = crate::fixed::fx_div(-fn_prod, far - near);
    Ok(
        Matrix4x4 {
            m00,
            m01: 0,
            m02: 0,
            m03: 0,
            m10: 0,
            m11: fov_scale,
            m12: 0,
            m13: 0,
            m20: 0,
            m21: 0,
            m22,
            m23,
            m30: 0,
            m31: 0,
            m32: FX_ONE,
            m33: 0,
        },
    )
}

} // verus!
