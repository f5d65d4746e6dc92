//! The per-frame render pipeline.
//!
//! For every source triangle: world transform, view transform, normal
//! and backface cull, flat shading, perspective projection, perspective
//! divide, viewport transform; the kept triangles are then depth-sorted
//! for the painter's algorithm. Each step is stated exactly, so
//! [`process_v`] pins down precisely which triangles survive and with
//! which coordinates and color.

use vstd::prelude::*;

use crate::fixed::{div_t, fx_div_v, FX_ONE};
use crate::matrices::{affine_shape, lemma_affine_apply_bounds, lemma_proj_apply_bounds, proj_shape, t4_of, xf4, Matrix4x4};
use crate::polygons::{sorted_back_to_front, tri_xyz_bounded, Color, Mesh, Tri};
use crate::vectors::{lemma_nonzero_mag_sq, t_cross, t_norm, vec3_bounded, Vec3, Vec4};

verus! {

/// Mesh coordinates entering the pipeline must stay within this bound
/// (1024.0 in fixed point), so that every stage fits in an `i64`.
pub const MESH_LIMIT: i64 = 0x400_0000;

/// Camera positions and translation parts of the world and view
/// matrices must stay within this bound (16384.0 in fixed point).
pub const CAM_LIMIT: i64 = 0x4000_0000;

/// A point whose coordinates leave this bound after the perspective
/// divide (32.0 in normalized device coordinates) is treated as clipped
/// out, and its triangle is dropped rather than rasterized.
pub const NDC_LIMIT: i64 = 0x20_0000;

/// A triangle the pipeline accepts: bounded object-space coordinates,
/// with the homogeneous coordinate still 1.
pub open spec fn mesh_tri_ok(t: Tri) -> bool {
    &&& tri_xyz_bounded(t, MESH_LIMIT as int)
    &&& t.p0.w == FX_ONE
    &&& t.p1.w == FX_ONE
    &&& t.p2.w == FX_ONE
}

/// The flat-shading channel value for a unit normal and light direction:
/// their fixed-point dot product, shifted from `[-1, 1]` to `[0, 2]`,
/// clamped there, and mapped onto `[0, 254]` by `* 127` (truncated).
pub open spec fn shade_of(n: (int, int, int), light: Vec3) -> int {
    let d = div_t(n.0 * light.x + n.1 * light.y + n.2 * light.z, 65536);
    let lifted = d + 65536;
    let inten = if lifted < 0 {
        0
    } else if lifted > 131072 {
        131072
    } else {
        lifted
    };
    div_t(inten * 127, 65536)
}

/// Both screen axes of a perspective-divided point lie within the
/// clipping guard.
pub open spec fn in_ndc(d: (int, int, int)) -> bool {
    -NDC_LIMIT <= d.0 <= NDC_LIMIT && -NDC_LIMIT <= d.1 <= NDC_LIMIT
}

/// The viewport transform: shift the divided `x` and `y` from `[-1, 1]`
/// to `[0, 2]`, scale by half the viewport size, and reset `w` to 1. The
/// third component carries the point's view-space (pre-divide) `z`
/// unchanged: that is the depth the painter's sort must key on, since
/// the perspective divide does not keep distinct depths distinct.
pub open spec fn screen_vertex(d: (int, int, int), w: int, h: int) -> Vec4 {
    Vec4 {
        x: div_t((d.0 + 65536) * w, 2) as i64,
        y: div_t((d.1 + 65536) * h, 2) as i64,
        z: d.2 as i64,
        w: FX_ONE,
    }
}

/// What the pipeline makes of one source triangle: `None` when it is
/// dropped (degenerate, facing away, behind the camera, or clipped out),
/// otherwise the screen-space triangle with its flat-shaded gray color.
pub open spec fn process_v(
    t: Tri,
    world: Matrix4x4,
    view: Matrix4x4,
    proj: Matrix4x4,
    camera: Vec3,
    light: Vec3,
    w: int,
    h: int,
) -> Option<Tri> {
    let a0 = xf4(world, t4_of(t.p0));
    let a1 = xf4(world, t4_of(t.p1));
    let a2 = xf4(world, t4_of(t.p2));
    let v0 = xf4(view, a0);
    let v1 = xf4(view, a1);
    let v2 = xf4(view, a2);
    let e1 = (v1.0 - v0.0, v1.1 - v0.1, v1.2 - v0.2);
    let e2 = (v2.0 - v0.0, v2.1 - v0.1, v2.2 - v0.2);
    let c = t_cross(e1, e2);
    if c == (0int, 0int, 0int) {
        None
    } else {
        let n = t_norm(c);
        let dc = n.0 * (v0.0 - camera.x) + n.1 * (v0.1 - camera.y) + n.2 * (v0.2 - camera.z);
        if dc < 0 {
            let sh = shade_of(n, light);
            let p0 = xf4(proj, v0);
            let p1 = xf4(proj, v1);
            let p2 = xf4(proj, v2);
            if p0.3 <= 0 || p1.3 <= 0 || p2.3 <= 0 {
                None
            } else {
                let d0 = (fx_div_v(p0.0, p0.3), fx_div_v(p0.1, p0.3), v0.2);
                let d1 = (fx_div_v(p1.0, p1.3), fx_div_v(p1.1, p1.3), v1.2);
                let d2 = (fx_div_v(p2.0, p2.3), fx_div_v(p2.1, p2.3), v2.2);
                if in_ndc(d0) && in_ndc(d1) && in_ndc(d2) {
                    Some(
                        Tri {
                            p0: screen_vertex(d0, w, h),
                            p1: screen_vertex(d1, w, h),
                            p2: screen_vertex(d2, w, h),
                            c: Some(
                                Color { r: sh as u8, g: sh as u8, b: sh as u8 },
                            ),
                        },
                    )
                } else {
                    None
                }
            }
        } else {
            None
        }
    }
}

/// The pipeline applied to a whole triangle list, in order, keeping only
/// the surviving triangles.
pub open spec fn processed_seq(
    s: Seq<Tri>,
    world: Matrix4x4,
    view: Matrix4x4,
    proj: Matrix4x4,
    camera: Vec3,
    light: Vec3,
    w: int,
    h: int,
) -> Seq<Tri>
    decreases s.len(),
{
    if s.len() == 0 {
        Seq::empty()
    } else {
        let rest = processed_seq(s.drop_last(), world, view, proj, camera, light, w, h);
        match process_v(s.last(), world, view, proj, camera, light, w, h) {
            Some(t) => rest.push(t),
            None => rest,
        }
    }
}

/// Every triangle the pipeline keeps carries a color: the shading stage
/// assigns one before anything can reach the rasterizer.
pub proof fn lemma_processed_all_colored(
    s: Seq<Tri>,
    world: Matrix4x4,
    view: Matrix4x4,
    proj: Matrix4x4,
    camera: Vec3,
    light: Vec3,
    w: int,
    h: int,
)
    ensures
        forall|k: int|
            0 <= k < processed_seq(s, world, view, proj, camera, light, w, h).len()
                ==> (#[trigger] processed_seq(s, world, view, proj, camera, light, w, h)[k]).c
                is Some,
    decreases s.len(),
{
    if s.len() > 0 {
        lemma_processed_all_colored(s.drop_last(), world, view, proj, camera, light, w, h);
    }
}

/// Runs one source triangle through the whole per-triangle pipeline.
#[verifier::rlimit(100)]
pub fn process_triangle(
    t: &Tri,
    world: &Matrix4x4,
    view: &Matrix4x4,
    proj: &Matrix4x4,
    camera: &Vec3,
    light: &Vec3,
    width: u32,
    height: u32,
) -> (r: Option<Tri>)
    requires
        mesh_tri_ok(*t),
        affine_shape(*world, 0x4_0000, 0x4000_0000),
        affine_shape(*view, 0x4_0000, 0x4000_0000),
        proj_shape(*proj),
        vec3_bounded(*camera, CAM_LIMIT as int),
        vec3_bounded(*light, 131072),
        0 < width <= 16384,
        0 < height <= 16384,
    ensures
        r == process_v(*t, *world, *view, *proj, *camera, *light, width as int, height as int),
{
    proof {
        lemma_affine_apply_bounds(*world, t.p0, 0x4_0000, 0x4000_0000, 0x400_0000);
        lemma_affine_apply_bounds(*world, t.p1, 0x4_0000, 0x4000_0000, 0x400_0000);
        lemma_affine_apply_bounds(*world, t.p2, 0x4_0000, 0x4000_0000, 0x400_0000);
    }
    let tw = t.transform(world);
    proof {
        lemma_affine_apply_bounds(*view, tw.p0, 0x4_0000, 0x4000_0000, 0x8000_0000);
        lemma_affine_apply_bounds(*view, tw.p1, 0x4_0000, 0x4000_0000, 0x8000_0000);
        lemma_affine_apply_bounds(*view, tw.p2, 0x4_0000, 0x4000_0000, 0x8000_0000);
    }
    let tv = tw.transform(view);
    let e1 = Vec3 { x: tv.p1.x - tv.p0.x, y: tv.p1.y - tv.p0.y, z: tv.p1.z - tv.p0.z };
    let e2 = Vec3 { x: tv.p2.x - tv.p0.x, y: tv.p2.y - tv.p0.y, z: tv.p2.z - tv.p0.z };
    proof {
        crate::vectors::lemma_cross_bound(e1, e2, 0x10_0000_0000, 0x10_0000_0000);
    }
    let cr = e1.cross(&e2);
    if cr.x == 0 && cr.y == 0 && cr.z == 0 {
        return None;
    }
    proof {
        lemma_nonzero_mag_sq(cr);
    }
    let mut n = cr;
    n.normalize();
    let tcx: i64 = tv.p0.x - camera.x;
    let tcy: i64 = tv.p0.y - camera.y;
    let tcz: i64 = tv.p0.z - camera.z;
    proof {
        crate::fixed::lemma_mul_abs_bound(n.x as int, tcx as int, 131072, 0x10_0000_0000);
        crate::fixed::lemma_mul_abs_bound(n.y as int, tcy as int, 131072, 0x10_0000_0000);
        crate::fixed::lemma_mul_abs_bound(n.z as int, tcz as int, 131072, 0x10_0000_0000);
        crate::fixed::lemma_mul_abs_bound(n.x as int, light.x as int, 131072, 131072);
        crate::fixed::lemma_mul_abs_bound(n.y as int, light.y as int, 131072, 131072);
        crate::fixed::lemma_mul_abs_bound(n.z as int, light.z as int, 131072, 131072);
    }
    let dotc: i128 = (n.x as i128) * (tcx as i128) + (n.y as i128) * (tcy as i128) + (n.z as i128)
        * (tcz as i128);
    if !(dotc < 0) {
        return None;
    }
    let dl: i128 = (n.x as i128) * (light.x as i128) + (n.y as i128) * (light.y as i128) + (n.z
        as i128) * (light.z as i128);
    let dfx: i64 = (dl / 65536) as i64;
    let lifted: i64 = dfx + 65536;
    let inten: i64 = if lifted < 0 {
        0
    } else if lifted > 131072 {
        131072
    } else {
        lifted
    };
    proof {
        vstd::arithmetic::div_mod::lemma_div_pos_is_pos(inten * 127, 65536);
        crate::fixed::lemma_div_t_abs_bound(inten * 127, 65536, 131072int * 127);
    }
    let sh64: i64 = (inten * 127) / 65536;
    let sh: u8 = sh64 as u8;
    proof {
        lemma_proj_apply_bounds(*proj, t4_of(tv.p0), 0x8_0000_0000);
        lemma_proj_apply_bounds(*proj, t4_of(tv.p1), 0x8_0000_0000);
        lemma_proj_apply_bounds(*proj, t4_of(tv.p2), 0x8_0000_0000);
    }
    let tp = tv.transform(proj);
    if tp.p0.w <= 0 || tp.p1.w <= 0 || tp.p2.w <= 0 {
        return None;
    }
    proof {
        lemma_ndc_divide_fits(t4_of(tp.p0));
        lemma_ndc_divide_fits(t4_of(tp.p1));
        lemma_ndc_divide_fits(t4_of(tp.p2));
    }
    let d0x: i64 = crate::fixed::fx_div(tp.p0.x, tp.p0.w);
    let d0y: i64 = crate::fixed::fx_div(tp.p0.y, tp.p0.w);
    let d1x: i64 = crate::fixed::fx_div(tp.p1.x, tp.p1.w);
    let d1y: i64 = crate::fixed::fx_div(tp.p1.y, tp.p1.w);
    let d2x: i64 = crate::fixed::fx_div(tp.p2.x, tp.p2.w);
    let d2y: i64 = crate::fixed::fx_div(tp.p2.y, tp.p2.w);
    let d0z: i64 = tv.p0.z;
    let d1z: i64 = tv.p1.z;
    let d2z: i64 = tv.p2.z;
    if d0x < -NDC_LIMIT || d0x > NDC_LIMIT || d0y < -NDC_LIMIT || d0y > NDC_LIMIT || d1x
        < -NDC_LIMIT || d1x > NDC_LIMIT || d1y < -NDC_LIMIT || d1y > NDC_LIMIT || d2x < -NDC_LIMIT
        || d2x > NDC_LIMIT || d2y < -NDC_LIMIT || d2y > NDC_LIMIT {
        return None;
    }
    let wl: i64 = width as i64;
    let hl: i64 = height as i64;
    proof {
        crate::fixed::lemma_mul_abs_bound(d0x + 65536, wl as int, 0x21_0000, 16384);
        crate::fixed::lemma_mul_abs_bound(d0y + 65536, hl as int, 0x21_0000, 16384);
        crate::fixed::lemma_mul_abs_bound(d1x + 65536, wl as int, 0x21_0000, 16384);
        crate::fixed::lemma_mul_abs_bound(d1y + 65536, hl as int, 0x21_0000, 16384);
        crate::fixed::lemma_mul_abs_bound(d2x + 65536, wl as int, 0x21_0000, 16384);
        crate::fixed::lemma_mul_abs_bound(d2y + 65536, hl as int, 0x21_0000, 16384);
    }
    let out = Tri {
        p0: Vec4 { x: (d0x + 65536) * wl / 2, y: (d0y + 65536) * hl / 2, z: d0z, w: FX_ONE },
        p1: Vec4 { x: (d1x + 65536) * wl / 2, y: (d1y + 65536) * hl / 2, z: d1z, w: FX_ONE },
        p2: Vec4 { x: (d2x + 65536) * wl / 2, y: (d2y + 65536) * hl / 2, z: d2z, w: FX_ONE },
        c: Some(Color { r: sh, g: sh, b: sh }),
    };
    Some(out)
}

/// After a projection-shaped transform, the perspective divide of the
/// two screen axes fits in an `i64` whenever `w` is positive.
proof fn lemma_ndc_divide_fits(p: (int, int, int, int))
    requires
        p.3 >= 1,
        -0x40_0000_0000 <= p.0 <= 0x40_0000_0000,
        -0x40_0000_0000 <= p.1 <= 0x40_0000_0000,
    ensures
        -0x40_0000_0000_0000_0000 <= fx_div_v(p.0, p.3) <= 0x40_0000_0000_0000_0000,
        -0x40_0000_0000_0000_0000 <= fx_div_v(p.1, p.3) <= 0x40_0000_0000_0000_0000,
{
    crate::fixed::lemma_div_t_abs_bound(p.0 * 65536, p.3, 0x40_0000_0000int * 65536);
    vstd::arithmetic::div_mod::lemma_div_nonincreasing(0x40_0000_0000int * 65536, p.3);
    crate::fixed::lemma_div_t_abs_bound(p.1 * 65536, p.3, 0x40_0000_0000int * 65536);
}

/// Renders one frame: every source triangle through the pipeline, then
/// the survivors depth-sorted back to front, ready for the rasterizer.
/// The source mesh is only read.
pub fn render_frame(
    mesh: &Mesh,
    world: &Matrix4x4,
    view: &Matrix4x4,
    proj: &Matrix4x4,
    camera: &Vec3,
    light: &Vec3,
    width: u32,
    height: u32,
) -> (out: Mesh)
    requires
        forall|k: int| 0 <= k < mesh.tris@.len() ==> mesh_tri_ok(#[trigger] mesh.tris@[k]),
        affine_shape(*world, 0x4_0000, 0x4000_0000),
        affine_shape(*view, 0x4_0000, 0x4000_0000),
        proj_shape(*proj),
        vec3_bounded(*camera, CAM_LIMIT as int),
        vec3_bounded(*light, 131072),
        0 < width <= 16384,
        0 < height <= 16384,
    ensures
        sorted_back_to_front(out.tris@),
        out.tris@.to_multiset() == processed_seq(
            mesh.tris@,
            *world,
            *view,
            *proj,
            *camera,
            *light,
            width as int,
            height as int,
        ).to_multiset(),
        forall|k: int| 0 <= k < out.tris@.len() ==> (#[trigger] out.tris@[k]).c is Some,
{
    broadcast use vstd::seq_lib::group_to_multiset_ensures;

    let mut raster: Vec<Tri> = Vec::new();
    let mut i: usize = 0;
    while i < mesh.tris.len()
        invariant
            0 <= i <= mesh.tris@.len(),
            forall|k: int| 0 <= k < mesh.tris@.len() ==> mesh_tri_ok(#[trigger] mesh.tris@[k]),
            affine_shape(*world, 0x4_0000, 0x4000_0000),
            affine_shape(*view, 0x4_0000, 0x4000_0000),
            proj_shape(*proj),
            vec3_bounded(*camera, CAM_LIMIT as int),
            vec3_bounded(*light, 131072),
            0 < width <= 16384,
            0 < height <= 16384,
            raster@ == processed_seq(
                mesh.tris@.subrange(0, i as int),
                *world,
                *view,
                *proj,
                *camera,
                *light,
                width as int,
                height as int,
            ),
        decreases mesh.tris@.len() - i,
    {
        let ghost prefix = mesh.tris@.subrange(0, i as int);
        match process_triangle(&mesh.tris[i], world, view, proj, camera, light, width, height) {
            Some(t) => raster.push(t),
            None => (),
        }
        proof {
            assert(mesh.tris@.subrange(0, i + 1).drop_last() =~= prefix);
            assert(mesh.tris@.subrange(0, i + 1).last() == mesh.tris@[i as int]);
        }
        i += 1;
    }
    proof {
        assert(mesh.tris@.subrange(0, mesh.tris@.len() as int) =~= mesh.tris@);
    }
    let mut out = Mesh::new(raster);
    out.sort();
    proof {
        let ghost processed = processed_seq(
            mesh.tris@,
            *world,
            *view,
            *proj,
            *camera,
            *light,
            width as int,
            height as int,
        );
        lemma_processed_all_colored(
            mesh.tris@,
            *world,
            *view,
            *proj,
            *camera,
            *light,
            width as int,
            height as int,
        );
        assert forall|k: int| 0 <= k < out.tris@.len() implies (#[trigger] out.tris@[k]).c
            is Some by {
            let t = out.tris@[k];
            assert(out.tris@.contains(t));
            assert(out.tris@.to_multiset().count(t) > 0);
            assert(processed.to_multiset().count(t) > 0);
            assert(processed.contains(t));
            let i = choose|i: int| 0 <= i < processed.len() && processed[i] == t;
            assert(processed[i].c is Some);
        }
    }
    out
}

/// Which movement keys are held this frame, as the control loop reports
/// them.
#[derive(Clone, Copy, Debug, PartialEq, Eq, Structural)]
pub struct MoveFlags {
    pub up: bool,
    pub down: bool,
    pub forward: bool,
    pub back: bool,
    pub left: bool,
    pub right: bool,
}

/// The velocity cap (0.15 in fixed point): no acceleration is applied
/// at or above it.
pub const VELOCITY_CAP: i64 = 9830;

/// The acceleration per frame (0.02 in fixed point).
pub const ACCEL_SCALE: i64 = 1310;

/// The friction factor applied every frame (0.8 in fixed point).
pub const FRICTION: i64 = 52429;

/// The unit acceleration direction the held keys add up to: screen `y`
/// grows downward, so `up` pulls toward `-y`, and `forward` toward `+z`.
pub open spec fn accel_of(m: MoveFlags) -> (int, int, int) {
    (
        (if m.left {
            -65536int
        } else {
            0int
        }) + (if m.right {
            65536int
        } else {
            0int
        }),
        (if m.up {
            -65536int
        } else {
            0int
        }) + (if m.down {
            65536int
        } else {
            0int
        }),
        (if m.forward {
            65536int
        } else {
            0int
        }) + (if m.back {
            -65536int
        } else {
            0int
        }),
    )
}

/// The velocity after one frame: below the cap, the held keys' direction
/// scaled by `ACCEL_SCALE` is added; then friction scales everything by
/// `FRICTION`.
pub open spec fn add_movement_v(m: MoveFlags, v: Vec3) -> (int, int, int) {
    let a = accel_of(m);
    let applied = if crate::vectors::mag_v(v) < VELOCITY_CAP && a != (0int, 0int, 0int) {
        (
            v.x + crate::fixed::fx_mul_v(a.0, ACCEL_SCALE as int),
            v.y + crate::fixed::fx_mul_v(a.1, ACCEL_SCALE as int),
            v.z + crate::fixed::fx_mul_v(a.2, ACCEL_SCALE as int),
        )
    } else {
        (v.x as int, v.y as int, v.z as int)
    };
    (
        crate::fixed::fx_mul_v(applied.0, FRICTION as int),
        crate::fixed::fx_mul_v(applied.1, FRICTION as int),
        crate::fixed::fx_mul_v(applied.2, FRICTION as int),
    )
}

/// Applies one frame of keyboard-driven movement to the velocity:
/// acceleration while below the cap, then friction.
pub fn add_movement(moving: &MoveFlags, velocity: &mut Vec3)
    requires
        vec3_bounded(*old(velocity), 0x10_0000),
    ensures
        (final(velocity).x as int, final(velocity).y as int, final(velocity).z as int)
            == add_movement_v(*moving, *old(velocity)),
        vec3_bounded(*final(velocity), 0x10_0000),
{
    let m = velocity.mag();
    let ax: i64 = (if moving.left {
        -FX_ONE
    } else {
        0
    }) + (if moving.right {
        FX_ONE
    } else {
        0
    });
    let ay: i64 = (if moving.up {
        -FX_ONE
    } else {
        0
    }) + (if moving.down {
        FX_ONE
    } else {
        0
    });
    let az: i64 = (if moving.forward {
        FX_ONE
    } else {
        0
    }) + (if moving.back {
        -FX_ONE
    } else {
        0
    });
    proof {
        crate::fixed::lemma_div_t_abs_bound(ax * 1310, 65536, 65536int * 1310);
        crate::fixed::lemma_div_t_abs_bound(ay * 1310, 65536, 65536int * 1310);
        crate::fixed::lemma_div_t_abs_bound(az * 1310, 65536, 65536int * 1310);
    }
    let applied_x: i64;
    let applied_y: i64;
    let applied_z: i64;
    if m < VELOCITY_CAP && !(ax == 0 && ay == 0 && az == 0) {
        applied_x = velocity.x + crate::fixed::fx_mul(ax, ACCEL_SCALE);
        applied_y = velocity.y + crate::fixed::fx_mul(ay, ACCEL_SCALE);
        applied_z = velocity.z + crate::fixed::fx_mul(az, ACCEL_SCALE);
    } else {
        applied_x = velocity.x;
        applied_y = velocity.y;
        applied_z = velocity.z;
    }
    proof {
        crate::fixed::lemma_div_t_abs_bound(applied_x * 52429, 65536, 0x10_2000int * 52429);
        crate::fixed::lemma_div_t_abs_bound(applied_y * 52429, 65536, 0x10_2000int * 52429);
        crate::fixed::lemma_div_t_abs_bound(applied_z * 52429, 65536, 0x10_2000int * 52429);
    }
    velocity.x = crate::fixed::fx_mul(applied_x, FRICTION);
    velocity.y = crate::fixed::fx_mul(applied_y, FRICTION);
    velocity.z = crate::fixed::fx_mul(applied_z, FRICTION);
}

} // verus!
