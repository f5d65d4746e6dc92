use raster3d::errors::RenderError;
use raster3d::fixed::FX_ONE;
use raster3d::linear_transforms::{
    projection_matrix, rotation_matrix_x, rotation_matrix_z, translation_matrix, view_matrix,
};
use raster3d::matrices::{perspective_divide, Matrix4x4};
use raster3d::pipeline::{add_movement, process_triangle, render_frame, MoveFlags};
use raster3d::polygons::{Color, Mesh, Tri};
use raster3d::vectors::{Vec3, Vec4};

const FX: i64 = FX_ONE;

fn identity() -> Matrix4x4 {
    translation_matrix(0, 0, 0)
}

fn no_keys() -> MoveFlags {
    MoveFlags { up: false, down: false, forward: false, back: false, left: false, right: false }
}

// A triangle at z == 5 whose winding faces the camera at the origin.
fn facing_tri() -> Tri {
    Tri::from_coords(-FX, -FX, 5 * FX, 0, FX, 5 * FX, FX, -FX, 5 * FX)
}

#[test]
fn test_projection_matrix_entries() {
    // fov 90 degrees (scale 1.0), aspect 1.0, near 0.1, far 1000.
    let m = projection_matrix(FX, FX, 6554, 65536000).unwrap();
    assert_eq!(m.m00, FX);
    assert_eq!(m.m11, FX);
    assert_eq!(m.m22, 65542);
    assert_eq!(m.m23, -6554);
    assert_eq!(m.m32, FX);
    assert_eq!(m.m33, 0);
    assert_eq!((m.m01, m.m02, m.m03, m.m10, m.m12, m.m13), (0, 0, 0, 0, 0, 0));
}

#[test]
fn test_projection_matrix_rejects_bad_params() {
    assert!(matches!(
        projection_matrix(FX, FX, 6554, 6554),
        Err(RenderError::InvalidProjectionParameters)
    ));
    assert!(matches!(
        projection_matrix(0, FX, 6554, 65536000),
        Err(RenderError::InvalidProjectionParameters)
    ));
    assert!(matches!(
        projection_matrix(FX, 0, 6554, 65536000),
        Err(RenderError::InvalidProjectionParameters)
    ));
}

#[test]
fn test_rotation_matrix_entries() {
    // A quarter turn: sin 1.0, cos 0.
    let rx = rotation_matrix_x(FX, 0);
    assert_eq!((rx.m11, rx.m12, rx.m21, rx.m22), (0, -FX, FX, 0));
    assert_eq!((rx.m00, rx.m33), (FX, FX));
    let rz = rotation_matrix_z(FX, 0);
    assert_eq!((rz.m00, rz.m01, rz.m10, rz.m11), (0, -FX, FX, 0));
}

#[test]
fn test_matrix_multiply_composes_translations() {
    let a = translation_matrix(FX, 0, 0);
    let b = translation_matrix(0, 2 * FX, 0);
    let c = a.multiply(&b);
    assert_eq!((c.m03, c.m13, c.m23), (FX, 2 * FX, 0));
    assert_eq!((c.m00, c.m11, c.m22, c.m33), (FX, FX, FX, FX));
}

#[test]
fn test_view_matrix_identity_frame() {
    // Camera at the origin looking along +z with +y up gives the
    // identity frame.
    let cam = Vec3::new(0, 0, 0);
    let dir = Vec3::new(0, 0, FX);
    let up = Vec3::new(0, FX, 0);
    let v = view_matrix(&cam, &dir, &up).unwrap();
    assert_eq!((v.m00, v.m01, v.m02), (FX, 0, 0));
    assert_eq!((v.m10, v.m11, v.m12), (0, FX, 0));
    assert_eq!((v.m20, v.m21, v.m22), (0, 0, FX));
    assert_eq!(v.m33, FX);
    assert_eq!((v.m03, v.m13, v.m23), (0, 0, 0));
}

#[test]
fn test_normal_commutes_with_rotation() {
    // A quarter turn about x maps the +z normal to -y, and the normal of
    // the rotated triangle is exactly the rotated normal.
    let t = Tri::from_coords(FX, -FX, FX, FX, FX, FX, -FX, FX, FX);
    assert_eq!(t.normal(), Vec3::new(0, 0, FX));
    let rot = rotation_matrix_x(FX, 0);
    let rotated = t.transform(&rot);
    assert_eq!(rotated.normal(), Vec3::new(0, -FX, 0));
}

#[test]
fn test_view_matrix_degenerate_direction() {
    let cam = Vec3::new(0, 0, 0);
    let dir = Vec3::new(0, 0, 0);
    let up = Vec3::new(0, FX, 0);
    assert!(matches!(
        view_matrix(&cam, &dir, &up),
        Err(RenderError::DegenerateGeometry)
    ));
}

#[test]
fn test_matrix_new_is_zero() {
    let m = Matrix4x4::new();
    assert_eq!((m.m00, m.m11, m.m22, m.m33), (0, 0, 0, 0));
    assert_eq!((m.m03, m.m13, m.m23, m.m30), (0, 0, 0, 0));
}

#[test]
fn test_dot_by_matrix_translates_point() {
    // With w == 1 the translation column moves the point; the final
    // divide by w == 1 leaves it unscaled.
    let m = translation_matrix(FX, FX, FX);
    let v = Vec3::new(FX, 2 * FX, 3 * FX);
    let mut out = Vec3::new(0, 0, 0);
    v.dot_by_matrix(&m, &mut out);
    assert_eq!(out, Vec3::new(2 * FX, 3 * FX, 4 * FX));
}

#[test]
fn test_perspective_divide() {
    let p = Vec4 { x: 2 * FX, y: -4 * FX, z: 6 * FX, w: 2 * FX };
    assert_eq!(perspective_divide(&p), Ok(Vec3::new(FX, -2 * FX, 3 * FX)));
    let bad = Vec4 { x: FX, y: FX, z: FX, w: 0 };
    assert!(matches!(
        perspective_divide(&bad),
        Err(RenderError::PerspectiveDivideByZero)
    ));
}

#[test]
fn test_process_triangle_end_to_end() {
    // A facing triangle at z == 5, projected with near 0.1, far 1000,
    // fov 90 degrees, aspect 1, into an 800x600 viewport.
    let proj = projection_matrix(FX, FX, 6554, 65536000).unwrap();
    let camera = Vec3::new(0, 0, 0);
    let light = Vec3::new(0, 0, -FX);
    let out = process_triangle(
        &facing_tri(),
        &identity(),
        &identity(),
        &proj,
        &camera,
        &light,
        800,
        600,
    )
    .unwrap();
    // Fully lit: the light opposes the normal exactly.
    assert_eq!(out.c, Some(Color { r: 254, g: 254, b: 254 }));
    // Screen coordinates, still in fixed point: x in [0, 800], y in [0, 600];
    // z keeps the camera-space depth (5.0) as the sort key.
    assert_eq!(out.p0, Vec4 { x: 52429 * 400, y: 52429 * 300, z: 5 * FX, w: FX });
    assert_eq!(out.p1, Vec4 { x: FX * 400, y: 78643 * 300, z: 5 * FX, w: FX });
    assert_eq!(out.p2, Vec4 { x: 78643 * 400, y: 52429 * 300, z: 5 * FX, w: FX });
    for p in [out.p0, out.p1, out.p2] {
        assert!(0 <= p.x && p.x <= 800 * FX);
        assert!(0 <= p.y && p.y <= 600 * FX);
    }
}

#[test]
fn test_process_triangle_culls_backfacing() {
    // The same triangle with two vertices swapped faces away.
    let t = Tri::from_coords(-FX, -FX, 5 * FX, FX, -FX, 5 * FX, 0, FX, 5 * FX);
    let proj = projection_matrix(FX, FX, 6554, 65536000).unwrap();
    let camera = Vec3::new(0, 0, 0);
    let light = Vec3::new(0, 0, -FX);
    let out = process_triangle(&t, &identity(), &identity(), &proj, &camera, &light, 800, 600);
    assert_eq!(out, None);
}

#[test]
fn test_process_triangle_drops_behind_camera() {
    // Negative view-space z gives w <= 0: dropped, not divided.
    let t = Tri::from_coords(-FX, -FX, -5 * FX, 0, FX, -5 * FX, FX, -FX, -5 * FX);
    let proj = projection_matrix(FX, FX, 6554, 65536000).unwrap();
    let camera = Vec3::new(0, 0, 0);
    let light = Vec3::new(0, 0, -FX);
    let out = process_triangle(&t, &identity(), &identity(), &proj, &camera, &light, 800, 600);
    assert_eq!(out, None);
}

#[test]
fn test_process_triangle_drops_degenerate() {
    let t = Tri::from_coords(0, 0, 5 * FX, 0, 0, 5 * FX, 0, 0, 5 * FX);
    let proj = projection_matrix(FX, FX, 6554, 65536000).unwrap();
    let camera = Vec3::new(0, 0, 0);
    let light = Vec3::new(0, 0, -FX);
    let out = process_triangle(&t, &identity(), &identity(), &proj, &camera, &light, 800, 600);
    assert_eq!(out, None);
}

#[test]
fn test_render_frame_sorts_survivors() {
    let near_tri = facing_tri();
    let far_tri = near_tri.translate(&Vec3::new(0, 0, 5 * FX));
    let mesh = Mesh::new(vec![near_tri, far_tri]);
    let proj = projection_matrix(FX, FX, 6554, 65536000).unwrap();
    let camera = Vec3::new(0, 0, 0);
    let light = Vec3::new(0, 0, -FX);
    let out = render_frame(
        &mesh,
        &identity(),
        &identity(),
        &proj,
        &camera,
        &light,
        800,
        600,
    );
    assert_eq!(out.tris.len(), 2);
    // Farthest (largest view z) first.
    assert!(out.tris[0].p0.z >= out.tris[1].p0.z);
}

#[test]
fn test_add_movement_accelerates_and_brakes() {
    let mut v = Vec3::new(0, 0, 0);
    let mut keys = no_keys();
    keys.forward = true;
    add_movement(&keys, &mut v);
    // Acceleration 0.02 forward, then friction 0.8.
    assert_eq!(v, Vec3::new(0, 0, 1048));

    // No keys: friction alone scales the velocity down.
    add_movement(&no_keys(), &mut v);
    assert_eq!(v, Vec3::new(0, 0, 1048 * 52429 / FX));
}

#[test]
fn test_add_movement_capped() {
    // At the cap no acceleration applies, only friction.
    let mut v = Vec3::new(0, 0, 9830);
    let mut keys = no_keys();
    keys.forward = true;
    add_movement(&keys, &mut v);
    assert_eq!(v, Vec3::new(0, 0, 9830 * 52429 / FX));
}
