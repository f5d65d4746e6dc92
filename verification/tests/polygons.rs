use raster3d::errors::RenderError;
use raster3d::fixed::FX_ONE;
use raster3d::polygons::{Color, Mesh, Tri};
use raster3d::vectors::{Vec3, Vec4};

const FX: i64 = FX_ONE;

#[test]
fn polygons_test_tri() {
    let t1 = Tri::from_coords(FX, -FX, FX, FX, FX, FX, -FX, FX, FX);
    let t2 = Tri::from_coords(-FX, -FX, FX, -FX, FX, FX, -FX, FX, -FX);

    assert_eq!(t1.normal(), Vec3::new(0, 0, FX));
    assert_eq!(t2.normal(), Vec3::new(-FX, 0, 0));
}

#[test]
fn structures_test_tri() {
    let t1 = Tri::from_coords(FX, -FX, FX, FX, FX, FX, -FX, FX, FX);
    let t2 = Tri::from_coords(-FX, -FX, FX, -FX, FX, FX, -FX, FX, -FX);

    assert_eq!(t1.normal(), Vec3::new(0, 0, FX));
    assert_eq!(t2.normal(), Vec3::new(-FX, 0, 0));
}

#[test]
fn test_normal_toward_positive_z() {
    // The winding order picks the normal's sign: the vertex order
    // ((-1,-1,1), (-1,1,1), (1,1,1)) runs clockwise seen from +z, so
    // `normalize(cross(p1 - p0, p2 - p0))` points toward -z, and the
    // mirrored order gives the +z normal.
    let clockwise = Tri::from_coords(-FX, -FX, FX, -FX, FX, FX, FX, FX, FX);
    assert_eq!(clockwise.normal(), Vec3::new(0, 0, -FX));
    let counterclockwise = Tri::from_coords(-FX, FX, FX, -FX, -FX, FX, FX, FX, FX);
    assert_eq!(counterclockwise.normal(), Vec3::new(0, 0, FX));
}

#[test]
fn test_midpoint() {
    let t = Tri::from_coords(0, 0, 0, 3 * FX, 0, 0, 0, 3 * FX, 6 * FX);
    assert_eq!(t.midpoint(), Vec3::new(FX, FX, 2 * FX));
}

#[test]
fn test_translate_keeps_color_and_w() {
    let t = Tri::new(
        Vec4 { x: 0, y: 0, z: 0, w: FX },
        Vec4 { x: FX, y: 0, z: 0, w: FX },
        Vec4 { x: 0, y: FX, z: 0, w: FX },
        Color { r: 9, g: 8, b: 7 },
    );
    let moved = t.translate(&Vec3::new(FX, 2 * FX, 3 * FX));
    assert_eq!(moved.p0, Vec4 { x: FX, y: 2 * FX, z: 3 * FX, w: FX });
    assert_eq!(moved.p1, Vec4 { x: 2 * FX, y: 2 * FX, z: 3 * FX, w: FX });
    assert_eq!(moved.p2, Vec4 { x: FX, y: 3 * FX, z: 3 * FX, w: FX });
    assert_eq!(moved.c, Some(Color { r: 9, g: 8, b: 7 }));
}

fn flat_tri(z: i64) -> Tri {
    Tri::from_coords(0, 0, z, FX, 0, z, 0, FX, z)
}

#[test]
fn test_sort_back_to_front() {
    // Distinct average depths, inserted out of order.
    let mut mesh = Mesh::new(vec![flat_tri(FX), flat_tri(10 * FX), flat_tri(5 * FX)]);
    mesh.sort();
    let avgs: Vec<i64> = mesh
        .tris
        .iter()
        .map(|t| (t.p0.z + t.p1.z + t.p2.z) / 3)
        .collect();
    assert_eq!(avgs, vec![10 * FX, 5 * FX, FX]);
    // Farthest first: averages are monotonically non-increasing.
    for pair in avgs.windows(2) {
        assert!(pair[0] >= pair[1]);
    }
}

#[test]
fn test_sort_keeps_triangles() {
    let a = flat_tri(2 * FX);
    let b = flat_tri(7 * FX);
    let mut mesh = Mesh::new(vec![a, b]);
    mesh.sort();
    assert_eq!(mesh.tris.len(), 2);
    assert_eq!(mesh.tris[0], b);
    assert_eq!(mesh.tris[1], a);
}

#[test]
fn test_from_indexed() {
    let vertices = vec![
        Vec3::new(0, 0, 0),
        Vec3::new(FX, 0, 0),
        Vec3::new(0, FX, 0),
    ];
    let faces = vec![(0usize, 1usize, 2usize)];
    let mesh = Mesh::from_indexed(&vertices, &faces).unwrap();
    assert_eq!(mesh.tris.len(), 1);
    assert_eq!(mesh.tris[0].p0, Vec4 { x: 0, y: 0, z: 0, w: FX });
    assert_eq!(mesh.tris[0].p1, Vec4 { x: FX, y: 0, z: 0, w: FX });
    assert_eq!(mesh.tris[0].p2, Vec4 { x: 0, y: FX, z: 0, w: FX });
    assert_eq!(mesh.tris[0].c, None);
}

#[test]
fn test_from_indexed_bad_reference() {
    let vertices = vec![Vec3::new(0, 0, 0), Vec3::new(FX, 0, 0)];
    let faces = vec![(0usize, 1usize, 2usize)];
    assert!(matches!(
        Mesh::from_indexed(&vertices, &faces),
        Err(RenderError::MalformedMeshReference)
    ));
}
