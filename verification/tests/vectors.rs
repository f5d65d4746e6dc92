use raster3d::fixed::{fx_div, fx_mul, isqrt, FX_ONE};
use raster3d::vectors::Vec3;

const FX: i64 = FX_ONE;

#[test]
fn test_vec3() {
    let mut v1 = Vec3::new(FX, 2 * FX, 3 * FX);
    let v2 = Vec3::new(4 * FX, 5 * FX, 6 * FX);

    v1 = v1.add(&v2);
    assert_eq!(v1, Vec3::new(5 * FX, 7 * FX, 9 * FX));

    v1 = v1.sub(&v2);
    assert_eq!(v1, Vec3::new(FX, 2 * FX, 3 * FX));

    v1 = v1.scale(2 * FX);
    assert_eq!(v1, Vec3::new(2 * FX, 4 * FX, 6 * FX));

    v1 = v1.div_scalar(2 * FX);
    assert_eq!(v1, Vec3::new(FX, 2 * FX, 3 * FX));

    assert_eq!(v1.dot(&v2), 32 * FX);
    assert_eq!(v1.cross(&v2), Vec3::new(-3 * FX, 6 * FX, -3 * FX));
    assert_eq!(v1.add(&v2), Vec3::new(5 * FX, 7 * FX, 9 * FX));
    assert_eq!(v1.sub(&v2), Vec3::new(-3 * FX, -3 * FX, -3 * FX));
    assert_eq!(v1.scale(2 * FX), Vec3::new(2 * FX, 4 * FX, 6 * FX));
    assert_eq!(v1.div_scalar(2 * FX), Vec3::new(FX / 2, FX, 3 * FX / 2));
}

#[test]
fn test_fixed_ops() {
    assert_eq!(fx_mul(3 * FX, 2 * FX), 6 * FX);
    assert_eq!(fx_mul(-3 * FX, 2 * FX), -6 * FX);
    assert_eq!(fx_div(3 * FX, 2 * FX), 3 * FX / 2);
    assert_eq!(fx_div(-FX, 3), -FX * FX / 3);
    // Truncation rounds toward zero on both sides.
    assert_eq!(fx_mul(1, 1), 0);
    assert_eq!(fx_mul(-1, 1), 0);
    assert_eq!(isqrt(0), 0);
    assert_eq!(isqrt(15), 3);
    assert_eq!(isqrt(16), 4);
    assert_eq!(isqrt((1u128 << 64) - 1), u32::MAX as u64);
}

#[test]
fn test_mag_and_normalize() {
    let v = Vec3::new(3 * FX, 4 * FX, 0);
    assert_eq!(v.mag(), 5 * FX);

    let mut n = v;
    n.normalize();
    // 3/5 and 4/5, truncated on the fixed-point grid.
    assert_eq!(n, Vec3::new(39321, 52428, 0));

    // The magnitude of the normalized vector is 1 within the grid:
    // strictly above (FX_ONE - 3)^2 and at most (FX_ONE + 1)^2.
    let sq = n.x * n.x + n.y * n.y + n.z * n.z;
    assert!((FX - 3) * (FX - 3) < sq);
    assert!(sq <= (FX + 1) * (FX + 1));
}

#[test]
fn test_normalize_axis_exact() {
    let mut v = Vec3::new(0, 0, 7 * FX);
    v.normalize();
    assert_eq!(v, Vec3::new(0, 0, FX));
    let mut w = Vec3::new(-2 * FX, 0, 0);
    w.normalize();
    assert_eq!(w, Vec3::new(-FX, 0, 0));
}
