use city_core::culling::{
    aabb_intersects_frustum, frustum_from_vp, scaled_half_extents, should_render, Mat4,
    Plane,
};
use city_core::geom::Vec3i;

/// An axis-aligned box frustum of ±100 world units (100 000 milli)
/// around the origin: identity rotation, w row constant.
fn box_frustum_matrix() -> Mat4 {
    Mat4 {
        m00: 1,
        m01: 0,
        m02: 0,
        m03: 0,
        m10: 0,
        m11: 1,
        m12: 0,
        m13: 0,
        m20: 0,
        m21: 0,
        m22: 1,
        m23: 0,
        m30: 0,
        m31: 0,
        m32: 0,
        m33: 100_000,
    }
}

#[test]
fn planes_come_from_row_combinations() {
    let fr = frustum_from_vp(&box_frustum_matrix());
    assert_eq!(fr.left, Plane { n: Vec3i { x: 1, y: 0, z: 0 }, d: 100_000 });
    assert_eq!(fr.right, Plane { n: Vec3i { x: -1, y: 0, z: 0 }, d: 100_000 });
    assert_eq!(fr.bottom, Plane { n: Vec3i { x: 0, y: 1, z: 0 }, d: 100_000 });
    assert_eq!(fr.top, Plane { n: Vec3i { x: 0, y: -1, z: 0 }, d: 100_000 });
    assert_eq!(fr.near, Plane { n: Vec3i { x: 0, y: 0, z: 1 }, d: 100_000 });
    assert_eq!(fr.far, Plane { n: Vec3i { x: 0, y: 0, z: -1 }, d: 100_000 });
}

#[test]
fn distant_box_beyond_far_plane_is_culled() {
    let fr = frustum_from_vp(&box_frustum_matrix());
    // A unit box at distance 1000 along the view direction, far plane
    // at 100: entirely outside.
    let center = Vec3i { x: 0, y: 0, z: 1_000_000 };
    let half = Vec3i { x: 500, y: 500, z: 500 };
    assert!(!aabb_intersects_frustum(center, half, &fr));
}

#[test]
fn box_at_camera_is_visible() {
    let fr = frustum_from_vp(&box_frustum_matrix());
    let center = Vec3i { x: 0, y: 0, z: 0 };
    let half = Vec3i { x: 500, y: 500, z: 500 };
    assert!(aabb_intersects_frustum(center, half, &fr));
}

#[test]
fn box_straddling_a_plane_is_kept() {
    let fr = frustum_from_vp(&box_frustum_matrix());
    // Center just outside the right plane, but the half-extent reaches in.
    let center = Vec3i { x: 100_400, y: 0, z: 0 };
    let half = Vec3i { x: 500, y: 500, z: 500 };
    assert!(aabb_intersects_frustum(center, half, &fr));
    // Entirely outside once the half-extent no longer reaches.
    let center2 = Vec3i { x: 100_600, y: 0, z: 0 };
    assert!(!aabb_intersects_frustum(center2, half, &fr));
}

#[test]
fn should_render_compares_true_distance() {
    let cam = Vec3i { x: 0, y: 5000, z: -10_000 };
    let near = Vec3i { x: 3000, y: 5000, z: -6000 };
    // |near - cam| = 5000 exactly: strictly-less comparison excludes it.
    assert!(should_render(near, cam, 5001));
    assert!(!should_render(near, cam, 5000));
    let far = Vec3i { x: 0, y: 5000, z: 400_000 };
    assert!(!should_render(far, cam, 380_000));
    assert!(should_render(far, cam, 500_000));
}

#[test]
fn anisotropic_scale_is_applied_before_the_test() {
    let base = Vec3i { x: 900, y: 900, z: 900 };
    let scale = Vec3i { x: 1000, y: 2000, z: 500 };
    let half = scaled_half_extents(base, scale);
    assert_eq!(half, Vec3i { x: 900, y: 1800, z: 450 });
    let fr = frustum_from_vp(&box_frustum_matrix());
    // Tall box below the bottom plane: visible only via its y extent.
    let center = Vec3i { x: 0, y: -101_000, z: 0 };
    assert!(aabb_intersects_frustum(center, half, &fr));
    let squat = scaled_half_extents(base, Vec3i { x: 1000, y: 500, z: 1000 });
    assert!(!aabb_intersects_frustum(center, squat, &fr));
}
