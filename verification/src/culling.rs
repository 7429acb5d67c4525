//! Frustum culling in fixed point: plane extraction from a
//! view-projection matrix by row combination, and the conservative
//! box-versus-frustum test.
//!
//! Planes are kept unnormalized: the sign test `distance < -radius` is
//! invariant under scaling a plane, so normalization would only lose
//! exactness.

use vstd::prelude::*;
use crate::geom::Vec3i;

verus! {

/// A half-space boundary: the points where `n · p + d == 0`, with the
/// inside on the positive side.
#[derive(Copy, Clone, PartialEq, Eq, Structural, Debug)]
pub struct Plane {
    pub n: Vec3i,
    pub d: i64,
}

/// The six planes of a view frustum.
#[derive(Copy, Clone, PartialEq, Eq, Structural, Debug)]
pub struct Frustum {
    pub left: Plane,
    pub right: Plane,
    pub bottom: Plane,
    pub top: Plane,
    pub near: Plane,
    pub far: Plane,
}

/// A fixed-point 4×4 matrix, row-major: entry `m{r}{c}` is row `r`,
/// column `c`.  It acts on column vectors `(x, y, z, 1)`.
#[derive(Copy, Clone, PartialEq, Eq, Structural, Debug)]
pub struct Mat4 {
    pub m00: i64,
    pub m01: i64,
    pub m02: i64,
    pub m03: i64,
    pub m10: i64,
    pub m11: i64,
    pub m12: i64,
    pub m13: i64,
    pub m20: i64,
    pub m21: i64,
    pub m22: i64,
    pub m23: i64,
    pub m30: i64,
    pub m31: i64,
    pub m32: i64,
    pub m33: i64,
}

/// Bound on matrix entries accepted by the plane extraction.
pub const MAT_ENTRY_MAX: i64 = 0x200_0000_0000;

/// Bound on plane components accepted by the box test.
pub const PLANE_MAX: i64 = 0x400_0000_0000;

/// Bound on box centers and half-extents accepted by the box test.
pub const BOX_MAX: i64 = 0x400_0000_0000;

pub open spec fn sp_mat_wf(m: &Mat4) -> bool {
    &&& -MAT_ENTRY_MAX <= m.m00 <= MAT_ENTRY_MAX
    &&& -MAT_ENTRY_MAX <= m.m01 <= MAT_ENTRY_MAX
    &&& -MAT_ENTRY_MAX <= m.m02 <= MAT_ENTRY_MAX
    &&& -MAT_ENTRY_MAX <= m.m03 <= MAT_ENTRY_MAX
    &&& -MAT_ENTRY_MAX <= m.m10 <= MAT_ENTRY_MAX
    &&& -MAT_ENTRY_MAX <= m.m11 <= MAT_ENTRY_MAX
    &&& -MAT_ENTRY_MAX <= m.m12 <= MAT_ENTRY_MAX
    &&& -MAT_ENTRY_MAX <= m.m13 <= MAT_ENTRY_MAX
    &&& -MAT_ENTRY_MAX <= m.m20 <= MAT_ENTRY_MAX
    &&& -MAT_ENTRY_MAX <= m.m21 <= MAT_ENTRY_MAX
    &&& -MAT_ENTRY_MAX <= m.m22 <= MAT_ENTRY_MAX
    &&& -MAT_ENTRY_MAX <= m.m23 <= MAT_ENTRY_MAX
    &&& -MAT_ENTRY_MAX <= m.m30 <= MAT_ENTRY_MAX
    &&& -MAT_ENTRY_MAX <= m.m31 <= MAT_ENTRY_MAX
    &&& -MAT_ENTRY_MAX <= m.m32 <= MAT_ENTRY_MAX
    &&& -MAT_ENTRY_MAX <= m.m33 <= MAT_ENTRY_MAX
}

pub open spec fn sp_plane_wf(p: Plane) -> bool {
    &&& -PLANE_MAX <= p.n.x <= PLANE_MAX
    &&& -PLANE_MAX <= p.n.y <= PLANE_MAX
    &&& -PLANE_MAX <= p.n.z <= PLANE_MAX
    &&& -PLANE_MAX <= p.d <= PLANE_MAX
}

pub open spec fn sp_frustum_wf(fr: &Frustum) -> bool {
    &&& sp_plane_wf(fr.left)
    &&& sp_plane_wf(fr.right)
    &&& sp_plane_wf(fr.bottom)
    &&& sp_plane_wf(fr.top)
    &&& sp_plane_wf(fr.near)
    &&& sp_plane_wf(fr.far)
}

pub open spec fn sp_abs(v: int) -> int {
    if v < 0 {
        -v
    } else {
        v
    }
}

/// Signed distance term of the box center from the plane (scaled by the
/// plane's magnitude).
pub open spec fn sp_plane_dist(p: Plane, c: Vec3i) -> int {
    p.n.x * c.x + p.n.y * c.y + p.n.z * c.z + p.d
}

/// Projected half-extent of the box onto the plane normal.
pub open spec fn sp_plane_radius(p: Plane, h: Vec3i) -> int {
    h.x * sp_abs(p.n.x as int) + h.y * sp_abs(p.n.y as int) + h.z * sp_abs(p.n.z as int)
}

/// The box lies entirely on the outside of the plane.
pub open spec fn sp_box_outside(p: Plane, c: Vec3i, h: Vec3i) -> bool {
    sp_plane_dist(p, c) < -sp_plane_radius(p, h)
}

/// Conservative visibility: the box is reported visible unless some
/// frustum plane has it entirely outside.
pub open spec fn sp_box_visible(fr: &Frustum, c: Vec3i, h: Vec3i) -> bool {
    &&& !sp_box_outside(fr.left, c, h)
    &&& !sp_box_outside(fr.right, c, h)
    &&& !sp_box_outside(fr.bottom, c, h)
    &&& !sp_box_outside(fr.top, c, h)
    &&& !sp_box_outside(fr.near, c, h)
    &&& !sp_box_outside(fr.far, c, h)
}

/// Extracts the six frustum planes from a view-projection matrix by row
/// combination: left = row3 + row0, right = row3 − row0, bottom = row3 +
/// row1, top = row3 − row1, near = row3 + row2, far = row3 − row2.
pub fn frustum_from_vp(m: &Mat4) -> (r: Frustum)
    requires
        sp_mat_wf(m),
    ensures
        sp_frustum_wf(&r),
        r.left == (Plane {
            n: Vec3i { x: (m.m30 + m.m00) as i64, y: (m.m31 + m.m01) as i64, z: (m.m32 + m.m02) as i64 },
            d: (m.m33 + m.m03) as i64,
        }),
        r.right == (Plane {
            n: Vec3i { x: (m.m30 - m.m00) as i64, y: (m.m31 - m.m01) as i64, z: (m.m32 - m.m02) as i64 },
            d: (m.m33 - m.m03) as i64,
        }),
        r.bottom == (Plane {
            n: Vec3i { x: (m.m30 + m.m10) as i64, y: (m.m31 + m.m11) as i64, z: (m.m32 + m.m12) as i64 },
            d: (m.m33 + m.m13) as i64,
        }),
        r.top == (Plane {
            n: Vec3i { x: (m.m30 - m.m10) as i64, y: (m.m31 - m.m11) as i64, z: (m.m32 - m.m12) as i64 },
            d: (m.m33 - m.m13) as i64,
        }),
        r.near == (Plane {
            n: Vec3i { x: (m.m30 + m.m20) as i64, y: (m.m31 + m.m21) as i64, z: (m.m32 + m.m22) as i64 },
            d: (m.m33 + m.m23) as i64,
        }),
        r.far == (Plane {
            n: Vec3i { x: (m.m30 - m.m20) as i64, y: (m.m31 - m.m21) as i64, z: (m.m32 - m.m22) as i64 },
            d: (m.m33 - m.m23) as i64,
        }),
{
    Frustum {
        left: Plane {
            n: Vec3i { x: m.m30 + m.m00, y: m.m31 + m.m01, z: m.m32 + m.m02 },
            d: m.m33 + m.m03,
        },
        right: Plane {
            n: Vec3i { x: m.m30 - m.m00, y: m.m31 - m.m01, z: m.m32 - m.m02 },
            d: m.m33 - m.m03,
        },
        bottom: Plane {
            n: Vec3i { x: m.m30 + m.m10, y: m.m31 + m.m11, z: m.m32 + m.m12 },
            d: m.m33 + m.m13,
        },
        top: Plane {
            n: Vec3i { x: m.m30 - m.m10, y: m.m31 - m.m11, z: m.m32 - m.m12 },
            d: m.m33 - m.m13,
        },
        near: Plane {
            n: Vec3i { x: m.m30 + m.m20, y: m.m31 + m.m21, z: m.m32 + m.m22 },
            d: m.m33 + m.m23,
        },
        far: Plane {
            n: Vec3i { x: m.m30 - m.m20, y: m.m31 - m.m21, z: m.m32 - m.m22 },
            d: m.m33 - m.m23,
        },
    }
}

/// A well-formed culling box: non-negative half-extents, bounded values.
pub open spec fn sp_box_wf(c: Vec3i, h: Vec3i) -> bool {
    &&& -BOX_MAX <= c.x <= BOX_MAX
    &&& -BOX_MAX <= c.y <= BOX_MAX
    &&& -BOX_MAX <= c.z <= BOX_MAX
    &&& 0 <= h.x <= BOX_MAX
    &&& 0 <= h.y <= BOX_MAX
    &&& 0 <= h.z <= BOX_MAX
}

fn box_outside_plane(p: Plane, c: Vec3i, h: Vec3i) -> (r: bool)
    requires
        sp_plane_wf(p),
        sp_box_wf(c, h),
    ensures
        r == sp_box_outside(p, c, h),
{
    let ax: i64 = if p.n.x < 0 {
        -p.n.x
    } else {
        p.n.x
    };
    let ay: i64 = if p.n.y < 0 {
        -p.n.y
    } else {
        p.n.y
    };
    let az: i64 = if p.n.z < 0 {
        -p.n.z
    } else {
        p.n.z
    };
    proof {
        assert(-0x10_0000_0000_0000_0000_0000 <= (p.n.x as int) * (c.x as int)
            <= 0x10_0000_0000_0000_0000_0000 && -0x10_0000_0000_0000_0000_0000 <= (
        p.n.y as int) * (c.y as int) <= 0x10_0000_0000_0000_0000_0000
            && -0x10_0000_0000_0000_0000_0000 <= (p.n.z as int) * (c.z as int)
            <= 0x10_0000_0000_0000_0000_0000 && 0 <= (h.x as int) * (ax as int)
            <= 0x10_0000_0000_0000_0000_0000 && 0 <= (h.y as int) * (ay as int)
            <= 0x10_0000_0000_0000_0000_0000 && 0 <= (h.z as int) * (az as int)
            <= 0x10_0000_0000_0000_0000_0000) by (nonlinear_arith)
            requires
                -PLANE_MAX <= p.n.x <= PLANE_MAX,
                -PLANE_MAX <= p.n.y <= PLANE_MAX,
                -PLANE_MAX <= p.n.z <= PLANE_MAX,
                0 <= ax <= PLANE_MAX,
                0 <= ay <= PLANE_MAX,
                0 <= az <= PLANE_MAX,
                -BOX_MAX <= c.x <= BOX_MAX,
                -BOX_MAX <= c.y <= BOX_MAX,
                -BOX_MAX <= c.z <= BOX_MAX,
                0 <= h.x <= BOX_MAX,
                0 <= h.y <= BOX_MAX,
                0 <= h.z <= BOX_MAX,
        ;
    }
    let radius: i128 = (h.x as i128) * (ax as i128) + (h.y as i128) * (ay as i128) + (
    h.z as i128) * (az as i128);
    let dist: i128 = (p.n.x as i128) * (c.x as i128) + (p.n.y as i128) * (c.y as i128)
        + (p.n.z as i128) * (c.z as i128) + (p.d as i128);
    dist < -radius
}

/// Box-versus-frustum test: `false` only when the box is entirely
/// outside some plane (conservative: a box may be accepted near a
/// corner, but an intersecting box is never rejected).  Callers pass
/// half-extents already multiplied by the instance's per-axis scale.
pub fn aabb_intersects_frustum(center: Vec3i, half: Vec3i, fr: &Frustum) -> (r: bool)
    requires
        sp_frustum_wf(fr),
        sp_box_wf(center, half),
    ensures
        r == sp_box_visible(fr, center, half),
{
    if box_outside_plane(fr.left, center, half) {
        return false;
    }
    if box_outside_plane(fr.right, center, half) {
        return false;
    }
    if box_outside_plane(fr.bottom, center, half) {
        return false;
    }
    if box_outside_plane(fr.top, center, half) {
        return false;
    }
    if box_outside_plane(fr.near, center, half) {
        return false;
    }
    if box_outside_plane(fr.far, center, half) {
        return false;
    }
    true
}

/// A point lies inside (or on) every plane of the frustum.
pub open spec fn sp_point_inside(fr: &Frustum, px: int, py: int, pz: int) -> bool {
    &&& fr.left.n.x * px + fr.left.n.y * py + fr.left.n.z * pz + fr.left.d >= 0
    &&& fr.right.n.x * px + fr.right.n.y * py + fr.right.n.z * pz + fr.right.d >= 0
    &&& fr.bottom.n.x * px + fr.bottom.n.y * py + fr.bottom.n.z * pz + fr.bottom.d >= 0
    &&& fr.top.n.x * px + fr.top.n.y * py + fr.top.n.z * pz + fr.top.d >= 0
    &&& fr.near.n.x * px + fr.near.n.y * py + fr.near.n.z * pz + fr.near.d >= 0
    &&& fr.far.n.x * px + fr.far.n.y * py + fr.far.n.z * pz + fr.far.d >= 0
}

proof fn lemma_plane_conservative(p: Plane, c: Vec3i, h: Vec3i, px: int, py: int, pz: int)
    requires
        0 <= h.x,
        0 <= h.y,
        0 <= h.z,
        c.x - h.x <= px <= c.x + h.x,
        c.y - h.y <= py <= c.y + h.y,
        c.z - h.z <= pz <= c.z + h.z,
        p.n.x * px + p.n.y * py + p.n.z * pz + p.d >= 0,
    ensures
        !sp_box_outside(p, c, h),
{
    assert(p.n.x * c.x - p.n.x * px >= -(h.x * sp_abs(p.n.x as int)))
        by (nonlinear_arith)
        requires
            c.x - h.x <= px <= c.x + h.x,
            0 <= h.x,
    ;
    assert(p.n.y * c.y - p.n.y * py >= -(h.y * sp_abs(p.n.y as int)))
        by (nonlinear_arith)
        requires
            c.y - h.y <= py <= c.y + h.y,
            0 <= h.y,
    ;
    assert(p.n.z * c.z - p.n.z * pz >= -(h.z * sp_abs(p.n.z as int)))
        by (nonlinear_arith)
        requires
            c.z - h.z <= pz <= c.z + h.z,
            0 <= h.z,
    ;
}

/// Culling is conservative: a box that holds any point inside the
/// frustum is never rejected by the plane test.
pub proof fn lemma_culling_conservative(
    fr: &Frustum,
    c: Vec3i,
    h: Vec3i,
    px: int,
    py: int,
    pz: int,
)
    requires
        0 <= h.x,
        0 <= h.y,
        0 <= h.z,
        c.x - h.x <= px <= c.x + h.x,
        c.y - h.y <= py <= c.y + h.y,
        c.z - h.z <= pz <= c.z + h.z,
        sp_point_inside(fr, px, py, pz),
    ensures
        sp_box_visible(fr, c, h),
{
    lemma_plane_conservative(fr.left, c, h, px, py, pz);
    lemma_plane_conservative(fr.right, c, h, px, py, pz);
    lemma_plane_conservative(fr.bottom, c, h, px, py, pz);
    lemma_plane_conservative(fr.top, c, h, px, py, pz);
    lemma_plane_conservative(fr.near, c, h, px, py, pz);
    lemma_plane_conservative(fr.far, c, h, px, py, pz);
}

/// Distance-based draw decision: whether a building lies strictly
/// within `max_distance` (milli-units) of the camera.
pub fn should_render(
    building_pos: Vec3i,
    camera_pos: Vec3i,
    max_distance: i64,
) -> (r: bool)
    requires
        -BOX_MAX <= building_pos.x <= BOX_MAX,
        -BOX_MAX <= building_pos.y <= BOX_MAX,
        -BOX_MAX <= building_pos.z <= BOX_MAX,
        -BOX_MAX <= camera_pos.x <= BOX_MAX,
        -BOX_MAX <= camera_pos.y <= BOX_MAX,
        -BOX_MAX <= camera_pos.z <= BOX_MAX,
        0 <= max_distance <= BOX_MAX,
    ensures
        r == ({
            let dx = building_pos.x - camera_pos.x;
            let dy = building_pos.y - camera_pos.y;
            let dz = building_pos.z - camera_pos.z;
            dx * dx + dy * dy + dz * dz < max_distance * max_distance
        }),
{
    let dx: i64 = building_pos.x - camera_pos.x;
    let dy: i64 = building_pos.y - camera_pos.y;
    let dz: i64 = building_pos.z - camera_pos.z;
    proof {
        assert(0 <= (dx as int) * (dx as int) <= 0x40_0000_0000_0000_0000_0000_0000 && 0
            <= (dy as int) * (dy as int) <= 0x40_0000_0000_0000_0000_0000_0000 && 0 <= (
        dz as int) * (dz as int) <= 0x40_0000_0000_0000_0000_0000_0000 && 0 <= (
        max_distance as int) * (max_distance as int)
            <= 0x40_0000_0000_0000_0000_0000_0000) by (nonlinear_arith)
            requires
                -0x800_0000_0000 <= dx <= 0x800_0000_0000,
                -0x800_0000_0000 <= dy <= 0x800_0000_0000,
                -0x800_0000_0000 <= dz <= 0x800_0000_0000,
                0 <= max_distance <= 0x400_0000_0000,
        ;
    }
    let d2: i128 = (dx as i128) * (dx as i128) + (dy as i128) * (dy as i128) + (
    dz as i128) * (dz as i128);
    d2 < (max_distance as i128) * (max_distance as i128)
}

/// Scales an archetype's base half-extents by an instance's per-axis
/// scale (thousandths), as the culling test expects.
pub fn scaled_half_extents(base: Vec3i, scale: Vec3i) -> (r: Vec3i)
    requires
        0 <= base.x <= 1_000_000,
        0 <= base.y <= 1_000_000,
        0 <= base.z <= 1_000_000,
        0 <= scale.x <= 1_000_000,
        0 <= scale.y <= 1_000_000,
        0 <= scale.z <= 1_000_000,
    ensures
        r.x == base.x * scale.x / 1000,
        r.y == base.y * scale.y / 1000,
        r.z == base.z * scale.z / 1000,
{
    proof {
        assert(0 <= (base.x as int) * (scale.x as int) <= 1_000_000_000_000 && 0 <= (
        base.y as int) * (scale.y as int) <= 1_000_000_000_000 && 0 <= (base.z as int)
            * (scale.z as int) <= 1_000_000_000_000) by (nonlinear_arith)
            requires
                0 <= base.x <= 1_000_000,
                0 <= base.y <= 1_000_000,
                0 <= base.z <= 1_000_000,
                0 <= scale.x <= 1_000_000,
                0 <= scale.y <= 1_000_000,
                0 <= scale.z <= 1_000_000,
        ;
    }
    Vec3i {
        x: ((base.x as u64 * scale.x as u64) / 1000) as i64,
        y: ((base.y as u64 * scale.y as u64) / 1000) as i64,
        z: ((base.z as u64 * scale.z as u64) / 1000) as i64,
    }
}

} // verus!
