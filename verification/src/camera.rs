//! The pinhole-style camera: a position and two direction vectors, and the
//! direction-only projection of world points onto the screen.
//!
//! Two world points on one ray from the camera project to the same screen
//! position; the projected `distance` is the fixed-point cosine between the
//! view direction and the ray to the point, not a Euclidean depth.

use vstd::prelude::*;
use crate::fixed::ONE;
use crate::fixed::tdiv;
use crate::fixed::mul_i64;
use crate::fixed::div_i64;
use crate::fixed::lemma_mul_abs_bound;
use crate::fixed::lemma_tdiv_bound;
use crate::vectors::Vec2;
use crate::vectors::Vec3;
use crate::vectors::in_bounds2;
use crate::vectors::in_bounds3;
use crate::vectors::v3;
use crate::vectors::dot3_s;
use crate::vectors::cross3_s;
use crate::vectors::unit3_s;
use crate::vectors::lemma_unit3_bounds;

verus! {

/// Largest magnitude of a world-position component.
pub const POS_LIMIT: i64 = 0x1000_0000;

/// Largest magnitude of a camera-direction component.
pub const DIR_LIMIT: i64 = 0x10_0000;

/// Largest magnitude of a projected coordinate or distance.
pub const PV_LIMIT: i64 = 0x400_0000;

/// A vertex after projection: a screen position and the view-direction
/// cosine that stands in for depth.
#[derive(Clone, Copy, Debug, PartialEq, Eq, Structural)]
pub struct ProjectedVec {
    pub position: Vec2,
    pub distance: i64,
}

/// `r` holds exactly the projected triple `t` (screen x, screen y, depth).
pub open spec fn pv_is(r: ProjectedVec, t: (int, int, int)) -> bool {
    &&& r.position.x == t.0
    &&& r.position.y == t.1
    &&& r.distance == t.2
}

/// A projected vertex whose coordinates the rasterizer can take.
pub open spec fn pv_ok(r: ProjectedVec) -> bool {
    &&& in_bounds2(r.position, PV_LIMIT as int)
    &&& -PV_LIMIT <= r.distance <= PV_LIMIT
}

/// The scene camera: a position, a view direction `normal`, and an `up`
/// direction. `side` is derived from the two directions on demand and never
/// stored. The directions need not be unit length; projection treats them
/// exactly as given, as the contracts state.
#[derive(Clone, Copy, Debug, PartialEq, Eq, Structural)]
pub struct Camera {
    pub position: Vec3,
    pub normal: Vec3,
    pub up: Vec3,
}

impl Camera {
    /// The camera's components are small enough for projection arithmetic.
    pub open spec fn wf(self) -> bool {
        &&& in_bounds3(self.position, POS_LIMIT as int)
        &&& in_bounds3(self.normal, DIR_LIMIT as int)
        &&& in_bounds3(self.up, DIR_LIMIT as int)
    }

    /// The derived side direction: the normalized cross product of the view
    /// direction and the up direction.
    pub open spec fn side_s(self) -> (int, int, int) {
        unit3_s(cross3_s(v3(self.normal), v3(self.up)))
    }

    /// Projection of a world point: the direction from the camera to the
    /// point, normalized, then resolved against `side`, `up` and `normal`.
    pub open spec fn project_s(self, point: Vec3) -> (int, int, int) {
        let du = unit3_s(
            (point.x - self.position.x, point.y - self.position.y, point.z - self.position.z),
        );
        (dot3_s(du, self.side_s()), dot3_s(du, v3(self.up)), dot3_s(du, v3(self.normal)))
    }

    pub fn new(position: Vec3, normal: Vec3, up: Vec3) -> (r: Camera)
        requires
            in_bounds3(position, POS_LIMIT as int),
            in_bounds3(normal, DIR_LIMIT as int),
            in_bounds3(up, DIR_LIMIT as int),
        ensures
            r.position == position,
            r.normal == normal,
            r.up == up,
            r.wf(),
    {
        Camera { position, normal, up }
    }

    /// A camera whose up direction is the world's unit y axis.
    pub fn upright(position: Vec3, normal: Vec3) -> (r: Camera)
        requires
            in_bounds3(position, POS_LIMIT as int),
            in_bounds3(normal, DIR_LIMIT as int),
        ensures
            r.position == position,
            r.normal == normal,
            r.up == (Vec3 { x: 0, y: ONE, z: 0 }),
            r.wf(),
    {
        let up = Vec3 { x: 0, y: ONE, z: 0 };
        Camera::new(position, normal, up)
    }

    /// Project one world point to a screen position and a depth stand-in.
    pub fn project(&self, point: Vec3) -> (r: ProjectedVec)
        requires
            self.wf(),
            in_bounds3(point, POS_LIMIT as int),
        ensures
            pv_is(r, self.project_s(point)),
            pv_ok(r),
    {
        let delta = point.sub(&self.position);
        let du = delta.normalize();
        let cr = self.normal.cross(&self.up);
        proof {
            lemma_cross3_in_range(v3(self.normal), v3(self.up), DIR_LIMIT as int);
        }
        let side = cr.normalize();
        let x: i64 = du.dot(&side);
        let y: i64 = du.dot(&self.up);
        let dist: i64 = du.dot(&self.normal);
        proof {
            lemma_dot3_unit_bound(v3(du), v3(side), ONE as int);
            lemma_dot3_unit_bound(v3(du), v3(self.up), DIR_LIMIT as int);
            lemma_dot3_unit_bound(v3(du), v3(self.normal), DIR_LIMIT as int);
        }
        ProjectedVec { position: Vec2 { x, y }, distance: dist }
    }

    /// Move the camera by a world-space offset.
    pub fn translate(&mut self, delta: Vec3)
        requires
            -POS_LIMIT <= old(self).position.x + delta.x <= POS_LIMIT,
            -POS_LIMIT <= old(self).position.y + delta.y <= POS_LIMIT,
            -POS_LIMIT <= old(self).position.z + delta.z <= POS_LIMIT,
            in_bounds3(old(self).position, POS_LIMIT as int),
            in_bounds3(delta, POS_LIMIT as int),
        ensures
            final(self).position.x == old(self).position.x + delta.x,
            final(self).position.y == old(self).position.y + delta.y,
            final(self).position.z == old(self).position.z + delta.z,
            final(self).normal == old(self).normal,
            final(self).up == old(self).up,
    {
        self.position = self.position.add(&delta);
    }

    /// Dolly and strafe: move along the view direction by `delta.x` and
    /// along the derived side direction by `delta.y`.
    pub fn plane_translate(&mut self, delta: Vec2)
        requires
            old(self).wf(),
            in_bounds3(old(self).position, (POS_LIMIT / 2) as int),
            -DIR_LIMIT <= delta.x <= DIR_LIMIT,
            -DIR_LIMIT <= delta.y <= DIR_LIMIT,
        ensures
            final(self).position.x == old(self).position.x + tdiv(
                old(self).normal.x * delta.x,
                ONE as int,
            ) + tdiv(old(self).side_s().0 * delta.y, ONE as int),
            final(self).position.y == old(self).position.y + tdiv(
                old(self).normal.y * delta.x,
                ONE as int,
            ) + tdiv(old(self).side_s().1 * delta.y, ONE as int),
            final(self).position.z == old(self).position.z + tdiv(
                old(self).normal.z * delta.x,
                ONE as int,
            ) + tdiv(old(self).side_s().2 * delta.y, ONE as int),
            final(self).normal == old(self).normal,
            final(self).up == old(self).up,
            final(self).wf(),
    {
        let cr = self.normal.cross(&self.up);
        proof {
            lemma_cross3_in_range(v3(self.normal), v3(self.up), DIR_LIMIT as int);
        }
        let side = cr.normalize();
        proof {
            lemma_unit3_bounds(v3(cr));
        }
        let along = self.normal.scale(delta.x);
        let across = side.scale(delta.y);
        proof {
            lemma_mul_abs_bound(self.normal.x as int, delta.x as int, DIR_LIMIT as int, DIR_LIMIT as int);
            lemma_mul_abs_bound(self.normal.y as int, delta.x as int, DIR_LIMIT as int, DIR_LIMIT as int);
            lemma_mul_abs_bound(self.normal.z as int, delta.x as int, DIR_LIMIT as int, DIR_LIMIT as int);
            lemma_tdiv_bound(self.normal.x * delta.x, ONE as int, 0x100_0000);
            lemma_tdiv_bound(self.normal.y * delta.x, ONE as int, 0x100_0000);
            lemma_tdiv_bound(self.normal.z * delta.x, ONE as int, 0x100_0000);
            lemma_mul_abs_bound(side.x as int, delta.y as int, ONE as int, DIR_LIMIT as int);
            lemma_mul_abs_bound(side.y as int, delta.y as int, ONE as int, DIR_LIMIT as int);
            lemma_mul_abs_bound(side.z as int, delta.y as int, ONE as int, DIR_LIMIT as int);
            lemma_tdiv_bound(side.x * delta.y, ONE as int, DIR_LIMIT as int);
            lemma_tdiv_bound(side.y * delta.y, ONE as int, DIR_LIMIT as int);
            lemma_tdiv_bound(side.z * delta.y, ONE as int, DIR_LIMIT as int);
        }
        let shift = along.add(&across);
        self.position = self.position.add(&shift);
    }
}

/// Rotation of `v` about the unit axis `k` by the angle whose cosine and
/// sine are `c` and `s` (all fixed-point): the axis-angle formula
/// `v * c + (k x v) * s + k * (k . v) * (1 - c)`.
pub open spec fn rotate3_s(k: (int, int, int), c: int, s: int, v: (int, int, int)) -> (
    int,
    int,
    int,
) {
    let kxv = cross3_s(k, v);
    let f = tdiv(dot3_s(k, v) * (ONE - c), ONE as int);
    (
        tdiv(v.0 * c, ONE as int) + tdiv(kxv.0 * s, ONE as int) + tdiv(k.0 * f, ONE as int),
        tdiv(v.1 * c, ONE as int) + tdiv(kxv.1 * s, ONE as int) + tdiv(k.1 * f, ONE as int),
        tdiv(v.2 * c, ONE as int) + tdiv(kxv.2 * s, ONE as int) + tdiv(k.2 * f, ONE as int),
    )
}

impl Camera {
    /// Yaw both stored directions about the normalized up axis. The caller
    /// hands the fixed-point cosine and sine of the angle; the rotation
    /// itself is the verified axis-angle formula.
    pub fn rotate(&mut self, cos_a: i64, sin_a: i64)
        requires
            old(self).wf(),
            -ONE <= cos_a <= ONE,
            -ONE <= sin_a <= ONE,
        ensures
            final(self).position == old(self).position,
            v3(final(self).normal) == rotate3_s(
                unit3_s(v3(old(self).up)),
                cos_a as int,
                sin_a as int,
                v3(old(self).normal),
            ),
            v3(final(self).up) == rotate3_s(
                unit3_s(v3(old(self).up)),
                cos_a as int,
                sin_a as int,
                v3(old(self).up),
            ),
    {
        let k = self.up.normalize();
        let new_normal = rotate_about(&k, cos_a, sin_a, &self.normal);
        let new_up = rotate_about(&k, cos_a, sin_a, &self.up);
        self.normal = new_normal;
        self.up = new_up;
    }
}

/// One application of the axis-angle formula.
fn rotate_about(k: &Vec3, c: i64, s: i64, v: &Vec3) -> (r: Vec3)
    requires
        in_bounds3(*k, ONE as int),
        -ONE <= c <= ONE,
        -ONE <= s <= ONE,
        in_bounds3(*v, DIR_LIMIT as int),
    ensures
        v3(r) == rotate3_s(v3(*k), c as int, s as int, v3(*v)),
{
    let kxv = k.cross(v);
    proof {
        lemma_cross3_in_range(v3(*k), v3(*v), DIR_LIMIT as int);
    }
    let kdv = k.dot(v);
    proof {
        lemma_dot3_unit_bound(v3(*k), v3(*v), DIR_LIMIT as int);
        lemma_mul_abs_bound(kdv as int, (ONE - c) as int, 3 * DIR_LIMIT, 2 * ONE as int);
        lemma_tdiv_bound(kdv * (ONE - c), ONE as int, 0x80_0000);
    }
    let f = div_i64(mul_i64(kdv, ONE - c), ONE);
    proof {
        lemma_mul_abs_bound(v.x as int, c as int, DIR_LIMIT as int, ONE as int);
        lemma_mul_abs_bound(v.y as int, c as int, DIR_LIMIT as int, ONE as int);
        lemma_mul_abs_bound(v.z as int, c as int, DIR_LIMIT as int, ONE as int);
        lemma_tdiv_bound(v.x * c, ONE as int, DIR_LIMIT as int);
        lemma_tdiv_bound(v.y * c, ONE as int, DIR_LIMIT as int);
        lemma_tdiv_bound(v.z * c, ONE as int, DIR_LIMIT as int);
        lemma_mul_abs_bound(kxv.x as int, s as int, 0x2000_0000, ONE as int);
        lemma_mul_abs_bound(kxv.y as int, s as int, 0x2000_0000, ONE as int);
        lemma_mul_abs_bound(kxv.z as int, s as int, 0x2000_0000, ONE as int);
        lemma_tdiv_bound(kxv.x * s, ONE as int, 0x2000_0000);
        lemma_tdiv_bound(kxv.y * s, ONE as int, 0x2000_0000);
        lemma_tdiv_bound(kxv.z * s, ONE as int, 0x2000_0000);
        lemma_mul_abs_bound(k.x as int, f as int, ONE as int, 0x80_0000);
        lemma_mul_abs_bound(k.y as int, f as int, ONE as int, 0x80_0000);
        lemma_mul_abs_bound(k.z as int, f as int, ONE as int, 0x80_0000);
        lemma_tdiv_bound(k.x * f, ONE as int, 0x80_0000);
        lemma_tdiv_bound(k.y * f, ONE as int, 0x80_0000);
        lemma_tdiv_bound(k.z * f, ONE as int, 0x80_0000);
    }
    Vec3 {
        x: div_i64(mul_i64(v.x, c), ONE) + div_i64(mul_i64(kxv.x, s), ONE) + div_i64(
            mul_i64(k.x, f),
            ONE,
        ),
        y: div_i64(mul_i64(v.y, c), ONE) + div_i64(mul_i64(kxv.y, s), ONE) + div_i64(
            mul_i64(k.y, f),
            ONE,
        ),
        z: div_i64(mul_i64(v.z, c), ONE) + div_i64(mul_i64(kxv.z, s), ONE) + div_i64(
            mul_i64(k.z, f),
            ONE,
        ),
    }
}

/// Every component of the fixed-point cross product of two `b`-bounded
/// vectors is bounded by `tdiv(2 * b * b, ONE)`-style limits; stated with
/// the concrete limit the camera needs.
pub proof fn lemma_cross3_in_range(a: (int, int, int), b: (int, int, int), bound: int)
    requires
        0 <= bound <= 0x10_0000,
        -bound <= a.0 <= bound,
        -bound <= a.1 <= bound,
        -bound <= a.2 <= bound,
        -bound <= b.0 <= bound,
        -bound <= b.1 <= bound,
        -bound <= b.2 <= bound,
    ensures
        -0x2000_0000 <= cross3_s(a, b).0 <= 0x2000_0000,
        -0x2000_0000 <= cross3_s(a, b).1 <= 0x2000_0000,
        -0x2000_0000 <= cross3_s(a, b).2 <= 0x2000_0000,
{
    lemma_mul_abs_bound(a.1, b.2, bound, bound);
    lemma_mul_abs_bound(a.2, b.1, bound, bound);
    lemma_mul_abs_bound(a.2, b.0, bound, bound);
    lemma_mul_abs_bound(a.0, b.2, bound, bound);
    lemma_mul_abs_bound(a.0, b.1, bound, bound);
    lemma_mul_abs_bound(a.1, b.0, bound, bound);
    assert(bound * bound <= 0x10_0000 * 0x10_0000) by (nonlinear_arith)
        requires
            0 <= bound <= 0x10_0000,
    ;
    lemma_tdiv_bound(a.1 * b.2 - a.2 * b.1, ONE as int, 0x2000_0000);
    lemma_tdiv_bound(a.2 * b.0 - a.0 * b.2, ONE as int, 0x2000_0000);
    lemma_tdiv_bound(a.0 * b.1 - a.1 * b.0, ONE as int, 0x2000_0000);
}

/// The fixed-point dot product of a unit-bounded vector with a `bb`-bounded
/// vector is bounded by `3 * bb`.
pub proof fn lemma_dot3_unit_bound(a: (int, int, int), b: (int, int, int), bb: int)
    requires
        0 <= bb,
        -(ONE as int) <= a.0 <= ONE as int,
        -(ONE as int) <= a.1 <= ONE as int,
        -(ONE as int) <= a.2 <= ONE as int,
        -bb <= b.0 <= bb,
        -bb <= b.1 <= bb,
        -bb <= b.2 <= bb,
    ensures
        -3 * bb <= dot3_s(a, b) <= 3 * bb,
{
    lemma_mul_abs_bound(a.0, b.0, ONE as int, bb);
    lemma_mul_abs_bound(a.1, b.1, ONE as int, bb);
    lemma_mul_abs_bound(a.2, b.2, ONE as int, bb);
    assert(ONE * (3 * bb) == 3 * (ONE * bb)) by (nonlinear_arith);
    lemma_tdiv_bound(a.0 * b.0 + a.1 * b.1 + a.2 * b.2, ONE as int, 3 * bb);
}

} // verus!
