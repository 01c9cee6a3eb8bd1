//! Shape builders: world triangles for common figures, oriented by a
//! normal direction.

use vstd::prelude::*;
use crate::fixed::ONE;
use crate::fixed::tdiv;
use crate::fixed::sqrt_floor;
use crate::fixed::isqrt;
use crate::fixed::lemma_mul_abs_bound;
use crate::fixed::lemma_tdiv_bound;
use crate::vectors::Vec3;
use crate::vectors::in_bounds3;
use crate::vectors::v3;
use crate::vectors::unit3_s;
use crate::vectors::cross3_s;
use crate::vectors::lemma_unit3_bounds;
use crate::camera::POS_LIMIT;
use crate::camera::lemma_cross3_in_range;
use crate::objects::Tri;
use crate::objects::tri_in_bounds;

verus! {

/// The tangent and bitangent frame an equilateral triangle is built on:
/// the normalized normal crossed with the world z axis, the bitangent
/// perpendicular to both, and both flipped when the normal points toward
/// negative z.
pub open spec fn eq_frame_s(normal: Vec3) -> ((int, int, int), (int, int, int)) {
    let n = unit3_s(v3(normal));
    let t0 = unit3_s(cross3_s(n, (0, 0, ONE as int)));
    let b0 = unit3_s(cross3_s(t0, n));
    if n.2 < 0 {
        ((-t0.0, -t0.1, -t0.2), (-b0.0, -b0.1, -b0.2))
    } else {
        (t0, b0)
    }
}

/// The triangle's half-height: `sqrt(3) / 2` in fixed point.
pub open spec fn eq_height_s() -> int {
    (sqrt_floor((3 * ONE * ONE) as nat) as int) / 2
}

/// An equilateral triangle of unit radius around `center`, facing `normal`.
pub fn equilateral_triangle(center: Vec3, normal: Vec3) -> (r: Tri<Vec3>)
    requires
        in_bounds3(center, POS_LIMIT - 3 * ONE),
        in_bounds3(normal, 0x2000_0000),
    ensures
        r.vertices[0].x == center.x + eq_frame_s(normal).0.0 + tdiv(eq_frame_s(normal).1.0 * eq_height_s(), ONE as int),
        r.vertices[0].y == center.y + eq_frame_s(normal).0.1 + tdiv(eq_frame_s(normal).1.1 * eq_height_s(), ONE as int),
        r.vertices[0].z == center.z + eq_frame_s(normal).0.2 + tdiv(eq_frame_s(normal).1.2 * eq_height_s(), ONE as int),
        r.vertices[1].x == center.x + eq_frame_s(normal).0.0 - tdiv(eq_frame_s(normal).1.0 * eq_height_s(), ONE as int),
        r.vertices[1].y == center.y + eq_frame_s(normal).0.1 - tdiv(eq_frame_s(normal).1.1 * eq_height_s(), ONE as int),
        r.vertices[1].z == center.z + eq_frame_s(normal).0.2 - tdiv(eq_frame_s(normal).1.2 * eq_height_s(), ONE as int),
        r.vertices[2].x == center.x - eq_frame_s(normal).0.0,
        r.vertices[2].y == center.y - eq_frame_s(normal).0.1,
        r.vertices[2].z == center.z - eq_frame_s(normal).0.2,
        tri_in_bounds(r),
{
    let n = normal.normalize();
    let zaxis = Vec3 { x: 0, y: 0, z: ONE };
    let cr0 = n.cross(&zaxis);
    proof {
        lemma_cross3_in_range(v3(n), v3(zaxis), ONE as int);
    }
    let t0 = cr0.normalize();
    let cr1 = t0.cross(&n);
    proof {
        lemma_cross3_in_range(v3(t0), v3(n), ONE as int);
    }
    let b0 = cr1.normalize();
    let flip = n.z < 0;
    let t = if flip {
        Vec3 { x: -t0.x, y: -t0.y, z: -t0.z }
    } else {
        t0
    };
    let b = if flip {
        Vec3 { x: -b0.x, y: -b0.y, z: -b0.z }
    } else {
        b0
    };
    let h3: u64 = isqrt((3 * ONE * ONE) as u64);
    proof {
        assert(h3 <= 0x4_0000) by (nonlinear_arith)
            requires
                h3 * h3 <= 3 * ONE * ONE,
        ;
    }
    let h: i64 = (h3 / 2) as i64;
    let bh = b.scale(h);
    proof {
        lemma_mul_abs_bound(b.x as int, h as int, ONE as int, 0x2_0000);
        lemma_mul_abs_bound(b.y as int, h as int, ONE as int, 0x2_0000);
        lemma_mul_abs_bound(b.z as int, h as int, ONE as int, 0x2_0000);
        lemma_tdiv_bound(b.x * h, ONE as int, 0x2_0000);
        lemma_tdiv_bound(b.y * h, ONE as int, 0x2_0000);
        lemma_tdiv_bound(b.z * h, ONE as int, 0x2_0000);
    }
    let v0 = center.add(&t).add(&bh);
    let v1 = center.add(&t).sub(&bh);
    let v2 = center.sub(&t);
    Tri { vertices: [v0, v1, v2] }
}

/// The side and up frame a square is built on: the normalized up, and the
/// normalized cross product of the normalized normal and up.
pub open spec fn square_frame_s(normal: Vec3, up: Vec3) -> ((int, int, int), (int, int, int)) {
    let n = unit3_s(v3(normal));
    let u = unit3_s(v3(up));
    (unit3_s(cross3_s(n, u)), u)
}

/// A unit-radius square around `center`, facing `normal` with `up` along
/// its top edge, as two triangles sharing a diagonal.
pub fn square(center: Vec3, normal: Vec3, up: Vec3) -> (r: Vec<Tri<Vec3>>)
    requires
        in_bounds3(center, POS_LIMIT - 3 * ONE),
        in_bounds3(normal, 0x2000_0000),
        in_bounds3(up, 0x2000_0000),
    ensures
        r@.len() == 2,
        r@[0].vertices[0].x == center.x + square_frame_s(normal, up).0.0 + square_frame_s(normal, up).1.0,
        r@[0].vertices[0].y == center.y + square_frame_s(normal, up).0.1 + square_frame_s(normal, up).1.1,
        r@[0].vertices[0].z == center.z + square_frame_s(normal, up).0.2 + square_frame_s(normal, up).1.2,
        r@[0].vertices[1].x == center.x + square_frame_s(normal, up).0.0 - square_frame_s(normal, up).1.0,
        r@[0].vertices[1].y == center.y + square_frame_s(normal, up).0.1 - square_frame_s(normal, up).1.1,
        r@[0].vertices[1].z == center.z + square_frame_s(normal, up).0.2 - square_frame_s(normal, up).1.2,
        r@[0].vertices[2].x == center.x - square_frame_s(normal, up).0.0 - square_frame_s(normal, up).1.0,
        r@[0].vertices[2].y == center.y - square_frame_s(normal, up).0.1 - square_frame_s(normal, up).1.1,
        r@[0].vertices[2].z == center.z - square_frame_s(normal, up).0.2 - square_frame_s(normal, up).1.2,
        r@[1].vertices[0].x == center.x + square_frame_s(normal, up).0.0 + square_frame_s(normal, up).1.0,
        r@[1].vertices[0].y == center.y + square_frame_s(normal, up).0.1 + square_frame_s(normal, up).1.1,
        r@[1].vertices[0].z == center.z + square_frame_s(normal, up).0.2 + square_frame_s(normal, up).1.2,
        r@[1].vertices[1].x == center.x - square_frame_s(normal, up).0.0 - square_frame_s(normal, up).1.0,
        r@[1].vertices[1].y == center.y - square_frame_s(normal, up).0.1 - square_frame_s(normal, up).1.1,
        r@[1].vertices[1].z == center.z - square_frame_s(normal, up).0.2 - square_frame_s(normal, up).1.2,
        r@[1].vertices[2].x == center.x - square_frame_s(normal, up).0.0 + square_frame_s(normal, up).1.0,
        r@[1].vertices[2].y == center.y - square_frame_s(normal, up).0.1 + square_frame_s(normal, up).1.1,
        r@[1].vertices[2].z == center.z - square_frame_s(normal, up).0.2 + square_frame_s(normal, up).1.2,
        tri_in_bounds(r@[0]),
        tri_in_bounds(r@[1]),
{
    let n = normal.normalize();
    let u = up.normalize();
    let cr = n.cross(&u);
    proof {
        lemma_cross3_in_range(v3(n), v3(u), ONE as int);
    }
    let sd = cr.normalize();
    let v0 = center.add(&sd).add(&u);
    let v1 = center.add(&sd).sub(&u);
    let v2 = center.sub(&sd).sub(&u);
    let v3q = center.sub(&sd).add(&u);
    let r = vec![Tri { vertices: [v0, v1, v2] }, Tri { vertices: [v0, v2, v3q] }];
    proof {
        assert(r@.len() == 2);
    }
    r
}

} // verus!
