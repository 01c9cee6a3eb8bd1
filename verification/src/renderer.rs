//! The rasterizer: signed-distance coverage of projected triangles, the
//! squared-distance depth stand-in, and the per-pixel compositing sweep.

use vstd::prelude::*;
use crate::fixed::ONE;
use crate::fixed::tdiv;
use crate::fixed::sgn;
use crate::fixed::sqrt_floor;
use crate::fixed::mul_i64;
use crate::fixed::div_i64;
use crate::fixed::div_i128;
use crate::fixed::sgn_i64;
use crate::fixed::isqrt;
use crate::fixed::lemma_mul_abs_bound;
use crate::fixed::lemma_tdiv_bound;
use crate::vectors::Vec2;
use crate::vectors::in_bounds2;
use crate::camera::ProjectedVec;
use crate::camera::PV_LIMIT;
use crate::objects::Color;
use crate::objects::Tri;
use crate::objects::tri_p_ok;
use crate::scene::Viewport;

verus! {

/// 2-D cross product (the perpendicular dot product).
pub open spec fn perp_s(ax: int, ay: int, bx: int, by: int) -> int {
    ax * by - ay * bx
}

/// 2-D dot product, unscaled.
pub open spec fn dot2_s(ax: int, ay: int, bx: int, by: int) -> int {
    ax * bx + ay * by
}

/// Squared norm of a 2-D vector, unscaled.
pub open spec fn nsq2_s(ax: int, ay: int) -> int {
    ax * ax + ay * ay
}

/// The smaller of two values.
pub open spec fn min2_s(a: int, b: int) -> int {
    if a <= b {
        a
    } else {
        b
    }
}

/// Squared fixed-point distance from a point to the segment that starts at
/// the point's base and runs along `e`; `d` is the vector from the segment's
/// start to the point. The projection factor is clamped to the segment, so
/// outside the segment's span the distance is to the nearer endpoint. A
/// zero-length segment is its own endpoint.
pub open spec fn seg_dist_sq_s(dx: int, dy: int, ex: int, ey: int) -> int {
    let nsq = nsq2_s(ex, ey);
    let d = dot2_s(dx, dy, ex, ey);
    if nsq == 0 {
        nsq2_s(dx, dy)
    } else if d <= 0 {
        nsq2_s(dx, dy)
    } else if d >= nsq {
        nsq2_s(dx - ex, dy - ey)
    } else {
        tdiv(perp_s(dx, dy, ex, ey) * perp_s(dx, dy, ex, ey), nsq)
    }
}

/// The signed distance from a screen point to a projected triangle:
/// the distance to the nearest edge segment, negative when the point is
/// inside (the inverted convention the shading keys off), positive outside,
/// zero exactly on the boundary. The handedness corrector makes clockwise
/// and counter-clockwise windings agree.
/// The least squared distance from the point to the triangle's three edge
/// segments: the magnitude part of the signed distance, squared.
pub open spec fn min_seg_dist_sq_s(t: Tri<ProjectedVec>, px: int, py: int) -> int {
    let d0x = px - t.vertices[0].position.x;
    let d0y = py - t.vertices[0].position.y;
    let d1x = px - t.vertices[1].position.x;
    let d1y = py - t.vertices[1].position.y;
    let d2x = px - t.vertices[2].position.x;
    let d2y = py - t.vertices[2].position.y;
    let e0x = t.vertices[1].position.x - t.vertices[0].position.x;
    let e0y = t.vertices[1].position.y - t.vertices[0].position.y;
    let e1x = t.vertices[2].position.x - t.vertices[1].position.x;
    let e1y = t.vertices[2].position.y - t.vertices[1].position.y;
    let e2x = t.vertices[0].position.x - t.vertices[2].position.x;
    let e2y = t.vertices[0].position.y - t.vertices[2].position.y;
    min2_s(
        min2_s(seg_dist_sq_s(d0x, d0y, e0x, e0y), seg_dist_sq_s(d1x, d1y, e1x, e1y)),
        seg_dist_sq_s(d2x, d2y, e2x, e2y),
    )
}

/// The least of the three edge cross products, each multiplied by the
/// handedness corrector `sgn(perp(e0, e2))`: positive when the point is
/// strictly inside whatever the winding order, negative when it is strictly
/// outside some edge, zero on the boundary or for a degenerate triangle.
pub open spec fn min_perp_h_s(t: Tri<ProjectedVec>, px: int, py: int) -> int {
    let d0x = px - t.vertices[0].position.x;
    let d0y = py - t.vertices[0].position.y;
    let d1x = px - t.vertices[1].position.x;
    let d1y = py - t.vertices[1].position.y;
    let d2x = px - t.vertices[2].position.x;
    let d2y = py - t.vertices[2].position.y;
    let e0x = t.vertices[1].position.x - t.vertices[0].position.x;
    let e0y = t.vertices[1].position.y - t.vertices[0].position.y;
    let e1x = t.vertices[2].position.x - t.vertices[1].position.x;
    let e1y = t.vertices[2].position.y - t.vertices[1].position.y;
    let e2x = t.vertices[0].position.x - t.vertices[2].position.x;
    let e2y = t.vertices[0].position.y - t.vertices[2].position.y;
    let h = sgn(perp_s(e0x, e0y, e2x, e2y));
    min2_s(
        min2_s(perp_s(d0x, d0y, e0x, e0y) * h, perp_s(d1x, d1y, e1x, e1y) * h),
        perp_s(d2x, d2y, e2x, e2y) * h,
    )
}

pub open spec fn signed_distance_s(t: Tri<ProjectedVec>, px: int, py: int) -> int {
    -(sqrt_floor(min_seg_dist_sq_s(t, px, py) as nat) as int * sgn(min_perp_h_s(t, px, py)))
}

/// The depth stand-in at a screen point: the per-vertex depths averaged
/// with the squared distances from the point to the projected vertices as
/// weights. When all three weights are zero the depth is zero.
pub open spec fn projection_distance_s(t: Tri<ProjectedVec>, px: int, py: int) -> int {
    let w0 = nsq2_s(px - t.vertices[0].position.x, py - t.vertices[0].position.y);
    let w1 = nsq2_s(px - t.vertices[1].position.x, py - t.vertices[1].position.y);
    let w2 = nsq2_s(px - t.vertices[2].position.x, py - t.vertices[2].position.y);
    let total = w0 + w1 + w2;
    if total == 0 {
        0
    } else {
        tdiv(
            w0 * t.vertices[0].distance + w1 * t.vertices[1].distance + w2 * t.vertices[
                2
            ].distance,
            total,
        )
    }
}

/// Lagrange's identity in two dimensions: the squared 2-D cross product is
/// the product of the squared norms minus the squared dot product.
proof fn lemma_lagrange(dx: int, dy: int, ex: int, ey: int)
    ensures
        (dx * ey - dy * ex) * (dx * ey - dy * ex) == (dx * dx + dy * dy) * (ex * ex + ey * ey) - (
        dx * ex + dy * ey) * (dx * ex + dy * ey),
{
    let xy = dx * ey;
    let yx = dy * ex;
    let xx = dx * ex;
    let yy = dy * ey;
    assert((xy - yx) * (xy - yx) == xy * xy - 2 * (xy * yx) + yx * yx) by (nonlinear_arith);
    assert((xx + yy) * (xx + yy) == xx * xx + 2 * (xx * yy) + yy * yy) by (nonlinear_arith);
    assert((dx * dx + dy * dy) * (ex * ex + ey * ey) == (dx * dx) * (ex * ex) + (dx * dx) * (ey
        * ey) + (dy * dy) * (ex * ex) + (dy * dy) * (ey * ey)) by (nonlinear_arith);
    assert((dx * dx) * (ex * ex) == xx * xx) by (nonlinear_arith)
        requires
            xx == dx * ex,
    ;
    assert((dx * dx) * (ey * ey) == xy * xy) by (nonlinear_arith)
        requires
            xy == dx * ey,
    ;
    assert((dy * dy) * (ex * ex) == yx * yx) by (nonlinear_arith)
        requires
            yx == dy * ex,
    ;
    assert((dy * dy) * (ey * ey) == yy * yy) by (nonlinear_arith)
        requires
            yy == dy * ey,
    ;
    assert(xy * yx == xx * yy) by (nonlinear_arith)
        requires
            xy == dx * ey,
            yx == dy * ex,
            xx == dx * ex,
            yy == dy * ey,
    ;
}

/// A square is never negative.
proof fn lemma_square_nonneg(a: int)
    by (nonlinear_arith)
    ensures
        a * a >= 0,
{
}

/// One executable segment-distance step; matches `seg_dist_sq_s` exactly.
fn seg_dist_sq(dx: i64, dy: i64, ex: i64, ey: i64) -> (r: i64)
    requires
        -0x800_0000 <= dx <= 0x800_0000,
        -0x800_0000 <= dy <= 0x800_0000,
        -0x800_0000 <= ex <= 0x800_0000,
        -0x800_0000 <= ey <= 0x800_0000,
    ensures
        r == seg_dist_sq_s(dx as int, dy as int, ex as int, ey as int),
        0 <= r <= 0x200_0000_0000_0000,
{
    proof {
        lemma_mul_abs_bound(ex as int, ex as int, 0x800_0000, 0x800_0000);
        lemma_mul_abs_bound(ey as int, ey as int, 0x800_0000, 0x800_0000);
        lemma_mul_abs_bound(dx as int, dx as int, 0x800_0000, 0x800_0000);
        lemma_mul_abs_bound(dy as int, dy as int, 0x800_0000, 0x800_0000);
        lemma_mul_abs_bound(dx as int, ex as int, 0x800_0000, 0x800_0000);
        lemma_mul_abs_bound(dy as int, ey as int, 0x800_0000, 0x800_0000);
        lemma_square_nonneg(ex as int);
        lemma_square_nonneg(ey as int);
        lemma_square_nonneg(dx as int);
        lemma_square_nonneg(dy as int);
    }
    let nsq: i64 = mul_i64(ex, ex) + mul_i64(ey, ey);
    let dd: i64 = mul_i64(dx, dx) + mul_i64(dy, dy);
    let dt: i64 = mul_i64(dx, ex) + mul_i64(dy, ey);
    if nsq == 0 {
        dd
    } else if dt <= 0 {
        dd
    } else if dt >= nsq {
        let fx: i64 = dx - ex;
        let fy: i64 = dy - ey;
        proof {
            lemma_mul_abs_bound(fx as int, fx as int, 0x1000_0000, 0x1000_0000);
            lemma_mul_abs_bound(fy as int, fy as int, 0x1000_0000, 0x1000_0000);
            lemma_square_nonneg(fx as int);
            lemma_square_nonneg(fy as int);
        }
        mul_i64(fx, fx) + mul_i64(fy, fy)
    } else {
        proof {
            lemma_mul_abs_bound(dx as int, ey as int, 0x800_0000, 0x800_0000);
            lemma_mul_abs_bound(dy as int, ex as int, 0x800_0000, 0x800_0000);
        }
        let pp: i64 = mul_i64(dx, ey) - mul_i64(dy, ex);
        proof {
            lemma_square_nonneg(pp as int);
            lemma_lagrange(dx as int, dy as int, ex as int, ey as int);
            assert(pp * pp == dd * nsq - dt * dt);
            lemma_square_nonneg(dt as int);
            assert(pp * pp <= dd * nsq);
            lemma_tdiv_bound(pp * pp, nsq as int, dd as int);
            lemma_mul_abs_bound(pp as int, pp as int, 0x80_0000_0000_0000, 0x80_0000_0000_0000);
            vstd::arithmetic::div_mod::lemma_div_pos_is_pos(pp * pp, nsq as int);
        }
        let pp128: i128 = pp as i128;
        let q: i128 = div_i128(pp128 * pp128, nsq as i128);
        q as i64
    }
}

/// The smaller of two machine integers.
fn min2(a: i64, b: i64) -> (r: i64)
    ensures
        r == min2_s(a as int, b as int),
{
    if a <= b {
        a
    } else {
        b
    }
}

impl Tri<ProjectedVec> {
    /// Signed distance from a screen point to this projected triangle;
    /// negative means the point is inside.
    pub fn signed_distance(&self, point: Vec2) -> (r: i64)
        requires
            tri_p_ok(*self),
            in_bounds2(point, PV_LIMIT as int),
        ensures
            r == signed_distance_s(*self, point.x as int, point.y as int),
            -0x2000_0000 <= r <= 0x2000_0000,
    {
        let d0x: i64 = point.x - self.vertices[0].position.x;
        let d0y: i64 = point.y - self.vertices[0].position.y;
        let d1x: i64 = point.x - self.vertices[1].position.x;
        let d1y: i64 = point.y - self.vertices[1].position.y;
        let d2x: i64 = point.x - self.vertices[2].position.x;
        let d2y: i64 = point.y - self.vertices[2].position.y;
        let e0x: i64 = self.vertices[1].position.x - self.vertices[0].position.x;
        let e0y: i64 = self.vertices[1].position.y - self.vertices[0].position.y;
        let e1x: i64 = self.vertices[2].position.x - self.vertices[1].position.x;
        let e1y: i64 = self.vertices[2].position.y - self.vertices[1].position.y;
        let e2x: i64 = self.vertices[0].position.x - self.vertices[2].position.x;
        let e2y: i64 = self.vertices[0].position.y - self.vertices[2].position.y;
        let ds0: i64 = seg_dist_sq(d0x, d0y, e0x, e0y);
        let ds1: i64 = seg_dist_sq(d1x, d1y, e1x, e1y);
        let ds2: i64 = seg_dist_sq(d2x, d2y, e2x, e2y);
        let minsq: i64 = min2(min2(ds0, ds1), ds2);
        let mind_u: u64 = isqrt(minsq as u64);
        proof {
            assert(mind_u <= 0x2000_0000) by (nonlinear_arith)
                requires
                    mind_u * mind_u <= 0x200_0000_0000_0000,
            ;
            lemma_mul_abs_bound(e0x as int, e2y as int, 0x800_0000, 0x800_0000);
            lemma_mul_abs_bound(e0y as int, e2x as int, 0x800_0000, 0x800_0000);
            lemma_mul_abs_bound(d0x as int, e0y as int, 0x800_0000, 0x800_0000);
            lemma_mul_abs_bound(d0y as int, e0x as int, 0x800_0000, 0x800_0000);
            lemma_mul_abs_bound(d1x as int, e1y as int, 0x800_0000, 0x800_0000);
            lemma_mul_abs_bound(d1y as int, e1x as int, 0x800_0000, 0x800_0000);
            lemma_mul_abs_bound(d2x as int, e2y as int, 0x800_0000, 0x800_0000);
            lemma_mul_abs_bound(d2y as int, e2x as int, 0x800_0000, 0x800_0000);
        }
        let mind: i64 = mind_u as i64;
        let h: i64 = sgn_i64(mul_i64(e0x, e2y) - mul_i64(e0y, e2x));
        let p0: i64 = mul_i64(d0x, e0y) - mul_i64(d0y, e0x);
        let p1: i64 = mul_i64(d1x, e1y) - mul_i64(d1y, e1x);
        let p2: i64 = mul_i64(d2x, e2y) - mul_i64(d2y, e2x);
        proof {
            lemma_mul_abs_bound(p0 as int, h as int, 0x100_0000_0000_0000, 1);
            lemma_mul_abs_bound(p1 as int, h as int, 0x100_0000_0000_0000, 1);
            lemma_mul_abs_bound(p2 as int, h as int, 0x100_0000_0000_0000, 1);
        }
        let m: i64 = min2(min2(mul_i64(p0, h), mul_i64(p1, h)), mul_i64(p2, h));
        let sign: i64 = sgn_i64(m);
        proof {
            lemma_mul_abs_bound(mind as int, sign as int, 0x2000_0000, 1);
        }
        -mul_i64(mind, sign)
    }

    /// Depth stand-in at a screen point; negative means behind the camera.
    pub fn projection_distance(&self, point: Vec2) -> (r: i64)
        requires
            tri_p_ok(*self),
            in_bounds2(point, PV_LIMIT as int),
        ensures
            r == projection_distance_s(*self, point.x as int, point.y as int),
            -PV_LIMIT <= r <= PV_LIMIT,
    {
        let v0x: i64 = point.x - self.vertices[0].position.x;
        let v0y: i64 = point.y - self.vertices[0].position.y;
        let v1x: i64 = point.x - self.vertices[1].position.x;
        let v1y: i64 = point.y - self.vertices[1].position.y;
        let v2x: i64 = point.x - self.vertices[2].position.x;
        let v2y: i64 = point.y - self.vertices[2].position.y;
        proof {
            lemma_mul_abs_bound(v0x as int, v0x as int, 0x800_0000, 0x800_0000);
            lemma_mul_abs_bound(v0y as int, v0y as int, 0x800_0000, 0x800_0000);
            lemma_mul_abs_bound(v1x as int, v1x as int, 0x800_0000, 0x800_0000);
            lemma_mul_abs_bound(v1y as int, v1y as int, 0x800_0000, 0x800_0000);
            lemma_mul_abs_bound(v2x as int, v2x as int, 0x800_0000, 0x800_0000);
            lemma_mul_abs_bound(v2y as int, v2y as int, 0x800_0000, 0x800_0000);
            lemma_square_nonneg(v0x as int);
            lemma_square_nonneg(v0y as int);
            lemma_square_nonneg(v1x as int);
            lemma_square_nonneg(v1y as int);
            lemma_square_nonneg(v2x as int);
            lemma_square_nonneg(v2y as int);
        }
        let w0: i64 = mul_i64(v0x, v0x) + mul_i64(v0y, v0y);
        let w1: i64 = mul_i64(v1x, v1x) + mul_i64(v1y, v1y);
        let w2: i64 = mul_i64(v2x, v2x) + mul_i64(v2y, v2y);
        let total: i64 = w0 + w1 + w2;
        if total == 0 {
            0
        } else {
            let d0: i64 = self.vertices[0].distance;
            let d1: i64 = self.vertices[1].distance;
            let d2: i64 = self.vertices[2].distance;
            proof {
                lemma_mul_abs_bound(w0 as int, d0 as int, w0 as int, PV_LIMIT as int);
                lemma_mul_abs_bound(w1 as int, d1 as int, w1 as int, PV_LIMIT as int);
                lemma_mul_abs_bound(w2 as int, d2 as int, w2 as int, PV_LIMIT as int);
                lemma_mul_abs_bound(w0 as int, PV_LIMIT as int, 0x100_0000_0000_0000, PV_LIMIT as int);
                lemma_mul_abs_bound(w1 as int, PV_LIMIT as int, 0x100_0000_0000_0000, PV_LIMIT as int);
                lemma_mul_abs_bound(w2 as int, PV_LIMIT as int, 0x100_0000_0000_0000, PV_LIMIT as int);
                assert(w0 * PV_LIMIT + w1 * PV_LIMIT + w2 * PV_LIMIT == total * PV_LIMIT)
                    by (nonlinear_arith)
                    requires
                        total == w0 + w1 + w2,
                ;
            }
            let num: i128 = (w0 as i128) * (d0 as i128) + (w1 as i128) * (d1 as i128) + (
            w2 as i128) * (d2 as i128);
            proof {
                lemma_tdiv_bound(num as int, total as int, PV_LIMIT as int);
            }
            let q: i128 = div_i128(num, total as i128);
            q as i64
        }
    }
}

/// Whether a projected triangle colors a screen point: it must not be
/// behind the camera there, and the point must be strictly inside it.
pub open spec fn covers_s(t: Tri<ProjectedVec>, px: int, py: int) -> bool {
    &&& projection_distance_s(t, px, py) >= 0
    &&& signed_distance_s(t, px, py) < 0
}

/// The color a covering triangle writes: the signed distance scaled by 5,
/// full green, and the depth stand-in as blue, fully opaque.
pub open spec fn shade_s(t: Tri<ProjectedVec>, px: int, py: int) -> Color {
    Color {
        r: (5 * signed_distance_s(t, px, py)) as i64,
        g: ONE,
        b: projection_distance_s(t, px, py) as i64,
        a: ONE,
    }
}

/// The color of one pixel after sweeping the triangle list in order:
/// the background when nothing covers the point, otherwise the shade of the
/// last covering triangle in the list. There is no depth comparison across
/// triangles; insertion order decides.
pub open spec fn pixel_color_s(
    tris: Seq<Tri<ProjectedVec>>,
    background: Color,
    px: int,
    py: int,
) -> Color
    decreases tris.len(),
{
    if tris.len() == 0 {
        background
    } else if covers_s(tris.last(), px, py) {
        shade_s(tris.last(), px, py)
    } else {
        pixel_color_s(tris.drop_last(), background, px, py)
    }
}

/// The normalized coordinate of pixel index `i` on an axis of `extent`
/// cells: `(i * 2 / extent) - 1`, in fixed point.
pub open spec fn frac_s(i: int, extent: int) -> int {
    tdiv(i * 2 * ONE, extent) - ONE
}

/// Map a pixel index to its normalized coordinate.
fn frac(i: usize, extent: usize) -> (r: i64)
    requires
        0 < extent <= 0x10_0000,
        i < extent,
    ensures
        r == frac_s(i as int, extent as int),
        -ONE <= r <= ONE,
{
    proof {
        assert(i * 2 * ONE <= extent * (2 * ONE)) by (nonlinear_arith)
            requires
                i <= extent,
                0 < ONE,
        ;
        assert(i * 2 * ONE >= 0) by (nonlinear_arith)
            requires
                i >= 0,
                ONE > 0,
        ;
        lemma_tdiv_bound((i * 2 * ONE) as int, extent as int, 2 * ONE as int);
    }
    let scaled: i64 = (i as i64) * 2 * ONE;
    div_i64(scaled, extent as i64) - ONE
}

/// All triangles in the list are within the rasterizer's range.
pub open spec fn tris_ok(tris: Seq<Tri<ProjectedVec>>) -> bool {
    forall|i: int| 0 <= i < tris.len() ==> tri_p_ok(#[trigger] tris[i])
}

/// Rasterize one row of the viewport.
pub fn render_row(
    objects: &Vec<Tri<ProjectedVec>>,
    background: Color,
    viewport: &Viewport,
    y: usize,
) -> (row: Vec<Color>)
    requires
        viewport.wf(),
        tris_ok(objects@),
        y < viewport.height,
    ensures
        row@.len() == viewport.width,
        forall|x: int|
            0 <= x < viewport.width ==> row@[x] == pixel_color_s(
                objects@,
                background,
                frac_s(x, viewport.width as int),
                frac_s(y as int, viewport.height as int),
            ),
{
    let y_fraction: i64 = frac(y, viewport.height);
    let mut row: Vec<Color> = Vec::new();
    let mut x: usize = 0;
    while x < viewport.width
        invariant
            viewport.wf(),
            tris_ok(objects@),
            x <= viewport.width,
            y < viewport.height,
            y_fraction == frac_s(y as int, viewport.height as int),
            -ONE <= y_fraction <= ONE,
            row@.len() == x,
            forall|i: int|
                0 <= i < x ==> row@[i] == pixel_color_s(
                    objects@,
                    background,
                    frac_s(i, viewport.width as int),
                    frac_s(y as int, viewport.height as int),
                ),
        decreases viewport.width - x,
    {
        let x_fraction: i64 = frac(x, viewport.width);
        let point = Vec2 { x: x_fraction, y: y_fraction };
        let mut color: Color = background;
        let mut k: usize = 0;
        while k < objects.len()
            invariant
                tris_ok(objects@),
                k <= objects@.len(),
                in_bounds2(point, PV_LIMIT as int),
                color == pixel_color_s(
                    objects@.take(k as int),
                    background,
                    point.x as int,
                    point.y as int,
                ),
            decreases objects@.len() - k,
        {
            let t = &objects[k];
            let pd: i64 = t.projection_distance(point);
            if pd >= 0 {
                let sd: i64 = t.signed_distance(point);
                if sd < 0 {
                    color = Color::opaque(mul_i64(sd, 5), ONE, pd);
                }
            }
            proof {
                assert(objects@.take(k + 1).drop_last() =~= objects@.take(k as int));
                assert(objects@.take(k + 1).last() == objects@[k as int]);
            }
            k = k + 1;
        }
        proof {
            assert(objects@.take(objects@.len() as int) =~= objects@);
        }
        row.push(color);
        x = x + 1;
    }
    row
}

/// Rasterize the whole viewport: row `y` of the result holds the colors of
/// the pixels whose normalized coordinates are `frac` of their indices, each
/// the background overwritten by every covering triangle in list order.
pub fn render_buffer(
    objects: &Vec<Tri<ProjectedVec>>,
    background: Color,
    viewport: &Viewport,
) -> (buffer: Vec<Vec<Color>>)
    requires
        viewport.wf(),
        tris_ok(objects@),
    ensures
        buffer@.len() == viewport.height,
        forall|y: int| 0 <= y < viewport.height ==> (#[trigger] buffer@[y])@.len() == viewport.width,
        forall|y: int, x: int|
            0 <= y < viewport.height && 0 <= x < viewport.width ==> #[trigger] (buffer@[y]@[x])
                == pixel_color_s(
                objects@,
                background,
                frac_s(x, viewport.width as int),
                frac_s(y, viewport.height as int),
            ),
{
    let mut buffer: Vec<Vec<Color>> = Vec::new();
    let mut y: usize = 0;
    while y < viewport.height
        invariant
            viewport.wf(),
            tris_ok(objects@),
            y <= viewport.height,
            buffer@.len() == y,
            forall|j: int| 0 <= j < y ==> (#[trigger] buffer@[j])@.len() == viewport.width,
            forall|j: int, x: int|
                0 <= j < y && 0 <= x < viewport.width ==> #[trigger] (buffer@[j]@[x])
                    == pixel_color_s(
                    objects@,
                    background,
                    frac_s(x, viewport.width as int),
                    frac_s(j, viewport.height as int),
                ),
        decreases viewport.height - y,
    {
        let row = render_row(objects, background, viewport, y);
        buffer.push(row);
        y = y + 1;
    }
    buffer
}

/// A segment distance is never negative.
proof fn lemma_seg_dist_sq_nonneg(dx: int, dy: int, ex: int, ey: int)
    ensures
        seg_dist_sq_s(dx, dy, ex, ey) >= 0,
{
    lemma_square_nonneg(dx);
    lemma_square_nonneg(dy);
    lemma_square_nonneg(ex);
    lemma_square_nonneg(ey);
    lemma_square_nonneg(dx - ex);
    lemma_square_nonneg(dy - ey);
    let nsq = nsq2_s(ex, ey);
    let dt = dot2_s(dx, dy, ex, ey);
    if nsq != 0 && 0 < dt < nsq {
        lemma_square_nonneg(perp_s(dx, dy, ex, ey));
        vstd::arithmetic::div_mod::lemma_div_pos_is_pos(
            perp_s(dx, dy, ex, ey) * perp_s(dx, dy, ex, ey),
            nsq,
        );
    }
}

/// The least segment distance of a triangle is never negative.
pub proof fn lemma_min_seg_dist_sq_nonneg(t: Tri<ProjectedVec>, px: int, py: int)
    ensures
        min_seg_dist_sq_s(t, px, py) >= 0,
{
    let d0x = px - t.vertices[0].position.x;
    let d0y = py - t.vertices[0].position.y;
    let d1x = px - t.vertices[1].position.x;
    let d1y = py - t.vertices[1].position.y;
    let d2x = px - t.vertices[2].position.x;
    let d2y = py - t.vertices[2].position.y;
    let e0x = t.vertices[1].position.x - t.vertices[0].position.x;
    let e0y = t.vertices[1].position.y - t.vertices[0].position.y;
    let e1x = t.vertices[2].position.x - t.vertices[1].position.x;
    let e1y = t.vertices[2].position.y - t.vertices[1].position.y;
    let e2x = t.vertices[0].position.x - t.vertices[2].position.x;
    let e2y = t.vertices[0].position.y - t.vertices[2].position.y;
    lemma_seg_dist_sq_nonneg(d0x, d0y, e0x, e0y);
    lemma_seg_dist_sq_nonneg(d1x, d1y, e1x, e1y);
    lemma_seg_dist_sq_nonneg(d2x, d2y, e2x, e2y);
}

/// Law: at a point strictly inside the triangle (every edge cross product
/// strictly on the inner side after handedness correction) and at least one
/// squared unit from every edge segment, the signed distance is negative.
pub proof fn lemma_inside_negative(t: Tri<ProjectedVec>, px: int, py: int)
    requires
        min_perp_h_s(t, px, py) > 0,
        min_seg_dist_sq_s(t, px, py) >= 1,
    ensures
        signed_distance_s(t, px, py) < 0,
{
    let m = min_perp_h_s(t, px, py);
    let n = min_seg_dist_sq_s(t, px, py);
    crate::fixed::lemma_sqrt_floor_bracket(n as nat);
    let sf = sqrt_floor(n as nat) as int;
    if sf == 0 {
        assert((0 + 1) * (0 + 1) == 1) by (nonlinear_arith);
        assert(false);
    }
    assert(sgn(m) == 1);
    assert(sf * sgn(m) == sf) by (nonlinear_arith)
        requires
            sgn(m) == 1,
    ;
}

/// Law: at a point strictly outside the triangle (some edge cross product
/// strictly on the outer side) and at least one squared unit from every
/// edge segment, the signed distance is positive.
pub proof fn lemma_outside_positive(t: Tri<ProjectedVec>, px: int, py: int)
    requires
        min_perp_h_s(t, px, py) < 0,
        min_seg_dist_sq_s(t, px, py) >= 1,
    ensures
        signed_distance_s(t, px, py) > 0,
{
    let m = min_perp_h_s(t, px, py);
    let n = min_seg_dist_sq_s(t, px, py);
    crate::fixed::lemma_sqrt_floor_bracket(n as nat);
    let sf = sqrt_floor(n as nat) as int;
    if sf == 0 {
        assert((0 + 1) * (0 + 1) == 1) by (nonlinear_arith);
        assert(false);
    }
    assert(sgn(m) == -1);
    assert(sf * sgn(m) == -sf) by (nonlinear_arith)
        requires
            sgn(m) == -1,
    ;
}

/// Law: between two outside points, the one farther from the triangle's
/// edges (by squared segment distance) has the signed distance at least as
/// large: the magnitude grows with the distance to the nearest edge.
pub proof fn lemma_outside_magnitude_monotone(
    t: Tri<ProjectedVec>,
    px: int,
    py: int,
    qx: int,
    qy: int,
)
    requires
        min_perp_h_s(t, px, py) < 0,
        min_perp_h_s(t, qx, qy) < 0,
        min_seg_dist_sq_s(t, px, py) <= min_seg_dist_sq_s(t, qx, qy),
    ensures
        0 <= signed_distance_s(t, px, py) <= signed_distance_s(t, qx, qy),
{
    lemma_min_seg_dist_sq_nonneg(t, px, py);
    lemma_min_seg_dist_sq_nonneg(t, qx, qy);
    let np = min_seg_dist_sq_s(t, px, py);
    let nq = min_seg_dist_sq_s(t, qx, qy);
    crate::fixed::lemma_sqrt_floor_monotone(np as nat, nq as nat);
    let mp = min_perp_h_s(t, px, py);
    let mq = min_perp_h_s(t, qx, qy);
    assert(sgn(mp) == -1);
    assert(sgn(mq) == -1);
    let sp = sqrt_floor(np as nat) as int;
    let sq = sqrt_floor(nq as nat) as int;
    assert(sp * sgn(mp) == -sp) by (nonlinear_arith)
        requires
            sgn(mp) == -1,
    ;
    assert(sq * sgn(mq) == -sq) by (nonlinear_arith)
        requires
            sgn(mq) == -1,
    ;
}

/// Traversing a segment from its other end (base moved along `e`, direction
/// negated) leaves the squared point-to-segment distance unchanged.
proof fn lemma_seg_dist_sq_reverse(dx: int, dy: int, ex: int, ey: int)
    ensures
        seg_dist_sq_s(dx - ex, dy - ey, -ex, -ey) == seg_dist_sq_s(dx, dy, ex, ey),
{
    let nsq = nsq2_s(ex, ey);
    let nsqr = nsq2_s(-ex, -ey);
    let dt = dot2_s(dx, dy, ex, ey);
    let dtr = dot2_s(dx - ex, dy - ey, -ex, -ey);
    lemma_square_nonneg(ex);
    lemma_square_nonneg(ey);
    assert((-ex) * (-ex) + (-ey) * (-ey) == ex * ex + ey * ey) by (nonlinear_arith);
    assert(nsqr == nsq);
    assert((dx - ex) * (-ex) + (dy - ey) * (-ey) == (ex * ex + ey * ey) - (dx * ex + dy * ey))
        by (nonlinear_arith);
    assert(dtr == nsq - dt);
    if nsq == 0 {
        assert(ex * ex == 0 && ey * ey == 0);
        assert(ex == 0 && ey == 0) by (nonlinear_arith)
            requires
                ex * ex == 0,
                ey * ey == 0,
        ;
    } else if dt <= 0 {
        // The reversed traversal projects past the far endpoint, which is
        // the original base point.
        assert((dx - ex) - (-ex) == dx && (dy - ey) - (-ey) == dy);
    } else if dt >= nsq {
        // Both traversals use the same endpoint, the original far one.
    } else {
        let pp = perp_s(dx, dy, ex, ey);
        let ppr = perp_s(dx - ex, dy - ey, -ex, -ey);
        assert((dx - ex) * (-ey) - (dy - ey) * (-ex) == -(dx * ey - dy * ex)) by (nonlinear_arith);
        assert(ppr == -pp);
        assert(ppr * ppr == pp * pp) by (nonlinear_arith)
            requires
                ppr == -pp,
        ;
    }
}

/// Law: the signed distance is invariant under reversing the triangle's
/// vertex winding order, a consequence of the handedness corrector. `rev`
/// is `t` with its first and last vertices exchanged.
pub proof fn lemma_winding_invariant(
    t: Tri<ProjectedVec>,
    rev: Tri<ProjectedVec>,
    px: int,
    py: int,
)
    requires
        rev.vertices[0] == t.vertices[2],
        rev.vertices[1] == t.vertices[1],
        rev.vertices[2] == t.vertices[0],
    ensures
        signed_distance_s(rev, px, py) == signed_distance_s(t, px, py),
{
    let d0x = px - t.vertices[0].position.x;
    let d0y = py - t.vertices[0].position.y;
    let d1x = px - t.vertices[1].position.x;
    let d1y = py - t.vertices[1].position.y;
    let d2x = px - t.vertices[2].position.x;
    let d2y = py - t.vertices[2].position.y;
    let e0x = t.vertices[1].position.x - t.vertices[0].position.x;
    let e0y = t.vertices[1].position.y - t.vertices[0].position.y;
    let e1x = t.vertices[2].position.x - t.vertices[1].position.x;
    let e1y = t.vertices[2].position.y - t.vertices[1].position.y;
    let e2x = t.vertices[0].position.x - t.vertices[2].position.x;
    let e2y = t.vertices[0].position.y - t.vertices[2].position.y;
    // The reversed triangle's edges are the original edges negated, and its
    // vertex-to-point vectors are the original ones permuted.
    assert(d1x - e1x == d2x && d1y - e1y == d2y);
    assert(d0x - e0x == d1x && d0y - e0y == d1y);
    assert(d2x - e2x == d0x && d2y - e2y == d0y);
    lemma_seg_dist_sq_reverse(d1x, d1y, e1x, e1y);
    lemma_seg_dist_sq_reverse(d0x, d0y, e0x, e0y);
    lemma_seg_dist_sq_reverse(d2x, d2y, e2x, e2y);
    // Handedness flips with the winding.
    let p02 = perp_s(e0x, e0y, e2x, e2y);
    assert((-e1x) * (-e2y) - (-e1y) * (-e2x) == e1x * e2y - e1y * e2x) by (nonlinear_arith);
    assert(e1x * e2y - e1y * e2x == -(e0x * e2y - e0y * e2x)) by (nonlinear_arith)
        requires
            e1x == -e0x - e2x,
            e1y == -e0y - e2y,
    ;
    assert(perp_s(-e1x, -e1y, -e2x, -e2y) == -p02);
    assert(sgn(-p02) == -sgn(p02));
    // Each reversed edge cross product is the original one negated, taken
    // from the segment's other endpoint, which leaves it unchanged.
    assert(d2x * (-e1y) - d2y * (-e1x) == -(d2x * e1y - d2y * e1x)) by (nonlinear_arith);
    assert(d2x * e1y - d2y * e1x == d1x * e1y - d1y * e1x) by (nonlinear_arith)
        requires
            d2x == d1x - e1x,
            d2y == d1y - e1y,
    ;
    assert(d1x * (-e0y) - d1y * (-e0x) == -(d1x * e0y - d1y * e0x)) by (nonlinear_arith);
    assert(d1x * e0y - d1y * e0x == d0x * e0y - d0y * e0x) by (nonlinear_arith)
        requires
            d1x == d0x - e0x,
            d1y == d0y - e0y,
    ;
    assert(d0x * (-e2y) - d0y * (-e2x) == -(d0x * e2y - d0y * e2x)) by (nonlinear_arith);
    assert(d0x * e2y - d0y * e2x == d2x * e2y - d2y * e2x) by (nonlinear_arith)
        requires
            d0x == d2x - e2x,
            d0y == d2y - e2y,
    ;
    // Negated cross times negated handedness is the original product.
    let h = sgn(p02);
    let q1 = perp_s(d1x, d1y, e1x, e1y);
    let q0 = perp_s(d0x, d0y, e0x, e0y);
    let q2 = perp_s(d2x, d2y, e2x, e2y);
    assert((-q1) * (-h) == q1 * h) by (nonlinear_arith);
    assert((-q0) * (-h) == q0 * h) by (nonlinear_arith);
    assert((-q2) * (-h) == q2 * h) by (nonlinear_arith);
    assert(min_seg_dist_sq_s(rev, px, py) == min_seg_dist_sq_s(t, px, py));
    assert(min_perp_h_s(rev, px, py) == min_perp_h_s(t, px, py));
}

/// Law: where the point is equally far from all three projected vertices
/// (equal weights), the depth stand-in is exactly the truncated mean of the
/// three per-vertex depths.
pub proof fn lemma_equal_weights_mean(t: Tri<ProjectedVec>, px: int, py: int, w: int)
    requires
        w > 0,
        nsq2_s(px - t.vertices[0].position.x, py - t.vertices[0].position.y) == w,
        nsq2_s(px - t.vertices[1].position.x, py - t.vertices[1].position.y) == w,
        nsq2_s(px - t.vertices[2].position.x, py - t.vertices[2].position.y) == w,
    ensures
        projection_distance_s(t, px, py) == tdiv(
            t.vertices[0].distance + t.vertices[1].distance + t.vertices[2].distance,
            3,
        ),
{
    let d0 = t.vertices[0].distance as int;
    let d1 = t.vertices[1].distance as int;
    let d2 = t.vertices[2].distance as int;
    assert(w * d0 + w * d1 + w * d2 == w * (d0 + d1 + d2)) by (nonlinear_arith);
    crate::fixed::lemma_tdiv_common_factor(d0 + d1 + d2, w, 3);
    assert(w + w + w == 3 * w);
}

/// Law: rendering an empty triangle list leaves every pixel the background.
pub proof fn lemma_empty_list_background(background: Color, px: int, py: int)
    ensures
        pixel_color_s(Seq::<Tri<ProjectedVec>>::empty(), background, px, py) == background,
{
}

/// Law: when the last triangle of the list covers the point, it wins the
/// pixel outright, whatever any earlier triangle's coverage or depth was:
/// iteration order, not depth, resolves overlap.
pub proof fn lemma_later_triangle_wins(
    tris: Seq<Tri<ProjectedVec>>,
    background: Color,
    px: int,
    py: int,
)
    requires
        tris.len() > 0,
        covers_s(tris.last(), px, py),
    ensures
        pixel_color_s(tris, background, px, py) == shade_s(tris.last(), px, py),
{
}

} // verus!
