//! Screen-space triangles and the reference cube model, with the
//! scan-conversion rasterizer and the wireframe renderer.
//!
//! A triangle is filled by sorting its vertices by descending Y with a
//! fixed three-element compare-and-swap network, splitting at the middle
//! vertex into two half-triangles, and filling each half scanline by
//! scanline between the two edge intercepts. Every routine's contract
//! names the exact coverage set it paints.

use crate::fixed::fx_abs;
use crate::fixed::fx_div;
use crate::fixed::fx_div_spec;
use crate::fixed::fx_mul;
use crate::fixed::fx_mul_spec;
use crate::fixed::fx_px_spec;
use crate::fixed::fx_tdiv;
use crate::fixed::fx_to_px;
use crate::fixed::lemma_fx_div_num_bound;
use crate::fixed::lemma_fx_px_range;
use crate::fixed::lemma_fx_tdiv_abs;
use crate::fixed::tdiv_i128;
use crate::fixed::FX_COORD_LIMIT;
use crate::fixed::FX_HALF;
use crate::fixed::FX_ONE;
use crate::framebuffer::draw_line;
use crate::framebuffer::draw_line_horizontal;
use crate::framebuffer::hspan_set;
use crate::framebuffer::lemma_painted_empty;
use crate::framebuffer::lemma_painted_step;
use crate::framebuffer::line_set;
use crate::framebuffer::painted;
use crate::matrix::apply_spec;
use crate::matrix::mat_bounded;
use crate::matrix::mat4x4;
use crate::vector::rot_x_spec;
use crate::vector::rot_y_spec;
use crate::vector::vec2f;
use crate::vector::vec3f;
use vstd::arithmetic::div_mod::lemma_div_is_ordered;
use vstd::prelude::*;

verus! {

/// Largest coordinate magnitude the triangle rasterizer accepts (2^29,
/// i.e. +/-8192.0 pixels): edge slopes and intercepts then stay inside
/// the ranges of the fixed-point helpers.
pub const FX_TRI_LIMIT: i64 = 0x2000_0000;

#[allow(non_camel_case_types)]
#[derive(Clone, Copy, Debug)]
pub struct triangle {
    pub points: [vec2f; 3],
}

#[allow(non_camel_case_types)]
#[derive(Clone, Copy, Debug)]
pub struct triangle3d {
    pub points: [vec3f; 3],
}

#[allow(non_camel_case_types)]
#[derive(Clone, Copy, Debug)]
pub struct cube {
    pub points: [vec3f; 8],
}

/// The vertex order produced by the three-swap sorting network: first and
/// second are compared and swapped so the higher Y leads, then second and
/// third, then first and second again. Ties keep their order (the swap
/// condition is strict).
pub open spec fn sort3_spec(p0: vec2f, p1: vec2f, p2: vec2f) -> (vec2f, vec2f, vec2f) {
    let a0 = if p0.y < p1.y {
        p1
    } else {
        p0
    };
    let a1 = if p0.y < p1.y {
        p0
    } else {
        p1
    };
    let b1 = if a1.y < p2.y {
        p2
    } else {
        a1
    };
    let b2 = if a1.y < p2.y {
        a1
    } else {
        p2
    };
    let c0 = if a0.y < b1.y {
        b1
    } else {
        a0
    };
    let c1 = if a0.y < b1.y {
        a0
    } else {
        b1
    };
    (c0, c1, b2)
}

/// The sorting network orders the vertices by descending Y.
pub proof fn lemma_sort3_sorted(p0: vec2f, p1: vec2f, p2: vec2f)
    ensures
        sort3_spec(p0, p1, p2).0.y >= sort3_spec(p0, p1, p2).1.y,
        sort3_spec(p0, p1, p2).1.y >= sort3_spec(p0, p1, p2).2.y,
{
}

/// The scanline the half-triangle filler paints at step `k` from the tip
/// (tx, ty): the row half a pixel past `k` rows from the tip, spanned
/// between the two edge intercepts computed from the slopes `s1`, `s2`.
pub open spec fn half_row_set(
    w: int,
    h: int,
    tx: int,
    ty: int,
    s1: int,
    s2: int,
    half: int,
    k: int,
) -> Set<int> {
    hspan_set(
        w,
        h,
        k * 65536 + ty + half,
        fx_mul_spec(k * 65536, s1) + tx,
        fx_mul_spec(k * 65536, s2) + tx,
    )
}

/// The union of the filler's scanlines for steps `k0 <= k < k1`.
pub open spec fn half_range_set(
    w: int,
    h: int,
    tx: int,
    ty: int,
    s1: int,
    s2: int,
    half: int,
    k0: int,
    k1: int,
) -> Set<int> {
    Set::new(
        |i: int|
            exists|k: int| k0 <= k < k1 && half_row_set(w, h, tx, ty, s1, s2, half, k).contains(i),
    )
}

/// The coverage of one half-triangle: tip (tx, ty), far corner (ox, oy)
/// setting the vertical extent, and third vertex (ex, ey) giving the
/// second edge. A half of zero vertical extent covers nothing.
pub open spec fn half_set(
    w: int,
    h: int,
    ox: int,
    oy: int,
    tx: int,
    ty: int,
    ex: int,
    ey: int,
) -> Set<int> {
    let dy = oy - ty;
    let s1 = fx_div_spec(ox - tx, dy);
    let s2 = fx_div_spec(ex - tx, ey - ty);
    if dy > 0 {
        half_range_set(w, h, tx, ty, s1, s2, 32768, 0, fx_px_spec(dy) + 1)
    } else if dy < 0 {
        half_range_set(w, h, tx, ty, s1, s2, -32768, fx_px_spec(dy) + 1, 0)
    } else {
        Set::empty()
    }
}

/// The coverage of a filled triangle: the two half-triangles that share
/// the middle vertex of the Y-sorted vertex order.
pub open spec fn tri_set(w: int, h: int, p0: vec2f, p1: vec2f, p2: vec2f) -> Set<int> {
    let s = sort3_spec(p0, p1, p2);
    half_set(
        w,
        h,
        s.1.x as int,
        s.1.y as int,
        s.0.x as int,
        s.0.y as int,
        s.2.x as int,
        s.2.y as int,
    ).union(
        half_set(
            w,
            h,
            s.1.x as int,
            s.1.y as int,
            s.2.x as int,
            s.2.y as int,
            s.0.x as int,
            s.0.y as int,
        ),
    )
}

/// A triangle whose three vertices share one Y covers nothing: both
/// half-triangles have zero vertical extent.
pub proof fn lemma_flat_triangle_empty(w: int, h: int, p0: vec2f, p1: vec2f, p2: vec2f)
    requires
        p0.y == p1.y,
        p1.y == p2.y,
    ensures
        tri_set(w, h, p0, p1, p2) =~= Set::empty(),
{
}

/// One more filler step extends the covered range by that step's row.
proof fn lemma_half_range_extend(
    w: int,
    h: int,
    tx: int,
    ty: int,
    s1: int,
    s2: int,
    half: int,
    k0: int,
    k: int,
)
    requires
        k0 <= k,
    ensures
        half_range_set(w, h, tx, ty, s1, s2, half, k0, k + 1) =~= half_range_set(
            w,
            h,
            tx,
            ty,
            s1,
            s2,
            half,
            k0,
            k,
        ).union(half_row_set(w, h, tx, ty, s1, s2, half, k)),
{
    assert forall|i: int|
        #[trigger] half_range_set(w, h, tx, ty, s1, s2, half, k0, k + 1).contains(i)
            implies half_range_set(w, h, tx, ty, s1, s2, half, k0, k).union(
        half_row_set(w, h, tx, ty, s1, s2, half, k),
    ).contains(i) by {
        let kk = choose|kk: int|
            k0 <= kk < k + 1 && half_row_set(w, h, tx, ty, s1, s2, half, kk).contains(i);
        if kk < k {
            assert(half_range_set(w, h, tx, ty, s1, s2, half, k0, k).contains(i));
        }
    }
    assert forall|i: int|
        half_range_set(w, h, tx, ty, s1, s2, half, k0, k).union(
            half_row_set(w, h, tx, ty, s1, s2, half, k),
        ).contains(i) implies #[trigger] half_range_set(
        w,
        h,
        tx,
        ty,
        s1,
        s2,
        half,
        k0,
        k + 1,
    ).contains(i) by {
        if half_range_set(w, h, tx, ty, s1, s2, half, k0, k).contains(i) {
            let kk = choose|kk: int|
                k0 <= kk < k && half_row_set(w, h, tx, ty, s1, s2, half, kk).contains(i);
            assert(k0 <= kk < k + 1 && half_row_set(w, h, tx, ty, s1, s2, half, kk).contains(i));
        } else {
            assert(k0 <= k < k + 1 && half_row_set(w, h, tx, ty, s1, s2, half, k).contains(i));
        }
    }
}

/// Swaps the two indexed vertices when the first has the strictly lower
/// Y, so the higher-Y vertex comes first.
fn compare_swap_verts(points: &mut [vec2f; 3], v1: usize, v2: usize)
    requires
        v1 < 3,
        v2 < 3,
    ensures
        final(points)@ == (if old(points)@[v1 as int].y < old(points)@[v2 as int].y {
            old(points)@.update(v1 as int, old(points)@[v2 as int]).update(
                v2 as int,
                old(points)@[v1 as int],
            )
        } else {
            old(points)@
        }),
{
    if points[v1].y < points[v2].y {
        let temp = points[v1];
        points[v1] = points[v2];
        points[v2] = temp;
    }
}

impl triangle {
    /// The reference triangle: an isosceles wedge centered on the origin.
    pub fn new() -> (t: triangle)
        ensures
            t.points[0].x == 10 * FX_ONE && t.points[0].y == -5 * FX_ONE,
            t.points[1].x == 0 && t.points[1].y == 5 * FX_ONE,
            t.points[2].x == -10 * FX_ONE && t.points[2].y == -5 * FX_ONE,
    {
        triangle {
            points: [
                vec2f { x: 10 * FX_ONE, y: -5 * FX_ONE },
                vec2f { x: 0, y: 5 * FX_ONE },
                vec2f { x: -10 * FX_ONE, y: -5 * FX_ONE },
            ],
        }
    }

    /// A triangle over copies of three given points.
    pub fn from(p1: &vec2f, p2: &vec2f, p3: &vec2f) -> (t: triangle)
        ensures
            t.points[0] == *p1,
            t.points[1] == *p2,
            t.points[2] == *p3,
    {
        triangle { points: [vec2f { x: p1.x, y: p1.y }, vec2f { x: p2.x, y: p2.y }, vec2f { x: p3.x, y: p3.y }] }
    }

    /// The vertices sorted by descending Y through the three-swap network.
    fn get_sorted_verts(&self) -> (r: [vec2f; 3])
        ensures
            r[0] == sort3_spec(self.points[0], self.points[1], self.points[2]).0,
            r[1] == sort3_spec(self.points[0], self.points[1], self.points[2]).1,
            r[2] == sort3_spec(self.points[0], self.points[1], self.points[2]).2,
            r[0].y >= r[1].y >= r[2].y,
    {
        let mut points: [vec2f; 3] = [self.points[0], self.points[1], self.points[2]];
        compare_swap_verts(&mut points, 0, 1);
        compare_swap_verts(&mut points, 1, 2);
        compare_swap_verts(&mut points, 0, 1);
        proof {
            lemma_sort3_sorted(self.points[0], self.points[1], self.points[2]);
        }
        points
    }

    /// Fills the triangle with `color`: the two half-triangles around the
    /// middle vertex of the Y-sorted order are scan-converted row by row.
    /// A triangle of zero height paints nothing and the buffer comes back
    /// unchanged.
    pub fn draw(&self, framebuffer: &mut Vec<u8>, width: usize, height: usize, color: u8)
        requires
            old(framebuffer).len() == width * height,
            width <= 0x1_0000_0000,
            height <= 0x1_0000_0000,
            forall|j: int|
                0 <= j < 3 ==> -FX_TRI_LIMIT <= (#[trigger] self.points[j]).x <= FX_TRI_LIMIT
                    && -FX_TRI_LIMIT <= self.points[j].y <= FX_TRI_LIMIT,
        ensures
            painted(
                old(framebuffer)@,
                final(framebuffer)@,
                tri_set(width as int, height as int, self.points[0], self.points[1], self.points[2]),
                color,
            ),
            self.points[0].y == self.points[1].y && self.points[1].y == self.points[2].y
                ==> final(framebuffer)@ == old(framebuffer)@,
    {
        let ghost w = width as int;
        let ghost h = height as int;
        let ghost pre = framebuffer@;
        let points = self.get_sorted_verts();
        proof {
            assert(-FX_TRI_LIMIT <= self.points[0].x <= FX_TRI_LIMIT);
            assert(-FX_TRI_LIMIT <= self.points[1].x <= FX_TRI_LIMIT);
            assert(-FX_TRI_LIMIT <= self.points[2].x <= FX_TRI_LIMIT);
        }
        self.rasterize(framebuffer, width, height, &points[1], &points[0], &points[2], color);
        let ghost mid = framebuffer@;
        self.rasterize(framebuffer, width, height, &points[1], &points[2], &points[0], color);
        proof {
            let s = sort3_spec(self.points[0], self.points[1], self.points[2]);
            lemma_painted_step(
                pre,
                mid,
                framebuffer@,
                half_set(
                    w,
                    h,
                    s.1.x as int,
                    s.1.y as int,
                    s.0.x as int,
                    s.0.y as int,
                    s.2.x as int,
                    s.2.y as int,
                ),
                half_set(
                    w,
                    h,
                    s.1.x as int,
                    s.1.y as int,
                    s.2.x as int,
                    s.2.y as int,
                    s.0.x as int,
                    s.0.y as int,
                ),
                tri_set(w, h, self.points[0], self.points[1], self.points[2]),
                color,
            );
            if self.points[0].y == self.points[1].y && self.points[1].y == self.points[2].y {
                lemma_flat_triangle_empty(w, h, self.points[0], self.points[1], self.points[2]);
                lemma_painted_empty(
                    pre,
                    framebuffer@,
                    tri_set(w, h, self.points[0], self.points[1], self.points[2]),
                    color,
                );
                assert(framebuffer@ == pre);
            }
        }
    }

    /// Fills one half-triangle: `tip` is the vertex the two edges share,
    /// `origin` sets the vertical extent, `end` gives the second edge.
    #[verifier::loop_isolation(false)]
    fn rasterize(
        &self,
        framebuffer: &mut Vec<u8>,
        width: usize,
        height: usize,
        origin: &vec2f,
        tip: &vec2f,
        end: &vec2f,
        color: u8,
    )
        requires
            old(framebuffer).len() == width * height,
            width <= 0x1_0000_0000,
            height <= 0x1_0000_0000,
            -FX_TRI_LIMIT <= origin.x <= FX_TRI_LIMIT,
            -FX_TRI_LIMIT <= origin.y <= FX_TRI_LIMIT,
            -FX_TRI_LIMIT <= tip.x <= FX_TRI_LIMIT,
            -FX_TRI_LIMIT <= tip.y <= FX_TRI_LIMIT,
            -FX_TRI_LIMIT <= end.x <= FX_TRI_LIMIT,
            -FX_TRI_LIMIT <= end.y <= FX_TRI_LIMIT,
            origin.y != tip.y ==> end.y != tip.y,
        ensures
            painted(
                old(framebuffer)@,
                final(framebuffer)@,
                half_set(
                    width as int,
                    height as int,
                    origin.x as int,
                    origin.y as int,
                    tip.x as int,
                    tip.y as int,
                    end.x as int,
                    end.y as int,
                ),
                color,
            ),
    {
        let ghost w = width as int;
        let ghost h = height as int;
        let ghost tx = tip.x as int;
        let ghost ty = tip.y as int;
        let ghost pre = framebuffer@;
        let dy = origin.y - tip.y;
        if dy == 0 {
            return ;
        }
        let dx1 = origin.x - tip.x;
        let dx2 = end.x - tip.x;
        let dy2 = end.y - tip.y;
        let slope1 = fx_div(dx1, dy);
        let slope2 = fx_div(dx2, dy2);
        let ghost s1 = slope1 as int;
        let ghost s2 = slope2 as int;
        proof {
            lemma_fx_div_num_bound(dx1 as int, dy as int, 0x4000_0000);
            lemma_fx_div_num_bound(dx2 as int, dy2 as int, 0x4000_0000);
            lemma_fx_px_range(dy as int, 0x4000_0000);
        }
        if dy > 0 {
            let n = fx_to_px(dy);
            let mut k: i64 = 0;
            while k <= n
                invariant
                    0 <= k <= n + 1,
                    framebuffer@.len() == pre.len(),
                    painted(
                        pre,
                        framebuffer@,
                        half_range_set(w, h, tx, ty, s1, s2, 32768, 0, k as int),
                        color,
                    ),
                decreases n + 1 - k,
            {
                let kf = k * FX_ONE;
                let yrow = kf + tip.y + FX_HALF;
                let x1 = fx_mul(kf, slope1) + tip.x;
                let x2 = fx_mul(kf, slope2) + tip.x;
                let ghost mid = framebuffer@;
                draw_line_horizontal(framebuffer, width, height, yrow, x1, x2, color);
                proof {
                    assert(hspan_set(w, h, yrow as int, x1 as int, x2 as int) == half_row_set(
                        w,
                        h,
                        tx,
                        ty,
                        s1,
                        s2,
                        32768,
                        k as int,
                    ));
                    lemma_half_range_extend(w, h, tx, ty, s1, s2, 32768, 0, k as int);
                    lemma_painted_step(
                        pre,
                        mid,
                        framebuffer@,
                        half_range_set(w, h, tx, ty, s1, s2, 32768, 0, k as int),
                        half_row_set(w, h, tx, ty, s1, s2, 32768, k as int),
                        half_range_set(w, h, tx, ty, s1, s2, 32768, 0, k as int + 1),
                        color,
                    );
                }
                k = k + 1;
            }
        } else {
            let n0 = fx_to_px(dy);
            let ghost k0 = n0 as int + 1;
            let mut k: i64 = n0 + 1;
            while k < 0
                invariant
                    k0 <= k as int <= (if k0 <= 0 {
                        0int
                    } else {
                        k0
                    }),
                    framebuffer@.len() == pre.len(),
                    painted(
                        pre,
                        framebuffer@,
                        half_range_set(w, h, tx, ty, s1, s2, -32768, k0, k as int),
                        color,
                    ),
                decreases 0 - k,
            {
                let kf = k * FX_ONE;
                let yrow = kf + tip.y - FX_HALF;
                let x1 = fx_mul(kf, slope1) + tip.x;
                let x2 = fx_mul(kf, slope2) + tip.x;
                let ghost mid = framebuffer@;
                draw_line_horizontal(framebuffer, width, height, yrow, x1, x2, color);
                proof {
                    assert(hspan_set(w, h, yrow as int, x1 as int, x2 as int) == half_row_set(
                        w,
                        h,
                        tx,
                        ty,
                        s1,
                        s2,
                        -32768,
                        k as int,
                    ));
                    lemma_half_range_extend(w, h, tx, ty, s1, s2, -32768, k0, k as int);
                    lemma_painted_step(
                        pre,
                        mid,
                        framebuffer@,
                        half_range_set(w, h, tx, ty, s1, s2, -32768, k0, k as int),
                        half_row_set(w, h, tx, ty, s1, s2, -32768, k as int),
                        half_range_set(w, h, tx, ty, s1, s2, -32768, k0, k as int + 1),
                        color,
                    );
                }
                k = k + 1;
            }
            proof {
                assert(half_range_set(w, h, tx, ty, s1, s2, -32768, k0, k as int)
                    =~= half_range_set(w, h, tx, ty, s1, s2, -32768, k0, 0));
            }
        }
    }

    /// Each vertex rotated by the angle whose sine and cosine the caller
    /// supplies in fixed-point scale.
    pub fn rotate(&self, sin_t: i64, cos_t: i64) -> (t: triangle)
        requires
            forall|j: int|
                0 <= j < 3 ==> -FX_COORD_LIMIT <= (#[trigger] self.points[j]).x <= FX_COORD_LIMIT
                    && -FX_COORD_LIMIT <= self.points[j].y <= FX_COORD_LIMIT,
            -FX_COORD_LIMIT <= sin_t <= FX_COORD_LIMIT,
            -FX_COORD_LIMIT <= cos_t <= FX_COORD_LIMIT,
        ensures
            forall|j: int|
                0 <= j < 3 ==> (#[trigger] t.points[j]).x == rot_x_spec(
                    self.points[j].x as int,
                    self.points[j].y as int,
                    sin_t as int,
                    cos_t as int,
                ) && t.points[j].y == rot_y_spec(
                    self.points[j].x as int,
                    self.points[j].y as int,
                    sin_t as int,
                    cos_t as int,
                ),
    {
        triangle {
            points: [
                self.points[0].rotate(sin_t, cos_t),
                self.points[1].rotate(sin_t, cos_t),
                self.points[2].rotate(sin_t, cos_t),
            ],
        }
    }

    /// Each vertex translated by `t`.
    pub fn translate(&self, t: vec2f) -> (r: triangle)
        requires
            forall|j: int|
                0 <= j < 3 ==> -FX_COORD_LIMIT <= (#[trigger] self.points[j]).x <= FX_COORD_LIMIT
                    && -FX_COORD_LIMIT <= self.points[j].y <= FX_COORD_LIMIT,
            -FX_COORD_LIMIT <= t.x <= FX_COORD_LIMIT,
            -FX_COORD_LIMIT <= t.y <= FX_COORD_LIMIT,
        ensures
            forall|j: int|
                0 <= j < 3 ==> (#[trigger] r.points[j]).x == self.points[j].x + t.x
                    && r.points[j].y == self.points[j].y + t.y,
    {
        triangle {
            points: [
                vec2f { x: self.points[0].x + t.x, y: self.points[0].y + t.y },
                vec2f { x: self.points[1].x + t.x, y: self.points[1].y + t.y },
                vec2f { x: self.points[2].x + t.x, y: self.points[2].y + t.y },
            ],
        }
    }

    /// Each vertex scaled by the fixed-point factor.
    pub fn scale(&self, factor: i64) -> (r: triangle)
        requires
            forall|j: int|
                0 <= j < 3 ==> -FX_COORD_LIMIT <= (#[trigger] self.points[j]).x <= FX_COORD_LIMIT
                    && -FX_COORD_LIMIT <= self.points[j].y <= FX_COORD_LIMIT,
            -FX_COORD_LIMIT <= factor <= FX_COORD_LIMIT,
        ensures
            forall|j: int|
                0 <= j < 3 ==> (#[trigger] r.points[j]).x == fx_mul_spec(
                    self.points[j].x as int,
                    factor as int,
                ) && r.points[j].y == fx_mul_spec(self.points[j].y as int, factor as int),
    {
        triangle {
            points: [
                vec2f {
                    x: fx_mul(self.points[0].x, factor),
                    y: fx_mul(self.points[0].y, factor),
                },
                vec2f {
                    x: fx_mul(self.points[1].x, factor),
                    y: fx_mul(self.points[1].y, factor),
                },
                vec2f {
                    x: fx_mul(self.points[2].x, factor),
                    y: fx_mul(self.points[2].y, factor),
                },
            ],
        }
    }
}

/// Largest screen magnitude a projected coordinate can reach after
/// clamping (2^28, i.e. +/-4096.0 pixels).
pub const FX_SCREEN_CLAMP: i64 = 0x1000_0000;

/// Largest magnitude accepted for the screen-space placement offset that
/// `project` adds after the viewport transform (2^27, i.e. +/-2048.0).
pub const FX_OFFSET_LIMIT: i64 = 0x800_0000;

/// Window to which a normalized device coordinate is confined before the
/// viewport transform (2^33 fixed-point units); coordinates beyond it
/// would land far outside any supported screen either way.
pub const FX_NDC_CLAMP: i64 = 0x2_0000_0000;

/// The screen X coordinate of `v` transformed by `m` on a screen `w`
/// pixels wide: the transformed X, confined to the NDC window, mapped by
/// `(x + 1) * 0.5 * w`, capped at the rightmost column, floored at the
/// screen clamp, and shifted by the placement offset.
pub open spec fn project_pt_x(m: mat4x4, v: vec3f, w: int, off: int) -> int {
    let q = apply_spec(m, v).0;
    let qc = if q > FX_NDC_CLAMP {
        FX_NDC_CLAMP as int
    } else if q < -FX_NDC_CLAMP {
        -FX_NDC_CLAMP
    } else {
        q
    };
    let s = fx_tdiv((qc + 65536) * w, 2);
    let c1 = if s > (w - 1) * 65536 {
        (w - 1) * 65536
    } else {
        s
    };
    let c2 = if c1 < -FX_SCREEN_CLAMP {
        -FX_SCREEN_CLAMP
    } else {
        c1
    };
    c2 + off
}

/// The screen Y coordinate of `v` transformed by `m` on a screen `h`
/// pixels tall: as `project_pt_x`, but flipped, by `(1 - (y + 1) * 0.5) * h`,
/// because screen Y grows downward.
pub open spec fn project_pt_y(m: mat4x4, v: vec3f, h: int, off: int) -> int {
    let q = apply_spec(m, v).1;
    let qc = if q > FX_NDC_CLAMP {
        FX_NDC_CLAMP as int
    } else if q < -FX_NDC_CLAMP {
        -FX_NDC_CLAMP
    } else {
        q
    };
    let s = h * 65536 - fx_tdiv((qc + 65536) * h, 2);
    let c1 = if s > (h - 1) * 65536 {
        (h - 1) * 65536
    } else {
        s
    };
    let c2 = if c1 < -FX_SCREEN_CLAMP {
        -FX_SCREEN_CLAMP
    } else {
        c1
    };
    c2 + off
}

/// The projected screen point of model vertex `v`, both coordinates.
pub open spec fn projected_vec(m: mat4x4, v: vec3f, w: int, h: int, offx: int, offy: int) -> vec2f {
    vec2f {
        x: project_pt_x(m, v, w, offx) as i64,
        y: project_pt_y(m, v, h, offy) as i64,
    }
}

/// The vertex index pair of cube edge `e`: four near-face edges, four
/// far-face edges, four edges joining corresponding corners.
pub open spec fn cube_edge(e: int) -> (int, int) {
    if e == 0 {
        (0int, 1int)
    } else if e == 1 {
        (1int, 2int)
    } else if e == 2 {
        (2int, 3int)
    } else if e == 3 {
        (3int, 0int)
    } else if e == 4 {
        (4int, 5int)
    } else if e == 5 {
        (5int, 6int)
    } else if e == 6 {
        (6int, 7int)
    } else if e == 7 {
        (7int, 4int)
    } else if e == 8 {
        (0int, 4int)
    } else if e == 9 {
        (5int, 1int)
    } else if e == 10 {
        (6int, 2int)
    } else {
        (7int, 3int)
    }
}

/// The vertex index triple of face triangle `f`: each cube face split
/// into two triangles, in the order the renderer draws them.
pub open spec fn cube_face(f: int) -> (int, int, int) {
    if f == 0 {
        (0int, 1int, 5int)
    } else if f == 1 {
        (0int, 5int, 4int)
    } else if f == 2 {
        (0int, 1int, 2int)
    } else if f == 3 {
        (0int, 3int, 2int)
    } else if f == 4 {
        (2int, 3int, 7int)
    } else if f == 5 {
        (2int, 6int, 7int)
    } else if f == 6 {
        (6int, 5int, 4int)
    } else if f == 7 {
        (6int, 4int, 7int)
    } else if f == 8 {
        (1int, 3int, 4int)
    } else if f == 9 {
        (3int, 4int, 7int)
    } else if f == 10 {
        (1int, 2int, 5int)
    } else {
        (2int, 5int, 6int)
    }
}

/// The coverage of the first `eend` wireframe edges of the projected cube.
pub open spec fn wire_upto(
    w: int,
    h: int,
    c: cube,
    m: mat4x4,
    offx: int,
    offy: int,
    eend: int,
) -> Set<int> {
    Set::new(
        |i: int|
            exists|e: int|
                0 <= e < eend && line_set(
                    w,
                    h,
                    projected_vec(m, c.points[cube_edge(e).0], w, h, offx, offy).x as int,
                    projected_vec(m, c.points[cube_edge(e).0], w, h, offx, offy).y as int,
                    projected_vec(m, c.points[cube_edge(e).1], w, h, offx, offy).x as int,
                    projected_vec(m, c.points[cube_edge(e).1], w, h, offx, offy).y as int,
                ).contains(i),
    )
}

/// The coverage of the cube's wireframe: its twelve projected edges.
pub open spec fn wire_set(w: int, h: int, c: cube, m: mat4x4, offx: int, offy: int) -> Set<int> {
    wire_upto(w, h, c, m, offx, offy, 12)
}

/// The coverage of the first `fend` filled face triangles of the
/// projected cube.
pub open spec fn faces_upto(
    w: int,
    h: int,
    c: cube,
    m: mat4x4,
    offx: int,
    offy: int,
    fend: int,
) -> Set<int> {
    Set::new(
        |i: int|
            exists|f: int|
                0 <= f < fend && tri_set(
                    w,
                    h,
                    projected_vec(m, c.points[cube_face(f).0], w, h, offx, offy),
                    projected_vec(m, c.points[cube_face(f).1], w, h, offx, offy),
                    projected_vec(m, c.points[cube_face(f).2], w, h, offx, offy),
                ).contains(i),
    )
}

/// The coverage of the solid cube: its twelve projected face triangles.
pub open spec fn cube_fill_set(
    w: int,
    h: int,
    c: cube,
    m: mat4x4,
    offx: int,
    offy: int,
) -> Set<int> {
    faces_upto(w, h, c, m, offx, offy, 12)
}

/// One more edge extends the wireframe coverage by that edge's line.
proof fn lemma_wire_extend(
    w: int,
    h: int,
    c: cube,
    m: mat4x4,
    offx: int,
    offy: int,
    e: int,
)
    requires
        0 <= e,
    ensures
        wire_upto(w, h, c, m, offx, offy, e + 1) =~= wire_upto(w, h, c, m, offx, offy, e).union(
            line_set(
                w,
                h,
                projected_vec(m, c.points[cube_edge(e).0], w, h, offx, offy).x as int,
                projected_vec(m, c.points[cube_edge(e).0], w, h, offx, offy).y as int,
                projected_vec(m, c.points[cube_edge(e).1], w, h, offx, offy).x as int,
                projected_vec(m, c.points[cube_edge(e).1], w, h, offx, offy).y as int,
            ),
        ),
{
    let new_edge = line_set(
        w,
        h,
        projected_vec(m, c.points[cube_edge(e).0], w, h, offx, offy).x as int,
        projected_vec(m, c.points[cube_edge(e).0], w, h, offx, offy).y as int,
        projected_vec(m, c.points[cube_edge(e).1], w, h, offx, offy).x as int,
        projected_vec(m, c.points[cube_edge(e).1], w, h, offx, offy).y as int,
    );
    assert forall|i: int| #[trigger] wire_upto(w, h, c, m, offx, offy, e + 1).contains(i)
        implies wire_upto(w, h, c, m, offx, offy, e).union(new_edge).contains(i) by {
        let ee = choose|ee: int|
            0 <= ee < e + 1 && line_set(
                w,
                h,
                projected_vec(m, c.points[cube_edge(ee).0], w, h, offx, offy).x as int,
                projected_vec(m, c.points[cube_edge(ee).0], w, h, offx, offy).y as int,
                projected_vec(m, c.points[cube_edge(ee).1], w, h, offx, offy).x as int,
                projected_vec(m, c.points[cube_edge(ee).1], w, h, offx, offy).y as int,
            ).contains(i);
        if ee < e {
            assert(wire_upto(w, h, c, m, offx, offy, e).contains(i));
        }
    }
    assert forall|i: int| wire_upto(w, h, c, m, offx, offy, e).union(new_edge).contains(i)
        implies #[trigger] wire_upto(w, h, c, m, offx, offy, e + 1).contains(i) by {
        if wire_upto(w, h, c, m, offx, offy, e).contains(i) {
            let ee = choose|ee: int|
                0 <= ee < e && line_set(
                    w,
                    h,
                    projected_vec(m, c.points[cube_edge(ee).0], w, h, offx, offy).x as int,
                    projected_vec(m, c.points[cube_edge(ee).0], w, h, offx, offy).y as int,
                    projected_vec(m, c.points[cube_edge(ee).1], w, h, offx, offy).x as int,
                    projected_vec(m, c.points[cube_edge(ee).1], w, h, offx, offy).y as int,
                ).contains(i);
            assert(0 <= ee < e + 1 && line_set(
                w,
                h,
                projected_vec(m, c.points[cube_edge(ee).0], w, h, offx, offy).x as int,
                projected_vec(m, c.points[cube_edge(ee).0], w, h, offx, offy).y as int,
                projected_vec(m, c.points[cube_edge(ee).1], w, h, offx, offy).x as int,
                projected_vec(m, c.points[cube_edge(ee).1], w, h, offx, offy).y as int,
            ).contains(i));
        } else {
            assert(0 <= e < e + 1 && line_set(
                w,
                h,
                projected_vec(m, c.points[cube_edge(e).0], w, h, offx, offy).x as int,
                projected_vec(m, c.points[cube_edge(e).0], w, h, offx, offy).y as int,
                projected_vec(m, c.points[cube_edge(e).1], w, h, offx, offy).x as int,
                projected_vec(m, c.points[cube_edge(e).1], w, h, offx, offy).y as int,
            ).contains(i));
        }
    }
}

/// One more face triangle extends the fill coverage by that triangle.
#[verifier::rlimit(100)]
proof fn lemma_faces_extend(
    w: int,
    h: int,
    c: cube,
    m: mat4x4,
    offx: int,
    offy: int,
    f: int,
)
    requires
        0 <= f,
    ensures
        faces_upto(w, h, c, m, offx, offy, f + 1) =~= faces_upto(w, h, c, m, offx, offy, f).union(
            tri_set(
                w,
                h,
                projected_vec(m, c.points[cube_face(f).0], w, h, offx, offy),
                projected_vec(m, c.points[cube_face(f).1], w, h, offx, offy),
                projected_vec(m, c.points[cube_face(f).2], w, h, offx, offy),
            ),
        ),
{
    let new_face = tri_set(
        w,
        h,
        projected_vec(m, c.points[cube_face(f).0], w, h, offx, offy),
        projected_vec(m, c.points[cube_face(f).1], w, h, offx, offy),
        projected_vec(m, c.points[cube_face(f).2], w, h, offx, offy),
    );
    assert forall|i: int| #[trigger] faces_upto(w, h, c, m, offx, offy, f + 1).contains(i)
        implies faces_upto(w, h, c, m, offx, offy, f).union(new_face).contains(i) by {
        let ff = choose|ff: int|
            0 <= ff < f + 1 && tri_set(
                w,
                h,
                projected_vec(m, c.points[cube_face(ff).0], w, h, offx, offy),
                projected_vec(m, c.points[cube_face(ff).1], w, h, offx, offy),
                projected_vec(m, c.points[cube_face(ff).2], w, h, offx, offy),
            ).contains(i);
        if ff < f {
            assert(faces_upto(w, h, c, m, offx, offy, f).contains(i));
        }
    }
    assert forall|i: int| faces_upto(w, h, c, m, offx, offy, f).union(new_face).contains(i)
        implies #[trigger] faces_upto(w, h, c, m, offx, offy, f + 1).contains(i) by {
        if faces_upto(w, h, c, m, offx, offy, f).contains(i) {
            let ff = choose|ff: int|
                0 <= ff < f && tri_set(
                    w,
                    h,
                    projected_vec(m, c.points[cube_face(ff).0], w, h, offx, offy),
                    projected_vec(m, c.points[cube_face(ff).1], w, h, offx, offy),
                    projected_vec(m, c.points[cube_face(ff).2], w, h, offx, offy),
                ).contains(i);
            assert(0 <= ff < f + 1 && tri_set(
                w,
                h,
                projected_vec(m, c.points[cube_face(ff).0], w, h, offx, offy),
                projected_vec(m, c.points[cube_face(ff).1], w, h, offx, offy),
                projected_vec(m, c.points[cube_face(ff).2], w, h, offx, offy),
            ).contains(i));
        } else {
            assert(0 <= f < f + 1 && new_face.contains(i));
        }
    }
}

/// Maps a transformed coordinate through `(q + 1) * 0.5 * dim`, after
/// confining it to the NDC window.
fn viewport_scale(q: i64, dim: i64) -> (r: i64)
    requires
        1 <= dim <= 4096,
    ensures
        ({
            let qc = if q > FX_NDC_CLAMP {
                FX_NDC_CLAMP as int
            } else if q < -FX_NDC_CLAMP {
                -FX_NDC_CLAMP
            } else {
                q as int
            };
            r == fx_tdiv((qc + 65536) * dim, 2)
        }),
        -0x8000_0000_0000 <= r <= 0x8000_0000_0000,
{
    let qc: i64 = if q > FX_NDC_CLAMP {
        FX_NDC_CLAMP
    } else if q < -FX_NDC_CLAMP {
        -FX_NDC_CLAMP
    } else {
        q
    };
    let a = qc + FX_ONE;
    proof {
        assert(-0x1_0000_0000_0000i128 <= (a as int) * (dim as int) <= 0x1_0000_0000_0000i128)
            by (nonlinear_arith)
            requires
                -0x2_0001_0000 <= a <= 0x2_0001_0000,
                1 <= dim <= 4096,
        ;
    }
    let t: i128 = (a as i128) * (dim as i128);
    let r = tdiv_i128(t, 2);
    proof {
        lemma_fx_tdiv_abs(t as int, 2);
        lemma_div_is_ordered(fx_abs(t as int), 0x1_0000_0000_0000, 2);
    }
    r as i64
}

/// Caps a mapped coordinate at the last pixel of the axis, floors it at
/// the screen clamp.
fn screen_clamp(s: i64, dim: i64) -> (r: i64)
    requires
        1 <= dim <= 4096,
    ensures
        ({
            let c1 = if s > (dim - 1) * 65536 {
                (dim - 1) * 65536
            } else {
                s as int
            };
            r == if c1 < -FX_SCREEN_CLAMP {
                -FX_SCREEN_CLAMP as int
            } else {
                c1
            }
        }),
        -FX_SCREEN_CLAMP <= r <= (dim - 1) * 65536,
{
    let cap = (dim - 1) * FX_ONE;
    let c1 = if s > cap {
        cap
    } else {
        s
    };
    if c1 < -FX_SCREEN_CLAMP {
        -FX_SCREEN_CLAMP
    } else {
        c1
    }
}

impl cube {
    /// The canonical cube: eight corners one unit from the origin on
    /// every axis.
    pub fn new() -> (c: cube)
        ensures
            c.points[0].x == FX_ONE && c.points[0].y == FX_ONE && c.points[0].z == FX_ONE,
            c.points[1].x == FX_ONE && c.points[1].y == -FX_ONE && c.points[1].z == FX_ONE,
            c.points[2].x == -FX_ONE && c.points[2].y == -FX_ONE && c.points[2].z == FX_ONE,
            c.points[3].x == -FX_ONE && c.points[3].y == FX_ONE && c.points[3].z == FX_ONE,
            c.points[4].x == FX_ONE && c.points[4].y == FX_ONE && c.points[4].z == -FX_ONE,
            c.points[5].x == FX_ONE && c.points[5].y == -FX_ONE && c.points[5].z == -FX_ONE,
            c.points[6].x == -FX_ONE && c.points[6].y == -FX_ONE && c.points[6].z == -FX_ONE,
            c.points[7].x == -FX_ONE && c.points[7].y == FX_ONE && c.points[7].z == -FX_ONE,
    {
        cube {
            points: [
                vec3f { x: FX_ONE, y: FX_ONE, z: FX_ONE },
                vec3f { x: FX_ONE, y: -FX_ONE, z: FX_ONE },
                vec3f { x: -FX_ONE, y: -FX_ONE, z: FX_ONE },
                vec3f { x: -FX_ONE, y: FX_ONE, z: FX_ONE },
                vec3f { x: FX_ONE, y: FX_ONE, z: -FX_ONE },
                vec3f { x: FX_ONE, y: -FX_ONE, z: -FX_ONE },
                vec3f { x: -FX_ONE, y: -FX_ONE, z: -FX_ONE },
                vec3f { x: -FX_ONE, y: FX_ONE, z: -FX_ONE },
            ],
        }
    }

    /// Each corner scaled by the fixed-point factor.
    pub fn scale(&self, factor: i64) -> (c: cube)
        requires
            forall|j: int|
                0 <= j < 8 ==> -FX_COORD_LIMIT <= (#[trigger] self.points[j]).x <= FX_COORD_LIMIT
                    && -FX_COORD_LIMIT <= self.points[j].y <= FX_COORD_LIMIT && -FX_COORD_LIMIT
                    <= self.points[j].z <= FX_COORD_LIMIT,
            -FX_COORD_LIMIT <= factor <= FX_COORD_LIMIT,
        ensures
            forall|j: int|
                0 <= j < 8 ==> (#[trigger] c.points[j]).x == fx_mul_spec(
                    self.points[j].x as int,
                    factor as int,
                ) && c.points[j].y == fx_mul_spec(self.points[j].y as int, factor as int)
                    && c.points[j].z == fx_mul_spec(self.points[j].z as int, factor as int),
    {
        cube {
            points: [
                self.points[0].scale(factor),
                self.points[1].scale(factor),
                self.points[2].scale(factor),
                self.points[3].scale(factor),
                self.points[4].scale(factor),
                self.points[5].scale(factor),
                self.points[6].scale(factor),
                self.points[7].scale(factor),
            ],
        }
    }

    /// Each corner translated by `trans_vec`.
    pub fn translate(&self, trans_vec: vec3f) -> (c: cube)
        requires
            forall|j: int|
                0 <= j < 8 ==> -FX_COORD_LIMIT <= (#[trigger] self.points[j]).x <= FX_COORD_LIMIT
                    && -FX_COORD_LIMIT <= self.points[j].y <= FX_COORD_LIMIT && -FX_COORD_LIMIT
                    <= self.points[j].z <= FX_COORD_LIMIT,
            -FX_COORD_LIMIT <= trans_vec.x <= FX_COORD_LIMIT,
            -FX_COORD_LIMIT <= trans_vec.y <= FX_COORD_LIMIT,
            -FX_COORD_LIMIT <= trans_vec.z <= FX_COORD_LIMIT,
        ensures
            forall|j: int|
                0 <= j < 8 ==> (#[trigger] c.points[j]).x == self.points[j].x + trans_vec.x
                    && c.points[j].y == self.points[j].y + trans_vec.y && c.points[j].z
                    == self.points[j].z + trans_vec.z,
    {
        cube {
            points: [
                self.points[0].add(&trans_vec),
                self.points[1].add(&trans_vec),
                self.points[2].add(&trans_vec),
                self.points[3].add(&trans_vec),
                self.points[4].add(&trans_vec),
                self.points[5].add(&trans_vec),
                self.points[6].add(&trans_vec),
                self.points[7].add(&trans_vec),
            ],
        }
    }

    /// Projects all eight corners through the combined transform into
    /// screen space: perspective transform, viewport mapping with the Y
    /// axis flipped, clamping to the screen window, and the caller's
    /// placement offset.
    #[verifier::loop_isolation(false)]
    pub fn project(&self, mvp_matrix: &mat4x4, width: usize, height: usize, offset: &vec2f) -> (out: [
        vec2f; 8])
        requires
            mat_bounded(*mvp_matrix, FX_COORD_LIMIT as int),
            forall|j: int|
                0 <= j < 8 ==> -FX_COORD_LIMIT <= (#[trigger] self.points[j]).x <= FX_COORD_LIMIT
                    && -FX_COORD_LIMIT <= self.points[j].y <= FX_COORD_LIMIT && -FX_COORD_LIMIT
                    <= self.points[j].z <= FX_COORD_LIMIT,
            1 <= width <= 4096,
            1 <= height <= 4096,
            -FX_OFFSET_LIMIT <= offset.x <= FX_OFFSET_LIMIT,
            -FX_OFFSET_LIMIT <= offset.y <= FX_OFFSET_LIMIT,
        ensures
            forall|j: int|
                0 <= j < 8 ==> #[trigger] out[j] == projected_vec(
                    *mvp_matrix,
                    self.points[j],
                    width as int,
                    height as int,
                    offset.x as int,
                    offset.y as int,
                ),
            forall|j: int|
                0 <= j < 8 ==> -FX_TRI_LIMIT <= (#[trigger] out[j]).x <= FX_TRI_LIMIT
                    && -FX_TRI_LIMIT <= out[j].y <= FX_TRI_LIMIT,
    {
        let mut out: [vec2f; 8] = [vec2f { x: 0, y: 0 }; 8];
        let mut i: usize = 0;
        while i < 8
            invariant
                0 <= i <= 8,
                forall|j: int|
                    0 <= j < i ==> #[trigger] out[j] == projected_vec(
                        *mvp_matrix,
                        self.points[j],
                        width as int,
                        height as int,
                        offset.x as int,
                        offset.y as int,
                    ),
                forall|j: int|
                    0 <= j < i ==> -FX_TRI_LIMIT <= (#[trigger] out[j]).x <= FX_TRI_LIMIT
                        && -FX_TRI_LIMIT <= out[j].y <= FX_TRI_LIMIT,
            decreases 8 - i,
        {
            let p = self.points[i];
            let q = mvp_matrix.apply(&p);
            let sx_raw = viewport_scale(q.x, width as i64);
            let sx = screen_clamp(sx_raw, width as i64) + offset.x;
            let sy_mid = viewport_scale(q.y, height as i64);
            let sy_raw = (height as i64) * FX_ONE - sy_mid;
            let sy = screen_clamp(sy_raw, height as i64) + offset.y;
            out[i] = vec2f { x: sx, y: sy };
            i = i + 1;
        }
        out
    }

    /// Draws the twelve edges of the projected cube as lines; `offset`
    /// is the screen-space placement shift applied after projection.
    #[verifier::loop_isolation(false)]
    pub fn rasterize_wireframe(
        &self,
        framebuffer: &mut Vec<u8>,
        width: usize,
        height: usize,
        mvp_matrix: &mat4x4,
        offset: &vec2f,
        color: u8,
    )
        requires
            old(framebuffer).len() == width * height,
            mat_bounded(*mvp_matrix, FX_COORD_LIMIT as int),
            forall|j: int|
                0 <= j < 8 ==> -FX_COORD_LIMIT <= (#[trigger] self.points[j]).x <= FX_COORD_LIMIT
                    && -FX_COORD_LIMIT <= self.points[j].y <= FX_COORD_LIMIT && -FX_COORD_LIMIT
                    <= self.points[j].z <= FX_COORD_LIMIT,
            1 <= width <= 4096,
            1 <= height <= 4096,
            -FX_OFFSET_LIMIT <= offset.x <= FX_OFFSET_LIMIT,
            -FX_OFFSET_LIMIT <= offset.y <= FX_OFFSET_LIMIT,
        ensures
            painted(
                old(framebuffer)@,
                final(framebuffer)@,
                wire_set(
                    width as int,
                    height as int,
                    *self,
                    *mvp_matrix,
                    offset.x as int,
                    offset.y as int,
                ),
                color,
            ),
    {
        let ghost w = width as int;
        let ghost h = height as int;
        let ghost offx = offset.x as int;
        let ghost offy = offset.y as int;
        let ghost pre = framebuffer@;
        let projected_points = self.project(mvp_matrix, width, height, offset);
        let ea: [usize; 12] = [0, 1, 2, 3, 4, 5, 6, 7, 0, 5, 6, 7];
        let eb: [usize; 12] = [1, 2, 3, 0, 5, 6, 7, 4, 4, 1, 2, 3];
        let mut e: usize = 0;
        while e < 12
            invariant
                0 <= e <= 12,
                framebuffer@.len() == pre.len(),
                painted(
                    pre,
                    framebuffer@,
                    wire_upto(w, h, *self, *mvp_matrix, offx, offy, e as int),
                    color,
                ),
            decreases 12 - e,
        {
            proof {
                assert(cube_edge(e as int) == (ea[e as int] as int, eb[e as int] as int));
            }
            let a = ea[e];
            let b = eb[e];
            let ghost mid = framebuffer@;
            draw_line(framebuffer, width, height, &projected_points[a], &projected_points[b], color);
            proof {
                lemma_wire_extend(w, h, *self, *mvp_matrix, offx, offy, e as int);
                lemma_painted_step(
                    pre,
                    mid,
                    framebuffer@,
                    wire_upto(w, h, *self, *mvp_matrix, offx, offy, e as int),
                    line_set(
                        w,
                        h,
                        projected_points[a as int].x as int,
                        projected_points[a as int].y as int,
                        projected_points[b as int].x as int,
                        projected_points[b as int].y as int,
                    ),
                    wire_upto(w, h, *self, *mvp_matrix, offx, offy, e as int + 1),
                    color,
                );
            }
            e = e + 1;
        }
    }

    /// Fills the twelve face triangles of the projected cube; `offset`
    /// is the screen-space placement shift applied after projection.
    #[verifier::loop_isolation(false)]
    pub fn rasterize(
        &self,
        framebuffer: &mut Vec<u8>,
        width: usize,
        height: usize,
        mvp_matrix: &mat4x4,
        offset: &vec2f,
        color: u8,
    )
        requires
            old(framebuffer).len() == width * height,
            mat_bounded(*mvp_matrix, FX_COORD_LIMIT as int),
            forall|j: int|
                0 <= j < 8 ==> -FX_COORD_LIMIT <= (#[trigger] self.points[j]).x <= FX_COORD_LIMIT
                    && -FX_COORD_LIMIT <= self.points[j].y <= FX_COORD_LIMIT && -FX_COORD_LIMIT
                    <= self.points[j].z <= FX_COORD_LIMIT,
            1 <= width <= 4096,
            1 <= height <= 4096,
            -FX_OFFSET_LIMIT <= offset.x <= FX_OFFSET_LIMIT,
            -FX_OFFSET_LIMIT <= offset.y <= FX_OFFSET_LIMIT,
        ensures
            painted(
                old(framebuffer)@,
                final(framebuffer)@,
                cube_fill_set(
                    width as int,
                    height as int,
                    *self,
                    *mvp_matrix,
                    offset.x as int,
                    offset.y as int,
                ),
                color,
            ),
    {
        let ghost w = width as int;
        let ghost h = height as int;
        let ghost offx = offset.x as int;
        let ghost offy = offset.y as int;
        let ghost pre = framebuffer@;
        let projected_points = self.project(mvp_matrix, width, height, offset);
        let fa: [usize; 12] = [0, 0, 0, 0, 2, 2, 6, 6, 1, 3, 1, 2];
        let fb: [usize; 12] = [1, 5, 1, 3, 3, 6, 5, 4, 3, 4, 2, 5];
        let fc: [usize; 12] = [5, 4, 2, 2, 7, 7, 4, 7, 4, 7, 5, 6];
        let mut f: usize = 0;
        while f < 12
            invariant
                0 <= f <= 12,
                framebuffer@.len() == pre.len(),
                painted(
                    pre,
                    framebuffer@,
                    faces_upto(w, h, *self, *mvp_matrix, offx, offy, f as int),
                    color,
                ),
            decreases 12 - f,
        {
            proof {
                assert(cube_face(f as int) == (
                    fa[f as int] as int,
                    fb[f as int] as int,
                    fc[f as int] as int,
                ));
            }
            let a = fa[f];
            let b = fb[f];
            let c = fc[f];
            let tri = triangle::from(&projected_points[a], &projected_points[b], &projected_points[c]);
            let ghost mid = framebuffer@;
            tri.draw(framebuffer, width, height, color);
            proof {
                lemma_faces_extend(w, h, *self, *mvp_matrix, offx, offy, f as int);
                lemma_painted_step(
                    pre,
                    mid,
                    framebuffer@,
                    faces_upto(w, h, *self, *mvp_matrix, offx, offy, f as int),
                    tri_set(
                        w,
                        h,
                        tri.points[0],
                        tri.points[1],
                        tri.points[2],
                    ),
                    faces_upto(w, h, *self, *mvp_matrix, offx, offy, f as int + 1),
                    color,
                );
            }
            f = f + 1;
        }
    }
}

} // verus!
