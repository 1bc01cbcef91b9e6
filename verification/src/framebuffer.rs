//! Bounds-checked framebuffer primitives: pixel writes, clearing,
//! horizontal span fill, and slope-stepping line drawing.
//!
//! The framebuffer is a caller-owned byte buffer of `width * height`
//! color indices, addressed as `buffer[y * width + x]`. Every contract is
//! phrased through `painted`: the post-state equals the pre-state with
//! exactly the pixels of a stated coverage set overwritten by the color.
//! A write aimed outside the buffer is silently dropped, never an error.

use crate::fixed::fx_abs;
use crate::fixed::fx_div;
use crate::fixed::fx_div_spec;
use crate::fixed::fx_mul;
use crate::fixed::fx_mul_spec;
use crate::fixed::fx_px_spec;
use crate::fixed::fx_to_px;
use crate::fixed::lemma_fx_tdiv_abs;
use crate::fixed::FX_COORD_LIMIT;
use crate::fixed::FX_ONE;
use crate::vector::vec2f;
use vstd::arithmetic::div_mod::lemma_div_is_ordered;
use vstd::arithmetic::div_mod::lemma_div_multiples_vanish;
use vstd::prelude::*;

verus! {

/// The byte offset of pixel (x, y) in a buffer `width` pixels wide.
pub open spec fn fb_index(width: int, x: int, y: int) -> int {
    y * width + x
}

/// Whether (x, y) addresses a pixel inside the buffer.
pub open spec fn px_in_bounds(width: int, height: int, x: int, y: int) -> bool {
    0 <= x < width && 0 <= y < height
}

/// The post-state `post` is the pre-state `pre` with exactly the offsets
/// in `s` overwritten by `color`.
pub open spec fn painted(pre: Seq<u8>, post: Seq<u8>, s: Set<int>, color: u8) -> bool {
    &&& post.len() == pre.len()
    &&& forall|i: int|
        #![trigger post[i]]
        0 <= i < pre.len() ==> post[i] == (if s.contains(i) {
            color
        } else {
            pre[i]
        })
}

/// Two paintings with the same color compose into one painting of the
/// union of their coverage sets.
pub proof fn lemma_painted_trans(b0: Seq<u8>, b1: Seq<u8>, b2: Seq<u8>, s1: Set<int>, s2: Set<int>, color: u8)
    requires
        painted(b0, b1, s1, color),
        painted(b1, b2, s2, color),
    ensures
        painted(b0, b2, s1.union(s2), color),
{
}

/// As `lemma_painted_trans`, with the union given under any equal name.
pub proof fn lemma_painted_step(b0: Seq<u8>, b1: Seq<u8>, b2: Seq<u8>, s1: Set<int>, s2: Set<int>, s3: Set<int>, color: u8)
    requires
        painted(b0, b1, s1, color),
        painted(b1, b2, s2, color),
        s3 =~= s1.union(s2),
    ensures
        painted(b0, b2, s3, color),
{
}

/// Painting an empty coverage set changes nothing.
pub proof fn lemma_painted_empty(b0: Seq<u8>, b1: Seq<u8>, s: Set<int>, color: u8)
    requires
        painted(b0, b1, s, color),
        s =~= Set::empty(),
    ensures
        b1 =~= b0,
{
}

/// The coverage of a single bounds-checked pixel write: one offset inside
/// the buffer, nothing outside it.
pub open spec fn pixel_set(width: int, height: int, x: int, y: int) -> Set<int> {
    if px_in_bounds(width, height, x, y) {
        Set::empty().insert(fb_index(width, x, y))
    } else {
        Set::empty()
    }
}

/// An in-bounds pixel's offset lies inside the buffer.
pub proof fn lemma_fb_index_bound(width: int, height: int, x: int, y: int)
    requires
        0 <= x < width,
        0 <= y < height,
    ensures
        0 <= y * width + x < width * height,
{
    assert(0 <= y * width + x < width * height) by (nonlinear_arith)
        requires
            0 <= x < width,
            0 <= y < height,
    ;
}

/// Writes `color` at pixel (x, y) if that pixel lies inside the buffer;
/// a coordinate outside `[0, width) x [0, height)` leaves the buffer
/// entirely unchanged (the clipping policy, not an error).
pub fn draw_pixel(framebuffer: &mut Vec<u8>, width: usize, height: usize, x: i64, y: i64, color: u8)
    requires
        old(framebuffer).len() == width * height,
        width <= 0x1_0000_0000,
        height <= 0x1_0000_0000,
    ensures
        painted(
            old(framebuffer)@,
            final(framebuffer)@,
            pixel_set(width as int, height as int, x as int, y as int),
            color,
        ),
        !px_in_bounds(width as int, height as int, x as int, y as int) ==> final(framebuffer)@
            == old(framebuffer)@,
{
    if x >= 0 && y >= 0 && x < width as i64 && y < height as i64 {
        proof {
            lemma_fb_index_bound(width as int, height as int, x as int, y as int);
        }
        let idx: usize = (y as usize) * width + (x as usize);
        framebuffer[idx] = color;
    }
}

/// Fills the whole buffer with the background color index 0.
pub fn clear(framebuffer: &mut Vec<u8>)
    ensures
        final(framebuffer)@.len() == old(framebuffer)@.len(),
        forall|i: int| 0 <= i < final(framebuffer)@.len() ==> final(framebuffer)@[i] == 0u8,
{
    let n = framebuffer.len();
    let mut idx: usize = 0;
    while idx < n
        invariant
            framebuffer@.len() == n,
            idx <= n,
            forall|i: int| 0 <= i < idx ==> framebuffer@[i] == 0u8,
        decreases n - idx,
    {
        framebuffer[idx] = 0u8;
        idx += 1;
    }
}

/// The offsets of row `yt` covered by pixel columns `[lo, hi)`, clipped
/// to the buffer width.
pub open spec fn row_set(width: int, yt: int, lo: int, hi: int) -> Set<int> {
    Set::new(
        |i: int|
            exists|x: int| lo <= x < hi && 0 <= x < width && i == fb_index(width, x, yt),
    )
}

/// The coverage of a horizontal span between the fixed-point columns `bx`
/// and `ex` (in either order) on the fixed-point row `y`: the pixels of
/// the row under `y`, from the lower truncated column up to but not
/// including the higher one, clipped to the buffer.
pub open spec fn hspan_set(width: int, height: int, y: int, bx: int, ex: int) -> Set<int> {
    let yt = fx_px_spec(y);
    let lo = if bx < ex {
        fx_px_spec(bx)
    } else {
        fx_px_spec(ex)
    };
    let hi = if bx < ex {
        fx_px_spec(ex)
    } else {
        fx_px_spec(bx)
    };
    if 0 <= yt < height {
        row_set(width, yt, lo, hi)
    } else {
        Set::empty()
    }
}

/// Painting one more pixel extends a painting by that offset.
proof fn lemma_painted_insert(pre: Seq<u8>, mid: Seq<u8>, s: Set<int>, idx: int, color: u8)
    requires
        painted(pre, mid, s, color),
        0 <= idx < pre.len(),
    ensures
        painted(pre, mid.update(idx, color), s.insert(idx), color),
{
}

/// Extending a row's column range by one in-bounds column inserts exactly
/// that column's offset.
proof fn lemma_row_set_extend(w: int, yt: int, lo: int, x: int)
    requires
        lo <= x,
        0 <= x < w,
    ensures
        row_set(w, yt, lo, x + 1) =~= row_set(w, yt, lo, x).insert(fb_index(w, x, yt)),
{
    assert forall|i: int| #[trigger] row_set(w, yt, lo, x + 1).contains(i) implies row_set(
        w,
        yt,
        lo,
        x,
    ).insert(fb_index(w, x, yt)).contains(i) by {
        let xx = choose|xx: int| lo <= xx < x + 1 && 0 <= xx < w && i == fb_index(w, xx, yt);
        if xx < x {
            assert(row_set(w, yt, lo, x).contains(i));
        }
    }
    assert forall|i: int| row_set(w, yt, lo, x).insert(fb_index(w, x, yt)).contains(i) implies #[trigger] row_set(
        w,
        yt,
        lo,
        x + 1,
    ).contains(i) by {
        if row_set(w, yt, lo, x).contains(i) {
            let xx = choose|xx: int| lo <= xx < x && 0 <= xx < w && i == fb_index(w, xx, yt);
            assert(lo <= xx < x + 1 && 0 <= xx < w && i == fb_index(w, xx, yt));
        } else {
            assert(lo <= x < x + 1 && 0 <= x < w && i == fb_index(w, x, yt));
        }
    }
}

/// Clamping the column range to the buffer does not change which pixels
/// the row covers.
proof fn lemma_row_set_clamped(w: int, yt: int, lo: int, hi: int, start: int, cap: int, xend: int)
    requires
        start == if lo < 0 {
            0
        } else {
            lo
        },
        cap == if hi > w {
            w
        } else {
            hi
        },
        xend == if cap > start {
            cap
        } else {
            start
        },
    ensures
        row_set(w, yt, lo, xend) =~= row_set(w, yt, lo, hi),
{
    assert forall|i: int| #[trigger] row_set(w, yt, lo, xend).contains(i) implies row_set(
        w,
        yt,
        lo,
        hi,
    ).contains(i) by {
        let xx = choose|xx: int| lo <= xx < xend && 0 <= xx < w && i == fb_index(w, xx, yt);
        assert(lo <= xx < hi && 0 <= xx < w && i == fb_index(w, xx, yt));
    }
    assert forall|i: int| #[trigger] row_set(w, yt, lo, hi).contains(i) implies row_set(
        w,
        yt,
        lo,
        xend,
    ).contains(i) by {
        let xx = choose|xx: int| lo <= xx < hi && 0 <= xx < w && i == fb_index(w, xx, yt);
        assert(lo <= xx < xend && 0 <= xx < w && i == fb_index(w, xx, yt));
    }
}

/// Fills the pixels of one scanline between two fixed-point column
/// bounds, given in either order; the row and the columns are clipped to
/// the buffer.
#[verifier::loop_isolation(false)]
pub fn draw_line_horizontal(
    framebuffer: &mut Vec<u8>,
    width: usize,
    height: usize,
    y: i64,
    begin_x: i64,
    end_x: i64,
    color: u8,
)
    requires
        old(framebuffer).len() == width * height,
        width <= 0x1_0000_0000,
        height <= 0x1_0000_0000,
    ensures
        painted(
            old(framebuffer)@,
            final(framebuffer)@,
            hspan_set(width as int, height as int, y as int, begin_x as int, end_x as int),
            color,
        ),
{
    let yt = fx_to_px(y);
    let lo_f = if begin_x < end_x {
        begin_x
    } else {
        end_x
    };
    let hi_f = if begin_x < end_x {
        end_x
    } else {
        begin_x
    };
    let lo = fx_to_px(lo_f);
    let hi = fx_to_px(hi_f);
    if yt < 0 || yt >= height as i64 {
        return ;
    }
    let start = if lo < 0 {
        0
    } else {
        lo
    };
    let cap = if hi > width as i64 {
        width as i64
    } else {
        hi
    };
    let mut x = start;
    let ghost pre = framebuffer@;
    while x < cap
        invariant
            start <= x,
            x <= if cap > start {
                cap
            } else {
                start
            },
            framebuffer@.len() == pre.len(),
            painted(pre, framebuffer@, row_set(width as int, yt as int, lo as int, x as int), color),
        decreases cap - x,
    {
        proof {
            lemma_fb_index_bound(width as int, height as int, x as int, yt as int);
        }
        let idx: usize = (yt as usize) * width + (x as usize);
        let ghost mid = framebuffer@;
        framebuffer[idx] = color;
        proof {
            lemma_painted_insert(
                pre,
                mid,
                row_set(width as int, yt as int, lo as int, x as int),
                idx as int,
                color,
            );
            lemma_row_set_extend(width as int, yt as int, lo as int, x as int);
        }
        x = x + 1;
    }
    proof {
        lemma_row_set_clamped(
            width as int,
            yt as int,
            lo as int,
            hi as int,
            start as int,
            cap as int,
            x as int,
        );
    }
}

/// The number of the last step of the line sampler for the deltas `dx`,
/// `dy`: the integer part of the larger delta magnitude, so the sampler
/// walks the driving axis one pixel at a time.
pub open spec fn line_n(dx: int, dy: int) -> int {
    if fx_abs(dy) <= fx_abs(dx) {
        fx_px_spec(fx_abs(dx))
    } else {
        fx_px_spec(fx_abs(dy))
    }
}

/// The pixel the line sampler visits at step `k`, starting at the
/// fixed-point point (bx, by) with deltas (dx, dy). A shallow line steps
/// along X and derives Y from the slope dy/dx; a steep one steps along Y
/// and derives X from dx/dy; a zero-length line stays on its single
/// starting pixel.
pub open spec fn line_pt(bx: int, by: int, dx: int, dy: int, k: int) -> (int, int) {
    if fx_abs(dy) <= fx_abs(dx) && dx == 0 {
        (fx_px_spec(bx), fx_px_spec(by))
    } else if fx_abs(dy) <= fx_abs(dx) {
        let step = if dx > 0 {
            k * 65536
        } else {
            -(k * 65536)
        };
        (fx_px_spec(bx + step), fx_px_spec(by + fx_mul_spec(step, fx_div_spec(dy, dx))))
    } else {
        let step = if dy > 0 {
            k * 65536
        } else {
            -(k * 65536)
        };
        (fx_px_spec(bx + fx_mul_spec(step, fx_div_spec(dx, dy))), fx_px_spec(by + step))
    }
}

/// The offsets of the in-bounds pixels the sampler visits at steps
/// `0 <= k < kend`.
pub open spec fn line_set_upto(
    w: int,
    h: int,
    bx: int,
    by: int,
    dx: int,
    dy: int,
    kend: int,
) -> Set<int> {
    Set::new(
        |i: int|
            exists|k: int|
                0 <= k < kend && px_in_bounds(
                    w,
                    h,
                    line_pt(bx, by, dx, dy, k).0,
                    line_pt(bx, by, dx, dy, k).1,
                ) && i == fb_index(w, line_pt(bx, by, dx, dy, k).0, line_pt(bx, by, dx, dy, k).1),
    )
}

/// The coverage of the line from (bx, by) to (ex, ey): every pixel the
/// sampler visits from step 0 through the final step, both endpoints
/// included, clipped to the buffer.
pub open spec fn line_set(w: int, h: int, bx: int, by: int, ex: int, ey: int) -> Set<int> {
    line_set_upto(w, h, bx, by, ex - bx, ey - by, line_n(ex - bx, ey - by) + 1)
}

/// A zero-length line covers at most its single starting pixel: its
/// coverage is exactly the bounds-checked pixel under the point.
pub proof fn lemma_line_degenerate(w: int, h: int, bx: int, by: int)
    ensures
        line_set(w, h, bx, by, bx, by) =~= pixel_set(w, h, fx_px_spec(bx), fx_px_spec(by)),
{
    let px = fx_px_spec(bx);
    let py = fx_px_spec(by);
    assert forall|i: int| #[trigger] line_set(w, h, bx, by, bx, by).contains(i) implies pixel_set(
        w,
        h,
        px,
        py,
    ).contains(i) by {
        let k = choose|k: int|
            0 <= k < line_n(0, 0) + 1 && px_in_bounds(
                w,
                h,
                line_pt(bx, by, 0, 0, k).0,
                line_pt(bx, by, 0, 0, k).1,
            ) && i == fb_index(w, line_pt(bx, by, 0, 0, k).0, line_pt(bx, by, 0, 0, k).1);
        assert(line_pt(bx, by, 0, 0, k) == (px, py));
    }
    assert forall|i: int| #[trigger] pixel_set(w, h, px, py).contains(i) implies line_set(
        w,
        h,
        bx,
        by,
        bx,
        by,
    ).contains(i) by {
        assert(line_pt(bx, by, 0, 0, 0) == (px, py));
        assert(0 <= 0 < line_n(0, 0) + 1 && px_in_bounds(
            w,
            h,
            line_pt(bx, by, 0, 0, 0).0,
            line_pt(bx, by, 0, 0, 0).1,
        ) && i == fb_index(w, line_pt(bx, by, 0, 0, 0).0, line_pt(bx, by, 0, 0, 0).1));
    }
}

/// One more sampler step extends the covered offsets by the bounds-checked
/// pixel of that step.
proof fn lemma_line_set_extend(w: int, h: int, bx: int, by: int, dx: int, dy: int, k: int)
    requires
        0 <= k,
    ensures
        line_set_upto(w, h, bx, by, dx, dy, k + 1) =~= line_set_upto(
            w,
            h,
            bx,
            by,
            dx,
            dy,
            k,
        ).union(pixel_set(w, h, line_pt(bx, by, dx, dy, k).0, line_pt(bx, by, dx, dy, k).1)),
{
    let px = line_pt(bx, by, dx, dy, k).0;
    let py = line_pt(bx, by, dx, dy, k).1;
    assert forall|i: int| #[trigger] line_set_upto(w, h, bx, by, dx, dy, k + 1).contains(i) implies
        line_set_upto(w, h, bx, by, dx, dy, k).union(pixel_set(w, h, px, py)).contains(i) by {
        let kk = choose|kk: int|
            0 <= kk < k + 1 && px_in_bounds(
                w,
                h,
                line_pt(bx, by, dx, dy, kk).0,
                line_pt(bx, by, dx, dy, kk).1,
            ) && i == fb_index(w, line_pt(bx, by, dx, dy, kk).0, line_pt(bx, by, dx, dy, kk).1);
        if kk < k {
            assert(line_set_upto(w, h, bx, by, dx, dy, k).contains(i));
        } else {
            assert(pixel_set(w, h, px, py).contains(i));
        }
    }
    assert forall|i: int| line_set_upto(w, h, bx, by, dx, dy, k).union(
        pixel_set(w, h, px, py),
    ).contains(i) implies #[trigger] line_set_upto(w, h, bx, by, dx, dy, k + 1).contains(i) by {
        if line_set_upto(w, h, bx, by, dx, dy, k).contains(i) {
            let kk = choose|kk: int|
                0 <= kk < k && px_in_bounds(
                    w,
                    h,
                    line_pt(bx, by, dx, dy, kk).0,
                    line_pt(bx, by, dx, dy, kk).1,
                ) && i == fb_index(
                    w,
                    line_pt(bx, by, dx, dy, kk).0,
                    line_pt(bx, by, dx, dy, kk).1,
                );
            assert(0 <= kk < k + 1 && px_in_bounds(
                w,
                h,
                line_pt(bx, by, dx, dy, kk).0,
                line_pt(bx, by, dx, dy, kk).1,
            ) && i == fb_index(w, line_pt(bx, by, dx, dy, kk).0, line_pt(bx, by, dx, dy, kk).1));
        } else {
            assert(pixel_set(w, h, px, py).contains(i));
            assert(px_in_bounds(w, h, px, py));
            assert(0 <= k < k + 1 && px_in_bounds(
                w,
                h,
                line_pt(bx, by, dx, dy, k).0,
                line_pt(bx, by, dx, dy, k).1,
            ) && i == fb_index(w, line_pt(bx, by, dx, dy, k).0, line_pt(bx, by, dx, dy, k).1));
        }
    }
}

/// When the numerator is no larger in magnitude than the denominator, the
/// fixed-point quotient stays within one unit (the slope of a shallow
/// line, or the inverse slope of a steep one).
proof fn lemma_slope_bound(num: int, den: int)
    requires
        den != 0,
        fx_abs(num) <= fx_abs(den),
    ensures
        fx_abs(fx_div_spec(num, den)) <= 65536,
{
    lemma_fx_tdiv_abs(num * 65536, den);
    assert(fx_abs(num * 65536) == fx_abs(num) * 65536);
    lemma_div_is_ordered(fx_abs(num) * 65536, fx_abs(den) * 65536, fx_abs(den));
    lemma_div_multiples_vanish(65536, fx_abs(den));
}

/// The step count of a line whose coordinates stay within
/// `FX_COORD_LIMIT` fits comfortably in 16 bits.
proof fn lemma_line_n_bound(d: int)
    requires
        0 <= d <= 0x8000_0000,
    ensures
        0 <= fx_px_spec(d) <= 0x8000,
{
    lemma_fx_tdiv_abs(d, 65536);
    lemma_div_is_ordered(d, 0x8000_0000, 65536);
}

/// Draws the line between two fixed-point screen points with a
/// slope-stepping sampler: a shallow line is stepped along X (one pixel
/// per column), a steep one along Y (one pixel per row), each visited
/// pixel clipped to the buffer. Both endpoints' pixels belong to the
/// line; a zero-length line draws at most the single pixel under its
/// point.
#[verifier::loop_isolation(false)]
pub fn draw_line(
    framebuffer: &mut Vec<u8>,
    width: usize,
    height: usize,
    begin: &vec2f,
    end: &vec2f,
    color: u8,
)
    requires
        old(framebuffer).len() == width * height,
        width <= 0x1_0000_0000,
        height <= 0x1_0000_0000,
        -FX_COORD_LIMIT <= begin.x <= FX_COORD_LIMIT,
        -FX_COORD_LIMIT <= begin.y <= FX_COORD_LIMIT,
        -FX_COORD_LIMIT <= end.x <= FX_COORD_LIMIT,
        -FX_COORD_LIMIT <= end.y <= FX_COORD_LIMIT,
    ensures
        painted(
            old(framebuffer)@,
            final(framebuffer)@,
            line_set(
                width as int,
                height as int,
                begin.x as int,
                begin.y as int,
                end.x as int,
                end.y as int,
            ),
            color,
        ),
{
    let ghost w = width as int;
    let ghost h = height as int;
    let ghost bx = begin.x as int;
    let ghost by = begin.y as int;
    let dx = end.x - begin.x;
    let dy = end.y - begin.y;
    let adx = if dx < 0 {
        -dx
    } else {
        dx
    };
    let ady = if dy < 0 {
        -dy
    } else {
        dy
    };
    let ghost pre = framebuffer@;
    if ady <= adx {
        if dx == 0 {
            let px = fx_to_px(begin.x);
            let py = fx_to_px(begin.y);
            draw_pixel(framebuffer, width, height, px, py, color);
            proof {
                lemma_line_degenerate(w, h, bx, by);
            }
            return ;
        }
        let slope = fx_div(dy, dx);
        proof {
            lemma_slope_bound(dy as int, dx as int);
            lemma_line_n_bound(adx as int);
        }
        let n = fx_to_px(adx);
        let mut k: i64 = 0;
        while k <= n
            invariant
                0 <= k <= n + 1,
                framebuffer@.len() == pre.len(),
                painted(
                    pre,
                    framebuffer@,
                    line_set_upto(w, h, bx, by, dx as int, dy as int, k as int),
                    color,
                ),
            decreases n + 1 - k,
        {
            let kf = k * FX_ONE;
            let step = if dx > 0 {
                kf
            } else {
                -kf
            };
            let px = fx_to_px(begin.x + step);
            let py = fx_to_px(begin.y + fx_mul(step, slope));
            let ghost mid = framebuffer@;
            draw_pixel(framebuffer, width, height, px, py, color);
            proof {
                assert(line_pt(bx, by, dx as int, dy as int, k as int) == (px as int, py as int));
                lemma_line_set_extend(w, h, bx, by, dx as int, dy as int, k as int);
                lemma_painted_step(
                    pre,
                    mid,
                    framebuffer@,
                    line_set_upto(w, h, bx, by, dx as int, dy as int, k as int),
                    pixel_set(w, h, px as int, py as int),
                    line_set_upto(w, h, bx, by, dx as int, dy as int, k as int + 1),
                    color,
                );
            }
            k = k + 1;
        }
    } else {
        let slope = fx_div(dx, dy);
        proof {
            lemma_slope_bound(dx as int, dy as int);
            lemma_line_n_bound(ady as int);
        }
        let n = fx_to_px(ady);
        let mut k: i64 = 0;
        while k <= n
            invariant
                0 <= k <= n + 1,
                framebuffer@.len() == pre.len(),
                painted(
                    pre,
                    framebuffer@,
                    line_set_upto(w, h, bx, by, dx as int, dy as int, k as int),
                    color,
                ),
            decreases n + 1 - k,
        {
            let kf = k * FX_ONE;
            let step = if dy > 0 {
                kf
            } else {
                -kf
            };
            let px = fx_to_px(begin.x + fx_mul(step, slope));
            let py = fx_to_px(begin.y + step);
            let ghost mid = framebuffer@;
            draw_pixel(framebuffer, width, height, px, py, color);
            proof {
                assert(line_pt(bx, by, dx as int, dy as int, k as int) == (px as int, py as int));
                lemma_line_set_extend(w, h, bx, by, dx as int, dy as int, k as int);
                lemma_painted_step(
                    pre,
                    mid,
                    framebuffer@,
                    line_set_upto(w, h, bx, by, dx as int, dy as int, k as int),
                    pixel_set(w, h, px as int, py as int),
                    line_set_upto(w, h, bx, by, dx as int, dy as int, k as int + 1),
                    color,
                );
            }
            k = k + 1;
        }
    }
}

/// Draws the line between two vertices; the points already are
/// fixed-point screen positions, so this forwards to `draw_line`.
pub fn draw_line_vertex(
    framebuffer: &mut Vec<u8>,
    width: usize,
    height: usize,
    begin: &vec2f,
    end: &vec2f,
    color: u8,
)
    requires
        old(framebuffer).len() == width * height,
        width <= 0x1_0000_0000,
        height <= 0x1_0000_0000,
        -FX_COORD_LIMIT <= begin.x <= FX_COORD_LIMIT,
        -FX_COORD_LIMIT <= begin.y <= FX_COORD_LIMIT,
        -FX_COORD_LIMIT <= end.x <= FX_COORD_LIMIT,
        -FX_COORD_LIMIT <= end.y <= FX_COORD_LIMIT,
    ensures
        painted(
            old(framebuffer)@,
            final(framebuffer)@,
            line_set(
                width as int,
                height as int,
                begin.x as int,
                begin.y as int,
                end.x as int,
                end.y as int,
            ),
            color,
        ),
{
    let b = vec2f { x: begin.x, y: begin.y };
    let e = vec2f { x: end.x, y: end.y };
    draw_line(framebuffer, width, height, &b, &e, color);
}

/// Draws the single pixel under a fixed-point screen position.
pub fn draw_vertex(framebuffer: &mut Vec<u8>, width: usize, height: usize, vert: &vec2f, pixel: u8)
    requires
        old(framebuffer).len() == width * height,
        width <= 0x1_0000_0000,
        height <= 0x1_0000_0000,
    ensures
        painted(
            old(framebuffer)@,
            final(framebuffer)@,
            pixel_set(
                width as int,
                height as int,
                fx_px_spec(vert.x as int),
                fx_px_spec(vert.y as int),
            ),
            pixel,
        ),
{
    let px = fx_to_px(vert.x);
    let py = fx_to_px(vert.y);
    draw_pixel(framebuffer, width, height, px, py, pixel);
}

/// The position in a column-major pixel stream of the cell (x, y) of the
/// rectangle starting at (xb, yb) whose columns are `ye - yb` tall.
pub open spec fn iter_cell(xb: int, yb: int, ye: int, x: int, y: int) -> int {
    (x - xb) * (ye - yb) + (y - yb)
}

/// Whether buffer offset `i` receives a pixel when `npix` stream pixels
/// are written column-major into the rectangle `[xb, xe) x [yb, ye)`.
pub open spec fn iter_covers(
    w: int,
    xb: int,
    yb: int,
    xe: int,
    ye: int,
    npix: int,
    i: int,
) -> bool {
    exists|x: int, y: int|
        xb <= x < xe && yb <= y < ye && iter_cell(xb, yb, ye, x, y) < npix && i == fb_index(
            w,
            x,
            y,
        )
}

/// Column-major stream cells are distinct for distinct rectangle cells.
proof fn lemma_iter_cell_inj(
    xb: int,
    yb: int,
    ye: int,
    x1: int,
    y1: int,
    x2: int,
    y2: int,
)
    requires
        yb <= y1 < ye,
        yb <= y2 < ye,
        iter_cell(xb, yb, ye, x1, y1) == iter_cell(xb, yb, ye, x2, y2),
    ensures
        x1 == x2 && y1 == y2,
{
    assert(x1 == x2 && y1 == y2) by (nonlinear_arith)
        requires
            yb <= y1 < ye,
            yb <= y2 < ye,
            (x1 - xb) * (ye - yb) + (y1 - yb) == (x2 - xb) * (ye - yb) + (y2 - yb),
    ;
}

/// Distinct in-bounds pixels occupy distinct buffer offsets.
proof fn lemma_fb_index_inj(w: int, x1: int, y1: int, x2: int, y2: int)
    requires
        0 <= x1 < w,
        0 <= x2 < w,
        fb_index(w, x1, y1) == fb_index(w, x2, y2),
    ensures
        x1 == x2 && y1 == y2,
{
    assert(x1 == x2 && y1 == y2) by (nonlinear_arith)
        requires
            0 <= x1 < w,
            0 <= x2 < w,
            y1 * w + x1 == y2 * w + x2,
    ;
}

/// A rectangle cell's stream position stays below the rectangle's area.
proof fn lemma_iter_cell_bound(xb: int, yb: int, xe: int, ye: int, x: int, y: int)
    requires
        xb <= x < xe,
        yb <= y < ye,
    ensures
        0 <= iter_cell(xb, yb, ye, x, y) < (xe - xb) * (ye - yb),
{
    assert(0 <= (x - xb) * (ye - yb) + (y - yb) < (xe - xb) * (ye - yb)) by (nonlinear_arith)
        requires
            xb <= x < xe,
            yb <= y < ye,
    ;
}

/// Streams pixels into the rectangle `[x_begin, x_end) x [y_begin, y_end)`
/// column by column, stopping when the stream runs out: cell `k` of the
/// column-major order receives stream pixel `k`, and every offset outside
/// the streamed cells keeps its old value.
#[verifier::loop_isolation(false)]
pub fn draw_iter(
    framebuffer: &mut Vec<u8>,
    width: usize,
    height: usize,
    x_begin: usize,
    y_begin: usize,
    x_end: usize,
    y_end: usize,
    pixels: &Vec<u8>,
)
    requires
        old(framebuffer).len() == width * height,
        width <= 0x1_0000_0000,
        height <= 0x1_0000_0000,
        x_begin <= x_end <= width,
        y_begin <= y_end <= height,
    ensures
        final(framebuffer)@.len() == old(framebuffer)@.len(),
        forall|x: int, y: int|
            x_begin <= x < x_end && y_begin <= y < y_end && iter_cell(
                x_begin as int,
                y_begin as int,
                y_end as int,
                x,
                y,
            ) < pixels@.len() ==> final(framebuffer)@[fb_index(width as int, x, y)] == pixels@[
                iter_cell(x_begin as int, y_begin as int, y_end as int, x, y)
            ],
        forall|i: int|
            0 <= i < old(framebuffer)@.len() && !iter_covers(
                width as int,
                x_begin as int,
                y_begin as int,
                x_end as int,
                y_end as int,
                pixels@.len() as int,
                i,
            ) ==> final(framebuffer)@[i] == old(framebuffer)@[i],
{
    let ghost w = width as int;
    let ghost xb = x_begin as int;
    let ghost yb = y_begin as int;
    let ghost xe = x_end as int;
    let ghost ye = y_end as int;
    let ghost pre = framebuffer@;
    let npix = pixels.len();
    let mut k: usize = 0;
    let mut x = x_begin;
    while x < x_end
        invariant
            x_begin <= x <= x_end,
            k == (x - x_begin) * (y_end - y_begin),
            k <= npix,
            framebuffer@.len() == pre.len(),
            forall|xx: int, yy: int|
                xb <= xx < xe && yb <= yy < ye && iter_cell(xb, yb, ye, xx, yy) < k
                    ==> framebuffer@[fb_index(w, xx, yy)] == pixels@[iter_cell(xb, yb, ye, xx, yy)],
            forall|i: int|
                0 <= i < pre.len() && !iter_covers(w, xb, yb, xe, ye, k as int, i)
                    ==> framebuffer@[i] == pre[i],
        decreases x_end - x,
    {
        let mut y = y_begin;
        while y < y_end
            invariant
                x_begin <= x < x_end,
                y_begin <= y <= y_end,
                k == (x - x_begin) * (y_end - y_begin) + (y - y_begin),
                k <= npix,
                framebuffer@.len() == pre.len(),
                forall|xx: int, yy: int|
                    xb <= xx < xe && yb <= yy < ye && iter_cell(xb, yb, ye, xx, yy) < k
                        ==> framebuffer@[fb_index(w, xx, yy)] == pixels@[
                        iter_cell(xb, yb, ye, xx, yy)
                    ],
                forall|i: int|
                    0 <= i < pre.len() && !iter_covers(w, xb, yb, xe, ye, k as int, i)
                        ==> framebuffer@[i] == pre[i],
            decreases y_end - y,
        {
            if k == npix {
                proof {
                    assert forall|i: int|
                        0 <= i < pre.len() && !iter_covers(w, xb, yb, xe, ye, npix as int, i)
                            implies framebuffer@[i] == pre[i] by {
                        assert(!iter_covers(w, xb, yb, xe, ye, k as int, i));
                    }
                }
                return ;
            }
            proof {
                lemma_fb_index_bound(w, height as int, x as int, y as int);
                lemma_iter_cell_bound(xb, yb, xe, ye, x as int, y as int);
            }
            let idx: usize = y * width + x;
            let ghost mid = framebuffer@;
            let pix = pixels[k];
            framebuffer[idx] = pix;
            proof {
                assert(iter_cell(xb, yb, ye, x as int, y as int) == k);
                assert forall|xx: int, yy: int|
                    xb <= xx < xe && yb <= yy < ye && iter_cell(xb, yb, ye, xx, yy) < k + 1
                        implies framebuffer@[fb_index(w, xx, yy)] == pixels@[
                    iter_cell(xb, yb, ye, xx, yy)
                ] by {
                    lemma_fb_index_bound(w, height as int, xx, yy);
                    if iter_cell(xb, yb, ye, xx, yy) < k {
                        if fb_index(w, xx, yy) == idx as int {
                            lemma_fb_index_inj(w, xx, yy, x as int, y as int);
                        }
                    } else {
                        lemma_iter_cell_inj(xb, yb, ye, xx, yy, x as int, y as int);
                    }
                }
                assert forall|i: int|
                    0 <= i < pre.len() && !iter_covers(w, xb, yb, xe, ye, k as int + 1, i)
                        implies framebuffer@[i] == pre[i] by {
                    assert(!iter_covers(w, xb, yb, xe, ye, k as int, i)) by {
                        if iter_covers(w, xb, yb, xe, ye, k as int, i) {
                            let (xx, yy) = choose|xx: int, yy: int|
                                xb <= xx < xe && yb <= yy < ye && iter_cell(xb, yb, ye, xx, yy)
                                    < k as int && i == fb_index(w, xx, yy);
                            assert(iter_cell(xb, yb, ye, xx, yy) < k as int + 1);
                        }
                    }
                    assert(xb <= (x as int) && (x as int) < xe && yb <= (y as int) && (y as int)
                        < ye && iter_cell(xb, yb, ye, x as int, y as int) < k as int + 1
                        && idx as int == fb_index(w, x as int, y as int));
                    assert(iter_covers(w, xb, yb, xe, ye, k as int + 1, idx as int));
                    assert(i != idx as int);
                }
            }
            k = k + 1;
            y = y + 1;
        }
        proof {
            assert((x + 1 - x_begin) * (y_end - y_begin) == (x - x_begin) * (y_end - y_begin) + (
            y_end - y_begin)) by (nonlinear_arith);
        }
        x = x + 1;
    }
    proof {
        assert forall|xx: int, yy: int|
            xb <= xx < xe && yb <= yy < ye && iter_cell(xb, yb, ye, xx, yy) < pixels@.len()
                implies framebuffer@[fb_index(w, xx, yy)] == pixels@[
            iter_cell(xb, yb, ye, xx, yy)
        ] by {
            lemma_iter_cell_bound(xb, yb, xe, ye, xx, yy);
            lemma_fb_index_bound(w, height as int, xx, yy);
        }
        assert forall|i: int|
            0 <= i < pre.len() && !iter_covers(w, xb, yb, xe, ye, pixels@.len() as int, i)
                implies framebuffer@[i] == pre[i] by {
            assert(!iter_covers(w, xb, yb, xe, ye, k as int, i)) by {
                if iter_covers(w, xb, yb, xe, ye, k as int, i) {
                    let (xx, yy) = choose|xx: int, yy: int|
                        xb <= xx < xe && yb <= yy < ye && iter_cell(xb, yb, ye, xx, yy)
                            < k as int && i == fb_index(w, xx, yy);
                    assert(iter_cell(xb, yb, ye, xx, yy) < pixels@.len());
                }
            }
        }
    }
}

/// The position of image cell (x, y) in the column-major processing order
/// of an image whose columns are `imgh` pixels tall.
pub open spec fn array_cell(imgh: int, x: int, y: int) -> int {
    x * imgh + y
}

/// Image cell (x, y), placed at (x + xb, y + yb), either lies outside the
/// buffer or holds its row-major pixel value in `fb`.
pub open spec fn array_cell_written(
    fb: Seq<u8>,
    pix: Seq<u8>,
    w: int,
    h: int,
    xb: int,
    yb: int,
    imgw: int,
    x: int,
    y: int,
) -> bool {
    px_in_bounds(w, h, x + xb, y + yb) ==> fb[fb_index(w, x + xb, y + yb)] == pix[y * imgw + x]
}

/// Whether buffer offset `i` receives a pixel when the first `t` cells of
/// an `imgw` x `imgh` image are copied to the buffer at (xb, yb), each
/// write bounds-checked.
pub open spec fn array_covers(
    w: int,
    h: int,
    xb: int,
    yb: int,
    imgw: int,
    imgh: int,
    t: int,
    i: int,
) -> bool {
    exists|x: int, y: int|
        0 <= x < imgw && 0 <= y < imgh && array_cell(imgh, x, y) < t && px_in_bounds(
            w,
            h,
            x + xb,
            y + yb,
        ) && i == fb_index(w, x + xb, y + yb)
}

/// Column-major image cells are distinct for distinct image coordinates.
proof fn lemma_array_cell_inj(imgh: int, x1: int, y1: int, x2: int, y2: int)
    requires
        0 <= y1 < imgh,
        0 <= y2 < imgh,
        array_cell(imgh, x1, y1) == array_cell(imgh, x2, y2),
    ensures
        x1 == x2 && y1 == y2,
{
    assert(x1 == x2 && y1 == y2) by (nonlinear_arith)
        requires
            0 <= y1 < imgh,
            0 <= y2 < imgh,
            x1 * imgh + y1 == x2 * imgh + y2,
    ;
}

/// An image cell's processing position stays below the image area.
proof fn lemma_array_cell_bound(imgw: int, imgh: int, x: int, y: int)
    requires
        0 <= x < imgw,
        0 <= y < imgh,
    ensures
        0 <= array_cell(imgh, x, y) < imgw * imgh,
{
    assert(0 <= x * imgh + y < imgw * imgh) by (nonlinear_arith)
        requires
            0 <= x < imgw,
            0 <= y < imgh,
    ;
}

/// A row-major read inside an image of `len / imgw` full rows stays
/// inside the pixel slice.
proof fn lemma_img_read_bound(len: int, imgw: int, x: int, y: int)
    requires
        0 < imgw,
        0 <= x < imgw,
        0 <= y < len / imgw,
    ensures
        0 <= y * imgw + x < len,
{
    vstd::arithmetic::div_mod::lemma_fundamental_div_mod(len, imgw);
    vstd::arithmetic::div_mod::lemma_mod_bound(len, imgw);
    assert(y * imgw + x < len) by (nonlinear_arith)
        requires
            len == imgw * (len / imgw) + len % imgw,
            0 <= len % imgw,
            0 <= x < imgw,
            0 <= y < len / imgw,
    ;
    assert(0 <= y * imgw + x) by (nonlinear_arith)
        requires
            0 <= x,
            0 <= y,
            0 < imgw,
    ;
}

/// Copies an image of `width_img`-pixel rows (as many full rows as the
/// pixel slice holds) into the buffer with its top-left corner at
/// (x_begin, y_begin): image pixel (x, y) lands on buffer pixel
/// (x + x_begin, y + y_begin) when that lies inside the buffer and is
/// dropped otherwise, and every other offset keeps its old value.
#[verifier::loop_isolation(false)]
pub fn draw_array(
    framebuffer: &mut Vec<u8>,
    width: usize,
    height: usize,
    x_begin: usize,
    y_begin: usize,
    pixels: &Vec<u8>,
    width_img: usize,
)
    requires
        old(framebuffer).len() == width * height,
        width <= 0x1_0000_0000,
        height <= 0x1_0000_0000,
        0 < width_img <= 0x1_0000_0000,
        x_begin <= 0x1_0000_0000,
        y_begin <= 0x1_0000_0000,
        pixels.len() <= 0x1_0000_0000,
    ensures
        final(framebuffer)@.len() == old(framebuffer)@.len(),
        forall|x: int, y: int|
            0 <= x < width_img && 0 <= y < (pixels@.len() as int) / (width_img as int)
                ==> #[trigger] array_cell_written(
                final(framebuffer)@,
                pixels@,
                width as int,
                height as int,
                x_begin as int,
                y_begin as int,
                width_img as int,
                x,
                y,
            ),
        forall|i: int|
            0 <= i < old(framebuffer)@.len() && !array_covers(
                width as int,
                height as int,
                x_begin as int,
                y_begin as int,
                width_img as int,
                (pixels@.len() as int) / (width_img as int),
                (width_img as int) * ((pixels@.len() as int) / (width_img as int)),
                i,
            ) ==> final(framebuffer)@[i] == old(framebuffer)@[i],
{
    let ghost w = width as int;
    let ghost h = height as int;
    let ghost xb = x_begin as int;
    let ghost yb = y_begin as int;
    let ghost imgw = width_img as int;
    let ghost pre = framebuffer@;
    let height_img = pixels.len() / width_img;
    let ghost imgh = height_img as int;
    let mut x: usize = 0;
    while x < width_img
        invariant
            0 <= x <= width_img,
            framebuffer@.len() == pre.len(),
            forall|xx: int, yy: int|
                0 <= xx < imgw && 0 <= yy < imgh && array_cell(imgh, xx, yy) < (x as int) * imgh
                    ==> #[trigger] array_cell_written(
                    framebuffer@,
                    pixels@,
                    w,
                    h,
                    xb,
                    yb,
                    imgw,
                    xx,
                    yy,
                ),
            forall|i: int|
                0 <= i < pre.len() && !array_covers(w, h, xb, yb, imgw, imgh, (x as int) * imgh, i)
                    ==> framebuffer@[i] == pre[i],
        decreases width_img - x,
    {
        let mut y: usize = 0;
        while y < height_img
            invariant
                0 <= x < width_img,
                0 <= y <= height_img,
                framebuffer@.len() == pre.len(),
                forall|xx: int, yy: int|
                    0 <= xx < imgw && 0 <= yy < imgh && array_cell(imgh, xx, yy) < (x as int)
                        * imgh + (y as int) ==> #[trigger] array_cell_written(
                        framebuffer@,
                        pixels@,
                        w,
                        h,
                        xb,
                        yb,
                        imgw,
                        xx,
                        yy,
                    ),
                forall|i: int|
                    0 <= i < pre.len() && !array_covers(
                        w,
                        h,
                        xb,
                        yb,
                        imgw,
                        imgh,
                        (x as int) * imgh + (y as int),
                        i,
                    ) ==> framebuffer@[i] == pre[i],
            decreases height_img - y,
        {
            let ghost t = (x as int) * imgh + (y as int);
            proof {
                lemma_img_read_bound(pixels@.len() as int, imgw, x as int, y as int);
                lemma_array_cell_bound(imgw, imgh, x as int, y as int);
            }
            let current_color: u8 = pixels[y * width_img + x];
            let px: i64 = (x as i64) + (x_begin as i64);
            let py: i64 = (y as i64) + (y_begin as i64);
            let ghost mid = framebuffer@;
            draw_pixel(framebuffer, width, height, px, py, current_color);
            proof {
                assert(array_cell(imgh, x as int, y as int) == t);
                assert forall|xx: int, yy: int|
                    0 <= xx < imgw && 0 <= yy < imgh && array_cell(imgh, xx, yy) < t + 1
                        implies #[trigger] array_cell_written(
                    framebuffer@,
                    pixels@,
                    w,
                    h,
                    xb,
                    yb,
                    imgw,
                    xx,
                    yy,
                ) by {
                    if px_in_bounds(w, h, xx + xb, yy + yb) {
                        lemma_fb_index_bound(w, h, xx + xb, yy + yb);
                        if array_cell(imgh, xx, yy) < t {
                            assert(array_cell_written(mid, pixels@, w, h, xb, yb, imgw, xx, yy));
                            if px_in_bounds(w, h, px as int, py as int) && fb_index(
                                w,
                                xx + xb,
                                yy + yb,
                            ) == fb_index(w, px as int, py as int) {
                                lemma_fb_index_inj(w, xx + xb, yy + yb, px as int, py as int);
                                lemma_array_cell_inj(imgh, xx, yy, x as int, y as int);
                            }
                        } else {
                            lemma_array_cell_inj(imgh, xx, yy, x as int, y as int);
                        }
                    }
                }
                assert forall|i: int|
                    0 <= i < pre.len() && !array_covers(w, h, xb, yb, imgw, imgh, t + 1, i)
                        implies framebuffer@[i] == pre[i] by {
                    assert(!array_covers(w, h, xb, yb, imgw, imgh, t, i)) by {
                        if array_covers(w, h, xb, yb, imgw, imgh, t, i) {
                            let (xx, yy) = choose|xx: int, yy: int|
                                0 <= xx < imgw && 0 <= yy < imgh && array_cell(imgh, xx, yy) < t
                                    && px_in_bounds(w, h, xx + xb, yy + yb) && i == fb_index(
                                    w,
                                    xx + xb,
                                    yy + yb,
                                );
                            assert(array_cell(imgh, xx, yy) < t + 1);
                        }
                    }
                    if px_in_bounds(w, h, px as int, py as int) {
                        assert(0 <= (x as int) && (x as int) < imgw && 0 <= (y as int) && (y as int)
                            < imgh && array_cell(imgh, x as int, y as int) < t + 1 && px_in_bounds(
                            w,
                            h,
                            (x as int) + xb,
                            (y as int) + yb,
                        ));
                        assert(array_covers(
                            w,
                            h,
                            xb,
                            yb,
                            imgw,
                            imgh,
                            t + 1,
                            fb_index(w, px as int, py as int),
                        ));
                        assert(i != fb_index(w, px as int, py as int));
                    }
                }
            }
            y = y + 1;
        }
        proof {
            assert((x as int + 1) * imgh == (x as int) * imgh + imgh) by (nonlinear_arith);
        }
        x = x + 1;
    }
    proof {
        assert forall|xx: int, yy: int|
            0 <= xx < imgw && 0 <= yy < imgh implies #[trigger] array_cell_written(
            framebuffer@,
            pixels@,
            w,
            h,
            xb,
            yb,
            imgw,
            xx,
            yy,
        ) by {
            lemma_array_cell_bound(imgw, imgh, xx, yy);
        }
    }
}

} // verus!
