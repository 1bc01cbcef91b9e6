//! 2D, 3D and homogeneous vector types over fixed-point coordinates.
//!
//! Every operation returns a new value and its contract states the result
//! exactly, coordinate by coordinate, over the fixed-point spec functions.

use crate::fixed::fx_abs;
use crate::fixed::fx_mul;
use crate::fixed::fx_mul_spec;
use crate::fixed::fx_tdiv;
use crate::fixed::lemma_dot_term_bound;
use crate::fixed::lemma_fx_scale_exact;
use vstd::arithmetic::div_mod::lemma_div_is_ordered;
use crate::fixed::tdiv_i128;
use crate::fixed::FX_COORD_LIMIT;
use crate::fixed::FX_MUL_A_LIMIT;
use crate::fixed::FX_MUL_B_LIMIT;
use crate::fixed::FX_ONE;
use vstd::prelude::*;

verus! {

/// Coordinate magnitude up to which vector addition cannot overflow (2^61).
pub const FX_ADD_LIMIT: i64 = 0x2000_0000_0000_0000;

#[allow(non_camel_case_types)]
#[derive(Clone, Copy, PartialEq, Eq, Structural, Debug)]
pub struct vec2f {
    pub x: i64,
    pub y: i64,
}

#[allow(non_camel_case_types)]
#[derive(Clone, Copy, PartialEq, Eq, Structural, Debug)]
pub struct vec3f {
    pub x: i64,
    pub y: i64,
    pub z: i64,
}

#[allow(non_camel_case_types)]
#[derive(Clone, Copy, PartialEq, Eq, Structural, Debug)]
pub struct vec4f {
    pub x: i64,
    pub y: i64,
    pub z: i64,
    pub w: i64,
}

/// The first coordinate of a point rotated by an angle whose sine and
/// cosine are `s` and `c`: (x*c - y*s) scaled back down once.
pub open spec fn rot_x_spec(x: int, y: int, s: int, c: int) -> int {
    fx_tdiv(x * c - y * s, 65536)
}

/// The second coordinate of the same rotation: (x*s + y*c) scaled down once.
pub open spec fn rot_y_spec(x: int, y: int, s: int, c: int) -> int {
    fx_tdiv(x * s + y * c, 65536)
}

impl vec3f {
    pub fn new() -> (v: vec3f)
        ensures
            v.x == 0 && v.y == 0 && v.z == 0,
    {
        vec3f { x: 0, y: 0, z: 0 }
    }

    pub fn scale(&self, factor: i64) -> (r: vec3f)
        requires
            -FX_MUL_A_LIMIT <= self.x <= FX_MUL_A_LIMIT,
            -FX_MUL_A_LIMIT <= self.y <= FX_MUL_A_LIMIT,
            -FX_MUL_A_LIMIT <= self.z <= FX_MUL_A_LIMIT,
            -FX_MUL_B_LIMIT <= factor <= FX_MUL_B_LIMIT,
        ensures
            r.x == fx_mul_spec(self.x as int, factor as int),
            r.y == fx_mul_spec(self.y as int, factor as int),
            r.z == fx_mul_spec(self.z as int, factor as int),
    {
        vec3f { x: fx_mul(self.x, factor), y: fx_mul(self.y, factor), z: fx_mul(self.z, factor) }
    }

    pub fn add(&self, v3: &vec3f) -> (r: vec3f)
        requires
            -FX_ADD_LIMIT <= self.x <= FX_ADD_LIMIT,
            -FX_ADD_LIMIT <= self.y <= FX_ADD_LIMIT,
            -FX_ADD_LIMIT <= self.z <= FX_ADD_LIMIT,
            -FX_ADD_LIMIT <= v3.x <= FX_ADD_LIMIT,
            -FX_ADD_LIMIT <= v3.y <= FX_ADD_LIMIT,
            -FX_ADD_LIMIT <= v3.z <= FX_ADD_LIMIT,
        ensures
            r.x == self.x + v3.x,
            r.y == self.y + v3.y,
            r.z == self.z + v3.z,
    {
        vec3f { x: self.x + v3.x, y: self.y + v3.y, z: self.z + v3.z }
    }
}

impl vec4f {
    pub fn new() -> (v: vec4f)
        ensures
            v.x == 0 && v.y == 0 && v.z == 0 && v.w == 0,
    {
        vec4f { x: 0, y: 0, z: 0, w: 0 }
    }
}

impl vec2f {
    pub fn new() -> (v: vec2f)
        ensures
            v.x == 0 && v.y == 0,
    {
        vec2f { x: 0, y: 0 }
    }

    pub fn add(&self, v2: &vec2f) -> (r: vec2f)
        requires
            -FX_ADD_LIMIT <= self.x <= FX_ADD_LIMIT,
            -FX_ADD_LIMIT <= self.y <= FX_ADD_LIMIT,
            -FX_ADD_LIMIT <= v2.x <= FX_ADD_LIMIT,
            -FX_ADD_LIMIT <= v2.y <= FX_ADD_LIMIT,
        ensures
            r.x == self.x + v2.x,
            r.y == self.y + v2.y,
    {
        vec2f { x: self.x + v2.x, y: self.y + v2.y }
    }

    pub fn sub(&self, v2: &vec2f) -> (r: vec2f)
        requires
            -FX_ADD_LIMIT <= self.x <= FX_ADD_LIMIT,
            -FX_ADD_LIMIT <= self.y <= FX_ADD_LIMIT,
            -FX_ADD_LIMIT <= v2.x <= FX_ADD_LIMIT,
            -FX_ADD_LIMIT <= v2.y <= FX_ADD_LIMIT,
        ensures
            r.x == self.x - v2.x,
            r.y == self.y - v2.y,
    {
        vec2f { x: self.x - v2.x, y: self.y - v2.y }
    }

    pub fn scale(&self, factor: i64) -> (r: vec2f)
        requires
            -FX_MUL_A_LIMIT <= self.x <= FX_MUL_A_LIMIT,
            -FX_MUL_A_LIMIT <= self.y <= FX_MUL_A_LIMIT,
            -FX_MUL_B_LIMIT <= factor <= FX_MUL_B_LIMIT,
        ensures
            r.x == fx_mul_spec(self.x as int, factor as int),
            r.y == fx_mul_spec(self.y as int, factor as int),
    {
        vec2f { x: fx_mul(self.x, factor), y: fx_mul(self.y, factor) }
    }

    /// Rotation by the angle whose sine and cosine the caller supplies in
    /// fixed-point scale (the trigonometric evaluation itself is an
    /// external service of the embedding program).
    pub fn rotate(&self, sin_t: i64, cos_t: i64) -> (r: vec2f)
        requires
            -FX_COORD_LIMIT <= self.x <= FX_COORD_LIMIT,
            -FX_COORD_LIMIT <= self.y <= FX_COORD_LIMIT,
            -FX_COORD_LIMIT <= sin_t <= FX_COORD_LIMIT,
            -FX_COORD_LIMIT <= cos_t <= FX_COORD_LIMIT,
        ensures
            r.x == rot_x_spec(self.x as int, self.y as int, sin_t as int, cos_t as int),
            r.y == rot_y_spec(self.x as int, self.y as int, sin_t as int, cos_t as int),
    {
        proof {
            lemma_dot_term_bound(self.x as int, cos_t as int);
            lemma_dot_term_bound(self.y as int, sin_t as int);
            lemma_dot_term_bound(self.x as int, sin_t as int);
            lemma_dot_term_bound(self.y as int, cos_t as int);
        }
        let wx: i128 = (self.x as i128) * (cos_t as i128) - (self.y as i128) * (sin_t as i128);
        let wy: i128 = (self.x as i128) * (sin_t as i128) + (self.y as i128) * (cos_t as i128);
        let qx: i128 = tdiv_i128(wx, 65536);
        let qy: i128 = tdiv_i128(wy, 65536);
        proof {
            lemma_rot_result_fits(wx as int);
            lemma_rot_result_fits(wy as int);
        }
        vec2f { x: qx as i64, y: qy as i64 }
    }

    pub fn translate(&self, vec: vec2f) -> (r: vec2f)
        requires
            -FX_ADD_LIMIT <= self.x <= FX_ADD_LIMIT,
            -FX_ADD_LIMIT <= self.y <= FX_ADD_LIMIT,
            -FX_ADD_LIMIT <= vec.x <= FX_ADD_LIMIT,
            -FX_ADD_LIMIT <= vec.y <= FX_ADD_LIMIT,
        ensures
            r.x == self.x + vec.x,
            r.y == self.y + vec.y,
    {
        vec2f { x: self.x + vec.x, y: self.y + vec.y }
    }
}

impl Default for vec2f {
    fn default() -> (v: vec2f)
        ensures
            v.x == 0 && v.y == 0,
    {
        vec2f::new()
    }
}

/// A rotation numerator within 2^63 truncates to a quotient within i64.
proof fn lemma_rot_result_fits(w: int)
    requires
        -0x8000_0000_0000_0000 <= w <= 0x8000_0000_0000_0000,
    ensures
        -0x8000_0000_0000 <= fx_tdiv(w, 65536) <= 0x8000_0000_0000,
{
    crate::fixed::lemma_fx_tdiv_abs(w, 65536);
    lemma_div_is_ordered(fx_abs(w), 0x8000_0000_0000_0000, 65536);
}

/// Rotating by a zero angle (sine 0, cosine 1) is the identity, exactly:
/// for every point, `rotate` with those trigonometric values returns the
/// point unchanged.
pub proof fn lemma_rotate_zero(x: int, y: int)
    ensures
        rot_x_spec(x, y, 0, FX_ONE as int) == x,
        rot_y_spec(x, y, 0, FX_ONE as int) == y,
{
    assert(x * 65536 - y * 0 == x * 65536);
    assert(x * 0 + y * 65536 == y * 65536);
    lemma_fx_scale_exact(x);
    lemma_fx_scale_exact(y);
}

/// A quarter turn one way and back returns every point exactly: with
/// sine 1 and cosine 0 the rotation only swaps and negates coordinates,
/// so no rounding occurs and the round trip is the identity. (For other
/// angles the round trip is exact only up to the rounding of the
/// supplied sine and cosine and of the products.)
pub proof fn lemma_rotate_quarter_round_trip(x: int, y: int)
    ensures
        ({
            let x1 = rot_x_spec(x, y, FX_ONE as int, 0);
            let y1 = rot_y_spec(x, y, FX_ONE as int, 0);
            rot_x_spec(x1, y1, -(FX_ONE as int), 0) == x && rot_y_spec(
                x1,
                y1,
                -(FX_ONE as int),
                0,
            ) == y
        }),
{
    assert(x * 0 - y * 65536 == (-y) * 65536);
    assert(x * 65536 + y * 0 == x * 65536);
    lemma_fx_scale_exact(-y);
    lemma_fx_scale_exact(x);
    let x1 = rot_x_spec(x, y, FX_ONE as int, 0);
    let y1 = rot_y_spec(x, y, FX_ONE as int, 0);
    assert(x1 == -y && y1 == x);
    assert(x1 * 0 - y1 * -65536 == x * 65536);
    assert(x1 * -65536 + y1 * 0 == y * 65536);
    lemma_fx_scale_exact(y);
}

} // verus!
