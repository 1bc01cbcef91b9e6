//! 4x4 fixed-point transform matrices.
//!
//! Constructors build the identity, perspective-projection and axis
//! rotation matrices; `multiply` composes two matrices and `apply`
//! transforms a 3D point through homogeneous coordinates, performing the
//! perspective divide whenever the computed w component differs from 1.
//! Each contract gives the resulting entries or coordinates exactly.
//!
//! Trigonometric inputs arrive precomputed in fixed-point scale: the
//! rotation constructors take the angle's sine and cosine, and the
//! projection constructor takes the reciprocal tangent of half the field
//! of view. Evaluating those functions is the caller's concern.

use crate::fixed::fx_div;
use crate::fixed::fx_div_spec;
use crate::fixed::fx_dot4;
use crate::fixed::fx_dot4_spec;
use crate::fixed::fx_mul;
use crate::fixed::fx_mul_spec;
use crate::fixed::lemma_dot4_bound;
use crate::fixed::lemma_fx_scale_exact;
use crate::fixed::FX_COORD_LIMIT;
use crate::fixed::FX_DOT_LIMIT;
use crate::fixed::FX_ONE;
use crate::vector::vec3f;
use vstd::prelude::*;

verus! {

#[allow(non_camel_case_types)]
#[derive(Clone, Copy)]
pub struct mat4x4 {
    pub data: [[i64; 4]; 4],
}

/// The entry of `m` at row `r`, column `c`, as a mathematical integer.
pub open spec fn ent(m: mat4x4, r: int, c: int) -> int {
    m.data[r][c] as int
}

/// The entries of the multiplicative identity.
pub open spec fn spec_identity_ent(r: int, c: int) -> int {
    if r == c {
        65536
    } else {
        0
    }
}

/// All entries of `m` stay within `lim` in magnitude.
pub open spec fn mat_bounded(m: mat4x4, lim: int) -> bool {
    forall|r: int, c: int| 0 <= r < 4 && 0 <= c < 4 ==> -lim <= #[trigger] ent(m, r, c) <= lim
}

/// The entries of the perspective projection built from the reciprocal
/// half-angle tangent `scale` and the near and far plane distances.
pub open spec fn proj_ent(scale: int, near: int, far: int, r: int, c: int) -> int {
    if r == 0 && c == 0 {
        scale
    } else if r == 1 && c == 1 {
        scale
    } else if r == 2 && c == 2 {
        -fx_div_spec(far, far - near)
    } else if r == 3 && c == 2 {
        -fx_div_spec(fx_mul_spec(far, near), far - near)
    } else if r == 2 && c == 3 {
        -65536
    } else if r == 3 && c == 3 {
        0
    } else {
        spec_identity_ent(r, c)
    }
}

/// The entries of the rotation about the X axis with sine `s`, cosine `c`.
pub open spec fn rot_x_ent(s: int, c: int, r: int, cc: int) -> int {
    if r == 1 && cc == 1 {
        c
    } else if r == 1 && cc == 2 {
        s
    } else if r == 2 && cc == 1 {
        -s
    } else if r == 2 && cc == 2 {
        c
    } else {
        spec_identity_ent(r, cc)
    }
}

/// The entries of the rotation about the Y axis with sine `s`, cosine `c`.
pub open spec fn rot_y_ent(s: int, c: int, r: int, cc: int) -> int {
    if r == 0 && cc == 0 {
        c
    } else if r == 0 && cc == 2 {
        -s
    } else if r == 2 && cc == 0 {
        s
    } else if r == 2 && cc == 2 {
        c
    } else {
        spec_identity_ent(r, cc)
    }
}

/// The entries of the rotation about the Z axis with sine `s`, cosine `c`.
pub open spec fn rot_z_ent(s: int, c: int, r: int, cc: int) -> int {
    if r == 0 && cc == 0 {
        c
    } else if r == 0 && cc == 1 {
        s
    } else if r == 1 && cc == 0 {
        -s
    } else if r == 1 && cc == 1 {
        c
    } else {
        spec_identity_ent(r, cc)
    }
}

/// The entry at row `r`, column `c` of the product `a * b`: the operand
/// `b` is the transform a vector meets first.
pub open spec fn mul_ent(a: mat4x4, b: mat4x4, r: int, c: int) -> int {
    fx_dot4_spec(
        ent(a, 0, c),
        ent(b, r, 0),
        ent(a, 1, c),
        ent(b, r, 1),
        ent(a, 2, c),
        ent(b, r, 2),
        ent(a, 3, c),
        ent(b, r, 3),
    )
}

/// The homogeneous X coordinate of `v` transformed by `m`, before any
/// perspective divide (the input w is implicitly 1).
pub open spec fn apply_raw_x(m: mat4x4, v: vec3f) -> int {
    fx_dot4_spec(
        ent(m, 0, 0),
        v.x as int,
        ent(m, 1, 0),
        v.y as int,
        ent(m, 2, 0),
        v.z as int,
        ent(m, 3, 0),
        65536,
    )
}

pub open spec fn apply_raw_y(m: mat4x4, v: vec3f) -> int {
    fx_dot4_spec(
        ent(m, 0, 1),
        v.x as int,
        ent(m, 1, 1),
        v.y as int,
        ent(m, 2, 1),
        v.z as int,
        ent(m, 3, 1),
        65536,
    )
}

pub open spec fn apply_raw_z(m: mat4x4, v: vec3f) -> int {
    fx_dot4_spec(
        ent(m, 0, 2),
        v.x as int,
        ent(m, 1, 2),
        v.y as int,
        ent(m, 2, 2),
        v.z as int,
        ent(m, 3, 2),
        65536,
    )
}

/// The derived homogeneous w component of `v` transformed by `m`.
pub open spec fn apply_raw_w(m: mat4x4, v: vec3f) -> int {
    fx_dot4_spec(
        ent(m, 0, 3),
        v.x as int,
        ent(m, 1, 3),
        v.y as int,
        ent(m, 2, 3),
        v.z as int,
        ent(m, 3, 3),
        65536,
    )
}

/// The full transform of `v` by `m`: the perspective divide happens
/// exactly when w differs from 1; a zero w (degenerate geometry) skips
/// the divide rather than faulting.
pub open spec fn apply_spec(m: mat4x4, v: vec3f) -> (int, int, int) {
    let x = apply_raw_x(m, v);
    let y = apply_raw_y(m, v);
    let z = apply_raw_z(m, v);
    let w = apply_raw_w(m, v);
    if w != 65536 && w != 0 {
        (fx_div_spec(x, w), fx_div_spec(y, w), fx_div_spec(z, w))
    } else {
        (x, y, z)
    }
}

/// Spells the bound of `mat_bounded` out for each of the sixteen entries,
/// so exec code that reads them can use it directly.
proof fn lemma_mat_bounded_entries(m: mat4x4, lim: int)
    requires
        mat_bounded(m, lim),
    ensures
        -lim <= ent(m, 0, 0) <= lim,
        -lim <= ent(m, 0, 1) <= lim,
        -lim <= ent(m, 0, 2) <= lim,
        -lim <= ent(m, 0, 3) <= lim,
        -lim <= ent(m, 1, 0) <= lim,
        -lim <= ent(m, 1, 1) <= lim,
        -lim <= ent(m, 1, 2) <= lim,
        -lim <= ent(m, 1, 3) <= lim,
        -lim <= ent(m, 2, 0) <= lim,
        -lim <= ent(m, 2, 1) <= lim,
        -lim <= ent(m, 2, 2) <= lim,
        -lim <= ent(m, 2, 3) <= lim,
        -lim <= ent(m, 3, 0) <= lim,
        -lim <= ent(m, 3, 1) <= lim,
        -lim <= ent(m, 3, 2) <= lim,
        -lim <= ent(m, 3, 3) <= lim,
{
}

impl mat4x4 {
    /// The multiplicative identity.
    pub fn new() -> (m: mat4x4)
        ensures
            forall|r: int, c: int|
                0 <= r < 4 && 0 <= c < 4 ==> #[trigger] ent(m, r, c) == spec_identity_ent(r, c),
    {
        mat4x4 {
            data: [
                [FX_ONE, 0, 0, 0],
                [0, FX_ONE, 0, 0],
                [0, 0, FX_ONE, 0],
                [0, 0, 0, FX_ONE],
            ],
        }
    }

    /// The perspective projection. `scale` is the reciprocal tangent of
    /// half the field of view, in fixed-point scale; `near` and `far` are
    /// the clip plane distances.
    pub fn new_projection(scale: i64, near: i64, far: i64) -> (m: mat4x4)
        requires
            0 < near < far <= FX_COORD_LIMIT,
            0 <= scale <= FX_COORD_LIMIT,
        ensures
            forall|r: int, c: int|
                0 <= r < 4 && 0 <= c < 4 ==> #[trigger] ent(m, r, c) == proj_ent(
                    scale as int,
                    near as int,
                    far as int,
                    r,
                    c,
                ),
    {
        let denom = far - near;
        let a22 = -fx_div(far, denom);
        proof {
            let p = (far as int) * (near as int);
            assert(0 <= p <= 0x1000_0000_0000_0000) by (nonlinear_arith)
                requires
                    p == (far as int) * (near as int),
                    0 < near <= 0x4000_0000,
                    0 < far <= 0x4000_0000,
            ;
            crate::fixed::lemma_fx_tdiv_abs(p, 65536);
            vstd::arithmetic::div_mod::lemma_div_is_ordered(p, 0x1000_0000_0000_0000, 65536);
        }
        let a32 = -fx_div(fx_mul(far, near), denom);
        mat4x4 {
            data: [
                [scale, 0, 0, 0],
                [0, scale, 0, 0],
                [0, 0, a22, -FX_ONE],
                [0, 0, a32, 0],
            ],
        }
    }

    /// Rotation about the X axis by the angle whose sine and cosine the
    /// caller supplies in fixed-point scale.
    pub fn new_rot_x(sin_t: i64, cos_t: i64) -> (m: mat4x4)
        requires
            -FX_COORD_LIMIT <= sin_t <= FX_COORD_LIMIT,
            -FX_COORD_LIMIT <= cos_t <= FX_COORD_LIMIT,
        ensures
            forall|r: int, c: int|
                0 <= r < 4 && 0 <= c < 4 ==> #[trigger] ent(m, r, c) == rot_x_ent(
                    sin_t as int,
                    cos_t as int,
                    r,
                    c,
                ),
    {
        mat4x4 {
            data: [
                [FX_ONE, 0, 0, 0],
                [0, cos_t, sin_t, 0],
                [0, -sin_t, cos_t, 0],
                [0, 0, 0, FX_ONE],
            ],
        }
    }

    /// Rotation about the Y axis; see `new_rot_x`.
    pub fn new_rot_y(sin_t: i64, cos_t: i64) -> (m: mat4x4)
        requires
            -FX_COORD_LIMIT <= sin_t <= FX_COORD_LIMIT,
            -FX_COORD_LIMIT <= cos_t <= FX_COORD_LIMIT,
        ensures
            forall|r: int, c: int|
                0 <= r < 4 && 0 <= c < 4 ==> #[trigger] ent(m, r, c) == rot_y_ent(
                    sin_t as int,
                    cos_t as int,
                    r,
                    c,
                ),
    {
        mat4x4 {
            data: [
                [cos_t, 0, -sin_t, 0],
                [0, FX_ONE, 0, 0],
                [sin_t, 0, cos_t, 0],
                [0, 0, 0, FX_ONE],
            ],
        }
    }

    /// Rotation about the Z axis; see `new_rot_x`.
    pub fn new_rot_z(sin_t: i64, cos_t: i64) -> (m: mat4x4)
        requires
            -FX_COORD_LIMIT <= sin_t <= FX_COORD_LIMIT,
            -FX_COORD_LIMIT <= cos_t <= FX_COORD_LIMIT,
        ensures
            forall|r: int, c: int|
                0 <= r < 4 && 0 <= c < 4 ==> #[trigger] ent(m, r, c) == rot_z_ent(
                    sin_t as int,
                    cos_t as int,
                    r,
                    c,
                ),
    {
        mat4x4 {
            data: [
                [cos_t, sin_t, 0, 0],
                [-sin_t, cos_t, 0, 0],
                [0, 0, FX_ONE, 0],
                [0, 0, 0, FX_ONE],
            ],
        }
    }

    /// The matrix product `self * other`: in a transform chain built with
    /// this operation the right-hand operand reaches a vector first.
    pub fn multiply(&self, other: &mat4x4) -> (m: mat4x4)
        requires
            mat_bounded(*self, FX_DOT_LIMIT as int),
            mat_bounded(*other, FX_DOT_LIMIT as int),
        ensures
            forall|r: int, c: int|
                0 <= r < 4 && 0 <= c < 4 ==> #[trigger] ent(m, r, c) == mul_ent(
                    *self,
                    *other,
                    r,
                    c,
                ),
    {
        proof {
            lemma_mat_bounded_entries(*self, FX_DOT_LIMIT as int);
            lemma_mat_bounded_entries(*other, FX_DOT_LIMIT as int);
        }
        let a = &self.data;
        let b = &other.data;
        let row0 = [
            fx_dot4(a[0][0], b[0][0], a[1][0], b[0][1], a[2][0], b[0][2], a[3][0], b[0][3]),
            fx_dot4(a[0][1], b[0][0], a[1][1], b[0][1], a[2][1], b[0][2], a[3][1], b[0][3]),
            fx_dot4(a[0][2], b[0][0], a[1][2], b[0][1], a[2][2], b[0][2], a[3][2], b[0][3]),
            fx_dot4(a[0][3], b[0][0], a[1][3], b[0][1], a[2][3], b[0][2], a[3][3], b[0][3]),
        ];
        let row1 = [
            fx_dot4(a[0][0], b[1][0], a[1][0], b[1][1], a[2][0], b[1][2], a[3][0], b[1][3]),
            fx_dot4(a[0][1], b[1][0], a[1][1], b[1][1], a[2][1], b[1][2], a[3][1], b[1][3]),
            fx_dot4(a[0][2], b[1][0], a[1][2], b[1][1], a[2][2], b[1][2], a[3][2], b[1][3]),
            fx_dot4(a[0][3], b[1][0], a[1][3], b[1][1], a[2][3], b[1][2], a[3][3], b[1][3]),
        ];
        let row2 = [
            fx_dot4(a[0][0], b[2][0], a[1][0], b[2][1], a[2][0], b[2][2], a[3][0], b[2][3]),
            fx_dot4(a[0][1], b[2][0], a[1][1], b[2][1], a[2][1], b[2][2], a[3][1], b[2][3]),
            fx_dot4(a[0][2], b[2][0], a[1][2], b[2][1], a[2][2], b[2][2], a[3][2], b[2][3]),
            fx_dot4(a[0][3], b[2][0], a[1][3], b[2][1], a[2][3], b[2][2], a[3][3], b[2][3]),
        ];
        let row3 = [
            fx_dot4(a[0][0], b[3][0], a[1][0], b[3][1], a[2][0], b[3][2], a[3][0], b[3][3]),
            fx_dot4(a[0][1], b[3][0], a[1][1], b[3][1], a[2][1], b[3][2], a[3][1], b[3][3]),
            fx_dot4(a[0][2], b[3][0], a[1][2], b[3][1], a[2][2], b[3][2], a[3][2], b[3][3]),
            fx_dot4(a[0][3], b[3][0], a[1][3], b[3][1], a[2][3], b[3][2], a[3][3], b[3][3]),
        ];
        mat4x4 { data: [row0, row1, row2, row3] }
    }

    /// Transforms a 3D point, dividing by the derived w component when it
    /// differs from 1 (and is nonzero).
    pub fn apply(&self, vec: &vec3f) -> (r: vec3f)
        requires
            mat_bounded(*self, FX_COORD_LIMIT as int),
            -FX_COORD_LIMIT <= vec.x <= FX_COORD_LIMIT,
            -FX_COORD_LIMIT <= vec.y <= FX_COORD_LIMIT,
            -FX_COORD_LIMIT <= vec.z <= FX_COORD_LIMIT,
        ensures
            r.x == apply_spec(*self, *vec).0,
            r.y == apply_spec(*self, *vec).1,
            r.z == apply_spec(*self, *vec).2,
    {
        proof {
            lemma_mat_bounded_entries(*self, FX_COORD_LIMIT as int);
        }
        let a = &self.data;
        let x = fx_dot4(a[0][0], vec.x, a[1][0], vec.y, a[2][0], vec.z, a[3][0], FX_ONE);
        let y = fx_dot4(a[0][1], vec.x, a[1][1], vec.y, a[2][1], vec.z, a[3][1], FX_ONE);
        let z = fx_dot4(a[0][2], vec.x, a[1][2], vec.y, a[2][2], vec.z, a[3][2], FX_ONE);
        let w = fx_dot4(a[0][3], vec.x, a[1][3], vec.y, a[2][3], vec.z, a[3][3], FX_ONE);
        if w != FX_ONE && w != 0 {
            proof {
                lemma_dot4_bound(
                    ent(*self, 0, 0),
                    vec.x as int,
                    ent(*self, 1, 0),
                    vec.y as int,
                    ent(*self, 2, 0),
                    vec.z as int,
                    ent(*self, 3, 0),
                    65536,
                );
                lemma_dot4_bound(
                    ent(*self, 0, 1),
                    vec.x as int,
                    ent(*self, 1, 1),
                    vec.y as int,
                    ent(*self, 2, 1),
                    vec.z as int,
                    ent(*self, 3, 1),
                    65536,
                );
                lemma_dot4_bound(
                    ent(*self, 0, 2),
                    vec.x as int,
                    ent(*self, 1, 2),
                    vec.y as int,
                    ent(*self, 2, 2),
                    vec.z as int,
                    ent(*self, 3, 2),
                    65536,
                );
            }
            vec3f { x: fx_div(x, w), y: fx_div(y, w), z: fx_div(z, w) }
        } else {
            vec3f { x, y, z }
        }
    }
}

/// A zero angle (sine 0, cosine 1) turns every axis rotation into the
/// identity matrix, entry by entry.
pub proof fn lemma_rotation_zero_is_identity()
    ensures
        forall|r: int, c: int|
            0 <= r < 4 && 0 <= c < 4 ==> #[trigger] rot_x_ent(0, 65536, r, c)
                == spec_identity_ent(r, c),
        forall|r: int, c: int|
            0 <= r < 4 && 0 <= c < 4 ==> #[trigger] rot_y_ent(0, 65536, r, c)
                == spec_identity_ent(r, c),
        forall|r: int, c: int|
            0 <= r < 4 && 0 <= c < 4 ==> #[trigger] rot_z_ent(0, 65536, r, c)
                == spec_identity_ent(r, c),
{
}

/// Composing any matrix with the identity returns the matrix unchanged,
/// entry by entry and exactly: the one truncation in each entry cancels.
pub proof fn lemma_multiply_identity(m: mat4x4, idm: mat4x4)
    requires
        mat_bounded(m, FX_DOT_LIMIT as int),
        forall|r: int, c: int|
            0 <= r < 4 && 0 <= c < 4 ==> #[trigger] ent(idm, r, c) == spec_identity_ent(r, c),
    ensures
        forall|r: int, c: int|
            0 <= r < 4 && 0 <= c < 4 ==> #[trigger] mul_ent(m, idm, r, c) == ent(m, r, c),
{
    assert forall|r: int, c: int| 0 <= r < 4 && 0 <= c < 4 implies #[trigger] mul_ent(m, idm, r, c)
        == ent(m, r, c) by {
        lemma_fx_scale_exact(ent(m, r, c));
    }
}

/// Applying the identity matrix to any vector returns the vector
/// unchanged: the derived w is exactly 1, so no perspective divide runs.
pub proof fn lemma_apply_identity(idm: mat4x4, v: vec3f)
    requires
        forall|r: int, c: int|
            0 <= r < 4 && 0 <= c < 4 ==> #[trigger] ent(idm, r, c) == spec_identity_ent(r, c),
        -FX_COORD_LIMIT <= v.x <= FX_COORD_LIMIT,
        -FX_COORD_LIMIT <= v.y <= FX_COORD_LIMIT,
        -FX_COORD_LIMIT <= v.z <= FX_COORD_LIMIT,
    ensures
        apply_spec(idm, v) == (v.x as int, v.y as int, v.z as int),
{
    lemma_fx_scale_exact(v.x as int);
    lemma_fx_scale_exact(v.y as int);
    lemma_fx_scale_exact(v.z as int);
    lemma_fx_scale_exact(65536);
}

} // verus!
