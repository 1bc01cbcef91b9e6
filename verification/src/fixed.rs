//! Q16.16 fixed-point scalars.
//!
//! A real number `r` is carried as the `i64` value `r * 65536`, rounded
//! toward zero. All products and quotients are computed through `i128`
//! intermediates, so the operations below are exact integer functions of
//! their arguments; their contracts state those functions in full.

use vstd::arithmetic::div_mod::lemma_div_is_ordered;
use vstd::arithmetic::div_mod::lemma_div_multiples_vanish;
use vstd::arithmetic::div_mod::lemma_div_pos_is_pos;
use vstd::prelude::*;

verus! {

/// The fixed-point representation of 1.0.
pub const FX_ONE: i64 = 65536;

/// The fixed-point representation of 0.5.
pub const FX_HALF: i64 = 32768;

/// Largest magnitude accepted for a coordinate or matrix entry fed to the
/// transform and rasterization routines (2^30, i.e. +/-16384.0).
pub const FX_COORD_LIMIT: i64 = 0x4000_0000;

/// Largest magnitude accepted for the numerator of `fx_div` (2^46): the
/// quotient then fits in `i64` for every nonzero denominator.
pub const FX_DIV_NUM_LIMIT: i64 = 0x4000_0000_0000;

/// Largest magnitude accepted for the first factor of `fx_mul` (2^32).
pub const FX_MUL_A_LIMIT: i64 = 0x1_0000_0000;

/// Largest magnitude accepted for the second factor of `fx_mul` (2^46).
pub const FX_MUL_B_LIMIT: i64 = 0x4000_0000_0000;

/// Largest magnitude accepted for each operand of `fx_dot4` (2^31).
pub const FX_DOT_LIMIT: i64 = 0x8000_0000;

/// Magnitude bound that every fixed-point helper guarantees for its result
/// (2^62), comfortably inside `i64`.
pub const FX_RESULT_BOUND: i64 = 0x4000_0000_0000_0000;

pub open spec fn fx_abs(a: int) -> int {
    if a < 0 {
        -a
    } else {
        a
    }
}

/// Integer division rounding toward zero (the rounding every fixed-point
/// operation here uses), defined from Euclidean division of magnitudes.
pub open spec fn fx_tdiv(a: int, b: int) -> int {
    if (a < 0) == (b < 0) {
        fx_abs(a) / fx_abs(b)
    } else {
        -(fx_abs(a) / fx_abs(b))
    }
}

/// The fixed-point product: (a * b) / 65536, rounded toward zero.
pub open spec fn fx_mul_spec(a: int, b: int) -> int {
    fx_tdiv(a * b, 65536)
}

/// The fixed-point quotient: (a * 65536) / b, rounded toward zero.
pub open spec fn fx_div_spec(a: int, b: int) -> int {
    fx_tdiv(a * 65536, b)
}

/// The pixel index of a fixed-point coordinate: its integer part.
pub open spec fn fx_px_spec(a: int) -> int {
    fx_tdiv(a, 65536)
}

/// A four-term dot product scaled back down once: exact except for the one
/// final truncation, which is why the matrix routines use it.
pub open spec fn fx_dot4_spec(
    a0: int,
    b0: int,
    a1: int,
    b1: int,
    a2: int,
    b2: int,
    a3: int,
    b3: int,
) -> int {
    fx_tdiv(a0 * b0 + a1 * b1 + a2 * b2 + a3 * b3, 65536)
}

/// The magnitude of a truncating quotient is the Euclidean quotient of the
/// magnitudes; callers use this to bound results.
pub proof fn lemma_fx_tdiv_abs(a: int, b: int)
    requires
        b != 0,
    ensures
        fx_abs(fx_tdiv(a, b)) == fx_abs(a) / fx_abs(b),
{
    lemma_div_pos_is_pos(fx_abs(a), fx_abs(b));
}

/// Scaling by 65536 and truncating back down is exact.
pub proof fn lemma_fx_scale_exact(x: int)
    ensures
        fx_tdiv(x * 65536, 65536) == x,
{
    if x >= 0 {
        assert(x * 65536 >= 0 && x * 65536 == 65536 * x) by (nonlinear_arith)
            requires
                x >= 0,
        ;
        lemma_div_multiples_vanish(x, 65536);
    } else {
        assert(x * 65536 < 0 && -(x * 65536) == 65536 * (-x)) by (nonlinear_arith)
            requires
                x < 0,
        ;
        lemma_div_multiples_vanish(-x, 65536);
    }
}

/// Division rounding toward zero, with the signs handled explicitly so the
/// result matches `fx_tdiv` exactly.
pub(crate) fn tdiv_i128(n: i128, d: i128) -> (q: i128)
    requires
        d != 0,
        n > i128::MIN,
        d > i128::MIN,
    ensures
        q == fx_tdiv(n as int, d as int),
{
    let nn: u128 = if n < 0 {
        (-n) as u128
    } else {
        n as u128
    };
    let dd: u128 = if d < 0 {
        (-d) as u128
    } else {
        d as u128
    };
    proof {
        assert(nn == fx_abs(n as int));
        assert(dd == fx_abs(d as int));
    }
    let qq: u128 = nn / dd;
    proof {
        assert(qq <= nn) by (nonlinear_arith)
            requires
                qq == nn / dd,
                dd >= 1,
        ;
    }
    if (n < 0) != (d < 0) {
        -(qq as i128)
    } else {
        qq as i128
    }
}

/// The fixed-point product of `a` and `b`.
pub fn fx_mul(a: i64, b: i64) -> (r: i64)
    requires
        -FX_MUL_A_LIMIT <= a <= FX_MUL_A_LIMIT,
        -FX_MUL_B_LIMIT <= b <= FX_MUL_B_LIMIT,
    ensures
        r == fx_mul_spec(a as int, b as int),
        -FX_RESULT_BOUND <= r <= FX_RESULT_BOUND,
{
    proof {
        assert(-0x4000_0000_0000_0000_0000i128 <= (a as int) * (b as int)
            <= 0x4000_0000_0000_0000_0000i128) by (nonlinear_arith)
            requires
                -0x1_0000_0000 <= a <= 0x1_0000_0000,
                -0x4000_0000_0000i64 <= b <= 0x4000_0000_0000i64,
        ;
    }
    let w: i128 = (a as i128) * (b as i128);
    let q: i128 = tdiv_i128(w, 65536);
    proof {
        lemma_fx_tdiv_abs(w as int, 65536);
        lemma_div_is_ordered(fx_abs(w as int), 0x4000_0000_0000_0000_0000, 65536);
    }
    q as i64
}

/// The fixed-point quotient of `a` by `b`.
pub fn fx_div(a: i64, b: i64) -> (r: i64)
    requires
        b != 0,
        -FX_DIV_NUM_LIMIT <= a <= FX_DIV_NUM_LIMIT,
    ensures
        r == fx_div_spec(a as int, b as int),
        -FX_RESULT_BOUND <= r <= FX_RESULT_BOUND,
{
    let w: i128 = (a as i128) * 65536;
    let q: i128 = tdiv_i128(w, b as i128);
    proof {
        lemma_fx_tdiv_abs(w as int, b as int);
        lemma_div_is_ordered(fx_abs(w as int), 0x4000_0000_0000_0000, fx_abs(b as int));
        lemma_div_is_ordered_by_denom_one(0x4000_0000_0000_0000, fx_abs(b as int));
    }
    q as i64
}

/// `x / d <= x` for positive `x` once `d >= 1`; a small helper for bounding
/// quotients by their numerators.
proof fn lemma_div_is_ordered_by_denom_one(x: int, d: int)
    requires
        0 <= x,
        1 <= d,
    ensures
        x / d <= x,
{
    assert(x / d <= x) by (nonlinear_arith)
        requires
            0 <= x,
            1 <= d,
    ;
}

/// A fixed-point quotient grows at most 65536-fold over its numerator's
/// magnitude bound, whatever the (nonzero) denominator.
pub proof fn lemma_fx_div_num_bound(a: int, b: int, m: int)
    requires
        b != 0,
        fx_abs(a) <= m,
        0 <= m,
    ensures
        fx_abs(fx_div_spec(a, b)) <= m * 65536,
{
    lemma_fx_tdiv_abs(a * 65536, b);
    assert(fx_abs(a * 65536) == fx_abs(a) * 65536);
    lemma_div_is_ordered(fx_abs(a * 65536), m * 65536, fx_abs(b));
    lemma_div_is_ordered_by_denom_one(m * 65536, fx_abs(b));
}

/// The integer part of a bounded fixed-point value is bounded by the
/// scaled-down bound.
pub proof fn lemma_fx_px_range(a: int, m: int)
    requires
        fx_abs(a) <= m,
        0 <= m,
    ensures
        fx_abs(fx_px_spec(a)) <= m / 65536,
{
    lemma_fx_tdiv_abs(a, 65536);
    lemma_div_is_ordered(fx_abs(a), m, 65536);
}

/// The integer part of a fixed-point coordinate, as the pixel index the
/// rasterizer addresses.
pub fn fx_to_px(a: i64) -> (r: i64)
    ensures
        r == fx_px_spec(a as int),
        -FX_RESULT_BOUND <= r <= FX_RESULT_BOUND,
{
    proof {
        assert(a as i128 > i128::MIN);
    }
    let q: i128 = tdiv_i128(a as i128, 65536);
    proof {
        lemma_fx_tdiv_abs(a as int, 65536);
        lemma_div_is_ordered(fx_abs(a as int), 0x8000_0000_0000_0000, 65536);
    }
    q as i64
}

/// A four-term fixed-point dot product, truncated once at the end.
pub fn fx_dot4(a0: i64, b0: i64, a1: i64, b1: i64, a2: i64, b2: i64, a3: i64, b3: i64) -> (r: i64)
    requires
        -FX_DOT_LIMIT <= a0 <= FX_DOT_LIMIT,
        -FX_DOT_LIMIT <= b0 <= FX_DOT_LIMIT,
        -FX_DOT_LIMIT <= a1 <= FX_DOT_LIMIT,
        -FX_DOT_LIMIT <= b1 <= FX_DOT_LIMIT,
        -FX_DOT_LIMIT <= a2 <= FX_DOT_LIMIT,
        -FX_DOT_LIMIT <= b2 <= FX_DOT_LIMIT,
        -FX_DOT_LIMIT <= a3 <= FX_DOT_LIMIT,
        -FX_DOT_LIMIT <= b3 <= FX_DOT_LIMIT,
    ensures
        r == fx_dot4_spec(
            a0 as int,
            b0 as int,
            a1 as int,
            b1 as int,
            a2 as int,
            b2 as int,
            a3 as int,
            b3 as int,
        ),
        -FX_RESULT_BOUND <= r <= FX_RESULT_BOUND,
{
    proof {
        lemma_dot_term_bound(a0 as int, b0 as int);
        lemma_dot_term_bound(a1 as int, b1 as int);
        lemma_dot_term_bound(a2 as int, b2 as int);
        lemma_dot_term_bound(a3 as int, b3 as int);
    }
    let w: i128 = (a0 as i128) * (b0 as i128) + (a1 as i128) * (b1 as i128) + (a2 as i128) * (
    b2 as i128) + (a3 as i128) * (b3 as i128);
    let q: i128 = tdiv_i128(w, 65536);
    proof {
        lemma_fx_tdiv_abs(w as int, 65536);
        lemma_div_is_ordered(fx_abs(w as int), 0x1_0000_0000_0000_0000, 65536);
    }
    q as i64
}

/// When every operand stays within `FX_COORD_LIMIT`, the scaled dot
/// product stays within `FX_DIV_NUM_LIMIT`, so it can feed `fx_div`.
pub proof fn lemma_dot4_bound(
    a0: int,
    b0: int,
    a1: int,
    b1: int,
    a2: int,
    b2: int,
    a3: int,
    b3: int,
)
    requires
        -0x4000_0000 <= a0 <= 0x4000_0000,
        -0x4000_0000 <= b0 <= 0x4000_0000,
        -0x4000_0000 <= a1 <= 0x4000_0000,
        -0x4000_0000 <= b1 <= 0x4000_0000,
        -0x4000_0000 <= a2 <= 0x4000_0000,
        -0x4000_0000 <= b2 <= 0x4000_0000,
        -0x4000_0000 <= a3 <= 0x4000_0000,
        -0x4000_0000 <= b3 <= 0x4000_0000,
    ensures
        -0x4000_0000_0000 <= fx_dot4_spec(a0, b0, a1, b1, a2, b2, a3, b3) <= 0x4000_0000_0000,
{
    lemma_coord_term_bound(a0, b0);
    lemma_coord_term_bound(a1, b1);
    lemma_coord_term_bound(a2, b2);
    lemma_coord_term_bound(a3, b3);
    let s = a0 * b0 + a1 * b1 + a2 * b2 + a3 * b3;
    lemma_fx_tdiv_abs(s, 65536);
    lemma_div_is_ordered(fx_abs(s), 0x4000_0000_0000_0000, 65536);
}

/// Each product of two operands within `FX_COORD_LIMIT` stays within 2^60.
proof fn lemma_coord_term_bound(a: int, b: int)
    requires
        -0x4000_0000 <= a <= 0x4000_0000,
        -0x4000_0000 <= b <= 0x4000_0000,
    ensures
        -0x1000_0000_0000_0000 <= a * b <= 0x1000_0000_0000_0000,
{
    assert(-0x1000_0000_0000_0000 <= a * b <= 0x1000_0000_0000_0000) by (nonlinear_arith)
        requires
            -0x4000_0000 <= a <= 0x4000_0000,
            -0x4000_0000 <= b <= 0x4000_0000,
    ;
}

/// Each product of two operands within `FX_DOT_LIMIT` stays within 2^62.
pub(crate) proof fn lemma_dot_term_bound(a: int, b: int)
    requires
        -0x8000_0000 <= a <= 0x8000_0000,
        -0x8000_0000 <= b <= 0x8000_0000,
    ensures
        -0x4000_0000_0000_0000 <= a * b <= 0x4000_0000_0000_0000,
{
    assert(-0x4000_0000_0000_0000 <= a * b <= 0x4000_0000_0000_0000) by (nonlinear_arith)
        requires
            -0x8000_0000 <= a <= 0x8000_0000,
            -0x8000_0000 <= b <= 0x8000_0000,
    ;
}

} // verus!
