//! Integer geometry shared by the surfaces: division that rounds toward zero,
//! 96-DPI scaling, and the arithmetic facts about them that layouts rely on.
use vstd::prelude::*;

verus! {

broadcast use vstd::arithmetic::mul::lemma_mul_is_commutative;

/// Whether `v` is representable as an `i32`.
pub open spec fn is_i32(v: int) -> bool {
    i32::MIN <= v <= i32::MAX
}

/// `a / b` rounded toward zero, for a positive divisor.
pub open spec fn trunc_div(a: int, b: int) -> int {
    if a >= 0 {
        a / b
    } else {
        -((-a) / b)
    }
}

/// The larger of two integers.
pub open spec fn max_of(a: int, b: int) -> int {
    if a >= b {
        a
    } else {
        b
    }
}

/// The smaller of two integers.
pub open spec fn min_of(a: int, b: int) -> int {
    if a <= b {
        a
    } else {
        b
    }
}

/// `px` 96-DPI pixels at `dpi`, rounded to the nearest physical pixel (halves
/// away from zero on the positive side), before it is narrowed to `i32`.
pub open spec fn scaled_exact(px: int, dpi: int) -> int {
    trunc_div(px * dpi + 48, 96)
}

/// `px` 96-DPI pixels at `dpi` in physical pixels, as an `i32`.
pub open spec fn scaled(px: int, dpi: int) -> i32 {
    scaled_exact(px, dpi) as i32
}

/// The edges of a region, in physical pixels.
#[derive(Debug, Clone, Copy, PartialEq, Eq, Structural)]
pub struct Edges {
    pub left: i64,
    pub top: i64,
    pub right: i64,
    pub bottom: i64,
}

/// The region between four edges.
pub open spec fn edges(left: int, top: int, right: int, bottom: int) -> Edges {
    Edges {
        left: left as i64,
        top: top as i64,
        right: right as i64,
        bottom: bottom as i64,
    }
}

/// The larger of `a` and `b`.
pub fn max_i32(a: i32, b: i32) -> (r: i32)
    ensures
        r == max_of(a as int, b as int),
{
    if a >= b {
        a
    } else {
        b
    }
}

/// The smaller of `a` and `b`.
pub fn min_i32(a: i32, b: i32) -> (r: i32)
    ensures
        r == min_of(a as int, b as int),
{
    if a <= b {
        a
    } else {
        b
    }
}

/// Scale a 96-DPI length to physical pixels, rounding to nearest.
pub fn scale_length(px: i32, dpi: u32) -> (r: i32)
    ensures
        r == scaled(px as int, dpi as int),
{
    proof {
        assert(-0x8000_0000 * 0xffff_ffff <= px * dpi <= 0x7fff_ffff * 0xffff_ffff)
            by (nonlinear_arith)
            requires
                -0x8000_0000 <= px <= 0x7fff_ffff,
                0 <= dpi <= 0xffff_ffff,
        ;
    }
    let n: i64 = px as i64 * dpi as i64 + 48;
    (n / 96) as i32
}

/// Half of `v`, rounded toward zero.
pub fn half(v: i32) -> (r: i32)
    ensures
        r == trunc_div(v as int, 2),
{
    v / 2
}

/// A point between the ends of an arithmetic progression lies between them.
pub proof fn lemma_progression_between(base: int, step: int, i: int, n: int)
    requires
        0 <= i <= n,
        is_i32(base),
        is_i32(base + n * step),
    ensures
        is_i32(base + i * step),
{
    assert(base + i * step <= max_of(base, base + n * step)) by (nonlinear_arith)
        requires
            0 <= i <= n,
    ;
    assert(base + i * step >= min_of(base, base + n * step)) by (nonlinear_arith)
        requires
            0 <= i <= n,
    ;
}

/// Dividing by a positive number rounds toward zero and never away from it.
pub proof fn lemma_trunc_div(a: int, b: int)
    requires
        b > 0,
    ensures
        a >= 0 ==> 0 <= trunc_div(a, b) * b <= a,
        a <= 0 ==> a <= trunc_div(a, b) * b <= 0,
        a >= 0 ==> 0 <= trunc_div(a, b) <= a,
        a <= 0 ==> a <= trunc_div(a, b) <= 0,
        a < trunc_div(a, b) * b + b,
{
    let q = trunc_div(a, b);
    if a >= 0 {
        assert(0 <= (a / b) * b <= a && 0 <= a / b <= a && a < (a / b) * b + b)
            by (nonlinear_arith)
            requires
                a >= 0,
                b > 0,
        ;
    } else {
        let n = -a;
        assert(0 <= (n / b) * b <= n && 0 <= n / b <= n) by (nonlinear_arith)
            requires
                n >= 0,
                b > 0,
        ;
        assert(q * b == -((n / b) * b)) by (nonlinear_arith)
            requires
                q == -(n / b),
        ;
    }
}

/// The larger and the smaller of two numbers, and division toward zero, are
/// what their names say.
pub proof fn law_helpers_are_ordinary_arithmetic(a: int, b: int)
    ensures
        max_of(a, b) >= a && max_of(a, b) >= b && (max_of(a, b) == a || max_of(a, b) == b),
        min_of(a, b) <= a && min_of(a, b) <= b && (min_of(a, b) == a || min_of(a, b) == b),
        a >= 0 && b > 0 ==> trunc_div(a, b) * b <= a < trunc_div(a, b) * b + b,
        a <= 0 && b > 0 ==> trunc_div(a, b) * b - b < a <= trunc_div(a, b) * b,
{
    if b > 0 {
        let p = if a >= 0 {
            a
        } else {
            -a
        };
        assert((p / b) * b <= p < (p / b) * b + b) by (nonlinear_arith)
            requires
                p >= 0,
                b > 0,
        ;
        let q = p / b;
        assert((-q) * b == -(q * b)) by (nonlinear_arith);
        if a == 0 {
            assert(p / b == 0) by (nonlinear_arith)
                requires
                    p == 0,
                    b > 0,
            ;
        }
    }
}

/// A length is scaled in proportion to the DPI and rounded to the nearest pixel:
/// it is off by at most half a pixel, and exact at 96 DPI.
pub proof fn law_scaling_rounds_to_the_nearest(px: int, dpi: int)
    requires
        px >= 0,
        dpi >= 0,
        px * dpi <= 96 * (i32::MAX - 1),
    ensures
        -48 < 96 * scaled(px, dpi) - px * dpi <= 48,
        dpi == 96 ==> scaled(px, dpi) == px,
{
    assert(0 <= px * dpi) by (nonlinear_arith)
        requires
            px >= 0,
            dpi >= 0,
    ;
}

} // verus!
