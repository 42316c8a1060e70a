//! Fixed-point arithmetic shared by the camera, the lights and the frame plan.
//!
//! Every quantity is an integer count of millionths: a length of `1_500_000`
//! is one and a half units, an angle of `89_000_000` is 89 degrees, a cosine
//! of `965_926` is 0.965926. All results are exact integers, so contracts can
//! say precisely what was computed.

use vstd::prelude::*;

verus! {

/// Number of counts in one whole unit.
pub const SCALE: i64 = 1_000_000;

/// `x` limited to the closed interval from `lo` to `hi`.
pub open spec fn clamp(x: int, lo: int, hi: int) -> int {
    if x < lo {
        lo
    } else if x > hi {
        hi
    } else {
        x
    }
}

/// Division that rounds toward zero, so that negating the numerator negates
/// the quotient.
pub open spec fn trunc_div(n: int, d: int) -> int {
    if n >= 0 {
        n / d
    } else {
        -((-n) / d)
    }
}

/// Product of two fixed-point values, again in millionths, rounded toward zero.
pub open spec fn scaled_product(a: int, b: int) -> int {
    trunc_div(a * b, SCALE as int)
}

/// Absolute value.
pub open spec fn magnitude(x: int) -> int {
    if x >= 0 {
        x
    } else {
        -x
    }
}

/// Whether `x` can be held in an `i64`.
pub open spec fn fits_i64(x: int) -> bool {
    i64::MIN <= x <= i64::MAX
}

/// Whether `root` is the integer square root of `n`, rounded down.
pub open spec fn is_floor_sqrt(n: int, root: int) -> bool {
    0 <= root && root * root <= n < (root + 1) * (root + 1)
}

/// The integer square root of `n`, rounded down.
pub open spec fn floor_sqrt(n: int) -> int {
    choose|root: int| is_floor_sqrt(n, root)
}

/// Squaring is strictly increasing on the non-negative integers.
pub proof fn lemma_square_increasing(a: int, b: int)
    requires
        0 <= a < b,
    ensures
        a * a < b * b,
{
    assert(a * a <= a * b) by (nonlinear_arith)
        requires
            0 <= a < b,
    ;
    assert(a * b < b * b) by (nonlinear_arith)
        requires
            0 <= a < b,
    ;
}

/// A number has at most one integer square root.
pub proof fn lemma_floor_sqrt_unique(n: int, r: int, s: int)
    requires
        is_floor_sqrt(n, r),
        is_floor_sqrt(n, s),
    ensures
        r == s,
{
    if r < s {
        if r + 1 < s {
            lemma_square_increasing(r + 1, s);
        }
    } else if s < r {
        if s + 1 < r {
            lemma_square_increasing(s + 1, r);
        }
    }
}

/// Any witness of `is_floor_sqrt` is the value of `floor_sqrt`.
pub proof fn lemma_floor_sqrt_is(n: int, root: int)
    requires
        is_floor_sqrt(n, root),
    ensures
        floor_sqrt(n) == root,
{
    lemma_floor_sqrt_unique(n, root, floor_sqrt(n));
}

/// `value + delta`, limited to the interval from `lo` to `hi`. The sum is
/// formed without overflow, whatever the two operands are.
pub fn clamped_sum(value: i64, delta: i64, lo: i64, hi: i64) -> (r: i64)
    requires
        lo <= hi,
    ensures
        r == clamp(value + delta, lo as int, hi as int),
{
    let sum: i128 = value as i128 + delta as i128;
    if sum < lo as i128 {
        lo
    } else if sum > hi as i128 {
        hi
    } else {
        sum as i64
    }
}

/// `value - delta`, limited to the interval from `lo` to `hi`.
pub fn clamped_difference(value: i64, delta: i64, lo: i64, hi: i64) -> (r: i64)
    requires
        lo <= hi,
    ensures
        r == clamp(value - delta, lo as int, hi as int),
{
    let difference: i128 = value as i128 - delta as i128;
    if difference < lo as i128 {
        lo
    } else if difference > hi as i128 {
        hi
    } else {
        difference as i64
    }
}

/// The product of two `i64` values stays well inside an `i128`.
pub proof fn lemma_product_bound(a: int, b: int)
    requires
        fits_i64(a),
        fits_i64(b),
    ensures
        -0x4000_0000_0000_0000_0000_0000_0000_0000 <= a * b
            <= 0x4000_0000_0000_0000_0000_0000_0000_0000,
{
    assert(-0x4000_0000_0000_0000_0000_0000_0000_0000 <= a * b
        <= 0x4000_0000_0000_0000_0000_0000_0000_0000) by (nonlinear_arith)
        requires
            -0x8000_0000_0000_0000 <= a <= 0x7fff_ffff_ffff_ffff,
            -0x8000_0000_0000_0000 <= b <= 0x7fff_ffff_ffff_ffff,
    ;
}

/// Fixed-point product of `a` and `b`, rounded toward zero.
pub fn multiply_scaled(a: i64, b: i64) -> (r: i128)
    ensures
        r == scaled_product(a as int, b as int),
        -0x4000_0000_0000_0000_0000_0000_0000_0000 <= r
            <= 0x4000_0000_0000_0000_0000_0000_0000_0000,
{
    proof {
        lemma_product_bound(a as int, b as int);
    }
    let product: i128 = (a as i128) * (b as i128);
    product / (SCALE as i128)
}

/// Integer square root, rounded down, found by bisection.
pub fn integer_sqrt(n: u128) -> (root: u128)
    ensures
        root == floor_sqrt(n as int),
        is_floor_sqrt(n as int, root as int),
        root < 0x1_0000_0000_0000_0000,
{
    let mut low: u128 = 0;
    let mut high: u128 = 0x1_0000_0000_0000_0000;
    assert(high * high > n) by (nonlinear_arith)
        requires
            high == 0x1_0000_0000_0000_0000,
            n <= 0xffff_ffff_ffff_ffff_ffff_ffff_ffff_ffff,
    ;
    while high - low > 1
        invariant
            low < high <= 0x1_0000_0000_0000_0000,
            low * low <= n,
            n < high * high,
        decreases high - low,
    {
        let middle: u128 = low + (high - low) / 2;
        assert(middle * middle <= 0xffff_ffff_ffff_ffff * 0xffff_ffff_ffff_ffff)
            by (nonlinear_arith)
            requires
                0 <= middle <= 0xffff_ffff_ffff_ffff,
        ;
        if middle * middle <= n {
            low = middle;
        } else {
            high = middle;
        }
    }
    proof {
        lemma_floor_sqrt_is(n as int, low as int);
    }
    low
}

} // verus!
