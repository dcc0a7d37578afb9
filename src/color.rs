//! Evenly spread colors on a chroma wheel of constant brightness.
//!
//! A category `index` out of `size` sits at the angle `2π · index / size`.
//! The point `(u, v) = (cos, sin)` of that angle, with luma 1, is turned
//! into RGB by
//!
//! ```text
//! red   = 1 + v / 0.88
//! green = 1 - 0.38 u - 0.58 v
//! blue  = 1 + u / 0.49
//! ```
//!
//! and each channel is clamped to `[0, 2]` and scaled onto a byte.
//! Everything is computed in fixed point with `FIX` units to one: the
//! angle is reduced to a quarter turn exactly, and the sine of a quarter
//! angle is its Taylor polynomial up to the eleventh power.
use vstd::prelude::*;
use vstd::arithmetic::div_mod::{
    lemma_div_is_ordered, lemma_div_by_multiple, lemma_fundamental_div_mod_converse,
};
use vstd::arithmetic::mul::lemma_mul_inequality;

verus! {

/// One unit in fixed point.
pub const FIX: u64 = 16777216;

/// A quarter turn (π / 2) in fixed point, rounded to nearest.
pub const HALF_PI_FIX: u64 = 26353589;

/// An RGB triple of bytes.
pub type Rgb = (u8, u8, u8);

/// One Horner step of the sine series: `1 - x² a / c`, in fixed point.
pub open spec fn sin_step(x2: int, a: int, c: int) -> int {
    FIX - x2 * a / (c * FIX)
}

/// `sin(x)` for `x` in `[0, π/2]`, in fixed point.
pub open spec fn fixed_sin(x: int) -> int {
    let x2 = x * x / (FIX as int);
    let a = sin_step(
        x2,
        sin_step(x2, sin_step(x2, sin_step(x2, sin_step(x2, FIX as int, 110), 72), 42), 20),
        6,
    );
    x * a / (FIX as int)
}

/// The angle `r / n` of a quarter turn, in fixed point radians.
pub open spec fn quarter_angle(r: int, n: int) -> int {
    r * (HALF_PI_FIX as int) / n
}

/// The point `(cos, sin)` of `2π · k / n` on the unit circle, in fixed point.
pub open spec fn wheel_point(n: int, k: int) -> (int, int) {
    let q = 4 * k / n;
    let r = 4 * k % n;
    let s = fixed_sin(quarter_angle(r, n));
    let c = fixed_sin(quarter_angle(n - r, n));
    if q == 0 {
        (c, s)
    } else if q == 1 {
        (-s, c)
    } else if q == 2 {
        (-c, -s)
    } else {
        (s, -c)
    }
}

/// A channel `num / den` clamped to `[0, 1]` and scaled onto `0..=255`, rounded down.
pub open spec fn channel_byte(num: int, den: int) -> int {
    let c = if num < 0 {
        0
    } else if num > den {
        den
    } else {
        num
    };
    c * 255 / den
}

/// The color of category `k` out of `n`.
pub open spec fn wheel_color(n: int, k: int) -> (int, int, int) {
    let (u, v) = wheel_point(n, k);
    let f = FIX as int;
    (
        channel_byte(88 * f + 100 * v, 176 * f),
        channel_byte(100 * f - 38 * u - 58 * v, 200 * f),
        channel_byte(49 * f + 100 * u, 98 * f),
    )
}

/// Whether an RGB triple of bytes is the color of category `k` out of `n`.
pub open spec fn is_wheel_color(c: Rgb, n: int, k: int) -> bool {
    wheel_color(n, k) == (c.0 as int, c.1 as int, c.2 as int)
}

proof fn lemma_step_bound(x2: int, a: int, c: int)
    requires
        0 <= x2 <= 3 * FIX,
        0 <= a <= FIX,
        6 <= c,
    ensures
        0 <= x2 * a <= 3 * FIX * FIX,
        0 <= x2 * a / (c * FIX) <= FIX,
        0 <= sin_step(x2, a, c) <= FIX,
{
    let f = FIX as int;
    lemma_mul_inequality(x2, 3 * f, a);
    lemma_mul_inequality(a, f, 3 * f);
    assert(0 <= x2 * a) by (nonlinear_arith)
        requires
            0 <= x2,
            0 <= a,
    ;
    assert(3 * f * f <= c * f * f) by (nonlinear_arith)
        requires
            6 <= c,
            0 < f,
    ;
    assert(c * f * f == (f * (c * f))) by (nonlinear_arith);
    lemma_div_is_ordered(x2 * a, f * (c * f), c * f);
    lemma_div_by_multiple(f, c * f);
    lemma_div_is_ordered(0, x2 * a, c * f);
}

fn sin_step_exec(x2: u64, a: u64, c: u64) -> (r: u64)
    requires
        x2 <= 3 * FIX,
        a <= FIX,
        6 <= c <= 110,
    ensures
        r == sin_step(x2 as int, a as int, c as int),
        r <= FIX,
{
    proof {
        lemma_step_bound(x2 as int, a as int, c as int);
    }
    FIX - x2 * a / (c * FIX)
}

fn fixed_sin_exec(x: u64) -> (r: u64)
    requires
        x <= HALF_PI_FIX,
    ensures
        r == fixed_sin(x as int),
        r <= HALF_PI_FIX,
{
    let ghost f = FIX as int;
    proof {
        lemma_mul_inequality(x as int, HALF_PI_FIX as int, x as int);
        lemma_mul_inequality(x as int, HALF_PI_FIX as int, HALF_PI_FIX as int);
        assert(HALF_PI_FIX * HALF_PI_FIX <= f * (3 * f));
        lemma_div_is_ordered((x * x) as int, f * (3 * f), f);
        lemma_div_by_multiple(3 * f, f);
        assert(f * (3 * f) == (3 * f) * f) by (nonlinear_arith);
    }
    let x2 = x * x / FIX;
    let a = sin_step_exec(x2, FIX, 110);
    let a = sin_step_exec(x2, a, 72);
    let a = sin_step_exec(x2, a, 42);
    let a = sin_step_exec(x2, a, 20);
    let a = sin_step_exec(x2, a, 6);
    proof {
        lemma_mul_inequality(a as int, f, x as int);
        assert(x * a <= x * f) by (nonlinear_arith)
            requires
                a <= f,
                0 <= x,
        ;
        assert(x * f == f * x) by (nonlinear_arith);
        lemma_div_is_ordered((x * a) as int, f * x, f);
        lemma_div_by_multiple(x as int, f);
        assert(0 <= x * a) by (nonlinear_arith)
            requires
                0 <= a,
                0 <= x,
        ;
    }
    x * a / FIX
}

fn quarter_angle_exec(r: u64, n: u64) -> (x: u64)
    requires
        r <= n,
        1 <= n <= 255,
    ensures
        x == quarter_angle(r as int, n as int),
        x <= HALF_PI_FIX,
{
    proof {
        let h = HALF_PI_FIX as int;
        lemma_mul_inequality(r as int, n as int, h);
        lemma_mul_inequality(n as int, 255, h);
        assert(n * h == h * n) by (nonlinear_arith);
        lemma_div_is_ordered((r * h) as int, h * n, n as int);
        lemma_div_by_multiple(h, n as int);
    }
    r * HALF_PI_FIX / n
}

/// Turns a clamped channel numerator into a byte.
fn channel_byte_exec(num: i64, den: i64) -> (b: u8)
    requires
        0 < den <= 200 * FIX,
    ensures
        b as int == channel_byte(num as int, den as int),
{
    let c: i64 = if num < 0 {
        0
    } else if num > den {
        den
    } else {
        num
    };
    proof {
        lemma_mul_inequality(c as int, den as int, 255);
        assert(den * 255 == 255 * den) by (nonlinear_arith);
        lemma_div_is_ordered((c * 255) as int, 255 * den, den as int);
        lemma_div_by_multiple(255, den as int);
        lemma_div_is_ordered(0, (c * 255) as int, den as int);
    }
    ((c as u64) * 255 / (den as u64)) as u8
}

/// The color of category `index` out of `size`: `size` categories are spread
/// evenly round a wheel of hues at constant brightness.
///
/// The result depends on `size` and `index` alone.
pub fn calculate_color(size: u8, index: u8) -> (c: Rgb)
    requires
        0 < size,
        index < size,
    ensures
        is_wheel_color(c, size as int, index as int),
{
    let n = size as u64;
    let k = index as u64;
    let q = 4 * k / n;
    let r = 4 * k % n;
    let s = fixed_sin_exec(quarter_angle_exec(r, n)) as i64;
    let co = fixed_sin_exec(quarter_angle_exec(n - r, n)) as i64;
    proof {
        lemma_div_is_ordered(4 * k as int, 4 * n as int, n as int);
        lemma_div_by_multiple(4, n as int);
        assert(4 * n == 4 * (n as int)) by (nonlinear_arith);
    }
    let (u, v): (i64, i64) = if q == 0 {
        (co, s)
    } else if q == 1 {
        (-s, co)
    } else if q == 2 {
        (-co, -s)
    } else {
        (s, -co)
    };
    let f = FIX as i64;
    let red = channel_byte_exec(88 * f + 100 * v, 176 * f);
    let green = channel_byte_exec(100 * f - 38 * u - 58 * v, 200 * f);
    let blue = channel_byte_exec(49 * f + 100 * u, 98 * f);
    (red, green, blue)
}

/// The color of category `index` out of `size`, or `None` where there is no
/// such category (`size` is zero, or `index` is not below it).
pub fn checked_color(size: u8, index: u8) -> (c: Option<Rgb>)
    ensures
        c is None <==> (size == 0 || index >= size),
        c matches Some(rgb) ==> is_wheel_color(rgb, size as int, index as int),
{
    if size == 0 || index >= size {
        None
    } else {
        Some(calculate_color(size, index))
    }
}

/// The sine of a quarter turn, `x = π/2`, is one to within the
/// fixed-point rounding.
proof fn lemma_sin_quarter_turn()
    ensures
        fixed_sin(HALF_PI_FIX as int) == FIX - 1,
{
    let x = HALF_PI_FIX as int;
    let f = FIX as int;
    assert(x * x == 694511653180921);
    assert(x * x / f == 41396120);
    let x2 = 41396120int;
    assert(x2 * 16777216 == 694511646801920);
    lemma_fundamental_div_mod_converse(694511646801920, 1845493760, 376328, 671088640);
    assert(sin_step(x2, 16777216, 110) == 16400888);
    assert(x2 * 16400888 == 678933127754560);
    lemma_fundamental_div_mod_converse(678933127754560, 1207959552, 562049, 669512512);
    assert(sin_step(x2, 16400888, 72) == 16215167);
    assert(x2 * 16215167 == 671244998952040);
    lemma_fundamental_div_mod_converse(671244998952040, 704643072, 952602, 599278696);
    assert(sin_step(x2, 16215167, 42) == 15824614);
    assert(x2 * 15824614 == 655077620097680);
    lemma_fundamental_div_mod_converse(655077620097680, 335544320, 1952283, 148415120);
    assert(sin_step(x2, 15824614, 20) == 14824933);
    assert(x2 * 14824933 == 613694705459960);
    lemma_fundamental_div_mod_converse(613694705459960, 100663296, 6096509, 15426296);
    assert(sin_step(x2, 14824933, 6) == 10680707);
    assert(x * 10680707 == 281474962507423);
    lemma_fundamental_div_mod_converse(281474962507423, 16777216, 16777215, 2573983);
    assert(x * 10680707 / f == f - 1);
}

proof fn lemma_fixed_sin_nonneg(x: int)
    requires
        0 <= x <= HALF_PI_FIX,
    ensures
        fixed_sin(x) >= 0,
{
    let f = FIX as int;
    let h = HALF_PI_FIX as int;
    lemma_mul_inequality(x, h, x);
    lemma_mul_inequality(x, h, h);
    assert(x * x >= 0) by (nonlinear_arith)
        requires
            0 <= x,
    ;
    lemma_div_is_ordered(x * x, f * (3 * f), f);
    lemma_div_by_multiple(3 * f, f);
    assert(f * (3 * f) == (3 * f) * f) by (nonlinear_arith);
    lemma_div_is_ordered(0, x * x, f);
    let x2 = x * x / f;
    lemma_step_bound(x2, f, 110);
    let a1 = sin_step(x2, f, 110);
    lemma_step_bound(x2, a1, 72);
    let a2 = sin_step(x2, a1, 72);
    lemma_step_bound(x2, a2, 42);
    let a3 = sin_step(x2, a2, 42);
    lemma_step_bound(x2, a3, 20);
    let a4 = sin_step(x2, a3, 20);
    lemma_step_bound(x2, a4, 6);
    let a5 = sin_step(x2, a4, 6);
    assert(x * a5 >= 0) by (nonlinear_arith)
        requires
            0 <= x,
            0 <= a5,
    ;
    lemma_div_is_ordered(0, x * a5, f);
}

proof fn lemma_quarter_angle_in_range(r: int, n: int)
    requires
        0 <= r <= n,
        1 <= n,
    ensures
        0 <= quarter_angle(r, n) <= HALF_PI_FIX,
{
    let h = HALF_PI_FIX as int;
    lemma_mul_inequality(r, n, h);
    assert(n * h == h * n) by (nonlinear_arith);
    lemma_div_is_ordered(r * h, h * n, n);
    lemma_div_by_multiple(h, n);
    assert(r * h >= 0) by (nonlinear_arith)
        requires
            0 <= r,
            0 <= h,
    ;
    lemma_div_is_ordered(0, r * h, n);
}

/// Category 0 of a wheel lies on the blue axis and has full blue; a
/// category a quarter turn or more away from it, on the far half of the
/// wheel, has at most half blue. So their colors differ: with three
/// categories, as for two regions and the border, categories 0 and 1 differ.
pub proof fn lemma_far_half_differs_from_first(n: int, k: int)
    requires
        1 <= n,
        0 <= k < n,
        1 <= 4 * k / n <= 2,
    ensures
        wheel_color(n, 0).2 == 255,
        wheel_color(n, k).2 <= 127,
        wheel_color(n, 0) != wheel_color(n, k),
{
    let f = FIX as int;
    let h = HALF_PI_FIX as int;
    // Category 0: the angle is zero, so `u` is the sine of a quarter turn.
    assert(4 * 0int / n == 0);
    assert(4 * 0int % n == 0);
    lemma_div_by_multiple(h, n);
    assert(n * h == h * n) by (nonlinear_arith);
    assert(quarter_angle(n - 0, n) == h);
    lemma_sin_quarter_turn();
    assert(wheel_point(n, 0).0 == f - 1);
    // Category k: `u` is minus a sine of an angle in the first quarter.
    let r = 4 * k % n;
    assert(0 <= r < n);
    lemma_quarter_angle_in_range(r, n);
    lemma_quarter_angle_in_range(n - r, n);
    lemma_fixed_sin_nonneg(quarter_angle(r, n));
    lemma_fixed_sin_nonneg(quarter_angle(n - r, n));
    let u = wheel_point(n, k).0;
    assert(u <= 0);
    let num = 49 * f + 100 * u;
    let den = 98 * f;
    if num >= 0 {
        lemma_mul_inequality(num, 49 * f, 255);
        lemma_div_is_ordered(num * 255, 49 * f * 255, den);
        assert(49 * f * 255 / den == 127);
    }
}

} // verus!
