//! Fixed-point sample arithmetic: a sample value is an integer scaled by `ONE`.
use vstd::prelude::*;

verus! {

/// The integer that stands for the amplitude 1.0.
pub const ONE: i64 = 65536;

/// Frames per second of the whole engine.
pub const SAMPLE_RATE: u32 = 44100;

/// `a * b`, both scaled by `ONE`, rounded down to the scale of `ONE`.
pub open spec fn mul_q_spec(a: int, b: int) -> int {
    (a * b) / (ONE as int)
}

/// Absolute value over the integers.
pub open spec fn abs(x: int) -> int {
    if x < 0 { -x } else { x }
}

/// Division rounded toward negative infinity.
pub fn div_floor(n: i64, d: i64) -> (r: i64)
    requires
        d > 0,
        n > i64::MIN,
    ensures
        r as int == n as int / d as int,
{
    proof {
        if n >= 0 {
            vstd::arithmetic::div_mod::lemma_div_pos_is_pos(n as int, d as int);
            vstd::arithmetic::div_mod::lemma_div_is_ordered_by_denominator(n as int, 1, d as int);
        } else {
            vstd::arithmetic::div_mod::lemma_div_is_ordered_by_denominator(-(n as int), 1, d as int);
            vstd::arithmetic::div_mod::lemma_div_is_ordered(n as int, 0, d as int);
            lemma_floor_above(n as int, d as int);
        }
    }
    div_floor_wide(n as i128, d as i128) as i64
}

/// Rounding a negative quotient down never goes below the dividend.
proof fn lemma_floor_above(n: int, d: int)
    requires
        n < 0,
        d > 0,
    ensures
        n <= n / d,
{
    vstd::arithmetic::div_mod::lemma_fundamental_div_mod(n, d);
    vstd::arithmetic::div_mod::lemma_mod_bound(n, d);
    let q = n / d;
    assert(n <= q) by (nonlinear_arith)
        requires n == d * q + n % d, 0 <= n % d < d, d >= 1, n < 0;
}

/// Product of two scaled values, rounded down.
pub fn mul_q(a: i64, b: i64) -> (r: i64)
    requires
        -0x100_0000_0000 <= a <= 0x100_0000_0000,
        -0x10_0000 <= b <= 0x10_0000,
    ensures
        r as int == mul_q_spec(a as int, b as int),
{
    assert(-0x1000_0000_0000_0000 <= a * b <= 0x1000_0000_0000_0000) by (nonlinear_arith)
        requires -0x100_0000_0000 <= a <= 0x100_0000_0000, -0x10_0000 <= b <= 0x10_0000;
    div_floor(a * b, ONE)
}

/// Division of wide integers rounded toward negative infinity.
pub fn div_floor_wide(n: i128, d: i128) -> (r: i128)
    requires
        d > 0,
        n > i128::MIN,
    ensures
        r as int == n as int / d as int,
{
    if n >= 0 {
        n / d
    } else {
        let m: i128 = -n;
        let q: i128 = (m - 1) / d;
        proof {
            let mi = m as int;
            let di = d as int;
            let qi = q as int;
            assert((mi - 1) == qi * di + (mi - 1) % di) by (nonlinear_arith)
                requires qi == (mi - 1) / di, di > 0;
            assert(0 <= (mi - 1) % di < di) by (nonlinear_arith)
                requires di > 0;
            let rem = di - 1 - (mi - 1) % di;
            assert(n as int == (-qi - 1) * di + rem) by (nonlinear_arith)
                requires mi - 1 == qi * di + (mi - 1) % di, rem == di - 1 - (mi - 1) % di,
                    n as int == -mi;
            vstd::arithmetic::div_mod::lemma_fundamental_div_mod_converse(
                n as int, di, -qi - 1, rem);
        }
        -q - 1
    }
}

/// One-pole smoothing: `f + (x - f) * num / den`, rounded down.
pub open spec fn smooth(f: int, x: int, num: int, den: int) -> int {
    f + ((x - f) * num) / den
}

/// Smoothing with a coefficient in `[0, 1]` lands between the old state and
/// the input.
pub proof fn lemma_smooth_between(f: int, x: int, num: int, den: int)
    requires
        0 <= num <= den,
        den > 0,
    ensures
        f <= x ==> f <= smooth(f, x, num, den) <= x,
        x <= f ==> x <= smooth(f, x, num, den) <= f,
{
    let y = (x - f) * num;
    if f <= x {
        assert(0 <= y <= (x - f) * den) by (nonlinear_arith)
            requires y == (x - f) * num, 0 <= num <= den, f <= x;
        vstd::arithmetic::div_mod::lemma_div_is_ordered(y, (x - f) * den, den);
        vstd::arithmetic::div_mod::lemma_div_by_multiple(x - f, den);
        vstd::arithmetic::div_mod::lemma_div_pos_is_pos(y, den);
    } else {
        assert((x - f) * den <= y <= 0) by (nonlinear_arith)
            requires y == (x - f) * num, 0 <= num <= den, x < f;
        vstd::arithmetic::div_mod::lemma_div_is_ordered((x - f) * den, y, den);
        vstd::arithmetic::div_mod::lemma_fundamental_div_mod_converse((x - f) * den, den, x - f, 0);
        vstd::arithmetic::div_mod::lemma_div_is_ordered(y, 0, den);
    }
}

/// One step of one-pole smoothing; the result lies between `f` and `x`.
pub fn smooth_step(f: i64, x: i64, num: i64, den: i64) -> (r: i64)
    requires
        0 <= num <= den <= 100,
        0 < den,
        -0x10_0000_0000 <= f <= 0x10_0000_0000,
        -0x10_0000_0000 <= x <= 0x10_0000_0000,
    ensures
        r as int == smooth(f as int, x as int, num as int, den as int),
        f <= x ==> f <= r <= x,
        x <= f ==> x <= r <= f,
{
    proof {
        lemma_smooth_between(f as int, x as int, num as int, den as int);
        assert(-0x1000_0000_0000 <= (x - f) * num <= 0x1000_0000_0000) by (nonlinear_arith)
            requires -0x20_0000_0000 <= x - f <= 0x20_0000_0000, 0 <= num <= 100;
    }
    let d = div_floor((x - f) * num, den);
    f + d
}

/// `x` limited to `[lo, hi]`.
pub open spec fn clamp(x: int, lo: int, hi: int) -> int {
    if x < lo { lo } else if x > hi { hi } else { x }
}

/// Bound on a product: with `|a| <= ma` and `|b| <= k * ONE`, the scaled
/// product is at most `ma * k` in magnitude.
pub proof fn lemma_mul_q_bound(a: int, b: int, ma: int, k: int)
    requires
        abs(a) <= ma,
        abs(b) <= k * ONE as int,
        k >= 0,
    ensures
        abs(mul_q_spec(a, b)) <= ma * k,
        b == 0 ==> mul_q_spec(a, b) == 0,
{
    let o = ONE as int;
    assert(-(ma * k) * o <= a * b <= (ma * k) * o) by (nonlinear_arith)
        requires -ma <= a <= ma, -(k * o) <= b <= k * o, o > 0, k >= 0;
    vstd::arithmetic::div_mod::lemma_div_is_ordered(a * b, (ma * k) * o, o);
    vstd::arithmetic::div_mod::lemma_div_is_ordered(-(ma * k) * o, a * b, o);
    vstd::arithmetic::div_mod::lemma_fundamental_div_mod_converse((ma * k) * o, o, ma * k, 0);
    vstd::arithmetic::div_mod::lemma_fundamental_div_mod_converse(-(ma * k) * o, o, -(ma * k), 0);
}

} // verus!
