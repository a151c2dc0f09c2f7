//! The linear-decay amplitude envelope shared by every voice.
use vstd::prelude::*;
use crate::fixed::{ONE, SAMPLE_RATE, div_floor_wide};

verus! {

/// How far the envelope has fallen after `elapsed` frames at a decay of
/// `decay` thousandths per second, scaled by `ONE` and rounded down.
pub open spec fn env_drop(elapsed: int, decay: int) -> int {
    (elapsed * decay * ONE as int) / (1000 * SAMPLE_RATE as int)
}

/// `max(0, 1 - elapsed * decay)`, scaled by `ONE`.
pub open spec fn envelope_spec(elapsed: int, decay: int) -> int {
    if env_drop(elapsed, decay) >= ONE as int { 0 } else { ONE as int - env_drop(elapsed, decay) }
}

/// The envelope after `elapsed` frames (negative before the note's origin)
/// at a decay of `decay` thousandths per second; the envelope must fit in
/// an `i64`.
pub fn envelope(elapsed: i64, decay: u32) -> (r: i64)
    requires
        envelope_spec(elapsed as int, decay as int) <= i64::MAX,
    ensures
        r as int == envelope_spec(elapsed as int, decay as int),
        r >= 0,
        elapsed >= 0 ==> r <= ONE,
        elapsed >= -(SAMPLE_RATE as int) && decay <= 1000 ==> r <= 2 * ONE,
{
    let den: i128 = 1000 * SAMPLE_RATE as i128;
    proof {
        let e = elapsed as int;
        let d = decay as int;
        assert(-0x1_0000_0000_0000_0000_0000_0000_0000 <= e * d * ONE as int <= 0x1_0000_0000_0000_0000_0000_0000_0000)
            by (nonlinear_arith)
            requires i64::MIN <= e <= i64::MAX, 0 <= d <= u32::MAX;
        if e >= 0 {
            assert(e * d * ONE as int >= 0) by (nonlinear_arith) requires e >= 0, d >= 0;
            vstd::arithmetic::div_mod::lemma_div_pos_is_pos(e * d * ONE as int, den as int);
        }
        if e >= -(SAMPLE_RATE as int) {
            lemma_envelope_fits(e, d);
        }
    }
    let n: i128 = elapsed as i128 * decay as i128 * ONE as i128;
    let drop = div_floor_wide(n, den);
    if drop >= ONE as i128 {
        0
    } else {
        (ONE as i128 - drop) as i64
    }
}

/// Up to one second before its origin the envelope fits in an `i64`, and
/// at a decay of at most one per second it is at most `2`.
pub proof fn lemma_envelope_fits(elapsed: int, decay: int)
    requires
        elapsed >= -(SAMPLE_RATE as int),
        0 <= decay <= u32::MAX,
    ensures
        envelope_spec(elapsed, decay) <= i64::MAX,
        decay <= 1000 ==> envelope_spec(elapsed, decay) <= 2 * ONE as int,
{
    let e = elapsed;
    let d = decay;
    let den = 1000 * SAMPLE_RATE as int;
    assert(-(SAMPLE_RATE as int) * d * ONE as int <= e * d * ONE as int) by (nonlinear_arith)
        requires -(SAMPLE_RATE as int) <= e, 0 <= d;
    vstd::arithmetic::div_mod::lemma_div_is_ordered(-(SAMPLE_RATE as int) * d * ONE as int, e * d * ONE as int, den);
    assert(-den * (d * ONE as int) <= -(SAMPLE_RATE as int) * d * ONE as int) by (nonlinear_arith)
        requires den == 1000 * SAMPLE_RATE as int, d >= 0;
    vstd::arithmetic::div_mod::lemma_div_is_ordered(-den * (d * ONE as int), -(SAMPLE_RATE as int) * d * ONE as int, den);
    assert(-den * (d * ONE as int) == -(d * ONE as int) * den) by (nonlinear_arith);
    vstd::arithmetic::div_mod::lemma_fundamental_div_mod_converse(-den * (d * ONE as int), den, -(d * ONE as int), 0);
    if d <= 1000 {
        assert(-(SAMPLE_RATE as int) * d * ONE as int >= -(ONE as int) * den) by (nonlinear_arith)
            requires d <= 1000, den == 1000 * SAMPLE_RATE as int;
        vstd::arithmetic::div_mod::lemma_div_is_ordered(-(ONE as int) * den, -(SAMPLE_RATE as int) * d * ONE as int, den);
        assert(-(ONE as int) * den == -(ONE as int) * den + 0) by (nonlinear_arith);
        vstd::arithmetic::div_mod::lemma_fundamental_div_mod_converse(-(ONE as int) * den, den, -(ONE as int), 0);
    }
}

/// The envelope never rises as time goes on.
pub proof fn lemma_envelope_monotone(e1: int, e2: int, decay: int)
    requires
        e1 <= e2,
        decay >= 0,
    ensures
        envelope_spec(e2, decay) <= envelope_spec(e1, decay),
{
    assert(e1 * decay * ONE as int <= e2 * decay * ONE as int) by (nonlinear_arith)
        requires e1 <= e2, decay >= 0;
    vstd::arithmetic::div_mod::lemma_div_is_ordered(e1 * decay * ONE as int, e2 * decay * ONE as int, 1000 * SAMPLE_RATE as int);
}

/// Once `elapsed` reaches `1 / decay` seconds the envelope is exactly zero.
pub proof fn lemma_envelope_silent(elapsed: int, decay: int)
    requires
        decay > 0,
        elapsed * decay >= 1000 * SAMPLE_RATE as int,
    ensures
        envelope_spec(elapsed, decay) == 0,
{
    let den = 1000 * SAMPLE_RATE as int;
    assert(elapsed * decay * ONE as int >= ONE as int * den) by (nonlinear_arith)
        requires elapsed * decay >= den;
    vstd::arithmetic::div_mod::lemma_div_is_ordered(ONE as int * den, elapsed * decay * ONE as int, den);
    vstd::arithmetic::div_mod::lemma_div_by_multiple(ONE as int, den);
}

/// The envelope is never negative.
pub proof fn lemma_envelope_nonnegative(elapsed: int, decay: int)
    ensures
        envelope_spec(elapsed, decay) >= 0,
{
}

} // verus!
