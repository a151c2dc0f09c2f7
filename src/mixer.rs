//! The final stage of a frame: smoothing, tremolo and a hard limit.
use vstd::prelude::*;
use crate::fixed::{ONE, abs, clamp, mul_q, mul_q_spec, smooth, smooth_step, div_floor};

verus! {

/// Largest magnitude of a summed frame that the mixer takes, about a million
/// times full scale: the limit of the fixed-point products.
pub const MIX_BOUND: i64 = 0x10_0000_0000;

/// The output limit, `0.8`, scaled by `ONE`.
pub const LIMIT: i64 = 52428;

/// Tremolo gain `0.94 + 0.06 * wobble`, for a wobble scaled by `ONE`.
pub open spec fn tremolo_gain(wobble: int) -> int {
    (94 * ONE as int + 6 * wobble) / 100
}

/// The output of one frame from the smoothed signal and the wobble.
pub open spec fn limited(filtered: int, wobble: int) -> int {
    clamp(mul_q_spec(filtered, tremolo_gain(wobble)), -(LIMIT as int), LIMIT as int)
}

/// State of the output smoother.
pub struct Mixer {
    pub filter: i64,
}

impl Mixer {
    pub open spec fn wf(&self) -> bool {
        abs(self.filter as int) <= MIX_BOUND as int
    }

    pub fn new() -> (r: Self)
        ensures
            r.wf(),
            r.filter == 0,
    {
        Mixer { filter: 0 }
    }

    /// Smooths `sum` by `0.04`, applies the tremolo and limits the result to
    /// `[-0.8, 0.8]`.
    pub fn mix(&mut self, sum: i64, wobble: i64) -> (r: i64)
        requires
            old(self).wf(),
            abs(sum as int) <= MIX_BOUND as int,
            abs(wobble as int) <= ONE as int,
        ensures
            final(self).wf(),
            final(self).filter as int == smooth(old(self).filter as int, sum as int, 1, 25),
            r as int == limited(final(self).filter as int, wobble as int),
            -LIMIT <= r <= LIMIT,
    {
        let f = smooth_step(self.filter, sum, 1, 25);
        self.filter = f;
        proof {
            let t = 94 * ONE as int + 6 * wobble as int;
            vstd::arithmetic::div_mod::lemma_div_is_ordered(t, 100 * ONE as int, 100);
            vstd::arithmetic::div_mod::lemma_div_is_ordered(88 * ONE as int, t, 100);
        }
        let gain = div_floor(94 * ONE + 6 * wobble, 100);
        let v = mul_q(f, gain);
        if v < -LIMIT {
            -LIMIT
        } else if v > LIMIT {
            LIMIT
        } else {
            v
        }
    }
}

/// Whatever the voices sum to, a mixed frame lies in `[-0.8, 0.8]`.
pub proof fn lemma_mix_limited(filtered: int, wobble: int)
    ensures
        -(LIMIT as int) <= limited(filtered, wobble) <= LIMIT as int,
{
}

} // verus!
