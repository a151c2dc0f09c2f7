//! Waveform generators: a phase-accumulating oscillator and a plucked-string
//! delay-line resonator.
use vstd::prelude::*;
use crate::fixed::{ONE, abs};
use crate::random::draw;

verus! {

/// One full cycle of phase.
pub const PHASE_ONE: u64 = 0x1_0000_0000;

/// Half a cycle of phase.
pub const PHASE_HALF: u64 = 0x8000_0000;

/// Shape of a periodic waveform.
#[derive(Clone, Copy, PartialEq, Eq, Structural, Debug)]
pub enum WaveType {
    Sine,
    Square,
    Sawtooth,
    Triangle,
    Noise,
}

/// Phase step per frame, in units of `1 / PHASE_ONE` cycles, for a
/// frequency in milli-hertz.
pub open spec fn increment_of(frequency: u32, sample_rate: u32) -> int {
    (frequency as int * PHASE_ONE as int) / (sample_rate as int * 1000)
}

/// A quarter cycle of phase.
pub const PHASE_QUARTER: u64 = 0x4000_0000;

/// Coefficients of `sin(pi x / 2) ~ x (a - x^2 (b - x^2 (c - d x^2)))` on
/// `[0, 1]`, scaled by `PHASE_QUARTER`: `a = pi/2`, `b = a^3/6`,
/// `c = a^5/120`, and `d` chosen so that the value at `x = 1` is exactly 1.
pub const SINE_A: u64 = 1686629713;
pub const SINE_B: u64 = 693598668;
pub const SINE_C: u64 = 85569306;
pub const SINE_D: u64 = 4858527;

/// The nested terms of the quarter-wave polynomial at `t / PHASE_QUARTER`.
pub open spec fn sine_terms(t: int) -> (int, int, int) {
    let q = PHASE_QUARTER as int;
    let u = (t * t) / q;
    let z = SINE_C as int - (SINE_D as int * u) / q;
    let y = SINE_B as int - (z * u) / q;
    let m = SINE_A as int - (y * u) / q;
    (u, z, m)
}

/// `sin(pi/2 * t / PHASE_QUARTER)` for `t` in `[0, PHASE_QUARTER]`, scaled by
/// `ONE`, rounded down and kept at most `ONE`.
pub open spec fn quarter_sine(t: int) -> int {
    let v = (t * sine_terms(t).2) / (PHASE_QUARTER as int) / 16384;
    if v > ONE as int { ONE as int } else { v }
}

/// `sin(2 pi p / PHASE_ONE)` on the first half cycle, symmetric about the
/// quarter.
pub open spec fn half_sine(p: int) -> int {
    if p <= PHASE_QUARTER as int { quarter_sine(p) } else { quarter_sine(PHASE_HALF as int - p) }
}

/// Sine of the phase `p`, odd about the half cycle.
pub open spec fn sine_wave(p: int) -> int {
    if p < PHASE_HALF as int { half_sine(p) } else { -half_sine(p - PHASE_HALF as int) }
}

/// `+1` on the first half cycle and `-1` on the second.
pub open spec fn square_wave(p: int) -> int {
    if p < PHASE_HALF as int { ONE as int } else { -(ONE as int) }
}

/// `2p - 1`.
pub open spec fn sawtooth_wave(p: int) -> int {
    (2 * p * ONE as int) / PHASE_ONE as int - ONE as int
}

/// `4p - 1` on the first half cycle, `3 - 4p` on the second.
pub open spec fn triangle_wave(p: int) -> int {
    if p < PHASE_HALF as int {
        (4 * p * ONE as int) / PHASE_ONE as int - ONE as int
    } else {
        3 * ONE as int - (4 * p * ONE as int) / PHASE_ONE as int
    }
}

/// Value of a deterministic waveform at phase `p`.
pub open spec fn wave_at(w: WaveType, p: int) -> int {
    match w {
        WaveType::Sine => sine_wave(p),
        WaveType::Square => square_wave(p),
        WaveType::Sawtooth => sawtooth_wave(p),
        WaveType::Triangle => triangle_wave(p),
        WaveType::Noise => 0,
    }
}

/// Phase reached from `p` after `n` steps of `inc`, wrapped into one cycle.
pub open spec fn phase_after(p: int, inc: int, n: nat) -> int {
    (p + n * inc) % PHASE_ONE as int
}

/// Every nested term of the quarter-wave polynomial is nonnegative and at
/// most its coefficient.
proof fn lemma_sine_terms(t: int)
    requires
        0 <= t <= PHASE_QUARTER as int,
    ensures
        0 <= sine_terms(t).0 <= PHASE_QUARTER as int,
        0 <= sine_terms(t).2 <= SINE_A as int,
{
    let q = PHASE_QUARTER as int;
    let u = (t * t) / q;
    assert(0 <= t * t <= q * q) by (nonlinear_arith) requires 0 <= t <= q;
    vstd::arithmetic::div_mod::lemma_div_is_ordered(t * t, q * q, q);
    vstd::arithmetic::div_mod::lemma_div_by_multiple(q, q);
    vstd::arithmetic::div_mod::lemma_div_pos_is_pos(t * t, q);
    lemma_scaled_down(SINE_D as int, u);
    let z = SINE_C as int - (SINE_D as int * u) / q;
    lemma_scaled_down(z, u);
    let y = SINE_B as int - (z * u) / q;
    lemma_scaled_down(y, u);
}

/// `x * u / PHASE_QUARTER` lies in `[0, x]` for `u` within one quarter.
proof fn lemma_scaled_down(x: int, u: int)
    requires
        0 <= x,
        0 <= u <= PHASE_QUARTER as int,
    ensures
        0 <= (x * u) / (PHASE_QUARTER as int) <= x,
{
    let q = PHASE_QUARTER as int;
    assert(0 <= x * u <= x * q) by (nonlinear_arith) requires 0 <= x, 0 <= u <= q;
    vstd::arithmetic::div_mod::lemma_div_is_ordered(x * u, x * q, q);
    vstd::arithmetic::div_mod::lemma_div_by_multiple(x, q);
    vstd::arithmetic::div_mod::lemma_div_pos_is_pos(x * u, q);
}

/// The half-cycle sine lies in `[0, ONE]`.
pub proof fn lemma_half_sine_bounds(p: int)
    requires
        0 <= p <= PHASE_HALF as int,
    ensures
        0 <= half_sine(p) <= ONE as int,
{
    let t = if p <= PHASE_QUARTER as int { p } else { PHASE_HALF as int - p };
    lemma_sine_terms(t);
    let m = sine_terms(t).2;
    assert(0 <= t * m) by (nonlinear_arith) requires 0 <= t, 0 <= m;
    vstd::arithmetic::div_mod::lemma_div_pos_is_pos(t * m, PHASE_QUARTER as int);
    vstd::arithmetic::div_mod::lemma_div_pos_is_pos((t * m) / (PHASE_QUARTER as int), 16384);
}

/// Every deterministic waveform stays within `[-ONE, ONE]`.
pub proof fn lemma_wave_bounds(w: WaveType, p: int)
    requires
        0 <= p < PHASE_ONE as int,
    ensures
        -(ONE as int) <= wave_at(w, p) <= ONE as int,
{
    if p < PHASE_HALF as int {
        lemma_half_sine_bounds(p);
    } else {
        lemma_half_sine_bounds(p - PHASE_HALF as int);
    }
    let q = 4 * p * ONE as int;
    let s = 2 * p * ONE as int;
    vstd::arithmetic::div_mod::lemma_div_is_ordered(0, s, PHASE_ONE as int);
    vstd::arithmetic::div_mod::lemma_div_is_ordered(s, 2 * PHASE_ONE as int * ONE as int, PHASE_ONE as int);
    vstd::arithmetic::div_mod::lemma_div_by_multiple(2 * ONE as int, PHASE_ONE as int);
    vstd::arithmetic::div_mod::lemma_div_is_ordered(0, q, PHASE_ONE as int);
    vstd::arithmetic::div_mod::lemma_div_is_ordered(q, 4 * PHASE_ONE as int * ONE as int, PHASE_ONE as int);
    vstd::arithmetic::div_mod::lemma_div_by_multiple(4 * ONE as int, PHASE_ONE as int);
    if p >= PHASE_HALF as int {
        vstd::arithmetic::div_mod::lemma_div_is_ordered(2 * PHASE_ONE as int * ONE as int, q, PHASE_ONE as int);
        vstd::arithmetic::div_mod::lemma_div_by_multiple(2 * ONE as int, PHASE_ONE as int);
    }
}

/// A periodic waveform generator driven by a phase accumulator.
pub struct Oscillator {
    /// Frequency in milli-hertz.
    pub frequency: u32,
    /// Position in the cycle, in units of `1 / PHASE_ONE` cycles.
    pub phase: u64,
    /// Phase step per frame.
    pub phase_increment: u64,
    /// Frames per second.
    pub sample_rate: u32,
    pub wave_type: WaveType,
}

impl Oscillator {
    /// The phase lies within one cycle and the step is the one of the frequency.
    pub open spec fn wf(&self) -> bool {
        &&& self.sample_rate > 0
        &&& self.phase < PHASE_ONE
        &&& self.phase_increment as int == increment_of(self.frequency, self.sample_rate)
    }

    /// An oscillator at phase zero.
    pub fn new(frequency: u32, sample_rate: u32, wave_type: WaveType) -> (r: Self)
        requires
            sample_rate > 0,
        ensures
            r.wf(),
            r.frequency == frequency,
            r.sample_rate == sample_rate,
            r.wave_type == wave_type,
            r.phase == 0,
    {
        let num: u64 = frequency as u64 * PHASE_ONE;
        let den: u64 = sample_rate as u64 * 1000;
        Oscillator {
            frequency,
            phase: 0,
            phase_increment: num / den,
            sample_rate,
            wave_type,
        }
    }

    /// The waveform's value at the current phase, then one step of phase.
    /// Noise draws a value in `[-ONE, ONE]` and ignores the phase.
    pub fn next_sample(&mut self, rng: &mut rand::rngs::StdRng) -> (r: i64)
        requires
            old(self).wf(),
        ensures
            final(self).wf(),
            final(self).frequency == old(self).frequency,
            final(self).sample_rate == old(self).sample_rate,
            final(self).wave_type == old(self).wave_type,
            final(self).phase as int == phase_after(old(self).phase as int, old(self).phase_increment as int, 1),
            -(ONE as int) <= r <= ONE as int,
            old(self).wave_type != WaveType::Noise ==> r as int == wave_at(old(self).wave_type, old(self).phase as int),
    {
        let p = self.phase;
        proof { lemma_wave_bounds(self.wave_type, p as int); }
        let sample: i64 = match self.wave_type {
            WaveType::Sine => {
                if p < PHASE_HALF {
                    half_sine_exec(p)
                } else {
                    -half_sine_exec(p - PHASE_HALF)
                }
            },
            WaveType::Square => if p < PHASE_HALF { ONE } else { -ONE },
            WaveType::Sawtooth => (p / 0x8000) as i64 - ONE,
            WaveType::Triangle => {
                if p < PHASE_HALF {
                    (p / 0x4000) as i64 - ONE
                } else {
                    3 * ONE - (p / 0x4000) as i64
                }
            },
            WaveType::Noise => draw(rng, -ONE, ONE + 1),
        };
        self.phase = ((p as u128 + self.phase_increment as u128) % (PHASE_ONE as u128)) as u64;
        sample
    }
}

/// Executable form of `half_sine`.
fn half_sine_exec(p: u64) -> (r: i64)
    requires
        p <= PHASE_HALF,
    ensures
        r as int == half_sine(p as int),
{
    let t: u64 = if p <= PHASE_QUARTER { p } else { PHASE_HALF - p };
    proof {
        lemma_sine_terms(t as int);
        lemma_half_sine_bounds(p as int);
        let q = PHASE_QUARTER as int;
        let (u, z, m) = sine_terms(t as int);
        lemma_scaled_down(SINE_D as int, u);
        lemma_scaled_down(z, u);
        assert(t * m <= q * SINE_A as int) by (nonlinear_arith)
            requires 0 <= t <= q, 0 <= m <= SINE_A as int;
    }
    let q: u128 = PHASE_QUARTER as u128;
    let t: u128 = t as u128;
    let u: u128 = t * t / q;
    let z: u128 = SINE_C as u128 - SINE_D as u128 * u / q;
    let y: u128 = SINE_B as u128 - z * u / q;
    let m: u128 = SINE_A as u128 - y * u / q;
    let v: u128 = t * m / q / 16384;
    if v > ONE as u128 { ONE } else { v as i64 }
}

/// Stepping the phase `n` times and then once more is stepping it `n + 1`
/// times: the phase after `n` calls is `(initial + n * increment) mod 1`.
pub proof fn lemma_phase_steps(p: int, inc: int, n: nat)
    requires
        0 <= p < PHASE_ONE as int,
        0 <= inc,
    ensures
        phase_after(phase_after(p, inc, n), inc, 1) == phase_after(p, inc, n + 1),
        0 <= phase_after(p, inc, n) < PHASE_ONE as int,
{
    let m = PHASE_ONE as int;
    vstd::arithmetic::div_mod::lemma_add_mod_noop(p + n * inc, inc, m);
    vstd::arithmetic::div_mod::lemma_mod_bound(inc, m);
    vstd::arithmetic::div_mod::lemma_mod_twice(inc, m);
    vstd::arithmetic::div_mod::lemma_mod_bound(p + n * inc, m);
    assert(p + n * inc + inc == p + (n + 1) * inc) by (nonlinear_arith);
    vstd::arithmetic::div_mod::lemma_add_mod_noop((p + n * inc) % m, inc, m);
    vstd::arithmetic::div_mod::lemma_mod_twice(p + n * inc, m);
}

/// Denominator of the damping factor: `0.996` stands as `99_600_000 / 100_000_000`.
pub const DAMPING_SCALE: i64 = 100_000_000;

/// Smallest detune, in millionths: `-0.4`, where the damping factor is `1`.
pub const MIN_DETUNE: i64 = -400_000;

/// Largest detune, in millionths: `199.6`, where the damping factor is `-1`.
pub const MAX_DETUNE: i64 = 199_600_000;

/// Damping factor `0.996 - detune * 0.01` over `DAMPING_SCALE`, for a detune
/// given in millionths.
pub open spec fn damping(detune: int) -> int {
    99_600_000 - detune
}

/// Division rounded toward zero.
pub open spec fn trunc_div(x: int, d: int) -> int {
    if x >= 0 { x / d } else { -((-x) / d) }
}

/// One step of the feedback filter: `0.5 * (cur + next) * damping`, rounded
/// toward zero.
pub open spec fn filtered(cur: int, next: int, detune: int) -> int {
    trunc_div((cur + next) * damping(detune), 2 * DAMPING_SCALE as int)
}

/// The delay line after one filter step at `pos`.
pub open spec fn step(s: Seq<i64>, pos: int, detune: int) -> Seq<i64> {
    s.update(pos, filtered(s[pos] as int, s[(pos + 1) % (s.len() as int)] as int, detune) as i64)
}

/// The position `j` places after `pos` on a line of `n`, for `j < n`.
pub open spec fn wrap(pos: int, j: int, n: int) -> int {
    if pos + j < n { pos + j } else { pos + j - n }
}

/// The delay line after `k` successive filter steps from `pos`.
pub open spec fn run(s: Seq<i64>, pos: int, detune: int, k: nat) -> Seq<i64>
    decreases k,
{
    if k == 0 {
        s
    } else {
        let t = run(s, pos, detune, (k - 1) as nat);
        step(t, wrap(pos, k - 1, s.len() as int), detune)
    }
}

/// Number of frames in one period of `frequency` milli-hertz, rounded up.
pub open spec fn period_len(frequency: u32, sample_rate: u32) -> int {
    (sample_rate as int * 1000 + frequency as int - 1) / frequency as int
}

/// The delay line is the period rounded up: the shortest whole number of
/// frames that lasts at least one cycle.
pub proof fn lemma_period_len_is_ceiling(frequency: u32, sample_rate: u32)
    requires
        frequency > 0,
    ensures
        period_len(frequency, sample_rate) * frequency >= sample_rate as int * 1000,
        (period_len(frequency, sample_rate) - 1) * frequency < sample_rate as int * 1000,
{
    let f = frequency as int;
    let x = sample_rate as int * 1000 + f - 1;
    vstd::arithmetic::div_mod::lemma_fundamental_div_mod(x, f);
    vstd::arithmetic::div_mod::lemma_mod_bound(x, f);
    let q = x / f;
    assert(q * f >= sample_rate as int * 1000) by (nonlinear_arith)
        requires x == f * q + x % f, 0 <= x % f < f, x == sample_rate as int * 1000 + f - 1;
    assert((q - 1) * f < sample_rate as int * 1000) by (nonlinear_arith)
        requires x == f * q + x % f, 0 <= x % f < f, x == sample_rate as int * 1000 + f - 1;
}

/// Every value of `s` lies within `[-m, m]`.
pub open spec fn bounded_by(s: Seq<i64>, m: int) -> bool {
    forall|i: int| 0 <= i < s.len() ==> #[trigger] abs(s[i] as int) <= m
}

/// A plucked-string model: a noise-seeded delay line under a damping
/// two-tap average.
pub struct KarplusStrong {
    pub buffer: Vec<i64>,
    pub position: usize,
    /// Frequency in milli-hertz.
    pub frequency: u32,
    /// Frames per second.
    pub sample_rate: u32,
}

impl KarplusStrong {
    /// The cursor lies in the delay line and every value within `[-ONE, ONE]`.
    pub open spec fn wf(&self) -> bool {
        &&& self.buffer@.len() > 0
        &&& self.position < self.buffer@.len()
        &&& bounded_by(self.buffer@, ONE as int)
    }

    /// A delay line of one period, filled with noise in `[-ONE, ONE]`.
    pub fn new(frequency: u32, sample_rate: u32, rng: &mut rand::rngs::StdRng) -> (r: Self)
        requires
            frequency > 0,
            sample_rate > 0,
            period_len(frequency, sample_rate) <= usize::MAX,
        ensures
            r.wf(),
            r.buffer@.len() == period_len(frequency, sample_rate),
            r.position == 0,
            r.frequency == frequency,
            r.sample_rate == sample_rate,
    {
        let size: u64 = (sample_rate as u64 * 1000 + frequency as u64 - 1) / frequency as u64;
        proof {
            vstd::arithmetic::div_mod::lemma_div_is_ordered(frequency as int, sample_rate as int * 1000 + frequency as int - 1, frequency as int);
            vstd::arithmetic::div_mod::lemma_div_by_multiple(1, frequency as int);
        }
        let size = size as usize;
        let mut buffer: Vec<i64> = Vec::with_capacity(size);
        let mut i: usize = 0;
        while i < size
            invariant
                i <= size,
                buffer@.len() == i,
                bounded_by(buffer@, ONE as int),
            decreases size - i,
        {
            let v = draw(rng, -ONE, ONE + 1);
            buffer.push(v);
            i += 1;
        }
        KarplusStrong::from_noise(frequency, sample_rate, buffer)
    }

    /// A delay line of one period holding `noise`, cursor at its start.
    pub fn from_noise(frequency: u32, sample_rate: u32, noise: Vec<i64>) -> (r: Self)
        requires
            frequency > 0,
            noise@.len() == period_len(frequency, sample_rate),
            noise@.len() > 0,
            bounded_by(noise@, ONE as int),
        ensures
            r.wf(),
            r.buffer@ == noise@,
            r.position == 0,
            r.frequency == frequency,
            r.sample_rate == sample_rate,
    {
        KarplusStrong { buffer: noise, position: 0, frequency, sample_rate }
    }

    /// Returns the value under the cursor, writes the filtered average of it
    /// and its successor in its place, and moves the cursor on by one.
    pub fn next_sample(&mut self, detune: i64) -> (r: i64)
        requires
            old(self).wf(),
            MIN_DETUNE <= detune <= MAX_DETUNE,
        ensures
            final(self).wf(),
            final(self).frequency == old(self).frequency,
            final(self).sample_rate == old(self).sample_rate,
            abs(r as int) <= ONE as int,
            ({
                let len = old(self).buffer@.len();
                let pos = old(self).position as int;
                let next = (pos + 1) % (len as int);
                &&& r == old(self).buffer@[pos]
                &&& final(self).position as int == next
                &&& final(self).position as int == wrap(pos, 1, len as int)
                &&& final(self).buffer@ == step(old(self).buffer@, pos, detune as int)
                &&& final(self).buffer@[pos] as int == filtered(old(self).buffer@[pos] as int, old(self).buffer@[next] as int, detune as int)
            }),
    {
        let len = self.buffer.len();
        let position = self.position;
        let next_position = (position + 1) % len;
        let output = self.buffer[position];
        let next = self.buffer[next_position];
        proof {
            assert(abs(self.buffer@[position as int] as int) <= ONE as int);
            assert(abs(output as int) <= ONE as int);
            assert(abs(self.buffer@[next_position as int] as int) <= ONE as int);
            lemma_step_keeps_peak(self.buffer@, position as int, detune as int, ONE as int);
            lemma_filtered_bound(output as int, next as int, detune as int, ONE as int);
            let sum = output as int + next as int;
            assert(-0x4000_0000_0000 <= sum * (99_600_000 - detune) <= 0x4000_0000_0000) by (nonlinear_arith)
                requires -2 * ONE as int <= sum <= 2 * ONE as int, -100_000_000 <= 99_600_000 - detune <= 100_000_000;
        }
        let x: i64 = (output + next) * (99_600_000 - detune);
        let f: i64 = if x >= 0 { x / (2 * DAMPING_SCALE) } else { -((-x) / (2 * DAMPING_SCALE)) };
        assert(f as int == filtered(output as int, next as int, detune as int));
        proof {
            if position + 1 < len {
                vstd::arithmetic::div_mod::lemma_small_mod((position + 1) as nat, len as nat);
            } else {
                vstd::arithmetic::div_mod::lemma_mod_self_0(len as int);
            }
        }
        self.buffer.set(position, f);
        self.position = next_position;
        output
    }
}

/// The filter scales its inputs' amplitude by the magnitude of the damping
/// factor: with both taps in `[-m, m]`, the value written back is at most
/// `|f| * m`, with no rounding slack.
pub proof fn lemma_filtered_scale(cur: int, next: int, detune: int, m: int)
    requires
        abs(cur) <= m,
        abs(next) <= m,
    ensures
        abs(filtered(cur, next, detune)) * DAMPING_SCALE as int <= abs(damping(detune)) * m,
{
    let f = damping(detune);
    let ds = DAMPING_SCALE as int;
    let den = 2 * ds;
    let x = (cur + next) * f;
    let ax = abs(x);
    assert(ax == abs(cur + next) * abs(f)) by (nonlinear_arith)
        requires x == (cur + next) * f, ax == abs(x);
    assert(ax <= 2 * m * abs(f)) by (nonlinear_arith)
        requires ax == abs(cur + next) * abs(f), abs(cur + next) <= 2 * m, abs(f) >= 0;
    vstd::arithmetic::div_mod::lemma_fundamental_div_mod(ax, den);
    vstd::arithmetic::div_mod::lemma_mod_bound(ax, den);
    let q = ax / den;
    assert(abs(filtered(cur, next, detune)) == q);
    assert(q * ds <= abs(f) * m) by (nonlinear_arith)
        requires ax == den * q + ax % den, 0 <= ax % den, ax <= 2 * m * abs(f), den == 2 * ds, ds > 0;
}

/// The filter never leaves the amplitude of its inputs: with both taps in
/// `[-m, m]` and a detune in range, so is the value written back.
pub proof fn lemma_filtered_bound(cur: int, next: int, detune: int, m: int)
    requires
        abs(cur) <= m,
        abs(next) <= m,
        MIN_DETUNE as int <= detune <= MAX_DETUNE as int,
    ensures
        abs(filtered(cur, next, detune)) <= m,
{
    lemma_filtered_scale(cur, next, detune, m);
    let ds = DAMPING_SCALE as int;
    assert(abs(damping(detune)) <= ds);
    assert(abs(filtered(cur, next, detune)) <= m) by (nonlinear_arith)
        requires abs(filtered(cur, next, detune)) * ds <= abs(damping(detune)) * m,
            abs(damping(detune)) <= ds, ds > 0, m >= 0;
}

/// Writing a value within `[-m, m]` into a line bounded by `m` keeps it
/// bounded by `m`.
pub proof fn lemma_update_bounded(s: Seq<i64>, pos: int, v: i64, m: int)
    requires
        bounded_by(s, m),
        abs(v as int) <= m,
        0 <= pos < s.len(),
    ensures
        bounded_by(s.update(pos, v), m),
{
    let t = s.update(pos, v);
    assert forall|i: int| 0 <= i < t.len() implies #[trigger] abs(t[i] as int) <= m by {
        if i != pos {
            assert(t[i] == s[i]);
        }
    }
}

/// One filter step never raises the peak of the delay line: a line bounded by
/// `m` stays bounded by `m`.
pub proof fn lemma_step_keeps_peak(s: Seq<i64>, pos: int, detune: int, m: int)
    requires
        s.len() > 0,
        0 <= pos < s.len(),
        bounded_by(s, m),
        m <= i64::MAX,
        MIN_DETUNE as int <= detune <= MAX_DETUNE as int,
    ensures
        bounded_by(step(s, pos, detune), m),
        abs(step(s, pos, detune)[pos] as int) * DAMPING_SCALE as int <= abs(damping(detune)) * m,
        step(s, pos, detune)[pos] as int == filtered(s[pos] as int, s[(pos + 1) % (s.len() as int)] as int, detune),
{
    let next = (pos + 1) % (s.len() as int);
    vstd::arithmetic::div_mod::lemma_mod_bound(pos + 1, s.len() as int);
    assert(abs(s[pos] as int) <= m);
    assert(abs(s[next] as int) <= m);
    lemma_filtered_bound(s[pos] as int, s[next] as int, detune, m);
    lemma_filtered_scale(s[pos] as int, s[next] as int, detune, m);
    let v = filtered(s[pos] as int, s[next] as int, detune);
    lemma_update_bounded(s, pos, v as i64, m);
}

/// Each filter step scales the amplitude by the damping factor: for a factor
/// `f` in `[0, 1]`, the value written back is at most `f` times the larger
/// tap.
pub proof fn lemma_step_decay(cur: int, next: int, detune: int)
    requires
        0 <= damping(detune) <= DAMPING_SCALE as int,
    ensures
        abs(filtered(cur, next, detune)) * DAMPING_SCALE as int
            <= damping(detune) * (if abs(cur) >= abs(next) { abs(cur) } else { abs(next) }),
{
    let m = if abs(cur) >= abs(next) { abs(cur) } else { abs(next) };
    lemma_filtered_scale(cur, next, detune, m);
}

/// Over one period the whole delay line decays by the damping factor: after
/// `n` successive steps on a line of `n` bounded by `m`, with a factor `f` in
/// `[0, 1]`, every value is at most `f * m` (and the first `k` steps have
/// written values at most `f * m` while the line stays bounded by `m`).
pub proof fn lemma_period_decay(s: Seq<i64>, pos: int, detune: int, m: int, k: nat)
    requires
        s.len() > 0,
        0 <= pos < s.len(),
        bounded_by(s, m),
        0 <= m <= i64::MAX,
        0 <= damping(detune) <= DAMPING_SCALE as int,
        MIN_DETUNE as int <= detune <= MAX_DETUNE as int,
        k <= s.len(),
    ensures
        run(s, pos, detune, k).len() == s.len(),
        bounded_by(run(s, pos, detune, k), m),
        forall|j: int| 0 <= j < k ==>
            abs(#[trigger] run(s, pos, detune, k)[wrap(pos, j, s.len() as int)] as int) * DAMPING_SCALE as int
                <= damping(detune) * m,
        k == s.len() ==> forall|i: int| 0 <= i < s.len() ==>
            abs(#[trigger] run(s, pos, detune, k)[i] as int) * DAMPING_SCALE as int <= damping(detune) * m,
    decreases k,
{
    let n = s.len() as int;
    if k > 0 {
        lemma_period_decay(s, pos, detune, m, (k - 1) as nat);
        let t = run(s, pos, detune, (k - 1) as nat);
        let p = wrap(pos, k - 1, n);
        lemma_step_keeps_peak(t, p, detune, m);
        let u = run(s, pos, detune, k);
        assert(u == step(t, p, detune));
        assert forall|j: int| 0 <= j < k implies
            abs(#[trigger] u[wrap(pos, j, n)] as int) * DAMPING_SCALE as int <= damping(detune) * m by {
            if j < k - 1 {
                assert(u[wrap(pos, j, n)] == t[wrap(pos, j, n)]);
            }
        }
        if k == n {
            assert forall|i: int| 0 <= i < n implies
                abs(#[trigger] u[i] as int) * DAMPING_SCALE as int <= damping(detune) * m by {
                let j = if i >= pos { i - pos } else { i - pos + n };
                assert(wrap(pos, j, n) == i);
            }
        }
    }
}

/// A positive detune (up to `99.6`, where the factor reaches zero) damps
/// harder than none: the value written back is never larger in magnitude
/// than with a detune of zero.
pub proof fn lemma_detune_damps(cur: int, next: int, detune: int)
    requires
        0 < detune <= 99_600_000,
    ensures
        damping(detune) < damping(0),
        abs(filtered(cur, next, detune)) <= abs(filtered(cur, next, 0)),
{
    let den = 2 * DAMPING_SCALE as int;
    let s = abs(cur + next);
    assert(0 <= s * damping(detune) <= s * damping(0)) by (nonlinear_arith)
        requires s >= 0, 0 <= damping(detune) < damping(0);
    assert(abs((cur + next) * damping(detune)) == s * damping(detune)) by (nonlinear_arith)
        requires s == abs(cur + next), damping(detune) >= 0;
    assert(abs((cur + next) * damping(0)) == s * damping(0)) by (nonlinear_arith)
        requires s == abs(cur + next), damping(0) >= 0;
    vstd::arithmetic::div_mod::lemma_div_is_ordered(s * damping(detune), s * damping(0), den);
    vstd::arithmetic::div_mod::lemma_div_pos_is_pos(s * damping(detune), den);
}

} // verus!
