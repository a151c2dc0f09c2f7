//! Voices: generators under an envelope, with an echo line or an output
//! smoother.
use vstd::prelude::*;
use crate::envelope::{envelope, envelope_spec};
use crate::fixed::{ONE, SAMPLE_RATE, abs, smooth, smooth_step, mul_q, mul_q_spec, lemma_mul_q_bound};
use crate::random::draw;
use crate::synth::{phase_after, KarplusStrong, Oscillator, WaveType, MIN_DETUNE, MAX_DETUNE, bounded_by, sine_wave, filtered};

verus! {

/// Frames in an echo line: `0.45` second.
pub const ECHO_FRAMES: usize = 19845;

/// Frames in the melody's echo line: `0.6` second, longer than a chord note's.
pub const MELODY_ECHO_FRAMES: usize = 26460;

/// Largest step of a chord voice's drift per frame, in millionths.
pub const DRIFT_STEP: i64 = 100;

/// Largest magnitude of a voice's output.
pub const VOICE_BOUND: i64 = 0x4_0000;

/// Frequency, in milli-hertz, of the melody's vibrato wobble: `0.018` radian
/// per frame, that is `0.018 * 44100 / (2 pi)` Hz.
pub const VIBRATO_RATE: u32 = 126338;

/// Depth of the melody's vibrato, `0.008`, in millionths of detune.
pub const VIBRATO_DEPTH: i64 = 8000;

/// `x * num / den`, rounded down.
pub open spec fn scaled(x: int, num: int, den: int) -> int {
    smooth(0, x, num, den)
}


/// A chord note's signal: `0.1` of the string and `0.9` of the partial,
/// both under the gain and the envelope.
pub open spec fn voice_signal(pluck: int, partial: int, gain: int, env: int) -> int {
    scaled(mul_q_spec(mul_q_spec(pluck, gain), env), 1, 10)
        + scaled(mul_q_spec(mul_q_spec(partial, gain), env), 9, 10)
}

/// The signal of a chord note in its present state.
pub open spec fn voice_signal_of(v: Voice) -> int {
    voice_signal(
        v.osc.buffer@[v.osc.position as int] as int,
        sine_wave(v.sine.phase as int),
        v.gain as int,
        envelope_spec(v.time - v.offset, v.decay as int),
    )
}

/// The output of a chord note in its present state: its signal and `0.9` of
/// the echo under the line's cursor.
pub open spec fn voice_out(v: Voice) -> int {
    voice_signal_of(v) + scaled(v.delay_buffer@[v.delay_pos as int] as int, 9, 10)
}

/// The melody's signal in its present state.
pub open spec fn melody_signal_of(m: Melody) -> int {
    mul_q_spec(
        mul_q_spec(m.osc.buffer@[m.osc.position as int] as int, m.gain as int),
        envelope_spec(m.time as int, m.decay as int),
    )
}

/// The melody's output in its present state: its signal and `0.95` of the
/// echo under the line's cursor.
pub open spec fn melody_out(m: Melody) -> int {
    melody_signal_of(m) + scaled(m.delay_buffer@[m.delay_pos as int] as int, 19, 20)
}

/// A line of zeros.
fn silent_line(len: usize) -> (r: Vec<i64>)
    ensures
        r@.len() == len,
        bounded_by(r@, 0),
{
    let mut v: Vec<i64> = Vec::with_capacity(len);
    let mut i: usize = 0;
    while i < len
        invariant
            i <= len,
            v@.len() == i,
            bounded_by(v@, 0),
        decreases len - i,
    {
        v.push(0);
        i += 1;
    }
    v
}

/// A chord note: a plucked string blended under a sine partial.
pub struct Voice {
    pub osc: KarplusStrong,
    pub sine: Oscillator,
    pub gain: i64,
    /// Thousandths per second.
    pub decay: u32,
    /// Frames since the note's origin, counted from `offset`.
    pub time: i64,
    pub delay_buffer: Vec<i64>,
    pub delay_pos: usize,
    pub offset: i64,
    /// Slowly wandering detune of the string, in millionths.
    pub drift: i64,
}

impl Voice {
    pub open spec fn wf(&self) -> bool {
        &&& self.osc.wf()
        &&& self.sine.wf()
        &&& self.sine.wave_type == WaveType::Sine
        &&& 0 <= self.gain <= ONE
        &&& -0x1_0000_0000 <= self.offset <= 0x1_0000_0000
        &&& self.offset <= self.time < 0x1000_0000_0000_0000
        &&& self.delay_buffer@.len() > 0
        &&& self.delay_pos < self.delay_buffer@.len()
        &&& bounded_by(self.delay_buffer@, ONE as int)
        &&& MIN_DETUNE <= self.drift <= MAX_DETUNE
    }

    /// The frame's output: the blended signal plus the echo of the line.
    /// The echo line then holds half the signal in place of what it gave out.
    pub fn next(&mut self, rng: &mut rand::rngs::StdRng) -> (r: i64)
        requires
            old(self).wf(),
            old(self).time < 0x0fff_ffff_ffff_ffff,
        ensures
            final(self).wf(),
            final(self).time == old(self).time + 1,
            final(self).offset == old(self).offset,
            final(self).gain == old(self).gain,
            final(self).decay == old(self).decay,
            abs(r as int) <= VOICE_BOUND as int,
            ({
                let pos = old(self).delay_pos as int;
                let signal = voice_signal_of(*old(self));
                &&& r == voice_out(*old(self))
                &&& final(self).delay_buffer@ == old(self).delay_buffer@.update(pos, scaled(signal, 1, 2) as i64)
                &&& final(self).delay_pos as int == (pos + 1) % (old(self).delay_buffer@.len() as int)
                &&& envelope_spec(old(self).time - old(self).offset, old(self).decay as int) == 0 ==> signal == 0
            }),
            abs(final(self).drift - old(self).drift) <= DRIFT_STEP,
            final(self).sine.phase as int == phase_after(old(self).sine.phase as int, old(self).sine.phase_increment as int, 1),
            final(self).sine.frequency == old(self).sine.frequency,
            final(self).osc.position as int == (old(self).osc.position + 1) % (old(self).osc.buffer@.len() as int),
            ({
                let len = old(self).osc.buffer@.len() as int;
                let p = old(self).osc.position as int;
                final(self).osc.buffer@ == old(self).osc.buffer@.update(p, filtered(
                    old(self).osc.buffer@[p] as int,
                    old(self).osc.buffer@[(p + 1) % len] as int,
                    final(self).drift as int,
                ) as i64)
            }),
    {
        proof { crate::envelope::lemma_envelope_fits(self.time - self.offset, self.decay as int); }
        let env = envelope(self.time - self.offset, self.decay);
        let step = draw(rng, -DRIFT_STEP, DRIFT_STEP + 1);
        let mut drift = self.drift + step;
        if drift > MAX_DETUNE {
            drift = MAX_DETUNE;
        } else if drift < MIN_DETUNE {
            drift = MIN_DETUNE;
        }
        self.drift = drift;
        let a = self.osc.next_sample(drift);
        let b = self.sine.next_sample(rng);
        proof {
            lemma_mul_q_bound(a as int, self.gain as int, ONE as int, 1);
            lemma_mul_q_bound(b as int, self.gain as int, ONE as int, 1);
        }
        let ag = mul_q(a, self.gain);
        let bg = mul_q(b, self.gain);
        proof {
            lemma_mul_q_bound(ag as int, env as int, ONE as int, 1);
            lemma_mul_q_bound(bg as int, env as int, ONE as int, 1);
        }
        let pluck = mul_q(ag, env);
        let partial = mul_q(bg, env);
        let signal = smooth_step(0, pluck, 1, 10) + smooth_step(0, partial, 9, 10);
        let pos = self.delay_pos;
        proof { assert(abs(self.delay_buffer@[pos as int] as int) <= ONE as int); }
        let delayed = smooth_step(0, self.delay_buffer[pos], 9, 10);
        let stored = smooth_step(0, signal, 1, 2);
        proof { crate::synth::lemma_update_bounded(self.delay_buffer@, pos as int, stored, ONE as int); }
        self.delay_buffer.set(pos, stored);
        let len = self.delay_buffer.len();
        assert(pos < len);
        self.delay_pos = (pos + 1) % len;
        self.time = self.time + 1;
        signal + delayed
    }
}

/// Builds a chord note at `frequency` milli-hertz (moved by `detune`), with
/// a sine partial at `0.99` of it, the given gain, entry offset and drift.
pub fn make_voice(frequency: u32, detune: i64, gain: i64, offset: i64, drift: i64, rng: &mut rand::rngs::StdRng) -> (r: Voice)
    requires
        20_000 <= frequency <= 100_000_000,
        -10_000 <= detune <= 10_000,
        0 <= gain <= ONE,
        -0x1_0000_0000 <= offset <= 0x1_0000_0000,
        MIN_DETUNE <= drift <= MAX_DETUNE,
    ensures
        r.wf(),
        r.osc.frequency == frequency + detune,
        r.sine.frequency == frequency * 99 / 100,
        r.sine.phase == 0,
        r.gain == gain,
        r.time == offset,
        r.offset == offset,
        r.drift == drift,
        r.decay == 15,
        r.delay_buffer@.len() == ECHO_FRAMES,
        r.delay_pos == 0,
        bounded_by(r.delay_buffer@, 0),
{
    let f = (frequency as i64 + detune) as u32;
    proof {
        let x = SAMPLE_RATE as int * 1000 + f as int - 1;
        vstd::arithmetic::div_mod::lemma_div_is_ordered(x, 200_000_000, f as int);
        vstd::arithmetic::div_mod::lemma_div_is_ordered_by_denominator(200_000_000, 10_000, f as int);
        assert(200_000_000int / 10_000 == 20_000);
    }
    let osc = KarplusStrong::new(f, SAMPLE_RATE, rng);
    let sine = Oscillator::new((frequency as u64 * 99 / 100) as u32, SAMPLE_RATE, WaveType::Sine);
    let buf = silent_line(ECHO_FRAMES);
    Voice {
        osc,
        sine,
        gain,
        decay: 15,
        time: offset,
        delay_buffer: buf,
        delay_pos: 0,
        offset,
        drift,
    }
}

/// The melody: one plucked string with a vibrato-driven detune and an echo
/// that is longer and louder than a chord note's: `0.6` second, fed `0.6` of
/// the signal and returned at `0.95` (against `0.45` second, `0.5` and `0.9`).
pub struct Melody {
    pub osc: KarplusStrong,
    pub gain: i64,
    /// Thousandths per second.
    pub decay: u32,
    /// Frames since the note's origin; negative while the note is early.
    pub time: i64,
    /// The wobble that drives the string's detune.
    pub vibrato: Oscillator,
    pub delay_buffer: Vec<i64>,
    pub delay_pos: usize,
}

impl Melody {
    pub open spec fn wf(&self) -> bool {
        &&& self.osc.wf()
        &&& self.vibrato.wf()
        &&& self.vibrato.wave_type == WaveType::Sine
        &&& 0 <= self.gain <= ONE
        &&& self.decay <= 1000
        &&& -(SAMPLE_RATE as int) <= self.time < 0x1000_0000_0000_0000
        &&& self.delay_buffer@.len() > 0
        &&& self.delay_pos < self.delay_buffer@.len()
        &&& bounded_by(self.delay_buffer@, 2 * ONE as int)
    }

    /// The melody before its first note: a string at 440 Hz, gain `0.2`.
    pub fn new(rng: &mut rand::rngs::StdRng) -> (r: Self)
        ensures
            r.wf(),
            r.osc.frequency == 440_000,
            r.gain == 13107,
            r.decay == 20,
            r.time == 0,
            r.vibrato.phase == 0,
            r.delay_buffer@.len() == MELODY_ECHO_FRAMES,
    {
        let osc = KarplusStrong::new(440_000, SAMPLE_RATE, rng);
        Melody {
            osc,
            gain: 13107,
            decay: 20,
            time: 0,
            vibrato: Oscillator::new(VIBRATO_RATE, SAMPLE_RATE, WaveType::Sine),
            delay_buffer: silent_line(MELODY_ECHO_FRAMES),
            delay_pos: 0,
        }
    }

    /// Starts the note at `frequency` milli-hertz with a fresh string, an
    /// origin shifted by at most `0.05` beat, and the vibrato at its start.
    pub fn retune(&mut self, frequency: u32, rng: &mut rand::rngs::StdRng)
        requires
            old(self).wf(),
            20_000 <= frequency <= 100_000_000,
        ensures
            final(self).wf(),
            final(self).osc.frequency == frequency,
            final(self).osc.buffer@.len() == crate::synth::period_len(frequency, SAMPLE_RATE),
            -1653 <= final(self).time <= 1653,
            final(self).vibrato.phase == 0,
            final(self).gain == old(self).gain,
            final(self).decay == old(self).decay,
            final(self).delay_buffer == old(self).delay_buffer,
            final(self).delay_pos == old(self).delay_pos,
    {
        proof {
            let x = SAMPLE_RATE as int * 1000 + frequency as int - 1;
            vstd::arithmetic::div_mod::lemma_div_is_ordered(x, 200_000_000, frequency as int);
            vstd::arithmetic::div_mod::lemma_div_is_ordered_by_denominator(200_000_000, 10_000, frequency as int);
            assert(200_000_000int / 10_000 == 20_000);
        }
        self.osc = KarplusStrong::new(frequency, SAMPLE_RATE, rng);
        self.time = draw(rng, -1653, 1654);
        self.vibrato = Oscillator::new(VIBRATO_RATE, SAMPLE_RATE, WaveType::Sine);
    }

    /// The frame's output: the enveloped string plus the echo of the line.
    /// The echo line then holds `0.6` of the signal in place of what it gave out.
    pub fn next(&mut self, rng: &mut rand::rngs::StdRng) -> (r: i64)
        requires
            old(self).wf(),
            old(self).time < 0x0fff_ffff_ffff_ffff,
        ensures
            final(self).wf(),
            final(self).time == old(self).time + 1,
            final(self).gain == old(self).gain,
            final(self).decay == old(self).decay,
            final(self).osc.frequency == old(self).osc.frequency,
            final(self).vibrato.phase as int == phase_after(old(self).vibrato.phase as int, old(self).vibrato.phase_increment as int, 1),
            final(self).vibrato.frequency == old(self).vibrato.frequency,
            final(self).osc.position as int == (old(self).osc.position + 1) % (old(self).osc.buffer@.len() as int),
            abs(r as int) <= VOICE_BOUND as int,
            ({
                let len = old(self).osc.buffer@.len() as int;
                let p = old(self).osc.position as int;
                let detune = mul_q_spec(sine_wave(old(self).vibrato.phase as int), VIBRATO_DEPTH as int);
                final(self).osc.buffer@ == old(self).osc.buffer@.update(p, filtered(
                    old(self).osc.buffer@[p] as int,
                    old(self).osc.buffer@[(p + 1) % len] as int,
                    detune,
                ) as i64)
            }),
            ({
                let pos = old(self).delay_pos as int;
                let signal = melody_signal_of(*old(self));
                &&& r == melody_out(*old(self))
                &&& final(self).delay_buffer@ == old(self).delay_buffer@.update(pos, scaled(signal, 6, 10) as i64)
                &&& final(self).delay_pos as int == (pos + 1) % (old(self).delay_buffer@.len() as int)
                &&& envelope_spec(old(self).time as int, old(self).decay as int) == 0 ==> signal == 0
            }),
    {
        proof { crate::envelope::lemma_envelope_fits(self.time as int, self.decay as int); }
        let env = envelope(self.time, self.decay);
        let w = self.vibrato.next_sample(rng);
        proof { lemma_mul_q_bound(w as int, VIBRATO_DEPTH as int, ONE as int, 1); }
        let vib = mul_q(w, VIBRATO_DEPTH);
        let a = self.osc.next_sample(vib);
        proof { lemma_mul_q_bound(a as int, self.gain as int, ONE as int, 1); }
        let ag = mul_q(a, self.gain);
        proof { lemma_mul_q_bound(ag as int, env as int, ONE as int, 2); }
        let signal = mul_q(ag, env);
        let pos = self.delay_pos;
        proof { assert(abs(self.delay_buffer@[pos as int] as int) <= 2 * ONE as int); }
        let delayed = smooth_step(0, self.delay_buffer[pos], 19, 20);
        let stored = smooth_step(0, signal, 6, 10);
        proof { crate::synth::lemma_update_bounded(self.delay_buffer@, pos as int, stored, 2 * ONE as int); }
        self.delay_buffer.set(pos, stored);
        let len = self.delay_buffer.len();
        assert(pos < len);
        self.delay_pos = (pos + 1) % len;
        self.time = self.time + 1;
        signal + delayed
    }
}

/// The drum's sine frequency (milli-hertz), gain, decay, jitter range and
/// smoothing, and a silent start.
pub open spec fn drum_params(d: Drum, frequency: u32, gain: i64, decay: u32, lo: i64, hi: i64, smoothing: i64) -> bool {
    &&& d.osc.frequency == frequency
    &&& d.osc.phase == 0
    &&& d.gain == gain
    &&& d.decay == decay
    &&& d.jitter_lo == lo
    &&& d.jitter_hi == hi
    &&& d.smoothing == smoothing
    &&& d.time == 0
    &&& d.filter == 0
}

/// A sounding drum's next smoother state for a random gain factor `j`.
pub open spec fn drum_output(d: Drum, j: int) -> int {
    smooth(
        d.filter as int,
        mul_q_spec(
            mul_q_spec(sine_wave(d.osc.phase as int), mul_q_spec(d.gain as int, j)),
            envelope_spec(d.time as int, d.decay as int),
        ),
        d.smoothing as int,
        100,
    )
}

/// A drum: a sine under an envelope, a random gain in `[jitter_lo,
/// jitter_hi)` (scaled by `ONE`) and an output smoother of `smoothing`
/// hundredths.
pub struct Drum {
    pub osc: Oscillator,
    pub gain: i64,
    /// Thousandths per second.
    pub decay: u32,
    /// Frames since the hit began.
    pub time: i64,
    pub filter: i64,
    pub jitter_lo: i64,
    pub jitter_hi: i64,
    pub smoothing: i64,
}

impl Drum {
    pub open spec fn wf(&self) -> bool {
        &&& self.osc.wf()
        &&& self.osc.wave_type == WaveType::Sine
        &&& 0 <= self.gain
        &&& 0 <= self.jitter_lo < self.jitter_hi <= 2 * ONE
        &&& self.gain * self.jitter_hi <= ONE * ONE
        &&& 0 <= self.smoothing <= 100
        &&& 0 <= self.time < 0x1000_0000_0000_0000
        &&& abs(self.filter as int) <= ONE as int
    }

    /// A silent drum: a sine at `frequency` milli-hertz.
    pub fn new(frequency: u32, gain: i64, decay: u32, jitter_lo: i64, jitter_hi: i64, smoothing: i64) -> (r: Self)
        requires
            0 <= gain,
            0 <= jitter_lo < jitter_hi <= 2 * ONE,
            gain * jitter_hi <= ONE * ONE,
            0 <= smoothing <= 100,
        ensures
            r.wf(),
            r.osc.frequency == frequency,
            r.gain == gain,
            r.decay == decay,
            r.osc.phase == 0,
            r.time == 0,
            r.filter == 0,
            r.jitter_lo == jitter_lo,
            r.jitter_hi == jitter_hi,
            r.smoothing == smoothing,
    {
        Drum {
            osc: Oscillator::new(frequency, SAMPLE_RATE, WaveType::Sine),
            gain,
            decay,
            time: 0,
            filter: 0,
            jitter_lo,
            jitter_hi,
            smoothing,
        }
    }

    /// The kick: 50 Hz, gain `0.8` jittered by `[0.9, 1.1)`, decay `0.03`, smoother `0.04`.
    pub fn kick() -> (r: Self)
        ensures
            r.wf(),
            drum_params(r, 50_000, 52429, 30, 58982, 72090, 4),
    {
        Drum::new(50_000, 52429, 30, 58982, 72090, 4)
    }

    /// The hihat: 300 Hz, gain `0.08` jittered by `[0.7, 1.3)`, decay `0.12`, smoother `0.06`.
    pub fn hihat() -> (r: Self)
        ensures
            r.wf(),
            drum_params(r, 300_000, 5243, 120, 45875, 85197, 6),
    {
        Drum::new(300_000, 5243, 120, 45875, 85197, 6)
    }

    /// The snare: 120 Hz, gain `0.25` jittered by `[0.8, 1.2)`, decay `0.06`, smoother `0.05`.
    pub fn snare() -> (r: Self)
        ensures
            r.wf(),
            drum_params(r, 120_000, 16384, 60, 52428, 78643, 5),
    {
        Drum::new(120_000, 16384, 60, 52428, 78643, 5)
    }

    /// One frame of a sounding drum: the smoother moves toward the enveloped
    /// sine and is the output.
    pub fn hit(&mut self, rng: &mut rand::rngs::StdRng) -> (r: i64)
        requires
            old(self).wf(),
            old(self).time < 0x0fff_ffff_ffff_ffff,
        ensures
            final(self).wf(),
            final(self).time == old(self).time + 1,
            r == final(self).filter,
            abs(r as int) <= ONE as int,
            final(self).osc.phase as int == phase_after(old(self).osc.phase as int, old(self).osc.phase_increment as int, 1),
            final(self).osc.frequency == old(self).osc.frequency,
            final(self).gain == old(self).gain,
            final(self).decay == old(self).decay,
            final(self).jitter_lo == old(self).jitter_lo,
            final(self).jitter_hi == old(self).jitter_hi,
            final(self).smoothing == old(self).smoothing,
            exists|j: int| old(self).jitter_lo <= j < old(self).jitter_hi && #[trigger] drum_output(*old(self), j) == r,
            envelope_spec(old(self).time as int, old(self).decay as int) == 0 ==>
                r as int == smooth(old(self).filter as int, 0, old(self).smoothing as int, 100),
    {
        proof { crate::envelope::lemma_envelope_fits(self.time as int, self.decay as int); }
        let env = envelope(self.time, self.decay);
        let jitter = draw(rng, self.jitter_lo, self.jitter_hi);
        proof {
            let g = self.gain as int;
            assert(0 <= g * jitter <= ONE * ONE) by (nonlinear_arith)
                requires g >= 0, 0 <= jitter < self.jitter_hi, g * self.jitter_hi <= ONE * ONE;
            vstd::arithmetic::div_mod::lemma_div_is_ordered(g * jitter, ONE * ONE, ONE as int);
            vstd::arithmetic::div_mod::lemma_div_by_multiple(ONE as int, ONE as int);
            vstd::arithmetic::div_mod::lemma_div_pos_is_pos(g * jitter, ONE as int);
            assert(g <= ONE * ONE) by (nonlinear_arith)
                requires g >= 0, g * self.jitter_hi <= ONE * ONE, self.jitter_hi >= 1;
        }
        let g = mul_q(self.gain, jitter);
        let x = self.osc.next_sample(rng);
        proof { lemma_mul_q_bound(x as int, g as int, ONE as int, 1); }
        let xg = mul_q(x, g);
        proof { lemma_mul_q_bound(xg as int, env as int, ONE as int, 1); }
        let s = mul_q(xg, env);
        self.filter = smooth_step(self.filter, s, self.smoothing, 100);
        self.time = self.time + 1;
        assert(drum_output(*old(self), jitter as int) == self.filter);
        self.filter
    }

    /// A frame outside the drum's window: the hit restarts from its beginning
    /// next time.
    pub fn rest(&mut self)
        requires
            old(self).wf(),
        ensures
            final(self).wf(),
            final(self).time == 0,
            final(self).filter == old(self).filter,
            final(self).osc == old(self).osc,
    {
        self.time = 0;
    }
}

} // verus!
