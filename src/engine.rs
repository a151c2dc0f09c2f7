//! The whole generator: one call makes one frame of the track.
use vstd::prelude::*;
use crate::composer::{Composer, Cues, chord_due, melody_due, next_index, kick_window, snare_window, hihat_window, BEAT, BAR};
use crate::fixed::{ONE, SAMPLE_RATE, abs, mul_q, smooth, smooth_step};
use crate::mixer::{Mixer, LIMIT, MIX_BOUND, limited};
use crate::random::{draw, seeded_rng};
use crate::scheduler::{Scheduler, BUFFER_FRAMES, start_for};
use crate::synth::{Oscillator, WaveType, sine_wave};
use crate::voices::{Drum, Melody, Voice, make_voice, VOICE_BOUND, drum_params, drum_output, voice_out, melody_out, scaled};

verus! {

/// Notes in a chord.
pub const CHORD_SIZE: usize = 5;

/// Frames between two yields to the host.
pub const YIELD_EVERY: u32 = 1000;

/// Frequency of the bass drone, in milli-hertz.
pub const BASS_FREQ: u32 = 87310;

/// Frequency of the tremolo, `sin(0.2 t)`: `0.2 / (2 pi)` Hz, to the nearest
/// milli-hertz.
pub const TREMOLO_FREQ: u32 = 32;

/// Lowest note the engine plays, in milli-hertz.
pub const LOWEST_NOTE: u32 = 20_000;

/// Highest note the engine plays, in milli-hertz.
pub const HIGHEST_NOTE: u32 = 100_000_000;

/// Entry stagger of successive chord notes, `0.12` beat, in frames.
pub const STAGGER: i64 = 3969;

/// Bound on the frame counter.
pub const TIME_LIMIT: u64 = 0x0800_0000_0000_0000;

/// A note the engine can play.
pub open spec fn playable(f: u32) -> bool {
    LOWEST_NOTE <= f <= HIGHEST_NOTE
}

/// Whether starting an engine that is `playing` launches a generation loop.
pub open spec fn launches(playing: bool) -> bool {
    !playing
}

/// What one frame hands to the host.
pub struct Frame {
    /// The frame's value, in `[-LIMIT, LIMIT]`.
    pub sample: i64,
    /// A full buffer, when this frame completed one.
    pub buffer: Option<Vec<i64>>,
    /// Whether the host should get control back now.
    pub yield_now: bool,
}

/// All state of the generator.
pub struct Engine {
    pub rng: rand::rngs::StdRng,
    /// The chord progression, each chord a list of milli-hertz.
    pub chords: Vec<Vec<u32>>,
    /// The melody, in milli-hertz.
    pub melody_notes: Vec<u32>,
    pub voices: Vec<Voice>,
    pub melody: Melody,
    /// A constant-amplitude sine drone.
    pub bass: Oscillator,
    pub tremolo: Oscillator,
    pub kick: Drum,
    pub hihat: Drum,
    pub snare: Drum,
    pub composer: Composer,
    pub mixer: Mixer,
    pub scheduler: Scheduler,
    /// Frames made so far.
    pub time: u64,
    /// Frames since the last yield.
    pub iteration: u32,
    /// The last frame made, for display.
    pub latest: Option<i64>,
    pub playing: bool,
}

impl Engine {
    pub open spec fn voices_wf(&self, now: int) -> bool {
        &&& self.voices@.len() <= CHORD_SIZE
        &&& forall|i: int| 0 <= i < self.voices@.len() ==> {
            &&& #[trigger] self.voices@[i].wf()
            &&& self.voices@[i].time <= self.voices@[i].offset + now
        }
    }

    pub open spec fn score_wf(&self) -> bool {
        &&& self.chords@.len() == self.composer.chord_count
        &&& self.melody_notes@.len() == self.composer.melody_count
        &&& forall|i: int| 0 <= i < self.chords@.len() ==> (#[trigger] self.chords@[i])@.len() <= CHORD_SIZE
        &&& forall|i: int, j: int| 0 <= i < self.chords@.len() && 0 <= j < self.chords@[i]@.len()
            ==> playable(#[trigger] self.chords@[i]@[j])
        &&& forall|i: int| 0 <= i < self.melody_notes@.len() ==> playable(#[trigger] self.melody_notes@[i])
    }

    /// The sound-making parts are sound at frame `now`.
    pub open spec fn parts_wf(&self, now: int) -> bool {
        &&& self.voices_wf(now)
        &&& self.score_wf()
        &&& self.composer.wf()
        &&& self.composer.last_chord <= now
        &&& self.composer.last_melody <= now
        &&& self.melody.wf()
        &&& self.melody.time <= 1653 + now
        &&& self.bass.wf() && self.bass.wave_type == WaveType::Sine
        &&& self.tremolo.wf() && self.tremolo.wave_type == WaveType::Sine
        &&& self.kick.wf() && self.kick.time <= now
        &&& self.hihat.wf() && self.hihat.time <= now
        &&& self.snare.wf() && self.snare.time <= now
        &&& self.mixer.wf()
    }

    pub open spec fn wf(&self) -> bool {
        &&& self.time < TIME_LIMIT
        &&& self.parts_wf(self.time as int)
        &&& self.scheduler.wf()
        &&& self.scheduler.samples@.len() == (self.time as int) % (BUFFER_FRAMES as int)
        &&& forall|i: int| 0 <= i < self.scheduler.samples@.len() ==>
            -LIMIT <= #[trigger] self.scheduler.samples@[i] <= LIMIT
        &&& self.iteration < YIELD_EVERY
        &&& (self.latest.is_none() <==> self.time == 0)
        &&& (self.latest matches Some(x) ==> -LIMIT <= x <= LIMIT)
    }
}

/// The chord progression, in milli-hertz.
pub open spec fn progression_spec() -> Seq<Seq<u32>> {
    seq![
        seq![220_000u32, 261_630, 329_630, 392_000, 523_250],
        seq![174_610u32, 261_630, 349_230, 440_000, 587_330],
        seq![130_810u32, 261_630, 329_630, 392_000, 659_250],
        seq![196_000u32, 246_940, 329_630, 392_000, 587_330],
    ]
}

/// The melody, in milli-hertz.
pub open spec fn melody_spec() -> Seq<u32> {
    seq![
        440_000u32, 523_250, 587_330, 659_250, 783_990, 880_000,
        987_770, 783_990, 659_250, 587_330, 523_250, 392_000,
    ]
}

/// The chord progression, in milli-hertz.
fn progression() -> (r: Vec<Vec<u32>>)
    ensures
        r@.len() == 4,
        forall|i: int| 0 <= i < 4 ==> (#[trigger] r@[i])@ == progression_spec()[i],
        forall|i: int| 0 <= i < r@.len() ==> (#[trigger] r@[i])@.len() == CHORD_SIZE,
        forall|i: int, j: int| 0 <= i < r@.len() && 0 <= j < r@[i]@.len() ==> playable(#[trigger] r@[i]@[j]),
{
    let r = vec![
        vec![220_000u32, 261_630, 329_630, 392_000, 523_250],
        vec![174_610u32, 261_630, 349_230, 440_000, 587_330],
        vec![130_810u32, 261_630, 329_630, 392_000, 659_250],
        vec![196_000u32, 246_940, 329_630, 392_000, 587_330],
    ];
    assert(forall|j: int| 0 <= j < 5 ==> playable(#[trigger] r@[0]@[j]));
    assert(forall|j: int| 0 <= j < 5 ==> playable(#[trigger] r@[1]@[j]));
    assert(forall|j: int| 0 <= j < 5 ==> playable(#[trigger] r@[2]@[j]));
    assert(forall|j: int| 0 <= j < 5 ==> playable(#[trigger] r@[3]@[j]));
    assert(r@[0]@ =~= progression_spec()[0]);
    assert(r@[1]@ =~= progression_spec()[1]);
    assert(r@[2]@ =~= progression_spec()[2]);
    assert(r@[3]@ =~= progression_spec()[3]);
    r
}

/// The melody, in milli-hertz.
fn melody_line() -> (r: Vec<u32>)
    ensures
        r@.len() == 12,
        r@ == melody_spec(),
        forall|i: int| 0 <= i < r@.len() ==> playable(#[trigger] r@[i]),
{
    let r = vec![
        440_000u32, 523_250, 587_330, 659_250, 783_990, 880_000,
        987_770, 783_990, 659_250, 587_330, 523_250, 392_000,
    ];
    assert(r@ =~= melody_spec());
    r
}

impl Engine {
    /// A stopped engine at frame zero whose randomness is fixed by `seed`.
    pub fn new(seed: u64) -> (r: Self)
        ensures
            r.wf(),
            r.time == 0,
            r.iteration == 0,
            r.latest.is_none(),
            !r.playing,
            r.voices@.len() == 0,
            r.scheduler.samples@.len() == 0,
            r.composer.chord_index == 0,
            r.composer.melody_index == 0,
            r.composer.last_chord == -(BEAT as int),
            r.composer.last_melody == 0,
            r.scheduler.next_start == 0,
            r.chords@.len() == 4,
            forall|i: int| 0 <= i < 4 ==> (#[trigger] r.chords@[i])@ == progression_spec()[i],
            r.melody_notes@ == melody_spec(),
            r.melody.osc.frequency == 440_000,
            r.melody.time == 0,
            r.bass.frequency == BASS_FREQ && r.bass.phase == 0 && r.bass.wave_type == WaveType::Sine,
            r.tremolo.frequency == TREMOLO_FREQ && r.tremolo.phase == 0 && r.tremolo.wave_type == WaveType::Sine,
            drum_params(r.kick, 50_000, 52429, 30, 58982, 72090, 4),
            drum_params(r.hihat, 300_000, 5243, 120, 45875, 85197, 6),
            drum_params(r.snare, 120_000, 16384, 60, 52428, 78643, 5),
            r.mixer.filter == 0,
    {
        let mut rng = seeded_rng(seed);
        let chords = progression();
        let melody_notes = melody_line();
        let melody = Melody::new(&mut rng);
        let composer = Composer::new(chords.len(), melody_notes.len());
        let e = Engine {
            rng,
            chords,
            melody_notes,
            voices: Vec::new(),
            melody,
            bass: Oscillator::new(BASS_FREQ, SAMPLE_RATE, WaveType::Sine),
            tremolo: Oscillator::new(TREMOLO_FREQ, SAMPLE_RATE, WaveType::Sine),
            kick: Drum::kick(),
            hihat: Drum::hihat(),
            snare: Drum::snare(),
            composer,
            mixer: Mixer::new(),
            scheduler: Scheduler::new(0),
            time: 0,
            iteration: 0,
            latest: None,
            playing: false,
        };
        e
    }

    /// Starts playback with the first buffer due at `now` on the sink's
    /// clock. Does nothing when already playing. Returns whether a generation
    /// loop is to be launched.
    pub fn start(&mut self, now: u64) -> (r: bool)
        requires
            old(self).wf(),
        ensures
            final(self).wf(),
            r == launches(old(self).playing),
            final(self).playing,
            r ==> final(self).scheduler.next_start == now,
            !r ==> *final(self) == *old(self),
            r ==> *final(self) == (Engine {
                playing: true,
                scheduler: Scheduler { next_start: now, ..old(self).scheduler },
                ..*old(self)
            }),
    {
        if self.playing {
            return false;
        }
        self.playing = true;
        self.scheduler.next_start = now;
        true
    }

    /// Asks the generation loop to stop before its next frame.
    pub fn stop(&mut self)
        requires
            old(self).wf(),
        ensures
            final(self).wf(),
            *final(self) == (Engine { playing: false, ..*old(self) }),
    {
        self.playing = false;
    }

    /// Whether the generation loop should go on.
    pub fn is_playing(&self) -> (r: bool)
        ensures
            r == self.playing,
    {
        self.playing
    }

    /// The last frame made, or `None` before the first.
    pub fn latest_sample(&self) -> (r: Option<i64>)
        requires
            self.wf(),
        ensures
            r == self.latest,
            r.is_none() <==> self.time == 0,
            r matches Some(x) ==> -LIMIT <= x <= LIMIT,
    {
        self.latest
    }

    /// Start of the buffer just completed, given the sink's clock `now`.
    pub fn schedule(&mut self, now: u64) -> (r: u64)
        requires
            old(self).wf(),
            old(self).scheduler.next_start <= u64::MAX - BUFFER_FRAMES,
            now <= u64::MAX - BUFFER_FRAMES,
        ensures
            final(self).wf(),
            r as int == start_for(old(self).scheduler.next_start as int, now as int),
            final(self).scheduler.next_start == r + BUFFER_FRAMES,
            final(self).time == old(self).time,
            final(self).playing == old(self).playing,
    {
        self.scheduler.schedule(now)
    }

    /// Replaces the chord voices with the notes of chord `index`, each with
    /// its own detune, staggered entry, gain and drift.
    fn spawn_chord(&mut self, index: usize)
        requires
            old(self).wf(),
            index < old(self).chords@.len(),
        ensures
            final(self).wf(),
            final(self).voices@.len() == old(self).chords@[index as int]@.len(),
            fresh_chord(final(self).voices@, old(self).chords@[index as int]@),
            final(self).time == old(self).time,
            final(self).composer == old(self).composer,
            final(self).playing == old(self).playing,
            final(self).scheduler == old(self).scheduler,
            final(self).latest == old(self).latest,
            final(self).iteration == old(self).iteration,
            final(self).melody == old(self).melody,
            final(self).kick == old(self).kick,
            final(self).hihat == old(self).hihat,
            final(self).snare == old(self).snare,
            final(self).mixer == old(self).mixer,
            final(self).bass == old(self).bass,
            final(self).tremolo == old(self).tremolo,
            final(self).chords == old(self).chords,
            final(self).melody_notes == old(self).melody_notes,
    {
        let n = self.chords[index].len();
        let mut fresh: Vec<Voice> = Vec::new();
        let mut i: usize = 0;
        while i < n
            invariant
                self.wf(),
                n == self.chords@[index as int]@.len(),
                index < self.chords@.len(),
                n <= CHORD_SIZE,
                i <= n,
                fresh@.len() == i,
                forall|k: int| 0 <= k < fresh@.len() ==> {
                    &&& #[trigger] fresh@[k].wf()
                    &&& fresh@[k].time == fresh@[k].offset
                },
                fresh_chord(fresh@, self.chords@[index as int]@.take(i as int)),
                self.time == old(self).time,
                self.composer == old(self).composer,
                self.playing == old(self).playing,
                self.scheduler == old(self).scheduler,
                self.latest == old(self).latest,
                self.iteration == old(self).iteration,
                self.melody == old(self).melody,
                self.kick == old(self).kick,
                self.hihat == old(self).hihat,
                self.snare == old(self).snare,
                self.mixer == old(self).mixer,
                self.bass == old(self).bass,
                self.tremolo == old(self).tremolo,
                self.chords == old(self).chords,
                self.melody_notes == old(self).melody_notes,
                self.voices == old(self).voices,
            decreases n - i,
        {
            let freq = self.chords[index][i];
            assert(playable(self.chords@[index as int]@[i as int]));
            let detune = draw(&mut self.rng, -3000, 3000);
            let jitter = draw(&mut self.rng, -1984, 1985);
            let offset = i as i64 * STAGGER + jitter;
            let spread = draw(&mut self.rng, 52428, 78643);
            let g = mul_q(29491, spread);
            proof {
                let p = 29491 * spread as int;
                assert(0 <= p <= 29491 * 78643int) by (nonlinear_arith) requires p == 29491 * spread as int, 0 <= spread < 78643;
                vstd::arithmetic::div_mod::lemma_div_is_ordered(p, 29491 * 78643int, ONE as int);
                vstd::arithmetic::div_mod::lemma_div_pos_is_pos(p, ONE as int);
            }
            let v = make_voice(freq, detune, g, offset, 0, &mut self.rng);
            let ghost done = fresh@;
            fresh.push(v);
            proof {
                let c = self.chords@[index as int]@;
                assert forall|k: int| 0 <= k < fresh@.len() implies {
                    &&& -3000 <= (#[trigger] fresh@[k]).osc.frequency - c.take(i + 1)[k] < 3000
                    &&& fresh@[k].sine.frequency == c.take(i + 1)[k] * 99 / 100
                    &&& fresh@[k].sine.phase == 0
                    &&& fresh@[k].drift == 0
                    &&& fresh@[k].time == fresh@[k].offset
                    &&& fresh@[k].decay == 15
                    &&& fresh@[k].delay_pos == 0
                } by {
                    if k < done.len() {
                        assert(fresh@[k] == done[k]);
                        assert(c.take(i + 1)[k] == c.take(i as int)[k]);
                    }
                }
            }
            i += 1;
        }
        assert(self.chords@[index as int]@.take(n as int) =~= self.chords@[index as int]@);
        self.voices = fresh;
        assert(self.voices_wf(self.time as int));
        assert(self.score_wf());
    }
}

/// The chord notes just started for `chord`: one per note, each on its
/// note moved by at most 3 Hz, with a partial at `0.99` of the note, no drift
/// and a silent echo line.
pub open spec fn fresh_chord(vs: Seq<Voice>, chord: Seq<u32>) -> bool {
    &&& vs.len() == chord.len()
    &&& forall|i: int| 0 <= i < vs.len() ==> {
        &&& -3000 <= (#[trigger] vs[i]).osc.frequency - chord[i] < 3000
        &&& vs[i].sine.frequency == chord[i] * 99 / 100
        &&& vs[i].sine.phase == 0
        &&& vs[i].drift == 0
        &&& vs[i].time == vs[i].offset
        &&& vs[i].decay == 15
        &&& vs[i].delay_pos == 0
    }
}

/// `mid` is `before` after following the timeline's `cues` for its frame:
/// drums, drone, tremolo and mixer untouched; the chord notes replaced when a
/// chord is due; the melody retuned when a step is due.
pub open spec fn composed(before: Engine, mid: Engine, cues: Cues) -> bool {
    let meter = before.time as int % BAR as int;
    let chord = before.composer.chord_index as int;
    let note = before.composer.melody_index as int;
    &&& mid.mixer == before.mixer
    &&& mid.bass == before.bass
    &&& mid.tremolo == before.tremolo
    &&& mid.kick == before.kick
    &&& mid.hihat == before.hihat
    &&& mid.snare == before.snare
    &&& cues.kick == kick_window(meter)
    &&& cues.snare == snare_window(meter)
    &&& cues.hihat == hihat_window(meter, before.composer.swing as int)
    &&& chord_due(before.time as int, before.composer.last_chord as int) ==> fresh_chord(mid.voices@, before.chords@[chord]@)
    &&& !chord_due(before.time as int, before.composer.last_chord as int) ==> mid.voices == before.voices
    &&& melody_due(before.time as int, before.composer.last_melody as int) ==> {
        &&& mid.melody.osc.frequency == before.melody_notes@[note]
        &&& mid.melody.vibrato.phase == 0
        &&& mid.melody.gain == before.melody.gain
        &&& mid.melody.delay_buffer == before.melody.delay_buffer
        &&& mid.melody.delay_pos == before.melody.delay_pos
    }
    &&& !melody_due(before.time as int, before.composer.last_melody as int) ==> mid.melody == before.melody
}

/// `after`'s mixer, drone, tremolo and drums, and the value `out`, are one
/// rendered frame of `before` under `cues`: the sum of every chord note, the
/// melody, `0.7` of the drone and the sounding drums, smoothed by `0.04`,
/// under the tremolo and limited; a drum outside its window restarts.
pub open spec fn renders(before: Engine, after: Engine, cues: Cues, out: int) -> bool {
    let base = voices_total(before.voices@) + melody_out(before.melody)
        + scaled(sine_wave(before.bass.phase as int), 7, 10);
    &&& exists|d: int| #[trigger] drums_part(before.kick, before.hihat, before.snare, cues, d)
        && after.mixer.filter as int == smooth(before.mixer.filter as int, base + d, 1, 25)
    &&& out == limited(after.mixer.filter as int, sine_wave(before.tremolo.phase as int))
    &&& after.bass.phase as int == crate::synth::phase_after(before.bass.phase as int, before.bass.phase_increment as int, 1)
    &&& after.tremolo.phase as int == crate::synth::phase_after(before.tremolo.phase as int, before.tremolo.phase_increment as int, 1)
    &&& !cues.kick ==> after.kick.time == 0
    &&& !cues.hihat ==> after.hihat.time == 0
    &&& !cues.snare ==> after.snare.time == 0
}

/// The summed output of chord notes in their present states.
pub open spec fn voices_total(vs: Seq<Voice>) -> int
    decreases vs.len(),
{
    if vs.len() == 0 { 0 } else { voices_total(vs.drop_last()) + voice_out(vs.last()) }
}

/// `v` is what drum `d` adds to a frame: its next smoother state for some
/// gain factor in its jitter range when `on`, nothing otherwise.
pub open spec fn drum_part(d: Drum, on: bool, v: int) -> bool {
    if on {
        exists|j: int| d.jitter_lo <= j < d.jitter_hi && #[trigger] drum_output(d, j) == v
    } else {
        v == 0
    }
}

/// `total` is what the three drums add to a frame under `cues`.
pub open spec fn drums_part(kick: Drum, hihat: Drum, snare: Drum, cues: Cues, total: int) -> bool {
    exists|k: int, h: int, s: int|
        #![trigger drum_part(kick, cues.kick, k), drum_part(hihat, cues.hihat, h), drum_part(snare, cues.snare, s)]
        k + h + s == total && drum_part(kick, cues.kick, k) && drum_part(hihat, cues.hihat, h)
            && drum_part(snare, cues.snare, s)
}

/// The chord voices' part of a frame, voice by voice in order.
fn voices_frame(voices: &mut Vec<Voice>, rng: &mut rand::rngs::StdRng, now: u64) -> (r: i64)
    requires
        old(voices)@.len() <= CHORD_SIZE,
        now + 1 < TIME_LIMIT,
        forall|i: int| 0 <= i < old(voices)@.len() ==> {
            &&& #[trigger] old(voices)@[i].wf()
            &&& old(voices)@[i].time <= old(voices)@[i].offset + now
        },
    ensures
        final(voices)@.len() == old(voices)@.len(),
        forall|i: int| 0 <= i < final(voices)@.len() ==> {
            &&& #[trigger] final(voices)@[i].wf()
            &&& final(voices)@[i].time <= final(voices)@[i].offset + now + 1
        },
        abs(r as int) <= old(voices)@.len() * VOICE_BOUND,
        r == voices_total(old(voices)@),
{
    let ghost orig = old(voices)@;
    let mut pending: Vec<Voice> = Vec::new();
    std::mem::swap(&mut pending, voices);
    assert(pending@ == old(voices)@);
    assert(voices@.len() == 0);
    let n = pending.len();
    let mut sum: i64 = 0;
    while pending.len() > 0
        invariant
            n == old(voices)@.len(),
            n <= CHORD_SIZE,
            voices@.len() + pending@.len() == n,
            now + 1 < TIME_LIMIT,
            abs(sum as int) <= voices@.len() * VOICE_BOUND,
            orig == old(voices)@,
            pending@ == orig.skip(voices@.len() as int),
            sum == voices_total(orig.take(voices@.len() as int)),
            forall|i: int| 0 <= i < pending@.len() ==> {
                &&& #[trigger] pending@[i].wf()
                &&& pending@[i].time <= pending@[i].offset + now
            },
            forall|i: int| 0 <= i < voices@.len() ==> {
                &&& #[trigger] voices@[i].wf()
                &&& voices@[i].time <= voices@[i].offset + now + 1
            },
        decreases pending@.len(),
    {
        let ghost before = pending@;
        let mut v = pending.remove(0);
        assert(before[0].wf());
        assert forall|i: int| 0 <= i < pending@.len() implies {
            &&& #[trigger] pending@[i].wf()
            &&& pending@[i].time <= pending@[i].offset + now
        } by {
            assert(pending@[i] == before[i + 1]);
        }
        let ghost k = voices@.len() as int;
        assert(before[0] == orig[k]);
        assert(orig.take(k + 1).drop_last() =~= orig.take(k));
        assert(pending@ =~= orig.skip(k + 1));
        let out = v.next(rng);
        sum = sum + out;
        let ghost done = voices@;
        voices.push(v);
        assert forall|i: int| 0 <= i < voices@.len() implies {
            &&& #[trigger] voices@[i].wf()
            &&& voices@[i].time <= voices@[i].offset + now + 1
        } by {
            if i < done.len() {
                assert(voices@[i] == done[i]);
            }
        }
    }
    assert(orig.take(n as int) =~= orig);
    sum
}

/// The melody and the bass drone's part of a frame. The drone keeps a
/// constant amplitude.
fn tune_frame(melody: &mut Melody, bass: &mut Oscillator, rng: &mut rand::rngs::StdRng, now: u64) -> (r: i64)
    requires
        old(melody).wf(),
        old(melody).time <= 1653 + now,
        old(bass).wf(),
        old(bass).wave_type == WaveType::Sine,
        now + 1 < TIME_LIMIT,
    ensures
        final(melody).wf(),
        final(melody).time <= 1653 + now + 1,
        final(melody).osc.frequency == old(melody).osc.frequency,
        final(bass).wf(),
        final(bass).frequency == old(bass).frequency,
        final(bass).wave_type == WaveType::Sine,
        final(bass).phase as int == crate::synth::phase_after(old(bass).phase as int, old(bass).phase_increment as int, 1),
        abs(r as int) <= VOICE_BOUND + ONE,
        r == melody_out(*old(melody)) + scaled(sine_wave(old(bass).phase as int), 7, 10),
{
    let m = melody.next(rng);
    let b = bass.next_sample(rng);
    m + smooth_step(0, b, 7, 10)
}

/// One drum's part of a frame: sounding inside its window, reset outside it.
fn drum_frame(drum: &mut Drum, on: bool, rng: &mut rand::rngs::StdRng, now: u64) -> (r: i64)
    requires
        old(drum).wf(),
        old(drum).time <= now,
        now + 1 < TIME_LIMIT,
    ensures
        final(drum).wf(),
        final(drum).time <= now + 1,
        abs(r as int) <= ONE,
        !on ==> final(drum).time == 0,
        drum_part(*old(drum), on, r as int),
{
    if on {
        drum.hit(rng)
    } else {
        drum.rest();
        0
    }
}

/// The drums' part of a frame.
fn drums_frame(kick: &mut Drum, hihat: &mut Drum, snare: &mut Drum, cues: &Cues, rng: &mut rand::rngs::StdRng, now: u64) -> (r: i64)
    requires
        old(kick).wf() && old(kick).time <= now,
        old(hihat).wf() && old(hihat).time <= now,
        old(snare).wf() && old(snare).time <= now,
        now + 1 < TIME_LIMIT,
    ensures
        final(kick).wf() && final(kick).time <= now + 1,
        final(hihat).wf() && final(hihat).time <= now + 1,
        final(snare).wf() && final(snare).time <= now + 1,
        !cues.kick ==> final(kick).time == 0,
        !cues.hihat ==> final(hihat).time == 0,
        !cues.snare ==> final(snare).time == 0,
        abs(r as int) <= 3 * ONE,
        drums_part(*old(kick), *old(hihat), *old(snare), *cues, r as int),
{
    let k = drum_frame(kick, cues.kick, rng, now);
    let h = drum_frame(hihat, cues.hihat, rng, now);
    let s = drum_frame(snare, cues.snare, rng, now);
    assert(drum_part(*old(kick), cues.kick, k as int) && drum_part(*old(hihat), cues.hihat, h as int)
        && drum_part(*old(snare), cues.snare, s as int));
    k + h + s
}

/// `(t + 1) mod m` from `t mod m`.
proof fn lemma_mod_succ(t: int, m: int)
    requires
        t >= 0,
        m > 0,
    ensures
        t % m + 1 == m ==> (t + 1) % m == 0,
        t % m + 1 < m ==> (t + 1) % m == t % m + 1,
{
    vstd::arithmetic::div_mod::lemma_fundamental_div_mod(t, m);
    vstd::arithmetic::div_mod::lemma_mod_bound(t, m);
    let q = t / m;
    let r = t % m;
    assert(t == q * m + r) by (nonlinear_arith) requires t == m * (t / m) + t % m, q == t / m, r == t % m;
    if r + 1 == m {
        assert(t + 1 == (q + 1) * m) by (nonlinear_arith) requires t == q * m + r, r + 1 == m;
        vstd::arithmetic::div_mod::lemma_fundamental_div_mod_converse(t + 1, m, q + 1, 0);
    } else {
        vstd::arithmetic::div_mod::lemma_fundamental_div_mod_converse(t + 1, m, q, r + 1);
    }
}

impl Engine {
    /// Follows the timeline's cues for this frame: a new chord, a new melody
    /// note. Returns the cues for the drums.
    pub fn compose(&mut self) -> (r: Cues)
        requires
            old(self).wf(),
            old(self).time + 1 < TIME_LIMIT,
        ensures
            final(self).wf(),
            final(self).time == old(self).time,
            final(self).scheduler == old(self).scheduler,
            final(self).latest == old(self).latest,
            final(self).iteration == old(self).iteration,
            final(self).playing == old(self).playing,
            final(self).chords == old(self).chords,
            final(self).melody_notes == old(self).melody_notes,
            composed(*old(self), *final(self), r),
            chord_due(old(self).time as int, old(self).composer.last_chord as int) ==>
                final(self).composer.chord_index == next_index(old(self).composer.chord_index as int, old(self).composer.chord_count as int),
            !chord_due(old(self).time as int, old(self).composer.last_chord as int) ==>
                final(self).composer.chord_index == old(self).composer.chord_index,
            melody_due(old(self).time as int, old(self).composer.last_melody as int) ==>
                final(self).composer.melody_index == next_index(old(self).composer.melody_index as int, old(self).composer.melody_count as int),
            !melody_due(old(self).time as int, old(self).composer.last_melody as int) ==>
                final(self).composer.melody_index == old(self).composer.melody_index,
    {
        let now = self.time;
        let cues = self.composer.cue(now, &mut self.rng);
        assert(self.voices_wf(now as int));
        assert(self.score_wf());
        assert(self.composer.wf());
        assert(self.composer.last_chord <= now);
        assert(self.composer.last_melody <= now);
        assert(self.parts_wf(now as int));
        if let Some(ci) = cues.chord {
            self.spawn_chord(ci);
        }
        if let Some(mi) = cues.melody {
            let f = self.melody_notes[mi];
            self.melody.retune(f, &mut self.rng);
        }
        cues
    }

    /// Makes the frame's value from every voice and drum and the mixer, and
    /// moves every part on by one frame.
    pub fn render(&mut self, cues: &Cues) -> (r: i64)
        requires
            old(self).time + 1 < TIME_LIMIT,
            old(self).parts_wf(old(self).time as int),
        ensures
            final(self).parts_wf(old(self).time as int + 1),
            -LIMIT <= r <= LIMIT,
            final(self).time == old(self).time,
            final(self).scheduler == old(self).scheduler,
            final(self).latest == old(self).latest,
            final(self).iteration == old(self).iteration,
            final(self).playing == old(self).playing,
            final(self).chords == old(self).chords,
            final(self).melody_notes == old(self).melody_notes,
            final(self).composer == old(self).composer,
            final(self).voices@.len() == old(self).voices@.len(),
            final(self).melody.osc.frequency == old(self).melody.osc.frequency,
            renders(*old(self), *final(self), *cues, r as int),
    {
        let now = self.time;
        let voices_sum = voices_frame(&mut self.voices, &mut self.rng, now);
        let tune_sum = tune_frame(&mut self.melody, &mut self.bass, &mut self.rng, now);
        let beat_sum = drums_frame(&mut self.kick, &mut self.hihat, &mut self.snare, cues, &mut self.rng, now);
        let sum: i64 = voices_sum + tune_sum + beat_sum;
        let wobble = self.tremolo.next_sample(&mut self.rng);
        let out = self.mixer.mix(sum, wobble);
        assert(drums_part(old(self).kick, old(self).hihat, old(self).snare, *cues, beat_sum as int));
        out
    }

    /// Makes one frame: the timeline's cues, every voice, the mix; records
    /// it for display and adds it to the current buffer.
    pub fn tick(&mut self) -> (r: Frame)
        requires
            old(self).wf(),
            old(self).time + 1 < TIME_LIMIT,
        ensures
            final(self).wf(),
            final(self).time == old(self).time + 1,
            final(self).latest == Some(r.sample),
            -LIMIT <= r.sample <= LIMIT,
            final(self).playing == old(self).playing,
            final(self).scheduler.next_start == old(self).scheduler.next_start,
            r.buffer.is_some() <==> (old(self).time as int + 1) % (BUFFER_FRAMES as int) == 0,
            r.buffer matches Some(b) ==> {
                &&& b@ == old(self).scheduler.samples@.push(r.sample)
                &&& b@.len() == BUFFER_FRAMES
                &&& forall|i: int| 0 <= i < b@.len() ==> -LIMIT <= #[trigger] b@[i] <= LIMIT
            },
            r.buffer.is_none() ==> final(self).scheduler.samples@ == old(self).scheduler.samples@.push(r.sample),
            r.yield_now == (old(self).iteration + 1 == YIELD_EVERY),
            exists|mid: Engine, c: Cues| #[trigger] composed(*old(self), mid, c) && renders(mid, *final(self), c, r.sample as int),
            chord_due(old(self).time as int, old(self).composer.last_chord as int) ==> {
                &&& final(self).composer.chord_index == next_index(old(self).composer.chord_index as int, old(self).composer.chord_count as int)
                &&& final(self).voices@.len() == old(self).chords@[old(self).composer.chord_index as int]@.len()
            },
            !chord_due(old(self).time as int, old(self).composer.last_chord as int) ==> {
                &&& final(self).composer.chord_index == old(self).composer.chord_index
                &&& final(self).voices@.len() == old(self).voices@.len()
            },
            melody_due(old(self).time as int, old(self).composer.last_melody as int) ==> {
                &&& final(self).composer.melody_index == next_index(old(self).composer.melody_index as int, old(self).composer.melody_count as int)
                &&& final(self).melody.osc.frequency == old(self).melody_notes@[old(self).composer.melody_index as int]
            },
            !melody_due(old(self).time as int, old(self).composer.last_melody as int) ==>
                final(self).composer.melody_index == old(self).composer.melody_index,
    {
        let now = self.time;
        let cues = self.compose();
        let ghost mid = *self;
        let out = self.render(&cues);
        let ghost rendered = *self;
        self.latest = Some(out);
        self.time = now + 1;
        proof { lemma_mod_succ(now as int, BUFFER_FRAMES as int); }
        let ghost pending = self.scheduler.samples@;
        let buffer = self.scheduler.push(out);
        proof {
            assert forall|i: int| 0 <= i < pending.push(out).len() implies -LIMIT <= #[trigger] pending.push(out)[i] <= LIMIT by {
                if i < pending.len() {
                    assert(pending.push(out)[i] == pending[i]);
                }
            }
        }
        self.iteration = self.iteration + 1;
        let yield_now = if self.iteration >= YIELD_EVERY {
            self.iteration = 0;
            true
        } else {
            false
        };
        assert(renders(mid, *self, cues, out as int)) by {
            assert(renders(mid, rendered, cues, out as int));
            assert(self.mixer == rendered.mixer && self.bass == rendered.bass && self.tremolo == rendered.tremolo);
            assert(self.kick == rendered.kick && self.hihat == rendered.hihat && self.snare == rendered.snare);
        }
        Frame { sample: out, buffer, yield_now }
    }
}

/// Starting twice in a row launches exactly one generation loop when the
/// engine was stopped, and none when it was already playing: the second
/// start always finds it playing.
pub proof fn lemma_start_idempotent(playing: bool)
    ensures
        !launches(true),
        (launches(playing) as int) + (launches(true) as int) == (if playing { 0int } else { 1int }),
{
}

} // verus!
