//! The generative timeline: when chords change, when the melody steps, and
//! which drums sound, all decided from elapsed frames.
use vstd::prelude::*;
use crate::random::draw;

verus! {

/// Frames in one beat at 80 beats per minute.
pub const BEAT: u64 = 33075;

/// Frames in one four-beat bar.
pub const BAR: u64 = 132300;

/// Width of the hihat window, `0.12` beat, in frames.
pub const HIHAT_WIDTH: i64 = 3969;

/// Largest swing, `0.05` beat, in whole frames.
pub const MAX_SWING: i64 = 1653;

/// The next position of a cyclic index.
pub open spec fn next_index(i: int, n: int) -> int {
    (i + 1) % n
}

/// The position of a cyclic index after `k` advances.
pub open spec fn advance(i: int, n: int, k: nat) -> int
    decreases k,
{
    if k == 0 { i } else { next_index(advance(i, n, (k - 1) as nat), n) }
}

/// A chord change is due two beats after the last one.
pub open spec fn chord_due(time: int, last: int) -> bool {
    time - last >= 2 * BEAT as int
}

/// A melody step is due half a beat after the last one.
pub open spec fn melody_due(time: int, last: int) -> bool {
    2 * (time - last) >= BEAT as int
}

/// The kick sounds during the first `0.3` beat of the bar.
pub open spec fn kick_window(meter: int) -> bool {
    10 * meter < 3 * BEAT as int
}

/// The snare sounds from beat 2 to beat 2.3 of the bar.
pub open spec fn snare_window(meter: int) -> bool {
    2 * BEAT as int <= meter && 10 * meter < 23 * BEAT as int
}

/// The hihat sounds during the first `0.12` beat of each half beat, moved by
/// the swing.
pub open spec fn hihat_window(meter: int, swing: int) -> bool {
    (2 * meter) % (BEAT as int) < 2 * HIHAT_WIDTH as int + 2 * swing
}

/// What the timeline asks for on one frame.
pub struct Cues {
    /// The chord to start, by position in the progression.
    pub chord: Option<usize>,
    /// The melody note to start, by position in the sequence.
    pub melody: Option<usize>,
    pub kick: bool,
    pub hihat: bool,
    pub snare: bool,
}

/// The state of the timeline between frames.
pub struct Composer {
    pub chord_index: usize,
    pub chord_count: usize,
    pub melody_index: usize,
    pub melody_count: usize,
    /// Frame of the last chord change.
    pub last_chord: i64,
    /// Frame of the last melody step.
    pub last_melody: i64,
    /// Shift of the hihat window, in frames.
    pub swing: i64,
}

impl Composer {
    /// Indices lie within their sequences; the swing is in range.
    pub open spec fn wf(&self) -> bool {
        &&& self.chord_index < self.chord_count
        &&& self.melody_index < self.melody_count
        &&& -BEAT as int <= self.last_chord < 0x1000_0000_0000_0000
        &&& 0 <= self.last_melody < 0x1000_0000_0000_0000
        &&& -MAX_SWING <= self.swing <= MAX_SWING
    }

    /// A timeline at frame zero: the first chord comes one beat in, the first
    /// melody note half a beat in.
    pub fn new(chord_count: usize, melody_count: usize) -> (r: Self)
        requires
            chord_count > 0,
            melody_count > 0,
        ensures
            r.wf(),
            r.chord_index == 0,
            r.melody_index == 0,
            r.chord_count == chord_count,
            r.melody_count == melody_count,
            r.last_chord == -(BEAT as int),
            r.last_melody == 0,
            r.swing == 0,
    {
        Composer {
            chord_index: 0,
            chord_count,
            melody_index: 0,
            melody_count,
            last_chord: -(BEAT as i64),
            last_melody: 0,
            swing: 0,
        }
    }

    /// Decides the cues of frame `time` and moves the timeline on.
    pub fn cue(&mut self, time: u64, rng: &mut rand::rngs::StdRng) -> (r: Cues)
        requires
            old(self).wf(),
            old(self).last_chord <= time,
            old(self).last_melody <= time,
            time < 0x1000_0000_0000_0000,
        ensures
            final(self).wf(),
            final(self).chord_count == old(self).chord_count,
            final(self).melody_count == old(self).melody_count,
            chord_due(time as int, old(self).last_chord as int) ==> {
                &&& r.chord == Some(old(self).chord_index)
                &&& final(self).chord_index == next_index(old(self).chord_index as int, old(self).chord_count as int)
                &&& final(self).last_chord == time
            },
            !chord_due(time as int, old(self).last_chord as int) ==> {
                &&& r.chord.is_none()
                &&& final(self).chord_index == old(self).chord_index
                &&& final(self).last_chord == old(self).last_chord
            },
            melody_due(time as int, old(self).last_melody as int) ==> {
                &&& r.melody == Some(old(self).melody_index)
                &&& final(self).melody_index == next_index(old(self).melody_index as int, old(self).melody_count as int)
                &&& final(self).last_melody == time
            },
            !melody_due(time as int, old(self).last_melody as int) ==> {
                &&& r.melody.is_none()
                &&& final(self).melody_index == old(self).melody_index
                &&& final(self).last_melody == old(self).last_melody
            },
            r.kick == kick_window(time as int % BAR as int),
            r.snare == snare_window(time as int % BAR as int),
            r.hihat == hihat_window(time as int % BAR as int, old(self).swing as int),
            !r.hihat ==> final(self).swing == old(self).swing,
    {
        let mut chord: Option<usize> = None;
        if time as i64 - self.last_chord >= 2 * BEAT as i64 {
            chord = Some(self.chord_index);
            self.chord_index = (self.chord_index + 1) % self.chord_count;
            self.last_chord = time as i64;
        }
        let mut melody: Option<usize> = None;
        if 2 * (time as i64 - self.last_melody) >= BEAT as i64 {
            melody = Some(self.melody_index);
            self.melody_index = (self.melody_index + 1) % self.melody_count;
            self.last_melody = time as i64;
        }
        let meter: u64 = time % BAR;
        let kick = 10 * meter < 3 * BEAT;
        let snare = 2 * BEAT <= meter && 10 * meter < 23 * BEAT;
        let sub: i64 = ((2 * meter) % BEAT) as i64;
        let hihat = sub < 2 * HIHAT_WIDTH + 2 * self.swing;
        if hihat {
            self.swing = draw(rng, -MAX_SWING, MAX_SWING + 1);
        }
        Cues { chord, melody, kick, hihat, snare }
    }
}

/// After exactly `n` advances a cyclic index over `n` positions is back where
/// it started: the chord progression and the melody both come round.
pub proof fn lemma_cycle_returns(i: int, n: int)
    requires
        0 <= i < n,
    ensures
        advance(i, n, n as nat) == i,
{
    lemma_advance_is_mod(i, n, n as nat);
    vstd::arithmetic::div_mod::lemma_add_mod_noop(i, n, n);
    vstd::arithmetic::div_mod::lemma_mod_self_0(n);
    vstd::arithmetic::div_mod::lemma_small_mod(i as nat, n as nat);
}

/// `k` advances of a cyclic index add `k` modulo the length.
pub proof fn lemma_advance_is_mod(i: int, n: int, k: nat)
    requires
        0 <= i < n,
    ensures
        advance(i, n, k) == (i + k) % n,
    decreases k,
{
    if k == 0 {
        vstd::arithmetic::div_mod::lemma_small_mod(i as nat, n as nat);
    } else {
        lemma_advance_is_mod(i, n, (k - 1) as nat);
        vstd::arithmetic::div_mod::lemma_add_mod_noop(i + k - 1, 1, n);
        if n == 1 {
            assert((i + k) % 1 == 0);
            assert(((i + k - 1) % 1 + 1) % 1 == 0);
        } else {
            vstd::arithmetic::div_mod::lemma_small_mod(1, n as nat);
            vstd::arithmetic::div_mod::lemma_mod_twice(i + k - 1, n);
        }
    }
}

/// Over one bar the kick sounds on frames `[0, 9923)` and the snare on frames
/// `[66150, 76073)`, that is on `[0, 0.3)` and `[2, 2.3)` beats; they never
/// sound together, and neither depends on the hihat's swing.
pub proof fn lemma_drum_windows(meter: int)
    requires
        0 <= meter < BAR as int,
    ensures
        kick_window(meter) <==> meter < 9923,
        snare_window(meter) <==> 66150 <= meter < 76073,
        !(kick_window(meter) && snare_window(meter)),
{
}

} // verus!
