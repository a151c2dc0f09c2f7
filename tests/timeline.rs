use lofi_player::composer::{Composer, BAR, BEAT};
use lofi_player::fixed::ONE;
use lofi_player::mixer::{Mixer, LIMIT, MIX_BOUND};
use lofi_player::scheduler::{Scheduler, BUFFER_FRAMES};
use rand::rngs::StdRng;
use rand::SeedableRng;

#[test]
fn chord_index_comes_round_after_progression() {
    let mut rng = StdRng::seed_from_u64(10);
    let mut c = Composer::new(4, 12);
    let mut chord_times = Vec::new();
    let mut melody_steps = 0;
    for t in 0..(9 * BEAT) {
        let cues = c.cue(t, &mut rng);
        if let Some(i) = cues.chord {
            assert_eq!(i, chord_times.len() % 4);
            chord_times.push(t);
        }
        if let Some(i) = cues.melody {
            assert_eq!(i, melody_steps % 12);
            melody_steps += 1;
            if melody_steps == 12 {
                assert_eq!(c.melody_index, 0);
            }
        }
    }
    assert_eq!(chord_times, vec![BEAT, 3 * BEAT, 5 * BEAT, 7 * BEAT]);
    assert_eq!(c.chord_index, 0);
    assert_eq!(melody_steps, 17);
}

#[test]
fn melody_steps_every_half_beat() {
    let mut rng = StdRng::seed_from_u64(11);
    let mut c = Composer::new(4, 12);
    let mut times = Vec::new();
    for t in 0..(2 * BEAT) {
        if c.cue(t, &mut rng).melody.is_some() {
            times.push(t);
        }
    }
    assert_eq!(times, vec![16538, 33076, 49614]);
}

#[test]
fn drum_windows_over_one_bar() {
    let mut rng = StdRng::seed_from_u64(12);
    let mut c = Composer::new(4, 12);
    let mut kicks = 0u64;
    let mut snares = 0u64;
    let mut hihats = 0u64;
    for t in 0..BAR {
        let cues = c.cue(t, &mut rng);
        assert_eq!(cues.kick, t < 9923);
        assert_eq!(cues.snare, (66150..76073).contains(&t));
        assert!(!(cues.kick && cues.snare));
        assert!(-1653 <= c.swing && c.swing <= 1653);
        if cues.kick {
            kicks += 1;
        }
        if cues.snare {
            snares += 1;
        }
        if cues.hihat {
            hihats += 1;
        }
    }
    assert_eq!(kicks, 9923);
    assert_eq!(snares, 9923);
    assert!(hihats > 0 && hihats < BAR / 2);
}

#[test]
fn drums_repeat_every_bar() {
    let mut rng = StdRng::seed_from_u64(13);
    let mut c = Composer::new(4, 12);
    let cues = c.cue(3 * BAR + 5, &mut rng);
    assert!(cues.kick);
    let cues = c.cue(3 * BAR + 2 * BEAT, &mut rng);
    assert!(cues.snare && !cues.kick);
}

#[test]
fn mixer_exact_values() {
    let mut m = Mixer::new();
    assert_eq!(m.mix(ONE, 0), 2463);
    assert_eq!(m.filter, 2621);
    let mut m = Mixer::new();
    assert_eq!(m.mix(25 * ONE, 0), LIMIT);
    assert_eq!(m.filter, ONE);
    let mut m = Mixer::new();
    assert_eq!(m.mix(-25 * ONE, ONE), -LIMIT);
}

#[test]
fn mixer_output_always_limited() {
    let mut m = Mixer::new();
    let mut x: i64 = 12345;
    for i in 0..20_000 {
        x = (x * 1_103_515_245 + 12_345) % 4_194_304;
        let sum = x - MIX_BOUND;
        let wobble = (i % (2 * ONE + 1)) - ONE;
        let v = m.mix(sum, wobble);
        assert!(-LIMIT <= v && v <= LIMIT);
    }
    for _ in 0..2000 {
        assert!(m.mix(MIX_BOUND, ONE) <= LIMIT);
    }
    assert_eq!(m.mix(MIX_BOUND, ONE), LIMIT);
}

#[test]
fn buffers_follow_without_gaps() {
    let mut s = Scheduler::new(100);
    assert_eq!(s.schedule(50), 100);
    assert_eq!(s.next_start, 100 + BUFFER_FRAMES as u64);
    assert_eq!(s.schedule(1000), 1124);
    assert_eq!(s.schedule(2148), 2148);
    assert_eq!(s.next_start, 3172);
}

#[test]
fn late_clock_is_caught_up() {
    let mut s = Scheduler::new(100);
    assert_eq!(s.schedule(100), 100);
    assert_eq!(s.schedule(5000), 5000);
    assert_eq!(s.next_start, 6024);
}

#[test]
fn scheduler_hands_out_full_buffers() {
    let mut s = Scheduler::new(0);
    for i in 0..(BUFFER_FRAMES - 1) {
        assert!(s.push(i as i64).is_none());
    }
    let full = s.push(-1).unwrap();
    assert_eq!(full.len(), BUFFER_FRAMES);
    assert_eq!(full[0], 0);
    assert_eq!(full[BUFFER_FRAMES - 1], -1);
    assert!(s.samples.is_empty());
}
