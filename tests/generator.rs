use lofi_player::engine::{Engine, YIELD_EVERY};
use lofi_player::mixer::LIMIT;
use lofi_player::scheduler::BUFFER_FRAMES;

#[test]
fn one_buffer_end_to_end() {
    let mut e = Engine::new(42);
    assert!(e.start(500));
    let mut submitted = Vec::new();
    for i in 0..BUFFER_FRAMES {
        let frame = e.tick();
        assert!(-LIMIT <= frame.sample && frame.sample <= LIMIT);
        match frame.buffer {
            Some(b) => {
                assert_eq!(i, BUFFER_FRAMES - 1);
                submitted.push(b);
            }
            None => assert!(i < BUFFER_FRAMES - 1),
        }
    }
    assert_eq!(submitted.len(), 1);
    let b = &submitted[0];
    assert_eq!(b.len(), 1024);
    assert!(b.iter().all(|v| -LIMIT <= *v && *v <= LIMIT));
    assert!(b.iter().any(|v| *v != 0));
    assert_eq!(e.schedule(500), 500);
    assert_eq!(e.scheduler.next_start, 1524);
}

#[test]
fn start_twice_launches_once() {
    let mut e = Engine::new(1);
    assert!(e.start(10));
    assert!(!e.start(99));
    assert!(e.is_playing());
    assert_eq!(e.scheduler.next_start, 10);
    e.stop();
    assert!(!e.is_playing());
}

#[test]
fn latest_sample_before_and_after() {
    let mut e = Engine::new(2);
    assert_eq!(e.latest_sample(), None);
    let f = e.tick();
    assert_eq!(e.latest_sample(), Some(f.sample));
    let g = e.tick();
    assert_eq!(e.latest_sample(), Some(g.sample));
}

#[test]
fn same_seed_same_track() {
    let mut a = Engine::new(77);
    let mut b = Engine::new(77);
    let mut c = Engine::new(78);
    let mut differs = false;
    for _ in 0..5000 {
        let x = a.tick().sample;
        assert_eq!(x, b.tick().sample);
        if x != c.tick().sample {
            differs = true;
        }
    }
    assert!(differs);
}

#[test]
fn yields_every_thousand_frames() {
    let mut e = Engine::new(3);
    let mut yields = Vec::new();
    for i in 0..3000u32 {
        if e.tick().yield_now {
            yields.push(i + 1);
        }
    }
    assert_eq!(yields, vec![YIELD_EVERY, 2 * YIELD_EVERY, 3 * YIELD_EVERY]);
}

#[test]
fn chords_change_every_two_beats() {
    let mut e = Engine::new(4);
    assert!(e.voices.is_empty());
    for _ in 0..33075 {
        e.tick();
    }
    assert!(e.voices.is_empty());
    e.tick();
    assert_eq!(e.voices.len(), 5);
    assert_eq!(e.composer.chord_index, 1);
    assert!((e.voices[0].osc.frequency as i64 - 220_000).abs() <= 3000);
    assert_eq!(e.voices[0].sine.frequency, 217_800);
    for _ in 0..66150 {
        e.tick();
    }
    assert_eq!(e.composer.chord_index, 2);
    assert!((e.voices[0].osc.frequency as i64 - 174_610).abs() <= 3000);
}

#[test]
fn new_chord_notes_start_without_drift() {
    let mut e = Engine::new(5);
    for _ in 0..=33075 {
        e.tick();
    }
    assert_eq!(e.voices.len(), 5);
    for v in &e.voices {
        assert!(v.drift.abs() <= 100);
        assert_eq!(v.decay, 15);
    }
}

#[test]
fn second_start_changes_nothing() {
    let mut e = Engine::new(6);
    assert!(e.start(0));
    for _ in 0..10 {
        e.tick();
    }
    let latest = e.latest_sample();
    let time = e.time;
    assert!(!e.start(777));
    assert_eq!(e.latest_sample(), latest);
    assert_eq!(e.time, time);
    assert_eq!(e.scheduler.next_start, 0);
    assert_eq!(e.scheduler.samples.len(), 10);
}
