use lofi_player::envelope::envelope;
use lofi_player::fixed::ONE;
use lofi_player::synth::{KarplusStrong, Oscillator, WaveType, PHASE_HALF, PHASE_ONE};
use rand::rngs::StdRng;
use rand::SeedableRng;

fn rng(seed: u64) -> StdRng {
    StdRng::seed_from_u64(seed)
}

#[test]
fn deterministic_waves_stay_in_range() {
    let mut r = rng(1);
    for wave in [WaveType::Square, WaveType::Sawtooth, WaveType::Triangle, WaveType::Sine] {
        let mut osc = Oscillator::new(1_234_567, 44100, wave);
        for _ in 0..5000 {
            let v = osc.next_sample(&mut r);
            assert!(-ONE <= v && v <= ONE);
        }
    }
}

#[test]
fn wave_formulas_at_chosen_phases() {
    let mut r = rng(2);
    let at = |wave: WaveType, phase: u64, r: &mut StdRng| {
        let mut osc = Oscillator::new(440_000, 44100, wave);
        osc.phase = phase;
        osc.next_sample(r)
    };
    assert_eq!(at(WaveType::Square, 0, &mut r), ONE);
    assert_eq!(at(WaveType::Square, PHASE_HALF, &mut r), -ONE);
    assert_eq!(at(WaveType::Sawtooth, 0, &mut r), -ONE);
    assert_eq!(at(WaveType::Sawtooth, PHASE_HALF, &mut r), 0);
    assert_eq!(at(WaveType::Triangle, 0, &mut r), -ONE);
    assert_eq!(at(WaveType::Triangle, PHASE_ONE / 4, &mut r), 0);
    assert_eq!(at(WaveType::Triangle, PHASE_HALF, &mut r), ONE);
    assert_eq!(at(WaveType::Triangle, 3 * PHASE_ONE / 4, &mut r), 0);
}

#[test]
fn sine_matches_within_tolerance() {
    let mut r = rng(3);
    for k in 0..4096u64 {
        let mut osc = Oscillator::new(440_000, 44100, WaveType::Sine);
        osc.phase = k * (PHASE_ONE / 4096);
        let v = osc.next_sample(&mut r) as f64 / ONE as f64;
        let exact = (2.0 * std::f64::consts::PI * k as f64 / 4096.0).sin();
        assert!((v - exact).abs() < 0.00003, "phase {}: {} vs {}", k, v, exact);
    }
    let mut osc = Oscillator::new(440_000, 44100, WaveType::Sine);
    osc.phase = PHASE_ONE / 4;
    assert_eq!(osc.next_sample(&mut r), ONE);
    osc.phase = PHASE_ONE / 8;
    assert_eq!(osc.next_sample(&mut r), 46341);
}

#[test]
fn phase_after_n_calls() {
    let mut r = rng(4);
    let mut osc = Oscillator::new(440_000, 44100, WaveType::Sine);
    let inc = osc.phase_increment;
    assert_eq!(inc, (440_000u64 << 32) / 44_100_000);
    for _ in 0..10_000 {
        osc.next_sample(&mut r);
    }
    assert_eq!(osc.phase, (10_000 * inc) % PHASE_ONE);
}

#[test]
fn noise_is_drawn_in_range_and_varies() {
    let mut r = rng(5);
    let mut osc = Oscillator::new(440_000, 44100, WaveType::Noise);
    let values: Vec<i64> = (0..1000).map(|_| osc.next_sample(&mut r)).collect();
    assert!(values.iter().all(|v| -ONE <= *v && *v <= ONE));
    assert!(values.iter().any(|v| *v != values[0]));
    assert!(values.iter().any(|v| *v > ONE / 2));
    assert!(values.iter().any(|v| *v < -ONE / 2));
}

#[test]
fn resonator_length_is_period_rounded_up() {
    let mut r = rng(6);
    assert_eq!(KarplusStrong::new(440_000, 44100, &mut r).buffer.len(), 101);
    assert_eq!(KarplusStrong::new(220_000, 44100, &mut r).buffer.len(), 201);
    assert_eq!(KarplusStrong::new(441_000, 44100, &mut r).buffer.len(), 100);
    let ks = KarplusStrong::new(130_810, 44100, &mut r);
    assert_eq!(ks.buffer.len(), 338);
    assert_eq!(ks.position, 0);
    assert!(ks.buffer.iter().all(|v| -ONE <= *v && *v <= ONE));
    assert!(ks.buffer.iter().any(|v| *v != ks.buffer[0]));
}

#[test]
fn resonator_reads_before_writing() {
    let mut r = rng(7);
    let mut ks = KarplusStrong::new(440_000, 44100, &mut r);
    let b0 = ks.buffer[0];
    let b1 = ks.buffer[1];
    assert_eq!(ks.next_sample(0), b0);
    let x = (b0 + b1) * 99_600_000;
    let expected = if x >= 0 { x / 200_000_000 } else { -((-x) / 200_000_000) };
    assert_eq!(ks.buffer[0], expected);
    assert_eq!(ks.position, 1);
    assert_eq!(ks.next_sample(0), b1);
}

fn window_rms(ks: &mut KarplusStrong, detune: i64, frames: usize) -> f64 {
    let mut acc = 0.0f64;
    for _ in 0..frames {
        let v = ks.next_sample(detune) as f64;
        acc += v * v;
    }
    (acc / frames as f64).sqrt()
}

#[test]
fn resonator_decays_and_detune_damps_harder() {
    let mut r = rng(8);
    let mut ks = KarplusStrong::new(220_000, 44100, &mut r);
    let len = ks.buffer.len();
    let mut last = window_rms(&mut ks, 0, len);
    for _ in 0..20 {
        let now = window_rms(&mut ks, 0, len);
        assert!(now <= last);
        last = now;
    }
    let mut plain = KarplusStrong::new(220_000, 44100, &mut rng(9));
    let mut damped = KarplusStrong::new(220_000, 44100, &mut rng(9));
    assert_eq!(plain.buffer, damped.buffer);
    let a = window_rms(&mut plain, 0, 20 * len);
    let b = window_rms(&mut damped, 4000, 20 * len);
    assert!(b < a);
}

#[test]
fn envelope_values() {
    assert_eq!(envelope(0, 15), ONE);
    assert_eq!(envelope(44100, 500), ONE / 2);
    assert_eq!(envelope(2_940_000, 15), 0);
    assert_eq!(envelope(2_939_999, 15), 1);
    assert_eq!(envelope(10_000_000, 15), 0);
    assert_eq!(envelope(-1653, 20), ONE + 50);
}

#[test]
fn envelope_never_rises_and_never_negative() {
    let mut last = envelope(0, 120);
    for e in (0..500_000).step_by(97) {
        let v = envelope(e, 120);
        assert!(v <= last);
        assert!(v >= 0);
        last = v;
    }
    assert_eq!(last, 0);
}

#[test]
fn resonator_stays_bounded_over_full_detune_range() {
    for detune in [-400_000i64, 0, 4000, 99_600_000, 199_600_000] {
        let mut ks = KarplusStrong::new(261_630, 44100, &mut rng(20));
        let first = ks.buffer[0];
        assert_eq!(ks.next_sample(detune), first);
        for _ in 0..5000 {
            let v = ks.next_sample(detune);
            assert!(-ONE <= v && v <= ONE);
        }
        assert!(ks.buffer.iter().all(|v| -ONE <= *v && *v <= ONE));
    }
    let mut zeroed = KarplusStrong::new(261_630, 44100, &mut rng(21));
    let len = zeroed.buffer.len();
    for _ in 0..len {
        zeroed.next_sample(99_600_000);
    }
    assert!(zeroed.buffer[..len - 1].iter().all(|v| *v == 0));
}

#[test]
fn small_negative_plateau_dies_away() {
    let mut ks = KarplusStrong::from_noise(14_700_000, 44100, vec![-100, -100, -100]);
    assert_eq!(ks.buffer.len(), 3);
    assert_eq!(ks.next_sample(0), -100);
    assert_eq!(ks.buffer[0], -99);
    for _ in 0..3 * 200 {
        ks.next_sample(0);
    }
    assert!(ks.buffer.iter().all(|v| *v == 0));
    let mut damped = KarplusStrong::from_noise(14_700_000, 44100, vec![-240, -240, -240]);
    damped.next_sample(1_000_000);
    assert_eq!(damped.buffer[0], -236);
    let mut plain = KarplusStrong::from_noise(14_700_000, 44100, vec![-240, -240, -240]);
    plain.next_sample(0);
    assert_eq!(plain.buffer[0], -239);
}

#[test]
fn envelope_far_before_origin() {
    assert_eq!(envelope(-44_100_000, 15), ONE + 15 * ONE);
    assert_eq!(envelope(i64::MIN / 2, 0), ONE);
}
