use synth::duration::Duration;
use synth::envelope::{Envelope, EnvelopeBuilder, EnvelopePhase};
use synth::FULL_SCALE;

#[test]
fn attack_decay_sustain_amplitudes() {
    let mut env = Envelope::new(10, 5, 500_000, 20);
    let mut attack = Vec::new();
    for _ in 0..10 {
        assert_eq!(env.phase(), EnvelopePhase::Attack);
        attack.push(env.next_amplitude());
    }
    assert_eq!(attack[1], 100_000);
    assert_eq!(
        attack,
        vec![0, 100_000, 200_000, 300_000, 400_000, 500_000, 600_000, 700_000, 800_000, 900_000]
    );
    assert_eq!(env.phase(), EnvelopePhase::Decay);
    assert_eq!(env.samples_in_phase(), 0);
    let decay: Vec<u32> = (0..5).map(|_| env.next_amplitude()).collect();
    assert_eq!(decay, vec![1_000_000, 900_000, 800_000, 700_000, 600_000]);
    assert_eq!(env.phase(), EnvelopePhase::Sustain);
    for _ in 0..100 {
        assert_eq!(env.next_amplitude(), 500_000);
        assert_eq!(env.phase(), EnvelopePhase::Sustain);
    }
    assert!(!env.is_finished());
}

#[test]
fn release_from_sustain_ramps_to_zero() {
    let mut env = Envelope::new(2, 2, 500_000, 4);
    for _ in 0..4 {
        env.next_amplitude();
    }
    assert_eq!(env.phase(), EnvelopePhase::Sustain);
    env.next_amplitude();
    env.release();
    assert_eq!(env.phase(), EnvelopePhase::Release);
    assert_eq!(env.samples_in_phase(), 0);
    let ramp: Vec<u32> = (0..4).map(|_| env.next_amplitude()).collect();
    assert_eq!(ramp, vec![500_000, 375_000, 250_000, 125_000]);
    assert!(env.is_finished());
    assert_eq!(env.next_amplitude(), 0);
    assert_eq!(env.phase(), EnvelopePhase::Finished);
}

#[test]
fn release_during_attack_uses_sustain_level() {
    let mut env = Envelope::new(100, 10, 800_000, 2);
    env.next_amplitude();
    env.next_amplitude();
    env.release();
    assert_eq!(env.phase(), EnvelopePhase::Release);
    assert_eq!(env.samples_in_phase(), 0);
    assert_eq!(env.next_amplitude(), 800_000);
    assert_eq!(env.next_amplitude(), 400_000);
    assert_eq!(env.next_amplitude(), 0);
    assert!(env.is_finished());
}

#[test]
fn release_during_decay() {
    let mut env = Envelope::new(1, 10, 200_000, 5);
    env.next_amplitude();
    env.next_amplitude();
    assert_eq!(env.phase(), EnvelopePhase::Decay);
    env.release();
    assert_eq!(env.phase(), EnvelopePhase::Release);
    assert_eq!(env.next_amplitude(), 200_000);
}

#[test]
fn zero_length_phases_pass_straight_through() {
    let mut env = Envelope::new(0, 0, FULL_SCALE / 2, 0);
    assert_eq!(env.next_amplitude(), 0);
    assert_eq!(env.phase(), EnvelopePhase::Decay);
    assert_eq!(env.next_amplitude(), FULL_SCALE);
    assert_eq!(env.phase(), EnvelopePhase::Sustain);
    assert_eq!(env.next_amplitude(), FULL_SCALE / 2);
    env.release();
    assert_eq!(env.next_amplitude(), FULL_SCALE / 2);
    assert!(env.is_finished());
    assert_eq!(env.next_amplitude(), 0);
}

#[test]
fn max_sustain_forces_release() {
    let mut env = Envelope::new(0, 0, 600_000, 3);
    env.set_max_sustain(2);
    env.next_amplitude();
    env.next_amplitude();
    assert_eq!(env.phase(), EnvelopePhase::Sustain);
    assert_eq!(env.next_amplitude(), 600_000);
    assert_eq!(env.next_amplitude(), 600_000);
    assert_eq!(env.phase(), EnvelopePhase::Sustain);
    // the sustain budget is used up: this call moves into release
    assert_eq!(env.next_amplitude(), 600_000);
    assert_eq!(env.phase(), EnvelopePhase::Release);
    assert_eq!(env.samples_in_phase(), 1);
    assert_eq!(env.next_amplitude(), 400_000);
    assert_eq!(env.next_amplitude(), 200_000);
    assert!(env.is_finished());
}

#[test]
fn builder_converts_durations() {
    let b = EnvelopeBuilder::new()
        .attack(Duration::Millis(10))
        .decay(Duration::Samples(3))
        .sustain_level(250_000)
        .release(Duration::Millis(2));
    assert_eq!(b.attack, Duration::Millis(10));
    assert_eq!(b.sustain_level, 250_000);
    let mut env = b.build(1000);
    for _ in 0..10 {
        env.next_amplitude();
    }
    assert_eq!(env.phase(), EnvelopePhase::Decay);
    for _ in 0..3 {
        env.next_amplitude();
    }
    assert_eq!(env.phase(), EnvelopePhase::Sustain);
    assert_eq!(env.next_amplitude(), 250_000);
    env.release();
    assert_eq!(env.next_amplitude(), 250_000);
    assert_eq!(env.next_amplitude(), 125_000);
    assert!(env.is_finished());
}

#[test]
fn new_builder_is_all_zero() {
    let b = EnvelopeBuilder::new();
    assert_eq!(b.attack, Duration::Millis(0));
    assert_eq!(b.decay, Duration::Millis(0));
    assert_eq!(b.release, Duration::Millis(0));
    assert_eq!(b.sustain_level, 0);
}
