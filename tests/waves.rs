use synth::audio_source::PlayableSource;
use synth::duration::Duration;
use synth::note::Note;
use synth::waves::{Oscillator, Waveform};

fn quarter_rate(waveform: Waveform) -> Oscillator {
    Oscillator::new(44_100 * 250_000, 44_100, waveform)
}

fn run(osc: &mut Oscillator, n: usize) -> Vec<i32> {
    (0..n).map(|_| osc.next_sample()).collect()
}

#[test]
fn quarter_rate_repeats_every_four_samples() {
    for w in [Waveform::Sine, Waveform::Square, Waveform::Sawtooth, Waveform::Triangle] {
        let mut osc = quarter_rate(w);
        assert_eq!(osc.step(), 0x4000_0000);
        let first = run(&mut osc, 4);
        assert_eq!(osc.phase(), 0);
        let second = run(&mut osc, 4);
        assert_eq!(osc.phase(), 0);
        assert_eq!(first, second);
    }
}

#[test]
fn waveform_values_at_quarter_points() {
    assert_eq!(run(&mut quarter_rate(Waveform::Sine), 4), vec![0, 1_000_000, 0, -1_000_000]);
    assert_eq!(
        run(&mut quarter_rate(Waveform::Square), 4),
        vec![1_000_000, 1_000_000, -1_000_000, -1_000_000]
    );
    assert_eq!(
        run(&mut quarter_rate(Waveform::Sawtooth), 4),
        vec![-1_000_000, -500_000, 0, 500_000]
    );
    assert_eq!(
        run(&mut quarter_rate(Waveform::Triangle), 4),
        vec![0, 1_000_000, 0, -1_000_000]
    );
}

#[test]
fn eighth_rate_waveforms() {
    let mut saw = Oscillator::new(8_000 * 125_000, 8_000, Waveform::Sawtooth);
    assert_eq!(saw.step(), 0x2000_0000);
    assert_eq!(
        run(&mut saw, 8),
        vec![-1_000_000, -750_000, -500_000, -250_000, 0, 250_000, 500_000, 750_000]
    );
    let mut tri = Oscillator::new(8_000 * 125_000, 8_000, Waveform::Triangle);
    assert_eq!(
        run(&mut tri, 8),
        vec![0, 500_000, 1_000_000, 500_000, 0, -500_000, -1_000_000, -500_000]
    );
    let mut sine = Oscillator::new(8_000 * 125_000, 8_000, Waveform::Sine);
    let s = run(&mut sine, 8);
    // sin(pi / 4) is about 0.7071
    assert!((s[1] - 707_107).abs() < 2_000);
    assert_eq!(s[1], s[3]);
    assert_eq!(s[5], -s[1]);
}

#[test]
fn oscillator_never_finishes() {
    let mut osc = Oscillator::new(440_000_000, 44_100, Waveform::Sine);
    osc.release();
    assert!(!osc.is_finished());
    assert_eq!(osc.waveform(), Waveform::Sine);
}

#[test]
fn phase_step_of_a440() {
    let osc = Oscillator::new(440_000_000, 44_100, Waveform::Square);
    // 440 / 44100 of a cycle of 2^32
    assert_eq!(osc.step(), ((440u128 << 32) / 44_100) as u32);
}

#[test]
fn note_frequencies() {
    assert_eq!(Note { midi: 69 }.to_frequency(), 440_000_000);
    assert_eq!(Note { midi: 57 }.to_frequency(), 220_000_000);
    assert_eq!(Note { midi: 0 }.to_frequency(), 8_175_799);
    assert_eq!(Note { midi: 60 }.to_frequency(), 8_175_799 * 32);
    assert_eq!(Note { midi: 255 }.to_frequency(), 9_722_718u64 << 21);
}

#[test]
fn duration_to_samples() {
    assert_eq!(Duration::Samples(5).to_samples(44_100), 5);
    assert_eq!(Duration::Millis(10).to_samples(44_100), 441);
    assert_eq!(Duration::Millis(1).to_samples(44_100), 44);
    assert_eq!(Duration::Millis(500).to_samples(48_000), 24_000);
    assert_eq!(Duration::Millis(u32::MAX).to_samples(u32::MAX), u32::MAX);
}
