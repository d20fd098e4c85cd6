use synth::audio_source::{AudioSourceManager, PlayableSource};
use synth::duration::Duration;
use synth::envelope::{Envelope, EnvelopeBuilder, EnvelopeSource};
use synth::mixer::{Mixer, Voice};
use synth::note::Note;
use synth::sequencer::{Instrument, NoteEvent, Sequencer};
use synth::track::Track;
use synth::waves::{Oscillator, Waveform};
use synth::FULL_SCALE;

fn voice(midi: u8, finished: bool) -> Voice {
    let osc = Oscillator::new(Note { midi }.to_frequency(), 44_100, Waveform::Square);
    let mut env = Envelope::new(0, 0, FULL_SCALE, 0);
    if finished {
        env.release();
        env.next_amplitude();
    }
    EnvelopeSource::new(osc, env)
}

fn steps(pool: &AudioSourceManager<Voice>) -> Vec<u32> {
    pool.sources().iter().map(|v| v.source().step()).collect()
}

fn step_of(midi: u8) -> u32 {
    voice(midi, false).source().step()
}

fn organ() -> Instrument {
    Instrument {
        waveform: Waveform::Square,
        envelope: EnvelopeBuilder::new()
            .attack(Duration::Samples(0))
            .decay(Duration::Samples(0))
            .sustain_level(FULL_SCALE)
            .release(Duration::Samples(0)),
    }
}

fn event(midi: u8, start: u32, length: u32) -> NoteEvent {
    NoteEvent {
        note: Note { midi },
        start_time: Duration::Samples(start),
        duration: Duration::Samples(length),
    }
}

#[test]
fn pool_keeps_most_recent_voices() {
    let mut pool: AudioSourceManager<Voice> = AudioSourceManager::new(Some(3));
    let notes = [60u8, 62, 64, 65, 67, 69];
    for (i, &n) in notes.iter().enumerate() {
        pool.add_source(voice(n, false));
        assert!(pool.len() <= 3);
        let start = if i + 1 > 3 { i + 1 - 3 } else { 0 };
        let expected: Vec<u32> = notes[start..=i].iter().map(|&m| step_of(m)).collect();
        assert_eq!(steps(&pool), expected);
    }
    assert_eq!(pool.len(), 3);
}

#[test]
fn pool_without_capacity_keeps_all() {
    let mut pool: AudioSourceManager<Voice> = AudioSourceManager::new(None);
    for n in 0..30u8 {
        pool.add_source(voice(n, false));
    }
    assert_eq!(pool.len(), 30);
}

#[test]
fn remove_finished_keeps_order_of_the_rest() {
    let mut pool: AudioSourceManager<Voice> = AudioSourceManager::new(None);
    pool.add_source(voice(60, true));
    pool.add_source(voice(62, false));
    pool.add_source(voice(64, true));
    pool.add_source(voice(65, false));
    pool.add_source(voice(67, false));
    pool.add_source(voice(69, true));
    assert!(pool.sources()[0].is_finished());
    assert!(!pool.sources()[1].is_finished());
    pool.remove_finished();
    assert_eq!(steps(&pool), vec![step_of(62), step_of(65), step_of(67)]);
    assert!(pool.sources().iter().all(|v| !v.is_finished()));
}

#[test]
fn mix_of_empty_pool_is_zero() {
    let mut pool: AudioSourceManager<Voice> = AudioSourceManager::new(Some(4));
    assert_eq!(pool.mix_samples(), 0);
}

#[test]
fn mix_sums_voices() {
    let mut pool: AudioSourceManager<Voice> = AudioSourceManager::new(None);
    pool.add_source(voice(60, false));
    pool.add_source(voice(64, false));
    // the first sample of each voice comes from a zero-length attack
    assert_eq!(pool.mix_samples(), 0);
    // then the decay starts at full amplitude on a high square wave
    assert_eq!(pool.mix_samples(), 2 * FULL_SCALE as i128);
}

#[test]
fn sequencer_loop_repeats_events() {
    let mut seq = Sequencer::new(1000);
    assert_eq!(seq.loop_end_sample(), None);
    seq.add_track(Track { instrument: organ(), events: vec![event(60, 0, 1), event(64, 2, 1)] });
    assert_eq!(seq.loop_end_sample(), Some(3));
    seq.set_looping(true);
    seq.play();
    let mut fired: Vec<Vec<u8>> = Vec::new();
    for i in 0..9 {
        let events = seq.tick();
        fired.push(events.iter().map(|e| e.note.midi).collect());
        if i == 2 {
            assert_eq!(seq.current_sample(), 3);
        }
    }
    assert_eq!(fired[0..3], fired[3..6]);
    assert_eq!(fired[3..6], fired[6..9]);
    assert_eq!(fired[0], vec![60]);
    assert!(fired[1].is_empty());
    assert_eq!(fired[2], vec![64]);
    assert_eq!(seq.current_sample(), 3);
}

#[test]
fn sequencer_orders_events_by_track() {
    let mut seq = Sequencer::new(1000);
    seq.add_track(Track { instrument: organ(), events: vec![event(48, 0, 5), event(50, 0, 2)] });
    let mut lead = organ();
    lead.waveform = Waveform::Sawtooth;
    seq.add_track(Track { instrument: lead, events: vec![event(72, 0, 1), event(74, 7, 1)] });
    assert_eq!(seq.loop_end_sample(), Some(8));
    seq.play();
    let first = seq.tick();
    assert_eq!(first.iter().map(|e| e.note.midi).collect::<Vec<u8>>(), vec![48, 50, 72]);
    assert_eq!(first[2].instrument.waveform, Waveform::Sawtooth);
    assert_eq!(first[1].duration, Duration::Samples(2));
}

#[test]
fn stopped_sequencer_does_nothing() {
    let mut seq = Sequencer::new(1000);
    seq.add_track(Track { instrument: organ(), events: vec![event(60, 0, 1)] });
    assert!(seq.tick().is_empty());
    assert_eq!(seq.current_sample(), 0);
    seq.play();
    assert_eq!(seq.tick().len(), 1);
    seq.stop();
    assert!(seq.tick().is_empty());
    assert_eq!(seq.current_sample(), 1);
    seq.reset();
    assert_eq!(seq.current_sample(), 0);
    seq.increment_time();
    assert_eq!(seq.current_sample(), 1);
}

#[test]
fn sequencer_without_loop_does_not_wrap() {
    let mut seq = Sequencer::new(1000);
    seq.add_track(Track { instrument: organ(), events: vec![event(60, 0, 1)] });
    seq.play();
    assert_eq!(seq.tick().len(), 1);
    for _ in 0..5 {
        assert!(seq.tick().is_empty());
    }
    assert_eq!(seq.current_sample(), 6);
}

#[test]
fn loop_end_counts_milliseconds() {
    let mut seq = Sequencer::new(44_100);
    seq.add_track(Track {
        instrument: organ(),
        events: vec![NoteEvent {
            note: Note { midi: 36 },
            start_time: Duration::Millis(1000),
            duration: Duration::Millis(500),
        }],
    });
    assert_eq!(seq.loop_end_sample(), Some(44_100 + 22_050));
}

#[test]
fn mixer_plays_a_note() {
    let mut seq = Sequencer::new(44_100);
    seq.add_track(Track { instrument: organ(), events: vec![event(69, 0, 10)] });
    seq.play();
    let mut mixer = Mixer::new(500_000, 44_100, seq);
    let out: Vec<i32> = (0..14).map(|_| mixer.next_sample()).collect();
    let mut expected = vec![0];
    expected.extend(std::iter::repeat(500_000).take(12));
    expected.push(0);
    assert_eq!(out, expected);
    assert_eq!(mixer.source_manager.len(), 0);
}

#[test]
fn mixer_output_stays_in_range() {
    let mut seq = Sequencer::new(44_100);
    for t in 0..6u8 {
        let events = (0..8u32).map(|i| event(30 + t * 7 + i as u8, i * 3, 40)).collect();
        seq.add_track(Track { instrument: organ(), events });
    }
    seq.set_looping(true);
    seq.play();
    let mut mixer = Mixer::with_capacity(FULL_SCALE, 44_100, seq, Some(5));
    let full = FULL_SCALE as i32;
    for _ in 0..500 {
        let s = mixer.next_sample();
        assert!(-full <= s && s <= full);
        assert!(mixer.source_manager.len() <= 5);
    }
}

#[test]
fn mixer_averages_over_voices() {
    let mut seq = Sequencer::new(44_100);
    seq.add_track(Track { instrument: organ(), events: vec![event(69, 0, 10), event(70, 0, 10)] });
    seq.play();
    let mut mixer = Mixer::new(FULL_SCALE, 44_100, seq);
    assert_eq!(mixer.next_sample(), 0);
    assert_eq!(mixer.source_manager.len(), 2);
    assert_eq!(mixer.next_sample(), FULL_SCALE as i32);
}

#[test]
fn silent_mixer_outputs_zero() {
    let seq = Sequencer::new(44_100);
    let mut mixer = Mixer::new(FULL_SCALE, 44_100, seq);
    assert_eq!(mixer.next_sample(), 0);
}
