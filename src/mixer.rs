use vstd::prelude::*;

use crate::audio_source::{add_all, total_output, unfinished, AudioSourceManager, PlayableSource};
use crate::envelope::{apply_gain, EnvelopePhase, EnvelopeSource, EnvelopeState};
use crate::note::note_frequency;
use crate::sequencer::{levels_ok, track_triggers, triggers, Sequencer, SequencerState};
use crate::sequencer::{Instrument, NoteEvent};
use crate::track::{Track, TriggerdEvent};
use crate::waves::Oscillator;
use crate::FULL_SCALE;

verus! {

/// A sounding note: an oscillator shaped by an envelope.
pub type Voice = EnvelopeSource<Oscillator>;

/// How many voices a mixer keeps unless told otherwise.
pub const DEFAULT_VOICES: usize = 20;

/// The voice that the mixer starts for `event`: the note's oscillator, under
/// a fresh envelope from the instrument whose sustain lasts the note's duration.
pub open spec fn voice_for(event: TriggerdEvent, sample_rate: u32) -> Voice {
    let env = event.instrument.envelope;
    EnvelopeSource::spec_new(
        Oscillator::spec_new(note_frequency(event.note.midi) as u64, sample_rate, event.instrument.waveform),
        EnvelopeState {
            attack: env.attack.spec_samples(sample_rate) as u32,
            decay: env.decay.spec_samples(sample_rate) as u32,
            level: env.sustain_level,
            release: env.release.spec_samples(sample_rate) as u32,
            max_sustain: Some(event.duration.spec_samples(sample_rate) as u32),
            phase: EnvelopePhase::Attack,
            elapsed: 0,
        },
    )
}

/// The pool `voices` after a voice for each of `events` is added in turn.
pub open spec fn spawn_all(voices: Seq<Voice>, events: Seq<TriggerdEvent>, capacity: Option<usize>, sample_rate: u32) -> Seq<Voice> {
    add_all(voices, events.map_values(|e: TriggerdEvent| voice_for(e, sample_rate)), capacity)
}

/// `a / n` truncated toward zero.
pub open spec fn quotient(a: int, n: int) -> int {
    if a >= 0 {
        a / n
    } else {
        -((-a) / n)
    }
}

/// `x` limited to `[-FULL_SCALE, FULL_SCALE]`.
pub open spec fn clamp_full(x: int) -> int {
    if x > FULL_SCALE {
        FULL_SCALE as int
    } else if x < -(FULL_SCALE as int) {
        -(FULL_SCALE as int)
    } else {
        x
    }
}

/// The output sample for a sum `total` of `count` voices: averaged over the
/// voices (over one when there are none), scaled by `volume`, and clamped.
pub open spec fn output_level(total: int, count: nat, volume: u32) -> int {
    let n = if count == 0 {
        1
    } else {
        count as int
    };
    clamp_full(apply_gain(quotient(total, n), volume as int))
}

/// Drives a sequencer and a pool of voices, one output sample per call.
pub struct Mixer {
    volume: u32,
    sample_rate: u32,
    pub source_manager: AudioSourceManager<Voice>,
    pub sequencer: Sequencer,
}

proof fn lemma_track_triggers_levels(events: Seq<NoteEvent>, instrument: Instrument, sample_rate: u32, clock: int)
    requires
        instrument.envelope.sustain_level <= FULL_SCALE,
    ensures
        forall|i: int| 0 <= i < track_triggers(events, instrument, sample_rate, clock).len()
            ==> #[trigger] track_triggers(events, instrument, sample_rate, clock)[i].instrument == instrument,
    decreases events.len(),
{
    if events.len() > 0 {
        lemma_track_triggers_levels(events.drop_last(), instrument, sample_rate, clock);
    }
}

/// Every event fired from tracks with valid levels carries a valid level.
proof fn lemma_triggers_levels(tracks: Seq<Track>, sample_rate: u32, clock: int)
    requires
        levels_ok(tracks),
    ensures
        forall|i: int| 0 <= i < triggers(tracks, sample_rate, clock).len()
            ==> (#[trigger] triggers(tracks, sample_rate, clock)[i]).instrument.envelope.sustain_level <= FULL_SCALE,
    decreases tracks.len(),
{
    if tracks.len() > 0 {
        let rest = tracks.drop_last();
        assert(levels_ok(rest)) by {
            assert forall|i: int| 0 <= i < rest.len() implies (#[trigger] rest[i]).instrument.envelope.sustain_level <= FULL_SCALE by {
                assert(rest[i] == tracks[i]);
            }
        }
        lemma_triggers_levels(rest, sample_rate, clock);
        let last = tracks.last();
        assert(last == tracks[tracks.len() - 1]);
        lemma_track_triggers_levels(last.events@, last.instrument, sample_rate, clock);
        let a = triggers(rest, sample_rate, clock);
        let b = track_triggers(last.events@, last.instrument, sample_rate, clock);
        assert forall|i: int| 0 <= i < (a + b).len() implies (#[trigger] (a + b)[i]).instrument.envelope.sustain_level <= FULL_SCALE by {
            if i >= a.len() {
                assert((a + b)[i] == b[i - a.len()]);
            }
        }
    }
}

/// A sum of at most `count` full-scale samples, averaged and scaled by a
/// gain, stays within 128-bit range at every step.
proof fn lemma_level_ranges(total: int, count: int, n: int, volume: int)
    requires
        0 <= count <= usize::MAX,
        -(count * FULL_SCALE) <= total <= count * FULL_SCALE,
        n == if count == 0 {
            1
        } else {
            count
        },
        0 <= volume <= FULL_SCALE,
    ensures
        -(usize::MAX * FULL_SCALE) <= quotient(total, n) <= usize::MAX * FULL_SCALE,
        -(usize::MAX * FULL_SCALE * FULL_SCALE) <= quotient(total, n) * volume <= usize::MAX * FULL_SCALE * FULL_SCALE,
        quotient(total, n) < 0 ==> (-quotient(total, n)) * volume <= usize::MAX * FULL_SCALE * FULL_SCALE,
{
    let f = FULL_SCALE as int;
    let m = usize::MAX as int;
    assert(count * f <= m * f) by (nonlinear_arith)
        requires
            0 <= count <= m,
            0 <= f,
    ;
    let a = if total >= 0 { total } else { -total };
    assert(a / n <= a) by (nonlinear_arith)
        requires
            0 <= a,
            1 <= n,
    ;
    assert(0 <= a / n) by (nonlinear_arith)
        requires
            0 <= a,
            1 <= n,
    ;
    let q = a / n;
    assert(q * volume <= m * f * f) by (nonlinear_arith)
        requires
            0 <= q <= m * f,
            0 <= volume <= f,
            0 <= m,
            0 <= f,
    ;
    assert(0 <= q * volume) by (nonlinear_arith)
        requires
            0 <= q,
            0 <= volume,
    ;
    if total < 0 {
        assert(-quotient(total, n) == q);
        assert(quotient(total, n) * volume == -(q * volume)) by (nonlinear_arith)
            requires
                quotient(total, n) == -q,
        ;
    }
}

impl Mixer {
    pub closed spec fn spec_volume(&self) -> u32 {
        self.volume
    }

    pub closed spec fn spec_sample_rate(&self) -> u32 {
        self.sample_rate
    }

    pub closed spec fn spec_pool(&self) -> AudioSourceManager<Voice> {
        self.source_manager
    }

    pub closed spec fn spec_sequencer(&self) -> SequencerState {
        self.sequencer@
    }

    /// The settings are in range, and the sequencer and the pool are consistent.
    pub open spec fn wf(&self) -> bool {
        &&& self.spec_volume() <= FULL_SCALE
        &&& self.spec_sample_rate() > 0
        &&& self.spec_sequencer().wf()
        &&& self.spec_pool().wf()
    }

    /// A mixer at `volume` over `sequencer`, with room for `DEFAULT_VOICES` voices.
    pub fn new(volume: u32, sample_rate: u32, sequencer: Sequencer) -> (r: Self)
        requires
            volume <= FULL_SCALE,
            sample_rate > 0,
            sequencer@.wf(),
        ensures
            r.spec_volume() == volume,
            r.spec_sample_rate() == sample_rate,
            r.spec_sequencer() == sequencer@,
            r.spec_pool().spec_sources() == Seq::<Voice>::empty(),
            r.spec_pool().spec_capacity() == Some(DEFAULT_VOICES),
            r.wf(),
    {
        Self::with_capacity(volume, sample_rate, sequencer, Some(DEFAULT_VOICES))
    }

    /// A mixer at `volume` over `sequencer`, holding at most `capacity`
    /// voices (any number for `None`).
    pub fn with_capacity(volume: u32, sample_rate: u32, sequencer: Sequencer, capacity: Option<usize>) -> (r: Self)
        requires
            volume <= FULL_SCALE,
            sample_rate > 0,
            sequencer@.wf(),
            capacity != Some(0usize),
        ensures
            r.spec_volume() == volume,
            r.spec_sample_rate() == sample_rate,
            r.spec_sequencer() == sequencer@,
            r.spec_pool().spec_sources() == Seq::<Voice>::empty(),
            r.spec_pool().spec_capacity() == capacity,
            r.wf(),
    {
        Mixer { volume, sample_rate, source_manager: AudioSourceManager::new(capacity), sequencer }
    }

    /// Produces the next output sample: ticks the sequencer, starts a voice
    /// per fired event, drops finished voices, then mixes, averages, scales
    /// by the volume and clamps.
    pub fn next_sample(&mut self) -> (r: i32)
        requires
            old(self).wf(),
        ensures
            ({
                let spawned = spawn_all(
                    old(self).spec_pool().spec_sources(),
                    old(self).spec_sequencer().tick_output(),
                    old(self).spec_pool().spec_capacity(),
                    old(self).spec_sample_rate(),
                );
                let live = unfinished(spawned);
                &&& r as int == output_level(total_output(live), live.len(), old(self).spec_volume())
                &&& final(self).spec_pool().spec_sources() == live.map_values(|v: Voice| v.stepped())
            }),
            -(FULL_SCALE as int) <= r <= FULL_SCALE,
            final(self).spec_sequencer() == old(self).spec_sequencer().ticked(),
            final(self).spec_pool().spec_capacity() == old(self).spec_pool().spec_capacity(),
            final(self).spec_volume() == old(self).spec_volume(),
            final(self).spec_sample_rate() == old(self).spec_sample_rate(),
            final(self).wf(),
    {
        let ghost seq0 = self.sequencer@;
        let events = self.sequencer.tick();
        proof {
            if seq0.playing {
                lemma_triggers_levels(seq0.tracks, seq0.sample_rate, seq0.match_clock() as int);
            }
        }
        let ghost start = self.source_manager.spec_sources();
        let ghost capacity = self.source_manager.spec_capacity();
        let mut i: usize = 0;
        while i < events.len()
            invariant
                i <= events@.len(),
                events@ == seq0.tick_output(),
                forall|k: int| 0 <= k < events@.len() ==> (#[trigger] events@[k]).instrument.envelope.sustain_level <= FULL_SCALE,
                self.spec_pool().wf(),
                self.spec_pool().spec_capacity() == capacity,
                self.spec_pool().spec_sources() == spawn_all(start, events@.subrange(0, i as int), capacity, self.sample_rate),
                self.sample_rate > 0,
                self.sample_rate == old(self).sample_rate,
                self.volume == old(self).volume,
                self.volume <= FULL_SCALE,
                self.sequencer@ == seq0.ticked(),
                seq0 == old(self).sequencer@,
                seq0.wf(),
            decreases events@.len() - i,
        {
            let event: TriggerdEvent = events[i];
            assert(event.instrument.envelope.sustain_level <= FULL_SCALE);
            let oscillator = Oscillator::new(event.note.to_frequency(), self.sample_rate, event.instrument.waveform);
            let mut envelope = event.instrument.envelope.build(self.sample_rate);
            envelope.set_max_sustain(event.duration.to_samples(self.sample_rate));
            let voice = EnvelopeSource::new(oscillator, envelope);
            proof {
                let f = |e: TriggerdEvent| voice_for(e, self.sample_rate);
                assert(events@.subrange(0, i + 1).map_values(f).drop_last() =~= events@.subrange(0, i as int).map_values(f));
                assert(voice == voice_for(event, self.sample_rate));
            }
            self.source_manager.add_source(voice);
            i = i + 1;
        }
        proof {
            assert(events@.subrange(0, i as int) =~= events@);
        }
        self.source_manager.remove_finished();
        let count: usize = self.source_manager.len();
        let mixed: i128 = self.source_manager.mix_samples();
        let n: i128 = if count == 0 {
            1
        } else {
            count as i128
        };
        proof {
            lemma_level_ranges(mixed as int, count as int, n as int, self.volume as int);
        }
        let normalized: i128 = if mixed >= 0 {
            mixed / n
        } else {
            -((-mixed) / n)
        };
        let v: i128 = self.volume as i128;
        let full: i128 = FULL_SCALE as i128;
        let scaled: i128 = if normalized >= 0 {
            normalized * v / full
        } else {
            -((-normalized) * v / full)
        };
        if scaled > full {
            FULL_SCALE as i32
        } else if scaled < -full {
            -(FULL_SCALE as i32)
        } else {
            scaled as i32
        }
    }
}

} // verus!
