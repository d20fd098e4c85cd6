use vstd::prelude::*;

use crate::duration::Duration;
use crate::envelope::EnvelopeBuilder;
use crate::note::Note;
use crate::track::{Track, TriggerdEvent};
use crate::waves::Waveform;
use crate::FULL_SCALE;

verus! {

/// A note to be played, timed from the start of the sequence.
#[derive(Clone, Copy, Debug, PartialEq, Eq, Structural)]
pub struct NoteEvent {
    pub note: Note,
    pub start_time: Duration,
    pub duration: Duration,
}

/// A waveform and the envelope template each of its notes gets.
#[derive(Clone, Copy, Debug, PartialEq, Eq, Structural)]
pub struct Instrument {
    pub waveform: Waveform,
    pub envelope: EnvelopeBuilder,
}

/// The events of one track that start at sample `clock`, in their order.
pub open spec fn track_triggers(events: Seq<NoteEvent>, instrument: Instrument, sample_rate: u32, clock: int) -> Seq<TriggerdEvent>
    decreases events.len(),
{
    if events.len() == 0 {
        Seq::empty()
    } else {
        let rest = track_triggers(events.drop_last(), instrument, sample_rate, clock);
        let e = events.last();
        if e.start_time.spec_samples(sample_rate) == clock {
            rest.push(TriggerdEvent { note: e.note, duration: e.duration, instrument })
        } else {
            rest
        }
    }
}

/// The events of all tracks that start at sample `clock`: track by track,
/// each in its own order.
pub open spec fn triggers(tracks: Seq<Track>, sample_rate: u32, clock: int) -> Seq<TriggerdEvent>
    decreases tracks.len(),
{
    if tracks.len() == 0 {
        Seq::empty()
    } else {
        triggers(tracks.drop_last(), sample_rate, clock) + track_triggers(
            tracks.last().events@,
            tracks.last().instrument,
            sample_rate,
            clock,
        )
    }
}

/// The latest sample at which a note of `events` ends.
pub open spec fn events_end(events: Seq<NoteEvent>, sample_rate: u32) -> nat
    decreases events.len(),
{
    if events.len() == 0 {
        0
    } else {
        let e = events.last();
        let end = e.start_time.spec_samples(sample_rate) + e.duration.spec_samples(sample_rate);
        let rest = events_end(events.drop_last(), sample_rate);
        if end > rest {
            end
        } else {
            rest
        }
    }
}

/// The latest sample at which a note of any track ends.
pub open spec fn tracks_end(tracks: Seq<Track>, sample_rate: u32) -> nat
    decreases tracks.len(),
{
    if tracks.len() == 0 {
        0
    } else {
        let end = events_end(tracks.last().events@, sample_rate);
        let rest = tracks_end(tracks.drop_last(), sample_rate);
        if end > rest {
            end
        } else {
            rest
        }
    }
}

/// Where the loop ends: the latest note end, or `None` when that is 0.
pub open spec fn loop_end_of(tracks: Seq<Track>, sample_rate: u32) -> Option<u64> {
    let end = tracks_end(tracks, sample_rate);
    if end > 0 {
        Some(end as u64)
    } else {
        None
    }
}

/// Every instrument of `tracks` has a sustain level that is a gain.
pub open spec fn levels_ok(tracks: Seq<Track>) -> bool {
    forall|i: int| 0 <= i < tracks.len() ==> (#[trigger] tracks[i]).instrument.envelope.sustain_level <= FULL_SCALE
}

/// `clock + 1`, held at `u64::MAX`.
pub open spec fn next_sample_clock(clock: u64) -> u64 {
    if clock < u64::MAX {
        (clock + 1) as u64
    } else {
        clock
    }
}

/// The abstract state of a [`Sequencer`].
pub ghost struct SequencerState {
    pub tracks: Seq<Track>,
    pub clock: u64,
    pub sample_rate: u32,
    pub playing: bool,
    pub looping: bool,
    pub loop_end: Option<u64>,
}

impl SequencerState {
    /// The loop end is derived from the tracks, which all have valid levels.
    pub open spec fn wf(self) -> bool {
        &&& self.loop_end == loop_end_of(self.tracks, self.sample_rate)
        &&& levels_ok(self.tracks)
    }

    /// The clock that the next tick matches events against: back at 0 once
    /// a looping sequence has reached its end.
    pub open spec fn match_clock(self) -> u64 {
        match self.loop_end {
            Some(end) => if self.looping && self.clock >= end {
                0
            } else {
                self.clock
            },
            None => self.clock,
        }
    }

    /// The events the next tick fires.
    pub open spec fn tick_output(self) -> Seq<TriggerdEvent> {
        if self.playing {
            triggers(self.tracks, self.sample_rate, self.match_clock() as int)
        } else {
            Seq::empty()
        }
    }

    /// The state after the next tick.
    pub open spec fn ticked(self) -> SequencerState {
        if self.playing {
            SequencerState { clock: next_sample_clock(self.match_clock()), ..self }
        } else {
            self
        }
    }

    /// The state after `n` ticks.
    pub open spec fn after(self, n: nat) -> SequencerState
        decreases n,
    {
        if n == 0 {
            self
        } else {
            self.after((n - 1) as nat).ticked()
        }
    }
}

/// Before the loop end is reached, each tick of a playing sequence that
/// starts at sample 0 moves the clock on by exactly one.
proof fn lemma_first_pass(s: SequencerState, n: nat)
    requires
        s.playing,
        s.clock == 0,
        s.loop_end matches Some(end) && n <= end,
    ensures
        s.after(n) == (SequencerState { clock: n as u64, ..s }),
    decreases n,
{
    if n > 0 {
        lemma_first_pass(s, (n - 1) as nat);
    }
}

/// In the second pass of a looping sequence the clock runs from 1 again.
proof fn lemma_second_pass(s: SequencerState, j: nat)
    requires
        s.playing,
        s.looping,
        s.clock == 0,
        s.loop_end matches Some(end) && 1 <= j <= end,
    ensures
        s.after((s.loop_end.unwrap() + j) as nat) == (SequencerState { clock: j as u64, ..s }),
    decreases j,
{
    let end = s.loop_end.unwrap();
    if j == 1 {
        lemma_first_pass(s, end as nat);
    } else {
        lemma_second_pass(s, (j - 1) as nat);
        assert(s.after((end + j) as nat) == s.after((end + j - 1) as nat).ticked());
    }
}

/// A looping, playing sequence that starts at sample 0 with its loop ending
/// at `L`: after exactly `L` ticks the next tick matches from sample 0
/// again, and each tick of the second pass fires exactly the events that
/// the same tick of the first pass fired.
pub proof fn lemma_loop_repeats(s: SequencerState, k: nat)
    requires
        s.playing,
        s.looping,
        s.clock == 0,
        s.loop_end matches Some(end) && k < end,
    ensures
        s.after(s.loop_end.unwrap() as nat).clock == s.loop_end.unwrap(),
        s.after(s.loop_end.unwrap() as nat).match_clock() == 0,
        s.after((s.loop_end.unwrap() + k) as nat).tick_output() == s.after(k).tick_output(),
{
    let end = s.loop_end.unwrap();
    lemma_first_pass(s, end as nat);
    lemma_first_pass(s, k);
    if k > 0 {
        lemma_second_pass(s, k);
    }
}

/// Fires note events at sample-accurate times from a sample clock.
pub struct Sequencer {
    tracks: Vec<Track>,
    current_sample: u64,
    sample_rate: u32,
    is_playing: bool,
    is_looping: bool,
    loop_end_sample: Option<u64>,
}

impl View for Sequencer {
    type V = SequencerState;

    closed spec fn view(&self) -> SequencerState {
        SequencerState {
            tracks: self.tracks@,
            clock: self.current_sample,
            sample_rate: self.sample_rate,
            playing: self.is_playing,
            looping: self.is_looping,
            loop_end: self.loop_end_sample,
        }
    }
}

proof fn lemma_triggers_step(tracks: Seq<Track>, i: int, sample_rate: u32, clock: int)
    requires
        0 <= i < tracks.len(),
    ensures
        triggers(tracks.subrange(0, i + 1), sample_rate, clock) == triggers(tracks.subrange(0, i), sample_rate, clock)
            + track_triggers(tracks[i].events@, tracks[i].instrument, sample_rate, clock),
{
    assert(tracks.subrange(0, i + 1).drop_last() =~= tracks.subrange(0, i));
}

proof fn lemma_track_triggers_step(events: Seq<NoteEvent>, k: int, instrument: Instrument, sample_rate: u32, clock: int)
    requires
        0 <= k < events.len(),
    ensures
        track_triggers(events.subrange(0, k + 1), instrument, sample_rate, clock) == if events[k].start_time.spec_samples(sample_rate) == clock {
            track_triggers(events.subrange(0, k), instrument, sample_rate, clock).push(
                TriggerdEvent { note: events[k].note, duration: events[k].duration, instrument },
            )
        } else {
            track_triggers(events.subrange(0, k), instrument, sample_rate, clock)
        },
{
    assert(events.subrange(0, k + 1).drop_last() =~= events.subrange(0, k));
}

impl Sequencer {
    /// A stopped, non-looping sequencer with no tracks, at sample 0.
    pub fn new(sample_rate: u32) -> (r: Self)
        ensures
            r@ == (SequencerState {
                tracks: Seq::empty(),
                clock: 0,
                sample_rate,
                playing: false,
                looping: false,
                loop_end: None,
            }),
            r@.wf(),
    {
        Sequencer {
            tracks: Vec::new(),
            current_sample: 0,
            sample_rate,
            is_playing: false,
            is_looping: false,
            loop_end_sample: None,
        }
    }

    /// Advances the clock by one sample and returns the events that start at
    /// it; a stopped sequencer returns nothing and keeps its clock.
    pub fn tick(&mut self) -> (r: Vec<TriggerdEvent>)
        ensures
            r@ == old(self)@.tick_output(),
            final(self)@ == old(self)@.ticked(),
    {
        if !self.is_playing {
            return Vec::new();
        }
        if self.is_looping {
            if let Some(end) = self.loop_end_sample {
                if self.current_sample >= end {
                    self.current_sample = 0;
                }
            }
        }
        let clock = self.current_sample;
        let mut triggerd: Vec<TriggerdEvent> = Vec::new();
        let mut i: usize = 0;
        while i < self.tracks.len()
            invariant
                clock == self.current_sample,
                i <= self.tracks@.len(),
                triggerd@ == triggers(self.tracks@.subrange(0, i as int), self.sample_rate, clock as int),
            decreases self.tracks@.len() - i,
        {
            let track = &self.tracks[i];
            let mut k: usize = 0;
            while k < track.events.len()
                invariant
                    k <= track.events@.len(),
                    triggerd@ == triggers(self.tracks@.subrange(0, i as int), self.sample_rate, clock as int)
                        + track_triggers(track.events@.subrange(0, k as int), track.instrument, self.sample_rate, clock as int),
                decreases track.events@.len() - k,
            {
                let event = &track.events[k];
                proof {
                    lemma_track_triggers_step(track.events@, k as int, track.instrument, self.sample_rate, clock as int);
                }
                let event_sample: u64 = event.start_time.to_samples(self.sample_rate) as u64;
                if event_sample == clock {
                    triggerd.push(TriggerdEvent { note: event.note, duration: event.duration, instrument: track.instrument });
                }
                k = k + 1;
            }
            proof {
                assert(track.events@.subrange(0, k as int) =~= track.events@);
                lemma_triggers_step(self.tracks@, i as int, self.sample_rate, clock as int);
            }
            i = i + 1;
        }
        proof {
            assert(self.tracks@.subrange(0, i as int) =~= self.tracks@);
        }
        self.increment_time();
        triggerd
    }

    fn calculate_loop_end(&mut self)
        ensures
            final(self)@ == (SequencerState { loop_end: loop_end_of(old(self)@.tracks, old(self)@.sample_rate), ..old(self)@ }),
    {
        let mut max_sample: u64 = 0;
        let mut i: usize = 0;
        while i < self.tracks.len()
            invariant
                i <= self.tracks@.len(),
                max_sample == tracks_end(self.tracks@.subrange(0, i as int), self.sample_rate),
                self@ == old(self)@,
            decreases self.tracks@.len() - i,
        {
            let track = &self.tracks[i];
            let mut track_max: u64 = 0;
            let mut k: usize = 0;
            while k < track.events.len()
                invariant
                    k <= track.events@.len(),
                    track_max == events_end(track.events@.subrange(0, k as int), self.sample_rate),
                    track_max <= 2 * (u32::MAX as int),
                decreases track.events@.len() - k,
            {
                let event = &track.events[k];
                proof {
                    assert(track.events@.subrange(0, k + 1).drop_last() =~= track.events@.subrange(0, k as int));
                }
                let event_end: u64 = event.start_time.to_samples(self.sample_rate) as u64
                    + event.duration.to_samples(self.sample_rate) as u64;
                if event_end > track_max {
                    track_max = event_end;
                }
                k = k + 1;
            }
            proof {
                assert(track.events@.subrange(0, k as int) =~= track.events@);
                assert(self.tracks@.subrange(0, i + 1).drop_last() =~= self.tracks@.subrange(0, i as int));
            }
            if track_max > max_sample {
                max_sample = track_max;
            }
            i = i + 1;
        }
        proof {
            assert(self.tracks@.subrange(0, i as int) =~= self.tracks@);
        }
        self.loop_end_sample = if max_sample > 0 {
            Some(max_sample)
        } else {
            None
        };
    }

    pub fn set_looping(&mut self, looping: bool)
        ensures
            final(self)@ == (SequencerState { looping, ..old(self)@ }),
    {
        self.is_looping = looping;
    }

    /// Appends a track; the loop end is recomputed over all tracks.
    pub fn add_track(&mut self, track: Track)
        requires
            track.instrument.envelope.sustain_level <= FULL_SCALE,
            old(self)@.wf(),
        ensures
            final(self)@ == (SequencerState {
                tracks: old(self)@.tracks.push(track),
                loop_end: loop_end_of(old(self)@.tracks.push(track), old(self)@.sample_rate),
                ..old(self)@
            }),
            final(self)@.wf(),
    {
        self.tracks.push(track);
        self.calculate_loop_end();
    }

    pub fn play(&mut self)
        ensures
            final(self)@ == (SequencerState { playing: true, ..old(self)@ }),
    {
        self.is_playing = true;
    }

    pub fn stop(&mut self)
        ensures
            final(self)@ == (SequencerState { playing: false, ..old(self)@ }),
    {
        self.is_playing = false;
    }

    pub fn reset(&mut self)
        ensures
            final(self)@ == (SequencerState { clock: 0, ..old(self)@ }),
    {
        self.current_sample = 0;
    }

    /// Moves the clock one sample on; it holds once it reaches `u64::MAX`.
    pub fn increment_time(&mut self)
        ensures
            final(self)@ == (SequencerState { clock: next_sample_clock(old(self)@.clock), ..old(self)@ }),
    {
        if self.current_sample < u64::MAX {
            self.current_sample = self.current_sample + 1;
        }
    }

    pub fn current_sample(&self) -> (r: u64)
        ensures
            r == self@.clock,
    {
        self.current_sample
    }

    pub fn loop_end_sample(&self) -> (r: Option<u64>)
        ensures
            r == self@.loop_end,
    {
        self.loop_end_sample
    }
}

} // verus!
