use vstd::prelude::*;

use crate::duration::Duration;
use crate::audio_source::PlayableSource;
use crate::FULL_SCALE;

verus! {

/// The stage an ADSR envelope is in.
#[derive(Clone, Copy, Debug, PartialEq, Eq, Structural)]
pub enum EnvelopePhase {
    Attack,
    Decay,
    Sustain,
    Release,
    Finished,
}

/// The abstract state of an [`Envelope`].
pub ghost struct EnvelopeState {
    pub attack: u32,
    pub decay: u32,
    pub level: u32,
    pub release: u32,
    pub max_sustain: Option<u32>,
    pub phase: EnvelopePhase,
    pub elapsed: u32,
}

/// `elapsed + 1`, held at `u32::MAX`.
pub open spec fn next_count(elapsed: u32) -> u32 {
    if elapsed < u32::MAX {
        (elapsed + 1) as u32
    } else {
        elapsed
    }
}

impl EnvelopeState {
    /// The sustain level is a gain, and a ramping phase has not yet used up
    /// its budget (a zero-length budget allows only a count of zero).
    pub open spec fn wf(self) -> bool {
        &&& self.level <= FULL_SCALE
        &&& match self.phase {
            EnvelopePhase::Attack => self.elapsed < self.attack || self.elapsed == 0,
            EnvelopePhase::Decay => self.elapsed < self.decay || self.elapsed == 0,
            EnvelopePhase::Release => self.elapsed < self.release || self.elapsed == 0,
            _ => true,
        }
    }

    /// The amplitude that the next step yields. Each ramp is linear in the
    /// samples spent in its phase, truncated toward zero; a zero-length
    /// phase yields the value its ramp starts from.
    pub open spec fn amplitude(self) -> int {
        let full = FULL_SCALE as int;
        let e = self.elapsed as int;
        let l = self.level as int;
        match self.phase {
            EnvelopePhase::Attack => if self.attack == 0 {
                0
            } else {
                e * full / (self.attack as int)
            },
            EnvelopePhase::Decay => if self.decay == 0 {
                full
            } else {
                full - e * (full - l) / (self.decay as int)
            },
            EnvelopePhase::Sustain => l,
            EnvelopePhase::Release => if self.release == 0 {
                l
            } else {
                (self.release - e) * l / (self.release as int)
            },
            EnvelopePhase::Finished => 0,
        }
    }

    /// Sustain ends, and release begins, once the sustain limit is reached.
    pub open spec fn held(self) -> EnvelopeState {
        match self.max_sustain {
            Some(m) => if self.phase == EnvelopePhase::Sustain && self.elapsed >= m {
                EnvelopeState { phase: EnvelopePhase::Release, elapsed: 0, ..self }
            } else {
                self
            },
            None => self,
        }
    }

    /// The state after one step: the sustain limit is checked, the sample
    /// count grows by one, and a phase whose budget is used up hands over to
    /// the next with a count of zero.
    pub open spec fn advanced(self) -> EnvelopeState {
        let h = self.held();
        let e = next_count(h.elapsed);
        if h.phase == EnvelopePhase::Attack && e >= h.attack {
            EnvelopeState { phase: EnvelopePhase::Decay, elapsed: 0, ..h }
        } else if h.phase == EnvelopePhase::Decay && e >= h.decay {
            EnvelopeState { phase: EnvelopePhase::Sustain, elapsed: 0, ..h }
        } else if h.phase == EnvelopePhase::Release && e >= h.release {
            EnvelopeState { phase: EnvelopePhase::Finished, elapsed: 0, ..h }
        } else {
            EnvelopeState { elapsed: e, ..h }
        }
    }

    /// The state after `n` steps.
    pub open spec fn steps(self, n: nat) -> EnvelopeState
        decreases n,
    {
        if n == 0 {
            self
        } else {
            self.steps((n - 1) as nat).advanced()
        }
    }

    /// The state after a note-off: release starts over from any phase.
    pub open spec fn released(self) -> EnvelopeState {
        EnvelopeState { phase: EnvelopePhase::Release, elapsed: 0, ..self }
    }
}

/// An ADSR amplitude envelope, stepped once per sample.
#[derive(Debug)]
pub struct Envelope {
    attack_samples: u32,
    decay_samples: u32,
    sustain_level: u32,
    release_samples: u32,
    current_phase: EnvelopePhase,
    samples_in_phase: u32,
    max_sustain_samples: Option<u32>,
}

impl View for Envelope {
    type V = EnvelopeState;

    closed spec fn view(&self) -> EnvelopeState {
        EnvelopeState {
            attack: self.attack_samples,
            decay: self.decay_samples,
            level: self.sustain_level,
            release: self.release_samples,
            max_sustain: self.max_sustain_samples,
            phase: self.current_phase,
            elapsed: self.samples_in_phase,
        }
    }
}

impl Envelope {
    /// An envelope at the start of its attack, with no sustain limit.
    pub fn new(attack_samples: u32, decay_samples: u32, sustain_level: u32, release_samples: u32) -> (r: Self)
        requires
            sustain_level <= FULL_SCALE,
        ensures
            r@ == (EnvelopeState {
                attack: attack_samples,
                decay: decay_samples,
                level: sustain_level,
                release: release_samples,
                max_sustain: None,
                phase: EnvelopePhase::Attack,
                elapsed: 0,
            }),
            r@.wf(),
    {
        Envelope {
            attack_samples,
            decay_samples,
            sustain_level,
            release_samples,
            current_phase: EnvelopePhase::Attack,
            samples_in_phase: 0,
            max_sustain_samples: None,
        }
    }

    /// Yields the amplitude for this sample and steps the envelope.
    pub fn next_amplitude(&mut self) -> (r: u32)
        requires
            old(self)@.wf(),
        ensures
            r as int == old(self)@.amplitude(),
            r <= FULL_SCALE,
            final(self)@ == old(self)@.advanced(),
            final(self)@.wf(),
    {
        let full: u64 = FULL_SCALE as u64;
        let e: u64 = self.samples_in_phase as u64;
        let l: u64 = self.sustain_level as u64;
        let amplitude: u32 = match self.current_phase {
            EnvelopePhase::Attack => {
                if self.attack_samples == 0 {
                    0
                } else {
                    let a: u64 = self.attack_samples as u64;
                    proof { lemma_ramp_bounds(e as int, full as int, a as int); }
                    (e * full / a) as u32
                }
            },
            EnvelopePhase::Decay => {
                if self.decay_samples == 0 {
                    FULL_SCALE
                } else {
                    let d: u64 = self.decay_samples as u64;
                    proof { lemma_ramp_bounds(e as int, (full - l) as int, d as int); }
                    (full - e * (full - l) / d) as u32
                }
            },
            EnvelopePhase::Sustain => {
                if let Some(max_sustain) = self.max_sustain_samples {
                    if self.samples_in_phase >= max_sustain {
                        self.current_phase = EnvelopePhase::Release;
                        self.samples_in_phase = 0;
                    }
                }
                self.sustain_level
            },
            EnvelopePhase::Release => {
                if self.release_samples == 0 {
                    self.sustain_level
                } else {
                    let r: u64 = self.release_samples as u64;
                    proof { lemma_ramp_bounds((r - e) as int, l as int, r as int); }
                    ((r - e) * l / r) as u32
                }
            },
            EnvelopePhase::Finished => 0,
        };

        if self.samples_in_phase < u32::MAX {
            self.samples_in_phase = self.samples_in_phase + 1;
        }

        if self.current_phase == EnvelopePhase::Attack && self.samples_in_phase >= self.attack_samples {
            self.current_phase = EnvelopePhase::Decay;
            self.samples_in_phase = 0;
        } else if self.current_phase == EnvelopePhase::Decay && self.samples_in_phase >= self.decay_samples {
            self.current_phase = EnvelopePhase::Sustain;
            self.samples_in_phase = 0;
        } else if self.current_phase == EnvelopePhase::Release && self.samples_in_phase >= self.release_samples {
            self.current_phase = EnvelopePhase::Finished;
            self.samples_in_phase = 0;
        }
        amplitude
    }

    /// Note-off: moves to the release phase from whatever phase it is in.
    pub fn release(&mut self)
        requires
            old(self)@.wf(),
        ensures
            final(self)@ == old(self)@.released(),
            final(self)@.wf(),
    {
        self.current_phase = EnvelopePhase::Release;
        self.samples_in_phase = 0;
    }

    /// Bounds the sustain phase to `samples` samples.
    pub fn set_max_sustain(&mut self, samples: u32)
        requires
            old(self)@.wf(),
        ensures
            final(self)@ == (EnvelopeState { max_sustain: Some(samples), ..old(self)@ }),
            final(self)@.wf(),
    {
        self.max_sustain_samples = Some(samples);
    }

    pub fn is_finished(&self) -> (r: bool)
        ensures
            r == (self@.phase == EnvelopePhase::Finished),
    {
        self.current_phase == EnvelopePhase::Finished
    }

    pub fn phase(&self) -> (r: EnvelopePhase)
        ensures
            r == self@.phase,
    {
        self.current_phase
    }

    pub fn samples_in_phase(&self) -> (r: u32)
        ensures
            r == self@.elapsed,
    {
        self.samples_in_phase
    }
}

/// The position of `phase` in the order Attack, Decay, Sustain, Release, Finished.
pub open spec fn phase_rank(phase: EnvelopePhase) -> int {
    match phase {
        EnvelopePhase::Attack => 0,
        EnvelopePhase::Decay => 1,
        EnvelopePhase::Sustain => 2,
        EnvelopePhase::Release => 3,
        EnvelopePhase::Finished => 4,
    }
}

/// Stepping never moves an envelope back to an earlier phase, and moves it
/// on by at most one phase, except that a sustain limit that is reached
/// can carry a zero-length release straight through to the end.
pub proof fn lemma_phase_never_regresses(s: EnvelopeState)
    ensures
        phase_rank(s.phase) <= phase_rank(s.advanced().phase),
        phase_rank(s.advanced().phase) <= phase_rank(s.phase) + 2,
        s.phase != EnvelopePhase::Sustain ==> phase_rank(s.advanced().phase) <= phase_rank(s.phase) + 1,
        s.phase == EnvelopePhase::Finished ==> s.advanced().phase == EnvelopePhase::Finished,
{
}

/// While releasing, each step counts one more sample of the release phase.
proof fn lemma_release_steps(s: EnvelopeState, k: nat)
    requires
        s.phase == EnvelopePhase::Release,
        s.elapsed == 0,
        k < s.release,
    ensures
        s.steps(k) == (EnvelopeState { elapsed: k as u32, ..s }),
    decreases k,
{
    if k > 0 {
        lemma_release_steps(s, (k - 1) as nat);
    }
}

/// A note-off during attack, decay or sustain moves to the release phase
/// with its sample count at 0. From there the amplitude falls linearly from
/// the sustain level: the call after `k` steps yields
/// `level * (release - k) / release`, and after `release` steps the
/// envelope is finished, so that the call numbered `release + 1` yields 0.
pub proof fn lemma_release_ramp(s: EnvelopeState, k: nat)
    requires
        s.wf(),
        s.phase == EnvelopePhase::Attack || s.phase == EnvelopePhase::Decay || s.phase == EnvelopePhase::Sustain,
        s.release > 0,
        k < s.release,
    ensures
        s.released().phase == EnvelopePhase::Release,
        s.released().elapsed == 0,
        s.released().wf(),
        s.released().steps(k).amplitude() == (s.release - k) * (s.level as int) / (s.release as int),
        s.released().steps(s.release as nat).phase == EnvelopePhase::Finished,
        s.released().steps(s.release as nat).amplitude() == 0,
{
    let r = s.released();
    lemma_release_steps(r, k);
    lemma_release_steps(r, (s.release - 1) as nat);
    assert(r.steps((s.release - 1) as nat).advanced() == r.steps(s.release as nat));
}

/// The envelope settings of an instrument, given as durations so that one
/// template serves any sample rate.
#[derive(Clone, Copy, Debug, PartialEq, Eq, Structural)]
pub struct EnvelopeBuilder {
    pub attack: Duration,
    pub decay: Duration,
    pub sustain_level: u32,
    pub release: Duration,
}

impl EnvelopeBuilder {
    /// All phases zero-length, sustain level zero.
    pub fn new() -> (r: Self)
        ensures
            r == (EnvelopeBuilder {
                attack: Duration::Millis(0),
                decay: Duration::Millis(0),
                sustain_level: 0,
                release: Duration::Millis(0),
            }),
    {
        EnvelopeBuilder {
            attack: Duration::Millis(0),
            decay: Duration::Millis(0),
            sustain_level: 0,
            release: Duration::Millis(0),
        }
    }

    pub fn attack(self, d: Duration) -> (r: Self)
        ensures
            r == (EnvelopeBuilder { attack: d, ..self }),
    {
        EnvelopeBuilder { attack: d, ..self }
    }

    pub fn decay(self, d: Duration) -> (r: Self)
        ensures
            r == (EnvelopeBuilder { decay: d, ..self }),
    {
        EnvelopeBuilder { decay: d, ..self }
    }

    pub fn sustain_level(self, level: u32) -> (r: Self)
        ensures
            r == (EnvelopeBuilder { sustain_level: level, ..self }),
    {
        EnvelopeBuilder { sustain_level: level, ..self }
    }

    pub fn release(self, d: Duration) -> (r: Self)
        ensures
            r == (EnvelopeBuilder { release: d, ..self }),
    {
        EnvelopeBuilder { release: d, ..self }
    }

    /// A fresh envelope with these settings at `sample_rate` Hz.
    pub fn build(&self, sample_rate: u32) -> (r: Envelope)
        requires
            self.sustain_level <= FULL_SCALE,
        ensures
            r@ == (EnvelopeState {
                attack: self.attack.spec_samples(sample_rate) as u32,
                decay: self.decay.spec_samples(sample_rate) as u32,
                level: self.sustain_level,
                release: self.release.spec_samples(sample_rate) as u32,
                max_sustain: None,
                phase: EnvelopePhase::Attack,
                elapsed: 0,
            }),
            r@.wf(),
    {
        Envelope::new(
            self.attack.to_samples(sample_rate),
            self.decay.to_samples(sample_rate),
            self.sustain_level,
            self.release.to_samples(sample_rate),
        )
    }
}

/// The envelope whose abstract state is `s`.
closed spec fn envelope_of(s: EnvelopeState) -> Envelope {
    Envelope {
        attack_samples: s.attack,
        decay_samples: s.decay,
        sustain_level: s.level,
        release_samples: s.release,
        current_phase: s.phase,
        samples_in_phase: s.elapsed,
        max_sustain_samples: s.max_sustain,
    }
}

/// `sample * gain`, with the gain in units of `FULL_SCALE`, truncated toward zero.
pub open spec fn apply_gain(sample: int, gain: int) -> int {
    if sample >= 0 {
        sample * gain / (FULL_SCALE as int)
    } else {
        -((-sample) * gain / (FULL_SCALE as int))
    }
}

/// A source shaped by an envelope; it is finished when its envelope is.
#[derive(Debug)]
pub struct EnvelopeSource<S: PlayableSource> {
    source: S,
    envelope: Envelope,
}

impl<S: PlayableSource> EnvelopeSource<S> {
    pub closed spec fn spec_source(&self) -> S {
        self.source
    }

    pub closed spec fn spec_envelope(&self) -> EnvelopeState {
        self.envelope@
    }

    /// The voice that `new` makes from a source and an envelope in state `envelope`.
    pub closed spec fn spec_new(source: S, envelope: EnvelopeState) -> Self {
        EnvelopeSource { source, envelope: envelope_of(envelope) }
    }

    pub fn new(source: S, envelope: Envelope) -> (r: Self)
        ensures
            r == Self::spec_new(source, envelope@),
            source.wf() && envelope@.wf() ==> r.wf(),
            r.spec_source() == source,
            r.spec_envelope() == envelope@,
    {
        EnvelopeSource { source, envelope }
    }
}

impl<S: PlayableSource> EnvelopeSource<S> {
    pub fn source(&self) -> (r: &S)
        ensures
            *r == self.spec_source(),
    {
        &self.source
    }

    pub fn envelope(&self) -> (r: &Envelope)
        ensures
            r@ == self.spec_envelope(),
    {
        &self.envelope
    }
}

impl<S: PlayableSource> PlayableSource for EnvelopeSource<S> {
    closed spec fn wf(&self) -> bool {
        self.source.wf() && self.envelope@.wf()
    }

    closed spec fn output(&self) -> int {
        apply_gain(self.source.output(), self.envelope@.amplitude())
    }

    closed spec fn stepped(&self) -> Self {
        EnvelopeSource {
            source: self.source.stepped(),
            envelope: envelope_of(self.envelope@.advanced()),
        }
    }

    closed spec fn finished(&self) -> bool {
        self.envelope@.phase == EnvelopePhase::Finished
    }

    closed spec fn released(&self) -> Self {
        EnvelopeSource { source: self.source, envelope: envelope_of(self.envelope@.released()) }
    }

    fn next_sample(&mut self) -> (r: i32) {
        let sample: i32 = self.source.next_sample();
        let gain: u32 = self.envelope.next_amplitude();
        let g: i64 = gain as i64;
        let full: i64 = FULL_SCALE as i64;
        if sample >= 0 {
            let s: i64 = sample as i64;
            proof { lemma_gain_bounds(s as int, g as int); }
            (s * g / full) as i32
        } else {
            let s: i64 = -(sample as i64);
            proof { lemma_gain_bounds(s as int, g as int); }
            (-(s * g / full)) as i32
        }
    }

    fn is_finished(&self) -> (r: bool) {
        self.envelope.is_finished()
    }

    fn release(&mut self) {
        self.envelope.release();
    }
}

/// A gain in `[0, FULL_SCALE]` keeps a magnitude within full scale.
proof fn lemma_gain_bounds(s: int, g: int)
    requires
        0 <= s <= FULL_SCALE,
        0 <= g <= FULL_SCALE,
    ensures
        0 <= s * g <= (FULL_SCALE as int) * (FULL_SCALE as int),
        0 <= s * g / (FULL_SCALE as int) <= FULL_SCALE,
{
    let f = FULL_SCALE as int;
    assert(0 <= s * g <= f * f) by (nonlinear_arith)
        requires
            0 <= s <= f,
            0 <= g <= f,
    ;
    assert(s * g / f <= f) by (nonlinear_arith)
        requires
            s * g <= f * f,
            0 < f,
    ;
    assert(0 <= s * g / f) by (nonlinear_arith)
        requires
            0 <= s * g,
            0 < f,
    ;
}

/// `x * scale / len` lies in `[0, scale]` when `x <= len`, and the product fits in 64 bits.
proof fn lemma_ramp_bounds(x: int, scale: int, len: int)
    requires
        0 <= x <= len,
        0 < len <= u32::MAX,
        0 <= scale <= u32::MAX,
    ensures
        x * scale <= u64::MAX,
        0 <= x * scale / len <= scale,
{
    assert(x * scale <= len * scale) by (nonlinear_arith)
        requires
            0 <= x <= len,
            0 <= scale,
    ;
    assert(len * scale <= u64::MAX) by (nonlinear_arith)
        requires
            0 < len <= u32::MAX,
            0 <= scale <= u32::MAX,
    ;
    assert(0 <= x * scale) by (nonlinear_arith)
        requires
            0 <= x,
            0 <= scale,
    ;
    assert(x * scale / len <= scale) by (nonlinear_arith)
        requires
            x * scale <= len * scale,
            0 < len,
    ;
    assert(0 <= x * scale / len) by (nonlinear_arith)
        requires
            0 <= x * scale,
            0 < len,
    ;
}

} // verus!
