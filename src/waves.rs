use vstd::prelude::*;

use crate::audio_source::PlayableSource;
use crate::FULL_SCALE;

verus! {

/// The number of phase units in one waveform cycle.
pub const CYCLE: u64 = 0x1_0000_0000;

/// Half a cycle, in phase units.
pub const HALF_CYCLE: u32 = 0x8000_0000;

/// Frequencies are counted in millionths of a hertz.
pub const MICROHERTZ: u64 = 1_000_000;

#[derive(Clone, Copy, Debug, PartialEq, Eq, Structural)]
pub enum Waveform {
    Sine,
    Square,
    Sawtooth,
    Triangle,
}

/// Bhaskara's rational approximation of `sin(pi * x)` on one half cycle,
/// scaled to full scale: `16 x (1 - x) / (5 - 4 x (1 - x))` with
/// `x = h / 65536`.
pub open spec fn half_sine(h: int) -> int {
    let k = h * (65536 - h);
    (FULL_SCALE as int) * (16 * k) / (5 * 65536 * 65536 - 4 * k)
}

/// The value of `waveform` at `phase`: a sine (see `half_sine`); a square wave, high in the
/// first half cycle; a sawtooth rising from -1 to 1; a triangle rising from 0
/// to its peak at a quarter cycle, down to its trough at three quarters, and
/// back to 0. The phase is a fraction of the cycle in units of `1 / CYCLE`;
/// the value is in units of `1 / FULL_SCALE`.
pub open spec fn wave_value(waveform: Waveform, phase: u32) -> int {
    let full = FULL_SCALE as int;
    let p = phase as int;
    match waveform {
        Waveform::Sine => if p < HALF_CYCLE {
            half_sine(p / 32768)
        } else {
            -half_sine((p - HALF_CYCLE) / 32768)
        },
        Waveform::Square => if p < HALF_CYCLE {
            full
        } else {
            -full
        },
        Waveform::Sawtooth => p * full / (HALF_CYCLE as int) - full,
        Waveform::Triangle => {
            let q = p * full / 0x4000_0000;
            if p < 0x4000_0000 {
                q
            } else if p < 0xC000_0000 {
                2 * full - q
            } else {
                q - 4 * full
            }
        },
    }
}

/// The phase advance per sample of a tone of `frequency` microhertz at
/// `sample_rate` Hz, wrapped modulo one cycle.
pub open spec fn phase_step(frequency: u64, sample_rate: u32) -> int {
    (frequency * CYCLE) / (sample_rate * MICROHERTZ) % (CYCLE as int)
}

/// A phase-accumulator tone generator.
#[derive(Debug)]
pub struct Oscillator {
    step: u32,
    phase: u32,
    waveform: Waveform,
}

impl Oscillator {
    pub closed spec fn spec_step(&self) -> u32 {
        self.step
    }

    pub closed spec fn spec_phase(&self) -> u32 {
        self.phase
    }

    pub closed spec fn spec_waveform(&self) -> Waveform {
        self.waveform
    }

    /// The oscillator that `new` makes.
    pub closed spec fn spec_new(frequency: u64, sample_rate: u32, waveform: Waveform) -> Oscillator {
        Oscillator { step: phase_step(frequency, sample_rate) as u32, phase: 0, waveform }
    }

    /// An oscillator at phase zero sounding `frequency` microhertz.
    pub fn new(frequency: u64, sample_rate: u32, waveform: Waveform) -> (r: Self)
        requires
            sample_rate > 0,
        ensures
            r == Oscillator::spec_new(frequency, sample_rate, waveform),
            r.wf(),
            r.spec_phase() == 0,
            r.spec_step() as int == phase_step(frequency, sample_rate),
            r.spec_waveform() == waveform,
    {
        let num: u128 = (frequency as u128) * 0x1_0000_0000u128;
        let den: u128 = (sample_rate as u128) * 1_000_000u128;
        let step: u128 = (num / den) % (CYCLE as u128);
        Oscillator { step: step as u32, phase: 0, waveform }
    }

    pub fn step(&self) -> (r: u32)
        ensures
            r == self.spec_step(),
    {
        self.step
    }

    pub fn waveform(&self) -> (r: Waveform)
        ensures
            r == self.spec_waveform(),
    {
        self.waveform
    }

    pub fn phase(&self) -> (r: u32)
        ensures
            r == self.spec_phase(),
    {
        self.phase
    }

    fn advance_phase(&mut self)
        ensures
            final(self).spec_phase() as int == (old(self).phase + old(self).step) % (CYCLE as int),
            final(self).step == old(self).step,
            final(self).waveform == old(self).waveform,
    {
        self.phase = self.phase.wrapping_add(self.step);
    }
}

fn wave_at(waveform: Waveform, phase: u32) -> (r: i32)
    ensures
        r as int == wave_value(waveform, phase),
        -(FULL_SCALE as int) <= r <= FULL_SCALE,
{
    let full: i64 = FULL_SCALE as i64;
    let p: i64 = phase as i64;
    match waveform {
        Waveform::Sine => {
            let upper = phase < HALF_CYCLE;
            let h: i64 = if upper { p / 32768 } else { (p - HALF_CYCLE as i64) / 32768 };
            proof { lemma_half_sine_bounds(h as int); }
            let k: i64 = h * (65536 - h);
            let v: i64 = full * (16 * k) / (5 * 65536 * 65536 - 4 * k);
            if upper { v as i32 } else { (-v) as i32 }
        },
        Waveform::Square => {
            if phase < HALF_CYCLE { FULL_SCALE as i32 } else { -(FULL_SCALE as i32) }
        },
        Waveform::Sawtooth => {
            proof { lemma_scaled_phase(p as int, HALF_CYCLE as int, 2); }
            (p * full / (HALF_CYCLE as i64) - full) as i32
        },
        Waveform::Triangle => {
            proof { lemma_scaled_phase(p as int, 0x4000_0000, 4); }
            let q: i64 = p * full / 0x4000_0000;
            if phase < 0x4000_0000 {
                proof { lemma_scaled_phase(p as int, 0x4000_0000, 1); }
                q as i32
            } else if phase < 0xC000_0000 {
                proof {
                    lemma_scaled_phase_from(p as int, 0x4000_0000, 1);
                    lemma_scaled_phase(p as int, 0x4000_0000, 3);
                }
                (2 * full - q) as i32
            } else {
                proof { lemma_scaled_phase_from(p as int, 0x4000_0000, 3); }
                (q - 4 * full) as i32
            }
        },
    }
}

/// For `0 <= p < n * unit`, `p * FULL_SCALE / unit` lies in `[0, n * FULL_SCALE)`.
proof fn lemma_scaled_phase(p: int, unit: int, n: int)
    requires
        0 <= p < n * unit,
        0 < unit,
        0 < n,
    ensures
        0 <= p * (FULL_SCALE as int) / unit < n * (FULL_SCALE as int),
{
    let f = FULL_SCALE as int;
    assert(0 <= p * f) by (nonlinear_arith)
        requires
            0 <= p,
            0 <= f,
    ;
    assert(p * f < n * unit * f) by (nonlinear_arith)
        requires
            p < n * unit,
            0 < f,
    ;
    assert(p * f / unit < n * f) by (nonlinear_arith)
        requires
            p * f < n * unit * f,
            0 < unit,
    ;
    assert(0 <= p * f / unit) by (nonlinear_arith)
        requires
            0 <= p * f,
            0 < unit,
    ;
}

/// For `n * unit <= p`, `n * FULL_SCALE <= p * FULL_SCALE / unit`.
proof fn lemma_scaled_phase_from(p: int, unit: int, n: int)
    requires
        n * unit <= p,
        0 < unit,
        0 < n,
    ensures
        n * (FULL_SCALE as int) <= p * (FULL_SCALE as int) / unit,
{
    let f = FULL_SCALE as int;
    assert(n * f * unit <= p * f) by (nonlinear_arith)
        requires
            n * unit <= p,
            0 < f,
    ;
    assert(n * f <= p * f / unit) by (nonlinear_arith)
        requires
            n * f * unit <= p * f,
            0 < unit,
    ;
}

/// The approximation stays within `[0, FULL_SCALE]` over a half cycle, and
/// its intermediate values fit in 64 bits.
proof fn lemma_half_sine_bounds(h: int)
    requires
        0 <= h < 65536,
    ensures
        0 <= h * (65536 - h) <= 0x4000_0000,
        0 <= half_sine(h) <= FULL_SCALE,
{
    let k = h * (65536 - h);
    let f = FULL_SCALE as int;
    assert(0 <= k <= 0x4000_0000) by (nonlinear_arith)
        requires
            0 <= h < 65536,
            k == h * (65536 - h),
    ;
    let den = 5 * 65536 * 65536 - 4 * k;
    assert(16 * k <= den);
    assert(f * (16 * k) <= f * den) by (nonlinear_arith)
        requires
            16 * k <= den,
            0 <= f,
    ;
    assert(f * (16 * k) / den <= f) by (nonlinear_arith)
        requires
            f * (16 * k) <= f * den,
            0 < den,
    ;
    assert(0 <= f * (16 * k) / den) by (nonlinear_arith)
        requires
            0 <= k,
            0 <= f,
            0 < den,
    ;
}

/// A tone at a quarter of the sample rate advances a quarter cycle per
/// sample, for every waveform: after four samples the oscillator is back
/// at phase zero in the state it started from, so its output repeats with
/// period four.
pub proof fn lemma_quarter_rate_period(sample_rate: u32, waveform: Waveform)
    requires
        sample_rate > 0,
    ensures
        ({
            let o = Oscillator::spec_new((sample_rate * 250_000) as u64, sample_rate, waveform);
            &&& o.spec_step() == 0x4000_0000
            &&& o.stepped().spec_phase() == 0x4000_0000
            &&& o.stepped().stepped().spec_phase() == 0x8000_0000
            &&& o.stepped().stepped().stepped().spec_phase() == 0xC000_0000
            &&& o.stepped().stepped().stepped().stepped() == o
            &&& o.stepped().stepped().stepped().stepped().spec_phase() == 0
        }),
{
    let f = (sample_rate * 250_000) as u64;
    let den = sample_rate * MICROHERTZ;
    assert(f * CYCLE == 0x4000_0000 * den) by (nonlinear_arith)
        requires
            f == sample_rate * 250_000,
            den == sample_rate * 1_000_000,
    ;
    assert(den > 0) by (nonlinear_arith)
        requires
            sample_rate > 0,
            den == sample_rate * 1_000_000,
    ;
    vstd::arithmetic::div_mod::lemma_div_multiples_vanish(0x4000_0000, den);
    assert(phase_step(f, sample_rate) == 0x4000_0000);
}

impl PlayableSource for Oscillator {
    closed spec fn wf(&self) -> bool {
        true
    }

    closed spec fn output(&self) -> int {
        wave_value(self.waveform, self.phase)
    }

    closed spec fn stepped(&self) -> Self {
        Oscillator { phase: ((self.phase + self.step) % (CYCLE as int)) as u32, ..*self }
    }

    closed spec fn finished(&self) -> bool {
        false
    }

    closed spec fn released(&self) -> Self {
        *self
    }

    fn next_sample(&mut self) -> (r: i32) {
        let output = wave_at(self.waveform, self.phase);
        self.advance_phase();
        output
    }

    fn is_finished(&self) -> (r: bool) {
        false
    }

    fn release(&mut self) {
    }
}

} // verus!
