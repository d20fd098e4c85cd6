use vstd::arithmetic::power2::pow2;
use vstd::prelude::*;

verus! {

/// The frequency, in microhertz, of each pitch class in the lowest MIDI
/// octave (C-1 up to B-1), in twelve-tone equal temperament with A4 = 440 Hz.
pub open spec fn lowest_octave(pitch_class: int) -> u64 {
    if pitch_class == 0 {
        8_175_799
    } else if pitch_class == 1 {
        8_661_957
    } else if pitch_class == 2 {
        9_177_024
    } else if pitch_class == 3 {
        9_722_718
    } else if pitch_class == 4 {
        10_300_861
    } else if pitch_class == 5 {
        10_913_382
    } else if pitch_class == 6 {
        11_562_326
    } else if pitch_class == 7 {
        12_249_857
    } else if pitch_class == 8 {
        12_978_272
    } else if pitch_class == 9 {
        13_750_000
    } else if pitch_class == 10 {
        14_567_618
    } else {
        15_433_853
    }
}

/// The frequency of MIDI note `midi` in microhertz: its pitch class in the
/// lowest octave, doubled once per octave above it.
pub open spec fn note_frequency(midi: u8) -> int {
    lowest_octave(midi as int % 12) * pow2((midi as int / 12) as nat)
}

/// A pitch, as a MIDI note number (60 is middle C, 69 is A4).
#[derive(Clone, Copy, Debug, PartialEq, Eq, Structural)]
pub struct Note {
    pub midi: u8,
}

fn lowest_octave_exec(pitch_class: u8) -> (r: u64)
    requires
        pitch_class < 12,
    ensures
        r == lowest_octave(pitch_class as int),
{
    match pitch_class {
        0 => 8_175_799,
        1 => 8_661_957,
        2 => 9_177_024,
        3 => 9_722_718,
        4 => 10_300_861,
        5 => 10_913_382,
        6 => 11_562_326,
        7 => 12_249_857,
        8 => 12_978_272,
        9 => 13_750_000,
        10 => 14_567_618,
        _ => 15_433_853,
    }
}

impl Note {
    /// The equal-tempered frequency of this note, in microhertz.
    pub fn to_frequency(&self) -> (r: u64)
        ensures
            r as int == note_frequency(self.midi),
    {
        let base: u64 = lowest_octave_exec(self.midi % 12);
        let octave: u8 = self.midi / 12;
        let mut r: u64 = base;
        let mut i: u8 = 0;
        proof {
            vstd::arithmetic::power2::lemma2_to64();
        }
        while i < octave
            invariant
                i <= octave,
                octave == self.midi / 12,
                octave <= 21,
                base <= 15_433_853,
                r as int == base * pow2(i as nat),
            decreases octave - i,
        {
            proof {
                lemma_pow2_le(i as nat);
                vstd::arithmetic::power2::lemma_pow2_unfold((i + 1) as nat);
                assert(base * pow2(i as nat) <= 15_433_853 * 0x10_0000) by (nonlinear_arith)
                    requires
                        base <= 15_433_853,
                        pow2(i as nat) <= 0x10_0000,
                ;
                assert(base * pow2((i + 1) as nat) == base * pow2(i as nat) * 2) by (nonlinear_arith)
                    requires
                        pow2((i + 1) as nat) == 2 * pow2(i as nat),
                ;
            }
            r = r * 2;
            i = i + 1;
        }
        r
    }
}

/// `2^i` stays within `2^21` for the octaves that a MIDI note reaches.
proof fn lemma_pow2_le(i: nat)
    requires
        i <= 20,
    ensures
        pow2(i) <= pow2(20),
        pow2(20) == 0x10_0000,
{
    if i < 20 {
        vstd::arithmetic::power2::lemma_pow2_strictly_increases(i, 20);
    }
    vstd::arithmetic::power2::lemma2_to64();
}

} // verus!
