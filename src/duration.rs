use vstd::prelude::*;

verus! {

/// A length of time, counted either in samples or in milliseconds.
#[derive(Clone, Copy, Debug, PartialEq, Eq, Structural)]
pub enum Duration {
    Samples(u32),
    Millis(u32),
}

impl Duration {
    /// The number of samples this duration lasts at `sample_rate` Hz: a
    /// millisecond count is scaled by the rate and truncated toward zero, and
    /// saturates at `u32::MAX`.
    pub open spec fn spec_samples(self, sample_rate: u32) -> nat {
        match self {
            Duration::Samples(s) => s as nat,
            Duration::Millis(ms) => {
                let n = (ms as nat * sample_rate as nat) / 1000;
                if n > u32::MAX as nat {
                    u32::MAX as nat
                } else {
                    n
                }
            },
        }
    }

    pub fn to_samples(&self, sample_rate: u32) -> (r: u32)
        ensures
            r as nat == self.spec_samples(sample_rate),
    {
        match self {
            Duration::Samples(s) => *s,
            Duration::Millis(ms) => {
                let a: u64 = *ms as u64;
                let b: u64 = sample_rate as u64;
                assert(a * b <= u64::MAX) by (nonlinear_arith)
                    requires
                        a <= u32::MAX,
                        b <= u32::MAX,
                ;
                let n: u64 = a * b / 1000;
                if n > u32::MAX as u64 {
                    u32::MAX
                } else {
                    n as u32
                }
            },
        }
    }
}

} // verus!
