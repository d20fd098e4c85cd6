use vstd::prelude::*;

use crate::FULL_SCALE;

verus! {

/// Something that yields one sample per call: a voice of the synthesizer.
///
/// A source is a deterministic state machine: `output` is the sample that
/// the next call yields and `stepped` the state it leaves behind.
pub trait PlayableSource: Sized {
    /// The source's internal invariant.
    spec fn wf(&self) -> bool;

    /// The sample that the next call of `next_sample` yields.
    spec fn output(&self) -> int;

    /// The state that the next call of `next_sample` leaves.
    spec fn stepped(&self) -> Self;

    /// Whether the source has fallen silent for good.
    spec fn finished(&self) -> bool;

    /// The state that `release` leaves.
    spec fn released(&self) -> Self;

    fn next_sample(&mut self) -> (r: i32)
        requires
            old(self).wf(),
        ensures
            r as int == old(self).output(),
            -(FULL_SCALE as int) <= r <= FULL_SCALE,
            *final(self) == old(self).stepped(),
            final(self).wf(),
    ;

    fn is_finished(&self) -> (r: bool)
        ensures
            r == self.finished(),
    ;

    fn release(&mut self)
        requires
            old(self).wf(),
        ensures
            *final(self) == old(self).released(),
            final(self).wf(),
    ;
}

/// What a capacity-bounded pool keeps of `voices`: all of them, or the
/// `k` most recently added when there are more than `k`.
pub open spec fn survivors<S>(voices: Seq<S>, capacity: Option<usize>) -> Seq<S> {
    match capacity {
        Some(k) => if voices.len() > k {
            voices.subrange(voices.len() - k, voices.len() as int)
        } else {
            voices
        },
        None => voices,
    }
}

/// The pool `voices` after each of `added` is added in turn.
pub open spec fn add_all<S>(voices: Seq<S>, added: Seq<S>, capacity: Option<usize>) -> Seq<S>
    decreases added.len(),
{
    if added.len() == 0 {
        voices
    } else {
        survivors(add_all(voices, added.drop_last(), capacity).push(added.last()), capacity)
    }
}

/// However many voices are added to a pool of capacity `k`, one at a time,
/// it never holds more than `k`, and those it holds are the `k` most
/// recently added (all of them while there are no more than `k`).
pub proof fn lemma_pool_keeps_newest<S>(voices: Seq<S>, added: Seq<S>, k: usize)
    requires
        0 < k,
        voices.len() <= k,
    ensures
        add_all(voices, added, Some(k)).len() <= k,
        add_all(voices, added, Some(k)) == survivors(voices + added, Some(k)),
    decreases added.len(),
{
    if added.len() > 0 {
        let rest = added.drop_last();
        lemma_pool_keeps_newest(voices, rest, k);
        let w = voices + rest;
        let x = added.last();
        assert(voices + added =~= w.push(x));
        let kept = survivors(w, Some(k));
        if w.len() > k {
            assert(survivors(kept.push(x), Some(k)) =~= survivors(w.push(x), Some(k)));
        } else {
            assert(kept == w);
        }
    }
}

/// The voices of `voices` that have not finished, in their order.
pub open spec fn unfinished<S: PlayableSource>(voices: Seq<S>) -> Seq<S> {
    voices.filter(|v: S| !v.finished())
}

/// Every voice of `voices` is consistent.
pub open spec fn all_wf<S: PlayableSource>(voices: Seq<S>) -> bool {
    forall|i: int| 0 <= i < voices.len() ==> (#[trigger] voices[i]).wf()
}

/// The sum of the samples that the next step of each voice yields.
pub open spec fn total_output<S: PlayableSource>(voices: Seq<S>) -> int
    decreases voices.len(),
{
    if voices.len() == 0 {
        0
    } else {
        total_output(voices.drop_last()) + voices.last().output()
    }
}

/// An ordered pool of voices, oldest first, with an optional capacity.
pub struct AudioSourceManager<S: PlayableSource> {
    sources: Vec<S>,
    max_sources: Option<usize>,
}

impl<S: PlayableSource> AudioSourceManager<S> {
    pub closed spec fn spec_sources(&self) -> Seq<S> {
        self.sources@
    }

    pub closed spec fn spec_capacity(&self) -> Option<usize> {
        self.max_sources
    }

    /// The capacity is positive and respected, and every voice is consistent.
    pub open spec fn wf(&self) -> bool {
        &&& match self.spec_capacity() {
            Some(k) => k > 0 && self.spec_sources().len() <= k,
            None => true,
        }
        &&& all_wf(self.spec_sources())
    }

    /// An empty pool holding at most `max_sources` voices, or any number for `None`.
    pub fn new(max_sources: Option<usize>) -> (r: Self)
        requires
            max_sources != Some(0usize),
        ensures
            r.spec_sources() == Seq::<S>::empty(),
            r.spec_capacity() == max_sources,
            r.wf(),
    {
        AudioSourceManager { sources: Vec::new(), max_sources }
    }

    pub fn sources(&self) -> (r: &Vec<S>)
        ensures
            r@ == self.spec_sources(),
    {
        &self.sources
    }

    pub fn len(&self) -> (r: usize)
        ensures
            r == self.spec_sources().len(),
    {
        self.sources.len()
    }

    /// Adds `source` as the newest voice, first evicting the oldest ones
    /// while the pool is full.
    pub fn add_source(&mut self, source: S)
        requires
            old(self).wf(),
            source.wf(),
        ensures
            final(self).spec_sources() == survivors(old(self).spec_sources().push(source), old(self).spec_capacity()),
            final(self).spec_capacity() == old(self).spec_capacity(),
            final(self).wf(),
    {
        self.check_max_sources();
        self.sources.push(source);
    }

    /// Evicts the oldest voices until one more fits.
    fn check_max_sources(&mut self)
        requires
            old(self).wf(),
        ensures
            final(self).sources@ == match old(self).max_sources {
                Some(k) => if old(self).sources@.len() >= k {
                    old(self).sources@.subrange(old(self).sources@.len() - (k - 1), old(self).sources@.len() as int)
                } else {
                    old(self).sources@
                },
                None => old(self).sources@,
            },
            final(self).max_sources == old(self).max_sources,
            final(self).wf(),
    {
        if let Some(max) = self.max_sources {
            if self.sources.len() >= max {
                let ghost orig = self.sources@;
                while self.sources.len() >= max
                    invariant
                        max > 0,
                        self.max_sources == Some(max),
                        orig.len() <= max,
                        max - 1 <= self.sources@.len() <= orig.len(),
                        self.sources@ == orig.subrange(orig.len() - self.sources@.len(), orig.len() as int),
                        all_wf(orig),
                    decreases self.sources.len(),
                {
                    self.sources.remove(0);
                }
                proof {
                    assert forall|i: int| 0 <= i < self.sources@.len() implies (#[trigger] self.sources@[i]).wf() by {
                        assert(self.sources@[i] == orig[orig.len() - self.sources@.len() + i]);
                    }
                }
            }
        }
    }

    /// Drops every finished voice, keeping the order of the rest.
    pub fn remove_finished(&mut self)
        requires
            old(self).wf(),
        ensures
            final(self).spec_sources() == unfinished(old(self).spec_sources()),
            final(self).spec_capacity() == old(self).spec_capacity(),
            final(self).wf(),
    {
        let ghost orig = self.sources@;
        let ghost keep = |v: S| !v.finished();
        let mut i: usize = 0;
        let ghost mut j: int = 0;
        while i < self.sources.len()
            invariant
                0 <= j <= orig.len(),
                self.max_sources == old(self).max_sources,
                orig == old(self).sources@,
                keep == (|v: S| !v.finished()),
                i == orig.subrange(0, j).filter(keep).len(),
                self.sources@ == orig.subrange(0, j).filter(keep) + orig.subrange(j, orig.len() as int),
                all_wf(self.sources@),
            decreases self.sources.len() - i,
        {
            let ghost prev = self.sources@;
            let ghost kept = orig.subrange(0, j).filter(keep);
            proof {
                assert(orig.subrange(0, j + 1) =~= orig.subrange(0, j).push(orig[j]));
                orig.subrange(0, j).lemma_filter_push(orig[j], keep);
                assert(self.sources@[i as int] == orig[j]);
            }
            if self.sources[i].is_finished() {
                self.sources.remove(i);
                proof {
                    assert(orig.subrange(0, j + 1).filter(keep) == kept);
                    assert(self.sources@ =~= kept + orig.subrange(j + 1, orig.len() as int));
                    assert forall|k: int| 0 <= k < self.sources@.len() implies (#[trigger] self.sources@[k]).wf() by {
                        if k < i {
                            assert(self.sources@[k] == prev[k]);
                        } else {
                            assert(self.sources@[k] == prev[k + 1]);
                        }
                    }
                }
            } else {
                i = i + 1;
                proof {
                    assert(orig.subrange(0, j + 1).filter(keep) == kept.push(orig[j]));
                    assert(self.sources@ =~= kept.push(orig[j]) + orig.subrange(j + 1, orig.len() as int));
                }
            }
            proof {
                j = j + 1;
            }
        }
        proof {
            assert(orig.subrange(0, j) =~= orig);
            assert(self.sources@ =~= orig.filter(keep));
        }
    }

    /// Steps every voice once, in order, and returns the sum of their samples.
    pub fn mix_samples(&mut self) -> (r: i128)
        requires
            old(self).wf(),
        ensures
            r == total_output(old(self).spec_sources()),
            final(self).spec_sources() == old(self).spec_sources().map_values(|v: S| v.stepped()),
            final(self).spec_capacity() == old(self).spec_capacity(),
            final(self).wf(),
            -(old(self).spec_sources().len() * FULL_SCALE) <= r <= old(self).spec_sources().len() * FULL_SCALE,
    {
        let ghost orig = self.sources@;
        let n: usize = self.sources.len();
        let mut sum: i128 = 0;
        let mut i: usize = 0;
        while i < n
            invariant
                i <= n,
                n == orig.len(),
                self.sources@.len() == n,
                self.max_sources == old(self).max_sources,
                orig == old(self).sources@,
                old(self).wf(),
                sum == total_output(orig.subrange(0, i as int)),
                -(i * FULL_SCALE) <= sum <= i * FULL_SCALE,
                forall|k: int| 0 <= k < i ==> #[trigger] self.sources@[k] == orig[k].stepped(),
                forall|k: int| i <= k < n ==> #[trigger] self.sources@[k] == orig[k],
                all_wf(self.sources@),
                all_wf(orig),
            decreases n - i,
        {
            assert(orig[i as int].wf());
            let x: i32 = self.sources[i].next_sample();
            proof {
                assert(orig.subrange(0, i + 1).drop_last() =~= orig.subrange(0, i as int));
                assert(orig.subrange(0, i + 1).last() == orig[i as int]);
                assert((i + 1) * FULL_SCALE == i * FULL_SCALE + FULL_SCALE) by (nonlinear_arith);
            }
            sum = sum + x as i128;
            i = i + 1;
        }
        proof {
            assert(orig.subrange(0, n as int) =~= orig);
            assert(self.sources@ =~= orig.map_values(|v: S| v.stepped()));
        }
        sum
    }
}

} // verus!
