//! The sampler: a probability, a skip count, and the trials that use them up.
//!
//! A source of variates stands for the random number generator. It is called
//! with the sampler's probability `p` and is expected to answer with the
//! pattern of `floor(ln(x) / ln(1 - p))` for a fresh `x`, uniform in `[0, 1)`:
//! a geometric variate, the number of failures before the next success. The
//! sampler calls it only when a skip count has run out and `p` is neither
//! zero nor one.

use vstd::prelude::*;
use crate::binary64::{
    count_of,
    denotes_one,
    denotes_probability,
    denotes_zero,
    is_one,
    is_zero,
    to_count,
};

verus! {

/// What a sampler holds, as the contracts see it.
pub struct SamplerState {
    /// The pattern of the probability with which an event is sampled.
    pub probability: u64,
    /// How many coming single trials are certain to be rejected.
    pub skip_count: u32,
}

impl SamplerState {
    /// No event is ever sampled.
    pub open spec fn never(self) -> bool {
        denotes_zero(self.probability)
    }

    /// Every event is sampled.
    pub open spec fn always(self) -> bool {
        denotes_one(self.probability)
    }

    /// A fresh skip count has to be drawn from the source.
    pub open spec fn draws(self) -> bool {
        !self.never() && !self.always()
    }

    /// The probability lies in the unit interval, and where it is one
    /// nothing is skipped.
    pub open spec fn wf(self) -> bool {
        &&& denotes_probability(self.probability)
        &&& self.always() ==> self.skip_count == 0
    }

    /// The state with a fresh skip count: the largest count where nothing is
    /// ever sampled, none where everything is, and else the count that the
    /// variate stands for.
    pub open spec fn refreshed(self, variate: u64) -> SamplerState {
        SamplerState {
            probability: self.probability,
            skip_count: if self.never() {
                u32::MAX
            } else if self.always() {
                0
            } else {
                count_of(variate)
            },
        }
    }

    /// The state of a new sampler for `probability` whose first skip count
    /// comes from `variate`.
    pub open spec fn initial(probability: u64, variate: u64) -> SamplerState {
        (SamplerState { probability, skip_count: 0 }).refreshed(variate)
    }

    /// A trial of `n` units uses up the skip count.
    pub open spec fn exhausted_by(self, n: u32) -> bool {
        n >= self.skip_count
    }

    /// A single trial calls the source.
    pub open spec fn trial_draws(self) -> bool {
        self.skip_count == 0 && self.draws()
    }

    /// A single trial samples its event.
    pub open spec fn trial_samples(self) -> bool {
        self.skip_count == 0 && !self.never()
    }

    /// The state after a single trial that is offered `variate`.
    pub open spec fn after_trial(self, variate: u64) -> SamplerState {
        if self.skip_count > 0 {
            SamplerState {
                probability: self.probability,
                skip_count: (self.skip_count - 1) as u32,
            }
        } else {
            self.refreshed(variate)
        }
    }

    /// A trial of `n` units calls the source.
    pub open spec fn multi_trial_draws(self, n: u32) -> bool {
        self.exhausted_by(n) && self.draws()
    }

    /// A trial of `n` units samples its event.
    pub open spec fn multi_trial_samples(self, n: u32) -> bool {
        self.exhausted_by(n) && !self.never()
    }

    /// The state after a trial of `n` units that is offered `variate`.
    pub open spec fn after_multi_trial(self, n: u32, variate: u64) -> SamplerState {
        if self.exhausted_by(n) {
            self.refreshed(variate)
        } else {
            SamplerState {
                probability: self.probability,
                skip_count: (self.skip_count - n) as u32,
            }
        }
    }
}

/// Fast Bernoulli sampling: each event has the same probability of being
/// sampled, and most trials cost one decrement.
#[derive(Debug, Clone, Copy)]
pub struct FastBernoulli {
    probability: u64,
    skip_count: u32,
}

impl View for FastBernoulli {
    type V = SamplerState;

    closed spec fn view(&self) -> SamplerState {
        SamplerState { probability: self.probability, skip_count: self.skip_count }
    }
}

impl FastBernoulli {
    /// A sampler for the probability whose binary64 pattern is given, with
    /// its first skip count already drawn.
    pub fn new<F: FnOnce(u64) -> u64>(probability: u64, source: F) -> (sampler: Self)
        requires
            denotes_probability(probability),
            !denotes_zero(probability) && !denotes_one(probability) ==> source.requires(
                (probability,),
            ),
        ensures
            sampler@.wf(),
            sampler@.probability == probability,
            exists|variate: u64|
                sampler@ == #[trigger] SamplerState::initial(probability, variate) && (
                sampler@.draws() ==> source.ensures((probability,), variate)),
    {
        let mut sampler = FastBernoulli { probability, skip_count: 0 };
        let ghost blank = sampler@;
        sampler.reset_skip_count(source);
        proof {
            let variate = choose|variate: u64|
                sampler@ == #[trigger] blank.refreshed(variate) && (blank.draws()
                    ==> source.ensures((probability,), variate));
            assert(sampler@ == SamplerState::initial(probability, variate));
        }
        sampler
    }

    /// Replaces the skip count by a fresh one.
    fn reset_skip_count<F: FnOnce(u64) -> u64>(&mut self, source: F)
        requires
            old(self)@.draws() ==> source.requires((old(self)@.probability,)),
        ensures
            denotes_probability(old(self)@.probability) ==> final(self)@.wf(),
            exists|variate: u64|
                final(self)@ == #[trigger] old(self)@.refreshed(variate) && (old(self)@.draws()
                    ==> source.ensures((old(self)@.probability,), variate)),
    {
        if is_zero(self.probability) {
            self.skip_count = u32::MAX;
            proof {
                crate::binary64::lemma_zero_is_not_one(self.probability);
                assert(self@ == old(self)@.refreshed(0));
            }
        } else if is_one(self.probability) {
            self.skip_count = 0;
            proof {
                assert(self@ == old(self)@.refreshed(0));
            }
        } else {
            let variate: u64 = source(self.probability);
            self.skip_count = to_count(variate);
            proof {
                assert(self@ == old(self)@.refreshed(variate));
            }
        }
    }

    /// One Bernoulli trial: whether this event is sampled.
    ///
    /// While the skip count lasts, the event is rejected and the count goes
    /// down by one. Once it is used up, a fresh count is drawn and the event
    /// is sampled, unless the probability is zero.
    pub fn trial<F: FnOnce(u64) -> u64>(&mut self, source: F) -> (sampled: bool)
        requires
            old(self)@.trial_draws() ==> source.requires((old(self)@.probability,)),
        ensures
            sampled == old(self)@.trial_samples(),
            old(self)@.wf() ==> final(self)@.wf(),
            exists|variate: u64|
                final(self)@ == #[trigger] old(self)@.after_trial(variate) && (
                old(self)@.trial_draws() ==> source.ensures((old(self)@.probability,), variate)),
    {
        if self.skip_count > 0 {
            self.skip_count -= 1;
            proof {
                assert(self@ == old(self)@.after_trial(0));
            }
            return false;
        }
        self.reset_skip_count(source);
        proof {
            let variate = choose|variate: u64|
                self@ == #[trigger] old(self)@.refreshed(variate) && (old(self)@.draws()
                    ==> source.ensures((old(self)@.probability,), variate));
            assert(self@ == old(self)@.after_trial(variate));
        }
        !is_zero(self.probability)
    }

    /// `n` Bernoulli trials at once: whether an event of `n` units is
    /// sampled.
    ///
    /// An event smaller than the skip count is rejected and takes its size
    /// off the count. Any other uses the count up: a fresh one is drawn and
    /// the event is sampled, unless the probability is zero.
    pub fn multi_trial<F: FnOnce(u64) -> u64>(&mut self, n: u32, source: F) -> (sampled: bool)
        requires
            old(self)@.multi_trial_draws(n) ==> source.requires((old(self)@.probability,)),
        ensures
            sampled == old(self)@.multi_trial_samples(n),
            old(self)@.wf() ==> final(self)@.wf(),
            exists|variate: u64|
                final(self)@ == #[trigger] old(self)@.after_multi_trial(n, variate) && (
                old(self)@.multi_trial_draws(n) ==> source.ensures(
                    (old(self)@.probability,),
                    variate,
                )),
    {
        if n < self.skip_count {
            self.skip_count -= n;
            proof {
                assert(self@ == old(self)@.after_multi_trial(n, 0));
            }
            return false;
        }
        self.reset_skip_count(source);
        proof {
            let variate = choose|variate: u64|
                self@ == #[trigger] old(self)@.refreshed(variate) && (old(self)@.draws()
                    ==> source.ensures((old(self)@.probability,), variate));
            assert(self@ == old(self)@.after_multi_trial(n, variate));
        }
        !is_zero(self.probability)
    }

    /// The pattern of the probability with which events are sampled, as it
    /// was given to `new`.
    pub fn probability(&self) -> (bits: u64)
        ensures
            bits == self@.probability,
    {
        self.probability
    }

    /// How many coming single trials are certain to be rejected. Where the
    /// probability is zero the true number has no end, and this one is only
    /// the largest that fits.
    pub fn skip_count(&self) -> (count: u32)
        ensures
            count == self@.skip_count,
    {
        self.skip_count
    }
}

} // verus!
