//! What holds of every run of trials, whatever the source answers.
//!
//! A run is a number of single trials, one after the other. The variates
//! come from a stream: a trial that draws takes the next one, a trial that
//! does not leaves the stream alone.

use vstd::prelude::*;
use crate::sampler::SamplerState;

verus! {

/// Where a run of single trials has come to.
pub struct Run {
    /// The sampler's state.
    pub state: SamplerState,
    /// How many variates the run has taken from the stream.
    pub used: nat,
}

/// The run of `count` single trials from `start` over the stream `variates`.
pub open spec fn run_trials(start: SamplerState, variates: spec_fn(nat) -> u64, count: nat) -> Run
    decreases count,
{
    if count == 0 {
        Run { state: start, used: 0 }
    } else {
        let before = run_trials(start, variates, (count - 1) as nat);
        Run {
            state: before.state.after_trial(variates(before.used)),
            used: if before.state.trial_draws() {
                before.used + 1
            } else {
                before.used
            },
        }
    }
}

/// Whether the trial that follows `index` earlier ones samples its event.
pub open spec fn sampled_at(start: SamplerState, variates: spec_fn(nat) -> u64, index: nat) -> bool {
    run_trials(start, variates, index).state.trial_samples()
}

/// Trials change the skip count and nothing else, and a well-formed sampler
/// stays well-formed.
pub proof fn lemma_run_keeps_probability(
    start: SamplerState,
    variates: spec_fn(nat) -> u64,
    count: nat,
)
    ensures
        run_trials(start, variates, count).state.probability == start.probability,
        start.wf() ==> run_trials(start, variates, count).state.wf(),
    decreases count,
{
    if count > 0 {
        lemma_run_keeps_probability(start, variates, (count - 1) as nat);
        crate::binary64::lemma_zero_is_not_one(start.probability);
    }
}

/// With probability zero, no trial ever samples.
pub proof fn lemma_zero_never_samples(
    start: SamplerState,
    variates: spec_fn(nat) -> u64,
    index: nat,
)
    requires
        start.never(),
    ensures
        !sampled_at(start, variates, index),
{
    lemma_run_keeps_probability(start, variates, index);
}

/// With probability one, every trial samples, and it finds the skip count at
/// zero.
pub proof fn lemma_one_always_samples(
    start: SamplerState,
    variates: spec_fn(nat) -> u64,
    index: nat,
)
    requires
        start.wf(),
        start.always(),
    ensures
        run_trials(start, variates, index).state.skip_count == 0,
        sampled_at(start, variates, index),
{
    lemma_run_keeps_probability(start, variates, index);
    crate::binary64::lemma_zero_is_not_one(start.probability);
}

/// While the skip count lasts, each trial takes one off it and draws
/// nothing.
pub proof fn lemma_run_counts_down(
    start: SamplerState,
    variates: spec_fn(nat) -> u64,
    count: nat,
)
    requires
        count <= start.skip_count,
    ensures
        run_trials(start, variates, count) == (Run {
            state: SamplerState {
                probability: start.probability,
                skip_count: (start.skip_count - count) as u32,
            },
            used: 0,
        }),
    decreases count,
{
    if count > 0 {
        lemma_run_counts_down(start, variates, (count - 1) as nat);
    }
}

/// Where the probability is not zero, the next `skip_count` trials are
/// rejected and the one after them samples: a sample comes within
/// `skip_count + 1` trials.
pub proof fn lemma_samples_after_skip_count(start: SamplerState, variates: spec_fn(nat) -> u64)
    requires
        !start.never(),
    ensures
        forall|index: nat|
            index < start.skip_count ==> !#[trigger] sampled_at(start, variates, index),
        sampled_at(start, variates, start.skip_count as nat),
{
    assert forall|index: nat| index < start.skip_count implies !#[trigger] sampled_at(
        start,
        variates,
        index,
    ) by {
        lemma_run_counts_down(start, variates, index);
    }
    lemma_run_counts_down(start, variates, start.skip_count as nat);
}

/// A trial that samples leaves a skip count that has just been drawn, and
/// so does the making of a sampler.
pub proof fn lemma_sample_refreshes(start: SamplerState, variate: u64)
    requires
        start.trial_samples(),
    ensures
        start.after_trial(variate) == start.refreshed(variate),
        start.after_trial(variate) == SamplerState::initial(start.probability, variate),
        start.trial_draws() == start.draws(),
{
}

/// A trial of `n` units samples exactly when one of `n` single trials would,
/// unless `n` is the skip count itself: such an event uses the count up and
/// is sampled, while the `n` single trials would all be rejected.
pub proof fn lemma_multi_trial_is_any_of_trials(
    start: SamplerState,
    variates: spec_fn(nat) -> u64,
    n: u32,
)
    requires
        n != start.skip_count || start.never(),
    ensures
        start.multi_trial_samples(n) <==> exists|index: nat|
            index < n && #[trigger] sampled_at(start, variates, index),
{
    if start.never() {
        assert forall|index: nat| !#[trigger] sampled_at(start, variates, index) by {
            lemma_zero_never_samples(start, variates, index);
        }
    } else {
        lemma_samples_after_skip_count(start, variates);
    }
}

/// A trial of `n` units leaves the sampler as `n` single trials over the
/// same stream would, where it stays under the skip count or goes one
/// beyond it.
pub proof fn lemma_multi_trial_state_is_that_of_trials(
    start: SamplerState,
    variates: spec_fn(nat) -> u64,
    n: u32,
)
    requires
        n < start.skip_count || n == start.skip_count + 1,
    ensures
        start.after_multi_trial(n, variates(0)) == run_trials(start, variates, n as nat).state,
        start.multi_trial_draws(n) <==> run_trials(start, variates, n as nat).used == 1,
{
    if n < start.skip_count {
        lemma_run_counts_down(start, variates, n as nat);
    } else {
        lemma_run_counts_down(start, variates, start.skip_count as nat);
    }
}

/// A trial of one unit is a single trial, unless the skip count is one.
pub proof fn lemma_unit_multi_trial_is_trial(start: SamplerState, variate: u64)
    requires
        start.skip_count != 1,
    ensures
        start.multi_trial_samples(1) == start.trial_samples(),
        start.multi_trial_draws(1) == start.trial_draws(),
        start.after_multi_trial(1, variate) == start.after_trial(variate),
{
}

} // verus!
