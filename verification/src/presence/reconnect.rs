//! When to reconnect to Discord after failed updates.
//!
//! A failed update counts; once more failures have come in a row than the
//! threshold allows, the next failure asks for a reconnect and the count
//! starts again. A successful update leaves the count as it is.
use vstd::prelude::*;

verus! {

/// What follows an attempt to set the activity.
#[derive(PartialEq, Eq, Structural, Clone, Copy, Debug)]
pub enum UpdateOutcome {
    /// The activity was set.
    Updated,
    /// The activity was not set; the failure is counted.
    Failed,
    /// The activity was not set and the client must reconnect.
    Reconnect,
}

/// The threshold of the client's own presences: the third failure in a row
/// reconnects.
pub const CLIENT_RECONNECT_THRESHOLD: u8 = 1;

/// The threshold of the stand-alone dynamic presence: the fourth failure in
/// a row reconnects.
pub const DYNAMIC_RECONNECT_THRESHOLD: u8 = 2;

/// How long to wait between two attempts to reconnect, in milliseconds.
pub const RECONNECT_RETRY_MILLIS: u64 = 100;

/// The failure count after one attempt.
pub open spec fn next_failures(threshold: nat, failures: nat, ok: bool) -> nat {
    if ok {
        failures
    } else if failures > threshold {
        0
    } else {
        failures + 1
    }
}

/// What one attempt leads to.
pub open spec fn outcome_of(threshold: nat, failures: nat, ok: bool) -> UpdateOutcome {
    if ok {
        UpdateOutcome::Updated
    } else if failures > threshold {
        UpdateOutcome::Reconnect
    } else {
        UpdateOutcome::Failed
    }
}

/// The failure count after a run of attempts from a fresh count.
pub open spec fn failures_after(threshold: nat, results: Seq<bool>) -> nat
    decreases results.len(),
{
    if results.len() == 0 {
        0
    } else {
        next_failures(threshold, failures_after(threshold, results.drop_last()), results.last())
    }
}

/// How many attempts of a run failed.
pub open spec fn count_failures(results: Seq<bool>) -> nat
    decreases results.len(),
{
    if results.len() == 0 {
        0
    } else {
        count_failures(results.drop_last()) + if results.last() {
            0nat
        } else {
            1nat
        }
    }
}

/// Counts failed updates and decides when to reconnect.
pub struct UpdateTracker {
    failures: u8,
    threshold: u8,
}

impl UpdateTracker {
    #[verifier::type_invariant]
    spec fn counts_within_range(self) -> bool {
        self.threshold < u8::MAX && self.failures <= self.threshold + 1
    }

    /// The failures counted since the last reconnect.
    pub closed spec fn failure_count(self) -> nat {
        self.failures as nat
    }

    /// How many failures in a row are tolerated before a reconnect.
    pub closed spec fn limit(self) -> nat {
        self.threshold as nat
    }

    /// A tracker with no failure counted that asks for a reconnect at the
    /// failure that follows `threshold + 1` counted ones.
    pub fn new(threshold: u8) -> (res: Self)
        requires
            threshold < u8::MAX,
        ensures
            res.failure_count() == 0,
            res.limit() == threshold,
    {
        UpdateTracker { failures: 0, threshold }
    }

    /// The failures counted since the last reconnect.
    pub fn failures(&self) -> (res: u8)
        ensures
            res == self.failure_count(),
    {
        self.failures
    }

    /// Counts the result of one attempt to set the activity and says what
    /// follows it.
    pub fn record(&mut self, ok: bool) -> (res: UpdateOutcome)
        ensures
            res == outcome_of(old(self).limit(), old(self).failure_count(), ok),
            final(self).failure_count() == next_failures(
                old(self).limit(),
                old(self).failure_count(),
                ok,
            ),
            final(self).limit() == old(self).limit(),
    {
        proof {
            use_type_invariant(&*self);
        }
        if ok {
            UpdateOutcome::Updated
        } else if self.failures > self.threshold {
            self.failures = 0;
            UpdateOutcome::Reconnect
        } else {
            self.failures = self.failures + 1;
            UpdateOutcome::Failed
        }
    }
}

/// The failure count stays within the threshold plus one, whatever comes.
pub proof fn lemma_failures_bounded(threshold: nat, results: Seq<bool>)
    ensures
        failures_after(threshold, results) <= threshold + 1,
    decreases results.len(),
{
    if results.len() > 0 {
        lemma_failures_bounded(threshold, results.drop_last());
    }
}

/// After any run of attempts the count is the number of failures modulo
/// `threshold + 2`: successes never move it, and every `threshold + 2`-th
/// failure resets it.
pub proof fn lemma_failures_cycle(threshold: nat, results: Seq<bool>)
    ensures
        failures_after(threshold, results) == count_failures(results) % (threshold + 2),
    decreases results.len(),
{
    if results.len() > 0 {
        let prev = results.drop_last();
        lemma_failures_cycle(threshold, prev);
        lemma_failures_bounded(threshold, prev);
        let c = count_failures(prev);
        let m = threshold + 2;
        vstd::arithmetic::div_mod::lemma_mod_bound(c as int, m as int);
        if !results.last() {
            assert(count_failures(results) == c + 1);
            vstd::arithmetic::div_mod::lemma_add_mod_noop(c as int, 1, m as int);
            vstd::arithmetic::div_mod::lemma_small_mod(1, m as nat);
            if c % m + 1 < m {
                vstd::arithmetic::div_mod::lemma_small_mod((c % m + 1) as nat, m as nat);
            } else {
                vstd::arithmetic::div_mod::lemma_mod_self_0(m as int);
            }
        }
    } else {
        vstd::arithmetic::div_mod::lemma_small_mod(0, threshold + 2);
    }
}

/// A failed attempt asks for a reconnect exactly when it is the
/// `k * (threshold + 2)`-th failure of the run, for some `k >= 1`.
pub proof fn lemma_reconnect_every(threshold: nat, results: Seq<bool>)
    requires
        results.len() > 0,
        !results.last(),
    ensures
        (outcome_of(threshold, failures_after(threshold, results.drop_last()), false)
            == UpdateOutcome::Reconnect) <==> count_failures(results) % (threshold + 2) == 0,
{
    lemma_failures_cycle(threshold, results.drop_last());
    lemma_failures_cycle(threshold, results);
    lemma_failures_bounded(threshold, results.drop_last());
}

/// A successful attempt is always reported as updated and leaves the count
/// as it is; a failed one is never reported as updated, asks for a reconnect
/// exactly when more failures than the threshold are already counted, and
/// then starts the count again, else counts one more failure.
pub proof fn lemma_outcome_of_each_attempt(threshold: nat, failures: nat)
    ensures
        outcome_of(threshold, failures, true) == UpdateOutcome::Updated,
        next_failures(threshold, failures, true) == failures,
        outcome_of(threshold, failures, false) != UpdateOutcome::Updated,
        outcome_of(threshold, failures, false) == UpdateOutcome::Reconnect <==> failures
            > threshold,
        failures > threshold ==> next_failures(threshold, failures, false) == 0,
        failures <= threshold ==> next_failures(threshold, failures, false) == failures + 1,
{
}

} // verus!
