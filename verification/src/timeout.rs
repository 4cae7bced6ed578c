//! The timeout that adapts to a server that keeps timing out.
//!
//! Each worker keeps one controller per target. It counts the timeouts in
//! a row; once there are many, it shortens the timeout of the attempts that
//! remain, so that a dead server does not cost the full timeout each time.

use crate::result::{is_timeout_text, TimeResult};
use vstd::prelude::*;

verus! {

/// Timeouts in a row after which the timeout is reduced.
pub const REDUCE_TIMEOUT_AFTER_CONSECUTIVE_FAILURES: u32 = 10;

/// The reduced timeout, in milliseconds.
pub const REDUCED_TIMEOUT_MS: u64 = 500;

/// Timeouts in a row after which the server is given up on.
pub const ABORT_AFTER_CONSECUTIVE_FAILURES: u32 = 15;

/// The timeout, in milliseconds, for a server that was given up on.
pub const MINIMAL_TIMEOUT_MS: u64 = 100;

/// What an attempt means to the controller.
#[derive(Clone, Copy, Debug, PartialEq, Eq, Structural)]
pub enum AttemptOutcome {
    /// The lookup succeeded.
    Success,
    /// The lookup failed because the server did not answer in time.
    Timeout,
    /// The lookup failed for another reason.
    OtherFailure,
}

/// What the result of an attempt means to the controller. A failure counts
/// as a timeout only if its text says so.
pub open spec fn outcome_of(result: TimeResult) -> AttemptOutcome {
    match result {
        TimeResult::Succeeded(_) => AttemptOutcome::Success,
        TimeResult::Failed(error) => if is_timeout_text(error@) {
            AttemptOutcome::Timeout
        } else {
            AttemptOutcome::OtherFailure
        },
    }
}

/// The timeout in force for the next attempt against one target, and the
/// number of timeouts in a row that led to it.
#[derive(Clone, Copy, Debug, PartialEq, Eq, Structural)]
pub struct AdaptiveTimeout {
    pub current_timeout_ms: u64,
    pub consecutive_timeout_failures: u32,
}

impl AdaptiveTimeout {
    /// The controller at the start of a target's attempts.
    pub open spec fn initial(base_timeout_ms: u64) -> AdaptiveTimeout {
        AdaptiveTimeout { current_timeout_ms: base_timeout_ms, consecutive_timeout_failures: 0 }
    }

    /// The controller after an attempt with the given outcome.
    ///
    /// A success or a failure that is no timeout ends the run of timeouts
    /// and leaves the timeout as it is. A timeout lengthens the run; from
    /// the tenth in a row a timeout above the reduced one is reduced, and
    /// from the fifteenth the timeout is the minimal one.
    pub open spec fn after(self, outcome: AttemptOutcome) -> AdaptiveTimeout {
        match outcome {
            AttemptOutcome::Timeout => {
                let failures = self.consecutive_timeout_failures + 1;
                AdaptiveTimeout {
                    current_timeout_ms: if failures >= ABORT_AFTER_CONSECUTIVE_FAILURES {
                        MINIMAL_TIMEOUT_MS
                    } else if failures >= REDUCE_TIMEOUT_AFTER_CONSECUTIVE_FAILURES
                        && self.current_timeout_ms > REDUCED_TIMEOUT_MS {
                        REDUCED_TIMEOUT_MS
                    } else {
                        self.current_timeout_ms
                    },
                    consecutive_timeout_failures: failures as u32,
                }
            },
            _ => AdaptiveTimeout {
                current_timeout_ms: self.current_timeout_ms,
                consecutive_timeout_failures: 0,
            },
        }
    }

    /// The controller after attempts with the given outcomes, in order.
    pub open spec fn after_all(self, outcomes: Seq<AttemptOutcome>) -> AdaptiveTimeout
        decreases outcomes.len(),
    {
        if outcomes.len() == 0 {
            self
        } else {
            self.after_all(outcomes.drop_last()).after(outcomes.last())
        }
    }

    /// The controller at the start of a target's attempts: the configured
    /// timeout, and no timeouts yet.
    pub fn new(base_timeout_ms: u64) -> (t: AdaptiveTimeout)
        ensures
            t == AdaptiveTimeout::initial(base_timeout_ms),
    {
        AdaptiveTimeout { current_timeout_ms: base_timeout_ms, consecutive_timeout_failures: 0 }
    }

    /// The timeout for the next attempt, in milliseconds.
    pub fn current_timeout_ms(&self) -> (ms: u64)
        ensures
            ms == self.current_timeout_ms,
    {
        self.current_timeout_ms
    }

    /// Takes note of an attempt's outcome.
    pub fn record(&mut self, outcome: AttemptOutcome)
        requires
            old(self).consecutive_timeout_failures < u32::MAX,
        ensures
            *final(self) == old(self).after(outcome),
            outcome != AttemptOutcome::Timeout ==> final(self).consecutive_timeout_failures == 0
                && final(self).current_timeout_ms == old(self).current_timeout_ms,
            outcome == AttemptOutcome::Timeout ==> final(self).consecutive_timeout_failures
                == old(self).consecutive_timeout_failures + 1,
    {
        match outcome {
            AttemptOutcome::Timeout => {
                self.consecutive_timeout_failures += 1;
                if self.consecutive_timeout_failures >= REDUCE_TIMEOUT_AFTER_CONSECUTIVE_FAILURES
                    && self.current_timeout_ms > REDUCED_TIMEOUT_MS {
                    self.current_timeout_ms = REDUCED_TIMEOUT_MS;
                }
                if self.consecutive_timeout_failures >= ABORT_AFTER_CONSECUTIVE_FAILURES {
                    self.current_timeout_ms = MINIMAL_TIMEOUT_MS;
                }
            },
            _ => {
                self.consecutive_timeout_failures = 0;
            },
        }
    }

    /// Takes note of an attempt's result.
    pub fn observe(&mut self, result: &TimeResult)
        requires
            old(self).consecutive_timeout_failures < u32::MAX,
        ensures
            *final(self) == old(self).after(outcome_of(*result)),
    {
        self.record(classify(result));
    }
}

/// What the result of an attempt means to the controller.
pub fn classify(result: &TimeResult) -> (outcome: AttemptOutcome)
    ensures
        outcome == outcome_of(*result),
{
    match result {
        TimeResult::Succeeded(_) => AttemptOutcome::Success,
        TimeResult::Failed(_) => if result.is_timeout() {
            AttemptOutcome::Timeout
        } else {
            AttemptOutcome::OtherFailure
        },
    }
}

/// `count` timeouts and nothing else.
pub open spec fn timeouts(count: nat) -> Seq<AttemptOutcome> {
    Seq::new(count, |i: int| AttemptOutcome::Timeout)
}

/// Within one target's attempts the timeout never rises, whatever the
/// outcome of an attempt: it holds for every timeout of at least the
/// minimal one.
pub proof fn lemma_timeout_never_rises(t: AdaptiveTimeout, outcome: AttemptOutcome)
    requires
        t.current_timeout_ms >= MINIMAL_TIMEOUT_MS,
    ensures
        t.after(outcome).current_timeout_ms <= t.current_timeout_ms,
        t.after(outcome).current_timeout_ms >= MINIMAL_TIMEOUT_MS,
{
}

/// Over any attempts against one target the timeout never rises above the
/// configured one, and each attempt's timeout is at most that of the
/// attempt before it.
pub proof fn lemma_timeout_monotonic(
    base_timeout_ms: u64,
    outcomes: Seq<AttemptOutcome>,
    earlier: int,
    later: int,
)
    requires
        base_timeout_ms >= MINIMAL_TIMEOUT_MS,
        0 <= earlier <= later <= outcomes.len(),
    ensures
        AdaptiveTimeout::initial(base_timeout_ms).after_all(
            outcomes.take(later),
        ).current_timeout_ms <= AdaptiveTimeout::initial(base_timeout_ms).after_all(
            outcomes.take(earlier),
        ).current_timeout_ms,
        AdaptiveTimeout::initial(base_timeout_ms).after_all(
            outcomes.take(earlier),
        ).current_timeout_ms <= base_timeout_ms,
        AdaptiveTimeout::initial(base_timeout_ms).after_all(
            outcomes.take(later),
        ).current_timeout_ms >= MINIMAL_TIMEOUT_MS,
    decreases later,
{
    let start = AdaptiveTimeout::initial(base_timeout_ms);
    if later == 0 {
        assert(outcomes.take(0).len() == 0);
    } else {
        assert(outcomes.take(later).drop_last() =~= outcomes.take(later - 1));
        if earlier == later {
            lemma_timeout_monotonic(base_timeout_ms, outcomes, earlier - 1, later - 1);
        } else {
            lemma_timeout_monotonic(base_timeout_ms, outcomes, earlier, later - 1);
        }
        lemma_timeout_never_rises(
            start.after_all(outcomes.take(later - 1)),
            outcomes.take(later).last(),
        );
    }
}

/// A success, or a failure that is no timeout, ends the run of timeouts
/// and does not bring back a timeout that was reduced.
pub proof fn lemma_reset_keeps_timeout(t: AdaptiveTimeout, outcome: AttemptOutcome)
    requires
        outcome != AttemptOutcome::Timeout,
    ensures
        t.after(outcome).consecutive_timeout_failures == 0,
        t.after(outcome).current_timeout_ms == t.current_timeout_ms,
{
}

/// After `count` timeouts in a row from the start, the timeout is the
/// configured one below ten, the reduced one (if the configured one was
/// above it) from ten to fourteen, and the minimal one from fifteen on.
pub proof fn lemma_consecutive_timeouts(base_timeout_ms: u64, count: nat)
    requires
        count <= u32::MAX,
    ensures
        AdaptiveTimeout::initial(base_timeout_ms).after_all(
            timeouts(count),
        ).consecutive_timeout_failures == count,
        AdaptiveTimeout::initial(base_timeout_ms).after_all(timeouts(count)).current_timeout_ms
            == (if count >= ABORT_AFTER_CONSECUTIVE_FAILURES {
            MINIMAL_TIMEOUT_MS
        } else if count >= REDUCE_TIMEOUT_AFTER_CONSECUTIVE_FAILURES && base_timeout_ms
            > REDUCED_TIMEOUT_MS {
            REDUCED_TIMEOUT_MS
        } else {
            base_timeout_ms
        }),
    decreases count,
{
    if count > 0 {
        lemma_consecutive_timeouts(base_timeout_ms, (count - 1) as nat);
        assert(timeouts(count).drop_last() =~= timeouts((count - 1) as nat));
    }
}

} // verus!
