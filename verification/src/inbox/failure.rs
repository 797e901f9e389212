//! Classified failure inputs and deterministic state reduction.

use crate::failure::FailureKind;
use crate::nonzero::NonZeroU32;
use vstd::prelude::*;

verus! {

/// Stable terminal category for a dead inbox receipt.
#[derive(Clone, Copy, Debug, PartialEq, Eq, Structural, Hash)]
#[non_exhaustive]
pub enum DeadReason {
    /// A non-retryable handler failure was recorded.
    Permanent,

    /// A retryable failure reached the configured recorded-failure limit.
    Exhausted,
}

/// The stable value of a terminal category.
pub open spec fn dead_reason_text(reason: DeadReason) -> Seq<char> {
    match reason {
        DeadReason::Permanent => "permanent"@,
        DeadReason::Exhausted => "exhausted"@,
    }
}

impl DeadReason {
    /// Returns the stable value intended for persistence and telemetry.
    pub fn as_str(self) -> (text: &'static str)
        ensures
            text@ == dead_reason_text(self),
    {
        match self {
            DeadReason::Permanent => "permanent",
            DeadReason::Exhausted => "exhausted",
        }
    }
}

/// Classified and safely summarized handler failure recorded after transaction rollback.
#[derive(Clone, Debug, PartialEq, Eq)]
pub struct InboxFailure {
    /// Explicit retry classification; providers never infer it from diagnostic text.
    pub kind: FailureKind,

    /// Caller-reviewed, bounded diagnostic summary.
    pub error: String,
}

/// Result of atomically recording one classified failure.
#[derive(Clone, Copy, Debug, PartialEq, Eq, Structural)]
#[non_exhaustive]
pub enum InboxFailureOutcome {
    /// The receipt remains eligible for a future delivery.
    Retry {
        /// Recorded failure count after this transition.
        attempts: u32,
    },

    /// The receipt became terminal.
    Dead {
        /// Recorded failure count after this transition.
        attempts: u32,

        /// Stable terminal category.
        reason: DeadReason,
    },

    /// Another transaction completed the receipt before this failure was recorded.
    CompletedDuplicate,
}

/// The durable state of one inbox receipt.
#[derive(Clone, Copy, Debug, PartialEq, Eq, Structural)]
pub enum ReceiptState {
    /// Observed, with no failure recorded yet.
    Pending,

    /// One or more retryable failures are recorded.
    Retrying {
        /// Recorded failures.
        attempts: u32,
    },

    /// Completed with its caller's business effects.
    Completed,

    /// Terminal.
    Dead {
        /// Recorded failures when the receipt became terminal.
        attempts: u32,

        /// Stable terminal category.
        reason: DeadReason,
    },
}

/// The failure count of an active receipt after one more failure, which never wraps.
pub open spec fn counted(state: ReceiptState) -> u32 {
    match state {
        ReceiptState::Retrying { attempts } => if attempts == u32::MAX {
            u32::MAX
        } else {
            (attempts + 1) as u32
        },
        _ => 1,
    }
}

/// Why one more failure makes an active receipt terminal, if it does.
pub open spec fn death(attempts: u32, kind: FailureKind, max_attempts: u32) -> Option<DeadReason> {
    match kind {
        FailureKind::Transient => if attempts >= max_attempts {
            Some(DeadReason::Exhausted)
        } else {
            None
        },
        _ => Some(DeadReason::Permanent),
    }
}

/// The state of a receipt after a classified failure is recorded. Completed and dead receipts are
/// immutable.
pub open spec fn after_failure(
    state: ReceiptState,
    kind: FailureKind,
    max_attempts: u32,
) -> ReceiptState {
    match state {
        ReceiptState::Completed | ReceiptState::Dead { .. } => state,
        _ => match death(counted(state), kind, max_attempts) {
            Some(reason) => ReceiptState::Dead { attempts: counted(state), reason },
            None => ReceiptState::Retrying { attempts: counted(state) },
        },
    }
}

/// What recording a failure reports: the state that the receipt is in afterwards.
pub open spec fn reported(state: ReceiptState) -> InboxFailureOutcome {
    match state {
        ReceiptState::Completed => InboxFailureOutcome::CompletedDuplicate,
        ReceiptState::Dead { attempts, reason } => InboxFailureOutcome::Dead { attempts, reason },
        ReceiptState::Retrying { attempts } => InboxFailureOutcome::Retry { attempts },
        ReceiptState::Pending => InboxFailureOutcome::Retry { attempts: 0 },
    }
}

/// Records one classified failure against a receipt: the new state, and what is reported of it.
pub fn reduce_failure(
    state: ReceiptState,
    kind: FailureKind,
    max_attempts: NonZeroU32,
) -> (reduced: (ReceiptState, InboxFailureOutcome))
    ensures
        reduced.0 == after_failure(state, kind, max_attempts@),
        reduced.1 == reported(reduced.0),
{
    match state {
        ReceiptState::Completed => (
            ReceiptState::Completed,
            InboxFailureOutcome::CompletedDuplicate,
        ),
        ReceiptState::Dead { attempts, reason } => (
            ReceiptState::Dead { attempts, reason },
            InboxFailureOutcome::Dead { attempts, reason },
        ),
        ReceiptState::Pending => reduce_active_failure(1, kind, max_attempts.get()),
        ReceiptState::Retrying { attempts } => {
            reduce_active_failure(attempts.saturating_add(1), kind, max_attempts.get())
        },
    }
}

fn reduce_active_failure(attempts: u32, kind: FailureKind, max_attempts: u32) -> (reduced: (
    ReceiptState,
    InboxFailureOutcome,
))
    ensures
        reduced.0 == (match death(attempts, kind, max_attempts) {
            Some(reason) => ReceiptState::Dead { attempts, reason },
            None => ReceiptState::Retrying { attempts },
        }),
        reduced.1 == reported(reduced.0),
{
    let reason = match kind {
        FailureKind::Transient => if attempts >= max_attempts {
            Some(DeadReason::Exhausted)
        } else {
            None
        },
        _ => Some(DeadReason::Permanent),
    };

    match reason {
        Some(reason) => (
            ReceiptState::Dead { attempts, reason },
            InboxFailureOutcome::Dead { attempts, reason },
        ),
        None => (
            ReceiptState::Retrying { attempts },
            InboxFailureOutcome::Retry { attempts },
        ),
    }
}

/// The state of a receipt after a row of recorded failures.
pub open spec fn after_failures(
    state: ReceiptState,
    kinds: Seq<FailureKind>,
    max_attempts: u32,
) -> ReceiptState
    decreases kinds.len(),
{
    if kinds.len() == 0 {
        state
    } else {
        after_failure(after_failures(state, kinds.drop_last(), max_attempts), kinds.last(), max_attempts)
    }
}

/// A completed or dead receipt stays as it is, whatever failures follow.
pub proof fn law_terminal_receipts_are_immutable(
    state: ReceiptState,
    kinds: Seq<FailureKind>,
    max_attempts: u32,
)
    requires
        state is Completed || state is Dead,
    ensures
        after_failures(state, kinds, max_attempts) == state,
    decreases kinds.len(),
{
    if kinds.len() > 0 {
        law_terminal_receipts_are_immutable(state, kinds.drop_last(), max_attempts);
    }
}

/// Retryable failures of a pending receipt are counted one by one, and exactly the one that
/// reaches the limit makes it dead.
pub proof fn law_retries_are_exhausted_at_the_limit(kinds: Seq<FailureKind>, max_attempts: u32)
    requires
        max_attempts > 0,
        forall|i: int| 0 <= i < kinds.len() ==> kinds[i] == FailureKind::Transient,
    ensures
        after_failures(ReceiptState::Pending, kinds, max_attempts) == if kinds.len() == 0 {
            ReceiptState::Pending
        } else if kinds.len() < max_attempts {
            ReceiptState::Retrying { attempts: kinds.len() as u32 }
        } else {
            ReceiptState::Dead { attempts: max_attempts, reason: DeadReason::Exhausted }
        },
    decreases kinds.len(),
{
    if kinds.len() > 0 {
        let before = kinds.drop_last();
        assert forall|i: int| 0 <= i < before.len() implies before[i]
            == FailureKind::Transient by {
            assert(before[i] == kinds[i]);
        }
        law_retries_are_exhausted_at_the_limit(before, max_attempts);
        assert(kinds.last() == FailureKind::Transient);
    }
}

/// A failure that is not retryable makes an active receipt dead at once.
pub proof fn law_permanent_failures_are_terminal(
    state: ReceiptState,
    kind: FailureKind,
    max_attempts: u32,
)
    requires
        state is Pending || state is Retrying,
        !(kind is Transient),
    ensures
        after_failure(state, kind, max_attempts) == (ReceiptState::Dead {
            attempts: counted(state),
            reason: DeadReason::Permanent,
        }),
{
}

/// The failures that are recorded of an active receipt.
pub open spec fn recorded_failures(state: ReceiptState) -> nat {
    match state {
        ReceiptState::Retrying { attempts } => attempts as nat,
        ReceiptState::Dead { attempts, .. } => attempts as nat,
        _ => 0,
    }
}

/// Every failure of an active receipt is counted once: the count goes up by one, and stays where
/// it cannot go further.
pub proof fn law_failures_are_counted_once(
    state: ReceiptState,
    kind: FailureKind,
    max_attempts: u32,
)
    requires
        state is Pending || state is Retrying,
    ensures
        recorded_failures(after_failure(state, kind, max_attempts)) == if recorded_failures(state)
            == u32::MAX {
            u32::MAX as nat
        } else {
            recorded_failures(state) + 1
        },
{
}

/// A retryable failure keeps an active receipt eligible exactly while the failures recorded, this
/// one among them, are fewer than the limit; the one that reaches it makes the receipt dead, and
/// says so.
pub proof fn law_retryable_failures_die_only_at_the_limit(
    state: ReceiptState,
    kind: FailureKind,
    max_attempts: u32,
)
    requires
        state is Pending || state is Retrying,
    ensures
        ({
            let after = after_failure(state, kind, max_attempts);
            &&& after is Retrying <==> kind is Transient && recorded_failures(after) < max_attempts
            &&& after is Retrying || after is Dead
            &&& after matches ReceiptState::Dead { reason, .. } ==> (reason is Exhausted
                <==> kind is Transient)
        }),
{
}

/// What is reported of a recorded failure is the state that the receipt is in afterwards: eligible
/// with its count, dead with its count and reason, or completed by another transaction.
pub proof fn law_reports_tell_the_state(
    state: ReceiptState,
    kind: FailureKind,
    max_attempts: u32,
)
    ensures
        ({
            let after = after_failure(state, kind, max_attempts);
            match reported(after) {
                InboxFailureOutcome::Retry { attempts } => after == (ReceiptState::Retrying {
                    attempts,
                }),
                InboxFailureOutcome::Dead { attempts, reason } => after == (ReceiptState::Dead {
                    attempts,
                    reason,
                }),
                InboxFailureOutcome::CompletedDuplicate => after is Completed && state
                    is Completed,
            }
        }),
{
}

/// No two terminal categories have the same value.
pub proof fn law_dead_reasons_render_apart(left: DeadReason, right: DeadReason)
    ensures
        dead_reason_text(left) == dead_reason_text(right) <==> left == right,
{
    reveal_strlit("permanent");
    reveal_strlit("exhausted");

    let l = dead_reason_text(left);
    let r = dead_reason_text(right);
    assert(left != right ==> l.len() != r.len() || l[0] != r[0]);
}

} // verus!
