//! What delivery sources and settlements tell a consumer.

use crate::nonzero::NonZeroU64;
use std::time::Duration;
use vstd::prelude::*;

verus! {

/// What became of advancing a partition past a resolved record.
#[derive(Clone, Copy, Debug, PartialEq, Eq, Structural)]
pub enum PartitionAdvance {
    /// The partition's cursor is past the record.
    Advanced,

    /// The partition now belongs to another consumer.
    OwnershipLost,
}

/// What a partitioned-log source reports.
pub enum PartitionedLogReceive<D, P> {
    /// The next record of a partition.
    Delivery(D),

    /// A partition's unresolved record was withdrawn.
    OwnershipLost(P),

    /// The source is closed.
    Closed,
}

/// One thing that a settlement mode may need from an individual-delivery source.
#[derive(Clone, Copy, Debug, PartialEq, Eq, Structural, Hash)]
pub enum IndividualSourceRequirement {
    /// A known acknowledgement deadline.
    AckWait,

    /// Extending the acknowledgement deadline of a running delivery.
    Heartbeat,

    /// Redelivery after a delay.
    DelayedRetry,

    /// Redelivery at once.
    ImmediateRequeue,

    /// Discarding a delivery for good.
    TerminalDiscard,
}

/// Everything that a consumer needs from an individual-delivery source.
#[derive(Clone, Copy, Debug, PartialEq, Eq, Structural)]
pub struct IndividualSourceRequirements {
    /// A known acknowledgement deadline.
    pub ack_wait: bool,

    /// Extending the acknowledgement deadline of a running delivery.
    pub heartbeat: bool,

    /// Redelivery after a delay.
    pub delayed_retry: bool,

    /// Redelivery at once.
    pub immediate_requeue: bool,

    /// Discarding a delivery for good.
    pub terminal_discard: bool,
}

/// What an opened individual-delivery source offers.
#[derive(Clone, Copy, Debug, PartialEq, Eq)]
pub struct IndividualSourceDescriptor {
    /// How long the broker waits for an acknowledgement.
    pub ack_wait: Option<Duration>,

    /// How often the broker delivers one message at most.
    pub max_deliver: Option<NonZeroU64>,

    /// Whether a delivery can be redelivered after a delay.
    pub delayed_retry: bool,

    /// Whether a delivery can be discarded for good.
    pub terminal_discard: bool,

    /// Whether the acknowledgement deadline of a running delivery can be extended.
    pub heartbeat: bool,

    /// Whether a delivery can be redelivered at once.
    pub immediate_requeue: bool,
}

/// Whether a source must offer something.
pub open spec fn requires_of(
    requirements: IndividualSourceRequirements,
    requirement: IndividualSourceRequirement,
) -> bool {
    match requirement {
        IndividualSourceRequirement::AckWait => requirements.ack_wait,
        IndividualSourceRequirement::Heartbeat => requirements.heartbeat,
        IndividualSourceRequirement::DelayedRetry => requirements.delayed_retry,
        IndividualSourceRequirement::ImmediateRequeue => requirements.immediate_requeue,
        IndividualSourceRequirement::TerminalDiscard => requirements.terminal_discard,
    }
}

/// Whether a source offers something.
pub open spec fn offered_by(
    descriptor: IndividualSourceDescriptor,
    requirement: IndividualSourceRequirement,
) -> bool {
    match requirement {
        IndividualSourceRequirement::AckWait => descriptor.ack_wait is Some,
        IndividualSourceRequirement::Heartbeat => descriptor.heartbeat,
        IndividualSourceRequirement::DelayedRetry => descriptor.delayed_retry,
        IndividualSourceRequirement::ImmediateRequeue => descriptor.immediate_requeue,
        IndividualSourceRequirement::TerminalDiscard => descriptor.terminal_discard,
    }
}

/// Whether something is required and not offered.
pub open spec fn is_missing(
    descriptor: IndividualSourceDescriptor,
    requirements: IndividualSourceRequirements,
    requirement: IndividualSourceRequirement,
) -> bool {
    requires_of(requirements, requirement) && !offered_by(descriptor, requirement)
}

/// The first thing that is required and not offered: the acknowledgement deadline, then
/// heartbeats, delayed retry, immediate requeue, and terminal discard.
pub open spec fn first_missing(
    descriptor: IndividualSourceDescriptor,
    requirements: IndividualSourceRequirements,
) -> Option<IndividualSourceRequirement> {
    if is_missing(descriptor, requirements, IndividualSourceRequirement::AckWait) {
        Some(IndividualSourceRequirement::AckWait)
    } else if is_missing(descriptor, requirements, IndividualSourceRequirement::Heartbeat) {
        Some(IndividualSourceRequirement::Heartbeat)
    } else if is_missing(descriptor, requirements, IndividualSourceRequirement::DelayedRetry) {
        Some(IndividualSourceRequirement::DelayedRetry)
    } else if is_missing(descriptor, requirements, IndividualSourceRequirement::ImmediateRequeue) {
        Some(IndividualSourceRequirement::ImmediateRequeue)
    } else if is_missing(descriptor, requirements, IndividualSourceRequirement::TerminalDiscard) {
        Some(IndividualSourceRequirement::TerminalDiscard)
    } else {
        None
    }
}

impl IndividualSourceDescriptor {
    /// Checks that the source offers everything required.
    pub fn validate(&self, requirements: IndividualSourceRequirements) -> (valid: Result<
        (),
        IndividualSourceRequirement,
    >)
        ensures
            match valid {
                Ok(()) => first_missing(*self, requirements) is None,
                Err(missing) => first_missing(*self, requirements) == Some(missing),
            },
    {
        if requirements.ack_wait && self.ack_wait.is_none() {
            Err(IndividualSourceRequirement::AckWait)
        } else if requirements.heartbeat && !self.heartbeat {
            Err(IndividualSourceRequirement::Heartbeat)
        } else if requirements.delayed_retry && !self.delayed_retry {
            Err(IndividualSourceRequirement::DelayedRetry)
        } else if requirements.immediate_requeue && !self.immediate_requeue {
            Err(IndividualSourceRequirement::ImmediateRequeue)
        } else if requirements.terminal_discard && !self.terminal_discard {
            Err(IndividualSourceRequirement::TerminalDiscard)
        } else {
            Ok(())
        }
    }
}

/// A source that validates offers every single thing required.
pub proof fn law_validated_source_offers_all(
    descriptor: IndividualSourceDescriptor,
    requirements: IndividualSourceRequirements,
    requirement: IndividualSourceRequirement,
)
    requires
        first_missing(descriptor, requirements) is None,
        requires_of(requirements, requirement),
    ensures
        offered_by(descriptor, requirement),
{
    assert(!is_missing(descriptor, requirements, requirement));
}

/// Validation fails on the first thing, in the order of [`IndividualSourceRequirement`], that the
/// requirements ask for and the descriptor does not have; it succeeds if there is none.
pub proof fn law_validation_names_the_first_lack(
    descriptor: IndividualSourceDescriptor,
    requirements: IndividualSourceRequirements,
)
    ensures
        ({
            let no_wait = requirements.ack_wait && descriptor.ack_wait is None;
            let no_heartbeat = requirements.heartbeat && !descriptor.heartbeat;
            let no_delay = requirements.delayed_retry && !descriptor.delayed_retry;
            let no_requeue = requirements.immediate_requeue && !descriptor.immediate_requeue;
            let no_discard = requirements.terminal_discard && !descriptor.terminal_discard;
            match first_missing(descriptor, requirements) {
                Some(IndividualSourceRequirement::AckWait) => no_wait,
                Some(IndividualSourceRequirement::Heartbeat) => no_heartbeat && !no_wait,
                Some(IndividualSourceRequirement::DelayedRetry) => no_delay && !no_wait
                    && !no_heartbeat,
                Some(IndividualSourceRequirement::ImmediateRequeue) => no_requeue && !no_wait
                    && !no_heartbeat && !no_delay,
                Some(IndividualSourceRequirement::TerminalDiscard) => no_discard && !no_wait
                    && !no_heartbeat && !no_delay && !no_requeue,
                None => !no_wait && !no_heartbeat && !no_delay && !no_requeue && !no_discard,
            }
        }),
{
}

} // verus!
