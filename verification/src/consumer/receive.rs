//! Startup validation of an opened source.

use crate::consumer::error::{ConsumerError, ConsumerErrorKind, ErrorSource};
use crate::consumer::settings::{required_by, ConsumerSettings};
use crate::delivery::{first_missing, IndividualSourceDescriptor, IndividualSourceRequirement};
use crate::duration::span_nanos;
use crate::failure::FailureKind;
use crate::nonzero::NonZeroU32;
use std::time::Duration;
use vstd::prelude::*;

verus! {

/// Whether opening finished or was cancelled first.
#[derive(Clone, Copy, Debug, PartialEq, Eq, Structural)]
pub enum Opened {
    /// The source may be received from.
    Ready,

    /// The caller cancelled the consumer before the source was open.
    Cancelled,
}

/// What opening a source reported.
pub enum OpenReply<T, S> {
    /// The caller cancelled the consumer before the source was open.
    Cancelled,

    /// The source is open.
    Opened(T),

    /// The source lacks something that was required of it.
    Unsupported(IndividualSourceRequirement),

    /// The provider failed with this classification.
    Failed(FailureKind, S),

    /// The source failed in a way that this library does not know.
    Unknown,

    /// Opening exceeded `source_timeout`.
    TimedOut,
}

/// Whether an acknowledgement deadline is too short for a heartbeat interval: a delivery must
/// outlive one missed heartbeat.
pub open spec fn deadline_too_short(
    ack_wait: Option<Duration>,
    heartbeat_interval: Option<Duration>,
) -> bool {
    match (ack_wait, heartbeat_interval) {
        (Some(ack_wait), Some(interval)) => span_nanos(ack_wait) <= 2 * span_nanos(interval),
        _ => false,
    }
}

/// Why an opened source is refused, if it is.
pub open spec fn refusal(
    settings: ConsumerSettings,
    max_attempts: u32,
    descriptor: IndividualSourceDescriptor,
) -> Option<ConsumerErrorKind> {
    let missing = first_missing(
        descriptor,
        required_by(settings.mode, settings.heartbeat_interval is Some),
    );
    if missing is Some {
        Some(ConsumerErrorKind::Unsupported(missing->Some_0))
    } else if descriptor.max_deliver is Some && descriptor.max_deliver->Some_0@ < max_attempts {
        Some(ConsumerErrorKind::AttemptBoundExceedsMaxDeliver)
    } else if deadline_too_short(descriptor.ack_wait, settings.heartbeat_interval) {
        Some(ConsumerErrorKind::HeartbeatDeadlineTooShort)
    } else {
        None
    }
}

/// The failure of an opened source that is refused.
pub open spec fn refused<S>(kind: ConsumerErrorKind) -> ConsumerError<S> {
    ConsumerError {
        kind,
        failure: FailureKind::Permanent,
        source: match kind {
            ConsumerErrorKind::Unsupported(requirement) => Some(
                ErrorSource::Requirement(requirement),
            ),
            _ => None,
        },
    }
}

/// What opening a source comes to, where nothing is asked of an opened one.
pub open spec fn plain_open<T, S>(reply: OpenReply<T, S>) -> Result<Opened, ConsumerError<S>> {
    match reply {
        OpenReply::Cancelled => Ok(Opened::Cancelled),
        OpenReply::Opened(_) => Ok(Opened::Ready),
        OpenReply::Unsupported(requirement) => Err(
            refused(ConsumerErrorKind::Unsupported(requirement)),
        ),
        OpenReply::Failed(failure, source) => Err(
            ConsumerError {
                kind: ConsumerErrorKind::SourceOpen,
                failure,
                source: Some(ErrorSource::Provider(source)),
            },
        ),
        OpenReply::Unknown => Err(
            ConsumerError {
                kind: ConsumerErrorKind::SourceOpen,
                failure: FailureKind::Permanent,
                source: None,
            },
        ),
        OpenReply::TimedOut => Err(
            ConsumerError {
                kind: ConsumerErrorKind::SourceOpenTimeout,
                failure: FailureKind::Transient,
                source: None,
            },
        ),
    }
}

/// What opening an individual-delivery source comes to.
pub open spec fn individual_open<S>(
    settings: ConsumerSettings,
    max_attempts: u32,
    reply: OpenReply<IndividualSourceDescriptor, S>,
) -> Result<Opened, ConsumerError<S>> {
    match reply {
        OpenReply::Opened(descriptor) => match refusal(settings, max_attempts, descriptor) {
            Some(kind) => Err(refused(kind)),
            None => Ok(Opened::Ready),
        },
        _ => plain_open(reply),
    }
}

/// Concludes the opening of a source of which nothing further is asked.
pub fn open_outcome<T, S>(reply: OpenReply<T, S>) -> (opened: Result<Opened, ConsumerError<S>>)
    ensures
        opened == plain_open(reply),
{
    match reply {
        OpenReply::Cancelled => Ok(Opened::Cancelled),
        OpenReply::Opened(_) => Ok(Opened::Ready),
        OpenReply::Unsupported(requirement) => Err(unsupported_error(requirement)),
        OpenReply::Failed(failure, source) => Err(
            ConsumerError::new(
                ConsumerErrorKind::SourceOpen,
                failure,
                Some(ErrorSource::Provider(source)),
            ),
        ),
        OpenReply::Unknown => Err(
            ConsumerError::new(ConsumerErrorKind::SourceOpen, FailureKind::Permanent, None),
        ),
        OpenReply::TimedOut => Err(
            ConsumerError::new(ConsumerErrorKind::SourceOpenTimeout, FailureKind::Transient, None),
        ),
    }
}

/// Concludes the opening of an individual-delivery source, and validates the limits that depend on
/// its descriptor.
///
/// The descriptor is checked again, so that a source that skipped validation still fails closed.
pub fn open<S>(
    settings: &ConsumerSettings,
    max_attempts: NonZeroU32,
    reply: OpenReply<IndividualSourceDescriptor, S>,
) -> (opened: Result<Opened, ConsumerError<S>>)
    ensures
        opened == individual_open(*settings, max_attempts@, reply),
{
    let OpenReply::Opened(descriptor) = reply else {
        return open_outcome(reply);
    };

    if let Err(missing) = descriptor.validate(settings.requirements()) {
        return Err(unsupported_error(missing));
    }

    if let Some(max_deliver) = descriptor.max_deliver {
        if max_deliver.get() < max_attempts.get() as u64 {
            return Err(
                ConsumerError::new(
                    ConsumerErrorKind::AttemptBoundExceedsMaxDeliver,
                    FailureKind::Permanent,
                    None,
                ),
            );
        }
    }

    if let Some(interval) = settings.heartbeat_interval {
        if let Some(ack_wait) = descriptor.ack_wait {
            if short_of_two(ack_wait.as_nanos(), interval.as_nanos()) {
                return Err(
                    ConsumerError::new(
                        ConsumerErrorKind::HeartbeatDeadlineTooShort,
                        FailureKind::Permanent,
                        None,
                    ),
                );
            }
        }
    }

    Ok(Opened::Ready)
}

/// Whether a span is at most twice another one.
fn short_of_two(span: u128, interval: u128) -> (short: bool)
    ensures
        short == (span <= 2 * interval),
{
    if span <= interval {
        true
    } else {
        span - interval <= interval
    }
}

fn unsupported_error<S>(requirement: IndividualSourceRequirement) -> (error: ConsumerError<S>)
    ensures
        error == refused::<S>(ConsumerErrorKind::Unsupported(requirement)),
{
    ConsumerError::new(
        ConsumerErrorKind::Unsupported(requirement),
        FailureKind::Permanent,
        Some(ErrorSource::Requirement(requirement)),
    )
}

/// The failure of a receive.
pub fn receive_error<S>(failure: FailureKind, source: S) -> (error: ConsumerError<S>)
    ensures
        error == (ConsumerError {
            kind: ConsumerErrorKind::Source,
            failure,
            source: Some(ErrorSource::Provider(source)),
        }),
{
    ConsumerError::new(ConsumerErrorKind::Source, failure, Some(ErrorSource::Provider(source)))
}

/// A source that is received from offers all that the settings require, delivers each message at
/// least as often as the inbox allows attempts, and outlives a missed heartbeat.
pub proof fn law_ready_sources_meet_the_settings<S>(
    settings: ConsumerSettings,
    max_attempts: u32,
    descriptor: IndividualSourceDescriptor,
)
    requires
        individual_open::<S>(settings, max_attempts, OpenReply::Opened(descriptor)) == Ok::<
            Opened,
            ConsumerError<S>,
        >(Opened::Ready),
    ensures
        first_missing(
            descriptor,
            required_by(settings.mode, settings.heartbeat_interval is Some),
        ) is None,
        descriptor.max_deliver is Some ==> descriptor.max_deliver->Some_0@ >= max_attempts,
        settings.heartbeat_interval is Some ==> descriptor.heartbeat && descriptor.ack_wait is Some
            && span_nanos(descriptor.ack_wait->Some_0) > 2 * span_nanos(
            settings.heartbeat_interval->Some_0,
        ),
{
}

/// Whether a source lacks something that the settings call for: delayed retry and terminal discard
/// to let the broker redeliver after a delay, immediate requeue and terminal discard to let it
/// redeliver at once, and a known deadline that can be extended to beat heartbeats.
pub open spec fn lacks(
    settings: ConsumerSettings,
    descriptor: IndividualSourceDescriptor,
    requirement: IndividualSourceRequirement,
) -> bool {
    match requirement {
        IndividualSourceRequirement::AckWait => settings.heartbeat_interval is Some
            && descriptor.ack_wait is None,
        IndividualSourceRequirement::Heartbeat => settings.heartbeat_interval is Some
            && !descriptor.heartbeat,
        IndividualSourceRequirement::DelayedRetry => settings.mode is Broker
            && !descriptor.delayed_retry,
        IndividualSourceRequirement::ImmediateRequeue => settings.mode is BrokerImmediateRequeue
            && !descriptor.immediate_requeue,
        IndividualSourceRequirement::TerminalDiscard => (settings.mode is Broker || settings.mode
            is BrokerImmediateRequeue) && !descriptor.terminal_discard,
    }
}

/// Whether a source delivers a message as often as the inbox allows attempts.
pub open spec fn delivers_often_enough(
    descriptor: IndividualSourceDescriptor,
    max_attempts: u32,
) -> bool {
    descriptor.max_deliver matches Some(max_deliver) ==> max_deliver@ >= max_attempts
}

/// Whether a source's deadline outlives two heartbeats, where heartbeats are beaten.
pub open spec fn outlives_a_missed_heartbeat(
    settings: ConsumerSettings,
    descriptor: IndividualSourceDescriptor,
) -> bool {
    settings.heartbeat_interval matches Some(interval) ==> (descriptor.ack_wait matches Some(wait)
        ==> span_nanos(wait) > 2 * span_nanos(interval))
}

/// A source is received from exactly if it lacks nothing, delivers a message as often as the inbox
/// allows attempts, and outlives a missed heartbeat. Otherwise the refusal names what is wrong, and
/// something lacking comes before a limit.
pub proof fn law_sources_are_ready_or_refused_for_cause<S>(
    settings: ConsumerSettings,
    max_attempts: u32,
    descriptor: IndividualSourceDescriptor,
)
    ensures
        ({
            let opened = individual_open::<S>(
                settings,
                max_attempts,
                OpenReply::Opened(descriptor),
            );
            let complete = forall|requirement: IndividualSourceRequirement|
                !#[trigger] lacks(settings, descriptor, requirement);
            &&& opened == Ok::<Opened, ConsumerError<S>>(Opened::Ready) <==> complete
                && delivers_often_enough(descriptor, max_attempts) && outlives_a_missed_heartbeat(
                settings,
                descriptor,
            )
            &&& opened is Ok ==> opened == Ok::<Opened, ConsumerError<S>>(Opened::Ready)
            &&& opened matches Err(error) ==> {
                &&& error.failure is Permanent
                &&& match error.kind {
                    ConsumerErrorKind::Unsupported(requirement) => lacks(
                        settings,
                        descriptor,
                        requirement,
                    ) && error.source == Some(ErrorSource::<S>::Requirement(requirement)),
                    ConsumerErrorKind::AttemptBoundExceedsMaxDeliver => complete
                        && !delivers_often_enough(descriptor, max_attempts) && error.source is None,
                    ConsumerErrorKind::HeartbeatDeadlineTooShort => complete
                        && delivers_often_enough(descriptor, max_attempts)
                        && !outlives_a_missed_heartbeat(settings, descriptor)
                        && error.source is None,
                    _ => false,
                }
            }
        }),
{
    let missing = first_missing(
        descriptor,
        required_by(settings.mode, settings.heartbeat_interval is Some),
    );
    match missing {
        Some(requirement) => {
            assert(lacks(settings, descriptor, requirement));
        },
        None => {
            assert forall|requirement: IndividualSourceRequirement| !#[trigger] lacks(
                settings,
                descriptor,
                requirement,
            ) by {
                match requirement {
                    IndividualSourceRequirement::AckWait => {},
                    IndividualSourceRequirement::Heartbeat => {},
                    IndividualSourceRequirement::DelayedRetry => {},
                    IndividualSourceRequirement::ImmediateRequeue => {},
                    IndividualSourceRequirement::TerminalDiscard => {},
                }
            }
        },
    }
}

/// More attempts never make a refused source acceptable, and a laxer broker never makes an
/// acceptable one refused.
pub proof fn law_opening_is_monotone<S>(
    settings: ConsumerSettings,
    fewer: u32,
    more: u32,
    descriptor: IndividualSourceDescriptor,
)
    requires
        fewer <= more,
        individual_open::<S>(settings, more, OpenReply::Opened(descriptor)) is Ok,
    ensures
        individual_open::<S>(settings, fewer, OpenReply::Opened(descriptor)) is Ok,
        individual_open::<S>(
            settings,
            more,
            OpenReply::Opened(IndividualSourceDescriptor { max_deliver: None, ..descriptor }),
        ) is Ok,
{
}

/// A source that is not open is judged by its answer alone, whichever profile asked: a cancelled
/// opening is no failure, a timeout is transient, a provider's failure keeps its classification and
/// cause, and an answer that is not known is permanent.
pub proof fn law_unopened_sources_are_judged_by_their_answer<S>(
    settings: ConsumerSettings,
    max_attempts: u32,
    reply: OpenReply<IndividualSourceDescriptor, S>,
)
    requires
        !(reply is Opened),
    ensures
        individual_open(settings, max_attempts, reply) == plain_open(reply),
        match reply {
            OpenReply::Cancelled => plain_open(reply) == Ok::<Opened, ConsumerError<S>>(
                Opened::Cancelled,
            ),
            _ => plain_open(reply) matches Err(error) && match reply {
                OpenReply::Unsupported(requirement) => {
                    &&& error.kind == ConsumerErrorKind::Unsupported(requirement)
                    &&& error.failure is Permanent
                    &&& error.source == Some(ErrorSource::<S>::Requirement(requirement))
                },
                OpenReply::Failed(failure, source) => {
                    &&& error.kind is SourceOpen
                    &&& error.failure == failure
                    &&& error.source == Some(ErrorSource::Provider(source))
                },
                OpenReply::Unknown => {
                    &&& error.kind is SourceOpen
                    &&& error.failure is Permanent
                    &&& error.source is None
                },
                _ => {
                    &&& error.kind is SourceOpenTimeout
                    &&& error.failure is Transient
                    &&& error.source is None
                },
            },
        },
{
}

/// A source of which nothing is asked is ready once it is open.
pub proof fn law_plain_sources_are_ready_once_open<T, S>(opened: T)
    ensures
        plain_open(OpenReply::<T, S>::Opened(opened)) == Ok::<Opened, ConsumerError<S>>(
            Opened::Ready,
        ),
{
}

} // verus!
