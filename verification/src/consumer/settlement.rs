//! Centralized, pure settlement decision table.
//!
//! The workflow reduces every database and handler path to a profile-neutral [`Resolution`]. Each
//! delivery profile maps that resolution to its own plan; the individual profile maps it to
//! [`IndividualPlan`] under the selected [`SettlementMode`].

use crate::consumer::error::{ConsumerError, ConsumerErrorKind, ErrorSource, OperatorReason};
use crate::consumer::settings::{
    is_zero, required_by, settings_error, ConsumerSettings, SettlementMode,
};
use crate::failure::FailureKind;
use crate::inbox::failure::DeadReason;
use std::time::Duration;
use vstd::prelude::*;

verus! {

/// The durable state a workflow established for one delivery.
#[derive(Clone, Copy, Debug, PartialEq, Eq, Structural)]
pub enum Resolution {
    /// A commit succeeded, or the inbox reports a committed completion elsewhere.
    Completed,

    /// Another live transaction owns the delivery.
    InProgress,

    /// The rollback and a retryable failure record were both confirmed.
    RetryRecorded,

    /// The inbox holds a durable dead receipt.
    Dead(DeadReason),

    /// The wire value had no trustworthy identity; nothing was recorded.
    Malformed,

    /// A commit failed or timed out; its durable effect is unknown.
    CommitAmbiguous {
        /// The classification of the commit's failure.
        kind: FailureKind,
    },

    /// Begin, claim, or completion failed before any durable effect.
    Unresolved {
        /// The classification of the failure.
        kind: FailureKind,
    },

    /// A handler failure was not confirmed rolled back and recorded.
    NotRecorded {
        /// The classification of the failure to record it.
        kind: FailureKind,
    },
}

/// The stable telemetry label of a resolution.
pub open spec fn resolution_text(resolution: Resolution) -> Seq<char> {
    match resolution {
        Resolution::Completed => "completed"@,
        Resolution::InProgress => "in_progress"@,
        Resolution::RetryRecorded => "retry_recorded"@,
        Resolution::Dead(_) => "dead"@,
        Resolution::Malformed => "malformed"@,
        Resolution::CommitAmbiguous { .. } => "commit_ambiguous"@,
        Resolution::Unresolved { .. } => "unresolved"@,
        Resolution::NotRecorded { .. } => "not_recorded"@,
    }
}

/// The classification of the failure that left a resolution, when one did.
pub open spec fn resolution_failure(resolution: Resolution) -> Option<FailureKind> {
    match resolution {
        Resolution::CommitAmbiguous { kind } => Some(kind),
        Resolution::Unresolved { kind } => Some(kind),
        Resolution::NotRecorded { kind } => Some(kind),
        _ => None,
    }
}

impl Resolution {
    /// Returns the stable outcome label used in telemetry.
    pub fn as_str(self) -> (label: &'static str)
        ensures
            label@ == resolution_text(self),
    {
        match self {
            Resolution::Completed => "completed",
            Resolution::InProgress => "in_progress",
            Resolution::RetryRecorded => "retry_recorded",
            Resolution::Dead(_) => "dead",
            Resolution::Malformed => "malformed",
            Resolution::CommitAmbiguous { .. } => "commit_ambiguous",
            Resolution::Unresolved { .. } => "unresolved",
            Resolution::NotRecorded { .. } => "not_recorded",
        }
    }

    /// Returns the classification of the failure that left this resolution, when one did.
    pub fn failure_kind(self) -> (kind: Option<FailureKind>)
        ensures
            kind == resolution_failure(self),
    {
        match self {
            Resolution::CommitAmbiguous { kind } => Some(kind),
            Resolution::Unresolved { kind } => Some(kind),
            Resolution::NotRecorded { kind } => Some(kind),
            Resolution::Completed => None,
            Resolution::InProgress => None,
            Resolution::RetryRecorded => None,
            Resolution::Dead(_) => None,
            Resolution::Malformed => None,
        }
    }
}

/// An individual-delivery settlement operation.
#[derive(Clone, Copy, Debug, PartialEq, Eq)]
pub enum IndividualAction {
    /// Confirm successful processing.
    Ack,

    /// Request redelivery after a delay.
    Nak {
        /// The delay, which is zero for an immediate requeue.
        delay: Duration,
    },

    /// Terminally discard the delivery.
    Terminate,

    /// Drop the settlement handle without a broker operation.
    Leave,
}

/// The stable telemetry label of a settlement operation.
pub open spec fn action_text(action: IndividualAction) -> Seq<char> {
    match action {
        IndividualAction::Ack => "ack"@,
        IndividualAction::Nak { .. } => "nak"@,
        IndividualAction::Terminate => "terminate"@,
        IndividualAction::Leave => "leave"@,
    }
}

impl IndividualAction {
    /// Returns the stable action label used in telemetry.
    pub fn as_str(self) -> (label: &'static str)
        ensures
            label@ == action_text(self),
    {
        match self {
            IndividualAction::Ack => "ack",
            IndividualAction::Nak { .. } => "nak",
            IndividualAction::Terminate => "terminate",
            IndividualAction::Leave => "leave",
        }
    }
}

/// Why a delivery stops the consumer after its settlement action.
#[derive(Clone, Copy, Debug, PartialEq, Eq, Structural)]
pub enum StopCause {
    /// A unit-of-work or inbox operation failed without a safe disposition.
    Inbox,

    /// A handler failure was not confirmed recorded.
    FailureNotRecorded,

    /// The delivery needs operator action.
    Operator(OperatorReason),
}

/// The decision boundary that a stop reports.
pub open spec fn stop_kind(cause: StopCause) -> ConsumerErrorKind {
    match cause {
        StopCause::Inbox => ConsumerErrorKind::Inbox,
        StopCause::FailureNotRecorded => ConsumerErrorKind::FailureNotRecorded,
        StopCause::Operator(reason) => ConsumerErrorKind::OperatorActionRequired(reason),
    }
}

impl StopCause {
    /// Returns the decision boundary that a stop reports.
    pub fn kind(self) -> (kind: ConsumerErrorKind)
        ensures
            kind == stop_kind(self),
    {
        match self {
            StopCause::Inbox => ConsumerErrorKind::Inbox,
            StopCause::FailureNotRecorded => ConsumerErrorKind::FailureNotRecorded,
            StopCause::Operator(reason) => ConsumerErrorKind::OperatorActionRequired(reason),
        }
    }
}

/// One individual-delivery settlement plan.
#[derive(Clone, Copy, Debug, PartialEq, Eq)]
pub struct IndividualPlan {
    /// What becomes of the delivery.
    pub action: IndividualAction,

    /// Why the consumer stops afterwards, if it does.
    pub stop: Option<StopCause>,
}

/// A plan that settles the delivery and goes on.
pub open spec fn settled_by(action: IndividualAction) -> IndividualPlan {
    IndividualPlan { action, stop: None }
}

/// A plan that leaves the delivery unsettled and stops.
pub open spec fn stopped_by(cause: StopCause) -> IndividualPlan {
    IndividualPlan { action: IndividualAction::Leave, stop: Some(cause) }
}

impl IndividualPlan {
    fn settle(action: IndividualAction) -> (plan: Self)
        ensures
            plan == settled_by(action),
    {
        IndividualPlan { action, stop: None }
    }

    fn stop(cause: StopCause) -> (plan: Self)
        ensures
            plan == stopped_by(cause),
    {
        IndividualPlan { action: IndividualAction::Leave, stop: Some(cause) }
    }
}

/// How a mode brings a delivery back: the broker redelivers it, or it is left to pending recovery.
pub open spec fn retry_action(mode: SettlementMode, nak_delay: Duration) -> IndividualAction {
    if mode is PendingRecovery {
        IndividualAction::Leave
    } else {
        IndividualAction::Nak { delay: nak_delay }
    }
}

/// The plan for a resolution under a mode.
pub open spec fn individual_plan(
    mode: SettlementMode,
    nak_delay: Duration,
    resolution: Resolution,
) -> IndividualPlan {
    let retry = settled_by(retry_action(mode, nak_delay));
    match resolution {
        Resolution::Completed => settled_by(IndividualAction::Ack),
        Resolution::InProgress => retry,
        Resolution::RetryRecorded => retry,
        Resolution::CommitAmbiguous { kind } => if kind is Transient {
            retry
        } else {
            stopped_by(StopCause::Inbox)
        },
        Resolution::Unresolved { kind } => if kind is Transient {
            retry
        } else {
            stopped_by(StopCause::Inbox)
        },
        Resolution::NotRecorded { kind } => if kind is Transient && !(mode is PendingRecovery) {
            retry
        } else {
            stopped_by(StopCause::FailureNotRecorded)
        },
        Resolution::Dead(reason) => if mode is PendingRecovery {
            stopped_by(StopCause::Operator(OperatorReason::Dead(reason)))
        } else {
            settled_by(IndividualAction::Terminate)
        },
        Resolution::Malformed => if mode is PendingRecovery {
            stopped_by(StopCause::Operator(OperatorReason::Malformed))
        } else {
            settled_by(IndividualAction::Terminate)
        },
    }
}

/// Maps a resolution to its individual-delivery plan.
///
/// Acknowledgement is planned only for [`Resolution::Completed`]. Non-transient failure kinds,
/// including unknown ones, fail closed by leaving the delivery and stopping.
pub fn decide_individual(
    mode: SettlementMode,
    nak_delay: Duration,
    resolution: Resolution,
) -> (plan: IndividualPlan)
    ensures
        plan == individual_plan(mode, nak_delay, resolution),
        plan.action is Ack <==> resolution is Completed,
{
    let pending = matches!(mode, SettlementMode::PendingRecovery);

    let retry = if pending {
        IndividualAction::Leave
    } else {
        IndividualAction::Nak { delay: nak_delay }
    };

    match resolution {
        Resolution::Completed => IndividualPlan::settle(IndividualAction::Ack),
        Resolution::InProgress | Resolution::RetryRecorded => IndividualPlan::settle(retry),
        Resolution::CommitAmbiguous { kind } | Resolution::Unresolved { kind } => {
            if kind.is_retryable() {
                IndividualPlan::settle(retry)
            } else {
                IndividualPlan::stop(StopCause::Inbox)
            }
        },
        Resolution::NotRecorded { kind } => if kind.is_retryable() && !pending {
            IndividualPlan::settle(retry)
        } else {
            IndividualPlan::stop(StopCause::FailureNotRecorded)
        },
        Resolution::Dead(reason) => if pending {
            IndividualPlan::stop(StopCause::Operator(OperatorReason::Dead(reason)))
        } else {
            IndividualPlan::settle(IndividualAction::Terminate)
        },
        Resolution::Malformed => if pending {
            IndividualPlan::stop(StopCause::Operator(OperatorReason::Malformed))
        } else {
            IndividualPlan::settle(IndividualAction::Terminate)
        },
    }
}

/// How a settlement operation that did not confirm success ended.
#[derive(Clone, Copy, Debug, PartialEq, Eq, Structural)]
pub enum SettlementFailure {
    /// The operation exceeded `settlement_timeout`; its broker outcome is unknown.
    TimedOut,

    /// The source reported the operation as unsupported.
    Unsupported,

    /// The provider operation failed with this classification.
    Failed(FailureKind),
}

/// Whether a settlement failure stops the consumer.
pub open spec fn failure_stops(failure: SettlementFailure) -> bool {
    match failure {
        SettlementFailure::TimedOut => false,
        SettlementFailure::Unsupported => true,
        SettlementFailure::Failed(kind) => !(kind is Transient),
    }
}

/// The classification of a settlement failure.
pub open spec fn settlement_failure_kind(failure: SettlementFailure) -> FailureKind {
    match failure {
        SettlementFailure::TimedOut => FailureKind::Transient,
        SettlementFailure::Unsupported => FailureKind::Permanent,
        SettlementFailure::Failed(kind) => kind,
    }
}

/// The stable telemetry label of a settlement failure.
pub open spec fn settlement_failure_text(failure: SettlementFailure) -> Seq<char> {
    match failure {
        SettlementFailure::TimedOut => "timeout"@,
        SettlementFailure::Unsupported => "unsupported"@,
        SettlementFailure::Failed(_) => "failed"@,
    }
}

impl SettlementFailure {
    /// Reports whether this failure stops the consumer.
    ///
    /// A transient failure or timeout leaves the attempt to broker redelivery; a permanent,
    /// unsupported, or unknown classification stops receiving.
    pub fn stops(self) -> (stops: bool)
        ensures
            stops == failure_stops(self),
    {
        match self {
            SettlementFailure::TimedOut => false,
            SettlementFailure::Unsupported => true,
            SettlementFailure::Failed(kind) => !kind.is_retryable(),
        }
    }

    /// Returns the classification of this failure.
    pub fn failure_kind(self) -> (kind: FailureKind)
        ensures
            kind == settlement_failure_kind(self),
    {
        match self {
            SettlementFailure::TimedOut => FailureKind::Transient,
            SettlementFailure::Unsupported => FailureKind::Permanent,
            SettlementFailure::Failed(kind) => kind,
        }
    }

    /// Returns the stable label used in telemetry.
    pub fn as_str(self) -> (label: &'static str)
        ensures
            label@ == settlement_failure_text(self),
    {
        match self {
            SettlementFailure::TimedOut => "timeout",
            SettlementFailure::Unsupported => "unsupported",
            SettlementFailure::Failed(_) => "failed",
        }
    }
}

/// What a bounded settlement operation reported.
pub enum SettlementReply<S> {
    /// The broker confirmed the operation, or nothing was to be done.
    Confirmed,

    /// The operation exceeded `settlement_timeout`.
    TimedOut,

    /// The source does not support the operation.
    Unsupported,

    /// The provider's operation failed with this classification.
    Failed(FailureKind, S),
}

/// The failure in a reply, if it holds one.
pub open spec fn reply_failure<S>(reply: SettlementReply<S>) -> Option<SettlementFailure> {
    match reply {
        SettlementReply::Confirmed => None,
        SettlementReply::TimedOut => Some(SettlementFailure::TimedOut),
        SettlementReply::Unsupported => Some(SettlementFailure::Unsupported),
        SettlementReply::Failed(kind, _) => Some(SettlementFailure::Failed(kind)),
    }
}

/// The provider error in a reply, if it holds one.
pub open spec fn reply_source<S>(reply: SettlementReply<S>) -> Option<ErrorSource<S>> {
    match reply {
        SettlementReply::Failed(_, source) => Some(ErrorSource::Provider(source)),
        _ => None,
    }
}

impl<S> SettlementReply<S> {
    /// Returns the failure in this reply, if it holds one.
    pub fn failure(&self) -> (failure: Option<SettlementFailure>)
        ensures
            failure == reply_failure(*self),
    {
        match self {
            SettlementReply::Confirmed => None,
            SettlementReply::TimedOut => Some(SettlementFailure::TimedOut),
            SettlementReply::Unsupported => Some(SettlementFailure::Unsupported),
            SettlementReply::Failed(kind, _) => Some(SettlementFailure::Failed(*kind)),
        }
    }

    /// Returns the provider error in this reply, if it holds one.
    pub fn into_source(self) -> (source: Option<ErrorSource<S>>)
        ensures
            source == reply_source(self),
    {
        match self {
            SettlementReply::Failed(_, source) => Some(ErrorSource::Provider(source)),
            _ => None,
        }
    }
}

/// The fatal failure of a delivery whose plan was carried out, if there is one: a settlement
/// failure that stops, or else the plan's own cause.
pub open spec fn individual_error<S>(
    plan: IndividualPlan,
    resolution: Resolution,
    error: Option<S>,
    reply: SettlementReply<S>,
) -> Option<ConsumerError<S>> {
    match reply_failure(reply) {
        Some(failure) if failure_stops(failure) => Some(
            ConsumerError {
                kind: ConsumerErrorKind::Settlement,
                failure: settlement_failure_kind(failure),
                source: reply_source(reply),
            },
        ),
        _ => match plan.stop {
            Some(cause) => Some(
                ConsumerError {
                    kind: stop_kind(cause),
                    failure: match resolution_failure(resolution) {
                        Some(kind) => kind,
                        None => FailureKind::Permanent,
                    },
                    source: match error {
                        Some(source) => Some(ErrorSource::Provider(source)),
                        None => None,
                    },
                },
            ),
            None => None,
        },
    }
}

/// Concludes a delivery after its planned settlement: a failure returned here stops the consumer.
pub fn conclude_individual<S>(
    plan: IndividualPlan,
    resolution: Resolution,
    error: Option<S>,
    reply: SettlementReply<S>,
) -> (concluded: Result<(), ConsumerError<S>>)
    ensures
        match concluded {
            Ok(()) => individual_error(plan, resolution, error, reply) is None,
            Err(fatal) => individual_error(plan, resolution, error, reply) == Some(fatal),
        },
{
    if let Some(failure) = reply.failure() {
        if failure.stops() {
            return Err(
                ConsumerError::new(
                    ConsumerErrorKind::Settlement,
                    failure.failure_kind(),
                    reply.into_source(),
                ),
            );
        }
    }

    if let Some(cause) = plan.stop {
        let failure = match resolution.failure_kind() {
            Some(kind) => kind,
            None => FailureKind::Permanent,
        };

        let source = match error {
            Some(source) => Some(ErrorSource::Provider(source)),
            None => None,
        };

        return Err(ConsumerError::new(cause.kind(), failure, source));
    }

    Ok(())
}

/// A delivery is acknowledged exactly when it is completed.
pub proof fn law_ack_means_completed(
    mode: SettlementMode,
    nak_delay: Duration,
    resolution: Resolution,
)
    ensures
        individual_plan(mode, nak_delay, resolution).action is Ack <==> resolution is Completed,
{
}

/// Pending recovery never negatively acknowledges or terminates a delivery, and malformed or dead
/// deliveries stop it for operator action.
pub proof fn law_pending_recovery_leaves_the_rest(nak_delay: Duration, resolution: Resolution)
    ensures
        ({
            let plan = individual_plan(SettlementMode::PendingRecovery, nak_delay, resolution);
            &&& plan.action is Ack || plan.action is Leave
            &&& resolution is Malformed || resolution is Dead ==> plan.stop is Some
                && plan.stop->Some_0 is Operator
        }),
{
}

/// A failure that is not transient is never retried: the delivery is left and the consumer stops.
pub proof fn law_permanent_failures_fail_closed(
    mode: SettlementMode,
    nak_delay: Duration,
    resolution: Resolution,
)
    requires
        resolution_failure(resolution) is Some,
        !(resolution_failure(resolution)->Some_0 is Transient),
    ensures
        individual_plan(mode, nak_delay, resolution).action is Leave,
        individual_plan(mode, nak_delay, resolution).stop is Some,
{
}

/// A consumer that stops by plan leaves the delivery unsettled.
pub proof fn law_stopping_leaves_the_delivery(
    mode: SettlementMode,
    nak_delay: Duration,
    resolution: Resolution,
)
    ensures
        ({
            let plan = individual_plan(mode, nak_delay, resolution);
            plan.stop is Some ==> plan.action is Leave
        }),
{
}

/// The settlement operations that a mode plans are among those its requirements ask of the
/// source.
pub proof fn law_plans_use_only_required_operations(
    settings: ConsumerSettings,
    resolution: Resolution,
)
    requires
        settings_error(settings) is None,
    ensures
        ({
            let required = required_by(settings.mode, settings.heartbeat_interval is Some);
            let action = individual_plan(settings.mode, settings.nak_delay, resolution).action;
            &&& action is Terminate ==> required.terminal_discard
            &&& action is Nak && !is_zero(settings.nak_delay) ==> required.delayed_retry
            &&& action is Nak && is_zero(settings.nak_delay) ==> required.immediate_requeue
        }),
{
}

/// A timed-out or transient settlement failure never ends the run by itself.
pub proof fn law_transient_settlement_failures_go_on<S>(
    plan: IndividualPlan,
    resolution: Resolution,
    error: Option<S>,
    reply: SettlementReply<S>,
)
    requires
        plan.stop is None,
        reply_failure(reply) is Some,
        settlement_failure_kind(reply_failure(reply)->Some_0) is Transient,
    ensures
        individual_error(plan, resolution, error, reply) is None,
{
}

/// A broker mode discards exactly the poison: what is malformed, or dead in the inbox.
pub proof fn law_brokers_discard_exactly_poison(
    mode: SettlementMode,
    nak_delay: Duration,
    resolution: Resolution,
)
    ensures
        individual_plan(mode, nak_delay, resolution).action is Terminate <==> {
            &&& mode is Broker || mode is BrokerImmediateRequeue
            &&& resolution is Malformed || resolution is Dead
        },
{
}

/// Whether a delivery is to come again: another transaction has it, its failure is recorded for a
/// retry, or the database failed transiently.
pub open spec fn comes_again(resolution: Resolution) -> bool {
    ||| resolution is InProgress
    ||| resolution is RetryRecorded
    ||| resolution == (Resolution::CommitAmbiguous { kind: FailureKind::Transient })
    ||| resolution == (Resolution::Unresolved { kind: FailureKind::Transient })
    ||| resolution == (Resolution::NotRecorded { kind: FailureKind::Transient })
}

/// A broker mode asks for redelivery of exactly the deliveries that are to come again, after the
/// configured delay, and stops for none of them.
pub proof fn law_brokers_redeliver_what_comes_again(
    mode: SettlementMode,
    nak_delay: Duration,
    resolution: Resolution,
)
    requires
        mode is Broker || mode is BrokerImmediateRequeue,
    ensures
        individual_plan(mode, nak_delay, resolution).action is Nak <==> comes_again(resolution),
        comes_again(resolution) ==> individual_plan(mode, nak_delay, resolution) == (
        IndividualPlan { action: IndividualAction::Nak { delay: nak_delay }, stop: None }),
{
}

/// Pending recovery leaves the deliveries that are to come again without stopping, except where a
/// handler failure is not confirmed recorded: recovery would lose count of its attempts.
pub proof fn law_pending_recovery_waits_for_what_comes_again(
    nak_delay: Duration,
    resolution: Resolution,
)
    requires
        comes_again(resolution),
    ensures
        ({
            let plan = individual_plan(SettlementMode::PendingRecovery, nak_delay, resolution);
            &&& plan.action is Leave
            &&& plan.stop is Some <==> resolution is NotRecorded
        }),
{
}

/// A consumer goes on after a completed delivery, and stops on any other one for the reason that
/// the resolution gives: an inbox failure, an unconfirmed record, or work for an operator.
pub proof fn law_stops_have_the_right_cause(
    mode: SettlementMode,
    nak_delay: Duration,
    resolution: Resolution,
)
    ensures
        match individual_plan(mode, nak_delay, resolution).stop {
            None => true,
            Some(StopCause::Inbox) => (resolution is CommitAmbiguous || resolution is Unresolved)
                && !comes_again(resolution),
            Some(StopCause::FailureNotRecorded) => resolution is NotRecorded && (mode
                is PendingRecovery || !comes_again(resolution)),
            Some(StopCause::Operator(OperatorReason::Dead(reason))) => mode is PendingRecovery
                && resolution == Resolution::Dead(reason),
            Some(StopCause::Operator(OperatorReason::Malformed)) => mode is PendingRecovery
                && resolution is Malformed,
        },
        resolution is Completed ==> individual_plan(mode, nak_delay, resolution).stop is None,
{
}

/// The two broker modes plan alike: how a delivery comes back follows from the delay alone.
pub proof fn law_broker_modes_plan_alike(nak_delay: Duration, resolution: Resolution)
    ensures
        individual_plan(SettlementMode::Broker, nak_delay, resolution) == individual_plan(
            SettlementMode::BrokerImmediateRequeue,
            nak_delay,
            resolution,
        ),
{
}

/// A settlement that failed for good stops the consumer with its own classification and cause,
/// whatever the plan was.
pub proof fn law_failed_settlements_stop<S>(
    plan: IndividualPlan,
    resolution: Resolution,
    error: Option<S>,
    kind: FailureKind,
    source: S,
)
    requires
        !(kind is Transient),
    ensures
        individual_error(plan, resolution, error, SettlementReply::Failed(kind, source)) == Some(
            ConsumerError {
                kind: ConsumerErrorKind::Settlement,
                failure: kind,
                source: Some(ErrorSource::Provider(source)),
            },
        ),
        individual_error(plan, resolution, error, SettlementReply::<S>::Unsupported) == Some(
            ConsumerError {
                kind: ConsumerErrorKind::Settlement,
                failure: FailureKind::Permanent,
                source: None::<ErrorSource<S>>,
            },
        ),
{
}

/// A settlement that was confirmed, timed out or failed transiently leaves the plan its word: the
/// consumer goes on unless the plan stops it, and then with the plan's cause, the classification
/// that the resolution holds, and the workflow's own error.
pub proof fn law_plans_decide_after_settlement<S>(
    plan: IndividualPlan,
    resolution: Resolution,
    error: Option<S>,
    reply: SettlementReply<S>,
)
    requires
        reply is Confirmed || reply is TimedOut || (reply matches SettlementReply::Failed(kind, _)
            && kind is Transient),
    ensures
        plan.stop is None ==> individual_error(plan, resolution, error, reply) is None,
        plan.stop matches Some(cause) ==> {
            &&& individual_error(plan, resolution, error, reply) matches Some(fatal)
            &&& fatal.kind == match cause {
                StopCause::Inbox => ConsumerErrorKind::Inbox,
                StopCause::FailureNotRecorded => ConsumerErrorKind::FailureNotRecorded,
                StopCause::Operator(reason) => ConsumerErrorKind::OperatorActionRequired(reason),
            }
            &&& match resolution {
                Resolution::CommitAmbiguous { kind } => fatal.failure == kind,
                Resolution::Unresolved { kind } => fatal.failure == kind,
                Resolution::NotRecorded { kind } => fatal.failure == kind,
                _ => fatal.failure is Permanent,
            }
            &&& error matches Some(source) ==> fatal.source == Some(ErrorSource::Provider(source))
            &&& error is None ==> fatal.source is None
        },
{
}

/// A failure stops the consumer exactly when it does not count as transient.
pub proof fn law_settlement_failures_stop_unless_transient(failure: SettlementFailure)
    ensures
        failure_stops(failure) <==> !(settlement_failure_kind(failure) is Transient),
        failure is TimedOut ==> settlement_failure_kind(failure) is Transient,
        failure is Unsupported ==> settlement_failure_kind(failure) is Permanent,
        failure matches SettlementFailure::Failed(kind) ==> settlement_failure_kind(failure) == kind,
{
}

/// A resolution that a failure left keeps the failure's classification; no other one has any.
pub proof fn law_failed_resolutions_keep_their_kind(resolution: Resolution, kind: FailureKind)
    ensures
        resolution_failure(resolution) == Some(kind) <==> {
            ||| resolution == (Resolution::CommitAmbiguous { kind })
            ||| resolution == (Resolution::Unresolved { kind })
            ||| resolution == (Resolution::NotRecorded { kind })
        },
{
}

} // verus!
