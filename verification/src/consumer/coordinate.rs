//! The coordinators that own a delivery's settlement handle while its workflow runs.
//!
//! A coordinator performs no I/O itself: it takes what happened and names the next operation, or
//! finishes. The workflow alone owns the transaction and has always ended before a coordinator
//! settles or advances anything, so no transaction is ever held across broker I/O.

use crate::consumer::error::{ConsumerError, ConsumerErrorKind, ErrorSource, OperatorReason};
use crate::consumer::partitioned::{
    advance_outcome, conclude_advance, decide_partition, partition_plan, partition_stop,
    AdvanceOutcome, AdvanceReply, PartitionPlan,
};
use crate::consumer::process::Processed;
use crate::consumer::settings::SettlementMode;
use crate::consumer::settlement::{
    conclude_individual, decide_individual, individual_error, individual_plan, IndividualAction,
    IndividualPlan, Resolution, SettlementReply,
};
use crate::consumer::worker::{task_error, task_failure_kind, TaskFailure};
use crate::delivery::PartitionAdvance;
use crate::failure::FailureKind;
use std::time::Duration;
use vstd::prelude::*;

verus! {

/// How a workflow's task ended.
pub enum Ended<S> {
    /// It reached a resolution.
    Processed(Processed<S>),

    /// It did not return.
    Failed {
        /// How it ended instead.
        failure: TaskFailure,

        /// Whether the handler was running.
        in_handler: bool,
    },
}

/// The failure of a workflow's task, which has no cause to show.
pub open spec fn lost_task<S>(failure: TaskFailure, in_handler: bool) -> ConsumerError<S> {
    ConsumerError {
        kind: task_failure_kind(failure, in_handler),
        failure: FailureKind::Permanent,
        source: None,
    }
}

/// What the coordinator of an individual delivery waits for.
pub enum IndividualPhase<S> {
    /// The end of the workflow, or the next heartbeat.
    Processing,

    /// The reply to a heartbeat.
    Beating,

    /// The reply to the settlement.
    Settling {
        /// The plan that is carried out.
        plan: IndividualPlan,

        /// The workflow's resolution.
        resolution: Resolution,

        /// The provider error behind the resolution.
        error: Option<S>,
    },
}

/// The coordinator of an individual delivery.
pub struct IndividualCoordinator<S> {
    /// How deliveries are settled.
    pub mode: SettlementMode,

    /// The broker redelivery delay.
    pub nak_delay: Duration,

    /// What is waited for.
    pub phase: IndividualPhase<S>,
}

/// What happened to an individual delivery.
pub enum IndividualEvent<S> {
    /// The workflow's task ended.
    Ended(Ended<S>),

    /// The heartbeat interval passed.
    Due,

    /// A heartbeat was answered.
    Beaten(SettlementReply<S>),

    /// The settlement was answered.
    Settled(SettlementReply<S>),
}

/// What is done with an individual delivery next.
pub enum IndividualStep<S> {
    /// Wait for the workflow, or for the next heartbeat.
    Wait(IndividualCoordinator<S>),

    /// Extend the acknowledgement deadline.
    Heartbeat(IndividualCoordinator<S>),

    /// Carry out this settlement operation.
    Settle(IndividualCoordinator<S>, IndividualAction),

    /// Give the delivery up. A failure stops the consumer.
    Finish(Result<(), ConsumerError<S>>),
}

/// Whether an event can happen while a coordinator waits.
pub open spec fn individual_awaits<S>(
    phase: IndividualPhase<S>,
    event: IndividualEvent<S>,
) -> bool {
    match phase {
        IndividualPhase::Processing => event is Ended || event is Due,
        IndividualPhase::Beating => event is Beaten,
        IndividualPhase::Settling { .. } => event is Settled,
    }
}

/// What follows an event. A workflow that did not return leaves the delivery unsettled; an
/// unanswered heartbeat changes nothing.
pub open spec fn individual_step<S>(
    coordinator: IndividualCoordinator<S>,
    event: IndividualEvent<S>,
) -> IndividualStep<S> {
    match event {
        IndividualEvent::Ended(Ended::Failed { failure, in_handler }) => IndividualStep::Finish(
            Err(lost_task(failure, in_handler)),
        ),
        IndividualEvent::Ended(Ended::Processed(processed)) => {
            let plan = individual_plan(
                coordinator.mode,
                coordinator.nak_delay,
                processed.resolution,
            );
            IndividualStep::Settle(
                IndividualCoordinator {
                    phase: IndividualPhase::Settling {
                        plan,
                        resolution: processed.resolution,
                        error: processed.error,
                    },
                    ..coordinator
                },
                plan.action,
            )
        },
        IndividualEvent::Due => IndividualStep::Heartbeat(
            IndividualCoordinator { phase: IndividualPhase::Beating, ..coordinator },
        ),
        IndividualEvent::Beaten(_) => IndividualStep::Wait(
            IndividualCoordinator { phase: IndividualPhase::Processing, ..coordinator },
        ),
        IndividualEvent::Settled(reply) => match coordinator.phase {
            IndividualPhase::Settling { plan, resolution, error } => IndividualStep::Finish(
                match individual_error(plan, resolution, error, reply) {
                    Some(fatal) => Err(fatal),
                    None => Ok(()),
                },
            ),
            _ => IndividualStep::Wait(coordinator),
        },
    }
}

impl<S> IndividualCoordinator<S> {
    /// A coordinator whose workflow was just started.
    pub fn new(mode: SettlementMode, nak_delay: Duration) -> (coordinator: Self)
        ensures
            coordinator == (IndividualCoordinator::<S> {
                mode,
                nak_delay,
                phase: IndividualPhase::Processing,
            }),
    {
        IndividualCoordinator { mode, nak_delay, phase: IndividualPhase::Processing }
    }

    /// Whether an event can happen while the coordinator waits.
    pub fn awaits(&self, event: &IndividualEvent<S>) -> (awaited: bool)
        ensures
            awaited == individual_awaits(self.phase, *event),
    {
        match &self.phase {
            IndividualPhase::Processing => {
                matches!(event, IndividualEvent::Ended(_)) || matches!(event, IndividualEvent::Due)
            },
            IndividualPhase::Beating => matches!(event, IndividualEvent::Beaten(_)),
            IndividualPhase::Settling { .. } => matches!(event, IndividualEvent::Settled(_)),
        }
    }

    /// Goes on from what happened.
    pub fn step(self, event: IndividualEvent<S>) -> (step: IndividualStep<S>)
        requires
            individual_awaits(self.phase, event),
        ensures
            step == individual_step(self, event),
    {
        let IndividualCoordinator { mode, nak_delay, phase } = self;

        match event {
            IndividualEvent::Ended(Ended::Failed { failure, in_handler }) => {
                IndividualStep::Finish(Err(task_error(failure, in_handler)))
            },
            IndividualEvent::Ended(Ended::Processed(processed)) => {
                let plan = decide_individual(mode, nak_delay, processed.resolution);
                let phase = IndividualPhase::Settling {
                    plan,
                    resolution: processed.resolution,
                    error: processed.error,
                };

                IndividualStep::Settle(
                    IndividualCoordinator { mode, nak_delay, phase },
                    plan.action,
                )
            },
            IndividualEvent::Due => IndividualStep::Heartbeat(
                IndividualCoordinator { mode, nak_delay, phase: IndividualPhase::Beating },
            ),
            IndividualEvent::Beaten(_) => IndividualStep::Wait(
                IndividualCoordinator { mode, nak_delay, phase: IndividualPhase::Processing },
            ),
            IndividualEvent::Settled(reply) => match phase {
                IndividualPhase::Settling { plan, resolution, error } => IndividualStep::Finish(
                    match conclude_individual(plan, resolution, error, reply) {
                        Ok(()) => Ok(()),
                        Err(fatal) => Err(fatal),
                    },
                ),
                other => {
                    assert(false);
                    IndividualStep::Wait(IndividualCoordinator { mode, nak_delay, phase: other })
                },
            },
        }
    }
}

/// What the coordinator of a partition's record waits for.
#[derive(Clone, Copy, Debug, PartialEq, Eq, Structural)]
pub enum PartitionPhase {
    /// The end of the workflow, or the loss of the partition.
    Processing,

    /// The reply to the advance.
    Advancing,
}

/// What happened to a partition's record.
pub enum PartitionEvent<S> {
    /// The partition was lost before the workflow ended.
    Lost,

    /// The workflow's task ended.
    Ended {
        /// How it ended.
        ended: Ended<S>,

        /// Whether the partition is lost by now.
        lost: bool,
    },

    /// The partition was lost before the advance could begin.
    Overtaken,

    /// The advance was answered.
    Answered {
        /// The answer.
        reply: AdvanceReply<S>,

        /// Whether the partition is lost by now.
        lost: bool,
    },
}

/// What is done with a partition's record next.
pub enum PartitionStep<S> {
    /// Abort the workflow, wait until it is dropped, and give the record up.
    Abort,

    /// Advance the partition past the record.
    Advance,

    /// Give the record up.
    Finish {
        /// Whether the partition may be given to its next record.
        safe_to_release: bool,

        /// A failure, which stops the consumer.
        result: Result<(), ConsumerError<S>>,
    },
}

/// Whether an event can happen while a coordinator waits.
pub open spec fn partition_awaits<S>(phase: PartitionPhase, event: PartitionEvent<S>) -> bool {
    match phase {
        PartitionPhase::Processing => event is Lost || event is Ended,
        PartitionPhase::Advancing => event is Overtaken || event is Answered,
    }
}

/// Whether an advance that ended so lets the partition's next record in.
pub open spec fn releases(outcome: AdvanceOutcome) -> bool {
    outcome is Advanced || outcome is Fenced
}

/// A provider error as the cause of a failure.
pub open spec fn provider_cause<S>(error: Option<S>) -> Option<ErrorSource<S>> {
    match error {
        Some(source) => Some(ErrorSource::Provider(source)),
        None => None,
    }
}

/// The failure of an advance, if it failed for good.
pub open spec fn advance_error<S>(reply: AdvanceReply<S>) -> Option<ConsumerError<S>> {
    match reply {
        AdvanceReply::Failed(failure, source) if !(failure is Transient) => Some(
            ConsumerError {
                kind: ConsumerErrorKind::Settlement,
                failure,
                source: Some(ErrorSource::Provider(source)),
            },
        ),
        _ => None,
    }
}

/// What follows an event. A record of a lost partition is given up quietly; a workflow that did
/// not return stops the consumer.
pub open spec fn partition_step<S>(event: PartitionEvent<S>) -> PartitionStep<S> {
    match event {
        PartitionEvent::Lost => PartitionStep::Abort,
        PartitionEvent::Ended { ended: Ended::Failed { failure, in_handler }, .. } => {
            PartitionStep::Finish {
                safe_to_release: false,
                result: Err(lost_task(failure, in_handler)),
            }
        },
        PartitionEvent::Ended { ended: Ended::Processed(processed), lost } => if lost {
            PartitionStep::Finish { safe_to_release: false, result: Ok(()) }
        } else {
            match partition_plan(processed.resolution) {
                PartitionPlan::Advance => PartitionStep::Advance,
                PartitionPlan::Stop(kind, failure) => PartitionStep::Finish {
                    safe_to_release: false,
                    result: Err(
                        ConsumerError { kind, failure, source: provider_cause(processed.error) },
                    ),
                },
            }
        },
        PartitionEvent::Overtaken => PartitionStep::Finish {
            safe_to_release: false,
            result: Ok(()),
        },
        PartitionEvent::Answered { reply, lost } => PartitionStep::Finish {
            safe_to_release: releases(advance_outcome(reply, lost)),
            result: match advance_error(reply) {
                Some(error) => Err(error),
                None => Ok(()),
            },
        },
    }
}

/// Goes on with a partition's record from what happened.
pub fn coordinate_partition<S>(phase: PartitionPhase, event: PartitionEvent<S>) -> (step:
    PartitionStep<S>)
    requires
        partition_awaits(phase, event),
    ensures
        step == partition_step(event),
{
    match event {
        PartitionEvent::Lost => PartitionStep::Abort,
        PartitionEvent::Ended { ended: Ended::Failed { failure, in_handler }, .. } => {
            PartitionStep::Finish {
                safe_to_release: false,
                result: Err(task_error(failure, in_handler)),
            }
        },
        PartitionEvent::Ended { ended: Ended::Processed(processed), lost } => {
            if lost {
                return PartitionStep::Finish { safe_to_release: false, result: Ok(()) };
            }

            match decide_partition(processed.resolution) {
                PartitionPlan::Advance => PartitionStep::Advance,
                PartitionPlan::Stop(kind, failure) => PartitionStep::Finish {
                    safe_to_release: false,
                    result: Err(partition_stop(kind, failure, processed.error)),
                },
            }
        },
        PartitionEvent::Overtaken => PartitionStep::Finish {
            safe_to_release: false,
            result: Ok(()),
        },
        PartitionEvent::Answered { reply, lost } => {
            let (outcome, concluded) = conclude_advance(reply, lost);
            let result = match concluded {
                Ok(()) => Ok(()),
                Err(fatal) => Err(fatal),
            };

            PartitionStep::Finish { safe_to_release: outcome.is_safe_to_release(), result }
        },
    }
}

/// The step that a coordinator takes at the last of a row of events.
pub open spec fn individual_reached<S>(
    first: IndividualCoordinator<S>,
    events: Seq<IndividualEvent<S>>,
) -> IndividualStep<S>
    decreases events.len(),
{
    if events.len() == 0 {
        IndividualStep::Wait(first)
    } else {
        match individual_reached(first, events.drop_last()) {
            IndividualStep::Wait(coordinator) => individual_step(coordinator, events.last()),
            IndividualStep::Heartbeat(coordinator) => individual_step(coordinator, events.last()),
            IndividualStep::Settle(coordinator, _) => individual_step(coordinator, events.last()),
            finished => finished,
        }
    }
}

/// A row of events each of which could happen when it did.
pub open spec fn is_individual_run<S>(
    first: IndividualCoordinator<S>,
    events: Seq<IndividualEvent<S>>,
) -> bool
    decreases events.len(),
{
    if events.len() == 0 {
        first.phase is Processing
    } else {
        is_individual_run(first, events.drop_last()) && match individual_reached(
            first,
            events.drop_last(),
        ) {
            IndividualStep::Wait(coordinator) => individual_awaits(
                coordinator.phase,
                events.last(),
            ),
            IndividualStep::Heartbeat(coordinator) => individual_awaits(
                coordinator.phase,
                events.last(),
            ),
            IndividualStep::Settle(coordinator, _) => individual_awaits(
                coordinator.phase,
                events.last(),
            ),
            IndividualStep::Finish(_) => false,
        }
    }
}

/// How many settlement operations a coordinator has asked for.
pub open spec fn settlements<S>(
    first: IndividualCoordinator<S>,
    events: Seq<IndividualEvent<S>>,
) -> nat
    decreases events.len(),
{
    if events.len() == 0 {
        0
    } else {
        settlements(first, events.drop_last()) + if individual_reached(first, events) is Settle {
            1nat
        } else {
            0nat
        }
    }
}

/// How many times a workflow has ended.
pub open spec fn endings<S>(events: Seq<IndividualEvent<S>>) -> nat
    decreases events.len(),
{
    if events.len() == 0 {
        0
    } else {
        endings(events.drop_last()) + if events.last() is Ended {
            1nat
        } else {
            0nat
        }
    }
}

/// A delivery is settled once at most, and only after its workflow has ended with a resolution;
/// the operation is the one that the resolution calls for.
pub proof fn law_settled_once_after_the_workflow<S>(
    first: IndividualCoordinator<S>,
    events: Seq<IndividualEvent<S>>,
)
    requires
        is_individual_run(first, events),
    ensures
        settlements(first, events) <= 1,
        match individual_reached(first, events) {
            IndividualStep::Wait(coordinator) => coordinator.phase is Processing && settlements(
                first,
                events,
            ) == 0 && endings(events) == 0,
            IndividualStep::Heartbeat(coordinator) => coordinator.phase is Beating && settlements(
                first,
                events,
            ) == 0 && endings(events) == 0,
            IndividualStep::Settle(coordinator, action) => {
                &&& coordinator.phase is Settling
                &&& settlements(first, events) == 1
                &&& endings(events) == 1
                &&& events.last() matches IndividualEvent::Ended(Ended::Processed(processed))
                    && action == individual_plan(
                    first.mode,
                    first.nak_delay,
                    processed.resolution,
                ).action
            },
            IndividualStep::Finish(_) => endings(events) == 1,
        },
        match individual_reached(first, events) {
            IndividualStep::Wait(coordinator) => coordinator.mode == first.mode
                && coordinator.nak_delay == first.nak_delay,
            IndividualStep::Heartbeat(coordinator) => coordinator.mode == first.mode
                && coordinator.nak_delay == first.nak_delay,
            _ => true,
        },
    decreases events.len(),
{
    if events.len() > 0 {
        law_settled_once_after_the_workflow(first, events.drop_last());
    }
}

/// A delivery whose workflow did not return is never settled, and stops the consumer.
pub proof fn law_lost_workflow_leaves_the_delivery<S>(
    first: IndividualCoordinator<S>,
    events: Seq<IndividualEvent<S>>,
)
    requires
        is_individual_run(first, events),
        events.len() > 0,
        events.last() matches IndividualEvent::Ended(ended) && ended is Failed,
    ensures
        settlements(first, events) == 0,
        individual_reached(first, events) matches IndividualStep::Finish(result) && result is Err,
{
    law_settled_once_after_the_workflow(first, events.drop_last());
}

/// A partition is advanced only past a record whose workflow ended with a durable outcome while
/// the partition was held.
pub proof fn law_advance_needs_a_durable_outcome<S>(event: PartitionEvent<S>)
    requires
        partition_step(event) is Advance,
    ensures
        event matches PartitionEvent::Ended { ended: Ended::Processed(processed), lost }
            && !lost && (processed.resolution is Completed || processed.resolution is Dead),
{
}

/// Losing a partition never stops the consumer by itself, and never releases the partition on the
/// record's own account.
pub proof fn law_lost_partition_is_given_up_quietly<S>(event: PartitionEvent<S>)
    requires
        event is Overtaken || (event matches PartitionEvent::Ended { ended, lost } && lost
            && ended is Processed),
    ensures
        partition_step(event) == (PartitionStep::<S>::Finish {
            safe_to_release: false,
            result: Ok(()),
        }),
{
}

/// A record whose workflow ended with a durable outcome while its partition is held, completed or
/// dead for whatever reason, is advanced past. One that is malformed waits for an operator, and any
/// other one stays unresolved; both stop the consumer and keep the partition.
pub proof fn law_durable_outcomes_advance<S>(processed: Processed<S>)
    ensures
        ({
            let step = partition_step(
                PartitionEvent::Ended { ended: Ended::Processed(processed), lost: false },
            );
            match processed.resolution {
                Resolution::Completed => step is Advance,
                Resolution::Dead(_) => step is Advance,
                Resolution::Malformed => is_stop(
                    step,
                    ConsumerErrorKind::OperatorActionRequired(OperatorReason::Malformed),
                    FailureKind::Permanent,
                    processed.error,
                ),
                Resolution::InProgress => is_stop(
                    step,
                    ConsumerErrorKind::PartitionUnresolved,
                    FailureKind::Transient,
                    processed.error,
                ),
                Resolution::RetryRecorded => is_stop(
                    step,
                    ConsumerErrorKind::PartitionUnresolved,
                    FailureKind::Transient,
                    processed.error,
                ),
                Resolution::CommitAmbiguous { kind } => is_stop(
                    step,
                    ConsumerErrorKind::PartitionUnresolved,
                    kind,
                    processed.error,
                ),
                Resolution::Unresolved { kind } => is_stop(
                    step,
                    ConsumerErrorKind::PartitionUnresolved,
                    kind,
                    processed.error,
                ),
                Resolution::NotRecorded { kind } => is_stop(
                    step,
                    ConsumerErrorKind::PartitionUnresolved,
                    kind,
                    processed.error,
                ),
            }
        }),
{
}

/// A step that keeps the partition and stops the consumer with this failure.
pub open spec fn is_stop<S>(
    step: PartitionStep<S>,
    kind: ConsumerErrorKind,
    failure: FailureKind,
    error: Option<S>,
) -> bool {
    &&& step matches PartitionStep::Finish { safe_to_release, result: Err(fatal) }
    &&& !safe_to_release
    &&& fatal.kind == kind
    &&& fatal.failure == failure
    &&& match error {
        Some(source) => fatal.source == Some(ErrorSource::Provider(source)),
        None => fatal.source is None,
    }
}

/// Losing the partition while the workflow runs aborts the workflow.
pub proof fn law_lost_partition_aborts_the_workflow<S>()
    ensures
        partition_step(PartitionEvent::<S>::Lost) is Abort,
{
}

/// A confirmed advance of a held partition, and a fence, let the next record in without a failure.
/// Every other answer keeps the partition; it stops the consumer only if the advance failed for
/// good, with that failure.
pub proof fn law_advances_conclude_by_their_answer<S>(reply: AdvanceReply<S>, lost: bool)
    ensures
        partition_step(PartitionEvent::Answered { reply, lost }) matches PartitionStep::Finish {
            safe_to_release,
            result,
        } && {
            &&& safe_to_release <==> (reply == AdvanceReply::<S>::Reported(
                PartitionAdvance::OwnershipLost,
            ) || !lost && reply == AdvanceReply::<S>::Reported(PartitionAdvance::Advanced))
            &&& match reply {
                AdvanceReply::Failed(kind, source) => if kind is Transient {
                    result is Ok
                } else {
                    result == Err::<(), ConsumerError<S>>(
                        ConsumerError {
                            kind: ConsumerErrorKind::Settlement,
                            failure: kind,
                            source: Some(ErrorSource::Provider(source)),
                        },
                    )
                },
                _ => result is Ok,
            }
        },
{
}

/// A workflow that did not return stops the consumer, under whichever profile: a panic inside the
/// handler is the handler's, a panic elsewhere a provider's, and a cancelled task the runtime's.
pub proof fn law_lost_workflows_name_their_boundary<S>(
    coordinator: IndividualCoordinator<S>,
    failure: TaskFailure,
    in_handler: bool,
    lost: bool,
)
    ensures
        ({
            let kind = match failure {
                TaskFailure::Cancelled => ConsumerErrorKind::Runtime,
                TaskFailure::Panicked if in_handler => ConsumerErrorKind::HandlerPanicked,
                TaskFailure::Panicked => ConsumerErrorKind::ProviderPanicked,
            };
            let ended = Ended::<S>::Failed { failure, in_handler };
            &&& is_stop(
                partition_step(PartitionEvent::Ended { ended, lost }),
                kind,
                FailureKind::Permanent,
                None,
            )
            &&& individual_step(coordinator, IndividualEvent::Ended(ended)) matches
                IndividualStep::Finish(Err(fatal))
                && fatal.kind == kind && fatal.failure is Permanent && fatal.source is None
        }),
{
}

/// Heartbeats are beaten whenever they are due while the workflow runs, and whatever their reply is
/// the workflow is waited for again.
pub proof fn law_heartbeats_leave_the_delivery_alone<S>(
    first: IndividualCoordinator<S>,
    reply: SettlementReply<S>,
)
    requires
        first.phase is Processing,
    ensures
        individual_reached(first, seq![IndividualEvent::<S>::Due]) is Heartbeat,
        individual_reached(first, seq![IndividualEvent::Due, IndividualEvent::Beaten(reply)])
            == IndividualStep::Wait(first),
        is_individual_run(first, seq![IndividualEvent::Due, IndividualEvent::Beaten(reply)]),
{
    let due = seq![IndividualEvent::<S>::Due];
    let both = seq![IndividualEvent::Due, IndividualEvent::Beaten(reply)];
    assert(due.drop_last() =~= Seq::<IndividualEvent<S>>::empty());
    assert(both.drop_last() =~= due);
    assert(individual_reached(first, due.drop_last()) == IndividualStep::Wait(first));
    assert(is_individual_run(first, due.drop_last()));
    assert(is_individual_run(first, due));
}

/// From the end of the workflow on, a delivery's way is fixed: the planned operation is carried
/// out, and its reply decides the end, which is a clean one exactly if nothing of the two is fatal.
pub proof fn law_settlement_concludes_the_delivery<S>(
    first: IndividualCoordinator<S>,
    processed: Processed<S>,
    reply: SettlementReply<S>,
)
    requires
        first.phase is Processing,
    ensures
        ({
            let plan = individual_plan(first.mode, first.nak_delay, processed.resolution);
            let ended = seq![IndividualEvent::Ended(Ended::Processed(processed))];
            let events = ended.push(IndividualEvent::Settled(reply));
            let fatal = individual_error(plan, processed.resolution, processed.error, reply);
            &&& is_individual_run(first, events)
            &&& individual_reached(first, ended) matches IndividualStep::Settle(_, action) && action
                == plan.action
            &&& individual_reached(first, events) matches IndividualStep::Finish(result) && match
                result {
                Ok(()) => fatal is None,
                Err(error) => fatal == Some(error),
            }
        }),
{
    let ended = seq![IndividualEvent::Ended(Ended::Processed(processed))];
    let events = ended.push(IndividualEvent::Settled(reply));
    assert(ended.drop_last() =~= Seq::<IndividualEvent<S>>::empty());
    assert(events.drop_last() =~= ended);
    assert(individual_reached(first, ended.drop_last()) == IndividualStep::Wait(first));
    assert(is_individual_run(first, ended.drop_last()));
    assert(is_individual_run(first, ended));
}

/// While its workflow runs, a delivery can see the workflow end or a heartbeat fall due, and
/// nothing else; a heartbeat and a settlement are answered before anything else happens. A
/// partition's record can see its partition lost while the workflow runs and before its advance
/// begins.
pub proof fn law_coordinators_wait_for_what_they_asked<S>(
    phase: IndividualPhase<S>,
    event: IndividualEvent<S>,
    at: PartitionPhase,
    happened: PartitionEvent<S>,
)
    ensures
        individual_awaits(phase, event) <==> match event {
            IndividualEvent::Ended(_) => phase is Processing,
            IndividualEvent::Due => phase is Processing,
            IndividualEvent::Beaten(_) => phase is Beating,
            IndividualEvent::Settled(_) => phase is Settling,
        },
        partition_awaits(at, happened) <==> match happened {
            PartitionEvent::Lost => at is Processing,
            PartitionEvent::Ended { .. } => at is Processing,
            PartitionEvent::Overtaken => at is Advancing,
            PartitionEvent::Answered { .. } => at is Advancing,
        },
{
}

} // verus!
