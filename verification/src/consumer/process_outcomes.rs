//! What a workflow's result says of what happened to its delivery.

use crate::consumer::process::{
    awaits, is_ordinary, Claim, DatabaseFailure, FailureReport, Phase, Stage, WorkflowAction,
    WorkflowEvent, WorkflowStep,
};
use crate::consumer::process_laws::{is_run, reached};
use crate::consumer::settlement::Resolution;
use crate::failure::FailureKind;
use crate::inbox::claim::InboxClaimOutcome;
use crate::inbox::failure::{InboxFailure, InboxFailureOutcome};
use vstd::prelude::*;

verus! {

/// A database operation that timed out counts as transient and has no cause; one that failed keeps
/// its classification and its cause.
pub open spec fn shows<S>(failure: DatabaseFailure<S>, kind: FailureKind, cause: Option<S>) -> bool {
    match failure {
        DatabaseFailure::TimedOut => kind is Transient && cause is None,
        DatabaseFailure::Failed(actual, source) => kind == actual && cause == Some(source),
    }
}

/// A rollback that failed for good: not by a timeout, and not transiently.
pub open spec fn failed_for_good<S>(rolled_back: Result<(), DatabaseFailure<S>>) -> bool {
    rolled_back matches Err(DatabaseFailure::Failed(kind, _)) && !(kind is Transient)
}

/// The event before the last one.
pub open spec fn previous<R, S>(events: Seq<WorkflowEvent<R, S>>) -> WorkflowEvent<R, S> {
    events[events.len() - 2]
}

proof fn lemma_before<R, S>(events: Seq<WorkflowEvent<R, S>>)
    requires
        is_run(events),
        events.len() > 1,
    ensures
        is_run(events.drop_last()),
        reached(events.drop_last()) is Continue,
        awaits(reached(events.drop_last())->Continue_0.phase, events.last()),
        events.drop_last().last() == previous(events),
{
}

/// A failure record tells what became of the message: a dead receipt makes it dead for the reason
/// that the inbox gave, a retry leaves it to be tried again, a completed receipt completes it, and
/// a record that failed is not confirmed.
pub proof fn law_failure_records_are_reported<R, S>(
    events: Seq<WorkflowEvent<R, S>>,
    recorded: Result<Option<InboxFailureOutcome>, DatabaseFailure<S>>,
)
    requires
        is_run(events),
        events.last() == WorkflowEvent::<R, S>::Recorded(recorded),
    ensures
        reached(events) matches WorkflowStep::Finished(processed) && {
            &&& recorded matches Ok(Some(InboxFailureOutcome::Dead { reason, .. }))
                ==> processed.resolution == Resolution::Dead(reason)
            &&& recorded matches Ok(Some(InboxFailureOutcome::Retry { .. }))
                ==> processed.resolution is RetryRecorded
            &&& recorded matches Ok(Some(InboxFailureOutcome::CompletedDuplicate))
                ==> processed.resolution is Completed
            &&& recorded matches Ok(None) ==> processed.resolution == (Resolution::Unresolved {
                kind: FailureKind::Permanent,
            })
            &&& recorded is Ok ==> processed.error is None
            &&& recorded matches Err(failure) ==> processed.resolution is NotRecorded && shows(
                failure,
                processed.resolution->NotRecorded_kind,
                processed.error,
            )
            &&& processed.stage == if previous(events) is Decoded {
                Stage::Decode
            } else {
                Stage::Fail
            }
        },
{
    lemma_before(events);
    if events.len() > 2 {
        lemma_before(events.drop_last());
    }
}

/// A claim that runs no handler tells what became of the message, unless giving the transaction up
/// failed for good: then the delivery is left, with that failure as its cause.
pub proof fn law_claims_are_reported<R, S>(
    events: Seq<WorkflowEvent<R, S>>,
    claimed: Result<Option<InboxClaimOutcome<Claim<R>>>, DatabaseFailure<S>>,
    rolled_back: Result<(), DatabaseFailure<S>>,
)
    requires
        is_run(events),
        events.len() > 1,
        previous(events) == WorkflowEvent::<R, S>::Claimed(claimed),
        events.last() == WorkflowEvent::<R, S>::RolledBack(rolled_back),
    ensures
        !(claimed matches Ok(Some(InboxClaimOutcome::Claimed(_)))),
        reached(events) matches WorkflowStep::Finished(processed) && if failed_for_good(
            rolled_back,
        ) {
            &&& processed.resolution == (Resolution::Unresolved { kind: FailureKind::Permanent })
            &&& processed.stage is Rollback
            &&& processed.error == Some(rolled_back->Err_0->Failed_1)
        } else {
            &&& processed.stage is Claim
            &&& claimed matches Ok(Some(InboxClaimOutcome::CompletedDuplicate))
                ==> processed.resolution is Completed
            &&& claimed matches Ok(Some(InboxClaimOutcome::InProgressDuplicate))
                ==> processed.resolution is InProgress
            &&& claimed matches Ok(Some(InboxClaimOutcome::DeadDuplicate { reason }))
                ==> processed.resolution == Resolution::Dead(reason)
            &&& claimed matches Ok(None) ==> processed.resolution == (Resolution::Unresolved {
                kind: FailureKind::Permanent,
            })
            &&& claimed is Ok ==> processed.error is None
            &&& claimed matches Err(failure) ==> processed.resolution is Unresolved && shows(
                failure,
                processed.resolution->Unresolved_kind,
                processed.error,
            )
        },
{
    lemma_before(events);
    if events.len() > 2 {
        lemma_before(events.drop_last());
    }
}

/// A completion that failed, like a claim that failed, leaves the delivery unresolved with that
/// failure, unless giving the transaction up failed for good.
pub proof fn law_failed_completions_are_reported<R, S>(
    events: Seq<WorkflowEvent<R, S>>,
    failure: DatabaseFailure<S>,
    rolled_back: Result<(), DatabaseFailure<S>>,
)
    requires
        is_run(events),
        events.len() > 1,
        previous(events) == WorkflowEvent::<R, S>::Completed(Err(failure)),
        events.last() == WorkflowEvent::<R, S>::RolledBack(rolled_back),
    ensures
        reached(events) matches WorkflowStep::Finished(processed) && if failed_for_good(
            rolled_back,
        ) {
            &&& processed.resolution == (Resolution::Unresolved { kind: FailureKind::Permanent })
            &&& processed.stage is Rollback
            &&& processed.error == Some(rolled_back->Err_0->Failed_1)
        } else {
            &&& processed.stage is Complete
            &&& processed.resolution is Unresolved
            &&& shows(failure, processed.resolution->Unresolved_kind, processed.error)
        },
{
    lemma_before(events);
    if events.len() > 2 {
        lemma_before(events.drop_last());
    }
}

/// A handler that failed has its own failure recorded, unchanged, once its transaction is rolled
/// back. Where the rollback is not confirmed nothing is recorded, and the result says so.
pub proof fn law_handler_failures_are_recorded_as_they_are<R, S>(
    events: Seq<WorkflowEvent<R, S>>,
    failure: InboxFailure,
    rolled_back: Result<(), DatabaseFailure<S>>,
)
    requires
        is_run(events),
        events.len() > 1,
        previous(events) == WorkflowEvent::<R, S>::Handled(Err(failure)),
        events.last() == WorkflowEvent::<R, S>::RolledBack(rolled_back),
    ensures
        rolled_back is Ok ==> (reached(events) matches WorkflowStep::Continue(_, action) && action
            == WorkflowAction::<R>::Record(FailureReport::Handler(failure))),
        rolled_back matches Err(rollback) ==> (reached(events) matches WorkflowStep::Finished(
            processed,
        ) && processed.stage is Rollback && processed.resolution is NotRecorded && shows(
            rollback,
            processed.resolution->NotRecorded_kind,
            processed.error,
        )),
{
    lemma_before(events);
    if events.len() > 2 {
        lemma_before(events.drop_last());
    }
}

/// What a workflow does at each turn: it decodes what was mapped, begins a transaction for what was
/// decoded, claims in it, handles what was claimed, completes the receipt that it claimed, and
/// commits; it records that a body cannot be decoded, and rolls back wherever it does not go on.
pub proof fn law_workflow_goes_on<R, S>(events: Seq<WorkflowEvent<R, S>>)
    requires
        is_run(events),
        events.len() > 1 || events.last() matches WorkflowEvent::Mapped(Some(_)),
    ensures
        match events.last() {
            WorkflowEvent::Mapped(_) => reached(events) matches WorkflowStep::Continue(
                _,
                WorkflowAction::Decode,
            ),
            WorkflowEvent::Decoded(true) => reached(events) matches WorkflowStep::Continue(
                _,
                WorkflowAction::Begin,
            ),
            WorkflowEvent::Decoded(false) => reached(events) matches WorkflowStep::Continue(
                _,
                WorkflowAction::Record(FailureReport::Undecodable),
            ),
            WorkflowEvent::Began(Ok(())) => reached(events) matches WorkflowStep::Continue(
                _,
                WorkflowAction::Claim,
            ),
            WorkflowEvent::Claimed(Ok(Some(InboxClaimOutcome::Claimed(_)))) => {
                reached(events) matches WorkflowStep::Continue(_, WorkflowAction::Handle)
            },
            WorkflowEvent::Claimed(_) => reached(events) matches WorkflowStep::Continue(
                _,
                WorkflowAction::Rollback,
            ),
            WorkflowEvent::Handled(Ok(())) => {
                &&& previous(events) matches WorkflowEvent::Claimed(Ok(Some(
                    InboxClaimOutcome::Claimed(claim),
                ))) && reached(events) matches WorkflowStep::Continue(_, action) && action
                    == WorkflowAction::Complete(claim.receipt)
            },
            WorkflowEvent::Handled(Err(_)) => reached(events) matches WorkflowStep::Continue(
                _,
                WorkflowAction::Rollback,
            ),
            WorkflowEvent::Completed(Ok(())) => reached(events) matches WorkflowStep::Continue(
                _,
                WorkflowAction::Commit,
            ),
            WorkflowEvent::Completed(Err(_)) => reached(events) matches WorkflowStep::Continue(
                _,
                WorkflowAction::Rollback,
            ),
            _ => true,
        },
{
    if events.len() > 1 {
        lemma_before(events);
        if events.len() > 2 {
            lemma_before(events.drop_last());
        }
    }
}

/// How the other operations end a workflow: a malformed value at once, a transaction that could
/// not be begun as unresolved, a commit as completed, and a commit that failed as ambiguous.
pub proof fn law_workflow_ends<R, S>(events: Seq<WorkflowEvent<R, S>>)
    requires
        is_run(events),
    ensures
        events.last() matches WorkflowEvent::Mapped(None) ==> (reached(
            events,
        ) matches WorkflowStep::Finished(processed) && processed.resolution is Malformed
            && processed.stage is Mapping && processed.error is None),
        events.last() matches WorkflowEvent::Began(Err(failure)) ==> (reached(
            events,
        ) matches WorkflowStep::Finished(processed) && processed.resolution is Unresolved
            && processed.stage is Begin && shows(
            failure,
            processed.resolution->Unresolved_kind,
            processed.error,
        )),
        events.last() matches WorkflowEvent::Committed(Ok(())) ==> (reached(
            events,
        ) matches WorkflowStep::Finished(processed) && processed.resolution is Completed
            && processed.stage is Commit && processed.error is None),
        events.last() matches WorkflowEvent::Committed(Err(failure)) ==> (reached(
            events,
        ) matches WorkflowStep::Finished(processed) && processed.resolution is CommitAmbiguous
            && processed.stage is Commit && shows(
            failure,
            processed.resolution->CommitAmbiguous_kind,
            processed.error,
        )),
{
    if events.len() > 1 {
        lemma_before(events);
    }
}

/// After each action exactly the outcome of that action is awaited.
pub proof fn law_actions_await_their_outcome<R, S>(
    events: Seq<WorkflowEvent<R, S>>,
    next: WorkflowEvent<R, S>,
)
    requires
        is_run(events),
        reached(events) is Continue,
    ensures
        is_run(events.push(next)) <==> match reached(events)->Continue_1 {
            WorkflowAction::Decode => next is Decoded,
            WorkflowAction::Begin => next is Began,
            WorkflowAction::Claim => next is Claimed,
            WorkflowAction::Handle => next is Handled,
            WorkflowAction::Complete(_) => next is Completed,
            WorkflowAction::Commit => next is Committed,
            WorkflowAction::Rollback => next is RolledBack,
            WorkflowAction::Record(_) => next is Recorded,
        },
{
    assert(events.push(next).drop_last() =~= events);
    assert(events.push(next).last() == next);
    if events.len() > 1 {
        lemma_before(events);
        if events.len() > 2 {
            lemma_before(events.drop_last());
        }
    }
}

/// Where a run is once it goes on with an action: how many events led there.
spec fn is_placed<R, S>(events: Seq<WorkflowEvent<R, S>>) -> bool {
    match reached(events) {
        WorkflowStep::Continue(workflow, _) => match workflow.phase {
            Phase::Mapping => false,
            Phase::Decoding => events.len() == 1,
            Phase::Beginning => events.len() == 2,
            Phase::Claiming => events.len() == 3,
            Phase::Handling { .. } => events.len() == 4,
            Phase::Completing => events.len() == 5,
            Phase::Committing => events.len() == 6,
            Phase::Discarding { kept } => events.len() >= 4 && kept.message_id
                == workflow.message_id && kept.attempt == workflow.attempt,
            Phase::RollingBack { .. } => events.len() == 5,
            Phase::Recording { stage } => if stage is Decode {
                events.len() == 2
            } else {
                events.len() == 6
            },
        },
        WorkflowStep::Finished(_) => events.len() == 3 ==> !(events[2] is Claimed),
    }
}

proof fn lemma_kept<R, S>(events: Seq<WorkflowEvent<R, S>>)
    requires
        is_run(events),
    ensures
        is_placed(events),
        match reached(events) {
            WorkflowStep::Continue(workflow, _) => {
                &&& events[0] == WorkflowEvent::<R, S>::Mapped(workflow.message_id)
                &&& attempt_is(events, workflow.attempt)
            },
            WorkflowStep::Finished(processed) => {
                &&& events[0] == WorkflowEvent::<R, S>::Mapped(processed.message_id)
                &&& attempt_is(events, processed.attempt)
            },
        },
    decreases events.len(),
{
    if events.len() > 1 {
        let before = events.drop_last();
        lemma_before(events);
        lemma_kept(before);
        assert(before[0] == events[0]);
        if events.len() > 4 {
            assert(before[3] == events[3]);
        }
    }
}

/// The attempt of a run: one more than the failures recorded before its claim, if it claimed.
pub open spec fn attempt_is<R, S>(events: Seq<WorkflowEvent<R, S>>, attempt: Option<u32>) -> bool {
    match attempt {
        Some(number) => events.len() >= 4 && (events[3] matches WorkflowEvent::Claimed(Ok(Some(
            InboxClaimOutcome::Claimed(claim),
        ))) && (number == claim.recorded_failures + 1 || claim.recorded_failures == u32::MAX
            && number == u32::MAX)),
        None => events.len() >= 4 ==> !(events[3] matches WorkflowEvent::Claimed(Ok(Some(
            InboxClaimOutcome::Claimed(_),
        )))),
    }
}

/// A workflow carries the identity that was mapped, and the number of the attempt: one more than
/// the failures recorded before its claim, and none before a handler runs.
pub proof fn law_identity_and_attempt_are_kept<R, S>(events: Seq<WorkflowEvent<R, S>>)
    requires
        is_run(events),
    ensures
        match reached(events) {
            WorkflowStep::Continue(workflow, _) => {
                &&& events[0] == WorkflowEvent::<R, S>::Mapped(workflow.message_id)
                &&& attempt_is(events, workflow.attempt)
            },
            WorkflowStep::Finished(processed) => {
                &&& events[0] == WorkflowEvent::<R, S>::Mapped(processed.message_id)
                &&& attempt_is(events, processed.attempt)
            },
        },
{
    lemma_kept(events);
}

/// A finished run shows an error category unless it committed, or its claim alone told what became
/// of the message and the transaction was given up.
pub proof fn law_ordinary_ends_show_no_error<R, S>(events: Seq<WorkflowEvent<R, S>>)
    requires
        is_run(events),
        reached(events) is Finished,
    ensures
        ({
            let processed = reached(events)->Finished_0;
            is_ordinary(processed.resolution, processed.stage) <==> {
                ||| events.last() matches WorkflowEvent::Committed(Ok(()))
                ||| {
                    &&& events.len() > 1
                    &&& previous(events) matches WorkflowEvent::Claimed(Ok(Some(_)))
                    &&& events.last() matches WorkflowEvent::RolledBack(rolled_back)
                        && !failed_for_good(rolled_back)
                }
            }
        }),
{
    if events.len() > 1 {
        lemma_before(events);
        if events.len() > 2 {
            lemma_before(events.drop_last());
        }
    }
}

/// Every other resolution is reached only on what it tells: a retry on a failure that the inbox
/// recorded for one, work elsewhere on a claim that found it, a malformed value on a mapping that
/// failed, an ambiguous commit on a commit that failed, and an unconfirmed record on a rollback or
/// a record that failed.
pub proof fn law_resolutions_are_grounded<R, S>(events: Seq<WorkflowEvent<R, S>>)
    requires
        is_run(events),
        reached(events) is Finished,
    ensures
        match reached(events)->Finished_0.resolution {
            Resolution::RetryRecorded => events.last() matches WorkflowEvent::Recorded(Ok(Some(
                InboxFailureOutcome::Retry { .. },
            ))),
            Resolution::InProgress => previous(events) matches WorkflowEvent::Claimed(Ok(Some(
                InboxClaimOutcome::InProgressDuplicate,
            ))),
            Resolution::Malformed => events.last() matches WorkflowEvent::Mapped(None),
            Resolution::CommitAmbiguous { .. } => events.last() matches WorkflowEvent::Committed(
                Err(_),
            ),
            Resolution::NotRecorded { .. } => {
                ||| events.last() matches WorkflowEvent::Recorded(Err(_))
                ||| (events.last() matches WorkflowEvent::RolledBack(Err(_)) && previous(
                    events,
                ) matches WorkflowEvent::Handled(Err(_)))
            },
            _ => true,
        },
{
    if events.len() > 1 {
        lemma_before(events);
        if events.len() > 2 {
            lemma_before(events.drop_last());
        }
    }
}

} // verus!
