//! What holds of every run of a workflow.

use crate::consumer::process::{
    awaits, fresh, next_step, Phase, WorkflowAction, WorkflowEvent, WorkflowStep,
};
use crate::consumer::settings::SettlementMode;
use crate::consumer::settlement::individual_plan;
use crate::inbox::claim::InboxClaimOutcome;
use crate::inbox::failure::InboxFailureOutcome;
use std::time::Duration;
use vstd::prelude::*;

verus! {

/// The step that a workflow takes at the last of a row of events, each handed to the workflow that
/// the events before it led to.
pub open spec fn reached<R, S>(events: Seq<WorkflowEvent<R, S>>) -> WorkflowStep<R, S>
    decreases events.len(),
{
    if events.len() <= 1 {
        next_step(fresh::<R, S>(), events.last())
    } else {
        match reached(events.drop_last()) {
            WorkflowStep::Continue(workflow, _) => next_step(workflow, events.last()),
            finished => finished,
        }
    }
}

/// A row of events each of which was awaited when it came.
pub open spec fn is_run<R, S>(events: Seq<WorkflowEvent<R, S>>) -> bool
    decreases events.len(),
{
    if events.len() == 0 {
        false
    } else if events.len() == 1 {
        events.last() is Mapped
    } else {
        is_run(events.drop_last()) && match reached(events.drop_last()) {
            WorkflowStep::Continue(workflow, _) => awaits(workflow.phase, events.last()),
            WorkflowStep::Finished(_) => false,
        }
    }
}

/// A transaction was begun.
pub open spec fn has_begun<R, S>(event: WorkflowEvent<R, S>) -> bool {
    event matches WorkflowEvent::Began(Ok(()))
}

/// How many transactions a run began.
pub open spec fn begun<R, S>(events: Seq<WorkflowEvent<R, S>>) -> nat
    decreases events.len(),
{
    if events.len() == 0 {
        0
    } else {
        begun(events.drop_last()) + if has_begun(events.last()) {
            1nat
        } else {
            0nat
        }
    }
}

/// A step that gives the transaction up.
pub open spec fn gives_up<R, S>(step: WorkflowStep<R, S>) -> bool {
    match step {
        WorkflowStep::Continue(_, action) => action is Commit || action is Rollback,
        WorkflowStep::Finished(_) => false,
    }
}

/// How many times a run committed or rolled back.
pub open spec fn given_up<R, S>(events: Seq<WorkflowEvent<R, S>>) -> nat
    decreases events.len(),
{
    if events.len() == 0 {
        0
    } else {
        given_up(events.drop_last()) + if gives_up(reached(events)) {
            1nat
        } else {
            0nat
        }
    }
}

/// A step that runs the handler.
pub open spec fn handles<R, S>(step: WorkflowStep<R, S>) -> bool {
    match step {
        WorkflowStep::Continue(_, action) => action is Handle,
        WorkflowStep::Finished(_) => false,
    }
}

/// How many times a run ran the handler.
pub open spec fn handled<R, S>(events: Seq<WorkflowEvent<R, S>>) -> nat
    decreases events.len(),
{
    if events.len() == 0 {
        0
    } else {
        handled(events.drop_last()) + if handles(reached(events)) {
            1nat
        } else {
            0nat
        }
    }
}

/// The inbox reported that the message is completed.
pub open spec fn reports_completion<R, S>(event: WorkflowEvent<R, S>) -> bool {
    ||| event matches WorkflowEvent::Committed(Ok(()))
    ||| event matches WorkflowEvent::Claimed(Ok(Some(InboxClaimOutcome::CompletedDuplicate)))
    ||| event matches WorkflowEvent::Recorded(Ok(Some(InboxFailureOutcome::CompletedDuplicate)))
}

/// A run in which the inbox reported that the message is completed.
pub open spec fn saw_completion<R, S>(events: Seq<WorkflowEvent<R, S>>) -> bool {
    exists|i: int| 0 <= i < events.len() && reports_completion(#[trigger] events[i])
}

/// The inbox reported that it holds a dead receipt of the message.
pub open spec fn reports_death<R, S>(event: WorkflowEvent<R, S>) -> bool {
    ||| event matches WorkflowEvent::Claimed(Ok(Some(InboxClaimOutcome::DeadDuplicate { .. })))
    ||| event matches WorkflowEvent::Recorded(Ok(Some(InboxFailureOutcome::Dead { .. })))
}

/// A run in which the inbox reported that it holds a dead receipt of the message.
pub open spec fn saw_death<R, S>(events: Seq<WorkflowEvent<R, S>>) -> bool {
    exists|i: int| 0 <= i < events.len() && reports_death(#[trigger] events[i])
}

/// How far a run is once it waits in a phase: its length, its open and given-up transactions, its
/// handler runs, and whether it saw completion.
spec fn standing<R, S>(phase: Phase<R, S>, events: Seq<WorkflowEvent<R, S>>) -> bool {
    &&& match phase {
        Phase::Mapping => false,
        Phase::Decoding => events.len() == 1,
        Phase::Beginning => events.len() == 2,
        Phase::Claiming => events.len() == 3,
        Phase::Handling { .. } => events.len() == 4,
        Phase::Completing => events.len() == 5,
        Phase::Committing => events.len() == 6,
        Phase::Discarding { .. } => events.len() <= 6,
        Phase::RollingBack { .. } => events.len() == 5,
        Phase::Recording { .. } => events.len() <= 6,
    }
    &&& match phase {
        Phase::Mapping | Phase::Decoding | Phase::Beginning => begun(events) == 0 && given_up(
            events,
        ) == 0,
        Phase::Claiming | Phase::Handling { .. } | Phase::Completing => begun(events) == 1
            && given_up(events) == 0,
        Phase::Recording { stage } => begun(events) == given_up(events) && begun(events)
            == if stage is Decode {
            0nat
        } else {
            1nat
        },
        _ => begun(events) == 1 && given_up(events) == 1,
    }
    &&& match phase {
        Phase::Mapping | Phase::Decoding | Phase::Beginning | Phase::Claiming => handled(events)
            == 0,
        Phase::Handling { .. } | Phase::Completing | Phase::Committing | Phase::RollingBack {
            ..
        } => handled(events) == 1,
        _ => handled(events) <= 1,
    }
    &&& phase matches Phase::Discarding { kept } ==> (kept.resolution is Completed
        ==> saw_completion(events)) && (kept.resolution is Dead ==> saw_death(events))
}

proof fn lemma_standing<R, S>(events: Seq<WorkflowEvent<R, S>>)
    requires
        is_run(events),
    ensures
        match reached(events) {
            WorkflowStep::Continue(workflow, _) => standing(workflow.phase, events),
            WorkflowStep::Finished(processed) => {
                &&& events.len() <= 7
                &&& begun(events) == given_up(events)
                &&& begun(events) <= 1
                &&& handled(events) <= 1
                &&& processed.resolution is Completed ==> saw_completion(events)
                &&& processed.resolution is Dead ==> saw_death(events)
            },
        },
    decreases events.len(),
{
    let last = events.last();
    let before = events.drop_last();
    reveal_with_fuel(begun, 2);
    reveal_with_fuel(given_up, 2);
    reveal_with_fuel(handled, 2);

    if events.len() > 1 {
        lemma_standing(before);
        assert(reports_completion(last) ==> saw_completion(events)) by {
            assert(events[events.len() - 1] == last);
        }
        assert(saw_completion(before) ==> saw_completion(events)) by {
            if saw_completion(before) {
                let i = choose|i: int|
                    0 <= i < before.len() && reports_completion(#[trigger] before[i]);
                assert(events[i] == before[i]);
            }
        }
        assert(reports_death(last) ==> saw_death(events)) by {
            assert(events[events.len() - 1] == last);
        }
        assert(saw_death(before) ==> saw_death(events)) by {
            if saw_death(before) {
                let i = choose|i: int|
                    0 <= i < before.len() && reports_death(#[trigger] before[i]);
                assert(events[i] == before[i]);
            }
        }
    } else {
        assert(before.len() == 0);
    }
}

/// A message counts as completed only if its commit succeeded in this run, or the inbox reported
/// it as completed.
pub proof fn law_completion_is_durable<R, S>(events: Seq<WorkflowEvent<R, S>>)
    requires
        is_run(events),
    ensures
        reached(events) matches WorkflowStep::Finished(processed)
            && processed.resolution is Completed ==> saw_completion(events),
{
    lemma_standing(events);
}

/// A message counts as dead only if the inbox reported a dead receipt of it.
pub proof fn law_death_is_durable<R, S>(events: Seq<WorkflowEvent<R, S>>)
    requires
        is_run(events),
    ensures
        reached(events) matches WorkflowStep::Finished(processed) && processed.resolution is Dead
            ==> saw_death(events),
{
    lemma_standing(events);
}

/// A delivery is acknowledged only after its commit succeeded, or after the inbox reported its
/// message as completed.
pub proof fn law_ack_follows_durable_completion<R, S>(
    events: Seq<WorkflowEvent<R, S>>,
    mode: SettlementMode,
    nak_delay: Duration,
)
    requires
        is_run(events),
    ensures
        reached(events) matches WorkflowStep::Finished(processed) && individual_plan(
            mode,
            nak_delay,
            processed.resolution,
        ).action is Ack ==> saw_completion(events),
{
    lemma_standing(events);
}

/// A finished run has committed or rolled back every transaction that it began, each once, and it
/// began one at most.
pub proof fn law_finished_runs_hold_no_transaction<R, S>(events: Seq<WorkflowEvent<R, S>>)
    requires
        is_run(events),
    ensures
        begun(events) <= 1,
        reached(events) is Finished ==> given_up(events) == begun(events),
{
    lemma_standing(events);
}

/// A failure is recorded outside any transaction: none was begun, or the rollback was confirmed
/// just before.
pub proof fn law_failures_are_recorded_after_rollback<R, S>(events: Seq<WorkflowEvent<R, S>>)
    requires
        is_run(events),
    ensures
        reached(events) matches WorkflowStep::Continue(_, WorkflowAction::Record(report)) ==> {
            &&& given_up(events) == begun(events)
            &&& report is Undecodable ==> begun(events) == 0
            &&& report is Handler ==> events.last() matches WorkflowEvent::RolledBack(Ok(()))
        },
{
    lemma_standing(events);
    if events.len() > 1 {
        lemma_standing(events.drop_last());
    }
}

/// The handler runs once at most, and only in the transaction that claimed the receipt.
pub proof fn law_handler_runs_once_after_the_claim<R, S>(events: Seq<WorkflowEvent<R, S>>)
    requires
        is_run(events),
    ensures
        handled(events) <= 1,
        handles(reached(events)) ==> {
            &&& events.last() matches WorkflowEvent::Claimed(Ok(Some(InboxClaimOutcome::Claimed(_))))
            &&& begun(events) == 1
            &&& given_up(events) == 0
        },
{
    lemma_standing(events);
    if events.len() > 1 {
        lemma_standing(events.drop_last());
    }
}

/// A commit follows only a handler success and the completion of the claimed receipt.
pub proof fn law_commit_follows_completion<R, S>(events: Seq<WorkflowEvent<R, S>>)
    requires
        is_run(events),
        reached(events) matches WorkflowStep::Continue(_, WorkflowAction::Commit),
    ensures
        events.last() matches WorkflowEvent::Completed(Ok(())),
        handled(events) == 1,
{
    lemma_standing(events);
    if events.len() > 1 {
        lemma_standing(events.drop_last());
    }
}

/// Every run ends after a few operations.
pub proof fn law_runs_are_bounded<R, S>(events: Seq<WorkflowEvent<R, S>>)
    requires
        is_run(events),
    ensures
        events.len() <= 7,
        events.len() == 7 ==> reached(events) is Finished,
{
    lemma_standing(events);
}

} // verus!
