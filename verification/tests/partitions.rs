//! Ordered partition coordination.

use sisa_messaging::consumer::coordinate::{
    coordinate_partition, Ended, PartitionEvent, PartitionPhase, PartitionStep,
};
use sisa_messaging::consumer::error::ErrorSource;
use sisa_messaging::consumer::partitioned::{
    conclude_advance, decide_partition, overlap_error, partition_stop, Admission, AdvanceOutcome,
    AdvanceReply, PartitionPlan, PartitionTable, Release,
};
use sisa_messaging::consumer::process::{Processed, Stage};
use sisa_messaging::consumer::settlement::Resolution;
use sisa_messaging::consumer::worker::TaskFailure;
use sisa_messaging::consumer::{ConsumerError, ConsumerErrorKind, OperatorReason};
use sisa_messaging::delivery::PartitionAdvance;
use sisa_messaging::failure::FailureKind;
use sisa_messaging::inbox::DeadReason;

type Table = PartitionTable<&'static str>;

fn start(table: &mut Table, partition: u64, delivery: &'static str) -> u64 {
    match table.receive(partition, delivery) {
        Admission::Start {
            delivery: started,
            token,
        } => {
            assert_eq!(started, delivery);
            assert_eq!(table.token(partition), Some(token));
            token
        }
        _ => panic!("the record must be started"),
    }
}

fn overlaps(table: &mut Table, partition: u64, delivery: &'static str) {
    assert!(matches!(
        table.receive(partition, delivery),
        Admission::Overlap(refused) if refused == delivery
    ));
}

fn defers(table: &mut Table, partition: u64, delivery: &'static str) {
    assert!(matches!(
        table.receive(partition, delivery),
        Admission::Deferred
    ));
}

#[test]
fn indeterminate_advance_retains_partition_and_stale_token_cannot_clear_new_owner() {
    let mut table = Table::new();
    let first = start(&mut table, 7, "first");

    assert!(matches!(table.finish(7, first, false), Release::Retained));
    assert!(table.is_active(7));

    table.ownership_lost(7);
    let next = start(&mut table, 7, "next");
    assert_ne!(first, next);

    assert!(matches!(table.finish(7, first, true), Release::Ignored));
    assert_eq!(table.token(7), Some(next));

    assert!(matches!(table.finish(7, next, true), Release::Free));
    assert!(!table.is_active(7));
}

#[test]
fn committed_record_advances_before_clean_close() {
    let mut table = Table::new();
    let token = start(&mut table, 1, "record");

    assert_eq!(
        decide_partition(Resolution::Completed),
        PartitionPlan::Advance
    );
    assert!(table.begin_advance(1, token));

    let (outcome, result) =
        conclude_advance::<()>(AdvanceReply::Reported(PartitionAdvance::Advanced), false);
    assert_eq!(outcome, AdvanceOutcome::Advanced);
    assert_eq!(outcome.as_str(), "advanced");
    assert!(result.is_ok());
    assert!(matches!(
        table.finish(1, token, outcome.is_safe_to_release()),
        Release::Free
    ));
}

#[test]
fn same_partition_overlap_stops_without_advancing_later_record() {
    let mut table = Table::new();
    start(&mut table, 1, "first");
    overlaps(&mut table, 1, "second");

    let error: ConsumerError<()> = overlap_error();
    assert_eq!(error.kind(), ConsumerErrorKind::PartitionOrder);
    assert_eq!(error.failure_kind(), FailureKind::Permanent);
    assert!(error.provider_source().is_none());
}

#[test]
fn ownership_loss_cancels_work_and_leaves_record_unadvanced() {
    let mut table = Table::new();
    let token = start(&mut table, 1, "record");
    let withdrawal = table.ownership_lost(1);

    assert_eq!(withdrawal.cancelled, Some(token));
    assert_eq!(withdrawal.dropped, None);
    assert!(!table.begin_advance(1, token));
    assert!(matches!(table.finish(1, token, false), Release::Free));
    assert_eq!(table.ownership_lost(1).cancelled, None);
}

#[test]
fn conclusive_fenced_advance_releases_partition_for_reconciled_generation() {
    let mut table = Table::new();
    let token = start(&mut table, 1, "record");
    assert!(table.begin_advance(1, token));

    let (outcome, result) =
        conclude_advance::<()>(AdvanceReply::Reported(PartitionAdvance::OwnershipLost), false);
    assert_eq!(outcome.as_str(), "advance_fenced");
    assert!(result.is_ok());
    assert!(matches!(
        table.finish(1, token, outcome.is_safe_to_release()),
        Release::Free
    ));
    start(&mut table, 1, "replayed");
}

#[test]
fn timed_out_advance_pauses_partition_but_allows_another_partition() {
    let mut table = Table::new();
    let token = start(&mut table, 1, "first");
    assert!(table.begin_advance(1, token));

    let (outcome, result) = conclude_advance::<()>(AdvanceReply::TimedOut, false);
    assert_eq!(outcome, AdvanceOutcome::Uncertain);
    assert_eq!(outcome.as_str(), "advance_uncertain");
    assert!(result.is_ok());
    assert!(matches!(
        table.finish(1, token, outcome.is_safe_to_release()),
        Release::Retained
    ));
    start(&mut table, 2, "other");
}

#[test]
fn returned_advance_errors_follow_their_failure_classification() {
    let (outcome, result) =
        conclude_advance(AdvanceReply::Failed(FailureKind::Transient, "cause"), false);
    assert_eq!(outcome, AdvanceOutcome::Uncertain);
    assert!(result.is_ok());

    for kind in [FailureKind::Permanent, FailureKind::Unknown] {
        let (outcome, result) = conclude_advance(AdvanceReply::Failed(kind, "cause"), false);
        assert_eq!(outcome, AdvanceOutcome::Failed);
        assert_eq!(outcome.as_str(), "advance_uncertain");
        assert!(!outcome.is_safe_to_release());

        let Err(error) = result else {
            panic!("the run must stop");
        };
        assert_eq!(error.kind(), ConsumerErrorKind::Settlement);
        assert_eq!(error.failure_kind(), kind);
        assert!(matches!(
            error.provider_source(),
            Some(ErrorSource::Provider("cause"))
        ));
    }
}

#[test]
fn replacement_waits_for_old_transaction_drop_after_ownership_loss() {
    let mut table = Table::new();
    let old = start(&mut table, 1, "old");
    table.ownership_lost(1);
    defers(&mut table, 1, "replacement");

    let Release::Restart { delivery, token } = table.finish(1, old, false) else {
        panic!("the replacement must be started");
    };
    assert_eq!(delivery, "replacement");
    assert_ne!(token, old);
    assert_eq!(table.token(1), Some(token));
}

#[test]
fn a_second_replacement_on_the_same_partition_stops_without_skipping() {
    let mut table = Table::new();
    start(&mut table, 1, "old");
    table.ownership_lost(1);
    defers(&mut table, 1, "replacement");
    overlaps(&mut table, 1, "second replacement");
}

#[test]
fn ownership_loss_after_uncertain_advance_releases_finished_token_for_replay() {
    let mut table = Table::new();
    let token = start(&mut table, 1, "record");
    assert!(table.begin_advance(1, token));
    assert!(matches!(table.finish(1, token, false), Release::Retained));

    assert_eq!(table.ownership_lost(1).cancelled, Some(token));
    assert!(!table.is_active(1));
    start(&mut table, 1, "replayed");
}

#[test]
fn advanced_release_race_defers_next_offset_until_guard_drops() {
    let mut table = Table::new();
    let token = start(&mut table, 1, "first");
    assert!(table.begin_advance(1, token));
    defers(&mut table, 1, "next offset");

    assert!(matches!(
        table.finish(1, token, true),
        Release::Restart {
            delivery: "next offset",
            ..
        }
    ));
}

#[test]
fn deferred_next_offset_after_unresolved_advance_stops() {
    let mut table = Table::new();
    let token = start(&mut table, 1, "first");
    assert!(table.begin_advance(1, token));
    defers(&mut table, 1, "next offset");

    assert!(matches!(
        table.finish(1, token, false),
        Release::Overlap("next offset")
    ));
}

#[test]
fn next_offset_after_timed_out_advance_stops_without_handling() {
    let mut table = Table::new();
    let token = start(&mut table, 1, "first");
    assert!(table.begin_advance(1, token));
    let (outcome, _) = conclude_advance::<()>(AdvanceReply::TimedOut, false);
    table.finish(1, token, outcome.is_safe_to_release());

    overlaps(&mut table, 1, "next offset");
}

#[test]
fn next_offset_after_transient_advance_error_stops_without_handling() {
    let mut table = Table::new();
    let token = start(&mut table, 1, "first");
    assert!(table.begin_advance(1, token));
    let (outcome, _) = conclude_advance(AdvanceReply::Failed(FailureKind::Transient, ()), false);
    table.finish(1, token, outcome.is_safe_to_release());

    overlaps(&mut table, 1, "next offset");
}

#[test]
fn ownership_loss_after_deferred_next_offset_drops_it_unhandled() {
    let mut table = Table::new();
    let token = start(&mut table, 1, "first");
    assert!(table.begin_advance(1, token));
    defers(&mut table, 1, "next offset");

    let withdrawal = table.ownership_lost(1);
    assert_eq!(withdrawal.cancelled, Some(token));
    assert_eq!(withdrawal.dropped, Some("next offset"));

    // The source confirms the advance, but the partition is lost by now.
    let (outcome, result) =
        conclude_advance::<()>(AdvanceReply::Reported(PartitionAdvance::Advanced), true);
    assert_eq!(outcome, AdvanceOutcome::Uncertain);
    assert!(result.is_ok());
    assert!(matches!(
        table.finish(1, token, outcome.is_safe_to_release()),
        Release::Free
    ));
}

#[test]
fn only_durable_outcomes_advance() {
    assert_eq!(
        decide_partition(Resolution::Dead(DeadReason::Exhausted)),
        PartitionPlan::Advance
    );
    assert_eq!(
        decide_partition(Resolution::Malformed),
        PartitionPlan::Stop(
            ConsumerErrorKind::OperatorActionRequired(OperatorReason::Malformed),
            FailureKind::Permanent
        )
    );

    for (resolution, failure) in [
        (Resolution::InProgress, FailureKind::Transient),
        (Resolution::RetryRecorded, FailureKind::Transient),
        (
            Resolution::CommitAmbiguous {
                kind: FailureKind::Transient,
            },
            FailureKind::Transient,
        ),
        (
            Resolution::Unresolved {
                kind: FailureKind::Permanent,
            },
            FailureKind::Permanent,
        ),
        (
            Resolution::NotRecorded {
                kind: FailureKind::Unknown,
            },
            FailureKind::Unknown,
        ),
    ] {
        assert_eq!(
            decide_partition(resolution),
            PartitionPlan::Stop(ConsumerErrorKind::PartitionUnresolved, failure)
        );
    }

    let error = partition_stop(
        ConsumerErrorKind::PartitionUnresolved,
        FailureKind::Permanent,
        Some("cause"),
    );
    assert_eq!(error.kind(), ConsumerErrorKind::PartitionUnresolved);
    assert_eq!(error.failure_kind(), FailureKind::Permanent);
    assert!(matches!(
        error.provider_source(),
        Some(ErrorSource::Provider("cause"))
    ));
}

#[test]
fn tokens_are_never_exhausted_by_ordinary_use() {
    let mut table = Table::new();

    for _ in 0..1_000 {
        let token = start(&mut table, 3, "record");
        assert!(matches!(table.finish(3, token, true), Release::Free));
    }

    assert!(!table.is_exhausted());
}

fn processed(resolution: Resolution) -> Ended<&'static str> {
    Ended::Processed(Processed {
        resolution,
        stage: Stage::Claim,
        error: Some("cause"),
        message_id: None,
        attempt: None,
    })
}

#[test]
fn a_record_is_coordinated_from_workflow_to_advance() {
    let ended = |resolution: Resolution, lost: bool| {
        coordinate_partition(
            PartitionPhase::Processing,
            PartitionEvent::Ended {
                ended: processed(resolution),
                lost,
            },
        )
    };

    assert!(matches!(
        ended(Resolution::Completed, false),
        PartitionStep::Advance
    ));
    assert!(matches!(
        ended(Resolution::Completed, true),
        PartitionStep::Finish {
            safe_to_release: false,
            result: Ok(()),
        }
    ));
    assert!(matches!(
        ended(Resolution::InProgress, false),
        PartitionStep::Finish {
            safe_to_release: false,
            result: Err(error),
        } if error.kind() == ConsumerErrorKind::PartitionUnresolved
            && matches!(error.provider_source(), Some(ErrorSource::Provider("cause")))
    ));
    assert!(matches!(
        coordinate_partition::<()>(PartitionPhase::Processing, PartitionEvent::Lost),
        PartitionStep::Abort
    ));
    assert!(matches!(
        coordinate_partition::<()>(PartitionPhase::Advancing, PartitionEvent::Overtaken),
        PartitionStep::Finish {
            safe_to_release: false,
            result: Ok(()),
        }
    ));
    assert!(matches!(
        coordinate_partition::<()>(
            PartitionPhase::Advancing,
            PartitionEvent::Answered {
                reply: AdvanceReply::Reported(PartitionAdvance::Advanced),
                lost: false,
            },
        ),
        PartitionStep::Finish {
            safe_to_release: true,
            result: Ok(()),
        }
    ));
    assert!(matches!(
        coordinate_partition::<()>(
            PartitionPhase::Processing,
            PartitionEvent::Ended {
                ended: Ended::Failed {
                    failure: TaskFailure::Panicked,
                    in_handler: true,
                },
                lost: false,
            },
        ),
        PartitionStep::Finish {
            safe_to_release: false,
            result: Err(error),
        } if error.kind() == ConsumerErrorKind::HandlerPanicked
    ));
}
