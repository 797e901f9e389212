//! The per-delivery workflow and its settlement, scripted step by step.

use std::time::Duration;

use sisa_messaging::consumer::coordinate::{
    Ended, IndividualCoordinator, IndividualEvent, IndividualStep,
};
use sisa_messaging::consumer::error::ErrorSource;
use sisa_messaging::consumer::process::{
    claim_metric, process_error_type, Claim, ClaimMetric, DatabaseFailure, Processed, Stage,
    Workflow, WorkflowAction, WorkflowEvent, WorkflowStep,
};
use sisa_messaging::consumer::settlement::{
    decide_individual, IndividualAction, Resolution, SettlementFailure, SettlementReply,
};
use sisa_messaging::consumer::worker::{
    result_label, task_error, DrainEvent, DrainNext, Joined, LoopEvent, LoopNext, LoopWait,
    TaskFailure, Workers,
};
use sisa_messaging::consumer::{
    ConsumerError, ConsumerErrorKind, ConsumerExit, OperatorReason, SettlementMode,
};
use sisa_messaging::envelope::MessageId;
use sisa_messaging::failure::FailureKind;
use sisa_messaging::inbox::failure::{reduce_failure, ReceiptState};
use sisa_messaging::inbox::{
    DeadReason, InboxClaimOutcome, InboxFailure, InboxFailureOutcome,
};
use sisa_messaging::nonzero::NonZeroU32;

const NAK_DELAY: Duration = Duration::from_secs(5);

const PROVIDER: &str = "PROVIDER_SENTINEL";

#[derive(Clone, Copy, Debug, PartialEq)]
enum Step {
    Succeed,
    Error(FailureKind),
    Hang,
    Unsupported,
}

#[derive(Clone, Debug, PartialEq)]
enum Event {
    Begin,
    Claim,
    Handle,
    Complete,
    Commit,
    Rollback,
    Fail(FailureKind),
    Ack,
    Nak(Duration),
    Terminate,
    Left,
}

/// One delivery, its inbox receipt, and how each operation on it goes.
struct Delivery {
    mode: SettlementMode,
    malformed: bool,
    undecodable: bool,
    receipt: ReceiptState,
    in_progress: bool,
    handler: Option<FailureKind>,
    begin: Step,
    claim: Step,
    complete: Step,
    commit: Step,
    rollback: Step,
    fail: Step,
    settle: Step,
}

struct Outcome {
    events: Vec<Event>,
    summaries: Vec<String>,
    processed: Processed<&'static str>,
    result: Result<(), ConsumerError<&'static str>>,
    receipt: ReceiptState,
}

fn delivery(mode: SettlementMode) -> Delivery {
    Delivery {
        mode,
        malformed: false,
        undecodable: false,
        receipt: ReceiptState::Pending,
        in_progress: false,
        handler: None,
        begin: Step::Succeed,
        claim: Step::Succeed,
        complete: Step::Succeed,
        commit: Step::Succeed,
        rollback: Step::Succeed,
        fail: Step::Succeed,
        settle: Step::Succeed,
    }
}

fn broker() -> Delivery {
    delivery(SettlementMode::Broker)
}

fn pending() -> Delivery {
    delivery(SettlementMode::PendingRecovery)
}

fn database<T>(step: Step, value: T) -> Result<T, DatabaseFailure<&'static str>> {
    match step {
        Step::Succeed => Ok(value),
        Step::Error(kind) => Err(DatabaseFailure::Failed(kind, PROVIDER)),
        Step::Hang => Err(DatabaseFailure::TimedOut),
        Step::Unsupported => panic!("a database operation is always supported"),
    }
}

impl Delivery {
    fn outcome(&self) -> InboxClaimOutcome<Claim<u8>> {
        if self.in_progress {
            return InboxClaimOutcome::InProgressDuplicate;
        }

        match self.receipt {
            ReceiptState::Pending => InboxClaimOutcome::Claimed(Claim {
                receipt: 42,
                recorded_failures: 0,
            }),
            ReceiptState::Retrying { attempts } => InboxClaimOutcome::Claimed(Claim {
                receipt: 42,
                recorded_failures: attempts,
            }),
            ReceiptState::Completed => InboxClaimOutcome::CompletedDuplicate,
            ReceiptState::Dead { reason, .. } => InboxClaimOutcome::DeadDuplicate { reason },
        }
    }

    fn run(&self) -> Outcome {
        let mut events = Vec::new();
        let mut summaries = Vec::new();
        let mut receipt = self.receipt;
        let mut workflow: Workflow<u8, &'static str> = Workflow::new();
        let mut event = WorkflowEvent::Mapped(if self.malformed {
            None
        } else {
            Some(MessageId { value: 1 })
        });

        let processed = loop {
            assert!(workflow.awaits(&event));

            let (next, action) = match workflow.step(event) {
                WorkflowStep::Finished(processed) => break processed,
                WorkflowStep::Continue(next, action) => (next, action),
            };

            assert_eq!(
                next.in_handler(),
                matches!(action, WorkflowAction::Handle),
            );
            workflow = next;
            event = match action {
                WorkflowAction::Decode => WorkflowEvent::Decoded(!self.undecodable),
                WorkflowAction::Begin => {
                    events.push(Event::Begin);
                    WorkflowEvent::Began(database(self.begin, ()))
                }
                WorkflowAction::Claim => {
                    events.push(Event::Claim);
                    WorkflowEvent::Claimed(database(self.claim, Some(self.outcome())))
                }
                WorkflowAction::Handle => {
                    events.push(Event::Handle);
                    WorkflowEvent::Handled(match self.handler {
                        Some(kind) => Err(InboxFailure {
                            kind,
                            error: "safe summary".to_owned(),
                        }),
                        None => Ok(()),
                    })
                }
                WorkflowAction::Complete(receipt) => {
                    assert_eq!(receipt, 42);
                    events.push(Event::Complete);
                    WorkflowEvent::Completed(database(self.complete, ()))
                }
                WorkflowAction::Commit => {
                    events.push(Event::Commit);
                    if self.commit == Step::Succeed {
                        receipt = ReceiptState::Completed;
                    }
                    WorkflowEvent::Committed(database(self.commit, ()))
                }
                WorkflowAction::Rollback => {
                    events.push(Event::Rollback);
                    WorkflowEvent::RolledBack(database(self.rollback, ()))
                }
                WorkflowAction::Record(report) => {
                    let failure = report.into_failure();
                    events.push(Event::Fail(failure.kind));
                    summaries.push(failure.error);
                    let (state, outcome) = reduce_failure(
                        self.receipt,
                        failure.kind,
                        NonZeroU32::new(3).expect("three attempts"),
                    );
                    if self.fail == Step::Succeed {
                        receipt = state;
                    }
                    WorkflowEvent::Recorded(database(self.fail, Some(outcome)))
                }
            };
        };

        let summary = Processed {
            resolution: processed.resolution,
            stage: processed.stage,
            error: None,
            message_id: processed.message_id,
            attempt: processed.attempt,
        };
        let ended = IndividualEvent::Ended(Ended::Processed(processed));
        let coordinator = IndividualCoordinator::new(self.mode, NAK_DELAY);
        assert!(coordinator.awaits(&ended));

        let IndividualStep::Settle(settling, action) = coordinator.step(ended) else {
            panic!("a processed delivery is settled next");
        };

        events.push(match action {
            IndividualAction::Ack => Event::Ack,
            IndividualAction::Nak { delay } => Event::Nak(delay),
            IndividualAction::Terminate => Event::Terminate,
            IndividualAction::Leave => Event::Left,
        });

        let reply = match self.settle {
            _ if action == IndividualAction::Leave => SettlementReply::Confirmed,
            Step::Succeed => SettlementReply::Confirmed,
            Step::Error(kind) => SettlementReply::Failed(kind, PROVIDER),
            Step::Hang => SettlementReply::TimedOut,
            Step::Unsupported => SettlementReply::Unsupported,
        };

        let settled = IndividualEvent::Settled(reply);
        assert!(settling.awaits(&settled));

        let IndividualStep::Finish(result) = settling.step(settled) else {
            panic!("a settled delivery is given up");
        };

        Outcome {
            events,
            summaries,
            processed: summary,
            result,
            receipt,
        }
    }

    fn goes_on(&self) -> Outcome {
        let outcome = self.run();
        assert!(outcome.result.is_ok());
        outcome
    }

    fn stops(&self) -> (ConsumerError<&'static str>, Vec<Event>) {
        let outcome = self.run();

        match outcome.result {
            Err(error) => {
                assert!(!error.to_string().contains("SENTINEL"));
                assert!(!error.redacted().contains("SENTINEL"));
                (error, outcome.events)
            }
            Ok(()) => panic!("the consumer must stop"),
        }
    }
}

fn has_provider_source(error: &ConsumerError<&'static str>) -> bool {
    matches!(error.provider_source(), Some(ErrorSource::Provider(PROVIDER)))
}

#[test]
fn claim_metrics_only_cover_handler_free_duplicate_and_dead_outcomes() {
    assert_eq!(
        claim_metric(&InboxClaimOutcome::<u8>::CompletedDuplicate),
        Some(ClaimMetric::Duplicate("completed"))
    );

    assert_eq!(
        claim_metric(&InboxClaimOutcome::<u8>::InProgressDuplicate),
        Some(ClaimMetric::Duplicate("in_progress"))
    );

    assert_eq!(
        claim_metric(&InboxClaimOutcome::<u8>::DeadDuplicate {
            reason: DeadReason::Permanent
        }),
        Some(ClaimMetric::Dead(DeadReason::Permanent))
    );

    assert_eq!(claim_metric(&InboxClaimOutcome::Claimed(1_u8)), None);
}

#[test]
fn process_duration_uses_only_closed_error_categories() {
    let mut processed: Processed<()> = Processed {
        resolution: Resolution::Completed,
        stage: Stage::Commit,
        error: None,
        message_id: None,
        attempt: None,
    };

    assert_eq!(process_error_type(&processed), None);
    processed.stage = Stage::Claim;
    assert_eq!(process_error_type(&processed), None);
    processed.resolution = Resolution::InProgress;
    assert_eq!(process_error_type(&processed), None);
    processed.resolution = Resolution::Dead(DeadReason::Exhausted);
    assert_eq!(process_error_type(&processed), None);
    processed.stage = Stage::Fail;
    assert_eq!(process_error_type(&processed), Some("fail"));
}

#[test]
fn success_claims_handles_completes_commits_then_acks() {
    let outcome = broker().goes_on();

    assert_eq!(
        outcome.events,
        [
            Event::Begin,
            Event::Claim,
            Event::Handle,
            Event::Complete,
            Event::Commit,
            Event::Ack,
        ]
    );
    assert_eq!(outcome.receipt, ReceiptState::Completed);
    assert_eq!(outcome.processed.stage, Stage::Commit);
    assert_eq!(outcome.processed.message_id, Some(MessageId { value: 1 }));
    assert_eq!(outcome.processed.attempt, Some(1));
}

#[test]
fn attempts_follow_the_recorded_failures() {
    for (recorded, attempt) in [(2, 3), (u32::MAX - 1, u32::MAX), (u32::MAX, u32::MAX)] {
        let retried = Delivery {
            receipt: ReceiptState::Retrying { attempts: recorded },
            ..broker()
        };
        assert_eq!(retried.goes_on().processed.attempt, Some(attempt));
    }
}

#[test]
fn completed_duplicate_rolls_back_and_acks_without_the_handler() {
    let duplicate = Delivery {
        receipt: ReceiptState::Completed,
        ..broker()
    };

    assert_eq!(
        duplicate.goes_on().events,
        [Event::Begin, Event::Claim, Event::Rollback, Event::Ack]
    );
}

#[test]
fn retryable_failure_rolls_back_records_then_naks() {
    let retry = Delivery {
        handler: Some(FailureKind::Transient),
        ..broker()
    };
    let outcome = retry.goes_on();

    assert_eq!(
        outcome.events,
        [
            Event::Begin,
            Event::Claim,
            Event::Handle,
            Event::Rollback,
            Event::Fail(FailureKind::Transient),
            Event::Nak(NAK_DELAY),
        ]
    );
    assert_eq!(outcome.receipt, ReceiptState::Retrying { attempts: 1 });
    // The handler's safe error text is the persisted summary.
    assert_eq!(outcome.summaries, ["safe summary"]);
}

#[test]
fn permanent_failure_becomes_dead_and_terminates() {
    let poison = Delivery {
        handler: Some(FailureKind::Permanent),
        ..broker()
    };

    assert_eq!(
        poison.goes_on().events[4..],
        [Event::Fail(FailureKind::Permanent), Event::Terminate]
    );
}

#[test]
fn in_progress_duplicate_naks_with_the_configured_delay() {
    let busy = Delivery {
        in_progress: true,
        ..broker()
    };

    assert_eq!(
        busy.goes_on().events,
        [
            Event::Begin,
            Event::Claim,
            Event::Rollback,
            Event::Nak(NAK_DELAY)
        ]
    );
}

#[test]
fn dead_duplicate_terminates_without_the_handler() {
    let dead = Delivery {
        receipt: ReceiptState::Dead {
            attempts: 3,
            reason: DeadReason::Exhausted,
        },
        ..broker()
    };

    assert_eq!(
        dead.goes_on().events,
        [Event::Begin, Event::Claim, Event::Rollback, Event::Terminate]
    );
}

#[test]
fn malformed_wire_terminates_without_database_work() {
    let malformed = Delivery {
        malformed: true,
        ..broker()
    };
    let outcome = malformed.goes_on();

    assert_eq!(outcome.events, [Event::Terminate]);
    assert_eq!(outcome.processed.message_id, None);
    assert_eq!(outcome.processed.stage, Stage::Mapping);
}

#[test]
fn undecodable_or_mismatched_body_records_a_fixed_permanent_failure() {
    let undecodable = Delivery {
        undecodable: true,
        ..broker()
    };
    let outcome = undecodable.goes_on();

    assert_eq!(
        outcome.events,
        [Event::Fail(FailureKind::Permanent), Event::Terminate]
    );
    assert_eq!(outcome.summaries, ["message body could not be decoded"]);
    assert_eq!(outcome.processed.stage, Stage::Decode);
}

#[test]
fn commit_error_or_timeout_is_ambiguous_never_fails_or_acks() {
    for step in [Step::Error(FailureKind::Transient), Step::Hang] {
        let ambiguous = Delivery {
            commit: step,
            ..broker()
        };

        assert_eq!(
            ambiguous.goes_on().events,
            [
                Event::Begin,
                Event::Claim,
                Event::Handle,
                Event::Complete,
                Event::Commit,
                Event::Nak(NAK_DELAY),
            ]
        );
    }
}

#[test]
fn permanent_commit_error_leaves_the_delivery_and_stops() {
    for kind in [FailureKind::Permanent, FailureKind::Unknown] {
        let broken = Delivery {
            commit: Step::Error(kind),
            ..broker()
        };
        let (error, events) = broken.stops();

        assert_eq!(error.kind(), ConsumerErrorKind::Inbox);
        assert_eq!(error.failure_kind(), kind);
        assert!(has_provider_source(&error));
        assert_eq!(events.last(), Some(&Event::Left));
    }
}

#[test]
fn transient_begin_claim_or_complete_failures_nak() {
    let begin = Delivery {
        begin: Step::Error(FailureKind::Transient),
        ..broker()
    };
    assert_eq!(
        begin.goes_on().events,
        [Event::Begin, Event::Nak(NAK_DELAY)]
    );

    let claim = Delivery {
        claim: Step::Error(FailureKind::Transient),
        ..broker()
    };
    assert_eq!(
        claim.goes_on().events,
        [
            Event::Begin,
            Event::Claim,
            Event::Rollback,
            Event::Nak(NAK_DELAY)
        ]
    );

    let complete = Delivery {
        complete: Step::Hang,
        ..broker()
    };
    assert_eq!(
        complete.goes_on().events,
        [
            Event::Begin,
            Event::Claim,
            Event::Handle,
            Event::Complete,
            Event::Rollback,
            Event::Nak(NAK_DELAY),
        ]
    );
}

#[test]
fn permanent_begin_failure_stops() {
    let begin = Delivery {
        begin: Step::Error(FailureKind::Permanent),
        ..broker()
    };
    let (error, events) = begin.stops();

    assert_eq!(error.kind(), ConsumerErrorKind::Inbox);
    assert_eq!(events, [Event::Begin, Event::Left]);
}

#[test]
fn unrecorded_failure_naks_when_transient_and_stops_when_permanent() {
    let transient = Delivery {
        handler: Some(FailureKind::Transient),
        fail: Step::Hang,
        ..broker()
    };
    assert_eq!(
        transient.goes_on().events[3..],
        [
            Event::Rollback,
            Event::Fail(FailureKind::Transient),
            Event::Nak(NAK_DELAY),
        ]
    );

    let rollback = Delivery {
        handler: Some(FailureKind::Permanent),
        rollback: Step::Error(FailureKind::Transient),
        ..broker()
    };
    assert_eq!(
        rollback.goes_on().events[3..],
        [Event::Rollback, Event::Nak(NAK_DELAY)]
    );

    let permanent = Delivery {
        handler: Some(FailureKind::Transient),
        fail: Step::Error(FailureKind::Permanent),
        ..broker()
    };
    let (error, events) = permanent.stops();
    assert_eq!(error.kind(), ConsumerErrorKind::FailureNotRecorded);
    assert_eq!(error.failure_kind(), FailureKind::Permanent);
    assert_eq!(events.last(), Some(&Event::Left));
}

#[test]
fn broker_mode_ack_timeout_is_resolved_by_a_completed_redelivery() {
    let first = Delivery {
        settle: Step::Hang,
        ..broker()
    }
    .goes_on();
    assert_eq!(first.events.last(), Some(&Event::Ack));

    let redelivered = Delivery {
        receipt: first.receipt,
        ..broker()
    };
    assert_eq!(
        redelivered.goes_on().events,
        [Event::Begin, Event::Claim, Event::Rollback, Event::Ack]
    );
}

#[test]
fn transient_settlement_failures_continue() {
    let ack = Delivery {
        settle: Step::Error(FailureKind::Transient),
        ..broker()
    };
    assert_eq!(ack.goes_on().events.last(), Some(&Event::Ack));

    let nak = Delivery {
        handler: Some(FailureKind::Transient),
        settle: Step::Hang,
        ..broker()
    };
    assert_eq!(nak.goes_on().events.last(), Some(&Event::Nak(NAK_DELAY)));
}

#[test]
fn permanent_or_unsupported_settlement_stops() {
    for (step, typed_source) in [
        (Step::Error(FailureKind::Permanent), true),
        (Step::Unsupported, false),
    ] {
        let broken = Delivery {
            settle: step,
            ..broker()
        };
        let (error, _) = broken.stops();

        assert_eq!(error.kind(), ConsumerErrorKind::Settlement);
        assert_eq!(error.failure_kind(), FailureKind::Permanent);
        // An unsupported operation has no provider error.
        assert_eq!(has_provider_source(&error), typed_source);
        assert_eq!(error.provider_source().is_some(), typed_source);
    }
}

#[test]
fn permanent_cleanup_rollback_failure_stops_without_settling() {
    // A completed duplicate would otherwise be acknowledged.
    let completed = Delivery {
        receipt: ReceiptState::Completed,
        rollback: Step::Error(FailureKind::Permanent),
        ..broker()
    };
    // A transient claim failure would otherwise be negatively acknowledged.
    let claim = Delivery {
        claim: Step::Error(FailureKind::Transient),
        rollback: Step::Error(FailureKind::Permanent),
        ..broker()
    };

    for broken in [completed, claim] {
        let (error, events) = broken.stops();

        assert_eq!(error.kind(), ConsumerErrorKind::Inbox);
        assert_eq!(error.failure_kind(), FailureKind::Permanent);
        assert!(has_provider_source(&error));
        assert_eq!(
            events,
            [Event::Begin, Event::Claim, Event::Rollback, Event::Left]
        );
    }
}

#[test]
fn transient_cleanup_rollback_failure_keeps_the_resolution() {
    for step in [Step::Error(FailureKind::Transient), Step::Hang] {
        let duplicate = Delivery {
            receipt: ReceiptState::Completed,
            rollback: step,
            ..broker()
        };

        assert_eq!(
            duplicate.goes_on().events,
            [Event::Begin, Event::Claim, Event::Rollback, Event::Ack]
        );
    }
}

#[test]
fn success_and_duplicate_completion_ack() {
    assert_eq!(pending().goes_on().events.last(), Some(&Event::Ack));

    let duplicate = Delivery {
        receipt: ReceiptState::Completed,
        ..pending()
    };
    assert_eq!(
        duplicate.goes_on().events,
        [Event::Begin, Event::Claim, Event::Rollback, Event::Ack]
    );
}

#[test]
fn retryable_failure_is_recorded_then_left_pending() {
    let retry = Delivery {
        handler: Some(FailureKind::Transient),
        ..pending()
    };

    assert_eq!(
        retry.goes_on().events,
        [
            Event::Begin,
            Event::Claim,
            Event::Handle,
            Event::Rollback,
            Event::Fail(FailureKind::Transient),
            Event::Left,
        ]
    );
}

#[test]
fn in_progress_and_ambiguous_commit_are_left_pending() {
    let busy = Delivery {
        in_progress: true,
        ..pending()
    };
    assert_eq!(
        busy.goes_on().events,
        [Event::Begin, Event::Claim, Event::Rollback, Event::Left]
    );

    for step in [Step::Hang, Step::Error(FailureKind::Transient)] {
        let ambiguous = Delivery {
            commit: step,
            ..pending()
        };
        assert_eq!(
            ambiguous.goes_on().events,
            [
                Event::Begin,
                Event::Claim,
                Event::Handle,
                Event::Complete,
                Event::Commit,
                Event::Left,
            ]
        );
    }
}

#[test]
fn durable_dead_result_stops_for_operator_action() {
    let poison = Delivery {
        handler: Some(FailureKind::Permanent),
        ..pending()
    };
    let (error, events) = poison.stops();

    assert_eq!(
        error.kind(),
        ConsumerErrorKind::OperatorActionRequired(OperatorReason::Dead(DeadReason::Permanent))
    );
    assert_eq!(error.failure_kind(), FailureKind::Permanent);
    assert_eq!(
        events[3..],
        [
            Event::Rollback,
            Event::Fail(FailureKind::Permanent),
            Event::Left,
        ]
    );
}

#[test]
fn dead_duplicate_is_never_acknowledged() {
    let dead = Delivery {
        receipt: ReceiptState::Dead {
            attempts: 3,
            reason: DeadReason::Exhausted,
        },
        ..pending()
    };
    let (error, events) = dead.stops();

    assert_eq!(
        error.kind(),
        ConsumerErrorKind::OperatorActionRequired(OperatorReason::Dead(DeadReason::Exhausted))
    );
    assert_eq!(
        events,
        [Event::Begin, Event::Claim, Event::Rollback, Event::Left]
    );
}

#[test]
fn malformed_wire_stops_for_operator_action() {
    let malformed = Delivery {
        malformed: true,
        ..pending()
    };
    let (error, events) = malformed.stops();

    assert_eq!(
        error.kind(),
        ConsumerErrorKind::OperatorActionRequired(OperatorReason::Malformed)
    );
    assert!(error.provider_source().is_none());
    assert_eq!(events, [Event::Left]);
}

#[test]
fn unrecorded_failure_leaves_the_delivery_and_stops() {
    let unrecorded = Delivery {
        handler: Some(FailureKind::Transient),
        fail: Step::Hang,
        ..pending()
    };
    let (error, events) = unrecorded.stops();

    assert_eq!(error.kind(), ConsumerErrorKind::FailureNotRecorded);
    assert_eq!(error.failure_kind(), FailureKind::Transient);
    assert_eq!(events.last(), Some(&Event::Left));
}

#[test]
fn transient_begin_failure_is_left_and_permanent_stops() {
    let transient = Delivery {
        begin: Step::Error(FailureKind::Transient),
        ..pending()
    };
    assert_eq!(transient.goes_on().events, [Event::Begin, Event::Left]);

    let permanent = Delivery {
        commit: Step::Error(FailureKind::Permanent),
        ..pending()
    };
    assert_eq!(permanent.stops().0.kind(), ConsumerErrorKind::Inbox);
}

#[test]
fn pending_recovery_ack_timeout_is_resolved_by_a_completed_redelivery() {
    let first = Delivery {
        settle: Step::Hang,
        ..pending()
    }
    .goes_on();
    assert_eq!(first.events.last(), Some(&Event::Ack));

    let redelivered = Delivery {
        receipt: first.receipt,
        ..pending()
    }
    .goes_on();
    assert_eq!(redelivered.events.last(), Some(&Event::Ack));
    assert!(!redelivered.events.contains(&Event::Handle));
}

#[test]
fn permanent_ack_failure_stops() {
    let broken = Delivery {
        settle: Step::Error(FailureKind::Permanent),
        ..pending()
    };

    assert_eq!(broken.stops().0.kind(), ConsumerErrorKind::Settlement);
}

#[test]
fn undecodable_or_mismatched_body_stops_for_operator_action() {
    let undecodable = Delivery {
        undecodable: true,
        ..pending()
    };
    let (error, events) = undecodable.stops();

    assert_eq!(
        error.kind(),
        ConsumerErrorKind::OperatorActionRequired(OperatorReason::Dead(DeadReason::Permanent))
    );
    assert_eq!(events, [Event::Fail(FailureKind::Permanent), Event::Left]);
}

#[test]
fn immediate_requeue_settles_as_the_broker_does() {
    let retry = Delivery {
        handler: Some(FailureKind::Transient),
        ..delivery(SettlementMode::BrokerImmediateRequeue)
    };
    assert_eq!(retry.goes_on().events.last(), Some(&Event::Nak(NAK_DELAY)));

    let malformed = Delivery {
        malformed: true,
        ..delivery(SettlementMode::BrokerImmediateRequeue)
    };
    assert_eq!(malformed.goes_on().events, [Event::Terminate]);
}

#[test]
fn a_failure_of_a_completed_message_counts_as_completion() {
    let completed = WorkflowEvent::<u8, &str>::Recorded(Ok(Some(
        InboxFailureOutcome::CompletedDuplicate,
    )));
    let WorkflowStep::Continue(decoding, _) =
        Workflow::new().step(WorkflowEvent::Mapped(Some(MessageId { value: 1 })))
    else {
        panic!("the body is decoded next");
    };
    let WorkflowStep::Continue(recording, _) = decoding.step(WorkflowEvent::Decoded(false)) else {
        panic!("the failure is recorded next");
    };

    assert!(!recording.awaits(&WorkflowEvent::Decoded(true)));

    let WorkflowStep::Finished(processed) = recording.step(completed) else {
        panic!("the workflow is finished");
    };

    assert_eq!(processed.resolution, Resolution::Completed);
    assert_eq!(process_error_type(&processed), Some("decode"));
}

#[test]
fn labels_are_stable() {
    let kind = FailureKind::Transient;

    for (resolution, label, failure) in [
        (Resolution::Completed, "completed", None),
        (Resolution::InProgress, "in_progress", None),
        (Resolution::RetryRecorded, "retry_recorded", None),
        (Resolution::Dead(DeadReason::Permanent), "dead", None),
        (Resolution::Malformed, "malformed", None),
        (Resolution::CommitAmbiguous { kind }, "commit_ambiguous", Some(kind)),
        (Resolution::Unresolved { kind }, "unresolved", Some(kind)),
        (Resolution::NotRecorded { kind }, "not_recorded", Some(kind)),
    ] {
        assert_eq!(resolution.as_str(), label);
        assert_eq!(resolution.failure_kind(), failure);
    }

    for (stage, label) in [
        (Stage::Mapping, "map"),
        (Stage::Decode, "decode"),
        (Stage::Begin, "begin"),
        (Stage::Claim, "claim"),
        (Stage::Complete, "complete"),
        (Stage::Commit, "commit"),
        (Stage::Rollback, "rollback"),
        (Stage::Fail, "fail"),
    ] {
        assert_eq!(stage.as_str(), label);
    }

    for (action, label) in [
        (IndividualAction::Ack, "ack"),
        (IndividualAction::Nak { delay: NAK_DELAY }, "nak"),
        (IndividualAction::Terminate, "terminate"),
        (IndividualAction::Leave, "leave"),
    ] {
        assert_eq!(action.as_str(), label);
    }

    for (failure, label, kind, stops) in [
        (SettlementFailure::TimedOut, "timeout", FailureKind::Transient, false),
        (SettlementFailure::Unsupported, "unsupported", FailureKind::Permanent, true),
        (
            SettlementFailure::Failed(FailureKind::Unknown),
            "failed",
            FailureKind::Unknown,
            true,
        ),
    ] {
        assert_eq!(failure.as_str(), label);
        assert_eq!(failure.failure_kind(), kind);
        assert_eq!(failure.stops(), stops);
    }
}

fn fatal(kind: ConsumerErrorKind) -> ConsumerError<&'static str> {
    ConsumerError::new(kind, FailureKind::Permanent, None)
}

#[test]
fn a_handler_panic_never_commits_or_acknowledges() {
    let error: ConsumerError<()> = task_error(TaskFailure::Panicked, true);
    assert_eq!(error.kind(), ConsumerErrorKind::HandlerPanicked);
    assert_eq!(error.failure_kind(), FailureKind::Permanent);
    assert_eq!(error.to_string(), "consumer handler panicked");
    assert!(error.provider_source().is_none());
}

#[test]
fn a_provider_panic_is_not_reported_as_a_handler_panic() {
    let error: ConsumerError<()> = task_error(TaskFailure::Panicked, false);
    assert_eq!(error.kind(), ConsumerErrorKind::ProviderPanicked);
    assert_eq!(error.to_string(), "consumer processing task panicked");

    let aborted: ConsumerError<()> = task_error(TaskFailure::Cancelled, true);
    assert_eq!(aborted.kind(), ConsumerErrorKind::Runtime);
}

#[test]
fn at_capacity_the_source_is_not_polled() {
    let workers: Workers<()> = Workers::new(2);

    assert!(workers.has_capacity(1, 1));
    assert_eq!(workers.wait(1, 1), LoopWait::Receive);
    assert!(!workers.has_capacity(2, 1));
    assert_eq!(workers.wait(2, 1), LoopWait::Finish);
    assert_eq!(workers.wait(1, 2), LoopWait::Finish);

    let mut in_flight = 0;
    while workers.wait(in_flight, in_flight) == LoopWait::Receive {
        in_flight += 1;
    }
    assert_eq!(in_flight, 2);
}

#[test]
fn a_fatal_delivery_stops_receiving_and_drains_the_others() {
    let mut workers = Workers::new(4);
    let failed = Joined::Returned(Err(fatal(ConsumerErrorKind::Inbox)));

    assert_eq!(workers.turn(LoopEvent::Finished(failed)), LoopNext::Continue);
    assert!(workers.is_stopped());
    assert_eq!(workers.wait(1, 1), LoopWait::Stop);
    assert_eq!(workers.turn(LoopEvent::Stopped), LoopNext::Break(None));
    assert_eq!(
        workers.drain(DrainEvent::Joined(Joined::Returned(Ok(())))),
        DrainNext::Wait
    );
    assert_eq!(workers.drain(DrainEvent::Empty), DrainNext::Done);

    let result = workers.finish(None);
    assert_eq!(result_label(&result), "failed");
    assert!(matches!(result, Err(error) if error.kind() == ConsumerErrorKind::Inbox));
}

#[test]
fn a_fatal_error_wins_over_cancellation_in_either_order() {
    let mut first = Workers::new(4);
    first.fail(fatal(ConsumerErrorKind::Settlement));
    let LoopNext::Break(exit) = first.turn(LoopEvent::Cancelled) else {
        panic!("cancellation ends the loop");
    };
    assert!(matches!(
        first.finish(exit),
        Err(error) if error.kind() == ConsumerErrorKind::Settlement
    ));

    let mut second = Workers::new(4);
    let LoopNext::Break(exit) = second.turn(LoopEvent::Cancelled) else {
        panic!("cancellation ends the loop");
    };
    assert_eq!(exit, Some(ConsumerExit::Cancelled));
    second.drain(DrainEvent::Joined(Joined::Returned(Err(fatal(
        ConsumerErrorKind::Settlement,
    )))));
    second.drain(DrainEvent::Joined(Joined::Returned(Err(fatal(
        ConsumerErrorKind::Inbox,
    )))));
    assert!(matches!(
        second.finish(exit),
        Err(error) if error.kind() == ConsumerErrorKind::Settlement
    ));
}

#[test]
fn close_and_source_failure_with_in_flight_work_have_distinct_exits() {
    let mut closed: Workers<&str> = Workers::new(4);
    assert_eq!(
        closed.turn(LoopEvent::Dispatched { closed: false }),
        LoopNext::Continue
    );
    assert_eq!(
        closed.turn(LoopEvent::Dispatched { closed: true }),
        LoopNext::Break(Some(ConsumerExit::SourceClosed))
    );
    assert_eq!(
        closed.turn(LoopEvent::Closed),
        LoopNext::Break(Some(ConsumerExit::SourceClosed))
    );
    let result = closed.finish(Some(ConsumerExit::SourceClosed));
    assert_eq!(result_label(&result), "source_closed");
    assert!(matches!(result, Ok(ConsumerExit::SourceClosed)));

    let mut failed = Workers::new(4);
    assert_eq!(
        failed.turn(LoopEvent::Failed(fatal(ConsumerErrorKind::Source))),
        LoopNext::Break(None)
    );
    assert!(matches!(
        failed.finish(None),
        Err(error) if error.kind() == ConsumerErrorKind::Source
    ));
}

#[test]
fn the_drain_deadline_aborts_without_a_failure() {
    let mut workers: Workers<&str> = Workers::new(4);

    assert_eq!(workers.drain(DrainEvent::Deadline), DrainNext::Abort);
    assert_eq!(
        workers.drain(DrainEvent::Joined(Joined::Failed(TaskFailure::Cancelled))),
        DrainNext::Wait
    );
    let result = workers.finish(Some(ConsumerExit::Cancelled));
    assert_eq!(result_label(&result), "cancelled");
    assert!(result.is_ok());
}

#[test]
fn a_panicking_coordinator_stops_an_idle_consumer() {
    let mut workers: Workers<&str> = Workers::new(4);
    workers.record(Joined::Failed(TaskFailure::Panicked));

    assert!(workers.is_stopped());
    assert!(matches!(
        workers.finish(None),
        Err(error) if error.kind() == ConsumerErrorKind::Runtime
            && error.failure_kind() == FailureKind::Permanent
    ));
}

#[test]
fn a_run_that_stops_for_no_reason_is_a_runtime_failure() {
    let workers: Workers<&str> = Workers::new(4);

    assert!(matches!(
        workers.finish(None),
        Err(error) if error.kind() == ConsumerErrorKind::Runtime
    ));
}

#[test]
fn plans_use_only_what_the_mode_requires_of_the_source() {
    for mode in [
        SettlementMode::Broker,
        SettlementMode::BrokerImmediateRequeue,
        SettlementMode::PendingRecovery,
    ] {
        let required = mode.requirements();
        let delay = if mode == SettlementMode::Broker {
            NAK_DELAY
        } else {
            Duration::ZERO
        };

        for resolution in [
            Resolution::Completed,
            Resolution::InProgress,
            Resolution::RetryRecorded,
            Resolution::Malformed,
            Resolution::Dead(DeadReason::Permanent),
            Resolution::NotRecorded {
                kind: FailureKind::Transient,
            },
        ] {
            let plan = decide_individual(mode, delay, resolution);

            match plan.action {
                IndividualAction::Terminate => assert!(required.terminal_discard),
                IndividualAction::Nak { delay } if delay.is_zero() => {
                    assert!(required.immediate_requeue);
                }
                IndividualAction::Nak { .. } => assert!(required.delayed_retry),
                IndividualAction::Ack => assert_eq!(resolution, Resolution::Completed),
                IndividualAction::Leave => assert_eq!(mode, SettlementMode::PendingRecovery),
            }
        }
    }
}

#[test]
fn heartbeat_failure_does_not_cancel_a_healthy_handler() {
    let coordinator: IndividualCoordinator<&str> =
        IndividualCoordinator::new(SettlementMode::Broker, NAK_DELAY);

    let IndividualStep::Heartbeat(beating) = coordinator.step(IndividualEvent::Due) else {
        panic!("a heartbeat is sent next");
    };

    let failed = IndividualEvent::Beaten(SettlementReply::Failed(FailureKind::Permanent, "cause"));
    assert!(beating.awaits(&failed));
    assert!(!beating.awaits(&IndividualEvent::Due));

    let IndividualStep::Wait(waiting) = beating.step(failed) else {
        panic!("the workflow goes on");
    };

    let ended = IndividualEvent::Ended(Ended::Processed(Processed {
        resolution: Resolution::Completed,
        stage: Stage::Commit,
        error: None,
        message_id: None,
        attempt: Some(1),
    }));
    assert!(matches!(
        waiting.step(ended),
        IndividualStep::Settle(_, IndividualAction::Ack)
    ));
}

#[test]
fn a_lost_workflow_leaves_its_delivery_unsettled() {
    for (failure, in_handler, kind) in [
        (TaskFailure::Panicked, true, ConsumerErrorKind::HandlerPanicked),
        (TaskFailure::Panicked, false, ConsumerErrorKind::ProviderPanicked),
        (TaskFailure::Cancelled, false, ConsumerErrorKind::Runtime),
    ] {
        let coordinator: IndividualCoordinator<&str> =
            IndividualCoordinator::new(SettlementMode::Broker, NAK_DELAY);
        let ended = IndividualEvent::Ended(Ended::Failed {
            failure,
            in_handler,
        });

        assert!(matches!(
            coordinator.step(ended),
            IndividualStep::Finish(Err(error)) if error.kind() == kind
        ));
    }
}

#[test]
fn unknown_inbox_outcomes_fail_closed() {
    type Step = WorkflowStep<u8, &'static str>;

    let unresolved = Resolution::Unresolved {
        kind: FailureKind::Permanent,
    };
    let go_on = |step: Step| match step {
        WorkflowStep::Continue(workflow, _) => workflow,
        WorkflowStep::Finished(_) => panic!("the workflow goes on"),
    };
    let mapped = || {
        go_on(Workflow::new().step(WorkflowEvent::Mapped(Some(MessageId { value: 1 }))))
    };

    let begun = go_on(mapped().step(WorkflowEvent::Decoded(true)));
    let claiming = go_on(begun.step(WorkflowEvent::Began(Ok(()))));
    let discarding = go_on(claiming.step(WorkflowEvent::Claimed(Ok(None))));
    let WorkflowStep::Finished(processed) = discarding.step(WorkflowEvent::RolledBack(Ok(())))
    else {
        panic!("the workflow is finished");
    };
    assert_eq!(processed.resolution, unresolved);
    assert_eq!(processed.stage, Stage::Claim);

    let recording = go_on(mapped().step(WorkflowEvent::Decoded(false)));
    let WorkflowStep::Finished(processed) = recording.step(WorkflowEvent::Recorded(Ok(None))) else {
        panic!("the workflow is finished");
    };
    assert_eq!(processed.resolution, unresolved);
    assert_eq!(processed.stage, Stage::Decode);
}

#[test]
fn a_receive_failure_wins_over_failures_of_the_drain() {
    let mut workers = Workers::new(4);

    assert_eq!(
        workers.turn(LoopEvent::Finished(Joined::Returned(Ok(())))),
        LoopNext::Continue
    );
    assert_eq!(
        workers.turn(LoopEvent::Failed(fatal(ConsumerErrorKind::Source))),
        LoopNext::Break(None)
    );
    workers.fail(fatal(ConsumerErrorKind::PartitionOrder));
    workers.drain(DrainEvent::Joined(Joined::Returned(Err(fatal(
        ConsumerErrorKind::Inbox,
    )))));
    workers.drain(DrainEvent::Joined(Joined::Failed(TaskFailure::Panicked)));
    assert_eq!(workers.drain(DrainEvent::Empty), DrainNext::Done);

    assert!(matches!(
        workers.finish(Some(ConsumerExit::Cancelled)),
        Err(error) if error.kind() == ConsumerErrorKind::Source
    ));
}
