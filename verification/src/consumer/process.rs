//! The per-delivery database and handler workflow.
//!
//! A [`Workflow`] takes one delivery from its wire value to a resolution. It never performs I/O
//! itself: [`Workflow::step`] takes the outcome of the last operation and names the next one, or
//! finishes. The task that performs the operations alone owns the delivery's transaction.

use crate::consumer::settlement::Resolution;
use crate::envelope::MessageId;
use crate::failure::FailureKind;
use crate::inbox::claim::InboxClaimOutcome;
use crate::inbox::failure::{DeadReason, InboxFailure, InboxFailureOutcome};
use vstd::prelude::*;

verus! {

/// Where a workflow established its resolution.
#[derive(Clone, Copy, Debug, PartialEq, Eq, Structural)]
pub enum Stage {
    /// Mapping the wire value to an envelope.
    Mapping,

    /// Decoding the body.
    Decode,

    /// Beginning the transaction.
    Begin,

    /// Claiming the inbox receipt.
    Claim,

    /// Completing the receipt.
    Complete,

    /// Committing the transaction.
    Commit,

    /// Rolling the transaction back.
    Rollback,

    /// Recording a handler failure.
    Fail,
}

/// The stable telemetry label of a stage.
pub open spec fn stage_text(stage: Stage) -> Seq<char> {
    match stage {
        Stage::Mapping => "map"@,
        Stage::Decode => "decode"@,
        Stage::Begin => "begin"@,
        Stage::Claim => "claim"@,
        Stage::Complete => "complete"@,
        Stage::Commit => "commit"@,
        Stage::Rollback => "rollback"@,
        Stage::Fail => "fail"@,
    }
}

impl Stage {
    /// Returns the stable label used in telemetry.
    pub fn as_str(self) -> (label: &'static str)
        ensures
            label@ == stage_text(self),
    {
        match self {
            Stage::Mapping => "map",
            Stage::Decode => "decode",
            Stage::Begin => "begin",
            Stage::Claim => "claim",
            Stage::Complete => "complete",
            Stage::Commit => "commit",
            Stage::Rollback => "rollback",
            Stage::Fail => "fail",
        }
    }
}

/// What a claim that runs no handler counts towards.
#[derive(Clone, Copy, Debug, PartialEq, Eq)]
pub enum ClaimMetric {
    /// A duplicate in the named state.
    Duplicate(&'static str),

    /// A dead receipt.
    Dead(DeadReason),
}

/// Classifies the claims that run no handler.
pub fn claim_metric<R>(outcome: &InboxClaimOutcome<R>) -> (metric: Option<ClaimMetric>)
    ensures
        match *outcome {
            InboxClaimOutcome::Claimed(_) => metric is None,
            InboxClaimOutcome::CompletedDuplicate => metric matches Some(
                ClaimMetric::Duplicate(state),
            ) && state@ == "completed"@,
            InboxClaimOutcome::InProgressDuplicate => metric matches Some(
                ClaimMetric::Duplicate(state),
            ) && state@ == "in_progress"@,
            InboxClaimOutcome::DeadDuplicate { reason } => metric == Some(
                ClaimMetric::Dead(reason),
            ),
        },
{
    match outcome {
        InboxClaimOutcome::CompletedDuplicate => Some(ClaimMetric::Duplicate("completed")),
        InboxClaimOutcome::InProgressDuplicate => Some(ClaimMetric::Duplicate("in_progress")),
        InboxClaimOutcome::DeadDuplicate { reason } => Some(ClaimMetric::Dead(*reason)),
        InboxClaimOutcome::Claimed(_) => None,
    }
}

/// A finished workflow; it never carries the transaction.
pub struct Processed<S> {
    /// The durable state that was established.
    pub resolution: Resolution,

    /// Where it was established.
    pub stage: Stage,

    /// Typed provider error behind a failure resolution.
    pub error: Option<S>,

    /// The message's identity, once it is known.
    pub message_id: Option<MessageId>,

    /// Which attempt the handler ran, if it ran.
    pub attempt: Option<u32>,
}

/// Whether a resolution is an ordinary end: committed here, or found by the claim.
pub open spec fn is_ordinary(resolution: Resolution, stage: Stage) -> bool {
    match resolution {
        Resolution::Completed => stage is Claim || stage is Commit,
        Resolution::InProgress => stage is Claim,
        Resolution::Dead(_) => stage is Claim,
        _ => false,
    }
}

/// The error category of a workflow's duration: the stage, unless it ended ordinarily.
pub fn process_error_type<S>(processed: &Processed<S>) -> (category: Option<&'static str>)
    ensures
        match category {
            None => is_ordinary(processed.resolution, processed.stage),
            Some(label) => !is_ordinary(processed.resolution, processed.stage) && label@
                == stage_text(processed.stage),
        },
{
    let ordinary = match processed.resolution {
        Resolution::Completed => {
            matches!(processed.stage, Stage::Claim) || matches!(processed.stage, Stage::Commit)
        },
        Resolution::InProgress => matches!(processed.stage, Stage::Claim),
        Resolution::Dead(_) => matches!(processed.stage, Stage::Claim),
        _ => false,
    };

    if ordinary {
        None
    } else {
        Some(processed.stage.as_str())
    }
}

/// A database operation that did not succeed.
pub enum DatabaseFailure<S> {
    /// The operation exceeded `database_timeout`.
    TimedOut,

    /// The provider's operation failed with this classification.
    Failed(FailureKind, S),
}

/// The classification of a database failure; a timeout is transient.
pub open spec fn database_kind<S>(failure: DatabaseFailure<S>) -> FailureKind {
    match failure {
        DatabaseFailure::TimedOut => FailureKind::Transient,
        DatabaseFailure::Failed(kind, _) => kind,
    }
}

/// The provider error of a database failure.
pub open spec fn database_source<S>(failure: DatabaseFailure<S>) -> Option<S> {
    match failure {
        DatabaseFailure::TimedOut => None,
        DatabaseFailure::Failed(_, source) => Some(source),
    }
}

impl<S> DatabaseFailure<S> {
    /// Returns the classification; a timeout is transient.
    pub fn kind(&self) -> (kind: FailureKind)
        ensures
            kind == database_kind(*self),
    {
        match self {
            DatabaseFailure::TimedOut => FailureKind::Transient,
            DatabaseFailure::Failed(kind, _) => *kind,
        }
    }

    /// Returns the provider error, if there is one.
    pub fn into_source(self) -> (source: Option<S>)
        ensures
            source == database_source(self),
    {
        match self {
            DatabaseFailure::TimedOut => None,
            DatabaseFailure::Failed(_, source) => Some(source),
        }
    }
}

/// A failure to be recorded in the inbox.
pub enum FailureReport {
    /// The body could not be decoded. The codec's own text is never persisted.
    Undecodable,

    /// The handler failed.
    Handler(InboxFailure),
}

impl FailureReport {
    /// Returns the classified failure and its safe summary.
    pub fn into_failure(self) -> (failure: InboxFailure)
        ensures
            match self {
                FailureReport::Undecodable => failure.kind == FailureKind::Permanent
                    && failure.error@ == "message body could not be decoded"@,
                FailureReport::Handler(handler) => failure == handler,
            },
    {
        match self {
            FailureReport::Undecodable => InboxFailure {
                kind: FailureKind::Permanent,
                error: "message body could not be decoded".to_owned(),
            },
            FailureReport::Handler(handler) => handler,
        }
    }
}

/// A receipt claimed for this transaction.
pub struct Claim<R> {
    /// The provider's receipt.
    pub receipt: R,

    /// Number of failures recorded before this claim.
    pub recorded_failures: u32,
}

/// Which operation a workflow waits for.
pub enum Phase<R, S> {
    /// The wire value is being mapped.
    Mapping,

    /// The body is being decoded.
    Decoding,

    /// The transaction is being begun.
    Beginning,

    /// The receipt is being claimed.
    Claiming,

    /// The handler is running.
    Handling {
        /// The claimed receipt.
        receipt: R,
    },

    /// The receipt is being completed.
    Completing,

    /// The transaction is being committed.
    Committing,

    /// The transaction is being rolled back, because its claim led to neither a handler success
    /// nor a failure record.
    Discarding {
        /// The result unless the rollback fails for good.
        kept: Processed<S>,
    },

    /// The transaction of a failed handler is being rolled back.
    RollingBack {
        /// The handler's failure.
        failure: InboxFailure,
    },

    /// A failure is being recorded.
    Recording {
        /// Where the failure arose.
        stage: Stage,
    },
}

/// The outcome of the operation that a workflow waits for.
pub enum WorkflowEvent<R, S> {
    /// The wire value was mapped to an envelope with this identity, or was malformed.
    Mapped(Option<MessageId>),

    /// Whether the body was decoded.
    Decoded(bool),

    /// The transaction was begun, or was not.
    Began(Result<(), DatabaseFailure<S>>),

    /// The inbox answered the claim; `None` is an outcome that this library does not know.
    Claimed(Result<Option<InboxClaimOutcome<Claim<R>>>, DatabaseFailure<S>>),

    /// The handler ended.
    Handled(Result<(), InboxFailure>),

    /// The receipt was completed, or was not.
    Completed(Result<(), DatabaseFailure<S>>),

    /// The transaction was committed, or that is unknown.
    Committed(Result<(), DatabaseFailure<S>>),

    /// The transaction was rolled back, or that is unknown.
    RolledBack(Result<(), DatabaseFailure<S>>),

    /// The inbox answered the failure record; `None` is an outcome that this library does not know.
    Recorded(Result<Option<InboxFailureOutcome>, DatabaseFailure<S>>),
}

/// The next operation of a workflow.
pub enum WorkflowAction<R> {
    /// Decode the body.
    Decode,

    /// Begin the transaction.
    Begin,

    /// Claim the receipt in the transaction.
    Claim,

    /// Run the handler in the transaction.
    Handle,

    /// Complete this receipt in the transaction.
    Complete(R),

    /// Commit the transaction, which gives it up.
    Commit,

    /// Roll the transaction back, which gives it up.
    Rollback,

    /// Record this failure, outside any transaction.
    Record(FailureReport),
}

/// One delivery on its way to a resolution.
pub struct Workflow<R, S> {
    /// The message's identity, once it is known.
    pub message_id: Option<MessageId>,

    /// Which attempt the handler runs, once it runs.
    pub attempt: Option<u32>,

    /// Which operation is under way.
    pub phase: Phase<R, S>,
}

/// What a workflow does next.
pub enum WorkflowStep<R, S> {
    /// It performs an operation and waits for its outcome.
    Continue(Workflow<R, S>, WorkflowAction<R>),

    /// It is finished.
    Finished(Processed<S>),
}

/// Whether an event is the outcome of the operation under way.
pub open spec fn awaits<R, S>(phase: Phase<R, S>, event: WorkflowEvent<R, S>) -> bool {
    match phase {
        Phase::Mapping => event is Mapped,
        Phase::Decoding => event is Decoded,
        Phase::Beginning => event is Began,
        Phase::Claiming => event is Claimed,
        Phase::Handling { .. } => event is Handled,
        Phase::Completing => event is Completed,
        Phase::Committing => event is Committed,
        Phase::Discarding { .. } => event is RolledBack,
        Phase::RollingBack { .. } => event is RolledBack,
        Phase::Recording { .. } => event is Recorded,
    }
}

/// A workflow at the start.
pub open spec fn fresh<R, S>() -> Workflow<R, S> {
    Workflow { message_id: None, attempt: None, phase: Phase::Mapping }
}

/// A workflow's result.
pub open spec fn result<R, S>(
    workflow: Workflow<R, S>,
    resolution: Resolution,
    stage: Stage,
    error: Option<S>,
) -> Processed<S> {
    Processed {
        resolution,
        stage,
        error,
        message_id: workflow.message_id,
        attempt: workflow.attempt,
    }
}

/// A workflow that goes on to an operation.
pub open spec fn going_on<R, S>(
    workflow: Workflow<R, S>,
    phase: Phase<R, S>,
    action: WorkflowAction<R>,
) -> WorkflowStep<R, S> {
    WorkflowStep::Continue(Workflow { phase, ..workflow }, action)
}

/// The number of the attempt after a number of recorded failures.
pub open spec fn attempt_after(recorded_failures: u32) -> u32 {
    if recorded_failures == u32::MAX {
        u32::MAX
    } else {
        (recorded_failures + 1) as u32
    }
}

/// The resolution that a claim without a handler run establishes. An unknown outcome fails closed.
pub open spec fn claim_resolution<R>(outcome: Option<InboxClaimOutcome<R>>) -> Resolution {
    match outcome {
        Some(InboxClaimOutcome::InProgressDuplicate) => Resolution::InProgress,
        Some(InboxClaimOutcome::DeadDuplicate { reason }) => Resolution::Dead(reason),
        Some(_) => Resolution::Completed,
        None => Resolution::Unresolved { kind: FailureKind::Permanent },
    }
}

/// The resolution that a recorded failure establishes. An unknown outcome fails closed.
pub open spec fn recorded_resolution(outcome: Option<InboxFailureOutcome>) -> Resolution {
    match outcome {
        Some(InboxFailureOutcome::Retry { .. }) => Resolution::RetryRecorded,
        Some(InboxFailureOutcome::Dead { reason, .. }) => Resolution::Dead(reason),
        Some(InboxFailureOutcome::CompletedDuplicate) => Resolution::Completed,
        None => Resolution::Unresolved { kind: FailureKind::Permanent },
    }
}

/// What follows a claim.
pub open spec fn after_claim<R, S>(
    workflow: Workflow<R, S>,
    claimed: Result<Option<InboxClaimOutcome<Claim<R>>>, DatabaseFailure<S>>,
) -> WorkflowStep<R, S> {
    match claimed {
        Ok(Some(InboxClaimOutcome::Claimed(claim))) => WorkflowStep::Continue(
            Workflow {
                message_id: workflow.message_id,
                attempt: Some(attempt_after(claim.recorded_failures)),
                phase: Phase::Handling { receipt: claim.receipt },
            },
            WorkflowAction::Handle,
        ),
        Ok(outcome) => going_on(
            workflow,
            Phase::Discarding {
                kept: result(workflow, claim_resolution(outcome), Stage::Claim, None),
            },
            WorkflowAction::Rollback,
        ),
        Err(failure) => going_on(
            workflow,
            Phase::Discarding {
                kept: result(
                    workflow,
                    Resolution::Unresolved { kind: database_kind(failure) },
                    Stage::Claim,
                    database_source(failure),
                ),
            },
            WorkflowAction::Rollback,
        ),
    }
}

/// What follows the rollback of a discarded transaction: a failure that is not transient replaces
/// the result by one that stops the consumer.
pub open spec fn after_discard<R, S>(
    workflow: Workflow<R, S>,
    kept: Processed<S>,
    rolled_back: Result<(), DatabaseFailure<S>>,
) -> Processed<S> {
    match rolled_back {
        Err(failure) if !(database_kind(failure) is Transient) => result(
            workflow,
            Resolution::Unresolved { kind: FailureKind::Permanent },
            Stage::Rollback,
            database_source(failure),
        ),
        _ => kept,
    }
}

/// What follows a failure record.
pub open spec fn after_record<R, S>(
    workflow: Workflow<R, S>,
    stage: Stage,
    recorded: Result<Option<InboxFailureOutcome>, DatabaseFailure<S>>,
) -> Processed<S> {
    match recorded {
        Ok(outcome) => result(workflow, recorded_resolution(outcome), stage, None),
        Err(failure) => result(
            workflow,
            Resolution::NotRecorded { kind: database_kind(failure) },
            stage,
            database_source(failure),
        ),
    }
}

/// What follows an event, in a phase that awaits it.
pub open spec fn next_step<R, S>(
    workflow: Workflow<R, S>,
    event: WorkflowEvent<R, S>,
) -> WorkflowStep<R, S> {
    match (workflow.phase, event) {
        (Phase::Mapping, WorkflowEvent::Mapped(None)) => WorkflowStep::Finished(
            result(workflow, Resolution::Malformed, Stage::Mapping, None),
        ),
        (Phase::Mapping, WorkflowEvent::Mapped(Some(message_id))) => WorkflowStep::Continue(
            Workflow {
                message_id: Some(message_id),
                attempt: workflow.attempt,
                phase: Phase::Decoding,
            },
            WorkflowAction::Decode,
        ),
        (Phase::Decoding, WorkflowEvent::Decoded(true)) => going_on(
            workflow,
            Phase::Beginning,
            WorkflowAction::Begin,
        ),
        (Phase::Decoding, WorkflowEvent::Decoded(false)) => going_on(
            workflow,
            Phase::Recording { stage: Stage::Decode },
            WorkflowAction::Record(FailureReport::Undecodable),
        ),
        (Phase::Beginning, WorkflowEvent::Began(Ok(()))) => going_on(
            workflow,
            Phase::Claiming,
            WorkflowAction::Claim,
        ),
        (Phase::Beginning, WorkflowEvent::Began(Err(failure))) => WorkflowStep::Finished(
            result(
                workflow,
                Resolution::Unresolved { kind: database_kind(failure) },
                Stage::Begin,
                database_source(failure),
            ),
        ),
        (Phase::Claiming, WorkflowEvent::Claimed(claimed)) => after_claim(workflow, claimed),
        (Phase::Handling { receipt }, WorkflowEvent::Handled(Ok(()))) => going_on(
            workflow,
            Phase::Completing,
            WorkflowAction::Complete(receipt),
        ),
        (Phase::Handling { .. }, WorkflowEvent::Handled(Err(failure))) => going_on(
            workflow,
            Phase::RollingBack { failure },
            WorkflowAction::Rollback,
        ),
        (Phase::Completing, WorkflowEvent::Completed(Ok(()))) => going_on(
            workflow,
            Phase::Committing,
            WorkflowAction::Commit,
        ),
        (Phase::Completing, WorkflowEvent::Completed(Err(failure))) => going_on(
            workflow,
            Phase::Discarding {
                kept: result(
                    workflow,
                    Resolution::Unresolved { kind: database_kind(failure) },
                    Stage::Complete,
                    database_source(failure),
                ),
            },
            WorkflowAction::Rollback,
        ),
        (Phase::Committing, WorkflowEvent::Committed(Ok(()))) => WorkflowStep::Finished(
            result(workflow, Resolution::Completed, Stage::Commit, None),
        ),
        (Phase::Committing, WorkflowEvent::Committed(Err(failure))) => WorkflowStep::Finished(
            result(
                workflow,
                Resolution::CommitAmbiguous { kind: database_kind(failure) },
                Stage::Commit,
                database_source(failure),
            ),
        ),
        (Phase::Discarding { kept }, WorkflowEvent::RolledBack(rolled_back)) => {
            WorkflowStep::Finished(after_discard(workflow, kept, rolled_back))
        },
        (Phase::RollingBack { failure }, WorkflowEvent::RolledBack(Ok(()))) => going_on(
            workflow,
            Phase::Recording { stage: Stage::Fail },
            WorkflowAction::Record(FailureReport::Handler(failure)),
        ),
        (Phase::RollingBack { .. }, WorkflowEvent::RolledBack(Err(failure))) => {
            WorkflowStep::Finished(
                result(
                    workflow,
                    Resolution::NotRecorded { kind: database_kind(failure) },
                    Stage::Rollback,
                    database_source(failure),
                ),
            )
        },
        (Phase::Recording { stage }, WorkflowEvent::Recorded(recorded)) => WorkflowStep::Finished(
            after_record(workflow, stage, recorded),
        ),
        _ => WorkflowStep::Continue(workflow, arbitrary()),
    }
}

impl<R, S> Workflow<R, S> {
    /// A workflow whose wire value is being mapped.
    pub fn new() -> (workflow: Self)
        ensures
            workflow == fresh::<R, S>(),
    {
        Workflow { message_id: None, attempt: None, phase: Phase::Mapping }
    }

    /// Whether an event is the outcome of the operation under way.
    pub fn awaits(&self, event: &WorkflowEvent<R, S>) -> (awaited: bool)
        ensures
            awaited == awaits(self.phase, *event),
    {
        match &self.phase {
            Phase::Mapping => matches!(event, WorkflowEvent::Mapped(_)),
            Phase::Decoding => matches!(event, WorkflowEvent::Decoded(_)),
            Phase::Beginning => matches!(event, WorkflowEvent::Began(_)),
            Phase::Claiming => matches!(event, WorkflowEvent::Claimed(_)),
            Phase::Handling { .. } => matches!(event, WorkflowEvent::Handled(_)),
            Phase::Completing => matches!(event, WorkflowEvent::Completed(_)),
            Phase::Committing => matches!(event, WorkflowEvent::Committed(_)),
            Phase::Discarding { .. } => matches!(event, WorkflowEvent::RolledBack(_)),
            Phase::RollingBack { .. } => matches!(event, WorkflowEvent::RolledBack(_)),
            Phase::Recording { .. } => matches!(event, WorkflowEvent::Recorded(_)),
        }
    }

    /// Whether the application handler is running, so that a panic is the handler's.
    pub fn in_handler(&self) -> (handling: bool)
        ensures
            handling == (self.phase is Handling),
    {
        matches!(self.phase, Phase::Handling { .. })
    }

    /// Goes on from the outcome of the operation under way.
    pub fn step(self, event: WorkflowEvent<R, S>) -> (step: WorkflowStep<R, S>)
        requires
            awaits(self.phase, event),
        ensures
            step == next_step(self, event),
    {
        let Workflow { message_id, attempt, phase } = self;
        let at = Position { message_id, attempt };

        match (phase, event) {
            (Phase::Mapping, WorkflowEvent::Mapped(None)) => {
                at.finish(Resolution::Malformed, Stage::Mapping)
            },
            (Phase::Mapping, WorkflowEvent::Mapped(Some(message_id))) => {
                let known = Position { message_id: Some(message_id), attempt };

                known.go_on(Phase::Decoding, WorkflowAction::Decode)
            },
            (Phase::Decoding, WorkflowEvent::Decoded(decoded)) => if decoded {
                at.go_on(Phase::Beginning, WorkflowAction::Begin)
            } else {
                at.go_on(
                    Phase::Recording { stage: Stage::Decode },
                    WorkflowAction::Record(FailureReport::Undecodable),
                )
            },
            (Phase::Beginning, WorkflowEvent::Began(began)) => match began {
                Ok(()) => at.go_on(Phase::Claiming, WorkflowAction::Claim),
                Err(failure) => {
                    let kind = failure.kind();

                    at.fail(Resolution::Unresolved { kind }, Stage::Begin, failure)
                },
            },
            (Phase::Claiming, WorkflowEvent::Claimed(claimed)) => at.claimed(claimed),
            (Phase::Handling { receipt }, WorkflowEvent::Handled(handled)) => match handled {
                Ok(()) => at.go_on(Phase::Completing, WorkflowAction::Complete(receipt)),
                Err(failure) => {
                    at.go_on(Phase::RollingBack { failure }, WorkflowAction::Rollback)
                },
            },
            (Phase::Completing, WorkflowEvent::Completed(completed)) => match completed {
                Ok(()) => at.go_on(Phase::Committing, WorkflowAction::Commit),
                Err(failure) => {
                    let kind = failure.kind();

                    at.discard(
                        at.failed(Resolution::Unresolved { kind }, Stage::Complete, failure),
                    )
                },
            },
            (Phase::Committing, WorkflowEvent::Committed(committed)) => match committed {
                Ok(()) => at.finish(Resolution::Completed, Stage::Commit),
                // A commit error or timeout is ambiguous; no failure is recorded.
                Err(failure) => {
                    let kind = failure.kind();

                    at.fail(Resolution::CommitAmbiguous { kind }, Stage::Commit, failure)
                },
            },
            (Phase::Discarding { kept }, WorkflowEvent::RolledBack(rolled_back)) => {
                at.discarded(kept, rolled_back)
            },
            (Phase::RollingBack { failure }, WorkflowEvent::RolledBack(rolled_back)) => {
                match rolled_back {
                    Ok(()) => at.go_on(
                        Phase::Recording { stage: Stage::Fail },
                        WorkflowAction::Record(FailureReport::Handler(failure)),
                    ),
                    Err(rollback) => {
                        let kind = rollback.kind();

                        at.fail(Resolution::NotRecorded { kind }, Stage::Rollback, rollback)
                    },
                }
            },
            (Phase::Recording { stage }, WorkflowEvent::Recorded(recorded)) => {
                at.recorded(stage, recorded)
            },
            _ => {
                assert(false);
                at.finish(Resolution::Malformed, Stage::Mapping)
            },
        }
    }
}

/// What a workflow knows of its delivery.
#[derive(Clone, Copy)]
struct Position {
    message_id: Option<MessageId>,
    attempt: Option<u32>,
}

impl Position {
    spec fn at<R, S>(self, phase: Phase<R, S>) -> Workflow<R, S> {
        Workflow { message_id: self.message_id, attempt: self.attempt, phase }
    }

    spec fn named<S>(self, processed: Processed<S>) -> bool {
        processed.message_id == self.message_id && processed.attempt == self.attempt
    }

    fn go_on<R, S>(self, phase: Phase<R, S>, action: WorkflowAction<R>) -> (step: WorkflowStep<
        R,
        S,
    >)
        ensures
            step == WorkflowStep::Continue(self.at(phase), action),
    {
        WorkflowStep::Continue(
            Workflow { message_id: self.message_id, attempt: self.attempt, phase },
            action,
        )
    }

    fn processed<S>(self, resolution: Resolution, stage: Stage) -> (processed: Processed<S>)
        ensures
            self.named(processed),
            processed.resolution == resolution,
            processed.stage == stage,
            processed.error is None,
    {
        Processed {
            resolution,
            stage,
            error: None,
            message_id: self.message_id,
            attempt: self.attempt,
        }
    }

    fn failed<S>(
        self,
        resolution: Resolution,
        stage: Stage,
        failure: DatabaseFailure<S>,
    ) -> (processed: Processed<S>)
        ensures
            self.named(processed),
            processed.resolution == resolution,
            processed.stage == stage,
            processed.error == database_source(failure),
    {
        Processed {
            resolution,
            stage,
            error: failure.into_source(),
            message_id: self.message_id,
            attempt: self.attempt,
        }
    }

    fn finish<R, S>(self, resolution: Resolution, stage: Stage) -> (step: WorkflowStep<R, S>)
        ensures
            step matches WorkflowStep::Finished(processed) && self.named(processed)
                && processed.resolution == resolution && processed.stage == stage
                && processed.error is None,
    {
        WorkflowStep::Finished(self.processed(resolution, stage))
    }

    fn fail<R, S>(
        self,
        resolution: Resolution,
        stage: Stage,
        failure: DatabaseFailure<S>,
    ) -> (step: WorkflowStep<R, S>)
        ensures
            step matches WorkflowStep::Finished(processed) && self.named(processed)
                && processed.resolution == resolution && processed.stage == stage
                && processed.error == database_source(failure),
    {
        WorkflowStep::Finished(self.failed(resolution, stage, failure))
    }

    /// Rolls back a transaction that led to neither a handler success nor a failure record.
    fn discard<R, S>(self, kept: Processed<S>) -> (step: WorkflowStep<R, S>)
        ensures
            step == WorkflowStep::Continue(
                self.at::<R, S>(Phase::Discarding { kept }),
                WorkflowAction::Rollback,
            ),
    {
        self.go_on(Phase::Discarding { kept }, WorkflowAction::Rollback)
    }

    fn claimed<R, S>(
        self,
        claimed: Result<Option<InboxClaimOutcome<Claim<R>>>, DatabaseFailure<S>>,
    ) -> (step: WorkflowStep<R, S>)
        ensures
            step == after_claim(
                self.at::<R, S>(Phase::Claiming),
                claimed,
            ),
    {
        match claimed {
            Ok(Some(InboxClaimOutcome::Claimed(claim))) => {
                let claimed = Position {
                    message_id: self.message_id,
                    attempt: Some(claim.recorded_failures.saturating_add(1)),
                };

                claimed.go_on(Phase::Handling { receipt: claim.receipt }, WorkflowAction::Handle)
            },
            Ok(Some(InboxClaimOutcome::CompletedDuplicate)) => {
                self.discard(self.processed(Resolution::Completed, Stage::Claim))
            },
            Ok(Some(InboxClaimOutcome::InProgressDuplicate)) => {
                self.discard(self.processed(Resolution::InProgress, Stage::Claim))
            },
            Ok(Some(InboxClaimOutcome::DeadDuplicate { reason })) => {
                self.discard(self.processed(Resolution::Dead(reason), Stage::Claim))
            },
            // Unknown outcomes fail closed.
            Ok(None) => self.discard(
                self.processed(
                    Resolution::Unresolved { kind: FailureKind::Permanent },
                    Stage::Claim,
                ),
            ),
            Err(failure) => {
                let kind = failure.kind();

                self.discard(self.failed(Resolution::Unresolved { kind }, Stage::Claim, failure))
            },
        }
    }

    /// The transaction is dropped either way. A transient rollback failure or timeout keeps the
    /// result; any other one leaves the delivery unsettled and stops the consumer.
    fn discarded<R, S>(
        self,
        kept: Processed<S>,
        rolled_back: Result<(), DatabaseFailure<S>>,
    ) -> (step: WorkflowStep<R, S>)
        ensures
            step == WorkflowStep::<R, S>::Finished(
                after_discard(
                    self.at::<R, S>(Phase::Discarding { kept }),
                    kept,
                    rolled_back,
                ),
            ),
    {
        match rolled_back {
            Ok(()) => WorkflowStep::Finished(kept),
            Err(failure) => if failure.kind().is_retryable() {
                WorkflowStep::Finished(kept)
            } else {
                self.fail(
                    Resolution::Unresolved { kind: FailureKind::Permanent },
                    Stage::Rollback,
                    failure,
                )
            },
        }
    }

    fn recorded<R, S>(
        self,
        stage: Stage,
        recorded: Result<Option<InboxFailureOutcome>, DatabaseFailure<S>>,
    ) -> (step: WorkflowStep<R, S>)
        ensures
            step == WorkflowStep::<R, S>::Finished(
                after_record(
                    self.at::<R, S>(Phase::Recording { stage }),
                    stage,
                    recorded,
                ),
            ),
    {
        match recorded {
            Ok(Some(InboxFailureOutcome::Retry { .. })) => {
                self.finish(Resolution::RetryRecorded, stage)
            },
            Ok(Some(InboxFailureOutcome::Dead { reason, .. })) => {
                self.finish(Resolution::Dead(reason), stage)
            },
            Ok(Some(InboxFailureOutcome::CompletedDuplicate)) => {
                self.finish(Resolution::Completed, stage)
            },
            // An unknown outcome fails closed.
            Ok(None) => self.finish(
                Resolution::Unresolved { kind: FailureKind::Permanent },
                stage,
            ),
            Err(failure) => {
                let kind = failure.kind();

                self.fail(Resolution::NotRecorded { kind }, stage, failure)
            },
        }
    }
}

/// No two stages have the same label.
pub proof fn law_stages_have_their_own_label(left: Stage, right: Stage)
    ensures
        stage_text(left) == stage_text(right) <==> left == right,
{
    reveal_strlit("map");
    reveal_strlit("decode");
    reveal_strlit("begin");
    reveal_strlit("claim");
    reveal_strlit("complete");
    reveal_strlit("commit");
    reveal_strlit("rollback");
    reveal_strlit("fail");

    let l = stage_text(left);
    let r = stage_text(right);
    assert(left != right ==> l.len() != r.len() || l[0] != r[0]);
}

} // verus!
