//! Construction errors, clean exits, and fatal supervision failures.

use crate::delivery::IndividualSourceRequirement;
use crate::failure::FailureKind;
use crate::inbox::failure::DeadReason;
use vstd::prelude::*;

verus! {

/// A consumer setting validated when a consumer is constructed.
#[derive(Clone, Copy, Debug, PartialEq, Eq, Structural, Hash)]
#[non_exhaustive]
pub enum SettingsField {
    /// The bound for opening the source.
    SourceTimeout,

    /// The bound for each database operation.
    DatabaseTimeout,

    /// The bound for each settlement operation.
    SettlementTimeout,

    /// The interval between heartbeats of a running delivery.
    HeartbeatInterval,

    /// The broker redelivery delay.
    NakDelay,

    /// The bound for the graceful drain.
    DrainTimeout,
}

/// The stable name of a setting.
pub open spec fn field_name(field: SettingsField) -> Seq<char> {
    match field {
        SettingsField::SourceTimeout => "source_timeout"@,
        SettingsField::DatabaseTimeout => "database_timeout"@,
        SettingsField::SettlementTimeout => "settlement_timeout"@,
        SettingsField::HeartbeatInterval => "heartbeat_interval"@,
        SettingsField::NakDelay => "nak_delay"@,
        SettingsField::DrainTimeout => "drain_timeout"@,
    }
}

impl SettingsField {
    /// Returns the stable field name.
    pub fn as_str(self) -> (name: &'static str)
        ensures
            name@ == field_name(self),
    {
        match self {
            SettingsField::SourceTimeout => "source_timeout",
            SettingsField::DatabaseTimeout => "database_timeout",
            SettingsField::SettlementTimeout => "settlement_timeout",
            SettingsField::HeartbeatInterval => "heartbeat_interval",
            SettingsField::NakDelay => "nak_delay",
            SettingsField::DrainTimeout => "drain_timeout",
        }
    }
}

/// Invalid constructor-known consumer settings.
#[derive(Clone, Copy, Debug, PartialEq, Eq, Structural)]
#[non_exhaustive]
pub enum ConsumerConfigError {
    /// A duration that must bound an operation or delay was zero.
    ZeroDuration(SettingsField),

    /// Immediate requeue was selected with a redelivery delay.
    ImmediateRequeueRequiresZeroDelay,

    /// Heartbeats were configured for a partitioned-log source.
    HeartbeatRequiresIndividualSource,
}

/// The rendering of a configuration error.
pub open spec fn config_error_text(error: ConsumerConfigError) -> Seq<char> {
    match error {
        ConsumerConfigError::ZeroDuration(field) => "consumer setting "@ + field_name(field)
            + " must be non-zero"@,
        ConsumerConfigError::ImmediateRequeueRequiresZeroDelay => {
            "immediate requeue requires a zero nak_delay"@
        },
        ConsumerConfigError::HeartbeatRequiresIndividualSource => {
            "consumer heartbeats require an individual-delivery source"@
        },
    }
}

impl ConsumerConfigError {
    /// Invalid settings stay invalid: every configuration error is permanent.
    pub fn classify(&self) -> (failure: FailureKind)
        ensures
            failure == FailureKind::Permanent,
    {
        FailureKind::Permanent
    }

    /// Renders the error.
    pub fn to_string(&self) -> (text: String)
        ensures
            text@ == config_error_text(*self),
    {
        match self {
            ConsumerConfigError::ZeroDuration(field) => {
                let mut text = "consumer setting ".to_owned();
                text.push_str(field.as_str());
                text.push_str(" must be non-zero");
                text
            },
            ConsumerConfigError::ImmediateRequeueRequiresZeroDelay => {
                "immediate requeue requires a zero nak_delay".to_owned()
            },
            ConsumerConfigError::HeartbeatRequiresIndividualSource => {
                "consumer heartbeats require an individual-delivery source".to_owned()
            },
        }
    }
}

/// A clean end of a consumer run.
#[derive(Clone, Copy, Debug, PartialEq, Eq, Structural, Hash)]
#[non_exhaustive]
pub enum ConsumerExit {
    /// The caller cancelled the consumer and the bounded drain finished.
    Cancelled,

    /// The source reported a clean close and the bounded drain finished.
    SourceClosed,
}

/// Why a delivery needs operator action before the consumer can continue.
#[derive(Clone, Copy, Debug, PartialEq, Eq, Structural, Hash)]
#[non_exhaustive]
pub enum OperatorReason {
    /// The wire value had no trustworthy message identity, so no inbox row could record it.
    Malformed,

    /// The inbox holds a durable dead receipt for the delivery.
    Dead(DeadReason),
}

/// The decision boundary that ended a consumer run.
#[derive(Clone, Copy, Debug, PartialEq, Eq, Structural, Hash)]
#[non_exhaustive]
pub enum ConsumerErrorKind {
    /// Opening the source failed.
    SourceOpen,

    /// Opening the source exceeded `source_timeout`.
    SourceOpenTimeout,

    /// The opened source does not satisfy a requirement of the selected settlement mode.
    Unsupported(IndividualSourceRequirement),

    /// The inbox attempt bound exceeds the source's finite delivery bound.
    AttemptBoundExceedsMaxDeliver,

    /// The source's acknowledgement deadline leaves no room for a missed heartbeat.
    HeartbeatDeadlineTooShort,

    /// Receiving from the source failed.
    Source,

    /// A unit-of-work or inbox operation failed without a safe delivery disposition.
    Inbox,

    /// A handler failure could not be rolled back and recorded.
    FailureNotRecorded,

    /// A settlement operation failed permanently or is unsupported.
    Settlement,

    /// A record was received for a partition whose earlier record is unresolved.
    PartitionOrder,

    /// A partition's record reached no durable outcome.
    PartitionUnresolved,

    /// Whether a partition advanced is unknown.
    PartitionAdvanceUncertain,

    /// A delivery requires operator action; it was left unsettled.
    OperatorActionRequired(OperatorReason),

    /// The handler panicked; its transaction was dropped and its delivery left unsettled.
    HandlerPanicked,

    /// A processing task panicked outside the handler; its transaction was dropped and its
    /// delivery left unsettled.
    ProviderPanicked,

    /// A consumer-internal task failed unexpectedly.
    Runtime,
}

/// The rendering of a fatal failure.
pub open spec fn error_text(kind: ConsumerErrorKind) -> Seq<char> {
    match kind {
        ConsumerErrorKind::SourceOpen => "consumer source failed to open"@,
        ConsumerErrorKind::SourceOpenTimeout => "consumer source open timed out"@,
        ConsumerErrorKind::Unsupported(_) => {
            "consumer source does not satisfy a settlement-mode requirement"@
        },
        ConsumerErrorKind::AttemptBoundExceedsMaxDeliver => {
            "inbox attempt bound exceeds the source delivery bound"@
        },
        ConsumerErrorKind::HeartbeatDeadlineTooShort => {
            "source acknowledgement deadline is too short for the heartbeat interval"@
        },
        ConsumerErrorKind::Source => "consumer source failed"@,
        ConsumerErrorKind::Inbox => "consumer inbox operation failed"@,
        ConsumerErrorKind::FailureNotRecorded => "consumer could not record a handler failure"@,
        ConsumerErrorKind::Settlement => "consumer settlement failed"@,
        ConsumerErrorKind::PartitionOrder => "consumer partition order was violated"@,
        ConsumerErrorKind::PartitionUnresolved => "consumer partition record is unresolved"@,
        ConsumerErrorKind::PartitionAdvanceUncertain => "consumer partition advance is uncertain"@,
        ConsumerErrorKind::OperatorActionRequired(_) => {
            "consumer delivery requires operator action"@
        },
        ConsumerErrorKind::HandlerPanicked => "consumer handler panicked"@,
        ConsumerErrorKind::ProviderPanicked => "consumer processing task panicked"@,
        ConsumerErrorKind::Runtime => "consumer runtime failed"@,
    }
}

/// The stable telemetry label of a fatal failure.
pub open spec fn error_label_text(kind: ConsumerErrorKind) -> Seq<char> {
    match kind {
        ConsumerErrorKind::SourceOpen => "source_open"@,
        ConsumerErrorKind::SourceOpenTimeout => "source_open_timeout"@,
        ConsumerErrorKind::Unsupported(_) => "unsupported"@,
        ConsumerErrorKind::AttemptBoundExceedsMaxDeliver => "attempt_bound_exceeds_max_deliver"@,
        ConsumerErrorKind::HeartbeatDeadlineTooShort => "heartbeat_deadline_too_short"@,
        ConsumerErrorKind::Source => "source"@,
        ConsumerErrorKind::Inbox => "inbox"@,
        ConsumerErrorKind::FailureNotRecorded => "failure_not_recorded"@,
        ConsumerErrorKind::Settlement => "settlement"@,
        ConsumerErrorKind::PartitionOrder => "partition_order"@,
        ConsumerErrorKind::PartitionUnresolved => "partition_unresolved"@,
        ConsumerErrorKind::PartitionAdvanceUncertain => "partition_advance_uncertain"@,
        ConsumerErrorKind::OperatorActionRequired(_) => "operator_action_required"@,
        ConsumerErrorKind::HandlerPanicked => "handler_panicked"@,
        ConsumerErrorKind::ProviderPanicked => "provider_panicked"@,
        ConsumerErrorKind::Runtime => "runtime"@,
    }
}

impl ConsumerErrorKind {
    /// Returns the stable label used in telemetry.
    pub fn as_str(self) -> (label: &'static str)
        ensures
            label@ == error_label_text(self),
    {
        match self {
            ConsumerErrorKind::SourceOpen => "source_open",
            ConsumerErrorKind::SourceOpenTimeout => "source_open_timeout",
            ConsumerErrorKind::Unsupported(_) => "unsupported",
            ConsumerErrorKind::AttemptBoundExceedsMaxDeliver => "attempt_bound_exceeds_max_deliver",
            ConsumerErrorKind::HeartbeatDeadlineTooShort => "heartbeat_deadline_too_short",
            ConsumerErrorKind::Source => "source",
            ConsumerErrorKind::Inbox => "inbox",
            ConsumerErrorKind::FailureNotRecorded => "failure_not_recorded",
            ConsumerErrorKind::Settlement => "settlement",
            ConsumerErrorKind::PartitionOrder => "partition_order",
            ConsumerErrorKind::PartitionUnresolved => "partition_unresolved",
            ConsumerErrorKind::PartitionAdvanceUncertain => "partition_advance_uncertain",
            ConsumerErrorKind::OperatorActionRequired(_) => "operator_action_required",
            ConsumerErrorKind::HandlerPanicked => "handler_panicked",
            ConsumerErrorKind::ProviderPanicked => "provider_panicked",
            ConsumerErrorKind::Runtime => "runtime",
        }
    }

    /// Returns what is rendered of a failure of this kind.
    pub fn description(self) -> (text: &'static str)
        ensures
            text@ == error_text(self),
    {
        match self {
            ConsumerErrorKind::SourceOpen => "consumer source failed to open",
            ConsumerErrorKind::SourceOpenTimeout => "consumer source open timed out",
            ConsumerErrorKind::Unsupported(_) => {
                "consumer source does not satisfy a settlement-mode requirement"
            },
            ConsumerErrorKind::AttemptBoundExceedsMaxDeliver => {
                "inbox attempt bound exceeds the source delivery bound"
            },
            ConsumerErrorKind::HeartbeatDeadlineTooShort => {
                "source acknowledgement deadline is too short for the heartbeat interval"
            },
            ConsumerErrorKind::Source => "consumer source failed",
            ConsumerErrorKind::Inbox => "consumer inbox operation failed",
            ConsumerErrorKind::FailureNotRecorded => "consumer could not record a handler failure",
            ConsumerErrorKind::Settlement => "consumer settlement failed",
            ConsumerErrorKind::PartitionOrder => "consumer partition order was violated",
            ConsumerErrorKind::PartitionUnresolved => "consumer partition record is unresolved",
            ConsumerErrorKind::PartitionAdvanceUncertain => {
                "consumer partition advance is uncertain"
            },
            ConsumerErrorKind::OperatorActionRequired(_) => {
                "consumer delivery requires operator action"
            },
            ConsumerErrorKind::HandlerPanicked => "consumer handler panicked",
            ConsumerErrorKind::ProviderPanicked => "consumer processing task panicked",
            ConsumerErrorKind::Runtime => "consumer runtime failed",
        }
    }
}

/// The name of a kind's variant, with what it holds.
pub open spec fn kind_name(kind: ConsumerErrorKind) -> Seq<char> {
    match kind {
        ConsumerErrorKind::SourceOpen => "SourceOpen"@,
        ConsumerErrorKind::SourceOpenTimeout => "SourceOpenTimeout"@,
        ConsumerErrorKind::AttemptBoundExceedsMaxDeliver => "AttemptBoundExceedsMaxDeliver"@,
        ConsumerErrorKind::HeartbeatDeadlineTooShort => "HeartbeatDeadlineTooShort"@,
        ConsumerErrorKind::Source => "Source"@,
        ConsumerErrorKind::Inbox => "Inbox"@,
        ConsumerErrorKind::FailureNotRecorded => "FailureNotRecorded"@,
        ConsumerErrorKind::Settlement => "Settlement"@,
        ConsumerErrorKind::PartitionOrder => "PartitionOrder"@,
        ConsumerErrorKind::PartitionUnresolved => "PartitionUnresolved"@,
        ConsumerErrorKind::PartitionAdvanceUncertain => "PartitionAdvanceUncertain"@,
        ConsumerErrorKind::HandlerPanicked => "HandlerPanicked"@,
        ConsumerErrorKind::ProviderPanicked => "ProviderPanicked"@,
        ConsumerErrorKind::Runtime => "Runtime"@,
        ConsumerErrorKind::Unsupported(IndividualSourceRequirement::AckWait) => {
            "Unsupported(AckWait)"@
        },
        ConsumerErrorKind::Unsupported(IndividualSourceRequirement::Heartbeat) => {
            "Unsupported(Heartbeat)"@
        },
        ConsumerErrorKind::Unsupported(IndividualSourceRequirement::DelayedRetry) => {
            "Unsupported(DelayedRetry)"@
        },
        ConsumerErrorKind::Unsupported(IndividualSourceRequirement::ImmediateRequeue) => {
            "Unsupported(ImmediateRequeue)"@
        },
        ConsumerErrorKind::Unsupported(IndividualSourceRequirement::TerminalDiscard) => {
            "Unsupported(TerminalDiscard)"@
        },
        ConsumerErrorKind::OperatorActionRequired(
            OperatorReason::Malformed,
        ) => "OperatorActionRequired(Malformed)"@,
        ConsumerErrorKind::OperatorActionRequired(
            OperatorReason::Dead(DeadReason::Permanent),
        ) => "OperatorActionRequired(Dead(Permanent))"@,
        ConsumerErrorKind::OperatorActionRequired(
            OperatorReason::Dead(DeadReason::Exhausted),
        ) => "OperatorActionRequired(Dead(Exhausted))"@,
    }
}

/// The name of a classification's variant.
pub open spec fn failure_name(failure: FailureKind) -> Seq<char> {
    match failure {
        FailureKind::Transient => "Transient"@,
        FailureKind::Permanent => "Permanent"@,
        FailureKind::Unknown => "Unknown"@,
    }
}

/// The redacted rendering of a failure: its kind, its classification, and whether there is a cause.
pub open spec fn redacted_text(
    kind: ConsumerErrorKind,
    failure: FailureKind,
    caused: bool,
) -> Seq<char> {
    "ConsumerError { kind: "@ + kind_name(kind) + ", failure: "@ + failure_name(failure)
        + if caused {
        ", source: \"<redacted>\" }"@
    } else {
        ", source: \"None\" }"@
    }
}

fn name_of(kind: ConsumerErrorKind) -> (name: &'static str)
    ensures
        name@ == kind_name(kind),
{
    match kind {
        ConsumerErrorKind::SourceOpen => "SourceOpen",
        ConsumerErrorKind::SourceOpenTimeout => "SourceOpenTimeout",
        ConsumerErrorKind::AttemptBoundExceedsMaxDeliver => "AttemptBoundExceedsMaxDeliver",
        ConsumerErrorKind::HeartbeatDeadlineTooShort => "HeartbeatDeadlineTooShort",
        ConsumerErrorKind::Source => "Source",
        ConsumerErrorKind::Inbox => "Inbox",
        ConsumerErrorKind::FailureNotRecorded => "FailureNotRecorded",
        ConsumerErrorKind::Settlement => "Settlement",
        ConsumerErrorKind::PartitionOrder => "PartitionOrder",
        ConsumerErrorKind::PartitionUnresolved => "PartitionUnresolved",
        ConsumerErrorKind::PartitionAdvanceUncertain => "PartitionAdvanceUncertain",
        ConsumerErrorKind::HandlerPanicked => "HandlerPanicked",
        ConsumerErrorKind::ProviderPanicked => "ProviderPanicked",
        ConsumerErrorKind::Runtime => "Runtime",
        ConsumerErrorKind::Unsupported(IndividualSourceRequirement::AckWait) => {
            "Unsupported(AckWait)"
        },
        ConsumerErrorKind::Unsupported(IndividualSourceRequirement::Heartbeat) => {
            "Unsupported(Heartbeat)"
        },
        ConsumerErrorKind::Unsupported(IndividualSourceRequirement::DelayedRetry) => {
            "Unsupported(DelayedRetry)"
        },
        ConsumerErrorKind::Unsupported(IndividualSourceRequirement::ImmediateRequeue) => {
            "Unsupported(ImmediateRequeue)"
        },
        ConsumerErrorKind::Unsupported(IndividualSourceRequirement::TerminalDiscard) => {
            "Unsupported(TerminalDiscard)"
        },
        ConsumerErrorKind::OperatorActionRequired(
            OperatorReason::Malformed,
        ) => "OperatorActionRequired(Malformed)",
        ConsumerErrorKind::OperatorActionRequired(
            OperatorReason::Dead(DeadReason::Permanent),
        ) => "OperatorActionRequired(Dead(Permanent))",
        ConsumerErrorKind::OperatorActionRequired(
            OperatorReason::Dead(DeadReason::Exhausted),
        ) => "OperatorActionRequired(Dead(Exhausted))",
    }
}

/// The typed error behind a fatal failure.
pub enum ErrorSource<S> {
    /// The source lacks something that was required of it.
    Requirement(IndividualSourceRequirement),

    /// The provider's own error.
    Provider(S),
}

/// A fatal consumer failure returned to the application supervisor.
///
/// Its rendering holds only the stable kind and failure classification, because provider errors
/// may contain credentials, payloads, or wire headers. The typed provider error remains available
/// through [`ConsumerError::provider_source`] for deliberate inspection.
pub struct ConsumerError<S> {
    /// The decision boundary that ended the run.
    pub kind: ConsumerErrorKind,

    /// The retry classification of the underlying failure.
    pub failure: FailureKind,

    /// The typed error behind the failure, when one caused it.
    pub source: Option<ErrorSource<S>>,
}

impl<S> ConsumerError<S> {
    /// A failure with the given boundary, classification, and cause.
    pub fn new(
        kind: ConsumerErrorKind,
        failure: FailureKind,
        source: Option<ErrorSource<S>>,
    ) -> (error: Self)
        ensures
            error == (ConsumerError { kind, failure, source }),
    {
        ConsumerError { kind, failure, source }
    }

    /// Returns the decision boundary that ended the run.
    pub fn kind(&self) -> (kind: ConsumerErrorKind)
        ensures
            kind == self.kind,
    {
        self.kind
    }

    /// Returns the retry classification of the underlying failure.
    pub fn failure_kind(&self) -> (failure: FailureKind)
        ensures
            failure == self.failure,
    {
        self.failure
    }

    /// Returns the retry classification of the underlying failure.
    pub fn classify(&self) -> (failure: FailureKind)
        ensures
            failure == self.failure,
    {
        self.failure
    }

    /// Borrows the typed error, when one caused this failure.
    ///
    /// Its rendering is provider-owned and may contain sensitive values; apply redaction before
    /// logging it.
    pub fn provider_source(&self) -> (source: Option<&ErrorSource<S>>)
        ensures
            match source {
                Some(source) => self.source == Some(*source),
                None => self.source is None,
            },
    {
        self.source.as_ref()
    }

    /// Renders the failure by its kind alone.
    pub fn to_string(&self) -> (text: String)
        ensures
            text@ == error_text(self.kind),
    {
        self.kind.description().to_owned()
    }

    /// Renders the failure for diagnosis, without its cause.
    pub fn redacted(&self) -> (text: String)
        ensures
            text@ == redacted_text(self.kind, self.failure, self.source is Some),
    {
        let mut text = "ConsumerError { kind: ".to_owned();
        text.push_str(name_of(self.kind));
        text.push_str(", failure: ");
        text.push_str(
            match self.failure {
                FailureKind::Transient => "Transient",
                FailureKind::Permanent => "Permanent",
                FailureKind::Unknown => "Unknown",
            },
        );
        text.push_str(
            if self.source.is_some() {
                ", source: \"<redacted>\" }"
            } else {
                ", source: \"None\" }"
            },
        );
        text
    }
}

/// No rendering of a failure depends on what the provider's error holds.
pub proof fn law_rendering_hides_the_cause<S>(
    kind: ConsumerErrorKind,
    failure: FailureKind,
    left: ErrorSource<S>,
    right: ErrorSource<S>,
)
    ensures
        ({
            let one = ConsumerError { kind, failure, source: Some(left) };
            let other = ConsumerError { kind, failure, source: Some(right) };
            &&& error_text(one.kind) == error_text(other.kind)
            &&& redacted_text(one.kind, one.failure, one.source is Some) == redacted_text(
                other.kind,
                other.failure,
                other.source is Some,
            )
        }),
{
}

/// No two kinds have the same name, not even where they differ in what they hold.
pub proof fn law_kinds_have_their_own_name(left: ConsumerErrorKind, right: ConsumerErrorKind)
    ensures
        kind_name(left) == kind_name(right) <==> left == right,
{
    reveal_strlit("SourceOpen");
    reveal_strlit("SourceOpenTimeout");
    reveal_strlit("AttemptBoundExceedsMaxDeliver");
    reveal_strlit("HeartbeatDeadlineTooShort");
    reveal_strlit("Source");
    reveal_strlit("Inbox");
    reveal_strlit("FailureNotRecorded");
    reveal_strlit("Settlement");
    reveal_strlit("PartitionOrder");
    reveal_strlit("PartitionUnresolved");
    reveal_strlit("PartitionAdvanceUncertain");
    reveal_strlit("HandlerPanicked");
    reveal_strlit("ProviderPanicked");
    reveal_strlit("Runtime");
    reveal_strlit("Unsupported(AckWait)");
    reveal_strlit("Unsupported(Heartbeat)");
    reveal_strlit("Unsupported(DelayedRetry)");
    reveal_strlit("Unsupported(ImmediateRequeue)");
    reveal_strlit("Unsupported(TerminalDiscard)");
    reveal_strlit("OperatorActionRequired(Malformed)");
    reveal_strlit("OperatorActionRequired(Dead(Permanent))");
    reveal_strlit("OperatorActionRequired(Dead(Exhausted))");

    let l = kind_name(left);
    let r = kind_name(right);
    assert(left != right ==> l.len() != r.len() || l[0] != r[0] || l[1] != r[1] || l[28] != r[28]);
}

/// No two settings have the same name.
pub proof fn law_settings_have_their_own_name(left: SettingsField, right: SettingsField)
    ensures
        field_name(left) == field_name(right) <==> left == right,
{
    reveal_strlit("source_timeout");
    reveal_strlit("database_timeout");
    reveal_strlit("settlement_timeout");
    reveal_strlit("heartbeat_interval");
    reveal_strlit("nak_delay");
    reveal_strlit("drain_timeout");

    let l = field_name(left);
    let r = field_name(right);
    assert(left != right ==> l.len() != r.len() || l[0] != r[0]);
}

/// Kinds that differ at most in what they hold.
pub open spec fn alike(left: ConsumerErrorKind, right: ConsumerErrorKind) -> bool {
    ||| left == right
    ||| left is Unsupported && right is Unsupported
    ||| left is OperatorActionRequired && right is OperatorActionRequired
}

/// No two kinds of failure render alike; what a kind holds is not rendered.
pub proof fn law_kinds_render_apart(left: ConsumerErrorKind, right: ConsumerErrorKind)
    ensures
        error_text(left) == error_text(right) <==> alike(left, right),
{
    reveal_strlit("consumer source failed to open");
    reveal_strlit("consumer source open timed out");
    reveal_strlit("consumer source does not satisfy a settlement-mode requirement");
    reveal_strlit("inbox attempt bound exceeds the source delivery bound");
    reveal_strlit("source acknowledgement deadline is too short for the heartbeat interval");
    reveal_strlit("consumer source failed");
    reveal_strlit("consumer inbox operation failed");
    reveal_strlit("consumer could not record a handler failure");
    reveal_strlit("consumer settlement failed");
    reveal_strlit("consumer partition order was violated");
    reveal_strlit("consumer partition record is unresolved");
    reveal_strlit("consumer partition advance is uncertain");
    reveal_strlit("consumer delivery requires operator action");
    reveal_strlit("consumer handler panicked");
    reveal_strlit("consumer processing task panicked");
    reveal_strlit("consumer runtime failed");

    let l = error_text(left);
    let r = error_text(right);
    assert(!alike(left, right) ==> l.len() != r.len() || l[16] != r[16] || l[19] != r[19]);
}

/// No two kinds of failure have the same label; what a kind holds is not part of it.
pub proof fn law_kinds_have_their_own_label(left: ConsumerErrorKind, right: ConsumerErrorKind)
    ensures
        error_label_text(left) == error_label_text(right) <==> alike(left, right),
{
    reveal_strlit("source_open");
    reveal_strlit("source_open_timeout");
    reveal_strlit("unsupported");
    reveal_strlit("attempt_bound_exceeds_max_deliver");
    reveal_strlit("heartbeat_deadline_too_short");
    reveal_strlit("source");
    reveal_strlit("inbox");
    reveal_strlit("failure_not_recorded");
    reveal_strlit("settlement");
    reveal_strlit("partition_order");
    reveal_strlit("partition_unresolved");
    reveal_strlit("partition_advance_uncertain");
    reveal_strlit("operator_action_required");
    reveal_strlit("handler_panicked");
    reveal_strlit("provider_panicked");
    reveal_strlit("runtime");

    let l = error_label_text(left);
    let r = error_label_text(right);
    assert(!alike(left, right) ==> l.len() != r.len() || l[0] != r[0]);
}

/// The rendering for diagnosis tells whether a failure has a cause.
pub proof fn law_rendering_tells_whether_there_is_a_cause(
    kind: ConsumerErrorKind,
    failure: FailureKind,
)
    ensures
        redacted_text(kind, failure, true) != redacted_text(kind, failure, false),
{
    reveal_strlit(", source: \"<redacted>\" }");
    reveal_strlit(", source: \"None\" }");
    assert(redacted_text(kind, failure, true).len() != redacted_text(kind, failure, false).len());
}

} // verus!
