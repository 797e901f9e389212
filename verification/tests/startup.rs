//! Construction validation, source opening, and startup requirement checks.

use std::time::Duration;

use sisa_messaging::consumer::error::ErrorSource;
use sisa_messaging::consumer::receive::{open, open_outcome, receive_error, OpenReply, Opened};
use sisa_messaging::consumer::telemetry::{
    remote_span_context, span_parent, SpanParent, IN_FLIGHT_METRIC,
};
use sisa_messaging::consumer::{
    Consumer, ConsumerConfigError, ConsumerError, ConsumerErrorKind, ConsumerSettings,
    OperatorReason, SettingsField, SettlementMode,
};
use sisa_messaging::delivery::{
    IndividualSourceDescriptor, IndividualSourceRequirement, IndividualSourceRequirements,
};
use sisa_messaging::envelope::Metadata;
use sisa_messaging::failure::FailureKind;
use sisa_messaging::inbox::{DeadReason, InboxScope};
use sisa_messaging::nonzero::{NonZeroU32, NonZeroU64};

type Idle = Consumer<(), (u8, u8, u8, u8, u8)>;

type Zeroing = fn(&mut ConsumerSettings);

fn settings(mode: SettlementMode) -> ConsumerSettings {
    let mut settings = ConsumerSettings::default();
    settings.mode = mode;

    if mode == SettlementMode::BrokerImmediateRequeue {
        settings.nak_delay = Duration::ZERO;
    }

    settings
}

fn scope() -> InboxScope {
    InboxScope::new("orders-projection").expect("a valid scope")
}

fn consumer(settings: &ConsumerSettings) -> Result<Idle, ConsumerConfigError> {
    Consumer::new(1, 2, 3, 4, scope(), 5, settings.clone())
}

fn rejected(settings: &ConsumerSettings) -> Option<ConsumerConfigError> {
    consumer(settings).err()
}

fn descriptor(
    max_deliver: Option<u64>,
    delayed_retry: bool,
    terminal_discard: bool,
) -> IndividualSourceDescriptor {
    IndividualSourceDescriptor {
        ack_wait: None,
        max_deliver: max_deliver.and_then(NonZeroU64::new),
        delayed_retry,
        terminal_discard,
        heartbeat: false,
        immediate_requeue: false,
    }
}

fn attempts() -> NonZeroU32 {
    NonZeroU32::new(3).expect("three attempts")
}

fn opening(
    settings: &ConsumerSettings,
    descriptor: IndividualSourceDescriptor,
) -> Result<Opened, ConsumerError<FailureKind>> {
    open(settings, attempts(), OpenReply::Opened(descriptor))
}

fn refusal(
    settings: &ConsumerSettings,
    descriptor: IndividualSourceDescriptor,
) -> ConsumerError<FailureKind> {
    match opening(settings, descriptor) {
        Err(error) => error,
        Ok(_) => panic!("the source must be refused"),
    }
}

#[test]
fn public_error_and_settings_inventory() {
    assert_eq!(
        ConsumerConfigError::ImmediateRequeueRequiresZeroDelay.classify(),
        FailureKind::Permanent
    );
    let error: ConsumerError<()> =
        ConsumerError::new(ConsumerErrorKind::Source, FailureKind::Transient, None);
    assert_eq!(error.classify(), FailureKind::Transient);

    for (field, name) in [
        (SettingsField::SourceTimeout, "source_timeout"),
        (SettingsField::DatabaseTimeout, "database_timeout"),
        (SettingsField::SettlementTimeout, "settlement_timeout"),
        (SettingsField::HeartbeatInterval, "heartbeat_interval"),
        (SettingsField::NakDelay, "nak_delay"),
        (SettingsField::DrainTimeout, "drain_timeout"),
    ] {
        assert_eq!(field.as_str(), name);
    }
}

#[test]
fn defaults_select_broker_mode_with_non_zero_bounds() {
    let settings = ConsumerSettings::default();

    assert_eq!(settings.mode, SettlementMode::Broker);
    assert_eq!(SettlementMode::default(), SettlementMode::Broker);
    assert!(!settings.nak_delay.is_zero());
    assert!(!settings.drain_timeout.is_zero());
    assert_eq!(settings.max_in_flight.get(), 32);
    assert_eq!(settings.source_timeout, Duration::from_secs(10));
    assert_eq!(settings.database_timeout, Duration::from_secs(5));
    assert_eq!(settings.settlement_timeout, Duration::from_secs(10));
    assert_eq!(settings.nak_delay, Duration::from_secs(5));
    assert_eq!(settings.drain_timeout, Duration::from_secs(20));
    assert_eq!(settings.heartbeat_interval, None);
}

#[test]
fn construction_rejects_each_zero_duration() {
    let cases: [(SettingsField, Zeroing); 6] = [
        (SettingsField::SourceTimeout, |settings| {
            settings.source_timeout = Duration::ZERO;
        }),
        (SettingsField::DatabaseTimeout, |settings| {
            settings.database_timeout = Duration::ZERO;
        }),
        (SettingsField::SettlementTimeout, |settings| {
            settings.settlement_timeout = Duration::ZERO;
        }),
        (SettingsField::DrainTimeout, |settings| {
            settings.drain_timeout = Duration::ZERO;
        }),
        (SettingsField::NakDelay, |settings| {
            settings.nak_delay = Duration::ZERO;
        }),
        (SettingsField::HeartbeatInterval, |settings| {
            settings.heartbeat_interval = Some(Duration::ZERO);
        }),
    ];

    for (field, zero) in cases {
        let mut settings = settings(SettlementMode::Broker);
        zero(&mut settings);

        let error = rejected(&settings);

        assert_eq!(error, Some(ConsumerConfigError::ZeroDuration(field)));

        assert_eq!(
            error.map(|error| error.to_string()),
            Some(format!(
                "consumer setting {} must be non-zero",
                field.as_str()
            ))
        );
    }
}

#[test]
fn pending_recovery_accepts_a_zero_nak_delay() {
    let mut settings = settings(SettlementMode::PendingRecovery);
    settings.nak_delay = Duration::ZERO;

    assert!(consumer(&settings).is_ok());

    settings.drain_timeout = Duration::ZERO;

    assert_eq!(
        rejected(&settings),
        Some(ConsumerConfigError::ZeroDuration(
            SettingsField::DrainTimeout
        ))
    );
}

#[test]
fn immediate_requeue_requires_exactly_zero_delay() {
    let mut settings = settings(SettlementMode::BrokerImmediateRequeue);
    assert!(consumer(&settings).is_ok());
    settings.nak_delay = Duration::from_nanos(1);

    assert_eq!(
        rejected(&settings),
        Some(ConsumerConfigError::ImmediateRequeueRequiresZeroDelay)
    );
}

#[test]
fn partitioned_consumers_reject_heartbeats() {
    let mut settings = settings(SettlementMode::Broker);
    assert!(Idle::new_partitioned(1, 2, 3, 4, scope(), 5, settings.clone()).is_ok());

    settings.heartbeat_interval = Some(Duration::from_secs(1));
    assert!(consumer(&settings).is_ok());
    let error = Idle::new_partitioned(1, 2, 3, 4, scope(), 5, settings.clone()).err();
    assert_eq!(error, Some(ConsumerConfigError::HeartbeatRequiresIndividualSource));

    settings.drain_timeout = Duration::ZERO;
    assert_eq!(
        Idle::new_partitioned(1, 2, 3, 4, scope(), 5, settings).err(),
        Some(ConsumerConfigError::ZeroDuration(SettingsField::DrainTimeout))
    );
}

#[test]
fn consumers_keep_what_they_are_made_of() {
    let settings = settings(SettlementMode::Broker);
    let Ok(consumer) = consumer(&settings) else {
        panic!("the settings are valid");
    };
    let parts = consumer.into_parts();

    assert_eq!(parts.components, (1, 2, 3, 4, 5));
    assert_eq!(parts.scope, scope());
    assert_eq!(parts.settings, settings);
}

#[test]
fn heartbeat_preflight_requires_capability_and_safe_ack_wait() {
    let mut settings = settings(SettlementMode::Broker);
    settings.heartbeat_interval = Some(Duration::from_secs(2));

    assert_eq!(
        refusal(&settings, descriptor(None, true, true)).kind(),
        ConsumerErrorKind::Unsupported(IndividualSourceRequirement::AckWait)
    );

    let waiting = |seconds: u64| IndividualSourceDescriptor {
        ack_wait: Some(Duration::from_secs(seconds)),
        heartbeat: true,
        ..descriptor(None, true, true)
    };

    for seconds in [3, 4] {
        assert_eq!(
            refusal(&settings, waiting(seconds)).kind(),
            ConsumerErrorKind::HeartbeatDeadlineTooShort
        );
    }

    assert!(opening(&settings, waiting(5)).is_ok());

    let deaf = IndividualSourceDescriptor {
        heartbeat: false,
        ..waiting(5)
    };
    assert_eq!(
        refusal(&settings, deaf).kind(),
        ConsumerErrorKind::Unsupported(IndividualSourceRequirement::Heartbeat)
    );
}

#[test]
fn open_requests_exactly_the_mode_requirements() {
    let none = IndividualSourceRequirements {
        ack_wait: false,
        heartbeat: false,
        delayed_retry: false,
        immediate_requeue: false,
        terminal_discard: false,
    };

    for (mode, requirements) in [
        (
            SettlementMode::Broker,
            IndividualSourceRequirements {
                delayed_retry: true,
                terminal_discard: true,
                ..none
            },
        ),
        (SettlementMode::PendingRecovery, none),
        (
            SettlementMode::BrokerImmediateRequeue,
            IndividualSourceRequirements {
                immediate_requeue: true,
                terminal_discard: true,
                ..none
            },
        ),
    ] {
        assert_eq!(settings(mode).requirements(), requirements);
        assert_eq!(mode.requirements(), requirements);

        let mut beating = settings(mode);
        beating.heartbeat_interval = Some(Duration::from_secs(1));
        assert_eq!(
            beating.requirements(),
            IndividualSourceRequirements {
                ack_wait: true,
                heartbeat: true,
                ..requirements
            }
        );
    }
}

#[test]
fn broker_mode_rejects_missing_capabilities_before_receiving() {
    for (source, missing) in [
        (
            descriptor(None, false, true),
            IndividualSourceRequirement::DelayedRetry,
        ),
        (
            descriptor(None, true, false),
            IndividualSourceRequirement::TerminalDiscard,
        ),
    ] {
        // A source that skips validation is still rejected by the consumer's own check.
        let skipped = refusal(&settings(SettlementMode::Broker), source);
        let reported = match open::<FailureKind>(
            &settings(SettlementMode::Broker),
            attempts(),
            OpenReply::Unsupported(missing),
        ) {
            Err(error) => error,
            Ok(_) => panic!("the source must be refused"),
        };

        for error in [skipped, reported] {
            assert_eq!(error.kind(), ConsumerErrorKind::Unsupported(missing));
            assert_eq!(error.failure_kind(), FailureKind::Permanent);
            assert!(matches!(
                error.provider_source(),
                Some(ErrorSource::Requirement(requirement)) if *requirement == missing
            ));
        }
    }
}

#[test]
fn immediate_requeue_requires_both_capabilities_before_receive() {
    for (opened, missing) in [
        (
            descriptor(None, false, true),
            IndividualSourceRequirement::ImmediateRequeue,
        ),
        (
            IndividualSourceDescriptor {
                immediate_requeue: true,
                ..descriptor(None, false, false)
            },
            IndividualSourceRequirement::TerminalDiscard,
        ),
    ] {
        let error = refusal(&settings(SettlementMode::BrokerImmediateRequeue), opened);
        assert_eq!(error.kind(), ConsumerErrorKind::Unsupported(missing));
    }
}

#[test]
fn pending_recovery_opens_a_source_without_retry_or_discard() {
    assert!(matches!(
        opening(
            &settings(SettlementMode::PendingRecovery),
            descriptor(None, false, false)
        ),
        Ok(Opened::Ready)
    ));
}

#[test]
fn attempt_bound_above_max_deliver_is_rejected_before_receiving() {
    for mode in [SettlementMode::Broker, SettlementMode::PendingRecovery] {
        let broker = mode == SettlementMode::Broker;
        let error = refusal(&settings(mode), descriptor(Some(2), broker, broker));

        assert_eq!(
            error.kind(),
            ConsumerErrorKind::AttemptBoundExceedsMaxDeliver
        );
        assert_eq!(error.failure_kind(), FailureKind::Permanent);

        assert!(opening(&settings(mode), descriptor(Some(3), broker, broker)).is_ok());
    }
}

#[test]
fn open_failure_retains_the_typed_source_without_rendering_it() {
    let error = match open(
        &settings(SettlementMode::Broker),
        attempts(),
        OpenReply::Failed(FailureKind::Transient, "SOURCE_SENTINEL"),
    ) {
        Err(error) => error,
        Ok(_) => panic!("opening must fail"),
    };

    assert_eq!(error.kind(), ConsumerErrorKind::SourceOpen);
    assert_eq!(error.failure_kind(), FailureKind::Transient);
    assert_eq!(error.to_string(), "consumer source failed to open");
    assert!(matches!(
        error.provider_source(),
        Some(ErrorSource::Provider("SOURCE_SENTINEL"))
    ));
    assert_eq!(
        error.redacted(),
        "ConsumerError { kind: SourceOpen, failure: Transient, source: \"<redacted>\" }"
    );
}

#[test]
fn open_is_bounded_by_the_source_timeout() {
    let error = match open_outcome::<(), ()>(OpenReply::TimedOut) {
        Err(error) => error,
        Ok(_) => panic!("opening must fail"),
    };

    assert_eq!(error.kind(), ConsumerErrorKind::SourceOpenTimeout);
    assert_eq!(error.failure_kind(), FailureKind::Transient);
    assert!(error.provider_source().is_none());

    let unknown = match open_outcome::<(), ()>(OpenReply::Unknown) {
        Err(error) => error,
        Ok(_) => panic!("opening must fail"),
    };
    assert_eq!(unknown.kind(), ConsumerErrorKind::SourceOpen);
    assert_eq!(unknown.failure_kind(), FailureKind::Permanent);
}

#[test]
fn cancellation_before_open_exits_without_opening() {
    assert!(matches!(
        open::<()>(
            &settings(SettlementMode::Broker),
            attempts(),
            OpenReply::Cancelled
        ),
        Ok(Opened::Cancelled)
    ));
    assert!(matches!(
        open_outcome::<(), ()>(OpenReply::Opened(())),
        Ok(Opened::Ready)
    ));
}

#[test]
fn source_failure_returns_a_source_error() {
    let error = receive_error(FailureKind::Transient, "SOURCE_SENTINEL");

    assert_eq!(error.kind(), ConsumerErrorKind::Source);
    assert_eq!(error.failure_kind(), FailureKind::Transient);
    assert!(matches!(
        error.provider_source(),
        Some(ErrorSource::Provider("SOURCE_SENTINEL"))
    ));
    assert!(!error.redacted().contains("SENTINEL"));
    assert!(!error.to_string().contains("SENTINEL"));
}

#[test]
fn error_renderings_name_the_kind_and_nothing_else() {
    let render = |kind: ConsumerErrorKind| {
        let error: ConsumerError<()> = ConsumerError::new(kind, FailureKind::Permanent, None);

        assert_eq!(
            error.redacted(),
            format!("ConsumerError {{ kind: {kind:?}, failure: Permanent, source: \"None\" }}")
        );
        assert_eq!(error.to_string(), kind.description());
        kind.as_str()
    };

    assert_eq!(render(ConsumerErrorKind::SourceOpen), "source_open");
    assert_eq!(
        render(ConsumerErrorKind::SourceOpenTimeout),
        "source_open_timeout"
    );
    assert_eq!(
        render(ConsumerErrorKind::AttemptBoundExceedsMaxDeliver),
        "attempt_bound_exceeds_max_deliver"
    );
    assert_eq!(
        render(ConsumerErrorKind::HeartbeatDeadlineTooShort),
        "heartbeat_deadline_too_short"
    );
    assert_eq!(render(ConsumerErrorKind::Source), "source");
    assert_eq!(render(ConsumerErrorKind::Inbox), "inbox");
    assert_eq!(
        render(ConsumerErrorKind::FailureNotRecorded),
        "failure_not_recorded"
    );
    assert_eq!(render(ConsumerErrorKind::Settlement), "settlement");
    assert_eq!(render(ConsumerErrorKind::PartitionOrder), "partition_order");
    assert_eq!(
        render(ConsumerErrorKind::PartitionUnresolved),
        "partition_unresolved"
    );
    assert_eq!(
        render(ConsumerErrorKind::PartitionAdvanceUncertain),
        "partition_advance_uncertain"
    );
    assert_eq!(render(ConsumerErrorKind::HandlerPanicked), "handler_panicked");
    assert_eq!(
        render(ConsumerErrorKind::ProviderPanicked),
        "provider_panicked"
    );
    assert_eq!(render(ConsumerErrorKind::Runtime), "runtime");

    for requirement in [
        IndividualSourceRequirement::AckWait,
        IndividualSourceRequirement::Heartbeat,
        IndividualSourceRequirement::DelayedRetry,
        IndividualSourceRequirement::ImmediateRequeue,
        IndividualSourceRequirement::TerminalDiscard,
    ] {
        assert_eq!(
            render(ConsumerErrorKind::Unsupported(requirement)),
            "unsupported"
        );
    }

    for reason in [
        OperatorReason::Malformed,
        OperatorReason::Dead(DeadReason::Permanent),
        OperatorReason::Dead(DeadReason::Exhausted),
    ] {
        assert_eq!(
            render(ConsumerErrorKind::OperatorActionRequired(reason)),
            "operator_action_required"
        );
    }

    for failure in [
        FailureKind::Transient,
        FailureKind::Permanent,
        FailureKind::Unknown,
    ] {
        let error = ConsumerError::new(
            ConsumerErrorKind::Inbox,
            failure,
            Some(ErrorSource::Provider("SENTINEL")),
        );
        assert_eq!(
            error.redacted(),
            format!("ConsumerError {{ kind: Inbox, failure: {failure:?}, source: \"<redacted>\" }}")
        );
    }
}

fn traced(traceparent: &str, tracestate: Option<&str>) -> Metadata {
    let mut metadata = Metadata::default();
    metadata.trace.traceparent = Some(traceparent.to_owned());
    metadata.trace.tracestate = tracestate.map(str::to_owned);
    metadata
}

#[test]
fn in_flight_name_and_remote_context_are_bounded() {
    assert_eq!(IN_FLIGHT_METRIC, "consumer.in.flight");

    let metadata = traced("00-0123456789abcdef0123456789abcdef-0123456789abcdef-01", None);
    let parent = remote_span_context(&metadata).unwrap();
    assert!(parent.is_valid());
    assert!(parent.is_remote());

    assert!(remote_span_context(&traced("00-secret-01-01", None)).is_none());
    assert!(remote_span_context(&Metadata::default()).is_none());
}

#[test]
fn remote_context_holds_what_the_headers_name() {
    let metadata = traced(
        "00-4bf92f3577b34da6a3ce929d0e0e4736-00f067aa0ba902b7-a1",
        Some("vendor=value,other=1"),
    );
    let parent = remote_span_context(&metadata).unwrap();

    assert_eq!(
        parent.trace_id().to_string(),
        "4bf92f3577b34da6a3ce929d0e0e4736"
    );
    assert_eq!(parent.span_id().to_string(), "00f067aa0ba902b7");
    assert_eq!(parent.trace_flags().to_u8(), 0xa1);
    assert_eq!(parent.trace_state().header(), "vendor=value,other=1");

    let unreadable = traced(
        "00-4bf92f3577b34da6a3ce929d0e0e4736-00f067aa0ba902b7-a1",
        Some("no pairs"),
    );
    let parent = remote_span_context(&unreadable).unwrap();
    assert_eq!(parent.trace_state().header(), "");
}

#[test]
fn remote_context_rejects_every_other_form() {
    for parent in [
        "",
        "01-0123456789abcdef0123456789abcdef-0123456789abcdef-01",
        "00-0123456789ABCDEF0123456789abcdef-0123456789abcdef-01",
        "00-0123456789abcdef0123456789abcdef-0123456789abcdef-1",
        "00-0123456789abcdef0123456789abcdef-0123456789abcdef-0g",
        "00-0123456789abcdef0123456789abcdef-0123456789abcdef-01-",
        "00-0123456789abcdef0123456789abcdef+0123456789abcdef-01",
        "00-00000000000000000000000000000000-0123456789abcdef-01",
        "00-0123456789abcdef0123456789abcdef-0000000000000000-01",
        "00-0123456789abcdef0123456789abcd\u{e9}-0123456789abcdef-01",
    ] {
        assert!(remote_span_context(&traced(parent, None)).is_none(), "{parent}");
    }
}

#[test]
fn processing_continues_the_remote_span_first() {
    assert_eq!(span_parent(true, true), SpanParent::Remote { linked: true });
    assert_eq!(span_parent(true, false), SpanParent::Remote { linked: false });
    assert_eq!(span_parent(false, true), SpanParent::Ambient);
}
