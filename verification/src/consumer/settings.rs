//! Consumer policy and one-time validation.

use crate::consumer::error::{ConsumerConfigError, SettingsField};
use crate::delivery::IndividualSourceRequirements;
use crate::duration::{no_time, span_nanos};
use crate::nonzero::NonZeroUsize;
use std::time::Duration;
use vstd::prelude::*;

verus! {

/// How an individual-delivery consumer settles deliveries that did not complete.
///
/// The mode is always selected by the application and is never inferred from a source
/// descriptor. Every mode acknowledges only after a committed success or a durable completion
/// observed through the inbox.
#[derive(Clone, Copy, Debug, PartialEq, Eq, Structural, Hash)]
#[non_exhaustive]
pub enum SettlementMode {
    /// Requests broker redelivery with a delayed negative acknowledgement and terminally discards
    /// poison or dead deliveries.
    ///
    /// Opening requires delayed retry and terminal discard from the source.
    Broker,

    /// Requests broker redelivery at once and terminally discards poison or dead deliveries.
    ///
    /// Opening requires immediate requeue and terminal discard from the source.
    BrokerImmediateRequeue,

    /// Leaves unresolved deliveries unsettled for the source's bounded pending recovery.
    ///
    /// Opening requires neither delayed retry nor terminal discard, and the consumer never
    /// negatively acknowledges or terminates a delivery. Malformed input and durable dead results
    /// stop the consumer for operator action. Select this mode only for a source that redelivers
    /// unsettled deliveries through bounded recovery; the runtime cannot detect a source that
    /// would instead lose or never redeliver them.
    PendingRecovery,
}

impl Default for SettlementMode {
    fn default() -> (mode: Self)
        ensures
            mode == SettlementMode::Broker,
    {
        SettlementMode::Broker
    }
}

/// The requirements that every reachable settlement path of a mode needs, with those of
/// heartbeats where they are configured.
pub open spec fn required_by(mode: SettlementMode, heartbeat: bool) -> IndividualSourceRequirements {
    IndividualSourceRequirements {
        ack_wait: heartbeat,
        heartbeat,
        delayed_retry: mode is Broker,
        immediate_requeue: mode is BrokerImmediateRequeue,
        terminal_discard: !(mode is PendingRecovery),
    }
}

impl SettlementMode {
    /// Returns the source requirements every reachable settlement path of this mode needs.
    pub fn requirements(self) -> (requirements: IndividualSourceRequirements)
        ensures
            requirements == required_by(self, false),
    {
        IndividualSourceRequirements {
            ack_wait: false,
            heartbeat: false,
            delayed_retry: matches!(self, SettlementMode::Broker),
            immediate_requeue: matches!(self, SettlementMode::BrokerImmediateRequeue),
            terminal_discard: !matches!(self, SettlementMode::PendingRecovery),
        }
    }
}

/// Complete consumer policy supplied by the application.
///
/// Construct it from [`Default`] and assign the fields to change; every value is validated once
/// when a consumer is constructed.
#[derive(Clone, Debug, PartialEq, Eq)]
#[non_exhaustive]
pub struct ConsumerSettings {
    /// Maximum received-but-unsettled deliveries, which also bounds open transactions.
    pub max_in_flight: NonZeroUsize,

    /// Bound for the whole source opening operation. Receive waits are cancel-safe and untimed.
    pub source_timeout: Duration,

    /// Bound for each framework-owned begin, inbox, commit, rollback, and failure-record
    /// operation. It never times out handler code.
    pub database_timeout: Duration,

    /// Bound for each acknowledgement, negative acknowledgement, and termination.
    pub settlement_timeout: Duration,

    /// How often the acknowledgement deadline of a running delivery is extended, if at all.
    pub heartbeat_interval: Option<Duration>,

    /// Broker redelivery delay for retryable or in-progress work in [`SettlementMode::Broker`].
    pub nak_delay: Duration,

    /// Bound for the whole graceful drain after receiving stops for any cause.
    pub drain_timeout: Duration,

    /// Explicit settlement mode; never inferred from the source.
    pub mode: SettlementMode,
}

impl Default for ConsumerSettings {
    fn default() -> (settings: Self)
        ensures
            settings.max_in_flight@ == 32,
            span_nanos(settings.source_timeout) == 10_000_000_000,
            span_nanos(settings.database_timeout) == 5_000_000_000,
            span_nanos(settings.settlement_timeout) == 10_000_000_000,
            settings.heartbeat_interval is None,
            span_nanos(settings.nak_delay) == 5_000_000_000,
            span_nanos(settings.drain_timeout) == 20_000_000_000,
            settings.mode == SettlementMode::Broker,
            settings_error(settings) is None,
    {
        ConsumerSettings {
            max_in_flight: NonZeroUsize::new(32).unwrap(),
            source_timeout: Duration::from_secs(10),
            database_timeout: Duration::from_secs(5),
            settlement_timeout: Duration::from_secs(10),
            heartbeat_interval: None,
            nak_delay: Duration::from_secs(5),
            drain_timeout: Duration::from_secs(20),
            mode: SettlementMode::Broker,
        }
    }
}

/// A span without length.
pub open spec fn is_zero(span: Duration) -> bool {
    span_nanos(span) == 0
}

/// The first thing wrong with the settings, if anything is.
pub open spec fn settings_error(settings: ConsumerSettings) -> Option<ConsumerConfigError> {
    if is_zero(settings.source_timeout) {
        Some(ConsumerConfigError::ZeroDuration(SettingsField::SourceTimeout))
    } else if is_zero(settings.database_timeout) {
        Some(ConsumerConfigError::ZeroDuration(SettingsField::DatabaseTimeout))
    } else if is_zero(settings.settlement_timeout) {
        Some(ConsumerConfigError::ZeroDuration(SettingsField::SettlementTimeout))
    } else if is_zero(settings.drain_timeout) {
        Some(ConsumerConfigError::ZeroDuration(SettingsField::DrainTimeout))
    } else if settings.heartbeat_interval is Some && is_zero(
        settings.heartbeat_interval->Some_0,
    ) {
        Some(ConsumerConfigError::ZeroDuration(SettingsField::HeartbeatInterval))
    } else if settings.mode is Broker && is_zero(settings.nak_delay) {
        Some(ConsumerConfigError::ZeroDuration(SettingsField::NakDelay))
    } else if settings.mode is BrokerImmediateRequeue && !is_zero(settings.nak_delay) {
        Some(ConsumerConfigError::ImmediateRequeueRequiresZeroDelay)
    } else {
        None
    }
}

impl ConsumerSettings {
    /// Checks the settings.
    pub fn validate(&self) -> (valid: Result<(), ConsumerConfigError>)
        ensures
            match valid {
                Ok(()) => settings_error(*self) is None,
                Err(error) => settings_error(*self) == Some(error),
            },
    {
        non_zero(SettingsField::SourceTimeout, &self.source_timeout)?;
        non_zero(SettingsField::DatabaseTimeout, &self.database_timeout)?;
        non_zero(SettingsField::SettlementTimeout, &self.settlement_timeout)?;
        non_zero(SettingsField::DrainTimeout, &self.drain_timeout)?;

        if let Some(interval) = &self.heartbeat_interval {
            non_zero(SettingsField::HeartbeatInterval, interval)?;
        }

        match self.mode {
            SettlementMode::Broker => non_zero(SettingsField::NakDelay, &self.nak_delay),
            SettlementMode::BrokerImmediateRequeue => if no_time(&self.nak_delay) {
                Ok(())
            } else {
                Err(ConsumerConfigError::ImmediateRequeueRequiresZeroDelay)
            },
            SettlementMode::PendingRecovery => Ok(()),
        }
    }

    /// Returns everything that these settings need from an individual-delivery source.
    pub fn requirements(&self) -> (requirements: IndividualSourceRequirements)
        ensures
            requirements == required_by(self.mode, self.heartbeat_interval is Some),
    {
        let heartbeat = self.heartbeat_interval.is_some();
        let mode = self.mode.requirements();

        IndividualSourceRequirements { ack_wait: heartbeat, heartbeat, ..mode }
    }
}

fn non_zero(field: SettingsField, duration: &Duration) -> (valid: Result<(), ConsumerConfigError>)
    ensures
        valid == if is_zero(*duration) {
            Err::<(), _>(ConsumerConfigError::ZeroDuration(field))
        } else {
            Ok(())
        },
{
    if no_time(duration) {
        return Err(ConsumerConfigError::ZeroDuration(field));
    }

    Ok(())
}

/// The span of a setting that must not be zero, where the settings use it.
pub open spec fn used_span(settings: ConsumerSettings, field: SettingsField) -> Option<u128> {
    match field {
        SettingsField::SourceTimeout => Some(span_nanos(settings.source_timeout)),
        SettingsField::DatabaseTimeout => Some(span_nanos(settings.database_timeout)),
        SettingsField::SettlementTimeout => Some(span_nanos(settings.settlement_timeout)),
        SettingsField::DrainTimeout => Some(span_nanos(settings.drain_timeout)),
        SettingsField::HeartbeatInterval => match settings.heartbeat_interval {
            Some(interval) => Some(span_nanos(interval)),
            None => None,
        },
        SettingsField::NakDelay => if settings.mode is Broker {
            Some(span_nanos(settings.nak_delay))
        } else {
            None
        },
    }
}

/// The order in which spans are looked at.
pub open spec fn field_rank(field: SettingsField) -> nat {
    match field {
        SettingsField::SourceTimeout => 0,
        SettingsField::DatabaseTimeout => 1,
        SettingsField::SettlementTimeout => 2,
        SettingsField::DrainTimeout => 3,
        SettingsField::HeartbeatInterval => 4,
        SettingsField::NakDelay => 5,
    }
}

/// Settings are accepted exactly if every span that they use is longer than nothing and an
/// immediate requeue is asked for without a delay. A refusal names the first field whose span is
/// nothing, or the delay that must not be there.
pub proof fn law_settings_are_refused_for_cause(settings: ConsumerSettings)
    ensures
        match settings_error(settings) {
            None => {
                &&& forall|field: SettingsField| #[trigger] used_span(settings, field) != Some(0u128)
                &&& settings.mode is BrokerImmediateRequeue ==> span_nanos(settings.nak_delay) == 0
            },
            Some(ConsumerConfigError::ZeroDuration(field)) => {
                &&& used_span(settings, field) == Some(0u128)
                &&& forall|other: SettingsField|
                    field_rank(other) < field_rank(field) ==> #[trigger] used_span(settings, other)
                        != Some(0u128)
            },
            Some(ConsumerConfigError::ImmediateRequeueRequiresZeroDelay) => {
                &&& forall|field: SettingsField| #[trigger] used_span(settings, field) != Some(0u128)
                &&& settings.mode is BrokerImmediateRequeue
                &&& span_nanos(settings.nak_delay) > 0
            },
            Some(_) => false,
        },
{
}

/// What a mode asks of a source, with or without heartbeats: only delayed redelivery asks for
/// delayed retry, only redelivery at once for immediate requeue, both for terminal discard, and
/// pending recovery for none of the three. Heartbeats ask for a deadline that can be extended.
pub proof fn law_modes_ask_for_what_they_use(mode: SettlementMode, heartbeat: bool)
    ensures
        ({
            let required = required_by(mode, heartbeat);
            &&& required.ack_wait == heartbeat
            &&& required.heartbeat == heartbeat
            &&& match mode {
                SettlementMode::Broker => required.delayed_retry && !required.immediate_requeue
                    && required.terminal_discard,
                SettlementMode::BrokerImmediateRequeue => !required.delayed_retry
                    && required.immediate_requeue && required.terminal_discard,
                SettlementMode::PendingRecovery => !required.delayed_retry
                    && !required.immediate_requeue && !required.terminal_discard,
            }
        }),
{
}

} // verus!
