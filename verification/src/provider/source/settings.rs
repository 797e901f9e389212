//! Validated Iggy delivery-source settings.

use crate::duration::{no_time, span_nanos};
use crate::failure::FailureKind;
use crate::provider::error::{plain_error, IggyDeliveryError, IggyDeliveryErrorKind};
use crate::provider::sdk::{identifier_value, IdentifierModel};
use iggy::prelude::Identifier;
use std::time::Duration;
use vstd::prelude::*;

verus! {

/// `Identifier` derives `Clone`: its clone holds the same id or name.
pub assume_specification[ <Identifier as Clone>::clone ](identifier: &Identifier) -> (copy:
    Identifier)
    ensures
        identifier_value(copy) == identifier_value(*identifier),
;

/// Largest accepted per-poll batch length.
pub const MAX_BATCH_LENGTH: u32 = 1_024;

/// Largest accepted poll and assignment refresh interval, one hour in nanoseconds; it keeps every
/// deadline the source computes from them representable.
pub const MAX_INTERVAL_NANOS: u128 = 3_600_000_000_000;

/// Consumer-group, polling, and request-bound settings for a delivery source.
///
/// Every value is validated when it is set, so a constructed value is always usable. The stream,
/// topic, and consumer group are application-provisioned; the source looks them up and joins the
/// group, and never creates any of them.
#[derive(Debug, PartialEq, Eq)]
pub struct IggySourceSettings {
    stream: Identifier,
    topic: Identifier,
    group: Identifier,
    batch_length: u32,
    poll_interval: Duration,
    assignment_refresh_interval: Duration,
    request_timeout: Duration,
}

/// [`IggySourceSettings`] as mathematical values.
pub struct SourceSettingsModel {
    /// The stream to consume from.
    pub stream: IdentifierModel,

    /// The topic to consume from.
    pub topic: IdentifierModel,

    /// The consumer group to join.
    pub group: IdentifierModel,

    /// The most records one poll requests from a partition.
    pub batch_length: u32,

    /// How long an owned partition waits before it is polled again after an empty poll, and
    /// before a withdrawn record is replayed.
    pub poll_interval: Duration,

    /// How often membership and partitions are rechecked.
    pub assignment_refresh_interval: Duration,

    /// The bound for every server request.
    pub request_timeout: Duration,
}

impl View for IggySourceSettings {
    type V = SourceSettingsModel;

    closed spec fn view(&self) -> SourceSettingsModel {
        SourceSettingsModel {
            stream: identifier_value(self.stream),
            topic: identifier_value(self.topic),
            group: identifier_value(self.group),
            batch_length: self.batch_length,
            poll_interval: self.poll_interval,
            assignment_refresh_interval: self.assignment_refresh_interval,
            request_timeout: self.request_timeout,
        }
    }
}

impl Clone for IggySourceSettings {
    fn clone(&self) -> (copy: Self)
        ensures
            copy@ == self@,
    {
        proof {
            use_type_invariant(self);
        }
        IggySourceSettings {
            stream: self.stream.clone(),
            topic: self.topic.clone(),
            group: self.group.clone(),
            batch_length: self.batch_length,
            poll_interval: self.poll_interval,
            assignment_refresh_interval: self.assignment_refresh_interval,
            request_timeout: self.request_timeout,
        }
    }
}

/// A poll or refresh interval within its bounds.
pub open spec fn valid_interval(interval: Duration) -> bool {
    0 < span_nanos(interval) <= MAX_INTERVAL_NANOS
}

/// Settings within their bounds.
pub open spec fn valid_source_settings(settings: SourceSettingsModel) -> bool {
    &&& 1 <= settings.batch_length <= MAX_BATCH_LENGTH
    &&& valid_interval(settings.poll_interval)
    &&& valid_interval(settings.assignment_refresh_interval)
    &&& span_nanos(settings.request_timeout) > 0
}

/// The error of a rejected setting.
pub open spec fn invalid_settings() -> IggyDeliveryError {
    plain_error(IggyDeliveryErrorKind::InvalidSettings, FailureKind::Permanent)
}

/// Whether an interval is longer than none and at most one hour.
fn interval_is_valid(interval: &Duration) -> (valid: bool)
    ensures
        valid == valid_interval(*interval),
{
    let nanos: u128 = interval.as_nanos();

    nanos != 0 && nanos <= MAX_INTERVAL_NANOS
}

impl IggySourceSettings {
    #[verifier::type_invariant]
    spec fn wf(&self) -> bool {
        valid_source_settings(self@)
    }

    /// Creates settings for a pre-provisioned consumer group on a stream's topic.
    ///
    /// Defaults: a batch length of 64 records, a 100 ms poll interval, a 1 s assignment refresh
    /// interval, and a 5 s request timeout.
    pub fn new(stream: Identifier, topic: Identifier, group: Identifier) -> (settings: Self)
        ensures
            settings@.stream == identifier_value(stream),
            settings@.topic == identifier_value(topic),
            settings@.group == identifier_value(group),
            settings@.batch_length == 64,
            span_nanos(settings@.poll_interval) == 100_000_000,
            span_nanos(settings@.assignment_refresh_interval) == 1_000_000_000,
            span_nanos(settings@.request_timeout) == 5_000_000_000,
    {
        IggySourceSettings {
            stream,
            topic,
            group,
            batch_length: 64,
            poll_interval: Duration::from_millis(100),
            assignment_refresh_interval: Duration::from_secs(1),
            request_timeout: Duration::from_secs(5),
        }
    }

    /// Sets the most records one poll requests from a partition, from 1 through 1,024.
    ///
    /// It also bounds the records buffered per partition: a partition is polled again only after
    /// its buffered records are delivered and resolved.
    pub fn with_batch_length(self, batch_length: u32) -> (settings: Result<Self, IggyDeliveryError>)
        ensures
            match settings {
                Ok(settings) => 1 <= batch_length <= MAX_BATCH_LENGTH && settings@ == (SourceSettingsModel {
                    batch_length,
                    ..self@
                }),
                Err(error) => !(1 <= batch_length <= MAX_BATCH_LENGTH) && error == invalid_settings(),
            },
    {
        if batch_length == 0 || batch_length > MAX_BATCH_LENGTH {
            return Err(IggyDeliveryError::invalid_settings());
        }

        proof {
            use_type_invariant(&self);
        }
        Ok(IggySourceSettings { batch_length, ..self })
    }

    /// Sets how long an owned partition waits before it is polled again after an empty poll, and
    /// before a withdrawn record is replayed. It must be greater than zero and at most one hour.
    pub fn with_poll_interval(self, poll_interval: Duration) -> (settings: Result<
        Self,
        IggyDeliveryError,
    >)
        ensures
            match settings {
                Ok(settings) => valid_interval(poll_interval) && settings@ == (SourceSettingsModel {
                    poll_interval,
                    ..self@
                }),
                Err(error) => !(valid_interval(poll_interval)) && error == invalid_settings(),
            },
    {
        if !interval_is_valid(&poll_interval) {
            return Err(IggyDeliveryError::invalid_settings());
        }

        proof {
            use_type_invariant(&self);
        }
        Ok(IggySourceSettings { poll_interval, ..self })
    }

    /// Sets how often the source rechecks its group membership and the topic's partitions and
    /// probes the partitions it does not own. It must be greater than zero and at most one hour.
    pub fn with_assignment_refresh_interval(
        self,
        assignment_refresh_interval: Duration,
    ) -> (settings: Result<Self, IggyDeliveryError>)
        ensures
            match settings {
                Ok(settings) => valid_interval(assignment_refresh_interval) && settings@ == (SourceSettingsModel {
                    assignment_refresh_interval,
                    ..self@
                }),
                Err(error) => !(valid_interval(assignment_refresh_interval)) && error == invalid_settings(),
            },
    {
        if !interval_is_valid(&assignment_refresh_interval) {
            return Err(IggyDeliveryError::invalid_settings());
        }

        proof {
            use_type_invariant(&self);
        }
        Ok(IggySourceSettings { assignment_refresh_interval, ..self })
    }

    /// Sets the bound for every server request the source and its settlements make; the SDK has
    /// no call timeout of its own. It must not be zero.
    pub fn with_request_timeout(self, request_timeout: Duration) -> (settings: Result<
        Self,
        IggyDeliveryError,
    >)
        ensures
            match settings {
                Ok(settings) => span_nanos(request_timeout) > 0 && settings@ == (SourceSettingsModel {
                    request_timeout,
                    ..self@
                }),
                Err(error) => !(span_nanos(request_timeout) > 0) && error == invalid_settings(),
            },
    {
        if no_time(&request_timeout) {
            return Err(IggyDeliveryError::invalid_settings());
        }

        proof {
            use_type_invariant(&self);
        }
        Ok(IggySourceSettings { request_timeout, ..self })
    }

    /// Returns the stream to consume from.
    pub fn stream(&self) -> (stream: &Identifier)
        ensures
            identifier_value(*stream) == self@.stream,
    {
        &self.stream
    }

    /// Returns the topic to consume from.
    pub fn topic(&self) -> (topic: &Identifier)
        ensures
            identifier_value(*topic) == self@.topic,
    {
        &self.topic
    }

    /// Returns the consumer group to join.
    pub fn group(&self) -> (group: &Identifier)
        ensures
            identifier_value(*group) == self@.group,
    {
        &self.group
    }

    /// Returns the most records one poll requests from a partition.
    pub fn batch_length(&self) -> (batch_length: u32)
        ensures
            batch_length == self@.batch_length,
            1 <= batch_length <= MAX_BATCH_LENGTH,
    {
        proof {
            use_type_invariant(self);
        }
        self.batch_length
    }

    /// Returns how long an owned partition waits before it is polled again.
    pub fn poll_interval(&self) -> (interval: Duration)
        ensures
            interval == self@.poll_interval,
            valid_interval(interval),
    {
        proof {
            use_type_invariant(self);
        }
        self.poll_interval
    }

    /// Returns how often membership and partitions are rechecked.
    pub fn assignment_refresh_interval(&self) -> (interval: Duration)
        ensures
            interval == self@.assignment_refresh_interval,
            valid_interval(interval),
    {
        proof {
            use_type_invariant(self);
        }
        self.assignment_refresh_interval
    }

    /// Returns the bound for every server request.
    pub fn request_timeout(&self) -> (timeout: Duration)
        ensures
            timeout == self@.request_timeout,
            span_nanos(timeout) > 0,
    {
        proof {
            use_type_invariant(self);
        }
        self.request_timeout
    }
}

/// Settings are usable exactly if a poll asks for one to 1,024 records, both intervals are longer
/// than nothing and at most an hour, and requests have time at all. The error of a setting that is
/// not is permanent.
pub proof fn law_usable_source_settings(settings: SourceSettingsModel)
    ensures
        valid_source_settings(settings) <==> {
            &&& 1 <= settings.batch_length <= 1_024
            &&& 1 <= span_nanos(settings.poll_interval) <= 3_600_000_000_000
            &&& 1 <= span_nanos(settings.assignment_refresh_interval) <= 3_600_000_000_000
            &&& span_nanos(settings.request_timeout) >= 1
        },
        valid_interval(settings.poll_interval) <==> 1 <= span_nanos(settings.poll_interval)
            <= 3_600_000_000_000,
        invalid_settings().kind is InvalidSettings,
        invalid_settings().failure_kind is Permanent,
        invalid_settings().code is None,
{
}

} // verus!
