//! Consumer construction.

use crate::consumer::error::ConsumerConfigError;
use crate::consumer::settings::{settings_error, ConsumerSettings};
use crate::inbox::record::InboxScope;
use std::marker::PhantomData;
use vstd::prelude::*;

verus! {

/// A typed, bounded consumer for one message type.
///
/// The component tuple is private so call sites annotate only `Consumer<Message, _>`. Every
/// component is statically dispatched.
pub struct Consumer<M, Components> {
    components: Components,
    scope: InboxScope,
    settings: ConsumerSettings,
    message: PhantomData<M>,
}

/// [`Consumer`] as its parts.
pub struct ConsumerParts<Components> {
    /// The source, mapper, codec, inbox, and handler.
    pub components: Components,

    /// The deduplication namespace.
    pub scope: InboxScope,

    /// The validated policy.
    pub settings: ConsumerSettings,
}

impl<M, Components> View for Consumer<M, Components> {
    type V = ConsumerParts<Components>;

    closed spec fn view(&self) -> ConsumerParts<Components> {
        ConsumerParts {
            components: self.components,
            scope: self.scope,
            settings: self.settings,
        }
    }
}

/// What is wrong with the settings of a partitioned-log consumer, if anything is.
pub open spec fn partitioned_settings_error(settings: ConsumerSettings) -> Option<
    ConsumerConfigError,
> {
    match settings_error(settings) {
        Some(error) => Some(error),
        None => if settings.heartbeat_interval is Some {
            Some(ConsumerConfigError::HeartbeatRequiresIndividualSource)
        } else {
            None
        },
    }
}

impl<M, Components> Consumer<M, Components> {
    #[verifier::type_invariant]
    spec fn wf(&self) -> bool {
        settings_error(self.settings) is None
    }

    /// Takes the consumer apart to be run. Its settings are valid.
    pub fn into_parts(self) -> (parts: ConsumerParts<Components>)
        ensures
            parts == self@,
            settings_error(parts.settings) is None,
    {
        proof {
            use_type_invariant(&self);
        }
        ConsumerParts {
            components: self.components,
            scope: self.scope,
            settings: self.settings,
        }
    }
}

impl<M, S, Mapper, Codec, Inbox, H> Consumer<M, (S, Mapper, Codec, Inbox, H)> {
    /// Validates settings once and constructs an idle consumer without performing I/O.
    ///
    /// Rejects a zero source, database, settlement, or drain timeout and a zero heartbeat
    /// interval. Broker mode requires a nonzero `nak_delay`; immediate-requeue mode requires zero.
    pub fn new(
        source: S,
        mapper: Mapper,
        codec: Codec,
        inbox: Inbox,
        scope: InboxScope,
        handler: H,
        settings: ConsumerSettings,
    ) -> (consumer: Result<Self, ConsumerConfigError>)
        ensures
            match consumer {
                Ok(consumer) => {
                    &&& settings_error(settings) is None
                    &&& consumer@ == (ConsumerParts {
                        components: (source, mapper, codec, inbox, handler),
                        scope,
                        settings,
                    })
                },
                Err(error) => settings_error(settings) == Some(error),
            },
    {
        settings.validate()?;

        Ok(
            Consumer {
                components: (source, mapper, codec, inbox, handler),
                scope,
                settings,
                message: PhantomData,
            },
        )
    }

    /// Constructs a partitioned-log consumer with one active record per partition.
    ///
    /// Heartbeat settings are rejected: partition liveness belongs to the source's group
    /// ownership protocol, not to individual delivery acknowledgement deadlines.
    pub fn new_partitioned(
        source: S,
        mapper: Mapper,
        codec: Codec,
        inbox: Inbox,
        scope: InboxScope,
        handler: H,
        settings: ConsumerSettings,
    ) -> (consumer: Result<Self, ConsumerConfigError>)
        ensures
            match consumer {
                Ok(consumer) => {
                    &&& partitioned_settings_error(settings) is None
                    &&& consumer@ == (ConsumerParts {
                        components: (source, mapper, codec, inbox, handler),
                        scope,
                        settings,
                    })
                },
                Err(error) => partitioned_settings_error(settings) == Some(error),
            },
    {
        settings.validate()?;

        if settings.heartbeat_interval.is_some() {
            return Err(ConsumerConfigError::HeartbeatRequiresIndividualSource);
        }

        Ok(
            Consumer {
                components: (source, mapper, codec, inbox, handler),
                scope,
                settings,
                message: PhantomData,
            },
        )
    }
}

/// A partitioned-log consumer takes exactly the settings that are valid for an individual one and
/// beat no heartbeat; settings that are wrong otherwise are refused for that first.
pub proof fn law_partitioned_consumers_beat_no_heartbeat(settings: ConsumerSettings)
    ensures
        match partitioned_settings_error(settings) {
            None => settings_error(settings) is None && settings.heartbeat_interval is None,
            Some(ConsumerConfigError::HeartbeatRequiresIndividualSource) => settings_error(settings)
                is None && settings.heartbeat_interval is Some,
            Some(error) => settings_error(settings) == Some(error),
        },
{
    crate::consumer::settings::law_settings_are_refused_for_cause(settings);
}

} // verus!
