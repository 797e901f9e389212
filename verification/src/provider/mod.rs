//! Apache Iggy publisher and consumer-group delivery source.

pub mod client;
pub mod code;
pub mod error;
pub mod mapper;
pub mod publisher;
pub mod round_trip;
pub mod sdk;
pub mod settings;
pub mod source;

pub use self::error::{
    IggyClientError, IggyClientErrorKind, IggyDeliveryError, IggyDeliveryErrorKind,
    IggyMappingError, IggyPublishError, IggyPublishErrorKind, InvalidSendTimeout,
    RoutingDestinationError,
};
pub use self::mapper::record::{IggyHeader, IggyRecord};
pub use self::mapper::IggyEnvelopeMapper;
pub use self::publisher::RoutingDestinationResolver;
pub use self::settings::{
    IggyClientSettings, IggyCredentials, IggyPublisherSettings, IggyTlsSettings,
};
pub use self::source::model::IggySettlement;
pub use self::source::settings::IggySourceSettings;
pub use self::source::state::{IggyDelivery, IggyDeliverySource};
