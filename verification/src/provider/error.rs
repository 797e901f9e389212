//! Redacted, structured Iggy provider errors.
//!
//! An error carries its structured kind and its retry classification: never SDK error text,
//! resource names, credentials, addresses, or payload bytes.

use crate::failure::FailureKind;
use crate::provider::code::{
    CANNOT_ESTABLISH_CONNECTION, CLIENT_SHUTDOWN, CONSUMER_GROUP_ID_NOT_FOUND,
    CONSUMER_GROUP_NAME_NOT_FOUND, DISCONNECTED, EMPTY_MESSAGE_PAYLOAD, FAILED_TO_ADD_CERTIFICATE,
    FEATURE_UNAVAILABLE, INVALID_CONSUMER_GROUP_ID, INVALID_CONSUMER_GROUP_NAME,
    INVALID_CREDENTIALS, INVALID_HEADER_KEY, INVALID_HEADER_VALUE, INVALID_IDENTIFIER,
    INVALID_MESSAGE_PAYLOAD_LENGTH, INVALID_OFFSET, INVALID_PASSWORD, INVALID_TLS_CERTIFICATE,
    INVALID_TLS_CERTIFICATE_PATH, INVALID_TLS_DOMAIN, INVALID_USERNAME, NOT_CONNECTED,
    NO_PARTITIONS, PARTITION_NOT_FOUND, RESOURCE_NOT_FOUND, STALE_CLIENT, STREAM_ID_NOT_FOUND,
    STREAM_NAME_NOT_FOUND, TCP_ERROR, TOO_BIG_MESSAGE_PAYLOAD, TOO_BIG_USER_HEADERS,
    TOO_MANY_CONSUMER_OFFSETS, TOPIC_ID_NOT_FOUND, TOPIC_NAME_NOT_FOUND, TRANSIENT_NOT_ACCEPTED,
    UNAUTHENTICATED, UNAUTHORIZED,
};
use crate::provider::sdk::error_code;
use iggy::prelude::IggyError;
use vstd::prelude::*;
use vstd::std_specs::convert::FromSpecImpl;

verus! {

/// A redacted reason why Iggy client construction or connection failed.
#[derive(Clone, Copy, Debug, PartialEq, Eq, Structural)]
#[non_exhaustive]
pub enum IggyClientErrorKind {
    /// The supplied settings were incomplete or malformed.
    InvalidSettings,

    /// The server rejected the configured credentials.
    Authentication,

    /// TLS configuration was rejected before or during the handshake.
    Tls,

    /// The transport could not establish or complete the connection.
    Connect,

    /// The connect-and-login sequence did not complete within the configured timeout.
    Timeout,
}

/// A redacted Iggy client construction or connection error.
#[derive(Clone, Copy, Debug, PartialEq, Eq, Structural)]
#[non_exhaustive]
pub struct IggyClientError {
    /// The structured reason.
    pub kind: IggyClientErrorKind,
}

/// The reason that an SDK error met while connecting stands for.
pub open spec fn client_error_kind(code: u32) -> IggyClientErrorKind {
    if code == UNAUTHENTICATED || code == UNAUTHORIZED || code == INVALID_CREDENTIALS || code
        == INVALID_USERNAME || code == INVALID_PASSWORD {
        IggyClientErrorKind::Authentication
    } else if code == INVALID_TLS_DOMAIN || code == INVALID_TLS_CERTIFICATE_PATH || code
        == INVALID_TLS_CERTIFICATE || code == FAILED_TO_ADD_CERTIFICATE {
        IggyClientErrorKind::Tls
    } else {
        IggyClientErrorKind::Connect
    }
}

/// The rendering of a client error.
pub open spec fn client_error_text(kind: IggyClientErrorKind) -> Seq<char> {
    match kind {
        IggyClientErrorKind::InvalidSettings => "Iggy client settings are invalid"@,
        IggyClientErrorKind::Authentication => "Iggy server rejected the credentials"@,
        IggyClientErrorKind::Tls => "Iggy TLS configuration was rejected"@,
        IggyClientErrorKind::Connect => "Iggy client could not connect"@,
        IggyClientErrorKind::Timeout => "Iggy connect-and-login did not complete in time"@,
    }
}

impl IggyClientError {
    /// An error with the given reason.
    pub(crate) fn new(kind: IggyClientErrorKind) -> (error: Self)
        ensures
            error.kind == kind,
    {
        IggyClientError { kind }
    }

    /// Returns the structured client construction failure.
    pub fn kind(self) -> (kind: IggyClientErrorKind)
        ensures
            kind == self.kind,
    {
        self.kind
    }

    /// Returns whether building a client again may succeed.
    pub fn classify(&self) -> (failure: FailureKind)
        ensures
            failure == (match self.kind {
                IggyClientErrorKind::Connect | IggyClientErrorKind::Timeout => FailureKind::Transient,
                _ => FailureKind::Permanent,
            }),
    {
        match self.kind {
            IggyClientErrorKind::Connect | IggyClientErrorKind::Timeout => FailureKind::Transient,
            _ => FailureKind::Permanent,
        }
    }

    /// Renders the error without any detail of the connection.
    pub fn to_string(&self) -> (text: String)
        ensures
            text@ == client_error_text(self.kind),
    {
        match self.kind {
            IggyClientErrorKind::InvalidSettings => "Iggy client settings are invalid".to_owned(),
            IggyClientErrorKind::Authentication => {
                "Iggy server rejected the credentials".to_owned()
            },
            IggyClientErrorKind::Tls => "Iggy TLS configuration was rejected".to_owned(),
            IggyClientErrorKind::Connect => "Iggy client could not connect".to_owned(),
            IggyClientErrorKind::Timeout => {
                "Iggy connect-and-login did not complete in time".to_owned()
            },
        }
    }
}

/// Classifies an SDK error met while connecting. This is the single mapping from an SDK error to
/// [`IggyClientErrorKind`].
impl From<IggyError> for IggyClientError {
    fn from(error: IggyError) -> (classified: Self) {
        let code: u32 = error.as_code();
        let kind = if code == UNAUTHENTICATED || code == UNAUTHORIZED || code == INVALID_CREDENTIALS
            || code == INVALID_USERNAME || code == INVALID_PASSWORD {
            IggyClientErrorKind::Authentication
        } else if code == INVALID_TLS_DOMAIN || code == INVALID_TLS_CERTIFICATE_PATH || code
            == INVALID_TLS_CERTIFICATE || code == FAILED_TO_ADD_CERTIFICATE {
            IggyClientErrorKind::Tls
        } else {
            IggyClientErrorKind::Connect
        };

        IggyClientError { kind }
    }
}

impl FromSpecImpl<IggyError> for IggyClientError {
    open spec fn obeys_from_spec() -> bool {
        true
    }

    open spec fn from_spec(error: IggyError) -> Self {
        IggyClientError { kind: client_error_kind(error_code(error)) }
    }
}

/// A malformed or unrepresentable Iggy envelope projection.
#[derive(Clone, Copy, Debug, PartialEq, Eq, Structural)]
#[non_exhaustive]
pub enum IggyMappingError {
    /// The envelope payload was empty.
    EmptyPayload,

    /// The envelope payload exceeded the Iggy message payload bound.
    PayloadTooLarge,

    /// A header name or value was malformed or outside shared or Iggy header bounds.
    InvalidHeader,

    /// Two wire headers mapped to the same case-insensitive name.
    DuplicateHeader,

    /// The wire record exceeded shared or Iggy header bounds.
    HeaderBoundsExceeded,

    /// A required framework header was absent.
    MissingRequiredHeader,

    /// A framework header had a value that could not be represented or parsed.
    InvalidFrameworkValue,

    /// The shared ordering key exceeded the 255-byte Iggy messages-key bound.
    InvalidOrderingKey,

    /// The wire record identity did not match the decoded message-id header.
    InvalidRecordId,

    /// The wire record's Iggy messages-key did not match its ordering-key header.
    InvalidRecordKey,
}

/// The rendering of a mapping error.
pub open spec fn mapping_error_text(kind: IggyMappingError) -> Seq<char> {
    match kind {
        IggyMappingError::EmptyPayload => "Iggy record payload must not be empty"@,
        IggyMappingError::PayloadTooLarge => {
            "Iggy record payload exceeds the message payload bound"@
        },
        IggyMappingError::InvalidHeader => "Iggy record contains an invalid header"@,
        IggyMappingError::DuplicateHeader => "Iggy record contains duplicate headers"@,
        IggyMappingError::HeaderBoundsExceeded => {
            "Iggy record headers exceed shared or Iggy bounds"@
        },
        IggyMappingError::MissingRequiredHeader => {
            "Iggy record is missing a required framework header"@
        },
        IggyMappingError::InvalidFrameworkValue => {
            "Iggy record contains an invalid framework value"@
        },
        IggyMappingError::InvalidOrderingKey => {
            "Iggy ordering key exceeds the messages-key byte bound"@
        },
        IggyMappingError::InvalidRecordId => "Iggy record id does not match its message-id header"@,
        IggyMappingError::InvalidRecordKey => {
            "Iggy record key does not match its ordering-key header"@
        },
    }
}

impl IggyMappingError {
    /// A malformed projection stays malformed: every mapping error is permanent.
    pub fn classify(&self) -> (failure: FailureKind)
        ensures
            failure == FailureKind::Permanent,
    {
        FailureKind::Permanent
    }

    /// Renders the error without any part of the record.
    pub fn to_string(&self) -> (text: String)
        ensures
            text@ == mapping_error_text(*self),
    {
        match *self {
            IggyMappingError::EmptyPayload => "Iggy record payload must not be empty".to_owned(),
            IggyMappingError::PayloadTooLarge => {
                "Iggy record payload exceeds the message payload bound".to_owned()
            },
            IggyMappingError::InvalidHeader => "Iggy record contains an invalid header".to_owned(),
            IggyMappingError::DuplicateHeader => {
                "Iggy record contains duplicate headers".to_owned()
            },
            IggyMappingError::HeaderBoundsExceeded => {
                "Iggy record headers exceed shared or Iggy bounds".to_owned()
            },
            IggyMappingError::MissingRequiredHeader => {
                "Iggy record is missing a required framework header".to_owned()
            },
            IggyMappingError::InvalidFrameworkValue => {
                "Iggy record contains an invalid framework value".to_owned()
            },
            IggyMappingError::InvalidOrderingKey => {
                "Iggy ordering key exceeds the messages-key byte bound".to_owned()
            },
            IggyMappingError::InvalidRecordId => {
                "Iggy record id does not match its message-id header".to_owned()
            },
            IggyMappingError::InvalidRecordKey => {
                "Iggy record key does not match its ordering-key header".to_owned()
            },
        }
    }
}

/// The envelope did not contain a well-formed Iggy routing destination.
#[derive(Clone, Copy, Debug, PartialEq, Eq, Structural)]
pub struct RoutingDestinationError;

impl RoutingDestinationError {
    /// A malformed destination is permanent.
    pub fn classify(&self) -> (failure: FailureKind)
        ensures
            failure == FailureKind::Permanent,
    {
        FailureKind::Permanent
    }

    /// Renders the error without the destination.
    pub fn to_string(&self) -> (text: String)
        ensures
            text@ == "Iggy destination is missing or malformed in routing metadata"@,
    {
        "Iggy destination is missing or malformed in routing metadata".to_owned()
    }
}

/// The publisher settings' send timeout was zero.
#[derive(Clone, Copy, Debug, PartialEq, Eq, Structural)]
pub struct InvalidSendTimeout;

impl InvalidSendTimeout {
    /// A zero timeout stays zero: the error is permanent.
    pub fn classify(&self) -> (failure: FailureKind)
        ensures
            failure == FailureKind::Permanent,
    {
        FailureKind::Permanent
    }

    /// Renders the error.
    pub fn to_string(&self) -> (text: String)
        ensures
            text@ == "Iggy publisher send timeout must not be zero"@,
    {
        "Iggy publisher send timeout must not be zero".to_owned()
    }
}

/// Safe, structured class of an Iggy publication failure.
#[derive(Clone, Copy, Debug, PartialEq, Eq, Structural)]
#[non_exhaustive]
pub enum IggyPublishErrorKind {
    /// The application destination resolver rejected the envelope.
    Routing,

    /// The envelope could not be projected into an Iggy message.
    Mapping,

    /// The server rejected the request (permission, unknown stream/topic, or oversize).
    Rejected,

    /// The server refused admission before the write; safe to retry.
    ServerTransient,

    /// The client's session was already disconnected or shut down, so the request was not sent.
    ///
    /// The message can succeed on a rebuilt client, so this is transient, but retrying through
    /// the same client cannot succeed: reconnection is disabled.
    ClientDisconnected,

    /// The server's reply for this request was not observed, or the connection was lost after
    /// the request may have reached the server. The outcome is unknown: the message may already
    /// be committed.
    OutcomeUnknown,
}

/// A redacted Iggy publication failure.
#[derive(Clone, Copy, Debug, PartialEq, Eq, Structural)]
#[non_exhaustive]
pub struct IggyPublishError {
    /// The structured class.
    pub kind: IggyPublishErrorKind,

    /// Whether the publication may be repeated.
    pub failure_kind: FailureKind,
}

/// The SDK errors with which the server refuses a publication for good.
pub open spec fn is_publish_rejection(code: u32) -> bool {
    ||| code == UNAUTHORIZED
    ||| code == INVALID_CREDENTIALS
    ||| code == STREAM_ID_NOT_FOUND
    ||| code == STREAM_NAME_NOT_FOUND
    ||| code == TOPIC_ID_NOT_FOUND
    ||| code == TOPIC_NAME_NOT_FOUND
    ||| code == TOO_BIG_MESSAGE_PAYLOAD
    ||| code == TOO_BIG_USER_HEADERS
    ||| code == INVALID_MESSAGE_PAYLOAD_LENGTH
    ||| code == EMPTY_MESSAGE_PAYLOAD
    ||| code == INVALID_HEADER_VALUE
    ||| code == INVALID_HEADER_KEY
}

/// What an SDK error says of a publication. An error that is neither a rejection nor a refusal
/// before the write leaves the outcome unknown, since the request may have reached the server.
pub open spec fn publish_error(code: u32) -> IggyPublishError {
    if is_publish_rejection(code) {
        IggyPublishError {
            kind: IggyPublishErrorKind::Rejected,
            failure_kind: FailureKind::Permanent,
        }
    } else if code == TRANSIENT_NOT_ACCEPTED {
        IggyPublishError {
            kind: IggyPublishErrorKind::ServerTransient,
            failure_kind: FailureKind::Transient,
        }
    } else {
        IggyPublishError {
            kind: IggyPublishErrorKind::OutcomeUnknown,
            failure_kind: FailureKind::Transient,
        }
    }
}

/// The rendering of a publication failure.
pub open spec fn publish_error_text(kind: IggyPublishErrorKind) -> Seq<char> {
    match kind {
        IggyPublishErrorKind::Routing => "Iggy destination resolution failed"@,
        IggyPublishErrorKind::Mapping => "Iggy envelope mapping failed"@,
        IggyPublishErrorKind::Rejected => "Iggy server rejected the publish request"@,
        IggyPublishErrorKind::ServerTransient => "Iggy server refused admission before the write"@,
        IggyPublishErrorKind::ClientDisconnected => {
            "Iggy client session is closed; the request was not sent"@
        },
        IggyPublishErrorKind::OutcomeUnknown => "Iggy publish outcome is unknown"@,
    }
}

impl IggyPublishError {
    /// A failure of the given class.
    pub(crate) fn new(kind: IggyPublishErrorKind, failure_kind: FailureKind) -> (error: Self)
        ensures
            error.kind == kind,
            error.failure_kind == failure_kind,
    {
        IggyPublishError { kind, failure_kind }
    }

    /// Returns the structured operation stage that failed.
    pub fn kind(self) -> (kind: IggyPublishErrorKind)
        ensures
            kind == self.kind,
    {
        self.kind
    }

    /// Returns whether the publication may be repeated.
    pub fn classify(&self) -> (failure: FailureKind)
        ensures
            failure == self.failure_kind,
    {
        self.failure_kind
    }

    /// Renders the failure without any detail of the message or the connection.
    pub fn to_string(&self) -> (text: String)
        ensures
            text@ == publish_error_text(self.kind),
    {
        match self.kind {
            IggyPublishErrorKind::Routing => "Iggy destination resolution failed".to_owned(),
            IggyPublishErrorKind::Mapping => "Iggy envelope mapping failed".to_owned(),
            IggyPublishErrorKind::Rejected => "Iggy server rejected the publish request".to_owned(),
            IggyPublishErrorKind::ServerTransient => {
                "Iggy server refused admission before the write".to_owned()
            },
            IggyPublishErrorKind::ClientDisconnected => {
                "Iggy client session is closed; the request was not sent".to_owned()
            },
            IggyPublishErrorKind::OutcomeUnknown => "Iggy publish outcome is unknown".to_owned(),
        }
    }
}

/// Classifies an SDK error from a publication. This is the single mapping from an SDK error to
/// [`IggyPublishErrorKind`].
///
/// No SDK error maps to [`IggyPublishErrorKind::ClientDisconnected`]: an SDK error never proves
/// that the request was not sent. The publisher reads the session state before it sends.
impl From<IggyError> for IggyPublishError {
    fn from(error: IggyError) -> (classified: Self) {
        let code: u32 = error.as_code();

        if code == UNAUTHORIZED || code == INVALID_CREDENTIALS || code == STREAM_ID_NOT_FOUND
            || code == STREAM_NAME_NOT_FOUND || code == TOPIC_ID_NOT_FOUND || code
            == TOPIC_NAME_NOT_FOUND || code == TOO_BIG_MESSAGE_PAYLOAD || code
            == TOO_BIG_USER_HEADERS || code == INVALID_MESSAGE_PAYLOAD_LENGTH || code
            == EMPTY_MESSAGE_PAYLOAD || code == INVALID_HEADER_VALUE || code == INVALID_HEADER_KEY {
            IggyPublishError {
                kind: IggyPublishErrorKind::Rejected,
                failure_kind: FailureKind::Permanent,
            }
        } else if code == TRANSIENT_NOT_ACCEPTED {
            IggyPublishError {
                kind: IggyPublishErrorKind::ServerTransient,
                failure_kind: FailureKind::Transient,
            }
        } else {
            IggyPublishError {
                kind: IggyPublishErrorKind::OutcomeUnknown,
                failure_kind: FailureKind::Transient,
            }
        }
    }
}

impl FromSpecImpl<IggyError> for IggyPublishError {
    open spec fn obeys_from_spec() -> bool {
        true
    }

    open spec fn from_spec(error: IggyError) -> Self {
        publish_error(error_code(error))
    }
}

/// Safe, structured class of an Iggy delivery-source or offset-advance failure.
#[derive(Clone, Copy, Debug, PartialEq, Eq, Structural, Hash)]
#[non_exhaustive]
pub enum IggyDeliveryErrorKind {
    /// A source setting was outside its documented bound.
    InvalidSettings,

    /// The server rejected the session's credentials or permissions.
    Unauthorized,

    /// The stream, topic, consumer group, or partition does not exist.
    ///
    /// The source never creates any of them, and a group deleted while the source runs is
    /// reported the same way when the source next tries to rejoin it.
    NotFound,

    /// The server permanently rejected the request, such as an out-of-range offset.
    Rejected,

    /// The client session was lost or was never connected.
    ///
    /// Reconnection is application-owned: build a new client and a new source. A deliberately
    /// shut-down client is reported as a clean source close instead.
    Disconnected,

    /// A server request did not complete within the source's request timeout.
    ///
    /// For an offset advance the outcome is unknown: the store may still be applied later.
    Timeout,

    /// The server refused or could not settle the request for a retryable reason, or returned
    /// an error that is not classified by name.
    ///
    /// For an offset advance the outcome is unknown: the store may still be applied later.
    Unavailable,

    /// A poll returned a record past the partition's next expected offset.
    ///
    /// The source never skips forward over a record it has not resolved. This reports records
    /// removed above the source's position before they were resolved, for example by segment
    /// deletion or retention, which requires operator action.
    OffsetGap,
}

/// A redacted Iggy delivery-source or offset-advance failure.
///
/// It carries only its structured kind, its retry classification, and the numeric Iggy error
/// code when the server or SDK reported one.
#[derive(Clone, Copy, Debug, PartialEq, Eq, Structural)]
#[non_exhaustive]
pub struct IggyDeliveryError {
    /// The structured class.
    pub kind: IggyDeliveryErrorKind,

    /// Whether the operation may be repeated.
    pub failure_kind: FailureKind,

    /// The numeric Iggy error code, when the failure came from an SDK or server error.
    pub code: Option<u32>,
}

/// The SDK errors that name rejected credentials or permissions.
pub open spec fn is_unauthorized(code: u32) -> bool {
    ||| code == UNAUTHORIZED
    ||| code == INVALID_CREDENTIALS
    ||| code == INVALID_USERNAME
    ||| code == INVALID_PASSWORD
}

/// The SDK errors that name a missing resource.
pub open spec fn is_not_found(code: u32) -> bool {
    ||| code == STREAM_ID_NOT_FOUND
    ||| code == STREAM_NAME_NOT_FOUND
    ||| code == TOPIC_ID_NOT_FOUND
    ||| code == TOPIC_NAME_NOT_FOUND
    ||| code == PARTITION_NOT_FOUND
    ||| code == NO_PARTITIONS
    ||| code == CONSUMER_GROUP_ID_NOT_FOUND
    ||| code == CONSUMER_GROUP_NAME_NOT_FOUND
    ||| code == RESOURCE_NOT_FOUND
}

/// The SDK errors with which the server refuses a delivery request for good.
pub open spec fn is_delivery_rejection(code: u32) -> bool {
    ||| code == INVALID_OFFSET
    ||| code == TOO_MANY_CONSUMER_OFFSETS
    ||| code == INVALID_IDENTIFIER
    ||| code == INVALID_CONSUMER_GROUP_ID
    ||| code == INVALID_CONSUMER_GROUP_NAME
    ||| code == FEATURE_UNAVAILABLE
}

/// The SDK errors that name a lost session.
pub open spec fn is_disconnection(code: u32) -> bool {
    ||| code == DISCONNECTED
    ||| code == NOT_CONNECTED
    ||| code == CLIENT_SHUTDOWN
    ||| code == CANNOT_ESTABLISH_CONNECTION
    ||| code == TCP_ERROR
    ||| code == STALE_CLIENT
    ||| code == UNAUTHENTICATED
}

/// What an SDK error says of a delivery request. Retryable refusals, ownership fences on an offset
/// store, and every error that is not recognized by name are transient: never assumed permanent.
pub open spec fn delivery_error(code: u32) -> IggyDeliveryError {
    if is_unauthorized(code) {
        IggyDeliveryError {
            kind: IggyDeliveryErrorKind::Unauthorized,
            failure_kind: FailureKind::Permanent,
            code: Some(code),
        }
    } else if is_not_found(code) {
        IggyDeliveryError {
            kind: IggyDeliveryErrorKind::NotFound,
            failure_kind: FailureKind::Permanent,
            code: Some(code),
        }
    } else if is_delivery_rejection(code) {
        IggyDeliveryError {
            kind: IggyDeliveryErrorKind::Rejected,
            failure_kind: FailureKind::Permanent,
            code: Some(code),
        }
    } else if is_disconnection(code) {
        IggyDeliveryError {
            kind: IggyDeliveryErrorKind::Disconnected,
            failure_kind: FailureKind::Transient,
            code: Some(code),
        }
    } else {
        IggyDeliveryError {
            kind: IggyDeliveryErrorKind::Unavailable,
            failure_kind: FailureKind::Transient,
            code: Some(code),
        }
    }
}

/// A failure without an SDK error behind it.
pub open spec fn plain_error(
    kind: IggyDeliveryErrorKind,
    failure_kind: FailureKind,
) -> IggyDeliveryError {
    IggyDeliveryError { kind, failure_kind, code: None }
}

/// The rendering of a delivery failure.
pub open spec fn delivery_error_text(kind: IggyDeliveryErrorKind) -> Seq<char> {
    match kind {
        IggyDeliveryErrorKind::InvalidSettings => "Iggy delivery source settings are invalid"@,
        IggyDeliveryErrorKind::Unauthorized => {
            "Iggy server rejected the session's credentials or permissions"@
        },
        IggyDeliveryErrorKind::NotFound => {
            "Iggy stream, topic, consumer group, or partition not found"@
        },
        IggyDeliveryErrorKind::Rejected => "Iggy server rejected the delivery request"@,
        IggyDeliveryErrorKind::Disconnected => "Iggy client session is not connected"@,
        IggyDeliveryErrorKind::Timeout => "Iggy delivery request did not complete in time"@,
        IggyDeliveryErrorKind::Unavailable => {
            "Iggy server could not complete the delivery request"@
        },
        IggyDeliveryErrorKind::OffsetGap => {
            "Iggy poll skipped past the partition's next expected offset"@
        },
    }
}

impl IggyDeliveryError {
    /// A failure without an SDK error behind it.
    pub(crate) fn new(kind: IggyDeliveryErrorKind, failure_kind: FailureKind) -> (error: Self)
        ensures
            error == plain_error(kind, failure_kind),
    {
        IggyDeliveryError { kind, failure_kind, code: None }
    }

    /// A setting outside its bound.
    pub(crate) fn invalid_settings() -> (error: Self)
        ensures
            error == plain_error(IggyDeliveryErrorKind::InvalidSettings, FailureKind::Permanent),
    {
        Self::new(IggyDeliveryErrorKind::InvalidSettings, FailureKind::Permanent)
    }

    /// A request that did not complete in time.
    pub fn timeout() -> (error: Self)
        ensures
            error == plain_error(IggyDeliveryErrorKind::Timeout, FailureKind::Transient),
    {
        Self::new(IggyDeliveryErrorKind::Timeout, FailureKind::Transient)
    }

    /// Classifies an SDK error by its code.
    pub fn from_code(code: u32) -> (error: Self)
        ensures
            error == delivery_error(code),
    {
        let (kind, failure_kind) = if code == UNAUTHORIZED || code == INVALID_CREDENTIALS || code
            == INVALID_USERNAME || code == INVALID_PASSWORD {
            (IggyDeliveryErrorKind::Unauthorized, FailureKind::Permanent)
        } else if code == STREAM_ID_NOT_FOUND || code == STREAM_NAME_NOT_FOUND || code
            == TOPIC_ID_NOT_FOUND || code == TOPIC_NAME_NOT_FOUND || code == PARTITION_NOT_FOUND
            || code == NO_PARTITIONS || code == CONSUMER_GROUP_ID_NOT_FOUND || code
            == CONSUMER_GROUP_NAME_NOT_FOUND || code == RESOURCE_NOT_FOUND {
            (IggyDeliveryErrorKind::NotFound, FailureKind::Permanent)
        } else if code == INVALID_OFFSET || code == TOO_MANY_CONSUMER_OFFSETS || code
            == INVALID_IDENTIFIER || code == INVALID_CONSUMER_GROUP_ID || code
            == INVALID_CONSUMER_GROUP_NAME || code == FEATURE_UNAVAILABLE {
            (IggyDeliveryErrorKind::Rejected, FailureKind::Permanent)
        } else if code == DISCONNECTED || code == NOT_CONNECTED || code == CLIENT_SHUTDOWN || code
            == CANNOT_ESTABLISH_CONNECTION || code == TCP_ERROR || code == STALE_CLIENT || code
            == UNAUTHENTICATED {
            (IggyDeliveryErrorKind::Disconnected, FailureKind::Transient)
        } else {
            (IggyDeliveryErrorKind::Unavailable, FailureKind::Transient)
        };

        IggyDeliveryError { kind, failure_kind, code: Some(code) }
    }

    /// Returns the structured failure class.
    pub fn kind(self) -> (kind: IggyDeliveryErrorKind)
        ensures
            kind == self.kind,
    {
        self.kind
    }

    /// Returns the numeric Iggy error code, when the failure came from an SDK or server error.
    pub fn code(self) -> (code: Option<u32>)
        ensures
            code == self.code,
    {
        self.code
    }

    /// Returns whether the operation may be repeated.
    pub fn classify(&self) -> (failure: FailureKind)
        ensures
            failure == self.failure_kind,
    {
        self.failure_kind
    }

    /// Renders the failure without any detail of the record or the connection.
    pub fn to_string(&self) -> (text: String)
        ensures
            text@ == delivery_error_text(self.kind),
    {
        match self.kind {
            IggyDeliveryErrorKind::InvalidSettings => {
                "Iggy delivery source settings are invalid".to_owned()
            },
            IggyDeliveryErrorKind::Unauthorized => {
                "Iggy server rejected the session's credentials or permissions".to_owned()
            },
            IggyDeliveryErrorKind::NotFound => {
                "Iggy stream, topic, consumer group, or partition not found".to_owned()
            },
            IggyDeliveryErrorKind::Rejected => {
                "Iggy server rejected the delivery request".to_owned()
            },
            IggyDeliveryErrorKind::Disconnected => {
                "Iggy client session is not connected".to_owned()
            },
            IggyDeliveryErrorKind::Timeout => {
                "Iggy delivery request did not complete in time".to_owned()
            },
            IggyDeliveryErrorKind::Unavailable => {
                "Iggy server could not complete the delivery request".to_owned()
            },
            IggyDeliveryErrorKind::OffsetGap => {
                "Iggy poll skipped past the partition's next expected offset".to_owned()
            },
        }
    }
}

/// Classifies an SDK error. This is the single mapping from an SDK error to
/// [`IggyDeliveryErrorKind`]; the source and settlement paths use it after handling the outcomes
/// that are not failures for them.
///
/// An ownership fence or a missing membership that reaches this mapping comes from an offset
/// store, where it does not prove that an earlier transmission of the same request was not
/// applied, so both are transient rather than a conclusive ownership loss.
impl From<IggyError> for IggyDeliveryError {
    fn from(error: IggyError) -> (classified: Self) {
        IggyDeliveryError::from_code(error.as_code())
    }
}

impl FromSpecImpl<IggyError> for IggyDeliveryError {
    open spec fn obeys_from_spec() -> bool {
        true
    }

    open spec fn from_spec(error: IggyError) -> Self {
        delivery_error(error_code(error))
    }
}

/// Which SDK errors say what of connecting: the codes from 40 to 44 are about credentials, those
/// from 64 to 67 about TLS, and all others about the connection itself.
pub proof fn law_client_errors_by_code(code: u32)
    ensures
        client_error_kind(code) is Authentication <==> 40 <= code <= 44,
        client_error_kind(code) is Tls <==> 64 <= code <= 67,
        client_error_kind(code) is Connect <==> !(40 <= code <= 44) && !(64 <= code <= 67),
{
}

/// Which SDK errors say what of a publication. A missing permission or stream or topic, and a
/// message that is too big or malformed, are rejections and permanent. The one refusal before the
/// write is transient, and every other error leaves the outcome unknown and may be repeated.
pub proof fn law_publish_errors_by_code(code: u32)
    ensures
        publish_error(code).kind is Rejected <==> seq![
            41u32,
            42,
            1009,
            1010,
            2010,
            2011,
            4017,
            4018,
            4019,
            4022,
            4024,
            4025,
        ].contains(code),
        publish_error(code).kind is ServerTransient <==> code == 58,
        publish_error(code).kind is Rejected || publish_error(code).kind is ServerTransient
            || publish_error(code).kind is OutcomeUnknown,
        publish_error(code).failure_kind == if publish_error(code).kind is Rejected {
            FailureKind::Permanent
        } else {
            FailureKind::Transient
        },
{
    let codes = seq![
        41u32,
        42,
        1009,
        1010,
        2010,
        2011,
        4017,
        4018,
        4019,
        4022,
        4024,
        4025,
    ];
    assert(codes[0] == 41 && codes[1] == 42 && codes[2] == 1009 && codes[3] == 1010 && codes[4]
        == 2010 && codes[5] == 2011 && codes[6] == 4017 && codes[7] == 4018 && codes[8] == 4019
        && codes[9] == 4022 && codes[10] == 4024 && codes[11] == 4025);
}

/// Which SDK errors say what of a delivery request. Credentials, missing resources and rejected
/// requests are permanent; a lost session, and every error that is not known by name, is
/// transient. The error keeps its code.
pub proof fn law_delivery_errors_by_code(code: u32)
    ensures
        delivery_error(code).code == Some(code),
        delivery_error(code).kind is Unauthorized <==> 41 <= code <= 44,
        delivery_error(code).kind is NotFound <==> seq![
            20u32,
            1009,
            1010,
            2010,
            2011,
            3007,
            3008,
            5000,
            5003,
        ].contains(code),
        delivery_error(code).kind is Rejected <==> seq![
            5u32,
            6,
            3024,
            4100,
            5002,
            5005,
        ].contains(code),
        delivery_error(code).kind is Disconnected <==> seq![8u32, 9, 30, 31, 40, 61, 63].contains(
            code,
        ),
        delivery_error(code).failure_kind == match delivery_error(code).kind {
            IggyDeliveryErrorKind::Unauthorized
            | IggyDeliveryErrorKind::NotFound
            | IggyDeliveryErrorKind::Rejected => FailureKind::Permanent,
            _ => FailureKind::Transient,
        },
        delivery_error(code).kind is Unauthorized || delivery_error(code).kind is NotFound
            || delivery_error(code).kind is Rejected || delivery_error(code).kind is Disconnected
            || delivery_error(code).kind is Unavailable,
{
    let missing = seq![20u32, 1009, 1010, 2010, 2011, 3007, 3008, 5000, 5003];
    assert(missing[0] == 20 && missing[1] == 1009 && missing[2] == 1010 && missing[3] == 2010
        && missing[4] == 2011 && missing[5] == 3007 && missing[6] == 3008 && missing[7] == 5000
        && missing[8] == 5003);
    let rejected = seq![5u32, 6, 3024, 4100, 5002, 5005];
    assert(rejected[0] == 5 && rejected[1] == 6 && rejected[2] == 3024 && rejected[3] == 4100
        && rejected[4] == 5002 && rejected[5] == 5005);
    let lost = seq![8u32, 9, 30, 31, 40, 61, 63];
    assert(lost[0] == 8 && lost[1] == 9 && lost[2] == 30 && lost[3] == 31 && lost[4] == 40
        && lost[5] == 61 && lost[6] == 63);
}

/// No two client errors render alike.
pub proof fn law_client_errors_render_apart(left: IggyClientErrorKind, right: IggyClientErrorKind)
    ensures
        client_error_text(left) == client_error_text(right) <==> left == right,
{
    reveal_strlit("Iggy client settings are invalid");
    reveal_strlit("Iggy server rejected the credentials");
    reveal_strlit("Iggy TLS configuration was rejected");
    reveal_strlit("Iggy client could not connect");
    reveal_strlit("Iggy connect-and-login did not complete in time");

    let l = client_error_text(left);
    let r = client_error_text(right);
    assert(left != right ==> l.len() != r.len());
}

/// No two mapping errors render alike.
pub proof fn law_mapping_errors_render_apart(left: IggyMappingError, right: IggyMappingError)
    ensures
        mapping_error_text(left) == mapping_error_text(right) <==> left == right,
{
    reveal_strlit("Iggy record payload must not be empty");
    reveal_strlit("Iggy record payload exceeds the message payload bound");
    reveal_strlit("Iggy record contains an invalid header");
    reveal_strlit("Iggy record contains duplicate headers");
    reveal_strlit("Iggy record headers exceed shared or Iggy bounds");
    reveal_strlit("Iggy record is missing a required framework header");
    reveal_strlit("Iggy record contains an invalid framework value");
    reveal_strlit("Iggy ordering key exceeds the messages-key byte bound");
    reveal_strlit("Iggy record id does not match its message-id header");
    reveal_strlit("Iggy record key does not match its ordering-key header");

    let l = mapping_error_text(left);
    let r = mapping_error_text(right);
    assert(left != right ==> l.len() != r.len() || l[5] != r[5] || l[21] != r[21]);
}

/// No two publication failures render alike.
pub proof fn law_publish_errors_render_apart(
    left: IggyPublishErrorKind,
    right: IggyPublishErrorKind,
)
    ensures
        publish_error_text(left) == publish_error_text(right) <==> left == right,
{
    reveal_strlit("Iggy destination resolution failed");
    reveal_strlit("Iggy envelope mapping failed");
    reveal_strlit("Iggy server rejected the publish request");
    reveal_strlit("Iggy server refused admission before the write");
    reveal_strlit("Iggy client session is closed; the request was not sent");
    reveal_strlit("Iggy publish outcome is unknown");

    let l = publish_error_text(left);
    let r = publish_error_text(right);
    assert(left != right ==> l.len() != r.len());
}

/// No two delivery failures render alike.
pub proof fn law_delivery_errors_render_apart(
    left: IggyDeliveryErrorKind,
    right: IggyDeliveryErrorKind,
)
    ensures
        delivery_error_text(left) == delivery_error_text(right) <==> left == right,
{
    reveal_strlit("Iggy delivery source settings are invalid");
    reveal_strlit("Iggy server rejected the session's credentials or permissions");
    reveal_strlit("Iggy stream, topic, consumer group, or partition not found");
    reveal_strlit("Iggy server rejected the delivery request");
    reveal_strlit("Iggy client session is not connected");
    reveal_strlit("Iggy delivery request did not complete in time");
    reveal_strlit("Iggy server could not complete the delivery request");
    reveal_strlit("Iggy poll skipped past the partition's next expected offset");

    let l = delivery_error_text(left);
    let r = delivery_error_text(right);
    assert(left != right ==> l.len() != r.len() || l[5] != r[5]);
}

} // verus!
