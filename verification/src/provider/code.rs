//! Numeric codes of the SDK errors that the provider tells apart.

use vstd::prelude::*;

verus! {

/// `IggyError::FeatureUnavailable`.
pub const FEATURE_UNAVAILABLE: u32 = 5;

/// `IggyError::InvalidIdentifier`.
pub const INVALID_IDENTIFIER: u32 = 6;

/// `IggyError::Disconnected`.
pub const DISCONNECTED: u32 = 8;

/// `IggyError::CannotEstablishConnection`.
pub const CANNOT_ESTABLISH_CONNECTION: u32 = 9;

/// `IggyError::ResourceNotFound`.
pub const RESOURCE_NOT_FOUND: u32 = 20;

/// `IggyError::StaleClient`.
pub const STALE_CLIENT: u32 = 30;

/// `IggyError::TcpError`.
pub const TCP_ERROR: u32 = 31;

/// `IggyError::Unauthenticated`.
pub const UNAUTHENTICATED: u32 = 40;

/// `IggyError::Unauthorized`.
pub const UNAUTHORIZED: u32 = 41;

/// `IggyError::InvalidCredentials`.
pub const INVALID_CREDENTIALS: u32 = 42;

/// `IggyError::InvalidUsername`.
pub const INVALID_USERNAME: u32 = 43;

/// `IggyError::InvalidPassword`.
pub const INVALID_PASSWORD: u32 = 44;

/// `IggyError::TransientNotCommitted`.
pub const TRANSIENT_NOT_COMMITTED: u32 = 57;

/// `IggyError::TransientNotAccepted`.
pub const TRANSIENT_NOT_ACCEPTED: u32 = 58;

/// `IggyError::RequestAlreadyApplied`.
pub const REQUEST_ALREADY_APPLIED: u32 = 59;

/// `IggyError::NotConnected`.
pub const NOT_CONNECTED: u32 = 61;

/// `IggyError::ClientShutdown`.
pub const CLIENT_SHUTDOWN: u32 = 63;

/// `IggyError::InvalidTlsDomain`.
pub const INVALID_TLS_DOMAIN: u32 = 64;

/// `IggyError::InvalidTlsCertificatePath`.
pub const INVALID_TLS_CERTIFICATE_PATH: u32 = 65;

/// `IggyError::InvalidTlsCertificate`.
pub const INVALID_TLS_CERTIFICATE: u32 = 66;

/// `IggyError::FailedToAddCertificate`.
pub const FAILED_TO_ADD_CERTIFICATE: u32 = 67;

/// `IggyError::StreamIdNotFound`.
pub const STREAM_ID_NOT_FOUND: u32 = 1009;

/// `IggyError::StreamNameNotFound`.
pub const STREAM_NAME_NOT_FOUND: u32 = 1010;

/// `IggyError::TopicIdNotFound`.
pub const TOPIC_ID_NOT_FOUND: u32 = 2010;

/// `IggyError::TopicNameNotFound`.
pub const TOPIC_NAME_NOT_FOUND: u32 = 2011;

/// `IggyError::PartitionNotFound`.
pub const PARTITION_NOT_FOUND: u32 = 3007;

/// `IggyError::NoPartitions`.
pub const NO_PARTITIONS: u32 = 3008;

/// `IggyError::TooManyConsumerOffsets`.
pub const TOO_MANY_CONSUMER_OFFSETS: u32 = 3024;

/// `IggyError::TooBigUserHeaders`.
pub const TOO_BIG_USER_HEADERS: u32 = 4017;

/// `IggyError::InvalidHeaderKey`.
pub const INVALID_HEADER_KEY: u32 = 4018;

/// `IggyError::InvalidHeaderValue`.
pub const INVALID_HEADER_VALUE: u32 = 4019;

/// `IggyError::TooBigMessagePayload`.
pub const TOO_BIG_MESSAGE_PAYLOAD: u32 = 4022;

/// `IggyError::EmptyMessagePayload`.
pub const EMPTY_MESSAGE_PAYLOAD: u32 = 4024;

/// `IggyError::InvalidMessagePayloadLength`.
pub const INVALID_MESSAGE_PAYLOAD_LENGTH: u32 = 4025;

/// `IggyError::InvalidOffset`.
pub const INVALID_OFFSET: u32 = 4100;

/// `IggyError::ConsumerGroupIdNotFound`.
pub const CONSUMER_GROUP_ID_NOT_FOUND: u32 = 5000;

/// `IggyError::InvalidConsumerGroupId`.
pub const INVALID_CONSUMER_GROUP_ID: u32 = 5002;

/// `IggyError::ConsumerGroupNameNotFound`.
pub const CONSUMER_GROUP_NAME_NOT_FOUND: u32 = 5003;

/// `IggyError::InvalidConsumerGroupName`.
pub const INVALID_CONSUMER_GROUP_NAME: u32 = 5005;

/// `IggyError::ConsumerGroupMemberNotFound`.
pub const CONSUMER_GROUP_MEMBER_NOT_FOUND: u32 = 5006;

/// `IggyError::ConsumerGroupPartitionNotOwned`.
pub const CONSUMER_GROUP_PARTITION_NOT_OWNED: u32 = 5009;

} // verus!
