//! Serialized message envelopes: what a provider carries from a publisher to a consumer.

use crate::headers::{HeaderText, Headers};
use crate::ids::{parse_uuid, parsed_uuid, render_uuid, uuid_text, uuid_value};
use uuid::Uuid;
use vstd::prelude::*;

verus! {

/// The identity of one message.
#[derive(Clone, Copy, Debug, PartialEq, Eq, Structural, Hash)]
pub struct MessageId {
    /// The UUID as a number.
    pub value: u128,
}

/// The identity of a conversation that several messages belong to.
#[derive(Clone, Copy, Debug, PartialEq, Eq, Structural, Hash)]
pub struct ConversationId {
    /// The UUID as a number.
    pub value: u128,
}

/// The identity of the request that a message answers or belongs to.
#[derive(Clone, Copy, Debug, PartialEq, Eq, Structural, Hash)]
pub struct RequestId {
    /// The UUID as a number.
    pub value: u128,
}

impl MessageId {
    /// The identity with the given UUID.
    pub fn from_uuid(uuid: Uuid) -> (id: Self)
        ensures
            id.value == uuid_value(uuid),
    {
        MessageId { value: uuid.as_u128() }
    }

    /// The identity's UUID.
    pub fn as_uuid(&self) -> (uuid: Uuid)
        ensures
            uuid_value(uuid) == self.value,
    {
        Uuid::from_u128(self.value)
    }

    /// Reads an identity from its UUID text.
    pub fn parse(text: &str) -> (id: Option<Self>)
        ensures
            id == (match parsed_uuid(text@) {
                Some(value) => Some(MessageId { value }),
                None => None,
            }),
    {
        match parse_uuid(text) {
            Some(value) => Some(MessageId { value }),
            None => None,
        }
    }

    /// Writes the identity as a hyphenated UUID.
    pub fn to_text(self) -> (text: String)
        ensures
            text@ == uuid_text(self.value),
    {
        render_uuid(self.value)
    }
}

impl ConversationId {
    /// Reads an identity from its UUID text.
    pub fn parse(text: &str) -> (id: Option<Self>)
        ensures
            id == (match parsed_uuid(text@) {
                Some(value) => Some(ConversationId { value }),
                None => None,
            }),
    {
        match parse_uuid(text) {
            Some(value) => Some(ConversationId { value }),
            None => None,
        }
    }

    /// Writes the identity as a hyphenated UUID.
    pub fn to_text(self) -> (text: String)
        ensures
            text@ == uuid_text(self.value),
    {
        render_uuid(self.value)
    }
}

impl RequestId {
    /// Reads an identity from its UUID text.
    pub fn parse(text: &str) -> (id: Option<Self>)
        ensures
            id == (match parsed_uuid(text@) {
                Some(value) => Some(RequestId { value }),
                None => None,
            }),
    {
        match parse_uuid(text) {
            Some(value) => Some(RequestId { value }),
            None => None,
        }
    }

    /// Writes the identity as a hyphenated UUID.
    pub fn to_text(self) -> (text: String)
        ensures
            text@ == uuid_text(self.value),
    {
        render_uuid(self.value)
    }
}

/// How a message relates to other messages.
#[derive(Clone, Debug, PartialEq, Eq)]
pub struct CorrelationMetadata {
    /// Application correlation value.
    pub correlation_id: Option<String>,

    /// The conversation the message belongs to.
    pub conversation_id: Option<ConversationId>,

    /// The message that caused this one.
    pub causation_id: Option<MessageId>,

    /// The request the message belongs to.
    pub request_id: Option<RequestId>,
}

/// W3C trace context.
#[derive(Clone, Debug, PartialEq, Eq)]
pub struct TraceMetadata {
    /// The `traceparent` header.
    pub traceparent: Option<String>,

    /// The `tracestate` header.
    pub tracestate: Option<String>,
}

/// Where a message comes from and goes to.
#[derive(Clone, Debug, PartialEq, Eq)]
pub struct RoutingMetadata {
    /// Logical sender.
    pub source: Option<String>,

    /// Logical destination.
    pub destination: Option<String>,

    /// Where replies go.
    pub reply_to: Option<String>,
}

/// Facts about one sending of a message.
#[derive(Clone, Debug, PartialEq, Eq)]
pub struct DeliveryMetadata {
    /// When the message was sent, in milliseconds since the Unix epoch.
    pub sent_at_ms: Option<u64>,

    /// Application deduplication value.
    pub deduplication_id: Option<String>,
}

/// Everything an envelope says beside its payload.
#[derive(Debug, PartialEq, Eq)]
pub struct Metadata {
    /// How the message relates to other messages.
    pub correlation: CorrelationMetadata,

    /// W3C trace context.
    pub trace: TraceMetadata,

    /// Where the message comes from and goes to.
    pub routing: RoutingMetadata,

    /// Facts about this sending.
    pub delivery: DeliveryMetadata,

    /// The tenant the message belongs to.
    pub tenant_id: Option<String>,

    /// Application headers.
    pub headers: Headers,
}

impl Default for Metadata {
    fn default() -> (metadata: Self)
        ensures
            metadata@ == no_metadata(),
    {
        Metadata {
            correlation: CorrelationMetadata {
                correlation_id: None,
                conversation_id: None,
                causation_id: None,
                request_id: None,
            },
            trace: TraceMetadata { traceparent: None, tracestate: None },
            routing: RoutingMetadata { source: None, destination: None, reply_to: None },
            delivery: DeliveryMetadata { sent_at_ms: None, deduplication_id: None },
            tenant_id: None,
            headers: Headers::new(),
        }
    }
}

impl Clone for Metadata {
    fn clone(&self) -> (copy: Self)
        ensures
            copy@ == self@,
    {
        Metadata {
            correlation: CorrelationMetadata {
                correlation_id: copy_optional(&self.correlation.correlation_id),
                conversation_id: self.correlation.conversation_id,
                causation_id: self.correlation.causation_id,
                request_id: self.correlation.request_id,
            },
            trace: TraceMetadata {
                traceparent: copy_optional(&self.trace.traceparent),
                tracestate: copy_optional(&self.trace.tracestate),
            },
            routing: RoutingMetadata {
                source: copy_optional(&self.routing.source),
                destination: copy_optional(&self.routing.destination),
                reply_to: copy_optional(&self.routing.reply_to),
            },
            delivery: DeliveryMetadata {
                sent_at_ms: self.delivery.sent_at_ms,
                deduplication_id: copy_optional(&self.delivery.deduplication_id),
            },
            tenant_id: copy_optional(&self.tenant_id),
            headers: self.headers.clone(),
        }
    }
}

fn copy_optional(text: &Option<String>) -> (copy: Option<String>)
    ensures
        optional_text(copy) == optional_text(*text),
{
    match text {
        Some(text) => Some(text.clone()),
        None => None,
    }
}

/// A message whose payload is already bytes.
#[derive(Clone, Debug, PartialEq, Eq)]
pub struct SerializedEnvelope {
    /// Stable message identity.
    pub message_id: MessageId,

    /// Name of the message's type.
    pub message_type: String,

    /// Version of the message's schema.
    pub message_version: u32,

    /// Media type of the payload.
    pub content_type: String,

    /// Serialized body.
    pub payload: Vec<u8>,

    /// Everything beside the payload.
    pub metadata: Metadata,

    /// Messages with the same key keep their order.
    pub ordering_key: Option<String>,
}

/// The text of an optional string.
pub open spec fn optional_text(string: Option<String>) -> Option<Seq<char>> {
    match string {
        Some(string) => Some(string@),
        None => None,
    }
}

/// [`Metadata`] as mathematical values.
#[verifier::ext_equal]
pub struct MetadataModel {
    pub correlation_id: Option<Seq<char>>,
    pub conversation_id: Option<ConversationId>,
    pub causation_id: Option<MessageId>,
    pub request_id: Option<RequestId>,
    pub traceparent: Option<Seq<char>>,
    pub tracestate: Option<Seq<char>>,
    pub source: Option<Seq<char>>,
    pub destination: Option<Seq<char>>,
    pub reply_to: Option<Seq<char>>,
    pub sent_at_ms: Option<u64>,
    pub deduplication_id: Option<Seq<char>>,
    pub tenant_id: Option<Seq<char>>,
    pub headers: Seq<HeaderText>,
}

/// Metadata in which nothing is set.
pub open spec fn no_metadata() -> MetadataModel {
    MetadataModel {
        correlation_id: None,
        conversation_id: None,
        causation_id: None,
        request_id: None,
        traceparent: None,
        tracestate: None,
        source: None,
        destination: None,
        reply_to: None,
        sent_at_ms: None,
        deduplication_id: None,
        tenant_id: None,
        headers: Seq::empty(),
    }
}

impl View for Metadata {
    type V = MetadataModel;

    open spec fn view(&self) -> MetadataModel {
        MetadataModel {
            correlation_id: optional_text(self.correlation.correlation_id),
            conversation_id: self.correlation.conversation_id,
            causation_id: self.correlation.causation_id,
            request_id: self.correlation.request_id,
            traceparent: optional_text(self.trace.traceparent),
            tracestate: optional_text(self.trace.tracestate),
            source: optional_text(self.routing.source),
            destination: optional_text(self.routing.destination),
            reply_to: optional_text(self.routing.reply_to),
            sent_at_ms: self.delivery.sent_at_ms,
            deduplication_id: optional_text(self.delivery.deduplication_id),
            tenant_id: optional_text(self.tenant_id),
            headers: self.headers@,
        }
    }
}

/// [`SerializedEnvelope`] as mathematical values.
#[verifier::ext_equal]
pub struct EnvelopeModel {
    pub message_id: MessageId,
    pub message_type: Seq<char>,
    pub message_version: u32,
    pub content_type: Seq<char>,
    pub payload: Seq<u8>,
    pub metadata: MetadataModel,
    pub ordering_key: Option<Seq<char>>,
}

impl View for SerializedEnvelope {
    type V = EnvelopeModel;

    open spec fn view(&self) -> EnvelopeModel {
        EnvelopeModel {
            message_id: self.message_id,
            message_type: self.message_type@,
            message_version: self.message_version,
            content_type: self.content_type@,
            payload: self.payload@,
            metadata: self.metadata@,
            ordering_key: optional_text(self.ordering_key),
        }
    }
}

} // verus!
