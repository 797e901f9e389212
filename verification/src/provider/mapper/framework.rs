//! The headers with a fixed meaning.

use crate::text::{lower_text, same_text};
use vstd::prelude::*;

verus! {

/// A header whose name and meaning are fixed.
#[derive(Clone, Copy, Debug, PartialEq, Eq, Structural)]
pub enum FrameworkHeader {
    /// The message's identity.
    MessageId,

    /// The message's type.
    MessageType,

    /// The message's schema version.
    MessageVersion,

    /// The payload's media type.
    ContentType,

    /// The ordering key.
    OrderingKey,

    /// The application correlation value.
    CorrelationId,

    /// The conversation.
    ConversationId,

    /// The causing message.
    CausationId,

    /// The request.
    RequestId,

    /// The logical sender.
    Source,

    /// The logical destination.
    Destination,

    /// Where replies go.
    ReplyTo,

    /// When the message was sent.
    SentAtMs,

    /// The application deduplication value.
    DeduplicationId,

    /// The tenant.
    TenantId,

    /// W3C `traceparent`.
    Traceparent,

    /// W3C `tracestate`.
    Tracestate,
}

/// How many framework headers there are.
pub const FRAMEWORK_HEADER_COUNT: usize = 17;

/// The wire name of a framework header.
pub open spec fn framework_name(header: FrameworkHeader) -> Seq<char> {
    match header {
        FrameworkHeader::MessageId => "message-id"@,
        FrameworkHeader::MessageType => "message-type"@,
        FrameworkHeader::MessageVersion => "message-version"@,
        FrameworkHeader::ContentType => "content-type"@,
        FrameworkHeader::OrderingKey => "ordering-key"@,
        FrameworkHeader::CorrelationId => "correlation-id"@,
        FrameworkHeader::ConversationId => "conversation-id"@,
        FrameworkHeader::CausationId => "causation-id"@,
        FrameworkHeader::RequestId => "request-id"@,
        FrameworkHeader::Source => "source"@,
        FrameworkHeader::Destination => "destination"@,
        FrameworkHeader::ReplyTo => "reply-to"@,
        FrameworkHeader::SentAtMs => "sent-at-ms"@,
        FrameworkHeader::DeduplicationId => "deduplication-id"@,
        FrameworkHeader::TenantId => "tenant-id"@,
        FrameworkHeader::Traceparent => "traceparent"@,
        FrameworkHeader::Tracestate => "tracestate"@,
    }
}

/// The names that belong to framework headers.
pub open spec fn is_framework_name(name: Seq<char>) -> bool {
    exists|header: FrameworkHeader| #[trigger] framework_name(header) == name
}

impl FrameworkHeader {
    /// The wire name.
    pub fn name(self) -> (name: &'static str)
        ensures
            name@ == framework_name(self),
    {
        match self {
            FrameworkHeader::MessageId => "message-id",
            FrameworkHeader::MessageType => "message-type",
            FrameworkHeader::MessageVersion => "message-version",
            FrameworkHeader::ContentType => "content-type",
            FrameworkHeader::OrderingKey => "ordering-key",
            FrameworkHeader::CorrelationId => "correlation-id",
            FrameworkHeader::ConversationId => "conversation-id",
            FrameworkHeader::CausationId => "causation-id",
            FrameworkHeader::RequestId => "request-id",
            FrameworkHeader::Source => "source",
            FrameworkHeader::Destination => "destination",
            FrameworkHeader::ReplyTo => "reply-to",
            FrameworkHeader::SentAtMs => "sent-at-ms",
            FrameworkHeader::DeduplicationId => "deduplication-id",
            FrameworkHeader::TenantId => "tenant-id",
            FrameworkHeader::Traceparent => "traceparent",
            FrameworkHeader::Tracestate => "tracestate",
        }
    }

    /// The framework header with the given wire name.
    pub fn from_name(name: &str) -> (header: Option<Self>)
        ensures
            match header {
                Some(header) => framework_name(header) == name@,
                None => !is_framework_name(name@),
            },
    {
        if same_text(name, "message-id") {
            Some(FrameworkHeader::MessageId)
        } else if same_text(name, "message-type") {
            Some(FrameworkHeader::MessageType)
        } else if same_text(name, "message-version") {
            Some(FrameworkHeader::MessageVersion)
        } else if same_text(name, "content-type") {
            Some(FrameworkHeader::ContentType)
        } else if same_text(name, "ordering-key") {
            Some(FrameworkHeader::OrderingKey)
        } else if same_text(name, "correlation-id") {
            Some(FrameworkHeader::CorrelationId)
        } else if same_text(name, "conversation-id") {
            Some(FrameworkHeader::ConversationId)
        } else if same_text(name, "causation-id") {
            Some(FrameworkHeader::CausationId)
        } else if same_text(name, "request-id") {
            Some(FrameworkHeader::RequestId)
        } else if same_text(name, "source") {
            Some(FrameworkHeader::Source)
        } else if same_text(name, "destination") {
            Some(FrameworkHeader::Destination)
        } else if same_text(name, "reply-to") {
            Some(FrameworkHeader::ReplyTo)
        } else if same_text(name, "sent-at-ms") {
            Some(FrameworkHeader::SentAtMs)
        } else if same_text(name, "deduplication-id") {
            Some(FrameworkHeader::DeduplicationId)
        } else if same_text(name, "tenant-id") {
            Some(FrameworkHeader::TenantId)
        } else if same_text(name, "traceparent") {
            Some(FrameworkHeader::Traceparent)
        } else if same_text(name, "tracestate") {
            Some(FrameworkHeader::Tracestate)
        } else {
            None
        }
    }
}

/// Framework names are lower case, and no two framework headers share one.
pub proof fn lemma_framework_names(left: FrameworkHeader, right: FrameworkHeader)
    ensures
        lower_text(framework_name(left)) == framework_name(left),
        framework_name(left) == framework_name(right) <==> left == right,
{
    reveal_strlit("message-id");
    reveal_strlit("message-type");
    reveal_strlit("message-version");
    reveal_strlit("content-type");
    reveal_strlit("ordering-key");
    reveal_strlit("correlation-id");
    reveal_strlit("conversation-id");
    reveal_strlit("causation-id");
    reveal_strlit("request-id");
    reveal_strlit("source");
    reveal_strlit("destination");
    reveal_strlit("reply-to");
    reveal_strlit("sent-at-ms");
    reveal_strlit("deduplication-id");
    reveal_strlit("tenant-id");
    reveal_strlit("traceparent");
    reveal_strlit("tracestate");

    let l = framework_name(left);
    let r = framework_name(right);
    assert(left != right ==> l.len() != r.len() || l[0] != r[0] || l[1] != r[1]);
    assert(lower_text(l) =~= l);
}

/// No framework name is empty.
pub proof fn lemma_framework_name_not_empty(header: FrameworkHeader)
    ensures
        framework_name(header).len() > 0,
{
    reveal_strlit("message-id");
    reveal_strlit("message-type");
    reveal_strlit("message-version");
    reveal_strlit("content-type");
    reveal_strlit("ordering-key");
    reveal_strlit("correlation-id");
    reveal_strlit("conversation-id");
    reveal_strlit("causation-id");
    reveal_strlit("request-id");
    reveal_strlit("source");
    reveal_strlit("destination");
    reveal_strlit("reply-to");
    reveal_strlit("sent-at-ms");
    reveal_strlit("deduplication-id");
    reveal_strlit("tenant-id");
    reveal_strlit("traceparent");
    reveal_strlit("tracestate");
}

} // verus!
