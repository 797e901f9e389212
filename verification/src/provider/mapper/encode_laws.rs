//! What a record says of the envelope that it was made from.

use crate::envelope::EnvelopeModel;
use crate::ids::uuid_text;
use crate::provider::error::IggyMappingError;
use crate::provider::mapper::encode::{
    custom_headers, encoded, framework_headers, lemma_number_fits, lemma_uuid_fits,
};
use crate::provider::mapper::framework::{framework_name, FrameworkHeader};
use crate::provider::mapper::normalize::{find, Field};
use crate::provider::mapper::record::WireHeader;
use crate::provider::mapper::round_trip::{
    as_carried, holds, lemma_framework_headers_hold, lemma_framework_headers_in_order,
    plain, wire_position, written_text,
};
use crate::text::{bytes_of, decimal_text};
use vstd::prelude::*;

verus! {

/// A text of one to 255 bytes, or none at all.
pub open spec fn sized(text: Option<Seq<char>>) -> bool {
    text matches Some(text) ==> 1 <= bytes_of(text).len() <= 255
}

/// What an envelope says under a framework header.
pub open spec fn said(e: EnvelopeModel, header: FrameworkHeader) -> Option<Seq<char>> {
    match header {
        FrameworkHeader::MessageId => Some(uuid_text(e.message_id.value)),
        FrameworkHeader::MessageType => Some(e.message_type),
        FrameworkHeader::MessageVersion => Some(decimal_text(e.message_version as nat)),
        FrameworkHeader::ContentType => Some(e.content_type),
        FrameworkHeader::OrderingKey => e.ordering_key,
        FrameworkHeader::CorrelationId => e.metadata.correlation_id,
        FrameworkHeader::ConversationId => match e.metadata.conversation_id {
            Some(id) => Some(uuid_text(id.value)),
            None => None,
        },
        FrameworkHeader::CausationId => match e.metadata.causation_id {
            Some(id) => Some(uuid_text(id.value)),
            None => None,
        },
        FrameworkHeader::RequestId => match e.metadata.request_id {
            Some(id) => Some(uuid_text(id.value)),
            None => None,
        },
        FrameworkHeader::Source => e.metadata.source,
        FrameworkHeader::Destination => e.metadata.destination,
        FrameworkHeader::ReplyTo => e.metadata.reply_to,
        FrameworkHeader::SentAtMs => match e.metadata.sent_at_ms {
            Some(time) => Some(decimal_text(time as nat)),
            None => None,
        },
        FrameworkHeader::DeduplicationId => e.metadata.deduplication_id,
        FrameworkHeader::TenantId => e.metadata.tenant_id,
        FrameworkHeader::Traceparent => e.metadata.traceparent,
        FrameworkHeader::Tracestate => e.metadata.tracestate,
    }
}

/// Every framework text of an envelope has the size of a header field; `tracestate`, which may be
/// dropped, is not asked.
pub open spec fn all_sized(e: EnvelopeModel) -> bool {
    forall|header: FrameworkHeader|
        !(header is Tracestate) ==> sized(#[trigger] said(e, header))
}

/// Every application header value of an envelope has the size of a header field.
pub open spec fn values_sized(e: EnvelopeModel) -> bool {
    forall|i: int|
        0 <= i < e.metadata.headers.len() ==> sized(Some((#[trigger] e.metadata.headers[i]).value))
}

/// The framework texts that are looked at before the ordering key have the size of a header field.
pub open spec fn leading_sized(e: EnvelopeModel) -> bool {
    sized(Some(e.message_type)) && sized(Some(e.content_type))
}

proof fn lemma_sizes(e: EnvelopeModel)
    ensures
        sized(said(e, FrameworkHeader::MessageId)),
        sized(said(e, FrameworkHeader::MessageVersion)),
        sized(said(e, FrameworkHeader::ConversationId)),
        sized(said(e, FrameworkHeader::CausationId)),
        sized(said(e, FrameworkHeader::RequestId)),
        sized(said(e, FrameworkHeader::SentAtMs)),
{
    lemma_uuid_fits(e.message_id.value);
    lemma_number_fits(e.message_version as u64);
    if let Some(id) = e.metadata.conversation_id {
        lemma_uuid_fits(id.value);
    }
    if let Some(id) = e.metadata.causation_id {
        lemma_uuid_fits(id.value);
    }
    if let Some(id) = e.metadata.request_id {
        lemma_uuid_fits(id.value);
    }
    if let Some(time) = e.metadata.sent_at_ms {
        lemma_number_fits(time);
    }
}

/// The framework texts that are looked at before the ordering key.
pub open spec fn is_leading(header: FrameworkHeader) -> bool {
    ||| header is MessageId
    ||| header is MessageType
    ||| header is MessageVersion
    ||| header is ContentType
}

/// An envelope has a record exactly if its payload is neither empty nor longer than sixty-four
/// million bytes and everything that goes into a header field fits one. Otherwise the error names
/// the first part that does not fit: the payload, then the type and the content type, the ordering
/// key, the other framework texts, and the application headers.
pub proof fn law_envelopes_are_refused_for_their_size(e: EnvelopeModel)
    ensures
        match encoded(e) {
            Ok(_) => 1 <= e.payload.len() <= 64_000_000 && all_sized(e) && values_sized(e),
            Err(IggyMappingError::EmptyPayload) => e.payload.len() == 0,
            Err(IggyMappingError::PayloadTooLarge) => e.payload.len() > 64_000_000,
            Err(IggyMappingError::InvalidOrderingKey) => {
                &&& 1 <= e.payload.len() <= 64_000_000
                &&& leading_sized(e)
                &&& !sized(e.ordering_key)
            },
            Err(IggyMappingError::InvalidFrameworkValue) => {
                &&& 1 <= e.payload.len() <= 64_000_000
                &&& !leading_sized(e) || sized(e.ordering_key) && exists|header: FrameworkHeader|
                    !is_leading(header) && !(header is Tracestate) && !sized(
                        #[trigger] said(e, header),
                    )
            },
            Err(IggyMappingError::InvalidHeader) => {
                &&& 1 <= e.payload.len() <= 64_000_000
                &&& all_sized(e)
                &&& !values_sized(e)
            },
            Err(_) => false,
        },
{
    lemma_sizes(e);
    match encoded(e) {
        Err(IggyMappingError::InvalidFrameworkValue) => {
            assert(!leading_sized(e) || !sized(said(e, FrameworkHeader::CorrelationId)) || !sized(
                said(e, FrameworkHeader::Source),
            ) || !sized(said(e, FrameworkHeader::Destination)) || !sized(
                said(e, FrameworkHeader::ReplyTo),
            ) || !sized(said(e, FrameworkHeader::DeduplicationId)) || !sized(
                said(e, FrameworkHeader::TenantId),
            ) || !sized(said(e, FrameworkHeader::Traceparent)));
        },
        Ok(_) | Err(IggyMappingError::InvalidHeader) => {
            assert forall|header: FrameworkHeader| !(header is Tracestate) implies sized(
                #[trigger] said(e, header),
            ) by {
                match header {
                    FrameworkHeader::MessageType => {},
                    FrameworkHeader::ContentType => {},
                    FrameworkHeader::OrderingKey => {},
                    FrameworkHeader::CorrelationId => {},
                    FrameworkHeader::Source => {},
                    FrameworkHeader::Destination => {},
                    FrameworkHeader::ReplyTo => {},
                    FrameworkHeader::DeduplicationId => {},
                    FrameworkHeader::TenantId => {},
                    FrameworkHeader::Traceparent => {},
                    _ => {},
                }
            }
        },
        _ => {},
    }
}

/// A record has the envelope's identity and payload, and its messages-key is exactly the bytes of
/// the ordering key, whatever else the envelope holds: one without an ordering key has none.
pub proof fn law_records_are_keyed_by_the_ordering_key(e: EnvelopeModel)
    requires
        encoded(e) is Ok,
    ensures
        encoded(e)->Ok_0.id == e.message_id.value,
        encoded(e)->Ok_0.payload == e.payload,
        e.ordering_key matches Some(key) ==> encoded(e)->Ok_0.key == Some(bytes_of(key)),
        e.ordering_key is None ==> encoded(e)->Ok_0.key is None,
{
}

/// Two envelopes get the same messages-key exactly if they have the same ordering key, or neither
/// has one: messages that are to stay in order go to the same partition.
pub proof fn law_ordering_keys_decide_the_partition(first: EnvelopeModel, second: EnvelopeModel)
    requires
        encoded(first) is Ok,
        encoded(second) is Ok,
    ensures
        encoded(first)->Ok_0.key == encoded(second)->Ok_0.key <==> first.ordering_key
            == second.ordering_key,
{
    if let (Some(left), Some(right)) = (first.ordering_key, second.ordering_key) {
        if bytes_of(left) == bytes_of(right) {
            crate::text::lemma_bytes_determine_text(left, right);
        }
    }
}

proof fn lemma_found(headers: Seq<WireHeader>, name: Seq<char>)
    ensures
        match find(plain(headers), name) {
            Some(field) => exists|i: int|
                0 <= i < headers.len() && #[trigger] headers[i] == (WireHeader {
                    name,
                    value: field.value,
                }),
            None => forall|i: int| 0 <= i < headers.len() ==> (#[trigger] headers[i]).name != name,
        },
    decreases headers.len(),
{
    if headers.len() > 0 {
        let before = headers.drop_last();
        assert(plain(headers).drop_last() =~= plain(before));
        assert(plain(headers).last() == Field {
            name: headers.last().name,
            value: headers.last().value,
            accepted: true,
        });
        lemma_found(before, name);
        assert forall|i: int| 0 <= i < before.len() implies #[trigger] headers[i] == before[i] by {}
        match find(plain(headers), name) {
            Some(field) => {
                if headers.last().name == name {
                    assert(headers[headers.len() - 1] == (WireHeader { name, value: field.value }));
                } else {
                    let i = choose|i: int|
                        0 <= i < before.len() && #[trigger] before[i] == (WireHeader {
                            name,
                            value: field.value,
                        });
                    assert(headers[i] == before[i]);
                }
            },
            None => {
                assert forall|i: int| 0 <= i < headers.len() implies (#[trigger] headers[i]).name
                    != name by {
                    if i < before.len() {
                        assert(before[i].name != name);
                    }
                }
            },
        }
    }
}

/// Whether a header field is written: every one that the envelope fills, except a `tracestate` that
/// does not fit.
pub open spec fn is_written(e: EnvelopeModel, header: FrameworkHeader) -> bool {
    said(e, header) is Some && (header is Tracestate ==> sized(said(e, header)))
}

/// A list of headers holds one under a name with just a text, or none under that name.
pub open spec fn has(headers: Seq<WireHeader>, name: Seq<char>, text: Option<Seq<char>>) -> bool {
    match text {
        Some(text) => exists|i: int|
            0 <= i < headers.len() && #[trigger] headers[i] == (WireHeader {
                name,
                value: bytes_of(text),
            }),
        None => forall|i: int| 0 <= i < headers.len() ==> (#[trigger] headers[i]).name != name,
    }
}

proof fn lemma_held(headers: Seq<WireHeader>, header: FrameworkHeader, text: Option<Seq<char>>)
    requires
        holds(plain(headers), header, text),
    ensures
        has(headers, framework_name(header), text),
{
    lemma_found(headers, framework_name(header));
}

proof fn lemma_written(e: EnvelopeModel, header: FrameworkHeader)
    ensures
        written_text(e, header) == if is_written(e, header) {
            said(e, header)
        } else {
            None
        },
{
}

/// A record starts with the framework headers: one under its wire name for each that the envelope
/// fills, with just that text, and none for the others.
pub proof fn law_records_say_what_the_envelope_says(e: EnvelopeModel, header: FrameworkHeader)
    requires
        encoded(e) is Ok,
    ensures
        ({
            let headers = encoded(e)->Ok_0.headers;
            let count = headers.len() - e.metadata.headers.len();
            &&& 0 <= count <= 17
            &&& has(
                headers.take(count),
                framework_name(header),
                if is_written(e, header) {
                    said(e, header)
                } else {
                    None
                },
            )
        }),
{
    let headers = encoded(e)->Ok_0.headers;
    let first = framework_headers(e);
    let customs = custom_headers(e.metadata.headers);
    lemma_framework_headers_hold(e, header);
    lemma_written(e, header);
    lemma_held(first, header, written_text(e, header));
    lemma_start(first, customs);
    assert(headers == first + customs);
    assert(customs.len() == e.metadata.headers.len());
}

proof fn lemma_start(first: Seq<WireHeader>, rest: Seq<WireHeader>)
    ensures
        (first + rest).len() - rest.len() == first.len(),
        (first + rest).take(first.len() as int) == first,
{
    assert((first + rest).take(first.len() as int) =~= first);
}

/// The framework headers of a record stand in wire order, however many of them there are.
pub proof fn law_framework_headers_stand_in_wire_order(
    e: EnvelopeModel,
    i: int,
    j: int,
    left: FrameworkHeader,
    right: FrameworkHeader,
)
    requires
        encoded(e) is Ok,
        0 <= i < j < encoded(e)->Ok_0.headers.len() - e.metadata.headers.len(),
        encoded(e)->Ok_0.headers[i].name == framework_name(left),
        encoded(e)->Ok_0.headers[j].name == framework_name(right),
    ensures
        wire_position(left) < wire_position(right),
{
    let first = framework_headers(e);
    let customs = custom_headers(e.metadata.headers);
    lemma_framework_headers_in_order(e);
    assert(encoded(e)->Ok_0.headers == first + customs);
    assert(customs.len() == e.metadata.headers.len());
    assert((first + customs)[i] == first[i] && (first + customs)[j] == first[j]);
}

/// A record ends with the application headers, in their order, each under its name and with the
/// bytes of its value.
pub proof fn law_records_end_with_the_application_headers(e: EnvelopeModel)
    requires
        encoded(e) is Ok,
    ensures
        ({
            let headers = encoded(e)->Ok_0.headers;
            let customs = e.metadata.headers;
            &&& headers.len() >= customs.len()
            &&& forall|i: int|
                0 <= i < customs.len() ==> #[trigger] headers[headers.len() - customs.len() + i]
                    == (WireHeader { name: customs[i].name, value: bytes_of(customs[i].value) })
        }),
{
}

/// An envelope comes back from the wire as it was, except that a `tracestate` which does not fit a
/// header field is lost.
pub proof fn law_only_an_unfit_tracestate_is_lost(e: EnvelopeModel)
    ensures
        sized(e.metadata.tracestate) ==> as_carried(e) == e,
        !sized(e.metadata.tracestate) ==> as_carried(e).metadata.tracestate is None,
        ({
            let carried = as_carried(e);
            &&& carried.message_id == e.message_id
            &&& carried.message_type == e.message_type
            &&& carried.message_version == e.message_version
            &&& carried.content_type == e.content_type
            &&& carried.payload == e.payload
            &&& carried.ordering_key == e.ordering_key
            &&& forall|header: FrameworkHeader|
                !(header is Tracestate) ==> #[trigger] said(carried, header) == said(e, header)
            &&& carried.metadata.headers == e.metadata.headers
        }),
{
}

} // verus!
