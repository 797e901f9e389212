//! Projection of an envelope into a wire record.

use crate::envelope::{optional_text, EnvelopeModel, MessageId, SerializedEnvelope};
use crate::headers::HeaderText;
use crate::ids::uuid_text;
use crate::provider::error::IggyMappingError;
use crate::provider::mapper::framework::{framework_name, FrameworkHeader};
use crate::provider::mapper::record::{wire_headers, IggyHeader, IggyRecord, WireHeader, WireRecord};
use crate::text::{bytes_of, copy_bytes, decimal_text, render_decimal};
use vstd::prelude::*;

verus! {

/// Iggy's header fields hold 1 to 255 bytes; its messages-key has the same bound.
pub const MAX_HEADER_FIELD_BYTES: usize = 255;

/// The largest payload of one Iggy message, in bytes.
pub const MAX_PAYLOAD_BYTES: usize = 64_000_000;

/// `iggy::prelude::MAX_PAYLOAD_SIZE`: sixty-four million bytes.
#[verifier::external_body]
fn max_payload_size() -> (bytes: u32)
    ensures
        bytes == MAX_PAYLOAD_BYTES,
{
    iggy::prelude::MAX_PAYLOAD_SIZE
}

/// A text that an Iggy header field can hold.
pub open spec fn fits(text: Seq<char>) -> bool {
    0 < bytes_of(text).len() <= MAX_HEADER_FIELD_BYTES
}

/// A text that is set but that an Iggy header field cannot hold.
pub open spec fn misfit(text: Option<Seq<char>>) -> bool {
    text matches Some(text) && !fits(text)
}

/// A list of headers, followed by a framework header if its text is set.
pub open spec fn also(
    headers: Seq<WireHeader>,
    name: FrameworkHeader,
    text: Option<Seq<char>>,
) -> Seq<WireHeader> {
    match text {
        Some(text) => headers.push(
            WireHeader { name: framework_name(name), value: bytes_of(text) },
        ),
        None => headers,
    }
}

/// The text of an optional identity.
pub open spec fn id_text(id: Option<u128>) -> Option<Seq<char>> {
    match id {
        Some(id) => Some(uuid_text(id)),
        None => None,
    }
}

/// The text of an optional number.
pub open spec fn number_text(number: Option<u64>) -> Option<Seq<char>> {
    match number {
        Some(number) => Some(decimal_text(number as nat)),
        None => None,
    }
}

/// The conversation of an envelope as a plain identity.
pub open spec fn conversation(e: EnvelopeModel) -> Option<u128> {
    match e.metadata.conversation_id {
        Some(id) => Some(id.value),
        None => None,
    }
}

/// The cause of an envelope as a plain identity.
pub open spec fn causation(e: EnvelopeModel) -> Option<u128> {
    match e.metadata.causation_id {
        Some(id) => Some(id.value),
        None => None,
    }
}

/// The request of an envelope as a plain identity.
pub open spec fn request(e: EnvelopeModel) -> Option<u128> {
    match e.metadata.request_id {
        Some(id) => Some(id.value),
        None => None,
    }
}

/// What is written of `tracestate`: a participant may drop it when it is too long for the
/// transport, so a value that does not fit is left out.
pub open spec fn written_tracestate(e: EnvelopeModel) -> Option<Seq<char>> {
    if misfit(e.metadata.tracestate) {
        None
    } else {
        e.metadata.tracestate
    }
}

/// The headers that say what a message is, behind those of `h`.
pub open spec fn with_leading(h: Seq<WireHeader>, e: EnvelopeModel) -> Seq<WireHeader> {
    let h = also(h, FrameworkHeader::MessageId, Some(uuid_text(e.message_id.value)));
    let h = also(h, FrameworkHeader::MessageType, Some(e.message_type));
    let h = also(h, FrameworkHeader::MessageVersion, number_text(Some(e.message_version as u64)));
    also(h, FrameworkHeader::ContentType, Some(e.content_type))
}

/// The headers that relate a message to others, say where it goes and when it was sent, and
/// carry its trace, behind those of `h`.
pub open spec fn with_context(h: Seq<WireHeader>, e: EnvelopeModel) -> Seq<WireHeader> {
    let h = also(h, FrameworkHeader::CorrelationId, e.metadata.correlation_id);
    let h = also(h, FrameworkHeader::ConversationId, id_text(conversation(e)));
    let h = also(h, FrameworkHeader::CausationId, id_text(causation(e)));
    let h = also(h, FrameworkHeader::RequestId, id_text(request(e)));
    let h = also(h, FrameworkHeader::Source, e.metadata.source);
    let h = also(h, FrameworkHeader::Destination, e.metadata.destination);
    let h = also(h, FrameworkHeader::ReplyTo, e.metadata.reply_to);
    let h = also(h, FrameworkHeader::SentAtMs, number_text(e.metadata.sent_at_ms));
    let h = also(h, FrameworkHeader::DeduplicationId, e.metadata.deduplication_id);
    let h = also(h, FrameworkHeader::TenantId, e.metadata.tenant_id);
    let h = also(h, FrameworkHeader::Traceparent, e.metadata.traceparent);
    also(h, FrameworkHeader::Tracestate, written_tracestate(e))
}

/// The framework headers of an envelope, in wire order.
pub open spec fn framework_headers(e: EnvelopeModel) -> Seq<WireHeader> {
    with_context(
        also(with_leading(seq![], e), FrameworkHeader::OrderingKey, e.ordering_key),
        e,
    )
}

/// The application headers of an envelope on the wire.
pub open spec fn custom_headers(headers: Seq<HeaderText>) -> Seq<WireHeader> {
    headers.map_values(
        |header: HeaderText| WireHeader { name: header.name, value: bytes_of(header.value) },
    )
}

/// The framework texts whose size is checked before the ordering key cannot all be written.
pub open spec fn leading_misfit(e: EnvelopeModel) -> bool {
    ||| misfit(Some(e.message_type))
    ||| misfit(Some(e.content_type))
}

/// The framework texts whose size is checked behind the ordering key cannot all be written.
pub open spec fn context_misfit(e: EnvelopeModel) -> bool {
    ||| misfit(e.metadata.correlation_id)
    ||| misfit(e.metadata.source)
    ||| misfit(e.metadata.destination)
    ||| misfit(e.metadata.reply_to)
    ||| misfit(e.metadata.deduplication_id)
    ||| misfit(e.metadata.tenant_id)
    ||| misfit(e.metadata.traceparent)
}

/// Some application header value cannot be written.
pub open spec fn custom_misfit(headers: Seq<HeaderText>) -> bool {
    exists|i: int| 0 <= i < headers.len() && !fits(#[trigger] headers[i].value)
}

/// The wire record of an envelope, or why it has none.
pub open spec fn encoded(e: EnvelopeModel) -> Result<WireRecord, IggyMappingError> {
    if e.payload.len() == 0 {
        Err(IggyMappingError::EmptyPayload)
    } else if e.payload.len() > MAX_PAYLOAD_BYTES {
        Err(IggyMappingError::PayloadTooLarge)
    } else if leading_misfit(e) {
        Err(IggyMappingError::InvalidFrameworkValue)
    } else if misfit(e.ordering_key) {
        Err(IggyMappingError::InvalidOrderingKey)
    } else if context_misfit(e) {
        Err(IggyMappingError::InvalidFrameworkValue)
    } else if custom_misfit(e.metadata.headers) {
        Err(IggyMappingError::InvalidHeader)
    } else {
        Ok(
            WireRecord {
                id: e.message_id.value,
                payload: e.payload,
                headers: framework_headers(e) + custom_headers(e.metadata.headers),
                key: match e.ordering_key {
                    Some(key) => Some(bytes_of(key)),
                    None => None,
                },
            },
        )
    }
}

/// A written identity always fits a header field.
pub proof fn lemma_uuid_fits(id: u128)
    ensures
        fits(uuid_text(id)),
{
    crate::ids::lemma_uuid_text(id);
    vstd::utf8::is_ascii_chars_encode_utf8(uuid_text(id));
}

/// A written number always fits a header field.
pub proof fn lemma_number_fits(number: u64)
    ensures
        fits(decimal_text(number as nat)),
{
    let text = decimal_text(number as nat);
    crate::text::lemma_decimal_text(number as nat);
    crate::text::lemma_decimal_length_u64(number);
    assert forall|i: int| 0 <= i < text.len() implies (#[trigger] text[i] as u32) < 128 by {
        assert('0' <= text[i] <= '9');
    }
    assert(vstd::utf8::is_ascii_chars(text));
    vstd::utf8::is_ascii_chars_encode_utf8(text);
}

/// An optional borrowed text as a mathematical value.
pub open spec fn optional_str(text: Option<&str>) -> Option<Seq<char>> {
    match text {
        Some(text) => Some(text@),
        None => None,
    }
}

/// The text behind an optional string.
fn text_ref(string: &Option<String>) -> (text: Option<&str>)
    ensures
        optional_str(text) == optional_text(*string),
{
    match string {
        Some(string) => Some(string.as_str()),
        None => None,
    }
}

/// Whether an Iggy header field can hold `text`.
fn text_fits(text: &str) -> (fit: bool)
    ensures
        fit == fits(text@),
{
    let bytes = text.as_bytes();

    bytes.len() != 0 && bytes.len() <= MAX_HEADER_FIELD_BYTES
}

fn append(headers: &mut Vec<IggyHeader>, name: &str, value: &str)
    ensures
        wire_headers(final(headers)@) == wire_headers(old(headers)@).push(
            WireHeader { name: name@, value: bytes_of(value@) },
        ),
{
    let header = IggyHeader { name: name.to_owned(), value: copy_bytes(value) };
    assert(header@ == WireHeader { name: name@, value: bytes_of(value@) });
    headers.push(header);
    assert(wire_headers(headers@) =~= wire_headers(old(headers)@).push(header@));
}

/// Writes a framework header when its text is set; a text that does not fit is an error.
fn push_header(headers: &mut Vec<IggyHeader>, name: FrameworkHeader, text: Option<&str>) -> (pushed:
    Result<(), IggyMappingError>)
    ensures
        pushed == if misfit(optional_str(text)) {
            Err::<(), _>(IggyMappingError::InvalidFrameworkValue)
        } else {
            Ok(())
        },
        pushed is Ok ==> wire_headers(final(headers)@) == also(
            wire_headers(old(headers)@),
            name,
            optional_str(text),
        ),
{
    let Some(text) = text else {
        return Ok(());
    };

    if !text_fits(text) {
        return Err(IggyMappingError::InvalidFrameworkValue);
    }

    append(headers, name.name(), text);
    Ok(())
}

/// Writes a framework header when its text is set and fits, and nothing otherwise.
///
/// This is reserved for headers that a participant may drop, such as `tracestate`.
fn push_optional_header(headers: &mut Vec<IggyHeader>, name: FrameworkHeader, text: Option<&str>)
    ensures
        wire_headers(final(headers)@) == also(
            wire_headers(old(headers)@),
            name,
            if misfit(optional_str(text)) {
                None
            } else {
                optional_str(text)
            },
        ),
{
    if let Some(text) = text {
        if text_fits(text) {
            append(headers, name.name(), text);
        }
    }
}

/// Writes the identity, type, version, and content type.
fn push_leading(headers: &mut Vec<IggyHeader>, envelope: &SerializedEnvelope) -> (pushed: Result<
    (),
    IggyMappingError,
>)
    ensures
        pushed == if leading_misfit(envelope@) {
            Err::<(), _>(IggyMappingError::InvalidFrameworkValue)
        } else {
            Ok(())
        },
        pushed is Ok ==> wire_headers(final(headers)@) == with_leading(
            wire_headers(old(headers)@),
            envelope@,
        ),
{
    proof {
        lemma_uuid_fits(envelope.message_id.value);
        lemma_number_fits(envelope.message_version as u64);
    }
    let id = envelope.message_id.to_text();
    let version = render_decimal(envelope.message_version as u64);

    push_header(headers, FrameworkHeader::MessageId, Some(id.as_str()))?;
    push_header(headers, FrameworkHeader::MessageType, Some(envelope.message_type.as_str()))?;
    push_header(headers, FrameworkHeader::MessageVersion, Some(version.as_str()))?;
    push_header(headers, FrameworkHeader::ContentType, Some(envelope.content_type.as_str()))?;

    Ok(())
}

/// The text of an optional identity.
fn render_id(id: Option<u128>) -> (text: Option<String>)
    ensures
        optional_text(text) == id_text(id),
        !misfit(id_text(id)),
{
    match id {
        Some(value) => {
            proof {
                lemma_uuid_fits(value);
            }
            Some(MessageId { value }.to_text())
        },
        None => None,
    }
}

/// The text of an optional number.
fn render_number(number: Option<u64>) -> (text: Option<String>)
    ensures
        optional_text(text) == number_text(number),
        !misfit(number_text(number)),
{
    match number {
        Some(value) => {
            proof {
                lemma_number_fits(value);
            }
            Some(render_decimal(value))
        },
        None => None,
    }
}

/// Writes the correlation, routing, delivery, tenant, and trace headers.
fn push_context(headers: &mut Vec<IggyHeader>, envelope: &SerializedEnvelope) -> (pushed: Result<
    (),
    IggyMappingError,
>)
    ensures
        pushed == if context_misfit(envelope@) {
            Err::<(), _>(IggyMappingError::InvalidFrameworkValue)
        } else {
            Ok(())
        },
        pushed is Ok ==> wire_headers(final(headers)@) == with_context(
            wire_headers(old(headers)@),
            envelope@,
        ),
{
    let metadata = &envelope.metadata;
    let conversation = render_id(
        match metadata.correlation.conversation_id {
            Some(id) => Some(id.value),
            None => None,
        },
    );
    let causation = render_id(
        match metadata.correlation.causation_id {
            Some(id) => Some(id.value),
            None => None,
        },
    );
    let request = render_id(
        match metadata.correlation.request_id {
            Some(id) => Some(id.value),
            None => None,
        },
    );
    let sent_at = render_number(metadata.delivery.sent_at_ms);

    push_header(
        headers,
        FrameworkHeader::CorrelationId,
        text_ref(&metadata.correlation.correlation_id),
    )?;
    push_header(headers, FrameworkHeader::ConversationId, text_ref(&conversation))?;
    push_header(headers, FrameworkHeader::CausationId, text_ref(&causation))?;
    push_header(headers, FrameworkHeader::RequestId, text_ref(&request))?;
    push_header(headers, FrameworkHeader::Source, text_ref(&metadata.routing.source))?;
    push_header(headers, FrameworkHeader::Destination, text_ref(&metadata.routing.destination))?;
    push_header(headers, FrameworkHeader::ReplyTo, text_ref(&metadata.routing.reply_to))?;
    push_header(headers, FrameworkHeader::SentAtMs, text_ref(&sent_at))?;
    push_header(
        headers,
        FrameworkHeader::DeduplicationId,
        text_ref(&metadata.delivery.deduplication_id),
    )?;
    push_header(headers, FrameworkHeader::TenantId, text_ref(&metadata.tenant_id))?;
    push_header(headers, FrameworkHeader::Traceparent, text_ref(&metadata.trace.traceparent))?;
    push_optional_header(
        headers,
        FrameworkHeader::Tracestate,
        text_ref(&metadata.trace.tracestate),
    );

    Ok(())
}

/// Writes the application headers.
fn push_custom(headers: &mut Vec<IggyHeader>, envelope: &SerializedEnvelope) -> (pushed: Result<
    (),
    IggyMappingError,
>)
    ensures
        pushed == if custom_misfit(envelope@.metadata.headers) {
            Err::<(), _>(IggyMappingError::InvalidHeader)
        } else {
            Ok(())
        },
        pushed is Ok ==> wire_headers(final(headers)@) == wire_headers(old(headers)@)
            + custom_headers(envelope@.metadata.headers),
{
    let custom = &envelope.metadata.headers;
    let mut i: usize = 0;
    assert(wire_headers(headers@) =~= wire_headers(old(headers)@) + custom_headers(custom@.take(0)));

    while i < custom.len()
        invariant
            custom@ == envelope@.metadata.headers,
            i <= custom@.len(),
            forall|k: int| 0 <= k < i ==> fits(#[trigger] custom@[k].value),
            wire_headers(headers@) == wire_headers(old(headers)@) + custom_headers(
                custom@.take(i as int),
            ),
        decreases custom@.len() - i,
    {
        let value = custom.value(i);

        if !text_fits(value) {
            assert(!fits(custom@[i as int].value));
            return Err(IggyMappingError::InvalidHeader);
        }

        append(headers, custom.name(i), value);
        proof {
            let next = custom@.take(i + 1);
            assert(next =~= custom@.take(i as int).push(custom@[i as int]));
            assert(wire_headers(headers@) =~= wire_headers(old(headers)@) + custom_headers(next));
        }
        i = i + 1;
    }

    assert(custom@.take(i as int) =~= custom@);
    Ok(())
}

/// Projects an envelope into an Iggy record.
pub fn encode(envelope: &SerializedEnvelope) -> (record: Result<IggyRecord, IggyMappingError>)
    ensures
        match record {
            Ok(record) => encoded(envelope@) == Ok::<_, IggyMappingError>(record@),
            Err(error) => encoded(envelope@) == Err::<WireRecord, _>(error),
        },
        record matches Ok(record) ==> {
            &&& record@.id == envelope@.message_id.value
            &&& record@.payload == envelope@.payload
            &&& record@.key == (match envelope@.ordering_key {
                Some(key) => Some(bytes_of(key)),
                None => None,
            })
        },
{
    if envelope.payload.len() == 0 {
        return Err(IggyMappingError::EmptyPayload);
    }

    if envelope.payload.len() > max_payload_size() as usize {
        return Err(IggyMappingError::PayloadTooLarge);
    }

    let mut headers: Vec<IggyHeader> = Vec::new();
    assert(wire_headers(headers@) =~= seq![]);

    push_leading(&mut headers, envelope)?;

    let key = match &envelope.ordering_key {
        Some(ordering_key) => {
            if !text_fits(ordering_key.as_str()) {
                return Err(IggyMappingError::InvalidOrderingKey);
            }

            Some(copy_bytes(ordering_key.as_str()))
        },
        None => None,
    };

    push_header(&mut headers, FrameworkHeader::OrderingKey, text_ref(&envelope.ordering_key))?;
    push_context(&mut headers, envelope)?;
    push_custom(&mut headers, envelope)?;

    let payload = envelope.payload.clone();
    assert(payload@ =~= envelope.payload@);

    Ok(IggyRecord { id: envelope.message_id.value, payload, headers, key })
}

} // verus!
