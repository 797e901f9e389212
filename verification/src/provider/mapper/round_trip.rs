//! What encoding an envelope and decoding the record gives back.

use crate::envelope::{EnvelopeModel, MetadataModel};
use crate::headers::{ascending, header_names, lemma_slot_at_end, HeaderLimits, HeaderText};
use crate::ids::{law_uuid_round_trip, uuid_text};
use crate::provider::error::IggyMappingError;
use crate::provider::mapper::decode::{
    context_malformed, custom_names, custom_text, customs, decoded, decoded_fields, metadata_of,
    raw_text, taken_customs, valid_id, valid_number, valid_text, Custom,
};
use crate::provider::mapper::encode::{
    also, causation, context_misfit, conversation, custom_headers, custom_misfit, encoded, fits,
    framework_headers, id_text, leading_misfit, lemma_number_fits, lemma_uuid_fits, misfit,
    number_text, request, written_tracestate,
};
use crate::provider::mapper::framework::{
    framework_name, is_framework_name, lemma_framework_names, FrameworkHeader,
    FRAMEWORK_HEADER_COUNT,
};
use crate::provider::mapper::normalize::{custom_bytes, find, with_headers, Field, HeaderVerdict};
use crate::provider::mapper::record::{WireHeader, WireRecord};
use crate::text::{bytes_of, law_decimal_round_trip, lemma_precedes_irreflexive, lower_text};
use vstd::prelude::*;
use vstd::utf8::{encode_utf8_decode_utf8, encode_utf8_valid_utf8};

verus! {

/// The position of a framework header in wire order.
pub open spec fn wire_position(header: FrameworkHeader) -> nat {
    match header {
        FrameworkHeader::MessageId => 0,
        FrameworkHeader::MessageType => 1,
        FrameworkHeader::MessageVersion => 2,
        FrameworkHeader::ContentType => 3,
        FrameworkHeader::OrderingKey => 4,
        FrameworkHeader::CorrelationId => 5,
        FrameworkHeader::ConversationId => 6,
        FrameworkHeader::CausationId => 7,
        FrameworkHeader::RequestId => 8,
        FrameworkHeader::Source => 9,
        FrameworkHeader::Destination => 10,
        FrameworkHeader::ReplyTo => 11,
        FrameworkHeader::SentAtMs => 12,
        FrameworkHeader::DeduplicationId => 13,
        FrameworkHeader::TenantId => 14,
        FrameworkHeader::Traceparent => 15,
        FrameworkHeader::Tracestate => 16,
    }
}

/// A verdict for each of `count` headers, accepting all of them.
pub open spec fn all_accepted(count: nat) -> Seq<HeaderVerdict> {
    Seq::new(count, |i: int| HeaderVerdict { name_accepted: true, value_accepted: true })
}

/// Headers as they are after a check that accepts them.
pub open spec fn plain(headers: Seq<WireHeader>) -> Seq<Field> {
    headers.map_values(
        |header: WireHeader| Field { name: header.name, value: header.value, accepted: true },
    )
}

spec fn in_wire_order(headers: Seq<WireHeader>, count: nat) -> bool {
    &&& headers.len() <= count
    &&& forall|i: int| 0 <= i < headers.len() ==> named_before(#[trigger] headers[i], count)
}

spec fn named_before(header: WireHeader, count: nat) -> bool {
    exists|name: FrameworkHeader|
        wire_position(name) < count && header.name == #[trigger] framework_name(name)
}

/// Headers that are valid as they are.
pub open spec fn checked(headers: Seq<WireHeader>, limits: HeaderLimits) -> bool {
    with_headers(headers, all_accepted(headers.len()), limits) == Ok::<_, IggyMappingError>(
        plain(headers),
    )
}

proof fn lemma_find_none(fields: Seq<Field>, name: Seq<char>)
    requires
        forall|i: int| 0 <= i < fields.len() ==> (#[trigger] fields[i]).name != name,
    ensures
        find(fields, name) is None,
    decreases fields.len(),
{
    if fields.len() > 0 {
        lemma_find_none(fields.drop_last(), name);
    }
}

proof fn lemma_find_push(fields: Seq<Field>, field: Field, name: Seq<char>)
    ensures
        find(fields.push(field), name) == if field.name == name {
            Some(field)
        } else {
            find(fields, name)
        },
{
    assert(fields.push(field).drop_last() == fields);
}

proof fn lemma_also(
    headers: Seq<WireHeader>,
    name: FrameworkHeader,
    text: Option<Seq<char>>,
    limits: HeaderLimits,
)
    requires
        checked(headers, limits),
        in_wire_order(headers, wire_position(name)),
        custom_bytes(plain(headers)) == 0,
        customs(plain(headers)).len() == 0,
        !misfit(text),
    ensures
        checked(also(headers, name, text), limits),
        in_wire_order(also(headers, name, text), wire_position(name) + 1),
        custom_bytes(plain(also(headers, name, text))) == 0,
        customs(plain(also(headers, name, text))).len() == 0,
        find(plain(also(headers, name, text)), framework_name(name)) == (match text {
            Some(text) => Some(
                Field { name: framework_name(name), value: bytes_of(text), accepted: true },
            ),
            None => None::<Field>,
        }),
        forall|other: FrameworkHeader|
            other != name ==> #[trigger] find(
                plain(also(headers, name, text)),
                framework_name(other),
            ) == find(plain(headers), framework_name(other)),
{
    let fields = plain(headers);
    let after = also(headers, name, text);
    lemma_framework_names(name, name);

    assert forall|i: int| 0 <= i < fields.len() implies (#[trigger] fields[i]).name
        != framework_name(name) by {
        assert(named_before(headers[i], wire_position(name)));
        let earlier = choose|earlier: FrameworkHeader|
            wire_position(earlier) < wire_position(name) && headers[i].name
                == #[trigger] framework_name(earlier);
        lemma_framework_names(earlier, name);
    }
    lemma_find_none(fields, framework_name(name));

    if let Some(text) = text {
        let header = WireHeader { name: framework_name(name), value: bytes_of(text) };
        let field = Field { name: header.name, value: header.value, accepted: true };
        assert(after.drop_last() == headers);
        assert(all_accepted(after.len()).drop_last() =~= all_accepted(headers.len()));
        assert(fields.push(field).drop_last() == fields);
        assert(is_framework_name(header.name));
        assert(plain(after) =~= fields.push(field));
        assert forall|other: FrameworkHeader| other != name implies #[trigger] find(
            plain(after),
            framework_name(other),
        ) == find(fields, framework_name(other)) by {
            lemma_framework_names(name, other);
            lemma_find_push(fields, field, framework_name(other));
        }
        lemma_find_push(fields, field, framework_name(name));
        assert forall|i: int| 0 <= i < after.len() implies named_before(
            #[trigger] after[i],
            wire_position(name) + 1,
        ) by {
            if i < headers.len() {
                assert(named_before(headers[i], wire_position(name)));
            }
        }
    } else {
        assert forall|i: int| 0 <= i < after.len() implies named_before(
            #[trigger] after[i],
            wire_position(name) + 1,
        ) by {
            assert(named_before(headers[i], wire_position(name)));
        }
    }
}

/// The text that an envelope writes into a framework header.
pub open spec fn written_text(e: EnvelopeModel, header: FrameworkHeader) -> Option<Seq<char>> {
    match header {
        FrameworkHeader::MessageId => Some(uuid_text(e.message_id.value)),
        FrameworkHeader::MessageType => Some(e.message_type),
        FrameworkHeader::MessageVersion => number_text(Some(e.message_version as u64)),
        FrameworkHeader::ContentType => Some(e.content_type),
        FrameworkHeader::OrderingKey => e.ordering_key,
        FrameworkHeader::CorrelationId => e.metadata.correlation_id,
        FrameworkHeader::ConversationId => id_text(conversation(e)),
        FrameworkHeader::CausationId => id_text(causation(e)),
        FrameworkHeader::RequestId => id_text(request(e)),
        FrameworkHeader::Source => e.metadata.source,
        FrameworkHeader::Destination => e.metadata.destination,
        FrameworkHeader::ReplyTo => e.metadata.reply_to,
        FrameworkHeader::SentAtMs => number_text(e.metadata.sent_at_ms),
        FrameworkHeader::DeduplicationId => e.metadata.deduplication_id,
        FrameworkHeader::TenantId => e.metadata.tenant_id,
        FrameworkHeader::Traceparent => e.metadata.traceparent,
        FrameworkHeader::Tracestate => written_tracestate(e),
    }
}

/// Whether checked headers hold a framework header with a text, or do not hold it at all.
pub open spec fn holds(fields: Seq<Field>, header: FrameworkHeader, text: Option<Seq<char>>) -> bool {
    find(fields, framework_name(header)) == (match text {
        Some(text) => Some(
            Field { name: framework_name(header), value: bytes_of(text), accepted: true },
        ),
        None => None::<Field>,
    })
}

spec fn written_up_to(headers: Seq<WireHeader>, e: EnvelopeModel, count: nat) -> bool {
    forall|header: FrameworkHeader| #[trigger]
        wire_position(header) < count ==> holds(plain(headers), header, written_text(e, header))
}

spec fn ready(headers: Seq<WireHeader>, e: EnvelopeModel, limits: HeaderLimits, count: nat) -> bool {
    &&& checked(headers, limits)
    &&& in_wire_order(headers, count)
    &&& custom_bytes(plain(headers)) == 0
    &&& customs(plain(headers)).len() == 0
    &&& written_up_to(headers, e, count)
}

proof fn lemma_step(
    headers: Seq<WireHeader>,
    e: EnvelopeModel,
    name: FrameworkHeader,
    limits: HeaderLimits,
)
    requires
        ready(headers, e, limits, wire_position(name)),
        !misfit(written_text(e, name)),
    ensures
        ready(also(headers, name, written_text(e, name)), e, limits, wire_position(name) + 1),
{
    let after = also(headers, name, written_text(e, name));
    lemma_also(headers, name, written_text(e, name), limits);
    assert forall|other: FrameworkHeader| #[trigger]
        wire_position(other) < wire_position(name) + 1 implies holds(
        plain(after),
        other,
        written_text(e, other),
    ) by {
        if other != name {
            assert(wire_position(other) < wire_position(name));
            assert(holds(plain(headers), other, written_text(e, other)));
            assert(find(plain(after), framework_name(other)) == find(
                plain(headers),
                framework_name(other),
            ));
        }
    }
}

/// Everything that an encoded envelope writes fits its header field.
pub proof fn lemma_no_misfit(e: EnvelopeModel, header: FrameworkHeader)
    requires
        !leading_misfit(e),
        !misfit(e.ordering_key),
        !context_misfit(e),
    ensures
        !misfit(written_text(e, header)),
{
    lemma_uuid_fits(e.message_id.value);
    lemma_number_fits(e.message_version as u64);
    match header {
        FrameworkHeader::ConversationId => {
            if let Some(id) = conversation(e) {
                lemma_uuid_fits(id);
            }
        },
        FrameworkHeader::CausationId => {
            if let Some(id) = causation(e) {
                lemma_uuid_fits(id);
            }
        },
        FrameworkHeader::RequestId => {
            if let Some(id) = request(e) {
                lemma_uuid_fits(id);
            }
        },
        FrameworkHeader::SentAtMs => {
            if let Some(number) = e.metadata.sent_at_ms {
                lemma_number_fits(number);
            }
        },
        _ => {},
    }
}

proof fn lemma_next(
    headers: Seq<WireHeader>,
    e: EnvelopeModel,
    name: FrameworkHeader,
    limits: HeaderLimits,
) -> (after: Seq<WireHeader>)
    requires
        ready(headers, e, limits, wire_position(name)),
        !leading_misfit(e),
        !misfit(e.ordering_key),
        !context_misfit(e),
    ensures
        after == also(headers, name, written_text(e, name)),
        ready(after, e, limits, wire_position(name) + 1),
{
    lemma_no_misfit(e, name);
    lemma_step(headers, e, name, limits);
    also(headers, name, written_text(e, name))
}

proof fn lemma_framework_ready(e: EnvelopeModel, limits: HeaderLimits)
    requires
        !leading_misfit(e),
        !misfit(e.ordering_key),
        !context_misfit(e),
    ensures
        ready(framework_headers(e), e, limits, 17),
{
    let h = Seq::<WireHeader>::empty();
    assert(plain(h) =~= seq![]);
    assert(all_accepted(0) =~= seq![]);
    assert(ready(h, e, limits, 0));
    let h = lemma_next(h, e, FrameworkHeader::MessageId, limits);
    let h = lemma_next(h, e, FrameworkHeader::MessageType, limits);
    let h = lemma_next(h, e, FrameworkHeader::MessageVersion, limits);
    let h = lemma_next(h, e, FrameworkHeader::ContentType, limits);
    let h = lemma_next(h, e, FrameworkHeader::OrderingKey, limits);
    let h = lemma_next(h, e, FrameworkHeader::CorrelationId, limits);
    let h = lemma_next(h, e, FrameworkHeader::ConversationId, limits);
    let h = lemma_next(h, e, FrameworkHeader::CausationId, limits);
    let h = lemma_next(h, e, FrameworkHeader::RequestId, limits);
    let h = lemma_next(h, e, FrameworkHeader::Source, limits);
    let h = lemma_next(h, e, FrameworkHeader::Destination, limits);
    let h = lemma_next(h, e, FrameworkHeader::ReplyTo, limits);
    let h = lemma_next(h, e, FrameworkHeader::SentAtMs, limits);
    let h = lemma_next(h, e, FrameworkHeader::DeduplicationId, limits);
    let h = lemma_next(h, e, FrameworkHeader::TenantId, limits);
    let h = lemma_next(h, e, FrameworkHeader::Traceparent, limits);
    let h = lemma_next(h, e, FrameworkHeader::Tracestate, limits);
}

/// Framework headers in wire order.
pub open spec fn in_order(headers: Seq<WireHeader>) -> bool {
    forall|i: int, j: int, left: FrameworkHeader, right: FrameworkHeader|
        0 <= i < j < headers.len() && (#[trigger] headers[i]).name == #[trigger] framework_name(left)
            && (#[trigger] headers[j]).name == #[trigger] framework_name(right) ==> wire_position(
            left,
        ) < wire_position(right)
}

proof fn lemma_next_in_order(
    headers: Seq<WireHeader>,
    e: EnvelopeModel,
    name: FrameworkHeader,
) -> (after: Seq<WireHeader>)
    requires
        in_order(headers),
        in_wire_order(headers, wire_position(name)),
    ensures
        after == also(headers, name, written_text(e, name)),
        in_order(after),
        in_wire_order(after, wire_position(name) + 1),
{
    let after = also(headers, name, written_text(e, name));
    assert forall|i: int| 0 <= i < after.len() implies named_before(
        #[trigger] after[i],
        wire_position(name) + 1,
    ) by {
        if i < headers.len() {
            assert(named_before(headers[i], wire_position(name)));
        } else {
            assert(after[i].name == framework_name(name));
        }
    }
    assert forall|i: int, j: int, left: FrameworkHeader, right: FrameworkHeader|
        0 <= i < j < after.len() && (#[trigger] after[i]).name == #[trigger] framework_name(left)
            && (#[trigger] after[j]).name == #[trigger] framework_name(right) implies wire_position(
        left,
    ) < wire_position(right) by {
        assert(headers[i] == after[i]);
        if j < headers.len() {
            assert(headers[j] == after[j]);
        } else {
            lemma_framework_names(right, name);
            assert(named_before(headers[i], wire_position(name)));
            let earlier = choose|earlier: FrameworkHeader|
                wire_position(earlier) < wire_position(name) && headers[i].name
                    == #[trigger] framework_name(earlier);
            lemma_framework_names(left, earlier);
        }
    }
    after
}

/// The framework headers of an envelope stand in wire order.
pub proof fn lemma_framework_headers_in_order(e: EnvelopeModel)
    ensures
        in_order(framework_headers(e)),
{
    let h = Seq::<WireHeader>::empty();
    let h = lemma_next_in_order(h, e, FrameworkHeader::MessageId);
    let h = lemma_next_in_order(h, e, FrameworkHeader::MessageType);
    let h = lemma_next_in_order(h, e, FrameworkHeader::MessageVersion);
    let h = lemma_next_in_order(h, e, FrameworkHeader::ContentType);
    let h = lemma_next_in_order(h, e, FrameworkHeader::OrderingKey);
    let h = lemma_next_in_order(h, e, FrameworkHeader::CorrelationId);
    let h = lemma_next_in_order(h, e, FrameworkHeader::ConversationId);
    let h = lemma_next_in_order(h, e, FrameworkHeader::CausationId);
    let h = lemma_next_in_order(h, e, FrameworkHeader::RequestId);
    let h = lemma_next_in_order(h, e, FrameworkHeader::Source);
    let h = lemma_next_in_order(h, e, FrameworkHeader::Destination);
    let h = lemma_next_in_order(h, e, FrameworkHeader::ReplyTo);
    let h = lemma_next_in_order(h, e, FrameworkHeader::SentAtMs);
    let h = lemma_next_in_order(h, e, FrameworkHeader::DeduplicationId);
    let h = lemma_next_in_order(h, e, FrameworkHeader::TenantId);
    let h = lemma_next_in_order(h, e, FrameworkHeader::Traceparent);
    let h = lemma_next_in_order(h, e, FrameworkHeader::Tracestate);
}

/// The framework headers of an encoded envelope hold what the envelope writes.
pub proof fn lemma_framework_headers_hold(e: EnvelopeModel, header: FrameworkHeader)
    requires
        encoded(e) is Ok,
    ensures
        framework_headers(e).len() <= 17,
        holds(plain(framework_headers(e)), header, written_text(e, header)),
{
    let limits = HeaderLimits { max_count: 0, max_bytes: 0 };
    lemma_framework_ready(e, limits);
    assert(wire_position(header) < 17);
}

/// The bytes that the names and values of a list of headers have together.
pub open spec fn header_bytes(headers: Seq<HeaderText>) -> nat
    decreases headers.len(),
{
    if headers.len() == 0 {
        0
    } else {
        header_bytes(headers.drop_last()) + bytes_of(headers.last().name).len() + bytes_of(
            headers.last().value,
        ).len()
    }
}

/// Application headers as the shared contract keeps them: distinct non-empty lower-case names in
/// byte order, none of them a framework name, within the bounds on their number and size.
pub open spec fn within_contract(headers: Seq<HeaderText>, limits: HeaderLimits) -> bool {
    &&& ascending(header_names(headers))
    &&& forall|i: int|
        0 <= i < headers.len() ==> lower_text((#[trigger] headers[i]).name) == headers[i].name
            && headers[i].name.len() > 0 && !is_framework_name(headers[i].name)
    &&& headers.len() <= limits.max_count
    &&& header_bytes(headers) <= limits.max_bytes
}

/// Application headers as they are read from a record.
pub open spec fn as_customs(headers: Seq<HeaderText>) -> Seq<Custom> {
    headers.map_values(|header: HeaderText| Custom { name: header.name, value: Some(header.value) })
}

proof fn lemma_header_bytes_prefix(headers: Seq<HeaderText>, k: int)
    requires
        0 <= k <= headers.len(),
    ensures
        header_bytes(headers.take(k)) <= header_bytes(headers),
    decreases headers.len(),
{
    if k == headers.len() {
        assert(headers.take(k) == headers);
    } else {
        lemma_header_bytes_prefix(headers.drop_last(), k);
        assert(headers.drop_last().take(k) == headers.take(k));
    }
}

proof fn lemma_customs_ready(
    base: Seq<WireHeader>,
    e: EnvelopeModel,
    limits: HeaderLimits,
    k: int,
)
    requires
        ready(base, e, limits, 17),
        within_contract(e.metadata.headers, limits),
        !custom_misfit(e.metadata.headers),
        0 <= k <= e.metadata.headers.len(),
    ensures
        ({
            let all = base + custom_headers(e.metadata.headers.take(k));
            &&& checked(all, limits)
            &&& custom_bytes(plain(all)) == header_bytes(e.metadata.headers.take(k))
            &&& customs(plain(all)) == as_customs(e.metadata.headers.take(k))
            &&& written_up_to(all, e, 17)
        }),
    decreases k,
{
    let headers = e.metadata.headers;
    let all = base + custom_headers(headers.take(k));

    if k == 0 {
        assert(all =~= base);
        assert(customs(plain(all)) =~= as_customs(headers.take(0)));
        assert(headers.take(0).len() == 0);
    } else {
        let before = base + custom_headers(headers.take(k - 1));
        let header = headers[k - 1];
        let wire = WireHeader { name: header.name, value: bytes_of(header.value) };
        let field = Field { name: wire.name, value: wire.value, accepted: true };
        let names = header_names(headers);
        lemma_customs_ready(base, e, limits, k - 1);

        assert(fits(headers[k - 1].value));
        assert(all =~= before.push(wire));
        assert(all.drop_last() =~= before);
        assert(all_accepted(all.len()).drop_last() =~= all_accepted(before.len()));
        assert(plain(all) =~= plain(before).push(field));
        assert(plain(all).drop_last() =~= plain(before));
        assert(headers.take(k).drop_last() =~= headers.take(k - 1));
        assert(headers.take(k).last() == header);
        lemma_header_bytes_prefix(headers, k);

        assert forall|i: int| 0 <= i < plain(before).len() implies (#[trigger] plain(
            before,
        )[i]).name != field.name by {
            if i < base.len() {
                assert(named_before(base[i], 17));
                assert(before[i] == base[i]);
            } else {
                let j = i - base.len();
                assert(before[i].name == headers[j].name);
                assert(names[j] == headers[j].name && names[k - 1] == header.name);
                lemma_precedes_irreflexive(bytes_of(header.name));
            }
        }
        lemma_find_none(plain(before), field.name);

        encode_utf8_valid_utf8(header.value);
        encode_utf8_decode_utf8(header.value);
        assert(custom_text(field) == Some(header.value));

        let listed = custom_names(as_customs(headers.take(k - 1)));
        assert(listed =~= names.take(k - 1));
        assert(ascending(listed.push(header.name))) by {
            assert forall|x: int, y: int| 0 <= x < y < listed.push(header.name).len() implies
                crate::text::precedes(
                    bytes_of(#[trigger] listed.push(header.name)[x]),
                    bytes_of(#[trigger] listed.push(header.name)[y]),
                ) by {
                assert(listed.push(header.name)[x] == names[x]);
                assert(listed.push(header.name)[y] == names[y]);
            }
        }
        lemma_slot_at_end(listed, header.name);
        assert(customs(plain(all)) =~= as_customs(headers.take(k)));

        assert forall|known: FrameworkHeader| #[trigger] wire_position(known) < 17 implies holds(
            plain(all),
            known,
            written_text(e, known),
        ) by {
            assert(framework_name(known) != field.name);
            lemma_find_push(plain(before), field, framework_name(known));
            assert(holds(plain(before), known, written_text(e, known)));
        }
    }
}

proof fn lemma_read_text(fields: Seq<Field>, header: FrameworkHeader, text: Option<Seq<char>>)
    requires
        holds(fields, header, text),
    ensures
        raw_text(fields, header) == Ok::<_, IggyMappingError>(text),
        valid_text(fields, header) == Ok::<_, IggyMappingError>(text),
{
    if let Some(text) = text {
        encode_utf8_valid_utf8(text);
        encode_utf8_decode_utf8(text);
    }
}

proof fn lemma_read_id(fields: Seq<Field>, header: FrameworkHeader, id: Option<u128>)
    requires
        holds(fields, header, id_text(id)),
    ensures
        valid_id(fields, header) == Ok::<_, IggyMappingError>(id),
{
    lemma_read_text(fields, header, id_text(id));
    if let Some(id) = id {
        law_uuid_round_trip(id);
    }
}

proof fn lemma_read_number(
    fields: Seq<Field>,
    header: FrameworkHeader,
    number: Option<u64>,
    max: nat,
)
    requires
        holds(fields, header, number_text(number)),
        number matches Some(number) ==> number <= max,
    ensures
        valid_number(fields, header, max) == Ok::<_, IggyMappingError>(
            match number {
                Some(number) => Some(number as nat),
                None => None,
            },
        ),
{
    lemma_read_text(fields, header, number_text(number));
    if let Some(number) = number {
        law_decimal_round_trip(number as nat, max);
    }
}

/// An envelope as it comes back from the wire: a `tracestate` that does not fit is dropped.
pub open spec fn as_carried(e: EnvelopeModel) -> EnvelopeModel {
    EnvelopeModel {
        metadata: MetadataModel { tracestate: written_tracestate(e), ..e.metadata },
        ..e
    }
}

/// Every framework header of a carried envelope reads as it was written.
proof fn lemma_reads(fields: Seq<Field>, e: EnvelopeModel)
    requires
        forall|header: FrameworkHeader| holds(fields, header, #[trigger] written_text(e, header)),
    ensures
        valid_id(fields, FrameworkHeader::MessageId) == Ok::<_, IggyMappingError>(
            Some(e.message_id.value),
        ),
        valid_text(fields, FrameworkHeader::MessageType) == Ok::<_, IggyMappingError>(
            Some(e.message_type),
        ),
        valid_number(fields, FrameworkHeader::MessageVersion, u32::MAX as nat) == Ok::<
            _,
            IggyMappingError,
        >(Some(e.message_version as nat)),
        valid_text(fields, FrameworkHeader::ContentType) == Ok::<_, IggyMappingError>(
            Some(e.content_type),
        ),
        valid_text(fields, FrameworkHeader::OrderingKey) == Ok::<_, IggyMappingError>(
            e.ordering_key,
        ),
        !context_malformed(fields),
        forall|headers: Seq<HeaderText>| #[trigger]
            metadata_of(fields, headers) == (MetadataModel {
                tracestate: written_tracestate(e),
                headers,
                ..e.metadata
            }),
{
    assert(written_text(e, FrameworkHeader::MessageId) == id_text(Some(e.message_id.value)));
    lemma_read_id(fields, FrameworkHeader::MessageId, Some(e.message_id.value));
    lemma_read_text(fields, FrameworkHeader::MessageType, written_text(e, FrameworkHeader::MessageType));
    assert(written_text(e, FrameworkHeader::MessageVersion) == number_text(Some(e.message_version as u64)));
    lemma_read_number(
        fields,
        FrameworkHeader::MessageVersion,
        Some(e.message_version as u64),
        u32::MAX as nat,
    );
    lemma_read_text(fields, FrameworkHeader::ContentType, written_text(e, FrameworkHeader::ContentType));
    lemma_read_text(fields, FrameworkHeader::OrderingKey, written_text(e, FrameworkHeader::OrderingKey));
    lemma_read_text(fields, FrameworkHeader::CorrelationId, written_text(e, FrameworkHeader::CorrelationId));
    assert(written_text(e, FrameworkHeader::ConversationId) == id_text(conversation(e)));
    lemma_read_id(fields, FrameworkHeader::ConversationId, conversation(e));
    assert(written_text(e, FrameworkHeader::CausationId) == id_text(causation(e)));
    lemma_read_id(fields, FrameworkHeader::CausationId, causation(e));
    assert(written_text(e, FrameworkHeader::RequestId) == id_text(request(e)));
    lemma_read_id(fields, FrameworkHeader::RequestId, request(e));
    lemma_read_text(fields, FrameworkHeader::Source, written_text(e, FrameworkHeader::Source));
    lemma_read_text(fields, FrameworkHeader::Destination, written_text(e, FrameworkHeader::Destination));
    lemma_read_text(fields, FrameworkHeader::ReplyTo, written_text(e, FrameworkHeader::ReplyTo));
    assert(written_text(e, FrameworkHeader::SentAtMs) == number_text(e.metadata.sent_at_ms));
    lemma_read_number(
        fields,
        FrameworkHeader::SentAtMs,
        e.metadata.sent_at_ms,
        u64::MAX as nat,
    );
    lemma_read_text(fields, FrameworkHeader::DeduplicationId, written_text(e, FrameworkHeader::DeduplicationId));
    lemma_read_text(fields, FrameworkHeader::TenantId, written_text(e, FrameworkHeader::TenantId));
    lemma_read_text(fields, FrameworkHeader::Traceparent, written_text(e, FrameworkHeader::Traceparent));
    lemma_read_text(fields, FrameworkHeader::Tracestate, written_text(e, FrameworkHeader::Tracestate));
}

proof fn lemma_taken(fields: Seq<Field>, headers: Seq<HeaderText>, max_count: nat)
    requires
        customs(fields) == as_customs(headers),
        headers.len() <= max_count,
    ensures
        taken_customs(customs(fields), max_count) == Ok::<_, IggyMappingError>(headers),
{
    let listed = customs(fields);
    assert forall|i: int| 0 <= i < listed.len() implies (#[trigger] listed[i]).value is Some by {
        assert(listed[i] == as_customs(headers)[i]);
    }
    assert(listed.map_values(
        |custom: Custom| HeaderText { name: custom.name, value: custom.value->Some_0 },
    ) =~= headers);
}

/// A record whose checked headers hold what an envelope writes decodes to the envelope.
proof fn lemma_decodes(
    record: WireRecord,
    fields: Seq<Field>,
    e: EnvelopeModel,
    limits: HeaderLimits,
)
    requires
        record.id == e.message_id.value,
        record.payload == e.payload,
        record.key matches Some(key) ==> e.ordering_key is Some && key == bytes_of(
            e.ordering_key->Some_0,
        ),
        forall|header: FrameworkHeader| holds(fields, header, #[trigger] written_text(e, header)),
        customs(fields) == as_customs(e.metadata.headers),
        e.metadata.headers.len() <= limits.max_count,
    ensures
        decoded_fields(record, fields, limits) == Ok::<_, IggyMappingError>(as_carried(e)),
{
    let headers = e.metadata.headers;
    lemma_reads(fields, e);
    lemma_taken(fields, headers, limits.max_count as nat);
    assert(metadata_of(fields, headers) =~= as_carried(e).metadata);
}

/// The headers of an encoded envelope are valid, and hold what the envelope writes.
pub proof fn lemma_encoded_headers(e: EnvelopeModel, limits: HeaderLimits)
    requires
        encoded(e) is Ok,
        within_contract(e.metadata.headers, limits),
    ensures
        ({
            let headers = encoded(e)->Ok_0.headers;
            &&& checked(headers, limits)
            &&& headers.len() <= FRAMEWORK_HEADER_COUNT + limits.max_count
            &&& customs(plain(headers)) == as_customs(e.metadata.headers)
            &&& forall|header: FrameworkHeader|
                holds(plain(headers), header, #[trigger] written_text(e, header))
        }),
{
    let record = encoded(e)->Ok_0;
    let base = framework_headers(e);
    let headers = e.metadata.headers;
    let count = headers.len() as int;
    lemma_framework_ready(e, limits);
    lemma_customs_ready(base, e, limits, count);
    assert(headers.take(count) =~= headers);

    assert forall|header: FrameworkHeader| holds(
        plain(record.headers),
        header,
        #[trigger] written_text(e, header),
    ) by {
        assert(wire_position(header) < 17);
    }
}

/// Decoding an encoded envelope gives the envelope back.
///
/// The application headers are within the shared contract, and the contract accepts every name
/// and value, as it did when the envelope was made. Only a `tracestate` too long for a header
/// field is lost.
pub proof fn law_envelope_round_trip(e: EnvelopeModel, limits: HeaderLimits)
    requires
        encoded(e) is Ok,
        within_contract(e.metadata.headers, limits),
    ensures
        decoded(
            encoded(e)->Ok_0,
            all_accepted(encoded(e)->Ok_0.headers.len()),
            limits,
        ) == Ok::<_, IggyMappingError>(as_carried(e)),
{
    let record = encoded(e)->Ok_0;
    lemma_encoded_headers(e, limits);
    lemma_decodes(record, plain(record.headers), e, limits);
}

} // verus!
