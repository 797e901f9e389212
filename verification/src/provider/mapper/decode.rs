//! Reading an envelope back from a wire record.

use crate::envelope::{
    optional_text, ConversationId, CorrelationMetadata, DeliveryMetadata, EnvelopeModel, MessageId,
    Metadata, MetadataModel, RequestId, RoutingMetadata, SerializedEnvelope, TraceMetadata,
};
use crate::headers::{
    ascending, header_names, lemma_slot_at_end, lemma_slot_keeps_ascending, slot, slot_of, texts,
    HeaderLimits, HeaderText, Headers,
};
use crate::ids::{parse_uuid, parsed_uuid};
use crate::provider::error::IggyMappingError;
use crate::provider::mapper::framework::{framework_name, is_framework_name, FrameworkHeader};
use crate::provider::mapper::normalize::{
    distinct, fields_of, find, find_header, lemma_checked_distinct, normalize_headers, normalized,
    Field, HeaderVerdict, NormalHeader,
};
use crate::provider::mapper::record::{IggyRecord, WireRecord};
use crate::text::{bytes_of, parse_decimal, parsed_decimal, same_bytes};
use vstd::prelude::*;
use vstd::utf8::{decode_utf8, valid_utf8};

verus! {

/// The text of a framework header, if the header is there. Bytes that are not text are an error.
pub open spec fn raw_text(fields: Seq<Field>, header: FrameworkHeader) -> Result<
    Option<Seq<char>>,
    IggyMappingError,
> {
    match find(fields, framework_name(header)) {
        None => Ok(None),
        Some(field) => if valid_utf8(field.value) {
            Ok(Some(decode_utf8(field.value)))
        } else {
            Err(IggyMappingError::InvalidFrameworkValue)
        },
    }
}

/// The text of a framework header that the shared contract must accept.
pub open spec fn valid_text(fields: Seq<Field>, header: FrameworkHeader) -> Result<
    Option<Seq<char>>,
    IggyMappingError,
> {
    match find(fields, framework_name(header)) {
        None => Ok(None),
        Some(field) => if valid_utf8(field.value) && field.accepted {
            Ok(Some(decode_utf8(field.value)))
        } else {
            Err(IggyMappingError::InvalidFrameworkValue)
        },
    }
}

/// The identity that a framework header holds.
pub open spec fn valid_id(fields: Seq<Field>, header: FrameworkHeader) -> Result<
    Option<u128>,
    IggyMappingError,
> {
    match raw_text(fields, header) {
        Err(error) => Err(error),
        Ok(None) => Ok(None),
        Ok(Some(text)) => match parsed_uuid(text) {
            Some(id) => Ok(Some(id)),
            None => Err(IggyMappingError::InvalidFrameworkValue),
        },
    }
}

/// The number, at most `max`, that a framework header holds.
pub open spec fn valid_number(fields: Seq<Field>, header: FrameworkHeader, max: nat) -> Result<
    Option<nat>,
    IggyMappingError,
> {
    match raw_text(fields, header) {
        Err(error) => Err(error),
        Ok(None) => Ok(None),
        Ok(Some(text)) => match parsed_decimal(text, max) {
            Some(number) => Ok(Some(number)),
            None => Err(IggyMappingError::InvalidFrameworkValue),
        },
    }
}

/// A value that must be there.
pub open spec fn required<T>(value: Result<Option<T>, IggyMappingError>) -> Result<
    T,
    IggyMappingError,
> {
    match value {
        Ok(Some(value)) => Ok(value),
        Ok(None) => Err(IggyMappingError::MissingRequiredHeader),
        Err(error) => Err(error),
    }
}

/// An application header: its name, and its value if that is valid text.
pub struct Custom {
    pub name: Seq<char>,
    pub value: Option<Seq<char>>,
}

/// The names of a list of application headers.
pub open spec fn custom_names(customs: Seq<Custom>) -> Seq<Seq<char>> {
    customs.map_values(|custom: Custom| custom.name)
}

/// An application header value, if it is valid text.
pub open spec fn custom_text(field: Field) -> Option<Seq<char>> {
    if valid_utf8(field.value) && field.accepted {
        Some(decode_utf8(field.value))
    } else {
        None
    }
}

/// The application headers of a record, in byte order of their names.
pub open spec fn customs(fields: Seq<Field>) -> Seq<Custom>
    decreases fields.len(),
{
    if fields.len() == 0 {
        seq![]
    } else {
        let before = customs(fields.drop_last());
        let field = fields.last();

        if is_framework_name(field.name) {
            before
        } else {
            before.insert(
                slot(custom_names(before), field.name),
                Custom { name: field.name, value: custom_text(field) },
            )
        }
    }
}

/// The application headers in name order, of which no more than `max_count` may be taken: an
/// invalid value among the first of them, up to the one that is too many, is reported before
/// their number is.
pub open spec fn taken_customs(customs: Seq<Custom>, max_count: nat) -> Result<
    Seq<HeaderText>,
    IggyMappingError,
> {
    if exists|i: int| 0 <= i < customs.len() && i <= max_count && (#[trigger] customs[i]).value is None {
        Err(IggyMappingError::InvalidHeader)
    } else if customs.len() > max_count {
        Err(IggyMappingError::HeaderBoundsExceeded)
    } else {
        Ok(
            customs.map_values(
                |custom: Custom| HeaderText { name: custom.name, value: custom.value->Some_0 },
            ),
        )
    }
}

/// Some framework header behind the ordering key is malformed.
pub open spec fn context_malformed(fields: Seq<Field>) -> bool {
    ||| valid_text(fields, FrameworkHeader::CorrelationId) is Err
    ||| valid_id(fields, FrameworkHeader::ConversationId) is Err
    ||| valid_id(fields, FrameworkHeader::CausationId) is Err
    ||| valid_id(fields, FrameworkHeader::RequestId) is Err
    ||| valid_text(fields, FrameworkHeader::Source) is Err
    ||| valid_text(fields, FrameworkHeader::Destination) is Err
    ||| valid_text(fields, FrameworkHeader::ReplyTo) is Err
    ||| valid_number(fields, FrameworkHeader::SentAtMs, u64::MAX as nat) is Err
    ||| valid_text(fields, FrameworkHeader::DeduplicationId) is Err
    ||| valid_text(fields, FrameworkHeader::TenantId) is Err
    ||| valid_text(fields, FrameworkHeader::Traceparent) is Err
    ||| valid_text(fields, FrameworkHeader::Tracestate) is Err
}

/// The conversation with the given identity.
pub open spec fn conversation_of(id: Option<u128>) -> Option<ConversationId> {
    match id {
        Some(value) => Some(ConversationId { value }),
        None => None,
    }
}

/// The message with the given identity.
pub open spec fn message_of(id: Option<u128>) -> Option<MessageId> {
    match id {
        Some(value) => Some(MessageId { value }),
        None => None,
    }
}

/// The request with the given identity.
pub open spec fn request_of(id: Option<u128>) -> Option<RequestId> {
    match id {
        Some(value) => Some(RequestId { value }),
        None => None,
    }
}

/// The metadata that well-formed headers hold.
pub open spec fn metadata_of(fields: Seq<Field>, headers: Seq<HeaderText>) -> MetadataModel {
    MetadataModel {
        correlation_id: valid_text(fields, FrameworkHeader::CorrelationId)->Ok_0,
        conversation_id: conversation_of(valid_id(fields, FrameworkHeader::ConversationId)->Ok_0),
        causation_id: message_of(valid_id(fields, FrameworkHeader::CausationId)->Ok_0),
        request_id: request_of(valid_id(fields, FrameworkHeader::RequestId)->Ok_0),
        traceparent: valid_text(fields, FrameworkHeader::Traceparent)->Ok_0,
        tracestate: valid_text(fields, FrameworkHeader::Tracestate)->Ok_0,
        source: valid_text(fields, FrameworkHeader::Source)->Ok_0,
        destination: valid_text(fields, FrameworkHeader::Destination)->Ok_0,
        reply_to: valid_text(fields, FrameworkHeader::ReplyTo)->Ok_0,
        sent_at_ms: match valid_number(
            fields,
            FrameworkHeader::SentAtMs,
            u64::MAX as nat,
        )->Ok_0 {
            Some(number) => Some(number as u64),
            None => None,
        },
        deduplication_id: valid_text(fields, FrameworkHeader::DeduplicationId)->Ok_0,
        tenant_id: valid_text(fields, FrameworkHeader::TenantId)->Ok_0,
        headers,
    }
}

/// The envelope of a record whose headers are checked, or the first thing wrong with it.
pub open spec fn decoded_fields(
    record: WireRecord,
    fields: Seq<Field>,
    limits: HeaderLimits,
) -> Result<EnvelopeModel, IggyMappingError> {
    let id = required(valid_id(fields, FrameworkHeader::MessageId));
    let message_type = required(valid_text(fields, FrameworkHeader::MessageType));
    let version = required(valid_number(fields, FrameworkHeader::MessageVersion, u32::MAX as nat));
    let content_type = required(valid_text(fields, FrameworkHeader::ContentType));
    let ordering_key = valid_text(fields, FrameworkHeader::OrderingKey);
    let headers = taken_customs(customs(fields), limits.max_count as nat);

    if id is Err {
        Err(id->Err_0)
    } else if id->Ok_0 != record.id {
        Err(IggyMappingError::InvalidRecordId)
    } else if message_type is Err {
        Err(message_type->Err_0)
    } else if version is Err {
        Err(version->Err_0)
    } else if content_type is Err {
        Err(content_type->Err_0)
    } else if ordering_key is Err {
        Err(ordering_key->Err_0)
    } else if record.key is Some && !(ordering_key->Ok_0 is Some && bytes_of(
        ordering_key->Ok_0->Some_0,
    ) == record.key->Some_0) {
        Err(IggyMappingError::InvalidRecordKey)
    } else if context_malformed(fields) {
        Err(IggyMappingError::InvalidFrameworkValue)
    } else if headers is Err {
        Err(headers->Err_0)
    } else {
        Ok(
            EnvelopeModel {
                message_id: MessageId { value: id->Ok_0 },
                message_type: message_type->Ok_0,
                message_version: version->Ok_0 as u32,
                content_type: content_type->Ok_0,
                payload: record.payload,
                metadata: metadata_of(fields, headers->Ok_0),
                ordering_key: ordering_key->Ok_0,
            },
        )
    }
}

/// The envelope of a wire record, or why it has none.
pub open spec fn decoded(
    record: WireRecord,
    verdicts: Seq<HeaderVerdict>,
    limits: HeaderLimits,
) -> Result<EnvelopeModel, IggyMappingError> {
    match normalized(record.headers, verdicts, limits) {
        Ok(fields) => decoded_fields(record, fields, limits),
        Err(error) => Err(error),
    }
}

/// Reads the text of a framework header.
fn read_raw(headers: &Vec<NormalHeader>, header: FrameworkHeader) -> (text: Result<
    Option<String>,
    IggyMappingError,
>)
    ensures
        match text {
            Ok(text) => raw_text(fields_of(headers@), header) == Ok::<_, IggyMappingError>(
                optional_text(text),
            ),
            Err(error) => raw_text(fields_of(headers@), header) == Err::<Option<Seq<char>>, _>(
                error,
            ),
        },
{
    match find_header(headers, header.name()) {
        None => Ok(None),
        Some(found) => {
            let bytes = found.value.clone();
            assert(bytes@ =~= found.value@);

            match String::from_utf8(bytes) {
                Ok(text) => Ok(Some(text)),
                Err(_) => Err(IggyMappingError::InvalidFrameworkValue),
            }
        },
    }
}

/// Reads the text of a framework header that the shared contract must accept.
fn read_text(headers: &Vec<NormalHeader>, header: FrameworkHeader) -> (text: Result<
    Option<String>,
    IggyMappingError,
>)
    ensures
        match text {
            Ok(text) => valid_text(fields_of(headers@), header) == Ok::<_, IggyMappingError>(
                optional_text(text),
            ),
            Err(error) => valid_text(fields_of(headers@), header) == Err::<Option<Seq<char>>, _>(
                error,
            ),
        },
{
    match find_header(headers, header.name()) {
        None => Ok(None),
        Some(found) => {
            if !found.accepted {
                return Err(IggyMappingError::InvalidFrameworkValue);
            }

            let bytes = found.value.clone();
            assert(bytes@ =~= found.value@);

            match String::from_utf8(bytes) {
                Ok(text) => Ok(Some(text)),
                Err(_) => Err(IggyMappingError::InvalidFrameworkValue),
            }
        },
    }
}

/// Reads the identity that a framework header holds.
fn read_id(headers: &Vec<NormalHeader>, header: FrameworkHeader) -> (id: Result<
    Option<u128>,
    IggyMappingError,
>)
    ensures
        id == valid_id(fields_of(headers@), header),
{
    match read_raw(headers, header)? {
        None => Ok(None),
        Some(text) => match parse_uuid(text.as_str()) {
            Some(id) => Ok(Some(id)),
            None => Err(IggyMappingError::InvalidFrameworkValue),
        },
    }
}

/// Reads the number that a framework header holds.
fn read_number(headers: &Vec<NormalHeader>, header: FrameworkHeader, max: u64) -> (number: Result<
    Option<u64>,
    IggyMappingError,
>)
    ensures
        match number {
            Ok(Some(number)) => valid_number(fields_of(headers@), header, max as nat) == Ok::<
                _,
                IggyMappingError,
            >(Some(number as nat)),
            Ok(None) => valid_number(fields_of(headers@), header, max as nat) == Ok::<
                _,
                IggyMappingError,
            >(None::<nat>),
            Err(error) => valid_number(fields_of(headers@), header, max as nat) == Err::<
                Option<nat>,
                _,
            >(error),
        },
        number matches Ok(Some(number)) ==> number <= max,
{
    match read_raw(headers, header)? {
        None => Ok(None),
        Some(text) => match parse_decimal(text.as_str(), max) {
            Some(number) => Ok(Some(number)),
            None => Err(IggyMappingError::InvalidFrameworkValue),
        },
    }
}

/// Application headers in name order, with the values that are valid text.
struct CustomList {
    names: Vec<String>,
    values: Vec<Option<String>>,
}

impl CustomList {
    spec fn wf(&self) -> bool {
        self.names@.len() == self.values@.len()
    }

    spec fn model(&self) -> Seq<Custom> {
        Seq::new(
            self.names@.len(),
            |i: int| Custom { name: self.names@[i]@, value: optional_text(self.values@[i]) },
        )
    }
}

/// The application headers among `headers`, put in name order.
fn collect_customs(headers: &Vec<NormalHeader>) -> (list: CustomList)
    ensures
        list.wf(),
        list.model() == customs(fields_of(headers@)),
{
    let ghost fields = fields_of(headers@);
    let mut list = CustomList { names: Vec::new(), values: Vec::new() };
    let mut i: usize = 0;
    assert(fields.take(0) == Seq::<Field>::empty());
    assert(list.model() =~= Seq::<Custom>::empty());

    while i < headers.len()
        invariant
            i <= headers@.len(),
            fields == fields_of(headers@),
            list.wf(),
            list.model() == customs(fields.take(i as int)),
        decreases headers@.len() - i,
    {
        let header = &headers[i];
        let ghost before = list.model();
        proof {
            assert(fields.take(i + 1).drop_last() == fields.take(i as int));
            assert(fields.take(i + 1).last() == header@);
        }

        if FrameworkHeader::from_name(header.name.as_str()).is_none() {
            let bytes = header.value.clone();
            assert(bytes@ =~= header.value@);
            let value = match String::from_utf8(bytes) {
                Ok(text) => if header.accepted {
                    Some(text)
                } else {
                    None
                },
                Err(_) => None,
            };
            let at = slot_of(&list.names, header.name.as_str());
            assert(texts(list.names@) =~= custom_names(before));
            let name = header.name.clone();
            list.names.insert(at, name);
            list.values.insert(at, value);
            assert(list.model() =~= before.insert(
                at as int,
                Custom { name: header@.name, value: custom_text(header@) },
            ));
        }
        i = i + 1;
    }

    assert(fields.take(i as int) == fields);
    list
}

/// Application headers of a record without repeated names are in strictly ascending order.
pub proof fn lemma_customs_ascending(fields: Seq<Field>)
    requires
        distinct(fields),
    ensures
        ascending(custom_names(customs(fields))),
        forall|name: Seq<char>|
            #[trigger] custom_names(customs(fields)).contains(name) ==> find(fields, name) is Some,
    decreases fields.len(),
{
    if fields.len() > 0 {
        let before = customs(fields.drop_last());
        let field = fields.last();
        let after = customs(fields);
        lemma_customs_ascending(fields.drop_last());

        if !is_framework_name(field.name) {
            let at = slot(custom_names(before), field.name);
            lemma_slot_keeps_ascending(custom_names(before), field.name);
            assert(custom_names(after) =~= custom_names(before).insert(at, field.name));
        }
        assert forall|name: Seq<char>| #[trigger]
            custom_names(after).contains(name) implies find(fields, name) is Some by {
            if name != field.name {
                let i = choose|i: int|
                    0 <= i < custom_names(after).len() && custom_names(after)[i] == name;
                if !is_framework_name(field.name) {
                    let at = slot(custom_names(before), field.name);
                    if i < at {
                        assert(custom_names(before)[i] == name);
                    } else {
                        assert(custom_names(before)[i - 1] == name);
                    }
                }
                assert(custom_names(before).contains(name));
            }
        }
    }
}

/// Takes application headers in name order, up to `max_count` of them.
fn take_customs(list: CustomList, max_count: usize) -> (headers: Result<Headers, IggyMappingError>)
    requires
        list.wf(),
        ascending(custom_names(list.model())),
    ensures
        match headers {
            Ok(headers) => taken_customs(list.model(), max_count as nat) == Ok::<
                _,
                IggyMappingError,
            >(headers@),
            Err(error) => taken_customs(list.model(), max_count as nat) == Err::<
                Seq<HeaderText>,
                _,
            >(error),
        },
{
    let ghost all = list.model();
    let mut headers = Headers::new();
    let mut i: usize = 0;

    while i < list.names.len()
        invariant
            list.wf(),
            all == list.model(),
            ascending(custom_names(all)),
            i <= all.len(),
            i <= max_count,
            forall|k: int| 0 <= k < i ==> (#[trigger] all[k]).value is Some,
            headers@ == all.take(i as int).map_values(
                |custom: Custom| HeaderText { name: custom.name, value: custom.value->Some_0 },
            ),
        decreases all.len() - i,
    {
        assert(all[i as int] == Custom {
            name: list.names@[i as int]@,
            value: optional_text(list.values@[i as int]),
        });

        let value = match &list.values[i] {
            Some(value) => value.clone(),
            None => {
                return Err(IggyMappingError::InvalidHeader);
            },
        };

        if i == max_count {
            assert(all[i as int].value is Some);
            return Err(IggyMappingError::HeaderBoundsExceeded);
        }

        let name = list.names[i].clone();
        let ghost before = header_names(headers@);
        let ghost names = custom_names(all);
        proof {
            assert(before =~= names.take(i as int));
            assert(names.take(i + 1) =~= before.push(name@));
            assert(ascending(before.push(name@))) by {
                assert forall|x: int, y: int| 0 <= x < y < before.push(name@).len() implies
                    crate::text::precedes(
                        bytes_of(#[trigger] before.push(name@)[x]),
                        bytes_of(#[trigger] before.push(name@)[y]),
                    ) by {
                    assert(before.push(name@)[x] == names[x]);
                    assert(before.push(name@)[y] == names[y]);
                }
            }
            lemma_slot_at_end(before, name@);
            assert(!before.contains(name@)) by {
                if before.contains(name@) {
                    let x = choose|x: int| 0 <= x < before.len() && before[x] == name@;
                    assert(names[x] == name@ && names[i as int] == name@);
                    crate::text::lemma_precedes_irreflexive(bytes_of(name@));
                }
            }
        }
        let ghost list_before = headers@;
        let added = headers.insert(name, value);
        proof {
            assert(headers@ =~= list_before.push(HeaderText { name: name@, value: value@ }));
            assert(headers@ =~= all.take(i + 1).map_values(
                |custom: Custom| HeaderText { name: custom.name, value: custom.value->Some_0 },
            ));
        }
        i = i + 1;
    }

    assert(all.take(i as int) =~= all);
    Ok(headers)
}

/// Turns an absent value into the error for a missing required header.
fn require<T>(value: Option<T>) -> (present: Result<T, IggyMappingError>)
    ensures
        present == required(Ok::<_, IggyMappingError>(value)),
{
    match value {
        Some(value) => Ok(value),
        None => Err(IggyMappingError::MissingRequiredHeader),
    }
}

/// Reads everything beside the message's own description.
fn read_metadata(fields: &Vec<NormalHeader>, limits: HeaderLimits) -> (metadata: Result<
    Metadata,
    IggyMappingError,
>)
    requires
        distinct(fields_of(fields@)),
    ensures
        match metadata {
            Ok(metadata) => {
                let taken = taken_customs(customs(fields_of(fields@)), limits.max_count as nat);
                &&& !context_malformed(fields_of(fields@))
                &&& taken is Ok
                &&& metadata@ == metadata_of(fields_of(fields@), taken->Ok_0)
            },
            Err(error) => {
                let taken = taken_customs(customs(fields_of(fields@)), limits.max_count as nat);
                if context_malformed(fields_of(fields@)) {
                    error == IggyMappingError::InvalidFrameworkValue
                } else {
                    taken == Err::<Seq<HeaderText>, _>(error)
                }
            },
        },
{
    let correlation_id = read_text(fields, FrameworkHeader::CorrelationId)?;
    let conversation_id = read_id(fields, FrameworkHeader::ConversationId)?;
    let causation_id = read_id(fields, FrameworkHeader::CausationId)?;
    let request_id = read_id(fields, FrameworkHeader::RequestId)?;
    let source = read_text(fields, FrameworkHeader::Source)?;
    let destination = read_text(fields, FrameworkHeader::Destination)?;
    let reply_to = read_text(fields, FrameworkHeader::ReplyTo)?;
    let sent_at_ms = read_number(fields, FrameworkHeader::SentAtMs, u64::MAX)?;
    let deduplication_id = read_text(fields, FrameworkHeader::DeduplicationId)?;
    let tenant_id = read_text(fields, FrameworkHeader::TenantId)?;
    let traceparent = read_text(fields, FrameworkHeader::Traceparent)?;
    let tracestate = read_text(fields, FrameworkHeader::Tracestate)?;

    proof {
        lemma_customs_ascending(fields_of(fields@));
    }
    let list = collect_customs(fields);
    let headers = take_customs(list, limits.max_count)?;

    Ok(
        Metadata {
            correlation: CorrelationMetadata {
                correlation_id,
                conversation_id: match conversation_id {
                    Some(value) => Some(ConversationId { value }),
                    None => None,
                },
                causation_id: match causation_id {
                    Some(value) => Some(MessageId { value }),
                    None => None,
                },
                request_id: match request_id {
                    Some(value) => Some(RequestId { value }),
                    None => None,
                },
            },
            trace: TraceMetadata { traceparent, tracestate },
            routing: RoutingMetadata { source, destination, reply_to },
            delivery: DeliveryMetadata { sent_at_ms, deduplication_id },
            tenant_id,
            headers,
        },
    )
}

/// Reads the envelope of an Iggy record.
///
/// `verdicts` holds, for each header of the record, what the shared envelope contract says of its
/// name and value, and `limits` its bounds on application headers.
///
/// Iggy does not return the messages-key on reads, so a record without a key is accepted
/// whatever its ordering-key header says. A record that does carry a key must agree with that
/// header.
pub fn decode(wire: IggyRecord, verdicts: &Vec<HeaderVerdict>, limits: HeaderLimits) -> (envelope:
    Result<SerializedEnvelope, IggyMappingError>)
    requires
        verdicts@.len() == wire.headers@.len(),
    ensures
        match envelope {
            Ok(envelope) => decoded(wire@, verdicts@, limits) == Ok::<_, IggyMappingError>(
                envelope@,
            ),
            Err(error) => decoded(wire@, verdicts@, limits) == Err::<EnvelopeModel, _>(error),
        },
{
    let IggyRecord { id, payload, headers, key } = wire;
    let values = normalize_headers(headers, verdicts, limits)?;
    let ghost fields = fields_of(values@);
    proof {
        lemma_checked_distinct(wire@.headers, verdicts@, limits);
    }

    let message_id = require(read_id(&values, FrameworkHeader::MessageId)?)?;

    if message_id != id {
        return Err(IggyMappingError::InvalidRecordId);
    }

    let message_type = require(read_text(&values, FrameworkHeader::MessageType)?)?;
    let message_version = require(
        read_number(&values, FrameworkHeader::MessageVersion, u32::MAX as u64)?,
    )?;
    let content_type = require(read_text(&values, FrameworkHeader::ContentType)?)?;
    let ordering_key = read_text(&values, FrameworkHeader::OrderingKey)?;

    if let Some(key) = &key {
        let matches_header = match &ordering_key {
            Some(value) => same_bytes(value.as_str().as_bytes(), key.as_slice()),
            None => false,
        };

        if !matches_header {
            return Err(IggyMappingError::InvalidRecordKey);
        }
    }

    let metadata = read_metadata(&values, limits)?;

    Ok(
        SerializedEnvelope {
            message_id: MessageId { value: message_id },
            message_type,
            message_version: message_version as u32,
            content_type,
            payload,
            metadata,
            ordering_key,
        },
    )
}

} // verus!
