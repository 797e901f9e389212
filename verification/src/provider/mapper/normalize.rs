//! Wire headers checked against the header rules, and read back by name.

use crate::headers::HeaderLimits;
use crate::provider::error::IggyMappingError;
use crate::provider::mapper::encode::MAX_HEADER_FIELD_BYTES;
use crate::provider::mapper::framework::{
    framework_name, is_framework_name, FrameworkHeader, FRAMEWORK_HEADER_COUNT,
};
use crate::provider::mapper::record::{wire_headers, IggyHeader, WireHeader};
use crate::text::{bytes_of, lower_text, lowercase, same_text};
use vstd::prelude::*;

verus! {

/// What the shared envelope contract says of one wire header.
#[derive(Clone, Copy, Debug, PartialEq, Eq, Structural)]
pub struct HeaderVerdict {
    /// Whether the name is a valid application header name. Only read for application headers,
    /// whose name is never empty.
    pub name_accepted: bool,

    /// Whether the value, if it is text, is valid under the rule that [`value_rule`] names.
    pub value_accepted: bool,
}

/// The rule of the shared envelope contract that a header's text must meet.
#[derive(Clone, Copy, Debug, PartialEq, Eq, Structural)]
pub enum ValueRule {
    /// Read by this library alone: an identity or a number.
    Parsed,

    /// A message type.
    MessageType,

    /// A content type.
    ContentType,

    /// An ordering key.
    OrderingKey,

    /// A metadata value.
    MetadataValue,

    /// A header value.
    HeaderValue,
}

/// The rule for the value of a framework header.
pub open spec fn framework_rule(header: FrameworkHeader) -> ValueRule {
    match header {
        FrameworkHeader::MessageType => ValueRule::MessageType,
        FrameworkHeader::ContentType => ValueRule::ContentType,
        FrameworkHeader::OrderingKey => ValueRule::OrderingKey,
        FrameworkHeader::Traceparent | FrameworkHeader::Tracestate => ValueRule::HeaderValue,
        FrameworkHeader::MessageId
        | FrameworkHeader::MessageVersion
        | FrameworkHeader::ConversationId
        | FrameworkHeader::CausationId
        | FrameworkHeader::RequestId
        | FrameworkHeader::SentAtMs => ValueRule::Parsed,
        _ => ValueRule::MetadataValue,
    }
}

/// Names the rule of the shared envelope contract for the value of the header called `name`.
pub fn value_rule(name: &str) -> (rule: ValueRule)
    ensures
        forall|header: FrameworkHeader|
            #[trigger] framework_name(header) == name@ ==> rule == framework_rule(header),
        !is_framework_name(name@) ==> rule == ValueRule::HeaderValue,
{
    match FrameworkHeader::from_name(name) {
        Some(header) => {
            assert forall|other: FrameworkHeader| #[trigger]
                framework_name(other) == name@ implies other == header by {
                crate::provider::mapper::framework::lemma_framework_names(other, header);
            }
            match header {
                FrameworkHeader::MessageType => ValueRule::MessageType,
                FrameworkHeader::ContentType => ValueRule::ContentType,
                FrameworkHeader::OrderingKey => ValueRule::OrderingKey,
                FrameworkHeader::Traceparent | FrameworkHeader::Tracestate => ValueRule::HeaderValue,
                FrameworkHeader::MessageId
                | FrameworkHeader::MessageVersion
                | FrameworkHeader::ConversationId
                | FrameworkHeader::CausationId
                | FrameworkHeader::RequestId
                | FrameworkHeader::SentAtMs => ValueRule::Parsed,
                _ => ValueRule::MetadataValue,
            }
        },
        None => ValueRule::HeaderValue,
    }
}

/// A checked header as mathematical values.
pub struct Field {
    /// The name in lower case.
    pub name: Seq<char>,

    /// The value bytes.
    pub value: Seq<u8>,

    /// Whether the value, if it is text, is valid.
    pub accepted: bool,
}

/// A checked header.
pub struct NormalHeader {
    /// The name in lower case.
    pub name: String,

    /// The value bytes.
    pub value: Vec<u8>,

    /// Whether the value, if it is text, is valid.
    pub accepted: bool,
}

impl View for NormalHeader {
    type V = Field;

    open spec fn view(&self) -> Field {
        Field { name: self.name@, value: self.value@, accepted: self.accepted }
    }
}

/// A list of checked headers as mathematical values.
pub open spec fn fields_of(headers: Seq<NormalHeader>) -> Seq<Field> {
    headers.map_values(|header: NormalHeader| header@)
}

/// The header with the given name.
pub open spec fn find(fields: Seq<Field>, name: Seq<char>) -> Option<Field>
    decreases fields.len(),
{
    if fields.len() == 0 {
        None
    } else if fields.last().name == name {
        Some(fields.last())
    } else {
        find(fields.drop_last(), name)
    }
}

/// The bytes that the names and values of the application headers have together.
pub open spec fn custom_bytes(fields: Seq<Field>) -> nat
    decreases fields.len(),
{
    if fields.len() == 0 {
        0
    } else {
        custom_bytes(fields.drop_last()) + (if is_framework_name(fields.last().name) {
            0
        } else {
            bytes_of(fields.last().name).len() + fields.last().value.len()
        })
    }
}

/// What a wire header adds to the headers checked before it.
pub open spec fn with_header(
    fields: Seq<Field>,
    header: WireHeader,
    verdict: HeaderVerdict,
    limits: HeaderLimits,
) -> Result<Seq<Field>, IggyMappingError> {
    let name = lower_text(header.name);
    let field = Field { name, value: header.value, accepted: verdict.value_accepted };

    if header.value.len() == 0 {
        Err(IggyMappingError::InvalidHeader)
    } else if is_framework_name(name) && header.name != name {
        Err(IggyMappingError::InvalidHeader)
    } else if is_framework_name(name) && header.value.len() > MAX_HEADER_FIELD_BYTES {
        Err(IggyMappingError::InvalidFrameworkValue)
    } else if !is_framework_name(name) && (name.len() == 0 || !verdict.name_accepted) {
        Err(IggyMappingError::InvalidHeader)
    } else if custom_bytes(fields.push(field)) > limits.max_bytes {
        Err(IggyMappingError::HeaderBoundsExceeded)
    } else if find(fields, name) is Some {
        Err(IggyMappingError::DuplicateHeader)
    } else {
        Ok(fields.push(field))
    }
}

/// Every wire header checked in turn.
pub open spec fn with_headers(
    headers: Seq<WireHeader>,
    verdicts: Seq<HeaderVerdict>,
    limits: HeaderLimits,
) -> Result<Seq<Field>, IggyMappingError>
    decreases headers.len(),
{
    if headers.len() == 0 {
        Ok(seq![])
    } else {
        match with_headers(headers.drop_last(), verdicts.drop_last(), limits) {
            Ok(fields) => with_header(fields, headers.last(), verdicts.last(), limits),
            Err(error) => Err(error),
        }
    }
}

/// The checked headers of a wire record, or what is wrong with them.
pub open spec fn normalized(
    headers: Seq<WireHeader>,
    verdicts: Seq<HeaderVerdict>,
    limits: HeaderLimits,
) -> Result<Seq<Field>, IggyMappingError> {
    if headers.len() > FRAMEWORK_HEADER_COUNT + limits.max_count {
        Err(IggyMappingError::HeaderBoundsExceeded)
    } else {
        with_headers(headers, verdicts, limits)
    }
}

proof fn lemma_with_headers_prefix(
    headers: Seq<WireHeader>,
    verdicts: Seq<HeaderVerdict>,
    limits: HeaderLimits,
    k: int,
)
    requires
        0 <= k <= headers.len(),
        headers.len() == verdicts.len(),
        with_headers(headers.take(k), verdicts.take(k), limits) is Err,
    ensures
        with_headers(headers, verdicts, limits) == with_headers(
            headers.take(k),
            verdicts.take(k),
            limits,
        ),
    decreases headers.len(),
{
    if k == headers.len() {
        assert(headers.take(k) == headers);
        assert(verdicts.take(k) == verdicts);
    } else {
        assert(headers.drop_last().take(k) == headers.take(k));
        assert(verdicts.drop_last().take(k) == verdicts.take(k));
        lemma_with_headers_prefix(headers.drop_last(), verdicts.drop_last(), limits, k);
    }
}

proof fn lemma_custom_bytes_push(fields: Seq<Field>, field: Field)
    ensures
        custom_bytes(fields.push(field)) == custom_bytes(fields) + (if is_framework_name(
            field.name,
        ) {
            0
        } else {
            bytes_of(field.name).len() + field.value.len()
        }),
{
    assert(fields.push(field).drop_last() == fields);
}

/// The header called `name`, if it is there.
pub fn find_header<'a>(headers: &'a Vec<NormalHeader>, name: &str) -> (found: Option<
    &'a NormalHeader,
>)
    ensures
        match found {
            Some(header) => find(fields_of(headers@), name@) == Some(header@),
            None => find(fields_of(headers@), name@) is None,
        },
{
    let ghost fields = fields_of(headers@);
    let mut i: usize = headers.len();
    assert(fields.take(i as int) == fields);

    while i > 0
        invariant
            i <= headers@.len(),
            fields == fields_of(headers@),
            find(fields, name@) == find(fields.take(i as int), name@),
        decreases i,
    {
        let header = &headers[i - 1];
        let ghost prefix = fields.take(i as int);
        assert(prefix.last() == header@);
        assert(prefix.drop_last() == fields.take(i - 1));

        if same_text(header.name.as_str(), name) {
            return Some(header);
        }
        i = i - 1;
    }

    None
}

/// Checks the headers of a wire record.
pub fn normalize_headers(
    headers: Vec<IggyHeader>,
    verdicts: &Vec<HeaderVerdict>,
    limits: HeaderLimits,
) -> (checked: Result<Vec<NormalHeader>, IggyMappingError>)
    requires
        verdicts@.len() == headers@.len(),
    ensures
        match checked {
            Ok(checked) => normalized(wire_headers(headers@), verdicts@, limits) == Ok::<
                _,
                IggyMappingError,
            >(fields_of(checked@)),
            Err(error) => normalized(wire_headers(headers@), verdicts@, limits) == Err::<
                Seq<Field>,
                _,
            >(error),
        },
{
    if headers.len() > FRAMEWORK_HEADER_COUNT && headers.len() - FRAMEWORK_HEADER_COUNT
        > limits.max_count {
        return Err(IggyMappingError::HeaderBoundsExceeded);
    }

    let ghost wires = wire_headers(headers@);
    let mut checked: Vec<NormalHeader> = Vec::new();
    let mut total_custom_bytes: usize = 0;
    let mut i: usize = 0;
    assert(wires.take(0) == Seq::<WireHeader>::empty());
    assert(fields_of(checked@) == Seq::<Field>::empty());

    while i < headers.len()
        invariant
            wires == wire_headers(headers@),
            verdicts@.len() == headers@.len(),
            wires.len() <= FRAMEWORK_HEADER_COUNT + limits.max_count,
            i <= headers@.len(),
            with_headers(wires.take(i as int), verdicts@.take(i as int), limits) == Ok::<
                _,
                IggyMappingError,
            >(fields_of(checked@)),
            total_custom_bytes == custom_bytes(fields_of(checked@)),
            total_custom_bytes <= limits.max_bytes,
        decreases headers@.len() - i,
    {
        let header = &headers[i];
        let verdict = verdicts[i];
        let ghost fields = fields_of(checked@);
        let ghost wire = wires[i as int];
        let ghost next = with_header(fields, wire, verdict, limits);
        proof {
            assert(wire == header@);
            assert(wires.take(i + 1).drop_last() == wires.take(i as int));
            assert(verdicts@.take(i + 1).drop_last() == verdicts@.take(i as int));
            assert(with_headers(wires.take(i + 1), verdicts@.take(i + 1), limits) == next);
            if next is Err {
                lemma_with_headers_prefix(wires, verdicts@, limits, i + 1);
            }
        }

        if header.value.len() == 0 {
            return Err(IggyMappingError::InvalidHeader);
        }

        let name = lowercase(header.name.as_str());
        let ghost field = Field {
            name: name@,
            value: header.value@,
            accepted: verdict.value_accepted,
        };
        proof {
            lemma_custom_bytes_push(fields, field);
        }

        if let Some(known) = FrameworkHeader::from_name(name.as_str()) {
            assert(is_framework_name(name@));

            if !same_text(header.name.as_str(), name.as_str()) {
                return Err(IggyMappingError::InvalidHeader);
            }

            if header.value.len() > MAX_HEADER_FIELD_BYTES {
                return Err(IggyMappingError::InvalidFrameworkValue);
            }
        } else {
            if name.as_str().is_empty() || !verdict.name_accepted {
                return Err(IggyMappingError::InvalidHeader);
            }

            let added = match name.as_str().as_bytes().len().checked_add(header.value.len()) {
                Some(added) => added,
                None => {
                    return Err(IggyMappingError::HeaderBoundsExceeded);
                },
            };

            if added > limits.max_bytes - total_custom_bytes {
                return Err(IggyMappingError::HeaderBoundsExceeded);
            }

            total_custom_bytes = total_custom_bytes + added;
        }

        if find_header(&checked, name.as_str()).is_some() {
            return Err(IggyMappingError::DuplicateHeader);
        }

        let value = header.value.clone();
        assert(value@ =~= header.value@);
        checked.push(NormalHeader { name, value, accepted: verdict.value_accepted });
        assert(fields_of(checked@) =~= fields.push(field));
        i = i + 1;
    }

    assert(wires.take(i as int) == wires);
    assert(verdicts@.take(i as int) == verdicts@);
    Ok(checked)
}

/// Headers of which no two share a name.
pub open spec fn distinct(fields: Seq<Field>) -> bool
    decreases fields.len(),
{
    fields.len() > 0 ==> distinct(fields.drop_last()) && find(
        fields.drop_last(),
        fields.last().name,
    ) is None
}

/// Checked headers never share a name.
pub proof fn lemma_checked_distinct(
    headers: Seq<WireHeader>,
    verdicts: Seq<HeaderVerdict>,
    limits: HeaderLimits,
)
    requires
        with_headers(headers, verdicts, limits) is Ok,
    ensures
        distinct(with_headers(headers, verdicts, limits)->Ok_0),
    decreases headers.len(),
{
    if headers.len() > 0 {
        lemma_checked_distinct(headers.drop_last(), verdicts.drop_last(), limits);
        let before = with_headers(headers.drop_last(), verdicts.drop_last(), limits)->Ok_0;
        let after = with_headers(headers, verdicts, limits)->Ok_0;
        assert(after.drop_last() == before);
    }
}

/// Which rule of the shared contract a framework header's value must meet: types, content types and
/// ordering keys have their own, the trace context counts as header values, identities and numbers
/// are read by this library alone, and everything else is a metadata value.
pub proof fn law_values_have_their_rule(header: FrameworkHeader)
    ensures
        framework_rule(header) is MessageType <==> header is MessageType,
        framework_rule(header) is ContentType <==> header is ContentType,
        framework_rule(header) is OrderingKey <==> header is OrderingKey,
        framework_rule(header) is HeaderValue <==> header is Traceparent || header is Tracestate,
        framework_rule(header) is Parsed <==> header is MessageId || header is MessageVersion
            || header is ConversationId || header is CausationId || header is RequestId || header
            is SentAtMs,
        framework_rule(header) is MetadataValue <==> header is CorrelationId || header is Source
            || header is Destination || header is ReplyTo || header is DeduplicationId || header
            is TenantId,
{
}

} // verus!
