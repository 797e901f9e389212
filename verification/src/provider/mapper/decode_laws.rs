//! What an envelope says of the record that it was read from, and which records have one.

use crate::envelope::EnvelopeModel;
use crate::headers::{ascending, header_names, lemma_slot, slot, HeaderLimits, HeaderText};
use crate::ids::parsed_uuid;
use crate::provider::error::IggyMappingError;
use crate::provider::mapper::decode::{
    context_malformed, custom_names, custom_text, customs, decoded, lemma_customs_ascending,
    taken_customs, valid_id, valid_number, valid_text, Custom,
};
use crate::provider::mapper::framework::{
    framework_name, is_framework_name, lemma_framework_names, FrameworkHeader,
};
use crate::provider::mapper::normalize::{
    custom_bytes, find, lemma_checked_distinct, normalized, with_header, with_headers, Field,
    HeaderVerdict,
};
use crate::provider::mapper::record::{WireHeader, WireRecord};
use crate::text::{bytes_of, lower_text, parsed_decimal};
use vstd::prelude::*;
use vstd::utf8::{decode_utf8, decode_utf8_encode_utf8, valid_utf8};

verus! {

/// Whether one header is as it must be: it has a value; a framework header is written in lower
/// case and fits a header field, and an application header has a name that the shared contract
/// accepts.
pub open spec fn is_clean(header: WireHeader, verdict: HeaderVerdict) -> bool {
    &&& header.value.len() > 0
    &&& if is_framework_name(lower_text(header.name)) {
        header.name == lower_text(header.name) && header.value.len() <= 255
    } else {
        header.name.len() > 0 && verdict.name_accepted
    }
}

/// The bytes that the names and values of the application headers have together.
pub open spec fn application_bytes(headers: Seq<WireHeader>) -> nat
    decreases headers.len(),
{
    if headers.len() == 0 {
        0
    } else {
        application_bytes(headers.drop_last()) + if is_framework_name(
            lower_text(headers.last().name),
        ) {
            0
        } else {
            bytes_of(lower_text(headers.last().name)).len() + headers.last().value.len()
        }
    }
}

/// Whether no two headers share a name, in whatever case they are written.
pub open spec fn without_repeats(headers: Seq<WireHeader>) -> bool {
    forall|i: int, j: int|
        0 <= i < j < headers.len() ==> lower_text((#[trigger] headers[i]).name) != lower_text(
            (#[trigger] headers[j]).name,
        )
}

/// Whether every header is as it must be.
pub open spec fn all_clean(headers: Seq<WireHeader>, verdicts: Seq<HeaderVerdict>) -> bool {
    forall|i: int| 0 <= i < headers.len() ==> is_clean(#[trigger] headers[i], verdicts[i])
}

/// Headers as they are once they are checked: under their lower-case names.
pub open spec fn as_fields(headers: Seq<WireHeader>, verdicts: Seq<HeaderVerdict>) -> Seq<Field> {
    Seq::new(
        headers.len(),
        |i: int| Field {
            name: lower_text(headers[i].name),
            value: headers[i].value,
            accepted: verdicts[i].value_accepted,
        },
    )
}

proof fn lemma_find(fields: Seq<Field>, name: Seq<char>)
    ensures
        match find(fields, name) {
            Some(field) => field.name == name && exists|i: int|
                0 <= i < fields.len() && #[trigger] fields[i] == field,
            None => forall|i: int| 0 <= i < fields.len() ==> (#[trigger] fields[i]).name != name,
        },
    decreases fields.len(),
{
    if fields.len() > 0 {
        let before = fields.drop_last();
        lemma_find(before, name);
        match find(fields, name) {
            Some(field) => {
                if fields.last().name == name {
                    assert(fields[fields.len() - 1] == field);
                } else {
                    let i = choose|i: int| 0 <= i < before.len() && #[trigger] before[i] == field;
                    assert(fields[i] == field);
                }
            },
            None => {
                assert forall|i: int| 0 <= i < fields.len() implies (#[trigger] fields[i]).name
                    != name by {
                    if i < before.len() {
                        assert(before[i] == fields[i]);
                    }
                }
            },
        }
    }
}

proof fn lemma_bytes_agree(headers: Seq<WireHeader>, verdicts: Seq<HeaderVerdict>)
    requires
        verdicts.len() == headers.len(),
    ensures
        custom_bytes(as_fields(headers, verdicts)) == application_bytes(headers),
    decreases headers.len(),
{
    if headers.len() > 0 {
        let before = as_fields(headers.drop_last(), verdicts.drop_last());
        lemma_bytes_agree(headers.drop_last(), verdicts.drop_last());
        assert(as_fields(headers, verdicts).drop_last() =~= before);
    }
}

proof fn lemma_checked(
    headers: Seq<WireHeader>,
    verdicts: Seq<HeaderVerdict>,
    limits: HeaderLimits,
)
    requires
        verdicts.len() == headers.len(),
    ensures
        match with_headers(headers, verdicts, limits) {
            Ok(fields) => {
                &&& fields == as_fields(headers, verdicts)
                &&& all_clean(headers, verdicts)
                &&& without_repeats(headers)
                &&& application_bytes(headers) <= limits.max_bytes
            },
            Err(error) => {
                &&& !(all_clean(headers, verdicts) && without_repeats(headers)
                    && application_bytes(headers) <= limits.max_bytes)
                &&& error == IggyMappingError::DuplicateHeader ==> !without_repeats(headers)
                &&& error == IggyMappingError::HeaderBoundsExceeded ==> application_bytes(headers)
                    > limits.max_bytes
                &&& error == IggyMappingError::InvalidHeader || error
                    == IggyMappingError::InvalidFrameworkValue ==> !all_clean(headers, verdicts)
                &&& error == IggyMappingError::DuplicateHeader || error
                    == IggyMappingError::HeaderBoundsExceeded || error
                    == IggyMappingError::InvalidHeader || error
                    == IggyMappingError::InvalidFrameworkValue
            },
        },
    decreases headers.len(),
{
    if headers.len() == 0 {
        assert(as_fields(headers, verdicts) =~= seq![]);
    } else {
        let before = headers.drop_last();
        let known = verdicts.drop_last();
        let last = headers.last();
        let n = headers.len() - 1;
        lemma_checked(before, known, limits);
        lemma_bytes_agree(headers, verdicts);
        lemma_bytes_agree(before, known);
        assert(headers[n] == last && verdicts[n] == verdicts.last());
        assert(application_bytes(headers) >= application_bytes(before));
        match with_headers(before, known, limits) {
            Err(_) => {
                if all_clean(headers, verdicts) {
                    assert forall|i: int| 0 <= i < before.len() implies is_clean(
                        #[trigger] before[i],
                        known[i],
                    ) by {
                        assert(is_clean(headers[i], verdicts[i]));
                    }
                }
                if without_repeats(headers) {
                    assert forall|i: int, j: int| 0 <= i < j < before.len() implies lower_text(
                        (#[trigger] before[i]).name,
                    ) != lower_text((#[trigger] before[j]).name) by {
                        assert(headers[i] == before[i] && headers[j] == before[j]);
                    }
                }
            },
            Ok(fields) => {
                let name = lower_text(last.name);
                let field = Field {
                    name,
                    value: last.value,
                    accepted: verdicts.last().value_accepted,
                };
                assert(fields == as_fields(before, known));
                assert(fields.push(field) =~= as_fields(headers, verdicts));
                assert(name.len() == last.name.len());
                lemma_find(fields, name);
                let next = with_header(fields, last, verdicts.last(), limits);
                assert(with_headers(headers, verdicts, limits) == next);
                if next is Ok {
                    assert(is_clean(last, verdicts.last()));
                    assert forall|i: int| 0 <= i < headers.len() implies is_clean(
                        #[trigger] headers[i],
                        verdicts[i],
                    ) by {
                        if i < n {
                            assert(is_clean(before[i], known[i]));
                        }
                    }
                    assert forall|i: int, j: int| 0 <= i < j < headers.len() implies lower_text(
                        (#[trigger] headers[i]).name,
                    ) != lower_text((#[trigger] headers[j]).name) by {
                        assert(before[i] == headers[i]);
                        if j < n {
                            assert(before[j] == headers[j]);
                        } else {
                            assert(fields[i].name != name);
                        }
                    }
                } else {
                    if !is_clean(last, verdicts.last()) {
                        assert(!is_clean(headers[n], verdicts[n]));
                    }
                    if find(fields, name) is Some {
                        let i = choose|i: int|
                            0 <= i < fields.len() && #[trigger] fields[i] == find(
                                fields,
                                name,
                            )->Some_0;
                        assert(lower_text(headers[i].name) == lower_text(headers[n].name));
                    }
                }
            },
        }
    }
}

/// The headers of a record are taken exactly if each is as it must be, no two share a name in
/// whatever case, and they are within the bounds on their number and size. They are then taken as
/// they are, under their lower-case names. Otherwise the error names what is wrong.
pub proof fn law_headers_are_refused_for_cause(
    headers: Seq<WireHeader>,
    verdicts: Seq<HeaderVerdict>,
    limits: HeaderLimits,
)
    requires
        verdicts.len() == headers.len(),
    ensures
        match normalized(headers, verdicts, limits) {
            Ok(fields) => {
                &&& fields == as_fields(headers, verdicts)
                &&& all_clean(headers, verdicts)
                &&& without_repeats(headers)
                &&& headers.len() <= 17 + limits.max_count
                &&& application_bytes(headers) <= limits.max_bytes
            },
            Err(IggyMappingError::DuplicateHeader) => !without_repeats(headers),
            Err(IggyMappingError::HeaderBoundsExceeded) => headers.len() > 17 + limits.max_count
                || application_bytes(headers) > limits.max_bytes,
            Err(IggyMappingError::InvalidHeader) => !all_clean(headers, verdicts),
            Err(IggyMappingError::InvalidFrameworkValue) => !all_clean(headers, verdicts),
            Err(_) => false,
        },
{
    lemma_checked(headers, verdicts, limits);
}

/// Whether a record has a framework header.
pub open spec fn names(record: WireRecord, header: FrameworkHeader) -> bool {
    exists|i: int|
        0 <= i < record.headers.len() && (#[trigger] record.headers[i]).name == framework_name(
            header,
        )
}

/// Whether a record says a text under a framework header, and the shared contract accepts it.
pub open spec fn says_text(
    record: WireRecord,
    verdicts: Seq<HeaderVerdict>,
    header: FrameworkHeader,
    text: Seq<char>,
) -> bool {
    exists|i: int|
        0 <= i < record.headers.len() && (#[trigger] record.headers[i]).name == framework_name(
            header,
        ) && record.headers[i].value == bytes_of(text) && verdicts[i].value_accepted
}

/// Whether a record names an identity under a framework header.
pub open spec fn says_id(record: WireRecord, header: FrameworkHeader, id: u128) -> bool {
    exists|i: int|
        0 <= i < record.headers.len() && (#[trigger] record.headers[i]).name == framework_name(
            header,
        ) && valid_utf8(record.headers[i].value) && parsed_uuid(
            decode_utf8(record.headers[i].value),
        ) == Some(id)
}

/// Whether a record names a number up to a bound under a framework header.
pub open spec fn says_number(
    record: WireRecord,
    header: FrameworkHeader,
    max: nat,
    number: nat,
) -> bool {
    exists|i: int|
        0 <= i < record.headers.len() && (#[trigger] record.headers[i]).name == framework_name(
            header,
        ) && valid_utf8(record.headers[i].value) && parsed_decimal(
            decode_utf8(record.headers[i].value),
            max,
        ) == Some(number)
}

/// An optional text is what a record says under a framework header, or it does not have the header.
pub open spec fn is_text_of(
    record: WireRecord,
    verdicts: Seq<HeaderVerdict>,
    header: FrameworkHeader,
    text: Option<Seq<char>>,
) -> bool {
    match text {
        Some(text) => says_text(record, verdicts, header, text),
        None => !names(record, header),
    }
}

/// An optional identity is what a record says under a framework header, or it does not have the
/// header.
pub open spec fn is_id_of(record: WireRecord, header: FrameworkHeader, id: Option<u128>) -> bool {
    match id {
        Some(id) => says_id(record, header, id),
        None => !names(record, header),
    }
}

spec fn is_taken(record: WireRecord, verdicts: Seq<HeaderVerdict>) -> bool {
    &&& verdicts.len() == record.headers.len()
    &&& all_clean(record.headers, verdicts)
    &&& without_repeats(record.headers)
}

proof fn lemma_found(record: WireRecord, verdicts: Seq<HeaderVerdict>, header: FrameworkHeader)
    requires
        is_taken(record, verdicts),
    ensures
        match find(as_fields(record.headers, verdicts), framework_name(header)) {
            Some(field) => exists|i: int|
                0 <= i < record.headers.len() && (#[trigger] record.headers[i]).name
                    == framework_name(header) && field.value == record.headers[i].value
                    && field.accepted == verdicts[i].value_accepted,
            None => !names(record, header),
        },
        forall|i: int|
            0 <= i < record.headers.len() && (#[trigger] record.headers[i]).name
                == framework_name(header) ==> find(
                as_fields(record.headers, verdicts),
                framework_name(header),
            ) == Some(
                Field {
                    name: framework_name(header),
                    value: record.headers[i].value,
                    accepted: verdicts[i].value_accepted,
                },
            ),
{
    let fields = as_fields(record.headers, verdicts);
    let name = framework_name(header);
    lemma_framework_names(header, header);
    lemma_find(fields, name);
    assert(is_framework_name(name));
    match find(fields, name) {
        Some(field) => {
            let i = choose|i: int| 0 <= i < fields.len() && #[trigger] fields[i] == field;
            assert(is_clean(record.headers[i], verdicts[i]));
            assert(record.headers[i].name == name);
            assert forall|k: int|
                0 <= k < record.headers.len() && (#[trigger] record.headers[k]).name == name
                implies find(fields, name) == Some(
                Field {
                    name,
                    value: record.headers[k].value,
                    accepted: verdicts[k].value_accepted,
                },
            ) by {
                if k < i {
                    assert(lower_text(record.headers[k].name) != lower_text(
                        record.headers[i].name,
                    ));
                } else if i < k {
                    assert(lower_text(record.headers[i].name) != lower_text(
                        record.headers[k].name,
                    ));
                }
            }
        },
        None => {
            assert forall|i: int| 0 <= i < record.headers.len() implies (
            #[trigger] record.headers[i]).name != name by {
                assert(fields[i].name != name);
            }
        },
    }
}

proof fn lemma_text(
    record: WireRecord,
    verdicts: Seq<HeaderVerdict>,
    header: FrameworkHeader,
)
    requires
        is_taken(record, verdicts),
    ensures
        match valid_text(as_fields(record.headers, verdicts), header) {
            Ok(text) => is_text_of(record, verdicts, header, text),
            Err(_) => names(record, header) && forall|text: Seq<char>| !#[trigger] says_text(
                record,
                verdicts,
                header,
                text,
            ),
        },
{
    let fields = as_fields(record.headers, verdicts);
    lemma_found(record, verdicts, header);
    if let Some(field) = find(fields, framework_name(header)) {
        let i = choose|i: int|
            0 <= i < record.headers.len() && (#[trigger] record.headers[i]).name == framework_name(
                header,
            ) && field.value == record.headers[i].value && field.accepted
                == verdicts[i].value_accepted;
        assert(names(record, header));
        if valid_utf8(field.value) {
            decode_utf8_encode_utf8(field.value);
        }
        assert forall|text: Seq<char>| #[trigger]
            says_text(record, verdicts, header, text) implies valid_utf8(field.value)
            && field.accepted by {
            let k = choose|k: int|
                0 <= k < record.headers.len() && (#[trigger] record.headers[k]).name
                    == framework_name(header) && record.headers[k].value == bytes_of(text)
                    && verdicts[k].value_accepted;
            vstd::utf8::encode_utf8_valid_utf8(text);
            assert(record.headers[k].name == framework_name(header));
        }
    }
}

proof fn lemma_id(record: WireRecord, verdicts: Seq<HeaderVerdict>, header: FrameworkHeader)
    requires
        is_taken(record, verdicts),
    ensures
        match valid_id(as_fields(record.headers, verdicts), header) {
            Ok(id) => is_id_of(record, header, id),
            Err(_) => names(record, header) && forall|id: u128| !#[trigger] says_id(
                record,
                header,
                id,
            ),
        },
{
    let fields = as_fields(record.headers, verdicts);
    lemma_found(record, verdicts, header);
    if let Some(field) = find(fields, framework_name(header)) {
        let i = choose|i: int|
            0 <= i < record.headers.len() && (#[trigger] record.headers[i]).name == framework_name(
                header,
            ) && field.value == record.headers[i].value && field.accepted
                == verdicts[i].value_accepted;
        assert(names(record, header));
        assert forall|id: u128| #[trigger] says_id(record, header, id) implies valid_id(
            fields,
            header,
        ) == Ok::<_, IggyMappingError>(Some(id)) by {
            let k = choose|k: int|
                0 <= k < record.headers.len() && (#[trigger] record.headers[k]).name
                    == framework_name(header) && valid_utf8(record.headers[k].value)
                    && parsed_uuid(decode_utf8(record.headers[k].value)) == Some(id);
            assert(record.headers[k].name == framework_name(header));
        }
    }
}

proof fn lemma_number(
    record: WireRecord,
    verdicts: Seq<HeaderVerdict>,
    header: FrameworkHeader,
    max: nat,
)
    requires
        is_taken(record, verdicts),
    ensures
        match valid_number(as_fields(record.headers, verdicts), header, max) {
            Ok(Some(number)) => says_number(record, header, max, number) && number <= max,
            Ok(None) => !names(record, header),
            Err(_) => names(record, header) && forall|number: nat| !#[trigger] says_number(
                record,
                header,
                max,
                number,
            ),
        },
{
    let fields = as_fields(record.headers, verdicts);
    lemma_found(record, verdicts, header);
    if let Some(field) = find(fields, framework_name(header)) {
        let i = choose|i: int|
            0 <= i < record.headers.len() && (#[trigger] record.headers[i]).name == framework_name(
                header,
            ) && field.value == record.headers[i].value && field.accepted
                == verdicts[i].value_accepted;
        assert(names(record, header));
        assert forall|number: nat| #[trigger]
            says_number(record, header, max, number) implies valid_number(fields, header, max)
            == Ok::<_, IggyMappingError>(Some(number)) by {
            let k = choose|k: int|
                0 <= k < record.headers.len() && (#[trigger] record.headers[k]).name
                    == framework_name(header) && valid_utf8(record.headers[k].value)
                    && parsed_decimal(decode_utf8(record.headers[k].value), max) == Some(number);
            assert(record.headers[k].name == framework_name(header));
        }
    }
}

/// How many of a list of headers are application headers.
pub open spec fn application_count(headers: Seq<WireHeader>) -> nat
    decreases headers.len(),
{
    if headers.len() == 0 {
        0
    } else {
        application_count(headers.drop_last()) + if is_framework_name(
            lower_text(headers.last().name),
        ) {
            0nat
        } else {
            1nat
        }
    }
}

spec fn lists(listed: Seq<Custom>, custom: Custom) -> bool {
    exists|k: int| 0 <= k < listed.len() && #[trigger] listed[k] == custom
}

proof fn lemma_customs(headers: Seq<WireHeader>, verdicts: Seq<HeaderVerdict>)
    requires
        verdicts.len() == headers.len(),
    ensures
        ({
            let fields = as_fields(headers, verdicts);
            let listed = customs(fields);
            &&& listed.len() == application_count(headers)
            &&& forall|i: int|
                0 <= i < headers.len() && !is_framework_name(lower_text((#[trigger] headers[i]).name))
                    ==> lists(
                    listed,
                    Custom { name: lower_text(headers[i].name), value: custom_text(fields[i]) },
                )
            &&& forall|k: int|
                0 <= k < listed.len() ==> is_listed_from(headers, fields, #[trigger] listed[k])
        }),
    decreases headers.len(),
{
    let fields = as_fields(headers, verdicts);
    let listed = customs(fields);
    if headers.len() > 0 {
        let n = headers.len() - 1;
        let before = headers.drop_last();
        let known = verdicts.drop_last();
        let past = as_fields(before, known);
        let earlier = customs(past);
        let field = fields.last();
        lemma_customs(before, known);
        assert(fields.drop_last() =~= past);
        assert(field == fields[n]);
        lemma_slot(custom_names(earlier), field.name);
        let at = slot(custom_names(earlier), field.name);
        let custom = Custom { name: field.name, value: custom_text(field) };
        let new = !is_framework_name(field.name);
        assert(new ==> listed == earlier.insert(at, custom));
        assert(!new ==> listed == earlier);

        assert forall|i: int|
            0 <= i < headers.len() && !is_framework_name(lower_text((#[trigger] headers[i]).name))
            implies lists(
            listed,
            Custom { name: lower_text(headers[i].name), value: custom_text(fields[i]) },
        ) by {
            if i < n {
                assert(before[i] == headers[i]);
                assert(past[i] == fields[i]);
                let wanted = Custom {
                    name: lower_text(before[i].name),
                    value: custom_text(past[i]),
                };
                assert(lists(earlier, wanted));
                let k = choose|k: int| 0 <= k < earlier.len() && #[trigger] earlier[k] == wanted;
                let l = if !new || k < at { k } else { k + 1 };
                assert(listed[l] == earlier[k]);
            } else {
                assert(listed[at] == custom);
            }
        }
        assert forall|k: int| 0 <= k < listed.len() implies is_listed_from(
            headers,
            fields,
            #[trigger] listed[k],
        ) by {
            if new && k == at {
                assert(headers[n] == headers.last());
            } else {
                let l = if !new || k < at { k } else { k - 1 };
                assert(listed[k] == earlier[l]);
                assert(is_listed_from(before, past, earlier[l]));
                let i = choose|i: int|
                    0 <= i < before.len() && !is_framework_name(
                        lower_text((#[trigger] before[i]).name),
                    ) && earlier[l] == (Custom {
                        name: lower_text(before[i].name),
                        value: custom_text(past[i]),
                    });
                assert(headers[i] == before[i]);
                assert(fields[i] == past[i]);
            }
        }
    }
}

spec fn is_listed_from(headers: Seq<WireHeader>, fields: Seq<Field>, custom: Custom) -> bool {
    exists|i: int|
        0 <= i < headers.len() && !is_framework_name(lower_text((#[trigger] headers[i]).name))
            && custom == (Custom {
            name: lower_text(headers[i].name),
            value: custom_text(fields[i]),
        })
}

/// An application header of an envelope is one of a record: the same name in lower case, and a
/// value of the same bytes that the shared contract accepts.
pub open spec fn is_header_of(
    record: WireRecord,
    verdicts: Seq<HeaderVerdict>,
    header: HeaderText,
    i: int,
) -> bool {
    &&& header.name == lower_text(record.headers[i].name)
    &&& bytes_of(header.value) == record.headers[i].value
    &&& verdicts[i].value_accepted
    &&& !is_framework_name(header.name)
}

/// An application header of an envelope is one of a record's headers.
pub open spec fn comes_from(
    record: WireRecord,
    verdicts: Seq<HeaderVerdict>,
    header: HeaderText,
) -> bool {
    exists|i: int|
        0 <= i < record.headers.len() && #[trigger] is_header_of(record, verdicts, header, i)
}

/// Everything in an envelope is what its record says: the identity and the payload are the
/// record's, each field is what the record says under its header and is missing exactly where the
/// record does not have the header, and a record's own key agrees with the ordering key.
pub proof fn law_envelopes_say_what_the_record_says(
    record: WireRecord,
    verdicts: Seq<HeaderVerdict>,
    limits: HeaderLimits,
    e: EnvelopeModel,
)
    requires
        verdicts.len() == record.headers.len(),
        decoded(record, verdicts, limits) == Ok::<_, IggyMappingError>(e),
    ensures
        e.payload == record.payload,
        e.message_id.value == record.id,
        says_id(record, FrameworkHeader::MessageId, e.message_id.value),
        says_text(record, verdicts, FrameworkHeader::MessageType, e.message_type),
        says_number(
            record,
            FrameworkHeader::MessageVersion,
            u32::MAX as nat,
            e.message_version as nat,
        ),
        says_text(record, verdicts, FrameworkHeader::ContentType, e.content_type),
        is_text_of(record, verdicts, FrameworkHeader::OrderingKey, e.ordering_key),
        record.key matches Some(key) ==> (e.ordering_key matches Some(text) && bytes_of(text)
            == key),
        is_text_of(
            record,
            verdicts,
            FrameworkHeader::CorrelationId,
            e.metadata.correlation_id,
        ),
        is_id_of(
            record,
            FrameworkHeader::ConversationId,
            match e.metadata.conversation_id {
                Some(id) => Some(id.value),
                None => None,
            },
        ),
        is_id_of(
            record,
            FrameworkHeader::CausationId,
            match e.metadata.causation_id {
                Some(id) => Some(id.value),
                None => None,
            },
        ),
        is_id_of(
            record,
            FrameworkHeader::RequestId,
            match e.metadata.request_id {
                Some(id) => Some(id.value),
                None => None,
            },
        ),
        is_text_of(record, verdicts, FrameworkHeader::Source, e.metadata.source),
        is_text_of(record, verdicts, FrameworkHeader::Destination, e.metadata.destination),
        is_text_of(record, verdicts, FrameworkHeader::ReplyTo, e.metadata.reply_to),
        match e.metadata.sent_at_ms {
            Some(time) => says_number(
                record,
                FrameworkHeader::SentAtMs,
                u64::MAX as nat,
                time as nat,
            ),
            None => !names(record, FrameworkHeader::SentAtMs),
        },
        is_text_of(
            record,
            verdicts,
            FrameworkHeader::DeduplicationId,
            e.metadata.deduplication_id,
        ),
        is_text_of(record, verdicts, FrameworkHeader::TenantId, e.metadata.tenant_id),
        is_text_of(record, verdicts, FrameworkHeader::Traceparent, e.metadata.traceparent),
        is_text_of(record, verdicts, FrameworkHeader::Tracestate, e.metadata.tracestate),
{
    lemma_checked(record.headers, verdicts, limits);
    lemma_id(record, verdicts, FrameworkHeader::MessageId);
    lemma_text(record, verdicts, FrameworkHeader::MessageType);
    lemma_number(record, verdicts, FrameworkHeader::MessageVersion, u32::MAX as nat);
    lemma_text(record, verdicts, FrameworkHeader::ContentType);
    lemma_text(record, verdicts, FrameworkHeader::OrderingKey);
    lemma_text(record, verdicts, FrameworkHeader::CorrelationId);
    lemma_id(record, verdicts, FrameworkHeader::ConversationId);
    lemma_id(record, verdicts, FrameworkHeader::CausationId);
    lemma_id(record, verdicts, FrameworkHeader::RequestId);
    lemma_text(record, verdicts, FrameworkHeader::Source);
    lemma_text(record, verdicts, FrameworkHeader::Destination);
    lemma_text(record, verdicts, FrameworkHeader::ReplyTo);
    lemma_number(record, verdicts, FrameworkHeader::SentAtMs, u64::MAX as nat);
    lemma_text(record, verdicts, FrameworkHeader::DeduplicationId);
    lemma_text(record, verdicts, FrameworkHeader::TenantId);
    lemma_text(record, verdicts, FrameworkHeader::Traceparent);
    lemma_text(record, verdicts, FrameworkHeader::Tracestate);
}

/// The application headers of an envelope are exactly those of its record, each once, in byte order
/// of their names.
pub proof fn law_envelopes_keep_the_application_headers(
    record: WireRecord,
    verdicts: Seq<HeaderVerdict>,
    limits: HeaderLimits,
    e: EnvelopeModel,
)
    requires
        verdicts.len() == record.headers.len(),
        decoded(record, verdicts, limits) == Ok::<_, IggyMappingError>(e),
    ensures
        e.metadata.headers.len() == application_count(record.headers),
        e.metadata.headers.len() <= limits.max_count,
        ascending(header_names(e.metadata.headers)),
        forall|i: int|
            0 <= i < record.headers.len() && !is_framework_name(
                lower_text((#[trigger] record.headers[i]).name),
            ) ==> exists|k: int|
                0 <= k < e.metadata.headers.len() && is_header_of(
                    record,
                    verdicts,
                    #[trigger] e.metadata.headers[k],
                    i,
                ),
        forall|k: int|
            0 <= k < e.metadata.headers.len() ==> comes_from(
                record,
                verdicts,
                #[trigger] e.metadata.headers[k],
            ),
{
    let fields = as_fields(record.headers, verdicts);
    let listed = customs(fields);
    let headers = e.metadata.headers;
    lemma_checked(record.headers, verdicts, limits);
    lemma_checked_distinct(record.headers, verdicts, limits);
    lemma_customs(record.headers, verdicts);
    lemma_customs_ascending(fields);
    assert(taken_customs(listed, limits.max_count as nat) == Ok::<_, IggyMappingError>(headers));
    assert(header_names(headers) =~= custom_names(listed));
    assert forall|k: int| 0 <= k < listed.len() implies #[trigger] headers[k] == (HeaderText {
        name: listed[k].name,
        value: listed[k].value->Some_0,
    }) && listed[k].value is Some by {}

    assert forall|i: int|
        0 <= i < record.headers.len() && !is_framework_name(
            lower_text((#[trigger] record.headers[i]).name),
        ) implies exists|k: int|
            0 <= k < headers.len() && is_header_of(record, verdicts, #[trigger] headers[k], i) by {
        let wanted = Custom {
            name: lower_text(record.headers[i].name),
            value: custom_text(fields[i]),
        };
        assert(lists(listed, wanted));
        let k = choose|k: int| 0 <= k < listed.len() && #[trigger] listed[k] == wanted;
        assert(headers[k].name == wanted.name);
        decode_utf8_encode_utf8(fields[i].value);
        assert(is_header_of(record, verdicts, headers[k], i));
    }
    assert forall|k: int| 0 <= k < headers.len() implies comes_from(
        record,
        verdicts,
        #[trigger] headers[k],
    ) by {
        assert(is_listed_from(record.headers, fields, listed[k]));
        let i = choose|i: int|
            0 <= i < record.headers.len() && !is_framework_name(
                lower_text((#[trigger] record.headers[i]).name),
            ) && listed[k] == (Custom {
                name: lower_text(record.headers[i].name),
                value: custom_text(fields[i]),
            });
        decode_utf8_encode_utf8(fields[i].value);
        assert(headers[k].name == listed[k].name);
        assert(is_header_of(record, verdicts, headers[k], i));
    }
}

/// Whether a record says something readable under a header that holds a text, or does not have it.
pub open spec fn text_is_readable(
    record: WireRecord,
    verdicts: Seq<HeaderVerdict>,
    header: FrameworkHeader,
) -> bool {
    names(record, header) ==> exists|text: Seq<char>| #[trigger]
        says_text(record, verdicts, header, text)
}

/// Whether a record says something readable under a header that holds an identity, or does not
/// have it.
pub open spec fn id_is_readable(record: WireRecord, header: FrameworkHeader) -> bool {
    names(record, header) ==> exists|id: u128| #[trigger] says_id(record, header, id)
}

/// Whether a record says something readable under a header that holds a number, or does not have
/// it.
pub open spec fn number_is_readable(record: WireRecord, header: FrameworkHeader, max: nat) -> bool {
    names(record, header) ==> exists|number: nat| #[trigger]
        says_number(record, header, max, number)
}

/// Whether every application header of a record is text that the shared contract accepts.
pub open spec fn customs_are_readable(record: WireRecord, verdicts: Seq<HeaderVerdict>) -> bool {
    forall|i: int|
        0 <= i < record.headers.len() && !is_framework_name(
            lower_text((#[trigger] record.headers[i]).name),
        ) ==> valid_utf8(record.headers[i].value) && verdicts[i].value_accepted
}

/// Whether everything that a record says under its framework headers is readable.
pub open spec fn framework_is_readable(record: WireRecord, verdicts: Seq<HeaderVerdict>) -> bool {
    &&& id_is_readable(record, FrameworkHeader::MessageId)
    &&& text_is_readable(record, verdicts, FrameworkHeader::MessageType)
    &&& number_is_readable(record, FrameworkHeader::MessageVersion, u32::MAX as nat)
    &&& text_is_readable(record, verdicts, FrameworkHeader::ContentType)
    &&& text_is_readable(record, verdicts, FrameworkHeader::OrderingKey)
    &&& text_is_readable(record, verdicts, FrameworkHeader::CorrelationId)
    &&& id_is_readable(record, FrameworkHeader::ConversationId)
    &&& id_is_readable(record, FrameworkHeader::CausationId)
    &&& id_is_readable(record, FrameworkHeader::RequestId)
    &&& text_is_readable(record, verdicts, FrameworkHeader::Source)
    &&& text_is_readable(record, verdicts, FrameworkHeader::Destination)
    &&& text_is_readable(record, verdicts, FrameworkHeader::ReplyTo)
    &&& number_is_readable(record, FrameworkHeader::SentAtMs, u64::MAX as nat)
    &&& text_is_readable(record, verdicts, FrameworkHeader::DeduplicationId)
    &&& text_is_readable(record, verdicts, FrameworkHeader::TenantId)
    &&& text_is_readable(record, verdicts, FrameworkHeader::Traceparent)
    &&& text_is_readable(record, verdicts, FrameworkHeader::Tracestate)
}

/// A text header is readable exactly if it reads, and reads as nothing exactly if it is missing.
proof fn lemma_text_reads(record: WireRecord, verdicts: Seq<HeaderVerdict>, header: FrameworkHeader)
    requires
        is_taken(record, verdicts),
    ensures
        ({
            let read = valid_text(as_fields(record.headers, verdicts), header);
            &&& text_is_readable(record, verdicts, header) <==> read is Ok
            &&& names(record, header) <==> read != Ok::<_, IggyMappingError>(None::<Seq<char>>)
            &&& read matches Err(error) ==> error == IggyMappingError::InvalidFrameworkValue
        }),
{
    lemma_text(record, verdicts, header);
    lemma_found(record, verdicts, header);
}

/// An identity header is readable exactly if it reads, and reads as nothing exactly if it is
/// missing.
proof fn lemma_id_reads(record: WireRecord, verdicts: Seq<HeaderVerdict>, header: FrameworkHeader)
    requires
        is_taken(record, verdicts),
    ensures
        ({
            let read = valid_id(as_fields(record.headers, verdicts), header);
            &&& id_is_readable(record, header) <==> read is Ok
            &&& names(record, header) <==> read != Ok::<_, IggyMappingError>(None::<u128>)
            &&& read matches Err(error) ==> error == IggyMappingError::InvalidFrameworkValue
        }),
{
    lemma_id(record, verdicts, header);
    lemma_found(record, verdicts, header);
}

/// A number header is readable exactly if it reads, and reads as nothing exactly if it is missing.
proof fn lemma_number_reads(
    record: WireRecord,
    verdicts: Seq<HeaderVerdict>,
    header: FrameworkHeader,
    max: nat,
)
    requires
        is_taken(record, verdicts),
    ensures
        ({
            let read = valid_number(as_fields(record.headers, verdicts), header, max);
            &&& number_is_readable(record, header, max) <==> read is Ok
            &&& names(record, header) <==> read != Ok::<_, IggyMappingError>(None::<nat>)
            &&& read matches Err(error) ==> error == IggyMappingError::InvalidFrameworkValue
        }),
{
    lemma_number(record, verdicts, header, max);
    lemma_found(record, verdicts, header);
}

/// What a record says under its framework headers is readable exactly if every one of them reads.
proof fn lemma_framework_reads(record: WireRecord, verdicts: Seq<HeaderVerdict>)
    requires
        is_taken(record, verdicts),
    ensures
        ({
            let fields = as_fields(record.headers, verdicts);
            framework_is_readable(record, verdicts) <==> {
                &&& valid_id(fields, FrameworkHeader::MessageId) is Ok
                &&& valid_text(fields, FrameworkHeader::MessageType) is Ok
                &&& valid_number(fields, FrameworkHeader::MessageVersion, u32::MAX as nat) is Ok
                &&& valid_text(fields, FrameworkHeader::ContentType) is Ok
                &&& valid_text(fields, FrameworkHeader::OrderingKey) is Ok
                &&& !context_malformed(fields)
            }
        }),
{
    lemma_id_reads(record, verdicts, FrameworkHeader::MessageId);
    lemma_text_reads(record, verdicts, FrameworkHeader::MessageType);
    lemma_number_reads(record, verdicts, FrameworkHeader::MessageVersion, u32::MAX as nat);
    lemma_text_reads(record, verdicts, FrameworkHeader::ContentType);
    lemma_text_reads(record, verdicts, FrameworkHeader::OrderingKey);
    lemma_text_reads(record, verdicts, FrameworkHeader::CorrelationId);
    lemma_id_reads(record, verdicts, FrameworkHeader::ConversationId);
    lemma_id_reads(record, verdicts, FrameworkHeader::CausationId);
    lemma_id_reads(record, verdicts, FrameworkHeader::RequestId);
    lemma_text_reads(record, verdicts, FrameworkHeader::Source);
    lemma_text_reads(record, verdicts, FrameworkHeader::Destination);
    lemma_text_reads(record, verdicts, FrameworkHeader::ReplyTo);
    lemma_number_reads(record, verdicts, FrameworkHeader::SentAtMs, u64::MAX as nat);
    lemma_text_reads(record, verdicts, FrameworkHeader::DeduplicationId);
    lemma_text_reads(record, verdicts, FrameworkHeader::TenantId);
    lemma_text_reads(record, verdicts, FrameworkHeader::Traceparent);
    lemma_text_reads(record, verdicts, FrameworkHeader::Tracestate);
}

/// The application headers of a record are all taken where they are readable and not too many, and
/// are refused for one of the two otherwise.
proof fn lemma_customs_taken(
    record: WireRecord,
    verdicts: Seq<HeaderVerdict>,
    limits: HeaderLimits,
)
    requires
        is_taken(record, verdicts),
    ensures
        ({
            let taken = taken_customs(
                customs(as_fields(record.headers, verdicts)),
                limits.max_count as nat,
            );
            let invalid = Err::<Seq<HeaderText>, _>(IggyMappingError::InvalidHeader);
            let excess = Err::<Seq<HeaderText>, _>(IggyMappingError::HeaderBoundsExceeded);
            let few = application_count(record.headers) <= limits.max_count;
            if customs_are_readable(record, verdicts) {
                if few {
                    taken is Ok
                } else {
                    taken == excess
                }
            } else {
                taken == invalid || !few && taken == excess
            }
        }),
{
    let fields = as_fields(record.headers, verdicts);
    let listed = customs(fields);
    lemma_customs(record.headers, verdicts);
    if customs_are_readable(record, verdicts) {
        assert forall|k: int| 0 <= k < listed.len() implies (
        #[trigger] listed[k]).value is Some by {
            assert(is_listed_from(record.headers, fields, listed[k]));
            let i = choose|i: int|
                0 <= i < record.headers.len() && !is_framework_name(
                    lower_text((#[trigger] record.headers[i]).name),
                ) && listed[k] == (Custom {
                    name: lower_text(record.headers[i].name),
                    value: custom_text(fields[i]),
                });
            assert(valid_utf8(record.headers[i].value));
        }
    } else {
        let i = choose|i: int|
            0 <= i < record.headers.len() && !is_framework_name(
                lower_text((#[trigger] record.headers[i]).name),
            ) && !(valid_utf8(record.headers[i].value) && verdicts[i].value_accepted);
        let wanted = Custom {
            name: lower_text(record.headers[i].name),
            value: custom_text(fields[i]),
        };
        assert(lists(listed, wanted));
        let k = choose|k: int| 0 <= k < listed.len() && #[trigger] listed[k] == wanted;
        assert(listed[k].value is None);
    }
}

/// A record has an envelope as soon as its headers can be taken, it names its own identity, a type,
/// a version and a content type, everything else that it says is readable, its application headers
/// are not too many, and a key of its own agrees with the ordering key.
pub proof fn law_readable_records_have_an_envelope(
    record: WireRecord,
    verdicts: Seq<HeaderVerdict>,
    limits: HeaderLimits,
    message_type: Seq<char>,
    version: nat,
    content_type: Seq<char>,
)
    requires
        verdicts.len() == record.headers.len(),
        all_clean(record.headers, verdicts),
        without_repeats(record.headers),
        record.headers.len() <= 17 + limits.max_count,
        application_bytes(record.headers) <= limits.max_bytes,
        says_id(record, FrameworkHeader::MessageId, record.id),
        says_text(record, verdicts, FrameworkHeader::MessageType, message_type),
        says_number(record, FrameworkHeader::MessageVersion, u32::MAX as nat, version),
        says_text(record, verdicts, FrameworkHeader::ContentType, content_type),
        record.key matches Some(key) ==> exists|text: Seq<char>| #[trigger]
            says_text(record, verdicts, FrameworkHeader::OrderingKey, text) && bytes_of(text) == key,
        framework_is_readable(record, verdicts),
        customs_are_readable(record, verdicts),
        application_count(record.headers) <= limits.max_count,
    ensures
        decoded(record, verdicts, limits) is Ok,
{
    lemma_checked(record.headers, verdicts, limits);
    lemma_said_id(record, verdicts, FrameworkHeader::MessageId, record.id);
    lemma_said_text(record, verdicts, FrameworkHeader::MessageType, message_type);
    lemma_said_number(
        record,
        verdicts,
        FrameworkHeader::MessageVersion,
        u32::MAX as nat,
        version,
    );
    lemma_said_text(record, verdicts, FrameworkHeader::ContentType, content_type);
    if let Some(key) = record.key {
        let text = choose|text: Seq<char>| #[trigger]
            says_text(record, verdicts, FrameworkHeader::OrderingKey, text) && bytes_of(text)
                == key;
        lemma_said_text(record, verdicts, FrameworkHeader::OrderingKey, text);
    }
    lemma_framework_reads(record, verdicts);
    lemma_customs_taken(record, verdicts, limits);
}

proof fn lemma_said_text(
    record: WireRecord,
    verdicts: Seq<HeaderVerdict>,
    header: FrameworkHeader,
    text: Seq<char>,
)
    requires
        is_taken(record, verdicts),
        says_text(record, verdicts, header, text),
    ensures
        valid_text(as_fields(record.headers, verdicts), header) == Ok::<_, IggyMappingError>(
            Some(text),
        ),
{
    lemma_found(record, verdicts, header);
    let k = choose|k: int|
        0 <= k < record.headers.len() && (#[trigger] record.headers[k]).name == framework_name(
            header,
        ) && record.headers[k].value == bytes_of(text) && verdicts[k].value_accepted;
    assert(record.headers[k].name == framework_name(header));
    vstd::utf8::encode_utf8_valid_utf8(text);
    vstd::utf8::encode_utf8_decode_utf8(text);
}

proof fn lemma_said_id(
    record: WireRecord,
    verdicts: Seq<HeaderVerdict>,
    header: FrameworkHeader,
    id: u128,
)
    requires
        is_taken(record, verdicts),
        says_id(record, header, id),
    ensures
        valid_id(as_fields(record.headers, verdicts), header) == Ok::<_, IggyMappingError>(
            Some(id),
        ),
{
    lemma_found(record, verdicts, header);
    let k = choose|k: int|
        0 <= k < record.headers.len() && (#[trigger] record.headers[k]).name == framework_name(
            header,
        ) && valid_utf8(record.headers[k].value) && parsed_uuid(
            decode_utf8(record.headers[k].value),
        ) == Some(id);
    assert(record.headers[k].name == framework_name(header));
}

proof fn lemma_said_number(
    record: WireRecord,
    verdicts: Seq<HeaderVerdict>,
    header: FrameworkHeader,
    max: nat,
    number: nat,
)
    requires
        is_taken(record, verdicts),
        says_number(record, header, max, number),
    ensures
        valid_number(as_fields(record.headers, verdicts), header, max) == Ok::<_, IggyMappingError>(
            Some(number),
        ),
{
    lemma_found(record, verdicts, header);
    let k = choose|k: int|
        0 <= k < record.headers.len() && (#[trigger] record.headers[k]).name == framework_name(
            header,
        ) && valid_utf8(record.headers[k].value) && parsed_decimal(
            decode_utf8(record.headers[k].value),
            max,
        ) == Some(number);
    assert(record.headers[k].name == framework_name(header));
}

/// A record whose headers can be taken is refused for what is wrong with it: a required header is
/// missing, the identity or the key does not agree with its header, the application headers are
/// too many, or something it says cannot be read.
pub proof fn law_records_are_refused_for_cause(
    record: WireRecord,
    verdicts: Seq<HeaderVerdict>,
    limits: HeaderLimits,
)
    requires
        verdicts.len() == record.headers.len(),
        normalized(record.headers, verdicts, limits) is Ok,
    ensures
        match decoded(record, verdicts, limits) {
            Err(IggyMappingError::MissingRequiredHeader) => {
                ||| !names(record, FrameworkHeader::MessageId)
                ||| !names(record, FrameworkHeader::MessageType)
                ||| !names(record, FrameworkHeader::MessageVersion)
                ||| !names(record, FrameworkHeader::ContentType)
            },
            Err(IggyMappingError::InvalidRecordId) => exists|id: u128| #[trigger]
                says_id(record, FrameworkHeader::MessageId, id) && id != record.id,
            Err(IggyMappingError::InvalidRecordKey) => record.key matches Some(key) && (!valid_utf8(
                key,
            ) || !says_text(
                record,
                verdicts,
                FrameworkHeader::OrderingKey,
                decode_utf8(key),
            )),
            Err(IggyMappingError::HeaderBoundsExceeded) => application_count(record.headers)
                > limits.max_count,
            Err(IggyMappingError::InvalidHeader) => !customs_are_readable(record, verdicts),
            Err(IggyMappingError::InvalidFrameworkValue) => !framework_is_readable(record, verdicts),
            Err(_) => false,
            Ok(_) => framework_is_readable(record, verdicts) && customs_are_readable(
                record,
                verdicts,
            ),
        },
{
    lemma_checked(record.headers, verdicts, limits);
    lemma_id_reads(record, verdicts, FrameworkHeader::MessageId);
    lemma_text_reads(record, verdicts, FrameworkHeader::MessageType);
    lemma_number_reads(record, verdicts, FrameworkHeader::MessageVersion, u32::MAX as nat);
    lemma_text_reads(record, verdicts, FrameworkHeader::ContentType);
    lemma_framework_reads(record, verdicts);
    lemma_customs_taken(record, verdicts, limits);
    match decoded(record, verdicts, limits) {
        Err(IggyMappingError::InvalidRecordId) => {
            lemma_id(record, verdicts, FrameworkHeader::MessageId);
        },
        Err(IggyMappingError::InvalidRecordKey) => {
            let key = record.key->Some_0;
            if valid_utf8(key) && says_text(
                record,
                verdicts,
                FrameworkHeader::OrderingKey,
                decode_utf8(key),
            ) {
                decode_utf8_encode_utf8(key);
                lemma_said_text(
                    record,
                    verdicts,
                    FrameworkHeader::OrderingKey,
                    decode_utf8(key),
                );
            }
        },
        _ => {},
    }
}

/// The first header of a record that cannot be taken decides the error, whatever follows it: one
/// without a value, a framework header that is not in lower case, one that is too long, an
/// application header whose name is not accepted, one that goes beyond the bound on their bytes,
/// and one whose name was there before, in this order.
pub proof fn law_first_bad_header_decides(
    good: Seq<WireHeader>,
    taken: Seq<HeaderVerdict>,
    bad: WireHeader,
    verdict: HeaderVerdict,
    rest: Seq<WireHeader>,
    others: Seq<HeaderVerdict>,
    limits: HeaderLimits,
)
    requires
        taken.len() == good.len(),
        others.len() == rest.len(),
        good.len() + 1 + rest.len() <= 17 + limits.max_count,
        normalized(good, taken, limits) is Ok,
    ensures
        ({
            let found = normalized(good.push(bad) + rest, taken.push(verdict) + others, limits);
            let name = lower_text(bad.name);
            let error = |kind: IggyMappingError| found == Err::<Seq<Field>, _>(kind);
            if bad.value.len() == 0 {
                error(IggyMappingError::InvalidHeader)
            } else if is_framework_name(name) && bad.name != name {
                error(IggyMappingError::InvalidHeader)
            } else if is_framework_name(name) && bad.value.len() > 255 {
                error(IggyMappingError::InvalidFrameworkValue)
            } else if !is_clean(bad, verdict) {
                error(IggyMappingError::InvalidHeader)
            } else if application_bytes(good.push(bad)) > limits.max_bytes {
                error(IggyMappingError::HeaderBoundsExceeded)
            } else if !without_repeats(good.push(bad)) {
                error(IggyMappingError::DuplicateHeader)
            } else {
                normalized(good.push(bad), taken.push(verdict), limits) is Ok
            }
        }),
{
    let name = lower_text(bad.name);
    let first = good.push(bad);
    let known = taken.push(verdict);
    let fields = with_headers(good, taken, limits)->Ok_0;
    lemma_checked(good, taken, limits);
    lemma_checked(first, known, limits);
    lemma_bytes_agree(first, known);
    lemma_find(fields, name);
    assert(first.drop_last() =~= good);
    assert(known.drop_last() =~= taken);
    let field = Field { name, value: bad.value, accepted: verdict.value_accepted };
    assert(fields.push(field) =~= as_fields(first, known));
    assert(name.len() == bad.name.len());
    assert(with_headers(first, known, limits) == with_header(fields, bad, verdict, limits));
    if is_clean(bad, verdict) {
        assert(all_clean(first, known)) by {
            assert forall|i: int| 0 <= i < first.len() implies is_clean(
                #[trigger] first[i],
                known[i],
            ) by {
                if i < good.len() {
                    assert(is_clean(good[i], taken[i]));
                }
            }
        }
    } else {
        assert(!is_clean(first[good.len() as int], known[good.len() as int]));
    }
    if with_headers(first, known, limits) is Err {
        lemma_error_stays(first, known, rest, others, limits);
    }
}

proof fn lemma_error_stays(
    first: Seq<WireHeader>,
    known: Seq<HeaderVerdict>,
    rest: Seq<WireHeader>,
    others: Seq<HeaderVerdict>,
    limits: HeaderLimits,
)
    requires
        known.len() == first.len(),
        others.len() == rest.len(),
        with_headers(first, known, limits) is Err,
    ensures
        with_headers(first + rest, known + others, limits) == with_headers(first, known, limits),
    decreases rest.len(),
{
    if rest.len() == 0 {
        assert(first + rest =~= first);
        assert(known + others =~= known);
    } else {
        lemma_error_stays(first, known, rest.drop_last(), others.drop_last(), limits);
        assert((first + rest).drop_last() =~= first + rest.drop_last());
        assert((known + others).drop_last() =~= known + others.drop_last());
    }
}

/// A record whose headers can be taken is refused for the first fault of what it says: the
/// identity, the type, the version, the content type and the ordering key, in this order, then its
/// own key, then everything else that a framework header holds, and last the application headers.
pub proof fn law_first_fault_decides(
    record: WireRecord,
    verdicts: Seq<HeaderVerdict>,
    limits: HeaderLimits,
)
    requires
        verdicts.len() == record.headers.len(),
        normalized(record.headers, verdicts, limits) is Ok,
    ensures
        ({
            let found = decoded(record, verdicts, limits);
            let refused = |kind: IggyMappingError| found == Err::<EnvelopeModel, _>(kind);
            if !names(record, FrameworkHeader::MessageId) {
                refused(IggyMappingError::MissingRequiredHeader)
            } else if !id_is_readable(record, FrameworkHeader::MessageId) {
                refused(IggyMappingError::InvalidFrameworkValue)
            } else if !says_id(record, FrameworkHeader::MessageId, record.id) {
                refused(IggyMappingError::InvalidRecordId)
            } else if !names(record, FrameworkHeader::MessageType) {
                refused(IggyMappingError::MissingRequiredHeader)
            } else if !text_is_readable(record, verdicts, FrameworkHeader::MessageType) {
                refused(IggyMappingError::InvalidFrameworkValue)
            } else if !names(record, FrameworkHeader::MessageVersion) {
                refused(IggyMappingError::MissingRequiredHeader)
            } else if !number_is_readable(
                record,
                FrameworkHeader::MessageVersion,
                u32::MAX as nat,
            ) {
                refused(IggyMappingError::InvalidFrameworkValue)
            } else if !names(record, FrameworkHeader::ContentType) {
                refused(IggyMappingError::MissingRequiredHeader)
            } else if !text_is_readable(record, verdicts, FrameworkHeader::ContentType) {
                refused(IggyMappingError::InvalidFrameworkValue)
            } else if !text_is_readable(record, verdicts, FrameworkHeader::OrderingKey) {
                refused(IggyMappingError::InvalidFrameworkValue)
            } else if record.key is Some && !(exists|text: Seq<char>| #[trigger]
                says_text(record, verdicts, FrameworkHeader::OrderingKey, text) && bytes_of(text)
                    == record.key->Some_0) {
                refused(IggyMappingError::InvalidRecordKey)
            } else if !framework_is_readable(record, verdicts) {
                refused(IggyMappingError::InvalidFrameworkValue)
            } else if customs_are_readable(record, verdicts) {
                if application_count(record.headers) <= limits.max_count {
                    found is Ok
                } else {
                    refused(IggyMappingError::HeaderBoundsExceeded)
                }
            } else {
                refused(IggyMappingError::InvalidHeader) || refused(
                    IggyMappingError::HeaderBoundsExceeded,
                )
            }
        }),
{
    let fields = as_fields(record.headers, verdicts);
    lemma_checked(record.headers, verdicts, limits);
    lemma_id_reads(record, verdicts, FrameworkHeader::MessageId);
    lemma_text_reads(record, verdicts, FrameworkHeader::MessageType);
    lemma_number_reads(record, verdicts, FrameworkHeader::MessageVersion, u32::MAX as nat);
    lemma_text_reads(record, verdicts, FrameworkHeader::ContentType);
    lemma_text_reads(record, verdicts, FrameworkHeader::OrderingKey);
    lemma_framework_reads(record, verdicts);
    lemma_customs_taken(record, verdicts, limits);
    if says_id(record, FrameworkHeader::MessageId, record.id) {
        lemma_said_id(record, verdicts, FrameworkHeader::MessageId, record.id);
    } else {
        assert(valid_id(fields, FrameworkHeader::MessageId) != Ok::<_, IggyMappingError>(
            Some(record.id),
        )) by {
            lemma_id(record, verdicts, FrameworkHeader::MessageId);
        }
    }
    if let Some(key) = record.key {
        lemma_key_agrees(record, verdicts, key);
    }
}

/// A record's key is what it says under the ordering key exactly if the ordering key reads as it.
proof fn lemma_key_agrees(record: WireRecord, verdicts: Seq<HeaderVerdict>, key: Seq<u8>)
    requires
        is_taken(record, verdicts),
    ensures
        (exists|text: Seq<char>| #[trigger]
            says_text(record, verdicts, FrameworkHeader::OrderingKey, text) && bytes_of(text)
                == key) <==> (valid_text(
            as_fields(record.headers, verdicts),
            FrameworkHeader::OrderingKey,
        ) matches Ok(Some(text)) && bytes_of(text) == key),
{
    lemma_text(record, verdicts, FrameworkHeader::OrderingKey);
    if exists|text: Seq<char>| #[trigger]
        says_text(record, verdicts, FrameworkHeader::OrderingKey, text) && bytes_of(text) == key {
        let text = choose|text: Seq<char>| #[trigger]
            says_text(record, verdicts, FrameworkHeader::OrderingKey, text) && bytes_of(text)
                == key;
        lemma_said_text(record, verdicts, FrameworkHeader::OrderingKey, text);
    }
}

} // verus!
