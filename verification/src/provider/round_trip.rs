//! What publishing an envelope and receiving its message gives back.

use crate::envelope::EnvelopeModel;
use crate::headers::HeaderLimits;
use crate::provider::error::IggyMappingError;
use crate::provider::mapper::decode::decoded;
use crate::provider::mapper::encode::encoded;
use crate::provider::mapper::normalize::{
    distinct, find, lemma_checked_distinct, Field, HeaderVerdict,
};
use crate::provider::mapper::order::{law_header_order_does_not_matter, paired};
use crate::provider::mapper::record::WireHeader;
use crate::provider::mapper::round_trip::{
    all_accepted, as_carried, law_envelope_round_trip, lemma_encoded_headers, plain,
    within_contract,
};
use crate::provider::publisher::sdk_headers_of;
use crate::provider::sdk::{gathered, key_slot, new_message, MessageModel, SdkHeader};
use crate::provider::source::wire::{polled_record, wire_header};
use crate::text::{bytes_of, lemma_bytes_determine_text};
use vstd::prelude::*;
use vstd::seq_lib::{to_multiset_build, to_multiset_insert};
use vstd::utf8::{encode_utf8_decode_utf8, encode_utf8_valid_utf8};

verus! {

/// The wire headers that are read from a message into which headers were gathered.
spec fn returned(headers: Seq<WireHeader>) -> Seq<WireHeader> {
    gathered(sdk_headers_of(headers)).map_values(|header: SdkHeader| wire_header(header))
}

proof fn lemma_key_slot(headers: Seq<SdkHeader>, key: Seq<u8>)
    ensures
        0 <= key_slot(headers, key) <= headers.len(),
    decreases headers.len(),
{
    if headers.len() > 0 {
        lemma_key_slot(headers.drop_last(), key);
    }
}

/// Every returned header is one that was sent, under its own name.
spec fn all_sent(headers: Seq<SdkHeader>, sent: Seq<WireHeader>) -> bool {
    forall|i: int| 0 <= i < headers.len() ==> is_sent(#[trigger] headers[i], sent)
}

spec fn is_sent(header: SdkHeader, sent: Seq<WireHeader>) -> bool {
    exists|j: int|
        0 <= j < sent.len() && header.key == bytes_of((#[trigger] sent[j]).name) && header.value
            == sent[j].value
}

/// Gathering headers that share no name only changes their order.
proof fn lemma_returned(headers: Seq<WireHeader>)
    requires
        distinct(plain(headers)),
    ensures
        returned(headers).len() == headers.len(),
        paired(returned(headers), all_accepted(headers.len())).to_multiset() == paired(
            headers,
            all_accepted(headers.len()),
        ).to_multiset(),
        all_sent(gathered(sdk_headers_of(headers)), headers),
    decreases headers.len(),
{
    let sdk = sdk_headers_of(headers);
    let count = headers.len();
    if count == 0 {
        assert(returned(headers) =~= headers);
    } else {
        let before = headers.drop_last();
        let header = headers.last();
        assert(plain(headers).drop_last() =~= plain(before));
        assert(plain(headers).last().name == header.name);
        lemma_returned(before);
        assert(sdk.drop_last() =~= sdk_headers_of(before));
        assert(sdk.last() == SdkHeader { key: bytes_of(header.name), value: header.value });

        let list = gathered(sdk_headers_of(before));
        let at = key_slot(list, sdk.last().key);
        lemma_key_slot(list, sdk.last().key);
        encode_utf8_valid_utf8(header.name);
        encode_utf8_decode_utf8(header.name);
        assert(wire_header(sdk.last()) == header);

        if at > 0 && list[at - 1].key == sdk.last().key {
            assert(is_sent(list[at - 1], before));
            let j = choose|j: int|
                0 <= j < before.len() && list[at - 1].key == bytes_of((#[trigger] before[j]).name)
                    && list[at - 1].value == before[j].value;
            lemma_bytes_determine_text(before[j].name, header.name);
            lemma_present(plain(before), j);
            assert(plain(before)[j].name == header.name);
            assert(false);
        }
        assert(gathered(sdk) == list.insert(at, sdk.last()));
        assert(returned(headers) =~= returned(before).insert(at, header));

        let fewer = all_accepted((count - 1) as nat);
        let pair = (header, HeaderVerdict { name_accepted: true, value_accepted: true });
        assert(paired(returned(headers), all_accepted(count)) =~= paired(
            returned(before),
            fewer,
        ).insert(at, pair));
        assert(paired(headers, all_accepted(count)) =~= paired(before, fewer).push(pair));
        to_multiset_insert(paired(returned(before), fewer), at, pair);
        to_multiset_build(paired(before, fewer), pair);

        assert forall|i: int| 0 <= i < gathered(sdk).len() implies is_sent(
            #[trigger] gathered(sdk)[i],
            headers,
        ) by {
            if i == at {
                assert(headers[headers.len() - 1] == header);
            } else {
                let k = if i < at { i } else { i - 1 };
                assert(gathered(sdk)[i] == list[k]);
                assert(is_sent(list[k], before));
                let j = choose|j: int|
                    0 <= j < before.len() && list[k].key == bytes_of((#[trigger] before[j]).name)
                        && list[k].value == before[j].value;
                assert(headers[j] == before[j]);
            }
        }
    }
}

proof fn lemma_present(fields: Seq<Field>, k: int)
    requires
        0 <= k < fields.len(),
    ensures
        find(fields, fields[k].name) is Some,
    decreases fields.len(),
{
    if k < fields.len() - 1 {
        assert(fields.drop_last()[k] == fields[k]);
        lemma_present(fields.drop_last(), k);
    }
}

/// Receiving a published envelope gives the envelope back, at whatever offset the broker puts its
/// message.
///
/// The application headers are within the shared contract, and the contract accepts every name
/// and value, as it did when the envelope was made. The SDK orders the headers anew and does not
/// return the ordering key's own field; neither is lost. Only a `tracestate` too long for a header
/// field is. The headers are no more than the SDK counts when it reads a message.
pub proof fn law_published_envelope_is_received(e: EnvelopeModel, limits: HeaderLimits, offset: u64)
    requires
        encoded(e) is Ok,
        within_contract(e.metadata.headers, limits),
        2 * encoded(e)->Ok_0.headers.len() <= u32::MAX,
    ensures
        ({
            let record = encoded(e)->Ok_0;
            let message = MessageModel {
                offset,
                ..new_message(record.id, record.payload, sdk_headers_of(record.headers))
            };
            decoded(
                polled_record(message),
                all_accepted(polled_record(message).headers.len()),
                limits,
            ) == Ok::<_, IggyMappingError>(as_carried(e))
        }),
{
    let record = encoded(e)->Ok_0;
    let message = MessageModel {
        offset,
        ..new_message(record.id, record.payload, sdk_headers_of(record.headers))
    };
    let polled = polled_record(message);
    let verdicts = all_accepted(record.headers.len());
    law_envelope_round_trip(e, limits);
    lemma_encoded_headers(e, limits);
    lemma_checked_distinct(record.headers, verdicts, limits);
    lemma_returned(record.headers);
    assert(polled.headers =~= returned(record.headers));
    law_header_order_does_not_matter(
        record,
        verdicts,
        polled,
        verdicts,
        limits,
        as_carried(e),
    );
}

} // verus!
