//! Projection of polled messages into the provider's owned wire record.

use crate::headers::HeaderLimits;
use crate::provider::error::IggyMappingError;
use crate::provider::mapper::decode::decoded;
use crate::provider::mapper::framework::{framework_name, is_framework_name, FrameworkHeader};
use crate::provider::mapper::normalize::{with_headers, HeaderVerdict};
use crate::provider::mapper::record::{wire_headers, IggyHeader, IggyRecord, WireHeader, WireRecord};
use crate::provider::sdk::{
    message_content, read_message, sdk_headers, MessageModel, PolledMessage, SdkHeader,
};
use crate::provider::source::slot::messages;
use iggy::prelude::IggyMessage;
use std::collections::VecDeque;
use vstd::prelude::*;
use vstd::utf8::{decode_utf8, valid_utf8};

verus! {

/// A header that the mapper always rejects: an empty name is invalid in every direction.
pub open spec fn unreadable_header() -> WireHeader {
    WireHeader { name: seq![], value: seq![0u8] }
}

/// The wire form of one SDK header; a name that is not text is unreadable.
pub open spec fn wire_header(header: SdkHeader) -> WireHeader {
    if valid_utf8(header.key) {
        WireHeader { name: decode_utf8(header.key), value: header.value }
    } else {
        unreadable_header()
    }
}

/// The wire headers of a message: none where it carries none, and one unreadable header where it
/// carries bytes that the SDK cannot read.
pub open spec fn wire_headers_of(message: MessageModel) -> Seq<WireHeader> {
    match message.headers {
        Some(headers) => headers.map_values(|header: SdkHeader| wire_header(header)),
        None => if message.carries_headers {
            seq![unreadable_header()]
        } else {
            seq![]
        },
    }
}

/// The record of a polled message. Iggy does not return the messages-key on reads, so the record
/// never carries a key.
pub open spec fn polled_record(message: MessageModel) -> WireRecord {
    WireRecord {
        id: message.id,
        payload: message.payload,
        headers: wire_headers_of(message),
        key: None,
    }
}

/// What SDK messages hold, one by one.
pub open spec fn contents(messages: Seq<IggyMessage>) -> Seq<MessageModel> {
    messages.map_values(|message: IggyMessage| message_content(message))
}

/// Reads the messages of a poll into plain values, in their order.
pub fn polled_messages(sdk: &Vec<IggyMessage>) -> (polled: VecDeque<PolledMessage>)
    ensures
        messages(polled@) == contents(sdk@),
{
    let mut polled: VecDeque<PolledMessage> = VecDeque::new();
    let mut i: usize = 0;
    assert(messages(polled@) =~= contents(sdk@.take(0)));

    while i < sdk.len()
        invariant
            i <= sdk@.len(),
            messages(polled@) == contents(sdk@.take(i as int)),
        decreases sdk@.len() - i,
    {
        let ghost before = polled@;
        let message = read_message(&sdk[i]);
        polled.push_back(message);
        i = i + 1;
        assert(messages(polled@) =~= messages(before).push(message@));
        assert(contents(sdk@.take(i as int)) =~= contents(sdk@.take(i - 1)).push(message@));
    }

    assert(sdk@.take(i as int) =~= sdk@);
    polled
}

fn unreadable() -> (header: IggyHeader)
    ensures
        header@ == unreadable_header(),
{
    let mut value: Vec<u8> = Vec::new();
    value.push(0);
    let header = IggyHeader { name: String::new(), value };
    assert(header@.value =~= seq![0u8]);
    header
}

/// Converts one polled message into the record the envelope mapper decodes.
///
/// A header name that is not UTF-8, or header bytes the SDK cannot read, is never dropped or
/// repaired: the record then carries a header that the mapper rejects, so the record resolves
/// through the consumer's malformed path.
pub fn record(message: PolledMessage) -> (record: IggyRecord)
    ensures
        record@ == polled_record(message@),
{
    let PolledMessage { id, offset: _, payload, carries_headers, headers: parsed } = message;
    let mut headers: Vec<IggyHeader> = Vec::new();
    assert(wire_headers(headers@) =~= seq![]);

    match parsed {
        Some(pairs) => {
            let ghost sdk = sdk_headers(pairs@);
            let mut i: usize = 0;
            assert(sdk.take(0).map_values(|header: SdkHeader| wire_header(header)) =~= seq![]);

            while i < pairs.len()
                invariant
                    i <= pairs@.len(),
                    sdk == sdk_headers(pairs@),
                    wire_headers(headers@) == sdk.take(i as int).map_values(
                        |header: SdkHeader| wire_header(header),
                    ),
                decreases pairs@.len() - i,
            {
                let ghost before = headers@;
                let pair = &pairs[i];
                let name_bytes = pair.0.clone();
                let value = pair.1.clone();
                assert(name_bytes@ =~= pair.0@);
                assert(value@ =~= pair.1@);
                let header = match String::from_utf8(name_bytes) {
                    Ok(name) => IggyHeader { name, value },
                    Err(_) => unreadable(),
                };
                proof {
                    assert(sdk[i as int] == SdkHeader { key: pair.0@, value: pair.1@ });
                    assert(header@ == wire_header(sdk[i as int]));
                    assert(sdk.take(i + 1) =~= sdk.take(i as int).push(sdk[i as int]));
                }
                headers.push(header);
                assert(wire_headers(headers@) =~= wire_headers(before).push(header@));
                assert(wire_headers(headers@) =~= sdk.take(i + 1).map_values(
                    |header: SdkHeader| wire_header(header),
                ));
                i = i + 1;
            }

            assert(sdk.take(i as int) =~= sdk);
        },
        None => {
            if carries_headers {
                headers.push(unreadable());
                assert(wire_headers(headers@) =~= seq![unreadable_header()]);
            }
        },
    }

    IggyRecord { id, payload, headers, key: None }
}

/// A message whose headers the SDK cannot read is rejected as malformed, whatever the verdict on
/// its stand-in header.
pub proof fn law_unreadable_headers_are_rejected(
    message: MessageModel,
    verdicts: Seq<HeaderVerdict>,
    limits: HeaderLimits,
)
    requires
        message.carries_headers,
        message.headers is None,
        verdicts.len() == 1,
    ensures
        decoded(polled_record(message), verdicts, limits) == Err::<
            crate::envelope::EnvelopeModel,
            _,
        >(IggyMappingError::InvalidHeader),
{
    let headers = wire_headers_of(message);
    let header = unreadable_header();
    assert(headers.drop_last() =~= seq![]);
    assert(with_headers(headers.drop_last(), verdicts.drop_last(), limits) == Ok::<
        Seq<crate::provider::mapper::normalize::Field>,
        IggyMappingError,
    >(seq![]));
    assert(!is_framework_name(crate::text::lower_text(header.name))) by {
        if is_framework_name(crate::text::lower_text(header.name)) {
            let known = choose|known: FrameworkHeader| #[trigger]
                framework_name(known) == crate::text::lower_text(header.name);
            crate::provider::mapper::framework::lemma_framework_name_not_empty(known);
        }
    }
}

/// The messages of a poll are read one by one, in their order, and none is left out.
pub proof fn law_polled_messages_keep_their_order(sdk: Seq<IggyMessage>, i: int)
    requires
        0 <= i < sdk.len(),
    ensures
        contents(sdk).len() == sdk.len(),
        contents(sdk)[i] == message_content(sdk[i]),
{
}

} // verus!
