//! What the library takes from the Iggy SDK.
//!
//! Everything here is a declaration about the SDK: its types, the codes of its errors, and what
//! its pure functions return.

use crate::text::{bytes_of, parsed_decimal, precedes};
use iggy::prelude::{HeaderKey, HeaderValue, Identifier, IggyError, IggyMessage, Partitioning};
use iggy_common::{HeaderField, KeyMarker, ValueMarker};
use vstd::prelude::*;

verus! {

/// The SDK's error.
#[verifier::external_type_specification]
#[verifier::external_body]
pub struct ExIggyError(IggyError);

/// The SDK's stream, topic, and group identifier.
#[verifier::external_type_specification]
#[verifier::external_body]
pub struct ExIdentifier(Identifier);

/// The SDK's message.
#[verifier::external_type_specification]
#[verifier::external_body]
pub struct ExIggyMessage(IggyMessage);

/// The SDK's partitioning strategy.
#[verifier::external_type_specification]
#[verifier::external_body]
pub struct ExPartitioning(Partitioning);

/// The SDK's header field, as a key or a value.
#[verifier::external_type_specification]
#[verifier::external_body]
#[verifier::reject_recursive_types(T)]
pub struct ExHeaderField<T>(HeaderField<T>);

/// Marks a header field as a key.
#[verifier::external_type_specification]
#[verifier::external_body]
pub struct ExKeyMarker(KeyMarker);

/// Marks a header field as a value.
#[verifier::external_type_specification]
#[verifier::external_body]
pub struct ExValueMarker(ValueMarker);

/// What `IggyError::as_code` returns: the error's own code.
pub uninterp spec fn error_code(error: IggyError) -> u32;

/// `IggyError::as_code`: the code that the SDK gives to the error's variant.
pub assume_specification[ IggyError::as_code ](error: &IggyError) -> (code: u32)
    ensures
        code == error_code(*error),
;

/// Who an identifier names.
pub enum IdentifierModel {
    /// A numeric id.
    Numeric(nat),

    /// A name.
    Named(Seq<char>),
}

/// What an identifier holds.
pub uninterp spec fn identifier_value(identifier: Identifier) -> IdentifierModel;

/// The identifier that a text of one to 255 bytes denotes: an id where it is a number of 32 bits,
/// and a name otherwise.
pub open spec fn denoted(text: Seq<char>) -> IdentifierModel {
    match parsed_decimal(text, u32::MAX as nat) {
        Some(id) => IdentifierModel::Numeric(id),
        None => IdentifierModel::Named(text),
    }
}

/// `Identifier::from_str_value`: accepts a text of one to 255 bytes, as a number if it is one.
pub assume_specification[ Identifier::from_str_value ](value: &str) -> (identifier: Result<
    Identifier,
    IggyError,
>)
    ensures
        identifier is Ok <==> 0 < bytes_of(value@).len() <= 255,
        identifier matches Ok(identifier) ==> identifier_value(identifier) == denoted(value@),
;

/// The key that a partitioning strategy hashes; `None` for round-robin.
pub uninterp spec fn partitioning_key(partitioning: Partitioning) -> Option<Seq<u8>>;

/// `Partitioning::messages_key`: a strategy that hashes a key of one to 255 bytes.
pub assume_specification[ Partitioning::messages_key ](value: &[u8]) -> (partitioning: Result<
    Partitioning,
    IggyError,
>)
    ensures
        partitioning is Ok <==> 0 < value@.len() <= 255,
        partitioning matches Ok(partitioning) ==> partitioning_key(partitioning) == Some(value@),
;

/// `Partitioning::balanced`: the round-robin strategy, which hashes no key.
pub assume_specification[ Partitioning::balanced ]() -> (partitioning: Partitioning)
    ensures
        partitioning_key(partitioning) is None,
;

/// The bytes that a header field holds, as a key.
pub uninterp spec fn key_bytes(key: HeaderKey) -> Seq<u8>;

/// The bytes that a header field holds, as a value.
pub uninterp spec fn value_bytes(value: HeaderValue) -> Seq<u8>;

/// Whether a key is of the SDK's string kind, as `HeaderField::kind` tells.
pub uninterp spec fn is_text_key(key: HeaderKey) -> bool;

/// Whether a value is of the SDK's string kind, as `HeaderField::kind` tells.
pub uninterp spec fn is_text_value(value: HeaderValue) -> bool;

/// A key and a value of the string kind, of one to 255 bytes each. A field of the SDK that came
/// from elsewhere, such as from its serialized form, may have any kind and length.
pub open spec fn is_text_field(field: (HeaderKey, HeaderValue)) -> bool {
    &&& is_text_key(field.0)
    &&& 0 < key_bytes(field.0).len() <= 255
    &&& is_text_value(field.1)
    &&& 0 < value_bytes(field.1).len() <= 255
}

/// `HeaderKey::try_from` on a text: a key of the string kind, of one to 255 bytes, that holds the
/// text's bytes.
#[verifier::external_body]
pub(crate) fn header_key(text: &str) -> (key: Result<HeaderKey, IggyError>)
    ensures
        key is Ok <==> 0 < bytes_of(text@).len() <= 255,
        key matches Ok(key) ==> key_bytes(key) == bytes_of(text@) && is_text_key(key),
{
    HeaderKey::try_from(text)
}

/// `HeaderValue::try_from` on a text: a value of the string kind, of one to 255 bytes, that holds
/// the text's bytes.
#[verifier::external_body]
pub(crate) fn header_value(text: &str) -> (value: Result<HeaderValue, IggyError>)
    ensures
        value is Ok <==> 0 < bytes_of(text@).len() <= 255,
        value matches Ok(value) ==> value_bytes(value) == bytes_of(text@) && is_text_value(value),
{
    HeaderValue::try_from(text)
}

/// A header of an SDK message: its key and value bytes.
pub struct SdkHeader {
    pub key: Seq<u8>,
    pub value: Seq<u8>,
}

/// What an SDK message holds.
pub struct MessageModel {
    /// The message's id.
    pub id: u128,

    /// The message's offset in its partition.
    pub offset: u64,

    /// The message's body.
    pub payload: Seq<u8>,

    /// Whether the message carries header bytes at all.
    pub carries_headers: bool,

    /// The headers in the SDK's order, if the SDK can read them.
    pub headers: Option<Seq<SdkHeader>>,
}

/// What a message holds, as its fields and `IggyMessage::user_headers_map` report it.
pub uninterp spec fn message_content(message: IggyMessage) -> MessageModel;

/// A polled message as plain values.
#[derive(Clone, Debug, PartialEq, Eq)]
pub struct PolledMessage {
    /// The message's id.
    pub id: u128,

    /// The message's offset in its partition.
    pub offset: u64,

    /// The message's body.
    pub payload: Vec<u8>,

    /// Whether the message carries header bytes at all.
    pub carries_headers: bool,

    /// The keys and values of the headers, if the SDK can read them.
    pub headers: Option<Vec<(Vec<u8>, Vec<u8>)>>,
}

/// Key and value bytes as one header.
pub open spec fn sdk_headers(pairs: Seq<(Vec<u8>, Vec<u8>)>) -> Seq<SdkHeader> {
    pairs.map_values(|pair: (Vec<u8>, Vec<u8>)| SdkHeader { key: pair.0@, value: pair.1@ })
}

impl View for PolledMessage {
    type V = MessageModel;

    open spec fn view(&self) -> MessageModel {
        MessageModel {
            id: self.id,
            offset: self.offset,
            payload: self.payload@,
            carries_headers: self.carries_headers,
            headers: match self.headers {
                Some(pairs) => Some(sdk_headers(pairs@)),
                None => None,
            },
        }
    }
}

/// The fields of an `IggyMessage`, with `IggyMessage::user_headers_map` for its headers: `None`
/// where that reports no headers or an error.
#[verifier::external_body]
pub(crate) fn read_message(message: &IggyMessage) -> (polled: PolledMessage)
    ensures
        polled@ == message_content(*message),
{
    let map = message.user_headers_map().ok().flatten();
    PolledMessage {
        id: message.header.id,
        offset: message.header.offset,
        payload: message.payload.to_vec(),
        carries_headers: message.user_headers.is_some(),
        headers: map.map(|map| {
            map.iter().map(|(k, v)| (k.as_bytes().to_vec(), v.as_bytes().to_vec())).collect()
        }),
    }
}

/// Where a key belongs in a list in byte order.
pub open spec fn key_slot(headers: Seq<SdkHeader>, key: Seq<u8>) -> int
    decreases headers.len(),
{
    if headers.len() == 0 || !precedes(key, headers.last().key) {
        headers.len() as int
    } else {
        key_slot(headers.drop_last(), key)
    }
}

/// Headers gathered into a map in byte order of their keys: a later header replaces an earlier
/// one with the same key.
pub open spec fn gathered(headers: Seq<SdkHeader>) -> Seq<SdkHeader>
    decreases headers.len(),
{
    if headers.len() == 0 {
        seq![]
    } else {
        let before = gathered(headers.drop_last());
        let header = headers.last();
        let at = key_slot(before, header.key);

        if at > 0 && before[at - 1].key == header.key {
            before.update(at - 1, header)
        } else {
            before.insert(at, header)
        }
    }
}

/// The bytes that headers take in a message: each has two kinds and two lengths of four bytes
/// beside its key and value.
pub open spec fn header_size(headers: Seq<SdkHeader>) -> nat
    decreases headers.len(),
{
    if headers.len() == 0 {
        0
    } else {
        header_size(headers.drop_last()) + 10 + headers.last().key.len()
            + headers.last().value.len()
    }
}

/// SDK header fields as plain values.
pub open spec fn field_headers(fields: Seq<(HeaderKey, HeaderValue)>) -> Seq<SdkHeader> {
    fields.map_values(
        |field: (HeaderKey, HeaderValue)| SdkHeader {
            key: key_bytes(field.0),
            value: value_bytes(field.1),
        },
    )
}

/// Headers as the SDK reads them back from a message's bytes. It counts keys and values together
/// in 32 bits, and takes bytes that hold more of them for unreadable.
pub open spec fn read_back(headers: Seq<SdkHeader>) -> Option<Seq<SdkHeader>> {
    if 2 * headers.len() <= u32::MAX {
        Some(headers)
    } else {
        None
    }
}

/// What a new message holds: the headers are gathered by key, and the offset is not set yet.
pub open spec fn new_message(
    id: u128,
    payload: Seq<u8>,
    headers: Seq<SdkHeader>,
) -> MessageModel {
    MessageModel {
        id,
        offset: 0,
        payload,
        carries_headers: true,
        headers: read_back(gathered(headers)),
    }
}

/// A payload and headers that one message can hold: one to sixty-four million bytes of payload,
/// and at most a hundred thousand bytes of headers. The SDK compares only the low 32 bits of the
/// headers' length with that bound.
pub open spec fn holdable(payload: Seq<u8>, headers: Seq<SdkHeader>) -> bool {
    &&& 0 < payload.len() <= 64_000_000
    &&& header_size(gathered(headers)) % 0x1_0000_0000 <= 100_000
}

/// `IggyMessage::builder` with an id, a payload, and user headers: builds exactly the messages
/// within the SDK's bounds, where the length of the headers counts by its low 32 bits. The fields
/// are all texts of one to 255 bytes, so the SDK orders the keys by their bytes and reads every
/// field back; and together they fit into one allocation, which the SDK makes of them.
#[verifier::external_body]
pub(crate) fn build_message(
    id: u128,
    payload: Vec<u8>,
    fields: Vec<(HeaderKey, HeaderValue)>,
) -> (message: Result<IggyMessage, IggyError>)
    requires
        forall|i: int| 0 <= i < fields@.len() ==> is_text_field(#[trigger] fields@[i]),
        header_size(field_headers(fields@)) <= usize::MAX / 2,
    ensures
        message is Ok <==> holdable(payload@, field_headers(fields@)),
        message is Ok ==> message_content(message->Ok_0) == new_message(
            id,
            payload@,
            field_headers(fields@),
        ),
{
    IggyMessage::builder()
        .id(id)
        .payload(payload.into())
        .user_headers(fields.into_iter().collect())
        .build()
}

} // verus!
