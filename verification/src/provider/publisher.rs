//! Publication of one envelope: its destination, its SDK message, and what the reply means.

use crate::envelope::{EnvelopeModel, SerializedEnvelope};
use crate::failure::FailureKind;
use crate::provider::code::REQUEST_ALREADY_APPLIED;
use crate::provider::error::{
    publish_error, IggyPublishError, IggyPublishErrorKind, RoutingDestinationError,
};
use crate::provider::mapper::encode::{
    also, custom_headers, encoded, fits, framework_headers, misfit,
};
use crate::provider::mapper::framework::{framework_name, FrameworkHeader};
use crate::provider::mapper::record::{wire_headers, IggyRecord, WireHeader};
use crate::provider::mapper::round_trip::{lemma_no_misfit, written_text};
use crate::provider::mapper::IggyEnvelopeMapper;
use crate::provider::sdk::{
    build_message, denoted, error_code, field_headers, header_key, header_size, header_value,
    holdable, identifier_value, is_text_field, message_content, new_message, partitioning_key,
    SdkHeader,
};
use crate::text::{bytes_of, chars_of, text_between};
use iggy::prelude::{HeaderKey, HeaderValue, Identifier, IggyError, IggyMessage, Partitioning};
use vstd::prelude::*;
use vstd::utf8::{decode_utf8_encode_utf8, valid_utf8};

verus! {

/// The position of the first `/` in a text, or its length.
pub open spec fn first_slash(text: Seq<char>) -> int
    decreases text.len(),
{
    if text.len() == 0 {
        0
    } else if text[0] == '/' {
        0
    } else {
        1 + first_slash(text.skip(1))
    }
}

/// The two sides of a destination with exactly one `/`.
pub open spec fn split_destination(text: Seq<char>) -> Option<(Seq<char>, Seq<char>)> {
    let at = first_slash(text);

    if at < text.len() && !text.skip(at + 1).contains('/') {
        Some((text.take(at), text.skip(at + 1)))
    } else {
        None
    }
}

/// The stream and topic that an envelope's destination names, each of one to 255 bytes.
pub open spec fn destination(text: Option<Seq<char>>) -> Option<(Seq<char>, Seq<char>)> {
    match text {
        None => None,
        Some(text) => match split_destination(text) {
            Some((stream, topic)) => if fits(stream) && fits(topic) {
                Some((stream, topic))
            } else {
                None
            },
            None => None,
        },
    }
}

/// Resolves the stream and topic from the shared logical destination metadata, formatted as
/// `<stream>/<topic>` where each side is either a numeric id or a name up to 255 bytes.
#[derive(Clone, Copy, Debug)]
pub struct RoutingDestinationResolver;

proof fn lemma_first_slash(text: Seq<char>, at: int)
    requires
        0 <= at <= text.len(),
        forall|i: int| 0 <= i < at ==> text[i] != '/',
        at < text.len() ==> text[at] == '/',
    ensures
        first_slash(text) == at,
    decreases text.len(),
{
    if at > 0 {
        assert forall|i: int| 0 <= i < at - 1 implies text.skip(1)[i] != '/' by {
            assert(text.skip(1)[i] == text[i + 1]);
        }
        lemma_first_slash(text.skip(1), at - 1);
    }
}

/// Splits a destination with exactly one `/`.
fn split(text: &str) -> (sides: Option<(String, String)>)
    ensures
        match sides {
            Some((stream, topic)) => split_destination(text@) == Some((stream@, topic@)),
            None => split_destination(text@) is None,
        },
{
    let chars = chars_of(text);
    let mut at: usize = 0;

    while at < chars.len() && chars[at] != '/'
        invariant
            at <= chars@.len(),
            forall|i: int| 0 <= i < at ==> chars@[i] != '/',
        decreases chars@.len() - at,
    {
        at = at + 1;
    }

    proof {
        lemma_first_slash(chars@, at as int);
    }

    if at == chars.len() {
        return None;
    }

    let ghost rest = chars@.skip(at + 1);
    let mut i: usize = at + 1;

    while i < chars.len()
        invariant
            at < i <= chars@.len(),
            chars@ == text@,
            rest == chars@.skip(at + 1),
            first_slash(chars@) == at,
            forall|k: int| at < k < i ==> chars@[k] != '/',
        decreases chars@.len() - i,
    {
        if chars[i] == '/' {
            assert(rest[i - at - 1] == '/');
            return None;
        }
        i = i + 1;
    }

    assert forall|k: int| 0 <= k < rest.len() implies rest[k] != '/' by {
        assert(rest[k] == chars@[at + 1 + k]);
    }
    let stream = text_between(&chars, 0, at);
    let topic = text_between(&chars, at + 1, chars.len());
    assert(stream@ =~= text@.take(at as int));
    assert(topic@ =~= rest);
    Some((stream, topic))
}

impl RoutingDestinationResolver {
    /// Resolves the Iggy stream and topic identifiers for one envelope.
    pub fn resolve(&self, envelope: &SerializedEnvelope) -> (pair: Result<
        (Identifier, Identifier),
        RoutingDestinationError,
    >)
        ensures
            match pair {
                Ok((stream, topic)) => {
                    let sides = destination(envelope@.metadata.destination);
                    &&& sides is Some
                    &&& identifier_value(stream) == denoted(sides->Some_0.0)
                    &&& identifier_value(topic) == denoted(sides->Some_0.1)
                },
                Err(_) => destination(envelope@.metadata.destination) is None,
            },
    {
        let text = match &envelope.metadata.routing.destination {
            Some(text) => text,
            None => {
                return Err(RoutingDestinationError);
            },
        };
        let (stream, topic) = match split(text.as_str()) {
            Some(sides) => sides,
            None => {
                return Err(RoutingDestinationError);
            },
        };
        let stream = match Identifier::from_str_value(stream.as_str()) {
            Ok(stream) => stream,
            Err(_) => {
                return Err(RoutingDestinationError);
            },
        };

        match Identifier::from_str_value(topic.as_str()) {
            Ok(topic) => Ok((stream, topic)),
            Err(_) => Err(RoutingDestinationError),
        }
    }
}

/// A wire header that an SDK message can carry as text.
pub open spec fn sendable_header(header: WireHeader) -> bool {
    &&& fits(header.name)
    &&& valid_utf8(header.value)
    &&& 0 < header.value.len() <= 255
}

/// Wire headers as SDK headers.
pub open spec fn sdk_headers_of(headers: Seq<WireHeader>) -> Seq<SdkHeader> {
    headers.map_values(
        |header: WireHeader| SdkHeader { key: bytes_of(header.name), value: header.value },
    )
}

/// A record that one SDK message can hold. Its headers together fit into one allocation.
pub open spec fn sendable(id: u128, payload: Seq<u8>, headers: Seq<WireHeader>) -> bool {
    &&& forall|i: int| 0 <= i < headers.len() ==> sendable_header(#[trigger] headers[i])
    &&& header_size(sdk_headers_of(headers)) <= usize::MAX / 2
    &&& holdable(payload, sdk_headers_of(headers))
}

proof fn lemma_header_size_prefix(headers: Seq<SdkHeader>, k: int)
    requires
        0 <= k <= headers.len(),
    ensures
        header_size(headers.take(k)) <= header_size(headers),
    decreases headers.len(),
{
    if k == headers.len() {
        assert(headers.take(k) =~= headers);
    } else {
        lemma_header_size_prefix(headers.drop_last(), k);
        assert(headers.drop_last().take(k) =~= headers.take(k));
    }
}

/// Builds the SDK message of a record.
pub fn to_iggy_message(record: IggyRecord) -> (message: Result<IggyMessage, ()>)
    ensures
        message is Ok <==> sendable(record@.id, record@.payload, record@.headers),
        message matches Ok(message) ==> message_content(message) == new_message(
            record@.id,
            record@.payload,
            sdk_headers_of(record@.headers),
        ),
{
    let IggyRecord { id, payload, headers, key: _ } = record;
    let ghost wires = wire_headers(headers@);
    let ghost sdk = sdk_headers_of(wires);
    let mut fields: Vec<(HeaderKey, HeaderValue)> = Vec::new();
    let mut size: usize = 0;
    let mut i: usize = 0;

    while i < headers.len()
        invariant
            wires == wire_headers(headers@),
            wires == record@.headers,
            i == fields@.len(),
            i <= headers@.len(),
            forall|k: int| 0 <= k < i ==> sendable_header(#[trigger] wires[k]),
            forall|k: int| 0 <= k < i ==> is_text_field(#[trigger] fields@[k]),
            sdk == sdk_headers_of(wires),
            size == header_size(sdk_headers_of(wires.take(i as int))),
            size <= usize::MAX / 2,
            field_headers(fields@) == sdk_headers_of(wires.take(i as int)),
        decreases headers@.len() - i,
    {
        let header = &headers[i];
        let ghost wire = wires[i as int];
        assert(wire == header@);

        let key = match header_key(header.name.as_str()) {
            Ok(key) => key,
            Err(_) => {
                assert(!sendable_header(wire));
                return Err(());
            },
        };
        let bytes = header.value.clone();
        assert(bytes@ =~= header.value@);
        let text = match String::from_utf8(bytes) {
            Ok(text) => text,
            Err(_) => {
                assert(!sendable_header(wire));
                return Err(());
            },
        };
        proof {
            decode_utf8_encode_utf8(header.value@);
        }
        let value = match header_value(text.as_str()) {
            Ok(value) => value,
            Err(_) => {
                assert(!sendable_header(wire));
                return Err(());
            },
        };
        let added: usize = 10 + header.name.as_str().as_bytes().len() + header.value.len();
        proof {
            let one_more = sdk.take(i + 1);
            assert(one_more =~= sdk_headers_of(wires.take(i + 1)));
            assert(one_more.drop_last() =~= sdk_headers_of(wires.take(i as int)));
            assert(one_more.last() == SdkHeader { key: bytes_of(wire.name), value: wire.value });
            lemma_header_size_prefix(sdk, i + 1);
        }
        if added > usize::MAX / 2 - size {
            return Err(());
        }
        size = size + added;

        let ghost before = fields@;
        fields.push((key, value));
        proof {
            assert(wires.take(i + 1) =~= wires.take(i as int).push(wire));
            assert(field_headers(fields@) =~= field_headers(before).push(
                SdkHeader { key: bytes_of(wire.name), value: wire.value },
            ));
            assert(sdk_headers_of(wires.take(i + 1)) =~= sdk_headers_of(wires.take(i as int)).push(
                SdkHeader { key: bytes_of(wire.name), value: wire.value },
            ));
        }
        i = i + 1;
    }

    assert(wires.take(i as int) =~= wires);

    match build_message(id, payload, fields) {
        Ok(message) => Ok(message),
        Err(_) => Err(()),
    }
}

/// Chooses the partitioning of a record: by its key when it has one, and round-robin otherwise.
pub fn to_partitioning(key: Option<&[u8]>) -> (partitioning: Result<Partitioning, ()>)
    ensures
        partitioning is Err <==> key is Some && !(0 < key->Some_0@.len() <= 255),
        partitioning matches Ok(partitioning) ==> partitioning_key(partitioning) == (match key {
            Some(bytes) => Some(bytes@),
            None => None,
        }),
{
    match key {
        Some(bytes) => match Partitioning::messages_key(bytes) {
            Ok(partitioning) => Ok(partitioning),
            Err(_) => Err(()),
        },
        None => Ok(Partitioning::balanced()),
    }
}

/// Reports whether the server's reply confirms that the request already committed, with no fresh
/// reply payload to inspect.
fn is_confirmed_commit_without_reply(error: &IggyError) -> (confirmed: bool)
    ensures
        confirmed == (error_code(*error) == REQUEST_ALREADY_APPLIED),
{
    error.as_code() == REQUEST_ALREADY_APPLIED
}

/// Everything that one request to the server needs.
pub struct Publication {
    /// The stream to publish to.
    pub stream: Identifier,

    /// The topic to publish to.
    pub topic: Identifier,

    /// How the partition is chosen.
    pub partitioning: Partitioning,

    /// The message itself.
    pub message: IggyMessage,
}

/// Why an envelope cannot be published to a destination, before any request is made.
pub open spec fn publication_refusal(
    e: EnvelopeModel,
    destination: Result<(Identifier, Identifier), FailureKind>,
) -> Option<IggyPublishError> {
    match destination {
        Err(failure_kind) => Some(
            IggyPublishError { kind: IggyPublishErrorKind::Routing, failure_kind },
        ),
        Ok(_) => match encoded(e) {
            Ok(record) if sendable(record.id, record.payload, record.headers) => None,
            _ => Some(
                IggyPublishError {
                    kind: IggyPublishErrorKind::Mapping,
                    failure_kind: FailureKind::Permanent,
                },
            ),
        },
    }
}

/// Builds the request that publishes one envelope, given what the destination resolver said.
///
/// A resolver failure keeps its own classification; a mapping failure is permanent.
pub fn prepare_publication(
    envelope: &SerializedEnvelope,
    destination: Result<(Identifier, Identifier), FailureKind>,
) -> (publication: Result<Publication, IggyPublishError>)
    ensures
        match publication {
            Ok(publication) => {
                let record = encoded(envelope@)->Ok_0;
                &&& publication_refusal(envelope@, destination) is None
                &&& destination == Ok::<_, FailureKind>((publication.stream, publication.topic))
                &&& partitioning_key(publication.partitioning) == record.key
                &&& partitioning_key(publication.partitioning) == (match envelope@.ordering_key {
                    Some(key) => Some(bytes_of(key)),
                    None => None,
                })
                &&& message_content(publication.message).id == envelope@.message_id.value
                &&& message_content(publication.message).payload == envelope@.payload
                &&& message_content(publication.message) == new_message(
                    record.id,
                    record.payload,
                    sdk_headers_of(record.headers),
                )
            },
            Err(error) => publication_refusal(envelope@, destination) == Some(error),
        },
{
    let (stream, topic) = match destination {
        Ok(pair) => pair,
        Err(failure_kind) => {
            return Err(IggyPublishError::new(IggyPublishErrorKind::Routing, failure_kind));
        },
    };

    let record = match IggyEnvelopeMapper.encode(envelope) {
        Ok(record) => record,
        Err(_) => {
            return Err(
                IggyPublishError::new(IggyPublishErrorKind::Mapping, FailureKind::Permanent),
            );
        },
    };

    // The partitioning is computed from the record's key before the record is moved into the
    // message, so the payload is moved rather than cloned a second time.
    let partitioning = to_partitioning(
        match &record.key {
            Some(key) => Some(key.as_slice()),
            None => None,
        },
    );
    let message = to_iggy_message(record);

    match (partitioning, message) {
        (Ok(partitioning), Ok(message)) => Ok(
            Publication { stream, topic, partitioning, message },
        ),
        _ => Err(IggyPublishError::new(IggyPublishErrorKind::Mapping, FailureKind::Permanent)),
    }
}

/// What became of one publish request.
pub enum SendReply {
    /// The client's session was known to be closed, so nothing was sent.
    SessionClosed,

    /// The server's reply arrived.
    Acknowledged,

    /// The SDK reported an error.
    Failed(IggyError),

    /// The send timeout passed first.
    TimedOut,
}

/// The failure that a reply stands for; `None` means the message is committed.
pub open spec fn reply_failure(reply: SendReply) -> Option<IggyPublishError> {
    match reply {
        SendReply::SessionClosed => Some(
            IggyPublishError {
                kind: IggyPublishErrorKind::ClientDisconnected,
                failure_kind: FailureKind::Transient,
            },
        ),
        SendReply::Acknowledged => None,
        SendReply::Failed(error) => if error_code(error) == REQUEST_ALREADY_APPLIED {
            None
        } else {
            Some(publish_error(error_code(error)))
        },
        SendReply::TimedOut => Some(
            IggyPublishError {
                kind: IggyPublishErrorKind::OutcomeUnknown,
                failure_kind: FailureKind::Transient,
            },
        ),
    }
}

/// Says whether a publish request committed its message.
///
/// A request that the server confirms as already applied is durably written, so it counts as
/// success. A timeout leaves the outcome unknown: the request may still be sent and committed.
pub fn publish_outcome(reply: SendReply) -> (outcome: Result<(), IggyPublishError>)
    ensures
        match outcome {
            Ok(()) => reply_failure(reply) is None,
            Err(error) => reply_failure(reply) == Some(error),
        },
{
    match reply {
        SendReply::SessionClosed => Err(
            IggyPublishError::new(
                IggyPublishErrorKind::ClientDisconnected,
                FailureKind::Transient,
            ),
        ),
        SendReply::Acknowledged => Ok(()),
        SendReply::Failed(error) => {
            if is_confirmed_commit_without_reply(&error) {
                Ok(())
            } else {
                Err(IggyPublishError::from(error))
            }
        },
        SendReply::TimedOut => Err(
            IggyPublishError::new(IggyPublishErrorKind::OutcomeUnknown, FailureKind::Transient),
        ),
    }
}

/// A closed session is reported only where nothing was sent: no SDK error is ever read as one.
pub proof fn law_closed_session_means_unsent(reply: SendReply)
    requires
        reply_failure(reply) matches Some(error) && error.kind
            == IggyPublishErrorKind::ClientDisconnected,
    ensures
        reply is SessionClosed,
{
}

/// Once a request may have reached the server, it is permanent only where the server rejected it
/// by name, and safe to repeat without duplication only where the server refused admission.
pub proof fn law_sent_requests_stay_uncertain(error: IggyError)
    ensures
        reply_failure(SendReply::Failed(error)) matches Some(failure) ==> {
            &&& failure.failure_kind == FailureKind::Permanent <==> failure.kind
                == IggyPublishErrorKind::Rejected
            &&& failure.kind == IggyPublishErrorKind::Rejected || failure.kind
                == IggyPublishErrorKind::ServerTransient || failure.kind
                == IggyPublishErrorKind::OutcomeUnknown
        },
{
}

/// The partition is chosen by the ordering key alone: a message with one is partitioned by exactly
/// its bytes, whatever else the envelope holds, and a message without one goes round-robin.
pub proof fn law_published_messages_are_keyed_by_the_ordering_key(
    e: EnvelopeModel,
    destination: Result<(Identifier, Identifier), FailureKind>,
)
    requires
        publication_refusal(e, destination) is None,
    ensures
        destination is Ok,
        encoded(e) is Ok,
        e.ordering_key matches Some(key) ==> encoded(e)->Ok_0.key == Some(bytes_of(key)) && 1
            <= bytes_of(key).len() <= 255,
        e.ordering_key is None ==> encoded(e)->Ok_0.key is None,
{
}

/// A stream and a topic of one to 255 bytes without a `/`, joined by one, are a destination, and
/// it names just these two.
pub proof fn law_joined_names_are_a_destination(stream: Seq<char>, topic: Seq<char>)
    requires
        !stream.contains('/'),
        !topic.contains('/'),
        1 <= bytes_of(stream).len() <= 255,
        1 <= bytes_of(topic).len() <= 255,
    ensures
        destination(Some(stream.push('/') + topic)) == Some((stream, topic)),
{
    let text = stream.push('/') + topic;
    let at = stream.len() as int;
    assert(text[at] == '/');
    assert forall|i: int| 0 <= i < at implies text[i] != '/' by {
        assert(text[i] == stream[i]);
        assert(stream.contains(stream[i]));
    }
    lemma_first_slash(text, at);
    assert(text.take(at) =~= stream);
    assert(text.skip(at + 1) =~= topic);
}

proof fn lemma_first_slash_found(text: Seq<char>)
    ensures
        0 <= first_slash(text) <= text.len(),
        first_slash(text) < text.len() ==> text[first_slash(text)] == '/',
        forall|i: int| 0 <= i < first_slash(text) ==> text[i] != '/',
    decreases text.len(),
{
    if text.len() > 0 && text[0] != '/' {
        let rest = text.skip(1);
        lemma_first_slash_found(rest);
        assert(rest.len() == text.len() - 1);
        assert forall|i: int| 0 <= i < first_slash(text) implies text[i] != '/' by {
            if i > 0 {
                assert(rest[i - 1] == text[i]);
            }
        }
        if first_slash(text) < text.len() {
            assert(rest[first_slash(rest)] == text[first_slash(text)]);
        }
    }
}

/// A destination that names a stream and a topic is these two joined by its only `/`, each of one
/// to 255 bytes. A missing destination names nothing.
pub proof fn law_destinations_are_joined_names(text: Option<Seq<char>>)
    ensures
        text is None ==> destination(text) is None,
        destination(text) matches Some((stream, topic)) ==> {
            &&& text == Some(stream.push('/') + topic)
            &&& !stream.contains('/')
            &&& !topic.contains('/')
            &&& 1 <= bytes_of(stream).len() <= 255
            &&& 1 <= bytes_of(topic).len() <= 255
        },
{
    if let Some(text) = text {
        lemma_first_slash_found(text);
        let at = first_slash(text);
        if at < text.len() {
            assert(text =~= text.take(at).push('/') + text.skip(at + 1));
            assert forall|i: int| 0 <= i < at implies text.take(at)[i] != '/' by {
                assert(text.take(at)[i] == text[i]);
            }
            assert(!text.take(at).contains('/'));
        }
    }
}

/// A message is committed exactly if the server's reply arrived, or the server said that it had
/// applied the request already. Before that, a closed session means that nothing was sent; a
/// timeout leaves the outcome unknown, and any other error is what its code says.
pub proof fn law_replies_tell_what_became_of_the_message(reply: SendReply)
    ensures
        match reply {
            SendReply::Acknowledged => reply_failure(reply) is None,
            SendReply::SessionClosed => reply_failure(reply) matches Some(failure) && failure.kind
                is ClientDisconnected && failure.failure_kind is Transient,
            SendReply::TimedOut => reply_failure(reply) matches Some(failure) && failure.kind
                is OutcomeUnknown && failure.failure_kind is Transient,
            SendReply::Failed(error) => if error_code(error) == 59 {
                reply_failure(reply) is None
            } else {
                reply_failure(reply) == Some(publish_error(error_code(error)))
            },
        },
{
}

/// An envelope that cannot be routed is refused with the resolver's own classification, before
/// anything else is looked at. One that can be routed is refused only as unmappable, and for good.
pub proof fn law_publications_are_refused_for_cause(
    e: EnvelopeModel,
    destination: Result<(Identifier, Identifier), FailureKind>,
)
    ensures
        match destination {
            Err(kind) => publication_refusal(e, destination) == Some(
                IggyPublishError { kind: IggyPublishErrorKind::Routing, failure_kind: kind },
            ),
            Ok(_) => match publication_refusal(e, destination) {
                None => encoded(e) is Ok,
                Some(refusal) => refusal.kind is Mapping && refusal.failure_kind is Permanent,
            },
        },
        encoded(e) is Err ==> publication_refusal(e, destination) is Some,
{
}

spec fn all_sendable(headers: Seq<WireHeader>) -> bool {
    forall|i: int| 0 <= i < headers.len() ==> sendable_header(#[trigger] headers[i])
}

proof fn lemma_framework_name_fits(name: FrameworkHeader)
    ensures
        fits(framework_name(name)),
{
    reveal_strlit("message-id");
    reveal_strlit("message-type");
    reveal_strlit("message-version");
    reveal_strlit("content-type");
    reveal_strlit("ordering-key");
    reveal_strlit("correlation-id");
    reveal_strlit("conversation-id");
    reveal_strlit("causation-id");
    reveal_strlit("request-id");
    reveal_strlit("source");
    reveal_strlit("destination");
    reveal_strlit("reply-to");
    reveal_strlit("sent-at-ms");
    reveal_strlit("deduplication-id");
    reveal_strlit("tenant-id");
    reveal_strlit("traceparent");
    reveal_strlit("tracestate");
    let text = framework_name(name);
    assert(0 < text.len() <= 20);
    assert(vstd::utf8::is_ascii_chars(text));
    vstd::utf8::is_ascii_chars_encode_utf8(text);
}

proof fn lemma_also_sendable(headers: Seq<WireHeader>, name: FrameworkHeader, text: Option<Seq<char>>)
    requires
        all_sendable(headers),
        !misfit(text),
    ensures
        all_sendable(also(headers, name, text)),
{
    lemma_framework_name_fits(name);
    if let Some(text) = text {
        vstd::utf8::encode_utf8_valid_utf8(text);
    }
}

proof fn lemma_next_sendable(headers: Seq<WireHeader>, e: EnvelopeModel, name: FrameworkHeader) -> (after:
    Seq<WireHeader>)
    requires
        encoded(e) is Ok,
        all_sendable(headers),
    ensures
        after == also(headers, name, written_text(e, name)),
        all_sendable(after),
{
    lemma_no_misfit(e, name);
    lemma_also_sendable(headers, name, written_text(e, name));
    also(headers, name, written_text(e, name))
}

proof fn lemma_framework_sendable(e: EnvelopeModel)
    requires
        encoded(e) is Ok,
    ensures
        all_sendable(framework_headers(e)),
{
    let h = Seq::<WireHeader>::empty();
    let h = lemma_next_sendable(h, e, FrameworkHeader::MessageId);
    let h = lemma_next_sendable(h, e, FrameworkHeader::MessageType);
    let h = lemma_next_sendable(h, e, FrameworkHeader::MessageVersion);
    let h = lemma_next_sendable(h, e, FrameworkHeader::ContentType);
    let h = lemma_next_sendable(h, e, FrameworkHeader::OrderingKey);
    let h = lemma_next_sendable(h, e, FrameworkHeader::CorrelationId);
    let h = lemma_next_sendable(h, e, FrameworkHeader::ConversationId);
    let h = lemma_next_sendable(h, e, FrameworkHeader::CausationId);
    let h = lemma_next_sendable(h, e, FrameworkHeader::RequestId);
    let h = lemma_next_sendable(h, e, FrameworkHeader::Source);
    let h = lemma_next_sendable(h, e, FrameworkHeader::Destination);
    let h = lemma_next_sendable(h, e, FrameworkHeader::ReplyTo);
    let h = lemma_next_sendable(h, e, FrameworkHeader::SentAtMs);
    let h = lemma_next_sendable(h, e, FrameworkHeader::DeduplicationId);
    let h = lemma_next_sendable(h, e, FrameworkHeader::TenantId);
    let h = lemma_next_sendable(h, e, FrameworkHeader::Traceparent);
    let h = lemma_next_sendable(h, e, FrameworkHeader::Tracestate);
}

/// An envelope that has a record is published wherever it is routed to, as long as the names of its
/// application headers are one to 255 bytes long and the headers together are within the SDK's
/// bounds.
pub proof fn law_encoded_envelopes_are_published(
    e: EnvelopeModel,
    stream: Identifier,
    topic: Identifier,
)
    requires
        encoded(e) is Ok,
        forall|i: int|
            0 <= i < e.metadata.headers.len() ==> 1 <= bytes_of(
                (#[trigger] e.metadata.headers[i]).name,
            ).len() <= 255,
        header_size(sdk_headers_of(encoded(e)->Ok_0.headers)) <= usize::MAX / 2,
        holdable(e.payload, sdk_headers_of(encoded(e)->Ok_0.headers)),
    ensures
        publication_refusal(e, Ok((stream, topic))) is None,
{
    let customs = e.metadata.headers;
    let record = encoded(e)->Ok_0;
    let first = framework_headers(e);
    let rest = custom_headers(customs);
    lemma_framework_sendable(e);
    assert forall|i: int| 0 <= i < rest.len() implies sendable_header(#[trigger] rest[i]) by {
        assert(fits(customs[i].value));
        assert(bytes_of(customs[i].name).len() >= 1);
        vstd::utf8::encode_utf8_valid_utf8(customs[i].value);
    }
    assert(record.headers == first + rest);
    assert forall|i: int| 0 <= i < record.headers.len() implies sendable_header(
        #[trigger] record.headers[i],
    ) by {
        if i < first.len() {
            assert(record.headers[i] == first[i]);
        } else {
            assert(record.headers[i] == rest[i - first.len()]);
        }
    }
}

} // verus!
