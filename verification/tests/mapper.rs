//! The envelope mapping, on hand-built records.

use iggy::prelude::Identifier;
use sisa_messaging::envelope::{
    ConversationId, CorrelationMetadata, DeliveryMetadata, MessageId, Metadata, RequestId,
    RoutingMetadata, SerializedEnvelope, TraceMetadata,
};
use sisa_messaging::failure::FailureKind;
use sisa_messaging::headers::{HeaderLimits, Headers};
use sisa_messaging::provider::mapper::normalize::HeaderVerdict;
use sisa_messaging::provider::publisher::{prepare_publication, to_iggy_message};
use sisa_messaging::provider::source::wire::{polled_messages, record};
use sisa_messaging::provider::{IggyEnvelopeMapper, IggyHeader, IggyMappingError, IggyRecord};

fn limits() -> HeaderLimits {
    HeaderLimits {
        max_count: 64,
        max_bytes: 65_536,
    }
}

/// Decodes a record whose header names and values are all acceptable.
fn decode(wire: IggyRecord) -> Result<SerializedEnvelope, IggyMappingError> {
    let verdicts = wire
        .headers
        .iter()
        .map(|_| HeaderVerdict {
            name_accepted: true,
            value_accepted: true,
        })
        .collect();

    IggyEnvelopeMapper.decode(wire, &verdicts, limits())
}

fn encode(envelope: &SerializedEnvelope) -> Result<IggyRecord, IggyMappingError> {
    IggyEnvelopeMapper.encode(envelope)
}

fn envelope() -> SerializedEnvelope {
    let mut headers = Headers::new();
    assert!(headers.insert("x-request-zone".to_owned(), "west".to_owned()));

    SerializedEnvelope {
        message_id: MessageId::parse("01890f52-7b00-7000-8000-000000000001")
            .expect("valid fixed message id"),
        message_type: "orders.created".to_owned(),
        message_version: 4,
        content_type: "application/json".to_owned(),
        payload: br#"{"order":7}"#.to_vec(),
        metadata: Metadata {
            correlation: CorrelationMetadata {
                correlation_id: Some("corr-1".to_owned()),
                conversation_id: Some(
                    ConversationId::parse("01890f52-7b00-7000-8000-000000000002")
                        .expect("valid fixed conversation id"),
                ),
                causation_id: Some(
                    MessageId::parse("01890f52-7b00-7000-8000-000000000003")
                        .expect("valid fixed causation id"),
                ),
                request_id: Some(
                    RequestId::parse("01890f52-7b00-7000-8000-000000000004")
                        .expect("valid fixed request id"),
                ),
            },
            trace: TraceMetadata {
                traceparent: Some(
                    "00-4bf92f3577b34da6a3ce929d0e0e4736-00f067aa0ba902b7-01".to_owned(),
                ),
                tracestate: Some("vendor=value".to_owned()),
            },
            routing: RoutingMetadata {
                source: Some("orders-api".to_owned()),
                destination: Some("orders.created".to_owned()),
                reply_to: Some("orders.results".to_owned()),
            },
            delivery: DeliveryMetadata {
                sent_at_ms: Some(1_700_000_000_000),
                deduplication_id: Some("dedup-7".to_owned()),
            },
            tenant_id: Some("tenant-1".to_owned()),
            headers,
        },
        ordering_key: Some("order-7".to_owned()),
    }
}

fn expected_headers() -> Vec<IggyHeader> {
    [
        ("message-id", "01890f52-7b00-7000-8000-000000000001"),
        ("message-type", "orders.created"),
        ("message-version", "4"),
        ("content-type", "application/json"),
        ("ordering-key", "order-7"),
        ("correlation-id", "corr-1"),
        ("conversation-id", "01890f52-7b00-7000-8000-000000000002"),
        ("causation-id", "01890f52-7b00-7000-8000-000000000003"),
        ("request-id", "01890f52-7b00-7000-8000-000000000004"),
        ("source", "orders-api"),
        ("destination", "orders.created"),
        ("reply-to", "orders.results"),
        ("sent-at-ms", "1700000000000"),
        ("deduplication-id", "dedup-7"),
        ("tenant-id", "tenant-1"),
        (
            "traceparent",
            "00-4bf92f3577b34da6a3ce929d0e0e4736-00f067aa0ba902b7-01",
        ),
        ("tracestate", "vendor=value"),
        ("x-request-zone", "west"),
    ]
    .into_iter()
    .map(|(name, value)| IggyHeader {
        name: name.to_owned(),
        value: value.as_bytes().to_vec(),
    })
    .collect()
}

#[test]
fn iggy_mapping_uses_stable_wire_headers_and_decodes_an_independent_record() {
    let expected = envelope();

    let encoded = encode(&expected).expect("fixture maps");

    assert_eq!(encoded.id, expected.message_id.as_uuid().as_u128());
    assert_eq!(encoded.payload, br#"{"order":7}"#);
    assert_eq!(encoded.headers, expected_headers());
    assert_eq!(encoded.key.as_deref(), Some(b"order-7".as_slice()));

    let hand_built_record = IggyRecord {
        id: expected.message_id.as_uuid().as_u128(),
        payload: br#"{"order":7}"#.to_vec(),
        headers: expected_headers(),
        key: Some(b"order-7".to_vec()),
    };
    let decoded = decode(hand_built_record)
        .expect("hand-built record decodes");

    assert_eq!(decoded, expected);
}

#[test]
fn iggy_mapping_rejects_duplicate_and_empty_headers_permanently() {
    let encoded = encode(&envelope()).expect("fixture maps");
    let mut duplicate = encoded.clone();
    duplicate.headers.push(duplicate.headers[0].clone());

    let Err(error) = decode(duplicate) else {
        panic!("duplicate framework header must fail");
    };

    assert_eq!(error, IggyMappingError::DuplicateHeader);
    assert_eq!(
        error.classify(),
        FailureKind::Permanent
    );

    let mut empty_header = encoded;
    empty_header.headers[0].value = Vec::new();

    let empty_result = decode(empty_header);

    assert_eq!(empty_result, Err(IggyMappingError::InvalidHeader));
}

#[test]
fn iggy_mapping_rejects_a_record_id_that_disagrees_with_the_message_id_header() {
    let mut wire = encode(&envelope()).expect("fixture maps");
    wire.id ^= 1;

    let result = decode(wire);

    assert_eq!(result, Err(IggyMappingError::InvalidRecordId));
}

#[test]
fn iggy_mapping_rejects_an_ordering_key_over_the_messages_key_bound() {
    let mut oversized = envelope();
    oversized.ordering_key =
        Some("x".repeat(256));

    let result = encode(&oversized);

    assert_eq!(result, Err(IggyMappingError::InvalidOrderingKey));
}

#[test]
fn iggy_mapping_rejects_an_empty_payload() {
    let mut empty_payload = envelope();
    empty_payload.payload = Vec::new();

    let result = encode(&empty_payload);

    assert_eq!(result, Err(IggyMappingError::EmptyPayload));
}

#[test]
fn iggy_mapping_rejects_a_payload_over_the_message_bound() {
    let mut oversized_payload = envelope();
    oversized_payload.payload = vec![b'x'; 64_000_001];

    let result = encode(&oversized_payload);

    assert_eq!(result, Err(IggyMappingError::PayloadTooLarge));
}

#[test]
fn iggy_mapping_rejects_a_custom_header_value_over_the_iggy_bound_at_encode() {
    let mut oversized = envelope();
    let mut headers = Headers::new();
    assert!(headers.insert("x-oversized".to_owned(), "x".repeat(300)));
    oversized.metadata.headers = headers;

    let result = encode(&oversized);

    assert_eq!(result, Err(IggyMappingError::InvalidHeader));
}

#[test]
fn iggy_mapping_omits_an_oversized_tracestate_and_keeps_traceparent_required() {
    let mut long_tracestate = envelope();
    long_tracestate.metadata.trace.tracestate =
        Some("v".repeat(300));

    let encoded = encode(&long_tracestate)
        .expect("an oversized tracestate is omitted, not rejected");

    assert!(
        !encoded
            .headers
            .iter()
            .any(|header| header.name == "tracestate"),
        "an oversized tracestate must not be written to the wire record"
    );
    assert!(
        encoded
            .headers
            .iter()
            .any(|header| header.name == "traceparent"),
        "traceparent stays required regardless of tracestate"
    );

    let decoded = decode(encoded)
        .expect("a record without tracestate decodes");

    assert_eq!(decoded.metadata.trace.tracestate, None);
    assert!(decoded.metadata.trace.traceparent.is_some());
}

#[test]
fn iggy_mapping_rejects_decode_of_a_record_missing_a_required_header() {
    let expected = envelope();
    let mut headers = expected_headers();
    headers.retain(|header| header.name != "content-type");

    let wire = IggyRecord {
        id: expected.message_id.as_uuid().as_u128(),
        payload: br#"{"order":7}"#.to_vec(),
        headers,
        key: Some(b"order-7".to_vec()),
    };

    let result = decode(wire);

    assert_eq!(result, Err(IggyMappingError::MissingRequiredHeader));
}

#[test]
fn iggy_mapping_rejects_a_non_numeric_message_version_permanently() {
    let expected = envelope();
    let mut headers = expected_headers();
    let version = headers
        .iter_mut()
        .find(|header| header.name == "message-version")
        .expect("fixture carries a message-version header");
    version.value = b"not-a-number".to_vec();

    let wire = IggyRecord {
        id: expected.message_id.as_uuid().as_u128(),
        payload: br#"{"order":7}"#.to_vec(),
        headers,
        key: Some(b"order-7".to_vec()),
    };

    let result = decode(wire);

    assert_eq!(result, Err(IggyMappingError::InvalidFrameworkValue));
}

#[test]
fn iggy_mapping_rejects_a_malformed_message_id_permanently() {
    let mut headers = expected_headers();
    let message_id = headers
        .iter_mut()
        .find(|header| header.name == "message-id")
        .expect("fixture carries a message-id header");
    message_id.value = b"not-a-uuid".to_vec();

    let wire = IggyRecord {
        id: 0,
        payload: br#"{"order":7}"#.to_vec(),
        headers,
        key: Some(b"order-7".to_vec()),
    };

    let result = decode(wire);

    assert_eq!(result, Err(IggyMappingError::InvalidFrameworkValue));
}

#[test]
fn iggy_mapping_rejects_more_than_the_combined_header_count_bound() {
    let headers: Vec<IggyHeader> = (0..85)
        .map(|index| IggyHeader {
            name: format!("x-bulk-{index}"),
            value: b"1".to_vec(),
        })
        .collect();

    let wire = IggyRecord {
        id: 0,
        payload: b"payload".to_vec(),
        headers,
        key: None,
    };

    let result = decode(wire);

    assert_eq!(result, Err(IggyMappingError::HeaderBoundsExceeded));
}

#[test]
fn iggy_mapping_rejects_custom_headers_exceeding_the_aggregate_byte_bound() {
    let headers: Vec<IggyHeader> = (0..40)
        .map(|index| IggyHeader {
            name: format!("x-big-{index}"),
            value: vec![b'x'; 2000],
        })
        .collect();

    let wire = IggyRecord {
        id: 0,
        payload: b"payload".to_vec(),
        headers,
        key: None,
    };

    let result = decode(wire);

    assert_eq!(result, Err(IggyMappingError::HeaderBoundsExceeded));
}

#[test]
fn iggy_mapping_rejects_an_uppercase_framework_header_name() {
    let mut headers = expected_headers();
    let message_type = headers
        .iter_mut()
        .find(|header| header.name == "message-type")
        .expect("fixture carries a message-type header");
    message_type.name = "Message-Type".to_owned();

    let wire = IggyRecord {
        id: 0,
        payload: br#"{"order":7}"#.to_vec(),
        headers,
        key: Some(b"order-7".to_vec()),
    };

    let result = decode(wire);

    assert_eq!(result, Err(IggyMappingError::InvalidHeader));
}

#[test]
fn iggy_mapping_rejects_case_insensitive_duplicate_custom_headers() {
    let mut headers = expected_headers();
    headers.push(IggyHeader {
        name: "X-A".to_owned(),
        value: b"first".to_vec(),
    });
    headers.push(IggyHeader {
        name: "x-a".to_owned(),
        value: b"second".to_vec(),
    });

    let wire = IggyRecord {
        id: 0,
        payload: br#"{"order":7}"#.to_vec(),
        headers,
        key: Some(b"order-7".to_vec()),
    };

    let result = decode(wire);

    assert_eq!(result, Err(IggyMappingError::DuplicateHeader));
}

#[test]
fn published_envelopes_are_received_as_they_were() {
    let expected = envelope();
    let destination = Ok((
        Identifier::named("orders").unwrap(),
        Identifier::named("created").unwrap(),
    ));
    let publication = match prepare_publication(&expected, destination) {
        Ok(publication) => publication,
        Err(error) => panic!("{}", error.to_string()),
    };

    let mut polled = polled_messages(&vec![publication.message]);
    let wire = record(polled.pop_front().expect("one message"));

    // The SDK orders the headers anew and returns no messages-key.
    assert_ne!(wire.headers, expected_headers());
    assert_eq!(wire.key, None);
    assert_eq!(decode(wire), Ok(expected));
}

#[test]
fn the_order_of_headers_does_not_matter() {
    let expected = envelope();
    let mut wire = encode(&expected).expect("fixture maps");
    wire.headers.reverse();
    assert_eq!(decode(wire.clone()), Ok(expected.clone()));

    wire.headers.swap(2, 9);
    wire.key = None;
    assert_eq!(decode(wire), Ok(expected));
}

#[test]
fn a_wire_key_must_agree_with_the_ordering_key_header() {
    let mut wire = encode(&envelope()).expect("fixture maps");
    wire.key = Some(b"other".to_vec());
    assert_eq!(decode(wire), Err(IggyMappingError::InvalidRecordKey));

    let mut keyless = envelope();
    keyless.ordering_key = None;
    let mut wire = encode(&keyless).expect("fixture maps");
    wire.key = Some(b"order-7".to_vec());
    assert_eq!(decode(wire), Err(IggyMappingError::InvalidRecordKey));
}

#[test]
fn refused_header_names_and_values_are_reported_as_such() {
    let refuse = |index: usize, name_accepted: bool, value_accepted: bool| {
        let wire = encode(&envelope()).expect("fixture maps");
        let mut verdicts: Vec<HeaderVerdict> = wire
            .headers
            .iter()
            .map(|_| HeaderVerdict {
                name_accepted: true,
                value_accepted: true,
            })
            .collect();
        verdicts[index] = HeaderVerdict {
            name_accepted,
            value_accepted,
        };

        IggyEnvelopeMapper.decode(wire, &verdicts, limits())
    };

    // The application header stands last; the message type second.
    let last = expected_headers().len() - 1;
    assert_eq!(refuse(last, false, true), Err(IggyMappingError::InvalidHeader));
    assert_eq!(refuse(last, true, false), Err(IggyMappingError::InvalidHeader));
    assert_eq!(refuse(1, true, false), Err(IggyMappingError::InvalidFrameworkValue));
    assert_eq!(refuse(1, false, true), Ok(envelope()));
}

#[test]
fn header_counts_are_bounded() {
    let mut crowded = envelope();
    let mut headers = Headers::new();
    for index in 0..64 {
        assert!(headers.insert(format!("x-{index:02}"), "1".to_owned()));
    }
    crowded.metadata.headers = headers.clone();
    let wire = encode(&crowded).expect("fixture maps");
    assert!(decode(wire).is_ok());

    assert!(headers.insert("x-64".to_owned(), "1".to_owned()));
    crowded.metadata.headers = headers;
    let wire = encode(&crowded).expect("fixture maps");
    assert_eq!(decode(wire), Err(IggyMappingError::HeaderBoundsExceeded));
}

#[test]
fn framework_values_over_the_field_bound_are_rejected() {
    let mut long = envelope();
    long.metadata.trace.traceparent = Some("0".repeat(256));
    assert_eq!(encode(&long), Err(IggyMappingError::InvalidFrameworkValue));

    let mut wire = encode(&envelope()).expect("fixture maps");
    wire.headers[1].value = vec![b'x'; 256];
    assert_eq!(decode(wire), Err(IggyMappingError::InvalidFrameworkValue));
    assert!(to_iggy_message(encode(&envelope()).expect("fixture maps")).is_ok());
}
