//! Client settings, publication, and the destination resolver.

use std::time::Duration;

use iggy::prelude::{Identifier, IggyError, IggyMessage, Partitioning};
use sisa_messaging::envelope::{MessageId, Metadata, SerializedEnvelope};
use sisa_messaging::failure::FailureKind;
use sisa_messaging::headers::Headers;
use sisa_messaging::provider::client::{connect_outcome, prepare, ConnectReply};
use sisa_messaging::provider::publisher::{
    prepare_publication, publish_outcome, to_iggy_message, to_partitioning, SendReply,
};
use sisa_messaging::provider::source::wire::{polled_messages, record};
use sisa_messaging::provider::{
    IggyClientError, IggyClientErrorKind, IggyClientSettings, IggyCredentials, IggyHeader,
    IggyPublishError, IggyPublishErrorKind, IggyPublisherSettings, IggyRecord, IggyTlsSettings,
    RoutingDestinationResolver,
};

fn password(username: &str, password: &str) -> IggyCredentials {
    IggyCredentials::UsernamePassword {
        username: username.to_owned(),
        password: password.to_owned(),
    }
}

fn refused(settings: &IggyClientSettings) {
    let Err(error) = prepare(settings) else {
        panic!("the settings must be rejected");
    };

    assert_eq!(error.kind(), IggyClientErrorKind::InvalidSettings);
    assert_eq!(error.classify(), FailureKind::Permanent);
}

#[test]
fn zero_send_timeout_is_rejected() {
    let error = IggyPublisherSettings::new(Duration::ZERO)
        .expect_err("a zero send timeout must be rejected");

    assert_eq!(error.classify(), FailureKind::Permanent);
}

#[test]
fn nonzero_send_timeout_is_accepted() {
    let settings = IggyPublisherSettings::new(Duration::from_secs(1))
        .expect("a positive send timeout is valid");

    assert_eq!(settings.send_timeout(), Duration::from_secs(1));
}

#[test]
fn client_settings_debug_never_leaks_credentials_address_or_tls_paths() {
    const SENSITIVE_ADDRESS: &str = "SENSITIVE_ADDRESS_MARKER:8090";
    const SENSITIVE_PASSWORD: &str = "SENSITIVE_PASSWORD_MARKER";
    const SENSITIVE_TOKEN: &str = "SENSITIVE_TOKEN_MARKER";
    const SENSITIVE_DOMAIN: &str = "SENSITIVE_DOMAIN_MARKER";
    const SENSITIVE_CA_FILE: &str = "SENSITIVE_CA_FILE_MARKER";

    let credentials = IggyCredentials::UsernamePassword {
        username: "iggy".to_owned(),
        password: SENSITIVE_PASSWORD.to_owned(),
    };
    let tls = IggyTlsSettings::new(SENSITIVE_DOMAIN).with_ca_file(SENSITIVE_CA_FILE);
    let settings =
        IggyClientSettings::new(SENSITIVE_ADDRESS, credentials.clone()).with_tls(tls.clone());

    let settings_debug = settings.redacted();
    let credentials_debug = credentials.redacted();
    let token_debug = IggyCredentials::PersonalAccessToken(SENSITIVE_TOKEN.to_owned()).redacted();
    let tls_debug = tls.redacted();

    for haystack in [
        &settings_debug,
        &credentials_debug,
        &token_debug,
        &tls_debug,
    ] {
        assert!(
            !haystack.contains(SENSITIVE_ADDRESS),
            "server address leaked in: {haystack}"
        );
        assert!(
            !haystack.contains(SENSITIVE_PASSWORD),
            "password leaked in: {haystack}"
        );
        assert!(
            !haystack.contains(SENSITIVE_TOKEN),
            "token leaked in: {haystack}"
        );
        assert!(
            !haystack.contains(SENSITIVE_DOMAIN),
            "TLS domain leaked in: {haystack}"
        );
        assert!(
            !haystack.contains(SENSITIVE_CA_FILE),
            "TLS CA file path leaked in: {haystack}"
        );
    }
}

#[test]
fn iggy_client_error_from_covers_every_known_arm() {
    let cases = [
        (
            IggyError::Unauthenticated,
            IggyClientErrorKind::Authentication,
        ),
        (IggyError::Unauthorized, IggyClientErrorKind::Authentication),
        (
            IggyError::InvalidCredentials,
            IggyClientErrorKind::Authentication,
        ),
        (
            IggyError::InvalidUsername,
            IggyClientErrorKind::Authentication,
        ),
        (
            IggyError::InvalidPassword,
            IggyClientErrorKind::Authentication,
        ),
        (IggyError::InvalidTlsDomain, IggyClientErrorKind::Tls),
        (
            IggyError::InvalidTlsCertificatePath,
            IggyClientErrorKind::Tls,
        ),
        (IggyError::InvalidTlsCertificate, IggyClientErrorKind::Tls),
        (IggyError::FailedToAddCertificate, IggyClientErrorKind::Tls),
        (IggyError::Disconnected, IggyClientErrorKind::Connect),
        (
            IggyError::CannotEstablishConnection,
            IggyClientErrorKind::Connect,
        ),
        (IggyError::TcpError, IggyClientErrorKind::Connect),
        (IggyError::InvalidCommand, IggyClientErrorKind::Connect),
    ];

    for (error, expected_kind) in cases {
        assert_eq!(IggyClientError::from(error).kind(), expected_kind);
    }
}

/// Covers every arm of the crate's `IggyError` classification for publish failures.
///
/// `IggyError::RequestAlreadyApplied` is deliberately absent from this table: `publish` never
/// routes it through this conversion. It intercepts that variant beforehand and reports success,
/// since the server's own deduplication confirms the request already committed. Proving that
/// interception needs a real duplicate request from a broker, so it is left to the opt-in
/// real-broker test rather than asserted here.
#[test]
fn iggy_publish_error_from_covers_every_known_arm() {
    let cases = [
        (
            IggyError::Unauthorized,
            IggyPublishErrorKind::Rejected,
            FailureKind::Permanent,
        ),
        (
            IggyError::InvalidCredentials,
            IggyPublishErrorKind::Rejected,
            FailureKind::Permanent,
        ),
        (
            IggyError::StreamIdNotFound(Identifier::default()),
            IggyPublishErrorKind::Rejected,
            FailureKind::Permanent,
        ),
        (
            IggyError::StreamNameNotFound(String::new()),
            IggyPublishErrorKind::Rejected,
            FailureKind::Permanent,
        ),
        (
            IggyError::TopicIdNotFound(Identifier::default(), Identifier::default()),
            IggyPublishErrorKind::Rejected,
            FailureKind::Permanent,
        ),
        (
            IggyError::TopicNameNotFound(String::new(), String::new()),
            IggyPublishErrorKind::Rejected,
            FailureKind::Permanent,
        ),
        (
            IggyError::TooBigMessagePayload,
            IggyPublishErrorKind::Rejected,
            FailureKind::Permanent,
        ),
        (
            IggyError::TooBigUserHeaders,
            IggyPublishErrorKind::Rejected,
            FailureKind::Permanent,
        ),
        (
            IggyError::InvalidMessagePayloadLength,
            IggyPublishErrorKind::Rejected,
            FailureKind::Permanent,
        ),
        (
            IggyError::EmptyMessagePayload,
            IggyPublishErrorKind::Rejected,
            FailureKind::Permanent,
        ),
        (
            IggyError::InvalidHeaderValue,
            IggyPublishErrorKind::Rejected,
            FailureKind::Permanent,
        ),
        (
            IggyError::InvalidHeaderKey,
            IggyPublishErrorKind::Rejected,
            FailureKind::Permanent,
        ),
        (
            IggyError::TransientNotAccepted,
            IggyPublishErrorKind::ServerTransient,
            FailureKind::Transient,
        ),
        (
            IggyError::TransientNotCommitted,
            IggyPublishErrorKind::OutcomeUnknown,
            FailureKind::Transient,
        ),
        (
            IggyError::Unauthenticated,
            IggyPublishErrorKind::OutcomeUnknown,
            FailureKind::Transient,
        ),
        (
            IggyError::NotConnected,
            IggyPublishErrorKind::OutcomeUnknown,
            FailureKind::Transient,
        ),
        (
            IggyError::Disconnected,
            IggyPublishErrorKind::OutcomeUnknown,
            FailureKind::Transient,
        ),
        (
            IggyError::ClientShutdown,
            IggyPublishErrorKind::OutcomeUnknown,
            FailureKind::Transient,
        ),
        (
            IggyError::CannotEstablishConnection,
            IggyPublishErrorKind::OutcomeUnknown,
            FailureKind::Transient,
        ),
        (
            IggyError::TcpError,
            IggyPublishErrorKind::OutcomeUnknown,
            FailureKind::Transient,
        ),
        (
            IggyError::StaleClient,
            IggyPublishErrorKind::OutcomeUnknown,
            FailureKind::Transient,
        ),
        (
            IggyError::InvalidCommand,
            IggyPublishErrorKind::OutcomeUnknown,
            FailureKind::Transient,
        ),
    ];

    for (error, expected_kind, expected_failure) in cases {
        let classified = IggyPublishError::from(error);
        assert_eq!(classified.kind(), expected_kind);
        assert_eq!(classified.classify(), expected_failure);
    }
}

fn envelope_with_destination(destination: Option<&str>) -> SerializedEnvelope {
    let mut metadata = Metadata::default();
    metadata.routing.destination = destination.map(str::to_owned);

    SerializedEnvelope {
        message_id: MessageId { value: 7 },
        message_type: "resolver.test".to_owned(),
        message_version: 1,
        content_type: "application/octet-stream".to_owned(),
        payload: b"payload".to_vec(),
        metadata,
        ordering_key: None,
    }
}

#[test]
fn routing_resolver_accepts_numeric_and_named_stream_topic_pairs() {
    let resolver = RoutingDestinationResolver;

    resolver.resolve(&envelope_with_destination(Some("1/2"))).expect("numeric stream and topic must resolve");
    resolver.resolve(&envelope_with_destination(Some("orders/created"))).expect("named stream and topic must resolve");
    resolver.resolve(&envelope_with_destination(Some("1/created"))).expect("mixed numeric and named identifiers must resolve");
}

#[test]
fn routing_resolver_rejects_missing_or_malformed_destinations_permanently() {
    let resolver = RoutingDestinationResolver;

    let missing = resolver
        .resolve(&envelope_with_destination(None))
        .expect_err("missing destination must be rejected");
    assert_eq!(missing.classify(), FailureKind::Permanent);

    let no_separator = resolver
        .resolve(&envelope_with_destination(Some("orders-created")))
        .expect_err("destination without a separator must be rejected");
    assert_eq!(no_separator.classify(), FailureKind::Permanent);

    let extra_segment = resolver
        .resolve(&envelope_with_destination(Some("orders/created/extra")))
        .expect_err("destination with more than one separator must be rejected");
    assert_eq!(extra_segment.classify(), FailureKind::Permanent);

    let empty_stream = resolver
        .resolve(&envelope_with_destination(Some("/created")))
        .expect_err("an empty stream segment must be rejected");
    assert_eq!(empty_stream.classify(), FailureKind::Permanent);

    let empty_topic = resolver
        .resolve(&envelope_with_destination(Some("orders/")))
        .expect_err("an empty topic segment must be rejected");
    assert_eq!(empty_topic.classify(), FailureKind::Permanent);
}

#[test]
fn resolved_identifiers_are_those_the_destination_names() {
    let resolver = RoutingDestinationResolver;
    let (stream, topic) = resolver
        .resolve(&envelope_with_destination(Some("1/created")))
        .expect("the destination resolves");

    assert_eq!(stream, Identifier::numeric(1).unwrap());
    assert_eq!(topic, Identifier::named("created").unwrap());

    let long = "x".repeat(256);
    assert!(resolver
        .resolve(&envelope_with_destination(Some(&format!("{long}/created"))))
        .is_err());
}

fn valid_settings() -> IggyClientSettings {
    IggyClientSettings::new("localhost:8090", password("iggy", "iggy"))
}

#[test]
fn empty_server_address_is_rejected_before_any_connection_attempt() {
    refused(&IggyClientSettings::new("   ", password("iggy", "iggy")));
    refused(&IggyClientSettings::new("", password("iggy", "iggy")));
}

#[test]
fn empty_username_or_password_is_rejected() {
    refused(&IggyClientSettings::new("localhost:8090", password("", "iggy")));
    refused(&IggyClientSettings::new("localhost:8090", password("iggy", "")));
}

#[test]
fn empty_personal_access_token_is_rejected() {
    refused(&IggyClientSettings::new(
        "localhost:8090",
        IggyCredentials::PersonalAccessToken(String::new()),
    ));
}

#[test]
fn zero_connect_timeout_is_rejected() {
    refused(&valid_settings().with_connect_timeout(Duration::ZERO));
}

#[test]
fn zero_heartbeat_interval_is_rejected() {
    refused(&valid_settings().with_heartbeat_interval(Duration::ZERO));
    refused(&valid_settings().with_heartbeat_interval(Duration::from_nanos(999)));
}

#[test]
fn malformed_server_address_is_rejected() {
    refused(&IggyClientSettings::new("127.0.0.1", password("iggy", "iggy")));
}

#[test]
fn valid_settings_keep_their_heartbeat_interval() {
    let settings = valid_settings().with_heartbeat_interval(Duration::from_millis(1_500));
    let interval = match prepare(&settings) {
        Ok(interval) => interval,
        Err(_) => panic!("the settings are valid"),
    };

    assert_eq!(interval.get_duration(), Duration::from_millis(1_500));
}

#[test]
fn connection_replies_are_classified() {
    assert!(connect_outcome(ConnectReply::Connected).is_ok());

    for (reply, kind, failure) in [
        (
            ConnectReply::NotCreated,
            IggyClientErrorKind::Connect,
            FailureKind::Transient,
        ),
        (
            ConnectReply::TimedOut,
            IggyClientErrorKind::Timeout,
            FailureKind::Transient,
        ),
        (
            ConnectReply::Failed(IggyError::InvalidTlsDomain),
            IggyClientErrorKind::Tls,
            FailureKind::Permanent,
        ),
        (
            ConnectReply::Failed(IggyError::InvalidCredentials),
            IggyClientErrorKind::Authentication,
            FailureKind::Permanent,
        ),
    ] {
        let error = connect_outcome(reply).unwrap_err();
        assert_eq!(error.kind(), kind);
        assert_eq!(error.classify(), failure);
    }
}

#[test]
fn publish_replies_are_classified() {
    assert!(publish_outcome(SendReply::Acknowledged).is_ok());
    assert!(publish_outcome(SendReply::Failed(IggyError::RequestAlreadyApplied)).is_ok());

    for (reply, kind) in [
        (SendReply::SessionClosed, IggyPublishErrorKind::ClientDisconnected),
        (SendReply::TimedOut, IggyPublishErrorKind::OutcomeUnknown),
        (
            SendReply::Failed(IggyError::TcpError),
            IggyPublishErrorKind::OutcomeUnknown,
        ),
    ] {
        let error = publish_outcome(reply).unwrap_err();
        assert_eq!(error.kind(), kind);
        assert_eq!(error.classify(), FailureKind::Transient);
    }
}

fn sdk_record() -> IggyRecord {
    IggyRecord {
        id: 9,
        payload: b"body".to_vec(),
        headers: vec![
            IggyHeader {
                name: "b".to_owned(),
                value: b"2".to_vec(),
            },
            IggyHeader {
                name: "a".to_owned(),
                value: b"1".to_vec(),
            },
        ],
        key: Some(b"k".to_vec()),
    }
}

#[test]
fn sdk_messages_carry_the_record_in_key_order() {
    let message = to_iggy_message(sdk_record()).expect("the record is sendable");

    assert_eq!(message.header.id, 9);
    assert_eq!(&message.payload[..], b"body");

    let mut polled = polled_messages(&vec![message]);
    let read = record(polled.pop_front().expect("one message"));

    assert_eq!(read.id, 9);
    assert_eq!(read.payload, b"body");
    assert_eq!(read.key, None);
    let names: Vec<&str> = read.headers.iter().map(|header| header.name.as_str()).collect();
    assert_eq!(names, ["a", "b"]);
    assert_eq!(read.headers[0].value, b"1");
}

#[test]
fn records_outside_the_message_bounds_are_not_sendable() {
    let mut empty = sdk_record();
    empty.payload = Vec::new();
    assert!(to_iggy_message(empty).is_err());

    let mut unreadable = sdk_record();
    unreadable.headers[0].value = vec![0xff];
    assert!(to_iggy_message(unreadable).is_err());

    let mut unnamed = sdk_record();
    unnamed.headers[0].name = String::new();
    assert!(to_iggy_message(unnamed).is_err());

    let mut long = sdk_record();
    long.headers[0].value = vec![b'x'; 256];
    assert!(to_iggy_message(long).is_err());

    let mut widest = sdk_record();
    widest.headers[0].value = vec![b'x'; 255];
    assert!(to_iggy_message(widest).is_ok());
}

#[test]
fn header_bytes_are_bounded_as_a_whole() {
    let many = |count: usize| IggyRecord {
        id: 9,
        payload: b"body".to_vec(),
        headers: (0..count)
            .map(|index| IggyHeader {
                name: format!("header-{index:03}"),
                value: vec![b'x'; 230],
            })
            .collect(),
        key: None,
    };

    // Each header takes 250 bytes with its two kinds and lengths.
    assert!(to_iggy_message(many(399)).is_ok());
    assert!(to_iggy_message(many(400)).is_ok());
    assert!(to_iggy_message(many(401)).is_err());
}

#[test]
fn messages_without_headers_read_as_such() {
    let bare = IggyMessage::builder()
        .id(3)
        .payload(b"body".to_vec().into())
        .build()
        .expect("a message without headers");

    let mut polled = polled_messages(&vec![bare]);
    let message = polled.pop_front().expect("one message");

    assert!(!message.carries_headers);
    assert_eq!(message.headers, None);
    assert!(record(message).headers.is_empty());
}

#[test]
fn header_bytes_that_cannot_be_read_become_a_rejected_header() {
    let mut message = IggyMessage::builder()
        .id(3)
        .payload(b"body".to_vec().into())
        .build()
        .expect("a message without headers");
    message.user_headers = Some(b"garbage".to_vec().into());

    let mut polled = polled_messages(&vec![message]);
    let read = record(polled.pop_front().expect("one message"));

    assert_eq!(
        read.headers,
        vec![IggyHeader {
            name: String::new(),
            value: vec![0],
        }]
    );
}

#[test]
fn partitioning_follows_the_ordering_key() {
    assert_eq!(
        to_partitioning(Some(b"order-7")).unwrap(),
        Partitioning::messages_key(b"order-7").unwrap()
    );
    assert_eq!(to_partitioning(None).unwrap(), Partitioning::balanced());
    assert!(to_partitioning(Some(&[b'x'; 256])).is_err());
    assert!(to_partitioning(Some(b"")).is_err());
}

#[test]
fn publications_hold_the_encoded_message() {
    let mut envelope = envelope_with_destination(Some("orders/created"));
    envelope.ordering_key = Some("order-7".to_owned());
    let mut headers = Headers::new();
    assert!(headers.insert("x-zone".to_owned(), "west".to_owned()));
    envelope.metadata.headers = headers;

    let destination = RoutingDestinationResolver
        .resolve(&envelope)
        .map_err(|error| error.classify());
    let publication = match prepare_publication(&envelope, destination) {
        Ok(publication) => publication,
        Err(error) => panic!("{}", error.to_string()),
    };

    assert_eq!(publication.stream, Identifier::named("orders").unwrap());
    assert_eq!(publication.topic, Identifier::named("created").unwrap());
    assert_eq!(
        publication.partitioning,
        Partitioning::messages_key(b"order-7").unwrap()
    );
    assert_eq!(publication.message.header.id, 7);
}

#[test]
fn publications_are_refused_before_anything_is_sent() {
    let mut empty = envelope_with_destination(Some("orders/created"));
    empty.payload = Vec::new();
    let destination = RoutingDestinationResolver
        .resolve(&empty)
        .map_err(|error| error.classify());
    let Err(error) = prepare_publication(&empty, destination) else {
        panic!("an empty payload must be refused");
    };
    assert_eq!(error.classify(), FailureKind::Permanent);

    for failure in [FailureKind::Permanent, FailureKind::Transient] {
        let Err(error) =
            prepare_publication(&envelope_with_destination(Some("orders/created")), Err(failure))
        else {
            panic!("an unresolved destination must be refused");
        };
        assert_eq!(error.classify(), failure);
    }
}
