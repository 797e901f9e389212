//! Texts, identifiers, headers, and numbers that are never zero.

use sisa_messaging::envelope::{ConversationId, MessageId, RequestId};
use sisa_messaging::failure::FailureKind;
use sisa_messaging::headers::Headers;
use sisa_messaging::nonzero::{NonZeroU32, NonZeroU64, NonZeroUsize};
use sisa_messaging::provider::{
    IggyClientError, IggyClientSettings, IggyCredentials, IggyDeliveryError, IggyMappingError,
    IggyPublishError, IggyPublisherSettings, IggyTlsSettings,
};
use sisa_messaging::text::{
    blank, chars_of, comes_before, copy_bytes, lowercase, parse_decimal, render_decimal,
    same_bytes, same_text, white_space,
};
use iggy::prelude::IggyError;
use std::time::Duration;
use uuid::Uuid;

#[test]
fn white_space_is_what_the_standard_library_says() {
    for code in 0..=0x0010_ffff_u32 {
        if let Some(c) = char::from_u32(code) {
            assert_eq!(white_space(c), c.is_whitespace(), "{code:x}");
        }
    }
}

#[test]
fn blank_texts_hold_white_space_only() {
    for (text, expected) in [("", true), (" \t\u{3000}", true), (" x ", false)] {
        assert_eq!(blank(text), expected);
        assert_eq!(text.trim().is_empty(), expected);
    }
}

#[test]
fn lowercase_changes_ascii_letters_only() {
    for text in ["", "Message-Type", "\u{c4}BC\u{130}"] {
        assert_eq!(lowercase(text), text.to_ascii_lowercase());
    }
}

#[test]
fn texts_compare_by_their_bytes() {
    assert!(same_text("order", "order"));
    assert!(!same_text("order", "Order"));
    assert!(same_bytes(b"ab", b"ab"));
    assert!(!same_bytes(b"ab", b"abc"));
    assert!(comes_before(b"ab", b"abc"));
    assert!(comes_before(b"ab", b"b"));
    assert!(!comes_before(b"b", b"ab"));
    assert!(!comes_before(b"ab", b"ab"));
    assert_eq!(chars_of("a\u{e9}"), ['a', '\u{e9}']);
    assert_eq!(copy_bytes("a\u{e9}"), "a\u{e9}".as_bytes());
}

#[test]
fn decimals_round_trip() {
    for number in [0, 7, 10, 4_294_967_295, 4_294_967_296, u64::MAX] {
        assert_eq!(render_decimal(number), number.to_string());
        assert_eq!(parse_decimal(&number.to_string(), u64::MAX), Some(number));
    }

    for text in ["", "+", "-1", "1 ", "x", "18446744073709551616", "\u{661}"] {
        assert_eq!(parse_decimal(text, u64::MAX), text.parse::<u64>().ok());
    }

    for text in ["+7", "007", "4294967295", "4294967296"] {
        assert_eq!(
            parse_decimal(text, u64::from(u32::MAX)),
            text.parse::<u32>().ok().map(u64::from)
        );
    }
}

#[test]
fn identifiers_read_every_uuid_form() {
    let canonical = "01890f52-7b00-7000-8000-0000000000aF";

    for text in [
        canonical.to_owned(),
        canonical.to_uppercase(),
        canonical.replace('-', ""),
        format!("{{{canonical}}}"),
        format!("urn:uuid:{canonical}"),
        format!("URN:UUID:{canonical}"),
        format!("{{{}}}", canonical.replace('-', "")),
        "01890f52-7b00-7000-8000-00000000000".to_owned(),
        "01890f52-7b00-7000-8000_000000000001".to_owned(),
        "g1890f52-7b00-7000-8000-000000000001".to_owned(),
        String::new(),
        "\u{e9}1890f52-7b00-7000-8000-0000000000".to_owned(),
    ] {
        let expected = Uuid::parse_str(&text).ok().map(|uuid| uuid.as_u128());

        assert_eq!(MessageId::parse(&text).map(|id| id.value), expected, "{text}");
        assert_eq!(ConversationId::parse(&text).map(|id| id.value), expected);
        assert_eq!(RequestId::parse(&text).map(|id| id.value), expected);
    }
}

#[test]
fn identifiers_are_written_as_hyphenated_uuids() {
    let value = 0x0189_0f52_7b00_7000_8000_0000_0000_0001;
    let uuid = Uuid::from_u128(value);

    assert_eq!(MessageId::from_uuid(uuid), MessageId { value });
    assert_eq!(MessageId { value }.as_uuid(), uuid);
    assert_eq!(MessageId { value }.to_text(), uuid.to_string());
    assert_eq!(ConversationId { value }.to_text(), uuid.to_string());
    assert_eq!(RequestId { value }.to_text(), uuid.to_string());
}

#[test]
fn headers_stand_in_the_order_of_their_names() {
    let mut headers = Headers::new();

    assert!(headers.insert("b".to_owned(), "2".to_owned()));
    assert!(headers.insert("a".to_owned(), "1".to_owned()));
    assert!(!headers.insert("b".to_owned(), "3".to_owned()));
    assert_eq!(headers.len(), 2);
    assert_eq!((headers.name(0), headers.value(0)), ("a", "1"));
    assert_eq!((headers.name(1), headers.value(1)), ("b", "2"));
    assert_eq!(headers.clone(), headers);
}

#[test]
fn zero_is_no_number() {
    assert!(NonZeroU32::new(0).is_none());
    assert!(NonZeroU64::new(0).is_none());
    assert!(NonZeroUsize::new(0).is_none());
    assert_eq!(NonZeroU64::new(9).map(NonZeroU64::get), Some(9));
}

#[test]
fn failure_labels_are_stable() {
    assert_eq!(FailureKind::Transient.as_str(), "transient");
    assert_eq!(FailureKind::Permanent.as_str(), "permanent");
    assert_eq!(FailureKind::Unknown.as_str(), "unknown");
    assert!(FailureKind::Transient.is_retryable());
    assert!(!FailureKind::Unknown.is_retryable());
}

#[test]
fn redacted_settings_keep_what_is_not_secret() {
    let credentials = IggyCredentials::UsernamePassword {
        username: "a \"quoted\" name".to_owned(),
        password: "secret".to_owned(),
    };

    assert_eq!(
        credentials.redacted(),
        "UsernamePassword { username: \"a \\\"quoted\\\" name\", password: \"<redacted>\" }"
    );

    let settings = IggyClientSettings::new("localhost:8090", credentials)
        .with_tls(IggyTlsSettings::new("domain"))
        .with_connect_timeout(Duration::from_millis(1_500))
        .with_heartbeat_interval(Duration::from_secs(5));
    let text = settings.redacted();

    assert!(text.contains("connect_timeout: 1.5s"));
    assert!(text.contains("heartbeat_interval: 5s"));
    assert!(text.contains("ca_file: None"));
    assert!(!text.contains("domain\"") && !text.contains("localhost"));
}

#[test]
fn provider_errors_have_stable_texts() {
    assert_eq!(
        IggyMappingError::DuplicateHeader.to_string(),
        "Iggy record contains duplicate headers"
    );
    assert_eq!(
        IggyClientError::from(IggyError::TcpError).to_string(),
        "Iggy client could not connect"
    );
    assert_eq!(
        IggyPublishError::from(IggyError::TcpError).to_string(),
        "Iggy publish outcome is unknown"
    );
    assert_eq!(
        IggyDeliveryError::from(IggyError::TcpError).to_string(),
        "Iggy client session is not connected"
    );
    assert_eq!(
        IggyPublisherSettings::new(Duration::ZERO).unwrap_err().to_string(),
        "Iggy publisher send timeout must not be zero"
    );
}
