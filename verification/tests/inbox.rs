//! Receipts, identities, maintenance requests, and dead letters.

use std::time::Duration;

use sisa_messaging::envelope::{MessageId, Metadata, SerializedEnvelope};
use sisa_messaging::failure::FailureKind;
use sisa_messaging::inbox::dead_letters::MAX_DEAD_LETTER_BATCH_SIZE;
use sisa_messaging::inbox::failure::{reduce_failure, ReceiptState};
use sisa_messaging::inbox::record::MAX_INBOX_SCOPE_BYTES;
use sisa_messaging::inbox::{
    DeadLetterBatch, DeadLetterBatchError, DeadReason, InboxFailureOutcome, InboxId,
    InboxPurgeReport, InboxPurgeRequest, InboxRecord, InboxScope, InboxScopeError, InboxSettings,
    InboxSettingsError, InboxStats,
};
use sisa_messaging::nonzero::NonZeroU32;
use uuid::Uuid;

fn number(value: u32) -> NonZeroU32 {
    NonZeroU32::new(value).expect("a number that is not zero")
}

#[test]
fn failure_reduction_preserves_terminal_states_and_exhausts_active_states() {
    let limits = [
        number(1),
        number(2),
        number(u32::MAX),
    ];

    let kinds = [FailureKind::Transient, FailureKind::Permanent];

    for limit in limits {
        for kind in kinds {
            let completed = ReceiptState::Completed;

            assert_eq!(
                reduce_failure(completed, kind, limit),
                (completed, InboxFailureOutcome::CompletedDuplicate)
            );

            let dead = ReceiptState::Dead {
                attempts: 7,
                reason: DeadReason::Permanent,
            };

            assert_eq!(
                reduce_failure(dead, kind, limit),
                (
                    dead,
                    InboxFailureOutcome::Dead {
                        attempts: 7,
                        reason: DeadReason::Permanent,
                    },
                )
            );
        }
    }

    for limit in limits {
        for state in [
            ReceiptState::Pending,
            ReceiptState::Retrying { attempts: 1 },
            ReceiptState::Retrying {
                attempts: limit.get().saturating_sub(1),
            },
            ReceiptState::Retrying { attempts: u32::MAX },
        ] {
            let attempts = match state {
                ReceiptState::Pending => 1,
                ReceiptState::Retrying { attempts } => attempts.saturating_add(1),
                ReceiptState::Completed | ReceiptState::Dead { .. } => continue,
            };

            for kind in kinds {
                let expected_reason = if kind.is_retryable() && attempts < limit.get() {
                    None
                } else if kind.is_retryable() {
                    Some(DeadReason::Exhausted)
                } else {
                    Some(DeadReason::Permanent)
                };

                let expected = match expected_reason {
                    Some(reason) => (
                        ReceiptState::Dead { attempts, reason },
                        InboxFailureOutcome::Dead { attempts, reason },
                    ),
                    None => (
                        ReceiptState::Retrying { attempts },
                        InboxFailureOutcome::Retry { attempts },
                    ),
                };

                assert_eq!(reduce_failure(state, kind, limit), expected);
            }
        }
    }
}

#[test]
fn dead_letter_batches_are_borrowed_bounded_and_allow_duplicate_identities() {
    let id = InboxId::from_uuid(Uuid::from_u128(1));
    let ids = [id, id];

    let batch =
        DeadLetterBatch::new(&ids).unwrap_or_else(|error| panic!("batch rejected: {}", error.to_string()));

    assert_eq!(batch.ids(), &ids);
    assert!(std::ptr::eq(batch.ids(), ids.as_slice()));

    let exact_max = vec![id; MAX_DEAD_LETTER_BATCH_SIZE];
    assert!(DeadLetterBatch::new(&exact_max).is_ok());
    let too_large = vec![id; MAX_DEAD_LETTER_BATCH_SIZE + 1];
    assert_eq!(DeadLetterBatch::new(&[]), Err(DeadLetterBatchError::Empty));

    assert_eq!(
        DeadLetterBatch::new(&too_large),
        Err(DeadLetterBatchError::TooLarge)
    );

    assert_eq!(
        DeadLetterBatchError::Empty.classify(),
        FailureKind::Permanent
    );

    assert_eq!(
        DeadLetterBatchError::TooLarge.classify(),
        FailureKind::Permanent
    );
}

#[test]
fn maintenance_defaults_bound_terminal_retention_without_incomplete_row_controls() {
    let request = InboxPurgeRequest::default();

    assert_eq!(
        request.completed_retention,
        Some(Duration::from_secs(7 * 24 * 60 * 60))
    );

    assert_eq!(
        request.dead_retention,
        Some(Duration::from_secs(30 * 24 * 60 * 60))
    );

    assert_eq!(
        request.batch_size,
        number(500)
    );

    assert_eq!(InboxPurgeReport::default().completed_deleted, 0);
    assert_eq!(InboxPurgeReport::default().dead_deleted, 0);

    assert_eq!(
        InboxStats::default(),
        InboxStats {
            pending: 0,
            retrying: 0,
            completed: 0,
            dead: 0,
        }
    );
}

#[test]
fn inbox_scope_rejects_empty_excess_and_control_bytes_without_changing_safe_text() {
    let valid = InboxScope::new("orders-projection")
        .unwrap_or_else(|error| panic!("valid scope rejected: {}", error.to_string()));
    assert_eq!(valid.as_str(), "orders-projection");
    assert_eq!(valid.into_string(), "orders-projection");

    let exact_maximum = "x".repeat(MAX_INBOX_SCOPE_BYTES);
    assert_eq!(
        InboxScope::new(&exact_maximum).map(|scope| scope.into_string()),
        Ok("x".repeat(128))
    );

    let exact_multibyte_maximum = "é".repeat(64);
    assert_eq!(exact_multibyte_maximum.len(), MAX_INBOX_SCOPE_BYTES);
    assert!(InboxScope::new(&exact_multibyte_maximum).is_ok());

    let too_long = "x".repeat(MAX_INBOX_SCOPE_BYTES + 1);
    let too_long_multibyte = "é".repeat(65);
    assert_eq!(too_long_multibyte.len(), 130);
    for (input, expected) in [
        (String::new(), InboxScopeError::Empty),
        (too_long, InboxScopeError::TooLong),
        (too_long_multibyte, InboxScopeError::TooLong),
        ("bad\nscope".to_owned(), InboxScopeError::InvalidCharacter),
        (
            "bad\u{7f}scope".to_owned(),
            InboxScopeError::InvalidCharacter,
        ),
    ] {
        assert_eq!(InboxScope::new(&input), Err(expected));
        assert_eq!(expected.classify(), FailureKind::Permanent);
    }
}

#[test]
fn inbox_settings_reject_database_unrepresentable_attempt_limits() {
    let maximum = number(i32::MAX as u32);
    assert_eq!(
        InboxSettings::new(maximum).map(|settings| settings.max_attempts()),
        Ok(maximum)
    );

    let too_large = number(i32::MAX as u32 + 1);
    assert_eq!(
        InboxSettings::new(too_large),
        Err(InboxSettingsError::MaxAttemptsNotRepresentable)
    );
    assert_eq!(
        InboxSettingsError::MaxAttemptsNotRepresentable.classify(),
        FailureKind::Permanent
    );
    assert_eq!(InboxSettings::default().max_attempts().get(), 10);
}

#[test]
fn unknown_failures_are_never_retried() {
    assert_eq!(
        reduce_failure(ReceiptState::Pending, FailureKind::Unknown, number(5)).0,
        ReceiptState::Dead {
            attempts: 1,
            reason: DeadReason::Permanent,
        }
    );
}

#[test]
fn retries_run_out_exactly_at_the_limit() {
    let mut state = ReceiptState::Pending;

    for attempts in 1..3 {
        state = reduce_failure(state, FailureKind::Transient, number(3)).0;
        assert_eq!(state, ReceiptState::Retrying { attempts });
    }

    let dead = ReceiptState::Dead {
        attempts: 3,
        reason: DeadReason::Exhausted,
    };
    state = reduce_failure(state, FailureKind::Transient, number(3)).0;
    assert_eq!(state, dead);

    for kind in [FailureKind::Transient, FailureKind::Permanent] {
        assert_eq!(reduce_failure(state, kind, number(3)).0, dead);
    }
}

#[test]
fn inbox_identities_round_trip_as_text() {
    let uuid = Uuid::from_u128(0x0189_0f52_7b00_7000_8000_0000_0000_0001);
    let id = InboxId::from_uuid(uuid);

    assert_eq!(id.to_string(), uuid.to_string());
    assert_eq!(id.to_string().parse::<InboxId>().ok(), Some(id));
    assert_eq!("nothing".parse::<InboxId>().ok(), None);
    assert_eq!(*id.as_uuid(), uuid);
    assert_eq!(id.into_uuid(), uuid);
}

#[test]
fn scopes_are_read_from_and_seen_as_text() {
    let scope = "orders-projection".parse::<InboxScope>().expect("a valid scope");

    assert_eq!(AsRef::<str>::as_ref(&scope), "orders-projection");
    assert_eq!("".parse::<InboxScope>(), Err(InboxScopeError::Empty));
    assert_eq!(
        "bad\nscope".parse::<InboxScope>(),
        Err(InboxScopeError::InvalidCharacter)
    );
    assert_eq!(
        "nothing".parse::<InboxId>(),
        Uuid::parse_str("nothing").map(InboxId::from_uuid)
    );
}

#[test]
fn records_carry_the_identity_of_the_message() {
    let mut metadata = Metadata::default();
    metadata.tenant_id = Some("tenant-1".to_owned());

    let envelope = SerializedEnvelope {
        message_id: MessageId { value: 5 },
        message_type: "orders.created".to_owned(),
        message_version: 2,
        content_type: "application/json".to_owned(),
        payload: b"{}".to_vec(),
        metadata: metadata.clone(),
        ordering_key: None,
    };
    let scope = InboxScope::new("orders-projection").expect("a valid scope");
    let record = InboxRecord::of(&scope, &envelope);

    assert_eq!(record.scope, scope);
    assert_eq!(record.message_id, MessageId { value: 5 });
    assert_eq!(record.message_type, "orders.created");
    assert_eq!(record.version, 2);
    assert_eq!(record.metadata, metadata);
}

#[test]
fn inbox_errors_have_stable_texts() {
    for (text, expected) in [
        (InboxScopeError::Empty.to_string(), "inbox scope must not be empty"),
        (InboxScopeError::TooLong.to_string(), "inbox scope exceeds the maximum byte length"),
        (InboxScopeError::InvalidCharacter.to_string(), "inbox scope contains a forbidden control character"),
        (
            InboxSettingsError::MaxAttemptsNotRepresentable.to_string(),
            "inbox max attempts exceeds the provider-supported limit",
        ),
        (DeadLetterBatchError::Empty.to_string(), "dead-letter batch must not be empty"),
        (DeadLetterBatchError::TooLarge.to_string(), "dead-letter batch exceeds the maximum size"),
    ] {
        assert_eq!(text, expected);
    }

    assert_eq!(DeadReason::Permanent.as_str(), "permanent");
    assert_eq!(DeadReason::Exhausted.as_str(), "exhausted");
}
