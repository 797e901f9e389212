//! Transactional inbox and unit-of-work contracts.

pub mod claim;
pub mod dead_letters;
pub mod error;
pub mod failure;
pub mod maintenance;
pub mod record;
pub mod settings;

pub use self::claim::{ClaimedReceipt, InboxClaimOutcome};
pub use self::dead_letters::{
    DeadLetterBatch, DeadLetterBatchError, DeadLetterCursor, DeadLetterQuery, DeadLetterRecord,
};
pub use self::error::{InboxScopeError, InboxSettingsError};
pub use self::failure::{DeadReason, InboxFailure, InboxFailureOutcome};
pub use self::maintenance::{InboxPurgeReport, InboxPurgeRequest, InboxStats};
pub use self::record::{InboxId, InboxRecord, InboxScope};
pub use self::settings::InboxSettings;
