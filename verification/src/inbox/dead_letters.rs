//! Bounded dead-receipt operator capability.

use crate::envelope::{MessageId, Metadata};
use crate::failure::FailureKind;
use crate::inbox::failure::DeadReason;
use crate::inbox::record::{InboxId, InboxScope};
use crate::nonzero::NonZeroU32;
use std::time::SystemTime;
use vstd::prelude::*;

verus! {

/// A database time, carried without looking inside.
#[verifier::external_type_specification]
#[verifier::external_body]
pub struct ExSystemTime(SystemTime);

/// `SystemTime` is `Copy`: its clone is the same time.
pub assume_specification[ <SystemTime as Clone>::clone ](time: &SystemTime) -> (copy: SystemTime)
    ensures
        copy == *time,
;

/// Maximum identities accepted by one dead-letter mutation.
pub const MAX_DEAD_LETTER_BATCH_SIZE: usize = 1_024;

/// Invalid dead-letter mutation batch.
#[derive(Clone, Copy, Debug, PartialEq, Eq, Structural)]
#[non_exhaustive]
pub enum DeadLetterBatchError {
    /// At least one receipt identity is required.
    Empty,

    /// The request exceeded [`MAX_DEAD_LETTER_BATCH_SIZE`].
    TooLarge,
}

/// The rendering of a batch error.
pub open spec fn batch_error_text(error: DeadLetterBatchError) -> Seq<char> {
    match error {
        DeadLetterBatchError::Empty => "dead-letter batch must not be empty"@,
        DeadLetterBatchError::TooLarge => "dead-letter batch exceeds the maximum size"@,
    }
}

impl DeadLetterBatchError {
    /// An invalid batch stays invalid: every batch error is permanent.
    pub fn classify(&self) -> (failure: FailureKind)
        ensures
            failure == FailureKind::Permanent,
    {
        FailureKind::Permanent
    }

    /// Renders the error.
    pub fn to_string(&self) -> (text: String)
        ensures
            text@ == batch_error_text(*self),
    {
        match self {
            DeadLetterBatchError::Empty => "dead-letter batch must not be empty".to_owned(),
            DeadLetterBatchError::TooLarge => {
                "dead-letter batch exceeds the maximum size".to_owned()
            },
        }
    }
}

/// Borrowed, validated receipt identities for one bounded dead-letter mutation.
#[derive(Clone, Copy, Debug, PartialEq, Eq)]
pub struct DeadLetterBatch<'a> {
    ids: &'a [InboxId],
}

impl<'a> View for DeadLetterBatch<'a> {
    type V = Seq<InboxId>;

    closed spec fn view(&self) -> Seq<InboxId> {
        self.ids@
    }
}

impl<'a> DeadLetterBatch<'a> {
    #[verifier::type_invariant]
    spec fn wf(self) -> bool {
        0 < self.ids@.len() <= MAX_DEAD_LETTER_BATCH_SIZE
    }

    /// Validates a borrowed batch before a provider operation can start.
    pub fn new(ids: &'a [InboxId]) -> (batch: Result<Self, DeadLetterBatchError>)
        ensures
            match batch {
                Ok(batch) => batch@ == ids@ && 0 < ids@.len() <= MAX_DEAD_LETTER_BATCH_SIZE,
                Err(DeadLetterBatchError::Empty) => ids@.len() == 0,
                Err(DeadLetterBatchError::TooLarge) => ids@.len() > MAX_DEAD_LETTER_BATCH_SIZE,
            },
    {
        if ids.len() == 0 {
            return Err(DeadLetterBatchError::Empty);
        }

        if ids.len() > MAX_DEAD_LETTER_BATCH_SIZE {
            return Err(DeadLetterBatchError::TooLarge);
        }

        Ok(DeadLetterBatch { ids })
    }

    /// Returns the original identities without allocation or normalization.
    pub fn ids(&self) -> (ids: &'a [InboxId])
        ensures
            ids@ == self@,
            0 < ids@.len() <= MAX_DEAD_LETTER_BATCH_SIZE,
    {
        proof {
            use_type_invariant(self);
        }
        self.ids
    }
}

/// Stable exclusive keyset cursor ordered by death time then receipt identity.
#[derive(Clone, Copy, Debug, PartialEq, Eq)]
pub struct DeadLetterCursor {
    /// Database death timestamp of the last returned receipt.
    pub dead_at: SystemTime,

    /// Durable tiebreaker of the last returned receipt.
    pub id: InboxId,
}

/// One bounded dead-letter inspection request with no scope filter.
#[derive(Clone, Copy, Debug, PartialEq, Eq)]
pub struct DeadLetterQuery {
    /// Exclusive death-time-and-ID cursor.
    pub after: Option<DeadLetterCursor>,

    /// Maximum records returned.
    pub limit: NonZeroU32,
}

impl Default for DeadLetterQuery {
    fn default() -> (query: Self)
        ensures
            query.after is None,
            query.limit@ == 100,
    {
        DeadLetterQuery { after: None, limit: NonZeroU32::new(100).unwrap() }
    }
}

/// One dead receipt returned for explicit operator inspection.
#[derive(Clone, Debug, PartialEq, Eq)]
pub struct DeadLetterRecord {
    /// Provider-minted durable receipt identity.
    pub id: InboxId,

    /// Consumer scope participating in the deduplication key.
    pub scope: InboxScope,

    /// Stable logical message identity.
    pub message_id: MessageId,

    /// Stable message contract identity.
    pub message_type: String,

    /// Stable message contract version.
    pub version: u32,

    /// Persisted metadata, or `None` when provider decoding found poisoned metadata.
    pub metadata: Option<Metadata>,

    /// Recorded failures when this receipt became terminal.
    pub attempts: u32,

    /// Database time of the first persisted observation.
    pub received_at: SystemTime,

    /// Database time at which the receipt became terminal.
    pub dead_at: SystemTime,

    /// Stable terminal category.
    pub reason: DeadReason,

    /// Last caller-reviewed bounded failure summary, when available.
    pub last_error: Option<String>,
}

/// No two batch errors render alike.
pub proof fn law_batch_errors_render_apart(left: DeadLetterBatchError, right: DeadLetterBatchError)
    ensures
        batch_error_text(left) == batch_error_text(right) <==> left == right,
{
    reveal_strlit("dead-letter batch must not be empty");
    reveal_strlit("dead-letter batch exceeds the maximum size");

    let l = batch_error_text(left);
    let r = batch_error_text(right);
    assert(left != right ==> l.len() != r.len());
}

} // verus!
