//! Explicit bounded terminal receipt maintenance.

use crate::duration::span_nanos;
use crate::nonzero::NonZeroU32;
use std::time::Duration;
use vstd::prelude::*;

verus! {

/// One bounded pass that may delete only terminal inbox receipts.
#[derive(Clone, Copy, Debug, PartialEq, Eq)]
pub struct InboxPurgeRequest {
    /// Completed receipts older than this age may be deleted; `None` disables this phase.
    pub completed_retention: Option<Duration>,

    /// Dead receipts older than this age may be deleted; `None` disables this phase.
    pub dead_retention: Option<Duration>,

    /// Maximum deletions in each terminal-state phase.
    pub batch_size: NonZeroU32,
}

impl Default for InboxPurgeRequest {
    fn default() -> (request: Self)
        ensures
            request.completed_retention matches Some(age) && span_nanos(age)
                == 604_800_000_000_000,
            request.dead_retention matches Some(age) && span_nanos(age) == 2_592_000_000_000_000,
            request.batch_size@ == 500,
    {
        InboxPurgeRequest {
            completed_retention: Some(Duration::from_secs(7 * 24 * 60 * 60)),
            dead_retention: Some(Duration::from_secs(30 * 24 * 60 * 60)),
            batch_size: NonZeroU32::new(500).unwrap(),
        }
    }
}

/// Confirmed deletions from one bounded terminal-maintenance pass.
#[derive(Clone, Copy, Debug, PartialEq, Eq, Structural)]
pub struct InboxPurgeReport {
    /// Completed receipts deleted in this pass.
    pub completed_deleted: u64,

    /// Dead receipts deleted in this pass.
    pub dead_deleted: u64,
}

impl Default for InboxPurgeReport {
    fn default() -> (report: Self)
        ensures
            report == (InboxPurgeReport { completed_deleted: 0, dead_deleted: 0 }),
    {
        InboxPurgeReport { completed_deleted: 0, dead_deleted: 0 }
    }
}

/// Database-authoritative inbox state levels from one observation.
#[derive(Clone, Copy, Debug, PartialEq, Eq, Structural)]
pub struct InboxStats {
    /// Receipts observed but not yet failed or completed.
    pub pending: u64,

    /// Receipts with one or more recorded transient failures.
    pub retrying: u64,

    /// Receipts completed with their caller's business effects.
    pub completed: u64,

    /// Receipts made terminal by classified failure.
    pub dead: u64,
}

impl Default for InboxStats {
    fn default() -> (stats: Self)
        ensures
            stats == (InboxStats { pending: 0, retrying: 0, completed: 0, dead: 0 }),
    {
        InboxStats { pending: 0, retrying: 0, completed: 0, dead: 0 }
    }
}

} // verus!
