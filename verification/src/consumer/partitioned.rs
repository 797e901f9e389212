//! Ordered partition coordination on the shared bounded runtime.
//!
//! A [`PartitionTable`] holds the one record of each partition that is being worked on, or whose
//! advance is unresolved. A record for the next offset that arrives while the earlier one is being
//! given up or advanced waits in the table; any other overlap ends the run.

use crate::consumer::error::{ConsumerError, ConsumerErrorKind, ErrorSource, OperatorReason};
use crate::consumer::settlement::{resolution_failure, Resolution};
use crate::delivery::PartitionAdvance;
use crate::failure::FailureKind;
use std::collections::HashMap;
use vstd::prelude::*;

verus! {

broadcast use vstd::std_specs::hash::group_hash_axioms;

/// The record of a partition that is being worked on, or whose advance is unresolved.
pub struct ActiveEntry<D> {
    /// Tells this record's coordinator from every other one.
    pub token: u64,

    /// The partition was lost: the coordinator's work is void.
    pub stale: bool,

    /// The coordinator has ended without a confirmed advance.
    pub coordinator_done: bool,

    /// The partition is being advanced past the record.
    pub advancing: bool,

    /// The partition's next record, waiting for this one to end.
    pub deferred: Option<D>,
}

/// The record of a coordinator that was just started.
pub open spec fn started<D>(token: u64) -> ActiveEntry<D> {
    ActiveEntry {
        token,
        stale: false,
        coordinator_done: false,
        advancing: false,
        deferred: None,
    }
}

/// What becomes of a received record.
pub enum Admission<D> {
    /// A coordinator with this token is to be started for it.
    Start {
        /// The record.
        delivery: D,

        /// The coordinator's token.
        token: u64,
    },

    /// It waits for the coordinator that is about to end.
    Deferred,

    /// It overlaps live or unresolved work, which ends the run.
    Overlap(D),
}

/// What follows the loss of a partition.
pub struct Withdrawal<D> {
    /// The token of the coordinator to be cancelled.
    pub cancelled: Option<u64>,

    /// The waiting record, which is dropped.
    pub dropped: Option<D>,
}

/// What follows the end of a coordinator.
pub enum Release<D> {
    /// The partition has another record by now.
    Ignored,

    /// The partition stays unresolved.
    Retained,

    /// The partition is free.
    Free,

    /// A coordinator with this token is to be started for the waiting record.
    Restart {
        /// The record.
        delivery: D,

        /// The coordinator's token.
        token: u64,
    },

    /// The partition stays unresolved and a record waits for it, which ends the run.
    Overlap(D),
}

/// The active records of a consumer, by partition.
pub struct PartitionTable<D> {
    entries: HashMap<u64, ActiveEntry<D>>,
    next_token: u64,
}

/// [`PartitionTable`] as mathematical values.
#[verifier::ext_equal]
pub struct TableModel<D> {
    pub entries: Map<u64, ActiveEntry<D>>,
    pub next_token: u64,
}

/// A record may wait behind another one only while that one is being given up or advanced.
pub open spec fn is_consistent<D>(entry: ActiveEntry<D>) -> bool {
    &&& entry.coordinator_done ==> !entry.stale && !entry.advancing
    &&& entry.deferred is Some ==> entry.stale || entry.advancing
}

/// What holds of every table: each token was handed out once.
pub open spec fn table_wf<D>(table: TableModel<D>) -> bool {
    forall|partition: u64| #[trigger]
        table.entries.contains_key(partition) ==> {
            &&& table.entries[partition].token < table.next_token
            &&& is_consistent(table.entries[partition])
        }
}

/// A table without records.
pub open spec fn empty_table<D>() -> TableModel<D> {
    TableModel { entries: Map::empty(), next_token: 0 }
}

/// A table in which a new coordinator has a partition.
pub open spec fn with_started<D>(table: TableModel<D>, partition: u64) -> TableModel<D> {
    TableModel {
        entries: table.entries.insert(partition, started(table.next_token)),
        next_token: (table.next_token + 1) as u64,
    }
}

/// A table in which a partition has another record state.
pub open spec fn with_entry<D>(
    table: TableModel<D>,
    partition: u64,
    entry: ActiveEntry<D>,
) -> TableModel<D> {
    TableModel { entries: table.entries.insert(partition, entry), ..table }
}

/// A table in which a partition is free.
pub open spec fn without_entry<D>(table: TableModel<D>, partition: u64) -> TableModel<D> {
    TableModel { entries: table.entries.remove(partition), ..table }
}

/// Whether the partition's next record may wait behind an active one.
pub open spec fn may_defer<D>(entry: ActiveEntry<D>) -> bool {
    !entry.coordinator_done && entry.deferred is None && (entry.stale || entry.advancing)
}

/// The table and the decision after a record is received.
pub open spec fn received<D>(table: TableModel<D>, partition: u64, delivery: D) -> (
    TableModel<D>,
    Admission<D>,
) {
    if !table.entries.contains_key(partition) {
        (with_started(table, partition), Admission::Start { delivery, token: table.next_token })
    } else {
        let entry = table.entries[partition];
        if may_defer(entry) {
            (
                with_entry(
                    table,
                    partition,
                    ActiveEntry { deferred: Some(delivery), ..entry },
                ),
                Admission::Deferred,
            )
        } else {
            (table, Admission::Overlap(delivery))
        }
    }
}

/// The table and what follows after a partition is lost: its coordinator is cancelled, a waiting
/// record dropped, and an unresolved advance forgotten.
pub open spec fn lost<D>(table: TableModel<D>, partition: u64) -> (TableModel<D>, Withdrawal<D>) {
    if !table.entries.contains_key(partition) {
        (table, Withdrawal { cancelled: None, dropped: None })
    } else {
        let entry = table.entries[partition];
        let withdrawal = Withdrawal { cancelled: Some(entry.token), dropped: entry.deferred };
        if entry.coordinator_done {
            (without_entry(table, partition), withdrawal)
        } else {
            (
                with_entry(
                    table,
                    partition,
                    ActiveEntry { stale: true, deferred: None, ..entry },
                ),
                withdrawal,
            )
        }
    }
}

/// Whether a running coordinator still has its partition.
pub open spec fn owns<D>(table: TableModel<D>, partition: u64, token: u64) -> bool {
    &&& table.entries.contains_key(partition)
    &&& table.entries[partition].token == token
    &&& !table.entries[partition].stale
    &&& !table.entries[partition].coordinator_done
}

/// The table after a coordinator sets out to advance its partition, which it may only while it has
/// the partition.
pub open spec fn advancing<D>(table: TableModel<D>, partition: u64, token: u64) -> TableModel<D> {
    if owns(table, partition, token) {
        with_entry(
            table,
            partition,
            ActiveEntry { advancing: true, ..table.entries[partition] },
        )
    } else {
        table
    }
}

/// The table and what follows after a coordinator ends.
pub open spec fn finished<D>(
    table: TableModel<D>,
    partition: u64,
    token: u64,
    safe_to_release: bool,
) -> (TableModel<D>, Release<D>) {
    if !table.entries.contains_key(partition) || table.entries[partition].token != token {
        (table, Release::Ignored)
    } else {
        let entry = table.entries[partition];
        if safe_to_release || entry.stale {
            match entry.deferred {
                Some(delivery) => (
                    with_started(table, partition),
                    Release::Restart { delivery, token: table.next_token },
                ),
                None => (without_entry(table, partition), Release::Free),
            }
        } else {
            let unresolved = ActiveEntry {
                token,
                stale: false,
                coordinator_done: true,
                advancing: false,
                deferred: None,
            };
            (
                with_entry(table, partition, unresolved),
                match entry.deferred {
                    Some(delivery) => Release::Overlap(delivery),
                    None => Release::Retained,
                },
            )
        }
    }
}

impl<D> View for PartitionTable<D> {
    type V = TableModel<D>;

    closed spec fn view(&self) -> TableModel<D> {
        TableModel { entries: self.entries@, next_token: self.next_token }
    }
}

impl<D> PartitionTable<D> {
    /// A table without records.
    pub fn new() -> (table: Self)
        ensures
            table@ == empty_table::<D>(),
    {
        let entries: HashMap<u64, ActiveEntry<D>> = HashMap::new();
        assert(entries@ =~= Map::<u64, ActiveEntry<D>>::empty());
        PartitionTable { entries, next_token: 0 }
    }

    /// Whether a partition has a record.
    pub fn is_active(&self, partition: u64) -> (active: bool)
        ensures
            active == self@.entries.contains_key(partition),
    {
        self.entries.contains_key(&partition)
    }

    /// The token of the coordinator that has, or last had, a partition.
    pub fn token(&self, partition: u64) -> (token: Option<u64>)
        ensures
            token == if self@.entries.contains_key(partition) {
                Some(self@.entries[partition].token)
            } else {
                None::<u64>
            },
    {
        match self.entries.get(&partition) {
            Some(entry) => Some(entry.token),
            None => None,
        }
    }

    /// Whether no token is left for another coordinator.
    pub fn is_exhausted(&self) -> (exhausted: bool)
        ensures
            exhausted == (self@.next_token == u64::MAX),
    {
        self.next_token == u64::MAX
    }

    /// Decides what becomes of a received record.
    pub fn receive(&mut self, partition: u64, delivery: D) -> (admission: Admission<D>)
        requires
            old(self)@.next_token < u64::MAX,
        ensures
            (final(self)@, admission) == received(old(self)@, partition, delivery),
    {
        let ghost before = self@;

        match self.entries.remove(&partition) {
            None => {
                let token: u64 = self.next_token;

                self.next_token = token + 1;
                self.entries.insert(partition, fresh_entry(token));
                assert(self@ =~= with_started(before, partition));
                Admission::Start { delivery, token }
            },
            Some(entry) => {
                if !entry.coordinator_done && entry.deferred.is_none() && (entry.stale
                    || entry.advancing) {
                    let waiting = ActiveEntry { deferred: Some(delivery), ..entry };

                    self.entries.insert(partition, waiting);
                    assert(self@ =~= with_entry(before, partition, waiting));
                    Admission::Deferred
                } else {
                    self.entries.insert(partition, entry);
                    assert(self@ =~= before);
                    Admission::Overlap(delivery)
                }
            },
        }
    }

    /// Gives a partition up: its coordinator is cancelled, and a waiting record dropped.
    pub fn ownership_lost(&mut self, partition: u64) -> (withdrawal: Withdrawal<D>)
        ensures
            (final(self)@, withdrawal) == lost(old(self)@, partition),
    {
        let ghost before = self@;

        match self.entries.remove(&partition) {
            None => {
                assert(self@ =~= before);
                Withdrawal { cancelled: None, dropped: None }
            },
            Some(entry) => {
                let token: u64 = entry.token;

                if entry.coordinator_done {
                    assert(self@ =~= without_entry(before, partition));
                    Withdrawal { cancelled: Some(token), dropped: entry.deferred }
                } else {
                    let stale = ActiveEntry {
                        token,
                        stale: true,
                        coordinator_done: false,
                        advancing: entry.advancing,
                        deferred: None,
                    };

                    self.entries.insert(partition, stale);
                    assert(self@ =~= with_entry(before, partition, stale));
                    Withdrawal { cancelled: Some(token), dropped: entry.deferred }
                }
            },
        }
    }

    /// Sets out to advance a partition, unless the coordinator's work is void.
    pub fn begin_advance(&mut self, partition: u64, token: u64) -> (proceed: bool)
        ensures
            proceed == owns(old(self)@, partition, token),
            final(self)@ == advancing(old(self)@, partition, token),
    {
        let ghost before = self@;

        match self.entries.remove(&partition) {
            None => {
                assert(self@ =~= before);
                false
            },
            Some(entry) => {
                let proceed = entry.token == token && !entry.stale && !entry.coordinator_done;

                if proceed {
                    let advancing = ActiveEntry { advancing: true, ..entry };

                    self.entries.insert(partition, advancing);
                    assert(self@ =~= with_entry(before, partition, advancing));
                } else {
                    self.entries.insert(partition, entry);
                    assert(self@ =~= before);
                }
                proceed
            },
        }
    }

    /// Ends a coordinator. Only the one that has the partition changes anything: it frees a
    /// partition that was advanced or lost, and leaves any other one unresolved.
    pub fn finish(&mut self, partition: u64, token: u64, safe_to_release: bool) -> (release:
        Release<D>)
        requires
            old(self)@.next_token < u64::MAX,
        ensures
            (final(self)@, release) == finished(old(self)@, partition, token, safe_to_release),
    {
        let ghost before = self@;

        match self.entries.remove(&partition) {
            None => {
                assert(self@ =~= before);
                Release::Ignored
            },
            Some(entry) => {
                if entry.token != token {
                    self.entries.insert(partition, entry);
                    assert(self@ =~= before);
                    return Release::Ignored;
                }
                if safe_to_release || entry.stale {
                    match entry.deferred {
                        Some(delivery) => {
                            let next: u64 = self.next_token;

                            self.next_token = next + 1;
                            self.entries.insert(partition, fresh_entry(next));
                            assert(self@ =~= with_started(before, partition));
                            Release::Restart { delivery, token: next }
                        },
                        None => {
                            assert(self@ =~= without_entry(before, partition));
                            Release::Free
                        },
                    }
                } else {
                    let unresolved = ActiveEntry {
                        token,
                        stale: false,
                        coordinator_done: true,
                        advancing: false,
                        deferred: None,
                    };

                    self.entries.insert(partition, unresolved);
                    assert(self@ =~= with_entry(before, partition, unresolved));
                    match entry.deferred {
                        Some(delivery) => Release::Overlap(delivery),
                        None => Release::Retained,
                    }
                }
            },
        }
    }
}

fn fresh_entry<D>(token: u64) -> (entry: ActiveEntry<D>)
    ensures
        entry == started::<D>(token),
{
    ActiveEntry { token, stale: false, coordinator_done: false, advancing: false, deferred: None }
}

/// What follows a resolved record.
#[derive(Clone, Copy, Debug, PartialEq, Eq, Structural)]
pub enum PartitionPlan {
    /// The partition is advanced past the record.
    Advance,

    /// The record is left where it is and the consumer stops.
    Stop(ConsumerErrorKind, FailureKind),
}

/// The plan for a resolution: the partition is advanced past completed and dead records only.
pub open spec fn partition_plan(resolution: Resolution) -> PartitionPlan {
    match resolution {
        Resolution::Completed => PartitionPlan::Advance,
        Resolution::Dead(_) => PartitionPlan::Advance,
        Resolution::Malformed => PartitionPlan::Stop(
            ConsumerErrorKind::OperatorActionRequired(OperatorReason::Malformed),
            FailureKind::Permanent,
        ),
        _ => PartitionPlan::Stop(
            ConsumerErrorKind::PartitionUnresolved,
            match resolution_failure(resolution) {
                Some(kind) => kind,
                None => FailureKind::Transient,
            },
        ),
    }
}

/// Maps a resolution to its partition plan.
pub fn decide_partition(resolution: Resolution) -> (plan: PartitionPlan)
    ensures
        plan == partition_plan(resolution),
        plan is Advance <==> resolution is Completed || resolution is Dead,
{
    match resolution {
        Resolution::Completed | Resolution::Dead(_) => PartitionPlan::Advance,
        Resolution::Malformed => PartitionPlan::Stop(
            ConsumerErrorKind::OperatorActionRequired(OperatorReason::Malformed),
            FailureKind::Permanent,
        ),
        other => {
            let failure = match other.failure_kind() {
                Some(kind) => kind,
                None => FailureKind::Transient,
            };

            PartitionPlan::Stop(ConsumerErrorKind::PartitionUnresolved, failure)
        },
    }
}

/// The failure of a record that is left where it is.
pub fn partition_stop<S>(
    kind: ConsumerErrorKind,
    failure: FailureKind,
    error: Option<S>,
) -> (fatal: ConsumerError<S>)
    ensures
        fatal.kind == kind,
        fatal.failure == failure,
        fatal.source == match error {
            Some(source) => Some(ErrorSource::Provider(source)),
            None => None,
        },
{
    let source = match error {
        Some(source) => Some(ErrorSource::Provider(source)),
        None => None,
    };

    ConsumerError::new(kind, failure, source)
}

/// What a bounded advance reported.
pub enum AdvanceReply<S> {
    /// The source answered.
    Reported(PartitionAdvance),

    /// The advance exceeded `settlement_timeout`.
    TimedOut,

    /// The provider's operation failed with this classification.
    Failed(FailureKind, S),
}

/// How an advance ended.
#[derive(Clone, Copy, Debug, PartialEq, Eq, Structural)]
pub enum AdvanceOutcome {
    /// The partition is past the record.
    Advanced,

    /// The partition belongs to another consumer.
    Fenced,

    /// Whether the partition advanced is unknown; it stays unresolved.
    Uncertain,

    /// The provider failed for good.
    Failed,
}

/// How an advance ended, given whether the partition was lost meanwhile. A failure that is not
/// transient ends the run; a timeout or a transient one leaves only this partition unresolved.
pub open spec fn advance_outcome<S>(reply: AdvanceReply<S>, lost: bool) -> AdvanceOutcome {
    match reply {
        AdvanceReply::Reported(PartitionAdvance::Advanced) => if lost {
            AdvanceOutcome::Uncertain
        } else {
            AdvanceOutcome::Advanced
        },
        AdvanceReply::Reported(PartitionAdvance::OwnershipLost) => AdvanceOutcome::Fenced,
        AdvanceReply::TimedOut => AdvanceOutcome::Uncertain,
        AdvanceReply::Failed(kind, _) => if kind is Transient {
            AdvanceOutcome::Uncertain
        } else {
            AdvanceOutcome::Failed
        },
    }
}

/// The stable telemetry label of an advance. One that failed for good is as uncertain as one that
/// timed out.
pub open spec fn advance_text(outcome: AdvanceOutcome) -> Seq<char> {
    match outcome {
        AdvanceOutcome::Advanced => "advanced"@,
        AdvanceOutcome::Fenced => "advance_fenced"@,
        AdvanceOutcome::Uncertain => "advance_uncertain"@,
        AdvanceOutcome::Failed => "advance_uncertain"@,
    }
}

impl AdvanceOutcome {
    /// Returns the stable event label used in telemetry.
    pub fn as_str(self) -> (label: &'static str)
        ensures
            label@ == advance_text(self),
    {
        match self {
            AdvanceOutcome::Advanced => "advanced",
            AdvanceOutcome::Fenced => "advance_fenced",
            AdvanceOutcome::Uncertain => "advance_uncertain",
            AdvanceOutcome::Failed => "advance_uncertain",
        }
    }

    /// Whether the partition may be given to its next record.
    pub fn is_safe_to_release(self) -> (safe: bool)
        ensures
            safe == (self is Advanced || self is Fenced),
    {
        matches!(self, AdvanceOutcome::Advanced) || matches!(self, AdvanceOutcome::Fenced)
    }
}

impl<S> AdvanceReply<S> {
    /// Returns how the advance ended, given whether the partition was lost meanwhile.
    pub fn outcome(&self, lost: bool) -> (outcome: AdvanceOutcome)
        ensures
            outcome == advance_outcome(*self, lost),
    {
        match self {
            AdvanceReply::Reported(PartitionAdvance::Advanced) => if lost {
                AdvanceOutcome::Uncertain
            } else {
                AdvanceOutcome::Advanced
            },
            AdvanceReply::Reported(PartitionAdvance::OwnershipLost) => AdvanceOutcome::Fenced,
            AdvanceReply::TimedOut => AdvanceOutcome::Uncertain,
            AdvanceReply::Failed(kind, _) => if kind.is_retryable() {
                AdvanceOutcome::Uncertain
            } else {
                AdvanceOutcome::Failed
            },
        }
    }
}

/// Concludes an advance: how it ended, and the failure that ends the run if there is one.
pub fn conclude_advance<S>(reply: AdvanceReply<S>, lost: bool) -> (concluded: (
    AdvanceOutcome,
    Result<(), ConsumerError<S>>,
))
    ensures
        concluded.0 == advance_outcome(reply, lost),
        match concluded.1 {
            Ok(()) => !(concluded.0 is Failed),
            Err(error) => {
                &&& concluded.0 is Failed
                &&& reply matches AdvanceReply::Failed(kind, source) && error == (ConsumerError {
                    kind: ConsumerErrorKind::Settlement,
                    failure: kind,
                    source: Some(ErrorSource::Provider(source)),
                })
            },
        },
{
    let outcome = reply.outcome(lost);

    if let AdvanceReply::Failed(kind, source) = reply {
        if !kind.is_retryable() {
            return (
                outcome,
                Err(
                    ConsumerError::new(
                        ConsumerErrorKind::Settlement,
                        kind,
                        Some(ErrorSource::Provider(source)),
                    ),
                ),
            );
        }
    }

    (outcome, Ok(()))
}

/// The failure of a record that overlaps live or unresolved work of its partition.
pub fn overlap_error<S>() -> (fatal: ConsumerError<S>)
    ensures
        fatal.kind == ConsumerErrorKind::PartitionOrder,
        fatal.failure == FailureKind::Permanent,
        fatal.source is None,
{
    ConsumerError::new(ConsumerErrorKind::PartitionOrder, FailureKind::Permanent, None)
}

} // verus!
