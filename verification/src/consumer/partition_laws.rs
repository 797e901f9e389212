//! What holds of partition coordination over time.

use crate::consumer::partitioned::{
    advance_outcome, advancing, empty_table, finished, is_consistent, lost, owns, partition_plan,
    received, table_wf, with_started, Admission, AdvanceReply, Release, TableModel,
};
use crate::consumer::process::{WorkflowEvent, WorkflowStep};
use crate::consumer::process_laws::{
    is_run, law_completion_is_durable, law_death_is_durable, reached, saw_completion, saw_death,
};
use crate::consumer::settlement::Resolution;
use crate::delivery::PartitionAdvance;
use vstd::prelude::*;

verus! {

/// One thing that happens to the active records of a consumer.
pub enum TableEvent<D> {
    /// A record of a partition is received.
    Receive(u64, D),

    /// A partition is lost.
    Lose(u64),

    /// A coordinator sets out to advance its partition.
    Advance(u64, u64),

    /// A coordinator ends, having advanced its partition or not.
    Finish(u64, u64, bool),
}

/// The table after an event.
pub open spec fn table_after<D>(table: TableModel<D>, event: TableEvent<D>) -> TableModel<D> {
    match event {
        TableEvent::Receive(partition, delivery) => received(table, partition, delivery).0,
        TableEvent::Lose(partition) => lost(table, partition).0,
        TableEvent::Advance(partition, token) => advancing(table, partition, token),
        TableEvent::Finish(partition, token, safe) => finished(table, partition, token, safe).0,
    }
}

/// The token of the coordinator that an event starts, and its partition.
pub open spec fn starts<D>(table: TableModel<D>, event: TableEvent<D>) -> Option<(u64, u64)> {
    match event {
        TableEvent::Receive(partition, delivery) => match received(
            table,
            partition,
            delivery,
        ).1 {
            Admission::Start { token, .. } => Some((partition, token)),
            _ => None,
        },
        TableEvent::Finish(partition, token, safe) => match finished(
            table,
            partition,
            token,
            safe,
        ).1 {
            Release::Restart { token, .. } => Some((partition, token)),
            _ => None,
        },
        _ => None,
    }
}

/// The table after a row of events.
pub open spec fn table_at<D>(events: Seq<TableEvent<D>>) -> TableModel<D>
    decreases events.len(),
{
    if events.len() == 0 {
        empty_table()
    } else {
        table_after(table_at(events.drop_last()), events.last())
    }
}

/// The coordinators that run after a row of events: those that were started and have not ended,
/// each by its partition and token.
pub open spec fn running<D>(events: Seq<TableEvent<D>>) -> Set<(u64, u64)>
    decreases events.len(),
{
    if events.len() == 0 {
        Set::empty()
    } else {
        let before = running(events.drop_last());
        let rest = match events.last() {
            TableEvent::Finish(partition, token, _) => before.remove((partition, token)),
            _ => before,
        };
        match starts(table_at(events.drop_last()), events.last()) {
            Some(coordinator) => rest.insert(coordinator),
            None => rest,
        }
    }
}

/// Whether the table holds a coordinator as running.
spec fn holds<D>(table: TableModel<D>, coordinator: (u64, u64)) -> bool {
    &&& table.entries.contains_key(coordinator.0)
    &&& table.entries[coordinator.0].token == coordinator.1
    &&& !table.entries[coordinator.0].coordinator_done
}

proof fn lemma_running<D>(events: Seq<TableEvent<D>>)
    requires
        events.len() < u64::MAX,
    ensures
        table_wf(table_at(events)),
        table_at(events).next_token <= events.len(),
        forall|coordinator: (u64, u64)| #[trigger]
            running(events).contains(coordinator) <==> holds(table_at(events), coordinator),
    decreases events.len(),
{
    if events.len() > 0 {
        let before = events.drop_last();
        lemma_running(before);
        let table = table_at(before);
        let after = table_at(events);
        assert(after == table_after(table, events.last()));

        assert forall|partition: u64| #[trigger] after.entries.contains_key(partition) implies {
            &&& after.entries[partition].token < after.next_token
            &&& is_consistent(after.entries[partition])
        } by {
            assert(table.entries.contains_key(partition) ==> is_consistent(
                table.entries[partition],
            ));
        }

        assert forall|coordinator: (u64, u64)| #[trigger]
            running(events).contains(coordinator) <==> holds(after, coordinator) by {
            assert(running(before).contains(coordinator) <==> holds(table, coordinator));
            assert(table.entries.contains_key(coordinator.0) ==> is_consistent(
                table.entries[coordinator.0],
            ));
        }
    }
}

/// Whatever happens, a partition never has two coordinators running at a time.
pub proof fn law_one_active_record_per_partition<D>(
    events: Seq<TableEvent<D>>,
    partition: u64,
    first: u64,
    second: u64,
)
    requires
        events.len() < u64::MAX,
        running(events).contains((partition, first)),
        running(events).contains((partition, second)),
    ensures
        first == second,
{
    lemma_running(events);
}

/// A new coordinator never gets the token of one that is running.
pub proof fn law_tokens_are_fresh<D>(
    events: Seq<TableEvent<D>>,
    event: TableEvent<D>,
    coordinator: (u64, u64),
)
    requires
        events.len() < u64::MAX,
        running(events).contains(coordinator),
        starts(table_at(events), event) is Some,
    ensures
        starts(table_at(events), event)->Some_0.1 != coordinator.1,
{
    lemma_running(events);
}

/// Only the coordinator that has a partition can change its record by ending: the end of an
/// earlier one cannot clear a new owner.
pub proof fn law_stale_coordinator_cannot_clear_new_owner<D>(
    table: TableModel<D>,
    partition: u64,
    token: u64,
    safe_to_release: bool,
)
    requires
        table.entries.contains_key(partition),
        table.entries[partition].token != token,
    ensures
        finished(table, partition, token, safe_to_release).0 == table,
{
}

/// A coordinator that ends without a confirmed advance keeps its partition, which admits no other
/// record until it is lost.
pub proof fn law_unresolved_partition_is_retained<D>(
    table: TableModel<D>,
    partition: u64,
    token: u64,
    delivery: D,
)
    requires
        owns(table, partition, token),
    ensures
        ({
            let after = finished(table, partition, token, false).0;
            &&& after.entries.contains_key(partition)
            &&& received(after, partition, delivery) == (after, Admission::Overlap(delivery))
            &&& !lost(after, partition).0.entries.contains_key(partition)
        }),
{
}

/// A record that waits is started as soon as the earlier one's advance is confirmed, or ends the
/// run if it is not.
pub proof fn law_deferred_record_follows_the_advance<D>(
    table: TableModel<D>,
    partition: u64,
    token: u64,
    delivery: D,
)
    requires
        owns(table, partition, token),
        table.entries[partition].deferred is None,
    ensures
        ({
            let waiting = received(advancing(table, partition, token), partition, delivery).0;
            &&& finished(waiting, partition, token, true) == (
                with_started(waiting, partition),
                Release::Restart { delivery, token: waiting.next_token },
            )
            &&& finished(waiting, partition, token, false).1 == Release::<D>::Overlap(delivery)
        }),
{
}

/// A record that waits when its partition is lost is never started.
pub proof fn law_lost_partition_drops_the_waiting_record<D>(
    table: TableModel<D>,
    partition: u64,
    token: u64,
    safe_to_release: bool,
)
    requires
        owns(table, partition, token),
    ensures
        ({
            let (after, withdrawal) = lost(table, partition);
            &&& withdrawal.cancelled == Some(token)
            &&& withdrawal.dropped == table.entries[partition].deferred
            &&& finished(after, partition, token, safe_to_release).1 == Release::<D>::Free
        }),
{
}

/// What happens to one partition leaves every other one as it is.
pub proof fn law_partitions_are_independent<D>(
    table: TableModel<D>,
    event: TableEvent<D>,
    other: u64,
)
    requires
        match event {
            TableEvent::Receive(partition, _) => partition != other,
            TableEvent::Lose(partition) => partition != other,
            TableEvent::Advance(partition, _) => partition != other,
            TableEvent::Finish(partition, _, _) => partition != other,
        },
    ensures
        table_after(table, event).entries.contains_key(other) == table.entries.contains_key(other),
        table.entries.contains_key(other) ==> table_after(table, event).entries[other]
            == table.entries[other],
{
}

/// A partition is advanced only past a record whose completion or terminal failure is durable.
pub proof fn law_advance_follows_a_durable_outcome<R, S>(events: Seq<WorkflowEvent<R, S>>)
    requires
        is_run(events),
    ensures
        reached(events) matches WorkflowStep::Finished(processed) && partition_plan(
            processed.resolution,
        ) is Advance ==> saw_completion(events) || saw_death(events),
{
    law_completion_is_durable(events);
    law_death_is_durable(events);
}

/// A partition is released only after a confirmed advance that no loss overtook, or after the
/// source fenced it.
pub proof fn law_release_needs_confirmation<S>(reply: AdvanceReply<S>, lost: bool)
    ensures
        ({
            let outcome = advance_outcome(reply, lost);
            outcome is Advanced || outcome is Fenced ==> reply is Reported
        }),
        lost ==> !(advance_outcome(reply, lost) is Advanced),
{
}

/// Whether a partition's record is live: its coordinator runs, and the partition is not lost.
pub open spec fn is_live<D>(table: TableModel<D>, partition: u64) -> bool {
    &&& table.entries.contains_key(partition)
    &&& !table.entries[partition].stale
    &&& !table.entries[partition].coordinator_done
}

/// A record of a free partition is started at once, under a token of its own; its coordinator then
/// has the partition and may advance it.
pub proof fn law_free_partition_admits_its_record<D>(
    table: TableModel<D>,
    partition: u64,
    delivery: D,
)
    requires
        !table.entries.contains_key(partition),
        table.next_token < u64::MAX,
    ensures
        ({
            let (after, admission) = received(table, partition, delivery);
            &&& admission == (Admission::Start { delivery, token: table.next_token })
            &&& after.next_token == table.next_token + 1
            &&& is_live(after, partition)
            &&& !after.entries[partition].advancing
            &&& after.entries[partition].deferred is None
            &&& owns(after, partition, table.next_token)
        }),
{
}

/// What becomes of a record whose partition has one already: it waits while that one is being
/// advanced or given up and nothing waits yet, and overlaps otherwise. Waiting changes nothing
/// else, and an overlap nothing at all.
pub proof fn law_taken_partition_defers_or_overlaps<D>(
    table: TableModel<D>,
    partition: u64,
    delivery: D,
)
    requires
        table.entries.contains_key(partition),
    ensures
        ({
            let (after, admission) = received(table, partition, delivery);
            let entry = table.entries[partition];
            let ending = !entry.coordinator_done && (entry.advancing || entry.stale);
            &&& ending && entry.deferred is None <==> admission is Deferred
            &&& admission is Deferred ==> {
                &&& after.entries.contains_key(partition)
                &&& after.entries[partition].deferred == Some(delivery)
                &&& after.entries[partition].token == entry.token
                &&& after.entries[partition].stale == entry.stale
                &&& after.entries[partition].advancing == entry.advancing
                &&& after.entries[partition].coordinator_done == entry.coordinator_done
                &&& after.next_token == table.next_token
            }
            &&& !(admission is Deferred) ==> admission == Admission::<D>::Overlap(delivery)
                && after == table
        }),
{
}

/// A coordinator may set out to advance exactly while its record is live and its own, and setting
/// out marks the record and changes nothing else.
pub proof fn law_only_the_owner_advances<D>(table: TableModel<D>, partition: u64, token: u64)
    ensures
        owns(table, partition, token) <==> is_live(table, partition)
            && table.entries[partition].token == token,
        ({
            let after = advancing(table, partition, token);
            &&& after.next_token == table.next_token
            &&& if owns(table, partition, token) {
                &&& after.entries.dom() == table.entries.dom()
                &&& after.entries[partition].advancing
                &&& after.entries[partition].token == token
                &&& !after.entries[partition].stale
                &&& !after.entries[partition].coordinator_done
                &&& after.entries[partition].deferred == table.entries[partition].deferred
            } else {
                after == table
            }
        }),
{
    assert(owns(table, partition, token) ==> table.entries.dom().insert(partition)
        =~= table.entries.dom());
}

/// A coordinator that ends with a confirmed advance frees its partition, so that its next record is
/// admitted.
pub proof fn law_confirmed_advance_frees_the_partition<D>(
    table: TableModel<D>,
    partition: u64,
    token: u64,
    delivery: D,
)
    requires
        owns(table, partition, token),
        table.entries[partition].deferred is None,
    ensures
        ({
            let (after, release) = finished(table, partition, token, true);
            &&& release == Release::<D>::Free
            &&& !after.entries.contains_key(partition)
            &&& after.next_token == table.next_token
            &&& received(after, partition, delivery).1 is Start
        }),
{
}

/// A coordinator that ends without a confirmed advance leaves its partition unresolved under its
/// token: no longer running, lost or advancing, and with nothing waiting.
pub proof fn law_unconfirmed_end_leaves_the_partition_unresolved<D>(
    table: TableModel<D>,
    partition: u64,
    token: u64,
)
    requires
        owns(table, partition, token),
    ensures
        ({
            let (after, release) = finished(table, partition, token, false);
            &&& after.entries.contains_key(partition)
            &&& after.entries[partition].token == token
            &&& after.entries[partition].coordinator_done
            &&& !after.entries[partition].stale
            &&& !after.entries[partition].advancing
            &&& after.entries[partition].deferred is None
            &&& after.next_token == table.next_token
            &&& match table.entries[partition].deferred {
                Some(delivery) => release == Release::<D>::Overlap(delivery),
                None => release == Release::<D>::Retained,
            }
        }),
{
}

/// Losing a partition voids its coordinator's work at once: the coordinator is cancelled, may no
/// longer advance, and frees the partition when it ends, or hands it to the record that arrived
/// meanwhile. A partition without a record is not touched.
pub proof fn law_lost_partition_voids_its_coordinator<D>(
    table: TableModel<D>,
    partition: u64,
    token: u64,
    safe_to_release: bool,
    delivery: D,
)
    requires
        is_live(table, partition),
        table.entries[partition].token == token,
    ensures
        ({
            let (after, withdrawal) = lost(table, partition);
            let waiting = received(after, partition, delivery);
            let restarted = finished(waiting.0, partition, token, safe_to_release);
            &&& withdrawal.cancelled == Some(token)
            &&& after.entries.contains_key(partition)
            &&& !owns(after, partition, token)
            &&& advancing(after, partition, token) == after
            &&& waiting.1 is Deferred
            &&& restarted.1 == (Release::Restart { delivery, token: table.next_token })
            &&& table.next_token < u64::MAX ==> owns(restarted.0, partition, table.next_token)
        }),
{
}

/// Losing a partition that has no record, or whose coordinator has ended, leaves it free.
pub proof fn law_losing_an_idle_partition_frees_it<D>(table: TableModel<D>, partition: u64)
    requires
        table.entries.contains_key(partition) ==> table.entries[partition].coordinator_done,
    ensures
        ({
            let (after, withdrawal) = lost(table, partition);
            &&& !after.entries.contains_key(partition)
            &&& after.next_token == table.next_token
            &&& match withdrawal.cancelled {
                Some(token) => table.entries.contains_key(partition)
                    && table.entries[partition].token == token,
                None => !table.entries.contains_key(partition) && after == table,
            }
        }),
{
}

/// The end of a coordinator that the table does not know changes nothing.
pub proof fn law_unknown_ends_are_ignored<D>(
    table: TableModel<D>,
    partition: u64,
    token: u64,
    safe_to_release: bool,
)
    requires
        !(table.entries.contains_key(partition) && table.entries[partition].token == token),
    ensures
        finished(table, partition, token, safe_to_release) == (table, Release::<D>::Ignored),
{
}

/// What an advance's answer means: only a confirmation of a partition still held has advanced it,
/// only the source's word fences it, only a failure that is not transient has failed for good, and
/// everything else is uncertain.
pub proof fn law_advance_outcomes<S>(reply: AdvanceReply<S>, lost: bool)
    ensures
        ({
            let outcome = advance_outcome(reply, lost);
            &&& outcome is Advanced <==> !lost && reply == AdvanceReply::<S>::Reported(
                PartitionAdvance::Advanced,
            )
            &&& outcome is Fenced <==> reply == AdvanceReply::<S>::Reported(
                PartitionAdvance::OwnershipLost,
            )
            &&& outcome is Failed <==> (reply matches AdvanceReply::Failed(kind, _) && !(kind
                is Transient))
        }),
{
}

/// A partition is advanced past exactly the records whose completion or death is durable; any other
/// record stops the consumer.
pub proof fn law_plans_advance_past_durable_outcomes(resolution: Resolution)
    ensures
        partition_plan(resolution) is Advance <==> resolution is Completed || resolution is Dead,
{
}

} // verus!
