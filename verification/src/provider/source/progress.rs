//! That a delivery source gets on with its work: what is due is polled, what is polled is
//! delivered, and what was given up is tried again.

use crate::provider::source::laws::law_delivery_in_order;
use crate::provider::source::model::{
    at_step, earlier, earliest_poll, first_deliverable, index_of, is_next_poll, place, probed,
    with_delivery, with_known_partitions, with_partition, with_partitions, SourceModel, MAX_NOW,
};
use crate::provider::source::slot::SlotModel;
use crate::provider::source::state::{
    receives, refresh_next, with_refresh, ReceiveStep, RefreshReply,
};
use crate::provider::source::wire::polled_record;
use vstd::prelude::*;

verus! {

/// When a partition is polled. One that is owned is polled only while it holds no record, buffered
/// or delivered, and not before the time it waits for. One that is not owned is polled at any time
/// or at none.
pub proof fn law_when_a_partition_is_due(slot: SlotModel, now: u64, later: u64)
    ensures
        slot.owned && (slot.buffer.len() > 0 || slot.unresolved is Some) ==> !slot.due(now),
        slot.owned && slot.buffer.len() == 0 && slot.unresolved is None ==> {
            &&& slot.not_before is None ==> slot.due(now)
            &&& slot.not_before matches Some(at) ==> (slot.due(now) <==> now >= at)
        },
        !slot.owned ==> slot.due(now) == slot.probe_due && slot.due(later) == slot.due(now),
        slot.deliverable() <==> slot.owned && slot.unresolved is None && slot.buffer.len() > 0,
{
}

/// Whether a list of partitions holds one, as it was but for a scheduled probe.
pub open spec fn keeps(slots: Seq<SlotModel>, slot: SlotModel) -> bool {
    exists|j: int| 0 <= j < slots.len() && #[trigger] is_kept(slots[j], slot)
}

/// A partition as it was, except that a probe may be scheduled.
pub open spec fn is_kept(after: SlotModel, before: SlotModel) -> bool {
    &&& after.id == before.id
    &&& after.owned == before.owned
    &&& after.epoch == before.epoch
    &&& after.next == before.next
    &&& after.buffer == before.buffer
    &&& after.unresolved == before.unresolved
    &&& after.not_before == before.not_before
}

/// Whether a list of partitions holds one with an id.
pub open spec fn knows(slots: Seq<SlotModel>, id: u32) -> bool {
    exists|j: int| 0 <= j < slots.len() && (#[trigger] slots[j]).id == id
}

/// A partition that the source has never owned, and that holds nothing.
pub open spec fn is_fresh(slot: SlotModel) -> bool {
    &&& !slot.owned
    &&& slot.epoch == 0
    &&& slot.next is None
    &&& slot.buffer.len() == 0
    &&& slot.unresolved is None
    &&& slot.not_before is None
}

/// Where each partition comes from once others are made known: it was there, or it is new.
spec fn accounted(m: SourceModel, ids: Seq<u32>, slots: Seq<SlotModel>) -> bool {
    &&& forall|i: int| 0 <= i < m.slots.len() ==> keeps(slots, #[trigger] m.slots[i])
    &&& forall|k: int| 0 <= k < ids.len() ==> knows(slots, #[trigger] ids[k])
    &&& forall|j: int|
        0 <= j < slots.len() ==> keeps(m.slots, #[trigger] slots[j]) || (ids.contains(slots[j].id)
            && is_fresh(slots[j]))
}

proof fn lemma_place_in_bounds(slots: Seq<SlotModel>, id: u32)
    ensures
        0 <= place(slots, id) <= slots.len(),
    decreases slots.len(),
{
    if slots.len() > 0 {
        lemma_place_in_bounds(slots.drop_last(), id);
    }
}

proof fn lemma_index_known(slots: Seq<SlotModel>, id: u32)
    ensures
        index_of(slots, id) is Some ==> knows(slots, id),
    decreases slots.len(),
{
    if slots.len() > 0 {
        let rest = slots.drop_last();
        lemma_index_known(rest, id);
        if slots.last().id == id {
            assert(slots[slots.len() - 1].id == id);
        } else if index_of(slots, id) is Some {
            let j = choose|j: int| 0 <= j < rest.len() && (#[trigger] rest[j]).id == id;
            assert(slots[j] == rest[j]);
        }
    }
}

proof fn lemma_accounted(m: SourceModel, ids: Seq<u32>)
    ensures
        accounted(m, ids, with_known_partitions(m, ids).slots),
        with_known_partitions(m, ids) == (SourceModel {
            slots: with_known_partitions(m, ids).slots,
            ready: with_known_partitions(m, ids).ready,
            ..m
        }),
    decreases ids.len(),
{
    if ids.len() == 0 {
        assert forall|i: int| 0 <= i < m.slots.len() implies keeps(
            m.slots,
            #[trigger] m.slots[i],
        ) by {
            assert(is_kept(m.slots[i], m.slots[i]));
        }
    } else {
        let past = ids.drop_last();
        let id = ids.last();
        let before = with_known_partitions(m, past);
        let after = with_known_partitions(m, ids);
        lemma_accounted(m, past);
        lemma_index_known(before.slots, id);
        lemma_place_in_bounds(before.slots, id);
        let at = place(before.slots, id);
        assert(after == with_partition(before, id));
        let new = index_of(before.slots, id) is None;

        assert forall|i: int| 0 <= i < m.slots.len() implies keeps(
            after.slots,
            #[trigger] m.slots[i],
        ) by {
            assert(keeps(before.slots, m.slots[i]));
            let j = choose|j: int|
                0 <= j < before.slots.len() && #[trigger] is_kept(before.slots[j], m.slots[i]);
            let k = if !new || j < at { j } else { j + 1 };
            assert(after.slots[k] == before.slots[j]);
            assert(is_kept(after.slots[k], m.slots[i]));
        }
        assert forall|k: int| 0 <= k < ids.len() implies knows(after.slots, #[trigger] ids[k]) by {
            if k < past.len() {
                assert(past[k] == ids[k]);
                assert(knows(before.slots, past[k]));
                let j = choose|j: int|
                    0 <= j < before.slots.len() && (#[trigger] before.slots[j]).id == ids[k];
                let l = if !new || j < at { j } else { j + 1 };
                assert(after.slots[l] == before.slots[j]);
            } else if new {
                assert(after.slots[at].id == id);
            } else {
                assert(knows(before.slots, id));
            }
        }
        assert forall|j: int| 0 <= j < after.slots.len() implies keeps(
            m.slots,
            #[trigger] after.slots[j],
        ) || (ids.contains(after.slots[j].id) && is_fresh(after.slots[j])) by {
            if new && j == at {
                assert(ids[ids.len() - 1] == id);
            } else {
                let k = if !new || j < at { j } else { j - 1 };
                assert(after.slots[j] == before.slots[k]);
                if past.contains(before.slots[k].id) {
                    let p = choose|p: int| 0 <= p < past.len() && past[p] == before.slots[k].id;
                    assert(ids[p] == past[p]);
                }
            }
        }
    }
}

/// Right after the topic's partitions are reloaded, every known partition that the source does not
/// own is due for a poll at any time: a partition that was released, or whose probe was fenced, is
/// tried again, and a new one is tried for the first time.
///
/// Nothing else changes. Every listed partition is known, no partition is forgotten, and each one
/// holds what it held; one that was not known before holds nothing.
pub proof fn law_reload_schedules_every_partition_not_owned(
    m: SourceModel,
    ids: Seq<u32>,
    now: u64,
)
    ensures
        ({
            let after = with_partitions(m, ids);
            &&& forall|i: int|
                0 <= i < after.slots.len() && !(#[trigger] after.slots[i]).owned
                    ==> after.slots[i].probe_due && after.slots[i].due(now)
            &&& forall|i: int| 0 <= i < m.slots.len() ==> keeps(after.slots, #[trigger] m.slots[i])
            &&& forall|k: int| 0 <= k < ids.len() ==> knows(after.slots, #[trigger] ids[k])
            &&& forall|j: int|
                0 <= j < after.slots.len() ==> keeps(m.slots, #[trigger] after.slots[j]) || (
                ids.contains(after.slots[j].id) && is_fresh(after.slots[j]))
            &&& after.withdrawn == m.withdrawn
            &&& after.opened == m.opened
            &&& after.cursor == m.cursor
            &&& after.refresh_at == m.refresh_at
            &&& after.closed == m.closed
            &&& after.batch_length == m.batch_length
            &&& after.poll_interval == m.poll_interval
            &&& after.refresh_interval == m.refresh_interval
        }),
{
    let known = with_known_partitions(m, ids);
    let after = with_partitions(m, ids);
    lemma_accounted(m, ids);
    assert forall|j: int| 0 <= j < known.slots.len() implies is_kept(
        #[trigger] after.slots[j],
        known.slots[j],
    ) by {
        assert(after.slots[j] == probed(known.slots[j]));
    }
    assert forall|i: int| 0 <= i < m.slots.len() implies keeps(
        after.slots,
        #[trigger] m.slots[i],
    ) by {
        assert(keeps(known.slots, m.slots[i]));
        let j = choose|j: int|
            0 <= j < known.slots.len() && #[trigger] is_kept(known.slots[j], m.slots[i]);
        assert(is_kept(after.slots[j], m.slots[i]));
    }
    assert forall|k: int| 0 <= k < ids.len() implies knows(after.slots, #[trigger] ids[k]) by {
        assert(knows(known.slots, ids[k]));
        let j = choose|j: int|
            0 <= j < known.slots.len() && (#[trigger] known.slots[j]).id == ids[k];
        assert(after.slots[j].id == ids[k]);
    }
    assert forall|j: int| 0 <= j < after.slots.len() implies keeps(
        m.slots,
        #[trigger] after.slots[j],
    ) || (ids.contains(after.slots[j].id) && is_fresh(after.slots[j])) by {
        assert(after.slots[j] == probed(known.slots[j]));
        if keeps(m.slots, known.slots[j]) {
            let i = choose|i: int|
                0 <= i < m.slots.len() && #[trigger] is_kept(m.slots[i], known.slots[j]);
            assert(is_kept(m.slots[i], after.slots[j]));
        }
    }
}

/// A completed refresh polls every partition that is not owned once more: each is due until it is
/// polled, and the next refresh is one refresh interval away.
pub proof fn law_refresh_tries_every_partition_again(
    m: SourceModel,
    partitions: Vec<u32>,
    now: u64,
    later: u64,
)
    requires
        m.wf(),
        now <= MAX_NOW,
    ensures
        ({
            let reply = RefreshReply::Topic(Some(partitions));
            let after = with_refresh(m, reply, now);
            &&& refresh_next(m, reply) is Done
            &&& after.refresh_at == now + m.refresh_interval
            &&& forall|i: int|
                0 <= i < after.slots.len() && !(#[trigger] after.slots[i]).owned
                    ==> after.slots[i].due(later)
            &&& forall|k: int|
                0 <= k < partitions@.len() ==> knows(after.slots, #[trigger] partitions@[k])
            &&& forall|i: int| 0 <= i < m.slots.len() ==> keeps(after.slots, #[trigger] m.slots[i])
        }),
{
    law_reload_schedules_every_partition_not_owned(m, partitions@, later);
}

proof fn lemma_none_deliverable(m: SourceModel)
    requires
        m.wf(),
        first_deliverable(m) is None,
    ensures
        forall|k: int|
            0 <= k < m.ready.len() ==> !m.slots[#[trigger] m.ready[k] as int].deliverable(),
        with_delivery(m) == (SourceModel { ready: seq![], ..m }),
    decreases m.ready.len(),
{
    if m.ready.len() > 0 {
        let rest = SourceModel { ready: m.ready.skip(1), ..m };
        crate::provider::source::model::lemma_drop_entry(m);
        lemma_none_deliverable(rest);
        assert forall|k: int| 0 <= k < m.ready.len() implies !m.slots[#[trigger] m.ready[k]
            as int].deliverable() by {
            if k > 0 {
                assert(rest.ready[k - 1] == m.ready[k]);
            }
        }
    } else {
        assert(m.ready =~= seq![]);
    }
}

proof fn lemma_deliverable_found(m: SourceModel)
    requires
        m.wf(),
        m.complete(),
    ensures
        first_deliverable(m) is Some <==> exists|i: int|
            0 <= i < m.slots.len() && (#[trigger] m.slots[i]).deliverable(),
        first_deliverable(m) matches Some(i) ==> 0 <= i < m.slots.len()
            && m.slots[i].deliverable(),
{
    law_delivery_in_order(m);
    if let Some(i) = first_deliverable(m) {
        lemma_first_is_deliverable(m);
        assert(m.slots[i].deliverable());
    } else {
        lemma_none_deliverable(m);
        assert forall|i: int| 0 <= i < m.slots.len() implies !(
        #[trigger] m.slots[i]).deliverable() by {
            if m.slots[i].deliverable() {
                assert(m.ready.contains(i as usize));
                let at = choose|at: int| 0 <= at < m.ready.len() && m.ready[at] == i as usize;
                assert(!m.slots[m.ready[at] as int].deliverable());
            }
        }
    }
}

proof fn lemma_first_is_deliverable(m: SourceModel)
    requires
        first_deliverable(m) is Some,
    ensures
        m.slots[first_deliverable(m)->Some_0].deliverable(),
    decreases m.ready.len(),
{
    if !m.slots[m.ready[0] as int].deliverable() {
        lemma_first_is_deliverable(SourceModel { ready: m.ready.skip(1), ..m });
    }
}

/// Whether some partition holds a record that can be delivered.
pub open spec fn has_deliverable(m: SourceModel) -> bool {
    exists|i: int| 0 <= i < m.slots.len() && (#[trigger] m.slots[i]).deliverable()
}

/// Whether some partition is due for a poll.
pub open spec fn has_due(m: SourceModel, now: u64) -> bool {
    exists|i: int| 0 <= i < m.slots.len() && (#[trigger] m.slots[i]).due(now)
}

/// A receive does the first of these things that there is reason for: it reports a withdrawn
/// partition, delivers a record, refreshes the assignment, polls a partition that is due. It waits
/// only where there is reason for none.
pub proof fn law_receives_do_what_is_next(
    m: SourceModel,
    now: u64,
    step: ReceiveStep,
    after: SourceModel,
)
    requires
        m.wf(),
        m.complete(),
        receives(m, now, step, after),
    ensures
        step is OwnershipLost <==> m.withdrawn.len() > 0,
        step is Deliver <==> m.withdrawn.len() == 0 && has_deliverable(m),
        step is Refresh <==> m.withdrawn.len() == 0 && !has_deliverable(m) && now >= m.refresh_at,
        step is Poll <==> m.withdrawn.len() == 0 && !has_deliverable(m) && now < m.refresh_at
            && has_due(m, now),
        step is Wait <==> m.withdrawn.len() == 0 && !has_deliverable(m) && now < m.refresh_at
            && !has_due(m, now),
        step matches ReceiveStep::OwnershipLost(id) ==> id == m.withdrawn[0] && after.withdrawn
            == m.withdrawn.skip(1) && after.slots == m.slots,
        step matches ReceiveStep::Poll(index) ==> index < m.slots.len()
            && m.slots[index as int].due(now) && after.slots == m.slots && is_next_poll(
            m,
            now,
            index as int,
        ) && after.cursor == (index + 1) % (m.slots.len() as int),
        step is Refresh || step is Wait ==> after.slots == m.slots && after.cursor == m.cursor,
        !(step is OwnershipLost) ==> after.withdrawn == m.withdrawn,
        after.refresh_at == m.refresh_at,
        after.closed == m.closed,
        after.opened == m.opened,
{
    lemma_deliverable_found(m);
    law_delivery_in_order(m);
    if first_deliverable(m) is None {
        lemma_none_deliverable(m);
        if let ReceiveStep::Poll(index) = step {
            lemma_queue_does_not_matter(m, now, index as int);
            vstd::arithmetic::div_mod::lemma_mod_bound(index + 1, m.slots.len() as int);
        }
    } else {
        lemma_delivery_changes_one_slot(m);
    }
}

/// Which partition is polled next does not depend on what is queued for delivery.
proof fn lemma_queue_does_not_matter(m: SourceModel, now: u64, i: int)
    requires
        is_next_poll(SourceModel { ready: seq![], ..m }, now, i),
    ensures
        is_next_poll(m, now, i),
{
    let quiet = SourceModel { ready: seq![], ..m };
    let step = choose|step: int|
        #![trigger at_step(quiet, step)]
        {
            &&& 0 <= step < quiet.slots.len()
            &&& i == at_step(quiet, step)
            &&& quiet.slots[i].due(now)
            &&& forall|earlier: int|
                0 <= earlier < step ==> !(quiet.slots[#[trigger] at_step(quiet, earlier)]).due(now)
        };
    assert(i == at_step(m, step));
    assert forall|earlier: int| 0 <= earlier < step implies !(m.slots[#[trigger] at_step(
        m,
        earlier,
    )]).due(now) by {
        assert(!(quiet.slots[at_step(quiet, earlier)]).due(now));
    }
}

proof fn lemma_delivery_changes_one_slot(m: SourceModel)
    ensures
        with_delivery(m) == (SourceModel {
            slots: with_delivery(m).slots,
            ready: with_delivery(m).ready,
            ..m
        }),
    decreases m.ready.len(),
{
    if m.ready.len() > 0 && !m.slots[m.ready[0] as int].deliverable() {
        lemma_delivery_changes_one_slot(SourceModel { ready: m.ready.skip(1), ..m });
    }
}

/// A delivered record is the first buffered one of a partition that waits for nothing else, with
/// the message's identity and payload. Its settlement handle names the partition, the record's own
/// offset and the partition's epoch, the partition then waits for just this record, and everything
/// else stays.
pub proof fn law_delivered_records_come_from_the_buffer(
    m: SourceModel,
    now: u64,
    step: ReceiveStep,
    after: SourceModel,
)
    requires
        m.wf(),
        receives(m, now, step, after),
        step is Deliver,
    ensures
        exists|i: int|
            #![trigger m.slots[i]]
            {
                let slot = m.slots[i];
                let delivery = step->Deliver_0;
                &&& 0 <= i < m.slots.len()
                &&& slot.deliverable()
                &&& delivery.settlement.partition == slot.id
                &&& delivery.settlement.offset == slot.buffer[0].offset
                &&& delivery.settlement.epoch == slot.epoch
                &&& delivery.record@.id == slot.buffer[0].id
                &&& delivery.record@.payload == slot.buffer[0].payload
                &&& delivery.record@ == polled_record(slot.buffer[0])
                &&& after.slots.len() == m.slots.len()
                &&& after.slots[i].unresolved == Some(slot.buffer[0].offset)
                &&& after.slots[i].buffer == slot.buffer.skip(1)
                &&& after.slots[i].id == slot.id
                &&& after.slots[i].owned
                &&& after.slots[i].epoch == slot.epoch
                &&& after.slots[i].next == slot.next
                &&& after.slots[i].not_before == slot.not_before
                &&& forall|k: int|
                    0 <= k < m.slots.len() && k != i ==> #[trigger] after.slots[k] == m.slots[k]
            },
{
    law_delivery_in_order(m);
    lemma_first_is_deliverable(m);
    let i = first_deliverable(m)->Some_0;
    assert(m.slots[i].deliverable());
}

proof fn lemma_earliest(slots: Seq<SlotModel>, wake: u64)
    ensures
        earliest_poll(slots, wake) <= wake,
        forall|i: int|
            0 <= i < slots.len() && (#[trigger] slots[i]).idle() && slots[i].not_before is Some
                ==> earliest_poll(slots, wake) <= slots[i].not_before->Some_0,
        earliest_poll(slots, wake) == wake || exists|i: int|
            0 <= i < slots.len() && (#[trigger] slots[i]).idle() && slots[i].not_before == Some(
                earliest_poll(slots, wake),
            ),
    decreases slots.len(),
{
    if slots.len() > 0 {
        let rest = slots.drop_last();
        lemma_earliest(rest, wake);
        let before = earliest_poll(rest, wake);
        let found = earliest_poll(slots, wake);
        assert forall|i: int|
            0 <= i < slots.len() && (#[trigger] slots[i]).idle() && slots[i].not_before is Some
            implies found <= slots[i].not_before->Some_0 by {
            if i < rest.len() {
                assert(rest[i] == slots[i]);
            }
        }
        if found != wake {
            if found == before {
                let i = choose|i: int|
                    0 <= i < rest.len() && (#[trigger] rest[i]).idle() && rest[i].not_before
                        == Some(before);
                assert(slots[i] == rest[i]);
            } else {
                assert(slots[slots.len() - 1].idle());
            }
        }
    }
}

/// A receive that waits does so until the first time that anything is to be done: the next refresh,
/// the next poll of an idle partition, or one poll interval from now. That time is still to come.
pub proof fn law_waits_end_in_time(
    m: SourceModel,
    now: u64,
    step: ReceiveStep,
    after: SourceModel,
)
    requires
        m.wf(),
        now <= MAX_NOW,
        receives(m, now, step, after),
        step is Wait,
    ensures
        ({
            let wake = step->Wait_0;
            &&& now < wake
            &&& wake <= now + m.poll_interval
            &&& wake <= m.refresh_at
            &&& forall|i: int|
                0 <= i < m.slots.len() && (#[trigger] m.slots[i]).owned && m.slots[i].buffer.len()
                    == 0 && m.slots[i].unresolved is None ==> (m.slots[i].not_before matches Some(
                    at,
                ) && wake <= at)
            &&& {
                ||| wake == now + m.poll_interval
                ||| wake == m.refresh_at
                ||| exists|i: int|
                    0 <= i < m.slots.len() && (#[trigger] m.slots[i]).not_before == Some(wake)
            }
        }),
{
    lemma_none_deliverable(m);
    let first = earlier((now + m.poll_interval) as u64, m.refresh_at);
    lemma_earliest(m.slots, first);
    let wake = step->Wait_0;
    assert(wake == earliest_poll(m.slots, first));
    assert forall|i: int|
        0 <= i < m.slots.len() && (#[trigger] m.slots[i]).owned && m.slots[i].buffer.len() == 0
            && m.slots[i].unresolved is None implies m.slots[i].not_before matches Some(at) && wake
        <= at by {
        assert(!m.slots[i].due(now));
    }
    if wake <= now {
        let i = choose|i: int|
            0 <= i < m.slots.len() && (#[trigger] m.slots[i]).idle() && m.slots[i].not_before
                == Some(wake);
        assert(!m.slots[i].due(now));
    }
}

/// Polls go round: while another partition is polled, a partition that is due comes one or more
/// places closer to its own turn, so it is polled within one round.
pub proof fn law_polls_go_round(m: SourceModel, now: u64, polled: int, waiting: int, place: int)
    requires
        m.wf(),
        is_next_poll(m, now, polled),
        0 <= waiting < m.slots.len(),
        m.slots[waiting].due(now),
        0 <= place < m.slots.len(),
        at_step(m, place) == waiting,
        polled != waiting,
    ensures
        ({
            let after = SourceModel {
                cursor: ((polled + 1) % (m.slots.len() as int)) as usize,
                ..m
            };
            exists|closer: int| 0 <= closer < place && #[trigger] at_step(after, closer) == waiting
        }),
{
    let len = m.slots.len() as int;
    let step = choose|step: int|
        #![trigger at_step(m, step)]
        {
            &&& 0 <= step < m.slots.len()
            &&& polled == at_step(m, step)
            &&& m.slots[polled].due(now)
            &&& forall|earlier: int|
                0 <= earlier < step ==> !(m.slots[#[trigger] at_step(m, earlier)]).due(now)
        };
    if place < step {
        assert(!m.slots[at_step(m, place)].due(now));
    }
    let after = SourceModel { cursor: ((polled + 1) % len) as usize, ..m };
    let closer = place - step - 1;
    vstd::arithmetic::div_mod::lemma_mod_bound(polled + 1, len);
    vstd::arithmetic::div_mod::lemma_add_mod_noop(polled + 1, closer, len);
    vstd::arithmetic::div_mod::lemma_add_mod_noop(m.cursor + step, closer + 1, len);
    vstd::arithmetic::div_mod::lemma_mod_twice(polled + 1, len);
    vstd::arithmetic::div_mod::lemma_add_mod_noop((polled + 1) % len, closer, len);
    vstd::arithmetic::div_mod::lemma_add_mod_noop(polled, closer + 1, len);
    vstd::arithmetic::div_mod::lemma_mod_twice(m.cursor + step, len);
    assert(after.cursor == (polled + 1) % len);
    assert(at_step(after, closer) == ((polled + 1) % len + closer) % len);
    assert(((polled + 1) % len + closer) % len == (polled + 1 + closer) % len);
    assert((polled + (closer + 1)) % len == (m.cursor + step + (closer + 1)) % len);
    assert(at_step(after, closer) == waiting);
}

/// A partition that was released is polled again after the next completed refresh: as long as some
/// partition is not owned and not polled since, a receive that has nothing to report or to deliver
/// and no refresh to make polls, and never waits.
pub proof fn law_released_partitions_are_polled_again(
    m: SourceModel,
    partitions: Vec<u32>,
    refreshed: u64,
    now: u64,
    step: ReceiveStep,
    after: SourceModel,
    i: int,
)
    requires
        m.wf(),
        refreshed <= MAX_NOW,
        ({
            let at = with_refresh(m, RefreshReply::Topic(Some(partitions)), refreshed);
            &&& at.wf()
            &&& at.complete()
            &&& at.withdrawn.len() == 0
            &&& !has_deliverable(at)
            &&& 0 <= i < at.slots.len()
            &&& !at.slots[i].owned
            &&& now < refreshed + m.refresh_interval
            &&& receives(at, now, step, after)
        }),
    ensures
        step is Poll,
{
    let at = with_refresh(m, RefreshReply::Topic(Some(partitions)), refreshed);
    law_refresh_tries_every_partition_again(m, partitions, refreshed, now);
    assert(at.slots[i].due(now));
    law_receives_do_what_is_next(at, now, step, after);
}

} // verus!
