//! What holds of a delivery source over time.

use crate::provider::source::laws::{law_delivery_in_order, law_outcome_position};
use crate::provider::source::model::{
    answered, ascending_ids, batch, index_of, lemma_absorb_keeps, lemma_deliver, lemma_drop_entry,
    lemma_fence_keeps, lemma_index_of, lemma_outcome_keeps, lemma_partition_keeps,
    lemma_polled_keeps, lemma_probed_keeps, lemma_releases_keep, place, probed, with_delivery,
    with_known_partitions, with_outcome, with_partition, with_partitions, with_poll, with_releases,
    Outcome, PollReplyModel, SourceModel, MAX_NOW,
};
use crate::provider::source::slot::SlotModel;
use vstd::prelude::*;

verus! {

/// One thing that happens to a source.
pub enum SourceEvent {
    /// A settlement reports its outcome.
    Settled(Outcome),

    /// The next deliverable record is taken.
    Taken,

    /// The partition at an index is polled.
    Polled(int, PollReplyModel),

    /// The client's membership in the group is found lost.
    Expelled,

    /// The topic's partitions are reloaded.
    Reloaded(Seq<u32>),
}

/// The state after an event at a time.
pub open spec fn source_after(m: SourceModel, event: SourceEvent, now: u64) -> SourceModel {
    match event {
        SourceEvent::Settled(outcome) => with_outcome(m, outcome, now),
        SourceEvent::Taken => with_delivery(m),
        SourceEvent::Polled(index, reply) => with_poll(m, index, reply, now),
        SourceEvent::Expelled => with_releases(m, m.slots.len() as int),
        SourceEvent::Reloaded(ids) => with_partitions(m, ids),
    }
}

/// Whether an event can happen in a state: only known partitions are polled, and no more are made
/// known than a list can hold.
pub open spec fn is_possible(m: SourceModel, event: SourceEvent) -> bool {
    match event {
        SourceEvent::Polled(index, _) => 0 <= index < m.slots.len(),
        SourceEvent::Reloaded(ids) => with_partitions(m, ids).slots.len() <= usize::MAX,
        _ => true,
    }
}

/// The states that a source goes through: the first is well-formed, and each other one follows from
/// the one before by an event at a time.
pub open spec fn is_history(
    states: Seq<SourceModel>,
    events: Seq<SourceEvent>,
    times: Seq<u64>,
) -> bool {
    &&& states.len() == events.len() + 1
    &&& times.len() == events.len()
    &&& states[0].wf()
    &&& forall|k: int|
        0 <= k < events.len() ==> {
            &&& times[k] <= MAX_NOW
            &&& is_possible(states[k], #[trigger] events[k])
            &&& states[k + 1] == source_after(states[k], events[k], times[k])
        }
}

/// The position of a partition by its id, if the source holds it and knows where it stands.
pub open spec fn position_of(m: SourceModel, id: u32) -> Option<u64> {
    match index_of(m.slots, id) {
        Some(i) => m.slots[i].position(),
        None => None,
    }
}

/// An event that reports a record as advanced.
pub open spec fn advances(event: SourceEvent, id: u32, offset: u64) -> bool {
    event matches SourceEvent::Settled(outcome) && outcome.partition == id && outcome.offset
        == offset && outcome.advanced
}

spec fn stands_at(slots: Seq<SlotModel>, id: u32, position: Option<u64>) -> bool {
    exists|i: int|
        0 <= i < slots.len() && (#[trigger] slots[i]).id == id && slots[i].position() == position
}

proof fn lemma_place_bounds(slots: Seq<SlotModel>, id: u32)
    ensures
        0 <= place(slots, id) <= slots.len(),
    decreases slots.len(),
{
    if slots.len() > 0 {
        lemma_place_bounds(slots.drop_last(), id);
    }
}

proof fn lemma_known_stays(m: SourceModel, ids: Seq<u32>, id: u32, position: Option<u64>)
    requires
        stands_at(m.slots, id, position),
    ensures
        stands_at(with_known_partitions(m, ids).slots, id, position),
    decreases ids.len(),
{
    if ids.len() > 0 {
        let before = with_known_partitions(m, ids.drop_last());
        let after = with_partition(before, ids.last());
        lemma_known_stays(m, ids.drop_last(), id, position);
        if after.slots != before.slots {
            let at = place(before.slots, ids.last());
            lemma_place_bounds(before.slots, ids.last());
            let i = choose|i: int|
                0 <= i < before.slots.len() && (#[trigger] before.slots[i]).id == id
                    && before.slots[i].position() == position;
            let j = if i < at { i } else { i + 1 };
            assert(after.slots[j] == before.slots[i]);
        }
    }
}

proof fn lemma_reload_keeps_position(m: SourceModel, ids: Seq<u32>, id: u32)
    requires
        m.wf(),
        with_partitions(m, ids).wf(),
        position_of(m, id) is Some,
    ensures
        position_of(with_partitions(m, ids), id) == position_of(m, id),
{
    let position = position_of(m, id);
    lemma_index_of(m.slots, id);
    let i = index_of(m.slots, id)->Some_0;
    assert(m.slots[i].id == id);
    lemma_known_stays(m, ids, id, position);
    let known = with_known_partitions(m, ids);
    let after = with_partitions(m, ids);
    let j = choose|j: int|
        0 <= j < known.slots.len() && (#[trigger] known.slots[j]).id == id
            && known.slots[j].position() == position;
    assert(after.slots[j] == probed(known.slots[j]));
    lemma_index_of(after.slots, id);
}

proof fn lemma_release_positions(m: SourceModel, k: int, i: int)
    requires
        m.wf(),
        0 <= k <= m.slots.len(),
        0 <= i < m.slots.len(),
    ensures
        with_releases(m, k).slots.len() == m.slots.len(),
        with_releases(m, k).slots[i].id == m.slots[i].id,
        with_releases(m, k).slots[i].position() == m.slots[i].position() || with_releases(
            m,
            k,
        ).slots[i].position() is None,
    decreases k,
{
    if k > 0 {
        lemma_release_positions(m, k - 1, i);
        lemma_releases_keep(m, k - 1);
    }
}

proof fn lemma_place_splits(slots: Seq<SlotModel>, id: u32)
    requires
        ascending_ids(slots),
        forall|i: int| 0 <= i < slots.len() ==> (#[trigger] slots[i]).id != id,
    ensures
        0 <= place(slots, id) <= slots.len(),
        forall|k: int| 0 <= k < place(slots, id) ==> (#[trigger] slots[k]).id < id,
        forall|k: int| place(slots, id) <= k < slots.len() ==> id < (#[trigger] slots[k]).id,
    decreases slots.len(),
{
    if slots.len() > 0 {
        let before = slots.drop_last();
        let last = slots.len() - 1;
        assert(slots[last].id != id);
        assert forall|i: int, j: int| 0 <= i < j < before.len() implies (#[trigger] before[i]).id
            < (#[trigger] before[j]).id by {
            assert(before[i] == slots[i] && before[j] == slots[j]);
        }
        assert forall|i: int| 0 <= i < before.len() implies (#[trigger] before[i]).id != id by {
            assert(before[i] == slots[i]);
        }
        lemma_place_splits(before, id);
        assert forall|k: int| 0 <= k < place(slots, id) implies (#[trigger] slots[k]).id < id by {
            if k < last {
                assert(slots[k].id < slots[last].id);
                assert(before[k] == slots[k]);
            }
        }
        assert forall|k: int| place(slots, id) <= k < slots.len() implies id < (
        #[trigger] slots[k]).id by {
            if k < last {
                assert(before[k] == slots[k]);
            }
        }
    }
}

proof fn lemma_known_keeps(m: SourceModel, ids: Seq<u32>)
    requires
        m.wf(),
        with_known_partitions(m, ids).slots.len() <= usize::MAX,
    ensures
        with_known_partitions(m, ids).wf(),
    decreases ids.len(),
{
    if ids.len() > 0 {
        let before = with_known_partitions(m, ids.drop_last());
        lemma_place_bounds(before.slots, ids.last());
        lemma_known_keeps(m, ids.drop_last());
        lemma_index_of(before.slots, ids.last());
        if index_of(before.slots, ids.last()) is None {
            lemma_place_splits(before.slots, ids.last());
        }
        lemma_partition_keeps(before, ids.last(), place(before.slots, ids.last()));
    }
}

proof fn lemma_delivery_keeps(m: SourceModel)
    requires
        m.wf(),
    ensures
        with_delivery(m).wf(),
    decreases m.ready.len(),
{
    if m.ready.len() > 0 {
        if m.slots[m.ready[0] as int].deliverable() {
            lemma_deliver(m);
        } else {
            lemma_drop_entry(m);
            lemma_delivery_keeps(SourceModel { ready: m.ready.skip(1), ..m });
        }
    }
}

/// Every event keeps a source well-formed.
pub proof fn law_events_keep_the_source_well_formed(m: SourceModel, event: SourceEvent, now: u64)
    requires
        m.wf(),
        now <= MAX_NOW,
        is_possible(m, event),
    ensures
        source_after(m, event, now).wf(),
{
    match event {
        SourceEvent::Settled(outcome) => lemma_outcome_keeps(m, outcome, now),
        SourceEvent::Taken => lemma_delivery_keeps(m),
        SourceEvent::Polled(index, reply) => {
            lemma_fence_keeps(m, index, now);
            if let PollReplyModel::Polled { messages, .. } = reply {
                lemma_polled_keeps(m, index, messages, now);
            }
        },
        SourceEvent::Expelled => lemma_releases_keep(m, m.slots.len() as int),
        SourceEvent::Reloaded(ids) => {
            lemma_known_keeps(m, ids);
            lemma_probed_keeps(with_known_partitions(m, ids));
        },
    }
}

/// The position of a partition after an event: as it was, lost, or past the very record that the
/// event reports as advanced.
pub proof fn law_event_position(m: SourceModel, event: SourceEvent, now: u64, id: u32)
    requires
        m.wf(),
        now <= MAX_NOW,
        is_possible(m, event),
        position_of(m, id) is Some,
    ensures
        ({
            let before = position_of(m, id);
            let after = position_of(source_after(m, event, now), id);
            ||| after == before
            ||| after is None
            ||| advances(event, id, before->Some_0) && before->Some_0 < u64::MAX && after == Some(
                (before->Some_0 + 1) as u64,
            )
        }),
{
    let after = source_after(m, event, now);
    law_events_keep_the_source_well_formed(m, event, now);
    lemma_index_of(m.slots, id);
    lemma_index_of(after.slots, id);
    let i = index_of(m.slots, id)->Some_0;
    assert(m.slots[i].id == id);
    assert(m.slots[i].wf());

    match event {
        SourceEvent::Settled(outcome) => {
            law_outcome_position(m, outcome, now, i);
            lemma_index_of(m.slots, outcome.partition);
            assert(after.slots[i].id == id);
        },
        SourceEvent::Taken => {
            law_delivery_in_order(m);
            assert(after.slots[i].id == id);
        },
        SourceEvent::Polled(index, reply) => {
            crate::provider::source::laws::law_poll_position(m, index, reply, now, i);
            lemma_poll_keeps_ids(m, index, reply, now, i);
            assert(after.slots[i].id == id);
        },
        SourceEvent::Expelled => {
            lemma_release_positions(m, m.slots.len() as int, i);
            assert(after.slots[i].id == id);
        },
        SourceEvent::Reloaded(ids) => {
            lemma_reload_keeps_position(m, ids, id);
        },
    }
}

proof fn lemma_poll_keeps_ids(m: SourceModel, index: int, reply: PollReplyModel, now: u64, i: int)
    requires
        m.wf(),
        0 <= index < m.slots.len(),
        0 <= i < m.slots.len(),
    ensures
        with_poll(m, index, reply, now).slots.len() == m.slots.len(),
        with_poll(m, index, reply, now).slots[i].id == m.slots[i].id,
{
    assert(m.slots[index].wf());
    if let PollReplyModel::Polled { partition_id, messages } = reply {
        if partition_id == m.slots[index].id {
            let slot = answered(m.slots[index]);
            assert(slot.wf());
            lemma_absorb_keeps(slot, batch(m, messages));
        }
    }
}

/// No record is skipped: as long as a source knows where it stands in a partition, it moves only
/// forward, and only past records that a settlement reported as advanced while it did.
pub proof fn law_no_record_is_skipped(
    states: Seq<SourceModel>,
    events: Seq<SourceEvent>,
    times: Seq<u64>,
    id: u32,
    offset: u64,
)
    requires
        is_history(states, events, times),
        forall|k: int| 0 <= k < states.len() ==> position_of(#[trigger] states[k], id) is Some,
    ensures
        states.last().wf(),
        position_of(states[0], id)->Some_0 <= position_of(states.last(), id)->Some_0,
        position_of(states[0], id)->Some_0 <= offset < position_of(states.last(), id)->Some_0
            ==> exists|k: int|
            0 <= k < events.len() && advances(#[trigger] events[k], id, offset),
    decreases events.len(),
{
    if events.len() > 0 {
        let earlier = states.drop_last();
        let past = events.drop_last();
        let past_times = times.drop_last();
        assert(is_history(earlier, past, past_times)) by {
            assert(earlier[0] == states[0]);
            assert forall|k: int| 0 <= k < past.len() implies {
                &&& past_times[k] <= MAX_NOW
                &&& is_possible(earlier[k], #[trigger] past[k])
                &&& earlier[k + 1] == source_after(earlier[k], past[k], past_times[k])
            } by {
                assert(past[k] == events[k]);
                assert(earlier[k] == states[k] && earlier[k + 1] == states[k + 1]);
            }
        }
        assert forall|k: int| 0 <= k < earlier.len() implies position_of(
            #[trigger] earlier[k],
            id,
        ) is Some by {
            assert(earlier[k] == states[k]);
        }
        law_no_record_is_skipped(earlier, past, past_times, id, offset);

        let n = events.len() - 1;
        assert(is_possible(states[n], events[n]));
        assert(earlier.last() == states[n]);
        law_events_keep_the_source_well_formed(states[n], events[n], times[n]);
        assert(position_of(states[n], id) is Some && position_of(states[n + 1], id) is Some);
        law_event_position(states[n], events[n], times[n], id);
        assert(states.last() == states[n + 1]);

        if position_of(states[0], id)->Some_0 <= offset < position_of(states.last(), id)->Some_0 {
            if offset < position_of(states[n], id)->Some_0 {
                let k = choose|k: int|
                    0 <= k < past.len() && advances(#[trigger] past[k], id, offset);
                assert(events[k] == past[k]);
            } else {
                assert(advances(events[n], id, offset));
            }
        }
    }
}

} // verus!
