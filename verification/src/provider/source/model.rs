//! What a delivery source knows, as mathematical values, and how that changes.

use crate::failure::FailureKind;
use crate::provider::code::{CONSUMER_GROUP_MEMBER_NOT_FOUND, CONSUMER_GROUP_PARTITION_NOT_OWNED};
use crate::provider::error::{
    delivery_error, plain_error, IggyDeliveryError, IggyDeliveryErrorKind,
};
use crate::provider::sdk::MessageModel;
use crate::provider::source::settings::MAX_BATCH_LENGTH;
use crate::provider::source::slot::{gained, new_slot, released, Slot, SlotModel};
use vstd::prelude::*;

verus! {

/// Largest poll and refresh interval, one hour in nanoseconds.
pub const MAX_INTERVAL: u64 = 3_600_000_000_000;

/// Largest clock reading, in nanoseconds since the source's own origin: no deadline overflows.
pub const MAX_NOW: u64 = 18_446_740_473_709_551_615;

/// Numeric server ids resolved when the source opens, used to recognize its own membership.
#[derive(Clone, Copy, Debug, PartialEq, Eq, Structural)]
pub struct Resolved {
    /// The stream's id.
    pub stream: u32,

    /// The topic's id.
    pub topic: u32,

    /// The consumer group's id.
    pub group: u32,
}

/// A settlement's result, recorded when its `advance` finishes or it is dropped.
#[derive(Clone, Copy, Debug, PartialEq, Eq, Structural)]
pub struct Outcome {
    /// The record's partition.
    pub partition: u32,

    /// The record's offset.
    pub offset: u64,

    /// The partition's epoch when the record was delivered.
    pub epoch: u64,

    /// Whether the offset is known to be stored.
    pub advanced: bool,
}

/// An [`IggyDeliverySource`] as mathematical values.
#[verifier::ext_equal]
pub struct SourceModel {
    pub batch_length: u32,
    pub poll_interval: u64,
    pub refresh_interval: u64,
    pub opened: Option<Resolved>,
    pub slots: Seq<SlotModel>,
    pub withdrawn: Seq<u32>,
    pub ready: Seq<usize>,
    pub cursor: usize,
    pub refresh_at: u64,
    pub closed: bool,
}

/// Slots as mathematical values.
pub open spec fn slot_models(slots: Seq<Slot>) -> Seq<SlotModel> {
    slots.map_values(|slot: Slot| slot@)
}

/// Partitions in strictly ascending id order.
pub open spec fn ascending_ids(slots: Seq<SlotModel>) -> bool {
    forall|i: int, j: int|
        0 <= i < j < slots.len() ==> (#[trigger] slots[i]).id < (#[trigger] slots[j]).id
}

/// The index of the partition with the given id.
pub open spec fn index_of(slots: Seq<SlotModel>, id: u32) -> Option<int>
    decreases slots.len(),
{
    if slots.len() == 0 {
        None
    } else if slots.last().id == id {
        Some(slots.len() - 1)
    } else {
        index_of(slots.drop_last(), id)
    }
}

impl SourceModel {
    /// What every operation keeps: settings within their bounds, partitions in id order and each
    /// well-formed, and queued indexes that exist.
    pub open spec fn wf(self) -> bool {
        &&& 1 <= self.batch_length <= MAX_BATCH_LENGTH
        &&& 0 < self.poll_interval <= MAX_INTERVAL
        &&& 0 < self.refresh_interval <= MAX_INTERVAL
        &&& ascending_ids(self.slots)
        &&& forall|i: int| 0 <= i < self.slots.len() ==> (#[trigger] self.slots[i]).wf()
        &&& forall|i: int|
            0 <= i < self.ready.len() ==> (#[trigger] self.ready[i]) < self.slots.len()
        &&& self.cursor <= self.slots.len()
        &&& self.slots.len() <= usize::MAX
    }

    /// Every partition with a deliverable record is queued, so no buffered record is forgotten.
    pub open spec fn complete(self) -> bool {
        forall|i: int|
            0 <= i < self.slots.len() && (#[trigger] self.slots[i]).deliverable()
                ==> self.ready.contains(i as usize)
    }
}

/// A partition whose delivered record is resolved.
pub open spec fn advanced_slot(slot: SlotModel) -> SlotModel {
    SlotModel { unresolved: None, ..slot }
}

/// A partition whose delivered record is withdrawn: it will be replayed from its own offset, one
/// poll interval from now.
pub open spec fn withdrawn_slot(slot: SlotModel, offset: u64, not_before: u64) -> SlotModel {
    SlotModel {
        unresolved: None,
        epoch: slot.epoch.wrapping_add(1),
        buffer: seq![],
        next: Some(offset),
        not_before: Some(not_before),
        ..slot
    }
}

/// Whether an outcome is about the record that its partition is waiting for.
pub open spec fn is_current(slot: SlotModel, outcome: Outcome) -> bool {
    slot.epoch == outcome.epoch && slot.unresolved == Some(outcome.offset)
}

/// The state after one settlement outcome. Outcomes stamped with an older epoch, or for a record
/// that is no longer the partition's unresolved one, are ignored.
pub open spec fn with_outcome(m: SourceModel, outcome: Outcome, now: u64) -> SourceModel {
    match index_of(m.slots, outcome.partition) {
        None => m,
        Some(i) => {
            let slot = m.slots[i];

            if !is_current(slot, outcome) {
                m
            } else if outcome.advanced {
                SourceModel {
                    slots: m.slots.update(i, advanced_slot(slot)),
                    ready: if slot.buffer.len() > 0 {
                        m.ready.push(i as usize)
                    } else {
                        m.ready
                    },
                    ..m
                }
            } else {
                SourceModel {
                    slots: m.slots.update(
                        i,
                        withdrawn_slot(slot, outcome.offset, (now + m.poll_interval) as u64),
                    ),
                    withdrawn: m.withdrawn.push(slot.id),
                    ..m
                }
            }
        },
    }
}

/// The state after several settlement outcomes, in order.
pub open spec fn with_outcomes(m: SourceModel, outcomes: Seq<Outcome>, now: u64) -> SourceModel
    decreases outcomes.len(),
{
    if outcomes.len() == 0 {
        m
    } else {
        with_outcome(with_outcomes(m, outcomes.drop_last(), now), outcomes.last(), now)
    }
}

/// The index of a partition is where its id stands.
pub proof fn lemma_index_of(slots: Seq<SlotModel>, id: u32)
    requires
        ascending_ids(slots),
    ensures
        match index_of(slots, id) {
            Some(i) => 0 <= i < slots.len() && slots[i].id == id,
            None => forall|i: int| 0 <= i < slots.len() ==> (#[trigger] slots[i]).id != id,
        },
        forall|i: int|
            0 <= i < slots.len() && (#[trigger] slots[i]).id == id ==> index_of(slots, id) == Some(
                i,
            ),
    decreases slots.len(),
{
    if slots.len() > 0 {
        let rest = slots.drop_last();
        assert(ascending_ids(rest)) by {
            assert forall|i: int, j: int| 0 <= i < j < rest.len() implies (#[trigger] rest[i]).id
                < (#[trigger] rest[j]).id by {
                assert(slots[i].id < slots[j].id);
            }
        }
        lemma_index_of(rest, id);
        assert forall|i: int| 0 <= i < slots.len() && (#[trigger] slots[i]).id == id implies
            index_of(slots, id) == Some(i) by {
            if i < slots.len() - 1 {
                assert(rest[i] == slots[i]);
                assert(slots[i].id < slots[slots.len() - 1].id);
            }
        }
        if index_of(slots, id) is None {
            assert forall|i: int| 0 <= i < slots.len() implies (#[trigger] slots[i]).id != id by {
                if i < slots.len() - 1 {
                    assert(rest[i] == slots[i]);
                }
            }
        }
    }
}

/// A settlement outcome keeps the state well-formed and forgets no buffered record.
pub proof fn lemma_outcome_keeps(m: SourceModel, outcome: Outcome, now: u64)
    requires
        m.wf(),
        now <= MAX_NOW,
    ensures
        with_outcome(m, outcome, now).wf(),
        m.complete() ==> with_outcome(m, outcome, now).complete(),
{
    let after = with_outcome(m, outcome, now);
    lemma_index_of(m.slots, outcome.partition);
    if let Some(i) = index_of(m.slots, outcome.partition) {
        let slot = m.slots[i];
        if is_current(slot, outcome) {
            assert(slot.wf());
            assert(after.slots[i].wf());
            assert forall|k: int| 0 <= k < after.slots.len() implies (
            #[trigger] after.slots[k]).wf() by {
                if k != i {
                    assert(after.slots[k] == m.slots[k]);
                }
            }
            assert forall|x: int, y: int| 0 <= x < y < after.slots.len() implies (
            #[trigger] after.slots[x]).id < (#[trigger] after.slots[y]).id by {
                assert(m.slots[x].id < m.slots[y].id);
            }
            assert forall|k: int| 0 <= k < after.ready.len() implies (#[trigger] after.ready[k])
                < after.slots.len() by {
                if k < m.ready.len() {
                    assert(after.ready[k] == m.ready[k]);
                }
            }
            if m.complete() {
                assert forall|k: int|
                    0 <= k < after.slots.len() && (
                    #[trigger] after.slots[k]).deliverable() implies after.ready.contains(
                    k as usize,
                ) by {
                    if k == i {
                        assert(after.ready[m.ready.len() as int] == i as usize);
                    } else {
                        assert(m.slots[k].deliverable());
                        let at = choose|at: int|
                            0 <= at < m.ready.len() && m.ready[at] == k as usize;
                        assert(after.ready[at] == k as usize);
                    }
                }
            }
        }
    }
}

/// Stores one resolved record's offset as the consumer group's cursor for its partition.
///
/// Storing writes the record's own offset, which Iggy treats as the last consumed record, so the
/// group resumes after it. Anything but a confirmed store is indeterminate: the store may still
/// apply later. The source then withdraws the record and replays it.
#[derive(Clone, Copy, Debug, PartialEq, Eq, Structural)]
pub struct IggySettlement {
    /// The record's partition.
    pub partition: u32,

    /// The record's offset within its partition.
    pub offset: u64,

    /// The partition's epoch when the record was delivered.
    pub epoch: u64,
}

/// A partition from whose buffer the first record was delivered.
pub open spec fn delivered_slot(slot: SlotModel) -> SlotModel {
    SlotModel {
        buffer: slot.buffer.skip(1),
        unresolved: Some(slot.buffer[0].offset),
        ..slot
    }
}

/// The first queued partition with a deliverable record.
pub open spec fn first_deliverable(m: SourceModel) -> Option<int>
    decreases m.ready.len(),
{
    if m.ready.len() == 0 {
        None
    } else if m.slots[m.ready[0] as int].deliverable() {
        Some(m.ready[0] as int)
    } else {
        first_deliverable(SourceModel { ready: m.ready.skip(1), ..m })
    }
}

/// The state after the next deliverable record is taken: queue entries without one are dropped.
pub open spec fn with_delivery(m: SourceModel) -> SourceModel
    decreases m.ready.len(),
{
    if m.ready.len() == 0 {
        m
    } else {
        let i = m.ready[0] as int;
        let rest = SourceModel { ready: m.ready.skip(1), ..m };

        if m.slots[i].deliverable() {
            SourceModel { slots: m.slots.update(i, delivered_slot(m.slots[i])), ..rest }
        } else {
            with_delivery(rest)
        }
    }
}

/// Dropping a queue entry without a deliverable record keeps everything.
pub proof fn lemma_drop_entry(m: SourceModel)
    requires
        m.wf(),
        m.ready.len() > 0,
        !m.slots[m.ready[0] as int].deliverable(),
    ensures
        (SourceModel { ready: m.ready.skip(1), ..m }).wf(),
        m.complete() ==> (SourceModel { ready: m.ready.skip(1), ..m }).complete(),
{
    let rest = SourceModel { ready: m.ready.skip(1), ..m };
    assert forall|k: int| 0 <= k < rest.ready.len() implies (#[trigger] rest.ready[k])
        < rest.slots.len() by {
        assert(rest.ready[k] == m.ready[k + 1]);
    }
    if m.complete() {
        assert forall|k: int|
            0 <= k < rest.slots.len() && (
            #[trigger] rest.slots[k]).deliverable() implies rest.ready.contains(k as usize) by {
            assert(m.slots[k].deliverable());
            let at = choose|at: int| 0 <= at < m.ready.len() && m.ready[at] == k as usize;
            assert(at > 0);
            assert(rest.ready[at - 1] == k as usize);
        }
    }
}

/// Delivering the first buffered record of a partition keeps everything.
pub proof fn lemma_deliver(m: SourceModel)
    requires
        m.wf(),
        m.ready.len() > 0,
        m.slots[m.ready[0] as int].deliverable(),
    ensures
        with_delivery(m).wf(),
        m.complete() ==> with_delivery(m).complete(),
{
    let after = with_delivery(m);
    let i = m.ready[0] as int;
    let slot = m.slots[i];
    assert(slot.wf());
    assert(after.slots[i] == delivered_slot(slot));
    assert(delivered_slot(slot).wf()) by {
        let buffer = delivered_slot(slot).buffer;
        assert forall|k: int| 0 <= k < buffer.len() implies (#[trigger] buffer[k]).offset
            == slot.buffer[0].offset + 1 + k by {
            assert(buffer[k] == slot.buffer[k + 1]);
        }
    }
    assert forall|k: int| 0 <= k < after.slots.len() implies (#[trigger] after.slots[k]).wf() by {
        if k != i {
            assert(after.slots[k] == m.slots[k]);
        }
    }
    assert forall|x: int, y: int| 0 <= x < y < after.slots.len() implies (
    #[trigger] after.slots[x]).id < (#[trigger] after.slots[y]).id by {
        assert(m.slots[x].id < m.slots[y].id);
    }
    assert forall|k: int| 0 <= k < after.ready.len() implies (#[trigger] after.ready[k])
        < after.slots.len() by {
        assert(after.ready[k] == m.ready[k + 1]);
    }
    if m.complete() {
        assert forall|k: int|
            0 <= k < after.slots.len() && (
            #[trigger] after.slots[k]).deliverable() implies after.ready.contains(k as usize) by {
            assert(k != i);
            assert(m.slots[k].deliverable());
            let at = choose|at: int| 0 <= at < m.ready.len() && m.ready[at] == k as usize;
            assert(at > 0);
            assert(after.ready[at - 1] == k as usize);
        }
    }
}

/// Changing one partition and the queue keeps the state well-formed.
pub proof fn lemma_update_keeps(m: SourceModel, after: SourceModel, i: int)
    requires
        m.wf(),
        0 <= i < m.slots.len(),
        after.slots == m.slots.update(i, after.slots[i]),
        after.slots[i].wf(),
        after.slots[i].id == m.slots[i].id,
        after.batch_length == m.batch_length,
        after.poll_interval == m.poll_interval,
        after.refresh_interval == m.refresh_interval,
        after.cursor == m.cursor,
        forall|k: int| 0 <= k < after.ready.len() ==> (#[trigger] after.ready[k]) < m.slots.len(),
    ensures
        after.wf(),
{
    assert forall|k: int| 0 <= k < after.slots.len() implies (#[trigger] after.slots[k]).wf() by {
        if k != i {
            assert(after.slots[k] == m.slots[k]);
        }
    }
    assert forall|x: int, y: int| 0 <= x < y < after.slots.len() implies (
    #[trigger] after.slots[x]).id < (#[trigger] after.slots[y]).id by {
        assert(m.slots[x].id < m.slots[y].id);
    }
}

/// Why a source step stopped the current receive.
#[derive(Clone, Copy, Debug, PartialEq, Eq, Structural)]
pub enum Stop {
    /// The application shut the client down.
    Closed,

    /// The step failed.
    Failed(IggyDeliveryError),
}

/// What one poll asks for.
#[derive(Clone, Copy, Debug, PartialEq, Eq, Structural)]
pub enum PollFrom {
    /// After the group's stored offset.
    Stored,

    /// From the given offset on.
    Offset(u64),
}

/// The state after an owned partition is given up: its unresolved record, if any, is withdrawn.
pub open spec fn with_release(m: SourceModel, i: int) -> SourceModel {
    if m.slots[i].owned {
        SourceModel {
            slots: m.slots.update(i, released(m.slots[i])),
            withdrawn: if m.slots[i].unresolved is Some {
                m.withdrawn.push(m.slots[i].id)
            } else {
                m.withdrawn
            },
            ..m
        }
    } else {
        m
    }
}

/// The state after the first `k` partitions are given up.
pub open spec fn with_releases(m: SourceModel, k: int) -> SourceModel
    decreases k,
{
    if k <= 0 {
        m
    } else {
        with_release(with_releases(m, k - 1), k - 1)
    }
}

/// The state after a fenced poll: an owned partition is lost and triggers an immediate refresh.
pub open spec fn with_fence(m: SourceModel, i: int, now: u64) -> SourceModel {
    let lost = if m.slots[i].owned {
        SourceModel { refresh_at: now, ..with_release(m, i) }
    } else {
        m
    };

    SourceModel {
        slots: lost.slots.update(i, SlotModel { probe_due: false, ..lost.slots[i] }),
        ..lost
    }
}

/// What one polled message adds to its partition: a record before the next expected one is
/// skipped, since it was taken before, and a record past it is a gap. An offset without a
/// successor counts as a gap too.
pub open spec fn absorb_one(slot: SlotModel, message: MessageModel) -> Result<SlotModel, SlotModel> {
    if slot.next is Some && message.offset < slot.next->Some_0 {
        Ok(slot)
    } else if slot.next is Some && message.offset > slot.next->Some_0 {
        Err(slot)
    } else if message.offset == u64::MAX {
        Err(slot)
    } else {
        Ok(
            SlotModel {
                next: Some((message.offset + 1) as u64),
                buffer: slot.buffer.push(message),
                ..slot
            },
        )
    }
}

/// What polled messages add to their partition, up to the first gap. `Err` holds the partition as
/// it is when the gap is met.
pub open spec fn absorb(slot: SlotModel, polled: Seq<MessageModel>) -> Result<SlotModel, SlotModel>
    decreases polled.len(),
{
    if polled.len() == 0 {
        Ok(slot)
    } else {
        match absorb(slot, polled.drop_last()) {
            Ok(before) => absorb_one(before, polled.last()),
            Err(before) => Err(before),
        }
    }
}

/// A partition whose poll was answered, before the polled messages are looked at.
pub open spec fn answered(slot: SlotModel) -> SlotModel {
    SlotModel {
        probe_due: false,
        ..if slot.owned {
            slot
        } else {
            gained(slot)
        }
    }
}

/// The polled messages that are looked at: at most one batch.
pub open spec fn batch(m: SourceModel, polled: Seq<MessageModel>) -> Seq<MessageModel> {
    if polled.len() > m.batch_length {
        polled.take(m.batch_length as int)
    } else {
        polled
    }
}

/// A poll skipped past the partition's next expected offset.
pub open spec fn offset_gap() -> Stop {
    Stop::Failed(plain_error(IggyDeliveryErrorKind::OffsetGap, FailureKind::Permanent))
}

/// The state after a partition's poll was answered with messages: a partition that received
/// records is queued for delivery, and an idle one waits one poll interval.
pub open spec fn with_polled(
    m: SourceModel,
    i: int,
    polled: Seq<MessageModel>,
    now: u64,
) -> SourceModel {
    let slot = answered(m.slots[i]);

    match absorb(slot, batch(m, polled)) {
        Err(reached) => SourceModel { slots: m.slots.update(i, reached), ..m },
        Ok(reached) => if reached.buffer.len() > slot.buffer.len() {
            SourceModel {
                slots: m.slots.update(i, SlotModel { not_before: None, ..reached }),
                ready: if reached.unresolved is None {
                    m.ready.push(i as usize)
                } else {
                    m.ready
                },
                ..m
            }
        } else {
            SourceModel {
                slots: m.slots.update(
                    i,
                    SlotModel { not_before: Some((now + m.poll_interval) as u64), ..reached },
                ),
                ..m
            }
        },
    }
}

/// What came of one poll.
pub enum PollReplyModel {
    /// The server answered for a partition with messages.
    Polled { partition_id: u32, messages: Seq<MessageModel> },

    /// The SDK reported an error; the client may have been shut down.
    Failed { code: u32, shut_down: bool },

    /// The request timeout passed first.
    TimedOut,
}

/// The state after a poll of the partition at index `i`.
///
/// An explicit poll echoes the requested partition, including on an empty reply. Any other id is
/// the server's fence or an unknown partition; neither delivers records.
pub open spec fn with_poll(m: SourceModel, i: int, reply: PollReplyModel, now: u64) -> SourceModel {
    match reply {
        PollReplyModel::Polled { partition_id, messages } => if partition_id == m.slots[i].id {
            with_polled(m, i, messages, now)
        } else {
            with_fence(m, i, now)
        },
        PollReplyModel::Failed { code, shut_down } => if code
            == CONSUMER_GROUP_PARTITION_NOT_OWNED {
            with_fence(m, i, now)
        } else if code == CONSUMER_GROUP_MEMBER_NOT_FOUND {
            SourceModel { refresh_at: now, ..with_fence(m, i, now) }
        } else {
            m
        },
        PollReplyModel::TimedOut => m,
    }
}

/// The stop that an SDK error stands for: a deliberately shut-down client is a clean close, and
/// every other error is classified.
pub open spec fn stop_of(code: u32, shut_down: bool) -> Stop {
    if shut_down {
        Stop::Closed
    } else {
        Stop::Failed(delivery_error(code))
    }
}

/// A request that did not complete in time.
pub open spec fn timed_out() -> Stop {
    Stop::Failed(plain_error(IggyDeliveryErrorKind::Timeout, FailureKind::Transient))
}

/// Whether a poll stops the receive, and why.
pub open spec fn poll_stop(m: SourceModel, i: int, reply: PollReplyModel) -> Option<Stop> {
    match reply {
        PollReplyModel::Polled { partition_id, messages } => if partition_id == m.slots[i].id
            && absorb(answered(m.slots[i]), batch(m, messages)) is Err {
            Some(offset_gap())
        } else {
            None
        },
        PollReplyModel::Failed { code, shut_down } => if code == CONSUMER_GROUP_PARTITION_NOT_OWNED
            || code == CONSUMER_GROUP_MEMBER_NOT_FOUND {
            None
        } else {
            Some(stop_of(code, shut_down))
        },
        PollReplyModel::TimedOut => Some(timed_out()),
    }
}

/// Giving up a partition keeps everything.
pub proof fn lemma_release_keeps(m: SourceModel, i: int)
    requires
        m.wf(),
        0 <= i < m.slots.len(),
    ensures
        with_release(m, i).wf(),
        m.complete() ==> with_release(m, i).complete(),
        with_release(m, i).slots.len() == m.slots.len(),
{
    let after = with_release(m, i);
    if m.slots[i].owned {
        lemma_update_keeps(m, after, i);
        if m.complete() {
            assert forall|k: int|
                0 <= k < after.slots.len() && (
                #[trigger] after.slots[k]).deliverable() implies after.ready.contains(k as usize) by {
                assert(m.slots[k].deliverable());
            }
        }
    }
}

/// A fence keeps everything.
pub proof fn lemma_fence_keeps(m: SourceModel, i: int, now: u64)
    requires
        m.wf(),
        0 <= i < m.slots.len(),
    ensures
        with_fence(m, i, now).wf(),
        m.complete() ==> with_fence(m, i, now).complete(),
{
    lemma_release_keeps(m, i);
    let lost = if m.slots[i].owned {
        SourceModel { refresh_at: now, ..with_release(m, i) }
    } else {
        m
    };
    let after = with_fence(m, i, now);
    assert(lost.wf());
    lemma_update_keeps(lost, after, i);
    if m.complete() {
        assert forall|k: int|
            0 <= k < after.slots.len() && (
            #[trigger] after.slots[k]).deliverable() implies after.ready.contains(k as usize) by {
            assert(lost.slots[k].deliverable());
            assert(m.slots[k].deliverable());
        }
    }
}

/// Absorbing messages keeps an owned partition well-formed: what it holds stays consecutive.
pub proof fn lemma_absorb_keeps(slot: SlotModel, polled: Seq<MessageModel>)
    requires
        slot.wf(),
        slot.owned,
    ensures
        ({
            let reached = match absorb(slot, polled) {
                Ok(reached) => reached,
                Err(reached) => reached,
            };
            &&& reached.wf()
            &&& reached.owned
            &&& reached.id == slot.id
            &&& reached.epoch == slot.epoch
            &&& reached.unresolved == slot.unresolved
            &&& reached.not_before == slot.not_before
            &&& reached.probe_due == slot.probe_due
            &&& slot.buffer.len() <= reached.buffer.len() <= slot.buffer.len() + polled.len()
            &&& reached.buffer.take(slot.buffer.len() as int) == slot.buffer
            &&& slot.position() is Some ==> reached.position() == slot.position()
            &&& reached.buffer.len() == slot.buffer.len() ==> reached == slot
        }),
    decreases polled.len(),
{
    if polled.len() == 0 {
        assert(slot.buffer.take(slot.buffer.len() as int) =~= slot.buffer);
    } else {
        lemma_absorb_keeps(slot, polled.drop_last());
        if let Ok(before) = absorb(slot, polled.drop_last()) {
            let message = polled.last();
            if let Ok(reached) = absorb_one(before, message) {
                if reached != before {
                    assert forall|k: int| 0 <= k < before.buffer.len() implies (
                    #[trigger] reached.buffer[k]) == before.buffer[k] by {}
                    assert(reached.buffer.take(slot.buffer.len() as int)
                        =~= before.buffer.take(slot.buffer.len() as int));
                    assert(reached.wf());
                }
            }
        }
    }
}

/// An answered poll keeps the state well-formed, and forgets no buffered record unless it stops
/// on a gap.
pub proof fn lemma_polled_keeps(m: SourceModel, i: int, polled: Seq<MessageModel>, now: u64)
    requires
        m.wf(),
        0 <= i < m.slots.len(),
        now <= MAX_NOW,
    ensures
        with_polled(m, i, polled, now).wf(),
        m.complete() && absorb(answered(m.slots[i]), batch(m, polled)) is Ok ==> with_polled(
            m,
            i,
            polled,
            now,
        ).complete(),
{
    let slot = answered(m.slots[i]);
    let after = with_polled(m, i, polled, now);
    assert(m.slots[i].wf());
    assert(slot.wf());
    lemma_absorb_keeps(slot, batch(m, polled));
    assert forall|k: int| 0 <= k < after.ready.len() implies (#[trigger] after.ready[k])
        < m.slots.len() by {
        if k < m.ready.len() {
            assert(after.ready[k] == m.ready[k]);
        }
    }
    lemma_update_keeps(m, after, i);
    if m.complete() && absorb(slot, batch(m, polled)) is Ok {
        assert forall|k: int|
            0 <= k < after.slots.len() && (
            #[trigger] after.slots[k]).deliverable() implies after.ready.contains(k as usize) by {
            if k == i {
                if after.slots[i].buffer.len() > slot.buffer.len() {
                    assert(after.ready[m.ready.len() as int] == i as usize);
                } else {
                    assert(m.slots[i].deliverable());
                    let at = choose|at: int| 0 <= at < m.ready.len() && m.ready[at] == i as usize;
                    assert(after.ready[at] == i as usize);
                }
            } else {
                assert(m.slots[k].deliverable());
                let at = choose|at: int| 0 <= at < m.ready.len() && m.ready[at] == k as usize;
                assert(after.ready[at] == k as usize);
            }
        }
    }
}

/// Where a partition belongs in id order.
pub open spec fn place(slots: Seq<SlotModel>, id: u32) -> int
    decreases slots.len(),
{
    if slots.len() == 0 || slots.last().id < id {
        slots.len() as int
    } else {
        place(slots.drop_last(), id)
    }
}

/// The partitions with a deliverable record, in index order.
pub open spec fn deliverable_indexes(slots: Seq<SlotModel>) -> Seq<usize>
    decreases slots.len(),
{
    if slots.len() == 0 {
        seq![]
    } else if slots.last().deliverable() {
        deliverable_indexes(slots.drop_last()).push((slots.len() - 1) as usize)
    } else {
        deliverable_indexes(slots.drop_last())
    }
}

/// The state after a partition is made known: a new one is put in its place, and the queue, whose
/// indexes shift, is built anew.
pub open spec fn with_partition(m: SourceModel, id: u32) -> SourceModel {
    if index_of(m.slots, id) is Some {
        m
    } else {
        let slots = m.slots.insert(place(m.slots, id), new_slot(id));
        SourceModel { slots, ready: deliverable_indexes(slots), ..m }
    }
}

/// The state after several partitions are made known, in order.
pub open spec fn with_known_partitions(m: SourceModel, ids: Seq<u32>) -> SourceModel
    decreases ids.len(),
{
    if ids.len() == 0 {
        m
    } else {
        with_partition(with_known_partitions(m, ids.drop_last()), ids.last())
    }
}

/// A partition that is probed next unless it is owned.
pub open spec fn probed(slot: SlotModel) -> SlotModel {
    if slot.owned {
        slot
    } else {
        SlotModel { probe_due: true, ..slot }
    }
}

/// The state after the topic's partitions are reloaded: new ones are added, and every partition
/// that is not owned is scheduled for a probe.
pub open spec fn with_partitions(m: SourceModel, ids: Seq<u32>) -> SourceModel {
    let known = with_known_partitions(m, ids);

    SourceModel { slots: known.slots.map_values(|slot: SlotModel| probed(slot)), ..known }
}

/// Where a partition belongs: behind all smaller ids and before all larger ones.
pub proof fn lemma_place(slots: Seq<SlotModel>, id: u32, at: int)
    requires
        0 <= at <= slots.len(),
        forall|k: int| 0 <= k < at ==> (#[trigger] slots[k]).id < id,
        forall|k: int| at <= k < slots.len() ==> id < (#[trigger] slots[k]).id,
    ensures
        place(slots, id) == at,
    decreases slots.len(),
{
    if at < slots.len() {
        let rest = slots.drop_last();
        assert(id < slots[slots.len() - 1].id);
        assert forall|k: int| 0 <= k < at implies (#[trigger] rest[k]).id < id by {
            assert(rest[k] == slots[k]);
        }
        assert forall|k: int| at <= k < rest.len() implies id < (#[trigger] rest[k]).id by {
            assert(rest[k] == slots[k]);
        }
        lemma_place(rest, id, at);
    } else if slots.len() > 0 {
        assert(slots[slots.len() - 1].id < id);
    }
}

/// The rebuilt queue holds exactly the partitions with a deliverable record.
pub proof fn lemma_deliverable_indexes(slots: Seq<SlotModel>)
    requires
        slots.len() <= usize::MAX,
    ensures
        forall|k: int|
            0 <= k < deliverable_indexes(slots).len() ==> (#[trigger] deliverable_indexes(slots)[k])
                < slots.len() && slots[deliverable_indexes(slots)[k] as int].deliverable(),
        forall|i: int|
            0 <= i < slots.len() && (#[trigger] slots[i]).deliverable() ==> deliverable_indexes(
                slots,
            ).contains(i as usize),
    decreases slots.len(),
{
    if slots.len() > 0 {
        let rest = slots.drop_last();
        let before = deliverable_indexes(rest);
        let after = deliverable_indexes(slots);
        lemma_deliverable_indexes(rest);
        assert forall|k: int| 0 <= k < after.len() implies (#[trigger] after[k]) < slots.len()
            && slots[after[k] as int].deliverable() by {
            if k < before.len() {
                assert(after[k] == before[k]);
                assert(rest[before[k] as int] == slots[before[k] as int]);
            }
        }
        assert forall|i: int| 0 <= i < slots.len() && (
        #[trigger] slots[i]).deliverable() implies after.contains(i as usize) by {
            if i < slots.len() - 1 {
                assert(rest[i] == slots[i]);
                let at = choose|at: int| 0 <= at < before.len() && before[at] == i as usize;
                assert(after[at] == i as usize);
            } else {
                assert(after[after.len() - 1] == i as usize);
            }
        }
    }
}

/// Making a partition known keeps everything.
pub proof fn lemma_partition_keeps(m: SourceModel, id: u32, at: int)
    requires
        m.wf(),
        index_of(m.slots, id) is None ==> {
            &&& 0 <= at <= m.slots.len() < usize::MAX
            &&& forall|k: int| 0 <= k < at ==> (#[trigger] m.slots[k]).id < id
            &&& forall|k: int| at <= k < m.slots.len() ==> id < (#[trigger] m.slots[k]).id
        },
    ensures
        index_of(m.slots, id) is None ==> place(m.slots, id) == at,
        with_partition(m, id).wf(),
        m.complete() ==> with_partition(m, id).complete(),
{
    if index_of(m.slots, id) is None {
        lemma_place(m.slots, id, at);
        let after = with_partition(m, id);
        assert forall|k: int| 0 <= k < after.slots.len() implies (
        #[trigger] after.slots[k]).wf() by {
            if k < at {
                assert(after.slots[k] == m.slots[k]);
            } else if k > at {
                assert(after.slots[k] == m.slots[k - 1]);
            }
        }
        assert forall|x: int, y: int| 0 <= x < y < after.slots.len() implies (
        #[trigger] after.slots[x]).id < (#[trigger] after.slots[y]).id by {
            let left = if x < at { x } else { x - 1 };
            let right = if y < at { y } else { y - 1 };
            if x != at && y != at {
                assert(m.slots[left].id < m.slots[right].id);
            } else if x == at {
                assert(id < m.slots[right].id);
            } else {
                assert(m.slots[left].id < id);
            }
        }
        lemma_deliverable_indexes(after.slots);
    }
}

/// Scheduling probes keeps everything.
pub proof fn lemma_probed_keeps(m: SourceModel)
    requires
        m.wf(),
    ensures
        (SourceModel { slots: m.slots.map_values(|slot: SlotModel| probed(slot)), ..m }).wf(),
        m.complete() ==> (SourceModel {
            slots: m.slots.map_values(|slot: SlotModel| probed(slot)),
            ..m
        }).complete(),
{
    let after = SourceModel { slots: m.slots.map_values(|slot: SlotModel| probed(slot)), ..m };
    assert forall|k: int| 0 <= k < after.slots.len() implies (#[trigger] after.slots[k]).wf() by {
        assert(m.slots[k].wf());
    }
    assert forall|x: int, y: int| 0 <= x < y < after.slots.len() implies (
    #[trigger] after.slots[x]).id < (#[trigger] after.slots[y]).id by {
        assert(m.slots[x].id < m.slots[y].id);
    }
    if m.complete() {
        assert forall|k: int|
            0 <= k < after.slots.len() && (
            #[trigger] after.slots[k]).deliverable() implies after.ready.contains(k as usize) by {
            assert(m.slots[k].deliverable());
        }
    }
}

/// The earlier of two times.
pub open spec fn earlier(left: u64, right: u64) -> u64 {
    if left <= right {
        left
    } else {
        right
    }
}

/// The earliest time at which one of the idle owned partitions is polled again, or `wake` if that
/// is earlier.
pub open spec fn earliest_poll(slots: Seq<SlotModel>, wake: u64) -> u64
    decreases slots.len(),
{
    if slots.len() == 0 {
        wake
    } else {
        let before = earliest_poll(slots.drop_last(), wake);

        if slots.last().idle() && slots.last().not_before is Some {
            earlier(before, slots.last().not_before->Some_0)
        } else {
            before
        }
    }
}

/// The next time the source has work without a settlement outcome, at most one poll interval
/// away.
pub open spec fn wake_time(m: SourceModel, now: u64) -> u64 {
    earliest_poll(m.slots, earlier((now + m.poll_interval) as u64, m.refresh_at))
}

/// The partition to poll is the first one due, in round-robin order from the cursor.
pub open spec fn is_next_poll(m: SourceModel, now: u64, i: int) -> bool {
    exists|step: int|
        #![trigger at_step(m, step)]
        {
            &&& 0 <= step < m.slots.len()
            &&& i == at_step(m, step)
            &&& m.slots[i].due(now)
            &&& forall|earlier: int|
                0 <= earlier < step ==> !(m.slots[#[trigger] at_step(m, earlier)]).due(now)
        }
}

/// The partition that is `step` places behind the cursor, in round-robin order.
pub open spec fn at_step(m: SourceModel, step: int) -> int {
    (m.cursor + step) % (m.slots.len() as int)
}

/// No partition is due for a poll.
pub open spec fn nothing_due(m: SourceModel, now: u64) -> bool {
    forall|i: int| 0 <= i < m.slots.len() ==> !(#[trigger] m.slots[i]).due(now)
}

/// A consumer group that the client is a member of.
#[derive(Clone, Copy, Debug, PartialEq, Eq, Structural)]
pub struct Membership {
    /// The stream's id.
    pub stream: u32,

    /// The topic's id.
    pub topic: u32,

    /// The consumer group's id.
    pub group: u32,
}

/// Whether the source's own group is among the client's memberships.
pub open spec fn is_member(resolved: Resolved, groups: Seq<Membership>) -> bool {
    exists|i: int|
        0 <= i < groups.len() && (#[trigger] groups[i]).stream == resolved.stream
            && groups[i].topic == resolved.topic && groups[i].group == resolved.group
}

/// Giving up the first `k` partitions keeps everything.
pub proof fn lemma_releases_keep(m: SourceModel, k: int)
    requires
        m.wf(),
        0 <= k <= m.slots.len(),
    ensures
        with_releases(m, k).wf(),
        with_releases(m, k).slots.len() == m.slots.len(),
        m.complete() ==> with_releases(m, k).complete(),
    decreases k,
{
    if k > 0 {
        lemma_releases_keep(m, k - 1);
        lemma_release_keeps(with_releases(m, k - 1), k - 1);
    }
}

} // verus!
