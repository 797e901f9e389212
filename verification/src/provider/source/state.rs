//! What a delivery source knows, and what it does next.

use crate::delivery::PartitionAdvance;
use crate::duration::span_nanos;
use crate::failure::FailureKind;
use crate::provider::code::{CONSUMER_GROUP_MEMBER_NOT_FOUND, CONSUMER_GROUP_PARTITION_NOT_OWNED};
use crate::provider::error::{
    delivery_error, plain_error, IggyDeliveryError, IggyDeliveryErrorKind,
};
use crate::provider::mapper::record::IggyRecord;
use crate::provider::sdk::{MessageModel, PolledMessage};
use crate::provider::source::model::{
    absorb, absorb_one, advanced_slot, answered, ascending_ids, at_step, batch, deliverable_indexes,
    delivered_slot, earlier, earliest_poll, first_deliverable, index_of, is_member, is_next_poll,
    lemma_deliver, lemma_drop_entry, lemma_fence_keeps, lemma_index_of, lemma_outcome_keeps,
    lemma_partition_keeps, lemma_polled_keeps, lemma_probed_keeps, lemma_release_keeps, nothing_due,
    offset_gap, poll_stop, probed, slot_models, stop_of, wake_time, with_delivery, with_fence,
    with_known_partitions, with_outcome, with_outcomes, with_partition, with_partitions, with_poll,
    with_polled, with_release, with_releases, withdrawn_slot, IggySettlement, Membership, Outcome,
    PollFrom, PollReplyModel, Resolved, SourceModel, Stop, MAX_NOW,
};
use crate::provider::source::settings::IggySourceSettings;
use crate::provider::source::slot::{messages, new_slot, released, Slot, SlotModel};
use crate::provider::source::wire::{polled_record, record};
use std::collections::VecDeque;
use vstd::prelude::*;

verus! {

/// The state of a replay-only partitioned-log delivery source for one consumer group.
///
/// Partition ownership is observed from the server's own fence: a partition is owned while its
/// explicit polls are answered and lost when a poll is fenced. Every assignment refresh rechecks
/// membership, reloads the topic's partitions, and probes each partition the source does not
/// own; a fence on an owned partition triggers a refresh at once.
pub struct IggyDeliverySource {
    batch_length: u32,

    poll_interval: u64,

    refresh_interval: u64,

    opened: Option<Resolved>,

    /// Known partitions in ascending id order.
    slots: Vec<Slot>,

    /// Partitions whose unresolved record was withdrawn, in the order they are reported.
    withdrawn: VecDeque<u32>,

    /// Slot indexes that may hold a deliverable record; each is revalidated when taken.
    ready: VecDeque<usize>,

    /// Round-robin position for choosing the next partition to poll.
    cursor: usize,

    refresh_at: u64,

    closed: bool,
}

impl View for IggyDeliverySource {
    type V = SourceModel;

    closed spec fn view(&self) -> SourceModel {
        SourceModel {
            batch_length: self.batch_length,
            poll_interval: self.poll_interval,
            refresh_interval: self.refresh_interval,
            opened: self.opened,
            slots: slot_models(self.slots@),
            withdrawn: self.withdrawn@,
            ready: self.ready@,
            cursor: self.cursor,
            refresh_at: self.refresh_at,
            closed: self.closed,
        }
    }
}

impl IggyDeliverySource {
    /// Finds a partition by its id: its index, or the index where it belongs.
    fn search(&self, id: u32) -> (found: Result<usize, usize>)
        requires
            self@.wf(),
        ensures
            match found {
                Ok(i) => i < self@.slots.len() && self@.slots[i as int].id == id && index_of(
                    self@.slots,
                    id,
                ) == Some(i as int),
                Err(i) => {
                    &&& i <= self@.slots.len()
                    &&& index_of(self@.slots, id) is None
                    &&& forall|k: int| 0 <= k < i ==> (#[trigger] self@.slots[k]).id < id
                    &&& forall|k: int|
                        i <= k < self@.slots.len() ==> id < (#[trigger] self@.slots[k]).id
                },
            },
    {
        let ghost slots = self@.slots;
        proof {
            lemma_index_of(slots, id);
        }
        let mut low: usize = 0;
        let mut high: usize = self.slots.len();

        while low < high
            invariant
                slots == self@.slots,
                ascending_ids(slots),
                low <= high <= slots.len(),
                forall|i: int|
                    0 <= i < slots.len() && (#[trigger] slots[i]).id == id ==> index_of(slots, id)
                        == Some(i),
                forall|k: int| 0 <= k < low ==> (#[trigger] slots[k]).id < id,
                forall|k: int| high <= k < slots.len() ==> id < (#[trigger] slots[k]).id,
            decreases high - low,
        {
            let middle: usize = low + (high - low) / 2;
            let at: u32 = self.slots[middle].id;
            assert(slots[middle as int].id == at);

            if at == id {
                return Ok(middle);
            } else if at < id {
                assert forall|k: int| 0 <= k < middle + 1 implies (#[trigger] slots[k]).id < id by {
                    if k < middle {
                        assert(slots[k].id < slots[middle as int].id);
                    }
                }
                low = middle + 1;
            } else {
                assert forall|k: int| middle <= k < slots.len() implies id < (
                #[trigger] slots[k]).id by {
                    if k > middle {
                        assert(slots[middle as int].id < slots[k].id);
                    }
                }
                high = middle;
            }
        }

        Err(low)
    }

    /// Takes one settlement outcome into the state.
    fn apply_outcome(&mut self, outcome: Outcome, now: u64)
        requires
            old(self)@.wf(),
            now <= MAX_NOW,
        ensures
            final(self)@ == with_outcome(old(self)@, outcome, now),
            final(self)@.wf(),
            old(self)@.complete() ==> final(self)@.complete(),
    {
        let ghost before = self@;
        let index = match self.search(outcome.partition) {
            Ok(index) => index,
            Err(_) => {
                return ;
            },
        };
        let ghost i = index as int;
        let ghost slot_before = before.slots[i];
        assert(slot_before == self.slots@[i]@);

        if self.slots[index].epoch != outcome.epoch {
            return ;
        }

        let waiting = match self.slots[index].unresolved {
            Some(offset) => offset == outcome.offset,
            None => false,
        };

        if !waiting {
            return ;
        }

        if outcome.advanced {
            let slot = &mut self.slots[index];
            slot.unresolved = None;
            let more = slot.buffer.len() > 0;

            if more {
                self.ready.push_back(index);
            }
            proof {
                assert(self@.slots =~= before.slots.update(i, advanced_slot(slot_before)));
                assert(self@ =~= with_outcome(before, outcome, now));
            }
        } else {
            // Replay-only withdrawal: the store may still apply later, which can only cause
            // replay. The record is replayed from its own offset after one poll interval.
            let not_before: u64 = now + self.poll_interval;
            let slot = &mut self.slots[index];
            slot.unresolved = None;
            slot.epoch = slot.epoch.wrapping_add(1);
            slot.buffer.clear();
            slot.next = Some(outcome.offset);
            slot.not_before = Some(not_before);
            let id: u32 = slot.id;
            self.withdrawn.push_back(id);
            proof {
                assert(self.slots@[i]@.buffer =~= seq![]);
                assert(self@.slots =~= before.slots.update(
                    i,
                    withdrawn_slot(slot_before, outcome.offset, not_before),
                ));
                assert(self@ =~= with_outcome(before, outcome, now));
            }
        }
        proof {
            lemma_outcome_keeps(before, outcome, now);
        }
    }
}

/// One Iggy record with its partition-offset settlement handle.
pub struct IggyDelivery {
    /// The record.
    pub record: IggyRecord,

    /// Its settlement handle.
    pub settlement: IggySettlement,
}

impl IggyDeliverySource {
    /// Moves recorded settlement outcomes into partition state.
    pub fn apply_outcomes(&mut self, outcomes: &Vec<Outcome>, now: u64)
        requires
            old(self)@.wf(),
            now <= MAX_NOW,
        ensures
            final(self)@ == with_outcomes(old(self)@, outcomes@, now),
            final(self)@.wf(),
            old(self)@.complete() ==> final(self)@.complete(),
    {
        let mut i: usize = 0;
        assert(outcomes@.take(0) =~= seq![]);

        while i < outcomes.len()
            invariant
                i <= outcomes@.len(),
                now <= MAX_NOW,
                self@.wf(),
                old(self)@.complete() ==> self@.complete(),
                self@ == with_outcomes(old(self)@, outcomes@.take(i as int), now),
            decreases outcomes@.len() - i,
        {
            assert(outcomes@.take(i + 1).drop_last() =~= outcomes@.take(i as int));
            self.apply_outcome(outcomes[i], now);
            i = i + 1;
        }

        assert(outcomes@.take(i as int) =~= outcomes@);
    }

    /// Takes the next record to deliver, if a partition has one. Its partition then waits for the
    /// record's settlement.
    pub fn take_ready(&mut self) -> (delivery: Option<IggyDelivery>)
        requires
            old(self)@.wf(),
        ensures
            final(self)@ == with_delivery(old(self)@),
            final(self)@.wf(),
            old(self)@.complete() ==> final(self)@.complete(),
            match delivery {
                Some(delivery) => {
                    let i = first_deliverable(old(self)@);
                    let slot = old(self)@.slots[i->Some_0];
                    &&& i is Some
                    &&& delivery.settlement == (IggySettlement {
                        partition: slot.id,
                        offset: slot.buffer[0].offset,
                        epoch: slot.epoch,
                    })
                    &&& delivery.record@ == polled_record(slot.buffer[0])
                },
                None => first_deliverable(old(self)@) is None,
            },
    {
        let ghost start = self@;

        while self.ready.len() > 0
            invariant
                self@.wf(),
                start.complete() ==> self@.complete(),
                start == old(self)@,
                with_delivery(self@) == with_delivery(start),
                first_deliverable(self@) == first_deliverable(start),
                self@.slots == start.slots,
            decreases self@.ready.len(),
        {
            let ghost before = self@;
            let index: usize = match self.ready.pop_front() {
                Some(index) => index,
                None => {
                    return None;
                },
            };
            let ghost i = index as int;
            let ghost slot_before = before.slots[i];
            assert(before.ready[0] == index);
            assert(slot_before == self.slots@[i]@);
            assert(self@ =~= SourceModel { ready: before.ready.skip(1), ..before });

            if self.slots[index].is_deliverable() {
                let slot = &mut self.slots[index];
                let message = slot.buffer.pop_front();

                if let Some(message) = message {
                    let offset: u64 = message.offset;
                    slot.unresolved = Some(offset);
                    let settlement = IggySettlement { partition: slot.id, offset, epoch: slot.epoch };
                    proof {
                        assert(self.slots@[i]@.buffer =~= slot_before.buffer.skip(1));
                        assert(self@.slots =~= before.slots.update(i, delivered_slot(slot_before)));
                        assert(self@ =~= with_delivery(before));
                        lemma_deliver(before);
                    }
                    return Some(IggyDelivery { record: record(message), settlement });
                }
            } else {
                proof {
                    lemma_drop_entry(before);
                }
            }
        }

        None
    }
}

/// What one poll asks the server for.
#[derive(Clone, Copy, Debug, PartialEq, Eq, Structural)]
pub struct PollRequest {
    /// The partition to poll.
    pub partition: u32,

    /// Where the poll starts.
    pub from: PollFrom,

    /// The most records to return.
    pub count: u32,

    /// Whether the poll moves the group's cursor.
    pub auto_commit: bool,
}

/// What came of one poll.
pub enum PollReply {
    /// The server answered for a partition with messages.
    Polled {
        /// The partition that the server names.
        partition_id: u32,

        /// The polled messages.
        messages: VecDeque<PolledMessage>,
    },

    /// The SDK reported an error.
    Failed {
        /// The error's code.
        code: u32,

        /// Whether the application shut the client down.
        shut_down: bool,
    },

    /// The request timeout passed first.
    TimedOut,
}

impl View for PollReply {
    type V = PollReplyModel;

    open spec fn view(&self) -> PollReplyModel {
        match self {
            PollReply::Polled { partition_id, messages: polled } => PollReplyModel::Polled {
                partition_id: *partition_id,
                messages: messages(polled@),
            },
            PollReply::Failed { code, shut_down } => PollReplyModel::Failed {
                code: *code,
                shut_down: *shut_down,
            },
            PollReply::TimedOut => PollReplyModel::TimedOut,
        }
    }
}

impl IggyDeliverySource {
    /// Chooses the next idle owned partition or partition due for an ownership probe.
    pub fn next_poll(&mut self, now: u64) -> (index: Option<usize>)
        requires
            old(self)@.wf(),
        ensures
            final(self)@.wf(),
            old(self)@.complete() ==> final(self)@.complete(),
            match index {
                Some(index) => {
                    &&& index < old(self)@.slots.len()
                    &&& is_next_poll(old(self)@, now, index as int)
                    &&& final(self)@ == (SourceModel {
                        cursor: ((index + 1) % (old(self)@.slots.len() as int)) as usize,
                        ..old(self)@
                    })
                },
                None => nothing_due(old(self)@, now) && final(self)@ == old(self)@,
            },
    {
        let len: usize = self.slots.len();
        let mut step: usize = 0;
        let mut index: usize = if self.cursor < len {
            self.cursor
        } else {
            0
        };
        let ghost m = self@;
        proof {
            if len > 0 {
                if m.cursor == len {
                    vstd::arithmetic::div_mod::lemma_mod_self_0(len as int);
                } else {
                    vstd::arithmetic::div_mod::lemma_small_mod(m.cursor as nat, len as nat);
                }
            }
        }

        while step < len
            invariant
                self@ == m,
                m == old(self)@,
                m.wf(),
                len == m.slots.len(),
                step <= len,
                len > 0 ==> index < len,
                len > 0 ==> index == at_step(m, step as int),
                forall|earlier: int|
                    0 <= earlier < step ==> !(m.slots[#[trigger] at_step(m, earlier)]).due(now),
            decreases len - step,
        {
            assert(self.slots@[index as int]@ == m.slots[index as int]);

            if self.slots[index].is_due(now) {
                let next: usize = if index + 1 < len {
                    index + 1
                } else {
                    0
                };
                proof {
                    if index + 1 == len {
                        vstd::arithmetic::div_mod::lemma_mod_self_0(len as int);
                    } else {
                        vstd::arithmetic::div_mod::lemma_small_mod((index + 1) as nat, len as nat);
                    }
                    assert(index == at_step(m, step as int));
                }
                self.cursor = next;
                assert(self@ =~= SourceModel { cursor: next, ..m });
                return Some(index);
            }

            proof {
                lemma_next_step(m, step as int);
            }
            index = if index + 1 < len {
                index + 1
            } else {
                0
            };
            step = step + 1;
        }

        proof {
            assert forall|i: int| 0 <= i < m.slots.len() implies !(#[trigger] m.slots[i]).due(
                now,
            ) by {
                let at = lemma_every_step(m, i);
                assert(!m.slots[at_step(m, at)].due(now));
            }
        }

        None
    }

    /// What a poll of the partition at `index` asks for. The poll never commits.
    pub fn poll_request(&self, index: usize) -> (request: PollRequest)
        requires
            index < self@.slots.len(),
        ensures
            request == (PollRequest {
                partition: self@.slots[index as int].id,
                from: match self@.slots[index as int].next {
                    Some(offset) => PollFrom::Offset(offset),
                    None => PollFrom::Stored,
                },
                count: self@.batch_length,
                auto_commit: false,
            }),
    {
        let slot = &self.slots[index];
        assert(slot@ == self@.slots[index as int]);

        PollRequest {
            partition: slot.id,
            from: match slot.next {
                Some(offset) => PollFrom::Offset(offset),
                None => PollFrom::Stored,
            },
            count: self.batch_length,
            auto_commit: false,
        }
    }
}

/// The partition one step further on is the next one, or the first one behind the last.
proof fn lemma_next_step(m: SourceModel, step: int)
    requires
        m.slots.len() > 0,
        step >= 0,
    ensures
        at_step(m, step + 1) == if at_step(m, step) + 1 < m.slots.len() {
            at_step(m, step) + 1
        } else {
            0
        },
{
    let len = m.slots.len() as int;
    let x = m.cursor + step;
    vstd::arithmetic::div_mod::lemma_fundamental_div_mod(x, len);
    vstd::arithmetic::div_mod::lemma_mod_division_less_than_divisor(x, len);
    let q = x / len;
    let r = x % len;
    if r + 1 < len {
        vstd::arithmetic::div_mod::lemma_fundamental_div_mod_converse(x + 1, len, q, r + 1);
    } else {
        assert(x + 1 == len * (q + 1) + 0) by (nonlinear_arith)
            requires
                x == len * q + r,
                r + 1 == len,
        ;
        vstd::arithmetic::div_mod::lemma_fundamental_div_mod_converse(x + 1, len, q + 1, 0);
    }
}

/// Every partition is met within one round.
proof fn lemma_every_step(m: SourceModel, i: int) -> (step: int)
    requires
        0 <= i < m.slots.len(),
        m.cursor <= m.slots.len(),
    ensures
        0 <= step < m.slots.len(),
        at_step(m, step) == i,
{
    let len = m.slots.len() as int;
    let start = if m.cursor == len { 0 } else { m.cursor as int };
    let step = if i >= start { i - start } else { i - start + len };
    let x = m.cursor + step;
    if x < len {
        vstd::arithmetic::div_mod::lemma_small_mod(x as nat, len as nat);
    } else {
        vstd::arithmetic::div_mod::lemma_fundamental_div_mod_converse(x, len, 1, i);
    }
    step
}

impl IggyDeliverySource {
    /// Gives up an owned partition, withdrawing its unresolved record, if any.
    fn release(&mut self, index: usize)
        requires
            old(self)@.wf(),
            index < old(self)@.slots.len(),
        ensures
            final(self)@ == with_release(old(self)@, index as int),
            final(self)@.wf(),
            final(self)@.slots.len() == old(self)@.slots.len(),
            old(self)@.complete() ==> final(self)@.complete(),
    {
        let ghost before = self@;
        let ghost i = index as int;
        proof {
            lemma_release_keeps(before, i);
            assert(before.slots[i] == self.slots@[i]@);
        }

        if !self.slots[index].owned {
            return ;
        }

        let withdraws = self.slots[index].unresolved.is_some();
        let slot = &mut self.slots[index];
        let id: u32 = slot.id;
        slot.release();

        if withdraws {
            self.withdrawn.push_back(id);
        }
        assert(self@.slots =~= before.slots.update(i, released(before.slots[i])));
        assert(self@ =~= with_release(before, i));
    }

    /// Handles a fenced poll: an owned partition is lost and triggers an immediate refresh.
    fn fence(&mut self, index: usize, now: u64)
        requires
            old(self)@.wf(),
            index < old(self)@.slots.len(),
        ensures
            final(self)@ == with_fence(old(self)@, index as int, now),
            final(self)@.wf(),
            old(self)@.complete() ==> final(self)@.complete(),
    {
        let ghost before = self@;
        let ghost i = index as int;
        proof {
            lemma_fence_keeps(before, i, now);
            assert(before.slots[i] == self.slots@[i]@);
        }

        if self.slots[index].owned {
            self.release(index);
            self.refresh_at = now;
        }

        let ghost lost = self@;
        assert(lost.slots[i] == self.slots@[i]@);
        let slot = &mut self.slots[index];
        slot.probe_due = false;
        assert(self@.slots =~= lost.slots.update(
            i,
            SlotModel { probe_due: false, ..lost.slots[i] },
        ));
        assert(self@ =~= with_fence(before, i, now));
    }

    /// Takes the messages of an answered poll into the partition at `index`.
    fn absorb_messages(&mut self, index: usize, polled: VecDeque<PolledMessage>, now: u64) -> (absorbed:
        Result<(), Stop>)
        requires
            old(self)@.wf(),
            index < old(self)@.slots.len(),
            now <= MAX_NOW,
        ensures
            final(self)@ == with_polled(old(self)@, index as int, messages(polled@), now),
            final(self)@.wf(),
            absorbed == if absorb(
                answered(old(self)@.slots[index as int]),
                batch(old(self)@, messages(polled@)),
            ) is Err {
                Err::<(), _>(offset_gap())
            } else {
                Ok(())
            },
            old(self)@.complete() && absorbed is Ok ==> final(self)@.complete(),
    {
        let ghost before = self@;
        let ghost i = index as int;
        let ghost all = messages(polled@);
        let ghost start = answered(before.slots[i]);
        let ghost taken = batch(before, all);
        proof {
            lemma_polled_keeps(before, i, all, now);
            assert(before.slots[i] == self.slots@[i]@);
        }
        let limit: usize = if polled.len() > self.batch_length as usize {
            self.batch_length as usize
        } else {
            polled.len()
        };
        let not_before: u64 = now + self.poll_interval;
        let slot = &mut self.slots[index];

        if !slot.owned {
            slot.gain();
        }

        slot.probe_due = false;
        assert(slot@ == start);
        let had: usize = slot.buffer.len();
        let mut k: usize = 0;
        let mut polled = polled;
        let mut gap = false;
        assert(all.take(0) =~= seq![]);
        assert(taken.len() == limit && forall|j: int| 0 <= j < limit ==> taken[j] == all[j]);
        assert(polled@ =~= polled@.skip(0));

        while k < limit && !gap
            invariant
                0 <= k <= limit <= all.len(),
                taken.len() == limit,
                forall|j: int| 0 <= j < limit ==> taken[j] == all[j],
                !gap ==> messages(polled@) == all.skip(k as int),
                gap ==> absorb(start, taken) == Err::<SlotModel, _>(slot@),
                !gap ==> absorb(start, taken.take(k as int)) == Ok::<_, SlotModel>(slot@),
                slot@.buffer.len() <= all.len() + had,
                !gap ==> slot@.buffer.len() <= k + had,
            decreases limit - k + if gap { 0int } else { 1int },
        {
            let ghost rest = polled@;
            assert(messages(rest).len() == rest.len());
            let message = match polled.pop_front() {
                Some(message) => message,
                None => {
                    assert(false);
                    return Ok(());
                },
            };
            let ghost model = message@;
            proof {
                assert(messages(rest)[0] == all[k as int]);
                assert forall|j: int| 0 <= j < polled@.len() implies #[trigger] messages(
                    polled@,
                )[j] == all.skip(k + 1)[j] by {
                    assert(messages(rest)[j + 1] == all.skip(k as int)[j + 1]);
                }
                assert(messages(polled@) =~= all.skip(k + 1));
                assert(taken.take(k + 1).drop_last() =~= taken.take(k as int));
                assert(taken.take(k + 1).last() == model);
            }
            let ghost reached = slot@;
            assert(absorb(start, taken.take(k + 1)) == absorb_one(reached, model));
            let offset: u64 = message.offset;
            let expected: Option<u64> = slot.next;
            let skipped = match expected {
                Some(expected) => offset < expected,
                None => false,
            };
            let beyond = match expected {
                Some(expected) => offset > expected,
                None => false,
            };

            if skipped {
                k = k + 1;
            } else if beyond || offset == u64::MAX {
                proof {
                    lemma_gap_stays(start, taken, k + 1);
                }
                gap = true;
            } else {
                slot.next = Some(offset + 1);
                slot.buffer.push_back(message);
                assert(slot@.buffer =~= reached.buffer.push(model));
                k = k + 1;
            }
        }

        if gap {
            proof {
                assert(self@.slots =~= before.slots.update(i, absorb(start, taken)->Err_0));
                assert(self@ =~= with_polled(before, i, all, now));
            }
            return Err(
                Stop::Failed(
                    IggyDeliveryError::new(IggyDeliveryErrorKind::OffsetGap, FailureKind::Permanent),
                ),
            );
        }

        assert(taken.take(k as int) =~= taken);
        let ghost reached = slot@;

        if slot.buffer.len() > had {
            slot.not_before = None;
            let waits = slot.unresolved.is_some();

            if !waits {
                self.ready.push_back(index);
            }
            proof {
                assert(self@.slots =~= before.slots.update(
                    i,
                    SlotModel { not_before: None, ..reached },
                ));
            }
        } else {
            slot.not_before = Some(not_before);
            proof {
                assert(self@.slots =~= before.slots.update(
                    i,
                    SlotModel { not_before: Some(not_before), ..reached },
                ));
            }
        }
        assert(self@ =~= with_polled(before, i, all, now));
        Ok(())
    }
}

/// Once a gap is met, later messages change nothing.
proof fn lemma_gap_stays(slot: SlotModel, polled: Seq<MessageModel>, k: int)
    requires
        0 <= k <= polled.len(),
        absorb(slot, polled.take(k)) is Err,
    ensures
        absorb(slot, polled) == absorb(slot, polled.take(k)),
    decreases polled.len(),
{
    if k == polled.len() {
        assert(polled.take(k) =~= polled);
    } else {
        assert(polled.drop_last().take(k) =~= polled.take(k));
        lemma_gap_stays(slot, polled.drop_last(), k);
    }
}

impl IggyDeliverySource {
    /// Applies the reply to a poll of the partition at `index`. A reply that is never applied
    /// changes nothing.
    pub fn poll(&mut self, index: usize, reply: PollReply, now: u64) -> (stopped: Result<(), Stop>)
        requires
            old(self)@.wf(),
            index < old(self)@.slots.len(),
            now <= MAX_NOW,
        ensures
            final(self)@ == with_poll(old(self)@, index as int, reply@, now),
            final(self)@.wf(),
            match stopped {
                Ok(()) => poll_stop(old(self)@, index as int, reply@) is None,
                Err(stop) => poll_stop(old(self)@, index as int, reply@) == Some(stop),
            },
            old(self)@.complete() && stopped is Ok ==> final(self)@.complete(),
    {
        assert(self@.slots[index as int] == self.slots@[index as int]@);

        match reply {
            PollReply::Polled { partition_id, messages } => {
                if partition_id != self.slots[index].id {
                    self.fence(index, now);
                    return Ok(());
                }

                self.absorb_messages(index, messages, now)
            },
            PollReply::Failed { code, shut_down } => {
                if code == CONSUMER_GROUP_PARTITION_NOT_OWNED {
                    self.fence(index, now);
                    return Ok(());
                }

                if code == CONSUMER_GROUP_MEMBER_NOT_FOUND {
                    // Not a member: the refresh this schedules rejoins the group.
                    self.fence(index, now);
                    let ghost fenced = self@;
                    self.refresh_at = now;
                    assert(self@ =~= SourceModel { refresh_at: now, ..fenced });
                    return Ok(());
                }

                Err(stop(code, shut_down))
            },
            PollReply::TimedOut => Err(Stop::Failed(IggyDeliveryError::timeout())),
        }
    }

    /// Queues every partition with a deliverable record anew.
    fn rebuild_ready(&mut self)
        ensures
            final(self)@ == (SourceModel {
                ready: deliverable_indexes(old(self)@.slots),
                ..old(self)@
            }),
    {
        let ghost before = self@;
        self.ready.clear();
        let mut i: usize = 0;
        assert(self@.ready =~= seq![]);
        assert(before.slots.take(0) =~= seq![]);
        assert(self@ =~= SourceModel { ready: seq![], ..before });

        while i < self.slots.len()
            invariant
                i <= before.slots.len(),
                self@ == (SourceModel {
                    ready: deliverable_indexes(before.slots.take(i as int)),
                    ..before
                }),
            decreases before.slots.len() - i,
        {
            let ghost at = self@;
            assert(before.slots.take(i + 1).drop_last() =~= before.slots.take(i as int));
            assert(before.slots.take(i + 1).last() == self.slots@[i as int]@);

            if self.slots[i].is_deliverable() {
                self.ready.push_back(i);
                assert(self@.ready =~= at.ready.push(i));
            }
            assert(self@ =~= SourceModel {
                ready: deliverable_indexes(before.slots.take(i + 1)),
                ..before
            });
            i = i + 1;
        }

        assert(before.slots.take(i as int) =~= before.slots);
    }

    /// Makes one partition known.
    fn add_partition(&mut self, id: u32)
        requires
            old(self)@.wf(),
        ensures
            final(self)@ == with_partition(old(self)@, id),
            final(self)@.wf(),
            old(self)@.complete() ==> final(self)@.complete(),
    {
        let ghost before = self@;

        match self.search(id) {
            Ok(_) => {},
            Err(position) => {
                let slot = Slot::new(id);
                let ghost new = slot@;
                self.slots.insert(position, slot);
                let ghost inserted = self@;
                proof {
                    assert(self.slots@.len() == before.slots.len() + 1);
                    assert(self.slots@.len() <= usize::MAX) by {
                        assert(self.slots.len() == self.slots@.len());
                    }
                    lemma_partition_keeps(before, id, position as int);
                    assert(inserted.slots =~= before.slots.insert(position as int, new_slot(id)));
                }
                // Insertion shifts later indexes, so queued indexes are rebuilt.
                self.rebuild_ready();
                assert(self@ =~= with_partition(before, id));
            },
        }
    }

    /// Adds newly created partitions and schedules a probe of every partition not owned.
    pub fn sync_partitions(&mut self, partitions: &Vec<u32>)
        requires
            old(self)@.wf(),
        ensures
            final(self)@ == with_partitions(old(self)@, partitions@),
            final(self)@.wf(),
            old(self)@.complete() ==> final(self)@.complete(),
            forall|i: int|
                0 <= i < final(self)@.slots.len() && !(#[trigger] final(self)@.slots[i]).owned
                    ==> final(self)@.slots[i].probe_due,
    {
        let mut i: usize = 0;
        assert(partitions@.take(0) =~= seq![]);

        while i < partitions.len()
            invariant
                i <= partitions@.len(),
                self@.wf(),
                old(self)@.complete() ==> self@.complete(),
                self@ == with_known_partitions(old(self)@, partitions@.take(i as int)),
            decreases partitions@.len() - i,
        {
            assert(partitions@.take(i + 1).drop_last() =~= partitions@.take(i as int));
            self.add_partition(partitions[i]);
            i = i + 1;
        }

        assert(partitions@.take(i as int) =~= partitions@);
        let ghost known = self@;
        let ghost goal = known.slots.map_values(|slot: SlotModel| probed(slot));
        proof {
            lemma_probed_keeps(known);
        }
        let mut k: usize = 0;
        let len: usize = self.slots.len();

        while k < len
            invariant
                k <= len,
                len == known.slots.len(),
                goal == known.slots.map_values(|slot: SlotModel| probed(slot)),
                self@.slots.len() == len,
                forall|j: int| 0 <= j < k ==> #[trigger] self@.slots[j] == goal[j],
                forall|j: int| k <= j < len ==> #[trigger] self@.slots[j] == known.slots[j],
                self@ == (SourceModel { slots: self@.slots, ..known }),
            decreases len - k,
        {
            let ghost at = self@;
            assert(at.slots[k as int] == self.slots@[k as int]@);

            if !self.slots[k].owned {
                let slot = &mut self.slots[k];
                slot.probe_due = true;
            }
            proof {
                assert(self@.slots =~= at.slots.update(k as int, probed(at.slots[k as int])));
                assert(at.slots[k as int] == known.slots[k as int]);
            }
            k = k + 1;
        }

        assert(self@.slots =~= goal);
        assert(self@ =~= with_partitions(old(self)@, partitions@));
    }

    /// The next time this source has work without a settlement outcome, at most one poll
    /// interval away.
    pub fn next_wake(&self, now: u64) -> (wake: u64)
        requires
            self@.wf(),
            now <= MAX_NOW,
        ensures
            wake == wake_time(self@, now),
    {
        let ghost slots = self@.slots;
        let soon: u64 = now + self.poll_interval;
        let first: u64 = if soon <= self.refresh_at {
            soon
        } else {
            self.refresh_at
        };
        let mut wake: u64 = first;
        let mut i: usize = 0;
        assert(slots.take(0) =~= seq![]);

        while i < self.slots.len()
            invariant
                slots == self@.slots,
                i <= slots.len(),
                wake == earliest_poll(slots.take(i as int), first),
            decreases slots.len() - i,
        {
            let slot = &self.slots[i];
            assert(slots.take(i + 1).drop_last() =~= slots.take(i as int));
            assert(slots.take(i + 1).last() == slot@);

            if slot.owned && slot.buffer.len() == 0 && slot.unresolved.is_none() {
                if let Some(at) = slot.not_before {
                    if at < wake {
                        wake = at;
                    }
                }
            }
            i = i + 1;
        }

        assert(slots.take(i as int) =~= slots);
        wake
    }

    /// Gives up every partition.
    fn release_all(&mut self)
        requires
            old(self)@.wf(),
        ensures
            final(self)@ == with_releases(old(self)@, old(self)@.slots.len() as int),
            final(self)@.wf(),
            final(self)@.slots.len() == old(self)@.slots.len(),
            old(self)@.complete() ==> final(self)@.complete(),
    {
        let len: usize = self.slots.len();
        let mut i: usize = 0;

        while i < len
            invariant
                i <= len,
                len == old(self)@.slots.len(),
                self@.slots.len() == len,
                self@.wf(),
                old(self)@.complete() ==> self@.complete(),
                self@ == with_releases(old(self)@, i as int),
            decreases len - i,
        {
            self.release(i);
            i = i + 1;
        }
    }

    /// Rechecks membership against the groups that the server lists for this client. A client
    /// that is no longer a member gives up every partition, and `false` says that it must join
    /// the group again.
    pub fn check_membership(&mut self, groups: &Vec<Membership>) -> (member: bool)
        requires
            old(self)@.wf(),
            old(self)@.opened is Some,
        ensures
            member == is_member(old(self)@.opened->Some_0, groups@),
            final(self)@ == if member {
                old(self)@
            } else {
                with_releases(old(self)@, old(self)@.slots.len() as int)
            },
            final(self)@.wf(),
            old(self)@.complete() ==> final(self)@.complete(),
    {
        if let Some(resolved) = self.opened {
            let mut i: usize = 0;

            while i < groups.len()
                invariant
                    i <= groups@.len(),
                    self@ == old(self)@,
                    self@.opened == Some(resolved),
                    self@.wf(),
                    forall|k: int|
                        0 <= k < i ==> !((#[trigger] groups@[k]).stream == resolved.stream
                            && groups@[k].topic == resolved.topic && groups@[k].group
                            == resolved.group),
                decreases groups@.len() - i,
            {
                let joined = groups[i];

                if joined.stream == resolved.stream && joined.topic == resolved.topic
                    && joined.group == resolved.group {
                    assert(is_member(resolved, groups@));
                    return true;
                }
                i = i + 1;
            }
        }

        self.release_all();
        false
    }

    /// Takes the reloaded partitions of the topic and schedules the next refresh.
    pub fn finish_refresh(&mut self, partitions: &Vec<u32>, now: u64)
        requires
            old(self)@.wf(),
            now <= MAX_NOW,
        ensures
            final(self)@ == (SourceModel {
                refresh_at: (now + old(self)@.refresh_interval) as u64,
                ..with_partitions(old(self)@, partitions@)
            }),
            final(self)@.wf(),
            old(self)@.complete() ==> final(self)@.complete(),
    {
        self.sync_partitions(partitions);
        let ghost synced = self@;
        proof {
            lemma_known_keeps_settings(old(self)@, partitions@);
        }
        self.refresh_at = now + self.refresh_interval;
        assert(self@ =~= SourceModel { refresh_at: self.refresh_at, ..synced });
    }
}

/// Making partitions known changes no setting.
proof fn lemma_known_keeps_settings(m: SourceModel, ids: Seq<u32>)
    ensures
        with_known_partitions(m, ids).refresh_interval == m.refresh_interval,
        with_known_partitions(m, ids).poll_interval == m.poll_interval,
    decreases ids.len(),
{
    if ids.len() > 0 {
        lemma_known_keeps_settings(m, ids.drop_last());
    }
}

/// Reports a deliberately shut-down client as a clean close and classifies every other error.
pub fn stop(code: u32, shut_down: bool) -> (stop: Stop)
    ensures
        stop == stop_of(code, shut_down),
{
    if shut_down {
        Stop::Closed
    } else {
        Stop::Failed(IggyDeliveryError::from_code(code))
    }
}

/// How far opening has come: what the next server request is for.
pub enum Opening {
    /// Is the client connected?
    Session,

    /// Look up the stream.
    Stream,

    /// Look up the topic.
    Topic {
        /// The stream's id.
        stream: u32,
    },

    /// Look up the consumer group.
    Group {
        /// The stream's id.
        stream: u32,

        /// The topic's id.
        topic: u32,

        /// The topic's partitions.
        partitions: Vec<u32>,
    },

    /// Join the consumer group.
    Joining {
        /// The ids found.
        resolved: Resolved,

        /// The topic's partitions.
        partitions: Vec<u32>,
    },
}

/// What came of one request while opening.
pub enum OpenReply {
    /// Whether the client is connected.
    Session(bool),

    /// The stream's id, if it exists.
    Stream(Option<u32>),

    /// The topic's id and partitions, if it exists.
    Topic(Option<(u32, Vec<u32>)>),

    /// The consumer group's id, if it exists.
    Group(Option<u32>),

    /// The group was joined.
    Joined,

    /// The request stopped.
    Stopped(Stop),
}

/// What opening does next.
pub enum OpenStep {
    /// Make the next request.
    Next(Opening),

    /// The source is open.
    Opened,

    /// Opening failed.
    Failed(IggyDeliveryError),
}

/// Whether a reply is one to the request that opening made.
pub open spec fn answers(at: Opening, reply: OpenReply) -> bool {
    match at {
        Opening::Session => reply is Session,
        Opening::Stream => reply is Stream || reply is Stopped,
        Opening::Topic { .. } => reply is Topic || reply is Stopped,
        Opening::Group { .. } => reply is Group || reply is Stopped,
        Opening::Joining { .. } => reply is Joined || reply is Stopped,
    }
}

/// The error of a stop while opening: a client that is already shut down cannot open a source.
pub open spec fn stop_error(stop: Stop) -> IggyDeliveryError {
    match stop {
        Stop::Closed => plain_error(IggyDeliveryErrorKind::Disconnected, FailureKind::Transient),
        Stop::Failed(error) => error,
    }
}

/// The error of a missing stream, topic, or consumer group.
pub open spec fn missing() -> IggyDeliveryError {
    plain_error(IggyDeliveryErrorKind::NotFound, FailureKind::Permanent)
}

/// Why opening fails on a reply, if it does.
pub open spec fn open_failure(reply: OpenReply) -> Option<IggyDeliveryError> {
    match reply {
        OpenReply::Session(false) => Some(
            plain_error(IggyDeliveryErrorKind::Disconnected, FailureKind::Transient),
        ),
        OpenReply::Stream(None) | OpenReply::Topic(None) | OpenReply::Group(None) => Some(missing()),
        OpenReply::Stopped(stop) => Some(stop_error(stop)),
        _ => None,
    }
}

/// The request that follows a reply which opening goes on with.
pub open spec fn follows(at: Opening, reply: OpenReply, next: Opening) -> bool {
    match at {
        Opening::Session => next is Stream,
        Opening::Stream => next matches Opening::Topic { stream } && reply
            == OpenReply::Stream(Some(stream)),
        Opening::Topic { stream } => next matches Opening::Group {
            stream: same,
            topic,
            partitions,
        } && same == stream && reply == OpenReply::Topic(Some((topic, partitions))),
        Opening::Group { stream, topic, partitions } => next matches Opening::Joining {
            resolved,
            partitions: same,
        } && same == partitions && resolved.stream == stream && resolved.topic == topic && reply
            == OpenReply::Group(Some(resolved.group)),
        Opening::Joining { .. } => false,
    }
}

/// How far a refresh has come: what the next server request is for.
#[derive(Clone, Copy, Debug, PartialEq, Eq, Structural)]
pub enum Refreshing {
    /// List the client's memberships.
    Client,

    /// Join the consumer group again.
    Rejoin,

    /// Reload the topic's partitions.
    Topic,
}

/// What came of one request of a refresh.
pub enum RefreshReply {
    /// The client's memberships.
    Client(Vec<Membership>),

    /// The group was joined again.
    Joined,

    /// The topic's partitions, if the topic exists.
    Topic(Option<Vec<u32>>),

    /// The request stopped.
    Stopped(Stop),
}

/// What a refresh does next.
#[derive(Clone, Copy, Debug, PartialEq, Eq, Structural)]
pub enum RefreshStep {
    /// Make the next request.
    Next(Refreshing),

    /// The refresh is complete.
    Done,

    /// The refresh stopped the receive.
    Stopped(Stop),
}

/// Whether a reply is one to the request that the refresh made.
pub open spec fn refreshes(at: Refreshing, reply: RefreshReply) -> bool {
    match at {
        Refreshing::Client => reply is Client || reply is Stopped,
        Refreshing::Rejoin => reply is Joined || reply is Stopped,
        Refreshing::Topic => reply is Topic || reply is Stopped,
    }
}

/// What a refresh does after a reply.
pub open spec fn refresh_next(m: SourceModel, reply: RefreshReply) -> RefreshStep {
    match reply {
        RefreshReply::Client(groups) => if is_member(m.opened->Some_0, groups@) {
            RefreshStep::Next(Refreshing::Topic)
        } else {
            RefreshStep::Next(Refreshing::Rejoin)
        },
        RefreshReply::Joined => RefreshStep::Next(Refreshing::Topic),
        RefreshReply::Topic(Some(_)) => RefreshStep::Done,
        RefreshReply::Topic(None) => RefreshStep::Stopped(Stop::Failed(missing())),
        RefreshReply::Stopped(stop) => RefreshStep::Stopped(stop),
    }
}

/// The state after a reply to a request of a refresh.
pub open spec fn with_refresh(m: SourceModel, reply: RefreshReply, now: u64) -> SourceModel {
    match reply {
        RefreshReply::Client(groups) => if is_member(m.opened->Some_0, groups@) {
            m
        } else {
            with_releases(m, m.slots.len() as int)
        },
        RefreshReply::Topic(Some(partitions)) => SourceModel {
            refresh_at: (now + m.refresh_interval) as u64,
            ..with_partitions(m, partitions@)
        },
        _ => m,
    }
}

/// What a receive does next.
pub enum ReceiveStep {
    /// Report that a partition's record was withdrawn.
    OwnershipLost(u32),

    /// Hand out a record.
    Deliver(IggyDelivery),

    /// Refresh the assignment.
    Refresh,

    /// Poll the partition at an index.
    Poll(usize),

    /// Wait for a settlement outcome, at most until the given time.
    Wait(u64),

    /// Report that the source is closed.
    Closed,
}

/// The state after the first withdrawn partition is reported.
pub open spec fn with_report(m: SourceModel) -> SourceModel {
    SourceModel { withdrawn: m.withdrawn.skip(1), ..m }
}

/// What a receive does after it has taken the settlement outcomes in, and the state it leaves.
/// Everything already known is reported before any request is made.
pub open spec fn receives(
    m: SourceModel,
    now: u64,
    step: ReceiveStep,
    after: SourceModel,
) -> bool {
    if m.withdrawn.len() > 0 {
        step == ReceiveStep::OwnershipLost(m.withdrawn[0]) && after == with_report(m)
    } else if let Some(i) = first_deliverable(m) {
        &&& step matches ReceiveStep::Deliver(delivery)
        &&& delivery.settlement == (IggySettlement {
            partition: m.slots[i].id,
            offset: m.slots[i].buffer[0].offset,
            epoch: m.slots[i].epoch,
        })
        &&& delivery.record@ == polled_record(m.slots[i].buffer[0])
        &&& after == with_delivery(m)
    } else {
        let quiet = with_delivery(m);

        if now >= m.refresh_at {
            step is Refresh && after == quiet
        } else if nothing_due(quiet, now) {
            step == ReceiveStep::Wait(wake_time(quiet, now)) && after == quiet
        } else {
            &&& step matches ReceiveStep::Poll(index)
            &&& index < quiet.slots.len()
            &&& is_next_poll(quiet, now, index as int)
            &&& after == (SourceModel {
                cursor: ((index + 1) % (quiet.slots.len() as int)) as usize,
                ..quiet
            })
        }
    }
}

/// What a receive does, and the state it leaves, given the settlement outcomes since the last one.
/// A closed source stays as it is.
pub open spec fn next_receive(
    m: SourceModel,
    outcomes: Seq<Outcome>,
    now: u64,
    step: ReceiveStep,
    after: SourceModel,
) -> bool {
    if m.closed {
        step is Closed && after == m
    } else {
        receives(with_outcomes(m, outcomes, now), now, step, after)
    }
}

/// What the result of a poll or a refresh means for the receive: it goes on, it reports a clean
/// close, or it fails.
pub open spec fn step_result(result: Result<(), Stop>) -> Result<bool, IggyDeliveryError> {
    match result {
        Ok(()) => Ok(true),
        Err(Stop::Closed) => Ok(false),
        Err(Stop::Failed(error)) => Err(error),
    }
}

/// The state after the result of a poll or a refresh: a clean close ends the source for good.
pub open spec fn with_step_result(m: SourceModel, result: Result<(), Stop>) -> SourceModel {
    if result == Err::<(), _>(Stop::Closed) {
        SourceModel { closed: true, ..m }
    } else {
        m
    }
}

impl IggyDeliverySource {
    /// Constructs a source without performing network I/O.
    pub fn new(settings: &IggySourceSettings, now: u64) -> (source: Self)
        ensures
            source@ == (SourceModel {
                batch_length: settings@.batch_length,
                poll_interval: span_nanos(settings@.poll_interval) as u64,
                refresh_interval: span_nanos(settings@.assignment_refresh_interval) as u64,
                opened: None,
                slots: seq![],
                withdrawn: seq![],
                ready: seq![],
                cursor: 0,
                refresh_at: now,
                closed: false,
            }),
            source@.wf(),
            source@.complete(),
    {
        let source = IggyDeliverySource {
            batch_length: settings.batch_length(),
            poll_interval: settings.poll_interval().as_nanos() as u64,
            refresh_interval: settings.assignment_refresh_interval().as_nanos() as u64,
            opened: None,
            slots: Vec::new(),
            withdrawn: VecDeque::new(),
            ready: VecDeque::new(),
            cursor: 0,
            refresh_at: now,
            closed: false,
        };
        assert(source@.slots =~= seq![]);
        assert(source@.withdrawn =~= seq![]);
        assert(source@.ready =~= seq![]);
        source
    }

    /// Whether the source was closed.
    pub fn is_closed(&self) -> (closed: bool)
        ensures
            closed == self@.closed,
    {
        self.closed
    }

    /// The number of known partitions.
    pub fn partition_count(&self) -> (count: usize)
        ensures
            count == self@.slots.len(),
    {
        self.slots.len()
    }

    /// The first request of opening; `None` when the source is already open.
    pub fn begin_open(&self) -> (at: Option<Opening>)
        ensures
            at is None <==> self@.opened is Some,
            at matches Some(at) ==> at is Session,
    {
        match self.opened {
            Some(_) => None,
            None => Some(Opening::Session),
        }
    }

    /// Takes the reply to one request of opening, and says what to do next. Opening looks up the
    /// stream, topic, and group and joins the group; it never creates them.
    pub fn open_step(&mut self, at: Opening, reply: OpenReply, now: u64) -> (step: OpenStep)
        requires
            old(self)@.wf(),
            answers(at, reply),
            now <= MAX_NOW,
        ensures
            final(self)@.wf(),
            old(self)@.complete() ==> final(self)@.complete(),
            match step {
                OpenStep::Failed(error) => open_failure(reply) == Some(error),
                OpenStep::Next(next) => open_failure(reply) is None && follows(at, reply, next),
                OpenStep::Opened => open_failure(reply) is None && at is Joining,
            },
            final(self)@ == if step is Opened {
                SourceModel {
                    refresh_at: (now + old(self)@.refresh_interval) as u64,
                    ..with_partitions(
                        SourceModel { opened: Some(at->Joining_resolved), ..old(self)@ },
                        at->Joining_partitions@,
                    )
                }
            } else {
                old(self)@
            },
    {
        match (at, reply) {
            (_, OpenReply::Stopped(stop)) => OpenStep::Failed(into_error(stop)),
            (Opening::Session, OpenReply::Session(connected)) => {
                if connected {
                    OpenStep::Next(Opening::Stream)
                } else {
                    OpenStep::Failed(
                        IggyDeliveryError::new(
                            IggyDeliveryErrorKind::Disconnected,
                            FailureKind::Transient,
                        ),
                    )
                }
            },
            (Opening::Stream, OpenReply::Stream(Some(stream))) => OpenStep::Next(
                Opening::Topic { stream },
            ),
            (Opening::Topic { stream }, OpenReply::Topic(Some((topic, partitions)))) => {
                OpenStep::Next(Opening::Group { stream, topic, partitions })
            },
            (Opening::Group { stream, topic, partitions }, OpenReply::Group(Some(group))) => {
                OpenStep::Next(
                    Opening::Joining { resolved: Resolved { stream, topic, group }, partitions },
                )
            },
            (Opening::Joining { resolved, partitions }, OpenReply::Joined) => {
                self.opened = Some(resolved);
                assert(self@ =~= SourceModel { opened: Some(resolved), ..old(self)@ });
                self.finish_refresh(&partitions, now);
                OpenStep::Opened
            },
            _ => OpenStep::Failed(not_found()),
        }
    }

    /// Takes the reply to one request of a refresh, and says what to do next: membership is
    /// rechecked, a removed member joins again, and the topic's partitions are reloaded.
    pub fn refresh_step(&mut self, at: Refreshing, reply: RefreshReply, now: u64) -> (step:
        RefreshStep)
        requires
            old(self)@.wf(),
            old(self)@.opened is Some,
            refreshes(at, reply),
            now <= MAX_NOW,
        ensures
            step == refresh_next(old(self)@, reply),
            final(self)@ == with_refresh(old(self)@, reply, now),
            final(self)@.wf(),
            old(self)@.complete() ==> final(self)@.complete(),
    {
        match reply {
            RefreshReply::Client(groups) => {
                if self.check_membership(&groups) {
                    RefreshStep::Next(Refreshing::Topic)
                } else {
                    RefreshStep::Next(Refreshing::Rejoin)
                }
            },
            RefreshReply::Joined => RefreshStep::Next(Refreshing::Topic),
            RefreshReply::Topic(Some(partitions)) => {
                self.finish_refresh(&partitions, now);
                RefreshStep::Done
            },
            RefreshReply::Topic(None) => RefreshStep::Stopped(Stop::Failed(not_found())),
            RefreshReply::Stopped(stop) => RefreshStep::Stopped(stop),
        }
    }

    /// Takes the recorded settlement outcomes in and says what the receive does next.
    pub fn next_step(&mut self, outcomes: &Vec<Outcome>, now: u64) -> (step: ReceiveStep)
        requires
            old(self)@.wf(),
            now <= MAX_NOW,
        ensures
            final(self)@.wf(),
            old(self)@.complete() ==> final(self)@.complete(),
            next_receive(old(self)@, outcomes@, now, step, final(self)@),
    {
        if self.closed {
            return ReceiveStep::Closed;
        }

        self.apply_outcomes(outcomes, now);
        let ghost m = self@;

        if let Some(partition) = self.withdrawn.pop_front() {
            assert(self@.withdrawn =~= m.withdrawn.skip(1));
            assert(self@ =~= with_report(m));
            return ReceiveStep::OwnershipLost(partition);
        }

        assert(self@ =~= m);

        if let Some(delivery) = self.take_ready() {
            return ReceiveStep::Deliver(delivery);
        }

        proof {
            lemma_quiet(m);
        }

        if now >= self.refresh_at {
            return ReceiveStep::Refresh;
        }

        let ghost quiet = self@;

        if let Some(index) = self.next_poll(now) {
            proof {
                assert(quiet.slots[index as int].due(now));
            }
            return ReceiveStep::Poll(index);
        }

        ReceiveStep::Wait(self.next_wake(now))
    }

    /// Takes the result of a poll or a refresh: a clean close ends this source for good, and a
    /// failure is reported.
    pub fn finish_step(&mut self, result: Result<(), Stop>) -> (goes_on: Result<
        bool,
        IggyDeliveryError,
    >)
        ensures
            goes_on == step_result(result),
            final(self)@ == with_step_result(old(self)@, result),
    {
        match result {
            Ok(()) => Ok(true),
            Err(Stop::Closed) => {
                self.closed = true;
                assert(self@ =~= SourceModel { closed: true, ..old(self)@ });
                Ok(false)
            },
            Err(Stop::Failed(error)) => Err(error),
        }
    }
}

/// Looking for a deliverable record where there is none changes nothing but the queue.
proof fn lemma_quiet(m: SourceModel)
    requires
        first_deliverable(m) is None,
    ensures
        with_delivery(m).slots == m.slots,
        with_delivery(m).refresh_at == m.refresh_at,
    decreases m.ready.len(),
{
    if m.ready.len() > 0 {
        lemma_quiet(SourceModel { ready: m.ready.skip(1), ..m });
    }
}

/// Opening has no close outcome: a client already shut down cannot open a source.
fn into_error(stop: Stop) -> (error: IggyDeliveryError)
    ensures
        error == stop_error(stop),
{
    match stop {
        Stop::Closed => IggyDeliveryError::new(
            IggyDeliveryErrorKind::Disconnected,
            FailureKind::Transient,
        ),
        Stop::Failed(error) => error,
    }
}

fn not_found() -> (error: IggyDeliveryError)
    ensures
        error == missing(),
{
    IggyDeliveryError::new(IggyDeliveryErrorKind::NotFound, FailureKind::Permanent)
}

/// What came of storing an offset.
#[derive(Clone, Copy, Debug, PartialEq, Eq, Structural)]
pub enum StoreReply {
    /// The offset is stored.
    Stored,

    /// The SDK reported an error with the given code.
    Failed(u32),

    /// The request timeout passed first.
    TimedOut,
}

impl IggySettlement {
    /// Returns the record's partition.
    pub fn partition(&self) -> (partition: u32)
        ensures
            partition == self.partition,
    {
        self.partition
    }

    /// Returns the record's offset within its partition.
    pub fn offset(&self) -> (offset: u64)
        ensures
            offset == self.offset,
    {
        self.offset
    }

    /// The outcome to record once this settlement is done with.
    pub fn outcome(&self, advanced: bool) -> (outcome: Outcome)
        ensures
            outcome == (Outcome {
                partition: self.partition,
                offset: self.offset,
                epoch: self.epoch,
                advanced,
            }),
    {
        Outcome { partition: self.partition, offset: self.offset, epoch: self.epoch, advanced }
    }

    /// What storing the record's offset means for the partition. Only a confirmed store advances
    /// it; anything else is indeterminate, and an ownership loss is never claimed.
    pub fn advance(&self, reply: StoreReply) -> (advance: Result<
        PartitionAdvance,
        IggyDeliveryError,
    >)
        ensures
            advance == (match reply {
                StoreReply::Stored => Ok::<_, IggyDeliveryError>(PartitionAdvance::Advanced),
                StoreReply::Failed(code) => Err(delivery_error(code)),
                StoreReply::TimedOut => Err(
                    plain_error(IggyDeliveryErrorKind::Timeout, FailureKind::Transient),
                ),
            }),
    {
        match reply {
            StoreReply::Stored => Ok(PartitionAdvance::Advanced),
            StoreReply::Failed(code) => Err(IggyDeliveryError::from_code(code)),
            StoreReply::TimedOut => Err(IggyDeliveryError::timeout()),
        }
    }
}

} // verus!
