//! What the replies of a poll, a settlement, a refresh and an opening do to a delivery source.

use crate::provider::error::{delivery_error, IggyDeliveryError};
use crate::provider::mapper::record::WireHeader;
use crate::provider::sdk::{MessageModel, SdkHeader};
use crate::provider::source::model::{
    absorb, answered, batch, first_deliverable, is_member, lemma_index_of, poll_stop, with_delivery,
    with_outcome, with_outcomes, with_poll, with_releases, Membership, Outcome, PollReplyModel,
    Resolved, SourceModel, Stop, MAX_NOW,
};
use crate::provider::source::slot::SlotModel;
use crate::provider::source::state::{
    answers, follows, next_receive, open_failure, receives, refresh_next, refreshes, step_result,
    with_refresh, with_step_result, OpenReply, Opening, ReceiveStep, RefreshReply, RefreshStep,
    Refreshing,
};
use crate::provider::source::wire::{polled_record, wire_header};
use crate::text::bytes_of;
use vstd::prelude::*;
use vstd::utf8::{decode_utf8_encode_utf8, valid_utf8};

verus! {

/// Messages at consecutive offsets from `first` on, none of them at the last offset there is.
pub open spec fn in_row(messages: Seq<MessageModel>, first: int) -> bool {
    forall|k: int|
        0 <= k < messages.len() ==> (#[trigger] messages[k]).offset == first + k
            && messages[k].offset < u64::MAX
}

/// Where an answered poll of a partition starts: at the next offset it expects, if it expects one,
/// and at the first polled message otherwise.
pub open spec fn starts_at(slot: SlotModel, messages: Seq<MessageModel>) -> int {
    match slot.next {
        Some(next) if slot.owned => next as int,
        _ => messages[0].offset as int,
    }
}

/// A partition from which an answered poll can be taken in: it is not owned yet, or holds nothing.
pub open spec fn is_empty_handed(slot: SlotModel) -> bool {
    !slot.owned || slot.buffer.len() == 0 && slot.unresolved is None
}

proof fn lemma_row_absorbed(slot: SlotModel, messages: Seq<MessageModel>, first: int)
    requires
        slot.buffer.len() == 0,
        messages.len() > 0,
        in_row(messages, first),
        slot.next matches Some(next) ==> next == first,
    ensures
        absorb(slot, messages) == Ok::<_, SlotModel>(
            SlotModel {
                next: Some((messages.last().offset + 1) as u64),
                buffer: messages,
                ..slot
            },
        ),
    decreases messages.len(),
{
    let before = messages.drop_last();
    if before.len() == 0 {
        assert(before =~= seq![]);
        assert(absorb(slot, before) == Ok::<_, SlotModel>(slot));
        assert(slot.buffer.push(messages.last()) =~= messages);
    } else {
        assert(in_row(before, first)) by {
            assert forall|k: int| 0 <= k < before.len() implies (#[trigger] before[k]).offset
                == first + k && before[k].offset < u64::MAX by {
                assert(before[k] == messages[k]);
            }
        }
        lemma_row_absorbed(slot, before, first);
        assert(before.last() == messages[messages.len() - 2]);
        assert(messages.last() == messages[messages.len() - 1]);
        assert(before.push(messages.last()) =~= messages);
    }
}

/// A poll that is answered with the records that the partition expects takes all of them, in their
/// order and up to one batch: they are buffered and queued for delivery, and the partition expects
/// the offset behind the last one. A partition that was not owned is owned from there on, in a new
/// epoch.
pub proof fn law_answered_polls_are_buffered(
    m: SourceModel,
    i: int,
    messages: Seq<MessageModel>,
    now: u64,
)
    requires
        m.wf(),
        now <= MAX_NOW,
        0 <= i < m.slots.len(),
        is_empty_handed(m.slots[i]),
        messages.len() > 0,
        in_row(messages, starts_at(m.slots[i], messages)),
    ensures
        ({
            let reply = PollReplyModel::Polled { partition_id: m.slots[i].id, messages };
            let after = with_poll(m, i, reply, now);
            let slot = after.slots[i];
            let count = if messages.len() <= m.batch_length {
                messages.len() as int
            } else {
                m.batch_length as int
            };
            &&& poll_stop(m, i, reply) is None
            &&& slot.owned
            &&& slot.id == m.slots[i].id
            &&& slot.buffer == messages.take(count)
            &&& slot.next is Some && slot.next->Some_0 == messages[count - 1].offset + 1
            &&& slot.unresolved is None
            &&& slot.not_before is None
            &&& !slot.probe_due
            &&& slot.epoch == m.slots[i].epoch <==> m.slots[i].owned
            &&& slot.deliverable()
            &&& after.ready == m.ready.push(i as usize)
            &&& after.refresh_at == m.refresh_at
            &&& after.withdrawn == m.withdrawn
        }),
{
    let slot = answered(m.slots[i]);
    let taken = batch(m, messages);
    let first = starts_at(m.slots[i], messages);
    assert(m.slots[i].wf());
    let count = if messages.len() <= m.batch_length {
        messages.len() as int
    } else {
        m.batch_length as int
    };
    assert(taken =~= messages.take(count));
    assert(in_row(taken, first)) by {
        assert forall|k: int| 0 <= k < taken.len() implies (#[trigger] taken[k]).offset == first
            + k && taken[k].offset < u64::MAX by {
            assert(taken[k] == messages[k]);
        }
    }
    lemma_row_absorbed(slot, taken, first);
    assert(taken.last() == messages[count - 1]);
}

/// A poll that is answered with nothing confirms the partition: it is owned, holds nothing, and is
/// polled again one poll interval later and no sooner.
pub proof fn law_empty_polls_wait_one_interval(m: SourceModel, i: int, now: u64)
    requires
        m.wf(),
        now <= MAX_NOW,
        0 <= i < m.slots.len(),
        is_empty_handed(m.slots[i]),
    ensures
        ({
            let reply = PollReplyModel::Polled {
                partition_id: m.slots[i].id,
                messages: seq![],
            };
            let after = with_poll(m, i, reply, now);
            let slot = after.slots[i];
            &&& poll_stop(m, i, reply) is None
            &&& slot.owned
            &&& slot.buffer.len() == 0
            &&& slot.unresolved is None
            &&& slot.next == if m.slots[i].owned {
                m.slots[i].next
            } else {
                None
            }
            &&& slot.epoch == m.slots[i].epoch <==> m.slots[i].owned
            &&& forall|at: u64| #[trigger] slot.due(at) <==> at >= now + m.poll_interval
            &&& after.ready == m.ready
            &&& after.refresh_at == m.refresh_at
            &&& after.withdrawn == m.withdrawn
        }),
{
    assert(m.slots[i].wf());
    assert(batch(m, seq![]) =~= seq![]);
}

proof fn lemma_absorb_append(slot: SlotModel, first: Seq<MessageModel>, rest: Seq<MessageModel>)
    ensures
        absorb(slot, first + rest) == match absorb(slot, first) {
            Ok(reached) => absorb(reached, rest),
            Err(reached) => Err(reached),
        },
    decreases rest.len(),
{
    if rest.len() == 0 {
        assert(first + rest =~= first);
    } else {
        lemma_absorb_append(slot, first, rest.drop_last());
        assert((first + rest).drop_last() =~= first + rest.drop_last());
        assert((first + rest).last() == rest.last());
    }
}

proof fn lemma_old_skipped(slot: SlotModel, old: Seq<MessageModel>)
    requires
        slot.next is Some,
        forall|k: int| 0 <= k < old.len() ==> (#[trigger] old[k]).offset < slot.next->Some_0,
    ensures
        absorb(slot, old) == Ok::<_, SlotModel>(slot),
    decreases old.len(),
{
    if old.len() > 0 {
        let before = old.drop_last();
        assert forall|k: int| 0 <= k < before.len() implies (#[trigger] before[k]).offset
            < slot.next->Some_0 by {
            assert(before[k] == old[k]);
        }
        lemma_old_skipped(slot, before);
        assert(old[old.len() - 1].offset < slot.next->Some_0);
    }
}

/// Records that a partition has taken before are skipped when a poll returns them once more: the
/// new ones behind them are buffered as if they had come alone.
pub proof fn law_records_are_taken_once(
    m: SourceModel,
    i: int,
    old: Seq<MessageModel>,
    new: Seq<MessageModel>,
    now: u64,
)
    requires
        m.wf(),
        now <= MAX_NOW,
        0 <= i < m.slots.len(),
        m.slots[i].idle(),
        m.slots[i].next is Some,
        forall|k: int|
            0 <= k < old.len() ==> (#[trigger] old[k]).offset < m.slots[i].next->Some_0,
        old.len() + new.len() <= m.batch_length,
    ensures
        ({
            let id = m.slots[i].id;
            let both = PollReplyModel::Polled { partition_id: id, messages: old + new };
            let alone = PollReplyModel::Polled { partition_id: id, messages: new };
            &&& with_poll(m, i, both, now) == with_poll(m, i, alone, now)
            &&& poll_stop(m, i, both) == poll_stop(m, i, alone)
        }),
{
    let slot = answered(m.slots[i]);
    lemma_old_skipped(slot, old);
    lemma_absorb_append(slot, old, new);
    assert(batch(m, old + new) == old + new);
    assert(batch(m, new) == new);
}

/// A poll whose records leave a gap, at the start or further on, fails the source for good: what
/// came in row before the gap is kept, and nothing from the gap on is.
pub proof fn law_gaps_are_never_crossed(
    m: SourceModel,
    i: int,
    row: Seq<MessageModel>,
    beyond: Seq<MessageModel>,
    now: u64,
)
    requires
        m.wf(),
        now <= MAX_NOW,
        0 <= i < m.slots.len(),
        is_empty_handed(m.slots[i]),
        row.len() > 0,
        in_row(row, starts_at(m.slots[i], row)),
        beyond.len() > 0,
        beyond[0].offset > row.last().offset + 1,
        row.len() + beyond.len() <= m.batch_length,
    ensures
        ({
            let reply = PollReplyModel::Polled {
                partition_id: m.slots[i].id,
                messages: row + beyond,
            };
            let slot = with_poll(m, i, reply, now).slots[i];
            &&& poll_stop(m, i, reply) matches Some(Stop::Failed(error)) && error.kind is OffsetGap
                && error.failure_kind is Permanent && error.code is None
            &&& slot.buffer == row
            &&& slot.next is Some && slot.next->Some_0 == row.last().offset + 1
        }),
{
    let slot = answered(m.slots[i]);
    let first = starts_at(m.slots[i], row);
    assert(m.slots[i].wf());
    lemma_row_absorbed(slot, row, first);
    lemma_absorb_append(slot, row, beyond);
    let reached = absorb(slot, row)->Ok_0;
    lemma_gap_first(reached, beyond);
    assert(batch(m, row + beyond) == row + beyond);
}

proof fn lemma_gap_first(slot: SlotModel, messages: Seq<MessageModel>)
    requires
        messages.len() > 0,
        slot.next is Some,
        messages[0].offset > slot.next->Some_0,
    ensures
        absorb(slot, messages) == Err::<SlotModel, _>(slot),
    decreases messages.len(),
{
    if messages.len() == 1 {
        assert(messages.drop_last() =~= seq![]);
        assert(absorb(slot, messages.drop_last()) == Ok::<_, SlotModel>(slot));
    } else {
        assert(messages.drop_last()[0] == messages[0]);
        lemma_gap_first(slot, messages.drop_last());
    }
}

/// Whether a reply is a fence: the server answers for another partition, or says that the client
/// does not own the partition or is no member of the group.
pub open spec fn is_fence(slot: SlotModel, reply: PollReplyModel) -> bool {
    match reply {
        PollReplyModel::Polled { partition_id, .. } => partition_id != slot.id,
        PollReplyModel::Failed { code, .. } => code == 5009 || code == 5006,
        PollReplyModel::TimedOut => false,
    }
}

/// A fence never stops the receive, shut down or not. The partition is given up with all that it
/// held, and not tried again before the next reload; a record that was out for processing is
/// withdrawn. A refresh follows at once where the partition was owned or the membership is lost.
pub proof fn law_fenced_partitions_are_given_up(
    m: SourceModel,
    i: int,
    reply: PollReplyModel,
    now: u64,
)
    requires
        m.wf(),
        0 <= i < m.slots.len(),
        is_fence(m.slots[i], reply),
    ensures
        ({
            let before = m.slots[i];
            let after = with_poll(m, i, reply, now);
            let slot = after.slots[i];
            &&& poll_stop(m, i, reply) is None
            &&& !slot.owned
            &&& slot.id == before.id
            &&& slot.next is None
            &&& slot.buffer.len() == 0
            &&& slot.unresolved is None
            &&& forall|at: u64| !#[trigger] slot.due(at)
            &&& slot.epoch != before.epoch <==> before.owned
            &&& after.withdrawn == if before.unresolved is Some {
                m.withdrawn.push(before.id)
            } else {
                m.withdrawn
            }
            &&& after.refresh_at == if before.owned || (reply matches PollReplyModel::Failed {
                code,
                ..
            } && code == 5006) {
                now
            } else {
                m.refresh_at
            }
            &&& after.slots.len() == m.slots.len()
            &&& forall|k: int|
                0 <= k < m.slots.len() && k != i ==> #[trigger] after.slots[k] == m.slots[k]
        }),
{
    assert(m.slots[i].wf());
}

/// Any other failed poll changes nothing: a client that was shut down closes the source, a timeout
/// is a transient failure, and every other error is what its code says.
pub proof fn law_failed_polls_change_nothing(
    m: SourceModel,
    i: int,
    reply: PollReplyModel,
    now: u64,
)
    requires
        !(reply is Polled),
        !is_fence(m.slots[i], reply),
    ensures
        with_poll(m, i, reply, now) == m,
        match reply {
            PollReplyModel::Failed { code, shut_down } => poll_stop(m, i, reply) == Some(
                if shut_down {
                    Stop::Closed
                } else {
                    Stop::Failed(delivery_error(code))
                },
            ),
            _ => poll_stop(m, i, reply) matches Some(Stop::Failed(error)) && error.kind is Timeout
                && error.failure_kind is Transient && error.code is None,
        },
{
}

/// A record whose store was confirmed is done with: its partition waits for nothing any more, and
/// the next buffered record, if there is one, is queued for delivery. Nothing else changes, and
/// nothing is withdrawn.
pub proof fn law_advanced_records_make_way(m: SourceModel, outcome: Outcome, now: u64, i: int)
    requires
        m.wf(),
        now <= MAX_NOW,
        0 <= i < m.slots.len(),
        m.slots[i].id == outcome.partition,
        m.slots[i].epoch == outcome.epoch,
        m.slots[i].unresolved == Some(outcome.offset),
        outcome.advanced,
    ensures
        ({
            let after = with_outcome(m, outcome, now);
            &&& after.slots.len() == m.slots.len()
            &&& after.slots[i] == (SlotModel { unresolved: None, ..m.slots[i] })
            &&& forall|k: int|
                0 <= k < m.slots.len() && k != i ==> #[trigger] after.slots[k] == m.slots[k]
            &&& after.withdrawn == m.withdrawn
            &&& after.refresh_at == m.refresh_at
            &&& m.slots[i].buffer.len() > 0 ==> after.slots[i].deliverable() && after.ready
                == m.ready.push(i as usize)
            &&& m.slots[i].buffer.len() == 0 ==> after.ready == m.ready
        }),
{
    lemma_index_of(m.slots, outcome.partition);
    assert(m.slots[i].wf());
}

/// A record whose store was not confirmed starts a new epoch of its partition, so that whatever is
/// still reported of the old one is ignored, and changes no other partition.
pub proof fn law_withdrawals_start_a_new_epoch(m: SourceModel, outcome: Outcome, now: u64, i: int)
    requires
        m.wf(),
        now <= MAX_NOW,
        0 <= i < m.slots.len(),
        m.slots[i].id == outcome.partition,
        m.slots[i].epoch == outcome.epoch,
        m.slots[i].unresolved == Some(outcome.offset),
        !outcome.advanced,
    ensures
        ({
            let after = with_outcome(m, outcome, now);
            &&& after.slots.len() == m.slots.len()
            &&& after.slots[i].owned
            &&& after.slots[i].epoch != m.slots[i].epoch
            &&& with_outcome(after, outcome, now) == after
            &&& forall|k: int|
                0 <= k < m.slots.len() && k != i ==> #[trigger] after.slots[k] == m.slots[k]
            &&& after.ready == m.ready
            &&& after.refresh_at == m.refresh_at
        }),
{
    lemma_index_of(m.slots, outcome.partition);
    assert(m.slots[i].wf());
    let after = with_outcome(m, outcome, now);
    crate::provider::source::model::lemma_outcome_keeps(m, outcome, now);
    lemma_index_of(after.slots, outcome.partition);
    assert(after.slots[i].id == outcome.partition);
}

/// The ids of the partitions whose record is out for processing, in id order.
pub open spec fn out_for_processing(slots: Seq<SlotModel>) -> Seq<u32>
    decreases slots.len(),
{
    if slots.len() == 0 {
        seq![]
    } else if slots.last().unresolved is Some {
        out_for_processing(slots.drop_last()).push(slots.last().id)
    } else {
        out_for_processing(slots.drop_last())
    }
}

proof fn lemma_expelled(m: SourceModel, k: int)
    requires
        m.wf(),
        0 <= k <= m.slots.len(),
    ensures
        ({
            let after = with_releases(m, k);
            &&& after == (SourceModel {
                slots: after.slots,
                withdrawn: m.withdrawn + out_for_processing(m.slots.take(k)),
                ..m
            })
            &&& after.slots.len() == m.slots.len()
            &&& forall|i: int| 0 <= i < k ==> is_given_up(m.slots[i], #[trigger] after.slots[i])
            &&& forall|i: int|
                k <= i < m.slots.len() ==> #[trigger] after.slots[i] == m.slots[i]
        }),
    decreases k,
{
    if k == 0 {
        assert(m.slots.take(0) =~= seq![]);
        assert(m.withdrawn + out_for_processing(m.slots.take(0)) =~= m.withdrawn);
    } else {
        let before = with_releases(m, k - 1);
        let after = with_releases(m, k);
        lemma_expelled(m, k - 1);
        assert(m.slots.take(k).drop_last() =~= m.slots.take(k - 1));
        assert(m.slots.take(k).last() == m.slots[k - 1]);
        assert(before.slots[k - 1] == m.slots[k - 1]);
        assert(m.slots[k - 1].wf());
        assert(after.withdrawn =~= m.withdrawn + out_for_processing(m.slots.take(k)));
        assert forall|i: int| 0 <= i < k implies is_given_up(
            m.slots[i],
            #[trigger] after.slots[i],
        ) by {
            if i < k - 1 {
                assert(after.slots[i] == before.slots[i]);
            }
        }
        assert forall|i: int| k <= i < m.slots.len() implies #[trigger] after.slots[i]
            == m.slots[i] by {
            assert(after.slots[i] == before.slots[i]);
        }
    }
}

/// A partition that is not owned any more: it holds nothing, and one that was owned is in a new
/// epoch.
pub open spec fn is_given_up(before: SlotModel, after: SlotModel) -> bool {
    &&& after.id == before.id
    &&& !after.owned
    &&& after.next is None
    &&& after.buffer.len() == 0
    &&& after.unresolved is None
    &&& after.not_before is None
    &&& after.probe_due == before.probe_due
    &&& after.epoch == before.epoch <==> !before.owned
}

/// A refresh that does not find the source's own group among the client's memberships gives up
/// every partition and joins again; the records that were out for processing are withdrawn, in id
/// order. One that finds it changes nothing and goes on to reload the partitions.
pub proof fn law_lost_membership_gives_up_everything(
    m: SourceModel,
    resolved: Resolved,
    groups: Vec<Membership>,
    now: u64,
)
    requires
        m.wf(),
        m.opened == Some(resolved),
    ensures
        ({
            let reply = RefreshReply::Client(groups);
            let own = Membership {
                stream: resolved.stream,
                topic: resolved.topic,
                group: resolved.group,
            };
            let after = with_refresh(m, reply, now);
            if groups@.contains(own) {
                after == m && refresh_next(m, reply) == RefreshStep::Next(Refreshing::Topic)
            } else {
                &&& refresh_next(m, reply) == RefreshStep::Next(Refreshing::Rejoin)
                &&& after.slots.len() == m.slots.len()
                &&& forall|i: int|
                    0 <= i < m.slots.len() ==> is_given_up(m.slots[i], #[trigger] after.slots[i])
                &&& after.withdrawn == m.withdrawn + out_for_processing(m.slots)
                &&& after.refresh_at == m.refresh_at
                &&& after.opened == m.opened
                &&& after.closed == m.closed
            }
        }),
{
    let own = Membership { stream: resolved.stream, topic: resolved.topic, group: resolved.group };
    lemma_expelled(m, m.slots.len() as int);
    assert(m.slots.take(m.slots.len() as int) =~= m.slots);
    if groups@.contains(own) {
        let i = choose|i: int| 0 <= i < groups@.len() && groups@[i] == own;
        assert(groups@[i].stream == resolved.stream);
    } else if is_member(resolved, groups@) {
        let i = choose|i: int|
            0 <= i < groups@.len() && (#[trigger] groups@[i]).stream == resolved.stream
                && groups@[i].topic == resolved.topic && groups@[i].group == resolved.group;
        assert(groups@[i] == own);
    }
}

/// The other turns of a refresh: a member that joined again reloads the partitions, a topic that is
/// gone fails the source for good, and a request that stopped ends the refresh as it stopped. None
/// of them changes anything.
pub proof fn law_refresh_turns(m: SourceModel, stop: Stop, now: u64)
    ensures
        refresh_next(m, RefreshReply::Joined) == RefreshStep::Next(Refreshing::Topic),
        refresh_next(m, RefreshReply::Topic(None)) matches RefreshStep::Stopped(Stop::Failed(error))
            && error.kind is NotFound && error.failure_kind is Permanent && error.code is None,
        refresh_next(m, RefreshReply::Stopped(stop)) == RefreshStep::Stopped(stop),
        with_refresh(m, RefreshReply::Joined, now) == m,
        with_refresh(m, RefreshReply::Topic(None), now) == m,
        with_refresh(m, RefreshReply::Stopped(stop), now) == m,
{
}

/// Opening fails exactly on a client that is not connected, on a stream, topic or group that does
/// not exist, and on a request that stopped. A missing one is permanent; a client that is not
/// connected, or was shut down, can be replaced, so that is transient.
pub proof fn law_opening_fails_for_cause(reply: OpenReply)
    ensures
        match reply {
            OpenReply::Session(connected) => if connected {
                open_failure(reply) is None
            } else {
                open_failure(reply) matches Some(error) && error.kind is Disconnected
                    && error.failure_kind is Transient && error.code is None
            },
            OpenReply::Stream(found) => open_failure(reply) is None <==> found is Some,
            OpenReply::Topic(found) => open_failure(reply) is None <==> found is Some,
            OpenReply::Group(found) => open_failure(reply) is None <==> found is Some,
            OpenReply::Joined => open_failure(reply) is None,
            OpenReply::Stopped(Stop::Failed(error)) => open_failure(reply) == Some(error),
            OpenReply::Stopped(Stop::Closed) => open_failure(reply) matches Some(error)
                && error.kind is Disconnected && error.failure_kind is Transient && error.code
                is None,
        },
        (reply is Stream || reply is Topic || reply is Group) && open_failure(reply) is Some ==> {
            let error = open_failure(reply)->Some_0;
            error.kind is NotFound && error.failure_kind is Permanent && error.code is None
        },
{
}

/// An opening that goes through asks for the session, the stream, the topic and the group, in this
/// order, and joins the group with just the ids and the partitions that it was told.
pub proof fn law_opening_keeps_what_it_finds(
    stream: u32,
    topic: u32,
    group: u32,
    partitions: Vec<u32>,
    second: Opening,
    third: Opening,
    fourth: Opening,
    last: Opening,
)
    requires
        follows(Opening::Session, OpenReply::Session(true), second),
        follows(second, OpenReply::Stream(Some(stream)), third),
        follows(third, OpenReply::Topic(Some((topic, partitions))), fourth),
        follows(fourth, OpenReply::Group(Some(group)), last),
    ensures
        second is Stream,
        third is Topic,
        fourth is Group,
        last == (Opening::Joining { resolved: Resolved { stream, topic, group }, partitions }),
{
}

/// The record of a polled message has its identity and its body, and no key of its own. Each header
/// whose name is text keeps its bytes; one whose name is not has an empty name, and so has the one
/// header that stands for headers that cannot be read at all.
pub proof fn law_polled_records_keep_the_message(message: MessageModel)
    ensures
        ({
            let record = polled_record(message);
            &&& record.id == message.id
            &&& record.payload == message.payload
            &&& record.key is None
            &&& match message.headers {
                Some(headers) => {
                    &&& record.headers.len() == headers.len()
                    &&& forall|i: int|
                        0 <= i < headers.len() ==> reads(
                            #[trigger] headers[i],
                            record.headers[i],
                        )
                },
                None => if message.carries_headers {
                    &&& record.headers.len() == 1
                    &&& record.headers[0].name.len() == 0
                    &&& record.headers[0].value.len() > 0
                } else {
                    record.headers.len() == 0
                },
            }
        }),
{
    if let Some(headers) = message.headers {
        let record = polled_record(message);
        assert forall|i: int| 0 <= i < headers.len() implies reads(
            #[trigger] headers[i],
            record.headers[i],
        ) by {
            assert(record.headers[i] == wire_header(headers[i]));
            if valid_utf8(headers[i].key) {
                decode_utf8_encode_utf8(headers[i].key);
            }
        }
    }
}

/// A wire header that an SDK header is read as.
pub open spec fn reads(header: SdkHeader, wire: WireHeader) -> bool {
    if valid_utf8(header.key) {
        bytes_of(wire.name) == header.key && wire.value == header.value
    } else {
        wire.name.len() == 0
    }
}

/// An outcome that is not about the record its partition waits for changes nothing: one of a
/// partition that is not known, of another epoch, or of another offset.
pub proof fn law_other_outcomes_are_ignored(m: SourceModel, outcome: Outcome, now: u64)
    requires
        m.wf(),
        forall|i: int|
            0 <= i < m.slots.len() && (#[trigger] m.slots[i]).id == outcome.partition
                ==> m.slots[i].epoch != outcome.epoch || m.slots[i].unresolved != Some(
                outcome.offset,
            ),
    ensures
        with_outcome(m, outcome, now) == m,
{
    lemma_index_of(m.slots, outcome.partition);
}

/// A receive on an open source takes in every outcome that was reported, one by one and in their
/// order, before it decides what to do. On a closed source it reports the close and changes
/// nothing.
pub proof fn law_receives_take_every_outcome_first(
    m: SourceModel,
    outcomes: Seq<Outcome>,
    last: Outcome,
    now: u64,
    step: ReceiveStep,
    after: SourceModel,
)
    ensures
        with_outcomes(m, seq![], now) == m,
        with_outcomes(m, outcomes.push(last), now) == with_outcome(
            with_outcomes(m, outcomes, now),
            last,
            now,
        ),
        !m.closed ==> (next_receive(m, outcomes, now, step, after) <==> receives(
            with_outcomes(m, outcomes, now),
            now,
            step,
            after,
        )),
        m.closed && next_receive(m, outcomes, now, step, after) ==> step is Closed && after == m,
{
    assert(outcomes.push(last).drop_last() =~= outcomes);
}

/// Records are delivered in the order in which their partitions were queued: the one that is
/// delivered comes from the first queued partition that has one, and the queue goes on behind it.
pub proof fn law_deliveries_follow_the_queue(m: SourceModel)
    requires
        m.wf(),
        first_deliverable(m) is Some,
    ensures
        exists|k: int|
            {
                &&& 0 <= k < m.ready.len()
                &&& #[trigger] m.ready[k] == first_deliverable(m)->Some_0
                &&& forall|j: int|
                    0 <= j < k ==> !m.slots[#[trigger] m.ready[j] as int].deliverable()
                &&& with_delivery(m).ready == m.ready.skip(k + 1)
            },
    decreases m.ready.len(),
{
    if m.slots[m.ready[0] as int].deliverable() {
        assert(m.ready[0] == first_deliverable(m)->Some_0);
    } else {
        let rest = SourceModel { ready: m.ready.skip(1), ..m };
        crate::provider::source::model::lemma_drop_entry(m);
        law_deliveries_follow_the_queue(rest);
        let k = choose|k: int|
            {
                &&& 0 <= k < rest.ready.len()
                &&& #[trigger] rest.ready[k] == first_deliverable(rest)->Some_0
                &&& forall|j: int|
                    0 <= j < k ==> !rest.slots[#[trigger] rest.ready[j] as int].deliverable()
                &&& with_delivery(rest).ready == rest.ready.skip(k + 1)
            };
        assert(m.ready[k + 1] == rest.ready[k]);
        assert forall|j: int| 0 <= j < k + 1 implies !m.slots[#[trigger] m.ready[j]
            as int].deliverable() by {
            if j > 0 {
                assert(rest.ready[j - 1] == m.ready[j]);
            }
        }
        assert(rest.ready.skip(k + 1) =~= m.ready.skip(k + 2));
    }
}

/// A poll or a refresh that went through lets the receive go on and changes nothing more.
pub proof fn law_finished_requests_go_on(m: SourceModel)
    ensures
        step_result(Ok(())) == Ok::<_, IggyDeliveryError>(true),
        with_step_result(m, Ok(())) == m,
{
}

/// Every request of an opening and of a refresh is answered by its own kind of reply, or it stops;
/// only asking for the session cannot stop.
pub proof fn law_requests_have_their_reply(
    at: Opening,
    reply: OpenReply,
    refreshing: Refreshing,
    refreshed: RefreshReply,
)
    ensures
        answers(at, reply) <==> match reply {
            OpenReply::Session(_) => at is Session,
            OpenReply::Stream(_) => at is Stream,
            OpenReply::Topic(_) => at is Topic,
            OpenReply::Group(_) => at is Group,
            OpenReply::Joined => at is Joining,
            OpenReply::Stopped(_) => !(at is Session),
        },
        refreshes(refreshing, refreshed) <==> match refreshed {
            RefreshReply::Client(_) => refreshing is Client,
            RefreshReply::Joined => refreshing is Rejoin,
            RefreshReply::Topic(_) => refreshing is Topic,
            RefreshReply::Stopped(_) => true,
        },
{
}

/// A record that comes once more in the middle of a poll is skipped like one at its start: what
/// follows is taken as if it had not come again.
pub proof fn law_repeated_records_are_skipped(
    m: SourceModel,
    i: int,
    row: Seq<MessageModel>,
    again: MessageModel,
    rest: Seq<MessageModel>,
    now: u64,
)
    requires
        m.wf(),
        now <= MAX_NOW,
        0 <= i < m.slots.len(),
        is_empty_handed(m.slots[i]),
        row.len() > 0,
        in_row(row, starts_at(m.slots[i], row)),
        again.offset <= row.last().offset,
        row.len() + 1 + rest.len() <= m.batch_length,
    ensures
        ({
            let id = m.slots[i].id;
            let with = PollReplyModel::Polled {
                partition_id: id,
                messages: row.push(again) + rest,
            };
            let without = PollReplyModel::Polled { partition_id: id, messages: row + rest };
            &&& with_poll(m, i, with, now) == with_poll(m, i, without, now)
            &&& poll_stop(m, i, with) == poll_stop(m, i, without)
        }),
{
    let slot = answered(m.slots[i]);
    assert(m.slots[i].wf());
    lemma_row_absorbed(slot, row, starts_at(m.slots[i], row));
    lemma_absorb_append(slot, row, rest);
    lemma_absorb_append(slot, row.push(again), rest);
    assert(row.push(again).drop_last() =~= row);
    assert(absorb(slot, row.push(again)) == absorb(slot, row));
    assert(batch(m, row.push(again) + rest) == row.push(again) + rest);
    assert(batch(m, row + rest) == row + rest);
}

/// A record at the last offset there is has no successor to go on from: a poll that brings it fails
/// the source for good and takes nothing of it.
pub proof fn law_last_offset_is_never_taken(
    m: SourceModel,
    i: int,
    message: MessageModel,
    now: u64,
)
    requires
        m.wf(),
        now <= MAX_NOW,
        0 <= i < m.slots.len(),
        is_empty_handed(m.slots[i]),
        message.offset == u64::MAX,
    ensures
        ({
            let reply = PollReplyModel::Polled {
                partition_id: m.slots[i].id,
                messages: seq![message],
            };
            &&& poll_stop(m, i, reply) matches Some(Stop::Failed(error)) && error.kind is OffsetGap
                && error.failure_kind is Permanent
            &&& with_poll(m, i, reply, now).slots[i].buffer.len() == 0
        }),
{
    let slot = answered(m.slots[i]);
    let messages = seq![message];
    assert(m.slots[i].wf());
    assert(batch(m, messages) =~= messages);
    assert(messages.drop_last() =~= seq![]);
    assert(absorb(slot, messages.drop_last()) == Ok::<_, SlotModel>(slot));
}

} // verus!
