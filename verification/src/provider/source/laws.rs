//! What holds of a delivery source whatever the server and the settlements do.
//!
//! The position of a partition is the offset of its first record that is not resolved. It only
//! moves forward past a record whose settlement confirmed the store, so no record is skipped, and
//! a withdrawn record is replayed from its own offset.

use crate::failure::FailureKind;
use crate::provider::code::{
    CONSUMER_GROUP_MEMBER_NOT_FOUND, CONSUMER_GROUP_PARTITION_NOT_OWNED,
};
use crate::provider::error::{
    delivery_error, plain_error, IggyDeliveryError, IggyDeliveryErrorKind,
};
use crate::provider::sdk::MessageModel;
use crate::provider::source::model::{
    absorb, answered, batch, delivered_slot, first_deliverable, is_current, lemma_absorb_keeps,
    lemma_index_of, offset_gap, poll_stop, stop_of, timed_out, with_delivery, with_fence,
    with_outcome, with_outcomes, with_poll, with_polled, withdrawn_slot, Outcome, PollReplyModel,
    SourceModel, MAX_NOW,
};
use crate::provider::source::slot::{gained, released, SlotModel};
use crate::provider::source::state::{next_receive, step_result, with_step_result, ReceiveStep};
use vstd::prelude::*;

verus! {

/// A settlement outcome moves a partition only past the very record that it advanced; every other
/// partition, and every partition on any other outcome, stays where it is.
pub proof fn law_outcome_position(m: SourceModel, outcome: Outcome, now: u64, i: int)
    requires
        m.wf(),
        now <= MAX_NOW,
        0 <= i < m.slots.len(),
    ensures
        ({
            let before = m.slots[i];
            let after = with_outcome(m, outcome, now).slots[i];
            if before.id == outcome.partition && is_current(before, outcome) && outcome.advanced {
                before.position() == Some(outcome.offset) && after.position() is Some
                    && after.position()->Some_0 == outcome.offset + 1
            } else {
                after.position() == before.position()
            }
        }),
{
    lemma_index_of(m.slots, outcome.partition);
    assert(m.slots[i].wf());
}

/// An outcome from an earlier epoch, or for a record that is not the one its partition waits for,
/// changes nothing at all.
pub proof fn law_stale_outcome_is_ignored(m: SourceModel, outcome: Outcome, now: u64)
    requires
        m.wf(),
        forall|i: int|
            0 <= i < m.slots.len() && (#[trigger] m.slots[i]).id == outcome.partition
                ==> !is_current(m.slots[i], outcome),
    ensures
        with_outcome(m, outcome, now) == m,
{
    lemma_index_of(m.slots, outcome.partition);
}

/// Losing, regaining, or withdrawing starts a new epoch, so an outcome of the epoch before is not
/// current any more, even for the same offset.
pub proof fn law_new_epoch_outdates_settlements(
    slot: SlotModel,
    later: SlotModel,
    outcome: Outcome,
    offset: u64,
    not_before: u64,
)
    requires
        outcome.epoch == slot.epoch,
        later.epoch == released(slot).epoch || later.epoch == gained(slot).epoch || later.epoch
            == withdrawn_slot(slot, offset, not_before).epoch,
    ensures
        !is_current(later, outcome),
{
}

/// A record is delivered only from a partition without an unresolved record, it is the record at
/// the partition's position, and delivering moves no partition. So each partition is delivered in
/// offset order with at most one unresolved record.
pub proof fn law_delivery_in_order(m: SourceModel)
    requires
        m.wf(),
    ensures
        first_deliverable(m) matches Some(i) ==> {
            let slot = m.slots[i];
            &&& 0 <= i < m.slots.len()
            &&& slot.owned
            &&& slot.unresolved is None
            &&& slot.position() == Some(slot.buffer[0].offset)
            &&& with_delivery(m).slots == m.slots.update(i, delivered_slot(slot))
            &&& delivered_slot(slot).unresolved == slot.position()
            &&& delivered_slot(slot).position() == slot.position()
        },
        first_deliverable(m) is None ==> with_delivery(m).slots == m.slots,
    decreases m.ready.len(),
{
    if m.ready.len() > 0 && !m.slots[m.ready[0] as int].deliverable() {
        crate::provider::source::model::lemma_drop_entry(m);
        law_delivery_in_order(SourceModel { ready: m.ready.skip(1), ..m });
    }
}

/// A poll moves no partition forward: the polled one stays where it is or is lost, and gets a
/// position from the poll only if it had none. The others are untouched.
pub proof fn law_poll_position(m: SourceModel, i: int, reply: PollReplyModel, now: u64, k: int)
    requires
        m.wf(),
        now <= MAX_NOW,
        0 <= i < m.slots.len(),
        0 <= k < m.slots.len(),
    ensures
        ({
            let before = m.slots[k];
            let after = with_poll(m, i, reply, now).slots[k];
            if k != i {
                after == before
            } else {
                before.position() is Some ==> after.position() == before.position()
                    || after.position() is None
            }
        }),
{
    assert(m.slots[i].wf());
    if let PollReplyModel::Polled { partition_id, messages } = reply {
        if partition_id == m.slots[i].id {
            let slot = answered(m.slots[i]);
            assert(slot.wf());
            lemma_absorb_keeps(slot, batch(m, messages));
        }
    }
}

/// A poll that answers an owned partition with a record past its position delivers nothing and
/// fails the source: it never skips forward over a record that it has not resolved.
pub proof fn law_gap_fails_the_source(
    m: SourceModel,
    i: int,
    partition_id: u32,
    messages: Seq<MessageModel>,
    now: u64,
)
    requires
        m.wf(),
        now <= MAX_NOW,
        0 <= i < m.slots.len(),
        m.slots[i].idle(),
        m.slots[i].next is Some,
        partition_id == m.slots[i].id,
        messages.len() > 0,
        messages[0].offset > m.slots[i].next->Some_0,
    ensures
        ({
            let reply = PollReplyModel::Polled { partition_id, messages };
            let after = with_poll(m, i, reply, now).slots[i];
            &&& poll_stop(m, i, reply) == Some(offset_gap())
            &&& after.position() == m.slots[i].position()
            &&& after.buffer.len() == 0
        }),
{
    let slot = answered(m.slots[i]);
    let taken = batch(m, messages);
    assert(taken[0] == messages[0]);
    lemma_first_gap(slot, taken);
}

proof fn lemma_first_gap(slot: SlotModel, polled: Seq<MessageModel>)
    requires
        polled.len() > 0,
        slot.next is Some,
        polled[0].offset > slot.next->Some_0,
    ensures
        absorb(slot, polled) == Err::<SlotModel, _>(slot),
    decreases polled.len(),
{
    if polled.len() == 1 {
        assert(polled.drop_last() =~= seq![]);
        assert(absorb(slot, polled.drop_last()) == Ok::<_, SlotModel>(slot));
    } else {
        assert(polled.drop_last()[0] == polled[0]);
        lemma_first_gap(slot, polled.drop_last());
    }
}

/// A record whose advance is indeterminate is withdrawn: its partition is reported, and the next
/// poll of the partition replays the record from its own offset, one poll interval later and no
/// sooner.
pub proof fn law_withdrawn_record_is_replayed(m: SourceModel, outcome: Outcome, now: u64, i: int)
    requires
        m.wf(),
        now <= MAX_NOW,
        0 <= i < m.slots.len(),
        m.slots[i].owned,
        m.slots[i].id == outcome.partition,
        is_current(m.slots[i], outcome),
        !outcome.advanced,
    ensures
        ({
            let after = with_outcome(m, outcome, now);
            let slot = after.slots[i];
            &&& after.withdrawn == m.withdrawn.push(outcome.partition)
            &&& slot.next == Some(outcome.offset)
            &&& slot.buffer.len() == 0
            &&& slot.unresolved is None
            &&& forall|at: u64| #[trigger] slot.due(at) <==> at >= now + m.poll_interval
        }),
{
    lemma_index_of(m.slots, outcome.partition);
}

/// A poll of a partition that holds nothing buffers at most one batch.
pub proof fn law_buffer_holds_one_batch(
    m: SourceModel,
    i: int,
    messages: Seq<MessageModel>,
    now: u64,
)
    requires
        m.wf(),
        now <= MAX_NOW,
        0 <= i < m.slots.len(),
        m.slots[i].buffer.len() == 0,
    ensures
        with_polled(m, i, messages, now).slots[i].buffer.len() <= m.batch_length,
{
    assert(m.slots[i].wf());
    let slot = answered(m.slots[i]);
    lemma_absorb_keeps(slot, batch(m, messages));
}

/// A partition that the server fences is given up: whatever it held is forgotten, and a record
/// that was out for processing is withdrawn.
pub proof fn law_fence_gives_up_the_partition(m: SourceModel, i: int, now: u64)
    requires
        m.wf(),
        0 <= i < m.slots.len(),
    ensures
        ({
            let after = with_fence(m, i, now);
            &&& !after.slots[i].owned
            &&& after.slots[i].buffer.len() == 0
            &&& after.slots[i].unresolved is None
            &&& !after.slots[i].probe_due
            &&& m.slots[i].owned ==> after.refresh_at == now
            &&& m.slots[i].unresolved is Some ==> after.withdrawn == m.withdrawn.push(m.slots[i].id)
        }),
{
    assert(m.slots[i].wf());
}

/// A row of receives: each takes the settlement outcomes since the last one and leaves the state
/// that the next one starts from.
pub open spec fn are_receives(
    states: Seq<SourceModel>,
    outcomes: Seq<Seq<Outcome>>,
    times: Seq<u64>,
    steps: Seq<ReceiveStep>,
) -> bool {
    &&& states.len() == steps.len() + 1
    &&& outcomes.len() == steps.len()
    &&& times.len() == steps.len()
    &&& forall|k: int|
        0 <= k < steps.len() ==> next_receive(
            states[k],
            outcomes[k],
            times[k],
            #[trigger] steps[k],
            states[k + 1],
        )
}

/// A request that fails on a client that was shut down closes the source, unless the server fenced
/// it first; every receive after that reports the close and makes no request.
pub proof fn law_shutdown_closes_the_source(
    m: SourceModel,
    i: int,
    code: u32,
    states: Seq<SourceModel>,
    outcomes: Seq<Seq<Outcome>>,
    times: Seq<u64>,
    steps: Seq<ReceiveStep>,
    k: int,
)
    requires
        code != CONSUMER_GROUP_PARTITION_NOT_OWNED,
        code != CONSUMER_GROUP_MEMBER_NOT_FOUND,
        are_receives(states, outcomes, times, steps),
        states[0] == with_step_result(m, Err(stop_of(code, true))),
        0 <= k < steps.len(),
    ensures
        poll_stop(m, i, PollReplyModel::Failed { code, shut_down: true }) == Some(
            stop_of(code, true),
        ),
        step_result(Err(stop_of(code, true))) == Ok::<_, IggyDeliveryError>(false),
        states[0].closed,
        steps[k] is Closed,
        states[k + 1] == states[0],
    decreases k,
{
    assert(next_receive(states[k], outcomes[k], times[k], steps[k], states[k + 1]));
    if k > 0 {
        law_shutdown_closes_the_source(m, i, code, states, outcomes, times, steps, k - 1);
    }
}

/// Nothing but a shutdown closes the source: any other error, and a request that times out, is
/// reported as a failure and leaves the source open, and an open source never reports a close.
pub proof fn law_other_failures_are_errors(
    m: SourceModel,
    code: u32,
    outcomes: Seq<Outcome>,
    now: u64,
    step: ReceiveStep,
    after: SourceModel,
)
    ensures
        step_result(Err(stop_of(code, false))) == Err::<bool, _>(delivery_error(code)),
        step_result(Err(timed_out())) == Err::<bool, _>(
            plain_error(IggyDeliveryErrorKind::Timeout, FailureKind::Transient),
        ),
        with_step_result(m, Err(stop_of(code, false))) == m,
        with_step_result(m, Err(timed_out())) == m,
        !m.closed && next_receive(m, outcomes, now, step, after) ==> !(step is Closed),
{
}

proof fn lemma_outcomes_keep_withdrawals(m: SourceModel, outcomes: Seq<Outcome>, now: u64)
    ensures
        with_outcomes(m, outcomes, now).closed == m.closed,
        with_outcomes(m, outcomes, now).withdrawn.len() >= m.withdrawn.len(),
        with_outcomes(m, outcomes, now).withdrawn.take(m.withdrawn.len() as int) == m.withdrawn,
    decreases outcomes.len(),
{
    if outcomes.len() == 0 {
        assert(m.withdrawn.take(m.withdrawn.len() as int) =~= m.withdrawn);
    } else {
        let before = with_outcomes(m, outcomes.drop_last(), now);
        let after = with_outcomes(m, outcomes, now);
        lemma_outcomes_keep_withdrawals(m, outcomes.drop_last(), now);
        assert(after.withdrawn.take(m.withdrawn.len() as int) =~= before.withdrawn.take(
            m.withdrawn.len() as int,
        ));
    }
}

/// Withdrawn partitions are reported in their order, one by each receive, before any further record
/// is delivered and before any request is made.
pub proof fn law_withdrawals_come_first(
    states: Seq<SourceModel>,
    outcomes: Seq<Seq<Outcome>>,
    times: Seq<u64>,
    steps: Seq<ReceiveStep>,
    k: int,
)
    requires
        are_receives(states, outcomes, times, steps),
        !states[0].closed,
        0 <= k < states[0].withdrawn.len(),
        k < steps.len(),
    ensures
        steps[k] == ReceiveStep::OwnershipLost(states[0].withdrawn[k]),
        !states[k + 1].closed,
        states[k + 1].withdrawn.len() >= states[0].withdrawn.len() - (k + 1),
        states[k + 1].withdrawn.take(states[0].withdrawn.len() - (k + 1))
            == states[0].withdrawn.skip(k + 1),
    decreases k,
{
    let pending = states[0].withdrawn;
    let left = pending.len() - k;
    if k > 0 {
        law_withdrawals_come_first(states, outcomes, times, steps, k - 1);
    } else {
        assert(states[0].withdrawn.take(left) =~= pending.skip(0));
    }
    let at = states[k];
    assert(at.withdrawn.take(left) == pending.skip(k));
    assert(next_receive(at, outcomes[k], times[k], steps[k], states[k + 1]));
    lemma_outcomes_keep_withdrawals(at, outcomes[k], times[k]);
    let taken = with_outcomes(at, outcomes[k], times[k]);
    assert(taken.withdrawn[0] == taken.withdrawn.take(at.withdrawn.len() as int)[0]);
    assert(at.withdrawn[0] == at.withdrawn.take(left)[0]);
    assert(pending.skip(k)[0] == pending[k]);
    let rest = states[k + 1].withdrawn.take(left - 1);
    assert forall|j: int| 0 <= j < rest.len() implies #[trigger] rest[j] == pending.skip(
        k + 1,
    )[j] by {
        assert(rest[j] == taken.withdrawn[j + 1]);
        assert(taken.withdrawn[j + 1] == taken.withdrawn.take(at.withdrawn.len() as int)[j + 1]);
        assert(at.withdrawn[j + 1] == at.withdrawn.take(left)[j + 1]);
        assert(pending.skip(k)[j + 1] == pending[k + 1 + j]);
    }
    assert(rest =~= pending.skip(k + 1));
}

} // verus!
