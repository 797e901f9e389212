//! Local state of one topic partition.

use crate::provider::sdk::{MessageModel, PolledMessage};
use std::collections::VecDeque;
use vstd::prelude::*;

verus! {

/// Local state of one topic partition.
pub struct Slot {
    /// The partition's id.
    pub id: u32,

    /// Whether the partition's polls are answered.
    pub owned: bool,

    /// Changes whenever the partition is gained, lost, or has a record withdrawn; settlement
    /// outcomes from an earlier epoch are ignored.
    pub epoch: u64,

    /// The next offset to poll, or `None` to resume after the group's stored offset.
    pub next: Option<u64>,

    /// Polled records not yet delivered, in offset order; at most one batch.
    pub buffer: VecDeque<PolledMessage>,

    /// The delivered record whose settlement has not reported yet.
    pub unresolved: Option<u64>,

    /// The earliest time an idle owned partition is polled again.
    pub not_before: Option<u64>,

    /// Whether an unowned partition is due for an ownership probe.
    pub probe_due: bool,
}

/// A [`Slot`] as mathematical values.
#[verifier::ext_equal]
pub struct SlotModel {
    pub id: u32,
    pub owned: bool,
    pub epoch: u64,
    pub next: Option<u64>,
    pub buffer: Seq<MessageModel>,
    pub unresolved: Option<u64>,
    pub not_before: Option<u64>,
    pub probe_due: bool,
}

/// Polled messages as mathematical values.
pub open spec fn messages(polled: Seq<PolledMessage>) -> Seq<MessageModel> {
    polled.map_values(|message: PolledMessage| message@)
}

impl View for Slot {
    type V = SlotModel;

    open spec fn view(&self) -> SlotModel {
        SlotModel {
            id: self.id,
            owned: self.owned,
            epoch: self.epoch,
            next: self.next,
            buffer: messages(self.buffer@),
            unresolved: self.unresolved,
            not_before: self.not_before,
            probe_due: self.probe_due,
        }
    }
}

/// A partition that was just discovered: not owned, and due for a probe.
pub open spec fn new_slot(id: u32) -> SlotModel {
    SlotModel {
        id,
        owned: false,
        epoch: 0,
        next: None,
        buffer: seq![],
        unresolved: None,
        not_before: None,
        probe_due: true,
    }
}

/// A partition that was given up.
pub open spec fn released(slot: SlotModel) -> SlotModel {
    SlotModel {
        owned: false,
        epoch: slot.epoch.wrapping_add(1),
        next: None,
        buffer: seq![],
        unresolved: None,
        not_before: None,
        ..slot
    }
}

/// A partition whose probe was answered: owned from here on, with nothing carried over.
pub open spec fn gained(slot: SlotModel) -> SlotModel {
    SlotModel {
        owned: true,
        epoch: slot.epoch.wrapping_add(1),
        next: None,
        buffer: seq![],
        unresolved: None,
        not_before: None,
        ..slot
    }
}

/// Consecutive offsets from `first` on.
pub open spec fn consecutive(buffer: Seq<MessageModel>, first: int) -> bool {
    forall|i: int| 0 <= i < buffer.len() ==> (#[trigger] buffer[i]).offset == first + i
}

impl SlotModel {
    /// The offset of the first record that is not resolved yet: the delivered one, else the
    /// first buffered one, else the next one to poll. `None` means wherever the group's stored
    /// offset says.
    pub open spec fn position(self) -> Option<u64> {
        if self.unresolved is Some {
            self.unresolved
        } else if self.buffer.len() > 0 {
            Some(self.buffer[0].offset)
        } else {
            self.next
        }
    }

    /// The delivered record, the buffered ones, and the next one to poll are consecutive, and a
    /// partition that is not owned holds nothing.
    pub open spec fn wf(self) -> bool {
        &&& !self.owned ==> self.next is None && self.buffer.len() == 0 && self.unresolved is None
            && self.not_before is None
        &&& (self.unresolved is Some || self.buffer.len() > 0) ==> self.next is Some
        &&& self.unresolved matches Some(offset) ==> {
            &&& consecutive(self.buffer, offset + 1)
            &&& self.next->Some_0 == offset + 1 + self.buffer.len()
        }
        &&& self.unresolved is None && self.buffer.len() > 0 ==> {
            &&& consecutive(self.buffer, self.buffer[0].offset as int)
            &&& self.next->Some_0 == self.buffer[0].offset + self.buffer.len()
        }
    }

    /// A record can be delivered from the buffer.
    pub open spec fn deliverable(self) -> bool {
        self.owned && self.unresolved is None && self.buffer.len() > 0
    }

    /// The partition is owned and holds no record.
    pub open spec fn idle(self) -> bool {
        self.owned && self.buffer.len() == 0 && self.unresolved is None
    }

    /// The partition is to be polled at `now`: for records if it is owned, and otherwise to probe
    /// whether it is.
    pub open spec fn due(self, now: u64) -> bool {
        if self.owned {
            self.idle() && (self.not_before matches Some(at) ==> at <= now)
        } else {
            self.probe_due
        }
    }
}

impl Slot {
    /// A partition that was just discovered.
    pub fn new(id: u32) -> (slot: Self)
        ensures
            slot@ == new_slot(id),
            slot@.wf(),
    {
        let slot = Slot {
            id,
            owned: false,
            epoch: 0,
            next: None,
            buffer: VecDeque::new(),
            unresolved: None,
            not_before: None,
            probe_due: true,
        };
        assert(slot@.buffer =~= seq![]);
        slot
    }

    /// Gives up an owned partition.
    pub fn release(&mut self)
        ensures
            final(self)@ == released(old(self)@),
            final(self)@.wf(),
    {
        self.owned = false;
        self.epoch = self.epoch.wrapping_add(1);
        self.next = None;
        self.buffer.clear();
        self.unresolved = None;
        self.not_before = None;
        assert(self@.buffer =~= seq![]);
    }

    /// Takes an answered probe as ownership.
    pub fn gain(&mut self)
        ensures
            final(self)@ == gained(old(self)@),
            final(self)@.wf(),
    {
        self.owned = true;
        self.epoch = self.epoch.wrapping_add(1);
        self.next = None;
        self.buffer.clear();
        self.unresolved = None;
        self.not_before = None;
        assert(self@.buffer =~= seq![]);
    }

    /// Whether the partition is to be polled at `now`.
    pub fn is_due(&self, now: u64) -> (due: bool)
        ensures
            due == self@.due(now),
    {
        if self.owned {
            self.buffer.len() == 0 && self.unresolved.is_none() && match self.not_before {
                Some(at) => at <= now,
                None => true,
            }
        } else {
            self.probe_due
        }
    }

    /// Whether a record can be delivered from the buffer.
    pub fn is_deliverable(&self) -> (deliverable: bool)
        ensures
            deliverable == self@.deliverable(),
    {
        self.owned && self.unresolved.is_none() && self.buffer.len() > 0
    }
}

} // verus!
