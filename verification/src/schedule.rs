//! Time slots: auto-numbered, half-open `[start_time, end_time)` windows,
//! of which no two of the same professional may overlap.

use vstd::prelude::*;
use crate::types::ChronoPayError;

verus! {

/// A booked time slot.
#[derive(Debug)]
pub struct TimeSlot {
    /// The id the slot was assigned.
    pub slot_id: u32,
    /// The professional that offers the slot.
    pub professional: String,
    /// First instant of the slot.
    pub start_time: u64,
    /// First instant after the slot.
    pub end_time: u64,
}

impl Clone for TimeSlot {
    fn clone(&self) -> (res: Self)
        ensures
            res == *self,
    {
        TimeSlot {
            slot_id: self.slot_id,
            professional: self.professional.clone(),
            start_time: self.start_time,
            end_time: self.end_time,
        }
    }
}

/// Two half-open windows `[a_start, a_end)` and `[b_start, b_end)` share an instant.
pub open spec fn windows_overlap(a_start: u64, a_end: u64, b_start: u64, b_end: u64) -> bool {
    a_start < b_end && b_start < a_end
}

/// Some slot of `professional` in `slots` overlaps `[start_time, end_time)`.
pub open spec fn conflicts_with(
    slots: Seq<TimeSlot>,
    professional: Seq<char>,
    start_time: u64,
    end_time: u64,
) -> bool {
    exists|i: int|
        0 <= i < slots.len() && (#[trigger] slots[i]).professional@ == professional
            && windows_overlap(slots[i].start_time, slots[i].end_time, start_time, end_time)
}

/// No two slots of the same professional overlap.
pub open spec fn no_overlaps(slots: Seq<TimeSlot>) -> bool {
    forall|i: int, j: int|
        0 <= i < j < slots.len() && (#[trigger] slots[i]).professional@ == (#[trigger] slots[j]).professional@
            ==> !windows_overlap(slots[i].start_time, slots[i].end_time, slots[j].start_time, slots[j].end_time)
}

/// What booking `[start_time, end_time)` for `professional` answers, given the
/// current slot counter and slots: the new slot id, or why it is refused.
pub open spec fn booking_result(
    slot_seq: u32,
    slots: Seq<TimeSlot>,
    professional: Seq<char>,
    start_time: u64,
    end_time: u64,
) -> Result<u32, ChronoPayError> {
    if start_time >= end_time {
        Err(ChronoPayError::InvalidInput)
    } else if conflicts_with(slots, professional, start_time, end_time) {
        Err(ChronoPayError::InvalidInput)
    } else if slot_seq == u32::MAX {
        Err(ChronoPayError::InvalidInput)
    } else {
        Ok((slot_seq + 1) as u32)
    }
}

/// What the slot book holds: the slot counter and the booked slots.
pub struct ScheduleModel {
    /// The id of the last slot created (0 before the first).
    pub slot_seq: u32,
    /// The booked slots, oldest first.
    pub slots: Seq<TimeSlot>,
}

/// The slot book: the slot counter and every slot booked so far. No two
/// slots of the same professional overlap.
pub struct SlotSchedule {
    slot_seq: u32,
    slots: Vec<TimeSlot>,
}

/// A new slot of `professional` that overlaps none of theirs keeps the book
/// free of overlaps.
pub proof fn lemma_booking_keeps_no_overlaps(slots: Seq<TimeSlot>, slot: TimeSlot)
    requires
        no_overlaps(slots),
        !conflicts_with(slots, slot.professional@, slot.start_time, slot.end_time),
    ensures
        no_overlaps(slots.push(slot)),
{
    let s = slots.push(slot);
    assert forall|i: int, j: int|
        0 <= i < j < s.len() && (#[trigger] s[i]).professional@ == (#[trigger] s[j]).professional@
            implies !windows_overlap(s[i].start_time, s[i].end_time, s[j].start_time, s[j].end_time) by {
        assert(s[i] == slots[i]);
        if j < slots.len() {
            assert(s[j] == slots[j]);
        } else {
            assert(s[j] == slot);
            assert(!((slots[i]).professional@ == slot.professional@ && windows_overlap(
                slots[i].start_time,
                slots[i].end_time,
                slot.start_time,
                slot.end_time,
            )));
        }
    }
}

impl View for SlotSchedule {
    type V = ScheduleModel;

    closed spec fn view(&self) -> ScheduleModel {
        ScheduleModel { slot_seq: self.slot_seq, slots: self.slots@ }
    }
}

impl SlotSchedule {
    /// No two slots of the same professional overlap.
    #[verifier::type_invariant]
    pub open spec fn well_formed(&self) -> bool {
        no_overlaps(self@.slots)
    }

    /// An empty book whose first slot will get id 1.
    pub fn new() -> (s: Self)
        ensures
            s@.slot_seq == 0,
            s@.slots == Seq::<TimeSlot>::empty(),
    {
        SlotSchedule { slot_seq: 0, slots: Vec::new() }
    }

    /// A book with the given counter and slots; `None` when two slots of the
    /// same professional overlap.
    pub fn from_parts(slot_seq: u32, slots: Vec<TimeSlot>) -> (r: Option<Self>)
        ensures
            r is Some <==> no_overlaps(slots@),
            r matches Some(b) ==> b@.slot_seq == slot_seq && b@.slots == slots@,
    {
        let n = slots.len();
        let mut j: usize = 0;
        while j < n
            invariant
                n == slots@.len(),
                j <= n,
                forall|a: int, b: int|
                    0 <= a < b < j && (#[trigger] slots@[a]).professional@ == (
                    #[trigger] slots@[b]).professional@ ==> !windows_overlap(
                        slots@[a].start_time,
                        slots@[a].end_time,
                        slots@[b].start_time,
                        slots@[b].end_time,
                    ),
            decreases n - j,
        {
            let mut i: usize = 0;
            while i < j
                invariant
                    n == slots@.len(),
                    i <= j < n,
                    forall|a: int|
                        0 <= a < i && (#[trigger] slots@[a]).professional@ == slots@[j as int].professional@
                            ==> !windows_overlap(
                            slots@[a].start_time,
                            slots@[a].end_time,
                            slots@[j as int].start_time,
                            slots@[j as int].end_time,
                        ),
                decreases j - i,
            {
                if slots[i].professional == slots[j].professional && slots[i].start_time
                    < slots[j].end_time && slots[j].start_time < slots[i].end_time {
                    assert(!no_overlaps(slots@)) by {
                        assert(slots@[i as int].professional@ == slots@[j as int].professional@);
                    }
                    return None;
                }
                i = i + 1;
            }
            j = j + 1;
        }
        Some(SlotSchedule { slot_seq, slots })
    }

    /// The id of the last slot created (0 before the first).
    pub fn slot_seq(&self) -> (r: u32)
        ensures
            r == self@.slot_seq,
    {
        self.slot_seq
    }

    /// The booked slots, oldest first.
    pub fn slots(&self) -> (r: &Vec<TimeSlot>)
        ensures
            r@ == self@.slots,
    {
        &self.slots
    }

    /// Restarts slot numbering: the next slot gets id 1; the slots stay.
    pub fn restart_numbering(&mut self)
        ensures
            final(self)@.slot_seq == 0,
            final(self)@.slots == old(self)@.slots,
    {
        proof {
            use_type_invariant(&*self);
        }
        self.slot_seq = 0;
    }

    /// Whether `professional` already has a slot that overlaps `[start_time, end_time)`.
    pub fn has_conflict(&self, professional: &String, start_time: u64, end_time: u64) -> (r: bool)
        ensures
            r == conflicts_with(self@.slots, professional@, start_time, end_time),
    {
        let mut i: usize = 0;
        while i < self.slots.len()
            invariant
                i <= self.slots@.len(),
                forall|j: int|
                    0 <= j < i ==> !((#[trigger] self.slots@[j]).professional@ == professional@
                        && windows_overlap(
                        self.slots@[j].start_time,
                        self.slots@[j].end_time,
                        start_time,
                        end_time,
                    )),
            decreases self.slots@.len() - i,
        {
            let slot = &self.slots[i];
            if slot.professional == *professional && slot.start_time < end_time && start_time
                < slot.end_time {
                return true;
            }
            i = i + 1;
        }
        false
    }

    /// Books `[start_time, end_time)` for `professional` under the next slot id.
    ///
    /// The window must be non-empty and must not overlap another slot of the
    /// same professional; slots of different professionals may share a window
    /// and adjacent windows do not overlap. Ids count up from 1.
    pub fn create_time_slot(&mut self, professional: &String, start_time: u64, end_time: u64) -> (r:
        Result<u32, ChronoPayError>)
        ensures
            r == booking_result(
                old(self)@.slot_seq,
                old(self)@.slots,
                professional@,
                start_time,
                end_time,
            ),
            r is Ok ==> final(self)@.slot_seq == r->Ok_0 && final(self)@.slots == old(self)@.slots.push(
                (TimeSlot {
                    slot_id: r->Ok_0,
                    professional: *professional,
                    start_time,
                    end_time,
                }),
            ),
            r is Err ==> final(self)@ == old(self)@,
    {
        proof {
            use_type_invariant(&*self);
        }
        if start_time >= end_time {
            return Err(ChronoPayError::InvalidInput);
        }
        if self.has_conflict(professional, start_time, end_time) {
            return Err(ChronoPayError::InvalidInput);
        }
        let next = match self.slot_seq.checked_add(1) {
            Some(n) => n,
            None => {
                return Err(ChronoPayError::InvalidInput);
            },
        };
        let slot = TimeSlot { slot_id: next, professional: professional.clone(), start_time, end_time };
        proof {
            lemma_booking_keeps_no_overlaps(self.slots@, slot);
        }
        let ghost before = self.slots@;
        let mut slots = Vec::new();
        core::mem::swap(&mut slots, &mut self.slots);
        slots.push(slot);
        assert(slots@ == before.push(slot));
        self.slots = slots;
        self.slot_seq = next;
        Ok(next)
    }
}

} // verus!
