//! A triple buffer for one producer and one consumer that never wait for each other.
//!
//! The state word names the slot that lies ready between the two and whether the consumer has seen
//! it. Each side owns one of the other two slots and trades it for the ready one.
use vstd::prelude::*;

verus! {

/// The part of a state word that names the ready slot.
pub const INDEX_MASK: u8 = 0x03;

/// The part of a state word that says that the consumer has not seen the ready slot yet.
pub const FLAG_NEW: u8 = 0x04;

/// The slot that a state word names.
pub open spec fn ready_slot(state: u8) -> int {
    state as int % 4
}

/// Whether a state word says that the ready slot is new.
pub open spec fn is_new_spec(state: u8) -> bool {
    (state as int / 4) % 2 == 1
}

/// The state word by which the producer hands over a slot.
pub fn ready_word(write_idx: u8) -> (r: u8)
    requires
        write_idx < 3,
    ensures
        r == write_idx + FLAG_NEW,
        ready_slot(r) == write_idx,
        is_new_spec(r),
{
    proof {
        assert(write_idx < 3 ==> write_idx | 4u8 == write_idx + 4) by (bit_vector);
    }
    write_idx | FLAG_NEW
}

/// The slot that a state word names.
pub fn state_index(state: u8) -> (r: u8)
    ensures
        r == ready_slot(state),
{
    proof {
        assert(state & 3u8 == state % 4) by (bit_vector);
    }
    state & INDEX_MASK
}

/// Whether a state word says that the ready slot is new.
pub fn is_new(state: u8) -> (r: bool)
    ensures
        r == is_new_spec(state),
{
    proof {
        assert((state & 4u8 != 0) <==> ((state / 4) % 2 == 1)) by (bit_vector);
    }
    state & FLAG_NEW != 0
}

/// The three slots and who owns them.
#[derive(Debug)]
pub struct TripleBuffer<T> {
    pub state: u8,
    pub write_idx: u8,
    pub read_idx: u8,
    pub slots: [T; 3],
}

impl<T: Copy> TripleBuffer<T> {
    /// Producer, consumer and the ready slot are three different slots.
    pub open spec fn wf(self) -> bool {
        &&& self.write_idx < 3
        &&& self.read_idx < 3
        &&& ready_slot(self.state) < 3
        &&& self.write_idx != self.read_idx
        &&& ready_slot(self.state) != self.write_idx
        &&& ready_slot(self.state) != self.read_idx
    }

    /// Whether the consumer has taken what was published last.
    pub open spec fn consumed_spec(self) -> bool {
        !is_new_spec(self.state)
    }

    /// The first state: slot 1 ready and not new, the producer on slot 0, the consumer on slot 2.
    pub open spec fn first_state(self) -> bool {
        &&& self.state == 1
        &&& self.write_idx == 0
        &&& self.read_idx == 2
    }

    /// What was published last, while the consumer has not taken it.
    pub open spec fn ready(self) -> T {
        self.slots@[ready_slot(self.state)]
    }

    /// What the consumer reads.
    pub open spec fn read(self) -> T {
        self.slots@[self.read_idx as int]
    }

    /// Whether publishing `value` leads from one state to the next: the written slot becomes the
    /// ready one, the one that was ready becomes the producer's, and the consumer's slot stays.
    pub open spec fn published(self, value: T, next: Self) -> bool {
        &&& next.state == self.write_idx + FLAG_NEW
        &&& next.write_idx == ready_slot(self.state)
        &&& next.read_idx == self.read_idx
        &&& next.slots@ == self.slots@.update(self.write_idx as int, value)
    }

    /// Whether the consumer's step leads from one state to the next: a new slot is traded for its
    /// own, without a new one nothing happens.
    pub open spec fn taken(self, next: Self) -> bool {
        if is_new_spec(self.state) {
            &&& next.state == self.read_idx
            &&& next.read_idx == ready_slot(self.state)
            &&& next.write_idx == self.write_idx
            &&& next.slots == self.slots
        } else {
            next == self
        }
    }

    /// Puts the buffer into its first state: slot 1 ready and not new, the producer on slot 0, the
    /// consumer on slot 2.
    pub fn init_state(&mut self)
        ensures
            final(self).first_state(),
            final(self).slots == old(self).slots,
            final(self).wf(),
            final(self).consumed_spec(),
    {
        self.state = 1;
        self.write_idx = 0;
        self.read_idx = 2;
    }

    /// A buffer in its first state, every slot holding `value`.
    pub fn new(value: T) -> (r: Self)
        ensures
            r.first_state(),
            r.slots@ == seq![value, value, value],
            r.wf(),
            r.consumed_spec(),
    {
        let slots: [T; 3] = [value, value, value];
        let mut buffer: TripleBuffer<T> = TripleBuffer { state: 0, write_idx: 0, read_idx: 0, slots };
        buffer.init_state();
        buffer
    }

    /// Whether the consumer has taken what was published last.
    pub fn consumed(&self) -> (r: bool)
        ensures
            r == self.consumed_spec(),
    {
        !is_new(self.state)
    }

    /// Writes a value into the producer's slot and hands it over.
    pub fn publish(&mut self, value: T)
        requires
            old(self).wf(),
        ensures
            old(self).published(value, *final(self)),
            final(self).wf(),
            !final(self).consumed_spec(),
            final(self).ready() == value,
            final(self).read() == old(self).read(),
    {
        let index: usize = self.write_idx as usize;
        self.slots[index] = value;
        let previous: u8 = self.state;
        self.state = ready_word(self.write_idx);
        self.write_idx = state_index(previous);
    }

    /// The consumer's step: trades its slot for a new one, if there is one, and says so.
    pub fn take(&mut self) -> (r: bool)
        requires
            old(self).wf(),
        ensures
            old(self).taken(*final(self)),
            final(self).wf(),
            final(self).consumed_spec(),
            r == !old(self).consumed_spec(),
    {
        if self.consumed() {
            return false;
        }
        let ready: u8 = state_index(self.state);
        self.state = self.read_idx;
        self.read_idx = ready;
        true
    }
}

/// The producer never writes what the consumer is reading: whatever is published, and however
/// often, the value that the consumer holds stays until it takes the next one.
pub proof fn law_publishing_never_touches_the_read_slot<T: Copy>(
    before: TripleBuffer<T>,
    value: T,
    after: TripleBuffer<T>,
)
    requires
        before.wf(),
        before.published(value, after),
    ensures
        after.wf(),
        after.read() == before.read(),
{
}

/// The consumer's step hands it what was published last, whole, and owes it nothing more.
pub proof fn law_taking_gives_what_was_published_last<T: Copy>(
    before: TripleBuffer<T>,
    value: T,
    published: TripleBuffer<T>,
    taken: TripleBuffer<T>,
)
    requires
        before.wf(),
        before.published(value, published),
        published.taken(taken),
    ensures
        taken.wf(),
        taken.read() == value,
        taken.consumed_spec(),
{
}

/// A consumer that has taken the last value finds nothing new, and keeps it.
pub proof fn law_taking_twice_changes_nothing<T: Copy>(
    before: TripleBuffer<T>,
    once: TripleBuffer<T>,
    twice: TripleBuffer<T>,
)
    requires
        before.wf(),
        before.taken(once),
        once.taken(twice),
    ensures
        once.wf(),
        twice == once,
{
}

/// A state word is the number of the ready slot, and four more while that is new.
pub proof fn law_state_words(slot: u8)
    requires
        slot < 3,
    ensures
        ready_slot(slot) == slot,
        !is_new_spec(slot),
        ready_slot((slot + 4) as u8) == slot,
        is_new_spec((slot + 4) as u8),
{
}

/// In its first state a buffer has a slot for each side and one between them, and nothing is new.
pub proof fn law_the_first_state_is_sound<T: Copy>(buffer: TripleBuffer<T>)
    requires
        buffer.first_state(),
    ensures
        buffer.wf(),
        buffer.consumed_spec(),
        buffer.write_idx == 0,
        ready_slot(buffer.state) == 1,
        buffer.read_idx == 2,
{
}

/// What is published lies ready and is new, and only the producer's own slot was written. What was
/// ready before and not taken is given up, and its slot is the next to be written.
pub proof fn law_publishing_makes_ready<T: Copy>(
    before: TripleBuffer<T>,
    value: T,
    after: TripleBuffer<T>,
    k: int,
)
    requires
        before.wf(),
        before.published(value, after),
        0 <= k < 3,
    ensures
        after.wf(),
        !after.consumed_spec(),
        after.ready() == value,
        k != before.write_idx ==> after.slots@[k] == before.slots@[k],
        after.write_idx == ready_slot(before.state),
        ready_slot(after.state) == before.write_idx,
{
}

/// Taking writes no slot, and without anything new it changes nothing at all.
pub proof fn law_taking_writes_nothing<T: Copy>(before: TripleBuffer<T>, after: TripleBuffer<T>)
    requires
        before.wf(),
        before.taken(after),
    ensures
        after.wf(),
        after.slots == before.slots,
        after.write_idx == before.write_idx,
        after.consumed_spec(),
        before.consumed_spec() ==> after == before,
        !before.consumed_spec() ==> after.read() == before.ready(),
{
}

} // verus!
