//! The fixed-capacity slot queue: positional, scanned in index order.

use vstd::prelude::*;
use crate::record::{is_prefix, checked_slot, QueueError, Record, Slot};

verus! {

/// Number of slots in a queue.
pub const QUEUE_CAPACITY: usize = 100;

/// `i` is the lowest index of an empty slot of `q`.
pub open spec fn is_first_empty(q: Seq<Slot>, i: int) -> bool {
    &&& 0 <= i < q.len()
    &&& q[i].is_empty()
    &&& forall|j: int| 0 <= j < i ==> !(#[trigger] q[j]).is_empty()
}

/// `i` is the lowest index of an occupied slot of `q`.
pub open spec fn is_first_occupied(q: Seq<Slot>, i: int) -> bool {
    &&& 0 <= i < q.len()
    &&& !q[i].is_empty()
    &&& forall|j: int| 0 <= j < i ==> (#[trigger] q[j]).is_empty()
}

/// `i` is the lowest index of a slot of `q` whose id begins with `id`.
pub open spec fn is_first_with_prefix(q: Seq<Slot>, id: Seq<u8>, i: int) -> bool {
    &&& 0 <= i < q.len()
    &&& is_prefix(id, q[i].id)
    &&& forall|j: int| 0 <= j < i ==> !is_prefix(id, (#[trigger] q[j]).id)
}

/// `i` is the lowest index of a slot of `q` whose id is `id`.
pub open spec fn is_first_with_id(q: Seq<Slot>, id: Seq<u8>, i: int) -> bool {
    &&& 0 <= i < q.len()
    &&& q[i].id == id
    &&& forall|j: int| 0 <= j < i ==> (#[trigger] q[j]).id != id
}

/// The lowest empty slot, if there is one.
pub open spec fn first_empty(q: Seq<Slot>) -> Option<int> {
    if exists|i: int| is_first_empty(q, i) {
        Some(choose|i: int| is_first_empty(q, i))
    } else {
        None
    }
}

/// The lowest occupied slot, if there is one.
pub open spec fn first_occupied(q: Seq<Slot>) -> Option<int> {
    if exists|i: int| is_first_occupied(q, i) {
        Some(choose|i: int| is_first_occupied(q, i))
    } else {
        None
    }
}

/// The lowest slot whose id begins with `id`, if there is one.
pub open spec fn first_with_prefix(q: Seq<Slot>, id: Seq<u8>) -> Option<int> {
    if exists|i: int| is_first_with_prefix(q, id, i) {
        Some(choose|i: int| is_first_with_prefix(q, id, i))
    } else {
        None
    }
}

/// The lowest slot whose id is `id`, if there is one.
pub open spec fn first_with_id(q: Seq<Slot>, id: Seq<u8>) -> Option<int> {
    if exists|i: int| is_first_with_id(q, id, i) {
        Some(choose|i: int| is_first_with_id(q, id, i))
    } else {
        None
    }
}

/// Every slot of `q` is empty.
pub open spec fn all_empty(q: Seq<Slot>) -> bool {
    forall|j: int| 0 <= j < q.len() ==> (#[trigger] q[j]).is_empty()
}

/// Every slot of `q` is occupied.
pub open spec fn all_occupied(q: Seq<Slot>) -> bool {
    forall|j: int| 0 <= j < q.len() ==> !(#[trigger] q[j]).is_empty()
}

/// How many slots of `q` are occupied.
pub open spec fn occupied_count(q: Seq<Slot>) -> nat
    decreases q.len(),
{
    if q.len() == 0 {
        0
    } else {
        occupied_count(q.drop_last()) + if q.last().is_empty() { 0nat } else { 1nat }
    }
}

/// The queue of `n` blank slots.
pub open spec fn blank_queue(n: nat) -> Seq<Slot> {
    Seq::new(n, |i: int| Slot::blank())
}

/// What `append` answers on `q`: the slot it writes, or why it writes none.
/// Size is judged first, then the text, then room.
pub open spec fn append_result(q: Seq<Slot>, id: Seq<u8>, payload: Seq<u8>) -> Result<int, QueueError> {
    match checked_slot(id, payload) {
        Err(e) => Err(e),
        Ok(_) => match first_empty(q) {
            Some(i) => Ok(i),
            None => Err(QueueError::QueueFull),
        },
    }
}

/// The queue that `append` leaves.
pub open spec fn append_state(q: Seq<Slot>, id: Seq<u8>, payload: Seq<u8>) -> Seq<Slot> {
    match append_result(q, id, payload) {
        Ok(i) => q.update(i, Slot { id, payload }),
        Err(_) => q,
    }
}

/// What `peek_first` answers on `q`.
pub open spec fn peek_result(q: Seq<Slot>) -> Result<Seq<u8>, QueueError> {
    match first_occupied(q) {
        Some(i) => Ok(q[i].payload),
        None => Err(QueueError::NotFound),
    }
}

/// The queue that `remove` leaves: the lowest slot whose id begins with `id`
/// is blanked.
pub open spec fn remove_state(q: Seq<Slot>, id: Seq<u8>) -> Seq<Slot> {
    match first_with_prefix(q, id) {
        Some(i) => q.update(i, Slot::blank()),
        None => q,
    }
}

/// The queue that `remove_exact` leaves: the lowest slot whose id is `id` is
/// blanked.
pub open spec fn remove_exact_state(q: Seq<Slot>, id: Seq<u8>) -> Seq<Slot> {
    match first_with_id(q, id) {
        Some(i) => q.update(i, Slot::blank()),
        None => q,
    }
}

/// The lowest empty slot is the only index that `is_first_empty` admits.
pub proof fn lemma_first_empty(q: Seq<Slot>, i: int)
    requires
        is_first_empty(q, i),
    ensures
        first_empty(q) == Some(i),
{
    let c = choose|k: int| is_first_empty(q, k);
    assert(is_first_empty(q, c));
    if c < i {
        assert(!q[c].is_empty());
    }
    if i < c {
        assert(!q[i].is_empty());
    }
}

/// The lowest occupied slot is the only index that `is_first_occupied` admits.
pub proof fn lemma_first_occupied(q: Seq<Slot>, i: int)
    requires
        is_first_occupied(q, i),
    ensures
        first_occupied(q) == Some(i),
{
    let c = choose|k: int| is_first_occupied(q, k);
    assert(is_first_occupied(q, c));
    if c < i {
        assert(q[c].is_empty());
    }
    if i < c {
        assert(q[i].is_empty());
    }
}

/// The lowest slot whose id begins with `id` is the only index that
/// `is_first_with_prefix` admits.
pub proof fn lemma_first_with_prefix(q: Seq<Slot>, id: Seq<u8>, i: int)
    requires
        is_first_with_prefix(q, id, i),
    ensures
        first_with_prefix(q, id) == Some(i),
{
    let c = choose|k: int| is_first_with_prefix(q, id, k);
    assert(is_first_with_prefix(q, id, c));
    if c < i {
        assert(!is_prefix(id, q[c].id));
    }
    if i < c {
        assert(!is_prefix(id, q[i].id));
    }
}

/// The lowest slot whose id is `id` is the only index that `is_first_with_id`
/// admits.
pub proof fn lemma_first_with_id(q: Seq<Slot>, id: Seq<u8>, i: int)
    requires
        is_first_with_id(q, id, i),
    ensures
        first_with_id(q, id) == Some(i),
{
    let c = choose|k: int| is_first_with_id(q, id, k);
    assert(is_first_with_id(q, id, c));
    if c < i {
        assert(q[c].id != id);
    }
    if i < c {
        assert(q[i].id != id);
    }
}

/// A fixed, ordered array of slots.
#[derive(Debug)]
pub struct SlotQueue {
    pub slots: Vec<Record>,
}

impl View for SlotQueue {
    type V = Seq<Slot>;

    open spec fn view(&self) -> Seq<Slot> {
        Seq::new(self.slots@.len(), |i: int| self.slots@[i]@)
    }
}

impl SlotQueue {
    /// The queue has its fixed number of slots and each slot is well formed.
    pub open spec fn wf(&self) -> bool {
        &&& self.slots@.len() == QUEUE_CAPACITY
        &&& forall|i: int| 0 <= i < self.slots@.len() ==> (#[trigger] self.slots@[i])@.wf()
    }

    /// Checks that the queue has its fixed number of slots and that each
    /// slot is well formed.
    pub fn is_well_formed(&self) -> (ok: bool)
        ensures
            ok == self.wf(),
    {
        if self.slots.len() != QUEUE_CAPACITY {
            return false;
        }
        let mut i: usize = 0;
        while i < self.slots.len()
            invariant
                i <= self.slots@.len(),
                self.slots@.len() == QUEUE_CAPACITY,
                forall|j: int| 0 <= j < i ==> (#[trigger] self.slots@[j])@.wf(),
            decreases self.slots@.len() - i,
        {
            if !self.slots[i].is_well_formed() {
                return false;
            }
            i += 1;
        }
        true
    }

    /// A queue of empty slots.
    pub fn new() -> (q: SlotQueue)
        ensures
            q.wf(),
            q@ == blank_queue(QUEUE_CAPACITY as nat),
    {
        let mut slots: Vec<Record> = Vec::new();
        while slots.len() < QUEUE_CAPACITY
            invariant
                slots@.len() <= QUEUE_CAPACITY,
                forall|i: int| 0 <= i < slots@.len() ==> (#[trigger] slots@[i])@ == Slot::blank(),
            decreases QUEUE_CAPACITY - slots@.len(),
        {
            slots.push(Record::blank());
        }
        let q = SlotQueue { slots };
        assert(q@ =~= blank_queue(QUEUE_CAPACITY as nat));
        q
    }

    /// Writes (id, payload) into the lowest empty slot.
    pub fn append(&mut self, id: &[u8], payload: &[u8]) -> (r: Result<(), QueueError>)
        requires
            old(self).wf(),
        ensures
            final(self).wf(),
            final(self)@ == append_state(old(self)@, id@, payload@),
            match r {
                Ok(()) => append_result(old(self)@, id@, payload@) is Ok,
                Err(e) => append_result(old(self)@, id@, payload@) == Err::<int, QueueError>(e),
            },
    {
        let rec = match Record::new(id, payload) {
            Ok(rec) => rec,
            Err(e) => {
                return Err(e);
            },
        };
        let ghost slot = rec@;
        let mut i: usize = 0;
        while i < self.slots.len()
            invariant
                *self == *old(self),
                self.wf(),
                slot == rec@,
                slot.wf(),
                slot == (Slot { id: id@, payload: payload@ }),
                checked_slot(id@, payload@) is Ok,
                i <= self.slots@.len(),
                forall|j: int| 0 <= j < i ==> !(#[trigger] self@[j]).is_empty(),
            decreases self.slots@.len() - i,
        {
            if self.slots[i].is_empty() {
                proof {
                    lemma_first_empty(self@, i as int);
                }
                self.slots.set(i, rec);
                assert(self@ =~= old(self)@.update(i as int, slot));
                return Ok(());
            }
            i += 1;
        }
        assert(forall|k: int| !is_first_empty(self@, k));
        Err(QueueError::QueueFull)
    }
    /// A copy of the payload of the lowest occupied slot. The queue is left as
    /// it is.
    pub fn peek_first(&self) -> (r: Result<Vec<u8>, QueueError>)
        requires
            self.wf(),
        ensures
            match r {
                Ok(p) => peek_result(self@) == Ok::<Seq<u8>, QueueError>(p@),
                Err(e) => peek_result(self@) == Err::<Seq<u8>, QueueError>(e),
            },
    {
        let mut i: usize = 0;
        while i < self.slots.len()
            invariant
                i <= self.slots@.len(),
                forall|j: int| 0 <= j < i ==> (#[trigger] self@[j]).is_empty(),
            decreases self.slots@.len() - i,
        {
            if !self.slots[i].is_empty() {
                proof {
                    lemma_first_occupied(self@, i as int);
                }
                return Ok(self.slots[i].payload());
            }
            i += 1;
        }
        assert(forall|k: int| !is_first_occupied(self@, k));
        Err(QueueError::NotFound)
    }

    /// Blanks the lowest slot whose stored id begins with `id`. Two ids that
    /// share a prefix are not told apart: `remove_exact` is.
    pub fn remove(&mut self, id: &[u8]) -> (r: Result<(), QueueError>)
        requires
            old(self).wf(),
        ensures
            final(self).wf(),
            final(self)@ == remove_state(old(self)@, id@),
            r is Ok <==> first_with_prefix(old(self)@, id@) is Some,
            r is Err ==> r == Err::<(), QueueError>(QueueError::NotFound),
    {
        let mut i: usize = 0;
        while i < self.slots.len()
            invariant
                *self == *old(self),
                self.wf(),
                i <= self.slots@.len(),
                forall|j: int| 0 <= j < i ==> !is_prefix(id@, (#[trigger] self@[j]).id),
            decreases self.slots@.len() - i,
        {
            if self.slots[i].id_starts_with(id) {
                proof {
                    lemma_first_with_prefix(self@, id@, i as int);
                }
                self.slots.set(i, Record::blank());
                assert(self@ =~= old(self)@.update(i as int, Slot::blank()));
                return Ok(());
            }
            i += 1;
        }
        assert(forall|k: int| !is_first_with_prefix(self@, id@, k));
        Err(QueueError::NotFound)
    }

    /// Blanks the lowest slot whose stored id is exactly `id`.
    pub fn remove_exact(&mut self, id: &[u8]) -> (r: Result<(), QueueError>)
        requires
            old(self).wf(),
        ensures
            final(self).wf(),
            final(self)@ == remove_exact_state(old(self)@, id@),
            r is Ok <==> first_with_id(old(self)@, id@) is Some,
            r is Err ==> r == Err::<(), QueueError>(QueueError::NotFound),
    {
        let mut i: usize = 0;
        while i < self.slots.len()
            invariant
                *self == *old(self),
                self.wf(),
                i <= self.slots@.len(),
                forall|j: int| 0 <= j < i ==> (#[trigger] self@[j]).id != id@,
            decreases self.slots@.len() - i,
        {
            if self.slots[i].id_equals(id) {
                proof {
                    lemma_first_with_id(self@, id@, i as int);
                }
                self.slots.set(i, Record::blank());
                assert(self@ =~= old(self)@.update(i as int, Slot::blank()));
                return Ok(());
            }
            i += 1;
        }
        assert(forall|k: int| !is_first_with_id(self@, id@, k));
        Err(QueueError::NotFound)
    }

    /// Blanks every slot.
    pub fn clear(&mut self)
        requires
            old(self).wf(),
        ensures
            final(self).wf(),
            final(self)@ == blank_queue(QUEUE_CAPACITY as nat),
    {
        let mut i: usize = 0;
        while i < self.slots.len()
            invariant
                self.wf(),
                i <= self.slots@.len(),
                forall|j: int| 0 <= j < i ==> (#[trigger] self.slots@[j])@ == Slot::blank(),
            decreases self.slots@.len() - i,
        {
            self.slots.set(i, Record::blank());
            i += 1;
        }
        assert(self@ =~= blank_queue(QUEUE_CAPACITY as nat));
    }

    /// How many slots are occupied.
    pub fn occupied(&self) -> (n: usize)
        requires
            self.wf(),
        ensures
            n == occupied_count(self@),
    {
        let mut n: usize = 0;
        let mut i: usize = 0;
        while i < self.slots.len()
            invariant
                i <= self.slots@.len(),
                n <= i,
                self.slots@.len() == QUEUE_CAPACITY,
                n == occupied_count(self@.subrange(0, i as int)),
            decreases self.slots@.len() - i,
        {
            proof {
                let next = self@.subrange(0, i + 1);
                assert(next.drop_last() =~= self@.subrange(0, i as int));
                assert(next.last() == self@[i as int]);
            }
            if !self.slots[i].is_empty() {
                n += 1;
            }
            i += 1;
        }
        assert(self@.subrange(0, i as int) =~= self@);
        n
    }
}

} // verus!
