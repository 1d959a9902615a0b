//! One slot of a queue: a correlation id and a payload, both bounded text.

use vstd::prelude::*;
use vstd::slice::slice_to_vec;

verus! {

/// Longest id, in bytes, that a slot can hold.
pub const ID_CAPACITY: usize = 36;

/// Longest payload, in bytes, that a slot can hold.
pub const PAYLOAD_CAPACITY: usize = 256;

/// Why a queue operation was refused.
#[derive(Clone, Copy, Debug, PartialEq, Eq, Structural)]
pub enum QueueError {
    /// The id or the payload is longer than its capacity.
    Oversize,
    /// The id or the payload holds a zero byte, which the stored form
    /// reserves as terminator.
    InvalidText,
    /// No slot is empty.
    QueueFull,
    /// No slot answers the request.
    NotFound,
}

/// The mathematical content of a slot.
pub struct Slot {
    pub id: Seq<u8>,
    pub payload: Seq<u8>,
}

impl Slot {
    /// The slot that a zero-filled record stands for.
    pub open spec fn blank() -> Slot {
        Slot { id: Seq::empty(), payload: Seq::empty() }
    }

    /// A slot is empty exactly when its id has length zero.
    pub open spec fn is_empty(self) -> bool {
        self.id.len() == 0
    }

    /// Both texts fit their capacity and hold no terminator byte.
    pub open spec fn wf(self) -> bool {
        &&& self.id.len() <= ID_CAPACITY
        &&& self.payload.len() <= PAYLOAD_CAPACITY
        &&& no_nul(self.id)
        &&& no_nul(self.payload)
    }
}

/// No byte of `text` is zero.
pub open spec fn no_nul(text: Seq<u8>) -> bool {
    forall|i: int| 0 <= i < text.len() ==> text[i] != 0
}

/// `prefix` is an initial part of `text`.
pub open spec fn is_prefix(prefix: Seq<u8>, text: Seq<u8>) -> bool {
    prefix.len() <= text.len() && text.subrange(0, prefix.len() as int) == prefix
}

/// What `Record::new` answers for the two texts.
pub open spec fn checked_slot(id: Seq<u8>, payload: Seq<u8>) -> Result<Slot, QueueError> {
    if id.len() > ID_CAPACITY || payload.len() > PAYLOAD_CAPACITY {
        Err(QueueError::Oversize)
    } else if !no_nul(id) || !no_nul(payload) {
        Err(QueueError::InvalidText)
    } else {
        Ok(Slot { id, payload })
    }
}

/// One (id, payload) pair as a queue stores it.
#[derive(Debug)]
pub struct Record {
    pub id: Vec<u8>,
    pub payload: Vec<u8>,
}

impl View for Record {
    type V = Slot;

    open spec fn view(&self) -> Slot {
        Slot { id: self.id@, payload: self.payload@ }
    }
}

/// Reports whether `text` is free of zero bytes.
pub fn has_no_nul(text: &[u8]) -> (clean: bool)
    ensures
        clean == no_nul(text@),
{
    let mut i: usize = 0;
    while i < text.len()
        invariant
            i <= text.len(),
            forall|j: int| 0 <= j < i ==> text@[j] != 0,
        decreases text.len() - i,
    {
        if text[i] == 0 {
            return false;
        }
        i += 1;
    }
    true
}

/// Reports whether `text` begins with `prefix`.
pub fn starts_with(text: &[u8], prefix: &[u8]) -> (yes: bool)
    ensures
        yes == is_prefix(prefix@, text@),
{
    if prefix.len() > text.len() {
        return false;
    }
    let mut i: usize = 0;
    while i < prefix.len()
        invariant
            i <= prefix.len() <= text.len(),
            forall|j: int| 0 <= j < i ==> text@[j] == prefix@[j],
        decreases prefix.len() - i,
    {
        if text[i] != prefix[i] {
            assert(text@.subrange(0, prefix@.len() as int)[i as int] == text@[i as int]);
            return false;
        }
        i += 1;
    }
    assert(text@.subrange(0, prefix@.len() as int) =~= prefix@);
    true
}

impl Record {
    /// The zero-filled record: an empty slot.
    pub fn blank() -> (r: Record)
        ensures
            r@ == Slot::blank(),
            r@.wf(),
    {
        Record { id: Vec::new(), payload: Vec::new() }
    }

    /// Validates the two texts and builds the record that holds them. Nothing
    /// is ever cut to fit: a text that is too long is refused.
    pub fn new(id: &[u8], payload: &[u8]) -> (r: Result<Record, QueueError>)
        ensures
            match r {
                Ok(rec) => checked_slot(id@, payload@) == Ok::<Slot, QueueError>(rec@) && rec@.wf(),
                Err(e) => checked_slot(id@, payload@) == Err::<Slot, QueueError>(e),
            },
    {
        if id.len() > ID_CAPACITY || payload.len() > PAYLOAD_CAPACITY {
            return Err(QueueError::Oversize);
        }
        if !has_no_nul(id) || !has_no_nul(payload) {
            return Err(QueueError::InvalidText);
        }
        Ok(Record { id: slice_to_vec(id), payload: slice_to_vec(payload) })
    }

    /// Checks that both texts fit their capacity and hold no zero byte.
    pub fn is_well_formed(&self) -> (ok: bool)
        ensures
            ok == self@.wf(),
    {
        self.id.len() <= ID_CAPACITY && self.payload.len() <= PAYLOAD_CAPACITY && has_no_nul(
            self.id.as_slice(),
        ) && has_no_nul(self.payload.as_slice())
    }

    /// Whether the slot is empty.
    pub fn is_empty(&self) -> (empty: bool)
        ensures
            empty == self@.is_empty(),
    {
        self.id.len() == 0
    }

    /// Whether the stored id begins with `prefix`.
    pub fn id_starts_with(&self, prefix: &[u8]) -> (yes: bool)
        ensures
            yes == is_prefix(prefix@, self@.id),
    {
        starts_with(self.id.as_slice(), prefix)
    }

    /// Whether the stored id is exactly `id`.
    pub fn id_equals(&self, id: &[u8]) -> (yes: bool)
        ensures
            yes == (self@.id == id@),
    {
        let same = self.id.len() == id.len() && starts_with(self.id.as_slice(), id);
        proof {
            if self@.id.len() == id@.len() {
                assert(self@.id.subrange(0, id@.len() as int) =~= self@.id);
            }
        }
        same
    }

    /// A copy of the stored payload.
    pub fn payload(&self) -> (p: Vec<u8>)
        ensures
            p@ == self@.payload,
    {
        slice_to_vec(self.payload.as_slice())
    }

    /// A copy of the stored id.
    pub fn id(&self) -> (p: Vec<u8>)
        ensures
            p@ == self@.id,
    {
        slice_to_vec(self.id.as_slice())
    }
}

} // verus!
