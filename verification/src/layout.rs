//! The byte layout of the queues: each record is an id field of 37 bytes
//! followed by a payload field of 257 bytes; a field is its text, a zero
//! terminator, and zero fill. A queue is its records in slot order, and the
//! segment's queue area is the input queue followed by the output queue.

use vstd::prelude::*;
use vstd::slice::slice_subrange;
use crate::queue::{SlotQueue, QUEUE_CAPACITY};
use crate::record::{no_nul, Record, Slot};
use crate::segment::Segment;

verus! {

/// Bytes of the id field.
pub const ID_FIELD_SIZE: usize = 37;

/// Bytes of the payload field.
pub const PAYLOAD_FIELD_SIZE: usize = 257;

/// Bytes of one record.
pub const RECORD_SIZE: usize = 294;

/// Bytes of one queue.
pub const QUEUE_SIZE: usize = 29400;

/// Bytes of the two queues together.
pub const SEGMENT_SIZE: usize = 58800;

/// The field of `size` bytes that stores `text`.
pub open spec fn field_bytes(text: Seq<u8>, size: nat) -> Seq<u8> {
    text + Seq::new((size - text.len()) as nat, |i: int| 0u8)
}

/// The bytes of one record.
pub open spec fn record_bytes(s: Slot) -> Seq<u8> {
    field_bytes(s.id, ID_FIELD_SIZE as nat) + field_bytes(s.payload, PAYLOAD_FIELD_SIZE as nat)
}

/// The bytes of a queue: its records in slot order.
pub open spec fn queue_bytes(q: Seq<Slot>) -> Seq<u8>
    decreases q.len(),
{
    if q.len() == 0 {
        Seq::empty()
    } else {
        queue_bytes(q.drop_last()) + record_bytes(q.last())
    }
}

/// The bytes of the two queues.
pub open spec fn segment_bytes(input: Seq<Slot>, output: Seq<Slot>) -> Seq<u8> {
    queue_bytes(input) + queue_bytes(output)
}

/// `n` is the place of the first zero byte of `field`.
pub open spec fn is_text_end(field: Seq<u8>, n: int) -> bool {
    &&& 0 <= n < field.len()
    &&& field[n] == 0
    &&& forall|j: int| 0 <= j < n ==> #[trigger] field[j] != 0
}

/// The text that `field` stores: its bytes before the first zero byte.
/// A field without a zero byte stores no text.
pub open spec fn field_text(field: Seq<u8>) -> Option<Seq<u8>> {
    if exists|n: int| is_text_end(field, n) {
        Some(field.take(choose|n: int| is_text_end(field, n)))
    } else {
        None
    }
}

/// The slot that the bytes of one record stand for.
pub open spec fn record_of(bytes: Seq<u8>) -> Option<Slot> {
    if bytes.len() == RECORD_SIZE && field_text(bytes.subrange(0, ID_FIELD_SIZE as int)) is Some
        && field_text(bytes.subrange(ID_FIELD_SIZE as int, RECORD_SIZE as int)) is Some {
        Some(
            Slot {
                id: field_text(bytes.subrange(0, ID_FIELD_SIZE as int))->Some_0,
                payload: field_text(bytes.subrange(ID_FIELD_SIZE as int, RECORD_SIZE as int))->Some_0,
            },
        )
    } else {
        None
    }
}

/// The slot that record `i` of `bytes` stands for.
pub open spec fn record_at(bytes: Seq<u8>, i: int) -> Option<Slot> {
    record_of(bytes.subrange(i * RECORD_SIZE, (i + 1) * RECORD_SIZE))
}

/// The queue that `bytes` stand for, where each record is readable.
pub open spec fn queue_of(bytes: Seq<u8>) -> Option<Seq<Slot>> {
    if bytes.len() == QUEUE_SIZE && forall|i: int|
        0 <= i < QUEUE_CAPACITY ==> (#[trigger] record_at(bytes, i)) is Some {
        Some(Seq::new(QUEUE_CAPACITY as nat, |i: int| record_at(bytes, i)->Some_0))
    } else {
        None
    }
}

/// The two queues that `bytes` stand for.
pub open spec fn segment_of(bytes: Seq<u8>) -> Option<(Seq<Slot>, Seq<Slot>)> {
    if bytes.len() == SEGMENT_SIZE && queue_of(bytes.subrange(0, QUEUE_SIZE as int)) is Some && queue_of(
        bytes.subrange(QUEUE_SIZE as int, SEGMENT_SIZE as int),
    ) is Some {
        Some(
            (
                queue_of(bytes.subrange(0, QUEUE_SIZE as int))->Some_0,
                queue_of(bytes.subrange(QUEUE_SIZE as int, SEGMENT_SIZE as int))->Some_0,
            ),
        )
    } else {
        None
    }
}

/// The first zero byte of a field is the only place that `is_text_end` admits.
pub proof fn lemma_text_end(field: Seq<u8>, n: int)
    requires
        is_text_end(field, n),
    ensures
        field_text(field) == Some(field.take(n)),
{
    let c = choose|k: int| is_text_end(field, k);
    assert(is_text_end(field, c));
    if c < n {
        assert(field[c] != 0);
    }
    if n < c {
        assert(field[n] != 0);
    }
}

/// Appends to `out` the field of `size` bytes that stores `text`.
fn put_field(out: &mut Vec<u8>, text: &Vec<u8>, size: usize)
    requires
        text@.len() <= size,
    ensures
        final(out)@ == old(out)@ + field_bytes(text@, size as nat),
{
    let mut i: usize = 0;
    while i < text.len()
        invariant
            i <= text@.len(),
            out@ == old(out)@ + text@.take(i as int),
        decreases text@.len() - i,
    {
        out.push(text[i]);
        assert(text@.take(i + 1) =~= text@.take(i as int).push(text@[i as int]));
        assert(out@ =~= old(out)@ + text@.take(i + 1));
        i += 1;
    }
    assert(text@.take(i as int) =~= text@);
    let mut k: usize = text.len();
    while k < size
        invariant
            text@.len() <= k <= size,
            out@ == old(out)@ + text@ + Seq::new((k - text@.len()) as nat, |i: int| 0u8),
        decreases size - k,
    {
        out.push(0u8);
        assert(out@ =~= old(out)@ + text@ + Seq::new((k + 1 - text@.len()) as nat, |i: int| 0u8));
        k += 1;
    }
    assert(out@ =~= old(out)@ + field_bytes(text@, size as nat));
}

/// Reads the text that `field` stores.
fn read_field(field: &[u8]) -> (r: Option<Vec<u8>>)
    ensures
        match r {
            Some(t) => field_text(field@) == Some(t@) && no_nul(t@) && t@.len() < field@.len(),
            None => field_text(field@) is None,
        },
{
    let mut text: Vec<u8> = Vec::new();
    let mut i: usize = 0;
    while i < field.len()
        invariant
            i <= field@.len(),
            text@ == field@.take(i as int),
            forall|j: int| 0 <= j < i ==> #[trigger] field@[j] != 0,
        decreases field@.len() - i,
    {
        if field[i] == 0 {
            proof {
                lemma_text_end(field@, i as int);
            }
            return Some(text);
        }
        text.push(field[i]);
        assert(text@ =~= field@.take(i + 1));
        i += 1;
    }
    assert(forall|n: int| !is_text_end(field@, n));
    None
}

impl Record {
    /// Appends the bytes of this record to `out`.
    pub fn write_bytes(&self, out: &mut Vec<u8>)
        requires
            self@.wf(),
        ensures
            final(out)@ == old(out)@ + record_bytes(self@),
    {
        put_field(out, &self.id, ID_FIELD_SIZE);
        put_field(out, &self.payload, PAYLOAD_FIELD_SIZE);
        assert(out@ =~= old(out)@ + record_bytes(self@));
    }

    /// Reads a record from its bytes. A field without a terminator makes the
    /// bytes unreadable.
    pub fn from_bytes(bytes: &[u8]) -> (r: Option<Record>)
        ensures
            match r {
                Some(rec) => record_of(bytes@) == Some(rec@) && rec@.wf(),
                None => record_of(bytes@) is None,
            },
    {
        if bytes.len() != RECORD_SIZE {
            return None;
        }
        let id = match read_field(slice_subrange(bytes, 0, ID_FIELD_SIZE)) {
            Some(id) => id,
            None => {
                return None;
            },
        };
        let payload = match read_field(slice_subrange(bytes, ID_FIELD_SIZE, RECORD_SIZE)) {
            Some(payload) => payload,
            None => {
                return None;
            },
        };
        Some(Record { id, payload })
    }
}

/// A field is as long as its size says.
pub proof fn lemma_record_bytes_len(s: Slot)
    requires
        s.wf(),
    ensures
        record_bytes(s).len() == RECORD_SIZE,
        record_bytes(s).subrange(0, ID_FIELD_SIZE as int) == field_bytes(s.id, ID_FIELD_SIZE as nat),
        record_bytes(s).subrange(ID_FIELD_SIZE as int, RECORD_SIZE as int) == field_bytes(
            s.payload,
            PAYLOAD_FIELD_SIZE as nat,
        ),
{
    let id = field_bytes(s.id, ID_FIELD_SIZE as nat);
    let payload = field_bytes(s.payload, PAYLOAD_FIELD_SIZE as nat);
    assert(id.len() == ID_FIELD_SIZE);
    assert(payload.len() == PAYLOAD_FIELD_SIZE);
    assert(record_bytes(s).subrange(0, ID_FIELD_SIZE as int) =~= id);
    assert(record_bytes(s).subrange(ID_FIELD_SIZE as int, RECORD_SIZE as int) =~= payload);
}

/// The field that stores a text without zero bytes gives that text back.
pub proof fn lemma_field_round_trip(text: Seq<u8>, size: nat)
    requires
        text.len() < size,
        no_nul(text),
    ensures
        field_text(field_bytes(text, size)) == Some(text),
{
    let field = field_bytes(text, size);
    let n = text.len() as int;
    assert(field[n] == 0);
    assert forall|j: int| 0 <= j < n implies #[trigger] field[j] != 0 by {
        assert(field[j] == text[j]);
    }
    assert(is_text_end(field, n));
    lemma_text_end(field, n);
    assert(field.take(n) =~= text);
}

/// Reading the bytes of a well-formed slot gives the slot back.
pub proof fn record_round_trip(s: Slot)
    requires
        s.wf(),
    ensures
        record_of(record_bytes(s)) == Some(s),
{
    lemma_record_bytes_len(s);
    lemma_field_round_trip(s.id, ID_FIELD_SIZE as nat);
    lemma_field_round_trip(s.payload, PAYLOAD_FIELD_SIZE as nat);
}

/// Every slot of `q` is well formed.
pub open spec fn all_wf(q: Seq<Slot>) -> bool {
    forall|i: int| 0 <= i < q.len() ==> (#[trigger] q[i]).wf()
}

/// The bytes of a queue are its records side by side: record `i` occupies
/// the bytes from `i * RECORD_SIZE` on.
pub proof fn lemma_queue_bytes_record(q: Seq<Slot>, i: int)
    requires
        all_wf(q),
        0 <= i < q.len(),
    ensures
        queue_bytes(q).len() == q.len() * RECORD_SIZE,
        queue_bytes(q).subrange(i * RECORD_SIZE, (i + 1) * RECORD_SIZE) == record_bytes(q[i]),
    decreases q.len(),
{
    let front = q.drop_last();
    let n = front.len() as int;
    lemma_queue_bytes_len(front);
    lemma_record_bytes_len(q.last());
    if i == n {
        assert(queue_bytes(q).subrange(i * RECORD_SIZE, (i + 1) * RECORD_SIZE) =~= record_bytes(q.last()));
    } else {
        lemma_queue_bytes_record(front, i);
        assert(queue_bytes(q).subrange(i * RECORD_SIZE, (i + 1) * RECORD_SIZE) =~= queue_bytes(front).subrange(
            i * RECORD_SIZE,
            (i + 1) * RECORD_SIZE,
        ));
    }
}

/// The bytes of a queue of well-formed slots: one record's worth per slot.
pub proof fn lemma_queue_bytes_len(q: Seq<Slot>)
    requires
        all_wf(q),
    ensures
        queue_bytes(q).len() == q.len() * RECORD_SIZE,
    decreases q.len(),
{
    if q.len() > 0 {
        lemma_queue_bytes_len(q.drop_last());
        lemma_record_bytes_len(q.last());
    }
}

/// Reading the bytes of a queue of well-formed slots gives the queue back.
pub proof fn queue_round_trip(q: Seq<Slot>)
    requires
        q.len() == QUEUE_CAPACITY,
        all_wf(q),
    ensures
        queue_bytes(q).len() == QUEUE_SIZE,
        queue_of(queue_bytes(q)) == Some(q),
{
    let bytes = queue_bytes(q);
    lemma_queue_bytes_len(q);
    assert forall|i: int| 0 <= i < QUEUE_CAPACITY implies (#[trigger] record_at(bytes, i)) == Some(q[i]) by {
        lemma_queue_bytes_record(q, i);
        record_round_trip(q[i]);
    }
    assert(queue_of(bytes)->Some_0 =~= q);
}

/// Reading the bytes of two queues of well-formed slots gives both back.
pub proof fn segment_round_trip(input: Seq<Slot>, output: Seq<Slot>)
    requires
        input.len() == QUEUE_CAPACITY,
        output.len() == QUEUE_CAPACITY,
        all_wf(input),
        all_wf(output),
    ensures
        segment_bytes(input, output).len() == SEGMENT_SIZE,
        segment_of(segment_bytes(input, output)) == Some((input, output)),
{
    queue_round_trip(input);
    queue_round_trip(output);
    let bytes = segment_bytes(input, output);
    assert(bytes.subrange(0, QUEUE_SIZE as int) =~= queue_bytes(input));
    assert(bytes.subrange(QUEUE_SIZE as int, SEGMENT_SIZE as int) =~= queue_bytes(output));
}

impl SlotQueue {
    /// Appends the bytes of this queue to `out`.
    pub fn write_bytes(&self, out: &mut Vec<u8>)
        requires
            self.wf(),
        ensures
            final(out)@ == old(out)@ + queue_bytes(self@),
    {
        let mut i: usize = 0;
        while i < self.slots.len()
            invariant
                self.wf(),
                i <= self.slots@.len(),
                out@ == old(out)@ + queue_bytes(self@.take(i as int)),
            decreases self.slots@.len() - i,
        {
            self.slots[i].write_bytes(out);
            proof {
                let next = self@.take(i + 1);
                assert(next.drop_last() =~= self@.take(i as int));
                assert(next.last() == self@[i as int]);
                assert(out@ =~= old(out)@ + queue_bytes(next));
            }
            i += 1;
        }
        assert(self@.take(i as int) =~= self@);
    }

    /// The bytes of this queue.
    pub fn to_bytes(&self) -> (bytes: Vec<u8>)
        requires
            self.wf(),
        ensures
            bytes@ == queue_bytes(self@),
            bytes@.len() == QUEUE_SIZE,
    {
        let mut bytes: Vec<u8> = Vec::new();
        self.write_bytes(&mut bytes);
        proof {
            assert(all_wf(self@));
            lemma_queue_bytes_len(self@);
            assert(bytes@ =~= queue_bytes(self@));
        }
        bytes
    }

    /// Reads a queue from its bytes.
    pub fn from_bytes(bytes: &[u8]) -> (r: Option<SlotQueue>)
        ensures
            match r {
                Some(q) => queue_of(bytes@) == Some(q@) && q.wf(),
                None => queue_of(bytes@) is None,
            },
    {
        if bytes.len() != QUEUE_SIZE {
            return None;
        }
        let mut slots: Vec<Record> = Vec::new();
        let mut i: usize = 0;
        while i < QUEUE_CAPACITY
            invariant
                bytes@.len() == QUEUE_SIZE,
                i <= QUEUE_CAPACITY,
                slots@.len() == i,
                forall|j: int| 0 <= j < i ==> record_at(bytes@, j) == Some((#[trigger] slots@[j])@),
                forall|j: int| 0 <= j < i ==> (#[trigger] slots@[j])@.wf(),
            decreases QUEUE_CAPACITY - i,
        {
            let from: usize = i * RECORD_SIZE;
            match Record::from_bytes(slice_subrange(bytes, from, from + RECORD_SIZE)) {
                Some(rec) => {
                    assert(record_at(bytes@, i as int) == Some(rec@));
                    slots.push(rec);
                },
                None => {
                    assert(record_at(bytes@, i as int) is None);
                    return None;
                },
            }
            i += 1;
        }
        let q = SlotQueue { slots };
        assert forall|j: int| 0 <= j < QUEUE_CAPACITY implies (#[trigger] record_at(bytes@, j)) == Some(
            q@[j],
        ) by {
            assert(record_at(bytes@, j) == Some(q.slots@[j]@));
        }
        assert(queue_of(bytes@)->Some_0 =~= q@);
        Some(q)
    }
}

impl Segment {
    /// The bytes of the two queues, input first.
    pub fn to_bytes(&self) -> (bytes: Vec<u8>)
        requires
            self.wf(),
        ensures
            bytes@ == segment_bytes(self.input@, self.output@),
            bytes@.len() == SEGMENT_SIZE,
    {
        let mut bytes: Vec<u8> = Vec::new();
        self.input.write_bytes(&mut bytes);
        self.output.write_bytes(&mut bytes);
        proof {
            assert(all_wf(self.input@));
            assert(all_wf(self.output@));
            lemma_queue_bytes_len(self.input@);
            lemma_queue_bytes_len(self.output@);
            assert(bytes@ =~= segment_bytes(self.input@, self.output@));
        }
        bytes
    }

    /// Reads the two queues from their bytes.
    pub fn from_bytes(bytes: &[u8]) -> (r: Option<Segment>)
        ensures
            match r {
                Some(seg) => segment_of(bytes@) == Some((seg.input@, seg.output@)) && seg.wf(),
                None => segment_of(bytes@) is None,
            },
    {
        if bytes.len() != SEGMENT_SIZE {
            return None;
        }
        let input = match SlotQueue::from_bytes(slice_subrange(bytes, 0, QUEUE_SIZE)) {
            Some(input) => input,
            None => {
                return None;
            },
        };
        let output = match SlotQueue::from_bytes(slice_subrange(bytes, QUEUE_SIZE, SEGMENT_SIZE)) {
            Some(output) => output,
            None => {
                return None;
            },
        };
        Some(Segment { input, output })
    }
}

} // verus!
