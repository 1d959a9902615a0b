//! What holds of the queue operations taken together.

use vstd::prelude::*;
use crate::queue::{
    all_empty, all_occupied, append_result, append_state, blank_queue, first_empty,
    first_occupied, first_with_id, first_with_prefix, is_first_empty, is_first_occupied,
    is_first_with_id, is_first_with_prefix, lemma_first_empty, lemma_first_occupied,
    lemma_first_with_id, lemma_first_with_prefix, peek_result, remove_exact_state, remove_state,
};
use crate::record::{checked_slot, is_prefix, QueueError, Slot, ID_CAPACITY, PAYLOAD_CAPACITY};

verus! {

/// A text is a prefix of itself.
pub proof fn lemma_prefix_reflexive(text: Seq<u8>)
    ensures
        is_prefix(text, text),
{
    assert(text.subrange(0, text.len() as int) =~= text);
}

/// A queue without an occupied slot has nothing to peek at.
pub proof fn peek_of_empty_is_not_found(q: Seq<Slot>)
    requires
        all_empty(q),
    ensures
        peek_result(q) == Err::<Seq<u8>, QueueError>(QueueError::NotFound),
{
    assert(forall|k: int| !is_first_occupied(q, k));
}

/// A cleared queue has nothing to peek at.
pub proof fn peek_after_clear_is_not_found(n: nat)
    ensures
        peek_result(blank_queue(n)) == Err::<Seq<u8>, QueueError>(QueueError::NotFound),
{
    peek_of_empty_is_not_found(blank_queue(n));
}

/// When an append has written slot `i` and that slot is the lowest occupied
/// one afterwards, peeking returns the appended payload unchanged.
pub proof fn peek_after_append(q: Seq<Slot>, id: Seq<u8>, payload: Seq<u8>, i: int)
    requires
        append_result(q, id, payload) == Ok::<int, QueueError>(i),
        first_occupied(append_state(q, id, payload)) == Some(i),
    ensures
        peek_result(append_state(q, id, payload)) == Ok::<Seq<u8>, QueueError>(payload),
{
    assert(is_first_empty(q, i));
}

/// On a queue whose slots are all empty, an accepted append with a non-empty
/// id lands in slot 0 and peeking returns its payload unchanged.
pub proof fn peek_after_append_on_empty(q: Seq<Slot>, id: Seq<u8>, payload: Seq<u8>)
    requires
        q.len() > 0,
        all_empty(q),
        checked_slot(id, payload) is Ok,
        id.len() > 0,
    ensures
        append_result(q, id, payload) == Ok::<int, QueueError>(0),
        peek_result(append_state(q, id, payload)) == Ok::<Seq<u8>, QueueError>(payload),
{
    assert(is_first_empty(q, 0));
    lemma_first_empty(q, 0);
    let after = append_state(q, id, payload);
    assert(is_first_occupied(after, 0));
    lemma_first_occupied(after, 0);
}

/// A text over capacity is refused as oversize, whatever the queue holds,
/// and the queue is left as it was.
pub proof fn oversize_is_refused(q: Seq<Slot>, id: Seq<u8>, payload: Seq<u8>)
    requires
        id.len() > ID_CAPACITY || payload.len() > PAYLOAD_CAPACITY,
    ensures
        append_result(q, id, payload) == Err::<int, QueueError>(QueueError::Oversize),
        append_state(q, id, payload) == q,
{
}

/// An append changes at most the slot it reports, and fills it with exactly
/// the given id and payload: no slot ever holds a part of a write.
pub proof fn append_writes_one_whole_slot(q: Seq<Slot>, id: Seq<u8>, payload: Seq<u8>, j: int)
    requires
        0 <= j < q.len(),
    ensures
        append_state(q, id, payload).len() == q.len(),
        append_state(q, id, payload)[j] == q[j] || (append_result(q, id, payload) == Ok::<int, QueueError>(j)
            && q[j].is_empty() && append_state(q, id, payload)[j] == (Slot { id, payload })),
{
    if append_result(q, id, payload) is Ok {
        let i = append_result(q, id, payload)->Ok_0;
        assert(is_first_empty(q, i));
    }
}

/// Blanking a slot of a queue whose slots are all empty leaves them all empty.
pub proof fn lemma_blanking_keeps_empty(q: Seq<Slot>, i: int)
    requires
        0 <= i < q.len(),
        forall|j: int| 0 <= j < q.len() && j != i ==> (#[trigger] q[j]).is_empty(),
    ensures
        all_empty(q.update(i, Slot::blank())),
{
    let end = q.update(i, Slot::blank());
    assert forall|j: int| 0 <= j < end.len() implies (#[trigger] end[j]).is_empty() by {
        if j != i {
            assert(q[j].is_empty());
        }
    }
}

/// Appending to an otherwise empty queue, removing by the same id and then
/// peeking finds nothing, whatever the id and the payload: every slot is
/// empty again. Where the texts fit a slot, the append and the removal both
/// succeed.
pub proof fn append_remove_peek(q: Seq<Slot>, id: Seq<u8>, payload: Seq<u8>)
    requires
        q.len() > 0,
        all_empty(q),
    ensures
        checked_slot(id, payload) is Ok ==> append_result(q, id, payload) is Ok && first_with_prefix(
            append_state(q, id, payload),
            id,
        ) is Some,
        all_empty(remove_state(append_state(q, id, payload), id)),
        peek_result(remove_state(append_state(q, id, payload), id)) == Err::<Seq<u8>, QueueError>(
            QueueError::NotFound,
        ),
{
    let after = append_state(q, id, payload);
    if checked_slot(id, payload) is Ok {
        assert(is_first_empty(q, 0));
        lemma_first_empty(q, 0);
        lemma_prefix_reflexive(id);
        assert(after[0].id == id);
        assert(is_first_with_prefix(after, id, 0));
        lemma_first_with_prefix(after, id, 0);
        assert forall|j: int| 0 <= j < after.len() && j != 0 implies (#[trigger] after[j]).is_empty() by {
            assert(q[j].is_empty());
        }
        lemma_blanking_keeps_empty(after, 0);
    } else {
        assert(after == q);
        if first_with_prefix(q, id) is Some {
            let i = first_with_prefix(q, id)->Some_0;
            assert(is_first_with_prefix(q, id, i));
            lemma_blanking_keeps_empty(q, i);
        }
    }
    peek_of_empty_is_not_found(remove_state(after, id));
}

/// The same with the exact-match removal.
pub proof fn append_remove_exact_peek(q: Seq<Slot>, id: Seq<u8>, payload: Seq<u8>)
    requires
        q.len() > 0,
        all_empty(q),
    ensures
        checked_slot(id, payload) is Ok ==> append_result(q, id, payload) is Ok && first_with_id(
            append_state(q, id, payload),
            id,
        ) is Some,
        all_empty(remove_exact_state(append_state(q, id, payload), id)),
        peek_result(remove_exact_state(append_state(q, id, payload), id)) == Err::<
            Seq<u8>,
            QueueError,
        >(QueueError::NotFound),
{
    let after = append_state(q, id, payload);
    if checked_slot(id, payload) is Ok {
        assert(is_first_empty(q, 0));
        lemma_first_empty(q, 0);
        assert(after[0].id == id);
        assert(is_first_with_id(after, id, 0));
        lemma_first_with_id(after, id, 0);
        assert forall|j: int| 0 <= j < after.len() && j != 0 implies (#[trigger] after[j]).is_empty() by {
            assert(q[j].is_empty());
        }
        lemma_blanking_keeps_empty(after, 0);
    } else {
        assert(after == q);
        if first_with_id(q, id) is Some {
            let i = first_with_id(q, id)->Some_0;
            assert(is_first_with_id(q, id, i));
            lemma_blanking_keeps_empty(q, i);
        }
    }
    peek_of_empty_is_not_found(remove_exact_state(after, id));
}

/// Removal by prefix takes a slot whose stored id merely begins with the
/// given id, when no lower slot does.
pub proof fn remove_takes_a_longer_id(q: Seq<Slot>, id: Seq<u8>, i: int)
    requires
        is_first_with_prefix(q, id, i),
    ensures
        remove_state(q, id) == q.update(i, Slot::blank()),
        remove_state(q, id)[i].is_empty(),
{
    lemma_first_with_prefix(q, id, i);
}

/// A queue without an empty slot refuses every append that fits, and is
/// left as it was.
pub proof fn full_queue_refuses(q: Seq<Slot>, id: Seq<u8>, payload: Seq<u8>)
    requires
        all_occupied(q),
        checked_slot(id, payload) is Ok,
    ensures
        append_result(q, id, payload) == Err::<int, QueueError>(QueueError::QueueFull),
        append_state(q, id, payload) == q,
{
    assert(forall|k: int| !is_first_empty(q, k));
}

/// A queue with an empty slot accepts every append that fits.
pub proof fn room_means_success(q: Seq<Slot>, id: Seq<u8>, payload: Seq<u8>)
    requires
        !all_occupied(q),
        checked_slot(id, payload) is Ok,
    ensures
        append_result(q, id, payload) is Ok,
{
    let j = choose|j: int| 0 <= j < q.len() && (#[trigger] q[j]).is_empty();
    lemma_some_first_empty(q, j);
}

/// Below any empty slot there is a lowest one.
pub proof fn lemma_some_first_empty(q: Seq<Slot>, j: int)
    requires
        0 <= j < q.len(),
        q[j].is_empty(),
    ensures
        first_empty(q) is Some,
        first_empty(q)->Some_0 <= j,
    decreases j,
{
    if exists|k: int| 0 <= k < j && (#[trigger] q[k]).is_empty() {
        let k = choose|k: int| 0 <= k < j && (#[trigger] q[k]).is_empty();
        lemma_some_first_empty(q, k);
    } else {
        assert(is_first_empty(q, j));
        lemma_first_empty(q, j);
    }
}

/// The queue after appending each of `entries` in turn.
pub open spec fn append_all(q: Seq<Slot>, entries: Seq<Slot>) -> Seq<Slot>
    decreases entries.len(),
{
    if entries.len() == 0 {
        q
    } else {
        append_state(append_all(q, entries.drop_last()), entries.last().id, entries.last().payload)
    }
}

/// Every entry fits a slot and has a non-empty id.
pub open spec fn all_storable(entries: Seq<Slot>) -> bool {
    forall|k: int| 0 <= k < entries.len() ==> (#[trigger] entries[k]).wf() && !entries[k].is_empty()
}

/// Appending storable entries to a blank queue of `n` slots, no more than it
/// has slots, puts the k-th entry into slot k and leaves the rest blank.
pub proof fn lemma_append_all_shape(n: nat, entries: Seq<Slot>)
    requires
        entries.len() <= n,
        all_storable(entries),
    ensures
        append_all(blank_queue(n), entries).len() == n,
        forall|j: int| 0 <= j < entries.len() ==> append_all(blank_queue(n), entries)[j] == entries[j],
        forall|j: int| entries.len() <= j < n ==> append_all(blank_queue(n), entries)[j] == Slot::blank(),
    decreases entries.len(),
{
    if entries.len() > 0 {
        let front = entries.drop_last();
        let last = entries.last();
        assert(forall|k: int| 0 <= k < front.len() ==> front[k] == entries[k]);
        lemma_append_all_shape(n, front);
        let before = append_all(blank_queue(n), front);
        let k = front.len() as int;
        assert forall|j: int| 0 <= j < k implies !(#[trigger] before[j]).is_empty() by {
            assert(before[j] == front[j]);
            assert(front[j].wf() && !front[j].is_empty());
        }
        assert(before[k] == Slot::blank());
        assert(is_first_empty(before, k));
        lemma_first_empty(before, k);
        assert(last.wf());
        assert(checked_slot(last.id, last.payload) is Ok);
        assert(append_all(blank_queue(n), entries) == before.update(k, last));
    }
}

/// Starting from a blank queue, each of up to `n` storable entries is
/// accepted, the k-th into slot k.
pub proof fn appends_succeed_until_full(n: nat, entries: Seq<Slot>, k: int)
    requires
        entries.len() <= n,
        all_storable(entries),
        0 <= k < entries.len(),
    ensures
        append_result(append_all(blank_queue(n), entries.take(k)), entries[k].id, entries[k].payload)
            == Ok::<int, QueueError>(k),
{
    let front = entries.take(k);
    assert(forall|j: int| 0 <= j < front.len() ==> front[j] == entries[j]);
    lemma_append_all_shape(n, front);
    let before = append_all(blank_queue(n), front);
    assert forall|j: int| 0 <= j < k implies !(#[trigger] before[j]).is_empty() by {
        assert(before[j] == front[j]);
        assert(front[j].wf() && !front[j].is_empty());
    }
    assert(before[k] == Slot::blank());
    assert(is_first_empty(before, k));
    lemma_first_empty(before, k);
    assert(entries[k].wf());
}

/// Once as many storable entries as the queue has slots were appended to a
/// blank queue, the next append that fits is refused as full.
pub proof fn append_beyond_capacity_is_refused(n: nat, entries: Seq<Slot>, id: Seq<u8>, payload: Seq<u8>)
    requires
        entries.len() == n,
        all_storable(entries),
        checked_slot(id, payload) is Ok,
    ensures
        append_result(append_all(blank_queue(n), entries), id, payload) == Err::<int, QueueError>(
            QueueError::QueueFull,
        ),
        append_state(append_all(blank_queue(n), entries), id, payload) == append_all(blank_queue(n), entries),
{
    lemma_append_all_shape(n, entries);
    let filled = append_all(blank_queue(n), entries);
    assert forall|j: int| 0 <= j < filled.len() implies !(#[trigger] filled[j]).is_empty() by {
        assert(filled[j] == entries[j]);
    }
    full_queue_refuses(filled, id, payload);
}

} // verus!
