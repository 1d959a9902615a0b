//! The segment: the input queue and the output queue, handed explicitly to
//! every operation.

use vstd::prelude::*;
use crate::queue::{
    append_result, append_state, blank_queue, first_with_prefix, peek_result, remove_state,
    SlotQueue, QUEUE_CAPACITY,
};
use crate::record::QueueError;

verus! {

/// The two queues of one shared region.
#[derive(Debug)]
pub struct Segment {
    pub input: SlotQueue,
    pub output: SlotQueue,
}

impl Segment {
    /// Both queues are well formed.
    pub open spec fn wf(&self) -> bool {
        self.input.wf() && self.output.wf()
    }

    /// Checks that both queues are well formed.
    pub fn is_well_formed(&self) -> (ok: bool)
        ensures
            ok == self.wf(),
    {
        self.input.is_well_formed() && self.output.is_well_formed()
    }
}

/// A fresh segment: every slot of both queues is empty.
pub fn create_shared_memory() -> (seg: Segment)
    ensures
        seg.wf(),
        seg.input@ == blank_queue(QUEUE_CAPACITY as nat),
        seg.output@ == blank_queue(QUEUE_CAPACITY as nat),
{
    Segment { input: SlotQueue::new(), output: SlotQueue::new() }
}

/// Appends (uuid, data) to the input queue; the output queue is untouched.
pub fn write_to_input_queue(seg: &mut Segment, uuid: &[u8], data: &[u8]) -> (r: Result<(), QueueError>)
    requires
        old(seg).wf(),
    ensures
        final(seg).wf(),
        final(seg).input@ == append_state(old(seg).input@, uuid@, data@),
        final(seg).output == old(seg).output,
        match r {
            Ok(()) => append_result(old(seg).input@, uuid@, data@) is Ok,
            Err(e) => append_result(old(seg).input@, uuid@, data@) == Err::<int, QueueError>(e),
        },
{
    seg.input.append(uuid, data)
}

/// Appends (uuid, data) to the output queue; the input queue is untouched.
pub fn write_to_output_queue(seg: &mut Segment, uuid: &[u8], data: &[u8]) -> (r: Result<(), QueueError>)
    requires
        old(seg).wf(),
    ensures
        final(seg).wf(),
        final(seg).output@ == append_state(old(seg).output@, uuid@, data@),
        final(seg).input == old(seg).input,
        match r {
            Ok(()) => append_result(old(seg).output@, uuid@, data@) is Ok,
            Err(e) => append_result(old(seg).output@, uuid@, data@) == Err::<int, QueueError>(e),
        },
{
    seg.output.append(uuid, data)
}

/// The payload of the lowest occupied slot of the input queue.
pub fn read_from_input_queue(seg: &Segment) -> (r: Result<Vec<u8>, QueueError>)
    requires
        seg.wf(),
    ensures
        match r {
            Ok(p) => peek_result(seg.input@) == Ok::<Seq<u8>, QueueError>(p@),
            Err(e) => peek_result(seg.input@) == Err::<Seq<u8>, QueueError>(e),
        },
{
    seg.input.peek_first()
}

/// The payload of the lowest occupied slot of the output queue.
pub fn read_from_output_queue(seg: &Segment) -> (r: Result<Vec<u8>, QueueError>)
    requires
        seg.wf(),
    ensures
        match r {
            Ok(p) => peek_result(seg.output@) == Ok::<Seq<u8>, QueueError>(p@),
            Err(e) => peek_result(seg.output@) == Err::<Seq<u8>, QueueError>(e),
        },
{
    seg.output.peek_first()
}

/// Blanks the lowest slot of the input queue whose id begins with `uuid`.
pub fn remove_from_input_queue(seg: &mut Segment, uuid: &[u8]) -> (r: Result<(), QueueError>)
    requires
        old(seg).wf(),
    ensures
        final(seg).wf(),
        final(seg).input@ == remove_state(old(seg).input@, uuid@),
        final(seg).output == old(seg).output,
        r is Ok <==> first_with_prefix(old(seg).input@, uuid@) is Some,
        r is Err ==> r == Err::<(), QueueError>(QueueError::NotFound),
{
    seg.input.remove(uuid)
}

/// Blanks the lowest slot of the output queue whose id begins with `uuid`.
pub fn remove_from_output_queue(seg: &mut Segment, uuid: &[u8]) -> (r: Result<(), QueueError>)
    requires
        old(seg).wf(),
    ensures
        final(seg).wf(),
        final(seg).output@ == remove_state(old(seg).output@, uuid@),
        final(seg).input == old(seg).input,
        r is Ok <==> first_with_prefix(old(seg).output@, uuid@) is Some,
        r is Err ==> r == Err::<(), QueueError>(QueueError::NotFound),
{
    seg.output.remove(uuid)
}

/// Blanks every slot of both queues.
pub fn clear_shared_memory(seg: &mut Segment)
    requires
        old(seg).wf(),
    ensures
        final(seg).wf(),
        final(seg).input@ == blank_queue(QUEUE_CAPACITY as nat),
        final(seg).output@ == blank_queue(QUEUE_CAPACITY as nat),
{
    seg.input.clear();
    seg.output.clear();
}

} // verus!
