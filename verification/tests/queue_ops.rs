use rust_core::queue::{SlotQueue, QUEUE_CAPACITY};
use rust_core::record::{has_no_nul, starts_with, QueueError, Record, ID_CAPACITY, PAYLOAD_CAPACITY};
use rust_core::segment::{
    clear_shared_memory, create_shared_memory, read_from_input_queue, read_from_output_queue,
    remove_from_input_queue, remove_from_output_queue, write_to_input_queue,
    write_to_output_queue,
};

#[test]
fn capacities_are_as_laid_out() {
    assert_eq!(ID_CAPACITY, 36);
    assert_eq!(PAYLOAD_CAPACITY, 256);
    assert_eq!(QUEUE_CAPACITY, 100);
}

#[test]
fn new_queue_is_empty() {
    let q = SlotQueue::new();
    assert_eq!(q.slots.len(), 100);
    assert_eq!(q.occupied(), 0);
    assert_eq!(q.peek_first(), Err(QueueError::NotFound));
}

#[test]
fn append_then_peek_returns_payload_unchanged() {
    let mut q = SlotQueue::new();
    assert_eq!(q.append(b"id-1", b"{\"k\":\"v\"}"), Ok(()));
    assert_eq!(q.peek_first(), Ok(b"{\"k\":\"v\"}".to_vec()));
    assert_eq!(q.occupied(), 1);
    assert_eq!(q.slots[0].id(), b"id-1".to_vec());
    assert_eq!(q.slots[0].payload(), b"{\"k\":\"v\"}".to_vec());
}

#[test]
fn peek_does_not_remove() {
    let mut q = SlotQueue::new();
    q.append(b"a", b"first").unwrap();
    assert_eq!(q.peek_first(), Ok(b"first".to_vec()));
    assert_eq!(q.peek_first(), Ok(b"first".to_vec()));
    assert_eq!(q.occupied(), 1);
}

#[test]
fn texts_at_capacity_are_stored_whole() {
    let id = vec![b'i'; 36];
    let payload = vec![b'p'; 256];
    let mut q = SlotQueue::new();
    assert_eq!(q.append(&id, &payload), Ok(()));
    assert_eq!(q.peek_first(), Ok(payload.clone()));
    assert_eq!(q.slots[0].id(), id);
}

#[test]
fn oversize_id_is_refused() {
    let id = vec![b'i'; 37];
    let mut q = SlotQueue::new();
    assert_eq!(q.append(&id, b"x"), Err(QueueError::Oversize));
    assert_eq!(q.occupied(), 0);
    assert_eq!(q.peek_first(), Err(QueueError::NotFound));
}

#[test]
fn oversize_payload_is_refused() {
    let payload = vec![b'p'; 257];
    let mut q = SlotQueue::new();
    assert_eq!(q.append(b"id", &payload), Err(QueueError::Oversize));
    assert_eq!(q.occupied(), 0);
}

#[test]
fn oversize_is_reported_before_full() {
    let mut q = SlotQueue::new();
    for i in 0..100 {
        q.append(format!("id-{}", i).as_bytes(), b"x").unwrap();
    }
    let payload = vec![b'p'; 300];
    assert_eq!(q.append(b"late", &payload), Err(QueueError::Oversize));
}

#[test]
fn zero_byte_is_refused() {
    let mut q = SlotQueue::new();
    assert_eq!(q.append(b"a\0b", b"x"), Err(QueueError::InvalidText));
    assert_eq!(q.append(b"ab", b"x\0"), Err(QueueError::InvalidText));
    assert_eq!(q.occupied(), 0);
    let long = vec![0u8; 40];
    assert_eq!(q.append(&long, b"x"), Err(QueueError::Oversize));
}

#[test]
fn append_remove_peek_finds_nothing() {
    let mut q = SlotQueue::new();
    q.append(b"abc", b"X").unwrap();
    assert_eq!(q.remove(b"abc"), Ok(()));
    assert_eq!(q.peek_first(), Err(QueueError::NotFound));
    assert_eq!(q.occupied(), 0);
}

#[test]
fn hundred_appends_succeed_and_the_next_is_refused() {
    let mut q = SlotQueue::new();
    for i in 0..100 {
        let id = format!("id-{}", i);
        assert_eq!(q.append(id.as_bytes(), b"payload"), Ok(()));
        assert_eq!(q.slots[i].id(), id.as_bytes().to_vec());
    }
    assert_eq!(q.occupied(), 100);
    assert_eq!(q.append(b"id-100", b"payload"), Err(QueueError::QueueFull));
    assert_eq!(q.occupied(), 100);
    assert_eq!(q.peek_first(), Ok(b"payload".to_vec()));
}

#[test]
fn remove_by_prefix_takes_a_longer_id() {
    let mut q = SlotQueue::new();
    q.append(b"abcdef-123", b"data").unwrap();
    assert_eq!(q.remove(b"abcdef"), Ok(()));
    assert_eq!(q.peek_first(), Err(QueueError::NotFound));
}

#[test]
fn remove_by_prefix_takes_the_lowest_match() {
    let mut q = SlotQueue::new();
    q.append(b"abcdef-123", b"one").unwrap();
    q.append(b"abcdef", b"two").unwrap();
    assert_eq!(q.remove(b"abcdef"), Ok(()));
    assert_eq!(q.peek_first(), Ok(b"two".to_vec()));
    assert!(q.slots[0].is_empty());
    assert!(!q.slots[1].is_empty());
}

#[test]
fn remove_exact_tells_ids_with_a_common_prefix_apart() {
    let mut q = SlotQueue::new();
    q.append(b"abcdef-123", b"one").unwrap();
    q.append(b"abcdef", b"two").unwrap();
    assert_eq!(q.remove_exact(b"abcdef"), Ok(()));
    assert_eq!(q.peek_first(), Ok(b"one".to_vec()));
    assert_eq!(q.remove_exact(b"abc"), Err(QueueError::NotFound));
    assert_eq!(q.occupied(), 1);
}

#[test]
fn remove_of_an_unknown_id_is_not_found() {
    let mut q = SlotQueue::new();
    q.append(b"abc", b"one").unwrap();
    assert_eq!(q.remove(b"abd"), Err(QueueError::NotFound));
    assert_eq!(q.remove(b"abcd"), Err(QueueError::NotFound));
    assert_eq!(q.occupied(), 1);
}

#[test]
fn remove_with_an_empty_id_blanks_the_first_slot() {
    let mut q = SlotQueue::new();
    q.append(b"abc", b"one").unwrap();
    q.append(b"xyz", b"two").unwrap();
    assert_eq!(q.remove(b""), Ok(()));
    assert_eq!(q.peek_first(), Ok(b"two".to_vec()));
}

#[test]
fn append_lands_in_the_lowest_hole() {
    let mut q = SlotQueue::new();
    q.append(b"a", b"1").unwrap();
    q.append(b"b", b"2").unwrap();
    q.append(b"c", b"3").unwrap();
    q.remove(b"a").unwrap();
    assert_eq!(q.peek_first(), Ok(b"2".to_vec()));
    q.append(b"d", b"4").unwrap();
    assert_eq!(q.slots[0].id(), b"d".to_vec());
    assert_eq!(q.peek_first(), Ok(b"4".to_vec()));
    assert_eq!(q.occupied(), 3);
}

#[test]
fn an_empty_id_leaves_the_slot_empty() {
    let mut q = SlotQueue::new();
    assert_eq!(q.append(b"", b"ghost"), Ok(()));
    assert_eq!(q.peek_first(), Err(QueueError::NotFound));
    assert_eq!(q.occupied(), 0);
    q.append(b"real", b"seen").unwrap();
    assert_eq!(q.slots[0].id(), b"real".to_vec());
    assert_eq!(q.peek_first(), Ok(b"seen".to_vec()));
}

#[test]
fn clear_blanks_every_slot() {
    let mut q = SlotQueue::new();
    for i in 0..100 {
        q.append(format!("id-{}", i).as_bytes(), b"x").unwrap();
    }
    q.clear();
    assert_eq!(q.occupied(), 0);
    assert_eq!(q.peek_first(), Err(QueueError::NotFound));
    assert_eq!(q.append(b"again", b"y"), Ok(()));
    assert_eq!(q.slots[0].id(), b"again".to_vec());
}

#[test]
fn record_new_validates() {
    let r = Record::new(b"id", b"payload").unwrap();
    assert!(!r.is_empty());
    assert!(r.id_starts_with(b"i"));
    assert!(r.id_starts_with(b""));
    assert!(!r.id_starts_with(b"idx"));
    assert!(r.id_equals(b"id"));
    assert!(!r.id_equals(b"i"));
    assert!(matches!(Record::new(&[b'a'; 37], b""), Err(QueueError::Oversize)));
    assert!(matches!(Record::new(b"a", &[b'a'; 257]), Err(QueueError::Oversize)));
    assert!(matches!(Record::new(b"\0", b""), Err(QueueError::InvalidText)));
    assert!(Record::blank().is_empty());
}

#[test]
fn byte_helpers() {
    assert!(has_no_nul(b"abc"));
    assert!(has_no_nul(b""));
    assert!(!has_no_nul(b"ab\0"));
    assert!(starts_with(b"abcdef-123", b"abcdef"));
    assert!(starts_with(b"abc", b"abc"));
    assert!(!starts_with(b"ab", b"abc"));
    assert!(!starts_with(b"abd", b"abc"));
}

#[test]
fn fresh_segment_has_two_empty_queues() {
    let seg = create_shared_memory();
    assert_eq!(read_from_input_queue(&seg), Err(QueueError::NotFound));
    assert_eq!(read_from_output_queue(&seg), Err(QueueError::NotFound));
    assert_eq!(seg.input.slots.len(), 100);
    assert_eq!(seg.output.slots.len(), 100);
}

#[test]
fn the_two_queues_are_independent() {
    let mut seg = create_shared_memory();
    assert_eq!(write_to_input_queue(&mut seg, b"u1", b"in"), Ok(()));
    assert_eq!(read_from_output_queue(&seg), Err(QueueError::NotFound));
    assert_eq!(write_to_output_queue(&mut seg, b"u1", b"out"), Ok(()));
    assert_eq!(read_from_input_queue(&seg), Ok(b"in".to_vec()));
    assert_eq!(read_from_output_queue(&seg), Ok(b"out".to_vec()));
    assert_eq!(remove_from_input_queue(&mut seg, b"u1"), Ok(()));
    assert_eq!(read_from_input_queue(&seg), Err(QueueError::NotFound));
    assert_eq!(read_from_output_queue(&seg), Ok(b"out".to_vec()));
    assert_eq!(remove_from_output_queue(&mut seg, b"u1"), Ok(()));
    assert_eq!(read_from_output_queue(&seg), Err(QueueError::NotFound));
    assert_eq!(remove_from_output_queue(&mut seg, b"u1"), Err(QueueError::NotFound));
}

#[test]
fn segment_write_refusals() {
    let mut seg = create_shared_memory();
    assert_eq!(write_to_input_queue(&mut seg, &[b'a'; 37], b"x"), Err(QueueError::Oversize));
    assert_eq!(write_to_output_queue(&mut seg, b"a", &[b'a'; 257]), Err(QueueError::Oversize));
    for i in 0..100 {
        write_to_input_queue(&mut seg, format!("k{}", i).as_bytes(), b"x").unwrap();
    }
    assert_eq!(write_to_input_queue(&mut seg, b"k100", b"x"), Err(QueueError::QueueFull));
    assert_eq!(write_to_output_queue(&mut seg, b"k100", b"x"), Ok(()));
}

#[test]
fn clear_empties_both_queues() {
    let mut seg = create_shared_memory();
    write_to_input_queue(&mut seg, b"u1", b"in").unwrap();
    write_to_output_queue(&mut seg, b"u2", b"out").unwrap();
    clear_shared_memory(&mut seg);
    assert_eq!(read_from_input_queue(&seg), Err(QueueError::NotFound));
    assert_eq!(read_from_output_queue(&seg), Err(QueueError::NotFound));
    assert_eq!(seg.input.occupied(), 0);
    assert_eq!(seg.output.occupied(), 0);
}
