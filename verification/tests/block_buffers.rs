use core_media::block_buffer::{
    kCMBlockBufferBadLengthParameterErr, kCMBlockBufferBadOffsetParameterErr,
    kCMBlockBufferEmptyBBufErr, AccessedRegion, CMBlockBuffer,
};
use core_media::store::Store;

#[test]
fn new_with_memory_block_copies_the_data_range() {
    let mut store = Store::new();
    let backing = vec![1u8, 2, 3, 4, 5, 6];
    let block = CMBlockBuffer::new_with_memory_block(&mut store, &backing, 1, 4).unwrap();
    assert_eq!(block.get_data_length(&store), 4);
    assert!(!block.is_empty(&store));
    let mut out = vec![0u8; 4];
    block.copy_data_bytes(&store, 0, &mut out).unwrap();
    assert_eq!(out, vec![2, 3, 4, 5]);
}

#[test]
fn zero_length_data_range_is_a_bad_length() {
    // The foreign contract requires a nonzero data range when creating from a
    // memory block.
    let mut store = Store::new();
    let backing = vec![1u8, 2, 3];
    let r = CMBlockBuffer::new_with_memory_block(&mut store, &backing, 0, 0);
    assert_eq!(r.err(), Some(kCMBlockBufferBadLengthParameterErr));
}

#[test]
fn carve_errors_are_distinct() {
    let mut store = Store::new();
    let backing = vec![1u8, 2, 3];
    let r = CMBlockBuffer::new_with_memory_block(&mut store, &backing, 4, 1);
    assert_eq!(r.err(), Some(kCMBlockBufferBadOffsetParameterErr));
    let r = CMBlockBuffer::new_with_memory_block(&mut store, &backing, 2, 2);
    assert_eq!(r.err(), Some(kCMBlockBufferBadLengthParameterErr));
}

#[test]
fn empty_block_reads_fail_with_the_empty_code() {
    let mut store = Store::new();
    let block = CMBlockBuffer::new_empty(&mut store).unwrap();
    assert!(block.is_empty(&store));
    let mut out = vec![0u8; 1];
    assert_eq!(
        block.copy_data_bytes(&store, 0, &mut out).err(),
        Some(kCMBlockBufferEmptyBBufErr)
    );
    assert_eq!(block.get_data(&store, 0).err(), Some(kCMBlockBufferEmptyBBufErr));
    // No partial read was delivered.
    assert_eq!(out, vec![0u8]);
}

#[test]
fn append_adds_a_segment() {
    let mut store = Store::new();
    let block = CMBlockBuffer::new_with_memory_block(&mut store, &vec![1u8, 2], 0, 2).unwrap();
    block
        .append_memory_block(&mut store, &vec![3u8, 4, 5], 0, 3)
        .unwrap();
    assert_eq!(block.get_data_length(&store), 5);
    let mut out = vec![0u8; 5];
    block.copy_data_bytes(&store, 0, &mut out).unwrap();
    assert_eq!(out, vec![1, 2, 3, 4, 5]);
    // The two segments are separately contiguous, the whole is not.
    assert!(block.is_range_contiguous(&store, 0, 2));
    assert!(block.is_range_contiguous(&store, 2, 3));
    assert!(!block.is_range_contiguous(&store, 1, 2));
}

#[test]
fn copy_out_of_range_fails_without_partial_reads() {
    let mut store = Store::new();
    let block = CMBlockBuffer::new_with_memory_block(&mut store, &vec![1u8, 2, 3], 0, 3).unwrap();
    let mut out = vec![9u8; 2];
    assert_eq!(
        block.copy_data_bytes(&store, 4, &mut out).err(),
        Some(kCMBlockBufferBadOffsetParameterErr)
    );
    assert_eq!(
        block.copy_data_bytes(&store, 2, &mut out).err(),
        Some(kCMBlockBufferBadLengthParameterErr)
    );
    assert_eq!(out, vec![9, 9]);
}

#[test]
fn replace_then_fresh_read_returns_written_bytes() {
    // A write followed immediately by a re-read through a fresh view yields
    // exactly the written bytes.
    let mut store = Store::new();
    let block = CMBlockBuffer::new_with_memory_block(&mut store, &vec![0u8; 6], 0, 6).unwrap();
    block
        .replace_data_bytes(&mut store, &vec![7u8, 8, 9], 2)
        .unwrap();
    let view = block.get_data(&store, 0).unwrap();
    let bytes = view.read(&store);
    assert_eq!(bytes, vec![0, 0, 7, 8, 9, 0]);
}

#[test]
fn mutation_invalidates_earlier_views() {
    let mut store = Store::new();
    let block = CMBlockBuffer::new_with_memory_block(&mut store, &vec![1u8, 2, 3], 0, 3).unwrap();
    let stale = block.get_data(&store, 0).unwrap();
    let g0 = stale.generation;
    block.fill_data_bytes(&mut store, 0xFF, 0, 2).unwrap();
    // The mutation advanced the block's generation past the view's; a fresh
    // view carries the new generation and sees the mutation.
    let fresh = block.get_data(&store, 0).unwrap();
    assert_ne!(fresh.generation, g0);
    assert_eq!(fresh.read(&store), vec![0xFF, 0xFF, 3]);
}

#[test]
fn fill_overwrites_exactly_the_range() {
    let mut store = Store::new();
    let block = CMBlockBuffer::new_with_memory_block(&mut store, &vec![1u8, 2, 3, 4], 0, 4)
        .unwrap();
    block.fill_data_bytes(&mut store, 0xAB, 1, 2).unwrap();
    let mut out = vec![0u8; 4];
    block.copy_data_bytes(&store, 0, &mut out).unwrap();
    assert_eq!(out, vec![1, 0xAB, 0xAB, 4]);
}

#[test]
fn get_data_spans_the_rest_of_the_segment() {
    let mut store = Store::new();
    let block = CMBlockBuffer::new_with_memory_block(&mut store, &vec![1u8, 2, 3], 0, 3).unwrap();
    block
        .append_memory_block(&mut store, &vec![4u8, 5], 0, 2)
        .unwrap();
    let v = block.get_data(&store, 1).unwrap();
    // Offset 1 lies in the first segment of three bytes: two bytes remain.
    assert_eq!(v.len, 2);
    assert_eq!(v.read(&store), vec![2, 3]);
    let v = block.get_data(&store, 3).unwrap();
    assert_eq!(v.len, 2);
    assert_eq!(v.read(&store), vec![4, 5]);
    assert_eq!(
        block.get_data(&store, 5).err(),
        Some(kCMBlockBufferBadOffsetParameterErr)
    );
}

#[test]
fn access_data_bytes_is_authoritative_either_way() {
    let mut store = Store::new();
    let block = CMBlockBuffer::new_with_memory_block(&mut store, &vec![1u8, 2, 3], 0, 3).unwrap();
    block
        .append_memory_block(&mut store, &vec![4u8, 5, 6], 0, 3)
        .unwrap();
    // Within one segment and across the seam: the returned region's bytes are
    // the requested range either way, whichever form came back.
    let within = block.access_data_bytes(&store, 1, 2).unwrap();
    assert_eq!(within.bytes(&store), vec![2, 3]);
    let across = block.access_data_bytes(&store, 2, 3).unwrap();
    assert_eq!(across.bytes(&store), vec![3, 4, 5]);
    match across {
        AccessedRegion::Direct(_) => panic!("a range across the seam is not contiguous"),
        AccessedRegion::Copied(b) => assert_eq!(b, vec![3, 4, 5]),
    }
    assert_eq!(
        block.access_data_bytes(&store, 5, 3).err(),
        Some(kCMBlockBufferBadLengthParameterErr)
    );
}

#[test]
fn new_contiguous_flattens_a_range() {
    let mut store = Store::new();
    let block = CMBlockBuffer::new_with_memory_block(&mut store, &vec![1u8, 2, 3], 0, 3).unwrap();
    block
        .append_memory_block(&mut store, &vec![4u8, 5, 6], 0, 3)
        .unwrap();
    assert!(!block.is_range_contiguous(&store, 2, 3));
    let flat = block.new_contiguous(&mut store, 2, 3).unwrap();
    assert!(flat.is_range_contiguous(&store, 0, 3));
    let mut out = vec![0u8; 3];
    flat.copy_data_bytes(&store, 0, &mut out).unwrap();
    assert_eq!(out, vec![3, 4, 5]);
    // A zero length means everything from the offset to the end.
    let rest = block.new_contiguous(&mut store, 4, 0).unwrap();
    assert_eq!(rest.get_data_length(&store), 2);
    let mut out = vec![0u8; 2];
    rest.copy_data_bytes(&store, 0, &mut out).unwrap();
    assert_eq!(out, vec![5, 6]);
}

#[test]
fn replace_out_of_range_changes_nothing() {
    let mut store = Store::new();
    let block = CMBlockBuffer::new_with_memory_block(&mut store, &vec![1u8, 2], 0, 2).unwrap();
    assert_eq!(
        block.replace_data_bytes(&mut store, &vec![9u8, 9, 9], 0).err(),
        Some(kCMBlockBufferBadLengthParameterErr)
    );
    let mut out = vec![0u8; 2];
    block.copy_data_bytes(&store, 0, &mut out).unwrap();
    assert_eq!(out, vec![1, 2]);
}
