use core_media::attachment::CMAttachmentBearerSubClass;
use core_media::block_buffer::CMBlockBuffer;
use core_media::buffer_queue::{
    kCMBufferQueueError_EnqueueAfterEndOfData, kCMBufferQueueError_InvalidBuffer,
    kCMBufferQueueError_InvalidTriggerCondition, kCMBufferQueueError_InvalidTriggerToken,
    kCMBufferQueueError_QueueIsFull, kCMBufferQueueTrigger_WhenBufferCountBecomesGreaterThan,
    kCMBufferQueueTrigger_WhenBufferCountBecomesLessThan, kCMBufferQueueTrigger_WhenReset,
    CMBufferQueue,
};
use core_media::sample_queue::{
    kCMSimpleQueueError_ParameterOutOfRange, kCMSimpleQueueError_QueueIsFull,
    kCMSimpleQueueError_RequiredParameterMissing, CMSimpleQueue,
};
use core_media::store::{kCMSimpleQueueTypeID, Store};

#[test]
fn fifo_enqueue_three_dequeue_one() {
    // Enqueue three buffers, dequeue once: the dequeued buffer is the first
    // enqueued, and two remain.
    let mut store = Store::new();
    let queue = CMBufferQueue::new(&mut store, 0).unwrap();
    let b1 = CMBlockBuffer::new_empty(&mut store)
        .unwrap()
        .into_CMAttachmentBearer();
    let b2 = CMBlockBuffer::new_empty(&mut store)
        .unwrap()
        .into_CMAttachmentBearer();
    let b3 = CMBlockBuffer::new_empty(&mut store)
        .unwrap()
        .into_CMAttachmentBearer();

    queue.enqueue(&mut store, &b1).unwrap();
    queue.enqueue(&mut store, &b2).unwrap();
    queue.enqueue(&mut store, &b3).unwrap();
    assert_eq!(queue.get_buffer_count(&store), 3);

    let out = queue.dequeue_and_retain(&mut store).unwrap();
    assert!(out.equal(&b1, &store));
    assert_eq!(out.as_concrete_TypeRef(), b1.as_concrete_TypeRef());
    assert_eq!(queue.get_buffer_count(&store), 2);
    assert!(!queue.is_empty(&store));
}

#[test]
fn enqueue_retains_and_dequeue_transfers() {
    let mut store = Store::new();
    let queue = CMBufferQueue::new(&mut store, 0).unwrap();
    let b = CMBlockBuffer::new_empty(&mut store)
        .unwrap()
        .into_CMAttachmentBearer();
    let id = b.as_concrete_TypeRef();
    assert_eq!(store.retain_count(id), 1);
    queue.enqueue(&mut store, &b).unwrap();
    assert_eq!(store.retain_count(id), 2);
    // The caller's handle goes away; the queue's reference keeps the buffer.
    b.release(&mut store);
    assert!(store.is_live(id));
    assert_eq!(store.retain_count(id), 1);
    // Dequeue moves the queue's reference into the returned handle.
    let out = queue.dequeue_and_retain(&mut store).unwrap();
    assert_eq!(store.retain_count(id), 1);
    out.release(&mut store);
    assert!(!store.is_live(id));
}

#[test]
fn dequeue_of_an_empty_queue_is_absent() {
    let mut store = Store::new();
    let queue = CMBufferQueue::new(&mut store, 0).unwrap();
    assert!(queue.dequeue_and_retain(&mut store).is_none());
    assert!(queue.is_empty(&store));
}

#[test]
fn get_head_peeks_with_its_own_reference() {
    let mut store = Store::new();
    let queue = CMBufferQueue::new(&mut store, 0).unwrap();
    assert!(queue.get_head(&mut store).is_none());
    let b = CMBlockBuffer::new_empty(&mut store)
        .unwrap()
        .into_CMAttachmentBearer();
    queue.enqueue(&mut store, &b).unwrap();
    let head = queue.get_head(&mut store).unwrap();
    assert_eq!(head.as_concrete_TypeRef(), b.as_concrete_TypeRef());
    // Peeking removed nothing and retained once more.
    assert_eq!(queue.get_buffer_count(&store), 1);
    assert_eq!(store.retain_count(b.as_concrete_TypeRef()), 3);
    let copy = queue.copy_head(&mut store).unwrap();
    assert_eq!(copy.as_concrete_TypeRef(), b.as_concrete_TypeRef());
    assert_eq!(store.retain_count(b.as_concrete_TypeRef()), 4);
}

#[test]
fn bounded_queue_refuses_when_full() {
    let mut store = Store::new();
    let queue = CMBufferQueue::new(&mut store, 2).unwrap();
    let b1 = CMBlockBuffer::new_empty(&mut store)
        .unwrap()
        .into_CMAttachmentBearer();
    let b2 = CMBlockBuffer::new_empty(&mut store)
        .unwrap()
        .into_CMAttachmentBearer();
    let b3 = CMBlockBuffer::new_empty(&mut store)
        .unwrap()
        .into_CMAttachmentBearer();
    queue.enqueue(&mut store, &b1).unwrap();
    queue.enqueue(&mut store, &b2).unwrap();
    assert_eq!(
        queue.enqueue(&mut store, &b3).err(),
        Some(kCMBufferQueueError_QueueIsFull)
    );
    assert_eq!(queue.get_buffer_count(&store), 2);
}

#[test]
fn a_queue_is_no_buffer() {
    let mut store = Store::new();
    let queue = CMBufferQueue::new(&mut store, 0).unwrap();
    let inner = CMBufferQueue::new(&mut store, 0)
        .unwrap()
        .into_CMAttachmentBearer();
    assert_eq!(
        queue.enqueue(&mut store, &inner).err(),
        Some(kCMBufferQueueError_InvalidBuffer)
    );
    let simple = CMSimpleQueue::new(&mut store, 4)
        .unwrap()
        .into_CMAttachmentBearer();
    assert_eq!(
        queue.enqueue(&mut store, &simple).err(),
        Some(kCMBufferQueueError_InvalidBuffer)
    );
}

#[test]
fn end_of_data_refuses_enqueues_until_reset() {
    let mut store = Store::new();
    let queue = CMBufferQueue::new(&mut store, 0).unwrap();
    let b = CMBlockBuffer::new_empty(&mut store)
        .unwrap()
        .into_CMAttachmentBearer();
    queue.enqueue(&mut store, &b).unwrap();
    assert!(!queue.contains_end_of_data(&store));
    queue.mark_end_of_data(&mut store).unwrap();
    assert!(queue.contains_end_of_data(&store));
    assert!(!queue.is_at_end_of_data(&store));
    assert_eq!(
        queue.enqueue(&mut store, &b).err(),
        Some(kCMBufferQueueError_EnqueueAfterEndOfData)
    );
    let out = queue.dequeue_and_retain(&mut store).unwrap();
    assert!(queue.is_at_end_of_data(&store));
    out.release(&mut store);
    queue.reset(&mut store).unwrap();
    assert!(!queue.contains_end_of_data(&store));
    queue.enqueue(&mut store, &b).unwrap();
}

#[test]
fn reset_releases_the_held_buffers() {
    let mut store = Store::new();
    let queue = CMBufferQueue::new(&mut store, 0).unwrap();
    let b = CMBlockBuffer::new_empty(&mut store)
        .unwrap()
        .into_CMAttachmentBearer();
    let id = b.as_concrete_TypeRef();
    queue.enqueue(&mut store, &b).unwrap();
    b.release(&mut store);
    assert!(store.is_live(id));
    queue.reset(&mut store).unwrap();
    assert!(queue.is_empty(&store));
    assert!(!store.is_live(id));
}

#[test]
fn freeing_a_queue_releases_its_buffers() {
    let mut store = Store::new();
    let queue = CMBufferQueue::new(&mut store, 0).unwrap();
    let b = CMBlockBuffer::new_empty(&mut store)
        .unwrap()
        .into_CMAttachmentBearer();
    let id = b.as_concrete_TypeRef();
    queue.enqueue(&mut store, &b).unwrap();
    b.release(&mut store);
    assert!(store.is_live(id));
    queue.release(&mut store);
    assert!(!store.is_live(id));
}

#[test]
fn triggers_watch_the_buffer_count() {
    let mut store = Store::new();
    let queue = CMBufferQueue::new(&mut store, 0).unwrap();
    let low = queue
        .install_trigger_with_integer_threshold(
            &mut store,
            kCMBufferQueueTrigger_WhenBufferCountBecomesLessThan,
            1,
        )
        .unwrap();
    let high = queue
        .install_trigger_with_integer_threshold(
            &mut store,
            kCMBufferQueueTrigger_WhenBufferCountBecomesGreaterThan,
            1,
        )
        .unwrap();
    assert_ne!(low, high);
    assert!(queue.test_trigger(&store, low));
    assert!(!queue.test_trigger(&store, high));

    let b1 = CMBlockBuffer::new_empty(&mut store)
        .unwrap()
        .into_CMAttachmentBearer();
    let b2 = CMBlockBuffer::new_empty(&mut store)
        .unwrap()
        .into_CMAttachmentBearer();
    queue.enqueue(&mut store, &b1).unwrap();
    queue.enqueue(&mut store, &b2).unwrap();
    assert!(!queue.test_trigger(&store, low));
    assert!(queue.test_trigger(&store, high));
}

#[test]
fn trigger_tokens_are_valid_until_removed() {
    let mut store = Store::new();
    let queue = CMBufferQueue::new(&mut store, 0).unwrap();
    assert_eq!(
        queue
            .install_trigger_with_integer_threshold(
                &mut store,
                kCMBufferQueueTrigger_WhenReset,
                1,
            )
            .err(),
        Some(kCMBufferQueueError_InvalidTriggerCondition)
    );
    let tok = queue
        .install_trigger_with_integer_threshold(
            &mut store,
            kCMBufferQueueTrigger_WhenBufferCountBecomesLessThan,
            5,
        )
        .unwrap();
    assert!(queue.test_trigger(&store, tok));
    queue.remove_trigger(&mut store, tok).unwrap();
    assert!(!queue.test_trigger(&store, tok));
    assert_eq!(
        queue.remove_trigger(&mut store, tok).err(),
        Some(kCMBufferQueueError_InvalidTriggerToken)
    );
    assert_eq!(
        queue.remove_trigger(&mut store, 999).err(),
        Some(kCMBufferQueueError_InvalidTriggerToken)
    );
}

#[test]
fn simple_queue_capacity_must_be_in_range() {
    // An invalid construction parameter returns the out-of-range status and
    // no handle; a valid one succeeds and reports the registered type tag.
    let mut store = Store::new();
    assert_eq!(
        CMSimpleQueue::new(&mut store, 0).err(),
        Some(kCMSimpleQueueError_ParameterOutOfRange)
    );
    assert_eq!(
        CMSimpleQueue::new(&mut store, -3).err(),
        Some(kCMSimpleQueueError_ParameterOutOfRange)
    );
    assert_eq!(
        CMSimpleQueue::new(&mut store, 32768).err(),
        Some(kCMSimpleQueueError_ParameterOutOfRange)
    );
    assert_eq!(store.slot_count(), 0);
    let q = CMSimpleQueue::new(&mut store, 8).unwrap();
    assert_eq!(store.tag(q.id), kCMSimpleQueueTypeID);
    let bearer = q.as_CMAttachmentBearer(&mut store);
    assert_eq!(bearer.type_of(&store), kCMSimpleQueueTypeID);
}

#[test]
fn simple_queue_is_fifo_and_bounded() {
    let mut store = Store::new();
    let q = CMSimpleQueue::new(&mut store, 2).unwrap();
    assert_eq!(q.get_capacity(&store), 2);
    assert_eq!(q.get_count(&store), 0);
    assert_eq!(
        q.enqueue(&mut store, 0).err(),
        Some(kCMSimpleQueueError_RequiredParameterMissing)
    );
    q.enqueue(&mut store, 11).unwrap();
    q.enqueue(&mut store, 22).unwrap();
    assert_eq!(
        q.enqueue(&mut store, 33).err(),
        Some(kCMSimpleQueueError_QueueIsFull)
    );
    assert_eq!(q.get_count(&store), 2);
    assert_eq!(q.get_head(&store), Some(11));
    assert_eq!(q.dequeue(&mut store), Some(11));
    assert_eq!(q.dequeue(&mut store), Some(22));
    assert_eq!(q.dequeue(&mut store), None);
    q.enqueue(&mut store, 44).unwrap();
    q.reset(&mut store).unwrap();
    assert_eq!(q.get_count(&store), 0);
    assert_eq!(q.get_head(&store), None);
}
