use core_media::attachment::CMAttachmentBearerSubClass;
use core_media::block_buffer::CMBlockBuffer;
use core_media::buffer_queue::CMBufferQueue;
use core_media::format_description::{kCMMediaType_Video, CMFormatDescription};
use core_media::sample_queue::CMSimpleQueue;
use core_media::store::{
    kCMBlockBufferTypeID, kCMBufferQueueTypeID, kCMFormatDescriptionTypeID, kCMSimpleQueueTypeID,
    Store,
};

#[test]
fn type_of_reports_the_registered_tag() {
    let mut store = Store::new();
    let block = CMBlockBuffer::new_empty(&mut store).unwrap();
    let queue = CMBufferQueue::new(&mut store, 0).unwrap();
    let simple = CMSimpleQueue::new(&mut store, 4).unwrap();
    let fd = CMFormatDescription::new(&mut store, kCMMediaType_Video, 1).unwrap();

    let b = block.into_CMAttachmentBearer();
    let q = queue.into_CMAttachmentBearer();
    let s = simple.into_CMAttachmentBearer();
    let f = fd.into_CMAttachmentBearer();

    assert_eq!(b.type_of(&store), kCMBlockBufferTypeID);
    assert_eq!(q.type_of(&store), kCMBufferQueueTypeID);
    assert_eq!(s.type_of(&store), kCMSimpleQueueTypeID);
    assert_eq!(f.type_of(&store), kCMFormatDescriptionTypeID);

    assert!(b.instance_of::<CMBlockBuffer>(&store));
    assert!(!b.instance_of::<CMBufferQueue>(&store));
    assert!(q.instance_of::<CMBufferQueue>(&store));
    assert!(s.instance_of::<CMSimpleQueue>(&store));
    assert!(f.instance_of::<CMFormatDescription>(&store));
    assert!(!f.instance_of::<CMBlockBuffer>(&store));
}

#[test]
fn upcast_downcast_round_trip_block() {
    let mut store = Store::new();
    let block = CMBlockBuffer::new_empty(&mut store).unwrap();
    let id = block.id;
    let bearer = block.into_CMAttachmentBearer();
    let back = bearer.downcast_block_buffer(&mut store).unwrap();
    assert_eq!(back.id, id);
    // The non-consuming downcast retained: one for `bearer`, one for `back`.
    assert_eq!(store.retain_count(id), 2);
}

#[test]
fn upcast_downcast_round_trip_queue() {
    let mut store = Store::new();
    let queue = CMBufferQueue::new(&mut store, 0).unwrap();
    let id = queue.id;
    let bearer = queue.into_CMAttachmentBearer();
    let back = bearer.downcast_buffer_queue(&mut store).unwrap();
    assert_eq!(back.id, id);
}

#[test]
fn upcast_downcast_round_trip_simple_queue() {
    let mut store = Store::new();
    let simple = CMSimpleQueue::new(&mut store, 4).unwrap();
    let id = simple.id;
    let bearer = simple.into_CMAttachmentBearer();
    let back = bearer.downcast_simple_queue(&mut store).unwrap();
    assert_eq!(back.id, id);
}

#[test]
fn upcast_downcast_round_trip_format_description() {
    let mut store = Store::new();
    let fd = CMFormatDescription::new(&mut store, kCMMediaType_Video, 9).unwrap();
    let id = fd.id;
    let bearer = fd.into_CMAttachmentBearer();
    let back = bearer.downcast_format_description(&mut store).unwrap();
    assert_eq!(back.id, id);
}

#[test]
fn downcast_to_wrong_subtype_is_absent() {
    let mut store = Store::new();
    let block = CMBlockBuffer::new_empty(&mut store).unwrap();
    let id = block.id;
    let bearer = block.into_CMAttachmentBearer();

    assert!(bearer.downcast_buffer_queue(&mut store).is_none());
    assert!(bearer.downcast_simple_queue(&mut store).is_none());
    assert!(bearer.downcast_format_description(&mut store).is_none());
    // The misses changed nothing and the handle stays usable.
    assert_eq!(store.retain_count(id), 1);
    let back = bearer.downcast_block_buffer(&mut store).unwrap();
    assert_eq!(back.id, id);
}

#[test]
fn consuming_downcast_moves_the_reference() {
    let mut store = Store::new();
    let block = CMBlockBuffer::new_empty(&mut store).unwrap();
    let id = block.id;
    let bearer = block.into_CMAttachmentBearer();
    assert_eq!(store.retain_count(id), 1);
    let back = bearer.downcast_into_block_buffer(&mut store).unwrap();
    assert_eq!(back.id, id);
    // Ownership moved: still exactly one reference.
    assert_eq!(store.retain_count(id), 1);
    back.release(&mut store);
    assert!(!store.is_live(id));
}

#[test]
fn consuming_downcast_mismatch_releases_the_handle() {
    let mut store = Store::new();
    let block = CMBlockBuffer::new_empty(&mut store).unwrap();
    let id = block.id;
    let bearer = block.into_CMAttachmentBearer();
    // The handle is consumed on a mismatch, and its reference with it.
    assert!(bearer.downcast_into_buffer_queue(&mut store).is_none());
    assert!(!store.is_live(id));
}

#[test]
fn nonconsuming_upcast_shares_ownership() {
    let mut store = Store::new();
    let block = CMBlockBuffer::new_empty(&mut store).unwrap();
    let id = block.id;
    let bearer = block.as_CMAttachmentBearer(&mut store);
    assert_eq!(store.retain_count(id), 2);
    bearer.release(&mut store);
    assert_eq!(store.retain_count(id), 1);
    block.release(&mut store);
    assert!(!store.is_live(id));
}

#[test]
fn format_downcast_checks_primary_tag_only() {
    // Format families are told apart by the media type code, not by the
    // runtime tag; a downcast to the format description subtype succeeds for
    // every family alike, and the family is read off afterward.
    let mut store = Store::new();
    let audio = CMFormatDescription::new(
        &mut store,
        core_media::format_description::kCMMediaType_Audio,
        2,
    )
    .unwrap();
    let bearer = audio.into_CMAttachmentBearer();
    let back = bearer.downcast_format_description(&mut store).unwrap();
    assert_eq!(
        back.get_media_type(&store),
        core_media::format_description::kCMMediaType_Audio
    );
    assert_ne!(back.get_media_type(&store), kCMMediaType_Video);
}
