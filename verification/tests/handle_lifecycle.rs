use core_media::attachment::{CMAttachmentBearer, CMAttachmentBearerSubClass};
use core_media::block_buffer::CMBlockBuffer;
use core_media::format_description::{kCMMediaType_Audio, CMFormatDescription};
use core_media::sample_queue::CMSimpleQueue;
use core_media::store::Store;

#[test]
fn create_rule_starts_with_one_reference() {
    let mut store = Store::new();
    let block = CMBlockBuffer::new_empty(&mut store).unwrap();
    assert!(store.is_live(block.id));
    assert_eq!(store.retain_count(block.id), 1);
    block.release(&mut store);
}

#[test]
fn get_rule_balance_many_handles() {
    // Obtain several independent handles to one object under the get rule;
    // the object must stay live until the last one is released.
    let mut store = Store::new();
    let block = CMBlockBuffer::new_empty(&mut store).unwrap();
    let id = block.id;
    let h1 = CMAttachmentBearer::wrap_under_get_rule(&mut store, id);
    let h2 = CMAttachmentBearer::wrap_under_get_rule(&mut store, id);
    let h3 = CMAttachmentBearer::wrap_under_get_rule(&mut store, id);
    assert_eq!(store.retain_count(id), 4);

    h1.release(&mut store);
    assert!(store.is_live(id));
    assert_eq!(store.retain_count(id), 3);

    h2.release(&mut store);
    assert!(store.is_live(id));

    block.release(&mut store);
    assert!(store.is_live(id));
    assert_eq!(store.retain_count(id), 1);

    h3.release(&mut store);
    assert!(!store.is_live(id));
}

#[test]
fn release_frees_exactly_at_zero() {
    let mut store = Store::new();
    let fd = CMFormatDescription::new(&mut store, kCMMediaType_Audio, 0x6C70636D).unwrap();
    let id = fd.id;
    let copy = fd.as_CMAttachmentBearer(&mut store);
    assert_eq!(store.retain_count(id), 2);
    fd.release(&mut store);
    assert!(store.is_live(id));
    copy.release(&mut store);
    assert!(!store.is_live(id));
    // The slot stays allocated but reports no type once freed.
    assert_eq!(store.tag(id), 0);
}

#[test]
fn forced_status_propagates_verbatim_and_yields_no_handle() {
    let mut store = Store::new();
    let before = store.slot_count();

    store.force_next_status(-12711);
    let r = CMBlockBuffer::new_empty(&mut store);
    assert_eq!(r.err(), Some(-12711));
    assert_eq!(store.slot_count(), before);

    store.force_next_status(-12760);
    let r = core_media::buffer_queue::CMBufferQueue::new(&mut store, 0);
    assert_eq!(r.err(), Some(-12760));
    assert_eq!(store.slot_count(), before);

    store.force_next_status(-12770);
    let r = CMSimpleQueue::new(&mut store, 8);
    assert_eq!(r.err(), Some(-12770));
    assert_eq!(store.slot_count(), before);

    store.force_next_status(-12711);
    let r = CMFormatDescription::new(&mut store, kCMMediaType_Audio, 1);
    assert_eq!(r.err(), Some(-12711));
    assert_eq!(store.slot_count(), before);

    // The forced status is consumed: the next construction succeeds.
    let block = CMBlockBuffer::new_empty(&mut store).unwrap();
    assert!(store.is_live(block.id));
}

#[test]
fn forced_status_wins_over_parameter_validation() {
    let mut store = Store::new();
    store.force_next_status(-12762);
    // Even an out-of-range capacity reports the forced status first.
    let r = CMSimpleQueue::new(&mut store, 0);
    assert_eq!(r.err(), Some(-12762));
}

#[test]
fn equality_is_reflexive_and_stable() {
    let mut store = Store::new();
    let block = CMBlockBuffer::new_empty(&mut store).unwrap();
    let bearer = block.as_CMAttachmentBearer(&mut store);
    assert!(bearer.equal(&bearer, &store));
    assert!(bearer.equal(&bearer, &store));
    let other = CMAttachmentBearer::wrap_under_get_rule(&mut store, bearer.id);
    assert!(bearer.equal(&other, &store));
    assert!(other.equal(&bearer, &store));
}

#[test]
fn format_descriptions_compare_by_value() {
    let mut store = Store::new();
    let a = CMFormatDescription::new(&mut store, kCMMediaType_Audio, 7).unwrap();
    let b = CMFormatDescription::new(&mut store, kCMMediaType_Audio, 7).unwrap();
    let c = CMFormatDescription::new(&mut store, kCMMediaType_Audio, 8).unwrap();
    let ba = a.into_CMAttachmentBearer();
    let bb = b.into_CMAttachmentBearer();
    let bc = c.into_CMAttachmentBearer();
    assert!(ba.equal(&bb, &store));
    assert!(bb.equal(&ba, &store));
    assert!(!ba.equal(&bc, &store));
}

#[test]
fn distinct_blocks_are_not_equal() {
    let mut store = Store::new();
    let a = CMBlockBuffer::new_empty(&mut store).unwrap();
    let b = CMBlockBuffer::new_empty(&mut store).unwrap();
    let ba = a.into_CMAttachmentBearer();
    let bb = b.into_CMAttachmentBearer();
    assert!(!ba.equal(&bb, &store));
}

#[test]
fn equal_after_upcast_downcast_round_trip() {
    // A handle compared to an upcast-then-downcast round trip of itself
    // reports equal.
    let mut store = Store::new();
    let block = CMBlockBuffer::new_empty(&mut store).unwrap();
    let bearer = block.as_CMAttachmentBearer(&mut store);
    let round = bearer.downcast_block_buffer(&mut store).unwrap();
    let round_bearer = round.as_CMAttachmentBearer(&mut store);
    assert!(bearer.equal(&round_bearer, &store));
    assert_eq!(block.id, round_bearer.as_concrete_TypeRef());
}
