use core_media::attachment::CMAttachmentBearerSubClass;
use core_media::store::{kCMClockTypeID, kCMTimebaseTypeID, Store};
use core_media::sync::{CMClock, CMTimebase};

#[test]
fn timebase_retains_its_source_clock() {
    let mut store = Store::new();
    let clock = CMClock::new_audio_clock(&mut store).unwrap();
    let clock_id = clock.id;
    let tb = CMTimebase::new_with_source_clock(&mut store, &clock).unwrap();
    assert_eq!(store.retain_count(clock_id), 2);
    // The creating handle goes away; the timebase keeps its clock alive.
    clock.release(&mut store);
    assert!(store.is_live(clock_id));
    // Freeing the timebase releases the chain down to the clock.
    tb.release(&mut store);
    assert!(!store.is_live(clock_id));
}

#[test]
fn chain_release_walks_to_the_root() {
    let mut store = Store::new();
    let clock = CMClock::new_audio_clock(&mut store).unwrap();
    let tb1 = CMTimebase::new_with_source_clock(&mut store, &clock).unwrap();
    let tb2 = CMTimebase::new_with_source_timebase(&mut store, &tb1).unwrap();
    let (clock_id, tb1_id, tb2_id) = (clock.id, tb1.id, tb2.id);
    clock.release(&mut store);
    tb1.release(&mut store);
    assert!(store.is_live(clock_id));
    assert!(store.is_live(tb1_id));
    // The last handle to the top of the chain frees every link beneath it.
    tb2.release(&mut store);
    assert!(!store.is_live(tb2_id));
    assert!(!store.is_live(tb1_id));
    assert!(!store.is_live(clock_id));
}

#[test]
fn chain_release_stops_at_shared_links() {
    let mut store = Store::new();
    let clock = CMClock::new_audio_clock(&mut store).unwrap();
    let tb1 = CMTimebase::new_with_source_clock(&mut store, &clock).unwrap();
    let tb2 = CMTimebase::new_with_source_timebase(&mut store, &tb1).unwrap();
    let tb1_id = tb1.id;
    // tb1 is held both by tb2 and by its own handle: freeing tb2 must not
    // free tb1.
    tb2.release(&mut store);
    assert!(store.is_live(tb1_id));
    assert_eq!(store.retain_count(tb1_id), 1);
    tb1.release(&mut store);
    assert!(!store.is_live(tb1_id));
    clock.release(&mut store);
}

#[test]
fn source_accessors_report_the_immediate_source() {
    let mut store = Store::new();
    let clock = CMClock::new_audio_clock(&mut store).unwrap();
    let tb1 = CMTimebase::new_with_source_clock(&mut store, &clock).unwrap();
    let tb2 = CMTimebase::new_with_source_timebase(&mut store, &tb1).unwrap();

    let c = tb1.copy_source_clock(&mut store).unwrap();
    assert_eq!(c.id, clock.id);
    assert!(tb1.copy_source_timebase(&mut store).is_none());

    let t = tb2.copy_source_timebase(&mut store).unwrap();
    assert_eq!(t.id, tb1.id);
    assert!(tb2.copy_source_clock(&mut store).is_none());
}

#[test]
fn copy_source_yields_a_generic_handle_for_downcast() {
    let mut store = Store::new();
    let clock = CMClock::new_audio_clock(&mut store).unwrap();
    let tb = CMTimebase::new_with_source_clock(&mut store, &clock).unwrap();
    let source = tb.copy_source(&mut store).unwrap();
    assert_eq!(source.type_of(&store), kCMClockTypeID);
    assert!(source.instance_of::<CMClock>(&store));
    assert!(!source.instance_of::<CMTimebase>(&store));
    let back = source.downcast_into_clock(&mut store).unwrap();
    assert_eq!(back.id, clock.id);
}

#[test]
fn ultimate_source_clock_is_the_chain_root() {
    let mut store = Store::new();
    let clock = CMClock::new_audio_clock(&mut store).unwrap();
    let tb1 = CMTimebase::new_with_source_clock(&mut store, &clock).unwrap();
    let tb2 = CMTimebase::new_with_source_timebase(&mut store, &tb1).unwrap();
    let tb3 = CMTimebase::new_with_source_timebase(&mut store, &tb2).unwrap();
    let root = tb3.copy_ultimate_source_clock(&mut store).unwrap();
    assert_eq!(root.id, clock.id);
    assert_eq!(store.retain_count(clock.id), 3);
}

#[test]
fn clock_and_timebase_casting_round_trips() {
    let mut store = Store::new();
    let clock = CMClock::new_audio_clock(&mut store).unwrap();
    let clock_id = clock.id;
    let bearer = clock.into_CMAttachmentBearer();
    assert_eq!(bearer.type_of(&store), kCMClockTypeID);
    assert!(bearer.downcast_timebase(&mut store).is_none());
    let back = bearer.downcast_clock(&mut store).unwrap();
    assert_eq!(back.id, clock_id);

    let tb = CMTimebase::new_with_source_clock(&mut store, &back).unwrap();
    let tb_id = tb.id;
    let tbearer = tb.into_CMAttachmentBearer();
    assert_eq!(tbearer.type_of(&store), kCMTimebaseTypeID);
    assert!(tbearer.downcast_clock(&mut store).is_none());
    let tback = tbearer.downcast_into_timebase(&mut store).unwrap();
    assert_eq!(tback.id, tb_id);
}

#[test]
fn clock_invalidation_and_drift() {
    let mut store = Store::new();
    let a = CMClock::new_audio_clock(&mut store).unwrap();
    let b = CMClock::new_audio_clock(&mut store).unwrap();
    assert!(!a.might_drift(&a, &store));
    assert!(a.might_drift(&b, &store));
    assert!(a.is_valid(&store));
    a.invalidate(&mut store);
    assert!(!a.is_valid(&store));
    // Invalidation does not release the clock.
    assert!(store.is_live(a.id));
}

#[test]
fn forced_status_fails_clock_and_timebase_construction() {
    let mut store = Store::new();
    store.force_next_status(-12747);
    assert_eq!(CMClock::new_audio_clock(&mut store).err(), Some(-12747));
    let clock = CMClock::new_audio_clock(&mut store).unwrap();
    store.force_next_status(-12750);
    assert_eq!(
        CMTimebase::new_with_source_clock(&mut store, &clock).err(),
        Some(-12750)
    );
}

#[test]
fn clocks_are_no_queue_buffers() {
    let mut store = Store::new();
    let queue = core_media::buffer_queue::CMBufferQueue::new(&mut store, 0).unwrap();
    let clock = CMClock::new_audio_clock(&mut store).unwrap();
    let bearer = clock.into_CMAttachmentBearer();
    assert_eq!(
        queue.enqueue(&mut store, &bearer).err(),
        Some(core_media::buffer_queue::kCMBufferQueueError_InvalidBuffer)
    );
}
