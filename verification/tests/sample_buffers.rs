use core_media::attachment::CMAttachmentBearerSubClass;
use core_media::block_buffer::CMBlockBuffer;
use core_media::buffer_queue::CMBufferQueue;
use core_media::format_description::{kCMMediaType_Video, CMFormatDescription};
use core_media::sample_buffer::{
    kCMSampleBufferError_AlreadyHasDataBuffer, kCMSampleBufferError_BufferHasNoSampleTimingInfo,
    kCMSampleBufferError_BufferNotReady, kCMSampleBufferError_Invalidated,
    kCMSampleBufferError_SampleIndexOutOfRange, CMSampleBuffer, CMSampleTimingInfo,
};
use core_media::store::Store;
use core_media::time::CMTime;

fn timing(pts: i64) -> CMSampleTimingInfo {
    CMSampleTimingInfo {
        duration: CMTime::make(1, 30),
        presentationTimeStamp: CMTime::make(pts, 30),
        decodeTimeStamp: CMTime::make(pts - 1, 30),
    }
}

#[test]
fn sample_buffer_retains_its_members() {
    let mut store = Store::new();
    let block = CMBlockBuffer::new_with_memory_block(&mut store, &vec![1u8, 2], 0, 2).unwrap();
    let fd = CMFormatDescription::new(&mut store, kCMMediaType_Video, 1).unwrap();
    let sb = CMSampleBuffer::new(&mut store, Some(&block), Some(&fd), &vec![timing(1)], false)
        .unwrap();
    assert_eq!(store.retain_count(block.id), 2);
    assert_eq!(store.retain_count(fd.id), 2);

    // The creating handles go away; the sample buffer keeps its members.
    let (block_id, fd_id) = (block.id, fd.id);
    block.release(&mut store);
    fd.release(&mut store);
    assert!(store.is_live(block_id));
    assert!(store.is_live(fd_id));

    // Freeing the sample buffer releases its member references too.
    sb.release(&mut store);
    assert!(!store.is_live(block_id));
    assert!(!store.is_live(fd_id));
}

#[test]
fn member_accessors_follow_the_get_rule() {
    let mut store = Store::new();
    let block = CMBlockBuffer::new_with_memory_block(&mut store, &vec![9u8], 0, 1).unwrap();
    let sb = CMSampleBuffer::new(&mut store, Some(&block), None, &Vec::new(), true).unwrap();
    let got = sb.get_data_buffer(&mut store).unwrap();
    assert_eq!(got.id, block.id);
    assert_eq!(store.retain_count(block.id), 3);
    assert!(sb.get_format_description(&mut store).is_none());
}

#[test]
fn set_data_buffer_attaches_once() {
    let mut store = Store::new();
    let block = CMBlockBuffer::new_with_memory_block(&mut store, &vec![9u8], 0, 1).unwrap();
    let sb = CMSampleBuffer::new(&mut store, None, None, &Vec::new(), false).unwrap();
    assert!(sb.get_data_buffer(&mut store).is_none());
    sb.set_data_buffer(&mut store, &block).unwrap();
    assert_eq!(store.retain_count(block.id), 2);
    assert_eq!(
        sb.set_data_buffer(&mut store, &block).err(),
        Some(kCMSampleBufferError_AlreadyHasDataBuffer)
    );
    let got = sb.get_data_buffer(&mut store).unwrap();
    assert_eq!(got.id, block.id);
}

#[test]
fn readiness_protocol() {
    let mut store = Store::new();
    let sb = CMSampleBuffer::new(&mut store, None, None, &Vec::new(), false).unwrap();
    assert!(!sb.data_is_ready(&store));
    assert_eq!(
        sb.make_data_ready(&store).err(),
        Some(kCMSampleBufferError_BufferNotReady)
    );
    sb.set_data_ready(&mut store).unwrap();
    assert!(sb.data_is_ready(&store));
    sb.make_data_ready(&store).unwrap();

    let ready = CMSampleBuffer::new_ready(&mut store, None, None, &Vec::new()).unwrap();
    assert!(ready.data_is_ready(&store));
}

#[test]
fn data_failure_status_is_surfaced_verbatim() {
    let mut store = Store::new();
    let sb = CMSampleBuffer::new(&mut store, None, None, &Vec::new(), false).unwrap();
    assert!(sb.has_data_failed(&store).is_none());
    sb.set_data_failed(&mut store, -16750).unwrap();
    assert_eq!(sb.has_data_failed(&store), Some(-16750));
    assert!(!sb.data_is_ready(&store));
    assert_eq!(sb.make_data_ready(&store).err(), Some(-16750));
}

#[test]
fn invalidation_refuses_further_state_changes() {
    let mut store = Store::new();
    let sb = CMSampleBuffer::new(&mut store, None, None, &vec![timing(5)], true).unwrap();
    assert!(sb.is_valid(&store));
    sb.invalidate(&mut store).unwrap();
    assert!(!sb.is_valid(&store));
    // Invalidating again changes nothing and still succeeds.
    sb.invalidate(&mut store).unwrap();
    assert_eq!(
        sb.set_data_ready(&mut store).err(),
        Some(kCMSampleBufferError_Invalidated)
    );
    assert_eq!(
        sb.set_data_failed(&mut store, -1).err(),
        Some(kCMSampleBufferError_Invalidated)
    );
    assert_eq!(
        sb.get_sample_timing_info(&store, 0).err(),
        Some(kCMSampleBufferError_Invalidated)
    );
    assert_eq!(
        sb.make_data_ready(&store).err(),
        Some(kCMSampleBufferError_Invalidated)
    );
}

#[test]
fn timing_records_are_indexed_per_sample() {
    let mut store = Store::new();
    let timings = vec![timing(10), timing(11)];
    let sb = CMSampleBuffer::new(&mut store, None, None, &timings, true).unwrap();
    assert_eq!(sb.get_num_samples(&store), 2);
    assert_eq!(sb.get_sample_timing_info(&store, 0).unwrap(), timings[0]);
    assert_eq!(sb.get_sample_timing_info(&store, 1).unwrap(), timings[1]);
    assert_eq!(
        sb.get_sample_timing_info(&store, 2).err(),
        Some(kCMSampleBufferError_SampleIndexOutOfRange)
    );
    assert_eq!(sb.get_presentation_time_stamp(&store), CMTime::make(10, 30));
    assert_eq!(sb.get_decode_time_stamp(&store), CMTime::make(9, 30));

    let bare = CMSampleBuffer::new(&mut store, None, None, &Vec::new(), true).unwrap();
    assert_eq!(
        bare.get_sample_timing_info(&store, 0).err(),
        Some(kCMSampleBufferError_BufferHasNoSampleTimingInfo)
    );
    assert_eq!(bare.get_presentation_time_stamp(&store), CMTime::invalid());
    assert_eq!(bare.get_decode_time_stamp(&store), CMTime::invalid());
}

#[test]
fn sample_buffer_downcast_round_trip() {
    let mut store = Store::new();
    let sb = CMSampleBuffer::new(&mut store, None, None, &Vec::new(), true).unwrap();
    let id = sb.id;
    let bearer = sb.into_CMAttachmentBearer();
    assert!(bearer.instance_of::<CMSampleBuffer>(&store));
    let back = bearer.downcast_sample_buffer(&mut store).unwrap();
    assert_eq!(back.id, id);
    assert!(bearer.downcast_block_buffer(&mut store).is_none());
    let back2 = bearer.downcast_into_sample_buffer(&mut store).unwrap();
    assert_eq!(back2.id, id);
}

#[test]
fn queued_sample_buffers_cascade_on_queue_free() {
    // A queue holding the last reference of a sample buffer which holds the
    // last reference of its data block: freeing the queue frees them all.
    let mut store = Store::new();
    let queue = CMBufferQueue::new(&mut store, 0).unwrap();
    let block = CMBlockBuffer::new_with_memory_block(&mut store, &vec![1u8], 0, 1).unwrap();
    let block_id = block.id;
    let sb = CMSampleBuffer::new(&mut store, Some(&block), None, &Vec::new(), true).unwrap();
    let sb_id = sb.id;
    block.release(&mut store);

    let bearer = sb.into_CMAttachmentBearer();
    queue.enqueue(&mut store, &bearer).unwrap();
    bearer.release(&mut store);
    assert!(store.is_live(sb_id));
    assert!(store.is_live(block_id));

    queue.release(&mut store);
    assert!(!store.is_live(sb_id));
    assert!(!store.is_live(block_id));
}

#[test]
fn forced_status_fails_sample_buffer_construction() {
    let mut store = Store::new();
    store.force_next_status(-12730);
    let r = CMSampleBuffer::new(&mut store, None, None, &Vec::new(), true);
    assert_eq!(r.err(), Some(-12730));
    assert_eq!(store.slot_count(), 0);
}
