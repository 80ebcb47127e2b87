use core_media::format_description::{
    fourcc, kCMMediaType_Audio, kCMMediaType_ClosedCaption, kCMMediaType_Metadata,
    kCMMediaType_Muxed, kCMMediaType_Subtitle, kCMMediaType_TaggedBufferGroup, kCMMediaType_Text,
    kCMMediaType_TimeCode, kCMMediaType_Video, CMVideoDimensions,
};
use core_media::sample_buffer::CMSampleTimingInfo;
use core_media::time::{kCMTimeFlags_Valid, CMTime};
use core_media::time_range::{CMTimeMapping, CMTimeRange};

#[test]
fn time_make_sets_value_scale_and_valid_flag() {
    let t = CMTime::make(90000, 600);
    assert_eq!(t.value, 90000);
    assert_eq!(t.timescale, 600);
    assert_eq!(t.flags, kCMTimeFlags_Valid);
    assert_eq!(t.epoch, 0);
    assert!(t.is_valid());
}

#[test]
fn time_make_with_epoch_keeps_the_epoch() {
    let t = CMTime::make_with_epoch(1, 30, 7);
    assert_eq!(t.epoch, 7);
    assert!(t.is_valid());
}

#[test]
fn invalid_time_is_all_zero_and_not_valid() {
    let t = CMTime::invalid();
    assert_eq!(t, CMTime::default());
    assert!(!t.is_valid());
    let z = CMTime::zero();
    assert!(z.is_valid());
    assert_eq!(z.value, 0);
    assert_eq!(z.timescale, 1);
    assert_ne!(z, t);
}

#[test]
fn time_range_and_mapping_constructors() {
    let start = CMTime::make(10, 1);
    let duration = CMTime::make(5, 1);
    let range = CMTimeRange::make(start, duration);
    assert_eq!(range.start, start);
    assert_eq!(range.duration, duration);
    let zero = CMTimeRange::zero();
    assert_eq!(zero.start, CMTime::zero());
    assert_eq!(zero.duration, CMTime::zero());
    let target = CMTimeRange::make(CMTime::make(0, 1), duration);
    let mapping = CMTimeMapping::make(range, target);
    assert_eq!(mapping.source, range);
    assert_eq!(mapping.target, target);
    let empty = CMTimeMapping::make_empty(target);
    assert!(!empty.source.start.is_valid());
    assert_eq!(empty.target, target);
    assert_eq!(CMTimeRange::default().start, CMTime::invalid());
    assert_eq!(CMTimeMapping::default().source, CMTimeRange::default());
}

#[test]
fn sample_timing_info_invalid_is_all_invalid() {
    let info = CMSampleTimingInfo::invalid();
    assert!(!info.duration.is_valid());
    assert!(!info.presentationTimeStamp.is_valid());
    assert!(!info.decodeTimeStamp.is_valid());
    let copy = info;
    assert_eq!(copy, info);
}

#[test]
fn fourcc_packs_big_endian() {
    assert_eq!(fourcc(b"vide"), 0x76696465);
    assert_eq!(fourcc(b"\x00\x00\x00\x01"), 1);
    assert_eq!(fourcc(b"\xFF\xFF\xFF\xFF"), 0xFFFFFFFF);
}

#[test]
fn media_type_constants_are_their_codes() {
    assert_eq!(kCMMediaType_Video, fourcc(b"vide"));
    assert_eq!(kCMMediaType_Audio, fourcc(b"soun"));
    assert_eq!(kCMMediaType_Muxed, fourcc(b"muxx"));
    assert_eq!(kCMMediaType_Text, fourcc(b"text"));
    assert_eq!(kCMMediaType_ClosedCaption, fourcc(b"clcp"));
    assert_eq!(kCMMediaType_Subtitle, fourcc(b"sbtl"));
    assert_eq!(kCMMediaType_TimeCode, fourcc(b"tmcd"));
    assert_eq!(kCMMediaType_Metadata, fourcc(b"meta"));
    assert_eq!(kCMMediaType_TaggedBufferGroup, fourcc(b"tbgr"));
}

#[test]
fn video_dimensions_are_plain_data() {
    let d = CMVideoDimensions { width: 1920, height: 1080 };
    let e = d;
    assert_eq!(d, e);
    assert_ne!(d, CMVideoDimensions { width: 1280, height: 720 });
}
