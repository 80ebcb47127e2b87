//! Format descriptions: immutable records of a media type and a media
//! subtype, both four-character codes. This is the one subtype whose registry
//! equality is by value rather than by identity, and the one whose families
//! (audio, video, text, ...) are told apart by the media type code, not by
//! the primary runtime type tag.
use vstd::prelude::*;

use crate::attachment::{CMAttachmentBearer, CMAttachmentBearerSubClass};
use crate::base::{CFTypeID, OSStatus};
use crate::store::{
    kCMFormatDescriptionTypeID, Payload, PayloadModel, Store, StoreModel,
};

verus! {

pub const kCMFormatDescriptionError_InvalidParameter: OSStatus = -12710;

pub const kCMFormatDescriptionError_AllocationFailed: OSStatus = -12711;

pub const kCMFormatDescriptionError_ValueNotAvailable: OSStatus = -12718;

pub type FourCharCode = u32;

pub type CMMediaType = FourCharCode;

/// The four-character code packed from four bytes, first byte highest.
pub open spec fn spec_fourcc(code: Seq<u8>) -> u32 {
    ((code[0] * 0x1000000) + (code[1] * 0x10000) + (code[2] * 0x100) + code[3]) as u32
}

/// Pack a four-character code into its 32-bit form, first byte highest.
pub fn fourcc(code: &[u8; 4]) -> (r: u32)
    ensures
        r == spec_fourcc(code@),
{
    (code[0] as u32) * 0x1000000 + (code[1] as u32) * 0x10000 + (code[2] as u32) * 0x100 + (
    code[3] as u32)
}

/// The media type code `vide`.
pub const kCMMediaType_Video: CMMediaType = 0x76696465;

/// The media type code `soun`.
pub const kCMMediaType_Audio: CMMediaType = 0x736F756E;

/// The media type code `muxx`.
pub const kCMMediaType_Muxed: CMMediaType = 0x6D757878;

/// The media type code `text`.
pub const kCMMediaType_Text: CMMediaType = 0x74657874;

/// The media type code `clcp`.
pub const kCMMediaType_ClosedCaption: CMMediaType = 0x636C6370;

/// The media type code `sbtl`.
pub const kCMMediaType_Subtitle: CMMediaType = 0x7362746C;

/// The media type code `tmcd`.
pub const kCMMediaType_TimeCode: CMMediaType = 0x746D6364;

/// The media type code `meta`.
pub const kCMMediaType_Metadata: CMMediaType = 0x6D657461;

/// The media type code `tbgr`.
pub const kCMMediaType_TaggedBufferGroup: CMMediaType = 0x74626772;

/// Pixel dimensions of a video format.
#[derive(Clone, Copy, Debug, PartialEq, Eq, Structural)]
pub struct CMVideoDimensions {
    pub width: i32,
    pub height: i32,
}

/// The media type of the format description in slot `id`.
pub open spec fn fd_media_type(s: StoreModel, id: int) -> u32 {
    match s.payload(id) {
        PayloadModel::FormatDescription { media_type, .. } => media_type,
        _ => 0,
    }
}

/// The media subtype of the format description in slot `id`.
pub open spec fn fd_media_subtype(s: StoreModel, id: int) -> u32 {
    match s.payload(id) {
        PayloadModel::FormatDescription { media_subtype, .. } => media_subtype,
        _ => 0,
    }
}

/// A handle to one format description object.
pub struct CMFormatDescription {
    pub id: usize,
}

impl CMAttachmentBearerSubClass for CMFormatDescription {
    open spec fn bearer_id(&self) -> int {
        self.id as int
    }

    open spec fn subtype_tag() -> CFTypeID {
        kCMFormatDescriptionTypeID
    }

    fn type_id() -> CFTypeID {
        kCMFormatDescriptionTypeID
    }

    fn as_CMAttachmentBearer(&self, store: &mut Store) -> CMAttachmentBearer {
        CMAttachmentBearer::wrap_under_get_rule(store, self.id)
    }

    fn into_CMAttachmentBearer(self) -> CMAttachmentBearer {
        CMAttachmentBearer { id: self.id }
    }
}

impl CMFormatDescription {
    /// Well-formed against a store: live and holding a format description.
    pub open spec fn wf(&self, s: StoreModel) -> bool {
        s.live(self.id as int) && s.payload(self.id as int) is FormatDescription
    }

    /// Construct a format description under the create rule. A zero media
    /// type is no media type and is refused with the invalid-parameter code;
    /// a forced status is surfaced verbatim first.
    pub fn new(store: &mut Store, media_type: CMMediaType, media_subtype: FourCharCode) -> (r:
        Result<CMFormatDescription, OSStatus>)
        requires
            old(store)@.slots.len() < usize::MAX,
        ensures
            match r {
                Ok(fd) => old(store)@.forced_status == 0 && media_type != 0 && fd.id == old(
                    store,
                )@.slots.len() && final(store)@ == old(store)@.allocate(
                    PayloadModel::FormatDescription { media_type, media_subtype },
                ) && fd.wf(final(store)@),
                Err(e) => ({
                    &&& (old(store)@.forced_status != 0 ==> e == old(store)@.forced_status)
                    &&& (old(store)@.forced_status == 0 ==> e
                        == kCMFormatDescriptionError_InvalidParameter && media_type == 0)
                    &&& final(store)@.slots == old(store)@.slots
                    &&& final(store)@.forced_status == 0
                }),
            },
    {
        let forced = store.take_forced();
        if forced != 0 {
            return Err(forced);
        }
        if media_type == 0 {
            return Err(kCMFormatDescriptionError_InvalidParameter);
        }
        let id = store.allocate(Payload::FormatDescription { media_type, media_subtype });
        Ok(CMFormatDescription { id })
    }

    /// The media type code this description was created with. This is the
    /// secondary code that tells format families apart; the downcast to this
    /// subtype deliberately checks the primary runtime tag alone.
    pub fn get_media_type(&self, store: &Store) -> (r: CMMediaType)
        requires
            self.wf(store@),
        ensures
            r == fd_media_type(store@, self.id as int),
    {
        match store.payload_at(self.id) {
            Payload::FormatDescription { media_type, .. } => *media_type,
            _ => {
                proof {
                    assert(false);
                }
                0
            },
        }
    }

    /// The media subtype code this description was created with.
    pub fn get_media_subtype(&self, store: &Store) -> (r: FourCharCode)
        requires
            self.wf(store@),
        ensures
            r == fd_media_subtype(store@, self.id as int),
    {
        match store.payload_at(self.id) {
            Payload::FormatDescription { media_subtype, .. } => *media_subtype,
            _ => {
                proof {
                    assert(false);
                }
                0
            },
        }
    }

    /// Release the handle's one reference; the description is freed when this
    /// was the last reference.
    pub fn release(self, store: &mut Store)
        requires
            old(store)@.live(self.id as int),
        ensures
            final(store)@ == old(store)@.release(self.id as int),
    {
        store.release_ref(self.id);
    }
}

} // verus!
