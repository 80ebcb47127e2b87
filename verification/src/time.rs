use vstd::prelude::*;

verus! {

pub type CMTimeValue = i64;
pub type CMTimeScale = i32;
pub type CMTimeEpoch = i64;
pub type CMTimeFlags = u32;

pub const kCMTimeFlags_Valid: CMTimeFlags = 1;
pub const kCMTimeFlags_HasBeenRounded: CMTimeFlags = 2;
pub const kCMTimeFlags_PositiveInfinity: CMTimeFlags = 4;
pub const kCMTimeFlags_NegativeInfinity: CMTimeFlags = 8;
pub const kCMTimeFlags_Indefinite: CMTimeFlags = 16;
pub const kCMTimeFlags_ImpliedValueFlagsMask: CMTimeFlags =
    kCMTimeFlags_PositiveInfinity | kCMTimeFlags_NegativeInfinity | kCMTimeFlags_Indefinite;

/// A rational timestamp: `value / timescale` seconds, plus validity flags and
/// an epoch that distinguishes otherwise identical timelines.
#[derive(Clone, Copy, Debug, PartialEq, Eq, Structural)]
pub struct CMTime {
    pub value: CMTimeValue,
    pub timescale: CMTimeScale,
    pub flags: CMTimeFlags,
    pub epoch: CMTimeEpoch,
}

impl CMTime {
    /// A valid time of `value / timescale` seconds in epoch 0.
    pub fn make(value: CMTimeValue, timescale: CMTimeScale) -> (r: CMTime)
        ensures
            r.value == value,
            r.timescale == timescale,
            r.flags == kCMTimeFlags_Valid,
            r.epoch == 0,
    {
        CMTime { value, timescale, flags: kCMTimeFlags_Valid, epoch: 0 }
    }

    /// A valid time of `value / timescale` seconds in the given epoch.
    pub fn make_with_epoch(value: CMTimeValue, timescale: CMTimeScale, epoch: CMTimeEpoch) -> (r:
        CMTime)
        ensures
            r.value == value,
            r.timescale == timescale,
            r.flags == kCMTimeFlags_Valid,
            r.epoch == epoch,
    {
        CMTime { value, timescale, flags: kCMTimeFlags_Valid, epoch }
    }

    /// The canonical zero time: 0/1 seconds, valid.
    pub fn zero() -> (r: CMTime)
        ensures
            r == (CMTime { value: 0, timescale: 1, flags: kCMTimeFlags_Valid, epoch: 0 }),
    {
        CMTime { value: 0, timescale: 1, flags: kCMTimeFlags_Valid, epoch: 0 }
    }

    /// The canonical invalid time: all fields zero, so the valid flag is clear.
    pub fn invalid() -> (r: CMTime)
        ensures
            r == (CMTime { value: 0, timescale: 0, flags: 0, epoch: 0 }),
            !r.spec_is_valid(),
    {
        proof {
            assert(0u32 & 1u32 == 0u32) by (bit_vector);
        }
        CMTime { value: 0, timescale: 0, flags: 0, epoch: 0 }
    }

    /// Whether the valid flag is set.
    pub open spec fn spec_is_valid(self) -> bool {
        self.flags & kCMTimeFlags_Valid == kCMTimeFlags_Valid
    }

    /// Reports whether this time carries the valid flag.
    pub fn is_valid(&self) -> (r: bool)
        ensures
            r == self.spec_is_valid(),
    {
        self.flags & kCMTimeFlags_Valid == kCMTimeFlags_Valid
    }
}

impl Default for CMTime {
    /// The default time is the invalid time, as the framework's zero-filled
    /// time structure is the invalid one.
    fn default() -> (r: CMTime)
        ensures
            r == (CMTime { value: 0, timescale: 0, flags: 0, epoch: 0 }),
    {
        CMTime { value: 0, timescale: 0, flags: 0, epoch: 0 }
    }
}

} // verus!
