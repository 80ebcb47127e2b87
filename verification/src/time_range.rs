use vstd::prelude::*;

use crate::time::CMTime;

verus! {

/// A half-open span of time: `start` and a `duration` measured from it.
#[derive(Clone, Copy, Debug, PartialEq, Eq, Structural)]
pub struct CMTimeRange {
    pub start: CMTime,
    pub duration: CMTime,
}

impl CMTimeRange {
    /// The range beginning at `start` and lasting `duration`.
    pub fn make(start: CMTime, duration: CMTime) -> (r: CMTimeRange)
        ensures
            r.start == start,
            r.duration == duration,
    {
        CMTimeRange { start, duration }
    }

    /// The zero range: zero start, zero duration.
    pub fn zero() -> (r: CMTimeRange)
        ensures
            r.start == (CMTime { value: 0, timescale: 1, flags: crate::time::kCMTimeFlags_Valid, epoch: 0 }),
            r.duration == (CMTime { value: 0, timescale: 1, flags: crate::time::kCMTimeFlags_Valid, epoch: 0 }),
    {
        CMTimeRange { start: CMTime::zero(), duration: CMTime::zero() }
    }
}

impl Default for CMTimeRange {
    /// The default range is invalid: both fields are the invalid time.
    fn default() -> (r: CMTimeRange)
        ensures
            r.start == (CMTime { value: 0, timescale: 0, flags: 0, epoch: 0 }),
            r.duration == (CMTime { value: 0, timescale: 0, flags: 0, epoch: 0 }),
    {
        CMTimeRange { start: CMTime::invalid(), duration: CMTime::invalid() }
    }
}

/// A correspondence between a source time range and the target range it is
/// mapped onto.
#[derive(Clone, Copy, Debug, PartialEq, Eq, Structural)]
pub struct CMTimeMapping {
    pub source: CMTimeRange,
    pub target: CMTimeRange,
}

impl CMTimeMapping {
    /// The mapping that carries `source` onto `target`.
    pub fn make(source: CMTimeRange, target: CMTimeRange) -> (r: CMTimeMapping)
        ensures
            r.source == source,
            r.target == target,
    {
        CMTimeMapping { source, target }
    }

    /// An empty mapping: an invalid source range mapped onto `target`, which
    /// the framework uses to mark a span of the target with no source
    /// material.
    pub fn make_empty(target: CMTimeRange) -> (r: CMTimeMapping)
        ensures
            r.source == (CMTimeRange {
                start: CMTime { value: 0, timescale: 0, flags: 0, epoch: 0 },
                duration: CMTime { value: 0, timescale: 0, flags: 0, epoch: 0 },
            }),
            r.target == target,
    {
        CMTimeMapping {
            source: CMTimeRange { start: CMTime::invalid(), duration: CMTime::invalid() },
            target,
        }
    }
}

impl Default for CMTimeMapping {
    /// The default mapping is invalid: both ranges are invalid.
    fn default() -> (r: CMTimeMapping)
        ensures
            r.source == (CMTimeRange {
                start: CMTime { value: 0, timescale: 0, flags: 0, epoch: 0 },
                duration: CMTime { value: 0, timescale: 0, flags: 0, epoch: 0 },
            }),
            r.target == r.source,
    {
        CMTimeMapping { source: CMTimeRange::default(), target: CMTimeRange::default() }
    }
}

} // verus!
