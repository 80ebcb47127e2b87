//! Sample buffers: the framework's containers for media samples. A sample
//! buffer holds its own retained references to an optional data block and an
//! optional format description, carries one timing record per sample, and
//! tracks whether its data is ready, has failed to arrive, or the buffer has
//! been invalidated. Freeing a sample buffer releases the references it holds
//! on its members.
use vstd::prelude::*;

use crate::attachment::{CMAttachmentBearer, CMAttachmentBearerSubClass};
use crate::base::{CFTypeID, CMItemCount, OSStatus};
use crate::block_buffer::CMBlockBuffer;
use crate::format_description::CMFormatDescription;
use crate::store::{
    kCMSampleBufferTypeID, Payload, PayloadModel, SlotModel, Store, StoreModel,
};
use crate::time::CMTime;

verus! {

pub const kCMSampleBufferError_AllocationFailed: OSStatus = -12730;

pub const kCMSampleBufferError_RequiredParameterMissing: OSStatus = -12731;

pub const kCMSampleBufferError_AlreadyHasDataBuffer: OSStatus = -12732;

pub const kCMSampleBufferError_BufferNotReady: OSStatus = -12733;

pub const kCMSampleBufferError_SampleIndexOutOfRange: OSStatus = -12734;

pub const kCMSampleBufferError_BufferHasNoSampleSizes: OSStatus = -12735;

pub const kCMSampleBufferError_BufferHasNoSampleTimingInfo: OSStatus = -12736;

pub const kCMSampleBufferError_ArrayTooSmall: OSStatus = -12737;

pub const kCMSampleBufferError_InvalidEntryCount: OSStatus = -12738;

pub const kCMSampleBufferError_CannotSubdivide: OSStatus = -12739;

pub const kCMSampleBufferError_SampleTimingInfoInvalid: OSStatus = -12740;

pub const kCMSampleBufferError_InvalidMediaTypeForOperation: OSStatus = -12741;

pub const kCMSampleBufferError_InvalidSampleData: OSStatus = -12742;

pub const kCMSampleBufferError_InvalidMediaFormat: OSStatus = -12743;

pub const kCMSampleBufferError_Invalidated: OSStatus = -12744;

pub const kCMSampleBufferError_DataFailed: OSStatus = -16750;

pub const kCMSampleBufferError_DataCanceled: OSStatus = -16751;

/// Per-sample timing: the sample's duration and its presentation and decode
/// timestamps.
#[derive(Clone, Copy, Debug, PartialEq, Eq, Structural)]
pub struct CMSampleTimingInfo {
    pub duration: CMTime,
    pub presentationTimeStamp: CMTime,
    pub decodeTimeStamp: CMTime,
}

impl CMSampleTimingInfo {
    /// The canonical invalid timing record: every field is the invalid time.
    pub fn invalid() -> (r: CMSampleTimingInfo)
        ensures
            r.duration == (CMTime { value: 0, timescale: 0, flags: 0, epoch: 0 }),
            r.presentationTimeStamp == (CMTime { value: 0, timescale: 0, flags: 0, epoch: 0 }),
            r.decodeTimeStamp == (CMTime { value: 0, timescale: 0, flags: 0, epoch: 0 }),
    {
        CMSampleTimingInfo {
            duration: CMTime::invalid(),
            presentationTimeStamp: CMTime::invalid(),
            decodeTimeStamp: CMTime::invalid(),
        }
    }
}

/// The data block member of the sample buffer in slot `id`.
pub open spec fn sb_data_buffer(s: StoreModel, id: int) -> Option<usize> {
    match s.payload(id) {
        PayloadModel::SampleBuffer { data_buffer, .. } => data_buffer,
        _ => None,
    }
}

/// The format description member of the sample buffer in slot `id`.
pub open spec fn sb_format_description(s: StoreModel, id: int) -> Option<usize> {
    match s.payload(id) {
        PayloadModel::SampleBuffer { format_description, .. } => format_description,
        _ => None,
    }
}

/// The timing records of the sample buffer in slot `id`, one per sample.
pub open spec fn sb_timings(s: StoreModel, id: int) -> Seq<CMSampleTimingInfo> {
    match s.payload(id) {
        PayloadModel::SampleBuffer { timings, .. } => timings,
        _ => Seq::empty(),
    }
}

/// Whether the sample buffer in slot `id` has its data ready.
pub open spec fn sb_data_ready(s: StoreModel, id: int) -> bool {
    match s.payload(id) {
        PayloadModel::SampleBuffer { data_ready, .. } => data_ready,
        _ => false,
    }
}

/// The status a failed data fetch recorded on the sample buffer in slot
/// `id`; zero when none has failed.
pub open spec fn sb_data_failed_status(s: StoreModel, id: int) -> OSStatus {
    match s.payload(id) {
        PayloadModel::SampleBuffer { data_failed_status, .. } => data_failed_status,
        _ => 0,
    }
}

/// Whether the sample buffer in slot `id` has been invalidated.
pub open spec fn sb_invalidated(s: StoreModel, id: int) -> bool {
    match s.payload(id) {
        PayloadModel::SampleBuffer { invalidated, .. } => invalidated,
        _ => false,
    }
}

/// The slot an optional data block handle names.
pub open spec fn opt_block_id(b: Option<&CMBlockBuffer>) -> Option<usize> {
    match b {
        Some(x) => Some(x.id),
        None => None,
    }
}

/// The slot an optional format description handle names.
pub open spec fn opt_format_id(f: Option<&CMFormatDescription>) -> Option<usize> {
    match f {
        Some(x) => Some(x.id),
        None => None,
    }
}

/// A handle to one sample buffer object.
pub struct CMSampleBuffer {
    pub id: usize,
}

impl CMAttachmentBearerSubClass for CMSampleBuffer {
    open spec fn bearer_id(&self) -> int {
        self.id as int
    }

    open spec fn subtype_tag() -> CFTypeID {
        kCMSampleBufferTypeID
    }

    fn type_id() -> CFTypeID {
        kCMSampleBufferTypeID
    }

    fn as_CMAttachmentBearer(&self, store: &mut Store) -> CMAttachmentBearer {
        CMAttachmentBearer::wrap_under_get_rule(store, self.id)
    }

    fn into_CMAttachmentBearer(self) -> CMAttachmentBearer {
        CMAttachmentBearer { id: self.id }
    }
}

impl CMSampleBuffer {
    /// Well-formed against a store: live and holding a sample buffer.
    pub open spec fn wf(&self, s: StoreModel) -> bool {
        s.live(self.id as int) && s.payload(self.id as int) is SampleBuffer
    }

    /// Construct a sample buffer under the create rule, holding its own
    /// retained reference on each member it is given, with one timing record
    /// per sample. Fails only with a forced status, surfaced verbatim.
    pub fn new(
        store: &mut Store,
        data_buffer: Option<&CMBlockBuffer>,
        format_description: Option<&CMFormatDescription>,
        sample_timings: &Vec<CMSampleTimingInfo>,
        data_ready: bool,
    ) -> (r: Result<CMSampleBuffer, OSStatus>)
        requires
            old(store)@.slots.len() < usize::MAX,
            match data_buffer {
                Some(b) => b.wf(old(store)@) && old(store)@.refs(b.id as int) < usize::MAX,
                None => true,
            },
            match format_description {
                Some(f) => f.wf(old(store)@) && old(store)@.refs(f.id as int) < usize::MAX,
                None => true,
            },
        ensures
            match r {
                Ok(sb) => old(store)@.forced_status == 0 && sb.id == old(store)@.slots.len()
                    && final(store)@ == old(store)@.retain_opt(opt_block_id(data_buffer))
                    .retain_opt(opt_format_id(format_description)).allocate(
                    PayloadModel::SampleBuffer {
                        data_buffer: opt_block_id(data_buffer),
                        format_description: opt_format_id(format_description),
                        timings: sample_timings@,
                        data_ready: data_ready,
                        data_failed_status: 0,
                        invalidated: false,
                    },
                ) && sb.wf(final(store)@),
                Err(e) => e == old(store)@.forced_status && e != 0 && final(store)@.slots == old(
                    store,
                )@.slots && final(store)@.forced_status == 0,
            },
    {
        let forced = store.take_forced();
        if forced != 0 {
            return Err(forced);
        }
        let db = match data_buffer {
            Some(b) => {
                store.retain_ref(b.id);
                Some(b.id)
            },
            None => None,
        };
        let fd = match format_description {
            Some(f) => {
                store.retain_ref(f.id);
                Some(f.id)
            },
            None => None,
        };
        let mut timings: Vec<CMSampleTimingInfo> = Vec::new();
        let mut i: usize = 0;
        while i < sample_timings.len()
            invariant
                i <= sample_timings@.len(),
                timings@ == sample_timings@.take(i as int),
            decreases sample_timings@.len() - i,
        {
            timings.push(sample_timings[i]);
            proof {
                assert(timings@ =~= sample_timings@.take(i as int + 1));
            }
            i = i + 1;
        }
        proof {
            assert(timings@ =~= sample_timings@);
        }
        let id = store.allocate(
            Payload::SampleBuffer {
                data_buffer: db,
                format_description: fd,
                timings,
                data_ready,
                data_failed_status: 0,
                invalidated: false,
            },
        );
        Ok(CMSampleBuffer { id })
    }

    /// Construct a sample buffer whose data is already ready; see
    /// [`CMSampleBuffer::new`].
    pub fn new_ready(
        store: &mut Store,
        data_buffer: Option<&CMBlockBuffer>,
        format_description: Option<&CMFormatDescription>,
        sample_timings: &Vec<CMSampleTimingInfo>,
    ) -> (r: Result<CMSampleBuffer, OSStatus>)
        requires
            old(store)@.slots.len() < usize::MAX,
            match data_buffer {
                Some(b) => b.wf(old(store)@) && old(store)@.refs(b.id as int) < usize::MAX,
                None => true,
            },
            match format_description {
                Some(f) => f.wf(old(store)@) && old(store)@.refs(f.id as int) < usize::MAX,
                None => true,
            },
        ensures
            match r {
                Ok(sb) => old(store)@.forced_status == 0 && sb.id == old(store)@.slots.len()
                    && final(store)@ == old(store)@.retain_opt(opt_block_id(data_buffer))
                    .retain_opt(opt_format_id(format_description)).allocate(
                    PayloadModel::SampleBuffer {
                        data_buffer: opt_block_id(data_buffer),
                        format_description: opt_format_id(format_description),
                        timings: sample_timings@,
                        data_ready: true,
                        data_failed_status: 0,
                        invalidated: false,
                    },
                ) && sb.wf(final(store)@),
                Err(e) => e == old(store)@.forced_status && e != 0 && final(store)@.slots == old(
                    store,
                )@.slots && final(store)@.forced_status == 0,
            },
    {
        Self::new(store, data_buffer, format_description, sample_timings, true)
    }

    /// A retained handle to the sample buffer's data block, if it has one
    /// (the get rule: one reference is taken on the member).
    pub fn get_data_buffer(&self, store: &mut Store) -> (r: Option<CMBlockBuffer>)
        requires
            self.wf(old(store)@),
            match sb_data_buffer(old(store)@, self.id as int) {
                Some(m) => old(store)@.live(m as int) && old(store)@.refs(m as int) < usize::MAX,
                None => true,
            },
        ensures
            match sb_data_buffer(old(store)@, self.id as int) {
                Some(m) => r == Some((CMBlockBuffer { id: m })) && final(store)@ == old(
                    store,
                )@.retain(m as int),
                None => r is None && final(store)@ == old(store)@,
            },
    {
        let member = match store.payload_at(self.id) {
            Payload::SampleBuffer { data_buffer, .. } => *data_buffer,
            _ => {
                proof {
                    assert(false);
                }
                None
            },
        };
        match member {
            Some(m) => {
                store.retain_ref(m);
                Some(CMBlockBuffer { id: m })
            },
            None => None,
        }
    }

    /// A retained handle to the sample buffer's format description, if it has
    /// one (the get rule: one reference is taken on the member).
    pub fn get_format_description(&self, store: &mut Store) -> (r: Option<CMFormatDescription>)
        requires
            self.wf(old(store)@),
            match sb_format_description(old(store)@, self.id as int) {
                Some(m) => old(store)@.live(m as int) && old(store)@.refs(m as int) < usize::MAX,
                None => true,
            },
        ensures
            match sb_format_description(old(store)@, self.id as int) {
                Some(m) => r == Some((CMFormatDescription { id: m })) && final(store)@ == old(
                    store,
                )@.retain(m as int),
                None => r is None && final(store)@ == old(store)@,
            },
    {
        let member = match store.payload_at(self.id) {
            Payload::SampleBuffer { format_description, .. } => *format_description,
            _ => {
                proof {
                    assert(false);
                }
                None
            },
        };
        match member {
            Some(m) => {
                store.retain_ref(m);
                Some(CMFormatDescription { id: m })
            },
            None => None,
        }
    }

    /// Attach a data block to a sample buffer constructed without one. The
    /// sample buffer takes its own reference on the block. An invalidated
    /// buffer and one that already has a data block are refused with distinct
    /// codes, changing nothing.
    pub fn set_data_buffer(&self, store: &mut Store, data_buffer: &CMBlockBuffer) -> (r: Result<
        (),
        OSStatus,
    >)
        requires
            self.wf(old(store)@),
            data_buffer.wf(old(store)@),
            old(store)@.refs(data_buffer.id as int) < usize::MAX,
        ensures
            match r {
                Ok(()) => !sb_invalidated(old(store)@, self.id as int) && sb_data_buffer(
                    old(store)@,
                    self.id as int,
                ) is None && final(store)@ == old(store)@.retain(data_buffer.id as int).with_slot(
                    self.id as int,
                    SlotModel {
                        refs: old(store)@.refs(self.id as int),
                        payload: PayloadModel::SampleBuffer {
                            data_buffer: Some(data_buffer.id),
                            format_description: sb_format_description(old(store)@, self.id as int),
                            timings: sb_timings(old(store)@, self.id as int),
                            data_ready: sb_data_ready(old(store)@, self.id as int),
                            data_failed_status: sb_data_failed_status(old(store)@, self.id as int),
                            invalidated: false,
                        },
                    },
                ) && self.wf(final(store)@),
                Err(e) => final(store)@ == old(store)@ && e != 0 && e == (
                    if sb_invalidated(old(store)@, self.id as int) {
                        kCMSampleBufferError_Invalidated
                    } else if sb_data_buffer(old(store)@, self.id as int) is Some {
                        kCMSampleBufferError_AlreadyHasDataBuffer
                    } else {
                        0
                    }),
            },
    {
        let payload = store.take_payload(self.id);
        match payload {
            Payload::SampleBuffer {
                data_buffer: member,
                format_description,
                timings,
                data_ready,
                data_failed_status,
                invalidated,
            } => {
                if invalidated {
                    store.put_payload(
                        self.id,
                        Payload::SampleBuffer {
                            data_buffer: member,
                            format_description,
                            timings,
                            data_ready,
                            data_failed_status,
                            invalidated,
                        },
                    );
                    proof {
                        assert(store@.slots =~= old(store)@.slots);
                        assert(store@ == old(store)@);
                    }
                    return Err(kCMSampleBufferError_Invalidated);
                }
                if member.is_some() {
                    store.put_payload(
                        self.id,
                        Payload::SampleBuffer {
                            data_buffer: member,
                            format_description,
                            timings,
                            data_ready,
                            data_failed_status,
                            invalidated,
                        },
                    );
                    proof {
                        assert(store@.slots =~= old(store)@.slots);
                        assert(store@ == old(store)@);
                    }
                    return Err(kCMSampleBufferError_AlreadyHasDataBuffer);
                }
                store.put_payload(
                    self.id,
                    Payload::SampleBuffer {
                        data_buffer: Some(data_buffer.id),
                        format_description,
                        timings,
                        data_ready,
                        data_failed_status,
                        invalidated,
                    },
                );
                store.retain_ref(data_buffer.id);
                proof {
                    assert(store@.slots =~= old(store)@.retain(data_buffer.id as int).with_slot(
                        self.id as int,
                        SlotModel {
                            refs: old(store)@.refs(self.id as int),
                            payload: store@.payload(self.id as int),
                        },
                    ).slots);
                }
                Ok(())
            },
            p => {
                proof {
                    assert(false);
                }
                store.put_payload(self.id, p);
                Err(kCMSampleBufferError_RequiredParameterMissing)
            },
        }
    }

    /// Whether the sample buffer's data is ready to be read.
    pub fn data_is_ready(&self, store: &Store) -> (r: bool)
        requires
            self.wf(store@),
        ensures
            r == sb_data_ready(store@, self.id as int),
    {
        match store.payload_at(self.id) {
            Payload::SampleBuffer { data_ready, .. } => *data_ready,
            _ => {
                proof {
                    assert(false);
                }
                false
            },
        }
    }

    /// Mark the sample buffer's data ready. Refused once the buffer has been
    /// invalidated.
    pub fn set_data_ready(&self, store: &mut Store) -> (r: Result<(), OSStatus>)
        requires
            self.wf(old(store)@),
        ensures
            match r {
                Ok(()) => !sb_invalidated(old(store)@, self.id as int) && final(store)@ == old(
                    store,
                )@.with_slot(
                    self.id as int,
                    SlotModel {
                        refs: old(store)@.refs(self.id as int),
                        payload: PayloadModel::SampleBuffer {
                            data_buffer: sb_data_buffer(old(store)@, self.id as int),
                            format_description: sb_format_description(old(store)@, self.id as int),
                            timings: sb_timings(old(store)@, self.id as int),
                            data_ready: true,
                            data_failed_status: sb_data_failed_status(old(store)@, self.id as int),
                            invalidated: false,
                        },
                    },
                ) && self.wf(final(store)@),
                Err(e) => e == kCMSampleBufferError_Invalidated && sb_invalidated(
                    old(store)@,
                    self.id as int,
                ) && final(store)@ == old(store)@,
            },
    {
        let payload = store.take_payload(self.id);
        match payload {
            Payload::SampleBuffer {
                data_buffer,
                format_description,
                timings,
                data_ready,
                data_failed_status,
                invalidated,
            } => {
                if invalidated {
                    store.put_payload(
                        self.id,
                        Payload::SampleBuffer {
                            data_buffer,
                            format_description,
                            timings,
                            data_ready,
                            data_failed_status,
                            invalidated,
                        },
                    );
                    proof {
                        assert(store@.slots =~= old(store)@.slots);
                        assert(store@ == old(store)@);
                    }
                    return Err(kCMSampleBufferError_Invalidated);
                }
                store.put_payload(
                    self.id,
                    Payload::SampleBuffer {
                        data_buffer,
                        format_description,
                        timings,
                        data_ready: true,
                        data_failed_status,
                        invalidated,
                    },
                );
                proof {
                    assert(store@.slots =~= old(store)@.slots.update(
                        self.id as int,
                        SlotModel {
                            refs: old(store)@.refs(self.id as int),
                            payload: store@.payload(self.id as int),
                        },
                    ));
                }
                Ok(())
            },
            p => {
                proof {
                    assert(false);
                }
                store.put_payload(self.id, p);
                Err(kCMSampleBufferError_RequiredParameterMissing)
            },
        }
    }

    /// Record that fetching the sample buffer's data failed with the given
    /// nonzero status; the buffer's data is then not ready. Refused once the
    /// buffer has been invalidated.
    pub fn set_data_failed(&self, store: &mut Store, status: OSStatus) -> (r: Result<
        (),
        OSStatus,
    >)
        requires
            self.wf(old(store)@),
            status != 0,
        ensures
            match r {
                Ok(()) => !sb_invalidated(old(store)@, self.id as int) && final(store)@ == old(
                    store,
                )@.with_slot(
                    self.id as int,
                    SlotModel {
                        refs: old(store)@.refs(self.id as int),
                        payload: PayloadModel::SampleBuffer {
                            data_buffer: sb_data_buffer(old(store)@, self.id as int),
                            format_description: sb_format_description(old(store)@, self.id as int),
                            timings: sb_timings(old(store)@, self.id as int),
                            data_ready: false,
                            data_failed_status: status,
                            invalidated: false,
                        },
                    },
                ) && self.wf(final(store)@),
                Err(e) => e == kCMSampleBufferError_Invalidated && sb_invalidated(
                    old(store)@,
                    self.id as int,
                ) && final(store)@ == old(store)@,
            },
    {
        let payload = store.take_payload(self.id);
        match payload {
            Payload::SampleBuffer {
                data_buffer,
                format_description,
                timings,
                data_ready,
                data_failed_status,
                invalidated,
            } => {
                if invalidated {
                    store.put_payload(
                        self.id,
                        Payload::SampleBuffer {
                            data_buffer,
                            format_description,
                            timings,
                            data_ready,
                            data_failed_status,
                            invalidated,
                        },
                    );
                    proof {
                        assert(store@.slots =~= old(store)@.slots);
                        assert(store@ == old(store)@);
                    }
                    return Err(kCMSampleBufferError_Invalidated);
                }
                store.put_payload(
                    self.id,
                    Payload::SampleBuffer {
                        data_buffer,
                        format_description,
                        timings,
                        data_ready: false,
                        data_failed_status: status,
                        invalidated,
                    },
                );
                proof {
                    assert(store@.slots =~= old(store)@.slots.update(
                        self.id as int,
                        SlotModel {
                            refs: old(store)@.refs(self.id as int),
                            payload: store@.payload(self.id as int),
                        },
                    ));
                }
                Ok(())
            },
            p => {
                proof {
                    assert(false);
                }
                store.put_payload(self.id, p);
                Err(kCMSampleBufferError_RequiredParameterMissing)
            },
        }
    }

    /// The status recorded by a failed data fetch, if one failed.
    pub fn has_data_failed(&self, store: &Store) -> (r: Option<OSStatus>)
        requires
            self.wf(store@),
        ensures
            sb_data_failed_status(store@, self.id as int) == 0 ==> r is None,
            sb_data_failed_status(store@, self.id as int) != 0 ==> r == Some(
                sb_data_failed_status(store@, self.id as int),
            ),
    {
        match store.payload_at(self.id) {
            Payload::SampleBuffer { data_failed_status, .. } => {
                if *data_failed_status == 0 {
                    None
                } else {
                    Some(*data_failed_status)
                }
            },
            _ => {
                proof {
                    assert(false);
                }
                None
            },
        }
    }

    /// Demand that the sample buffer's data become ready now. With no
    /// readiness machinery of its own, data that is already ready succeeds, a
    /// recorded fetch failure reports its stored status, an invalidated
    /// buffer reports the invalidated code, and data that nothing has made
    /// ready reports the not-ready code. The buffer is unchanged either way.
    pub fn make_data_ready(&self, store: &Store) -> (r: Result<(), OSStatus>)
        requires
            self.wf(store@),
        ensures
            match r {
                Ok(()) => !sb_invalidated(store@, self.id as int) && sb_data_failed_status(
                    store@,
                    self.id as int,
                ) == 0 && sb_data_ready(store@, self.id as int),
                Err(e) => e != 0 && e == (
                    if sb_invalidated(store@, self.id as int) {
                        kCMSampleBufferError_Invalidated
                    } else if sb_data_failed_status(store@, self.id as int) != 0 {
                        sb_data_failed_status(store@, self.id as int)
                    } else if !sb_data_ready(store@, self.id as int) {
                        kCMSampleBufferError_BufferNotReady
                    } else {
                        0
                    }),
            },
    {
        match store.payload_at(self.id) {
            Payload::SampleBuffer { data_ready, data_failed_status, invalidated, .. } => {
                if *invalidated {
                    Err(kCMSampleBufferError_Invalidated)
                } else if *data_failed_status != 0 {
                    Err(*data_failed_status)
                } else if !*data_ready {
                    Err(kCMSampleBufferError_BufferNotReady)
                } else {
                    Ok(())
                }
            },
            _ => {
                proof {
                    assert(false);
                }
                Err(kCMSampleBufferError_RequiredParameterMissing)
            },
        }
    }

    /// Invalidate the sample buffer: later state changes and timing queries
    /// are refused. Invalidating twice changes nothing further.
    pub fn invalidate(&self, store: &mut Store) -> (r: Result<(), OSStatus>)
        requires
            self.wf(old(store)@),
        ensures
            r is Ok,
            final(store)@ == old(store)@.with_slot(
                self.id as int,
                SlotModel {
                    refs: old(store)@.refs(self.id as int),
                    payload: PayloadModel::SampleBuffer {
                        data_buffer: sb_data_buffer(old(store)@, self.id as int),
                        format_description: sb_format_description(old(store)@, self.id as int),
                        timings: sb_timings(old(store)@, self.id as int),
                        data_ready: sb_data_ready(old(store)@, self.id as int),
                        data_failed_status: sb_data_failed_status(old(store)@, self.id as int),
                        invalidated: true,
                    },
                },
            ),
            self.wf(final(store)@),
    {
        let payload = store.take_payload(self.id);
        match payload {
            Payload::SampleBuffer {
                data_buffer,
                format_description,
                timings,
                data_ready,
                data_failed_status,
                ..
            } => {
                store.put_payload(
                    self.id,
                    Payload::SampleBuffer {
                        data_buffer,
                        format_description,
                        timings,
                        data_ready,
                        data_failed_status,
                        invalidated: true,
                    },
                );
                proof {
                    assert(store@.slots =~= old(store)@.slots.update(
                        self.id as int,
                        SlotModel {
                            refs: old(store)@.refs(self.id as int),
                            payload: store@.payload(self.id as int),
                        },
                    ));
                }
                Ok(())
            },
            p => {
                proof {
                    assert(false);
                }
                store.put_payload(self.id, p);
                Err(kCMSampleBufferError_RequiredParameterMissing)
            },
        }
    }

    /// Whether the sample buffer is still valid (never invalidated).
    pub fn is_valid(&self, store: &Store) -> (r: bool)
        requires
            self.wf(store@),
        ensures
            r == !sb_invalidated(store@, self.id as int),
    {
        match store.payload_at(self.id) {
            Payload::SampleBuffer { invalidated, .. } => !*invalidated,
            _ => {
                proof {
                    assert(false);
                }
                false
            },
        }
    }

    /// The number of samples the buffer describes: one per timing record.
    pub fn get_num_samples(&self, store: &Store) -> (r: CMItemCount)
        requires
            self.wf(store@),
        ensures
            r == sb_timings(store@, self.id as int).len(),
    {
        match store.payload_at(self.id) {
            Payload::SampleBuffer { timings, .. } => timings.len(),
            _ => {
                proof {
                    assert(false);
                }
                0
            },
        }
    }

    /// The timing record of one sample. An invalidated buffer, a buffer with
    /// no timing records, and an index past the records each fail with their
    /// own code.
    pub fn get_sample_timing_info(&self, store: &Store, sample_index: CMItemCount) -> (r: Result<
        CMSampleTimingInfo,
        OSStatus,
    >)
        requires
            self.wf(store@),
        ensures
            match r {
                Ok(info) => !sb_invalidated(store@, self.id as int) && sample_index < sb_timings(
                    store@,
                    self.id as int,
                ).len() && info == sb_timings(store@, self.id as int)[sample_index as int],
                Err(e) => e != 0 && e == (
                    if sb_invalidated(store@, self.id as int) {
                        kCMSampleBufferError_Invalidated
                    } else if sb_timings(store@, self.id as int).len() == 0 {
                        kCMSampleBufferError_BufferHasNoSampleTimingInfo
                    } else if sample_index >= sb_timings(store@, self.id as int).len() {
                        kCMSampleBufferError_SampleIndexOutOfRange
                    } else {
                        0
                    }),
            },
    {
        match store.payload_at(self.id) {
            Payload::SampleBuffer { timings, invalidated, .. } => {
                if *invalidated {
                    Err(kCMSampleBufferError_Invalidated)
                } else if timings.len() == 0 {
                    Err(kCMSampleBufferError_BufferHasNoSampleTimingInfo)
                } else if sample_index >= timings.len() {
                    Err(kCMSampleBufferError_SampleIndexOutOfRange)
                } else {
                    Ok(timings[sample_index])
                }
            },
            _ => {
                proof {
                    assert(false);
                }
                Err(kCMSampleBufferError_RequiredParameterMissing)
            },
        }
    }

    /// The presentation timestamp of the first sample; the invalid time when
    /// the buffer has no timing records.
    pub fn get_presentation_time_stamp(&self, store: &Store) -> (r: CMTime)
        requires
            self.wf(store@),
        ensures
            sb_timings(store@, self.id as int).len() == 0 ==> r == (CMTime {
                value: 0,
                timescale: 0,
                flags: 0,
                epoch: 0,
            }),
            sb_timings(store@, self.id as int).len() > 0 ==> r == sb_timings(
                store@,
                self.id as int,
            )[0].presentationTimeStamp,
    {
        match store.payload_at(self.id) {
            Payload::SampleBuffer { timings, .. } => {
                if timings.len() == 0 {
                    CMTime::invalid()
                } else {
                    timings[0].presentationTimeStamp
                }
            },
            _ => {
                proof {
                    assert(false);
                }
                CMTime::invalid()
            },
        }
    }

    /// The decode timestamp of the first sample; the invalid time when the
    /// buffer has no timing records.
    pub fn get_decode_time_stamp(&self, store: &Store) -> (r: CMTime)
        requires
            self.wf(store@),
        ensures
            sb_timings(store@, self.id as int).len() == 0 ==> r == (CMTime {
                value: 0,
                timescale: 0,
                flags: 0,
                epoch: 0,
            }),
            sb_timings(store@, self.id as int).len() > 0 ==> r == sb_timings(
                store@,
                self.id as int,
            )[0].decodeTimeStamp,
    {
        match store.payload_at(self.id) {
            Payload::SampleBuffer { timings, .. } => {
                if timings.len() == 0 {
                    CMTime::invalid()
                } else {
                    timings[0].decodeTimeStamp
                }
            },
            _ => {
                proof {
                    assert(false);
                }
                CMTime::invalid()
            },
        }
    }

    /// Release the handle's one reference. When this was the last reference,
    /// the sample buffer is freed and the references it holds on its data
    /// block and format description are released as well.
    pub fn release(self, store: &mut Store)
        requires
            old(store)@.live(self.id as int),
        ensures
            final(store)@ == old(store)@.release(self.id as int),
    {
        store.release_ref(self.id);
    }
}

} // verus!
