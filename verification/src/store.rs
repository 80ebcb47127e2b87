//! The object store: an in-memory registry of reference-counted objects that
//! stands in for the platform framework's allocator. Every handle names a slot
//! in a store; constructing an object allocates a slot with one reference,
//! retaining increments the slot's count, and releasing decrements it, freeing
//! the slot when the count reaches zero. Freeing a container also releases
//! what it holds: a buffer queue its references on its enqueued buffers, a
//! sample buffer its references on its data block and format description.
//!
//! The store can be told to fail the next construction with a chosen status
//! code, so that callers' error paths can be exercised exactly as the
//! framework would exercise them.
use vstd::prelude::*;

use crate::base::{CFTypeID, OSStatus};
use crate::buffer_queue::{Trigger, TriggerModel};
use crate::sample_buffer::CMSampleTimingInfo;

verus! {

/// Runtime type tag of memory block objects.
pub const kCMBlockBufferTypeID: CFTypeID = 1;

/// Runtime type tag of FIFO buffer queue objects.
pub const kCMBufferQueueTypeID: CFTypeID = 2;

/// Runtime type tag of simple element queue objects.
pub const kCMSimpleQueueTypeID: CFTypeID = 3;

/// Runtime type tag of format description objects.
pub const kCMFormatDescriptionTypeID: CFTypeID = 4;

/// Runtime type tag of sample buffer objects.
pub const kCMSampleBufferTypeID: CFTypeID = 5;

/// Runtime type tag of clock objects.
pub const kCMClockTypeID: CFTypeID = 6;

/// Runtime type tag of timebase objects.
pub const kCMTimebaseTypeID: CFTypeID = 7;

/// Mathematical model of one object's state.
pub enum PayloadModel {
    /// An unoccupied slot: either never allocated or already freed.
    Free,
    /// A memory block: its flattened bytes, the lengths of its segments (each
    /// at least one byte, summing to the byte count), and a generation that
    /// advances on every mutation, invalidating outstanding direct views.
    BlockBuffer { bytes: Seq<u8>, segs: Seq<usize>, generation: u64 },
    /// A FIFO queue of buffer objects, each held with one retained reference.
    BufferQueue {
        items: Seq<usize>,
        capacity: usize,
        end_of_data: bool,
        triggers: Seq<TriggerModel>,
        next_token: u64,
    },
    /// A bounded FIFO queue of plain address-sized elements.
    SimpleQueue { elements: Seq<u64>, element_capacity: i32 },
    /// A media format description: a media type and a media subtype code.
    FormatDescription { media_type: u32, media_subtype: u32 },
    /// A sample buffer: retained references to its data block and format
    /// description, per-sample timing, and its readiness, failure and
    /// invalidation state.
    SampleBuffer {
        data_buffer: Option<usize>,
        format_description: Option<usize>,
        timings: Seq<CMSampleTimingInfo>,
        data_ready: bool,
        data_failed_status: OSStatus,
        invalidated: bool,
    },
    /// A clock, and whether it has been invalidated.
    Clock { invalidated: bool },
    /// A timebase: a retained reference to the clock or timebase it is
    /// derived from, which is always an earlier slot.
    Timebase { source: usize },
}

/// The runtime type tag an object of the given state reports.
pub open spec fn payload_tag(p: PayloadModel) -> CFTypeID {
    match p {
        PayloadModel::Free => 0,
        PayloadModel::BlockBuffer { .. } => kCMBlockBufferTypeID,
        PayloadModel::BufferQueue { .. } => kCMBufferQueueTypeID,
        PayloadModel::SimpleQueue { .. } => kCMSimpleQueueTypeID,
        PayloadModel::FormatDescription { .. } => kCMFormatDescriptionTypeID,
        PayloadModel::SampleBuffer { .. } => kCMSampleBufferTypeID,
        PayloadModel::Clock { .. } => kCMClockTypeID,
        PayloadModel::Timebase { .. } => kCMTimebaseTypeID,
    }
}

/// Mathematical model of one slot: its reference count and its object state.
pub struct SlotModel {
    pub refs: nat,
    pub payload: PayloadModel,
}

/// Mathematical model of a store.
pub struct StoreModel {
    pub slots: Seq<SlotModel>,
    pub forced_status: OSStatus,
}

impl StoreModel {
    /// Whether `id` names a slot of this store.
    pub open spec fn in_bounds(self, id: int) -> bool {
        0 <= id < self.slots.len()
    }

    /// The reference count of slot `id`.
    pub open spec fn refs(self, id: int) -> nat {
        self.slots[id].refs
    }

    /// The object state of slot `id`.
    pub open spec fn payload(self, id: int) -> PayloadModel {
        self.slots[id].payload
    }

    /// Whether slot `id` holds a live object: at least one reference remains.
    pub open spec fn live(self, id: int) -> bool {
        self.in_bounds(id) && self.slots[id].refs >= 1
    }

    /// The runtime type tag of slot `id`; zero outside the store.
    pub open spec fn tag_of(self, id: int) -> CFTypeID {
        if self.in_bounds(id) {
            payload_tag(self.slots[id].payload)
        } else {
            0
        }
    }

    /// This store with slot `id` replaced.
    pub open spec fn with_slot(self, id: int, s: SlotModel) -> StoreModel {
        StoreModel { slots: self.slots.update(id, s), forced_status: self.forced_status }
    }

    /// The store after taking one additional reference on a live object.
    pub open spec fn retain(self, id: int) -> StoreModel {
        if self.live(id) {
            self.with_slot(
                id,
                SlotModel { refs: self.slots[id].refs + 1, payload: self.slots[id].payload },
            )
        } else {
            self
        }
    }

    /// The store after dropping one reference of slot `id`, freeing the slot
    /// when the count reaches zero, without releasing anything the freed
    /// object holds. This is how a freed sample buffer's members are
    /// released: its members are never containers themselves.
    pub open spec fn dec_ref(self, id: int) -> StoreModel {
        if self.live(id) {
            if self.slots[id].refs == 1 {
                self.with_slot(id, SlotModel { refs: 0, payload: PayloadModel::Free })
            } else {
                self.with_slot(
                    id,
                    SlotModel {
                        refs: (self.slots[id].refs - 1) as nat,
                        payload: self.slots[id].payload,
                    },
                )
            }
        } else {
            self
        }
    }

    /// The store after taking one additional reference on the slot a sample
    /// buffer member names, if it names one.
    pub open spec fn retain_opt(self, member: Option<usize>) -> StoreModel {
        match member {
            Some(x) => self.retain(x as int),
            None => self,
        }
    }

    /// The store after dropping one reference of the slot a sample buffer
    /// member names, if it names one.
    pub open spec fn dec_opt(self, member: Option<usize>) -> StoreModel {
        match member {
            Some(x) => self.dec_ref(x as int),
            None => self,
        }
    }

    /// The store after dropping one reference of slot `id`, releasing a freed
    /// sample buffer's own references on its data block and format
    /// description as well. Those members are never containers, so the
    /// cascade ends there.
    pub open spec fn dec_ref_member(self, id: int) -> StoreModel {
        if self.live(id) {
            if self.slots[id].refs == 1 {
                let freed = self.with_slot(id, SlotModel { refs: 0, payload: PayloadModel::Free });
                match self.slots[id].payload {
                    PayloadModel::SampleBuffer { data_buffer, format_description, .. } => {
                        freed.dec_opt(data_buffer).dec_opt(format_description)
                    },
                    _ => freed,
                }
            } else {
                self.with_slot(
                    id,
                    SlotModel {
                        refs: (self.slots[id].refs - 1) as nat,
                        payload: self.slots[id].payload,
                    },
                )
            }
        } else {
            self
        }
    }

    /// The store after dropping one reference of each listed slot in order.
    pub open spec fn dec_items(self, items: Seq<usize>) -> StoreModel
        decreases items.len(),
    {
        if items.len() == 0 {
            self
        } else {
            self.dec_ref_member(items[0] as int).dec_items(items.drop_first())
        }
    }

    /// The store after releasing one reference down a timebase source chain:
    /// when releasing the reference frees a timebase, the reference it holds
    /// on its own source — always an earlier slot — is released in turn.
    pub open spec fn release_chain(self, id: int) -> StoreModel
        decreases id,
    {
        if !self.live(id) {
            self
        } else if self.slots[id].refs > 1 {
            self.with_slot(
                id,
                SlotModel {
                    refs: (self.slots[id].refs - 1) as nat,
                    payload: self.slots[id].payload,
                },
            )
        } else {
            let freed = self.with_slot(id, SlotModel { refs: 0, payload: PayloadModel::Free });
            match self.slots[id].payload {
                PayloadModel::Timebase { source } => if 0 <= source < id {
                    freed.release_chain(source as int)
                } else {
                    freed
                },
                _ => freed,
            }
        }
    }

    /// The store after releasing one reference of slot `id`. When the count
    /// reaches zero the slot is freed; a freed buffer queue releases its own
    /// references on its members, a freed sample buffer its own references on
    /// its data block and format description, and a freed timebase its own
    /// reference on its source, down the chain.
    pub open spec fn release(self, id: int) -> StoreModel {
        if !self.live(id) {
            self
        } else if self.slots[id].refs > 1 {
            self.with_slot(
                id,
                SlotModel {
                    refs: (self.slots[id].refs - 1) as nat,
                    payload: self.slots[id].payload,
                },
            )
        } else {
            let freed = self.with_slot(id, SlotModel { refs: 0, payload: PayloadModel::Free });
            match self.slots[id].payload {
                PayloadModel::BufferQueue { items, .. } => freed.dec_items(items),
                PayloadModel::SampleBuffer { data_buffer, format_description, .. } => freed.dec_opt(
                    data_buffer,
                ).dec_opt(format_description),
                PayloadModel::Timebase { source } => if 0 <= source < id {
                    freed.release_chain(source as int)
                } else {
                    freed
                },
                _ => freed,
            }
        }
    }

    /// The store after appending a fresh slot holding `p` with one reference.
    pub open spec fn allocate(self, p: PayloadModel) -> StoreModel {
        StoreModel {
            slots: self.slots.push(SlotModel { refs: 1, payload: p }),
            forced_status: self.forced_status,
        }
    }
}

/// The store after releasing `n` references of slot `id`, one at a time.
pub open spec fn release_n(s: StoreModel, id: int, n: nat) -> StoreModel
    decreases n,
{
    if n == 0 {
        s
    } else {
        release_n(s, id, (n - 1) as nat).release(id)
    }
}

/// Releasing a freed object's member references never revives a dead slot.
proof fn lemma_dec_ref_member_preserves_dead(s: StoreModel, id: int, j: int)
    requires
        !s.live(j),
    ensures
        !s.dec_ref_member(id).live(j),
{
    if s.live(id) && s.slots[id].refs == 1 {
        let freed = s.with_slot(id, SlotModel { refs: 0, payload: PayloadModel::Free });
        match s.slots[id].payload {
            PayloadModel::SampleBuffer { data_buffer, format_description, .. } => {
                lemma_dec_opt_preserves_dead(freed, data_buffer, j);
                lemma_dec_opt_preserves_dead(freed.dec_opt(data_buffer), format_description, j);
            },
            _ => {},
        }
    }
}

/// Releasing an optional member reference never revives a dead slot.
proof fn lemma_dec_opt_preserves_dead(s: StoreModel, member: Option<usize>, j: int)
    requires
        !s.live(j),
    ensures
        !s.dec_opt(member).live(j),
{
}

/// Releasing references down a source chain never revives a dead slot.
proof fn lemma_release_chain_preserves_dead(s: StoreModel, id: int, j: int)
    requires
        !s.live(j),
    ensures
        !s.release_chain(id).live(j),
    decreases id,
{
    if s.live(id) && s.slots[id].refs == 1 {
        let freed = s.with_slot(id, SlotModel { refs: 0, payload: PayloadModel::Free });
        match s.slots[id].payload {
            PayloadModel::Timebase { source } => {
                if 0 <= source < id {
                    lemma_release_chain_preserves_dead(freed, source as int, j);
                }
            },
            _ => {},
        }
    }
}

/// Dropping references of listed slots never revives a dead slot.
proof fn lemma_dec_items_preserves_dead(s: StoreModel, items: Seq<usize>, j: int)
    requires
        !s.live(j),
    ensures
        !s.dec_items(items).live(j),
    decreases items.len(),
{
    if items.len() > 0 {
        lemma_dec_ref_member_preserves_dead(s, items[0] as int, j);
        lemma_dec_items_preserves_dead(
            s.dec_ref_member(items[0] as int),
            items.drop_first(),
            j,
        );
    }
}

/// Create/get rule balance: when an object's reference count is `n` — one
/// unit per independently obtained handle — releasing fewer than `n` of those
/// references leaves the object live with the remaining count, and releasing
/// all `n` frees it. The count reaches zero only when the last reference is
/// released.
pub proof fn lemma_refcount_balance(s: StoreModel, id: int, n: nat, k: nat)
    requires
        s.live(id),
        s.refs(id) == n,
        k <= n,
    ensures
        k < n ==> release_n(s, id, k).live(id) && release_n(s, id, k).refs(id) == n - k
            && release_n(s, id, k).payload(id) == s.payload(id),
        k == n ==> !release_n(s, id, k).live(id),
    decreases k,
{
    if k > 0 {
        lemma_refcount_balance(s, id, n, (k - 1) as nat);
        let prev = release_n(s, id, (k - 1) as nat);
        if k < n {
            // The object still has more than one reference, so this release
            // only decrements the count.
            assert(prev.refs(id) == n - (k - 1));
        } else {
            // The last reference: the slot is freed, and freeing never
            // revives it, whatever the freed object held.
            if prev.refs(id) == 1 {
                let freed = prev.with_slot(
                    id,
                    SlotModel { refs: 0, payload: PayloadModel::Free },
                );
                match prev.slots[id].payload {
                    PayloadModel::BufferQueue { items, .. } => {
                        lemma_dec_items_preserves_dead(freed, items, id);
                    },
                    PayloadModel::SampleBuffer { data_buffer, format_description, .. } => {
                        lemma_dec_opt_preserves_dead(freed, data_buffer, id);
                        lemma_dec_opt_preserves_dead(
                            freed.dec_opt(data_buffer),
                            format_description,
                            id,
                        );
                    },
                    PayloadModel::Timebase { source } => {
                        if 0 <= source < id {
                            lemma_release_chain_preserves_dead(freed, source as int, id);
                        }
                    },
                    _ => {},
                }
            }
        }
    }
}

/// One object's executable state.
pub enum Payload {
    /// An unoccupied slot.
    Free,
    /// A memory block; see [`PayloadModel::BlockBuffer`].
    BlockBuffer { bytes: Vec<u8>, segs: Vec<usize>, generation: u64 },
    /// A FIFO buffer queue; see [`PayloadModel::BufferQueue`].
    BufferQueue {
        items: Vec<usize>,
        capacity: usize,
        end_of_data: bool,
        triggers: Vec<Trigger>,
        next_token: u64,
    },
    /// A bounded FIFO element queue; see [`PayloadModel::SimpleQueue`].
    SimpleQueue { elements: Vec<u64>, element_capacity: i32 },
    /// A format description; see [`PayloadModel::FormatDescription`].
    FormatDescription { media_type: u32, media_subtype: u32 },
    /// A sample buffer; see [`PayloadModel::SampleBuffer`].
    SampleBuffer {
        data_buffer: Option<usize>,
        format_description: Option<usize>,
        timings: Vec<CMSampleTimingInfo>,
        data_ready: bool,
        data_failed_status: OSStatus,
        invalidated: bool,
    },
    /// A clock; see [`PayloadModel::Clock`].
    Clock { invalidated: bool },
    /// A timebase; see [`PayloadModel::Timebase`].
    Timebase { source: usize },
}

impl View for Payload {
    type V = PayloadModel;

    open spec fn view(&self) -> PayloadModel {
        match self {
            Payload::Free => PayloadModel::Free,
            Payload::BlockBuffer { bytes, segs, generation } => PayloadModel::BlockBuffer {
                bytes: bytes@,
                segs: segs@,
                generation: *generation,
            },
            Payload::BufferQueue { items, capacity, end_of_data, triggers, next_token } => {
                PayloadModel::BufferQueue {
                    items: items@,
                    capacity: *capacity,
                    end_of_data: *end_of_data,
                    triggers: triggers@.map_values(|t: Trigger| t@),
                    next_token: *next_token,
                }
            },
            Payload::SimpleQueue { elements, element_capacity } => PayloadModel::SimpleQueue {
                elements: elements@,
                element_capacity: *element_capacity,
            },
            Payload::FormatDescription { media_type, media_subtype } => {
                PayloadModel::FormatDescription {
                    media_type: *media_type,
                    media_subtype: *media_subtype,
                }
            },
            Payload::SampleBuffer {
                data_buffer,
                format_description,
                timings,
                data_ready,
                data_failed_status,
                invalidated,
            } => PayloadModel::SampleBuffer {
                data_buffer: *data_buffer,
                format_description: *format_description,
                timings: timings@,
                data_ready: *data_ready,
                data_failed_status: *data_failed_status,
                invalidated: *invalidated,
            },
            Payload::Clock { invalidated } => PayloadModel::Clock { invalidated: *invalidated },
            Payload::Timebase { source } => PayloadModel::Timebase { source: *source },
        }
    }
}

/// One executable slot.
pub struct Slot {
    pub refs: usize,
    pub payload: Payload,
}

impl View for Slot {
    type V = SlotModel;

    open spec fn view(&self) -> SlotModel {
        SlotModel { refs: self.refs as nat, payload: self.payload@ }
    }
}

/// The executable object store.
pub struct Store {
    slots: Vec<Slot>,
    forced_status: OSStatus,
}

impl View for Store {
    type V = StoreModel;

    closed spec fn view(&self) -> StoreModel {
        StoreModel {
            slots: self.slots@.map_values(|s: Slot| s@),
            forced_status: self.forced_status,
        }
    }
}

impl Store {
    /// A fresh, empty store with no forced failure pending.
    pub fn new() -> (r: Store)
        ensures
            r@.slots.len() == 0,
            r@.forced_status == 0,
    {
        Store { slots: Vec::new(), forced_status: 0 }
    }

    /// Force the next construction performed against this store to fail with
    /// the given nonzero status code, which the constructor must surface
    /// verbatim.
    pub fn force_next_status(&mut self, status: OSStatus)
        requires
            status != 0,
        ensures
            final(self)@.slots == old(self)@.slots,
            final(self)@.forced_status == status,
    {
        self.forced_status = status;
    }

    /// The number of slots ever allocated, free or live.
    pub fn slot_count(&self) -> (r: usize)
        ensures
            r == self@.slots.len(),
    {
        proof {
            assert(self@.slots.len() == self.slots@.len());
        }
        self.slots.len()
    }

    /// Whether `id` names a live object.
    pub fn is_live(&self, id: usize) -> (r: bool)
        ensures
            r == self@.live(id as int),
    {
        id < self.slots.len() && self.slots[id].refs >= 1
    }

    /// The runtime type tag of `id`; zero for freed or never-allocated slots.
    pub fn tag(&self, id: usize) -> (r: CFTypeID)
        ensures
            r == self@.tag_of(id as int),
    {
        if id < self.slots.len() {
            match &self.slots[id].payload {
                Payload::Free => 0,
                Payload::BlockBuffer { .. } => kCMBlockBufferTypeID,
                Payload::BufferQueue { .. } => kCMBufferQueueTypeID,
                Payload::SimpleQueue { .. } => kCMSimpleQueueTypeID,
                Payload::FormatDescription { .. } => kCMFormatDescriptionTypeID,
                Payload::SampleBuffer { .. } => kCMSampleBufferTypeID,
                Payload::Clock { .. } => kCMClockTypeID,
                Payload::Timebase { .. } => kCMTimebaseTypeID,
            }
        } else {
            0
        }
    }

    /// The reference count of a live object.
    pub fn retain_count(&self, id: usize) -> (r: usize)
        requires
            self@.live(id as int),
        ensures
            r == self@.refs(id as int),
    {
        self.slots[id].refs
    }

    /// Consume and clear any pending forced status.
    pub(crate) fn take_forced(&mut self) -> (r: OSStatus)
        ensures
            r == old(self)@.forced_status,
            final(self)@.slots == old(self)@.slots,
            final(self)@.forced_status == 0,
    {
        let status = self.forced_status;
        self.forced_status = 0;
        status
    }

    /// Borrow the payload of an existing slot.
    pub(crate) fn payload_at(&self, id: usize) -> (r: &Payload)
        requires
            self@.in_bounds(id as int),
        ensures
            r@ == self@.payload(id as int),
    {
        &self.slots[id].payload
    }

    /// Move the payload of an existing slot out, leaving the slot free. The
    /// caller is expected to put a payload back with [`Store::put_payload`].
    pub(crate) fn take_payload(&mut self, id: usize) -> (r: Payload)
        requires
            old(self)@.in_bounds(id as int),
        ensures
            r@ == old(self)@.payload(id as int),
            final(self)@ == old(self)@.with_slot(
                id as int,
                SlotModel { refs: old(self)@.refs(id as int), payload: PayloadModel::Free },
            ),
    {
        let mut payload = Payload::Free;
        let slot = &mut self.slots[id];
        core::mem::swap(&mut payload, &mut slot.payload);
        proof {
            assert(self@.slots =~= old(self)@.slots.update(
                id as int,
                SlotModel { refs: old(self)@.refs(id as int), payload: PayloadModel::Free },
            ));
        }
        payload
    }

    /// Store a payload into an existing slot, leaving its count unchanged.
    pub(crate) fn put_payload(&mut self, id: usize, payload: Payload)
        requires
            old(self)@.in_bounds(id as int),
        ensures
            final(self)@ == old(self)@.with_slot(
                id as int,
                SlotModel { refs: old(self)@.refs(id as int), payload: payload@ },
            ),
    {
        let slot = &mut self.slots[id];
        slot.payload = payload;
        proof {
            assert(self@.slots =~= old(self)@.slots.update(
                id as int,
                SlotModel { refs: old(self)@.refs(id as int), payload: payload@ },
            ));
        }
    }

    /// Allocate a fresh slot holding `payload` under the create rule: the
    /// slot starts with exactly one reference, owned by the caller.
    pub(crate) fn allocate(&mut self, payload: Payload) -> (id: usize)
        requires
            old(self)@.slots.len() < usize::MAX,
        ensures
            id == old(self)@.slots.len(),
            final(self)@ == old(self)@.allocate(payload@),
    {
        let id = self.slots.len();
        self.slots.push(Slot { refs: 1, payload });
        proof {
            assert(self@.slots =~= old(self)@.slots.push(
                SlotModel { refs: 1, payload: payload@ },
            ));
        }
        id
    }

    /// Take one additional reference on a live object (the get rule).
    pub(crate) fn retain_ref(&mut self, id: usize)
        requires
            old(self)@.live(id as int),
            old(self)@.refs(id as int) < usize::MAX,
        ensures
            final(self)@ == old(self)@.retain(id as int),
    {
        let slot = &mut self.slots[id];
        slot.refs = slot.refs + 1;
        proof {
            assert(self@.slots =~= old(self)@.slots.update(
                id as int,
                SlotModel {
                    refs: old(self)@.refs(id as int) + 1,
                    payload: old(self)@.payload(id as int),
                },
            ));
        }
    }

    /// Drop one reference of slot `id` if it is live, freeing the slot when
    /// the count reaches zero, without cascading.
    fn dec_ref_leaf(&mut self, id: usize)
        ensures
            final(self)@ == old(self)@.dec_ref(id as int),
    {
        if id < self.slots.len() && self.slots[id].refs >= 1 {
            let refs = self.slots[id].refs;
            let slot = &mut self.slots[id];
            if refs == 1 {
                slot.refs = 0;
                slot.payload = Payload::Free;
                proof {
                    assert(self@.slots =~= old(self)@.slots.update(
                        id as int,
                        SlotModel { refs: 0, payload: PayloadModel::Free },
                    ));
                }
            } else {
                slot.refs = refs - 1;
                proof {
                    assert(self@.slots =~= old(self)@.slots.update(
                        id as int,
                        SlotModel {
                            refs: (old(self)@.refs(id as int) - 1) as nat,
                            payload: old(self)@.payload(id as int),
                        },
                    ));
                }
            }
        }
    }

    /// Drop one reference of slot `id` if it is live, freeing the slot when
    /// the count reaches zero; a freed sample buffer's own references on its
    /// data block and format description are released as well.
    pub(crate) fn dec_ref_member(&mut self, id: usize)
        ensures
            final(self)@ == old(self)@.dec_ref_member(id as int),
    {
        if id < self.slots.len() && self.slots[id].refs >= 1 {
            let refs = self.slots[id].refs;
            if refs == 1 {
                let mut payload = Payload::Free;
                let slot = &mut self.slots[id];
                slot.refs = 0;
                core::mem::swap(&mut payload, &mut slot.payload);
                proof {
                    assert(self@.slots =~= old(self)@.slots.update(
                        id as int,
                        SlotModel { refs: 0, payload: PayloadModel::Free },
                    ));
                }
                match payload {
                    Payload::SampleBuffer { data_buffer, format_description, .. } => {
                        if let Some(db) = data_buffer {
                            self.dec_ref_leaf(db);
                        }
                        if let Some(fd) = format_description {
                            self.dec_ref_leaf(fd);
                        }
                    },
                    _ => {},
                }
            } else {
                let slot = &mut self.slots[id];
                slot.refs = refs - 1;
                proof {
                    assert(self@.slots =~= old(self)@.slots.update(
                        id as int,
                        SlotModel {
                            refs: (old(self)@.refs(id as int) - 1) as nat,
                            payload: old(self)@.payload(id as int),
                        },
                    ));
                }
            }
        }
    }

    /// Release one reference of a live object. When the count reaches zero
    /// the slot is freed; a freed buffer queue also releases the references
    /// it holds on its members, in queue order, and a freed sample buffer its
    /// own references on its data block and format description.
    pub(crate) fn release_ref(&mut self, id: usize)
        requires
            old(self)@.live(id as int),
        ensures
            final(self)@ == old(self)@.release(id as int),
    {
        let refs = self.slots[id].refs;
        if refs > 1 {
            let slot = &mut self.slots[id];
            slot.refs = refs - 1;
            proof {
                assert(self@.slots =~= old(self)@.slots.update(
                    id as int,
                    SlotModel {
                        refs: (old(self)@.refs(id as int) - 1) as nat,
                        payload: old(self)@.payload(id as int),
                    },
                ));
            }
        } else {
            let mut payload = Payload::Free;
            let slot = &mut self.slots[id];
            slot.refs = 0;
            core::mem::swap(&mut payload, &mut slot.payload);
            proof {
                assert(self@.slots =~= old(self)@.slots.update(
                    id as int,
                    SlotModel { refs: 0, payload: PayloadModel::Free },
                ));
            }
            match payload {
                Payload::BufferQueue { items, .. } => {
                    let ghost freed = self@;
                    proof {
                        assert(items@.skip(0) =~= items@);
                    }
                    let mut i: usize = 0;
                    while i < items.len()
                        invariant
                            i <= items@.len(),
                            freed.dec_items(items@) == self@.dec_items(items@.skip(i as int)),
                        decreases items@.len() - i,
                    {
                        proof {
                            assert(items@.skip(i as int)[0] == items@[i as int]);
                            assert(items@.skip(i as int).drop_first() =~= items@.skip(
                                i as int + 1,
                            ));
                        }
                        self.dec_ref_member(items[i]);
                        i = i + 1;
                    }
                    proof {
                        assert(items@.skip(items@.len() as int) =~= Seq::<usize>::empty());
                    }
                },
                Payload::SampleBuffer { data_buffer, format_description, .. } => {
                    if let Some(db) = data_buffer {
                        self.dec_ref_leaf(db);
                    }
                    if let Some(fd) = format_description {
                        self.dec_ref_leaf(fd);
                    }
                },
                Payload::Timebase { source } => {
                    if source < id {
                        self.release_chain_ref(source);
                    }
                },
                _ => {},
            }
        }
    }

    /// Release one reference down a timebase source chain; see
    /// [`StoreModel::release_chain`].
    fn release_chain_ref(&mut self, id: usize)
        ensures
            final(self)@ == old(self)@.release_chain(id as int),
    {
        let mut cur = id;
        loop
            invariant
                old(self)@.release_chain(id as int) == self@.release_chain(cur as int),
            decreases cur,
        {
            let ghost pre = self@;
            if !(cur < self.slots.len() && self.slots[cur].refs >= 1) {
                return;
            }
            let refs = self.slots[cur].refs;
            if refs > 1 {
                let slot = &mut self.slots[cur];
                slot.refs = refs - 1;
                proof {
                    assert(self@.slots =~= pre.slots.update(
                        cur as int,
                        SlotModel {
                            refs: (pre.refs(cur as int) - 1) as nat,
                            payload: pre.payload(cur as int),
                        },
                    ));
                    assert(self@ == pre.release_chain(cur as int));
                }
                return;
            }
            let mut payload = Payload::Free;
            let slot = &mut self.slots[cur];
            slot.refs = 0;
            core::mem::swap(&mut payload, &mut slot.payload);
            proof {
                assert(self@.slots =~= pre.slots.update(
                    cur as int,
                    SlotModel { refs: 0, payload: PayloadModel::Free },
                ));
            }
            match payload {
                Payload::Timebase { source } => {
                    if source < cur {
                        cur = source;
                    } else {
                        return;
                    }
                },
                _ => {
                    return;
                },
            }
        }
    }
}

} // verus!
