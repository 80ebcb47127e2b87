//! Memory blocks: reference-counted byte buffers built from one or more
//! nonempty segments. Byte ranges can be copied out, replaced, or filled in
//! place; a direct view borrows the storage itself and stays valid only until
//! the next mutation of the same block, which every mutating operation
//! records by advancing the block's generation.
use vstd::prelude::*;

use crate::attachment::{CMAttachmentBearer, CMAttachmentBearerSubClass};
use crate::base::{CFTypeID, OSStatus};
use crate::store::{
    kCMBlockBufferTypeID, Payload, PayloadModel, SlotModel, Store, StoreModel,
};

verus! {

pub const kCMBlockBufferNoErr: OSStatus = 0;

pub const kCMBlockBufferStructureAllocationFailedErr: OSStatus = -12700;

pub const kCMBlockBufferBlockAllocationFailedErr: OSStatus = -12701;

pub const kCMBlockBufferBadCustomBlockSourceErr: OSStatus = -12702;

pub const kCMBlockBufferBadOffsetParameterErr: OSStatus = -12703;

pub const kCMBlockBufferBadLengthParameterErr: OSStatus = -12704;

pub const kCMBlockBufferBadPointerParameterErr: OSStatus = -12705;

pub const kCMBlockBufferEmptyBBufErr: OSStatus = -12706;

pub const kCMBlockBufferUnallocatedBlock: OSStatus = -12707;

pub const kCMBlockBufferInsufficientSpaceErr: OSStatus = -12708;

/// The total length of a block's segments.
pub open spec fn seg_sum(segs: Seq<usize>) -> int
    decreases segs.len(),
{
    if segs.len() == 0 {
        0
    } else {
        segs[0] + seg_sum(segs.drop_first())
    }
}

/// A block payload is well shaped when its segment lengths are all nonzero
/// and sum to its byte count.
pub open spec fn block_shape_ok(p: PayloadModel) -> bool {
    match p {
        PayloadModel::BlockBuffer { bytes, segs, .. } => seg_sum(segs) == bytes.len() && (forall|
            k: int,
        |
            0 <= k < segs.len() ==> segs[k] >= 1),
        _ => false,
    }
}

/// The bytes of the block in slot `id`; empty if the slot holds no block.
pub open spec fn block_bytes(s: StoreModel, id: int) -> Seq<u8> {
    match s.payload(id) {
        PayloadModel::BlockBuffer { bytes, .. } => bytes,
        _ => Seq::empty(),
    }
}

/// The segment lengths of the block in slot `id`.
pub open spec fn block_segs(s: StoreModel, id: int) -> Seq<usize> {
    match s.payload(id) {
        PayloadModel::BlockBuffer { segs, .. } => segs,
        _ => Seq::empty(),
    }
}

/// The mutation generation of the block in slot `id`.
pub open spec fn block_generation(s: StoreModel, id: int) -> u64 {
    match s.payload(id) {
        PayloadModel::BlockBuffer { generation, .. } => generation,
        _ => 0,
    }
}

/// The status of a byte-range access against a block of `total` bytes: an
/// empty block, an offset past the end, and a length overrunning the end each
/// surface their own code; zero means the range is fine.
pub open spec fn range_status(total: int, offset: int, length: int) -> OSStatus {
    if total == 0 {
        kCMBlockBufferEmptyBBufErr
    } else if offset > total {
        kCMBlockBufferBadOffsetParameterErr
    } else if offset + length > total {
        kCMBlockBufferBadLengthParameterErr
    } else {
        0
    }
}

/// The status of carving a data range out of backing storage of `block_len`
/// bytes: the offset must lie inside the storage and the range must be
/// nonempty and end inside it.
pub open spec fn carve_status(block_len: int, offset: int, length: int) -> OSStatus {
    if offset > block_len {
        kCMBlockBufferBadOffsetParameterErr
    } else if length == 0 || offset + length > block_len {
        kCMBlockBufferBadLengthParameterErr
    } else {
        0
    }
}

/// `s` with the range of `src.len()` bytes at `offset` replaced by `src`.
pub open spec fn replace_range(s: Seq<u8>, offset: int, src: Seq<u8>) -> Seq<u8> {
    s.take(offset) + src + s.skip(offset + src.len())
}

/// The segment holding byte `offset`, and the byte's position within that
/// segment.
pub open spec fn seg_locate(segs: Seq<usize>, offset: int) -> (int, int)
    decreases segs.len(),
{
    if segs.len() == 0 {
        (0, offset)
    } else if offset < segs[0] {
        (0, offset)
    } else {
        let r = seg_locate(segs.drop_first(), offset - segs[0]);
        (r.0 + 1, r.1)
    }
}

/// Whether the `length` bytes at `offset` lie within one segment.
pub open spec fn range_contiguous(segs: Seq<usize>, offset: int, length: int) -> bool {
    &&& offset + length <= seg_sum(segs)
    &&& (length == 0 || (offset < seg_sum(segs) && ({
        let (k, rem) = seg_locate(segs, offset);
        rem + length <= segs[k]
    })))
}

/// Segment sums are never negative.
pub proof fn lemma_seg_sum_nonneg(segs: Seq<usize>)
    ensures
        seg_sum(segs) >= 0,
    decreases segs.len(),
{
    if segs.len() > 0 {
        lemma_seg_sum_nonneg(segs.drop_first());
    }
}

/// Locating a byte inside a block finds a real segment position: the prefix
/// of earlier segments plus the position within the found segment is exactly
/// the byte's offset, and the found segment ends inside the block.
pub proof fn lemma_seg_locate(segs: Seq<usize>, offset: int)
    requires
        0 <= offset < seg_sum(segs),
    ensures
        ({
            let (k, rem) = seg_locate(segs, offset);
            &&& 0 <= k < segs.len()
            &&& 0 <= rem < segs[k]
            &&& seg_sum(segs.take(k)) + rem == offset
            &&& seg_sum(segs.take(k)) + segs[k] <= seg_sum(segs)
        }),
    decreases segs.len(),
{
    lemma_seg_sum_nonneg(segs);
    assert(segs.len() > 0);
    if offset < segs[0] {
        assert(segs.take(0) =~= Seq::<usize>::empty());
        lemma_seg_sum_nonneg(segs.drop_first());
    } else {
        let rest = segs.drop_first();
        lemma_seg_locate(rest, offset - segs[0]);
        let (k, rem) = seg_locate(rest, offset - segs[0]);
        assert(segs.take(k + 1).drop_first() =~= rest.take(k));
        assert(seg_sum(segs.take(k + 1)) == segs[0] + seg_sum(rest.take(k)));
    }
}

/// A borrowed view into a block's storage: a window of `len` bytes at
/// `offset`, valid only while the owning block is live and unmutated since
/// the view was obtained — any mutation advances the block's generation and
/// so invalidates the view.
pub struct BlockBufferSlice {
    pub block: usize,
    pub offset: usize,
    pub len: usize,
    pub generation: u64,
}

impl BlockBufferSlice {
    /// Whether the view may still be read: the block is live, its generation
    /// still matches the view's, and the window lies inside the bytes.
    pub open spec fn valid(&self, s: StoreModel) -> bool {
        &&& s.live(self.block as int)
        &&& match s.payload(self.block as int) {
            PayloadModel::BlockBuffer { bytes, generation, .. } => generation == self.generation
                && self.offset + self.len <= bytes.len(),
            _ => false,
        }
    }

    /// The bytes the view denotes.
    pub open spec fn spec_bytes(&self, s: StoreModel) -> Seq<u8> {
        block_bytes(s, self.block as int).subrange(
            self.offset as int,
            self.offset + self.len,
        )
    }

    /// Read the viewed bytes out of the block's storage.
    pub fn read(&self, store: &Store) -> (r: Vec<u8>)
        requires
            self.valid(store@),
        ensures
            r@ == self.spec_bytes(store@),
    {
        match store.payload_at(self.block) {
            Payload::BlockBuffer { bytes, .. } => copy_range(bytes, self.offset, self.len),
            _ => {
                proof {
                    assert(false);
                }
                Vec::new()
            },
        }
    }
}

/// The result of a staged byte-range access: either a direct view into the
/// block's own storage, or the bytes copied out into fresh storage. Callers
/// must not assume which was returned, and must treat the returned region —
/// not the storage they supplied or the block itself — as the authoritative
/// bytes.
pub enum AccessedRegion {
    Direct(BlockBufferSlice),
    Copied(Vec<u8>),
}

impl AccessedRegion {
    /// Whether the region may still be read.
    pub open spec fn valid(&self, s: StoreModel) -> bool {
        match self {
            AccessedRegion::Direct(v) => v.valid(s),
            AccessedRegion::Copied(_) => true,
        }
    }

    /// The bytes the region denotes.
    pub open spec fn spec_bytes(&self, s: StoreModel) -> Seq<u8> {
        match self {
            AccessedRegion::Direct(v) => v.spec_bytes(s),
            AccessedRegion::Copied(b) => b@,
        }
    }

    /// Read the region's bytes, whichever way they are held.
    pub fn bytes(&self, store: &Store) -> (r: Vec<u8>)
        requires
            self.valid(store@),
        ensures
            r@ == self.spec_bytes(store@),
    {
        match self {
            AccessedRegion::Direct(v) => v.read(store),
            AccessedRegion::Copied(b) => copy_range(b, 0, b.len()),
        }
    }
}

/// Copy `len` bytes starting at `offset` out of `src`.
#[verifier::loop_isolation(false)]
fn copy_range(src: &Vec<u8>, offset: usize, len: usize) -> (r: Vec<u8>)
    requires
        offset + len <= src@.len(),
    ensures
        r@ == src@.subrange(offset as int, offset + len),
{
    let n = src.len();
    let mut out: Vec<u8> = Vec::new();
    let mut i: usize = 0;
    while i < len
        invariant
            i <= len,
            n == src@.len(),
            offset + len <= n,
            out@ == src@.subrange(offset as int, offset + i),
        decreases len - i,
    {
        out.push(src[offset + i]);
        proof {
            assert(out@ =~= src@.subrange(offset as int, offset + i + 1));
        }
        i = i + 1;
    }
    proof {
        assert(out@ =~= src@.subrange(offset as int, offset + len));
    }
    out
}

/// A handle to one memory block object.
pub struct CMBlockBuffer {
    pub id: usize,
}

impl CMAttachmentBearerSubClass for CMBlockBuffer {
    open spec fn bearer_id(&self) -> int {
        self.id as int
    }

    open spec fn subtype_tag() -> CFTypeID {
        kCMBlockBufferTypeID
    }

    fn type_id() -> CFTypeID {
        kCMBlockBufferTypeID
    }

    fn as_CMAttachmentBearer(&self, store: &mut Store) -> CMAttachmentBearer {
        CMAttachmentBearer::wrap_under_get_rule(store, self.id)
    }

    fn into_CMAttachmentBearer(self) -> CMAttachmentBearer {
        CMAttachmentBearer { id: self.id }
    }
}

impl CMBlockBuffer {
    /// Well-formed against a store: live, and holding a well-shaped block.
    pub open spec fn wf(&self, s: StoreModel) -> bool {
        s.live(self.id as int) && block_shape_ok(s.payload(self.id as int))
    }

    /// Construct an empty block under the create rule. Fails only with a
    /// forced status, which it surfaces verbatim.
    pub fn new_empty(store: &mut Store) -> (r: Result<CMBlockBuffer, OSStatus>)
        requires
            old(store)@.slots.len() < usize::MAX,
        ensures
            match r {
                Ok(b) => old(store)@.forced_status == 0 && b.id == old(store)@.slots.len()
                    && final(store)@ == old(store)@.allocate(
                    PayloadModel::BlockBuffer {
                        bytes: Seq::empty(),
                        segs: Seq::empty(),
                        generation: 0,
                    },
                ) && b.wf(final(store)@),
                Err(e) => e == old(store)@.forced_status && e != 0 && final(store)@.slots == old(
                    store,
                )@.slots && final(store)@.forced_status == 0,
            },
    {
        let forced = store.take_forced();
        if forced != 0 {
            return Err(forced);
        }
        let id = store.allocate(
            Payload::BlockBuffer { bytes: Vec::new(), segs: Vec::new(), generation: 0 },
        );
        Ok(CMBlockBuffer { id })
    }

    /// Construct a block under the create rule holding a copy of the
    /// `data_length` bytes at `offset_to_data` within `memory_block`. The
    /// range must be nonempty and lie inside `memory_block`; a bad offset and
    /// a bad length surface distinct codes, and a forced status is surfaced
    /// verbatim before anything else is checked.
    pub fn new_with_memory_block(
        store: &mut Store,
        memory_block: &Vec<u8>,
        offset_to_data: usize,
        data_length: usize,
    ) -> (r: Result<CMBlockBuffer, OSStatus>)
        requires
            old(store)@.slots.len() < usize::MAX,
        ensures
            match r {
                Ok(b) => old(store)@.forced_status == 0 && carve_status(
                    memory_block@.len() as int,
                    offset_to_data as int,
                    data_length as int,
                ) == 0 && b.id == old(store)@.slots.len() && final(store)@ == old(
                    store,
                )@.allocate(
                    PayloadModel::BlockBuffer {
                        bytes: memory_block@.subrange(
                            offset_to_data as int,
                            offset_to_data + data_length,
                        ),
                        segs: seq![data_length],
                        generation: 0,
                    },
                ) && b.wf(final(store)@),
                Err(e) => ({
                    &&& (old(store)@.forced_status != 0 ==> e == old(store)@.forced_status)
                    &&& (old(store)@.forced_status == 0 ==> e != 0 && e == carve_status(
                        memory_block@.len() as int,
                        offset_to_data as int,
                        data_length as int,
                    ))
                    &&& final(store)@.slots == old(store)@.slots
                    &&& final(store)@.forced_status == 0
                }),
            },
    {
        let forced = store.take_forced();
        if forced != 0 {
            return Err(forced);
        }
        if offset_to_data > memory_block.len() {
            return Err(kCMBlockBufferBadOffsetParameterErr);
        }
        if data_length == 0 || data_length > memory_block.len() - offset_to_data {
            return Err(kCMBlockBufferBadLengthParameterErr);
        }
        let bytes = copy_range(memory_block, offset_to_data, data_length);
        let mut segs: Vec<usize> = Vec::new();
        segs.push(data_length);
        let ghost seg_model = segs@;
        let id = store.allocate(Payload::BlockBuffer { bytes, segs, generation: 0 });
        proof {
            assert(seg_model =~= seq![data_length]);
            assert(seg_model.drop_first() =~= Seq::<usize>::empty());
            assert(seg_sum(Seq::<usize>::empty()) == 0);
            assert(seg_sum(seg_model) == data_length);
        }
        Ok(CMBlockBuffer { id })
    }

    /// Construct a block under the create rule holding a contiguous copy of
    /// part of this block: the `data_length` bytes at `offset_to_data`, or
    /// everything from `offset_to_data` to the end when `data_length` is
    /// zero. The new block has at most one segment, so the copied range is
    /// contiguous in it.
    pub fn new_contiguous(
        &self,
        store: &mut Store,
        offset_to_data: usize,
        data_length: usize,
    ) -> (r: Result<CMBlockBuffer, OSStatus>)
        requires
            old(store)@.slots.len() < usize::MAX,
            self.wf(old(store)@),
        ensures
            match r {
                Ok(b) => ({
                    let total = block_bytes(old(store)@, self.id as int).len() as int;
                    let len = if data_length == 0 {
                        total - offset_to_data
                    } else {
                        data_length as int
                    };
                    &&& old(store)@.forced_status == 0
                    &&& offset_to_data + len <= total
                    &&& b.id == old(store)@.slots.len()
                    &&& final(store)@ == old(store)@.allocate(
                        PayloadModel::BlockBuffer {
                            bytes: block_bytes(old(store)@, self.id as int).subrange(
                                offset_to_data as int,
                                offset_to_data + len,
                            ),
                            segs: if len == 0 {
                                Seq::empty()
                            } else {
                                seq![len as usize]
                            },
                            generation: 0,
                        },
                    )
                    &&& b.wf(final(store)@)
                }),
                Err(e) => ({
                    let total = block_bytes(old(store)@, self.id as int).len() as int;
                    &&& (old(store)@.forced_status != 0 ==> e == old(store)@.forced_status)
                    &&& (old(store)@.forced_status == 0 ==> e != 0 && e == (
                        if offset_to_data > total {
                            kCMBlockBufferBadOffsetParameterErr
                        } else if offset_to_data + data_length > total {
                            kCMBlockBufferBadLengthParameterErr
                        } else {
                            0
                        }))
                    &&& final(store)@.slots == old(store)@.slots
                    &&& final(store)@.forced_status == 0
                }),
            },
    {
        let forced = store.take_forced();
        if forced != 0 {
            return Err(forced);
        }
        let total = self.get_data_length(store);
        if offset_to_data > total {
            return Err(kCMBlockBufferBadOffsetParameterErr);
        }
        if data_length > total - offset_to_data {
            return Err(kCMBlockBufferBadLengthParameterErr);
        }
        let len = if data_length == 0 {
            total - offset_to_data
        } else {
            data_length
        };
        let bytes = match store.payload_at(self.id) {
            Payload::BlockBuffer { bytes, .. } => copy_range(bytes, offset_to_data, len),
            _ => {
                proof {
                    assert(false);
                }
                Vec::new()
            },
        };
        let mut segs: Vec<usize> = Vec::new();
        if len > 0 {
            segs.push(len);
        }
        let ghost seg_model = segs@;
        let id = store.allocate(Payload::BlockBuffer { bytes, segs, generation: 0 });
        proof {
            assert(seg_sum(Seq::<usize>::empty()) == 0);
            if len > 0 {
                assert(seg_model =~= seq![len]);
                assert(seg_model.drop_first() =~= Seq::<usize>::empty());
                assert(seg_sum(seg_model) == len);
            } else {
                assert(seg_model =~= Seq::<usize>::empty());
            }
        }
        Ok(CMBlockBuffer { id })
    }

    /// Append a copy of the `data_length` bytes at `offset_to_data` within
    /// `memory_block` as one further segment of this block. Appending
    /// advances the generation, invalidating outstanding direct views.
    pub fn append_memory_block(
        &self,
        store: &mut Store,
        memory_block: &Vec<u8>,
        offset_to_data: usize,
        data_length: usize,
    ) -> (r: Result<(), OSStatus>)
        requires
            self.wf(old(store)@),
            block_generation(old(store)@, self.id as int) < u64::MAX,
            block_bytes(old(store)@, self.id as int).len() + data_length <= usize::MAX,
        ensures
            match r {
                Ok(()) => carve_status(
                    memory_block@.len() as int,
                    offset_to_data as int,
                    data_length as int,
                ) == 0 && final(store)@ == old(store)@.with_slot(
                    self.id as int,
                    SlotModel {
                        refs: old(store)@.refs(self.id as int),
                        payload: PayloadModel::BlockBuffer {
                            bytes: block_bytes(old(store)@, self.id as int)
                                + memory_block@.subrange(
                                offset_to_data as int,
                                offset_to_data + data_length,
                            ),
                            segs: block_segs(old(store)@, self.id as int).push(data_length),
                            generation: (block_generation(old(store)@, self.id as int) + 1) as u64,
                        },
                    },
                ) && self.wf(final(store)@),
                Err(e) => e != 0 && e == carve_status(
                    memory_block@.len() as int,
                    offset_to_data as int,
                    data_length as int,
                ) && final(store)@ == old(store)@,
            },
    {
        if offset_to_data > memory_block.len() {
            return Err(kCMBlockBufferBadOffsetParameterErr);
        }
        if data_length == 0 || data_length > memory_block.len() - offset_to_data {
            return Err(kCMBlockBufferBadLengthParameterErr);
        }
        let mut fresh = copy_range(memory_block, offset_to_data, data_length);
        let payload = store.take_payload(self.id);
        match payload {
            Payload::BlockBuffer { mut bytes, mut segs, generation } => {
                bytes.append(&mut fresh);
                segs.push(data_length);
                let ghost new_segs = segs@;
                store.put_payload(
                    self.id,
                    Payload::BlockBuffer { bytes, segs, generation: generation + 1 },
                );
                proof {
                    lemma_seg_sum_push(
                        block_segs(old(store)@, self.id as int),
                        data_length,
                    );
                    assert(store@.slots =~= old(store)@.slots.update(
                        self.id as int,
                        SlotModel {
                            refs: old(store)@.refs(self.id as int),
                            payload: store@.payload(self.id as int),
                        },
                    ));
                }
                Ok(())
            },
            p => {
                proof {
                    assert(false);
                }
                store.put_payload(self.id, p);
                Err(kCMBlockBufferBadPointerParameterErr)
            },
        }
    }

    /// The total number of data bytes the block holds.
    pub fn get_data_length(&self, store: &Store) -> (r: usize)
        requires
            self.wf(store@),
        ensures
            r == block_bytes(store@, self.id as int).len(),
    {
        match store.payload_at(self.id) {
            Payload::BlockBuffer { bytes, .. } => bytes.len(),
            _ => {
                proof {
                    assert(false);
                }
                0
            },
        }
    }

    /// Whether the block holds no segments (and therefore no bytes).
    pub fn is_empty(&self, store: &Store) -> (r: bool)
        requires
            self.wf(store@),
        ensures
            r == (block_segs(store@, self.id as int).len() == 0),
            r == (block_bytes(store@, self.id as int).len() == 0),
    {
        proof {
            let segs = block_segs(store@, self.id as int);
            if segs.len() > 0 {
                lemma_seg_sum_nonneg(segs.drop_first());
            }
        }
        match store.payload_at(self.id) {
            Payload::BlockBuffer { segs, .. } => segs.len() == 0,
            _ => {
                proof {
                    assert(false);
                }
                true
            },
        }
    }

    /// Whether the `length` bytes at `offset` lie within one segment of the
    /// block's storage.
    pub fn is_range_contiguous(&self, store: &Store, offset: usize, length: usize) -> (r: bool)
        requires
            self.wf(store@),
        ensures
            r == range_contiguous(block_segs(store@, self.id as int), offset as int, length as int),
    {
        let total = self.get_data_length(store);
        if offset > total || length > total - offset {
            return false;
        }
        if length == 0 {
            return true;
        }
        match store.payload_at(self.id) {
            Payload::BlockBuffer { segs, .. } => {
                let (k, rem) = locate_segment(segs, offset);
                proof {
                    lemma_seg_locate(segs@, offset as int);
                }
                length <= segs[k] - rem
            },
            _ => {
                proof {
                    assert(false);
                }
                false
            },
        }
    }

    /// Copy the bytes at `offset_to_data` into the caller's `destination`,
    /// whose length is the length of the copy. On failure — an empty block, a
    /// bad offset, or a bad length, each with its own code — the destination
    /// is untouched: no partial read is delivered.
    #[verifier::loop_isolation(false)]
    pub fn copy_data_bytes(
        &self,
        store: &Store,
        offset_to_data: usize,
        destination: &mut Vec<u8>,
    ) -> (r: Result<(), OSStatus>)
        requires
            self.wf(store@),
        ensures
            match r {
                Ok(()) => range_status(
                    block_bytes(store@, self.id as int).len() as int,
                    offset_to_data as int,
                    old(destination)@.len() as int,
                ) == 0 && final(destination)@ == block_bytes(store@, self.id as int).subrange(
                    offset_to_data as int,
                    offset_to_data + old(destination)@.len(),
                ),
                Err(e) => e != 0 && e == range_status(
                    block_bytes(store@, self.id as int).len() as int,
                    offset_to_data as int,
                    old(destination)@.len() as int,
                ) && final(destination)@ == old(destination)@,
            },
    {
        let total = self.get_data_length(store);
        if total == 0 {
            return Err(kCMBlockBufferEmptyBBufErr);
        }
        if offset_to_data > total {
            return Err(kCMBlockBufferBadOffsetParameterErr);
        }
        if destination.len() > total - offset_to_data {
            return Err(kCMBlockBufferBadLengthParameterErr);
        }
        match store.payload_at(self.id) {
            Payload::BlockBuffer { bytes, .. } => {
                let len = destination.len();
                let mut i: usize = 0;
                while i < len
                    invariant
                        i <= len,
                        len == destination@.len(),
                        offset_to_data + len <= bytes@.len(),
                        forall|j: int| 0 <= j < i ==> destination@[j] == bytes@[offset_to_data + j],
                        forall|j: int|
                            i <= j < len ==> destination@[j] == old(destination)@[j],
                    decreases len - i,
                {
                    let b = bytes[offset_to_data + i];
                    destination[i] = b;
                    i = i + 1;
                }
                proof {
                    assert(destination@ =~= bytes@.subrange(
                        offset_to_data as int,
                        offset_to_data + len,
                    ));
                }
                Ok(())
            },
            _ => {
                proof {
                    assert(false);
                }
                Err(kCMBlockBufferBadPointerParameterErr)
            },
        }
    }

    /// Overwrite the bytes at `offset_into_destination` with `source_bytes`.
    /// The segment structure is unchanged; the generation advances, so
    /// outstanding direct views become invalid. On failure nothing changes.
    #[verifier::loop_isolation(false)]
    pub fn replace_data_bytes(
        &self,
        store: &mut Store,
        source_bytes: &Vec<u8>,
        offset_into_destination: usize,
    ) -> (r: Result<(), OSStatus>)
        requires
            self.wf(old(store)@),
            block_generation(old(store)@, self.id as int) < u64::MAX,
        ensures
            match r {
                Ok(()) => range_status(
                    block_bytes(old(store)@, self.id as int).len() as int,
                    offset_into_destination as int,
                    source_bytes@.len() as int,
                ) == 0 && final(store)@ == old(store)@.with_slot(
                    self.id as int,
                    SlotModel {
                        refs: old(store)@.refs(self.id as int),
                        payload: PayloadModel::BlockBuffer {
                            bytes: replace_range(
                                block_bytes(old(store)@, self.id as int),
                                offset_into_destination as int,
                                source_bytes@,
                            ),
                            segs: block_segs(old(store)@, self.id as int),
                            generation: (block_generation(old(store)@, self.id as int) + 1) as u64,
                        },
                    },
                ) && self.wf(final(store)@),
                Err(e) => e != 0 && e == range_status(
                    block_bytes(old(store)@, self.id as int).len() as int,
                    offset_into_destination as int,
                    source_bytes@.len() as int,
                ) && final(store)@ == old(store)@,
            },
    {
        let total = self.get_data_length(store);
        if total == 0 {
            return Err(kCMBlockBufferEmptyBBufErr);
        }
        if offset_into_destination > total {
            return Err(kCMBlockBufferBadOffsetParameterErr);
        }
        if source_bytes.len() > total - offset_into_destination {
            return Err(kCMBlockBufferBadLengthParameterErr);
        }
        let payload = store.take_payload(self.id);
        match payload {
            Payload::BlockBuffer { mut bytes, segs, generation } => {
                let len = source_bytes.len();
                let ghost bytes0 = bytes@;
                let mut i: usize = 0;
                while i < len
                    invariant
                        i <= len,
                        bytes@.len() == bytes0.len(),
                        offset_into_destination + len <= bytes0.len(),
                        forall|j: int|
                            0 <= j < i ==> bytes@[offset_into_destination + j] == source_bytes@[j],
                        forall|j: int|
                            0 <= j < bytes0.len() && !(offset_into_destination <= j
                                < offset_into_destination + i) ==> bytes@[j] == bytes0[j],
                    decreases len - i,
                {
                    let b = source_bytes[i];
                    bytes[offset_into_destination + i] = b;
                    i = i + 1;
                }
                proof {
                    assert(bytes@ =~= replace_range(
                        bytes0,
                        offset_into_destination as int,
                        source_bytes@,
                    ));
                }
                store.put_payload(
                    self.id,
                    Payload::BlockBuffer { bytes, segs, generation: generation + 1 },
                );
                proof {
                    assert(store@.slots =~= old(store)@.slots.update(
                        self.id as int,
                        SlotModel {
                            refs: old(store)@.refs(self.id as int),
                            payload: store@.payload(self.id as int),
                        },
                    ));
                }
                Ok(())
            },
            p => {
                proof {
                    assert(false);
                }
                store.put_payload(self.id, p);
                Err(kCMBlockBufferBadPointerParameterErr)
            },
        }
    }

    /// Fill the `data_length` bytes at `offset_into_destination` with
    /// `fill_byte`. The generation advances, invalidating outstanding direct
    /// views. On failure nothing changes.
    #[verifier::loop_isolation(false)]
    pub fn fill_data_bytes(
        &self,
        store: &mut Store,
        fill_byte: u8,
        offset_into_destination: usize,
        data_length: usize,
    ) -> (r: Result<(), OSStatus>)
        requires
            self.wf(old(store)@),
            block_generation(old(store)@, self.id as int) < u64::MAX,
        ensures
            match r {
                Ok(()) => range_status(
                    block_bytes(old(store)@, self.id as int).len() as int,
                    offset_into_destination as int,
                    data_length as int,
                ) == 0 && final(store)@ == old(store)@.with_slot(
                    self.id as int,
                    SlotModel {
                        refs: old(store)@.refs(self.id as int),
                        payload: PayloadModel::BlockBuffer {
                            bytes: replace_range(
                                block_bytes(old(store)@, self.id as int),
                                offset_into_destination as int,
                                Seq::new(data_length as nat, |i: int| fill_byte),
                            ),
                            segs: block_segs(old(store)@, self.id as int),
                            generation: (block_generation(old(store)@, self.id as int) + 1) as u64,
                        },
                    },
                ) && self.wf(final(store)@),
                Err(e) => e != 0 && e == range_status(
                    block_bytes(old(store)@, self.id as int).len() as int,
                    offset_into_destination as int,
                    data_length as int,
                ) && final(store)@ == old(store)@,
            },
    {
        let total = self.get_data_length(store);
        if total == 0 {
            return Err(kCMBlockBufferEmptyBBufErr);
        }
        if offset_into_destination > total {
            return Err(kCMBlockBufferBadOffsetParameterErr);
        }
        if data_length > total - offset_into_destination {
            return Err(kCMBlockBufferBadLengthParameterErr);
        }
        let payload = store.take_payload(self.id);
        match payload {
            Payload::BlockBuffer { mut bytes, segs, generation } => {
                let ghost bytes0 = bytes@;
                let mut i: usize = 0;
                while i < data_length
                    invariant
                        i <= data_length,
                        bytes@.len() == bytes0.len(),
                        offset_into_destination + data_length <= bytes0.len(),
                        forall|j: int|
                            offset_into_destination <= j < offset_into_destination + i
                                ==> bytes@[j] == fill_byte,
                        forall|j: int|
                            0 <= j < bytes0.len() && !(offset_into_destination <= j
                                < offset_into_destination + i) ==> bytes@[j] == bytes0[j],
                    decreases data_length - i,
                {
                    bytes[offset_into_destination + i] = fill_byte;
                    i = i + 1;
                }
                proof {
                    assert(bytes@ =~= replace_range(
                        bytes0,
                        offset_into_destination as int,
                        Seq::new(data_length as nat, |i: int| fill_byte),
                    ));
                }
                store.put_payload(
                    self.id,
                    Payload::BlockBuffer { bytes, segs, generation: generation + 1 },
                );
                proof {
                    assert(store@.slots =~= old(store)@.slots.update(
                        self.id as int,
                        SlotModel {
                            refs: old(store)@.refs(self.id as int),
                            payload: store@.payload(self.id as int),
                        },
                    ));
                }
                Ok(())
            },
            p => {
                proof {
                    assert(false);
                }
                store.put_payload(self.id, p);
                Err(kCMBlockBufferBadPointerParameterErr)
            },
        }
    }

    /// Obtain a direct view into the block's storage at `offset`: the view
    /// spans the rest of the segment holding that byte, and is valid until
    /// the next mutation of this block. An empty block and an offset past the
    /// end fail with distinct codes.
    pub fn get_data(&self, store: &Store, offset: usize) -> (r: Result<BlockBufferSlice, OSStatus>)
        requires
            self.wf(store@),
        ensures
            match r {
                Ok(v) => ({
                    let segs = block_segs(store@, self.id as int);
                    let loc = seg_locate(segs, offset as int);
                    &&& (offset as int) < block_bytes(store@, self.id as int).len()
                    &&& v.block == self.id
                    &&& v.offset == offset
                    &&& v.generation == block_generation(store@, self.id as int)
                    &&& v.len == segs[loc.0] - loc.1
                    &&& v.valid(store@)
                }),
                Err(e) => ({
                    let total = block_bytes(store@, self.id as int).len() as int;
                    &&& e != 0
                    &&& e == if total == 0 {
                        kCMBlockBufferEmptyBBufErr
                    } else if offset >= total {
                        kCMBlockBufferBadOffsetParameterErr
                    } else {
                        0
                    }
                }),
            },
    {
        let total = self.get_data_length(store);
        if total == 0 {
            return Err(kCMBlockBufferEmptyBBufErr);
        }
        if offset >= total {
            return Err(kCMBlockBufferBadOffsetParameterErr);
        }
        match store.payload_at(self.id) {
            Payload::BlockBuffer { segs, generation, .. } => {
                let (k, rem) = locate_segment(segs, offset);
                proof {
                    lemma_seg_locate(segs@, offset as int);
                    lemma_seg_sum_take_bound(segs@, seg_locate(segs@, offset as int).0);
                }
                Ok(
                    BlockBufferSlice {
                        block: self.id,
                        offset,
                        len: segs[k] - rem,
                        generation: *generation,
                    },
                )
            },
            _ => {
                proof {
                    assert(false);
                }
                Err(kCMBlockBufferBadPointerParameterErr)
            },
        }
    }

    /// Access the `length` bytes at `offset` as one region: a direct view
    /// into the block's storage when the range is contiguous there, and a
    /// copy into fresh storage otherwise. Either way the region's bytes are
    /// the requested range; callers must not assume which form came back.
    pub fn access_data_bytes(&self, store: &Store, offset: usize, length: usize) -> (r: Result<
        AccessedRegion,
        OSStatus,
    >)
        requires
            self.wf(store@),
        ensures
            match r {
                Ok(region) => range_status(
                    block_bytes(store@, self.id as int).len() as int,
                    offset as int,
                    length as int,
                ) == 0 && region.valid(store@) && region.spec_bytes(store@) == block_bytes(
                    store@,
                    self.id as int,
                ).subrange(offset as int, offset + length),
                Err(e) => e != 0 && e == range_status(
                    block_bytes(store@, self.id as int).len() as int,
                    offset as int,
                    length as int,
                ),
            },
    {
        let total = self.get_data_length(store);
        if total == 0 {
            return Err(kCMBlockBufferEmptyBBufErr);
        }
        if offset > total {
            return Err(kCMBlockBufferBadOffsetParameterErr);
        }
        if length > total - offset {
            return Err(kCMBlockBufferBadLengthParameterErr);
        }
        if self.is_range_contiguous(store, offset, length) {
            match store.payload_at(self.id) {
                Payload::BlockBuffer { generation, .. } => {
                    let v = BlockBufferSlice {
                        block: self.id,
                        offset,
                        len: length,
                        generation: *generation,
                    };
                    Ok(AccessedRegion::Direct(v))
                },
                _ => {
                    proof {
                        assert(false);
                    }
                    Err(kCMBlockBufferBadPointerParameterErr)
                },
            }
        } else {
            match store.payload_at(self.id) {
                Payload::BlockBuffer { bytes, .. } => {
                    Ok(AccessedRegion::Copied(copy_range(bytes, offset, length)))
                },
                _ => {
                    proof {
                        assert(false);
                    }
                    Err(kCMBlockBufferBadPointerParameterErr)
                },
            }
        }
    }

    /// Release the handle's one reference; the block is freed when this was
    /// the last reference.
    pub fn release(self, store: &mut Store)
        requires
            old(store)@.live(self.id as int),
        ensures
            final(store)@ == old(store)@.release(self.id as int),
    {
        store.release_ref(self.id);
    }
}

/// Find the segment holding byte `offset` and the byte's position in it.
#[verifier::loop_isolation(false)]
fn locate_segment(segs: &Vec<usize>, offset: usize) -> (r: (usize, usize))
    requires
        0 <= (offset as int) < seg_sum(segs@),
        seg_sum(segs@) <= usize::MAX,
    ensures
        r.0 as int == seg_locate(segs@, offset as int).0,
        r.1 as int == seg_locate(segs@, offset as int).1,
        r.0 < segs@.len(),
        r.1 < segs@[r.0 as int],
{
    proof {
        lemma_seg_locate(segs@, offset as int);
    }
    let n = segs.len();
    let mut k: usize = 0;
    let mut rem: usize = offset;
    proof {
        assert(segs@.skip(0) =~= segs@);
    }
    loop
        invariant
            n == segs@.len(),
            k <= segs@.len(),
            0 <= (rem as int) < seg_sum(segs@.skip(k as int)),
            seg_locate(segs@, offset as int).0 == k + seg_locate(
                segs@.skip(k as int),
                rem as int,
            ).0,
            seg_locate(segs@, offset as int).1 == seg_locate(segs@.skip(k as int), rem as int).1,
        decreases segs@.len() - k,
    {
        proof {
            if k as int == segs@.len() {
                assert(segs@.skip(k as int) =~= Seq::<usize>::empty());
                assert(false);
            }
            assert(segs@.skip(k as int)[0] == segs@[k as int]);
        }
        if rem < segs[k] {
            proof {
                lemma_seg_locate(segs@, offset as int);
            }
            return (k, rem);
        }
        proof {
            assert(segs@.skip(k as int).drop_first() =~= segs@.skip(k as int + 1));
        }
        rem = rem - segs[k];
        k = k + 1;
    }
}

/// Appending a segment adds its length to the total.
pub proof fn lemma_seg_sum_push(segs: Seq<usize>, x: usize)
    ensures
        seg_sum(segs.push(x)) == seg_sum(segs) + x,
    decreases segs.len(),
{
    if segs.len() == 0 {
        assert(segs.push(x).drop_first() =~= Seq::<usize>::empty());
        assert(seg_sum(Seq::<usize>::empty()) == 0);
        assert(segs.push(x)[0] == x);
    } else {
        assert(segs.push(x)[0] == segs[0]);
        assert(segs.push(x).drop_first() =~= segs.drop_first().push(x));
        lemma_seg_sum_push(segs.drop_first(), x);
    }
}

/// A prefix of segments never sums to more than the whole.
pub proof fn lemma_seg_sum_take_bound(segs: Seq<usize>, k: int)
    requires
        0 <= k <= segs.len(),
    ensures
        seg_sum(segs.take(k)) >= 0,
        seg_sum(segs.take(k)) + seg_sum(segs.skip(k)) == seg_sum(segs),
    decreases k,
{
    lemma_seg_sum_nonneg(segs.take(k));
    if k == 0 {
        assert(segs.take(0) =~= Seq::<usize>::empty());
        assert(segs.skip(0) =~= segs);
    } else {
        assert(segs.take(k).drop_first() =~= segs.drop_first().take(k - 1));
        assert(segs.skip(k) =~= segs.drop_first().skip(k - 1));
        lemma_seg_sum_take_bound(segs.drop_first(), k - 1);
    }
}

/// Writing a range and immediately re-reading it through a fresh view yields
/// exactly the written bytes: after `src` is written at `offset`, the block's
/// bytes restricted to that range are `src`, and the block's length is
/// unchanged.
pub proof fn lemma_write_then_read_back(bytes: Seq<u8>, offset: int, src: Seq<u8>)
    requires
        0 <= offset,
        offset + src.len() <= bytes.len(),
    ensures
        replace_range(bytes, offset, src).subrange(offset, offset + src.len()) == src,
        replace_range(bytes, offset, src).len() == bytes.len(),
{
    assert(replace_range(bytes, offset, src).subrange(offset, offset + src.len()) =~= src);
}

/// Every mutation of a block invalidates the direct views obtained before
/// it: a view is valid only for the generation at which it was obtained, and
/// mutation moves the block to a different generation.
pub proof fn lemma_mutation_invalidates_view(
    v: BlockBufferSlice,
    before: StoreModel,
    after: StoreModel,
)
    requires
        v.valid(before),
        block_generation(after, v.block as int) != block_generation(before, v.block as int),
        after.payload(v.block as int) is BlockBuffer,
    ensures
        !v.valid(after),
{
}

} // verus!
