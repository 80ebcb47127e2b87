//! Clocks and timebases. A clock is a reference-counted leaf object; a
//! timebase is derived from a source — a clock or another timebase — and
//! holds its own retained reference on that source, so a chain of timebases
//! keeps its root clock alive and releases it link by link as the chain is
//! freed. Rate and time arithmetic stay with the platform framework; this
//! layer carries the ownership and derivation structure.
use vstd::prelude::*;

use crate::attachment::{CMAttachmentBearer, CMAttachmentBearerSubClass};
use crate::base::{CFTypeID, OSStatus};
use crate::store::{
    kCMClockTypeID, kCMTimebaseTypeID, Payload, PayloadModel, SlotModel, Store, StoreModel,
};

verus! {

pub const kCMClockError_MissingRequiredParameter: OSStatus = -12745;

pub const kCMClockError_InvalidParameter: OSStatus = -12746;

pub const kCMClockError_AllocationFailed: OSStatus = -12747;

pub const kCMClockError_UnsupportedOperation: OSStatus = -12756;

pub const kCMTimebaseError_MissingRequiredParameter: OSStatus = -12748;

pub const kCMTimebaseError_InvalidParameter: OSStatus = -12749;

pub const kCMTimebaseError_AllocationFailed: OSStatus = -12750;

pub const kCMTimebaseError_TimerIntervalTooShort: OSStatus = -12751;

pub const kCMTimebaseError_ReadOnly: OSStatus = -12757;

pub const kCMSyncError_MissingRequiredParameter: OSStatus = -12752;

pub const kCMSyncError_InvalidParameter: OSStatus = -12753;

pub const kCMSyncError_AllocationFailed: OSStatus = -12754;

pub const kCMSyncError_RateMustBeNonZero: OSStatus = -12755;

/// Whether the clock in slot `id` has been invalidated.
pub open spec fn clock_invalidated(s: StoreModel, id: int) -> bool {
    match s.payload(id) {
        PayloadModel::Clock { invalidated } => invalidated,
        _ => false,
    }
}

/// The source of the timebase in slot `id`.
pub open spec fn tb_source(s: StoreModel, id: int) -> usize {
    match s.payload(id) {
        PayloadModel::Timebase { source } => source,
        _ => 0,
    }
}

/// A well-founded derivation chain: slot `id` is live and holds a clock, or a
/// timebase whose source is an earlier slot with a well-founded chain of its
/// own. Every object built through this layer's constructors satisfies this,
/// since a timebase's source always exists before the timebase.
pub open spec fn source_chain_ok(s: StoreModel, id: int) -> bool
    decreases id,
{
    s.live(id) && match s.payload(id) {
        PayloadModel::Clock { .. } => true,
        PayloadModel::Timebase { source } => 0 <= source < id && source_chain_ok(s, source as int),
        _ => false,
    }
}

/// The root clock a derivation chain bottoms out in.
pub open spec fn spec_ultimate_clock(s: StoreModel, id: int) -> int
    decreases id,
{
    match s.payload(id) {
        PayloadModel::Timebase { source } => if 0 <= source < id {
            spec_ultimate_clock(s, source as int)
        } else {
            id
        },
        _ => id,
    }
}

/// A well-founded chain survives any store change that preserves the chain
/// slots' payloads and liveness — taking references, and allocating fresh
/// slots beyond them, in particular.
pub proof fn lemma_source_chain_ok_monotone(s1: StoreModel, s2: StoreModel, id: int)
    requires
        source_chain_ok(s1, id),
        forall|j: int|
            0 <= j < s1.slots.len() ==> s2.slots[j].payload == s1.slots[j].payload && (
            s1.slots[j].refs >= 1 ==> s2.slots[j].refs >= 1),
        s1.slots.len() <= s2.slots.len(),
    ensures
        source_chain_ok(s2, id),
    decreases id,
{
    match s1.payload(id) {
        PayloadModel::Timebase { source } => {
            lemma_source_chain_ok_monotone(s1, s2, source as int);
        },
        _ => {},
    }
}

/// A handle to one clock object.
pub struct CMClock {
    pub id: usize,
}

impl CMAttachmentBearerSubClass for CMClock {
    open spec fn bearer_id(&self) -> int {
        self.id as int
    }

    open spec fn subtype_tag() -> CFTypeID {
        kCMClockTypeID
    }

    fn type_id() -> CFTypeID {
        kCMClockTypeID
    }

    fn as_CMAttachmentBearer(&self, store: &mut Store) -> CMAttachmentBearer {
        CMAttachmentBearer::wrap_under_get_rule(store, self.id)
    }

    fn into_CMAttachmentBearer(self) -> CMAttachmentBearer {
        CMAttachmentBearer { id: self.id }
    }
}

impl CMClock {
    /// Well-formed against a store: live and holding a clock.
    pub open spec fn wf(&self, s: StoreModel) -> bool {
        s.live(self.id as int) && s.payload(self.id as int) is Clock
    }

    /// Construct a clock under the create rule, backed by an audio device's
    /// timing. Fails only with a forced status, surfaced verbatim.
    pub fn new_audio_clock(store: &mut Store) -> (r: Result<CMClock, OSStatus>)
        requires
            old(store)@.slots.len() < usize::MAX,
        ensures
            match r {
                Ok(c) => old(store)@.forced_status == 0 && c.id == old(store)@.slots.len() && final(store)@ == old(store)@.allocate(PayloadModel::Clock { invalidated: false }) && c.wf(
                    final(store)@,
                ),
                Err(e) => e == old(store)@.forced_status && e != 0 && final(store)@.slots == old(
                    store,
                )@.slots && final(store)@.forced_status == 0,
            },
    {
        let forced = store.take_forced();
        if forced != 0 {
            return Err(forced);
        }
        let id = store.allocate(Payload::Clock { invalidated: false });
        Ok(CMClock { id })
    }

    /// Invalidate the clock: it stops serving as a usable time source. Its
    /// references and derived timebases are unaffected.
    pub fn invalidate(&self, store: &mut Store)
        requires
            self.wf(old(store)@),
        ensures
            final(store)@ == old(store)@.with_slot(
                self.id as int,
                SlotModel {
                    refs: old(store)@.refs(self.id as int),
                    payload: PayloadModel::Clock { invalidated: true },
                },
            ),
            self.wf(final(store)@),
    {
        store.put_payload(self.id, Payload::Clock { invalidated: true });
    }

    /// Whether the clock is still a usable time source.
    pub fn is_valid(&self, store: &Store) -> (r: bool)
        requires
            self.wf(store@),
        ensures
            r == !clock_invalidated(store@, self.id as int),
    {
        match store.payload_at(self.id) {
            Payload::Clock { invalidated } => !*invalidated,
            _ => {
                proof {
                    assert(false);
                }
                false
            },
        }
    }

    /// Whether this clock and another might drift apart: distinct clocks run
    /// on independent hardware and may drift, while a clock never drifts
    /// against itself.
    pub fn might_drift(&self, other_clock: &CMClock, store: &Store) -> (r: bool)
        requires
            self.wf(store@),
            other_clock.wf(store@),
        ensures
            r == (self.id != other_clock.id),
    {
        self.id != other_clock.id
    }

    /// Release the handle's one reference; the clock is freed when this was
    /// the last reference.
    pub fn release(self, store: &mut Store)
        requires
            old(store)@.live(self.id as int),
        ensures
            final(store)@ == old(store)@.release(self.id as int),
    {
        store.release_ref(self.id);
    }
}

/// A handle to one timebase object.
pub struct CMTimebase {
    pub id: usize,
}

impl CMAttachmentBearerSubClass for CMTimebase {
    open spec fn bearer_id(&self) -> int {
        self.id as int
    }

    open spec fn subtype_tag() -> CFTypeID {
        kCMTimebaseTypeID
    }

    fn type_id() -> CFTypeID {
        kCMTimebaseTypeID
    }

    fn as_CMAttachmentBearer(&self, store: &mut Store) -> CMAttachmentBearer {
        CMAttachmentBearer::wrap_under_get_rule(store, self.id)
    }

    fn into_CMAttachmentBearer(self) -> CMAttachmentBearer {
        CMAttachmentBearer { id: self.id }
    }
}

impl CMTimebase {
    /// Well-formed against a store: live and holding a timebase.
    pub open spec fn wf(&self, s: StoreModel) -> bool {
        s.live(self.id as int) && s.payload(self.id as int) is Timebase
    }

    /// Construct a timebase derived from a clock, under the create rule. The
    /// timebase holds its own retained reference on the clock. Fails only
    /// with a forced status, surfaced verbatim.
    pub fn new_with_source_clock(store: &mut Store, source_clock: &CMClock) -> (r: Result<
        CMTimebase,
        OSStatus,
    >)
        requires
            old(store)@.slots.len() < usize::MAX,
            source_clock.wf(old(store)@),
            old(store)@.refs(source_clock.id as int) < usize::MAX,
        ensures
            match r {
                Ok(tb) => old(store)@.forced_status == 0 && tb.id == old(store)@.slots.len()
                    && final(store)@ == old(store)@.retain(source_clock.id as int).allocate(
                    PayloadModel::Timebase { source: source_clock.id },
                ) && tb.wf(final(store)@) && source_chain_ok(final(store)@, tb.id as int),
                Err(e) => e == old(store)@.forced_status && e != 0 && final(store)@.slots == old(
                    store,
                )@.slots && final(store)@.forced_status == 0,
            },
    {
        let forced = store.take_forced();
        if forced != 0 {
            return Err(forced);
        }
        store.retain_ref(source_clock.id);
        let id = store.allocate(Payload::Timebase { source: source_clock.id });
        proof {
            assert(source_chain_ok(store@, source_clock.id as int));
            assert(source_chain_ok(store@, id as int));
        }
        Ok(CMTimebase { id })
    }

    /// Construct a timebase derived from another timebase, under the create
    /// rule. The new timebase holds its own retained reference on its source.
    pub fn new_with_source_timebase(store: &mut Store, source_timebase: &CMTimebase) -> (r: Result<
        CMTimebase,
        OSStatus,
    >)
        requires
            old(store)@.slots.len() < usize::MAX,
            source_timebase.wf(old(store)@),
            old(store)@.refs(source_timebase.id as int) < usize::MAX,
        ensures
            match r {
                Ok(tb) => old(store)@.forced_status == 0 && tb.id == old(store)@.slots.len()
                    && final(store)@ == old(store)@.retain(source_timebase.id as int).allocate(
                    PayloadModel::Timebase { source: source_timebase.id },
                ) && tb.wf(final(store)@) && (source_chain_ok(
                    old(store)@,
                    source_timebase.id as int,
                ) ==> source_chain_ok(final(store)@, tb.id as int)),
                Err(e) => e == old(store)@.forced_status && e != 0 && final(store)@.slots == old(
                    store,
                )@.slots && final(store)@.forced_status == 0,
            },
    {
        let forced = store.take_forced();
        if forced != 0 {
            return Err(forced);
        }
        store.retain_ref(source_timebase.id);
        let id = store.allocate(Payload::Timebase { source: source_timebase.id });
        proof {
            if source_chain_ok(old(store)@, source_timebase.id as int) {
                lemma_source_chain_ok_monotone(
                    old(store)@,
                    store@,
                    source_timebase.id as int,
                );
            }
        }
        Ok(CMTimebase { id })
    }

    /// A retained generic handle to the timebase's immediate source, clock or
    /// timebase alike; the caller recovers the concrete subtype by downcast.
    /// In this layer a timebase always has a source.
    pub fn copy_source(&self, store: &mut Store) -> (r: Option<CMAttachmentBearer>)
        requires
            self.wf(old(store)@),
            old(store)@.live(tb_source(old(store)@, self.id as int) as int),
            old(store)@.refs(tb_source(old(store)@, self.id as int) as int) < usize::MAX,
        ensures
            r == Some(
                (CMAttachmentBearer { id: tb_source(old(store)@, self.id as int) }),
            ),
            final(store)@ == old(store)@.retain(tb_source(old(store)@, self.id as int) as int),
    {
        let source = match store.payload_at(self.id) {
            Payload::Timebase { source } => *source,
            _ => {
                proof {
                    assert(false);
                }
                0
            },
        };
        Some(CMAttachmentBearer::wrap_under_get_rule(store, source))
    }

    /// A retained handle to the timebase's immediate source when that source
    /// is a clock; absent when the source is another timebase.
    pub fn copy_source_clock(&self, store: &mut Store) -> (r: Option<CMClock>)
        requires
            self.wf(old(store)@),
            old(store)@.live(tb_source(old(store)@, self.id as int) as int),
            old(store)@.refs(tb_source(old(store)@, self.id as int) as int) < usize::MAX,
        ensures
            ({
                let source = tb_source(old(store)@, self.id as int);
                if old(store)@.tag_of(source as int) == kCMClockTypeID {
                    r == Some((CMClock { id: source })) && final(store)@ == old(store)@.retain(
                        source as int,
                    )
                } else {
                    r is None && final(store)@ == old(store)@
                }
            }),
    {
        let source = match store.payload_at(self.id) {
            Payload::Timebase { source } => *source,
            _ => {
                proof {
                    assert(false);
                }
                0
            },
        };
        if store.tag(source) == kCMClockTypeID {
            store.retain_ref(source);
            Some(CMClock { id: source })
        } else {
            None
        }
    }

    /// A retained handle to the timebase's immediate source when that source
    /// is another timebase; absent when the source is a clock.
    pub fn copy_source_timebase(&self, store: &mut Store) -> (r: Option<CMTimebase>)
        requires
            self.wf(old(store)@),
            old(store)@.live(tb_source(old(store)@, self.id as int) as int),
            old(store)@.refs(tb_source(old(store)@, self.id as int) as int) < usize::MAX,
        ensures
            ({
                let source = tb_source(old(store)@, self.id as int);
                if old(store)@.tag_of(source as int) == kCMTimebaseTypeID {
                    r == Some((CMTimebase { id: source })) && final(store)@ == old(store)@.retain(
                        source as int,
                    )
                } else {
                    r is None && final(store)@ == old(store)@
                }
            }),
    {
        let source = match store.payload_at(self.id) {
            Payload::Timebase { source } => *source,
            _ => {
                proof {
                    assert(false);
                }
                0
            },
        };
        if store.tag(source) == kCMTimebaseTypeID {
            store.retain_ref(source);
            Some(CMTimebase { id: source })
        } else {
            None
        }
    }

    /// A retained handle to the clock the timebase's derivation chain bottoms
    /// out in, found by walking the sources down to the root.
    #[verifier::loop_isolation(false)]
    pub fn copy_ultimate_source_clock(&self, store: &mut Store) -> (r: Option<CMClock>)
        requires
            self.wf(old(store)@),
            source_chain_ok(old(store)@, self.id as int),
            old(store)@.refs(spec_ultimate_clock(old(store)@, self.id as int)) < usize::MAX,
        ensures
            r == Some(
                (CMClock { id: spec_ultimate_clock(old(store)@, self.id as int) as usize }),
            ),
            final(store)@ == old(store)@.retain(
                spec_ultimate_clock(old(store)@, self.id as int),
            ),
    {
        let mut cur = self.id;
        loop
            invariant
                store@ == old(store)@,
                source_chain_ok(store@, cur as int),
                spec_ultimate_clock(store@, self.id as int) == spec_ultimate_clock(
                    store@,
                    cur as int,
                ),
            decreases cur,
        {
            match store.payload_at(cur) {
                Payload::Timebase { source } => {
                    cur = *source;
                },
                Payload::Clock { .. } => {
                    store.retain_ref(cur);
                    return Some(CMClock { id: cur });
                },
                _ => {
                    proof {
                        assert(false);
                    }
                    return None;
                },
            }
        }
    }

    /// Release the handle's one reference. When this was the last reference,
    /// the timebase is freed and the reference it holds on its source is
    /// released in turn, down the derivation chain.
    pub fn release(self, store: &mut Store)
        requires
            old(store)@.live(self.id as int),
        ensures
            final(store)@ == old(store)@.release(self.id as int),
    {
        store.release_ref(self.id);
    }
}

} // verus!
