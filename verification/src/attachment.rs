//! The generic handle type and the polymorphic base/subtype relation.
//!
//! A [`CMAttachmentBearer`] wraps one object of any runtime type. Every
//! concrete subtype implements [`CMAttachmentBearerSubClass`], giving a
//! non-consuming upcast (the get rule: the new generic handle takes its own
//! reference) and a consuming upcast (ownership transfer: the subtype's
//! single reference moves, with no retain or release). The reverse direction
//! is a fallible downcast gated by the object's runtime type tag; a mismatch
//! yields the absent result and never a miscast handle.
use vstd::prelude::*;

use crate::base::CFTypeID;
use crate::block_buffer::CMBlockBuffer;
use crate::buffer_queue::CMBufferQueue;
use crate::format_description::CMFormatDescription;
use crate::sample_buffer::CMSampleBuffer;
use crate::sample_queue::CMSimpleQueue;
use crate::store::{
    kCMBlockBufferTypeID, kCMBufferQueueTypeID, kCMClockTypeID, kCMFormatDescriptionTypeID,
    kCMSampleBufferTypeID, kCMSimpleQueueTypeID, kCMTimebaseTypeID, PayloadModel, Store,
    StoreModel,
};
use crate::sync::{CMClock, CMTimebase};

verus! {

/// A handle to one object of any runtime type. Holding the handle accounts
/// for exactly one unit of the object's reference count; releasing the handle
/// gives that unit back.
pub struct CMAttachmentBearer {
    pub id: usize,
}

/// The equality predicate the registry applies to two objects: identity, or
/// for format descriptions — the one subtype with value semantics — equality
/// of their media type and subtype codes.
pub open spec fn obj_eq(s: StoreModel, a: int, b: int) -> bool {
    a == b || (s.live(a) && s.live(b) && match (s.payload(a), s.payload(b)) {
        (
            PayloadModel::FormatDescription { media_type: ta, media_subtype: sa },
            PayloadModel::FormatDescription { media_type: tb, media_subtype: sb },
        ) => ta == tb && sa == sb,
        _ => false,
    })
}

/// A concrete subtype of the generic handle: a handle known, by construction
/// or by a successful downcast, to wrap an object of one specific runtime
/// type.
pub trait CMAttachmentBearerSubClass: Sized {
    /// The registry slot of the wrapped object.
    spec fn bearer_id(&self) -> int;

    /// The runtime type tag shared by every object of this subtype.
    spec fn subtype_tag() -> CFTypeID;

    /// The subtype's registered tag, as an executable value.
    fn type_id() -> (r: CFTypeID)
        ensures
            r == Self::subtype_tag(),
    ;

    /// Non-consuming upcast under the get rule: the generic handle shares
    /// ownership, so it takes one reference of its own.
    fn as_CMAttachmentBearer(&self, store: &mut Store) -> (r: CMAttachmentBearer)
        requires
            old(store)@.live(self.bearer_id()),
            old(store)@.refs(self.bearer_id()) < usize::MAX,
        ensures
            r.id == self.bearer_id(),
            final(store)@ == old(store)@.retain(self.bearer_id()),
    ;

    /// Consuming upcast: the subtype value's single reference is transferred
    /// into the generic handle with no retain or release.
    fn into_CMAttachmentBearer(self) -> (r: CMAttachmentBearer)
        ensures
            r.id == self.bearer_id(),
    ;
}

impl CMAttachmentBearer {
    /// Wrap an existing live object under the get rule: the returned
    /// reference is shared, so this handle takes one reference of its own to
    /// hold it safely.
    pub fn wrap_under_get_rule(store: &mut Store, reference: usize) -> (r: CMAttachmentBearer)
        requires
            old(store)@.live(reference as int),
            old(store)@.refs(reference as int) < usize::MAX,
        ensures
            r.id == reference,
            final(store)@ == old(store)@.retain(reference as int),
    {
        store.retain_ref(reference);
        CMAttachmentBearer { id: reference }
    }

    /// The wrapped object's address-sized identifier.
    pub fn as_concrete_TypeRef(&self) -> (r: usize)
        ensures
            r == self.id,
    {
        self.id
    }

    /// The runtime type tag the registry reports for the wrapped object.
    pub fn type_of(&self, store: &Store) -> (r: CFTypeID)
        requires
            store@.live(self.id as int),
        ensures
            r == store@.tag_of(self.id as int),
    {
        store.tag(self.id)
    }

    /// Whether the wrapped object's runtime tag is the one registered for the
    /// subtype `T`.
    pub fn instance_of<T: CMAttachmentBearerSubClass>(&self, store: &Store) -> (r: bool)
        requires
            store@.live(self.id as int),
        ensures
            r == (store@.tag_of(self.id as int) == T::subtype_tag()),
    {
        self.type_of(store) == T::type_id()
    }

    /// The registry's equality predicate over the two wrapped objects; see
    /// [`obj_eq`]. Reflexive, symmetric, and stable while the objects are
    /// unchanged.
    pub fn equal(&self, other: &CMAttachmentBearer, store: &Store) -> (r: bool)
        requires
            store@.live(self.id as int),
            store@.live(other.id as int),
        ensures
            r == obj_eq(store@, self.id as int, other.id as int),
    {
        if self.id == other.id {
            return true;
        }
        let pa = store.payload_at(self.id);
        let pb = store.payload_at(other.id);
        match (pa, pb) {
            (
                crate::store::Payload::FormatDescription { media_type: ta, media_subtype: sa },
                crate::store::Payload::FormatDescription { media_type: tb, media_subtype: sb },
            ) => *ta == *tb && *sa == *sb,
            _ => false,
        }
    }

    /// Release the handle's one reference. The object is freed exactly when
    /// this was the last reference held anywhere.
    pub fn release(self, store: &mut Store)
        requires
            old(store)@.live(self.id as int),
        ensures
            final(store)@ == old(store)@.release(self.id as int),
    {
        store.release_ref(self.id);
    }

    /// Non-consuming downcast to the memory block subtype. On success the
    /// subtype handle shares ownership (one reference is taken); on a type
    /// mismatch the result is absent, nothing changes, and this handle stays
    /// usable.
    pub fn downcast_block_buffer(&self, store: &mut Store) -> (r: Option<CMBlockBuffer>)
        requires
            old(store)@.live(self.id as int),
            old(store)@.refs(self.id as int) < usize::MAX,
        ensures
            old(store)@.tag_of(self.id as int) == kCMBlockBufferTypeID ==> r == Some(
                (CMBlockBuffer { id: self.id }),
            ) && final(store)@ == old(store)@.retain(self.id as int),
            old(store)@.tag_of(self.id as int) != kCMBlockBufferTypeID ==> r is None && final(store)@ == old(store)@,
    {
        if store.tag(self.id) == kCMBlockBufferTypeID {
            store.retain_ref(self.id);
            Some(CMBlockBuffer { id: self.id })
        } else {
            None
        }
    }

    /// Consuming downcast to the memory block subtype. On success the
    /// handle's reference moves into the subtype handle with no reference
    /// churn; on a type mismatch the handle is consumed, its reference is
    /// released, and the result is absent.
    pub fn downcast_into_block_buffer(self, store: &mut Store) -> (r: Option<CMBlockBuffer>)
        requires
            old(store)@.live(self.id as int),
        ensures
            old(store)@.tag_of(self.id as int) == kCMBlockBufferTypeID ==> r == Some(
                (CMBlockBuffer { id: self.id }),
            ) && final(store)@ == old(store)@,
            old(store)@.tag_of(self.id as int) != kCMBlockBufferTypeID ==> r is None && final(store)@ == old(store)@.release(self.id as int),
    {
        if store.tag(self.id) == kCMBlockBufferTypeID {
            Some(CMBlockBuffer { id: self.id })
        } else {
            store.release_ref(self.id);
            None
        }
    }

    /// Non-consuming downcast to the buffer queue subtype; see
    /// [`CMAttachmentBearer::downcast_block_buffer`].
    pub fn downcast_buffer_queue(&self, store: &mut Store) -> (r: Option<CMBufferQueue>)
        requires
            old(store)@.live(self.id as int),
            old(store)@.refs(self.id as int) < usize::MAX,
        ensures
            old(store)@.tag_of(self.id as int) == kCMBufferQueueTypeID ==> r == Some(
                (CMBufferQueue { id: self.id }),
            ) && final(store)@ == old(store)@.retain(self.id as int),
            old(store)@.tag_of(self.id as int) != kCMBufferQueueTypeID ==> r is None && final(store)@ == old(store)@,
    {
        if store.tag(self.id) == kCMBufferQueueTypeID {
            store.retain_ref(self.id);
            Some(CMBufferQueue { id: self.id })
        } else {
            None
        }
    }

    /// Consuming downcast to the buffer queue subtype; see
    /// [`CMAttachmentBearer::downcast_into_block_buffer`].
    pub fn downcast_into_buffer_queue(self, store: &mut Store) -> (r: Option<CMBufferQueue>)
        requires
            old(store)@.live(self.id as int),
        ensures
            old(store)@.tag_of(self.id as int) == kCMBufferQueueTypeID ==> r == Some(
                (CMBufferQueue { id: self.id }),
            ) && final(store)@ == old(store)@,
            old(store)@.tag_of(self.id as int) != kCMBufferQueueTypeID ==> r is None && final(store)@ == old(store)@.release(self.id as int),
    {
        if store.tag(self.id) == kCMBufferQueueTypeID {
            Some(CMBufferQueue { id: self.id })
        } else {
            store.release_ref(self.id);
            None
        }
    }

    /// Non-consuming downcast to the simple queue subtype; see
    /// [`CMAttachmentBearer::downcast_block_buffer`].
    pub fn downcast_simple_queue(&self, store: &mut Store) -> (r: Option<CMSimpleQueue>)
        requires
            old(store)@.live(self.id as int),
            old(store)@.refs(self.id as int) < usize::MAX,
        ensures
            old(store)@.tag_of(self.id as int) == kCMSimpleQueueTypeID ==> r == Some(
                (CMSimpleQueue { id: self.id }),
            ) && final(store)@ == old(store)@.retain(self.id as int),
            old(store)@.tag_of(self.id as int) != kCMSimpleQueueTypeID ==> r is None && final(store)@ == old(store)@,
    {
        if store.tag(self.id) == kCMSimpleQueueTypeID {
            store.retain_ref(self.id);
            Some(CMSimpleQueue { id: self.id })
        } else {
            None
        }
    }

    /// Consuming downcast to the simple queue subtype; see
    /// [`CMAttachmentBearer::downcast_into_block_buffer`].
    pub fn downcast_into_simple_queue(self, store: &mut Store) -> (r: Option<CMSimpleQueue>)
        requires
            old(store)@.live(self.id as int),
        ensures
            old(store)@.tag_of(self.id as int) == kCMSimpleQueueTypeID ==> r == Some(
                (CMSimpleQueue { id: self.id }),
            ) && final(store)@ == old(store)@,
            old(store)@.tag_of(self.id as int) != kCMSimpleQueueTypeID ==> r is None && final(store)@ == old(store)@.release(self.id as int),
    {
        if store.tag(self.id) == kCMSimpleQueueTypeID {
            Some(CMSimpleQueue { id: self.id })
        } else {
            store.release_ref(self.id);
            None
        }
    }

    /// Non-consuming downcast to the format description subtype; see
    /// [`CMAttachmentBearer::downcast_block_buffer`]. The check inspects the
    /// object's primary runtime tag alone — the media type and subtype codes
    /// a format description carries are deliberately not consulted, matching
    /// how the framework distinguishes format families only by a secondary
    /// code.
    pub fn downcast_format_description(&self, store: &mut Store) -> (r: Option<
        CMFormatDescription,
    >)
        requires
            old(store)@.live(self.id as int),
            old(store)@.refs(self.id as int) < usize::MAX,
        ensures
            old(store)@.tag_of(self.id as int) == kCMFormatDescriptionTypeID ==> r == Some(
                (CMFormatDescription { id: self.id }),
            ) && final(store)@ == old(store)@.retain(self.id as int),
            old(store)@.tag_of(self.id as int) != kCMFormatDescriptionTypeID ==> r is None && final(store)@ == old(store)@,
    {
        if store.tag(self.id) == kCMFormatDescriptionTypeID {
            store.retain_ref(self.id);
            Some(CMFormatDescription { id: self.id })
        } else {
            None
        }
    }

    /// Consuming downcast to the format description subtype; see
    /// [`CMAttachmentBearer::downcast_into_block_buffer`].
    pub fn downcast_into_format_description(self, store: &mut Store) -> (r: Option<
        CMFormatDescription,
    >)
        requires
            old(store)@.live(self.id as int),
        ensures
            old(store)@.tag_of(self.id as int) == kCMFormatDescriptionTypeID ==> r == Some(
                (CMFormatDescription { id: self.id }),
            ) && final(store)@ == old(store)@,
            old(store)@.tag_of(self.id as int) != kCMFormatDescriptionTypeID ==> r is None && final(store)@ == old(store)@.release(self.id as int),
    {
        if store.tag(self.id) == kCMFormatDescriptionTypeID {
            Some(CMFormatDescription { id: self.id })
        } else {
            store.release_ref(self.id);
            None
        }
    }

    /// Non-consuming downcast to the sample buffer subtype; see
    /// [`CMAttachmentBearer::downcast_block_buffer`].
    pub fn downcast_sample_buffer(&self, store: &mut Store) -> (r: Option<CMSampleBuffer>)
        requires
            old(store)@.live(self.id as int),
            old(store)@.refs(self.id as int) < usize::MAX,
        ensures
            old(store)@.tag_of(self.id as int) == kCMSampleBufferTypeID ==> r == Some(
                (CMSampleBuffer { id: self.id }),
            ) && final(store)@ == old(store)@.retain(self.id as int),
            old(store)@.tag_of(self.id as int) != kCMSampleBufferTypeID ==> r is None && final(store)@ == old(store)@,
    {
        if store.tag(self.id) == kCMSampleBufferTypeID {
            store.retain_ref(self.id);
            Some(CMSampleBuffer { id: self.id })
        } else {
            None
        }
    }

    /// Consuming downcast to the sample buffer subtype; see
    /// [`CMAttachmentBearer::downcast_into_block_buffer`].
    pub fn downcast_into_sample_buffer(self, store: &mut Store) -> (r: Option<CMSampleBuffer>)
        requires
            old(store)@.live(self.id as int),
        ensures
            old(store)@.tag_of(self.id as int) == kCMSampleBufferTypeID ==> r == Some(
                (CMSampleBuffer { id: self.id }),
            ) && final(store)@ == old(store)@,
            old(store)@.tag_of(self.id as int) != kCMSampleBufferTypeID ==> r is None && final(store)@ == old(store)@.release(self.id as int),
    {
        if store.tag(self.id) == kCMSampleBufferTypeID {
            Some(CMSampleBuffer { id: self.id })
        } else {
            store.release_ref(self.id);
            None
        }
    }

    /// Non-consuming downcast to the clock subtype; see
    /// [`CMAttachmentBearer::downcast_block_buffer`].
    pub fn downcast_clock(&self, store: &mut Store) -> (r: Option<CMClock>)
        requires
            old(store)@.live(self.id as int),
            old(store)@.refs(self.id as int) < usize::MAX,
        ensures
            old(store)@.tag_of(self.id as int) == kCMClockTypeID ==> r == Some(
                (CMClock { id: self.id }),
            ) && final(store)@ == old(store)@.retain(self.id as int),
            old(store)@.tag_of(self.id as int) != kCMClockTypeID ==> r is None && final(store)@ == old(store)@,
    {
        if store.tag(self.id) == kCMClockTypeID {
            store.retain_ref(self.id);
            Some(CMClock { id: self.id })
        } else {
            None
        }
    }

    /// Consuming downcast to the clock subtype; see
    /// [`CMAttachmentBearer::downcast_into_block_buffer`].
    pub fn downcast_into_clock(self, store: &mut Store) -> (r: Option<CMClock>)
        requires
            old(store)@.live(self.id as int),
        ensures
            old(store)@.tag_of(self.id as int) == kCMClockTypeID ==> r == Some(
                (CMClock { id: self.id }),
            ) && final(store)@ == old(store)@,
            old(store)@.tag_of(self.id as int) != kCMClockTypeID ==> r is None && final(store)@ == old(store)@.release(self.id as int),
    {
        if store.tag(self.id) == kCMClockTypeID {
            Some(CMClock { id: self.id })
        } else {
            store.release_ref(self.id);
            None
        }
    }

    /// Non-consuming downcast to the timebase subtype; see
    /// [`CMAttachmentBearer::downcast_block_buffer`].
    pub fn downcast_timebase(&self, store: &mut Store) -> (r: Option<CMTimebase>)
        requires
            old(store)@.live(self.id as int),
            old(store)@.refs(self.id as int) < usize::MAX,
        ensures
            old(store)@.tag_of(self.id as int) == kCMTimebaseTypeID ==> r == Some(
                (CMTimebase { id: self.id }),
            ) && final(store)@ == old(store)@.retain(self.id as int),
            old(store)@.tag_of(self.id as int) != kCMTimebaseTypeID ==> r is None && final(store)@ == old(store)@,
    {
        if store.tag(self.id) == kCMTimebaseTypeID {
            store.retain_ref(self.id);
            Some(CMTimebase { id: self.id })
        } else {
            None
        }
    }

    /// Consuming downcast to the timebase subtype; see
    /// [`CMAttachmentBearer::downcast_into_block_buffer`].
    pub fn downcast_into_timebase(self, store: &mut Store) -> (r: Option<CMTimebase>)
        requires
            old(store)@.live(self.id as int),
        ensures
            old(store)@.tag_of(self.id as int) == kCMTimebaseTypeID ==> r == Some(
                (CMTimebase { id: self.id }),
            ) && final(store)@ == old(store)@,
            old(store)@.tag_of(self.id as int) != kCMTimebaseTypeID ==> r is None && final(store)@ == old(store)@.release(self.id as int),
    {
        if store.tag(self.id) == kCMTimebaseTypeID {
            Some(CMTimebase { id: self.id })
        } else {
            store.release_ref(self.id);
            None
        }
    }
}

/// The registry's equality predicate is reflexive.
pub proof fn lemma_obj_eq_reflexive(s: StoreModel, a: int)
    ensures
        obj_eq(s, a, a),
{
}

/// The registry's equality predicate is symmetric.
pub proof fn lemma_obj_eq_symmetric(s: StoreModel, a: int, b: int)
    ensures
        obj_eq(s, a, b) == obj_eq(s, b, a),
{
}

/// Upcast/downcast round trip: a subtype handle whose object carries its own
/// subtype's tag, upcast to the generic handle (which preserves the wrapped
/// object), downcasts back to that subtype successfully — the tag the
/// downcast checks is exactly the subtype's tag, so by the downcast contracts
/// the result is present and names the same object as the original.
pub proof fn lemma_upcast_downcast_round_trip<T: CMAttachmentBearerSubClass>(
    s: StoreModel,
    x: &T,
    u: CMAttachmentBearer,
)
    requires
        s.live(x.bearer_id()),
        s.tag_of(x.bearer_id()) == T::subtype_tag(),
        u.id == x.bearer_id(),
    ensures
        s.tag_of(u.id as int) == T::subtype_tag(),
{
}

/// Downcasting toward the wrong subtype always misses: when the wrapped
/// object carries the tag of subtype `T2`, a downcast expecting the distinct
/// tag of subtype `T1` finds the tags unequal, so by the downcast contracts
/// the result is absent — never a miscast handle.
pub proof fn lemma_downcast_mismatch<
    T1: CMAttachmentBearerSubClass,
    T2: CMAttachmentBearerSubClass,
>(s: StoreModel, x: &T2, u: CMAttachmentBearer)
    requires
        s.live(x.bearer_id()),
        s.tag_of(x.bearer_id()) == T2::subtype_tag(),
        u.id == x.bearer_id(),
        T1::subtype_tag() != T2::subtype_tag(),
    ensures
        s.tag_of(u.id as int) != T1::subtype_tag(),
{
}

/// A handle compared to an upcast-then-downcast round trip of itself reports
/// equal: the round trip preserves the wrapped object, and the equality
/// predicate is reflexive on it.
pub proof fn lemma_round_trip_equal(s: StoreModel, a: CMAttachmentBearer, b: CMAttachmentBearer)
    requires
        a.id == b.id,
    ensures
        obj_eq(s, a.id as int, b.id as int),
{
}

} // verus!
