//! Simple queues: bounded FIFO queues of plain nonzero address-sized
//! elements. Elements are bare words, not reference-counted objects, so the
//! queue holds no references on their behalf.
use vstd::prelude::*;

use crate::attachment::{CMAttachmentBearer, CMAttachmentBearerSubClass};
use crate::base::{CFTypeID, OSStatus};
use crate::store::{kCMSimpleQueueTypeID, Payload, PayloadModel, SlotModel, Store, StoreModel};

verus! {

pub const kCMSimpleQueueError_AllocationFailed: OSStatus = -12770;

pub const kCMSimpleQueueError_RequiredParameterMissing: OSStatus = -12771;

pub const kCMSimpleQueueError_ParameterOutOfRange: OSStatus = -12772;

pub const kCMSimpleQueueError_QueueIsFull: OSStatus = -12773;

/// The largest capacity a simple queue may be created with.
pub const kCMSimpleQueueMaximumCapacity: i32 = 32767;

/// The elements held by the simple queue in slot `id`, in dequeue order.
pub open spec fn sq_elements(s: StoreModel, id: int) -> Seq<u64> {
    match s.payload(id) {
        PayloadModel::SimpleQueue { elements, .. } => elements,
        _ => Seq::empty(),
    }
}

/// The capacity of the simple queue in slot `id`.
pub open spec fn sq_capacity(s: StoreModel, id: int) -> i32 {
    match s.payload(id) {
        PayloadModel::SimpleQueue { element_capacity, .. } => element_capacity,
        _ => 0,
    }
}

/// The status an enqueue of `element` against the simple queue in `qid`
/// reports: a null element is a missing required parameter, and a full queue
/// refuses further elements.
pub open spec fn sq_enqueue_status(s: StoreModel, qid: int, element: u64) -> OSStatus {
    if element == 0 {
        kCMSimpleQueueError_RequiredParameterMissing
    } else if sq_elements(s, qid).len() >= sq_capacity(s, qid) {
        kCMSimpleQueueError_QueueIsFull
    } else {
        0
    }
}

/// A handle to one simple queue object.
pub struct CMSimpleQueue {
    pub id: usize,
}

impl CMAttachmentBearerSubClass for CMSimpleQueue {
    open spec fn bearer_id(&self) -> int {
        self.id as int
    }

    open spec fn subtype_tag() -> CFTypeID {
        kCMSimpleQueueTypeID
    }

    fn type_id() -> CFTypeID {
        kCMSimpleQueueTypeID
    }

    fn as_CMAttachmentBearer(&self, store: &mut Store) -> CMAttachmentBearer {
        CMAttachmentBearer::wrap_under_get_rule(store, self.id)
    }

    fn into_CMAttachmentBearer(self) -> CMAttachmentBearer {
        CMAttachmentBearer { id: self.id }
    }
}

impl CMSimpleQueue {
    /// Well-formed against a store: live, holding a simple queue whose
    /// capacity is in range and never exceeded.
    pub open spec fn wf(&self, s: StoreModel) -> bool {
        &&& s.live(self.id as int)
        &&& s.payload(self.id as int) is SimpleQueue
        &&& 1 <= sq_capacity(s, self.id as int) <= kCMSimpleQueueMaximumCapacity
        &&& sq_elements(s, self.id as int).len() <= sq_capacity(s, self.id as int)
    }

    /// Construct an empty simple queue under the create rule. The capacity
    /// must lie between one and the maximum; anything else is refused with
    /// the out-of-range code. A forced status is surfaced verbatim first.
    pub fn new(store: &mut Store, capacity: i32) -> (r: Result<CMSimpleQueue, OSStatus>)
        requires
            old(store)@.slots.len() < usize::MAX,
        ensures
            match r {
                Ok(q) => old(store)@.forced_status == 0 && 1 <= capacity
                    <= kCMSimpleQueueMaximumCapacity && q.id == old(store)@.slots.len() && final(store)@ == old(store)@.allocate(
                    PayloadModel::SimpleQueue {
                        elements: Seq::empty(),
                        element_capacity: capacity,
                    },
                ) && q.wf(final(store)@),
                Err(e) => ({
                    &&& (old(store)@.forced_status != 0 ==> e == old(store)@.forced_status)
                    &&& (old(store)@.forced_status == 0 ==> e
                        == kCMSimpleQueueError_ParameterOutOfRange && !(1 <= capacity
                        <= kCMSimpleQueueMaximumCapacity))
                    &&& final(store)@.slots == old(store)@.slots
                    &&& final(store)@.forced_status == 0
                }),
            },
    {
        let forced = store.take_forced();
        if forced != 0 {
            return Err(forced);
        }
        if capacity < 1 || capacity > kCMSimpleQueueMaximumCapacity {
            return Err(kCMSimpleQueueError_ParameterOutOfRange);
        }
        let id = store.allocate(
            Payload::SimpleQueue { elements: Vec::new(), element_capacity: capacity },
        );
        Ok(CMSimpleQueue { id })
    }

    /// Enqueue a nonzero element at the tail. A zero element and a full queue
    /// are refused with distinct codes, changing nothing.
    pub fn enqueue(&self, store: &mut Store, element: u64) -> (r: Result<(), OSStatus>)
        requires
            self.wf(old(store)@),
        ensures
            match r {
                Ok(()) => sq_enqueue_status(old(store)@, self.id as int, element) == 0 && final(store)@ == old(store)@.with_slot(
                    self.id as int,
                    SlotModel {
                        refs: old(store)@.refs(self.id as int),
                        payload: PayloadModel::SimpleQueue {
                            elements: sq_elements(old(store)@, self.id as int).push(element),
                            element_capacity: sq_capacity(old(store)@, self.id as int),
                        },
                    },
                ) && self.wf(final(store)@),
                Err(e) => e != 0 && e == sq_enqueue_status(old(store)@, self.id as int, element)
                    && final(store)@ == old(store)@,
            },
    {
        if element == 0 {
            return Err(kCMSimpleQueueError_RequiredParameterMissing);
        }
        let payload = store.take_payload(self.id);
        match payload {
            Payload::SimpleQueue { mut elements, element_capacity } => {
                if elements.len() >= element_capacity as usize {
                    store.put_payload(
                        self.id,
                        Payload::SimpleQueue { elements, element_capacity },
                    );
                    proof {
                        assert(store@.slots =~= old(store)@.slots);
                        assert(store@ == old(store)@);
                    }
                    return Err(kCMSimpleQueueError_QueueIsFull);
                }
                elements.push(element);
                store.put_payload(self.id, Payload::SimpleQueue { elements, element_capacity });
                proof {
                    assert(store@.slots =~= old(store)@.slots.update(
                        self.id as int,
                        SlotModel {
                            refs: old(store)@.refs(self.id as int),
                            payload: store@.payload(self.id as int),
                        },
                    ));
                }
                Ok(())
            },
            p => {
                proof {
                    assert(false);
                }
                store.put_payload(self.id, p);
                Err(kCMSimpleQueueError_RequiredParameterMissing)
            },
        }
    }

    /// Dequeue the head element. An empty queue yields the absent result and
    /// changes nothing.
    pub fn dequeue(&self, store: &mut Store) -> (r: Option<u64>)
        requires
            self.wf(old(store)@),
        ensures
            sq_elements(old(store)@, self.id as int).len() == 0 ==> r is None && final(store)@
                == old(store)@,
            sq_elements(old(store)@, self.id as int).len() > 0 ==> r == Some(
                sq_elements(old(store)@, self.id as int)[0],
            ) && final(store)@ == old(store)@.with_slot(
                self.id as int,
                SlotModel {
                    refs: old(store)@.refs(self.id as int),
                    payload: PayloadModel::SimpleQueue {
                        elements: sq_elements(old(store)@, self.id as int).drop_first(),
                        element_capacity: sq_capacity(old(store)@, self.id as int),
                    },
                },
            ) && self.wf(final(store)@),
    {
        let payload = store.take_payload(self.id);
        match payload {
            Payload::SimpleQueue { mut elements, element_capacity } => {
                if elements.len() == 0 {
                    store.put_payload(
                        self.id,
                        Payload::SimpleQueue { elements, element_capacity },
                    );
                    proof {
                        assert(store@.slots =~= old(store)@.slots);
                        assert(store@ == old(store)@);
                    }
                    return None;
                }
                let head = elements.remove(0);
                proof {
                    assert(elements@ =~= sq_elements(old(store)@, self.id as int).drop_first());
                }
                store.put_payload(self.id, Payload::SimpleQueue { elements, element_capacity });
                proof {
                    assert(store@.slots =~= old(store)@.slots.update(
                        self.id as int,
                        SlotModel {
                            refs: old(store)@.refs(self.id as int),
                            payload: store@.payload(self.id as int),
                        },
                    ));
                }
                Some(head)
            },
            p => {
                proof {
                    assert(false);
                }
                store.put_payload(self.id, p);
                None
            },
        }
    }

    /// The head element without dequeuing it; absent when the queue is empty.
    pub fn get_head(&self, store: &Store) -> (r: Option<u64>)
        requires
            self.wf(store@),
        ensures
            sq_elements(store@, self.id as int).len() == 0 ==> r is None,
            sq_elements(store@, self.id as int).len() > 0 ==> r == Some(
                sq_elements(store@, self.id as int)[0],
            ),
    {
        match store.payload_at(self.id) {
            Payload::SimpleQueue { elements, .. } => {
                if elements.len() == 0 {
                    None
                } else {
                    Some(elements[0])
                }
            },
            _ => {
                proof {
                    assert(false);
                }
                None
            },
        }
    }

    /// Remove every element.
    pub fn reset(&self, store: &mut Store) -> (r: Result<(), OSStatus>)
        requires
            self.wf(old(store)@),
        ensures
            r is Ok,
            final(store)@ == old(store)@.with_slot(
                self.id as int,
                SlotModel {
                    refs: old(store)@.refs(self.id as int),
                    payload: PayloadModel::SimpleQueue {
                        elements: Seq::empty(),
                        element_capacity: sq_capacity(old(store)@, self.id as int),
                    },
                },
            ),
            self.wf(final(store)@),
    {
        let payload = store.take_payload(self.id);
        match payload {
            Payload::SimpleQueue { element_capacity, .. } => {
                store.put_payload(
                    self.id,
                    Payload::SimpleQueue { elements: Vec::new(), element_capacity },
                );
                proof {
                    assert(store@.slots =~= old(store)@.slots.update(
                        self.id as int,
                        SlotModel {
                            refs: old(store)@.refs(self.id as int),
                            payload: store@.payload(self.id as int),
                        },
                    ));
                }
                Ok(())
            },
            p => {
                proof {
                    assert(false);
                }
                store.put_payload(self.id, p);
                Err(kCMSimpleQueueError_RequiredParameterMissing)
            },
        }
    }

    /// The capacity the queue was created with.
    pub fn get_capacity(&self, store: &Store) -> (r: i32)
        requires
            self.wf(store@),
        ensures
            r == sq_capacity(store@, self.id as int),
    {
        match store.payload_at(self.id) {
            Payload::SimpleQueue { element_capacity, .. } => *element_capacity,
            _ => {
                proof {
                    assert(false);
                }
                0
            },
        }
    }

    /// The number of elements currently held.
    pub fn get_count(&self, store: &Store) -> (r: i32)
        requires
            self.wf(store@),
        ensures
            r == sq_elements(store@, self.id as int).len(),
    {
        match store.payload_at(self.id) {
            Payload::SimpleQueue { elements, .. } => {
                let n = elements.len();
                proof {
                    assert(n <= sq_capacity(store@, self.id as int));
                }
                n as i32
            },
            _ => {
                proof {
                    assert(false);
                }
                0
            },
        }
    }

    /// Release the handle's one reference; the queue is freed when this was
    /// the last reference.
    pub fn release(self, store: &mut Store)
        requires
            old(store)@.live(self.id as int),
        ensures
            final(store)@ == old(store)@.release(self.id as int),
    {
        store.release_ref(self.id);
    }
}

} // verus!
