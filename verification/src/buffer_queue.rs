//! FIFO buffer queues. Enqueuing retains the buffer on the queue's behalf;
//! dequeuing removes the head and hands that retained reference to the
//! caller; resetting or freeing the queue releases the references it still
//! holds. Trigger tokens watch the queue's buffer count against a threshold
//! and stay installed until explicitly removed.
use vstd::prelude::*;

use crate::attachment::{CMAttachmentBearer, CMAttachmentBearerSubClass};
use crate::base::{CFTypeID, CMItemCount, OSStatus};
use crate::store::{
    kCMBlockBufferTypeID, kCMBufferQueueTypeID, kCMFormatDescriptionTypeID, kCMSampleBufferTypeID,
    kCMSimpleQueueTypeID, Payload, PayloadModel, SlotModel, Store, StoreModel,
};

verus! {

pub const kCMBufferQueueError_AllocationFailed: OSStatus = -12760;

pub const kCMBufferQueueError_RequiredParameterMissing: OSStatus = -12761;

pub const kCMBufferQueueError_InvalidCMBufferCallbacksStruct: OSStatus = -12762;

pub const kCMBufferQueueError_EnqueueAfterEndOfData: OSStatus = -12763;

pub const kCMBufferQueueError_QueueIsFull: OSStatus = -12764;

pub const kCMBufferQueueError_BadTriggerDuration: OSStatus = -12765;

pub const kCMBufferQueueError_CannotModifyQueueFromTriggerCallback: OSStatus = -12766;

pub const kCMBufferQueueError_InvalidTriggerCondition: OSStatus = -12767;

pub const kCMBufferQueueError_InvalidTriggerToken: OSStatus = -12768;

pub const kCMBufferQueueError_InvalidBuffer: OSStatus = -12769;

/// An opaque identifier for an installed trigger, consumed by removal and
/// test operations and invalid after removal.
pub type CMBufferQueueTriggerToken = u64;

pub type CMBufferQueueTriggerCondition = i32;

pub const kCMBufferQueueTrigger_WhenDurationBecomesLessThan: CMBufferQueueTriggerCondition = 1;

pub const kCMBufferQueueTrigger_WhenDurationBecomesLessThanOrEqualTo:
    CMBufferQueueTriggerCondition = 2;

pub const kCMBufferQueueTrigger_WhenDurationBecomesGreaterThan: CMBufferQueueTriggerCondition = 3;

pub const kCMBufferQueueTrigger_WhenDurationBecomesGreaterThanOrEqualTo:
    CMBufferQueueTriggerCondition = 4;

pub const kCMBufferQueueTrigger_WhenMinPresentationTimeStampChanges:
    CMBufferQueueTriggerCondition = 5;

pub const kCMBufferQueueTrigger_WhenMaxPresentationTimeStampChanges:
    CMBufferQueueTriggerCondition = 6;

pub const kCMBufferQueueTrigger_WhenDataBecomesReady: CMBufferQueueTriggerCondition = 7;

pub const kCMBufferQueueTrigger_WhenEndOfDataReached: CMBufferQueueTriggerCondition = 8;

pub const kCMBufferQueueTrigger_WhenReset: CMBufferQueueTriggerCondition = 9;

pub const kCMBufferQueueTrigger_WhenBufferCountBecomesLessThan: CMBufferQueueTriggerCondition = 10;

pub const kCMBufferQueueTrigger_WhenBufferCountBecomesGreaterThan: CMBufferQueueTriggerCondition =
    11;

pub const kCMBufferQueueTrigger_WhenDurationBecomesGreaterThanOrEqualToAndBufferCountBecomesGreaterThan:
    CMBufferQueueTriggerCondition = 12;

/// Mathematical model of an installed trigger.
pub struct TriggerModel {
    pub token: u64,
    pub condition: i32,
    pub threshold: usize,
}

/// An installed trigger: its token, its condition, and its threshold.
pub struct Trigger {
    pub token: u64,
    pub condition: i32,
    pub threshold: usize,
}

impl View for Trigger {
    type V = TriggerModel;

    open spec fn view(&self) -> TriggerModel {
        TriggerModel { token: self.token, condition: self.condition, threshold: self.threshold }
    }
}

/// The buffers held by the queue in slot `id`, in dequeue order.
pub open spec fn queue_items(s: StoreModel, id: int) -> Seq<usize> {
    match s.payload(id) {
        PayloadModel::BufferQueue { items, .. } => items,
        _ => Seq::empty(),
    }
}

/// The capacity of the queue in slot `id`; zero means unbounded.
pub open spec fn queue_capacity(s: StoreModel, id: int) -> usize {
    match s.payload(id) {
        PayloadModel::BufferQueue { capacity, .. } => capacity,
        _ => 0,
    }
}

/// Whether end of data has been marked on the queue in slot `id`.
pub open spec fn queue_eod(s: StoreModel, id: int) -> bool {
    match s.payload(id) {
        PayloadModel::BufferQueue { end_of_data, .. } => end_of_data,
        _ => false,
    }
}

/// The triggers installed on the queue in slot `id`.
pub open spec fn queue_triggers(s: StoreModel, id: int) -> Seq<TriggerModel> {
    match s.payload(id) {
        PayloadModel::BufferQueue { triggers, .. } => triggers,
        _ => Seq::empty(),
    }
}

/// The token the next installed trigger on the queue in slot `id` will get.
pub open spec fn queue_next_token(s: StoreModel, id: int) -> u64 {
    match s.payload(id) {
        PayloadModel::BufferQueue { next_token, .. } => next_token,
        _ => 0,
    }
}

/// Whether the object in slot `bid` is something a buffer queue accepts: a
/// media buffer — a memory block or a sample buffer — or a format
/// description, never a queue, clock or timebase.
pub open spec fn is_queueable(s: StoreModel, bid: int) -> bool {
    s.tag_of(bid) == kCMBlockBufferTypeID || s.tag_of(bid) == kCMSampleBufferTypeID || s.tag_of(
        bid,
    ) == kCMFormatDescriptionTypeID
}

/// The status an enqueue against the queue in `qid` of the buffer in `bid`
/// reports: nothing may be enqueued after end of data, a bounded queue
/// refuses buffers when full, and only media buffer objects are accepted.
pub open spec fn enqueue_status(s: StoreModel, qid: int, bid: int) -> OSStatus {
    if queue_eod(s, qid) {
        kCMBufferQueueError_EnqueueAfterEndOfData
    } else if queue_capacity(s, qid) != 0 && queue_items(s, qid).len() >= queue_capacity(
        s,
        qid,
    ) {
        kCMBufferQueueError_QueueIsFull
    } else if !is_queueable(s, bid) {
        kCMBufferQueueError_InvalidBuffer
    } else {
        0
    }
}

/// The position of the first trigger with the given token, or -1 when none
/// carries it.
pub open spec fn find_trigger(triggers: Seq<TriggerModel>, token: u64) -> int
    decreases triggers.len(),
{
    if triggers.len() == 0 {
        -1
    } else if triggers[0].token == token {
        0
    } else {
        let r = find_trigger(triggers.drop_first(), token);
        if r == -1 {
            -1
        } else {
            r + 1
        }
    }
}

/// Whether a trigger's condition holds of a queue holding `count` buffers.
/// Only the two integer-threshold conditions are meaningful here; any other
/// condition never reports true.
pub open spec fn trigger_fires(t: TriggerModel, count: int) -> bool {
    if t.condition == kCMBufferQueueTrigger_WhenBufferCountBecomesLessThan {
        count < t.threshold
    } else if t.condition == kCMBufferQueueTrigger_WhenBufferCountBecomesGreaterThan {
        count > t.threshold
    } else {
        false
    }
}

/// When no trigger among the first `i` carries the token, the search outcome
/// is decided by the rest: a match at `i` is the first match, and no match at
/// all means the token is absent.
proof fn lemma_find_trigger(triggers: Seq<TriggerModel>, token: u64, i: int)
    requires
        0 <= i <= triggers.len(),
        forall|j: int| 0 <= j < i ==> triggers[j].token != token,
    ensures
        i < triggers.len() && triggers[i].token == token ==> find_trigger(triggers, token) == i,
        i == triggers.len() ==> find_trigger(triggers, token) == -1,
    decreases triggers.len(),
{
    if triggers.len() > 0 && i > 0 {
        lemma_find_trigger(triggers.drop_first(), token, i - 1);
    }
}

/// A handle to one buffer queue object.
pub struct CMBufferQueue {
    pub id: usize,
}

impl CMAttachmentBearerSubClass for CMBufferQueue {
    open spec fn bearer_id(&self) -> int {
        self.id as int
    }

    open spec fn subtype_tag() -> CFTypeID {
        kCMBufferQueueTypeID
    }

    fn type_id() -> CFTypeID {
        kCMBufferQueueTypeID
    }

    fn as_CMAttachmentBearer(&self, store: &mut Store) -> CMAttachmentBearer {
        CMAttachmentBearer::wrap_under_get_rule(store, self.id)
    }

    fn into_CMAttachmentBearer(self) -> CMAttachmentBearer {
        CMAttachmentBearer { id: self.id }
    }
}

impl CMBufferQueue {
    /// Well-formed against a store: live and holding a buffer queue.
    pub open spec fn wf(&self, s: StoreModel) -> bool {
        s.live(self.id as int) && s.payload(self.id as int) is BufferQueue
    }

    /// Construct an empty FIFO queue under the create rule. `capacity` bounds
    /// how many buffers the queue will hold at once; zero means no bound.
    /// Fails only with a forced status, surfaced verbatim.
    pub fn new(store: &mut Store, capacity: CMItemCount) -> (r: Result<CMBufferQueue, OSStatus>)
        requires
            old(store)@.slots.len() < usize::MAX,
        ensures
            match r {
                Ok(q) => old(store)@.forced_status == 0 && q.id == old(store)@.slots.len() && final(store)@ == old(store)@.allocate(
                    PayloadModel::BufferQueue {
                        items: Seq::empty(),
                        capacity: capacity,
                        end_of_data: false,
                        triggers: Seq::empty(),
                        next_token: 1,
                    },
                ) && q.wf(final(store)@),
                Err(e) => e == old(store)@.forced_status && e != 0 && final(store)@.slots == old(
                    store,
                )@.slots && final(store)@.forced_status == 0,
            },
    {
        let forced = store.take_forced();
        if forced != 0 {
            return Err(forced);
        }
        let id = store.allocate(
            Payload::BufferQueue {
                items: Vec::new(),
                capacity,
                end_of_data: false,
                triggers: Vec::new(),
                next_token: 1,
            },
        );
        proof {
            assert(Seq::<Trigger>::empty().map_values(|t: Trigger| t@) =~= Seq::<
                TriggerModel,
            >::empty());
        }
        Ok(CMBufferQueue { id })
    }

    /// Enqueue a buffer at the tail. The queue takes one reference of its own
    /// on the buffer (the caller's handle is untouched). Enqueuing after end
    /// of data, onto a full bounded queue, or of an object that is itself a
    /// queue each fail with their own code, changing nothing.
    pub fn enqueue(&self, store: &mut Store, buf: &CMAttachmentBearer) -> (r: Result<
        (),
        OSStatus,
    >)
        requires
            self.wf(old(store)@),
            old(store)@.live(buf.id as int),
            old(store)@.refs(buf.id as int) < usize::MAX,
        ensures
            match r {
                Ok(()) => enqueue_status(old(store)@, self.id as int, buf.id as int) == 0 && final(store)@ == old(store)@.retain(buf.id as int).with_slot(
                    self.id as int,
                    SlotModel {
                        refs: old(store)@.refs(self.id as int),
                        payload: PayloadModel::BufferQueue {
                            items: queue_items(old(store)@, self.id as int).push(buf.id),
                            capacity: queue_capacity(old(store)@, self.id as int),
                            end_of_data: false,
                            triggers: queue_triggers(old(store)@, self.id as int),
                            next_token: queue_next_token(old(store)@, self.id as int),
                        },
                    },
                ) && self.wf(final(store)@),
                Err(e) => e != 0 && e == enqueue_status(old(store)@, self.id as int, buf.id as int)
                    && final(store)@ == old(store)@,
            },
    {
        let qtag = store.tag(buf.id);
        let queueable = qtag == kCMBlockBufferTypeID || qtag == kCMSampleBufferTypeID || qtag
            == kCMFormatDescriptionTypeID;
        let payload = store.take_payload(self.id);
        match payload {
            Payload::BufferQueue { mut items, capacity, end_of_data, triggers, next_token } => {
                if end_of_data {
                    store.put_payload(
                        self.id,
                        Payload::BufferQueue { items, capacity, end_of_data, triggers, next_token },
                    );
                    proof {
                        assert(store@.slots =~= old(store)@.slots);
                        assert(store@ == old(store)@);
                    }
                    return Err(kCMBufferQueueError_EnqueueAfterEndOfData);
                }
                if capacity != 0 && items.len() >= capacity {
                    store.put_payload(
                        self.id,
                        Payload::BufferQueue { items, capacity, end_of_data, triggers, next_token },
                    );
                    proof {
                        assert(store@.slots =~= old(store)@.slots);
                        assert(store@ == old(store)@);
                    }
                    return Err(kCMBufferQueueError_QueueIsFull);
                }
                if !queueable {
                    store.put_payload(
                        self.id,
                        Payload::BufferQueue { items, capacity, end_of_data, triggers, next_token },
                    );
                    proof {
                        assert(store@.slots =~= old(store)@.slots);
                        assert(store@ == old(store)@);
                    }
                    return Err(kCMBufferQueueError_InvalidBuffer);
                }
                items.push(buf.id);
                store.put_payload(
                    self.id,
                    Payload::BufferQueue { items, capacity, end_of_data, triggers, next_token },
                );
                store.retain_ref(buf.id);
                proof {
                    assert(store@.slots =~= old(store)@.retain(buf.id as int).with_slot(
                        self.id as int,
                        SlotModel {
                            refs: old(store)@.refs(self.id as int),
                            payload: store@.payload(self.id as int),
                        },
                    ).slots);
                }
                Ok(())
            },
            p => {
                proof {
                    assert(false);
                }
                store.put_payload(self.id, p);
                Err(kCMBufferQueueError_RequiredParameterMissing)
            },
        }
    }

    /// Dequeue the head buffer. The queue's own reference on it moves to the
    /// returned handle, so the overall count of that buffer is unchanged. An
    /// empty queue yields the absent result and changes nothing.
    pub fn dequeue_and_retain(&self, store: &mut Store) -> (r: Option<CMAttachmentBearer>)
        requires
            self.wf(old(store)@),
        ensures
            queue_items(old(store)@, self.id as int).len() == 0 ==> r is None && final(store)@
                == old(store)@,
            queue_items(old(store)@, self.id as int).len() > 0 ==> r == Some(
                (CMAttachmentBearer { id: queue_items(old(store)@, self.id as int)[0] }),
            ) && final(store)@ == old(store)@.with_slot(
                self.id as int,
                SlotModel {
                    refs: old(store)@.refs(self.id as int),
                    payload: PayloadModel::BufferQueue {
                        items: queue_items(old(store)@, self.id as int).drop_first(),
                        capacity: queue_capacity(old(store)@, self.id as int),
                        end_of_data: queue_eod(old(store)@, self.id as int),
                        triggers: queue_triggers(old(store)@, self.id as int),
                        next_token: queue_next_token(old(store)@, self.id as int),
                    },
                },
            ) && self.wf(final(store)@),
    {
        let payload = store.take_payload(self.id);
        match payload {
            Payload::BufferQueue { mut items, capacity, end_of_data, triggers, next_token } => {
                if items.len() == 0 {
                    store.put_payload(
                        self.id,
                        Payload::BufferQueue { items, capacity, end_of_data, triggers, next_token },
                    );
                    proof {
                        assert(store@.slots =~= old(store)@.slots);
                        assert(store@ == old(store)@);
                    }
                    return None;
                }
                let head = items.remove(0);
                proof {
                    assert(items@ =~= queue_items(old(store)@, self.id as int).drop_first());
                }
                store.put_payload(
                    self.id,
                    Payload::BufferQueue { items, capacity, end_of_data, triggers, next_token },
                );
                proof {
                    assert(store@.slots =~= old(store)@.slots.update(
                        self.id as int,
                        SlotModel {
                            refs: old(store)@.refs(self.id as int),
                            payload: store@.payload(self.id as int),
                        },
                    ));
                }
                Some(CMAttachmentBearer { id: head })
            },
            p => {
                proof {
                    assert(false);
                }
                store.put_payload(self.id, p);
                None
            },
        }
    }

    /// A retained handle to the head buffer without dequeuing it (the get
    /// rule: one reference is taken on the head). An empty queue yields the
    /// absent result and changes nothing.
    pub fn get_head(&self, store: &mut Store) -> (r: Option<CMAttachmentBearer>)
        requires
            self.wf(old(store)@),
            queue_items(old(store)@, self.id as int).len() > 0 ==> old(store)@.live(
                queue_items(old(store)@, self.id as int)[0] as int,
            ) && old(store)@.refs(queue_items(old(store)@, self.id as int)[0] as int)
                < usize::MAX,
        ensures
            queue_items(old(store)@, self.id as int).len() == 0 ==> r is None && final(store)@
                == old(store)@,
            queue_items(old(store)@, self.id as int).len() > 0 ==> r == Some(
                (CMAttachmentBearer { id: queue_items(old(store)@, self.id as int)[0] }),
            ) && final(store)@ == old(store)@.retain(
                queue_items(old(store)@, self.id as int)[0] as int,
            ),
    {
        let head = match store.payload_at(self.id) {
            Payload::BufferQueue { items, .. } => {
                if items.len() == 0 {
                    return None;
                }
                items[0]
            },
            _ => {
                proof {
                    assert(false);
                }
                0
            },
        };
        Some(CMAttachmentBearer::wrap_under_get_rule(store, head))
    }

    /// A retained handle to the head buffer, under the create rule: the
    /// returned handle owns the reference this call takes. Behaviorally the
    /// same as [`CMBufferQueue::get_head`].
    pub fn copy_head(&self, store: &mut Store) -> (r: Option<CMAttachmentBearer>)
        requires
            self.wf(old(store)@),
            queue_items(old(store)@, self.id as int).len() > 0 ==> old(store)@.live(
                queue_items(old(store)@, self.id as int)[0] as int,
            ) && old(store)@.refs(queue_items(old(store)@, self.id as int)[0] as int)
                < usize::MAX,
        ensures
            queue_items(old(store)@, self.id as int).len() == 0 ==> r is None && final(store)@
                == old(store)@,
            queue_items(old(store)@, self.id as int).len() > 0 ==> r == Some(
                (CMAttachmentBearer { id: queue_items(old(store)@, self.id as int)[0] }),
            ) && final(store)@ == old(store)@.retain(
                queue_items(old(store)@, self.id as int)[0] as int,
            ),
    {
        self.get_head(store)
    }

    /// Whether the queue holds no buffers.
    pub fn is_empty(&self, store: &Store) -> (r: bool)
        requires
            self.wf(store@),
        ensures
            r == (queue_items(store@, self.id as int).len() == 0),
    {
        match store.payload_at(self.id) {
            Payload::BufferQueue { items, .. } => items.len() == 0,
            _ => {
                proof {
                    assert(false);
                }
                true
            },
        }
    }

    /// The number of buffers currently held.
    pub fn get_buffer_count(&self, store: &Store) -> (r: CMItemCount)
        requires
            self.wf(store@),
        ensures
            r == queue_items(store@, self.id as int).len(),
    {
        match store.payload_at(self.id) {
            Payload::BufferQueue { items, .. } => items.len(),
            _ => {
                proof {
                    assert(false);
                }
                0
            },
        }
    }

    /// Mark end of data: later enqueues are refused until the queue is reset.
    pub fn mark_end_of_data(&self, store: &mut Store) -> (r: Result<(), OSStatus>)
        requires
            self.wf(old(store)@),
        ensures
            r is Ok,
            final(store)@ == old(store)@.with_slot(
                self.id as int,
                SlotModel {
                    refs: old(store)@.refs(self.id as int),
                    payload: PayloadModel::BufferQueue {
                        items: queue_items(old(store)@, self.id as int),
                        capacity: queue_capacity(old(store)@, self.id as int),
                        end_of_data: true,
                        triggers: queue_triggers(old(store)@, self.id as int),
                        next_token: queue_next_token(old(store)@, self.id as int),
                    },
                },
            ),
            self.wf(final(store)@),
    {
        let payload = store.take_payload(self.id);
        match payload {
            Payload::BufferQueue { items, capacity, triggers, next_token, .. } => {
                store.put_payload(
                    self.id,
                    Payload::BufferQueue {
                        items,
                        capacity,
                        end_of_data: true,
                        triggers,
                        next_token,
                    },
                );
                proof {
                    assert(store@.slots =~= old(store)@.slots.update(
                        self.id as int,
                        SlotModel {
                            refs: old(store)@.refs(self.id as int),
                            payload: store@.payload(self.id as int),
                        },
                    ));
                }
                Ok(())
            },
            p => {
                proof {
                    assert(false);
                }
                store.put_payload(self.id, p);
                Err(kCMBufferQueueError_RequiredParameterMissing)
            },
        }
    }

    /// Whether end of data has been marked.
    pub fn contains_end_of_data(&self, store: &Store) -> (r: bool)
        requires
            self.wf(store@),
        ensures
            r == queue_eod(store@, self.id as int),
    {
        match store.payload_at(self.id) {
            Payload::BufferQueue { end_of_data, .. } => *end_of_data,
            _ => {
                proof {
                    assert(false);
                }
                false
            },
        }
    }

    /// Whether end of data has been marked and every buffer dequeued.
    pub fn is_at_end_of_data(&self, store: &Store) -> (r: bool)
        requires
            self.wf(store@),
        ensures
            r == (queue_eod(store@, self.id as int) && queue_items(store@, self.id as int).len()
                == 0),
    {
        match store.payload_at(self.id) {
            Payload::BufferQueue { items, end_of_data, .. } => *end_of_data && items.len() == 0,
            _ => {
                proof {
                    assert(false);
                }
                false
            },
        }
    }

    /// Reset the queue: every held buffer is removed and the queue's
    /// reference on it released, in queue order, and the end-of-data mark is
    /// cleared. Installed triggers stay installed.
    pub fn reset(&self, store: &mut Store) -> (r: Result<(), OSStatus>)
        requires
            self.wf(old(store)@),
        ensures
            r is Ok,
            final(store)@ == old(store)@.with_slot(
                self.id as int,
                SlotModel {
                    refs: old(store)@.refs(self.id as int),
                    payload: PayloadModel::BufferQueue {
                        items: Seq::empty(),
                        capacity: queue_capacity(old(store)@, self.id as int),
                        end_of_data: false,
                        triggers: queue_triggers(old(store)@, self.id as int),
                        next_token: queue_next_token(old(store)@, self.id as int),
                    },
                },
            ).dec_items(queue_items(old(store)@, self.id as int)),
    {
        let payload = store.take_payload(self.id);
        match payload {
            Payload::BufferQueue { items, capacity, triggers, next_token, .. } => {
                store.put_payload(
                    self.id,
                    Payload::BufferQueue {
                        items: Vec::new(),
                        capacity,
                        end_of_data: false,
                        triggers,
                        next_token,
                    },
                );
                let ghost emptied = store@;
                proof {
                    assert(emptied.slots =~= old(store)@.with_slot(
                        self.id as int,
                        SlotModel {
                            refs: old(store)@.refs(self.id as int),
                            payload: PayloadModel::BufferQueue {
                                items: Seq::empty(),
                                capacity: queue_capacity(old(store)@, self.id as int),
                                end_of_data: false,
                                triggers: queue_triggers(old(store)@, self.id as int),
                                next_token: queue_next_token(old(store)@, self.id as int),
                            },
                        },
                    ).slots);
                    assert(items@.skip(0) =~= items@);
                }
                let mut i: usize = 0;
                while i < items.len()
                    invariant
                        i <= items@.len(),
                        emptied.dec_items(items@) == store@.dec_items(items@.skip(i as int)),
                    decreases items@.len() - i,
                {
                    proof {
                        assert(items@.skip(i as int)[0] == items@[i as int]);
                        assert(items@.skip(i as int).drop_first() =~= items@.skip(i as int + 1));
                    }
                    store.dec_ref_member(items[i]);
                    i = i + 1;
                }
                proof {
                    assert(items@.skip(items@.len() as int) =~= Seq::<usize>::empty());
                }
                Ok(())
            },
            p => {
                proof {
                    assert(false);
                }
                store.put_payload(self.id, p);
                Err(kCMBufferQueueError_RequiredParameterMissing)
            },
        }
    }

    /// Install a trigger watching the buffer count against `threshold`. Only
    /// the two integer-threshold conditions are accepted; any other condition
    /// is refused with the invalid-condition code. The returned token
    /// identifies the trigger until it is removed.
    pub fn install_trigger_with_integer_threshold(
        &self,
        store: &mut Store,
        condition: CMBufferQueueTriggerCondition,
        threshold: CMItemCount,
    ) -> (r: Result<CMBufferQueueTriggerToken, OSStatus>)
        requires
            self.wf(old(store)@),
            queue_next_token(old(store)@, self.id as int) < u64::MAX,
        ensures
            match r {
                Ok(token) => (condition == kCMBufferQueueTrigger_WhenBufferCountBecomesLessThan
                    || condition == kCMBufferQueueTrigger_WhenBufferCountBecomesGreaterThan)
                    && token == queue_next_token(old(store)@, self.id as int) && final(store)@
                    == old(store)@.with_slot(
                    self.id as int,
                    SlotModel {
                        refs: old(store)@.refs(self.id as int),
                        payload: PayloadModel::BufferQueue {
                            items: queue_items(old(store)@, self.id as int),
                            capacity: queue_capacity(old(store)@, self.id as int),
                            end_of_data: queue_eod(old(store)@, self.id as int),
                            triggers: queue_triggers(old(store)@, self.id as int).push(
                                TriggerModel { token, condition, threshold },
                            ),
                            next_token: (queue_next_token(old(store)@, self.id as int) + 1) as u64,
                        },
                    },
                ) && self.wf(final(store)@),
                Err(e) => e == kCMBufferQueueError_InvalidTriggerCondition && condition
                    != kCMBufferQueueTrigger_WhenBufferCountBecomesLessThan && condition
                    != kCMBufferQueueTrigger_WhenBufferCountBecomesGreaterThan && final(store)@
                    == old(store)@,
            },
    {
        if condition != kCMBufferQueueTrigger_WhenBufferCountBecomesLessThan && condition
            != kCMBufferQueueTrigger_WhenBufferCountBecomesGreaterThan {
            return Err(kCMBufferQueueError_InvalidTriggerCondition);
        }
        let payload = store.take_payload(self.id);
        match payload {
            Payload::BufferQueue { items, capacity, end_of_data, mut triggers, next_token } => {
                let token = next_token;
                triggers.push(Trigger { token, condition, threshold });
                let ghost new_triggers = triggers@;
                store.put_payload(
                    self.id,
                    Payload::BufferQueue {
                        items,
                        capacity,
                        end_of_data,
                        triggers,
                        next_token: next_token + 1,
                    },
                );
                proof {
                    assert(new_triggers.map_values(|t: Trigger| t@) =~= queue_triggers(
                        old(store)@,
                        self.id as int,
                    ).push(TriggerModel { token, condition, threshold }));
                    assert(store@.slots =~= old(store)@.slots.update(
                        self.id as int,
                        SlotModel {
                            refs: old(store)@.refs(self.id as int),
                            payload: store@.payload(self.id as int),
                        },
                    ));
                }
                Ok(token)
            },
            p => {
                proof {
                    assert(false);
                }
                store.put_payload(self.id, p);
                Err(kCMBufferQueueError_RequiredParameterMissing)
            },
        }
    }

    /// Remove the trigger carrying `token`. A token no trigger carries — one
    /// never issued, or already removed — is refused with the invalid-token
    /// code.
    #[verifier::loop_isolation(false)]
    pub fn remove_trigger(&self, store: &mut Store, token: CMBufferQueueTriggerToken) -> (r:
        Result<(), OSStatus>)
        requires
            self.wf(old(store)@),
        ensures
            match r {
                Ok(()) => find_trigger(queue_triggers(old(store)@, self.id as int), token) >= 0
                    && final(store)@ == old(store)@.with_slot(
                    self.id as int,
                    SlotModel {
                        refs: old(store)@.refs(self.id as int),
                        payload: PayloadModel::BufferQueue {
                            items: queue_items(old(store)@, self.id as int),
                            capacity: queue_capacity(old(store)@, self.id as int),
                            end_of_data: queue_eod(old(store)@, self.id as int),
                            triggers: queue_triggers(old(store)@, self.id as int).remove(
                                find_trigger(queue_triggers(old(store)@, self.id as int), token),
                            ),
                            next_token: queue_next_token(old(store)@, self.id as int),
                        },
                    },
                ) && self.wf(final(store)@),
                Err(e) => e == kCMBufferQueueError_InvalidTriggerToken && find_trigger(
                    queue_triggers(old(store)@, self.id as int),
                    token,
                ) == -1 && final(store)@ == old(store)@,
            },
    {
        let payload = store.take_payload(self.id);
        match payload {
            Payload::BufferQueue { items, capacity, end_of_data, mut triggers, next_token } => {
                let ghost triggers0 = triggers@.map_values(|t: Trigger| t@);
                let n = triggers.len();
                let mut i: usize = 0;
                while i < n
                    invariant
                        i <= n,
                        n == triggers@.len(),
                        triggers0 == triggers@.map_values(|t: Trigger| t@),
                        forall|j: int| 0 <= j < i ==> triggers0[j].token != token,
                        store@ == old(store)@.with_slot(
                            self.id as int,
                            SlotModel {
                                refs: old(store)@.refs(self.id as int),
                                payload: PayloadModel::Free,
                            },
                        ),
                    decreases n - i,
                {
                    if triggers[i].token == token {
                        proof {
                            lemma_find_trigger(triggers0, token, i as int);
                        }
                        triggers.remove(i);
                        let ghost new_triggers = triggers@;
                        store.put_payload(
                            self.id,
                            Payload::BufferQueue {
                                items,
                                capacity,
                                end_of_data,
                                triggers,
                                next_token,
                            },
                        );
                        proof {
                            assert(new_triggers.map_values(|t: Trigger| t@) =~= triggers0.remove(
                                i as int,
                            ));
                            assert(store@.slots =~= old(store)@.slots.update(
                                self.id as int,
                                SlotModel {
                                    refs: old(store)@.refs(self.id as int),
                                    payload: store@.payload(self.id as int),
                                },
                            ));
                        }
                        return Ok(());
                    }
                    i = i + 1;
                }
                proof {
                    lemma_find_trigger(triggers0, token, n as int);
                }
                store.put_payload(
                    self.id,
                    Payload::BufferQueue { items, capacity, end_of_data, triggers, next_token },
                );
                proof {
                    assert(store@.slots =~= old(store)@.slots);
                    assert(store@ == old(store)@);
                }
                Err(kCMBufferQueueError_InvalidTriggerToken)
            },
            p => {
                proof {
                    assert(false);
                }
                store.put_payload(self.id, p);
                Err(kCMBufferQueueError_RequiredParameterMissing)
            },
        }
    }

    /// Whether the trigger carrying `token` is installed and its condition
    /// holds of the queue's current buffer count. A token no trigger carries
    /// reports false.
    #[verifier::loop_isolation(false)]
    pub fn test_trigger(&self, store: &Store, token: CMBufferQueueTriggerToken) -> (r: bool)
        requires
            self.wf(store@),
        ensures
            r == ({
                let triggers = queue_triggers(store@, self.id as int);
                let k = find_trigger(triggers, token);
                k >= 0 && trigger_fires(
                    triggers[k],
                    queue_items(store@, self.id as int).len() as int,
                )
            }),
    {
        match store.payload_at(self.id) {
            Payload::BufferQueue { items, triggers, .. } => {
                let ghost triggers0 = triggers@.map_values(|t: Trigger| t@);
                let count = items.len();
                let n = triggers.len();
                let mut i: usize = 0;
                while i < n
                    invariant
                        i <= n,
                        n == triggers@.len(),
                        count == items@.len(),
                        triggers0 == triggers@.map_values(|t: Trigger| t@),
                        forall|j: int| 0 <= j < i ==> triggers0[j].token != token,
                    decreases n - i,
                {
                    if triggers[i].token == token {
                        proof {
                            lemma_find_trigger(triggers0, token, i as int);
                            assert(triggers0[i as int] == triggers@[i as int]@);
                        }
                        let t = &triggers[i];
                        if t.condition == kCMBufferQueueTrigger_WhenBufferCountBecomesLessThan {
                            return count < t.threshold;
                        }
                        if t.condition == kCMBufferQueueTrigger_WhenBufferCountBecomesGreaterThan {
                            return count > t.threshold;
                        }
                        return false;
                    }
                    i = i + 1;
                }
                proof {
                    lemma_find_trigger(triggers0, token, n as int);
                }
                false
            },
            _ => {
                proof {
                    assert(false);
                }
                false
            },
        }
    }

    /// Release the handle's one reference. When this was the last reference,
    /// the queue is freed and the references it holds on its buffers are
    /// released as well.
    pub fn release(self, store: &mut Store)
        requires
            old(store)@.live(self.id as int),
        ensures
            final(store)@ == old(store)@.release(self.id as int),
    {
        store.release_ref(self.id);
    }
}

} // verus!
