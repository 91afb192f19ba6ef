//! Broadcast hub: fans change records out to subscribers.
//!
//! Per event the hub keeps a set of subscriber queues.  Publishing a
//! record appends it to every live queue of that event; a queue already
//! at the backlog bound marks its subscriber dropped instead, so one
//! slow viewer never blocks delivery to the others and never holds more
//! than the bound.  Draining hands a subscriber its queued records in
//! publish order and empties the queue.

use vstd::prelude::*;

use crate::errors::ApiError;
use crate::record::ChangeRecord;

verus! {

/// One connected viewer's pending deliveries.
pub struct Subscriber {
    /// Unique handle of this subscription.
    pub id: u64,
    /// The event (by creation counter) this subscriber watches.
    pub event_key: u64,
    /// Undrained records, oldest first; never longer than the bound.
    pub queue: Vec<ChangeRecord>,
    /// Disconnected by backpressure; receives nothing further.
    pub dropped: bool,
}

/// The fan-out state for all events.
pub struct Hub {
    /// Every subscription, across all events.
    pub subs: Vec<Subscriber>,
    /// How many undrained records a subscriber may hold.
    pub backlog_bound: usize,
    /// The id the next subscription will get; above every live id.
    pub next_id: u64,
}

impl Hub {
    /// Internal consistency: unique ids below `next_id`, queues within
    /// the bound.
    pub open spec fn wf(&self) -> bool {
        &&& forall|i: int|
            0 <= i < self.subs@.len() ==> (#[trigger] self.subs@[i]).queue@.len()
                <= self.backlog_bound
        &&& forall|i: int|
            0 <= i < self.subs@.len() ==> (#[trigger] self.subs@[i]).id < self.next_id
        &&& forall|i: int, j: int|
            0 <= i < self.subs@.len() && 0 <= j < self.subs@.len() && i != j ==> (
            #[trigger] self.subs@[i]).id != (#[trigger] self.subs@[j]).id
    }

    /// Whether some subscription carries this id.
    pub open spec fn has_subscriber(&self, id: u64) -> bool {
        exists|i: int| 0 <= i < self.subs@.len() && (#[trigger] self.subs@[i]).id == id
    }

    /// An empty hub with the given backlog bound.
    pub fn new(backlog_bound: usize) -> (h: Hub)
        ensures
            h.wf(),
            h.subs@.len() == 0,
            h.backlog_bound == backlog_bound,
    {
        Hub { subs: Vec::new(), backlog_bound, next_id: 0 }
    }

    /// Enrols a new subscriber on one event with an empty queue and a
    /// fresh id.
    pub fn subscribe(&mut self, event_key: u64) -> (r: Result<u64, ApiError>)
        requires
            old(self).wf(),
        ensures
            final(self).wf(),
            r is Err ==> *final(self) == *old(self) && r == Err::<u64, ApiError>(
                ApiError::Capacity,
            ),
            r is Ok <==> old(self).next_id < u64::MAX,
            r matches Ok(id) ==> {
                &&& id == old(self).next_id
                &&& final(self).next_id == old(self).next_id + 1
                &&& final(self).backlog_bound == old(self).backlog_bound
                &&& final(self).subs@.len() == old(self).subs@.len() + 1
                &&& final(self).subs@.take(old(self).subs@.len() as int) == old(self).subs@
                &&& {
                    let s = final(self).subs@.last();
                    &&& s.id == id
                    &&& s.event_key == event_key
                    &&& s.queue@.len() == 0
                    &&& !s.dropped
                }
            },
    {
        if self.next_id == u64::MAX {
            return Err(ApiError::Capacity);
        }
        let id = self.next_id;
        self.next_id = id + 1;
        self.subs.push(Subscriber { id, event_key, queue: Vec::new(), dropped: false });
        proof {
            assert(final(self).subs@.take(old(self).subs@.len() as int) =~= old(self).subs@);
        }
        Ok(id)
    }

    /// Where a subscriber id stands, if anywhere.
    pub fn find_subscriber(&self, id: u64) -> (r: Option<usize>)
        ensures
            match r {
                Some(k) => 0 <= k < self.subs@.len() && self.subs@[k as int].id == id,
                None => !self.has_subscriber(id),
            },
    {
        let mut k: usize = 0;
        while k < self.subs.len()
            invariant
                k <= self.subs@.len(),
                forall|j: int| 0 <= j < k ==> (#[trigger] self.subs@[j]).id != id,
            decreases self.subs@.len() - k,
        {
            if self.subs[k].id == id {
                return Some(k);
            }
            k = k + 1;
        }
        None
    }
}

/// How one publish step treats one subscriber: records for another
/// event or for a dropped subscriber pass it by; a live queue below the
/// bound grows by the record; a full one costs the subscriber its
/// subscription instead of blocking anyone.  `s1` is the subscriber
/// after the step, `s0` before.
pub open spec fn deliver_one(s0: Subscriber, s1: Subscriber, event_key: u64, record: ChangeRecord, bound: int) -> bool {
    &&& s1.id == s0.id
    &&& s1.event_key == s0.event_key
    &&& if s0.event_key != event_key || s0.dropped {
        s1 == s0
    } else if s0.queue@.len() < bound {
        s1.queue@ == s0.queue@.push(record) && s1.dropped == s0.dropped
    } else {
        s1.queue@ == s0.queue@ && s1.dropped
    }
}

/// How one publish rewrites the whole hub: every subscriber treated
/// independently per `deliver_one`, nothing else moved.
pub open spec fn hub_broadcast(h0: Hub, h1: Hub, event_key: u64, record: ChangeRecord) -> bool {
    &&& h1.subs@.len() == h0.subs@.len()
    &&& h1.backlog_bound == h0.backlog_bound
    &&& h1.next_id == h0.next_id
    &&& forall|i: int|
        0 <= i < h0.subs@.len() ==> deliver_one(
            #[trigger] h0.subs@[i],
            h1.subs@[i],
            event_key,
            record,
            h0.backlog_bound as int,
        )
}

impl Hub {
    /// Delivers one record to every live subscriber of the event,
    /// each treated independently per `deliver_one`.
    pub fn publish(&mut self, event_key: u64, record: ChangeRecord)
        requires
            old(self).wf(),
        ensures
            final(self).wf(),
            hub_broadcast(*old(self), *final(self), event_key, record),
    {
        let bound = self.backlog_bound;
        let ghost subs0 = self.subs@;
        let ghost next0 = self.next_id;
        let mut i: usize = 0;
        while i < self.subs.len()
            invariant
                i <= self.subs@.len(),
                self.subs@.len() == subs0.len(),
                self.backlog_bound == bound,
                self.next_id == next0,
                forall|j: int|
                    0 <= j < i ==> deliver_one(
                        #[trigger] subs0[j],
                        self.subs@[j],
                        event_key,
                        record,
                        bound as int,
                    ),
                forall|j: int| i <= j < subs0.len() ==> self.subs@[j] == #[trigger] subs0[j],
            decreases self.subs@.len() - i,
        {
            let s = &mut self.subs[i];
            if s.event_key == event_key && !s.dropped {
                if s.queue.len() < bound {
                    s.queue.push(record);
                } else {
                    s.dropped = true;
                }
            }
            i = i + 1;
        }
        proof {
            assert forall|a: int| 0 <= a < self.subs@.len() implies (
            #[trigger] self.subs@[a]).queue@.len() <= self.backlog_bound && self.subs@[a].id
                < self.next_id by {
                assert(deliver_one(subs0[a], self.subs@[a], event_key, record, bound as int));
            }
            assert forall|a: int, b: int|
                0 <= a < self.subs@.len() && 0 <= b < self.subs@.len() && a != b implies (
            #[trigger] self.subs@[a]).id != (#[trigger] self.subs@[b]).id by {
                assert(deliver_one(subs0[a], self.subs@[a], event_key, record, bound as int));
                assert(deliver_one(subs0[b], self.subs@[b], event_key, record, bound as int));
            }
        }
    }

    /// Hands a subscriber its queued records, oldest first, and empties
    /// the queue.  Unknown ids get nothing.
    pub fn drain(&mut self, id: u64) -> (r: Option<Vec<ChangeRecord>>)
        requires
            old(self).wf(),
        ensures
            final(self).wf(),
            r is None ==> *final(self) == *old(self) && !old(self).has_subscriber(id),
            r matches Some(records) ==> exists|k: int|
                {
                    &&& 0 <= k < old(self).subs@.len()
                    &&& (#[trigger] old(self).subs@[k]).id == id
                    &&& records@ == old(self).subs@[k].queue@
                    &&& final(self).subs@.len() == old(self).subs@.len()
                    &&& final(self).subs@[k].queue@.len() == 0
                    &&& final(self).subs@[k].id == old(self).subs@[k].id
                    &&& final(self).subs@[k].event_key == old(self).subs@[k].event_key
                    &&& final(self).subs@[k].dropped == old(self).subs@[k].dropped
                    &&& forall|j: int|
                        0 <= j < old(self).subs@.len() && j != k ==> final(self).subs@[j]
                            == #[trigger] old(self).subs@[j]
                },
            r is Some ==> final(self).backlog_bound == old(self).backlog_bound,
            r is Some ==> final(self).next_id == old(self).next_id,
    {
        let k = match self.find_subscriber(id) {
            None => {
                return None;
            },
            Some(k) => k,
        };
        let s = &mut self.subs[k];
        let ghost q0 = s.queue@;
        let mut records: Vec<ChangeRecord> = Vec::new();
        let mut m: usize = 0;
        while m < s.queue.len()
            invariant
                s.queue@ == q0,
                m <= q0.len(),
                records@ == q0.take(m as int),
            decreases q0.len() - m,
        {
            records.push(s.queue[m]);
            proof {
                assert(q0.take(m as int + 1) =~= q0.take(m as int).push(q0[m as int]));
            }
            m = m + 1;
        }
        s.queue.clear();
        proof {
            assert(records@ =~= q0);
        }
        Some(records)
    }

    /// Whether the hub has disconnected this subscriber for backpressure.
    pub fn is_dropped(&self, id: u64) -> (r: bool)
        requires
            self.wf(),
        ensures
            r == exists|k: int|
                0 <= k < self.subs@.len() && (#[trigger] self.subs@[k]).id == id
                    && self.subs@[k].dropped,
    {
        match self.find_subscriber(id) {
            None => false,
            Some(k) => {
                proof {
                    assert forall|j: int|
                        0 <= j < self.subs@.len() && (#[trigger] self.subs@[j]).id
                            == id implies j == k as int by {}
                }
                self.subs[k].dropped
            },
        }
    }

    /// Removes a subscription; its queue goes with it.
    pub fn unsubscribe(&mut self, id: u64) -> (found: bool)
        requires
            old(self).wf(),
        ensures
            final(self).wf(),
            found <==> old(self).has_subscriber(id),
            !found ==> *final(self) == *old(self),
            found ==> exists|k: int|
                {
                    &&& 0 <= k < old(self).subs@.len()
                    &&& (#[trigger] old(self).subs@[k]).id == id
                    &&& final(self).subs@ == old(self).subs@.remove(k)
                },
            found ==> final(self).backlog_bound == old(self).backlog_bound && final(self).next_id
                == old(self).next_id,
    {
        match self.find_subscriber(id) {
            None => false,
            Some(k) => {
                self.subs.remove(k);
                true
            },
        }
    }
}

/// Law: after one publish, a slow subscriber of the event (backlog at
/// the bound) is disconnected with its queue unchanged, while every
/// healthy subscriber of the same event receives the record, whatever
/// the slow one did: delivery to one never waits on another.
pub proof fn lemma_backpressure_isolation(
    h0: Hub,
    h1: Hub,
    event_key: u64,
    record: ChangeRecord,
    slow: int,
    healthy: int,
)
    requires
        h0.wf(),
        hub_broadcast(h0, h1, event_key, record),
        0 <= slow < h0.subs@.len(),
        0 <= healthy < h0.subs@.len(),
        h0.subs@[slow].event_key == event_key,
        !h0.subs@[slow].dropped,
        h0.subs@[slow].queue@.len() >= h0.backlog_bound,
        h0.subs@[healthy].event_key == event_key,
        !h0.subs@[healthy].dropped,
        h0.subs@[healthy].queue@.len() < h0.backlog_bound,
    ensures
        h1.subs@[slow].dropped,
        h1.subs@[slow].queue@ == h0.subs@[slow].queue@,
        h1.subs@[healthy].queue@ == h0.subs@[healthy].queue@.push(record),
        !h1.subs@[healthy].dropped,
{
}

/// Law: deliveries keep publish order.  Across two consecutive
/// publishes on one event, a subscriber that stays below the backlog
/// bound holds both records in the order they were published.
pub proof fn lemma_delivery_in_order(
    h0: Hub,
    h1: Hub,
    h2: Hub,
    event_key: u64,
    first: ChangeRecord,
    second: ChangeRecord,
    i: int,
)
    requires
        hub_broadcast(h0, h1, event_key, first),
        hub_broadcast(h1, h2, event_key, second),
        0 <= i < h0.subs@.len(),
        h0.subs@[i].event_key == event_key,
        !h0.subs@[i].dropped,
        h0.subs@[i].queue@.len() + 1 < h0.backlog_bound,
    ensures
        h2.subs@[i].queue@ == h0.subs@[i].queue@.push(first).push(second),
        !h2.subs@[i].dropped,
{
    assert(deliver_one(h0.subs@[i], h1.subs@[i], event_key, first, h0.backlog_bound as int));
    assert(deliver_one(h1.subs@[i], h2.subs@[i], event_key, second, h1.backlog_bound as int));
}

} // verus!
