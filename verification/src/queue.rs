//! A declared queue: a capacity-bounded, multi-subscriber fan-out.
//!
//! Every subscriber receives every message published after its subscription
//! began, independently, into its own bounded slot ring; a subscriber that
//! falls more than `capacity` messages behind loses its oldest unread
//! messages (at-most-once, lossy-under-backpressure delivery).

use vstd::prelude::*;
use crate::message::Message;
use crate::message::MessageV;

verus! {

/// Largest slot count a queue may be declared with; over-limit declarations
/// are ignored by the coordinator.
pub const MAX_QUEUE_SIZE: usize = 5000;

/// The value sequence of a sequence of messages.
pub open spec fn msgs_view(s: Seq<Message>) -> Seq<MessageV> {
    s.map_values(|m: Message| m@)
}

/// One attachment of a consumer to a queue.  `started` records that the
/// subscription's receiving end has been handed to a running delivery task;
/// until then it still belongs to the consumer's "assigned" record and is
/// torn down if that record is overwritten.  `buffer` holds the messages
/// fanned out to this subscriber and not yet drained by its delivery task.
pub struct Subscription {
    pub consumer_id: String,
    pub started: bool,
    pub buffer: Vec<Message>,
}

/// Mathematical value of a [`Subscription`].
#[verifier::ext_equal]
pub struct SubscriptionV {
    pub consumer_id: Seq<char>,
    pub started: bool,
    pub buffer: Seq<MessageV>,
}

impl View for Subscription {
    type V = SubscriptionV;

    open spec fn view(&self) -> SubscriptionV {
        SubscriptionV {
            consumer_id: self.consumer_id@,
            started: self.started,
            buffer: msgs_view(self.buffer@),
        }
    }
}

/// The value sequence of a sequence of subscriptions.
pub open spec fn subs_view(s: Seq<Subscription>) -> Seq<SubscriptionV> {
    s.map_values(|x: Subscription| x@)
}

/// A declared queue: its name, its slot capacity, and every subscription
/// attached so far, in attachment order.
pub struct Queue {
    pub name: String,
    pub capacity: usize,
    pub subs: Vec<Subscription>,
}

/// Mathematical value of a [`Queue`].
#[verifier::ext_equal]
pub struct QueueV {
    pub name: Seq<char>,
    pub capacity: usize,
    pub subs: Seq<SubscriptionV>,
}

impl View for Queue {
    type V = QueueV;

    open spec fn view(&self) -> QueueV {
        QueueV { name: self.name@, capacity: self.capacity, subs: subs_view(self.subs@) }
    }
}

/// What one bounded slot ring does on publish: append the new message, and
/// when the ring already holds `capacity` messages, drop the oldest first.
/// A zero-capacity ring keeps nothing.
pub open spec fn ring_push(buffer: Seq<MessageV>, capacity: usize, m: MessageV) -> Seq<MessageV> {
    if capacity == 0 {
        buffer
    } else if buffer.len() >= capacity {
        buffer.drop_first().push(m)
    } else {
        buffer.push(m)
    }
}

/// A publish as one subscription sees it.
pub open spec fn publish_sub(s: SubscriptionV, capacity: usize, m: MessageV) -> SubscriptionV {
    SubscriptionV { buffer: ring_push(s.buffer, capacity, m), ..s }
}

/// A publish as the whole queue sees it: every current subscriber receives
/// the message independently, subject to its own ring.
pub open spec fn publish_queue(q: QueueV, m: MessageV) -> QueueV {
    QueueV { subs: q.subs.map_values(|s: SubscriptionV| publish_sub(s, q.capacity, m)), ..q }
}

/// A new subscription as the whole queue sees it: a fresh, empty ring for
/// `consumer_id` is appended after every existing subscription.
pub open spec fn subscribe_queue(q: QueueV, consumer_id: Seq<char>) -> QueueV {
    QueueV {
        subs: q.subs.push(SubscriptionV {
            consumer_id,
            started: false,
            buffer: Seq::<MessageV>::empty(),
        }),
        ..q
    }
}

/// Keeps a subscription when the consumer record named `id` is overwritten:
/// only its not-yet-started subscriptions are torn down (their receiving
/// ends are still owned by the record being dropped).
pub open spec fn survives_drop(s: SubscriptionV, id: Seq<char>) -> bool {
    s.started || s.consumer_id != id
}

/// The subscriptions that survive tearing down the not-yet-started ones of
/// consumer `id`, keeping their relative order.
pub open spec fn surviving_subs(subs: Seq<SubscriptionV>, id: Seq<char>) -> Seq<SubscriptionV>
    decreases subs.len(),
{
    if subs.len() == 0 {
        Seq::<SubscriptionV>::empty()
    } else {
        let rest = surviving_subs(subs.drop_last(), id);
        if survives_drop(subs.last(), id) {
            rest.push(subs.last())
        } else {
            rest
        }
    }
}

/// Tearing down the not-yet-started subscriptions of consumer `id`.
pub open spec fn drop_unstarted_queue(q: QueueV, id: Seq<char>) -> QueueV {
    QueueV { subs: surviving_subs(q.subs, id), ..q }
}

/// Handing the not-yet-started subscriptions of consumer `id` over to a
/// running delivery task.
pub open spec fn start_sub(s: SubscriptionV, id: Seq<char>) -> SubscriptionV {
    if !survives_drop(s, id) {
        SubscriptionV { started: true, ..s }
    } else {
        s
    }
}

/// A consumer start as the whole queue sees it.
pub open spec fn start_queue(q: QueueV, id: Seq<char>) -> QueueV {
    QueueV { subs: q.subs.map_values(|s: SubscriptionV| start_sub(s, id)), ..q }
}

impl QueueV {
    /// Internal consistency: the capacity respects the configured maximum
    /// and no subscriber ring has outgrown it.
    pub open spec fn wf(self) -> bool {
        &&& self.capacity <= MAX_QUEUE_SIZE
        &&& forall|i: int|
            0 <= i < self.subs.len() ==> (#[trigger] self.subs[i]).buffer.len() <= self.capacity
    }
}

/// Element views pass through removal of one entry.
proof fn lemma_subs_view_remove(s: Seq<Subscription>, i: int)
    requires
        0 <= i < s.len(),
    ensures
        subs_view(s.remove(i)) =~= subs_view(s).remove(i),
{
}

/// One step of [`surviving_subs`], taken at the back.
proof fn lemma_surviving_subs_snoc(subs: Seq<SubscriptionV>, x: SubscriptionV, id: Seq<char>)
    ensures
        surviving_subs(subs.push(x), id) == if survives_drop(x, id) {
            surviving_subs(subs, id).push(x)
        } else {
            surviving_subs(subs, id)
        },
{
    assert(subs.push(x).drop_last() =~= subs);
    assert(subs.push(x).last() == x);
}

/// Appends `msg` to one slot ring, dropping the oldest entry if the ring is
/// at capacity.
fn ring_push_exec(buffer: &mut Vec<Message>, capacity: usize, msg: &Message)
    ensures
        msgs_view(final(buffer)@) == ring_push(msgs_view(old(buffer)@), capacity, msg@),
{
    if capacity == 0 {
        return ;
    }
    if buffer.len() >= capacity {
        buffer.remove(0);
        proof {
            assert(msgs_view(buffer@) =~= msgs_view(old(buffer)@).drop_first());
        }
    }
    buffer.push(msg.clone());
    proof {
        assert(msgs_view(buffer@) =~= ring_push(msgs_view(old(buffer)@), capacity, msg@));
    }
}

impl Queue {
    /// A freshly declared queue: no subscribers yet.
    pub fn new(name: String, capacity: usize) -> (q: Queue)
        ensures
            q@ == (QueueV { name: name@, capacity, subs: Seq::<SubscriptionV>::empty() }),
    {
        let q = Queue { name, capacity, subs: Vec::new() };
        proof {
            assert(subs_view(q.subs@) =~= Seq::<SubscriptionV>::empty());
        }
        q
    }

    /// Attaches a fresh, empty subscription for `consumer_id`.  It receives
    /// only messages published after this call.
    pub fn subscribe(&mut self, consumer_id: String)
        ensures
            final(self)@ == subscribe_queue(old(self)@, consumer_id@),
    {
        let ghost snap = self@;
        let sub = Subscription { consumer_id, started: false, buffer: Vec::new() };
        proof {
            assert(msgs_view(sub.buffer@) =~= Seq::<MessageV>::empty());
        }
        self.subs.push(sub);
        proof {
            assert(subs_view(self.subs@) =~= snap.subs.push(sub@));
        }
    }

    /// Fans `msg` out to every current subscriber, each into its own ring.
    pub fn publish(&mut self, msg: &Message)
        ensures
            final(self)@ == publish_queue(old(self)@, msg@),
    {
        let ghost snap = self@;
        let mut i: usize = 0;
        let n = self.subs.len();
        while i < n
            invariant
                n == self.subs.len(),
                n == snap.subs.len(),
                i <= n,
                self.name@ == snap.name,
                self.capacity == snap.capacity,
                forall|j: int|
                    0 <= j < i ==> (#[trigger] self.subs@[j])@ == publish_sub(
                        snap.subs[j],
                        snap.capacity,
                        msg@,
                    ),
                forall|j: int| i <= j < n ==> (#[trigger] self.subs@[j])@ == snap.subs[j],
            decreases n - i,
        {
            let cap = self.capacity;
            let sub = &mut self.subs[i];
            ring_push_exec(&mut sub.buffer, cap, msg);
            proof {
                assert(self.subs@[i as int]@ =~= publish_sub(snap.subs[i as int], snap.capacity, msg@));
            }
            i = i + 1;
        }
        proof {
            assert(self@ =~~= publish_queue(snap, msg@));
        }
    }

    /// Marks every not-yet-started subscription of `id` as started: their
    /// receiving ends now belong to a running delivery task and outlive the
    /// consumer record.
    pub fn start_consumer_subs(&mut self, id: &String)
        ensures
            final(self)@ == start_queue(old(self)@, id@),
    {
        let ghost snap = self@;
        let mut i: usize = 0;
        let n = self.subs.len();
        while i < n
            invariant
                n == self.subs.len(),
                n == snap.subs.len(),
                i <= n,
                self.name@ == snap.name,
                self.capacity == snap.capacity,
                forall|j: int| 0 <= j < i ==> (#[trigger] self.subs@[j])@ == start_sub(snap.subs[j], id@),
                forall|j: int| i <= j < n ==> (#[trigger] self.subs@[j])@ == snap.subs[j],
            decreases n - i,
        {
            let sub = &mut self.subs[i];
            if !sub.started && sub.consumer_id == *id {
                sub.started = true;
            }
            proof {
                assert(self.subs@[i as int]@ =~= start_sub(snap.subs[i as int], id@));
            }
            i = i + 1;
        }
        proof {
            assert(self@ =~~= start_queue(snap, id@));
        }
    }

    /// Tears down every not-yet-started subscription of `id`: the consumer
    /// record that owned them has been overwritten and their receiving ends
    /// dropped with it.
    pub fn drop_unstarted_subs(&mut self, id: &String)
        ensures
            final(self)@ == drop_unstarted_queue(old(self)@, id@),
    {
        let ghost snap = self@;
        let mut i: usize = 0;
        let ghost mut k: int = 0;
        while i < self.subs.len()
            invariant
                0 <= k <= snap.subs.len(),
                self.name@ == snap.name,
                self.capacity == snap.capacity,
                subs_view(self.subs@) == surviving_subs(snap.subs.subrange(0, k), id@)
                    + snap.subs.subrange(k, snap.subs.len() as int),
                i == surviving_subs(snap.subs.subrange(0, k), id@).len(),
                i <= self.subs.len(),
            decreases snap.subs.len() - k,
        {
            let ghost cur = snap.subs[k];
            let ghost pre_f = surviving_subs(snap.subs.subrange(0, k), id@);
            let ghost tail = snap.subs.subrange(k + 1, snap.subs.len() as int);
            proof {
                assert(snap.subs.subrange(0, k + 1) =~= snap.subs.subrange(0, k).push(cur));
                lemma_surviving_subs_snoc(snap.subs.subrange(0, k), cur, id@);
                assert(subs_view(self.subs@)[i as int] == cur);
                assert(self.subs@[i as int]@ == cur);
            }
            let drop_it = !self.subs[i].started && self.subs[i].consumer_id == *id;
            let ghost pre = self.subs@;
            if drop_it {
                self.subs.remove(i);
                proof {
                    lemma_subs_view_remove(pre, i as int);
                    assert((pre_f + snap.subs.subrange(k, snap.subs.len() as int)).remove(i as int)
                        =~= pre_f + tail);
                    assert(subs_view(self.subs@) =~= surviving_subs(
                        snap.subs.subrange(0, k + 1),
                        id@,
                    ) + tail);
                }
            } else {
                i = i + 1;
                proof {
                    assert(pre_f + snap.subs.subrange(k, snap.subs.len() as int) =~= pre_f.push(cur)
                        + tail);
                    assert(subs_view(self.subs@) =~= surviving_subs(
                        snap.subs.subrange(0, k + 1),
                        id@,
                    ) + tail);
                }
            }
            proof {
                k = k + 1;
            }
        }
        proof {
            assert(snap.subs.subrange(0, snap.subs.len() as int) =~= snap.subs);
            assert(snap.subs.subrange(snap.subs.len() as int, snap.subs.len() as int)
                =~= Seq::<SubscriptionV>::empty());
            assert(subs_view(self.subs@) + Seq::<SubscriptionV>::empty() =~= subs_view(self.subs@));
            assert(self@ =~~= drop_unstarted_queue(snap, id@));
        }
    }
}

} // verus!
