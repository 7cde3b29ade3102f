//! The event coordinator: the single authority over all broker state.
//!
//! The coordinator consumes the inbound event stream one event at a time and
//! produces state transitions plus a short list of [`Action`]s for the
//! surrounding network code to perform (socket writes, channel opens, task
//! spawns).  All correctness rules live here: uniqueness of queue names,
//! one role per connection, capacity-bounded fan-out, and ack/nack feedback
//! tied to publish success.  Every malformed or out-of-order command
//! degrades to a silent no-op; the coordinator itself never fails.

use vstd::prelude::*;
use crate::addr::Addr;
use crate::consumer::Consumer;
use crate::consumer::ConsumerV;
use crate::consumer::strs_view;
use crate::events::Event;
use crate::events::EventV;
use crate::message::Message;
use crate::message::MessageV;
use crate::queue::MAX_QUEUE_SIZE;
use crate::queue::Queue;
use crate::queue::QueueV;
use crate::queue::drop_unstarted_queue;
use crate::queue::publish_queue;
use crate::queue::start_queue;
use crate::queue::subscribe_queue;

verus! {

/// What the coordinator asks the surrounding network code to do after a
/// transition: move a pending connection's write half into a role, spawn a
/// delivery task, open a fan-out channel, attach a receiver, hand a message
/// to a channel, or write an acknowledgment to a producer's socket.
#[derive(Debug, PartialEq)]
pub enum Action {
    RoleConsumer { addr: Addr, id: String },
    RoleProducer { addr: Addr, id: String },
    StartDelivery { id: String },
    OpenChannel { queue: String, capacity: usize },
    Subscribe { consumer_id: String, queue: String },
    Deliver { queue: String, message: Message },
    SendAck { producer_id: String },
    SendNack { producer_id: String, reason: String },
}

/// Mathematical value of an [`Action`].
#[verifier::ext_equal]
pub enum ActionV {
    RoleConsumer { addr: Addr, id: Seq<char> },
    RoleProducer { addr: Addr, id: Seq<char> },
    StartDelivery { id: Seq<char> },
    OpenChannel { queue: Seq<char>, capacity: usize },
    Subscribe { consumer_id: Seq<char>, queue: Seq<char> },
    Deliver { queue: Seq<char>, message: MessageV },
    SendAck { producer_id: Seq<char> },
    SendNack { producer_id: Seq<char>, reason: Seq<char> },
}

impl View for Action {
    type V = ActionV;

    open spec fn view(&self) -> ActionV {
        match self {
            Action::RoleConsumer { addr, id } => ActionV::RoleConsumer { addr: *addr, id: id@ },
            Action::RoleProducer { addr, id } => ActionV::RoleProducer { addr: *addr, id: id@ },
            Action::StartDelivery { id } => ActionV::StartDelivery { id: id@ },
            Action::OpenChannel { queue, capacity } => ActionV::OpenChannel {
                queue: queue@,
                capacity: *capacity,
            },
            Action::Subscribe { consumer_id, queue } => ActionV::Subscribe {
                consumer_id: consumer_id@,
                queue: queue@,
            },
            Action::Deliver { queue, message } => ActionV::Deliver {
                queue: queue@,
                message: message@,
            },
            Action::SendAck { producer_id } => ActionV::SendAck { producer_id: producer_id@ },
            Action::SendNack { producer_id, reason } => ActionV::SendNack {
                producer_id: producer_id@,
                reason: reason@,
            },
        }
    }
}

/// The value sequence of a sequence of actions.
pub open spec fn actions_view(s: Seq<Action>) -> Seq<ActionV> {
    s.map_values(|a: Action| a@)
}

/// The nack reason for a publish to a queue that was never declared.
pub open spec fn reason_no_queue() -> Seq<char> {
    "queue does not exist"@
}

/// The nack reason for a publish that reached a queue with no subscriber.
pub open spec fn reason_publish_failed() -> Seq<char> {
    "failed to publish message"@
}

/// The value sequence of a sequence of consumer records.
pub open spec fn consumers_view(s: Seq<Consumer>) -> Seq<ConsumerV> {
    s.map_values(|c: Consumer| c@)
}

/// The value sequence of a sequence of queues.
pub open spec fn queues_view(s: Seq<Queue>) -> Seq<QueueV> {
    s.map_values(|q: Queue| q@)
}

/// All broker state, owned exclusively by the coordinator: the addresses of
/// connections with no role yet, the assigned-but-not-started consumer
/// records, the identifiers of registered producers, and the declared
/// queues, each in first-seen order.
pub struct Broker {
    pub pending: Vec<Addr>,
    pub consumers: Vec<Consumer>,
    pub producers: Vec<String>,
    pub queues: Vec<Queue>,
}

/// Mathematical value of a [`Broker`].
#[verifier::ext_equal]
pub struct BrokerV {
    pub pending: Seq<Addr>,
    pub consumers: Seq<ConsumerV>,
    pub producers: Seq<Seq<char>>,
    pub queues: Seq<QueueV>,
}

impl View for Broker {
    type V = BrokerV;

    open spec fn view(&self) -> BrokerV {
        BrokerV {
            pending: self.pending@,
            consumers: consumers_view(self.consumers@),
            producers: strs_view(self.producers@),
            queues: queues_view(self.queues@),
        }
    }
}

/// The pending table without `addr`.
pub open spec fn remove_addr(pending: Seq<Addr>, addr: Addr) -> Seq<Addr>
    decreases pending.len(),
{
    if pending.len() == 0 {
        Seq::<Addr>::empty()
    } else {
        let rest = remove_addr(pending.drop_last(), addr);
        if pending.last() == addr {
            rest
        } else {
            rest.push(pending.last())
        }
    }
}

/// The consumer registry without the records named `id`.
pub open spec fn remove_consumers(consumers: Seq<ConsumerV>, id: Seq<char>) -> Seq<ConsumerV>
    decreases consumers.len(),
{
    if consumers.len() == 0 {
        Seq::<ConsumerV>::empty()
    } else {
        let rest = remove_consumers(consumers.drop_last(), id);
        if consumers.last().id == id {
            rest
        } else {
            rest.push(consumers.last())
        }
    }
}

impl BrokerV {
    /// The connection at `addr` is known and still has no role.
    pub open spec fn has_pending(self, addr: Addr) -> bool {
        exists|i: int| 0 <= i < self.pending.len() && self.pending[i] == addr
    }

    /// A consumer record named `id` is assigned and not yet started.
    pub open spec fn has_consumer(self, id: Seq<char>) -> bool {
        exists|i: int| 0 <= i < self.consumers.len() && self.consumers[i].id == id
    }

    /// A producer with identifier `id` is registered.
    pub open spec fn has_producer(self, id: Seq<char>) -> bool {
        exists|i: int| 0 <= i < self.producers.len() && self.producers[i] == id
    }

    /// A queue named `name` has been declared.
    pub open spec fn has_queue(self, name: Seq<char>) -> bool {
        exists|i: int| 0 <= i < self.queues.len() && self.queues[i].name == name
    }

    /// A queue named `name` exists and has at least one attached subscriber.
    pub open spec fn queue_has_subscribers(self, name: Seq<char>) -> bool {
        exists|i: int|
            0 <= i < self.queues.len() && self.queues[i].name == name && self.queues[i].subs.len()
                > 0
    }

    /// Internal consistency: every table is keyed uniquely (one pending
    /// entry per address, one record per consumer id, one entry per
    /// producer id, one queue per name) and every queue respects its
    /// capacity bound.
    pub open spec fn wf(self) -> bool {
        &&& forall|i: int, j: int|
            0 <= i < j < self.pending.len() ==> self.pending[i] != self.pending[j]
        &&& forall|i: int, j: int|
            0 <= i < j < self.consumers.len() ==> self.consumers[i].id != self.consumers[j].id
        &&& forall|i: int, j: int|
            0 <= i < j < self.producers.len() ==> self.producers[i] != self.producers[j]
        &&& forall|i: int, j: int|
            0 <= i < j < self.queues.len() ==> self.queues[i].name != self.queues[j].name
        &&& forall|i: int| 0 <= i < self.queues.len() ==> (#[trigger] self.queues[i]).wf()
    }
}

/// A new connection is recorded as pending until a role claims it.  An
/// address already known stays as it is (at most the write half changes
/// hands outside).
pub open spec fn step_new_connection(s: BrokerV, addr: Addr) -> BrokerV {
    if s.has_pending(addr) {
        s
    } else {
        BrokerV { pending: s.pending.push(addr), ..s }
    }
}

/// A pending connection becomes a consumer record under `id`.  A stale or
/// duplicate event (no such pending connection) is a no-op.  Any prior
/// not-yet-started record under `id` is overwritten, and the subscriptions
/// that record still owned are torn down with it.
pub open spec fn step_consumer_assigned(s: BrokerV, addr: Addr, id: Seq<char>) -> (BrokerV, Seq<
    ActionV,
>) {
    if s.has_pending(addr) {
        (
            BrokerV {
                pending: remove_addr(s.pending, addr),
                consumers: remove_consumers(s.consumers, id).push(ConsumerV {
                    id,
                    queues: Seq::<Seq<char>>::empty(),
                }),
                queues: s.queues.map_values(|q: QueueV| drop_unstarted_queue(q, id)),
                ..s
            },
            seq![ActionV::RoleConsumer { addr, id }],
        )
    } else {
        (s, Seq::<ActionV>::empty())
    }
}

/// A not-yet-started consumer record is removed and its subscriptions are
/// handed to a spawned delivery task; its identifier is free again from
/// this moment on.  Without such a record the event is a no-op.
pub open spec fn step_consumer_started(s: BrokerV, id: Seq<char>) -> (BrokerV, Seq<ActionV>) {
    if s.has_consumer(id) {
        (
            BrokerV {
                consumers: remove_consumers(s.consumers, id),
                queues: s.queues.map_values(|q: QueueV| start_queue(q, id)),
                ..s
            },
            seq![ActionV::StartDelivery { id }],
        )
    } else {
        (s, Seq::<ActionV>::empty())
    }
}

/// A pending connection becomes a producer under `id`; producers persist
/// for the life of the connection.  A stale event is a no-op.
pub open spec fn step_producer_assigned(s: BrokerV, addr: Addr, id: Seq<char>) -> (BrokerV, Seq<
    ActionV,
>) {
    if s.has_pending(addr) {
        (
            BrokerV {
                pending: remove_addr(s.pending, addr),
                producers: if s.has_producer(id) {
                    s.producers
                } else {
                    s.producers.push(id)
                },
                ..s
            },
            seq![ActionV::RoleProducer { addr, id }],
        )
    } else {
        (s, Seq::<ActionV>::empty())
    }
}

/// A not-yet-started consumer gains a subscription on an existing queue.
/// If either side is missing the event is a no-op.  Subscribing twice
/// creates two independent subscriptions, each delivering its own copy.
pub open spec fn step_queue_assigned(s: BrokerV, consumer_id: Seq<char>, queue: Seq<char>) -> (
    BrokerV,
    Seq<ActionV>,
) {
    if s.has_consumer(consumer_id) && s.has_queue(queue) {
        (
            BrokerV {
                consumers: s.consumers.map_values(
                    |c: ConsumerV|
                        if c.id == consumer_id {
                            ConsumerV { queues: c.queues.push(queue), ..c }
                        } else {
                            c
                        },
                ),
                queues: s.queues.map_values(
                    |q: QueueV|
                        if q.name == queue {
                            subscribe_queue(q, consumer_id)
                        } else {
                            q
                        },
                ),
                ..s
            },
            seq![ActionV::Subscribe { consumer_id, queue }],
        )
    } else {
        (s, Seq::<ActionV>::empty())
    }
}

/// A queue is created exactly once per name, and only within the capacity
/// bound; a redeclaration or an oversized declaration is a no-op.
pub open spec fn step_queue_declared(s: BrokerV, name: Seq<char>, size: usize) -> (BrokerV, Seq<
    ActionV,
>) {
    if !s.has_queue(name) && size <= MAX_QUEUE_SIZE {
        (
            BrokerV {
                queues: s.queues.push(QueueV {
                    name,
                    capacity: size,
                    subs: Seq::<crate::queue::SubscriptionV>::empty(),
                }),
                ..s
            },
            seq![ActionV::OpenChannel { queue: name, capacity: size }],
        )
    } else {
        (s, Seq::<ActionV>::empty())
    }
}

/// A message from a registered producer is fanned out to the named queue's
/// subscribers and acknowledged; an unknown queue or an empty subscriber
/// set earns a nack instead.  A message from an unregistered producer is
/// dropped silently: no feedback channel exists for it.
pub open spec fn step_message_received(
    s: BrokerV,
    queue: Seq<char>,
    producer_id: Seq<char>,
    m: MessageV,
) -> (BrokerV, Seq<ActionV>) {
    if !s.has_producer(producer_id) {
        (s, Seq::<ActionV>::empty())
    } else if !s.has_queue(queue) {
        (s, seq![ActionV::SendNack { producer_id, reason: reason_no_queue() }])
    } else {
        let next = BrokerV {
            queues: s.queues.map_values(
                |q: QueueV|
                    if q.name == queue {
                        publish_queue(q, m)
                    } else {
                        q
                    },
            ),
            ..s
        };
        if s.queue_has_subscribers(queue) {
            (
                next,
                seq![
                    ActionV::Deliver { queue, message: m },
                    ActionV::SendAck { producer_id },
                ],
            )
        } else {
            (next, seq![ActionV::SendNack { producer_id, reason: reason_publish_failed() }])
        }
    }
}

/// The coordinator's whole transition relation: one event in, the next
/// state and the actions out.
pub open spec fn step(s: BrokerV, e: EventV) -> (BrokerV, Seq<ActionV>) {
    match e {
        EventV::NewConnection { addr } => (step_new_connection(s, addr), Seq::<ActionV>::empty()),
        EventV::ConsumerAssigned { addr, id } => step_consumer_assigned(s, addr, id),
        EventV::ConsumerStarted { id } => step_consumer_started(s, id),
        EventV::ProducerAssigned { addr, id } => step_producer_assigned(s, addr, id),
        EventV::QueueAssigned { consumer_id, queue } => step_queue_assigned(s, consumer_id, queue),
        EventV::QueueDeclared { queue_name, size } => step_queue_declared(s, queue_name, size),
        EventV::MessageReceived { queue_name, producer_id, message } => step_message_received(
            s,
            queue_name,
            producer_id,
            message,
        ),
    }
}

/// One step of [`remove_addr`], taken at the back.
proof fn lemma_remove_addr_snoc(s: Seq<Addr>, x: Addr, addr: Addr)
    ensures
        remove_addr(s.push(x), addr) == if x == addr {
            remove_addr(s, addr)
        } else {
            remove_addr(s, addr).push(x)
        },
{
    assert(s.push(x).drop_last() =~= s);
    assert(s.push(x).last() == x);
}

/// One step of [`remove_consumers`], taken at the back.
proof fn lemma_remove_consumers_snoc(s: Seq<ConsumerV>, x: ConsumerV, id: Seq<char>)
    ensures
        remove_consumers(s.push(x), id) == if x.id == id {
            remove_consumers(s, id)
        } else {
            remove_consumers(s, id).push(x)
        },
{
    assert(s.push(x).drop_last() =~= s);
    assert(s.push(x).last() == x);
}

/// Element views pass through removal of one entry.
proof fn lemma_consumers_view_remove(s: Seq<Consumer>, i: int)
    requires
        0 <= i < s.len(),
    ensures
        consumers_view(s.remove(i)) =~= consumers_view(s).remove(i),
{
}

impl Broker {
    /// The connection at `addr` is known and still has no role.
    fn pending_contains(&self, addr: Addr) -> (r: bool)
        ensures
            r == self@.has_pending(addr),
    {
        let mut i: usize = 0;
        let mut found = false;
        while i < self.pending.len()
            invariant
                i <= self.pending.len(),
                found == exists|j: int| 0 <= j < i && self@.pending[j] == addr,
            decreases self.pending.len() - i,
        {
            if self.pending[i] == addr {
                found = true;
                proof {
                    assert(self@.pending[i as int] == addr);
                }
            }
            i = i + 1;
        }
        found
    }

    /// A consumer record named `id` is assigned and not yet started.
    fn has_consumer_rec(&self, id: &String) -> (r: bool)
        ensures
            r == self@.has_consumer(id@),
    {
        let mut i: usize = 0;
        let mut found = false;
        while i < self.consumers.len()
            invariant
                i <= self.consumers.len(),
                found == exists|j: int| 0 <= j < i && self@.consumers[j].id == id@,
            decreases self.consumers.len() - i,
        {
            if self.consumers[i].id == *id {
                found = true;
                proof {
                    assert(self@.consumers[i as int].id == id@);
                }
            }
            i = i + 1;
        }
        found
    }

    /// A producer with identifier `id` is registered.
    fn has_producer_rec(&self, id: &String) -> (r: bool)
        ensures
            r == self@.has_producer(id@),
    {
        let mut i: usize = 0;
        let mut found = false;
        while i < self.producers.len()
            invariant
                i <= self.producers.len(),
                found == exists|j: int| 0 <= j < i && self@.producers[j] == id@,
            decreases self.producers.len() - i,
        {
            if self.producers[i] == *id {
                found = true;
                proof {
                    assert(self@.producers[i as int] == id@);
                }
            }
            i = i + 1;
        }
        found
    }

    /// A queue named `name` has been declared.
    fn has_queue_rec(&self, name: &String) -> (r: bool)
        ensures
            r == self@.has_queue(name@),
    {
        let mut i: usize = 0;
        let mut found = false;
        while i < self.queues.len()
            invariant
                i <= self.queues.len(),
                found == exists|j: int| 0 <= j < i && self@.queues[j].name == name@,
            decreases self.queues.len() - i,
        {
            if self.queues[i].name == *name {
                found = true;
                proof {
                    assert(self@.queues[i as int].name == name@);
                }
            }
            i = i + 1;
        }
        found
    }

    /// A queue named `name` exists and has at least one attached subscriber.
    fn queue_with_subscribers(&self, name: &String) -> (r: bool)
        ensures
            r == self@.queue_has_subscribers(name@),
    {
        let mut i: usize = 0;
        let mut found = false;
        while i < self.queues.len()
            invariant
                i <= self.queues.len(),
                found == exists|j: int|
                    0 <= j < i && self@.queues[j].name == name@ && (#[trigger] self@.queues[j]).subs.len() > 0,
            decreases self.queues.len() - i,
        {
            if self.queues[i].name == *name && self.queues[i].subs.len() > 0 {
                found = true;
                proof {
                    assert(self@.queues[i as int].name == name@ && self@.queues[i as int].subs.len() > 0);
                }
            }
            i = i + 1;
        }
        found
    }

    /// Removes `addr` from the pending table.
    fn take_pending(&mut self, addr: Addr)
        ensures
            final(self)@ == (BrokerV {
                pending: remove_addr(old(self)@.pending, addr),
                ..old(self)@
            }),
    {
        let ghost snap = self@;
        let mut i: usize = 0;
        let ghost mut k: int = 0;
        while i < self.pending.len()
            invariant
                0 <= k <= snap.pending.len(),
                consumers_view(self.consumers@) == snap.consumers,
                strs_view(self.producers@) == snap.producers,
                queues_view(self.queues@) == snap.queues,
                self.pending@ == remove_addr(snap.pending.subrange(0, k), addr)
                    + snap.pending.subrange(k, snap.pending.len() as int),
                i == remove_addr(snap.pending.subrange(0, k), addr).len(),
                i <= self.pending.len(),
            decreases snap.pending.len() - k,
        {
            let ghost cur = snap.pending[k];
            proof {
                assert(snap.pending.subrange(0, k + 1) =~= snap.pending.subrange(0, k).push(cur));
                lemma_remove_addr_snoc(snap.pending.subrange(0, k), cur, addr);
                assert(self.pending@[i as int] == cur);
            }
            let ghost pre = self.pending@;
            if self.pending[i] == addr {
                self.pending.remove(i);
                proof {
                    assert(self.pending@ =~= remove_addr(snap.pending.subrange(0, k + 1), addr)
                        + snap.pending.subrange(k + 1, snap.pending.len() as int));
                }
            } else {
                i = i + 1;
                proof {
                    assert(self.pending@ =~= remove_addr(snap.pending.subrange(0, k + 1), addr)
                        + snap.pending.subrange(k + 1, snap.pending.len() as int));
                }
            }
            proof {
                k = k + 1;
            }
        }
        proof {
            assert(snap.pending.subrange(0, snap.pending.len() as int) =~= snap.pending);
            assert(self.pending@ + snap.pending.subrange(
                snap.pending.len() as int,
                snap.pending.len() as int,
            ) =~= self.pending@);
            assert(self@ =~~= (BrokerV { pending: remove_addr(snap.pending, addr), ..snap }));
        }
    }

    /// Removes every not-yet-started consumer record named `id`.
    fn remove_consumer_recs(&mut self, id: &String)
        ensures
            final(self)@ == (BrokerV {
                consumers: remove_consumers(old(self)@.consumers, id@),
                ..old(self)@
            }),
    {
        let ghost snap = self@;
        let mut i: usize = 0;
        let ghost mut k: int = 0;
        while i < self.consumers.len()
            invariant
                0 <= k <= snap.consumers.len(),
                self.pending@ == snap.pending,
                strs_view(self.producers@) == snap.producers,
                queues_view(self.queues@) == snap.queues,
                consumers_view(self.consumers@) == remove_consumers(
                    snap.consumers.subrange(0, k),
                    id@,
                ) + snap.consumers.subrange(k, snap.consumers.len() as int),
                i == remove_consumers(snap.consumers.subrange(0, k), id@).len(),
                i <= self.consumers.len(),
            decreases snap.consumers.len() - k,
        {
            let ghost cur = snap.consumers[k];
            proof {
                assert(snap.consumers.subrange(0, k + 1) =~= snap.consumers.subrange(0, k).push(
                    cur,
                ));
                lemma_remove_consumers_snoc(snap.consumers.subrange(0, k), cur, id@);
                assert(consumers_view(self.consumers@)[i as int] == cur);
                assert(self.consumers@[i as int]@ == cur);
            }
            let ghost pre = self.consumers@;
            if self.consumers[i].id == *id {
                self.consumers.remove(i);
                proof {
                    lemma_consumers_view_remove(pre, i as int);
                    assert((remove_consumers(snap.consumers.subrange(0, k), id@)
                        + snap.consumers.subrange(k, snap.consumers.len() as int)).remove(i as int)
                        =~= remove_consumers(snap.consumers.subrange(0, k), id@)
                        + snap.consumers.subrange(k + 1, snap.consumers.len() as int));
                    assert(consumers_view(self.consumers@) =~= remove_consumers(
                        snap.consumers.subrange(0, k + 1),
                        id@,
                    ) + snap.consumers.subrange(k + 1, snap.consumers.len() as int));
                }
            } else {
                i = i + 1;
                proof {
                    assert(remove_consumers(snap.consumers.subrange(0, k), id@)
                        + snap.consumers.subrange(k, snap.consumers.len() as int)
                        =~= remove_consumers(snap.consumers.subrange(0, k), id@).push(cur)
                        + snap.consumers.subrange(k + 1, snap.consumers.len() as int));
                    assert(consumers_view(self.consumers@) =~= remove_consumers(
                        snap.consumers.subrange(0, k + 1),
                        id@,
                    ) + snap.consumers.subrange(k + 1, snap.consumers.len() as int));
                }
            }
            proof {
                k = k + 1;
            }
        }
        proof {
            assert(snap.consumers.subrange(0, snap.consumers.len() as int) =~= snap.consumers);
            assert(consumers_view(self.consumers@) + snap.consumers.subrange(
                snap.consumers.len() as int,
                snap.consumers.len() as int,
            ) =~= consumers_view(self.consumers@));
            assert(self@ =~~= (BrokerV {
                consumers: remove_consumers(snap.consumers, id@),
                ..snap
            }));
        }
    }

    /// Tears down the not-yet-started subscriptions of `id` on every queue.
    fn drop_unstarted_all(&mut self, id: &String)
        ensures
            final(self)@ == (BrokerV {
                queues: old(self)@.queues.map_values(|q: QueueV| drop_unstarted_queue(q, id@)),
                ..old(self)@
            }),
    {
        let ghost snap = self@;
        let mut i: usize = 0;
        let n = self.queues.len();
        while i < n
            invariant
                n == self.queues.len(),
                n == snap.queues.len(),
                i <= n,
                self.pending@ == snap.pending,
                consumers_view(self.consumers@) == snap.consumers,
                strs_view(self.producers@) == snap.producers,
                forall|j: int|
                    0 <= j < i ==> (#[trigger] self.queues@[j])@ == drop_unstarted_queue(
                        snap.queues[j],
                        id@,
                    ),
                forall|j: int| i <= j < n ==> (#[trigger] self.queues@[j])@ == snap.queues[j],
            decreases n - i,
        {
            let q = &mut self.queues[i];
            q.drop_unstarted_subs(id);
            i = i + 1;
        }
        proof {
            assert(self@ =~~= (BrokerV {
                queues: snap.queues.map_values(|q: QueueV| drop_unstarted_queue(q, id@)),
                ..snap
            }));
        }
    }

    /// Hands the not-yet-started subscriptions of `id` on every queue over
    /// to the delivery task being spawned.
    fn start_subs_all(&mut self, id: &String)
        ensures
            final(self)@ == (BrokerV {
                queues: old(self)@.queues.map_values(|q: QueueV| start_queue(q, id@)),
                ..old(self)@
            }),
    {
        let ghost snap = self@;
        let mut i: usize = 0;
        let n = self.queues.len();
        while i < n
            invariant
                n == self.queues.len(),
                n == snap.queues.len(),
                i <= n,
                self.pending@ == snap.pending,
                consumers_view(self.consumers@) == snap.consumers,
                strs_view(self.producers@) == snap.producers,
                forall|j: int|
                    0 <= j < i ==> (#[trigger] self.queues@[j])@ == start_queue(
                        snap.queues[j],
                        id@,
                    ),
                forall|j: int| i <= j < n ==> (#[trigger] self.queues@[j])@ == snap.queues[j],
            decreases n - i,
        {
            let q = &mut self.queues[i];
            q.start_consumer_subs(id);
            i = i + 1;
        }
        proof {
            assert(self@ =~~= (BrokerV {
                queues: snap.queues.map_values(|q: QueueV| start_queue(q, id@)),
                ..snap
            }));
        }
    }

    /// Attaches a fresh subscription for `consumer_id` on every queue named
    /// `queue`.
    fn subscribe_matching(&mut self, consumer_id: &String, queue: &String)
        ensures
            final(self)@ == (BrokerV {
                queues: old(self)@.queues.map_values(
                    |q: QueueV|
                        if q.name == queue@ {
                            subscribe_queue(q, consumer_id@)
                        } else {
                            q
                        },
                ),
                ..old(self)@
            }),
    {
        let ghost snap = self@;
        let mut i: usize = 0;
        let n = self.queues.len();
        while i < n
            invariant
                n == self.queues.len(),
                n == snap.queues.len(),
                i <= n,
                self.pending@ == snap.pending,
                consumers_view(self.consumers@) == snap.consumers,
                strs_view(self.producers@) == snap.producers,
                forall|j: int|
                    0 <= j < i ==> (#[trigger] self.queues@[j])@ == if snap.queues[j].name
                        == queue@ {
                        subscribe_queue(snap.queues[j], consumer_id@)
                    } else {
                        snap.queues[j]
                    },
                forall|j: int| i <= j < n ==> (#[trigger] self.queues@[j])@ == snap.queues[j],
            decreases n - i,
        {
            let matches = self.queues[i].name == *queue;
            if matches {
                let q = &mut self.queues[i];
                q.subscribe(consumer_id.clone());
            }
            i = i + 1;
        }
        proof {
            assert(self@ =~~= (BrokerV {
                queues: snap.queues.map_values(
                    |q: QueueV|
                        if q.name == queue@ {
                            subscribe_queue(q, consumer_id@)
                        } else {
                            q
                        },
                ),
                ..snap
            }));
        }
    }

    /// Fans `msg` out on every queue named `queue`.
    fn publish_matching(&mut self, queue: &String, msg: &Message)
        ensures
            final(self)@ == (BrokerV {
                queues: old(self)@.queues.map_values(
                    |q: QueueV|
                        if q.name == queue@ {
                            publish_queue(q, msg@)
                        } else {
                            q
                        },
                ),
                ..old(self)@
            }),
    {
        let ghost snap = self@;
        let mut i: usize = 0;
        let n = self.queues.len();
        while i < n
            invariant
                n == self.queues.len(),
                n == snap.queues.len(),
                i <= n,
                self.pending@ == snap.pending,
                consumers_view(self.consumers@) == snap.consumers,
                strs_view(self.producers@) == snap.producers,
                forall|j: int|
                    0 <= j < i ==> (#[trigger] self.queues@[j])@ == if snap.queues[j].name
                        == queue@ {
                        publish_queue(snap.queues[j], msg@)
                    } else {
                        snap.queues[j]
                    },
                forall|j: int| i <= j < n ==> (#[trigger] self.queues@[j])@ == snap.queues[j],
            decreases n - i,
        {
            let matches = self.queues[i].name == *queue;
            if matches {
                let q = &mut self.queues[i];
                q.publish(msg);
            }
            i = i + 1;
        }
        proof {
            assert(self@ =~~= (BrokerV {
                queues: snap.queues.map_values(
                    |q: QueueV|
                        if q.name == queue@ {
                            publish_queue(q, msg@)
                        } else {
                            q
                        },
                ),
                ..snap
            }));
        }
    }

    /// Records the subscription on every consumer record named `id`.
    fn add_queue_to_consumers(&mut self, id: &String, queue: &String)
        ensures
            final(self)@ == (BrokerV {
                consumers: old(self)@.consumers.map_values(
                    |c: ConsumerV|
                        if c.id == id@ {
                            ConsumerV { queues: c.queues.push(queue@), ..c }
                        } else {
                            c
                        },
                ),
                ..old(self)@
            }),
    {
        let ghost snap = self@;
        let mut i: usize = 0;
        let n = self.consumers.len();
        while i < n
            invariant
                n == self.consumers.len(),
                n == snap.consumers.len(),
                i <= n,
                self.pending@ == snap.pending,
                strs_view(self.producers@) == snap.producers,
                queues_view(self.queues@) == snap.queues,
                forall|j: int|
                    0 <= j < i ==> (#[trigger] self.consumers@[j])@ == if snap.consumers[j].id
                        == id@ {
                        ConsumerV {
                            queues: snap.consumers[j].queues.push(queue@),
                            ..snap.consumers[j]
                        }
                    } else {
                        snap.consumers[j]
                    },
                forall|j: int| i <= j < n ==> (#[trigger] self.consumers@[j])@ == snap.consumers[j],
            decreases n - i,
        {
            let matches = self.consumers[i].id == *id;
            if matches {
                let c = &mut self.consumers[i];
                c.add_queue(queue.clone());
            }
            i = i + 1;
        }
        proof {
            assert(self@ =~~= (BrokerV {
                consumers: snap.consumers.map_values(
                    |c: ConsumerV|
                        if c.id == id@ {
                            ConsumerV { queues: c.queues.push(queue@), ..c }
                        } else {
                            c
                        },
                ),
                ..snap
            }));
        }
    }

    /// Processes one inbound event: the state moves exactly as [`step`]
    /// says, and the returned actions are exactly what [`step`] prescribes,
    /// in order.  No event makes this function fail or panic.
    pub fn handle_event(&mut self, event: Event) -> (actions: Vec<Action>)
        ensures
            final(self)@ == step(old(self)@, event@).0,
            actions_view(actions@) == step(old(self)@, event@).1,
            old(self)@.wf() ==> final(self)@.wf(),
    {
        let ghost s0 = self@;
        let ghost ev = event@;
        let mut actions: Vec<Action> = Vec::new();
        proof {
            assert(actions_view(actions@) =~= Seq::<ActionV>::empty());
        }
        match event {
            Event::NewConnection { addr } => {
                if !self.pending_contains(addr) {
                    self.pending.push(addr);
                }
                proof {
                    assert(self@ =~~= step_new_connection(s0, addr));
                }
            },
            Event::ConsumerAssigned { addr, id } => {
                let ghost idv = id@;
                if self.pending_contains(addr) {
                    self.take_pending(addr);
                    self.remove_consumer_recs(&id);
                    self.drop_unstarted_all(&id);
                    let rec = Consumer::new(id.clone());
                    self.consumers.push(rec);
                    actions.push(Action::RoleConsumer { addr, id });
                    proof {
                        assert(consumers_view(self.consumers@) =~= remove_consumers(
                            s0.consumers,
                            idv,
                        ).push(ConsumerV { id: idv, queues: Seq::<Seq<char>>::empty() }));
                        assert(self@ =~~= step_consumer_assigned(s0, addr, idv).0);
                        assert(actions_view(actions@) =~= step_consumer_assigned(s0, addr, idv).1);
                    }
                }
            },
            Event::ConsumerStarted { id } => {
                let ghost idv = id@;
                if self.has_consumer_rec(&id) {
                    self.remove_consumer_recs(&id);
                    self.start_subs_all(&id);
                    actions.push(Action::StartDelivery { id });
                    proof {
                        assert(self@ =~~= step_consumer_started(s0, idv).0);
                        assert(actions_view(actions@) =~= step_consumer_started(s0, idv).1);
                    }
                }
            },
            Event::ProducerAssigned { addr, id } => {
                let ghost idv = id@;
                if self.pending_contains(addr) {
                    self.take_pending(addr);
                    if !self.has_producer_rec(&id) {
                        self.producers.push(id.clone());
                        proof {
                            assert(strs_view(self.producers@) =~= s0.producers.push(idv));
                        }
                    }
                    actions.push(Action::RoleProducer { addr, id });
                    proof {
                        assert(self@ =~~= step_producer_assigned(s0, addr, idv).0);
                        assert(actions_view(actions@) =~= step_producer_assigned(s0, addr, idv).1);
                    }
                }
            },
            Event::QueueAssigned { consumer_id, queue } => {
                let ghost cidv = consumer_id@;
                let ghost qv = queue@;
                if self.has_consumer_rec(&consumer_id) && self.has_queue_rec(&queue) {
                    self.add_queue_to_consumers(&consumer_id, &queue);
                    self.subscribe_matching(&consumer_id, &queue);
                    actions.push(Action::Subscribe { consumer_id, queue });
                    proof {
                        assert(self@ =~~= step_queue_assigned(s0, cidv, qv).0);
                        assert(actions_view(actions@) =~= step_queue_assigned(s0, cidv, qv).1);
                    }
                }
            },
            Event::QueueDeclared { queue_name, size } => {
                let ghost nv = queue_name@;
                if size <= MAX_QUEUE_SIZE && !self.has_queue_rec(&queue_name) {
                    let q = Queue::new(queue_name.clone(), size);
                    self.queues.push(q);
                    actions.push(Action::OpenChannel { queue: queue_name, capacity: size });
                    proof {
                        assert(queues_view(self.queues@) =~= s0.queues.push(QueueV {
                            name: nv,
                            capacity: size,
                            subs: Seq::<crate::queue::SubscriptionV>::empty(),
                        }));
                        assert(self@ =~~= step_queue_declared(s0, nv, size).0);
                        assert(actions_view(actions@) =~= step_queue_declared(s0, nv, size).1);
                    }
                }
            },
            Event::MessageReceived { queue_name, producer_id, message } => {
                let ghost qv = queue_name@;
                let ghost pv = producer_id@;
                let ghost mv = message@;
                if self.has_producer_rec(&producer_id) {
                    if !self.has_queue_rec(&queue_name) {
                        let reason = "queue does not exist".to_owned();
                        proof {
                            assert(reason@ =~= reason_no_queue());
                        }
                        actions.push(Action::SendNack { producer_id, reason });
                        proof {
                            assert(actions_view(actions@) =~= step_message_received(
                                s0,
                                qv,
                                pv,
                                mv,
                            ).1);
                        }
                    } else {
                        let has_subs = self.queue_with_subscribers(&queue_name);
                        self.publish_matching(&queue_name, &message);
                        proof {
                            assert(self@ =~~= step_message_received(s0, qv, pv, mv).0);
                        }
                        if has_subs {
                            actions.push(Action::Deliver { queue: queue_name, message });
                            actions.push(Action::SendAck { producer_id });
                            proof {
                                assert(actions_view(actions@) =~= step_message_received(
                                    s0,
                                    qv,
                                    pv,
                                    mv,
                                ).1);
                            }
                        } else {
                            let reason = "failed to publish message".to_owned();
                            proof {
                                assert(reason@ =~= reason_publish_failed());
                            }
                            actions.push(Action::SendNack { producer_id, reason });
                            proof {
                                assert(actions_view(actions@) =~= step_message_received(
                                    s0,
                                    qv,
                                    pv,
                                    mv,
                                ).1);
                            }
                        }
                    }
                }
            },
        }
        proof {
            if s0.wf() {
                crate::laws::lemma_step_preserves_wf(s0, ev);
            }
        }
        actions
    }

    /// A broker with no connections, roles or queues.
    pub fn new() -> (b: Broker)
        ensures
            b@ == (BrokerV {
                pending: Seq::<Addr>::empty(),
                consumers: Seq::<ConsumerV>::empty(),
                producers: Seq::<Seq<char>>::empty(),
                queues: Seq::<QueueV>::empty(),
            }),
            b@.wf(),
    {
        let b = Broker {
            pending: Vec::new(),
            consumers: Vec::new(),
            producers: Vec::new(),
            queues: Vec::new(),
        };
        proof {
            assert(b@ =~~= (BrokerV {
                pending: Seq::<Addr>::empty(),
                consumers: Seq::<ConsumerV>::empty(),
                producers: Seq::<Seq<char>>::empty(),
                queues: Seq::<QueueV>::empty(),
            }));
        }
        b
    }
}

} // verus!
