//! The broker's guarantees, proved once and for all over [`step`].
//!
//! Each public proof function here states one observable rule of the
//! coordinator for every state and every input, over the same transition
//! relation that [`crate::broker::Broker::handle_event`] is proved to
//! implement.

use vstd::prelude::*;
use crate::addr::Addr;
use crate::broker::ActionV;
use crate::broker::BrokerV;
use crate::broker::reason_no_queue;
use crate::broker::reason_publish_failed;
use crate::broker::remove_addr;
use crate::broker::remove_consumers;
use crate::broker::step;
use crate::consumer::ConsumerV;
use crate::events::EventV;
use crate::message::MessageV;
use crate::queue::MAX_QUEUE_SIZE;
use crate::queue::QueueV;
use crate::queue::SubscriptionV;
use crate::queue::publish_queue;
use crate::queue::ring_push;
use crate::queue::surviving_subs;

verus! {

/// Whatever `remove_addr` keeps was already there, is never the removed
/// address, and stays duplicate-free.
proof fn lemma_remove_addr_props(s: Seq<Addr>, addr: Addr)
    ensures
        forall|j: int|
            0 <= j < remove_addr(s, addr).len() ==> (#[trigger] remove_addr(s, addr)[j]) != addr
                && s.contains(remove_addr(s, addr)[j]),
        (forall|i: int, j: int| 0 <= i < j < s.len() ==> s[i] != s[j]) ==> (forall|i: int, j: int|
            0 <= i < j < remove_addr(s, addr).len() ==> remove_addr(s, addr)[i] != remove_addr(
                s,
                addr,
            )[j]),
    decreases s.len(),
{
    if s.len() == 0 {
    } else {
        lemma_remove_addr_props(s.drop_last(), addr);
        assert forall|x: Addr| s.drop_last().contains(x) implies s.contains(x) by {
            let i = choose|i: int| 0 <= i < s.drop_last().len() && s.drop_last()[i] == x;
            assert(s[i] == x);
        }
        if s.last() != addr {
            assert(s[s.len() - 1] == s.last());
            if forall|i: int, j: int| 0 <= i < j < s.len() ==> s[i] != s[j] {
                let rest = remove_addr(s.drop_last(), addr);
                assert forall|i: int| 0 <= i < rest.len() implies rest[i] != s.last() by {
                    let w = choose|w: int|
                        0 <= w < s.drop_last().len() && s.drop_last()[w] == rest[i];
                    assert(s[w] == rest[i]);
                }
            }
        }
    }
}

/// Whatever `remove_consumers` keeps was already there, never carries the
/// removed identifier, and stays duplicate-free by identifier.
proof fn lemma_remove_consumers_props(s: Seq<ConsumerV>, id: Seq<char>)
    ensures
        forall|j: int|
            0 <= j < remove_consumers(s, id).len() ==> (#[trigger] remove_consumers(s, id)[j]).id
                != id && s.contains(remove_consumers(s, id)[j]),
        (forall|i: int, j: int| 0 <= i < j < s.len() ==> s[i].id != s[j].id) ==> (forall|
            i: int,
            j: int,
        |
            0 <= i < j < remove_consumers(s, id).len() ==> remove_consumers(s, id)[i].id
                != remove_consumers(s, id)[j].id),
    decreases s.len(),
{
    if s.len() == 0 {
    } else {
        lemma_remove_consumers_props(s.drop_last(), id);
        let rest = remove_consumers(s.drop_last(), id);
        let r = remove_consumers(s, id);
        assert forall|x: ConsumerV| s.drop_last().contains(x) implies s.contains(x) by {
            let i = choose|i: int| 0 <= i < s.drop_last().len() && s.drop_last()[i] == x;
            assert(s[i] == x);
        }
        assert(s[s.len() - 1] == s.last());
        assert forall|j: int| 0 <= j < r.len() implies (#[trigger] r[j]).id != id && s.contains(
            r[j],
        ) by {
            if s.last().id == id {
                assert(r[j] == rest[j]);
            } else {
                if j < rest.len() {
                    assert(r[j] == rest[j]);
                } else {
                    assert(r[j] == s.last());
                }
            }
        }
        if forall|i: int, j: int| 0 <= i < j < s.len() ==> s[i].id != s[j].id {
            assert forall|i: int, j: int|
                0 <= i < j < s.drop_last().len() implies s.drop_last()[i].id
                != s.drop_last()[j].id by {
                assert(s.drop_last()[i] == s[i] && s.drop_last()[j] == s[j]);
            }
            if s.last().id != id {
                assert forall|i: int| 0 <= i < rest.len() implies rest[i].id != s.last().id by {
                    let w = choose|w: int|
                        0 <= w < s.drop_last().len() && s.drop_last()[w] == rest[i];
                    assert(s[w] == rest[i]);
                }
            }
            assert forall|i: int, j: int| 0 <= i < j < r.len() implies r[i].id != r[j].id by {
                if s.last().id == id {
                    assert(r[i] == rest[i] && r[j] == rest[j]);
                } else {
                    if j < rest.len() {
                        assert(r[i] == rest[i] && r[j] == rest[j]);
                    } else {
                        assert(r[i] == rest[i] && r[j] == s.last());
                    }
                }
            }
        }
    }
}

/// Whatever survives a subscription teardown was already attached.
proof fn lemma_surviving_subs_membership(subs: Seq<SubscriptionV>, id: Seq<char>)
    ensures
        forall|j: int|
            0 <= j < surviving_subs(subs, id).len() ==> subs.contains(
                #[trigger] surviving_subs(subs, id)[j],
            ),
    decreases subs.len(),
{
    if subs.len() == 0 {
    } else {
        lemma_surviving_subs_membership(subs.drop_last(), id);
        let rest = surviving_subs(subs.drop_last(), id);
        let r = surviving_subs(subs, id);
        assert forall|x: SubscriptionV| subs.drop_last().contains(x) implies subs.contains(x) by {
            let i = choose|i: int| 0 <= i < subs.drop_last().len() && subs.drop_last()[i] == x;
            assert(subs[i] == x);
        }
        assert(subs[subs.len() - 1] == subs.last());
        assert forall|j: int| 0 <= j < r.len() implies subs.contains(#[trigger] r[j]) by {
            if j < rest.len() {
                assert(r[j] == rest[j]);
            } else {
                assert(r[j] == subs.last());
            }
        }
    }
}

/// Every coordinator transition keeps the broker well-formed: tables stay
/// uniquely keyed and every queue stays within its capacity bound.
pub proof fn lemma_step_preserves_wf(s: BrokerV, e: EventV)
    requires
        s.wf(),
    ensures
        step(s, e).0.wf(),
{
    let next = step(s, e).0;
    match e {
        EventV::NewConnection { addr } => {
            if !s.has_pending(addr) {
                assert forall|i: int, j: int|
                    0 <= i < j < next.pending.len() implies next.pending[i] != next.pending[j] by {
                    if j == s.pending.len() as int {
                        assert(!s.has_pending(addr));
                    }
                }
            }
        },
        EventV::ConsumerAssigned { addr, id } => {
            if s.has_pending(addr) {
                lemma_remove_addr_props(s.pending, addr);
                assert forall|i: int, j: int|
                    0 <= i < j < next.pending.len() implies next.pending[i] != next.pending[j] by {
                    let w = choose|w: int|
                        0 <= w < s.pending.len() && s.pending[w] == next.pending[i];
                    let w2 = choose|w2: int|
                        0 <= w2 < s.pending.len() && s.pending[w2] == next.pending[j];
                    hint_distinct(s.pending, w, w2);
                }
                lemma_remove_consumers_props(s.consumers, id);
                let kept = remove_consumers(s.consumers, id);
                assert forall|i: int, j: int|
                    0 <= i < j < next.consumers.len() implies next.consumers[i].id
                    != next.consumers[j].id by {
                    if j < kept.len() {
                        let w = choose|w: int|
                            0 <= w < s.consumers.len() && s.consumers[w] == kept[i];
                        let w2 = choose|w2: int|
                            0 <= w2 < s.consumers.len() && s.consumers[w2] == kept[j];
                        hint_distinct_ids(s.consumers, w, w2);
                    }
                }
                assert forall|i: int| 0 <= i < next.queues.len() implies (#[trigger] next.queues[i]).wf() by {
                    lemma_surviving_subs_membership(s.queues[i].subs, id);
                    assert(s.queues[i].wf());
                    assert forall|j: int|
                        0 <= j < next.queues[i].subs.len() implies (#[trigger] next.queues[i].subs[j]).buffer.len()
                        <= next.queues[i].capacity by {
                        let w = choose|w: int|
                            0 <= w < s.queues[i].subs.len() && s.queues[i].subs[w]
                                == next.queues[i].subs[j];
                    }
                }
            }
        },
        EventV::ConsumerStarted { id } => {
            if s.has_consumer(id) {
                lemma_remove_consumers_props(s.consumers, id);
                let kept = remove_consumers(s.consumers, id);
                assert forall|i: int, j: int|
                    0 <= i < j < next.consumers.len() implies next.consumers[i].id
                    != next.consumers[j].id by {
                    let w = choose|w: int| 0 <= w < s.consumers.len() && s.consumers[w] == kept[i];
                    let w2 = choose|w2: int|
                        0 <= w2 < s.consumers.len() && s.consumers[w2] == kept[j];
                    hint_distinct_ids(s.consumers, w, w2);
                }
                assert forall|i: int| 0 <= i < next.queues.len() implies (#[trigger] next.queues[i]).wf() by {
                    assert(s.queues[i].wf());
                    assert forall|j: int|
                        0 <= j < next.queues[i].subs.len() implies (#[trigger] next.queues[i].subs[j]).buffer.len()
                        <= next.queues[i].capacity by {
                        assert(s.queues[i].subs[j].buffer.len() <= s.queues[i].capacity);
                    }
                }
            }
        },
        EventV::ProducerAssigned { addr, id } => {
            if s.has_pending(addr) {
                lemma_remove_addr_props(s.pending, addr);
                assert forall|i: int, j: int|
                    0 <= i < j < next.pending.len() implies next.pending[i] != next.pending[j] by {
                    let w = choose|w: int|
                        0 <= w < s.pending.len() && s.pending[w] == next.pending[i];
                    let w2 = choose|w2: int|
                        0 <= w2 < s.pending.len() && s.pending[w2] == next.pending[j];
                    hint_distinct(s.pending, w, w2);
                }
                if !s.has_producer(id) {
                    assert forall|i: int, j: int|
                        0 <= i < j < next.producers.len() implies next.producers[i]
                        != next.producers[j] by {
                        if j == s.producers.len() as int {
                            assert(!s.has_producer(id));
                        }
                    }
                }
            }
        },
        EventV::QueueAssigned { consumer_id, queue } => {
            if s.has_consumer(consumer_id) && s.has_queue(queue) {
                assert forall|i: int| 0 <= i < next.queues.len() implies (#[trigger] next.queues[i]).wf() by {
                    assert(s.queues[i].wf());
                    assert forall|j: int|
                        0 <= j < next.queues[i].subs.len() implies (#[trigger] next.queues[i].subs[j]).buffer.len()
                        <= next.queues[i].capacity by {
                        if j < s.queues[i].subs.len() {
                            assert(s.queues[i].subs[j].buffer.len() <= s.queues[i].capacity);
                        }
                    }
                }
            }
        },
        EventV::QueueDeclared { queue_name, size } => {
            if !s.has_queue(queue_name) && size <= MAX_QUEUE_SIZE {
                assert forall|i: int, j: int|
                    0 <= i < j < next.queues.len() implies next.queues[i].name
                    != next.queues[j].name by {
                    if j == s.queues.len() as int {
                        assert(!s.has_queue(queue_name));
                    }
                }
                assert forall|i: int| 0 <= i < next.queues.len() implies (#[trigger] next.queues[i]).wf() by {
                    if i < s.queues.len() {
                        assert(s.queues[i].wf());
                    }
                }
            }
        },
        EventV::MessageReceived { queue_name, producer_id, message } => {
            if s.has_producer(producer_id) && s.has_queue(queue_name) {
                assert forall|i: int| 0 <= i < next.queues.len() implies (#[trigger] next.queues[i]).wf() by {
                    assert(s.queues[i].wf());
                    assert forall|j: int|
                        0 <= j < next.queues[i].subs.len() implies (#[trigger] next.queues[i].subs[j]).buffer.len()
                        <= next.queues[i].capacity by {
                        assert(s.queues[i].subs[j].buffer.len() <= s.queues[i].capacity);
                    }
                }
            }
        },
    }
}

/// Declaring a fresh name within the capacity bound creates the queue with
/// exactly the declared capacity and no subscribers; nothing else changes.
pub proof fn lemma_declare_queue_first(s: BrokerV, name: Seq<char>, size: usize)
    requires
        !s.has_queue(name),
        size <= MAX_QUEUE_SIZE,
    ensures
        ({
            let r = step(s, EventV::QueueDeclared { queue_name: name, size });
            &&& r.0 == (BrokerV {
                queues: s.queues.push(QueueV {
                    name,
                    capacity: size,
                    subs: Seq::<SubscriptionV>::empty(),
                }),
                ..s
            })
            &&& r.0.has_queue(name)
            &&& r.1 == seq![ActionV::OpenChannel { queue: name, capacity: size }]
        }),
{
    let r = step(s, EventV::QueueDeclared { queue_name: name, size });
    assert(r.0.queues[s.queues.len() as int].name == name);
}

/// A queue name, once declared, is never redeclared: a later declaration
/// under the same name leaves the whole state — the queue's capacity and
/// its subscriber set included — untouched, and emits nothing.
pub proof fn lemma_redeclare_queue_noop(s: BrokerV, name: Seq<char>, size: usize)
    requires
        s.has_queue(name),
    ensures
        step(s, EventV::QueueDeclared { queue_name: name, size }).0 == s,
        step(s, EventV::QueueDeclared { queue_name: name, size }).1 == Seq::<ActionV>::empty(),
{
}

/// A declaration over the capacity bound is ignored outright.
pub proof fn lemma_oversized_declare_noop(s: BrokerV, name: Seq<char>, size: usize)
    requires
        size > MAX_QUEUE_SIZE,
    ensures
        step(s, EventV::QueueDeclared { queue_name: name, size }).0 == s,
        step(s, EventV::QueueDeclared { queue_name: name, size }).1 == Seq::<ActionV>::empty(),
{
}

/// A publish from a registered producer to a never-declared queue earns
/// exactly one nack citing the missing queue, and no subscriber anywhere
/// sees anything: the state does not move.
pub proof fn lemma_publish_unknown_queue(s: BrokerV, queue: Seq<char>, pid: Seq<char>, m: MessageV)
    requires
        s.has_producer(pid),
        !s.has_queue(queue),
    ensures
        step(s, EventV::MessageReceived { queue_name: queue, producer_id: pid, message: m }).0 == s,
        step(s, EventV::MessageReceived { queue_name: queue, producer_id: pid, message: m }).1
            == seq![ActionV::SendNack { producer_id: pid, reason: reason_no_queue() }],
{
}

/// A publish from an unregistered producer is dropped without a trace:
/// no state change and no reply, whether or not the queue exists.
pub proof fn lemma_publish_unknown_producer(
    s: BrokerV,
    queue: Seq<char>,
    pid: Seq<char>,
    m: MessageV,
)
    requires
        !s.has_producer(pid),
    ensures
        step(s, EventV::MessageReceived { queue_name: queue, producer_id: pid, message: m }).0 == s,
        step(s, EventV::MessageReceived { queue_name: queue, producer_id: pid, message: m }).1
            == Seq::<ActionV>::empty(),
{
}

/// A publish to a declared queue with no attached subscriber earns exactly
/// one nack citing the failed publish, and the state does not move.
pub proof fn lemma_publish_without_subscribers(
    s: BrokerV,
    queue: Seq<char>,
    pid: Seq<char>,
    m: MessageV,
)
    requires
        s.has_producer(pid),
        s.has_queue(queue),
        !s.queue_has_subscribers(queue),
    ensures
        step(s, EventV::MessageReceived { queue_name: queue, producer_id: pid, message: m }).0 == s,
        step(s, EventV::MessageReceived { queue_name: queue, producer_id: pid, message: m }).1
            == seq![ActionV::SendNack { producer_id: pid, reason: reason_publish_failed() }],
{
    let next = step(s, EventV::MessageReceived { queue_name: queue, producer_id: pid, message: m }).0;
    assert forall|i: int| 0 <= i < s.queues.len() implies next.queues[i] == s.queues[i] by {
        if s.queues[i].name == queue {
            assert(s.queues[i].subs.len() == 0);
            assert(publish_queue(s.queues[i], m).subs =~= s.queues[i].subs);
            assert(publish_queue(s.queues[i], m) =~~= s.queues[i]);
        }
    }
    assert(next =~~= s);
}

/// A publish to a declared queue with at least one attached subscriber is
/// delivered and acknowledged: the producer gets exactly one ack, and every
/// currently attached subscriber receives the message into its own ring,
/// subject to its own capacity.
pub proof fn lemma_publish_with_subscribers(
    s: BrokerV,
    queue: Seq<char>,
    pid: Seq<char>,
    m: MessageV,
    i: int,
    j: int,
)
    requires
        s.has_producer(pid),
        s.queue_has_subscribers(queue),
        0 <= i < s.queues.len(),
        s.queues[i].name == queue,
        0 <= j < s.queues[i].subs.len(),
    ensures
        ({
            let r = step(s, EventV::MessageReceived { queue_name: queue, producer_id: pid, message: m });
            &&& r.1 == seq![
                ActionV::Deliver { queue, message: m },
                ActionV::SendAck { producer_id: pid },
            ]
            &&& r.0.queues.len() == s.queues.len()
            &&& r.0.queues[i].subs.len() == s.queues[i].subs.len()
            &&& r.0.queues[i].subs[j].consumer_id == s.queues[i].subs[j].consumer_id
            &&& r.0.queues[i].subs[j].buffer == ring_push(
                s.queues[i].subs[j].buffer,
                s.queues[i].capacity,
                m,
            )
            &&& (s.queues[i].capacity > 0 ==> r.0.queues[i].subs[j].buffer.last() == m)
        }),
{
    assert(s.has_queue(queue));
}

/// Assigning the same consumer to the same queue twice yields two
/// independent, initially empty subscriptions, and a following publish
/// puts its own copy of the message into each of them.
pub proof fn lemma_duplicate_subscriptions_deliver_twice(
    s: BrokerV,
    cid: Seq<char>,
    queue: Seq<char>,
    pid: Seq<char>,
    m: MessageV,
    i: int,
)
    requires
        s.has_consumer(cid),
        s.has_producer(pid),
        0 <= i < s.queues.len(),
        s.queues[i].name == queue,
        s.queues[i].capacity > 0,
    ensures
        ({
            let s1 = step(s, EventV::QueueAssigned { consumer_id: cid, queue }).0;
            let s2 = step(s1, EventV::QueueAssigned { consumer_id: cid, queue }).0;
            let n = s.queues[i].subs.len() as int;
            let r = step(
                s2,
                EventV::MessageReceived { queue_name: queue, producer_id: pid, message: m },
            );
            &&& s2.queues[i].subs.len() == n + 2
            &&& s2.queues[i].subs[n] == (SubscriptionV {
                consumer_id: cid,
                started: false,
                buffer: Seq::<MessageV>::empty(),
            })
            &&& s2.queues[i].subs[n + 1] == (SubscriptionV {
                consumer_id: cid,
                started: false,
                buffer: Seq::<MessageV>::empty(),
            })
            &&& r.1 == seq![
                ActionV::Deliver { queue, message: m },
                ActionV::SendAck { producer_id: pid },
            ]
            &&& r.0.queues[i].subs[n].buffer == seq![m]
            &&& r.0.queues[i].subs[n + 1].buffer == seq![m]
        }),
{
    assert(s.has_queue(queue));
    let s1 = step(s, EventV::QueueAssigned { consumer_id: cid, queue }).0;
    let w = choose|w: int| 0 <= w < s.consumers.len() && s.consumers[w].id == cid;
    assert(s1.consumers[w].id == cid);
    assert(s1.has_consumer(cid));
    assert(s1.queues[i].name == queue);
    assert(s1.has_queue(queue));
    let s2 = step(s1, EventV::QueueAssigned { consumer_id: cid, queue }).0;
    let n = s.queues[i].subs.len() as int;
    assert(s2.queues[i].subs.len() == n + 2);
    let pw = choose|pw: int| 0 <= pw < s.producers.len() && s.producers[pw] == pid;
    assert(s2.producers[pw] == pid);
    assert(s2.has_producer(pid));
    assert(s2.queues[i].subs.len() > 0);
    assert(s2.queue_has_subscribers(queue));
    let r = step(s2, EventV::MessageReceived { queue_name: queue, producer_id: pid, message: m });
    assert(r.0.queues[i].subs[n].buffer =~= seq![m]);
    assert(r.0.queues[i].subs[n + 1].buffer =~= seq![m]);
}

/// Two positions in a duplicate-free table hold the same entry only if
/// they are the same position.
proof fn hint_distinct(s: Seq<Addr>, i: int, j: int)
    requires
        forall|a: int, b: int| 0 <= a < b < s.len() ==> s[a] != s[b],
        0 <= i < s.len(),
        0 <= j < s.len(),
    ensures
        s[i] == s[j] ==> i == j,
{
}

/// Two positions in an id-distinct registry hold the same id only if they
/// are the same position.
proof fn hint_distinct_ids(s: Seq<ConsumerV>, i: int, j: int)
    requires
        forall|a: int, b: int| 0 <= a < b < s.len() ==> s[a].id != s[b].id,
        0 <= i < s.len(),
        0 <= j < s.len(),
    ensures
        s[i].id == s[j].id ==> i == j,
{
}

} // verus!
