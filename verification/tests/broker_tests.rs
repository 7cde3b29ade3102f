use fanout_broker::addr::Addr;
use fanout_broker::broker::Action;
use fanout_broker::broker::Broker;
use fanout_broker::events::Event;
use fanout_broker::message::Message;

fn addr_a() -> Addr {
    Addr::new(127, 0, 0, 1, 8080)
}

fn addr_b() -> Addr {
    Addr::new(127, 0, 0, 1, 8081)
}

fn declare(b: &mut Broker, name: &str, size: usize) -> Vec<Action> {
    b.handle_event(Event::QueueDeclared { queue_name: name.to_string(), size })
}

fn connect(b: &mut Broker, addr: Addr) -> Vec<Action> {
    b.handle_event(Event::NewConnection { addr })
}

fn assign_consumer(b: &mut Broker, addr: Addr, id: &str) -> Vec<Action> {
    b.handle_event(Event::ConsumerAssigned { addr, id: id.to_string() })
}

fn assign_producer(b: &mut Broker, addr: Addr, id: &str) -> Vec<Action> {
    b.handle_event(Event::ProducerAssigned { addr, id: id.to_string() })
}

fn assign_queue(b: &mut Broker, consumer_id: &str, queue: &str) -> Vec<Action> {
    b.handle_event(Event::QueueAssigned {
        consumer_id: consumer_id.to_string(),
        queue: queue.to_string(),
    })
}

fn start_consumer(b: &mut Broker, id: &str) -> Vec<Action> {
    b.handle_event(Event::ConsumerStarted { id: id.to_string() })
}

fn send(b: &mut Broker, queue: &str, producer_id: &str, sender: &str, body: &str) -> Vec<Action> {
    b.handle_event(Event::MessageReceived {
        queue_name: queue.to_string(),
        producer_id: producer_id.to_string(),
        message: Message { sender: sender.to_string(), body: body.to_string() },
    })
}

#[test]
fn declare_queue_creates_it_once() {
    let mut b = Broker::new();
    let acts = declare(&mut b, "orders", 10);
    assert_eq!(
        acts,
        vec![Action::OpenChannel { queue: "orders".to_string(), capacity: 10 }]
    );
    assert_eq!(b.queues.len(), 1);
    assert_eq!(b.queues[0].name, "orders");
    assert_eq!(b.queues[0].capacity, 10);
    assert_eq!(b.queues[0].subs.len(), 0);
}

#[test]
fn redeclare_queue_is_a_noop() {
    let mut b = Broker::new();
    declare(&mut b, "orders", 10);
    connect(&mut b, addr_a());
    assign_consumer(&mut b, addr_a(), "c1");
    assign_queue(&mut b, "c1", "orders");

    // A later declaration under the same name, even with another size,
    // changes neither the capacity nor the subscriber set.
    let acts = declare(&mut b, "orders", 99);
    assert!(acts.is_empty());
    assert_eq!(b.queues.len(), 1);
    assert_eq!(b.queues[0].capacity, 10);
    assert_eq!(b.queues[0].subs.len(), 1);
}

#[test]
fn oversized_declare_is_ignored() {
    let mut b = Broker::new();
    let acts = declare(&mut b, "big", 5001);
    assert!(acts.is_empty());
    assert_eq!(b.queues.len(), 0);

    // The boundary itself is accepted.
    let acts = declare(&mut b, "big", 5000);
    assert_eq!(acts.len(), 1);
    assert_eq!(b.queues.len(), 1);
    assert_eq!(b.queues[0].capacity, 5000);
}

#[test]
fn send_to_unknown_queue_nacks() {
    let mut b = Broker::new();
    connect(&mut b, addr_b());
    assign_producer(&mut b, addr_b(), "p1");
    let acts = send(&mut b, "nowhere", "p1", "p1", "hello");
    assert_eq!(
        acts,
        vec![Action::SendNack {
            producer_id: "p1".to_string(),
            reason: "queue does not exist".to_string(),
        }]
    );
    assert_eq!(b.queues.len(), 0);
}

#[test]
fn send_without_subscribers_nacks() {
    let mut b = Broker::new();
    declare(&mut b, "orders", 10);
    connect(&mut b, addr_b());
    assign_producer(&mut b, addr_b(), "p1");
    let acts = send(&mut b, "orders", "p1", "p1", "hello");
    assert_eq!(
        acts,
        vec![Action::SendNack {
            producer_id: "p1".to_string(),
            reason: "failed to publish message".to_string(),
        }]
    );
    assert_eq!(b.queues[0].subs.len(), 0);
}

#[test]
fn send_with_subscriber_acks_and_delivers() {
    let mut b = Broker::new();
    declare(&mut b, "orders", 10);
    connect(&mut b, addr_a());
    assign_consumer(&mut b, addr_a(), "c1");
    assign_queue(&mut b, "c1", "orders");
    connect(&mut b, addr_b());
    assign_producer(&mut b, addr_b(), "p1");

    let acts = send(&mut b, "orders", "p1", "p1", "hello");
    let expected_msg = Message { sender: "p1".to_string(), body: "hello".to_string() };
    assert_eq!(
        acts,
        vec![
            Action::Deliver { queue: "orders".to_string(), message: expected_msg.clone() },
            Action::SendAck { producer_id: "p1".to_string() },
        ]
    );
    assert_eq!(b.queues[0].subs.len(), 1);
    assert_eq!(b.queues[0].subs[0].buffer, vec![expected_msg]);
}

#[test]
fn duplicate_subscription_delivers_twice() {
    let mut b = Broker::new();
    declare(&mut b, "orders", 10);
    connect(&mut b, addr_a());
    assign_consumer(&mut b, addr_a(), "c1");
    assign_queue(&mut b, "c1", "orders");
    assign_queue(&mut b, "c1", "orders");
    connect(&mut b, addr_b());
    assign_producer(&mut b, addr_b(), "p1");

    assert_eq!(b.queues[0].subs.len(), 2);

    let acts = send(&mut b, "orders", "p1", "p1", "hello");
    assert_eq!(acts.len(), 2);

    // Both subscriptions independently hold their own copy: duplication is
    // the documented behaviour, not de-duplication.
    let expected_msg = Message { sender: "p1".to_string(), body: "hello".to_string() };
    assert_eq!(b.queues[0].subs[0].buffer, vec![expected_msg.clone()]);
    assert_eq!(b.queues[0].subs[1].buffer, vec![expected_msg]);
}

#[test]
fn end_to_end_orders_scenario() {
    let mut b = Broker::new();
    let acts = declare(&mut b, "orders", 10);
    assert_eq!(acts.len(), 1);

    connect(&mut b, addr_a());
    let acts = assign_consumer(&mut b, addr_a(), "c1");
    assert_eq!(
        acts,
        vec![Action::RoleConsumer { addr: addr_a(), id: "c1".to_string() }]
    );

    let acts = assign_queue(&mut b, "c1", "orders");
    assert_eq!(
        acts,
        vec![Action::Subscribe { consumer_id: "c1".to_string(), queue: "orders".to_string() }]
    );

    let acts = start_consumer(&mut b, "c1");
    assert_eq!(acts, vec![Action::StartDelivery { id: "c1".to_string() }]);
    assert_eq!(b.consumers.len(), 0);

    connect(&mut b, addr_b());
    let acts = assign_producer(&mut b, addr_b(), "p1");
    assert_eq!(
        acts,
        vec![Action::RoleProducer { addr: addr_b(), id: "p1".to_string() }]
    );

    let acts = send(&mut b, "orders", "p1", "p1", "hello");
    let expected_msg = Message { sender: "p1".to_string(), body: "hello".to_string() };
    assert_eq!(
        acts,
        vec![
            Action::Deliver { queue: "orders".to_string(), message: expected_msg.clone() },
            Action::SendAck { producer_id: "p1".to_string() },
        ]
    );

    // Consumer A's subscription observed exactly the published record.
    assert_eq!(b.queues[0].subs.len(), 1);
    assert!(b.queues[0].subs[0].started);
    assert_eq!(b.queues[0].subs[0].buffer.len(), 1);
    assert_eq!(b.queues[0].subs[0].buffer[0].sender, "p1");
    assert_eq!(b.queues[0].subs[0].buffer[0].body, "hello");
}

#[test]
fn send_from_unregistered_producer_is_dropped() {
    let mut b = Broker::new();
    declare(&mut b, "orders", 10);
    connect(&mut b, addr_a());
    assign_consumer(&mut b, addr_a(), "c1");
    assign_queue(&mut b, "c1", "orders");

    // No response goes out and no message is delivered.
    let acts = send(&mut b, "orders", "ghost", "ghost", "hello");
    assert!(acts.is_empty());
    assert_eq!(b.queues[0].subs[0].buffer.len(), 0);
}

#[test]
fn ring_drops_oldest_when_full() {
    let mut b = Broker::new();
    declare(&mut b, "tiny", 1);
    connect(&mut b, addr_a());
    assign_consumer(&mut b, addr_a(), "c1");
    assign_queue(&mut b, "c1", "tiny");
    connect(&mut b, addr_b());
    assign_producer(&mut b, addr_b(), "p1");

    send(&mut b, "tiny", "p1", "p1", "first");
    let acts = send(&mut b, "tiny", "p1", "p1", "second");
    assert_eq!(acts.len(), 2);

    // Capacity one: the lagging subscriber lost the oldest message.
    assert_eq!(b.queues[0].subs[0].buffer.len(), 1);
    assert_eq!(b.queues[0].subs[0].buffer[0].body, "second");
}

#[test]
fn stale_role_assignment_is_a_noop() {
    let mut b = Broker::new();
    connect(&mut b, addr_a());
    assign_consumer(&mut b, addr_a(), "c1");

    // The pending entry was consumed by the first assignment; a second
    // assignment from the same address is stale and does nothing.
    let acts = assign_producer(&mut b, addr_a(), "p1");
    assert!(acts.is_empty());
    assert_eq!(b.producers.len(), 0);
    assert_eq!(b.consumers.len(), 1);
}

#[test]
fn consumer_id_free_after_start() {
    let mut b = Broker::new();
    declare(&mut b, "orders", 10);
    connect(&mut b, addr_a());
    assign_consumer(&mut b, addr_a(), "c1");
    assign_queue(&mut b, "c1", "orders");
    start_consumer(&mut b, "c1");

    // The started subscription lives on, and the identifier is reusable:
    // a second consumer under the same id gets its own subscription.
    connect(&mut b, addr_b());
    assign_consumer(&mut b, addr_b(), "c1");
    assign_queue(&mut b, "c1", "orders");

    assert_eq!(b.queues[0].subs.len(), 2);
    assert!(b.queues[0].subs[0].started);
    assert!(!b.queues[0].subs[1].started);
}

#[test]
fn overwriting_consumer_record_drops_its_subscriptions() {
    let mut b = Broker::new();
    declare(&mut b, "orders", 10);
    connect(&mut b, addr_a());
    assign_consumer(&mut b, addr_a(), "c1");
    assign_queue(&mut b, "c1", "orders");

    // Re-assigning the same id from another connection overwrites the
    // not-yet-started record; the subscription it owned dies with it.
    connect(&mut b, addr_b());
    assign_consumer(&mut b, addr_b(), "c1");
    assert_eq!(b.queues[0].subs.len(), 0);
    assert_eq!(b.consumers.len(), 1);
    assert_eq!(b.consumers[0].queues.len(), 0);
}

#[test]
fn zero_capacity_queue_acks_but_keeps_nothing() {
    let mut b = Broker::new();
    declare(&mut b, "void", 0);
    connect(&mut b, addr_a());
    assign_consumer(&mut b, addr_a(), "c1");
    assign_queue(&mut b, "c1", "void");
    connect(&mut b, addr_b());
    assign_producer(&mut b, addr_b(), "p1");

    // A subscriber is attached, so the publish is acknowledged, but a ring
    // with no slots retains nothing.
    let acts = send(&mut b, "void", "p1", "p1", "hello");
    assert_eq!(acts.len(), 2);
    assert_eq!(b.queues[0].subs[0].buffer.len(), 0);
}

#[test]
fn assign_queue_to_missing_consumer_or_queue_is_a_noop() {
    let mut b = Broker::new();
    declare(&mut b, "orders", 10);
    let acts = assign_queue(&mut b, "c1", "orders");
    assert!(acts.is_empty());
    assert_eq!(b.queues[0].subs.len(), 0);

    connect(&mut b, addr_a());
    assign_consumer(&mut b, addr_a(), "c1");
    let acts = assign_queue(&mut b, "c1", "missing");
    assert!(acts.is_empty());
    assert_eq!(b.queues[0].subs.len(), 0);
    assert_eq!(b.consumers[0].queues.len(), 0);
}
