use fanout_broker::addr::Addr;
use fanout_broker::command::Command;
use fanout_broker::events::Event;
use fanout_broker::message::Message;

#[test]
fn consumer_assigned_from_command() -> Result<(), ()> {
    let addr = Addr::new(127, 0, 0, 1, 8080);
    let id = "test".to_string();
    let cmd = Command::AssignConsumer { id: id.clone() };

    let actual = Event::from_network_command(cmd, addr);

    match actual {
        Event::ConsumerAssigned { addr: actual_addr, id: actual_id } => {
            assert_eq!(addr, actual_addr);
            assert_eq!(id, actual_id);
            Ok(())
        }
        _ => Err(()),
    }
}

#[test]
fn consumer_started_from_command() -> Result<(), ()> {
    let addr = Addr::new(127, 0, 0, 1, 8080);
    let id = "test".to_string();
    let cmd = Command::StartConsumer { id: id.clone() };

    let actual = Event::from_network_command(cmd, addr);

    match actual {
        Event::ConsumerStarted { id: actual_id } => {
            assert_eq!(id, actual_id);
            Ok(())
        }
        _ => Err(()),
    }
}

#[test]
fn producer_assigned_from_command() -> Result<(), ()> {
    let addr = Addr::new(127, 0, 0, 1, 8080);
    let id = "test".to_string();
    let cmd = Command::AssignProducer { id: id.clone() };

    let actual = Event::from_network_command(cmd, addr);

    match actual {
        Event::ProducerAssigned { addr: actual_addr, id: actual_id } => {
            assert_eq!(addr, actual_addr);
            assert_eq!(id, actual_id);
            Ok(())
        }
        _ => Err(()),
    }
}

#[test]
fn queue_assigned_from_command() -> Result<(), ()> {
    let addr = Addr::new(127, 0, 0, 1, 8080);
    let id = "test".to_string();
    let queue = "test_queue".to_string();
    let cmd = Command::AssignQueue {
        consumer_id: id.clone(),
        queue: queue.clone(),
    };

    let actual = Event::from_network_command(cmd, addr);

    match actual {
        Event::QueueAssigned { consumer_id: actual_consumer_id, queue: actual_queue } => {
            assert_eq!(id, actual_consumer_id);
            assert_eq!(queue, actual_queue);
            Ok(())
        }
        _ => Err(()),
    }
}

#[test]
fn queue_declared_from_command() -> Result<(), ()> {
    let addr = Addr::new(127, 0, 0, 1, 8080);
    let queue = "test_queue".to_string();
    let cmd = Command::DeclareQueue {
        name: queue.clone(),
        size: 100,
    };

    let actual = Event::from_network_command(cmd, addr);

    match actual {
        Event::QueueDeclared { queue_name: actual_queue, size: actual_size } => {
            assert_eq!(queue, actual_queue);
            assert_eq!(100, actual_size);
            Ok(())
        }
        _ => Err(()),
    }
}

#[test]
fn message_received_from_command() -> Result<(), ()> {
    let addr = Addr::new(127, 0, 0, 1, 8080);
    let queue = "test_queue".to_string();
    let producer_id = "producer1".to_string();
    let msg = Message {
        sender: "producer1".to_string(),
        body: "hello".to_string(),
    };
    let cmd = Command::SendMessage {
        queue: queue.clone(),
        producer_id: producer_id.clone(),
        msg: msg.clone(),
    };

    let actual = Event::from_network_command(cmd, addr);

    match actual {
        Event::MessageReceived {
            queue_name: actual_queue,
            producer_id: actual_producer_id,
            message: actual_message,
        } => {
            assert_eq!(queue, actual_queue);
            assert_eq!(producer_id, actual_producer_id);
            assert_eq!(msg, actual_message);
            Ok(())
        }
        _ => Err(()),
    }
}
