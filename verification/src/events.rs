//! The events the coordinator consumes, and their construction from commands.

use vstd::prelude::*;
use crate::addr::Addr;
use crate::command::Command;
use crate::command::CommandV;
use crate::message::Message;
use crate::message::MessageV;

verus! {

/// One event on the coordinator's inbound channel.  Connection handlers tag
/// each decoded command with the connection's address and forward it here;
/// `NewConnection` is announced by the handler itself when a socket is
/// accepted (the write half of the socket stays with the network code, keyed
/// by the same address).
#[derive(Debug, PartialEq)]
pub enum Event {
    NewConnection { addr: Addr },
    ConsumerAssigned { addr: Addr, id: String },
    ConsumerStarted { id: String },
    ProducerAssigned { addr: Addr, id: String },
    QueueAssigned { consumer_id: String, queue: String },
    QueueDeclared { queue_name: String, size: usize },
    MessageReceived { queue_name: String, producer_id: String, message: Message },
}

/// Mathematical value of an [`Event`].
#[verifier::ext_equal]
pub enum EventV {
    NewConnection { addr: Addr },
    ConsumerAssigned { addr: Addr, id: Seq<char> },
    ConsumerStarted { id: Seq<char> },
    ProducerAssigned { addr: Addr, id: Seq<char> },
    QueueAssigned { consumer_id: Seq<char>, queue: Seq<char> },
    QueueDeclared { queue_name: Seq<char>, size: usize },
    MessageReceived { queue_name: Seq<char>, producer_id: Seq<char>, message: MessageV },
}

impl View for Event {
    type V = EventV;

    open spec fn view(&self) -> EventV {
        match self {
            Event::NewConnection { addr } => EventV::NewConnection { addr: *addr },
            Event::ConsumerAssigned { addr, id } => EventV::ConsumerAssigned {
                addr: *addr,
                id: id@,
            },
            Event::ConsumerStarted { id } => EventV::ConsumerStarted { id: id@ },
            Event::ProducerAssigned { addr, id } => EventV::ProducerAssigned {
                addr: *addr,
                id: id@,
            },
            Event::QueueAssigned { consumer_id, queue } => EventV::QueueAssigned {
                consumer_id: consumer_id@,
                queue: queue@,
            },
            Event::QueueDeclared { queue_name, size } => EventV::QueueDeclared {
                queue_name: queue_name@,
                size: *size,
            },
            Event::MessageReceived { queue_name, producer_id, message } => EventV::MessageReceived {
                queue_name: queue_name@,
                producer_id: producer_id@,
                message: message@,
            },
        }
    }
}

/// The event a command from the connection at `addr` turns into.
pub open spec fn event_of_command(c: CommandV, addr: Addr) -> EventV {
    match c {
        CommandV::AssignConsumer { id } => EventV::ConsumerAssigned { addr, id },
        CommandV::StartConsumer { id } => EventV::ConsumerStarted { id },
        CommandV::AssignProducer { id } => EventV::ProducerAssigned { addr, id },
        CommandV::AssignQueue { consumer_id, queue } => EventV::QueueAssigned {
            consumer_id,
            queue,
        },
        CommandV::DeclareQueue { name, size } => EventV::QueueDeclared {
            queue_name: name,
            size,
        },
        CommandV::SendMessage { queue, producer_id, msg } => EventV::MessageReceived {
            queue_name: queue,
            producer_id,
            message: msg,
        },
    }
}

impl Event {
    /// Tags a decoded command with the address it arrived from.
    pub fn from_network_command(cmd: Command, addr: Addr) -> (e: Event)
        ensures
            e@ == event_of_command(cmd@, addr),
    {
        match cmd {
            Command::AssignConsumer { id } => Event::ConsumerAssigned { addr, id },
            Command::StartConsumer { id } => Event::ConsumerStarted { id },
            Command::AssignProducer { id } => Event::ProducerAssigned { addr, id },
            Command::AssignQueue { consumer_id, queue } => Event::QueueAssigned {
                consumer_id,
                queue,
            },
            Command::DeclareQueue { name, size } => Event::QueueDeclared {
                queue_name: name,
                size,
            },
            Command::SendMessage { queue, producer_id, msg } => Event::MessageReceived {
                queue_name: queue,
                producer_id,
                message: msg,
            },
        }
    }
}

} // verus!
