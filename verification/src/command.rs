//! The discriminated commands read off the wire.

use vstd::prelude::*;
use crate::message::Message;
use crate::message::MessageV;

verus! {

/// One self-contained command frame from a client, already decoded from its
/// wire form.  Decoding bytes into a `Command` is the codec's job and happens
/// outside this crate; everything downstream of it is verified.
#[derive(Debug, PartialEq)]
pub enum Command {
    AssignConsumer { id: String },
    StartConsumer { id: String },
    AssignProducer { id: String },
    AssignQueue { consumer_id: String, queue: String },
    DeclareQueue { name: String, size: usize },
    SendMessage { queue: String, producer_id: String, msg: Message },
}

/// Mathematical value of a [`Command`].
#[verifier::ext_equal]
pub enum CommandV {
    AssignConsumer { id: Seq<char> },
    StartConsumer { id: Seq<char> },
    AssignProducer { id: Seq<char> },
    AssignQueue { consumer_id: Seq<char>, queue: Seq<char> },
    DeclareQueue { name: Seq<char>, size: usize },
    SendMessage { queue: Seq<char>, producer_id: Seq<char>, msg: MessageV },
}

impl View for Command {
    type V = CommandV;

    open spec fn view(&self) -> CommandV {
        match self {
            Command::AssignConsumer { id } => CommandV::AssignConsumer { id: id@ },
            Command::StartConsumer { id } => CommandV::StartConsumer { id: id@ },
            Command::AssignProducer { id } => CommandV::AssignProducer { id: id@ },
            Command::AssignQueue { consumer_id, queue } => CommandV::AssignQueue {
                consumer_id: consumer_id@,
                queue: queue@,
            },
            Command::DeclareQueue { name, size } => CommandV::DeclareQueue {
                name: name@,
                size: *size,
            },
            Command::SendMessage { queue, producer_id, msg } => CommandV::SendMessage {
                queue: queue@,
                producer_id: producer_id@,
                msg: msg@,
            },
        }
    }
}

} // verus!
