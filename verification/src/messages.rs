//! Client-role announcement frames.

use vstd::prelude::*;

verus! {

/// A client's self-description frame: a consumer with the queues it wants,
/// a producer, or a single data record for a queue.  Like [`crate::command::Command`]
/// this is the decoded form of a wire frame; the codec lives outside the crate.
#[derive(Clone, Debug, PartialEq)]
pub enum MsgIn {
    Consumer { id: String, queues: Vec<String> },
    Producer { id: String },
    Data { queue: String, sender: String, body: String },
}

/// Mathematical value of a [`MsgIn`].
#[verifier::ext_equal]
pub enum MsgInV {
    Consumer { id: Seq<char>, queues: Seq<Seq<char>> },
    Producer { id: Seq<char> },
    Data { queue: Seq<char>, sender: Seq<char>, body: Seq<char> },
}

impl View for MsgIn {
    type V = MsgInV;

    open spec fn view(&self) -> MsgInV {
        match self {
            MsgIn::Consumer { id, queues } => MsgInV::Consumer {
                id: id@,
                queues: queues.deep_view(),
            },
            MsgIn::Producer { id } => MsgInV::Producer { id: id@ },
            MsgIn::Data { queue, sender, body } => MsgInV::Data {
                queue: queue@,
                sender: sender@,
                body: body@,
            },
        }
    }
}

} // verus!
