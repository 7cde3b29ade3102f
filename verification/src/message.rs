//! The payload value published to a queue and fanned out to subscribers.

use vstd::prelude::*;

verus! {

/// A published payload: the sending producer's identifier and the body.
/// Immutable once built; it is cloned to every subscriber of a queue.
#[derive(Debug, PartialEq)]
pub struct Message {
    pub sender: String,
    pub body: String,
}

/// Mathematical value of a [`Message`]: both fields as character sequences.
#[verifier::ext_equal]
pub struct MessageV {
    pub sender: Seq<char>,
    pub body: Seq<char>,
}

impl View for Message {
    type V = MessageV;

    open spec fn view(&self) -> MessageV {
        MessageV { sender: self.sender@, body: self.body@ }
    }
}

impl Clone for Message {
    fn clone(&self) -> (r: Self)
        ensures
            r == self,
    {
        Message { sender: self.sender.clone(), body: self.body.clone() }
    }
}

} // verus!
