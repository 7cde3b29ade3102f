//! The coordinator's record of a consumer that is assigned but not started.

use vstd::prelude::*;

verus! {

/// The value sequence of a sequence of strings.
pub open spec fn strs_view(s: Seq<String>) -> Seq<Seq<char>> {
    s.map_values(|x: String| x@)
}

/// A consumer between role assignment and start: its identifier and the
/// names of the queues it has been subscribed to so far, in subscription
/// order.  The write half of its socket and the receiving ends of its
/// subscriptions stay with the surrounding network code; once the consumer
/// is started they move into a delivery task and this record is dropped.
pub struct Consumer {
    pub id: String,
    pub queues: Vec<String>,
}

/// Mathematical value of a [`Consumer`].
#[verifier::ext_equal]
pub struct ConsumerV {
    pub id: Seq<char>,
    pub queues: Seq<Seq<char>>,
}

impl View for Consumer {
    type V = ConsumerV;

    open spec fn view(&self) -> ConsumerV {
        ConsumerV { id: self.id@, queues: strs_view(self.queues@) }
    }
}

impl Consumer {
    /// A fresh record with no subscriptions.
    pub fn new(id: String) -> (c: Consumer)
        ensures
            c@ == (ConsumerV { id: id@, queues: Seq::<Seq<char>>::empty() }),
    {
        let c = Consumer { id, queues: Vec::new() };
        proof {
            assert(strs_view(c.queues@) =~= Seq::<Seq<char>>::empty());
        }
        c
    }

    /// Records one more queue subscription held by this record.
    pub fn add_queue(&mut self, queue: String)
        ensures
            final(self)@ == (ConsumerV {
                queues: old(self)@.queues.push(queue@),
                ..old(self)@
            }),
    {
        let ghost snap = self@;
        let ghost qv = queue@;
        self.queues.push(queue);
        proof {
            assert(strs_view(self.queues@) =~= snap.queues.push(qv));
        }
    }
}

} // verus!
