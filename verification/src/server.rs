//! Producer-facing acknowledgments and the one-frame request service.

use vstd::prelude::*;
use vstd::string::StringSliceAdditionalSpecFns;
use crate::command::Command;

verus! {

/// A positive or negative acknowledgment for one request.
#[derive(Clone, Copy, Debug, PartialEq, Eq, Structural)]
pub enum Response {
    Ack,
    Nack,
}

/// The literal bytes a [`Response`] puts on the wire.
pub open spec fn response_bytes(r: Response) -> Seq<u8> {
    match r {
        Response::Ack => "ACK".spec_bytes(),
        Response::Nack => "NACK".spec_bytes(),
    }
}

impl Response {
    /// The wire form of this acknowledgment.
    pub fn as_bytes(&self) -> (r: &[u8])
        ensures
            r@ == response_bytes(*self),
    {
        match self {
            Response::Ack => "ACK".as_bytes(),
            Response::Nack => "NACK".as_bytes(),
        }
    }
}

/// The negative-acknowledgment frame carrying a reason: the bytes of
/// `NACK:` followed by the bytes of the reason.
pub fn nack_msg(msg: &str) -> (r: Vec<u8>)
    ensures
        r@ == "NACK:".spec_bytes() + msg.spec_bytes(),
{
    let mut out: Vec<u8> = Vec::new();
    out.extend_from_slice("NACK:".as_bytes());
    out.extend_from_slice(msg.as_bytes());
    proof {
        assert(out@ =~= "NACK:".spec_bytes() + msg.spec_bytes());
    }
    out
}

/// A one-frame request service: every frame that decoded into a command is
/// acknowledged, everything else is refused.  Decoding itself happens
/// outside the crate; the service is handed the decoder's verdict.
pub struct Server;

impl Server {
    /// The service's answer to one request frame.
    pub fn call(&mut self, req: Option<Command>) -> (f: ResponseFuture)
        ensures
            f.response == if req is Some {
                Response::Ack
            } else {
                Response::Nack
            },
    {
        match req {
            Some(_) => ResponseFuture::new(Response::Ack),
            None => ResponseFuture::new(Response::Nack),
        }
    }
}

/// An already-decided response, waiting to be polled once.
pub struct ResponseFuture {
    pub response: Response,
}

impl ResponseFuture {
    pub fn new(response: Response) -> (f: Self)
        ensures
            f.response == response,
    {
        ResponseFuture { response }
    }
}

} // verus!
