//! The network address of a connected peer, as plain values.

use vstd::prelude::*;

verus! {

/// An IPv4 peer address and port.  The coordinator keys its table of
/// pending (role-less) connections by this value; the socket itself and its
/// write half stay with the surrounding network code.
#[derive(Clone, Copy, Debug, PartialEq, Eq, Hash, Structural)]
pub struct Addr {
    pub ip0: u8,
    pub ip1: u8,
    pub ip2: u8,
    pub ip3: u8,
    pub port: u16,
}

impl Addr {
    pub fn new(ip0: u8, ip1: u8, ip2: u8, ip3: u8, port: u16) -> (r: Self)
        ensures
            r == (Addr { ip0, ip1, ip2, ip3, port }),
    {
        Addr { ip0, ip1, ip2, ip3, port }
    }
}

} // verus!
