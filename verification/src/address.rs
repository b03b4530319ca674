//! IPv4 addresses as four octets.

use vstd::prelude::*;

verus! {

/// An IPv4 address `a.b.c.d`.
#[derive(Clone, Copy, Debug, PartialEq, Eq, Structural)]
pub struct Ipv4Address {
    pub a: u8,
    pub b: u8,
    pub c: u8,
    pub d: u8,
}

impl Ipv4Address {
    /// The loopback address `127.0.0.1`.
    pub open spec fn loopback_spec() -> Ipv4Address {
        Ipv4Address { a: 127, b: 0, c: 0, d: 1 }
    }

    /// The address `a.b.c.d`.
    pub fn new(a: u8, b: u8, c: u8, d: u8) -> (address: Self)
        ensures
            address == (Ipv4Address { a, b, c, d }),
    {
        Ipv4Address { a, b, c, d }
    }

    /// The loopback address `127.0.0.1`.
    pub fn loopback() -> (address: Self)
        ensures
            address == Self::loopback_spec(),
    {
        Ipv4Address { a: 127, b: 0, c: 0, d: 1 }
    }

    /// The four octets, most significant first.
    pub fn octets(&self) -> (octets: [u8; 4])
        ensures
            octets@ == seq![self.a, self.b, self.c, self.d],
    {
        let octets: [u8; 4] = [self.a, self.b, self.c, self.d];
        assert(octets@ =~= seq![self.a, self.b, self.c, self.d]);
        octets
    }
}

} // verus!
