//! The addresses that packets travel between, as plain bytes.

use vstd::prelude::*;

verus! {

/// An IPv4 address.
#[derive(Debug, Clone, Copy, PartialEq, Eq)]
pub struct Ipv4Addr {
    /// The four octets, in the order they are written.
    pub octets: [u8; 4],
}

impl View for Ipv4Addr {
    type V = Seq<u8>;

    open spec fn view(&self) -> Seq<u8> {
        self.octets@
    }
}

impl Ipv4Addr {
    /// The address written `a.b.c.d`.
    pub fn new(a: u8, b: u8, c: u8, d: u8) -> (address: Ipv4Addr)
        ensures
            address@ == seq![a, b, c, d],
    {
        let address = Ipv4Addr { octets: [a, b, c, d] };
        assert(address@ =~= seq![a, b, c, d]);
        address
    }

    /// The wildcard address `0.0.0.0`.
    pub open spec fn wildcard() -> Ipv4Addr {
        Ipv4Addr { octets: [0, 0, 0, 0] }
    }

    /// The wildcard address `0.0.0.0`.
    pub fn unspecified() -> (address: Ipv4Addr)
        ensures
            address == Ipv4Addr::wildcard(),
    {
        Ipv4Addr { octets: [0, 0, 0, 0] }
    }

    /// Whether this is the wildcard address.
    pub fn is_unspecified(&self) -> (unspecified: bool)
        ensures
            unspecified == (*self == Ipv4Addr::wildcard()),
    {
        let o = &self.octets;
        let unspecified = o[0] == 0 && o[1] == 0 && o[2] == 0 && o[3] == 0;
        assert(unspecified ==> self.octets =~= Ipv4Addr::wildcard().octets);
        unspecified
    }
}

/// An IP address of either version.
#[derive(Debug, Clone, Copy, PartialEq, Eq)]
pub enum IpAddr {
    V4(Ipv4Addr),
    V6([u8; 16]),
}

/// One end of a UDP flow.
#[derive(Debug, Clone, Copy, PartialEq, Eq)]
pub struct SocketAddr {
    pub ip: IpAddr,
    pub port: u16,
}

} // verus!
