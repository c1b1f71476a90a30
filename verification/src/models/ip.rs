//! IPv4 addresses and networks, held as plain integers.
use vstd::prelude::*;

verus! {

/// An IPv4 address (big-endian value of its four octets).
#[derive(Debug, Clone, Copy, PartialEq, Eq, Structural)]
pub struct Ipv4Address(pub u32);

/// An address inside a network: the address and the length of the network
/// prefix, at most 32.
#[derive(Debug, Clone, Copy, PartialEq, Eq, Structural)]
pub struct Ipv4Inet {
    pub address: u32,
    pub network_length: u8,
}

/// A network: its first address, whose host bits are zero, and the length of
/// its prefix, at most 32.
#[derive(Debug, Clone, Copy, PartialEq, Eq, Structural)]
pub struct Ipv4Cidr {
    pub first_address: u32,
    pub network_length: u8,
}

/// The netmask of a prefix length: `len` leading one bits.
pub open spec fn netmask(len: u8) -> u32 {
    if len == 0 {
        0u32
    } else {
        (0xffff_ffffu32 << ((32 - len) as u32)) as u32
    }
}

impl Ipv4Inet {
    /// The prefix length is that of an IPv4 network.
    pub open spec fn wf(self) -> bool {
        self.network_length <= 32
    }

    /// The network that contains the address.
    pub fn network(&self) -> (r: Ipv4Cidr)
        requires
            self.wf(),
        ensures
            r.first_address == self.address & netmask(self.network_length),
            r.network_length == self.network_length,
    {
        let mask: u32 = if self.network_length == 0 {
            0
        } else {
            0xffff_ffffu32 << ((32 - self.network_length) as u32)
        };
        Ipv4Cidr { first_address: self.address & mask, network_length: self.network_length }
    }

    /// The address itself, without its network.
    pub fn address(&self) -> (r: Ipv4Address)
        ensures
            r.0 == self.address,
    {
        Ipv4Address(self.address)
    }
}

} // verus!
