//! Constants and conntrack record types of the XDP program.

use vstd::prelude::*;

verus! {

/// Largest number of tracked connections.
pub const NF_CONNTRACK_MAX: u32 = 256;

/// Address family numbers used in FIB lookups.
pub const AF_INET: u8 = 2;

pub const AF_INET6: u8 = 10;

/// Which translation an XDP entry point applies: source NAT for traffic
/// leaving containers, destination NAT for traffic arriving at the host.
#[derive(PartialEq, Eq, Structural, Clone, Copy, Debug)]
pub enum Flags {
    Snat,
    Dnat,
}

/// Source and destination MAC addresses a forwarded frame is given.
#[derive(Clone, Copy, PartialEq, Eq, Debug)]
pub struct FibMacs {
    pub fib_smac: [u8; 6],
    pub fib_dmac: [u8; 6],
}

impl Default for FibMacs {
    /// Both addresses all zero.
    fn default() -> (res: Self)
        ensures
            res.fib_smac@ == seq![0u8, 0u8, 0u8, 0u8, 0u8, 0u8],
            res.fib_dmac@ == seq![0u8, 0u8, 0u8, 0u8, 0u8, 0u8],
    {
        FibMacs { fib_smac: [0u8; 6], fib_dmac: [0u8; 6] }
    }
}

/// Key of a conntrack entry.
#[derive(PartialEq, Eq, Structural, Clone, Copy, Debug)]
pub struct ConntrackKey {
    pub src_addr: u32,
    pub dst_addr: u32,
    pub src_port: u16,
    pub dst_port: u16,
}

impl ConntrackKey {
    pub fn new(src_addr: u32, dst_addr: u32, src_port: u16, dst_port: u16) -> (res: Self)
        ensures
            res == (ConntrackKey { src_addr, dst_addr, src_port, dst_port }),
    {
        Self { src_addr, dst_addr, src_port, dst_port }
    }
}

/// Value of a conntrack entry: the translation and where to forward.
#[derive(Clone, Copy, PartialEq, Eq, Debug)]
pub struct ConntrackValue {
    pub nat_addr: u32,
    pub nat_port: u16,
    pub fib_macs: FibMacs,
    pub devmap_key: u32,
}

impl ConntrackValue {
    pub fn new(nat_addr: u32, nat_port: u16, fib_macs: FibMacs, devmap_key: u32) -> (res: Self)
        ensures
            res == (ConntrackValue { nat_addr, nat_port, fib_macs, devmap_key }),
    {
        Self { nat_addr, nat_port, fib_macs, devmap_key }
    }
}

impl Default for ConntrackValue {
    /// All fields zero.
    fn default() -> (res: Self)
        ensures
            res.nat_addr == 0,
            res.nat_port == 0,
            res.devmap_key == 0,
            res.fib_macs.fib_smac@ == seq![0u8, 0u8, 0u8, 0u8, 0u8, 0u8],
            res.fib_macs.fib_dmac@ == seq![0u8, 0u8, 0u8, 0u8, 0u8, 0u8],
    {
        ConntrackValue { nat_addr: 0, nat_port: 0, fib_macs: FibMacs::default(), devmap_key: 0 }
    }
}

} // verus!
