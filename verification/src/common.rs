//! Types shared by the XDP data path and the control plane: connection
//! tuples, NAT bindings and per-flow conntrack state.

use vstd::prelude::*;

verus! {

/// Lifetime (ns) granted to a flow that has not yet seen a reply.
pub const TIMEOUT_NEW: u64 = 30_000_000_000;

/// Lifetime (ns) granted to a flow that has seen traffic both ways.
pub const TIMEOUT_EST: u64 = 180_000_000_000;

/// Where a container port is exposed on the host.
#[derive(Clone, Copy, PartialEq, Eq, Structural, Debug)]
pub struct HostInfo {
    pub host_ip: u32,
    pub host_port: u16,
    pub host_ifindex: u32,
}

/// The container endpoint behind an exposed host port.
#[derive(Clone, Copy, PartialEq, Eq, Debug)]
pub struct ContainerInfo {
    pub container_ip: u32,
    pub container_mac: [u8; 6],
    pub container_port: u16,
    pub ifindex: u32,
}

/// Source and destination MAC addresses a forwarded frame is given.
#[derive(Clone, Copy, PartialEq, Eq, Debug)]
pub struct FibMacs {
    pub fib_smac: [u8; 6],
    pub fib_dmac: [u8; 6],
}

impl Default for FibMacs {
    /// Both addresses all zero.
    fn default() -> (res: Self)
        ensures
            res.fib_smac@ == seq![0u8, 0u8, 0u8, 0u8, 0u8, 0u8],
            res.fib_dmac@ == seq![0u8, 0u8, 0u8, 0u8, 0u8, 0u8],
    {
        FibMacs { fib_smac: [0u8; 6], fib_dmac: [0u8; 6] }
    }
}

/// A UDP flow as seen in one packet: addresses and ports in host order.
#[derive(Clone, Copy, PartialEq, Eq, Structural, Debug)]
pub struct ConnectionTuple {
    pub src_addr: u32,
    pub dst_addr: u32,
    pub src_port: u16,
    pub dst_port: u16,
}

impl ConnectionTuple {
    pub fn new(src_addr: u32, dst_addr: u32, src_port: u16, dst_port: u16) -> (res: Self)
        ensures
            res == (ConnectionTuple { src_addr, dst_addr, src_port, dst_port }),
    {
        Self { src_addr, dst_addr, src_port, dst_port }
    }
}

/// The rewrite a flow's packets receive, and where they are forwarded.
#[derive(Clone, Copy, PartialEq, Eq, Debug)]
pub struct NATData {
    pub nat_addr: u32,
    pub nat_port: u16,
    pub fib_macs: FibMacs,
    pub devmap_key: u32,
}

impl NATData {
    pub fn new(nat_addr: u32, nat_port: u16, fib_macs: FibMacs, devmap_key: u32) -> (res: Self)
        ensures
            res == (NATData { nat_addr, nat_port, fib_macs, devmap_key }),
    {
        Self { nat_addr, nat_port, fib_macs, devmap_key }
    }
}

/// Whether a conntrack entry describes the flow's first direction or its reply.
#[derive(Clone, Copy, PartialEq, Eq, Structural, Debug)]
pub enum Direction {
    Original,
    Reply,
}

/// One conntrack entry.
#[derive(Clone, Copy, PartialEq, Eq, Debug)]
pub struct FlowState {
    pub nat_data: NATData,
    pub direction: Direction,
    pub seen_reply: bool,
    pub timeout: u64,
}

impl FlowState {
    pub fn new(nat_data: NATData, direction: Direction, timeout: u64) -> (res: Self)
        ensures
            res == (FlowState { nat_data, direction, seen_reply: false, timeout }),
    {
        Self { nat_data, direction, seen_reply: false, timeout }
    }
}

} // verus!
