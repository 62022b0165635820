//! Per-packet rewrite helpers of the XDP program: address and port
//! translation with incremental checksum updates, MAC rewriting, and the
//! request and reply of a kernel FIB lookup.

use vstd::prelude::*;
use crate::checksum::{csum_replace4, csum_replace4_spec};
use crate::common::{FibMacs, NATData};
use crate::ebpf::AF_INET;

verus! {

/// The UDP checksum after an address or port rewrite; a computed zero is
/// sent as 0xffff, since zero means "no checksum" in UDP.
pub open spec fn udp_check_after(csum: u16, old_port: u16, new_port: u16, old_addr: u32, new_addr: u32) -> u16 {
    let c1 = csum_replace4_spec(csum as u32, old_port as u32, new_port as u32);
    let c2 = csum_replace4_spec(c1 as u32, old_addr, new_addr);
    if c2 == 0 { 0xffff } else { c2 }
}

/// Rewrites the destination address and port to the binding in `nat`,
/// updating the IPv4 header checksum, and the UDP checksum when the packet
/// carries one. A packet without UDP checksum keeps its destination port.
/// All values are in host byte order.
pub fn apply_ip_dnat(
    nat_data: &NATData,
    ip_check: &mut u16,
    udp_check: &mut u16,
    dst_addr: &mut u32,
    dst_port: &mut u16,
)
    ensures
        *old(udp_check) != 0 ==> *final(udp_check) == udp_check_after(
            *old(udp_check),
            *old(dst_port),
            nat_data.nat_port,
            *old(dst_addr),
            nat_data.nat_addr,
        ) && *final(dst_port) == nat_data.nat_port,
        *old(udp_check) == 0 ==> *final(udp_check) == 0 && *final(dst_port) == *old(dst_port),
        *final(ip_check) == csum_replace4_spec(*old(ip_check) as u32, *old(dst_addr), nat_data.nat_addr),
        *final(dst_addr) == nat_data.nat_addr,
{
    let nat_port = nat_data.nat_port;
    let nat_addr = nat_data.nat_addr;
    if *udp_check != 0 {
        *udp_check = csum_replace4(*udp_check as u32, *dst_port as u32, nat_port as u32);
        *dst_port = nat_port;
        *udp_check = csum_replace4(*udp_check as u32, *dst_addr, nat_addr);
        if *udp_check == 0 {
            *udp_check = 0xFFFF;
        }
    }
    *ip_check = csum_replace4(*ip_check as u32, *dst_addr, nat_addr);
    *dst_addr = nat_addr;
}

/// Rewrites the source address and port to the binding in `nat`; the
/// mirror image of `apply_ip_dnat`.
pub fn apply_ip_snat(
    nat_data: &NATData,
    ip_check: &mut u16,
    udp_check: &mut u16,
    src_addr: &mut u32,
    src_port: &mut u16,
)
    ensures
        *old(udp_check) != 0 ==> *final(udp_check) == udp_check_after(
            *old(udp_check),
            *old(src_port),
            nat_data.nat_port,
            *old(src_addr),
            nat_data.nat_addr,
        ) && *final(src_port) == nat_data.nat_port,
        *old(udp_check) == 0 ==> *final(udp_check) == 0 && *final(src_port) == *old(src_port),
        *final(ip_check) == csum_replace4_spec(*old(ip_check) as u32, *old(src_addr), nat_data.nat_addr),
        *final(src_addr) == nat_data.nat_addr,
{
    let nat_port = nat_data.nat_port;
    let nat_addr = nat_data.nat_addr;
    if *udp_check != 0 {
        *udp_check = csum_replace4(*udp_check as u32, *src_port as u32, nat_port as u32);
        *src_port = nat_port;
        *udp_check = csum_replace4(*udp_check as u32, *src_addr, nat_addr);
        if *udp_check == 0 {
            *udp_check = 0xFFFF;
        }
    }
    *ip_check = csum_replace4(*ip_check as u32, *src_addr, nat_addr);
    *src_addr = nat_addr;
}

/// Copies the forwarding MAC addresses into the Ethernet header.
pub fn rewrite_macs(eth_src_addr: &mut [u8; 6], eth_dst_addr: &mut [u8; 6], fib: FibMacs)
    ensures
        *final(eth_src_addr) == fib.fib_smac,
        *final(eth_dst_addr) == fib.fib_dmac,
{
    *eth_src_addr = fib.fib_smac;
    *eth_dst_addr = fib.fib_dmac;
}

/// `BPF_FIB_LOOKUP_DIRECT`: look the route up in the main table directly,
/// skipping policy rules.
pub const BPF_FIB_LOOKUP_DIRECT: u32 = 1;

/// Size in bytes of the kernel's `struct bpf_fib_lookup`.
pub const BPF_FIB_LOOKUP_SIZE: i32 = 64;

/// A kernel FIB lookup request: the fields of `struct bpf_fib_lookup` the
/// XDP program sets, and the size and flags it passes to the helper.
#[derive(Clone, Copy, PartialEq, Eq, Structural, Debug)]
pub struct FibLookupRequest {
    pub family: u8,
    pub l4_protocol: u8,
    pub ipv4_src: u32,
    pub ipv4_dst: u32,
    pub tot_len: u16,
    pub ifindex: u32,
    pub size: i32,
    pub flags: u32,
}

/// The request for an IPv4 lookup of `proto` from `saddr` to `daddr`.
pub open spec fn fib_request_spec(proto: u8, saddr: u32, daddr: u32, tot_len: u16, ifindex: u32) -> FibLookupRequest {
    FibLookupRequest {
        family: AF_INET,
        l4_protocol: proto,
        ipv4_src: saddr,
        ipv4_dst: daddr,
        tot_len,
        ifindex,
        size: BPF_FIB_LOOKUP_SIZE,
        flags: BPF_FIB_LOOKUP_DIRECT,
    }
}

/// The request `do_fib_lookup` hands to the kernel: an IPv4 lookup for the
/// given protocol, addresses, packet length and ingress interface, over the
/// whole lookup structure, bypassing policy routing.
pub fn fib_lookup_request(proto: u8, saddr: u32, daddr: u32, tot_len: u16, ifindex: u32) -> (res:
    FibLookupRequest)
    ensures
        res == fib_request_spec(proto, saddr, daddr, tot_len, ifindex),
        res.family == AF_INET,
        res.size == BPF_FIB_LOOKUP_SIZE,
        res.flags == BPF_FIB_LOOKUP_DIRECT,
{
    FibLookupRequest {
        family: AF_INET,
        l4_protocol: proto,
        ipv4_src: saddr,
        ipv4_dst: daddr,
        tot_len,
        ifindex,
        size: BPF_FIB_LOOKUP_SIZE,
        flags: BPF_FIB_LOOKUP_DIRECT,
    }
}

/// What `get_fib_macs` makes of the kernel's answer: the MAC pair when the
/// lookup succeeded (return code 0), nothing otherwise.
pub fn fib_macs_from_lookup(rc: i64, smac: [u8; 6], dmac: [u8; 6]) -> (res: Option<FibMacs>)
    ensures
        rc != 0 ==> res is None,
        rc == 0 ==> res == Some(FibMacs { fib_smac: smac, fib_dmac: dmac }),
{
    if rc != 0 {
        return None;
    }
    Some(FibMacs { fib_smac: smac, fib_dmac: dmac })
}

} // verus!
