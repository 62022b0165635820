//! Verified core of a UDP NAT / traffic offload data path for containers:
//! the conntrack and NAT decisions an XDP program takes per packet, the
//! one's-complement checksum arithmetic it uses, and the control plane's
//! port allocation and port-exposure bookkeeping.

pub mod api;
pub mod bpf_map;
pub mod checksum;
pub mod common;
pub mod config;
pub mod conntrack;
pub mod containers;
pub mod control;
pub mod datapath;
pub mod delivery;
pub mod ebpf;
pub mod helpers;
pub mod ipv4;
pub mod nat_checksum;
pub mod natd;
pub mod packet;
pub mod port_allocator;
pub mod text;
