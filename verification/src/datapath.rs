//! The XDP data path: which frames are candidates for offload, how UDP
//! flows are tracked and translated, and where a frame is forwarded.
//!
//! The kernel-side services the program relies on are inputs here: the
//! current time, and the kernel's answer to the one FIB lookup a new flow
//! needs (`route_request` says which lookup that is).

use vstd::prelude::*;
use crate::bpf_map::{BpfHashMap, BPF_ANY, BPF_NOEXIST};
use crate::common::{
    ConnectionTuple, ContainerInfo, Direction, FibMacs, FlowState, HostInfo, NATData, TIMEOUT_EST,
    TIMEOUT_NEW,
};
use crate::conntrack::{ConntrackMap, CONNTRACK_MAX_ENTRIES};
use crate::ebpf::Flags;
use crate::helpers::{
    apply_ip_dnat, apply_ip_snat, fib_lookup_request, fib_request_spec, rewrite_macs,
    udp_check_after, FibLookupRequest,
};
use crate::checksum::csum_replace4_spec;
use crate::packet::{
    be16, be32, mac_array, mac_at, read_be16, read_be32, read_mac, set_be16, set_be32, set_mac,
    write_be16, write_be32, write_mac, ETH_DST, ETH_HDR_LEN, ETH_P_IP, ETH_SRC, ETH_TYPE,
    IPPROTO_ICMP, IPPROTO_TCP, IPPROTO_UDP, IPV4_HDR_LEN, IP_CHECK, IP_DST, IP_FRAGS, IP_MF,
    IP_OFFSET, IP_PROTO, IP_SRC, IP_TOT_LEN, IP_VIHL, UDP_CHECK, UDP_DST, UDP_HDR_LEN, UDP_SRC,
};

verus! {

/// Minimum timeout extension (ns) worth writing back.
pub const THRESHOLD_NS: u64 = 1_000_000_000;

/// XDP action codes.
pub const XDP_ABORTED: u32 = 0;

pub const XDP_DROP: u32 = 1;

pub const XDP_PASS: u32 = 2;

pub const XDP_TX: u32 = 3;

pub const XDP_REDIRECT: u32 = 4;

/// Sizes of the maps shared with user space.
pub const REDIRECT_MAP_MAX_ENTRIES: usize = 256;

pub const EXPOSE_MAP_MAX_ENTRIES: usize = 256;

/// A received frame and the interface it arrived on.
pub struct XdpContext {
    pub data: Vec<u8>,
    pub ingress_ifindex: u32,
}

/// The maps the XDP program reads and writes.
pub struct XdpMaps {
    /// Device map: IPv4 address (or 0 for the physical NIC) to ifindex.
    pub redirect_map: BpfHashMap<u32, u32>,
    pub udp_conntrack: ConntrackMap,
    /// Host port to the container it is exposed for.
    pub expose_map: BpfHashMap<u16, ContainerInfo>,
    /// Container port to where it is exposed on the host.
    pub rev_expose_map: BpfHashMap<u16, HostInfo>,
}

impl XdpMaps {
    pub open spec fn wf(&self) -> bool {
        &&& self.redirect_map.wf()
        &&& self.udp_conntrack.wf()
        &&& self.expose_map.wf()
        &&& self.rev_expose_map.wf()
    }

    /// All four maps empty.
    pub fn new() -> (res: Self)
        ensures
            res.wf(),
            res.redirect_map.contents() == Map::<u32, u32>::empty(),
            res.redirect_map.max() == REDIRECT_MAP_MAX_ENTRIES,
            res.udp_conntrack@ == Map::<ConnectionTuple, FlowState>::empty(),
            res.udp_conntrack.count() == 0,
            res.expose_map.contents() == Map::<u16, ContainerInfo>::empty(),
            res.expose_map.max() == EXPOSE_MAP_MAX_ENTRIES,
            res.rev_expose_map.contents() == Map::<u16, HostInfo>::empty(),
            res.rev_expose_map.max() == EXPOSE_MAP_MAX_ENTRIES,
    {
        broadcast use vstd::std_specs::hash::group_hash_axioms;

        XdpMaps {
            redirect_map: BpfHashMap::with_max_entries(REDIRECT_MAP_MAX_ENTRIES),
            udp_conntrack: ConntrackMap::new(),
            expose_map: BpfHashMap::with_max_entries(EXPOSE_MAP_MAX_ENTRIES),
            rev_expose_map: BpfHashMap::with_max_entries(EXPOSE_MAP_MAX_ENTRIES),
        }
    }
}

/// What becomes of a frame.
#[derive(Clone, Copy, PartialEq, Eq, Structural, Debug)]
pub enum XdpVerdict {
    /// Handed to the kernel's network stack.
    Pass,
    /// Redirected to the interface with this index.
    Redirect(u32),
}

impl XdpVerdict {
    pub open spec fn code_spec(self) -> u32 {
        match self {
            XdpVerdict::Pass => XDP_PASS,
            XdpVerdict::Redirect(_) => XDP_REDIRECT,
        }
    }

    /// The XDP action code.
    pub fn code(&self) -> (res: u32)
        ensures
            res == self.code_spec(),
    {
        match self {
            XdpVerdict::Pass => XDP_PASS,
            XdpVerdict::Redirect(_) => XDP_REDIRECT,
        }
    }
}

// ---------------------------------------------------------------------
// Conntrack transitions
// ---------------------------------------------------------------------

/// The timeout refresh applied to an entry seen again at time `now`, and
/// whether the entry of the opposite direction must follow.
pub open spec fn refreshed(st: FlowState, now: u64) -> (FlowState, bool) {
    match st.direction {
        Direction::Original => {
            let expected = now + if st.seen_reply {
                TIMEOUT_EST
            } else {
                TIMEOUT_NEW
            };
            if expected > st.timeout && expected - st.timeout > THRESHOLD_NS {
                (FlowState { timeout: expected as u64, ..st }, true)
            } else {
                (st, false)
            }
        },
        Direction::Reply => {
            let expected = now + TIMEOUT_EST;
            if !st.seen_reply || (expected > st.timeout && expected - st.timeout > THRESHOLD_NS) {
                (FlowState { seen_reply: true, timeout: expected as u64, ..st }, true)
            } else {
                (st, false)
            }
        },
    }
}

/// The opposite-direction entry `rkey`, if present, takes over the reply
/// flag and timeout of `st`.
pub open spec fn synced(ct: Map<ConnectionTuple, FlowState>, rkey: ConnectionTuple, st: FlowState) -> Map<
    ConnectionTuple,
    FlowState,
> {
    if ct.contains_key(rkey) {
        ct.insert(rkey, FlowState { seen_reply: st.seen_reply, timeout: st.timeout, ..ct[rkey] })
    } else {
        ct
    }
}

/// A create-only insert into a table holding `count` entries.
pub open spec fn inserted_new(
    ct: Map<ConnectionTuple, FlowState>,
    count: nat,
    key: ConnectionTuple,
    st: FlowState,
) -> (Map<ConnectionTuple, FlowState>, nat) {
    if ct.contains_key(key) || count >= CONNTRACK_MAX_ENTRIES {
        (ct, count)
    } else {
        (ct.insert(key, st), count + 1)
    }
}

/// The effect of a NAT step: the frame, the conntrack table and its entry
/// count, and the binding applied (if any).
pub struct NatStep {
    pub data: Seq<u8>,
    pub conntrack: Map<ConnectionTuple, FlowState>,
    pub count: nat,
    pub nat: Option<NATData>,
}

/// The frame with its source address and port translated to `nat`.
pub open spec fn snat_frame(data: Seq<u8>, nat_data: NATData) -> Seq<u8> {
    let ip_check = be16(data, IP_CHECK as int);
    let udp_check = be16(data, UDP_CHECK as int);
    let addr = be32(data, IP_SRC as int);
    let port = be16(data, UDP_SRC as int);
    let new_ip = csum_replace4_spec(ip_check as u32, addr, nat_data.nat_addr);
    let new_udp = if udp_check != 0 {
        udp_check_after(udp_check, port, nat_data.nat_port, addr, nat_data.nat_addr)
    } else {
        0u16
    };
    let new_port = if udp_check != 0 {
        nat_data.nat_port
    } else {
        port
    };
    set_be16(
        set_be32(
            set_be16(set_be16(data, IP_CHECK as int, new_ip), UDP_CHECK as int, new_udp),
            IP_SRC as int,
            nat_data.nat_addr,
        ),
        UDP_SRC as int,
        new_port,
    )
}

/// The frame with its destination address and port translated to `nat`.
pub open spec fn dnat_frame(data: Seq<u8>, nat_data: NATData) -> Seq<u8> {
    let ip_check = be16(data, IP_CHECK as int);
    let udp_check = be16(data, UDP_CHECK as int);
    let addr = be32(data, IP_DST as int);
    let port = be16(data, UDP_DST as int);
    let new_ip = csum_replace4_spec(ip_check as u32, addr, nat_data.nat_addr);
    let new_udp = if udp_check != 0 {
        udp_check_after(udp_check, port, nat_data.nat_port, addr, nat_data.nat_addr)
    } else {
        0u16
    };
    let new_port = if udp_check != 0 {
        nat_data.nat_port
    } else {
        port
    };
    set_be16(
        set_be32(
            set_be16(set_be16(data, IP_CHECK as int, new_ip), UDP_CHECK as int, new_udp),
            IP_DST as int,
            nat_data.nat_addr,
        ),
        UDP_DST as int,
        new_port,
    )
}

/// The flow a frame belongs to.
pub open spec fn frame_tuple(data: Seq<u8>, src_ip: u32, dst_ip: u32) -> ConnectionTuple {
    ConnectionTuple {
        src_addr: src_ip,
        dst_addr: dst_ip,
        src_port: be16(data, UDP_SRC as int),
        dst_port: be16(data, UDP_DST as int),
    }
}

/// The two entries created for a flow a container opens to `dst`: the
/// source translation to the exposed host address, and the way back.
pub open spec fn snat_new_entries(
    key: ConnectionTuple,
    host: HostInfo,
    fib: FibMacs,
    container_mac: [u8; 6],
    now: u64,
) -> (NATData, NATData) {
    let snat = NATData { nat_addr: host.host_ip, nat_port: host.host_port, fib_macs: fib, devmap_key: 0 };
    let dnat = NATData {
        nat_addr: key.src_addr,
        nat_port: key.src_port,
        fib_macs: FibMacs { fib_smac: fib.fib_smac, fib_dmac: container_mac },
        devmap_key: key.src_addr,
    };
    (snat, dnat)
}

/// Source NAT of a UDP frame leaving a container.
pub open spec fn process_udp_snat_spec(
    data: Seq<u8>,
    ct: Map<ConnectionTuple, FlowState>,
    count: nat,
    rev_expose: Map<u16, HostInfo>,
    src_ip: u32,
    dst_ip: u32,
    now: u64,
    route: Option<FibMacs>,
) -> NatStep {
    let key = frame_tuple(data, src_ip, dst_ip);
    if ct.contains_key(key) {
        let (st, update) = refreshed(ct[key], now);
        let snat = st.nat_data;
        let ct1 = ct.insert(key, st);
        let rkey = ConnectionTuple {
            src_addr: dst_ip,
            dst_addr: snat.nat_addr,
            src_port: key.dst_port,
            dst_port: snat.nat_port,
        };
        NatStep {
            data: snat_frame(data, snat),
            conntrack: if update {
                synced(ct1, rkey, st)
            } else {
                ct1
            },
            count,
            nat: Some(snat),
        }
    } else if !rev_expose.contains_key(key.src_port) || route is None {
        NatStep { data, conntrack: ct, count, nat: None }
    } else {
        let host = rev_expose[key.src_port];
        let (snat, dnat) = snat_new_entries(
            key,
            host,
            route->0,
            mac_array(mac_at(data, ETH_SRC as int)),
            now,
        );
        let rkey = ConnectionTuple {
            src_addr: dst_ip,
            dst_addr: host.host_ip,
            src_port: key.dst_port,
            dst_port: host.host_port,
        };
        let orig = FlowState {
            nat_data: snat,
            direction: Direction::Original,
            seen_reply: false,
            timeout: (now + TIMEOUT_NEW) as u64,
        };
        let reply = FlowState {
            nat_data: dnat,
            direction: Direction::Reply,
            seen_reply: false,
            timeout: (now + TIMEOUT_NEW) as u64,
        };
        let (ct1, c1) = inserted_new(ct, count, key, orig);
        let (ct2, c2) = inserted_new(ct1, c1, rkey, reply);
        NatStep { data: snat_frame(data, snat), conntrack: ct2, count: c2, nat: Some(snat) }
    }
}

/// The two entries created for a flow arriving at an exposed host port:
/// the destination translation to the container, and the way back.
pub open spec fn dnat_new_entries(
    key: ConnectionTuple,
    container: ContainerInfo,
    fib: FibMacs,
    host_mac: [u8; 6],
    now: u64,
) -> (NATData, NATData) {
    let snat = NATData { nat_addr: key.dst_addr, nat_port: key.dst_port, fib_macs: fib, devmap_key: 0 };
    let dnat = NATData {
        nat_addr: container.container_ip,
        nat_port: container.container_port,
        fib_macs: FibMacs { fib_smac: host_mac, fib_dmac: container.container_mac },
        devmap_key: container.container_ip,
    };
    (snat, dnat)
}

/// Destination NAT of a UDP frame arriving at the host.
pub open spec fn process_udp_dnat_spec(
    data: Seq<u8>,
    ct: Map<ConnectionTuple, FlowState>,
    count: nat,
    expose: Map<u16, ContainerInfo>,
    src_ip: u32,
    dst_ip: u32,
    now: u64,
    route: Option<FibMacs>,
) -> NatStep {
    let key = frame_tuple(data, src_ip, dst_ip);
    if ct.contains_key(key) {
        let (st, update) = refreshed(ct[key], now);
        let dnat = st.nat_data;
        let ct1 = ct.insert(key, st);
        let rkey = ConnectionTuple {
            src_addr: dnat.nat_addr,
            dst_addr: src_ip,
            src_port: dnat.nat_port,
            dst_port: key.src_port,
        };
        NatStep {
            data: dnat_frame(data, dnat),
            conntrack: if update {
                synced(ct1, rkey, st)
            } else {
                ct1
            },
            count,
            nat: Some(dnat),
        }
    } else if !expose.contains_key(key.dst_port) || route is None {
        NatStep { data, conntrack: ct, count, nat: None }
    } else {
        let container = expose[key.dst_port];
        let (snat, dnat) = dnat_new_entries(
            key,
            container,
            route->0,
            mac_array(mac_at(data, ETH_DST as int)),
            now,
        );
        let rkey = ConnectionTuple {
            src_addr: container.container_ip,
            dst_addr: src_ip,
            src_port: container.container_port,
            dst_port: key.src_port,
        };
        let orig = FlowState {
            nat_data: dnat,
            direction: Direction::Original,
            seen_reply: false,
            timeout: (now + TIMEOUT_NEW) as u64,
        };
        let reply = FlowState {
            nat_data: snat,
            direction: Direction::Reply,
            seen_reply: false,
            timeout: (now + TIMEOUT_NEW) as u64,
        };
        let (ct1, c1) = inserted_new(ct, count, key, orig);
        let (ct2, c2) = inserted_new(ct1, c1, rkey, reply);
        NatStep { data: dnat_frame(data, dnat), conntrack: ct2, count: c2, nat: Some(dnat) }
    }
}

// ---------------------------------------------------------------------
// Executable steps
// ---------------------------------------------------------------------

/// Extends the lifetime of an entry seen again at `now`; returns whether
/// the opposite-direction entry must be brought in line.
pub fn refresh_flow_state(state: &mut FlowState, now: u64) -> (update_reverse: bool)
    requires
        now <= u64::MAX - TIMEOUT_EST,
    ensures
        (*final(state), update_reverse) == refreshed(*old(state), now),
{
    match state.direction {
        Direction::Original => {
            let expected_timeout = now + if state.seen_reply {
                TIMEOUT_EST
            } else {
                TIMEOUT_NEW
            };
            if expected_timeout > state.timeout && (expected_timeout - state.timeout) > THRESHOLD_NS {
                state.timeout = expected_timeout;
                true
            } else {
                false
            }
        },
        Direction::Reply => {
            let expected_timeout = now + TIMEOUT_EST;
            if !state.seen_reply || (expected_timeout > state.timeout && (expected_timeout
                - state.timeout) > THRESHOLD_NS) {
                state.seen_reply = true;
                state.timeout = expected_timeout;
                true
            } else {
                false
            }
        },
    }
}

fn sync_reverse(ct: &mut ConntrackMap, rkey: &ConnectionTuple, st: &FlowState)
    requires
        old(ct).wf(),
    ensures
        final(ct).wf(),
        final(ct)@ == synced(old(ct)@, *rkey, *st),
        final(ct).count() == old(ct).count(),
{
    match ct.get(rkey) {
        Some(rev) => {
            let mut rev_conn = rev;
            rev_conn.seen_reply = st.seen_reply;
            rev_conn.timeout = st.timeout;
            let _ = ct.insert(rkey, rev_conn, BPF_ANY);
        },
        None => {},
    }
}

fn insert_new(ct: &mut ConntrackMap, key: &ConnectionTuple, st: FlowState)
    requires
        old(ct).wf(),
    ensures
        final(ct).wf(),
        (final(ct)@, final(ct).count()) == inserted_new(old(ct)@, old(ct).count(), *key, st),
{
    let _ = ct.insert(key, st, BPF_NOEXIST);
}

fn snat_rewrite(data: &mut Vec<u8>, nat_data: &NATData)
    requires
        old(data).len() >= ETH_HDR_LEN + IPV4_HDR_LEN + UDP_HDR_LEN,
    ensures
        final(data)@ == snat_frame(old(data)@, *nat_data),
{
    let mut ip_check = read_be16(data, IP_CHECK);
    let mut udp_check = read_be16(data, UDP_CHECK);
    let mut addr = read_be32(data, IP_SRC);
    let mut port = read_be16(data, UDP_SRC);
    apply_ip_snat(nat_data, &mut ip_check, &mut udp_check, &mut addr, &mut port);
    write_be16(data, IP_CHECK, ip_check);
    write_be16(data, UDP_CHECK, udp_check);
    write_be32(data, IP_SRC, addr);
    write_be16(data, UDP_SRC, port);
}

fn dnat_rewrite(data: &mut Vec<u8>, nat_data: &NATData)
    requires
        old(data).len() >= ETH_HDR_LEN + IPV4_HDR_LEN + UDP_HDR_LEN,
    ensures
        final(data)@ == dnat_frame(old(data)@, *nat_data),
{
    let mut ip_check = read_be16(data, IP_CHECK);
    let mut udp_check = read_be16(data, UDP_CHECK);
    let mut addr = read_be32(data, IP_DST);
    let mut port = read_be16(data, UDP_DST);
    apply_ip_dnat(nat_data, &mut ip_check, &mut udp_check, &mut addr, &mut port);
    write_be16(data, IP_CHECK, ip_check);
    write_be16(data, UDP_CHECK, udp_check);
    write_be32(data, IP_DST, addr);
    write_be16(data, UDP_DST, port);
}

/// Source NAT of a UDP frame leaving a container. A tracked flow is
/// refreshed and translated with its binding; an untracked one whose
/// source port is exposed gets a binding to the host address, a reply
/// entry, and is translated. `route` is the kernel's answer to the FIB
/// lookup `route_request` describes; it is not consulted otherwise.
pub fn process_udp_snat(
    ctx: &mut XdpContext,
    maps: &mut XdpMaps,
    src_ip: u32,
    dst_ip: u32,
    now: u64,
    route: Option<FibMacs>,
) -> (res: Result<Option<NATData>, ()>)
    requires
        old(ctx).data.len() >= ETH_HDR_LEN + IPV4_HDR_LEN + UDP_HDR_LEN,
        old(maps).wf(),
        now <= u64::MAX - TIMEOUT_EST,
    ensures
        final(maps).wf(),
        final(maps).redirect_map == old(maps).redirect_map,
        final(maps).expose_map == old(maps).expose_map,
        final(maps).rev_expose_map == old(maps).rev_expose_map,
        final(ctx).ingress_ifindex == old(ctx).ingress_ifindex,
        res is Ok,
        ({
            let ct = old(maps).udp_conntrack@;
            let k = frame_tuple(old(ctx).data@, src_ip, dst_ip);
            let r = snat_reverse_key(k, ct[k].nat_data);
            pair_in_step(ct, k, r) ==> pair_kept_in_step(ct, final(maps).udp_conntrack@, k, r)
        }),
        process_udp_snat_spec(
            old(ctx).data@,
            old(maps).udp_conntrack@,
            old(maps).udp_conntrack.count(),
            old(maps).rev_expose_map.contents(),
            src_ip,
            dst_ip,
            now,
            route,
        ) == (NatStep {
            data: final(ctx).data@,
            conntrack: final(maps).udp_conntrack@,
            count: final(maps).udp_conntrack.count(),
            nat: res->Ok_0,
        }),
{
    proof {
        let ct = maps.udp_conntrack@;
        let k = frame_tuple(ctx.data@, src_ip, dst_ip);
        if pair_in_step(ct, k, snat_reverse_key(k, ct[k].nat_data)) {
            lemma_snat_refresh_keeps_pair_in_step(
                ctx.data@,
                ct,
                maps.udp_conntrack.count(),
                maps.rev_expose_map.contents(),
                src_ip,
                dst_ip,
                now,
                route,
            );
        }
    }
    let src_port = read_be16(&ctx.data, UDP_SRC);
    let dst_port = read_be16(&ctx.data, UDP_DST);
    let key = ConnectionTuple::new(src_ip, dst_ip, src_port, dst_port);
    let container_mac = read_mac(&ctx.data, ETH_SRC);
    if let Some(found) = maps.udp_conntrack.get(&key) {
        let mut state = found;
        let update_reverse = refresh_flow_state(&mut state, now);
        let _ = maps.udp_conntrack.insert(&key, state, BPF_ANY);
        let snat = state.nat_data;
        snat_rewrite(&mut ctx.data, &snat);
        if update_reverse {
            let dkey = ConnectionTuple::new(dst_ip, snat.nat_addr, dst_port, snat.nat_port);
            sync_reverse(&mut maps.udp_conntrack, &dkey, &state);
        }
        return Ok(Some(snat));
    }
    let host = match maps.rev_expose_map.get(&src_port) {
        Some(info) => info,
        None => return Ok(None),
    };
    let fib_macs = match route {
        Some(fib_macs) => fib_macs,
        None => return Ok(None),
    };
    let snat = NATData::new(host.host_ip, host.host_port, fib_macs, 0);
    let dnat_macs = FibMacs { fib_smac: fib_macs.fib_smac, fib_dmac: container_mac };
    let dnat = NATData::new(src_ip, src_port, dnat_macs, src_ip);
    let dkey = ConnectionTuple::new(dst_ip, host.host_ip, dst_port, host.host_port);
    let conn_orig = FlowState::new(snat, Direction::Original, now + TIMEOUT_NEW);
    let conn_reply = FlowState::new(dnat, Direction::Reply, now + TIMEOUT_NEW);
    insert_new(&mut maps.udp_conntrack, &key, conn_orig);
    insert_new(&mut maps.udp_conntrack, &dkey, conn_reply);
    snat_rewrite(&mut ctx.data, &snat);
    Ok(Some(snat))
}

/// Destination NAT of a UDP frame arriving at the host; the mirror image
/// of `process_udp_snat`, keyed by the exposed destination port.
pub fn process_udp_dnat(
    ctx: &mut XdpContext,
    maps: &mut XdpMaps,
    src_ip: u32,
    dst_ip: u32,
    now: u64,
    route: Option<FibMacs>,
) -> (res: Result<Option<NATData>, ()>)
    requires
        old(ctx).data.len() >= ETH_HDR_LEN + IPV4_HDR_LEN + UDP_HDR_LEN,
        old(maps).wf(),
        now <= u64::MAX - TIMEOUT_EST,
    ensures
        final(maps).wf(),
        final(maps).redirect_map == old(maps).redirect_map,
        final(maps).expose_map == old(maps).expose_map,
        final(maps).rev_expose_map == old(maps).rev_expose_map,
        final(ctx).ingress_ifindex == old(ctx).ingress_ifindex,
        res is Ok,
        ({
            let ct = old(maps).udp_conntrack@;
            let k = frame_tuple(old(ctx).data@, src_ip, dst_ip);
            let r = dnat_reverse_key(k, ct[k].nat_data);
            pair_in_step(ct, k, r) ==> pair_kept_in_step(ct, final(maps).udp_conntrack@, k, r)
        }),
        process_udp_dnat_spec(
            old(ctx).data@,
            old(maps).udp_conntrack@,
            old(maps).udp_conntrack.count(),
            old(maps).expose_map.contents(),
            src_ip,
            dst_ip,
            now,
            route,
        ) == (NatStep {
            data: final(ctx).data@,
            conntrack: final(maps).udp_conntrack@,
            count: final(maps).udp_conntrack.count(),
            nat: res->Ok_0,
        }),
{
    proof {
        let ct = maps.udp_conntrack@;
        let k = frame_tuple(ctx.data@, src_ip, dst_ip);
        if pair_in_step(ct, k, dnat_reverse_key(k, ct[k].nat_data)) {
            lemma_dnat_refresh_keeps_pair_in_step(
                ctx.data@,
                ct,
                maps.udp_conntrack.count(),
                maps.expose_map.contents(),
                src_ip,
                dst_ip,
                now,
                route,
            );
        }
    }
    let src_port = read_be16(&ctx.data, UDP_SRC);
    let dst_port = read_be16(&ctx.data, UDP_DST);
    let key = ConnectionTuple::new(src_ip, dst_ip, src_port, dst_port);
    let host_mac = read_mac(&ctx.data, ETH_DST);
    if let Some(found) = maps.udp_conntrack.get(&key) {
        let mut state = found;
        let update_reverse = refresh_flow_state(&mut state, now);
        let _ = maps.udp_conntrack.insert(&key, state, BPF_ANY);
        let dnat = state.nat_data;
        dnat_rewrite(&mut ctx.data, &dnat);
        if update_reverse {
            let skey = ConnectionTuple::new(dnat.nat_addr, src_ip, dnat.nat_port, src_port);
            sync_reverse(&mut maps.udp_conntrack, &skey, &state);
        }
        return Ok(Some(dnat));
    }
    let container = match maps.expose_map.get(&dst_port) {
        Some(info) => info,
        None => return Ok(None),
    };
    let fib_macs = match route {
        Some(fib_macs) => fib_macs,
        None => return Ok(None),
    };
    let snat = NATData::new(dst_ip, dst_port, fib_macs, 0);
    let dnat_macs = FibMacs { fib_smac: host_mac, fib_dmac: container.container_mac };
    let dnat = NATData::new(container.container_ip, container.container_port, dnat_macs, container.container_ip);
    let rev_key = ConnectionTuple::new(container.container_ip, src_ip, container.container_port, src_port);
    let conn_orig = FlowState::new(dnat, Direction::Original, now + TIMEOUT_NEW);
    let conn_reply = FlowState::new(snat, Direction::Reply, now + TIMEOUT_NEW);
    insert_new(&mut maps.udp_conntrack, &key, conn_orig);
    insert_new(&mut maps.udp_conntrack, &rev_key, conn_reply);
    dnat_rewrite(&mut ctx.data, &dnat);
    Ok(Some(dnat))
}

// ---------------------------------------------------------------------
// Whole-frame processing
// ---------------------------------------------------------------------

/// An unfragmented IPv4 frame without options carrying UDP, TCP or ICMP:
/// the only frames the program considers for redirection.
pub open spec fn is_offload_candidate(data: Seq<u8>) -> bool {
    &&& data.len() >= ETH_HDR_LEN + IPV4_HDR_LEN
    &&& be16(data, ETH_TYPE as int) == ETH_P_IP
    &&& (data[IP_PROTO as int] == IPPROTO_UDP || data[IP_PROTO as int] == IPPROTO_TCP
        || data[IP_PROTO as int] == IPPROTO_ICMP)
    &&& data[IP_VIHL as int] % 16 == 5
    &&& be16(data, IP_FRAGS as int) % 0x4000 == 0
}

/// A redirect through the device map: to the interface stored under
/// `key`, or back to the stack when there is none.
pub open spec fn devmap_redirect(devmap: Map<u32, u32>, key: u32) -> XdpVerdict {
    if devmap.contains_key(key) {
        XdpVerdict::Redirect(devmap[key])
    } else {
        XdpVerdict::Pass
    }
}

/// The effect of the program on one frame: the frame, the conntrack table
/// and its entry count, and the verdict.
pub struct XdpStep {
    pub data: Seq<u8>,
    pub conntrack: Map<ConnectionTuple, FlowState>,
    pub count: nat,
    pub verdict: XdpVerdict,
}

/// The NAT step the entry point of `flag` applies to a UDP frame.
pub open spec fn nat_step_spec(
    data: Seq<u8>,
    flag: Flags,
    maps: XdpMaps,
    now: u64,
    route: Option<FibMacs>,
) -> NatStep {
    let src_ip = be32(data, IP_SRC as int);
    let dst_ip = be32(data, IP_DST as int);
    if flag == Flags::Snat {
        process_udp_snat_spec(
            data,
            maps.udp_conntrack@,
            maps.udp_conntrack.count(),
            maps.rev_expose_map.contents(),
            src_ip,
            dst_ip,
            now,
            route,
        )
    } else {
        process_udp_dnat_spec(
            data,
            maps.udp_conntrack@,
            maps.udp_conntrack.count(),
            maps.expose_map.contents(),
            src_ip,
            dst_ip,
            now,
            route,
        )
    }
}

/// Everything `try_xdp_redirect` does to a frame.
pub open spec fn try_xdp_redirect_spec(
    data: Seq<u8>,
    flag: Flags,
    maps: XdpMaps,
    now: u64,
    route: Option<FibMacs>,
) -> XdpStep {
    let unchanged = XdpStep {
        data,
        conntrack: maps.udp_conntrack@,
        count: maps.udp_conntrack.count(),
        verdict: XdpVerdict::Pass,
    };
    let dst_ip = be32(data, IP_DST as int);
    if !is_offload_candidate(data) {
        unchanged
    } else if maps.redirect_map.contents().contains_key(dst_ip) {
        XdpStep { verdict: devmap_redirect(maps.redirect_map.contents(), dst_ip), ..unchanged }
    } else if data[IP_PROTO as int] != IPPROTO_UDP || data.len() < ETH_HDR_LEN + IPV4_HDR_LEN
        + UDP_HDR_LEN {
        unchanged
    } else {
        let step = nat_step_spec(data, flag, maps, now, route);
        match step.nat {
            None => XdpStep {
                data: step.data,
                conntrack: step.conntrack,
                count: step.count,
                verdict: XdpVerdict::Pass,
            },
            Some(nat_data) => XdpStep {
                data: set_mac(
                    set_mac(step.data, ETH_SRC as int, nat_data.fib_macs.fib_smac@),
                    ETH_DST as int,
                    nat_data.fib_macs.fib_dmac@,
                ),
                conntrack: step.conntrack,
                count: step.count,
                verdict: devmap_redirect(maps.redirect_map.contents(), nat_data.devmap_key),
            },
        }
    }
}

/// The FIB lookup the program asks the kernel for while handling this
/// frame, if any: only a UDP frame of an untracked flow to or from an
/// exposed port needs one.
pub open spec fn route_request_spec(
    data: Seq<u8>,
    ingress_ifindex: u32,
    flag: Flags,
    maps: XdpMaps,
) -> Option<FibLookupRequest> {
    let src_ip = be32(data, IP_SRC as int);
    let dst_ip = be32(data, IP_DST as int);
    let key = frame_tuple(data, src_ip, dst_ip);
    let tot_len = be16(data, IP_TOT_LEN as int);
    if !is_offload_candidate(data) || maps.redirect_map.contents().contains_key(dst_ip)
        || data[IP_PROTO as int] != IPPROTO_UDP || data.len() < ETH_HDR_LEN + IPV4_HDR_LEN
        + UDP_HDR_LEN || maps.udp_conntrack@.contains_key(key) {
        None
    } else if flag == Flags::Snat {
        if maps.rev_expose_map.contents().contains_key(key.src_port) {
            let host = maps.rev_expose_map.contents()[key.src_port];
            Some(fib_request_spec(IPPROTO_UDP, host.host_ip, dst_ip, tot_len, ingress_ifindex))
        } else {
            None
        }
    } else {
        if maps.expose_map.contents().contains_key(key.dst_port) {
            let container = maps.expose_map.contents()[key.dst_port];
            Some(fib_request_spec(IPPROTO_UDP, dst_ip, src_ip, tot_len, container.ifindex))
        } else {
            None
        }
    }
}

fn frame_checks(data: &Vec<u8>) -> (res: bool)
    requires
        data.len() >= ETH_HDR_LEN + IPV4_HDR_LEN,
    ensures
        res == is_offload_candidate(data@),
{
    if read_be16(data, ETH_TYPE) != ETH_P_IP {
        return false;
    }
    let proto = data[IP_PROTO];
    if !(proto == IPPROTO_UDP || proto == IPPROTO_TCP || proto == IPPROTO_ICMP) {
        return false;
    }
    let vihl = data[IP_VIHL];
    assert(vihl & 0x0F == vihl % 16) by (bit_vector);
    if (vihl & 0x0F) != 5 {
        return false;
    }
    let frag_off = read_be16(data, IP_FRAGS);
    assert(frag_off & (IP_MF | IP_OFFSET) == frag_off % 0x4000) by (bit_vector);
    if frag_off & (IP_MF | IP_OFFSET) != 0 {
        return false;
    }
    true
}

fn redirect(devmap: &BpfHashMap<u32, u32>, key: u32) -> (res: XdpVerdict)
    requires
        devmap.wf(),
    ensures
        res == devmap_redirect(devmap.contents(), key),
{
    match devmap.get(&key) {
        Some(ifindex) => XdpVerdict::Redirect(ifindex),
        None => XdpVerdict::Pass,
    }
}

/// The FIB lookup the kernel must answer for this frame, for the `route`
/// argument of `try_xdp_redirect`; `None` when the frame needs none.
pub fn route_request(ctx: &XdpContext, flag: Flags, maps: &XdpMaps) -> (res: Option<FibLookupRequest>)
    requires
        maps.wf(),
    ensures
        res == route_request_spec(ctx.data@, ctx.ingress_ifindex, flag, *maps),
{
    let data = &ctx.data;
    if data.len() < ETH_HDR_LEN + IPV4_HDR_LEN || !frame_checks(data) {
        return None;
    }
    let dst_ip = read_be32(data, IP_DST);
    let src_ip = read_be32(data, IP_SRC);
    if maps.redirect_map.contains_key(&dst_ip) || data[IP_PROTO] != IPPROTO_UDP || data.len()
        < ETH_HDR_LEN + IPV4_HDR_LEN + UDP_HDR_LEN {
        return None;
    }
    let src_port = read_be16(data, UDP_SRC);
    let dst_port = read_be16(data, UDP_DST);
    let key = ConnectionTuple::new(src_ip, dst_ip, src_port, dst_port);
    if maps.udp_conntrack.get(&key).is_some() {
        return None;
    }
    let tot_len = read_be16(data, IP_TOT_LEN);
    match flag {
        Flags::Snat => match maps.rev_expose_map.get(&src_port) {
            Some(host) => Some(
                fib_lookup_request(IPPROTO_UDP, host.host_ip, dst_ip, tot_len, ctx.ingress_ifindex),
            ),
            None => None,
        },
        Flags::Dnat => match maps.expose_map.get(&dst_port) {
            Some(container) => Some(
                fib_lookup_request(IPPROTO_UDP, dst_ip, src_ip, tot_len, container.ifindex),
            ),
            None => None,
        },
    }
}

/// Handles one frame: redirects traffic for a directly attached container,
/// translates UDP flows of `flag`'s direction and forwards them to the
/// interface of their binding, and passes everything else to the stack.
pub fn try_xdp_redirect(
    ctx: &mut XdpContext,
    flag: Flags,
    maps: &mut XdpMaps,
    now: u64,
    route: Option<FibMacs>,
) -> (res: Result<XdpVerdict, ()>)
    requires
        old(maps).wf(),
        now <= u64::MAX - TIMEOUT_EST,
    ensures
        final(maps).wf(),
        final(maps).redirect_map == old(maps).redirect_map,
        final(maps).expose_map == old(maps).expose_map,
        final(maps).rev_expose_map == old(maps).rev_expose_map,
        final(ctx).ingress_ifindex == old(ctx).ingress_ifindex,
        res is Ok,
        try_xdp_redirect_spec(old(ctx).data@, flag, *old(maps), now, route) == (XdpStep {
            data: final(ctx).data@,
            conntrack: final(maps).udp_conntrack@,
            count: final(maps).udp_conntrack.count(),
            verdict: res->Ok_0,
        }),
{
    if ctx.data.len() < ETH_HDR_LEN + IPV4_HDR_LEN || !frame_checks(&ctx.data) {
        return Ok(XdpVerdict::Pass);
    }
    let dst_ip = read_be32(&ctx.data, IP_DST);
    let src_ip = read_be32(&ctx.data, IP_SRC);
    if maps.redirect_map.contains_key(&dst_ip) {
        return Ok(redirect(&maps.redirect_map, dst_ip));
    }
    if ctx.data[IP_PROTO] != IPPROTO_UDP {
        return Ok(XdpVerdict::Pass);
    }
    if ctx.data.len() < ETH_HDR_LEN + IPV4_HDR_LEN + UDP_HDR_LEN {
        return Ok(XdpVerdict::Pass);
    }
    let translation = if flag == Flags::Snat {
        process_udp_snat(ctx, maps, src_ip, dst_ip, now, route)?
    } else {
        process_udp_dnat(ctx, maps, src_ip, dst_ip, now, route)?
    };
    let nat_data = match translation {
        Some(n) => n,
        None => return Ok(XdpVerdict::Pass),
    };
    let mut eth_src = read_mac(&ctx.data, ETH_SRC);
    let mut eth_dst = read_mac(&ctx.data, ETH_DST);
    rewrite_macs(&mut eth_src, &mut eth_dst, nat_data.fib_macs);
    write_mac(&mut ctx.data, ETH_SRC, &eth_src);
    write_mac(&mut ctx.data, ETH_DST, &eth_dst);
    Ok(redirect(&maps.redirect_map, nat_data.devmap_key))
}

/// Entry point attached to container interfaces: source NAT; any failure
/// aborts the frame.
pub fn xdp_redirect_containers(ctx: &mut XdpContext, maps: &mut XdpMaps, now: u64, route: Option<
    FibMacs,
>) -> (res: u32)
    requires
        old(maps).wf(),
        now <= u64::MAX - TIMEOUT_EST,
    ensures
        final(maps).wf(),
        final(maps).redirect_map == old(maps).redirect_map,
        final(maps).expose_map == old(maps).expose_map,
        final(maps).rev_expose_map == old(maps).rev_expose_map,
        final(ctx).ingress_ifindex == old(ctx).ingress_ifindex,
        final(maps).udp_conntrack.count() == try_xdp_redirect_spec(
            old(ctx).data@,
            Flags::Snat,
            *old(maps),
            now,
            route,
        ).count,
        res == try_xdp_redirect_spec(old(ctx).data@, Flags::Snat, *old(maps), now, route).verdict.code_spec(),
        final(ctx).data@ == try_xdp_redirect_spec(old(ctx).data@, Flags::Snat, *old(maps), now, route).data,
        final(maps).udp_conntrack@ == try_xdp_redirect_spec(
            old(ctx).data@,
            Flags::Snat,
            *old(maps),
            now,
            route,
        ).conntrack,
{
    match try_xdp_redirect(ctx, Flags::Snat, maps, now, route) {
        Ok(verdict) => verdict.code(),
        Err(()) => XDP_ABORTED,
    }
}

/// Entry point attached to the host's physical interface: destination
/// NAT; any failure aborts the frame.
pub fn xdp_redirect_host(ctx: &mut XdpContext, maps: &mut XdpMaps, now: u64, route: Option<
    FibMacs,
>) -> (res: u32)
    requires
        old(maps).wf(),
        now <= u64::MAX - TIMEOUT_EST,
    ensures
        final(maps).wf(),
        final(maps).redirect_map == old(maps).redirect_map,
        final(maps).expose_map == old(maps).expose_map,
        final(maps).rev_expose_map == old(maps).rev_expose_map,
        final(ctx).ingress_ifindex == old(ctx).ingress_ifindex,
        final(maps).udp_conntrack.count() == try_xdp_redirect_spec(
            old(ctx).data@,
            Flags::Dnat,
            *old(maps),
            now,
            route,
        ).count,
        res == try_xdp_redirect_spec(old(ctx).data@, Flags::Dnat, *old(maps), now, route).verdict.code_spec(),
        final(ctx).data@ == try_xdp_redirect_spec(old(ctx).data@, Flags::Dnat, *old(maps), now, route).data,
        final(maps).udp_conntrack@ == try_xdp_redirect_spec(
            old(ctx).data@,
            Flags::Dnat,
            *old(maps),
            now,
            route,
        ).conntrack,
{
    match try_xdp_redirect(ctx, Flags::Dnat, maps, now, route) {
        Ok(verdict) => verdict.code(),
        Err(()) => XDP_ABORTED,
    }
}

/// Entry point attached inside container namespaces: every frame goes to
/// the stack.
pub fn xdp_pass(ctx: &XdpContext) -> (res: u32)
    ensures
        res == XDP_PASS,
{
    XDP_PASS
}

/// The route argument matters only when the frame needs a FIB lookup.
pub proof fn lemma_route_used_only_when_requested(
    data: Seq<u8>,
    ingress_ifindex: u32,
    flag: Flags,
    maps: XdpMaps,
    now: u64,
    r1: Option<FibMacs>,
    r2: Option<FibMacs>,
)
    requires
        route_request_spec(data, ingress_ifindex, flag, maps) is None,
    ensures
        try_xdp_redirect_spec(data, flag, maps, now, r1) == try_xdp_redirect_spec(
            data,
            flag,
            maps,
            now,
            r2,
        ),
{
}

/// A refresh never clears the reply flag, never shortens the lifetime of
/// an entry that has already seen a reply, and leaves the binding alone.
pub proof fn lemma_refresh_monotone(st: FlowState, now: u64)
    requires
        now <= u64::MAX - TIMEOUT_EST,
    ensures
        st.seen_reply ==> refreshed(st, now).0.seen_reply,
        st.direction == Direction::Original ==> refreshed(st, now).0.timeout >= st.timeout,
        st.seen_reply ==> refreshed(st, now).0.timeout >= st.timeout,
        refreshed(st, now).0.nat_data == st.nat_data,
        refreshed(st, now).0.direction == st.direction,
        refreshed(st, now).1 ==> refreshed(st, now).0.timeout >= now + TIMEOUT_NEW,
{
}

/// A container's flow through an exposed port is translated on the way
/// back: after the first frame of a new flow creates its bindings, a reply
/// from the destination to the host address and port gets its destination
/// rewritten to the container's address and port.
pub proof fn lemma_snat_reply_translated_back(
    data: Seq<u8>,
    ct: Map<ConnectionTuple, FlowState>,
    count: nat,
    rev_expose: Map<u16, HostInfo>,
    expose: Map<u16, ContainerInfo>,
    src_ip: u32,
    dst_ip: u32,
    now: u64,
    fib: FibMacs,
    reply: Seq<u8>,
    later: u64,
    reply_route: Option<FibMacs>,
)
    requires
        now <= u64::MAX - TIMEOUT_EST,
        later <= u64::MAX - TIMEOUT_EST,
        !ct.contains_key(frame_tuple(data, src_ip, dst_ip)),
        rev_expose.contains_key(be16(data, UDP_SRC as int)),
        ({
            let host = rev_expose[be16(data, UDP_SRC as int)];
            let rkey = ConnectionTuple {
                src_addr: dst_ip,
                dst_addr: host.host_ip,
                src_port: be16(data, UDP_DST as int),
                dst_port: host.host_port,
            };
            &&& !ct.contains_key(rkey)
            &&& rkey != frame_tuple(data, src_ip, dst_ip)
            &&& frame_tuple(reply, dst_ip, host.host_ip) == rkey
        }),
        count + 2 <= CONNTRACK_MAX_ENTRIES,
    ensures
        ({
            let host = rev_expose[be16(data, UDP_SRC as int)];
            let out = process_udp_snat_spec(data, ct, count, rev_expose, src_ip, dst_ip, now, Some(fib));
            let back = process_udp_dnat_spec(
                reply,
                out.conntrack,
                out.count,
                expose,
                dst_ip,
                host.host_ip,
                later,
                reply_route,
            );
            &&& out.nat is Some
            &&& out.nat->0.nat_addr == host.host_ip
            &&& out.nat->0.nat_port == host.host_port
            &&& back.nat is Some
            &&& back.nat->0.nat_addr == src_ip
            &&& back.nat->0.nat_port == be16(data, UDP_SRC as int)
            &&& back.nat->0.devmap_key == src_ip
        }),
{
}

/// A flow arriving at an exposed host port is translated on the way back:
/// after its first frame creates the bindings, the container's reply gets
/// its source rewritten to the host address and port the client used.
pub proof fn lemma_dnat_reply_translated_back(
    data: Seq<u8>,
    ct: Map<ConnectionTuple, FlowState>,
    count: nat,
    expose: Map<u16, ContainerInfo>,
    rev_expose: Map<u16, HostInfo>,
    src_ip: u32,
    dst_ip: u32,
    now: u64,
    fib: FibMacs,
    reply: Seq<u8>,
    later: u64,
    reply_route: Option<FibMacs>,
)
    requires
        now <= u64::MAX - TIMEOUT_EST,
        later <= u64::MAX - TIMEOUT_EST,
        !ct.contains_key(frame_tuple(data, src_ip, dst_ip)),
        expose.contains_key(be16(data, UDP_DST as int)),
        ({
            let container = expose[be16(data, UDP_DST as int)];
            let rkey = ConnectionTuple {
                src_addr: container.container_ip,
                dst_addr: src_ip,
                src_port: container.container_port,
                dst_port: be16(data, UDP_SRC as int),
            };
            &&& !ct.contains_key(rkey)
            &&& rkey != frame_tuple(data, src_ip, dst_ip)
            &&& frame_tuple(reply, container.container_ip, src_ip) == rkey
        }),
        count + 2 <= CONNTRACK_MAX_ENTRIES,
    ensures
        ({
            let container = expose[be16(data, UDP_DST as int)];
            let out = process_udp_dnat_spec(data, ct, count, expose, src_ip, dst_ip, now, Some(fib));
            let back = process_udp_snat_spec(
                reply,
                out.conntrack,
                out.count,
                rev_expose,
                container.container_ip,
                src_ip,
                later,
                reply_route,
            );
            &&& out.nat is Some
            &&& out.nat->0.nat_addr == container.container_ip
            &&& out.nat->0.nat_port == container.container_port
            &&& back.nat is Some
            &&& back.nat->0.nat_addr == dst_ip
            &&& back.nat->0.nat_port == be16(data, UDP_DST as int)
            &&& back.nat->0.devmap_key == 0
        }),
{
}

/// The two entries of a flow agree on its reply flag and timeout.
pub open spec fn pair_in_step(ct: Map<ConnectionTuple, FlowState>, k: ConnectionTuple, r: ConnectionTuple) -> bool {
    &&& ct.contains_key(k)
    &&& ct.contains_key(r)
    &&& ct[k].seen_reply == ct[r].seen_reply
    &&& ct[k].timeout == ct[r].timeout
}

/// After a frame of the flow with entry `k` and reverse entry `r`: the
/// pair still agrees on reply flag and timeout, both keep their binding,
/// the reverse entry its direction, and no other entry changes.
pub open spec fn pair_kept_in_step(
    ct: Map<ConnectionTuple, FlowState>,
    ct2: Map<ConnectionTuple, FlowState>,
    k: ConnectionTuple,
    r: ConnectionTuple,
) -> bool {
    &&& ct2.dom() == ct.dom()
    &&& pair_in_step(ct2, k, r)
    &&& ct2[k].nat_data == ct[k].nat_data
    &&& ct2[r].nat_data == ct[r].nat_data
    &&& ct2[r].direction == ct[r].direction
    &&& forall|j: ConnectionTuple|
        #![trigger ct2[j]]
        ct.contains_key(j) && j != k && j != r ==> ct2[j] == ct[j]
}

/// The entry of the opposite direction of a flow leaving a container,
/// whose entry `k` translates to `nat_data`.
pub open spec fn snat_reverse_key(k: ConnectionTuple, nat_data: NATData) -> ConnectionTuple {
    ConnectionTuple {
        src_addr: k.dst_addr,
        dst_addr: nat_data.nat_addr,
        src_port: k.dst_port,
        dst_port: nat_data.nat_port,
    }
}

/// The entry of the opposite direction of a flow arriving at the host,
/// whose entry `k` translates to `nat_data`.
pub open spec fn dnat_reverse_key(k: ConnectionTuple, nat_data: NATData) -> ConnectionTuple {
    ConnectionTuple {
        src_addr: nat_data.nat_addr,
        dst_addr: k.src_addr,
        src_port: nat_data.nat_port,
        dst_port: k.src_port,
    }
}

/// A refresh of one direction of a tracked flow is copied to the other:
/// when a frame of a flow leaving a container is translated and the two
/// entries agreed on reply flag and timeout, they still agree; the other
/// entry keeps its binding and direction, the frame's entry its binding,
/// and no other entry changes.
pub proof fn lemma_snat_refresh_keeps_pair_in_step(
    data: Seq<u8>,
    ct: Map<ConnectionTuple, FlowState>,
    count: nat,
    rev_expose: Map<u16, HostInfo>,
    src_ip: u32,
    dst_ip: u32,
    now: u64,
    route: Option<FibMacs>,
)
    requires
        ({
            let k = frame_tuple(data, src_ip, dst_ip);
            ct.contains_key(k) && pair_in_step(ct, k, snat_reverse_key(k, ct[k].nat_data))
        }),
    ensures
        ({
            let k = frame_tuple(data, src_ip, dst_ip);
            let r = snat_reverse_key(k, ct[k].nat_data);
            let out = process_udp_snat_spec(data, ct, count, rev_expose, src_ip, dst_ip, now, route);
            &&& out.count == count
            &&& out.conntrack.dom() == ct.dom()
            &&& pair_in_step(out.conntrack, k, r)
            &&& out.conntrack[k].nat_data == ct[k].nat_data
            &&& out.conntrack[r].nat_data == ct[r].nat_data
            &&& out.conntrack[r].direction == ct[r].direction
            &&& forall|j: ConnectionTuple|
                #![trigger out.conntrack[j]]
                ct.contains_key(j) && j != k && j != r ==> out.conntrack[j] == ct[j]
        }),
{
    let k = frame_tuple(data, src_ip, dst_ip);
    let r = snat_reverse_key(k, ct[k].nat_data);
    let out = process_udp_snat_spec(data, ct, count, rev_expose, src_ip, dst_ip, now, route);
    let (st, update) = refreshed(ct[k], now);
    let ct1 = ct.insert(k, st);
    if update {
        assert(out.conntrack == synced(ct1, r, st));
    } else {
        assert(st == ct[k]);
        assert(ct1 =~= ct);
    }
    assert(out.conntrack.dom() =~= ct.dom());
}

/// The same for a flow arriving at the host.
pub proof fn lemma_dnat_refresh_keeps_pair_in_step(
    data: Seq<u8>,
    ct: Map<ConnectionTuple, FlowState>,
    count: nat,
    expose: Map<u16, ContainerInfo>,
    src_ip: u32,
    dst_ip: u32,
    now: u64,
    route: Option<FibMacs>,
)
    requires
        ({
            let k = frame_tuple(data, src_ip, dst_ip);
            ct.contains_key(k) && pair_in_step(ct, k, dnat_reverse_key(k, ct[k].nat_data))
        }),
    ensures
        ({
            let k = frame_tuple(data, src_ip, dst_ip);
            let r = dnat_reverse_key(k, ct[k].nat_data);
            let out = process_udp_dnat_spec(data, ct, count, expose, src_ip, dst_ip, now, route);
            &&& out.count == count
            &&& out.conntrack.dom() == ct.dom()
            &&& pair_in_step(out.conntrack, k, r)
            &&& out.conntrack[k].nat_data == ct[k].nat_data
            &&& out.conntrack[r].nat_data == ct[r].nat_data
            &&& out.conntrack[r].direction == ct[r].direction
            &&& forall|j: ConnectionTuple|
                #![trigger out.conntrack[j]]
                ct.contains_key(j) && j != k && j != r ==> out.conntrack[j] == ct[j]
        }),
{
    let k = frame_tuple(data, src_ip, dst_ip);
    let r = dnat_reverse_key(k, ct[k].nat_data);
    let out = process_udp_dnat_spec(data, ct, count, expose, src_ip, dst_ip, now, route);
    let (st, update) = refreshed(ct[k], now);
    let ct1 = ct.insert(k, st);
    if update {
        assert(out.conntrack == synced(ct1, r, st));
    } else {
        assert(st == ct[k]);
        assert(ct1 =~= ct);
    }
    assert(out.conntrack.dom() =~= ct.dom());
}

/// How seeing a tracked flow again at `now` changes its entry. Nothing but
/// the reply flag and timeout ever changes. An Original-direction entry is
/// extended to `now` plus its lifetime (the established one once a reply
/// was seen, the new one before) when that is more than `THRESHOLD_NS`
/// beyond its timeout. A Reply-direction entry is marked as having seen a
/// reply and extended to `now + TIMEOUT_EST` on its first frame, and later
/// whenever that is more than `THRESHOLD_NS` beyond its timeout. The other
/// direction must follow exactly when the entry changed in one of these
/// ways; otherwise the entry is left as it was.
pub proof fn lemma_refresh_rules(st: FlowState, now: u64)
    requires
        now <= u64::MAX - TIMEOUT_EST,
    ensures
        ({
            let (st2, update) = refreshed(st, now);
            let lifetime: int = if st.seen_reply { 180_000_000_000 } else { 30_000_000_000 };
            &&& st2.nat_data == st.nat_data
            &&& st2.direction == st.direction
            &&& !update ==> st2 == st
            &&& st.direction == Direction::Original ==> {
                &&& update == (now + lifetime > st.timeout + 1_000_000_000)
                &&& update ==> st2.timeout == now + lifetime && st2.seen_reply == st.seen_reply
            }
            &&& st.direction == Direction::Reply ==> {
                &&& update == (!st.seen_reply || now + 180_000_000_000 > st.timeout + 1_000_000_000)
                &&& update ==> st2.timeout == now + 180_000_000_000 && st2.seen_reply
            }
        }),
{
}

/// An unfragmented, option-less IPv4 frame carrying UDP, TCP or ICMP and
/// addressed to an interface in the device map is redirected to that
/// interface whatever its protocol among the three, and nothing else
/// changes; a frame of any other protocol goes to the stack untouched.
pub proof fn lemma_device_map_redirect(
    data: Seq<u8>,
    flag: Flags,
    maps: XdpMaps,
    now: u64,
    route: Option<FibMacs>,
)
    requires
        data.len() >= 34,
        be16(data, 12) == 0x0800,
        data[14] % 16 == 5,
        be16(data, 20) % 0x4000 == 0,
    ensures
        ({
            let out = try_xdp_redirect_spec(data, flag, maps, now, route);
            let dst = be32(data, 30);
            &&& (data[23] == 17 || data[23] == 6 || data[23] == 1) && maps.redirect_map.contents().contains_key(
                dst,
            ) ==> {
                &&& out.verdict == XdpVerdict::Redirect(maps.redirect_map.contents()[dst])
                &&& out.data == data
                &&& out.conntrack == maps.udp_conntrack@
                &&& out.count == maps.udp_conntrack.count()
            }
            &&& !(data[23] == 17 || data[23] == 6 || data[23] == 1) ==> {
                &&& out.verdict == XdpVerdict::Pass
                &&& out.data == data
                &&& out.conntrack == maps.udp_conntrack@
            }
        }),
{
}

/// The first frame of a new flow to an exposed host port is bound to the
/// exposed container: its address and port, forwarding to its interface
/// key and MAC. Unless the table is full, the flow's entry then holds that
/// binding in the original direction, so a later frame of the same flow is
/// translated with the same binding.
pub proof fn lemma_dnat_new_flow_keeps_binding(
    data: Seq<u8>,
    ct: Map<ConnectionTuple, FlowState>,
    count: nat,
    expose: Map<u16, ContainerInfo>,
    src_ip: u32,
    dst_ip: u32,
    now: u64,
    fib: FibMacs,
    next: Seq<u8>,
    later: u64,
    next_route: Option<FibMacs>,
)
    requires
        !ct.contains_key(frame_tuple(data, src_ip, dst_ip)),
        expose.contains_key(be16(data, UDP_DST as int)),
        count < CONNTRACK_MAX_ENTRIES,
        frame_tuple(next, src_ip, dst_ip) == frame_tuple(data, src_ip, dst_ip),
    ensures
        ({
            let key = frame_tuple(data, src_ip, dst_ip);
            let c = expose[key.dst_port];
            let first = process_udp_dnat_spec(data, ct, count, expose, src_ip, dst_ip, now, Some(fib));
            let second = process_udp_dnat_spec(
                next,
                first.conntrack,
                first.count,
                expose,
                src_ip,
                dst_ip,
                later,
                next_route,
            );
            &&& first.nat is Some
            &&& first.nat->0.nat_addr == c.container_ip
            &&& first.nat->0.nat_port == c.container_port
            &&& first.nat->0.devmap_key == c.container_ip
            &&& first.nat->0.fib_macs.fib_dmac == c.container_mac
            &&& first.conntrack.contains_key(key)
            &&& first.conntrack[key].nat_data == first.nat->0
            &&& first.conntrack[key].direction == Direction::Original
            &&& second.nat == first.nat
        }),
{
}

/// The first frame of a new flow from a container through an exposed port
/// is bound to the host address and port the port is exposed on, leaving
/// by the host NIC; unless the table is full, the flow's entry then holds
/// that binding in the original direction, so a later frame of the same
/// flow is translated with the same binding.
pub proof fn lemma_snat_new_flow_keeps_binding(
    data: Seq<u8>,
    ct: Map<ConnectionTuple, FlowState>,
    count: nat,
    rev_expose: Map<u16, HostInfo>,
    src_ip: u32,
    dst_ip: u32,
    now: u64,
    fib: FibMacs,
    next: Seq<u8>,
    later: u64,
    next_route: Option<FibMacs>,
)
    requires
        !ct.contains_key(frame_tuple(data, src_ip, dst_ip)),
        rev_expose.contains_key(be16(data, UDP_SRC as int)),
        count < CONNTRACK_MAX_ENTRIES,
        frame_tuple(next, src_ip, dst_ip) == frame_tuple(data, src_ip, dst_ip),
    ensures
        ({
            let key = frame_tuple(data, src_ip, dst_ip);
            let h = rev_expose[key.src_port];
            let first = process_udp_snat_spec(data, ct, count, rev_expose, src_ip, dst_ip, now, Some(fib));
            let second = process_udp_snat_spec(
                next,
                first.conntrack,
                first.count,
                rev_expose,
                src_ip,
                dst_ip,
                later,
                next_route,
            );
            &&& first.nat is Some
            &&& first.nat->0.nat_addr == h.host_ip
            &&& first.nat->0.nat_port == h.host_port
            &&& first.nat->0.devmap_key == 0
            &&& first.nat->0.fib_macs == fib
            &&& first.conntrack.contains_key(key)
            &&& first.conntrack[key].nat_data == first.nat->0
            &&& first.conntrack[key].direction == Direction::Original
            &&& second.nat == first.nat
        }),
{
}

} // verus!
