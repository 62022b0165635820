use traff_off_func::bpf_map::{BpfHashMap, BPF_ANY, BPF_EXIST, BPF_NOEXIST, E2BIG, EEXIST, EINVAL, ENOENT};
use traff_off_func::common::{
    ConnectionTuple, ContainerInfo, Direction, FibMacs, FlowState, HostInfo, NATData, TIMEOUT_EST,
    TIMEOUT_NEW,
};
use traff_off_func::datapath::{
    process_udp_dnat, process_udp_snat, refresh_flow_state, route_request, try_xdp_redirect,
    xdp_pass, xdp_redirect_containers, xdp_redirect_host, XdpContext, XdpMaps, XdpVerdict,
    THRESHOLD_NS, XDP_PASS, XDP_REDIRECT,
};
use traff_off_func::ebpf::{Flags, AF_INET};
use traff_off_func::helpers::BPF_FIB_LOOKUP_DIRECT;

const CONTAINER_MAC: [u8; 6] = [0x02, 0x42, 0xac, 0x11, 0x00, 0x02];
const BRIDGE_MAC: [u8; 6] = [0x02, 0x42, 0x11, 0x22, 0x33, 0x44];
const NIC_MAC: [u8; 6] = [0x52, 0x54, 0x00, 0xaa, 0xbb, 0xcc];
const GW_MAC: [u8; 6] = [0x52, 0x54, 0x00, 0x11, 0x22, 0x33];

const CONTAINER_IP: u32 = 0xac11_0002; // 172.17.0.2
const HOST_IP: u32 = 0xc0a8_0164; // 192.168.1.100
const REMOTE_IP: u32 = 0x0808_0808; // 8.8.8.8
const HOST_PORT: u16 = 10000;
const CONTAINER_PORT: u16 = 5201;
const PNIC_IFINDEX: u32 = 2;
const VETH_IFINDEX: u32 = 9;
const NOW: u64 = 5_000_000_000;

fn fold(mut sum: u32) -> u16 {
    while sum > 0xffff {
        sum = (sum & 0xffff) + (sum >> 16);
    }
    sum as u16
}

fn sum_words(bytes: &[u8]) -> u32 {
    let mut sum: u32 = 0;
    let mut i = 0;
    while i < bytes.len() {
        let hi = bytes[i] as u32;
        let lo = if i + 1 < bytes.len() { bytes[i + 1] as u32 } else { 0 };
        sum += (hi << 8) | lo;
        i += 2;
    }
    sum
}

fn udp_pseudo_sum(frame: &[u8]) -> u32 {
    let udp_len = (frame.len() - 34) as u32;
    sum_words(&frame[26..34]) + 17 + udp_len + sum_words(&frame[34..])
}

fn ipv4_checksum_ok(frame: &[u8]) -> bool {
    fold(sum_words(&frame[14..34])) == 0xffff
}

fn udp_checksum_ok(frame: &[u8]) -> bool {
    fold(udp_pseudo_sum(frame)) == 0xffff
}

fn frame(
    src_mac: [u8; 6],
    dst_mac: [u8; 6],
    src_ip: u32,
    dst_ip: u32,
    proto: u8,
    sport: u16,
    dport: u16,
    payload: &[u8],
    udp_checksum: bool,
) -> Vec<u8> {
    let mut f = Vec::new();
    f.extend_from_slice(&dst_mac);
    f.extend_from_slice(&src_mac);
    f.extend_from_slice(&[0x08, 0x00]);
    let tot_len = (20 + 8 + payload.len()) as u16;
    f.extend_from_slice(&[0x45, 0x00]);
    f.extend_from_slice(&tot_len.to_be_bytes());
    f.extend_from_slice(&[0x12, 0x34, 0x40, 0x00, 64, proto, 0, 0]);
    f.extend_from_slice(&src_ip.to_be_bytes());
    f.extend_from_slice(&dst_ip.to_be_bytes());
    let check = !fold(sum_words(&f[14..34]));
    f[24..26].copy_from_slice(&check.to_be_bytes());
    f.extend_from_slice(&sport.to_be_bytes());
    f.extend_from_slice(&dport.to_be_bytes());
    f.extend_from_slice(&((8 + payload.len()) as u16).to_be_bytes());
    f.extend_from_slice(&[0, 0]);
    f.extend_from_slice(payload);
    if udp_checksum {
        let mut c = !fold(udp_pseudo_sum(&f));
        if c == 0 {
            c = 0xffff;
        }
        f[40..42].copy_from_slice(&c.to_be_bytes());
    }
    f
}

fn be16(f: &[u8], i: usize) -> u16 {
    u16::from_be_bytes([f[i], f[i + 1]])
}

fn be32(f: &[u8], i: usize) -> u32 {
    u32::from_be_bytes([f[i], f[i + 1], f[i + 2], f[i + 3]])
}

fn maps() -> XdpMaps {
    let mut m = XdpMaps::new();
    assert_eq!(m.redirect_map.insert(0, PNIC_IFINDEX, BPF_ANY), Ok(()));
    assert_eq!(m.redirect_map.insert(CONTAINER_IP, VETH_IFINDEX, BPF_ANY), Ok(()));
    let host = HostInfo { host_ip: HOST_IP, host_port: HOST_PORT, host_ifindex: PNIC_IFINDEX };
    assert_eq!(m.rev_expose_map.insert(CONTAINER_PORT, host, BPF_ANY), Ok(()));
    let container = ContainerInfo {
        container_ip: CONTAINER_IP,
        container_mac: CONTAINER_MAC,
        container_port: CONTAINER_PORT,
        ifindex: VETH_IFINDEX,
    };
    assert_eq!(m.expose_map.insert(HOST_PORT, container, BPF_ANY), Ok(()));
    m
}

fn ctx(data: Vec<u8>, ingress: u32) -> XdpContext {
    XdpContext { data, ingress_ifindex: ingress }
}

fn outbound(payload: &[u8], udp_checksum: bool) -> Vec<u8> {
    frame(CONTAINER_MAC, BRIDGE_MAC, CONTAINER_IP, REMOTE_IP, 17, CONTAINER_PORT, 53, payload, udp_checksum)
}

fn route() -> FibMacs {
    FibMacs { fib_smac: NIC_MAC, fib_dmac: GW_MAC }
}

#[test]
fn non_ipv4_frame_passes_unchanged() {
    let mut f = outbound(b"hello", true);
    f[12] = 0x86;
    f[13] = 0xdd;
    let mut c = ctx(f.clone(), VETH_IFINDEX);
    let mut m = maps();
    assert_eq!(try_xdp_redirect(&mut c, Flags::Snat, &mut m, NOW, Some(route())), Ok(XdpVerdict::Pass));
    assert_eq!(c.data, f);
    assert_eq!(m.udp_conntrack.count_entries(), 0);
}

#[test]
fn short_frame_passes() {
    let f = outbound(b"", true)[..33].to_vec();
    let mut c = ctx(f.clone(), VETH_IFINDEX);
    let mut m = maps();
    assert_eq!(xdp_redirect_containers(&mut c, &mut m, NOW, Some(route())), XDP_PASS);
    assert_eq!(c.data, f);
}

#[test]
fn fragments_and_options_pass() {
    let mut m = maps();
    let mut more_fragments = outbound(b"abc", true);
    more_fragments[20] = 0x20;
    let mut c = ctx(more_fragments.clone(), VETH_IFINDEX);
    assert_eq!(try_xdp_redirect(&mut c, Flags::Snat, &mut m, NOW, Some(route())), Ok(XdpVerdict::Pass));
    assert_eq!(c.data, more_fragments);
    let mut offset = outbound(b"abc", true);
    offset[21] = 0x01;
    let mut c = ctx(offset.clone(), VETH_IFINDEX);
    assert_eq!(try_xdp_redirect(&mut c, Flags::Snat, &mut m, NOW, Some(route())), Ok(XdpVerdict::Pass));
    let mut options = outbound(b"abc", true);
    options[14] = 0x46;
    let mut c = ctx(options.clone(), VETH_IFINDEX);
    assert_eq!(try_xdp_redirect(&mut c, Flags::Snat, &mut m, NOW, Some(route())), Ok(XdpVerdict::Pass));
    assert_eq!(m.udp_conntrack.count_entries(), 0);
}

#[test]
fn other_protocols_pass() {
    let f = frame(CONTAINER_MAC, BRIDGE_MAC, CONTAINER_IP, REMOTE_IP, 47, 1, 2, b"", false);
    let mut c = ctx(f.clone(), VETH_IFINDEX);
    let mut m = maps();
    assert_eq!(try_xdp_redirect(&mut c, Flags::Snat, &mut m, NOW, Some(route())), Ok(XdpVerdict::Pass));
    let tcp = frame(CONTAINER_MAC, BRIDGE_MAC, CONTAINER_IP, REMOTE_IP, 6, CONTAINER_PORT, 80, b"", false);
    let mut c = ctx(tcp.clone(), VETH_IFINDEX);
    assert_eq!(try_xdp_redirect(&mut c, Flags::Snat, &mut m, NOW, Some(route())), Ok(XdpVerdict::Pass));
    assert_eq!(c.data, tcp);
}

#[test]
fn traffic_to_a_container_is_redirected_directly() {
    let tcp = frame(GW_MAC, NIC_MAC, REMOTE_IP, CONTAINER_IP, 6, 80, 5201, b"", false);
    let mut c = ctx(tcp.clone(), PNIC_IFINDEX);
    let mut m = maps();
    assert_eq!(
        try_xdp_redirect(&mut c, Flags::Dnat, &mut m, NOW, None),
        Ok(XdpVerdict::Redirect(VETH_IFINDEX))
    );
    assert_eq!(c.data, tcp);
    let mut c = ctx(tcp.clone(), PNIC_IFINDEX);
    assert_eq!(xdp_redirect_host(&mut c, &mut m, NOW, None), XDP_REDIRECT);
}

#[test]
fn new_container_flow_is_source_translated() {
    let f = outbound(b"query", true);
    let mut c = ctx(f.clone(), VETH_IFINDEX);
    let mut m = maps();
    let req = route_request(&c, Flags::Snat, &m).expect("a lookup is needed");
    assert_eq!(req.family, AF_INET);
    assert_eq!(req.l4_protocol, 17);
    assert_eq!(req.ipv4_src, HOST_IP);
    assert_eq!(req.ipv4_dst, REMOTE_IP);
    assert_eq!(req.tot_len, f.len() as u16 - 14);
    assert_eq!(req.ifindex, VETH_IFINDEX);
    assert_eq!(req.size, 64);
    assert_eq!(req.flags, BPF_FIB_LOOKUP_DIRECT);

    let verdict = try_xdp_redirect(&mut c, Flags::Snat, &mut m, NOW, Some(route()));
    assert_eq!(verdict, Ok(XdpVerdict::Redirect(PNIC_IFINDEX)));
    let out = &c.data;
    assert_eq!(be32(out, 26), HOST_IP);
    assert_eq!(be32(out, 30), REMOTE_IP);
    assert_eq!(be16(out, 34), HOST_PORT);
    assert_eq!(be16(out, 36), 53);
    assert_eq!(&out[0..6], &GW_MAC);
    assert_eq!(&out[6..12], &NIC_MAC);
    assert!(ipv4_checksum_ok(out));
    assert!(udp_checksum_ok(out));
    assert_eq!(&out[42..], b"query");

    assert_eq!(m.udp_conntrack.count_entries(), 2);
    let fwd = m
        .udp_conntrack
        .get(&ConnectionTuple::new(CONTAINER_IP, REMOTE_IP, CONTAINER_PORT, 53))
        .expect("forward entry");
    assert_eq!(fwd.direction, Direction::Original);
    assert_eq!(fwd.nat_data.nat_addr, HOST_IP);
    assert_eq!(fwd.nat_data.nat_port, HOST_PORT);
    assert_eq!(fwd.nat_data.devmap_key, 0);
    assert_eq!(fwd.timeout, NOW + TIMEOUT_NEW);
    assert!(!fwd.seen_reply);
    let rev = m
        .udp_conntrack
        .get(&ConnectionTuple::new(REMOTE_IP, HOST_IP, 53, HOST_PORT))
        .expect("reply entry");
    assert_eq!(rev.direction, Direction::Reply);
    assert_eq!(rev.nat_data.nat_addr, CONTAINER_IP);
    assert_eq!(rev.nat_data.nat_port, CONTAINER_PORT);
    assert_eq!(rev.nat_data.devmap_key, CONTAINER_IP);
    assert_eq!(rev.nat_data.fib_macs.fib_smac, NIC_MAC);
    assert_eq!(rev.nat_data.fib_macs.fib_dmac, CONTAINER_MAC);
    assert_eq!(rev.timeout, NOW + TIMEOUT_NEW);
}

#[test]
fn reply_to_container_flow_is_translated_back() {
    let mut m = maps();
    let mut c = ctx(outbound(b"query", true), VETH_IFINDEX);
    assert_eq!(
        try_xdp_redirect(&mut c, Flags::Snat, &mut m, NOW, Some(route())),
        Ok(XdpVerdict::Redirect(PNIC_IFINDEX))
    );
    let reply = frame(GW_MAC, NIC_MAC, REMOTE_IP, HOST_IP, 17, 53, HOST_PORT, b"answer", true);
    let mut c = ctx(reply, PNIC_IFINDEX);
    assert_eq!(route_request(&c, Flags::Dnat, &m), None);
    let later = NOW + 2 * THRESHOLD_NS;
    let verdict = try_xdp_redirect(&mut c, Flags::Dnat, &mut m, later, None);
    assert_eq!(verdict, Ok(XdpVerdict::Redirect(VETH_IFINDEX)));
    let out = &c.data;
    assert_eq!(be32(out, 26), REMOTE_IP);
    assert_eq!(be32(out, 30), CONTAINER_IP);
    assert_eq!(be16(out, 34), 53);
    assert_eq!(be16(out, 36), CONTAINER_PORT);
    assert_eq!(&out[0..6], &CONTAINER_MAC);
    assert_eq!(&out[6..12], &NIC_MAC);
    assert!(ipv4_checksum_ok(out));
    assert!(udp_checksum_ok(out));
    // The reply entry saw its first reply: both directions are now established.
    let rev = m.udp_conntrack.get(&ConnectionTuple::new(REMOTE_IP, HOST_IP, 53, HOST_PORT)).unwrap();
    assert!(rev.seen_reply);
    assert_eq!(rev.timeout, later + TIMEOUT_EST);
    let fwd = m
        .udp_conntrack
        .get(&ConnectionTuple::new(CONTAINER_IP, REMOTE_IP, CONTAINER_PORT, 53))
        .unwrap();
    assert!(fwd.seen_reply);
    assert_eq!(fwd.timeout, later + TIMEOUT_EST);
    assert_eq!(m.udp_conntrack.count_entries(), 2);
}

#[test]
fn new_flow_to_exposed_port_is_destination_translated() {
    let mut m = maps();
    let f = frame(GW_MAC, NIC_MAC, REMOTE_IP, HOST_IP, 17, 40000, HOST_PORT, b"ping", true);
    let mut c = ctx(f.clone(), PNIC_IFINDEX);
    let req = route_request(&c, Flags::Dnat, &m).expect("a lookup is needed");
    assert_eq!(req.ipv4_src, HOST_IP);
    assert_eq!(req.ipv4_dst, REMOTE_IP);
    assert_eq!(req.ifindex, VETH_IFINDEX);
    let verdict = try_xdp_redirect(&mut c, Flags::Dnat, &mut m, NOW, Some(route()));
    assert_eq!(verdict, Ok(XdpVerdict::Redirect(VETH_IFINDEX)));
    let out = &c.data;
    assert_eq!(be32(out, 26), REMOTE_IP);
    assert_eq!(be32(out, 30), CONTAINER_IP);
    assert_eq!(be16(out, 34), 40000);
    assert_eq!(be16(out, 36), CONTAINER_PORT);
    assert_eq!(&out[0..6], &CONTAINER_MAC);
    assert_eq!(&out[6..12], &NIC_MAC);
    assert!(ipv4_checksum_ok(out));
    assert!(udp_checksum_ok(out));

    // The container's answer leaves with the host address and port the client used.
    let answer = frame(CONTAINER_MAC, BRIDGE_MAC, CONTAINER_IP, REMOTE_IP, 17, CONTAINER_PORT, 40000, b"pong", true);
    let mut c = ctx(answer, VETH_IFINDEX);
    let verdict = try_xdp_redirect(&mut c, Flags::Snat, &mut m, NOW + 1, None);
    assert_eq!(verdict, Ok(XdpVerdict::Redirect(PNIC_IFINDEX)));
    let out = &c.data;
    assert_eq!(be32(out, 26), HOST_IP);
    assert_eq!(be16(out, 34), HOST_PORT);
    assert_eq!(be32(out, 30), REMOTE_IP);
    assert_eq!(&out[0..6], &GW_MAC);
    assert_eq!(&out[6..12], &NIC_MAC);
    assert!(ipv4_checksum_ok(out));
    assert!(udp_checksum_ok(out));
}

#[test]
fn no_route_or_no_exposure_passes_unchanged() {
    let mut m = maps();
    let f = outbound(b"x", true);
    let mut c = ctx(f.clone(), VETH_IFINDEX);
    assert_eq!(try_xdp_redirect(&mut c, Flags::Snat, &mut m, NOW, None), Ok(XdpVerdict::Pass));
    assert_eq!(c.data, f);
    assert_eq!(m.udp_conntrack.count_entries(), 0);

    let unexposed = frame(CONTAINER_MAC, BRIDGE_MAC, CONTAINER_IP, REMOTE_IP, 17, 9999, 53, b"x", true);
    let mut c = ctx(unexposed.clone(), VETH_IFINDEX);
    assert_eq!(route_request(&c, Flags::Snat, &m), None);
    assert_eq!(try_xdp_redirect(&mut c, Flags::Snat, &mut m, NOW, Some(route())), Ok(XdpVerdict::Pass));
    assert_eq!(c.data, unexposed);

    let inbound = frame(GW_MAC, NIC_MAC, REMOTE_IP, HOST_IP, 17, 40000, 10999, b"x", true);
    let mut c = ctx(inbound.clone(), PNIC_IFINDEX);
    assert_eq!(try_xdp_redirect(&mut c, Flags::Dnat, &mut m, NOW, Some(route())), Ok(XdpVerdict::Pass));
    assert_eq!(c.data, inbound);
    assert_eq!(m.udp_conntrack.count_entries(), 0);
}

#[test]
fn frame_without_udp_checksum_keeps_its_port() {
    let mut m = maps();
    let mut c = ctx(outbound(b"data", false), VETH_IFINDEX);
    assert_eq!(
        try_xdp_redirect(&mut c, Flags::Snat, &mut m, NOW, Some(route())),
        Ok(XdpVerdict::Redirect(PNIC_IFINDEX))
    );
    assert_eq!(be32(&c.data, 26), HOST_IP);
    assert_eq!(be16(&c.data, 34), CONTAINER_PORT);
    assert_eq!(be16(&c.data, 40), 0);
    assert!(ipv4_checksum_ok(&c.data));
}

#[test]
fn process_udp_snat_reports_the_binding() {
    let mut m = maps();
    let mut c = ctx(outbound(b"q", true), VETH_IFINDEX);
    let nat = process_udp_snat(&mut c, &mut m, CONTAINER_IP, REMOTE_IP, NOW, Some(route()));
    assert_eq!(
        nat,
        Ok(Some(NATData::new(HOST_IP, HOST_PORT, route(), 0)))
    );
    let mut c2 = ctx(outbound(b"q", true), VETH_IFINDEX);
    let again = process_udp_snat(&mut c2, &mut m, CONTAINER_IP, REMOTE_IP, NOW, None);
    assert_eq!(again, nat);
    assert_eq!(c2.data, c.data);
}

#[test]
fn process_udp_dnat_reports_the_binding() {
    let mut m = maps();
    let f = frame(GW_MAC, NIC_MAC, REMOTE_IP, HOST_IP, 17, 40000, HOST_PORT, b"ping", true);
    let mut c = ctx(f, PNIC_IFINDEX);
    let nat = process_udp_dnat(&mut c, &mut m, REMOTE_IP, HOST_IP, NOW, Some(route())).unwrap().unwrap();
    assert_eq!(nat.nat_addr, CONTAINER_IP);
    assert_eq!(nat.nat_port, CONTAINER_PORT);
    assert_eq!(nat.devmap_key, CONTAINER_IP);
    assert_eq!(nat.fib_macs.fib_smac, NIC_MAC);
    assert_eq!(nat.fib_macs.fib_dmac, CONTAINER_MAC);
    let back = m.udp_conntrack.get(&ConnectionTuple::new(CONTAINER_IP, REMOTE_IP, CONTAINER_PORT, 40000)).unwrap();
    assert_eq!(back.nat_data, NATData::new(HOST_IP, HOST_PORT, route(), 0));
    assert_eq!(back.direction, Direction::Reply);
}

#[test]
fn refresh_rules() {
    let nat = NATData::new(1, 2, route(), 0);
    // A new original entry is extended by the short timeout once it lags by more than a second.
    let mut s = FlowState::new(nat, Direction::Original, 100);
    assert!(refresh_flow_state(&mut s, 10_000_000_000));
    assert_eq!(s.timeout, 10_000_000_000 + TIMEOUT_NEW);
    assert!(!s.seen_reply);
    // Within the threshold nothing is written.
    let mut s2 = s;
    assert!(!refresh_flow_state(&mut s2, 10_500_000_000));
    assert_eq!(s2, s);
    // An established original entry gets the long timeout.
    let mut s3 = FlowState { seen_reply: true, ..s };
    assert!(refresh_flow_state(&mut s3, 20_000_000_000));
    assert_eq!(s3.timeout, 20_000_000_000 + TIMEOUT_EST);
    // A reply entry's first packet marks the flow as answered.
    let mut r = FlowState::new(nat, Direction::Reply, u64::MAX / 2);
    assert!(refresh_flow_state(&mut r, 1));
    assert!(r.seen_reply);
    assert_eq!(r.timeout, 1 + TIMEOUT_EST);
    let mut r2 = r;
    assert!(!refresh_flow_state(&mut r2, 1 + THRESHOLD_NS));
    assert_eq!(r2, r);
}

#[test]
fn xdp_pass_and_codes() {
    let c = ctx(vec![1, 2, 3], 1);
    assert_eq!(xdp_pass(&c), XDP_PASS);
    assert_eq!(XdpVerdict::Pass.code(), 2);
    assert_eq!(XdpVerdict::Redirect(7).code(), 4);
}

#[test]
fn full_conntrack_refuses_new_entries() {
    let mut m = maps();
    let nat = NATData::new(1, 2, route(), 0);
    for i in 0..65536u32 {
        let t = ConnectionTuple::new(i, 0, 1, 1);
        assert_eq!(m.udp_conntrack.insert(&t, FlowState::new(nat, Direction::Original, 0), BPF_NOEXIST), Ok(()));
    }
    let extra = ConnectionTuple::new(0xffff_ffff, 0, 1, 1);
    assert_eq!(m.udp_conntrack.insert(&extra, FlowState::new(nat, Direction::Original, 0), BPF_NOEXIST), Err(E2BIG));
    let mut c = ctx(outbound(b"q", true), VETH_IFINDEX);
    // The frame is still translated, but no entry is created.
    assert_eq!(
        try_xdp_redirect(&mut c, Flags::Snat, &mut m, NOW, Some(route())),
        Ok(XdpVerdict::Redirect(PNIC_IFINDEX))
    );
    assert_eq!(m.udp_conntrack.count_entries(), 65536);
    assert_eq!(m.udp_conntrack.get(&ConnectionTuple::new(CONTAINER_IP, REMOTE_IP, CONTAINER_PORT, 53)), None);
}

#[test]
fn bpf_map_update_flags() {
    let mut map: BpfHashMap<u16, u32> = BpfHashMap::with_max_entries(2);
    assert_eq!(map.insert(1, 10, 7), Err(EINVAL));
    assert_eq!(map.insert(1, 10, BPF_EXIST), Err(ENOENT));
    assert_eq!(map.insert(1, 10, BPF_NOEXIST), Ok(()));
    assert_eq!(map.insert(1, 11, BPF_NOEXIST), Err(EEXIST));
    assert_eq!(map.get(&1), Some(10));
    assert_eq!(map.insert(1, 12, BPF_EXIST), Ok(()));
    assert_eq!(map.get(&1), Some(12));
    assert_eq!(map.insert(2, 20, BPF_ANY), Ok(()));
    assert_eq!(map.insert(3, 30, BPF_ANY), Err(E2BIG));
    assert_eq!(map.insert(2, 21, BPF_ANY), Ok(()));
    assert_eq!(map.len(), 2);
    assert_eq!(map.remove(&1), Ok(()));
    assert_eq!(map.remove(&1), Err(ENOENT));
    assert!(!map.contains_key(&1));
    assert_eq!(map.insert(3, 30, BPF_ANY), Ok(()));
}

#[test]
fn conntrack_remove() {
    let mut m = maps();
    let t = ConnectionTuple::new(1, 2, 3, 4);
    let nat = NATData::new(1, 2, route(), 0);
    assert_eq!(m.udp_conntrack.insert(&t, FlowState::new(nat, Direction::Reply, 9), BPF_ANY), Ok(()));
    assert_eq!(m.udp_conntrack.count_entries(), 1);
    assert_eq!(m.udp_conntrack.remove(&t), Ok(()));
    assert_eq!(m.udp_conntrack.remove(&t), Err(ENOENT));
    assert_eq!(m.udp_conntrack.count_entries(), 0);
}

#[test]
fn conntrack_count_matches_distinct_flows() {
    let mut m = maps();
    let nat = NATData::new(1, 2, route(), 0);
    let flows = [
        ConnectionTuple::new(1, 2, 3, 4),
        ConnectionTuple::new(2, 1, 3, 4),
        ConnectionTuple::new(1, 2, 4, 3),
        ConnectionTuple::new(1, 2, 3, 5),
        ConnectionTuple::new(0x0001_0000, 2, 3, 4),
    ];
    for t in &flows {
        assert_eq!(m.udp_conntrack.insert(t, FlowState::new(nat, Direction::Original, 7), BPF_NOEXIST), Ok(()));
    }
    assert_eq!(m.udp_conntrack.insert(&flows[2], FlowState::new(nat, Direction::Reply, 8), BPF_ANY), Ok(()));
    assert_eq!(m.udp_conntrack.count_entries(), flows.len());
    for t in &flows {
        assert!(m.udp_conntrack.get(t).is_some());
    }
    assert_eq!(m.udp_conntrack.get(&flows[2]).map(|s| s.timeout), Some(8));
}

#[test]
fn refresh_of_one_direction_reaches_the_other() {
    let mut m = maps();
    let fwd_key = ConnectionTuple::new(CONTAINER_IP, REMOTE_IP, CONTAINER_PORT, 53);
    let rev_key = ConnectionTuple::new(REMOTE_IP, HOST_IP, 53, HOST_PORT);
    let mut c = ctx(outbound(b"q1", true), VETH_IFINDEX);
    try_xdp_redirect(&mut c, Flags::Snat, &mut m, NOW, Some(route())).unwrap();
    let pair = |m: &XdpMaps| {
        let f = m.udp_conntrack.get(&fwd_key).unwrap();
        let r = m.udp_conntrack.get(&rev_key).unwrap();
        (f.seen_reply, f.timeout, r.seen_reply, r.timeout)
    };
    assert_eq!(pair(&m), (false, NOW + TIMEOUT_NEW, false, NOW + TIMEOUT_NEW));
    // A second outbound frame much later extends both entries.
    let later = NOW + 3 * THRESHOLD_NS;
    let mut c = ctx(outbound(b"q2", true), VETH_IFINDEX);
    try_xdp_redirect(&mut c, Flags::Snat, &mut m, later, None).unwrap();
    assert_eq!(pair(&m), (false, later + TIMEOUT_NEW, false, later + TIMEOUT_NEW));
    // Within the threshold nothing is written.
    let mut c = ctx(outbound(b"q3", true), VETH_IFINDEX);
    try_xdp_redirect(&mut c, Flags::Snat, &mut m, later + 1, None).unwrap();
    assert_eq!(pair(&m), (false, later + TIMEOUT_NEW, false, later + TIMEOUT_NEW));
    assert_eq!(m.udp_conntrack.count_entries(), 2);
}
