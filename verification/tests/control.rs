use traff_off_func::common::{ConnectionTuple, Direction, FibMacs, FlowState, NATData};
use traff_off_func::containers::ContainerMetadata;
use traff_off_func::control::{
    devmap_entries, interface_ipv4, parse_port_range, parse_xdp_mode, plan_startup_exposures,
    reserved_ports_content, stale_connections, timespec_to_nanos, PortRangeError, XdpMode,
    IPERF_SERVER_PORT, PORT_RANGE,
};
use traff_off_func::port_allocator::PortAllocator;
use traff_off_func::text::IntErrorKind;

fn container(ip: u32, ifindex: u32) -> ContainerMetadata {
    ContainerMetadata {
        name: format!("c{ifindex}"),
        veth: format!("veth{ifindex}"),
        ipv4_address: ip,
        ifindex,
        pid: None,
        mac_address: [2, 0, 0, 0, 0, ifindex as u8],
    }
}

#[test]
fn xdp_modes() {
    assert_eq!(parse_xdp_mode("skb"), Ok(XdpMode::Skb));
    assert_eq!(parse_xdp_mode("native"), Ok(XdpMode::Native));
    assert_eq!(parse_xdp_mode("Native"), Err("invalid mode, use either 'skb' or 'native'".to_string()));
    assert_eq!(parse_xdp_mode(""), Err("invalid mode, use either 'skb' or 'native'".to_string()));
}

#[test]
fn reserved_ports_list() {
    assert_eq!(reserved_ports_content("", PORT_RANGE), "10000-12000");
    assert_eq!(reserved_ports_content("  \n", "1-2"), "1-2");
    assert_eq!(reserved_ports_content("8080,9000-9100\n", PORT_RANGE), "8080,9000-9100,10000-12000");
    assert_eq!(reserved_ports_content("\t5 ", "6"), "5,6");
}

#[test]
fn port_ranges() {
    assert_eq!(parse_port_range(PORT_RANGE), Ok((10000, 12000)));
    assert_eq!(parse_port_range("+1-2"), Ok((1, 2)));
    assert_eq!(parse_port_range("5-3"), Ok((5, 3)));
    assert_eq!(parse_port_range("10000"), Err(PortRangeError::InvalidFormat));
    assert_eq!(parse_port_range("-5"), Err(PortRangeError::InvalidPort(IntErrorKind::Empty)));
    assert_eq!(parse_port_range("1-2-3"), Err(PortRangeError::InvalidPort(IntErrorKind::InvalidDigit)));
    assert_eq!(parse_port_range("1-70000"), Err(PortRangeError::InvalidPort(IntErrorKind::PosOverflow)));
    assert_eq!(parse_port_range("a-1"), Err(PortRangeError::InvalidPort(IntErrorKind::InvalidDigit)));
}

#[test]
fn stale_entries() {
    let nat = NATData::new(1, 1, FibMacs::default(), 0);
    let entries = vec![
        (ConnectionTuple::new(1, 2, 3, 4), FlowState::new(nat, Direction::Original, 100)),
        (ConnectionTuple::new(5, 6, 7, 8), FlowState::new(nat, Direction::Reply, 200)),
        (ConnectionTuple::new(9, 9, 9, 9), FlowState::new(nat, Direction::Original, 150)),
    ];
    assert_eq!(stale_connections(&entries, 99), vec![]);
    assert_eq!(stale_connections(&entries, 100), vec![ConnectionTuple::new(1, 2, 3, 4)]);
    assert_eq!(
        stale_connections(&entries, 150),
        vec![ConnectionTuple::new(1, 2, 3, 4), ConnectionTuple::new(9, 9, 9, 9)]
    );
    assert_eq!(stale_connections(&entries, u64::MAX).len(), 3);
}

#[test]
fn devmap_for_containers() {
    let cs = vec![container(0xac11_0002, 9), container(0xac11_0003, 11)];
    assert_eq!(devmap_entries(&cs), vec![(0xac11_0002, 9), (0xac11_0003, 11)]);
}

#[test]
fn startup_exposures() {
    let cs = vec![container(0xac11_0002, 9), container(0xac11_0003, 11)];
    let mut alloc = PortAllocator::new(10000..=10005);
    let (plan, exhausted) = plan_startup_exposures(&mut alloc, &cs, 0xc0a8_0164, 2);
    assert!(!exhausted);
    assert_eq!(plan.len(), 2);
    assert_eq!(plan[0].host_port, 10000);
    assert_eq!(plan[1].host_port, 10001);
    assert_eq!(plan[1].container_info.container_ip, 0xac11_0003);
    assert_eq!(plan[1].container_info.container_port, IPERF_SERVER_PORT);
    assert_eq!(plan[1].container_info.ifindex, 11);
    assert_eq!(plan[1].host_info.host_ip, 0xc0a8_0164);
    assert_eq!(plan[1].host_info.host_ifindex, 2);
    assert_eq!(alloc.available(), 4);

    let mut small = PortAllocator::new(7..=7);
    let (plan, exhausted) = plan_startup_exposures(&mut small, &cs, 1, 2);
    assert!(exhausted);
    assert_eq!(plan.len(), 1);
    assert_eq!(plan[0].host_port, 7);
    assert_eq!(small.available(), 0);
}

#[test]
fn clock_readings() {
    assert_eq!(timespec_to_nanos(0, 0), 0);
    assert_eq!(timespec_to_nanos(3, 25), 3_000_000_025);
}

#[test]
fn interface_address_is_the_first_ipv4_one() {
    let addrs = vec![
        ("lo".to_string(), Some(0x7f00_0001)),
        ("eth0".to_string(), None),
        ("eth1".to_string(), Some(0x0a00_0001)),
        ("eth0".to_string(), Some(0xc0a8_0164)),
        ("eth0".to_string(), Some(0xc0a8_0165)),
    ];
    assert_eq!(interface_ipv4(&addrs, "eth0"), Some(0xc0a8_0164));
    assert_eq!(interface_ipv4(&addrs, "lo"), Some(0x7f00_0001));
    assert_eq!(interface_ipv4(&addrs, "eth2"), None);
    assert_eq!(interface_ipv4(&vec![("eth0".to_string(), None)], "eth0"), None);
}
