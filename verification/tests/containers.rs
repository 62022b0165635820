use traff_off_func::containers::{
    container_metadata, describe_container, parse_mac_address, ContainerError, MacParseError,
};
use traff_off_func::text::IntErrorKind;

fn interfaces() -> Vec<(u32, String)> {
    vec![(1, "lo".to_string()), (2, "eth0".to_string()), (17, "veth9a8b".to_string())]
}

#[test]
fn describes_a_container() {
    let meta = container_metadata(
        Some("web".to_string()),
        Some("02:42:ac:11:00:02"),
        Some("172.17.0.2/16"),
        "17\n",
        &interfaces(),
        Some(1234),
    )
    .expect("complete description");
    assert_eq!(meta.name, "web");
    assert_eq!(meta.veth, "veth9a8b");
    assert_eq!(meta.ipv4_address, 0xac11_0002);
    assert_eq!(meta.ifindex, 17);
    assert_eq!(meta.pid, Some(1234));
    assert_eq!(meta.mac_address, [0x02, 0x42, 0xac, 0x11, 0x00, 0x02]);
}

#[test]
fn missing_name_is_empty_and_address_without_prefix_is_accepted() {
    let meta = container_metadata(None, Some("02-42-ac-11-00-03"), Some("10.1.2.3"), "2", &interfaces(), None).unwrap();
    assert_eq!(meta.name, "");
    assert_eq!(meta.veth, "eth0");
    assert_eq!(meta.ipv4_address, 0x0a01_0203);
}

#[test]
fn description_errors() {
    let ifs = interfaces();
    assert_eq!(
        container_metadata(None, Some("02:42:ac:11:00:02"), Some("10.0.0.1/8"), "abc", &ifs, None).unwrap_err(),
        ContainerError::InvalidIflink(IntErrorKind::InvalidDigit)
    );
    assert_eq!(
        container_metadata(None, Some("02:42:ac:11:00:02"), Some("10.0.0.1/8"), "  ", &ifs, None).unwrap_err(),
        ContainerError::InvalidIflink(IntErrorKind::Empty)
    );
    assert_eq!(
        container_metadata(None, Some("02:42:ac:11:00:02"), Some("10.0.0.1/8"), "99", &ifs, None).unwrap_err(),
        ContainerError::InterfaceNotFound
    );
    assert_eq!(
        container_metadata(None, None, Some("10.0.0.1/8"), "1", &ifs, None).unwrap_err(),
        ContainerError::InvalidMac(MacParseError::InvalidLength(0))
    );
    assert_eq!(
        container_metadata(None, Some("02:42:ac:11:00:02"), None, "1", &ifs, None).unwrap_err(),
        ContainerError::MissingIpv4
    );
    assert_eq!(
        container_metadata(None, Some("02:42:ac:11:00:02"), Some("10.0.0/8"), "1", &ifs, None).unwrap_err(),
        ContainerError::InvalidIpv4
    );
}

#[test]
fn mac_addresses() {
    assert_eq!(parse_mac_address("AA:bb:01:02:03:04"), Ok([0xaa, 0xbb, 1, 2, 3, 4]));
    assert_eq!(parse_mac_address("aabb.0102.0304"), Ok([0xaa, 0xbb, 1, 2, 3, 4]));
    assert_eq!(parse_mac_address("aa:bb:cc:dd:ee"), Err(MacParseError::InvalidLength(14)));
    assert_eq!(parse_mac_address("zz:bb:cc:dd:ee:ff"), Err(MacParseError::InvalidCharacter('z', 1)));
}

#[test]
fn describes_from_a_parsed_mac() {
    let mac = [0x02, 0x42, 0xac, 0x11, 0x00, 0x09];
    let meta = describe_container(Some("db".to_string()), Ok(mac), Some("172.17.0.9/16"), "2", &interfaces(), None).unwrap();
    assert_eq!(meta.mac_address, mac);
    assert_eq!(meta.veth, "eth0");
    assert_eq!(meta.ipv4_address, 0xac11_0009);
    // The interface index is checked before the MAC.
    assert_eq!(
        describe_container(None, Err(MacParseError::InvalidLength(3)), Some("1.2.3.4"), "99", &interfaces(), None).unwrap_err(),
        ContainerError::InterfaceNotFound
    );
    assert_eq!(
        describe_container(None, Err(MacParseError::InvalidLength(3)), Some("1.2.3.4"), "2", &interfaces(), None).unwrap_err(),
        ContainerError::InvalidMac(MacParseError::InvalidLength(3))
    );
}
