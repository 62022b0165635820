use std::collections::HashMap;
use traff_off_func::api::{
    abort_expose, error_response, expose_message, expose_port, finish_unexpose, unexpose_port,
    AppError, AppState, ExposeRequest, ExposeStage, IptablesRule, MapRemoval, RuleAction,
};
use traff_off_func::common::ContainerInfo;
use traff_off_func::containers::ContainerMetadata;
use traff_off_func::port_allocator::PortAllocator;

const CONTAINER_IP: u32 = 0xac11_0002;
const NIC_IP: u32 = 0xc0a8_0164;

fn state(ports: std::ops::RangeInclusive<u16>) -> AppState {
    let mut metas = HashMap::new();
    metas.insert(
        CONTAINER_IP,
        ContainerMetadata {
            name: "web".to_string(),
            veth: "veth1234".to_string(),
            ipv4_address: CONTAINER_IP,
            ifindex: 9,
            pid: Some(4242),
            mac_address: [2, 0x42, 0xac, 0x11, 0, 2],
        },
    );
    AppState::new(PortAllocator::new(ports), metas, NIC_IP, 2)
}

fn message(e: &AppError) -> String {
    match e {
        AppError::NotFound(m) | AppError::Conflict(m) | AppError::Capacity(m) | AppError::Internal(m) => m.clone(),
    }
}

#[test]
fn expose_grants_the_next_port() {
    let mut s = state(10000..=10001);
    let req = ExposeRequest { container_ip: CONTAINER_IP, container_port: 8080 };
    let e = expose_port(&mut s, &req, false).expect("granted");
    assert_eq!(e.host_port, 10000);
    assert_eq!(e.container_info.container_ip, CONTAINER_IP);
    assert_eq!(e.container_info.container_port, 8080);
    assert_eq!(e.container_info.container_mac, [2, 0x42, 0xac, 0x11, 0, 2]);
    assert_eq!(e.container_info.ifindex, 9);
    assert_eq!(e.host_info.host_ip, NIC_IP);
    assert_eq!(e.host_info.host_port, 10000);
    assert_eq!(e.host_info.host_ifindex, 2);
    assert_eq!(s.port_allocator.available(), 1);
    assert_eq!(expose_message(&req, &e), "exposing container port 8080 on host port 10000");
    let rule = e.rule();
    assert_eq!(rule.action, RuleAction::Append);
    assert_eq!(
        rule.args(),
        vec![
            "-t", "nat", "-A", "PREROUTING", "-p", "tcp", "--dport", "10000", "-j", "DNAT",
            "--to-destination", "172.17.0.2:8080"
        ]
    );
    assert_eq!(rule.failure_message(), "failed to add iptables TCP rule for port 10000");
}

#[test]
fn expose_unknown_container() {
    let mut s = state(10000..=10001);
    let req = ExposeRequest { container_ip: 0x0a00_0005, container_port: 80 };
    let err = expose_port(&mut s, &req, false).unwrap_err();
    assert!(matches!(err, AppError::NotFound(_)));
    assert_eq!(message(&err), "Container with IP 10.0.0.5 doesn't exist");
    assert_eq!(s.port_allocator.available(), 2);
    assert_eq!(error_response(&err), (404, "Container with IP 10.0.0.5 doesn't exist".to_string()));
}

#[test]
fn expose_without_free_ports() {
    let mut s = state(1..=0);
    let req = ExposeRequest { container_ip: CONTAINER_IP, container_port: 80 };
    let err = expose_port(&mut s, &req, false).unwrap_err();
    assert!(matches!(err, AppError::Capacity(_)));
    assert_eq!(message(&err), "No available host ports left");
    assert_eq!(error_response(&err).0, 503);
}

#[test]
fn expose_conflict_returns_the_port_last() {
    let mut s = state(10000..=10001);
    let req = ExposeRequest { container_ip: CONTAINER_IP, container_port: 80 };
    let err = expose_port(&mut s, &req, true).unwrap_err();
    assert!(matches!(err, AppError::Conflict(_)));
    assert_eq!(message(&err), "Container port is already exposed");
    assert_eq!(error_response(&err).0, 409);
    assert_eq!(s.port_allocator.allocate_next(), Some(10001));
    assert_eq!(s.port_allocator.allocate_next(), Some(10000));
}

#[test]
fn failed_exposure_steps_are_undone() {
    let mut s = state(10000..=10001);
    let req = ExposeRequest { container_ip: CONTAINER_IP, container_port: 80 };
    let e = expose_port(&mut s, &req, false).unwrap();
    let (err, undo) = abort_expose(&mut s, &e, ExposeStage::RevExposeInsert, "File exists");
    assert_eq!(message(&err), "Failed to insert into rev_expose_map: File exists");
    assert!(undo.is_empty());
    assert_eq!(s.port_allocator.available(), 2);
    assert_eq!(error_response(&err), (500, "An internal server error occurred".to_string()));

    let e = expose_port(&mut s, &req, false).unwrap();
    assert_eq!(e.host_port, 10001);
    let (err, undo) = abort_expose(&mut s, &e, ExposeStage::ExposeInsert, "no space");
    assert_eq!(message(&err), "Failed to insert host port 10001 into expose_map: no space");
    assert_eq!(undo, vec![MapRemoval::RevExpose(80)]);

    let e = expose_port(&mut s, &req, false).unwrap();
    assert_eq!(e.host_port, 10000);
    let (err, undo) = abort_expose(&mut s, &e, ExposeStage::IptablesRule, "exit status 1");
    assert_eq!(message(&err), "Failed to expose tcp port 10000 via iptables: exit status 1");
    assert_eq!(undo, vec![MapRemoval::RevExpose(80), MapRemoval::Expose(10000)]);
    assert_eq!(s.port_allocator.available(), 2);
}

#[test]
fn unexpose_unknown_port() {
    let err = unexpose_port(10007, None).unwrap_err();
    assert!(matches!(err, AppError::NotFound(_)));
    assert_eq!(message(&err), "Host port 10007 is not currently exposed");
}

#[test]
fn unexpose_releases_the_port() {
    let mut s = state(10000..=10001);
    let req = ExposeRequest { container_ip: CONTAINER_IP, container_port: 80 };
    let e = expose_port(&mut s, &req, false).unwrap();
    let info = ContainerInfo { container_ip: CONTAINER_IP, container_mac: [0; 6], container_port: 80, ifindex: 9 };
    let rule = unexpose_port(e.host_port, Some(info)).unwrap();
    assert_eq!(
        rule,
        IptablesRule { action: RuleAction::Delete, host_port: 10000, container_ip: CONTAINER_IP, container_port: 80 }
    );
    assert_eq!(rule.args()[2], "-D");
    assert_eq!(rule.failure_message(), "failed to remove iptables TCP rule for port 10000");

    let err = finish_unexpose(&mut s, &rule, Err("exit status 1")).unwrap_err();
    assert_eq!(message(&err), "Failed to remove iptables rule: exit status 1");
    assert_eq!(s.port_allocator.available(), 1);

    let (removals, msg) = finish_unexpose(&mut s, &rule, Ok(())).unwrap();
    assert_eq!(removals, vec![MapRemoval::Expose(10000), MapRemoval::RevExpose(80)]);
    assert_eq!(msg, "Unexposed host port 10000");
    assert_eq!(s.port_allocator.available(), 2);
    assert_eq!(s.port_allocator.allocate_next(), Some(10001));
    assert_eq!(s.port_allocator.allocate_next(), Some(10000));
}

#[test]
fn error_responses() {
    assert_eq!(error_response(&AppError::Conflict("c".to_string())), (409, "c".to_string()));
    assert_eq!(error_response(&AppError::Capacity("x".to_string())), (503, "x".to_string()));
    assert_eq!(error_response(&AppError::NotFound("n".to_string())), (404, "n".to_string()));
    assert_eq!(
        error_response(&AppError::Internal("secret detail".to_string())),
        (500, "An internal server error occurred".to_string())
    );
}

#[test]
fn expose_then_unexpose_restores_the_maps() {
    let mut s = state(10000..=10002);
    let mut expose: HashMap<u16, ContainerInfo> = HashMap::new();
    let mut rev: HashMap<u16, traff_off_func::common::HostInfo> = HashMap::new();
    let req = ExposeRequest { container_ip: CONTAINER_IP, container_port: 5201 };
    let e = expose_port(&mut s, &req, rev.contains_key(&req.container_port)).unwrap();
    rev.insert(e.container_info.container_port, e.host_info);
    expose.insert(e.host_port, e.container_info);
    let appended = e.rule();

    let rule = unexpose_port(e.host_port, expose.get(&e.host_port).copied()).unwrap();
    assert_eq!(rule, IptablesRule { action: RuleAction::Delete, ..appended });
    let (removals, _) = finish_unexpose(&mut s, &rule, Ok(())).unwrap();
    for r in removals {
        match r {
            MapRemoval::Expose(p) => {
                expose.remove(&p);
            }
            MapRemoval::RevExpose(p) => {
                rev.remove(&p);
            }
        }
    }
    assert!(expose.is_empty() && rev.is_empty());
    let mut order = vec![];
    while let Some(p) = s.port_allocator.allocate_next() {
        order.push(p);
    }
    assert_eq!(order, vec![10001, 10002, 10000]);
}
