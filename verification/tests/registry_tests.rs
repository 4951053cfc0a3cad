use alopex::model::{
    ConnectionStatus, InterfaceConfig, InterfaceFact, InterfaceType, RawCounters,
};
use alopex::registry::{ConnectStep, FactError, NetworkManager, RegistryError};
use alopex::protocol::{handle_request, handle_line, finish_action, AdapterAction, DispatchStep,
    LineStep, Request, Response};

fn counters(bytes_tx: u64, bytes_rx: u64) -> RawCounters {
    RawCounters {
        bytes_tx,
        bytes_rx,
        packets_tx: 0,
        packets_rx: 0,
        errors_tx: 0,
        errors_rx: 0,
        dropped_tx: 0,
        dropped_rx: 0,
    }
}

fn fact(name: &str, family: &str, link: Option<bool>, c: RawCounters) -> InterfaceFact {
    InterfaceFact {
        name: name.to_string(),
        family: family.to_string(),
        link,
        counters: c,
        ip: None,
        gateway: None,
        dns: Vec::new(),
        link_speed: None,
        duplex: None,
        mtu: None,
    }
}

#[test]
fn unreported_name_not_present() {
    let reg = NetworkManager::new();
    assert!(reg.get_interface("eth0").is_none());
    assert!(reg.get_interface("wlan9").is_none());
}

#[test]
fn metrics_for_unreported_name_is_not_found() {
    let mut reg = NetworkManager::new();
    let step = handle_request(&mut reg, &Request::GetMetrics { name: "eth0".to_string() });
    match step {
        DispatchStep::Reply(Response::Error { message }) => {
            assert_eq!(message, "interface not found");
        }
        other => panic!("unexpected step: {:?}", other),
    }
}

#[test]
fn apply_fact_creates_entity() {
    let mut reg = NetworkManager::new();
    let r = reg.apply_fact(&fact("eth0", "Ethernet", Some(true), counters(10, 20)), 5_000);
    assert!(r.is_ok());
    let i = reg.get_interface("eth0").expect("eth0 should be present");
    assert_eq!(i.name, "eth0");
    assert_eq!(i.interface_type, InterfaceType::Ethernet);
    assert_eq!(i.status, ConnectionStatus::Connected);
    assert_eq!(i.metrics.bytes_tx, 10);
    assert_eq!(i.metrics.bytes_rx, 20);
    assert_eq!(i.metrics.uptime_ms, Some(0));
    assert_eq!(i.id, 1);
}

#[test]
fn apply_fact_unknown_family_rejected() {
    let mut reg = NetworkManager::new();
    let r = reg.apply_fact(&fact("x0", "Plan9", Some(true), counters(0, 0)), 0);
    assert_eq!(r, Err(FactError::UnknownFamily));
    assert!(reg.get_interface("x0").is_none());
}

#[test]
fn apply_fact_twice_is_idempotent() {
    let mut reg = NetworkManager::new();
    let f = fact("eth0", "Ethernet", Some(true), counters(1000, 2000));
    reg.apply_fact(&f, 7_000).unwrap();
    let first = reg.get_interfaces();
    reg.apply_fact(&f, 7_000).unwrap();
    let second = reg.get_interfaces();
    assert_eq!(first, second);
    // in particular the uptime baseline was not reset by the duplicate report
    assert_eq!(second[0].metrics.uptime_ms, Some(0));
    assert_eq!(second[0].metrics.total_session_tx, 0);
}

#[test]
fn duplicate_connected_report_keeps_session() {
    let mut reg = NetworkManager::new();
    reg.apply_fact(&fact("eth0", "Ethernet", Some(true), counters(1000, 0)), 1_000).unwrap();
    // same link state later: uptime advances from the original entry, no reset
    reg.apply_fact(&fact("eth0", "Ethernet", Some(true), counters(4000, 0)), 11_000).unwrap();
    let i = reg.get_interface("eth0").unwrap();
    assert_eq!(i.metrics.uptime_ms, Some(10_000));
    assert_eq!(i.metrics.total_session_tx, 3000);
}

#[test]
fn fact_never_regresses_connecting_on_its_own() {
    let mut reg = NetworkManager::new();
    reg.apply_fact(&fact("eth0", "Ethernet", Some(false), counters(0, 0)), 0).unwrap();
    assert_eq!(reg.request_connect("eth0"), Ok(ConnectStep::Dispatch));
    reg.complete_connect("eth0", Ok(())).unwrap();
    // a fact that does not speak about the link leaves Connecting alone
    reg.apply_fact(&fact("eth0", "Ethernet", None, counters(5, 5)), 50).unwrap();
    assert_eq!(reg.get_interface("eth0").unwrap().status, ConnectionStatus::Connecting);
    // an explicit link-down fact may move it down
    reg.apply_fact(&fact("eth0", "Ethernet", Some(false), counters(5, 5)), 60).unwrap();
    assert_eq!(reg.get_interface("eth0").unwrap().status, ConnectionStatus::Disconnected);
}

#[test]
fn second_connect_while_busy_is_rejected() {
    let mut reg = NetworkManager::new();
    reg.apply_fact(&fact("eth0", "Ethernet", Some(false), counters(0, 0)), 0).unwrap();
    let first = reg.request_connect("eth0");
    assert_eq!(first, Ok(ConnectStep::Dispatch));
    // exactly one adapter operation may be in flight for one name
    let second = reg.request_connect("eth0");
    assert_eq!(second, Err(RegistryError::Busy));
    // the interface still shows the first request's effect
    assert_eq!(reg.get_interface("eth0").unwrap().status, ConnectionStatus::Connecting);
}

#[test]
fn connect_on_unknown_name_is_not_found() {
    let mut reg = NetworkManager::new();
    assert_eq!(reg.request_connect("nope0"), Err(RegistryError::NotFound));
}

#[test]
fn connect_while_connected_is_a_no_op() {
    let mut reg = NetworkManager::new();
    reg.apply_fact(&fact("eth0", "Ethernet", Some(true), counters(0, 0)), 0).unwrap();
    assert_eq!(reg.request_connect("eth0"), Ok(ConnectStep::AlreadyConnected));
}

#[test]
fn adapter_failure_moves_interface_to_error() {
    let mut reg = NetworkManager::new();
    reg.apply_fact(&fact("eth0", "Ethernet", Some(false), counters(0, 0)), 0).unwrap();
    reg.request_connect("eth0").unwrap();
    reg.complete_connect("eth0", Err("cable unplugged".to_string())).unwrap();
    assert_eq!(
        reg.get_interface("eth0").unwrap().status,
        ConnectionStatus::Error("cable unplugged".to_string())
    );
    // the next successful fact application clears the error
    reg.apply_fact(&fact("eth0", "Ethernet", None, counters(0, 0)), 10).unwrap();
    assert_eq!(reg.get_interface("eth0").unwrap().status, ConnectionStatus::Disconnected);
}

#[test]
fn disconnect_flow_freezes_uptime() {
    let mut reg = NetworkManager::new();
    reg.apply_fact(&fact("eth0", "Ethernet", Some(true), counters(0, 0)), 0).unwrap();
    reg.apply_fact(&fact("eth0", "Ethernet", Some(true), counters(0, 0)), 4_000).unwrap();
    assert_eq!(reg.request_disconnect("eth0"), Ok(()));
    reg.complete_disconnect("eth0", Ok(())).unwrap();
    let i = reg.get_interface("eth0").unwrap();
    assert_eq!(i.status, ConnectionStatus::Disconnected);
    assert_eq!(i.metrics.uptime_ms, Some(4_000));
}

#[test]
fn disconnect_when_down_is_refused() {
    let mut reg = NetworkManager::new();
    reg.apply_fact(&fact("eth0", "Ethernet", Some(false), counters(0, 0)), 0).unwrap();
    let before = reg.get_interfaces();
    // a disconnect is valid only from a session: out of one it is an error
    assert_eq!(reg.request_disconnect("eth0"), Err(RegistryError::ProtocolError));
    assert_eq!(reg.get_interfaces(), before);
    // the same refusal reaches the wire as an Error response
    match handle_line(&mut reg, "DisconnectInterface|eth0") {
        LineStep::Reply { line, close } => {
            assert!(!close);
            assert_eq!(line, "Error|invalid request");
        }
        other => panic!("unexpected step: {:?}", other),
    }
}

#[test]
fn configure_with_wrong_family_is_rejected() {
    let mut reg = NetworkManager::new();
    reg.apply_fact(&fact("eth0", "Ethernet", Some(false), counters(0, 0)), 0).unwrap();
    let wifi_cfg = InterfaceConfig::WiFi {
        ssid: "net".to_string(),
        security: alopex::model::WiFiSecurity::Open,
        dhcp: true,
        ip: None,
    };
    assert_eq!(reg.request_configure("eth0", &wifi_cfg), Err(RegistryError::ProtocolError));
}

#[test]
fn configure_success_stores_config() {
    let mut reg = NetworkManager::new();
    reg.apply_fact(&fact("eth0", "Ethernet", Some(false), counters(0, 0)), 0).unwrap();
    let cfg = InterfaceConfig::Ethernet {
        dhcp: false,
        ip: Some("10.0.0.2".to_string()),
        gateway: Some("10.0.0.1".to_string()),
        dns: vec!["9.9.9.9".to_string()],
    };
    assert_eq!(reg.request_configure("eth0", &cfg), Ok(()));
    reg.complete_configure("eth0", &cfg, Ok(())).unwrap();
    assert_eq!(reg.get_interface("eth0").unwrap().config, cfg);
}

#[test]
fn family_change_recreates_entity() {
    let mut reg = NetworkManager::new();
    reg.apply_fact(&fact("x0", "Ethernet", Some(true), counters(9, 9)), 0).unwrap();
    let old_id = reg.get_interface("x0").unwrap().id;
    reg.apply_fact(&fact("x0", "VPN", Some(false), counters(0, 0)), 10).unwrap();
    let i = reg.get_interface("x0").unwrap();
    assert_eq!(i.interface_type, InterfaceType::VPN);
    assert_ne!(i.id, old_id);
    assert_eq!(i.status, ConnectionStatus::Disconnected);
}

#[test]
fn remove_interface_drops_entity() {
    let mut reg = NetworkManager::new();
    reg.apply_fact(&fact("eth0", "Ethernet", Some(true), counters(0, 0)), 0).unwrap();
    assert!(reg.remove_interface("eth0"));
    assert!(reg.get_interface("eth0").is_none());
    assert!(!reg.remove_interface("eth0"));
}

#[test]
fn end_to_end_list_scenario() {
    let mut reg = NetworkManager::new();
    // an empty registry answers the empty list
    match handle_request(&mut reg, &Request::GetInterfaces) {
        DispatchStep::Reply(Response::InterfaceList { interfaces }) => {
            assert!(interfaces.is_empty());
        }
        other => panic!("unexpected step: {:?}", other),
    }
    // after a fact makes eth0 connected, the list shows it with zero uptime
    reg.apply_fact(&fact("eth0", "Ethernet", Some(true), counters(0, 0)), 42_000).unwrap();
    match handle_request(&mut reg, &Request::GetInterfaces) {
        DispatchStep::Reply(Response::InterfaceList { interfaces }) => {
            assert_eq!(interfaces.len(), 1);
            assert_eq!(interfaces[0].name, "eth0");
            assert_eq!(interfaces[0].status, ConnectionStatus::Connected);
            assert_eq!(interfaces[0].metrics.uptime_ms, Some(0));
        }
        other => panic!("unexpected step: {:?}", other),
    }
}

#[test]
fn dispatched_connect_completes_through_finish_action() {
    let mut reg = NetworkManager::new();
    reg.apply_fact(&fact("eth0", "Ethernet", Some(false), counters(0, 0)), 0).unwrap();
    let action = match handle_request(
        &mut reg,
        &Request::ConnectInterface { name: "eth0".to_string() },
    ) {
        DispatchStep::Invoke(a) => a,
        other => panic!("unexpected step: {:?}", other),
    };
    assert_eq!(action, AdapterAction::Connect { name: "eth0".to_string() });
    let resp = finish_action(&mut reg, &action, Ok(()));
    assert_eq!(resp, Response::Success { message: "ok".to_string() });
    let resp2 = finish_action(&mut reg, &action, Ok(()));
    // no operation is in flight any more
    assert_eq!(resp2, Response::Error { message: "invalid request".to_string() });
}

#[test]
fn busy_answered_on_the_wire() {
    let mut reg = NetworkManager::new();
    reg.apply_fact(&fact("eth0", "Ethernet", Some(false), counters(0, 0)), 0).unwrap();
    match handle_line(&mut reg, "ConnectInterface|eth0") {
        LineStep::Invoke { .. } => {}
        other => panic!("unexpected step: {:?}", other),
    }
    match handle_line(&mut reg, "ConnectInterface|eth0") {
        LineStep::Reply { line, close } => {
            assert!(!close);
            assert_eq!(line, "Error|interface busy");
        }
        other => panic!("unexpected step: {:?}", other),
    }
}

#[test]
fn malformed_line_closes_connection() {
    let mut reg = NetworkManager::new();
    match handle_line(&mut reg, "garbage that is no request") {
        LineStep::Reply { line, close } => {
            assert!(close);
            assert_eq!(line, "Error|invalid request");
        }
        other => panic!("unexpected step: {:?}", other),
    }
}
