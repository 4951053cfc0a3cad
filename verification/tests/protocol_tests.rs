use alopex::client::AlopexClient;
use alopex::codec::{encode_request_line, encode_response_line, parse_request_line,
    parse_response_line};
use alopex::model::{
    ConnectionStatus, InterfaceConfig, InterfaceType, NetworkInterface, NetworkMetrics,
    WiFiSecurity,
};
use alopex::protocol::{Request, Response};

fn sample_metrics() -> NetworkMetrics {
    NetworkMetrics {
        bytes_tx: 123456789,
        bytes_rx: 987654321,
        packets_tx: 1111,
        packets_rx: 2222,
        errors_tx: 3,
        errors_rx: 4,
        dropped_tx: 5,
        dropped_rx: 6,
        speed_up: 1024,
        speed_down: 2048,
        packets_per_sec_tx: 10,
        packets_per_sec_rx: 20,
        link_speed: Some(1000),
        duplex: Some("full".to_string()),
        mtu: Some(1500),
        uptime_ms: Some(360_000),
        total_session_tx: 777,
        total_session_rx: 888,
    }
}

fn sample_interfaces() -> Vec<NetworkInterface> {
    vec![
        NetworkInterface {
            id: 1,
            name: "eth0".to_string(),
            interface_type: InterfaceType::Ethernet,
            status: ConnectionStatus::Connected,
            config: InterfaceConfig::Ethernet {
                dhcp: true,
                ip: Some("192.168.1.100".to_string()),
                gateway: Some("192.168.1.1".to_string()),
                dns: vec!["1.1.1.1".to_string(), "8.8.8.8".to_string()],
            },
            metrics: sample_metrics(),
        },
        NetworkInterface {
            id: 2,
            name: "wlan0".to_string(),
            interface_type: InterfaceType::WiFi,
            status: ConnectionStatus::Error("auth timeout".to_string()),
            config: InterfaceConfig::WiFi {
                ssid: "home net".to_string(),
                security: WiFiSecurity::WPA2("hunter2".to_string()),
                dhcp: false,
                ip: None,
            },
            metrics: sample_metrics(),
        },
        NetworkInterface {
            id: 3,
            name: "wg0".to_string(),
            interface_type: InterfaceType::VPN,
            status: ConnectionStatus::Connecting,
            config: InterfaceConfig::VPN {
                provider: "wireguard".to_string(),
                config_path: "/etc/wg0.conf".to_string(),
                auto_connect: true,
            },
            metrics: sample_metrics(),
        },
    ]
}

#[test]
fn every_request_survives_the_wire() {
    let requests = vec![
        Request::GetInterfaces,
        Request::ConnectInterface { name: "eth0".to_string() },
        Request::DisconnectInterface { name: "wlan0".to_string() },
        Request::ConfigureInterface {
            name: "eth0".to_string(),
            config: InterfaceConfig::Ethernet {
                dhcp: false,
                ip: Some("10.0.0.2".to_string()),
                gateway: None,
                dns: vec!["9.9.9.9".to_string()],
            },
        },
        Request::GetMetrics { name: "wg0".to_string() },
    ];
    for req in requests {
        let line = encode_request_line(&req);
        assert!(!line.contains('\n'));
        let back = parse_request_line(&line).expect("round trip should parse");
        assert_eq!(back, req);
    }
}

#[test]
fn every_response_survives_the_wire() {
    let responses = vec![
        Response::InterfaceList { interfaces: sample_interfaces() },
        Response::InterfaceList { interfaces: Vec::new() },
        Response::Success { message: "ok".to_string() },
        Response::Error { message: "interface busy".to_string() },
        Response::Metrics { metrics: sample_metrics() },
    ];
    for resp in responses {
        let line = encode_response_line(&resp);
        assert!(!line.contains('\n'));
        let back = parse_response_line(&line).expect("round trip should parse");
        assert_eq!(back, resp);
    }
}

#[test]
fn awkward_strings_are_escaped_on_the_wire() {
    let req = Request::ConnectInterface { name: "odd|name%with\nbreaks".to_string() };
    let line = encode_request_line(&req);
    assert!(!line.contains('\n'));
    assert_eq!(parse_request_line(&line), Some(req));
}

#[test]
fn simple_requests_have_a_readable_shape() {
    assert_eq!(encode_request_line(&Request::GetInterfaces), "GetInterfaces");
    assert_eq!(
        encode_request_line(&Request::ConnectInterface { name: "eth0".to_string() }),
        "ConnectInterface|eth0"
    );
    assert_eq!(
        encode_response_line(&Response::Success { message: "ok".to_string() }),
        "Success|ok"
    );
}

#[test]
fn unknown_trailing_fields_are_ignored() {
    let parsed = parse_request_line("GetMetrics|eth0|future-field|another");
    assert_eq!(parsed, Some(Request::GetMetrics { name: "eth0".to_string() }));
}

#[test]
fn garbage_lines_do_not_parse() {
    assert_eq!(parse_request_line(""), None);
    assert_eq!(parse_request_line("NoSuchTag|x"), None);
    assert_eq!(parse_request_line("ConnectInterface"), None);
    assert_eq!(parse_response_line("InterfaceList|notanumber"), None);
    assert_eq!(parse_response_line("InterfaceList|3"), None);
}

#[test]
fn client_mock_answers_the_fixed_picture() {
    let client = AlopexClient::new("/run/alopex/alopex.sock".to_string());
    assert_eq!(client.socket_path(), "/run/alopex/alopex.sock");
    match client.send_request(&Request::GetInterfaces) {
        Response::InterfaceList { interfaces } => {
            assert_eq!(interfaces.len(), 2);
            assert_eq!(interfaces[0].name, "eth0");
            assert_eq!(interfaces[0].status, ConnectionStatus::Connected);
            assert_eq!(interfaces[0].metrics.link_speed, Some(1000));
            assert_eq!(interfaces[1].name, "wlan0");
            assert_eq!(interfaces[1].status, ConnectionStatus::Disconnected);
        }
        other => panic!("unexpected response: {:?}", other),
    }
    match client.send_request(&Request::ConnectInterface { name: "eth0".to_string() }) {
        Response::Success { message } => assert_eq!(message, "Mock response"),
        other => panic!("unexpected response: {:?}", other),
    }
}

#[test]
fn client_mock_pairs_telemetry_requests_with_telemetry() {
    let client = AlopexClient::new("/run/alopex/alopex.sock".to_string());
    match client.send_request(&Request::GetMetrics { name: "eth0".to_string() }) {
        Response::Metrics { metrics } => {
            assert_eq!(metrics.link_speed, Some(1000));
            assert_eq!(metrics.bytes_tx, 0);
        }
        other => panic!("unexpected response: {:?}", other),
    }
    match client.send_request(&Request::GetMetrics { name: "wlan0".to_string() }) {
        Response::Metrics { metrics } => assert_eq!(metrics.link_speed, None),
        other => panic!("unexpected response: {:?}", other),
    }
    match client.send_request(&Request::GetMetrics { name: "nope0".to_string() }) {
        Response::Error { message } => assert_eq!(message, "interface not found"),
        other => panic!("unexpected response: {:?}", other),
    }
}

#[test]
fn records_carry_their_field_count() {
    let resp = Response::InterfaceList { interfaces: vec![sample_interfaces().remove(0)] };
    let line = encode_response_line(&resp);
    let toks: Vec<&str> = line.split('|').collect();
    // tag, list length, then the record: its field count and that many fields
    let count: usize = toks[2].parse().expect("a field count");
    assert_eq!(count, toks.len() - 3);
}

#[test]
fn unknown_record_fields_are_ignored() {
    let resp = Response::InterfaceList { interfaces: vec![sample_interfaces().remove(0)] };
    let line = encode_response_line(&resp);
    let mut toks: Vec<String> = line.split('|').map(|t| t.to_string()).collect();
    // a future writer appends a field to the record and bumps its count
    let count: u64 = toks[2].parse().expect("a field count");
    toks[2] = (count + 1).to_string();
    toks.push("future-field".to_string());
    let widened = toks.join("|");
    assert_eq!(parse_response_line(&widened), Some(resp));
}

#[test]
fn a_short_record_count_does_not_parse() {
    let resp = Response::InterfaceList { interfaces: vec![sample_interfaces().remove(0)] };
    let line = encode_response_line(&resp);
    let mut toks: Vec<String> = line.split('|').map(|t| t.to_string()).collect();
    // a count smaller than the fields actually present misframes the record
    let count: u64 = toks[2].parse().expect("a field count");
    toks[2] = (count - 1).to_string();
    let narrowed = toks.join("|");
    assert_eq!(parse_response_line(&narrowed), None);
}
