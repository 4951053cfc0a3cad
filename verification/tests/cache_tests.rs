use alopex::cache::{App, FocusedPanel, HISTORY_CAPACITY};
use alopex::protocol::Request;
use alopex::model::{
    ConnectionStatus, InterfaceConfig, InterfaceType, NetworkInterface, NetworkMetrics,
};

fn iface(name: &str, family: InterfaceType, status: ConnectionStatus) -> NetworkInterface {
    NetworkInterface {
        id: 0,
        name: name.to_string(),
        interface_type: family,
        status,
        config: InterfaceConfig::Ethernet { dhcp: true, ip: None, gateway: None, dns: Vec::new() },
        metrics: NetworkMetrics {
            bytes_tx: 0,
            bytes_rx: 0,
            packets_tx: 0,
            packets_rx: 0,
            errors_tx: 0,
            errors_rx: 0,
            dropped_tx: 0,
            dropped_rx: 0,
            speed_up: 0,
            speed_down: 0,
            packets_per_sec_tx: 0,
            packets_per_sec_rx: 0,
            link_speed: None,
            duplex: None,
            mtu: None,
            uptime_ms: None,
            total_session_tx: 0,
            total_session_rx: 0,
        },
    }
}

#[test]
fn refresh_sorts_by_family_then_name() {
    let mut app = App::new();
    let fresh = vec![
        iface("wlan0", InterfaceType::WiFi, ConnectionStatus::Disconnected),
        iface("eth1", InterfaceType::Ethernet, ConnectionStatus::Disconnected),
        iface("eth0", InterfaceType::Ethernet, ConnectionStatus::Disconnected),
        iface("tun0", InterfaceType::VPN, ConnectionStatus::Disconnected),
    ];
    app.refresh_data(fresh, 0);
    let names: Vec<&str> = app.interfaces.iter().map(|i| i.name.as_str()).collect();
    assert_eq!(names, vec!["eth0", "eth1", "wlan0", "tun0"]);
}

#[test]
fn refresh_transplants_tracked_uptime() {
    let mut app = App::new();
    let mut old = iface("eth0", InterfaceType::Ethernet, ConnectionStatus::Connected);
    old.metrics.uptime_ms = Some(5000);
    app.refresh_data(vec![old], 0);
    assert_eq!(app.interfaces[0].metrics.uptime_ms, Some(5000));
    // the freshly fetched copy has no uptime; the cached value carries over
    let fresh = iface("eth0", InterfaceType::Ethernet, ConnectionStatus::Connected);
    assert_eq!(fresh.metrics.uptime_ms, None);
    app.refresh_data(vec![fresh], 100);
    assert_eq!(app.interfaces[0].metrics.uptime_ms, Some(5000));
}

#[test]
fn refresh_tracks_telemetry_activity() {
    let mut app = App::new();
    app.refresh_data(vec![iface("eth0", InterfaceType::Ethernet, ConnectionStatus::Connected)], 7);
    assert!(app.telemetry_active);
    assert_eq!(app.connection_time_ms, Some(7));
    // the clock is kept while a connection stays up
    app.refresh_data(
        vec![iface("eth0", InterfaceType::Ethernet, ConnectionStatus::Connected)],
        99,
    );
    assert_eq!(app.connection_time_ms, Some(7));
    // and dropped once nothing is connected
    app.refresh_data(
        vec![iface("eth0", InterfaceType::Ethernet, ConnectionStatus::Disconnected)],
        120,
    );
    assert!(!app.telemetry_active);
    assert_eq!(app.connection_time_ms, None);
}

#[test]
fn refresh_clamps_selection() {
    let mut app = App::new();
    app.selected_interface = 5;
    app.refresh_data(vec![iface("eth0", InterfaceType::Ethernet, ConnectionStatus::Disconnected)], 0);
    assert_eq!(app.selected_interface, 0);
}

#[test]
fn history_is_bounded_to_capacity() {
    let mut app = App::new();
    app.refresh_data(vec![iface("eth0", InterfaceType::Ethernet, ConnectionStatus::Connected)], 0);
    assert!(app.telemetry_active);
    let mut total: u64 = 0;
    for tick in 1..=60u64 {
        total += tick * 1000;
        let mut fresh = iface("eth0", InterfaceType::Ethernet, ConnectionStatus::Connected);
        fresh.metrics.bytes_tx = total;
        app.update_metrics(vec![fresh], tick * 1000);
    }
    assert_eq!(app.traffic_history.len(), HISTORY_CAPACITY);
    // the most recent samples, in arrival order: ticks 11 through 60
    assert_eq!(app.traffic_history[0], (11_000, 0));
    assert_eq!(app.traffic_history[49], (60_000, 0));
}

#[test]
fn update_metrics_advances_selected_uptime() {
    let mut app = App::new();
    app.refresh_data(vec![iface("eth0", InterfaceType::Ethernet, ConnectionStatus::Connected)], 0);
    assert_eq!(app.connection_time_ms, Some(0));
    app.update_metrics(
        vec![iface("eth0", InterfaceType::Ethernet, ConnectionStatus::Connected)],
        2_500,
    );
    assert_eq!(app.interfaces[0].metrics.uptime_ms, Some(2_500));
}

#[test]
fn update_metrics_does_not_add_interfaces() {
    let mut app = App::new();
    app.refresh_data(vec![iface("eth0", InterfaceType::Ethernet, ConnectionStatus::Connected)], 0);
    app.update_metrics(
        vec![
            iface("eth0", InterfaceType::Ethernet, ConnectionStatus::Connected),
            iface("wlan0", InterfaceType::WiFi, ConnectionStatus::Connected),
        ],
        1000,
    );
    assert_eq!(app.interfaces.len(), 1);
    assert_eq!(app.interfaces[0].name, "eth0");
}

#[test]
fn selection_wraps_both_ways() {
    let mut app = App::new();
    app.refresh_data(
        vec![
            iface("eth0", InterfaceType::Ethernet, ConnectionStatus::Disconnected),
            iface("eth1", InterfaceType::Ethernet, ConnectionStatus::Disconnected),
            iface("eth2", InterfaceType::Ethernet, ConnectionStatus::Disconnected),
        ],
        0,
    );
    assert_eq!(app.selected_interface, 0);
    app.previous_interface();
    assert_eq!(app.selected_interface, 2);
    app.next_interface();
    assert_eq!(app.selected_interface, 0);
    app.next_interface();
    assert_eq!(app.selected_interface, 1);
}

#[test]
fn navigation_on_empty_list_stays_put() {
    let mut app = App::new();
    app.next_interface();
    app.previous_interface();
    assert_eq!(app.selected_interface, 0);
    assert!(app.get_selected_interface().is_none());
}

#[test]
fn panels_cycle_in_order() {
    let mut app = App::new();
    assert_eq!(app.focused_panel, FocusedPanel::Interfaces);
    app.next_panel();
    assert_eq!(app.focused_panel, FocusedPanel::Management);
    app.next_panel();
    assert_eq!(app.focused_panel, FocusedPanel::Telemetry);
    app.next_panel();
    assert_eq!(app.focused_panel, FocusedPanel::Interfaces);
}

#[test]
fn toggle_request_follows_selection_state() {
    let mut app = App::new();
    assert_eq!(app.toggle_connection_request(), None);
    app.refresh_data(
        vec![
            iface("eth0", InterfaceType::Ethernet, ConnectionStatus::Connected),
            iface("eth1", InterfaceType::Ethernet, ConnectionStatus::Connecting),
            iface("wlan0", InterfaceType::WiFi, ConnectionStatus::Disconnected),
        ],
        0,
    );
    assert_eq!(
        app.toggle_connection_request(),
        Some(Request::DisconnectInterface { name: "eth0".to_string() })
    );
    app.next_interface();
    assert_eq!(
        app.toggle_connection_request(),
        Some(Request::DisconnectInterface { name: "eth1".to_string() })
    );
    app.next_interface();
    assert_eq!(
        app.toggle_connection_request(),
        Some(Request::ConnectInterface { name: "wlan0".to_string() })
    );
}

#[test]
fn selected_interface_is_returned() {
    let mut app = App::new();
    app.refresh_data(
        vec![
            iface("eth0", InterfaceType::Ethernet, ConnectionStatus::Disconnected),
            iface("wlan0", InterfaceType::WiFi, ConnectionStatus::Disconnected),
        ],
        0,
    );
    app.next_interface();
    assert_eq!(app.get_selected_interface().unwrap().name, "wlan0");
}
