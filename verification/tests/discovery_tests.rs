use alopex::adapters::{BluetoothManager, VpnManager, WiFiManager};
use alopex::config::DaemonConfig;
use alopex::discovery::NetworkDiscovery;
use alopex::model::{ConnectionStatus, InterfaceConfig, InterfaceType};

#[test]
fn interface_type_follows_name_prefix() {
    assert_eq!(NetworkDiscovery::detect_interface_type("eth0"), "Ethernet");
    assert_eq!(NetworkDiscovery::detect_interface_type("enp3s0"), "Ethernet");
    assert_eq!(NetworkDiscovery::detect_interface_type("wlan0"), "WiFi");
    assert_eq!(NetworkDiscovery::detect_interface_type("wlp2s0"), "WiFi");
    assert_eq!(NetworkDiscovery::detect_interface_type("tun0"), "VPN");
    assert_eq!(NetworkDiscovery::detect_interface_type("wg0"), "VPN");
    assert_eq!(NetworkDiscovery::detect_interface_type("lo"), "Unknown");
    assert_eq!(NetworkDiscovery::detect_interface_type("docker0"), "Unknown");
}

#[test]
fn operstate_text_maps_to_status_names() {
    assert_eq!(NetworkDiscovery::status_from_operstate("up\n"), "Connected");
    assert_eq!(NetworkDiscovery::status_from_operstate("down"), "Disconnected");
    assert_eq!(NetworkDiscovery::status_from_operstate(" dormant \n"), "Connecting");
    assert_eq!(NetworkDiscovery::status_from_operstate("testing"), "Unknown");
    assert_eq!(NetworkDiscovery::status_from_operstate(""), "Unknown");
}

#[test]
fn resolver_configuration_lists_name_servers() {
    let content = "# local stub\nnameserver 192.168.1.1\nsearch lan\nnameserver 1.1.1.1\n";
    let dns = NetworkDiscovery::parse_resolv_conf(content);
    assert_eq!(dns, vec!["192.168.1.1".to_string(), "1.1.1.1".to_string()]);
}

#[test]
fn unreadable_resolver_configuration_falls_back() {
    assert_eq!(NetworkDiscovery::dns_servers(None), vec!["8.8.8.8".to_string()]);
}

#[test]
fn sysfs_numbers_parse_when_sane() {
    assert_eq!(NetworkDiscovery::parse_sysfs_u32("1000\n"), Some(1000));
    assert_eq!(NetworkDiscovery::parse_sysfs_u32(" 1500 "), Some(1500));
    assert_eq!(NetworkDiscovery::parse_sysfs_u32("unknown\n"), None);
    assert_eq!(NetworkDiscovery::parse_sysfs_u32(""), None);
    assert_eq!(NetworkDiscovery::parse_sysfs_u32("99999999999\n"), None);
}

#[test]
fn duplex_text_parses_unless_unknown() {
    assert_eq!(NetworkDiscovery::parse_duplex("full\n"), Some("full".to_string()));
    assert_eq!(NetworkDiscovery::parse_duplex("half"), Some("half".to_string()));
    assert_eq!(NetworkDiscovery::parse_duplex("unknown\n"), None);
    assert_eq!(NetworkDiscovery::parse_duplex("  \n"), None);
}

#[test]
fn statistics_listing_yields_counters() {
    let content = "Inter-|   Receive                                                |  Transmit\n face |bytes    packets errs drop fifo frame compressed multicast|bytes    packets errs drop fifo colls carrier compressed\n  eth0: 1234567    9876    1    2    0     0          0         0  7654321    6789    3    4    0     0       0          0\n    lo:  555      55    0    0    0     0          0         0   555      55    0    0    0     0       0          0\n";
    let c = NetworkDiscovery::parse_proc_net_dev(content, "eth0").expect("eth0 line should parse");
    assert_eq!(c.bytes_rx, 1234567);
    assert_eq!(c.packets_rx, 9876);
    assert_eq!(c.errors_rx, 1);
    assert_eq!(c.dropped_rx, 2);
    assert_eq!(c.bytes_tx, 7654321);
    assert_eq!(c.packets_tx, 6789);
    assert_eq!(c.errors_tx, 3);
    assert_eq!(c.dropped_tx, 4);
    assert!(NetworkDiscovery::parse_proc_net_dev(content, "eth9").is_none());
}

#[test]
fn interface_record_assembles_from_sources() {
    let stats = "h1\nh2\n  eth0: 100 1 0 0 0 0 0 0 200 2 0 0 0 0 0 0\n";
    let ip_show = "2: eth0: <BROADCAST,MULTICAST,UP>\n    inet 192.168.1.50/24 brd 192.168.1.255 scope global eth0\n";
    let route_show = "default via 192.168.1.1 dev eth0 proto dhcp\n";
    let resolv = "nameserver 192.168.1.1\n";
    let i = NetworkDiscovery::interface_from_sources(
        "eth0",
        Some("up\n"),
        Some(ip_show),
        Some(route_show),
        Some(resolv),
        Some(stats),
        Some("1000\n"),
        Some("full\n"),
        Some("1500\n"),
    );
    assert_eq!(i.name, "eth0");
    assert_eq!(i.interface_type, InterfaceType::Ethernet);
    assert_eq!(i.status, ConnectionStatus::Connected);
    match &i.config {
        InterfaceConfig::Ethernet { dhcp, ip, gateway, dns } => {
            assert!(dhcp);
            assert_eq!(ip.as_deref(), Some("192.168.1.50"));
            assert_eq!(gateway.as_deref(), Some("192.168.1.1"));
            assert_eq!(dns, &vec!["192.168.1.1".to_string()]);
        }
        other => panic!("unexpected config: {:?}", other),
    }
    assert_eq!(i.metrics.bytes_rx, 100);
    assert_eq!(i.metrics.bytes_tx, 200);
    assert_eq!(i.metrics.link_speed, Some(1000));
    assert_eq!(i.metrics.duplex.as_deref(), Some("full"));
    assert_eq!(i.metrics.mtu, Some(1500));
}

#[test]
fn unreadable_sources_yield_a_down_record() {
    let i = NetworkDiscovery::interface_from_sources(
        "mystery0", None, None, None, None, None, None, None, None,
    );
    assert_eq!(i.interface_type, InterfaceType::Unknown);
    assert_eq!(i.status, ConnectionStatus::Disconnected);
    assert_eq!(i.metrics.bytes_rx, 0);
    match &i.config {
        InterfaceConfig::Ethernet { dns, .. } => {
            assert_eq!(dns, &vec!["8.8.8.8".to_string()]);
        }
        other => panic!("unexpected config: {:?}", other),
    }
}

#[test]
fn daemon_config_defaults_are_documented_values() {
    let c = DaemonConfig::default();
    assert_eq!(c.socket_path, "/run/alopex/alopex.sock");
    assert!(c.network.auto_connect);
    assert_eq!(c.network.ethernet_priority, 100);
    assert_eq!(c.network.wifi_priority, 50);
    assert_eq!(c.network.vpn_priority, 200);
    assert!(c.bluetooth.enabled);
    assert!(c.bluetooth.auto_connect_trusted);
    assert_eq!(c.bluetooth.discoverable_timeout, 300);
}

#[test]
fn adapter_handles_start_empty_and_accept_requests() {
    let bt = BluetoothManager::new();
    assert!(bt.scan_devices().is_empty());
    assert!(bt.pair_device("AA:BB:CC:DD:EE:FF").is_ok());
    assert!(bt.connect_device("AA:BB:CC:DD:EE:FF").is_ok());
    let wifi = WiFiManager::new();
    assert!(wifi.scan_networks().is_empty());
    assert!(wifi.connect("home net", Some("hunter2")).is_ok());
    let vpn = VpnManager::new();
    assert!(vpn.connect_wireguard("/etc/wg0.conf").is_ok());
    assert!(vpn.disconnect("wg0").is_ok());
}
