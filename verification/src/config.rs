//! Daemon configuration values. Loading them from disk is the surrounding
//! process's concern; the library defines the shapes and their defaults.

use vstd::prelude::*;

verus! {

/// Network-side settings: connection policy and per-family priorities.
#[derive(Clone, Debug, PartialEq)]
pub struct NetworkConfig {
    pub auto_connect: bool,
    pub ethernet_priority: u32,
    pub wifi_priority: u32,
    pub vpn_priority: u32,
}

/// Bluetooth-side settings.
#[derive(Clone, Debug, PartialEq)]
pub struct BluetoothConfig {
    pub enabled: bool,
    pub auto_connect_trusted: bool,
    pub discoverable_timeout: u32,
}

/// The daemon's configuration.
#[derive(Clone, Debug, PartialEq)]
pub struct DaemonConfig {
    pub socket_path: String,
    pub network: NetworkConfig,
    pub bluetooth: BluetoothConfig,
}

impl Default for NetworkConfig {
    /// Auto-connect on, Ethernet preferred over WiFi, VPN above both.
    fn default() -> (r: NetworkConfig)
        ensures
            r.auto_connect == true,
            r.ethernet_priority == 100u32,
            r.wifi_priority == 50u32,
            r.vpn_priority == 200u32,
    {
        NetworkConfig {
            auto_connect: true,
            ethernet_priority: 100,
            wifi_priority: 50,
            vpn_priority: 200,
        }
    }
}

impl Default for BluetoothConfig {
    /// Enabled, trusted devices reconnected, five minutes discoverable.
    fn default() -> (r: BluetoothConfig)
        ensures
            r.enabled == true,
            r.auto_connect_trusted == true,
            r.discoverable_timeout == 300u32,
    {
        BluetoothConfig { enabled: true, auto_connect_trusted: true, discoverable_timeout: 300 }
    }
}

impl Default for DaemonConfig {
    /// The documented default socket path and the two sub-defaults.
    fn default() -> (r: DaemonConfig)
        ensures
            r.socket_path@ == "/run/alopex/alopex.sock"@,
            r.network.auto_connect == true,
            r.network.ethernet_priority == 100u32,
            r.network.wifi_priority == 50u32,
            r.network.vpn_priority == 200u32,
            r.bluetooth.enabled == true,
            r.bluetooth.auto_connect_trusted == true,
            r.bluetooth.discoverable_timeout == 300u32,
    {
        DaemonConfig {
            socket_path: String::from_str("/run/alopex/alopex.sock"),
            network: NetworkConfig {
                auto_connect: true,
                ethernet_priority: 100,
                wifi_priority: 50,
                vpn_priority: 200,
            },
            bluetooth: BluetoothConfig {
                enabled: true,
                auto_connect_trusted: true,
                discoverable_timeout: 300,
            },
        }
    }
}

} // verus!
