//! The adapter handles the daemon owns: Bluetooth, WiFi and VPN managers.
//!
//! Their real transports (BlueZ over D-Bus, iwd, WireGuard tooling) live
//! outside the library; what stands here is the data model and the behaviour
//! that does not depend on a transport: scans answer what has been
//! discovered (nothing, until a transport reports), and requests are
//! accepted.

use vstd::prelude::*;

verus! {

/// A Bluetooth device as a scan reports it.
#[derive(Clone, Debug, PartialEq)]
pub struct BluetoothDevice {
    pub address: String,
    pub name: String,
    pub device_type: String,
    pub paired: bool,
    pub connected: bool,
}

/// The daemon's Bluetooth adapter handle.
pub struct BluetoothManager {
}

impl BluetoothManager {
    /// A fresh handle with nothing discovered.
    pub fn new() -> (r: BluetoothManager)
        ensures
            true,
    {
        BluetoothManager {  }
    }

    /// The devices discovered so far: none until a transport reports some.
    pub fn scan_devices(&self) -> (r: Vec<BluetoothDevice>)
        ensures
            r@.len() == 0,
    {
        Vec::new()
    }

    /// Accept a pairing request for the addressed device.
    pub fn pair_device(&self, address: &str) -> (r: Result<(), String>)
        ensures
            r is Ok,
    {
        Result::Ok(())
    }

    /// Accept a connection request for the addressed device.
    pub fn connect_device(&self, address: &str) -> (r: Result<(), String>)
        ensures
            r is Ok,
    {
        Result::Ok(())
    }
}

/// A WiFi network as a scan reports it.
#[derive(Clone, Debug, PartialEq)]
pub struct WiFiNetwork {
    pub ssid: String,
    pub signal_strength: i32,
    pub security: String,
}

/// The daemon's WiFi adapter handle.
pub struct WiFiManager {
}

impl WiFiManager {
    /// A fresh handle with nothing discovered.
    pub fn new() -> (r: WiFiManager)
        ensures
            true,
    {
        WiFiManager {  }
    }

    /// The networks discovered so far: none until a transport reports some.
    pub fn scan_networks(&self) -> (r: Vec<WiFiNetwork>)
        ensures
            r@.len() == 0,
    {
        Vec::new()
    }

    /// Accept a connection request for the named network.
    pub fn connect(&self, ssid: &str, password: Option<&str>) -> (r: Result<(), String>)
        ensures
            r is Ok,
    {
        Result::Ok(())
    }
}

/// The daemon's VPN adapter handle.
pub struct VpnManager {
}

impl VpnManager {
    /// A fresh handle.
    pub fn new() -> (r: VpnManager)
        ensures
            true,
    {
        VpnManager {  }
    }

    /// Accept a tunnel-up request for the referenced configuration.
    pub fn connect_wireguard(&self, config_path: &str) -> (r: Result<(), String>)
        ensures
            r is Ok,
    {
        Result::Ok(())
    }

    /// Accept a tunnel-down request for the named interface.
    pub fn disconnect(&self, interface: &str) -> (r: Result<(), String>)
        ensures
            r is Ok,
    {
        Result::Ok(())
    }
}

} // verus!
