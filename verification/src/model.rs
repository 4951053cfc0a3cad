//! The data model shared by the daemon registry and the client cache: interface
//! families, connection status, per-family configuration, and the telemetry
//! snapshot. Each type has a mathematical view over `Seq<char>` so that
//! contracts can speak about string contents.

use vstd::prelude::*;

verus! {

/// The family of a network interface. `Unknown` stands for names whose family
/// no adapter recognises; the registry refuses facts for such interfaces.
#[derive(Clone, Copy, Debug, PartialEq, Eq, Structural)]
pub enum InterfaceType {
    Ethernet,
    WiFi,
    VPN,
    Unknown,
}

/// Display priority of a family: Ethernet first, then WiFi, VPN, and anything
/// else last.
pub open spec fn family_priority(t: InterfaceType) -> int {
    match t {
        InterfaceType::Ethernet => 0,
        InterfaceType::WiFi => 1,
        InterfaceType::VPN => 2,
        InterfaceType::Unknown => 3,
    }
}

impl InterfaceType {
    /// Executable form of `family_priority`.
    pub fn priority(&self) -> (p: u8)
        ensures
            p as int == family_priority(*self),
    {
        match self {
            InterfaceType::Ethernet => 0,
            InterfaceType::WiFi => 1,
            InterfaceType::VPN => 2,
            InterfaceType::Unknown => 3,
        }
    }
}

/// Connection status of an interface; `Error` carries the adapter-reported
/// reason.
#[derive(Clone, Debug, PartialEq)]
pub enum ConnectionStatus {
    Disconnected,
    Connecting,
    Connected,
    Error(String),
}

/// Spec-level counterpart of `ConnectionStatus`.
pub ghost enum StatusView {
    Disconnected,
    Connecting,
    Connected,
    Error(Seq<char>),
}

impl View for ConnectionStatus {
    type V = StatusView;

    open spec fn view(&self) -> StatusView {
        match self {
            ConnectionStatus::Disconnected => StatusView::Disconnected,
            ConnectionStatus::Connecting => StatusView::Connecting,
            ConnectionStatus::Connected => StatusView::Connected,
            ConnectionStatus::Error(r) => StatusView::Error(r@),
        }
    }
}

impl ConnectionStatus {
    /// A structurally equal copy.
    pub fn duplicate(&self) -> (r: Self)
        ensures
            r == *self,
    {
        match self {
            ConnectionStatus::Disconnected => ConnectionStatus::Disconnected,
            ConnectionStatus::Connecting => ConnectionStatus::Connecting,
            ConnectionStatus::Connected => ConnectionStatus::Connected,
            ConnectionStatus::Error(r) => ConnectionStatus::Error(r.clone()),
        }
    }
}

/// WiFi security mode; the passphrase-bearing modes carry the passphrase.
#[derive(Clone, Debug, PartialEq)]
pub enum WiFiSecurity {
    Open,
    WPA2(String),
    WPA3(String),
    Enterprise,
}

/// Spec-level counterpart of `WiFiSecurity`.
pub ghost enum SecurityView {
    Open,
    WPA2(Seq<char>),
    WPA3(Seq<char>),
    Enterprise,
}

impl View for WiFiSecurity {
    type V = SecurityView;

    open spec fn view(&self) -> SecurityView {
        match self {
            WiFiSecurity::Open => SecurityView::Open,
            WiFiSecurity::WPA2(p) => SecurityView::WPA2(p@),
            WiFiSecurity::WPA3(p) => SecurityView::WPA3(p@),
            WiFiSecurity::Enterprise => SecurityView::Enterprise,
        }
    }
}

impl WiFiSecurity {
    /// A structurally equal copy.
    pub fn duplicate(&self) -> (r: Self)
        ensures
            r == *self,
    {
        match self {
            WiFiSecurity::Open => WiFiSecurity::Open,
            WiFiSecurity::WPA2(p) => WiFiSecurity::WPA2(p.clone()),
            WiFiSecurity::WPA3(p) => WiFiSecurity::WPA3(p.clone()),
            WiFiSecurity::Enterprise => WiFiSecurity::Enterprise,
        }
    }
}

/// Family-tagged configuration of an interface.
#[derive(Clone, Debug, PartialEq)]
pub enum InterfaceConfig {
    Ethernet { dhcp: bool, ip: Option<String>, gateway: Option<String>, dns: Vec<String> },
    WiFi { ssid: String, security: WiFiSecurity, dhcp: bool, ip: Option<String> },
    VPN { provider: String, config_path: String, auto_connect: bool },
}

/// Spec-level counterpart of `InterfaceConfig`.
pub ghost enum ConfigView {
    Ethernet { dhcp: bool, ip: Option<Seq<char>>, gateway: Option<Seq<char>>, dns: Seq<Seq<char>> },
    WiFi { ssid: Seq<char>, security: SecurityView, dhcp: bool, ip: Option<Seq<char>> },
    VPN { provider: Seq<char>, config_path: Seq<char>, auto_connect: bool },
}

/// The view of an optional string.
pub open spec fn opt_view(o: Option<String>) -> Option<Seq<char>> {
    match o {
        Option::None => Option::None,
        Option::Some(s) => Option::Some(s@),
    }
}

impl View for InterfaceConfig {
    type V = ConfigView;

    open spec fn view(&self) -> ConfigView {
        match self {
            InterfaceConfig::Ethernet { dhcp, ip, gateway, dns } => ConfigView::Ethernet {
                dhcp: *dhcp,
                ip: opt_view(*ip),
                gateway: opt_view(*gateway),
                dns: dns.deep_view(),
            },
            InterfaceConfig::WiFi { ssid, security, dhcp, ip } => ConfigView::WiFi {
                ssid: ssid@,
                security: security@,
                dhcp: *dhcp,
                ip: opt_view(*ip),
            },
            InterfaceConfig::VPN { provider, config_path, auto_connect } => ConfigView::VPN {
                provider: provider@,
                config_path: config_path@,
                auto_connect: *auto_connect,
            },
        }
    }
}

/// The family that a configuration variant belongs to.
pub open spec fn config_family(c: ConfigView) -> InterfaceType {
    match c {
        ConfigView::Ethernet { .. } => InterfaceType::Ethernet,
        ConfigView::WiFi { .. } => InterfaceType::WiFi,
        ConfigView::VPN { .. } => InterfaceType::VPN,
    }
}

/// Copy an optional string, preserving contents.
pub fn duplicate_opt_string(o: &Option<String>) -> (r: Option<String>)
    ensures
        r == *o,
{
    match o {
        Option::None => Option::None,
        Option::Some(s) => Option::Some(s.clone()),
    }
}

/// Copy a vector of strings, preserving contents.
pub fn duplicate_strings(v: &Vec<String>) -> (r: Vec<String>)
    ensures
        r@ =~= v@,
{
    let mut r: Vec<String> = Vec::new();
    let mut i: usize = 0;
    while i < v.len()
        invariant
            i <= v.len(),
            r@ =~= v@.subrange(0, i as int),
        decreases v.len() - i,
    {
        r.push(v[i].clone());
        assert(r@ =~= v@.subrange(0, i + 1 as int));
        i = i + 1;
    }
    assert(v@.subrange(0, v.len() as int) =~= v@);
    r
}

impl InterfaceConfig {
    /// A copy with the same view.
    pub fn duplicate(&self) -> (r: Self)
        ensures
            r@ == self@,
    {
        match self {
            InterfaceConfig::Ethernet { dhcp, ip, gateway, dns } => InterfaceConfig::Ethernet {
                dhcp: *dhcp,
                ip: duplicate_opt_string(ip),
                gateway: duplicate_opt_string(gateway),
                dns: duplicate_strings(dns),
            },
            InterfaceConfig::WiFi { ssid, security, dhcp, ip } => InterfaceConfig::WiFi {
                ssid: ssid.clone(),
                security: security.duplicate(),
                dhcp: *dhcp,
                ip: duplicate_opt_string(ip),
            },
            InterfaceConfig::VPN { provider, config_path, auto_connect } => InterfaceConfig::VPN {
                provider: provider.clone(),
                config_path: config_path.clone(),
                auto_connect: *auto_connect,
            },
        }
    }
}

/// Raw monotonic counters reported by an adapter for one interface.
#[derive(Clone, Copy, Debug, PartialEq, Eq, Structural)]
pub struct RawCounters {
    pub bytes_tx: u64,
    pub bytes_rx: u64,
    pub packets_tx: u64,
    pub packets_rx: u64,
    pub errors_tx: u64,
    pub errors_rx: u64,
    pub dropped_tx: u64,
    pub dropped_rx: u64,
}

impl RawCounters {
    /// All counters zero.
    pub fn zero() -> (r: RawCounters)
        ensures
            r == (RawCounters {
                bytes_tx: 0u64,
                bytes_rx: 0u64,
                packets_tx: 0u64,
                packets_rx: 0u64,
                errors_tx: 0u64,
                errors_rx: 0u64,
                dropped_tx: 0u64,
                dropped_rx: 0u64,
            }),
    {
        RawCounters {
            bytes_tx: 0,
            bytes_rx: 0,
            packets_tx: 0,
            packets_rx: 0,
            errors_tx: 0,
            errors_rx: 0,
            dropped_tx: 0,
            dropped_rx: 0,
        }
    }
}

/// The latest telemetry snapshot of one interface.
///
/// Raw fields mirror the adapter-reported monotonic counters. Derived fields
/// are rates in whole units per second (`speed_up`/`speed_down` in bytes per
/// second) and hold their previous value when no new interval has elapsed.
/// Capability fields may be absent; session fields track the current
/// `Connected` session.
#[derive(Clone, Debug, PartialEq)]
pub struct NetworkMetrics {
    pub bytes_tx: u64,
    pub bytes_rx: u64,
    pub packets_tx: u64,
    pub packets_rx: u64,
    pub errors_tx: u64,
    pub errors_rx: u64,
    pub dropped_tx: u64,
    pub dropped_rx: u64,
    /// Transmit rate, bytes per second.
    pub speed_up: u64,
    /// Receive rate, bytes per second.
    pub speed_down: u64,
    pub packets_per_sec_tx: u64,
    pub packets_per_sec_rx: u64,
    /// Link speed in Mbps, when the interface reports one.
    pub link_speed: Option<u32>,
    /// Duplex mode, when the interface reports one.
    pub duplex: Option<String>,
    pub mtu: Option<u32>,
    /// Milliseconds since the interface last entered `Connected`.
    pub uptime_ms: Option<u64>,
    pub total_session_tx: u64,
    pub total_session_rx: u64,
}

/// Spec-level counterpart of `NetworkMetrics`.
pub ghost struct MetricsView {
    pub raw: RawCounters,
    pub speed_up: u64,
    pub speed_down: u64,
    pub packets_per_sec_tx: u64,
    pub packets_per_sec_rx: u64,
    pub link_speed: Option<u32>,
    pub duplex: Option<Seq<char>>,
    pub mtu: Option<u32>,
    pub uptime_ms: Option<u64>,
    pub total_session_tx: u64,
    pub total_session_rx: u64,
}

impl View for NetworkMetrics {
    type V = MetricsView;

    open spec fn view(&self) -> MetricsView {
        MetricsView {
            raw: RawCounters {
                bytes_tx: self.bytes_tx,
                bytes_rx: self.bytes_rx,
                packets_tx: self.packets_tx,
                packets_rx: self.packets_rx,
                errors_tx: self.errors_tx,
                errors_rx: self.errors_rx,
                dropped_tx: self.dropped_tx,
                dropped_rx: self.dropped_rx,
            },
            speed_up: self.speed_up,
            speed_down: self.speed_down,
            packets_per_sec_tx: self.packets_per_sec_tx,
            packets_per_sec_rx: self.packets_per_sec_rx,
            link_speed: self.link_speed,
            duplex: match &self.duplex {
                Option::None => Option::None,
                Option::Some(d) => Option::Some(d@),
            },
            mtu: self.mtu,
            uptime_ms: self.uptime_ms,
            total_session_tx: self.total_session_tx,
            total_session_rx: self.total_session_rx,
        }
    }
}

/// The all-zero, nothing-known telemetry value: raw and derived fields zero,
/// capability and session fields absent.
pub open spec fn zero_metrics() -> MetricsView {
    MetricsView {
        raw: RawCounters {
            bytes_tx: 0u64,
            bytes_rx: 0u64,
            packets_tx: 0u64,
            packets_rx: 0u64,
            errors_tx: 0u64,
            errors_rx: 0u64,
            dropped_tx: 0u64,
            dropped_rx: 0u64,
        },
        speed_up: 0u64,
        speed_down: 0u64,
        packets_per_sec_tx: 0u64,
        packets_per_sec_rx: 0u64,
        link_speed: Option::None,
        duplex: Option::None,
        mtu: Option::None,
        uptime_ms: Option::None,
        total_session_tx: 0u64,
        total_session_rx: 0u64,
    }
}

impl NetworkMetrics {
    /// The default telemetry value, `zero_metrics` at the spec level.
    pub fn zeroed() -> (r: NetworkMetrics)
        ensures
            r@ == zero_metrics(),
    {
        NetworkMetrics {
            bytes_tx: 0,
            bytes_rx: 0,
            packets_tx: 0,
            packets_rx: 0,
            errors_tx: 0,
            errors_rx: 0,
            dropped_tx: 0,
            dropped_rx: 0,
            speed_up: 0,
            speed_down: 0,
            packets_per_sec_tx: 0,
            packets_per_sec_rx: 0,
            link_speed: Option::None,
            duplex: Option::None,
            mtu: Option::None,
            uptime_ms: Option::None,
            total_session_tx: 0,
            total_session_rx: 0,
        }
    }

    /// The raw counters held in this snapshot.
    pub fn raw(&self) -> (r: RawCounters)
        ensures
            r == self@.raw,
    {
        RawCounters {
            bytes_tx: self.bytes_tx,
            bytes_rx: self.bytes_rx,
            packets_tx: self.packets_tx,
            packets_rx: self.packets_rx,
            errors_tx: self.errors_tx,
            errors_rx: self.errors_rx,
            dropped_tx: self.dropped_tx,
            dropped_rx: self.dropped_rx,
        }
    }

    /// A copy with the same view.
    pub fn duplicate(&self) -> (r: Self)
        ensures
            r@ == self@,
    {
        NetworkMetrics {
            bytes_tx: self.bytes_tx,
            bytes_rx: self.bytes_rx,
            packets_tx: self.packets_tx,
            packets_rx: self.packets_rx,
            errors_tx: self.errors_tx,
            errors_rx: self.errors_rx,
            dropped_tx: self.dropped_tx,
            dropped_rx: self.dropped_rx,
            speed_up: self.speed_up,
            speed_down: self.speed_down,
            packets_per_sec_tx: self.packets_per_sec_tx,
            packets_per_sec_rx: self.packets_per_sec_rx,
            link_speed: self.link_speed,
            duplex: duplicate_opt_string(&self.duplex),
            mtu: self.mtu,
            uptime_ms: self.uptime_ms,
            total_session_tx: self.total_session_tx,
            total_session_rx: self.total_session_rx,
        }
    }
}

/// One network interface as the registry and the client cache hold it.
#[derive(Clone, Debug, PartialEq)]
pub struct NetworkInterface {
    /// Registry-assigned surrogate id, stable for the entity's lifetime.
    pub id: u64,
    pub name: String,
    pub interface_type: InterfaceType,
    pub status: ConnectionStatus,
    pub config: InterfaceConfig,
    pub metrics: NetworkMetrics,
}

/// Spec-level counterpart of `NetworkInterface`.
pub ghost struct IfaceView {
    pub id: u64,
    pub name: Seq<char>,
    pub interface_type: InterfaceType,
    pub status: StatusView,
    pub config: ConfigView,
    pub metrics: MetricsView,
}

impl View for NetworkInterface {
    type V = IfaceView;

    open spec fn view(&self) -> IfaceView {
        IfaceView {
            id: self.id,
            name: self.name@,
            interface_type: self.interface_type,
            status: self.status@,
            config: self.config@,
            metrics: self.metrics@,
        }
    }
}

impl NetworkInterface {
    /// A copy with the same view.
    pub fn duplicate(&self) -> (r: Self)
        ensures
            r@ == self@,
    {
        NetworkInterface {
            id: self.id,
            name: self.name.clone(),
            interface_type: self.interface_type,
            status: self.status.duplicate(),
            config: self.config.duplicate(),
            metrics: self.metrics.duplicate(),
        }
    }
}

/// An adapter-reported observation about one interface's real-world state.
///
/// `family` is the family tag as the adapter reports it (`"Ethernet"`,
/// `"WiFi"`, `"VPN"`); any other tag is an unknown family and is rejected by
/// the registry. `link` is `Some(true)` for an explicit link-up report,
/// `Some(false)` for an explicit link-down report, and `None` when the fact
/// does not speak about the link.
#[derive(Clone, Debug, PartialEq)]
pub struct InterfaceFact {
    pub name: String,
    pub family: String,
    pub link: Option<bool>,
    pub counters: RawCounters,
    pub ip: Option<String>,
    pub gateway: Option<String>,
    pub dns: Vec<String>,
    pub link_speed: Option<u32>,
    pub duplex: Option<String>,
    pub mtu: Option<u32>,
}

/// Spec-level counterpart of `InterfaceFact`.
pub ghost struct FactView {
    pub name: Seq<char>,
    pub family: Seq<char>,
    pub link: Option<bool>,
    pub counters: RawCounters,
    pub ip: Option<Seq<char>>,
    pub gateway: Option<Seq<char>>,
    pub dns: Seq<Seq<char>>,
    pub link_speed: Option<u32>,
    pub duplex: Option<Seq<char>>,
    pub mtu: Option<u32>,
}

impl View for InterfaceFact {
    type V = FactView;

    open spec fn view(&self) -> FactView {
        FactView {
            name: self.name@,
            family: self.family@,
            link: self.link,
            counters: self.counters,
            ip: opt_view(self.ip),
            gateway: opt_view(self.gateway),
            dns: self.dns.deep_view(),
            link_speed: self.link_speed,
            duplex: match &self.duplex {
                Option::None => Option::None,
                Option::Some(d) => Option::Some(d@),
            },
            mtu: self.mtu,
        }
    }
}

/// Floor-at-zero subtraction: counter resets never produce negative deltas.
pub open spec fn sat_sub_spec(a: u64, b: u64) -> u64 {
    if a >= b {
        (a - b) as u64
    } else {
        0u64
    }
}

/// Executable form of `sat_sub_spec`.
pub fn sat_sub(a: u64, b: u64) -> (r: u64)
    ensures
        r == sat_sub_spec(a, b),
{
    if a >= b {
        a - b
    } else {
        0
    }
}

/// The family named by an adapter-reported tag; tags other than the three
/// known ones map to `Unknown`.
pub open spec fn family_of_tag(tag: Seq<char>) -> InterfaceType {
    if tag == "Ethernet"@ {
        InterfaceType::Ethernet
    } else if tag == "WiFi"@ {
        InterfaceType::WiFi
    } else if tag == "VPN"@ {
        InterfaceType::VPN
    } else {
        InterfaceType::Unknown
    }
}

/// Executable form of `family_of_tag`.
pub fn parse_family_tag(tag: &str) -> (t: InterfaceType)
    ensures
        t == family_of_tag(tag@),
{
    let owned = tag.to_owned();
    if owned.eq(&String::from_str("Ethernet")) {
        InterfaceType::Ethernet
    } else if owned.eq(&String::from_str("WiFi")) {
        InterfaceType::WiFi
    } else if owned.eq(&String::from_str("VPN")) {
        InterfaceType::VPN
    } else {
        InterfaceType::Unknown
    }
}

} // verus!
