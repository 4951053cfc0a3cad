//! The client-side call/response wrapper around the daemon protocol.
//!
//! The transport (a local socket) lives outside the library; what stands here
//! is the client state and the development stand-in `send_request`, which
//! answers every request from a fixed in-memory picture so the rest of the
//! client can run without a daemon.

use vstd::prelude::*;

use crate::model::{
    ConnectionStatus, InterfaceConfig, InterfaceType, NetworkInterface, NetworkMetrics,
    WiFiSecurity, IfaceView, StatusView, ConfigView, MetricsView, RawCounters, zero_metrics,
};
use crate::protocol::{Request, Response, RequestView, ResponseView};

verus! {

/// A handle on the daemon's local channel.
pub struct AlopexClient {
    socket_path: String,
}

impl View for AlopexClient {
    type V = Seq<char>;

    closed spec fn view(&self) -> Seq<char> {
        self.socket_path@
    }
}

/// The fixed wired interface of the development picture.
pub open spec fn mock_eth0() -> IfaceView {
    IfaceView {
        id: 1u64,
        name: "eth0"@,
        interface_type: InterfaceType::Ethernet,
        status: StatusView::Connected,
        config: ConfigView::Ethernet {
            dhcp: true,
            ip: Option::Some("192.168.1.100"@),
            gateway: Option::Some("192.168.1.1"@),
            dns: seq!["1.1.1.1"@],
        },
        metrics: MetricsView { link_speed: Option::Some(1000u32), ..zero_metrics() },
    }
}

/// The fixed wireless interface of the development picture.
pub open spec fn mock_wlan0() -> IfaceView {
    IfaceView {
        id: 2u64,
        name: "wlan0"@,
        interface_type: InterfaceType::WiFi,
        status: StatusView::Disconnected,
        config: ConfigView::WiFi {
            ssid: Seq::<char>::empty(),
            security: crate::model::SecurityView::Open,
            dhcp: true,
            ip: Option::None,
        },
        metrics: zero_metrics(),
    }
}

/// What the development stand-in answers, with the protocol's pairing of
/// request and response shapes: the fixed two-interface list for a list
/// request; that picture's telemetry (or a not-found error) for a telemetry
/// request; a plain success acknowledgment for the mutation requests.
pub open spec fn mock_response(q: RequestView) -> ResponseView {
    match q {
        RequestView::GetInterfaces => ResponseView::InterfaceList {
            interfaces: seq![mock_eth0(), mock_wlan0()],
        },
        RequestView::GetMetrics { name } => if name == "eth0"@ {
            ResponseView::Metrics { metrics: mock_eth0().metrics }
        } else if name == "wlan0"@ {
            ResponseView::Metrics { metrics: mock_wlan0().metrics }
        } else {
            ResponseView::Error { message: "interface not found"@ }
        },
        _ => ResponseView::Success { message: "Mock response"@ },
    }
}

/// The stand-in keeps the protocol's request/response pairing for every
/// request: a list request is answered with a list, a telemetry request
/// with telemetry or an error, a mutation request with a success or an
/// error — never any other shape.
pub proof fn lemma_mock_response_shape(q: RequestView)
    ensures
        q is GetInterfaces ==> mock_response(q) is InterfaceList,
        q is GetMetrics ==> mock_response(q) is Metrics || mock_response(q) is Error,
        q is ConnectInterface || q is DisconnectInterface || q is ConfigureInterface
            ==> mock_response(q) is Success || mock_response(q) is Error,
{
}

impl AlopexClient {
    /// A client bound to the given socket path.
    pub fn new(socket_path: String) -> (r: AlopexClient)
        ensures
            r@ == socket_path@,
    {
        AlopexClient { socket_path }
    }

    /// The path this client talks to.
    pub fn socket_path(&self) -> (r: &String)
        ensures
            r@ == self@,
    {
        &self.socket_path
    }

    /// The development stand-in: answer `request` from the fixed picture, per
    /// `mock_response` (which keeps the protocol's request/response shape
    /// pairing, `lemma_mock_response_shape`).
    pub fn send_request(&self, request: &Request) -> (r: Response)
        ensures
            r@ == mock_response(request@),
    {
        match request {
            Request::GetMetrics { name } => {
                if name.eq(&String::from_str("eth0")) {
                    let metrics = NetworkMetrics {
                        link_speed: Option::Some(1000),
                        ..NetworkMetrics::zeroed()
                    };
                    Response::Metrics { metrics }
                } else if name.eq(&String::from_str("wlan0")) {
                    Response::Metrics { metrics: NetworkMetrics::zeroed() }
                } else {
                    Response::Error { message: String::from_str("interface not found") }
                }
            },
            Request::GetInterfaces => {
                let mut dns: Vec<String> = Vec::new();
                dns.push(String::from_str("1.1.1.1"));
                let eth0 = NetworkInterface {
                    id: 1,
                    name: String::from_str("eth0"),
                    interface_type: InterfaceType::Ethernet,
                    status: ConnectionStatus::Connected,
                    config: InterfaceConfig::Ethernet {
                        dhcp: true,
                        ip: Option::Some(String::from_str("192.168.1.100")),
                        gateway: Option::Some(String::from_str("192.168.1.1")),
                        dns,
                    },
                    metrics: NetworkMetrics {
                        link_speed: Option::Some(1000),
                        ..NetworkMetrics::zeroed()
                    },
                };
                let wlan0 = NetworkInterface {
                    id: 2,
                    name: String::from_str("wlan0"),
                    interface_type: InterfaceType::WiFi,
                    status: ConnectionStatus::Disconnected,
                    config: InterfaceConfig::WiFi {
                        ssid: String::new(),
                        security: WiFiSecurity::Open,
                        dhcp: true,
                        ip: Option::None,
                    },
                    metrics: NetworkMetrics::zeroed(),
                };
                proof {
                    assert(eth0@.config->Ethernet_dns =~= mock_eth0().config->Ethernet_dns);
                    assert(eth0@ == mock_eth0());
                    assert(wlan0@ == mock_wlan0());
                }
                let mut interfaces: Vec<NetworkInterface> = Vec::new();
                interfaces.push(eth0);
                interfaces.push(wlan0);
                let r = Response::InterfaceList { interfaces };
                proof {
                    assert(r@->InterfaceList_interfaces =~= seq![mock_eth0(), mock_wlan0()]);
                }
                r
            },
            _ => Response::Success { message: String::from_str("Mock response") },
        }
    }
}

} // verus!
