//! The daemon-side interface registry: the single store of all known network
//! interfaces, keyed by name, together with the connection-status state
//! machine and the serialization point for mutations.
//!
//! Adapter calls are slow and external, so a mutation is split in two steps:
//! `request_*` validates the request, marks the interface busy and tells the
//! caller to invoke the matching adapter, and `complete_*` applies the
//! adapter's outcome. While an interface is busy, further mutations on it are
//! rejected with `Busy`; this keeps at most one adapter operation in flight
//! per interface.

use vstd::prelude::*;
use vstd::pervasive::VecAdditionalExecFns;

use crate::model::{
    ConnectionStatus, InterfaceConfig, InterfaceFact, InterfaceType, NetworkInterface,
    NetworkMetrics, StatusView, IfaceView, MetricsView, ConfigView, FactView, RawCounters,
    family_of_tag, parse_family_tag, config_family, sat_sub_spec, sat_sub, opt_view,
    duplicate_opt_string, duplicate_strings,
};

verus! {

/// Why a registry request was refused.
#[derive(Clone, Debug, PartialEq)]
pub enum RegistryError {
    /// The named interface is not present.
    NotFound,
    /// A mutation is already in flight for the named interface, or the
    /// interface is in a state from which the request cannot start.
    Busy,
    /// The adapter reported a failure with the carried reason.
    AdapterFailure(String),
    /// The request is invalid as posed: a malformed line, a configuration
    /// whose family does not match the interface, a disconnect of an
    /// interface that is in no session, or a completion for an operation
    /// that was never dispatched.
    ProtocolError,
    /// Reserved: telemetry requested before the first sample is answered with
    /// zeroed telemetry rather than with this error.
    Unavailable,
}

/// Spec-level counterpart of `RegistryError`.
pub ghost enum ErrView {
    NotFound,
    Busy,
    AdapterFailure(Seq<char>),
    ProtocolError,
    Unavailable,
}

impl View for RegistryError {
    type V = ErrView;

    open spec fn view(&self) -> ErrView {
        match self {
            RegistryError::NotFound => ErrView::NotFound,
            RegistryError::Busy => ErrView::Busy,
            RegistryError::AdapterFailure(r) => ErrView::AdapterFailure(r@),
            RegistryError::ProtocolError => ErrView::ProtocolError,
            RegistryError::Unavailable => ErrView::Unavailable,
        }
    }
}

/// Why a fact could not be applied.
#[derive(Clone, Copy, Debug, PartialEq, Eq, Structural)]
pub enum FactError {
    /// The fact names a family that no adapter family matches.
    UnknownFamily,
}

/// One registry record: the interface entity plus the registry's private
/// bookkeeping for it.
#[derive(Clone, Debug)]
pub struct RegistryEntry {
    pub iface: NetworkInterface,
    /// An adapter operation is in flight for this interface.
    pub busy: bool,
    /// When the interface last entered `Connected`, if it is still there.
    pub connected_since_ms: Option<u64>,
    /// Raw byte counters at the last `Connected` entry; session totals are
    /// measured from here.
    pub session_base_tx: u64,
    pub session_base_rx: u64,
}

/// Spec-level counterpart of `RegistryEntry`.
pub ghost struct EntryView {
    pub iface: IfaceView,
    pub busy: bool,
    pub connected_since_ms: Option<u64>,
    pub session_base_tx: u64,
    pub session_base_rx: u64,
}

impl View for RegistryEntry {
    type V = EntryView;

    open spec fn view(&self) -> EntryView {
        EntryView {
            iface: self.iface@,
            busy: self.busy,
            connected_since_ms: self.connected_since_ms,
            session_base_tx: self.session_base_tx,
            session_base_rx: self.session_base_rx,
        }
    }
}

/// Spec-level registry state.
pub ghost struct RegView {
    pub entries: Seq<EntryView>,
    pub next_id: u64,
}

/// Index of the first entry named `name`, or -1 if none is.
pub open spec fn find_idx(s: Seq<EntryView>, name: Seq<char>) -> int
    decreases s.len(),
{
    if s.len() == 0 {
        -1
    } else if s[0].iface.name == name {
        0
    } else {
        let r = find_idx(s.drop_first(), name);
        if r < 0 {
            -1
        } else {
            r + 1
        }
    }
}

/// `find_idx` returns either -1, with no entry named `name`, or the first
/// index of an entry named `name`.
pub proof fn lemma_find_idx(s: Seq<EntryView>, name: Seq<char>)
    ensures
        find_idx(s, name) == -1 ==> forall|k: int| 0 <= k < s.len() ==> s[k].iface.name != name,
        find_idx(s, name) >= 0 ==> find_idx(s, name) < s.len() && s[find_idx(s, name)].iface.name
            == name && forall|k: int| 0 <= k < find_idx(s, name) ==> s[k].iface.name != name,
    decreases s.len(),
{
    if s.len() > 0 && s[0].iface.name != name {
        let t = s.drop_first();
        lemma_find_idx(t, name);
        assert(forall|k: int| 0 <= k < t.len() ==> t[k] == s[k + 1]);
        let r = find_idx(t, name);
        if r < 0 {
            assert forall|k: int| 0 <= k < s.len() implies s[k].iface.name != name by {
                if k > 0 {
                    assert(t[k - 1] == s[k]);
                }
            }
        } else {
            assert(s[r + 1] == t[r]);
            assert forall|k: int| 0 <= k < r + 1 implies s[k].iface.name != name by {
                if k > 0 {
                    assert(t[k - 1] == s[k]);
                }
            }
        }
    }
}

/// The registry holds at most one entry per name.
pub open spec fn unique_names(s: Seq<EntryView>) -> bool {
    forall|i: int, j: int|
        0 <= i < j < s.len() ==> s[i].iface.name != s[j].iface.name
}

impl RegView {
    /// Well-formed registry state: one entry per distinct name.
    pub open spec fn wf(self) -> bool {
        unique_names(self.entries)
    }

    /// Whether an entry named `name` is present.
    pub open spec fn has(self, name: Seq<char>) -> bool {
        find_idx(self.entries, name) >= 0
    }

    /// The entry named `name` (meaningful only when `has(name)`).
    pub open spec fn entry(self, name: Seq<char>) -> EntryView {
        self.entries[find_idx(self.entries, name)]
    }
}

/// The daemon's interface registry.
pub struct NetworkManager {
    entries: Vec<RegistryEntry>,
    next_id: u64,
}

impl View for NetworkManager {
    type V = RegView;

    closed spec fn view(&self) -> RegView {
        RegView {
            entries: self.entries@.map_values(|e: RegistryEntry| e@),
            next_id: self.next_id,
        }
    }
}

impl NetworkManager {
    /// Well-formed: one entry per distinct name.
    pub open spec fn wf(&self) -> bool {
        self@.wf()
    }

    /// An empty registry; surrogate ids start at 1.
    pub fn new() -> (r: NetworkManager)
        ensures
            r.wf(),
            r@.entries == Seq::<EntryView>::empty(),
            r@.next_id == 1u64,
    {
        let r = NetworkManager { entries: Vec::new(), next_id: 1 };
        proof {
            assert(r@.entries =~= Seq::<EntryView>::empty());
        }
        r
    }

    /// Index of the entry named `name`, if one is present.
    fn find(&self, name: &str) -> (r: Option<usize>)
        ensures
            match r {
                Option::Some(i) => find_idx(self@.entries, name@) == i as int,
                Option::None => find_idx(self@.entries, name@) == -1,
            },
    {
        proof {
            lemma_find_idx(self@.entries, name@);
        }
        let n = name.to_owned();
        let mut i: usize = 0;
        while i < self.entries.len()
            invariant
                i <= self.entries.len(),
                n@ == name@,
                forall|k: int| 0 <= k < i ==> self@.entries[k].iface.name != name@,
        decreases self.entries.len() - i,
        {
            if self.entries[i].iface.name.eq(&n) {
                proof {
                    lemma_find_idx_at(self@.entries, name@, i as int);
                }
                return Option::Some(i);
            }
            i = i + 1;
        }
        Option::None
    }

    /// The interface named `name`, or nothing when no adapter has ever
    /// reported that name.
    pub fn get_interface(&self, name: &str) -> (r: Option<NetworkInterface>)
        ensures
            match r {
                Option::Some(i) => self@.has(name@) && i@ == self@.entry(name@).iface,
                Option::None => !self@.has(name@),
            },
    {
        match self.find(name) {
            Option::Some(i) => {
                proof {
                    lemma_find_idx(self@.entries, name@);
                }
                Option::Some(self.entries[i].iface.duplicate())
            },
            Option::None => Option::None,
        }
    }

    /// An immutable snapshot of every known interface, in registry order.
    pub fn get_interfaces(&self) -> (r: Vec<NetworkInterface>)
        ensures
            r@.len() == self@.entries.len(),
            forall|k: int| 0 <= k < r@.len() ==> r@[k]@ == self@.entries[k].iface,
    {
        let mut r: Vec<NetworkInterface> = Vec::new();
        let mut i: usize = 0;
        while i < self.entries.len()
            invariant
                i <= self.entries.len(),
                r@.len() == i,
                forall|k: int| 0 <= k < i ==> r@[k]@ == self@.entries[k].iface,
        decreases self.entries.len() - i,
        {
            r.push(self.entries[i].iface.duplicate());
            i = i + 1;
        }
        r
    }
}

/// Surrogate-id counter after one assignment; it sticks at the top of the
/// range rather than wrapping.
pub open spec fn bump_id(id: u64) -> u64 {
    if id < u64::MAX {
        (id + 1) as u64
    } else {
        id
    }
}

/// Status after a fact: an explicit link report wins; a fact that does not
/// speak about the link leaves the status alone, except that it moves `Error`
/// back to `Disconnected` (a successful fact application clears the error).
/// In particular a fact never regresses `Connecting` or `Connected` to
/// `Disconnected` on its own.
pub open spec fn status_after_fact(st: StatusView, link: Option<bool>) -> StatusView {
    match link {
        Option::Some(true) => StatusView::Connected,
        Option::Some(false) => StatusView::Disconnected,
        Option::None => match st {
            StatusView::Error(_) => StatusView::Disconnected,
            _ => st,
        },
    }
}

/// Configuration after a fact: addressing fields present in the fact
/// overwrite the stored ones for the matching family variant; a fact with an
/// empty name-server list leaves the stored list alone.
pub open spec fn config_after_fact(c: ConfigView, f: FactView) -> ConfigView {
    match c {
        ConfigView::Ethernet { dhcp, ip, gateway, dns } => ConfigView::Ethernet {
            dhcp: dhcp,
            ip: if f.ip is Some { f.ip } else { ip },
            gateway: if f.gateway is Some { f.gateway } else { gateway },
            dns: if f.dns.len() > 0 { f.dns } else { dns },
        },
        ConfigView::WiFi { ssid, security, dhcp, ip } => ConfigView::WiFi {
            ssid: ssid,
            security: security,
            dhcp: dhcp,
            ip: if f.ip is Some { f.ip } else { ip },
        },
        ConfigView::VPN { .. } => c,
    }
}

/// The default configuration a freshly discovered interface starts with.
pub open spec fn default_config(fam: InterfaceType, f: FactView) -> ConfigView {
    match fam {
        InterfaceType::WiFi => ConfigView::WiFi {
            ssid: Seq::<char>::empty(),
            security: crate::model::SecurityView::Open,
            dhcp: true,
            ip: f.ip,
        },
        InterfaceType::VPN => ConfigView::VPN {
            provider: Seq::<char>::empty(),
            config_path: Seq::<char>::empty(),
            auto_connect: false,
        },
        _ => ConfigView::Ethernet { dhcp: true, ip: f.ip, gateway: f.gateway, dns: f.dns },
    }
}

/// An existing entry after a fact for it is applied at time `now_ms`.
///
/// Entering `Connected` resets the uptime to zero and re-baselines the
/// session totals at the fact's counters; leaving `Connected` freezes the
/// uptime at its last value. Raw counters always follow the fact; derived
/// rates are left to the metrics engine; capability fields present in the
/// fact overwrite the stored ones.
pub open spec fn entry_after_fact(e: EntryView, f: FactView, now_ms: u64) -> EntryView {
    let old_st = e.iface.status;
    let new_st = status_after_fact(old_st, f.link);
    let entering = new_st is Connected && !(old_st is Connected);
    let leaving = old_st is Connected && !(new_st is Connected);
    let since = if entering {
        Option::Some(now_ms)
    } else if leaving {
        Option::None
    } else {
        e.connected_since_ms
    };
    let base_tx = if entering {
        f.counters.bytes_tx
    } else {
        e.session_base_tx
    };
    let base_rx = if entering {
        f.counters.bytes_rx
    } else {
        e.session_base_rx
    };
    let uptime = if entering {
        Option::Some(0u64)
    } else if new_st is Connected {
        match e.connected_since_ms {
            Option::Some(t0) => Option::Some(sat_sub_spec(now_ms, t0)),
            Option::None => Option::Some(0u64),
        }
    } else {
        e.iface.metrics.uptime_ms
    };
    let m = e.iface.metrics;
    EntryView {
        iface: IfaceView {
            id: e.iface.id,
            name: e.iface.name,
            interface_type: e.iface.interface_type,
            status: new_st,
            config: config_after_fact(e.iface.config, f),
            metrics: MetricsView {
                raw: f.counters,
                speed_up: m.speed_up,
                speed_down: m.speed_down,
                packets_per_sec_tx: m.packets_per_sec_tx,
                packets_per_sec_rx: m.packets_per_sec_rx,
                link_speed: if f.link_speed is Some { f.link_speed } else { m.link_speed },
                duplex: if f.duplex is Some { f.duplex } else { m.duplex },
                mtu: if f.mtu is Some { f.mtu } else { m.mtu },
                uptime_ms: uptime,
                total_session_tx: sat_sub_spec(f.counters.bytes_tx, base_tx),
                total_session_rx: sat_sub_spec(f.counters.bytes_rx, base_rx),
            },
        },
        busy: e.busy,
        connected_since_ms: since,
        session_base_tx: base_tx,
        session_base_rx: base_rx,
    }
}

/// A fresh entry for a name not yet in the registry (or one whose family
/// changed, which ends the old entity and begins a new one).
pub open spec fn entry_from_fact(f: FactView, fam: InterfaceType, id: u64, now_ms: u64) -> EntryView {
    let st = match f.link {
        Option::Some(true) => StatusView::Connected,
        _ => StatusView::Disconnected,
    };
    let connected = st is Connected;
    EntryView {
        iface: IfaceView {
            id: id,
            name: f.name,
            interface_type: fam,
            status: st,
            config: default_config(fam, f),
            metrics: MetricsView {
                raw: f.counters,
                speed_up: 0u64,
                speed_down: 0u64,
                packets_per_sec_tx: 0u64,
                packets_per_sec_rx: 0u64,
                link_speed: f.link_speed,
                duplex: f.duplex,
                mtu: f.mtu,
                uptime_ms: if connected { Option::Some(0u64) } else { Option::None },
                total_session_tx: 0u64,
                total_session_rx: 0u64,
            },
        },
        busy: false,
        connected_since_ms: if connected { Option::Some(now_ms) } else { Option::None },
        session_base_tx: f.counters.bytes_tx,
        session_base_rx: f.counters.bytes_rx,
    }
}

/// The registry after a fact is applied: facts for an unknown family are
/// rejected; a fact for a known name of the same family updates the entry in
/// place; a fact whose family differs replaces the entity; a fact for a new
/// name creates an entity.
pub open spec fn apply_fact_spec(r: RegView, f: FactView, now_ms: u64) -> Result<RegView, FactError> {
    let fam = family_of_tag(f.family);
    if fam is Unknown {
        Result::Err(FactError::UnknownFamily)
    } else {
        let i = find_idx(r.entries, f.name);
        if i >= 0 && r.entries[i].iface.interface_type == fam {
            Result::Ok(RegView {
                entries: r.entries.update(i, entry_after_fact(r.entries[i], f, now_ms)),
                next_id: r.next_id,
            })
        } else if i >= 0 {
            Result::Ok(RegView {
                entries: r.entries.update(i, entry_from_fact(f, fam, r.next_id, now_ms)),
                next_id: bump_id(r.next_id),
            })
        } else {
            Result::Ok(RegView {
                entries: r.entries.push(entry_from_fact(f, fam, r.next_id, now_ms)),
                next_id: bump_id(r.next_id),
            })
        }
    }
}

/// What the caller of a `request_connect` must do next.
#[derive(Clone, Copy, Debug, PartialEq, Eq, Structural)]
pub enum ConnectStep {
    /// Invoke the matching adapter's `apply` and report the outcome through
    /// `complete_connect`.
    Dispatch,
    /// The interface is already connected; nothing to do.
    AlreadyConnected,
}

/// An entry with status, busy flag, connected-since mark and configuration
/// replaced; identity, metrics and session baselines kept.
pub open spec fn entry_with(
    e: EntryView,
    st: StatusView,
    busy: bool,
    since: Option<u64>,
    cfg: ConfigView,
) -> EntryView {
    EntryView {
        iface: IfaceView { status: st, config: cfg, ..e.iface },
        busy: busy,
        connected_since_ms: since,
        ..e
    }
}

/// `request_connect`: valid on a `Disconnected` or `Error` interface, which
/// moves to `Connecting` and becomes busy until the adapter outcome arrives.
/// A request while busy or while `Connecting` is rejected with `Busy`; a
/// request on a `Connected` interface is answered as a no-op success — the
/// goal state already holds and no adapter work is owed. (A disconnect has
/// no such no-op: its validity is exclusive to `Connecting` and `Connected`,
/// see `request_disconnect_spec`.)
pub open spec fn request_connect_spec(r: RegView, name: Seq<char>) -> Result<
    (RegView, ConnectStep),
    ErrView,
> {
    let i = find_idx(r.entries, name);
    if i < 0 {
        Result::Err(ErrView::NotFound)
    } else {
        let e = r.entries[i];
        if e.busy {
            Result::Err(ErrView::Busy)
        } else {
            match e.iface.status {
                StatusView::Connected => Result::Ok((r, ConnectStep::AlreadyConnected)),
                StatusView::Connecting => Result::Err(ErrView::Busy),
                _ => Result::Ok(
                    (
                        RegView {
                            entries: r.entries.update(
                                i,
                                entry_with(
                                    e,
                                    StatusView::Connecting,
                                    true,
                                    e.connected_since_ms,
                                    e.iface.config,
                                ),
                            ),
                            next_id: r.next_id,
                        },
                        ConnectStep::Dispatch,
                    ),
                ),
            }
        }
    }
}

/// `complete_connect`: ends the busy window opened by `request_connect`. On
/// adapter success the interface stays `Connecting` until the next fact
/// reports the link up; on adapter failure it moves to `Error` with the
/// reason, immediately.
pub open spec fn complete_connect_spec(
    r: RegView,
    name: Seq<char>,
    outcome: Result<(), Seq<char>>,
) -> Result<RegView, ErrView> {
    let i = find_idx(r.entries, name);
    if i < 0 {
        Result::Err(ErrView::NotFound)
    } else {
        let e = r.entries[i];
        if !e.busy {
            Result::Err(ErrView::ProtocolError)
        } else {
            let e2 = match outcome {
                Result::Ok(_) => entry_with(
                    e,
                    e.iface.status,
                    false,
                    e.connected_since_ms,
                    e.iface.config,
                ),
                Result::Err(reason) => entry_with(
                    e,
                    StatusView::Error(reason),
                    false,
                    Option::None,
                    e.iface.config,
                ),
            };
            Result::Ok(RegView { entries: r.entries.update(i, e2), next_id: r.next_id })
        }
    }
}

/// `request_disconnect`: valid only from `Connecting` or `Connected`, where
/// the interface becomes busy until the adapter acknowledges. A request
/// while busy is rejected with `Busy`; a request on an interface that is in
/// no session (`Disconnected` or `Error`) is invalid and refused with
/// `ProtocolError` — no adapter is invoked and nothing changes.
pub open spec fn request_disconnect_spec(r: RegView, name: Seq<char>) -> Result<RegView, ErrView> {
    let i = find_idx(r.entries, name);
    if i < 0 {
        Result::Err(ErrView::NotFound)
    } else {
        let e = r.entries[i];
        if e.busy {
            Result::Err(ErrView::Busy)
        } else {
            match e.iface.status {
                StatusView::Connecting | StatusView::Connected => Result::Ok(
                    RegView {
                        entries: r.entries.update(
                            i,
                            entry_with(
                                e,
                                e.iface.status,
                                true,
                                e.connected_since_ms,
                                e.iface.config,
                            ),
                        ),
                        next_id: r.next_id,
                    },
                ),
                _ => Result::Err(ErrView::ProtocolError),
            }
        }
    }
}

/// `complete_disconnect`: on acknowledgment the interface is `Disconnected`
/// and leaves any session (uptime stays frozen at its last value); on adapter
/// failure it moves to `Error` with the reason.
pub open spec fn complete_disconnect_spec(
    r: RegView,
    name: Seq<char>,
    outcome: Result<(), Seq<char>>,
) -> Result<RegView, ErrView> {
    let i = find_idx(r.entries, name);
    if i < 0 {
        Result::Err(ErrView::NotFound)
    } else {
        let e = r.entries[i];
        if !e.busy {
            Result::Err(ErrView::ProtocolError)
        } else {
            let e2 = match outcome {
                Result::Ok(_) => entry_with(
                    e,
                    StatusView::Disconnected,
                    false,
                    Option::None,
                    e.iface.config,
                ),
                Result::Err(reason) => entry_with(
                    e,
                    StatusView::Error(reason),
                    false,
                    Option::None,
                    e.iface.config,
                ),
            };
            Result::Ok(RegView { entries: r.entries.update(i, e2), next_id: r.next_id })
        }
    }
}

/// `request_configure`: valid when no mutation is in flight and the
/// configuration's family matches the interface's; the interface becomes busy
/// until the adapter outcome arrives. A configuration of the wrong family is
/// a data error, rejected with `ProtocolError`.
pub open spec fn request_configure_spec(r: RegView, name: Seq<char>, c: ConfigView) -> Result<
    RegView,
    ErrView,
> {
    let i = find_idx(r.entries, name);
    if i < 0 {
        Result::Err(ErrView::NotFound)
    } else {
        let e = r.entries[i];
        if e.busy {
            Result::Err(ErrView::Busy)
        } else if config_family(c) != e.iface.interface_type {
            Result::Err(ErrView::ProtocolError)
        } else {
            Result::Ok(
                RegView {
                    entries: r.entries.update(
                        i,
                        entry_with(e, e.iface.status, true, e.connected_since_ms, e.iface.config),
                    ),
                    next_id: r.next_id,
                },
            )
        }
    }
}

/// `complete_configure`: on adapter success the new configuration is stored;
/// on failure the interface moves to `Error` with the reason and keeps its
/// old configuration.
pub open spec fn complete_configure_spec(
    r: RegView,
    name: Seq<char>,
    c: ConfigView,
    outcome: Result<(), Seq<char>>,
) -> Result<RegView, ErrView> {
    let i = find_idx(r.entries, name);
    if i < 0 {
        Result::Err(ErrView::NotFound)
    } else {
        let e = r.entries[i];
        if !e.busy {
            Result::Err(ErrView::ProtocolError)
        } else {
            let e2 = match outcome {
                Result::Ok(_) => entry_with(e, e.iface.status, false, e.connected_since_ms, c),
                Result::Err(reason) => entry_with(
                    e,
                    StatusView::Error(reason),
                    false,
                    Option::None,
                    e.iface.config,
                ),
            };
            Result::Ok(RegView { entries: r.entries.update(i, e2), next_id: r.next_id })
        }
    }
}

/// The newer optional string when present, otherwise the older one.
fn pick_opt_string(newer: &Option<String>, older: &Option<String>) -> (r: Option<String>)
    ensures
        opt_view(r) == if opt_view(*newer) is Some {
            opt_view(*newer)
        } else {
            opt_view(*older)
        },
{
    match newer {
        Option::Some(s) => Option::Some(s.clone()),
        Option::None => duplicate_opt_string(older),
    }
}

/// The newer optional value when present, otherwise the older one.
fn pick_opt_u32(newer: Option<u32>, older: Option<u32>) -> (r: Option<u32>)
    ensures
        r == if newer is Some { newer } else { older },
{
    match newer {
        Option::Some(v) => Option::Some(v),
        Option::None => older,
    }
}

/// Executable form of `status_after_fact`.
fn status_after_fact_exec(st: &ConnectionStatus, link: Option<bool>) -> (r: ConnectionStatus)
    ensures
        r@ == status_after_fact(st@, link),
{
    match link {
        Option::Some(true) => ConnectionStatus::Connected,
        Option::Some(false) => ConnectionStatus::Disconnected,
        Option::None => match st {
            ConnectionStatus::Error(_) => ConnectionStatus::Disconnected,
            _ => st.duplicate(),
        },
    }
}

/// Executable form of `config_after_fact`.
fn config_after_fact_exec(c: &InterfaceConfig, f: &InterfaceFact) -> (r: InterfaceConfig)
    ensures
        r@ == config_after_fact(c@, f@),
{
    match c {
        InterfaceConfig::Ethernet { dhcp, ip, gateway, dns } => InterfaceConfig::Ethernet {
            dhcp: *dhcp,
            ip: pick_opt_string(&f.ip, ip),
            gateway: pick_opt_string(&f.gateway, gateway),
            dns: if f.dns.len() > 0 {
                duplicate_strings(&f.dns)
            } else {
                duplicate_strings(dns)
            },
        },
        InterfaceConfig::WiFi { ssid, security, dhcp, ip } => InterfaceConfig::WiFi {
            ssid: ssid.clone(),
            security: security.duplicate(),
            dhcp: *dhcp,
            ip: pick_opt_string(&f.ip, ip),
        },
        InterfaceConfig::VPN { .. } => c.duplicate(),
    }
}

/// Executable form of `default_config`.
fn default_config_exec(fam: InterfaceType, f: &InterfaceFact) -> (r: InterfaceConfig)
    ensures
        r@ == default_config(fam, f@),
{
    match fam {
        InterfaceType::WiFi => InterfaceConfig::WiFi {
            ssid: String::new(),
            security: crate::model::WiFiSecurity::Open,
            dhcp: true,
            ip: duplicate_opt_string(&f.ip),
        },
        InterfaceType::VPN => InterfaceConfig::VPN {
            provider: String::new(),
            config_path: String::new(),
            auto_connect: false,
        },
        _ => InterfaceConfig::Ethernet {
            dhcp: true,
            ip: duplicate_opt_string(&f.ip),
            gateway: duplicate_opt_string(&f.gateway),
            dns: duplicate_strings(&f.dns),
        },
    }
}

/// Executable form of `entry_after_fact`.
fn entry_after_fact_exec(e: &RegistryEntry, f: &InterfaceFact, now_ms: u64) -> (r: RegistryEntry)
    ensures
        r@ == entry_after_fact(e@, f@, now_ms),
{
    let new_st = status_after_fact_exec(&e.iface.status, f.link);
    let entering = matches!(new_st, ConnectionStatus::Connected) && !matches!(
        e.iface.status,
        ConnectionStatus::Connected,
    );
    let leaving = matches!(e.iface.status, ConnectionStatus::Connected) && !matches!(
        new_st,
        ConnectionStatus::Connected,
    );
    let since: Option<u64> = if entering {
        Option::Some(now_ms)
    } else if leaving {
        Option::None
    } else {
        e.connected_since_ms
    };
    let base_tx: u64 = if entering {
        f.counters.bytes_tx
    } else {
        e.session_base_tx
    };
    let base_rx: u64 = if entering {
        f.counters.bytes_rx
    } else {
        e.session_base_rx
    };
    let uptime: Option<u64> = if entering {
        Option::Some(0)
    } else if matches!(new_st, ConnectionStatus::Connected) {
        match e.connected_since_ms {
            Option::Some(t0) => Option::Some(sat_sub(now_ms, t0)),
            Option::None => Option::Some(0),
        }
    } else {
        e.iface.metrics.uptime_ms
    };
    RegistryEntry {
        iface: NetworkInterface {
            id: e.iface.id,
            name: e.iface.name.clone(),
            interface_type: e.iface.interface_type,
            status: new_st,
            config: config_after_fact_exec(&e.iface.config, f),
            metrics: NetworkMetrics {
                bytes_tx: f.counters.bytes_tx,
                bytes_rx: f.counters.bytes_rx,
                packets_tx: f.counters.packets_tx,
                packets_rx: f.counters.packets_rx,
                errors_tx: f.counters.errors_tx,
                errors_rx: f.counters.errors_rx,
                dropped_tx: f.counters.dropped_tx,
                dropped_rx: f.counters.dropped_rx,
                speed_up: e.iface.metrics.speed_up,
                speed_down: e.iface.metrics.speed_down,
                packets_per_sec_tx: e.iface.metrics.packets_per_sec_tx,
                packets_per_sec_rx: e.iface.metrics.packets_per_sec_rx,
                link_speed: pick_opt_u32(f.link_speed, e.iface.metrics.link_speed),
                duplex: pick_opt_string(&f.duplex, &e.iface.metrics.duplex),
                mtu: pick_opt_u32(f.mtu, e.iface.metrics.mtu),
                uptime_ms: uptime,
                total_session_tx: sat_sub(f.counters.bytes_tx, base_tx),
                total_session_rx: sat_sub(f.counters.bytes_rx, base_rx),
            },
        },
        busy: e.busy,
        connected_since_ms: since,
        session_base_tx: base_tx,
        session_base_rx: base_rx,
    }
}

/// Executable form of `entry_from_fact`.
fn entry_from_fact_exec(f: &InterfaceFact, fam: InterfaceType, id: u64, now_ms: u64) -> (r:
    RegistryEntry)
    requires
        !(fam is Unknown),
    ensures
        r@ == entry_from_fact(f@, fam, id, now_ms),
{
    let connected = matches!(f.link, Option::Some(true));
    let st = if connected {
        ConnectionStatus::Connected
    } else {
        ConnectionStatus::Disconnected
    };
    RegistryEntry {
        iface: NetworkInterface {
            id: id,
            name: f.name.clone(),
            interface_type: fam,
            status: st,
            config: default_config_exec(fam, f),
            metrics: NetworkMetrics {
                bytes_tx: f.counters.bytes_tx,
                bytes_rx: f.counters.bytes_rx,
                packets_tx: f.counters.packets_tx,
                packets_rx: f.counters.packets_rx,
                errors_tx: f.counters.errors_tx,
                errors_rx: f.counters.errors_rx,
                dropped_tx: f.counters.dropped_tx,
                dropped_rx: f.counters.dropped_rx,
                speed_up: 0,
                speed_down: 0,
                packets_per_sec_tx: 0,
                packets_per_sec_rx: 0,
                link_speed: f.link_speed,
                duplex: duplicate_opt_string(&f.duplex),
                mtu: f.mtu,
                uptime_ms: if connected {
                    Option::Some(0)
                } else {
                    Option::None
                },
                total_session_tx: 0,
                total_session_rx: 0,
            },
        },
        busy: false,
        connected_since_ms: if connected {
            Option::Some(now_ms)
        } else {
            Option::None
        },
        session_base_tx: f.counters.bytes_tx,
        session_base_rx: f.counters.bytes_rx,
    }
}

impl NetworkManager {
    /// Apply one adapter-reported fact at time `now_ms`, per
    /// `apply_fact_spec`: create the entity on first report, update it on
    /// later reports, replace it when the family changed, reject unknown
    /// families.
    pub fn apply_fact(&mut self, fact: &InterfaceFact, now_ms: u64) -> (r: Result<(), FactError>)
        requires
            old(self).wf(),
        ensures
            final(self).wf(),
            match apply_fact_spec(old(self)@, fact@, now_ms) {
                Result::Ok(v) => r is Ok && final(self)@ == v,
                Result::Err(e) => r == Result::Err::<(), FactError>(e) && final(self)@ == old(
                    self,
                )@,
            },
    {
        let fam = parse_family_tag(fact.family.as_str());
        if matches!(fam, InterfaceType::Unknown) {
            return Result::Err(FactError::UnknownFamily);
        }
        match self.find(fact.name.as_str()) {
            Option::Some(i) => {
                proof {
                    lemma_find_idx(self@.entries, fact.name@);
                }
                if self.entries[i].iface.interface_type == fam {
                    let e2 = entry_after_fact_exec(&self.entries[i], fact, now_ms);
                    self.entries.set(i, e2);
                } else {
                    let id = self.next_id;
                    self.next_id = if self.next_id < u64::MAX {
                        self.next_id + 1
                    } else {
                        self.next_id
                    };
                    let e2 = entry_from_fact_exec(fact, fam, id, now_ms);
                    self.entries.set(i, e2);
                }
                proof {
                    assert(final(self)@.entries =~= match apply_fact_spec(
                        old(self)@,
                        fact@,
                        now_ms,
                    ) {
                        Result::Ok(v) => v.entries,
                        Result::Err(_) => final(self)@.entries,
                    });
                    lemma_unique_after_update(old(self)@.entries, i as int, final(self)@.entries);
                }
                Result::Ok(())
            },
            Option::None => {
                proof {
                    lemma_find_idx(self@.entries, fact.name@);
                }
                let id = self.next_id;
                self.next_id = if self.next_id < u64::MAX {
                    self.next_id + 1
                } else {
                    self.next_id
                };
                let e2 = entry_from_fact_exec(fact, fam, id, now_ms);
                self.entries.push(e2);
                proof {
                    assert(final(self)@.entries =~= match apply_fact_spec(
                        old(self)@,
                        fact@,
                        now_ms,
                    ) {
                        Result::Ok(v) => v.entries,
                        Result::Err(_) => final(self)@.entries,
                    });
                    lemma_unique_after_push(old(self)@.entries, final(self)@.entries, fact.name@);
                }
                Result::Ok(())
            },
        }
    }
}

/// The spec-level image of an adapter outcome.
pub open spec fn outcome_view(o: Result<(), String>) -> Result<(), Seq<char>> {
    match o {
        Result::Ok(_) => Result::Ok(()),
        Result::Err(s) => Result::Err(s@),
    }
}

/// Executable form of `config_family`.
pub fn config_family_exec(c: &InterfaceConfig) -> (t: InterfaceType)
    ensures
        t == config_family(c@),
{
    match c {
        InterfaceConfig::Ethernet { .. } => InterfaceType::Ethernet,
        InterfaceConfig::WiFi { .. } => InterfaceType::WiFi,
        InterfaceConfig::VPN { .. } => InterfaceType::VPN,
    }
}

/// Executable form of `entry_with`.
fn entry_update(
    e: &RegistryEntry,
    st: ConnectionStatus,
    busy: bool,
    since: Option<u64>,
    cfg: InterfaceConfig,
) -> (r: RegistryEntry)
    ensures
        r@ == entry_with(e@, st@, busy, since, cfg@),
{
    RegistryEntry {
        iface: NetworkInterface {
            id: e.iface.id,
            name: e.iface.name.clone(),
            interface_type: e.iface.interface_type,
            status: st,
            config: cfg,
            metrics: e.iface.metrics.duplicate(),
        },
        busy: busy,
        connected_since_ms: since,
        session_base_tx: e.session_base_tx,
        session_base_rx: e.session_base_rx,
    }
}

impl NetworkManager {
    /// Begin a connect: see `request_connect_spec`.
    pub fn request_connect(&mut self, name: &str) -> (r: Result<ConnectStep, RegistryError>)
        requires
            old(self).wf(),
        ensures
            final(self).wf(),
            match request_connect_spec(old(self)@, name@) {
                Result::Ok((v, step)) => r is Ok && r->Ok_0 == step && final(self)@ == v,
                Result::Err(e) => r is Err && r->Err_0@ == e && final(self)@ == old(self)@,
            },
    {
        match self.find(name) {
            Option::None => Result::Err(RegistryError::NotFound),
            Option::Some(i) => {
                proof {
                    lemma_find_idx(self@.entries, name@);
                }
                if self.entries[i].busy {
                    Result::Err(RegistryError::Busy)
                } else if matches!(self.entries[i].iface.status, ConnectionStatus::Connected) {
                    Result::Ok(ConnectStep::AlreadyConnected)
                } else if matches!(self.entries[i].iface.status, ConnectionStatus::Connecting) {
                    Result::Err(RegistryError::Busy)
                } else {
                    let e2 = entry_update(
                        &self.entries[i],
                        ConnectionStatus::Connecting,
                        true,
                        self.entries[i].connected_since_ms,
                        self.entries[i].iface.config.duplicate(),
                    );
                    self.entries.set(i, e2);
                    proof {
                        lemma_unique_after_update(old(self)@.entries, i as int, self@.entries);
                        assert(self@.entries =~= old(self)@.entries.update(
                            i as int,
                            self@.entries[i as int],
                        ));
                    }
                    Result::Ok(ConnectStep::Dispatch)
                }
            },
        }
    }

    /// Finish a connect: see `complete_connect_spec`.
    pub fn complete_connect(&mut self, name: &str, outcome: Result<(), String>) -> (r: Result<
        (),
        RegistryError,
    >)
        requires
            old(self).wf(),
        ensures
            final(self).wf(),
            match complete_connect_spec(old(self)@, name@, outcome_view(outcome)) {
                Result::Ok(v) => r is Ok && final(self)@ == v,
                Result::Err(e) => r is Err && r->Err_0@ == e && final(self)@ == old(self)@,
            },
    {
        match self.find(name) {
            Option::None => Result::Err(RegistryError::NotFound),
            Option::Some(i) => {
                proof {
                    lemma_find_idx(self@.entries, name@);
                }
                if !self.entries[i].busy {
                    Result::Err(RegistryError::ProtocolError)
                } else {
                    let e2 = match outcome {
                        Result::Ok(_) => entry_update(
                            &self.entries[i],
                            self.entries[i].iface.status.duplicate(),
                            false,
                            self.entries[i].connected_since_ms,
                            self.entries[i].iface.config.duplicate(),
                        ),
                        Result::Err(reason) => entry_update(
                            &self.entries[i],
                            ConnectionStatus::Error(reason),
                            false,
                            Option::None,
                            self.entries[i].iface.config.duplicate(),
                        ),
                    };
                    self.entries.set(i, e2);
                    proof {
                        lemma_unique_after_update(old(self)@.entries, i as int, self@.entries);
                        assert(self@.entries =~= old(self)@.entries.update(
                            i as int,
                            self@.entries[i as int],
                        ));
                    }
                    Result::Ok(())
                }
            },
        }
    }

    /// Begin a disconnect: see `request_disconnect_spec`. `Ok` obliges the
    /// caller to invoke the matching adapter and report the outcome through
    /// `complete_disconnect`.
    pub fn request_disconnect(&mut self, name: &str) -> (r: Result<(), RegistryError>)
        requires
            old(self).wf(),
        ensures
            final(self).wf(),
            match request_disconnect_spec(old(self)@, name@) {
                Result::Ok(v) => r is Ok && final(self)@ == v,
                Result::Err(e) => r is Err && r->Err_0@ == e && final(self)@ == old(self)@,
            },
    {
        match self.find(name) {
            Option::None => Result::Err(RegistryError::NotFound),
            Option::Some(i) => {
                proof {
                    lemma_find_idx(self@.entries, name@);
                }
                if self.entries[i].busy {
                    Result::Err(RegistryError::Busy)
                } else if matches!(self.entries[i].iface.status, ConnectionStatus::Connecting)
                    || matches!(self.entries[i].iface.status, ConnectionStatus::Connected) {
                    let e2 = entry_update(
                        &self.entries[i],
                        self.entries[i].iface.status.duplicate(),
                        true,
                        self.entries[i].connected_since_ms,
                        self.entries[i].iface.config.duplicate(),
                    );
                    self.entries.set(i, e2);
                    proof {
                        lemma_unique_after_update(old(self)@.entries, i as int, self@.entries);
                        assert(self@.entries =~= old(self)@.entries.update(
                            i as int,
                            self@.entries[i as int],
                        ));
                    }
                    Result::Ok(())
                } else {
                    Result::Err(RegistryError::ProtocolError)
                }
            },
        }
    }

    /// Finish a disconnect: see `complete_disconnect_spec`.
    pub fn complete_disconnect(&mut self, name: &str, outcome: Result<(), String>) -> (r: Result<
        (),
        RegistryError,
    >)
        requires
            old(self).wf(),
        ensures
            final(self).wf(),
            match complete_disconnect_spec(old(self)@, name@, outcome_view(outcome)) {
                Result::Ok(v) => r is Ok && final(self)@ == v,
                Result::Err(e) => r is Err && r->Err_0@ == e && final(self)@ == old(self)@,
            },
    {
        match self.find(name) {
            Option::None => Result::Err(RegistryError::NotFound),
            Option::Some(i) => {
                proof {
                    lemma_find_idx(self@.entries, name@);
                }
                if !self.entries[i].busy {
                    Result::Err(RegistryError::ProtocolError)
                } else {
                    let e2 = match outcome {
                        Result::Ok(_) => entry_update(
                            &self.entries[i],
                            ConnectionStatus::Disconnected,
                            false,
                            Option::None,
                            self.entries[i].iface.config.duplicate(),
                        ),
                        Result::Err(reason) => entry_update(
                            &self.entries[i],
                            ConnectionStatus::Error(reason),
                            false,
                            Option::None,
                            self.entries[i].iface.config.duplicate(),
                        ),
                    };
                    self.entries.set(i, e2);
                    proof {
                        lemma_unique_after_update(old(self)@.entries, i as int, self@.entries);
                        assert(self@.entries =~= old(self)@.entries.update(
                            i as int,
                            self@.entries[i as int],
                        ));
                    }
                    Result::Ok(())
                }
            },
        }
    }

    /// Begin a configure: see `request_configure_spec`.
    pub fn request_configure(&mut self, name: &str, config: &InterfaceConfig) -> (r: Result<
        (),
        RegistryError,
    >)
        requires
            old(self).wf(),
        ensures
            final(self).wf(),
            match request_configure_spec(old(self)@, name@, config@) {
                Result::Ok(v) => r is Ok && final(self)@ == v,
                Result::Err(e) => r is Err && r->Err_0@ == e && final(self)@ == old(self)@,
            },
    {
        match self.find(name) {
            Option::None => Result::Err(RegistryError::NotFound),
            Option::Some(i) => {
                proof {
                    lemma_find_idx(self@.entries, name@);
                }
                if self.entries[i].busy {
                    Result::Err(RegistryError::Busy)
                } else if !(config_family_exec(config)
                    == self.entries[i].iface.interface_type) {
                    Result::Err(RegistryError::ProtocolError)
                } else {
                    let e2 = entry_update(
                        &self.entries[i],
                        self.entries[i].iface.status.duplicate(),
                        true,
                        self.entries[i].connected_since_ms,
                        self.entries[i].iface.config.duplicate(),
                    );
                    self.entries.set(i, e2);
                    proof {
                        lemma_unique_after_update(old(self)@.entries, i as int, self@.entries);
                        assert(self@.entries =~= old(self)@.entries.update(
                            i as int,
                            self@.entries[i as int],
                        ));
                    }
                    Result::Ok(())
                }
            },
        }
    }

    /// Finish a configure: see `complete_configure_spec`.
    pub fn complete_configure(
        &mut self,
        name: &str,
        config: &InterfaceConfig,
        outcome: Result<(), String>,
    ) -> (r: Result<(), RegistryError>)
        requires
            old(self).wf(),
        ensures
            final(self).wf(),
            match complete_configure_spec(old(self)@, name@, config@, outcome_view(outcome)) {
                Result::Ok(v) => r is Ok && final(self)@ == v,
                Result::Err(e) => r is Err && r->Err_0@ == e && final(self)@ == old(self)@,
            },
    {
        match self.find(name) {
            Option::None => Result::Err(RegistryError::NotFound),
            Option::Some(i) => {
                proof {
                    lemma_find_idx(self@.entries, name@);
                }
                if !self.entries[i].busy {
                    Result::Err(RegistryError::ProtocolError)
                } else {
                    let e2 = match outcome {
                        Result::Ok(_) => entry_update(
                            &self.entries[i],
                            self.entries[i].iface.status.duplicate(),
                            false,
                            self.entries[i].connected_since_ms,
                            config.duplicate(),
                        ),
                        Result::Err(reason) => entry_update(
                            &self.entries[i],
                            ConnectionStatus::Error(reason),
                            false,
                            Option::None,
                            self.entries[i].iface.config.duplicate(),
                        ),
                    };
                    self.entries.set(i, e2);
                    proof {
                        lemma_unique_after_update(old(self)@.entries, i as int, self@.entries);
                        assert(self@.entries =~= old(self)@.entries.update(
                            i as int,
                            self@.entries[i as int],
                        ));
                    }
                    Result::Ok(())
                }
            },
        }
    }

    /// Drop the entity named `name` when an adapter reports that the name no
    /// longer exists; reports whether anything was removed.
    pub fn remove_interface(&mut self, name: &str) -> (r: bool)
        requires
            old(self).wf(),
        ensures
            final(self).wf(),
            r == old(self)@.has(name@),
            r ==> final(self)@.entries == old(self)@.entries.remove(
                find_idx(old(self)@.entries, name@),
            ) && final(self)@.next_id == old(self)@.next_id,
            !r ==> final(self)@ == old(self)@,
    {
        match self.find(name) {
            Option::None => false,
            Option::Some(i) => {
                proof {
                    lemma_find_idx(self@.entries, name@);
                }
                self.entries.remove(i);
                proof {
                    assert(self@.entries =~= old(self)@.entries.remove(i as int));
                    lemma_unique_after_remove(old(self)@.entries, i as int, self@.entries);
                }
                true
            },
        }
    }
}

/// Removing an entry preserves name uniqueness.
proof fn lemma_unique_after_remove(s: Seq<EntryView>, i: int, t: Seq<EntryView>)
    requires
        unique_names(s),
        0 <= i < s.len(),
        t == s.remove(i),
    ensures
        unique_names(t),
{
    assert forall|a: int, b: int| 0 <= a < b < t.len() implies t[a].iface.name != t[b].iface.name
    by {
        let a2 = if a < i { a } else { a + 1 };
        let b2 = if b < i { b } else { b + 1 };
        assert(t[a] == s[a2]);
        assert(t[b] == s[b2]);
        assert(s[a2].iface.name != s[b2].iface.name);
    }
}

/// Updating an entry without changing its name preserves name uniqueness.
proof fn lemma_unique_after_update(s: Seq<EntryView>, i: int, t: Seq<EntryView>)
    requires
        unique_names(s),
        0 <= i < s.len(),
        t.len() == s.len(),
        t[i].iface.name == s[i].iface.name,
        forall|k: int| 0 <= k < s.len() && k != i ==> t[k] == s[k],
    ensures
        unique_names(t),
{
    assert forall|a: int, b: int| 0 <= a < b < t.len() implies t[a].iface.name != t[b].iface.name
    by {
        assert(s[a].iface.name != s[b].iface.name);
    }
}

/// Pushing an entry whose name is not yet present preserves name uniqueness.
proof fn lemma_unique_after_push(s: Seq<EntryView>, t: Seq<EntryView>, name: Seq<char>)
    requires
        unique_names(s),
        t.len() == s.len() + 1,
        forall|k: int| 0 <= k < s.len() ==> t[k] == s[k],
        t[s.len() as int].iface.name == name,
        forall|k: int| 0 <= k < s.len() ==> s[k].iface.name != name,
    ensures
        unique_names(t),
{
    assert forall|a: int, b: int| 0 <= a < b < t.len() implies t[a].iface.name != t[b].iface.name
    by {
        if b < s.len() {
            assert(s[a].iface.name != s[b].iface.name);
        } else {
            assert(s[a].iface.name != name);
        }
    }
}

/// `find_idx` looks only at names: two entry sequences with pointwise equal
/// names resolve every lookup to the same index.
pub proof fn lemma_find_idx_same_names(s: Seq<EntryView>, t: Seq<EntryView>, n: Seq<char>)
    requires
        s.len() == t.len(),
        forall|k: int| 0 <= k < s.len() ==> s[k].iface.name == t[k].iface.name,
    ensures
        find_idx(s, n) == find_idx(t, n),
    decreases s.len(),
{
    if s.len() > 0 {
        let s2 = s.drop_first();
        let t2 = t.drop_first();
        assert(forall|k: int| 0 <= k < s2.len() ==> s2[k] == s[k + 1] && t2[k] == t[k + 1]);
        lemma_find_idx_same_names(s2, t2, n);
    }
}

/// How a lookup resolves after a push: an already-present name resolves as
/// before; the pushed entry's name resolves to the new slot; all else stays
/// absent.
pub proof fn lemma_find_idx_push(s: Seq<EntryView>, e: EntryView, n: Seq<char>)
    ensures
        find_idx(s, n) >= 0 ==> find_idx(s.push(e), n) == find_idx(s, n),
        find_idx(s, n) < 0 && e.iface.name == n ==> find_idx(s.push(e), n) == s.len(),
        find_idx(s, n) < 0 && e.iface.name != n ==> find_idx(s.push(e), n) == -1,
    decreases s.len(),
{
    if s.len() > 0 && s[0].iface.name != n {
        let s2 = s.drop_first();
        assert(forall|k: int| 0 <= k < s2.len() ==> s2[k] == s[k + 1]);
        lemma_find_idx_push(s2, e, n);
        assert(find_idx(s, n) == (if find_idx(s2, n) < 0 {
            -1int
        } else {
            find_idx(s2, n) + 1
        }));
        let sp = s.push(e);
        assert(sp[0] == s[0]);
        assert(sp.drop_first() =~= s2.push(e));
        assert(find_idx(sp, n) == (if find_idx(s2.push(e), n) < 0 {
            -1int
        } else {
            find_idx(s2.push(e), n) + 1
        }));
    } else if s.len() > 0 {
        assert(find_idx(s, n) == 0);
        assert(s.push(e)[0] == s[0]);
        assert(find_idx(s.push(e), n) == 0);
    } else {
        assert(find_idx(s, n) == -1);
        assert(s.push(e)[0] == e);
        if e.iface.name != n {
            assert(s.push(e).drop_first() =~= Seq::<EntryView>::empty());
            assert(find_idx(s.push(e).drop_first(), n) == -1);
            assert(find_idx(s.push(e), n) == -1);
        } else {
            assert(find_idx(s.push(e), n) == 0);
        }
    }
}

/// Everything present after a fact application was present before, or is the
/// fact's own name, which is then present; no other operation of the
/// registry introduces a name. Together with `get_interface`'s contract this
/// says that a name never reported by any adapter is never present: a lookup
/// returns nothing and a telemetry request for it is answered `NotFound`.
pub proof fn lemma_apply_fact_names(r: RegView, f: FactView, now_ms: u64)
    requires
        apply_fact_spec(r, f, now_ms) is Ok,
    ensures
        forall|n: Seq<char>|
            (#[trigger] apply_fact_spec(r, f, now_ms)->Ok_0.has(n)) <==> (r.has(n) || n
                == f.name),
{
    let fam = family_of_tag(f.family);
    let i = find_idx(r.entries, f.name);
    lemma_find_idx(r.entries, f.name);
    let r2 = apply_fact_spec(r, f, now_ms)->Ok_0;
    assert forall|n: Seq<char>| (#[trigger] r2.has(n)) <==> (r.has(n) || n == f.name) by {
        if i >= 0 {
            assert(forall|k: int|
                0 <= k < r.entries.len() ==> r2.entries[k].iface.name
                    == r.entries[k].iface.name);
            lemma_find_idx_same_names(r.entries, r2.entries, n);
        } else {
            lemma_find_idx_push(r.entries, r2.entries[r.entries.len() as int], n);
            assert(r2.entries =~= r.entries.push(r2.entries[r.entries.len() as int]));
        }
    }
}

/// The empty registry has nothing in it: no name is present before the first
/// adapter report.
pub proof fn lemma_empty_has_none(r: RegView, n: Seq<char>)
    requires
        r.entries.len() == 0,
    ensures
        !r.has(n),
{
}

/// Applying the same fact twice in a row is idempotent: the second
/// application succeeds and leaves the whole registry state exactly as the
/// first left it — in particular status, counters, session baselines and the
/// connected-since mark are unchanged, so the uptime is not reset by a
/// duplicate `Connected` report.
pub proof fn lemma_apply_fact_idempotent(r: RegView, f: FactView, now_ms: u64)
    requires
        apply_fact_spec(r, f, now_ms) is Ok,
    ensures
        ({
            let r1 = apply_fact_spec(r, f, now_ms)->Ok_0;
            apply_fact_spec(r1, f, now_ms) == Result::<RegView, FactError>::Ok(r1)
        }),
{
    let fam = family_of_tag(f.family);
    let i = find_idx(r.entries, f.name);
    lemma_find_idx(r.entries, f.name);
    let r1 = apply_fact_spec(r, f, now_ms)->Ok_0;
    let j = if i >= 0 {
        i
    } else {
        r.entries.len() as int
    };
    // the second application resolves the fact to the same entry
    if i >= 0 {
        assert(forall|k: int|
            0 <= k < r.entries.len() ==> r1.entries[k].iface.name == r.entries[k].iface.name);
        lemma_find_idx_same_names(r.entries, r1.entries, f.name);
    } else {
        lemma_find_idx_push(r.entries, r1.entries[j], f.name);
        assert(r1.entries =~= r.entries.push(r1.entries[j]));
    }
    assert(find_idx(r1.entries, f.name) == j);
    let e1 = r1.entries[j];
    assert(e1.iface.interface_type == fam);
    let e2 = entry_after_fact(e1, f, now_ms);
    // a second application changes nothing in the entry
    assert(e2.iface.status == e1.iface.status);
    assert(e2 == e1);
    assert(r1.entries.update(j, e2) =~= r1.entries);
}

/// Serialization of concurrent connects: once a connect has been dispatched
/// for a name, a second connect request for the same name is rejected with
/// `Busy` and changes nothing, so at most one adapter operation is in flight
/// per interface.
pub proof fn lemma_second_connect_busy(r: RegView, name: Seq<char>)
    requires
        request_connect_spec(r, name) is Ok,
        request_connect_spec(r, name)->Ok_0.1 == ConnectStep::Dispatch,
    ensures
        ({
            let r1 = request_connect_spec(r, name)->Ok_0.0;
            request_connect_spec(r1, name) == Result::<(RegView, ConnectStep), ErrView>::Err(
                ErrView::Busy,
            )
        }),
{
    let i = find_idx(r.entries, name);
    lemma_find_idx(r.entries, name);
    let r1 = request_connect_spec(r, name)->Ok_0.0;
    assert(forall|k: int|
        0 <= k < r.entries.len() ==> r1.entries[k].iface.name == r.entries[k].iface.name);
    lemma_find_idx_same_names(r.entries, r1.entries, name);
    assert(r1.entries[i].busy);
}

/// `find_idx` equals `i` when `s[i]` is named `name` and no earlier entry is.
pub proof fn lemma_find_idx_at(s: Seq<EntryView>, name: Seq<char>, i: int)
    requires
        0 <= i < s.len(),
        s[i].iface.name == name,
        forall|k: int| 0 <= k < i ==> s[k].iface.name != name,
    ensures
        find_idx(s, name) == i,
    decreases s.len(),
{
    if i > 0 {
        let t = s.drop_first();
        assert(forall|k: int| 0 <= k < t.len() ==> t[k] == s[k + 1]);
        lemma_find_idx_at(t, name, i - 1);
    }
}

} // verus!
