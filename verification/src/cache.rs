//! The client-side state: a mirror of the daemon's interface list kept in
//! display order, the focused-panel cursor, and a bounded rolling history of
//! rate samples for charting.
//!
//! The cache never synthesizes interfaces: `refresh_data` replaces the list
//! wholesale with what the daemon reported (transplanting locally tracked
//! uptime), and `update_metrics` refreshes counters and rates in place.

use vstd::prelude::*;
use vstd::pervasive::VecAdditionalExecFns;
use vstd::seq_lib::group_to_multiset_ensures;
use vstd::seq_lib::to_multiset_insert;
use vstd::seq_lib::to_multiset_remove;
use vstd::seq_lib::to_multiset_contains;

use crate::model::{
    NetworkInterface, NetworkMetrics, IfaceView, MetricsView, StatusView, family_priority,
    sat_sub_spec, sat_sub,
};
use crate::metrics::{NetworkMonitor, MonitorEntryView, ifaces_view, update_speeds_spec};
use crate::text::{lex_le, lemma_lex_le_total, lemma_lex_le_trans, str_le};

verus! {

/// Which panel of the client has input focus.
#[derive(Clone, Copy, Debug, PartialEq, Eq, Structural)]
pub enum FocusedPanel {
    Interfaces,
    Management,
    Telemetry,
}

/// The display order: family priority first (Ethernet, WiFi, VPN, other),
/// names in lexical order within a family.
pub open spec fn display_le(a: IfaceView, b: IfaceView) -> bool {
    family_priority(a.interface_type) < family_priority(b.interface_type) || (family_priority(
        a.interface_type,
    ) == family_priority(b.interface_type) && lex_le(a.name, b.name))
}

/// The list is in display order.
pub open spec fn sorted_by_display(s: Seq<IfaceView>) -> bool {
    forall|i: int, j: int| 0 <= i < j < s.len() ==> display_le(s[i], s[j])
}

/// The display order is total.
pub proof fn lemma_display_le_total(a: IfaceView, b: IfaceView)
    ensures
        display_le(a, b) || display_le(b, a),
{
    lemma_lex_le_total(a.name, b.name);
}

/// The display order is transitive.
pub proof fn lemma_display_le_trans(a: IfaceView, b: IfaceView, c: IfaceView)
    requires
        display_le(a, b),
        display_le(b, c),
    ensures
        display_le(a, c),
{
    if family_priority(a.interface_type) == family_priority(b.interface_type) && family_priority(
        b.interface_type,
    ) == family_priority(c.interface_type) {
        lemma_lex_le_trans(a.name, b.name, c.name);
    }
}

/// Executable form of `display_le`.
pub fn display_le_exec(a: &NetworkInterface, b: &NetworkInterface) -> (r: bool)
    ensures
        r == display_le(a@, b@),
{
    let pa = a.interface_type.priority();
    let pb = b.interface_type.priority();
    if pa < pb {
        true
    } else if pa == pb {
        str_le(a.name.as_str(), b.name.as_str())
    } else {
        false
    }
}

/// Sort a list into display order; the result holds exactly the input
/// interfaces.
pub fn sort_interfaces(v: &mut Vec<NetworkInterface>)
    ensures
        final(v)@.len() == old(v)@.len(),
        ifaces_view(final(v)@).to_multiset() == ifaces_view(old(v)@).to_multiset(),
        sorted_by_display(ifaces_view(final(v)@)),
{
    broadcast use group_to_multiset_ensures;
    broadcast use to_multiset_insert;
    broadcast use to_multiset_remove;
    broadcast use to_multiset_contains;

    let ghost orig = ifaces_view(old(v)@);
    if v.len() == 0 {
        return;
    }
    let mut i: usize = 1;
    while i < v.len()
        invariant
            1 <= i <= v@.len(),
            v@.len() == old(v)@.len(),
            ifaces_view(v@).to_multiset() == orig.to_multiset(),
            orig == ifaces_view(old(v)@),
            forall|a: int, b: int| 0 <= a < b < i ==> display_le(
                ifaces_view(v@)[a],
                ifaces_view(v@)[b],
            ),
        decreases v@.len() - i,
    {
        let mut j: usize = i;
        while j > 0 && !display_le_exec(&v[j - 1], &v[j])
            invariant
                0 <= j <= i < v@.len(),
                v@.len() == old(v)@.len(),
                ifaces_view(v@).to_multiset() == orig.to_multiset(),
                orig == ifaces_view(old(v)@),
                forall|a: int, b: int| 0 <= a < b <= i && b != j ==> display_le(
                    ifaces_view(v@)[a],
                    ifaces_view(v@)[b],
                ),
            decreases j,
        {
            let ghost pre = ifaces_view(v@);
            proof {
                lemma_display_le_total(pre[j - 1], pre[j as int]);
            }
            let x = v.remove(j);
            v.insert(j - 1, x);
            proof {
                let post = ifaces_view(v@);
                assert(post =~= pre.update(j as int, pre[j - 1]).update(j - 1, pre[j as int]));
                assert(pre.remove(j as int).insert(j - 1, pre[j as int]) =~= post);
                to_multiset_remove(pre, j as int);
                to_multiset_insert(pre.remove(j as int), j - 1, pre[j as int]);
                assert(post.to_multiset() == pre.to_multiset().remove(pre[j as int]).insert(
                    pre[j as int],
                ));
                to_multiset_contains(pre, pre[j as int]);
                assert(pre.to_multiset().contains(pre[j as int]));
                assert(post.to_multiset() =~= pre.to_multiset());
                assert forall|a: int, b: int|
                    0 <= a < b <= i && b != j - 1 implies display_le(post[a], post[b]) by {
                    if a == j - 1 {
                        assert(post[a] == pre[j as int]);
                        if b == j {
                            assert(post[b] == pre[j - 1]);
                        } else {
                            assert(post[b] == pre[b]);
                            assert(display_le(pre[j as int], pre[b]));
                        }
                    } else if a == j {
                        assert(post[a] == pre[j - 1]);
                        assert(post[b] == pre[b]);
                        assert(display_le(pre[j - 1], pre[b]));
                    } else {
                        assert(post[a] == pre[a]);
                        if b == j {
                            assert(post[b] == pre[j - 1]);
                            assert(display_le(pre[a], pre[j - 1]));
                        } else {
                            assert(post[b] == pre[b]);
                            assert(display_le(pre[a], pre[b]));
                        }
                    }
                }
            }
            j = j - 1;
        }
        proof {
            let s = ifaces_view(v@);
            assert forall|a: int, b: int| 0 <= a < b <= i implies display_le(s[a], s[b]) by {
                if b == j {
                    if a == j - 1 {
                    } else {
                        assert(display_le(s[a], s[j - 1]));
                        lemma_display_le_trans(s[a], s[j - 1], s[j as int]);
                    }
                }
            }
        }
        i = i + 1;
    }
}

/// Bound on the rolling rate-sample history.
pub const HISTORY_CAPACITY: usize = 50;

/// Index of the first interface named `name`, or -1 if none is.
pub open spec fn find_iface_idx(s: Seq<IfaceView>, name: Seq<char>) -> int
    decreases s.len(),
{
    if s.len() == 0 {
        -1
    } else if s[0].name == name {
        0
    } else {
        let r = find_iface_idx(s.drop_first(), name);
        if r < 0 {
            -1
        } else {
            r + 1
        }
    }
}

/// `find_iface_idx` returns either -1, with no interface named `name`, or
/// the first index of one.
pub proof fn lemma_find_iface_idx(s: Seq<IfaceView>, name: Seq<char>)
    ensures
        find_iface_idx(s, name) == -1 ==> forall|k: int| 0 <= k < s.len() ==> s[k].name != name,
        find_iface_idx(s, name) >= 0 ==> find_iface_idx(s, name) < s.len() && s[find_iface_idx(
            s,
            name,
        )].name == name && forall|k: int| 0 <= k < find_iface_idx(s, name) ==> s[k].name != name,
    decreases s.len(),
{
    if s.len() > 0 && s[0].name != name {
        let t = s.drop_first();
        lemma_find_iface_idx(t, name);
        assert(forall|k: int| 0 <= k < t.len() ==> t[k] == s[k + 1]);
        let r = find_iface_idx(t, name);
        if r < 0 {
            assert forall|k: int| 0 <= k < s.len() implies s[k].name != name by {
                if k > 0 {
                    assert(t[k - 1] == s[k]);
                }
            }
        } else {
            assert(s[r + 1] == t[r]);
            assert forall|k: int| 0 <= k < r + 1 implies s[k].name != name by {
                if k > 0 {
                    assert(t[k - 1] == s[k]);
                }
            }
        }
    }
}

/// `find_iface_idx` equals `i` when `s[i]` is named `name` and no earlier
/// interface is.
pub proof fn lemma_find_iface_idx_at(s: Seq<IfaceView>, name: Seq<char>, i: int)
    requires
        0 <= i < s.len(),
        s[i].name == name,
        forall|k: int| 0 <= k < i ==> s[k].name != name,
    ensures
        find_iface_idx(s, name) == i,
    decreases s.len(),
{
    if i > 0 {
        let t = s.drop_first();
        assert(forall|k: int| 0 <= k < t.len() ==> t[k] == s[k + 1]);
        lemma_find_iface_idx_at(t, name, i - 1);
    }
}

/// Index of the interface named `name` in the list, if one is present.
pub fn find_by_name(v: &Vec<NetworkInterface>, name: &str) -> (r: Option<usize>)
    ensures
        match r {
            Option::Some(i) => find_iface_idx(ifaces_view(v@), name@) == i as int,
            Option::None => find_iface_idx(ifaces_view(v@), name@) == -1,
        },
{
    proof {
        lemma_find_iface_idx(ifaces_view(v@), name@);
    }
    let n = name.to_owned();
    let mut i: usize = 0;
    while i < v.len()
        invariant
            i <= v.len(),
            n@ == name@,
            forall|k: int| 0 <= k < i ==> ifaces_view(v@)[k].name != name@,
        decreases v.len() - i,
    {
        if v[i].name.eq(&n) {
            proof {
                lemma_find_iface_idx_at(ifaces_view(v@), name@, i as int);
            }
            return Option::Some(i);
        }
        i = i + 1;
    }
    Option::None
}

/// An interface with its uptime replaced and everything else kept.
pub open spec fn with_uptime(i: IfaceView, u: Option<u64>) -> IfaceView {
    IfaceView { metrics: MetricsView { uptime_ms: u, ..i.metrics }, ..i }
}

/// Executable form of `with_uptime`.
fn with_uptime_exec(i: &NetworkInterface, u: Option<u64>) -> (r: NetworkInterface)
    ensures
        r@ == with_uptime(i@, u),
{
    let mut m = i.metrics.duplicate();
    m.uptime_ms = u;
    NetworkInterface {
        id: i.id,
        name: i.name.clone(),
        interface_type: i.interface_type,
        status: i.status.duplicate(),
        config: i.config.duplicate(),
        metrics: m,
    }
}

/// A freshly fetched list with locally tracked uptime carried over from the
/// previous cache: an item whose name the previous cache holds keeps the
/// previous uptime value.
pub open spec fn transplant_uptime(fresh: Seq<IfaceView>, prev: Seq<IfaceView>) -> Seq<IfaceView> {
    Seq::new(
        fresh.len(),
        |k: int|
            {
                let i = find_iface_idx(prev, fresh[k].name);
                if i >= 0 {
                    with_uptime(fresh[k], prev[i].metrics.uptime_ms)
                } else {
                    fresh[k]
                }
            },
    )
}

/// The cache after a metrics re-fetch: each cached interface whose name the
/// fetch reported is replaced by the fresh record, keeping the cached uptime;
/// cached interfaces the fetch did not mention stay; fetched names not in the
/// cache are not added.
pub open spec fn merge_fresh(cache: Seq<IfaceView>, fresh: Seq<IfaceView>) -> Seq<IfaceView> {
    Seq::new(
        cache.len(),
        |k: int|
            {
                let i = find_iface_idx(fresh, cache[k].name);
                if i >= 0 {
                    with_uptime(fresh[i], cache[k].metrics.uptime_ms)
                } else {
                    cache[k]
                }
            },
    )
}

/// The rolling history after one sample: appended at the tail, with the
/// oldest entry evicted once the capacity is passed.
pub open spec fn push_history(h: Seq<(u64, u64)>, p: (u64, u64)) -> Seq<(u64, u64)> {
    let h2 = h.push(p);
    if h2.len() > HISTORY_CAPACITY as int {
        h2.drop_first()
    } else {
        h2
    }
}

/// History bounding: starting within capacity, one more sample never leaves
/// more than the capacity behind, and what remains is exactly the most
/// recent samples in arrival order.
pub proof fn lemma_history_bounded(h: Seq<(u64, u64)>, p: (u64, u64))
    requires
        h.len() <= HISTORY_CAPACITY as int,
    ensures
        ({
            let r = push_history(h, p);
            &&& r.len() == if h.len() < HISTORY_CAPACITY as int {
                (h.len() + 1) as int
            } else {
                HISTORY_CAPACITY as int
            }
            &&& r == h.push(p).skip(h.push(p).len() - r.len())
        }),
{
    let r = push_history(h, p);
    if h.len() < HISTORY_CAPACITY as int {
        assert(h.push(p).skip(0) =~= h.push(p));
    } else {
        assert(h.push(p).drop_first() =~= h.push(p).skip(1));
    }
}

/// Spec-level counterpart of `App`.
pub ghost struct AppView {
    pub interfaces: Seq<IfaceView>,
    pub selected_interface: usize,
    pub focused_panel: FocusedPanel,
    pub telemetry_active: bool,
    pub connection_time_ms: Option<u64>,
    pub traffic_history: Seq<(u64, u64)>,
    pub monitor: Seq<MonitorEntryView>,
}

/// The client-side application state.
pub struct App {
    /// The mirrored interface list, in display order after a refresh.
    pub interfaces: Vec<NetworkInterface>,
    /// Cursor into `interfaces`.
    pub selected_interface: usize,
    pub focused_panel: FocusedPanel,
    /// Whether any mirrored interface is connected, as of the last refresh.
    pub telemetry_active: bool,
    /// When the client first saw a connected interface, while one stays
    /// connected.
    pub connection_time_ms: Option<u64>,
    /// Rolling `(speed_up, speed_down)` samples of the selected interface.
    pub traffic_history: Vec<(u64, u64)>,
    pub network_monitor: NetworkMonitor,
}

impl View for App {
    type V = AppView;

    open spec fn view(&self) -> AppView {
        AppView {
            interfaces: ifaces_view(self.interfaces@),
            selected_interface: self.selected_interface,
            focused_panel: self.focused_panel,
            telemetry_active: self.telemetry_active,
            connection_time_ms: self.connection_time_ms,
            traffic_history: self.traffic_history@,
            monitor: self.network_monitor@,
        }
    }
}

/// The cache after a metrics tick: fresh records merged in, rates swept, and
/// — while telemetry is active and the selection valid — one history sample
/// appended and the selected connected interface's uptime advanced.
pub open spec fn update_metrics_spec(a: AppView, fresh: Seq<IfaceView>, now_ms: u64) -> AppView {
    let merged = merge_fresh(a.interfaces, fresh);
    let stepped = update_speeds_spec(a.monitor, merged, now_ms);
    let ifs = stepped.1;
    let sel = a.selected_interface as int;
    let can = a.telemetry_active && sel < ifs.len();
    let hist = if can {
        push_history(a.traffic_history, (ifs[sel].metrics.speed_up, ifs[sel].metrics.speed_down))
    } else {
        a.traffic_history
    };
    let connected_sel = can && ifs[sel].status is Connected;
    let conn = if connected_sel && a.connection_time_ms is None {
        Option::Some(now_ms)
    } else {
        a.connection_time_ms
    };
    let ifs2 = if connected_sel {
        let u = match a.connection_time_ms {
            Option::Some(t0) => sat_sub_spec(now_ms, t0),
            Option::None => 0u64,
        };
        ifs.update(sel, with_uptime(ifs[sel], Option::Some(u)))
    } else {
        ifs
    };
    AppView {
        interfaces: ifs2,
        traffic_history: hist,
        connection_time_ms: conn,
        monitor: stepped.0,
        ..a
    }
}

impl App {
    /// The history never outgrows its capacity.
    pub open spec fn wf(&self) -> bool {
        self.traffic_history@.len() <= HISTORY_CAPACITY as int
    }

    /// An empty client state: nothing mirrored, nothing selected, interface
    /// panel focused.
    pub fn new() -> (r: App)
        ensures
            r.wf(),
            r@.interfaces == Seq::<IfaceView>::empty(),
            r@.selected_interface == 0,
            r@.focused_panel == FocusedPanel::Interfaces,
            !r@.telemetry_active,
            r@.connection_time_ms is None,
            r@.traffic_history == Seq::<(u64, u64)>::empty(),
            r@.monitor == Seq::<MonitorEntryView>::empty(),
    {
        let r = App {
            interfaces: Vec::new(),
            selected_interface: 0,
            focused_panel: FocusedPanel::Interfaces,
            telemetry_active: false,
            connection_time_ms: Option::None,
            traffic_history: Vec::new(),
            network_monitor: NetworkMonitor::new(),
        };
        proof {
            assert(r@.interfaces =~= Seq::<IfaceView>::empty());
        }
        r
    }

    /// Move the selection up, wrapping to the bottom.
    pub fn previous_interface(&mut self)
        ensures
            final(self).interfaces == old(self).interfaces,
            final(self).selected_interface == if old(self).interfaces@.len() == 0 {
                old(self).selected_interface as int
            } else if old(self).selected_interface == 0 {
                old(self).interfaces@.len() - 1
            } else {
                old(self).selected_interface - 1
            },
            final(self).focused_panel == old(self).focused_panel,
            final(self).telemetry_active == old(self).telemetry_active,
            final(self).connection_time_ms == old(self).connection_time_ms,
            final(self).traffic_history == old(self).traffic_history,
            final(self).network_monitor == old(self).network_monitor,
    {
        if self.interfaces.len() > 0 {
            if self.selected_interface == 0 {
                self.selected_interface = self.interfaces.len() - 1;
            } else {
                self.selected_interface = self.selected_interface - 1;
            }
        }
    }

    /// Move the selection down, wrapping to the top.
    pub fn next_interface(&mut self)
        ensures
            final(self).interfaces == old(self).interfaces,
            final(self).selected_interface == if old(self).interfaces@.len() == 0 {
                old(self).selected_interface as int
            } else if old(self).selected_interface + 1 >= old(self).interfaces@.len() {
                0int
            } else {
                old(self).selected_interface + 1
            },
            final(self).focused_panel == old(self).focused_panel,
            final(self).telemetry_active == old(self).telemetry_active,
            final(self).connection_time_ms == old(self).connection_time_ms,
            final(self).traffic_history == old(self).traffic_history,
            final(self).network_monitor == old(self).network_monitor,
    {
        if self.interfaces.len() > 0 {
            if self.selected_interface >= self.interfaces.len() - 1 {
                self.selected_interface = 0;
            } else {
                self.selected_interface = self.selected_interface + 1;
            }
        }
    }

    /// Cycle the focused panel.
    pub fn next_panel(&mut self)
        ensures
            final(self).focused_panel == match old(self).focused_panel {
                FocusedPanel::Interfaces => FocusedPanel::Management,
                FocusedPanel::Management => FocusedPanel::Telemetry,
                FocusedPanel::Telemetry => FocusedPanel::Interfaces,
            },
            final(self).interfaces == old(self).interfaces,
            final(self).selected_interface == old(self).selected_interface,
            final(self).telemetry_active == old(self).telemetry_active,
            final(self).connection_time_ms == old(self).connection_time_ms,
            final(self).traffic_history == old(self).traffic_history,
            final(self).network_monitor == old(self).network_monitor,
    {
        self.focused_panel = match self.focused_panel {
            FocusedPanel::Interfaces => FocusedPanel::Management,
            FocusedPanel::Management => FocusedPanel::Telemetry,
            FocusedPanel::Telemetry => FocusedPanel::Interfaces,
        };
    }

    /// The request that toggles the selected interface's connection: a
    /// disconnect while it is in (or entering) a session, a connect
    /// otherwise; nothing when the selection is out of range.
    pub fn toggle_connection_request(&self) -> (r: Option<crate::protocol::Request>)
        ensures
            match r {
                Option::Some(q) => self.selected_interface < self.interfaces@.len() && q@ == ({
                    let i = self.interfaces@[self.selected_interface as int]@;
                    if i.status is Connected || i.status is Connecting {
                        crate::protocol::RequestView::DisconnectInterface { name: i.name }
                    } else {
                        crate::protocol::RequestView::ConnectInterface { name: i.name }
                    }
                }),
                Option::None => self.selected_interface >= self.interfaces@.len(),
            },
    {
        if self.selected_interface < self.interfaces.len() {
            let i = &self.interfaces[self.selected_interface];
            if matches!(i.status, crate::model::ConnectionStatus::Connected) || matches!(
                i.status,
                crate::model::ConnectionStatus::Connecting,
            ) {
                Option::Some(
                    crate::protocol::Request::DisconnectInterface { name: i.name.clone() },
                )
            } else {
                Option::Some(crate::protocol::Request::ConnectInterface { name: i.name.clone() })
            }
        } else {
            Option::None
        }
    }

    /// The selected interface, when the selection is in range.
    pub fn get_selected_interface(&self) -> (r: Option<&NetworkInterface>)
        ensures
            match r {
                Option::Some(i) => self.selected_interface < self.interfaces@.len() && *i
                    == self.interfaces@[self.selected_interface as int],
                Option::None => self.selected_interface >= self.interfaces@.len(),
            },
    {
        if self.selected_interface < self.interfaces.len() {
            Option::Some(&self.interfaces[self.selected_interface])
        } else {
            Option::None
        }
    }

    /// Replace the mirror with a freshly fetched list: carry locally tracked
    /// uptime over by name, sort into display order, recompute whether
    /// telemetry is active, start or drop the connection clock, and clamp an
    /// out-of-range selection.
    pub fn refresh_data(&mut self, fresh: Vec<NetworkInterface>, now_ms: u64)
        requires
            old(self).wf(),
        ensures
            final(self).wf(),
            ({
                let t = transplant_uptime(ifaces_view(fresh@), old(self)@.interfaces);
                &&& final(self)@.interfaces.to_multiset() == t.to_multiset()
                &&& sorted_by_display(final(self)@.interfaces)
                &&& final(self)@.interfaces.len() == fresh@.len()
            }),
            ({
                let ifs = final(self)@.interfaces;
                final(self).telemetry_active == (exists|k: int|
                    0 <= k < ifs.len() && (#[trigger] ifs[k]).status is Connected)
            }),
            final(self).connection_time_ms == if final(self).telemetry_active {
                if old(self).connection_time_ms is Some {
                    old(self).connection_time_ms
                } else {
                    Option::Some(now_ms)
                }
            } else {
                Option::<u64>::None
            },
            final(self).selected_interface as int == if old(self).selected_interface as int
                >= fresh@.len() && fresh@.len() > 0 {
                0int
            } else {
                old(self).selected_interface as int
            },
            final(self).focused_panel == old(self).focused_panel,
            final(self).traffic_history == old(self).traffic_history,
            final(self).network_monitor == old(self).network_monitor,
    {
        let ghost prev = self@.interfaces;
        let mut list = fresh;
        let ghost fresh_views = ifaces_view(list@);
        let mut k: usize = 0;
        while k < list.len()
            invariant
                k <= list@.len(),
                list@.len() == fresh_views.len(),
                prev == self@.interfaces,
                forall|x: int| k <= x < list@.len() ==> list@[x]@ == fresh_views[x],
                forall|x: int| 0 <= x < k ==> list@[x]@ == transplant_uptime(
                    fresh_views,
                    prev,
                )[x],
            decreases list@.len() - k,
        {
            match find_by_name(&self.interfaces, list[k].name.as_str()) {
                Option::Some(i) => {
                    proof {
                        lemma_find_iface_idx(prev, list@[k as int]@.name);
                    }
                    let u = self.interfaces[i].metrics.uptime_ms;
                    let item = with_uptime_exec(&list[k], u);
                    list.set(k, item);
                },
                Option::None => {},
            }
            k = k + 1;
        }
        proof {
            assert(ifaces_view(list@) =~= transplant_uptime(fresh_views, prev));
        }
        sort_interfaces(&mut list);
        self.interfaces = list;
        let mut any: bool = false;
        let mut j: usize = 0;
        while j < self.interfaces.len()
            invariant
                j <= self.interfaces@.len(),
                any == (exists|k2: int|
                    0 <= k2 < j && (#[trigger] ifaces_view(
                        self.interfaces@,
                    )[k2]).status is Connected),
            decreases self.interfaces@.len() - j,
        {
            proof {
                assert(ifaces_view(self.interfaces@)[j as int] == self.interfaces@[j as int]@);
            }
            if matches!(self.interfaces[j].status, crate::model::ConnectionStatus::Connected) {
                any = true;
            }
            j = j + 1;
        }
        self.telemetry_active = any;
        if any {
            if self.connection_time_ms.is_none() {
                self.connection_time_ms = Option::Some(now_ms);
            }
        } else {
            self.connection_time_ms = Option::None;
        }
        if self.selected_interface >= self.interfaces.len() && self.interfaces.len() > 0 {
            self.selected_interface = 0;
        }
    }

    /// One telemetry tick: see `update_metrics_spec`.
    pub fn update_metrics(&mut self, fresh: Vec<NetworkInterface>, now_ms: u64)
        requires
            old(self).wf(),
        ensures
            final(self).wf(),
            final(self)@ == update_metrics_spec(old(self)@, ifaces_view(fresh@), now_ms),
    {
        let ghost cache0 = self@.interfaces;
        let ghost fresh_views = ifaces_view(fresh@);
        let mut k: usize = 0;
        while k < self.interfaces.len()
            invariant
                k <= self.interfaces@.len(),
                self.interfaces@.len() == cache0.len(),
                fresh_views == ifaces_view(fresh@),
                forall|x: int| k <= x < cache0.len() ==> self.interfaces@[x]@ == cache0[x],
                forall|x: int| 0 <= x < k ==> self.interfaces@[x]@ == merge_fresh(
                    cache0,
                    fresh_views,
                )[x],
                self.selected_interface == old(self).selected_interface,
                self.focused_panel == old(self).focused_panel,
                self.telemetry_active == old(self).telemetry_active,
                self.connection_time_ms == old(self).connection_time_ms,
                self.traffic_history == old(self).traffic_history,
                self.network_monitor == old(self).network_monitor,
            decreases self.interfaces@.len() - k,
        {
            match find_by_name(&fresh, self.interfaces[k].name.as_str()) {
                Option::Some(i) => {
                    proof {
                        lemma_find_iface_idx(fresh_views, self.interfaces@[k as int]@.name);
                    }
                    let u = self.interfaces[k].metrics.uptime_ms;
                    let item = with_uptime_exec(&fresh[i], u);
                    self.interfaces.set(k, item);
                },
                Option::None => {},
            }
            k = k + 1;
        }
        proof {
            assert(ifaces_view(self.interfaces@) =~= merge_fresh(cache0, fresh_views));
        }
        self.network_monitor.update_speeds(&mut self.interfaces, now_ms);
        if self.telemetry_active && self.selected_interface < self.interfaces.len() {
            let sel = self.selected_interface;
            let up = self.interfaces[sel].metrics.speed_up;
            let down = self.interfaces[sel].metrics.speed_down;
            self.traffic_history.push((up, down));
            if self.traffic_history.len() > HISTORY_CAPACITY {
                self.traffic_history.remove(0);
                proof {
                    assert(self.traffic_history@ =~= old(self).traffic_history@.push(
                        (up, down),
                    ).drop_first());
                }
            }
            if matches!(self.interfaces[sel].status, crate::model::ConnectionStatus::Connected) {
                let u: u64 = match self.connection_time_ms {
                    Option::Some(t0) => sat_sub(now_ms, t0),
                    Option::None => {
                        self.connection_time_ms = Option::Some(now_ms);
                        0
                    },
                };
                let item = with_uptime_exec(&self.interfaces[sel], Option::Some(u));
                self.interfaces.set(sel, item);
            }
        }
        proof {
            let spec_result = update_metrics_spec(old(self)@, fresh_views, now_ms);
            assert(self@.interfaces =~= spec_result.interfaces);
            assert(self@.traffic_history =~= spec_result.traffic_history);
        }
    }
}

} // verus!
