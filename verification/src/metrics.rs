//! The metrics engine: turns per-interface monotonic counters into
//! throughput and packet-rate telemetry.
//!
//! For every interface the engine keeps the last *stored* sample (counters
//! plus the telemetry it answered with) and its timestamp. A new observation
//! closer than the minimum sampling interval to the stored baseline is
//! answered with the previous telemetry, unchanged, and does not move the
//! baseline; otherwise each rate is the saturating counter difference over
//! the elapsed wall-clock interval, so a counter reset yields a zero rate
//! rather than a negative or absurd one.

use vstd::prelude::*;
use vstd::pervasive::VecAdditionalExecFns;

use crate::model::{
    NetworkInterface, NetworkMetrics, RawCounters, MetricsView, IfaceView, zero_metrics,
    sat_sub_spec, sat_sub,
};

verus! {

/// Observations closer together than this many milliseconds do not produce a
/// new sample.
pub const MIN_INTERVAL_MS: u64 = 100;

/// One per-interface record of the metrics engine.
pub struct MonitorEntry {
    pub name: String,
    /// The telemetry answered at the last stored sample.
    pub last: NetworkMetrics,
    /// When the last stored sample was taken.
    pub t_ms: u64,
}

/// Spec-level counterpart of `MonitorEntry`.
pub ghost struct MonitorEntryView {
    pub name: Seq<char>,
    pub last: MetricsView,
    pub t_ms: u64,
}

impl View for MonitorEntry {
    type V = MonitorEntryView;

    open spec fn view(&self) -> MonitorEntryView {
        MonitorEntryView { name: self.name@, last: self.last@, t_ms: self.t_ms }
    }
}

/// Index of the first record named `name`, or -1 if none is.
pub open spec fn find_sample_idx(s: Seq<MonitorEntryView>, name: Seq<char>) -> int
    decreases s.len(),
{
    if s.len() == 0 {
        -1
    } else if s[0].name == name {
        0
    } else {
        let r = find_sample_idx(s.drop_first(), name);
        if r < 0 {
            -1
        } else {
            r + 1
        }
    }
}

/// `find_sample_idx` returns either -1, with no record named `name`, or the
/// first index of a record named `name`.
pub proof fn lemma_find_sample_idx(s: Seq<MonitorEntryView>, name: Seq<char>)
    ensures
        find_sample_idx(s, name) == -1 ==> forall|k: int|
            0 <= k < s.len() ==> s[k].name != name,
        find_sample_idx(s, name) >= 0 ==> find_sample_idx(s, name) < s.len() && s[find_sample_idx(
            s,
            name,
        )].name == name && forall|k: int|
            0 <= k < find_sample_idx(s, name) ==> s[k].name != name,
    decreases s.len(),
{
    if s.len() > 0 && s[0].name != name {
        let t = s.drop_first();
        lemma_find_sample_idx(t, name);
        assert(forall|k: int| 0 <= k < t.len() ==> t[k] == s[k + 1]);
        let r = find_sample_idx(t, name);
        if r < 0 {
            assert forall|k: int| 0 <= k < s.len() implies s[k].name != name by {
                if k > 0 {
                    assert(t[k - 1] == s[k]);
                }
            }
        } else {
            assert(s[r + 1] == t[r]);
            assert forall|k: int| 0 <= k < r + 1 implies s[k].name != name by {
                if k > 0 {
                    assert(t[k - 1] == s[k]);
                }
            }
        }
    }
}

/// `find_sample_idx` equals `i` when `s[i]` is named `name` and no earlier
/// record is.
pub proof fn lemma_find_sample_idx_at(s: Seq<MonitorEntryView>, name: Seq<char>, i: int)
    requires
        0 <= i < s.len(),
        s[i].name == name,
        forall|k: int| 0 <= k < i ==> s[k].name != name,
    ensures
        find_sample_idx(s, name) == i,
    decreases s.len(),
{
    if i > 0 {
        let t = s.drop_first();
        assert(forall|k: int| 0 <= k < t.len() ==> t[k] == s[k + 1]);
        lemma_find_sample_idx_at(t, name, i - 1);
    }
}

/// A counter difference over an interval, in whole units per second, capped
/// at the top of the range.
pub open spec fn rate_spec(diff: u64, dt_ms: u64) -> u64
    recommends
        dt_ms > 0,
{
    let v = (diff as nat) * 1000 / (dt_ms as nat);
    if v > u64::MAX as nat {
        u64::MAX
    } else {
        v as u64
    }
}

/// Executable form of `rate_spec`.
pub fn rate_per_sec(diff: u64, dt_ms: u64) -> (r: u64)
    requires
        dt_ms > 0,
    ensures
        r == rate_spec(diff, dt_ms),
{
    proof {
        assert((diff as u128) * 1000 <= (u64::MAX as u128) * 1000 < u128::MAX) by (nonlinear_arith)
            requires
                diff <= u64::MAX,
        ;
    }
    let wide: u128 = (diff as u128) * 1000 / (dt_ms as u128);
    if wide > u64::MAX as u128 {
        u64::MAX
    } else {
        wide as u64
    }
}

/// The telemetry computed from a stored baseline and a fresh set of
/// counters, `dt_ms` apart: each derived field is the saturating counter
/// difference over the interval; capability and session fields stay as the
/// baseline telemetry had them.
pub open spec fn telemetry_after(prev: MetricsView, raw: RawCounters, dt_ms: u64) -> MetricsView {
    MetricsView {
        raw: raw,
        speed_up: rate_spec(sat_sub_spec(raw.bytes_tx, prev.raw.bytes_tx), dt_ms),
        speed_down: rate_spec(sat_sub_spec(raw.bytes_rx, prev.raw.bytes_rx), dt_ms),
        packets_per_sec_tx: rate_spec(sat_sub_spec(raw.packets_tx, prev.raw.packets_tx), dt_ms),
        packets_per_sec_rx: rate_spec(sat_sub_spec(raw.packets_rx, prev.raw.packets_rx), dt_ms),
        ..prev
    }
}

/// The telemetry a first observation is answered with: the reported
/// counters, with every derived field at its default zero.
pub open spec fn first_telemetry(raw: RawCounters) -> MetricsView {
    MetricsView { raw: raw, ..zero_metrics() }
}

/// One observation against the engine state: returns the new state and the
/// telemetry answered.
pub open spec fn observe_spec(
    m: Seq<MonitorEntryView>,
    name: Seq<char>,
    raw: RawCounters,
    now_ms: u64,
) -> (Seq<MonitorEntryView>, MetricsView) {
    let i = find_sample_idx(m, name);
    if i < 0 {
        let t = first_telemetry(raw);
        (m.push(MonitorEntryView { name: name, last: t, t_ms: now_ms }), t)
    } else {
        let e = m[i];
        let dt = sat_sub_spec(now_ms, e.t_ms);
        if dt < MIN_INTERVAL_MS {
            (m, e.last)
        } else {
            let t = telemetry_after(e.last, raw, dt);
            (m.update(i, MonitorEntryView { name: name, last: t, t_ms: now_ms }), t)
        }
    }
}

/// The metrics engine state: one record per observed interface name.
pub struct NetworkMonitor {
    samples: Vec<MonitorEntry>,
}

impl View for NetworkMonitor {
    type V = Seq<MonitorEntryView>;

    closed spec fn view(&self) -> Seq<MonitorEntryView> {
        self.samples@.map_values(|e: MonitorEntry| e@)
    }
}

impl NetworkMonitor {
    /// An engine that has seen nothing yet.
    pub fn new() -> (r: NetworkMonitor)
        ensures
            r@ == Seq::<MonitorEntryView>::empty(),
    {
        let r = NetworkMonitor { samples: Vec::new() };
        proof {
            assert(r@ =~= Seq::<MonitorEntryView>::empty());
        }
        r
    }

    /// Index of the record named `name`, if one is present.
    fn find(&self, name: &str) -> (r: Option<usize>)
        ensures
            match r {
                Option::Some(i) => find_sample_idx(self@, name@) == i as int,
                Option::None => find_sample_idx(self@, name@) == -1,
            },
    {
        proof {
            lemma_find_sample_idx(self@, name@);
        }
        let n = name.to_owned();
        let mut i: usize = 0;
        while i < self.samples.len()
            invariant
                i <= self.samples.len(),
                n@ == name@,
                forall|k: int| 0 <= k < i ==> self@[k].name != name@,
            decreases self.samples.len() - i,
        {
            if self.samples[i].name.eq(&n) {
                proof {
                    lemma_find_sample_idx_at(self@, name@, i as int);
                }
                return Option::Some(i);
            }
            i = i + 1;
        }
        Option::None
    }

    /// One observation: store or refresh the baseline for `name` and answer
    /// the telemetry, per `observe_spec`. A first observation answers
    /// default-zero derived fields; one closer than `MIN_INTERVAL_MS` to the
    /// stored baseline answers the previous telemetry unchanged.
    pub fn observe(&mut self, name: &str, raw: RawCounters, now_ms: u64) -> (r: NetworkMetrics)
        ensures
            (final(self)@, r@) == observe_spec(old(self)@, name@, raw, now_ms),
    {
        match self.find(name) {
            Option::None => {
                let t = NetworkMetrics {
                    bytes_tx: raw.bytes_tx,
                    bytes_rx: raw.bytes_rx,
                    packets_tx: raw.packets_tx,
                    packets_rx: raw.packets_rx,
                    errors_tx: raw.errors_tx,
                    errors_rx: raw.errors_rx,
                    dropped_tx: raw.dropped_tx,
                    dropped_rx: raw.dropped_rx,
                    ..NetworkMetrics::zeroed()
                };
                self.samples.push(
                    MonitorEntry { name: name.to_owned(), last: t.duplicate(), t_ms: now_ms },
                );
                proof {
                    assert(final(self)@ =~= observe_spec(old(self)@, name@, raw, now_ms).0);
                }
                t
            },
            Option::Some(i) => {
                proof {
                    lemma_find_sample_idx(self@, name@);
                }
                let dt = sat_sub(now_ms, self.samples[i].t_ms);
                if dt < MIN_INTERVAL_MS {
                    self.samples[i].last.duplicate()
                } else {
                    let prev = &self.samples[i].last;
                    let t = NetworkMetrics {
                        bytes_tx: raw.bytes_tx,
                        bytes_rx: raw.bytes_rx,
                        packets_tx: raw.packets_tx,
                        packets_rx: raw.packets_rx,
                        errors_tx: raw.errors_tx,
                        errors_rx: raw.errors_rx,
                        dropped_tx: raw.dropped_tx,
                        dropped_rx: raw.dropped_rx,
                        speed_up: rate_per_sec(sat_sub(raw.bytes_tx, prev.bytes_tx), dt),
                        speed_down: rate_per_sec(sat_sub(raw.bytes_rx, prev.bytes_rx), dt),
                        packets_per_sec_tx: rate_per_sec(
                            sat_sub(raw.packets_tx, prev.packets_tx),
                            dt,
                        ),
                        packets_per_sec_rx: rate_per_sec(
                            sat_sub(raw.packets_rx, prev.packets_rx),
                            dt,
                        ),
                        ..prev.duplicate()
                    };
                    let e2 = MonitorEntry {
                        name: name.to_owned(),
                        last: t.duplicate(),
                        t_ms: now_ms,
                    };
                    self.samples.set(i, e2);
                    proof {
                        assert(final(self)@ =~= observe_spec(old(self)@, name@, raw, now_ms).0);
                    }
                    t
                }
            },
        }
    }
}

/// The view of an interface list.
pub open spec fn ifaces_view(s: Seq<NetworkInterface>) -> Seq<IfaceView> {
    s.map_values(|x: NetworkInterface| x@)
}

/// An interface with the four derived rate fields taken from `t`; everything
/// else kept.
pub open spec fn derived_onto(i: IfaceView, t: MetricsView) -> IfaceView {
    IfaceView {
        metrics: MetricsView {
            speed_up: t.speed_up,
            speed_down: t.speed_down,
            packets_per_sec_tx: t.packets_per_sec_tx,
            packets_per_sec_rx: t.packets_per_sec_rx,
            ..i.metrics
        },
        ..i
    }
}

/// A sweep over an interface list: observe each interface's counters in
/// order, threading the engine state through, and write the answered rates
/// onto the interface.
pub open spec fn update_speeds_spec(
    m: Seq<MonitorEntryView>,
    s: Seq<IfaceView>,
    now_ms: u64,
) -> (Seq<MonitorEntryView>, Seq<IfaceView>)
    decreases s.len(),
{
    if s.len() == 0 {
        (m, s)
    } else {
        let step = observe_spec(m, s[0].name, s[0].metrics.raw, now_ms);
        let rest = update_speeds_spec(step.0, s.drop_first(), now_ms);
        (rest.0, seq![derived_onto(s[0], step.1)] + rest.1)
    }
}

impl NetworkMonitor {
    /// Observe every interface in the list and write the computed rates back
    /// onto it, per `update_speeds_spec`.
    pub fn update_speeds(&mut self, interfaces: &mut Vec<NetworkInterface>, now_ms: u64)
        ensures
            (final(self)@, ifaces_view(final(interfaces)@)) == update_speeds_spec(
                old(self)@,
                ifaces_view(old(interfaces)@),
                now_ms,
            ),
    {
        let ghost full = update_speeds_spec(old(self)@, ifaces_view(old(interfaces)@), now_ms);
        proof {
            assert(ifaces_view(old(interfaces)@).skip(0) =~= ifaces_view(old(interfaces)@));
            assert(ifaces_view(interfaces@).take(0) =~= Seq::<IfaceView>::empty());
            assert(Seq::<IfaceView>::empty() + full.1 =~= full.1);
        }
        let mut k: usize = 0;
        while k < interfaces.len()
            invariant
                k <= interfaces.len(),
                interfaces@.len() == old(interfaces)@.len(),
                forall|j: int| k <= j < interfaces@.len() ==> interfaces@[j] == old(
                    interfaces,
                )@[j],
                full == update_speeds_spec(old(self)@, ifaces_view(old(interfaces)@), now_ms),
                ({
                    let rem = update_speeds_spec(
                        self@,
                        ifaces_view(old(interfaces)@).skip(k as int),
                        now_ms,
                    );
                    full.0 == rem.0 && full.1 == ifaces_view(interfaces@).take(k as int) + rem.1
                }),
            decreases interfaces.len() - k,
        {
            let ghost pre_mon = self@;
            let ghost pre_ifaces = interfaces@;
            let ghost suffix = ifaces_view(old(interfaces)@).skip(k as int);
            let raw = interfaces[k].metrics.raw();
            let t = self.observe(interfaces[k].name.as_str(), raw, now_ms);
            let cur = &interfaces[k];
            let updated = NetworkInterface {
                id: cur.id,
                name: cur.name.clone(),
                interface_type: cur.interface_type,
                status: cur.status.duplicate(),
                config: cur.config.duplicate(),
                metrics: NetworkMetrics {
                    speed_up: t.speed_up,
                    speed_down: t.speed_down,
                    packets_per_sec_tx: t.packets_per_sec_tx,
                    packets_per_sec_rx: t.packets_per_sec_rx,
                    ..cur.metrics.duplicate()
                },
            };
            interfaces.set(k, updated);
            proof {
                assert(suffix[0] == old(interfaces)@[k as int]@);
                assert(suffix.drop_first() =~= ifaces_view(old(interfaces)@).skip(k + 1));
                assert((self@, t@) == observe_spec(pre_mon, suffix[0].name, suffix[0].metrics.raw,
                    now_ms));
                assert(interfaces@[k as int]@ == derived_onto(suffix[0], t@));
                assert(ifaces_view(interfaces@).take(k as int) =~= ifaces_view(pre_ifaces).take(
                    k as int,
                ));
                let rem_new = update_speeds_spec(
                    self@,
                    ifaces_view(old(interfaces)@).skip(k + 1),
                    now_ms,
                );
                assert(ifaces_view(interfaces@).take(k + 1) =~= ifaces_view(interfaces@).take(
                    k as int,
                ).push(derived_onto(suffix[0], t@)));
                assert(ifaces_view(interfaces@).take(k as int).push(
                    derived_onto(suffix[0], t@),
                ) + rem_new.1 =~= ifaces_view(interfaces@).take(k as int) + (seq![
                    derived_onto(suffix[0], t@),
                ] + rem_new.1));
            }
            k = k + 1;
        }
        proof {
            assert(ifaces_view(old(interfaces)@).skip(interfaces@.len() as int)
                =~= Seq::<IfaceView>::empty());
            assert(ifaces_view(interfaces@).take(interfaces@.len() as int) + Seq::<
                IfaceView,
            >::empty() =~= ifaces_view(interfaces@));
        }
    }
}

/// Sub-interval suppression: while the engine holds a baseline for `name`
/// taken less than the minimum sampling interval before `now_ms`, an
/// observation answers exactly the previously answered telemetry and leaves
/// the engine state untouched — derived fields are never reset by a skipped
/// update.
pub proof fn lemma_sub_interval_suppression(
    m: Seq<MonitorEntryView>,
    name: Seq<char>,
    raw: RawCounters,
    now_ms: u64,
)
    requires
        find_sample_idx(m, name) >= 0,
        sat_sub_spec(now_ms, m[find_sample_idx(m, name)].t_ms) < MIN_INTERVAL_MS,
    ensures
        observe_spec(m, name, raw, now_ms) == (m, m[find_sample_idx(m, name)].last),
{
}

/// A counter reset can never produce a negative or absurd rate: when the
/// fresh counter is at or below the stored baseline, the computed rate is
/// exactly zero.
pub proof fn lemma_counter_reset_rate_zero(prev: u64, cur: u64, dt_ms: u64)
    requires
        cur <= prev,
        dt_ms > 0,
    ensures
        rate_spec(sat_sub_spec(cur, prev), dt_ms) == 0,
{
}

} // verus!
