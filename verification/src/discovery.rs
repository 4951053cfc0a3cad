//! Interface discovery logic: the pure part of reading the host's view of
//! its network interfaces. The surrounding process reads `/sys`, `/proc` and
//! tool output and hands the text here; everything that decides or computes
//! on that text is verified.
//!
//! Tokens within a line are split at spaces (the sources these parsers are
//! written for separate fields with spaces).

use vstd::prelude::*;

use crate::model::{
    ConnectionStatus, InterfaceConfig, InterfaceType, NetworkInterface, NetworkMetrics,
    RawCounters, StatusView, IfaceView, ConfigView, MetricsView, zero_metrics, WiFiSecurity,
};
use crate::text::{
    has_prefix, starts_with, contains_sub, contains_str, split_char_spec, split_char,
    lemma_split_len, all_digits, digits_val, parse_u64, parse_u32,
};

verus! {

/// The whitespace characters these parsers trim.
pub open spec fn is_space(c: char) -> bool {
    c == ' ' || c == '\t' || c == '\r' || c == '\n'
}

/// Executable form of `is_space`.
fn is_space_exec(c: char) -> (r: bool)
    ensures
        r == is_space(c),
{
    c == ' ' || c == '\t' || c == '\r' || c == '\n'
}

/// `s` without leading whitespace.
pub open spec fn trim_front_spec(s: Seq<char>) -> Seq<char>
    decreases s.len(),
{
    if s.len() > 0 && is_space(s[0]) {
        trim_front_spec(s.drop_first())
    } else {
        s
    }
}

/// `s` without trailing whitespace.
pub open spec fn trim_back_spec(s: Seq<char>) -> Seq<char>
    decreases s.len(),
{
    if s.len() > 0 && is_space(s.last()) {
        trim_back_spec(s.drop_last())
    } else {
        s
    }
}

/// `s` without leading or trailing whitespace.
pub open spec fn trim_spec(s: Seq<char>) -> Seq<char> {
    trim_back_spec(trim_front_spec(s))
}

/// Where trimming the front stops.
proof fn lemma_trim_front_at(s: Seq<char>, i: int)
    requires
        0 <= i <= s.len(),
        forall|k: int| 0 <= k < i ==> is_space(#[trigger] s[k]),
        i == s.len() || !is_space(s[i]),
    ensures
        trim_front_spec(s) == s.skip(i),
    decreases i,
{
    if i == 0 {
        assert(s.skip(0) =~= s);
    } else {
        let s2 = s.drop_first();
        assert(forall|k: int| 0 <= k < s2.len() ==> s2[k] == s[k + 1]);
        lemma_trim_front_at(s2, i - 1);
        assert(s2.skip(i - 1) =~= s.skip(i));
    }
}

/// Where trimming the back stops.
proof fn lemma_trim_back_at(s: Seq<char>, j: int)
    requires
        0 <= j <= s.len(),
        forall|k: int| j <= k < s.len() ==> is_space(#[trigger] s[k]),
        j == 0 || !is_space(s[j - 1]),
    ensures
        trim_back_spec(s) == s.take(j),
    decreases s.len() - j,
{
    if j == s.len() {
        assert(s.take(j) =~= s);
        if s.len() > 0 && is_space(s.last()) {
            assert(false);
        }
    } else {
        let s2 = s.drop_last();
        assert(s.last() == s[s.len() - 1]);
        assert(forall|k: int| 0 <= k < s2.len() ==> s2[k] == s[k]);
        lemma_trim_back_at(s2, j);
        assert(s2.take(j) =~= s.take(j));
    }
}

/// Executable form of `trim_spec`.
pub fn trim(s: &str) -> (r: String)
    ensures
        r@ == trim_spec(s@),
{
    let len = s.unicode_len();
    let mut start: usize = 0;
    while start < len && is_space_exec(s.get_char(start))
        invariant
            start <= len,
            len == s@.len(),
            forall|k: int| 0 <= k < start ==> is_space(#[trigger] s@[k]),
        decreases len - start,
    {
        start = start + 1;
    }
    proof {
        lemma_trim_front_at(s@, start as int);
    }
    let mut end: usize = len;
    while end > start && is_space_exec(s.get_char(end - 1))
        invariant
            start <= end <= len,
            len == s@.len(),
            forall|k: int| end <= k < len ==> is_space(#[trigger] s@[k]),
        decreases end,
    {
        end = end - 1;
    }
    proof {
        let t = s@.skip(start as int);
        assert(forall|k: int| 0 <= k < t.len() ==> t[k] == s@[k + start]);
        lemma_trim_back_at(t, end - start);
        assert(t.take(end - start) =~= s@.subrange(start as int, end as int));
    }
    s.substring_char(start, end).to_owned()
}

/// Non-empty tokens, in order.
pub open spec fn drop_empty(ts: Seq<Seq<char>>) -> Seq<Seq<char>>
    decreases ts.len(),
{
    if ts.len() == 0 {
        Seq::<Seq<char>>::empty()
    } else if ts[0].len() == 0 {
        drop_empty(ts.drop_first())
    } else {
        seq![ts[0]] + drop_empty(ts.drop_first())
    }
}

/// A line's fields: split at spaces, empty fields dropped.
pub open spec fn split_ws_spec(s: Seq<char>) -> Seq<Seq<char>> {
    drop_empty(split_char_spec(s, ' '))
}

/// Non-empty tokens of the tail from `i` on.
fn drop_empty_from(raw: &Vec<String>, i: usize) -> (r: Vec<String>)
    requires
        i <= raw@.len(),
    ensures
        r.deep_view() == drop_empty(raw.deep_view().skip(i as int)),
    decreases raw@.len() - i,
{
    if i >= raw.len() {
        let r: Vec<String> = Vec::new();
        proof {
            assert(raw.deep_view().skip(i as int) =~= Seq::<Seq<char>>::empty());
            assert(r.deep_view() =~= Seq::<Seq<char>>::empty());
        }
        r
    } else {
        let mut rest = drop_empty_from(raw, i + 1);
        proof {
            assert(raw.deep_view().skip(i as int)[0] == raw.deep_view()[i as int]);
            assert(raw.deep_view().skip(i as int).drop_first() =~= raw.deep_view().skip(i + 1));
            assert(raw.deep_view()[i as int] == raw@[i as int]@);
        }
        if raw[i].as_str().unicode_len() == 0 {
            rest
        } else {
            let ghost pre = rest.deep_view();
            rest.insert(0, raw[i].clone());
            proof {
                assert(rest.deep_view() =~= seq![raw.deep_view()[i as int]] + pre);
            }
            rest
        }
    }
}

/// Executable form of `split_ws_spec`.
pub fn split_ws(s: &str) -> (r: Vec<String>)
    ensures
        r.deep_view() == split_ws_spec(s@),
{
    let raw = split_char(s, ' ');
    proof {
        assert(raw.deep_view().skip(0) =~= raw.deep_view());
    }
    drop_empty_from(&raw, 0)
}

/// The family name an interface name implies, by its conventional prefix.
pub open spec fn family_name_of(n: Seq<char>) -> Seq<char> {
    if has_prefix(n, "eth"@) || has_prefix(n, "en"@) {
        "Ethernet"@
    } else if has_prefix(n, "wlan"@) || has_prefix(n, "wl"@) {
        "WiFi"@
    } else if has_prefix(n, "tun"@) || has_prefix(n, "wg"@) {
        "VPN"@
    } else {
        "Unknown"@
    }
}

/// The family an interface name implies, as the model's enum.
pub open spec fn family_enum_of(n: Seq<char>) -> InterfaceType {
    if has_prefix(n, "eth"@) || has_prefix(n, "en"@) {
        InterfaceType::Ethernet
    } else if has_prefix(n, "wlan"@) || has_prefix(n, "wl"@) {
        InterfaceType::WiFi
    } else if has_prefix(n, "tun"@) || has_prefix(n, "wg"@) {
        InterfaceType::VPN
    } else {
        InterfaceType::Unknown
    }
}

/// The connection status an operstate file's text implies. An unreadable or
/// unrecognised state reads as no link, hence `Disconnected`.
pub open spec fn status_enum_of(operstate: Option<Seq<char>>) -> StatusView {
    match operstate {
        Option::None => StatusView::Disconnected,
        Option::Some(s) => {
            let t = trim_spec(s);
            if t == "up"@ {
                StatusView::Connected
            } else if t == "dormant"@ {
                StatusView::Connecting
            } else {
                StatusView::Disconnected
            }
        },
    }
}

/// Local interface discovery: pure readers of the system's own reports.
pub struct NetworkDiscovery;

impl NetworkDiscovery {
    /// The family name an interface name implies (`eth*`/`en*` Ethernet,
    /// `wlan*`/`wl*` WiFi, `tun*`/`wg*` VPN, anything else unknown).
    pub fn detect_interface_type(name: &str) -> (r: String)
        ensures
            r@ == family_name_of(name@),
    {
        if starts_with(name, "eth") || starts_with(name, "en") {
            String::from_str("Ethernet")
        } else if starts_with(name, "wlan") || starts_with(name, "wl") {
            String::from_str("WiFi")
        } else if starts_with(name, "tun") || starts_with(name, "wg") {
            String::from_str("VPN")
        } else {
            String::from_str("Unknown")
        }
    }

    /// The status name an operstate file's text implies.
    pub fn status_from_operstate(state: &str) -> (r: String)
        ensures
            r@ == ({
                let t = trim_spec(state@);
                if t == "up"@ {
                    "Connected"@
                } else if t == "down"@ {
                    "Disconnected"@
                } else if t == "dormant"@ {
                    "Connecting"@
                } else {
                    "Unknown"@
                }
            }),
    {
        let t = trim(state);
        if t.eq(&String::from_str("up")) {
            String::from_str("Connected")
        } else if t.eq(&String::from_str("down")) {
            String::from_str("Disconnected")
        } else if t.eq(&String::from_str("dormant")) {
            String::from_str("Connecting")
        } else {
            String::from_str("Unknown")
        }
    }

    /// A sysfs number (link speed, MTU): the trimmed text when it is a
    /// decimal number in range, absent otherwise.
    pub fn parse_sysfs_u32(content: &str) -> (r: Option<u32>)
        ensures
            ({
                let t = trim_spec(content@);
                match r {
                    Option::Some(v) => t.len() > 0 && all_digits(t) && digits_val(t) == v as nat,
                    Option::None => t.len() == 0 || !all_digits(t) || digits_val(t)
                        > u32::MAX as nat,
                }
            }),
    {
        let t = trim(content);
        parse_u32(t.as_str())
    }

    /// A sysfs duplex mode: the trimmed text unless it is empty or the
    /// literal `unknown`.
    pub fn parse_duplex(content: &str) -> (r: Option<String>)
        ensures
            ({
                let t = trim_spec(content@);
                match r {
                    Option::Some(v) => v@ == t && t.len() > 0 && t != "unknown"@,
                    Option::None => t.len() == 0 || t == "unknown"@,
                }
            }),
    {
        let t = trim(content);
        if t.as_str().unicode_len() == 0 {
            Option::None
        } else if t.eq(&String::from_str("unknown")) {
            Option::None
        } else {
            Option::Some(t)
        }
    }
}

/// The name servers a resolver configuration lists, one per `nameserver`
/// line.
pub open spec fn dns_of(lines: Seq<Seq<char>>) -> Seq<Seq<char>>
    decreases lines.len(),
{
    if lines.len() == 0 {
        Seq::<Seq<char>>::empty()
    } else {
        let rest = dns_of(lines.drop_first());
        if has_prefix(lines[0], "nameserver "@) && split_ws_spec(lines[0]).len() >= 2 {
            seq![split_ws_spec(lines[0])[1]] + rest
        } else {
            rest
        }
    }
}

/// Scan resolver lines from `i` on.
fn dns_scan(lines: &Vec<String>, i: usize) -> (r: Vec<String>)
    requires
        i <= lines@.len(),
    ensures
        r.deep_view() == dns_of(lines.deep_view().skip(i as int)),
    decreases lines@.len() - i,
{
    if i >= lines.len() {
        let r: Vec<String> = Vec::new();
        proof {
            assert(lines.deep_view().skip(i as int) =~= Seq::<Seq<char>>::empty());
            assert(r.deep_view() =~= Seq::<Seq<char>>::empty());
        }
        r
    } else {
        let mut rest = dns_scan(lines, i + 1);
        proof {
            assert(lines.deep_view().skip(i as int)[0] == lines.deep_view()[i as int]);
            assert(lines.deep_view().skip(i as int).drop_first() =~= lines.deep_view().skip(
                i + 1,
            ));
            assert(lines.deep_view()[i as int] == lines@[i as int]@);
        }
        if starts_with(lines[i].as_str(), "nameserver ") {
            let ws = split_ws(lines[i].as_str());
            if ws.len() >= 2 {
                let ghost pre = rest.deep_view();
                rest.insert(0, ws[1].clone());
                proof {
                    assert(ws.deep_view()[1] == ws@[1]@);
                    assert(rest.deep_view() =~= seq![split_ws_spec(lines.deep_view()[i as int])[1]]
                        + pre);
                }
                rest
            } else {
                rest
            }
        } else {
            rest
        }
    }
}

impl NetworkDiscovery {
    /// The name servers of a resolver configuration's text.
    pub fn parse_resolv_conf(content: &str) -> (r: Vec<String>)
        ensures
            r.deep_view() == dns_of(split_char_spec(content@, '\n')),
    {
        let lines = split_char(content, '\n');
        proof {
            assert(lines.deep_view().skip(0) =~= lines.deep_view());
        }
        dns_scan(&lines, 0)
    }

    /// The name servers to use: the configuration's when it could be read,
    /// a well-known public resolver otherwise.
    pub fn dns_servers(content: Option<&str>) -> (r: Vec<String>)
        ensures
            match content {
                Option::Some(c) => r.deep_view() == dns_of(split_char_spec(c@, '\n')),
                Option::None => r.deep_view() == seq!["8.8.8.8"@],
            },
    {
        match content {
            Option::Some(c) => Self::parse_resolv_conf(c),
            Option::None => {
                let mut r: Vec<String> = Vec::new();
                r.push(String::from_str("8.8.8.8"));
                proof {
                    assert(r.deep_view() =~= seq!["8.8.8.8"@]);
                }
                r
            },
        }
    }
}

/// Index of the first field equal to `t`, or -1.
pub open spec fn find_tok(ts: Seq<Seq<char>>, t: Seq<char>) -> int
    decreases ts.len(),
{
    if ts.len() == 0 {
        -1
    } else if ts[0] == t {
        0
    } else {
        let r = find_tok(ts.drop_first(), t);
        if r < 0 {
            -1
        } else {
            r + 1
        }
    }
}

/// `find_tok` resolves to the first match, or to -1 with no match at all.
proof fn lemma_find_tok(ts: Seq<Seq<char>>, t: Seq<char>)
    ensures
        find_tok(ts, t) == -1 ==> forall|k: int| 0 <= k < ts.len() ==> ts[k] != t,
        find_tok(ts, t) >= 0 ==> find_tok(ts, t) < ts.len() && ts[find_tok(ts, t)] == t
            && forall|k: int| 0 <= k < find_tok(ts, t) ==> ts[k] != t,
    decreases ts.len(),
{
    if ts.len() > 0 && ts[0] != t {
        let r2 = ts.drop_first();
        lemma_find_tok(r2, t);
        assert(forall|k: int| 0 <= k < r2.len() ==> r2[k] == ts[k + 1]);
        let r = find_tok(r2, t);
        if r < 0 {
            assert forall|k: int| 0 <= k < ts.len() implies ts[k] != t by {
                if k > 0 {
                    assert(r2[k - 1] == ts[k]);
                }
            }
        } else {
            assert(ts[r + 1] == r2[r]);
            assert forall|k: int| 0 <= k < r + 1 implies ts[k] != t by {
                if k > 0 {
                    assert(r2[k - 1] == ts[k]);
                }
            }
        }
    }
}

/// `find_tok` equals `i` when `ts[i]` matches and no earlier field does.
proof fn lemma_find_tok_at(ts: Seq<Seq<char>>, t: Seq<char>, i: int)
    requires
        0 <= i < ts.len(),
        ts[i] == t,
        forall|k: int| 0 <= k < i ==> ts[k] != t,
    ensures
        find_tok(ts, t) == i,
    decreases ts.len(),
{
    if i > 0 {
        let r2 = ts.drop_first();
        assert(forall|k: int| 0 <= k < r2.len() ==> r2[k] == ts[k + 1]);
        lemma_find_tok_at(r2, t, i - 1);
    }
}

/// Executable form of `find_tok`.
fn find_tok_exec(ws: &Vec<String>, t: &str) -> (r: Option<usize>)
    ensures
        match r {
            Option::Some(i) => find_tok(ws.deep_view(), t@) == i as int,
            Option::None => find_tok(ws.deep_view(), t@) == -1,
        },
{
    proof {
        lemma_find_tok(ws.deep_view(), t@);
    }
    let n = t.to_owned();
    let mut i: usize = 0;
    while i < ws.len()
        invariant
            i <= ws.len(),
            n@ == t@,
            forall|k: int| 0 <= k < i ==> ws.deep_view()[k] != t@,
        decreases ws.len() - i,
    {
        proof {
            assert(ws.deep_view()[i as int] == ws@[i as int]@);
        }
        if ws[i].eq(&n) {
            proof {
                lemma_find_tok_at(ws.deep_view(), t@, i as int);
            }
            return Option::Some(i);
        }
        i = i + 1;
    }
    Option::None
}

/// The default gateway a route listing names: on the first line that holds
/// `default via`, the field after `via`.
pub open spec fn gateway_of(lines: Seq<Seq<char>>) -> Option<Seq<char>>
    decreases lines.len(),
{
    if lines.len() == 0 {
        Option::None
    } else {
        let ws = split_ws_spec(lines[0]);
        let i = find_tok(ws, "via"@);
        if contains_sub(lines[0], "default via"@) && i >= 0 && i + 1 < ws.len() {
            Option::Some(ws[i + 1])
        } else {
            gateway_of(lines.drop_first())
        }
    }
}

/// Scan route lines from `i` on.
fn gateway_scan(lines: &Vec<String>, i: usize) -> (r: Option<String>)
    requires
        i <= lines@.len(),
    ensures
        match r {
            Option::Some(v) => gateway_of(lines.deep_view().skip(i as int)) == Option::Some(v@),
            Option::None => gateway_of(lines.deep_view().skip(i as int)) is None,
        },
    decreases lines@.len() - i,
{
    if i >= lines.len() {
        proof {
            assert(lines.deep_view().skip(i as int) =~= Seq::<Seq<char>>::empty());
        }
        Option::None
    } else {
        proof {
            assert(lines.deep_view().skip(i as int)[0] == lines.deep_view()[i as int]);
            assert(lines.deep_view().skip(i as int).drop_first() =~= lines.deep_view().skip(
                i + 1,
            ));
            assert(lines.deep_view()[i as int] == lines@[i as int]@);
        }
        let line = &lines[i];
        if contains_str(line.as_str(), "default via") {
            let ws = split_ws(line.as_str());
            match find_tok_exec(&ws, "via") {
                Option::Some(p) => {
                    proof {
                        lemma_find_tok(ws.deep_view(), "via"@);
                    }
                    if p + 1 < ws.len() {
                        proof {
                            assert(ws.deep_view()[p + 1] == ws@[p + 1]@);
                        }
                        return Option::Some(ws[p + 1].clone());
                    }
                    gateway_scan(lines, i + 1)
                },
                Option::None => gateway_scan(lines, i + 1),
            }
        } else {
            gateway_scan(lines, i + 1)
        }
    }
}

/// The interface address an address listing names: on the first trimmed line
/// that begins `inet ` and does not mention the loopback address, the second
/// field up to any `/`.
pub open spec fn ip_of(lines: Seq<Seq<char>>) -> Option<Seq<char>>
    decreases lines.len(),
{
    if lines.len() == 0 {
        Option::None
    } else {
        let t = trim_spec(lines[0]);
        let ws = split_ws_spec(t);
        if has_prefix(t, "inet "@) && !contains_sub(lines[0], "127.0.0.1"@) && ws.len() >= 2 {
            Option::Some(split_char_spec(ws[1], '/')[0])
        } else {
            ip_of(lines.drop_first())
        }
    }
}

/// Scan address lines from `i` on.
fn ip_scan(lines: &Vec<String>, i: usize) -> (r: Option<String>)
    requires
        i <= lines@.len(),
    ensures
        match r {
            Option::Some(v) => ip_of(lines.deep_view().skip(i as int)) == Option::Some(v@),
            Option::None => ip_of(lines.deep_view().skip(i as int)) is None,
        },
    decreases lines@.len() - i,
{
    if i >= lines.len() {
        proof {
            assert(lines.deep_view().skip(i as int) =~= Seq::<Seq<char>>::empty());
        }
        Option::None
    } else {
        proof {
            assert(lines.deep_view().skip(i as int)[0] == lines.deep_view()[i as int]);
            assert(lines.deep_view().skip(i as int).drop_first() =~= lines.deep_view().skip(
                i + 1,
            ));
            assert(lines.deep_view()[i as int] == lines@[i as int]@);
        }
        let t = crate::discovery::trim(lines[i].as_str());
        if starts_with(t.as_str(), "inet ") && !contains_str(lines[i].as_str(), "127.0.0.1") {
            let ws = split_ws(t.as_str());
            if ws.len() >= 2 {
                let parts = split_char(ws[1].as_str(), '/');
                proof {
                    assert(ws.deep_view()[1] == ws@[1]@);
                    lemma_split_len(ws@[1]@, '/');
                    assert(parts.deep_view()[0] == parts@[0]@);
                }
                return Option::Some(parts[0].clone());
            }
            ip_scan(lines, i + 1)
        } else {
            ip_scan(lines, i + 1)
        }
    }
}

/// `s` without trailing colons, as a statistics line labels interfaces.
pub open spec fn strip_colons(s: Seq<char>) -> Seq<char>
    decreases s.len(),
{
    if s.len() > 0 && s.last() == ':' {
        strip_colons(s.drop_last())
    } else {
        s
    }
}

/// Where colon-stripping stops.
proof fn lemma_strip_colons_at(s: Seq<char>, j: int)
    requires
        0 <= j <= s.len(),
        forall|k: int| j <= k < s.len() ==> #[trigger] s[k] == ':',
        j == 0 || s[j - 1] != ':',
    ensures
        strip_colons(s) == s.take(j),
    decreases s.len() - j,
{
    if j == s.len() {
        assert(s.take(j) =~= s);
        if s.len() > 0 && s.last() == ':' {
            assert(false);
        }
    } else {
        let s2 = s.drop_last();
        assert(s.last() == s[s.len() - 1]);
        assert(forall|k: int| 0 <= k < s2.len() ==> s2[k] == s[k]);
        lemma_strip_colons_at(s2, j);
        assert(s2.take(j) =~= s.take(j));
    }
}

/// Executable form of `strip_colons`.
fn strip_colons_exec(s: &str) -> (r: String)
    ensures
        r@ == strip_colons(s@),
{
    let len = s.unicode_len();
    let mut end: usize = len;
    while end > 0 && s.get_char(end - 1) == ':'
        invariant
            end <= len,
            len == s@.len(),
            forall|k: int| end <= k < len ==> #[trigger] s@[k] == ':',
        decreases end,
    {
        end = end - 1;
    }
    proof {
        lemma_strip_colons_at(s@, end as int);
        assert(s@.take(end as int) =~= s@.subrange(0, end as int));
    }
    s.substring_char(0, end).to_owned()
}

/// A counter field's value; text that is not a number in range counts zero.
pub open spec fn u64_or_zero(t: Seq<char>) -> u64 {
    if t.len() > 0 && all_digits(t) && digits_val(t) <= u64::MAX as nat {
        digits_val(t) as u64
    } else {
        0u64
    }
}

/// Executable form of `u64_or_zero`.
fn u64_or_zero_exec(t: &str) -> (r: u64)
    ensures
        r == u64_or_zero(t@),
{
    match parse_u64(t) {
        Option::Some(v) => v,
        Option::None => 0,
    }
}

/// The raw counters a statistics listing reports for `name`: on the first
/// line whose first field (colons stripped) is the name and which carries at
/// least 17 fields, receive counters from fields 1 to 4 and transmit
/// counters from fields 9 to 12.
pub open spec fn counters_of(lines: Seq<Seq<char>>, name: Seq<char>) -> Option<RawCounters>
    decreases lines.len(),
{
    if lines.len() == 0 {
        Option::None
    } else {
        let ws = split_ws_spec(lines[0]);
        if ws.len() >= 17 && strip_colons(ws[0]) == name {
            Option::Some(
                RawCounters {
                    bytes_rx: u64_or_zero(ws[1]),
                    packets_rx: u64_or_zero(ws[2]),
                    errors_rx: u64_or_zero(ws[3]),
                    dropped_rx: u64_or_zero(ws[4]),
                    bytes_tx: u64_or_zero(ws[9]),
                    packets_tx: u64_or_zero(ws[10]),
                    errors_tx: u64_or_zero(ws[11]),
                    dropped_tx: u64_or_zero(ws[12]),
                },
            )
        } else {
            counters_of(lines.drop_first(), name)
        }
    }
}

/// Scan statistics lines from `i` on.
fn counters_scan(lines: &Vec<String>, i: usize, name: &str) -> (r: Option<RawCounters>)
    requires
        i <= lines@.len(),
    ensures
        r == counters_of(lines.deep_view().skip(i as int), name@),
    decreases lines@.len() - i,
{
    if i >= lines.len() {
        proof {
            assert(lines.deep_view().skip(i as int) =~= Seq::<Seq<char>>::empty());
        }
        Option::None
    } else {
        proof {
            assert(lines.deep_view().skip(i as int)[0] == lines.deep_view()[i as int]);
            assert(lines.deep_view().skip(i as int).drop_first() =~= lines.deep_view().skip(
                i + 1,
            ));
            assert(lines.deep_view()[i as int] == lines@[i as int]@);
        }
        let ws = split_ws(lines[i].as_str());
        if ws.len() >= 17 {
            let label = strip_colons_exec(ws[0].as_str());
            proof {
                assert(ws.deep_view()[0] == ws@[0]@);
            }
            if label.eq(&name.to_owned()) {
                proof {
                    assert(forall|k: int|
                        0 <= k < ws@.len() ==> ws.deep_view()[k] == #[trigger] ws@[k]@);
                }
                return Option::Some(
                    RawCounters {
                        bytes_rx: u64_or_zero_exec(ws[1].as_str()),
                        packets_rx: u64_or_zero_exec(ws[2].as_str()),
                        errors_rx: u64_or_zero_exec(ws[3].as_str()),
                        dropped_rx: u64_or_zero_exec(ws[4].as_str()),
                        bytes_tx: u64_or_zero_exec(ws[9].as_str()),
                        packets_tx: u64_or_zero_exec(ws[10].as_str()),
                        errors_tx: u64_or_zero_exec(ws[11].as_str()),
                        dropped_tx: u64_or_zero_exec(ws[12].as_str()),
                    },
                );
            }
            counters_scan(lines, i + 1, name)
        } else {
            counters_scan(lines, i + 1, name)
        }
    }
}

impl NetworkDiscovery {
    /// The raw counters a statistics listing reports for `name`, skipping
    /// the two header lines.
    pub fn parse_proc_net_dev(content: &str, name: &str) -> (r: Option<RawCounters>)
        ensures
            r == ({
                let lines = split_char_spec(content@, '\n');
                if lines.len() >= 2 {
                    counters_of(lines.skip(2), name@)
                } else {
                    Option::<RawCounters>::None
                }
            }),
    {
        let lines = split_char(content, '\n');
        if lines.len() >= 2 {
            counters_scan(&lines, 2, name)
        } else {
            Option::None
        }
    }
}


/// One discovered interface, assembled from the texts the system reports:
/// family from the name's prefix, status from the operstate text, addressing
/// from the address and route listings and the resolver configuration,
/// counters from the statistics listing, capabilities from their sysfs
/// files. The surrogate id is zero: local discovery does not assign ids.
pub open spec fn iface_from_sources_spec(
    name: Seq<char>,
    operstate: Option<Seq<char>>,
    ip_show: Option<Seq<char>>,
    route_show: Option<Seq<char>>,
    resolv: Option<Seq<char>>,
    stats: Option<Seq<char>>,
    speed_file: Option<Seq<char>>,
    duplex_file: Option<Seq<char>>,
    mtu_file: Option<Seq<char>>,
) -> IfaceView {
    let family = family_enum_of(name);
    let ip = match ip_show {
        Option::Some(t) => ip_of(split_char_spec(t, '\n')),
        Option::None => Option::None,
    };
    let gateway = match route_show {
        Option::Some(t) => gateway_of(split_char_spec(t, '\n')),
        Option::None => Option::None,
    };
    let dns = match resolv {
        Option::Some(t) => dns_of(split_char_spec(t, '\n')),
        Option::None => seq!["8.8.8.8"@],
    };
    let counters = match stats {
        Option::Some(t) => {
            let lines = split_char_spec(t, '\n');
            if lines.len() >= 2 {
                match counters_of(lines.skip(2), name) {
                    Option::Some(c) => c,
                    Option::None => crate::model::RawCounters {
                        bytes_tx: 0u64,
                        bytes_rx: 0u64,
                        packets_tx: 0u64,
                        packets_rx: 0u64,
                        errors_tx: 0u64,
                        errors_rx: 0u64,
                        dropped_tx: 0u64,
                        dropped_rx: 0u64,
                    },
                }
            } else {
                zero_metrics().raw
            }
        },
        Option::None => zero_metrics().raw,
    };
    let link_speed = match speed_file {
        Option::Some(t) => {
            let tr = trim_spec(t);
            if tr.len() > 0 && all_digits(tr) && digits_val(tr) <= u32::MAX as nat {
                Option::Some(digits_val(tr) as u32)
            } else {
                Option::None
            }
        },
        Option::None => Option::None,
    };
    let duplex = match duplex_file {
        Option::Some(t) => {
            let tr = trim_spec(t);
            if tr.len() > 0 && tr != "unknown"@ {
                Option::Some(tr)
            } else {
                Option::None
            }
        },
        Option::None => Option::None,
    };
    let mtu = match mtu_file {
        Option::Some(t) => {
            let tr = trim_spec(t);
            if tr.len() > 0 && all_digits(tr) && digits_val(tr) <= u32::MAX as nat {
                Option::Some(digits_val(tr) as u32)
            } else {
                Option::None
            }
        },
        Option::None => Option::None,
    };
    let config = match family {
        InterfaceType::WiFi => ConfigView::WiFi {
            ssid: Seq::<char>::empty(),
            security: crate::model::SecurityView::Open,
            dhcp: true,
            ip: ip,
        },
        InterfaceType::VPN => ConfigView::VPN {
            provider: Seq::<char>::empty(),
            config_path: Seq::<char>::empty(),
            auto_connect: false,
        },
        _ => ConfigView::Ethernet { dhcp: true, ip: ip, gateway: gateway, dns: dns },
    };
    IfaceView {
        id: 0u64,
        name: name,
        interface_type: family,
        status: status_enum_of(operstate),
        config: config,
        metrics: MetricsView {
            raw: counters,
            link_speed: link_speed,
            duplex: duplex,
            mtu: mtu,
            ..zero_metrics()
        },
    }
}

impl NetworkDiscovery {
    /// Executable form of `iface_from_sources_spec`: the surrounding process
    /// reads the files and listings (passing nothing for one it could not
    /// read) and this assembles the interface record.
    #[verifier::rlimit(100)]
    pub fn interface_from_sources(
        name: &str,
        operstate: Option<&str>,
        ip_show: Option<&str>,
        route_show: Option<&str>,
        resolv: Option<&str>,
        stats: Option<&str>,
        speed_file: Option<&str>,
        duplex_file: Option<&str>,
        mtu_file: Option<&str>,
    ) -> (r: NetworkInterface)
        ensures
            r@ == iface_from_sources_spec(
                name@,
                opt_str_view(operstate),
                opt_str_view(ip_show),
                opt_str_view(route_show),
                opt_str_view(resolv),
                opt_str_view(stats),
                opt_str_view(speed_file),
                opt_str_view(duplex_file),
                opt_str_view(mtu_file),
            ),
    {
        let family = if starts_with(name, "eth") || starts_with(name, "en") {
            InterfaceType::Ethernet
        } else if starts_with(name, "wlan") || starts_with(name, "wl") {
            InterfaceType::WiFi
        } else if starts_with(name, "tun") || starts_with(name, "wg") {
            InterfaceType::VPN
        } else {
            InterfaceType::Unknown
        };
        let status = match operstate {
            Option::Some(st) => {
                let t = trim(st);
                if t.eq(&String::from_str("up")) {
                    ConnectionStatus::Connected
                } else if t.eq(&String::from_str("dormant")) {
                    ConnectionStatus::Connecting
                } else {
                    ConnectionStatus::Disconnected
                }
            },
            Option::None => ConnectionStatus::Disconnected,
        };
        let ip = match ip_show {
            Option::Some(t) => {
                let lines = split_char(t, '\n');
                proof {
                    assert(lines.deep_view().skip(0) =~= lines.deep_view());
                }
                ip_scan(&lines, 0)
            },
            Option::None => Option::None,
        };
        let gateway = match route_show {
            Option::Some(t) => {
                let lines = split_char(t, '\n');
                proof {
                    assert(lines.deep_view().skip(0) =~= lines.deep_view());
                }
                gateway_scan(&lines, 0)
            },
            Option::None => Option::None,
        };
        let dns = Self::dns_servers(resolv);
        let counters = match stats {
            Option::Some(t) => match Self::parse_proc_net_dev(t, name) {
                Option::Some(c) => c,
                Option::None => RawCounters::zero(),
            },
            Option::None => RawCounters::zero(),
        };
        let link_speed = match speed_file {
            Option::Some(t) => Self::parse_sysfs_u32(t),
            Option::None => Option::None,
        };
        let duplex = match duplex_file {
            Option::Some(t) => Self::parse_duplex(t),
            Option::None => Option::None,
        };
        let mtu = match mtu_file {
            Option::Some(t) => Self::parse_sysfs_u32(t),
            Option::None => Option::None,
        };
        let config = match family {
            InterfaceType::WiFi => InterfaceConfig::WiFi {
                ssid: String::new(),
                security: WiFiSecurity::Open,
                dhcp: true,
                ip: ip,
            },
            InterfaceType::VPN => InterfaceConfig::VPN {
                provider: String::new(),
                config_path: String::new(),
                auto_connect: false,
            },
            _ => InterfaceConfig::Ethernet { dhcp: true, ip: ip, gateway: gateway, dns: dns },
        };
        NetworkInterface {
            id: 0,
            name: name.to_owned(),
            interface_type: family,
            status: status,
            config: config,
            metrics: NetworkMetrics {
                bytes_tx: counters.bytes_tx,
                bytes_rx: counters.bytes_rx,
                packets_tx: counters.packets_tx,
                packets_rx: counters.packets_rx,
                errors_tx: counters.errors_tx,
                errors_rx: counters.errors_rx,
                dropped_tx: counters.dropped_tx,
                dropped_rx: counters.dropped_rx,
                link_speed: link_speed,
                duplex: duplex,
                mtu: mtu,
                ..NetworkMetrics::zeroed()
            },
        }
    }
}

/// The view of an optional borrowed string.
pub open spec fn opt_str_view(o: Option<&str>) -> Option<Seq<char>> {
    match o {
        Option::Some(s) => Option::Some(s@),
        Option::None => Option::None,
    }
}

} // verus!
