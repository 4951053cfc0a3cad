//! The wire format: one message per line, UTF-8 text, fields separated by
//! `|`, strings percent-escaped so that no field can hold the separator or a
//! newline. Numbers are plain decimal; an optional field is `-` when absent
//! and `=` followed by the value when present; lists carry their length
//! first.
//!
//! Parsing is the exact inverse of encoding (`lemma_request_line_round_trip`,
//! `lemma_response_line_round_trip`). For additive schema changes two doors
//! are left open: a parser accepts extra trailing fields of a message, and an
//! interface record carries its own field count, so fields appended to a
//! record are skipped by a reader that does not know them.

use vstd::prelude::*;

use crate::text::{
    esc_spec, unesc_spec, lemma_unesc_esc, lemma_esc_free, u64_digits, digits_val, all_digits,
    lemma_u64_digits, is_digit, free_of, split_char_spec, join_char_spec, lemma_split_join,
    split_char, join_char, escape_token, unescape_token, parse_u64, u64_to_string, push_char,
};

verus! {

/// One parsed value and the position after it.
pub open spec fn p_str(ts: Seq<Seq<char>>, i: int) -> Option<(Seq<char>, int)> {
    if 0 <= i < ts.len() {
        match unesc_spec(ts[i]) {
            Option::Some(v) => Option::Some((v, i + 1)),
            Option::None => Option::None,
        }
    } else {
        Option::None
    }
}

/// A decimal token, within 64 bits.
pub open spec fn p_u64(ts: Seq<Seq<char>>, i: int) -> Option<(u64, int)> {
    if 0 <= i < ts.len() && ts[i].len() > 0 && all_digits(ts[i]) && digits_val(ts[i])
        <= u64::MAX as nat {
        Option::Some((digits_val(ts[i]) as u64, i + 1))
    } else {
        Option::None
    }
}

/// A decimal token, within 32 bits.
pub open spec fn p_u32(ts: Seq<Seq<char>>, i: int) -> Option<(u32, int)> {
    if 0 <= i < ts.len() && ts[i].len() > 0 && all_digits(ts[i]) && digits_val(ts[i])
        <= u32::MAX as nat {
        Option::Some((digits_val(ts[i]) as u32, i + 1))
    } else {
        Option::None
    }
}

/// A boolean token, `t` or `f`.
pub open spec fn p_bool(ts: Seq<Seq<char>>, i: int) -> Option<(bool, int)> {
    if 0 <= i < ts.len() && ts[i] == seq!['t'] {
        Option::Some((true, i + 1))
    } else if 0 <= i < ts.len() && ts[i] == seq!['f'] {
        Option::Some((false, i + 1))
    } else {
        Option::None
    }
}

/// An optional string token: `-`, or `=` followed by the escaped value.
pub open spec fn p_opt_str(ts: Seq<Seq<char>>, i: int) -> Option<(Option<Seq<char>>, int)> {
    if 0 <= i < ts.len() && ts[i] == seq!['-'] {
        Option::Some((Option::None, i + 1))
    } else if 0 <= i < ts.len() && ts[i].len() >= 1 && ts[i][0] == '=' {
        match unesc_spec(ts[i].skip(1)) {
            Option::Some(v) => Option::Some((Option::Some(v), i + 1)),
            Option::None => Option::None,
        }
    } else {
        Option::None
    }
}

/// An optional decimal token within 32 bits: `-`, or `=` followed by digits.
pub open spec fn p_opt_u32(ts: Seq<Seq<char>>, i: int) -> Option<(Option<u32>, int)> {
    if 0 <= i < ts.len() && ts[i] == seq!['-'] {
        Option::Some((Option::None, i + 1))
    } else if 0 <= i < ts.len() && ts[i].len() >= 2 && ts[i][0] == '=' && all_digits(
        ts[i].skip(1),
    ) && digits_val(ts[i].skip(1)) <= u32::MAX as nat {
        Option::Some((Option::Some(digits_val(ts[i].skip(1)) as u32), i + 1))
    } else {
        Option::None
    }
}

/// An optional decimal token within 64 bits.
pub open spec fn p_opt_u64(ts: Seq<Seq<char>>, i: int) -> Option<(Option<u64>, int)> {
    if 0 <= i < ts.len() && ts[i] == seq!['-'] {
        Option::Some((Option::None, i + 1))
    } else if 0 <= i < ts.len() && ts[i].len() >= 2 && ts[i][0] == '=' && all_digits(
        ts[i].skip(1),
    ) && digits_val(ts[i].skip(1)) <= u64::MAX as nat {
        Option::Some((Option::Some(digits_val(ts[i].skip(1)) as u64), i + 1))
    } else {
        Option::None
    }
}

/// The token for a string value.
pub open spec fn t_str(s: Seq<char>) -> Seq<char> {
    esc_spec(s)
}

/// The token for a number.
pub open spec fn t_u64(n: u64) -> Seq<char> {
    u64_digits(n as nat)
}

/// The token for a boolean.
pub open spec fn t_bool(b: bool) -> Seq<char> {
    if b {
        seq!['t']
    } else {
        seq!['f']
    }
}

/// The token for an optional string.
pub open spec fn t_opt_str(o: Option<Seq<char>>) -> Seq<char> {
    match o {
        Option::None => seq!['-'],
        Option::Some(s) => seq!['='] + esc_spec(s),
    }
}

/// The token for an optional 32-bit number.
pub open spec fn t_opt_u32(o: Option<u32>) -> Seq<char> {
    match o {
        Option::None => seq!['-'],
        Option::Some(v) => seq!['='] + u64_digits(v as nat),
    }
}

/// The token for an optional 64-bit number.
pub open spec fn t_opt_u64(o: Option<u64>) -> Seq<char> {
    match o {
        Option::None => seq!['-'],
        Option::Some(v) => seq!['='] + u64_digits(v as nat),
    }
}

/// A digit string holds neither the separator nor a newline.
pub proof fn lemma_free_digits(s: Seq<char>)
    requires
        all_digits(s),
    ensures
        free_of(s, '|'),
        free_of(s, '\n'),
{
    assert forall|i: int| 0 <= i < s.len() implies #[trigger] s[i] != '|' && s[i] != '\n' by {
        assert(is_digit(s[i]));
    }
}

/// Every primitive token holds neither the separator nor a newline.
pub proof fn lemma_free_primitive_toks(s: Seq<char>, n: u64, b: bool, os: Option<Seq<char>>, ou:
    Option<u64>, ow: Option<u32>)
    ensures
        free_of(t_str(s), '|'),
        free_of(t_str(s), '\n'),
        free_of(t_u64(n), '|'),
        free_of(t_u64(n), '\n'),
        free_of(t_bool(b), '|'),
        free_of(t_bool(b), '\n'),
        free_of(t_opt_str(os), '|'),
        free_of(t_opt_str(os), '\n'),
        free_of(t_opt_u64(ou), '|'),
        free_of(t_opt_u64(ou), '\n'),
        free_of(t_opt_u32(ow), '|'),
        free_of(t_opt_u32(ow), '\n'),
{
    lemma_esc_free(s);
    lemma_u64_digits(n as nat);
    lemma_free_digits(u64_digits(n as nat));
    match os {
        Option::Some(v) => {
            lemma_esc_free(v);
            let t = seq!['='] + esc_spec(v);
            assert forall|i: int| 0 <= i < t.len() implies #[trigger] t[i] != '|' && t[i] != '\n'
            by {
                if i > 0 {
                    assert(t[i] == esc_spec(v)[i - 1]);
                }
            }
        },
        Option::None => {},
    }
    match ou {
        Option::Some(v) => {
            lemma_u64_digits(v as nat);
            lemma_free_digits(u64_digits(v as nat));
            let t = seq!['='] + u64_digits(v as nat);
            assert forall|i: int| 0 <= i < t.len() implies #[trigger] t[i] != '|' && t[i] != '\n'
            by {
                if i > 0 {
                    assert(t[i] == u64_digits(v as nat)[i - 1]);
                }
            }
        },
        Option::None => {},
    }
    match ow {
        Option::Some(v) => {
            lemma_u64_digits(v as nat);
            lemma_free_digits(u64_digits(v as nat));
            let t = seq!['='] + u64_digits(v as nat);
            assert forall|i: int| 0 <= i < t.len() implies #[trigger] t[i] != '|' && t[i] != '\n'
            by {
                if i > 0 {
                    assert(t[i] == u64_digits(v as nat)[i - 1]);
                }
            }
        },
        Option::None => {},
    }
}

/// Each primitive parser reads back exactly what the matching token encodes.
pub proof fn lemma_p_primitive(ts: Seq<Seq<char>>, i: int)
    requires
        0 <= i < ts.len(),
    ensures
        forall|s: Seq<char>| ts[i] == #[trigger] t_str(s) ==> p_str(ts, i) == Option::Some(
            (s, i + 1),
        ),
        forall|n: u64| ts[i] == #[trigger] t_u64(n) ==> p_u64(ts, i) == Option::Some((n, i + 1)),
        forall|n: u32| ts[i] == #[trigger] t_u64(n as u64) ==> p_u32(ts, i) == Option::Some(
            (n, i + 1),
        ),
        forall|b: bool| ts[i] == #[trigger] t_bool(b) ==> p_bool(ts, i) == Option::Some(
            (b, i + 1),
        ),
        forall|o: Option<Seq<char>>| ts[i] == #[trigger] t_opt_str(o) ==> p_opt_str(ts, i)
            == Option::Some((o, i + 1)),
        forall|o: Option<u64>| ts[i] == #[trigger] t_opt_u64(o) ==> p_opt_u64(ts, i)
            == Option::Some((o, i + 1)),
        forall|o: Option<u32>| ts[i] == #[trigger] t_opt_u32(o) ==> p_opt_u32(ts, i)
            == Option::Some((o, i + 1)),
{
    assert forall|s: Seq<char>| ts[i] == #[trigger] t_str(s) implies p_str(ts, i) == Option::Some(
        (s, i + 1),
    ) by {
        lemma_unesc_esc(s);
    }
    assert forall|n: u64| ts[i] == #[trigger] t_u64(n) implies p_u64(ts, i) == Option::Some(
        (n, i + 1),
    ) by {
        lemma_u64_digits(n as nat);
    }
    assert forall|n: u32| ts[i] == #[trigger] t_u64(n as u64) implies p_u32(ts, i) == Option::Some(
        (n, i + 1),
    ) by {
        lemma_u64_digits(n as nat);
    }
    assert forall|b: bool| ts[i] == #[trigger] t_bool(b) implies p_bool(ts, i) == Option::Some(
        (b, i + 1),
    ) by {
        if b {
            assert(ts[i] == seq!['t']);
        } else {
            assert(ts[i] != seq!['t']) by {
                assert(t_bool(false)[0] == 'f');
                assert(seq!['t'][0] == 't');
            }
        }
    }
    assert forall|o: Option<Seq<char>>| ts[i] == #[trigger] t_opt_str(o) implies p_opt_str(ts, i)
        == Option::Some((o, i + 1)) by {
        match o {
            Option::None => {},
            Option::Some(v) => {
                let t = seq!['='] + esc_spec(v);
                assert(t[0] == '=');
                assert(t != seq!['-']) by {
                    assert(t[0] == '=');
                    assert(seq!['-'][0] == '-');
                }
                assert(t.skip(1) =~= esc_spec(v));
                lemma_unesc_esc(v);
            },
        }
    }
    assert forall|o: Option<u64>| ts[i] == #[trigger] t_opt_u64(o) implies p_opt_u64(ts, i)
        == Option::Some((o, i + 1)) by {
        match o {
            Option::None => {},
            Option::Some(v) => {
                let t = seq!['='] + u64_digits(v as nat);
                lemma_u64_digits(v as nat);
                assert(t[0] == '=');
                assert(t != seq!['-']) by {
                    assert(t[0] == '=');
                    assert(seq!['-'][0] == '-');
                }
                assert(t.skip(1) =~= u64_digits(v as nat));
            },
        }
    }
    assert forall|o: Option<u32>| ts[i] == #[trigger] t_opt_u32(o) implies p_opt_u32(ts, i)
        == Option::Some((o, i + 1)) by {
        match o {
            Option::None => {},
            Option::Some(v) => {
                let t = seq!['='] + u64_digits(v as nat);
                lemma_u64_digits(v as nat);
                assert(t[0] == '=');
                assert(t != seq!['-']) by {
                    assert(t[0] == '=');
                    assert(seq!['-'][0] == '-');
                }
                assert(t.skip(1) =~= u64_digits(v as nat));
            },
        }
    }
}

/// Every token is free of the separator and of newlines.
pub open spec fn toks_free(ts: Seq<Seq<char>>) -> bool {
    forall|k: int|
        0 <= k < ts.len() ==> free_of(#[trigger] ts[k], '|') && free_of(ts[k], '\n')
}

/// The token for an interface family.
pub open spec fn family_tok(t: crate::model::InterfaceType) -> Seq<char> {
    match t {
        crate::model::InterfaceType::Ethernet => "ethernet"@,
        crate::model::InterfaceType::WiFi => "wifi"@,
        crate::model::InterfaceType::VPN => "vpn"@,
        crate::model::InterfaceType::Unknown => "unknown"@,
    }
}

/// Parse an interface family token.
pub open spec fn p_family(ts: Seq<Seq<char>>, i: int) -> Option<(crate::model::InterfaceType, int)> {
    if !(0 <= i < ts.len()) {
        Option::None
    } else if ts[i] == "ethernet"@ {
        Option::Some((crate::model::InterfaceType::Ethernet, i + 1))
    } else if ts[i] == "wifi"@ {
        Option::Some((crate::model::InterfaceType::WiFi, i + 1))
    } else if ts[i] == "vpn"@ {
        Option::Some((crate::model::InterfaceType::VPN, i + 1))
    } else if ts[i] == "unknown"@ {
        Option::Some((crate::model::InterfaceType::Unknown, i + 1))
    } else {
        Option::None
    }
}

/// The tokens for a connection status.
pub open spec fn status_toks(s: crate::model::StatusView) -> Seq<Seq<char>> {
    match s {
        crate::model::StatusView::Disconnected => seq!["disconnected"@],
        crate::model::StatusView::Connecting => seq!["connecting"@],
        crate::model::StatusView::Connected => seq!["connected"@],
        crate::model::StatusView::Error(r) => seq!["error"@, t_str(r)],
    }
}

/// Parse a connection status.
pub open spec fn p_status(ts: Seq<Seq<char>>, i: int) -> Option<(crate::model::StatusView, int)> {
    if !(0 <= i < ts.len()) {
        Option::None
    } else if ts[i] == "disconnected"@ {
        Option::Some((crate::model::StatusView::Disconnected, i + 1))
    } else if ts[i] == "connecting"@ {
        Option::Some((crate::model::StatusView::Connecting, i + 1))
    } else if ts[i] == "connected"@ {
        Option::Some((crate::model::StatusView::Connected, i + 1))
    } else if ts[i] == "error"@ {
        match p_str(ts, i + 1) {
            Option::Some((r, j)) => Option::Some((crate::model::StatusView::Error(r), j)),
            Option::None => Option::None,
        }
    } else {
        Option::None
    }
}

/// The tokens for a WiFi security mode.
pub open spec fn sec_toks(s: crate::model::SecurityView) -> Seq<Seq<char>> {
    match s {
        crate::model::SecurityView::Open => seq!["open"@],
        crate::model::SecurityView::WPA2(p) => seq!["wpa2"@, t_str(p)],
        crate::model::SecurityView::WPA3(p) => seq!["wpa3"@, t_str(p)],
        crate::model::SecurityView::Enterprise => seq!["enterprise"@],
    }
}

/// Parse a WiFi security mode.
pub open spec fn p_security(ts: Seq<Seq<char>>, i: int) -> Option<
    (crate::model::SecurityView, int),
> {
    if !(0 <= i < ts.len()) {
        Option::None
    } else if ts[i] == "open"@ {
        Option::Some((crate::model::SecurityView::Open, i + 1))
    } else if ts[i] == "wpa2"@ {
        match p_str(ts, i + 1) {
            Option::Some((p, j)) => Option::Some((crate::model::SecurityView::WPA2(p), j)),
            Option::None => Option::None,
        }
    } else if ts[i] == "wpa3"@ {
        match p_str(ts, i + 1) {
            Option::Some((p, j)) => Option::Some((crate::model::SecurityView::WPA3(p), j)),
            Option::None => Option::None,
        }
    } else if ts[i] == "enterprise"@ {
        Option::Some((crate::model::SecurityView::Enterprise, i + 1))
    } else {
        Option::None
    }
}

/// The tokens of a list of strings, one per entry.
pub open spec fn str_list_toks(vs: Seq<Seq<char>>) -> Seq<Seq<char>>
    decreases vs.len(),
{
    if vs.len() == 0 {
        Seq::<Seq<char>>::empty()
    } else {
        seq![t_str(vs[0])] + str_list_toks(vs.drop_first())
    }
}

/// Parse `n` string tokens.
pub open spec fn p_str_list(ts: Seq<Seq<char>>, i: int, n: nat) -> Option<(Seq<Seq<char>>, int)>
    decreases n,
{
    if n == 0 {
        Option::Some((Seq::<Seq<char>>::empty(), i))
    } else {
        match p_str(ts, i) {
            Option::Some((v, j)) => match p_str_list(ts, j, (n - 1) as nat) {
                Option::Some((vs, k)) => Option::Some((seq![v] + vs, k)),
                Option::None => Option::None,
            },
            Option::None => Option::None,
        }
    }
}

/// The tokens for a configuration.
pub open spec fn config_toks(c: crate::model::ConfigView) -> Seq<Seq<char>> {
    match c {
        crate::model::ConfigView::Ethernet { dhcp, ip, gateway, dns } => seq![
            "cfg_ethernet"@,
            t_bool(dhcp),
            t_opt_str(ip),
            t_opt_str(gateway),
            t_u64(dns.len() as u64),
        ] + str_list_toks(dns),
        crate::model::ConfigView::WiFi { ssid, security, dhcp, ip } => seq![
            "cfg_wifi"@,
            t_str(ssid),
        ] + sec_toks(security) + seq![t_bool(dhcp), t_opt_str(ip)],
        crate::model::ConfigView::VPN { provider, config_path, auto_connect } => seq![
            "cfg_vpn"@,
            t_str(provider),
            t_str(config_path),
            t_bool(auto_connect),
        ],
    }
}

/// Parse a configuration.
pub open spec fn p_config(ts: Seq<Seq<char>>, i: int) -> Option<(crate::model::ConfigView, int)> {
    if !(0 <= i < ts.len()) {
        Option::None
    } else if ts[i] == "cfg_ethernet"@ {
        match p_bool(ts, i + 1) {
            Option::Some((dhcp, j1)) => match p_opt_str(ts, j1) {
                Option::Some((ip, j2)) => match p_opt_str(ts, j2) {
                    Option::Some((gateway, j3)) => match p_u64(ts, j3) {
                        Option::Some((n, j4)) => match p_str_list(ts, j4, n as nat) {
                            Option::Some((dns, j5)) => Option::Some(
                                (
                                    crate::model::ConfigView::Ethernet {
                                        dhcp: dhcp,
                                        ip: ip,
                                        gateway: gateway,
                                        dns: dns,
                                    },
                                    j5,
                                ),
                            ),
                            Option::None => Option::None,
                        },
                        Option::None => Option::None,
                    },
                    Option::None => Option::None,
                },
                Option::None => Option::None,
            },
            Option::None => Option::None,
        }
    } else if ts[i] == "cfg_wifi"@ {
        match p_str(ts, i + 1) {
            Option::Some((ssid, j1)) => match p_security(ts, j1) {
                Option::Some((security, j2)) => match p_bool(ts, j2) {
                    Option::Some((dhcp, j3)) => match p_opt_str(ts, j3) {
                        Option::Some((ip, j4)) => Option::Some(
                            (
                                crate::model::ConfigView::WiFi {
                                    ssid: ssid,
                                    security: security,
                                    dhcp: dhcp,
                                    ip: ip,
                                },
                                j4,
                            ),
                        ),
                        Option::None => Option::None,
                    },
                    Option::None => Option::None,
                },
                Option::None => Option::None,
            },
            Option::None => Option::None,
        }
    } else if ts[i] == "cfg_vpn"@ {
        match p_str(ts, i + 1) {
            Option::Some((provider, j1)) => match p_str(ts, j1) {
                Option::Some((config_path, j2)) => match p_bool(ts, j2) {
                    Option::Some((auto_connect, j3)) => Option::Some(
                        (
                            crate::model::ConfigView::VPN {
                                provider: provider,
                                config_path: config_path,
                                auto_connect: auto_connect,
                            },
                            j3,
                        ),
                    ),
                    Option::None => Option::None,
                },
                Option::None => Option::None,
            },
            Option::None => Option::None,
        }
    } else {
        Option::None
    }
}

/// The tokens for a telemetry snapshot.
pub open spec fn metrics_toks(m: crate::model::MetricsView) -> Seq<Seq<char>> {
    seq![
        t_u64(m.raw.bytes_tx),
        t_u64(m.raw.bytes_rx),
        t_u64(m.raw.packets_tx),
        t_u64(m.raw.packets_rx),
        t_u64(m.raw.errors_tx),
        t_u64(m.raw.errors_rx),
        t_u64(m.raw.dropped_tx),
        t_u64(m.raw.dropped_rx),
        t_u64(m.speed_up),
        t_u64(m.speed_down),
        t_u64(m.packets_per_sec_tx),
        t_u64(m.packets_per_sec_rx),
        t_opt_u32(m.link_speed),
        t_opt_str(m.duplex),
        t_opt_u32(m.mtu),
        t_opt_u64(m.uptime_ms),
        t_u64(m.total_session_tx),
        t_u64(m.total_session_rx),
    ]
}

/// Parse a telemetry snapshot.
pub open spec fn p_metrics(ts: Seq<Seq<char>>, i: int) -> Option<(crate::model::MetricsView, int)> {
    if i + 18 <= ts.len() && 0 <= i {
        match (
            p_u64(ts, i),
            p_u64(ts, i + 1),
            p_u64(ts, i + 2),
            p_u64(ts, i + 3),
            p_u64(ts, i + 4),
            p_u64(ts, i + 5),
            p_u64(ts, i + 6),
            p_u64(ts, i + 7),
            p_u64(ts, i + 8),
            p_u64(ts, i + 9),
            p_u64(ts, i + 10),
            p_u64(ts, i + 11),
            p_opt_u32(ts, i + 12),
            p_opt_str(ts, i + 13),
            p_opt_u32(ts, i + 14),
            p_opt_u64(ts, i + 15),
            p_u64(ts, i + 16),
            p_u64(ts, i + 17),
        ) {
            (
                Option::Some((btx, _)),
                Option::Some((brx, _)),
                Option::Some((ptx, _)),
                Option::Some((prx, _)),
                Option::Some((etx, _)),
                Option::Some((erx, _)),
                Option::Some((dtx, _)),
                Option::Some((drx, _)),
                Option::Some((su, _)),
                Option::Some((sd, _)),
                Option::Some((pst, _)),
                Option::Some((psr, _)),
                Option::Some((ls, _)),
                Option::Some((dup, _)),
                Option::Some((mtu, _)),
                Option::Some((up, _)),
                Option::Some((tst, _)),
                Option::Some((tsr, _)),
            ) => Option::Some(
                (
                    crate::model::MetricsView {
                        raw: crate::model::RawCounters {
                            bytes_tx: btx,
                            bytes_rx: brx,
                            packets_tx: ptx,
                            packets_rx: prx,
                            errors_tx: etx,
                            errors_rx: erx,
                            dropped_tx: dtx,
                            dropped_rx: drx,
                        },
                        speed_up: su,
                        speed_down: sd,
                        packets_per_sec_tx: pst,
                        packets_per_sec_rx: psr,
                        link_speed: ls,
                        duplex: dup,
                        mtu: mtu,
                        uptime_ms: up,
                        total_session_tx: tst,
                        total_session_rx: tsr,
                    },
                    i + 18,
                ),
            ),
            _ => Option::None,
        }
    } else {
        Option::None
    }
}

/// Reveal every tag literal of the wire format.
proof fn reveal_tags()
    ensures
        "ethernet"@.len() == 8,
        "wifi"@.len() == 4,
        "vpn"@.len() == 3,
        "unknown"@.len() == 7,
        "disconnected"@.len() == 12,
        "connecting"@.len() == 10,
        "connected"@.len() == 9,
        "error"@.len() == 5,
        "open"@.len() == 4,
        "wpa2"@.len() == 4,
        "wpa3"@.len() == 4,
        "enterprise"@.len() == 10,
        "cfg_ethernet"@.len() == 12,
        "cfg_wifi"@.len() == 8,
        "cfg_vpn"@.len() == 7,
        "open"@[0] == 'o',
        "wpa2"@[0] == 'w',
        "wpa3"@[0] == 'w',
        "wpa2"@[3] == '2',
        "wpa3"@[3] == '3',
        "connecting"@[4] == 'e',
        "enterprise"@[4] == 'r',
        free_of("ethernet"@, '|') && free_of("ethernet"@, '\n'),
        free_of("wifi"@, '|') && free_of("wifi"@, '\n'),
        free_of("vpn"@, '|') && free_of("vpn"@, '\n'),
        free_of("unknown"@, '|') && free_of("unknown"@, '\n'),
        free_of("disconnected"@, '|') && free_of("disconnected"@, '\n'),
        free_of("connecting"@, '|') && free_of("connecting"@, '\n'),
        free_of("connected"@, '|') && free_of("connected"@, '\n'),
        free_of("error"@, '|') && free_of("error"@, '\n'),
        free_of("open"@, '|') && free_of("open"@, '\n'),
        free_of("wpa2"@, '|') && free_of("wpa2"@, '\n'),
        free_of("wpa3"@, '|') && free_of("wpa3"@, '\n'),
        free_of("enterprise"@, '|') && free_of("enterprise"@, '\n'),
        free_of("cfg_ethernet"@, '|') && free_of("cfg_ethernet"@, '\n'),
        free_of("cfg_wifi"@, '|') && free_of("cfg_wifi"@, '\n'),
        free_of("cfg_vpn"@, '|') && free_of("cfg_vpn"@, '\n'),
{
    reveal_strlit("ethernet");
    reveal_strlit("wifi");
    reveal_strlit("vpn");
    reveal_strlit("unknown");
    reveal_strlit("disconnected");
    reveal_strlit("connecting");
    reveal_strlit("connected");
    reveal_strlit("error");
    reveal_strlit("open");
    reveal_strlit("wpa2");
    reveal_strlit("wpa3");
    reveal_strlit("enterprise");
    reveal_strlit("cfg_ethernet");
    reveal_strlit("cfg_wifi");
    reveal_strlit("cfg_vpn");
}

/// The indices of a middle section within `pre + mid + suf`.
proof fn lemma_concat_index(pre: Seq<Seq<char>>, mid: Seq<Seq<char>>, suf: Seq<Seq<char>>)
    ensures
        forall|k: int|
            0 <= k < mid.len() ==> (pre + mid + suf)[pre.len() as int + k] == #[trigger] mid[k],
        (pre + mid + suf).len() == pre.len() as int + mid.len() + suf.len(),
{
}

/// A family token parses back to its family and is separator-free.
pub proof fn lemma_family_tok(pre: Seq<Seq<char>>, t: crate::model::InterfaceType, suf: Seq<
    Seq<char>,
>)
    ensures
        p_family(pre + seq![family_tok(t)] + suf, pre.len() as int) == Option::Some(
            (t, pre.len() as int + 1),
        ),
        free_of(family_tok(t), '|'),
        free_of(family_tok(t), '\n'),
{
    reveal_tags();
    lemma_concat_index(pre, seq![family_tok(t)], suf);
    let ts = pre + seq![family_tok(t)] + suf;
    assert(ts[pre.len() as int] == family_tok(t));
}

/// Status tokens parse back to their status and are separator-free.
pub proof fn lemma_status_toks(pre: Seq<Seq<char>>, s: crate::model::StatusView, suf: Seq<
    Seq<char>,
>)
    ensures
        p_status(pre + status_toks(s) + suf, pre.len() as int) == Option::Some(
            (s, pre.len() as int + status_toks(s).len()),
        ),
        toks_free(status_toks(s)),
{
    reveal_tags();
    let toks = status_toks(s);
    lemma_concat_index(pre, toks, suf);
    let ts = pre + toks + suf;
    assert(ts[pre.len() as int] == toks[0]);
    match s {
        crate::model::StatusView::Error(r) => {
            assert(ts[pre.len() as int + 1] == toks[1]);
            lemma_p_primitive(ts, pre.len() as int + 1);
            lemma_free_primitive_toks(r, 0, false, Option::None, Option::None, Option::None);
        },
        _ => {},
    }
}

/// Security tokens parse back to their mode and are separator-free.
pub proof fn lemma_sec_toks(pre: Seq<Seq<char>>, s: crate::model::SecurityView, suf: Seq<
    Seq<char>,
>)
    ensures
        p_security(pre + sec_toks(s) + suf, pre.len() as int) == Option::Some(
            (s, pre.len() as int + sec_toks(s).len()),
        ),
        toks_free(sec_toks(s)),
{
    reveal_tags();
    let toks = sec_toks(s);
    lemma_concat_index(pre, toks, suf);
    let ts = pre + toks + suf;
    assert(ts[pre.len() as int] == toks[0]);
    match s {
        crate::model::SecurityView::WPA2(p) => {
            assert(ts[pre.len() as int + 1] == toks[1]);
            lemma_p_primitive(ts, pre.len() as int + 1);
            lemma_free_primitive_toks(p, 0, false, Option::None, Option::None, Option::None);
        },
        crate::model::SecurityView::WPA3(p) => {
            assert(ts[pre.len() as int + 1] == toks[1]);
            lemma_p_primitive(ts, pre.len() as int + 1);
            lemma_free_primitive_toks(p, 0, false, Option::None, Option::None, Option::None);
        },
        _ => {},
    }
}

/// A string list's tokens are one per entry.
pub proof fn lemma_str_list_len(vs: Seq<Seq<char>>)
    ensures
        str_list_toks(vs).len() == vs.len(),
    decreases vs.len(),
{
    if vs.len() > 0 {
        lemma_str_list_len(vs.drop_first());
    }
}

/// String-list tokens parse back to the list and are separator-free.
pub proof fn lemma_str_list_toks(pre: Seq<Seq<char>>, vs: Seq<Seq<char>>, suf: Seq<Seq<char>>)
    ensures
        p_str_list(pre + str_list_toks(vs) + suf, pre.len() as int, vs.len()) == Option::Some(
            (vs, pre.len() as int + vs.len()),
        ),
        toks_free(str_list_toks(vs)),
    decreases vs.len(),
{
    lemma_str_list_len(vs);
    let toks = str_list_toks(vs);
    lemma_concat_index(pre, toks, suf);
    let ts = pre + toks + suf;
    if vs.len() == 0 {
        assert(p_str_list(ts, pre.len() as int, 0) == Option::Some(
            (Seq::<Seq<char>>::empty(), pre.len() as int),
        ));
        assert(vs =~= Seq::<Seq<char>>::empty());
    } else {
        let head = vs[0];
        let tail = vs.drop_first();
        lemma_str_list_len(tail);
        let pre2 = pre + seq![t_str(head)];
        lemma_str_list_toks(pre2, tail, suf);
        assert(toks == seq![t_str(head)] + str_list_toks(tail));
        assert(pre + toks + suf =~= pre2 + str_list_toks(tail) + suf);
        assert(ts[pre.len() as int] == toks[0]);
        assert(toks[0] == t_str(head));
        lemma_p_primitive(ts, pre.len() as int);
        assert(p_str(ts, pre.len() as int) == Option::Some((head, pre.len() as int + 1)));
        assert(pre2.len() == pre.len() + 1);
        assert(p_str_list(ts, pre.len() as int + 1, tail.len()) == Option::Some(
            (tail, pre.len() as int + 1 + tail.len()),
        ));
        assert(seq![head] + tail =~= vs);
        lemma_free_primitive_toks(head, 0, false, Option::None, Option::None, Option::None);
        assert forall|k: int|
            0 <= k < toks.len() implies free_of(#[trigger] toks[k], '|') && free_of(
            toks[k],
            '\n',
        ) by {
            if k > 0 {
                assert(toks[k] == str_list_toks(tail)[k - 1]);
            }
        }
    }
}

/// The one machine bound the wire format puts on a configuration: a
/// name-server list's length must fit its count field.
pub open spec fn config_len_ok(c: crate::model::ConfigView) -> bool {
    match c {
        crate::model::ConfigView::Ethernet { dns, .. } => dns.len() <= u64::MAX as nat,
        _ => true,
    }
}

/// Configuration tokens parse back to the configuration and are
/// separator-free: the Ethernet variant.
#[verifier::rlimit(100)]
proof fn lemma_config_toks_eth(pre: Seq<Seq<char>>, c: crate::model::ConfigView, suf: Seq<
    Seq<char>,
>)
    requires
        c is Ethernet,
        config_len_ok(c),
    ensures
        p_config(pre + config_toks(c) + suf, pre.len() as int) == Option::Some(
            (c, pre.len() as int + config_toks(c).len()),
        ),
        toks_free(config_toks(c)),
{
    reveal_tags();
    let toks = config_toks(c);
    lemma_concat_index(pre, toks, suf);
    let ts = pre + toks + suf;
    assert(ts[pre.len() as int] == toks[0]);
    match c {
        crate::model::ConfigView::Ethernet { dhcp, ip, gateway, dns } => {
            let head = seq![
                "cfg_ethernet"@,
                t_bool(dhcp),
                t_opt_str(ip),
                t_opt_str(gateway),
                t_u64(dns.len() as u64),
            ];
            assert(toks == head + str_list_toks(dns));
            assert forall|k: int| 0 <= k < head.len() implies ts[pre.len() as int + k] == head[k] by {
                assert(toks[k] == head[k]);
            }
            lemma_p_primitive(ts, pre.len() as int + 1);
            lemma_p_primitive(ts, pre.len() as int + 2);
            lemma_p_primitive(ts, pre.len() as int + 3);
            lemma_p_primitive(ts, pre.len() as int + 4);
            let pre2 = pre + head;
            lemma_str_list_toks(pre2, dns, suf);
            assert(pre + toks + suf =~= pre2 + str_list_toks(dns) + suf);
            assert(dns.len() as u64 as nat == dns.len());
            lemma_free_primitive_toks(
                Seq::<char>::empty(),
                dns.len() as u64,
                dhcp,
                ip,
                Option::None,
                Option::None,
            );
            lemma_free_primitive_toks(
                Seq::<char>::empty(),
                0,
                false,
                gateway,
                Option::None,
                Option::None,
            );
            lemma_str_list_len(dns);
            assert forall|k: int|
                0 <= k < toks.len() implies free_of(#[trigger] toks[k], '|') && free_of(
                toks[k],
                '\n',
            ) by {
                if k >= head.len() {
                    assert(toks[k] == str_list_toks(dns)[k - head.len()]);
                }
            }
        },
        _ => {},
    }
}

/// Configuration tokens parse back to the configuration and are
/// separator-free: the WiFi variant.
#[verifier::rlimit(100)]
proof fn lemma_config_toks_wifi(pre: Seq<Seq<char>>, c: crate::model::ConfigView, suf: Seq<
    Seq<char>,
>)
    requires
        c is WiFi,
    ensures
        p_config(pre + config_toks(c) + suf, pre.len() as int) == Option::Some(
            (c, pre.len() as int + config_toks(c).len()),
        ),
        toks_free(config_toks(c)),
{
    reveal_tags();
    let toks = config_toks(c);
    lemma_concat_index(pre, toks, suf);
    let ts = pre + toks + suf;
    assert(ts[pre.len() as int] == toks[0]);
    match c {
        crate::model::ConfigView::WiFi { ssid, security, dhcp, ip } => {
            let head = seq!["cfg_wifi"@, t_str(ssid)];
            let tail = seq![t_bool(dhcp), t_opt_str(ip)];
            assert(toks == head + sec_toks(security) + tail);
            lemma_sec_toks(pre + head, security, tail + suf);
            assert(pre + toks + suf =~= (pre + head) + sec_toks(security) + (tail + suf));
            assert(ts[pre.len() as int + 1] == toks[1]);
            assert(toks[1] == t_str(ssid));
            lemma_p_primitive(ts, pre.len() as int + 1);
            let j2 = pre.len() as int + 2 + sec_toks(security).len();
            assert forall|k: int| 0 <= k < tail.len() implies ts[j2 + k] == tail[k] by {
                assert(toks[2 + sec_toks(security).len() + k] == tail[k]);
            }
            lemma_p_primitive(ts, j2);
            lemma_p_primitive(ts, j2 + 1);
            lemma_free_primitive_toks(ssid, 0, dhcp, ip, Option::None, Option::None);
            assert forall|k: int|
                0 <= k < toks.len() implies free_of(#[trigger] toks[k], '|') && free_of(
                toks[k],
                '\n',
            ) by {
                if 2 <= k < 2 + sec_toks(security).len() {
                    assert(toks[k] == sec_toks(security)[k - 2]);
                } else if k >= 2 + sec_toks(security).len() {
                    assert(toks[k] == tail[k - 2 - sec_toks(security).len()]);
                }
            }
        },
        _ => {},
    }
}

/// Configuration tokens parse back to the configuration and are
/// separator-free: the VPN variant.
#[verifier::rlimit(100)]
proof fn lemma_config_toks_vpn(pre: Seq<Seq<char>>, c: crate::model::ConfigView, suf: Seq<
    Seq<char>,
>)
    requires
        c is VPN,
    ensures
        p_config(pre + config_toks(c) + suf, pre.len() as int) == Option::Some(
            (c, pre.len() as int + config_toks(c).len()),
        ),
        toks_free(config_toks(c)),
{
    reveal_tags();
    let toks = config_toks(c);
    lemma_concat_index(pre, toks, suf);
    let ts = pre + toks + suf;
    assert(ts[pre.len() as int] == toks[0]);
    match c {
        crate::model::ConfigView::VPN { provider, config_path, auto_connect } => {
            assert(ts[pre.len() as int + 1] == toks[1]);
            assert(ts[pre.len() as int + 2] == toks[2]);
            assert(ts[pre.len() as int + 3] == toks[3]);
            lemma_p_primitive(ts, pre.len() as int + 1);
            lemma_p_primitive(ts, pre.len() as int + 2);
            lemma_p_primitive(ts, pre.len() as int + 3);
            lemma_free_primitive_toks(
                provider,
                0,
                auto_connect,
                Option::None,
                Option::None,
                Option::None,
            );
            lemma_free_primitive_toks(
                config_path,
                0,
                false,
                Option::None,
                Option::None,
                Option::None,
            );
        },
        _ => {},
    }
}

/// Configuration tokens parse back to the configuration and are
/// separator-free.
pub proof fn lemma_config_toks(pre: Seq<Seq<char>>, c: crate::model::ConfigView, suf: Seq<
    Seq<char>,
>)
    requires
        config_len_ok(c),
    ensures
        p_config(pre + config_toks(c) + suf, pre.len() as int) == Option::Some(
            (c, pre.len() as int + config_toks(c).len()),
        ),
        toks_free(config_toks(c)),
{
    match c {
        crate::model::ConfigView::Ethernet { .. } => lemma_config_toks_eth(pre, c, suf),
        crate::model::ConfigView::WiFi { .. } => lemma_config_toks_wifi(pre, c, suf),
        crate::model::ConfigView::VPN { .. } => lemma_config_toks_vpn(pre, c, suf),
    }
}

/// Telemetry tokens parse back to the snapshot and are separator-free.
#[verifier::rlimit(100)]
pub proof fn lemma_metrics_toks(pre: Seq<Seq<char>>, m: crate::model::MetricsView, suf: Seq<
    Seq<char>,
>)
    ensures
        p_metrics(pre + metrics_toks(m) + suf, pre.len() as int) == Option::Some(
            (m, pre.len() as int + 18),
        ),
        metrics_toks(m).len() == 18,
        toks_free(metrics_toks(m)),
{
    let toks = metrics_toks(m);
    lemma_concat_index(pre, toks, suf);
    let ts = pre + toks + suf;
    assert forall|k: int| 0 <= k < 18 implies ts[pre.len() as int + k] == toks[k] by {}
    let i = pre.len() as int;
    lemma_p_primitive(ts, i);
    lemma_p_primitive(ts, i + 1);
    lemma_p_primitive(ts, i + 2);
    lemma_p_primitive(ts, i + 3);
    lemma_p_primitive(ts, i + 4);
    lemma_p_primitive(ts, i + 5);
    lemma_p_primitive(ts, i + 6);
    lemma_p_primitive(ts, i + 7);
    lemma_p_primitive(ts, i + 8);
    lemma_p_primitive(ts, i + 9);
    lemma_p_primitive(ts, i + 10);
    lemma_p_primitive(ts, i + 11);
    lemma_p_primitive(ts, i + 12);
    lemma_p_primitive(ts, i + 13);
    lemma_p_primitive(ts, i + 14);
    lemma_p_primitive(ts, i + 15);
    lemma_p_primitive(ts, i + 16);
    lemma_p_primitive(ts, i + 17);
    lemma_free_primitive_toks(Seq::<char>::empty(), m.raw.bytes_tx, false, m.duplex, m.uptime_ms,
        m.link_speed);
    lemma_free_primitive_toks(Seq::<char>::empty(), m.raw.bytes_rx, false, Option::None,
        Option::None, m.mtu);
    lemma_free_primitive_toks(Seq::<char>::empty(), m.raw.packets_tx, false, Option::None,
        Option::None, Option::None);
    lemma_free_primitive_toks(Seq::<char>::empty(), m.raw.packets_rx, false, Option::None,
        Option::None, Option::None);
    lemma_free_primitive_toks(Seq::<char>::empty(), m.raw.errors_tx, false, Option::None,
        Option::None, Option::None);
    lemma_free_primitive_toks(Seq::<char>::empty(), m.raw.errors_rx, false, Option::None,
        Option::None, Option::None);
    lemma_free_primitive_toks(Seq::<char>::empty(), m.raw.dropped_tx, false, Option::None,
        Option::None, Option::None);
    lemma_free_primitive_toks(Seq::<char>::empty(), m.raw.dropped_rx, false, Option::None,
        Option::None, Option::None);
    lemma_free_primitive_toks(Seq::<char>::empty(), m.speed_up, false, Option::None, Option::None,
        Option::None);
    lemma_free_primitive_toks(Seq::<char>::empty(), m.speed_down, false, Option::None,
        Option::None, Option::None);
    lemma_free_primitive_toks(Seq::<char>::empty(), m.packets_per_sec_tx, false, Option::None,
        Option::None, Option::None);
    lemma_free_primitive_toks(Seq::<char>::empty(), m.packets_per_sec_rx, false, Option::None,
        Option::None, Option::None);
    lemma_free_primitive_toks(Seq::<char>::empty(), m.total_session_tx, false, Option::None,
        Option::None, Option::None);
    lemma_free_primitive_toks(Seq::<char>::empty(), m.total_session_rx, false, Option::None,
        Option::None, Option::None);
}

/// The fields of one interface entity.
pub open spec fn iface_body_toks(v: crate::model::IfaceView) -> Seq<Seq<char>> {
    seq![t_u64(v.id), t_str(v.name), family_tok(v.interface_type)] + status_toks(v.status)
        + config_toks(v.config) + metrics_toks(v.metrics)
}

/// The tokens for one interface entity: its field count, then the fields.
/// The count lets a reader skip fields it does not know, so a record may
/// grow new fields without breaking an older reader.
pub open spec fn iface_toks(v: crate::model::IfaceView) -> Seq<Seq<char>> {
    seq![t_u64(iface_body_toks(v).len() as u64)] + iface_body_toks(v)
}

/// Parse the fields of one interface entity. Opaque: the record parser
/// works through `lemma_iface_toks`, not through this definition.
#[verifier::opaque]
pub open spec fn p_iface_body(ts: Seq<Seq<char>>, i: int) -> Option<
    (crate::model::IfaceView, int),
> {
    match p_u64(ts, i) {
        Option::Some((id, j1)) => match p_str(ts, j1) {
            Option::Some((name, j2)) => match p_family(ts, j2) {
                Option::Some((ft, j3)) => match p_status(ts, j3) {
                    Option::Some((st, j4)) => match p_config(ts, j4) {
                        Option::Some((cfg, j5)) => match p_metrics(ts, j5) {
                            Option::Some((m, j6)) => Option::Some(
                                (
                                    crate::model::IfaceView {
                                        id: id,
                                        name: name,
                                        interface_type: ft,
                                        status: st,
                                        config: cfg,
                                        metrics: m,
                                    },
                                    j6,
                                ),
                            ),
                            Option::None => Option::None,
                        },
                        Option::None => Option::None,
                    },
                    Option::None => Option::None,
                },
                Option::None => Option::None,
            },
            Option::None => Option::None,
        },
        Option::None => Option::None,
    }
}

/// Parse one interface entity: read the field count, then the known fields,
/// and skip whatever fields the record carries beyond them.
pub open spec fn p_iface(ts: Seq<Seq<char>>, i: int) -> Option<(crate::model::IfaceView, int)> {
    match p_u64(ts, i) {
        Option::Some((n, j)) => if j + n <= ts.len() {
            match p_iface_body(ts, j) {
                Option::Some((v, k)) => if k <= j + n {
                    Option::Some((v, j + n))
                } else {
                    Option::None
                },
                Option::None => Option::None,
            }
        } else {
            Option::None
        },
        Option::None => Option::None,
    }
}

/// The wire format's machine bounds on one interface: its name-server list
/// and its field count must fit their count fields.
pub open spec fn iface_len_ok(v: crate::model::IfaceView) -> bool {
    config_len_ok(v.config) && iface_body_toks(v).len() <= u64::MAX as nat
}

/// Interface body tokens are separator-free.
#[verifier::rlimit(100)]
proof fn lemma_iface_body_toks_free(v: crate::model::IfaceView)
    ensures
        toks_free(iface_body_toks(v)),
{
    let toks = iface_body_toks(v);
    let head = seq![t_u64(v.id), t_str(v.name), family_tok(v.interface_type)];
    lemma_free_primitive_toks(v.name, v.id, false, Option::None, Option::None, Option::None);
    lemma_family_tok(Seq::<Seq<char>>::empty(), v.interface_type, Seq::<Seq<char>>::empty());
    lemma_status_toks(Seq::<Seq<char>>::empty(), v.status, Seq::<Seq<char>>::empty());
    lemma_config_toks_free_only(v.config);
    lemma_metrics_toks(Seq::<Seq<char>>::empty(), v.metrics, Seq::<Seq<char>>::empty());
    assert forall|k: int|
        0 <= k < toks.len() implies free_of(#[trigger] toks[k], '|') && free_of(toks[k], '\n')
    by {
        if k < 3 {
            assert(toks[k] == head[k]);
        } else if k < 3 + status_toks(v.status).len() {
            assert(toks[k] == status_toks(v.status)[k - 3]);
        } else if k < 3 + status_toks(v.status).len() + config_toks(v.config).len() {
            assert(toks[k] == config_toks(v.config)[k - 3 - status_toks(v.status).len()]);
        } else {
            assert(toks[k] == metrics_toks(v.metrics)[k - 3 - status_toks(v.status).len()
                - config_toks(v.config).len()]);
        }
    }
}

/// Configuration tokens are separator-free, without any length bound.
proof fn lemma_config_toks_free_only(c: crate::model::ConfigView)
    ensures
        toks_free(config_toks(c)),
{
    reveal_tags();
    let toks = config_toks(c);
    match c {
        crate::model::ConfigView::Ethernet { dhcp, ip, gateway, dns } => {
            let head = seq![
                "cfg_ethernet"@,
                t_bool(dhcp),
                t_opt_str(ip),
                t_opt_str(gateway),
                t_u64(dns.len() as u64),
            ];
            lemma_free_primitive_toks(
                Seq::<char>::empty(),
                dns.len() as u64,
                dhcp,
                ip,
                Option::None,
                Option::None,
            );
            lemma_free_primitive_toks(
                Seq::<char>::empty(),
                0,
                false,
                gateway,
                Option::None,
                Option::None,
            );
            lemma_str_list_toks(Seq::<Seq<char>>::empty(), dns, Seq::<Seq<char>>::empty());
            assert forall|k: int|
                0 <= k < toks.len() implies free_of(#[trigger] toks[k], '|') && free_of(
                toks[k],
                '\n',
            ) by {
                if k < head.len() {
                    assert(toks[k] == head[k]);
                } else {
                    assert(toks[k] == str_list_toks(dns)[k - head.len()]);
                }
            }
        },
        crate::model::ConfigView::WiFi { ssid, security, dhcp, ip } => {
            let head = seq!["cfg_wifi"@, t_str(ssid)];
            let tail = seq![t_bool(dhcp), t_opt_str(ip)];
            lemma_free_primitive_toks(ssid, 0, dhcp, ip, Option::None, Option::None);
            lemma_sec_toks(Seq::<Seq<char>>::empty(), security, Seq::<Seq<char>>::empty());
            assert forall|k: int|
                0 <= k < toks.len() implies free_of(#[trigger] toks[k], '|') && free_of(
                toks[k],
                '\n',
            ) by {
                if k < 2 {
                    assert(toks[k] == head[k]);
                } else if k < 2 + sec_toks(security).len() {
                    assert(toks[k] == sec_toks(security)[k - 2]);
                } else {
                    assert(toks[k] == tail[k - 2 - sec_toks(security).len()]);
                }
            }
        },
        crate::model::ConfigView::VPN { provider, config_path, auto_connect } => {
            lemma_free_primitive_toks(
                provider,
                0,
                auto_connect,
                Option::None,
                Option::None,
                Option::None,
            );
            lemma_free_primitive_toks(
                config_path,
                0,
                false,
                Option::None,
                Option::None,
                Option::None,
            );
        },
    }
}

/// The header of an interface's tokens parses back: id, name, family,
/// status.
#[verifier::rlimit(100)]
proof fn lemma_iface_parts_a(pre: Seq<Seq<char>>, v: crate::model::IfaceView, suf: Seq<
    Seq<char>,
>)
    ensures
        ({
            let ts = pre + iface_body_toks(v) + suf;
            let i = pre.len() as int;
            &&& p_u64(ts, i) == Option::<(u64, int)>::Some((v.id, i + 1))
            &&& p_str(ts, i + 1) == Option::<(Seq<char>, int)>::Some((v.name, i + 2))
            &&& p_family(ts, i + 2) == Option::<(crate::model::InterfaceType, int)>::Some(
                (v.interface_type, i + 3),
            )
            &&& p_status(ts, i + 3) == Option::<(crate::model::StatusView, int)>::Some(
                (v.status, i + 3 + status_toks(v.status).len()),
            )
        }),
{
    let toks = iface_body_toks(v);
    let head = seq![t_u64(v.id), t_str(v.name), family_tok(v.interface_type)];
    let ts = pre + toks + suf;
    lemma_concat_index(pre, toks, suf);
    assert forall|k: int| 0 <= k < head.len() implies ts[pre.len() as int + k] == head[k] by {
        assert(toks[k] == head[k]);
    }
    lemma_p_primitive(ts, pre.len() as int);
    lemma_p_primitive(ts, pre.len() as int + 1);
    lemma_family_tok(pre + seq![t_u64(v.id), t_str(v.name)], v.interface_type, status_toks(
        v.status,
    ) + config_toks(v.config) + metrics_toks(v.metrics) + suf);
    assert(pre + toks + suf =~= (pre + seq![t_u64(v.id), t_str(v.name)]) + seq![
        family_tok(v.interface_type),
    ] + (status_toks(v.status) + config_toks(v.config) + metrics_toks(v.metrics) + suf));
    let pre_st = pre + head;
    lemma_status_toks(pre_st, v.status, config_toks(v.config) + metrics_toks(v.metrics) + suf);
    assert(pre + toks + suf =~= pre_st + status_toks(v.status) + (config_toks(v.config)
        + metrics_toks(v.metrics) + suf));
}

/// The tail of an interface's tokens parses back: configuration and
/// telemetry.
#[verifier::rlimit(100)]
proof fn lemma_iface_parts_b(pre: Seq<Seq<char>>, v: crate::model::IfaceView, suf: Seq<
    Seq<char>,
>)
    requires
        iface_len_ok(v),
    ensures
        ({
            let ts = pre + iface_body_toks(v) + suf;
            let j4 = pre.len() as int + 3 + status_toks(v.status).len();
            &&& p_config(ts, j4) == Option::<(crate::model::ConfigView, int)>::Some(
                (v.config, j4 + config_toks(v.config).len()),
            )
            &&& p_metrics(ts, j4 + config_toks(v.config).len()) == Option::<
                (crate::model::MetricsView, int),
            >::Some((v.metrics, pre.len() as int + iface_body_toks(v).len()))
        }),
{
    let toks = iface_body_toks(v);
    let head = seq![t_u64(v.id), t_str(v.name), family_tok(v.interface_type)];
    let ts = pre + toks + suf;
    let pre_cfg = pre + head + status_toks(v.status);
    lemma_config_toks(pre_cfg, v.config, metrics_toks(v.metrics) + suf);
    assert(pre + toks + suf =~= pre_cfg + config_toks(v.config) + (metrics_toks(v.metrics)
        + suf));
    let pre_m = pre_cfg + config_toks(v.config);
    lemma_metrics_toks(pre_m, v.metrics, suf);
    assert(pre + toks + suf =~= pre_m + metrics_toks(v.metrics) + suf);
    assert(pre_m.len() + 18 == pre.len() + toks.len());
}

/// Interface tokens parse back to the interface and are separator-free.
#[verifier::rlimit(100)]
pub proof fn lemma_iface_toks(pre: Seq<Seq<char>>, v: crate::model::IfaceView, suf: Seq<
    Seq<char>,
>)
    requires
        iface_len_ok(v),
    ensures
        p_iface(pre + iface_toks(v) + suf, pre.len() as int) == Option::Some(
            (v, pre.len() as int + iface_toks(v).len()),
        ),
        toks_free(iface_toks(v)),
{
    reveal(p_iface_body);
    lemma_iface_body_toks_free(v);
    let body = iface_body_toks(v);
    let count = t_u64(body.len() as u64);
    let toks = iface_toks(v);
    let pre2 = pre + seq![count];
    let ts = pre + toks + suf;
    assert(ts =~= pre2 + body + suf);
    lemma_iface_parts_a(pre2, v, suf);
    lemma_iface_parts_b(pre2, v, suf);
    lemma_concat_index(pre, toks, suf);
    assert(ts[pre.len() as int] == toks[0]);
    assert(toks[0] == count);
    lemma_p_primitive(ts, pre.len() as int);
    assert((body.len() as u64) as nat == body.len());
    assert(pre2.len() == pre.len() + 1);
    lemma_free_primitive_toks(
        Seq::<char>::empty(),
        body.len() as u64,
        false,
        Option::None,
        Option::None,
        Option::None,
    );
    assert forall|k: int|
        0 <= k < toks.len() implies free_of(#[trigger] toks[k], '|') && free_of(toks[k], '\n')
    by {
        if k > 0 {
            assert(toks[k] == body[k - 1]);
        }
    }
}

/// The tokens for a list of interfaces, one entity after another.
pub open spec fn ifaces_toks(s: Seq<crate::model::IfaceView>) -> Seq<Seq<char>>
    decreases s.len(),
{
    if s.len() == 0 {
        Seq::<Seq<char>>::empty()
    } else {
        iface_toks(s[0]) + ifaces_toks(s.drop_first())
    }
}

/// Parse `n` interface entities.
pub open spec fn p_ifaces(ts: Seq<Seq<char>>, i: int, n: nat) -> Option<
    (Seq<crate::model::IfaceView>, int),
>
    decreases n,
{
    if n == 0 {
        Option::Some((Seq::<crate::model::IfaceView>::empty(), i))
    } else {
        match p_iface(ts, i) {
            Option::Some((v, j)) => match p_ifaces(ts, j, (n - 1) as nat) {
                Option::Some((vs, k)) => Option::Some((seq![v] + vs, k)),
                Option::None => Option::None,
            },
            Option::None => Option::None,
        }
    }
}

/// Interface-list tokens are separator-free.
#[verifier::rlimit(100)]
proof fn lemma_ifaces_toks_free(s: Seq<crate::model::IfaceView>)
    requires
        forall|k: int| 0 <= k < s.len() ==> iface_len_ok(#[trigger] s[k]),
    ensures
        toks_free(ifaces_toks(s)),
    decreases s.len(),
{
    let toks = ifaces_toks(s);
    if s.len() > 0 {
        let head = iface_toks(s[0]);
        let tail = s.drop_first();
        assert(forall|k: int| 0 <= k < tail.len() ==> tail[k] == s[k + 1]);
        assert(toks == head + ifaces_toks(tail));
        lemma_iface_toks(Seq::<Seq<char>>::empty(), s[0], Seq::<Seq<char>>::empty());
        lemma_ifaces_toks_free(tail);
        assert forall|k: int|
            0 <= k < toks.len() implies free_of(#[trigger] toks[k], '|') && free_of(
            toks[k],
            '\n',
        ) by {
            if k < head.len() {
                assert(toks[k] == head[k]);
            } else {
                assert(toks[k] == ifaces_toks(tail)[k - head.len()]);
            }
        }
    }
}

/// Interface-list tokens parse back to the list.
#[verifier::rlimit(100)]
proof fn lemma_ifaces_toks_parse(pre: Seq<Seq<char>>, s: Seq<crate::model::IfaceView>, suf: Seq<
    Seq<char>,
>)
    requires
        forall|k: int| 0 <= k < s.len() ==> iface_len_ok(#[trigger] s[k]),
    ensures
        p_ifaces(pre + ifaces_toks(s) + suf, pre.len() as int, s.len()) == Option::Some(
            (s, pre.len() as int + ifaces_toks(s).len()),
        ),
    decreases s.len(),
{
    let toks = ifaces_toks(s);
    let ts = pre + toks + suf;
    if s.len() == 0 {
        assert(s =~= Seq::<crate::model::IfaceView>::empty());
        assert(toks =~= Seq::<Seq<char>>::empty());
    } else {
        let head = iface_toks(s[0]);
        let tail = s.drop_first();
        assert(forall|k: int| 0 <= k < tail.len() ==> tail[k] == s[k + 1]);
        assert(toks == head + ifaces_toks(tail));
        lemma_iface_toks(pre, s[0], ifaces_toks(tail) + suf);
        assert(pre + toks + suf =~= pre + head + (ifaces_toks(tail) + suf));
        let pre2 = pre + head;
        lemma_ifaces_toks_parse(pre2, tail, suf);
        assert(pre + toks + suf =~= pre2 + ifaces_toks(tail) + suf);
        assert(seq![s[0]] + tail =~= s);
    }
}

/// Interface-list tokens parse back to the list and are separator-free.
pub proof fn lemma_ifaces_toks(pre: Seq<Seq<char>>, s: Seq<crate::model::IfaceView>, suf: Seq<
    Seq<char>,
>)
    requires
        forall|k: int| 0 <= k < s.len() ==> iface_len_ok(#[trigger] s[k]),
    ensures
        p_ifaces(pre + ifaces_toks(s) + suf, pre.len() as int, s.len()) == Option::Some(
            (s, pre.len() as int + ifaces_toks(s).len()),
        ),
        toks_free(ifaces_toks(s)),
{
    lemma_ifaces_toks_free(s);
    lemma_ifaces_toks_parse(pre, s, suf);
}

/// The tokens of a request line.
pub open spec fn request_toks(q: crate::protocol::RequestView) -> Seq<Seq<char>> {
    match q {
        crate::protocol::RequestView::GetInterfaces => seq!["GetInterfaces"@],
        crate::protocol::RequestView::ConnectInterface { name } => seq![
            "ConnectInterface"@,
            t_str(name),
        ],
        crate::protocol::RequestView::DisconnectInterface { name } => seq![
            "DisconnectInterface"@,
            t_str(name),
        ],
        crate::protocol::RequestView::ConfigureInterface { name, config } => seq![
            "ConfigureInterface"@,
            t_str(name),
        ] + config_toks(config),
        crate::protocol::RequestView::GetMetrics { name } => seq!["GetMetrics"@, t_str(name)],
    }
}

/// Parse a request from its tokens; extra trailing tokens are ignored, so a
/// newer peer may add fields without breaking this reader.
pub open spec fn p_request(ts: Seq<Seq<char>>) -> Option<crate::protocol::RequestView> {
    if ts.len() < 1 {
        Option::None
    } else if ts[0] == "GetInterfaces"@ {
        Option::Some(crate::protocol::RequestView::GetInterfaces)
    } else if ts[0] == "ConnectInterface"@ {
        match p_str(ts, 1) {
            Option::Some((name, _)) => Option::Some(
                crate::protocol::RequestView::ConnectInterface { name: name },
            ),
            Option::None => Option::None,
        }
    } else if ts[0] == "DisconnectInterface"@ {
        match p_str(ts, 1) {
            Option::Some((name, _)) => Option::Some(
                crate::protocol::RequestView::DisconnectInterface { name: name },
            ),
            Option::None => Option::None,
        }
    } else if ts[0] == "ConfigureInterface"@ {
        match p_str(ts, 1) {
            Option::Some((name, j)) => match p_config(ts, j) {
                Option::Some((config, _)) => Option::Some(
                    crate::protocol::RequestView::ConfigureInterface {
                        name: name,
                        config: config,
                    },
                ),
                Option::None => Option::None,
            },
            Option::None => Option::None,
        }
    } else if ts[0] == "GetMetrics"@ {
        match p_str(ts, 1) {
            Option::Some((name, _)) => Option::Some(
                crate::protocol::RequestView::GetMetrics { name: name },
            ),
            Option::None => Option::None,
        }
    } else {
        Option::None
    }
}

/// The tokens of a response line.
pub open spec fn response_toks(p: crate::protocol::ResponseView) -> Seq<Seq<char>> {
    match p {
        crate::protocol::ResponseView::InterfaceList { interfaces } => seq![
            "InterfaceList"@,
            t_u64(interfaces.len() as u64),
        ] + ifaces_toks(interfaces),
        crate::protocol::ResponseView::Success { message } => seq!["Success"@, t_str(message)],
        crate::protocol::ResponseView::Error { message } => seq!["Error"@, t_str(message)],
        crate::protocol::ResponseView::Metrics { metrics } => seq!["Metrics"@] + metrics_toks(
            metrics,
        ),
    }
}

/// Parse a response from its tokens; extra trailing tokens are ignored.
pub open spec fn p_response(ts: Seq<Seq<char>>) -> Option<crate::protocol::ResponseView> {
    if ts.len() < 1 {
        Option::None
    } else if ts[0] == "InterfaceList"@ {
        match p_u64(ts, 1) {
            Option::Some((n, j)) => match p_ifaces(ts, j, n as nat) {
                Option::Some((vs, _)) => Option::Some(
                    crate::protocol::ResponseView::InterfaceList { interfaces: vs },
                ),
                Option::None => Option::None,
            },
            Option::None => Option::None,
        }
    } else if ts[0] == "Success"@ {
        match p_str(ts, 1) {
            Option::Some((m, _)) => Option::Some(
                crate::protocol::ResponseView::Success { message: m },
            ),
            Option::None => Option::None,
        }
    } else if ts[0] == "Error"@ {
        match p_str(ts, 1) {
            Option::Some((m, _)) => Option::Some(
                crate::protocol::ResponseView::Error { message: m },
            ),
            Option::None => Option::None,
        }
    } else if ts[0] == "Metrics"@ {
        match p_metrics(ts, 1) {
            Option::Some((m, _)) => Option::Some(
                crate::protocol::ResponseView::Metrics { metrics: m },
            ),
            Option::None => Option::None,
        }
    } else {
        Option::None
    }
}

/// The wire format's machine bounds on a request.
pub open spec fn request_len_ok(q: crate::protocol::RequestView) -> bool {
    match q {
        crate::protocol::RequestView::ConfigureInterface { config, .. } => config_len_ok(config),
        _ => true,
    }
}

/// The wire format's machine bounds on a response.
pub open spec fn response_len_ok(p: crate::protocol::ResponseView) -> bool {
    match p {
        crate::protocol::ResponseView::InterfaceList { interfaces } => interfaces.len()
            <= u64::MAX as nat && forall|k: int|
            0 <= k < interfaces.len() ==> iface_len_ok(#[trigger] interfaces[k]),
        _ => true,
    }
}

/// Reveal the message tag literals.
proof fn reveal_msg_tags()
    ensures
        "GetInterfaces"@.len() == 13,
        "ConnectInterface"@.len() == 16,
        "DisconnectInterface"@.len() == 19,
        "ConfigureInterface"@.len() == 18,
        "GetMetrics"@.len() == 10,
        "InterfaceList"@.len() == 13,
        "Success"@.len() == 7,
        "Error"@.len() == 5,
        "Metrics"@.len() == 7,
        "Success"@[0] == 'S',
        "Metrics"@[0] == 'M',
        free_of("GetInterfaces"@, '|') && free_of("GetInterfaces"@, '\n'),
        free_of("ConnectInterface"@, '|') && free_of("ConnectInterface"@, '\n'),
        free_of("DisconnectInterface"@, '|') && free_of("DisconnectInterface"@, '\n'),
        free_of("ConfigureInterface"@, '|') && free_of("ConfigureInterface"@, '\n'),
        free_of("GetMetrics"@, '|') && free_of("GetMetrics"@, '\n'),
        free_of("InterfaceList"@, '|') && free_of("InterfaceList"@, '\n'),
        free_of("Success"@, '|') && free_of("Success"@, '\n'),
        free_of("Error"@, '|') && free_of("Error"@, '\n'),
        free_of("Metrics"@, '|') && free_of("Metrics"@, '\n'),
{
    reveal_strlit("GetInterfaces");
    reveal_strlit("ConnectInterface");
    reveal_strlit("DisconnectInterface");
    reveal_strlit("ConfigureInterface");
    reveal_strlit("GetMetrics");
    reveal_strlit("InterfaceList");
    reveal_strlit("Success");
    reveal_strlit("Error");
    reveal_strlit("Metrics");
}

/// A request's tokens parse back to the request and are separator-free.
#[verifier::rlimit(100)]
pub proof fn lemma_request_toks(q: crate::protocol::RequestView)
    requires
        request_len_ok(q),
    ensures
        p_request(request_toks(q)) == Option::Some(q),
        toks_free(request_toks(q)),
        request_toks(q).len() >= 1,
{
    reveal_msg_tags();
    let toks = request_toks(q);
    match q {
        crate::protocol::RequestView::GetInterfaces => {},
        crate::protocol::RequestView::ConnectInterface { name } => {
            lemma_p_primitive(toks, 1);
            assert(toks[1] == t_str(name));
            lemma_free_primitive_toks(name, 0, false, Option::None, Option::None, Option::None);
        },
        crate::protocol::RequestView::DisconnectInterface { name } => {
            lemma_p_primitive(toks, 1);
            assert(toks[1] == t_str(name));
            lemma_free_primitive_toks(name, 0, false, Option::None, Option::None, Option::None);
        },
        crate::protocol::RequestView::ConfigureInterface { name, config } => {
            let head = seq!["ConfigureInterface"@, t_str(name)];
            assert(toks == head + config_toks(config));
            assert(toks[1] == t_str(name));
            lemma_p_primitive(toks, 1);
            lemma_config_toks(head, config, Seq::<Seq<char>>::empty());
            assert(head + config_toks(config) + Seq::<Seq<char>>::empty() =~= toks);
            lemma_free_primitive_toks(name, 0, false, Option::None, Option::None, Option::None);
            assert forall|k: int|
                0 <= k < toks.len() implies free_of(#[trigger] toks[k], '|') && free_of(
                toks[k],
                '\n',
            ) by {
                if k >= 2 {
                    assert(toks[k] == config_toks(config)[k - 2]);
                }
            }
        },
        crate::protocol::RequestView::GetMetrics { name } => {
            lemma_p_primitive(toks, 1);
            assert(toks[1] == t_str(name));
            lemma_free_primitive_toks(name, 0, false, Option::None, Option::None, Option::None);
        },
    }
}

/// A response's tokens parse back to the response and are separator-free.
#[verifier::rlimit(100)]
pub proof fn lemma_response_toks(p: crate::protocol::ResponseView)
    requires
        response_len_ok(p),
    ensures
        p_response(response_toks(p)) == Option::Some(p),
        toks_free(response_toks(p)),
        response_toks(p).len() >= 1,
{
    reveal_msg_tags();
    let toks = response_toks(p);
    match p {
        crate::protocol::ResponseView::InterfaceList { interfaces } => {
            let head = seq!["InterfaceList"@, t_u64(interfaces.len() as u64)];
            assert(toks == head + ifaces_toks(interfaces));
            assert(toks[1] == t_u64(interfaces.len() as u64));
            lemma_p_primitive(toks, 1);
            lemma_ifaces_toks(head, interfaces, Seq::<Seq<char>>::empty());
            assert(head + ifaces_toks(interfaces) + Seq::<Seq<char>>::empty() =~= toks);
            assert(interfaces.len() as u64 as nat == interfaces.len());
            lemma_free_primitive_toks(
                Seq::<char>::empty(),
                interfaces.len() as u64,
                false,
                Option::None,
                Option::None,
                Option::None,
            );
            assert forall|k: int|
                0 <= k < toks.len() implies free_of(#[trigger] toks[k], '|') && free_of(
                toks[k],
                '\n',
            ) by {
                if k >= 2 {
                    assert(toks[k] == ifaces_toks(interfaces)[k - 2]);
                }
            }
        },
        crate::protocol::ResponseView::Success { message } => {
            lemma_p_primitive(toks, 1);
            assert(toks[1] == t_str(message));
            lemma_free_primitive_toks(
                message,
                0,
                false,
                Option::None,
                Option::None,
                Option::None,
            );
        },
        crate::protocol::ResponseView::Error { message } => {
            lemma_p_primitive(toks, 1);
            assert(toks[1] == t_str(message));
            lemma_free_primitive_toks(
                message,
                0,
                false,
                Option::None,
                Option::None,
                Option::None,
            );
        },
        crate::protocol::ResponseView::Metrics { metrics } => {
            let head = seq!["Metrics"@];
            assert(toks == head + metrics_toks(metrics));
            lemma_metrics_toks(head, metrics, Seq::<Seq<char>>::empty());
            assert(head + metrics_toks(metrics) + Seq::<Seq<char>>::empty() =~= toks);
            assert forall|k: int|
                0 <= k < toks.len() implies free_of(#[trigger] toks[k], '|') && free_of(
                toks[k],
                '\n',
            ) by {
                if k >= 1 {
                    assert(toks[k] == metrics_toks(metrics)[k - 1]);
                }
            }
        },
    }
}

/// One request as one line of wire text.
pub open spec fn request_line(q: crate::protocol::RequestView) -> Seq<char> {
    join_char_spec(request_toks(q), '|')
}

/// What a line of wire text parses to as a request.
pub open spec fn parse_request_line_spec(line: Seq<char>) -> Option<
    crate::protocol::RequestView,
> {
    p_request(split_char_spec(line, '|'))
}

/// One response as one line of wire text.
pub open spec fn response_line(p: crate::protocol::ResponseView) -> Seq<char> {
    join_char_spec(response_toks(p), '|')
}

/// What a line of wire text parses to as a response.
pub open spec fn parse_response_line_spec(line: Seq<char>) -> Option<
    crate::protocol::ResponseView,
> {
    p_response(split_char_spec(line, '|'))
}

/// Round trip: every request survives the wire unchanged.
pub proof fn lemma_request_line_round_trip(q: crate::protocol::RequestView)
    requires
        request_len_ok(q),
    ensures
        parse_request_line_spec(request_line(q)) == Option::Some(q),
{
    lemma_request_toks(q);
    lemma_split_join(request_toks(q), '|');
}

/// Round trip: every response survives the wire unchanged.
pub proof fn lemma_response_line_round_trip(p: crate::protocol::ResponseView)
    requires
        response_len_ok(p),
    ensures
        parse_response_line_spec(response_line(p)) == Option::Some(p),
{
    lemma_response_toks(p);
    lemma_split_join(response_toks(p), '|');
}

/// Append one token.
fn push_tok(out: &mut Vec<String>, t: String)
    ensures
        final(out).deep_view() == old(out).deep_view().push(t@),
{
    let ghost pre = out.deep_view();
    out.push(t);
    proof {
        assert(out.deep_view() =~= pre.push(t@));
    }
}

/// The executable token for a boolean.
fn tok_bool(b: bool) -> (r: String)
    ensures
        r@ == t_bool(b),
{
    proof {
        reveal_strlit("t");
        reveal_strlit("f");
        assert("t"@ =~= seq!['t']);
        assert("f"@ =~= seq!['f']);
    }
    if b {
        String::from_str("t")
    } else {
        String::from_str("f")
    }
}

/// The executable token for an optional string.
fn tok_opt_str(o: &Option<String>) -> (r: String)
    ensures
        r@ == t_opt_str(crate::model::opt_view(*o)),
{
    proof {
        reveal_strlit("-");
        reveal_strlit("=");
        assert("-"@ =~= seq!['-']);
        assert("="@ =~= seq!['=']);
    }
    match o {
        Option::None => String::from_str("-"),
        Option::Some(s) => String::from_str("=").concat(escape_token(s.as_str()).as_str()),
    }
}

/// The executable token for an optional 32-bit number.
fn tok_opt_u32(o: Option<u32>) -> (r: String)
    ensures
        r@ == t_opt_u32(o),
{
    proof {
        reveal_strlit("-");
        reveal_strlit("=");
        assert("-"@ =~= seq!['-']);
        assert("="@ =~= seq!['=']);
    }
    match o {
        Option::None => String::from_str("-"),
        Option::Some(v) => String::from_str("=").concat(u64_to_string(v as u64).as_str()),
    }
}

/// The executable token for an optional 64-bit number.
fn tok_opt_u64(o: Option<u64>) -> (r: String)
    ensures
        r@ == t_opt_u64(o),
{
    proof {
        reveal_strlit("-");
        reveal_strlit("=");
        assert("-"@ =~= seq!['-']);
        assert("="@ =~= seq!['=']);
    }
    match o {
        Option::None => String::from_str("-"),
        Option::Some(v) => String::from_str("=").concat(u64_to_string(v).as_str()),
    }
}

/// Append a connection status's tokens.
fn enc_status(out: &mut Vec<String>, st: &crate::model::ConnectionStatus)
    ensures
        final(out).deep_view() == old(out).deep_view() + status_toks(st@),
{
    let ghost pre = out.deep_view();
    match st {
        crate::model::ConnectionStatus::Disconnected => {
            push_tok(out, String::from_str("disconnected"));
            proof {
                assert(pre.push("disconnected"@) =~= pre + status_toks(st@));
            }
        },
        crate::model::ConnectionStatus::Connecting => {
            push_tok(out, String::from_str("connecting"));
            proof {
                assert(pre.push("connecting"@) =~= pre + status_toks(st@));
            }
        },
        crate::model::ConnectionStatus::Connected => {
            push_tok(out, String::from_str("connected"));
            proof {
                assert(pre.push("connected"@) =~= pre + status_toks(st@));
            }
        },
        crate::model::ConnectionStatus::Error(r) => {
            push_tok(out, String::from_str("error"));
            push_tok(out, escape_token(r.as_str()));
            proof {
                assert(pre.push("error"@).push(t_str(r@)) =~= pre + status_toks(st@));
            }
        },
    }
}

/// Append a WiFi security mode's tokens.
fn enc_security(out: &mut Vec<String>, s: &crate::model::WiFiSecurity)
    ensures
        final(out).deep_view() == old(out).deep_view() + sec_toks(s@),
{
    let ghost pre = out.deep_view();
    match s {
        crate::model::WiFiSecurity::Open => {
            push_tok(out, String::from_str("open"));
            proof {
                assert(pre.push("open"@) =~= pre + sec_toks(s@));
            }
        },
        crate::model::WiFiSecurity::WPA2(p) => {
            push_tok(out, String::from_str("wpa2"));
            push_tok(out, escape_token(p.as_str()));
            proof {
                assert(pre.push("wpa2"@).push(t_str(p@)) =~= pre + sec_toks(s@));
            }
        },
        crate::model::WiFiSecurity::WPA3(p) => {
            push_tok(out, String::from_str("wpa3"));
            push_tok(out, escape_token(p.as_str()));
            proof {
                assert(pre.push("wpa3"@).push(t_str(p@)) =~= pre + sec_toks(s@));
            }
        },
        crate::model::WiFiSecurity::Enterprise => {
            push_tok(out, String::from_str("enterprise"));
            proof {
                assert(pre.push("enterprise"@) =~= pre + sec_toks(s@));
            }
        },
    }
}

/// Append a configuration's tokens.
fn enc_config(out: &mut Vec<String>, c: &crate::model::InterfaceConfig)
    ensures
        final(out).deep_view() == old(out).deep_view() + config_toks(c@),
{
    let ghost pre = out.deep_view();
    match c {
        crate::model::InterfaceConfig::Ethernet { dhcp, ip, gateway, dns } => {
            push_tok(out, String::from_str("cfg_ethernet"));
            push_tok(out, tok_bool(*dhcp));
            push_tok(out, tok_opt_str(ip));
            push_tok(out, tok_opt_str(gateway));
            push_tok(out, u64_to_string(dns.len() as u64));
            let ghost head_done = out.deep_view();
            let mut k: usize = 0;
            while k < dns.len()
                invariant
                    k <= dns.len(),
                    out.deep_view() == head_done + str_list_toks_prefix(dns.deep_view(), k as int),
                decreases dns.len() - k,
            {
                push_tok(out, escape_token(dns[k].as_str()));
                proof {
                    lemma_str_list_toks_prefix_snoc(dns.deep_view(), k as int);
                    assert(head_done + str_list_toks_prefix(dns.deep_view(), k as int).push(
                        t_str(dns.deep_view()[k as int]),
                    ) =~= (head_done + str_list_toks_prefix(dns.deep_view(), k as int)).push(
                        t_str(dns.deep_view()[k as int]),
                    ));
                }
                k = k + 1;
            }
            proof {
                lemma_str_list_toks_prefix_full(dns.deep_view());
                assert(head_done =~= pre + seq![
                    "cfg_ethernet"@,
                    t_bool(*dhcp),
                    t_opt_str(crate::model::opt_view(*ip)),
                    t_opt_str(crate::model::opt_view(*gateway)),
                    t_u64(dns.len() as u64),
                ]);
                assert(out.deep_view() =~= pre + config_toks(c@));
            }
        },
        crate::model::InterfaceConfig::WiFi { ssid, security, dhcp, ip } => {
            push_tok(out, String::from_str("cfg_wifi"));
            push_tok(out, escape_token(ssid.as_str()));
            enc_security(out, security);
            push_tok(out, tok_bool(*dhcp));
            push_tok(out, tok_opt_str(ip));
            proof {
                assert(out.deep_view() =~= pre + config_toks(c@));
            }
        },
        crate::model::InterfaceConfig::VPN { provider, config_path, auto_connect } => {
            push_tok(out, String::from_str("cfg_vpn"));
            push_tok(out, escape_token(provider.as_str()));
            push_tok(out, escape_token(config_path.as_str()));
            push_tok(out, tok_bool(*auto_connect));
            proof {
                assert(out.deep_view() =~= pre + config_toks(c@));
            }
        },
    }
}

/// The first `k` tokens of a string list.
pub open spec fn str_list_toks_prefix(vs: Seq<Seq<char>>, k: int) -> Seq<Seq<char>> {
    str_list_toks(vs.take(k))
}

/// One more entry extends the token prefix by one token.
pub proof fn lemma_str_list_toks_prefix_snoc(vs: Seq<Seq<char>>, k: int)
    requires
        0 <= k < vs.len(),
    ensures
        str_list_toks_prefix(vs, k + 1) == str_list_toks_prefix(vs, k).push(t_str(vs[k])),
{
    lemma_str_list_snoc(vs.take(k), vs[k]);
    assert(vs.take(k + 1) =~= vs.take(k).push(vs[k]));
}

/// The whole prefix is the whole token list.
pub proof fn lemma_str_list_toks_prefix_full(vs: Seq<Seq<char>>)
    ensures
        str_list_toks_prefix(vs, vs.len() as int) == str_list_toks(vs),
{
    assert(vs.take(vs.len() as int) =~= vs);
}

/// Appending an entry appends its token.
pub proof fn lemma_str_list_snoc(vs: Seq<Seq<char>>, v: Seq<char>)
    ensures
        str_list_toks(vs.push(v)) == str_list_toks(vs).push(t_str(v)),
    decreases vs.len(),
{
    let w = vs.push(v);
    if vs.len() == 0 {
        assert(w[0] == v);
        assert(w.drop_first() =~= Seq::<Seq<char>>::empty());
        assert(str_list_toks(w) == seq![t_str(v)] + str_list_toks(w.drop_first()));
        assert(seq![t_str(v)] + Seq::<Seq<char>>::empty() =~= seq![t_str(v)]);
        assert(str_list_toks(vs) =~= Seq::<Seq<char>>::empty());
        assert(Seq::<Seq<char>>::empty().push(t_str(v)) =~= seq![t_str(v)]);
    } else {
        assert(w[0] == vs[0]);
        assert(w.drop_first() =~= vs.drop_first().push(v));
        lemma_str_list_snoc(vs.drop_first(), v);
        assert(seq![t_str(vs[0])] + str_list_toks(vs.drop_first()).push(t_str(v)) =~= (seq![
            t_str(vs[0]),
        ] + str_list_toks(vs.drop_first())).push(t_str(v)));
    }
}

/// Append the raw-counter tokens of a snapshot.
#[verifier::rlimit(100)]
fn enc_metrics_raw(out: &mut Vec<String>, m: &crate::model::NetworkMetrics)
    ensures
        final(out).deep_view() == old(out).deep_view() + seq![
            t_u64(m.bytes_tx),
            t_u64(m.bytes_rx),
            t_u64(m.packets_tx),
            t_u64(m.packets_rx),
            t_u64(m.errors_tx),
            t_u64(m.errors_rx),
            t_u64(m.dropped_tx),
            t_u64(m.dropped_rx),
        ],
{
    let ghost pre = out.deep_view();
    push_tok(out, u64_to_string(m.bytes_tx));
    push_tok(out, u64_to_string(m.bytes_rx));
    push_tok(out, u64_to_string(m.packets_tx));
    push_tok(out, u64_to_string(m.packets_rx));
    push_tok(out, u64_to_string(m.errors_tx));
    push_tok(out, u64_to_string(m.errors_rx));
    push_tok(out, u64_to_string(m.dropped_tx));
    push_tok(out, u64_to_string(m.dropped_rx));
    proof {
        assert(out.deep_view() =~= pre + seq![
            t_u64(m.bytes_tx),
            t_u64(m.bytes_rx),
            t_u64(m.packets_tx),
            t_u64(m.packets_rx),
            t_u64(m.errors_tx),
            t_u64(m.errors_rx),
            t_u64(m.dropped_tx),
            t_u64(m.dropped_rx),
        ]);
    }
}

/// Append the derived-rate and capability tokens of a snapshot.
fn enc_metrics_tail(out: &mut Vec<String>, m: &crate::model::NetworkMetrics)
    ensures
        final(out).deep_view() == old(out).deep_view() + seq![
            t_u64(m.speed_up),
            t_u64(m.speed_down),
            t_u64(m.packets_per_sec_tx),
            t_u64(m.packets_per_sec_rx),
            t_opt_u32(m.link_speed),
            t_opt_str(m@.duplex),
            t_opt_u32(m.mtu),
            t_opt_u64(m.uptime_ms),
            t_u64(m.total_session_tx),
            t_u64(m.total_session_rx),
        ],
{
    let ghost pre = out.deep_view();
    push_tok(out, u64_to_string(m.speed_up));
    push_tok(out, u64_to_string(m.speed_down));
    push_tok(out, u64_to_string(m.packets_per_sec_tx));
    push_tok(out, u64_to_string(m.packets_per_sec_rx));
    push_tok(out, tok_opt_u32(m.link_speed));
    push_tok(out, tok_opt_str(&m.duplex));
    push_tok(out, tok_opt_u32(m.mtu));
    push_tok(out, tok_opt_u64(m.uptime_ms));
    push_tok(out, u64_to_string(m.total_session_tx));
    push_tok(out, u64_to_string(m.total_session_rx));
    proof {
        assert(out.deep_view() =~= pre + seq![
            t_u64(m.speed_up),
            t_u64(m.speed_down),
            t_u64(m.packets_per_sec_tx),
            t_u64(m.packets_per_sec_rx),
            t_opt_u32(m.link_speed),
            t_opt_str(m@.duplex),
            t_opt_u32(m.mtu),
            t_opt_u64(m.uptime_ms),
            t_u64(m.total_session_tx),
            t_u64(m.total_session_rx),
        ]);
    }
}

/// Append a telemetry snapshot's tokens.
fn enc_metrics(out: &mut Vec<String>, m: &crate::model::NetworkMetrics)
    ensures
        final(out).deep_view() == old(out).deep_view() + metrics_toks(m@),
{
    let ghost pre = out.deep_view();
    enc_metrics_raw(out, m);
    enc_metrics_tail(out, m);
    proof {
        assert(out.deep_view() =~= pre + metrics_toks(m@));
    }
}

/// Appending an interface appends its tokens.
pub proof fn lemma_ifaces_snoc(s: Seq<crate::model::IfaceView>, v: crate::model::IfaceView)
    ensures
        ifaces_toks(s.push(v)) == ifaces_toks(s) + iface_toks(v),
    decreases s.len(),
{
    let w = s.push(v);
    if s.len() == 0 {
        assert(w[0] == v);
        assert(w.drop_first() =~= Seq::<crate::model::IfaceView>::empty());
        assert(ifaces_toks(w) == iface_toks(v) + ifaces_toks(w.drop_first()));
        assert(iface_toks(v) + Seq::<Seq<char>>::empty() =~= iface_toks(v));
        assert(ifaces_toks(s) =~= Seq::<Seq<char>>::empty());
        assert(Seq::<Seq<char>>::empty() + iface_toks(v) =~= iface_toks(v));
    } else {
        assert(w[0] == s[0]);
        assert(w.drop_first() =~= s.drop_first().push(v));
        lemma_ifaces_snoc(s.drop_first(), v);
        assert(iface_toks(s[0]) + (ifaces_toks(s.drop_first()) + iface_toks(v)) =~= (iface_toks(
            s[0],
        ) + ifaces_toks(s.drop_first())) + iface_toks(v));
    }
}

/// Append one interface's fields.
#[verifier::rlimit(100)]
fn enc_iface_body(out: &mut Vec<String>, v: &crate::model::NetworkInterface)
    ensures
        final(out).deep_view() == old(out).deep_view() + iface_body_toks(v@),
{
    let ghost pre = out.deep_view();
    push_tok(out, u64_to_string(v.id));
    push_tok(out, escape_token(v.name.as_str()));
    match v.interface_type {
        crate::model::InterfaceType::Ethernet => push_tok(out, String::from_str("ethernet")),
        crate::model::InterfaceType::WiFi => push_tok(out, String::from_str("wifi")),
        crate::model::InterfaceType::VPN => push_tok(out, String::from_str("vpn")),
        crate::model::InterfaceType::Unknown => push_tok(out, String::from_str("unknown")),
    }
    enc_status(out, &v.status);
    enc_config(out, &v.config);
    enc_metrics(out, &v.metrics);
    proof {
        assert(out.deep_view() =~= pre + iface_body_toks(v@));
    }
}

/// Append one interface's tokens: its field count, then the fields.
#[verifier::rlimit(100)]
fn enc_iface(out: &mut Vec<String>, v: &crate::model::NetworkInterface)
    ensures
        final(out).deep_view() == old(out).deep_view() + iface_toks(v@),
{
    let mut body: Vec<String> = Vec::new();
    proof {
        assert(body.deep_view() =~= Seq::<Seq<char>>::empty());
        assert(Seq::<Seq<char>>::empty() + iface_body_toks(v@) =~= iface_body_toks(v@));
    }
    enc_iface_body(&mut body, v);
    let ghost pre = out.deep_view();
    push_tok(out, u64_to_string(body.len() as u64));
    let ghost base = out.deep_view();
    proof {
        assert(body.deep_view() == iface_body_toks(v@));
        assert(base + body.deep_view().take(0) =~= base);
    }
    let mut k: usize = 0;
    while k < body.len()
        invariant
            k <= body@.len(),
            body.deep_view() == iface_body_toks(v@),
            out.deep_view() == base + body.deep_view().take(k as int),
            base == pre.push(t_u64(iface_body_toks(v@).len() as u64)),
            pre == old(out).deep_view(),
        decreases body@.len() - k,
    {
        proof {
            assert(body.deep_view()[k as int] == body@[k as int]@);
            assert(body.deep_view().take(k + 1) =~= body.deep_view().take(k as int).push(
                body.deep_view()[k as int],
            ));
            assert(base + body.deep_view().take(k as int).push(body.deep_view()[k as int]) =~= (
            base + body.deep_view().take(k as int)).push(body.deep_view()[k as int]));
        }
        push_tok(out, body[k].clone());
        k = k + 1;
    }
    proof {
        assert(body.deep_view().take(body@.len() as int) =~= body.deep_view());
        assert(out.deep_view() =~= pre + iface_toks(v@));
    }
}

/// The tokens of a request, executable form.
fn enc_request(out: &mut Vec<String>, q: &crate::protocol::Request)
    ensures
        final(out).deep_view() == old(out).deep_view() + request_toks(q@),
{
    let ghost pre = out.deep_view();
    match q {
        crate::protocol::Request::GetInterfaces => {
            push_tok(out, String::from_str("GetInterfaces"));
            proof {
                assert(out.deep_view() =~= pre + request_toks(q@));
            }
        },
        crate::protocol::Request::ConnectInterface { name } => {
            push_tok(out, String::from_str("ConnectInterface"));
            push_tok(out, escape_token(name.as_str()));
            proof {
                assert(out.deep_view() =~= pre + request_toks(q@));
            }
        },
        crate::protocol::Request::DisconnectInterface { name } => {
            push_tok(out, String::from_str("DisconnectInterface"));
            push_tok(out, escape_token(name.as_str()));
            proof {
                assert(out.deep_view() =~= pre + request_toks(q@));
            }
        },
        crate::protocol::Request::ConfigureInterface { name, config } => {
            push_tok(out, String::from_str("ConfigureInterface"));
            push_tok(out, escape_token(name.as_str()));
            enc_config(out, config);
            proof {
                assert(out.deep_view() =~= pre + request_toks(q@));
            }
        },
        crate::protocol::Request::GetMetrics { name } => {
            push_tok(out, String::from_str("GetMetrics"));
            push_tok(out, escape_token(name.as_str()));
            proof {
                assert(out.deep_view() =~= pre + request_toks(q@));
            }
        },
    }
}

/// The tokens of a response, executable form.
#[verifier::rlimit(100)]
fn enc_response(out: &mut Vec<String>, p: &crate::protocol::Response)
    ensures
        final(out).deep_view() == old(out).deep_view() + response_toks(p@),
{
    let ghost pre = out.deep_view();
    match p {
        crate::protocol::Response::InterfaceList { interfaces } => {
            push_tok(out, String::from_str("InterfaceList"));
            push_tok(out, u64_to_string(interfaces.len() as u64));
            let ghost head_done = out.deep_view();
            let ghost views = interfaces@.map_values(|x: crate::model::NetworkInterface| x@);
            let mut k: usize = 0;
            while k < interfaces.len()
                invariant
                    k <= interfaces.len(),
                    views == interfaces@.map_values(
                        |x: crate::model::NetworkInterface| x@,
                    ),
                    out.deep_view() == head_done + ifaces_toks(views.take(k as int)),
                decreases interfaces.len() - k,
            {
                enc_iface(out, &interfaces[k]);
                proof {
                    lemma_ifaces_snoc(views.take(k as int), views[k as int]);
                    assert(views.take(k + 1) =~= views.take(k as int).push(views[k as int]));
                }
                k = k + 1;
            }
            proof {
                assert(views.take(interfaces@.len() as int) =~= views);
                assert(head_done =~= pre + seq![
                    "InterfaceList"@,
                    t_u64(interfaces@.len() as u64),
                ]);
                assert(out.deep_view() =~= pre + response_toks(p@));
            }
        },
        crate::protocol::Response::Success { message } => {
            push_tok(out, String::from_str("Success"));
            push_tok(out, escape_token(message.as_str()));
            proof {
                assert(out.deep_view() =~= pre + response_toks(p@));
            }
        },
        crate::protocol::Response::Error { message } => {
            push_tok(out, String::from_str("Error"));
            push_tok(out, escape_token(message.as_str()));
            proof {
                assert(out.deep_view() =~= pre + response_toks(p@));
            }
        },
        crate::protocol::Response::Metrics { metrics } => {
            push_tok(out, String::from_str("Metrics"));
            enc_metrics(out, metrics);
            proof {
                assert(out.deep_view() =~= pre + response_toks(p@));
            }
        },
    }
}

/// One request as one line of wire text, executable form.
pub fn encode_request_line(q: &crate::protocol::Request) -> (r: String)
    ensures
        r@ == request_line(q@),
{
    let mut toks: Vec<String> = Vec::new();
    proof {
        assert(toks.deep_view() =~= Seq::<Seq<char>>::empty());
    }
    enc_request(&mut toks, q);
    proof {
        assert(toks.deep_view() =~= request_toks(q@));
    }
    join_char(&toks, '|')
}

/// One response as one line of wire text, executable form.
pub fn encode_response_line(p: &crate::protocol::Response) -> (r: String)
    ensures
        r@ == response_line(p@),
{
    let mut toks: Vec<String> = Vec::new();
    proof {
        assert(toks.deep_view() =~= Seq::<Seq<char>>::empty());
    }
    enc_response(&mut toks, p);
    proof {
        assert(toks.deep_view() =~= response_toks(p@));
    }
    join_char(&toks, '|')
}

/// Parse one escaped string token.
fn ptok_str(toks: &Vec<String>, i: usize) -> (r: Option<(String, usize)>)
    ensures
        match r {
            Option::Some(p) => p.1 == i + 1 && p_str(toks.deep_view(), i as int) == Option::Some(
                (p.0@, i + 1 as int),
            ),
            Option::None => p_str(toks.deep_view(), i as int) is None,
        },
{
    if i < toks.len() {
        proof {
            assert(toks.deep_view()[i as int] == toks@[i as int]@);
        }
        match unescape_token(toks[i].as_str()) {
            Option::Some(v) => Option::Some((v, i + 1)),
            Option::None => Option::None,
        }
    } else {
        Option::None
    }
}

/// Parse one decimal token.
fn ptok_u64(toks: &Vec<String>, i: usize) -> (r: Option<(u64, usize)>)
    ensures
        match r {
            Option::Some(p) => p.1 == i + 1 && p_u64(toks.deep_view(), i as int) == Option::Some(
                (p.0, i + 1 as int),
            ),
            Option::None => p_u64(toks.deep_view(), i as int) is None,
        },
{
    if i < toks.len() {
        proof {
            assert(toks.deep_view()[i as int] == toks@[i as int]@);
        }
        match parse_u64(toks[i].as_str()) {
            Option::Some(v) => Option::Some((v, i + 1)),
            Option::None => Option::None,
        }
    } else {
        Option::None
    }
}

/// Parse one 32-bit decimal token.
fn ptok_u32(toks: &Vec<String>, i: usize) -> (r: Option<(u32, usize)>)
    ensures
        match r {
            Option::Some(p) => p.1 == i + 1 && p_u32(toks.deep_view(), i as int) == Option::Some(
                (p.0, i + 1 as int),
            ),
            Option::None => p_u32(toks.deep_view(), i as int) is None,
        },
{
    if i < toks.len() {
        proof {
            assert(toks.deep_view()[i as int] == toks@[i as int]@);
        }
        match crate::text::parse_u32(toks[i].as_str()) {
            Option::Some(v) => Option::Some((v, i + 1)),
            Option::None => Option::None,
        }
    } else {
        Option::None
    }
}

/// Parse one boolean token.
fn ptok_bool(toks: &Vec<String>, i: usize) -> (r: Option<(bool, usize)>)
    ensures
        match r {
            Option::Some(p) => p.1 == i + 1 && p_bool(toks.deep_view(), i as int) == Option::Some(
                (p.0, i + 1 as int),
            ),
            Option::None => p_bool(toks.deep_view(), i as int) is None,
        },
{
    proof {
        reveal_strlit("t");
        reveal_strlit("f");
        assert("t"@ =~= seq!['t']);
        assert("f"@ =~= seq!['f']);
    }
    if i < toks.len() {
        proof {
            assert(toks.deep_view()[i as int] == toks@[i as int]@);
        }
        if toks[i].eq(&String::from_str("t")) {
            Option::Some((true, i + 1))
        } else if toks[i].eq(&String::from_str("f")) {
            Option::Some((false, i + 1))
        } else {
            Option::None
        }
    } else {
        Option::None
    }
}

/// Parse one optional-string token.
fn ptok_opt_str(toks: &Vec<String>, i: usize) -> (r: Option<(Option<String>, usize)>)
    ensures
        match r {
            Option::Some(p) => p.1 == i + 1 && p_opt_str(toks.deep_view(), i as int)
                == Option::Some((crate::model::opt_view(p.0), i + 1 as int)),
            Option::None => p_opt_str(toks.deep_view(), i as int) is None,
        },
{
    proof {
        reveal_strlit("-");
        assert("-"@ =~= seq!['-']);
    }
    if i < toks.len() {
        proof {
            assert(toks.deep_view()[i as int] == toks@[i as int]@);
        }
        if toks[i].eq(&String::from_str("-")) {
            Option::Some((Option::None, i + 1))
        } else {
            let t = toks[i].as_str();
            let len = t.unicode_len();
            if len >= 1 && t.get_char(0) == '=' {
                let rest = t.substring_char(1, len);
                proof {
                    assert(rest@ =~= t@.skip(1));
                }
                match unescape_token(rest) {
                    Option::Some(v) => Option::Some((Option::Some(v), i + 1)),
                    Option::None => Option::None,
                }
            } else {
                Option::None
            }
        }
    } else {
        Option::None
    }
}

/// Parse one optional 32-bit decimal token.
fn ptok_opt_u32(toks: &Vec<String>, i: usize) -> (r: Option<(Option<u32>, usize)>)
    ensures
        match r {
            Option::Some(p) => p.1 == i + 1 && p_opt_u32(toks.deep_view(), i as int)
                == Option::Some((p.0, i + 1 as int)),
            Option::None => p_opt_u32(toks.deep_view(), i as int) is None,
        },
{
    proof {
        reveal_strlit("-");
        assert("-"@ =~= seq!['-']);
    }
    if i < toks.len() {
        proof {
            assert(toks.deep_view()[i as int] == toks@[i as int]@);
        }
        if toks[i].eq(&String::from_str("-")) {
            Option::Some((Option::None, i + 1))
        } else {
            let t = toks[i].as_str();
            let len = t.unicode_len();
            if len >= 2 && t.get_char(0) == '=' {
                let rest = t.substring_char(1, len);
                proof {
                    assert(rest@ =~= t@.skip(1));
                }
                match crate::text::parse_u32(rest) {
                    Option::Some(v) => Option::Some((Option::Some(v), i + 1)),
                    Option::None => Option::None,
                }
            } else {
                Option::None
            }
        }
    } else {
        Option::None
    }
}

/// Parse one optional 64-bit decimal token.
fn ptok_opt_u64(toks: &Vec<String>, i: usize) -> (r: Option<(Option<u64>, usize)>)
    ensures
        match r {
            Option::Some(p) => p.1 == i + 1 && p_opt_u64(toks.deep_view(), i as int)
                == Option::Some((p.0, i + 1 as int)),
            Option::None => p_opt_u64(toks.deep_view(), i as int) is None,
        },
{
    proof {
        reveal_strlit("-");
        assert("-"@ =~= seq!['-']);
    }
    if i < toks.len() {
        proof {
            assert(toks.deep_view()[i as int] == toks@[i as int]@);
        }
        if toks[i].eq(&String::from_str("-")) {
            Option::Some((Option::None, i + 1))
        } else {
            let t = toks[i].as_str();
            let len = t.unicode_len();
            if len >= 2 && t.get_char(0) == '=' {
                let rest = t.substring_char(1, len);
                proof {
                    assert(rest@ =~= t@.skip(1));
                }
                match parse_u64(rest) {
                    Option::Some(v) => Option::Some((Option::Some(v), i + 1)),
                    Option::None => Option::None,
                }
            } else {
                Option::None
            }
        }
    } else {
        Option::None
    }
}

/// Whether the token at `i` is exactly the given tag.
fn tag_at(toks: &Vec<String>, i: usize, tag: &str) -> (r: bool)
    requires
        i < toks@.len(),
    ensures
        r == (toks.deep_view()[i as int] == tag@),
{
    proof {
        assert(toks.deep_view()[i as int] == toks@[i as int]@);
    }
    toks[i].eq(&tag.to_owned())
}

/// Parse a family token.
fn parse_family(toks: &Vec<String>, i: usize) -> (r: Option<(crate::model::InterfaceType, usize)>)
    ensures
        match r {
            Option::Some(p) => p.1 == i + 1 && p_family(toks.deep_view(), i as int)
                == Option::Some((p.0, i + 1 as int)),
            Option::None => p_family(toks.deep_view(), i as int) is None,
        },
{
    if i < toks.len() {
        if tag_at(toks, i, "ethernet") {
            Option::Some((crate::model::InterfaceType::Ethernet, i + 1))
        } else if tag_at(toks, i, "wifi") {
            Option::Some((crate::model::InterfaceType::WiFi, i + 1))
        } else if tag_at(toks, i, "vpn") {
            Option::Some((crate::model::InterfaceType::VPN, i + 1))
        } else if tag_at(toks, i, "unknown") {
            Option::Some((crate::model::InterfaceType::Unknown, i + 1))
        } else {
            Option::None
        }
    } else {
        Option::None
    }
}

/// Parse a connection status.
fn parse_status(toks: &Vec<String>, i: usize) -> (r: Option<
    (crate::model::ConnectionStatus, usize),
>)
    ensures
        match r {
            Option::Some(p) => p.1 <= toks@.len() && p_status(toks.deep_view(), i as int)
                == Option::Some((p.0@, p.1 as int)),
            Option::None => p_status(toks.deep_view(), i as int) is None,
        },
{
    if i < toks.len() {
        if tag_at(toks, i, "disconnected") {
            Option::Some((crate::model::ConnectionStatus::Disconnected, i + 1))
        } else if tag_at(toks, i, "connecting") {
            Option::Some((crate::model::ConnectionStatus::Connecting, i + 1))
        } else if tag_at(toks, i, "connected") {
            Option::Some((crate::model::ConnectionStatus::Connected, i + 1))
        } else if tag_at(toks, i, "error") {
            match ptok_str(toks, i + 1) {
                Option::Some((reason, j)) => Option::Some(
                    (crate::model::ConnectionStatus::Error(reason), j),
                ),
                Option::None => Option::None,
            }
        } else {
            Option::None
        }
    } else {
        Option::None
    }
}

/// Parse a WiFi security mode.
fn parse_security(toks: &Vec<String>, i: usize) -> (r: Option<
    (crate::model::WiFiSecurity, usize),
>)
    ensures
        match r {
            Option::Some(p) => p.1 <= toks@.len() && p_security(toks.deep_view(), i as int)
                == Option::Some((p.0@, p.1 as int)),
            Option::None => p_security(toks.deep_view(), i as int) is None,
        },
{
    if i < toks.len() {
        if tag_at(toks, i, "open") {
            Option::Some((crate::model::WiFiSecurity::Open, i + 1))
        } else if tag_at(toks, i, "wpa2") {
            match ptok_str(toks, i + 1) {
                Option::Some((p, j)) => Option::Some((crate::model::WiFiSecurity::WPA2(p), j)),
                Option::None => Option::None,
            }
        } else if tag_at(toks, i, "wpa3") {
            match ptok_str(toks, i + 1) {
                Option::Some((p, j)) => Option::Some((crate::model::WiFiSecurity::WPA3(p), j)),
                Option::None => Option::None,
            }
        } else if tag_at(toks, i, "enterprise") {
            Option::Some((crate::model::WiFiSecurity::Enterprise, i + 1))
        } else {
            Option::None
        }
    } else {
        Option::None
    }
}

/// Parse `n` string tokens.
fn parse_str_list(toks: &Vec<String>, i: usize, n: u64) -> (r: Option<(Vec<String>, usize)>)
    ensures
        match r {
            Option::Some(p) => p_str_list(toks.deep_view(), i as int, n as nat) == Option::Some(
                (p.0.deep_view(), p.1 as int),
            ),
            Option::None => p_str_list(toks.deep_view(), i as int, n as nat) is None,
        },
{
    let ghost ts = toks.deep_view();
    let mut items: Vec<String> = Vec::new();
    let mut pos: usize = i;
    let mut k: u64 = 0;
    proof {
        assert(items.deep_view() =~= Seq::<Seq<char>>::empty());
    }
    while k < n
        invariant
            k <= n,
            pos <= toks@.len() || pos == i,
            ts == toks.deep_view(),
            p_str_list(ts, i as int, n as nat) == (match p_str_list(
                ts,
                pos as int,
                (n - k) as nat,
            ) {
                Option::Some((vs, e)) => Option::Some((items.deep_view() + vs, e)),
                Option::None => Option::<(Seq<Seq<char>>, int)>::None,
            }),
        decreases n - k,
    {
        let ghost pre_items = items.deep_view();
        match ptok_str(toks, pos) {
            Option::Some((v, p2)) => {
                let ghost vv = v@;
                items.push(v);
                proof {
                    assert(items.deep_view() =~= pre_items.push(vv));
                    let rest = p_str_list(ts, p2 as int, (n - k - 1) as nat);
                    match rest {
                        Option::Some((vs2, e2)) => {
                            assert(pre_items + (seq![vv] + vs2) =~= pre_items.push(vv) + vs2);
                        },
                        Option::None => {},
                    }
                }
                pos = p2;
                k = k + 1;
            },
            Option::None => {
                return Option::None;
            },
        }
    }
    proof {
        assert(p_str_list(ts, pos as int, 0) == Option::Some(
            (Seq::<Seq<char>>::empty(), pos as int),
        ));
        assert(items.deep_view() + Seq::<Seq<char>>::empty() =~= items.deep_view());
    }
    Option::Some((items, pos))
}

/// Parse a configuration.
#[verifier::rlimit(100)]
fn parse_config(toks: &Vec<String>, i: usize) -> (r: Option<
    (crate::model::InterfaceConfig, usize),
>)
    ensures
        match r {
            Option::Some(p) => p_config(toks.deep_view(), i as int) == Option::Some(
                (p.0@, p.1 as int),
            ),
            Option::None => p_config(toks.deep_view(), i as int) is None,
        },
{
    if i >= toks.len() {
        return Option::None;
    }
    if tag_at(toks, i, "cfg_ethernet") {
        match ptok_bool(toks, i + 1) {
            Option::Some((dhcp, j1)) => match ptok_opt_str(toks, j1) {
                Option::Some((ip, j2)) => match ptok_opt_str(toks, j2) {
                    Option::Some((gateway, j3)) => match ptok_u64(toks, j3) {
                        Option::Some((n, j4)) => match parse_str_list(toks, j4, n) {
                            Option::Some((dns, j5)) => Option::Some(
                                (
                                    crate::model::InterfaceConfig::Ethernet {
                                        dhcp: dhcp,
                                        ip: ip,
                                        gateway: gateway,
                                        dns: dns,
                                    },
                                    j5,
                                ),
                            ),
                            Option::None => Option::None,
                        },
                        Option::None => Option::None,
                    },
                    Option::None => Option::None,
                },
                Option::None => Option::None,
            },
            Option::None => Option::None,
        }
    } else if tag_at(toks, i, "cfg_wifi") {
        match ptok_str(toks, i + 1) {
            Option::Some((ssid, j1)) => match parse_security(toks, j1) {
                Option::Some((security, j2)) => match ptok_bool(toks, j2) {
                    Option::Some((dhcp, j3)) => match ptok_opt_str(toks, j3) {
                        Option::Some((ip, j4)) => Option::Some(
                            (
                                crate::model::InterfaceConfig::WiFi {
                                    ssid: ssid,
                                    security: security,
                                    dhcp: dhcp,
                                    ip: ip,
                                },
                                j4,
                            ),
                        ),
                        Option::None => Option::None,
                    },
                    Option::None => Option::None,
                },
                Option::None => Option::None,
            },
            Option::None => Option::None,
        }
    } else if tag_at(toks, i, "cfg_vpn") {
        match ptok_str(toks, i + 1) {
            Option::Some((provider, j1)) => match ptok_str(toks, j1) {
                Option::Some((config_path, j2)) => match ptok_bool(toks, j2) {
                    Option::Some((auto_connect, j3)) => Option::Some(
                        (
                            crate::model::InterfaceConfig::VPN {
                                provider: provider,
                                config_path: config_path,
                                auto_connect: auto_connect,
                            },
                            j3,
                        ),
                    ),
                    Option::None => Option::None,
                },
                Option::None => Option::None,
            },
            Option::None => Option::None,
        }
    } else {
        Option::None
    }
}

/// Parse a telemetry snapshot.
#[verifier::rlimit(100)]
fn parse_metrics(toks: &Vec<String>, i: usize) -> (r: Option<
    (crate::model::NetworkMetrics, usize),
>)
    ensures
        match r {
            Option::Some(p) => p.1 <= toks@.len() && p_metrics(toks.deep_view(), i as int)
                == Option::Some((p.0@, p.1 as int)),
            Option::None => p_metrics(toks.deep_view(), i as int) is None,
        },
{
    if i > toks.len() || toks.len() - i < 18 {
        return Option::None;
    }
    let r0 = ptok_u64(toks, i);
    let r1 = ptok_u64(toks, i + 1);
    let r2 = ptok_u64(toks, i + 2);
    let r3 = ptok_u64(toks, i + 3);
    let r4 = ptok_u64(toks, i + 4);
    let r5 = ptok_u64(toks, i + 5);
    let r6 = ptok_u64(toks, i + 6);
    let r7 = ptok_u64(toks, i + 7);
    let r8 = ptok_u64(toks, i + 8);
    let r9 = ptok_u64(toks, i + 9);
    let r10 = ptok_u64(toks, i + 10);
    let r11 = ptok_u64(toks, i + 11);
    let r12 = ptok_opt_u32(toks, i + 12);
    let r13 = ptok_opt_str(toks, i + 13);
    let r14 = ptok_opt_u32(toks, i + 14);
    let r15 = ptok_opt_u64(toks, i + 15);
    let r16 = ptok_u64(toks, i + 16);
    let r17 = ptok_u64(toks, i + 17);
    match (r0, r1, r2, r3, r4, r5, r6, r7) {
        (
            Option::Some((btx, _)),
            Option::Some((brx, _)),
            Option::Some((ptx, _)),
            Option::Some((prx, _)),
            Option::Some((etx, _)),
            Option::Some((erx, _)),
            Option::Some((dtx, _)),
            Option::Some((drx, _)),
        ) => match (r8, r9, r10, r11, r12, r13, r14, r15, r16, r17) {
            (
                Option::Some((su, _)),
                Option::Some((sd, _)),
                Option::Some((pst, _)),
                Option::Some((psr, _)),
                Option::Some((ls, _)),
                Option::Some((dup, _)),
                Option::Some((mtu, _)),
                Option::Some((up, _)),
                Option::Some((tst, _)),
                Option::Some((tsr, _)),
            ) => Option::Some(
                (
                    crate::model::NetworkMetrics {
                        bytes_tx: btx,
                        bytes_rx: brx,
                        packets_tx: ptx,
                        packets_rx: prx,
                        errors_tx: etx,
                        errors_rx: erx,
                        dropped_tx: dtx,
                        dropped_rx: drx,
                        speed_up: su,
                        speed_down: sd,
                        packets_per_sec_tx: pst,
                        packets_per_sec_rx: psr,
                        link_speed: ls,
                        duplex: dup,
                        mtu: mtu,
                        uptime_ms: up,
                        total_session_tx: tst,
                        total_session_rx: tsr,
                    },
                    i + 18,
                ),
            ),
            _ => Option::None,
        },
        _ => Option::None,
    }
}

/// Parse the fields of one interface entity.
#[verifier::rlimit(100)]
fn parse_iface_body(toks: &Vec<String>, i: usize) -> (r: Option<
    (crate::model::NetworkInterface, usize),
>)
    ensures
        match r {
            Option::Some(p) => p_iface_body(toks.deep_view(), i as int) == Option::Some(
                (p.0@, p.1 as int),
            ),
            Option::None => p_iface_body(toks.deep_view(), i as int) is None,
        },
{
    proof {
        reveal(p_iface_body);
    }
    match ptok_u64(toks, i) {
        Option::Some((id, j1)) => match ptok_str(toks, j1) {
            Option::Some((name, j2)) => match parse_family(toks, j2) {
                Option::Some((ft, j3)) => match parse_status(toks, j3) {
                    Option::Some((st, j4)) => match parse_config(toks, j4) {
                        Option::Some((cfg, j5)) => match parse_metrics(toks, j5) {
                            Option::Some((m, j6)) => Option::Some(
                                (
                                    crate::model::NetworkInterface {
                                        id: id,
                                        name: name,
                                        interface_type: ft,
                                        status: st,
                                        config: cfg,
                                        metrics: m,
                                    },
                                    j6,
                                ),
                            ),
                            Option::None => Option::None,
                        },
                        Option::None => Option::None,
                    },
                    Option::None => Option::None,
                },
                Option::None => Option::None,
            },
            Option::None => Option::None,
        },
        Option::None => Option::None,
    }
}

/// Parse one interface entity: the field count, then the known fields,
/// skipping any extra fields the record carries beyond them.
fn parse_iface(toks: &Vec<String>, i: usize) -> (r: Option<
    (crate::model::NetworkInterface, usize),
>)
    ensures
        match r {
            Option::Some(p) => p.1 <= toks@.len() && p_iface(toks.deep_view(), i as int)
                == Option::Some((p.0@, p.1 as int)),
            Option::None => p_iface(toks.deep_view(), i as int) is None,
        },
{
    match ptok_u64(toks, i) {
        Option::Some((n, j)) => {
            if n <= (toks.len() - j) as u64 {
                let jn: usize = j + (n as usize);
                match parse_iface_body(toks, j) {
                    Option::Some((v, k)) => {
                        if k <= jn {
                            Option::Some((v, jn))
                        } else {
                            Option::None
                        }
                    },
                    Option::None => Option::None,
                }
            } else {
                Option::None
            }
        },
        Option::None => Option::None,
    }
}

/// Parse `n` interface entities.
fn parse_ifaces(toks: &Vec<String>, i: usize, n: u64) -> (r: Option<
    (Vec<crate::model::NetworkInterface>, usize),
>)
    ensures
        match r {
            Option::Some(p) => p_ifaces(toks.deep_view(), i as int, n as nat) == Option::Some(
                (p.0@.map_values(|x: crate::model::NetworkInterface| x@), p.1 as int),
            ),
            Option::None => p_ifaces(toks.deep_view(), i as int, n as nat) is None,
        },
{
    let ghost ts = toks.deep_view();
    let mut items: Vec<crate::model::NetworkInterface> = Vec::new();
    let mut pos: usize = i;
    let mut k: u64 = 0;
    proof {
        assert(items@.map_values(|x: crate::model::NetworkInterface| x@)
            =~= Seq::<crate::model::IfaceView>::empty());
    }
    while k < n
        invariant
            k <= n,
            pos <= toks@.len() || pos == i,
            ts == toks.deep_view(),
            p_ifaces(ts, i as int, n as nat) == (match p_ifaces(ts, pos as int, (n - k) as nat) {
                Option::Some((vs, e)) => Option::Some(
                    (items@.map_values(|x: crate::model::NetworkInterface| x@) + vs, e),
                ),
                Option::None => Option::<(Seq<crate::model::IfaceView>, int)>::None,
            }),
        decreases n - k,
    {
        let ghost pre_items = items@.map_values(|x: crate::model::NetworkInterface| x@);
        match parse_iface(toks, pos) {
            Option::Some((v, p2)) => {
                let ghost vv = v@;
                items.push(v);
                proof {
                    assert(items@.map_values(|x: crate::model::NetworkInterface| x@)
                        =~= pre_items.push(vv));
                    let rest = p_ifaces(ts, p2 as int, (n - k - 1) as nat);
                    match rest {
                        Option::Some((vs2, e2)) => {
                            assert(pre_items + (seq![vv] + vs2) =~= pre_items.push(vv) + vs2);
                        },
                        Option::None => {},
                    }
                }
                pos = p2;
                k = k + 1;
            },
            Option::None => {
                return Option::None;
            },
        }
    }
    proof {
        assert(p_ifaces(ts, pos as int, 0) == Option::Some(
            (Seq::<crate::model::IfaceView>::empty(), pos as int),
        ));
        assert(items@.map_values(|x: crate::model::NetworkInterface| x@)
            + Seq::<crate::model::IfaceView>::empty() =~= items@.map_values(
            |x: crate::model::NetworkInterface| x@,
        ));
    }
    Option::Some((items, pos))
}

/// Parse a request from its tokens.
fn parse_request_toks(toks: &Vec<String>) -> (r: Option<crate::protocol::Request>)
    ensures
        match r {
            Option::Some(q) => p_request(toks.deep_view()) == Option::Some(q@),
            Option::None => p_request(toks.deep_view()) is None,
        },
{
    if toks.len() < 1 {
        return Option::None;
    }
    if tag_at(toks, 0, "GetInterfaces") {
        Option::Some(crate::protocol::Request::GetInterfaces)
    } else if tag_at(toks, 0, "ConnectInterface") {
        match ptok_str(toks, 1) {
            Option::Some((name, _)) => Option::Some(
                crate::protocol::Request::ConnectInterface { name: name },
            ),
            Option::None => Option::None,
        }
    } else if tag_at(toks, 0, "DisconnectInterface") {
        match ptok_str(toks, 1) {
            Option::Some((name, _)) => Option::Some(
                crate::protocol::Request::DisconnectInterface { name: name },
            ),
            Option::None => Option::None,
        }
    } else if tag_at(toks, 0, "ConfigureInterface") {
        match ptok_str(toks, 1) {
            Option::Some((name, j)) => match parse_config(toks, j) {
                Option::Some((config, _)) => Option::Some(
                    crate::protocol::Request::ConfigureInterface { name: name, config: config },
                ),
                Option::None => Option::None,
            },
            Option::None => Option::None,
        }
    } else if tag_at(toks, 0, "GetMetrics") {
        match ptok_str(toks, 1) {
            Option::Some((name, _)) => Option::Some(
                crate::protocol::Request::GetMetrics { name: name },
            ),
            Option::None => Option::None,
        }
    } else {
        Option::None
    }
}

/// Parse a response from its tokens.
fn parse_response_toks(toks: &Vec<String>) -> (r: Option<crate::protocol::Response>)
    ensures
        match r {
            Option::Some(p) => p_response(toks.deep_view()) == Option::Some(p@),
            Option::None => p_response(toks.deep_view()) is None,
        },
{
    if toks.len() < 1 {
        return Option::None;
    }
    if tag_at(toks, 0, "InterfaceList") {
        match ptok_u64(toks, 1) {
            Option::Some((n, j)) => match parse_ifaces(toks, j, n) {
                Option::Some((vs, _)) => Option::Some(
                    crate::protocol::Response::InterfaceList { interfaces: vs },
                ),
                Option::None => Option::None,
            },
            Option::None => Option::None,
        }
    } else if tag_at(toks, 0, "Success") {
        match ptok_str(toks, 1) {
            Option::Some((m, _)) => Option::Some(
                crate::protocol::Response::Success { message: m },
            ),
            Option::None => Option::None,
        }
    } else if tag_at(toks, 0, "Error") {
        match ptok_str(toks, 1) {
            Option::Some((m, _)) => Option::Some(crate::protocol::Response::Error { message: m }),
            Option::None => Option::None,
        }
    } else if tag_at(toks, 0, "Metrics") {
        match parse_metrics(toks, 1) {
            Option::Some((m, _)) => Option::Some(
                crate::protocol::Response::Metrics { metrics: m },
            ),
            Option::None => Option::None,
        }
    } else {
        Option::None
    }
}

/// Parse one line of wire text as a request.
pub fn parse_request_line(line: &str) -> (r: Option<crate::protocol::Request>)
    ensures
        match r {
            Option::Some(q) => parse_request_line_spec(line@) == Option::Some(q@),
            Option::None => parse_request_line_spec(line@) is None,
        },
{
    let toks = split_char(line, '|');
    parse_request_toks(&toks)
}

/// Parse one line of wire text as a response.
pub fn parse_response_line(line: &str) -> (r: Option<crate::protocol::Response>)
    ensures
        match r {
            Option::Some(p) => parse_response_line_spec(line@) == Option::Some(p@),
            Option::None => parse_response_line_spec(line@) is None,
        },
{
    let toks = split_char(line, '|');
    parse_response_toks(&toks)
}

} // verus!
