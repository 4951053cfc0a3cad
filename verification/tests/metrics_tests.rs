use alopex::metrics::{NetworkMonitor, MIN_INTERVAL_MS};
use alopex::model::RawCounters;

fn raw(bytes_tx: u64, bytes_rx: u64, packets_tx: u64, packets_rx: u64) -> RawCounters {
    RawCounters {
        bytes_tx,
        bytes_rx,
        packets_tx,
        packets_rx,
        errors_tx: 0,
        errors_rx: 0,
        dropped_tx: 0,
        dropped_rx: 0,
    }
}

#[test]
fn first_observation_has_zero_rates() {
    let mut mon = NetworkMonitor::new();
    let t = mon.observe("eth0", raw(5000, 6000, 70, 80), 0);
    assert_eq!(t.bytes_tx, 5000);
    assert_eq!(t.bytes_rx, 6000);
    assert_eq!(t.speed_up, 0);
    assert_eq!(t.speed_down, 0);
    assert_eq!(t.packets_per_sec_tx, 0);
    assert_eq!(t.packets_per_sec_rx, 0);
}

#[test]
fn rate_is_bytes_over_elapsed_seconds() {
    let mut mon = NetworkMonitor::new();
    mon.observe("eth0", raw(1000, 0, 0, 0), 0);
    let t = mon.observe("eth0", raw(2024, 0, 0, 0), 1000);
    // 1024 bytes over exactly one second
    assert_eq!(t.speed_up, 1024);
    assert_eq!(t.speed_up as f64 / 1024.0, 1.0);
}

#[test]
fn packet_rates_computed_per_interface() {
    let mut mon = NetworkMonitor::new();
    mon.observe("eth0", raw(0, 0, 100, 200), 0);
    mon.observe("wlan0", raw(0, 0, 0, 0), 0);
    let t = mon.observe("eth0", raw(0, 0, 350, 700), 500);
    assert_eq!(t.packets_per_sec_tx, 500);
    assert_eq!(t.packets_per_sec_rx, 1000);
    // the other interface's baseline is untouched
    let u = mon.observe("wlan0", raw(0, 0, 120, 0), 1000);
    assert_eq!(u.packets_per_sec_tx, 120);
}

#[test]
fn counter_reset_reads_as_zero_rate() {
    let mut mon = NetworkMonitor::new();
    mon.observe("eth0", raw(0, 5000, 0, 0), 0);
    let t = mon.observe("eth0", raw(0, 100, 0, 0), 1000);
    assert_eq!(t.speed_down, 0);
}

#[test]
fn sub_interval_observation_changes_nothing() {
    let mut mon = NetworkMonitor::new();
    let first = mon.observe("eth0", raw(1000, 1000, 10, 10), 0);
    assert!(50 < MIN_INTERVAL_MS);
    let second = mon.observe("eth0", raw(9999, 9999, 99, 99), 50);
    assert_eq!(second, first);
    // the baseline did not move: the next full interval computes against t=0
    let third = mon.observe("eth0", raw(2000, 1000, 10, 10), 1000);
    assert_eq!(third.speed_up, 1000);
}

#[test]
fn update_speeds_writes_rates_onto_the_list() {
    let mut mon = NetworkMonitor::new();
    let mut list = vec![
        alopex::discovery::NetworkDiscovery::interface_from_sources(
            "eth0", None, None, None, None, None, None, None, None,
        ),
    ];
    list[0].metrics.bytes_tx = 100;
    mon.update_speeds(&mut list, 0);
    assert_eq!(list[0].metrics.speed_up, 0);
    list[0].metrics.bytes_tx = 1124;
    mon.update_speeds(&mut list, 1000);
    assert_eq!(list[0].metrics.speed_up, 1024);
}
