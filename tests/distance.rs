use prowl::capabilities::WifiGeneration;
use prowl::devices::DeviceTable;
use prowl::distance::{
    confidence_for_samples, estimate_tx_power_from_wifi_gen, AdaptiveCalibrator, Confidence,
    RssiTracker, SpreadVerdict,
};

#[test]
fn tracker_keeps_the_latest_samples_in_order() {
    let mut t = RssiTracker::new();
    assert_eq!(t.capacity(), 5);
    for s in [-70, -60, -50, -40, -30, -20, -10] {
        t.add_sample(s);
    }
    assert_eq!(t.len(), 5);
    assert_eq!(t.sample_count(), 7);
    assert_eq!(t.samples(), &vec![-50, -40, -30, -20, -10]);
    assert_eq!(t.sum(), -150);
    assert_eq!(t.weighted_sum(), -50 - 80 - 90 - 80 - 50);
    assert_eq!(t.min(), Some(-50));
    assert_eq!(t.max(), Some(-10));
    assert_eq!(t.square_sum(), 2500 + 1600 + 900 + 400 + 100);
}

#[test]
fn empty_tracker_has_no_extremes() {
    let t = RssiTracker::with_capacity(3);
    assert_eq!(t.len(), 0);
    assert_eq!(t.min(), None);
    assert_eq!(t.max(), None);
    assert!(!t.is_stationary());
}

#[test]
fn stationary_after_ten_steady_samples() {
    let mut steady = RssiTracker::with_capacity(10);
    let mut moving = RssiTracker::with_capacity(10);
    for i in 0..10 {
        steady.add_sample(-60 + (i % 3));
        moving.add_sample(-80 + 4 * i);
    }
    assert!(steady.is_stationary());
    assert!(!moving.is_stationary());
    let mut short = RssiTracker::with_capacity(10);
    for _ in 0..9 {
        short.add_sample(-60);
    }
    assert!(!short.is_stationary());
}

#[test]
fn confidence_bands() {
    assert_eq!(confidence_for_samples(0), Confidence::Low);
    assert_eq!(confidence_for_samples(2), Confidence::Low);
    assert_eq!(confidence_for_samples(3), Confidence::Medium);
    assert_eq!(confidence_for_samples(4), Confidence::Medium);
    assert_eq!(confidence_for_samples(5), Confidence::High);
}

#[test]
fn tx_power_by_generation() {
    assert_eq!(estimate_tx_power_from_wifi_gen(Some("802.11ax")), -38);
    assert_eq!(estimate_tx_power_from_wifi_gen(Some("WiFi 5")), -41);
    assert_eq!(estimate_tx_power_from_wifi_gen(Some("802.11n")), -45);
    assert_eq!(estimate_tx_power_from_wifi_gen(Some("802.11g")), -48);
    assert_eq!(estimate_tx_power_from_wifi_gen(Some("802.11b")), -50);
    assert_eq!(estimate_tx_power_from_wifi_gen(Some("Legacy")), -43);
    assert_eq!(estimate_tx_power_from_wifi_gen(None), -43);
}

#[test]
fn peak_rssi_infers_tx_power() {
    let mut c = AdaptiveCalibrator::new();
    c.record_peak_rssi(-60);
    assert_eq!(c.inferred_tx_power(), None);
    c.record_peak_rssi(-40);
    c.record_peak_rssi(-42);
    assert_eq!(c.inferred_tx_power(), None);
    c.record_peak_rssi(-44);
    assert_eq!(c.inferred_tx_power(), None);
    c.record_peak_rssi(-43);
    assert_eq!(c.inferred_tx_power(), Some(-43));
    c.record_peak_rssi(-38);
    assert_eq!(c.inferred_tx_power(), None);
}

#[test]
fn path_loss_exponent_adapts_every_ten_observations() {
    let mut c = AdaptiveCalibrator::new();
    assert_eq!(c.path_loss_e4(), 30000);
    for _ in 0..9 {
        c.observe_spread(SpreadVerdict::TooWide);
    }
    assert_eq!(c.path_loss_e4(), 30000);
    c.observe_spread(SpreadVerdict::TooWide);
    assert_eq!(c.path_loss_e4(), 30010);
    for _ in 0..10 {
        c.observe_spread(SpreadVerdict::TooNarrow);
    }
    assert_eq!(c.path_loss_e4(), 30000);
    for _ in 0..10 {
        c.observe_spread(SpreadVerdict::OnTarget);
    }
    assert_eq!(c.path_loss_e4(), 30000);
}

#[test]
fn path_loss_exponent_stays_in_bounds() {
    let mut c = AdaptiveCalibrator::new();
    for _ in 0..100_000 {
        c.observe_spread(SpreadVerdict::TooNarrow);
    }
    assert_eq!(c.path_loss_e4(), 20000);
    for _ in 0..400_000 {
        c.observe_spread(SpreadVerdict::TooWide);
    }
    assert_eq!(c.path_loss_e4(), 50000);
}

#[test]
fn device_table_tracks_each_device_once() {
    let mut t = DeviceTable::new(5);
    t.record_probe("AA:BB:CC:DD:EE:FF", "Home", 100, Some(-40), Some(WifiGeneration::N));
    t.record_probe("11:22:33:44:55:66", "", 110, None, None);
    t.record_probe("AA:BB:CC:DD:EE:FF", "Work", 120, Some(-42), None);
    t.record_probe("AA:BB:CC:DD:EE:FF", "Home", 130, Some(-41), Some(WifiGeneration::Ac));
    assert_eq!(t.entries.len(), 2);
    assert_eq!(t.position("11:22:33:44:55:66"), Some(1));
    let e = &t.entries[0];
    assert_eq!(e.first_seen, 100);
    assert_eq!(e.last_seen, 130);
    assert_eq!(e.probe_count, 3);
    assert_eq!(e.ssids, vec!["Home".to_string(), "Work".to_string()]);
    assert_eq!(e.last_signal, Some(-41));
    assert_eq!(e.wifi_generation, Some(WifiGeneration::Ac));
    assert_eq!(e.rssi_tracker.samples(), &vec![-40, -42, -41]);
    let quiet = &t.entries[1];
    assert!(quiet.ssids.is_empty());
    assert_eq!(quiet.rssi_tracker.len(), 0);
    assert_eq!(t.calibrator.inferred_tx_power(), Some(-43));
}

#[test]
fn device_table_keeps_the_latest_window_of_signals() {
    let mut t = DeviceTable::new(3);
    for (i, s) in [-50, -51, -52, -53, -54].iter().enumerate() {
        t.record_probe("AA:BB:CC:DD:EE:FF", "", i as i64, Some(*s), None);
    }
    let tr = &t.entries[0].rssi_tracker;
    assert_eq!(tr.sample_count(), 5);
    assert_eq!(tr.samples(), &vec![-52, -53, -54]);
}
