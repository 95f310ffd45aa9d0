use prowl::analysis::{
    analyze_time_windows, count_locations, persistence_score, AlertReason, DeviceActivity,
    SurveillanceAnalyzer,
};
use prowl::store::{plan_device_write, Device, DeviceWrite, ProbeSighting};
use prowl::iface::find_monitor_interface;
use prowl::validation::{resolve_monitor_interface, MonitorCheck, MonitorFacts, MonitorStep, ValidationError};

const NOW: i64 = 1_700_000_000;

fn device(id: i64, mac: &str, first: i64, last: i64) -> Device {
    Device { id, mac: mac.to_string(), first_seen: first, last_seen: last }
}

fn sighting(t: i64, ssid: &str, cell: Option<(i64, i64)>) -> ProbeSighting {
    ProbeSighting { timestamp: t, ssid: ssid.to_string(), cell }
}

fn cell_of(lat: f64, lon: f64) -> (i64, i64) {
    ((lat * 1000.0) as i64, (lon * 1000.0) as i64)
}

#[test]
fn score_of_a_device_seen_over_the_last_hour() {
    let d = device(1, "AA:BB:CC:DD:EE:FF", NOW - 55 * 60, NOW - 10 * 60);
    let ps: Vec<ProbeSighting> =
        [55, 40, 25, 10].iter().map(|m| sighting(NOW - m * 60, "Home", None)).collect();
    let ws = vec![5, 10, 15, 20];
    let score = persistence_score(&d, &ps, &ws, NOW - 3600, NOW);
    // window 3/4 (nothing in the last 5 minutes), frequency 0.4,
    // duration 0.75, no positions: 0.3 + 0.12 + 0.15 = 0.57
    let scale = 100u128 * 4 * 3600;
    assert_eq!(score * 100, 57 * scale);
}

#[test]
fn score_with_every_window_covered() {
    let d = device(1, "AA:BB:CC:DD:EE:FF", NOW - 55 * 60, NOW - 10 * 60);
    let mut ps: Vec<ProbeSighting> =
        [55, 40, 25, 10].iter().map(|m| sighting(NOW - m * 60, "Home", None)).collect();
    ps[3].timestamp = NOW - 4 * 60;
    let ws = vec![5, 10, 15, 20];
    let score = persistence_score(&d, &ps, &ws, NOW - 3600, NOW);
    // 0.4 + 0.12 + 0.15 = 0.67
    assert_eq!(score * 100, 67 * (100u128 * 4 * 3600));
}

#[test]
fn location_term_and_cap() {
    let d = device(1, "AA:BB:CC:DD:EE:FF", NOW - 7200, NOW);
    let ps: Vec<ProbeSighting> = (0..40)
        .map(|i| sighting(NOW - i * 60, "", Some((i % 3, 0))))
        .collect();
    let ws = vec![5];
    let score = persistence_score(&d, &ps, &ws, NOW - 3600, NOW);
    assert_eq!(score, 100 * 3600);
}

#[test]
fn locations_in_the_same_cell_count_once() {
    let a = sighting(NOW, "", Some(cell_of(33.4484, -112.0740)));
    let b = sighting(NOW, "", Some(cell_of(33.4485, -112.0741)));
    let c = sighting(NOW, "", Some(cell_of(33.4600, -112.0800)));
    let none = sighting(NOW, "", None);
    assert_eq!(count_locations(&vec![a.clone(), b.clone(), none.clone()]), 1);
    assert_eq!(count_locations(&vec![a, b, none, c]), 2);
    assert_eq!(count_locations(&vec![]), 0);
}

#[test]
fn nothing_in_the_horizon_gives_no_alerts() {
    let analyzer = SurveillanceAnalyzer::new(vec![5, 10, 15, 20], 0);
    let old = DeviceActivity {
        device: device(1, "AA:BB:CC:DD:EE:FF", NOW - 90_000, NOW - 80_000),
        probes: vec![sighting(NOW - 80_000, "Home", None)],
    };
    assert!(analyzer.analyze(&vec![old], NOW, 1).is_empty());
    assert!(analyzer.analyze(&vec![], NOW, 1).is_empty());
}

#[test]
fn alerts_are_ranked_and_explained() {
    let analyzer = SurveillanceAnalyzer::new(vec![5, 10, 15, 20], 500_000);
    let busy = DeviceActivity {
        device: device(1, "AA:BB:CC:DD:EE:FF", NOW - 3000, NOW),
        probes: (0..50).map(|i| sighting(NOW - i * 60, if i % 2 == 0 { "Home" } else { "" }, Some((i % 2, 7)))).collect(),
    };
    let quiet = DeviceActivity {
        device: device(2, "11:22:33:44:55:66", NOW - 100, NOW - 100),
        probes: vec![sighting(NOW - 100, "Cafe", None)],
    };
    let medium = DeviceActivity {
        device: device(3, "22:33:44:55:66:77", NOW - 3300, NOW - 600),
        probes: [55, 40, 25, 10].iter().map(|m| sighting(NOW - m * 60, "Home", None)).collect(),
    };
    let empty = DeviceActivity { device: device(4, "33:44:55:66:77:88", NOW - 10, NOW), probes: vec![] };
    let alerts = analyzer.analyze(&vec![quiet, medium, busy, empty], NOW, 1);
    assert_eq!(alerts.len(), 2);
    assert_eq!(alerts[0].device.id, 1);
    assert_eq!(alerts[1].device.id, 3);
    assert!(alerts[0].score >= alerts[1].score);
    assert_eq!(alerts[0].scale, 100 * 4 * 3600);
    assert_eq!(alerts[0].appearance_count, 50);
    assert_eq!(alerts[0].location_count, 2);
    assert_eq!(alerts[0].probed_ssids, vec!["Home".to_string()]);
    assert_eq!(
        alerts[0].reasons,
        vec![
            AlertReason::MultipleWindows,
            AlertReason::HighFrequency { probes: 50, active_secs: 3000 },
            AlertReason::MultipleLocations { count: 2 },
            AlertReason::LongDuration { minutes: 50 },
        ]
    );
    assert_eq!(
        alerts[1].reasons,
        vec![
            AlertReason::MultipleWindows,
            AlertReason::HighFrequency { probes: 4, active_secs: 2700 },
            AlertReason::LongDuration { minutes: 45 },
        ]
    );
}

#[test]
fn score_alone_when_no_reason_applies() {
    let analyzer = SurveillanceAnalyzer::new(vec![5], 0);
    let d = DeviceActivity {
        device: device(9, "AA:BB:CC:DD:EE:FF", NOW - 2800, NOW - 1000),
        probes: vec![sighting(NOW - 2800, "", None)],
    };
    let alerts = analyzer.analyze(&vec![d], NOW, 1);
    assert_eq!(alerts.len(), 1);
    assert_eq!(alerts[0].reasons, vec![AlertReason::ScoreOnly]);
    assert!(alerts[0].probed_ssids.is_empty());
}

#[test]
fn devices_per_time_window() {
    let ds = vec![
        device(1, "AA:AA:AA:AA:AA:AA", NOW - 1000, NOW - 100),
        device(2, "BB:BB:BB:BB:BB:BB", NOW - 1000, NOW - 700),
        device(3, "CC:CC:CC:CC:CC:CC", NOW - 5000, NOW - 4000),
    ];
    let r = analyze_time_windows(&ds, &vec![5, 15], NOW);
    assert_eq!(r.len(), 2);
    assert_eq!(r[0].window_minutes, 5);
    assert_eq!(r[0].device_count, 1);
    assert_eq!(r[0].devices, vec!["AA:AA:AA:AA:AA:AA".to_string()]);
    assert_eq!(r[1].device_count, 2);
}

#[test]
fn storing_a_probe_touches_or_creates_the_device() {
    match plan_device_write(Some(7), "AA:BB:CC:DD:EE:FF", NOW) {
        DeviceWrite::Touch { id, last_seen } => {
            assert_eq!(id, 7);
            assert_eq!(last_seen, NOW);
        }
        _ => panic!("expected a touch"),
    }
    match plan_device_write(None, "AA:BB:CC:DD:EE:FF", NOW) {
        DeviceWrite::Create { mac, first_seen, last_seen } => {
            assert_eq!(mac, "AA:BB:CC:DD:EE:FF");
            assert_eq!((first_seen, last_seen), (NOW, NOW));
        }
        _ => panic!("expected a new device"),
    }
}

#[test]
fn monitor_interface_resolution_steps() {
    let mut facts = MonitorFacts { set_attempt: None, configured_in_monitor: None, found: None };
    assert!(matches!(
        resolve_monitor_interface("wlan1", true, &facts),
        MonitorStep::Run(MonitorCheck::SetMonitorMode)
    ));
    facts.set_attempt = Some(Ok(()));
    match resolve_monitor_interface("wlan1", true, &facts) {
        MonitorStep::Resolved(i) => assert_eq!(i, "wlan1"),
        _ => panic!("expected wlan1"),
    }
    facts.set_attempt = Some(Err("busy".to_string()));
    assert!(matches!(
        resolve_monitor_interface("wlan1", true, &facts),
        MonitorStep::Run(MonitorCheck::FindMonitorInterface)
    ));
    facts.found = Some(Some("mon0".to_string()));
    match resolve_monitor_interface("wlan1", true, &facts) {
        MonitorStep::Resolved(i) => assert_eq!(i, "mon0"),
        _ => panic!("expected the monitor interface that was found"),
    }
    facts.found = Some(None);
    match resolve_monitor_interface("wlan1", true, &facts) {
        MonitorStep::Failed(ValidationError::NoMonitorInterface { configured_interface, cause }) => {
            assert_eq!(configured_interface, "wlan1");
            assert_eq!(cause, Some("busy".to_string()));
        }
        _ => panic!("expected a failure"),
    }
    let mut facts = MonitorFacts { set_attempt: None, configured_in_monitor: None, found: None };
    assert!(matches!(
        resolve_monitor_interface("wlan1", false, &facts),
        MonitorStep::Run(MonitorCheck::QueryMode)
    ));
    facts.configured_in_monitor = Some(false);
    assert!(matches!(
        resolve_monitor_interface("wlan1", false, &facts),
        MonitorStep::Run(MonitorCheck::FindMonitorInterface)
    ));
    facts.found = Some(Some("mon0".to_string()));
    match resolve_monitor_interface("wlan1", false, &facts) {
        MonitorStep::Resolved(i) => assert_eq!(i, "mon0"),
        _ => panic!("expected mon0"),
    }
    facts.found = Some(None);
    assert!(matches!(
        resolve_monitor_interface("wlan1", false, &facts),
        MonitorStep::Failed(ValidationError::NoMonitorInterface { .. })
    ));
}

#[test]
fn no_positions_give_no_location_term() {
    let d = device(1, "AA:BB:CC:DD:EE:FF", NOW - 3600, NOW - 3600);
    let ps = vec![sighting(NOW - 3600, "", None)];
    let with_cell = vec![sighting(NOW - 3600, "", Some((1, 1)))];
    let ws: Vec<u32> = vec![];
    let a = persistence_score(&d, &ps, &ws, NOW - 3600, NOW);
    let b = persistence_score(&d, &with_cell, &ws, NOW - 3600, NOW);
    // one cell adds 0.1 * 0.2 of the scale (100 * 1 * 3600)
    assert_eq!(b - a, 2 * 3600);
}

#[test]
fn monitor_interface_is_read_from_the_listing() {
    let listing = "phy#1\n\tInterface wlan1\n\t\tifindex 4\n\t\ttype managed\n\tInterface mon0\r\n\t\ttype monitor\n\tInterface mon1\n\t\ttype monitor\n";
    assert_eq!(find_monitor_interface(listing), Some("mon0".to_string()));
    assert_eq!(find_monitor_interface("\tInterface wlan0\n\t\ttype managed\n"), None);
    assert_eq!(find_monitor_interface("\t\ttype monitor\n"), None);
    assert_eq!(find_monitor_interface(""), None);
}
