use prowl::channels::{get_2ghz_channels, get_5ghz_channels, get_all_channels, parse_channels, ChannelHopper};
use prowl::ignore::{normalise_mac, IgnoreLists};
use prowl::oui::{infer_device_type, is_randomized_mac, lookup_vendor, vendor_short};

#[test]
fn test_mac_normalization() {
    let mut lists = IgnoreLists::new();
    lists.add_mac("aa:bb:cc:dd:ee:ff");

    assert!(lists.should_ignore_mac("AA:BB:CC:DD:EE:FF"));
    assert!(lists.should_ignore_mac("aa:bb:cc:dd:ee:ff"));
    assert!(lists.should_ignore_mac("AA-BB-CC-DD-EE-FF"));
    assert!(!lists.should_ignore_mac("11:22:33:44:55:66"));
}

#[test]
fn test_ssid_matching() {
    let mut lists = IgnoreLists::new();
    lists.add_ssid("MyHomeNetwork");

    assert!(lists.should_ignore_ssid("MyHomeNetwork"));
    assert!(!lists.should_ignore_ssid("myhomenetwork"));
    assert!(!lists.should_ignore_ssid("OtherNetwork"));
}

#[test]
fn normalisation_is_idempotent() {
    let once = normalise_mac("aa-bb.cc:dd-ee.ff");
    assert_eq!(once, "AA:BB:CC:DD:EE:FF");
    assert_eq!(normalise_mac(&once), once);
    assert_eq!(normalise_mac("AA-BB-CC-DD-EE-FF"), normalise_mac("aa-bb-cc-dd-ee-ff"));
}

#[test]
fn admit_ignores_empty_ssid_and_counts() {
    let mut lists = IgnoreLists::load(
        vec!["aa.bb.cc.dd.ee.ff".to_string(), "AA:BB:CC:DD:EE:FF".to_string()],
        vec!["".to_string(), "Corp".to_string()],
    );
    assert_eq!(lists.mac_count(), 1);
    assert_eq!(lists.ssid_count(), 2);
    assert!(!lists.admits("aa:bb:cc:dd:ee:ff", "Home"));
    assert!(lists.admits("11:22:33:44:55:66", ""));
    assert!(!lists.admits("11:22:33:44:55:66", "Corp"));
    assert!(lists.remove_ssid("Corp"));
    assert!(!lists.remove_ssid("Corp"));
    assert!(lists.remove_mac("aa-bb-cc-dd-ee-ff"));
    assert_eq!(lists.mac_count(), 0);
    assert!(lists.admits("aa:bb:cc:dd:ee:ff", "Corp"));
}

#[test]
fn channel_aliases() {
    assert_eq!(get_2ghz_channels(), (1..=14).collect::<Vec<u8>>());
    assert_eq!(get_5ghz_channels().len(), 25);
    assert_eq!(get_all_channels().len(), 39);
    assert_eq!(parse_channels("ALL"), get_all_channels());
    assert_eq!(parse_channels("2ghz"), get_2ghz_channels());
    assert_eq!(parse_channels("2.4GHz"), get_2ghz_channels());
    assert_eq!(parse_channels("5ghz"), get_5ghz_channels());
}

#[test]
fn channel_lists_skip_what_is_not_a_number() {
    assert_eq!(parse_channels("1,6, 11"), vec![1, 6, 11]);
    assert_eq!(parse_channels("1,abc,300,+7,,\t36 "), vec![1, 7, 36]);
    assert_eq!(parse_channels(""), Vec::<u8>::new());
}

#[test]
fn hopper_cycles_through_channels() {
    let h = ChannelHopper::new("wlan1".to_string(), vec![1, 6, 11], 250);
    assert_eq!(h.channels(), &[1, 6, 11]);
    assert_eq!(h.hop_interval_ms(), 250);
    assert_eq!(h.next_hop(0), Some((1, 1)));
    assert_eq!(h.next_hop(2), Some((11, 0)));
    let idle = ChannelHopper::new("wlan1".to_string(), vec![], 250);
    assert_eq!(idle.next_hop(0), None);
}

#[test]
fn test_randomized_mac() {
    assert!(is_randomized_mac("02:00:00:00:00:00"));
    assert!(is_randomized_mac("06:00:00:00:00:00"));
    assert!(is_randomized_mac("0A:00:00:00:00:00"));
    assert!(is_randomized_mac("0E:00:00:00:00:00"));
    assert!(is_randomized_mac("42:00:00:00:00:00"));

    assert!(!is_randomized_mac("00:00:00:00:00:00"));
    assert!(!is_randomized_mac("04:00:00:00:00:00"));
    assert!(!is_randomized_mac("08:00:00:00:00:00"));
}

#[test]
fn test_vendor_lookup() {
    assert_eq!(lookup_vendor("00:03:93:00:00:00"), Some("Apple"));
    assert_eq!(lookup_vendor("B8:27:EB:00:00:00"), Some("Raspberry Pi"));
    assert_eq!(lookup_vendor("5C:CF:7F:00:00:00"), Some("Espressif"));
    assert_eq!(lookup_vendor("FF:FF:FF:00:00:00"), None);
}

#[test]
fn vendor_lookup_accepts_other_separators_and_case() {
    assert_eq!(lookup_vendor("b8-27-eb-12-34-56"), Some("Raspberry Pi"));
    assert_eq!(lookup_vendor("b8.27.eb"), Some("Raspberry Pi"));
    assert_eq!(lookup_vendor("b827eb123456"), None);
}

#[test]
fn short_vendor_codes_and_device_kinds() {
    assert_eq!(vendor_short("02:00:00:00:00:00"), "RND");
    assert_eq!(vendor_short("00:03:93:00:00:00"), "AAPL");
    assert_eq!(vendor_short("B8:27:EB:00:00:00"), "RPI");
    assert_eq!(vendor_short("FC:FF:FF:00:00:00"), "UNK");
    assert_eq!(infer_device_type("02:00:00:00:00:00", None), "Phone/Tablet");
    assert_eq!(infer_device_type("00:03:93:00:00:00", Some("Apple")), "Phone/Tablet");
    assert_eq!(infer_device_type("00:00:00:00:00:00", Some("Intel")), "Laptop/PC");
    assert_eq!(infer_device_type("00:00:00:00:00:00", Some("TP-Link")), "Router/IoT");
    assert_eq!(infer_device_type("00:00:00:00:00:00", Some("Acme")), "Unknown");
    assert_eq!(infer_device_type("00:00:00:00:00:00", None), "Unknown");
}

#[test]
fn ignore_lists_list_their_entries() {
    let lists = IgnoreLists::load(
        vec!["aa-bb-cc-dd-ee-ff".to_string(), "AA:BB:CC:DD:EE:FF".to_string(), "11.22.33.44.55.66".to_string()],
        vec!["Corp".to_string()],
    );
    let mut macs = lists.mac_entries();
    macs.sort();
    assert_eq!(macs, vec!["11:22:33:44:55:66".to_string(), "AA:BB:CC:DD:EE:FF".to_string()]);
    assert_eq!(lists.ssid_entries(), vec!["Corp".to_string()]);
}

#[test]
fn adding_and_removing_a_mac_changes_the_count_by_one() {
    let mut lists = IgnoreLists::new();
    lists.add_mac("aa:bb:cc:dd:ee:ff");
    lists.add_mac("AA-BB-CC-DD-EE-FF");
    assert_eq!(lists.mac_count(), 1);
    lists.add_mac("11:22:33:44:55:66");
    assert_eq!(lists.mac_count(), 2);
    assert!(lists.remove_mac("aa.bb.cc.dd.ee.ff"));
    assert_eq!(lists.mac_count(), 1);
    assert!(!lists.should_ignore_mac("AA:BB:CC:DD:EE:FF"));
}
