use prowl::capabilities::{extract_capabilities, WifiGeneration};
use prowl::frame::{format_mac, is_probe_request, parse_probe_request};
use prowl::ignore::IgnoreLists;
use prowl::pipeline::{classify_packet, PacketOutcome};
use prowl::radiotap::extract_signal_dbm;

fn probe_frame(src: [u8; 6], ssid: &[u8]) -> Vec<u8> {
    let mut f = vec![0x40, 0x00, 0x00, 0x00];
    f.extend_from_slice(&[0xff; 6]);
    f.extend_from_slice(&src);
    f.extend_from_slice(&[0xff; 6]);
    f.extend_from_slice(&[0x10, 0x00]);
    f.push(0);
    f.push(ssid.len() as u8);
    f.extend_from_slice(ssid);
    f.extend_from_slice(&[1, 4, 0x82, 0x84, 0x8b, 0x96]);
    f.extend_from_slice(&[50, 2, 0x0c, 0x12]);
    f.extend_from_slice(&[3, 1, 6]);
    let mut ht = vec![45, 26, 0x62, 0x01];
    ht.extend_from_slice(&[0u8; 24]);
    f.extend_from_slice(&ht);
    f.extend_from_slice(&[221, 7, 0x00, 0x50, 0xf2, 0x08, 0x00, 0x10, 0x00]);
    f
}

fn with_radiotap(signal: u8, frame: &[u8]) -> Vec<u8> {
    let mut b = vec![0x00, 0x00, 0x09, 0x00, 0x20, 0x00, 0x00, 0x00, signal];
    b.extend_from_slice(frame);
    b
}

#[test]
fn test_format_mac() {
    let mac = [0xAA, 0xBB, 0xCC, 0xDD, 0xEE, 0xFF];
    assert_eq!(format_mac(&mac), "AA:BB:CC:DD:EE:FF");
}

#[test]
fn format_mac_pads_small_bytes() {
    assert_eq!(format_mac(&[0x00, 0x0a, 0x27, 0x01, 0x10, 0xf0]), "00:0A:27:01:10:F0");
}

#[test]
fn signal_from_radiotap_with_only_signal_field() {
    let buf = [0x00, 0x00, 0x09, 0x00, 0x20, 0x00, 0x00, 0x00, 0xD8];
    assert_eq!(extract_signal_dbm(&buf), Some(-40));
}

#[test]
fn signal_byte_outside_declared_header_is_rejected() {
    // The header declares 8 bytes, so the signal byte at offset 8 lies
    // outside it.
    let buf = [0x00, 0x00, 0x08, 0x00, 0x20, 0x00, 0x00, 0x00, 0xD8];
    assert_eq!(extract_signal_dbm(&buf), None);
}

#[test]
fn radiotap_length_beyond_buffer_is_rejected() {
    let buf = [0x00, 0x00, 0x20, 0x00, 0x20, 0x00, 0x00, 0x00, 0xD8];
    assert_eq!(extract_signal_dbm(&buf), None);
}

#[test]
fn radiotap_without_signal_bit_is_rejected() {
    let buf = [0x00, 0x00, 0x09, 0x00, 0x02, 0x00, 0x00, 0x00, 0x10];
    assert_eq!(extract_signal_dbm(&buf), None);
}

#[test]
fn radiotap_truncated_present_chain_is_rejected() {
    // Bit 31 announces a second present word that the header does not hold.
    let buf = [0x00, 0x00, 0x08, 0x00, 0x20, 0x00, 0x00, 0x80, 0xD8];
    assert_eq!(extract_signal_dbm(&buf), None);
}

#[test]
fn radiotap_wrong_version_is_rejected() {
    let buf = [0x01, 0x00, 0x09, 0x00, 0x20, 0x00, 0x00, 0x00, 0xD8];
    assert_eq!(extract_signal_dbm(&buf), None);
}

#[test]
fn radiotap_walks_extended_present_words_and_alignment() {
    // Two present words; TSFT (aligned to 8), flags, rate, channel (aligned
    // to 2) and FHSS come before the signal.
    let mut buf = vec![0x00, 0x00, 0x00, 0x00];
    buf.extend_from_slice(&[0x3f, 0x00, 0x00, 0x80]);
    buf.extend_from_slice(&[0x00, 0x00, 0x00, 0x00]);
    // fields start at 12; TSFT aligned to 16
    buf.extend_from_slice(&[0xee; 4]);
    buf.extend_from_slice(&[0x11; 8]); // TSFT at 16
    buf.push(0x10); // flags at 24
    buf.push(0x02); // rate at 25
    buf.extend_from_slice(&[0x85, 0x09, 0xa0, 0x00]); // channel at 26
    buf.extend_from_slice(&[0x00, 0x00]); // FHSS at 30
    buf.push(0xC4); // signal at 32
    let len = buf.len() as u8;
    buf[2] = len;
    assert_eq!(extract_signal_dbm(&buf), Some(-60));
}

#[test]
fn probe_request_is_recognised() {
    let f = probe_frame([0x02, 0x11, 0x22, 0x33, 0x44, 0x55], b"Home");
    assert!(is_probe_request(&f));
    assert!(is_probe_request(&with_radiotap(0xD8, &f)));
    let mut beacon = f.clone();
    beacon[0] = 0x80;
    assert!(!is_probe_request(&beacon));
}

#[test]
fn probe_request_is_parsed() {
    let f = probe_frame([0x02, 0x11, 0x22, 0x33, 0x44, 0xa5], b"Home");
    let p = parse_probe_request(&with_radiotap(0xD8, &f), Some(-40)).unwrap();
    assert_eq!(p.source_mac, "02:11:22:33:44:A5");
    assert_eq!(p.ssid, "Home");
    assert_eq!(p.signal_dbm, Some(-40));
    assert!(p.capabilities.has_ht);
    assert_eq!(p.capabilities.wifi_generation, WifiGeneration::N);
}

#[test]
fn wildcard_probe_has_empty_ssid() {
    let f = probe_frame([0x02, 0x11, 0x22, 0x33, 0x44, 0x55], b"");
    let p = parse_probe_request(&f, None).unwrap();
    assert_eq!(p.ssid, "");
}

#[test]
fn non_probe_frames_are_rejected() {
    let mut f = probe_frame([0x02, 0x11, 0x22, 0x33, 0x44, 0x55], b"Home");
    f[0] = 0x80;
    assert!(parse_probe_request(&f, None).is_none());
}

#[test]
fn short_frames_are_rejected() {
    let f = probe_frame([0x02, 0x11, 0x22, 0x33, 0x44, 0x55], b"Home");
    assert!(parse_probe_request(&f[..23], None).is_none());
    assert!(parse_probe_request(&with_radiotap(0xD8, &f[..20]), None).is_none());
}

#[test]
fn capabilities_are_extracted() {
    let f = probe_frame([0x02, 0x11, 0x22, 0x33, 0x44, 0x55], b"Home");
    let c = extract_capabilities(&f);
    assert_eq!(c.ie_ids, vec![0, 1, 50, 3, 45, 221]);
    assert_eq!(c.supported_rates, vec![2, 4, 11, 22]);
    assert_eq!(c.extended_rates, vec![12, 18]);
    assert_eq!(c.max_rate, Some(22));
    assert_eq!(c.ds_channel, Some(6));
    assert!(c.has_ht && !c.has_vht && !c.has_he);
    let ht = c.ht.unwrap();
    assert!(ht.width_40mhz);
    assert!(ht.short_gi_20);
    assert!(ht.short_gi_40);
    assert!(!ht.tx_stbc);
    assert_eq!(ht.rx_stbc, 1);
    assert_eq!(c.vendor_ies.len(), 1);
    assert_eq!(c.vendor_ies[0].oui, 0x0050f2);
    assert_eq!(c.vendor_ies[0].oui_type, Some(8));
    assert_eq!(c.vendor_ies[0].length, 7);
}

#[test]
fn vht_and_he_capabilities_set_the_generation() {
    let mut f = probe_frame([0x02, 0x11, 0x22, 0x33, 0x44, 0x55], b"x");
    f.extend_from_slice(&[191, 12, 0x62, 0x08, 0x08, 0x00]);
    f.extend_from_slice(&[0u8; 8]);
    let c = extract_capabilities(&f);
    assert_eq!(c.wifi_generation, WifiGeneration::Ac);
    let v = c.vht.unwrap();
    assert_eq!(v.max_mpdu, Some(11454));
    assert_eq!(v.channel_width, 0);
    assert!(v.short_gi_80 && v.short_gi_160);
    assert!(v.su_beamformer && v.mu_beamformer);
    f.extend_from_slice(&[255, 3, 35, 0, 0]);
    let c = extract_capabilities(&f);
    assert!(c.has_he);
    assert_eq!(c.wifi_generation.label(), "802.11ax");
}

#[test]
fn truncated_ie_ends_the_list() {
    let mut f = probe_frame([0x02, 0x11, 0x22, 0x33, 0x44, 0x55], b"Home");
    f.extend_from_slice(&[191, 40, 1, 2]);
    let c = extract_capabilities(&f);
    assert!(!c.has_vht);
    assert_eq!(c.ie_ids.len(), 6);
}

#[test]
fn packets_are_classified_against_the_ignore_lists() {
    let f = with_radiotap(0xD8, &probe_frame([0xaa, 0xbb, 0xcc, 0xdd, 0xee, 0xff], b"Home"));
    let mut lists = IgnoreLists::new();
    match classify_packet(&f, &lists) {
        PacketOutcome::Admitted(p) => assert_eq!(p.signal_dbm, Some(-40)),
        _ => panic!("expected an admitted probe"),
    }
    lists.add_ssid("Home");
    assert!(matches!(classify_packet(&f, &lists), PacketOutcome::Ignored(_)));
    let mut lists = IgnoreLists::new();
    lists.add_mac("aa-bb-cc-dd-ee-ff");
    assert!(matches!(classify_packet(&f, &lists), PacketOutcome::Ignored(_)));
    assert!(matches!(classify_packet(&f[..20], &lists), PacketOutcome::Malformed));
}

#[test]
fn rsn_and_wpa_parameters_are_decoded() {
    let mut f = probe_frame([0x02, 0x11, 0x22, 0x33, 0x44, 0x55], b"Home");
    f.extend_from_slice(&[
        48, 20, 1, 0, 0x00, 0x0f, 0xac, 0x04, 1, 0, 0x00, 0x0f, 0xac, 0x04, 1, 0, 0x00, 0x0f, 0xac,
        0x02, 0xc0, 0x00,
    ]);
    f.extend_from_slice(&[
        221, 22, 0x00, 0x50, 0xf2, 0x01, 1, 0, 0x00, 0x50, 0xf2, 0x02, 1, 0, 0x00, 0x50, 0xf2, 0x02,
        1, 0, 0x00, 0x50, 0xf2, 0x02,
    ]);
    let c = extract_capabilities(&f);
    let rsn = c.rsn.unwrap();
    assert_eq!(rsn.version, 1);
    assert_eq!(rsn.group_cipher, 0x000fac04);
    assert_eq!(rsn.pairwise_ciphers, vec![0x000fac04]);
    assert_eq!(rsn.akm_suites, vec![0x000fac02]);
    assert!(rsn.mfp_required && rsn.mfp_capable);
    let wpa = c.wpa.unwrap();
    assert_eq!(wpa.group_cipher, 0x0050f202);
    assert_eq!(wpa.akm_suites, vec![0x0050f202]);
    assert!(!wpa.mfp_required && !wpa.mfp_capable);
}

#[test]
fn short_rsn_is_not_decoded() {
    let mut f = probe_frame([0x02, 0x11, 0x22, 0x33, 0x44, 0x55], b"Home");
    f.extend_from_slice(&[48, 8, 1, 0, 0x00, 0x0f, 0xac, 0x04, 2, 0]);
    let c = extract_capabilities(&f);
    assert!(c.rsn.is_none());
    assert!(c.wpa.is_none());
}

#[test]
fn wps_descriptor_is_decoded() {
    let mut f = probe_frame([0x02, 0x11, 0x22, 0x33, 0x44, 0x55], b"Home");
    f.extend_from_slice(&[221, 30, 0x00, 0x50, 0xf2, 0x04]);
    f.extend_from_slice(&[0x10, 0x44, 0x00, 0x01, 0x02]);
    f.extend_from_slice(&[0x10, 0x11, 0x00, 0x05, b'P', b'h', b'o', b'n', b'e']);
    f.extend_from_slice(&[0x10, 0x54, 0x00, 0x08, 0x00, 0x0a, 0x00, 0x50, 0xf2, 0x04, 0x00, 0x05]);
    let c = extract_capabilities(&f);
    let w = c.wps.unwrap();
    assert_eq!(w.device_name, Some(b"Phone".to_vec()));
    assert_eq!(w.manufacturer, None);
    assert_eq!(w.primary_device_type, Some((10, 5)));
    assert_eq!(w.configured, Some(true));
    assert!(c.wpa.is_none());
}

#[test]
fn vendor_ies_carry_the_registered_maker() {
    let mut f = probe_frame([0x02, 0x11, 0x22, 0x33, 0x44, 0x55], b"Home");
    f.extend_from_slice(&[221, 5, 0x00, 0x17, 0xf2, 0x0a, 0x00]);
    let c = extract_capabilities(&f);
    assert_eq!(c.vendor_ies.len(), 2);
    assert_eq!(c.vendor_ies[1].oui, 0x0017f2);
    assert_eq!(c.vendor_ies[1].vendor, Some(prowl::oui::Vendor::Apple));
    assert_eq!(c.vendor_ies[1].vendor.map(|v| v.label()), Some("Apple"));
}

#[test]
fn wps_element_ending_on_empty_setup_state_is_rejected() {
    let mut f = probe_frame([0x02, 0x11, 0x22, 0x33, 0x44, 0x55], b"Home")[..24].to_vec();
    f.extend_from_slice(&[0xDD, 0x08, 0x00, 0x50, 0xF2, 0x04, 0x10, 0x57, 0x00, 0x00]);
    assert!(prowl::capabilities::has_unterminated_wps_state(&f));
    assert!(parse_probe_request(&f, None).is_none());
    let lists = IgnoreLists::new();
    assert!(matches!(classify_packet(&with_radiotap(0xD8, &f), &lists), PacketOutcome::Malformed));
}

#[test]
fn wps_element_with_setup_state_value_is_parsed() {
    let mut f = probe_frame([0x02, 0x11, 0x22, 0x33, 0x44, 0x55], b"Home");
    f.extend_from_slice(&[0xDD, 0x09, 0x00, 0x50, 0xF2, 0x04, 0x10, 0x57, 0x00, 0x01, 0x01]);
    assert!(!prowl::capabilities::has_unterminated_wps_state(&f));
    let p = parse_probe_request(&f, None).unwrap();
    assert_eq!(p.ssid, "Home");
    assert!(p.capabilities.wps.is_some());
}
