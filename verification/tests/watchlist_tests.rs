use easywifi::channels::SpectrumBand;
use easywifi::records::{
    AccessPointRecord, BluetoothDeviceRecord, ClientNetworkIntel, ClientRecord,
    PacketTypeBreakdown,
};
use easywifi::settings::{WatchlistDeviceType, WatchlistEntry, WatchlistSettings};
use easywifi::watchlist::{
    ap_watchlist_match, associated_ssid_for_client, bluetooth_display_name,
    bluetooth_watchlist_match, build_watchlist_match, client_watchlist_match, looks_like_mac,
    migrate_watchlist_settings, normalize_watch_mac, normalize_watch_name,
    normalize_watchlist_color, watchlist_css_class, watchlist_css_classes,
    watchlist_entry_label, watchlist_entry_matches_mac, watchlist_entry_matches_name,
};

fn mix() -> PacketTypeBreakdown {
    PacketTypeBreakdown { management: 0, control: 0, data: 0, other: 0 }
}

fn entry(label: &str, kind: WatchlistDeviceType, mac: &str, name: &str) -> WatchlistEntry {
    WatchlistEntry {
        label: label.to_string(),
        device_type: kind,
        mac: mac.to_string(),
        name: name.to_string(),
        color_hex: "#123456".to_string(),
    }
}

fn lists(entries: Vec<WatchlistEntry>) -> WatchlistSettings {
    WatchlistSettings { entries, networks: vec![], devices: vec![] }
}

fn ap(bssid: &str, ssid: Option<&str>) -> AccessPointRecord {
    AccessPointRecord {
        bssid: bssid.to_string(),
        ssid: ssid.map(|s| s.to_string()),
        oui_manufacturer: None,
        country_code_80211d: None,
        channel: None,
        frequency_mhz: None,
        band: SpectrumBand::Unknown,
        encryption_short: String::new(),
        encryption_full: String::new(),
        uptime_beacons: None,
        rssi_dbm: None,
        first_seen: 0,
        last_seen: 0,
        handshake_count: 0,
        packet_mix: mix(),
        observations: vec![],
        number_of_clients: 0,
        notes: None,
        wps: None,
        source_adapters: vec![],
    }
}

fn client(mac: &str, associated: Option<&str>, probes: &[&str]) -> ClientRecord {
    ClientRecord {
        mac: mac.to_string(),
        oui_manufacturer: None,
        associated_ap: associated.map(|s| s.to_string()),
        data_transferred_bytes: 0,
        rssi_dbm: None,
        probes: probes.iter().map(|p| p.to_string()).collect(),
        first_seen: 0,
        last_seen: 0,
        seen_access_points: vec![],
        handshake_networks: vec![],
        network_intel: ClientNetworkIntel {
            local_ipv4_addresses: vec![],
            local_ipv6_addresses: vec![],
            dhcp_hostnames: vec![],
            dhcp_fqdns: vec![],
            dhcp_vendor_classes: vec![],
            dns_names: vec![],
            remote_endpoints: vec![],
            uplink_bytes: 0,
            downlink_bytes: 0,
            packet_mix: mix(),
            retry_frame_count: 0,
            power_save_observed: false,
            qos_priorities: vec![],
            eapol_frame_count: 0,
            pmkid_count: 0,
            last_frame_type: None,
            last_frame_subtype: None,
            last_channel: None,
            last_frequency_mhz: None,
            band: SpectrumBand::Unknown,
            last_reason_code: None,
            last_status_code: None,
            listen_interval: None,
        },
        observations: vec![],
        wps: None,
        source_adapters: vec![],
    }
}

fn device(mac: &str, advertised: Option<&str>, alias: Option<&str>) -> BluetoothDeviceRecord {
    BluetoothDeviceRecord {
        mac: mac.to_string(),
        address_type: None,
        transport: "le".to_string(),
        oui_manufacturer: None,
        advertised_name: advertised.map(|s| s.to_string()),
        alias: alias.map(|s| s.to_string()),
        device_type: None,
        class_of_device: None,
        rssi_dbm: None,
        first_seen: 0,
        last_seen: 0,
        mfgr_ids: vec![],
        mfgr_names: vec![],
        uuids: vec![],
        uuid_names: vec![],
        active_enumeration: None,
        observations: vec![],
        source_adapters: vec![],
    }
}

#[test]
fn normalising_addresses_and_names() {
    assert_eq!(normalize_watch_mac("aa:bb-cc.dd ee:ff"), "AABBCCDDEEFF");
    assert_eq!(normalize_watch_mac(&normalize_watch_mac("a1:g2")), normalize_watch_mac("a1:g2"));
    assert_eq!(normalize_watch_name("  My Phone "), "my phone");
    assert!(looks_like_mac("aa:bb:cc:dd:ee:ff"));
    assert!(!looks_like_mac("aa:bb:cc"));
}

#[test]
fn colours_are_normalised_once_and_for_all() {
    assert_eq!(normalize_watchlist_color(" ff0000 "), "#ff0000");
    assert_eq!(normalize_watchlist_color("##abcdef12"), "#abcdef12");
    assert_eq!(normalize_watchlist_color(""), "#2ecc71");
    assert_eq!(normalize_watchlist_color("#12345"), "#2ecc71");
    assert_eq!(normalize_watchlist_color("#zzzzzz"), "#2ecc71");
    let once = normalize_watchlist_color("##abcdef");
    assert_eq!(normalize_watchlist_color(&once), once);
}

#[test]
fn labels_and_classes() {
    assert_eq!(watchlist_entry_label(&entry(" Car ", WatchlistDeviceType::Wifi, "", "")), "Car");
    assert_eq!(watchlist_entry_label(&entry(" ", WatchlistDeviceType::Wifi, "aa", " kit ")), "kit");
    assert_eq!(watchlist_entry_label(&entry("", WatchlistDeviceType::Wifi, " aa ", "")), "aa");
    assert_eq!(watchlist_entry_label(&entry("", WatchlistDeviceType::Wifi, "", "")), "Watchlist");
    assert_eq!(watchlist_css_class(3), "watchlist-row-3");
    let l = lists(vec![entry("a", WatchlistDeviceType::Wifi, "", ""), entry("b", WatchlistDeviceType::Wifi, "", "")]);
    assert_eq!(watchlist_css_classes(&l), vec!["watchlist-row-0".to_string(), "watchlist-row-1".to_string()]);
}

#[test]
fn match_carries_label_class_and_alert_key() {
    let e = entry("Car", WatchlistDeviceType::Bluetooth, "aa:bb", " Kit ");
    let m = build_watchlist_match(2, &e);
    assert_eq!(m.label, "Car");
    assert_eq!(m.css_class, "watchlist-row-2");
    assert_eq!(m.alert_key, "Bluetooth:2:AABB:kit");
}

#[test]
fn entry_matching_ignores_format_and_case() {
    let e = entry("x", WatchlistDeviceType::Wifi, "AA-BB-CC-DD-EE-FF", " Home ");
    assert!(watchlist_entry_matches_mac(&e, "aa:bb:cc:dd:ee:ff"));
    assert!(!watchlist_entry_matches_mac(&e, "aa:bb:cc:dd:ee:00"));
    assert!(watchlist_entry_matches_name(&e, "HOME"));
    let blank = entry("x", WatchlistDeviceType::Wifi, "  ", "");
    assert!(!watchlist_entry_matches_mac(&blank, ""));
    assert!(!watchlist_entry_matches_name(&blank, ""));
}

#[test]
fn access_point_matches() {
    let l = lists(vec![
        entry("bt", WatchlistDeviceType::Bluetooth, "11:22:33:44:55:66", ""),
        entry("net", WatchlistDeviceType::Wifi, "", "HomeNet"),
    ]);
    assert!(ap_watchlist_match(&ap("11:22:33:44:55:66", None), &l).is_none());
    let m = ap_watchlist_match(&ap("AA", Some("homenet")), &l).unwrap();
    assert_eq!(m.css_class, "watchlist-row-1");
}

#[test]
fn client_matches_by_address_network_or_probe() {
    let aps = vec![ap("AA:BB", Some("Office")), ap("CC:DD", None)];
    assert_eq!(associated_ssid_for_client(&aps, &client("x", Some("aa:bb"), &[])), Some("Office".to_string()));
    assert_eq!(associated_ssid_for_client(&aps, &client("x", Some("CC:DD"), &[])), Some("<hidden>".to_string()));
    assert_eq!(associated_ssid_for_client(&aps, &client("x", None, &[])), None);

    let l = lists(vec![entry("office", WatchlistDeviceType::Wifi, "", "office")]);
    assert!(client_watchlist_match(&client("x", Some("AA:BB"), &[]), &aps, &l).is_some());
    assert!(client_watchlist_match(&client("x", None, &["OFFICE"]), &aps, &l).is_some());
    assert!(client_watchlist_match(&client("x", None, &["cafe"]), &aps, &l).is_none());
}

#[test]
fn bluetooth_matches_by_address_or_names() {
    assert_eq!(bluetooth_display_name(&device("1", Some("Buds"), Some("Mine"))), "Buds");
    assert_eq!(bluetooth_display_name(&device("1", None, Some("Mine"))), "Mine");
    assert_eq!(bluetooth_display_name(&device("1", None, None)), "");
    let l = lists(vec![
        entry("wifi", WatchlistDeviceType::Wifi, "11:22:33:44:55:66", ""),
        entry("mine", WatchlistDeviceType::Bluetooth, "", "mine"),
    ]);
    assert!(bluetooth_watchlist_match(&device("11:22:33:44:55:66", None, None), &l).is_none());
    let m = bluetooth_watchlist_match(&device("99", Some("Buds"), Some("MINE")), &l).unwrap();
    assert_eq!(m.label, "mine");
}

#[test]
fn legacy_watchlists_migrate_into_entries() {
    let mut w = WatchlistSettings {
        entries: vec![
            entry(" Car ", WatchlistDeviceType::Wifi, " aa:bb:cc:dd:ee:ff ", ""),
            entry("Car", WatchlistDeviceType::Wifi, "AABBCCDDEEFF", ""),
            entry("empty", WatchlistDeviceType::Wifi, " ", " "),
        ],
        networks: vec![" HomeNet ".to_string(), "".to_string()],
        devices: vec!["11:22:33:44:55:66".to_string()],
    };
    w.entries[1].color_hex = "bad".to_string();
    migrate_watchlist_settings(&mut w);
    assert!(w.networks.is_empty() && w.devices.is_empty());
    assert_eq!(w.entries.len(), 3);
    assert_eq!(w.entries[0].label, "Car");
    assert_eq!(w.entries[0].mac, "aa:bb:cc:dd:ee:ff");
    assert_eq!(w.entries[0].color_hex, "#123456");
    assert_eq!(w.entries[1].name, "HomeNet");
    assert_eq!(w.entries[1].color_hex, "#2ecc71");
    assert_eq!(w.entries[2].mac, "11:22:33:44:55:66");
    assert_eq!(w.entries[2].label, "11:22:33:44:55:66");
}
