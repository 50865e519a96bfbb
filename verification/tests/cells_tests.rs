use easywifi::ap_detail::format_ap_detail_text;
use easywifi::cells::{
    ap_column_value, ap_column_value_with_watchlist, assoc_client_column_value,
    bluetooth_column_value, bluetooth_column_value_with_watchlist, client_column_value,
    client_column_value_with_watchlist, LocationCells,
};
use easywifi::channels::SpectrumBand;
use easywifi::records::{
    AccessPointRecord, BluetoothDeviceRecord, ClientEndpointRecord, ClientNetworkIntel,
    ClientRecord, GeoObservation, PacketTypeBreakdown, WpsInfo,
};
use easywifi::settings::{WatchlistDeviceType, WatchlistEntry, WatchlistSettings};

fn mix(m: u64, c: u64, d: u64, o: u64) -> PacketTypeBreakdown {
    PacketTypeBreakdown { management: m, control: c, data: d, other: o }
}

fn loc() -> LocationCells {
    LocationCells { first: "F".to_string(), last: "L".to_string(), strongest: "S".to_string() }
}

fn obs(rssi: Option<i32>) -> GeoObservation {
    GeoObservation { timestamp_ms: 0, latitude_bits: 0, longitude_bits: 0, altitude_bits: None, rssi_dbm: rssi }
}

fn ap() -> AccessPointRecord {
    AccessPointRecord {
        bssid: "AA:BB:CC:00:11:22".to_string(),
        ssid: None,
        oui_manufacturer: Some("Acme".to_string()),
        country_code_80211d: None,
        channel: Some(6),
        frequency_mhz: Some(2437),
        band: SpectrumBand::Ghz2_4,
        encryption_short: "WPA2".to_string(),
        encryption_full: "WPA2 - AKM PSK - Cipher CCMP".to_string(),
        uptime_beacons: Some(3661),
        rssi_dbm: Some(-40),
        first_seen: 3_600_000,
        last_seen: 7_322_000,
        handshake_count: 2,
        packet_mix: mix(1, 2, 3, 4),
        observations: vec![obs(Some(-50)), obs(Some(-60))],
        number_of_clients: 3,
        notes: None,
        wps: None,
        source_adapters: vec![],
    }
}

fn intel() -> ClientNetworkIntel {
    ClientNetworkIntel {
        local_ipv4_addresses: vec!["10.0.0.2".to_string(), "10.0.0.3".to_string()],
        local_ipv6_addresses: vec![],
        dhcp_hostnames: vec![],
        dhcp_fqdns: vec![],
        dhcp_vendor_classes: vec![],
        dns_names: vec![],
        remote_endpoints: (0..6)
            .map(|i| ClientEndpointRecord {
                ip_address: format!("1.1.1.{i}"),
                protocol: "UDP".to_string(),
                port: if i == 0 { Some(53) } else { None },
                domain: None,
                geo_city: None,
                first_seen: 0,
                last_seen: 0,
                packet_count: 1,
            })
            .collect(),
        uplink_bytes: 5,
        downlink_bytes: 6,
        packet_mix: mix(0, 0, 0, 0),
        retry_frame_count: 7,
        power_save_observed: true,
        qos_priorities: vec![],
        eapol_frame_count: 1,
        pmkid_count: 0,
        last_frame_type: None,
        last_frame_subtype: None,
        last_channel: Some(11),
        last_frequency_mhz: None,
        band: SpectrumBand::Ghz5,
        last_reason_code: None,
        last_status_code: None,
        listen_interval: None,
    }
}

fn client() -> ClientRecord {
    ClientRecord {
        mac: "11:22:33:44:55:66".to_string(),
        oui_manufacturer: None,
        associated_ap: Some("aa:bb:cc:00:11:22".to_string()),
        data_transferred_bytes: 1234,
        rssi_dbm: None,
        probes: vec!["Home".to_string(), "Cafe".to_string()],
        first_seen: 0,
        last_seen: 59_000,
        seen_access_points: vec!["X".to_string(), "Y".to_string()],
        handshake_networks: vec![],
        network_intel: intel(),
        observations: vec![],
        wps: Some(WpsInfo {
            version: None,
            state: None,
            config_methods: None,
            manufacturer: None,
            model_name: None,
            model_number: None,
            serial_number: None,
        }),
        source_adapters: vec![],
    }
}

fn device() -> BluetoothDeviceRecord {
    BluetoothDeviceRecord {
        mac: "C0:FF:EE:00:00:01".to_string(),
        address_type: Some("random".to_string()),
        transport: "le".to_string(),
        oui_manufacturer: None,
        advertised_name: None,
        alias: Some("Tag".to_string()),
        device_type: None,
        class_of_device: None,
        rssi_dbm: Some(-70),
        first_seen: 0,
        last_seen: 0,
        mfgr_ids: vec!["0x004C".to_string(), "0x0006".to_string()],
        mfgr_names: vec![],
        uuids: vec!["180F".to_string()],
        uuid_names: vec!["Battery".to_string()],
        active_enumeration: None,
        observations: vec![],
        source_adapters: vec![],
    }
}

fn cell(v: Option<String>) -> String {
    v.expect("known column")
}

#[test]
fn access_point_cells() {
    let a = ap();
    assert_eq!(cell(ap_column_value(&a, "ssid", &loc())), "<hidden>");
    assert_eq!(cell(ap_column_value(&a, "oui", &loc())), "Acme");
    assert_eq!(cell(ap_column_value(&a, "country", &loc())), "");
    assert_eq!(cell(ap_column_value(&a, "channel", &loc())), "6");
    assert_eq!(cell(ap_column_value(&a, "frequency", &loc())), "2437 MHz");
    assert_eq!(cell(ap_column_value(&a, "rssi", &loc())), "-40 dBm");
    assert_eq!(cell(ap_column_value(&a, "wps", &loc())), "False");
    assert_eq!(cell(ap_column_value(&a, "first_seen", &loc())), "01:00:00");
    assert_eq!(cell(ap_column_value(&a, "last_seen", &loc())), "02:02:02");
    assert_eq!(cell(ap_column_value(&a, "band", &loc())), "2.4 GHz");
    assert_eq!(cell(ap_column_value(&a, "hidden_ssid", &loc())), "True");
    assert_eq!(cell(ap_column_value(&a, "uptime", &loc())), "0d 01:01:01");
    assert_eq!(cell(ap_column_value(&a, "observation_count", &loc())), "2");
    assert_eq!(cell(ap_column_value(&a, "avg_rssi", &loc())), "-55 dBm");
    assert_eq!(cell(ap_column_value(&a, "min_rssi", &loc())), "-60 dBm");
    assert_eq!(cell(ap_column_value(&a, "max_rssi", &loc())), "-50 dBm");
    assert_eq!(cell(ap_column_value(&a, "packet_total", &loc())), "10");
    assert_eq!(cell(ap_column_value(&a, "strongest_location", &loc())), "S");
    assert_eq!(ap_column_value(&a, "nonsense", &loc()), None);
}

#[test]
fn client_cells() {
    let c = client();
    let mut named = ap();
    named.ssid = Some("Office".to_string());
    let aps = vec![named];
    let v = |id: &str| cell(client_column_value(&c, &aps, id, "3.5%", &loc()));
    assert_eq!(v("associated_ssid"), "Office");
    assert_eq!(v("probes"), "Home,Cafe");
    assert_eq!(v("seen_aps"), "X, Y");
    assert_eq!(v("wps"), "True");
    assert_eq!(v("rssi"), "");
    assert_eq!(v("last_heard"), "00:00:59");
    assert_eq!(v("data_transferred"), "1234");
    assert_eq!(v("probe_count"), "2");
    assert_eq!(v("band"), "5 GHz");
    assert_eq!(v("channel"), "11");
    assert_eq!(v("frequency"), "");
    assert_eq!(v("retry_rate"), "3.5%");
    assert_eq!(v("power_save"), "True");
    assert_eq!(v("ipv4_addresses"), "10.0.0.2, 10.0.0.3");
    assert_eq!(v("remote_endpoints"), "UDP 1.1.1.0:53 | UDP 1.1.1.1 | UDP 1.1.1.2 | UDP 1.1.1.3");
    assert_eq!(v("first_location"), "F");
    assert_eq!(client_column_value(&c, &aps, "ssid", "", &loc()), None);
}

#[test]
fn associated_client_cells() {
    let c = client();
    assert_eq!(cell(assoc_client_column_value(&c, "aa:bb:cc:00:11:22", &[], "status")), "Current");
    assert_eq!(cell(assoc_client_column_value(&c, "AA:BB:CC:00:11:22", &[], "status")), "Historical");
    assert_eq!(cell(assoc_client_column_value(&c, "x", &[], "current_ssid")), "");
    assert_eq!(cell(assoc_client_column_value(&c, "x", &[], "seen_ap_count")), "2");
    assert_eq!(assoc_client_column_value(&c, "x", &[], "probes"), None);
}

#[test]
fn bluetooth_cells() {
    let d = device();
    assert_eq!(cell(bluetooth_column_value(&d, "name")), "Tag");
    assert_eq!(cell(bluetooth_column_value(&d, "type")), "Unknown");
    assert_eq!(cell(bluetooth_column_value(&d, "advertised_name")), "");
    assert_eq!(cell(bluetooth_column_value(&d, "mfgr_ids")), "0x004C, 0x0006");
    assert_eq!(cell(bluetooth_column_value(&d, "uuids")), "Battery");
    assert_eq!(cell(bluetooth_column_value(&d, "rssi")), "-70 dBm");
    assert_eq!(bluetooth_column_value(&d, "bssid"), None);
}

#[test]
fn watchlist_columns() {
    let w = WatchlistSettings {
        entries: vec![
            WatchlistEntry {
                label: " Tracker ".to_string(),
                device_type: WatchlistDeviceType::Bluetooth,
                mac: "c0:ff:ee:00:00:01".to_string(),
                name: String::new(),
                color_hex: String::new(),
            },
            WatchlistEntry {
                label: "Phone".to_string(),
                device_type: WatchlistDeviceType::Wifi,
                mac: String::new(),
                name: "cafe".to_string(),
                color_hex: String::new(),
            },
        ],
        networks: vec![],
        devices: vec![],
    };
    assert_eq!(cell(bluetooth_column_value_with_watchlist(&device(), "watchlist_entry", &w)), "Tracker");
    assert_eq!(cell(bluetooth_column_value_with_watchlist(&device(), "mac", &w)), "C0:FF:EE:00:00:01");
    assert_eq!(cell(ap_column_value_with_watchlist(&ap(), "watchlist_entry", &w, &loc())), "");
    assert_eq!(
        cell(client_column_value_with_watchlist(&client(), &[], "watchlist_entry", &w, "", &loc())),
        "Phone"
    );
}

#[test]
fn access_point_detail_text() {
    let mut a = ap();
    a.wps = Some(WpsInfo {
        version: Some("2.0".to_string()),
        state: None,
        config_methods: None,
        manufacturer: None,
        model_name: None,
        model_number: None,
        serial_number: None,
    });
    let text = format_ap_detail_text(&a, &loc());
    assert!(text.starts_with("Identity\nSSID: <hidden>\nHidden SSID: True\nBSSID: AA:BB:CC:00:11:22\nOUI: Acme\n802.11d Country: Unknown"));
    assert!(text.contains("\nAKM Suites: PSK\nCipher Suites: CCMP\nPMF: Unknown\nWPS:\nPresent\n  Version: 2.0\n  State: Unknown"));
    assert!(text.contains("\nFrequency: 2437 MHz\nSecondary Channel: Not captured yet"));
    assert!(text.contains("\nAverage RSSI: -55 dBm\nMinimum RSSI: -60 dBm\nMaximum RSSI: -50 dBm\nRSSI Samples: 2\nClients: 3\nFirst Seen: 1970-01-01 01:00:00 UTC"));
    assert!(text.contains("\nFirst Location: F\nLast Location: L\nStrongest Location: S\nUptime (beacon estimate): 0d 01:01:01"));
    assert!(text.ends_with("Packet Totals: total=10 mgmt=1 control=2 data=3 other=4\nBSS Load: Not captured yet\nObserved Data Rates: Not captured yet\nRetry Rate: Not captured yet\n\nNotes\nNone"));
}
