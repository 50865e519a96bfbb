use easywifi::channels::SpectrumBand;
use easywifi::records::{
    AccessPointRecord, BluetoothDeviceRecord, ClientEndpointRecord, ClientNetworkIntel,
    ClientRecord, GeoObservation, PacketTypeBreakdown, WpsInfo,
};
use easywifi::settings::WatchlistSettings;
use easywifi::sort_keys::{sort_access_points, sort_bluetooth_devices, sort_clients, SortFacts};
use easywifi::table::TableSortState;

fn mix(m: u64, c: u64, d: u64, o: u64) -> PacketTypeBreakdown {
    PacketTypeBreakdown { management: m, control: c, data: d, other: o }
}

fn obs(rssi: Option<i32>) -> GeoObservation {
    GeoObservation { timestamp_ms: 0, latitude_bits: 0, longitude_bits: 0, altitude_bits: None, rssi_dbm: rssi }
}

fn ap() -> AccessPointRecord {
    AccessPointRecord {
        bssid: "AA:BB:CC:00:11:22".to_string(),
        ssid: None,
        oui_manufacturer: Some("Acme".to_string()),
        country_code_80211d: None,
        channel: Some(6),
        frequency_mhz: Some(2437),
        band: SpectrumBand::Ghz2_4,
        encryption_short: "WPA2".to_string(),
        encryption_full: "WPA2 - AKM PSK - Cipher CCMP".to_string(),
        uptime_beacons: Some(3661),
        rssi_dbm: Some(-40),
        first_seen: 3_600_000,
        last_seen: 7_322_000,
        handshake_count: 2,
        packet_mix: mix(1, 2, 3, 4),
        observations: vec![obs(Some(-50)), obs(Some(-60))],
        number_of_clients: 3,
        notes: None,
        wps: None,
        source_adapters: vec![],
    }
}

fn intel() -> ClientNetworkIntel {
    ClientNetworkIntel {
        local_ipv4_addresses: vec!["10.0.0.2".to_string(), "10.0.0.3".to_string()],
        local_ipv6_addresses: vec![],
        dhcp_hostnames: vec![],
        dhcp_fqdns: vec![],
        dhcp_vendor_classes: vec![],
        dns_names: vec![],
        remote_endpoints: (0..6)
            .map(|i| ClientEndpointRecord {
                ip_address: format!("1.1.1.{i}"),
                protocol: "UDP".to_string(),
                port: if i == 0 { Some(53) } else { None },
                domain: None,
                geo_city: None,
                first_seen: 0,
                last_seen: 0,
                packet_count: 1,
            })
            .collect(),
        uplink_bytes: 5,
        downlink_bytes: 6,
        packet_mix: mix(0, 0, 0, 0),
        retry_frame_count: 7,
        power_save_observed: true,
        qos_priorities: vec![],
        eapol_frame_count: 1,
        pmkid_count: 0,
        last_frame_type: None,
        last_frame_subtype: None,
        last_channel: Some(11),
        last_frequency_mhz: None,
        band: SpectrumBand::Ghz5,
        last_reason_code: None,
        last_status_code: None,
        listen_interval: None,
    }
}

fn client() -> ClientRecord {
    ClientRecord {
        mac: "11:22:33:44:55:66".to_string(),
        oui_manufacturer: None,
        associated_ap: Some("aa:bb:cc:00:11:22".to_string()),
        data_transferred_bytes: 1234,
        rssi_dbm: None,
        probes: vec!["Home".to_string(), "Cafe".to_string()],
        first_seen: 0,
        last_seen: 59_000,
        seen_access_points: vec!["X".to_string(), "Y".to_string()],
        handshake_networks: vec![],
        network_intel: intel(),
        observations: vec![],
        wps: Some(WpsInfo {
            version: None,
            state: None,
            config_methods: None,
            manufacturer: None,
            model_name: None,
            model_number: None,
            serial_number: None,
        }),
        source_adapters: vec![],
    }
}

fn device() -> BluetoothDeviceRecord {
    BluetoothDeviceRecord {
        mac: "C0:FF:EE:00:00:01".to_string(),
        address_type: Some("random".to_string()),
        transport: "le".to_string(),
        oui_manufacturer: None,
        advertised_name: None,
        alias: Some("Tag".to_string()),
        device_type: None,
        class_of_device: None,
        rssi_dbm: Some(-70),
        first_seen: 0,
        last_seen: 0,
        mfgr_ids: vec!["0x004C".to_string(), "0x0006".to_string()],
        mfgr_names: vec![],
        uuids: vec!["180F".to_string()],
        uuid_names: vec!["Battery".to_string()],
        active_enumeration: None,
        observations: vec![],
        source_adapters: vec![],
    }
}


fn no_watch() -> WatchlistSettings {
    WatchlistSettings { entries: vec![], networks: vec![], devices: vec![] }
}

fn facts(n: usize) -> Vec<SortFacts> {
    (0..n)
        .map(|_| SortFacts { first_fix_at: None, last_fix_at: None, strongest_rssi: None, retry_rate: String::new() })
        .collect()
}

fn by(column: &str, descending: bool) -> TableSortState {
    TableSortState { column_id: column.to_string(), descending }
}

fn named_ap(bssid: &str, ssid: Option<&str>, last_seen: i64, rssi: Option<i32>) -> AccessPointRecord {
    let mut a = ap();
    a.bssid = bssid.to_string();
    a.ssid = ssid.map(|s| s.to_string());
    a.last_seen = last_seen;
    a.rssi_dbm = rssi;
    a
}

fn bssids(aps: &[AccessPointRecord]) -> Vec<&str> {
    aps.iter().map(|a| a.bssid.as_str()).collect()
}

#[test]
fn access_points_sort_by_ssid_ignoring_case() {
    let mut aps = vec![
        named_ap("03", Some("beta"), 10, None),
        named_ap("01", Some("Alpha"), 10, None),
        named_ap("02", None, 10, None),
        named_ap("04", Some("ALPHA"), 20, None),
    ];
    let f = facts(aps.len());
    sort_access_points(&mut aps, &by("ssid", false), &no_watch(), &f);
    // no SSID sorts as empty; equal keys: newest first
    assert_eq!(bssids(&aps), vec!["02", "04", "01", "03"]);
    sort_access_points(&mut aps, &by("ssid", true), &no_watch(), &f);
    assert_eq!(bssids(&aps), vec!["03", "04", "01", "02"]);
}

#[test]
fn access_points_unknown_signal_sorts_lowest() {
    let mut aps = vec![
        named_ap("b", None, 5, Some(-30)),
        named_ap("a", None, 5, None),
        named_ap("c", None, 5, Some(-90)),
    ];
    let f = facts(aps.len());
    sort_access_points(&mut aps, &by("rssi", false), &no_watch(), &f);
    assert_eq!(bssids(&aps), vec!["a", "c", "b"]);
}

#[test]
fn access_points_ties_break_by_recency_then_bssid() {
    let mut aps = vec![
        named_ap("b", None, 5, None),
        named_ap("a", None, 5, None),
        named_ap("c", None, 9, None),
    ];
    let f = facts(aps.len());
    sort_access_points(&mut aps, &by("wps", true), &no_watch(), &f);
    assert_eq!(bssids(&aps), vec!["c", "a", "b"]);
}

#[test]
fn access_points_unknown_column_sorts_by_last_seen() {
    let mut aps = vec![named_ap("x", None, 30, None), named_ap("y", None, 10, None)];
    let f = facts(aps.len());
    sort_access_points(&mut aps, &by("no_such_column", false), &no_watch(), &f);
    assert_eq!(bssids(&aps), vec!["y", "x"]);
}

#[test]
fn access_points_location_columns_use_facts() {
    let mut aps = vec![named_ap("x", None, 1, None), named_ap("y", None, 1, None)];
    let mut f = facts(2);
    f[0].first_fix_at = Some(500);
    f[1].first_fix_at = Some(100);
    sort_access_points(&mut aps, &by("first_location", false), &no_watch(), &f);
    assert_eq!(bssids(&aps), vec!["y", "x"]);
}

#[test]
fn clients_sort_by_joined_probes() {
    let mut a = client();
    a.mac = "a".to_string();
    a.probes = vec!["b".to_string()];
    let mut b = client();
    b.mac = "b".to_string();
    b.probes = vec!["a".to_string(), "z".to_string()];
    let mut clients = vec![a, b];
    let f = facts(2);
    sort_clients(&mut clients, &[], &by("probes", false), &no_watch(), &f);
    let macs: Vec<&str> = clients.iter().map(|c| c.mac.as_str()).collect();
    assert_eq!(macs, vec!["b", "a"]);
}

#[test]
fn clients_sort_by_retry_rate_text() {
    let mut a = client();
    a.mac = "a".to_string();
    let mut b = client();
    b.mac = "b".to_string();
    let mut clients = vec![a, b];
    let mut f = facts(2);
    f[0].retry_rate = "9.0%".to_string();
    f[1].retry_rate = "10.0%".to_string();
    sort_clients(&mut clients, &[], &by("retry_rate", false), &no_watch(), &f);
    let macs: Vec<&str> = clients.iter().map(|c| c.mac.as_str()).collect();
    assert_eq!(macs, vec!["b", "a"]);
}

#[test]
fn bluetooth_sorts_by_display_name() {
    let mut a = device();
    a.mac = "1".to_string();
    a.alias = Some("zeta".to_string());
    let mut b = device();
    b.mac = "2".to_string();
    b.advertised_name = Some("Beacon".to_string());
    let mut devices = vec![a, b];
    sort_bluetooth_devices(&mut devices, &by("name", false), &no_watch());
    let macs: Vec<&str> = devices.iter().map(|d| d.mac.as_str()).collect();
    assert_eq!(macs, vec!["2", "1"]);
    sort_bluetooth_devices(&mut devices, &by("name", true), &no_watch());
    let macs: Vec<&str> = devices.iter().map(|d| d.mac.as_str()).collect();
    assert_eq!(macs, vec!["1", "2"]);
}
