use easywifi::cells::LocationCells;
use easywifi::channels::SpectrumBand;
use easywifi::list_signature::{ap_list_signature, bluetooth_list_signature, client_list_signature};
use easywifi::records::{
    AccessPointRecord, BluetoothDeviceRecord, ClientEndpointRecord, ClientNetworkIntel,
    ClientRecord, GeoObservation, PacketTypeBreakdown, WpsInfo,
};
use easywifi::settings::WatchlistSettings;
use easywifi::sort_keys::SortFacts;
use easywifi::table::{TableColumnLayout, TableLayout, TableSortState};

fn mix(m: u64, c: u64, d: u64, o: u64) -> PacketTypeBreakdown {
    PacketTypeBreakdown { management: m, control: c, data: d, other: o }
}

fn obs(rssi: Option<i32>) -> GeoObservation {
    GeoObservation { timestamp_ms: 0, latitude_bits: 0, longitude_bits: 0, altitude_bits: None, rssi_dbm: rssi }
}

fn ap() -> AccessPointRecord {
    AccessPointRecord {
        bssid: "AA:BB:CC:00:11:22".to_string(),
        ssid: None,
        oui_manufacturer: Some("Acme".to_string()),
        country_code_80211d: None,
        channel: Some(6),
        frequency_mhz: Some(2437),
        band: SpectrumBand::Ghz2_4,
        encryption_short: "WPA2".to_string(),
        encryption_full: "WPA2 - AKM PSK - Cipher CCMP".to_string(),
        uptime_beacons: Some(3661),
        rssi_dbm: Some(-40),
        first_seen: 3_600_000,
        last_seen: 7_322_000,
        handshake_count: 2,
        packet_mix: mix(1, 2, 3, 4),
        observations: vec![obs(Some(-50)), obs(Some(-60))],
        number_of_clients: 3,
        notes: None,
        wps: None,
        source_adapters: vec![],
    }
}

fn intel() -> ClientNetworkIntel {
    ClientNetworkIntel {
        local_ipv4_addresses: vec!["10.0.0.2".to_string(), "10.0.0.3".to_string()],
        local_ipv6_addresses: vec![],
        dhcp_hostnames: vec![],
        dhcp_fqdns: vec![],
        dhcp_vendor_classes: vec![],
        dns_names: vec![],
        remote_endpoints: (0..6)
            .map(|i| ClientEndpointRecord {
                ip_address: format!("1.1.1.{i}"),
                protocol: "UDP".to_string(),
                port: if i == 0 { Some(53) } else { None },
                domain: None,
                geo_city: None,
                first_seen: 0,
                last_seen: 0,
                packet_count: 1,
            })
            .collect(),
        uplink_bytes: 5,
        downlink_bytes: 6,
        packet_mix: mix(0, 0, 0, 0),
        retry_frame_count: 7,
        power_save_observed: true,
        qos_priorities: vec![],
        eapol_frame_count: 1,
        pmkid_count: 0,
        last_frame_type: None,
        last_frame_subtype: None,
        last_channel: Some(11),
        last_frequency_mhz: None,
        band: SpectrumBand::Ghz5,
        last_reason_code: None,
        last_status_code: None,
        listen_interval: None,
    }
}

fn client() -> ClientRecord {
    ClientRecord {
        mac: "11:22:33:44:55:66".to_string(),
        oui_manufacturer: None,
        associated_ap: Some("aa:bb:cc:00:11:22".to_string()),
        data_transferred_bytes: 1234,
        rssi_dbm: None,
        probes: vec!["Home".to_string(), "Cafe".to_string()],
        first_seen: 0,
        last_seen: 59_000,
        seen_access_points: vec!["X".to_string(), "Y".to_string()],
        handshake_networks: vec![],
        network_intel: intel(),
        observations: vec![],
        wps: Some(WpsInfo {
            version: None,
            state: None,
            config_methods: None,
            manufacturer: None,
            model_name: None,
            model_number: None,
            serial_number: None,
        }),
        source_adapters: vec![],
    }
}

fn device() -> BluetoothDeviceRecord {
    BluetoothDeviceRecord {
        mac: "C0:FF:EE:00:00:01".to_string(),
        address_type: Some("random".to_string()),
        transport: "le".to_string(),
        oui_manufacturer: None,
        advertised_name: None,
        alias: Some("Tag".to_string()),
        device_type: None,
        class_of_device: None,
        rssi_dbm: Some(-70),
        first_seen: 0,
        last_seen: 0,
        mfgr_ids: vec!["0x004C".to_string(), "0x0006".to_string()],
        mfgr_names: vec![],
        uuids: vec!["180F".to_string()],
        uuid_names: vec!["Battery".to_string()],
        active_enumeration: None,
        observations: vec![],
        source_adapters: vec![],
    }
}

fn loc() -> LocationCells {
    LocationCells { first: String::new(), last: String::new(), strongest: String::new() }
}

fn facts() -> SortFacts {
    SortFacts { first_fix_at: None, last_fix_at: None, strongest_rssi: None, retry_rate: "n/a".to_string() }
}

fn layout(cols: &[(&str, bool)]) -> TableLayout {
    TableLayout {
        columns: cols.iter().map(|(id, v)| TableColumnLayout { id: id.to_string(), visible: *v, width_chars: 10 }).collect(),
    }
}

fn no_watch() -> WatchlistSettings {
    WatchlistSettings { entries: vec![], networks: vec![], devices: vec![] }
}

fn by(column: &str, descending: bool) -> TableSortState {
    TableSortState { column_id: column.to_string(), descending }
}

fn two_aps() -> Vec<AccessPointRecord> {
    let mut a = ap();
    a.bssid = "02".to_string();
    a.ssid = Some("Beta".to_string());
    a.handshake_count = 1;
    let mut b = ap();
    b.bssid = "01".to_string();
    b.ssid = Some("Alpha".to_string());
    b.handshake_count = 0;
    vec![a, b]
}

#[test]
fn access_point_page_signature() {
    let aps = two_aps();
    let sig = ap_list_signature(
        &aps,
        &layout(&[("ssid", true), ("bssid", false), ("channel", true), ("nope", true)]),
        &no_watch(),
        &vec![facts(), facts()],
        &vec![loc(), loc()],
        &by("ssid", false),
        0,
        10,
        &vec![],
    );
    assert_eq!(
        sig,
        "page=0|size=10|total=2|filters=\u{1e}01|false|false|Alpha\u{1f}6\u{1e}02|false|true|Beta\u{1f}6"
    );
}

#[test]
fn access_point_signature_with_filter_and_paging() {
    let aps = two_aps();
    let filters = vec![("ssid".to_string(), "a".to_string())];
    let sig = ap_list_signature(
        &aps,
        &layout(&[("ssid", true)]),
        &no_watch(),
        &vec![facts(), facts()],
        &vec![loc(), loc()],
        &by("ssid", true),
        5,
        1,
        &filters,
    );
    // both SSIDs contain "a"; page 5 is clamped to the last page (1); descending puts Beta first
    assert_eq!(sig, "page=1|size=1|total=2|filters=ssid=a\u{1e}01|false|false|Alpha");
    let filters = vec![("ssid".to_string(), "alp".to_string())];
    let sig = ap_list_signature(
        &aps,
        &layout(&[("ssid", true)]),
        &no_watch(),
        &vec![facts(), facts()],
        &vec![loc(), loc()],
        &by("ssid", true),
        0,
        0,
        &filters,
    );
    assert_eq!(sig, "page=0|size=0|total=1|filters=ssid=alp\u{1e}01|false|false|Alpha");
}

#[test]
fn client_page_signature() {
    let c = client();
    let sig = client_list_signature(
        &vec![c],
        &vec![],
        &layout(&[("mac", true), ("retry_rate", true)]),
        &no_watch(),
        &vec![facts()],
        &vec![loc()],
        &by("mac", false),
        0,
        50,
        &vec![],
    );
    assert_eq!(sig, "page=0|size=50|total=1|filters=\u{1e}11:22:33:44:55:66|false|11:22:33:44:55:66\u{1f}n/a");
}

#[test]
fn bluetooth_empty_table_signature() {
    let sig = bluetooth_list_signature(&vec![], &layout(&[("mac", true)]), &no_watch(), &by("mac", false), 3, 25, &vec![]);
    assert_eq!(sig, "page=0|size=25|total=0|filters=");
    let sig = bluetooth_list_signature(&vec![device()], &layout(&[("mac", true)]), &no_watch(), &by("mac", false), 0, 25, &vec![]);
    assert_eq!(sig, "page=0|size=25|total=1|filters=\u{1e}C0:FF:EE:00:00:01|false|C0:FF:EE:00:00:01");
}
