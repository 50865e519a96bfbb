use easywifi::channels::SpectrumBand;
use easywifi::list_signature::assoc_clients_signature;
use easywifi::records::{
    AccessPointRecord, ClientEndpointRecord, ClientNetworkIntel, ClientRecord, GeoObservation,
    PacketTypeBreakdown, WpsInfo,
};
use easywifi::settings::WatchlistSettings;
use easywifi::sort_keys::{sort_assoc_clients, SortFacts};
use easywifi::table::{TableColumnLayout, TableLayout, TableSortState};

fn mix(m: u64, c: u64, d: u64, o: u64) -> PacketTypeBreakdown {
    PacketTypeBreakdown { management: m, control: c, data: d, other: o }
}

fn obs(rssi: Option<i32>) -> GeoObservation {
    GeoObservation { timestamp_ms: 0, latitude_bits: 0, longitude_bits: 0, altitude_bits: None, rssi_dbm: rssi }
}

fn ap() -> AccessPointRecord {
    AccessPointRecord {
        bssid: "AA:BB:CC:00:11:22".to_string(),
        ssid: None,
        oui_manufacturer: Some("Acme".to_string()),
        country_code_80211d: None,
        channel: Some(6),
        frequency_mhz: Some(2437),
        band: SpectrumBand::Ghz2_4,
        encryption_short: "WPA2".to_string(),
        encryption_full: "WPA2 - AKM PSK - Cipher CCMP".to_string(),
        uptime_beacons: Some(3661),
        rssi_dbm: Some(-40),
        first_seen: 3_600_000,
        last_seen: 7_322_000,
        handshake_count: 2,
        packet_mix: mix(1, 2, 3, 4),
        observations: vec![obs(Some(-50)), obs(Some(-60))],
        number_of_clients: 3,
        notes: None,
        wps: None,
        source_adapters: vec![],
    }
}

fn intel() -> ClientNetworkIntel {
    ClientNetworkIntel {
        local_ipv4_addresses: vec!["10.0.0.2".to_string(), "10.0.0.3".to_string()],
        local_ipv6_addresses: vec![],
        dhcp_hostnames: vec![],
        dhcp_fqdns: vec![],
        dhcp_vendor_classes: vec![],
        dns_names: vec![],
        remote_endpoints: (0..6)
            .map(|i| ClientEndpointRecord {
                ip_address: format!("1.1.1.{i}"),
                protocol: "UDP".to_string(),
                port: if i == 0 { Some(53) } else { None },
                domain: None,
                geo_city: None,
                first_seen: 0,
                last_seen: 0,
                packet_count: 1,
            })
            .collect(),
        uplink_bytes: 5,
        downlink_bytes: 6,
        packet_mix: mix(0, 0, 0, 0),
        retry_frame_count: 7,
        power_save_observed: true,
        qos_priorities: vec![],
        eapol_frame_count: 1,
        pmkid_count: 0,
        last_frame_type: None,
        last_frame_subtype: None,
        last_channel: Some(11),
        last_frequency_mhz: None,
        band: SpectrumBand::Ghz5,
        last_reason_code: None,
        last_status_code: None,
        listen_interval: None,
    }
}

fn client() -> ClientRecord {
    ClientRecord {
        mac: "11:22:33:44:55:66".to_string(),
        oui_manufacturer: None,
        associated_ap: Some("aa:bb:cc:00:11:22".to_string()),
        data_transferred_bytes: 1234,
        rssi_dbm: None,
        probes: vec!["Home".to_string(), "Cafe".to_string()],
        first_seen: 0,
        last_seen: 59_000,
        seen_access_points: vec!["X".to_string(), "Y".to_string()],
        handshake_networks: vec![],
        network_intel: intel(),
        observations: vec![],
        wps: Some(WpsInfo {
            version: None,
            state: None,
            config_methods: None,
            manufacturer: None,
            model_name: None,
            model_number: None,
            serial_number: None,
        }),
        source_adapters: vec![],
    }
}

fn facts(n: usize) -> Vec<SortFacts> {
    (0..n).map(|_| SortFacts { first_fix_at: None, last_fix_at: None, strongest_rssi: None, retry_rate: String::new() }).collect()
}

fn no_watch() -> WatchlistSettings {
    WatchlistSettings { entries: vec![], networks: vec![], devices: vec![] }
}

fn by(column: &str, descending: bool) -> TableSortState {
    TableSortState { column_id: column.to_string(), descending }
}

fn seen(mac: &str, assoc: Option<&str>, last_seen: i64, bytes: u64) -> ClientRecord {
    let mut c = client();
    c.mac = mac.to_string();
    c.associated_ap = assoc.map(|a| a.to_string());
    c.last_seen = last_seen;
    c.data_transferred_bytes = bytes;
    c
}

fn macs(cs: &[ClientRecord]) -> Vec<&str> {
    cs.iter().map(|c| c.mac.as_str()).collect()
}

const AP: &str = "AA:BB:CC:00:11:22";

fn three() -> Vec<ClientRecord> {
    vec![
        seen("03", Some(AP), 10, 100),
        seen("01", Some("other"), 30, 5),
        seen("02", None, 20, 7),
    ]
}

#[test]
fn assoc_sorts_current_clients_by_status() {
    let mut cs = three();
    sort_assoc_clients(&mut cs, AP, &[], &by("status", true), &no_watch(), &facts(3));
    // current first when descending, then the most recently seen
    assert_eq!(macs(&cs), vec!["03", "01", "02"]);
    sort_assoc_clients(&mut cs, AP, &[], &by("status", false), &no_watch(), &facts(3));
    assert_eq!(macs(&cs), vec!["01", "02", "03"]);
}

#[test]
fn assoc_other_columns_follow_the_client_order() {
    let mut cs = three();
    sort_assoc_clients(&mut cs, AP, &[], &by("mac", false), &no_watch(), &facts(3));
    assert_eq!(macs(&cs), vec!["01", "02", "03"]);
    let mut cs = three();
    sort_assoc_clients(&mut cs, AP, &[], &by("mac", true), &no_watch(), &facts(3));
    // descending reads the client table's descending order backwards
    assert_eq!(macs(&cs), vec!["01", "02", "03"]);
    let mut cs = three();
    sort_assoc_clients(&mut cs, AP, &[], &by("data_transferred", true), &no_watch(), &facts(3));
    assert_eq!(macs(&cs), vec!["01", "02", "03"]);
    let mut cs = three();
    sort_assoc_clients(&mut cs, AP, &[], &by("data_transferred", false), &no_watch(), &facts(3));
    assert_eq!(macs(&cs), vec!["01", "02", "03"]);
}

#[test]
fn assoc_signature_sums_and_pages() {
    let cs = three();
    let layout = TableLayout {
        columns: vec![
            TableColumnLayout { id: "status".to_string(), visible: true, width_chars: 8 },
            TableColumnLayout { id: "mac".to_string(), visible: false, width_chars: 8 },
        ],
    };
    let sig = assoc_clients_signature(&cs, AP, &vec![], &layout, &by("status", true), 0, 2, &vec![], &no_watch(), &facts(3));
    // 3 rows, newest 30, 112 bytes + 6 probes, 1 current; page 0 holds two rows
    assert_eq!(
        sig,
        "3|30|118|1|03:current:Current\u{1e}01:historical:Historical|page=0|size=2|search="
    );
    let filters = vec![("status".to_string(), "hist".to_string())];
    let sig = assoc_clients_signature(&cs, AP, &vec![], &layout, &by("status", true), 9, 2, &filters, &no_watch(), &facts(3));
    assert_eq!(sig, "2|30|16|0|01:historical:Historical\u{1e}02:historical:Historical|page=0|size=2|search=status=hist");
}
