use easywifi::channels::SpectrumBand;
use easywifi::geiger::{
    active_wifi_interface_name, plan_wifi_geiger_for_ap, plan_wifi_geiger_for_client,
    wifi_geiger_target_for_ap, wifi_geiger_target_for_client, GeigerPlan,
};
use easywifi::pagination::table_row_width_px_for_layout;
use easywifi::records::{
    AccessPointRecord, ClientEndpointRecord, ClientNetworkIntel, ClientRecord, GeoObservation,
    PacketTypeBreakdown, WpsInfo,
};
use easywifi::scan_control::{clear_runtime_interface_state, format_wifi_start_failure_text};
use easywifi::settings::{ChannelSelectionMode, InterfaceSettings};
use easywifi::table::{TableColumnLayout, TableLayout};

fn mix(m: u64, c: u64, d: u64, o: u64) -> PacketTypeBreakdown {
    PacketTypeBreakdown { management: m, control: c, data: d, other: o }
}

fn obs(rssi: Option<i32>) -> GeoObservation {
    GeoObservation { timestamp_ms: 0, latitude_bits: 0, longitude_bits: 0, altitude_bits: None, rssi_dbm: rssi }
}

fn ap() -> AccessPointRecord {
    AccessPointRecord {
        bssid: "AA:BB:CC:00:11:22".to_string(),
        ssid: None,
        oui_manufacturer: Some("Acme".to_string()),
        country_code_80211d: None,
        channel: Some(6),
        frequency_mhz: Some(2437),
        band: SpectrumBand::Ghz2_4,
        encryption_short: "WPA2".to_string(),
        encryption_full: "WPA2 - AKM PSK - Cipher CCMP".to_string(),
        uptime_beacons: Some(3661),
        rssi_dbm: Some(-40),
        first_seen: 3_600_000,
        last_seen: 7_322_000,
        handshake_count: 2,
        packet_mix: mix(1, 2, 3, 4),
        observations: vec![obs(Some(-50)), obs(Some(-60))],
        number_of_clients: 3,
        notes: None,
        wps: None,
        source_adapters: vec![],
    }
}

fn intel() -> ClientNetworkIntel {
    ClientNetworkIntel {
        local_ipv4_addresses: vec!["10.0.0.2".to_string(), "10.0.0.3".to_string()],
        local_ipv6_addresses: vec![],
        dhcp_hostnames: vec![],
        dhcp_fqdns: vec![],
        dhcp_vendor_classes: vec![],
        dns_names: vec![],
        remote_endpoints: (0..6)
            .map(|i| ClientEndpointRecord {
                ip_address: format!("1.1.1.{i}"),
                protocol: "UDP".to_string(),
                port: if i == 0 { Some(53) } else { None },
                domain: None,
                geo_city: None,
                first_seen: 0,
                last_seen: 0,
                packet_count: 1,
            })
            .collect(),
        uplink_bytes: 5,
        downlink_bytes: 6,
        packet_mix: mix(0, 0, 0, 0),
        retry_frame_count: 7,
        power_save_observed: true,
        qos_priorities: vec![],
        eapol_frame_count: 1,
        pmkid_count: 0,
        last_frame_type: None,
        last_frame_subtype: None,
        last_channel: Some(11),
        last_frequency_mhz: None,
        band: SpectrumBand::Ghz5,
        last_reason_code: None,
        last_status_code: None,
        listen_interval: None,
    }
}

fn client() -> ClientRecord {
    ClientRecord {
        mac: "11:22:33:44:55:66".to_string(),
        oui_manufacturer: None,
        associated_ap: Some("aa:bb:cc:00:11:22".to_string()),
        data_transferred_bytes: 1234,
        rssi_dbm: None,
        probes: vec!["Home".to_string(), "Cafe".to_string()],
        first_seen: 0,
        last_seen: 59_000,
        seen_access_points: vec!["X".to_string(), "Y".to_string()],
        handshake_networks: vec![],
        network_intel: intel(),
        observations: vec![],
        wps: Some(WpsInfo {
            version: None,
            state: None,
            config_methods: None,
            manufacturer: None,
            model_name: None,
            model_number: None,
            serial_number: None,
        }),
        source_adapters: vec![],
    }
}

fn iface(name: &str, monitor: Option<&str>, enabled: bool) -> InterfaceSettings {
    InterfaceSettings {
        interface_name: name.to_string(),
        monitor_interface_name: monitor.map(|m| m.to_string()),
        channel_mode: ChannelSelectionMode::Locked { channel: 6, ht_mode: "HT20".to_string() },
        enabled,
    }
}

#[test]
fn geiger_target_for_access_point() {
    let t = wifi_geiger_target_for_ap(&ap()).expect("has a channel");
    assert_eq!(t.track_id, "AA:BB:CC:00:11:22");
    assert_eq!(t.display_name, "<hidden> (AA:BB:CC:00:11:22)");
    assert_eq!(t.channel, 6);
    let mut a = ap();
    a.channel = None;
    assert!(wifi_geiger_target_for_ap(&a).is_none());
}

#[test]
fn geiger_target_for_client_needs_exact_known_ap() {
    let mut c = client();
    c.associated_ap = Some("AA:BB:CC:00:11:22".to_string());
    let mut a = ap();
    a.ssid = Some("Cafe".to_string());
    let t = wifi_geiger_target_for_client(&vec![a.clone()], &c).expect("associated");
    assert_eq!(t.track_id, "11:22:33:44:55:66");
    assert_eq!(t.display_name, "11:22:33:44:55:66 via Cafe");
    assert_eq!(t.channel, 6);
    // the BSSID must match exactly
    c.associated_ap = Some("aa:bb:cc:00:11:22".to_string());
    assert!(wifi_geiger_target_for_client(&vec![a], &c).is_none());
}

#[test]
fn geiger_plans() {
    let ifaces = vec![iface("wlan0", None, false), iface("wlan1", Some("wlan1mon"), true)];
    assert_eq!(active_wifi_interface_name(&ifaces).as_deref(), Some("wlan1mon"));
    match plan_wifi_geiger_for_ap(&ap(), &ifaces) {
        GeigerPlan::Track { interface, message, .. } => {
            assert_eq!(interface, "wlan1mon");
            assert_eq!(message, "wifi geiger tracking <hidden> (AA:BB:CC:00:11:22) on wlan1mon channel 6");
        }
        GeigerPlan::Refused(m) => panic!("refused: {m}"),
    }
    match plan_wifi_geiger_for_ap(&ap(), &vec![iface("wlan0", None, false)]) {
        GeigerPlan::Refused(m) => assert_eq!(m, "no active Wi-Fi interface available for RSSI geiger tracking"),
        GeigerPlan::Track { .. } => panic!("no interface is enabled"),
    }
    let mut c = client();
    c.associated_ap = None;
    match plan_wifi_geiger_for_client(&c, &vec![ap()], &ifaces) {
        GeigerPlan::Refused(m) => assert_eq!(
            m,
            "selected client has no associated AP with a known channel for RSSI geiger tracking"
        ),
        GeigerPlan::Track { .. } => panic!("not associated"),
    }
}

#[test]
fn row_width_counts_visible_columns() {
    let layout = TableLayout {
        columns: vec![
            TableColumnLayout { id: "a".to_string(), visible: true, width_chars: 20 },
            TableColumnLayout { id: "b".to_string(), visible: false, width_chars: 50 },
            TableColumnLayout { id: "c".to_string(), visible: true, width_chars: 2 },
        ],
    };
    // 200 + 60 + one gap of 14 + 24
    assert_eq!(table_row_width_px_for_layout(&layout), 298);
    assert_eq!(table_row_width_px_for_layout(&TableLayout { columns: vec![] }), 24);
}

#[test]
fn cleared_interfaces_lose_monitor_names() {
    let cleared = clear_runtime_interface_state(&vec![iface("wlan0", Some("wlan0mon"), true)]);
    assert_eq!(cleared.len(), 1);
    assert_eq!(cleared[0].interface_name, "wlan0");
    assert!(cleared[0].monitor_interface_name.is_none());
    assert!(cleared[0].enabled);
}

#[test]
fn start_failure_texts() {
    let root = format_wifi_start_failure_text("wlan0", "iw failed", "/usr/lib/easywifi/helper", true);
    assert!(root.starts_with("EasyWiFi could not prepare wlan0 for Wi-Fi capture.\n\niw failed\n\nWi-Fi capture was not started.\n\nEasyWiFi is already running as root"));
    let user = format_wifi_start_failure_text("wlan0", "iw failed", "/h", false);
    assert!(user.ends_with("2. passwordless `sudo -n` for `/h`\n3. helper capabilities:\n   sudo setcap cap_net_admin,cap_net_raw=eip /h"));
}
