use easywifi::channels::SpectrumBand;
use easywifi::desktop::{
    apply_desktop_bluetooth_event, apply_desktop_capture_event, finish_handshake_export,
    AlertSettings, DesktopAction, DesktopTables, PositionFix, UiRefreshHint,
};
use easywifi::records::{
    AccessPointRecord, BluetoothDeviceRecord, ClientNetworkIntel, ClientRecord,
    PacketTypeBreakdown,
};
use easywifi::settings::{WatchlistDeviceType, WatchlistEntry, WatchlistSettings};
use easywifi::watchdog::{InterfaceHealthState, RadioWatch, ScanWatchdog};
use easywifi::web_state::{BluetoothEvent, CaptureEvent, ChannelUsagePoint, HandshakeRecord};

fn watch() -> RadioWatch {
    RadioWatch {
        health: InterfaceHealthState::Idle,
        detail: String::new(),
        last_data_at: None,
        restart_count: 0,
        consecutive_restarts: 2,
        block_until: Some(99),
    }
}

fn tables() -> DesktopTables {
    DesktopTables {
        access_points: vec![],
        clients: vec![],
        bluetooth_devices: vec![],
        channel_usage: vec![],
        enumeration_status: vec![],
        watchdog: ScanWatchdog { wifi: watch(), bluetooth: watch(), status_lines: vec![] },
        last_observation_by_device: vec![],
        last_storage_persist_by_device: vec![],
        alerted_watch_entities: vec![],
    }
}

fn mix() -> PacketTypeBreakdown {
    PacketTypeBreakdown { management: 0, control: 0, data: 0, other: 0 }
}

fn ap(bssid: &str, ssid: &str, last_seen: i64) -> AccessPointRecord {
    AccessPointRecord {
        bssid: bssid.to_string(),
        ssid: Some(ssid.to_string()),
        oui_manufacturer: None,
        country_code_80211d: None,
        channel: Some(1),
        frequency_mhz: None,
        band: SpectrumBand::Ghz2_4,
        encryption_short: "WPA2".to_string(),
        encryption_full: "WPA2".to_string(),
        uptime_beacons: None,
        rssi_dbm: Some(-42),
        first_seen: last_seen,
        last_seen,
        handshake_count: 0,
        packet_mix: mix(),
        observations: vec![],
        number_of_clients: 0,
        notes: None,
        wps: None,
        source_adapters: vec![],
    }
}

fn client(mac: &str, associated: &str, last_seen: i64) -> ClientRecord {
    ClientRecord {
        mac: mac.to_string(),
        oui_manufacturer: None,
        associated_ap: Some(associated.to_string()),
        data_transferred_bytes: 0,
        rssi_dbm: None,
        probes: vec![],
        first_seen: last_seen,
        last_seen,
        seen_access_points: vec![],
        handshake_networks: vec![],
        network_intel: ClientNetworkIntel {
            local_ipv4_addresses: vec![],
            local_ipv6_addresses: vec![],
            dhcp_hostnames: vec![],
            dhcp_fqdns: vec![],
            dhcp_vendor_classes: vec![],
            dns_names: vec![],
            remote_endpoints: vec![],
            uplink_bytes: 0,
            downlink_bytes: 0,
            packet_mix: mix(),
            retry_frame_count: 0,
            power_save_observed: false,
            qos_priorities: vec![],
            eapol_frame_count: 0,
            pmkid_count: 0,
            last_frame_type: None,
            last_frame_subtype: None,
            last_channel: None,
            last_frequency_mhz: None,
            band: SpectrumBand::Unknown,
            last_reason_code: None,
            last_status_code: None,
            listen_interval: None,
        },
        observations: vec![],
        wps: None,
        source_adapters: vec![],
    }
}

fn device(mac: &str) -> BluetoothDeviceRecord {
    BluetoothDeviceRecord {
        mac: mac.to_string(),
        address_type: None,
        transport: "le".to_string(),
        oui_manufacturer: Some("Known".to_string()),
        advertised_name: Some("Buds".to_string()),
        alias: None,
        device_type: None,
        class_of_device: None,
        rssi_dbm: Some(-60),
        first_seen: 1_000,
        last_seen: 1_000,
        mfgr_ids: vec![],
        mfgr_names: vec![],
        uuids: vec![],
        uuid_names: vec![],
        active_enumeration: None,
        observations: vec![],
        source_adapters: vec![],
    }
}

fn watchlists() -> WatchlistSettings {
    WatchlistSettings {
        entries: vec![
            WatchlistEntry {
                label: "Home".to_string(),
                device_type: WatchlistDeviceType::Wifi,
                mac: String::new(),
                name: "homenet".to_string(),
                color_hex: String::new(),
            },
            WatchlistEntry {
                label: "Buds".to_string(),
                device_type: WatchlistDeviceType::Bluetooth,
                mac: String::new(),
                name: "buds".to_string(),
                color_hex: String::new(),
            },
        ],
        networks: vec![],
        devices: vec![],
    }
}

fn fix(ts: i64) -> PositionFix {
    PositionFix { timestamp_ms: ts, latitude_bits: 1, longitude_bits: 2, altitude_bits: None }
}

const ALERTS: AlertSettings = AlertSettings { watchlist_alerts: true, handshake_alerts: true };

fn kinds(actions: &[DesktopAction]) -> Vec<String> {
    actions
        .iter()
        .map(|a| match a {
            DesktopAction::AddObservation { device_type, device_id, .. } => format!("obs {device_type} {device_id}"),
            DesktopAction::PersistAccessPoint(b) => format!("ap {b}"),
            DesktopAction::PersistClient(m) => format!("client {m}"),
            DesktopAction::PersistBluetoothDevice(m) => format!("bt {m}"),
            DesktopAction::AddHandshake(h) => format!("handshake {}", h.bssid),
            DesktopAction::IncrementHandshakeCount(b) => format!("count {b}"),
            DesktopAction::AddChannelUsage(u) => format!("usage {}", u.channel),
            DesktopAction::ExportHandshake { ssid, bssid, .. } => format!("export {:?} {bssid}", ssid),
            DesktopAction::AlertTone { frequency_hz, duration_ms } => format!("tone {frequency_hz} {duration_ms}"),
        })
        .collect()
}

#[test]
fn access_point_sighting_records_stores_and_alerts_once() {
    let mut t = tables();
    let w = watchlists();
    let (hint, actions) = apply_desktop_capture_event(
        &mut t,
        ALERTS,
        &w,
        CaptureEvent::AccessPointSeen(ap("AA", "HomeNet", 10_000)),
        Some("Acme".to_string()),
        Some(fix(10_000)),
        50,
    );
    assert_eq!(kinds(&actions), vec!["obs ap AA", "ap AA", "tone 1100 70"]);
    assert_eq!(hint, UiRefreshHint { ap_list: true, client_list: false, bluetooth_list: false, channel_chart: false, status: true });
    assert_eq!(t.access_points.len(), 1);
    assert_eq!(t.access_points[0].oui_manufacturer.as_deref(), Some("Acme"));
    assert_eq!(t.access_points[0].observations.len(), 1);
    assert_eq!(t.access_points[0].observations[0].rssi_dbm, Some(-42));
    assert_eq!(t.watchdog.status_lines, vec!["ALERT Home: AP HomeNet (AA)".to_string()]);
    assert_eq!(t.watchdog.wifi.health, InterfaceHealthState::Active);
    assert_eq!(t.watchdog.wifi.last_data_at, Some(50));
    assert_eq!(t.watchdog.wifi.consecutive_restarts, 0);
    assert_eq!(t.watchdog.wifi.block_until, None);

    let (hint, actions) = apply_desktop_capture_event(
        &mut t,
        ALERTS,
        &w,
        CaptureEvent::AccessPointSeen(ap("AA", "HomeNet", 11_000)),
        None,
        Some(fix(11_000)),
        51,
    );
    assert!(actions.is_empty());
    assert!(!hint.status);
    assert_eq!(t.access_points.len(), 1);
    assert_eq!(t.access_points[0].last_seen, 11_000);
    assert_eq!(t.access_points[0].observations.len(), 1);

    let (_, actions) = apply_desktop_capture_event(
        &mut t,
        ALERTS,
        &w,
        CaptureEvent::AccessPointSeen(ap("AA", "HomeNet", 13_000)),
        None,
        Some(fix(13_000)),
        52,
    );
    assert_eq!(kinds(&actions), vec!["obs ap AA", "ap AA"]);
    assert_eq!(t.access_points[0].observations.len(), 2);
}

#[test]
fn client_sighting_recounts_its_access_point() {
    let mut t = tables();
    let w = WatchlistSettings { entries: vec![], networks: vec![], devices: vec![] };
    apply_desktop_capture_event(&mut t, ALERTS, &w, CaptureEvent::AccessPointSeen(ap("AA", "Net", 0)), None, None, 1);
    let (hint, actions) = apply_desktop_capture_event(
        &mut t,
        ALERTS,
        &w,
        CaptureEvent::ClientSeen(client("CC", "AA", 5_000)),
        None,
        None,
        2,
    );
    assert_eq!(kinds(&actions), vec!["ap AA", "client CC"]);
    assert!(hint.ap_list && hint.client_list && !hint.status);
    assert_eq!(t.access_points[0].number_of_clients, 1);
    assert_eq!(t.clients.len(), 1);
}

#[test]
fn handshake_raises_the_count_and_asks_for_an_export() {
    let mut t = tables();
    let w = WatchlistSettings { entries: vec![], networks: vec![], devices: vec![] };
    apply_desktop_capture_event(&mut t, ALERTS, &w, CaptureEvent::AccessPointSeen(ap("AA", "Net", 0)), None, None, 1);
    let hs = HandshakeRecord { bssid: "AA".to_string(), client_mac: "CC".to_string(), timestamp_ms: 7 };
    let (hint, actions) = apply_desktop_capture_event(&mut t, ALERTS, &w, CaptureEvent::HandshakeSeen(hs), None, None, 3);
    assert!(hint.ap_list && !hint.status);
    assert_eq!(kinds(&actions), vec!["handshake AA", "count AA", "export Some(\"Net\") AA"]);
    assert_eq!(t.access_points[0].handshake_count, 1);

    let (hint, actions) = finish_handshake_export(&mut t, ALERTS, "AA", "CC", Ok("net_AA.pcap".to_string()));
    assert!(hint.status);
    assert_eq!(kinds(&actions), vec!["tone 1400 80"]);
    assert_eq!(
        t.watchdog.status_lines,
        vec!["saved handshake capture: net_AA.pcap".to_string(), "ALERT handshake complete on AA with client CC".to_string()]
    );
    let quiet = AlertSettings { watchlist_alerts: false, handshake_alerts: false };
    let (hint, actions) = finish_handshake_export(&mut t, quiet, "AA", "CC", Err("disk full".to_string()));
    assert!(!hint.status && actions.is_empty());
    assert_eq!(t.watchdog.status_lines.last().map(|s| s.as_str()), Some("handshake capture export failed: disk full"));
}

#[test]
fn channel_usage_and_logs() {
    let mut t = tables();
    let w = WatchlistSettings { entries: vec![], networks: vec![], devices: vec![] };
    for i in 0..805u64 {
        let u = ChannelUsagePoint { timestamp_ms: 0, channel: 6, band: SpectrumBand::Ghz2_4, utilization_percent_bits: 0, packets: i };
        let (hint, actions) = apply_desktop_capture_event(&mut t, ALERTS, &w, CaptureEvent::ChannelUsage(u), None, None, 9);
        assert!(hint.channel_chart);
        assert_eq!(kinds(&actions), vec!["usage 6"]);
    }
    assert_eq!(t.channel_usage.len(), 800);
    assert_eq!(t.channel_usage[0].packets, 5);
    let (hint, actions) = apply_desktop_capture_event(&mut t, ALERTS, &w, CaptureEvent::Log("hello".to_string()), None, None, 9);
    assert!(hint.status && actions.is_empty());
    assert_eq!(t.watchdog.status_lines, vec!["hello".to_string()]);
}

#[test]
fn bluetooth_events() {
    let mut t = tables();
    let w = watchlists();
    let (hint, actions) = apply_desktop_bluetooth_event(
        &mut t,
        ALERTS,
        &w,
        BluetoothEvent::DeviceSeen(device("B1")),
        Some("Ignored".to_string()),
        None,
        4,
    );
    assert!(hint.bluetooth_list && hint.status);
    assert_eq!(kinds(&actions), vec!["bt B1", "tone 1050 70"]);
    assert_eq!(t.bluetooth_devices[0].oui_manufacturer.as_deref(), Some("Known"));
    assert_eq!(t.watchdog.status_lines, vec!["ALERT Buds: bluetooth device B1".to_string()]);
    assert_eq!(t.watchdog.bluetooth.detail, "scanning Bluetooth advertisements");

    apply_desktop_bluetooth_event(
        &mut t,
        ALERTS,
        &w,
        BluetoothEvent::EnumerationStatus { mac: "B1".to_string(), message: "done".to_string(), is_error: false },
        None,
        None,
        5,
    );
    assert_eq!(t.enumeration_status.len(), 1);
    assert_eq!(t.enumeration_status[0].status.message, "done");

    let (hint, _) = apply_desktop_bluetooth_event(
        &mut t,
        ALERTS,
        &w,
        BluetoothEvent::Log("bluetooth scan failed: adapter busy".to_string()),
        None,
        None,
        6,
    );
    assert!(hint.status);
    assert_eq!(t.watchdog.bluetooth.health, InterfaceHealthState::Error);
    assert_eq!(t.watchdog.bluetooth.detail, "bluetooth scan failed: adapter busy");
}
