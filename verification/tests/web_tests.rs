use easywifi::channels::SpectrumBand;
use easywifi::records::{AccessPointRecord, BluetoothDeviceRecord, PacketTypeBreakdown};
use easywifi::settings::{
    default_channel_mode, AppSettings, ChannelSelectionMode, InterfaceSettings,
    WatchlistDeviceType, WatchlistSettings,
};
use easywifi::web_actions::{
    add_watchlist_entry, begin_bluetooth_enumeration, begin_scan_start, delete_watchlist_entry,
    finish_bluetooth_enumeration, finish_wifi_prepare, lock_to_ap, log_no_radios,
    mark_bluetooth_started, mark_wifi_started, prepare_failure_line, record_prepared_interface,
    select_capture_interfaces, select_interface, RequestError, ScanStartPlan,
    WatchlistAddRequest,
};
use easywifi::web_state::{
    apply_bluetooth_event, apply_capture_event, clear_after_stop, export_file_name,
    export_log_line, log_bluetooth_stopped, log_wifi_stopped, new_web_state, push_log,
    restore_status_line, seconds_or_zero, stop_bluetooth_scan, stop_wifi_capture, BluetoothEvent, CaptureEvent,
    ChannelUsagePoint, ExportKind, ExportOutcome, HandshakeRecord, WebState, MAX_LOG_LINES,
};

fn settings(ifaces: Vec<InterfaceSettings>) -> AppSettings {
    AppSettings {
        interfaces: ifaces,
        bluetooth_enabled: false,
        bluetooth_controller: None,
        wifi_export_enabled: false,
        wifi_export_dir: "exports/wifi".to_string(),
        bluetooth_export_enabled: false,
        bluetooth_export_dir: "exports/bluetooth".to_string(),
        watchlists: WatchlistSettings { entries: vec![], networks: vec![], devices: vec![] },
    }
}

fn iface(name: &str, enabled: bool) -> InterfaceSettings {
    InterfaceSettings {
        interface_name: name.to_string(),
        monitor_interface_name: None,
        channel_mode: default_channel_mode(),
        enabled,
    }
}

fn ap(bssid: &str, channel: Option<u16>, last_seen: i64) -> AccessPointRecord {
    AccessPointRecord {
        bssid: bssid.to_string(),
        ssid: None,
        oui_manufacturer: None,
        country_code_80211d: None,
        channel,
        frequency_mhz: None,
        band: SpectrumBand::Unknown,
        encryption_short: "Open".to_string(),
        encryption_full: "Open".to_string(),
        uptime_beacons: None,
        rssi_dbm: None,
        first_seen: last_seen,
        last_seen,
        handshake_count: 0,
        packet_mix: PacketTypeBreakdown { management: 0, control: 0, data: 0, other: 0 },
        observations: vec![],
        number_of_clients: 0,
        notes: None,
        wps: None,
        source_adapters: vec![],
    }
}

fn device(mac: &str) -> BluetoothDeviceRecord {
    BluetoothDeviceRecord {
        mac: mac.to_string(),
        address_type: None,
        transport: "le".to_string(),
        oui_manufacturer: None,
        advertised_name: None,
        alias: None,
        device_type: None,
        class_of_device: None,
        rssi_dbm: None,
        first_seen: 0,
        last_seen: 0,
        mfgr_ids: vec![],
        mfgr_names: vec![],
        uuids: vec![],
        uuid_names: vec![],
        active_enumeration: None,
        observations: vec![],
        source_adapters: vec![],
    }
}

fn state_with(ifaces: Vec<InterfaceSettings>) -> WebState {
    new_web_state(settings(ifaces))
}

fn last_log(s: &WebState) -> &str {
    s.logs.last().map(|l| l.as_str()).unwrap_or("")
}

#[test]
fn new_state_starts_with_one_log_line() {
    let s = state_with(vec![]);
    assert_eq!(s.logs, vec!["web ui initialized".to_string()]);
    assert!(!s.wifi_running && !s.bluetooth_running);
}

#[test]
fn log_keeps_the_latest_lines() {
    let mut s = state_with(vec![]);
    for i in 0..200 {
        push_log(&mut s, format!("line {i}"));
    }
    assert_eq!(s.logs.len(), MAX_LOG_LINES);
    assert_eq!(s.logs[0], "line 80");
    assert_eq!(last_log(&s), "line 199");
}

#[test]
fn capture_events_update_tables() {
    let mut s = state_with(vec![]);
    apply_capture_event(&mut s, CaptureEvent::AccessPointSeen(ap("AA", Some(1), 1)));
    apply_capture_event(&mut s, CaptureEvent::AccessPointSeen(ap("BB", Some(6), 2)));
    apply_capture_event(&mut s, CaptureEvent::AccessPointSeen(ap("AA", Some(11), 3)));
    assert_eq!(s.access_points.len(), 2);
    assert_eq!(s.access_points[0].channel, Some(11));

    let hs = HandshakeRecord { bssid: "BB".to_string(), client_mac: "CC".to_string(), timestamp_ms: 5 };
    apply_capture_event(&mut s, CaptureEvent::HandshakeSeen(hs));
    assert_eq!(s.access_points[1].handshake_count, 1);
    let unknown = HandshakeRecord { bssid: "ZZ".to_string(), client_mac: "CC".to_string(), timestamp_ms: 6 };
    apply_capture_event(&mut s, CaptureEvent::HandshakeSeen(unknown));
    assert_eq!(s.access_points.len(), 2);

    apply_capture_event(&mut s, CaptureEvent::Log("capture says hi".to_string()));
    assert_eq!(last_log(&s), "capture says hi");
}

#[test]
fn channel_usage_keeps_the_latest_800_samples() {
    let mut s = state_with(vec![]);
    for i in 0..850u64 {
        let point = ChannelUsagePoint {
            timestamp_ms: i as i64,
            channel: 6,
            band: SpectrumBand::Ghz2_4,
            utilization_percent_bits: 0,
            packets: i,
        };
        apply_capture_event(&mut s, CaptureEvent::ChannelUsage(point));
    }
    assert_eq!(s.channel_usage.len(), 800);
    assert_eq!(s.channel_usage[0].packets, 50);
    assert_eq!(s.channel_usage[799].packets, 849);
}

#[test]
fn bluetooth_events_record_status_and_log() {
    let mut s = state_with(vec![]);
    apply_bluetooth_event(&mut s, BluetoothEvent::DeviceSeen(device("11:22")));
    apply_bluetooth_event(&mut s, BluetoothEvent::DeviceSeen(device("11:22")));
    assert_eq!(s.bluetooth_devices.len(), 1);
    apply_bluetooth_event(
        &mut s,
        BluetoothEvent::EnumerationStatus {
            mac: "11:22".to_string(),
            message: "timeout".to_string(),
            is_error: true,
        },
    );
    assert_eq!(s.bt_enumeration_status.len(), 1);
    assert!(s.bt_enumeration_status[0].status.is_error);
    assert_eq!(last_log(&s), "bt enum error 11:22: timeout");
    apply_bluetooth_event(
        &mut s,
        BluetoothEvent::EnumerationStatus {
            mac: "11:22".to_string(),
            message: "done".to_string(),
            is_error: false,
        },
    );
    assert_eq!(s.bt_enumeration_status.len(), 1);
    assert_eq!(s.bt_enumeration_status[0].status.message, "done");
    assert_eq!(last_log(&s), "bt enum ok 11:22: done");
}

#[test]
fn request_errors_answer_with_status_and_text() {
    assert_eq!(RequestError::ApNotFound.status_code(), 404);
    assert_eq!(RequestError::ApNotFound.reason(), "Not Found");
    assert_eq!(RequestError::ApNotFound.message(), "ap not found");
    assert_eq!(RequestError::MissingInterface.status_code(), 400);
    assert_eq!(RequestError::MissingInterface.reason(), "Bad Request");
    assert_eq!(RequestError::MissingInterface.message(), "missing interface");
    assert_eq!(RequestError::MissingLabel.message(), "watchlist label is required");
    assert_eq!(RequestError::WatchlistIndexOutOfRange.message(), "watchlist index out of range");
    assert_eq!(RequestError::MissingBssid.message(), "missing bssid");
    assert_eq!(RequestError::NoInterfaceConfigured.message(), "no interface configured");
    assert_eq!(
        RequestError::ConfirmationRequired.message(),
        "active bluetooth enumeration requires explicit confirmation"
    );
    assert_eq!(RequestError::MissingMac.message(), "missing mac");
}

#[test]
fn selecting_an_interface() {
    let mut s = state_with(vec![iface("wlan0", true), iface("wlan1", false)]);
    assert_eq!(select_interface(&mut s, "   "), Err(RequestError::MissingInterface));
    assert_eq!(s.logs.len(), 1);

    assert_eq!(select_interface(&mut s, " wlan1 "), Ok(false));
    assert!(!s.settings.interfaces[0].enabled);
    assert!(s.settings.interfaces[1].enabled);
    assert_eq!(last_log(&s), "selected scan interface set to wlan1");

    assert_eq!(select_interface(&mut s, "wlx00"), Ok(false));
    assert_eq!(s.settings.interfaces.len(), 3);
    assert_eq!(s.settings.interfaces[2].interface_name, "wlx00");
    assert!(s.settings.interfaces[2].enabled);
    assert!(!s.settings.interfaces[1].enabled);
}

#[test]
fn adding_and_removing_watchlist_entries() {
    let mut s = state_with(vec![]);
    let mut req = WatchlistAddRequest {
        label: "  ".to_string(),
        description: None,
        name: None,
        mac_or_bssid: None,
        oui: None,
        device_type: None,
    };
    assert_eq!(add_watchlist_entry(&mut s, &req), Err(RequestError::MissingLabel));

    req.label = " Car ".to_string();
    req.description = Some(" blue ".to_string());
    req.mac_or_bssid = Some(" aa:bb:cc:dd:ee:ff ".to_string());
    req.name = Some(" CarKit ".to_string());
    req.device_type = Some("bluetooth".to_string());
    assert_eq!(add_watchlist_entry(&mut s, &req), Ok(()));
    let e = &s.settings.watchlists.entries[0];
    assert_eq!(e.label, "Car - blue");
    assert_eq!(e.mac, "AA:BB:CC:DD:EE:FF");
    assert_eq!(e.name, "CarKit");
    assert_eq!(e.device_type, WatchlistDeviceType::Bluetooth);
    assert_eq!(e.color_hex, "#f59e0b");
    assert_eq!(last_log(&s), "watchlist entry added");

    req.oui = Some("00:11:22".to_string());
    req.device_type = None;
    add_watchlist_entry(&mut s, &req).unwrap();
    assert_eq!(s.settings.watchlists.entries[1].mac, "00:11:22");
    assert_eq!(s.settings.watchlists.entries[1].device_type, WatchlistDeviceType::Wifi);

    assert_eq!(delete_watchlist_entry(&mut s, 5), Err(RequestError::WatchlistIndexOutOfRange));
    assert_eq!(delete_watchlist_entry(&mut s, 0), Ok(()));
    assert_eq!(s.settings.watchlists.entries.len(), 1);
    assert_eq!(last_log(&s), "watchlist entry removed");
}

#[test]
fn locking_to_an_access_point() {
    let mut s = state_with(vec![]);
    assert_eq!(lock_to_ap(&mut s, " "), Err(RequestError::MissingBssid));
    assert_eq!(lock_to_ap(&mut s, "AA"), Err(RequestError::ApNotFound));
    apply_capture_event(&mut s, CaptureEvent::AccessPointSeen(ap("AA", Some(36), 1)));
    assert_eq!(lock_to_ap(&mut s, "AA"), Err(RequestError::NoInterfaceConfigured));

    let mut s = state_with(vec![iface("wlan0", false), iface("wlan1", true)]);
    apply_capture_event(&mut s, CaptureEvent::AccessPointSeen(ap("AA", Some(36), 1)));
    apply_capture_event(&mut s, CaptureEvent::AccessPointSeen(ap("BB", None, 1)));
    assert_eq!(lock_to_ap(&mut s, "AA"), Ok((36, false)));
    match &s.settings.interfaces[1].channel_mode {
        ChannelSelectionMode::Locked { channel, ht_mode } => {
            assert_eq!(*channel, 36);
            assert_eq!(ht_mode, "HT20");
        }
        _ => panic!("interface not locked"),
    }
    assert_eq!(last_log(&s), "locked selected interface to AP AA channel 36");

    let mut s = state_with(vec![iface("wlan0", false)]);
    apply_capture_event(&mut s, CaptureEvent::AccessPointSeen(ap("BB", None, 1)));
    assert_eq!(lock_to_ap(&mut s, "BB"), Ok((1, false)));
    assert!(s.settings.interfaces[0].enabled);
}

#[test]
fn bluetooth_enumeration_round_trip() {
    let mut s = state_with(vec![]);
    assert_eq!(
        begin_bluetooth_enumeration(&mut s, "aa", None),
        Err(RequestError::ConfirmationRequired)
    );
    assert_eq!(
        begin_bluetooth_enumeration(&mut s, "aa", Some(false)),
        Err(RequestError::ConfirmationRequired)
    );
    assert_eq!(
        begin_bluetooth_enumeration(&mut s, "  ", Some(true)),
        Err(RequestError::MissingMac)
    );
    let mac = begin_bluetooth_enumeration(&mut s, " aa:bb ", Some(true)).unwrap();
    assert_eq!(mac, "AA:BB");
    assert_eq!(s.bt_enumeration_status[0].status.message, "enumeration running");

    finish_bluetooth_enumeration(&mut s, mac.clone(), Err("no route".to_string()));
    assert!(s.bt_enumeration_status[0].status.is_error);
    assert_eq!(last_log(&s), "active bluetooth enumeration failed for AA:BB: no route");

    finish_bluetooth_enumeration(&mut s, mac, Ok(device("AA:BB")));
    assert_eq!(s.bluetooth_devices.len(), 1);
    assert_eq!(s.bt_enumeration_status[0].status.message, "enumeration completed");
    assert_eq!(last_log(&s), "active bluetooth enumeration completed for AA:BB");
}

#[test]
fn scan_start_plans() {
    let mut s = state_with(vec![]);
    apply_capture_event(&mut s, CaptureEvent::AccessPointSeen(ap("AA", None, 1)));
    let plan = begin_scan_start(&mut s, false, false);
    assert_eq!(
        plan,
        ScanStartPlan { stop_wifi: false, stop_bluetooth: false, start_wifi: false, start_bluetooth: false }
    );
    log_no_radios(&mut s);
    assert_eq!(last_log(&s), "No scan radios enabled. Enable Wi-Fi and/or Bluetooth in Scan Setup.");
    assert_eq!(s.access_points.len(), 1);

    let plan = begin_scan_start(&mut s, true, false);
    assert_eq!(
        plan,
        ScanStartPlan { stop_wifi: false, stop_bluetooth: false, start_wifi: true, start_bluetooth: false }
    );
    assert_eq!(s.access_points.len(), 0);
    assert_eq!(last_log(&s), "cleared previous scan state");

    mark_wifi_started(&mut s);
    mark_bluetooth_started(&mut s);
    assert_eq!(last_log(&s), "Bluetooth scanning started");
    apply_capture_event(&mut s, CaptureEvent::AccessPointSeen(ap("AA", None, 1)));
    let plan = begin_scan_start(&mut s, true, false);
    assert_eq!(
        plan,
        ScanStartPlan { stop_wifi: false, stop_bluetooth: true, start_wifi: false, start_bluetooth: false }
    );
    assert_eq!(s.access_points.len(), 1);
}

#[test]
fn capture_interfaces_fall_back_to_a_discovered_one() {
    let mut s = state_with(vec![iface("wlan9", true)]);
    let discovered = vec!["eth0".to_string(), "wlx1234".to_string()];
    let (chosen, changed) = select_capture_interfaces(&mut s, &discovered);
    assert!(changed);
    assert_eq!(chosen.len(), 1);
    assert_eq!(chosen[0].interface_name, "wlx1234");
    assert_eq!(last_log(&s), "selected Wi-Fi interface unavailable; falling back to wlx1234");

    let (chosen, changed) = select_capture_interfaces(&mut s, &discovered);
    assert!(!changed);
    assert_eq!(chosen[0].interface_name, "wlx1234");

    let mut none = state_with(vec![iface("wlan9", true)]);
    let (chosen, changed) = select_capture_interfaces(&mut none, &vec![]);
    assert!(chosen.is_empty() && !changed);
}

#[test]
fn preparing_and_stopping_wifi_restores_interfaces() {
    let mut s = state_with(vec![iface("wlan0", true), iface("wlan1", false)]);
    record_prepared_interface(
        &mut s,
        "wlan0",
        Some("managed".to_string()),
        vec!["wlan0 switched to monitor mode".to_string()],
    );
    record_prepared_interface(&mut s, "wlan1", Some("Monitor".to_string()), vec![]);
    assert_eq!(s.wifi_interface_restore_types.len(), 1);
    assert_eq!(last_log(&s), "wlan0 switched to monitor mode");

    let mut prepared = iface("wlan0", true);
    prepared.monitor_interface_name = Some("wlan0mon".to_string());
    assert!(finish_wifi_prepare(&mut s, &vec![prepared]));
    assert_eq!(s.settings.interfaces[0].monitor_interface_name, Some("wlan0mon".to_string()));
    assert!(!finish_wifi_prepare(&mut s, &vec![]));
    assert_eq!(last_log(&s), "Wi-Fi scanning not started; no interfaces were successfully prepared");

    mark_wifi_started(&mut s);
    let plan = stop_wifi_capture(&mut s);
    assert!(!s.wifi_running);
    assert_eq!(plan.len(), 1);
    assert_eq!(plan[0].interface_name, "wlan0");
    assert_eq!(plan[0].restore_type, "managed");
    assert!(s.wifi_interface_restore_types.is_empty());
    assert_eq!(s.settings.interfaces[0].monitor_interface_name, None);

    let line = restore_status_line("wlan0", "managed", None);
    assert_eq!(line, "wlan0 restored to managed");
    log_wifi_stopped(&mut s, vec![line]);
    assert_eq!(last_log(&s), "Wi-Fi scanning stopped");
    assert_eq!(s.logs[s.logs.len() - 2], "wlan0 restored to managed");

    stop_bluetooth_scan(&mut s);
    log_bluetooth_stopped(&mut s, vec![]);
    assert_eq!(last_log(&s), "Bluetooth scanning stopped");
    clear_after_stop(&mut s);
    assert_eq!(s.logs[s.logs.len() - 2], "Live tables cleared");
    assert_eq!(last_log(&s), "Scanning stopped");
}

#[test]
fn status_and_export_lines() {
    assert_eq!(
        restore_status_line("wlan0", "managed", Some("busy")),
        "failed to restore wlan0 to managed: busy"
    );
    assert_eq!(prepare_failure_line("wlan0", "no perm"), "failed to prepare wlan0 for capture: no perm");
    assert_eq!(export_file_name(ExportKind::Wifi, 1700000000), "easywifi_wifi_export_1700000000.json");
    assert_eq!(export_file_name(ExportKind::Bluetooth, 7), "easywifi_bluetooth_export_7.json");
    assert_eq!(
        export_log_line(ExportKind::Wifi, &ExportOutcome::Saved { path: "/tmp/x.json".to_string() }),
        "wifi export saved to /tmp/x.json"
    );
    assert_eq!(
        export_log_line(ExportKind::Bluetooth, &ExportOutcome::WriteFailed { path: "/tmp/y".to_string() }),
        "bluetooth export failed for /tmp/y"
    );
    assert_eq!(
        export_log_line(
            ExportKind::Wifi,
            &ExportOutcome::DirectoryFailed { dir: "/ro".to_string(), error: "denied".to_string() }
        ),
        "wifi export failed: unable to create /ro: denied"
    );
}

#[test]
fn clock_reading_before_the_epoch_counts_as_zero() {
    assert_eq!(seconds_or_zero(Some(1_700_000_000)), 1_700_000_000);
    assert_eq!(seconds_or_zero(Some(0)), 0);
    assert_eq!(seconds_or_zero(None), 0);
}
