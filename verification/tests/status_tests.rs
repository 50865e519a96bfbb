use easywifi::channels::SpectrumBand;
use easywifi::records::{AccessPointRecord, BluetoothDeviceRecord, PacketTypeBreakdown};
use easywifi::settings::{
    default_channel_mode, AppSettings, InterfaceSettings, WatchlistSettings,
};
use easywifi::status::{
    bluetooth_adapter_activity_summary, interface_runtime_status_text, status_header_line,
    status_text, wifi_adapter_activity_summary, wifi_lock_status_text,
};
use easywifi::watchdog::{InterfaceHealthState, RadioWatch};

fn ap(bssid: &str, sources: &[&str]) -> AccessPointRecord {
    AccessPointRecord {
        bssid: bssid.to_string(),
        ssid: None,
        oui_manufacturer: None,
        country_code_80211d: None,
        channel: None,
        frequency_mhz: None,
        band: SpectrumBand::Unknown,
        encryption_short: String::new(),
        encryption_full: String::new(),
        uptime_beacons: None,
        rssi_dbm: None,
        first_seen: 0,
        last_seen: 0,
        handshake_count: 0,
        packet_mix: PacketTypeBreakdown { management: 0, control: 0, data: 0, other: 0 },
        observations: vec![],
        number_of_clients: 0,
        notes: None,
        wps: None,
        source_adapters: sources.iter().map(|s| s.to_string()).collect(),
    }
}

fn device(mac: &str, sources: &[&str]) -> BluetoothDeviceRecord {
    BluetoothDeviceRecord {
        mac: mac.to_string(),
        address_type: None,
        transport: "le".to_string(),
        oui_manufacturer: None,
        advertised_name: None,
        alias: None,
        device_type: None,
        class_of_device: None,
        rssi_dbm: None,
        first_seen: 0,
        last_seen: 0,
        mfgr_ids: vec![],
        mfgr_names: vec![],
        uuids: vec![],
        uuid_names: vec![],
        active_enumeration: None,
        observations: vec![],
        source_adapters: sources.iter().map(|s| s.to_string()).collect(),
    }
}

fn watch(detail: &str, last: Option<u64>, restarts: u32) -> RadioWatch {
    RadioWatch {
        health: InterfaceHealthState::Active,
        detail: detail.to_string(),
        last_data_at: last,
        restart_count: restarts,
        consecutive_restarts: 0,
        block_until: None,
    }
}

#[test]
fn headline_follows_scan_state() {
    assert_eq!(status_header_line(true, true, true, true), "starting scans...");
    assert_eq!(status_header_line(false, true, true, true), "stopping scans...");
    assert_eq!(status_header_line(false, false, true, true), "scanning active (Wi-Fi + Bluetooth)");
    assert_eq!(status_header_line(false, false, true, false), "scanning active (Wi-Fi only)");
    assert_eq!(status_header_line(false, false, false, true), "scanning active (Bluetooth only)");
    assert_eq!(status_header_line(false, false, false, false), "scanning idle (click Start)");
}

#[test]
fn status_text_joins_lines() {
    assert_eq!(status_text("head", &vec![]), "head");
    assert_eq!(status_text("head", &vec!["a".to_string(), "b".to_string()]), "head\na\nb");
}

#[test]
fn lock_status() {
    assert_eq!(wifi_lock_status_text(&Some("AA:BB".to_string()), true), "Locked to AP: AA:BB");
    assert_eq!(wifi_lock_status_text(&Some("AA:BB".to_string()), false), "Unlocked");
    assert_eq!(wifi_lock_status_text(&None, true), "Unlocked");
}

#[test]
fn adapter_summaries_count_per_adapter_in_name_order() {
    assert_eq!(wifi_adapter_activity_summary(&vec![], &vec![]), "Wi-Fi adapters: no AP/client data yet");
    let aps = vec![ap("1", &["wlan1"]), ap("2", &["wlan0", "wlan1"]), ap("3", &[])];
    assert_eq!(
        wifi_adapter_activity_summary(&aps, &vec![]),
        "Wi-Fi adapters: unknown aps=1 clients=0 | wlan0 aps=1 clients=0 | wlan1 aps=2 clients=0"
    );
    assert_eq!(bluetooth_adapter_activity_summary(&vec![]), "Bluetooth adapters: no device data yet");
    let devices = vec![device("a", &["hci0"]), device("b", &["hci0"])];
    assert_eq!(bluetooth_adapter_activity_summary(&devices), "Bluetooth adapters: hci0 devices=2");
}

#[test]
fn runtime_status_lists_both_radios() {
    let mut iface = InterfaceSettings {
        interface_name: "wlan0".to_string(),
        monitor_interface_name: None,
        channel_mode: default_channel_mode(),
        enabled: true,
    };
    iface.monitor_interface_name = Some("wlan0mon".to_string());
    let settings = AppSettings {
        interfaces: vec![iface],
        bluetooth_enabled: false,
        bluetooth_controller: None,
        wifi_export_enabled: false,
        wifi_export_dir: String::new(),
        bluetooth_export_enabled: false,
        bluetooth_export_dir: String::new(),
        watchlists: WatchlistSettings { entries: vec![], networks: vec![], devices: vec![] },
    };
    let text = interface_runtime_status_text(
        &settings,
        &watch("frames", Some(90), 2),
        &watch("", None, 0),
        100,
        "WSUM",
        "BSUM",
    );
    assert_eq!(
        text,
        "Wi-Fi wlan0mon | Active | frames | last data: 10s ago | restarts: 2\nWSUM\nBluetooth: disabled\nBSUM"
    );
}
