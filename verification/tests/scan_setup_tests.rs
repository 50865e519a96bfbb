use easywifi::scan_setup::{
    apply_scan_setup, scan_setup_view, setup_channel_mode, setup_interface, ScanSetupRequest,
};
use easywifi::settings::{
    default_channel_mode, AppSettings, ChannelModes, ChannelSelectionMode, InterfaceSettings,
    WatchlistSettings,
};

fn strings(v: &[&str]) -> Vec<String> {
    v.iter().map(|s| s.to_string()).collect()
}

fn settings(ifaces: Vec<InterfaceSettings>) -> AppSettings {
    AppSettings {
        interfaces: ifaces,
        bluetooth_enabled: true,
        bluetooth_controller: Some("hci0".to_string()),
        wifi_export_enabled: false,
        wifi_export_dir: "exports/wifi".to_string(),
        bluetooth_export_enabled: false,
        bluetooth_export_dir: "exports/bluetooth".to_string(),
        watchlists: WatchlistSettings { entries: vec![], networks: vec![], devices: vec![] },
    }
}

fn iface(name: &str, enabled: bool, mode: ChannelSelectionMode) -> InterfaceSettings {
    InterfaceSettings {
        interface_name: name.to_string(),
        monitor_interface_name: None,
        channel_mode: mode,
        enabled,
    }
}

fn request(mode: &str) -> ScanSetupRequest {
    ScanSetupRequest {
        wifi_enabled: true,
        bluetooth_enabled: false,
        selected_interface: None,
        mode: mode.to_string(),
        locked_channel: None,
        locked_ht_mode: None,
        hop_channels: None,
        hop_dwell_ms: None,
        hop_ht_mode: None,
        channel_ht_modes: None,
        wifi_band: None,
        wifi_bandwidths: None,
        wifi_export_enabled: true,
        wifi_export_dir: "  ".to_string(),
        bluetooth_export_enabled: false,
        bluetooth_export_dir: " /data/bt ".to_string(),
        bluetooth_controller: Some("  ".to_string()),
    }
}

#[test]
fn view_of_a_locked_interface() {
    let locked = ChannelSelectionMode::Locked { channel: 36, ht_mode: "HT40+".to_string() };
    let s = settings(vec![iface("wlan0", false, default_channel_mode()), iface("wlan1", true, locked)]);
    let v = scan_setup_view(&s, &strings(&["HT20", "HT40+"]));
    assert!(v.wifi_enabled);
    assert_eq!(v.selected_interface.as_deref(), Some("wlan1"));
    assert_eq!(v.mode, "locked");
    assert_eq!(v.locked_channel, Some(36));
    assert_eq!(v.locked_ht_mode.as_deref(), Some("HT40+"));
    assert_eq!(v.wifi_bandwidths, strings(&["HT40+"]));
    assert_eq!(v.hop_channels, vec![1, 6, 11]);
    assert_eq!(v.wifi_band, "2.4");
    assert_eq!(v.bluetooth_controller.as_deref(), Some("hci0"));
}

#[test]
fn view_of_a_hopping_interface_merges_channel_modes() {
    let hop = ChannelSelectionMode::HopAll {
        channels: vec![36, 40],
        dwell_ms: 150,
        ht_mode: "HT20".to_string(),
        channel_ht_modes: vec![
            ChannelModes { channel: 36, modes: strings(&["HT20", "80MHz"]) },
            ChannelModes { channel: 40, modes: strings(&["ht20", "HT40-"]) },
        ],
    };
    let s = settings(vec![iface("wlan0", true, hop)]);
    let v = scan_setup_view(&s, &strings(&["HT20"]));
    assert_eq!(v.mode, "hop_specific");
    assert_eq!(v.hop_channels, vec![36, 40]);
    assert_eq!(v.hop_dwell_ms, 150);
    assert_eq!(v.wifi_bandwidths, strings(&["HT20", "80MHz", "HT40-"]));
    assert_eq!(v.wifi_band, "5");
}

#[test]
fn view_without_an_enabled_interface_uses_defaults() {
    let s = settings(vec![iface("wlan0", false, default_channel_mode())]);
    let v = scan_setup_view(&s, &vec![]);
    assert!(!v.wifi_enabled);
    assert_eq!(v.selected_interface, None);
    assert_eq!(v.mode, "hop_specific");
    assert_eq!(v.hop_channels, vec![1, 6, 11]);
    assert_eq!(v.hop_dwell_ms, 200);
    assert_eq!(v.wifi_band, "all");
    assert_eq!(v.wifi_bandwidths, strings(&["HT20"]));
}

#[test]
fn chosen_interface_for_a_form() {
    let s = settings(vec![iface("wlan3", true, default_channel_mode())]);
    assert_eq!(setup_interface(&s, &Some(" wlan1 ".to_string())), "wlan1");
    assert_eq!(setup_interface(&s, &Some("  ".to_string())), "wlan3");
    assert_eq!(setup_interface(&settings(vec![]), &None), "wlan0");
}

#[test]
fn locked_mode_falls_back_to_a_supported_channel_and_mode() {
    let mut req = request(" LOCKED ");
    req.locked_channel = Some(13);
    req.locked_ht_mode = Some("80MHz".to_string());
    let m = setup_channel_mode(&req, &vec![1, 6, 36], &strings(&["80MHz", "HT20"]));
    match m {
        ChannelSelectionMode::Locked { channel, ht_mode } => {
            assert_eq!(channel, 1);
            assert_eq!(ht_mode, "HT20");
        }
        _ => panic!("expected a locked mode"),
    }
}

#[test]
fn hop_mode_filters_channels_by_band_and_support() {
    let mut req = request("hop_specific");
    req.hop_channels = Some(vec![0, 1, 6, 36, 200]);
    req.wifi_band = Some("2.4".to_string());
    req.hop_dwell_ms = Some(10);
    req.wifi_bandwidths = Some(strings(&[" HT40+ ", "", "VHT"]));
    let m = setup_channel_mode(&req, &vec![1, 11], &strings(&["HT20", "HT40+"]));
    match m {
        ChannelSelectionMode::HopAll { channels, dwell_ms, ht_mode, channel_ht_modes } => {
            assert_eq!(channels, vec![1]);
            assert_eq!(dwell_ms, 25);
            assert_eq!(ht_mode, "HT40+");
            assert_eq!(channel_ht_modes.len(), 1);
            assert_eq!(channel_ht_modes[0].channel, 1);
            assert_eq!(channel_ht_modes[0].modes, strings(&["HT40+"]));
        }
        _ => panic!("expected a hopping mode"),
    }
}

#[test]
fn hop_mode_without_channels_uses_the_defaults() {
    let req = request("hop_specific");
    let m = setup_channel_mode(&req, &vec![], &vec![]);
    match m {
        ChannelSelectionMode::HopAll { channels, dwell_ms, ht_mode, channel_ht_modes } => {
            assert_eq!(channels, vec![1, 6, 11]);
            assert_eq!(dwell_ms, 200);
            assert_eq!(ht_mode, "HT20");
            assert!(channel_ht_modes.is_empty());
        }
        _ => panic!("expected a hopping mode"),
    }
}

#[test]
fn storing_a_form_enables_only_the_chosen_interface() {
    let mut s = settings(vec![iface("wlan0", true, default_channel_mode()), iface("wlan1", false, default_channel_mode())]);
    let req = request("locked");
    let mode = ChannelSelectionMode::Locked { channel: 6, ht_mode: "HT20".to_string() };
    apply_scan_setup(&mut s, &req, &"wlan2".to_string(), mode);
    assert_eq!(s.interfaces.len(), 3);
    assert!(!s.interfaces[0].enabled && !s.interfaces[1].enabled && s.interfaces[2].enabled);
    assert!(matches!(s.interfaces[2].channel_mode, ChannelSelectionMode::Locked { channel: 6, .. }));
    assert!(!s.bluetooth_enabled);
    assert!(s.wifi_export_enabled);
    assert_eq!(s.wifi_export_dir, "exports/wifi");
    assert_eq!(s.bluetooth_export_dir, "/data/bt");
    assert_eq!(s.bluetooth_controller, None);
}
