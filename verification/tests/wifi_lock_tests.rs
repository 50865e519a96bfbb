use easywifi::settings::{ChannelSelectionMode, InterfaceSettings};
use easywifi::wifi_lock::{lock_wifi_to_channel, unlock_wifi_card, LockAction, WifiLock};

fn iface(name: &str, monitor: Option<&str>) -> InterfaceSettings {
    InterfaceSettings {
        interface_name: name.to_string(),
        monitor_interface_name: monitor.map(|m| m.to_string()),
        channel_mode: ChannelSelectionMode::HopAll {
            channels: vec![1, 6, 11],
            dwell_ms: 250,
            ht_mode: "HT20".to_string(),
            channel_ht_modes: vec![],
        },
        enabled: true,
    }
}

fn unlocked() -> WifiLock {
    WifiLock { restore_mode: None, locked_target: None }
}

fn restart_text(a: LockAction) -> String {
    match a {
        LockAction::Restart(t) => t,
        LockAction::Refused(t) => panic!("refused: {t}"),
    }
}

fn refused_text(a: LockAction) -> String {
    match a {
        LockAction::Refused(t) => t,
        LockAction::Restart(t) => panic!("restarted: {t}"),
    }
}

fn is_hop_1_6_11(m: &ChannelSelectionMode) -> bool {
    matches!(m, ChannelSelectionMode::HopAll { channels, dwell_ms: 250, .. } if channels == &vec![1, 6, 11])
}

#[test]
fn lock_then_unlock_restores_the_hop_mode() {
    let mut ifaces = vec![iface("wlan0", Some("wlan0mon")), iface("wlan1", None)];
    let mut lock = unlocked();
    let msg = restart_text(lock_wifi_to_channel(&mut ifaces, &mut lock, 36, "HT40+", "Cafe (aa:bb)".to_string()));
    assert_eq!(msg, "applying AP lock on wlan0mon channel 36 (HT40+) for Cafe (aa:bb)");
    assert!(matches!(&ifaces[0].channel_mode, ChannelSelectionMode::Locked { channel: 36, ht_mode } if ht_mode == "HT40+"));
    assert!(is_hop_1_6_11(&ifaces[1].channel_mode));
    assert_eq!(lock.locked_target.as_deref(), Some("Cafe (aa:bb)"));

    // locking again keeps the mode from before the first lock
    restart_text(lock_wifi_to_channel(&mut ifaces, &mut lock, 6, "HT20", "Other".to_string()));
    let msg = restart_text(unlock_wifi_card(&mut ifaces, &mut lock));
    assert_eq!(msg, "unlocking wlan0mon from Other");
    assert!(is_hop_1_6_11(&ifaces[0].channel_mode));
    assert!(lock.restore_mode.is_none());
    assert!(lock.locked_target.is_none());
}

#[test]
fn unlock_when_not_locked_is_refused() {
    let mut ifaces = vec![iface("wlan0", None)];
    let mut lock = unlocked();
    assert_eq!(refused_text(unlock_wifi_card(&mut ifaces, &mut lock)), "Wi-Fi card is not locked to an AP");
    assert!(is_hop_1_6_11(&ifaces[0].channel_mode));
}

#[test]
fn lock_without_interfaces_is_refused() {
    let mut ifaces: Vec<InterfaceSettings> = vec![];
    let mut lock = unlocked();
    let msg = refused_text(lock_wifi_to_channel(&mut ifaces, &mut lock, 1, "HT20", "x".to_string()));
    assert_eq!(msg, "no Wi-Fi interface configured for AP lock");
    assert!(lock.restore_mode.is_none());
}

#[test]
fn unlock_without_interfaces_drops_the_kept_mode() {
    let mut ifaces: Vec<InterfaceSettings> = vec![];
    let mut lock = WifiLock {
        restore_mode: Some(ChannelSelectionMode::Locked { channel: 1, ht_mode: "HT20".to_string() }),
        locked_target: Some("t".to_string()),
    };
    let msg = refused_text(unlock_wifi_card(&mut ifaces, &mut lock));
    assert_eq!(msg, "no Wi-Fi interface configured to unlock");
    assert!(lock.restore_mode.is_none());
    assert_eq!(lock.locked_target.as_deref(), Some("t"));
}

#[test]
fn unlock_message_without_target() {
    let mut ifaces = vec![iface("wlan0", None)];
    let mut lock = WifiLock {
        restore_mode: Some(ChannelSelectionMode::Locked { channel: 11, ht_mode: "HT20".to_string() }),
        locked_target: None,
    };
    assert_eq!(restart_text(unlock_wifi_card(&mut ifaces, &mut lock)), "unlocking wlan0");
    assert!(matches!(&ifaces[0].channel_mode, ChannelSelectionMode::Locked { channel: 11, .. }));
}
