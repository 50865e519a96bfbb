use easywifi::watchdog::{
    check_radio, format_health_elapsed, interface_health_state_label, maybe_run_scan_watchdog,
    note_activity, push_status, InterfaceHealthState, Radio, RadioWatch, ScanWatchdog,
    StepOutcome, WatchdogDecision,
};

fn watch(last: Option<u64>) -> RadioWatch {
    RadioWatch {
        health: InterfaceHealthState::Active,
        detail: String::new(),
        last_data_at: last,
        restart_count: 0,
        consecutive_restarts: 0,
        block_until: None,
    }
}

fn watchdog(wifi_last: Option<u64>, bt_last: Option<u64>) -> ScanWatchdog {
    ScanWatchdog { wifi: watch(wifi_last), bluetooth: watch(bt_last), status_lines: vec![] }
}

#[test]
fn health_labels_and_elapsed_text() {
    assert_eq!(interface_health_state_label(InterfaceHealthState::Stalled), "Stalled");
    assert_eq!(interface_health_state_label(InterfaceHealthState::Idle), "Idle");
    assert_eq!(format_health_elapsed(Some(100), 130), "30s ago");
    assert_eq!(format_health_elapsed(Some(200), 130), "0s ago");
    assert_eq!(format_health_elapsed(None, 130), "n/a");
}

#[test]
fn a_silent_radio_is_restarted_then_left_alone_for_the_grace_period() {
    let mut w = watch(Some(100));
    assert_eq!(check_radio(&mut w, 119, Radio::Wifi), (StepOutcome::Quiet, None));
    let (outcome, msg) = check_radio(&mut w, 120, Radio::Wifi);
    assert_eq!(outcome, StepOutcome::Restart);
    assert_eq!(msg.as_deref(), Some("Wi-Fi watchdog: stalled capture detected; restarting Wi-Fi scan"));
    assert_eq!(w.health, InterfaceHealthState::Restarting);
    assert_eq!(w.detail, "watchdog restarting Wi-Fi capture");
    assert_eq!((w.restart_count, w.consecutive_restarts, w.block_until), (1, 1, Some(132)));
    assert_eq!(w.last_data_at, Some(120));
    assert_eq!(check_radio(&mut w, 131, Radio::Wifi).0, StepOutcome::Quiet);
}

#[test]
fn the_restart_streak_is_bounded() {
    let mut w = watch(Some(0));
    let mut now = 20;
    for _ in 0..3 {
        assert_eq!(check_radio(&mut w, now, Radio::Bluetooth).0, StepOutcome::Restart);
        now += 20;
    }
    let (outcome, msg) = check_radio(&mut w, now, Radio::Bluetooth);
    assert_eq!(outcome, StepOutcome::Changed);
    assert_eq!(
        msg.as_deref(),
        Some("Bluetooth watchdog reached restart limit; manual restart required")
    );
    assert_eq!(w.health, InterfaceHealthState::Error);
    assert_eq!(w.consecutive_restarts, 3);
    now += 20;
    assert_eq!(check_radio(&mut w, now, Radio::Bluetooth), (StepOutcome::Changed, None));
}

#[test]
fn activity_ends_a_streak() {
    let mut w = watch(Some(0));
    check_radio(&mut w, 25, Radio::Wifi);
    note_activity(&mut w, "frames flowing".to_string(), 30);
    assert_eq!(w.health, InterfaceHealthState::Active);
    assert_eq!((w.consecutive_restarts, w.restart_count, w.block_until), (0, 1, None));
    assert_eq!(check_radio(&mut w, 30, Radio::Wifi).0, StepOutcome::Quiet);
}

#[test]
fn status_lines_are_capped() {
    let mut wd = watchdog(None, None);
    for i in 0..20 {
        push_status(&mut wd, format!("s{i}"));
    }
    assert_eq!(wd.status_lines.len(), 12);
    assert_eq!(wd.status_lines[0], "s8");
}

#[test]
fn watchdog_pass_decisions() {
    let mut wd = watchdog(Some(0), Some(0));
    let none = WatchdogDecision { changed: false, restart_wifi: false, restart_bluetooth: false };
    assert_eq!(maybe_run_scan_watchdog(&mut wd, true, true, true, 100), none);
    assert!(wd.status_lines.is_empty());

    let d = maybe_run_scan_watchdog(&mut wd, false, true, true, 100);
    assert_eq!(d, WatchdogDecision { changed: true, restart_wifi: true, restart_bluetooth: false });
    assert_eq!(wd.bluetooth.consecutive_restarts, 0);

    let d = maybe_run_scan_watchdog(&mut wd, false, true, true, 105);
    assert_eq!(d, WatchdogDecision { changed: true, restart_wifi: false, restart_bluetooth: true });
    assert_eq!(wd.status_lines.len(), 2);

    let d = maybe_run_scan_watchdog(&mut wd, false, false, false, 500);
    assert_eq!(d, none);
}
