use easywifi::scan_control::{
    begin_scan_shutdown, restart_bluetooth_scan, restart_wifi_scan, resume_after_stop,
    scan_start_completed, scan_stop_completed, start_scanning, ScanControl, ShutdownPlan, StartOutcome,
    StartPlan,
};
use easywifi::watchdog::{InterfaceHealthState, RadioWatch, ScanWatchdog};

fn watch() -> RadioWatch {
    RadioWatch {
        health: InterfaceHealthState::Idle,
        detail: String::new(),
        last_data_at: None,
        restart_count: 0,
        consecutive_restarts: 2,
        block_until: None,
    }
}

fn watchdog() -> ScanWatchdog {
    ScanWatchdog { wifi: watch(), bluetooth: watch(), status_lines: vec![] }
}

fn idle() -> ScanControl {
    ScanControl {
        start_in_progress: false,
        stop_in_progress: false,
        wifi_running: false,
        bluetooth_running: false,
        pending_restart_message: None,
    }
}

fn last(wd: &ScanWatchdog) -> &str {
    wd.status_lines.last().map(|s| s.as_str()).unwrap_or("")
}

#[test]
fn start_launches_enabled_radios() {
    let mut ctl = idle();
    let mut wd = watchdog();
    let plan = start_scanning(&mut ctl, &mut wd, true, false, 100);
    assert_eq!(plan, StartPlan::Launch { wifi: true, bluetooth: false });
    assert!(ctl.start_in_progress);
    assert_eq!(wd.wifi.health, InterfaceHealthState::Restarting);
    assert_eq!(wd.wifi.detail, "starting Wi-Fi capture");
    assert_eq!(wd.wifi.last_data_at, Some(100));
    assert_eq!(wd.bluetooth.health, InterfaceHealthState::Idle);
    assert_eq!(last(&wd), "starting scans...");
    // a second request while starting is refused
    assert_eq!(start_scanning(&mut ctl, &mut wd, true, true, 101), StartPlan::Refused);
    assert_eq!(last(&wd), "scan start is already in progress");
}

#[test]
fn start_with_nothing_enabled_is_refused() {
    let mut ctl = idle();
    let mut wd = watchdog();
    assert_eq!(start_scanning(&mut ctl, &mut wd, false, false, 1), StartPlan::Refused);
    assert_eq!(last(&wd), "no scanning services enabled; enable Wi-Fi and/or Bluetooth");
    ctl.wifi_running = true;
    assert_eq!(start_scanning(&mut ctl, &mut wd, true, false, 1), StartPlan::Refused);
    assert_eq!(last(&wd), "scanning already running");
    assert!(!ctl.start_in_progress);
}

#[test]
fn start_completion_reports_and_sets_health() {
    let mut ctl = idle();
    let mut wd = watchdog();
    start_scanning(&mut ctl, &mut wd, true, true, 10);
    let outcome = StartOutcome {
        wifi_runtime: true,
        bluetooth_runtime: true,
        wifi_started: false,
        wifi_failed: true,
        bluetooth_started: true,
    };
    scan_start_completed(&mut ctl, &mut wd, outcome, &vec!["monitor mode failed".to_string()], true, true, 20);
    assert!(!ctl.start_in_progress);
    assert!(ctl.wifi_running && ctl.bluetooth_running);
    assert_eq!(wd.wifi.health, InterfaceHealthState::Error);
    assert_eq!(wd.bluetooth.health, InterfaceHealthState::Active);
    assert_eq!(wd.bluetooth.consecutive_restarts, 0);
    assert_eq!(wd.bluetooth.last_data_at, Some(20));
    let n = wd.status_lines.len();
    assert_eq!(wd.status_lines[n - 2], "monitor mode failed");
    assert_eq!(last(&wd), "Bluetooth scanning started; Wi-Fi capture failed to start");
}

#[test]
fn stop_then_restart_cycle() {
    let mut ctl = idle();
    ctl.wifi_running = true;
    let mut wd = watchdog();
    let plan = begin_scan_shutdown(&mut ctl, &mut wd, Some("applying AP lock".to_string()), true, false, 5);
    assert_eq!(plan, ShutdownPlan::Stop { wifi: true, bluetooth: false });
    assert!(ctl.stop_in_progress && !ctl.wifi_running);
    assert_eq!(last(&wd), "restarting scans...");
    // no second transition while stopping
    assert_eq!(begin_scan_shutdown(&mut ctl, &mut wd, None, true, false, 6), ShutdownPlan::Refused);
    assert_eq!(last(&wd), "scan transition already in progress");
    let restart = scan_stop_completed(&mut ctl, &mut wd, &vec!["restored wlan0".to_string()]);
    assert_eq!(restart.as_deref(), Some("applying AP lock"));
    assert!(!ctl.stop_in_progress);
    let plan = resume_after_stop(&mut ctl, &mut wd, restart, true, false, 7);
    assert_eq!(plan, Some(StartPlan::Launch { wifi: true, bluetooth: false }));
    assert!(wd.status_lines.iter().any(|l| l == "applying AP lock"));
}

#[test]
fn stop_without_restart_idles_radios() {
    let mut ctl = idle();
    ctl.bluetooth_running = true;
    let mut wd = watchdog();
    assert_eq!(begin_scan_shutdown(&mut ctl, &mut wd, None, false, true, 1), ShutdownPlan::Stop { wifi: false, bluetooth: true });
    assert_eq!(last(&wd), "stopping scans...");
    let restart = scan_stop_completed(&mut ctl, &mut wd, &vec![]);
    assert!(restart.is_none());
    assert_eq!(resume_after_stop(&mut ctl, &mut wd, restart, false, true, 2), None);
    assert_eq!(wd.wifi.detail, "Wi-Fi scanning stopped");
    assert_eq!(wd.bluetooth.health, InterfaceHealthState::Idle);
    assert_eq!(wd.bluetooth.last_data_at, None);
    assert_eq!(last(&wd), "scanning stopped");
}

#[test]
fn shutdown_when_nothing_runs() {
    let mut ctl = idle();
    let mut wd = watchdog();
    assert_eq!(begin_scan_shutdown(&mut ctl, &mut wd, None, true, true, 1), ShutdownPlan::Refused);
    assert_eq!(last(&wd), "scanning already stopped");
    let plan = begin_scan_shutdown(&mut ctl, &mut wd, Some("go".to_string()), true, true, 1);
    assert_eq!(plan, ShutdownPlan::Started(StartPlan::Launch { wifi: true, bluetooth: true }));
}

#[test]
fn restarts() {
    let mut ctl = idle();
    ctl.wifi_running = true;
    let mut wd = watchdog();
    assert_eq!(restart_wifi_scan(&mut ctl, &mut wd, false, false, 3), None);
    assert_eq!(wd.wifi.detail, "Wi-Fi scanning disabled");
    assert!(!ctl.wifi_running);
    assert!(!restart_bluetooth_scan(&mut ctl, &mut wd, false, 3));
    assert_eq!(last(&wd), "bluetooth scanning disabled");
    assert!(restart_bluetooth_scan(&mut ctl, &mut wd, true, 4));
    assert!(ctl.bluetooth_running);
    assert_eq!(wd.bluetooth.detail, "restarting Bluetooth scan");
    let plan = restart_wifi_scan(&mut ctl, &mut wd, true, true, 5);
    assert_eq!(plan, Some(StartPlan::Launch { wifi: true, bluetooth: false }));
}
