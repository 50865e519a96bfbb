//! Starting, stopping and restarting the scans. Starting and stopping run in
//! the background; these steps decide what to launch or stop, and what the
//! radios' health and the status lines say when a request is made and when
//! the background work completes. At most one start or stop is under way at
//! a time.

use vstd::prelude::*;
use crate::text::string_seqs;
use crate::watchdog::{
    InterfaceHealthState, RadioWatch, ScanWatchdog, WatchView, watch_view, push_status,
    MAX_STATUS_LINES,
};
use crate::web_state::keep_last;
use crate::settings::{InterfaceSettings, InterfaceView, ifaces_view, copy_mode};
use crate::text::{push_str, string_from_chars};

verus! {

/// Which scans run and which transition is under way.
pub struct ScanControl {
    pub start_in_progress: bool,
    pub stop_in_progress: bool,
    pub wifi_running: bool,
    pub bluetooth_running: bool,
    /// The message of a restart that follows the stop under way.
    pub pending_restart_message: Option<String>,
}

/// A scan control as plain values: starting, stopping, Wi-Fi running,
/// Bluetooth running, pending restart message.
pub type ControlView = (bool, bool, bool, bool, Option<Seq<char>>);

pub open spec fn control_view(c: ScanControl) -> ControlView {
    (
        c.start_in_progress,
        c.stop_in_progress,
        c.wifi_running,
        c.bluetooth_running,
        match c.pending_restart_message {
            Some(m) => Some(m@),
            None => None,
        },
    )
}

/// A start and a stop are never under way together.
pub open spec fn one_transition(c: ControlView) -> bool {
    !(c.0 && c.1)
}

/// What to launch in the background: the Wi-Fi capture, the Bluetooth scan.
#[derive(Debug, Clone, Copy, PartialEq, Eq, Structural)]
pub enum StartPlan {
    Refused,
    Launch { wifi: bool, bluetooth: bool },
}

/// The radios' watches and the status lines as plain values.
pub type WatchdogView = (WatchView, WatchView, Seq<Seq<char>>);

pub open spec fn watchdog_view(wd: ScanWatchdog) -> WatchdogView {
    (watch_view(wd.wifi), watch_view(wd.bluetooth), string_seqs(wd.status_lines@))
}

pub open spec fn with_status(v: WatchdogView, msg: Seq<char>) -> WatchdogView {
    (v.0, v.1, keep_last(v.2.push(msg), MAX_STATUS_LINES as nat))
}

/// A watch with another health and detail, and when data last arrived.
pub open spec fn with_health(w: WatchView, h: InterfaceHealthState, detail: Seq<char>, last: Option<u64>) -> WatchView {
    (h, detail, last, w.3, w.4, w.5)
}

/// Starting the scans with Wi-Fi and Bluetooth enabled or not: the
/// refusal message, or which radios to launch.
pub open spec fn start_choice(c: ControlView, wifi_enabled: bool, bluetooth_enabled: bool) -> Result<(bool, bool), Seq<char>> {
    let need_wifi = wifi_enabled && !c.2;
    let need_bluetooth = bluetooth_enabled && !c.3;
    if c.0 {
        Err("scan start is already in progress"@)
    } else if c.1 {
        Err("scan stop is still in progress"@)
    } else if !need_wifi && !need_bluetooth {
        if c.2 || c.3 {
            Err("scanning already running"@)
        } else {
            Err("no scanning services enabled; enable Wi-Fi and/or Bluetooth"@)
        }
    } else {
        Ok((need_wifi, need_bluetooth))
    }
}

/// The control, the watchdog and the plan after a request to start.
pub open spec fn start_next(
    c: ControlView,
    v: WatchdogView,
    wifi_enabled: bool,
    bluetooth_enabled: bool,
    now: u64,
) -> (ControlView, WatchdogView, StartPlan) {
    match start_choice(c, wifi_enabled, bluetooth_enabled) {
        Err(msg) => (c, with_status(v, msg), StartPlan::Refused),
        Ok((w, b)) => (
            (true, c.1, c.2, c.3, c.4),
            with_status(
                (
                    if w {
                        with_health(v.0, InterfaceHealthState::Restarting, "starting Wi-Fi capture"@, Some(now))
                    } else {
                        v.0
                    },
                    if b {
                        with_health(v.1, InterfaceHealthState::Restarting, "starting Bluetooth scan"@, Some(now))
                    } else {
                        v.1
                    },
                    v.2,
                ),
                "starting scans..."@,
            ),
            StartPlan::Launch { wifi: w, bluetooth: b },
        ),
    }
}

fn push_line(wd: &mut ScanWatchdog, message: &str)
    ensures
        watchdog_view(*final(wd)) == with_status(watchdog_view(*old(wd)), message@),
{
    let ghost before = wd.status_lines@;
    push_status(wd, message.to_string());
    assert(string_seqs(wd.status_lines@) =~= keep_last(
        string_seqs(before).push(message@),
        MAX_STATUS_LINES as nat,
    ));
}

fn set_health(w: &mut RadioWatch, h: InterfaceHealthState, detail: &str, last: Option<u64>)
    ensures
        watch_view(*final(w)) == with_health(watch_view(*old(w)), h, detail@, last),
{
    w.health = h;
    w.detail = detail.to_string();
    w.last_data_at = last;
}

/// A request to start the scans at `now`: refused while a start or stop is
/// under way or when nothing is left to start; otherwise the radios that
/// are enabled and not running are launched.
pub fn start_scanning(
    ctl: &mut ScanControl,
    wd: &mut ScanWatchdog,
    wifi_enabled: bool,
    bluetooth_enabled: bool,
    now: u64,
) -> (plan: StartPlan)
    ensures
        (control_view(*final(ctl)), watchdog_view(*final(wd)), plan) == start_next(
            control_view(*old(ctl)),
            watchdog_view(*old(wd)),
            wifi_enabled,
            bluetooth_enabled,
            now,
        ),
{
    if ctl.start_in_progress {
        push_line(wd, "scan start is already in progress");
        return StartPlan::Refused;
    }
    if ctl.stop_in_progress {
        push_line(wd, "scan stop is still in progress");
        return StartPlan::Refused;
    }
    let need_wifi = wifi_enabled && !ctl.wifi_running;
    let need_bluetooth = bluetooth_enabled && !ctl.bluetooth_running;
    if !need_wifi && !need_bluetooth {
        if ctl.wifi_running || ctl.bluetooth_running {
            push_line(wd, "scanning already running");
        } else {
            push_line(wd, "no scanning services enabled; enable Wi-Fi and/or Bluetooth");
        }
        return StartPlan::Refused;
    }
    ctl.start_in_progress = true;
    if need_wifi {
        set_health(&mut wd.wifi, InterfaceHealthState::Restarting, "starting Wi-Fi capture", Some(now));
    }
    if need_bluetooth {
        set_health(
            &mut wd.bluetooth,
            InterfaceHealthState::Restarting,
            "starting Bluetooth scan",
            Some(now),
        );
    }
    push_line(wd, "starting scans...");
    StartPlan::Launch { wifi: need_wifi, bluetooth: need_bluetooth }
}

/// A watch with another health and detail; when data last arrived is kept.
pub open spec fn with_state(w: WatchView, h: InterfaceHealthState, detail: Seq<char>) -> WatchView {
    (h, detail, w.2, w.3, w.4, w.5)
}

/// A watch of a radio that came up at `now`: the restart streak ends.
pub open spec fn came_up(w: WatchView, detail: Seq<char>, now: u64) -> WatchView {
    (InterfaceHealthState::Active, detail, Some(now), w.3, 0u8, w.5)
}

fn set_state(w: &mut RadioWatch, h: InterfaceHealthState, detail: &str)
    ensures
        watch_view(*final(w)) == with_state(watch_view(*old(w)), h, detail@),
{
    w.health = h;
    w.detail = detail.to_string();
}

/// What a request to stop leads to.
#[derive(Debug, Clone, Copy, PartialEq, Eq, Structural)]
pub enum ShutdownPlan {
    /// Refused; nothing changes but the status.
    Refused,
    /// Nothing was running and a restart was asked for: the scans start.
    Started(StartPlan),
    /// Stop the running Wi-Fi capture and Bluetooth scan in the background.
    Stop { wifi: bool, bluetooth: bool },
}

/// The control, the watchdog and the plan after a request to stop, with
/// `restart` the message of a restart to follow, if any.
pub open spec fn shutdown_next(
    c: ControlView,
    v: WatchdogView,
    restart: Option<Seq<char>>,
    wifi_enabled: bool,
    bluetooth_enabled: bool,
    now: u64,
) -> (ControlView, WatchdogView, ShutdownPlan) {
    if c.0 || c.1 {
        (c, with_status(v, "scan transition already in progress"@), ShutdownPlan::Refused)
    } else if !c.2 && !c.3 {
        match restart {
            Some(m) => {
                let s = start_next(c, with_status(v, m), wifi_enabled, bluetooth_enabled, now);
                (s.0, s.1, ShutdownPlan::Started(s.2))
            },
            None => (c, with_status(v, "scanning already stopped"@), ShutdownPlan::Refused),
        }
    } else {
        (
            (false, true, false, false, restart),
            with_status(
                v,
                if restart is Some {
                    "restarting scans..."@
                } else {
                    "stopping scans..."@
                },
            ),
            ShutdownPlan::Stop { wifi: c.2, bluetooth: c.3 },
        )
    }
}

/// A request to stop the scans, to be followed by a restart announced by
/// `restart_message` when there is one.
pub fn begin_scan_shutdown(
    ctl: &mut ScanControl,
    wd: &mut ScanWatchdog,
    restart_message: Option<String>,
    wifi_enabled: bool,
    bluetooth_enabled: bool,
    now: u64,
) -> (plan: ShutdownPlan)
    ensures
        (control_view(*final(ctl)), watchdog_view(*final(wd)), plan) == shutdown_next(
            control_view(*old(ctl)),
            watchdog_view(*old(wd)),
            match restart_message {
                Some(m) => Some(m@),
                None => None,
            },
            wifi_enabled,
            bluetooth_enabled,
            now,
        ),
{
    if ctl.start_in_progress || ctl.stop_in_progress {
        push_line(wd, "scan transition already in progress");
        return ShutdownPlan::Refused;
    }
    if !ctl.wifi_running && !ctl.bluetooth_running {
        match restart_message {
            Some(m) => {
                push_line(wd, m.as_str());
                let p = start_scanning(ctl, wd, wifi_enabled, bluetooth_enabled, now);
                return ShutdownPlan::Started(p);
            },
            None => {
                push_line(wd, "scanning already stopped");
                return ShutdownPlan::Refused;
            },
        }
    }
    let wifi = ctl.wifi_running;
    let bluetooth = ctl.bluetooth_running;
    ctl.wifi_running = false;
    ctl.bluetooth_running = false;
    ctl.stop_in_progress = true;
    if restart_message.is_some() {
        push_line(wd, "restarting scans...");
    } else {
        push_line(wd, "stopping scans...");
    }
    ctl.pending_restart_message = restart_message;
    ShutdownPlan::Stop { wifi, bluetooth }
}

/// The status lines after adding `lines` one by one.
pub open spec fn with_lines(v: WatchdogView, lines: Seq<Seq<char>>) -> WatchdogView
    decreases lines.len(),
{
    if lines.len() == 0 {
        v
    } else {
        with_status(with_lines(v, lines.drop_last()), lines.last())
    }
}

fn push_lines(wd: &mut ScanWatchdog, lines: &Vec<String>)
    ensures
        watchdog_view(*final(wd)) == with_lines(watchdog_view(*old(wd)), string_seqs(lines@)),
{
    let ghost start = watchdog_view(*wd);
    let ghost all = string_seqs(lines@);
    let mut i: usize = 0;
    while i < lines.len()
        invariant
            i <= lines@.len(),
            all == string_seqs(lines@),
            watchdog_view(*wd) == with_lines(start, all.subrange(0, i as int)),
        decreases lines@.len() - i,
    {
        proof {
            let pre = all.subrange(0, i + 1);
            assert(pre.drop_last() =~= all.subrange(0, i as int));
            assert(pre.last() == lines@[i as int]@);
        }
        push_line(wd, lines[i].as_str());
        i = i + 1;
    }
    assert(all.subrange(0, lines@.len() as int) =~= all);
}

/// The background stop finished with status `lines`: the stop is over and
/// the message of the restart to follow, if any, is handed back.
pub fn scan_stop_completed(ctl: &mut ScanControl, wd: &mut ScanWatchdog, lines: &Vec<String>) -> (restart: Option<String>)
    ensures
        ({
            let c = control_view(*old(ctl));
            &&& control_view(*final(ctl)) == (c.0, false, c.2, c.3, None::<Seq<char>>)
            &&& watchdog_view(*final(wd)) == with_lines(watchdog_view(*old(wd)), string_seqs(lines@))
            &&& match restart {
                Some(m) => c.4 == Some(m@),
                None => c.4 is None,
            }
        }),
{
    ctl.stop_in_progress = false;
    let restart = ctl.pending_restart_message.take();
    push_lines(wd, lines);
    restart
}

/// After a stop (and the export that follows it): restart when a restart
/// was asked for, announcing it; otherwise both radios are idle.
pub open spec fn resume_next(
    c: ControlView,
    v: WatchdogView,
    restart: Option<Seq<char>>,
    wifi_enabled: bool,
    bluetooth_enabled: bool,
    now: u64,
) -> (ControlView, WatchdogView, Option<StartPlan>) {
    match restart {
        Some(m) => {
            let s = start_next(c, with_status(v, m), wifi_enabled, bluetooth_enabled, now);
            (s.0, s.1, Some(s.2))
        },
        None => (
            c,
            with_status(
                (
                    with_health(v.0, InterfaceHealthState::Idle, "Wi-Fi scanning stopped"@, None),
                    with_health(v.1, InterfaceHealthState::Idle, "Bluetooth scanning stopped"@, None),
                    v.2,
                ),
                "scanning stopped"@,
            ),
            None,
        ),
    }
}

pub fn resume_after_stop(
    ctl: &mut ScanControl,
    wd: &mut ScanWatchdog,
    restart: Option<String>,
    wifi_enabled: bool,
    bluetooth_enabled: bool,
    now: u64,
) -> (plan: Option<StartPlan>)
    ensures
        (control_view(*final(ctl)), watchdog_view(*final(wd)), plan) == resume_next(
            control_view(*old(ctl)),
            watchdog_view(*old(wd)),
            match restart {
                Some(m) => Some(m@),
                None => None,
            },
            wifi_enabled,
            bluetooth_enabled,
            now,
        ),
{
    match restart {
        Some(m) => {
            push_line(wd, m.as_str());
            Some(start_scanning(ctl, wd, wifi_enabled, bluetooth_enabled, now))
        },
        None => {
            set_health(&mut wd.wifi, InterfaceHealthState::Idle, "Wi-Fi scanning stopped", None);
            set_health(
                &mut wd.bluetooth,
                InterfaceHealthState::Idle,
                "Bluetooth scanning stopped",
                None,
            );
            push_line(wd, "scanning stopped");
            None
        },
    }
}

/// What the background start reported: which runtimes it handed over and
/// whether each radio started or the Wi-Fi capture failed.
#[derive(Debug, Clone, Copy, PartialEq, Eq, Structural)]
pub struct StartOutcome {
    pub wifi_runtime: bool,
    pub bluetooth_runtime: bool,
    pub wifi_started: bool,
    pub wifi_failed: bool,
    pub bluetooth_started: bool,
}

/// The line that sums up a completed start.
pub open spec fn start_summary(o: StartOutcome) -> Seq<char> {
    if o.wifi_started && o.bluetooth_started {
        "Wi-Fi and Bluetooth scanning started"@
    } else if o.wifi_started {
        "Wi-Fi scanning started"@
    } else if o.bluetooth_started && o.wifi_failed {
        "Bluetooth scanning started; Wi-Fi capture failed to start"@
    } else if o.bluetooth_started {
        "Bluetooth scanning started"@
    } else if o.wifi_failed {
        "Wi-Fi capture failed to start"@
    } else {
        "scan start completed"@
    }
}

/// The control and the watchdog after the background start completed with
/// `o` and status `lines`, the radios being enabled or not afterwards.
pub open spec fn start_done_next(
    c: ControlView,
    v: WatchdogView,
    o: StartOutcome,
    lines: Seq<Seq<char>>,
    wifi_enabled: bool,
    bluetooth_enabled: bool,
    now: u64,
) -> (ControlView, WatchdogView) {
    let v1 = with_lines(v, lines);
    let wifi = if o.wifi_started {
        came_up(v1.0, "capturing packets"@, now)
    } else if o.wifi_failed {
        with_state(v1.0, InterfaceHealthState::Error, "Wi-Fi capture failed to start"@)
    } else if !wifi_enabled {
        with_health(v1.0, InterfaceHealthState::Idle, "Wi-Fi scanning disabled"@, None)
    } else {
        v1.0
    };
    let bluetooth = if o.bluetooth_started {
        came_up(v1.1, "scanning Bluetooth advertisements"@, now)
    } else if !bluetooth_enabled {
        with_health(v1.1, InterfaceHealthState::Idle, "Bluetooth scanning disabled"@, None)
    } else {
        v1.1
    };
    (
        (false, c.1, c.2 || o.wifi_runtime, c.3 || o.bluetooth_runtime, c.4),
        with_status((wifi, bluetooth, v1.2), start_summary(o)),
    )
}

fn come_up(w: &mut RadioWatch, detail: &str, now: u64)
    ensures
        watch_view(*final(w)) == came_up(watch_view(*old(w)), detail@, now),
{
    w.health = InterfaceHealthState::Active;
    w.detail = detail.to_string();
    w.last_data_at = Some(now);
    w.consecutive_restarts = 0;
}

/// The background start completed with `outcome` and status `lines`.
pub fn scan_start_completed(
    ctl: &mut ScanControl,
    wd: &mut ScanWatchdog,
    outcome: StartOutcome,
    lines: &Vec<String>,
    wifi_enabled: bool,
    bluetooth_enabled: bool,
    now: u64,
)
    ensures
        (control_view(*final(ctl)), watchdog_view(*final(wd))) == start_done_next(
            control_view(*old(ctl)),
            watchdog_view(*old(wd)),
            outcome,
            string_seqs(lines@),
            wifi_enabled,
            bluetooth_enabled,
            now,
        ),
{
    ctl.start_in_progress = false;
    if outcome.wifi_runtime {
        ctl.wifi_running = true;
    }
    if outcome.bluetooth_runtime {
        ctl.bluetooth_running = true;
    }
    push_lines(wd, lines);
    if outcome.wifi_started {
        come_up(&mut wd.wifi, "capturing packets", now);
    } else if outcome.wifi_failed {
        set_state(&mut wd.wifi, InterfaceHealthState::Error, "Wi-Fi capture failed to start");
    } else if !wifi_enabled {
        set_health(&mut wd.wifi, InterfaceHealthState::Idle, "Wi-Fi scanning disabled", None);
    }
    if outcome.bluetooth_started {
        come_up(&mut wd.bluetooth, "scanning Bluetooth advertisements", now);
    } else if !bluetooth_enabled {
        set_health(&mut wd.bluetooth, InterfaceHealthState::Idle, "Bluetooth scanning disabled", None);
    }
    if outcome.wifi_started && outcome.bluetooth_started {
        push_line(wd, "Wi-Fi and Bluetooth scanning started");
    } else if outcome.wifi_started {
        push_line(wd, "Wi-Fi scanning started");
    } else if outcome.bluetooth_started && outcome.wifi_failed {
        push_line(wd, "Bluetooth scanning started; Wi-Fi capture failed to start");
    } else if outcome.bluetooth_started {
        push_line(wd, "Bluetooth scanning started");
    } else if outcome.wifi_failed {
        push_line(wd, "Wi-Fi capture failed to start");
    } else {
        push_line(wd, "scan start completed");
    }
}

/// Restarting the Wi-Fi capture (its runtime has been stopped): with no
/// interface enabled the radio is idle; otherwise the scans start again.
pub open spec fn restart_wifi_next(
    c: ControlView,
    v: WatchdogView,
    wifi_enabled: bool,
    bluetooth_enabled: bool,
    now: u64,
) -> (ControlView, WatchdogView, Option<StartPlan>) {
    let c1 = (c.0, c.1, false, c.3, c.4);
    if !wifi_enabled {
        (c1, (with_state(v.0, InterfaceHealthState::Idle, "Wi-Fi scanning disabled"@), v.1, v.2), None)
    } else {
        let s = start_next(
            c1,
            (with_health(v.0, InterfaceHealthState::Restarting, "restarting Wi-Fi capture"@, Some(now)), v.1, v.2),
            wifi_enabled,
            bluetooth_enabled,
            now,
        );
        (s.0, s.1, Some(s.2))
    }
}

pub fn restart_wifi_scan(
    ctl: &mut ScanControl,
    wd: &mut ScanWatchdog,
    wifi_enabled: bool,
    bluetooth_enabled: bool,
    now: u64,
) -> (plan: Option<StartPlan>)
    ensures
        (control_view(*final(ctl)), watchdog_view(*final(wd)), plan) == restart_wifi_next(
            control_view(*old(ctl)),
            watchdog_view(*old(wd)),
            wifi_enabled,
            bluetooth_enabled,
            now,
        ),
{
    ctl.wifi_running = false;
    if !wifi_enabled {
        set_state(&mut wd.wifi, InterfaceHealthState::Idle, "Wi-Fi scanning disabled");
        return None;
    }
    set_health(&mut wd.wifi, InterfaceHealthState::Restarting, "restarting Wi-Fi capture", Some(now));
    Some(start_scanning(ctl, wd, wifi_enabled, bluetooth_enabled, now))
}

/// Restarting the Bluetooth scan (its runtime has been stopped): when
/// Bluetooth is disabled the radio is idle; otherwise a new scan is
/// launched at once.
pub open spec fn restart_bluetooth_next(c: ControlView, v: WatchdogView, bluetooth_enabled: bool, now: u64) -> (
    ControlView,
    WatchdogView,
    bool,
) {
    if !bluetooth_enabled {
        (
            (c.0, c.1, c.2, false, c.4),
            (
                v.0,
                with_state(v.1, InterfaceHealthState::Idle, "Bluetooth scanning disabled"@),
                keep_last(v.2.push("bluetooth scanning disabled"@), MAX_STATUS_LINES as nat),
            ),
            false,
        )
    } else {
        (
            (c.0, c.1, c.2, true, c.4),
            (
                v.0,
                with_health(v.1, InterfaceHealthState::Restarting, "restarting Bluetooth scan"@, Some(now)),
                v.2,
            ),
            true,
        )
    }
}

/// Restarts the Bluetooth scan; whether a new scan is to be launched.
pub fn restart_bluetooth_scan(ctl: &mut ScanControl, wd: &mut ScanWatchdog, bluetooth_enabled: bool, now: u64) -> (launch: bool)
    ensures
        (control_view(*final(ctl)), watchdog_view(*final(wd)), launch) == restart_bluetooth_next(
            control_view(*old(ctl)),
            watchdog_view(*old(wd)),
            bluetooth_enabled,
            now,
        ),
{
    ctl.bluetooth_running = false;
    if !bluetooth_enabled {
        push_line(wd, "bluetooth scanning disabled");
        set_state(&mut wd.bluetooth, InterfaceHealthState::Idle, "Bluetooth scanning disabled");
        return false;
    }
    set_health(
        &mut wd.bluetooth,
        InterfaceHealthState::Restarting,
        "restarting Bluetooth scan",
        Some(now),
    );
    ctl.bluetooth_running = true;
    true
}

/// Every step keeps a start and a stop from being under way together.
pub proof fn lemma_one_transition_at_a_time(
    c: ControlView,
    v: WatchdogView,
    restart: Option<Seq<char>>,
    o: StartOutcome,
    lines: Seq<Seq<char>>,
    wifi_enabled: bool,
    bluetooth_enabled: bool,
    now: u64,
)
    requires
        one_transition(c),
    ensures
        one_transition(start_next(c, v, wifi_enabled, bluetooth_enabled, now).0),
        one_transition(shutdown_next(c, v, restart, wifi_enabled, bluetooth_enabled, now).0),
        one_transition(start_done_next(c, v, o, lines, wifi_enabled, bluetooth_enabled, now).0),
        one_transition(restart_wifi_next(c, v, wifi_enabled, bluetooth_enabled, now).0),
        one_transition(restart_bluetooth_next(c, v, bluetooth_enabled, now).0),
        one_transition((c.0, false, c.2, c.3, None::<Seq<char>>)),
        !c.1 ==> one_transition(resume_next(c, v, restart, wifi_enabled, bluetooth_enabled, now).0),
{
}

/// While a start or a stop is under way, a request to start or to stop is
/// refused and changes no flag.
pub proof fn lemma_busy_refuses(
    c: ControlView,
    v: WatchdogView,
    restart: Option<Seq<char>>,
    wifi_enabled: bool,
    bluetooth_enabled: bool,
    now: u64,
)
    requires
        c.0 || c.1,
    ensures
        start_next(c, v, wifi_enabled, bluetooth_enabled, now).0 == c,
        start_next(c, v, wifi_enabled, bluetooth_enabled, now).2 == StartPlan::Refused,
        shutdown_next(c, v, restart, wifi_enabled, bluetooth_enabled, now).0 == c,
        shutdown_next(c, v, restart, wifi_enabled, bluetooth_enabled, now).2 == ShutdownPlan::Refused,
{
}

/// The interfaces once capture has stopped: none keeps a monitor
/// interface.
pub fn clear_runtime_interface_state(interfaces: &Vec<InterfaceSettings>) -> (r: Vec<InterfaceSettings>)
    ensures
        ifaces_view(r@) == ifaces_view(interfaces@).map_values(
            |i: InterfaceView| InterfaceView { monitor_interface_name: None, ..i },
        ),
{
    let ghost want = ifaces_view(interfaces@).map_values(
        |i: InterfaceView| InterfaceView { monitor_interface_name: None, ..i },
    );
    let mut r: Vec<InterfaceSettings> = Vec::new();
    let mut k: usize = 0;
    while k < interfaces.len()
        invariant
            k <= interfaces@.len(),
            want == ifaces_view(interfaces@).map_values(
                |i: InterfaceView| InterfaceView { monitor_interface_name: None, ..i },
            ),
            ifaces_view(r@) == want.subrange(0, k as int),
        decreases interfaces@.len() - k,
    {
        let src = &interfaces[k];
        let name = src.interface_name.clone();
        let iface = InterfaceSettings {
            interface_name: name,
            monitor_interface_name: None,
            channel_mode: copy_mode(&src.channel_mode),
            enabled: src.enabled,
        };
        let ghost prev = r@;
        r.push(iface);
        assert(ifaces_view(r@) =~= ifaces_view(prev).push(want[k as int]));
        k = k + 1;
    }
    assert(want.subrange(0, interfaces@.len() as int) =~= want);
    r
}

/// The message shown when an interface could not be prepared for capture.
/// `helper` is the capture helper's path; `as_root` whether the program
/// runs as root.
pub open spec fn start_failure_text(interface: Seq<char>, error: Seq<char>, helper: Seq<char>, as_root: bool) -> Seq<char> {
    "EasyWiFi could not prepare "@ + interface + " for Wi-Fi capture.\n\n"@ + error
        + "\n\nWi-Fi capture was not started.\n\n"@ + if as_root {
        "EasyWiFi is already running as root, so no additional privilege prompt was used. Verify the interface name, driver support, and that `ip`/`iw` succeeded under this root session."@
    } else {
        "Run the GUI as your normal user. One of these privilege paths must work:\n1. `pkexec` with a working polkit agent\n2. passwordless `sudo -n` for `"@
            + helper + "`\n3. helper capabilities:\n   sudo setcap cap_net_admin,cap_net_raw=eip "@ + helper
    }
}

pub fn format_wifi_start_failure_text(interface: &str, error_text: &str, helper: &str, as_root: bool) -> (r: String)
    ensures
        r@ == start_failure_text(interface@, error_text@, helper@, as_root),
{
    let mut out: Vec<char> = Vec::new();
    push_str(&mut out, "EasyWiFi could not prepare ");
    push_str(&mut out, interface);
    push_str(&mut out, " for Wi-Fi capture.\n\n");
    push_str(&mut out, error_text);
    push_str(&mut out, "\n\nWi-Fi capture was not started.\n\n");
    if as_root {
        push_str(
            &mut out,
            "EasyWiFi is already running as root, so no additional privilege prompt was used. Verify the interface name, driver support, and that `ip`/`iw` succeeded under this root session.",
        );
    } else {
        push_str(
            &mut out,
            "Run the GUI as your normal user. One of these privilege paths must work:\n1. `pkexec` with a working polkit agent\n2. passwordless `sudo -n` for `",
        );
        push_str(&mut out, helper);
        push_str(&mut out, "`\n3. helper capabilities:\n   sudo setcap cap_net_admin,cap_net_raw=eip ");
        push_str(&mut out, helper);
    }
    assert(out@ =~= start_failure_text(interface@, error_text@, helper@, as_root));
    string_from_chars(out.as_slice())
}

/// Whether the start and the stop button can be used: neither while a
/// start or stop is under way; start while some radio is not scanning,
/// stop while some radio is.
pub fn scan_buttons_enabled(wifi_running: bool, bluetooth_running: bool, transition_in_progress: bool) -> (r: (
    bool,
    bool,
))
    ensures
        r.0 == (!transition_in_progress && !(wifi_running && bluetooth_running)),
        r.1 == (!transition_in_progress && (wifi_running || bluetooth_running)),
{
    if transition_in_progress {
        return (false, false);
    }
    (!(wifi_running && bluetooth_running), wifi_running || bluetooth_running)
}

} // verus!
