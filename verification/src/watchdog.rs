//! The scan watchdog: each running radio reports when data last arrived;
//! a radio that has been silent too long is restarted, at most a few times
//! in a row, after which it is marked in error and left for the user.
//!
//! Times are whole seconds of a monotonic clock supplied by the caller.

use vstd::prelude::*;
use crate::text::{push_str, push_decimal, decimal, string_from_chars, string_seqs};
use crate::web_state::keep_last;

verus! {

/// Seconds without data after which a running radio counts as stalled.
pub const WATCHDOG_STALL_TIMEOUT_SECS: u64 = 20;

/// Seconds the watchdog leaves a radio alone after acting on it.
pub const WATCHDOG_RESTART_GRACE_SECS: u64 = 12;

/// Restarts in a row after which the watchdog gives up.
pub const WATCHDOG_MAX_CONSECUTIVE_RESTARTS: u8 = 3;

/// Status lines kept.
pub const MAX_STATUS_LINES: usize = 12;

#[derive(Debug, Clone, Copy, PartialEq, Eq, Structural)]
pub enum InterfaceHealthState {
    Idle,
    Active,
    Stalled,
    Restarting,
    Error,
}

pub open spec fn health_label(state: InterfaceHealthState) -> Seq<char> {
    match state {
        InterfaceHealthState::Idle => "Idle"@,
        InterfaceHealthState::Active => "Active"@,
        InterfaceHealthState::Stalled => "Stalled"@,
        InterfaceHealthState::Restarting => "Restarting"@,
        InterfaceHealthState::Error => "Error"@,
    }
}

pub fn interface_health_state_label(state: InterfaceHealthState) -> (r: &'static str)
    ensures
        r@ == health_label(state),
{
    match state {
        InterfaceHealthState::Idle => "Idle",
        InterfaceHealthState::Active => "Active",
        InterfaceHealthState::Stalled => "Stalled",
        InterfaceHealthState::Restarting => "Restarting",
        InterfaceHealthState::Error => "Error",
    }
}

/// How long ago data last arrived: `<n>s ago`, or `n/a` when never.
pub fn format_health_elapsed(last_data_at: Option<u64>, now: u64) -> (r: String)
    ensures
        r@ == match last_data_at {
            Some(t) => decimal(if now >= t {
                (now - t) as nat
            } else {
                0nat
            }) + "s ago"@,
            None => "n/a"@,
        },
{
    match last_data_at {
        Some(t) => {
            let elapsed: u64 = if now >= t {
                now - t
            } else {
                0
            };
            let mut out: Vec<char> = Vec::new();
            push_decimal(&mut out, elapsed);
            push_str(&mut out, "s ago");
            string_from_chars(out.as_slice())
        },
        None => String::from_str("n/a"),
    }
}

/// Which radio a watch is for.
#[derive(Debug, Clone, Copy, PartialEq, Eq, Structural)]
pub enum Radio {
    Wifi,
    Bluetooth,
}

/// What the watchdog knows of one radio.
pub struct RadioWatch {
    pub health: InterfaceHealthState,
    pub detail: String,
    /// When data last arrived.
    pub last_data_at: Option<u64>,
    pub restart_count: u32,
    pub consecutive_restarts: u8,
    /// The watchdog leaves the radio alone until then.
    pub block_until: Option<u64>,
}

/// A watch as plain values: health, detail, last data, restarts,
/// consecutive restarts, blocked until.
pub type WatchView = (InterfaceHealthState, Seq<char>, Option<u64>, u32, u8, Option<u64>);

pub open spec fn watch_view(w: RadioWatch) -> WatchView {
    (w.health, w.detail@, w.last_data_at, w.restart_count, w.consecutive_restarts, w.block_until)
}

/// Data arrived on the radio at `now`: it is active and the restart streak
/// ends.
pub fn note_activity(w: &mut RadioWatch, detail: String, now: u64)
    ensures
        watch_view(*final(w)) == (
            InterfaceHealthState::Active,
            detail@,
            Some(now),
            old(w).restart_count,
            0u8,
            None::<u64>,
        ),
{
    w.last_data_at = Some(now);
    w.consecutive_restarts = 0;
    w.block_until = None;
    w.health = InterfaceHealthState::Active;
    w.detail = detail;
}

/// What one watchdog check did to a radio.
#[derive(Debug, Clone, Copy, PartialEq, Eq, Structural)]
pub enum StepOutcome {
    /// Nothing to do.
    Quiet,
    /// The radio was given up on (restart limit reached).
    Changed,
    /// The radio must be restarted.
    Restart,
}

pub open spec fn limit_message(radio: Radio) -> Seq<char> {
    match radio {
        Radio::Wifi => "Wi-Fi watchdog reached restart limit; manual restart required"@,
        Radio::Bluetooth => "Bluetooth watchdog reached restart limit; manual restart required"@,
    }
}

pub open spec fn restarting_detail(radio: Radio) -> Seq<char> {
    match radio {
        Radio::Wifi => "watchdog restarting Wi-Fi capture"@,
        Radio::Bluetooth => "watchdog restarting Bluetooth scan"@,
    }
}

pub open spec fn restart_message(radio: Radio) -> Seq<char> {
    match radio {
        Radio::Wifi => "Wi-Fi watchdog: stalled capture detected; restarting Wi-Fi scan"@,
        Radio::Bluetooth => "Bluetooth watchdog: stalled scan detected; restarting Bluetooth scan"@,
    }
}

pub open spec fn sat_add_u64(a: u64, b: u64) -> u64 {
    if a + b <= u64::MAX {
        (a + b) as u64
    } else {
        u64::MAX
    }
}

/// One check of a running radio at `now`: the watch afterwards, the status
/// message to show (if any), and the outcome.
pub open spec fn watch_step(w: WatchView, now: u64, radio: Radio) -> (WatchView, Option<Seq<char>>, StepOutcome) {
    let block = match w.5 {
        Some(u) => if now >= u {
            None
        } else {
            Some(u)
        },
        None => None,
    };
    let stalled = match w.2 {
        Some(l) => now >= l && now - l >= WATCHDOG_STALL_TIMEOUT_SECS,
        None => false,
    };
    let until = Some(sat_add_u64(now, WATCHDOG_RESTART_GRACE_SECS));
    if !(stalled && block is None) {
        ((w.0, w.1, w.2, w.3, w.4, block), None, StepOutcome::Quiet)
    } else if w.4 >= WATCHDOG_MAX_CONSECUTIVE_RESTARTS {
        (
            (
                InterfaceHealthState::Error,
                "restart limit reached; waiting for manual action"@,
                w.2,
                w.3,
                w.4,
                until,
            ),
            if w.0 == InterfaceHealthState::Error {
                None
            } else {
                Some(limit_message(radio))
            },
            StepOutcome::Changed,
        )
    } else {
        (
            (
                InterfaceHealthState::Restarting,
                restarting_detail(radio),
                Some(now),
                if w.3 < u32::MAX {
                    (w.3 + 1) as u32
                } else {
                    u32::MAX
                },
                (w.4 + 1) as u8,
                until,
            ),
            Some(restart_message(radio)),
            StepOutcome::Restart,
        )
    }
}

fn push_radio_text(out: &mut Vec<char>, radio: Radio, wifi: &str, bluetooth: &str)
    ensures
        final(out)@ == old(out)@ + (match radio {
            Radio::Wifi => wifi@,
            Radio::Bluetooth => bluetooth@,
        }),
{
    match radio {
        Radio::Wifi => push_str(out, wifi),
        Radio::Bluetooth => push_str(out, bluetooth),
    }
}

fn radio_text(radio: Radio, wifi: &str, bluetooth: &str) -> (r: String)
    ensures
        r@ == (match radio {
            Radio::Wifi => wifi@,
            Radio::Bluetooth => bluetooth@,
        }),
{
    let mut out: Vec<char> = Vec::new();
    push_radio_text(&mut out, radio, wifi, bluetooth);
    assert(out@ =~= Seq::<char>::empty() + (match radio {
        Radio::Wifi => wifi@,
        Radio::Bluetooth => bluetooth@,
    }));
    string_from_chars(out.as_slice())
}

/// Checks a running radio at `now` (see `watch_step`). Answers the outcome
/// and the status message to show.
pub fn check_radio(w: &mut RadioWatch, now: u64, radio: Radio) -> (r: (StepOutcome, Option<String>))
    ensures
        ({
            let s = watch_step(watch_view(*old(w)), now, radio);
            &&& watch_view(*final(w)) == s.0
            &&& r.0 == s.2
            &&& match r.1 {
                Some(m) => s.1 == Some(m@),
                None => s.1 is None,
            }
        }),
{
    if let Some(u) = w.block_until {
        if now >= u {
            w.block_until = None;
        }
    }
    let stalled = match w.last_data_at {
        Some(l) => now >= l && now - l >= WATCHDOG_STALL_TIMEOUT_SECS,
        None => false,
    };
    if !(stalled && w.block_until.is_none()) {
        return (StepOutcome::Quiet, None);
    }
    let until = now.saturating_add(WATCHDOG_RESTART_GRACE_SECS);
    if w.consecutive_restarts >= WATCHDOG_MAX_CONSECUTIVE_RESTARTS {
        let was_error = w.health == InterfaceHealthState::Error;
        w.health = InterfaceHealthState::Error;
        w.detail = String::from_str("restart limit reached; waiting for manual action");
        w.block_until = Some(until);
        let msg = if was_error {
            None
        } else {
            Some(
                radio_text(
                    radio,
                    "Wi-Fi watchdog reached restart limit; manual restart required",
                    "Bluetooth watchdog reached restart limit; manual restart required",
                ),
            )
        };
        (StepOutcome::Changed, msg)
    } else {
        w.consecutive_restarts = w.consecutive_restarts + 1;
        w.restart_count = w.restart_count.saturating_add(1);
        w.block_until = Some(until);
        w.last_data_at = Some(now);
        w.health = InterfaceHealthState::Restarting;
        w.detail = radio_text(
            radio,
            "watchdog restarting Wi-Fi capture",
            "watchdog restarting Bluetooth scan",
        );
        let msg = radio_text(
            radio,
            "Wi-Fi watchdog: stalled capture detected; restarting Wi-Fi scan",
            "Bluetooth watchdog: stalled scan detected; restarting Bluetooth scan",
        );
        (StepOutcome::Restart, Some(msg))
    }
}

/// The watchdog's view of both radios and the status lines it writes to.
pub struct ScanWatchdog {
    pub wifi: RadioWatch,
    pub bluetooth: RadioWatch,
    pub status_lines: Vec<String>,
}

/// Adds a status line, keeping the last `MAX_STATUS_LINES`.
pub fn push_status(wd: &mut ScanWatchdog, message: String)
    ensures
        final(wd).status_lines@ == keep_last(
            old(wd).status_lines@.push(message),
            MAX_STATUS_LINES as nat,
        ),
        watch_view(final(wd).wifi) == watch_view(old(wd).wifi),
        watch_view(final(wd).bluetooth) == watch_view(old(wd).bluetooth),
{
    wd.status_lines.push(message);
    let n = wd.status_lines.len();
    if n > MAX_STATUS_LINES {
        let kept = wd.status_lines.split_off(n - MAX_STATUS_LINES);
        wd.status_lines = kept;
    }
}

/// What a watchdog pass decided.
#[derive(Debug, Clone, Copy, PartialEq, Eq, Structural)]
pub struct WatchdogDecision {
    /// The status display must be refreshed.
    pub changed: bool,
    pub restart_wifi: bool,
    pub restart_bluetooth: bool,
}

/// The status lines after `msg`, if any, was added.
pub open spec fn status_after(lines: Seq<Seq<char>>, msg: Option<Seq<char>>) -> Seq<Seq<char>> {
    match msg {
        Some(m) => keep_last(lines.push(m), MAX_STATUS_LINES as nat),
        None => lines,
    }
}

fn push_optional_status(wd: &mut ScanWatchdog, msg: Option<String>)
    ensures
        string_seqs(final(wd).status_lines@) == status_after(
            string_seqs(old(wd).status_lines@),
            match msg {
                Some(m) => Some(m@),
                None => None,
            },
        ),
        watch_view(final(wd).wifi) == watch_view(old(wd).wifi),
        watch_view(final(wd).bluetooth) == watch_view(old(wd).bluetooth),
{
    if let Some(m) = msg {
        let ghost before = wd.status_lines@;
        push_status(wd, m);
        assert(string_seqs(wd.status_lines@) =~= keep_last(
            string_seqs(before).push(m@),
            MAX_STATUS_LINES as nat,
        ));
    }
}

/// One watchdog pass at `now`. Nothing happens while a scan is starting or
/// stopping (`busy`). The Wi-Fi radio is checked when its capture runs with
/// an interface enabled; a Wi-Fi restart ends the pass. Then the Bluetooth
/// radio is checked when its scan runs and is enabled.
pub fn maybe_run_scan_watchdog(
    wd: &mut ScanWatchdog,
    busy: bool,
    wifi_active: bool,
    bluetooth_active: bool,
    now: u64,
) -> (r: WatchdogDecision)
    ensures
        ({
            let ws = watch_step(watch_view(old(wd).wifi), now, Radio::Wifi);
            let lines0 = string_seqs(old(wd).status_lines@);
            let wifi_checked = !busy && wifi_active;
            let wifi_view = if wifi_checked {
                ws.0
            } else {
                watch_view(old(wd).wifi)
            };
            let lines1 = if wifi_checked {
                status_after(lines0, ws.1)
            } else {
                lines0
            };
            let wifi_restart = wifi_checked && ws.2 == StepOutcome::Restart;
            let wifi_changed = wifi_checked && ws.2 == StepOutcome::Changed;
            let bs = watch_step(watch_view(old(wd).bluetooth), now, Radio::Bluetooth);
            let bt_checked = !busy && !wifi_restart && bluetooth_active;
            &&& watch_view(final(wd).wifi) == wifi_view
            &&& watch_view(final(wd).bluetooth) == if bt_checked {
                bs.0
            } else {
                watch_view(old(wd).bluetooth)
            }
            &&& string_seqs(final(wd).status_lines@) == if bt_checked {
                status_after(lines1, bs.1)
            } else {
                lines1
            }
            &&& r.restart_wifi == wifi_restart
            &&& r.restart_bluetooth == (bt_checked && bs.2 == StepOutcome::Restart)
            &&& r.changed == (wifi_restart || wifi_changed || (bt_checked && bs.2
                != StepOutcome::Quiet))
        }),
{
    if busy {
        return WatchdogDecision { changed: false, restart_wifi: false, restart_bluetooth: false };
    }
    let mut changed = false;
    if wifi_active {
        let (outcome, msg) = check_radio(&mut wd.wifi, now, Radio::Wifi);
        push_optional_status(wd, msg);
        if outcome == StepOutcome::Restart {
            return WatchdogDecision { changed: true, restart_wifi: true, restart_bluetooth: false };
        }
        if outcome == StepOutcome::Changed {
            changed = true;
        }
    }
    if bluetooth_active {
        let (outcome, msg) = check_radio(&mut wd.bluetooth, now, Radio::Bluetooth);
        push_optional_status(wd, msg);
        if outcome == StepOutcome::Restart {
            return WatchdogDecision { changed: true, restart_wifi: false, restart_bluetooth: true };
        }
        if outcome == StepOutcome::Changed {
            changed = true;
        }
    }
    WatchdogDecision { changed, restart_wifi: false, restart_bluetooth: false }
}


/// The watchdog never restarts a radio more than
/// `WATCHDOG_MAX_CONSECUTIVE_RESTARTS` times in a row.
pub proof fn lemma_restart_streak_bounded(w: WatchView, now: u64, radio: Radio)
    requires
        w.4 <= WATCHDOG_MAX_CONSECUTIVE_RESTARTS,
    ensures
        watch_step(w, now, radio).0.4 <= WATCHDOG_MAX_CONSECUTIVE_RESTARTS,
        watch_step(w, now, radio).2 == StepOutcome::Restart ==> w.4 < WATCHDOG_MAX_CONSECUTIVE_RESTARTS,
{
}

/// After acting on a radio the watchdog leaves it alone for the grace
/// period: a check before it ends does nothing.
pub proof fn lemma_grace_period(w: WatchView, now: u64, later: u64, radio: Radio)
    requires
        watch_step(w, now, radio).2 != StepOutcome::Quiet,
        now <= later,
        later < now + WATCHDOG_RESTART_GRACE_SECS,
        now + WATCHDOG_RESTART_GRACE_SECS <= u64::MAX,
    ensures
        watch_step(watch_step(w, now, radio).0, later, radio).2 == StepOutcome::Quiet,
{
}

/// Data arriving ends a stall: right after `note_activity` a check does
/// nothing.
pub proof fn lemma_activity_quiets(detail: Seq<char>, restarts: u32, now: u64, radio: Radio)
    ensures
        watch_step(
            (InterfaceHealthState::Active, detail, Some(now), restarts, 0u8, None),
            now,
            radio,
        ).2 == StepOutcome::Quiet,
{
}

} // verus!
