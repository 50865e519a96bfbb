//! What the web UI's requests do to the live state: choosing the capture
//! interface, editing the watchlist, locking onto an access point, active
//! Bluetooth enumeration, and the decisions taken when scans start.
//!
//! Saving the settings to disk, starting and stopping the capture runtimes and
//! talking to the interfaces are left to the caller; each function here says
//! what it decided.

use vstd::prelude::*;
use crate::http::opt_view;
use crate::records::{first_key, lemma_first_key, ap_keys, bluetooth_keys, find_ap, BluetoothDeviceRecord};
use crate::settings::{
    choose_interface, choose_interface_exec, default_channel_mode, ifaces_view, ChannelModeView,
    ChannelSelectionMode, table_view, InterfaceView, WatchlistDeviceType, WatchlistEntry,
    DEFAULT_HOP_DWELL_MS, InterfaceSettings, AppSettings, copy_mode, first_enabled,
    lemma_first_enabled, find_enabled,
};
use crate::text::{
    trim, trim_str, str_eq, str_chars, eq_ignore_case, eq_ignore_case_chars, has_prefix, has_prefix_chars, to_uppercase, unicode_upper, push_str, push_decimal, decimal,
    string_from_chars, string_seqs,
};
use crate::web_state::{
    push_log, keep_last, same_runtime, same_wifi, same_bluetooth, same_but_logs, upsert,
    status_keys, WebState, BtStatusEntry, BtEnumerationStatus, MAX_LOG_LINES, upsert_status,
    upsert_bluetooth, clear_live_scan_state, push_logs, upsert_restore, restore_keys, RestoreType,
};
use crate::scan_setup::{apply_scan_setup, trimmed_or, controller_choice, ScanSetupRequest};

verus! {

/// Why a request was refused.
#[derive(Debug, Clone, Copy, PartialEq, Eq, Structural)]
pub enum RequestError {
    MissingInterface,
    MissingLabel,
    WatchlistIndexOutOfRange,
    MissingBssid,
    ApNotFound,
    NoInterfaceConfigured,
    ConfirmationRequired,
    MissingMac,
}

impl RequestError {
    /// The HTTP status the refusal is answered with.
    pub fn status_code(&self) -> (r: u16)
        ensures
            r == (if *self == RequestError::ApNotFound {
                404u16
            } else {
                400u16
            }),
    {
        match self {
            RequestError::ApNotFound => 404,
            _ => 400,
        }
    }

    /// The reason phrase that goes with `status_code`.
    pub fn reason(&self) -> (r: &'static str)
        ensures
            r@ == (if *self == RequestError::ApNotFound {
                "Not Found"@
            } else {
                "Bad Request"@
            }),
    {
        match self {
            RequestError::ApNotFound => "Not Found",
            _ => "Bad Request",
        }
    }

    /// The plain-text body of the refusal.
    pub fn message(&self) -> (r: &'static str)
        ensures
            r@ == request_error_text(*self),
    {
        match self {
            RequestError::MissingInterface => "missing interface",
            RequestError::MissingLabel => "watchlist label is required",
            RequestError::WatchlistIndexOutOfRange => "watchlist index out of range",
            RequestError::MissingBssid => "missing bssid",
            RequestError::ApNotFound => "ap not found",
            RequestError::NoInterfaceConfigured => "no interface configured",
            RequestError::ConfirmationRequired => "active bluetooth enumeration requires explicit confirmation",
            RequestError::MissingMac => "missing mac",
        }
    }
}

pub open spec fn request_error_text(e: RequestError) -> Seq<char> {
    match e {
        RequestError::MissingInterface => "missing interface"@,
        RequestError::MissingLabel => "watchlist label is required"@,
        RequestError::WatchlistIndexOutOfRange => "watchlist index out of range"@,
        RequestError::MissingBssid => "missing bssid"@,
        RequestError::ApNotFound => "ap not found"@,
        RequestError::NoInterfaceConfigured => "no interface configured"@,
        RequestError::ConfirmationRequired => "active bluetooth enumeration requires explicit confirmation"@,
        RequestError::MissingMac => "missing mac"@,
    }
}

/// The log after `line` was appended.
pub open spec fn logged(logs: Seq<String>, line: Seq<char>) -> Seq<Seq<char>> {
    keep_last(string_seqs(logs).push(line), MAX_LOG_LINES as nat)
}

/// `a` and `b` agree on the settings other than the interfaces, and on the
/// interface types to restore.
pub open spec fn other_settings_kept(a: WebState, b: WebState) -> bool {
    &&& a.settings.bluetooth_enabled == b.settings.bluetooth_enabled
    &&& a.settings.bluetooth_controller == b.settings.bluetooth_controller
    &&& a.settings.wifi_export_enabled == b.settings.wifi_export_enabled
    &&& a.settings.wifi_export_dir == b.settings.wifi_export_dir
    &&& a.settings.bluetooth_export_enabled == b.settings.bluetooth_export_enabled
    &&& a.settings.bluetooth_export_dir == b.settings.bluetooth_export_dir
    &&& a.settings.watchlists == b.settings.watchlists
    &&& a.wifi_interface_restore_types@ == b.wifi_interface_restore_types@
}

/// `a` and `b` agree on the settings other than the watchlist entries, and
/// on the interface types to restore.
pub open spec fn settings_kept_but_entries(a: WebState, b: WebState) -> bool {
    &&& a.settings.interfaces == b.settings.interfaces
    &&& a.settings.bluetooth_enabled == b.settings.bluetooth_enabled
    &&& a.settings.bluetooth_controller == b.settings.bluetooth_controller
    &&& a.settings.wifi_export_enabled == b.settings.wifi_export_enabled
    &&& a.settings.wifi_export_dir == b.settings.wifi_export_dir
    &&& a.settings.bluetooth_export_enabled == b.settings.bluetooth_export_enabled
    &&& a.settings.bluetooth_export_dir == b.settings.bluetooth_export_dir
    &&& a.settings.watchlists.networks == b.settings.watchlists.networks
    &&& a.settings.watchlists.devices == b.settings.watchlists.devices
    &&& a.wifi_interface_restore_types@ == b.wifi_interface_restore_types@
}

/// `push_log` with its effect stated over the characters of the line.
fn log_line(state: &mut WebState, line: String)
    ensures
        string_seqs(final(state).logs@) == logged(old(state).logs@, line@),
        final(state).logs@ == keep_last(old(state).logs@.push(line), MAX_LOG_LINES as nat),
        same_but_logs(*final(state), *old(state)),
{
    let ghost before = state.logs@;
    push_log(state, line);
    assert(string_seqs(state.logs@) =~= logged(before, line@));
}

/// The channel mode of an interface that had none: hop over 1, 6 and 11
/// every 200 ms with HT20.
pub open spec fn default_mode_view() -> ChannelModeView {
    ChannelModeView::HopAll {
        channels: seq![1u16, 6u16, 11u16],
        dwell_ms: DEFAULT_HOP_DWELL_MS,
        ht_mode: "HT20"@,
        channel_ht_modes: Seq::empty(),
    }
}

fn default_mode() -> (r: ChannelSelectionMode)
    ensures
        r@ == default_mode_view(),
{
    let m = default_channel_mode();
    proof {
        if let ChannelSelectionMode::HopAll { channel_ht_modes, .. } = &m {
            assert(table_view(channel_ht_modes@) =~= Seq::<(u16, Seq<Seq<char>>)>::empty());
        }
    }
    m
}

/// Selects `requested` (trimmed) as the only capture interface, creating it
/// with the default channel mode when it is not configured yet. Answers
/// whether the running capture must be restarted to use it.
pub fn select_interface(state: &mut WebState, requested: &str) -> (r: Result<bool, RequestError>)
    ensures
        trim(requested@).len() == 0 <==> r == Err::<bool, RequestError>(
            RequestError::MissingInterface,
        ),
        r is Err ==> *final(state) == *old(state),
        r is Ok ==> {
            &&& r == Ok::<bool, RequestError>(old(state).wifi_running)
            &&& ifaces_view(final(state).settings.interfaces@) == choose_interface(
                ifaces_view(old(state).settings.interfaces@),
                trim(requested@),
                true,
                None,
                default_mode_view(),
            )
            &&& string_seqs(final(state).logs@) == logged(
                old(state).logs@,
                "selected scan interface set to "@ + trim(requested@),
            )
            &&& final(state).wifi_running == old(state).wifi_running
            &&& final(state).bluetooth_running == old(state).bluetooth_running
            &&& same_wifi(*final(state), *old(state))
            &&& same_bluetooth(*final(state), *old(state))
            &&& other_settings_kept(*final(state), *old(state))
        },
        old(state).wf() ==> final(state).wf(),
{
    let name = trim_str(requested);
    if name.as_str().is_empty() {
        return Err(RequestError::MissingInterface);
    }
    let none: Option<ChannelSelectionMode> = None;
    choose_interface_exec(&mut state.settings.interfaces, &name, true, &none, default_mode());
    let mut line: Vec<char> = Vec::new();
    push_str(&mut line, "selected scan interface set to ");
    push_str(&mut line, name.as_str());
    log_line(state, string_from_chars(line.as_slice()));
    Ok(state.wifi_running)
}

/// A watchlist entry submitted from the web UI.
pub struct WatchlistAddRequest {
    pub label: String,
    pub description: Option<String>,
    pub name: Option<String>,
    pub mac_or_bssid: Option<String>,
    pub oui: Option<String>,
    pub device_type: Option<String>,
}

/// The colour given to entries added from the web UI.
pub open spec fn web_entry_color() -> Seq<char> {
    "#f59e0b"@
}

pub open spec fn or_empty(o: Option<Seq<char>>) -> Seq<char> {
    match o {
        Some(s) => s,
        None => Seq::empty(),
    }
}

/// The label of a new entry: the trimmed label, followed by ` - ` and the
/// trimmed description when there is one.
pub open spec fn entry_label(label: Seq<char>, description: Option<Seq<char>>) -> Seq<char> {
    match description {
        Some(d) => if trim(d).len() > 0 {
            trim(label) + " - "@ + trim(d)
        } else {
            trim(label)
        },
        None => trim(label),
    }
}

/// The address of a new entry: the upper-cased OUI prefix when one is given,
/// else the upper-cased MAC or BSSID.
pub open spec fn entry_mac(mac: Option<Seq<char>>, oui: Option<Seq<char>>) -> Seq<char> {
    let o = unicode_upper(trim(or_empty(oui)));
    if o.len() > 0 {
        o
    } else {
        unicode_upper(trim(or_empty(mac)))
    }
}

pub open spec fn entry_type(device_type: Option<Seq<char>>) -> WatchlistDeviceType {
    if device_type == Some("bluetooth"@) {
        WatchlistDeviceType::Bluetooth
    } else {
        WatchlistDeviceType::Wifi
    }
}

fn or_empty_str(o: &Option<String>) -> (r: &str)
    ensures
        r@ == or_empty(opt_view(*o)),
{
    match o {
        Some(s) => s.as_str(),
        None => {
            proof {
                reveal_strlit("");
            }
            ""
        },
    }
}

/// Adds the submitted entry to the watchlist.
pub fn add_watchlist_entry(state: &mut WebState, req: &WatchlistAddRequest) -> (r: Result<(), RequestError>)
    ensures
        trim(req.label@).len() == 0 <==> r is Err,
        r is Err ==> r == Err::<(), RequestError>(RequestError::MissingLabel) && *final(state)
            == *old(state),
        r is Ok ==> {
            let e = final(state).settings.watchlists.entries@.last();
            &&& final(state).settings.watchlists.entries@.drop_last()
                == old(state).settings.watchlists.entries@
            &&& final(state).settings.watchlists.entries@.len() > 0
            &&& e.label@ == entry_label(req.label@, opt_view(req.description))
            &&& e.device_type == entry_type(opt_view(req.device_type))
            &&& e.mac@ == entry_mac(opt_view(req.mac_or_bssid), opt_view(req.oui))
            &&& e.name@ == trim(or_empty(opt_view(req.name)))
            &&& e.color_hex@ == web_entry_color()
            &&& settings_kept_but_entries(*final(state), *old(state))
            &&& string_seqs(final(state).logs@) == logged(
                old(state).logs@,
                "watchlist entry added"@,
            )
            &&& final(state).wifi_running == old(state).wifi_running
            &&& final(state).bluetooth_running == old(state).bluetooth_running
            &&& same_wifi(*final(state), *old(state))
            &&& same_bluetooth(*final(state), *old(state))
        },
        old(state).wf() ==> final(state).wf(),
{
    let label = trim_str(req.label.as_str());
    if label.as_str().is_empty() {
        return Err(RequestError::MissingLabel);
    }
    let device_type = match &req.device_type {
        Some(t) => if str_eq(t.as_str(), "bluetooth") {
            WatchlistDeviceType::Bluetooth
        } else {
            WatchlistDeviceType::Wifi
        },
        None => WatchlistDeviceType::Wifi,
    };
    proof {
        reveal_strlit("bluetooth");
    }
    let oui = to_uppercase(trim_str(or_empty_str(&req.oui)).as_str());
    let mac = if !oui.as_str().is_empty() {
        oui
    } else {
        to_uppercase(trim_str(or_empty_str(&req.mac_or_bssid)).as_str())
    };
    let name = trim_str(or_empty_str(&req.name));
    let full_label = match &req.description {
        Some(d) => {
            let dt = trim_str(d.as_str());
            if !dt.as_str().is_empty() {
                let mut v: Vec<char> = Vec::new();
                push_str(&mut v, label.as_str());
                push_str(&mut v, " - ");
                push_str(&mut v, dt.as_str());
                string_from_chars(v.as_slice())
            } else {
                label
            }
        },
        None => label,
    };
    let entry = WatchlistEntry {
        label: full_label,
        device_type,
        mac,
        name,
        color_hex: String::from_str("#f59e0b"),
    };
    let ghost before = state.settings.watchlists.entries@;
    state.settings.watchlists.entries.push(entry);
    assert(state.settings.watchlists.entries@.drop_last() =~= before);
    log_line(state, String::from_str("watchlist entry added"));
    Ok(())
}

/// Removes watchlist entry `index`.
pub fn delete_watchlist_entry(state: &mut WebState, index: usize) -> (r: Result<(), RequestError>)
    ensures
        index < old(state).settings.watchlists.entries@.len() <==> r is Ok,
        r is Err ==> r == Err::<(), RequestError>(RequestError::WatchlistIndexOutOfRange)
            && *final(state) == *old(state),
        r is Ok ==> {
            &&& final(state).settings.watchlists.entries@
                == old(state).settings.watchlists.entries@.remove(index as int)
            &&& settings_kept_but_entries(*final(state), *old(state))
            &&& string_seqs(final(state).logs@) == logged(
                old(state).logs@,
                "watchlist entry removed"@,
            )
            &&& final(state).wifi_running == old(state).wifi_running
            &&& final(state).bluetooth_running == old(state).bluetooth_running
            &&& same_wifi(*final(state), *old(state))
            &&& same_bluetooth(*final(state), *old(state))
        },
        old(state).wf() ==> final(state).wf(),
{
    if index < state.settings.watchlists.entries.len() {
        let _removed = state.settings.watchlists.entries.remove(index);
        log_line(state, String::from_str("watchlist entry removed"));
        Ok(())
    } else {
        Err(RequestError::WatchlistIndexOutOfRange)
    }
}


/// `iface` locked to `channel` with HT20.
pub open spec fn locked_to(iface: InterfaceView, channel: u16) -> InterfaceView {
    InterfaceView { channel_mode: ChannelModeView::Locked { channel, ht_mode: "HT20"@ }, ..iface }
}

/// The interfaces after locking onto `channel`: the first enabled interface
/// is locked to it; when none is enabled the first interface is enabled and
/// locked.
pub open spec fn lock_interfaces(ifaces: Seq<InterfaceSettings>, channel: u16) -> Seq<InterfaceView> {
    let v = ifaces_view(ifaces);
    match first_enabled(ifaces) {
        Some(k) => v.update(k, locked_to(v[k], channel)),
        None => v.update(0, InterfaceView { enabled: true, ..locked_to(v[0], channel) }),
    }
}

/// Locks the capture interface onto the channel of access point `bssid`
/// (trimmed; channel 1 when the access point's channel is unknown). Answers
/// the channel and whether the running capture must be restarted.
pub fn lock_to_ap(state: &mut WebState, bssid: &str) -> (r: Result<(u16, bool), RequestError>)
    ensures
        ({
            let b = trim(bssid@);
            let found = first_key(ap_keys(old(state).access_points@), b);
            &&& (b.len() == 0 <==> r == Err::<(u16, bool), RequestError>(
                RequestError::MissingBssid,
            ))
            &&& (b.len() > 0 && found is None <==> r == Err::<(u16, bool), RequestError>(
                RequestError::ApNotFound,
            ))
            &&& (b.len() > 0 && found is Some && old(state).settings.interfaces@.len() == 0
                <==> r == Err::<(u16, bool), RequestError>(RequestError::NoInterfaceConfigured))
            &&& (r is Err ==> *final(state) == *old(state))
            &&& (r is Ok ==> {
                let ap = old(state).access_points@[found->0];
                let channel = match ap.channel {
                    Some(c) => c,
                    None => 1u16,
                };
                &&& r == Ok::<(u16, bool), RequestError>((channel, old(state).wifi_running))
                &&& ifaces_view(final(state).settings.interfaces@) == lock_interfaces(
                    old(state).settings.interfaces@,
                    channel,
                )
                &&& string_seqs(final(state).logs@) == logged(
                    old(state).logs@,
                    "locked selected interface to AP "@ + b + " channel "@ + decimal(
                        channel as nat,
                    ),
                )
                &&& final(state).wifi_running == old(state).wifi_running
                &&& final(state).bluetooth_running == old(state).bluetooth_running
                &&& same_wifi(*final(state), *old(state))
                &&& same_bluetooth(*final(state), *old(state))
                &&& other_settings_kept(*final(state), *old(state))
            })
        }),
        old(state).wf() ==> final(state).wf(),
{
    let b = trim_str(bssid);
    if b.as_str().is_empty() {
        return Err(RequestError::MissingBssid);
    }
    proof {
        lemma_first_key(ap_keys(state.access_points@), b@);
    }
    let idx = match find_ap(&state.access_points, b.as_str()) {
        Some(i) => i,
        None => {
            return Err(RequestError::ApNotFound);
        },
    };
    let channel: u16 = match state.access_points[idx].channel {
        Some(c) => c,
        None => 1,
    };
    if state.settings.interfaces.len() == 0 {
        return Err(RequestError::NoInterfaceConfigured);
    }
    let ghost v = ifaces_view(state.settings.interfaces@);
    proof {
        lemma_first_enabled(state.settings.interfaces@);
    }
    let k = match find_enabled(state.settings.interfaces.as_slice()) {
        Some(k) => k,
        None => 0,
    };
    let mut iface = state.settings.interfaces.remove(k);
    iface.enabled = true;
    iface.channel_mode = ChannelSelectionMode::Locked { channel, ht_mode: String::from_str("HT20") };
    state.settings.interfaces.insert(k, iface);
    assert(ifaces_view(state.settings.interfaces@) =~= lock_interfaces(
        old(state).settings.interfaces@,
        channel,
    ));
    let mut line: Vec<char> = Vec::new();
    push_str(&mut line, "locked selected interface to AP ");
    push_str(&mut line, b.as_str());
    push_str(&mut line, " channel ");
    push_decimal(&mut line, channel as u64);
    log_line(state, string_from_chars(line.as_slice()));
    Ok((channel, state.wifi_running))
}

/// The enumeration status entry for `mac`.
pub open spec fn status_entry(mac: Seq<char>, message: Seq<char>, is_error: bool) -> (Seq<char>, Seq<char>, bool) {
    (mac, message, is_error)
}

pub open spec fn status_views(s: Seq<BtStatusEntry>) -> Seq<(Seq<char>, Seq<char>, bool)> {
    s.map_values(|e: BtStatusEntry| (e.mac@, e.status.message@, e.status.is_error))
}

/// The enumeration results after `(mac, message, is_error)` was recorded.
pub open spec fn status_after(s: Seq<BtStatusEntry>, mac: Seq<char>, message: Seq<char>, is_error: bool) -> Seq<(Seq<char>, Seq<char>, bool)> {
    upsert(status_views(s), status_keys(s), mac, (mac, message, is_error))
}

fn record_status(state: &mut WebState, mac: String, message: String, is_error: bool)
    requires
        old(state).wf(),
    ensures
        final(state).wf(),
        status_views(final(state).bt_enumeration_status@) == status_after(
            old(state).bt_enumeration_status@,
            mac@,
            message@,
            is_error,
        ),
        same_runtime(*final(state), *old(state)),
        same_wifi(*final(state), *old(state)),
        final(state).bluetooth_devices@ == old(state).bluetooth_devices@,
        final(state).logs@ == old(state).logs@,
{
    let ghost before = state.bt_enumeration_status@;
    let entry = BtStatusEntry { mac, status: BtEnumerationStatus { message, is_error } };
    let ghost e = entry;
    upsert_status(&mut state.bt_enumeration_status, entry);
    proof {
        lemma_first_key(status_keys(before), e.mac@);
        assert(status_views(state.bt_enumeration_status@) =~= status_after(
            before,
            e.mac@,
            e.status.message@,
            e.status.is_error,
        ));
    }
}

/// Starts an active enumeration of `mac` (trimmed, upper-cased), which must
/// be confirmed: its status becomes "enumeration running". Answers the
/// normalised MAC for the caller to enumerate.
pub fn begin_bluetooth_enumeration(state: &mut WebState, mac: &str, confirm_active: Option<bool>) -> (r: Result<String, RequestError>)
    requires
        old(state).wf(),
    ensures
        final(state).wf(),
        confirm_active != Some(true) <==> r == Err::<String, RequestError>(
            RequestError::ConfirmationRequired,
        ),
        confirm_active == Some(true) && unicode_upper(trim(mac@)).len() == 0 <==> r
            == Err::<String, RequestError>(RequestError::MissingMac),
        r is Err ==> *final(state) == *old(state),
        r is Ok ==> {
            let m = unicode_upper(trim(mac@));
            &&& r->Ok_0@ == m
            &&& status_views(final(state).bt_enumeration_status@) == status_after(
                old(state).bt_enumeration_status@,
                m,
                "enumeration running"@,
                false,
            )
            &&& same_runtime(*final(state), *old(state))
            &&& same_wifi(*final(state), *old(state))
            &&& final(state).bluetooth_devices@ == old(state).bluetooth_devices@
            &&& final(state).logs@ == old(state).logs@
        },
{
    let confirmed = match confirm_active {
        Some(c) => c,
        None => false,
    };
    if !confirmed {
        return Err(RequestError::ConfirmationRequired);
    }
    let m = to_uppercase(trim_str(mac).as_str());
    if m.as_str().is_empty() {
        return Err(RequestError::MissingMac);
    }
    record_status(state, m.clone(), String::from_str("enumeration running"), false);
    Ok(m)
}

/// Records how the active enumeration of `mac` ended: on success the device
/// record read back replaces the stored one and the status becomes
/// "enumeration completed"; on failure the status holds the error.
pub fn finish_bluetooth_enumeration(state: &mut WebState, mac: String, outcome: Result<BluetoothDeviceRecord, String>)
    requires
        old(state).wf(),
    ensures
        final(state).wf(),
        same_runtime(*final(state), *old(state)),
        same_wifi(*final(state), *old(state)),
        match outcome {
            Ok(record) => {
                &&& final(state).bluetooth_devices@ == upsert(
                    old(state).bluetooth_devices@,
                    bluetooth_keys(old(state).bluetooth_devices@),
                    record.mac@,
                    record,
                )
                &&& status_views(final(state).bt_enumeration_status@) == status_after(
                    old(state).bt_enumeration_status@,
                    mac@,
                    "enumeration completed"@,
                    false,
                )
                &&& string_seqs(final(state).logs@) == logged(
                    old(state).logs@,
                    "active bluetooth enumeration completed for "@ + mac@,
                )
            },
            Err(msg) => {
                &&& final(state).bluetooth_devices@ == old(state).bluetooth_devices@
                &&& status_views(final(state).bt_enumeration_status@) == status_after(
                    old(state).bt_enumeration_status@,
                    mac@,
                    msg@,
                    true,
                )
                &&& string_seqs(final(state).logs@) == logged(
                    old(state).logs@,
                    "active bluetooth enumeration failed for "@ + mac@ + ": "@ + msg@,
                )
            },
        },
{
    match outcome {
        Ok(record) => {
            upsert_bluetooth(&mut state.bluetooth_devices, record);
            let mut line: Vec<char> = Vec::new();
            push_str(&mut line, "active bluetooth enumeration completed for ");
            push_str(&mut line, mac.as_str());
            record_status(state, mac, String::from_str("enumeration completed"), false);
            log_line(state, string_from_chars(line.as_slice()));
        },
        Err(msg) => {
            let mut line: Vec<char> = Vec::new();
            push_str(&mut line, "active bluetooth enumeration failed for ");
            push_str(&mut line, mac.as_str());
            push_str(&mut line, ": ");
            push_str(&mut line, msg.as_str());
            record_status(state, mac, msg, true);
            log_line(state, string_from_chars(line.as_slice()));
        },
    }
}


/// What to do with the two radios when scans are requested.
#[derive(Debug, Clone, Copy, PartialEq, Eq, Structural)]
pub struct ScanStartPlan {
    pub stop_wifi: bool,
    pub stop_bluetooth: bool,
    /// List, prepare and start the capture interfaces (see
    /// `select_capture_interfaces`).
    pub start_wifi: bool,
    pub start_bluetooth: bool,
}

/// Decides what starting scans with the given radios takes. With neither
/// radio the running ones are stopped (and `log_no_radios` follows). Else a
/// start from nothing begins from a clean live state; each radio is started
/// when wanted and idle, or stopped when unwanted and running.
pub fn begin_scan_start(state: &mut WebState, wifi_enabled: bool, bluetooth_enabled: bool) -> (plan: ScanStartPlan)
    requires
        old(state).wf(),
    ensures
        final(state).wf(),
        !wifi_enabled && !bluetooth_enabled ==> {
            &&& plan == ScanStartPlan {
                stop_wifi: old(state).wifi_running,
                stop_bluetooth: old(state).bluetooth_running,
                start_wifi: false,
                start_bluetooth: false,
            }
            &&& *final(state) == *old(state)
        },
        wifi_enabled || bluetooth_enabled ==> {
            &&& plan == ScanStartPlan {
                stop_wifi: !wifi_enabled && old(state).wifi_running,
                stop_bluetooth: !bluetooth_enabled && old(state).bluetooth_running,
                start_wifi: wifi_enabled && !old(state).wifi_running,
                start_bluetooth: bluetooth_enabled && !old(state).bluetooth_running,
            }
            &&& (old(state).wifi_running || old(state).bluetooth_running) ==> *final(state)
                == *old(state)
            &&& (!old(state).wifi_running && !old(state).bluetooth_running) ==> {
                &&& final(state).access_points@.len() == 0
                &&& final(state).clients@.len() == 0
                &&& final(state).bluetooth_devices@.len() == 0
                &&& final(state).channel_usage@.len() == 0
                &&& final(state).bt_enumeration_status@.len() == 0
                &&& same_runtime(*final(state), *old(state))
                &&& string_seqs(final(state).logs@) == logged(
                    old(state).logs@,
                    "cleared previous scan state"@,
                )
            }
        },
{
    let wifi_running = state.wifi_running;
    let bluetooth_running = state.bluetooth_running;
    if !wifi_enabled && !bluetooth_enabled {
        return ScanStartPlan {
            stop_wifi: wifi_running,
            stop_bluetooth: bluetooth_running,
            start_wifi: false,
            start_bluetooth: false,
        };
    }
    if !wifi_running && !bluetooth_running {
        clear_live_scan_state(state);
        log_line(state, String::from_str("cleared previous scan state"));
    }
    ScanStartPlan {
        stop_wifi: !wifi_enabled && wifi_running,
        stop_bluetooth: !bluetooth_enabled && bluetooth_running,
        start_wifi: wifi_enabled && !wifi_running,
        start_bluetooth: bluetooth_enabled && !bluetooth_running,
    }
}

/// Logs that no radio was chosen (after the running ones were stopped).
pub fn log_no_radios(state: &mut WebState)
    ensures
        string_seqs(final(state).logs@) == logged(
            old(state).logs@,
            "No scan radios enabled. Enable Wi-Fi and/or Bluetooth in Scan Setup."@,
        ),
        same_but_logs(*final(state), *old(state)),
        old(state).wf() ==> final(state).wf(),
{
    log_line(
        state,
        String::from_str("No scan radios enabled. Enable Wi-Fi and/or Bluetooth in Scan Setup."),
    );
}

/// The enabled interfaces among `ifaces` whose name is in `discovered`.
pub open spec fn usable_interfaces(ifaces: Seq<InterfaceView>, discovered: Seq<Seq<char>>) -> Seq<InterfaceView>
    decreases ifaces.len(),
{
    if ifaces.len() == 0 {
        ifaces
    } else {
        let rest = usable_interfaces(ifaces.drop_last(), discovered);
        let i = ifaces.last();
        if i.enabled && discovered.contains(i.interface_name) {
            rest.push(i)
        } else {
            rest
        }
    }
}

/// The interfaces among `ifaces` named `name`.
pub open spec fn named_interfaces(ifaces: Seq<InterfaceView>, name: Seq<char>) -> Seq<InterfaceView>
    decreases ifaces.len(),
{
    if ifaces.len() == 0 {
        ifaces
    } else {
        let rest = named_interfaces(ifaces.drop_last(), name);
        if ifaces.last().interface_name == name {
            rest.push(ifaces.last())
        } else {
            rest
        }
    }
}

pub open spec fn is_wireless_name(name: Seq<char>) -> bool {
    has_prefix(name, "wlx"@) || has_prefix(name, "wlan"@)
}

/// Index of the first name that looks like a wireless interface.
pub open spec fn first_wireless(names: Seq<Seq<char>>) -> Option<int>
    decreases names.len(),
{
    if names.len() == 0 {
        None
    } else if is_wireless_name(names[0]) {
        Some(0)
    } else {
        match first_wireless(names.drop_first()) {
            Some(i) => Some(i + 1),
            None => None,
        }
    }
}

proof fn lemma_first_wireless(names: Seq<Seq<char>>)
    ensures
        match first_wireless(names) {
            Some(i) => 0 <= i < names.len() && is_wireless_name(names[i]) && forall|j: int|
                0 <= j < i ==> !is_wireless_name(#[trigger] names[j]),
            None => forall|j: int| 0 <= j < names.len() ==> !is_wireless_name(#[trigger] names[j]),
        },
    decreases names.len(),
{
    if names.len() > 0 && !is_wireless_name(names[0]) {
        lemma_first_wireless(names.drop_first());
        assert forall|j: int| 0 < j < names.len() implies names[j] == names.drop_first()[j - 1] by {}
    }
}

/// The interface to fall back to: the first discovered name starting with
/// `wlx` or `wlan`, else the first discovered name.
pub open spec fn fallback_interface(discovered: Seq<Seq<char>>) -> Option<Seq<char>> {
    match first_wireless(discovered) {
        Some(i) => Some(discovered[i]),
        None => if discovered.len() > 0 {
            Some(discovered[0])
        } else {
            None
        },
    }
}

fn contains_name(names: &Vec<String>, name: &str) -> (r: bool)
    ensures
        r == string_seqs(names@).contains(name@),
{
    let mut i: usize = 0;
    while i < names.len()
        invariant
            i <= names@.len(),
            forall|j: int| 0 <= j < i ==> names@[j]@ != name@,
        decreases names@.len() - i,
    {
        if str_eq(names[i].as_str(), name) {
            assert(string_seqs(names@)[i as int] == name@);
            return true;
        }
        i = i + 1;
    }
    proof {
        if string_seqs(names@).contains(name@) {
            let j = choose|j: int| 0 <= j < string_seqs(names@).len() && string_seqs(names@)[j]
                == name@;
            assert(names@[j]@ == name@);
        }
    }
    false
}

fn copy_usable(ifaces: &Vec<InterfaceSettings>, discovered: &Vec<String>) -> (r: Vec<InterfaceSettings>)
    ensures
        ifaces_view(r@) == usable_interfaces(ifaces_view(ifaces@), string_seqs(discovered@)),
{
    let mut out: Vec<InterfaceSettings> = Vec::new();
    let mut i: usize = 0;
    while i < ifaces.len()
        invariant
            i <= ifaces@.len(),
            ifaces_view(out@) == usable_interfaces(
                ifaces_view(ifaces@).subrange(0, i as int),
                string_seqs(discovered@),
            ),
        decreases ifaces@.len() - i,
    {
        proof {
            assert(ifaces_view(ifaces@).subrange(0, i + 1).drop_last() =~= ifaces_view(
                ifaces@,
            ).subrange(0, i as int));
        }
        if ifaces[i].enabled && contains_name(discovered, ifaces[i].interface_name.as_str()) {
            let c = ifaces[i].clone_settings();
            out.push(c);
        }
        assert(ifaces_view(out@) =~= usable_interfaces(
            ifaces_view(ifaces@).subrange(0, i + 1),
            string_seqs(discovered@),
        ));
        i = i + 1;
    }
    assert(ifaces_view(ifaces@).subrange(0, ifaces@.len() as int) =~= ifaces_view(ifaces@));
    out
}

fn copy_named(ifaces: &Vec<InterfaceSettings>, name: &str) -> (r: Vec<InterfaceSettings>)
    ensures
        ifaces_view(r@) == named_interfaces(ifaces_view(ifaces@), name@),
{
    let mut out: Vec<InterfaceSettings> = Vec::new();
    let mut i: usize = 0;
    while i < ifaces.len()
        invariant
            i <= ifaces@.len(),
            ifaces_view(out@) == named_interfaces(ifaces_view(ifaces@).subrange(0, i as int), name@),
        decreases ifaces@.len() - i,
    {
        proof {
            assert(ifaces_view(ifaces@).subrange(0, i + 1).drop_last() =~= ifaces_view(
                ifaces@,
            ).subrange(0, i as int));
        }
        if str_eq(ifaces[i].interface_name.as_str(), name) {
            let c = ifaces[i].clone_settings();
            out.push(c);
        }
        assert(ifaces_view(out@) =~= named_interfaces(
            ifaces_view(ifaces@).subrange(0, i + 1),
            name@,
        ));
        i = i + 1;
    }
    assert(ifaces_view(ifaces@).subrange(0, ifaces@.len() as int) =~= ifaces_view(ifaces@));
    out
}

fn find_fallback(discovered: &Vec<String>) -> (r: Option<usize>)
    ensures
        match r {
            Some(i) => i < discovered@.len() && fallback_interface(string_seqs(discovered@))
                == Some(discovered@[i as int]@),
            None => fallback_interface(string_seqs(discovered@)) is None,
        },
{
    let ghost names = string_seqs(discovered@);
    proof {
        lemma_first_wireless(names);
        reveal_strlit("wlx");
        reveal_strlit("wlan");
    }
    let mut i: usize = 0;
    while i < discovered.len()
        invariant
            i <= discovered@.len(),
            names == string_seqs(discovered@),
            forall|j: int| 0 <= j < i ==> !is_wireless_name(#[trigger] names[j]),
        decreases discovered@.len() - i,
    {
        let chars = str_chars(discovered[i].as_str());
        let wlx = str_chars("wlx");
        let wlan = str_chars("wlan");
        if has_prefix_chars(chars.as_slice(), wlx.as_slice()) || has_prefix_chars(
            chars.as_slice(),
            wlan.as_slice(),
        ) {
            proof {
                lemma_first_wireless(names);
                assert(is_wireless_name(names[i as int]));
                match first_wireless(names) {
                    Some(k) => {
                        if k > i {
                            assert(!is_wireless_name(names[i as int]));
                        }
                    },
                    None => {},
                }
            }
            return Some(i);
        }
        i = i + 1;
    }
    proof {
        lemma_first_wireless(names);
        match first_wireless(names) {
            Some(k) => {
                assert(!is_wireless_name(names[k]));
            },
            None => {},
        }
    }
    if discovered.len() > 0 {
        Some(0)
    } else {
        None
    }
}

/// Picks the interfaces to capture on among the `discovered` ones: the
/// enabled interfaces that exist. When there are none, the fallback
/// interface (see `fallback_interface`) becomes the only enabled one (added
/// with the default channel mode if new), which is logged, and its settings
/// are picked. Answers the picked interfaces and whether the settings
/// changed (and must be saved).
pub fn select_capture_interfaces(state: &mut WebState, discovered: &Vec<String>) -> (r: (
    Vec<InterfaceSettings>,
    bool,
))
    ensures
        ({
            let old_v = ifaces_view(old(state).settings.interfaces@);
            let names = string_seqs(discovered@);
            let usable = usable_interfaces(old_v, names);
            &&& usable.len() > 0 ==> {
                &&& ifaces_view(r.0@) == usable
                &&& !r.1
                &&& *final(state) == *old(state)
            }
            &&& usable.len() == 0 && fallback_interface(names) is None ==> {
                &&& r.0@.len() == 0
                &&& !r.1
                &&& *final(state) == *old(state)
            }
            &&& usable.len() == 0 && fallback_interface(names) is Some ==> {
                let f = fallback_interface(names)->0;
                let chosen = choose_interface(old_v, f, true, None, default_mode_view());
                &&& ifaces_view(final(state).settings.interfaces@) == chosen
                &&& ifaces_view(r.0@) == named_interfaces(chosen, f)
                &&& r.1
                &&& string_seqs(final(state).logs@) == logged(
                    old(state).logs@,
                    "selected Wi-Fi interface unavailable; falling back to "@ + f,
                )
                &&& final(state).wifi_running == old(state).wifi_running
                &&& final(state).bluetooth_running == old(state).bluetooth_running
                &&& same_wifi(*final(state), *old(state))
                &&& same_bluetooth(*final(state), *old(state))
                &&& other_settings_kept(*final(state), *old(state))
            }
        }),
        old(state).wf() ==> final(state).wf(),
{
    let usable = copy_usable(&state.settings.interfaces, discovered);
    if usable.len() > 0 {
        return (usable, false);
    }
    let fallback = match find_fallback(discovered) {
        Some(i) => discovered[i].clone(),
        None => {
            return (usable, false);
        },
    };
    let mut line: Vec<char> = Vec::new();
    push_str(&mut line, "selected Wi-Fi interface unavailable; falling back to ");
    push_str(&mut line, fallback.as_str());
    log_line(state, string_from_chars(line.as_slice()));
    let none: Option<ChannelSelectionMode> = None;
    choose_interface_exec(&mut state.settings.interfaces, &fallback, true, &none, default_mode());
    let picked = copy_named(&state.settings.interfaces, fallback.as_str());
    (picked, true)
}


pub open spec fn restore_views(s: Seq<RestoreType>) -> Seq<(Seq<char>, Seq<char>)> {
    s.map_values(|r: RestoreType| (r.interface_name@, r.restore_type@))
}

/// Records an interface prepared for capture: its status lines are logged,
/// and when it was not already a monitor interface (ignoring case) the type
/// it had is kept to restore it to once capture stops.
pub fn record_prepared_interface(
    state: &mut WebState,
    interface_name: &str,
    original_type: Option<String>,
    status_lines: Vec<String>,
)
    requires
        old(state).wf(),
    ensures
        final(state).wf(),
        final(state).logs@ == keep_last(old(state).logs@ + status_lines@, MAX_LOG_LINES as nat),
        match original_type {
            Some(t) => if !eq_ignore_case(t@, "monitor"@) {
                restore_views(final(state).wifi_interface_restore_types@) == upsert(
                    restore_views(old(state).wifi_interface_restore_types@),
                    restore_keys(old(state).wifi_interface_restore_types@),
                    interface_name@,
                    (interface_name@, t@),
                )
            } else {
                final(state).wifi_interface_restore_types@
                    == old(state).wifi_interface_restore_types@
            },
            None => final(state).wifi_interface_restore_types@
                == old(state).wifi_interface_restore_types@,
        },
        final(state).settings == old(state).settings,
        final(state).wifi_running == old(state).wifi_running,
        final(state).bluetooth_running == old(state).bluetooth_running,
        same_wifi(*final(state), *old(state)),
        same_bluetooth(*final(state), *old(state)),
{
    push_logs(state, status_lines);
    if let Some(t) = original_type {
        let tc = str_chars(t.as_str());
        let mc = str_chars("monitor");
        if !eq_ignore_case_chars(tc.as_slice(), mc.as_slice()) {
            let ghost before = state.wifi_interface_restore_types@;
            let entry = RestoreType { interface_name: interface_name.to_string(), restore_type: t };
            let ghost e = entry;
            upsert_restore(&mut state.wifi_interface_restore_types, entry);
            proof {
                lemma_first_key(restore_keys(before), e.interface_name@);
                assert(restore_views(state.wifi_interface_restore_types@) =~= upsert(
                    restore_views(before),
                    restore_keys(before),
                    e.interface_name@,
                    (e.interface_name@, e.restore_type@),
                ));
            }
        }
    }
}

/// The log line for an interface that could not be prepared:
/// `failed to prepare <iface> for capture: <error>`.
pub fn prepare_failure_line(interface_name: &str, error: &str) -> (r: String)
    ensures
        r@ == "failed to prepare "@ + interface_name@ + " for capture: "@ + error@,
{
    let mut out: Vec<char> = Vec::new();
    push_str(&mut out, "failed to prepare ");
    push_str(&mut out, interface_name);
    push_str(&mut out, " for capture: ");
    push_str(&mut out, error);
    string_from_chars(out.as_slice())
}

/// The last of `prepared` named `name`.
pub open spec fn last_prepared(prepared: Seq<InterfaceView>, name: Seq<char>) -> Option<InterfaceView>
    decreases prepared.len(),
{
    if prepared.len() == 0 {
        None
    } else if prepared.last().interface_name == name {
        Some(prepared.last())
    } else {
        last_prepared(prepared.drop_last(), name)
    }
}

/// `iface` after the interfaces in `prepared` were applied: it takes the
/// monitor interface and channel mode of the last prepared interface of its
/// name.
pub open spec fn with_prepared(iface: InterfaceView, prepared: Seq<InterfaceView>) -> InterfaceView {
    match last_prepared(prepared, iface.interface_name) {
        Some(p) => InterfaceView {
            monitor_interface_name: p.monitor_interface_name,
            channel_mode: p.channel_mode,
            ..iface
        },
        None => iface,
    }
}

fn find_last_prepared(prepared: &Vec<InterfaceSettings>, name: &str) -> (r: Option<usize>)
    ensures
        match r {
            Some(i) => i < prepared@.len() && last_prepared(ifaces_view(prepared@), name@) == Some(
                prepared@[i as int]@,
            ),
            None => last_prepared(ifaces_view(prepared@), name@) is None,
        },
{
    let mut found: Option<usize> = None;
    let mut i: usize = 0;
    while i < prepared.len()
        invariant
            i <= prepared@.len(),
            match found {
                Some(k) => k < i && last_prepared(
                    ifaces_view(prepared@).subrange(0, i as int),
                    name@,
                ) == Some(prepared@[k as int]@),
                None => last_prepared(ifaces_view(prepared@).subrange(0, i as int), name@) is None,
            },
        decreases prepared@.len() - i,
    {
        proof {
            assert(ifaces_view(prepared@).subrange(0, i + 1).drop_last() =~= ifaces_view(
                prepared@,
            ).subrange(0, i as int));
        }
        if str_eq(prepared[i].interface_name.as_str(), name) {
            found = Some(i);
        }
        i = i + 1;
    }
    assert(ifaces_view(prepared@).subrange(0, prepared@.len() as int) =~= ifaces_view(prepared@));
    found
}

/// Applies the interfaces that were prepared for capture to the settings
/// (monitor interface and channel mode, by name). Answers whether any was
/// prepared; when none was, that is logged.
pub fn finish_wifi_prepare(state: &mut WebState, prepared: &Vec<InterfaceSettings>) -> (r: bool)
    ensures
        r == (prepared@.len() > 0),
        ifaces_view(final(state).settings.interfaces@) == ifaces_view(
            old(state).settings.interfaces@,
        ).map_values(|i: InterfaceView| with_prepared(i, ifaces_view(prepared@))),
        final(state).settings == (AppSettings {
            interfaces: final(state).settings.interfaces,
            ..old(state).settings
        }),
        r ==> final(state).logs@ == old(state).logs@,
        !r ==> string_seqs(final(state).logs@) == logged(
            old(state).logs@,
            "Wi-Fi scanning not started; no interfaces were successfully prepared"@,
        ),
        final(state).wifi_running == old(state).wifi_running,
        final(state).bluetooth_running == old(state).bluetooth_running,
        final(state).wifi_interface_restore_types@ == old(state).wifi_interface_restore_types@,
        same_wifi(*final(state), *old(state)),
        same_bluetooth(*final(state), *old(state)),
        old(state).wf() ==> final(state).wf(),
{
    let ghost pv = ifaces_view(prepared@);
    let n = state.settings.interfaces.len();
    let mut i: usize = 0;
    while i < n
        invariant
            n == state.settings.interfaces@.len(),
            i <= n,
            pv == ifaces_view(prepared@),
            state.settings == (AppSettings {
                interfaces: state.settings.interfaces,
                ..old(state).settings
            }),
            n == old(state).settings.interfaces@.len(),
            forall|k: int| 0 <= k < i ==> (#[trigger] state.settings.interfaces@[k])@ == with_prepared(
                old(state).settings.interfaces@[k]@,
                pv,
            ),
            forall|k: int| i <= k < n ==> state.settings.interfaces@[k]
                == old(state).settings.interfaces@[k],
            state.logs@ == old(state).logs@,
            state.wifi_running == old(state).wifi_running,
            state.bluetooth_running == old(state).bluetooth_running,
            state.wifi_interface_restore_types@ == old(state).wifi_interface_restore_types@,
            same_wifi(*state, *old(state)),
            same_bluetooth(*state, *old(state)),
        decreases n - i,
    {
        let found = find_last_prepared(prepared, state.settings.interfaces[i].interface_name.as_str());
        match found {
            Some(j) => {
                let mut iface = state.settings.interfaces.remove(i);
                iface.monitor_interface_name = match &prepared[j].monitor_interface_name {
                    Some(m) => Some(m.clone()),
                    None => None,
                };
                iface.channel_mode = copy_mode(&prepared[j].channel_mode);
                state.settings.interfaces.insert(i, iface);
            },
            None => {},
        }
        i = i + 1;
    }
    assert(ifaces_view(state.settings.interfaces@) =~= ifaces_view(
        old(state).settings.interfaces@,
    ).map_values(|i: InterfaceView| with_prepared(i, pv)));
    if prepared.len() == 0 {
        log_line(
            state,
            String::from_str("Wi-Fi scanning not started; no interfaces were successfully prepared"),
        );
        false
    } else {
        true
    }
}

/// Marks the Wi-Fi capture started and logs it.
pub fn mark_wifi_started(state: &mut WebState)
    ensures
        final(state).wifi_running,
        final(state).bluetooth_running == old(state).bluetooth_running,
        final(state).settings == old(state).settings,
        final(state).wifi_interface_restore_types@ == old(state).wifi_interface_restore_types@,
        same_wifi(*final(state), *old(state)),
        same_bluetooth(*final(state), *old(state)),
        string_seqs(final(state).logs@) == logged(old(state).logs@, "Wi-Fi scanning started"@),
        old(state).wf() ==> final(state).wf(),
{
    state.wifi_running = true;
    log_line(state, String::from_str("Wi-Fi scanning started"));
}

/// Marks the Bluetooth scan started and logs it.
pub fn mark_bluetooth_started(state: &mut WebState)
    ensures
        final(state).bluetooth_running,
        final(state).wifi_running == old(state).wifi_running,
        final(state).settings == old(state).settings,
        final(state).wifi_interface_restore_types@ == old(state).wifi_interface_restore_types@,
        same_wifi(*final(state), *old(state)),
        same_bluetooth(*final(state), *old(state)),
        string_seqs(final(state).logs@) == logged(
            old(state).logs@,
            "Bluetooth scanning started"@,
        ),
        old(state).wf() ==> final(state).wf(),
{
    state.bluetooth_running = true;
    log_line(state, String::from_str("Bluetooth scanning started"));
}

/// Stores a submitted scan setup form (see `apply_scan_setup`) and logs it.
pub fn store_scan_setup(
    state: &mut WebState,
    req: &ScanSetupRequest,
    selected: &String,
    mode: ChannelSelectionMode,
)
    ensures
        ifaces_view(final(state).settings.interfaces@) == choose_interface(
            ifaces_view(old(state).settings.interfaces@),
            selected@,
            req.wifi_enabled,
            Some(mode@),
            mode@,
        ),
        final(state).settings.bluetooth_enabled == req.bluetooth_enabled,
        final(state).settings.wifi_export_enabled == req.wifi_export_enabled,
        final(state).settings.bluetooth_export_enabled == req.bluetooth_export_enabled,
        final(state).settings.wifi_export_dir@ == trimmed_or(
            old(state).settings.wifi_export_dir@,
            req.wifi_export_dir@,
        ),
        final(state).settings.bluetooth_export_dir@ == trimmed_or(
            old(state).settings.bluetooth_export_dir@,
            req.bluetooth_export_dir@,
        ),
        opt_view(final(state).settings.bluetooth_controller) == controller_choice(
            opt_view(req.bluetooth_controller),
        ),
        final(state).settings.watchlists == old(state).settings.watchlists,
        string_seqs(final(state).logs@) == logged(old(state).logs@, "scan setup updated"@),
        final(state).wifi_running == old(state).wifi_running,
        final(state).bluetooth_running == old(state).bluetooth_running,
        same_wifi(*final(state), *old(state)),
        same_bluetooth(*final(state), *old(state)),
        old(state).wf() ==> final(state).wf(),
{
    apply_scan_setup(&mut state.settings, req, selected, mode);
    log_line(state, String::from_str("scan setup updated"));
}

} // verus!
