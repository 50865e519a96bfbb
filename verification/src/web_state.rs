//! The live state behind the web UI: the devices seen so far, the channel
//! usage samples, the Bluetooth enumeration results and the log, and how each
//! capture or Bluetooth event changes it.
//!
//! Records are kept in vectors keyed by BSSID or MAC; no key occurs twice
//! (`WebState::wf`), so each vector behaves as a map from key to record.

use vstd::prelude::*;
use crate::channels::SpectrumBand;
use crate::records::{
    first_key, lemma_first_key, ap_keys, client_keys, bluetooth_keys, find_ap, find_client,
    find_bluetooth, AccessPointRecord, ClientRecord, BluetoothDeviceRecord, GeoObservation,
};
use crate::settings::{AppSettings, InterfaceSettings};
use crate::text::{str_eq, push_str, push_decimal, decimal, string_from_chars, string_seqs};

verus! {

/// Most log lines kept.
pub const MAX_LOG_LINES: usize = 120;

/// Most channel usage samples kept.
pub const MAX_CHANNEL_USAGE_POINTS: usize = 800;

/// One channel utilisation sample. The utilisation is carried as the
/// IEEE-754 bit pattern of a percentage, unchanged by this library.
#[derive(Debug, Clone, Copy, PartialEq, Eq, Structural)]
pub struct ChannelUsagePoint {
    /// Milliseconds since the Unix epoch.
    pub timestamp_ms: i64,
    pub channel: u16,
    pub band: SpectrumBand,
    pub utilization_percent_bits: u32,
    pub packets: u64,
}

/// A WPA handshake seen on an access point.
#[derive(Debug, Clone)]
pub struct HandshakeRecord {
    pub bssid: String,
    pub client_mac: String,
    /// Milliseconds since the Unix epoch.
    pub timestamp_ms: i64,
}

/// What the Wi-Fi capture reports.
pub enum CaptureEvent {
    AccessPointSeen(AccessPointRecord),
    ClientSeen(ClientRecord),
    ChannelUsage(ChannelUsagePoint),
    Observation { device_type: String, device_id: String, observation: GeoObservation },
    HandshakeSeen(HandshakeRecord),
    Log(String),
}

/// What the Bluetooth scanner reports.
pub enum BluetoothEvent {
    DeviceSeen(BluetoothDeviceRecord),
    EnumerationStatus { mac: String, message: String, is_error: bool },
    Log(String),
}

/// The outcome of the last active enumeration of a Bluetooth device.
#[derive(Debug, Clone)]
pub struct BtEnumerationStatus {
    pub message: String,
    pub is_error: bool,
}

/// Enumeration outcome keyed by device MAC.
#[derive(Debug, Clone)]
pub struct BtStatusEntry {
    pub mac: String,
    pub status: BtEnumerationStatus,
}

/// The interface type to put an interface back to once capture stops.
#[derive(Debug, Clone)]
pub struct RestoreType {
    pub interface_name: String,
    pub restore_type: String,
}

/// The state shared by the web UI's request handlers and its event pump.
pub struct WebState {
    pub settings: AppSettings,
    /// A Wi-Fi capture runtime is running.
    pub wifi_running: bool,
    /// A Bluetooth scan runtime is running.
    pub bluetooth_running: bool,
    pub wifi_interface_restore_types: Vec<RestoreType>,
    pub access_points: Vec<AccessPointRecord>,
    pub clients: Vec<ClientRecord>,
    pub bluetooth_devices: Vec<BluetoothDeviceRecord>,
    pub channel_usage: Vec<ChannelUsagePoint>,
    pub bt_enumeration_status: Vec<BtStatusEntry>,
    pub logs: Vec<String>,
}

/// No key occurs twice.
pub open spec fn unique_keys(keys: Seq<Seq<char>>) -> bool {
    forall|i: int, j: int| 0 <= i < j < keys.len() ==> keys[i] != keys[j]
}

pub open spec fn status_keys(s: Seq<BtStatusEntry>) -> Seq<Seq<char>> {
    s.map_values(|e: BtStatusEntry| e.mac@)
}

pub open spec fn restore_keys(s: Seq<RestoreType>) -> Seq<Seq<char>> {
    s.map_values(|e: RestoreType| e.interface_name@)
}

/// The last `n` items of `s` (all of them when there are fewer).
pub open spec fn keep_last<T>(s: Seq<T>, n: nat) -> Seq<T> {
    if s.len() > n {
        s.subrange(s.len() - n, s.len() as int)
    } else {
        s
    }
}

/// `s` with `x` at the first position whose key is `k`, or with `x`
/// appended when no key is `k`.
pub open spec fn upsert<T>(s: Seq<T>, keys: Seq<Seq<char>>, k: Seq<char>, x: T) -> Seq<T> {
    match first_key(keys, k) {
        Some(i) => s.update(i, x),
        None => s.push(x),
    }
}

impl WebState {
    /// Keys are unique and the bounded lists are within their bounds.
    pub open spec fn wf(&self) -> bool {
        &&& unique_keys(ap_keys(self.access_points@))
        &&& unique_keys(client_keys(self.clients@))
        &&& unique_keys(bluetooth_keys(self.bluetooth_devices@))
        &&& unique_keys(status_keys(self.bt_enumeration_status@))
        &&& unique_keys(restore_keys(self.wifi_interface_restore_types@))
        &&& self.logs@.len() <= MAX_LOG_LINES
        &&& self.channel_usage@.len() <= MAX_CHANNEL_USAGE_POINTS
    }
}

/// `a` and `b` agree on every field but the log.
pub open spec fn same_but_logs(a: WebState, b: WebState) -> bool {
    &&& a.settings == b.settings
    &&& a.wifi_running == b.wifi_running
    &&& a.bluetooth_running == b.bluetooth_running
    &&& a.wifi_interface_restore_types@ == b.wifi_interface_restore_types@
    &&& a.access_points@ == b.access_points@
    &&& a.clients@ == b.clients@
    &&& a.bluetooth_devices@ == b.bluetooth_devices@
    &&& a.channel_usage@ == b.channel_usage@
    &&& a.bt_enumeration_status@ == b.bt_enumeration_status@
}

/// The state the web UI starts with.
pub fn new_web_state(settings: AppSettings) -> (r: WebState)
    ensures
        r.wf(),
        r.settings == settings,
        !r.wifi_running,
        !r.bluetooth_running,
        r.wifi_interface_restore_types@.len() == 0,
        r.access_points@.len() == 0,
        r.clients@.len() == 0,
        r.bluetooth_devices@.len() == 0,
        r.channel_usage@.len() == 0,
        r.bt_enumeration_status@.len() == 0,
        r.logs@.len() == 1,
        r.logs@[0]@ == "web ui initialized"@,
{
    let mut logs: Vec<String> = Vec::new();
    logs.push(String::from_str("web ui initialized"));
    WebState {
        settings,
        wifi_running: false,
        bluetooth_running: false,
        wifi_interface_restore_types: Vec::new(),
        access_points: Vec::new(),
        clients: Vec::new(),
        bluetooth_devices: Vec::new(),
        channel_usage: Vec::new(),
        bt_enumeration_status: Vec::new(),
        logs,
    }
}

/// Appends `line` to the log, dropping the oldest lines beyond
/// `MAX_LOG_LINES`.
pub fn push_log(state: &mut WebState, line: String)
    ensures
        final(state).logs@ == keep_last(old(state).logs@.push(line), MAX_LOG_LINES as nat),
        same_but_logs(*final(state), *old(state)),
        old(state).wf() ==> final(state).wf(),
{
    state.logs.push(line);
    let n = state.logs.len();
    if n > MAX_LOG_LINES {
        let trim = n - MAX_LOG_LINES;
        let kept = state.logs.split_off(trim);
        state.logs = kept;
    }
}

/// Forgets every device, channel sample and enumeration result (the log and
/// the settings stay).
pub fn clear_live_scan_state(state: &mut WebState)
    ensures
        final(state).access_points@.len() == 0,
        final(state).clients@.len() == 0,
        final(state).bluetooth_devices@.len() == 0,
        final(state).channel_usage@.len() == 0,
        final(state).bt_enumeration_status@.len() == 0,
        final(state).settings == old(state).settings,
        final(state).wifi_running == old(state).wifi_running,
        final(state).bluetooth_running == old(state).bluetooth_running,
        final(state).wifi_interface_restore_types@ == old(state).wifi_interface_restore_types@,
        final(state).logs@ == old(state).logs@,
        old(state).wf() ==> final(state).wf(),
{
    state.access_points.clear();
    state.clients.clear();
    state.bluetooth_devices.clear();
    state.channel_usage.clear();
    state.bt_enumeration_status.clear();
}


/// Both states hold the same settings, runtime flags and restore types.
pub open spec fn same_runtime(a: WebState, b: WebState) -> bool {
    &&& a.settings == b.settings
    &&& a.wifi_running == b.wifi_running
    &&& a.bluetooth_running == b.bluetooth_running
    &&& a.wifi_interface_restore_types@ == b.wifi_interface_restore_types@
}

/// Both states hold the same Wi-Fi devices and channel samples.
pub open spec fn same_wifi(a: WebState, b: WebState) -> bool {
    &&& a.access_points@ == b.access_points@
    &&& a.clients@ == b.clients@
    &&& a.channel_usage@ == b.channel_usage@
}

/// Both states hold the same Bluetooth devices and enumeration results.
pub open spec fn same_bluetooth(a: WebState, b: WebState) -> bool {
    &&& a.bluetooth_devices@ == b.bluetooth_devices@
    &&& a.bt_enumeration_status@ == b.bt_enumeration_status@
}

pub(crate) proof fn lemma_upsert_unique(keys: Seq<Seq<char>>, k: Seq<char>)
    requires
        unique_keys(keys),
    ensures
        unique_keys(upsert(keys, keys, k, k)),
        match first_key(keys, k) {
            Some(i) => upsert(keys, keys, k, k) == keys,
            None => upsert(keys, keys, k, k) == keys.push(k),
        },
{
    lemma_first_key(keys, k);
    match first_key(keys, k) {
        Some(i) => {
            assert(keys.update(i, k) =~= keys);
        },
        None => {},
    }
}

/// Puts `ap` in place of the access point with the same BSSID, or appends it.
fn upsert_ap(aps: &mut Vec<AccessPointRecord>, ap: AccessPointRecord)
    requires
        unique_keys(ap_keys(old(aps)@)),
    ensures
        final(aps)@ == upsert(old(aps)@, ap_keys(old(aps)@), ap.bssid@, ap),
        unique_keys(ap_keys(final(aps)@)),
{
    let ghost keys = ap_keys(aps@);
    proof {
        lemma_upsert_unique(keys, ap.bssid@);
        lemma_first_key(keys, ap.bssid@);
    }
    match find_ap(aps, ap.bssid.as_str()) {
        Some(i) => {
            aps.set(i, ap);
            assert(ap_keys(aps@) =~= upsert(keys, keys, ap.bssid@, ap.bssid@));
        },
        None => {
            aps.push(ap);
            assert(ap_keys(aps@) =~= upsert(keys, keys, ap.bssid@, ap.bssid@));
        },
    }
}

/// Puts `client` in place of the client with the same MAC, or appends it.
fn upsert_client(clients: &mut Vec<ClientRecord>, client: ClientRecord)
    requires
        unique_keys(client_keys(old(clients)@)),
    ensures
        final(clients)@ == upsert(old(clients)@, client_keys(old(clients)@), client.mac@, client),
        unique_keys(client_keys(final(clients)@)),
{
    let ghost keys = client_keys(clients@);
    proof {
        lemma_upsert_unique(keys, client.mac@);
        lemma_first_key(keys, client.mac@);
    }
    match find_client(clients, client.mac.as_str()) {
        Some(i) => {
            clients.set(i, client);
            assert(client_keys(clients@) =~= upsert(keys, keys, client.mac@, client.mac@));
        },
        None => {
            clients.push(client);
            assert(client_keys(clients@) =~= upsert(keys, keys, client.mac@, client.mac@));
        },
    }
}

/// Puts `device` in place of the device with the same MAC, or appends it.
pub(crate) fn upsert_bluetooth(devices: &mut Vec<BluetoothDeviceRecord>, device: BluetoothDeviceRecord)
    requires
        unique_keys(bluetooth_keys(old(devices)@)),
    ensures
        final(devices)@ == upsert(
            old(devices)@,
            bluetooth_keys(old(devices)@),
            device.mac@,
            device,
        ),
        unique_keys(bluetooth_keys(final(devices)@)),
{
    let ghost keys = bluetooth_keys(devices@);
    proof {
        lemma_upsert_unique(keys, device.mac@);
        lemma_first_key(keys, device.mac@);
    }
    match find_bluetooth(devices, device.mac.as_str()) {
        Some(i) => {
            devices.set(i, device);
            assert(bluetooth_keys(devices@) =~= upsert(keys, keys, device.mac@, device.mac@));
        },
        None => {
            devices.push(device);
            assert(bluetooth_keys(devices@) =~= upsert(keys, keys, device.mac@, device.mac@));
        },
    }
}

/// Index of the enumeration result for `mac`.
fn find_status(entries: &Vec<BtStatusEntry>, mac: &str) -> (r: Option<usize>)
    ensures
        match r {
            Some(i) => first_key(status_keys(entries@), mac@) == Some(i as int),
            None => first_key(status_keys(entries@), mac@) is None,
        },
{
    proof {
        lemma_first_key(status_keys(entries@), mac@);
    }
    let mut i: usize = 0;
    while i < entries.len()
        invariant
            i <= entries@.len(),
            forall|j: int| 0 <= j < i ==> status_keys(entries@)[j] != mac@,
        decreases entries@.len() - i,
    {
        if str_eq(entries[i].mac.as_str(), mac) {
            proof {
                lemma_first_key(status_keys(entries@), mac@);
                match first_key(status_keys(entries@), mac@) {
                    Some(k) => {
                        if k > i {
                            assert(status_keys(entries@)[i as int] == mac@);
                        }
                    },
                    None => {
                        assert(status_keys(entries@)[i as int] == mac@);
                    },
                }
            }
            return Some(i);
        }
        i = i + 1;
    }
    proof {
        lemma_first_key(status_keys(entries@), mac@);
        match first_key(status_keys(entries@), mac@) {
            Some(k) => {
                assert(status_keys(entries@)[k] != mac@);
            },
            None => {},
        }
    }
    None
}

/// Records the enumeration result `entry`, replacing an earlier one for the
/// same MAC.
pub(crate) fn upsert_status(entries: &mut Vec<BtStatusEntry>, entry: BtStatusEntry)
    requires
        unique_keys(status_keys(old(entries)@)),
    ensures
        final(entries)@ == upsert(old(entries)@, status_keys(old(entries)@), entry.mac@, entry),
        unique_keys(status_keys(final(entries)@)),
{
    let ghost keys = status_keys(entries@);
    proof {
        lemma_upsert_unique(keys, entry.mac@);
        lemma_first_key(keys, entry.mac@);
    }
    match find_status(entries, entry.mac.as_str()) {
        Some(i) => {
            entries.set(i, entry);
            assert(status_keys(entries@) =~= upsert(keys, keys, entry.mac@, entry.mac@));
        },
        None => {
            entries.push(entry);
            assert(status_keys(entries@) =~= upsert(keys, keys, entry.mac@, entry.mac@));
        },
    }
}

/// The access points after a handshake was seen on `bssid`: the handshake
/// count of that access point goes up by one (saturating).
pub open spec fn count_handshake(aps: Seq<AccessPointRecord>, bssid: Seq<char>) -> Seq<AccessPointRecord> {
    match first_key(ap_keys(aps), bssid) {
        Some(i) => aps.update(
            i,
            AccessPointRecord {
                handshake_count: if aps[i].handshake_count < u32::MAX {
                    (aps[i].handshake_count + 1) as u32
                } else {
                    u32::MAX
                },
                ..aps[i]
            },
        ),
        None => aps,
    }
}

/// How a capture event changes the state.
pub open spec fn capture_effect(old_state: WebState, new_state: WebState, event: CaptureEvent) -> bool {
    match event {
        CaptureEvent::AccessPointSeen(ap) => {
            &&& same_runtime(new_state, old_state)
            &&& new_state.access_points@ == upsert(
                old_state.access_points@,
                ap_keys(old_state.access_points@),
                ap.bssid@,
                ap,
            )
            &&& new_state.clients@ == old_state.clients@
            &&& new_state.channel_usage@ == old_state.channel_usage@
            &&& same_bluetooth(new_state, old_state)
            &&& new_state.logs@ == old_state.logs@
        },
        CaptureEvent::ClientSeen(client) => {
            &&& same_runtime(new_state, old_state)
            &&& new_state.access_points@ == old_state.access_points@
            &&& new_state.clients@ == upsert(
                old_state.clients@,
                client_keys(old_state.clients@),
                client.mac@,
                client,
            )
            &&& new_state.channel_usage@ == old_state.channel_usage@
            &&& same_bluetooth(new_state, old_state)
            &&& new_state.logs@ == old_state.logs@
        },
        CaptureEvent::ChannelUsage(usage) => {
            &&& same_runtime(new_state, old_state)
            &&& new_state.access_points@ == old_state.access_points@
            &&& new_state.clients@ == old_state.clients@
            &&& new_state.channel_usage@ == keep_last(
                old_state.channel_usage@.push(usage),
                MAX_CHANNEL_USAGE_POINTS as nat,
            )
            &&& same_bluetooth(new_state, old_state)
            &&& new_state.logs@ == old_state.logs@
        },
        CaptureEvent::Observation { .. } => {
            &&& same_runtime(new_state, old_state)
            &&& same_wifi(new_state, old_state)
            &&& same_bluetooth(new_state, old_state)
            &&& new_state.logs@ == old_state.logs@
        },
        CaptureEvent::HandshakeSeen(hs) => {
            &&& same_runtime(new_state, old_state)
            &&& new_state.access_points@ == count_handshake(old_state.access_points@, hs.bssid@)
            &&& new_state.clients@ == old_state.clients@
            &&& new_state.channel_usage@ == old_state.channel_usage@
            &&& same_bluetooth(new_state, old_state)
            &&& new_state.logs@ == old_state.logs@
        },
        CaptureEvent::Log(line) => {
            &&& same_but_logs(new_state, old_state)
            &&& new_state.logs@ == keep_last(old_state.logs@.push(line), MAX_LOG_LINES as nat)
        },
    }
}

/// Applies one event of the Wi-Fi capture to the state.
pub fn apply_capture_event(state: &mut WebState, event: CaptureEvent)
    requires
        old(state).wf(),
    ensures
        final(state).wf(),
        capture_effect(*old(state), *final(state), event),
{
    match event {
        CaptureEvent::AccessPointSeen(ap) => {
            upsert_ap(&mut state.access_points, ap);
        },
        CaptureEvent::ClientSeen(client) => {
            upsert_client(&mut state.clients, client);
        },
        CaptureEvent::ChannelUsage(usage) => {
            state.channel_usage.push(usage);
            let n = state.channel_usage.len();
            if n > MAX_CHANNEL_USAGE_POINTS {
                let trim = n - MAX_CHANNEL_USAGE_POINTS;
                let kept = state.channel_usage.split_off(trim);
                state.channel_usage = kept;
            }
        },
        CaptureEvent::Observation { .. } => {},
        CaptureEvent::HandshakeSeen(hs) => {
            proof {
                lemma_first_key(ap_keys(state.access_points@), hs.bssid@);
            }
            match find_ap(&state.access_points, hs.bssid.as_str()) {
                Some(i) => {
                    let mut ap = state.access_points.remove(i);
                    ap.handshake_count = ap.handshake_count.saturating_add(1);
                    state.access_points.insert(i, ap);
                    assert(ap_keys(state.access_points@) =~= ap_keys(old(state).access_points@));
                    assert(state.access_points@ =~= count_handshake(
                        old(state).access_points@,
                        hs.bssid@,
                    ));
                },
                None => {},
            }
        },
        CaptureEvent::Log(line) => {
            push_log(state, line);
        },
    }
}


/// The log line for an enumeration result: `bt enum <ok|error> <mac>: <message>`.
pub open spec fn enumeration_log_line(mac: Seq<char>, message: Seq<char>, is_error: bool) -> Seq<char> {
    "bt enum "@ + (if is_error {
        "error"@
    } else {
        "ok"@
    }) + " "@ + mac + ": "@ + message
}

fn enumeration_log(mac: &str, message: &str, is_error: bool) -> (r: String)
    ensures
        r@ == enumeration_log_line(mac@, message@, is_error),
{
    let mut out: Vec<char> = Vec::new();
    push_str(&mut out, "bt enum ");
    if is_error {
        push_str(&mut out, "error");
    } else {
        push_str(&mut out, "ok");
    }
    push_str(&mut out, " ");
    push_str(&mut out, mac);
    push_str(&mut out, ": ");
    push_str(&mut out, message);
    string_from_chars(out.as_slice())
}

/// How a Bluetooth event changes the state.
pub open spec fn bluetooth_effect(old_state: WebState, new_state: WebState, event: BluetoothEvent) -> bool {
    match event {
        BluetoothEvent::DeviceSeen(device) => {
            &&& same_runtime(new_state, old_state)
            &&& same_wifi(new_state, old_state)
            &&& new_state.bluetooth_devices@ == upsert(
                old_state.bluetooth_devices@,
                bluetooth_keys(old_state.bluetooth_devices@),
                device.mac@,
                device,
            )
            &&& new_state.bt_enumeration_status@ == old_state.bt_enumeration_status@
            &&& new_state.logs@ == old_state.logs@
        },
        BluetoothEvent::EnumerationStatus { mac, message, is_error } => {
            &&& same_runtime(new_state, old_state)
            &&& same_wifi(new_state, old_state)
            &&& new_state.bluetooth_devices@ == old_state.bluetooth_devices@
            &&& new_state.bt_enumeration_status@ == upsert(
                old_state.bt_enumeration_status@,
                status_keys(old_state.bt_enumeration_status@),
                mac@,
                BtStatusEntry { mac, status: BtEnumerationStatus { message, is_error } },
            )
            &&& string_seqs(new_state.logs@) == keep_last(
                string_seqs(old_state.logs@).push(enumeration_log_line(mac@, message@, is_error)),
                MAX_LOG_LINES as nat,
            )
        },
        BluetoothEvent::Log(line) => {
            &&& same_but_logs(new_state, old_state)
            &&& new_state.logs@ == keep_last(old_state.logs@.push(line), MAX_LOG_LINES as nat)
        },
    }
}

/// Applies one event of the Bluetooth scanner to the state.
pub fn apply_bluetooth_event(state: &mut WebState, event: BluetoothEvent)
    requires
        old(state).wf(),
    ensures
        final(state).wf(),
        bluetooth_effect(*old(state), *final(state), event),
{
    match event {
        BluetoothEvent::DeviceSeen(device) => {
            upsert_bluetooth(&mut state.bluetooth_devices, device);
        },
        BluetoothEvent::EnumerationStatus { mac, message, is_error } => {
            let line = enumeration_log(mac.as_str(), message.as_str(), is_error);
            let entry = BtStatusEntry {
                mac: mac.clone(),
                status: BtEnumerationStatus { message: message.clone(), is_error },
            };
            upsert_status(&mut state.bt_enumeration_status, entry);
            let ghost before = state.logs@;
            push_log(state, line);
            assert(string_seqs(state.logs@) =~= keep_last(
                string_seqs(before).push(line@),
                MAX_LOG_LINES as nat,
            ));
        },
        BluetoothEvent::Log(line) => {
            push_log(state, line);
        },
    }
}


/// Seconds since the Unix epoch by the system clock (`SystemTime::now`
/// against `UNIX_EPOCH`), or `None` when the clock reads earlier than the
/// epoch. Nothing is claimed of the value: it is the time.
#[verifier::external_body]
fn seconds_since_epoch() -> Option<u64> {
    match std::time::SystemTime::now().duration_since(std::time::UNIX_EPOCH) {
        Ok(elapsed) => Some(elapsed.as_secs()),
        Err(_) => None,
    }
}

/// The seconds of a clock reading: the seconds since the epoch, or 0 when
/// the clock read earlier than the epoch.
pub fn seconds_or_zero(reading: Option<u64>) -> (r: u64)
    ensures
        r == match reading {
            Some(s) => s,
            None => 0,
        },
{
    match reading {
        Some(secs) => secs,
        None => 0,
    }
}

/// Seconds since the Unix epoch by the system clock, or 0 when the clock
/// reads earlier; see `seconds_or_zero`. The reading itself is the time,
/// so nothing more is stated of the result.
pub fn epoch_timestamp() -> u64 {
    seconds_or_zero(seconds_since_epoch())
}

proof fn lemma_keep_last_push<T>(s: Seq<T>, x: T, n: nat)
    requires
        n > 0,
    ensures
        keep_last(keep_last(s, n).push(x), n) == keep_last(s.push(x), n),
{
    assert(keep_last(keep_last(s, n).push(x), n) =~= keep_last(s.push(x), n));
}

/// Appends each of `lines` to the log in turn.
pub fn push_logs(state: &mut WebState, lines: Vec<String>)
    requires
        old(state).logs@.len() <= MAX_LOG_LINES,
    ensures
        final(state).logs@ == keep_last(old(state).logs@ + lines@, MAX_LOG_LINES as nat),
        same_but_logs(*final(state), *old(state)),
        old(state).wf() ==> final(state).wf(),
{
    let mut i: usize = 0;
    let n = lines.len();
    let ghost start = state.logs@;
    assert(start + lines@.subrange(0, 0) =~= start);
    while i < n
        invariant
            n == lines@.len(),
            i <= n,
            i > 0 ==> state.logs@ == keep_last(start + lines@.subrange(0, i as int), MAX_LOG_LINES as nat),
            i == 0 ==> state.logs@ == start,
            start.len() <= MAX_LOG_LINES,
            same_but_logs(*state, *old(state)),
        decreases n - i,
    {
        let line = lines[i].clone();
        let ghost before = state.logs@;
        push_log(state, line);
        proof {
            let prefix = start + lines@.subrange(0, i as int);
            assert(start + lines@.subrange(0, i + 1) =~= prefix.push(lines@[i as int]));
            if i > 0 {
                lemma_keep_last_push(prefix, lines@[i as int], MAX_LOG_LINES as nat);
            }
        }
        i = i + 1;
    }
    proof {
        assert(lines@.subrange(0, n as int) =~= lines@);
        if n == 0 {
            assert(start + lines@ =~= start);
        }
    }
}


pub open spec fn restore_views(s: Seq<RestoreType>) -> Seq<(Seq<char>, Seq<char>)> {
    s.map_values(|r: RestoreType| (r.interface_name@, r.restore_type@))
}

pub open spec fn interface_names(ifaces: Seq<InterfaceSettings>) -> Seq<Seq<char>> {
    ifaces.map_values(|i: InterfaceSettings| i.interface_name@)
}

/// Walking the interface names in order, the restore entries taken out for
/// them (as interface and type) and the entries left over.
pub open spec fn take_restores(names: Seq<Seq<char>>, pairs: Seq<RestoreType>) -> (
    Seq<(Seq<char>, Seq<char>)>,
    Seq<RestoreType>,
)
    decreases names.len(),
{
    if names.len() == 0 {
        (Seq::empty(), pairs)
    } else {
        match first_key(restore_keys(pairs), names[0]) {
            Some(i) => {
                let rest = take_restores(names.drop_first(), pairs.remove(i));
                (seq![(pairs[i].interface_name@, pairs[i].restore_type@)] + rest.0, rest.1)
            },
            None => take_restores(names.drop_first(), pairs),
        }
    }
}

/// `iface` with no monitor interface recorded.
pub open spec fn without_monitor(iface: InterfaceSettings) -> InterfaceSettings {
    InterfaceSettings { monitor_interface_name: None, ..iface }
}

/// Index of the restore entry for `name`.
pub(crate) fn find_restore(entries: &Vec<RestoreType>, name: &str) -> (r: Option<usize>)
    ensures
        match r {
            Some(i) => first_key(restore_keys(entries@), name@) == Some(i as int),
            None => first_key(restore_keys(entries@), name@) is None,
        },
{
    proof {
        lemma_first_key(restore_keys(entries@), name@);
    }
    let mut i: usize = 0;
    while i < entries.len()
        invariant
            i <= entries@.len(),
            forall|j: int| 0 <= j < i ==> restore_keys(entries@)[j] != name@,
        decreases entries@.len() - i,
    {
        if str_eq(entries[i].interface_name.as_str(), name) {
            proof {
                lemma_first_key(restore_keys(entries@), name@);
                match first_key(restore_keys(entries@), name@) {
                    Some(k) => {
                        if k > i {
                            assert(restore_keys(entries@)[i as int] == name@);
                        }
                    },
                    None => {
                        assert(restore_keys(entries@)[i as int] == name@);
                    },
                }
            }
            return Some(i);
        }
        i = i + 1;
    }
    proof {
        lemma_first_key(restore_keys(entries@), name@);
        match first_key(restore_keys(entries@), name@) {
            Some(k) => {
                assert(restore_keys(entries@)[k] != name@);
            },
            None => {},
        }
    }
    None
}

proof fn lemma_remove_unique(keys: Seq<Seq<char>>, i: int)
    requires
        unique_keys(keys),
        0 <= i < keys.len(),
    ensures
        unique_keys(keys.remove(i)),
{
    assert forall|a: int, b: int| 0 <= a < b < keys.remove(i).len() implies keys.remove(i)[a]
        != keys.remove(i)[b] by {
        let a2 = if a < i {
            a
        } else {
            a + 1
        };
        let b2 = if b < i {
            b
        } else {
            b + 1
        };
        assert(keys.remove(i)[a] == keys[a2]);
        assert(keys.remove(i)[b] == keys[b2]);
    }
}

/// Marks the Wi-Fi capture stopped: every interface loses its monitor
/// interface, and the restore entries of the configured interfaces are taken
/// out and returned, in interface order, for the caller to apply.
pub fn stop_wifi_capture(state: &mut WebState) -> (plan: Vec<RestoreType>)
    requires
        old(state).wf(),
    ensures
        final(state).wf(),
        !final(state).wifi_running,
        final(state).bluetooth_running == old(state).bluetooth_running,
        restore_views(plan@) == take_restores(
            interface_names(old(state).settings.interfaces@),
            old(state).wifi_interface_restore_types@,
        ).0,
        final(state).wifi_interface_restore_types@ == take_restores(
            interface_names(old(state).settings.interfaces@),
            old(state).wifi_interface_restore_types@,
        ).1,
        final(state).settings == (AppSettings {
            interfaces: final(state).settings.interfaces,
            ..old(state).settings
        }),
        final(state).settings.interfaces@ == old(state).settings.interfaces@.map_values(
            |i: InterfaceSettings| without_monitor(i),
        ),
        same_wifi(*final(state), *old(state)),
        same_bluetooth(*final(state), *old(state)),
        final(state).logs@ == old(state).logs@,
{
    state.wifi_running = false;
    let ghost names = interface_names(state.settings.interfaces@);
    let ghost orig = state.wifi_interface_restore_types@;
    let mut plan: Vec<RestoreType> = Vec::new();
    let n = state.settings.interfaces.len();
    let mut i: usize = 0;
    proof {
        assert(names.subrange(0, n as int) =~= names);
        assert(restore_views(plan@) + take_restores(names, orig).0 =~= take_restores(names, orig).0);
    }
    while i < n
        invariant
            n == state.settings.interfaces@.len(),
            i <= n,
            names == interface_names(old(state).settings.interfaces@),
            names.len() == n,
            state.settings == (AppSettings {
                interfaces: state.settings.interfaces,
                ..old(state).settings
            }),
            forall|k: int| 0 <= k < i ==> state.settings.interfaces@[k] == without_monitor(
                old(state).settings.interfaces@[k],
            ),
            forall|k: int| i <= k < n ==> state.settings.interfaces@[k]
                == old(state).settings.interfaces@[k],
            unique_keys(restore_keys(state.wifi_interface_restore_types@)),
            restore_views(plan@) + take_restores(
                names.subrange(i as int, n as int),
                state.wifi_interface_restore_types@,
            ).0 == take_restores(names, orig).0,
            take_restores(names.subrange(i as int, n as int), state.wifi_interface_restore_types@).1
                == take_restores(names, orig).1,
            !state.wifi_running,
            state.bluetooth_running == old(state).bluetooth_running,
            same_wifi(*state, *old(state)),
            same_bluetooth(*state, *old(state)),
            state.logs@ == old(state).logs@,
            orig == old(state).wifi_interface_restore_types@,
        decreases n - i,
    {
        let mut iface = state.settings.interfaces.remove(i);
        proof {
            assert(names[i as int] == iface.interface_name@);
            let rest = names.subrange(i as int, n as int);
            assert(rest[0] == names[i as int]);
            assert(rest.drop_first() =~= names.subrange(i + 1, n as int));
            lemma_first_key(restore_keys(state.wifi_interface_restore_types@), iface.interface_name@);
        }
        match find_restore(&state.wifi_interface_restore_types, iface.interface_name.as_str()) {
            Some(j) => {
                let ghost before = state.wifi_interface_restore_types@;
                let entry = state.wifi_interface_restore_types.remove(j);
                proof {
                    lemma_remove_unique(restore_keys(before), j as int);
                    assert(restore_keys(state.wifi_interface_restore_types@) =~= restore_keys(
                        before,
                    ).remove(j as int));
                    assert(restore_views(plan@.push(entry)) =~= restore_views(plan@) + seq![
                        (entry.interface_name@, entry.restore_type@),
                    ]);
                }
                plan.push(entry);
            },
            None => {},
        }
        iface.monitor_interface_name = None;
        state.settings.interfaces.insert(i, iface);
        i = i + 1;
    }
    proof {
        assert(names.subrange(n as int, n as int) =~= Seq::<Seq<char>>::empty());
        assert(state.settings.interfaces@ =~= old(state).settings.interfaces@.map_values(
            |i: InterfaceSettings| without_monitor(i),
        ));
        assert(restore_views(plan@) + Seq::empty() =~= restore_views(plan@));
    }
    plan
}


/// Marks the Bluetooth scan stopped.
pub fn stop_bluetooth_scan(state: &mut WebState)
    ensures
        !final(state).bluetooth_running,
        final(state).wifi_running == old(state).wifi_running,
        final(state).settings == old(state).settings,
        final(state).wifi_interface_restore_types@ == old(state).wifi_interface_restore_types@,
        same_wifi(*final(state), *old(state)),
        same_bluetooth(*final(state), *old(state)),
        final(state).logs@ == old(state).logs@,
        old(state).wf() ==> final(state).wf(),
{
    state.bluetooth_running = false;
}

/// Appends `lines`, then `last`, to the log.
fn push_logs_then(state: &mut WebState, lines: Vec<String>, last: String)
    requires
        old(state).logs@.len() <= MAX_LOG_LINES,
    ensures
        string_seqs(final(state).logs@) == keep_last(
            string_seqs(old(state).logs@ + lines@).push(last@),
            MAX_LOG_LINES as nat,
        ),
        same_but_logs(*final(state), *old(state)),
        old(state).wf() ==> final(state).wf(),
{
    let ghost start = state.logs@;
    push_logs(state, lines);
    let ghost mid = state.logs@;
    push_log(state, last);
    proof {
        lemma_keep_last_push(start + lines@, last, MAX_LOG_LINES as nat);
        assert(string_seqs(state.logs@) =~= keep_last(
            string_seqs(start + lines@).push(last@),
            MAX_LOG_LINES as nat,
        ));
    }
}

/// Logs what was reported while the Wi-Fi capture stopped (interface
/// restores, export), then that Wi-Fi scanning stopped.
pub fn log_wifi_stopped(state: &mut WebState, lines: Vec<String>)
    requires
        old(state).logs@.len() <= MAX_LOG_LINES,
    ensures
        string_seqs(final(state).logs@) == keep_last(
            string_seqs(old(state).logs@ + lines@).push("Wi-Fi scanning stopped"@),
            MAX_LOG_LINES as nat,
        ),
        same_but_logs(*final(state), *old(state)),
        old(state).wf() ==> final(state).wf(),
{
    push_logs_then(state, lines, String::from_str("Wi-Fi scanning stopped"));
}

/// Logs what was reported while the Bluetooth scan stopped (export), then
/// that Bluetooth scanning stopped.
pub fn log_bluetooth_stopped(state: &mut WebState, lines: Vec<String>)
    requires
        old(state).logs@.len() <= MAX_LOG_LINES,
    ensures
        string_seqs(final(state).logs@) == keep_last(
            string_seqs(old(state).logs@ + lines@).push("Bluetooth scanning stopped"@),
            MAX_LOG_LINES as nat,
        ),
        same_but_logs(*final(state), *old(state)),
        old(state).wf() ==> final(state).wf(),
{
    push_logs_then(state, lines, String::from_str("Bluetooth scanning stopped"));
}

/// After both radios stopped: forgets the live tables and logs it.
pub fn clear_after_stop(state: &mut WebState)
    requires
        old(state).logs@.len() <= MAX_LOG_LINES,
    ensures
        final(state).access_points@.len() == 0,
        final(state).clients@.len() == 0,
        final(state).bluetooth_devices@.len() == 0,
        final(state).channel_usage@.len() == 0,
        final(state).bt_enumeration_status@.len() == 0,
        same_runtime(*final(state), *old(state)),
        string_seqs(final(state).logs@) == keep_last(
            string_seqs(old(state).logs@).push("Live tables cleared"@).push("Scanning stopped"@),
            MAX_LOG_LINES as nat,
        ),
        old(state).wf() ==> final(state).wf(),
{
    clear_live_scan_state(state);
    let ghost start = state.logs@;
    let first = String::from_str("Live tables cleared");
    let ghost first_view = first;
    push_log(state, first);
    let second = String::from_str("Scanning stopped");
    let ghost second_view = second;
    push_log(state, second);
    proof {
        lemma_keep_last_push(start.push(first_view), second_view, MAX_LOG_LINES as nat);
        assert(string_seqs(state.logs@) =~= keep_last(
            string_seqs(start).push(first_view@).push(second_view@),
            MAX_LOG_LINES as nat,
        ));
    }
}

/// The log line for one interface put back to its earlier type:
/// `<iface> restored to <type>`, or `failed to restore <iface> to <type>:
/// <error>`.
pub open spec fn restore_line(name: Seq<char>, restore_type: Seq<char>, error: Option<Seq<char>>) -> Seq<char> {
    match error {
        None => name + " restored to "@ + restore_type,
        Some(e) => "failed to restore "@ + name + " to "@ + restore_type + ": "@ + e,
    }
}

/// The log line for putting `interface_name` back to `restore_type`, given
/// the error that attempt gave, if any.
pub fn restore_status_line(interface_name: &str, restore_type: &str, error: Option<&str>) -> (r: String)
    ensures
        r@ == restore_line(
            interface_name@,
            restore_type@,
            match error {
                Some(e) => Some(e@),
                None => None,
            },
        ),
{
    let mut out: Vec<char> = Vec::new();
    match error {
        None => {
            push_str(&mut out, interface_name);
            push_str(&mut out, " restored to ");
            push_str(&mut out, restore_type);
        },
        Some(e) => {
            push_str(&mut out, "failed to restore ");
            push_str(&mut out, interface_name);
            push_str(&mut out, " to ");
            push_str(&mut out, restore_type);
            push_str(&mut out, ": ");
            push_str(&mut out, e);
        },
    }
    string_from_chars(out.as_slice())
}

/// Which data an export holds.
#[derive(Debug, Clone, Copy, PartialEq, Eq, Structural)]
pub enum ExportKind {
    Wifi,
    Bluetooth,
}

pub open spec fn export_kind_name(kind: ExportKind) -> Seq<char> {
    match kind {
        ExportKind::Wifi => "wifi"@,
        ExportKind::Bluetooth => "bluetooth"@,
    }
}

fn push_kind(out: &mut Vec<char>, kind: ExportKind)
    ensures
        final(out)@ == old(out)@ + export_kind_name(kind),
{
    match kind {
        ExportKind::Wifi => push_str(out, "wifi"),
        ExportKind::Bluetooth => push_str(out, "bluetooth"),
    }
}

/// The file an export taken at `timestamp` (seconds) is written to:
/// `easywifi_<kind>_export_<timestamp>.json`.
pub fn export_file_name(kind: ExportKind, timestamp: u64) -> (r: String)
    ensures
        r@ == "easywifi_"@ + export_kind_name(kind) + "_export_"@ + decimal(timestamp as nat)
            + ".json"@,
{
    let mut out: Vec<char> = Vec::new();
    push_str(&mut out, "easywifi_");
    push_kind(&mut out, kind);
    push_str(&mut out, "_export_");
    push_decimal(&mut out, timestamp);
    push_str(&mut out, ".json");
    string_from_chars(out.as_slice())
}

/// How an export attempt ended.
pub enum ExportOutcome {
    /// The export directory could not be created.
    DirectoryFailed { dir: String, error: String },
    Saved { path: String },
    /// Serialising or writing the file failed.
    WriteFailed { path: String },
}

pub open spec fn export_line(kind: ExportKind, outcome: ExportOutcome) -> Seq<char> {
    match outcome {
        ExportOutcome::DirectoryFailed { dir, error } => export_kind_name(kind)
            + " export failed: unable to create "@ + dir@ + ": "@ + error@,
        ExportOutcome::Saved { path } => export_kind_name(kind) + " export saved to "@ + path@,
        ExportOutcome::WriteFailed { path } => export_kind_name(kind) + " export failed for "@
            + path@,
    }
}

/// The log line that reports how an export ended.
pub fn export_log_line(kind: ExportKind, outcome: &ExportOutcome) -> (r: String)
    ensures
        r@ == export_line(kind, *outcome),
{
    let mut out: Vec<char> = Vec::new();
    push_kind(&mut out, kind);
    match outcome {
        ExportOutcome::DirectoryFailed { dir, error } => {
            push_str(&mut out, " export failed: unable to create ");
            push_str(&mut out, dir.as_str());
            push_str(&mut out, ": ");
            push_str(&mut out, error.as_str());
        },
        ExportOutcome::Saved { path } => {
            push_str(&mut out, " export saved to ");
            push_str(&mut out, path.as_str());
        },
        ExportOutcome::WriteFailed { path } => {
            push_str(&mut out, " export failed for ");
            push_str(&mut out, path.as_str());
        },
    }
    string_from_chars(out.as_slice())
}


/// Records that interface `entry.interface_name` goes back to
/// `entry.restore_type`, replacing an earlier entry for it.
pub(crate) fn upsert_restore(entries: &mut Vec<RestoreType>, entry: RestoreType)
    requires
        unique_keys(restore_keys(old(entries)@)),
    ensures
        final(entries)@ == upsert(
            old(entries)@,
            restore_keys(old(entries)@),
            entry.interface_name@,
            entry,
        ),
        unique_keys(restore_keys(final(entries)@)),
{
    let ghost keys = restore_keys(entries@);
    proof {
        lemma_upsert_unique(keys, entry.interface_name@);
        lemma_first_key(keys, entry.interface_name@);
    }
    match find_restore(entries, entry.interface_name.as_str()) {
        Some(i) => {
            entries.set(i, entry);
            assert(restore_keys(entries@) =~= upsert(
                keys,
                keys,
                entry.interface_name@,
                entry.interface_name@,
            ));
        },
        None => {
            entries.push(entry);
            assert(restore_keys(entries@) =~= upsert(
                keys,
                keys,
                entry.interface_name@,
                entry.interface_name@,
            ));
        },
    }
}

} // verus!
