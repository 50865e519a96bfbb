//! The desktop view's handling of capture and scanner events: the device
//! tables, the throttles on recorded positions and stored updates, the
//! watchlist alerts and the status lines. Each step takes the event and what
//! the surroundings supplied (the OUI label, the position fix, the clock),
//! updates the tables, and answers what the view must refresh and what the
//! caller must do (store, play an alert tone).

use vstd::prelude::*;
use crate::display::{
    ThrottleEntry, throttle_allows, throttle_keys, throttle_view, should_record_observation,
    should_persist_device_update, bluetooth_enumeration_status_from_device, enumeration_status_of,
};
use crate::merge::{
    ap_merged, client_merged, bluetooth_merged, merge_ap, merge_client, merge_bluetooth_device,
    with_count, stored_count, refresh_ap_client_count_for_bssid, recount, related_bssids,
};
use crate::records::{
    AccessPointRecord, ClientRecord, BluetoothDeviceRecord, GeoObservation, first_key, ap_keys,
    client_keys, bluetooth_keys, lemma_first_key, find_ap, find_client, find_bluetooth,
};
use crate::settings::{WatchlistEntry, WatchlistSettings};
use crate::text::{push_str, string_from_chars, str_eq, string_seqs, contains_chars, str_chars};
use crate::watchdog::{ScanWatchdog, RadioWatch, note_activity, push_status, watch_view, InterfaceHealthState};
use crate::watchlist::{
    ap_watchlist_match, client_watchlist_match, bluetooth_watchlist_match, first_ap_hit,
    first_client_hit, first_bluetooth_hit, hit_view, opt_match_view, associated_ssid,
};
use crate::web_state::{
    BtStatusEntry, BtEnumerationStatus, ChannelUsagePoint, HandshakeRecord, keep_last, upsert,
    unique_keys, status_keys, upsert_status, MAX_CHANNEL_USAGE_POINTS,
};
use crate::watchdog::MAX_STATUS_LINES;

verus! {

/// A position fix from the GPS receiver (coordinates as IEEE-754 bit
/// patterns, carried unchanged).
#[derive(Debug, Clone, Copy, PartialEq, Eq, Structural)]
pub struct PositionFix {
    /// Milliseconds since the Unix epoch.
    pub timestamp_ms: i64,
    pub latitude_bits: u64,
    pub longitude_bits: u64,
    pub altitude_bits: Option<u64>,
}

/// The sighting recorded at `fix` with signal level `rssi`.
pub open spec fn observation_at(fix: PositionFix, rssi: Option<i32>) -> GeoObservation {
    GeoObservation {
        timestamp_ms: fix.timestamp_ms,
        latitude_bits: fix.latitude_bits,
        longitude_bits: fix.longitude_bits,
        altitude_bits: fix.altitude_bits,
        rssi_dbm: rssi,
    }
}

/// What the caller must do after a step.
pub enum DesktopAction {
    /// Store a sighting of a device.
    AddObservation { device_type: String, device_id: String, observation: GeoObservation },
    /// Store the access point with this BSSID as the tables now hold it.
    PersistAccessPoint(String),
    /// Store the client with this MAC as the tables now hold it.
    PersistClient(String),
    /// Store the Bluetooth device with this MAC as the tables now hold it.
    PersistBluetoothDevice(String),
    AddHandshake(HandshakeRecord),
    IncrementHandshakeCount(String),
    AddChannelUsage(ChannelUsagePoint),
    /// Export the capture of a completed handshake (the network's SSID, when
    /// known, names the file), then report it with `finish_handshake_export`.
    ExportHandshake { ssid: Option<String>, bssid: String, client_mac: String, timestamp_ms: i64 },
    AlertTone { frequency_hz: u32, duration_ms: u32 },
}

/// A `DesktopAction` as plain values.
pub ghost enum ActionView {
    AddObservation(Seq<char>, Seq<char>, GeoObservation),
    PersistAccessPoint(Seq<char>),
    PersistClient(Seq<char>),
    PersistBluetoothDevice(Seq<char>),
    AddHandshake(Seq<char>, Seq<char>, i64),
    IncrementHandshakeCount(Seq<char>),
    AddChannelUsage(ChannelUsagePoint),
    ExportHandshake(Option<Seq<char>>, Seq<char>, Seq<char>, i64),
    AlertTone(u32, u32),
}

impl View for DesktopAction {
    type V = ActionView;

    open spec fn view(&self) -> ActionView {
        match self {
            DesktopAction::AddObservation { device_type, device_id, observation } =>
                ActionView::AddObservation(device_type@, device_id@, *observation),
            DesktopAction::PersistAccessPoint(b) => ActionView::PersistAccessPoint(b@),
            DesktopAction::PersistClient(m) => ActionView::PersistClient(m@),
            DesktopAction::PersistBluetoothDevice(m) => ActionView::PersistBluetoothDevice(m@),
            DesktopAction::AddHandshake(h) => ActionView::AddHandshake(
                h.bssid@,
                h.client_mac@,
                h.timestamp_ms,
            ),
            DesktopAction::IncrementHandshakeCount(b) => ActionView::IncrementHandshakeCount(b@),
            DesktopAction::AddChannelUsage(u) => ActionView::AddChannelUsage(*u),
            DesktopAction::ExportHandshake { ssid, bssid, client_mac, timestamp_ms } =>
                ActionView::ExportHandshake(
                match ssid {
                    Some(s) => Some(s@),
                    None => None,
                },
                bssid@,
                client_mac@,
                *timestamp_ms,
            ),
            DesktopAction::AlertTone { frequency_hz, duration_ms } => ActionView::AlertTone(
                *frequency_hz,
                *duration_ms,
            ),
        }
    }
}

pub open spec fn actions_view(s: Seq<DesktopAction>) -> Seq<ActionView> {
    s.map_values(|a: DesktopAction| a@)
}

/// Which parts of the view must be redrawn.
#[derive(Debug, Clone, Copy, PartialEq, Eq, Structural)]
pub struct UiRefreshHint {
    pub ap_list: bool,
    pub client_list: bool,
    pub bluetooth_list: bool,
    pub channel_chart: bool,
    pub status: bool,
}

/// The alerts the user asked for.
#[derive(Debug, Clone, Copy, PartialEq, Eq, Structural)]
pub struct AlertSettings {
    pub watchlist_alerts: bool,
    pub handshake_alerts: bool,
}

/// What the desktop view holds of the devices seen during a session.
pub struct DesktopTables {
    pub access_points: Vec<AccessPointRecord>,
    pub clients: Vec<ClientRecord>,
    pub bluetooth_devices: Vec<BluetoothDeviceRecord>,
    pub channel_usage: Vec<ChannelUsagePoint>,
    pub enumeration_status: Vec<BtStatusEntry>,
    /// Radio health and the status lines.
    pub watchdog: ScanWatchdog,
    /// When a position was last recorded for each device key.
    pub last_observation_by_device: Vec<ThrottleEntry>,
    /// When each device key was last stored.
    pub last_storage_persist_by_device: Vec<ThrottleEntry>,
    /// Alert keys already announced.
    pub alerted_watch_entities: Vec<String>,
}

impl DesktopTables {
    /// Enumeration results are kept once per device.
    pub open spec fn wf(&self) -> bool {
        unique_keys(status_keys(self.enumeration_status@))
    }
}

/// `<prefix>:<id>`, the key of a device in the throttles and alerts.
pub open spec fn device_key(prefix: Seq<char>, id: Seq<char>) -> Seq<char> {
    prefix + ":"@ + id
}

fn make_device_key(prefix: &str, id: &str) -> (r: String)
    ensures
        r@ == device_key(prefix@, id@),
{
    let mut out: Vec<char> = Vec::new();
    push_str(&mut out, prefix);
    push_str(&mut out, ":");
    push_str(&mut out, id);
    string_from_chars(out.as_slice())
}

/// The sighting recorded for the device keyed `key` with level `rssi`, when a
/// fix is known and the device's last recorded sighting is at least 3
/// seconds older.
pub open spec fn recorded(map: Seq<ThrottleEntry>, key: Seq<char>, fix: Option<PositionFix>, rssi: Option<i32>) -> Option<GeoObservation> {
    match fix {
        Some(f) => if throttle_allows(map, key, f.timestamp_ms, 3000) {
            Some(observation_at(f, rssi))
        } else {
            None
        },
        None => None,
    }
}

/// The throttle map after `recorded` let a sighting through (or not).
pub open spec fn after_record(map: Seq<ThrottleEntry>, key: Seq<char>, fix: Option<PositionFix>, rssi: Option<i32>) -> Seq<(Seq<char>, i64)> {
    match recorded(map, key, fix, rssi) {
        Some(o) => upsert(throttle_view(map), throttle_keys(map), key, (key, o.timestamp_ms)),
        None => throttle_view(map),
    }
}

fn record_sighting(map: &mut Vec<ThrottleEntry>, key: &str, fix: Option<PositionFix>, rssi: Option<i32>) -> (r: Option<GeoObservation>)
    ensures
        r == recorded(old(map)@, key@, fix, rssi),
        throttle_view(final(map)@) == after_record(old(map)@, key@, fix, rssi),
{
    match fix {
        Some(f) => {
            if should_record_observation(map, key, f.timestamp_ms) {
                Some(GeoObservation {
                    timestamp_ms: f.timestamp_ms,
                    latitude_bits: f.latitude_bits,
                    longitude_bits: f.longitude_bits,
                    altitude_bits: f.altitude_bits,
                    rssi_dbm: rssi,
                })
            } else {
                None
            }
        },
        None => None,
    }
}

/// Adds `key` to the set `keys`; answers whether it was new.
fn insert_new(keys: &mut Vec<String>, key: String) -> (r: bool)
    ensures
        r == !string_seqs(old(keys)@).contains(key@),
        string_seqs(final(keys)@) == if r {
            string_seqs(old(keys)@).push(key@)
        } else {
            string_seqs(old(keys)@)
        },
{
    let mut i: usize = 0;
    while i < keys.len()
        invariant
            i <= keys@.len(),
            keys@ == old(keys)@,
            forall|j: int| 0 <= j < i ==> string_seqs(keys@)[j] != key@,
        decreases keys@.len() - i,
    {
        if str_eq(keys[i].as_str(), key.as_str()) {
            assert(string_seqs(keys@)[i as int] == key@);
            return false;
        }
        i = i + 1;
    }
    let ghost before = string_seqs(keys@);
    keys.push(key);
    assert(string_seqs(keys@) =~= before.push(key@));
    true
}

/// A watchlist hit on an incoming device is announced once per alert key
/// (`<prefix>:<alert key>`) while watchlist alerts are on.
pub open spec fn announces(
    alerts: AlertSettings,
    hit: Option<(Seq<char>, Seq<char>, Seq<char>)>,
    prefix: Seq<char>,
    alerted: Seq<String>,
) -> bool {
    alerts.watchlist_alerts && match hit {
        Some(h) => !string_seqs(alerted).contains(device_key(prefix, h.2)),
        None => false,
    }
}

pub open spec fn alerted_after(
    alerts: AlertSettings,
    hit: Option<(Seq<char>, Seq<char>, Seq<char>)>,
    prefix: Seq<char>,
    alerted: Seq<String>,
) -> Seq<Seq<char>> {
    match hit {
        Some(h) => if announces(alerts, hit, prefix, alerted) {
            string_seqs(alerted).push(device_key(prefix, h.2))
        } else {
            string_seqs(alerted)
        },
        None => string_seqs(alerted),
    }
}

/// The status lines after `line` was added, when `add` holds.
pub open spec fn status_after_line(lines: Seq<String>, add: bool, line: Seq<char>) -> Seq<Seq<char>> {
    if add {
        keep_last(string_seqs(lines).push(line), MAX_STATUS_LINES as nat)
    } else {
        string_seqs(lines)
    }
}

fn push_status_line(wd: &mut ScanWatchdog, line: String)
    ensures
        string_seqs(final(wd).status_lines@) == keep_last(
            string_seqs(old(wd).status_lines@).push(line@),
            MAX_STATUS_LINES as nat,
        ),
        watch_view(final(wd).wifi) == watch_view(old(wd).wifi),
        watch_view(final(wd).bluetooth) == watch_view(old(wd).bluetooth),
{
    let ghost before = wd.status_lines@;
    push_status(wd, line);
    assert(string_seqs(wd.status_lines@) =~= keep_last(
        string_seqs(before).push(line@),
        MAX_STATUS_LINES as nat,
    ));
}

/// The view of a radio right after data arrived on it.
pub open spec fn active_view(w: RadioWatch, detail: Seq<char>, now: u64) -> (InterfaceHealthState, Seq<char>, Option<u64>, u32, u8, Option<u64>) {
    (InterfaceHealthState::Active, detail, Some(now), w.restart_count, 0u8, None)
}

/// `aps` after the sighting `inc` was merged in (see `merge_ap`).
pub open spec fn ap_merge_result(aps: Seq<AccessPointRecord>, inc: AccessPointRecord, out: Seq<AccessPointRecord>) -> bool {
    match first_key(ap_keys(aps), inc.bssid@) {
        Some(i) => {
            &&& out.len() == aps.len()
            &&& forall|j: int| 0 <= j < aps.len() && j != i ==> out[j] == aps[j]
            &&& ap_merged(aps[i], inc, out[i])
        },
        None => out == aps.push(inc),
    }
}

/// An incoming access point with its OUI label filled in when it had none.
pub open spec fn ap_labelled(ap: AccessPointRecord, oui: Option<String>) -> AccessPointRecord {
    if ap.oui_manufacturer is None {
        AccessPointRecord { oui_manufacturer: oui, ..ap }
    } else {
        ap
    }
}

/// `ap` with `obs`, if any, added to its sightings.
pub open spec fn ap_with_sighting(ap: AccessPointRecord, obs: Option<GeoObservation>) -> Seq<GeoObservation> {
    match obs {
        Some(o) => ap.observations@.push(o),
        None => ap.observations@,
    }
}

/// The status line announcing a watchlisted access point.
pub open spec fn ap_alert_line(label: Seq<char>, ap: AccessPointRecord) -> Seq<char> {
    "ALERT "@ + label + ": AP "@ + (match ap.ssid {
        Some(s) => s@,
        None => "<hidden>"@,
    }) + " ("@ + ap.bssid@ + ")"@
}

fn ap_alert_text(label: &String, ap: &AccessPointRecord) -> (r: String)
    ensures
        r@ == ap_alert_line(label@, *ap),
{
    let mut out: Vec<char> = Vec::new();
    push_str(&mut out, "ALERT ");
    push_str(&mut out, label.as_str());
    push_str(&mut out, ": AP ");
    match &ap.ssid {
        Some(s) => push_str(&mut out, s.as_str()),
        None => push_str(&mut out, "<hidden>"),
    }
    push_str(&mut out, " (");
    push_str(&mut out, ap.bssid.as_str());
    push_str(&mut out, ")");
    string_from_chars(out.as_slice())
}

/// The hit of the first watchlist entry for an access point, as plain values.
pub open spec fn ap_hit(entries: Seq<WatchlistEntry>, ap: AccessPointRecord) -> Option<(Seq<char>, Seq<char>, Seq<char>)> {
    match first_ap_hit(entries, ap) {
        Some(i) => Some(hit_view(i as nat, entries[i])),
        None => None,
    }
}

/// Decides and records an alert for a watchlist hit `hit` on a device keyed
/// by `prefix`; answers whether it was announced.
fn announce(
    t: &mut DesktopTables,
    alerts: AlertSettings,
    hit: Option<crate::watchlist::WatchlistMatch>,
    prefix: &str,
    line: String,
) -> (r: bool)
    ensures
        r == announces(alerts, opt_match_view(hit), prefix@, old(t).alerted_watch_entities@),
        string_seqs(final(t).alerted_watch_entities@) == alerted_after(
            alerts,
            opt_match_view(hit),
            prefix@,
            old(t).alerted_watch_entities@,
        ),
        string_seqs(final(t).watchdog.status_lines@) == status_after_line(
            old(t).watchdog.status_lines@,
            r,
            line@,
        ),
        watch_view(final(t).watchdog.wifi) == watch_view(old(t).watchdog.wifi),
        watch_view(final(t).watchdog.bluetooth) == watch_view(old(t).watchdog.bluetooth),
        final(t).access_points@ == old(t).access_points@,
        final(t).clients@ == old(t).clients@,
        final(t).bluetooth_devices@ == old(t).bluetooth_devices@,
        final(t).channel_usage@ == old(t).channel_usage@,
        final(t).enumeration_status@ == old(t).enumeration_status@,
        final(t).last_observation_by_device@ == old(t).last_observation_by_device@,
        final(t).last_storage_persist_by_device@ == old(t).last_storage_persist_by_device@,
{
    if !alerts.watchlist_alerts {
        return false;
    }
    match hit {
        None => false,
        Some(m) => {
            let key = make_device_key(prefix, m.alert_key.as_str());
            if insert_new(&mut t.alerted_watch_entities, key) {
                push_status_line(&mut t.watchdog, line);
                true
            } else {
                false
            }
        },
    }
}

/// The tables after the access point sighting `ap`: OUI label filled in
/// (`oui`), a sighting recorded at `fix` when the throttle lets it through,
/// merged into the table with its client count refreshed, stored when the
/// store throttle lets it through, and announced when it is a new watchlist
/// hit. `now` is when the Wi-Fi radio last delivered data.
pub open spec fn ap_seen_effect(
    old_t: DesktopTables,
    new_t: DesktopTables,
    alerts: AlertSettings,
    watchlists: WatchlistSettings,
    ap: AccessPointRecord,
    oui: Option<String>,
    fix: Option<PositionFix>,
    now: u64,
    hint: UiRefreshHint,
    actions: Seq<ActionView>,
) -> bool {
    let ap1 = ap_labelled(ap, oui);
    let key = device_key("ap"@, ap.bssid@);
    let obs = recorded(old_t.last_observation_by_device@, key, fix, ap.rssi_dbm);
    let hit = ap_hit(watchlists.entries@, ap1);
    let announced = announces(alerts, hit, "ap"@, old_t.alerted_watch_entities@);
    let stored = throttle_allows(old_t.last_storage_persist_by_device@, key, ap.last_seen, 2000);
    &&& exists|inc: AccessPointRecord, merged: Seq<AccessPointRecord>|
        {
            &&& inc == AccessPointRecord { observations: inc.observations, ..ap1 }
            &&& inc.observations@ == ap_with_sighting(ap1, obs)
            &&& ap_merge_result(old_t.access_points@, inc, merged)
            &&& new_t.access_points@ == with_count(
                merged,
                ap.bssid@,
                stored_count(old_t.clients@, ap.bssid@),
            )
        }
    &&& new_t.clients@ == old_t.clients@
    &&& new_t.bluetooth_devices@ == old_t.bluetooth_devices@
    &&& new_t.channel_usage@ == old_t.channel_usage@
    &&& new_t.enumeration_status@ == old_t.enumeration_status@
    &&& throttle_view(new_t.last_observation_by_device@) == after_record(
        old_t.last_observation_by_device@,
        key,
        fix,
        ap.rssi_dbm,
    )
    &&& throttle_view(new_t.last_storage_persist_by_device@) == if stored {
        upsert(
            throttle_view(old_t.last_storage_persist_by_device@),
            throttle_keys(old_t.last_storage_persist_by_device@),
            key,
            (key, ap.last_seen),
        )
    } else {
        throttle_view(old_t.last_storage_persist_by_device@)
    }
    &&& string_seqs(new_t.alerted_watch_entities@) == alerted_after(
        alerts,
        hit,
        "ap"@,
        old_t.alerted_watch_entities@,
    )
    &&& string_seqs(new_t.watchdog.status_lines@) == status_after_line(
        old_t.watchdog.status_lines@,
        announced,
        ap_alert_line(
            match hit {
                Some(h) => h.0,
                None => Seq::empty(),
            },
            ap1,
        ),
    )
    &&& watch_view(new_t.watchdog.wifi) == active_view(
        old_t.watchdog.wifi,
        "capturing Wi-Fi packets"@,
        now,
    )
    &&& watch_view(new_t.watchdog.bluetooth) == watch_view(old_t.watchdog.bluetooth)
    &&& hint == UiRefreshHint {
        ap_list: true,
        client_list: false,
        bluetooth_list: false,
        channel_chart: false,
        status: announced,
    }
    &&& actions == (match obs {
        Some(o) => seq![ActionView::AddObservation("ap"@, ap.bssid@, o)],
        None => Seq::empty(),
    }) + (if stored {
        seq![ActionView::PersistAccessPoint(ap.bssid@)]
    } else {
        Seq::empty()
    }) + (if announced {
        seq![ActionView::AlertTone(1100, 70)]
    } else {
        Seq::empty()
    })
}

/// Handles an access point sighting (see `ap_seen_effect`).
#[verifier::rlimit(60)]
pub fn access_point_seen(
    t: &mut DesktopTables,
    alerts: AlertSettings,
    watchlists: &WatchlistSettings,
    ap: AccessPointRecord,
    oui: Option<String>,
    fix: Option<PositionFix>,
    now: u64,
) -> (r: (UiRefreshHint, Vec<DesktopAction>))
    requires
        old(t).wf(),
    ensures
        final(t).wf(),
        ap_seen_effect(*old(t), *final(t), alerts, *watchlists, ap, oui, fix, now, r.0, actions_view(r.1@)),
{
    let ghost t0 = *t;
    note_activity(&mut t.watchdog.wifi, String::from_str("capturing Wi-Fi packets"), now);
    let mut ap = ap;
    if ap.oui_manufacturer.is_none() {
        ap.oui_manufacturer = oui;
    }
    let ghost ap1 = ap;
    let hit = ap_watchlist_match(&ap, watchlists);
    let line = match &hit {
        Some(m) => ap_alert_text(&m.label, &ap),
        None => String::new(),
    };
    let key = make_device_key("ap", ap.bssid.as_str());
    let obs = record_sighting(&mut t.last_observation_by_device, key.as_str(), fix, ap.rssi_dbm);
    let mut actions: Vec<DesktopAction> = Vec::new();
    if let Some(o) = obs {
        ap.observations.push(o);
        actions.push(DesktopAction::AddObservation {
            device_type: String::from_str("ap"),
            device_id: ap.bssid.clone(),
            observation: o,
        });
    }
    let ghost after_obs = actions@;
    let bssid = ap.bssid.clone();
    let last_seen = ap.last_seen;
    let ghost inc = ap;
    merge_ap(&mut t.access_points, ap);
    let ghost merged = t.access_points@;
    refresh_ap_client_count_for_bssid(&mut t.access_points, t.clients.as_slice(), bssid.as_str());
    let stored = should_persist_device_update(
        &mut t.last_storage_persist_by_device,
        key.as_str(),
        last_seen,
    );
    if stored {
        actions.push(DesktopAction::PersistAccessPoint(bssid.clone()));
    }
    let ghost after_store = actions@;
    let announced = announce(t, alerts, hit, "ap", line);
    if announced {
        actions.push(DesktopAction::AlertTone { frequency_hz: 1100, duration_ms: 70 });
    }
    proof {
        assert(inc == AccessPointRecord { observations: inc.observations, ..ap1 });
        assert(inc.observations@ == ap_with_sighting(ap1, obs));
        assert(ap_merge_result(t0.access_points@, inc, merged));
        assert(actions_view(actions@) =~= (match obs {
            Some(o) => seq![ActionView::AddObservation("ap"@, inc.bssid@, o)],
            None => Seq::empty(),
        }) + (if stored {
            seq![ActionView::PersistAccessPoint(inc.bssid@)]
        } else {
            Seq::empty()
        }) + (if announced {
            seq![ActionView::AlertTone(1100, 70)]
        } else {
            Seq::empty()
        }));
    }
    let hint = UiRefreshHint {
        ap_list: true,
        client_list: false,
        bluetooth_list: false,
        channel_chart: false,
        status: announced,
    };
    (hint, actions)
}

/// Two access point tables list the same networks (BSSIDs and SSIDs) in the
/// same order.
pub open spec fn same_networks(a: Seq<AccessPointRecord>, b: Seq<AccessPointRecord>) -> bool {
    &&& a.len() == b.len()
    &&& forall|i: int| 0 <= i < a.len() ==> (#[trigger] a[i]).bssid == b[i].bssid && a[i].ssid == b[i].ssid
}

proof fn lemma_same_networks_bssid(a: Seq<AccessPointRecord>, b: Seq<AccessPointRecord>, bssid: Seq<char>)
    requires
        same_networks(a, b),
    ensures
        crate::watchlist::first_bssid_ci(a, bssid) == crate::watchlist::first_bssid_ci(b, bssid),
    decreases a.len(),
{
    if a.len() > 0 {
        assert(same_networks(a.drop_first(), b.drop_first())) by {
            assert forall|i: int| 0 <= i < a.drop_first().len() implies (#[trigger] a.drop_first()[i]).bssid
                == b.drop_first()[i].bssid && a.drop_first()[i].ssid == b.drop_first()[i].ssid by {
                assert(a.drop_first()[i] == a[i + 1]);
                assert(b.drop_first()[i] == b[i + 1]);
            }
        }
        assert(a[0].bssid == b[0].bssid);
        lemma_same_networks_bssid(a.drop_first(), b.drop_first(), bssid);
    }
}

proof fn lemma_same_networks_ssid(a: Seq<AccessPointRecord>, b: Seq<AccessPointRecord>, c: ClientRecord)
    requires
        same_networks(a, b),
    ensures
        associated_ssid(a, c) == associated_ssid(b, c),
{
    if let Some(x) = c.associated_ap {
        lemma_same_networks_bssid(a, b, x@);
        crate::watchlist::lemma_first_bssid_ci(a, x@);
        match crate::watchlist::first_bssid_ci(a, x@) {
            Some(k) => {
                assert(a[k].ssid == b[k].ssid);
            },
            None => {},
        }
    }
}

proof fn lemma_recount_keeps_networks(aps: Seq<AccessPointRecord>, clients: Seq<ClientRecord>, bssids: Seq<Seq<char>>)
    ensures
        same_networks(aps, recount(aps, clients, bssids).0),
    decreases bssids.len(),
{
    if bssids.len() > 0 {
        let prev = recount(aps, clients, bssids.drop_last());
        lemma_recount_keeps_networks(aps, clients, bssids.drop_last());
        let b = bssids.last();
        lemma_first_key(ap_keys(prev.0), b);
        match first_key(ap_keys(prev.0), b) {
            Some(i) => {
                let c = stored_count(clients, b);
                let next = with_count(prev.0, b, c);
                assert forall|j: int| 0 <= j < aps.len() implies (#[trigger] aps[j]).bssid == next[j].bssid
                    && aps[j].ssid == next[j].ssid by {
                    assert(aps[j].bssid == prev.0[j].bssid);
                }
            },
            None => {},
        }
    }
}

/// The store actions for the access points whose client count changed
/// (those still in the table).
pub open spec fn persist_changed(aps: Seq<AccessPointRecord>, changed: Seq<Seq<char>>) -> Seq<ActionView>
    decreases changed.len(),
{
    if changed.len() == 0 {
        Seq::empty()
    } else {
        persist_changed(aps, changed.drop_last()) + if first_key(ap_keys(aps), changed.last()) is Some {
            seq![ActionView::PersistAccessPoint(changed.last())]
        } else {
            Seq::empty()
        }
    }
}

/// `clients` after the sighting `inc` was merged in (see `merge_client`).
pub open spec fn client_merge_result(clients: Seq<ClientRecord>, inc: ClientRecord, out: Seq<ClientRecord>) -> bool {
    match first_key(client_keys(clients), inc.mac@) {
        Some(i) => {
            &&& out.len() == clients.len()
            &&& forall|j: int| 0 <= j < clients.len() && j != i ==> out[j] == clients[j]
            &&& client_merged(clients[i], inc, out[i])
        },
        None => out == clients.push(inc),
    }
}

pub open spec fn client_labelled(c: ClientRecord, oui: Option<String>) -> ClientRecord {
    if c.oui_manufacturer is None {
        ClientRecord { oui_manufacturer: oui, ..c }
    } else {
        c
    }
}

pub open spec fn client_alert_line(label: Seq<char>, mac: Seq<char>) -> Seq<char> {
    "ALERT "@ + label + ": client "@ + mac
}

fn client_alert_text(label: &String, mac: &String) -> (r: String)
    ensures
        r@ == client_alert_line(label@, mac@),
{
    let mut out: Vec<char> = Vec::new();
    push_str(&mut out, "ALERT ");
    push_str(&mut out, label.as_str());
    push_str(&mut out, ": client ");
    push_str(&mut out, mac.as_str());
    string_from_chars(out.as_slice())
}

/// The stored-update decision for the device keyed `key` whose record is
/// the first in `keys` with id `id` in `records_last_seen`.
pub open spec fn store_due(map: Seq<ThrottleEntry>, key: Seq<char>, found: Option<i64>) -> bool {
    match found {
        Some(t) => throttle_allows(map, key, t, 2000),
        None => false,
    }
}

pub open spec fn stored_map(map: Seq<ThrottleEntry>, key: Seq<char>, found: Option<i64>) -> Seq<(Seq<char>, i64)> {
    match found {
        Some(t) => if throttle_allows(map, key, t, 2000) {
            upsert(throttle_view(map), throttle_keys(map), key, (key, t))
        } else {
            throttle_view(map)
        },
        None => throttle_view(map),
    }
}

pub open spec fn client_last_seen(clients: Seq<ClientRecord>, mac: Seq<char>) -> Option<i64> {
    match first_key(client_keys(clients), mac) {
        Some(k) => Some(clients[k].last_seen),
        None => None,
    }
}

/// The tables after the client sighting `c` (see `ap_seen_effect`): merged,
/// the client counts of the access points it relates to recounted (and those
/// that changed stored), the client stored when the throttle lets it
/// through, and announced when it is a new watchlist hit.
pub open spec fn client_seen_effect(
    old_t: DesktopTables,
    new_t: DesktopTables,
    alerts: AlertSettings,
    watchlists: WatchlistSettings,
    c: ClientRecord,
    oui: Option<String>,
    fix: Option<PositionFix>,
    now: u64,
    hint: UiRefreshHint,
    actions: Seq<ActionView>,
) -> bool {
    let c1 = client_labelled(c, oui);
    let key = device_key("client"@, c.mac@);
    let obs = recorded(old_t.last_observation_by_device@, key, fix, c.rssi_dbm);
    let found = client_last_seen(new_t.clients@, c.mac@);
    let stored = store_due(old_t.last_storage_persist_by_device@, key, found);
    &&& exists|inc: ClientRecord|
        #![trigger related_bssids(inc)]
        {
            let counts = recount(old_t.access_points@, new_t.clients@, related_bssids(inc));
            let hit = match first_client_hit(watchlists.entries@, inc, associated_ssid(new_t.access_points@, inc)) {
                Some(i) => Some(hit_view(i as nat, watchlists.entries@[i])),
                None => None,
            };
            let announced = announces(alerts, hit, "client"@, old_t.alerted_watch_entities@);
            &&& inc == ClientRecord { observations: inc.observations, ..c1 }
            &&& inc.observations@ == match obs {
                Some(o) => c1.observations@.push(o),
                None => c1.observations@,
            }
            &&& client_merge_result(old_t.clients@, inc, new_t.clients@)
            &&& new_t.access_points@ == counts.0
            &&& string_seqs(new_t.alerted_watch_entities@) == alerted_after(
                alerts,
                hit,
                "client"@,
                old_t.alerted_watch_entities@,
            )
            &&& string_seqs(new_t.watchdog.status_lines@) == status_after_line(
                old_t.watchdog.status_lines@,
                announced,
                client_alert_line(
                    match hit {
                        Some(h) => h.0,
                        None => Seq::empty(),
                    },
                    c.mac@,
                ),
            )
            &&& hint == UiRefreshHint {
                ap_list: true,
                client_list: true,
                bluetooth_list: false,
                channel_chart: false,
                status: announced,
            }
            &&& actions == (match obs {
                Some(o) => seq![ActionView::AddObservation("client"@, c.mac@, o)],
                None => Seq::empty(),
            }) + persist_changed(new_t.access_points@, counts.1) + (if stored {
                seq![ActionView::PersistClient(c.mac@)]
            } else {
                Seq::empty()
            }) + (if announced {
                seq![ActionView::AlertTone(1000, 70)]
            } else {
                Seq::empty()
            })
        }
    &&& new_t.bluetooth_devices@ == old_t.bluetooth_devices@
    &&& new_t.channel_usage@ == old_t.channel_usage@
    &&& new_t.enumeration_status@ == old_t.enumeration_status@
    &&& throttle_view(new_t.last_observation_by_device@) == after_record(
        old_t.last_observation_by_device@,
        key,
        fix,
        c.rssi_dbm,
    )
    &&& throttle_view(new_t.last_storage_persist_by_device@) == stored_map(
        old_t.last_storage_persist_by_device@,
        key,
        found,
    )
    &&& watch_view(new_t.watchdog.wifi) == active_view(
        old_t.watchdog.wifi,
        "capturing Wi-Fi packets"@,
        now,
    )
    &&& watch_view(new_t.watchdog.bluetooth) == watch_view(old_t.watchdog.bluetooth)
}

fn push_persist_changed(actions: &mut Vec<DesktopAction>, aps: &Vec<AccessPointRecord>, changed: &Vec<String>)
    ensures
        actions_view(final(actions)@) == actions_view(old(actions)@) + persist_changed(
            aps@,
            string_seqs(changed@),
        ),
{
    let ghost cs = string_seqs(changed@);
    let ghost start = actions_view(actions@);
    let mut i: usize = 0;
    assert(cs.subrange(0, 0) =~= Seq::<Seq<char>>::empty());
    assert(start + persist_changed(aps@, cs.subrange(0, 0)) =~= start);
    while i < changed.len()
        invariant
            i <= changed@.len(),
            cs == string_seqs(changed@),
            actions_view(actions@) == start + persist_changed(aps@, cs.subrange(0, i as int)),
        decreases changed@.len() - i,
    {
        let ghost pre = cs.subrange(0, i + 1);
        assert(pre.drop_last() =~= cs.subrange(0, i as int));
        assert(pre.last() == changed@[i as int]@);
        let ghost before = actions_view(actions@);
        match find_ap(aps, changed[i].as_str()) {
            Some(_) => {
                actions.push(DesktopAction::PersistAccessPoint(changed[i].clone()));
                assert(actions_view(actions@) =~= before + seq![ActionView::PersistAccessPoint(changed@[i as int]@)]);
            },
            None => {
                assert(before + Seq::<ActionView>::empty() =~= before);
            },
        }
        i = i + 1;
    }
    assert(cs.subrange(0, changed@.len() as int) =~= cs);
}

/// Handles a client sighting (see `client_seen_effect`).
#[verifier::rlimit(80)]
pub fn client_seen(
    t: &mut DesktopTables,
    alerts: AlertSettings,
    watchlists: &WatchlistSettings,
    client: ClientRecord,
    oui: Option<String>,
    fix: Option<PositionFix>,
    now: u64,
) -> (r: (UiRefreshHint, Vec<DesktopAction>))
    requires
        old(t).wf(),
    ensures
        final(t).wf(),
        client_seen_effect(*old(t), *final(t), alerts, *watchlists, client, oui, fix, now, r.0, actions_view(r.1@)),
{
    let ghost t0 = *t;
    note_activity(&mut t.watchdog.wifi, String::from_str("capturing Wi-Fi packets"), now);
    let mut c = client;
    if c.oui_manufacturer.is_none() {
        c.oui_manufacturer = oui;
    }
    let ghost c1 = c;
    let key = make_device_key("client", c.mac.as_str());
    let obs = record_sighting(&mut t.last_observation_by_device, key.as_str(), fix, c.rssi_dbm);
    let mut actions: Vec<DesktopAction> = Vec::new();
    if let Some(o) = obs {
        c.observations.push(o);
        actions.push(DesktopAction::AddObservation {
            device_type: String::from_str("client"),
            device_id: c.mac.clone(),
            observation: o,
        });
    }
    let ghost after_obs = actions_view(actions@);
    let ghost inc = c;
    let hit = client_watchlist_match(&c, t.access_points.as_slice(), watchlists);
    let line = match &hit {
        Some(m) => client_alert_text(&m.label, &c.mac),
        None => String::new(),
    };
    let mac = c.mac.clone();
    let related = crate::merge::related_bssid_list(&c);
    merge_client(&mut t.clients, c);
    let ghost aps0 = t.access_points@;
    let changed = crate::merge::recount_bssids(&mut t.access_points, t.clients.as_slice(), &related);
    proof {
        lemma_recount_keeps_networks(aps0, t.clients@, related_bssids(inc));
        lemma_same_networks_ssid(aps0, t.access_points@, inc);
    }
    push_persist_changed(&mut actions, &t.access_points, &changed);
    let ghost after_aps = actions_view(actions@);
    assert(string_seqs(related@) == related_bssids(inc));
    assert(string_seqs(changed@) == recount(aps0, t.clients@, related_bssids(inc)).1);
    assert(after_obs == (match obs {
            Some(o) => seq![ActionView::AddObservation("client"@, inc.mac@, o)],
            None => Seq::<ActionView>::empty(),
        }));
    proof {
        lemma_first_key(client_keys(t.clients@), mac@);
    }
    let stored = match find_client(&t.clients, mac.as_str()) {
        Some(k) => {
            let last = t.clients[k].last_seen;
            should_persist_device_update(&mut t.last_storage_persist_by_device, key.as_str(), last)
        },
        None => false,
    };
    if stored {
        actions.push(DesktopAction::PersistClient(mac.clone()));
    }
    let announced = announce(t, alerts, hit, "client", line);
    if announced {
        actions.push(DesktopAction::AlertTone { frequency_hz: 1000, duration_ms: 70 });
    }
    proof {
        assert(actions_view(actions@) =~= (match obs {
            Some(o) => seq![ActionView::AddObservation("client"@, inc.mac@, o)],
            None => Seq::empty(),
        }) + persist_changed(t.access_points@, recount(aps0, t.clients@, related_bssids(inc)).1) + (if stored {
            seq![ActionView::PersistClient(inc.mac@)]
        } else {
            Seq::empty()
        }) + (if announced {
            seq![ActionView::AlertTone(1000, 70)]
        } else {
            Seq::empty()
        }));
    }
    let hint = UiRefreshHint {
        ap_list: true,
        client_list: true,
        bluetooth_list: false,
        channel_chart: false,
        status: announced,
    };
    (hint, actions)
}

/// What the view must redraw after either of two steps.
pub open spec fn hint_union(a: UiRefreshHint, b: UiRefreshHint) -> UiRefreshHint {
    UiRefreshHint {
        ap_list: a.ap_list || b.ap_list,
        client_list: a.client_list || b.client_list,
        bluetooth_list: a.bluetooth_list || b.bluetooth_list,
        channel_chart: a.channel_chart || b.channel_chart,
        status: a.status || b.status,
    }
}

impl UiRefreshHint {
    /// Nothing to redraw.
    pub fn none() -> (r: UiRefreshHint)
        ensures
            !r.ap_list && !r.client_list && !r.bluetooth_list && !r.channel_chart && !r.status,
    {
        UiRefreshHint {
            ap_list: false,
            client_list: false,
            bluetooth_list: false,
            channel_chart: false,
            status: false,
        }
    }

    /// Adds what `other` must redraw.
    pub fn merge(&mut self, other: UiRefreshHint)
        ensures
            *final(self) == hint_union(*old(self), other),
    {
        self.ap_list = self.ap_list || other.ap_list;
        self.client_list = self.client_list || other.client_list;
        self.bluetooth_list = self.bluetooth_list || other.bluetooth_list;
        self.channel_chart = self.channel_chart || other.channel_chart;
        self.status = self.status || other.status;
    }
}

/// Everything but the status lines and the radios is unchanged.
pub open spec fn same_tables(a: DesktopTables, b: DesktopTables) -> bool {
    &&& a.access_points@ == b.access_points@
    &&& a.clients@ == b.clients@
    &&& a.bluetooth_devices@ == b.bluetooth_devices@
    &&& a.channel_usage@ == b.channel_usage@
    &&& a.enumeration_status@ == b.enumeration_status@
    &&& a.last_observation_by_device@ == b.last_observation_by_device@
    &&& a.last_storage_persist_by_device@ == b.last_storage_persist_by_device@
    &&& a.alerted_watch_entities@ == b.alerted_watch_entities@
}

/// A completed handshake: Wi-Fi activity, the handshake and the higher
/// count stored, the count of the access point raised, and the capture to be
/// exported (named after the access point's SSID when known).
pub open spec fn handshake_effect(
    old_t: DesktopTables,
    new_t: DesktopTables,
    hs: HandshakeRecord,
    now: u64,
    actions: Seq<ActionView>,
) -> bool {
    let found = first_key(ap_keys(old_t.access_points@), hs.bssid@);
    &&& new_t.access_points@ == match found {
        Some(i) => old_t.access_points@.update(
            i,
            AccessPointRecord {
                handshake_count: (old_t.access_points@[i].handshake_count + 1) as u32,
                ..old_t.access_points@[i]
            },
        ),
        None => old_t.access_points@,
    }
    &&& new_t.clients@ == old_t.clients@
    &&& new_t.bluetooth_devices@ == old_t.bluetooth_devices@
    &&& new_t.channel_usage@ == old_t.channel_usage@
    &&& new_t.enumeration_status@ == old_t.enumeration_status@
    &&& new_t.last_observation_by_device@ == old_t.last_observation_by_device@
    &&& new_t.last_storage_persist_by_device@ == old_t.last_storage_persist_by_device@
    &&& new_t.alerted_watch_entities@ == old_t.alerted_watch_entities@
    &&& new_t.watchdog.status_lines@ == old_t.watchdog.status_lines@
    &&& watch_view(new_t.watchdog.wifi) == active_view(old_t.watchdog.wifi, "capturing Wi-Fi packets"@, now)
    &&& watch_view(new_t.watchdog.bluetooth) == watch_view(old_t.watchdog.bluetooth)
    &&& actions == Seq::<ActionView>::empty().push(
        ActionView::AddHandshake(hs.bssid@, hs.client_mac@, hs.timestamp_ms),
    ).push(ActionView::IncrementHandshakeCount(hs.bssid@)).push(
        ActionView::ExportHandshake(
            match found {
                Some(i) => match old_t.access_points@[i].ssid {
                    Some(s) => Some(s@),
                    None => None,
                },
                None => None,
            },
            hs.bssid@,
            hs.client_mac@,
            hs.timestamp_ms,
        ),
    )
}

/// The handshake count of the access point that `bssid` names can still be
/// raised.
pub open spec fn handshake_room(aps: Seq<AccessPointRecord>, bssid: Seq<char>) -> bool {
    match first_key(ap_keys(aps), bssid) {
        Some(i) => aps[i].handshake_count < u32::MAX,
        None => true,
    }
}

/// Handles a completed handshake (see `handshake_effect`); the export it asks
/// for is reported with `finish_handshake_export`.
pub fn handshake_seen(t: &mut DesktopTables, hs: HandshakeRecord, now: u64) -> (actions: Vec<DesktopAction>)
    requires
        old(t).wf(),
        handshake_room(old(t).access_points@, hs.bssid@),
    ensures
        final(t).wf(),
        handshake_effect(*old(t), *final(t), hs, now, actions_view(actions@)),
{
    note_activity(&mut t.watchdog.wifi, String::from_str("capturing Wi-Fi packets"), now);
    proof {
        lemma_first_key(ap_keys(t.access_points@), hs.bssid@);
    }
    let ssid: Option<String> = match find_ap(&t.access_points, hs.bssid.as_str()) {
        Some(i) => {
            let ghost before = t.access_points@;
            let mut ap = t.access_points.remove(i);
            let ssid = match &ap.ssid {
                Some(s) => Some(s.clone()),
                None => None,
            };
            ap.handshake_count = ap.handshake_count + 1;
            t.access_points.insert(i, ap);
            assert(t.access_points@ =~= before.update(
                i as int,
                AccessPointRecord { handshake_count: (before[i as int].handshake_count + 1) as u32, ..before[i as int] },
            ));
            ssid
        },
        None => None,
    };
    assert((match ssid {
        Some(x) => Some(x@),
        None => None::<Seq<char>>,
    }) == (match first_key(ap_keys(old(t).access_points@), hs.bssid@) {
        Some(i) => match old(t).access_points@[i].ssid {
            Some(x) => Some(x@),
            None => None,
        },
        None => None,
    }));
    let mut actions: Vec<DesktopAction> = Vec::new();
    actions.push(DesktopAction::AddHandshake(HandshakeRecord {
        bssid: hs.bssid.clone(),
        client_mac: hs.client_mac.clone(),
        timestamp_ms: hs.timestamp_ms,
    }));
    actions.push(DesktopAction::IncrementHandshakeCount(hs.bssid.clone()));
    actions.push(DesktopAction::ExportHandshake {
        ssid,
        bssid: hs.bssid.clone(),
        client_mac: hs.client_mac.clone(),
        timestamp_ms: hs.timestamp_ms,
    });
    assert(actions@[0]@ == ActionView::AddHandshake(hs.bssid@, hs.client_mac@, hs.timestamp_ms));
    assert(actions@[1]@ == ActionView::IncrementHandshakeCount(hs.bssid@));
    assert(actions@[2]@ == ActionView::ExportHandshake(
        match first_key(ap_keys(old(t).access_points@), hs.bssid@) {
            Some(i) => match old(t).access_points@[i].ssid {
                Some(x) => Some(x@),
                None => None,
            },
            None => None,
        },
        hs.bssid@,
        hs.client_mac@,
        hs.timestamp_ms,
    ));
    assert(actions_view(actions@) =~= Seq::<ActionView>::empty().push(actions@[0]@).push(
        actions@[1]@,
    ).push(actions@[2]@));
    actions
}

/// How the handshake export ended, as the status line says it:
/// `saved handshake capture: <file>` or `handshake capture export failed: <error>`.
pub open spec fn export_status_line(outcome: Result<Seq<char>, Seq<char>>) -> Seq<char> {
    match outcome {
        Ok(name) => "saved handshake capture: "@ + name,
        Err(e) => "handshake capture export failed: "@ + e,
    }
}

pub open spec fn handshake_alert_line(bssid: Seq<char>, client_mac: Seq<char>) -> Seq<char> {
    "ALERT handshake complete on "@ + bssid + " with client "@ + client_mac
}

/// Reports the export of a handshake capture (`outcome`: the shown file name,
/// or the error) and, when handshake alerts are on, announces the handshake.
pub fn finish_handshake_export(
    t: &mut DesktopTables,
    alerts: AlertSettings,
    bssid: &str,
    client_mac: &str,
    outcome: Result<String, String>,
) -> (r: (UiRefreshHint, Vec<DesktopAction>))
    ensures
        same_tables(*final(t), *old(t)),
        watch_view(final(t).watchdog.wifi) == watch_view(old(t).watchdog.wifi),
        watch_view(final(t).watchdog.bluetooth) == watch_view(old(t).watchdog.bluetooth),
        ({
            let first = keep_last(
                string_seqs(old(t).watchdog.status_lines@).push(
                    export_status_line(
                        match outcome {
                            Ok(n) => Ok(n@),
                            Err(e) => Err(e@),
                        },
                    ),
                ),
                MAX_STATUS_LINES as nat,
            );
            string_seqs(final(t).watchdog.status_lines@) == if alerts.handshake_alerts {
                keep_last(first.push(handshake_alert_line(bssid@, client_mac@)), MAX_STATUS_LINES as nat)
            } else {
                first
            }
        }),
        r.0 == (UiRefreshHint {
            ap_list: true,
            client_list: false,
            bluetooth_list: false,
            channel_chart: false,
            status: alerts.handshake_alerts,
        }),
        actions_view(r.1@) == if alerts.handshake_alerts {
            seq![ActionView::AlertTone(1400, 80)]
        } else {
            Seq::<ActionView>::empty()
        },
{
    let mut line: Vec<char> = Vec::new();
    match &outcome {
        Ok(name) => {
            push_str(&mut line, "saved handshake capture: ");
            push_str(&mut line, name.as_str());
        },
        Err(e) => {
            push_str(&mut line, "handshake capture export failed: ");
            push_str(&mut line, e.as_str());
        },
    }
    push_status_line(&mut t.watchdog, string_from_chars(line.as_slice()));
    let mut actions: Vec<DesktopAction> = Vec::new();
    if alerts.handshake_alerts {
        let mut alert: Vec<char> = Vec::new();
        push_str(&mut alert, "ALERT handshake complete on ");
        push_str(&mut alert, bssid);
        push_str(&mut alert, " with client ");
        push_str(&mut alert, client_mac);
        push_status_line(&mut t.watchdog, string_from_chars(alert.as_slice()));
        actions.push(DesktopAction::AlertTone { frequency_hz: 1400, duration_ms: 80 });
        assert(actions_view(actions@) =~= seq![ActionView::AlertTone(1400, 80)]);
    } else {
        assert(actions_view(actions@) =~= Seq::<ActionView>::empty());
    }
    let hint = UiRefreshHint {
        ap_list: true,
        client_list: false,
        bluetooth_list: false,
        channel_chart: false,
        status: alerts.handshake_alerts,
    };
    (hint, actions)
}

/// Records a channel usage sample: Wi-Fi activity, the sample stored, and
/// the latest `MAX_CHANNEL_USAGE_POINTS` samples kept.
pub fn channel_usage_seen(t: &mut DesktopTables, usage: ChannelUsagePoint, now: u64) -> (r: (UiRefreshHint, Vec<DesktopAction>))
    requires
        old(t).wf(),
    ensures
        final(t).wf(),
        final(t).channel_usage@ == keep_last(old(t).channel_usage@.push(usage), MAX_CHANNEL_USAGE_POINTS as nat),
        final(t).access_points@ == old(t).access_points@,
        final(t).clients@ == old(t).clients@,
        final(t).bluetooth_devices@ == old(t).bluetooth_devices@,
        final(t).enumeration_status@ == old(t).enumeration_status@,
        final(t).last_observation_by_device@ == old(t).last_observation_by_device@,
        final(t).last_storage_persist_by_device@ == old(t).last_storage_persist_by_device@,
        final(t).alerted_watch_entities@ == old(t).alerted_watch_entities@,
        final(t).watchdog.status_lines@ == old(t).watchdog.status_lines@,
        watch_view(final(t).watchdog.wifi) == active_view(old(t).watchdog.wifi, "capturing Wi-Fi packets"@, now),
        watch_view(final(t).watchdog.bluetooth) == watch_view(old(t).watchdog.bluetooth),
        r.0 == (UiRefreshHint {
            ap_list: false,
            client_list: false,
            bluetooth_list: false,
            channel_chart: true,
            status: false,
        }),
        actions_view(r.1@) == seq![ActionView::AddChannelUsage(usage)],
{
    note_activity(&mut t.watchdog.wifi, String::from_str("capturing Wi-Fi packets"), now);
    let mut actions: Vec<DesktopAction> = Vec::new();
    actions.push(DesktopAction::AddChannelUsage(usage));
    t.channel_usage.push(usage);
    let n = t.channel_usage.len();
    if n > MAX_CHANNEL_USAGE_POINTS {
        let kept = t.channel_usage.split_off(n - MAX_CHANNEL_USAGE_POINTS);
        t.channel_usage = kept;
    }
    assert(actions_view(actions@) =~= seq![ActionView::AddChannelUsage(usage)]);
    let hint = UiRefreshHint {
        ap_list: false,
        client_list: false,
        bluetooth_list: false,
        channel_chart: true,
        status: false,
    };
    (hint, actions)
}

/// A log line of the capture or the scanner goes to the status lines.
pub fn log_seen(t: &mut DesktopTables, text: String) -> (hint: UiRefreshHint)
    ensures
        same_tables(*final(t), *old(t)),
        watch_view(final(t).watchdog.wifi) == watch_view(old(t).watchdog.wifi),
        watch_view(final(t).watchdog.bluetooth) == watch_view(old(t).watchdog.bluetooth),
        string_seqs(final(t).watchdog.status_lines@) == keep_last(
            string_seqs(old(t).watchdog.status_lines@).push(text@),
            MAX_STATUS_LINES as nat,
        ),
        hint == (UiRefreshHint {
            ap_list: false,
            client_list: false,
            bluetooth_list: false,
            channel_chart: false,
            status: true,
        }),
{
    push_status_line(&mut t.watchdog, text);
    UiRefreshHint {
        ap_list: false,
        client_list: false,
        bluetooth_list: false,
        channel_chart: false,
        status: true,
    }
}

/// `devices` after the sighting `inc` was merged in (see
/// `merge_bluetooth_device`).
pub open spec fn bluetooth_merge_result(devices: Seq<BluetoothDeviceRecord>, inc: BluetoothDeviceRecord, out: Seq<BluetoothDeviceRecord>) -> bool {
    match first_key(bluetooth_keys(devices), inc.mac@) {
        Some(i) => {
            &&& out.len() == devices.len()
            &&& forall|j: int| 0 <= j < devices.len() && j != i ==> out[j] == devices[j]
            &&& bluetooth_merged(devices[i], inc, out[i])
        },
        None => out == devices.push(inc),
    }
}

pub open spec fn bluetooth_labelled(d: BluetoothDeviceRecord, oui: Option<String>) -> BluetoothDeviceRecord {
    if d.oui_manufacturer is None {
        BluetoothDeviceRecord { oui_manufacturer: oui, ..d }
    } else {
        d
    }
}

pub open spec fn bluetooth_alert_line(label: Seq<char>, mac: Seq<char>) -> Seq<char> {
    "ALERT "@ + label + ": bluetooth device "@ + mac
}

pub open spec fn status_views(s: Seq<BtStatusEntry>) -> Seq<(Seq<char>, Seq<char>, bool)> {
    s.map_values(|e: BtStatusEntry| (e.mac@, e.status.message@, e.status.is_error))
}

pub open spec fn bluetooth_last_seen(devices: Seq<BluetoothDeviceRecord>, mac: Seq<char>) -> Option<i64> {
    match first_key(bluetooth_keys(devices), mac) {
        Some(k) => Some(devices[k].last_seen),
        None => None,
    }
}

/// The tables after the Bluetooth sighting `d`: Bluetooth activity, OUI label
/// filled in, a sighting recorded when the throttle lets it through, merged
/// into the table, the enumeration status its active enumeration implies
/// kept, stored when the store throttle lets it through, and announced when
/// it is a new watchlist hit.
pub open spec fn bluetooth_seen_effect(
    old_t: DesktopTables,
    new_t: DesktopTables,
    alerts: AlertSettings,
    watchlists: WatchlistSettings,
    d: BluetoothDeviceRecord,
    oui: Option<String>,
    fix: Option<PositionFix>,
    now: u64,
    hint: UiRefreshHint,
    actions: Seq<ActionView>,
) -> bool {
    let d1 = bluetooth_labelled(d, oui);
    let key = device_key("bluetooth"@, d.mac@);
    let obs = recorded(old_t.last_observation_by_device@, key, fix, d.rssi_dbm);
    let found = bluetooth_last_seen(new_t.bluetooth_devices@, d.mac@);
    let stored = store_due(old_t.last_storage_persist_by_device@, key, found);
    &&& exists|inc: BluetoothDeviceRecord|
        #![trigger first_bluetooth_hit(watchlists.entries@, inc)]
        {
            let hit = match first_bluetooth_hit(watchlists.entries@, inc) {
                Some(i) => Some(hit_view(i as nat, watchlists.entries@[i])),
                None => None,
            };
            let announced = announces(alerts, hit, "bluetooth"@, old_t.alerted_watch_entities@);
            &&& inc == BluetoothDeviceRecord { observations: inc.observations, ..d1 }
            &&& inc.observations@ == match obs {
                Some(o) => d1.observations@.push(o),
                None => d1.observations@,
            }
            &&& bluetooth_merge_result(old_t.bluetooth_devices@, inc, new_t.bluetooth_devices@)
            &&& status_views(new_t.enumeration_status@) == match enumeration_status_of(inc) {
                Some(st) => upsert(
                    status_views(old_t.enumeration_status@),
                    status_keys(old_t.enumeration_status@),
                    d.mac@,
                    (d.mac@, st.0, st.1),
                ),
                None => status_views(old_t.enumeration_status@),
            }
            &&& string_seqs(new_t.alerted_watch_entities@) == alerted_after(
                alerts,
                hit,
                "bluetooth"@,
                old_t.alerted_watch_entities@,
            )
            &&& string_seqs(new_t.watchdog.status_lines@) == status_after_line(
                old_t.watchdog.status_lines@,
                announced,
                bluetooth_alert_line(
                    match hit {
                        Some(h) => h.0,
                        None => Seq::empty(),
                    },
                    d.mac@,
                ),
            )
            &&& hint == UiRefreshHint {
                ap_list: false,
                client_list: false,
                bluetooth_list: true,
                channel_chart: false,
                status: announced,
            }
            &&& actions == (match obs {
                Some(o) => seq![ActionView::AddObservation("bluetooth"@, d.mac@, o)],
                None => Seq::empty(),
            }) + (if stored {
                seq![ActionView::PersistBluetoothDevice(d.mac@)]
            } else {
                Seq::empty()
            }) + (if announced {
                seq![ActionView::AlertTone(1050, 70)]
            } else {
                Seq::empty()
            })
        }
    &&& new_t.access_points@ == old_t.access_points@
    &&& new_t.clients@ == old_t.clients@
    &&& new_t.channel_usage@ == old_t.channel_usage@
    &&& throttle_view(new_t.last_observation_by_device@) == after_record(
        old_t.last_observation_by_device@,
        key,
        fix,
        d.rssi_dbm,
    )
    &&& throttle_view(new_t.last_storage_persist_by_device@) == stored_map(
        old_t.last_storage_persist_by_device@,
        key,
        found,
    )
    &&& watch_view(new_t.watchdog.bluetooth) == active_view(
        old_t.watchdog.bluetooth,
        "scanning Bluetooth advertisements"@,
        now,
    )
    &&& watch_view(new_t.watchdog.wifi) == watch_view(old_t.watchdog.wifi)
}

fn bluetooth_alert_text(label: &String, mac: &String) -> (r: String)
    ensures
        r@ == bluetooth_alert_line(label@, mac@),
{
    let mut out: Vec<char> = Vec::new();
    push_str(&mut out, "ALERT ");
    push_str(&mut out, label.as_str());
    push_str(&mut out, ": bluetooth device ");
    push_str(&mut out, mac.as_str());
    string_from_chars(out.as_slice())
}

/// Handles a Bluetooth sighting (see `bluetooth_seen_effect`).
#[verifier::rlimit(80)]
pub fn bluetooth_device_seen(
    t: &mut DesktopTables,
    alerts: AlertSettings,
    watchlists: &WatchlistSettings,
    device: BluetoothDeviceRecord,
    oui: Option<String>,
    fix: Option<PositionFix>,
    now: u64,
) -> (r: (UiRefreshHint, Vec<DesktopAction>))
    requires
        old(t).wf(),
    ensures
        final(t).wf(),
        bluetooth_seen_effect(*old(t), *final(t), alerts, *watchlists, device, oui, fix, now, r.0, actions_view(r.1@)),
{
    note_activity(&mut t.watchdog.bluetooth, String::from_str("scanning Bluetooth advertisements"), now);
    let mut d = device;
    if d.oui_manufacturer.is_none() {
        d.oui_manufacturer = oui;
    }
    let ghost d1 = d;
    let key = make_device_key("bluetooth", d.mac.as_str());
    let obs = record_sighting(&mut t.last_observation_by_device, key.as_str(), fix, d.rssi_dbm);
    let mut actions: Vec<DesktopAction> = Vec::new();
    if let Some(o) = obs {
        d.observations.push(o);
        actions.push(DesktopAction::AddObservation {
            device_type: String::from_str("bluetooth"),
            device_id: d.mac.clone(),
            observation: o,
        });
    }
    let ghost inc = d;
    let hit = bluetooth_watchlist_match(&d, watchlists);
    let line = match &hit {
        Some(m) => bluetooth_alert_text(&m.label, &d.mac),
        None => String::new(),
    };
    let status = bluetooth_enumeration_status_from_device(&d);
    let mac = d.mac.clone();
    merge_bluetooth_device(&mut t.bluetooth_devices, d);
    if let Some(st) = status {
        let ghost before = t.enumeration_status@;
        let entry = BtStatusEntry { mac: mac.clone(), status: st };
        let ghost e = entry;
        upsert_status(&mut t.enumeration_status, entry);
        proof {
            lemma_first_key(status_keys(before), e.mac@);
            assert(status_views(t.enumeration_status@) =~= upsert(
                status_views(before),
                status_keys(before),
                e.mac@,
                (e.mac@, e.status.message@, e.status.is_error),
            ));
        }
    }
    proof {
        lemma_first_key(bluetooth_keys(t.bluetooth_devices@), mac@);
    }
    let stored = match find_bluetooth(&t.bluetooth_devices, mac.as_str()) {
        Some(k) => {
            let last = t.bluetooth_devices[k].last_seen;
            should_persist_device_update(&mut t.last_storage_persist_by_device, key.as_str(), last)
        },
        None => false,
    };
    if stored {
        actions.push(DesktopAction::PersistBluetoothDevice(mac.clone()));
    }
    let announced = announce(t, alerts, hit, "bluetooth", line);
    if announced {
        actions.push(DesktopAction::AlertTone { frequency_hz: 1050, duration_ms: 70 });
    }
    proof {
        assert(inc == BluetoothDeviceRecord { observations: inc.observations, ..d1 });
        assert(inc.observations@ == match obs {
            Some(o) => d1.observations@.push(o),
            None => d1.observations@,
        });
        assert(bluetooth_merge_result(old(t).bluetooth_devices@, inc, t.bluetooth_devices@));
        assert(status_views(t.enumeration_status@) == match enumeration_status_of(inc) {
            Some(st) => upsert(
                status_views(old(t).enumeration_status@),
                status_keys(old(t).enumeration_status@),
                device.mac@,
                (device.mac@, st.0, st.1),
            ),
            None => status_views(old(t).enumeration_status@),
        });
        assert(actions_view(actions@) =~= (match obs {
            Some(o) => seq![ActionView::AddObservation("bluetooth"@, inc.mac@, o)],
            None => Seq::empty(),
        }) + (if stored {
            seq![ActionView::PersistBluetoothDevice(inc.mac@)]
        } else {
            Seq::empty()
        }) + (if announced {
            seq![ActionView::AlertTone(1050, 70)]
        } else {
            Seq::empty()
        }));
    }
    let hint = UiRefreshHint {
        ap_list: false,
        client_list: false,
        bluetooth_list: true,
        channel_chart: false,
        status: announced,
    };
    (hint, actions)
}

/// Records the outcome of an active enumeration reported by the scanner.
pub fn enumeration_status_seen(t: &mut DesktopTables, mac: String, message: String, is_error: bool)
    requires
        old(t).wf(),
    ensures
        final(t).wf(),
        status_views(final(t).enumeration_status@) == upsert(
            status_views(old(t).enumeration_status@),
            status_keys(old(t).enumeration_status@),
            mac@,
            (mac@, message@, is_error),
        ),
        final(t).access_points@ == old(t).access_points@,
        final(t).clients@ == old(t).clients@,
        final(t).bluetooth_devices@ == old(t).bluetooth_devices@,
        final(t).channel_usage@ == old(t).channel_usage@,
        final(t).watchdog.status_lines@ == old(t).watchdog.status_lines@,
        watch_view(final(t).watchdog.wifi) == watch_view(old(t).watchdog.wifi),
        watch_view(final(t).watchdog.bluetooth) == watch_view(old(t).watchdog.bluetooth),
{
    let ghost before = t.enumeration_status@;
    let entry = BtStatusEntry { mac, status: BtEnumerationStatus { message, is_error } };
    let ghost e = entry;
    upsert_status(&mut t.enumeration_status, entry);
    proof {
        lemma_first_key(status_keys(before), e.mac@);
        assert(status_views(t.enumeration_status@) =~= upsert(
            status_views(before),
            status_keys(before),
            e.mac@,
            (e.mac@, e.status.message@, e.status.is_error),
        ));
    }
}

/// A scanner log line: a line mentioning `scan failed` puts the Bluetooth
/// radio in error with that line as its detail; every line goes to the
/// status lines.
pub fn bluetooth_log_seen(t: &mut DesktopTables, text: String) -> (hint: UiRefreshHint)
    ensures
        same_tables(*final(t), *old(t)),
        watch_view(final(t).watchdog.wifi) == watch_view(old(t).watchdog.wifi),
        watch_view(final(t).watchdog.bluetooth) == if crate::text::contains_seq(text@, "scan failed"@) {
            (InterfaceHealthState::Error, text@, old(t).watchdog.bluetooth.last_data_at,
                old(t).watchdog.bluetooth.restart_count, old(t).watchdog.bluetooth.consecutive_restarts,
                old(t).watchdog.bluetooth.block_until)
        } else {
            watch_view(old(t).watchdog.bluetooth)
        },
        string_seqs(final(t).watchdog.status_lines@) == keep_last(
            string_seqs(old(t).watchdog.status_lines@).push(text@),
            MAX_STATUS_LINES as nat,
        ),
        hint == (UiRefreshHint {
            ap_list: false,
            client_list: false,
            bluetooth_list: false,
            channel_chart: false,
            status: true,
        }),
{
    let tc = str_chars(text.as_str());
    let needle = str_chars("scan failed");
    if contains_chars(tc.as_slice(), needle.as_slice()) {
        t.watchdog.bluetooth.health = InterfaceHealthState::Error;
        t.watchdog.bluetooth.detail = text.clone();
    }
    log_seen(t, text)
}

/// The redraw hint of a step that changes nothing shown.
pub open spec fn no_redraw() -> UiRefreshHint {
    UiRefreshHint {
        ap_list: false,
        client_list: false,
        bluetooth_list: false,
        channel_chart: false,
        status: false,
    }
}

/// Handles one event of the Wi-Fi capture. `oui` is the vendor label of the
/// sighted device's address, `fix` the current position (if any), `now` the
/// monotonic clock in seconds. A completed handshake asks for an export,
/// reported back with `finish_handshake_export`.
pub fn apply_desktop_capture_event(
    t: &mut DesktopTables,
    alerts: AlertSettings,
    watchlists: &WatchlistSettings,
    event: crate::web_state::CaptureEvent,
    oui: Option<String>,
    fix: Option<PositionFix>,
    now: u64,
) -> (r: (UiRefreshHint, Vec<DesktopAction>))
    requires
        old(t).wf(),
        event matches crate::web_state::CaptureEvent::HandshakeSeen(h) ==> handshake_room(
            old(t).access_points@,
            h.bssid@,
        ),
    ensures
        final(t).wf(),
        match event {
            crate::web_state::CaptureEvent::AccessPointSeen(ap) => ap_seen_effect(
                *old(t),
                *final(t),
                alerts,
                *watchlists,
                ap,
                oui,
                fix,
                now,
                r.0,
                actions_view(r.1@),
            ),
            crate::web_state::CaptureEvent::ClientSeen(c) => client_seen_effect(
                *old(t),
                *final(t),
                alerts,
                *watchlists,
                c,
                oui,
                fix,
                now,
                r.0,
                actions_view(r.1@),
            ),
            crate::web_state::CaptureEvent::Observation { device_type, device_id, observation } => {
                &&& same_tables(*final(t), *old(t))
                &&& final(t).watchdog.status_lines@ == old(t).watchdog.status_lines@
                &&& watch_view(final(t).watchdog.wifi) == watch_view(old(t).watchdog.wifi)
                &&& watch_view(final(t).watchdog.bluetooth) == watch_view(old(t).watchdog.bluetooth)
                &&& r.0 == no_redraw()
                &&& actions_view(r.1@) == seq![
                    ActionView::AddObservation(device_type@, device_id@, observation),
                ]
            },
            crate::web_state::CaptureEvent::HandshakeSeen(h) => {
                &&& handshake_effect(*old(t), *final(t), h, now, actions_view(r.1@))
                &&& r.0 == UiRefreshHint { ap_list: true, ..no_redraw() }
            },
            crate::web_state::CaptureEvent::ChannelUsage(u) => {
                &&& final(t).channel_usage@ == keep_last(
                    old(t).channel_usage@.push(u),
                    MAX_CHANNEL_USAGE_POINTS as nat,
                )
                &&& final(t).access_points@ == old(t).access_points@
                &&& final(t).clients@ == old(t).clients@
                &&& final(t).bluetooth_devices@ == old(t).bluetooth_devices@
                &&& final(t).enumeration_status@ == old(t).enumeration_status@
                &&& final(t).last_observation_by_device@ == old(t).last_observation_by_device@
                &&& final(t).last_storage_persist_by_device@
                    == old(t).last_storage_persist_by_device@
                &&& final(t).alerted_watch_entities@ == old(t).alerted_watch_entities@
                &&& final(t).watchdog.status_lines@ == old(t).watchdog.status_lines@
                &&& watch_view(final(t).watchdog.wifi) == active_view(
                    old(t).watchdog.wifi,
                    "capturing Wi-Fi packets"@,
                    now,
                )
                &&& watch_view(final(t).watchdog.bluetooth) == watch_view(old(t).watchdog.bluetooth)
                &&& r.0 == UiRefreshHint { channel_chart: true, ..no_redraw() }
                &&& actions_view(r.1@) == seq![ActionView::AddChannelUsage(u)]
            },
            crate::web_state::CaptureEvent::Log(text) => {
                &&& same_tables(*final(t), *old(t))
                &&& watch_view(final(t).watchdog.wifi) == watch_view(old(t).watchdog.wifi)
                &&& watch_view(final(t).watchdog.bluetooth) == watch_view(old(t).watchdog.bluetooth)
                &&& string_seqs(final(t).watchdog.status_lines@) == keep_last(
                    string_seqs(old(t).watchdog.status_lines@).push(text@),
                    MAX_STATUS_LINES as nat,
                )
                &&& r.0 == UiRefreshHint { status: true, ..no_redraw() }
                &&& r.1@.len() == 0
            },
        },
{
    match event {
        crate::web_state::CaptureEvent::AccessPointSeen(ap) => {
            access_point_seen(t, alerts, watchlists, ap, oui, fix, now)
        },
        crate::web_state::CaptureEvent::ClientSeen(c) => {
            client_seen(t, alerts, watchlists, c, oui, fix, now)
        },
        crate::web_state::CaptureEvent::Observation { device_type, device_id, observation } => {
            let mut actions: Vec<DesktopAction> = Vec::new();
            actions.push(DesktopAction::AddObservation { device_type, device_id, observation });
            assert(actions_view(actions@) =~= seq![actions@[0]@]);
            (UiRefreshHint::none(), actions)
        },
        crate::web_state::CaptureEvent::HandshakeSeen(h) => {
            let actions = handshake_seen(t, h, now);
            let hint = UiRefreshHint {
                ap_list: true,
                client_list: false,
                bluetooth_list: false,
                channel_chart: false,
                status: false,
            };
            (hint, actions)
        },
        crate::web_state::CaptureEvent::ChannelUsage(u) => channel_usage_seen(t, u, now),
        crate::web_state::CaptureEvent::Log(text) => {
            let hint = log_seen(t, text);
            (hint, Vec::new())
        },
    }
}

/// Handles one event of the Bluetooth scanner (see
/// `apply_desktop_capture_event` for `oui`, `fix` and `now`).
pub fn apply_desktop_bluetooth_event(
    t: &mut DesktopTables,
    alerts: AlertSettings,
    watchlists: &WatchlistSettings,
    event: crate::web_state::BluetoothEvent,
    oui: Option<String>,
    fix: Option<PositionFix>,
    now: u64,
) -> (r: (UiRefreshHint, Vec<DesktopAction>))
    requires
        old(t).wf(),
    ensures
        final(t).wf(),
        match event {
            crate::web_state::BluetoothEvent::DeviceSeen(d) => bluetooth_seen_effect(
                *old(t),
                *final(t),
                alerts,
                *watchlists,
                d,
                oui,
                fix,
                now,
                r.0,
                actions_view(r.1@),
            ),
            crate::web_state::BluetoothEvent::EnumerationStatus { mac, message, is_error } => {
                &&& status_views(final(t).enumeration_status@) == upsert(
                    status_views(old(t).enumeration_status@),
                    status_keys(old(t).enumeration_status@),
                    mac@,
                    (mac@, message@, is_error),
                )
                &&& final(t).access_points@ == old(t).access_points@
                &&& final(t).clients@ == old(t).clients@
                &&& final(t).bluetooth_devices@ == old(t).bluetooth_devices@
                &&& final(t).channel_usage@ == old(t).channel_usage@
                &&& final(t).watchdog.status_lines@ == old(t).watchdog.status_lines@
                &&& watch_view(final(t).watchdog.wifi) == watch_view(old(t).watchdog.wifi)
                &&& watch_view(final(t).watchdog.bluetooth) == watch_view(old(t).watchdog.bluetooth)
                &&& r.0 == no_redraw()
                &&& r.1@.len() == 0
            },
            crate::web_state::BluetoothEvent::Log(text) => {
                &&& same_tables(*final(t), *old(t))
                &&& watch_view(final(t).watchdog.wifi) == watch_view(old(t).watchdog.wifi)
                &&& watch_view(final(t).watchdog.bluetooth) == if crate::text::contains_seq(
                    text@,
                    "scan failed"@,
                ) {
                    (
                        InterfaceHealthState::Error,
                        text@,
                        old(t).watchdog.bluetooth.last_data_at,
                        old(t).watchdog.bluetooth.restart_count,
                        old(t).watchdog.bluetooth.consecutive_restarts,
                        old(t).watchdog.bluetooth.block_until,
                    )
                } else {
                    watch_view(old(t).watchdog.bluetooth)
                }
                &&& string_seqs(final(t).watchdog.status_lines@) == keep_last(
                    string_seqs(old(t).watchdog.status_lines@).push(text@),
                    MAX_STATUS_LINES as nat,
                )
                &&& r.0 == UiRefreshHint { status: true, ..no_redraw() }
                &&& r.1@.len() == 0
            },
        },
{
    match event {
        crate::web_state::BluetoothEvent::DeviceSeen(d) => {
            bluetooth_device_seen(t, alerts, watchlists, d, oui, fix, now)
        },
        crate::web_state::BluetoothEvent::EnumerationStatus { mac, message, is_error } => {
            enumeration_status_seen(t, mac, message, is_error);
            (UiRefreshHint::none(), Vec::new())
        },
        crate::web_state::BluetoothEvent::Log(text) => {
            let hint = bluetooth_log_seen(t, text);
            (hint, Vec::new())
        },
    }
}

/// A watchlist hit is announced once: after a step recorded the alert keys
/// (`alerted_after`), the same hit is not announced again.
pub proof fn lemma_alert_announced_once(
    alerts: AlertSettings,
    hit: Option<(Seq<char>, Seq<char>, Seq<char>)>,
    prefix: Seq<char>,
    before: Seq<String>,
    after: Seq<String>,
)
    requires
        string_seqs(after) == alerted_after(alerts, hit, prefix, before),
    ensures
        !announces(alerts, hit, prefix, after),
{
    if let Some(h) = hit {
        if announces(alerts, hit, prefix, before) {
            let k = device_key(prefix, h.2);
            assert(string_seqs(after)[string_seqs(before).len() as int] == k);
        }
    }
}

} // verus!
