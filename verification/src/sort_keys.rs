//! What each column of the access point, client and Bluetooth tables sorts
//! by, and the sorting of those tables.

use vstd::prelude::*;
use crate::cells::{or_blank, avg_rssi, lowest_rssi, highest_rssi, ap_watch_label, client_watch_label,
    bluetooth_watch_label, ap_watchlist_entry_value, client_watchlist_entry_value,
    bluetooth_watchlist_entry_value};
use crate::display::{hidden_ssid, ap_hidden_ssid, rssi_stats, push_joined, push_or};
use crate::channels::band_label;
use crate::records::{AccessPointRecord, BluetoothDeviceRecord, ClientRecord};
use crate::settings::WatchlistSettings;
use crate::table::TableSortState;
use crate::table_sort::{
    SortKey, RowKey, KeyView, RowView, number_key, text_key, stable_sorted, row_views, sort_rows,
    row_items, unzip_rows, row_before, lemma_stable_sorted_in_order, lemma_stable_sorted_permutes,
    lemma_stable_sorted_rows_from_input, lemma_row_before_total, lemma_stable_sorted_no_duplicates,
};
use crate::text::{ascii_lower, join, string_seqs, str_chars, str_eq, lower_chars};
use crate::watchlist::{associated_ssid, associated_ssid_for_client, display_name, bluetooth_display_name};

verus! {

/// The key of an unknown value: below every known one.
pub const MISSING_KEY: i128 = -18446744073709551616;

/// What a row's location and retry-rate columns sort by. These come from
/// floating-point data (coordinates, rates), so the caller works them out:
/// the time of the first and of the last sighting with a position, the
/// signal level of the strongest one, and the retry-rate cell of a client.
pub struct SortFacts {
    pub first_fix_at: Option<i64>,
    pub last_fix_at: Option<i64>,
    pub strongest_rssi: Option<i32>,
    pub retry_rate: String,
}

pub open spec fn flag_key(b: bool) -> KeyView {
    number_key(if b { 1 } else { 0 })
}

pub open spec fn opt_key(o: Option<int>) -> KeyView {
    match o {
        Some(v) => number_key(v),
        None => number_key(MISSING_KEY as int),
    }
}

pub open spec fn i32_opt(o: Option<i32>) -> Option<int> {
    match o {
        Some(v) => Some(v as int),
        None => None,
    }
}

pub open spec fn i64_opt(o: Option<i64>) -> Option<int> {
    match o {
        Some(v) => Some(v as int),
        None => None,
    }
}

pub open spec fn u16_opt(o: Option<u16>) -> Option<int> {
    match o {
        Some(v) => Some(v as int),
        None => None,
    }
}

pub open spec fn u32_opt(o: Option<u32>) -> Option<int> {
    match o {
        Some(v) => Some(v as int),
        None => None,
    }
}

pub open spec fn u64_opt(o: Option<u64>) -> Option<int> {
    match o {
        Some(v) => Some(v as int),
        None => None,
    }
}

/// An optional text compared without regard to ASCII case; nothing counts
/// as the empty text.
pub open spec fn folded_key(o: Option<String>) -> KeyView {
    text_key(ascii_lower(or_blank(o)))
}

/// A list compared as its items joined by commas.
pub open spec fn joined_key(v: Seq<String>) -> KeyView {
    text_key(join(string_seqs(v), ","@))
}

/// What column `id` of the access point table sorts `ap` by; an unknown
/// column sorts by the time last seen.
pub open spec fn ap_key(ap: AccessPointRecord, id: Seq<char>, w: WatchlistSettings, f: SortFacts) -> KeyView {
    if id == "watchlist_entry"@ {
        text_key(ap_watch_label(ap, w))
    } else if id == "ssid"@ {
        folded_key(ap.ssid)
    } else if id == "bssid"@ {
        text_key(ap.bssid@)
    } else if id == "oui"@ {
        folded_key(ap.oui_manufacturer)
    } else if id == "channel"@ {
        opt_key(u16_opt(ap.channel))
    } else if id == "encryption"@ {
        text_key(ap.encryption_short@)
    } else if id == "rssi"@ {
        opt_key(i32_opt(ap.rssi_dbm))
    } else if id == "wps"@ {
        flag_key(ap.wps is Some)
    } else if id == "clients"@ {
        number_key(ap.number_of_clients as int)
    } else if id == "first_seen"@ {
        number_key(ap.first_seen as int)
    } else if id == "handshakes"@ {
        number_key(ap.handshake_count as int)
    } else if id == "band"@ {
        text_key(band_label(ap.band))
    } else if id == "frequency"@ {
        opt_key(u32_opt(ap.frequency_mhz))
    } else if id == "country"@ {
        folded_key(ap.country_code_80211d)
    } else if id == "full_encryption"@ {
        text_key(ap.encryption_full@)
    } else if id == "hidden_ssid"@ {
        flag_key(hidden_ssid(ap))
    } else if id == "uptime"@ {
        opt_key(u64_opt(ap.uptime_beacons))
    } else if id == "observation_count"@ {
        number_key(ap.observations@.len() as int)
    } else if id == "avg_rssi"@ {
        opt_key(i32_opt(avg_rssi(ap.observations@, ap.rssi_dbm)))
    } else if id == "min_rssi"@ {
        opt_key(i32_opt(lowest_rssi(ap.observations@, ap.rssi_dbm)))
    } else if id == "max_rssi"@ {
        opt_key(i32_opt(highest_rssi(ap.observations@, ap.rssi_dbm)))
    } else if id == "packet_total"@ {
        number_key(ap.packet_mix.total_value() as int)
    } else if id == "notes"@ {
        folded_key(ap.notes)
    } else if id == "first_location"@ {
        opt_key(i64_opt(f.first_fix_at))
    } else if id == "last_location"@ {
        opt_key(i64_opt(f.last_fix_at))
    } else if id == "strongest_location"@ {
        opt_key(i32_opt(f.strongest_rssi))
    } else {
        number_key(ap.last_seen as int)
    }
}

fn flag_sort_key(b: bool) -> (r: SortKey)
    ensures
        r@ == flag_key(b),
{
    SortKey::Number(if b { 1 } else { 0 })
}

fn number_sort_key(n: i64) -> (r: SortKey)
    ensures
        r@ == number_key(n as int),
{
    SortKey::Number(n as i128)
}

fn count_sort_key(n: u64) -> (r: SortKey)
    ensures
        r@ == number_key(n as int),
{
    SortKey::Number(n as i128)
}

fn opt_sort_key(o: Option<i64>) -> (r: SortKey)
    ensures
        r@ == opt_key(i64_opt(o)),
{
    match o {
        Some(v) => SortKey::Number(v as i128),
        None => SortKey::Number(MISSING_KEY),
    }
}

fn opt_u64_sort_key(o: Option<u64>) -> (r: SortKey)
    ensures
        r@ == opt_key(u64_opt(o)),
{
    match o {
        Some(v) => SortKey::Number(v as i128),
        None => SortKey::Number(MISSING_KEY),
    }
}

fn widen_i32(o: Option<i32>) -> (r: Option<i64>)
    ensures
        i64_opt(r) == i32_opt(o),
{
    match o {
        Some(v) => Some(v as i64),
        None => None,
    }
}

fn widen_u16(o: Option<u16>) -> (r: Option<u64>)
    ensures
        u64_opt(r) == u16_opt(o),
{
    match o {
        Some(v) => Some(v as u64),
        None => None,
    }
}

fn widen_u32(o: Option<u32>) -> (r: Option<u64>)
    ensures
        u64_opt(r) == u32_opt(o),
{
    match o {
        Some(v) => Some(v as u64),
        None => None,
    }
}

fn text_sort_key(s: &str) -> (r: SortKey)
    ensures
        r@ == text_key(s@),
{
    SortKey::Text(str_chars(s))
}

fn folded_sort_key(o: &Option<String>) -> (r: SortKey)
    ensures
        r@ == folded_key(*o),
{
    let mut raw: Vec<char> = Vec::new();
    push_or(&mut raw, o, "");
    proof {
        reveal_strlit("");
    }
    assert(raw@ =~= or_blank(*o));
    SortKey::Text(lower_chars(raw.as_slice()))
}

fn joined_sort_key(v: &Vec<String>) -> (r: SortKey)
    ensures
        r@ == joined_key(v@),
{
    let mut out: Vec<char> = Vec::new();
    push_joined(&mut out, v, ",");
    assert(out@ =~= join(string_seqs(v@), ","@));
    SortKey::Text(out)
}

/// Which of the three signal statistics (0 mean, 1 lowest, 2 highest).
fn rssi_sort_key(obs: &Vec<crate::records::GeoObservation>, fallback: Option<i32>, which: u8) -> (r: SortKey)
    requires
        which < 3,
    ensures
        r@ == opt_key(
            i32_opt(
                if which == 0 {
                    avg_rssi(obs@, fallback)
                } else if which == 1 {
                    lowest_rssi(obs@, fallback)
                } else {
                    highest_rssi(obs@, fallback)
                },
            ),
        ),
{
    let stats = rssi_stats(obs.as_slice(), fallback);
    let v = if which == 0 {
        stats.0
    } else if which == 1 {
        stats.1
    } else {
        stats.2
    };
    opt_sort_key(widen_i32(v))
}

/// What column `column_id` of the access point table sorts `ap` by.
#[verifier::rlimit(60)]
pub fn access_point_sort_key(
    ap: &AccessPointRecord,
    column_id: &str,
    watchlists: &WatchlistSettings,
    facts: &SortFacts,
) -> (r: SortKey)
    ensures
        r@ == ap_key(*ap, column_id@, *watchlists, *facts),
{
    let id = column_id;
    if str_eq(id, "watchlist_entry") {
        let label = ap_watchlist_entry_value(ap, watchlists);
        text_sort_key(label.as_str())
    } else if str_eq(id, "ssid") {
        folded_sort_key(&ap.ssid)
    } else if str_eq(id, "bssid") {
        text_sort_key(ap.bssid.as_str())
    } else if str_eq(id, "oui") {
        folded_sort_key(&ap.oui_manufacturer)
    } else if str_eq(id, "channel") {
        opt_u64_sort_key(widen_u16(ap.channel))
    } else if str_eq(id, "encryption") {
        text_sort_key(ap.encryption_short.as_str())
    } else if str_eq(id, "rssi") {
        opt_sort_key(widen_i32(ap.rssi_dbm))
    } else if str_eq(id, "wps") {
        flag_sort_key(ap.wps.is_some())
    } else if str_eq(id, "clients") {
        count_sort_key(ap.number_of_clients as u64)
    } else if str_eq(id, "first_seen") {
        number_sort_key(ap.first_seen)
    } else if str_eq(id, "handshakes") {
        count_sort_key(ap.handshake_count as u64)
    } else if str_eq(id, "band") {
        text_sort_key(ap.band.label())
    } else if str_eq(id, "frequency") {
        opt_u64_sort_key(widen_u32(ap.frequency_mhz))
    } else if str_eq(id, "country") {
        folded_sort_key(&ap.country_code_80211d)
    } else if str_eq(id, "full_encryption") {
        text_sort_key(ap.encryption_full.as_str())
    } else if str_eq(id, "hidden_ssid") {
        flag_sort_key(ap_hidden_ssid(ap))
    } else if str_eq(id, "uptime") {
        opt_u64_sort_key(ap.uptime_beacons)
    } else if str_eq(id, "observation_count") {
        count_sort_key(ap.observations.len() as u64)
    } else if str_eq(id, "avg_rssi") {
        rssi_sort_key(&ap.observations, ap.rssi_dbm, 0)
    } else if str_eq(id, "min_rssi") {
        rssi_sort_key(&ap.observations, ap.rssi_dbm, 1)
    } else if str_eq(id, "max_rssi") {
        rssi_sort_key(&ap.observations, ap.rssi_dbm, 2)
    } else if str_eq(id, "packet_total") {
        count_sort_key(ap.packet_mix.total())
    } else if str_eq(id, "notes") {
        folded_sort_key(&ap.notes)
    } else if str_eq(id, "first_location") {
        opt_sort_key(facts.first_fix_at)
    } else if str_eq(id, "last_location") {
        opt_sort_key(facts.last_fix_at)
    } else if str_eq(id, "strongest_location") {
        opt_sort_key(widen_i32(facts.strongest_rssi))
    } else {
        number_sort_key(ap.last_seen)
    }
}

/// The SSID of a client's access point compared without regard to ASCII
/// case; nothing when that access point is not known.
pub open spec fn assoc_ssid_key(aps: Seq<AccessPointRecord>, c: ClientRecord) -> KeyView {
    text_key(
        ascii_lower(
            match associated_ssid(aps, c) {
                Some(s) => s,
                None => Seq::empty(),
            },
        ),
    )
}

/// What column `id` of the client table sorts `c` by; an unknown column
/// sorts by the time last seen.
pub open spec fn client_key(
    c: ClientRecord,
    aps: Seq<AccessPointRecord>,
    id: Seq<char>,
    w: WatchlistSettings,
    f: SortFacts,
) -> KeyView {
    let n = c.network_intel;
    if id == "watchlist_entry"@ {
        text_key(client_watch_label(c, aps, w))
    } else if id == "mac"@ {
        text_key(c.mac@)
    } else if id == "oui"@ {
        folded_key(c.oui_manufacturer)
    } else if id == "associated_ap"@ {
        folded_key(c.associated_ap)
    } else if id == "associated_ssid"@ {
        assoc_ssid_key(aps, c)
    } else if id == "rssi"@ {
        opt_key(i32_opt(c.rssi_dbm))
    } else if id == "wps"@ {
        flag_key(c.wps is Some)
    } else if id == "probes"@ {
        joined_key(c.probes@)
    } else if id == "first_heard"@ || id == "first_seen"@ {
        number_key(c.first_seen as int)
    } else if id == "data_transferred"@ {
        number_key(c.data_transferred_bytes as int)
    } else if id == "probe_count"@ {
        number_key(c.probes@.len() as int)
    } else if id == "seen_ap_count"@ {
        number_key(c.seen_access_points@.len() as int)
    } else if id == "handshake_network_count"@ {
        number_key(c.handshake_networks@.len() as int)
    } else if id == "observation_count"@ {
        number_key(c.observations@.len() as int)
    } else if id == "avg_rssi"@ {
        opt_key(i32_opt(avg_rssi(c.observations@, c.rssi_dbm)))
    } else if id == "min_rssi"@ {
        opt_key(i32_opt(lowest_rssi(c.observations@, c.rssi_dbm)))
    } else if id == "max_rssi"@ {
        opt_key(i32_opt(highest_rssi(c.observations@, c.rssi_dbm)))
    } else if id == "seen_aps"@ {
        joined_key(c.seen_access_points@)
    } else if id == "handshake_networks"@ {
        joined_key(c.handshake_networks@)
    } else if id == "band"@ {
        text_key(band_label(n.band))
    } else if id == "channel"@ {
        opt_key(u16_opt(n.last_channel))
    } else if id == "frequency"@ {
        opt_key(u32_opt(n.last_frequency_mhz))
    } else if id == "uplink_bytes"@ {
        number_key(n.uplink_bytes as int)
    } else if id == "downlink_bytes"@ {
        number_key(n.downlink_bytes as int)
    } else if id == "retry_count"@ {
        number_key(n.retry_frame_count as int)
    } else if id == "retry_rate"@ {
        text_key(f.retry_rate@)
    } else if id == "power_save"@ {
        flag_key(n.power_save_observed)
    } else if id == "eapol_frames"@ {
        number_key(n.eapol_frame_count as int)
    } else if id == "pmkid_count"@ {
        number_key(n.pmkid_count as int)
    } else if id == "ipv4_addresses"@ {
        joined_key(n.local_ipv4_addresses@)
    } else if id == "ipv6_addresses"@ {
        joined_key(n.local_ipv6_addresses@)
    } else if id == "dhcp_hostnames"@ {
        joined_key(n.dhcp_hostnames@)
    } else if id == "dns_names"@ {
        joined_key(n.dns_names@)
    } else if id == "remote_endpoints"@ {
        number_key(n.remote_endpoints@.len() as int)
    } else if id == "first_location"@ {
        opt_key(i64_opt(f.first_fix_at))
    } else if id == "last_location"@ {
        opt_key(i64_opt(f.last_fix_at))
    } else if id == "strongest_location"@ {
        opt_key(i32_opt(f.strongest_rssi))
    } else {
        number_key(c.last_seen as int)
    }
}

fn assoc_ssid_sort_key(aps: &[AccessPointRecord], c: &ClientRecord) -> (r: SortKey)
    ensures
        r@ == assoc_ssid_key(aps@, *c),
{
    match associated_ssid_for_client(aps, c) {
        Some(s) => {
            let chars = str_chars(s.as_str());
            SortKey::Text(lower_chars(chars.as_slice()))
        },
        None => {
            let empty: Vec<char> = Vec::new();
            assert(ascii_lower(Seq::<char>::empty()) =~= Seq::<char>::empty());
            SortKey::Text(empty)
        },
    }
}

/// What column `column_id` of the client table sorts `client` by; `aps` are
/// the known access points.
#[verifier::rlimit(80)]
pub fn client_sort_key(
    client: &ClientRecord,
    aps: &[AccessPointRecord],
    column_id: &str,
    watchlists: &WatchlistSettings,
    facts: &SortFacts,
) -> (r: SortKey)
    ensures
        r@ == client_key(*client, aps@, column_id@, *watchlists, *facts),
{
    let id = column_id;
    let c = client;
    let n = &client.network_intel;
    if str_eq(id, "watchlist_entry") {
        let label = client_watchlist_entry_value(c, aps, watchlists);
        text_sort_key(label.as_str())
    } else if str_eq(id, "mac") {
        text_sort_key(c.mac.as_str())
    } else if str_eq(id, "oui") {
        folded_sort_key(&c.oui_manufacturer)
    } else if str_eq(id, "associated_ap") {
        folded_sort_key(&c.associated_ap)
    } else if str_eq(id, "associated_ssid") {
        assoc_ssid_sort_key(aps, c)
    } else if str_eq(id, "rssi") {
        opt_sort_key(widen_i32(c.rssi_dbm))
    } else if str_eq(id, "wps") {
        flag_sort_key(c.wps.is_some())
    } else if str_eq(id, "probes") {
        joined_sort_key(&c.probes)
    } else if str_eq(id, "first_heard") || str_eq(id, "first_seen") {
        number_sort_key(c.first_seen)
    } else if str_eq(id, "data_transferred") {
        count_sort_key(c.data_transferred_bytes)
    } else if str_eq(id, "probe_count") {
        count_sort_key(c.probes.len() as u64)
    } else if str_eq(id, "seen_ap_count") {
        count_sort_key(c.seen_access_points.len() as u64)
    } else if str_eq(id, "handshake_network_count") {
        count_sort_key(c.handshake_networks.len() as u64)
    } else if str_eq(id, "observation_count") {
        count_sort_key(c.observations.len() as u64)
    } else if str_eq(id, "avg_rssi") {
        rssi_sort_key(&c.observations, c.rssi_dbm, 0)
    } else if str_eq(id, "min_rssi") {
        rssi_sort_key(&c.observations, c.rssi_dbm, 1)
    } else if str_eq(id, "max_rssi") {
        rssi_sort_key(&c.observations, c.rssi_dbm, 2)
    } else if str_eq(id, "seen_aps") {
        joined_sort_key(&c.seen_access_points)
    } else if str_eq(id, "handshake_networks") {
        joined_sort_key(&c.handshake_networks)
    } else if str_eq(id, "band") {
        text_sort_key(n.band.label())
    } else if str_eq(id, "channel") {
        opt_u64_sort_key(widen_u16(n.last_channel))
    } else if str_eq(id, "frequency") {
        opt_u64_sort_key(widen_u32(n.last_frequency_mhz))
    } else if str_eq(id, "uplink_bytes") {
        count_sort_key(n.uplink_bytes)
    } else if str_eq(id, "downlink_bytes") {
        count_sort_key(n.downlink_bytes)
    } else if str_eq(id, "retry_count") {
        count_sort_key(n.retry_frame_count)
    } else if str_eq(id, "retry_rate") {
        text_sort_key(facts.retry_rate.as_str())
    } else if str_eq(id, "power_save") {
        flag_sort_key(n.power_save_observed)
    } else if str_eq(id, "eapol_frames") {
        count_sort_key(n.eapol_frame_count as u64)
    } else if str_eq(id, "pmkid_count") {
        count_sort_key(n.pmkid_count as u64)
    } else if str_eq(id, "ipv4_addresses") {
        joined_sort_key(&n.local_ipv4_addresses)
    } else if str_eq(id, "ipv6_addresses") {
        joined_sort_key(&n.local_ipv6_addresses)
    } else if str_eq(id, "dhcp_hostnames") {
        joined_sort_key(&n.dhcp_hostnames)
    } else if str_eq(id, "dns_names") {
        joined_sort_key(&n.dns_names)
    } else if str_eq(id, "remote_endpoints") {
        count_sort_key(n.remote_endpoints.len() as u64)
    } else if str_eq(id, "first_location") {
        opt_sort_key(facts.first_fix_at)
    } else if str_eq(id, "last_location") {
        opt_sort_key(facts.last_fix_at)
    } else if str_eq(id, "strongest_location") {
        opt_sort_key(widen_i32(facts.strongest_rssi))
    } else {
        number_sort_key(c.last_seen)
    }
}

/// What column `id` of the Bluetooth table sorts `d` by; an unknown column
/// sorts by the time last seen.
pub open spec fn bluetooth_key(d: BluetoothDeviceRecord, id: Seq<char>, w: WatchlistSettings) -> KeyView {
    if id == "watchlist_entry"@ {
        text_key(bluetooth_watch_label(d, w))
    } else if id == "transport"@ {
        text_key(d.transport@)
    } else if id == "mac"@ {
        text_key(d.mac@)
    } else if id == "oui"@ {
        folded_key(d.oui_manufacturer)
    } else if id == "name"@ {
        text_key(ascii_lower(display_name(d)))
    } else if id == "type"@ {
        folded_key(d.device_type)
    } else if id == "rssi"@ {
        opt_key(i32_opt(d.rssi_dbm))
    } else if id == "advertised_name"@ {
        folded_key(d.advertised_name)
    } else if id == "alias"@ {
        folded_key(d.alias)
    } else if id == "address_type"@ {
        folded_key(d.address_type)
    } else if id == "class_of_device"@ {
        folded_key(d.class_of_device)
    } else if id == "mfgr_ids"@ {
        joined_key(d.mfgr_ids@)
    } else if id == "mfgr_names"@ {
        joined_key(d.mfgr_names@)
    } else if id == "uuids"@ {
        joined_key(d.uuid_names@)
    } else if id == "first_seen"@ {
        number_key(d.first_seen as int)
    } else {
        number_key(d.last_seen as int)
    }
}

/// What column `column_id` of the Bluetooth table sorts `device` by.
#[verifier::rlimit(40)]
pub fn bluetooth_sort_key(device: &BluetoothDeviceRecord, column_id: &str, watchlists: &WatchlistSettings) -> (r: SortKey)
    ensures
        r@ == bluetooth_key(*device, column_id@, *watchlists),
{
    let id = column_id;
    let d = device;
    if str_eq(id, "watchlist_entry") {
        let label = bluetooth_watchlist_entry_value(d, watchlists);
        text_sort_key(label.as_str())
    } else if str_eq(id, "transport") {
        text_sort_key(d.transport.as_str())
    } else if str_eq(id, "mac") {
        text_sort_key(d.mac.as_str())
    } else if str_eq(id, "oui") {
        folded_sort_key(&d.oui_manufacturer)
    } else if str_eq(id, "name") {
        let name = bluetooth_display_name(d);
        let chars = str_chars(name.as_str());
        SortKey::Text(lower_chars(chars.as_slice()))
    } else if str_eq(id, "type") {
        folded_sort_key(&d.device_type)
    } else if str_eq(id, "rssi") {
        opt_sort_key(widen_i32(d.rssi_dbm))
    } else if str_eq(id, "advertised_name") {
        folded_sort_key(&d.advertised_name)
    } else if str_eq(id, "alias") {
        folded_sort_key(&d.alias)
    } else if str_eq(id, "address_type") {
        folded_sort_key(&d.address_type)
    } else if str_eq(id, "class_of_device") {
        folded_sort_key(&d.class_of_device)
    } else if str_eq(id, "mfgr_ids") {
        joined_sort_key(&d.mfgr_ids)
    } else if str_eq(id, "mfgr_names") {
        joined_sort_key(&d.mfgr_names)
    } else if str_eq(id, "uuids") {
        joined_sort_key(&d.uuid_names)
    } else if str_eq(id, "first_seen") {
        number_sort_key(d.first_seen)
    } else {
        number_sort_key(d.last_seen)
    }
}

/// The access points with their sort keys for column `id`; `f` holds the
/// facts of each, in the same order.
pub open spec fn ap_rows(
    s: Seq<AccessPointRecord>,
    id: Seq<char>,
    w: WatchlistSettings,
    f: Seq<SortFacts>,
) -> Seq<(RowView, AccessPointRecord)> {
    Seq::new(s.len(), |i: int| ((ap_key(s[i], id, w, f[i]), s[i].last_seen as int, s[i].bssid@), s[i]))
}

/// The clients with their sort keys for column `id`.
pub open spec fn client_rows(
    s: Seq<ClientRecord>,
    aps: Seq<AccessPointRecord>,
    id: Seq<char>,
    w: WatchlistSettings,
    f: Seq<SortFacts>,
) -> Seq<(RowView, ClientRecord)> {
    Seq::new(s.len(), |i: int| ((client_key(s[i], aps, id, w, f[i]), s[i].last_seen as int, s[i].mac@), s[i]))
}

/// The Bluetooth devices with their sort keys for column `id`.
pub open spec fn bluetooth_rows(
    s: Seq<BluetoothDeviceRecord>,
    id: Seq<char>,
    w: WatchlistSettings,
) -> Seq<(RowView, BluetoothDeviceRecord)> {
    Seq::new(s.len(), |i: int| ((bluetooth_key(s[i], id, w), s[i].last_seen as int, s[i].mac@), s[i]))
}

/// Sorts the access point table by the sort column and direction, then the
/// most recently seen first, then by BSSID. `facts[i]` belongs to `aps[i]`.
pub fn sort_access_points(
    aps: &mut Vec<AccessPointRecord>,
    sort: &TableSortState,
    watchlists: &WatchlistSettings,
    facts: &Vec<SortFacts>,
)
    requires
        facts.len() == old(aps).len(),
    ensures
        final(aps)@ == row_items(
            stable_sorted(ap_rows(old(aps)@, sort.column_id@, *watchlists, facts@), sort.descending),
        ),
{
    let mut src: Vec<AccessPointRecord> = Vec::new();
    std::mem::swap(&mut src, aps);
    let ghost orig = src@;
    let ghost all = ap_rows(orig, sort.column_id@, *watchlists, facts@);
    let mut rows: Vec<(RowKey, AccessPointRecord)> = Vec::new();
    let n = src.len();
    let mut i: usize = 0;
    while i < n
        invariant
            n == orig.len(),
            n == facts.len(),
            i <= n,
            all == ap_rows(orig, sort.column_id@, *watchlists, facts@),
            src@ == orig.subrange(i as int, n as int),
            row_views(rows@) == all.subrange(0, i as int),
        decreases n - i,
    {
        let ap = src.remove(0);
        assert(ap == orig[i as int]);
        assert(src@ =~= orig.subrange(i + 1, n as int));
        let key = access_point_sort_key(&ap, sort.column_id.as_str(), watchlists, &facts[i]);
        let row = RowKey { key, last_seen: ap.last_seen, id: str_chars(ap.bssid.as_str()) };
        let ghost prev = rows@;
        assert((row@, ap) == all[i as int]);
        rows.push((row, ap));
        assert(row_views(rows@) =~= row_views(prev).push(all[i as int]));
        i = i + 1;
        assert(row_views(rows@) =~= all.subrange(0, i as int));
    }
    assert(all.subrange(0, n as int) =~= all);
    let sorted = sort_rows(rows, sort.descending);
    *aps = unzip_rows(sorted);
}

/// Sorts the client table by the sort column and direction, then the most
/// recently seen first, then by MAC address. `facts[i]` belongs to
/// `clients[i]`; `aps` are the known access points.
pub fn sort_clients(
    clients: &mut Vec<ClientRecord>,
    aps: &[AccessPointRecord],
    sort: &TableSortState,
    watchlists: &WatchlistSettings,
    facts: &Vec<SortFacts>,
)
    requires
        facts.len() == old(clients).len(),
    ensures
        final(clients)@ == row_items(
            stable_sorted(
                client_rows(old(clients)@, aps@, sort.column_id@, *watchlists, facts@),
                sort.descending,
            ),
        ),
{
    let mut src: Vec<ClientRecord> = Vec::new();
    std::mem::swap(&mut src, clients);
    let ghost orig = src@;
    let ghost all = client_rows(orig, aps@, sort.column_id@, *watchlists, facts@);
    let mut rows: Vec<(RowKey, ClientRecord)> = Vec::new();
    let n = src.len();
    let mut i: usize = 0;
    while i < n
        invariant
            n == orig.len(),
            n == facts.len(),
            i <= n,
            all == client_rows(orig, aps@, sort.column_id@, *watchlists, facts@),
            src@ == orig.subrange(i as int, n as int),
            row_views(rows@) == all.subrange(0, i as int),
        decreases n - i,
    {
        let c = src.remove(0);
        assert(c == orig[i as int]);
        assert(src@ =~= orig.subrange(i + 1, n as int));
        let key = client_sort_key(&c, aps, sort.column_id.as_str(), watchlists, &facts[i]);
        let row = RowKey { key, last_seen: c.last_seen, id: str_chars(c.mac.as_str()) };
        let ghost prev = rows@;
        assert((row@, c) == all[i as int]);
        rows.push((row, c));
        assert(row_views(rows@) =~= row_views(prev).push(all[i as int]));
        i = i + 1;
        assert(row_views(rows@) =~= all.subrange(0, i as int));
    }
    assert(all.subrange(0, n as int) =~= all);
    let sorted = sort_rows(rows, sort.descending);
    *clients = unzip_rows(sorted);
}

/// Sorts the Bluetooth table by the sort column and direction, then the
/// most recently seen first, then by MAC address.
pub fn sort_bluetooth_devices(
    devices: &mut Vec<BluetoothDeviceRecord>,
    sort: &TableSortState,
    watchlists: &WatchlistSettings,
)
    ensures
        final(devices)@ == row_items(
            stable_sorted(bluetooth_rows(old(devices)@, sort.column_id@, *watchlists), sort.descending),
        ),
{
    let mut src: Vec<BluetoothDeviceRecord> = Vec::new();
    std::mem::swap(&mut src, devices);
    let ghost orig = src@;
    let ghost all = bluetooth_rows(orig, sort.column_id@, *watchlists);
    let mut rows: Vec<(RowKey, BluetoothDeviceRecord)> = Vec::new();
    let n = src.len();
    let mut i: usize = 0;
    while i < n
        invariant
            n == orig.len(),
            i <= n,
            all == bluetooth_rows(orig, sort.column_id@, *watchlists),
            src@ == orig.subrange(i as int, n as int),
            row_views(rows@) == all.subrange(0, i as int),
        decreases n - i,
    {
        let d = src.remove(0);
        assert(d == orig[i as int]);
        assert(src@ =~= orig.subrange(i + 1, n as int));
        let key = bluetooth_sort_key(&d, sort.column_id.as_str(), watchlists);
        let row = RowKey { key, last_seen: d.last_seen, id: str_chars(d.mac.as_str()) };
        let ghost prev = rows@;
        assert((row@, d) == all[i as int]);
        rows.push((row, d));
        assert(row_views(rows@) =~= row_views(prev).push(all[i as int]));
        i = i + 1;
        assert(row_views(rows@) =~= all.subrange(0, i as int));
    }
    assert(all.subrange(0, n as int) =~= all);
    let sorted = sort_rows(rows, sort.descending);
    *devices = unzip_rows(sorted);
}

/// The columns the associated-clients table sorts by itself; any other
/// column sorts as the client table does.
pub open spec fn assoc_own_column(id: Seq<char>) -> bool {
    id == "status"@ || id == "current_ap"@ || id == "current_ssid"@
}

/// Whether client `c` is currently associated with the access point
/// `ap_bssid` (compared exactly).
pub open spec fn is_current(c: ClientRecord, ap_bssid: Seq<char>) -> bool {
    c.associated_ap matches Some(a) && a@ == ap_bssid
}

/// What one of the associated-clients table's own columns sorts `c` by.
pub open spec fn assoc_key(c: ClientRecord, ap_bssid: Seq<char>, aps: Seq<AccessPointRecord>, id: Seq<char>) -> KeyView {
    if id == "status"@ {
        flag_key(is_current(c, ap_bssid))
    } else if id == "current_ap"@ {
        folded_key(c.associated_ap)
    } else {
        assoc_ssid_key(aps, c)
    }
}

/// The clients with their keys for one of the table's own columns.
pub open spec fn assoc_rows(
    s: Seq<ClientRecord>,
    ap_bssid: Seq<char>,
    aps: Seq<AccessPointRecord>,
    id: Seq<char>,
) -> Seq<(RowView, ClientRecord)> {
    Seq::new(s.len(), |i: int| ((assoc_key(s[i], ap_bssid, aps, id), s[i].last_seen as int, s[i].mac@), s[i]))
}

/// The order of the associated-clients table. Its own columns sort like
/// the other tables. Another column sorts as the client table does when
/// ascending; descending, it gives the client table's descending order
/// backwards (the key ascending, then the least recently seen first, then
/// by MAC address from the end), which for distinct MAC addresses is the
/// only order the table's comparison allows (see
/// `lemma_assoc_reversed_order`).
pub open spec fn assoc_order(
    s: Seq<ClientRecord>,
    ap_bssid: Seq<char>,
    aps: Seq<AccessPointRecord>,
    id: Seq<char>,
    w: WatchlistSettings,
    f: Seq<SortFacts>,
    descending: bool,
) -> Seq<ClientRecord> {
    if assoc_own_column(id) {
        row_items(stable_sorted(assoc_rows(s, ap_bssid, aps, id), descending))
    } else if !descending {
        row_items(stable_sorted(client_rows(s, aps, id, w, f), false))
    } else {
        row_items(stable_sorted(client_rows(s, aps, id, w, f), true)).reverse()
    }
}

pub(crate) fn assoc_sort_key(c: &ClientRecord, ap_bssid: &str, aps: &[AccessPointRecord], id: &str) -> (r: SortKey)
    ensures
        r@ == assoc_key(*c, ap_bssid@, aps@, id@),
{
    if str_eq(id, "status") {
        let current = match &c.associated_ap {
            Some(a) => str_eq(a.as_str(), ap_bssid),
            None => false,
        };
        flag_sort_key(current)
    } else if str_eq(id, "current_ap") {
        folded_sort_key(&c.associated_ap)
    } else {
        assoc_ssid_sort_key(aps, c)
    }
}

/// `v` backwards.
pub(crate) fn reverse_vec<T>(v: Vec<T>) -> (r: Vec<T>)
    ensures
        r@ == v@.reverse(),
{
    let ghost orig = v@;
    let mut src = v;
    let mut out: Vec<T> = Vec::new();
    while src.len() > 0
        invariant
            src@.len() <= orig.len(),
            src@ == orig.subrange(0, src@.len() as int),
            out@ == orig.subrange(src@.len() as int, orig.len() as int).reverse(),
        decreases src@.len(),
    {
        let ghost n = src@.len();
        let ghost before = src@;
        let x = src.pop().unwrap();
        assert(x == orig[n - 1]);
        out.push(x);
        assert(src@ =~= orig.subrange(0, n - 1));
        assert(out@ =~= orig.subrange(n - 1, orig.len() as int).reverse());
    }
    assert(orig.subrange(0, orig.len() as int) =~= orig);
    out
}

/// Sorts the clients seen on the access point `ap_bssid` (see
/// `assoc_order`). `facts[i]` belongs to `clients[i]`.
pub fn sort_assoc_clients(
    clients: &mut Vec<ClientRecord>,
    ap_bssid: &str,
    aps: &[AccessPointRecord],
    sort: &TableSortState,
    watchlists: &WatchlistSettings,
    facts: &Vec<SortFacts>,
)
    requires
        facts.len() == old(clients).len(),
    ensures
        final(clients)@ == assoc_order(
            old(clients)@,
            ap_bssid@,
            aps@,
            sort.column_id@,
            *watchlists,
            facts@,
            sort.descending,
        ),
{
    let id = sort.column_id.as_str();
    let own = str_eq(id, "status") || str_eq(id, "current_ap") || str_eq(id, "current_ssid");
    if !own {
        sort_clients(clients, aps, sort, watchlists, facts);
        if sort.descending {
            let mut sorted: Vec<ClientRecord> = Vec::new();
            std::mem::swap(&mut sorted, clients);
            *clients = reverse_vec(sorted);
        }
        return;
    }
    let mut src: Vec<ClientRecord> = Vec::new();
    std::mem::swap(&mut src, clients);
    let ghost orig = src@;
    let ghost all = assoc_rows(orig, ap_bssid@, aps@, id@);
    let mut rows: Vec<(RowKey, ClientRecord)> = Vec::new();
    let n = src.len();
    let mut i: usize = 0;
    while i < n
        invariant
            n == orig.len(),
            i <= n,
            all == assoc_rows(orig, ap_bssid@, aps@, id@),
            src@ == orig.subrange(i as int, n as int),
            row_views(rows@) == all.subrange(0, i as int),
        decreases n - i,
    {
        let c = src.remove(0);
        assert(c == orig[i as int]);
        assert(src@ =~= orig.subrange(i + 1, n as int));
        let key = assoc_sort_key(&c, ap_bssid, aps, id);
        let row = RowKey { key, last_seen: c.last_seen, id: str_chars(c.mac.as_str()) };
        let ghost prev = rows@;
        assert((row@, c) == all[i as int]);
        rows.push((row, c));
        assert(row_views(rows@) =~= row_views(prev).push(all[i as int]));
        i = i + 1;
        assert(row_views(rows@) =~= all.subrange(0, i as int));
    }
    assert(all.subrange(0, n as int) =~= all);
    let sorted = sort_rows(rows, sort.descending);
    *clients = unzip_rows(sorted);
}

/// For distinct MAC addresses, the backwards order of a column the table
/// does not sort by itself puts each client strictly before the next in
/// the descending order read backwards.
pub proof fn lemma_assoc_reversed_order(s: Seq<(RowView, ClientRecord)>)
    requires
        forall|i: int, j: int| 0 <= i < j < s.len() ==> (#[trigger] s[i]).0.2 != (#[trigger] s[j]).0.2,
    ensures
        ({
            let r = stable_sorted(s, true).reverse();
            forall|i: int, j: int|
                0 <= i < j < r.len() ==> row_before(#[trigger] r[j].0, #[trigger] r[i].0, true)
        }),
{
    let st = stable_sorted(s, true);
    assert(s.no_duplicates()) by {
        assert forall|i: int, j: int| 0 <= i < s.len() && 0 <= j < s.len() && i != j implies s[i] != s[j] by {
            if i < j {
                assert(s[i].0.2 != s[j].0.2);
            } else {
                assert(s[j].0.2 != s[i].0.2);
            }
        }
    }
    lemma_stable_sorted_no_duplicates(s, true);
    lemma_stable_sorted_in_order(s, true);
    lemma_stable_sorted_permutes(s, true);
    lemma_stable_sorted_rows_from_input(s, true);
    let r = st.reverse();
    assert forall|i: int, j: int| 0 <= i < j < r.len() implies row_before(
        #[trigger] r[j].0,
        #[trigger] r[i].0,
        true,
    ) by {
        let a = st.len() - 1 - j;
        let b = st.len() - 1 - i;
        assert(r[j] == st[a] && r[i] == st[b]);
        assert(!row_before(st[b].0, st[a].0, true));
        assert(s.contains(st[a]) && s.contains(st[b]));
        let ka = choose|k: int| 0 <= k < s.len() && s[k] == st[a];
        let kb = choose|k: int| 0 <= k < s.len() && s[k] == st[b];
        assert(st[a] != st[b]);
        assert(ka != kb);
        assert(st[a].0.2 != st[b].0.2);
        lemma_row_before_total(st[a].0, st[b].0, true);
    }
}


/// Rows whose column keys are the numbers `val` gives their items come out
/// of a stable sort ordered by those numbers, in the chosen direction.
proof fn lemma_sorted_by_number<T>(rows: Seq<(RowView, T)>, descending: bool, val: spec_fn(T) -> int)
    requires
        forall|k: int| 0 <= k < rows.len() ==> (#[trigger] rows[k]).0.0 == number_key(val(rows[k].1)),
    ensures
        row_items(stable_sorted(rows, descending)).len() == rows.len(),
        forall|i: int, j: int|
            0 <= i < j < rows.len() ==> {
                let a = val(#[trigger] row_items(stable_sorted(rows, descending))[i]);
                let b = val(#[trigger] row_items(stable_sorted(rows, descending))[j]);
                if descending {
                    a >= b
                } else {
                    a <= b
                }
            },
{
    let st = stable_sorted(rows, descending);
    lemma_stable_sorted_in_order(rows, descending);
    lemma_stable_sorted_permutes(rows, descending);
    lemma_stable_sorted_rows_from_input(rows, descending);
    let out = row_items(st);
    assert forall|i: int, j: int| 0 <= i < j < rows.len() implies ({
        let a = val(#[trigger] out[i]);
        let b = val(#[trigger] out[j]);
        if descending {
            a >= b
        } else {
            a <= b
        }
    }) by {
        assert(rows.contains(st[i]) && rows.contains(st[j]));
        let ki = choose|k: int| 0 <= k < rows.len() && rows[k] == st[i];
        let kj = choose|k: int| 0 <= k < rows.len() && rows[k] == st[j];
        assert(rows[ki].0.0 == number_key(val(rows[ki].1)));
        assert(rows[kj].0.0 == number_key(val(rows[kj].1)));
        assert(out[i] == st[i].1 && out[j] == st[j].1);
        assert(!row_before(st[j].0, st[i].0, descending));
    }
}

proof fn lemma_ap_number_columns(ap: AccessPointRecord, w: WatchlistSettings, f: SortFacts)
    ensures
        ap_key(ap, "clients"@, w, f) == number_key((ap.number_of_clients) as int),
        ap_key(ap, "handshakes"@, w, f) == number_key(ap.handshake_count as int),
        ap_key(ap, "first_seen"@, w, f) == number_key(ap.first_seen as int),
{
    reveal_strlit("watchlist_entry");
    reveal_strlit("ssid");
    reveal_strlit("bssid");
    reveal_strlit("oui");
    reveal_strlit("channel");
    reveal_strlit("encryption");
    reveal_strlit("rssi");
    reveal_strlit("wps");
    reveal_strlit("clients");
    reveal_strlit("first_seen");
    reveal_strlit("handshakes");
    assert("clients"@[1] != "channel"@[1]);
    assert("clients"@ != "channel"@);
    assert("handshakes"@[0] != "encryption"@[0]);
    assert("handshakes"@ != "encryption"@);
    assert("handshakes"@[0] != "first_seen"@[0]);
    assert("handshakes"@ != "first_seen"@);
}

/// Sorting the access point table by the `clients` column orders it by the
/// number of clients: each row has no more clients than the next when
/// ascending, and no fewer when descending.
pub proof fn lemma_ap_clients_column_orders_by_client_count(
    aps: Seq<AccessPointRecord>,
    w: WatchlistSettings,
    f: Seq<SortFacts>,
    descending: bool,
)
    requires
        f.len() == aps.len(),
    ensures
        ({
            let out = row_items(stable_sorted(ap_rows(aps, "clients"@, w, f), descending));
            &&& out.len() == aps.len()
            &&& forall|i: int, j: int|
                0 <= i < j < out.len() ==> if descending {
                    (#[trigger] out[i]).number_of_clients >= (#[trigger] out[j]).number_of_clients
                } else {
                    out[i].number_of_clients <= out[j].number_of_clients
                }
        }),
{
    let rows = ap_rows(aps, "clients"@, w, f);
    let val = |a: AccessPointRecord| a.number_of_clients as int;
    assert forall|k: int| 0 <= k < rows.len() implies (#[trigger] rows[k]).0.0 == number_key(val(rows[k].1)) by {
        lemma_ap_number_columns(aps[k], w, f[k]);
    }
    lemma_sorted_by_number(rows, descending, val);
}

/// Sorting the access point table by the `handshakes` column orders it by
/// the number of handshakes captured.
pub proof fn lemma_ap_handshakes_column_orders_by_handshake_count(
    aps: Seq<AccessPointRecord>,
    w: WatchlistSettings,
    f: Seq<SortFacts>,
    descending: bool,
)
    requires
        f.len() == aps.len(),
    ensures
        ({
            let out = row_items(stable_sorted(ap_rows(aps, "handshakes"@, w, f), descending));
            &&& out.len() == aps.len()
            &&& forall|i: int, j: int|
                0 <= i < j < out.len() ==> if descending {
                    (#[trigger] out[i]).handshake_count >= (#[trigger] out[j]).handshake_count
                } else {
                    out[i].handshake_count <= out[j].handshake_count
                }
        }),
{
    let rows = ap_rows(aps, "handshakes"@, w, f);
    let val = |a: AccessPointRecord| a.handshake_count as int;
    assert forall|k: int| 0 <= k < rows.len() implies (#[trigger] rows[k]).0.0 == number_key(val(rows[k].1)) by {
        lemma_ap_number_columns(aps[k], w, f[k]);
    }
    lemma_sorted_by_number(rows, descending, val);
}

/// Sorting the access point table by the `first_seen` column orders it by
/// the time each access point was first seen.
pub proof fn lemma_ap_first_seen_column_orders_by_first_sighting(
    aps: Seq<AccessPointRecord>,
    w: WatchlistSettings,
    f: Seq<SortFacts>,
    descending: bool,
)
    requires
        f.len() == aps.len(),
    ensures
        ({
            let out = row_items(stable_sorted(ap_rows(aps, "first_seen"@, w, f), descending));
            &&& out.len() == aps.len()
            &&& forall|i: int, j: int|
                0 <= i < j < out.len() ==> if descending {
                    (#[trigger] out[i]).first_seen >= (#[trigger] out[j]).first_seen
                } else {
                    out[i].first_seen <= out[j].first_seen
                }
        }),
{
    let rows = ap_rows(aps, "first_seen"@, w, f);
    let val = |a: AccessPointRecord| a.first_seen as int;
    assert forall|k: int| 0 <= k < rows.len() implies (#[trigger] rows[k]).0.0 == number_key(val(rows[k].1)) by {
        lemma_ap_number_columns(aps[k], w, f[k]);
    }
    lemma_sorted_by_number(rows, descending, val);
}


proof fn lemma_client_number_columns(
    c: ClientRecord,
    aps: Seq<AccessPointRecord>,
    w: WatchlistSettings,
    f: SortFacts,
)
    ensures
        client_key(c, aps, "first_seen"@, w, f) == number_key((c.first_seen) as int),
        client_key(c, aps, "data_transferred"@, w, f) == number_key((c.data_transferred_bytes) as int),
{
    reveal_strlit("watchlist_entry");
    reveal_strlit("mac");
    reveal_strlit("oui");
    reveal_strlit("associated_ap");
    reveal_strlit("associated_ssid");
    reveal_strlit("rssi");
    reveal_strlit("wps");
    reveal_strlit("probes");
    reveal_strlit("first_heard");
    reveal_strlit("first_seen");
    reveal_strlit("data_transferred");
    assert("first_seen"@.len() == 10 && "data_transferred"@.len() == 16);
    assert("first_heard"@.len() == 11);
}

/// Sorting the client table by the `first_seen` column orders it by the
/// time each client was first seen.
pub proof fn lemma_client_first_seen_column_orders_by_first_sighting(
    clients: Seq<ClientRecord>,
    aps: Seq<AccessPointRecord>,
    w: WatchlistSettings,
    f: Seq<SortFacts>,
    descending: bool,
)
    requires
        f.len() == clients.len(),
    ensures
        ({
            let out = row_items(stable_sorted(client_rows(clients, aps, "first_seen"@, w, f), descending));
            &&& out.len() == clients.len()
            &&& forall|i: int, j: int|
                0 <= i < j < out.len() ==> if descending {
                    (#[trigger] out[i]).first_seen >= (#[trigger] out[j]).first_seen
                } else {
                    out[i].first_seen <= out[j].first_seen
                }
        }),
{
    let rows = client_rows(clients, aps, "first_seen"@, w, f);
    let val = |c: ClientRecord| c.first_seen as int;
    assert forall|k: int| 0 <= k < rows.len() implies (#[trigger] rows[k]).0.0 == number_key(val(rows[k].1)) by {
        lemma_client_number_columns(clients[k], aps, w, f[k]);
    }
    lemma_sorted_by_number(rows, descending, val);
}

/// Sorting the client table by the `data_transferred` column orders it by
/// the bytes each client moved.
pub proof fn lemma_client_data_column_orders_by_bytes(
    clients: Seq<ClientRecord>,
    aps: Seq<AccessPointRecord>,
    w: WatchlistSettings,
    f: Seq<SortFacts>,
    descending: bool,
)
    requires
        f.len() == clients.len(),
    ensures
        ({
            let out = row_items(
                stable_sorted(client_rows(clients, aps, "data_transferred"@, w, f), descending),
            );
            &&& out.len() == clients.len()
            &&& forall|i: int, j: int|
                0 <= i < j < out.len() ==> if descending {
                    (#[trigger] out[i]).data_transferred_bytes >= (
                    #[trigger] out[j]).data_transferred_bytes
                } else {
                    out[i].data_transferred_bytes <= out[j].data_transferred_bytes
                }
        }),
{
    let rows = client_rows(clients, aps, "data_transferred"@, w, f);
    let val = |c: ClientRecord| c.data_transferred_bytes as int;
    assert forall|k: int| 0 <= k < rows.len() implies (#[trigger] rows[k]).0.0 == number_key(val(rows[k].1)) by {
        lemma_client_number_columns(clients[k], aps, w, f[k]);
    }
    lemma_sorted_by_number(rows, descending, val);
}

/// Sorting the Bluetooth table by the `first_seen` column orders it by the
/// time each device was first seen.
pub proof fn lemma_bluetooth_first_seen_column_orders_by_first_sighting(
    devices: Seq<BluetoothDeviceRecord>,
    w: WatchlistSettings,
    descending: bool,
)
    ensures
        ({
            let out = row_items(stable_sorted(bluetooth_rows(devices, "first_seen"@, w), descending));
            &&& out.len() == devices.len()
            &&& forall|i: int, j: int|
                0 <= i < j < out.len() ==> if descending {
                    (#[trigger] out[i]).first_seen >= (#[trigger] out[j]).first_seen
                } else {
                    out[i].first_seen <= out[j].first_seen
                }
        }),
{
    reveal_strlit("watchlist_entry");
    reveal_strlit("transport");
    reveal_strlit("mac");
    reveal_strlit("oui");
    reveal_strlit("name");
    reveal_strlit("type");
    reveal_strlit("rssi");
    reveal_strlit("advertised_name");
    reveal_strlit("alias");
    reveal_strlit("address_type");
    reveal_strlit("class_of_device");
    reveal_strlit("mfgr_ids");
    reveal_strlit("mfgr_names");
    reveal_strlit("uuids");
    reveal_strlit("first_seen");
    assert("first_seen"@.len() == 10);
    assert("mfgr_names"@[0] != "first_seen"@[0]);
    assert("mfgr_names"@ != "first_seen"@);
    let rows = bluetooth_rows(devices, "first_seen"@, w);
    let val = |d: BluetoothDeviceRecord| d.first_seen as int;
    assert forall|k: int| 0 <= k < rows.len() implies (#[trigger] rows[k]).0.0 == number_key(val(rows[k].1)) by {
        assert(bluetooth_key(devices[k], "first_seen"@, w) == number_key(devices[k].first_seen as int));
    }
    lemma_sorted_by_number(rows, descending, val);
}

} // verus!
