//! The text of each table cell: what the access point, client, associated
//! client and Bluetooth tables show (and filter on) for a column id.

use vstd::prelude::*;
use crate::channels::band_label;
use crate::display::{
    bool_word, dbm_text, uptime_text, time_of_day, hidden_ssid, rssi_samples, rounded_mean,
    sum_levels, min_level, max_level, rssi_stats, format_dbm, format_beacon_uptime, ap_hidden_ssid,
    push_time_of_day, push_or, push_joined, push_port,
};
use crate::http::opt_view;
use crate::records::{AccessPointRecord, BluetoothDeviceRecord, ClientEndpointRecord, ClientRecord, GeoObservation};
use crate::text::{push_str, push_decimal, decimal, join, str_eq, string_from_chars, string_seqs};
use crate::watchlist::{
    associated_ssid, associated_ssid_for_client, display_name, bluetooth_display_name,
    first_ap_hit, first_client_hit, first_bluetooth_hit, entry_label_text, opt_match_view,
    ap_watchlist_match, client_watchlist_match, bluetooth_watchlist_match, WatchlistMatch,
};
use crate::settings::WatchlistSettings;

verus! {

/// The cells of a row's location columns. They come from floating-point
/// coordinates, so they are rendered by the caller: the first, the last and
/// the strongest sighting.
pub struct LocationCells {
    pub first: String,
    pub last: String,
    pub strongest: String,
}

/// The text of an optional value, or nothing.
pub open spec fn or_blank(o: Option<String>) -> Seq<char> {
    match o {
        Some(s) => s@,
        None => Seq::empty(),
    }
}

/// A number, or nothing when unknown.
pub open spec fn opt_decimal(o: Option<nat>) -> Seq<char> {
    match o {
        Some(n) => decimal(n),
        None => Seq::empty(),
    }
}

/// `<n> MHz`, or nothing when unknown.
pub open spec fn mhz_text(o: Option<u32>) -> Seq<char> {
    match o {
        Some(f) => decimal(f as nat) + " MHz"@,
        None => Seq::empty(),
    }
}

/// Mean signal level of the samples (see `rssi_samples`), rounded.
pub open spec fn avg_rssi(obs: Seq<GeoObservation>, fallback: Option<i32>) -> Option<i32> {
    let s = rssi_samples(obs, fallback);
    if s.len() == 0 {
        None
    } else {
        Some(rounded_mean(sum_levels(s), s.len() as int) as i32)
    }
}

pub open spec fn lowest_rssi(obs: Seq<GeoObservation>, fallback: Option<i32>) -> Option<i32> {
    let s = rssi_samples(obs, fallback);
    if s.len() == 0 {
        None
    } else {
        Some(min_level(s))
    }
}

pub open spec fn highest_rssi(obs: Seq<GeoObservation>, fallback: Option<i32>) -> Option<i32> {
    let s = rssi_samples(obs, fallback);
    if s.len() == 0 {
        None
    } else {
        Some(max_level(s))
    }
}

/// The cell of column `id` of the access point table, or `None` for a column
/// the table does not have.
pub open spec fn ap_cell(ap: AccessPointRecord, id: Seq<char>, loc: LocationCells) -> Option<Seq<char>> {
    if id == "ssid"@ {
        Some(
            match ap.ssid {
                Some(s) => s@,
                None => "<hidden>"@,
            },
        )
    } else if id == "bssid"@ {
        Some(ap.bssid@)
    } else if id == "oui"@ {
        Some(or_blank(ap.oui_manufacturer))
    } else if id == "channel"@ {
        Some(opt_decimal(match ap.channel { Some(c) => Some(c as nat), None => None }))
    } else if id == "encryption"@ {
        Some(ap.encryption_short@)
    } else if id == "rssi"@ {
        Some(dbm_text(ap.rssi_dbm))
    } else if id == "wps"@ {
        Some(bool_word(ap.wps is Some))
    } else if id == "clients"@ {
        Some(decimal(ap.number_of_clients as nat))
    } else if id == "first_seen"@ {
        Some(time_of_day(ap.first_seen))
    } else if id == "last_seen"@ {
        Some(time_of_day(ap.last_seen))
    } else if id == "handshakes"@ {
        Some(decimal(ap.handshake_count as nat))
    } else if id == "band"@ {
        Some(band_label(ap.band))
    } else if id == "frequency"@ {
        Some(mhz_text(ap.frequency_mhz))
    } else if id == "country"@ {
        Some(or_blank(ap.country_code_80211d))
    } else if id == "full_encryption"@ {
        Some(ap.encryption_full@)
    } else if id == "hidden_ssid"@ {
        Some(bool_word(hidden_ssid(ap)))
    } else if id == "uptime"@ {
        Some(uptime_text(ap.uptime_beacons))
    } else if id == "observation_count"@ {
        Some(decimal(ap.observations@.len()))
    } else if id == "avg_rssi"@ {
        Some(dbm_text(avg_rssi(ap.observations@, ap.rssi_dbm)))
    } else if id == "min_rssi"@ {
        Some(dbm_text(lowest_rssi(ap.observations@, ap.rssi_dbm)))
    } else if id == "max_rssi"@ {
        Some(dbm_text(highest_rssi(ap.observations@, ap.rssi_dbm)))
    } else if id == "packet_total"@ {
        Some(decimal(ap.packet_mix.total_value() as nat))
    } else if id == "notes"@ {
        Some(or_blank(ap.notes))
    } else if id == "first_location"@ {
        Some(loc.first@)
    } else if id == "last_location"@ {
        Some(loc.last@)
    } else if id == "strongest_location"@ {
        Some(loc.strongest@)
    } else {
        None
    }
}

fn push_opt_u64(out: &mut Vec<char>, o: Option<u64>)
    ensures
        final(out)@ == old(out)@ + opt_decimal(match o { Some(n) => Some(n as nat), None => None }),
{
    match o {
        Some(n) => push_decimal(out, n),
        None => {
            assert(old(out)@ + Seq::<char>::empty() =~= old(out)@);
        },
    }
}

fn push_mhz(out: &mut Vec<char>, o: Option<u32>)
    ensures
        final(out)@ == old(out)@ + mhz_text(o),
{
    match o {
        Some(f) => {
            push_decimal(out, f as u64);
            push_str(out, " MHz");
            assert(final(out)@ =~= old(out)@ + mhz_text(o));
        },
        None => {
            assert(old(out)@ + Seq::<char>::empty() =~= old(out)@);
        },
    }
}

/// Appends the signal statistics cell `which` (0 mean, 1 lowest, 2 highest).
fn push_rssi_stat(out: &mut Vec<char>, obs: &Vec<GeoObservation>, fallback: Option<i32>, which: u8)
    requires
        which < 3,
    ensures
        final(out)@ == old(out)@ + dbm_text(
            if which == 0 {
                avg_rssi(obs@, fallback)
            } else if which == 1 {
                lowest_rssi(obs@, fallback)
            } else {
                highest_rssi(obs@, fallback)
            },
        ),
{
    let stats = rssi_stats(obs.as_slice(), fallback);
    let v = if which == 0 {
        stats.0
    } else if which == 1 {
        stats.1
    } else {
        stats.2
    };
    let t = format_dbm(v);
    push_str(out, t.as_str());
}

fn push_bool_word(out: &mut Vec<char>, b: bool)
    ensures
        final(out)@ == old(out)@ + bool_word(b),
{
    if b {
        push_str(out, "True");
    } else {
        push_str(out, "False");
    }
}

/// The cell of column `id` for access point `ap`; `locations` are its
/// location cells.
#[verifier::rlimit(60)]
pub fn ap_column_value(ap: &AccessPointRecord, id: &str, locations: &LocationCells) -> (r: Option<String>)
    ensures
        opt_view(r) == ap_cell(*ap, id@, *locations),
{
    let mut out: Vec<char> = Vec::new();
    if str_eq(id, "ssid") {
        push_or(&mut out, &ap.ssid, "<hidden>");
    } else if str_eq(id, "bssid") {
        push_str(&mut out, ap.bssid.as_str());
    } else if str_eq(id, "oui") {
        push_or(&mut out, &ap.oui_manufacturer, "");
    } else if str_eq(id, "channel") {
        push_opt_u64(&mut out, match ap.channel { Some(c) => Some(c as u64), None => None });
    } else if str_eq(id, "encryption") {
        push_str(&mut out, ap.encryption_short.as_str());
    } else if str_eq(id, "rssi") {
        push_str(&mut out, format_dbm(ap.rssi_dbm).as_str());
    } else if str_eq(id, "wps") {
        push_bool_word(&mut out, ap.wps.is_some());
    } else if str_eq(id, "clients") {
        push_decimal(&mut out, ap.number_of_clients as u64);
    } else if str_eq(id, "first_seen") {
        push_time_of_day(&mut out, ap.first_seen);
    } else if str_eq(id, "last_seen") {
        push_time_of_day(&mut out, ap.last_seen);
    } else if str_eq(id, "handshakes") {
        push_decimal(&mut out, ap.handshake_count as u64);
    } else if str_eq(id, "band") {
        push_str(&mut out, ap.band.label());
    } else if str_eq(id, "frequency") {
        push_mhz(&mut out, ap.frequency_mhz);
    } else if str_eq(id, "country") {
        push_or(&mut out, &ap.country_code_80211d, "");
    } else if str_eq(id, "full_encryption") {
        push_str(&mut out, ap.encryption_full.as_str());
    } else if str_eq(id, "hidden_ssid") {
        push_bool_word(&mut out, ap_hidden_ssid(ap));
    } else if str_eq(id, "uptime") {
        push_str(&mut out, format_beacon_uptime(ap.uptime_beacons).as_str());
    } else if str_eq(id, "observation_count") {
        push_decimal(&mut out, ap.observations.len() as u64);
    } else if str_eq(id, "avg_rssi") {
        push_rssi_stat(&mut out, &ap.observations, ap.rssi_dbm, 0);
    } else if str_eq(id, "min_rssi") {
        push_rssi_stat(&mut out, &ap.observations, ap.rssi_dbm, 1);
    } else if str_eq(id, "max_rssi") {
        push_rssi_stat(&mut out, &ap.observations, ap.rssi_dbm, 2);
    } else if str_eq(id, "packet_total") {
        push_decimal(&mut out, ap.packet_mix.total());
    } else if str_eq(id, "notes") {
        push_or(&mut out, &ap.notes, "");
    } else if str_eq(id, "first_location") {
        push_str(&mut out, locations.first.as_str());
    } else if str_eq(id, "last_location") {
        push_str(&mut out, locations.last.as_str());
    } else if str_eq(id, "strongest_location") {
        push_str(&mut out, locations.strongest.as_str());
    } else {
        return None;
    }
    proof {
        reveal_strlit("");
    }
    assert(Seq::<char>::empty() + ""@ =~= Seq::<char>::empty());
    Some(string_from_chars(out.as_slice()))
}

/// A remote endpoint in brief: protocol, address and port.
pub open spec fn endpoint_brief(e: ClientEndpointRecord) -> Seq<char> {
    e.protocol@ + " "@ + e.ip_address@ + match e.port {
        Some(p) => ":"@ + decimal(p as nat),
        None => Seq::empty(),
    }
}

/// The first four remote endpoints in brief, separated by ` | `.
pub open spec fn endpoints_brief(eps: Seq<ClientEndpointRecord>) -> Seq<char> {
    let shown = if eps.len() > 4 {
        eps.subrange(0, 4)
    } else {
        eps
    };
    join(shown.map_values(|e: ClientEndpointRecord| endpoint_brief(e)), " | "@)
}

/// The client cells of the identity and activity columns.
pub open spec fn client_cell_main(c: ClientRecord, aps: Seq<AccessPointRecord>, id: Seq<char>) -> Option<Seq<char>> {
    if id == "mac"@ {
        Some(c.mac@)
    } else if id == "oui"@ {
        Some(or_blank(c.oui_manufacturer))
    } else if id == "associated_ap"@ {
        Some(or_blank(c.associated_ap))
    } else if id == "associated_ssid"@ {
        Some(
            match associated_ssid(aps, c) {
                Some(s) => s,
                None => Seq::empty(),
            },
        )
    } else if id == "rssi"@ {
        Some(dbm_text(c.rssi_dbm))
    } else if id == "wps"@ {
        Some(bool_word(c.wps is Some))
    } else if id == "probes"@ {
        Some(join(string_seqs(c.probes@), ","@))
    } else if id == "first_heard"@ {
        Some(time_of_day(c.first_seen))
    } else if id == "last_heard"@ {
        Some(time_of_day(c.last_seen))
    } else if id == "data_transferred"@ {
        Some(decimal(c.data_transferred_bytes as nat))
    } else if id == "probe_count"@ {
        Some(decimal(c.probes@.len()))
    } else if id == "seen_ap_count"@ {
        Some(decimal(c.seen_access_points@.len()))
    } else if id == "handshake_network_count"@ {
        Some(decimal(c.handshake_networks@.len()))
    } else if id == "observation_count"@ {
        Some(decimal(c.observations@.len()))
    } else if id == "avg_rssi"@ {
        Some(dbm_text(avg_rssi(c.observations@, c.rssi_dbm)))
    } else if id == "min_rssi"@ {
        Some(dbm_text(lowest_rssi(c.observations@, c.rssi_dbm)))
    } else if id == "max_rssi"@ {
        Some(dbm_text(highest_rssi(c.observations@, c.rssi_dbm)))
    } else if id == "seen_aps"@ {
        Some(join(string_seqs(c.seen_access_points@), ", "@))
    } else if id == "handshake_networks"@ {
        Some(join(string_seqs(c.handshake_networks@), ", "@))
    } else {
        None
    }
}

/// The client cells of the network columns.
pub open spec fn client_cell_network(c: ClientRecord, id: Seq<char>, retry_rate: Seq<char>, loc: LocationCells) -> Option<Seq<char>> {
    let n = c.network_intel;
    if id == "band"@ {
        Some(band_label(n.band))
    } else if id == "channel"@ {
        Some(opt_decimal(match n.last_channel { Some(v) => Some(v as nat), None => None }))
    } else if id == "frequency"@ {
        Some(mhz_text(n.last_frequency_mhz))
    } else if id == "uplink_bytes"@ {
        Some(decimal(n.uplink_bytes as nat))
    } else if id == "downlink_bytes"@ {
        Some(decimal(n.downlink_bytes as nat))
    } else if id == "retry_count"@ {
        Some(decimal(n.retry_frame_count as nat))
    } else if id == "retry_rate"@ {
        Some(retry_rate)
    } else if id == "power_save"@ {
        Some(bool_word(n.power_save_observed))
    } else if id == "eapol_frames"@ {
        Some(decimal(n.eapol_frame_count as nat))
    } else if id == "pmkid_count"@ {
        Some(decimal(n.pmkid_count as nat))
    } else if id == "ipv4_addresses"@ {
        Some(join(string_seqs(n.local_ipv4_addresses@), ", "@))
    } else if id == "ipv6_addresses"@ {
        Some(join(string_seqs(n.local_ipv6_addresses@), ", "@))
    } else if id == "dhcp_hostnames"@ {
        Some(join(string_seqs(n.dhcp_hostnames@), ", "@))
    } else if id == "dns_names"@ {
        Some(join(string_seqs(n.dns_names@), ", "@))
    } else if id == "remote_endpoints"@ {
        Some(endpoints_brief(n.remote_endpoints@))
    } else if id == "first_location"@ {
        Some(loc.first@)
    } else if id == "last_location"@ {
        Some(loc.last@)
    } else if id == "strongest_location"@ {
        Some(loc.strongest@)
    } else {
        None
    }
}

/// The cell of column `id` of the client table, or `None` for a column the
/// table does not have. `retry_rate` is the retry rate text (a
/// floating-point ratio, rendered by the caller).
pub open spec fn client_cell(
    c: ClientRecord,
    aps: Seq<AccessPointRecord>,
    id: Seq<char>,
    retry_rate: Seq<char>,
    loc: LocationCells,
) -> Option<Seq<char>> {
    match client_cell_main(c, aps, id) {
        Some(v) => Some(v),
        None => client_cell_network(c, id, retry_rate, loc),
    }
}

fn push_endpoints_brief(out: &mut Vec<char>, eps: &Vec<ClientEndpointRecord>)
    ensures
        final(out)@ == old(out)@ + endpoints_brief(eps@),
{
    let n: usize = if eps.len() > 4 {
        4
    } else {
        eps.len()
    };
    let ghost shown = if eps@.len() > 4 {
        eps@.subrange(0, 4)
    } else {
        eps@
    };
    let ghost parts = shown.map_values(|e: ClientEndpointRecord| endpoint_brief(e));
    let ghost start = out@;
    let mut i: usize = 0;
    while i < n
        invariant
            n == shown.len(),
            n <= eps@.len(),
            forall|k: int| 0 <= k < n ==> shown[k] == eps@[k],
            parts == shown.map_values(|e: ClientEndpointRecord| endpoint_brief(e)),
            i <= n,
            out@ == start + join(parts.subrange(0, i as int), " | "@),
        decreases n - i,
    {
        proof {
            let pre = parts.subrange(0, i + 1);
            assert(pre.drop_last() =~= parts.subrange(0, i as int));
            assert(pre.last() == parts[i as int]);
        }
        let ghost before = out@;
        if i > 0 {
            push_str(out, " | ");
        }
        let e = &eps[i];
        push_str(out, e.protocol.as_str());
        push_str(out, " ");
        push_str(out, e.ip_address.as_str());
        push_port(out, e.port);
        proof {
            if i == 0 {
                assert(join(parts.subrange(0, 0), " | "@) =~= Seq::<char>::empty());
                assert(out@ =~= start + parts[0]);
            } else {
                assert(out@ =~= start + (join(parts.subrange(0, i as int), " | "@) + " | "@
                    + parts[i as int]));
            }
        }
        i = i + 1;
    }
    assert(parts.subrange(0, n as int) =~= parts);
    if n == 0 {
        assert(out@ =~= start + endpoints_brief(eps@));
    }
}

#[verifier::rlimit(60)]
fn client_column_main(client: &ClientRecord, aps: &[AccessPointRecord], id: &str) -> (r: Option<String>)
    ensures
        opt_view(r) == client_cell_main(*client, aps@, id@),
{
    let mut out: Vec<char> = Vec::new();
    if str_eq(id, "mac") {
        push_str(&mut out, client.mac.as_str());
    } else if str_eq(id, "oui") {
        push_or(&mut out, &client.oui_manufacturer, "");
    } else if str_eq(id, "associated_ap") {
        push_or(&mut out, &client.associated_ap, "");
    } else if str_eq(id, "associated_ssid") {
        let ssid = associated_ssid_for_client(aps, client);
        push_or(&mut out, &ssid, "");
    } else if str_eq(id, "rssi") {
        push_str(&mut out, format_dbm(client.rssi_dbm).as_str());
    } else if str_eq(id, "wps") {
        push_bool_word(&mut out, client.wps.is_some());
    } else if str_eq(id, "probes") {
        push_joined(&mut out, &client.probes, ",");
    } else if str_eq(id, "first_heard") {
        push_time_of_day(&mut out, client.first_seen);
    } else if str_eq(id, "last_heard") {
        push_time_of_day(&mut out, client.last_seen);
    } else if str_eq(id, "data_transferred") {
        push_decimal(&mut out, client.data_transferred_bytes);
    } else if str_eq(id, "probe_count") {
        push_decimal(&mut out, client.probes.len() as u64);
    } else if str_eq(id, "seen_ap_count") {
        push_decimal(&mut out, client.seen_access_points.len() as u64);
    } else if str_eq(id, "handshake_network_count") {
        push_decimal(&mut out, client.handshake_networks.len() as u64);
    } else if str_eq(id, "observation_count") {
        push_decimal(&mut out, client.observations.len() as u64);
    } else if str_eq(id, "avg_rssi") {
        push_rssi_stat(&mut out, &client.observations, client.rssi_dbm, 0);
    } else if str_eq(id, "min_rssi") {
        push_rssi_stat(&mut out, &client.observations, client.rssi_dbm, 1);
    } else if str_eq(id, "max_rssi") {
        push_rssi_stat(&mut out, &client.observations, client.rssi_dbm, 2);
    } else if str_eq(id, "seen_aps") {
        push_joined(&mut out, &client.seen_access_points, ", ");
    } else if str_eq(id, "handshake_networks") {
        push_joined(&mut out, &client.handshake_networks, ", ");
    } else {
        return None;
    }
    proof {
        reveal_strlit("");
    }
    assert(Seq::<char>::empty() + ""@ =~= Seq::<char>::empty());
    Some(string_from_chars(out.as_slice()))
}

#[verifier::rlimit(60)]
fn client_column_network(client: &ClientRecord, id: &str, retry_rate: &str, locations: &LocationCells) -> (r: Option<String>)
    ensures
        opt_view(r) == client_cell_network(*client, id@, retry_rate@, *locations),
{
    let n = &client.network_intel;
    let mut out: Vec<char> = Vec::new();
    if str_eq(id, "band") {
        push_str(&mut out, n.band.label());
    } else if str_eq(id, "channel") {
        push_opt_u64(&mut out, match n.last_channel { Some(c) => Some(c as u64), None => None });
    } else if str_eq(id, "frequency") {
        push_mhz(&mut out, n.last_frequency_mhz);
    } else if str_eq(id, "uplink_bytes") {
        push_decimal(&mut out, n.uplink_bytes);
    } else if str_eq(id, "downlink_bytes") {
        push_decimal(&mut out, n.downlink_bytes);
    } else if str_eq(id, "retry_count") {
        push_decimal(&mut out, n.retry_frame_count);
    } else if str_eq(id, "retry_rate") {
        push_str(&mut out, retry_rate);
    } else if str_eq(id, "power_save") {
        push_bool_word(&mut out, n.power_save_observed);
    } else if str_eq(id, "eapol_frames") {
        push_decimal(&mut out, n.eapol_frame_count as u64);
    } else if str_eq(id, "pmkid_count") {
        push_decimal(&mut out, n.pmkid_count as u64);
    } else if str_eq(id, "ipv4_addresses") {
        push_joined(&mut out, &n.local_ipv4_addresses, ", ");
    } else if str_eq(id, "ipv6_addresses") {
        push_joined(&mut out, &n.local_ipv6_addresses, ", ");
    } else if str_eq(id, "dhcp_hostnames") {
        push_joined(&mut out, &n.dhcp_hostnames, ", ");
    } else if str_eq(id, "dns_names") {
        push_joined(&mut out, &n.dns_names, ", ");
    } else if str_eq(id, "remote_endpoints") {
        push_endpoints_brief(&mut out, &n.remote_endpoints);
    } else if str_eq(id, "first_location") {
        push_str(&mut out, locations.first.as_str());
    } else if str_eq(id, "last_location") {
        push_str(&mut out, locations.last.as_str());
    } else if str_eq(id, "strongest_location") {
        push_str(&mut out, locations.strongest.as_str());
    } else {
        return None;
    }
    assert(Seq::<char>::empty() + out@ =~= out@);
    Some(string_from_chars(out.as_slice()))
}

/// The cell of column `id` for `client`; `aps` give the network names,
/// `retry_rate` and `locations` the cells computed from floating-point values.
pub fn client_column_value(
    client: &ClientRecord,
    aps: &[AccessPointRecord],
    id: &str,
    retry_rate: &str,
    locations: &LocationCells,
) -> (r: Option<String>)
    ensures
        opt_view(r) == client_cell(*client, aps@, id@, retry_rate@, *locations),
{
    match client_column_main(client, aps, id) {
        Some(v) => Some(v),
        None => client_column_network(client, id, retry_rate, locations),
    }
}

/// The cell of column `id` of the table of clients seen on access point
/// `ap_bssid`, or `None` for a column the table does not have.
pub open spec fn assoc_client_cell(
    c: ClientRecord,
    ap_bssid: Seq<char>,
    aps: Seq<AccessPointRecord>,
    id: Seq<char>,
) -> Option<Seq<char>> {
    if id == "mac"@ {
        Some(c.mac@)
    } else if id == "status"@ {
        Some(
            if c.associated_ap matches Some(a) && a@ == ap_bssid {
                "Current"@
            } else {
                "Historical"@
            },
        )
    } else if id == "current_ap"@ {
        Some(or_blank(c.associated_ap))
    } else if id == "current_ssid"@ {
        Some(
            match associated_ssid(aps, c) {
                Some(s) => s,
                None => Seq::empty(),
            },
        )
    } else if id == "oui"@ {
        Some(or_blank(c.oui_manufacturer))
    } else if id == "data_transferred"@ {
        Some(decimal(c.data_transferred_bytes as nat))
    } else if id == "rssi"@ {
        Some(dbm_text(c.rssi_dbm))
    } else if id == "first_heard"@ {
        Some(time_of_day(c.first_seen))
    } else if id == "last_heard"@ {
        Some(time_of_day(c.last_seen))
    } else if id == "wps"@ {
        Some(bool_word(c.wps is Some))
    } else if id == "probe_count"@ {
        Some(decimal(c.probes@.len()))
    } else if id == "seen_ap_count"@ {
        Some(decimal(c.seen_access_points@.len()))
    } else if id == "handshake_network_count"@ {
        Some(decimal(c.handshake_networks@.len()))
    } else {
        None
    }
}

#[verifier::rlimit(40)]
pub fn assoc_client_column_value(
    client: &ClientRecord,
    ap_bssid: &str,
    aps: &[AccessPointRecord],
    id: &str,
) -> (r: Option<String>)
    ensures
        opt_view(r) == assoc_client_cell(*client, ap_bssid@, aps@, id@),
{
    let mut out: Vec<char> = Vec::new();
    if str_eq(id, "mac") {
        push_str(&mut out, client.mac.as_str());
    } else if str_eq(id, "status") {
        let current = match &client.associated_ap {
            Some(a) => str_eq(a.as_str(), ap_bssid),
            None => false,
        };
        if current {
            push_str(&mut out, "Current");
        } else {
            push_str(&mut out, "Historical");
        }
    } else if str_eq(id, "current_ap") {
        push_or(&mut out, &client.associated_ap, "");
    } else if str_eq(id, "current_ssid") {
        let ssid = associated_ssid_for_client(aps, client);
        push_or(&mut out, &ssid, "");
    } else if str_eq(id, "oui") {
        push_or(&mut out, &client.oui_manufacturer, "");
    } else if str_eq(id, "data_transferred") {
        push_decimal(&mut out, client.data_transferred_bytes);
    } else if str_eq(id, "rssi") {
        push_str(&mut out, format_dbm(client.rssi_dbm).as_str());
    } else if str_eq(id, "first_heard") {
        push_time_of_day(&mut out, client.first_seen);
    } else if str_eq(id, "last_heard") {
        push_time_of_day(&mut out, client.last_seen);
    } else if str_eq(id, "wps") {
        push_bool_word(&mut out, client.wps.is_some());
    } else if str_eq(id, "probe_count") {
        push_decimal(&mut out, client.probes.len() as u64);
    } else if str_eq(id, "seen_ap_count") {
        push_decimal(&mut out, client.seen_access_points.len() as u64);
    } else if str_eq(id, "handshake_network_count") {
        push_decimal(&mut out, client.handshake_networks.len() as u64);
    } else {
        return None;
    }
    proof {
        reveal_strlit("");
    }
    assert(Seq::<char>::empty() + ""@ =~= Seq::<char>::empty());
    Some(string_from_chars(out.as_slice()))
}

/// The cell of column `id` of the Bluetooth table, or `None` for a column the
/// table does not have.
pub open spec fn bluetooth_cell(d: BluetoothDeviceRecord, id: Seq<char>) -> Option<Seq<char>> {
    if id == "transport"@ {
        Some(d.transport@)
    } else if id == "mac"@ {
        Some(d.mac@)
    } else if id == "oui"@ {
        Some(or_blank(d.oui_manufacturer))
    } else if id == "name"@ {
        Some(display_name(d))
    } else if id == "type"@ {
        Some(
            match d.device_type {
                Some(t) => t@,
                None => "Unknown"@,
            },
        )
    } else if id == "first_seen"@ {
        Some(time_of_day(d.first_seen))
    } else if id == "last_seen"@ {
        Some(time_of_day(d.last_seen))
    } else if id == "rssi"@ {
        Some(dbm_text(d.rssi_dbm))
    } else if id == "advertised_name"@ {
        Some(or_blank(d.advertised_name))
    } else if id == "alias"@ {
        Some(or_blank(d.alias))
    } else if id == "address_type"@ {
        Some(or_blank(d.address_type))
    } else if id == "class_of_device"@ {
        Some(or_blank(d.class_of_device))
    } else if id == "mfgr_ids"@ {
        Some(join(string_seqs(d.mfgr_ids@), ", "@))
    } else if id == "mfgr_names"@ {
        Some(join(string_seqs(d.mfgr_names@), ", "@))
    } else if id == "uuids"@ {
        Some(join(string_seqs(d.uuid_names@), ", "@))
    } else {
        None
    }
}

#[verifier::rlimit(40)]
pub fn bluetooth_column_value(device: &BluetoothDeviceRecord, id: &str) -> (r: Option<String>)
    ensures
        opt_view(r) == bluetooth_cell(*device, id@),
{
    let mut out: Vec<char> = Vec::new();
    if str_eq(id, "transport") {
        push_str(&mut out, device.transport.as_str());
    } else if str_eq(id, "mac") {
        push_str(&mut out, device.mac.as_str());
    } else if str_eq(id, "oui") {
        push_or(&mut out, &device.oui_manufacturer, "");
    } else if str_eq(id, "name") {
        push_str(&mut out, bluetooth_display_name(device).as_str());
    } else if str_eq(id, "type") {
        push_or(&mut out, &device.device_type, "Unknown");
    } else if str_eq(id, "first_seen") {
        push_time_of_day(&mut out, device.first_seen);
    } else if str_eq(id, "last_seen") {
        push_time_of_day(&mut out, device.last_seen);
    } else if str_eq(id, "rssi") {
        push_str(&mut out, format_dbm(device.rssi_dbm).as_str());
    } else if str_eq(id, "advertised_name") {
        push_or(&mut out, &device.advertised_name, "");
    } else if str_eq(id, "alias") {
        push_or(&mut out, &device.alias, "");
    } else if str_eq(id, "address_type") {
        push_or(&mut out, &device.address_type, "");
    } else if str_eq(id, "class_of_device") {
        push_or(&mut out, &device.class_of_device, "");
    } else if str_eq(id, "mfgr_ids") {
        push_joined(&mut out, &device.mfgr_ids, ", ");
    } else if str_eq(id, "mfgr_names") {
        push_joined(&mut out, &device.mfgr_names, ", ");
    } else if str_eq(id, "uuids") {
        push_joined(&mut out, &device.uuid_names, ", ");
    } else {
        return None;
    }
    proof {
        reveal_strlit("");
    }
    assert(Seq::<char>::empty() + ""@ =~= Seq::<char>::empty());
    Some(string_from_chars(out.as_slice()))
}

/// The label of the first watchlist entry that is a hit for `ap`, or nothing.
pub open spec fn ap_watch_label(ap: AccessPointRecord, w: WatchlistSettings) -> Seq<char> {
    match first_ap_hit(w.entries@, ap) {
        Some(i) => entry_label_text(w.entries@[i]),
        None => Seq::empty(),
    }
}

/// The label of the first watchlist entry that is a hit for `c`, or nothing.
pub open spec fn client_watch_label(c: ClientRecord, aps: Seq<AccessPointRecord>, w: WatchlistSettings) -> Seq<char> {
    match first_client_hit(w.entries@, c, associated_ssid(aps, c)) {
        Some(i) => entry_label_text(w.entries@[i]),
        None => Seq::empty(),
    }
}

/// The label of the first watchlist entry that is a hit for `d`, or nothing.
pub open spec fn bluetooth_watch_label(d: BluetoothDeviceRecord, w: WatchlistSettings) -> Seq<char> {
    match first_bluetooth_hit(w.entries@, d) {
        Some(i) => entry_label_text(w.entries@[i]),
        None => Seq::empty(),
    }
}

fn label_or_blank(m: Option<WatchlistMatch>) -> (r: String)
    ensures
        r@ == match opt_match_view(m) {
            Some(v) => v.0,
            None => Seq::empty(),
        },
{
    match m {
        Some(hit) => hit.label,
        None => String::new(),
    }
}

/// The watchlist cell of access point `ap`: the label of its first hit.
pub fn ap_watchlist_entry_value(ap: &AccessPointRecord, watchlists: &WatchlistSettings) -> (r: String)
    ensures
        r@ == ap_watch_label(*ap, *watchlists),
{
    label_or_blank(ap_watchlist_match(ap, watchlists))
}

/// The watchlist cell of `client`: the label of its first hit.
pub fn client_watchlist_entry_value(
    client: &ClientRecord,
    aps: &[AccessPointRecord],
    watchlists: &WatchlistSettings,
) -> (r: String)
    ensures
        r@ == client_watch_label(*client, aps@, *watchlists),
{
    label_or_blank(client_watchlist_match(client, aps, watchlists))
}

/// The watchlist cell of Bluetooth device `device`: the label of its first hit.
pub fn bluetooth_watchlist_entry_value(device: &BluetoothDeviceRecord, watchlists: &WatchlistSettings) -> (r: String)
    ensures
        r@ == bluetooth_watch_label(*device, *watchlists),
{
    label_or_blank(bluetooth_watchlist_match(device, watchlists))
}

/// `ap_column_value`, with the `watchlist_entry` column.
pub fn ap_column_value_with_watchlist(
    ap: &AccessPointRecord,
    id: &str,
    watchlists: &WatchlistSettings,
    locations: &LocationCells,
) -> (r: Option<String>)
    ensures
        opt_view(r) == if id@ == "watchlist_entry"@ {
            Some(ap_watch_label(*ap, *watchlists))
        } else {
            ap_cell(*ap, id@, *locations)
        },
{
    if str_eq(id, "watchlist_entry") {
        Some(ap_watchlist_entry_value(ap, watchlists))
    } else {
        ap_column_value(ap, id, locations)
    }
}

/// `client_column_value`, with the `watchlist_entry` column.
pub fn client_column_value_with_watchlist(
    client: &ClientRecord,
    aps: &[AccessPointRecord],
    id: &str,
    watchlists: &WatchlistSettings,
    retry_rate: &str,
    locations: &LocationCells,
) -> (r: Option<String>)
    ensures
        opt_view(r) == if id@ == "watchlist_entry"@ {
            Some(client_watch_label(*client, aps@, *watchlists))
        } else {
            client_cell(*client, aps@, id@, retry_rate@, *locations)
        },
{
    if str_eq(id, "watchlist_entry") {
        Some(client_watchlist_entry_value(client, aps, watchlists))
    } else {
        client_column_value(client, aps, id, retry_rate, locations)
    }
}

/// `assoc_client_column_value`, with the `watchlist_entry` column.
pub fn assoc_client_column_value_with_watchlist(
    client: &ClientRecord,
    ap_bssid: &str,
    aps: &[AccessPointRecord],
    id: &str,
    watchlists: &WatchlistSettings,
) -> (r: Option<String>)
    ensures
        opt_view(r) == if id@ == "watchlist_entry"@ {
            Some(client_watch_label(*client, aps@, *watchlists))
        } else {
            assoc_client_cell(*client, ap_bssid@, aps@, id@)
        },
{
    if str_eq(id, "watchlist_entry") {
        Some(client_watchlist_entry_value(client, aps, watchlists))
    } else {
        assoc_client_column_value(client, ap_bssid, aps, id)
    }
}

/// `bluetooth_column_value`, with the `watchlist_entry` column.
pub fn bluetooth_column_value_with_watchlist(
    device: &BluetoothDeviceRecord,
    id: &str,
    watchlists: &WatchlistSettings,
) -> (r: Option<String>)
    ensures
        opt_view(r) == if id@ == "watchlist_entry"@ {
            Some(bluetooth_watch_label(*device, *watchlists))
        } else {
            bluetooth_cell(*device, id@)
        },
{
    if str_eq(id, "watchlist_entry") {
        Some(bluetooth_watchlist_entry_value(device, watchlists))
    } else {
        bluetooth_column_value(device, id)
    }
}

} // verus!
