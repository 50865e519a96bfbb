//! Merging a new sighting of a device into the record of the same device:
//! newer values win where the sighting has them, counters keep their
//! maximum, first/last seen widen, lists gain what they lacked, and
//! observations accumulate.

use vstd::prelude::*;
use crate::channels::SpectrumBand;
use crate::records::{
    first_key, lemma_first_key, ap_keys, client_keys, bluetooth_keys, find_ap, find_client,
    find_bluetooth, min_i64, max_i64, prefer, packet_mix_max, packet_mix_merge, AccessPointRecord,
    ClientRecord, BluetoothDeviceRecord, ClientEndpointRecord, ClientNetworkIntel,
};
use crate::recency::{Recency, newest_first, sort_newest_first};
use crate::text::{str_eq, string_seqs};

verus! {

pub open spec fn max_u64(a: u64, b: u64) -> u64 {
    if a >= b {
        a
    } else {
        b
    }
}

pub open spec fn max_u32(a: u32, b: u32) -> u32 {
    if a >= b {
        a
    } else {
        b
    }
}

fn max_u64_exec(a: u64, b: u64) -> (r: u64)
    ensures
        r == max_u64(a, b),
{
    if a >= b {
        a
    } else {
        b
    }
}

fn max_u32_exec(a: u32, b: u32) -> (r: u32)
    ensures
        r == max_u32(a, b),
{
    if a >= b {
        a
    } else {
        b
    }
}

fn min_i64_exec(a: i64, b: i64) -> (r: i64)
    ensures
        r == min_i64(a, b),
{
    if a <= b {
        a
    } else {
        b
    }
}

fn max_i64_exec(a: i64, b: i64) -> (r: i64)
    ensures
        r == max_i64(a, b),
{
    if a >= b {
        a
    } else {
        b
    }
}

/// `incoming` unless it reads "Unknown", else `current`.
pub open spec fn known_or(incoming: Seq<char>, current: Seq<char>) -> Seq<char> {
    if incoming != "Unknown"@ {
        incoming
    } else {
        current
    }
}

fn is_unknown(s: &String) -> (r: bool)
    ensures
        r == (s@ == "Unknown"@),
{
    str_eq(s.as_str(), "Unknown")
}

/// `n` is the access point record `e` after merging the sighting `inc`.
pub open spec fn ap_merged(e: AccessPointRecord, inc: AccessPointRecord, n: AccessPointRecord) -> bool {
    &&& n.bssid == e.bssid
    &&& n.ssid == prefer(inc.ssid, e.ssid)
    &&& n.oui_manufacturer == prefer(inc.oui_manufacturer, e.oui_manufacturer)
    &&& n.country_code_80211d == prefer(inc.country_code_80211d, e.country_code_80211d)
    &&& n.channel == prefer(inc.channel, e.channel)
    &&& n.frequency_mhz == prefer(inc.frequency_mhz, e.frequency_mhz)
    &&& n.band == inc.band
    &&& n.encryption_short@ == known_or(inc.encryption_short@, e.encryption_short@)
    &&& n.encryption_full@ == known_or(inc.encryption_full@, e.encryption_full@)
    &&& n.uptime_beacons == prefer(inc.uptime_beacons, e.uptime_beacons)
    &&& n.rssi_dbm == prefer(inc.rssi_dbm, e.rssi_dbm)
    &&& n.first_seen == min_i64(e.first_seen, inc.first_seen)
    &&& n.last_seen == inc.last_seen
    &&& n.handshake_count == max_u32(e.handshake_count, inc.handshake_count)
    &&& n.packet_mix == packet_mix_max(e.packet_mix, inc.packet_mix)
    &&& n.observations@ == e.observations@ + inc.observations@
    &&& n.number_of_clients == inc.number_of_clients
    &&& n.notes == e.notes
    &&& n.wps == e.wps
    &&& n.source_adapters@ == e.source_adapters@
}

/// Merges the sighting `incoming` into the record of the access point with
/// the same BSSID (see `ap_merged`), or adds it as a new record.
pub fn merge_ap(aps: &mut Vec<AccessPointRecord>, incoming: AccessPointRecord)
    ensures
        match first_key(ap_keys(old(aps)@), incoming.bssid@) {
            Some(i) => {
                &&& final(aps)@.len() == old(aps)@.len()
                &&& forall|j: int|
                    0 <= j < old(aps)@.len() && j != i ==> final(aps)@[j] == old(aps)@[j]
                &&& ap_merged(old(aps)@[i], incoming, final(aps)@[i])
            },
            None => final(aps)@ == old(aps)@.push(incoming),
        },
{
    proof {
        lemma_first_key(ap_keys(aps@), incoming.bssid@);
        reveal_strlit("Unknown");
    }
    match find_ap(aps, incoming.bssid.as_str()) {
        Some(i) => {
            let ghost inc = incoming;
            let mut e = aps.remove(i);
            let ghost old_e = e;
            if incoming.ssid.is_some() {
                e.ssid = incoming.ssid;
            }
            if incoming.oui_manufacturer.is_some() {
                e.oui_manufacturer = incoming.oui_manufacturer;
            }
            if incoming.country_code_80211d.is_some() {
                e.country_code_80211d = incoming.country_code_80211d;
            }
            if incoming.channel.is_some() {
                e.channel = incoming.channel;
            }
            if incoming.frequency_mhz.is_some() {
                e.frequency_mhz = incoming.frequency_mhz;
            }
            e.band = incoming.band;
            if !is_unknown(&incoming.encryption_short) {
                e.encryption_short = incoming.encryption_short;
            }
            if !is_unknown(&incoming.encryption_full) {
                e.encryption_full = incoming.encryption_full;
            }
            if incoming.uptime_beacons.is_some() {
                e.uptime_beacons = incoming.uptime_beacons;
            }
            if incoming.rssi_dbm.is_some() {
                e.rssi_dbm = incoming.rssi_dbm;
            }
            e.last_seen = incoming.last_seen;
            e.first_seen = min_i64_exec(e.first_seen, incoming.first_seen);
            e.handshake_count = max_u32_exec(e.handshake_count, incoming.handshake_count);
            e.packet_mix = packet_mix_merge(e.packet_mix, incoming.packet_mix);
            let mut obs = incoming.observations;
            e.observations.append(&mut obs);
            e.number_of_clients = incoming.number_of_clients;
            assert(ap_merged(old_e, inc, e));
            aps.insert(i, e);
        },
        None => {
            aps.push(incoming);
        },
    }
}


/// `dst` followed by the items of `src` it does not hold yet, each checked
/// against what was added before it.
pub open spec fn add_missing<T>(dst: Seq<T>, src: Seq<T>) -> Seq<T>
    decreases src.len(),
{
    if src.len() == 0 {
        dst
    } else {
        let d = add_missing(dst, src.drop_last());
        if d.contains(src.last()) {
            d
        } else {
            d.push(src.last())
        }
    }
}

/// `name` is one of `names`.
pub fn holds_string(names: &Vec<String>, name: &str) -> (r: bool)
    ensures
        r == string_seqs(names@).contains(name@),
{
    let mut i: usize = 0;
    while i < names.len()
        invariant
            i <= names@.len(),
            forall|j: int| 0 <= j < i ==> names@[j]@ != name@,
        decreases names@.len() - i,
    {
        if str_eq(names[i].as_str(), name) {
            assert(string_seqs(names@)[i as int] == name@);
            return true;
        }
        i = i + 1;
    }
    proof {
        if string_seqs(names@).contains(name@) {
            let j = choose|j: int|
                0 <= j < string_seqs(names@).len() && string_seqs(names@)[j] == name@;
            assert(names@[j]@ == name@);
        }
    }
    false
}

/// Appends to `dst` each string of `src` it does not hold yet.
pub fn push_missing_strings(dst: &mut Vec<String>, src: &Vec<String>)
    ensures
        string_seqs(final(dst)@) == add_missing(string_seqs(old(dst)@), string_seqs(src@)),
{
    let ghost d0 = string_seqs(dst@);
    let mut i: usize = 0;
    assert(string_seqs(src@).subrange(0, 0) =~= Seq::<Seq<char>>::empty());
    while i < src.len()
        invariant
            i <= src@.len(),
            string_seqs(dst@) == add_missing(d0, string_seqs(src@).subrange(0, i as int)),
        decreases src@.len() - i,
    {
        proof {
            let pre = string_seqs(src@).subrange(0, i + 1);
            assert(pre.drop_last() =~= string_seqs(src@).subrange(0, i as int));
            assert(pre.last() == src@[i as int]@);
        }
        if !holds_string(dst, src[i].as_str()) {
            let ghost before = string_seqs(dst@);
            dst.push(src[i].clone());
            assert(string_seqs(dst@) =~= before.push(src@[i as int]@));
        }
        i = i + 1;
    }
    assert(string_seqs(src@).subrange(0, src@.len() as int) =~= string_seqs(src@));
}

/// Appends to `dst` each value of `src` it does not hold yet.
pub fn push_missing_u8(dst: &mut Vec<u8>, src: &Vec<u8>)
    ensures
        final(dst)@ == add_missing(old(dst)@, src@),
{
    let ghost d0 = dst@;
    let mut i: usize = 0;
    assert(src@.subrange(0, 0) =~= Seq::<u8>::empty());
    while i < src.len()
        invariant
            i <= src@.len(),
            dst@ == add_missing(d0, src@.subrange(0, i as int)),
        decreases src@.len() - i,
    {
        proof {
            let pre = src@.subrange(0, i + 1);
            assert(pre.drop_last() =~= src@.subrange(0, i as int));
        }
        let x = src[i];
        let mut found = false;
        let mut k: usize = 0;
        while k < dst.len()
            invariant
                k <= dst@.len(),
                found <==> exists|j: int| 0 <= j < k && dst@[j] == x,
            decreases dst@.len() - k,
        {
            if dst[k] == x {
                found = true;
            }
            k = k + 1;
        }
        if !found {
            dst.push(x);
        }
        i = i + 1;
    }
    assert(src@.subrange(0, src@.len() as int) =~= src@);
}

/// No value comes after a larger one.
pub open spec fn is_ascending(s: Seq<u8>) -> bool {
    forall|i: int, j: int| 0 <= i < j < s.len() ==> s[i] <= s[j]
}

/// Sorts `v` into ascending order.
pub fn sort_ascending_u8(v: &mut Vec<u8>)
    ensures
        is_ascending(final(v)@),
        final(v)@.to_multiset() == old(v)@.to_multiset(),
{
    let ghost orig = v@;
    let mut out: Vec<u8> = Vec::new();
    let n = v.len();
    let mut i: usize = 0;
    assert(orig.subrange(0, 0) =~= out@);
    while i < n
        invariant
            n == orig.len(),
            v@ == orig,
            i <= n,
            is_ascending(out@),
            out@.to_multiset() == orig.subrange(0, i as int).to_multiset(),
        decreases n - i,
    {
        let x = v[i];
        let mut pos: usize = 0;
        while pos < out.len() && out[pos] <= x
            invariant
                pos <= out@.len(),
                forall|j: int| 0 <= j < pos ==> out@[j] <= x,
            decreases out@.len() - pos,
        {
            pos = pos + 1;
        }
        let ghost before = out@;
        out.insert(pos, x);
        proof {
            assert forall|a: int, b: int| 0 <= a < b < out@.len() implies out@[a] <= out@[b] by {
                if b < pos {
                    assert(out@[a] == before[a] && out@[b] == before[b]);
                } else if b == pos {
                    assert(out@[a] == before[a]);
                } else if a == pos {
                    assert(out@[b] == before[b - 1]);
                    assert(before[pos as int] > x);
                    if b - 1 > pos {
                        assert(before[pos as int] <= before[b - 1]);
                    }
                } else if a < pos {
                    assert(out@[a] == before[a] && out@[b] == before[b - 1]);
                } else {
                    assert(out@[a] == before[a - 1] && out@[b] == before[b - 1]);
                }
            }
            assert(orig.subrange(0, i + 1) =~= orig.subrange(0, i as int).push(x));
            vstd::seq_lib::to_multiset_insert(before, pos as int, x);
            vstd::seq_lib::to_multiset_build(orig.subrange(0, i as int), x);
        }
        i = i + 1;
    }
    assert(orig.subrange(0, n as int) =~= orig);
    *v = out;
}


impl Recency for ClientEndpointRecord {
    /// Last seen, then packet count.
    open spec fn recency(&self) -> (int, int) {
        (self.last_seen as int, self.packet_count as int)
    }

    fn recency_key(&self) -> (r: (i64, u64)) {
        (self.last_seen, self.packet_count)
    }
}

/// Most remote endpoints kept per client.
pub const MAX_REMOTE_ENDPOINTS: usize = 64;

/// Both records describe the same remote endpoint (address, port, protocol).
pub open spec fn same_endpoint(a: ClientEndpointRecord, b: ClientEndpointRecord) -> bool {
    a.ip_address@ == b.ip_address@ && a.port == b.port && a.protocol@ == b.protocol@
}

/// Index of the first endpoint of `s` that is the same as `e`.
pub open spec fn first_match(s: Seq<ClientEndpointRecord>, e: ClientEndpointRecord) -> Option<int>
    decreases s.len(),
{
    if s.len() == 0 {
        None
    } else if same_endpoint(s[0], e) {
        Some(0)
    } else {
        match first_match(s.drop_first(), e) {
            Some(i) => Some(i + 1),
            None => None,
        }
    }
}

proof fn lemma_first_match(s: Seq<ClientEndpointRecord>, e: ClientEndpointRecord)
    ensures
        match first_match(s, e) {
            Some(i) => 0 <= i < s.len() && same_endpoint(s[i], e) && forall|j: int|
                0 <= j < i ==> !same_endpoint(#[trigger] s[j], e),
            None => forall|j: int| 0 <= j < s.len() ==> !same_endpoint(#[trigger] s[j], e),
        },
    decreases s.len(),
{
    if s.len() > 0 && !same_endpoint(s[0], e) {
        lemma_first_match(s.drop_first(), e);
        assert forall|j: int| 0 < j < s.len() implies s[j] == s.drop_first()[j - 1] by {}
    }
}

/// `cur` updated by another sighting `inc` of the same endpoint: first and
/// last seen widen, the packet count keeps its maximum, and a missing domain
/// or city is filled in.
pub open spec fn endpoint_merged(cur: ClientEndpointRecord, inc: ClientEndpointRecord) -> ClientEndpointRecord {
    ClientEndpointRecord {
        first_seen: min_i64(cur.first_seen, inc.first_seen),
        last_seen: max_i64(cur.last_seen, inc.last_seen),
        packet_count: max_u64(cur.packet_count, inc.packet_count),
        domain: if cur.domain is None && inc.domain is Some {
            inc.domain
        } else {
            cur.domain
        },
        geo_city: if cur.geo_city is None && inc.geo_city is Some {
            inc.geo_city
        } else {
            cur.geo_city
        },
        ..cur
    }
}

/// `cur` after each endpoint of `inc` in turn was merged into the same
/// endpoint, or appended when new.
pub open spec fn merge_endpoints(cur: Seq<ClientEndpointRecord>, inc: Seq<ClientEndpointRecord>) -> Seq<ClientEndpointRecord>
    decreases inc.len(),
{
    if inc.len() == 0 {
        cur
    } else {
        let c = merge_endpoints(cur, inc.drop_last());
        let e = inc.last();
        match first_match(c, e) {
            Some(i) => c.update(i, endpoint_merged(c[i], e)),
            None => c.push(e),
        }
    }
}

/// The first `n` items of `s` (all of them when there are fewer).
pub open spec fn keep_first<T>(s: Seq<T>, n: nat) -> Seq<T> {
    if s.len() > n {
        s.subrange(0, n as int)
    } else {
        s
    }
}

fn copy_opt_string(o: &Option<String>) -> (r: Option<String>)
    ensures
        r == *o,
{
    match o {
        Some(s) => Some(s.clone()),
        None => None,
    }
}

/// A copy of an endpoint record.
pub fn copy_endpoint(e: &ClientEndpointRecord) -> (r: ClientEndpointRecord)
    ensures
        r == *e,
{
    ClientEndpointRecord {
        ip_address: e.ip_address.clone(),
        protocol: e.protocol.clone(),
        port: e.port,
        domain: copy_opt_string(&e.domain),
        geo_city: copy_opt_string(&e.geo_city),
        first_seen: e.first_seen,
        last_seen: e.last_seen,
        packet_count: e.packet_count,
    }
}

fn find_endpoint(s: &Vec<ClientEndpointRecord>, e: &ClientEndpointRecord) -> (r: Option<usize>)
    ensures
        match r {
            Some(i) => first_match(s@, *e) == Some(i as int),
            None => first_match(s@, *e) is None,
        },
{
    proof {
        lemma_first_match(s@, *e);
    }
    let mut i: usize = 0;
    while i < s.len()
        invariant
            i <= s@.len(),
            forall|j: int| 0 <= j < i ==> !same_endpoint(#[trigger] s@[j], *e),
        decreases s@.len() - i,
    {
        if str_eq(s[i].ip_address.as_str(), e.ip_address.as_str()) && s[i].port == e.port
            && str_eq(s[i].protocol.as_str(), e.protocol.as_str()) {
            proof {
                lemma_first_match(s@, *e);
                match first_match(s@, *e) {
                    Some(k) => {
                        if k > i {
                            assert(same_endpoint(s@[i as int], *e));
                        }
                    },
                    None => {
                        assert(same_endpoint(s@[i as int], *e));
                    },
                }
            }
            return Some(i);
        }
        i = i + 1;
    }
    proof {
        lemma_first_match(s@, *e);
        match first_match(s@, *e) {
            Some(k) => {
                assert(!same_endpoint(s@[k], *e));
            },
            None => {},
        }
    }
    None
}

/// Merges the endpoints `inc` into `cur` (see `merge_endpoints`), orders
/// them newest first (last seen, then packet count) and keeps the first
/// `MAX_REMOTE_ENDPOINTS`.
pub fn merge_remote_endpoints(cur: &mut Vec<ClientEndpointRecord>, inc: &Vec<ClientEndpointRecord>)
    ensures
        final(cur)@ == keep_first(
            newest_first(merge_endpoints(old(cur)@, inc@)),
            MAX_REMOTE_ENDPOINTS as nat,
        ),
{
    let ghost c0 = cur@;
    let mut i: usize = 0;
    assert(inc@.subrange(0, 0) =~= Seq::<ClientEndpointRecord>::empty());
    while i < inc.len()
        invariant
            i <= inc@.len(),
            cur@ == merge_endpoints(c0, inc@.subrange(0, i as int)),
        decreases inc@.len() - i,
    {
        proof {
            let pre = inc@.subrange(0, i + 1);
            assert(pre.drop_last() =~= inc@.subrange(0, i as int));
            assert(pre.last() == inc@[i as int]);
        }
        let e = &inc[i];
        proof {
            lemma_first_match(cur@, *e);
        }
        match find_endpoint(cur, e) {
            Some(j) => {
                let mut c = cur.remove(j);
                let ghost old_c = c;
                c.first_seen = min_i64_exec(c.first_seen, e.first_seen);
                c.last_seen = max_i64_exec(c.last_seen, e.last_seen);
                c.packet_count = max_u64_exec(c.packet_count, e.packet_count);
                if c.domain.is_none() && e.domain.is_some() {
                    c.domain = copy_opt_string(&e.domain);
                }
                if c.geo_city.is_none() && e.geo_city.is_some() {
                    c.geo_city = copy_opt_string(&e.geo_city);
                }
                assert(c == endpoint_merged(old_c, *e));
                cur.insert(j, c);
            },
            None => {
                cur.push(copy_endpoint(e));
            },
        }
        i = i + 1;
    }
    assert(inc@.subrange(0, inc@.len() as int) =~= inc@);
    let mut all: Vec<ClientEndpointRecord> = Vec::new();
    std::mem::swap(&mut all, cur);
    let mut sorted = sort_newest_first(all);
    if sorted.len() > MAX_REMOTE_ENDPOINTS {
        sorted.truncate(MAX_REMOTE_ENDPOINTS);
    }
    *cur = sorted;
}


/// `n` is the network intel `e` after merging `inc`.
pub open spec fn intel_merged(e: ClientNetworkIntel, inc: ClientNetworkIntel, n: ClientNetworkIntel) -> bool {
    &&& string_seqs(n.local_ipv4_addresses@) == add_missing(
        string_seqs(e.local_ipv4_addresses@),
        string_seqs(inc.local_ipv4_addresses@),
    )
    &&& string_seqs(n.local_ipv6_addresses@) == add_missing(
        string_seqs(e.local_ipv6_addresses@),
        string_seqs(inc.local_ipv6_addresses@),
    )
    &&& string_seqs(n.dhcp_hostnames@) == add_missing(
        string_seqs(e.dhcp_hostnames@),
        string_seqs(inc.dhcp_hostnames@),
    )
    &&& string_seqs(n.dhcp_fqdns@) == add_missing(
        string_seqs(e.dhcp_fqdns@),
        string_seqs(inc.dhcp_fqdns@),
    )
    &&& string_seqs(n.dhcp_vendor_classes@) == add_missing(
        string_seqs(e.dhcp_vendor_classes@),
        string_seqs(inc.dhcp_vendor_classes@),
    )
    &&& string_seqs(n.dns_names@) == add_missing(
        string_seqs(e.dns_names@),
        string_seqs(inc.dns_names@),
    )
    &&& n.remote_endpoints@ == keep_first(
        newest_first(merge_endpoints(e.remote_endpoints@, inc.remote_endpoints@)),
        MAX_REMOTE_ENDPOINTS as nat,
    )
    &&& n.uplink_bytes == max_u64(e.uplink_bytes, inc.uplink_bytes)
    &&& n.downlink_bytes == max_u64(e.downlink_bytes, inc.downlink_bytes)
    &&& n.packet_mix == packet_mix_max(e.packet_mix, inc.packet_mix)
    &&& n.retry_frame_count == max_u64(e.retry_frame_count, inc.retry_frame_count)
    &&& n.power_save_observed == (e.power_save_observed || inc.power_save_observed)
    &&& is_ascending(n.qos_priorities@)
    &&& n.qos_priorities@.to_multiset() == add_missing(
        e.qos_priorities@,
        inc.qos_priorities@,
    ).to_multiset()
    &&& n.eapol_frame_count == max_u32(e.eapol_frame_count, inc.eapol_frame_count)
    &&& n.pmkid_count == max_u32(e.pmkid_count, inc.pmkid_count)
    &&& n.last_frame_type == prefer(inc.last_frame_type, e.last_frame_type)
    &&& n.last_frame_subtype == prefer(inc.last_frame_subtype, e.last_frame_subtype)
    &&& n.last_channel == prefer(inc.last_channel, e.last_channel)
    &&& n.last_frequency_mhz == prefer(inc.last_frequency_mhz, e.last_frequency_mhz)
    &&& n.band == (if inc.band != SpectrumBand::Unknown {
        inc.band
    } else {
        e.band
    })
    &&& n.last_reason_code == prefer(inc.last_reason_code, e.last_reason_code)
    &&& n.last_status_code == prefer(inc.last_status_code, e.last_status_code)
    &&& n.listen_interval == prefer(inc.listen_interval, e.listen_interval)
}

/// Merges the network intel `incoming` into that of `existing` (see
/// `intel_merged`); the rest of the client record is left as it was.
pub fn merge_client_network_intel(existing: &mut ClientRecord, incoming: &ClientNetworkIntel)
    ensures
        intel_merged(old(existing).network_intel, *incoming, final(existing).network_intel),
        *final(existing) == (ClientRecord {
            network_intel: final(existing).network_intel,
            ..*old(existing)
        }),
{
    let intel = &mut existing.network_intel;
    push_missing_strings(&mut intel.local_ipv4_addresses, &incoming.local_ipv4_addresses);
    push_missing_strings(&mut intel.local_ipv6_addresses, &incoming.local_ipv6_addresses);
    push_missing_strings(&mut intel.dhcp_hostnames, &incoming.dhcp_hostnames);
    push_missing_strings(&mut intel.dhcp_fqdns, &incoming.dhcp_fqdns);
    push_missing_strings(&mut intel.dhcp_vendor_classes, &incoming.dhcp_vendor_classes);
    push_missing_strings(&mut intel.dns_names, &incoming.dns_names);
    merge_remote_endpoints(&mut intel.remote_endpoints, &incoming.remote_endpoints);
    intel.uplink_bytes = max_u64_exec(intel.uplink_bytes, incoming.uplink_bytes);
    intel.downlink_bytes = max_u64_exec(intel.downlink_bytes, incoming.downlink_bytes);
    intel.packet_mix = packet_mix_merge(intel.packet_mix, incoming.packet_mix);
    intel.retry_frame_count = max_u64_exec(intel.retry_frame_count, incoming.retry_frame_count);
    intel.power_save_observed = intel.power_save_observed || incoming.power_save_observed;
    push_missing_u8(&mut intel.qos_priorities, &incoming.qos_priorities);
    sort_ascending_u8(&mut intel.qos_priorities);
    intel.eapol_frame_count = max_u32_exec(intel.eapol_frame_count, incoming.eapol_frame_count);
    intel.pmkid_count = max_u32_exec(intel.pmkid_count, incoming.pmkid_count);
    if incoming.last_frame_type.is_some() {
        intel.last_frame_type = incoming.last_frame_type;
    }
    if incoming.last_frame_subtype.is_some() {
        intel.last_frame_subtype = incoming.last_frame_subtype;
    }
    if incoming.last_channel.is_some() {
        intel.last_channel = incoming.last_channel;
    }
    if incoming.last_frequency_mhz.is_some() {
        intel.last_frequency_mhz = incoming.last_frequency_mhz;
    }
    if incoming.band != SpectrumBand::Unknown {
        intel.band = incoming.band;
    }
    if incoming.last_reason_code.is_some() {
        intel.last_reason_code = incoming.last_reason_code;
    }
    if incoming.last_status_code.is_some() {
        intel.last_status_code = incoming.last_status_code;
    }
    if incoming.listen_interval.is_some() {
        intel.listen_interval = incoming.listen_interval;
    }
}


/// `n` is the client record `e` after merging the sighting `inc`.
pub open spec fn client_merged(e: ClientRecord, inc: ClientRecord, n: ClientRecord) -> bool {
    &&& n.mac == e.mac
    &&& n.oui_manufacturer == prefer(inc.oui_manufacturer, e.oui_manufacturer)
    &&& n.associated_ap == prefer(inc.associated_ap, e.associated_ap)
    &&& n.data_transferred_bytes == max_u64(e.data_transferred_bytes, inc.data_transferred_bytes)
    &&& n.rssi_dbm == prefer(inc.rssi_dbm, e.rssi_dbm)
    &&& string_seqs(n.probes@) == add_missing(string_seqs(e.probes@), string_seqs(inc.probes@))
    &&& n.first_seen == min_i64(e.first_seen, inc.first_seen)
    &&& n.last_seen == max_i64(inc.last_seen, e.last_seen)
    &&& string_seqs(n.seen_access_points@) == add_missing(
        string_seqs(e.seen_access_points@),
        string_seqs(inc.seen_access_points@),
    )
    &&& string_seqs(n.handshake_networks@) == add_missing(
        string_seqs(e.handshake_networks@),
        string_seqs(inc.handshake_networks@),
    )
    &&& intel_merged(e.network_intel, inc.network_intel, n.network_intel)
    &&& n.observations@ == e.observations@ + inc.observations@
    &&& n.wps == e.wps
    &&& n.source_adapters@ == e.source_adapters@
}

/// Merges the sighting `incoming` into the record of the client with the
/// same MAC (see `client_merged`), or adds it as a new record.
pub fn merge_client(clients: &mut Vec<ClientRecord>, incoming: ClientRecord)
    ensures
        match first_key(client_keys(old(clients)@), incoming.mac@) {
            Some(i) => {
                &&& final(clients)@.len() == old(clients)@.len()
                &&& forall|j: int|
                    0 <= j < old(clients)@.len() && j != i ==> final(clients)@[j]
                        == old(clients)@[j]
                &&& client_merged(old(clients)@[i], incoming, final(clients)@[i])
            },
            None => final(clients)@ == old(clients)@.push(incoming),
        },
{
    proof {
        lemma_first_key(client_keys(clients@), incoming.mac@);
    }
    match find_client(clients, incoming.mac.as_str()) {
        Some(i) => {
            let ghost inc = incoming;
            let mut e = clients.remove(i);
            let ghost old_e = e;
            if incoming.oui_manufacturer.is_some() {
                e.oui_manufacturer = incoming.oui_manufacturer;
            }
            if incoming.associated_ap.is_some() {
                e.associated_ap = incoming.associated_ap;
            }
            e.data_transferred_bytes = max_u64_exec(
                e.data_transferred_bytes,
                incoming.data_transferred_bytes,
            );
            if incoming.rssi_dbm.is_some() {
                e.rssi_dbm = incoming.rssi_dbm;
            }
            push_missing_strings(&mut e.probes, &incoming.probes);
            e.first_seen = min_i64_exec(e.first_seen, incoming.first_seen);
            e.last_seen = max_i64_exec(incoming.last_seen, e.last_seen);
            push_missing_strings(&mut e.seen_access_points, &incoming.seen_access_points);
            push_missing_strings(&mut e.handshake_networks, &incoming.handshake_networks);
            merge_client_network_intel(&mut e, &incoming.network_intel);
            let mut obs = incoming.observations;
            e.observations.append(&mut obs);
            assert(client_merged(old_e, inc, e));
            clients.insert(i, e);
        },
        None => {
            clients.push(incoming);
        },
    }
}

/// `n` is the Bluetooth record `e` after merging the sighting `inc`.
pub open spec fn bluetooth_merged(e: BluetoothDeviceRecord, inc: BluetoothDeviceRecord, n: BluetoothDeviceRecord) -> bool {
    &&& n.mac == e.mac
    &&& n.address_type == prefer(inc.address_type, e.address_type)
    &&& n.transport@ == known_or(inc.transport@, e.transport@)
    &&& n.oui_manufacturer == prefer(inc.oui_manufacturer, e.oui_manufacturer)
    &&& n.advertised_name == prefer(inc.advertised_name, e.advertised_name)
    &&& n.alias == prefer(inc.alias, e.alias)
    &&& n.device_type == prefer(inc.device_type, e.device_type)
    &&& n.class_of_device == prefer(inc.class_of_device, e.class_of_device)
    &&& n.rssi_dbm == prefer(inc.rssi_dbm, e.rssi_dbm)
    &&& n.first_seen == min_i64(e.first_seen, inc.first_seen)
    &&& n.last_seen == max_i64(e.last_seen, inc.last_seen)
    &&& string_seqs(n.mfgr_ids@) == add_missing(string_seqs(e.mfgr_ids@), string_seqs(inc.mfgr_ids@))
    &&& string_seqs(n.mfgr_names@) == add_missing(
        string_seqs(e.mfgr_names@),
        string_seqs(inc.mfgr_names@),
    )
    &&& string_seqs(n.uuids@) == add_missing(string_seqs(e.uuids@), string_seqs(inc.uuids@))
    &&& string_seqs(n.uuid_names@) == add_missing(
        string_seqs(e.uuid_names@),
        string_seqs(inc.uuid_names@),
    )
    &&& n.active_enumeration == prefer(inc.active_enumeration, e.active_enumeration)
    &&& n.observations@ == e.observations@ + inc.observations@
    &&& n.source_adapters@ == e.source_adapters@
}

/// Merges the sighting `incoming` into the record of the Bluetooth device
/// with the same MAC (see `bluetooth_merged`), or adds it as a new record.
pub fn merge_bluetooth_device(devices: &mut Vec<BluetoothDeviceRecord>, incoming: BluetoothDeviceRecord)
    ensures
        match first_key(bluetooth_keys(old(devices)@), incoming.mac@) {
            Some(i) => {
                &&& final(devices)@.len() == old(devices)@.len()
                &&& forall|j: int|
                    0 <= j < old(devices)@.len() && j != i ==> final(devices)@[j]
                        == old(devices)@[j]
                &&& bluetooth_merged(old(devices)@[i], incoming, final(devices)@[i])
            },
            None => final(devices)@ == old(devices)@.push(incoming),
        },
{
    proof {
        lemma_first_key(bluetooth_keys(devices@), incoming.mac@);
        reveal_strlit("Unknown");
    }
    match find_bluetooth(devices, incoming.mac.as_str()) {
        Some(i) => {
            let ghost inc = incoming;
            let mut e = devices.remove(i);
            let ghost old_e = e;
            if incoming.address_type.is_some() {
                e.address_type = incoming.address_type;
            }
            if !is_unknown(&incoming.transport) {
                e.transport = incoming.transport;
            }
            if incoming.oui_manufacturer.is_some() {
                e.oui_manufacturer = incoming.oui_manufacturer;
            }
            if incoming.advertised_name.is_some() {
                e.advertised_name = incoming.advertised_name;
            }
            if incoming.alias.is_some() {
                e.alias = incoming.alias;
            }
            if incoming.device_type.is_some() {
                e.device_type = incoming.device_type;
            }
            if incoming.class_of_device.is_some() {
                e.class_of_device = incoming.class_of_device;
            }
            if incoming.rssi_dbm.is_some() {
                e.rssi_dbm = incoming.rssi_dbm;
            }
            e.first_seen = min_i64_exec(e.first_seen, incoming.first_seen);
            e.last_seen = max_i64_exec(e.last_seen, incoming.last_seen);
            push_missing_strings(&mut e.mfgr_ids, &incoming.mfgr_ids);
            push_missing_strings(&mut e.mfgr_names, &incoming.mfgr_names);
            push_missing_strings(&mut e.uuids, &incoming.uuids);
            push_missing_strings(&mut e.uuid_names, &incoming.uuid_names);
            if incoming.active_enumeration.is_some() {
                e.active_enumeration = incoming.active_enumeration;
            }
            let mut obs = incoming.observations;
            e.observations.append(&mut obs);
            assert(bluetooth_merged(old_e, inc, e));
            devices.insert(i, e);
        },
        None => {
            devices.push(incoming);
        },
    }
}

/// The client is currently associated with access point `ap_bssid` (earlier
/// sightings on other access points do not count).
pub open spec fn seen_on_ap(client: ClientRecord, ap_bssid: Seq<char>) -> bool {
    match client.associated_ap {
        Some(a) => a@ == ap_bssid,
        None => false,
    }
}

pub fn client_seen_on_ap(client: &ClientRecord, ap_bssid: &str) -> (r: bool)
    ensures
        r == seen_on_ap(*client, ap_bssid@),
{
    match &client.associated_ap {
        Some(a) => str_eq(a.as_str(), ap_bssid),
        None => false,
    }
}

/// How many of `clients` are associated with `ap_bssid`.
pub open spec fn count_on_ap(clients: Seq<ClientRecord>, ap_bssid: Seq<char>) -> nat
    decreases clients.len(),
{
    if clients.len() == 0 {
        0
    } else {
        count_on_ap(clients.drop_last(), ap_bssid) + if seen_on_ap(clients.last(), ap_bssid) {
            1nat
        } else {
            0nat
        }
    }
}

proof fn lemma_count_on_ap_bound(clients: Seq<ClientRecord>, ap_bssid: Seq<char>)
    ensures
        count_on_ap(clients, ap_bssid) <= clients.len(),
    decreases clients.len(),
{
    if clients.len() > 0 {
        lemma_count_on_ap_bound(clients.drop_last(), ap_bssid);
    }
}

/// The number of clients associated with `ap_bssid` (wrapping to `u32`).
pub fn client_count_for_ap(clients: &[ClientRecord], ap_bssid: &str) -> (r: u32)
    ensures
        r as int == count_on_ap(clients@, ap_bssid@) % 0x1_0000_0000,
{
    let mut count: u64 = 0;
    let mut i: usize = 0;
    let n = clients.len();
    assert(clients@.subrange(0, 0) =~= Seq::<ClientRecord>::empty());
    while i < n
        invariant
            n == clients@.len(),
            i <= n,
            count as int == count_on_ap(clients@.subrange(0, i as int), ap_bssid@),
            count <= i,
        decreases n - i,
    {
        proof {
            let pre = clients@.subrange(0, i + 1);
            assert(pre.drop_last() =~= clients@.subrange(0, i as int));
            assert(pre.last() == clients@[i as int]);
        }
        if client_seen_on_ap(&clients[i], ap_bssid) {
            count = count + 1;
        }
        i = i + 1;
    }
    assert(clients@.subrange(0, n as int) =~= clients@);
    (count % 0x1_0000_0000) as u32
}


/// The count stored for an access point: the clients associated with it,
/// wrapped to `u32`.
pub open spec fn stored_count(clients: Seq<ClientRecord>, ap_bssid: Seq<char>) -> u32 {
    (count_on_ap(clients, ap_bssid) % 0x1_0000_0000) as u32
}

/// `aps` with the first access point named `ap_bssid` given `count` clients.
pub open spec fn with_count(aps: Seq<AccessPointRecord>, ap_bssid: Seq<char>, count: u32) -> Seq<AccessPointRecord> {
    match first_key(ap_keys(aps), ap_bssid) {
        Some(i) => aps.update(i, AccessPointRecord { number_of_clients: count, ..aps[i] }),
        None => aps,
    }
}

/// Recounts the clients of access point `ap_bssid`.
pub fn refresh_ap_client_count_for_bssid(
    access_points: &mut Vec<AccessPointRecord>,
    clients: &[ClientRecord],
    ap_bssid: &str,
)
    ensures
        final(access_points)@ == with_count(
            old(access_points)@,
            ap_bssid@,
            stored_count(clients@, ap_bssid@),
        ),
{
    proof {
        lemma_first_key(ap_keys(access_points@), ap_bssid@);
    }
    match find_ap(access_points, ap_bssid) {
        Some(i) => {
            let count = client_count_for_ap(clients, ap_bssid);
            let mut ap = access_points.remove(i);
            ap.number_of_clients = count;
            access_points.insert(i, ap);
            assert(access_points@ =~= with_count(old(access_points)@, ap_bssid@, count));
        },
        None => {},
    }
}

/// The access points a client relates to: those it was seen on, then the
/// one it is associated with if not among them.
pub open spec fn related_bssids(client: ClientRecord) -> Seq<Seq<char>> {
    let seen = string_seqs(client.seen_access_points@);
    match client.associated_ap {
        Some(a) => if seen.contains(a@) {
            seen
        } else {
            seen.push(a@)
        },
        None => seen,
    }
}

/// Recounting the clients of each of `bssids` in turn: the access points
/// afterwards, and the BSSIDs whose count changed.
pub open spec fn recount(aps: Seq<AccessPointRecord>, clients: Seq<ClientRecord>, bssids: Seq<Seq<char>>) -> (
    Seq<AccessPointRecord>,
    Seq<Seq<char>>,
)
    decreases bssids.len(),
{
    if bssids.len() == 0 {
        (aps, Seq::empty())
    } else {
        let prev = recount(aps, clients, bssids.drop_last());
        let b = bssids.last();
        let c = stored_count(clients, b);
        match first_key(ap_keys(prev.0), b) {
            Some(i) => if prev.0[i].number_of_clients != c {
                (with_count(prev.0, b, c), prev.1.push(b))
            } else {
                prev
            },
            None => prev,
        }
    }
}

pub(crate) fn related_bssid_list(client: &ClientRecord) -> (r: Vec<String>)
    ensures
        string_seqs(r@) == related_bssids(*client),
{
    let mut out: Vec<String> = Vec::new();
    let mut i: usize = 0;
    while i < client.seen_access_points.len()
        invariant
            i <= client.seen_access_points@.len(),
            string_seqs(out@) == string_seqs(client.seen_access_points@).subrange(0, i as int),
        decreases client.seen_access_points@.len() - i,
    {
        let ghost prev = string_seqs(out@);
        let item = client.seen_access_points[i].clone();
        assert(item@ == client.seen_access_points@[i as int]@);
        out.push(item);
        assert(string_seqs(out@) =~= prev.push(item@));
        i = i + 1;
        assert(string_seqs(out@) =~= string_seqs(client.seen_access_points@).subrange(
            0,
            i as int,
        ));
    }
    assert(string_seqs(client.seen_access_points@).subrange(
        0,
        client.seen_access_points@.len() as int,
    ) =~= string_seqs(client.seen_access_points@));
    if let Some(a) = &client.associated_ap {
        if !holds_string(&out, a.as_str()) {
            let ghost before = string_seqs(out@);
            out.push(a.clone());
            assert(string_seqs(out@) =~= before.push(a@));
        }
    }
    out
}

/// Recounts the clients of every access point `client` relates to (see
/// `related_bssids`). Answers the BSSIDs whose count changed.
pub fn refresh_ap_client_counts_for_client(
    access_points: &mut Vec<AccessPointRecord>,
    clients: &[ClientRecord],
    client: &ClientRecord,
) -> (changed: Vec<String>)
    ensures
        final(access_points)@ == recount(old(access_points)@, clients@, related_bssids(*client)).0,
        string_seqs(changed@) == recount(
            old(access_points)@,
            clients@,
            related_bssids(*client),
        ).1,
{
    let related = related_bssid_list(client);
    recount_bssids(access_points, clients, &related)
}

/// Recounts the clients of each access point in `related`, in order.
/// Answers the BSSIDs whose count changed.
pub(crate) fn recount_bssids(
    access_points: &mut Vec<AccessPointRecord>,
    clients: &[ClientRecord],
    related: &Vec<String>,
) -> (changed: Vec<String>)
    ensures
        final(access_points)@ == recount(old(access_points)@, clients@, string_seqs(related@)).0,
        string_seqs(changed@) == recount(
            old(access_points)@,
            clients@,
            string_seqs(related@),
        ).1,
{
    let ghost rb = string_seqs(related@);
    let ghost a0 = access_points@;
    let mut changed: Vec<String> = Vec::new();
    let mut i: usize = 0;
    assert(rb.subrange(0, 0) =~= Seq::<Seq<char>>::empty());
    while i < related.len()
        invariant
            i <= related@.len(),
            rb == string_seqs(related@),
            access_points@ == recount(a0, clients@, rb.subrange(0, i as int)).0,
            string_seqs(changed@) == recount(a0, clients@, rb.subrange(0, i as int)).1,
        decreases related@.len() - i,
    {
        proof {
            let pre = rb.subrange(0, i + 1);
            assert(pre.drop_last() =~= rb.subrange(0, i as int));
            assert(pre.last() == related@[i as int]@);
            lemma_first_key(ap_keys(access_points@), related@[i as int]@);
        }
        let b = related[i].as_str();
        match find_ap(access_points, b) {
            Some(k) => {
                let updated = client_count_for_ap(clients, b);
                if access_points[k].number_of_clients != updated {
                    let mut ap = access_points.remove(k);
                    ap.number_of_clients = updated;
                    let ghost before = access_points@;
                    access_points.insert(k, ap);
                    let ghost prev_changed = string_seqs(changed@);
                    changed.push(related[i].clone());
                    proof {
                        let prev = recount(a0, clients@, rb.subrange(0, i as int));
                        assert(access_points@ =~= with_count(prev.0, b@, updated));
                        assert(string_seqs(changed@) =~= prev_changed.push(b@));
                    }
                }
            },
            None => {},
        }
        i = i + 1;
    }
    assert(rb.subrange(0, related@.len() as int) =~= rb);
    changed
}


impl Recency for AccessPointRecord {
    /// Last seen.
    open spec fn recency(&self) -> (int, int) {
        (self.last_seen as int, 0)
    }

    fn recency_key(&self) -> (r: (i64, u64)) {
        (self.last_seen, 0)
    }
}

impl Recency for ClientRecord {
    /// Last seen.
    open spec fn recency(&self) -> (int, int) {
        (self.last_seen as int, 0)
    }

    fn recency_key(&self) -> (r: (i64, u64)) {
        (self.last_seen, 0)
    }
}

impl Recency for BluetoothDeviceRecord {
    /// Last seen.
    open spec fn recency(&self) -> (int, int) {
        (self.last_seen as int, 0)
    }

    fn recency_key(&self) -> (r: (i64, u64)) {
        (self.last_seen, 0)
    }
}


/// Merging a later or earlier sighting of an access point into its record
/// keeps the earliest first sighting (no later than either, and one of
/// them), takes the sighting's last-seen time, keeps the larger handshake
/// count, keeps the BSSID and appends the sighting's observations.
pub proof fn lemma_merged_ap_sighting_times(e: AccessPointRecord, inc: AccessPointRecord, n: AccessPointRecord)
    requires
        ap_merged(e, inc, n),
    ensures
        n.first_seen <= e.first_seen,
        n.first_seen <= inc.first_seen,
        n.first_seen == e.first_seen || n.first_seen == inc.first_seen,
        n.last_seen == inc.last_seen,
        n.handshake_count >= e.handshake_count,
        n.handshake_count >= inc.handshake_count,
        n.handshake_count == e.handshake_count || n.handshake_count == inc.handshake_count,
        n.bssid == e.bssid,
        n.observations@.len() == e.observations@.len() + inc.observations@.len(),
        inc.ssid is Some ==> n.ssid == inc.ssid,
        inc.ssid is None ==> n.ssid == e.ssid,
{
}

/// Merging a sighting of a client into its record keeps the earliest first
/// sighting and the latest last sighting, each one of the two, and the
/// larger byte count.
pub proof fn lemma_merged_client_sighting_times(e: ClientRecord, inc: ClientRecord, n: ClientRecord)
    requires
        client_merged(e, inc, n),
    ensures
        n.first_seen <= e.first_seen,
        n.first_seen <= inc.first_seen,
        n.first_seen == e.first_seen || n.first_seen == inc.first_seen,
        n.last_seen >= e.last_seen,
        n.last_seen >= inc.last_seen,
        n.last_seen == e.last_seen || n.last_seen == inc.last_seen,
        n.data_transferred_bytes >= e.data_transferred_bytes,
        n.data_transferred_bytes >= inc.data_transferred_bytes,
        n.data_transferred_bytes == e.data_transferred_bytes || n.data_transferred_bytes
            == inc.data_transferred_bytes,
        n.mac == e.mac,
        n.observations@.len() == e.observations@.len() + inc.observations@.len(),
{
}

/// Merging a sighting of a Bluetooth device into its record keeps the
/// earliest first sighting and the latest last sighting, each one of the two.
pub proof fn lemma_merged_bluetooth_sighting_times(
    e: BluetoothDeviceRecord,
    inc: BluetoothDeviceRecord,
    n: BluetoothDeviceRecord,
)
    requires
        bluetooth_merged(e, inc, n),
    ensures
        n.first_seen <= e.first_seen,
        n.first_seen <= inc.first_seen,
        n.first_seen == e.first_seen || n.first_seen == inc.first_seen,
        n.last_seen >= e.last_seen,
        n.last_seen >= inc.last_seen,
        n.last_seen == e.last_seen || n.last_seen == inc.last_seen,
        n.mac == e.mac,
        n.observations@.len() == e.observations@.len() + inc.observations@.len(),
{
}

/// In a table where no BSSID occurs twice, `merge_ap` gives the record with
/// the sighting's BSSID the earlier of the two first sightings and the
/// sighting's last-seen time; a sighting of a BSSID not in the table is
/// appended unchanged.
pub proof fn lemma_merge_ap_table(
    before: Seq<AccessPointRecord>,
    after: Seq<AccessPointRecord>,
    incoming: AccessPointRecord,
)
    requires
        forall|a: int, b: int|
            0 <= a < b < before.len() ==> (#[trigger] before[a]).bssid@ != (#[trigger] before[b]).bssid@,
        match first_key(ap_keys(before), incoming.bssid@) {
            Some(i) => {
                &&& after.len() == before.len()
                &&& forall|j: int| 0 <= j < before.len() && j != i ==> after[j] == before[j]
                &&& ap_merged(before[i], incoming, after[i])
            },
            None => after == before.push(incoming),
        },
    ensures
        forall|i: int|
            0 <= i < before.len() && (#[trigger] before[i]).bssid@ == incoming.bssid@ ==> {
                &&& after[i].first_seen <= before[i].first_seen
                &&& after[i].first_seen <= incoming.first_seen
                &&& (after[i].first_seen == before[i].first_seen || after[i].first_seen
                    == incoming.first_seen)
                &&& after[i].last_seen == incoming.last_seen
                &&& after[i].bssid == before[i].bssid
            },
        (forall|i: int| 0 <= i < before.len() ==> (#[trigger] before[i]).bssid@ != incoming.bssid@)
            ==> after == before.push(incoming),
{
    lemma_first_key(ap_keys(before), incoming.bssid@);
    match first_key(ap_keys(before), incoming.bssid@) {
        Some(k) => {
            assert(ap_keys(before)[k] == before[k].bssid@);
            lemma_merged_ap_sighting_times(before[k], incoming, after[k]);
            assert forall|i: int|
                0 <= i < before.len() && (#[trigger] before[i]).bssid@ == incoming.bssid@ implies i
                == k by {
                assert(ap_keys(before)[i] == before[i].bssid@);
                if i > k {
                    assert(before[k].bssid@ != before[i].bssid@);
                }
            }
        },
        None => {
            assert forall|i: int| 0 <= i < before.len() implies (#[trigger] before[i]).bssid@
                != incoming.bssid@ by {
                assert(ap_keys(before)[i] == before[i].bssid@);
            }
        },
    }
}

} // verus!
