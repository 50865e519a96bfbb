//! The status texts of the desktop view: the scan state headline, the lock
//! state, and how many devices each capture adapter has reported.

use vstd::prelude::*;
use crate::records::{AccessPointRecord, ClientRecord, BluetoothDeviceRecord};
use crate::display::{seconds_text, format_utc_seconds};
use crate::sorted::{insert_sorted_text, strictly_sorted_text, texts};
use crate::settings::{AppSettings, InterfaceSettings, first_enabled, lemma_first_enabled, find_enabled};
use crate::watchdog::{RadioWatch, health_label, interface_health_state_label, format_health_elapsed};
use crate::text::{
    push_str, push_all, push_decimal, decimal, join, str_chars, string_from_chars, string_seqs,
    chars_eq,
};

verus! {

/// The first line of the status text.
pub open spec fn header_line(starting: bool, stopping: bool, wifi: bool, bluetooth: bool) -> Seq<char> {
    if starting {
        "starting scans..."@
    } else if stopping {
        "stopping scans..."@
    } else if wifi && bluetooth {
        "scanning active (Wi-Fi + Bluetooth)"@
    } else if wifi {
        "scanning active (Wi-Fi only)"@
    } else if bluetooth {
        "scanning active (Bluetooth only)"@
    } else {
        "scanning idle (click Start)"@
    }
}

pub fn status_header_line(starting: bool, stopping: bool, wifi_running: bool, bluetooth_running: bool) -> (r: String)
    ensures
        r@ == header_line(starting, stopping, wifi_running, bluetooth_running),
{
    if starting {
        String::from_str("starting scans...")
    } else if stopping {
        String::from_str("stopping scans...")
    } else if wifi_running && bluetooth_running {
        String::from_str("scanning active (Wi-Fi + Bluetooth)")
    } else if wifi_running {
        String::from_str("scanning active (Wi-Fi only)")
    } else if bluetooth_running {
        String::from_str("scanning active (Bluetooth only)")
    } else {
        String::from_str("scanning idle (click Start)")
    }
}

/// The status text: the headline, then the status lines, one per line.
pub fn status_text(header: &str, lines: &Vec<String>) -> (r: String)
    ensures
        r@ == join(seq![header@] + string_seqs(lines@), "\n"@),
{
    let ghost parts = seq![header@] + string_seqs(lines@);
    let mut out: Vec<char> = Vec::new();
    push_str(&mut out, header);
    assert(out@ =~= join(parts.subrange(0, 1), "\n"@));
    let mut i: usize = 0;
    while i < lines.len()
        invariant
            i <= lines@.len(),
            parts == seq![header@] + string_seqs(lines@),
            out@ == join(parts.subrange(0, i + 1), "\n"@),
        decreases lines@.len() - i,
    {
        proof {
            let pre = parts.subrange(0, i + 2);
            assert(pre.drop_last() =~= parts.subrange(0, i + 1));
            assert(pre.last() == lines@[i as int]@);
        }
        push_str(&mut out, "\n");
        push_str(&mut out, lines[i].as_str());
        i = i + 1;
    }
    assert(parts.subrange(0, lines@.len() + 1int) =~= parts);
    string_from_chars(out.as_slice())
}

/// Whether the capture is locked onto an access point.
pub fn wifi_lock_status_text(locked_target: &Option<String>, has_restore_mode: bool) -> (r: String)
    ensures
        r@ == match *locked_target {
            Some(t) => if has_restore_mode {
                "Locked to AP: "@ + t@
            } else {
                "Unlocked"@
            },
            None => "Unlocked"@,
        },
{
    match locked_target {
        Some(t) => if has_restore_mode {
            let mut out: Vec<char> = Vec::new();
            push_str(&mut out, "Locked to AP: ");
            push_str(&mut out, t.as_str());
            string_from_chars(out.as_slice())
        } else {
            String::from_str("Unlocked")
        },
        None => String::from_str("Unlocked"),
    }
}

/// The adapters a record was reported by ("unknown" when none is named).
pub open spec fn reporting_adapters(sources: Seq<Seq<char>>) -> Seq<Seq<char>> {
    if sources.len() == 0 {
        seq!["unknown"@]
    } else {
        sources
    }
}

/// How many of the records (given by their source adapters) were reported
/// by adapter `a`.
pub open spec fn count_reported(records: Seq<Seq<Seq<char>>>, a: Seq<char>) -> nat
    decreases records.len(),
{
    if records.len() == 0 {
        0
    } else {
        count_reported(records.drop_last(), a) + if reporting_adapters(records.last()).contains(a) {
            1nat
        } else {
            0nat
        }
    }
}

/// Every adapter that reported one of the records.
pub open spec fn all_reporting(records: Seq<Seq<Seq<char>>>) -> Set<Seq<char>> {
    Set::new(
        |a: Seq<char>|
            exists|i: int| 0 <= i < records.len() && reporting_adapters(records[i]).contains(a),
    )
}

pub open spec fn ap_sources(aps: Seq<AccessPointRecord>) -> Seq<Seq<Seq<char>>> {
    aps.map_values(|a: AccessPointRecord| string_seqs(a.source_adapters@))
}

pub open spec fn client_sources(cs: Seq<ClientRecord>) -> Seq<Seq<Seq<char>>> {
    cs.map_values(|c: ClientRecord| string_seqs(c.source_adapters@))
}

pub open spec fn device_sources(ds: Seq<BluetoothDeviceRecord>) -> Seq<Seq<Seq<char>>> {
    ds.map_values(|d: BluetoothDeviceRecord| string_seqs(d.source_adapters@))
}

fn holds_chars(v: &Vec<String>, x: &[char]) -> (r: bool)
    ensures
        r == string_seqs(v@).contains(x@),
{
    let mut i: usize = 0;
    while i < v.len()
        invariant
            i <= v@.len(),
            forall|k: int| 0 <= k < i ==> v@[k]@ != x@,
        decreases v@.len() - i,
    {
        let c = str_chars(v[i].as_str());
        if chars_eq(c.as_slice(), x) {
            assert(string_seqs(v@)[i as int] == x@);
            return true;
        }
        i = i + 1;
    }
    proof {
        if string_seqs(v@).contains(x@) {
            let k = choose|k: int| 0 <= k < string_seqs(v@).len() && string_seqs(v@)[k] == x@;
            assert(v@[k]@ == x@);
        }
    }
    false
}

/// Whether `a` reported a record with these source adapters.
fn reported_by(sources: &Vec<String>, a: &[char]) -> (r: bool)
    ensures
        r == reporting_adapters(string_seqs(sources@)).contains(a@),
{
    if sources.len() == 0 {
        let u = str_chars("unknown");
        proof {
            reveal_strlit("unknown");
            assert(reporting_adapters(string_seqs(sources@)) =~= seq!["unknown"@]);
        }
        let r = chars_eq(u.as_slice(), a);
        proof {
            if reporting_adapters(string_seqs(sources@)).contains(a@) {
                assert(seq!["unknown"@][0] == a@);
            }
            if r {
                assert(seq!["unknown"@][0] == a@);
            }
        }
        r
    } else {
        holds_chars(sources, a)
    }
}

/// Adds the adapters of one record to a sorted set of adapter names.
fn add_adapters(set: &mut Vec<Vec<char>>, sources: &Vec<String>)
    requires
        strictly_sorted_text(texts(old(set)@)),
    ensures
        strictly_sorted_text(texts(final(set)@)),
        texts(final(set)@).to_set() == texts(old(set)@).to_set().union(
            reporting_adapters(string_seqs(sources@)).to_set(),
        ),
{
    if sources.len() == 0 {
        let u = str_chars("unknown");
        proof {
            reveal_strlit("unknown");
        }
        insert_sorted_text(set, u);
        assert(reporting_adapters(string_seqs(sources@)).to_set() =~= set!["unknown"@]) by {
            let e = Seq::<Seq<char>>::empty();
            assert(seq!["unknown"@] =~= e.push("unknown"@));
            e.lemma_push_to_set_commute("unknown"@);
            assert(e.to_set() =~= Set::<Seq<char>>::empty());
        }
        assert(texts(set@).to_set() =~= texts(old(set)@).to_set().union(set!["unknown"@]));
        return;
    }
    let mut i: usize = 0;
    let ghost sv = string_seqs(sources@);
    while i < sources.len()
        invariant
            i <= sources@.len(),
            sv == string_seqs(sources@),
            sv.len() > 0,
            strictly_sorted_text(texts(set@)),
            texts(set@).to_set() == texts(old(set)@).to_set().union(
                sv.subrange(0, i as int).to_set(),
            ),
        decreases sources@.len() - i,
    {
        let c = str_chars(sources[i].as_str());
        let ghost before = texts(set@).to_set();
        insert_sorted_text(set, c);
        assert(sv.subrange(0, i + 1).to_set() =~= sv.subrange(0, i as int).to_set().insert(
            sv[i as int],
        )) by {
            assert(sv.subrange(0, i + 1) =~= sv.subrange(0, i as int).push(sv[i as int]));
            sv.subrange(0, i as int).lemma_push_to_set_commute(sv[i as int]);
        }
        i = i + 1;
        assert(texts(set@).to_set() =~= texts(old(set)@).to_set().union(
            sv.subrange(0, i as int).to_set(),
        ));
    }
    assert(sv.subrange(0, sources@.len() as int) =~= sv);
    assert(reporting_adapters(sv) == sv);
}


fn sources_of_aps(aps: &Vec<AccessPointRecord>, set: &mut Vec<Vec<char>>)
    requires
        strictly_sorted_text(texts(old(set)@)),
    ensures
        strictly_sorted_text(texts(final(set)@)),
        texts(final(set)@).to_set() == texts(old(set)@).to_set().union(
            all_reporting(ap_sources(aps@)),
        ),
{
    let ghost src = ap_sources(aps@);
    let mut i: usize = 0;
    while i < aps.len()
        invariant
            i <= aps@.len(),
            src == ap_sources(aps@),
            strictly_sorted_text(texts(set@)),
            texts(set@).to_set() == texts(old(set)@).to_set().union(
                all_reporting(src.subrange(0, i as int)),
            ),
        decreases aps@.len() - i,
    {
        add_adapters(set, &aps[i].source_adapters);
        proof {
            lemma_all_reporting_step(src, i as int);
        }
        i = i + 1;
        assert(texts(set@).to_set() =~= texts(old(set)@).to_set().union(
            all_reporting(src.subrange(0, i as int)),
        ));
    }
    assert(src.subrange(0, aps@.len() as int) =~= src);
}

fn sources_of_clients(cs: &Vec<ClientRecord>, set: &mut Vec<Vec<char>>)
    requires
        strictly_sorted_text(texts(old(set)@)),
    ensures
        strictly_sorted_text(texts(final(set)@)),
        texts(final(set)@).to_set() == texts(old(set)@).to_set().union(
            all_reporting(client_sources(cs@)),
        ),
{
    let ghost src = client_sources(cs@);
    let mut i: usize = 0;
    while i < cs.len()
        invariant
            i <= cs@.len(),
            src == client_sources(cs@),
            strictly_sorted_text(texts(set@)),
            texts(set@).to_set() == texts(old(set)@).to_set().union(
                all_reporting(src.subrange(0, i as int)),
            ),
        decreases cs@.len() - i,
    {
        add_adapters(set, &cs[i].source_adapters);
        proof {
            lemma_all_reporting_step(src, i as int);
        }
        i = i + 1;
        assert(texts(set@).to_set() =~= texts(old(set)@).to_set().union(
            all_reporting(src.subrange(0, i as int)),
        ));
    }
    assert(src.subrange(0, cs@.len() as int) =~= src);
}

fn sources_of_devices(ds: &Vec<BluetoothDeviceRecord>, set: &mut Vec<Vec<char>>)
    requires
        strictly_sorted_text(texts(old(set)@)),
    ensures
        strictly_sorted_text(texts(final(set)@)),
        texts(final(set)@).to_set() == texts(old(set)@).to_set().union(
            all_reporting(device_sources(ds@)),
        ),
{
    let ghost src = device_sources(ds@);
    let mut i: usize = 0;
    while i < ds.len()
        invariant
            i <= ds@.len(),
            src == device_sources(ds@),
            strictly_sorted_text(texts(set@)),
            texts(set@).to_set() == texts(old(set)@).to_set().union(
                all_reporting(src.subrange(0, i as int)),
            ),
        decreases ds@.len() - i,
    {
        add_adapters(set, &ds[i].source_adapters);
        proof {
            lemma_all_reporting_step(src, i as int);
        }
        i = i + 1;
        assert(texts(set@).to_set() =~= texts(old(set)@).to_set().union(
            all_reporting(src.subrange(0, i as int)),
        ));
    }
    assert(src.subrange(0, ds@.len() as int) =~= src);
}

proof fn lemma_all_reporting_step(src: Seq<Seq<Seq<char>>>, i: int)
    requires
        0 <= i < src.len(),
    ensures
        all_reporting(src.subrange(0, i + 1)) == all_reporting(src.subrange(0, i)).union(
            reporting_adapters(src[i]).to_set(),
        ),
{
    let a = src.subrange(0, i + 1);
    let b = src.subrange(0, i);
    assert forall|x: Seq<char>| all_reporting(a).contains(x) <==> all_reporting(b).union(
        reporting_adapters(src[i]).to_set(),
    ).contains(x) by {
        if all_reporting(a).contains(x) {
            let k = choose|k: int| 0 <= k < a.len() && reporting_adapters(a[k]).contains(x);
            if k < i {
                assert(b[k] == a[k]);
            } else {
                assert(a[k] == src[i]);
            }
        }
        if all_reporting(b).contains(x) {
            let k = choose|k: int| 0 <= k < b.len() && reporting_adapters(b[k]).contains(x);
            assert(a[k] == b[k]);
        }
        if reporting_adapters(src[i]).to_set().contains(x) {
            assert(a[i] == src[i]);
        }
    }
    assert(all_reporting(a) =~= all_reporting(b).union(reporting_adapters(src[i]).to_set()));
}

fn count_ap_reports(aps: &Vec<AccessPointRecord>, a: &[char]) -> (r: u64)
    ensures
        r as nat == count_reported(ap_sources(aps@), a@),
{
    let ghost src = ap_sources(aps@);
    let mut n: u64 = 0;
    let mut i: usize = 0;
    while i < aps.len()
        invariant
            i <= aps@.len(),
            src == ap_sources(aps@),
            n as nat == count_reported(src.subrange(0, i as int), a@),
            n <= i,
        decreases aps@.len() - i,
    {
        proof {
            let pre = src.subrange(0, i + 1);
            assert(pre.drop_last() =~= src.subrange(0, i as int));
            assert(pre.last() == string_seqs(aps@[i as int].source_adapters@));
        }
        if reported_by(&aps[i].source_adapters, a) {
            n = n + 1;
        }
        i = i + 1;
    }
    assert(src.subrange(0, aps@.len() as int) =~= src);
    n
}

fn count_client_reports(cs: &Vec<ClientRecord>, a: &[char]) -> (r: u64)
    ensures
        r as nat == count_reported(client_sources(cs@), a@),
{
    let ghost src = client_sources(cs@);
    let mut n: u64 = 0;
    let mut i: usize = 0;
    while i < cs.len()
        invariant
            i <= cs@.len(),
            src == client_sources(cs@),
            n as nat == count_reported(src.subrange(0, i as int), a@),
            n <= i,
        decreases cs@.len() - i,
    {
        proof {
            let pre = src.subrange(0, i + 1);
            assert(pre.drop_last() =~= src.subrange(0, i as int));
            assert(pre.last() == string_seqs(cs@[i as int].source_adapters@));
        }
        if reported_by(&cs[i].source_adapters, a) {
            n = n + 1;
        }
        i = i + 1;
    }
    assert(src.subrange(0, cs@.len() as int) =~= src);
    n
}

fn count_device_reports(ds: &Vec<BluetoothDeviceRecord>, a: &[char]) -> (r: u64)
    ensures
        r as nat == count_reported(device_sources(ds@), a@),
{
    let ghost src = device_sources(ds@);
    let mut n: u64 = 0;
    let mut i: usize = 0;
    while i < ds.len()
        invariant
            i <= ds@.len(),
            src == device_sources(ds@),
            n as nat == count_reported(src.subrange(0, i as int), a@),
            n <= i,
        decreases ds@.len() - i,
    {
        proof {
            let pre = src.subrange(0, i + 1);
            assert(pre.drop_last() =~= src.subrange(0, i as int));
            assert(pre.last() == string_seqs(ds@[i as int].source_adapters@));
        }
        if reported_by(&ds[i].source_adapters, a) {
            n = n + 1;
        }
        i = i + 1;
    }
    assert(src.subrange(0, ds@.len() as int) =~= src);
    n
}

/// The Wi-Fi adapter line for adapters `names` (in order).
pub open spec fn wifi_adapter_line(
    names: Seq<Seq<char>>,
    aps: Seq<AccessPointRecord>,
    clients: Seq<ClientRecord>,
) -> Seq<char> {
    if names.len() == 0 {
        "Wi-Fi adapters: no AP/client data yet"@
    } else {
        "Wi-Fi adapters: "@ + join(
            names.map_values(
                |a: Seq<char>|
                    a + " aps="@ + decimal(count_reported(ap_sources(aps), a)) + " clients="@
                        + decimal(count_reported(client_sources(clients), a)),
            ),
            " | "@,
        )
    }
}

/// How many access points and clients each Wi-Fi adapter reported, adapters
/// in name order.
pub fn wifi_adapter_activity_summary(aps: &Vec<AccessPointRecord>, clients: &Vec<ClientRecord>) -> (r: String)
    ensures
        exists|names: Seq<Seq<char>>|
            strictly_sorted_text(names) && names.to_set() == all_reporting(ap_sources(aps@)).union(
                all_reporting(client_sources(clients@)),
            ) && r@ == wifi_adapter_line(names, aps@, clients@),
{
    let mut set: Vec<Vec<char>> = Vec::new();
    assert(texts(set@).to_set() =~= Set::<Seq<char>>::empty());
    sources_of_aps(aps, &mut set);
    sources_of_clients(clients, &mut set);
    let ghost names = texts(set@);
    assert(names.to_set() =~= all_reporting(ap_sources(aps@)).union(
        all_reporting(client_sources(clients@)),
    ));
    if set.len() == 0 {
        let r = String::from_str("Wi-Fi adapters: no AP/client data yet");
        assert(r@ == wifi_adapter_line(names, aps@, clients@));
        return r;
    }
    let ghost parts = names.map_values(
        |a: Seq<char>|
            a + " aps="@ + decimal(count_reported(ap_sources(aps@), a)) + " clients="@ + decimal(
                count_reported(client_sources(clients@), a),
            ),
    );
    let mut out: Vec<char> = Vec::new();
    let mut i: usize = 0;
    while i < set.len()
        invariant
            i <= set@.len(),
            names == texts(set@),
            parts == names.map_values(
                |a: Seq<char>|
                    a + " aps="@ + decimal(count_reported(ap_sources(aps@), a)) + " clients="@
                        + decimal(count_reported(client_sources(clients@), a)),
            ),
            out@ == join(parts.subrange(0, i as int), " | "@),
        decreases set@.len() - i,
    {
        proof {
            let pre = parts.subrange(0, i + 1);
            assert(pre.drop_last() =~= parts.subrange(0, i as int));
            assert(pre.last() == parts[i as int]);
        }
        if i > 0 {
            push_str(&mut out, " | ");
        }
        let ghost before = out@;
        let a = set[i].as_slice();
        push_all(&mut out, a);
        push_str(&mut out, " aps=");
        push_decimal(&mut out, count_ap_reports(aps, a));
        push_str(&mut out, " clients=");
        push_decimal(&mut out, count_client_reports(clients, a));
        proof {
            assert(out@ =~= before + parts[i as int]);
            if i == 0 {
                assert(out@ =~= parts[0]);
            }
        }
        i = i + 1;
    }
    assert(parts.subrange(0, set@.len() as int) =~= parts);
    let mut line: Vec<char> = Vec::new();
    push_str(&mut line, "Wi-Fi adapters: ");
    push_all(&mut line, out.as_slice());
    string_from_chars(line.as_slice())
}

/// The Bluetooth adapter line for adapters `names` (in order).
pub open spec fn bluetooth_adapter_line(names: Seq<Seq<char>>, devices: Seq<BluetoothDeviceRecord>) -> Seq<char> {
    if names.len() == 0 {
        "Bluetooth adapters: no device data yet"@
    } else {
        "Bluetooth adapters: "@ + join(
            names.map_values(
                |a: Seq<char>| a + " devices="@ + decimal(count_reported(device_sources(devices), a)),
            ),
            " | "@,
        )
    }
}

/// How many devices each Bluetooth adapter reported, adapters in name order.
pub fn bluetooth_adapter_activity_summary(devices: &Vec<BluetoothDeviceRecord>) -> (r: String)
    ensures
        exists|names: Seq<Seq<char>>|
            strictly_sorted_text(names) && names.to_set() == all_reporting(device_sources(devices@))
                && r@ == bluetooth_adapter_line(names, devices@),
{
    let mut set: Vec<Vec<char>> = Vec::new();
    assert(texts(set@).to_set() =~= Set::<Seq<char>>::empty());
    sources_of_devices(devices, &mut set);
    let ghost names = texts(set@);
    assert(names.to_set() =~= all_reporting(device_sources(devices@)));
    if set.len() == 0 {
        let r = String::from_str("Bluetooth adapters: no device data yet");
        assert(r@ == bluetooth_adapter_line(names, devices@));
        return r;
    }
    let ghost parts = names.map_values(
        |a: Seq<char>| a + " devices="@ + decimal(count_reported(device_sources(devices@), a)),
    );
    let mut out: Vec<char> = Vec::new();
    let mut i: usize = 0;
    while i < set.len()
        invariant
            i <= set@.len(),
            names == texts(set@),
            parts == names.map_values(
                |a: Seq<char>| a + " devices="@ + decimal(count_reported(device_sources(devices@), a)),
            ),
            out@ == join(parts.subrange(0, i as int), " | "@),
        decreases set@.len() - i,
    {
        proof {
            let pre = parts.subrange(0, i + 1);
            assert(pre.drop_last() =~= parts.subrange(0, i as int));
            assert(pre.last() == parts[i as int]);
        }
        if i > 0 {
            push_str(&mut out, " | ");
        }
        let ghost before = out@;
        let a = set[i].as_slice();
        push_all(&mut out, a);
        push_str(&mut out, " devices=");
        push_decimal(&mut out, count_device_reports(devices, a));
        proof {
            assert(out@ =~= before + parts[i as int]);
            if i == 0 {
                assert(out@ =~= parts[0]);
            }
        }
        i = i + 1;
    }
    assert(parts.subrange(0, set@.len() as int) =~= parts);
    let mut line: Vec<char> = Vec::new();
    push_str(&mut line, "Bluetooth adapters: ");
    push_all(&mut line, out.as_slice());
    string_from_chars(line.as_slice())
}


/// The interface shown for Wi-Fi: the monitor interface of the first
/// enabled interface, else its name.
pub open spec fn shown_interface(ifaces: Seq<InterfaceSettings>) -> Option<Seq<char>> {
    match first_enabled(ifaces) {
        Some(k) => Some(
            match ifaces[k].monitor_interface_name {
                Some(m) => m@,
                None => ifaces[k].interface_name@,
            },
        ),
        None => None,
    }
}

/// One radio's status line.
pub open spec fn radio_line(name: Seq<char>, w: RadioWatch, now: u64) -> Seq<char> {
    name + " | "@ + health_label(w.health) + " | "@ + w.detail@ + " | last data: "@
        + elapsed_text(w.last_data_at, now) + " | restarts: "@ + decimal(w.restart_count as nat)
}

pub open spec fn elapsed_text(last: Option<u64>, now: u64) -> Seq<char> {
    match last {
        Some(t) => decimal(if now >= t {
            (now - t) as nat
        } else {
            0nat
        }) + "s ago"@,
        None => "n/a"@,
    }
}

pub open spec fn wifi_status_line(settings: AppSettings, wifi: RadioWatch, now: u64) -> Seq<char> {
    match shown_interface(settings.interfaces@) {
        Some(i) => radio_line("Wi-Fi "@ + i, wifi, now),
        None => "Wi-Fi: disabled"@,
    }
}

pub open spec fn bluetooth_status_line(settings: AppSettings, bluetooth: RadioWatch, now: u64) -> Seq<char> {
    if settings.bluetooth_enabled {
        radio_line(
            "Bluetooth "@ + match settings.bluetooth_controller {
                Some(c) => c@,
                None => "default"@,
            },
            bluetooth,
            now,
        )
    } else {
        "Bluetooth: disabled"@
    }
}

/// The runtime status of both radios, each followed by its adapter summary.
pub open spec fn runtime_status(
    settings: AppSettings,
    wifi: RadioWatch,
    bluetooth: RadioWatch,
    now: u64,
    wifi_summary: Seq<char>,
    bluetooth_summary: Seq<char>,
) -> Seq<char> {
    wifi_status_line(settings, wifi, now) + "\n"@ + wifi_summary + "\n"@ + bluetooth_status_line(
        settings,
        bluetooth,
        now,
    ) + "\n"@ + bluetooth_summary
}

fn push_radio_line(out: &mut Vec<char>, w: &RadioWatch, now: u64)
    ensures
        final(out)@ == old(out)@ + " | "@ + health_label(w.health) + " | "@ + w.detail@
            + " | last data: "@ + elapsed_text(w.last_data_at, now) + " | restarts: "@ + decimal(
            w.restart_count as nat,
        ),
{
    push_str(out, " | ");
    push_str(out, interface_health_state_label(w.health));
    push_str(out, " | ");
    push_str(out, w.detail.as_str());
    push_str(out, " | last data: ");
    push_str(out, format_health_elapsed(w.last_data_at, now).as_str());
    push_str(out, " | restarts: ");
    push_decimal(out, w.restart_count as u64);
}

fn wifi_line_text(settings: &AppSettings, wifi: &RadioWatch, now: u64) -> (r: Vec<char>)
    ensures
        r@ == wifi_status_line(*settings, *wifi, now),
{
    let mut out: Vec<char> = Vec::new();
    proof {
        lemma_first_enabled(settings.interfaces@);
    }
    match find_enabled(settings.interfaces.as_slice()) {
        Some(k) => {
            push_str(&mut out, "Wi-Fi ");
            match &settings.interfaces[k].monitor_interface_name {
                Some(m) => push_str(&mut out, m.as_str()),
                None => push_str(&mut out, settings.interfaces[k].interface_name.as_str()),
            }
            push_radio_line(&mut out, wifi, now);
        },
        None => push_str(&mut out, "Wi-Fi: disabled"),
    }
    assert(out@ =~= wifi_status_line(*settings, *wifi, now));
    out
}

fn bluetooth_line_text(settings: &AppSettings, bluetooth: &RadioWatch, now: u64) -> (r: Vec<char>)
    ensures
        r@ == bluetooth_status_line(*settings, *bluetooth, now),
{
    let mut out: Vec<char> = Vec::new();
    if settings.bluetooth_enabled {
        push_str(&mut out, "Bluetooth ");
        match &settings.bluetooth_controller {
            Some(c) => push_str(&mut out, c.as_str()),
            None => push_str(&mut out, "default"),
        }
        push_radio_line(&mut out, bluetooth, now);
    } else {
        push_str(&mut out, "Bluetooth: disabled");
    }
    assert(out@ =~= bluetooth_status_line(*settings, *bluetooth, now));
    out
}

/// The runtime status text (see `runtime_status`); the adapter summaries
/// come from `wifi_adapter_activity_summary` and
/// `bluetooth_adapter_activity_summary`.
pub fn interface_runtime_status_text(
    settings: &AppSettings,
    wifi: &RadioWatch,
    bluetooth: &RadioWatch,
    now: u64,
    wifi_summary: &str,
    bluetooth_summary: &str,
) -> (r: String)
    ensures
        r@ == runtime_status(*settings, *wifi, *bluetooth, now, wifi_summary@, bluetooth_summary@),
{
    let mut out = wifi_line_text(settings, wifi, now);
    push_str(&mut out, "\n");
    push_str(&mut out, wifi_summary);
    push_str(&mut out, "\n");
    let b = bluetooth_line_text(settings, bluetooth, now);
    push_all(&mut out, b.as_slice());
    push_str(&mut out, "\n");
    push_str(&mut out, bluetooth_summary);
    assert(out@ =~= runtime_status(*settings, *wifi, *bluetooth, now, wifi_summary@, bluetooth_summary@));
    string_from_chars(out.as_slice())
}

/// The GPS status line: the provider's mode, whether it is connected, the
/// time of the last fix (to the second, UTC) and its detail.
pub open spec fn gps_status(mode: Seq<char>, connected: bool, last_fix: Option<i64>, detail: Seq<char>) -> Seq<char> {
    "GPS "@ + mode + " | "@ + (if connected {
        "Connected"@
    } else {
        "Disconnected"@
    }) + " | Last Fix: "@ + (match last_fix {
        Some(t) => seconds_text(t),
        None => "No fix"@,
    }) + " | "@ + detail
}

pub fn gps_status_text(mode: &str, connected: bool, last_fix: Option<i64>, detail: &str) -> (r: String)
    ensures
        r@ == gps_status(mode@, connected, last_fix, detail@),
{
    let mut out: Vec<char> = Vec::new();
    push_str(&mut out, "GPS ");
    push_str(&mut out, mode);
    push_str(&mut out, " | ");
    if connected {
        push_str(&mut out, "Connected");
    } else {
        push_str(&mut out, "Disconnected");
    }
    push_str(&mut out, " | Last Fix: ");
    match last_fix {
        Some(t) => push_str(&mut out, format_utc_seconds(t).as_str()),
        None => push_str(&mut out, "No fix"),
    }
    push_str(&mut out, " | ");
    push_str(&mut out, detail);
    assert(out@ =~= gps_status(mode@, connected, last_fix, detail@));
    string_from_chars(out.as_slice())
}

} // verus!
