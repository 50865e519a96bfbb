//! Draining the scanners' event channels in batches: of the events received
//! in one batch, log lines, sightings and handshakes are all kept, while of
//! the device and channel updates only the latest for each device or channel
//! is kept.

use vstd::prelude::*;
use crossbeam_channel::Receiver;
use crate::records::{AccessPointRecord, ClientRecord, BluetoothDeviceRecord, GeoObservation};
use crate::text::str_eq;
use crate::web_state::{CaptureEvent, BluetoothEvent, ChannelUsagePoint, HandshakeRecord};

verus! {

#[verifier::external_type_specification]
#[verifier::external_body]
#[verifier::reject_recursive_types(T)]
pub struct ExReceiver<T>(Receiver<T>);

/// Calls crossbeam's `Receiver::try_recv`: a message that is waiting, or
/// `None` when the channel is empty or disconnected. What comes back depends
/// on the other threads, so nothing is stated of it.
#[verifier::external_body]
fn try_receive<T>(receiver: &Receiver<T>) -> (r: Option<T>) {
    match receiver.try_recv() {
        Ok(message) => Some(message),
        Err(_) => None,
    }
}

/// The log lines among `s`, in order.
pub open spec fn capture_logs(s: Seq<CaptureEvent>) -> Seq<String>
    decreases s.len(),
{
    if s.len() == 0 {
        Seq::empty()
    } else {
        let r = capture_logs(s.drop_last());
        match s.last() {
            CaptureEvent::Log(t) => r.push(t),
            _ => r,
        }
    }
}

/// The located sightings among `s`, in order.
pub open spec fn capture_observations(s: Seq<CaptureEvent>) -> Seq<(String, String, GeoObservation)>
    decreases s.len(),
{
    if s.len() == 0 {
        Seq::empty()
    } else {
        let r = capture_observations(s.drop_last());
        match s.last() {
            CaptureEvent::Observation { device_type, device_id, observation } => r.push(
                (device_type, device_id, observation),
            ),
            _ => r,
        }
    }
}

/// The handshakes among `s`, in order.
pub open spec fn capture_handshakes(s: Seq<CaptureEvent>) -> Seq<HandshakeRecord>
    decreases s.len(),
{
    if s.len() == 0 {
        Seq::empty()
    } else {
        let r = capture_handshakes(s.drop_last());
        match s.last() {
            CaptureEvent::HandshakeSeen(h) => r.push(h),
            _ => r,
        }
    }
}

/// Where the access point with `bssid` is in `r`, looking from `j`.
pub open spec fn ap_slot(r: Seq<AccessPointRecord>, bssid: Seq<char>, j: int) -> Option<int>
    decreases r.len() - j,
{
    if j < 0 || j >= r.len() {
        None
    } else if r[j].bssid@ == bssid {
        Some(j)
    } else {
        ap_slot(r, bssid, j + 1)
    }
}

pub open spec fn client_slot(r: Seq<ClientRecord>, mac: Seq<char>, j: int) -> Option<int>
    decreases r.len() - j,
{
    if j < 0 || j >= r.len() {
        None
    } else if r[j].mac@ == mac {
        Some(j)
    } else {
        client_slot(r, mac, j + 1)
    }
}

pub open spec fn usage_slot(r: Seq<ChannelUsagePoint>, channel: u16, j: int) -> Option<int>
    decreases r.len() - j,
{
    if j < 0 || j >= r.len() {
        None
    } else if r[j].channel == channel {
        Some(j)
    } else {
        usage_slot(r, channel, j + 1)
    }
}

/// The latest report of each access point in `s`, in the order the access
/// points were first reported.
pub open spec fn latest_aps(s: Seq<CaptureEvent>) -> Seq<AccessPointRecord>
    decreases s.len(),
{
    if s.len() == 0 {
        Seq::empty()
    } else {
        let r = latest_aps(s.drop_last());
        match s.last() {
            CaptureEvent::AccessPointSeen(ap) => match ap_slot(r, ap.bssid@, 0) {
                Some(j) => r.update(j, ap),
                None => r.push(ap),
            },
            _ => r,
        }
    }
}

proof fn lemma_ap_slot(r: Seq<AccessPointRecord>, bssid: Seq<char>, j: int)
    requires
        0 <= j <= r.len(),
    ensures
        match ap_slot(r, bssid, j) {
            Some(k) => j <= k < r.len() && r[k].bssid@ == bssid && forall|m: int|
                j <= m < k ==> (#[trigger] r[m]).bssid@ != bssid,
            None => forall|m: int| j <= m < r.len() ==> (#[trigger] r[m]).bssid@ != bssid,
        },
    decreases r.len() - j,
{
    if j < r.len() && r[j].bssid@ != bssid {
        lemma_ap_slot(r, bssid, j + 1);
    }
}

/// In a batch, no access point is reported twice.
pub proof fn lemma_latest_aps_unique(s: Seq<CaptureEvent>)
    ensures
        forall|i: int, j: int|
            0 <= i < j < latest_aps(s).len() ==> (#[trigger] latest_aps(s)[i]).bssid@ != (
            #[trigger] latest_aps(s)[j]).bssid@,
    decreases s.len(),
{
    if s.len() > 0 {
        lemma_latest_aps_unique(s.drop_last());
        let r = latest_aps(s.drop_last());
        match s.last() {
            CaptureEvent::AccessPointSeen(ap) => {
                lemma_ap_slot(r, ap.bssid@, 0);
                let n = latest_aps(s);
                match ap_slot(r, ap.bssid@, 0) {
                    Some(k) => {
                        assert forall|i: int, j: int| 0 <= i < j < n.len() implies (
                        #[trigger] n[i]).bssid@ != (#[trigger] n[j]).bssid@ by {
                            assert(n[i].bssid@ == r[i].bssid@);
                            assert(n[j].bssid@ == r[j].bssid@);
                        }
                    },
                    None => {
                        assert forall|i: int, j: int| 0 <= i < j < n.len() implies (
                        #[trigger] n[i]).bssid@ != (#[trigger] n[j]).bssid@ by {
                            if j < r.len() {
                                assert(n[i] == r[i] && n[j] == r[j]);
                            } else {
                                assert(n[i] == r[i]);
                            }
                        }
                    },
                }
            },
            _ => {},
        }
    }
}

/// A report of an access point that no later event of the batch reports
/// again is the one the batch hands on.
pub proof fn lemma_latest_ap_kept(s: Seq<CaptureEvent>, i: int, ap: AccessPointRecord)
    requires
        0 <= i < s.len(),
        s[i] == CaptureEvent::AccessPointSeen(ap),
        forall|k: int|
            i < k < s.len() ==> !(#[trigger] s[k] matches CaptureEvent::AccessPointSeen(b) && b.bssid@
                == ap.bssid@),
    ensures
        latest_aps(s).contains(ap),
    decreases s.len(),
{
    let r = latest_aps(s.drop_last());
    if i == s.len() - 1 {
        lemma_ap_slot(r, ap.bssid@, 0);
        match ap_slot(r, ap.bssid@, 0) {
            Some(k) => {
                assert(latest_aps(s)[k] == ap);
            },
            None => {
                assert(latest_aps(s)[r.len() as int] == ap);
            },
        }
    } else {
        assert forall|k: int| i < k < s.drop_last().len() implies !(
        #[trigger] s.drop_last()[k] matches CaptureEvent::AccessPointSeen(b) && b.bssid@
            == ap.bssid@) by {
            assert(s.drop_last()[k] == s[k]);
        }
        lemma_latest_ap_kept(s.drop_last(), i, ap);
        let m = choose|m: int| 0 <= m < r.len() && r[m] == ap;
        match s.last() {
            CaptureEvent::AccessPointSeen(b) => {
                assert(b.bssid@ != ap.bssid@);
                lemma_ap_slot(r, b.bssid@, 0);
                match ap_slot(r, b.bssid@, 0) {
                    Some(k) => {
                        assert(k != m);
                        assert(latest_aps(s)[m] == ap);
                    },
                    None => {
                        assert(latest_aps(s)[m] == ap);
                    },
                }
            },
            _ => {},
        }
    }
}

/// The latest report of each client in `s`, in the order the clients were
/// first reported.
pub open spec fn latest_clients(s: Seq<CaptureEvent>) -> Seq<ClientRecord>
    decreases s.len(),
{
    if s.len() == 0 {
        Seq::empty()
    } else {
        let r = latest_clients(s.drop_last());
        match s.last() {
            CaptureEvent::ClientSeen(c) => match client_slot(r, c.mac@, 0) {
                Some(j) => r.update(j, c),
                None => r.push(c),
            },
            _ => r,
        }
    }
}

/// The latest usage sample of each channel in `s`, in the order the
/// channels were first reported.
pub open spec fn latest_usage(s: Seq<CaptureEvent>) -> Seq<ChannelUsagePoint>
    decreases s.len(),
{
    if s.len() == 0 {
        Seq::empty()
    } else {
        let r = latest_usage(s.drop_last());
        match s.last() {
            CaptureEvent::ChannelUsage(u) => match usage_slot(r, u.channel, 0) {
                Some(j) => r.update(j, u),
                None => r.push(u),
            },
            _ => r,
        }
    }
}

/// The batch handed on for the events `s`: the log lines, then the latest
/// access points, clients, the sightings, the handshakes and the latest
/// channel usage.
pub open spec fn capture_batch(s: Seq<CaptureEvent>) -> Seq<CaptureEvent> {
    capture_logs(s).map_values(|t: String| CaptureEvent::Log(t)) + latest_aps(s).map_values(
        |a: AccessPointRecord| CaptureEvent::AccessPointSeen(a),
    ) + latest_clients(s).map_values(|c: ClientRecord| CaptureEvent::ClientSeen(c))
        + capture_observations(s).map_values(
        |o: (String, String, GeoObservation)|
            CaptureEvent::Observation { device_type: o.0, device_id: o.1, observation: o.2 },
    ) + capture_handshakes(s).map_values(|h: HandshakeRecord| CaptureEvent::HandshakeSeen(h))
        + latest_usage(s).map_values(|u: ChannelUsagePoint| CaptureEvent::ChannelUsage(u))
}

fn find_ap_slot(r: &Vec<AccessPointRecord>, bssid: &str) -> (p: Option<usize>)
    ensures
        match p {
            Some(j) => ap_slot(r@, bssid@, 0) == Some(j as int) && j < r@.len(),
            None => ap_slot(r@, bssid@, 0) is None,
        },
{
    let mut j: usize = 0;
    while j < r.len()
        invariant
            j <= r@.len(),
            ap_slot(r@, bssid@, 0) == ap_slot(r@, bssid@, j as int),
        decreases r@.len() - j,
    {
        if str_eq(r[j].bssid.as_str(), bssid) {
            return Some(j);
        }
        j = j + 1;
    }
    None
}

fn find_client_slot(r: &Vec<ClientRecord>, mac: &str) -> (p: Option<usize>)
    ensures
        match p {
            Some(j) => client_slot(r@, mac@, 0) == Some(j as int) && j < r@.len(),
            None => client_slot(r@, mac@, 0) is None,
        },
{
    let mut j: usize = 0;
    while j < r.len()
        invariant
            j <= r@.len(),
            client_slot(r@, mac@, 0) == client_slot(r@, mac@, j as int),
        decreases r@.len() - j,
    {
        if str_eq(r[j].mac.as_str(), mac) {
            return Some(j);
        }
        j = j + 1;
    }
    None
}

fn find_usage_slot(r: &Vec<ChannelUsagePoint>, channel: u16) -> (p: Option<usize>)
    ensures
        match p {
            Some(j) => usage_slot(r@, channel, 0) == Some(j as int) && j < r@.len(),
            None => usage_slot(r@, channel, 0) is None,
        },
{
    let mut j: usize = 0;
    while j < r.len()
        invariant
            j <= r@.len(),
            usage_slot(r@, channel, 0) == usage_slot(r@, channel, j as int),
        decreases r@.len() - j,
    {
        if r[j].channel == channel {
            return Some(j);
        }
        j = j + 1;
    }
    None
}

/// Coalesces a batch of capture events (see `capture_batch`).
#[verifier::rlimit(40)]
pub fn coalesce_capture_events(events: Vec<CaptureEvent>) -> (r: Vec<CaptureEvent>)
    ensures
        r@ == capture_batch(events@),
{
    let ghost all = events@;
    let mut src = events;
    let n = src.len();
    let mut logs: Vec<String> = Vec::new();
    let mut aps: Vec<AccessPointRecord> = Vec::new();
    let mut clients: Vec<ClientRecord> = Vec::new();
    let mut observations: Vec<(String, String, GeoObservation)> = Vec::new();
    let mut handshakes: Vec<HandshakeRecord> = Vec::new();
    let mut usage: Vec<ChannelUsagePoint> = Vec::new();
    let mut i: usize = 0;
    while i < n
        invariant
            n == all.len(),
            i <= n,
            src@ == all.subrange(i as int, n as int),
            logs@ == capture_logs(all.subrange(0, i as int)),
            aps@ == latest_aps(all.subrange(0, i as int)),
            clients@ == latest_clients(all.subrange(0, i as int)),
            observations@ == capture_observations(all.subrange(0, i as int)),
            handshakes@ == capture_handshakes(all.subrange(0, i as int)),
            usage@ == latest_usage(all.subrange(0, i as int)),
        decreases n - i,
    {
        let e = src.remove(0);
        assert(e == all[i as int]);
        assert(src@ =~= all.subrange(i + 1, n as int));
        proof {
            let pre = all.subrange(0, i + 1);
            assert(pre.drop_last() =~= all.subrange(0, i as int));
            assert(pre.last() == e);
        }
        match e {
            CaptureEvent::Log(t) => logs.push(t),
            CaptureEvent::AccessPointSeen(ap) => match find_ap_slot(&aps, ap.bssid.as_str()) {
                Some(j) => {
                    aps.set(j, ap);
                },
                None => aps.push(ap),
            },
            CaptureEvent::ClientSeen(c) => match find_client_slot(&clients, c.mac.as_str()) {
                Some(j) => {
                    clients.set(j, c);
                },
                None => clients.push(c),
            },
            CaptureEvent::Observation { device_type, device_id, observation } => {
                observations.push((device_type, device_id, observation));
            },
            CaptureEvent::HandshakeSeen(h) => handshakes.push(h),
            CaptureEvent::ChannelUsage(u) => match find_usage_slot(&usage, u.channel) {
                Some(j) => {
                    usage.set(j, u);
                },
                None => usage.push(u),
            },
        }
        i = i + 1;
    }
    assert(all.subrange(0, n as int) =~= all);
    let mut out: Vec<CaptureEvent> = Vec::new();
    let ghost part1 = capture_logs(all).map_values(|t: String| CaptureEvent::Log(t));
    let mut k: usize = 0;
    let mut logs_src = logs;
    let ghost logs_all = logs_src@;
    let count = logs_src.len();
    while k < count
        invariant
            count == logs_all.len(),
            logs_all == capture_logs(all),
            part1 == logs_all.map_values(|t: String| CaptureEvent::Log(t)),
            k + logs_src@.len() == logs_all.len(),
            logs_src@ == logs_all.subrange(k as int, logs_all.len() as int),
            out@ == part1.subrange(0, k as int),
        decreases count - k,
    {
        let t = logs_src.remove(0);
        out.push(CaptureEvent::Log(t));
        k = k + 1;
        assert(out@ =~= part1.subrange(0, k as int));
        assert(logs_src@ =~= logs_all.subrange(k as int, logs_all.len() as int));
    }
    assert(out@ =~= part1);
    let ghost acc1 = out@;
    let ghost part2 = aps@.map_values(|a: AccessPointRecord| CaptureEvent::AccessPointSeen(a));
    let ghost aps_all = aps@;
    k = 0;
    let count = aps.len();
    while k < count
        invariant
            count == aps_all.len(),
            part2 == aps_all.map_values(|a: AccessPointRecord| CaptureEvent::AccessPointSeen(a)),
            k + aps@.len() == aps_all.len(),
            aps@ == aps_all.subrange(k as int, aps_all.len() as int),
            out@ == acc1 + part2.subrange(0, k as int),
        decreases count - k,
    {
        let a = aps.remove(0);
        out.push(CaptureEvent::AccessPointSeen(a));
        k = k + 1;
        assert(out@ =~= acc1 + part2.subrange(0, k as int));
        assert(aps@ =~= aps_all.subrange(k as int, aps_all.len() as int));
    }
    assert(out@ =~= acc1 + part2);
    let ghost acc2 = out@;
    let ghost part3 = clients@.map_values(|c: ClientRecord| CaptureEvent::ClientSeen(c));
    let ghost clients_all = clients@;
    k = 0;
    let count = clients.len();
    while k < count
        invariant
            count == clients_all.len(),
            part3 == clients_all.map_values(|c: ClientRecord| CaptureEvent::ClientSeen(c)),
            k + clients@.len() == clients_all.len(),
            clients@ == clients_all.subrange(k as int, clients_all.len() as int),
            out@ == acc2 + part3.subrange(0, k as int),
        decreases count - k,
    {
        let c = clients.remove(0);
        out.push(CaptureEvent::ClientSeen(c));
        k = k + 1;
        assert(out@ =~= acc2 + part3.subrange(0, k as int));
        assert(clients@ =~= clients_all.subrange(k as int, clients_all.len() as int));
    }
    assert(out@ =~= acc2 + part3);
    let ghost acc3 = out@;
    let ghost part4 = observations@.map_values(
        |o: (String, String, GeoObservation)|
            CaptureEvent::Observation { device_type: o.0, device_id: o.1, observation: o.2 },
    );
    let ghost obs_all = observations@;
    k = 0;
    let count = observations.len();
    while k < count
        invariant
            count == obs_all.len(),
            part4 == obs_all.map_values(
                |o: (String, String, GeoObservation)|
                    CaptureEvent::Observation { device_type: o.0, device_id: o.1, observation: o.2 },
            ),
            k + observations@.len() == obs_all.len(),
            observations@ == obs_all.subrange(k as int, obs_all.len() as int),
            out@ == acc3 + part4.subrange(0, k as int),
        decreases count - k,
    {
        let (device_type, device_id, observation) = observations.remove(0);
        out.push(CaptureEvent::Observation { device_type, device_id, observation });
        k = k + 1;
        assert(out@ =~= acc3 + part4.subrange(0, k as int));
        assert(observations@ =~= obs_all.subrange(k as int, obs_all.len() as int));
    }
    assert(out@ =~= acc3 + part4);
    let ghost acc4 = out@;
    let ghost part5 = handshakes@.map_values(|h: HandshakeRecord| CaptureEvent::HandshakeSeen(h));
    let ghost hs_all = handshakes@;
    k = 0;
    let count = handshakes.len();
    while k < count
        invariant
            count == hs_all.len(),
            part5 == hs_all.map_values(|h: HandshakeRecord| CaptureEvent::HandshakeSeen(h)),
            k + handshakes@.len() == hs_all.len(),
            handshakes@ == hs_all.subrange(k as int, hs_all.len() as int),
            out@ == acc4 + part5.subrange(0, k as int),
        decreases count - k,
    {
        let h = handshakes.remove(0);
        out.push(CaptureEvent::HandshakeSeen(h));
        k = k + 1;
        assert(out@ =~= acc4 + part5.subrange(0, k as int));
        assert(handshakes@ =~= hs_all.subrange(k as int, hs_all.len() as int));
    }
    assert(out@ =~= acc4 + part5);
    let ghost acc5 = out@;
    let ghost part6 = usage@.map_values(|u: ChannelUsagePoint| CaptureEvent::ChannelUsage(u));
    let ghost usage_all = usage@;
    k = 0;
    let count = usage.len();
    while k < count
        invariant
            count == usage_all.len(),
            part6 == usage_all.map_values(|u: ChannelUsagePoint| CaptureEvent::ChannelUsage(u)),
            k + usage@.len() == usage_all.len(),
            usage@ == usage_all.subrange(k as int, usage_all.len() as int),
            out@ == acc5 + part6.subrange(0, k as int),
        decreases count - k,
    {
        let u = usage.remove(0);
        out.push(CaptureEvent::ChannelUsage(u));
        k = k + 1;
        assert(out@ =~= acc5 + part6.subrange(0, k as int));
        assert(usage@ =~= usage_all.subrange(k as int, usage_all.len() as int));
    }
    assert(out@ =~= acc5 + part6);
    assert(out@ =~= capture_batch(all));
    out
}

/// Takes up to `limit` waiting capture events from `receiver`, stopping at
/// the first time none is waiting, and coalesces them (see
/// `capture_batch`).
pub fn drain_capture_events_batch(receiver: &Receiver<CaptureEvent>, limit: usize) -> (r: Vec<CaptureEvent>)
    ensures
        exists|got: Seq<CaptureEvent>| got.len() <= limit && r@ == capture_batch(got),
{
    let mut got: Vec<CaptureEvent> = Vec::new();
    let mut i: usize = 0;
    while i < limit
        invariant
            i <= limit,
            got@.len() == i,
        decreases limit - i,
    {
        match try_receive(receiver) {
            Some(e) => got.push(e),
            None => break,
        }
        i = i + 1;
    }
    let ghost received = got@;
    let r = coalesce_capture_events(got);
    assert(received.len() <= limit && r@ == capture_batch(received));
    r
}

/// The log lines among Bluetooth events `s`, in order.
pub open spec fn bluetooth_logs(s: Seq<BluetoothEvent>) -> Seq<String>
    decreases s.len(),
{
    if s.len() == 0 {
        Seq::empty()
    } else {
        let r = bluetooth_logs(s.drop_last());
        match s.last() {
            BluetoothEvent::Log(t) => r.push(t),
            _ => r,
        }
    }
}

pub open spec fn device_slot(r: Seq<BluetoothDeviceRecord>, mac: Seq<char>, j: int) -> Option<int>
    decreases r.len() - j,
{
    if j < 0 || j >= r.len() {
        None
    } else if r[j].mac@ == mac {
        Some(j)
    } else {
        device_slot(r, mac, j + 1)
    }
}

pub open spec fn status_slot(r: Seq<(String, String, bool)>, mac: Seq<char>, j: int) -> Option<int>
    decreases r.len() - j,
{
    if j < 0 || j >= r.len() {
        None
    } else if r[j].0@ == mac {
        Some(j)
    } else {
        status_slot(r, mac, j + 1)
    }
}

/// The latest report of each Bluetooth device in `s`, in the order the
/// devices were first reported.
pub open spec fn latest_devices(s: Seq<BluetoothEvent>) -> Seq<BluetoothDeviceRecord>
    decreases s.len(),
{
    if s.len() == 0 {
        Seq::empty()
    } else {
        let r = latest_devices(s.drop_last());
        match s.last() {
            BluetoothEvent::DeviceSeen(d) => match device_slot(r, d.mac@, 0) {
                Some(j) => r.update(j, d),
                None => r.push(d),
            },
            _ => r,
        }
    }
}

/// The latest enumeration status (MAC, message, error) of each device in
/// `s`, in the order the devices were first reported.
pub open spec fn latest_statuses(s: Seq<BluetoothEvent>) -> Seq<(String, String, bool)>
    decreases s.len(),
{
    if s.len() == 0 {
        Seq::empty()
    } else {
        let r = latest_statuses(s.drop_last());
        match s.last() {
            BluetoothEvent::EnumerationStatus { mac, message, is_error } => match status_slot(
                r,
                mac@,
                0,
            ) {
                Some(j) => r.update(j, (mac, message, is_error)),
                None => r.push((mac, message, is_error)),
            },
            _ => r,
        }
    }
}

/// The batch handed on for the Bluetooth events `s`: the log lines, the
/// latest enumeration statuses, then the latest devices.
pub open spec fn bluetooth_batch(s: Seq<BluetoothEvent>) -> Seq<BluetoothEvent> {
    bluetooth_logs(s).map_values(|t: String| BluetoothEvent::Log(t)) + latest_statuses(s).map_values(
        |e: (String, String, bool)|
            BluetoothEvent::EnumerationStatus { mac: e.0, message: e.1, is_error: e.2 },
    ) + latest_devices(s).map_values(|d: BluetoothDeviceRecord| BluetoothEvent::DeviceSeen(d))
}

fn find_device_slot(r: &Vec<BluetoothDeviceRecord>, mac: &str) -> (p: Option<usize>)
    ensures
        match p {
            Some(j) => device_slot(r@, mac@, 0) == Some(j as int) && j < r@.len(),
            None => device_slot(r@, mac@, 0) is None,
        },
{
    let mut j: usize = 0;
    while j < r.len()
        invariant
            j <= r@.len(),
            device_slot(r@, mac@, 0) == device_slot(r@, mac@, j as int),
        decreases r@.len() - j,
    {
        if str_eq(r[j].mac.as_str(), mac) {
            return Some(j);
        }
        j = j + 1;
    }
    None
}

fn find_status_slot(r: &Vec<(String, String, bool)>, mac: &str) -> (p: Option<usize>)
    ensures
        match p {
            Some(j) => status_slot(r@, mac@, 0) == Some(j as int) && j < r@.len(),
            None => status_slot(r@, mac@, 0) is None,
        },
{
    let mut j: usize = 0;
    while j < r.len()
        invariant
            j <= r@.len(),
            status_slot(r@, mac@, 0) == status_slot(r@, mac@, j as int),
        decreases r@.len() - j,
    {
        if str_eq(r[j].0.as_str(), mac) {
            return Some(j);
        }
        j = j + 1;
    }
    None
}

/// Coalesces a batch of Bluetooth events (see `bluetooth_batch`).
pub fn coalesce_bluetooth_events(events: Vec<BluetoothEvent>) -> (r: Vec<BluetoothEvent>)
    ensures
        r@ == bluetooth_batch(events@),
{
    let ghost all = events@;
    let mut src = events;
    let n = src.len();
    let mut logs: Vec<String> = Vec::new();
    let mut statuses: Vec<(String, String, bool)> = Vec::new();
    let mut devices: Vec<BluetoothDeviceRecord> = Vec::new();
    let mut i: usize = 0;
    while i < n
        invariant
            n == all.len(),
            i <= n,
            src@ == all.subrange(i as int, n as int),
            logs@ == bluetooth_logs(all.subrange(0, i as int)),
            statuses@ == latest_statuses(all.subrange(0, i as int)),
            devices@ == latest_devices(all.subrange(0, i as int)),
        decreases n - i,
    {
        let e = src.remove(0);
        assert(e == all[i as int]);
        assert(src@ =~= all.subrange(i + 1, n as int));
        proof {
            let pre = all.subrange(0, i + 1);
            assert(pre.drop_last() =~= all.subrange(0, i as int));
            assert(pre.last() == e);
        }
        match e {
            BluetoothEvent::Log(t) => logs.push(t),
            BluetoothEvent::EnumerationStatus { mac, message, is_error } => match find_status_slot(
                &statuses,
                mac.as_str(),
            ) {
                Some(j) => {
                    statuses.set(j, (mac, message, is_error));
                },
                None => statuses.push((mac, message, is_error)),
            },
            BluetoothEvent::DeviceSeen(d) => match find_device_slot(&devices, d.mac.as_str()) {
                Some(j) => {
                    devices.set(j, d);
                },
                None => devices.push(d),
            },
        }
        i = i + 1;
    }
    assert(all.subrange(0, n as int) =~= all);
    let mut out: Vec<BluetoothEvent> = Vec::new();
    let ghost part1 = logs@.map_values(|t: String| BluetoothEvent::Log(t));
    let ghost logs_all = logs@;
    let mut k: usize = 0;
    let count = logs.len();
    while k < count
        invariant
            count == logs_all.len(),
            part1 == logs_all.map_values(|t: String| BluetoothEvent::Log(t)),
            k + logs@.len() == logs_all.len(),
            logs@ == logs_all.subrange(k as int, logs_all.len() as int),
            out@ == part1.subrange(0, k as int),
        decreases count - k,
    {
        let t = logs.remove(0);
        out.push(BluetoothEvent::Log(t));
        k = k + 1;
        assert(out@ =~= part1.subrange(0, k as int));
        assert(logs@ =~= logs_all.subrange(k as int, logs_all.len() as int));
    }
    assert(out@ =~= part1);
    let ghost acc1 = out@;
    let ghost part2 = statuses@.map_values(
        |e: (String, String, bool)|
            BluetoothEvent::EnumerationStatus { mac: e.0, message: e.1, is_error: e.2 },
    );
    let ghost statuses_all = statuses@;
    k = 0;
    let count = statuses.len();
    while k < count
        invariant
            count == statuses_all.len(),
            part2 == statuses_all.map_values(
                |e: (String, String, bool)|
                    BluetoothEvent::EnumerationStatus { mac: e.0, message: e.1, is_error: e.2 },
            ),
            k + statuses@.len() == statuses_all.len(),
            statuses@ == statuses_all.subrange(k as int, statuses_all.len() as int),
            out@ == acc1 + part2.subrange(0, k as int),
        decreases count - k,
    {
        let (mac, message, is_error) = statuses.remove(0);
        out.push(BluetoothEvent::EnumerationStatus { mac, message, is_error });
        k = k + 1;
        assert(out@ =~= acc1 + part2.subrange(0, k as int));
        assert(statuses@ =~= statuses_all.subrange(k as int, statuses_all.len() as int));
    }
    assert(out@ =~= acc1 + part2);
    let ghost acc2 = out@;
    let ghost part3 = devices@.map_values(|d: BluetoothDeviceRecord| BluetoothEvent::DeviceSeen(d));
    let ghost devices_all = devices@;
    k = 0;
    let count = devices.len();
    while k < count
        invariant
            count == devices_all.len(),
            part3 == devices_all.map_values(|d: BluetoothDeviceRecord| BluetoothEvent::DeviceSeen(d)),
            k + devices@.len() == devices_all.len(),
            devices@ == devices_all.subrange(k as int, devices_all.len() as int),
            out@ == acc2 + part3.subrange(0, k as int),
        decreases count - k,
    {
        let d = devices.remove(0);
        out.push(BluetoothEvent::DeviceSeen(d));
        k = k + 1;
        assert(out@ =~= acc2 + part3.subrange(0, k as int));
        assert(devices@ =~= devices_all.subrange(k as int, devices_all.len() as int));
    }
    assert(out@ =~= acc2 + part3);
    assert(out@ =~= bluetooth_batch(all));
    out
}

/// Takes up to `limit` waiting Bluetooth events from `receiver`, stopping
/// at the first time none is waiting, and coalesces them (see
/// `bluetooth_batch`).
pub fn drain_bluetooth_events_batch(receiver: &Receiver<BluetoothEvent>, limit: usize) -> (r: Vec<BluetoothEvent>)
    ensures
        exists|got: Seq<BluetoothEvent>| got.len() <= limit && r@ == bluetooth_batch(got),
{
    let mut got: Vec<BluetoothEvent> = Vec::new();
    let mut i: usize = 0;
    while i < limit
        invariant
            i <= limit,
            got@.len() == i,
        decreases limit - i,
    {
        match try_receive(receiver) {
            Some(e) => got.push(e),
            None => break,
        }
        i = i + 1;
    }
    let ghost received = got@;
    let r = coalesce_bluetooth_events(got);
    assert(received.len() <= limit && r@ == bluetooth_batch(received));
    r
}

} // verus!
