//! Choosing what the Wi-Fi signal tracker ("geiger") follows: an access
//! point on its channel, or a client on the channel of the access point it
//! is associated with, listened to on the active Wi-Fi interface.

use vstd::prelude::*;
use crate::records::{AccessPointRecord, ClientRecord};
use crate::settings::{InterfaceSettings, find_enabled, lemma_first_enabled};
use crate::status::shown_interface;
use crate::text::{decimal, push_str, push_decimal, string_from_chars, str_eq};

verus! {

/// What the tracker follows: the device it reports on, the name shown and
/// the channel to listen on.
pub struct WifiGeigerTarget {
    pub track_id: String,
    pub display_name: String,
    pub channel: u16,
}

pub ghost struct TargetView {
    pub track_id: Seq<char>,
    pub display_name: Seq<char>,
    pub channel: u16,
}

impl View for WifiGeigerTarget {
    type V = TargetView;

    open spec fn view(&self) -> TargetView {
        TargetView { track_id: self.track_id@, display_name: self.display_name@, channel: self.channel }
    }
}

pub open spec fn opt_target_view(o: Option<WifiGeigerTarget>) -> Option<TargetView> {
    match o {
        Some(t) => Some(t@),
        None => None,
    }
}

/// Tracking an access point: on its channel, when known.
pub open spec fn ap_target(ap: AccessPointRecord) -> Option<TargetView> {
    match ap.channel {
        Some(ch) => Some(
            TargetView {
                track_id: ap.bssid@,
                display_name: (match ap.ssid {
                    Some(s) => s@,
                    None => "<hidden>"@,
                }) + " ("@ + ap.bssid@ + ")"@,
                channel: ch,
            },
        ),
        None => None,
    }
}

pub fn wifi_geiger_target_for_ap(ap: &AccessPointRecord) -> (r: Option<WifiGeigerTarget>)
    ensures
        opt_target_view(r) == ap_target(*ap),
{
    let channel = match ap.channel {
        Some(ch) => ch,
        None => {
            return None;
        },
    };
    let mut name: Vec<char> = Vec::new();
    match &ap.ssid {
        Some(s) => push_str(&mut name, s.as_str()),
        None => push_str(&mut name, "<hidden>"),
    }
    push_str(&mut name, " (");
    push_str(&mut name, ap.bssid.as_str());
    push_str(&mut name, ")");
    let t = WifiGeigerTarget {
        track_id: ap.bssid.clone(),
        display_name: string_from_chars(name.as_slice()),
        channel,
    };
    assert(t@.display_name =~= ap_target(*ap).unwrap().display_name);
    Some(t)
}

/// The first access point whose BSSID is exactly `bssid`.
pub open spec fn first_exact(aps: Seq<AccessPointRecord>, bssid: Seq<char>, from: int) -> Option<int>
    decreases aps.len() - from,
{
    if from < 0 || from >= aps.len() {
        None
    } else if aps[from].bssid@ == bssid {
        Some(from)
    } else {
        first_exact(aps, bssid, from + 1)
    }
}

/// Tracking a client: on the channel of the access point it is associated
/// with, when that access point and its channel are known.
pub open spec fn client_target(aps: Seq<AccessPointRecord>, c: ClientRecord) -> Option<TargetView> {
    match c.associated_ap {
        Some(b) => match first_exact(aps, b@, 0) {
            Some(k) => match aps[k].channel {
                Some(ch) => Some(
                    TargetView {
                        track_id: c.mac@,
                        display_name: c.mac@ + " via "@ + match aps[k].ssid {
                            Some(s) => s@,
                            None => aps[k].bssid@,
                        },
                        channel: ch,
                    },
                ),
                None => None,
            },
            None => None,
        },
        None => None,
    }
}

pub fn wifi_geiger_target_for_client(aps: &Vec<AccessPointRecord>, client: &ClientRecord) -> (r: Option<WifiGeigerTarget>)
    ensures
        opt_target_view(r) == client_target(aps@, *client),
{
    let bssid = match &client.associated_ap {
        Some(b) => b,
        None => {
            return None;
        },
    };
    let mut k: usize = 0;
    while k < aps.len()
        invariant
            k <= aps@.len(),
            first_exact(aps@, bssid@, 0) == first_exact(aps@, bssid@, k as int),
        ensures
            k <= aps@.len(),
            first_exact(aps@, bssid@, 0) == if k == aps@.len() {
                None
            } else {
                Some(k as int)
            },
        decreases aps@.len() - k,
    {
        if str_eq(aps[k].bssid.as_str(), bssid.as_str()) {
            break;
        }
        k = k + 1;
    }
    if k == aps.len() {
        return None;
    }
    let ap = &aps[k];
    let channel = match ap.channel {
        Some(ch) => ch,
        None => {
            return None;
        },
    };
    let mut name: Vec<char> = Vec::new();
    push_str(&mut name, client.mac.as_str());
    push_str(&mut name, " via ");
    match &ap.ssid {
        Some(s) => push_str(&mut name, s.as_str()),
        None => push_str(&mut name, ap.bssid.as_str()),
    }
    let t = WifiGeigerTarget {
        track_id: client.mac.clone(),
        display_name: string_from_chars(name.as_slice()),
        channel,
    };
    assert(t@.display_name =~= client_target(aps@, *client).unwrap().display_name);
    Some(t)
}

/// The interface captures run on: the monitor interface of the first
/// enabled interface, else its name.
pub fn active_wifi_interface_name(interfaces: &Vec<InterfaceSettings>) -> (r: Option<String>)
    ensures
        match r {
            Some(n) => shown_interface(interfaces@) == Some(n@),
            None => shown_interface(interfaces@) is None,
        },
{
    match find_enabled(interfaces.as_slice()) {
        Some(k) => {
            proof {
                lemma_first_enabled(interfaces@);
            }
            match &interfaces[k].monitor_interface_name {
                Some(m) => Some(m.clone()),
                None => Some(interfaces[k].interface_name.clone()),
            }
        },
        None => None,
    }
}

/// What asking to track a device leads to.
pub enum GeigerPlan {
    /// Not possible; the status line says why.
    Refused(String),
    /// Track `target` on `interface`, announcing it with `message`.
    Track { target: WifiGeigerTarget, interface: String, message: String },
}

pub ghost enum GeigerPlanView {
    Refused(Seq<char>),
    Track { target: TargetView, interface: Seq<char>, message: Seq<char> },
}

impl View for GeigerPlan {
    type V = GeigerPlanView;

    open spec fn view(&self) -> GeigerPlanView {
        match self {
            GeigerPlan::Refused(m) => GeigerPlanView::Refused(m@),
            GeigerPlan::Track { target, interface, message } => GeigerPlanView::Track {
                target: target@,
                interface: interface@,
                message: message@,
            },
        }
    }
}

/// Tracking `target` (if there is one; `missing` says why not) on the
/// active interface of `ifaces`.
pub open spec fn geiger_plan(target: Option<TargetView>, missing: Seq<char>, ifaces: Seq<InterfaceSettings>) -> GeigerPlanView {
    match target {
        None => GeigerPlanView::Refused(missing),
        Some(t) => match shown_interface(ifaces) {
            None => GeigerPlanView::Refused("no active Wi-Fi interface available for RSSI geiger tracking"@),
            Some(i) => GeigerPlanView::Track {
                target: t,
                interface: i,
                message: "wifi geiger tracking "@ + t.display_name + " on "@ + i + " channel "@ + decimal(
                    t.channel as nat,
                ),
            },
        },
    }
}

fn plan_for(target: Option<WifiGeigerTarget>, missing: &str, interfaces: &Vec<InterfaceSettings>) -> (r: GeigerPlan)
    ensures
        r@ == geiger_plan(opt_target_view(target), missing@, interfaces@),
{
    let t = match target {
        Some(t) => t,
        None => {
            return GeigerPlan::Refused(missing.to_string());
        },
    };
    let interface = match active_wifi_interface_name(interfaces) {
        Some(i) => i,
        None => {
            return GeigerPlan::Refused(
                String::from_str("no active Wi-Fi interface available for RSSI geiger tracking"),
            );
        },
    };
    let mut msg: Vec<char> = Vec::new();
    push_str(&mut msg, "wifi geiger tracking ");
    push_str(&mut msg, t.display_name.as_str());
    push_str(&mut msg, " on ");
    push_str(&mut msg, interface.as_str());
    push_str(&mut msg, " channel ");
    push_decimal(&mut msg, t.channel as u64);
    let message = string_from_chars(msg.as_slice());
    assert(message@ =~= "wifi geiger tracking "@ + t@.display_name + " on "@ + interface@ + " channel "@
        + decimal(t.channel as nat));
    GeigerPlan::Track { target: t, interface, message }
}

/// Asking to track access point `ap`.
pub fn plan_wifi_geiger_for_ap(ap: &AccessPointRecord, interfaces: &Vec<InterfaceSettings>) -> (r: GeigerPlan)
    ensures
        r@ == geiger_plan(
            ap_target(*ap),
            "selected AP has no known channel for RSSI geiger tracking"@,
            interfaces@,
        ),
{
    proof {
        reveal_strlit("selected AP has no known channel for RSSI geiger tracking");
    }
    plan_for(
        wifi_geiger_target_for_ap(ap),
        "selected AP has no known channel for RSSI geiger tracking",
        interfaces,
    )
}

/// Asking to track `client`; `aps` are the known access points.
pub fn plan_wifi_geiger_for_client(
    client: &ClientRecord,
    aps: &Vec<AccessPointRecord>,
    interfaces: &Vec<InterfaceSettings>,
) -> (r: GeigerPlan)
    ensures
        r@ == geiger_plan(
            client_target(aps@, *client),
            "selected client has no associated AP with a known channel for RSSI geiger tracking"@,
            interfaces@,
        ),
{
    proof {
        reveal_strlit("selected client has no associated AP with a known channel for RSSI geiger tracking");
    }
    plan_for(
        wifi_geiger_target_for_client(aps, client),
        "selected client has no associated AP with a known channel for RSSI geiger tracking",
        interfaces,
    )
}

} // verus!
