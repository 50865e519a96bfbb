//! The detail view of an access point.

use vstd::prelude::*;
use crate::cells::LocationCells;
use crate::channels::band_label;
use crate::display::{
    bool_word, shown_dbm, uptime_text, hidden_ssid, security_breakdown, time_text, rssi_samples,
    rounded_mean, sum_levels, min_level, max_level, rssi_stats, display_dbm, bool_text,
    ap_hidden_ssid, ap_security_breakdown, format_timestamp, format_beacon_uptime, push_or,
};
use crate::records::{AccessPointRecord, WpsInfo};
use crate::text::{push_str, push_all, push_decimal, decimal, string_from_chars};

verus! {

/// What the detail views show for fields that are not captured.
pub open spec fn not_captured() -> Seq<char> {
    "Not captured yet"@
}

pub open spec fn or_word(o: Option<String>, word: Seq<char>) -> Seq<char> {
    match o {
        Some(s) => s@,
        None => word,
    }
}

/// The WPS block of an access point's detail view.
pub open spec fn ap_wps_block(w: Option<WpsInfo>) -> Seq<char> {
    match w {
        Some(i) => "Present\n  Version: "@ + or_word(i.version, "Unknown"@) + "\n  State: "@
            + or_word(i.state, "Unknown"@) + "\n  Config Methods: "@ + or_word(
            i.config_methods,
            "Unknown"@,
        ) + "\n  Manufacturer: "@ + or_word(i.manufacturer, "Unknown"@) + "\n  Model Name: "@
            + or_word(i.model_name, "Unknown"@) + "\n  Model Number: "@ + or_word(
            i.model_number,
            "Unknown"@,
        ) + "\n  Serial Number: "@ + or_word(i.serial_number, "Unknown"@),
        None => "Not observed"@,
    }
}

/// The identity section.
#[verifier::opaque]
pub open spec fn ap_identity_section(ap: AccessPointRecord) -> Seq<char> {
    "Identity\nSSID: "@ + or_word(ap.ssid, "<hidden>"@) + "\nHidden SSID: "@ + bool_word(
        hidden_ssid(ap),
    ) + "\nBSSID: "@ + ap.bssid@ + "\nOUI: "@ + or_word(ap.oui_manufacturer, "Unknown"@)
        + "\n802.11d Country: "@ + or_word(ap.country_code_80211d, "Unknown"@)
}

/// The security section.
#[verifier::opaque]
pub open spec fn ap_security_section(ap: AccessPointRecord) -> Seq<char> {
    let (akm, cipher, pmf) = security_breakdown(ap.encryption_full@);
    "\n\nSecurity\nEncryption: "@ + ap.encryption_short@ + "\nFull Encryption: "@
        + ap.encryption_full@ + "\nAKM Suites: "@ + akm + "\nCipher Suites: "@ + cipher
        + "\nPMF: "@ + pmf + "\nWPS:\n"@ + ap_wps_block(ap.wps)
        + "\nHandshake Count (WPA2 4-way full): "@ + decimal(ap.handshake_count as nat)
        + "\nPMKID Count: "@ + not_captured()
}

/// The radio fields that are not captured, in the order shown.
pub open spec fn uncaptured_radio_lines() -> Seq<char> {
    "\nSecondary Channel: Not captured yet\nChannel Width: Not captured yet\nCenter Segment 0: Not captured yet\nCenter Segment 1: Not captured yet\nPHY Generation: Not captured yet\nHT/VHT/HE/EHT Summary: Not captured yet\nSupported Rates: Not captured yet\nBasic Rates: Not captured yet\nWMM / QoS: Not captured yet\n802.11k: Not captured yet\n802.11v: Not captured yet\n802.11r: Not captured yet\nDFS / TPC: Not captured yet\nChannel Switch Announcement: Not captured yet\nMulti-BSSID: Not captured yet\nRNR / Neighbor Report: Not captured yet\n802.11u / Hotspot 2.0: Not captured yet\nVendor IEs: Not captured yet"@
}

/// The radio section.
#[verifier::opaque]
pub open spec fn ap_radio_section(ap: AccessPointRecord) -> Seq<char> {
    "\n\nRadio\nBand: "@ + band_label(ap.band) + "\nPrimary Channel: "@ + (match ap.channel {
        Some(c) => decimal(c as nat),
        None => "Unknown"@,
    }) + "\nFrequency: "@ + (match ap.frequency_mhz {
        Some(f) => decimal(f as nat),
        None => "Unknown"@,
    }) + " MHz"@ + uncaptured_radio_lines()
}

/// The presence section; `loc` holds the location lines.
#[verifier::opaque]
pub open spec fn ap_presence_section(ap: AccessPointRecord, loc: LocationCells) -> Seq<char> {
    let s = rssi_samples(ap.observations@, ap.rssi_dbm);
    let (avg, lo, hi) = if s.len() == 0 {
        (None::<i32>, None::<i32>, None::<i32>)
    } else {
        (
            Some(rounded_mean(sum_levels(s), s.len() as int) as i32),
            Some(min_level(s)),
            Some(max_level(s)),
        )
    };
    "\n\nPresence\nCurrent RSSI: "@ + shown_dbm(ap.rssi_dbm) + "\nAverage RSSI: "@ + shown_dbm(avg)
        + "\nMinimum RSSI: "@ + shown_dbm(lo) + "\nMaximum RSSI: "@ + shown_dbm(hi)
        + "\nRSSI Samples: "@ + decimal(s.len()) + "\nClients: "@ + decimal(
        ap.number_of_clients as nat,
    ) + "\nFirst Seen: "@ + time_text(ap.first_seen) + "\nLast Seen: "@ + time_text(ap.last_seen)
        + "\nObservation Count: "@ + decimal(ap.observations@.len()) + "\nFirst Location: "@
        + loc.first@ + "\nLast Location: "@ + loc.last@ + "\nStrongest Location: "@
        + loc.strongest@ + "\nUptime (beacon estimate): "@ + uptime_text(ap.uptime_beacons)
        + "\nBeacon Interval: Not captured yet\nDTIM Period: Not captured yet"@
}

/// The analytics and notes sections.
#[verifier::opaque]
pub open spec fn ap_analytics_section(ap: AccessPointRecord) -> Seq<char> {
    let m = ap.packet_mix;
    "\n\nAnalytics\nPacket Totals: total="@ + decimal(m.total_value() as nat) + " mgmt="@
        + decimal(m.management as nat) + " control="@ + decimal(m.control as nat) + " data="@
        + decimal(m.data as nat) + " other="@ + decimal(m.other as nat)
        + "\nBSS Load: Not captured yet\nObserved Data Rates: Not captured yet\nRetry Rate: Not captured yet\n\nNotes\n"@
        + or_word(ap.notes, "None"@)
}

/// The detail view of an access point: identity, security, radio, presence,
/// analytics and notes. `loc` holds the first, last and strongest location
/// lines, which are computed in floating point.
pub open spec fn ap_detail_text(ap: AccessPointRecord, loc: LocationCells) -> Seq<char> {
    ap_identity_section(ap) + ap_security_section(ap) + ap_radio_section(ap) + ap_presence_section(
        ap,
        loc,
    ) + ap_analytics_section(ap)
}

fn push_identity(out: &mut Vec<char>, ap: &AccessPointRecord)
    ensures
        final(out)@ == old(out)@ + ap_identity_section(*ap),
{
    let mut s: Vec<char> = Vec::new();
    push_str(&mut s, "Identity\nSSID: ");
    push_or(&mut s, &ap.ssid, "<hidden>");
    push_str(&mut s, "\nHidden SSID: ");
    push_str(&mut s, bool_text(ap_hidden_ssid(ap)).as_str());
    push_str(&mut s, "\nBSSID: ");
    push_str(&mut s, ap.bssid.as_str());
    push_str(&mut s, "\nOUI: ");
    push_or(&mut s, &ap.oui_manufacturer, "Unknown");
    push_str(&mut s, "\n802.11d Country: ");
    push_or(&mut s, &ap.country_code_80211d, "Unknown");
    proof {
        reveal(ap_identity_section);
    }
    assert(s@ =~= ap_identity_section(*ap));
    push_all(out, s.as_slice());
}

fn push_wps_block(out: &mut Vec<char>, w: &Option<WpsInfo>)
    ensures
        final(out)@ == old(out)@ + ap_wps_block(*w),
{
    match w {
        None => push_str(out, "Not observed"),
        Some(i) => {
            let mut s: Vec<char> = Vec::new();
            push_str(&mut s, "Present\n  Version: ");
            push_or(&mut s, &i.version, "Unknown");
            push_str(&mut s, "\n  State: ");
            push_or(&mut s, &i.state, "Unknown");
            push_str(&mut s, "\n  Config Methods: ");
            push_or(&mut s, &i.config_methods, "Unknown");
            push_str(&mut s, "\n  Manufacturer: ");
            push_or(&mut s, &i.manufacturer, "Unknown");
            push_str(&mut s, "\n  Model Name: ");
            push_or(&mut s, &i.model_name, "Unknown");
            push_str(&mut s, "\n  Model Number: ");
            push_or(&mut s, &i.model_number, "Unknown");
            push_str(&mut s, "\n  Serial Number: ");
            push_or(&mut s, &i.serial_number, "Unknown");
            assert(s@ =~= ap_wps_block(*w));
            push_all(out, s.as_slice());
        },
    }
}

#[verifier::rlimit(40)]
fn push_security(out: &mut Vec<char>, ap: &AccessPointRecord)
    ensures
        final(out)@ == old(out)@ + ap_security_section(*ap),
{
    let (akm, cipher, pmf) = ap_security_breakdown(ap);
    let mut s: Vec<char> = Vec::new();
    push_str(&mut s, "\n\nSecurity\nEncryption: ");
    push_str(&mut s, ap.encryption_short.as_str());
    push_str(&mut s, "\nFull Encryption: ");
    push_str(&mut s, ap.encryption_full.as_str());
    push_str(&mut s, "\nAKM Suites: ");
    push_str(&mut s, akm.as_str());
    push_str(&mut s, "\nCipher Suites: ");
    push_str(&mut s, cipher.as_str());
    push_str(&mut s, "\nPMF: ");
    push_str(&mut s, pmf.as_str());
    push_str(&mut s, "\nWPS:\n");
    push_wps_block(&mut s, &ap.wps);
    push_str(&mut s, "\nHandshake Count (WPA2 4-way full): ");
    push_decimal(&mut s, ap.handshake_count as u64);
    push_str(&mut s, "\nPMKID Count: ");
    push_str(&mut s, "Not captured yet");
    proof {
        reveal(ap_security_section);
    }
    assert(s@ =~= ap_security_section(*ap));
    push_all(out, s.as_slice());
}

fn push_radio(out: &mut Vec<char>, ap: &AccessPointRecord)
    ensures
        final(out)@ == old(out)@ + ap_radio_section(*ap),
{
    let mut s: Vec<char> = Vec::new();
    push_str(&mut s, "\n\nRadio\nBand: ");
    push_str(&mut s, ap.band.label());
    push_str(&mut s, "\nPrimary Channel: ");
    match ap.channel {
        Some(c) => push_decimal(&mut s, c as u64),
        None => push_str(&mut s, "Unknown"),
    }
    push_str(&mut s, "\nFrequency: ");
    match ap.frequency_mhz {
        Some(f) => push_decimal(&mut s, f as u64),
        None => push_str(&mut s, "Unknown"),
    }
    push_str(&mut s, " MHz");
    push_str(
        &mut s,
        "\nSecondary Channel: Not captured yet\nChannel Width: Not captured yet\nCenter Segment 0: Not captured yet\nCenter Segment 1: Not captured yet\nPHY Generation: Not captured yet\nHT/VHT/HE/EHT Summary: Not captured yet\nSupported Rates: Not captured yet\nBasic Rates: Not captured yet\nWMM / QoS: Not captured yet\n802.11k: Not captured yet\n802.11v: Not captured yet\n802.11r: Not captured yet\nDFS / TPC: Not captured yet\nChannel Switch Announcement: Not captured yet\nMulti-BSSID: Not captured yet\nRNR / Neighbor Report: Not captured yet\n802.11u / Hotspot 2.0: Not captured yet\nVendor IEs: Not captured yet",
    );
    proof {
        reveal(ap_radio_section);
    }
    assert(s@ =~= ap_radio_section(*ap));
    push_all(out, s.as_slice());
}

#[verifier::rlimit(60)]
fn push_presence(out: &mut Vec<char>, ap: &AccessPointRecord, loc: &LocationCells)
    ensures
        final(out)@ == old(out)@ + ap_presence_section(*ap, *loc),
{
    let (avg, lo, hi, n) = rssi_stats(ap.observations.as_slice(), ap.rssi_dbm);
    let mut s: Vec<char> = Vec::new();
    push_str(&mut s, "\n\nPresence\nCurrent RSSI: ");
    push_str(&mut s, display_dbm(ap.rssi_dbm).as_str());
    push_str(&mut s, "\nAverage RSSI: ");
    push_str(&mut s, display_dbm(avg).as_str());
    push_str(&mut s, "\nMinimum RSSI: ");
    push_str(&mut s, display_dbm(lo).as_str());
    push_str(&mut s, "\nMaximum RSSI: ");
    push_str(&mut s, display_dbm(hi).as_str());
    push_str(&mut s, "\nRSSI Samples: ");
    push_decimal(&mut s, n as u64);
    push_str(&mut s, "\nClients: ");
    push_decimal(&mut s, ap.number_of_clients as u64);
    push_str(&mut s, "\nFirst Seen: ");
    push_str(&mut s, format_timestamp(ap.first_seen).as_str());
    push_str(&mut s, "\nLast Seen: ");
    push_str(&mut s, format_timestamp(ap.last_seen).as_str());
    push_str(&mut s, "\nObservation Count: ");
    push_decimal(&mut s, ap.observations.len() as u64);
    push_str(&mut s, "\nFirst Location: ");
    push_str(&mut s, loc.first.as_str());
    push_str(&mut s, "\nLast Location: ");
    push_str(&mut s, loc.last.as_str());
    push_str(&mut s, "\nStrongest Location: ");
    push_str(&mut s, loc.strongest.as_str());
    push_str(&mut s, "\nUptime (beacon estimate): ");
    push_str(&mut s, format_beacon_uptime(ap.uptime_beacons).as_str());
    push_str(&mut s, "\nBeacon Interval: Not captured yet\nDTIM Period: Not captured yet");
    proof {
        reveal(ap_presence_section);
    }
    assert(s@ =~= ap_presence_section(*ap, *loc));
    push_all(out, s.as_slice());
}

fn push_analytics(out: &mut Vec<char>, ap: &AccessPointRecord)
    ensures
        final(out)@ == old(out)@ + ap_analytics_section(*ap),
{
    let m = ap.packet_mix;
    let mut s: Vec<char> = Vec::new();
    push_str(&mut s, "\n\nAnalytics\nPacket Totals: total=");
    push_decimal(&mut s, m.total());
    push_str(&mut s, " mgmt=");
    push_decimal(&mut s, m.management);
    push_str(&mut s, " control=");
    push_decimal(&mut s, m.control);
    push_str(&mut s, " data=");
    push_decimal(&mut s, m.data);
    push_str(&mut s, " other=");
    push_decimal(&mut s, m.other);
    push_str(
        &mut s,
        "\nBSS Load: Not captured yet\nObserved Data Rates: Not captured yet\nRetry Rate: Not captured yet\n\nNotes\n",
    );
    push_or(&mut s, &ap.notes, "None");
    proof {
        reveal(ap_analytics_section);
    }
    assert(s@ =~= ap_analytics_section(*ap));
    push_all(out, s.as_slice());
}

/// The detail view of access point `ap` (see `ap_detail_text`).
pub fn format_ap_detail_text(ap: &AccessPointRecord, locations: &LocationCells) -> (r: String)
    ensures
        r@ == ap_detail_text(*ap, *locations),
{
    let mut out: Vec<char> = Vec::new();
    push_identity(&mut out, ap);
    push_security(&mut out, ap);
    push_radio(&mut out, ap);
    push_presence(&mut out, ap, locations);
    push_analytics(&mut out, ap);
    assert(out@ =~= ap_detail_text(*ap, *locations));
    string_from_chars(out.as_slice())
}

} // verus!
