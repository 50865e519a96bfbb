//! Texts shown for device records: durations, frame types, signal levels,
//! security summaries, enumeration outcomes, and the signatures that tell
//! whether a detail view must be redrawn.

use vstd::prelude::*;
use crate::channels::{SpectrumBand, band_label};
use crate::settings::{ChannelModeView, ChannelSelectionMode, table_view};
use crate::web_state::{BtEnumerationStatus, upsert};
use crate::watchlist::{associated_ssid, associated_ssid_for_client};
use crate::records::{first_key, lemma_first_key, ClientEndpointRecord, ClientNetworkIntel, WpsInfo, 
    AccessPointRecord, BluetoothDeviceRecord, ClientRecord, GeoObservation,
};
use crate::text::{
    push_str, push_decimal, push_decimal_i64, decimal, decimal_int, string_from_chars, str_chars,
    str_eq, is_alnum, is_hex_digit, join, string_seqs, trim, has_prefix, occurs_at, occurs_at_exec,
};

verus! {

pub open spec fn bool_word(value: bool) -> Seq<char> {
    if value {
        "True"@
    } else {
        "False"@
    }
}

pub fn bool_text(value: bool) -> (r: String)
    ensures
        r@ == bool_word(value),
{
    if value {
        String::from_str("True")
    } else {
        String::from_str("False")
    }
}

/// `<value> dBm`, or nothing when unknown.
pub open spec fn dbm_text(value: Option<i32>) -> Seq<char> {
    match value {
        Some(v) => decimal_int(v as int) + " dBm"@,
        None => Seq::empty(),
    }
}

pub fn format_dbm(value: Option<i32>) -> (r: String)
    ensures
        r@ == dbm_text(value),
{
    let mut out: Vec<char> = Vec::new();
    if let Some(v) = value {
        push_decimal_i64(&mut out, v as i64);
        push_str(&mut out, " dBm");
    }
    string_from_chars(out.as_slice())
}

/// `format_dbm`, or "Unknown" when the level is unknown.
pub fn display_dbm(value: Option<i32>) -> (r: String)
    ensures
        r@ == match value {
            Some(v) => dbm_text(value),
            None => "Unknown"@,
        },
{
    let text = format_dbm(value);
    if text.as_str().is_empty() {
        proof {
            if let Some(v) = value {
                assert(dbm_text(value).len() > 0);
            }
        }
        String::from_str("Unknown")
    } else {
        text
    }
}

/// A number below 100 with at least two digits.
pub open spec fn two_digits(n: nat) -> Seq<char> {
    if n < 10 {
        seq!['0'] + decimal(n)
    } else {
        decimal(n)
    }
}

fn push_two_digits(out: &mut Vec<char>, n: u64)
    requires
        n < 100,
    ensures
        final(out)@ == old(out)@ + two_digits(n as nat),
{
    if n < 10 {
        out.push('0');
        let ghost mid = out@;
        push_decimal(out, n);
        assert(final(out)@ =~= old(out)@ + two_digits(n as nat));
    } else {
        push_decimal(out, n);
    }
}

/// An uptime in seconds as `<days>d HH:MM:SS`, or "Unknown".
pub open spec fn uptime_text(uptime_seconds: Option<u64>) -> Seq<char> {
    match uptime_seconds {
        Some(t) => decimal((t / 86_400) as nat) + "d "@ + two_digits(((t % 86_400) / 3_600) as nat)
            + ":"@ + two_digits(((t % 3_600) / 60) as nat) + ":"@ + two_digits((t % 60) as nat),
        None => "Unknown"@,
    }
}

pub fn format_beacon_uptime(uptime_seconds: Option<u64>) -> (r: String)
    ensures
        r@ == uptime_text(uptime_seconds),
{
    match uptime_seconds {
        None => String::from_str("Unknown"),
        Some(total) => {
            let mut out: Vec<char> = Vec::new();
            push_decimal(&mut out, total / 86_400);
            push_str(&mut out, "d ");
            push_two_digits(&mut out, (total % 86_400) / 3_600);
            push_str(&mut out, ":");
            push_two_digits(&mut out, (total % 3_600) / 60);
            push_str(&mut out, ":");
            push_two_digits(&mut out, total % 60);
            string_from_chars(out.as_slice())
        },
    }
}

/// The value of a hex digit.
pub open spec fn hex_value(c: char) -> nat {
    if 48 <= (c as u32) <= 57 {
        ((c as u32) - 48) as nat
    } else if 65 <= (c as u32) <= 70 {
        ((c as u32) - 55) as nat
    } else {
        ((c as u32) - 87) as nat
    }
}

/// The value of a run of hex digits.
pub open spec fn hex_digits_value(s: Seq<char>) -> nat
    decreases s.len(),
{
    if s.len() == 0 {
        0
    } else {
        hex_digits_value(s.drop_last()) * 16 + hex_value(s.last())
    }
}

pub open spec fn all_hex(s: Seq<char>) -> bool {
    forall|i: int| 0 <= i < s.len() ==> is_hex_digit(#[trigger] s[i])
}

/// `u8::from_str_radix(s, 16)`: an optional `+`, then one or more hex
/// digits worth at most 255.
pub open spec fn parse_hex_u8(s: Seq<char>) -> Option<u8> {
    let d = if s.len() > 0 && s[0] == '+' {
        s.drop_first()
    } else {
        s
    };
    if d.len() > 0 && all_hex(d) && hex_digits_value(d) <= 255 {
        Some(hex_digits_value(d) as u8)
    } else {
        None
    }
}

/// The text before the first `:` (all of it when there is none).
pub open spec fn first_field(s: Seq<char>) -> Seq<char>
    decreases s.len(),
{
    if s.len() == 0 {
        s
    } else if s[0] == ':' {
        Seq::empty()
    } else {
        seq![s[0]] + first_field(s.drop_first())
    }
}

/// The MAC address is locally administered (its first octet has bit 1
/// set), as randomised addresses are.
pub open spec fn randomized(mac: Seq<char>) -> bool {
    match parse_hex_u8(first_field(mac)) {
        Some(v) => (v / 2) % 2 == 1,
        None => false,
    }
}

proof fn lemma_first_field_prefix(s: Seq<char>, i: int)
    requires
        0 <= i <= s.len(),
        forall|j: int| 0 <= j < i ==> s[j] != ':',
        i == s.len() || s[i] == ':',
    ensures
        first_field(s) == s.subrange(0, i),
    decreases s.len(),
{
    if s.len() > 0 && s[0] != ':' {
        lemma_first_field_prefix(s.drop_first(), i - 1);
        assert(seq![s[0]] + s.drop_first().subrange(0, i - 1) =~= s.subrange(0, i));
    } else if s.len() > 0 {
        assert(s.subrange(0, i) =~= Seq::<char>::empty());
    } else {
        assert(s.subrange(0, i) =~= s);
    }
}

pub(crate) fn hex_digit_value(c: char) -> (r: u64)
    requires
        is_hex_digit(c),
    ensures
        r == hex_value(c),
        r < 16,
{
    let u = c as u32;
    if 48 <= u && u <= 57 {
        (u - 48) as u64
    } else if 65 <= u && u <= 70 {
        (u - 55) as u64
    } else {
        (u - 87) as u64
    }
}

pub fn is_randomized_mac(mac: &str) -> (r: bool)
    ensures
        r == randomized(mac@),
{
    let chars = str_chars(mac);
    let mut end: usize = 0;
    while end < chars.len() && chars[end] != ':'
        invariant
            end <= chars@.len(),
            forall|j: int| 0 <= j < end ==> chars@[j] != ':',
        decreases chars@.len() - end,
    {
        end = end + 1;
    }
    proof {
        lemma_first_field_prefix(chars@, end as int);
    }
    let ghost field = chars@.subrange(0, end as int);
    let mut start: usize = 0;
    if end > 0 && chars[0] == '+' {
        start = 1;
    }
    let ghost d = if field.len() > 0 && field[0] == '+' {
        field.drop_first()
    } else {
        field
    };
    assert(d =~= chars@.subrange(start as int, end as int));
    if start == end {
        return false;
    }
    let mut value: u64 = 0;
    let mut k: usize = start;
    while k < end
        invariant
            start <= k <= end <= chars@.len(),
            d == chars@.subrange(start as int, end as int),
            chars@ == mac@,
            field == first_field(mac@),
            d == (if field.len() > 0 && field[0] == '+' {
                field.drop_first()
            } else {
                field
            }),
            d.len() > 0,
            all_hex(chars@.subrange(start as int, k as int)),
            value == hex_digits_value(chars@.subrange(start as int, k as int)),
            value <= 255,
        decreases end - k,
    {
        let c = chars[k];
        let u = c as u32;
        if !((48 <= u && u <= 57) || (65 <= u && u <= 70) || (97 <= u && u <= 102)) {
            assert(!all_hex(d)) by {
                assert(d[k - start] == c);
            }
            return false;
        }
        let dv = hex_digit_value(c);
        let next = value * 16 + dv;
        proof {
            let pre = chars@.subrange(start as int, k + 1);
            assert(pre.drop_last() =~= chars@.subrange(start as int, k as int));
            assert(pre.last() == c);
        }
        if next > 255 {
            proof {
                lemma_hex_prefix_bound(d, (k + 1 - start) as int);
                assert(chars@.subrange(start as int, k + 1) =~= d.subrange(0, k + 1 - start));
            }
            return false;
        }
        value = next;
        k = k + 1;
    }
    (value / 2) % 2 == 1
}

/// A hex number is at least as large as any of its prefixes.
proof fn lemma_hex_prefix_bound(s: Seq<char>, i: int)
    requires
        0 <= i <= s.len(),
    ensures
        hex_digits_value(s.subrange(0, i)) <= hex_digits_value(s),
    decreases s.len(),
{
    if i < s.len() {
        lemma_hex_prefix_bound(s.drop_last(), i);
        assert(s.drop_last().subrange(0, i) =~= s.subrange(0, i));
    } else {
        assert(s.subrange(0, i) =~= s);
    }
}

/// The name of an 802.11 frame type and subtype.
pub open spec fn frame_name(fc_type: Option<u8>, subtype: Option<u8>) -> Seq<char> {
    match (fc_type, subtype) {
        (Some(t), Some(s)) => if t == 0 && s == 4 {
            "Probe Request"@
        } else if t == 0 && s == 5 {
            "Probe Response"@
        } else if t == 0 && s == 8 {
            "Beacon"@
        } else if t == 0 && s == 10 {
            "Disassociation"@
        } else if t == 0 && s == 11 {
            "Authentication"@
        } else if t == 0 && s == 12 {
            "Deauthentication"@
        } else if t == 0 && s == 0 {
            "Association Request"@
        } else if t == 0 && s == 1 {
            "Association Response"@
        } else if t == 2 && s == 0 {
            "Data"@
        } else if t == 2 && s == 8 {
            "QoS Data"@
        } else if t == 1 && s == 13 {
            "ACK"@
        } else {
            "Type "@ + decimal(t as nat) + " / Subtype "@ + decimal(s as nat)
        },
        _ => "Unknown"@,
    }
}

pub fn format_frame_subtype(fc_type: Option<u8>, subtype: Option<u8>) -> (r: String)
    ensures
        r@ == frame_name(fc_type, subtype),
{
    match (fc_type, subtype) {
        (Some(t), Some(s)) => {
            if t == 0 && s == 4 {
                String::from_str("Probe Request")
            } else if t == 0 && s == 5 {
                String::from_str("Probe Response")
            } else if t == 0 && s == 8 {
                String::from_str("Beacon")
            } else if t == 0 && s == 10 {
                String::from_str("Disassociation")
            } else if t == 0 && s == 11 {
                String::from_str("Authentication")
            } else if t == 0 && s == 12 {
                String::from_str("Deauthentication")
            } else if t == 0 && s == 0 {
                String::from_str("Association Request")
            } else if t == 0 && s == 1 {
                String::from_str("Association Response")
            } else if t == 2 && s == 0 {
                String::from_str("Data")
            } else if t == 2 && s == 8 {
                String::from_str("QoS Data")
            } else if t == 1 && s == 13 {
                String::from_str("ACK")
            } else {
                let mut out: Vec<char> = Vec::new();
                push_str(&mut out, "Type ");
                push_decimal(&mut out, t as u64);
                push_str(&mut out, " / Subtype ");
                push_decimal(&mut out, s as u64);
                string_from_chars(out.as_slice())
            }
        },
        _ => String::from_str("Unknown"),
    }
}

/// QoS priorities as `a, b, c`, or "None observed".
pub open spec fn qos_text(priorities: Seq<u8>) -> Seq<char> {
    if priorities.len() == 0 {
        "None observed"@
    } else {
        join(priorities.map_values(|p: u8| decimal(p as nat)), ", "@)
    }
}

pub fn format_qos_priorities(priorities: &[u8]) -> (r: String)
    ensures
        r@ == qos_text(priorities@),
{
    if priorities.len() == 0 {
        return String::from_str("None observed");
    }
    let ghost parts = priorities@.map_values(|p: u8| decimal(p as nat));
    let mut out: Vec<char> = Vec::new();
    let mut i: usize = 0;
    while i < priorities.len()
        invariant
            i <= priorities@.len(),
            parts == priorities@.map_values(|p: u8| decimal(p as nat)),
            out@ == join(parts.subrange(0, i as int), ", "@),
        decreases priorities@.len() - i,
    {
        proof {
            let pre = parts.subrange(0, i + 1);
            assert(pre.drop_last() =~= parts.subrange(0, i as int));
            assert(pre.last() == parts[i as int]);
        }
        if i > 0 {
            push_str(&mut out, ", ");
        }
        push_decimal(&mut out, priorities[i] as u64);
        proof {
            if i == 0 {
                assert(out@ =~= parts[0]);
            }
        }
        i = i + 1;
    }
    assert(parts.subrange(0, priorities@.len() as int) =~= parts);
    string_from_chars(out.as_slice())
}

/// The access point hides its SSID (none, or an empty one).
pub open spec fn hidden_ssid(ap: AccessPointRecord) -> bool {
    match ap.ssid {
        Some(s) => s@.len() == 0,
        None => true,
    }
}

pub fn ap_hidden_ssid(ap: &AccessPointRecord) -> (r: bool)
    ensures
        r == hidden_ssid(*ap),
{
    match &ap.ssid {
        Some(s) => s.as_str().is_empty(),
        None => true,
    }
}

/// A name usable in file names: every character that is not an ASCII
/// letter or digit becomes `_`.
pub open spec fn file_safe(value: Seq<char>) -> Seq<char> {
    value.map_values(|c: char| if is_alnum(c) {
        c
    } else {
        '_'
    })
}

pub fn sanitize_name(value: &str) -> (r: String)
    ensures
        r@ == file_safe(value@),
{
    let chars = str_chars(value);
    let mut out: Vec<char> = Vec::new();
    let mut i: usize = 0;
    while i < chars.len()
        invariant
            i <= chars@.len(),
            out@ == file_safe(chars@.subrange(0, i as int)),
        decreases chars@.len() - i,
    {
        let c = chars[i];
        let u = c as u32;
        if (48 <= u && u <= 57) || (65 <= u && u <= 90) || (97 <= u && u <= 122) {
            out.push(c);
        } else {
            out.push('_');
        }
        i = i + 1;
        assert(out@ =~= file_safe(chars@.subrange(0, i as int)));
    }
    assert(chars@.subrange(0, chars@.len() as int) =~= chars@);
    string_from_chars(out.as_slice())
}


/// Index of the first occurrence of `sep` in `s` at or after `k`.
pub open spec fn find_from(s: Seq<char>, sep: Seq<char>, k: int) -> Option<int>
    decreases s.len() + 1 - k,
{
    if k < 0 || k + sep.len() > s.len() {
        None
    } else if occurs_at(s, sep, k) {
        Some(k)
    } else {
        find_from(s, sep, k + 1)
    }
}

/// `str::split` on a non-empty text separator, parts taken from position `k`.
pub open spec fn split_text_from(s: Seq<char>, sep: Seq<char>, k: int) -> Seq<Seq<char>>
    decreases s.len() + 1 - k,
{
    if sep.len() == 0 || k < 0 || k > s.len() {
        seq![s.subrange(k, s.len() as int)]
    } else {
        match find_from(s, sep, k) {
            Some(i) => if i >= k && i + sep.len() <= s.len() {
                seq![s.subrange(k, i)] + split_text_from(s, sep, i + sep.len())
            } else {
                seq![s.subrange(k, s.len() as int)]
            },
            None => seq![s.subrange(k, s.len() as int)],
        }
    }
}

proof fn lemma_find_from(s: Seq<char>, sep: Seq<char>, k: int)
    requires
        0 <= k,
    ensures
        match find_from(s, sep, k) {
            Some(i) => k <= i && i + sep.len() <= s.len() && occurs_at(s, sep, i) && forall|j: int|
                k <= j < i ==> !occurs_at(s, sep, j),
            None => forall|j: int| k <= j && j + sep.len() <= s.len() ==> !occurs_at(s, sep, j),
        },
    decreases s.len() + 1 - k,
{
    if k + sep.len() <= s.len() && !occurs_at(s, sep, k) {
        lemma_find_from(s, sep, k + 1);
    }
}

/// The AKM, cipher and PMF parts of an access point's full encryption
/// description (parts separated by ` - `; a later part of a kind wins).
pub open spec fn security_parts(parts: Seq<Seq<char>>) -> (Seq<char>, Seq<char>, Seq<char>)
    decreases parts.len(),
{
    if parts.len() == 0 {
        ("Unknown"@, "Unknown"@, "Unknown"@)
    } else {
        let prev = security_parts(parts.drop_last());
        let p = trim(parts.last());
        if has_prefix(p, "AKM "@) {
            (p.subrange(4, p.len() as int), prev.1, prev.2)
        } else if has_prefix(p, "Cipher "@) {
            (prev.0, p.subrange(7, p.len() as int), prev.2)
        } else if has_prefix(p, "PMF "@) {
            (prev.0, prev.1, p)
        } else {
            prev
        }
    }
}

pub open spec fn security_breakdown(encryption_full: Seq<char>) -> (Seq<char>, Seq<char>, Seq<char>) {
    security_parts(split_text_from(encryption_full, " - "@, 0))
}

fn slice_string(chars: &Vec<char>, from: usize, to: usize) -> (r: String)
    requires
        from <= to <= chars@.len(),
    ensures
        r@ == chars@.subrange(from as int, to as int),
{
    let mut out: Vec<char> = Vec::new();
    let mut i = from;
    while i < to
        invariant
            from <= i <= to <= chars@.len(),
            out@ == chars@.subrange(from as int, i as int),
        decreases to - i,
    {
        out.push(chars[i]);
        i = i + 1;
        assert(out@ =~= chars@.subrange(from as int, i as int));
    }
    string_from_chars(out.as_slice())
}

/// The parts of the full encryption description, in order.
fn split_on_dash(text: &str) -> (r: Vec<String>)
    ensures
        string_seqs(r@) == split_text_from(text@, " - "@, 0),
{
    let chars = str_chars(text);
    let sep = str_chars(" - ");
    proof {
        reveal_strlit(" - ");
    }
    let mut out: Vec<String> = Vec::new();
    let mut k: usize = 0;
    let n = chars.len();
    while k <= n
        invariant
            n == chars@.len(),
            chars@ == text@,
            sep@ == " - "@,
            sep@.len() == 3,
            k <= n,
            string_seqs(out@) + split_text_from(chars@, sep@, k as int) == split_text_from(
                chars@,
                sep@,
                0,
            ),
        decreases n + 1 - k,
    {
        let mut i = k;
        proof {
            lemma_find_from(chars@, sep@, k as int);
        }
        while i < n && n - i >= 3 && !occurs_at_exec(chars.as_slice(), sep.as_slice(), i)
            invariant
                k <= i <= n,
                chars@ == text@,
                n == chars@.len(),
                sep@.len() == 3,
                find_from(chars@, sep@, i as int) == find_from(chars@, sep@, k as int),
            decreases n + 3 - i,
        {
            i = i + 1;
        }
        if i < n && n - i >= 3 {
            let part = slice_string(&chars, k, i);
            let ghost before = string_seqs(out@);
            out.push(part);
            proof {
                assert(find_from(chars@, sep@, i as int) == Some(i as int));
                assert(string_seqs(out@) =~= before.push(chars@.subrange(k as int, i as int)));
                assert(split_text_from(chars@, sep@, k as int) == seq![chars@.subrange(k as int, i as int)]
                    + split_text_from(chars@, sep@, i + 3));
                assert(string_seqs(out@) + split_text_from(chars@, sep@, i + 3) =~= before
                    + split_text_from(chars@, sep@, k as int));
            }
            k = i + 3;
        } else {
            let part = slice_string(&chars, k, n);
            let ghost before = string_seqs(out@);
            out.push(part);
            proof {
                assert(find_from(chars@, sep@, i as int) is None);
                assert(split_text_from(chars@, sep@, k as int) == seq![chars@.subrange(k as int, n as int)]);
                assert(string_seqs(out@) =~= before + split_text_from(chars@, sep@, k as int));
            }
            return out;
        }
    }
    out
}

/// The AKM, cipher and PMF of an access point (see `security_breakdown`).
pub fn ap_security_breakdown(ap: &AccessPointRecord) -> (r: (String, String, String))
    ensures
        (r.0@, r.1@, r.2@) == security_breakdown(ap.encryption_full@),
{
    let parts = split_on_dash(ap.encryption_full.as_str());
    let ghost pv = string_seqs(parts@);
    let mut akm = String::from_str("Unknown");
    let mut cipher = String::from_str("Unknown");
    let mut pmf = String::from_str("Unknown");
    let akm_p = str_chars("AKM ");
    let cipher_p = str_chars("Cipher ");
    let pmf_p = str_chars("PMF ");
    proof {
        reveal_strlit("AKM ");
        reveal_strlit("Cipher ");
        reveal_strlit("PMF ");
    }
    let mut i: usize = 0;
    assert(pv.subrange(0, 0) =~= Seq::<Seq<char>>::empty());
    while i < parts.len()
        invariant
            i <= parts@.len(),
            pv == string_seqs(parts@),
            akm_p@ == "AKM "@,
            akm_p@.len() == 4,
            cipher_p@ == "Cipher "@,
            cipher_p@.len() == 7,
            pmf_p@ == "PMF "@,
            (akm@, cipher@, pmf@) == security_parts(pv.subrange(0, i as int)),
        decreases parts@.len() - i,
    {
        proof {
            let pre = pv.subrange(0, i + 1);
            assert(pre.drop_last() =~= pv.subrange(0, i as int));
            assert(pre.last() == parts@[i as int]@);
        }
        let p = str_chars(crate::text::trim_str(parts[i].as_str()).as_str());
        if crate::text::has_prefix_chars(p.as_slice(), akm_p.as_slice()) {
            akm = slice_string(&p, 4, p.len());
        } else if crate::text::has_prefix_chars(p.as_slice(), cipher_p.as_slice()) {
            cipher = slice_string(&p, 7, p.len());
        } else if crate::text::has_prefix_chars(p.as_slice(), pmf_p.as_slice()) {
            pmf = string_from_chars(p.as_slice());
        }
        i = i + 1;
    }
    assert(pv.subrange(0, parts@.len() as int) =~= pv);
    (akm, cipher, pmf)
}


/// The enumeration status shown for a device, from its last active
/// enumeration: its error, or a complaint about finding no services, or the
/// service and characteristic counts.
pub open spec fn enumeration_status_of(device: BluetoothDeviceRecord) -> Option<(Seq<char>, bool)> {
    match device.active_enumeration {
        None => None,
        Some(active) => match active.last_error {
            Some(e) => Some(("Enumeration failed for "@ + device.mac@ + ": "@ + e@, true)),
            None => if active.services@.len() == 0 {
                Some(("Enumeration returned no services for "@ + device.mac@, true))
            } else {
                Some(
                    (
                        "Enumeration complete for "@ + device.mac@ + " (services: "@ + decimal(
                            active.services@.len(),
                        ) + ", characteristics: "@ + decimal(active.characteristics@.len())
                            + ")"@,
                        false,
                    ),
                )
            },
        },
    }
}

pub fn bluetooth_enumeration_status_from_device(device: &BluetoothDeviceRecord) -> (r: Option<
    BtEnumerationStatus,
>)
    ensures
        match r {
            Some(st) => enumeration_status_of(*device) == Some((st.message@, st.is_error)),
            None => enumeration_status_of(*device) is None,
        },
{
    let active = match &device.active_enumeration {
        Some(a) => a,
        None => {
            return None;
        },
    };
    let mut out: Vec<char> = Vec::new();
    if let Some(e) = &active.last_error {
        push_str(&mut out, "Enumeration failed for ");
        push_str(&mut out, device.mac.as_str());
        push_str(&mut out, ": ");
        push_str(&mut out, e.as_str());
        return Some(BtEnumerationStatus { message: string_from_chars(out.as_slice()), is_error: true });
    }
    if active.services.len() == 0 {
        push_str(&mut out, "Enumeration returned no services for ");
        push_str(&mut out, device.mac.as_str());
        return Some(BtEnumerationStatus { message: string_from_chars(out.as_slice()), is_error: true });
    }
    push_str(&mut out, "Enumeration complete for ");
    push_str(&mut out, device.mac.as_str());
    push_str(&mut out, " (services: ");
    push_decimal(&mut out, active.services.len() as u64);
    push_str(&mut out, ", characteristics: ");
    push_decimal(&mut out, active.characteristics.len() as u64);
    push_str(&mut out, ")");
    Some(BtEnumerationStatus { message: string_from_chars(out.as_slice()), is_error: false })
}

/// How a band is written in mode descriptions.
pub open spec fn band_debug_name(band: SpectrumBand) -> Seq<char> {
    match band {
        SpectrumBand::Ghz2_4 => "Ghz2_4"@,
        SpectrumBand::Ghz5 => "Ghz5"@,
        SpectrumBand::Ghz6 => "Ghz6"@,
        SpectrumBand::Unknown => "Unknown"@,
    }
}

/// The per-channel HT-mode lists are not all the same.
pub open spec fn mixed_modes(table: Seq<(u16, Seq<Seq<char>>)>) -> bool {
    exists|i: int, j: int| 0 <= i < table.len() && 0 <= j < table.len() && table[i].1 != table[j].1
}

/// A one-line description of a channel selection mode.
pub open spec fn mode_description(mode: ChannelModeView) -> Seq<char> {
    match mode {
        ChannelModeView::Locked { channel, ht_mode } => "Locked "@ + decimal(channel as nat) + " ("@
            + ht_mode + ")"@,
        ChannelModeView::HopBand { band, channels, dwell_ms } => "Hop "@ + band_debug_name(band)
            + " ["@ + decimal(channels.len()) + " channels @ "@ + decimal(dwell_ms as nat)
            + " ms]"@,
        ChannelModeView::HopAll { channels, dwell_ms, ht_mode, channel_ht_modes } =>
            "Hop Specific ["@ + decimal(channels.len()) + " channels @ "@ + decimal(dwell_ms as nat)
            + " ms, "@ + ht_mode + (if mixed_modes(channel_ht_modes) {
            ", mixed"@
        } else {
            Seq::empty()
        }) + "]"@,
    }
}

fn same_strings(a: &Vec<String>, b: &Vec<String>) -> (r: bool)
    ensures
        r == (string_seqs(a@) == string_seqs(b@)),
{
    if a.len() != b.len() {
        assert(string_seqs(a@).len() != string_seqs(b@).len());
        return false;
    }
    let mut i: usize = 0;
    while i < a.len()
        invariant
            a@.len() == b@.len(),
            i <= a@.len(),
            forall|k: int| 0 <= k < i ==> a@[k]@ == b@[k]@,
        decreases a@.len() - i,
    {
        if !str_eq(a[i].as_str(), b[i].as_str()) {
            assert(string_seqs(a@)[i as int] != string_seqs(b@)[i as int]);
            return false;
        }
        i = i + 1;
    }
    assert(string_seqs(a@) =~= string_seqs(b@));
    true
}

fn push_band_name(out: &mut Vec<char>, band: SpectrumBand)
    ensures
        final(out)@ == old(out)@ + band_debug_name(band),
{
    match band {
        SpectrumBand::Ghz2_4 => push_str(out, "Ghz2_4"),
        SpectrumBand::Ghz5 => push_str(out, "Ghz5"),
        SpectrumBand::Ghz6 => push_str(out, "Ghz6"),
        SpectrumBand::Unknown => push_str(out, "Unknown"),
    }
}

pub fn describe_channel_mode(mode: &ChannelSelectionMode) -> (r: String)
    ensures
        r@ == mode_description(mode@),
{
    let mut out: Vec<char> = Vec::new();
    match mode {
        ChannelSelectionMode::Locked { channel, ht_mode } => {
            push_str(&mut out, "Locked ");
            push_decimal(&mut out, *channel as u64);
            push_str(&mut out, " (");
            push_str(&mut out, ht_mode.as_str());
            push_str(&mut out, ")");
        },
        ChannelSelectionMode::HopBand { band, channels, dwell_ms } => {
            push_str(&mut out, "Hop ");
            push_band_name(&mut out, *band);
            push_str(&mut out, " [");
            push_decimal(&mut out, channels.len() as u64);
            push_str(&mut out, " channels @ ");
            push_decimal(&mut out, *dwell_ms);
            push_str(&mut out, " ms]");
        },
        ChannelSelectionMode::HopAll { channels, dwell_ms, ht_mode, channel_ht_modes } => {
            let ghost tv = table_view(channel_ht_modes@);
            let mut mixed = false;
            let n = channel_ht_modes.len();
            if n > 0 {
                let mut i: usize = 1;
                while i < n
                    invariant
                        n == channel_ht_modes@.len(),
                        1 <= i <= n,
                        tv == table_view(channel_ht_modes@),
                        mixed ==> mixed_modes(tv),
                        !mixed ==> forall|k: int| 0 <= k < i ==> (#[trigger] tv[k]).1 == tv[0].1,
                    decreases n - i,
                {
                    if !same_strings(&channel_ht_modes[i].modes, &channel_ht_modes[0].modes) {
                        mixed = true;
                        assert(tv[i as int].1 != tv[0].1);
                    }
                    i = i + 1;
                }
                proof {
                    if !mixed && mixed_modes(tv) {
                        let (a, b) = choose|a: int, b: int|
                            0 <= a < tv.len() && 0 <= b < tv.len() && tv[a].1 != tv[b].1;
                        assert(tv[a].1 == tv[0].1);
                        assert(tv[b].1 == tv[0].1);
                    }
                }
            }
            push_str(&mut out, "Hop Specific [");
            push_decimal(&mut out, channels.len() as u64);
            push_str(&mut out, " channels @ ");
            push_decimal(&mut out, *dwell_ms);
            push_str(&mut out, " ms, ");
            push_str(&mut out, ht_mode.as_str());
            if mixed {
                push_str(&mut out, ", mixed");
            }
            let ghost before = out@;
            push_str(&mut out, "]");
            proof {
                if !mixed {
                    assert(before + Seq::<char>::empty() =~= before);
                }
            }
        },
    }
    string_from_chars(out.as_slice())
}


/// The UTC time of day of a time in milliseconds since the epoch, as
/// `HH:MM:SS`.
pub open spec fn time_of_day(ms: i64) -> Seq<char> {
    let secs = (ms as int) / 1000;
    let sod = secs % 86_400;
    two_digits((sod / 3_600) as nat) + ":"@ + two_digits(((sod % 3_600) / 60) as nat) + ":"@
        + two_digits((sod % 60) as nat)
}

pub(crate) fn push_time_of_day(out: &mut Vec<char>, ms: i64)
    ensures
        final(out)@ == old(out)@ + time_of_day(ms),
{
    let secs: i64 = if ms >= 0 {
        ms / 1000
    } else {
        (ms + 1) / 1000 - 1
    };
    assert(secs == (ms as int) / 1000);
    let r: i64 = secs % 86_400;
    let sod: u64 = if r < 0 {
        (r + 86_400) as u64
    } else {
        r as u64
    };
    assert(sod as int == (secs as int) % 86_400);
    push_two_digits(out, sod / 3_600);
    push_str(out, ":");
    push_two_digits(out, (sod % 3_600) / 60);
    push_str(out, ":");
    push_two_digits(out, sod % 60);
}

/// The remote endpoints of a client, one line each for the first 16:
/// protocol, address and port, domain, city, packets, and the times first
/// and last seen; "None observed" when there are none.
pub open spec fn endpoint_line(e: ClientEndpointRecord) -> Seq<char> {
    e.protocol@ + " "@ + e.ip_address@ + (match e.port {
        Some(p) => ":"@ + decimal(p as nat),
        None => Seq::empty(),
    }) + " | domain="@ + (match e.domain {
        Some(d) => d@,
        None => "unresolved"@,
    }) + " | city="@ + (match e.geo_city {
        Some(g) => g@,
        None => "location unknown"@,
    }) + " | packets="@ + decimal(e.packet_count as nat) + " | first="@ + time_of_day(
        e.first_seen,
    ) + " | last="@ + time_of_day(e.last_seen)
}

pub open spec fn endpoint_summary(endpoints: Seq<ClientEndpointRecord>) -> Seq<char> {
    if endpoints.len() == 0 {
        "None observed"@
    } else {
        let shown = if endpoints.len() > 16 {
            endpoints.subrange(0, 16)
        } else {
            endpoints
        };
        join(shown.map_values(|e: ClientEndpointRecord| endpoint_line(e)), "\n"@)
    }
}

pub(crate) fn push_or(out: &mut Vec<char>, o: &Option<String>, default: &str)
    ensures
        final(out)@ == old(out)@ + (match *o {
            Some(v) => v@,
            None => default@,
        }),
{
    match o {
        Some(v) => push_str(out, v.as_str()),
        None => push_str(out, default),
    }
}

pub(crate) fn push_port(out: &mut Vec<char>, port: Option<u16>)
    ensures
        final(out)@ == old(out)@ + (match port {
            Some(p) => ":"@ + decimal(p as nat),
            None => Seq::<char>::empty(),
        }),
{
    if let Some(p) = port {
        push_str(out, ":");
        push_decimal(out, p as u64);
        assert(final(out)@ =~= old(out)@ + (":"@ + decimal(p as nat)));
    } else {
        assert(old(out)@ + Seq::<char>::empty() =~= old(out)@);
    }
}

#[verifier::rlimit(40)]
fn push_endpoint_line(out: &mut Vec<char>, e: &ClientEndpointRecord)
    ensures
        final(out)@ == old(out)@ + endpoint_line(*e),
{
    let ghost start = out@;
    let mut line: Vec<char> = Vec::new();
    push_str(&mut line, e.protocol.as_str());
    push_str(&mut line, " ");
    push_str(&mut line, e.ip_address.as_str());
    push_port(&mut line, e.port);
    push_str(&mut line, " | domain=");
    push_or(&mut line, &e.domain, "unresolved");
    push_str(&mut line, " | city=");
    push_or(&mut line, &e.geo_city, "location unknown");
    push_str(&mut line, " | packets=");
    push_decimal(&mut line, e.packet_count);
    push_str(&mut line, " | first=");
    push_time_of_day(&mut line, e.first_seen);
    push_str(&mut line, " | last=");
    push_time_of_day(&mut line, e.last_seen);
    assert(line@ =~= endpoint_line(*e));
    crate::text::push_all(out, line.as_slice());
}

pub fn format_endpoint_summary(client: &ClientRecord) -> (r: String)
    ensures
        r@ == endpoint_summary(client.network_intel.remote_endpoints@),
{
    let eps = &client.network_intel.remote_endpoints;
    if eps.len() == 0 {
        return String::from_str("None observed");
    }
    let n: usize = if eps.len() > 16 {
        16
    } else {
        eps.len()
    };
    let ghost shown = if eps@.len() > 16 {
        eps@.subrange(0, 16)
    } else {
        eps@
    };
    let ghost parts = shown.map_values(|e: ClientEndpointRecord| endpoint_line(e));
    let mut out: Vec<char> = Vec::new();
    let mut i: usize = 0;
    while i < n
        invariant
            *eps == client.network_intel.remote_endpoints,
            n == shown.len(),
            n <= eps@.len(),
            forall|k: int| 0 <= k < n ==> shown[k] == eps@[k],
            parts == shown.map_values(|e: ClientEndpointRecord| endpoint_line(e)),
            i <= n,
            out@ == join(parts.subrange(0, i as int), "\n"@),
        decreases n - i,
    {
        proof {
            let pre = parts.subrange(0, i + 1);
            assert(pre.drop_last() =~= parts.subrange(0, i as int));
            assert(pre.last() == parts[i as int]);
        }
        if i > 0 {
            push_str(&mut out, "\n");
        }
        push_endpoint_line(&mut out, &eps[i]);
        proof {
            if i == 0 {
                assert(out@ =~= parts[0]);
            }
        }
        i = i + 1;
    }
    assert(parts.subrange(0, n as int) =~= parts);
    string_from_chars(out.as_slice())
}

/// The signal levels of the observations that recorded one, in order; the
/// fallback level when none did.
pub open spec fn observed_levels(obs: Seq<GeoObservation>) -> Seq<i32>
    decreases obs.len(),
{
    if obs.len() == 0 {
        Seq::empty()
    } else {
        let rest = observed_levels(obs.drop_last());
        match obs.last().rssi_dbm {
            Some(v) => rest.push(v),
            None => rest,
        }
    }
}

pub open spec fn rssi_samples(obs: Seq<GeoObservation>, fallback: Option<i32>) -> Seq<i32> {
    let levels = observed_levels(obs);
    if levels.len() == 0 {
        match fallback {
            Some(v) => seq![v],
            None => levels,
        }
    } else {
        levels
    }
}

pub open spec fn sum_levels(s: Seq<i32>) -> int
    decreases s.len(),
{
    if s.len() == 0 {
        0
    } else {
        sum_levels(s.drop_last()) + s.last()
    }
}

pub open spec fn min_level(s: Seq<i32>) -> i32
    decreases s.len(),
{
    if s.len() <= 1 {
        if s.len() == 1 {
            s[0]
        } else {
            0
        }
    } else {
        let m = min_level(s.drop_last());
        if s.last() < m {
            s.last()
        } else {
            m
        }
    }
}

pub open spec fn max_level(s: Seq<i32>) -> i32
    decreases s.len(),
{
    if s.len() <= 1 {
        if s.len() == 1 {
            s[0]
        } else {
            0
        }
    } else {
        let m = max_level(s.drop_last());
        if s.last() > m {
            s.last()
        } else {
            m
        }
    }
}

/// `sum / n` rounded to the nearest integer, halves away from zero.
pub open spec fn rounded_mean(sum: int, n: int) -> int {
    if sum >= 0 {
        (2 * sum + n) / (2 * n)
    } else {
        -((2 * (-sum) + n) / (2 * n))
    }
}

proof fn lemma_sum_bounds(s: Seq<i32>)
    ensures
        s.len() * i32::MIN <= sum_levels(s) <= s.len() * i32::MAX,
    decreases s.len(),
{
    if s.len() > 0 {
        lemma_sum_bounds(s.drop_last());
        assert((s.len() - 1) * i32::MIN + i32::MIN == s.len() * i32::MIN) by (nonlinear_arith);
        assert((s.len() - 1) * i32::MAX + i32::MAX == s.len() * i32::MAX) by (nonlinear_arith);
    }
}

proof fn lemma_min_max_in_range(s: Seq<i32>)
    requires
        s.len() > 0,
    ensures
        forall|i: int| 0 <= i < s.len() ==> min_level(s) <= #[trigger] s[i] <= max_level(s),
        exists|i: int| 0 <= i < s.len() && s[i] == min_level(s),
        exists|i: int| 0 <= i < s.len() && s[i] == max_level(s),
    decreases s.len(),
{
    if s.len() > 1 {
        lemma_min_max_in_range(s.drop_last());
        assert forall|i: int| 0 <= i < s.len() implies min_level(s) <= #[trigger] s[i] <= max_level(
            s,
        ) by {
            if i < s.len() - 1 {
                assert(s[i] == s.drop_last()[i]);
            }
        }
        let a = choose|i: int| 0 <= i < s.drop_last().len() && s.drop_last()[i] == min_level(s.drop_last());
        let b = choose|i: int| 0 <= i < s.drop_last().len() && s.drop_last()[i] == max_level(s.drop_last());
        assert(s[a] == s.drop_last()[a]);
        assert(s[b] == s.drop_last()[b]);
        assert(s[s.len() - 1] == s.last());
    } else {
        assert(s[0] == min_level(s));
    }
}

/// Mean, lowest and highest signal level and the number of samples (see
/// `rssi_samples`); the mean is rounded to the nearest dBm.
pub fn rssi_stats(observations: &[GeoObservation], fallback: Option<i32>) -> (r: (
    Option<i32>,
    Option<i32>,
    Option<i32>,
    usize,
))
    ensures
        ({
            let s = rssi_samples(observations@, fallback);
            &&& r.3 == s.len()
            &&& s.len() == 0 ==> r.0 is None && r.1 is None && r.2 is None
            &&& s.len() > 0 ==> {
                &&& r.0 == Some(rounded_mean(sum_levels(s), s.len() as int) as i32)
                &&& r.1 == Some(min_level(s))
                &&& r.2 == Some(max_level(s))
            }
        }),
{
    let mut values: Vec<i32> = Vec::new();
    let mut i: usize = 0;
    assert(observations@.subrange(0, 0) =~= Seq::<GeoObservation>::empty());
    while i < observations.len()
        invariant
            i <= observations@.len(),
            values@ == observed_levels(observations@.subrange(0, i as int)),
        decreases observations@.len() - i,
    {
        proof {
            let pre = observations@.subrange(0, i + 1);
            assert(pre.drop_last() =~= observations@.subrange(0, i as int));
            assert(pre.last() == observations@[i as int]);
        }
        if let Some(v) = observations[i].rssi_dbm {
            values.push(v);
        }
        i = i + 1;
    }
    assert(observations@.subrange(0, observations@.len() as int) =~= observations@);
    if values.len() == 0 {
        if let Some(v) = fallback {
            values.push(v);
            assert(values@ =~= seq![v]);
        }
    }
    let ghost s = values@;
    assert(s == rssi_samples(observations@, fallback));
    let n = values.len();
    if n == 0 {
        return (None, None, None, 0);
    }
    let mut sum: i128 = 0;
    let mut lo: i32 = values[0];
    let mut hi: i32 = values[0];
    let mut k: usize = 0;
    while k < n
        invariant
            n == s.len(),
            s == values@,
            n > 0,
            k <= n,
            sum as int == sum_levels(s.subrange(0, k as int)),
            k > 0 ==> lo == min_level(s.subrange(0, k as int)),
            k > 0 ==> hi == max_level(s.subrange(0, k as int)),
            k == 0 ==> lo == s[0] && hi == s[0],
            n <= usize::MAX,
        decreases n - k,
    {
        proof {
            let pre = s.subrange(0, k + 1);
            assert(pre.drop_last() =~= s.subrange(0, k as int));
            assert(pre.last() == s[k as int]);
            lemma_sum_bounds(s.subrange(0, k as int));
            assert(k * i32::MAX <= 0x1_0000_0000_0000_0000 * 0x1_0000_0000) by (nonlinear_arith)
                requires
                    k <= usize::MAX,
            ;
            assert(k * i32::MIN >= -(0x1_0000_0000_0000_0000 * 0x1_0000_0000)) by (nonlinear_arith)
                requires
                    k <= usize::MAX,
            ;
        }
        let v = values[k];
        sum = sum + v as i128;
        if k == 0 {
            lo = v;
            hi = v;
        } else {
            if v < lo {
                lo = v;
            }
            if v > hi {
                hi = v;
            }
        }
        k = k + 1;
    }
    assert(s.subrange(0, n as int) =~= s);
    proof {
        lemma_sum_bounds(s);
        assert(n * i32::MAX <= 0x1_0000_0000_0000_0000 * 0x1_0000_0000) by (nonlinear_arith)
            requires
                n <= usize::MAX,
        ;
        assert(n * i32::MIN >= -(0x1_0000_0000_0000_0000 * 0x1_0000_0000)) by (nonlinear_arith)
            requires
                n <= usize::MAX,
        ;
    }
    let nn = n as i128;
    let avg: i128 = if sum >= 0 {
        (2 * sum + nn) / (2 * nn)
    } else {
        -((2 * (-sum) + nn) / (2 * nn))
    };
    proof {
        lemma_min_max_in_range(s);
        lemma_sum_bounds(s);
    }
    assert(i32::MIN <= avg <= i32::MAX) by (nonlinear_arith)
        requires
            nn >= 1,
            nn * i32::MIN <= sum <= nn * i32::MAX,
            sum >= 0 ==> avg == (2 * sum + nn) / (2 * nn),
            sum < 0 ==> avg == -((2 * (-sum) + nn) / (2 * nn)),
    ;
    (Some(avg as i32), Some(lo), Some(hi), n)
}

/// A key with the time something keyed by it was last let through.
pub struct ThrottleEntry {
    pub key: String,
    /// Milliseconds since the Unix epoch.
    pub last_ms: i64,
}

pub open spec fn throttle_keys(s: Seq<ThrottleEntry>) -> Seq<Seq<char>> {
    s.map_values(|e: ThrottleEntry| e.key@)
}

pub open spec fn throttle_view(s: Seq<ThrottleEntry>) -> Seq<(Seq<char>, i64)> {
    s.map_values(|e: ThrottleEntry| (e.key@, e.last_ms))
}

/// Whether something keyed `key` may pass at `now_ms`: not when it passed
/// less than `interval_ms` ago.
pub open spec fn throttle_allows(s: Seq<ThrottleEntry>, key: Seq<char>, now_ms: i64, interval_ms: i64) -> bool {
    match first_key(throttle_keys(s), key) {
        Some(i) => !((now_ms as int) - (s[i].last_ms as int) < interval_ms),
        None => true,
    }
}

fn throttle(map: &mut Vec<ThrottleEntry>, key: &str, now_ms: i64, interval_ms: i64) -> (r: bool)
    ensures
        r == throttle_allows(old(map)@, key@, now_ms, interval_ms),
        r ==> throttle_view(final(map)@) == upsert(
            throttle_view(old(map)@),
            throttle_keys(old(map)@),
            key@,
            (key@, now_ms),
        ),
        !r ==> final(map)@ == old(map)@,
{
    let ghost keys = throttle_keys(map@);
    proof {
        lemma_first_key(keys, key@);
    }
    let mut i: usize = 0;
    while i < map.len()
        invariant
            i <= map@.len(),
            keys == throttle_keys(map@),
            map@ == old(map)@,
            forall|j: int| 0 <= j < i ==> keys[j] != key@,
        decreases map@.len() - i,
    {
        if str_eq(map[i].key.as_str(), key) {
            proof {
                lemma_first_key(keys, key@);
                match first_key(keys, key@) {
                    Some(k) => {
                        if k > i {
                            assert(keys[i as int] == key@);
                        }
                        if k < i {
                            assert(keys[k] != key@);
                        }
                    },
                    None => {
                        assert(keys[i as int] == key@);
                    },
                }
            }
            let last = map[i].last_ms;
            if (now_ms as i128) - (last as i128) < interval_ms as i128 {
                return false;
            }
            let entry = ThrottleEntry { key: key.to_string(), last_ms: now_ms };
            map.set(i, entry);
            assert(throttle_view(map@) =~= throttle_view(old(map)@).update(i as int, (key@, now_ms)));
            return true;
        }
        i = i + 1;
    }
    proof {
        lemma_first_key(keys, key@);
        match first_key(keys, key@) {
            Some(k) => {
                assert(keys[k] != key@);
            },
            None => {},
        }
    }
    map.push(ThrottleEntry { key: key.to_string(), last_ms: now_ms });
    assert(throttle_view(map@) =~= throttle_view(old(map)@).push((key@, now_ms)));
    true
}

/// Once something keyed `key` passed at `now` (the map was updated as
/// `throttle` does), it does not pass again before `interval_ms` went by.
pub proof fn lemma_throttle_waits(
    before: Seq<ThrottleEntry>,
    after: Seq<ThrottleEntry>,
    key: Seq<char>,
    now: i64,
    interval_ms: i64,
    later: i64,
)
    requires
        throttle_view(after) == upsert(throttle_view(before), throttle_keys(before), key, (key, now)),
        now <= later,
        later - now < interval_ms,
    ensures
        !throttle_allows(after, key, later, interval_ms),
{
    let kb = throttle_keys(before);
    let ka = throttle_keys(after);
    lemma_first_key(kb, key);
    lemma_first_key(ka, key);
    assert(throttle_view(after).len() == after.len());
    match first_key(kb, key) {
        Some(i) => {
            assert(throttle_view(after) == throttle_view(before).update(i, (key, now)));
            assert(ka =~= kb) by {
                assert forall|j: int| 0 <= j < ka.len() implies ka[j] == kb[j] by {
                    assert(ka[j] == throttle_view(after)[j].0);
                    assert(kb[j] == throttle_view(before)[j].0);
                }
            }
            assert(after[i].last_ms == throttle_view(after)[i].1);
        },
        None => {
            assert(throttle_view(after) == throttle_view(before).push((key, now)));
            let n = before.len() as int;
            assert(ka =~= kb.push(key)) by {
                assert forall|j: int| 0 <= j < ka.len() implies ka[j] == kb.push(key)[j] by {
                    assert(ka[j] == throttle_view(after)[j].0);
                    if j < n {
                        assert(kb[j] == throttle_view(before)[j].0);
                    }
                }
            }
            match first_key(ka, key) {
                Some(k) => {
                    assert(k == n);
                    assert(after[n].last_ms == throttle_view(after)[n].1);
                },
                None => {
                    assert(ka[n] == key);
                },
            }
        },
    }
}

/// Whether an observation of the device keyed `key` is recorded at
/// `now_ms`: at most one every 3 seconds (a recorded one restarts the wait).
pub fn should_record_observation(map: &mut Vec<ThrottleEntry>, key: &str, now_ms: i64) -> (r: bool)
    ensures
        r == throttle_allows(old(map)@, key@, now_ms, 3000),
        r ==> throttle_view(final(map)@) == upsert(
            throttle_view(old(map)@),
            throttle_keys(old(map)@),
            key@,
            (key@, now_ms),
        ),
        !r ==> final(map)@ == old(map)@,
{
    throttle(map, key, now_ms, 3000)
}

/// Whether an update of the device keyed `key` is stored at `now_ms`: at
/// most one every 2 seconds.
pub fn should_persist_device_update(map: &mut Vec<ThrottleEntry>, key: &str, now_ms: i64) -> (r: bool)
    ensures
        r == throttle_allows(old(map)@, key@, now_ms, 2000),
        r ==> throttle_view(final(map)@) == upsert(
            throttle_view(old(map)@),
            throttle_keys(old(map)@),
            key@,
            (key@, now_ms),
        ),
        !r ==> final(map)@ == old(map)@,
{
    throttle(map, key, now_ms, 2000)
}


/// How `bool` is written by `Display`.
pub open spec fn bool_display(b: bool) -> Seq<char> {
    if b {
        "true"@
    } else {
        "false"@
    }
}

pub(crate) fn push_bool(out: &mut Vec<char>, b: bool)
    ensures
        final(out)@ == old(out)@ + bool_display(b),
{
    if b {
        push_str(out, "true");
    } else {
        push_str(out, "false");
    }
}

pub(crate) fn push_joined(out: &mut Vec<char>, v: &Vec<String>, sep: &str)
    ensures
        final(out)@ == old(out)@ + join(string_seqs(v@), sep@),
{
    let ghost parts = string_seqs(v@);
    let ghost start = out@;
    let mut i: usize = 0;
    while i < v.len()
        invariant
            i <= v@.len(),
            parts == string_seqs(v@),
            out@ == start + join(parts.subrange(0, i as int), sep@),
        decreases v@.len() - i,
    {
        proof {
            let pre = parts.subrange(0, i + 1);
            assert(pre.drop_last() =~= parts.subrange(0, i as int));
            assert(pre.last() == parts[i as int]);
        }
        let ghost before = out@;
        if i > 0 {
            push_str(out, sep);
        }
        push_str(out, v[i].as_str());
        proof {
            if i == 0 {
                assert(join(parts.subrange(0, 1), sep@) == parts[0]);
                assert(join(parts.subrange(0, 0), sep@) =~= Seq::<char>::empty());
                assert(out@ =~= start + parts[0]);
            } else {
                assert(out@ =~= start + (join(parts.subrange(0, i as int), sep@) + sep@ + parts[i as int]));
            }
        }
        i = i + 1;
    }
    assert(parts.subrange(0, v@.len() as int) =~= parts);
    if v.len() == 0 {
        assert(out@ =~= start + join(parts, sep@));
    }
}

/// What identifies the shown state of an access point's detail view.
pub open spec fn ap_signature_text(ap: AccessPointRecord) -> Seq<char> {
    ap.bssid@ + "|"@ + decimal_int(ap.last_seen as int) + "|"@ + decimal_int(
        match ap.rssi_dbm {
            Some(v) => v as int,
            None => i32::MIN as int,
        },
    ) + "|"@ + decimal(ap.number_of_clients as nat) + "|"@ + decimal(ap.handshake_count as nat)
        + "|"@ + decimal(ap.packet_mix.total_value() as nat) + "|"@ + decimal(ap.observations@.len())
        + "|"@ + (match ap.notes {
        Some(n) => n@,
        None => Seq::empty(),
    }) + "|"@ + bool_display(ap.wps is Some)
}

pub fn ap_detail_signature(ap: &AccessPointRecord) -> (r: String)
    ensures
        r@ == ap_signature_text(*ap),
{
    let mut out: Vec<char> = Vec::new();
    push_str(&mut out, ap.bssid.as_str());
    push_str(&mut out, "|");
    push_decimal_i64(&mut out, ap.last_seen);
    push_str(&mut out, "|");
    push_decimal_i64(
        &mut out,
        match ap.rssi_dbm {
            Some(v) => v as i64,
            None => i32::MIN as i64,
        },
    );
    push_str(&mut out, "|");
    push_decimal(&mut out, ap.number_of_clients as u64);
    push_str(&mut out, "|");
    push_decimal(&mut out, ap.handshake_count as u64);
    push_str(&mut out, "|");
    push_decimal(&mut out, ap.packet_mix.total());
    push_str(&mut out, "|");
    push_decimal(&mut out, ap.observations.len() as u64);
    push_str(&mut out, "|");
    push_or(&mut out, &ap.notes, "");
    push_str(&mut out, "|");
    push_bool(&mut out, ap.wps.is_some());
    proof {
        reveal_strlit("");
        assert(out@ =~= ap_signature_text(*ap));
    }
    string_from_chars(out.as_slice())
}

/// One remote endpoint in a client's signature.
pub open spec fn endpoint_signature(e: ClientEndpointRecord) -> Seq<char> {
    e.protocol@ + ":"@ + e.ip_address@ + ":"@ + decimal(
        match e.port {
            Some(p) => p as nat,
            None => 0nat,
        },
    ) + ":"@ + (match e.domain {
        Some(d) => d@,
        None => Seq::empty(),
    }) + ":"@ + (match e.geo_city {
        Some(g) => g@,
        None => Seq::empty(),
    }) + ":"@ + decimal(e.packet_count as nat)
}

/// What identifies the shown state of a client's network intel.
pub open spec fn intel_signature(i: ClientNetworkIntel) -> Seq<char> {
    join(string_seqs(i.local_ipv4_addresses@), ","@) + "|"@ + join(
        string_seqs(i.local_ipv6_addresses@),
        ","@,
    ) + "|"@ + join(string_seqs(i.dhcp_hostnames@), ","@) + "|"@ + join(
        string_seqs(i.dhcp_fqdns@),
        ","@,
    ) + "|"@ + join(string_seqs(i.dhcp_vendor_classes@), ","@) + "|"@ + join(
        string_seqs(i.dns_names@),
        ","@,
    ) + "|"@ + join(
        i.remote_endpoints@.map_values(|e: ClientEndpointRecord| endpoint_signature(e)),
        "|"@,
    ) + "|"@ + decimal(i.uplink_bytes as nat) + "|"@ + decimal(i.downlink_bytes as nat) + "|"@
        + bool_display(i.power_save_observed) + "|"@ + join(
        i.qos_priorities@.map_values(|p: u8| decimal(p as nat)),
        ","@,
    ) + "|"@ + decimal(i.eapol_frame_count as nat) + "|"@ + decimal(i.pmkid_count as nat) + "|"@
        + decimal(
        match i.last_reason_code {
            Some(c) => c as nat,
            None => 0nat,
        },
    ) + "|"@ + decimal(
        match i.last_status_code {
            Some(c) => c as nat,
            None => 0nat,
        },
    )
}

#[verifier::rlimit(40)]
fn push_endpoint_signatures(out: &mut Vec<char>, eps: &Vec<ClientEndpointRecord>)
    ensures
        final(out)@ == old(out)@ + join(
            eps@.map_values(|e: ClientEndpointRecord| endpoint_signature(e)),
            "|"@,
        ),
{
    let ghost parts = eps@.map_values(|e: ClientEndpointRecord| endpoint_signature(e));
    let ghost start = out@;
    let mut i: usize = 0;
    while i < eps.len()
        invariant
            i <= eps@.len(),
            parts == eps@.map_values(|e: ClientEndpointRecord| endpoint_signature(e)),
            out@ == start + join(parts.subrange(0, i as int), "|"@),
        decreases eps@.len() - i,
    {
        proof {
            let pre = parts.subrange(0, i + 1);
            assert(pre.drop_last() =~= parts.subrange(0, i as int));
            assert(pre.last() == parts[i as int]);
        }
        if i > 0 {
            push_str(out, "|");
        }
        let e = &eps[i];
        let mut item: Vec<char> = Vec::new();
        push_str(&mut item, e.protocol.as_str());
        push_str(&mut item, ":");
        push_str(&mut item, e.ip_address.as_str());
        push_str(&mut item, ":");
        push_decimal(
            &mut item,
            match e.port {
                Some(p) => p as u64,
                None => 0,
            },
        );
        push_str(&mut item, ":");
        push_or(&mut item, &e.domain, "");
        push_str(&mut item, ":");
        push_or(&mut item, &e.geo_city, "");
        push_str(&mut item, ":");
        push_decimal(&mut item, e.packet_count);
        proof {
            reveal_strlit("");
            assert(item@ =~= endpoint_signature(*e));
        }
        crate::text::push_all(out, item.as_slice());
        proof {
            if i == 0 {
                assert(join(parts.subrange(0, 1), "|"@) == parts[0]);
                assert(join(parts.subrange(0, 0), "|"@) =~= Seq::<char>::empty());
                assert(out@ =~= start + parts[0]);
            } else {
                assert(out@ =~= start + (join(parts.subrange(0, i as int), "|"@) + "|"@ + parts[i as int]));
            }
        }
        i = i + 1;
    }
    assert(parts.subrange(0, eps@.len() as int) =~= parts);
    if eps.len() == 0 {
        assert(out@ =~= start + join(parts, "|"@));
    }
}

fn push_qos(out: &mut Vec<char>, v: &Vec<u8>)
    ensures
        final(out)@ == old(out)@ + join(v@.map_values(|p: u8| decimal(p as nat)), ","@),
{
    let ghost parts = v@.map_values(|p: u8| decimal(p as nat));
    let ghost start = out@;
    let mut i: usize = 0;
    while i < v.len()
        invariant
            i <= v@.len(),
            parts == v@.map_values(|p: u8| decimal(p as nat)),
            out@ == start + join(parts.subrange(0, i as int), ","@),
        decreases v@.len() - i,
    {
        proof {
            let pre = parts.subrange(0, i + 1);
            assert(pre.drop_last() =~= parts.subrange(0, i as int));
            assert(pre.last() == parts[i as int]);
        }
        if i > 0 {
            push_str(out, ",");
        }
        push_decimal(out, v[i] as u64);
        proof {
            if i == 0 {
                assert(join(parts.subrange(0, 1), ","@) == parts[0]);
                assert(join(parts.subrange(0, 0), ","@) =~= Seq::<char>::empty());
                assert(out@ =~= start + parts[0]);
            } else {
                assert(out@ =~= start + (join(parts.subrange(0, i as int), ","@) + ","@ + parts[i as int]));
            }
        }
        i = i + 1;
    }
    assert(parts.subrange(0, v@.len() as int) =~= parts);
    if v.len() == 0 {
        assert(out@ =~= start + join(parts, ","@));
    }
}

#[verifier::rlimit(60)]
pub fn client_network_intel_signature(intel: &ClientNetworkIntel) -> (r: String)
    ensures
        r@ == intel_signature(*intel),
{
    let mut out: Vec<char> = Vec::new();
    push_joined(&mut out, &intel.local_ipv4_addresses, ",");
    push_str(&mut out, "|");
    push_joined(&mut out, &intel.local_ipv6_addresses, ",");
    push_str(&mut out, "|");
    push_joined(&mut out, &intel.dhcp_hostnames, ",");
    push_str(&mut out, "|");
    push_joined(&mut out, &intel.dhcp_fqdns, ",");
    push_str(&mut out, "|");
    push_joined(&mut out, &intel.dhcp_vendor_classes, ",");
    push_str(&mut out, "|");
    push_joined(&mut out, &intel.dns_names, ",");
    push_str(&mut out, "|");
    push_endpoint_signatures(&mut out, &intel.remote_endpoints);
    push_str(&mut out, "|");
    push_decimal(&mut out, intel.uplink_bytes);
    push_str(&mut out, "|");
    push_decimal(&mut out, intel.downlink_bytes);
    push_str(&mut out, "|");
    push_bool(&mut out, intel.power_save_observed);
    push_str(&mut out, "|");
    push_qos(&mut out, &intel.qos_priorities);
    push_str(&mut out, "|");
    push_decimal(&mut out, intel.eapol_frame_count as u64);
    push_str(&mut out, "|");
    push_decimal(&mut out, intel.pmkid_count as u64);
    push_str(&mut out, "|");
    push_decimal(
        &mut out,
        match intel.last_reason_code {
            Some(c) => c as u64,
            None => 0,
        },
    );
    push_str(&mut out, "|");
    push_decimal(
        &mut out,
        match intel.last_status_code {
            Some(c) => c as u64,
            None => 0,
        },
    );
    assert(out@ =~= intel_signature(*intel));
    string_from_chars(out.as_slice())
}

/// What identifies the shown state of a client's detail view.
pub open spec fn client_signature_text(c: ClientRecord) -> Seq<char> {
    c.mac@ + "|"@ + decimal_int(c.last_seen as int) + "|"@ + decimal_int(
        match c.rssi_dbm {
            Some(v) => v as int,
            None => i32::MIN as int,
        },
    ) + "|"@ + decimal(c.data_transferred_bytes as nat) + "|"@ + decimal(c.probes@.len()) + "|"@
        + decimal(c.seen_access_points@.len()) + "|"@ + decimal(c.handshake_networks@.len()) + "|"@
        + decimal(c.observations@.len()) + "|"@ + bool_display(c.wps is Some) + "|"@ + decimal(
        c.network_intel.retry_frame_count as nat,
    ) + "|"@ + intel_signature(c.network_intel)
}

#[verifier::rlimit(40)]
pub fn client_detail_signature(client: &ClientRecord) -> (r: String)
    ensures
        r@ == client_signature_text(*client),
{
    let mut out: Vec<char> = Vec::new();
    push_str(&mut out, client.mac.as_str());
    push_str(&mut out, "|");
    push_decimal_i64(&mut out, client.last_seen);
    push_str(&mut out, "|");
    push_decimal_i64(
        &mut out,
        match client.rssi_dbm {
            Some(v) => v as i64,
            None => i32::MIN as i64,
        },
    );
    push_str(&mut out, "|");
    push_decimal(&mut out, client.data_transferred_bytes);
    push_str(&mut out, "|");
    push_decimal(&mut out, client.probes.len() as u64);
    push_str(&mut out, "|");
    push_decimal(&mut out, client.seen_access_points.len() as u64);
    push_str(&mut out, "|");
    push_decimal(&mut out, client.handshake_networks.len() as u64);
    push_str(&mut out, "|");
    push_decimal(&mut out, client.observations.len() as u64);
    push_str(&mut out, "|");
    push_bool(&mut out, client.wps.is_some());
    push_str(&mut out, "|");
    push_decimal(&mut out, client.network_intel.retry_frame_count);
    push_str(&mut out, "|");
    let intel = client_network_intel_signature(&client.network_intel);
    push_str(&mut out, intel.as_str());
    assert(out@ =~= client_signature_text(*client));
    string_from_chars(out.as_slice())
}


/// What identifies the shown state of a Bluetooth device's detail view.
pub open spec fn bluetooth_signature_text(d: BluetoothDeviceRecord) -> Seq<char> {
    d.mac@ + "|"@ + decimal_int(d.last_seen as int) + "|"@ + decimal_int(
        match d.rssi_dbm {
            Some(v) => v as int,
            None => i32::MIN as int,
        },
    ) + "|"@ + decimal(d.mfgr_ids@.len()) + "|"@ + decimal(d.uuids@.len()) + "|"@ + decimal(
        d.observations@.len(),
    ) + "|"@ + (match d.device_type {
        Some(t) => t@,
        None => Seq::empty(),
    }) + "|"@ + (match d.active_enumeration {
        Some(a) => decimal_int(
            match a.last_enumerated {
                Some(t) => t as int,
                None => 0,
            },
        ) + "|"@ + decimal(a.services@.len()) + "|"@ + decimal(a.characteristics@.len()) + "|"@
            + decimal(a.descriptors@.len()) + "|"@ + decimal(a.readable_attributes@.len()) + "|"@
            + (match a.last_error {
            Some(e) => e@,
            None => Seq::empty(),
        }),
        None => "0|0|0|0|0|"@,
    })
}

#[verifier::rlimit(40)]
pub fn bluetooth_detail_signature(device: &BluetoothDeviceRecord) -> (r: String)
    ensures
        r@ == bluetooth_signature_text(*device),
{
    let mut out: Vec<char> = Vec::new();
    push_str(&mut out, device.mac.as_str());
    push_str(&mut out, "|");
    push_decimal_i64(&mut out, device.last_seen);
    push_str(&mut out, "|");
    push_decimal_i64(
        &mut out,
        match device.rssi_dbm {
            Some(v) => v as i64,
            None => i32::MIN as i64,
        },
    );
    push_str(&mut out, "|");
    push_decimal(&mut out, device.mfgr_ids.len() as u64);
    push_str(&mut out, "|");
    push_decimal(&mut out, device.uuids.len() as u64);
    push_str(&mut out, "|");
    push_decimal(&mut out, device.observations.len() as u64);
    push_str(&mut out, "|");
    push_or(&mut out, &device.device_type, "");
    push_str(&mut out, "|");
    let ghost mid = out@;
    let mut tail: Vec<char> = Vec::new();
    match &device.active_enumeration {
        Some(a) => {
            push_decimal_i64(
                &mut tail,
                match a.last_enumerated {
                    Some(t) => t,
                    None => 0,
                },
            );
            push_str(&mut tail, "|");
            push_decimal(&mut tail, a.services.len() as u64);
            push_str(&mut tail, "|");
            push_decimal(&mut tail, a.characteristics.len() as u64);
            push_str(&mut tail, "|");
            push_decimal(&mut tail, a.descriptors.len() as u64);
            push_str(&mut tail, "|");
            push_decimal(&mut tail, a.readable_attributes.len() as u64);
            push_str(&mut tail, "|");
            push_or(&mut tail, &a.last_error, "");
        },
        None => {
            push_str(&mut tail, "0|0|0|0|0|");
        },
    }
    crate::text::push_all(&mut out, tail.as_slice());
    proof {
        reveal_strlit("");
        assert(out@ =~= bluetooth_signature_text(*device));
    }
    string_from_chars(out.as_slice())
}


/// What `DateTime::<Utc>::from_timestamp_millis(ms)` shows through
/// `Display` (such as `2000-01-12 01:02:03.004 UTC`), or `None` when chrono
/// cannot represent that time.
pub uninterp spec fn chrono_utc_text(ms: i64) -> Option<Seq<char>>;

/// Calls chrono's `DateTime::from_timestamp_millis` and writes the result
/// with `Display`. Contract: the result is `chrono_utc_text(ms)`; the
/// calendar arithmetic is left to chrono and not restated.
#[verifier::external_body]
fn utc_timestamp_text(ms: i64) -> (r: Option<String>)
    ensures
        match r {
            Some(t) => chrono_utc_text(ms) == Some(t@),
            None => chrono_utc_text(ms) is None,
        },
{
    match chrono::DateTime::from_timestamp_millis(ms) {
        Some(t) => Some(t.to_string()),
        None => None,
    }
}

/// What chrono writes for the time `ms` milliseconds after the epoch with
/// the strftime-style `pattern`, or `None` when chrono cannot represent that
/// time.
pub uninterp spec fn chrono_utc_format(ms: i64, pattern: Seq<char>) -> Option<Seq<char>>;

/// The pattern of times shown to the second: `%Y-%m-%d %H:%M:%S UTC`.
pub open spec fn seconds_pattern() -> Seq<char> {
    "%Y-%m-%d %H:%M:%S UTC"@
}

/// Calls chrono's `DateTime::from_timestamp_millis` and formats the result
/// with `format(pattern)`. Contract: the result is
/// `chrono_utc_format(ms, pattern)`; the calendar arithmetic is left to
/// chrono and not restated. Only the seconds pattern is admitted: an
/// invalid pattern makes chrono's formatting fail, and `to_string` panic.
#[verifier::external_body]
fn utc_format_text(ms: i64, pattern: &str) -> (r: Option<String>)
    requires
        pattern@ == seconds_pattern(),
    ensures
        match r {
            Some(t) => chrono_utc_format(ms, pattern@) == Some(t@),
            None => chrono_utc_format(ms, pattern@) is None,
        },
{
    match chrono::DateTime::from_timestamp_millis(ms) {
        Some(t) => Some(t.format(pattern).to_string()),
        None => None,
    }
}

/// A time to the second in UTC; the number of milliseconds when chrono
/// cannot represent it.
pub open spec fn seconds_text(ms: i64) -> Seq<char> {
    match chrono_utc_format(ms, seconds_pattern()) {
        Some(t) => t,
        None => decimal_int(ms as int),
    }
}

pub fn format_utc_seconds(ms: i64) -> (r: String)
    ensures
        r@ == seconds_text(ms),
{
    proof {
        reveal_strlit("%Y-%m-%d %H:%M:%S UTC");
    }
    match utc_format_text(ms, "%Y-%m-%d %H:%M:%S UTC") {
        Some(t) => t,
        None => {
            let mut out: Vec<char> = Vec::new();
            push_decimal_i64(&mut out, ms);
            string_from_chars(out.as_slice())
        },
    }
}

/// A time in milliseconds as chrono shows it in UTC; the number of
/// milliseconds when chrono cannot represent it.
pub open spec fn time_text(ms: i64) -> Seq<char> {
    match chrono_utc_text(ms) {
        Some(t) => t,
        None => decimal_int(ms as int),
    }
}

pub fn format_timestamp(ms: i64) -> (r: String)
    ensures
        r@ == time_text(ms),
{
    match utc_timestamp_text(ms) {
        Some(t) => t,
        None => {
            let mut out: Vec<char> = Vec::new();
            push_decimal_i64(&mut out, ms);
            string_from_chars(out.as_slice())
        },
    }
}

/// The texts of a client's detail view that come from floating-point
/// values: the retry rate and the first, last and strongest locations.
pub struct ClientFloatTexts {
    pub retry_rate: String,
    pub first_location: String,
    pub last_location: String,
    pub strongest_location: String,
}

/// A list of values, or "None observed".
pub open spec fn list_or_none(v: Seq<Seq<char>>) -> Seq<char> {
    if v.len() == 0 {
        "None observed"@
    } else {
        join(v, ", "@)
    }
}

pub open spec fn or_unknown(o: Option<Seq<char>>) -> Seq<char> {
    match o {
        Some(v) => v,
        None => "Unknown"@,
    }
}

pub open spec fn number_or_unknown(o: Option<nat>) -> Seq<char> {
    match o {
        Some(v) => decimal(v),
        None => "Unknown"@,
    }
}

pub open spec fn opt_string(o: Option<String>) -> Option<Seq<char>> {
    match o {
        Some(v) => Some(v@),
        None => None,
    }
}

pub open spec fn opt_num16(o: Option<u16>) -> Option<nat> {
    match o {
        Some(v) => Some(v as nat),
        None => None,
    }
}

/// The WPS attributes of a record as shown in detail views.
pub open spec fn wps_text(w: Option<WpsInfo>) -> Seq<char> {
    match w {
        Some(i) => "version="@ + debug_opt(opt_string(i.version)) + ", state="@ + debug_opt(
            opt_string(i.state),
        ) + ", manufacturer="@ + debug_opt(opt_string(i.manufacturer)) + ", model="@ + debug_opt(
            opt_string(i.model_name),
        ) + ", model_number="@ + debug_opt(opt_string(i.model_number)) + ", serial="@ + debug_opt(
            opt_string(i.serial_number),
        ),
        None => "none observed"@,
    }
}

/// What `Option<String>` shows through `Debug` (`None`, or `Some("...")`
/// with the text escaped as `str::escape_debug` does).
pub uninterp spec fn debug_opt(o: Option<Seq<char>>) -> Seq<char>;

/// Writes an optional text with `Debug` (`format!("{:?}")`). Contract: the
/// result is `debug_opt` of it; the escaping rules are left to std.
#[verifier::external_body]
fn debug_option_text(o: &Option<String>) -> (r: String)
    ensures
        r@ == debug_opt(opt_string(*o)),
{
    format!("{:?}", o)
}


fn push_list_or_none(out: &mut Vec<char>, v: &Vec<String>)
    ensures
        final(out)@ == old(out)@ + list_or_none(string_seqs(v@)),
{
    if v.len() == 0 {
        push_str(out, "None observed");
    } else {
        push_joined(out, v, ", ");
    }
}

fn push_number_or_unknown(out: &mut Vec<char>, o: Option<u64>)
    ensures
        final(out)@ == old(out)@ + number_or_unknown(
            match o {
                Some(v) => Some(v as nat),
                None => None,
            },
        ),
{
    match o {
        Some(v) => push_decimal(out, v),
        None => push_str(out, "Unknown"),
    }
}

fn opt16(o: Option<u16>) -> (r: Option<u64>)
    ensures
        match r {
            Some(v) => o == Some(v as u16) && v < 0x10000,
            None => o is None,
        },
{
    match o {
        Some(v) => Some(v as u64),
        None => None,
    }
}

/// The identity section of a client's detail view.
#[verifier::opaque]
pub open spec fn identity_section(c: ClientRecord) -> Seq<char> {
    "Identity\nMAC: "@ + c.mac@ + "\nOUI: "@ + or_unknown(opt_string(c.oui_manufacturer))
        + "\nRandomized MAC: "@ + bool_word(randomized(c.mac@)) + "\nDHCP Vendor Class: "@
        + list_or_none(string_seqs(c.network_intel.dhcp_vendor_classes@))
}

/// The association section of a client's detail view.
#[verifier::opaque]
pub open spec fn association_section(c: ClientRecord, assoc_ssid: Option<Seq<char>>) -> Seq<char> {
    "\n\nAssociation\nAssociated AP: "@ + or_unknown(opt_string(c.associated_ap))
        + "\nAssociated SSID: "@ + or_unknown(assoc_ssid) + "\nSeen AP Count: "@ + decimal(
        c.seen_access_points@.len(),
    ) + "\nSeen APs: "@ + join(string_seqs(c.seen_access_points@), ", "@) + "\nRoam Count: "@
        + decimal(
        if c.seen_access_points@.len() > 0 {
            (c.seen_access_points@.len() - 1) as nat
        } else {
            0nat
        },
    ) + "\nProbe Count: "@ + decimal(c.probes@.len()) + "\nProbes: "@ + join(
        string_seqs(c.probes@),
        ", "@,
    ) + "\nFirst Heard: "@ + time_text(c.first_seen) + "\nLast Heard: "@ + time_text(c.last_seen)
}

fn push_identity(out: &mut Vec<char>, c: &ClientRecord)
    ensures
        final(out)@ == old(out)@ + identity_section(*c),
{
    let mut s: Vec<char> = Vec::new();
    push_str(&mut s, "Identity\nMAC: ");
    push_str(&mut s, c.mac.as_str());
    push_str(&mut s, "\nOUI: ");
    push_or(&mut s, &c.oui_manufacturer, "Unknown");
    push_str(&mut s, "\nRandomized MAC: ");
    push_str(&mut s, bool_text(is_randomized_mac(c.mac.as_str())).as_str());
    push_str(&mut s, "\nDHCP Vendor Class: ");
    push_list_or_none(&mut s, &c.network_intel.dhcp_vendor_classes);
    proof {
        reveal(identity_section);
    }
    assert(s@ =~= identity_section(*c));
    crate::text::push_all(out, s.as_slice());
}

#[verifier::rlimit(40)]
fn push_association(out: &mut Vec<char>, c: &ClientRecord, assoc: &Option<String>)
    ensures
        final(out)@ == old(out)@ + association_section(*c, opt_string(*assoc)),
{
    let mut s: Vec<char> = Vec::new();
    push_str(&mut s, "\n\nAssociation\nAssociated AP: ");
    push_or(&mut s, &c.associated_ap, "Unknown");
    push_str(&mut s, "\nAssociated SSID: ");
    push_or(&mut s, assoc, "Unknown");
    push_str(&mut s, "\nSeen AP Count: ");
    push_decimal(&mut s, c.seen_access_points.len() as u64);
    push_str(&mut s, "\nSeen APs: ");
    push_joined(&mut s, &c.seen_access_points, ", ");
    push_str(&mut s, "\nRoam Count: ");
    let roam: u64 = if c.seen_access_points.len() > 0 {
        (c.seen_access_points.len() - 1) as u64
    } else {
        0
    };
    push_decimal(&mut s, roam);
    push_str(&mut s, "\nProbe Count: ");
    push_decimal(&mut s, c.probes.len() as u64);
    push_str(&mut s, "\nProbes: ");
    push_joined(&mut s, &c.probes, ", ");
    push_str(&mut s, "\nFirst Heard: ");
    push_str(&mut s, format_timestamp(c.first_seen).as_str());
    push_str(&mut s, "\nLast Heard: ");
    push_str(&mut s, format_timestamp(c.last_seen).as_str());
    proof {
        reveal(association_section);
    }
    assert(s@ =~= association_section(*c, opt_string(*assoc)));
    crate::text::push_all(out, s.as_slice());
}

/// The signal statistics shown in a client's detail view.
pub open spec fn rssi_lines(c: ClientRecord) -> Seq<char> {
    let s = rssi_samples(c.observations@, c.rssi_dbm);
    let (avg, lo, hi) = if s.len() == 0 {
        (None::<i32>, None::<i32>, None::<i32>)
    } else {
        (
            Some(rounded_mean(sum_levels(s), s.len() as int) as i32),
            Some(min_level(s)),
            Some(max_level(s)),
        )
    };
    "\nCurrent RSSI: "@ + shown_dbm(c.rssi_dbm) + "\nAverage RSSI: "@ + shown_dbm(avg)
        + "\nMinimum RSSI: "@ + shown_dbm(lo) + "\nMaximum RSSI: "@ + shown_dbm(hi)
        + "\nRSSI Samples: "@ + decimal(s.len())
}

/// `display_dbm` as a spec.
pub open spec fn shown_dbm(v: Option<i32>) -> Seq<char> {
    match v {
        Some(_) => dbm_text(v),
        None => "Unknown"@,
    }
}

/// The radio and behaviour section of a client's detail view.
#[verifier::opaque]
pub open spec fn radio_section(c: ClientRecord, retry_rate: Seq<char>) -> Seq<char> {
    let i = c.network_intel;
    "\n\nRadio And Behavior\nBand: "@ + band_label(i.band) + "\nLast Channel: "@
        + number_or_unknown(opt_num16(i.last_channel)) + "\nLast Frequency: "@ + (match i.last_frequency_mhz {
        Some(f) => decimal(f as nat) + " MHz"@,
        None => "Unknown"@,
    }) + rssi_lines(c) + "\nPacket Mix: mgmt="@ + decimal(i.packet_mix.management as nat)
        + " control="@ + decimal(i.packet_mix.control as nat) + " data="@ + decimal(
        i.packet_mix.data as nat,
    ) + " other="@ + decimal(i.packet_mix.other as nat) + "\nData Transferred: "@ + decimal(
        c.data_transferred_bytes as nat,
    ) + " bytes\nUplink Bytes: "@ + decimal(i.uplink_bytes as nat) + "\nDownlink Bytes: "@
        + decimal(i.downlink_bytes as nat) + "\nRetry Frames: "@ + decimal(
        i.retry_frame_count as nat,
    ) + "\nRetry Rate: "@ + retry_rate + "\nPower Save Observed: "@ + bool_word(
        i.power_save_observed,
    ) + "\nQoS Priorities: "@ + qos_text(i.qos_priorities@) + "\nLast Frame: "@ + frame_name(
        i.last_frame_type,
        i.last_frame_subtype,
    ) + "\nListen Interval: "@ + number_or_unknown(opt_num16(i.listen_interval))
}

#[verifier::rlimit(40)]
fn push_rssi_lines(out: &mut Vec<char>, c: &ClientRecord)
    ensures
        final(out)@ == old(out)@ + rssi_lines(*c),
{
    let (avg, lo, hi, n) = rssi_stats(c.observations.as_slice(), c.rssi_dbm);
    let mut s: Vec<char> = Vec::new();
    push_str(&mut s, "\nCurrent RSSI: ");
    push_str(&mut s, display_dbm(c.rssi_dbm).as_str());
    push_str(&mut s, "\nAverage RSSI: ");
    push_str(&mut s, display_dbm(avg).as_str());
    push_str(&mut s, "\nMinimum RSSI: ");
    push_str(&mut s, display_dbm(lo).as_str());
    push_str(&mut s, "\nMaximum RSSI: ");
    push_str(&mut s, display_dbm(hi).as_str());
    push_str(&mut s, "\nRSSI Samples: ");
    push_decimal(&mut s, n as u64);
    assert(s@ =~= rssi_lines(*c));
    crate::text::push_all(out, s.as_slice());
}

#[verifier::rlimit(60)]
fn push_radio(out: &mut Vec<char>, c: &ClientRecord, retry_rate: &str)
    ensures
        final(out)@ == old(out)@ + radio_section(*c, retry_rate@),
{
    let i = &c.network_intel;
    let mut s: Vec<char> = Vec::new();
    push_str(&mut s, "\n\nRadio And Behavior\nBand: ");
    push_str(&mut s, i.band.label());
    push_str(&mut s, "\nLast Channel: ");
    push_number_or_unknown(&mut s, opt16(i.last_channel));
    push_str(&mut s, "\nLast Frequency: ");
    match i.last_frequency_mhz {
        Some(f) => {
            push_decimal(&mut s, f as u64);
            push_str(&mut s, " MHz");
        },
        None => push_str(&mut s, "Unknown"),
    }
    push_rssi_lines(&mut s, c);
    push_str(&mut s, "\nPacket Mix: mgmt=");
    push_decimal(&mut s, i.packet_mix.management);
    push_str(&mut s, " control=");
    push_decimal(&mut s, i.packet_mix.control);
    push_str(&mut s, " data=");
    push_decimal(&mut s, i.packet_mix.data);
    push_str(&mut s, " other=");
    push_decimal(&mut s, i.packet_mix.other);
    push_str(&mut s, "\nData Transferred: ");
    push_decimal(&mut s, c.data_transferred_bytes);
    push_str(&mut s, " bytes\nUplink Bytes: ");
    push_decimal(&mut s, i.uplink_bytes);
    push_str(&mut s, "\nDownlink Bytes: ");
    push_decimal(&mut s, i.downlink_bytes);
    push_str(&mut s, "\nRetry Frames: ");
    push_decimal(&mut s, i.retry_frame_count);
    push_str(&mut s, "\nRetry Rate: ");
    push_str(&mut s, retry_rate);
    push_str(&mut s, "\nPower Save Observed: ");
    push_str(&mut s, bool_text(i.power_save_observed).as_str());
    push_str(&mut s, "\nQoS Priorities: ");
    push_str(&mut s, format_qos_priorities(i.qos_priorities.as_slice()).as_str());
    push_str(&mut s, "\nLast Frame: ");
    push_str(&mut s, format_frame_subtype(i.last_frame_type, i.last_frame_subtype).as_str());
    push_str(&mut s, "\nListen Interval: ");
    push_number_or_unknown(&mut s, opt16(i.listen_interval));
    proof {
        reveal(radio_section);
    }
    assert(s@ =~= radio_section(*c, retry_rate@));
    crate::text::push_all(out, s.as_slice());
}

/// The security section of a client's detail view.
#[verifier::opaque]
pub open spec fn security_section(c: ClientRecord) -> Seq<char> {
    let i = c.network_intel;
    "\n\nSecurity\nWPS: "@ + wps_text(c.wps) + "\nEAPOL Frames: "@ + decimal(
        i.eapol_frame_count as nat,
    ) + "\nPMKID Count: "@ + decimal(i.pmkid_count as nat) + "\nHandshake Network Count: "@
        + decimal(c.handshake_networks@.len()) + "\nHandshake Networks: "@ + join(
        string_seqs(c.handshake_networks@),
        ", "@,
    ) + "\nLast Status Code: "@ + number_or_unknown(opt_num16(i.last_status_code))
        + "\nLast Reason Code: "@ + number_or_unknown(opt_num16(i.last_reason_code))
}

fn wps_string(w: &Option<WpsInfo>) -> (r: String)
    ensures
        r@ == wps_text(*w),
{
    match w {
        None => String::from_str("none observed"),
        Some(i) => {
            let mut s: Vec<char> = Vec::new();
            push_str(&mut s, "version=");
            push_str(&mut s, debug_option_text(&i.version).as_str());
            push_str(&mut s, ", state=");
            push_str(&mut s, debug_option_text(&i.state).as_str());
            push_str(&mut s, ", manufacturer=");
            push_str(&mut s, debug_option_text(&i.manufacturer).as_str());
            push_str(&mut s, ", model=");
            push_str(&mut s, debug_option_text(&i.model_name).as_str());
            push_str(&mut s, ", model_number=");
            push_str(&mut s, debug_option_text(&i.model_number).as_str());
            push_str(&mut s, ", serial=");
            push_str(&mut s, debug_option_text(&i.serial_number).as_str());
            assert(s@ =~= wps_text(*w));
            string_from_chars(s.as_slice())
        },
    }
}

#[verifier::rlimit(40)]
fn push_security(out: &mut Vec<char>, c: &ClientRecord)
    ensures
        final(out)@ == old(out)@ + security_section(*c),
{
    let i = &c.network_intel;
    let mut s: Vec<char> = Vec::new();
    push_str(&mut s, "\n\nSecurity\nWPS: ");
    push_str(&mut s, wps_string(&c.wps).as_str());
    push_str(&mut s, "\nEAPOL Frames: ");
    push_decimal(&mut s, i.eapol_frame_count as u64);
    push_str(&mut s, "\nPMKID Count: ");
    push_decimal(&mut s, i.pmkid_count as u64);
    push_str(&mut s, "\nHandshake Network Count: ");
    push_decimal(&mut s, c.handshake_networks.len() as u64);
    push_str(&mut s, "\nHandshake Networks: ");
    push_joined(&mut s, &c.handshake_networks, ", ");
    push_str(&mut s, "\nLast Status Code: ");
    push_number_or_unknown(&mut s, opt16(i.last_status_code));
    push_str(&mut s, "\nLast Reason Code: ");
    push_number_or_unknown(&mut s, opt16(i.last_reason_code));
    proof {
        reveal(security_section);
    }
    assert(s@ =~= security_section(*c));
    crate::text::push_all(out, s.as_slice());
}

/// The open-network metadata section of a client's detail view.
#[verifier::opaque]
pub open spec fn metadata_section(c: ClientRecord) -> Seq<char> {
    let i = c.network_intel;
    "\n\nOpen Network Metadata\nLocal IPv4 Addresses: "@ + list_or_none(
        string_seqs(i.local_ipv4_addresses@),
    ) + "\nLocal IPv6 Addresses: "@ + list_or_none(string_seqs(i.local_ipv6_addresses@))
        + "\nDHCP Hostnames: "@ + list_or_none(string_seqs(i.dhcp_hostnames@)) + "\nDHCP FQDNs: "@
        + list_or_none(string_seqs(i.dhcp_fqdns@)) + "\nDNS Names: "@ + list_or_none(
        string_seqs(i.dns_names@),
    ) + "\nRemote Endpoints:\n"@ + endpoint_summary(i.remote_endpoints@)
}

#[verifier::rlimit(40)]
fn push_metadata(out: &mut Vec<char>, c: &ClientRecord)
    ensures
        final(out)@ == old(out)@ + metadata_section(*c),
{
    let i = &c.network_intel;
    let mut s: Vec<char> = Vec::new();
    push_str(&mut s, "\n\nOpen Network Metadata\nLocal IPv4 Addresses: ");
    push_list_or_none(&mut s, &i.local_ipv4_addresses);
    push_str(&mut s, "\nLocal IPv6 Addresses: ");
    push_list_or_none(&mut s, &i.local_ipv6_addresses);
    push_str(&mut s, "\nDHCP Hostnames: ");
    push_list_or_none(&mut s, &i.dhcp_hostnames);
    push_str(&mut s, "\nDHCP FQDNs: ");
    push_list_or_none(&mut s, &i.dhcp_fqdns);
    push_str(&mut s, "\nDNS Names: ");
    push_list_or_none(&mut s, &i.dns_names);
    push_str(&mut s, "\nRemote Endpoints:\n");
    push_str(&mut s, format_endpoint_summary(c).as_str());
    proof {
        reveal(metadata_section);
    }
    assert(s@ =~= metadata_section(*c));
    crate::text::push_all(out, s.as_slice());
}

/// The presence section of a client's detail view.
#[verifier::opaque]
pub open spec fn presence_section(c: ClientRecord, texts: ClientFloatTexts) -> Seq<char> {
    "\n\nPresence\nObservation Count: "@ + decimal(c.observations@.len()) + "\nFirst Location: "@
        + texts.first_location@ + "\nLast Location: "@ + texts.last_location@
        + "\nStrongest Location: "@ + texts.strongest_location@
}

/// The detail view of a client: identity, association, radio and
/// behaviour, security, open-network metadata and presence. `aps` gives the
/// SSID of its access point; `texts` the parts computed in floating point.
pub open spec fn client_detail_text(
    c: ClientRecord,
    aps: Seq<AccessPointRecord>,
    texts: ClientFloatTexts,
) -> Seq<char> {
    identity_section(c) + association_section(c, associated_ssid(aps, c)) + radio_section(
        c,
        texts.retry_rate@,
    ) + security_section(c) + metadata_section(c) + presence_section(c, texts)
}

pub fn format_client_detail_text(
    client: &ClientRecord,
    aps: &[AccessPointRecord],
    texts: &ClientFloatTexts,
) -> (r: String)
    ensures
        r@ == client_detail_text(*client, aps@, *texts),
{
    let assoc = associated_ssid_for_client(aps, client);
    let ghost a = associated_ssid(aps@, *client);
    assert(opt_string(assoc) == a);
    let mut out: Vec<char> = Vec::new();
    push_identity(&mut out, client);
    push_association(&mut out, client, &assoc);
    push_radio(&mut out, client, texts.retry_rate.as_str());
    push_security(&mut out, client);
    push_metadata(&mut out, client);
    push_presence(&mut out, client, texts);
    assert(out@ =~= client_detail_text(*client, aps@, *texts));
    string_from_chars(out.as_slice())
}

fn push_presence(out: &mut Vec<char>, client: &ClientRecord, texts: &ClientFloatTexts)
    ensures
        final(out)@ == old(out)@ + presence_section(*client, *texts),
{
    let ghost before = out@;
    push_str(out, "\n\nPresence\nObservation Count: ");
    push_decimal(out, client.observations.len() as u64);
    push_str(out, "\nFirst Location: ");
    push_str(out, texts.first_location.as_str());
    push_str(out, "\nLast Location: ");
    push_str(out, texts.last_location.as_str());
    push_str(out, "\nStrongest Location: ");
    push_str(out, texts.strongest_location.as_str());
    proof {
        reveal(presence_section);
    }
    assert(out@ =~= before + presence_section(*client, *texts));
}

} // verus!
