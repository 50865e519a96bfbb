//! Watchlists: entries name a MAC address (or prefix) or a network/device
//! name to watch for. Addresses are compared on their hex digits, ignoring
//! case and separators; names are compared trimmed and ignoring ASCII case.

use vstd::prelude::*;
use crate::records::{AccessPointRecord, ClientRecord, BluetoothDeviceRecord};
use crate::settings::{WatchlistDeviceType, WatchlistEntry, WatchlistSettings};
use crate::text::{
    trim, trim_str, is_hex_digit, upper_char, char_upper, ascii_lower, lower_chars, str_chars,
    string_from_chars, eq_ignore_case, eq_ignore_case_chars, push_str, push_all, push_decimal,
    decimal, string_seqs, is_ws, lemma_trim_idempotent, str_eq,
};
use crate::merge::holds_string;

verus! {

/// The hex digits of `s`, upper-cased, in order.
pub open spec fn hex_upper(s: Seq<char>) -> Seq<char>
    decreases s.len(),
{
    if s.len() == 0 {
        s
    } else {
        let r = hex_upper(s.drop_last());
        if is_hex_digit(s.last()) {
            r.push(upper_char(s.last()))
        } else {
            r
        }
    }
}

fn char_is_hex(c: char) -> (r: bool)
    ensures
        r == is_hex_digit(c),
{
    let u = c as u32;
    (48 <= u && u <= 57) || (65 <= u && u <= 70) || (97 <= u && u <= 102)
}

/// The hex digits of a MAC address, upper-cased (`aa:bb-cc` gives `AABBCC`).
pub fn normalize_watch_mac(value: &str) -> (r: String)
    ensures
        r@ == hex_upper(value@),
{
    let chars = str_chars(value);
    let mut out: Vec<char> = Vec::new();
    let mut i: usize = 0;
    assert(chars@.subrange(0, 0) =~= Seq::<char>::empty());
    while i < chars.len()
        invariant
            i <= chars@.len(),
            out@ == hex_upper(chars@.subrange(0, i as int)),
        decreases chars@.len() - i,
    {
        proof {
            let pre = chars@.subrange(0, i + 1);
            assert(pre.drop_last() =~= chars@.subrange(0, i as int));
        }
        let c = chars[i];
        if char_is_hex(c) {
            out.push(char_upper(c));
        }
        i = i + 1;
    }
    assert(chars@.subrange(0, chars@.len() as int) =~= chars@);
    string_from_chars(out.as_slice())
}

/// A watch name in comparable form: trimmed, ASCII lower-case.
pub fn normalize_watch_name(value: &str) -> (r: String)
    ensures
        r@ == ascii_lower(trim(value@)),
{
    let t = trim_str(value);
    let c = str_chars(t.as_str());
    let l = lower_chars(c.as_slice());
    string_from_chars(l.as_slice())
}

/// The value holds exactly twelve hex digits, as a MAC address does.
pub fn looks_like_mac(value: &str) -> (r: bool)
    ensures
        r == (hex_upper(value@).len() == 12),
{
    let n = normalize_watch_mac(value);
    n.as_str().unicode_len() == 12
}

proof fn lemma_hex_upper_chars(s: Seq<char>)
    ensures
        forall|i: int| 0 <= i < hex_upper(s).len() ==> is_hex_digit(#[trigger] hex_upper(s)[i])
            && !(97 <= (hex_upper(s)[i] as u32) <= 122),
    decreases s.len(),
{
    if s.len() > 0 {
        lemma_hex_upper_chars(s.drop_last());
        let c = s.last();
        if is_hex_digit(c) {
            let u = upper_char(c);
            if 97 <= (c as u32) <= 122 {
                assert((u as u32) == (c as u32) - 32);
            } else {
                assert(u == c);
            }
            assert(is_hex_digit(u));
        }
        let r = hex_upper(s.drop_last());
        assert forall|i: int| 0 <= i < hex_upper(s).len() implies is_hex_digit(
            #[trigger] hex_upper(s)[i],
        ) && !(97 <= (hex_upper(s)[i] as u32) <= 122) by {
            if i < r.len() {
                assert(hex_upper(s)[i] == r[i]);
            }
        }
    }
}

proof fn lemma_hex_upper_fixed(s: Seq<char>)
    requires
        forall|i: int| 0 <= i < s.len() ==> is_hex_digit(#[trigger] s[i]) && !(97 <= (s[i] as u32)
            <= 122),
    ensures
        hex_upper(s) == s,
    decreases s.len(),
{
    if s.len() > 0 {
        lemma_hex_upper_fixed(s.drop_last());
        assert(s.drop_last().push(s.last()) =~= s);
    }
}

/// Normalising an address twice is normalising it once.
pub proof fn lemma_normalize_watch_mac_idempotent(s: Seq<char>)
    ensures
        hex_upper(hex_upper(s)) == hex_upper(s),
{
    lemma_hex_upper_chars(s);
    lemma_hex_upper_fixed(hex_upper(s));
}

proof fn lemma_lower_keeps_ws(s: Seq<char>)
    ensures
        forall|i: int| 0 <= i < s.len() ==> (is_ws(#[trigger] ascii_lower(s)[i]) <==> is_ws(s[i])),
        ascii_lower(s).len() == s.len(),
{
}

proof fn lemma_lower_idempotent(s: Seq<char>)
    ensures
        ascii_lower(ascii_lower(s)) == ascii_lower(s),
{
    assert(ascii_lower(ascii_lower(s)) =~= ascii_lower(s));
}

proof fn lemma_trim_of_trimmed_lower(t: Seq<char>)
    requires
        trim(t) == t,
    ensures
        trim(ascii_lower(t)) == ascii_lower(t),
{
    crate::text::lemma_trim_fixed_iff(t);
    lemma_lower_keeps_ws(t);
    crate::text::lemma_trim_fixed_iff(ascii_lower(t));
}

/// Normalising a name twice is normalising it once.
pub proof fn lemma_normalize_watch_name_idempotent(s: Seq<char>)
    ensures
        ascii_lower(trim(ascii_lower(trim(s)))) == ascii_lower(trim(s)),
{
    lemma_trim_idempotent(s);
    lemma_trim_of_trimmed_lower(trim(s));
    lemma_lower_idempotent(trim(s));
}


/// The colour of entries that have none (or an unusable one).
pub open spec fn default_watch_color() -> Seq<char> {
    "#2ecc71"@
}

fn default_watch_color_string() -> (r: String)
    ensures
        r@ == default_watch_color(),
{
    String::from_str("#2ecc71")
}

/// `s` without its leading `#` characters.
pub open spec fn strip_hashes(s: Seq<char>) -> Seq<char>
    decreases s.len(),
{
    if s.len() > 0 && s[0] == '#' {
        strip_hashes(s.drop_first())
    } else {
        s
    }
}

pub open spec fn all_hex(s: Seq<char>) -> bool {
    forall|i: int| 0 <= i < s.len() ==> is_hex_digit(#[trigger] s[i])
}

/// The colour text to check: the trimmed input with a leading `#`, or the
/// default colour when the input is blank.
pub open spec fn color_candidate(raw: Seq<char>) -> Seq<char> {
    let t = trim(raw);
    if t.len() == 0 {
        default_watch_color()
    } else if t[0] == '#' {
        t
    } else {
        seq!['#'] + t
    }
}

/// A colour in `#rrggbb` or `#rrggbbaa` form: the input when it is one (with
/// or without `#`), else the default colour.
pub open spec fn normalized_color(raw: Seq<char>) -> Seq<char> {
    let h = strip_hashes(color_candidate(raw));
    if (h.len() == 6 || h.len() == 8) && all_hex(h) {
        seq!['#'] + h
    } else {
        default_watch_color()
    }
}

proof fn lemma_strip_hashes_skip(s: Seq<char>, i: int)
    requires
        0 <= i <= s.len(),
        forall|j: int| 0 <= j < i ==> s[j] == '#',
    ensures
        strip_hashes(s) == strip_hashes(s.subrange(i, s.len() as int)),
    decreases i,
{
    if i > 0 {
        assert(s.drop_first().subrange(i - 1, s.drop_first().len() as int) =~= s.subrange(
            i,
            s.len() as int,
        ));
        lemma_strip_hashes_skip(s.drop_first(), i - 1);
    } else {
        assert(s.subrange(0, s.len() as int) =~= s);
    }
}

/// A watchlist colour in `#rrggbb` / `#rrggbbaa` form (see `normalized_color`).
pub fn normalize_watchlist_color(raw: &str) -> (r: String)
    ensures
        r@ == normalized_color(raw@),
{
    let t = trim_str(raw);
    let tc = str_chars(t.as_str());
    let mut candidate: Vec<char> = Vec::new();
    if tc.len() == 0 {
        push_str(&mut candidate, "#2ecc71");
    } else if tc[0] == '#' {
        push_all(&mut candidate, tc.as_slice());
    } else {
        candidate.push('#');
        push_all(&mut candidate, tc.as_slice());
    }
    assert(candidate@ =~= color_candidate(raw@));
    let mut i: usize = 0;
    while i < candidate.len() && candidate[i] == '#'
        invariant
            i <= candidate@.len(),
            forall|j: int| 0 <= j < i ==> candidate@[j] == '#',
        decreases candidate@.len() - i,
    {
        i = i + 1;
    }
    proof {
        lemma_strip_hashes_skip(candidate@, i as int);
    }
    let ghost stripped = candidate@.subrange(i as int, candidate@.len() as int);
    assert(stripped == strip_hashes(color_candidate(raw@)));
    let n = candidate.len() - i;
    let mut hex_ok = n == 6 || n == 8;
    let mut k: usize = i;
    while k < candidate.len()
        invariant
            i <= k <= candidate@.len(),
            hex_ok ==> forall|j: int| i <= j < k ==> is_hex_digit(#[trigger] candidate@[j]),
            hex_ok ==> (n == 6 || n == 8),
            !hex_ok ==> !((n == 6 || n == 8) && all_hex(
                candidate@.subrange(i as int, candidate@.len() as int),
            )),
            n == candidate@.len() - i,
            stripped == candidate@.subrange(i as int, candidate@.len() as int),
            stripped == strip_hashes(color_candidate(raw@)),
        decreases candidate@.len() - k,
    {
        if !char_is_hex(candidate[k]) {
            proof {
                let rest = candidate@.subrange(i as int, candidate@.len() as int);
                assert(rest[k - i] == candidate@[k as int]);
            }
            hex_ok = false;
        }
        k = k + 1;
    }
    if hex_ok {
        proof {
            let rest = candidate@.subrange(i as int, candidate@.len() as int);
            assert forall|j: int| 0 <= j < rest.len() implies is_hex_digit(#[trigger] rest[j]) by {
                assert(rest[j] == candidate@[i + j]);
            }
        }
        let mut out: Vec<char> = Vec::new();
        out.push('#');
        let mut m: usize = i;
        while m < candidate.len()
            invariant
                i <= m <= candidate@.len(),
                out@ == seq!['#'] + candidate@.subrange(i as int, m as int),
                stripped == candidate@.subrange(i as int, candidate@.len() as int),
                stripped == strip_hashes(color_candidate(raw@)),
                (n == 6 || n == 8) && all_hex(stripped),
                n == candidate@.len() - i,
            decreases candidate@.len() - m,
        {
            out.push(candidate[m]);
            m = m + 1;
            assert(out@ =~= seq!['#'] + candidate@.subrange(i as int, m as int));
        }
        assert(out@ =~= seq!['#'] + stripped);
        string_from_chars(out.as_slice())
    } else {
        default_watch_color_string()
    }
}

proof fn lemma_hash_hex_is_trimmed(h: Seq<char>)
    requires
        h.len() > 0,
        all_hex(h),
    ensures
        trim(seq!['#'] + h) == seq!['#'] + h,
        strip_hashes(seq!['#'] + h) == h,
{
    let n = seq!['#'] + h;
    assert(!is_ws(n[0]));
    assert(n.last() == h.last());
    assert(is_hex_digit(h[h.len() - 1]));
    assert(!is_ws(n.last()));
    crate::text::lemma_trim_fixed_iff(n);
    assert(n.drop_first() =~= h);
    assert(is_hex_digit(h[0]));
    assert(h[0] != '#');
    assert(strip_hashes(h) == h);
}

/// A normalised colour normalises to itself.
pub proof fn lemma_normalize_watchlist_color_idempotent(raw: Seq<char>)
    ensures
        normalized_color(normalized_color(raw)) == normalized_color(raw),
{
    reveal_strlit("#2ecc71");
    let h = strip_hashes(color_candidate(raw));
    if (h.len() == 6 || h.len() == 8) && all_hex(h) {
        lemma_hash_hex_is_trimmed(h);
    } else {
        let d = seq!['2', 'e', 'c', 'c', '7', '1'];
        assert(default_watch_color() =~= seq!['#'] + d);
        assert(all_hex(d));
        lemma_hash_hex_is_trimmed(d);
    }
}


/// What a watchlist entry is shown as: its label, else its name, else its
/// address (each trimmed), else "Watchlist".
pub open spec fn entry_label_text(e: WatchlistEntry) -> Seq<char> {
    if trim(e.label@).len() > 0 {
        trim(e.label@)
    } else if trim(e.name@).len() > 0 {
        trim(e.name@)
    } else if trim(e.mac@).len() > 0 {
        trim(e.mac@)
    } else {
        "Watchlist"@
    }
}

pub fn watchlist_entry_label(entry: &WatchlistEntry) -> (r: String)
    ensures
        r@ == entry_label_text(*entry),
{
    let label = trim_str(entry.label.as_str());
    if !label.as_str().is_empty() {
        return label;
    }
    let name = trim_str(entry.name.as_str());
    if !name.as_str().is_empty() {
        return name;
    }
    let mac = trim_str(entry.mac.as_str());
    if !mac.as_str().is_empty() {
        return mac;
    }
    String::from_str("Watchlist")
}

/// The style class of watchlist entry `index`: `watchlist-row-<index>`.
pub open spec fn css_class_text(index: nat) -> Seq<char> {
    "watchlist-row-"@ + decimal(index)
}

pub fn watchlist_css_class(index: usize) -> (r: String)
    ensures
        r@ == css_class_text(index as nat),
{
    let mut out: Vec<char> = Vec::new();
    push_str(&mut out, "watchlist-row-");
    push_decimal(&mut out, index as u64);
    string_from_chars(out.as_slice())
}

/// The style classes of all entries, in order.
pub fn watchlist_css_classes(watchlists: &WatchlistSettings) -> (r: Vec<String>)
    ensures
        r@.len() == watchlists.entries@.len(),
        forall|i: int| 0 <= i < r@.len() ==> (#[trigger] r@[i])@ == css_class_text(i as nat),
{
    let mut out: Vec<String> = Vec::new();
    let mut i: usize = 0;
    while i < watchlists.entries.len()
        invariant
            i <= watchlists.entries@.len(),
            out@.len() == i,
            forall|k: int| 0 <= k < i ==> (#[trigger] out@[k])@ == css_class_text(k as nat),
        decreases watchlists.entries@.len() - i,
    {
        out.push(watchlist_css_class(i));
        i = i + 1;
    }
    out
}

/// How a device type is written in alert keys.
pub open spec fn device_type_text(t: WatchlistDeviceType) -> Seq<char> {
    match t {
        WatchlistDeviceType::Wifi => "Wifi"@,
        WatchlistDeviceType::Bluetooth => "Bluetooth"@,
    }
}

fn push_device_type(out: &mut Vec<char>, t: WatchlistDeviceType)
    ensures
        final(out)@ == old(out)@ + device_type_text(t),
{
    match t {
        WatchlistDeviceType::Wifi => push_str(out, "Wifi"),
        WatchlistDeviceType::Bluetooth => push_str(out, "Bluetooth"),
    }
}

/// A watchlist hit: how to show and style it, and the key that identifies
/// it for alerting once.
pub struct WatchlistMatch {
    pub label: String,
    pub css_class: String,
    pub alert_key: String,
}

/// The alert key of entry `index`: `<type>:<index>:<address>:<name>`, with
/// the address and name normalised.
pub open spec fn alert_key_text(index: nat, e: WatchlistEntry) -> Seq<char> {
    device_type_text(e.device_type) + ":"@ + decimal(index) + ":"@ + hex_upper(e.mac@) + ":"@
        + ascii_lower(trim(e.name@))
}

pub open spec fn match_view(m: WatchlistMatch) -> (Seq<char>, Seq<char>, Seq<char>) {
    (m.label@, m.css_class@, m.alert_key@)
}

/// What a hit on entry `index` shows.
pub open spec fn hit_view(index: nat, e: WatchlistEntry) -> (Seq<char>, Seq<char>, Seq<char>) {
    (entry_label_text(e), css_class_text(index), alert_key_text(index, e))
}

pub fn build_watchlist_match(index: usize, entry: &WatchlistEntry) -> (r: WatchlistMatch)
    ensures
        match_view(r) == hit_view(index as nat, *entry),
{
    let mut key: Vec<char> = Vec::new();
    push_device_type(&mut key, entry.device_type);
    push_str(&mut key, ":");
    push_decimal(&mut key, index as u64);
    push_str(&mut key, ":");
    push_str(&mut key, normalize_watch_mac(entry.mac.as_str()).as_str());
    push_str(&mut key, ":");
    push_str(&mut key, normalize_watch_name(entry.name.as_str()).as_str());
    WatchlistMatch {
        label: watchlist_entry_label(entry),
        css_class: watchlist_css_class(index),
        alert_key: string_from_chars(key.as_slice()),
    }
}

/// The entry names an address and it is `mac` (compared on hex digits).
pub open spec fn matches_mac(e: WatchlistEntry, mac: Seq<char>) -> bool {
    trim(e.mac@).len() > 0 && hex_upper(e.mac@) == hex_upper(mac)
}

/// The entry names a name and it is `name` (trimmed, ignoring ASCII case).
pub open spec fn matches_name(e: WatchlistEntry, name: Seq<char>) -> bool {
    trim(e.name@).len() > 0 && ascii_lower(trim(e.name@)) == ascii_lower(trim(name))
}

pub fn watchlist_entry_matches_mac(entry: &WatchlistEntry, mac: &str) -> (r: bool)
    ensures
        r == matches_mac(*entry, mac@),
{
    if trim_str(entry.mac.as_str()).as_str().is_empty() {
        return false;
    }
    let a = normalize_watch_mac(entry.mac.as_str());
    let b = normalize_watch_mac(mac);
    str_eq(a.as_str(), b.as_str())
}

pub fn watchlist_entry_matches_name(entry: &WatchlistEntry, name: &str) -> (r: bool)
    ensures
        r == matches_name(*entry, name@),
{
    if trim_str(entry.name.as_str()).as_str().is_empty() {
        return false;
    }
    let a = normalize_watch_name(entry.name.as_str());
    let b = normalize_watch_name(name);
    str_eq(a.as_str(), b.as_str())
}

/// Entry `e` is a hit for access point `ap`: a Wi-Fi entry naming its BSSID
/// or its SSID.
pub open spec fn ap_hit(e: WatchlistEntry, ap: AccessPointRecord) -> bool {
    &&& e.device_type == WatchlistDeviceType::Wifi
    &&& (matches_mac(e, ap.bssid@) || match ap.ssid {
        Some(s) => matches_name(e, s@),
        None => false,
    })
}

/// Index of the first entry that is a hit for `ap`.
pub open spec fn first_ap_hit(entries: Seq<WatchlistEntry>, ap: AccessPointRecord) -> Option<int>
    decreases entries.len(),
{
    if entries.len() == 0 {
        None
    } else if ap_hit(entries[0], ap) {
        Some(0)
    } else {
        match first_ap_hit(entries.drop_first(), ap) {
            Some(i) => Some(i + 1),
            None => None,
        }
    }
}

proof fn lemma_first_ap_hit(entries: Seq<WatchlistEntry>, ap: AccessPointRecord)
    ensures
        match first_ap_hit(entries, ap) {
            Some(i) => 0 <= i < entries.len() && ap_hit(entries[i], ap) && forall|j: int|
                0 <= j < i ==> !ap_hit(#[trigger] entries[j], ap),
            None => forall|j: int| 0 <= j < entries.len() ==> !ap_hit(#[trigger] entries[j], ap),
        },
    decreases entries.len(),
{
    if entries.len() > 0 && !ap_hit(entries[0], ap) {
        lemma_first_ap_hit(entries.drop_first(), ap);
        assert forall|j: int| 0 < j < entries.len() implies entries[j] == entries.drop_first()[j
            - 1] by {}
    }
}

pub open spec fn opt_match_view(m: Option<WatchlistMatch>) -> Option<(Seq<char>, Seq<char>, Seq<char>)> {
    match m {
        Some(x) => Some(match_view(x)),
        None => None,
    }
}

/// The first watchlist entry that is a hit for access point `ap`.
pub fn ap_watchlist_match(ap: &AccessPointRecord, watchlists: &WatchlistSettings) -> (r: Option<WatchlistMatch>)
    ensures
        opt_match_view(r) == match first_ap_hit(watchlists.entries@, *ap) {
            Some(i) => Some(hit_view(i as nat, watchlists.entries@[i])),
            None => None,
        },
{
    let entries = &watchlists.entries;
    proof {
        lemma_first_ap_hit(entries@, *ap);
    }
    let mut i: usize = 0;
    while i < entries.len()
        invariant
            *entries == watchlists.entries,
            i <= entries@.len(),
            forall|j: int| 0 <= j < i ==> !ap_hit(#[trigger] entries@[j], *ap),
        decreases entries@.len() - i,
    {
        let e = &entries[i];
        let hit = match e.device_type {
            WatchlistDeviceType::Wifi => {
                watchlist_entry_matches_mac(e, ap.bssid.as_str()) || match &ap.ssid {
                    Some(s) => watchlist_entry_matches_name(e, s.as_str()),
                    None => false,
                }
            },
            WatchlistDeviceType::Bluetooth => false,
        };
        assert(*e == entries@[i as int]);
        assert(hit == ap_hit(entries@[i as int], *ap));
        if hit {
            proof {
                lemma_first_ap_hit(entries@, *ap);
                match first_ap_hit(entries@, *ap) {
                    Some(k) => {
                        if k > i {
                            assert(ap_hit(entries@[i as int], *ap));
                        }
                        if k < i {
                            assert(!ap_hit(entries@[k], *ap));
                        }
                    },
                    None => {
                        assert(ap_hit(entries@[i as int], *ap));
                    },
                }
                assert(first_ap_hit(entries@, *ap) == Some(i as int));
            }
            return Some(build_watchlist_match(i, e));
        }
        i = i + 1;
    }
    proof {
        lemma_first_ap_hit(entries@, *ap);
        match first_ap_hit(entries@, *ap) {
            Some(k) => {
                assert(!ap_hit(entries@[k], *ap));
            },
            None => {},
        }
    }
    None
}


/// Index of the first access point whose BSSID is `bssid`, ignoring ASCII case.
pub open spec fn first_bssid_ci(aps: Seq<AccessPointRecord>, bssid: Seq<char>) -> Option<int>
    decreases aps.len(),
{
    if aps.len() == 0 {
        None
    } else if eq_ignore_case(aps[0].bssid@, bssid) {
        Some(0)
    } else {
        match first_bssid_ci(aps.drop_first(), bssid) {
            Some(i) => Some(i + 1),
            None => None,
        }
    }
}

pub(crate) proof fn lemma_first_bssid_ci(aps: Seq<AccessPointRecord>, bssid: Seq<char>)
    ensures
        match first_bssid_ci(aps, bssid) {
            Some(i) => 0 <= i < aps.len() && eq_ignore_case(aps[i].bssid@, bssid) && forall|j: int|
                0 <= j < i ==> !eq_ignore_case((#[trigger] aps[j]).bssid@, bssid),
            None => forall|j: int|
                0 <= j < aps.len() ==> !eq_ignore_case((#[trigger] aps[j]).bssid@, bssid),
        },
    decreases aps.len(),
{
    if aps.len() > 0 && !eq_ignore_case(aps[0].bssid@, bssid) {
        lemma_first_bssid_ci(aps.drop_first(), bssid);
        assert forall|j: int| 0 < j < aps.len() implies aps[j] == aps.drop_first()[j - 1] by {}
    }
}

/// The SSID of the access point a client is associated with (`<hidden>`
/// when it has none), if that access point is known.
pub open spec fn associated_ssid(aps: Seq<AccessPointRecord>, client: ClientRecord) -> Option<Seq<char>> {
    match client.associated_ap {
        Some(a) => match first_bssid_ci(aps, a@) {
            Some(k) => Some(
                match aps[k].ssid {
                    Some(s) => s@,
                    None => "<hidden>"@,
                },
            ),
            None => None,
        },
        None => None,
    }
}

pub fn associated_ssid_for_client(aps: &[AccessPointRecord], client: &ClientRecord) -> (r: Option<String>)
    ensures
        match r {
            Some(s) => associated_ssid(aps@, *client) == Some(s@),
            None => associated_ssid(aps@, *client) is None,
        },
{
    let a = match &client.associated_ap {
        Some(a) => a,
        None => {
            return None;
        },
    };
    let ac = str_chars(a.as_str());
    proof {
        lemma_first_bssid_ci(aps@, a@);
    }
    let mut i: usize = 0;
    while i < aps.len()
        invariant
            i <= aps@.len(),
            ac@ == a@,
            client.associated_ap == Some(*a),
            forall|j: int| 0 <= j < i ==> !eq_ignore_case((#[trigger] aps@[j]).bssid@, a@),
        decreases aps@.len() - i,
    {
        let bc = str_chars(aps[i].bssid.as_str());
        if eq_ignore_case_chars(bc.as_slice(), ac.as_slice()) {
            proof {
                lemma_first_bssid_ci(aps@, a@);
                match first_bssid_ci(aps@, a@) {
                    Some(k) => {
                        if k > i {
                            assert(eq_ignore_case(aps@[i as int].bssid@, a@));
                        }
                        if k < i {
                            assert(!eq_ignore_case(aps@[k].bssid@, a@));
                        }
                    },
                    None => {
                        assert(eq_ignore_case(aps@[i as int].bssid@, a@));
                    },
                }
                assert(first_bssid_ci(aps@, a@) == Some(i as int));
                reveal_strlit("<hidden>");
            }
            return match &aps[i].ssid {
                Some(s) => Some(s.clone()),
                None => Some(String::from_str("<hidden>")),
            };
        }
        i = i + 1;
    }
    proof {
        lemma_first_bssid_ci(aps@, a@);
        match first_bssid_ci(aps@, a@) {
            Some(k) => {
                assert(!eq_ignore_case(aps@[k].bssid@, a@));
            },
            None => {},
        }
    }
    None
}

/// Entry `e` is a hit for a client whose access point is named
/// `assoc_ssid`: a Wi-Fi entry naming its MAC, that SSID, or one of the
/// networks it probed for.
pub open spec fn client_hit(e: WatchlistEntry, c: ClientRecord, assoc_ssid: Option<Seq<char>>) -> bool {
    &&& e.device_type == WatchlistDeviceType::Wifi
    &&& {
        ||| matches_mac(e, c.mac@)
        ||| (match assoc_ssid {
            Some(s) => matches_name(e, s),
            None => false,
        })
        ||| exists|k: int| 0 <= k < c.probes@.len() && matches_name(e, #[trigger] c.probes@[k]@)
    }
}

pub open spec fn first_client_hit(entries: Seq<WatchlistEntry>, c: ClientRecord, assoc_ssid: Option<Seq<char>>) -> Option<int>
    decreases entries.len(),
{
    if entries.len() == 0 {
        None
    } else if client_hit(entries[0], c, assoc_ssid) {
        Some(0)
    } else {
        match first_client_hit(entries.drop_first(), c, assoc_ssid) {
            Some(i) => Some(i + 1),
            None => None,
        }
    }
}

proof fn lemma_first_client_hit(entries: Seq<WatchlistEntry>, c: ClientRecord, a: Option<Seq<char>>)
    ensures
        match first_client_hit(entries, c, a) {
            Some(i) => 0 <= i < entries.len() && client_hit(entries[i], c, a) && forall|j: int|
                0 <= j < i ==> !client_hit(#[trigger] entries[j], c, a),
            None => forall|j: int| 0 <= j < entries.len() ==> !client_hit(#[trigger] entries[j], c, a),
        },
    decreases entries.len(),
{
    if entries.len() > 0 && !client_hit(entries[0], c, a) {
        lemma_first_client_hit(entries.drop_first(), c, a);
        assert forall|j: int| 0 < j < entries.len() implies entries[j] == entries.drop_first()[j
            - 1] by {}
    }
}

fn any_probe_matches(entry: &WatchlistEntry, probes: &Vec<String>) -> (r: bool)
    ensures
        r == exists|k: int| 0 <= k < probes@.len() && matches_name(*entry, #[trigger] probes@[k]@),
{
    let mut i: usize = 0;
    while i < probes.len()
        invariant
            i <= probes@.len(),
            forall|k: int| 0 <= k < i ==> !matches_name(*entry, #[trigger] probes@[k]@),
        decreases probes@.len() - i,
    {
        if watchlist_entry_matches_name(entry, probes[i].as_str()) {
            return true;
        }
        i = i + 1;
    }
    false
}

/// The first watchlist entry that is a hit for `client` (see `client_hit`,
/// with the SSID of its access point among `aps`).
pub fn client_watchlist_match(
    client: &ClientRecord,
    aps: &[AccessPointRecord],
    watchlists: &WatchlistSettings,
) -> (r: Option<WatchlistMatch>)
    ensures
        opt_match_view(r) == match first_client_hit(
            watchlists.entries@,
            *client,
            associated_ssid(aps@, *client),
        ) {
            Some(i) => Some(hit_view(i as nat, watchlists.entries@[i])),
            None => None,
        },
{
    let assoc = associated_ssid_for_client(aps, client);
    let ghost a = associated_ssid(aps@, *client);
    let entries = &watchlists.entries;
    proof {
        lemma_first_client_hit(entries@, *client, a);
    }
    let mut i: usize = 0;
    while i < entries.len()
        invariant
            *entries == watchlists.entries,
            a == associated_ssid(aps@, *client),
            match assoc {
                Some(s) => a == Some(s@),
                None => a is None,
            },
            i <= entries@.len(),
            forall|j: int| 0 <= j < i ==> !client_hit(#[trigger] entries@[j], *client, a),
        decreases entries@.len() - i,
    {
        let e = &entries[i];
        let hit = match e.device_type {
            WatchlistDeviceType::Wifi => {
                watchlist_entry_matches_mac(e, client.mac.as_str()) || (match &assoc {
                    Some(s) => watchlist_entry_matches_name(e, s.as_str()),
                    None => false,
                }) || any_probe_matches(e, &client.probes)
            },
            WatchlistDeviceType::Bluetooth => false,
        };
        assert(hit == client_hit(entries@[i as int], *client, a));
        if hit {
            proof {
                lemma_first_client_hit(entries@, *client, a);
                match first_client_hit(entries@, *client, a) {
                    Some(k) => {
                        if k > i {
                            assert(client_hit(entries@[i as int], *client, a));
                        }
                        if k < i {
                            assert(!client_hit(entries@[k], *client, a));
                        }
                    },
                    None => {
                        assert(client_hit(entries@[i as int], *client, a));
                    },
                }
            }
            return Some(build_watchlist_match(i, e));
        }
        i = i + 1;
    }
    proof {
        lemma_first_client_hit(entries@, *client, a);
        match first_client_hit(entries@, *client, a) {
            Some(k) => {
                assert(!client_hit(entries@[k], *client, a));
            },
            None => {},
        }
    }
    None
}

/// The name a Bluetooth device is shown by: its advertised name, else its
/// alias, else nothing.
pub open spec fn display_name(d: BluetoothDeviceRecord) -> Seq<char> {
    match d.advertised_name {
        Some(n) => n@,
        None => match d.alias {
            Some(a) => a@,
            None => Seq::empty(),
        },
    }
}

pub fn bluetooth_display_name(device: &BluetoothDeviceRecord) -> (r: String)
    ensures
        r@ == display_name(*device),
{
    match &device.advertised_name {
        Some(n) => n.clone(),
        None => match &device.alias {
            Some(a) => a.clone(),
            None => String::new(),
        },
    }
}

pub open spec fn or_empty(o: Option<String>) -> Seq<char> {
    match o {
        Some(s) => s@,
        None => Seq::empty(),
    }
}

/// Entry `e` is a hit for Bluetooth device `d`: a Bluetooth entry naming its
/// MAC, or one of its non-empty names (shown, advertised, alias).
pub open spec fn bluetooth_hit(e: WatchlistEntry, d: BluetoothDeviceRecord) -> bool {
    &&& e.device_type == WatchlistDeviceType::Bluetooth
    &&& {
        ||| matches_mac(e, d.mac@)
        ||| (display_name(d).len() > 0 && matches_name(e, display_name(d)))
        ||| (or_empty(d.advertised_name).len() > 0 && matches_name(e, or_empty(d.advertised_name)))
        ||| (or_empty(d.alias).len() > 0 && matches_name(e, or_empty(d.alias)))
    }
}

pub open spec fn first_bluetooth_hit(entries: Seq<WatchlistEntry>, d: BluetoothDeviceRecord) -> Option<int>
    decreases entries.len(),
{
    if entries.len() == 0 {
        None
    } else if bluetooth_hit(entries[0], d) {
        Some(0)
    } else {
        match first_bluetooth_hit(entries.drop_first(), d) {
            Some(i) => Some(i + 1),
            None => None,
        }
    }
}

proof fn lemma_first_bluetooth_hit(entries: Seq<WatchlistEntry>, d: BluetoothDeviceRecord)
    ensures
        match first_bluetooth_hit(entries, d) {
            Some(i) => 0 <= i < entries.len() && bluetooth_hit(entries[i], d) && forall|j: int|
                0 <= j < i ==> !bluetooth_hit(#[trigger] entries[j], d),
            None => forall|j: int| 0 <= j < entries.len() ==> !bluetooth_hit(#[trigger] entries[j], d),
        },
    decreases entries.len(),
{
    if entries.len() > 0 && !bluetooth_hit(entries[0], d) {
        lemma_first_bluetooth_hit(entries.drop_first(), d);
        assert forall|j: int| 0 < j < entries.len() implies entries[j] == entries.drop_first()[j
            - 1] by {}
    }
}

fn name_hit(entry: &WatchlistEntry, name: &str) -> (r: bool)
    ensures
        r == (name@.len() > 0 && matches_name(*entry, name@)),
{
    !name.is_empty() && watchlist_entry_matches_name(entry, name)
}

fn opt_str(o: &Option<String>) -> (r: &str)
    ensures
        r@ == or_empty(*o),
{
    match o {
        Some(s) => s.as_str(),
        None => {
            proof {
                reveal_strlit("");
            }
            ""
        },
    }
}

/// The first watchlist entry that is a hit for Bluetooth device `device`.
pub fn bluetooth_watchlist_match(device: &BluetoothDeviceRecord, watchlists: &WatchlistSettings) -> (r: Option<WatchlistMatch>)
    ensures
        opt_match_view(r) == match first_bluetooth_hit(watchlists.entries@, *device) {
            Some(i) => Some(hit_view(i as nat, watchlists.entries@[i])),
            None => None,
        },
{
    let shown = bluetooth_display_name(device);
    let entries = &watchlists.entries;
    proof {
        lemma_first_bluetooth_hit(entries@, *device);
    }
    let mut i: usize = 0;
    while i < entries.len()
        invariant
            *entries == watchlists.entries,
            shown@ == display_name(*device),
            i <= entries@.len(),
            forall|j: int| 0 <= j < i ==> !bluetooth_hit(#[trigger] entries@[j], *device),
        decreases entries@.len() - i,
    {
        let e = &entries[i];
        let hit = match e.device_type {
            WatchlistDeviceType::Bluetooth => {
                watchlist_entry_matches_mac(e, device.mac.as_str()) || name_hit(e, shown.as_str())
                    || name_hit(e, opt_str(&device.advertised_name)) || name_hit(
                    e,
                    opt_str(&device.alias),
                )
            },
            WatchlistDeviceType::Wifi => false,
        };
        assert(hit == bluetooth_hit(entries@[i as int], *device));
        if hit {
            proof {
                lemma_first_bluetooth_hit(entries@, *device);
                match first_bluetooth_hit(entries@, *device) {
                    Some(k) => {
                        if k > i {
                            assert(bluetooth_hit(entries@[i as int], *device));
                        }
                        if k < i {
                            assert(!bluetooth_hit(entries@[k], *device));
                        }
                    },
                    None => {
                        assert(bluetooth_hit(entries@[i as int], *device));
                    },
                }
            }
            return Some(build_watchlist_match(i, e));
        }
        i = i + 1;
    }
    proof {
        lemma_first_bluetooth_hit(entries@, *device);
        match first_bluetooth_hit(entries@, *device) {
            Some(k) => {
                assert(!bluetooth_hit(entries@[k], *device));
            },
            None => {},
        }
    }
    None
}


/// A watchlist entry as plain values: label, type, address, name, colour.
pub type EntryView = (Seq<char>, WatchlistDeviceType, Seq<char>, Seq<char>, Seq<char>);

pub open spec fn entry_view(e: WatchlistEntry) -> EntryView {
    (e.label@, e.device_type, e.mac@, e.name@, e.color_hex@)
}

pub open spec fn entry_views(s: Seq<WatchlistEntry>) -> Seq<EntryView> {
    s.map_values(|e: WatchlistEntry| entry_view(e))
}

/// The entry an old-style plain list item becomes: a Wi-Fi entry labelled
/// with the (trimmed) item, naming it as an address when it looks like one
/// and as a name otherwise.
pub open spec fn entry_from_plain(t: Seq<char>) -> EntryView {
    if hex_upper(t).len() == 12 {
        (t, WatchlistDeviceType::Wifi, t, Seq::empty(), default_watch_color())
    } else {
        (t, WatchlistDeviceType::Wifi, Seq::empty(), t, default_watch_color())
    }
}

/// The entries the non-blank items of old-style plain lists become.
pub open spec fn plain_entries(items: Seq<Seq<char>>) -> Seq<EntryView>
    decreases items.len(),
{
    if items.len() == 0 {
        Seq::empty()
    } else {
        let rest = plain_entries(items.drop_last());
        let t = trim(items.last());
        if t.len() == 0 {
            rest
        } else {
            rest.push(entry_from_plain(t))
        }
    }
}

/// An entry with its texts trimmed and its colour normalised.
pub open spec fn tidy(v: EntryView) -> EntryView {
    (trim(v.0), v.1, trim(v.2), trim(v.3), normalized_color(v.4))
}

/// `entry_label_text` on plain values.
pub open spec fn view_label(v: EntryView) -> Seq<char> {
    if trim(v.0).len() > 0 {
        trim(v.0)
    } else if trim(v.3).len() > 0 {
        trim(v.3)
    } else if trim(v.2).len() > 0 {
        trim(v.2)
    } else {
        "Watchlist"@
    }
}

/// What makes two entries duplicates: type, normalised address, normalised
/// name and label, joined with `|`.
pub open spec fn entry_key(v: EntryView) -> Seq<char> {
    device_type_text(v.1) + "|"@ + hex_upper(v.2) + "|"@ + ascii_lower(trim(v.3)) + "|"@
        + view_label(v)
}

/// Tidying each entry in turn, dropping those with neither address nor name
/// and those whose key was seen before: the entries kept and the keys seen.
pub open spec fn dedupe_entries(vs: Seq<EntryView>) -> (Seq<EntryView>, Seq<Seq<char>>)
    decreases vs.len(),
{
    if vs.len() == 0 {
        (Seq::empty(), Seq::empty())
    } else {
        let prev = dedupe_entries(vs.drop_last());
        let t = tidy(vs.last());
        if t.2.len() == 0 && t.3.len() == 0 {
            prev
        } else if prev.1.contains(entry_key(t)) {
            prev
        } else {
            (prev.0.push(t), prev.1.push(entry_key(t)))
        }
    }
}

fn copy_entry(e: &WatchlistEntry) -> (r: WatchlistEntry)
    ensures
        entry_view(r) == entry_view(*e),
{
    WatchlistEntry {
        label: e.label.clone(),
        device_type: e.device_type,
        mac: e.mac.clone(),
        name: e.name.clone(),
        color_hex: e.color_hex.clone(),
    }
}

fn append_strings(out: &mut Vec<String>, src: &Vec<String>)
    ensures
        string_seqs(final(out)@) == string_seqs(old(out)@) + string_seqs(src@),
{
    let mut i: usize = 0;
    while i < src.len()
        invariant
            i <= src@.len(),
            string_seqs(out@) == string_seqs(old(out)@) + string_seqs(src@).subrange(0, i as int),
        decreases src@.len() - i,
    {
        let ghost before = string_seqs(out@);
        let item = src[i].clone();
        out.push(item);
        assert(string_seqs(out@) =~= before.push(src@[i as int]@));
        i = i + 1;
        assert(string_seqs(out@) =~= string_seqs(old(out)@) + string_seqs(src@).subrange(
            0,
            i as int,
        ));
    }
    assert(string_seqs(src@).subrange(0, src@.len() as int) =~= string_seqs(src@));
}

/// Brings watchlist settings to the current form: items of the old plain
/// network and device lists become entries after the existing ones; every
/// entry is tidied (see `tidy`); entries with neither address nor name, and
/// duplicates (see `entry_key`), are dropped; the plain lists are emptied.
pub fn migrate_watchlist_settings(watchlists: &mut WatchlistSettings)
    ensures
        entry_views(final(watchlists).entries@) == dedupe_entries(
            entry_views(old(watchlists).entries@) + plain_entries(
                string_seqs(old(watchlists).networks@) + string_seqs(old(watchlists).devices@),
            ),
        ).0,
        final(watchlists).networks@.len() == 0,
        final(watchlists).devices@.len() == 0,
{
    let mut migrated: Vec<WatchlistEntry> = Vec::new();
    let mut i: usize = 0;
    while i < watchlists.entries.len()
        invariant
            i <= watchlists.entries@.len(),
            *watchlists == *old(watchlists),
            entry_views(migrated@) == entry_views(watchlists.entries@).subrange(0, i as int),
        decreases watchlists.entries@.len() - i,
    {
        let ghost before = entry_views(migrated@);
        let c = copy_entry(&watchlists.entries[i]);
        assert(entry_view(c) == entry_views(watchlists.entries@)[i as int]);
        migrated.push(c);
        assert(entry_views(migrated@) =~= before.push(entry_view(c)));
        i = i + 1;
        assert(entry_views(migrated@) =~= entry_views(watchlists.entries@).subrange(0, i as int));
    }
    let ghost base = entry_views(migrated@);
    assert(base =~= entry_views(old(watchlists).entries@));
    let mut plain: Vec<String> = Vec::new();
    append_strings(&mut plain, &watchlists.networks);
    append_strings(&mut plain, &watchlists.devices);
    let ghost items = string_seqs(plain@);
    assert(items =~= string_seqs(old(watchlists).networks@) + string_seqs(old(watchlists).devices@));
    let mut k: usize = 0;
    assert(items.subrange(0, 0) =~= Seq::<Seq<char>>::empty());
    assert(base + plain_entries(Seq::<Seq<char>>::empty()) =~= base);
    while k < plain.len()
        invariant
            k <= plain@.len(),
            items == string_seqs(plain@),
            entry_views(migrated@) == base + plain_entries(items.subrange(0, k as int)),
        decreases plain@.len() - k,
    {
        proof {
            let pre = items.subrange(0, k + 1);
            assert(pre.drop_last() =~= items.subrange(0, k as int));
            assert(pre.last() == plain@[k as int]@);
        }
        let t = trim_str(plain[k].as_str());
        if !t.as_str().is_empty() {
            let as_mac = looks_like_mac(t.as_str());
            let entry = if as_mac {
                WatchlistEntry {
                    label: t.clone(),
                    device_type: WatchlistDeviceType::Wifi,
                    mac: t,
                    name: String::new(),
                    color_hex: default_watch_color_string(),
                }
            } else {
                WatchlistEntry {
                    label: t.clone(),
                    device_type: WatchlistDeviceType::Wifi,
                    mac: String::new(),
                    name: t,
                    color_hex: default_watch_color_string(),
                }
            };
            let ghost before = entry_views(migrated@);
            migrated.push(entry);
            assert(entry_views(migrated@) =~= before.push(entry_view(entry)));
        }
        k = k + 1;
    }
    assert(items.subrange(0, plain@.len() as int) =~= items);
    let ghost all = entry_views(migrated@);
    let mut kept: Vec<WatchlistEntry> = Vec::new();
    let mut seen: Vec<String> = Vec::new();
    let mut j: usize = 0;
    assert(all.subrange(0, 0) =~= Seq::<EntryView>::empty());
    while j < migrated.len()
        invariant
            j <= migrated@.len(),
            all == entry_views(migrated@),
            entry_views(kept@) == dedupe_entries(all.subrange(0, j as int)).0,
            string_seqs(seen@) == dedupe_entries(all.subrange(0, j as int)).1,
        decreases migrated@.len() - j,
    {
        proof {
            let pre = all.subrange(0, j + 1);
            assert(pre.drop_last() =~= all.subrange(0, j as int));
            assert(pre.last() == entry_view(migrated@[j as int]));
        }
        let e = &migrated[j];
        let label = trim_str(e.label.as_str());
        let mac = trim_str(e.mac.as_str());
        let name = trim_str(e.name.as_str());
        let color = normalize_watchlist_color(e.color_hex.as_str());
        if !(mac.as_str().is_empty() && name.as_str().is_empty()) {
            let tidy_entry = WatchlistEntry {
                label,
                device_type: e.device_type,
                mac,
                name,
                color_hex: color,
            };
            let ghost tv = entry_view(tidy_entry);
            assert(tv == tidy(entry_view(migrated@[j as int])));
            let mut key: Vec<char> = Vec::new();
            push_device_type(&mut key, tidy_entry.device_type);
            push_str(&mut key, "|");
            push_str(&mut key, normalize_watch_mac(tidy_entry.mac.as_str()).as_str());
            push_str(&mut key, "|");
            push_str(&mut key, normalize_watch_name(tidy_entry.name.as_str()).as_str());
            push_str(&mut key, "|");
            push_str(&mut key, watchlist_entry_label(&tidy_entry).as_str());
            let key_string = string_from_chars(key.as_slice());
            assert(key_string@ == entry_key(tv));
            if !holds_string(&seen, key_string.as_str()) {
                let ghost kb = entry_views(kept@);
                let ghost sb = string_seqs(seen@);
                kept.push(tidy_entry);
                seen.push(key_string);
                assert(entry_views(kept@) =~= kb.push(tv));
                assert(string_seqs(seen@) =~= sb.push(entry_key(tv)));
            }
        }
        j = j + 1;
    }
    assert(all.subrange(0, migrated@.len() as int) =~= all);
    watchlists.entries = kept;
    watchlists.networks = Vec::new();
    watchlists.devices = Vec::new();
}


/// Upper-casing an address first does not change its hex digits.
pub proof fn lemma_hex_upper_ignores_case(s: Seq<char>)
    ensures
        hex_upper(crate::text::ascii_upper(s)) == hex_upper(s),
    decreases s.len(),
{
    if s.len() > 0 {
        lemma_hex_upper_ignores_case(s.drop_last());
        assert(crate::text::ascii_upper(s).drop_last() =~= crate::text::ascii_upper(s.drop_last()));
        let c = s.last();
        assert(crate::text::ascii_upper(s).last() == upper_char(c));
        if 97 <= (c as u32) <= 122 {
            assert(((c as u32) - 32) as char as u32 == (c as u32) - 32);
        }
    }
}

/// A Wi-Fi entry naming an access point's BSSID (compared on hex digits,
/// so case and separators do not matter) flags that access point: the
/// first hit is that entry or one before it.
pub proof fn lemma_bssid_entry_flags_ap(entries: Seq<WatchlistEntry>, ap: AccessPointRecord, k: int)
    requires
        0 <= k < entries.len(),
        entries[k].device_type == WatchlistDeviceType::Wifi,
        trim(entries[k].mac@).len() > 0,
        hex_upper(entries[k].mac@) == hex_upper(ap.bssid@),
    ensures
        first_ap_hit(entries, ap) is Some,
        first_ap_hit(entries, ap)->0 <= k,
{
    lemma_first_ap_hit(entries, ap);
}

/// A Wi-Fi entry whose address equals an access point's BSSID up to ASCII
/// case flags that access point.
pub proof fn lemma_same_address_any_case_flags_ap(entries: Seq<WatchlistEntry>, ap: AccessPointRecord, k: int)
    requires
        0 <= k < entries.len(),
        entries[k].device_type == WatchlistDeviceType::Wifi,
        trim(entries[k].mac@).len() > 0,
        crate::text::ascii_upper(entries[k].mac@) == crate::text::ascii_upper(ap.bssid@),
    ensures
        first_ap_hit(entries, ap) is Some,
        first_ap_hit(entries, ap)->0 <= k,
{
    lemma_hex_upper_ignores_case(entries[k].mac@);
    lemma_hex_upper_ignores_case(ap.bssid@);
    lemma_bssid_entry_flags_ap(entries, ap, k);
}

/// A Wi-Fi entry naming an access point's SSID (trimmed, ignoring ASCII
/// case) flags that access point.
pub proof fn lemma_ssid_entry_flags_ap(entries: Seq<WatchlistEntry>, ap: AccessPointRecord, k: int)
    requires
        0 <= k < entries.len(),
        entries[k].device_type == WatchlistDeviceType::Wifi,
        ap.ssid is Some,
        trim(entries[k].name@).len() > 0,
        ascii_lower(trim(entries[k].name@)) == ascii_lower(trim(ap.ssid->0@)),
    ensures
        first_ap_hit(entries, ap) is Some,
        first_ap_hit(entries, ap)->0 <= k,
{
    lemma_first_ap_hit(entries, ap);
}

/// An access point is only ever flagged by a Wi-Fi entry that names its
/// BSSID or its SSID, and no earlier entry does either.
pub proof fn lemma_ap_flag_has_a_reason(entries: Seq<WatchlistEntry>, ap: AccessPointRecord)
    ensures
        first_ap_hit(entries, ap) is Some ==> {
            let e = entries[first_ap_hit(entries, ap)->0];
            &&& 0 <= first_ap_hit(entries, ap)->0 < entries.len()
            &&& e.device_type == WatchlistDeviceType::Wifi
            &&& ((trim(e.mac@).len() > 0 && hex_upper(e.mac@) == hex_upper(ap.bssid@)) || (
            ap.ssid is Some && trim(e.name@).len() > 0 && ascii_lower(trim(e.name@))
                == ascii_lower(trim(ap.ssid->0@))))
        },
        (forall|j: int| 0 <= j < entries.len() ==> (#[trigger] entries[j]).device_type
            == WatchlistDeviceType::Bluetooth) ==> first_ap_hit(entries, ap) is None,
{
    lemma_first_ap_hit(entries, ap);
}

/// A Wi-Fi entry naming a client's MAC address flags that client, whatever
/// its access point.
pub proof fn lemma_mac_entry_flags_client(
    entries: Seq<WatchlistEntry>,
    c: ClientRecord,
    assoc_ssid: Option<Seq<char>>,
    k: int,
)
    requires
        0 <= k < entries.len(),
        entries[k].device_type == WatchlistDeviceType::Wifi,
        trim(entries[k].mac@).len() > 0,
        hex_upper(entries[k].mac@) == hex_upper(c.mac@),
    ensures
        first_client_hit(entries, c, assoc_ssid) is Some,
        first_client_hit(entries, c, assoc_ssid)->0 <= k,
{
    lemma_first_client_hit(entries, c, assoc_ssid);
}

/// A Bluetooth entry naming a device's MAC address flags that device.
pub proof fn lemma_mac_entry_flags_bluetooth_device(
    entries: Seq<WatchlistEntry>,
    d: BluetoothDeviceRecord,
    k: int,
)
    requires
        0 <= k < entries.len(),
        entries[k].device_type == WatchlistDeviceType::Bluetooth,
        trim(entries[k].mac@).len() > 0,
        hex_upper(entries[k].mac@) == hex_upper(d.mac@),
    ensures
        first_bluetooth_hit(entries, d) is Some,
        first_bluetooth_hit(entries, d)->0 <= k,
{
    lemma_first_bluetooth_hit(entries, d);
}

} // verus!
