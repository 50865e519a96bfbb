//! Wi-Fi channel and HT-mode rules: which band a channel belongs to, which
//! HT modes are valid on it, and the channel/mode lists offered for an
//! interface.

use vstd::prelude::*;
use crate::text::{
    ascii_upper, contains_chars, contains_seq, str_chars, string_from_chars, string_seqs, trim,
    trim_chars, upper_chars, chars_eq, str_eq,
};
use crate::sorted::{
    insert_sorted_text, sorted_unique_u16, strictly_sorted_text, strictly_sorted_u16,
    strings_from_texts, texts,
};

verus! {

/// A channel an interface reports, as listed by the capture backend.
#[derive(Debug, Clone, Copy, PartialEq, Eq, Structural)]
pub struct SupportedChannel {
    pub channel: u16,
    pub frequency_mhz: Option<u32>,
    pub enabled: bool,
}

/// Radio band of a channel or frequency.
#[derive(Debug, Clone, Copy, PartialEq, Eq, Structural)]
pub enum SpectrumBand {
    Ghz2_4,
    Ghz5,
    Ghz6,
    Unknown,
}

/// How a band is shown.
pub open spec fn band_label(band: SpectrumBand) -> Seq<char> {
    match band {
        SpectrumBand::Ghz2_4 => "2.4 GHz"@,
        SpectrumBand::Ghz5 => "5 GHz"@,
        SpectrumBand::Ghz6 => "6 GHz"@,
        SpectrumBand::Unknown => "Unknown"@,
    }
}

impl SpectrumBand {
    pub fn label(&self) -> (r: &'static str)
        ensures
            r@ == band_label(*self),
    {
        match self {
            SpectrumBand::Ghz2_4 => "2.4 GHz",
            SpectrumBand::Ghz5 => "5 GHz",
            SpectrumBand::Ghz6 => "6 GHz",
            SpectrumBand::Unknown => "Unknown",
        }
    }
}

pub open spec fn in_24(ch: u16) -> bool {
    1 <= ch <= 14
}

pub open spec fn in_5(ch: u16) -> bool {
    32 <= ch <= 177
}

pub open spec fn in_6(ch: u16) -> bool {
    ch > 177
}

/// The band label used by scan setup: `2.4`, `5` or `6`.
pub open spec fn band_kind(ch: u16) -> Seq<char> {
    if in_24(ch) {
        "2.4"@
    } else if in_5(ch) {
        "5"@
    } else {
        "6"@
    }
}

/// Band of a channel: 1-14 is 2.4 GHz, 32-177 is 5 GHz, everything else counts as 6 GHz.
pub fn channel_band_kind(channel: u16) -> (r: &'static str)
    ensures
        r@ == band_kind(channel),
{
    if 1 <= channel && channel <= 14 {
        "2.4"
    } else if 32 <= channel && channel <= 177 {
        "5"
    } else {
        "6"
    }
}

pub open spec fn allowed_24(n: Seq<char>) -> bool {
    n == "NOHT"@ || n == "HT20"@ || n == "HT40+"@ || n == "HT40-"@ || n == "5MHZ"@ || n
        == "10MHZ"@
}

pub open spec fn allowed_5(n: Seq<char>) -> bool {
    allowed_24(n) || n == "80MHZ"@ || n == "160MHZ"@ || n == "80+80MHZ"@
}

pub open spec fn allowed_6(n: Seq<char>) -> bool {
    n == "HT20"@ || n == "HT40+"@ || n == "HT40-"@ || n == "80MHZ"@ || n == "160MHZ"@ || n
        == "80+80MHZ"@
}

/// Whether HT mode `mode` may be used on `channel` (compared trimmed and upper-cased).
pub open spec fn mode_allowed(mode: Seq<char>, channel: u16) -> bool {
    let n = ascii_upper(trim(mode));
    if n.len() == 0 || contains_seq(n, "DEVICE CAPABILITY"@) {
        false
    } else if in_24(channel) {
        allowed_24(n)
    } else if in_5(channel) {
        allowed_5(n)
    } else {
        allowed_6(n)
    }
}

fn is_one_of(n: &[char], options: &[&str]) -> (r: bool)
    ensures
        r == exists|i: int| 0 <= i < options@.len() && n@ == (#[trigger] options@[i])@,
{
    let mut i: usize = 0;
    while i < options.len()
        invariant
            i <= options@.len(),
            forall|k: int| 0 <= k < i ==> n@ != (#[trigger] options@[k])@,
        decreases options@.len() - i,
    {
        let o = str_chars(options[i]);
        if chars_eq(n, o.as_slice()) {
            return true;
        }
        i = i + 1;
    }
    false
}

/// Whether HT mode `mode` may be used on `channel`.
pub fn mode_allowed_for_channel(mode: &str, channel: u16) -> (r: bool)
    ensures
        r == mode_allowed(mode@, channel),
{
    let raw = str_chars(mode);
    let t = trim_chars(raw.as_slice());
    let n = upper_chars(t.as_slice());
    let dc = str_chars("DEVICE CAPABILITY");
    if n.len() == 0 || contains_chars(n.as_slice(), dc.as_slice()) {
        return false;
    }
    let ns = n.as_slice();
    if 1 <= channel && channel <= 14 {
        let opts = ["NOHT", "HT20", "HT40+", "HT40-", "5MHZ", "10MHZ"];
        let r = is_one_of(ns, &opts);
        proof {
            if allowed_24(n@) {
                if n@ == "NOHT"@ { assert(n@ == opts@[0]@); }
                if n@ == "HT20"@ { assert(n@ == opts@[1]@); }
                if n@ == "HT40+"@ { assert(n@ == opts@[2]@); }
                if n@ == "HT40-"@ { assert(n@ == opts@[3]@); }
                if n@ == "5MHZ"@ { assert(n@ == opts@[4]@); }
                if n@ == "10MHZ"@ { assert(n@ == opts@[5]@); }
            }
        }
        r
    } else if 32 <= channel && channel <= 177 {
        let opts = ["NOHT", "HT20", "HT40+", "HT40-", "5MHZ", "10MHZ", "80MHZ", "160MHZ", "80+80MHZ"];
        let r = is_one_of(ns, &opts);
        proof {
            if allowed_5(n@) {
                if n@ == "NOHT"@ { assert(n@ == opts@[0]@); }
                if n@ == "HT20"@ { assert(n@ == opts@[1]@); }
                if n@ == "HT40+"@ { assert(n@ == opts@[2]@); }
                if n@ == "HT40-"@ { assert(n@ == opts@[3]@); }
                if n@ == "5MHZ"@ { assert(n@ == opts@[4]@); }
                if n@ == "10MHZ"@ { assert(n@ == opts@[5]@); }
                if n@ == "80MHZ"@ { assert(n@ == opts@[6]@); }
                if n@ == "160MHZ"@ { assert(n@ == opts@[7]@); }
                if n@ == "80+80MHZ"@ { assert(n@ == opts@[8]@); }
            }
        }
        r
    } else {
        let opts = ["HT20", "HT40+", "HT40-", "80MHZ", "160MHZ", "80+80MHZ"];
        let r = is_one_of(ns, &opts);
        proof {
            if allowed_6(n@) {
                if n@ == "HT20"@ { assert(n@ == opts@[0]@); }
                if n@ == "HT40+"@ { assert(n@ == opts@[1]@); }
                if n@ == "HT40-"@ { assert(n@ == opts@[2]@); }
                if n@ == "80MHZ"@ { assert(n@ == opts@[3]@); }
                if n@ == "160MHZ"@ { assert(n@ == opts@[4]@); }
                if n@ == "80+80MHZ"@ { assert(n@ == opts@[5]@); }
            }
        }
        r
    }
}


/// The modes of `requested` kept for `channel`: trimmed, non-empty and allowed there.
pub open spec fn channel_modes(requested: Seq<Seq<char>>, channel: u16) -> Set<Seq<char>> {
    Set::new(
        |x: Seq<char>|
            exists|i: int|
                0 <= i < requested.len() && x == trim(#[trigger] requested[i]) && x.len() > 0
                    && mode_allowed(x, channel),
    )
}

/// The distinct trimmed modes of `requested` that are allowed on `channel`, sorted.
pub fn modes_for_channel(requested: &[String], channel: u16) -> (r: Vec<String>)
    ensures
        strictly_sorted_text(string_seqs(r@)),
        string_seqs(r@).to_set() == channel_modes(string_seqs(requested@), channel),
{
    let ghost req = string_seqs(requested@);
    let mut acc: Vec<Vec<char>> = Vec::new();
    let mut i: usize = 0;
    assert(texts(acc@).to_set() =~= Set::<Seq<char>>::empty());
    while i < requested.len()
        invariant
            i <= requested@.len(),
            req == string_seqs(requested@),
            strictly_sorted_text(texts(acc@)),
            texts(acc@).to_set() == channel_modes(req.subrange(0, i as int), channel),
        decreases requested@.len() - i,
    {
        let raw = str_chars(requested[i].as_str());
        let t = trim_chars(raw.as_slice());
        let ts = string_from_chars(t.as_slice());
        let keep = t.len() > 0 && mode_allowed_for_channel(ts.as_str(), channel);
        proof {
            assert(trim(t@) == t@) by {
                crate::text::lemma_trim_idempotent(raw@);
            }
        }
        let ghost before = texts(acc@).to_set();
        let ghost x = t@;
        if keep {
            insert_sorted_text(&mut acc, t);
        }
        proof {
            let pre = req.subrange(0, i as int);
            let post = req.subrange(0, i + 1);
            assert(post[i as int] == requested@[i as int]@);
            assert(x == trim(post[i as int]));
            assert forall|y: Seq<char>| #[trigger] channel_modes(post, channel).contains(y) == (
            channel_modes(pre, channel).contains(y) || (keep && y == x)) by {
                if channel_modes(post, channel).contains(y) {
                    let j = choose|j: int|
                        0 <= j < post.len() && y == trim(#[trigger] post[j]) && y.len() > 0
                            && mode_allowed(y, channel);
                    if j < i {
                        assert(pre[j] == post[j]);
                    }
                }
                if channel_modes(pre, channel).contains(y) {
                    let j = choose|j: int|
                        0 <= j < pre.len() && y == trim(#[trigger] pre[j]) && y.len() > 0
                            && mode_allowed(y, channel);
                    assert(post[j] == pre[j]);
                }
            }
            if keep {
                assert(channel_modes(post, channel) =~= before.insert(x));
            } else {
                assert(channel_modes(post, channel) =~= before);
            }
        }
        i = i + 1;
    }
    assert(req.subrange(0, requested@.len() as int) =~= req);
    strings_from_texts(&acc)
}

/// HT modes the capture backend can apply.
pub open spec fn supported_ht_mode(m: Seq<char>) -> bool {
    m == "NOHT"@ || m == "HT20"@ || m == "HT40+"@ || m == "HT40-"@ || m == "5MHz"@ || m
        == "10MHz"@ || m == "80MHz"@ || m == "160MHz"@ || m == "80+80MHz"@
}

/// The HT modes offered for an interface: its listed modes that the backend
/// supports (trimmed), always including `HT20`.
pub open spec fn actionable_modes(listed: Seq<Seq<char>>) -> Set<Seq<char>> {
    Set::new(
        |x: Seq<char>|
            exists|i: int|
                0 <= i < listed.len() && x == trim(#[trigger] listed[i]) && supported_ht_mode(x),
    ).insert("HT20"@)
}

/// The HT modes to offer for an interface whose backend lists `listed`
/// (sorted, distinct, `HT20` always present).
pub fn actionable_ht_modes_for_interface(listed: &[String]) -> (r: Vec<String>)
    ensures
        strictly_sorted_text(string_seqs(r@)),
        string_seqs(r@).to_set() == actionable_modes(string_seqs(listed@)),
{
    let ghost req = string_seqs(listed@);
    let mut acc: Vec<Vec<char>> = Vec::new();
    let ht20 = str_chars("HT20");
    insert_sorted_text(&mut acc, ht20);
    let opts = ["NOHT", "HT20", "HT40+", "HT40-", "5MHz", "10MHz", "80MHz", "160MHz", "80+80MHz"];
    let mut i: usize = 0;
    let ghost base = Set::new(
        |x: Seq<char>|
            exists|k: int|
                0 <= k < req.subrange(0, 0).len() && x == trim(#[trigger] req.subrange(0, 0)[k])
                    && supported_ht_mode(x),
    );
    assert(base =~= Set::<Seq<char>>::empty());
    assert(texts(acc@).to_set() == actionable_modes(req.subrange(0, 0)));
    while i < listed.len()
        invariant
            i <= listed@.len(),
            req == string_seqs(listed@),
            strictly_sorted_text(texts(acc@)),
            texts(acc@).to_set() == actionable_modes(req.subrange(0, i as int)),
            opts@.len() == 9,
            opts@[0]@ == "NOHT"@,
            opts@[1]@ == "HT20"@,
            opts@[2]@ == "HT40+"@,
            opts@[3]@ == "HT40-"@,
            opts@[4]@ == "5MHz"@,
            opts@[5]@ == "10MHz"@,
            opts@[6]@ == "80MHz"@,
            opts@[7]@ == "160MHz"@,
            opts@[8]@ == "80+80MHz"@,
        decreases listed@.len() - i,
    {
        let raw = str_chars(listed[i].as_str());
        let t = trim_chars(raw.as_slice());
        let keep = is_one_of(t.as_slice(), &opts);
        proof {
            if supported_ht_mode(t@) {
                if t@ == "NOHT"@ { assert(t@ == opts@[0]@); }
                if t@ == "HT20"@ { assert(t@ == opts@[1]@); }
                if t@ == "HT40+"@ { assert(t@ == opts@[2]@); }
                if t@ == "HT40-"@ { assert(t@ == opts@[3]@); }
                if t@ == "5MHz"@ { assert(t@ == opts@[4]@); }
                if t@ == "10MHz"@ { assert(t@ == opts@[5]@); }
                if t@ == "80MHz"@ { assert(t@ == opts@[6]@); }
                if t@ == "160MHz"@ { assert(t@ == opts@[7]@); }
                if t@ == "80+80MHz"@ { assert(t@ == opts@[8]@); }
            }
            assert(keep == supported_ht_mode(t@));
        }
        let ghost before = texts(acc@).to_set();
        let ghost x = t@;
        if keep {
            insert_sorted_text(&mut acc, t);
        }
        proof {
            let pre = req.subrange(0, i as int);
            let post = req.subrange(0, i + 1);
            assert(post[i as int] == listed@[i as int]@);
            assert forall|y: Seq<char>| #[trigger] actionable_modes(post).contains(y) == (
            actionable_modes(pre).contains(y) || (keep && y == x)) by {
                if y != "HT20"@ {
                    if actionable_modes(post).contains(y) {
                        let j = choose|j: int|
                            0 <= j < post.len() && y == trim(#[trigger] post[j])
                                && supported_ht_mode(y);
                        if j < i {
                            assert(pre[j] == post[j]);
                        }
                    }
                    if actionable_modes(pre).contains(y) {
                        let j = choose|j: int|
                            0 <= j < pre.len() && y == trim(#[trigger] pre[j])
                                && supported_ht_mode(y);
                        assert(post[j] == pre[j]);
                    }
                }
            }
            if keep {
                assert(actionable_modes(post) =~= before.insert(x));
            } else {
                assert(actionable_modes(post) =~= before);
            }
        }
        i = i + 1;
    }
    assert(req.subrange(0, listed@.len() as int) =~= req);
    strings_from_texts(&acc)
}

/// The channel numbers offered for an interface: enabled, non-zero, distinct, sorted.
pub open spec fn actionable_channel(details: Seq<SupportedChannel>, c: u16) -> bool {
    exists|i: int|
        0 <= i < details.len() && (#[trigger] details[i]).enabled && details[i].channel == c && c
            > 0
}

/// The channels to offer for an interface whose backend lists `details`.
pub fn actionable_channels_for_interface(details: &[SupportedChannel]) -> (r: Vec<u16>)
    ensures
        strictly_sorted_u16(r@),
        forall|c: u16| r@.contains(c) <==> actionable_channel(details@, c),
{
    let mut picked: Vec<u16> = Vec::new();
    let mut i: usize = 0;
    while i < details.len()
        invariant
            i <= details@.len(),
            forall|c: u16|
                picked@.contains(c) <==> actionable_channel(details@.subrange(0, i as int), c),
        decreases details@.len() - i,
    {
        let d = details[i];
        let ghost pre = details@.subrange(0, i as int);
        let ghost post = details@.subrange(0, i + 1);
        let ghost old_p = picked@;
        if d.enabled && d.channel > 0 {
            picked.push(d.channel);
        }
        proof {
            assert forall|c: u16| picked@.contains(c) <==> actionable_channel(post, c) by {
                if actionable_channel(post, c) {
                    let j = choose|j: int|
                        0 <= j < post.len() && (#[trigger] post[j]).enabled && post[j].channel == c
                            && c > 0;
                    if j < i {
                        assert(pre[j] == post[j]);
                        assert(pre[j].enabled && pre[j].channel == c && c > 0);
                        assert(exists|jj: int|
                            0 <= jj < pre.len() && (#[trigger] pre[jj]).enabled && pre[jj].channel
                                == c && c > 0);
                        assert(actionable_channel(pre, c));
                        assert(old_p.contains(c));
                        let k = choose|k: int| 0 <= k < old_p.len() && old_p[k] == c;
                        assert(picked@[k] == c);
                    } else {
                        assert(picked@[picked@.len() - 1] == c);
                    }
                }
                if picked@.contains(c) {
                    let k = choose|k: int| 0 <= k < picked@.len() && picked@[k] == c;
                    if k < old_p.len() {
                        assert(old_p[k] == c);
                        assert(old_p.contains(c));
                        assert(actionable_channel(pre, c));
                        let j = choose|j: int|
                            0 <= j < pre.len() && (#[trigger] pre[j]).enabled && pre[j].channel == c
                                && c > 0;
                        assert(post[j] == pre[j]);
                    } else {
                        assert(post[i as int] == d);
                    }
                }
            }
        }
        i = i + 1;
    }
    assert(details@.subrange(0, details@.len() as int) =~= details@);
    let r = sorted_unique_u16(picked.as_slice());
    assert forall|c: u16| r@.contains(c) <==> actionable_channel(details@, c) by {
        assert(picked@.to_set().contains(c) <==> picked@.contains(c));
        assert(r@.to_set().contains(c) <==> r@.contains(c));
    }
    r
}

/// The channels a band is inferred from: the hop list, or the locked channel when it is empty.
pub open spec fn band_values(hop: Seq<u16>, locked: Option<u16>) -> Seq<u16> {
    if hop.len() == 0 {
        match locked {
            Some(c) => seq![c],
            None => Seq::empty(),
        }
    } else {
        hop
    }
}

/// The band label inferred from a channel list: `2.4`, `5` or `6` when every
/// band-classified channel lies in that band alone, otherwise `all`.
pub open spec fn infer_band(hop: Seq<u16>, locked: Option<u16>) -> Seq<char> {
    let values = band_values(hop, locked);
    let has24 = exists|i: int| 0 <= i < values.len() && in_24(#[trigger] values[i]);
    let has5 = exists|i: int| 0 <= i < values.len() && in_5(#[trigger] values[i]);
    let has6 = exists|i: int| 0 <= i < values.len() && in_6(#[trigger] values[i]);
    if values.len() == 0 {
        "all"@
    } else if has24 && !has5 && !has6 {
        "2.4"@
    } else if !has24 && has5 && !has6 {
        "5"@
    } else if !has24 && !has5 && has6 {
        "6"@
    } else {
        "all"@
    }
}

/// The Wi-Fi band implied by the hop channels, or by the locked channel when
/// there are none.
pub fn infer_band_from_channels(hop_channels: &[u16], locked_channel: Option<u16>) -> (r: String)
    ensures
        r@ == infer_band(hop_channels@, locked_channel),
{
    let mut values: Vec<u16> = Vec::new();
    let mut i: usize = 0;
    while i < hop_channels.len()
        invariant
            i <= hop_channels@.len(),
            values@ == hop_channels@.subrange(0, i as int),
        decreases hop_channels@.len() - i,
    {
        values.push(hop_channels[i]);
        i = i + 1;
        assert(values@ =~= hop_channels@.subrange(0, i as int));
    }
    assert(hop_channels@.subrange(0, hop_channels@.len() as int) =~= hop_channels@);
    if values.len() == 0 {
        match locked_channel {
            Some(c) => {
                values.push(c);
            },
            None => {},
        }
    }
    assert(values@ =~= band_values(hop_channels@, locked_channel));
    if values.len() == 0 {
        return String::from_str("all");
    }
    let mut has24 = false;
    let mut has5 = false;
    let mut has6 = false;
    let mut k: usize = 0;
    while k < values.len()
        invariant
            k <= values@.len(),
            has24 == exists|j: int| 0 <= j < k && in_24(#[trigger] values@[j]),
            has5 == exists|j: int| 0 <= j < k && in_5(#[trigger] values@[j]),
            has6 == exists|j: int| 0 <= j < k && in_6(#[trigger] values@[j]),
        decreases values@.len() - k,
    {
        let c = values[k];
        if 1 <= c && c <= 14 {
            has24 = true;
        }
        if 32 <= c && c <= 177 {
            has5 = true;
        }
        if c > 177 {
            has6 = true;
        }
        k = k + 1;
    }
    if has24 && !has5 && !has6 {
        String::from_str("2.4")
    } else if !has24 && has5 && !has6 {
        String::from_str("5")
    } else if !has24 && !has5 && has6 {
        String::from_str("6")
    } else {
        String::from_str("all")
    }
}

/// Band of a channel number when the frequency is unknown.
pub open spec fn band_of_channel_number(channel: u16) -> SpectrumBand {
    if 1 <= channel <= 14 {
        SpectrumBand::Ghz2_4
    } else if 15 <= channel <= 177 {
        SpectrumBand::Ghz5
    } else {
        SpectrumBand::Ghz6
    }
}

pub fn fallback_band_from_channel_number(channel: u16) -> (r: SpectrumBand)
    ensures
        r == band_of_channel_number(channel),
{
    if 1 <= channel && channel <= 14 {
        SpectrumBand::Ghz2_4
    } else if 15 <= channel && channel <= 177 {
        SpectrumBand::Ghz5
    } else {
        SpectrumBand::Ghz6
    }
}

/// Centre frequency of a channel number in MHz, when the number is in a known band.
pub open spec fn channel_frequency(channel: u16) -> Option<u32> {
    if 1 <= channel <= 13 {
        Some((2407 + 5 * channel) as u32)
    } else if channel == 14 {
        Some(2484)
    } else if 15 <= channel <= 177 {
        Some((5000 + 5 * channel) as u32)
    } else if 178 <= channel <= 233 {
        Some((5950 + 5 * channel) as u32)
    } else {
        None
    }
}

pub fn fallback_frequency_mhz_for_channel(channel: u16) -> (r: Option<u32>)
    ensures
        r == channel_frequency(channel),
{
    let c = channel as u32;
    if 1 <= channel && channel <= 13 {
        Some(2407 + c * 5)
    } else if channel == 14 {
        Some(2484)
    } else if 15 <= channel && channel <= 177 {
        Some(5000 + c * 5)
    } else if 178 <= channel && channel <= 233 {
        Some(5950 + c * 5)
    } else {
        None
    }
}

/// HT modes offered when locking to a channel: the listed modes that do not
/// mention "capability", always including `HT20`.
pub open spec fn lock_mode_choices(modes: Seq<Seq<char>>) -> Set<Seq<char>> {
    Set::new(
        |x: Seq<char>|
            exists|i: int|
                0 <= i < modes.len() && x == #[trigger] modes[i] && !contains_seq(
                    x,
                    "capability"@,
                ),
    ).insert("HT20"@)
}

/// Lock-mode choices offered for an interface's listed HT modes (sorted, distinct).
pub fn lock_ht_mode_choices_from_capability(ht_modes: &[String]) -> (r: Vec<String>)
    ensures
        strictly_sorted_text(string_seqs(r@)),
        string_seqs(r@).to_set() == lock_mode_choices(string_seqs(ht_modes@)),
{
    let ghost req = string_seqs(ht_modes@);
    let mut acc: Vec<Vec<char>> = Vec::new();
    insert_sorted_text(&mut acc, str_chars("HT20"));
    let cap = str_chars("capability");
    let mut i: usize = 0;
    assert(lock_mode_choices(req.subrange(0, 0)) =~= Set::<Seq<char>>::empty().insert("HT20"@));
    while i < ht_modes.len()
        invariant
            i <= ht_modes@.len(),
            req == string_seqs(ht_modes@),
            cap@ == "capability"@,
            strictly_sorted_text(texts(acc@)),
            texts(acc@).to_set() == lock_mode_choices(req.subrange(0, i as int)),
        decreases ht_modes@.len() - i,
    {
        let t = str_chars(ht_modes[i].as_str());
        let keep = !contains_chars(t.as_slice(), cap.as_slice());
        let ghost before = texts(acc@).to_set();
        let ghost x = t@;
        if keep {
            insert_sorted_text(&mut acc, t);
        }
        proof {
            let pre = req.subrange(0, i as int);
            let post = req.subrange(0, i + 1);
            assert(post[i as int] == x);
            assert forall|y: Seq<char>| #[trigger] lock_mode_choices(post).contains(y) == (
            lock_mode_choices(pre).contains(y) || (keep && y == x)) by {
                if y != "HT20"@ {
                    if lock_mode_choices(post).contains(y) {
                        let j = choose|j: int|
                            0 <= j < post.len() && y == #[trigger] post[j] && !contains_seq(
                                y,
                                "capability"@,
                            );
                        if j < i {
                            assert(pre[j] == post[j]);
                        }
                    }
                    if lock_mode_choices(pre).contains(y) {
                        let j = choose|j: int|
                            0 <= j < pre.len() && y == #[trigger] pre[j] && !contains_seq(
                                y,
                                "capability"@,
                            );
                        assert(post[j] == pre[j]);
                    }
                }
            }
            if keep {
                assert(lock_mode_choices(post) =~= before.insert(x));
            } else {
                assert(lock_mode_choices(post) =~= before);
            }
        }
        i = i + 1;
    }
    assert(req.subrange(0, ht_modes@.len() as int) =~= req);
    strings_from_texts(&acc)
}


/// The band of a frequency in MHz.
pub open spec fn band_of_frequency(frequency_mhz: Option<u32>) -> SpectrumBand {
    match frequency_mhz {
        Some(f) => if 2400 <= f <= 2495 {
            SpectrumBand::Ghz2_4
        } else if 5000 <= f <= 5924 {
            SpectrumBand::Ghz5
        } else if 5925 <= f <= 7125 {
            SpectrumBand::Ghz6
        } else {
            SpectrumBand::Unknown
        },
        None => SpectrumBand::Unknown,
    }
}

impl SpectrumBand {
    pub fn from_frequency_mhz(frequency_mhz: Option<u32>) -> (r: SpectrumBand)
        ensures
            r == band_of_frequency(frequency_mhz),
    {
        match frequency_mhz {
            Some(f) => if 2400 <= f && f <= 2495 {
                SpectrumBand::Ghz2_4
            } else if 5000 <= f && f <= 5924 {
                SpectrumBand::Ghz5
            } else if 5925 <= f && f <= 7125 {
                SpectrumBand::Ghz6
            } else {
                SpectrumBand::Unknown
            },
            None => SpectrumBand::Unknown,
        }
    }
}

/// The frequency of a supported channel: the one reported, else the one
/// its number implies.
pub open spec fn capability_frequency(c: SupportedChannel) -> Option<u32> {
    match c.frequency_mhz {
        Some(f) => Some(f),
        None => channel_frequency(c.channel),
    }
}

pub fn channel_frequency_mhz(channel: &SupportedChannel) -> (r: Option<u32>)
    ensures
        r == capability_frequency(*channel),
{
    match channel.frequency_mhz {
        Some(f) => Some(f),
        None => fallback_frequency_mhz_for_channel(channel.channel),
    }
}

/// The band of a supported channel: by its frequency, else by its number.
pub open spec fn capability_band(c: SupportedChannel) -> SpectrumBand {
    let by_freq = band_of_frequency(capability_frequency(c));
    if by_freq == SpectrumBand::Unknown {
        band_of_channel_number(c.channel)
    } else {
        by_freq
    }
}

pub fn channel_capability_band(channel: &SupportedChannel) -> (r: SpectrumBand)
    ensures
        r == capability_band(*channel),
{
    let by_freq = SpectrumBand::from_frequency_mhz(channel_frequency_mhz(channel));
    if by_freq == SpectrumBand::Unknown {
        fallback_band_from_channel_number(channel.channel)
    } else {
        by_freq
    }
}

/// A supported channel can be offered: its band is known, and channel 14
/// (2484 MHz) only when the interface can capture without HT (`NOHT`).
pub open spec fn usable_channel(c: SupportedChannel, ht_modes: Seq<Seq<char>>) -> bool {
    if capability_band(c) == SpectrumBand::Unknown {
        false
    } else if c.channel == 14 || capability_frequency(c) == Some(2484u32) {
        ht_modes.contains("NOHT"@)
    } else {
        true
    }
}

pub fn channel_is_usable_for_current_ui(channel: &SupportedChannel, ht_modes: &Vec<String>) -> (r: bool)
    ensures
        r == usable_channel(*channel, string_seqs(ht_modes@)),
{
    if channel_capability_band(channel) == SpectrumBand::Unknown {
        return false;
    }
    if channel.channel == 14 || channel_frequency_mhz(channel) == Some(2484u32) {
        let mut i: usize = 0;
        while i < ht_modes.len()
            invariant
                i <= ht_modes@.len(),
                forall|k: int| 0 <= k < i ==> ht_modes@[k]@ != "NOHT"@,
            decreases ht_modes@.len() - i,
        {
            if str_eq(ht_modes[i].as_str(), "NOHT") {
                assert(string_seqs(ht_modes@)[i as int] == "NOHT"@);
                return true;
            }
            i = i + 1;
        }
        proof {
            if string_seqs(ht_modes@).contains("NOHT"@) {
                let k = choose|k: int|
                    0 <= k < string_seqs(ht_modes@).len() && string_seqs(ht_modes@)[k] == "NOHT"@;
                assert(ht_modes@[k]@ == "NOHT"@);
            }
        }
        return false;
    }
    true
}

/// The sort key of an offered channel: frequency (0 when unknown), number,
/// then enabled channels first.
pub open spec fn capability_key(c: SupportedChannel) -> (int, int, int) {
    (
        match capability_frequency(c) {
            Some(f) => f as int,
            None => 0,
        },
        c.channel as int,
        if c.enabled {
            0
        } else {
            1
        },
    )
}

pub open spec fn key_lt(a: (int, int, int), b: (int, int, int)) -> bool {
    a.0 < b.0 || (a.0 == b.0 && (a.1 < b.1 || (a.1 == b.1 && a.2 < b.2)))
}

/// Where `x` goes among `s` from position `k` on: before the first channel
/// with a larger key.
pub open spec fn key_pos_from(s: Seq<SupportedChannel>, x: SupportedChannel, k: int) -> int
    decreases s.len() - k,
{
    if k < 0 || k >= s.len() {
        s.len() as int
    } else if key_lt(capability_key(x), capability_key(s[k])) {
        k
    } else {
        key_pos_from(s, x, k + 1)
    }
}

/// The channels ordered by key; channels with equal keys keep their order.
pub open spec fn by_key(s: Seq<SupportedChannel>) -> Seq<SupportedChannel>
    decreases s.len(),
{
    if s.len() == 0 {
        s
    } else {
        let r = by_key(s.drop_last());
        r.insert(key_pos_from(r, s.last(), 0), s.last())
    }
}

/// Two offered channels are the same offer.
pub open spec fn same_offer(a: SupportedChannel, b: SupportedChannel) -> bool {
    a.channel == b.channel && capability_frequency(a) == capability_frequency(b) && a.enabled
        == b.enabled
}

/// `s` without channels that repeat the one kept just before them.
pub open spec fn without_repeats(s: Seq<SupportedChannel>) -> Seq<SupportedChannel>
    decreases s.len(),
{
    if s.len() == 0 {
        s
    } else {
        let r = without_repeats(s.drop_last());
        if r.len() > 0 && same_offer(s.last(), r.last()) {
            r
        } else {
            r.push(s.last())
        }
    }
}

pub open spec fn usable_channels(s: Seq<SupportedChannel>, ht_modes: Seq<Seq<char>>) -> Seq<SupportedChannel>
    decreases s.len(),
{
    if s.len() == 0 {
        s
    } else {
        let r = usable_channels(s.drop_last(), ht_modes);
        if usable_channel(s.last(), ht_modes) {
            r.push(s.last())
        } else {
            r
        }
    }
}

fn key_of(c: &SupportedChannel) -> (r: (u32, u16, u8))
    ensures
        (r.0 as int, r.1 as int, r.2 as int) == capability_key(*c),
{
    let f: u32 = match channel_frequency_mhz(c) {
        Some(f) => f,
        None => 0,
    };
    (f, c.channel, if c.enabled {
        0
    } else {
        1
    })
}

/// The channels an interface can be offered in the channel dialogs: the
/// usable ones (see `usable_channel`), ordered by key (see
/// `capability_key`), without consecutive repeats.
pub fn filter_usable_capability_channels(channels: &[SupportedChannel], ht_modes: &Vec<String>) -> (r: Vec<SupportedChannel>)
    ensures
        r@ == without_repeats(by_key(usable_channels(channels@, string_seqs(ht_modes@)))),
{
    let ghost hv = string_seqs(ht_modes@);
    let mut sorted: Vec<SupportedChannel> = Vec::new();
    let mut i: usize = 0;
    assert(channels@.subrange(0, 0) =~= Seq::<SupportedChannel>::empty());
    while i < channels.len()
        invariant
            i <= channels@.len(),
            hv == string_seqs(ht_modes@),
            sorted@ == by_key(usable_channels(channels@.subrange(0, i as int), hv)),
        decreases channels@.len() - i,
    {
        proof {
            let pre = channels@.subrange(0, i + 1);
            assert(pre.drop_last() =~= channels@.subrange(0, i as int));
            assert(pre.last() == channels@[i as int]);
        }
        let c = channels[i];
        if channel_is_usable_for_current_ui(&c, ht_modes) {
            let k = key_of(&c);
            let mut pos: usize = 0;
            while pos < sorted.len()
                invariant
                    pos <= sorted@.len(),
                    (k.0 as int, k.1 as int, k.2 as int) == capability_key(c),
                    key_pos_from(sorted@, c, pos as int) == key_pos_from(sorted@, c, 0),
                ensures
                    pos <= sorted@.len(),
                    key_pos_from(sorted@, c, 0) == pos,
                decreases sorted@.len() - pos,
            {
                let o = key_of(&sorted[pos]);
                if k.0 < o.0 || (k.0 == o.0 && (k.1 < o.1 || (k.1 == o.1 && k.2 < o.2))) {
                    break;
                }
                pos = pos + 1;
            }
            proof {
                let u = usable_channels(channels@.subrange(0, i + 1), hv);
                assert(u == usable_channels(channels@.subrange(0, i as int), hv).push(c));
                assert(u.drop_last() =~= usable_channels(channels@.subrange(0, i as int), hv));
            }
            sorted.insert(pos, c);
        }
        i = i + 1;
    }
    assert(channels@.subrange(0, channels@.len() as int) =~= channels@);
    let ghost all = sorted@;
    let mut out: Vec<SupportedChannel> = Vec::new();
    let mut j: usize = 0;
    assert(all.subrange(0, 0) =~= Seq::<SupportedChannel>::empty());
    while j < sorted.len()
        invariant
            j <= sorted@.len(),
            all == sorted@,
            out@ == without_repeats(all.subrange(0, j as int)),
        decreases sorted@.len() - j,
    {
        proof {
            let pre = all.subrange(0, j + 1);
            assert(pre.drop_last() =~= all.subrange(0, j as int));
            assert(pre.last() == all[j as int]);
        }
        let c = sorted[j];
        let n = out.len();
        let repeat = n > 0 && out[n - 1].channel == c.channel && channel_frequency_mhz(&out[n - 1])
            == channel_frequency_mhz(&c) && out[n - 1].enabled == c.enabled;
        if !repeat {
            out.push(c);
        }
        j = j + 1;
    }
    assert(all.subrange(0, sorted@.len() as int) =~= all);
    out
}

/// The bands offered for a set of supported channels, as (id, label):
/// `2.4`, `5` and `6` in that order, each when some channel is in it.
pub open spec fn band_options(channels: Seq<SupportedChannel>) -> Seq<(Seq<char>, Seq<char>)> {
    let has = |b: SpectrumBand| exists|k: int| 0 <= k < channels.len() && capability_band(#[trigger] channels[k]) == b;
    (if has(SpectrumBand::Ghz2_4) {
        seq![("2.4"@, "2.4 GHz"@)]
    } else {
        Seq::empty()
    }) + (if has(SpectrumBand::Ghz5) {
        seq![("5"@, "5 GHz"@)]
    } else {
        Seq::empty()
    }) + (if has(SpectrumBand::Ghz6) {
        seq![("6"@, "6 GHz"@)]
    } else {
        Seq::empty()
    })
}

fn has_band(channels: &[SupportedChannel], band: SpectrumBand) -> (r: bool)
    ensures
        r == exists|k: int| 0 <= k < channels@.len() && capability_band(#[trigger] channels@[k]) == band,
{
    let mut i: usize = 0;
    while i < channels.len()
        invariant
            i <= channels@.len(),
            forall|k: int| 0 <= k < i ==> capability_band(#[trigger] channels@[k]) != band,
        decreases channels@.len() - i,
    {
        if channel_capability_band(&channels[i]) == band {
            return true;
        }
        i = i + 1;
    }
    false
}

pub fn available_band_options(channels: &[SupportedChannel]) -> (r: Vec<(String, String)>)
    ensures
        r@.map_values(|p: (String, String)| (p.0@, p.1@)) == band_options(channels@),
{
    let mut out: Vec<(String, String)> = Vec::new();
    let a = has_band(channels, SpectrumBand::Ghz2_4);
    let b = has_band(channels, SpectrumBand::Ghz5);
    let c = has_band(channels, SpectrumBand::Ghz6);
    if a {
        out.push((String::from_str("2.4"), String::from_str("2.4 GHz")));
    }
    if b {
        out.push((String::from_str("5"), String::from_str("5 GHz")));
    }
    if c {
        out.push((String::from_str("6"), String::from_str("6 GHz")));
    }
    assert(out@.map_values(|p: (String, String)| (p.0@, p.1@)) =~= band_options(channels@));
    out
}

/// The channel numbers of `channels` in `band` (all bands for `Unknown`),
/// sorted and without repeats.
pub fn filter_channels_for_band(channels: &[SupportedChannel], band: &SpectrumBand) -> (r: Vec<u16>)
    ensures
        strictly_sorted_u16(r@),
        forall|x: u16| r@.contains(x) <==> exists|k: int|
            0 <= k < channels@.len() && (#[trigger] channels@[k]).channel == x && (*band
                == SpectrumBand::Unknown || capability_band(channels@[k]) == *band),
{
    let mut picked: Vec<u16> = Vec::new();
    let mut i: usize = 0;
    while i < channels.len()
        invariant
            i <= channels@.len(),
            forall|x: u16| picked@.contains(x) <==> exists|k: int|
                0 <= k < i && (#[trigger] channels@[k]).channel == x && (*band == SpectrumBand::Unknown
                    || capability_band(channels@[k]) == *band),
        decreases channels@.len() - i,
    {
        let ch = &channels[i];
        let ghost before = picked@;
        let take = *band == SpectrumBand::Unknown || channel_capability_band(ch) == *band;
        assert(*ch == channels@[i as int]);
        if take {
            picked.push(ch.channel);
        }
        assert forall|x: u16| picked@.contains(x) <==> exists|k: int|
            0 <= k < i + 1 && (#[trigger] channels@[k]).channel == x && (*band
                == SpectrumBand::Unknown || capability_band(channels@[k]) == *band) by {
            let want = exists|k: int|
                0 <= k < i + 1 && (#[trigger] channels@[k]).channel == x && (*band
                    == SpectrumBand::Unknown || capability_band(channels@[k]) == *band);
            let had = exists|k: int|
                0 <= k < i && (#[trigger] channels@[k]).channel == x && (*band
                    == SpectrumBand::Unknown || capability_band(channels@[k]) == *band);
            if want && !had {
                let k = choose|k: int|
                    0 <= k < i + 1 && (#[trigger] channels@[k]).channel == x && (*band
                        == SpectrumBand::Unknown || capability_band(channels@[k]) == *band);
                assert(k == i);
                assert(take && x == ch.channel);
                assert(picked@[before.len() as int] == x);
            }
            if had {
                assert(before.contains(x));
                let m = choose|m: int| 0 <= m < before.len() && before[m] == x;
                assert(picked@[m] == x);
            }
            if picked@.contains(x) {
                let m = choose|m: int| 0 <= m < picked@.len() && picked@[m] == x;
                if m < before.len() {
                    assert(before[m] == x);
                    assert(before.contains(x));
                } else {
                    assert(take && x == ch.channel);
                    assert(channels@[i as int].channel == x);
                }
            }
        }
        i = i + 1;
    }
    let r = sorted_unique_u16(picked.as_slice());
    assert forall|x: u16| r@.contains(x) <==> picked@.contains(x) by {
        assert(r@.to_set().contains(x) == r@.contains(x));
        assert(picked@.to_set().contains(x) == picked@.contains(x));
    }
    r
}


/// The widths 80, 160 and 80+80 MHz (written in any case, with any spaces
/// around them) are allowed on every 5 GHz channel.
pub proof fn lemma_wide_modes_allowed_on_5ghz(mode: Seq<char>, channel: u16)
    requires
        32 <= channel <= 177,
        ascii_upper(trim(mode)) == "80MHZ"@ || ascii_upper(trim(mode)) == "160MHZ"@ || ascii_upper(
            trim(mode),
        ) == "80+80MHZ"@,
    ensures
        mode_allowed(mode, channel),
{
    reveal_strlit("80MHZ");
    reveal_strlit("160MHZ");
    reveal_strlit("80+80MHZ");
    reveal_strlit("DEVICE CAPABILITY");
    let n = ascii_upper(trim(mode));
    assert(n.len() <= 8);
    assert(!contains_seq(n, "DEVICE CAPABILITY"@));
}

/// The widths 80, 160 and 80+80 MHz are refused on 2.4 GHz channels.
pub proof fn lemma_wide_modes_refused_on_24ghz(mode: Seq<char>, channel: u16)
    requires
        1 <= channel <= 14,
        ascii_upper(trim(mode)) == "80MHZ"@ || ascii_upper(trim(mode)) == "160MHZ"@ || ascii_upper(
            trim(mode),
        ) == "80+80MHZ"@,
    ensures
        !mode_allowed(mode, channel),
{
    reveal_strlit("80MHZ");
    reveal_strlit("160MHZ");
    reveal_strlit("80+80MHZ");
    reveal_strlit("NOHT");
    reveal_strlit("HT20");
    reveal_strlit("HT40+");
    reveal_strlit("HT40-");
    reveal_strlit("5MHZ");
    reveal_strlit("10MHZ");
    let n = ascii_upper(trim(mode));
    assert(n[0] != 'N' && n[0] != 'H');
    if n.len() == 5 {
        assert(n[1] != 'M' && n[0] != '1');
    }
}

/// No-HT and the narrow 5 and 10 MHz widths are refused on 6 GHz channels.
pub proof fn lemma_narrow_modes_refused_on_6ghz(mode: Seq<char>, channel: u16)
    requires
        channel > 177,
        ascii_upper(trim(mode)) == "NOHT"@ || ascii_upper(trim(mode)) == "5MHZ"@ || ascii_upper(
            trim(mode),
        ) == "10MHZ"@,
    ensures
        !mode_allowed(mode, channel),
{
    reveal_strlit("NOHT");
    reveal_strlit("5MHZ");
    reveal_strlit("10MHZ");
    reveal_strlit("HT20");
    reveal_strlit("HT40+");
    reveal_strlit("HT40-");
    reveal_strlit("80MHZ");
    reveal_strlit("160MHZ");
    reveal_strlit("80+80MHZ");
    let n = ascii_upper(trim(mode));
    assert(n[0] != 'H');
    if n.len() == 5 {
        assert(n[0] == '1');
        assert(n[1] == '0');
    }
}

/// Every mode allowed on a 2.4 GHz channel is also allowed on every 5 GHz
/// channel.
pub proof fn lemma_24ghz_modes_allowed_on_5ghz(mode: Seq<char>, c24: u16, c5: u16)
    requires
        1 <= c24 <= 14,
        32 <= c5 <= 177,
        mode_allowed(mode, c24),
    ensures
        mode_allowed(mode, c5),
{
}

/// Asking for a wide mode (80, 160 or 80+80 MHz) on a 5 GHz channel keeps
/// it, trimmed, among the modes for that channel.
pub proof fn lemma_wide_mode_kept_for_5ghz_channel(requested: Seq<Seq<char>>, channel: u16, i: int)
    requires
        32 <= channel <= 177,
        0 <= i < requested.len(),
        ascii_upper(trim(requested[i])) == "80MHZ"@ || ascii_upper(trim(requested[i])) == "160MHZ"@
            || ascii_upper(trim(requested[i])) == "80+80MHZ"@,
    ensures
        channel_modes(requested, channel).contains(trim(requested[i])),
{
    reveal_strlit("80MHZ");
    reveal_strlit("160MHZ");
    reveal_strlit("80+80MHZ");
    let x = trim(requested[i]);
    crate::text::lemma_trim_idempotent(requested[i]);
    assert(ascii_upper(x).len() == x.len());
    lemma_wide_modes_allowed_on_5ghz(x, channel);
}

} // verus!
