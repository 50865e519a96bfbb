//! The web UI's scan setup: what the form shows for the current settings,
//! and how a submitted form becomes an interface's channel selection.

use vstd::prelude::*;
use crate::channels::{infer_band, infer_band_from_channels};
use crate::http::opt_view;
use crate::settings::{
    AppSettings, ChannelModes, ChannelSelectionMode, first_enabled, find_enabled, table_view,
    any_enabled, wifi_enabled, DEFAULT_HOP_DWELL_MS, choose_interface, choose_interface_exec,
    copy_mode, ifaces_view,
};
use crate::text::{
    chars_eq, eq_ignore_case, eq_ignore_case_chars, str_chars, string_seqs, to_lowercase, trim,
    trim_str, unicode_lower, string_from_chars,
};
use crate::settings::table_keys_sorted;
use crate::sorted::{lex_lt, strictly_sorted_text};
use crate::channels::{channel_modes, mode_allowed, mode_allowed_for_channel, modes_for_channel};

verus! {

/// Channels hopped by default: 1, 6 and 11.
pub open spec fn default_hop_channels() -> Seq<u16> {
    seq![1u16, 6u16, 11u16]
}

pub fn default_hop_channel_list() -> (r: Vec<u16>)
    ensures
        r@ == default_hop_channels(),
{
    let mut v: Vec<u16> = Vec::new();
    v.push(1);
    v.push(6);
    v.push(11);
    assert(v@ =~= default_hop_channels());
    v
}

/// Adds `m` unless an entry equal to it ignoring ASCII case is present.
pub open spec fn add_mode_ci(acc: Seq<Seq<char>>, m: Seq<char>) -> Seq<Seq<char>> {
    if exists|i: int| 0 <= i < acc.len() && eq_ignore_case(#[trigger] acc[i], m) {
        acc
    } else {
        acc.push(m)
    }
}

/// Adds each of `ms` in order with `add_mode_ci`.
pub open spec fn add_modes_ci(acc: Seq<Seq<char>>, ms: Seq<Seq<char>>) -> Seq<Seq<char>>
    decreases ms.len(),
{
    if ms.len() == 0 {
        acc
    } else {
        add_modes_ci(add_mode_ci(acc, ms[0]), ms.drop_first())
    }
}

/// All modes of a per-channel table, first spellings kept, in channel order.
pub open spec fn merge_table_modes(acc: Seq<Seq<char>>, t: Seq<(u16, Seq<Seq<char>>)>) -> Seq<
    Seq<char>,
>
    decreases t.len(),
{
    if t.len() == 0 {
        acc
    } else {
        merge_table_modes(add_modes_ci(acc, t[0].1), t.drop_first())
    }
}

/// What the scan setup form shows.
pub struct ScanSetupView {
    pub wifi_enabled: bool,
    pub bluetooth_enabled: bool,
    pub selected_interface: Option<String>,
    pub mode: String,
    pub locked_channel: Option<u16>,
    pub locked_ht_mode: Option<String>,
    pub hop_channels: Vec<u16>,
    pub hop_dwell_ms: u64,
    pub hop_ht_mode: String,
    pub channel_ht_modes: Vec<ChannelModes>,
    pub wifi_band: String,
    pub wifi_bandwidths: Vec<String>,
    pub wifi_export_enabled: bool,
    pub wifi_export_dir: String,
    pub bluetooth_export_enabled: bool,
    pub bluetooth_export_dir: String,
    pub bluetooth_controller: Option<String>,
}

pub ghost struct ScanSetupSpec {
    pub wifi_enabled: bool,
    pub bluetooth_enabled: bool,
    pub selected_interface: Option<Seq<char>>,
    pub mode: Seq<char>,
    pub locked_channel: Option<u16>,
    pub locked_ht_mode: Option<Seq<char>>,
    pub hop_channels: Seq<u16>,
    pub hop_dwell_ms: u64,
    pub hop_ht_mode: Seq<char>,
    pub channel_ht_modes: Seq<(u16, Seq<Seq<char>>)>,
    pub wifi_band: Seq<char>,
    pub wifi_bandwidths: Seq<Seq<char>>,
    pub wifi_export_enabled: bool,
    pub wifi_export_dir: Seq<char>,
    pub bluetooth_export_enabled: bool,
    pub bluetooth_export_dir: Seq<char>,
    pub bluetooth_controller: Option<Seq<char>>,
}

impl View for ScanSetupView {
    type V = ScanSetupSpec;

    open spec fn view(&self) -> ScanSetupSpec {
        ScanSetupSpec {
            wifi_enabled: self.wifi_enabled,
            bluetooth_enabled: self.bluetooth_enabled,
            selected_interface: opt_view(self.selected_interface),
            mode: self.mode@,
            locked_channel: self.locked_channel,
            locked_ht_mode: opt_view(self.locked_ht_mode),
            hop_channels: self.hop_channels@,
            hop_dwell_ms: self.hop_dwell_ms,
            hop_ht_mode: self.hop_ht_mode@,
            channel_ht_modes: table_view(self.channel_ht_modes@),
            wifi_band: self.wifi_band@,
            wifi_bandwidths: string_seqs(self.wifi_bandwidths@),
            wifi_export_enabled: self.wifi_export_enabled,
            wifi_export_dir: self.wifi_export_dir@,
            bluetooth_export_enabled: self.bluetooth_export_enabled,
            bluetooth_export_dir: self.bluetooth_export_dir@,
            bluetooth_controller: opt_view(self.bluetooth_controller),
        }
    }
}

/// The radio part of the form for a channel mode; `supported` are the HT
/// modes the selected interface offers.
pub ghost struct RadioFields {
    pub mode: Seq<char>,
    pub locked_channel: Option<u16>,
    pub locked_ht_mode: Option<Seq<char>>,
    pub hop_channels: Seq<u16>,
    pub hop_dwell_ms: u64,
    pub hop_ht_mode: Seq<char>,
    pub channel_ht_modes: Seq<(u16, Seq<Seq<char>>)>,
    pub wifi_bandwidths: Seq<Seq<char>>,
}

pub open spec fn default_radio_fields() -> RadioFields {
    RadioFields {
        mode: "hop_specific"@,
        locked_channel: None,
        locked_ht_mode: None,
        hop_channels: default_hop_channels(),
        hop_dwell_ms: DEFAULT_HOP_DWELL_MS,
        hop_ht_mode: "HT20"@,
        channel_ht_modes: Seq::empty(),
        wifi_bandwidths: seq!["HT20"@],
    }
}

pub open spec fn radio_fields(m: ChannelSelectionMode, supported: Seq<Seq<char>>) -> RadioFields {
    let d = default_radio_fields();
    let base_bw = if supported.len() > 0 {
        supported
    } else {
        d.wifi_bandwidths
    };
    match m {
        ChannelSelectionMode::Locked { channel, ht_mode } => RadioFields {
            mode: "locked"@,
            locked_channel: Some(channel),
            locked_ht_mode: Some(ht_mode@),
            wifi_bandwidths: seq![ht_mode@],
            ..d
        },
        ChannelSelectionMode::HopAll { channels, dwell_ms, ht_mode, channel_ht_modes } => {
            let t = table_view(channel_ht_modes@);
            let merged = merge_table_modes(Seq::empty(), t);
            RadioFields {
                hop_channels: channels@,
                hop_dwell_ms: dwell_ms,
                hop_ht_mode: ht_mode@,
                channel_ht_modes: t,
                wifi_bandwidths: if t.len() > 0 && merged.len() > 0 {
                    merged
                } else {
                    base_bw
                },
                ..d
            }
        },
        ChannelSelectionMode::HopBand { band, channels, dwell_ms } => RadioFields {
            hop_channels: channels@,
            hop_dwell_ms: dwell_ms,
            wifi_bandwidths: base_bw,
            ..d
        },
    }
}

/// The scan setup form for `s`; `supported` are the HT modes of the first
/// enabled interface.
pub open spec fn scan_setup_spec(s: AppSettings, supported: Seq<Seq<char>>) -> ScanSetupSpec {
    let ifaces = s.interfaces@;
    let radio = match first_enabled(ifaces) {
        Some(i) => radio_fields(ifaces[i].channel_mode, supported),
        None => default_radio_fields(),
    };
    ScanSetupSpec {
        wifi_enabled: any_enabled(ifaces),
        bluetooth_enabled: s.bluetooth_enabled,
        selected_interface: match first_enabled(ifaces) {
            Some(i) => Some(ifaces[i].interface_name@),
            None => None,
        },
        mode: radio.mode,
        locked_channel: radio.locked_channel,
        locked_ht_mode: radio.locked_ht_mode,
        hop_channels: radio.hop_channels,
        hop_dwell_ms: radio.hop_dwell_ms,
        hop_ht_mode: radio.hop_ht_mode,
        channel_ht_modes: radio.channel_ht_modes,
        wifi_band: match first_enabled(ifaces) {
            Some(i) => infer_band(radio.hop_channels, radio.locked_channel),
            None => "all"@,
        },
        wifi_bandwidths: radio.wifi_bandwidths,
        wifi_export_enabled: s.wifi_export_enabled,
        wifi_export_dir: s.wifi_export_dir@,
        bluetooth_export_enabled: s.bluetooth_export_enabled,
        bluetooth_export_dir: s.bluetooth_export_dir@,
        bluetooth_controller: opt_view(s.bluetooth_controller),
    }
}

/// A copy of a list of strings.
pub fn copy_strings(v: &Vec<String>) -> (r: Vec<String>)
    ensures
        r@ == v@,
{
    let r = v.clone();
    assert(r@ =~= v@);
    r
}

/// A copy of an optional string.
pub fn copy_opt_string(o: &Option<String>) -> (r: Option<String>)
    ensures
        r == *o,
{
    match o {
        Some(s) => Some(s.clone()),
        None => None,
    }
}

/// A copy of a per-channel mode table.
pub fn copy_table(t: &Vec<ChannelModes>) -> (r: Vec<ChannelModes>)
    ensures
        table_view(r@) == table_view(t@),
{
    let mut r: Vec<ChannelModes> = Vec::new();
    let mut i: usize = 0;
    while i < t.len()
        invariant
            i <= t@.len(),
            table_view(r@) == table_view(t@).subrange(0, i as int),
        decreases t@.len() - i,
    {
        let e = ChannelModes { channel: t[i].channel, modes: copy_strings(&t[i].modes) };
        let ghost old_r = r@;
        assert(table_view(old_r).len() == old_r.len());
        r.push(e);
        assert(r@ == old_r.push(e));
        i = i + 1;
        assert forall|k: int| 0 <= k < i implies #[trigger] table_view(r@)[k] == table_view(
            t@,
        ).subrange(0, i as int)[k] by {
            if k < i - 1 {
                assert(r@[k] == old_r[k]);
                assert(table_view(old_r)[k] == table_view(t@).subrange(0, i - 1)[k]);
            }
        }
        assert(table_view(r@) =~= table_view(t@).subrange(0, i as int));
    }
    assert(table_view(t@).subrange(0, t@.len() as int) =~= table_view(t@));
    r
}

/// Adds `m` to `acc` unless an entry equal to it ignoring ASCII case is present.
fn add_mode_ci_exec(acc: &mut Vec<String>, m: &String)
    ensures
        string_seqs(final(acc)@) == add_mode_ci(string_seqs(old(acc)@), m@),
{
    let mc = str_chars(m.as_str());
    let mut i: usize = 0;
    let ghost a = string_seqs(acc@);
    while i < acc.len()
        invariant
            i <= acc@.len(),
            a == string_seqs(acc@),
            acc@ == old(acc)@,
            mc@ == m@,
            forall|k: int| 0 <= k < i ==> !eq_ignore_case(#[trigger] a[k], m@),
        decreases acc@.len() - i,
    {
        let ac = str_chars(acc[i].as_str());
        if eq_ignore_case_chars(ac.as_slice(), mc.as_slice()) {
            assert(eq_ignore_case(a[i as int], m@));
            return;
        }
        i = i + 1;
    }
    acc.push(m.clone());
    assert(string_seqs(acc@) =~= a.push(m@));
}

/// All HT modes of a table, merged case-insensitively in channel order.
pub fn merged_table_modes(t: &Vec<ChannelModes>) -> (r: Vec<String>)
    ensures
        string_seqs(r@) == merge_table_modes(Seq::empty(), table_view(t@)),
{
    let mut acc: Vec<String> = Vec::new();
    let mut i: usize = 0;
    let ghost tv = table_view(t@);
    assert(tv.subrange(0, tv.len() as int) =~= tv);
    assert(string_seqs(acc@) =~= Seq::<Seq<char>>::empty());
    while i < t.len()
        invariant
            i <= t@.len(),
            tv == table_view(t@),
            merge_table_modes(Seq::empty(), tv) == merge_table_modes(
                string_seqs(acc@),
                tv.subrange(i as int, tv.len() as int),
            ),
        decreases t@.len() - i,
    {
        let ghost rest = tv.subrange(i as int, tv.len() as int);
        assert(rest.drop_first() =~= tv.subrange(i + 1, tv.len() as int));
        let modes = &t[i].modes;
        let ghost ms = string_seqs(modes@);
        assert(rest[0].1 == ms);
        let ghost acc0 = string_seqs(acc@);
        let mut k: usize = 0;
        assert(ms.subrange(0, ms.len() as int) =~= ms);
        while k < modes.len()
            invariant
                k <= modes@.len(),
                ms == string_seqs(modes@),
                add_modes_ci(acc0, ms) == add_modes_ci(
                    string_seqs(acc@),
                    ms.subrange(k as int, ms.len() as int),
                ),
            decreases modes@.len() - k,
        {
            let ghost mrest = ms.subrange(k as int, ms.len() as int);
            assert(mrest.drop_first() =~= ms.subrange(k + 1, ms.len() as int));
            add_mode_ci_exec(&mut acc, &modes[k]);
            k = k + 1;
        }
        assert(ms.subrange(ms.len() as int, ms.len() as int) =~= Seq::<Seq<char>>::empty());
        i = i + 1;
    }
    assert(tv.subrange(tv.len() as int, tv.len() as int) =~= Seq::<(u16, Seq<Seq<char>>)>::empty());
    acc
}

/// The scan setup form for the current settings; `supported_ht_modes` are the
/// HT modes that the first enabled interface offers.
pub fn scan_setup_view(settings: &AppSettings, supported_ht_modes: &Vec<String>) -> (r: ScanSetupView)
    ensures
        r@ == scan_setup_spec(*settings, string_seqs(supported_ht_modes@)),
{
    let ghost sup = string_seqs(supported_ht_modes@);
    let mut mode = String::from_str("hop_specific");
    let mut locked_channel: Option<u16> = None;
    let mut locked_ht_mode: Option<String> = None;
    let mut hop_channels = default_hop_channel_list();
    let mut hop_dwell_ms: u64 = DEFAULT_HOP_DWELL_MS;
    let mut hop_ht_mode = String::from_str("HT20");
    let mut channel_ht_modes: Vec<ChannelModes> = Vec::new();
    let mut wifi_band = String::from_str("all");
    let mut wifi_bandwidths: Vec<String> = Vec::new();
    wifi_bandwidths.push(String::from_str("HT20"));
    assert(string_seqs(wifi_bandwidths@) =~= seq!["HT20"@]);
    assert(table_view(channel_ht_modes@) =~= Seq::<(u16, Seq<Seq<char>>)>::empty());
    let selected = find_enabled(settings.interfaces.as_slice());
    proof {
        crate::settings::lemma_first_enabled(settings.interfaces@);
    }
    let selected_interface = match selected {
        Some(i) => Some(settings.interfaces[i].interface_name.clone()),
        None => None,
    };
    match selected {
        Some(i) => {
            let iface = &settings.interfaces[i];
            let ghost base_bw = if sup.len() > 0 {
                sup
            } else {
                seq!["HT20"@]
            };
            if supported_ht_modes.len() > 0 {
                wifi_bandwidths = copy_strings(supported_ht_modes);
            }
            assert(string_seqs(wifi_bandwidths@) == base_bw);
            match &iface.channel_mode {
                ChannelSelectionMode::Locked { channel, ht_mode } => {
                    mode = String::from_str("locked");
                    locked_channel = Some(*channel);
                    locked_ht_mode = Some(ht_mode.clone());
                    let mut bw: Vec<String> = Vec::new();
                    bw.push(ht_mode.clone());
                    assert(string_seqs(bw@) =~= seq![ht_mode@]);
                    wifi_bandwidths = bw;
                },
                ChannelSelectionMode::HopAll { channels, dwell_ms, ht_mode, channel_ht_modes: saved } => {
                    hop_channels = channels.clone();
                    assert(hop_channels@ =~= channels@);
                    hop_dwell_ms = *dwell_ms;
                    hop_ht_mode = ht_mode.clone();
                    channel_ht_modes = copy_table(saved);
                    if saved.len() > 0 {
                        let merged = merged_table_modes(saved);
                        if merged.len() > 0 {
                            wifi_bandwidths = merged;
                        }
                    }
                },
                ChannelSelectionMode::HopBand { channels, dwell_ms, .. } => {
                    hop_channels = channels.clone();
                    assert(hop_channels@ =~= channels@);
                    hop_dwell_ms = *dwell_ms;
                },
            }
            wifi_band = infer_band_from_channels(hop_channels.as_slice(), locked_channel);
        },
        None => {},
    }
    let r = ScanSetupView {
        wifi_enabled: wifi_enabled(settings.interfaces.as_slice()),
        bluetooth_enabled: settings.bluetooth_enabled,
        selected_interface,
        mode,
        locked_channel,
        locked_ht_mode,
        hop_channels,
        hop_dwell_ms,
        hop_ht_mode,
        channel_ht_modes,
        wifi_band,
        wifi_bandwidths,
        wifi_export_enabled: settings.wifi_export_enabled,
        wifi_export_dir: settings.wifi_export_dir.clone(),
        bluetooth_export_enabled: settings.bluetooth_export_enabled,
        bluetooth_export_dir: settings.bluetooth_export_dir.clone(),
        bluetooth_controller: copy_opt_string(&settings.bluetooth_controller),
    };
    r
}


/// A submitted scan setup form.
pub struct ScanSetupRequest {
    pub wifi_enabled: bool,
    pub bluetooth_enabled: bool,
    pub selected_interface: Option<String>,
    pub mode: String,
    pub locked_channel: Option<u16>,
    pub locked_ht_mode: Option<String>,
    pub hop_channels: Option<Vec<u16>>,
    pub hop_dwell_ms: Option<u64>,
    pub hop_ht_mode: Option<String>,
    /// Requested modes per channel, ordered by channel; channel 0 applies to all.
    pub channel_ht_modes: Option<Vec<ChannelModes>>,
    pub wifi_band: Option<String>,
    pub wifi_bandwidths: Option<Vec<String>>,
    pub wifi_export_enabled: bool,
    pub wifi_export_dir: String,
    pub bluetooth_export_enabled: bool,
    pub bluetooth_export_dir: String,
    pub bluetooth_controller: Option<String>,
}

/// The interface a submitted form applies to: the requested name (trimmed),
/// else the first enabled interface, else `wlan0`.
pub open spec fn setup_interface_spec(s: AppSettings, requested: Option<Seq<char>>) -> Seq<char> {
    let t = trim(
        match requested {
            Some(r) => r,
            None => Seq::empty(),
        },
    );
    if t.len() > 0 {
        t
    } else {
        match first_enabled(s.interfaces@) {
            Some(i) => if s.interfaces@[i].interface_name@.len() > 0 {
                s.interfaces@[i].interface_name@
            } else {
                "wlan0"@
            },
            None => "wlan0"@,
        }
    }
}

/// The interface name a submitted scan setup form applies to.
pub fn setup_interface(settings: &AppSettings, requested: &Option<String>) -> (r: String)
    ensures
        r@ == setup_interface_spec(*settings, opt_view(*requested)),
{
    let t = match requested {
        Some(x) => trim_str(x.as_str()),
        None => trim_str(""),
    };
    proof {
        reveal_strlit("");
        assert(""@ =~= Seq::<char>::empty());
    }
    if !t.as_str().is_empty() {
        return t;
    }
    proof {
        crate::settings::lemma_first_enabled(settings.interfaces@);
    }
    match find_enabled(settings.interfaces.as_slice()) {
        Some(i) => {
            let n = settings.interfaces[i].interface_name.clone();
            if !n.as_str().is_empty() {
                n
            } else {
                String::from_str("wlan0")
            }
        },
        None => String::from_str("wlan0"),
    }
}

/// The requested bandwidths: trimmed, non-empty, and supported when the
/// interface lists any modes.
pub open spec fn keep_bandwidths(ms: Seq<Seq<char>>, supported: Seq<Seq<char>>) -> Seq<Seq<char>>
    decreases ms.len(),
{
    if ms.len() == 0 {
        Seq::empty()
    } else {
        let t = trim(ms[0]);
        let rest = keep_bandwidths(ms.drop_first(), supported);
        if t.len() > 0 && (supported.len() == 0 || supported.contains(t)) {
            seq![t] + rest
        } else {
            rest
        }
    }
}

/// The HT mode asked for: the locked mode, else the hop mode, else the first bandwidth.
pub open spec fn requested_primary(
    locked: Option<Seq<char>>,
    hop: Option<Seq<char>>,
    bandwidths: Seq<Seq<char>>,
) -> Option<Seq<char>> {
    match locked {
        Some(m) => Some(m),
        None => match hop {
            Some(m) => Some(m),
            None => if bandwidths.len() > 0 {
                Some(bandwidths[0])
            } else {
                None
            },
        },
    }
}

/// The primary HT mode: the requested one when supported (or nothing is
/// listed), else the first supported mode, else `HT20`.
pub open spec fn primary_mode(requested: Option<Seq<char>>, supported: Seq<Seq<char>>) -> Seq<char> {
    match requested {
        Some(m) => if supported.len() == 0 || supported.contains(m) {
            m
        } else if supported.len() > 0 {
            supported[0]
        } else {
            "HT20"@
        },
        None => if supported.len() > 0 {
            supported[0]
        } else {
            "HT20"@
        },
    }
}

/// Whether a band filter (`2.4`, `5`, `6`, or anything else for all) keeps channel `c`.
pub open spec fn band_accepts(band: Seq<char>, c: u16) -> bool {
    if band == "2.4"@ {
        1 <= c <= 14
    } else if band == "5"@ {
        32 <= c <= 177
    } else if band == "6"@ {
        c > 177
    } else {
        true
    }
}

/// A hop channel is kept when it is non-zero, in the requested band and supported.
pub open spec fn keep_channel(c: u16, band: Option<Seq<char>>, supported: Seq<u16>) -> bool {
    &&& c > 0
    &&& match band {
        Some(b) => band_accepts(trim(b), c),
        None => true,
    }
    &&& (supported.len() == 0 || supported.contains(c))
}

pub open spec fn keep_channels(cs: Seq<u16>, band: Option<Seq<char>>, supported: Seq<u16>) -> Seq<
    u16,
>
    decreases cs.len(),
{
    if cs.len() == 0 {
        Seq::empty()
    } else {
        let rest = keep_channels(cs.drop_first(), band, supported);
        if keep_channel(cs[0], band, supported) {
            seq![cs[0]] + rest
        } else {
            rest
        }
    }
}

/// The hop channels of a submitted form.
pub open spec fn hop_channels_spec(
    requested: Option<Seq<u16>>,
    band: Option<Seq<char>>,
    supported: Seq<u16>,
) -> Seq<u16> {
    let kept = keep_channels(
        match requested {
            Some(cs) => cs,
            None => default_hop_channels(),
        },
        band,
        supported,
    );
    if kept.len() > 0 {
        kept
    } else if supported.len() > 0 {
        supported
    } else {
        default_hop_channels()
    }
}

/// Modes listed for channel `c` in a request table (first entry for `c`).
pub open spec fn table_lookup(t: Seq<(u16, Seq<Seq<char>>)>, c: u16) -> Option<Seq<Seq<char>>>
    decreases t.len(),
{
    if t.len() == 0 {
        None
    } else if t[0].0 == c {
        Some(t[0].1)
    } else {
        table_lookup(t.drop_first(), c)
    }
}

/// The modes a channel's entry is chosen from: its own request entry, else the
/// channel 0 entry, else nothing; without a request table, `fallback`.
pub open spec fn table_source(t: Seq<(u16, Seq<Seq<char>>)>, fallback: Seq<Seq<char>>, c: u16) -> Seq<
    Seq<char>,
> {
    if t.len() > 0 {
        match table_lookup(t, c) {
            Some(ms) => ms,
            None => match table_lookup(t, 0) {
                Some(ms) => ms,
                None => Seq::empty(),
            },
        }
    } else {
        fallback
    }
}

/// `t` is the per-channel table built for `channels`: exactly the channels whose
/// kept modes are non-empty, each with its kept modes sorted and distinct.
pub open spec fn is_channel_table(
    t: Seq<(u16, Seq<Seq<char>>)>,
    channels: Seq<u16>,
    req_table: Seq<(u16, Seq<Seq<char>>)>,
    fallback: Seq<Seq<char>>,
) -> bool {
    &&& table_keys_sorted(t)
    &&& forall|k: int|
        0 <= k < t.len() ==> {
            let c = (#[trigger] t[k]).0;
            &&& channels.contains(c)
            &&& strictly_sorted_text(t[k].1)
            &&& t[k].1.len() > 0
            &&& t[k].1.to_set() == channel_modes(table_source(req_table, fallback, c), c)
        }
    &&& forall|c: u16|
        channels.contains(c) && channel_modes(table_source(req_table, fallback, c), c)
            != Set::<Seq<char>>::empty() ==> exists|k: int| 0 <= k < t.len() && (#[trigger] t[k]).0
            == c
}

/// The lexicographically least element of a set of texts.
pub open spec fn least_text(s: Set<Seq<char>>) -> Seq<char> {
    choose|x: Seq<char>| s.contains(x) && forall|y: Seq<char>| s.contains(y) ==> y == x || lex_lt(x, y)
}


/// The channel selection a submitted form asks for, given the channels and
/// HT modes that the chosen interface supports.
pub open spec fn setup_mode_matches(
    req: ScanSetupRequest,
    sc: Seq<u16>,
    sm: Seq<Seq<char>>,
    m: ChannelSelectionMode,
) -> bool {
    let bw = keep_bandwidths(
        match req.wifi_bandwidths {
            Some(v) => string_seqs(v@),
            None => Seq::empty(),
        },
        sm,
    );
    let prim = primary_mode(
        requested_primary(opt_view(req.locked_ht_mode), opt_view(req.hop_ht_mode), bw),
        sm,
    );
    if unicode_lower(trim(req.mode@)) == "locked"@ {
        let want = match req.locked_channel {
            Some(c) => c,
            None => 1u16,
        };
        let ch = if sc.len() == 0 || sc.contains(want) {
            want
        } else {
            sc[0]
        };
        let ms = channel_modes(sm, ch);
        let ht = if mode_allowed(prim, ch) {
            prim
        } else if ms != Set::<Seq<char>>::empty() {
            least_text(ms)
        } else {
            "HT20"@
        };
        m matches ChannelSelectionMode::Locked { channel, ht_mode } && channel == ch && ht_mode@
            == ht
    } else {
        let chs = hop_channels_spec(
            match req.hop_channels {
                Some(v) => Some(v@),
                None => None,
            },
            opt_view(req.wifi_band),
            sc,
        );
        let rt = match req.channel_ht_modes {
            Some(t) => table_view(t@),
            None => Seq::empty(),
        };
        let fallback = if bw.len() == 0 {
            sm
        } else {
            bw
        };
        let want_dwell = match req.hop_dwell_ms {
            Some(d) => d,
            None => DEFAULT_HOP_DWELL_MS,
        };
        m matches ChannelSelectionMode::HopAll { channels, dwell_ms, ht_mode, channel_ht_modes }
            && channels@ == chs && dwell_ms == (if want_dwell > 25 {
            want_dwell
        } else {
            25u64
        }) && ht_mode@ == prim && is_channel_table(
            table_view(channel_ht_modes@),
            chs,
            rt,
            fallback,
        )
    }
}

/// Whether `x` is among the strings of `v`.
pub fn contains_text(v: &Vec<String>, x: &[char]) -> (r: bool)
    ensures
        r == string_seqs(v@).contains(x@),
{
    let mut i: usize = 0;
    while i < v.len()
        invariant
            i <= v@.len(),
            forall|k: int| 0 <= k < i ==> string_seqs(v@)[k] != x@,
        decreases v@.len() - i,
    {
        let c = str_chars(v[i].as_str());
        if chars_eq(c.as_slice(), x) {
            assert(string_seqs(v@)[i as int] == x@);
            return true;
        }
        i = i + 1;
    }
    false
}

/// Whether `x` is in `v`.
pub fn contains_u16(v: &[u16], x: u16) -> (r: bool)
    ensures
        r == v@.contains(x),
{
    let mut i: usize = 0;
    while i < v.len()
        invariant
            i <= v@.len(),
            forall|k: int| 0 <= k < i ==> v@[k] != x,
        decreases v@.len() - i,
    {
        if v[i] == x {
            return true;
        }
        i = i + 1;
    }
    false
}

fn kept_bandwidths(requested: &Option<Vec<String>>, supported: &Vec<String>) -> (r: Vec<String>)
    ensures
        string_seqs(r@) == keep_bandwidths(
            match *requested {
                Some(v) => string_seqs(v@),
                None => Seq::empty(),
            },
            string_seqs(supported@),
        ),
{
    let mut out: Vec<String> = Vec::new();
    let ghost sup = string_seqs(supported@);
    match requested {
        Some(v) => {
            let ghost ms = string_seqs(v@);
            let mut i: usize = 0;
            assert(ms.subrange(0, ms.len() as int) =~= ms);
            assert(string_seqs(out@) =~= Seq::<Seq<char>>::empty());
            while i < v.len()
                invariant
                    i <= v@.len(),
                    ms == string_seqs(v@),
                    sup == string_seqs(supported@),
                    keep_bandwidths(ms, sup) == string_seqs(out@) + keep_bandwidths(
                        ms.subrange(i as int, ms.len() as int),
                        sup,
                    ),
                decreases v@.len() - i,
            {
                let ghost rest = ms.subrange(i as int, ms.len() as int);
                assert(rest.drop_first() =~= ms.subrange(i + 1, ms.len() as int));
                let t = trim_str(v[i].as_str());
                let tc = str_chars(t.as_str());
                let keep = tc.len() > 0 && (supported.len() == 0 || contains_text(
                    supported,
                    tc.as_slice(),
                ));
                let ghost o = string_seqs(out@);
                if keep {
                    out.push(t);
                    assert(string_seqs(out@) =~= o.push(tc@));
                    assert(o.push(tc@) + keep_bandwidths(rest.drop_first(), sup) =~= o + (seq![tc@]
                        + keep_bandwidths(rest.drop_first(), sup)));
                }
                i = i + 1;
            }
            assert(ms.subrange(ms.len() as int, ms.len() as int) =~= Seq::<Seq<char>>::empty());
            assert(string_seqs(out@) + Seq::<Seq<char>>::empty() =~= string_seqs(out@));
            out
        },
        None => {
            assert(string_seqs(out@) =~= Seq::<Seq<char>>::empty());
            out
        },
    }
}

fn kept_channels(requested: &Vec<u16>, band: &Option<String>, supported: &Vec<u16>) -> (r: Vec<
    u16,
>)
    ensures
        r@ == keep_channels(requested@, opt_view(*band), supported@),
{
    let band_t: Option<Vec<char>> = match band {
        Some(b) => {
            let t = trim_str(b.as_str());
            Some(str_chars(t.as_str()))
        },
        None => None,
    };
    let b24 = str_chars("2.4");
    let b5 = str_chars("5");
    let b6 = str_chars("6");
    let mut out: Vec<u16> = Vec::new();
    let mut i: usize = 0;
    let ghost cs = requested@;
    assert(cs.subrange(0, cs.len() as int) =~= cs);
    assert(out@ =~= Seq::<u16>::empty());
    while i < requested.len()
        invariant
            i <= requested@.len(),
            cs == requested@,
            b24@ == "2.4"@,
            b5@ == "5"@,
            b6@ == "6"@,
            match band_t {
                Some(t) => opt_view(*band) matches Some(b) && t@ == trim(b),
                None => opt_view(*band) is None,
            },
            keep_channels(cs, opt_view(*band), supported@) == out@ + keep_channels(
                cs.subrange(i as int, cs.len() as int),
                opt_view(*band),
                supported@,
            ),
        decreases requested@.len() - i,
    {
        let ghost rest = cs.subrange(i as int, cs.len() as int);
        assert(rest.drop_first() =~= cs.subrange(i + 1, cs.len() as int));
        let c = requested[i];
        let in_band = match &band_t {
            Some(t) => {
                if chars_eq(t.as_slice(), b24.as_slice()) {
                    1 <= c && c <= 14
                } else if chars_eq(t.as_slice(), b5.as_slice()) {
                    32 <= c && c <= 177
                } else if chars_eq(t.as_slice(), b6.as_slice()) {
                    c > 177
                } else {
                    true
                }
            },
            None => true,
        };
        let keep = c > 0 && in_band && (supported.len() == 0 || contains_u16(
            supported.as_slice(),
            c,
        ));
        assert(keep == keep_channel(c, opt_view(*band), supported@));
        let ghost o = out@;
        if keep {
            out.push(c);
            assert(o.push(c) + keep_channels(rest.drop_first(), opt_view(*band), supported@)
                =~= o + (seq![c] + keep_channels(rest.drop_first(), opt_view(*band), supported@)));
        }
        i = i + 1;
    }
    assert(cs.subrange(cs.len() as int, cs.len() as int) =~= Seq::<u16>::empty());
    assert(out@ + Seq::<u16>::empty() =~= out@);
    out
}

fn lookup_modes(t: &Vec<ChannelModes>, c: u16) -> (r: Option<usize>)
    ensures
        match r {
            Some(k) => k < t@.len() && table_lookup(table_view(t@), c) == Some(
                table_view(t@)[k as int].1,
            ),
            None => table_lookup(table_view(t@), c) is None,
        },
{
    let ghost tv = table_view(t@);
    let mut i: usize = 0;
    assert(tv.subrange(0, tv.len() as int) =~= tv);
    while i < t.len()
        invariant
            i <= t@.len(),
            tv == table_view(t@),
            table_lookup(tv, c) == table_lookup(tv.subrange(i as int, tv.len() as int), c),
        decreases t@.len() - i,
    {
        let ghost rest = tv.subrange(i as int, tv.len() as int);
        assert(rest.drop_first() =~= tv.subrange(i + 1, tv.len() as int));
        if t[i].channel == c {
            return Some(i);
        }
        i = i + 1;
    }
    None
}

/// Sets the modes of channel `c` in a channel-ordered table.
fn table_insert(t: &mut Vec<ChannelModes>, c: u16, modes: Vec<String>)
    requires
        table_keys_sorted(table_view(old(t)@)),
    ensures
        table_keys_sorted(table_view(final(t)@)),
        forall|k: int|
            0 <= k < final(t)@.len() ==> {
                let e = #[trigger] table_view(final(t)@)[k];
                e == (c, string_seqs(modes@)) || (e.0 != c && table_view(
                    old(t)@,
                ).contains(e))
            },
        forall|k: int|
            0 <= k < old(t)@.len() && (#[trigger] table_view(old(t)@)[k]).0 != c ==> table_view(
                final(t)@,
            ).contains(table_view(old(t)@)[k]),
        exists|k: int|
            0 <= k < final(t)@.len() && (#[trigger] table_view(final(t)@)[k]).0 == c,
{
    let ghost tv = table_view(t@);
    let ghost mv = string_seqs(modes@);
    let n = t.len();
    let mut k: usize = 0;
    while k < n && t[k].channel < c
        invariant
            k <= n,
            n == t@.len(),
            t@ == old(t)@,
            tv == table_view(t@),
            forall|m: int| 0 <= m < k ==> (#[trigger] tv[m]).0 < c,
        decreases n - k,
    {
        k = k + 1;
    }
    let e = ChannelModes { channel: c, modes };
    if k < n && t[k].channel == c {
        t.set(k, e);
        let ghost u = table_view(t@);
        assert(u =~= tv.update(k as int, (c, mv)));
        assert forall|kk: int| 0 <= kk < t@.len() implies {
            let x = #[trigger] table_view(t@)[kk];
            x == (c, mv) || (x.0 != c && tv.contains(x))
        } by {
            if kk != k {
                assert(u[kk] == tv[kk]);
                if kk < k {
                    assert(tv[kk].0 < tv[k as int].0);
                } else {
                    assert(tv[k as int].0 < tv[kk].0);
                }
                assert(tv.contains(tv[kk]));
            }
        }
        assert forall|kk: int| 0 <= kk < tv.len() && (#[trigger] tv[kk]).0 != c implies u.contains(
            tv[kk],
        ) by {
            assert(kk != k);
            assert(u[kk] == tv[kk]);
        }
        assert(u[k as int].0 == c);
    } else {
        t.insert(k, e);
        let ghost u = table_view(t@);
        assert(u =~= tv.insert(k as int, (c, mv)));
        assert(table_keys_sorted(u)) by {
            assert forall|i: int, j: int| 0 <= i < j < u.len() implies (#[trigger] u[i]).0 < (
            #[trigger] u[j]).0 by {
                if j < k {
                    assert(u[i] == tv[i] && u[j] == tv[j]);
                } else if j == k {
                    assert(u[i] == tv[i]);
                } else if i == k {
                    assert(u[j] == tv[j - 1]);
                    if j - 1 > k {
                        assert(tv[k as int].0 < tv[j - 1].0);
                    }
                } else if i < k {
                    assert(u[i] == tv[i] && u[j] == tv[j - 1]);
                } else {
                    assert(u[i] == tv[i - 1] && u[j] == tv[j - 1]);
                }
            }
        }
        assert forall|kk: int| 0 <= kk < t@.len() implies {
            let x = #[trigger] table_view(t@)[kk];
            x == (c, mv) || (x.0 != c && tv.contains(x))
        } by {
            assert(table_view(t@)[kk] == u[kk]);
            if kk < k {
                assert(u[kk] == tv[kk]);
                assert(tv[kk].0 < c);
                assert(tv.contains(tv[kk]));
            } else if kk == k {
                assert(u[kk] == (c, mv));
            } else {
                assert(u[kk] == tv[kk - 1]);
                assert(tv[k as int].0 > c);
                if kk - 1 > k {
                    assert(tv[k as int].0 < tv[kk - 1].0);
                }
                assert(tv.contains(tv[kk - 1]));
            }
        }
        assert forall|kk: int| 0 <= kk < tv.len() && (#[trigger] tv[kk]).0 != c implies u.contains(
            tv[kk],
        ) by {
            if kk < k {
                assert(u[kk] == tv[kk]);
            } else {
                assert(u[kk + 1] == tv[kk]);
            }
        }
        assert(u[k as int].0 == c);
    }
}

proof fn lemma_first_is_least(v: Seq<Seq<char>>, s: Set<Seq<char>>)
    requires
        strictly_sorted_text(v),
        v.to_set() == s,
        v.len() > 0,
    ensures
        least_text(s) == v[0],
{
    assert(s.contains(v[0]));
    assert forall|y: Seq<char>| s.contains(y) implies y == v[0] || lex_lt(v[0], y) by {
        assert(v.to_set().contains(y));
        let i = choose|i: int| 0 <= i < v.len() && v[i] == y;
        if i > 0 {
        }
    }
    let x = least_text(s);
    assert(s.contains(x) && forall|y: Seq<char>| s.contains(y) ==> y == x || lex_lt(x, y));
    if x != v[0] {
        assert(lex_lt(x, v[0]));
        assert(lex_lt(v[0], x));
        crate::sorted::lemma_lex_asymmetric(x, v[0]);
    }
}

proof fn lemma_empty_iff(v: Seq<Seq<char>>, s: Set<Seq<char>>)
    requires
        v.to_set() == s,
    ensures
        (v.len() == 0) == (s == Set::<Seq<char>>::empty()),
{
    if v.len() == 0 {
        assert(s =~= Set::<Seq<char>>::empty());
    } else {
        assert(s.contains(v[0]));
    }
}


fn opt_text_copy(o: &Option<String>) -> (r: Option<Vec<char>>)
    ensures
        match r {
            Some(v) => opt_view(*o) == Some(v@),
            None => opt_view(*o) is None,
        },
{
    match o {
        Some(s) => Some(str_chars(s.as_str())),
        None => None,
    }
}

/// The channel selection for a submitted scan setup form, given the channels
/// and HT modes that the chosen interface supports.
pub fn setup_channel_mode(
    req: &ScanSetupRequest,
    supported_channels: &Vec<u16>,
    supported_modes: &Vec<String>,
) -> (m: ChannelSelectionMode)
    ensures
        setup_mode_matches(*req, supported_channels@, string_seqs(supported_modes@), m),
{
    let ghost sm = string_seqs(supported_modes@);
    let ghost sc = supported_channels@;
    let bw = kept_bandwidths(&req.wifi_bandwidths, supported_modes);
    let requested: Option<Vec<char>> = match opt_text_copy(&req.locked_ht_mode) {
        Some(v) => Some(v),
        None => match opt_text_copy(&req.hop_ht_mode) {
            Some(v) => Some(v),
            None => if bw.len() > 0 {
                Some(str_chars(bw[0].as_str()))
            } else {
                None
            },
        },
    };
    let ghost rp = requested_primary(opt_view(req.locked_ht_mode), opt_view(req.hop_ht_mode), string_seqs(bw@));
    assert(match requested {
        Some(v) => rp == Some(v@),
        None => rp is None,
    });
    let primary: String = match requested {
        Some(v) => {
            if supported_modes.len() == 0 || contains_text(supported_modes, v.as_slice()) {
                string_from_chars(v.as_slice())
            } else {
                supported_modes[0].clone()
            }
        },
        None => {
            if supported_modes.len() > 0 {
                supported_modes[0].clone()
            } else {
                String::from_str("HT20")
            }
        },
    };
    assert(primary@ == primary_mode(rp, sm));
    let trimmed_mode = trim_str(req.mode.as_str());
    let mode = to_lowercase(trimmed_mode.as_str());
    let mc = str_chars(mode.as_str());
    let locked_word = str_chars("locked");
    if chars_eq(mc.as_slice(), locked_word.as_slice()) {
        let want: u16 = match req.locked_channel {
            Some(c) => c,
            None => 1,
        };
        let ch = if supported_channels.len() == 0 || contains_u16(supported_channels.as_slice(), want) {
            want
        } else {
            supported_channels[0]
        };
        let ht_mode = if mode_allowed_for_channel(primary.as_str(), ch) {
            primary
        } else {
            let per = modes_for_channel(supported_modes.as_slice(), ch);
            proof {
                lemma_empty_iff(string_seqs(per@), channel_modes(sm, ch));
            }
            if per.len() > 0 {
                proof {
                    lemma_first_is_least(string_seqs(per@), channel_modes(sm, ch));
                }
                per[0].clone()
            } else {
                String::from_str("HT20")
            }
        };
        ChannelSelectionMode::Locked { channel: ch, ht_mode }
    } else {
        let requested_channels = match &req.hop_channels {
            Some(v) => v.clone(),
            None => default_hop_channel_list(),
        };
        assert(requested_channels@ == match req.hop_channels {
            Some(v) => v@,
            None => default_hop_channels(),
        });
        let mut channels = kept_channels(&requested_channels, &req.wifi_band, supported_channels);
        if channels.len() == 0 {
            channels = if supported_channels.len() == 0 {
                default_hop_channel_list()
            } else {
                supported_channels.clone()
            };
        }
        assert(channels@ =~= hop_channels_spec(
            match req.hop_channels {
                Some(v) => Some(v@),
                None => None,
            },
            opt_view(req.wifi_band),
            sc,
        ));
        let empty_table: Vec<ChannelModes> = Vec::new();
        let rt: &Vec<ChannelModes> = match &req.channel_ht_modes {
            Some(t) => t,
            None => &empty_table,
        };
        let ghost rtv = table_view(rt@);
        assert(rtv == match req.channel_ht_modes {
            Some(t) => table_view(t@),
            None => Seq::empty(),
        }) by {
            assert(table_view(empty_table@) =~= Seq::<(u16, Seq<Seq<char>>)>::empty());
        }
        let fallback: &Vec<String> = if bw.len() == 0 {
            supported_modes
        } else {
            &bw
        };
        let ghost fb = string_seqs(fallback@);
        let mut table: Vec<ChannelModes> = Vec::new();
        let mut j: usize = 0;
        assert(table_view(table@) =~= Seq::<(u16, Seq<Seq<char>>)>::empty());
        while j < channels.len()
            invariant
                j <= channels@.len(),
                rtv == table_view(rt@),
                fb == string_seqs(fallback@),
                table_keys_sorted(table_view(table@)),
                forall|k: int|
                    0 <= k < table@.len() ==> {
                        let e = #[trigger] table_view(table@)[k];
                        &&& channels@.subrange(0, j as int).contains(e.0)
                        &&& strictly_sorted_text(e.1)
                        &&& e.1.len() > 0
                        &&& e.1.to_set() == channel_modes(table_source(rtv, fb, e.0), e.0)
                    },
                forall|c: u16|
                    channels@.subrange(0, j as int).contains(c) && channel_modes(
                        table_source(rtv, fb, c),
                        c,
                    ) != Set::<Seq<char>>::empty() ==> exists|k: int|
                        0 <= k < table@.len() && (#[trigger] table_view(table@)[k]).0 == c,
            decreases channels@.len() - j,
        {
            let c = channels[j];
            let src: &Vec<String> = if rt.len() > 0 {
                match lookup_modes(rt, c) {
                    Some(k) => &rt[k].modes,
                    None => match lookup_modes(rt, 0) {
                        Some(k) => &rt[k].modes,
                        None => &empty_list(),
                    },
                }
            } else {
                fallback
            };
            assert(string_seqs(src@) == table_source(rtv, fb, c));
            let per = modes_for_channel(src.as_slice(), c);
            proof {
                lemma_empty_iff(string_seqs(per@), channel_modes(table_source(rtv, fb, c), c));
            }
            let ghost before = table_view(table@);
            let ghost pv = string_seqs(per@);
            let ghost pre_ch = channels@.subrange(0, j as int);
            let ghost post_ch = channels@.subrange(0, j + 1);
            assert(post_ch =~= pre_ch.push(c));
            if per.len() > 0 {
                table_insert(&mut table, c, per);
            }
            proof {
                let after = table_view(table@);
                assert forall|k: int| 0 <= k < table@.len() implies {
                    let e = #[trigger] table_view(table@)[k];
                    &&& post_ch.contains(e.0)
                    &&& strictly_sorted_text(e.1)
                    &&& e.1.len() > 0
                    &&& e.1.to_set() == channel_modes(table_source(rtv, fb, e.0), e.0)
                } by {
                    let e = after[k];
                    if pv.len() > 0 {
                        if e == (c, pv) {
                            assert(post_ch[j as int] == c);
                        } else {
                            let kk = choose|kk: int| 0 <= kk < before.len() && before[kk] == e;
                            assert(before[kk] == e);
                            let i0 = choose|i0: int| 0 <= i0 < pre_ch.len() && pre_ch[i0] == e.0;
                            assert(post_ch[i0] == e.0);
                        }
                    } else {
                        let i0 = choose|i0: int| 0 <= i0 < pre_ch.len() && pre_ch[i0] == e.0;
                        assert(post_ch[i0] == e.0);
                    }
                }
                assert forall|cc: u16|
                    post_ch.contains(cc) && channel_modes(table_source(rtv, fb, cc), cc) != Set::<
                        Seq<char>,
                    >::empty() implies exists|k: int|
                    0 <= k < table@.len() && (#[trigger] table_view(table@)[k]).0 == cc by {
                    let i0 = choose|i0: int| 0 <= i0 < post_ch.len() && post_ch[i0] == cc;
                    if i0 < j {
                        assert(pre_ch[i0] == cc);
                        assert(pre_ch.contains(cc));
                        let k0 = choose|k0: int| 0 <= k0 < before.len() && before[k0].0 == cc;
                        if pv.len() > 0 && cc != c {
                            assert(after.contains(before[k0]));
                            let k1 = choose|k1: int| 0 <= k1 < after.len() && after[k1] == before[k0];
                            assert(after[k1].0 == cc);
                        }
                    } else {
                        assert(cc == c);
                    }
                }
            }
            j = j + 1;
        }
        assert(channels@.subrange(0, channels@.len() as int) =~= channels@);
        let want_dwell: u64 = match req.hop_dwell_ms {
            Some(d) => d,
            None => DEFAULT_HOP_DWELL_MS,
        };
        let dwell_ms = if want_dwell > 25 {
            want_dwell
        } else {
            25
        };
        ChannelSelectionMode::HopAll { channels, dwell_ms, ht_mode: primary, channel_ht_modes: table }
    }
}

fn empty_list() -> (r: Vec<String>)
    ensures
        r@.len() == 0,
{
    Vec::new()
}


/// A directory setting after a form submits `requested`: the trimmed request
/// when it is not blank, else the current value.
pub open spec fn trimmed_or(current: Seq<char>, requested: Seq<char>) -> Seq<char> {
    if trim(requested).len() > 0 {
        trim(requested)
    } else {
        current
    }
}

/// The Bluetooth controller a form selects: the trimmed request, or none when blank.
pub open spec fn controller_choice(requested: Option<Seq<char>>) -> Option<Seq<char>> {
    match requested {
        Some(c) => if trim(c).len() > 0 {
            Some(trim(c))
        } else {
            None
        },
        None => None,
    }
}

fn trimmed_or_exec(current: &String, requested: &String) -> (r: String)
    ensures
        r@ == trimmed_or(current@, requested@),
{
    let t = trim_str(requested.as_str());
    if !t.as_str().is_empty() {
        t
    } else {
        current.clone()
    }
}

/// Stores a submitted scan setup form: `selected` becomes the only enabled
/// candidate interface with channel selection `mode`, and the radio and export
/// settings are taken from the form.
pub fn apply_scan_setup(
    settings: &mut AppSettings,
    req: &ScanSetupRequest,
    selected: &String,
    mode: ChannelSelectionMode,
)
    ensures
        ifaces_view(final(settings).interfaces@) == choose_interface(
            ifaces_view(old(settings).interfaces@),
            selected@,
            req.wifi_enabled,
            Some(mode@),
            mode@,
        ),
        final(settings).bluetooth_enabled == req.bluetooth_enabled,
        final(settings).wifi_export_enabled == req.wifi_export_enabled,
        final(settings).bluetooth_export_enabled == req.bluetooth_export_enabled,
        final(settings).wifi_export_dir@ == trimmed_or(
            old(settings).wifi_export_dir@,
            req.wifi_export_dir@,
        ),
        final(settings).bluetooth_export_dir@ == trimmed_or(
            old(settings).bluetooth_export_dir@,
            req.bluetooth_export_dir@,
        ),
        opt_view(final(settings).bluetooth_controller) == controller_choice(
            opt_view(req.bluetooth_controller),
        ),
        final(settings).watchlists == old(settings).watchlists,
{
    let copy = copy_mode(&mode);
    let ghost mv = mode@;
    let m: Option<ChannelSelectionMode> = Some(mode);
    choose_interface_exec(&mut settings.interfaces, selected, req.wifi_enabled, &m, copy);
    settings.bluetooth_enabled = req.bluetooth_enabled;
    settings.wifi_export_enabled = req.wifi_export_enabled;
    settings.bluetooth_export_enabled = req.bluetooth_export_enabled;
    settings.wifi_export_dir = trimmed_or_exec(&settings.wifi_export_dir, &req.wifi_export_dir);
    settings.bluetooth_export_dir = trimmed_or_exec(
        &settings.bluetooth_export_dir,
        &req.bluetooth_export_dir,
    );
    settings.bluetooth_controller = match &req.bluetooth_controller {
        Some(c) => {
            let t = trim_str(c.as_str());
            if !t.as_str().is_empty() {
                Some(t)
            } else {
                None
            }
        },
        None => None,
    };
}

} // verus!
