//! Settings the scanning logic reads: per-interface channel selection,
//! radio and export switches, and watchlists.

use vstd::prelude::*;
use crate::channels::SpectrumBand;
use crate::text::string_seqs;

verus! {

/// HT modes chosen for one channel of a hop list.
#[derive(Debug, Clone)]
pub struct ChannelModes {
    pub channel: u16,
    pub modes: Vec<String>,
}

/// A per-channel HT-mode table, as a sequence of (channel, modes).
pub open spec fn table_view(t: Seq<ChannelModes>) -> Seq<(u16, Seq<Seq<char>>)> {
    t.map_values(|e: ChannelModes| (e.channel, string_seqs(e.modes@)))
}

/// Channels of a table appear in strictly increasing order (so at most once).
pub open spec fn table_keys_sorted(t: Seq<(u16, Seq<Seq<char>>)>) -> bool {
    forall|i: int, j: int| 0 <= i < j < t.len() ==> (#[trigger] t[i]).0 < (#[trigger] t[j]).0
}

/// How an interface picks channels while capturing.
#[derive(Debug, Clone)]
pub enum ChannelSelectionMode {
    /// Stay on one channel with one HT mode.
    Locked { channel: u16, ht_mode: String },
    /// Hop over the listed channels; `channel_ht_modes` is ordered by channel.
    HopAll {
        channels: Vec<u16>,
        dwell_ms: u64,
        ht_mode: String,
        channel_ht_modes: Vec<ChannelModes>,
    },
    /// Hop over the channels of one band.
    HopBand { band: SpectrumBand, channels: Vec<u16>, dwell_ms: u64 },
}

/// Dwell time per channel when hopping, unless configured.
pub const DEFAULT_HOP_DWELL_MS: u64 = 200;

/// The channel mode given to an interface that has none configured:
/// hop over 1, 6 and 11 every 200 ms with HT20.
pub open spec fn is_default_mode(m: ChannelSelectionMode) -> bool {
    match m {
        ChannelSelectionMode::HopAll { channels, dwell_ms, ht_mode, channel_ht_modes } => {
            &&& channels@ == seq![1u16, 6u16, 11u16]
            &&& dwell_ms == DEFAULT_HOP_DWELL_MS
            &&& ht_mode@ == "HT20"@
            &&& channel_ht_modes@.len() == 0
        },
        _ => false,
    }
}

pub fn default_channel_mode() -> (r: ChannelSelectionMode)
    ensures
        is_default_mode(r),
{
    let mut channels: Vec<u16> = Vec::new();
    channels.push(1);
    channels.push(6);
    channels.push(11);
    assert(channels@ =~= seq![1u16, 6u16, 11u16]);
    ChannelSelectionMode::HopAll {
        channels,
        dwell_ms: DEFAULT_HOP_DWELL_MS,
        ht_mode: String::from_str("HT20"),
        channel_ht_modes: Vec::new(),
    }
}

/// Capture settings of one Wi-Fi interface.
#[derive(Debug, Clone)]
pub struct InterfaceSettings {
    pub interface_name: String,
    pub monitor_interface_name: Option<String>,
    pub channel_mode: ChannelSelectionMode,
    pub enabled: bool,
}

/// Kind of device a watchlist entry matches.
#[derive(Debug, Clone, Copy, PartialEq, Eq, Structural)]
pub enum WatchlistDeviceType {
    Wifi,
    Bluetooth,
}

/// One watched device or network.
#[derive(Debug, Clone)]
pub struct WatchlistEntry {
    pub label: String,
    pub device_type: WatchlistDeviceType,
    pub mac: String,
    pub name: String,
    pub color_hex: String,
}

/// Watchlist entries, plus the plain network and device lists of older settings files.
#[derive(Debug, Clone)]
pub struct WatchlistSettings {
    pub entries: Vec<WatchlistEntry>,
    pub networks: Vec<String>,
    pub devices: Vec<String>,
}

/// The settings the scanning logic reads and changes.
#[derive(Debug, Clone)]
pub struct AppSettings {
    pub interfaces: Vec<InterfaceSettings>,
    pub bluetooth_enabled: bool,
    pub bluetooth_controller: Option<String>,
    pub wifi_export_enabled: bool,
    pub wifi_export_dir: String,
    pub bluetooth_export_enabled: bool,
    pub bluetooth_export_dir: String,
    pub watchlists: WatchlistSettings,
}

/// Index of the first enabled interface.
pub open spec fn first_enabled(ifaces: Seq<InterfaceSettings>) -> Option<int>
    decreases ifaces.len(),
{
    if ifaces.len() == 0 {
        None
    } else if ifaces[0].enabled {
        Some(0)
    } else {
        match first_enabled(ifaces.drop_first()) {
            Some(i) => Some(i + 1),
            None => None,
        }
    }
}

pub proof fn lemma_first_enabled(ifaces: Seq<InterfaceSettings>)
    ensures
        match first_enabled(ifaces) {
            Some(i) => 0 <= i < ifaces.len() && ifaces[i].enabled && forall|j: int|
                0 <= j < i ==> !(#[trigger] ifaces[j]).enabled,
            None => forall|j: int| 0 <= j < ifaces.len() ==> !(#[trigger] ifaces[j]).enabled,
        },
    decreases ifaces.len(),
{
    if ifaces.len() > 0 && !ifaces[0].enabled {
        lemma_first_enabled(ifaces.drop_first());
        match first_enabled(ifaces.drop_first()) {
            Some(i) => {
                assert forall|j: int| 0 <= j < i + 1 implies !(#[trigger] ifaces[j]).enabled by {
                    if j > 0 {
                        assert(ifaces[j] == ifaces.drop_first()[j - 1]);
                    }
                }
            },
            None => {
                assert forall|j: int| 0 <= j < ifaces.len() implies !(
                #[trigger] ifaces[j]).enabled by {
                    if j > 0 {
                        assert(ifaces[j] == ifaces.drop_first()[j - 1]);
                    }
                }
            },
        }
    }
}

/// Finds the first enabled interface.
pub fn find_enabled(ifaces: &[InterfaceSettings]) -> (r: Option<usize>)
    ensures
        match r {
            Some(i) => first_enabled(ifaces@) == Some(i as int),
            None => first_enabled(ifaces@) is None,
        },
{
    proof {
        lemma_first_enabled(ifaces@);
    }
    let mut i: usize = 0;
    while i < ifaces.len()
        invariant
            i <= ifaces@.len(),
            forall|j: int| 0 <= j < i ==> !(#[trigger] ifaces@[j]).enabled,
        decreases ifaces@.len() - i,
    {
        if ifaces[i].enabled {
            proof {
                lemma_first_enabled(ifaces@);
                match first_enabled(ifaces@) {
                    Some(k) => {
                        if k < i {
                        } else if k > i {
                            assert(!ifaces@[i as int].enabled);
                        }
                    },
                    None => {},
                }
            }
            return Some(i);
        }
        i = i + 1;
    }
    proof {
        lemma_first_enabled(ifaces@);
        match first_enabled(ifaces@) {
            Some(k) => {
                assert(!ifaces@[k].enabled);
            },
            None => {},
        }
    }
    None
}

/// Some interface is enabled.
pub open spec fn any_enabled(ifaces: Seq<InterfaceSettings>) -> bool {
    exists|i: int| 0 <= i < ifaces.len() && (#[trigger] ifaces[i]).enabled
}

pub fn wifi_enabled(ifaces: &[InterfaceSettings]) -> (r: bool)
    ensures
        r == any_enabled(ifaces@),
{
    proof {
        lemma_first_enabled(ifaces@);
    }
    find_enabled(ifaces).is_some()
}


/// What a channel selection mode holds, as plain values.
pub ghost enum ChannelModeView {
    Locked { channel: u16, ht_mode: Seq<char> },
    HopAll {
        channels: Seq<u16>,
        dwell_ms: u64,
        ht_mode: Seq<char>,
        channel_ht_modes: Seq<(u16, Seq<Seq<char>>)>,
    },
    HopBand { band: SpectrumBand, channels: Seq<u16>, dwell_ms: u64 },
}

impl View for ChannelSelectionMode {
    type V = ChannelModeView;

    open spec fn view(&self) -> ChannelModeView {
        match self {
            ChannelSelectionMode::Locked { channel, ht_mode } => ChannelModeView::Locked {
                channel: *channel,
                ht_mode: ht_mode@,
            },
            ChannelSelectionMode::HopAll { channels, dwell_ms, ht_mode, channel_ht_modes } =>
                ChannelModeView::HopAll {
                channels: channels@,
                dwell_ms: *dwell_ms,
                ht_mode: ht_mode@,
                channel_ht_modes: table_view(channel_ht_modes@),
            },
            ChannelSelectionMode::HopBand { band, channels, dwell_ms } => ChannelModeView::HopBand {
                band: *band,
                channels: channels@,
                dwell_ms: *dwell_ms,
            },
        }
    }
}

/// What an interface's settings hold, as plain values.
pub ghost struct InterfaceView {
    pub interface_name: Seq<char>,
    pub monitor_interface_name: Option<Seq<char>>,
    pub channel_mode: ChannelModeView,
    pub enabled: bool,
}

impl View for InterfaceSettings {
    type V = InterfaceView;

    open spec fn view(&self) -> InterfaceView {
        InterfaceView {
            interface_name: self.interface_name@,
            monitor_interface_name: match self.monitor_interface_name {
                Some(m) => Some(m@),
                None => None,
            },
            channel_mode: self.channel_mode@,
            enabled: self.enabled,
        }
    }
}

pub open spec fn ifaces_view(v: Seq<InterfaceSettings>) -> Seq<InterfaceView> {
    v.map_values(|i: InterfaceSettings| i@)
}

/// A copy of a channel-mode table.
pub fn copy_mode_table(t: &Vec<ChannelModes>) -> (r: Vec<ChannelModes>)
    ensures
        table_view(r@) == table_view(t@),
{
    let mut r: Vec<ChannelModes> = Vec::new();
    let mut i: usize = 0;
    while i < t.len()
        invariant
            i <= t@.len(),
            table_view(r@) == table_view(t@).subrange(0, i as int),
        decreases t@.len() - i,
    {
        let m = t[i].modes.clone();
        assert(m@ =~= t@[i as int].modes@);
        let e = ChannelModes { channel: t[i].channel, modes: m };
        let ghost old_r = r@;
        assert(table_view(old_r).len() == old_r.len());
        r.push(e);
        assert(r@ == old_r.push(e));
        i = i + 1;
        assert forall|k: int| 0 <= k < i implies #[trigger] table_view(r@)[k] == table_view(
            t@,
        ).subrange(0, i as int)[k] by {
            if k < i - 1 {
                assert(r@[k] == old_r[k]);
                assert(table_view(old_r)[k] == table_view(t@).subrange(0, i - 1)[k]);
            }
        }
        assert(table_view(r@) =~= table_view(t@).subrange(0, i as int));
    }
    assert(table_view(t@).subrange(0, t@.len() as int) =~= table_view(t@));
    r
}

/// A copy of a channel selection mode.
pub fn copy_mode(m: &ChannelSelectionMode) -> (r: ChannelSelectionMode)
    ensures
        r@ == m@,
{
    match m {
        ChannelSelectionMode::Locked { channel, ht_mode } => ChannelSelectionMode::Locked {
            channel: *channel,
            ht_mode: ht_mode.clone(),
        },
        ChannelSelectionMode::HopAll { channels, dwell_ms, ht_mode, channel_ht_modes } => {
            let c = channels.clone();
            assert(c@ =~= channels@);
            ChannelSelectionMode::HopAll {
                channels: c,
                dwell_ms: *dwell_ms,
                ht_mode: ht_mode.clone(),
                channel_ht_modes: copy_mode_table(channel_ht_modes),
            }
        },
        ChannelSelectionMode::HopBand { band, channels, dwell_ms } => {
            let c = channels.clone();
            assert(c@ =~= channels@);
            ChannelSelectionMode::HopBand { band: *band, channels: c, dwell_ms: *dwell_ms }
        },
    }
}

pub open spec fn opt_mode_view(o: Option<ChannelSelectionMode>) -> Option<ChannelModeView> {
    match o {
        Some(m) => Some(m@),
        None => None,
    }
}

/// One interface after choosing `name`.
pub open spec fn choose_one(
    i: InterfaceView,
    name: Seq<char>,
    enabled: bool,
    mode: Option<ChannelModeView>,
) -> InterfaceView {
    if i.interface_name == name {
        InterfaceView {
            enabled,
            channel_mode: match mode {
                Some(m) => m,
                None => i.channel_mode,
            },
            ..i
        }
    } else {
        InterfaceView { enabled: false, ..i }
    }
}

/// Interfaces after choosing `name` for capture: the matching interfaces take
/// `enabled` (and `mode` when one is given), every other interface is disabled,
/// and a missing interface is appended with `new_mode`.
pub open spec fn choose_interface(
    old: Seq<InterfaceView>,
    name: Seq<char>,
    enabled: bool,
    mode: Option<ChannelModeView>,
    new_mode: ChannelModeView,
) -> Seq<InterfaceView> {
    let upd = old.map_values(|i: InterfaceView| choose_one(i, name, enabled, mode));
    if exists|k: int| 0 <= k < old.len() && (#[trigger] old[k]).interface_name == name {
        upd
    } else {
        upd.push(
            InterfaceView {
                interface_name: name,
                monitor_interface_name: None,
                channel_mode: new_mode,
                enabled,
            },
        )
    }
}

/// Enables interface `name` (creating it with `new_mode` if missing), applies
/// `mode` to it when given, and disables all others.
pub fn choose_interface_exec(
    ifaces: &mut Vec<InterfaceSettings>,
    name: &String,
    enabled: bool,
    mode: &Option<ChannelSelectionMode>,
    new_mode: ChannelSelectionMode,
)
    ensures
        ifaces_view(final(ifaces)@) == choose_interface(
            ifaces_view(old(ifaces)@),
            name@,
            enabled,
            opt_mode_view(*mode),
            new_mode@,
        ),
{
    let ghost old_v = ifaces_view(ifaces@);
    let ghost mv = opt_mode_view(*mode);
    let ghost upd = old_v.map_values(|i: InterfaceView| choose_one(i, name@, enabled, mv));
    let mut found = false;
    let mut i: usize = 0;
    let n = ifaces.len();
    while i < n
        invariant
            n == ifaces@.len(),
            n == old_v.len(),
            i <= n,
            old_v == ifaces_view(old(ifaces)@),
            mv == opt_mode_view(*mode),
            forall|k: int| 0 <= k < i ==> #[trigger] ifaces_view(ifaces@)[k] == choose_one(old_v[k], name@, enabled, mv),
            forall|k: int| i <= k < n ==> #[trigger] ifaces_view(ifaces@)[k] == old_v[k],
            found == exists|k: int| 0 <= k < i && (#[trigger] old_v[k]).interface_name == name@,
        decreases n - i,
    {
        let ghost pre_seq = ifaces@;
        assert(ifaces_view(pre_seq)[i as int] == old_v[i as int]);
        let is_match = crate::text::str_eq(ifaces[i].interface_name.as_str(), name.as_str());
        assert(is_match == (old_v[i as int].interface_name == name@));
        let mut cur = ifaces[i].clone_settings();
        if is_match {
            cur.enabled = enabled;
            match mode {
                Some(m) => {
                    cur.channel_mode = copy_mode(m);
                },
                None => {},
            }
            found = true;
        } else {
            cur.enabled = false;
        }
        assert(cur@ == choose_one(old_v[i as int], name@, enabled, mv));
        ifaces.set(i, cur);
        assert(ifaces@ == pre_seq.update(i as int, cur));
        assert forall|k: int| 0 <= k < n implies #[trigger] ifaces_view(ifaces@)[k] == (if k
            < i + 1 {
            choose_one(old_v[k], name@, enabled, mv)
        } else {
            old_v[k]
        }) by {
            if k != i {
                assert(ifaces@[k] == pre_seq[k]);
                assert(ifaces_view(ifaces@)[k] == ifaces_view(pre_seq)[k]);
            }
        }
        i = i + 1;
    }
    assert(ifaces_view(ifaces@) =~= upd);
    if !found {
        let ghost nm = new_mode@;
        ifaces.push(
            InterfaceSettings {
                interface_name: name.clone(),
                monitor_interface_name: None,
                channel_mode: new_mode,
                enabled,
            },
        );
        assert(ifaces_view(ifaces@) =~= upd.push(
            InterfaceView {
                interface_name: name@,
                monitor_interface_name: None,
                channel_mode: nm,
                enabled,
            },
        ));
    }
}

impl InterfaceSettings {
    /// A copy of these settings.
    pub fn clone_settings(&self) -> (r: InterfaceSettings)
        ensures
            r@ == self@,
    {
        InterfaceSettings {
            interface_name: self.interface_name.clone(),
            monitor_interface_name: match &self.monitor_interface_name {
                Some(m) => Some(m.clone()),
                None => None,
            },
            channel_mode: copy_mode(&self.channel_mode),
            enabled: self.enabled,
        }
    }
}

} // verus!
