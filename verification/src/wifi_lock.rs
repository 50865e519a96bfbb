//! Locking the Wi-Fi card to one access point's channel, and unlocking it:
//! the first interface's channel mode is replaced and the mode it had is
//! kept, so that unlocking puts it back.

use vstd::prelude::*;
use crate::settings::{ChannelSelectionMode, ChannelModeView, InterfaceSettings, InterfaceView, ifaces_view, copy_mode};
use crate::text::{decimal, push_str, push_decimal, string_from_chars};

verus! {

/// The lock on the Wi-Fi card: the channel mode to restore on unlock, and
/// what the card is locked to.
pub struct WifiLock {
    pub restore_mode: Option<ChannelSelectionMode>,
    pub locked_target: Option<String>,
}

pub ghost struct WifiLockView {
    pub restore_mode: Option<ChannelModeView>,
    pub locked_target: Option<Seq<char>>,
}

impl View for WifiLock {
    type V = WifiLockView;

    open spec fn view(&self) -> WifiLockView {
        WifiLockView {
            restore_mode: match self.restore_mode {
                Some(m) => Some(m@),
                None => None,
            },
            locked_target: match self.locked_target {
                Some(t) => Some(t@),
                None => None,
            },
        }
    }
}

/// What follows a lock or unlock request: it is refused with a status line,
/// or the scans restart, announcing the change.
pub enum LockAction {
    Refused(String),
    Restart(String),
}

pub ghost enum LockActionView {
    Refused(Seq<char>),
    Restart(Seq<char>),
}

impl View for LockAction {
    type V = LockActionView;

    open spec fn view(&self) -> LockActionView {
        match self {
            LockAction::Refused(s) => LockActionView::Refused(s@),
            LockAction::Restart(s) => LockActionView::Restart(s@),
        }
    }
}

/// The name an interface captures under: its monitor interface, else itself.
pub open spec fn capture_name(i: InterfaceView) -> Seq<char> {
    match i.monitor_interface_name {
        Some(m) => m,
        None => i.interface_name,
    }
}

/// The interface with another channel mode.
pub open spec fn with_mode(i: InterfaceView, m: ChannelModeView) -> InterfaceView {
    InterfaceView { channel_mode: m, ..i }
}

/// Locking to `channel` with `ht_mode` for `target`: the interfaces, the
/// lock and the action that follow.
pub open spec fn lock_next(
    ifs: Seq<InterfaceView>,
    lock: WifiLockView,
    channel: u16,
    ht_mode: Seq<char>,
    target: Seq<char>,
) -> (Seq<InterfaceView>, WifiLockView, LockActionView) {
    if ifs.len() == 0 {
        (ifs, lock, LockActionView::Refused("no Wi-Fi interface configured for AP lock"@))
    } else {
        let first = ifs[0];
        (
            ifs.update(0, with_mode(first, ChannelModeView::Locked { channel, ht_mode })),
            WifiLockView {
                restore_mode: match lock.restore_mode {
                    Some(m) => Some(m),
                    None => Some(first.channel_mode),
                },
                locked_target: Some(target),
            },
            LockActionView::Restart(
                "applying AP lock on "@ + capture_name(first) + " channel "@ + decimal(
                    channel as nat,
                ) + " ("@ + ht_mode + ") for "@ + target,
            ),
        )
    }
}

/// Unlocking: the interfaces, the lock and the action that follow.
pub open spec fn unlock_next(ifs: Seq<InterfaceView>, lock: WifiLockView) -> (
    Seq<InterfaceView>,
    WifiLockView,
    LockActionView,
) {
    match lock.restore_mode {
        None => (ifs, lock, LockActionView::Refused("Wi-Fi card is not locked to an AP"@)),
        Some(m) => if ifs.len() == 0 {
            (
                ifs,
                WifiLockView { restore_mode: None, ..lock },
                LockActionView::Refused("no Wi-Fi interface configured to unlock"@),
            )
        } else {
            (
                ifs.update(0, with_mode(ifs[0], m)),
                WifiLockView { restore_mode: None, locked_target: None },
                LockActionView::Restart(
                    "unlocking "@ + capture_name(ifs[0]) + match lock.locked_target {
                        Some(t) => " from "@ + t,
                        None => Seq::empty(),
                    },
                ),
            )
        },
    }
}

fn push_capture_name(out: &mut Vec<char>, iface: &InterfaceSettings)
    ensures
        final(out)@ == old(out)@ + capture_name(iface@),
{
    match &iface.monitor_interface_name {
        Some(m) => push_str(out, m.as_str()),
        None => push_str(out, iface.interface_name.as_str()),
    }
}

/// Locks the first interface to `channel` with `ht_mode` for `target`,
/// keeping the mode it had unless one is already kept.
pub fn lock_wifi_to_channel(
    interfaces: &mut Vec<InterfaceSettings>,
    lock: &mut WifiLock,
    channel: u16,
    ht_mode: &str,
    target: String,
) -> (action: LockAction)
    ensures
        (ifaces_view(final(interfaces)@), final(lock)@, action@) == lock_next(
            ifaces_view(old(interfaces)@),
            old(lock)@,
            channel,
            ht_mode@,
            target@,
        ),
{
    if interfaces.len() == 0 {
        proof {
            reveal_strlit("no Wi-Fi interface configured for AP lock");
        }
        return LockAction::Refused(String::from_str("no Wi-Fi interface configured for AP lock"));
    }
    let ghost ifs = ifaces_view(interfaces@);
    let mut iface = interfaces.remove(0);
    assert(iface@ == ifs[0]);
    if lock.restore_mode.is_none() {
        lock.restore_mode = Some(copy_mode(&iface.channel_mode));
    }
    iface.channel_mode = ChannelSelectionMode::Locked { channel, ht_mode: ht_mode.to_string() };
    let mut msg: Vec<char> = Vec::new();
    push_str(&mut msg, "applying AP lock on ");
    push_capture_name(&mut msg, &iface);
    push_str(&mut msg, " channel ");
    push_decimal(&mut msg, channel as u64);
    push_str(&mut msg, " (");
    push_str(&mut msg, ht_mode);
    push_str(&mut msg, ") for ");
    push_str(&mut msg, target.as_str());
    lock.locked_target = Some(target);
    let ghost rest = interfaces@;
    interfaces.insert(0, iface);
    assert(ifaces_view(interfaces@) =~= ifs.update(
        0,
        with_mode(ifs[0], ChannelModeView::Locked { channel, ht_mode: ht_mode@ }),
    )) by {
        assert(interfaces@ == rest.insert(0, iface));
        assert forall|k: int| 1 <= k < ifs.len() implies ifaces_view(interfaces@)[k] == ifs[k] by {
            assert(interfaces@[k] == rest[k - 1]);
            assert(rest[k - 1] == old(interfaces)@[k]);
        }
    }
    let text = string_from_chars(msg.as_slice());
    LockAction::Restart(text)
}

/// Unlocks the card: the first interface gets back the mode kept when it
/// was locked.
pub fn unlock_wifi_card(interfaces: &mut Vec<InterfaceSettings>, lock: &mut WifiLock) -> (action: LockAction)
    ensures
        (ifaces_view(final(interfaces)@), final(lock)@, action@) == unlock_next(
            ifaces_view(old(interfaces)@),
            old(lock)@,
        ),
{
    let restore = match lock.restore_mode.take() {
        Some(m) => m,
        None => {
            proof {
                reveal_strlit("Wi-Fi card is not locked to an AP");
            }
            return LockAction::Refused(String::from_str("Wi-Fi card is not locked to an AP"));
        },
    };
    if interfaces.len() == 0 {
        proof {
            reveal_strlit("no Wi-Fi interface configured to unlock");
        }
        return LockAction::Refused(String::from_str("no Wi-Fi interface configured to unlock"));
    }
    let ghost ifs = ifaces_view(interfaces@);
    let mut iface = interfaces.remove(0);
    assert(iface@ == ifs[0]);
    iface.channel_mode = restore;
    let ghost old_target = lock@.locked_target;
    let mut msg: Vec<char> = Vec::new();
    push_str(&mut msg, "unlocking ");
    push_capture_name(&mut msg, &iface);
    let ghost head = msg@;
    match lock.locked_target.take() {
        Some(t) => {
            push_str(&mut msg, " from ");
            push_str(&mut msg, t.as_str());
            assert(msg@ =~= head + (" from "@ + t@));
        },
        None => {
            assert(msg@ =~= head + Seq::<char>::empty());
        },
    }
    assert(msg@ == "unlocking "@ + capture_name(ifs[0]) + match old_target {
        Some(t) => " from "@ + t,
        None => Seq::empty(),
    });
    let ghost rest = interfaces@;
    interfaces.insert(0, iface);
    assert(ifaces_view(interfaces@) =~= ifs.update(0, with_mode(ifs[0], restore@))) by {
        assert(interfaces@ == rest.insert(0, iface));
        assert forall|k: int| 1 <= k < ifs.len() implies ifaces_view(interfaces@)[k] == ifs[k] by {
            assert(interfaces@[k] == rest[k - 1]);
            assert(rest[k - 1] == old(interfaces)@[k]);
        }
    }
    let text = string_from_chars(msg.as_slice());
    LockAction::Restart(text)
}

/// Unlocking after a lock gives the first interface back the mode it had
/// before it was first locked, and clears the lock; with nothing kept
/// before, the interfaces are as they were.
pub proof fn lemma_unlock_undoes_lock(
    ifs: Seq<InterfaceView>,
    lock: WifiLockView,
    channel: u16,
    ht_mode: Seq<char>,
    target: Seq<char>,
)
    requires
        ifs.len() > 0,
    ensures
        ({
            let after_lock = lock_next(ifs, lock, channel, ht_mode, target);
            let after_unlock = unlock_next(after_lock.0, after_lock.1);
            &&& after_unlock.1 == WifiLockView { restore_mode: None, locked_target: None }
            &&& after_unlock.0 == ifs.update(
                0,
                with_mode(
                    ifs[0],
                    match lock.restore_mode {
                        Some(m) => m,
                        None => ifs[0].channel_mode,
                    },
                ),
            )
            &&& lock.restore_mode is None ==> after_unlock.0 == ifs
        }),
{
    let after_lock = lock_next(ifs, lock, channel, ht_mode, target);
    let after_unlock = unlock_next(after_lock.0, after_lock.1);
    assert(after_unlock.0 =~= ifs.update(
        0,
        with_mode(
            ifs[0],
            match lock.restore_mode {
                Some(m) => m,
                None => ifs[0].channel_mode,
            },
        ),
    ));
    if lock.restore_mode is None {
        assert(with_mode(ifs[0], ifs[0].channel_mode) == ifs[0]);
        assert(after_unlock.0 =~= ifs);
    }
}

} // verus!
