//! When a device table is redrawn: a change marks it pending; a pending
//! table on the visible tab is looked at again at most every
//! `MIN_LIST_REFRESH_INTERVAL_MS`, and redrawn only when its signature
//! changed.

use vstd::prelude::*;
use crate::text::str_eq;

verus! {

/// Least time between two looks at the same table.
pub const MIN_LIST_REFRESH_INTERVAL_MS: u64 = 140;

/// The refresh state of one table. Times are milliseconds of a monotonic
/// clock.
pub struct TableRefresh {
    pub pending: bool,
    pub last_refresh_at: Option<u64>,
    pub last_signature: Option<String>,
    /// The pagination generation last seen.
    pub generation: u64,
}

/// The refresh state as plain values.
pub type RefreshView = (bool, Option<u64>, Option<Seq<char>>, u64);

pub open spec fn refresh_view(t: TableRefresh) -> RefreshView {
    (
        t.pending,
        t.last_refresh_at,
        match t.last_signature {
            Some(s) => Some(s@),
            None => None,
        },
        t.generation,
    )
}

/// A change of the table's rows was reported: it is pending.
pub fn mark_pending(t: &mut TableRefresh, changed: bool)
    ensures
        refresh_view(*final(t)) == (
            old(t).pending || changed,
            old(t).last_refresh_at,
            refresh_view(*old(t)).2,
            old(t).generation,
        ),
{
    if changed {
        t.pending = true;
    }
}

/// The layout changed, or the pagination moved on to `generation`: the
/// table must be drawn anew whatever its signature.
pub fn invalidate(t: &mut TableRefresh)
    ensures
        refresh_view(*final(t)) == (true, old(t).last_refresh_at, None::<Seq<char>>, old(t).generation),
{
    t.last_signature = None;
    t.pending = true;
}

/// Notes the pagination generation; a new one invalidates the table.
pub fn note_generation(t: &mut TableRefresh, generation: u64)
    ensures
        refresh_view(*final(t)) == if generation != old(t).generation {
            (true, old(t).last_refresh_at, None::<Seq<char>>, generation)
        } else {
            refresh_view(*old(t))
        },
{
    if t.generation != generation {
        t.generation = generation;
        t.last_signature = None;
        t.pending = true;
    }
}

/// A table is looked at when its tab is shown, it is pending, and it was
/// not looked at within the interval.
pub open spec fn due(v: RefreshView, tab_active: bool, now: u64) -> bool {
    tab_active && v.0 && match v.1 {
        Some(last) => (if now >= last {
            now - last
        } else {
            0
        }) >= MIN_LIST_REFRESH_INTERVAL_MS,
        None => true,
    }
}

pub fn refresh_due(t: &TableRefresh, tab_active: bool, now: u64) -> (r: bool)
    ensures
        r == due(refresh_view(*t), tab_active, now),
{
    if !tab_active || !t.pending {
        return false;
    }
    match t.last_refresh_at {
        Some(last) => now.saturating_sub(last) >= MIN_LIST_REFRESH_INTERVAL_MS,
        None => true,
    }
}

/// The table was looked at, at `now`, with signature `signature`: whether
/// it is to be redrawn (its signature changed); it is no longer pending.
pub open spec fn looked_at(v: RefreshView, signature: Seq<char>, now: u64) -> (RefreshView, bool) {
    let changed = v.2 != Some(signature);
    ((false, Some(now), if changed {
        Some(signature)
    } else {
        v.2
    }, v.3), changed)
}

pub fn finish_refresh(t: &mut TableRefresh, signature: String, now: u64) -> (redraw: bool)
    ensures
        (refresh_view(*final(t)), redraw) == looked_at(refresh_view(*old(t)), signature@, now),
{
    let changed = match &t.last_signature {
        Some(s) => !str_eq(s.as_str(), signature.as_str()),
        None => true,
    };
    if changed {
        t.last_signature = Some(signature);
    }
    t.last_refresh_at = Some(now);
    t.pending = false;
    changed
}

/// After a table was looked at, it is not looked at again within the
/// interval, whatever is reported meanwhile.
pub proof fn lemma_refresh_spacing(v: RefreshView, signature: Seq<char>, now: u64, later: u64, tab_active: bool)
    requires
        now <= later < now + MIN_LIST_REFRESH_INTERVAL_MS,
    ensures
        ({
            let after = looked_at(v, signature, now).0;
            !due(after, tab_active, later) && !due((true, after.1, after.2, after.3), tab_active, later)
        }),
{
}

/// Looking at a table twice with the same signature redraws it at most
/// once.
pub proof fn lemma_same_signature_redraws_once(v: RefreshView, signature: Seq<char>, now: u64, later: u64)
    ensures
        !looked_at(looked_at(v, signature, now).0, signature, later).1,
{
}

} // verus!
