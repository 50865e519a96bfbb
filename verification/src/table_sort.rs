//! Sorting the device tables by a column: each row gets a key for the sort
//! column (a number or a text), and rows are ordered by that key in the
//! chosen direction, then newest first, then by identifier. The sort is
//! stable, as the slice sort it stands for.

use vstd::prelude::*;
use vstd::seq_lib::{to_multiset_insert, to_multiset_build};
use crate::sorted::{
    lex_lt, lemma_lex_irreflexive, lemma_lex_asymmetric, lemma_lex_total, lemma_lex_transitive,
    compare_chars,
};

verus! {

/// The value a row is sorted by. Numbers come before texts (a column only
/// ever yields one kind); texts compare code point by code point.
pub enum SortKey {
    Number(i128),
    Text(Vec<char>),
}

/// A row's full sort key: the column value, the time it was last seen and
/// its identifier (BSSID or MAC address).
pub struct RowKey {
    pub key: SortKey,
    pub last_seen: i64,
    pub id: Vec<char>,
}

/// A key as a value: whether it is a text, the number, the text.
pub type KeyView = (bool, int, Seq<char>);

/// A row key as a value: the column key, when last seen, the identifier.
pub type RowView = (KeyView, int, Seq<char>);

impl View for SortKey {
    type V = KeyView;

    open spec fn view(&self) -> KeyView {
        match self {
            SortKey::Number(n) => number_key(*n as int),
            SortKey::Text(t) => text_key(t@),
        }
    }
}

impl View for RowKey {
    type V = RowView;

    open spec fn view(&self) -> RowView {
        (self.key@, self.last_seen as int, self.id@)
    }
}

pub open spec fn number_key(n: int) -> KeyView {
    (false, n, Seq::empty())
}

pub open spec fn text_key(t: Seq<char>) -> KeyView {
    (true, 0, t)
}

/// `a` and `b` are the same key.
pub open spec fn key_same(a: KeyView, b: KeyView) -> bool {
    a.0 == b.0 && if a.0 {
        a.2 == b.2
    } else {
        a.1 == b.1
    }
}

/// `a` is a strictly smaller key than `b`.
pub open spec fn key_lt(a: KeyView, b: KeyView) -> bool {
    if a.0 && b.0 {
        lex_lt(a.2, b.2)
    } else if !a.0 && !b.0 {
        a.1 < b.1
    } else {
        !a.0
    }
}

/// Row `a` comes strictly before row `b`: by the column key (reversed when
/// `descending`), then the more recently seen first, then by identifier.
pub open spec fn row_before(a: RowView, b: RowView, descending: bool) -> bool {
    ||| (if descending {
        key_lt(b.0, a.0)
    } else {
        key_lt(a.0, b.0)
    })
    ||| (key_same(a.0, b.0) && (a.1 > b.1 || (a.1 == b.1 && lex_lt(a.2, b.2))))
}

proof fn lemma_key_order(a: KeyView, b: KeyView, c: KeyView)
    ensures
        !key_lt(a, a),
        key_same(a, a),
        !(key_lt(a, b) && key_lt(b, a)),
        key_same(a, b) ==> !key_lt(a, b) && !key_lt(b, a) && key_same(b, a),
        key_same(a, b) || key_lt(a, b) || key_lt(b, a),
        key_lt(a, b) && key_lt(b, c) ==> key_lt(a, c),
        key_same(a, b) && key_lt(b, c) ==> key_lt(a, c),
        key_lt(a, b) && key_same(b, c) ==> key_lt(a, c),
        key_same(a, b) && key_same(b, c) ==> key_same(a, c),
{
    lemma_lex_irreflexive(a.2);
    lemma_lex_asymmetric(a.2, b.2);
    lemma_lex_total(a.2, b.2);
    if lex_lt(a.2, b.2) && lex_lt(b.2, c.2) {
        lemma_lex_transitive(a.2, b.2, c.2);
    }
}

/// `row_before` is a strict order: no row is before itself, two rows are
/// never each before the other, and it is transitive.
pub proof fn lemma_row_before_strict(a: RowView, b: RowView, c: RowView, descending: bool)
    ensures
        !row_before(a, a, descending),
        !(row_before(a, b, descending) && row_before(b, a, descending)),
        row_before(a, b, descending) && row_before(b, c, descending) ==> row_before(
            a,
            c,
            descending,
        ),
{
    lemma_key_order(a.0, b.0, c.0);
    lemma_key_order(b.0, a.0, c.0);
    lemma_key_order(c.0, b.0, a.0);
    lemma_key_order(b.0, c.0, a.0);
    lemma_key_order(a.0, c.0, b.0);
    lemma_key_order(c.0, a.0, b.0);
    lemma_lex_irreflexive(a.2);
    lemma_lex_asymmetric(a.2, b.2);
    if lex_lt(a.2, b.2) && lex_lt(b.2, c.2) {
        lemma_lex_transitive(a.2, b.2, c.2);
    }
}

/// Where row `x` goes in `s`, looking from position `k`: before the first
/// row it comes strictly before, else at the end.
pub open spec fn slot_from<T>(s: Seq<(RowView, T)>, x: RowView, descending: bool, k: int) -> int
    decreases s.len() - k,
{
    if k < 0 || k >= s.len() {
        s.len() as int
    } else if row_before(x, s[k].0, descending) {
        k
    } else {
        slot_from(s, x, descending, k + 1)
    }
}

/// `s` sorted by `row_before`; rows that neither precedes keep their order.
pub open spec fn stable_sorted<T>(s: Seq<(RowView, T)>, descending: bool) -> Seq<(RowView, T)>
    decreases s.len(),
{
    if s.len() == 0 {
        s
    } else {
        let r = stable_sorted(s.drop_last(), descending);
        let x = s.last();
        r.insert(slot_from(r, x.0, descending, 0), x)
    }
}

/// No row comes strictly before a row in front of it.
pub open spec fn in_order<T>(s: Seq<(RowView, T)>, descending: bool) -> bool {
    forall|i: int, j: int|
        0 <= i < j < s.len() ==> !row_before(#[trigger] s[j].0, #[trigger] s[i].0, descending)
}

proof fn lemma_slot_from<T>(s: Seq<(RowView, T)>, x: RowView, descending: bool, k: int)
    requires
        0 <= k <= s.len(),
    ensures
        k <= slot_from(s, x, descending, k) <= s.len(),
        forall|j: int|
            k <= j < slot_from(s, x, descending, k) ==> !row_before(x, #[trigger] s[j].0, descending),
        slot_from(s, x, descending, k) < s.len() ==> row_before(
            x,
            s[slot_from(s, x, descending, k)].0,
            descending,
        ),
    decreases s.len() - k,
{
    if k < s.len() && !row_before(x, s[k].0, descending) {
        lemma_slot_from(s, x, descending, k + 1);
    }
}

proof fn lemma_insert_keeps_order<T>(s: Seq<(RowView, T)>, x: (RowView, T), descending: bool)
    requires
        in_order(s, descending),
    ensures
        in_order(s.insert(slot_from(s, x.0, descending, 0), x), descending),
{
    lemma_slot_from(s, x.0, descending, 0);
    let p = slot_from(s, x.0, descending, 0);
    let r = s.insert(p, x);
    assert forall|i: int, j: int| 0 <= i < j < r.len() implies !row_before(
        r[j].0,
        r[i].0,
        descending,
    ) by {
        if j < p {
            assert(r[i] == s[i] && r[j] == s[j]);
        } else if j == p {
            assert(r[i] == s[i]);
            assert(!row_before(x.0, s[i].0, descending));
        } else if i == p {
            assert(r[j] == s[j - 1]);
            assert(p < s.len());
            assert(row_before(x.0, s[p].0, descending));
            lemma_row_before_strict(s[j - 1].0, x.0, s[p].0, descending);
            if j - 1 > p {
                assert(!row_before(s[j - 1].0, s[p].0, descending));
            }
        } else if i < p {
            assert(r[i] == s[i] && r[j] == s[j - 1]);
        } else {
            assert(r[i] == s[i - 1] && r[j] == s[j - 1]);
        }
    }
}

/// A stably sorted table is in order.
pub proof fn lemma_stable_sorted_in_order<T>(s: Seq<(RowView, T)>, descending: bool)
    ensures
        in_order(stable_sorted(s, descending), descending),
    decreases s.len(),
{
    if s.len() > 0 {
        lemma_stable_sorted_in_order(s.drop_last(), descending);
        lemma_insert_keeps_order(stable_sorted(s.drop_last(), descending), s.last(), descending);
    }
}

/// Sorting keeps every row, as often as it occurs.
pub proof fn lemma_stable_sorted_permutes<T>(s: Seq<(RowView, T)>, descending: bool)
    ensures
        stable_sorted(s, descending).to_multiset() == s.to_multiset(),
        stable_sorted(s, descending).len() == s.len(),
    decreases s.len(),
{
    broadcast use to_multiset_insert;

    if s.len() > 0 {
        lemma_stable_sorted_permutes(s.drop_last(), descending);
        let r = stable_sorted(s.drop_last(), descending);
        lemma_slot_from(r, s.last().0, descending, 0);
        to_multiset_build(s.drop_last(), s.last());
        assert(s.drop_last().push(s.last()) =~= s);
    }
}

/// Every row of a sorted table is a row of the table.
pub proof fn lemma_stable_sorted_rows_from_input<T>(s: Seq<(RowView, T)>, descending: bool)
    ensures
        forall|j: int|
            0 <= j < stable_sorted(s, descending).len() ==> s.contains(
                #[trigger] stable_sorted(s, descending)[j],
            ),
{
    broadcast use vstd::seq_lib::to_multiset_contains;

    lemma_stable_sorted_permutes(s, descending);
    let r = stable_sorted(s, descending);
    assert forall|j: int| 0 <= j < r.len() implies s.contains(#[trigger] r[j]) by {
        assert(r.contains(r[j]));
        assert(r.to_multiset().count(r[j]) > 0);
    }
}

/// Two rows with different identifiers are ordered one way or the other.
pub proof fn lemma_row_before_total(a: RowView, b: RowView, descending: bool)
    requires
        a.2 != b.2,
    ensures
        row_before(a, b, descending) || row_before(b, a, descending),
{
    lemma_key_order(a.0, b.0, b.0);
    lemma_lex_total(a.2, b.2);
}

/// Sorting a table without repeated rows repeats none.
pub proof fn lemma_stable_sorted_no_duplicates<T>(s: Seq<(RowView, T)>, descending: bool)
    requires
        s.no_duplicates(),
    ensures
        stable_sorted(s, descending).no_duplicates(),
{
    lemma_stable_sorted_permutes(s, descending);
    s.lemma_multiset_has_no_duplicates();
    stable_sorted(s, descending).lemma_multiset_has_no_duplicates_conv();
}

/// Compares two keys: negative, zero or positive.
fn compare_keys(a: &SortKey, b: &SortKey) -> (r: i8)
    ensures
        r < 0 <==> key_lt(a@, b@),
        r == 0 <==> key_same(a@, b@),
        r > 0 <==> key_lt(b@, a@),
{
    proof {
        lemma_key_order(a@, b@, b@);
        lemma_key_order(b@, a@, a@);
    }
    match (a, b) {
        (SortKey::Number(x), SortKey::Number(y)) => {
            if *x < *y {
                -1
            } else if *x == *y {
                0
            } else {
                1
            }
        },
        (SortKey::Text(s), SortKey::Text(t)) => compare_chars(s.as_slice(), t.as_slice()),
        (SortKey::Number(_), SortKey::Text(_)) => -1,
        (SortKey::Text(_), SortKey::Number(_)) => 1,
    }
}

/// Whether row `a` comes strictly before row `b`.
pub fn precedes(a: &RowKey, b: &RowKey, descending: bool) -> (r: bool)
    ensures
        r == row_before(a@, b@, descending),
{
    let c = compare_keys(&a.key, &b.key);
    if c != 0 {
        if descending {
            c > 0
        } else {
            c < 0
        }
    } else if a.last_seen != b.last_seen {
        a.last_seen > b.last_seen
    } else {
        compare_chars(a.id.as_slice(), b.id.as_slice()) < 0
    }
}

/// The rows with their keys taken as values.
pub open spec fn row_views<T>(s: Seq<(RowKey, T)>) -> Seq<(RowView, T)> {
    s.map_values(|p: (RowKey, T)| (p.0@, p.1))
}

/// Sorts keyed rows by `row_before`, keeping the order of rows that neither
/// precedes (an insertion sort).
pub fn sort_rows<T>(rows: Vec<(RowKey, T)>, descending: bool) -> (r: Vec<(RowKey, T)>)
    ensures
        row_views(r@) == stable_sorted(row_views(rows@), descending),
{
    let ghost orig = row_views(rows@);
    let mut src = rows;
    let mut out: Vec<(RowKey, T)> = Vec::new();
    let n = src.len();
    let mut i: usize = 0;
    assert(orig.subrange(0, 0) =~= Seq::<(RowView, T)>::empty());
    assert(row_views(out@) =~= Seq::<(RowView, T)>::empty());
    assert(orig.subrange(0, n as int) =~= orig);
    while i < n
        invariant
            n == orig.len(),
            i <= n,
            src@.len() == n - i,
            row_views(src@) == orig.subrange(i as int, n as int),
            row_views(out@) == stable_sorted(orig.subrange(0, i as int), descending),
        decreases n - i,
    {
        let ghost before = src@;
        let x = src.remove(0);
        assert(row_views(before)[0] == orig[i as int]);
        assert(before[0] == x);
        assert(src@ =~= before.drop_first());
        assert(row_views(src@) =~= orig.subrange(i + 1, n as int)) by {
            assert forall|k: int| 0 <= k < src@.len() implies row_views(src@)[k] == orig[i + 1 + k] by {
                assert(row_views(before)[k + 1] == orig.subrange(i as int, n as int)[k + 1]);
            }
        }
        let ghost xv = (x.0@, x.1);
        let ghost ov = row_views(out@);
        let mut pos: usize = 0;
        while pos < out.len()
            invariant
                pos <= out@.len(),
                ov == row_views(out@),
                ov.len() == out@.len(),
                slot_from(ov, x.0@, descending, pos as int) == slot_from(ov, x.0@, descending, 0),
            ensures
                pos <= out@.len(),
                slot_from(ov, x.0@, descending, pos as int) == pos,
                slot_from(ov, x.0@, descending, 0) == pos,
            decreases out@.len() - pos,
        {
            assert(ov[pos as int].0 == out@[pos as int].0@);
            if precedes(&x.0, &out[pos].0, descending) {
                break;
            }
            pos = pos + 1;
        }
        proof {
            let pre = orig.subrange(0, i + 1);
            assert(pre.drop_last() =~= orig.subrange(0, i as int));
            assert(pre.last() == xv);
        }
        out.insert(pos, x);
        assert(row_views(out@) =~= ov.insert(pos as int, xv));
        i = i + 1;
    }
    out
}

/// The items of keyed rows, in their order.
pub open spec fn row_items<T>(s: Seq<(RowView, T)>) -> Seq<T> {
    s.map_values(|p: (RowView, T)| p.1)
}

/// The items of `rows`, without their keys.
pub fn unzip_rows<T>(rows: Vec<(RowKey, T)>) -> (r: Vec<T>)
    ensures
        r@ == row_items(row_views(rows@)),
{
    let ghost orig = rows@;
    let mut src = rows;
    let mut out: Vec<T> = Vec::new();
    let n = src.len();
    let mut i: usize = 0;
    while i < n
        invariant
            n == orig.len(),
            i <= n,
            src@ == orig.subrange(i as int, n as int),
            out@ == orig.subrange(0, i as int).map_values(|p: (RowKey, T)| p.1),
        decreases n - i,
    {
        let (_key, item) = src.remove(0);
        assert(src@ =~= orig.subrange(i + 1, n as int));
        out.push(item);
        i = i + 1;
        assert(out@ =~= orig.subrange(0, i as int).map_values(|p: (RowKey, T)| p.1));
    }
    assert(out@ =~= row_items(row_views(orig)));
    out
}

} // verus!
