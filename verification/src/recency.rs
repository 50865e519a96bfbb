//! Ordering of records newest first: a stable insertion sort on a recency key
//! (a time, then a count that breaks ties), with the proof that its output is
//! ordered and holds exactly the input's items.

use vstd::prelude::*;
use vstd::seq_lib::{to_multiset_insert, to_multiset_build};

verus! {

/// Items that carry a recency key: newer items have a larger key, compared
/// on the first component, then on the second.
pub trait Recency: Sized {
    spec fn recency(&self) -> (int, int);

    fn recency_key(&self) -> (r: (i64, u64))
        ensures
            r.0 as int == self.recency().0,
            r.1 as int == self.recency().1,
    ;
}

/// Key `a` is strictly newer than key `b`.
pub open spec fn newer(a: (int, int), b: (int, int)) -> bool {
    a.0 > b.0 || (a.0 == b.0 && a.1 > b.1)
}

/// Where `x` goes in `s`, looking from position `k`: before the first item
/// it is strictly newer than, else at the end.
pub open spec fn insert_pos_from<T: Recency>(s: Seq<T>, x: T, k: int) -> int
    decreases s.len() - k,
{
    if k < 0 || k >= s.len() {
        s.len() as int
    } else if newer(x.recency(), s[k].recency()) {
        k
    } else {
        insert_pos_from(s, x, k + 1)
    }
}

pub open spec fn insert_pos<T: Recency>(s: Seq<T>, x: T) -> int {
    insert_pos_from(s, x, 0)
}

/// `s` ordered newest first; items with equal keys keep their order.
pub open spec fn newest_first<T: Recency>(s: Seq<T>) -> Seq<T>
    decreases s.len(),
{
    if s.len() == 0 {
        s
    } else {
        let r = newest_first(s.drop_last());
        r.insert(insert_pos(r, s.last()), s.last())
    }
}

/// No item is strictly newer than one before it.
pub open spec fn is_newest_first<T: Recency>(s: Seq<T>) -> bool {
    forall|i: int, j: int| 0 <= i < j < s.len() ==> !newer(s[j].recency(), s[i].recency())
}

proof fn lemma_insert_pos_from<T: Recency>(s: Seq<T>, x: T, k: int)
    requires
        0 <= k <= s.len(),
    ensures
        k <= insert_pos_from(s, x, k) <= s.len(),
        forall|j: int| k <= j < insert_pos_from(s, x, k) ==> !newer(x.recency(), #[trigger] s[j].recency()),
        insert_pos_from(s, x, k) < s.len() ==> newer(x.recency(), s[insert_pos_from(s, x, k)].recency()),
    decreases s.len() - k,
{
    if k < s.len() && !newer(x.recency(), s[k].recency()) {
        lemma_insert_pos_from(s, x, k + 1);
    }
}

/// Inserting at `insert_pos` keeps a newest-first sequence newest first.
proof fn lemma_insert_keeps_order<T: Recency>(s: Seq<T>, x: T)
    requires
        is_newest_first(s),
    ensures
        is_newest_first(s.insert(insert_pos(s, x), x)),
{
    lemma_insert_pos_from(s, x, 0);
    let p = insert_pos(s, x);
    let r = s.insert(p, x);
    assert forall|i: int, j: int| 0 <= i < j < r.len() implies !newer(
        r[j].recency(),
        r[i].recency(),
    ) by {
        if j < p {
            assert(r[i] == s[i] && r[j] == s[j]);
        } else if j == p {
            assert(r[i] == s[i]);
            assert(!newer(x.recency(), s[i].recency()));
        } else if i == p {
            assert(r[j] == s[j - 1]);
            if p < s.len() {
                assert(newer(x.recency(), s[p].recency()));
                if j - 1 > p {
                    assert(!newer(s[j - 1].recency(), s[p].recency()));
                }
            }
        } else if i < p {
            assert(r[i] == s[i] && r[j] == s[j - 1]);
        } else {
            assert(r[i] == s[i - 1] && r[j] == s[j - 1]);
        }
    }
}

/// `newest_first` orders its input newest first.
pub proof fn lemma_newest_first_ordered<T: Recency>(s: Seq<T>)
    ensures
        is_newest_first(newest_first(s)),
    decreases s.len(),
{
    if s.len() > 0 {
        lemma_newest_first_ordered(s.drop_last());
        lemma_insert_keeps_order(newest_first(s.drop_last()), s.last());
    }
}

/// `newest_first` keeps every item, as often as it occurs.
pub proof fn lemma_newest_first_permutes<T: Recency>(s: Seq<T>)
    ensures
        newest_first(s).to_multiset() == s.to_multiset(),
        newest_first(s).len() == s.len(),
    decreases s.len(),
{
    broadcast use to_multiset_insert;
    if s.len() > 0 {
        lemma_newest_first_permutes(s.drop_last());
        let r = newest_first(s.drop_last());
        lemma_insert_pos_from(r, s.last(), 0);
        to_multiset_build(s.drop_last(), s.last());
        assert(s.drop_last().push(s.last()) =~= s);
    }
}

/// Orders `v` newest first (a stable sort on the recency key).
pub fn sort_newest_first<T: Recency>(v: Vec<T>) -> (r: Vec<T>)
    ensures
        r@ == newest_first(v@),
{
    let ghost orig = v@;
    let mut src = v;
    let mut out: Vec<T> = Vec::new();
    let n = src.len();
    let mut i: usize = 0;
    assert(orig.subrange(0, 0) =~= Seq::<T>::empty());
    assert(orig.subrange(0, n as int) =~= orig);
    while i < n
        invariant
            n == orig.len(),
            i <= n,
            src@ == orig.subrange(i as int, n as int),
            out@ == newest_first(orig.subrange(0, i as int)),
        decreases n - i,
    {
        let x = src.remove(0);
        assert(x == orig[i as int]);
        assert(src@ =~= orig.subrange(i + 1, n as int));
        let key = x.recency_key();
        let mut pos: usize = 0;
        while pos < out.len()
            invariant
                pos <= out@.len(),
                insert_pos_from(out@, x, pos as int) == insert_pos(out@, x),
                key.0 as int == x.recency().0,
                key.1 as int == x.recency().1,
            ensures
                pos <= out@.len(),
                insert_pos_from(out@, x, pos as int) == pos,
                insert_pos(out@, x) == pos,
            decreases out@.len() - pos,
        {
            let other = out[pos].recency_key();
            if key.0 > other.0 || (key.0 == other.0 && key.1 > other.1) {
                break;
            }
            pos = pos + 1;
        }
        proof {
            let pre = orig.subrange(0, i + 1);
            assert(pre.drop_last() =~= orig.subrange(0, i as int));
            assert(pre.last() == x);
        }
        out.insert(pos, x);
        i = i + 1;
    }
    out
}

} // verus!
