//! Sorted, duplicate-free collections: the result of `sort` followed by
//! `dedup` on channel numbers and on strings (ordered as `str` orders them,
//! code point by code point).

use vstd::prelude::*;
use crate::text::string_seqs;

verus! {

/// Strict lexicographic order on character sequences, comparing code points.
pub open spec fn lex_lt(a: Seq<char>, b: Seq<char>) -> bool
    decreases a.len(),
{
    if a.len() == 0 {
        b.len() > 0
    } else if b.len() == 0 {
        false
    } else if a[0] < b[0] {
        true
    } else if a[0] == b[0] {
        lex_lt(a.drop_first(), b.drop_first())
    } else {
        false
    }
}

pub proof fn lemma_lex_irreflexive(a: Seq<char>)
    ensures
        !lex_lt(a, a),
    decreases a.len(),
{
    if a.len() > 0 {
        lemma_lex_irreflexive(a.drop_first());
    }
}

pub proof fn lemma_lex_asymmetric(a: Seq<char>, b: Seq<char>)
    ensures
        !(lex_lt(a, b) && lex_lt(b, a)),
    decreases a.len(),
{
    if a.len() > 0 && b.len() > 0 && a[0] == b[0] {
        lemma_lex_asymmetric(a.drop_first(), b.drop_first());
    }
}

pub proof fn lemma_lex_total(a: Seq<char>, b: Seq<char>)
    ensures
        a == b || lex_lt(a, b) || lex_lt(b, a),
    decreases a.len(),
{
    if a.len() > 0 && b.len() > 0 && a[0] == b[0] {
        lemma_lex_total(a.drop_first(), b.drop_first());
        if a.drop_first() == b.drop_first() {
            assert(a =~= seq![a[0]] + a.drop_first());
            assert(b =~= seq![b[0]] + b.drop_first());
        }
    } else if a.len() == 0 && b.len() == 0 {
        assert(a =~= b);
    }
}

pub proof fn lemma_lex_transitive(a: Seq<char>, b: Seq<char>, c: Seq<char>)
    requires
        lex_lt(a, b),
        lex_lt(b, c),
    ensures
        lex_lt(a, c),
    decreases a.len(),
{
    if a.len() > 0 && b.len() > 0 && c.len() > 0 {
        if a[0] == b[0] && b[0] == c[0] {
            lemma_lex_transitive(a.drop_first(), b.drop_first(), c.drop_first());
        }
    }
}

/// Compares two character sequences: negative, zero or positive.
pub fn compare_chars(a: &[char], b: &[char]) -> (r: i8)
    ensures
        r < 0 <==> lex_lt(a@, b@),
        r == 0 <==> a@ == b@,
        r > 0 <==> lex_lt(b@, a@),
{
    let mut i: usize = 0;
    proof {
        lemma_lex_total(a@, b@);
        lemma_lex_asymmetric(a@, b@);
        lemma_lex_irreflexive(a@);
    }
    assert(a@.subrange(0, a@.len() as int) =~= a@);
    assert(b@.subrange(0, b@.len() as int) =~= b@);
    while i < a.len() && i < b.len()
        invariant
            i <= a@.len(),
            i <= b@.len(),
            a@.subrange(0, i as int) == b@.subrange(0, i as int),
            lex_lt(a@, b@) == lex_lt(
                a@.subrange(i as int, a@.len() as int),
                b@.subrange(i as int, b@.len() as int),
            ),
            lex_lt(b@, a@) == lex_lt(
                b@.subrange(i as int, b@.len() as int),
                a@.subrange(i as int, a@.len() as int),
            ),
        decreases a@.len() - i,
    {
        let x = a[i];
        let y = b[i];
        let ghost ra = a@.subrange(i as int, a@.len() as int);
        let ghost rb = b@.subrange(i as int, b@.len() as int);
        if x < y {
            assert(a@ != b@) by {
                assert(a@[i as int] != b@[i as int]);
            }
            return -1;
        }
        if x > y {
            assert(a@ != b@) by {
                assert(a@[i as int] != b@[i as int]);
            }
            return 1;
        }
        assert(a@[i as int] == b@[i as int]);
        assert(ra.drop_first() =~= a@.subrange(i + 1, a@.len() as int));
        assert(rb.drop_first() =~= b@.subrange(i + 1, b@.len() as int));
        assert(a@.subrange(0, i + 1) =~= a@.subrange(0, i as int).push(a@[i as int]));
        assert(b@.subrange(0, i + 1) =~= b@.subrange(0, i as int).push(b@[i as int]));
        i = i + 1;
    }
    if a.len() == b.len() {
        assert(a@ =~= b@) by {
            assert(a@ =~= a@.subrange(0, i as int));
            assert(b@ =~= b@.subrange(0, i as int));
        }
        0
    } else if i == a.len() {
        assert(a@.len() < b@.len());
        -1
    } else {
        1
    }
}

/// Every element is strictly below the next ones.
pub open spec fn strictly_sorted_text(s: Seq<Seq<char>>) -> bool {
    forall|i: int, j: int| 0 <= i < j < s.len() ==> lex_lt(#[trigger] s[i], #[trigger] s[j])
}

pub open spec fn strictly_sorted_u16(s: Seq<u16>) -> bool {
    forall|i: int, j: int| 0 <= i < j < s.len() ==> #[trigger] s[i] < #[trigger] s[j]
}

/// The character sequences held by a vector of character vectors.
pub open spec fn texts(v: Seq<Vec<char>>) -> Seq<Seq<char>> {
    v.map_values(|x: Vec<char>| x@)
}

/// Inserts `x` into the sorted, duplicate-free `v` unless it is already there.
pub fn insert_sorted_text(v: &mut Vec<Vec<char>>, x: Vec<char>)
    requires
        strictly_sorted_text(texts(old(v)@)),
    ensures
        strictly_sorted_text(texts(final(v)@)),
        texts(final(v)@).to_set() == texts(old(v)@).to_set().insert(x@),
{
    let n = v.len();
    let mut k: usize = 0;
    while k < n && compare_chars(v[k].as_slice(), x.as_slice()) < 0
        invariant
            k <= n,
            n == v@.len(),
            v@ == old(v)@,
            strictly_sorted_text(texts(v@)),
            forall|m: int| 0 <= m < k ==> lex_lt(#[trigger] texts(v@)[m], x@),
        decreases n - k,
    {
        k = k + 1;
    }
    let ghost s = texts(v@);
    if k < n && compare_chars(v[k].as_slice(), x.as_slice()) == 0 {
        assert(s.to_set() =~= s.to_set().insert(x@)) by {
            assert(s[k as int] == x@);
        }
        return;
    }
    proof {
        if k < n {
            lemma_lex_total(s[k as int], x@);
        }
    }
    let ghost xv = x@;
    v.insert(k, x);
    let ghost t = texts(v@);
    assert(t =~= s.insert(k as int, xv));
    assert(strictly_sorted_text(t)) by {
        assert forall|i: int, j: int| 0 <= i < j < t.len() implies lex_lt(
            #[trigger] t[i],
            #[trigger] t[j],
        ) by {
            if j < k {
                assert(t[i] == s[i] && t[j] == s[j]);
            } else if j == k {
                assert(t[i] == s[i]);
            } else if i == k {
                assert(t[j] == s[j - 1]);
                if j - 1 > k {
                    lemma_lex_transitive(xv, s[k as int], s[j - 1]);
                }
            } else if i < k {
                assert(t[i] == s[i] && t[j] == s[j - 1]);
            } else {
                assert(t[i] == s[i - 1] && t[j] == s[j - 1]);
            }
        }
    }
    assert(t.to_set() =~= s.to_set().insert(xv)) by {
        assert forall|y: Seq<char>| t.to_set().contains(y) implies s.to_set().insert(xv).contains(
            y,
        ) by {
            let i = choose|i: int| 0 <= i < t.len() && t[i] == y;
            if i < k {
                assert(s[i] == y);
            } else if i > k {
                assert(s[i - 1] == y);
            }
        }
        assert forall|y: Seq<char>| s.to_set().insert(xv).contains(y) implies t.to_set().contains(
            y,
        ) by {
            if y == xv {
                assert(t[k as int] == y);
            } else {
                let i = choose|i: int| 0 <= i < s.len() && s[i] == y;
                if i < k {
                    assert(t[i] == y);
                } else {
                    assert(t[i + 1] == y);
                }
            }
        }
    }
}

/// Inserts `x` into the sorted, duplicate-free `v` unless it is already there.
pub fn insert_sorted_u16(v: &mut Vec<u16>, x: u16)
    requires
        strictly_sorted_u16(old(v)@),
    ensures
        strictly_sorted_u16(final(v)@),
        final(v)@.to_set() == old(v)@.to_set().insert(x),
{
    let n = v.len();
    let mut k: usize = 0;
    while k < n && v[k] < x
        invariant
            k <= n,
            n == v@.len(),
            v@ == old(v)@,
            forall|m: int| 0 <= m < k ==> #[trigger] v@[m] < x,
        decreases n - k,
    {
        k = k + 1;
    }
    let ghost s = v@;
    if k < n && v[k] == x {
        assert(s.to_set() =~= s.to_set().insert(x)) by {
            assert(s[k as int] == x);
        }
        return;
    }
    v.insert(k, x);
    let ghost t = v@;
    assert(t =~= s.insert(k as int, x));
    assert(strictly_sorted_u16(t)) by {
        assert forall|i: int, j: int| 0 <= i < j < t.len() implies #[trigger] t[i] < #[trigger] t[j] by {
            if j < k {
                assert(t[i] == s[i] && t[j] == s[j]);
            } else if j == k {
                assert(t[i] == s[i]);
            } else if i == k {
                assert(t[j] == s[j - 1]);
            } else if i < k {
                assert(t[i] == s[i] && t[j] == s[j - 1]);
            } else {
                assert(t[i] == s[i - 1] && t[j] == s[j - 1]);
            }
        }
    }
    assert(t.to_set() =~= s.to_set().insert(x)) by {
        assert forall|y: u16| t.to_set().contains(y) implies s.to_set().insert(x).contains(y) by {
            let i = choose|i: int| 0 <= i < t.len() && t[i] == y;
            if i < k {
                assert(s[i] == y);
            } else if i > k {
                assert(s[i - 1] == y);
            }
        }
        assert forall|y: u16| s.to_set().insert(x).contains(y) implies t.to_set().contains(y) by {
            if y == x {
                assert(t[k as int] == y);
            } else {
                let i = choose|i: int| 0 <= i < s.len() && s[i] == y;
                if i < k {
                    assert(t[i] == y);
                } else {
                    assert(t[i + 1] == y);
                }
            }
        }
    }
}

/// The distinct values of `v` in increasing order (`sort_unstable` then `dedup`).
pub fn sorted_unique_u16(v: &[u16]) -> (r: Vec<u16>)
    ensures
        strictly_sorted_u16(r@),
        r@.to_set() == v@.to_set(),
{
    let mut r: Vec<u16> = Vec::new();
    let mut i: usize = 0;
    assert(r@.to_set() =~= v@.subrange(0, 0).to_set());
    while i < v.len()
        invariant
            i <= v@.len(),
            strictly_sorted_u16(r@),
            r@.to_set() == v@.subrange(0, i as int).to_set(),
        decreases v@.len() - i,
    {
        insert_sorted_u16(&mut r, v[i]);
        assert(v@.subrange(0, i + 1) =~= v@.subrange(0, i as int).push(v@[i as int]));
        proof {
            v@.subrange(0, i as int).lemma_push_to_set_commute(v@[i as int]);
        }
        i = i + 1;
    }
    assert(v@.subrange(0, v@.len() as int) =~= v@);
    r
}

/// Strings holding the character sequences of `v`, in order.
pub fn strings_from_texts(v: &Vec<Vec<char>>) -> (r: Vec<String>)
    ensures
        string_seqs(r@) == texts(v@),
{
    let mut r: Vec<String> = Vec::new();
    let mut i: usize = 0;
    while i < v.len()
        invariant
            i <= v@.len(),
            string_seqs(r@) == texts(v@).subrange(0, i as int),
        decreases v@.len() - i,
    {
        let s = crate::text::string_from_chars(v[i].as_slice());
        assert(s@ == texts(v@)[i as int]);
        let ghost old_r = r@;
        assert(string_seqs(old_r).len() == old_r.len());
        assert(old_r.len() == i);
        r.push(s);
        assert(r@ == old_r.push(s));
        i = i + 1;
        assert forall|k: int| 0 <= k < i implies #[trigger] string_seqs(r@)[k] == texts(
            v@,
        ).subrange(0, i as int)[k] by {
            if k < i - 1 {
                assert(r@[k] == old_r[k]);
                assert(string_seqs(old_r)[k] == texts(v@).subrange(0, i - 1)[k]);
            }
        }
        assert(string_seqs(r@) =~= texts(v@).subrange(0, i as int));
    }
    assert(texts(v@).subrange(0, v@.len() as int) =~= texts(v@));
    r
}

} // verus!
