//! Lexicographic order on strings, and sorting by it.
use vstd::prelude::*;
use crate::util::strs::chars_of;
use crate::util::maps::StrSet;

verus! {

/// `a < b` in the order of `str::cmp`: lexicographic by code point.
pub open spec fn seq_lt(a: Seq<char>, b: Seq<char>) -> bool
    decreases a.len(),
{
    if a.len() == 0 {
        b.len() > 0
    } else if b.len() == 0 {
        false
    } else if a[0] < b[0] {
        true
    } else if a[0] == b[0] {
        seq_lt(a.drop_first(), b.drop_first())
    } else {
        false
    }
}

pub proof fn lemma_lt_irrefl(a: Seq<char>)
    ensures
        !seq_lt(a, a),
    decreases a.len(),
{
    if a.len() > 0 {
        lemma_lt_irrefl(a.drop_first());
    }
}

pub proof fn lemma_lt_trans(a: Seq<char>, b: Seq<char>, c: Seq<char>)
    requires
        seq_lt(a, b),
        seq_lt(b, c),
    ensures
        seq_lt(a, c),
    decreases a.len(),
{
    if a.len() > 0 && b.len() > 0 && c.len() > 0 {
        if a[0] == b[0] && b[0] == c[0] {
            lemma_lt_trans(a.drop_first(), b.drop_first(), c.drop_first());
        }
    }
}

pub proof fn lemma_lt_total(a: Seq<char>, b: Seq<char>)
    ensures
        seq_lt(a, b) || seq_lt(b, a) || a == b,
    decreases a.len(),
{
    if a.len() > 0 && b.len() > 0 {
        if a[0] == b[0] {
            lemma_lt_total(a.drop_first(), b.drop_first());
            if a.drop_first() == b.drop_first() {
                assert(a =~= seq![a[0]] + a.drop_first());
                assert(b =~= seq![b[0]] + b.drop_first());
            }
        } else {
        }
    } else if a.len() == 0 && b.len() == 0 {
        assert(a =~= b);
    }
}

pub proof fn lemma_lt_asym(a: Seq<char>, b: Seq<char>)
    requires
        seq_lt(a, b),
    ensures
        !seq_lt(b, a),
{
    if seq_lt(b, a) {
        lemma_lt_trans(a, b, a);
        lemma_lt_irrefl(a);
    }
}

proof fn lemma_lt_skip(a: Seq<char>, b: Seq<char>, i: int)
    requires
        0 <= i <= a.len(),
        i <= b.len(),
        a.take(i) == b.take(i),
    ensures
        seq_lt(a, b) == seq_lt(a.skip(i), b.skip(i)),
    decreases i,
{
    if i > 0 {
        assert(a[0] == a.take(i)[0]);
        assert(b[0] == b.take(i)[0]);
        assert(a.drop_first().take(i - 1) =~= a.take(i).drop_first());
        assert(b.drop_first().take(i - 1) =~= b.take(i).drop_first());
        lemma_lt_skip(a.drop_first(), b.drop_first(), i - 1);
        assert(a.drop_first().skip(i - 1) =~= a.skip(i));
        assert(b.drop_first().skip(i - 1) =~= b.skip(i));
    } else {
        assert(a.skip(0) =~= a);
        assert(b.skip(0) =~= b);
    }
}

/// Whether `a` comes before `b` (`a < b` on `str`).
pub fn str_lt(a: &str, b: &str) -> (r: bool)
    ensures
        r == seq_lt(a@, b@),
{
    let x = chars_of(a);
    let y = chars_of(b);
    let mut i: usize = 0;
    while i < x.len() && i < y.len()
        invariant
            i <= x.len(),
            i <= y.len(),
            x@.take(i as int) == y@.take(i as int),
            x@ == a@,
            y@ == b@,
        decreases x.len() - i,
    {
        if x[i] < y[i] {
            proof {
                lemma_lt_skip(x@, y@, i as int);
                assert(x@.skip(i as int)[0] == x@[i as int]);
                assert(y@.skip(i as int)[0] == y@[i as int]);
            }
            return true;
        }
        if x[i] != y[i] {
            proof {
                lemma_lt_skip(x@, y@, i as int);
                assert(x@.skip(i as int)[0] == x@[i as int]);
                assert(y@.skip(i as int)[0] == y@[i as int]);
            }
            return false;
        }
        assert(x@.take(i + 1) =~= x@.take(i as int).push(x@[i as int]));
        assert(y@.take(i + 1) =~= y@.take(i as int).push(y@[i as int]));
        i += 1;
    }
    proof {
        lemma_lt_skip(x@, y@, i as int);
    }
    i < y.len()
}

/// Whether `s` is in strictly increasing order.
pub open spec fn strictly_sorted(s: Seq<Seq<char>>) -> bool {
    forall|i: int, j: int| 0 <= i < j < s.len() ==> seq_lt(s[i], s[j])
}

pub open spec fn strings_view(s: Seq<String>) -> Seq<Seq<char>> {
    Seq::new(s.len(), |i: int| s[i]@)
}

/// Sorts strings that are pairwise distinct into increasing order.
pub fn sort_distinct_strings(v: Vec<String>) -> (r: Vec<String>)
    requires
        strings_view(v@).no_duplicates(),
    ensures
        strictly_sorted(strings_view(r@)),
        strings_view(r@).to_multiset() == strings_view(v@).to_multiset(),
        strings_view(r@).to_set() == strings_view(v@).to_set(),
        r@.len() == v@.len(),
{
    let mut r: Vec<String> = Vec::new();
    let mut i: usize = 0;
    let ghost src = strings_view(v@);
    assert(src.take(0) =~= Seq::<Seq<char>>::empty());
    assert(strings_view(r@) =~= Seq::<Seq<char>>::empty());
    while i < v.len()
        invariant
            i <= v.len(),
            src == strings_view(v@),
            src.no_duplicates(),
            strictly_sorted(strings_view(r@)),
            strings_view(r@).to_multiset() == src.take(i as int).to_multiset(),
            r@.len() == i,
            forall|k: int| 0 <= k < r@.len() ==> src.take(i as int).contains(#[trigger] strings_view(r@)[k]),
        decreases v.len() - i,
    {
        let x = v[i].clone();
        let mut p: usize = 0;
        while p < r.len() && str_lt(r[p].as_str(), x.as_str())
            invariant
                p <= r@.len(),
                forall|k: int| 0 <= k < p ==> seq_lt(#[trigger] r@[k]@, x@),
            decreases r@.len() - p,
        {
            p += 1;
        }
        let ghost old_r = strings_view(r@);
        proof {
            // x is not yet in r, so r[p] (when it exists) is strictly greater
            assert(src.take(i + 1) =~= src.take(i as int).push(x@));
            if p < r@.len() {
                assert(!seq_lt(r@[p as int]@, x@));
                assert(src.take(i as int).contains(old_r[p as int]));
                let j = choose|j: int| 0 <= j < i && src[j] == old_r[p as int];
                assert(src[j] != src[i as int]);
                lemma_lt_total(r@[p as int]@, x@);
            }
        }
        r.insert(p, x);
        proof {
            let nr = strings_view(r@);
            assert(nr =~= old_r.insert(p as int, x@));
            assert forall|a: int, b: int| 0 <= a < b < nr.len() implies seq_lt(nr[a], nr[b]) by {
                if a < p && b < p {
                } else if a < p && b == p {
                } else if a < p && b > p {
                    assert(seq_lt(old_r[a], x@));
                    if p < old_r.len() {
                        assert(seq_lt(x@, old_r[p as int]));
                        if b - 1 > p {
                            assert(seq_lt(old_r[p as int], old_r[b - 1]));
                            lemma_lt_trans(x@, old_r[p as int], old_r[b - 1]);
                        }
                        lemma_lt_trans(old_r[a], x@, old_r[b - 1]);
                    }
                } else if a == p {
                    assert(seq_lt(x@, old_r[p as int]));
                    if b - 1 > p {
                        assert(seq_lt(old_r[p as int], old_r[b - 1]));
                        lemma_lt_trans(x@, old_r[p as int], old_r[b - 1]);
                    }
                } else {
                    assert(seq_lt(old_r[a - 1], old_r[b - 1]));
                }
            }
            old_r.insert_ensures(p as int, x@);
            assert(nr.to_multiset() =~= old_r.to_multiset().insert(x@)) by {
                nr.to_multiset_ensures();
                assert(nr.remove(p as int) =~= old_r);
                assert(nr[p as int] == x@);
                assert(nr.to_multiset().count(x@) > 0);
            }
            assert(src.take(i + 1).to_multiset() =~= src.take(i as int).to_multiset().insert(x@)) by {
                src.take(i as int).to_multiset_ensures();
            }
            assert forall|k: int| 0 <= k < nr.len() implies src.take(i + 1).contains(#[trigger] nr[k]) by {
                if k < p {
                    assert(src.take(i as int).contains(old_r[k]));
                    let j = choose|j: int| 0 <= j < i && src.take(i as int)[j] == old_r[k];
                    assert(src.take(i + 1)[j] == old_r[k]);
                } else if k == p {
                    assert(src.take(i + 1)[i as int] == x@);
                } else {
                    assert(src.take(i as int).contains(old_r[k - 1]));
                    let j = choose|j: int| 0 <= j < i && src.take(i as int)[j] == old_r[k - 1];
                    assert(src.take(i + 1)[j] == old_r[k - 1]);
                }
            }
        }
        i += 1;
    }
    proof {
        assert(src.take(v@.len() as int) =~= src);
        let rv = strings_view(r@);
        assert forall|y: Seq<char>| #[trigger] rv.to_set().contains(y) <==> src.to_set().contains(y) by {
            rv.to_multiset_ensures();
            src.to_multiset_ensures();
            if rv.contains(y) {
                assert(rv.to_multiset().count(y) > 0);
            }
            if src.contains(y) {
                assert(src.to_multiset().count(y) > 0);
            }
        }
        assert(rv.to_set() =~= src.to_set());
    }
    r
}

/// The members of `set` in increasing order.
pub fn sorted_members(set: &StrSet) -> (r: Vec<String>)
    ensures
        strictly_sorted(strings_view(r@)),
        strings_view(r@).to_set() == set.view(),
        r@.len() == set.view().len(),
{
    set.facts();
    let mut v: Vec<String> = Vec::new();
    let mut i: usize = 0;
    let n = set.len();
    while i < n
        invariant
            i <= n,
            n == set.items().len(),
            v@.len() == i,
            forall|k: int| 0 <= k < i ==> #[trigger] v@[k]@ == set.items()[k],
        decreases n - i,
    {
        let x = set.item_at(i).clone();
        v.push(x);
        i += 1;
    }
    assert(strings_view(v@) =~= set.items());
    assert(set.items().to_set() =~= set.view());
    sort_distinct_strings(v)
}

/// Whether `s` is in non-decreasing order.
pub open spec fn sorted_le(s: Seq<Seq<char>>) -> bool {
    forall|i: int, j: int| 0 <= i < j < s.len() ==> !seq_lt(s[j], s[i])
}

/// Sorts strings into non-decreasing order (`slice::sort` on `String`).
pub fn sort_strings(v: Vec<String>) -> (r: Vec<String>)
    ensures
        sorted_le(strings_view(r@)),
        strings_view(r@).to_multiset() == strings_view(v@).to_multiset(),
        r@.len() == v@.len(),
{
    let mut r: Vec<String> = Vec::new();
    let mut i: usize = 0;
    let ghost src = strings_view(v@);
    assert(src.take(0) =~= Seq::<Seq<char>>::empty());
    assert(strings_view(r@) =~= Seq::<Seq<char>>::empty());
    while i < v.len()
        invariant
            i <= v.len(),
            src == strings_view(v@),
            sorted_le(strings_view(r@)),
            strings_view(r@).to_multiset() == src.take(i as int).to_multiset(),
            r@.len() == i,
        decreases v.len() - i,
    {
        let x = v[i].clone();
        let mut p: usize = 0;
        while p < r.len() && str_lt(r[p].as_str(), x.as_str())
            invariant
                p <= r@.len(),
                forall|k: int| 0 <= k < p ==> seq_lt(#[trigger] r@[k]@, x@),
            decreases r@.len() - p,
        {
            p += 1;
        }
        let ghost old_r = strings_view(r@);
        proof {
            assert(src.take(i + 1) =~= src.take(i as int).push(x@));
        }
        r.insert(p, x);
        proof {
            let nr = strings_view(r@);
            assert(nr =~= old_r.insert(p as int, x@));
            assert forall|a: int, b: int| 0 <= a < b < nr.len() implies !seq_lt(nr[b], nr[a]) by {
                if a < p && b < p {
                } else if a < p && b == p {
                    assert(seq_lt(old_r[a], x@));
                    lemma_lt_asym(old_r[a], x@);
                } else if a < p && b > p {
                    assert(!seq_lt(old_r[b - 1], old_r[a]));
                } else if a == p {
                    assert(!seq_lt(old_r[p as int], x@));
                    if seq_lt(old_r[b - 1], x@) {
                        lemma_lt_total(old_r[p as int], old_r[b - 1]);
                        if b - 1 > p {
                            assert(!seq_lt(old_r[b - 1], old_r[p as int]));
                        }
                        if seq_lt(old_r[p as int], old_r[b - 1]) {
                            lemma_lt_trans(old_r[p as int], old_r[b - 1], x@);
                        }
                    }
                } else {
                    assert(!seq_lt(old_r[b - 1], old_r[a - 1]));
                }
            }
            old_r.insert_ensures(p as int, x@);
            assert(nr.to_multiset() =~= old_r.to_multiset().insert(x@)) by {
                nr.to_multiset_ensures();
                assert(nr.remove(p as int) =~= old_r);
                assert(nr[p as int] == x@);
                assert(nr.to_multiset().count(x@) > 0);
            }
            assert(src.take(i + 1).to_multiset() =~= src.take(i as int).to_multiset().insert(x@)) by {
                src.take(i as int).to_multiset_ensures();
            }
        }
        i += 1;
    }
    assert(src.take(v@.len() as int) =~= src);
    r
}

/// Two sequences of strings in non-decreasing order that hold the same
/// strings, each as often, are equal.
pub proof fn lemma_sorted_le_unique(x: Seq<Seq<char>>, y: Seq<Seq<char>>)
    requires
        sorted_le(x),
        sorted_le(y),
        x.to_multiset() == y.to_multiset(),
    ensures
        x == y,
{
    let leq = |a: Seq<char>, b: Seq<char>| !seq_lt(b, a);
    assert forall|a: Seq<char>| #[trigger] leq(a, a) by {
        lemma_lt_irrefl(a);
    }
    assert forall|a: Seq<char>, b: Seq<char>| #[trigger] leq(a, b) && #[trigger] leq(b, a) implies a == b by {
        lemma_lt_total(a, b);
    }
    assert forall|a: Seq<char>, b: Seq<char>, c: Seq<char>| #[trigger] leq(a, b) && #[trigger] leq(b, c) implies leq(a, c) by {
        if seq_lt(c, a) {
            lemma_lt_total(a, b);
            if seq_lt(a, b) {
                lemma_lt_trans(c, a, b);
            }
        }
    }
    assert forall|a: Seq<char>, b: Seq<char>| #[trigger] leq(a, b) || #[trigger] leq(b, a) by {
        if seq_lt(b, a) {
            lemma_lt_asym(b, a);
        }
    }
    assert(vstd::relations::total_ordering(leq));
    assert(vstd::relations::sorted_by(x, leq));
    assert(vstd::relations::sorted_by(y, leq));
    vstd::seq_lib::lemma_sorted_unique(x, y, leq);
}

} // verus!
