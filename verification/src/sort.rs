//! Stable ordering of records by an unsigned key.
//!
//! Records are taken from the back of the input and each is placed in front
//! of the first already-ordered record whose key is not below its own, so
//! records with equal keys keep their input order.

use vstd::prelude::*;

verus! {

/// A record ordered by an unsigned key.
pub trait SortKeyed {
    spec fn sort_key(&self) -> int;

    fn key_value(&self) -> (r: u32)
        ensures
            r == self.sort_key(),
    ;
}

/// Position of the first record whose key is at least `k` (or the length).
pub open spec fn first_not_below<T: SortKeyed>(s: Seq<T>, k: int) -> int
    decreases s.len(),
{
    if s.len() == 0 {
        0
    } else if s[0].sort_key() >= k {
        0
    } else {
        1 + first_not_below(s.drop_first(), k)
    }
}

/// `x` placed in front of the first record of `s` whose key is not below its own.
pub open spec fn insert_ordered<T: SortKeyed>(s: Seq<T>, x: T) -> Seq<T> {
    s.insert(first_not_below(s, x.sort_key()), x)
}

/// The stable ordering of `s` by key.
pub open spec fn stable_sorted<T: SortKeyed>(s: Seq<T>) -> Seq<T>
    decreases s.len(),
{
    if s.len() == 0 {
        s
    } else {
        insert_ordered(stable_sorted(s.drop_first()), s[0])
    }
}

/// Keys never decrease along `s`.
pub open spec fn sorted_by_key<T: SortKeyed>(s: Seq<T>) -> bool {
    forall|i: int, j: int| 0 <= i <= j < s.len() ==> s[i].sort_key() <= s[j].sort_key()
}

proof fn lemma_first_not_below_is<T: SortKeyed>(s: Seq<T>, k: int, p: int)
    requires
        0 <= p <= s.len(),
        forall|j: int| 0 <= j < p ==> (#[trigger] s[j]).sort_key() < k,
        p < s.len() ==> s[p].sort_key() >= k,
    ensures
        first_not_below(s, k) == p,
    decreases p,
{
    if p > 0 {
        assert(s[0].sort_key() < k);
        assert forall|j: int| 0 <= j < p - 1 implies (#[trigger] s.drop_first()[j]).sort_key() < k by {
            assert(s.drop_first()[j] == s[j + 1]);
        }
        lemma_first_not_below_is(s.drop_first(), k, p - 1);
    }
}

proof fn lemma_first_not_below_facts<T: SortKeyed>(s: Seq<T>, k: int)
    ensures
        0 <= first_not_below(s, k) <= s.len(),
        forall|j: int| 0 <= j < first_not_below(s, k) ==> (#[trigger] s[j]).sort_key() < k,
        first_not_below(s, k) < s.len() ==> s[first_not_below(s, k)].sort_key() >= k,
    decreases s.len(),
{
    if s.len() > 0 && s[0].sort_key() < k {
        let t = s.drop_first();
        lemma_first_not_below_facts(t, k);
        assert forall|j: int| 0 <= j < first_not_below(s, k) implies (#[trigger] s[j]).sort_key() < k by {
            if j > 0 {
                assert(s[j] == t[j - 1]);
            }
        }
    }
}

proof fn lemma_insert_ordered_sorted<T: SortKeyed>(s: Seq<T>, x: T)
    requires
        sorted_by_key(s),
    ensures
        sorted_by_key(insert_ordered(s, x)),
        insert_ordered(s, x).len() == s.len() + 1,
{
    lemma_first_not_below_facts(s, x.sort_key());
    let p = first_not_below(s, x.sort_key());
    let r = insert_ordered(s, x);
    assert forall|i: int, j: int| 0 <= i <= j < r.len() implies r[i].sort_key() <= r[j].sort_key() by {
        if i < p && j == p {
            assert(s[i].sort_key() < x.sort_key());
        } else if i < p && j > p {
            assert(r[j] == s[j - 1]);
        } else if i == p && j > p {
            assert(r[j] == s[j - 1]);
            assert(s[p].sort_key() >= x.sort_key());
            assert(s[p].sort_key() <= s[j - 1].sort_key());
        } else if i > p {
            assert(r[i] == s[i - 1]);
            assert(r[j] == s[j - 1]);
        }
    }
}

/// The stable ordering is ordered by key, has the same records, and keeps
/// every record it was given.
pub proof fn lemma_stable_sorted<T: SortKeyed>(s: Seq<T>)
    ensures
        sorted_by_key(stable_sorted(s)),
        stable_sorted(s).len() == s.len(),
        stable_sorted(s).to_multiset() == s.to_multiset(),
        forall|j: int| 0 <= j < s.len() ==> #[trigger] s.contains(stable_sorted(s)[j]),
    decreases s.len(),
{
    broadcast use vstd::seq_lib::group_to_multiset_ensures;

    if s.len() > 0 {
        let t = s.drop_first();
        lemma_stable_sorted(t);
        let st = stable_sorted(t);
        lemma_insert_ordered_sorted(st, s[0]);
        lemma_first_not_below_facts(st, s[0].sort_key());
        let p = first_not_below(st, s[0].sort_key());
        vstd::seq_lib::to_multiset_insert(st, p, s[0]);
        assert(s =~= seq![s[0]] + t);
        vstd::seq_lib::lemma_multiset_commutative(seq![s[0]], t);
        assert(seq![s[0]].to_multiset() =~= vstd::multiset::Multiset::empty().insert(s[0]));
        let r = stable_sorted(s);
        assert forall|j: int| 0 <= j < s.len() implies #[trigger] s.contains(r[j]) by {
            if j < p {
                assert(t.contains(st[j]));
                let q = choose|q: int| 0 <= q < t.len() && t[q] == st[j];
                assert(s[q + 1] == t[q]);
            } else if j == p {
                assert(s[0] == r[j]);
            } else {
                assert(r[j] == st[j - 1]);
                assert(t.contains(st[j - 1]));
                let q = choose|q: int| 0 <= q < t.len() && t[q] == st[j - 1];
                assert(s[q + 1] == t[q]);
            }
        }
    } else {
        assert(s.to_multiset() =~= vstd::multiset::Multiset::empty());
    }
}

/// Orders `items` stably by key.
pub fn sort_stable_by_key<T: SortKeyed>(items: Vec<T>) -> (r: Vec<T>)
    ensures
        r@ == stable_sorted(items@),
        sorted_by_key(r@),
        r@.to_multiset() == items@.to_multiset(),
{
    let ghost s = items@;
    let mut rest = items;
    let mut sorted: Vec<T> = Vec::new();
    proof {
        assert(s.subrange(s.len() as int, s.len() as int) =~= Seq::<T>::empty());
        assert(s.subrange(0, s.len() as int) =~= s);
    }
    while rest.len() > 0
        invariant
            rest.len() <= s.len(),
            rest@ == s.subrange(0, rest.len() as int),
            sorted@ == stable_sorted(s.subrange(rest.len() as int, s.len() as int)),
        decreases rest.len(),
    {
        let ghost m = rest.len() as int;
        let x = rest.pop().unwrap();
        let k = x.key_value();
        let mut pos: usize = 0;
        while pos < sorted.len() && sorted[pos].key_value() < k
            invariant
                pos <= sorted.len(),
                forall|j: int| 0 <= j < pos ==> (#[trigger] sorted@[j]).sort_key() < k,
            decreases sorted.len() - pos,
        {
            pos = pos + 1;
        }
        proof {
            lemma_first_not_below_is(sorted@, x.sort_key(), pos as int);
            let tail = s.subrange(m - 1, s.len() as int);
            assert(tail.drop_first() =~= s.subrange(m, s.len() as int));
            assert(tail[0] == x);
        }
        sorted.insert(pos, x);
    }
    proof {
        assert(s.subrange(0, s.len() as int) =~= s);
        lemma_stable_sorted(s);
    }
    sorted
}

} // verus!
