//! Lookup of records by their string id.
//!
//! Small runtime tables (semantic parts, health pools, animation tags) are
//! kept as vectors of records, each naming itself by a string id. A lookup
//! finds the first record with the requested id.

use vstd::prelude::*;

verus! {

/// A record identified by a string key.
pub trait Keyed {
    spec fn key_view(&self) -> Seq<char>;

    fn key(&self) -> (r: &String)
        ensures
            r@ == self.key_view(),
    ;
}

/// Index of the first record whose key is `key`.
pub open spec fn is_first_keyed<T: Keyed>(s: Seq<T>, key: Seq<char>, i: int) -> bool {
    &&& 0 <= i < s.len()
    &&& s[i].key_view() == key
    &&& forall|j: int| 0 <= j < i ==> (#[trigger] s[j]).key_view() != key
}

pub open spec fn has_key<T: Keyed>(s: Seq<T>, key: Seq<char>) -> bool {
    exists|i: int| 0 <= i < s.len() && (#[trigger] s[i]).key_view() == key
}

/// The first record with `key`, if any.
pub open spec fn first_keyed<T: Keyed>(s: Seq<T>, key: Seq<char>) -> Option<int> {
    if has_key(s, key) {
        Some(choose|i: int| is_first_keyed(s, key, i))
    } else {
        None
    }
}

/// No two records share a key.
pub open spec fn unique_keys<T: Keyed>(s: Seq<T>) -> bool {
    forall|i: int, j: int|
        0 <= i < s.len() && 0 <= j < s.len() && i != j ==> (#[trigger] s[i]).key_view() != (
        #[trigger] s[j]).key_view()
}

pub proof fn lemma_first_keyed_unique<T: Keyed>(s: Seq<T>, key: Seq<char>, i: int)
    requires
        is_first_keyed(s, key, i),
    ensures
        first_keyed(s, key) == Some(i),
{
    assert(has_key(s, key));
    let k = choose|k: int| is_first_keyed(s, key, k);
    assert(is_first_keyed(s, key, k));
    if k < i {
        assert(s[k].key_view() != key);
    } else if i < k {
        assert(s[i].key_view() != key);
    }
}

proof fn lemma_exists_first<T: Keyed>(s: Seq<T>, key: Seq<char>, i: int)
    requires
        0 <= i < s.len(),
        s[i].key_view() == key,
    ensures
        exists|j: int| is_first_keyed(s, key, j),
    decreases i,
{
    if exists|j: int| 0 <= j < i && (#[trigger] s[j]).key_view() == key {
        let j = choose|j: int| 0 <= j < i && (#[trigger] s[j]).key_view() == key;
        lemma_exists_first(s, key, j);
    } else {
        assert(is_first_keyed(s, key, i));
    }
}

/// `first_keyed` names the first record with the key, or reports none has it.
pub proof fn lemma_first_keyed<T: Keyed>(s: Seq<T>, key: Seq<char>)
    ensures
        match first_keyed(s, key) {
            Some(i) => is_first_keyed(s, key, i),
            None => !has_key(s, key),
        },
{
    if has_key(s, key) {
        let i = choose|i: int| 0 <= i < s.len() && (#[trigger] s[i]).key_view() == key;
        lemma_exists_first(s, key, i);
    }
}

pub open spec fn opt_usize_int(r: Option<usize>) -> Option<int> {
    match r {
        Some(i) => Some(i as int),
        None => None,
    }
}

/// Finds the first record whose key equals `key`.
pub fn find_keyed<T: Keyed>(items: &Vec<T>, key: &String) -> (r: Option<usize>)
    ensures
        opt_usize_int(r) == first_keyed(items@, key@),
        r matches Some(i) ==> i < items.len() && items@[i as int].key_view() == key@,
        r matches Some(i) ==> is_first_keyed(items@, key@, i as int),
        r is None ==> !has_key(items@, key@),
{
    let n = items.len();
    for i in 0..n
        invariant
            n == items.len(),
            forall|j: int| 0 <= j < i ==> (#[trigger] items@[j]).key_view() != key@,
    {
        if items[i].key().eq(key) {
            proof {
                lemma_first_keyed_unique(items@, key@, i as int);
            }
            return Some(i);
        }
    }
    assert(!has_key(items@, key@));
    None
}

/// Finds the first record whose key equals the string slice `key`.
pub fn find_keyed_str<T: Keyed>(items: &Vec<T>, key: &str) -> (r: Option<usize>)
    ensures
        opt_usize_int(r) == first_keyed(items@, key@),
        r matches Some(i) ==> i < items.len() && items@[i as int].key_view() == key@,
        r matches Some(i) ==> is_first_keyed(items@, key@, i as int),
        r is None ==> !has_key(items@, key@),
{
    let owned = key.to_owned();
    find_keyed(items, &owned)
}

/// Whether `needle` occurs in `items` (by string content).
pub fn contains_string(items: &Vec<String>, needle: &String) -> (r: bool)
    ensures
        r == exists|i: int| 0 <= i < items.len() && (#[trigger] items@[i])@ == needle@,
{
    let n = items.len();
    for i in 0..n
        invariant
            n == items.len(),
            forall|j: int| 0 <= j < i ==> (#[trigger] items@[j])@ != needle@,
    {
        if items[i].eq(needle) {
            return true;
        }
    }
    false
}

/// String equality on slices, by content.
pub fn str_eq(a: &str, b: &str) -> (r: bool)
    ensures
        r == (a@ == b@),
{
    let x = a.to_owned();
    let y = b.to_owned();
    x.eq(&y)
}


/// `s` with `x` in place of the first record sharing its key, or appended.
pub open spec fn upserted<T: Keyed>(s: Seq<T>, x: T) -> Seq<T> {
    match first_keyed(s, x.key_view()) {
        Some(i) => s.update(i, x),
        None => s.push(x),
    }
}

/// Replaces the record with `x`'s key by `x`, or appends `x`.
pub fn upsert_keyed<T: Keyed>(items: &mut Vec<T>, x: T)
    ensures
        final(items)@ == upserted(old(items)@, x),
        unique_keys(old(items)@) ==> unique_keys(final(items)@),
{
    let found = find_keyed(items, x.key());
    proof {
        lemma_first_keyed(items@, x.key_view());
    }
    match found {
        Some(i) => {
            items.set(i, x);
        },
        None => {
            items.push(x);
        },
    }
    proof {
        if unique_keys(old(items)@) {
            let s = old(items)@;
            let r = items@;
            assert forall|i: int, j: int|
                0 <= i < r.len() && 0 <= j < r.len() && i != j implies (#[trigger] r[i]).key_view()
                != (#[trigger] r[j]).key_view() by {
                match found {
                    Some(k) => {
                        let k = k as int;
                        if i == k {
                            assert(s[k].key_view() == x.key_view());
                            assert(s[j].key_view() != s[k].key_view());
                        } else if j == k {
                            assert(s[k].key_view() == x.key_view());
                            assert(s[i].key_view() != s[k].key_view());
                        } else {
                            assert(r[i] == s[i] && r[j] == s[j]);
                        }
                    },
                    None => {
                        if i == s.len() {
                            assert(!has_key(s, x.key_view()));
                            assert(s[j].key_view() != x.key_view());
                        } else if j == s.len() {
                            assert(s[i].key_view() != x.key_view());
                        } else {
                            assert(r[i] == s[i] && r[j] == s[j]);
                        }
                    },
                }
            }
        }
    }
}

/// Index of the last of the first `n` source records whose key is `key`.
pub open spec fn last_with_key<S>(src: Seq<S>, key_of: spec_fn(S) -> Seq<char>, key: Seq<char>, n: int) -> Option<int>
    decreases n,
{
    if n <= 0 {
        None
    } else if key_of(src[n - 1]) == key {
        Some(n - 1)
    } else {
        last_with_key(src, key_of, key, n - 1)
    }
}

/// `t` holds one record for each key among the first `n` source records,
/// built from the last source record with that key.
pub open spec fn table_of<S, T: Keyed>(
    t: Seq<T>,
    src: Seq<S>,
    key_of: spec_fn(S) -> Seq<char>,
    built: spec_fn(S, T) -> bool,
    n: int,
) -> bool {
    &&& unique_keys(t)
    &&& forall|key: Seq<char>|
        #![trigger has_key(t, key)]
        #![trigger last_with_key(src, key_of, key, n)]
        has_key(t, key) <==> last_with_key(src, key_of, key, n) is Some
    &&& forall|k: int|
        0 <= k < t.len() ==> {
            &&& last_with_key(src, key_of, (#[trigger] t[k]).key_view(), n) is Some
            &&& built(src[last_with_key(src, key_of, t[k].key_view(), n)->0], t[k])
        }
}

pub proof fn lemma_last_with_key_bounds<S>(src: Seq<S>, key_of: spec_fn(S) -> Seq<char>, key: Seq<char>, n: int)
    ensures
        last_with_key(src, key_of, key, n) matches Some(i) ==> 0 <= i < n && key_of(src[i]) == key,
    decreases n,
{
    if n > 0 && key_of(src[n - 1]) != key {
        lemma_last_with_key_bounds(src, key_of, key, n - 1);
    }
}

/// A key carried by one of the first `n` source records has a last record.
pub proof fn lemma_last_with_key_found<S>(
    src: Seq<S>,
    key_of: spec_fn(S) -> Seq<char>,
    key: Seq<char>,
    n: int,
    i: int,
)
    requires
        0 <= i < n,
        key_of(src[i]) == key,
    ensures
        last_with_key(src, key_of, key, n) is Some,
    decreases n,
{
    if key_of(src[n - 1]) != key {
        lemma_last_with_key_found(src, key_of, key, n - 1, i);
    }
}

/// Upserting the record built from source record `n` extends the table to `n + 1`.
pub proof fn lemma_table_of_step<S, T: Keyed>(
    t: Seq<T>,
    src: Seq<S>,
    key_of: spec_fn(S) -> Seq<char>,
    built: spec_fn(S, T) -> bool,
    n: int,
    x: T,
)
    requires
        0 <= n < src.len(),
        table_of(t, src, key_of, built, n),
        x.key_view() == key_of(src[n]),
        built(src[n], x),
    ensures
        table_of(upserted(t, x), src, key_of, built, n + 1),
{
    let r = upserted(t, x);
    lemma_first_keyed(t, x.key_view());
    assert(unique_keys(r)) by {
        assert forall|i: int, j: int|
            0 <= i < r.len() && 0 <= j < r.len() && i != j implies (#[trigger] r[i]).key_view()
            != (#[trigger] r[j]).key_view() by {
            match first_keyed(t, x.key_view()) {
                Some(k) => {
                    if i == k {
                        assert(t[j].key_view() != t[k].key_view());
                    } else if j == k {
                        assert(t[i].key_view() != t[k].key_view());
                    } else {
                        assert(r[i] == t[i] && r[j] == t[j]);
                    }
                },
                None => {
                    if i == t.len() {
                        assert(t[j].key_view() != x.key_view());
                    } else if j == t.len() {
                        assert(t[i].key_view() != x.key_view());
                    } else {
                        assert(r[i] == t[i] && r[j] == t[j]);
                    }
                },
            }
        }
    }
    assert forall|key: Seq<char>|
        has_key(r, key) <==> last_with_key(src, key_of, key, n + 1) is Some by {
        if key == x.key_view() {
            match first_keyed(t, x.key_view()) {
                Some(k) => {
                    assert(r[k].key_view() == key);
                },
                None => {
                    assert(r[t.len() as int].key_view() == key);
                },
            }
        } else {
            assert(last_with_key(src, key_of, key, n + 1) == last_with_key(src, key_of, key, n));
            if has_key(t, key) {
                let i = choose|i: int| 0 <= i < t.len() && (#[trigger] t[i]).key_view() == key;
                match first_keyed(t, x.key_view()) {
                    Some(k) => {
                        assert(i != k);
                        assert(r[i] == t[i]);
                    },
                    None => {
                        assert(r[i] == t[i]);
                    },
                }
            }
            if has_key(r, key) {
                let i = choose|i: int| 0 <= i < r.len() && (#[trigger] r[i]).key_view() == key;
                match first_keyed(t, x.key_view()) {
                    Some(k) => {
                        assert(i != k);
                        assert(r[i] == t[i]);
                    },
                    None => {
                        assert(i != t.len());
                        assert(r[i] == t[i]);
                    },
                }
                assert(has_key(t, key));
            }
        }
    }
    assert forall|k: int| 0 <= k < r.len() implies {
        &&& last_with_key(src, key_of, (#[trigger] r[k]).key_view(), n + 1) is Some
        &&& built(src[last_with_key(src, key_of, r[k].key_view(), n + 1)->0], r[k])
    } by {
        if r[k].key_view() == x.key_view() {
            match first_keyed(t, x.key_view()) {
                Some(i) => {
                    if k != i {
                        assert(r[k] == t[k]);
                        assert(t[k].key_view() != t[i].key_view());
                    }
                },
                None => {
                    if k != t.len() {
                        assert(r[k] == t[k]);
                        assert(has_key(t, x.key_view()));
                    }
                },
            }
            assert(r[k] == x);
        } else {
            assert(r[k] == t[k]);
            assert(last_with_key(src, key_of, r[k].key_view(), n + 1) == last_with_key(
                src,
                key_of,
                t[k].key_view(),
                n,
            ));
        }
    }
}

/// The empty table is the table of no source records.
pub proof fn lemma_table_of_empty<S, T: Keyed>(
    src: Seq<S>,
    key_of: spec_fn(S) -> Seq<char>,
    built: spec_fn(S, T) -> bool,
)
    ensures
        table_of(Seq::<T>::empty(), src, key_of, built, 0),
{
}

/// In a table, the record found for a key is built from the last source record with it.
pub proof fn lemma_table_of_lookup<S, T: Keyed>(
    t: Seq<T>,
    src: Seq<S>,
    key_of: spec_fn(S) -> Seq<char>,
    built: spec_fn(S, T) -> bool,
    n: int,
    key: Seq<char>,
)
    requires
        table_of(t, src, key_of, built, n),
    ensures
        first_keyed(t, key) is Some <==> last_with_key(src, key_of, key, n) is Some,
        first_keyed(t, key) matches Some(k) ==> {
            &&& 0 <= k < t.len()
            &&& t[k].key_view() == key
            &&& built(src[last_with_key(src, key_of, key, n)->0], t[k])
        },
        last_with_key(src, key_of, key, n) matches Some(i) ==> 0 <= i < n && key_of(src[i]) == key,
{
    lemma_first_keyed(t, key);
    lemma_last_with_key_bounds(src, key_of, key, n);
    assert(has_key(t, key) <==> last_with_key(src, key_of, key, n) is Some);
}

} // verus!
