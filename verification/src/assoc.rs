//! Association lists keyed by strings: the maps of the block model and
//! registry code, kept in insertion order with at most one entry per key.

use vstd::prelude::*;
use crate::text::str_eq;

verus! {

/// The value stored under `key`, taking the first entry that carries it.
pub open spec fn lookup<V>(s: Seq<(Seq<char>, V)>, key: Seq<char>) -> Option<V>
    decreases s.len(),
{
    if s.len() == 0 {
        None
    } else if s[0].0 == key {
        Some(s[0].1)
    } else {
        lookup(s.drop_first(), key)
    }
}

/// The list after storing `v` under `k`: an entry with that key is replaced in
/// place, otherwise a new entry goes at the end.
pub open spec fn insert_spec<V>(s: Seq<(Seq<char>, V)>, k: Seq<char>, v: V) -> Seq<(Seq<char>, V)>
    decreases s.len(),
{
    if s.len() == 0 {
        seq![(k, v)]
    } else if s[0].0 == k {
        s.update(0, (k, v))
    } else {
        seq![s[0]] + insert_spec(s.drop_first(), k, v)
    }
}

/// No two entries share a key.
pub open spec fn keys_distinct<V>(s: Seq<(Seq<char>, V)>) -> bool {
    forall|i: int, j: int| 0 <= i < j < s.len() ==> s[i].0 != s[j].0
}

/// Whether some entry carries `key`.
pub open spec fn has_key<V>(s: Seq<(Seq<char>, V)>, key: Seq<char>) -> bool {
    exists|i: int| 0 <= i < s.len() && s[i].0 == key
}

/// The entries of a list of string-keyed pairs, keys and values taken by their view.
pub open spec fn keyed_view<V: View>(s: Seq<(String, V)>) -> Seq<(Seq<char>, V::V)> {
    s.map_values(|e: (String, V)| (e.0@, e.1@))
}

/// A lookup finds the first entry with the key.
pub proof fn lemma_lookup_first<V>(s: Seq<(Seq<char>, V)>, key: Seq<char>, i: int)
    requires
        0 <= i < s.len(),
        s[i].0 == key,
        forall|j: int| 0 <= j < i ==> s[j].0 != key,
    ensures
        lookup(s, key) == Some(s[i].1),
    decreases i,
{
    if i > 0 {
        lemma_lookup_first(s.drop_first(), key, i - 1);
    }
}

/// A lookup of a key that no entry carries finds nothing.
pub proof fn lemma_lookup_absent<V>(s: Seq<(Seq<char>, V)>, key: Seq<char>)
    requires
        forall|j: int| 0 <= j < s.len() ==> s[j].0 != key,
    ensures
        lookup(s, key) is None,
    decreases s.len(),
{
    if s.len() > 0 {
        lemma_lookup_absent(s.drop_first(), key);
    }
}

/// A lookup finds something exactly when some entry carries the key.
pub proof fn lemma_lookup_some_iff<V>(s: Seq<(Seq<char>, V)>, key: Seq<char>)
    ensures
        lookup(s, key) is Some <==> has_key(s, key),
    decreases s.len(),
{
    if s.len() > 0 {
        lemma_lookup_some_iff(s.drop_first(), key);
        if s[0].0 != key {
            if has_key(s, key) {
                let i = choose|i: int| 0 <= i < s.len() && s[i].0 == key;
                assert(s.drop_first()[i - 1].0 == key);
            }
            if has_key(s.drop_first(), key) {
                let i = choose|i: int| 0 <= i < s.len() - 1 && s.drop_first()[i].0 == key;
                assert(s[i + 1].0 == key);
            }
        }
    }
}

/// Inserting into a list splits at the position of the key.
proof fn lemma_insert_at<V>(s: Seq<(Seq<char>, V)>, k: Seq<char>, v: V, i: int)
    requires
        0 <= i < s.len(),
        s[i].0 == k,
        forall|j: int| 0 <= j < i ==> s[j].0 != k,
    ensures
        insert_spec(s, k, v) == s.update(i, (k, v)),
    decreases i,
{
    if i > 0 {
        lemma_insert_at(s.drop_first(), k, v, i - 1);
        assert(insert_spec(s, k, v) =~= s.update(i, (k, v)));
    }
}

/// Inserting a key that no entry carries appends it.
proof fn lemma_insert_absent<V>(s: Seq<(Seq<char>, V)>, k: Seq<char>, v: V)
    requires
        forall|j: int| 0 <= j < s.len() ==> s[j].0 != k,
    ensures
        insert_spec(s, k, v) == s.push((k, v)),
    decreases s.len(),
{
    if s.len() > 0 {
        lemma_insert_absent(s.drop_first(), k, v);
        assert(insert_spec(s, k, v) =~= s.push((k, v)));
    }
}

/// Reading back after a write: the key written yields the value written,
/// every other key yields what it yielded before.
pub proof fn lemma_lookup_insert<V>(s: Seq<(Seq<char>, V)>, k: Seq<char>, v: V, q: Seq<char>)
    ensures
        lookup(insert_spec(s, k, v), q) == (if q == k { Some(v) } else { lookup(s, q) }),
    decreases s.len(),
{
    let t = insert_spec(s, k, v);
    if s.len() == 0 {
        assert(t.len() == 1 && t[0] == (k, v));
        assert(t.drop_first().len() == 0);
        assert(lookup(t.drop_first(), q) is None);
        assert(lookup(s, q) is None);
    } else if s[0].0 == k {
        assert(t.len() > 0 && t[0] == (k, v));
        assert(t.drop_first() =~= s.drop_first());
    } else {
        lemma_lookup_insert(s.drop_first(), k, v, q);
        assert(t.len() > 0 && t[0] == s[0]);
        assert(t.drop_first() =~= insert_spec(s.drop_first(), k, v));
    }
}

/// A write keeps the keys of a list distinct.
pub proof fn lemma_insert_distinct<V>(s: Seq<(Seq<char>, V)>, k: Seq<char>, v: V)
    requires
        keys_distinct(s),
    ensures
        keys_distinct(insert_spec(s, k, v)),
{
    if exists|i: int| 0 <= i < s.len() && s[i].0 == k {
        let i = choose|i: int| 0 <= i < s.len() && s[i].0 == k;
        lemma_insert_at(s, k, v, i);
    } else {
        lemma_insert_absent(s, k, v);
    }
}

/// The position of the first entry of `entries` whose key is `key`.
pub fn find_key<V: View>(entries: &Vec<(String, V)>, key: &str) -> (r: Option<usize>)
    ensures
        r matches Some(i) ==> {
            &&& i < entries@.len()
            &&& entries@[i as int].0@ == key@
            &&& forall|j: int| 0 <= j < i ==> entries@[j].0@ != key@
        },
        r is None ==> forall|j: int| 0 <= j < entries@.len() ==> entries@[j].0@ != key@,
{
    let n: usize = entries.len();
    let mut i: usize = 0;
    while i < n
        invariant
            n == entries@.len(),
            i <= n,
            forall|j: int| 0 <= j < i ==> entries@[j].0@ != key@,
        decreases n - i,
    {
        if str_eq(entries[i].0.as_str(), key) {
            return Some(i);
        }
        i = i + 1;
    }
    None
}

/// The value stored under `key` in a string-keyed list.
pub fn get_value<'a, V: View>(entries: &'a Vec<(String, V)>, key: &str) -> (r: Option<&'a V>)
    ensures
        r matches Some(v) ==> lookup(keyed_view(entries@), key@) == Some(v@),
        r is None ==> lookup(keyed_view(entries@), key@) is None,
{
    let found = find_key(entries, key);
    proof {
        let s = keyed_view(entries@);
        match found {
            Some(i) => {
                assert forall|j: int| 0 <= j < i implies s[j].0 != key@ by {}
                lemma_lookup_first(s, key@, i as int);
            },
            None => {
                assert forall|j: int| 0 <= j < s.len() implies s[j].0 != key@ by {}
                lemma_lookup_absent(s, key@);
            },
        }
    }
    match found {
        Some(i) => Some(&entries[i].1),
        None => None,
    }
}

/// Stores `value` under `key`, replacing an entry with that key in place.
pub fn insert_value<V: View>(entries: &mut Vec<(String, V)>, key: String, value: V)
    ensures
        keyed_view(final(entries)@) == insert_spec(keyed_view(old(entries)@), key@, value@),
{
    let ghost k = key@;
    let ghost vv = value@;
    let ghost s = keyed_view(entries@);
    let found = find_key(entries, key.as_str());
    match found {
        Some(i) => {
            proof {
                assert forall|j: int| 0 <= j < i implies s[j].0 != k by {}
                lemma_insert_at(s, k, vv, i as int);
            }
            entries.set(i, (key, value));
            assert(keyed_view(entries@) =~= s.update(i as int, (k, vv)));
        },
        None => {
            proof {
                assert forall|j: int| 0 <= j < s.len() implies s[j].0 != k by {}
                lemma_insert_absent(s, k, vv);
            }
            entries.push((key, value));
            assert(keyed_view(entries@) =~= s.push((k, vv)));
        },
    }
}


/// The list with `v` stored under `k` unless some entry already carries `k`.
pub open spec fn insert_absent<V>(s: Seq<(Seq<char>, V)>, k: Seq<char>, v: V) -> Seq<(Seq<char>, V)> {
    if has_key(s, k) {
        s
    } else {
        s.push((k, v))
    }
}

/// `map` with the entries of `entries` added in order, each only where its key
/// is not yet present: what is already in `map` wins over what comes later.
pub open spec fn merge_first<V>(map: Seq<(Seq<char>, V)>, entries: Seq<(Seq<char>, V)>) -> Seq<(Seq<char>, V)>
    decreases entries.len(),
{
    if entries.len() == 0 {
        map
    } else {
        merge_first(insert_absent(map, entries[0].0, entries[0].1), entries.drop_first())
    }
}

/// Adding an entry only where its key is absent keeps what every key yields,
/// and a new key yields the new value.
pub proof fn lemma_lookup_insert_absent<V>(s: Seq<(Seq<char>, V)>, k: Seq<char>, v: V, q: Seq<char>)
    ensures
        lookup(insert_absent(s, k, v), q) == (if has_key(s, q) { lookup(s, q) } else if q == k {
            Some(v)
        } else {
            None
        }),
        has_key(insert_absent(s, k, v), q) == (has_key(s, q) || q == k),
{
    lemma_lookup_some_iff(s, q);
    if !has_key(s, k) {
        let t = s.push((k, v));
        lemma_lookup_push(s, k, v, q);
        if q == k {
            assert(t[s.len() as int].0 == q);
        }
        if has_key(t, q) && q != k {
            let i = choose|i: int| 0 <= i < t.len() && t[i].0 == q;
            assert(s[i].0 == q);
        }
        if has_key(s, q) {
            let i = choose|i: int| 0 <= i < s.len() && s[i].0 == q;
            assert(t[i].0 == q);
        }
    }
}

/// Appending an entry changes only what an absent key yields.
proof fn lemma_lookup_push<V>(s: Seq<(Seq<char>, V)>, k: Seq<char>, v: V, q: Seq<char>)
    ensures
        lookup(s.push((k, v)), q) == (if lookup(s, q) is Some { lookup(s, q) } else if q == k {
            Some(v)
        } else {
            None
        }),
    decreases s.len(),
{
    let t = s.push((k, v));
    if s.len() == 0 {
        assert(t[0] == (k, v));
        assert(t.drop_first().len() == 0);
        assert(lookup(t.drop_first(), q) is None);
    } else {
        lemma_lookup_push(s.drop_first(), k, v, q);
        assert(t[0] == s[0]);
        assert(t.drop_first() =~= s.drop_first().push((k, v)));
    }
}

/// Merging keeps every key of `map` with its value; a key only `entries` has
/// yields its first value there.
pub proof fn lemma_lookup_merge_first<V>(map: Seq<(Seq<char>, V)>, entries: Seq<(Seq<char>, V)>, q: Seq<char>)
    ensures
        lookup(merge_first(map, entries), q) == (if has_key(map, q) { lookup(map, q) } else {
            lookup(entries, q)
        }),
        has_key(merge_first(map, entries), q) == (has_key(map, q) || has_key(entries, q)),
    decreases entries.len(),
{
    lemma_lookup_some_iff(map, q);
    lemma_lookup_some_iff(entries, q);
    if entries.len() > 0 {
        let m1 = insert_absent(map, entries[0].0, entries[0].1);
        lemma_lookup_insert_absent(map, entries[0].0, entries[0].1, q);
        lemma_lookup_merge_first(m1, entries.drop_first(), q);
        lemma_lookup_some_iff(entries.drop_first(), q);
        if has_key(entries.drop_first(), q) {
            let i = choose|i: int| 0 <= i < entries.len() - 1 && entries.drop_first()[i].0 == q;
            assert(entries[i + 1].0 == q);
        }
        if has_key(entries, q) && entries[0].0 != q {
            let i = choose|i: int| 0 <= i < entries.len() && entries[i].0 == q;
            assert(entries.drop_first()[i - 1].0 == q);
        }
        if entries[0].0 == q {
            assert(has_key(entries, q));
        }
    }
}

/// Adding where absent keeps keys distinct.
pub proof fn lemma_insert_absent_distinct<V>(s: Seq<(Seq<char>, V)>, k: Seq<char>, v: V)
    requires
        keys_distinct(s),
    ensures
        keys_distinct(insert_absent(s, k, v)),
{
}
} // verus!
