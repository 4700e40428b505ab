//! The model shared by the library's keyed tables: a sequence of entries
//! whose keys are unique, where adding an entry replaces the one with the
//! same key in place or appends it.

use vstd::prelude::*;

verus! {

/// No two entries of `s` share a key.
pub open spec fn unique_keys<V, K>(s: Seq<V>, key: spec_fn(V) -> K) -> bool {
    forall|i: int, j: int| 0 <= i < s.len() && 0 <= j < s.len() && i != j ==> key(s[i]) != key(s[j])
}

/// Whether some entry of `s` has key `k`.
pub open spec fn has_key<V, K>(s: Seq<V>, key: spec_fn(V) -> K, k: K) -> bool {
    exists|i: int| 0 <= i < s.len() && key(s[i]) == k
}

/// The entry of `s` with key `k`, if any.
pub open spec fn entry_for<V, K>(s: Seq<V>, key: spec_fn(V) -> K, k: K) -> Option<V> {
    if has_key(s, key, k) {
        Some(s[choose|i: int| 0 <= i < s.len() && key(s[i]) == k])
    } else {
        None
    }
}

/// `s` after adding `v`: it replaces the entry with the same key in place,
/// or is appended.
pub open spec fn upsert<V, K>(s: Seq<V>, key: spec_fn(V) -> K, v: V) -> Seq<V> {
    if has_key(s, key, key(v)) {
        s.update(choose|i: int| 0 <= i < s.len() && key(s[i]) == key(v), v)
    } else {
        s.push(v)
    }
}

/// In a table with unique keys, the entry found at `i` is the entry for its key.
pub proof fn lemma_entry_at<V, K>(s: Seq<V>, key: spec_fn(V) -> K, i: int)
    requires
        unique_keys(s, key),
        0 <= i < s.len(),
    ensures
        entry_for(s, key, key(s[i])) == Some(s[i]),
{
    assert(has_key(s, key, key(s[i])));
}

/// Adding an entry keeps keys unique, makes it the entry for its key, and
/// leaves the entries for every other key as they were.
pub proof fn lemma_upsert<V, K>(s: Seq<V>, key: spec_fn(V) -> K, v: V)
    requires
        unique_keys(s, key),
    ensures
        unique_keys(upsert(s, key, v), key),
        entry_for(upsert(s, key, v), key, key(v)) == Some(v),
        forall|k: K| k != key(v) ==> entry_for(upsert(s, key, v), key, k) == entry_for(s, key, k),
{
    let t = upsert(s, key, v);
    let p: int = if has_key(s, key, key(v)) {
        choose|i: int| 0 <= i < s.len() && key(s[i]) == key(v)
    } else {
        s.len() as int
    };
    assert(t[p] == v);
    assert forall|i: int| 0 <= i < t.len() && i != p implies t[i] == s[i] && key(t[i]) != key(v) by {
    }
    assert(unique_keys(t, key));
    lemma_entry_at(t, key, p);
    assert forall|k: K| k != key(v) implies entry_for(t, key, k) == entry_for(s, key, k) by {
        if has_key(s, key, k) {
            let a = choose|i: int| 0 <= i < s.len() && key(s[i]) == k;
            assert(t[a] == s[a]);
            lemma_entry_at(t, key, a);
            lemma_entry_at(s, key, a);
        }
        if has_key(t, key, k) {
            let b = choose|i: int| 0 <= i < t.len() && key(t[i]) == k;
            assert(b != p);
            lemma_entry_at(s, key, b);
        }
    }
}

} // verus!
