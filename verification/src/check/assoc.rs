//! Association lists: the mathematical model of the small maps kept by the
//! checking passes, where keys are looked up by their first occurrence and
//! setting a key replaces that occurrence or appends a new entry.

use vstd::prelude::*;

verus! {

/// The position of the first entry at or after `i` whose key is `k`.
pub open spec fn find_from<K, V>(s: Seq<(K, V)>, k: K, i: int) -> Option<int>
    decreases s.len() - i,
{
    if i < 0 || i >= s.len() {
        None
    } else if s[i].0 == k {
        Some(i)
    } else {
        find_from(s, k, i + 1)
    }
}

/// The position of the first entry whose key is `k`.
pub open spec fn find_key<K, V>(s: Seq<(K, V)>, k: K) -> Option<int> {
    find_from(s, k, 0)
}

/// The value stored under `k`.
pub open spec fn assoc_get<K, V>(s: Seq<(K, V)>, k: K) -> Option<V> {
    match find_key(s, k) {
        Some(i) => Some(s[i].1),
        None => None,
    }
}

/// Whether `k` has an entry.
pub open spec fn assoc_contains<K, V>(s: Seq<(K, V)>, k: K) -> bool {
    find_key(s, k) is Some
}

/// The list with `k` mapped to `v`: its entry replaced, or a new entry
/// appended.
pub open spec fn assoc_set<K, V>(s: Seq<(K, V)>, k: K, v: V) -> Seq<(K, V)> {
    match find_key(s, k) {
        Some(i) => s.update(i, (k, v)),
        None => s.push((k, v)),
    }
}

/// What `find_from` returns: the first matching position, or `None` where
/// no entry from `i` on matches.
pub proof fn lemma_find_from<K, V>(s: Seq<(K, V)>, k: K, i: int)
    requires
        0 <= i,
    ensures
        match find_from(s, k, i) {
            Some(j) => i <= j < s.len() && s[j].0 == k && forall|m: int| i <= m < j ==> s[m].0 != k,
            None => forall|m: int| i <= m < s.len() ==> s[m].0 != k,
        },
    decreases s.len() - i,
{
    if i < s.len() && s[i].0 != k {
        lemma_find_from(s, k, i + 1);
    }
}

/// `find_key` gives the first position holding `k`, or `None` where no
/// entry holds it.
pub proof fn lemma_find_key<K, V>(s: Seq<(K, V)>, k: K)
    ensures
        match find_key(s, k) {
            Some(j) => 0 <= j < s.len() && s[j].0 == k && forall|m: int| 0 <= m < j ==> s[m].0 != k,
            None => forall|m: int| 0 <= m < s.len() ==> s[m].0 != k,
        },
{
    lemma_find_from(s, k, 0);
}

/// A position `j` that holds `k`, with no earlier position holding it, is
/// what `find_key` returns.
pub proof fn lemma_find_key_is<K, V>(s: Seq<(K, V)>, k: K, j: int)
    requires
        0 <= j < s.len(),
        s[j].0 == k,
        forall|m: int| 0 <= m < j ==> s[m].0 != k,
    ensures
        find_key(s, k) == Some(j),
{
    lemma_find_key(s, k);
    if let Some(j2) = find_key(s, k) {
        if j2 < j {
        } else if j < j2 {
        }
    }
}

/// `find_key` is `None` exactly where no entry holds the key.
pub proof fn lemma_find_key_none<K, V>(s: Seq<(K, V)>, k: K)
    requires
        forall|m: int| 0 <= m < s.len() ==> s[m].0 != k,
    ensures
        find_key(s, k) is None,
{
    lemma_find_key(s, k);
}

/// Setting a key keeps every key present, adds the set key, and changes
/// the value of no other key.
pub proof fn lemma_assoc_set<K, V>(s: Seq<(K, V)>, k: K, v: V)
    ensures
        assoc_get(assoc_set(s, k, v), k) == Some(v),
        forall|k2: K| k2 != k ==> assoc_get(#[trigger] assoc_set(s, k, v), k2) == assoc_get(s, k2),
        forall|k2: K| assoc_contains(s, k2) ==> assoc_contains(#[trigger] assoc_set(s, k, v), k2),
{
    let t = assoc_set(s, k, v);
    lemma_find_key(s, k);
    match find_key(s, k) {
        Some(i) => {
            lemma_find_key_is(t, k, i);
        },
        None => {
            lemma_find_key_is(t, k, s.len() as int);
        },
    }
    assert forall|k2: K| k2 != k implies assoc_get(#[trigger] assoc_set(s, k, v), k2) == assoc_get(s, k2) by {
        lemma_find_key(s, k2);
        match find_key(s, k2) {
            Some(j) => {
                lemma_find_key_is(t, k2, j);
            },
            None => {
                assert forall|m: int| 0 <= m < t.len() implies t[m].0 != k2 by {
                    if m < s.len() {
                    }
                }
                lemma_find_key_none(t, k2);
            },
        }
    }
    assert forall|k2: K| assoc_contains(s, k2) implies assoc_contains(#[trigger] assoc_set(s, k, v), k2) by {
        if k2 != k {
            assert(assoc_get(assoc_set(s, k, v), k2) == assoc_get(s, k2));
        }
    }
}

} // verus!
