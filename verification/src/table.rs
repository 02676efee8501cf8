//! Keyed sequences: the common shape of every mirrored table and of every
//! remote listing.
//!
//! Each mirrored collection (categories, feeds, entries, both as local rows
//! and as remote payloads) is a sequence of records identified by a
//! server-assigned `id`. The spec functions here let contracts speak of such
//! a sequence as a keyed lookup structure: which keys are present, and which
//! record a key names, provided the keys are distinct.

use vstd::prelude::*;

verus! {

/// A record identified by a server-assigned key.
pub trait Keyed {
    /// The identity key of the record.
    spec fn key(self) -> i64;
}

/// All keys in the sequence are distinct.
pub open spec fn keys_unique<R: Keyed>(s: Seq<R>) -> bool {
    forall|i: int, j: int| 0 <= i < j < s.len() ==> s[i].key() != s[j].key()
}

/// Some record in the sequence carries the key `k`.
pub open spec fn has_key<R: Keyed>(s: Seq<R>, k: i64) -> bool {
    exists|i: int| 0 <= i < s.len() && s[i].key() == k
}

/// An index of a record carrying the key `k`.
pub open spec fn key_index<R: Keyed>(s: Seq<R>, k: i64) -> int {
    choose|i: int| 0 <= i < s.len() && s[i].key() == k
}

/// The record carrying the key `k`.
pub open spec fn by_key<R: Keyed>(s: Seq<R>, k: i64) -> R {
    s[key_index(s, k)]
}

/// With distinct keys, position `j` is the one and only witness for its key,
/// so `by_key` returns exactly the record stored there.
pub proof fn lemma_key_witness<R: Keyed>(s: Seq<R>, j: int)
    requires
        keys_unique(s),
        0 <= j < s.len(),
    ensures
        has_key(s, s[j].key()),
        key_index(s, s[j].key()) == j,
        by_key(s, s[j].key()) == s[j],
{
    assert(has_key(s, s[j].key()));
    let i = key_index(s, s[j].key());
    assert(0 <= i < s.len() && s[i].key() == s[j].key());
    if i != j {
        if i < j {
            assert(s[i].key() != s[j].key());
        } else {
            assert(s[j].key() != s[i].key());
        }
    }
}

/// Appending a record with a fresh key keeps the keys distinct, makes that
/// key present, and leaves every other lookup unchanged.
pub proof fn lemma_push_key<R: Keyed>(s: Seq<R>, r: R)
    requires
        keys_unique(s),
        !has_key(s, r.key()),
    ensures
        keys_unique(s.push(r)),
        forall|k: i64| has_key(s.push(r), k) <==> has_key(s, k) || k == r.key(),
        by_key(s.push(r), r.key()) == r,
        forall|k: i64| has_key(s, k) ==> by_key(s.push(r), k) == by_key(s, k),
{
    let t = s.push(r);
    assert forall|i: int, j: int| 0 <= i < j < t.len() implies t[i].key() != t[j].key() by {
        if j == s.len() {
            if t[i].key() == t[j].key() {
                assert(s[i].key() == r.key());
                assert(has_key(s, r.key()));
            }
        }
    }
    assert forall|k: i64| has_key(t, k) implies has_key(s, k) || k == r.key() by {
        let i = choose|i: int| 0 <= i < t.len() && t[i].key() == k;
        if i < s.len() {
            assert(s[i].key() == k);
        }
    }
    assert forall|k: i64| has_key(s, k) || k == r.key() implies has_key(t, k) by {
        if has_key(s, k) {
            let i = choose|i: int| 0 <= i < s.len() && s[i].key() == k;
            assert(t[i].key() == k);
        } else {
            assert(t[s.len() as int].key() == k);
        }
    }
    lemma_key_witness(t, s.len() as int);
    assert forall|k: i64| has_key(s, k) implies by_key(t, k) == by_key(s, k) by {
        let i = key_index(s, k);
        lemma_by_key_carries(s, k);
        assert(t[i].key() == k);
        lemma_key_witness(t, i);
        lemma_key_witness(s, i);
    }
}

/// Replacing the record at `j` by one with the same key changes only that
/// key's lookup.
pub proof fn lemma_update_key<R: Keyed>(s: Seq<R>, j: int, r: R)
    requires
        keys_unique(s),
        0 <= j < s.len(),
        s[j].key() == r.key(),
    ensures
        keys_unique(s.update(j, r)),
        forall|k: i64| has_key(s.update(j, r), k) <==> has_key(s, k),
        by_key(s.update(j, r), r.key()) == r,
        forall|k: i64| has_key(s, k) && k != r.key() ==> by_key(s.update(j, r), k) == by_key(
            s,
            k,
        ),
{
    let t = s.update(j, r);
    assert(forall|i: int| 0 <= i < t.len() ==> t[i].key() == s[i].key());
    assert forall|k: i64| has_key(t, k) implies has_key(s, k) by {
        let i = choose|i: int| 0 <= i < t.len() && t[i].key() == k;
        assert(s[i].key() == k);
    }
    assert forall|k: i64| has_key(s, k) implies has_key(t, k) by {
        let i = choose|i: int| 0 <= i < s.len() && s[i].key() == k;
        assert(t[i].key() == k);
    }
    assert(keys_unique(t));
    lemma_key_witness(t, j);
    assert forall|k: i64| has_key(s, k) && k != r.key() implies by_key(t, k) == by_key(s, k) by {
        let i = key_index(s, k);
        lemma_by_key_carries(s, k);
        assert(t[i].key() == k);
        lemma_key_witness(t, i);
        lemma_key_witness(s, i);
    }
}

/// Two sequences whose records carry the same key at every position name the
/// same keys at the same indices.
pub proof fn lemma_pointwise_keys<R: Keyed>(s1: Seq<R>, s2: Seq<R>)
    requires
        keys_unique(s1),
        s1.len() == s2.len(),
        forall|i: int| 0 <= i < s1.len() ==> s2[i].key() == s1[i].key(),
    ensures
        keys_unique(s2),
        forall|k: i64| has_key(s2, k) <==> has_key(s1, k),
        forall|k: i64| has_key(s1, k) ==> key_index(s2, k) == key_index(s1, k),
{
    assert(keys_unique(s2));
    assert forall|k: i64| has_key(s2, k) implies has_key(s1, k) by {
        let i = choose|i: int| 0 <= i < s2.len() && s2[i].key() == k;
        assert(s1[i].key() == k);
    }
    assert forall|k: i64| has_key(s1, k) implies has_key(s2, k) by {
        let i = choose|i: int| 0 <= i < s1.len() && s1[i].key() == k;
        assert(s2[i].key() == k);
    }
    assert forall|k: i64| has_key(s1, k) implies key_index(s2, k) == key_index(s1, k) by {
        let i = key_index(s1, k);
        lemma_by_key_carries(s1, k);
        assert(s2[i].key() == k);
        lemma_key_witness(s2, i);
    }
}

/// Splitting a prefix of the sequence at `a`: the keys of the longer prefix
/// are those of the shorter prefix and of the slice between, and each lookup
/// agrees with the part that holds the key.
pub proof fn lemma_split_key<R: Keyed>(s: Seq<R>, a: int, b: int)
    requires
        keys_unique(s),
        0 <= a <= b <= s.len(),
    ensures
        keys_unique(s.subrange(0, b)),
        keys_unique(s.subrange(a, b)),
        forall|k: i64|
            has_key(s.subrange(0, b), k) <==> has_key(s.subrange(0, a), k) || has_key(
                s.subrange(a, b),
                k,
            ),
        forall|k: i64|
            has_key(s.subrange(0, a), k) ==> by_key(s.subrange(0, b), k) == by_key(
                s.subrange(0, a),
                k,
            ),
        forall|k: i64|
            has_key(s.subrange(a, b), k) ==> by_key(s.subrange(0, b), k) == by_key(
                s.subrange(a, b),
                k,
            ),
{
    let p = s.subrange(0, a);
    let q = s.subrange(a, b);
    let t = s.subrange(0, b);
    assert(keys_unique(t));
    assert(keys_unique(q));
    assert(keys_unique(p));
    assert forall|k: i64| has_key(t, k) implies has_key(p, k) || has_key(q, k) by {
        let i = choose|i: int| 0 <= i < t.len() && t[i].key() == k;
        if i < a {
            assert(p[i].key() == k);
        } else {
            assert(q[i - a].key() == k);
        }
    }
    assert forall|k: i64| has_key(p, k) || has_key(q, k) implies has_key(t, k) by {
        if has_key(p, k) {
            let i = choose|i: int| 0 <= i < p.len() && p[i].key() == k;
            assert(t[i].key() == k);
        } else {
            let i = choose|i: int| 0 <= i < q.len() && q[i].key() == k;
            assert(t[a + i].key() == k);
        }
    }
    assert forall|k: i64| has_key(p, k) implies by_key(t, k) == by_key(p, k) by {
        lemma_by_key_carries(p, k);
        let i = key_index(p, k);
        assert(t[i].key() == k);
        lemma_key_witness(t, i);
        lemma_key_witness(p, i);
    }
    assert forall|k: i64| has_key(q, k) implies by_key(t, k) == by_key(q, k) by {
        lemma_by_key_carries(q, k);
        let i = key_index(q, k);
        assert(t[a + i].key() == k);
        lemma_key_witness(t, a + i);
        lemma_key_witness(q, i);
    }
}

/// Every present key is resolved by `by_key` to a record that carries it.
pub proof fn lemma_by_key_carries<R: Keyed>(s: Seq<R>, k: i64)
    requires
        has_key(s, k),
    ensures
        0 <= key_index(s, k) < s.len(),
        by_key(s, k).key() == k,
{
    let i = choose|i: int| 0 <= i < s.len() && s[i].key() == k;
    assert(0 <= i < s.len() && s[i].key() == k);
}

} // verus!
