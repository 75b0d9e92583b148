//! Bounded maps that forget the entry that was used longest ago.
//!
//! The entries of such a map are modelled as a sequence of key and value, the entry used last
//! standing first.

use vstd::prelude::*;

verus! {

/// `lru`'s bounded map.
#[verifier::external_type_specification]
#[verifier::external_body]
#[verifier::reject_recursive_types(K)]
#[verifier::reject_recursive_types(V)]
#[verifier::reject_recursive_types(S)]
pub struct ExLruCache<K, V, S>(lru::LruCache<K, V, S>);

/// The hasher that `lru` picks where none is given.
#[verifier::external_type_specification]
#[verifier::external_body]
pub struct ExLruHasher(lru::DefaultHasher);

/// The value stored under `k`, if there is one.
pub open spec fn recall<K, V>(s: Seq<(K, V)>, k: K) -> Option<V>
    decreases s.len(),
{
    if s.len() == 0 {
        None
    } else if s[0].0 == k {
        Some(s[0].1)
    } else {
        recall(s.drop_first(), k)
    }
}

/// The entries under other keys than `k`, in their order.
pub open spec fn without<K, V>(s: Seq<(K, V)>, k: K) -> Seq<(K, V)>
    decreases s.len(),
{
    if s.len() == 0 {
        s
    } else if s[0].0 == k {
        without(s.drop_first(), k)
    } else {
        seq![s[0]] + without(s.drop_first(), k)
    }
}

/// The entries after a read of `k`: an entry that is found becomes the one used last.
pub open spec fn touched<K, V>(s: Seq<(K, V)>, k: K) -> Seq<(K, V)> {
    match recall(s, k) {
        Some(v) => seq![(k, v)] + without(s, k),
        None => s,
    }
}

/// The entries after `v` was stored under `k` in a map that holds at most `limit` entries: the
/// entry used longest ago makes room.
pub open spec fn stored<K, V>(s: Seq<(K, V)>, limit: nat, k: K, v: V) -> Seq<(K, V)> {
    let rest = without(s, k);
    if limit == 0 {
        s
    } else if rest.len() >= limit {
        seq![(k, v)] + rest.take(limit - 1)
    } else {
        seq![(k, v)] + rest
    }
}

/// Taking a key out loses the value under that key and no other.
pub proof fn lemma_without<K, V>(s: Seq<(K, V)>, k: K, n: K)
    ensures
        recall(without(s, k), n) == if n == k {
            None
        } else {
            recall(s, n)
        },
        without(s, k).len() <= s.len(),
        recall(s, k) is Some ==> without(s, k).len() < s.len(),
        recall(s, k) is None ==> without(s, k) == s,
    decreases s.len(),
{
    if s.len() > 0 {
        lemma_without(s.drop_first(), k, n);
        if s[0].0 != k {
            let rest = without(s.drop_first(), k);
            let all = seq![s[0]] + rest;
            assert(all.drop_first() =~= rest);
            assert(all[0] == s[0]);
            if recall(s, k) is None {
                assert(all =~= s);
            }
        }
    }
}

/// A read changes no value.
pub proof fn lemma_touched<K, V>(s: Seq<(K, V)>, k: K, n: K)
    ensures
        recall(touched(s, k), n) == recall(s, n),
{
    if recall(s, k) is Some {
        let v = recall(s, k)->0;
        let all = seq![(k, v)] + without(s, k);
        assert(all.drop_first() =~= without(s, k));
        lemma_without(s, k, n);
    }
}

/// What was stored is read back.
pub proof fn lemma_stored_recalled<K, V>(s: Seq<(K, V)>, limit: nat, k: K, v: V)
    requires
        limit > 0,
    ensures
        recall(stored(s, limit, k, v), k) == Some(v),
{
    assert(stored(s, limit, k, v)[0] == (k, v));
}

/// A prefix of the entries knows no key that the whole does not know, and no other value for it.
pub proof fn lemma_prefix<K, V>(s: Seq<(K, V)>, m: int, n: K)
    requires
        0 <= m <= s.len(),
    ensures
        recall(s.take(m), n) is Some ==> recall(s.take(m), n) == recall(s, n),
    decreases s.len(),
{
    if m > 0 {
        assert(s.take(m).drop_first() =~= s.drop_first().take(m - 1));
        if s[0].0 != n {
            lemma_prefix(s.drop_first(), m - 1, n);
        }
    }
}

/// Storing under one key gives no other key a value that it did not have.
pub proof fn lemma_stored_other<K, V>(s: Seq<(K, V)>, limit: nat, k: K, v: V, n: K)
    requires
        n != k,
    ensures
        recall(stored(s, limit, k, v), n) is Some ==> recall(stored(s, limit, k, v), n) == recall(
            s,
            n,
        ),
{
    let rest = without(s, k);
    lemma_without(s, k, n);
    if limit > 0 {
        let kept = if rest.len() >= limit {
            rest.take(limit - 1)
        } else {
            rest
        };
        assert(stored(s, limit, k, v).drop_first() =~= kept);
        if rest.len() >= limit {
            lemma_prefix(rest, limit - 1, n);
        }
    }
}

/// Whether the entry under `n` has to make room for one under `k`: where `k` is new, the map is
/// full, and no entry was used longer ago.
pub open spec fn makes_room<K, V>(s: Seq<(K, V)>, limit: nat, k: K, n: K) -> bool {
    recall(s, k) is None && s.len() > 0 && s.len() >= limit && s.last().0 == n
}

proof fn lemma_drop_last<K, V>(s: Seq<(K, V)>, n: K)
    requires
        s.len() > 0,
        s.last().0 != n,
    ensures
        recall(s.take(s.len() - 1), n) == recall(s, n),
    decreases s.len(),
{
    if s.len() > 1 {
        assert(s.take(s.len() - 1).drop_first() =~= s.drop_first().take(s.len() - 2));
        assert(s.drop_first().last() == s.last());
        lemma_drop_last(s.drop_first(), n);
    } else {
        assert(recall(s.drop_first(), n) is None);
    }
}

/// Storing under one key keeps the value under every other, but for the one that makes room.
pub proof fn lemma_stored_keeps<K, V>(s: Seq<(K, V)>, limit: nat, k: K, v: V, n: K)
    requires
        n != k,
        s.len() <= limit,
        !makes_room(s, limit, k, n),
    ensures
        recall(stored(s, limit, k, v), n) == recall(s, n),
{
    lemma_without(s, k, n);
    let rest = without(s, k);
    if limit > 0 {
        if rest.len() >= limit {
            assert(stored(s, limit, k, v).drop_first() =~= rest.take(limit - 1));
            lemma_drop_last(s, n);
        } else {
            assert(stored(s, limit, k, v).drop_first() =~= rest);
        }
    }
}

/// How many entries a map of `schnellru` can have and be sure to find a table for one more: its
/// tables have less than two to the power of 32 slots.
pub const TABLE_ENTRIES: usize = 0x1000_0000;

/// What becomes of the entries `before` when `v` is stored under `k` in a map of `schnellru` that
/// holds at most `limit` entries. The new entry stands first. The entry used longest ago makes
/// room where the limit asks for it; where there are so many that the table cannot grow for a new
/// key, more of the oldest may have to.
pub open spec fn inserted<K, V>(
    before: Seq<(K, V)>,
    limit: nat,
    k: K,
    v: V,
    after: Seq<(K, V)>,
) -> bool {
    if limit == 0 || before.len() < TABLE_ENTRIES || recall(before, k) is Some {
        after == stored(before, limit, k, v)
    } else {
        exists|m: int|
            0 <= m <= without(before, k).len() && m < limit && after == seq![(k, v)]
                + #[trigger] without(before, k).take(m)
    }
}

/// What was stored is found unless nothing can be stored at all; under another key nothing is
/// found but what was there before, and the limit is kept.
pub proof fn lemma_inserted<K, V>(
    before: Seq<(K, V)>,
    limit: nat,
    k: K,
    v: V,
    after: Seq<(K, V)>,
    n: K,
)
    requires
        inserted(before, limit, k, v, after),
    ensures
        limit > 0 ==> recall(after, k) == Some(v),
        limit == 0 ==> after == before,
        n != k && recall(after, n) is Some ==> recall(after, n) == recall(before, n),
        n != k && before.len() <= limit && before.len() < TABLE_ENTRIES && !makes_room(
            before,
            limit,
            k,
            n,
        ) ==> recall(after, n) == recall(before, n),
        before.len() <= limit ==> after.len() <= limit,
{
    lemma_without(before, k, n);
    if limit == 0 {
    } else if before.len() < TABLE_ENTRIES || recall(before, k) is Some {
        lemma_stored_recalled(before, limit, k, v);
        if n != k {
            lemma_stored_other(before, limit, k, v, n);
            if before.len() <= limit && !makes_room(before, limit, k, n) {
                lemma_stored_keeps(before, limit, k, v, n);
            }
        }
    } else {
        let rest = without(before, k);
        let m = choose|m: int|
            0 <= m <= rest.len() && m < limit && after == seq![(k, v)] + #[trigger] rest.take(m);
        assert(after[0] == (k, v));
        assert(after.drop_first() =~= rest.take(m));
        lemma_prefix(rest, m, n);
    }
}

/// Storing a value once more changes nothing.
pub proof fn lemma_inserted_twice<K, V>(
    before: Seq<(K, V)>,
    limit: nat,
    k: K,
    v: V,
    mid: Seq<(K, V)>,
    after: Seq<(K, V)>,
)
    requires
        inserted(before, limit, k, v, mid),
        inserted(mid, limit, k, v, after),
    ensures
        after == mid,
{
    if limit > 0 {
        lemma_inserted(before, limit, k, v, mid, k);
        let rest = without(before, k);
        lemma_without(before, k, k);
        let m: int = if before.len() < TABLE_ENTRIES || recall(before, k) is Some {
            if rest.len() >= limit {
                limit - 1
            } else {
                rest.len() as int
            }
        } else {
            choose|m: int|
                0 <= m <= rest.len() && m < limit && mid == seq![(k, v)] + #[trigger] rest.take(m)
        };
        let kept = rest.take(m);
        assert(mid =~= seq![(k, v)] + kept);
        assert(mid.drop_first() =~= kept);
        lemma_prefix(rest, m, k);
        lemma_without(kept, k, k);
        assert(without(mid, k) == kept);
    }
}

/// A read keeps the number of entries in bounds.
pub proof fn lemma_touched_len<K, V>(s: Seq<(K, V)>, k: K)
    ensures
        touched(s, k).len() <= s.len(),
{
    lemma_without(s, k, k);
}

} // verus!
