use vstd::prelude::*;

verus! {

// Generic reasoning helpers for association lists keyed by strings, used for
// the tile and system tables.  Lookups return the first entry with the
// wanted key, so iteration order stays fully deterministic.

/// First index holding key `k`, or -1 when `k` is absent.
pub open spec fn assoc_index_of<V>(s: Seq<(Seq<char>, V)>, k: Seq<char>) -> int
    decreases s.len(),
{
    if s.len() == 0 {
        -1
    } else if s[0].0 == k {
        0
    } else {
        let r = assoc_index_of(s.drop_first(), k);
        if r == -1 {
            -1
        } else {
            r + 1
        }
    }
}

/// Whether key `k` occurs in the list.
pub open spec fn assoc_contains<V>(s: Seq<(Seq<char>, V)>, k: Seq<char>) -> bool {
    assoc_index_of(s, k) != -1
}

/// The first value stored under `k`, if any.
pub open spec fn assoc_get<V>(s: Seq<(Seq<char>, V)>, k: Seq<char>) -> Option<V> {
    let i = assoc_index_of(s, k);
    if i == -1 {
        None
    } else {
        Some(s[i].1)
    }
}

/// The list with the first entry under `k` replaced by `v`; unchanged when
/// `k` is absent.
pub open spec fn assoc_update<V>(s: Seq<(Seq<char>, V)>, k: Seq<char>, v: V) -> Seq<(Seq<char>, V)> {
    let i = assoc_index_of(s, k);
    if i == -1 {
        s
    } else {
        s.update(i, (s[i].0, v))
    }
}

/// Basic shape of `assoc_index_of`: it is -1 exactly when the key is absent,
/// and otherwise points at the first entry with that key.
pub proof fn lemma_assoc_index_of<V>(s: Seq<(Seq<char>, V)>, k: Seq<char>)
    ensures
        -1 <= assoc_index_of(s, k) < s.len(),
        assoc_index_of(s, k) == -1 ==> forall|j: int|
            0 <= j < s.len() ==> (#[trigger] s[j]).0 != k,
        assoc_index_of(s, k) >= 0 ==> s[assoc_index_of(s, k)].0 == k,
        assoc_index_of(s, k) >= 0 ==> forall|j: int|
            0 <= j < assoc_index_of(s, k) ==> (#[trigger] s[j]).0 != k,
    decreases s.len(),
{
    if s.len() != 0 {
        if s[0].0 == k {
        } else {
            lemma_assoc_index_of(s.drop_first(), k);
            assert forall|j: int| 1 <= j < s.len() implies s.drop_first()[j - 1] == s[j] by {}
        }
    }
}

/// Two lists with the same keys in the same places index every key alike.
pub proof fn lemma_assoc_index_of_same_keys<V>(
    a: Seq<(Seq<char>, V)>,
    b: Seq<(Seq<char>, V)>,
    k: Seq<char>,
)
    requires
        a.len() == b.len(),
        forall|i: int| 0 <= i < a.len() ==> (#[trigger] a[i]).0 == b[i].0,
    ensures
        assoc_index_of(a, k) == assoc_index_of(b, k),
    decreases a.len(),
{
    if a.len() != 0 {
        assert(a[0].0 == b[0].0);
        assert forall|i: int|
            0 <= i < a.drop_first().len() implies (#[trigger] a.drop_first()[i]).0
            == b.drop_first()[i].0 by {
            assert(a[i + 1].0 == b[i + 1].0);
        }
        lemma_assoc_index_of_same_keys(a.drop_first(), b.drop_first(), k);
    }
}

/// Updating the value at the first index of `k` leaves every lookup of any
/// other key unchanged, and `assoc_index_of` of every key unchanged.
pub proof fn lemma_assoc_index_of_update<V>(s: Seq<(Seq<char>, V)>, i: int, v: V, k2: Seq<char>)
    requires
        0 <= i < s.len(),
    ensures
        assoc_index_of(s.update(i, (s[i].0, v)), k2) == assoc_index_of(s, k2),
    decreases s.len(),
{
    let s2 = s.update(i, (s[i].0, v));
    assert(s2.len() == s.len());
    if s.len() != 0 {
        if i == 0 {
            assert(s2[0].0 == s[0].0);
            if s[0].0 != k2 {
                assert(s2.drop_first() =~= s.drop_first());
            }
        } else {
            assert(s2[0] == s[0]);
            if s[0].0 != k2 {
                assert(s2.drop_first() =~= s.drop_first().update(i - 1, (s.drop_first()[i - 1].0, v)));
                lemma_assoc_index_of_update(s.drop_first(), i - 1, v, k2);
            }
        }
    }
}

} // verus!
