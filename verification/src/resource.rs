use vstd::prelude::*;

use crate::constants::{amount_add, spec_amount_add};

verus! {

// A resource table maps resource names to fixed-point amounts.  It is kept
// as an association list in insertion order so that every operation, and in
// particular iteration, is fully deterministic.  Lookups return the first
// entry with the wanted key; absent keys read as zero.

/// First index holding key `k`, or -1 when `k` is absent.
pub open spec fn res_index_of(s: Seq<(Seq<char>, i64)>, k: Seq<char>) -> int
    decreases s.len(),
{
    if s.len() == 0 {
        -1
    } else if s[0].0 == k {
        0
    } else {
        let r = res_index_of(s.drop_first(), k);
        if r == -1 {
            -1
        } else {
            r + 1
        }
    }
}

/// The amount stored under `k`; absent keys read as zero.
pub open spec fn res_get(s: Seq<(Seq<char>, i64)>, k: Seq<char>) -> i64 {
    let i = res_index_of(s, k);
    if i == -1 {
        0
    } else {
        s[i].1
    }
}

/// The table after storing `v` under `k`: the first entry with key `k` is
/// overwritten, or a fresh entry is appended when `k` is absent.
pub open spec fn res_set(s: Seq<(Seq<char>, i64)>, k: Seq<char>, v: i64) -> Seq<(Seq<char>, i64)> {
    let i = res_index_of(s, k);
    if i == -1 {
        s.push((k, v))
    } else {
        s.update(i, (k, v))
    }
}

/// Saturating fixed-point subtraction.
pub open spec fn spec_amount_sub(a: i64, b: i64) -> i64 {
    if a - b > i64::MAX {
        i64::MAX
    } else if a - b < i64::MIN {
        i64::MIN
    } else {
        (a - b) as i64
    }
}

/// The table after adding `d` (which may be negative) to the amount under `k`.
pub open spec fn res_add(s: Seq<(Seq<char>, i64)>, k: Seq<char>, d: i64) -> Seq<(Seq<char>, i64)> {
    res_set(s, k, spec_amount_add(res_get(s, k), d))
}

/// The table after subtracting `a` from the amount under `k`.
pub open spec fn res_sub(s: Seq<(Seq<char>, i64)>, k: Seq<char>, a: i64) -> Seq<(Seq<char>, i64)> {
    res_set(s, k, spec_amount_sub(res_get(s, k), a))
}

/// Saturating fixed-point subtraction, as runtime code.
pub fn amount_sub(a: i64, b: i64) -> (r: i64)
    ensures
        r == spec_amount_sub(a, b),
{
    if b >= 0 {
        if a < i64::MIN + b {
            i64::MIN
        } else {
            a - b
        }
    } else {
        if a > i64::MAX + b {
            i64::MAX
        } else {
            a - b
        }
    }
}

/// The table after subtracting every entry of `subs` in order.
pub open spec fn res_sub_all(
    s: Seq<(Seq<char>, i64)>,
    subs: Seq<(Seq<char>, i64)>,
) -> Seq<(Seq<char>, i64)>
    decreases subs.len(),
{
    if subs.len() == 0 {
        s
    } else {
        res_sub_all(res_sub(s, subs[0].0, subs[0].1), subs.drop_first())
    }
}

/// The table after consuming `a` under `k`, which happens only when at least
/// `a` is stored there.
pub open spec fn res_try_consume(s: Seq<(Seq<char>, i64)>, k: Seq<char>, a: i64) -> Seq<
    (Seq<char>, i64),
> {
    if res_get(s, k) >= a {
        res_sub(s, k, a)
    } else {
        s
    }
}

/// Every entry of `reqs` is covered by the stored amount under its key.
pub open spec fn res_can_consume_all(
    s: Seq<(Seq<char>, i64)>,
    reqs: Seq<(Seq<char>, i64)>,
) -> bool {
    forall|i: int| 0 <= i < reqs.len() ==> res_get(s, #[trigger] reqs[i].0) >= reqs[i].1
}

/// The table after adding every entry of `adds` in order.
pub open spec fn res_add_all(
    s: Seq<(Seq<char>, i64)>,
    adds: Seq<(Seq<char>, i64)>,
) -> Seq<(Seq<char>, i64)>
    decreases adds.len(),
{
    if adds.len() == 0 {
        s
    } else {
        res_add_all(res_add(s, adds[0].0, adds[0].1), adds.drop_first())
    }
}

/// The table after attempting to consume every entry of `reqs` in order.
pub open spec fn res_consume_each(
    s: Seq<(Seq<char>, i64)>,
    reqs: Seq<(Seq<char>, i64)>,
) -> Seq<(Seq<char>, i64)>
    decreases reqs.len(),
{
    if reqs.len() == 0 {
        s
    } else {
        res_consume_each(res_try_consume(s, reqs[0].0, reqs[0].1), reqs.drop_first())
    }
}

/// Basic shape of `res_index_of`: it is -1 exactly when the key is absent,
/// and otherwise points at the first entry with that key.
pub proof fn lemma_res_index_of(s: Seq<(Seq<char>, i64)>, k: Seq<char>)
    ensures
        -1 <= res_index_of(s, k) < s.len(),
        res_index_of(s, k) == -1 ==> forall|j: int| 0 <= j < s.len() ==> (#[trigger] s[j]).0 != k,
        res_index_of(s, k) >= 0 ==> s[res_index_of(s, k)].0 == k,
        res_index_of(s, k) >= 0 ==> forall|j: int|
            0 <= j < res_index_of(s, k) ==> (#[trigger] s[j]).0 != k,
    decreases s.len(),
{
    if s.len() != 0 {
        if s[0].0 == k {
        } else {
            lemma_res_index_of(s.drop_first(), k);
            assert forall|j: int| 1 <= j < s.len() implies s.drop_first()[j - 1] == s[j] by {}
        }
    }
}

/// Storing under one key leaves every key's index unchanged, except that an
/// absent key gains the index at the back.
pub proof fn lemma_res_index_of_set(s: Seq<(Seq<char>, i64)>, k: Seq<char>, v: i64, k2: Seq<char>)
    ensures
        res_index_of(res_set(s, k, v), k2) == (if res_index_of(s, k2) != -1 {
            res_index_of(s, k2)
        } else if k2 == k {
            s.len() as int
        } else {
            -1
        }),
    decreases s.len(),
{
    reveal_with_fuel(res_index_of, 3);
    lemma_res_index_of(s, k);
    lemma_res_index_of(s, k2);
    if s.len() == 0 {
        assert(res_set(s, k, v) =~= s.push((k, v)));
        assert(res_set(s, k, v)[0].0 == k);
        assert(res_index_of(res_set(s, k, v), k) == 0);
        if k2 != k {
            assert(res_set(s, k, v).drop_first() =~= Seq::<(Seq<char>, i64)>::empty());
            assert(res_index_of(res_set(s, k, v), k2) == -1);
        }
        assert(res_index_of(res_set(s, k, v), k2) == (if res_index_of(s, k2) != -1 {
            res_index_of(s, k2)
        } else if k2 == k {
            s.len() as int
        } else {
            -1
        }));
    } else {
        lemma_res_index_of(s.drop_first(), k);
        lemma_res_index_of(s.drop_first(), k2);
        let i = res_index_of(s, k);
        let s2 = res_set(s, k, v);
        if s[0].0 == k {
            assert(s2 =~= s.update(0, (k, v)));
            if k2 == k {
                assert(res_index_of(s, k2) == 0);
                assert(s2[0].0 == k2);
                assert(res_index_of(s2, k2) == 0);
            } else {
                assert(s2[0].0 == k);
                assert(s2.drop_first() =~= s.drop_first());
                let r0 = res_index_of(s.drop_first(), k2);
                assert(res_index_of(s, k2) == (if r0 == -1 {
                    -1
                } else {
                    r0 + 1
                }));
                assert(res_index_of(s2.drop_first(), k2) == r0);
                assert(res_index_of(s2, k2) == (if r0 == -1 {
                    -1
                } else {
                    r0 + 1
                }));
            }
            assert(res_index_of(s2, k2) == (if res_index_of(s, k2) != -1 {
                res_index_of(s, k2)
            } else if k2 == k {
                s.len() as int
            } else {
                -1
            }));
        } else {
            if i == -1 {
                assert(s2 =~= s.push((k, v)));
                assert(s2[0] == s[0]);
                assert(s2.drop_first() =~= s.drop_first().push((k, v)));
                lemma_res_index_of_set(s.drop_first(), k, v, k2);
                assert(res_set(s.drop_first(), k, v) =~= s.drop_first().push((k, v)));
                assert(s2.drop_first() == res_set(s.drop_first(), k, v));
            } else {
                assert(s2 =~= s.update(i, (k, v)));
                assert(s2[0] == s[0]);
                assert(s2.drop_first() =~= s.drop_first().update(i - 1, (k, v)));
                lemma_res_index_of_set(s.drop_first(), k, v, k2);
                assert(res_set(s.drop_first(), k, v) =~= s.drop_first().update(i - 1, (k, v)));
                assert(s2.drop_first() == res_set(s.drop_first(), k, v));
            }
            if s[0].0 == k2 {
                assert(res_index_of(s, k2) == 0);
                assert(s2[0].0 == k2);
                assert(res_index_of(s2, k2) == 0);
            } else {
                let r0 = res_index_of(s.drop_first(), k2);
                let r2 = res_index_of(res_set(s.drop_first(), k, v), k2);
                assert(res_index_of(s, k2) == (if r0 == -1 {
                    -1
                } else {
                    r0 + 1
                }));
                assert(res_index_of(s2, k2) == (if r2 == -1 {
                    -1
                } else {
                    r2 + 1
                }));
                assert(r2 == (if r0 != -1 {
                    r0
                } else if k2 == k {
                    s.drop_first().len() as int
                } else {
                    -1
                }));
            }
        }
    }
}

/// What a lookup reads after a store: the stored value under the stored key,
/// and the old value under every other key.
pub proof fn lemma_res_get_set(s: Seq<(Seq<char>, i64)>, k: Seq<char>, v: i64, k2: Seq<char>)
    ensures
        res_get(res_set(s, k, v), k2) == (if k2 == k {
            v
        } else {
            res_get(s, k2)
        }),
{
    lemma_res_index_of(s, k);
    lemma_res_index_of(s, k2);
    lemma_res_index_of_set(s, k, v, k2);
    let s2 = res_set(s, k, v);
    lemma_res_index_of(s2, k2);
    let i = res_index_of(s, k);
    let i2 = res_index_of(s2, k2);
    if k2 == k {
        if i == -1 {
            assert(s2 == s.push((k, v)));
            assert(s2[i2] == (k, v));
        } else {
            assert(s2 == s.update(i, (k, v)));
            assert(s2[i2] == (k, v));
        }
    } else {
        if i2 != -1 {
            if i == -1 {
                assert(s2 == s.push((k, v)));
                assert(s2[i2] == s[i2]);
            } else {
                assert(s2 == s.update(i, (k, v)));
                assert(i2 != i) by {
                    if i2 == i {
                        assert(s[i].0 == k);
                        assert(s[i2].0 == k2);
                    }
                }
                assert(s2[i2] == s[i2]);
            }
        }
    }
}

/// What a lookup reads after an addition.
pub proof fn lemma_res_get_add(s: Seq<(Seq<char>, i64)>, k: Seq<char>, d: i64, k2: Seq<char>)
    ensures
        res_get(res_add(s, k, d), k2) == (if k2 == k {
            spec_amount_add(res_get(s, k), d)
        } else {
            res_get(s, k2)
        }),
{
    lemma_res_get_set(s, k, spec_amount_add(res_get(s, k), d), k2);
}

/// What a lookup reads after a subtraction.
pub proof fn lemma_res_get_sub(s: Seq<(Seq<char>, i64)>, k: Seq<char>, a: i64, k2: Seq<char>)
    ensures
        res_get(res_sub(s, k, a), k2) == (if k2 == k {
            spec_amount_sub(res_get(s, k), a)
        } else {
            res_get(s, k2)
        }),
{
    lemma_res_get_set(s, k, spec_amount_sub(res_get(s, k), a), k2);
}

/// All resource amounts of the simulation, or one rate table of a production
/// system, entity gift or action effect: names mapped to fixed-point amounts.
#[derive(Clone, Debug)]
pub struct Resources {
    pub entries: Vec<(String, i64)>,
}

impl DeepView for Resources {
    type V = Seq<(Seq<char>, i64)>;

    open spec fn deep_view(&self) -> Seq<(Seq<char>, i64)> {
        self.entries.deep_view()
    }
}

impl Resources {
    /// Create an empty resource table.
    pub fn new() -> (r: Resources)
        ensures
            r.deep_view() == Seq::<(Seq<char>, i64)>::empty(),
    {
        let r = Resources { entries: Vec::new() };
        proof {
            assert(r.deep_view() =~= Seq::<(Seq<char>, i64)>::empty());
        }
        r
    }

    /// Index of the first entry named `key`, if any.
    fn index_of(&self, key: &String) -> (r: Option<usize>)
        ensures
            match r {
                Some(i) => i < self.entries.len() && res_index_of(self.deep_view(), key@) == i,
                None => res_index_of(self.deep_view(), key@) == -1,
            },
    {
        let ghost kv = key@;
        let mut i: usize = 0;
        while i < self.entries.len()
            invariant
                i <= self.entries.len(),
                forall|j: int| 0 <= j < i ==> (#[trigger] self.deep_view()[j]).0 != kv,
                kv == key@,
            decreases self.entries.len() - i,
        {
            if self.entries[i].0 == *key {
                proof {
                    lemma_res_index_of(self.deep_view(), kv);
                    assert(self.deep_view()[i as int].0 == kv);
                }
                return Some(i);
            }
            proof {
                assert(self.deep_view()[i as int].0 != kv);
            }
            i += 1;
        }
        proof {
            lemma_res_index_of(self.deep_view(), kv);
            if res_index_of(self.deep_view(), kv) >= 0 {
                assert(self.deep_view()[res_index_of(self.deep_view(), kv)].0 == kv);
            }
        }
        None
    }

    /// The amount of a resource; absent resources read as zero.
    pub fn get(&self, name: &str) -> (r: i64)
        ensures
            r == res_get(self.deep_view(), name@),
    {
        let key: String = name.to_owned();
        match self.index_of(&key) {
            Some(i) => self.entries[i].1,
            None => 0,
        }
    }

    /// Store `amount` under `name`.
    pub fn set(&mut self, name: &str, amount: i64)
        ensures
            final(self).deep_view() == res_set(old(self).deep_view(), name@, amount),
    {
        let key: String = name.to_owned();
        match self.index_of(&key) {
            Some(i) => {
                self.entries[i].0 = key;
                self.entries[i].1 = amount;
                proof {
                    assert(self.deep_view() =~= res_set(old(self).deep_view(), name@, amount));
                }
            },
            None => {
                self.entries.push((key, amount));
                proof {
                    assert(self.deep_view() =~= res_set(old(self).deep_view(), name@, amount));
                }
            },
        }
    }

    /// Add `delta` (possibly negative) to a resource, clamping at the
    /// representable extremes.
    pub fn add(&mut self, name: &str, delta: i64)
        ensures
            final(self).deep_view() == res_add(old(self).deep_view(), name@, delta),
    {
        let current = self.get(name);
        self.set(name, amount_add(current, delta));
    }

    /// Subtract `amount` from a resource, clamping at the representable
    /// extremes.
    pub fn sub(&mut self, name: &str, amount: i64)
        ensures
            final(self).deep_view() == res_sub(old(self).deep_view(), name@, amount),
    {
        let current = self.get(name);
        let next = if amount >= 0 {
            if current < i64::MIN + amount {
                i64::MIN
            } else {
                current - amount
            }
        } else {
            if current > i64::MAX + amount {
                i64::MAX
            } else {
                current - amount
            }
        };
        self.set(name, next);
    }

    /// Consume `amount` of a resource when enough is stored; report whether
    /// the consumption happened.
    pub fn try_consume(&mut self, name: &str, amount: i64) -> (ok: bool)
        ensures
            ok == (res_get(old(self).deep_view(), name@) >= amount),
            final(self).deep_view() == res_try_consume(old(self).deep_view(), name@, amount),
    {
        let current = self.get(name);
        if current >= amount {
            self.sub(name, amount);
            true
        } else {
            false
        }
    }

    /// Whether at least `amount` of a resource is stored.
    pub fn has(&self, name: &str, amount: i64) -> (r: bool)
        ensures
            r == (res_get(self.deep_view(), name@) >= amount),
    {
        self.get(name) >= amount
    }

    /// Whether every requirement of `requirements` is covered.
    pub fn can_consume_all(&self, requirements: &Resources) -> (r: bool)
        ensures
            r == res_can_consume_all(self.deep_view(), requirements.deep_view()),
    {
        let mut i: usize = 0;
        while i < requirements.entries.len()
            invariant
                i <= requirements.entries.len(),
                forall|j: int|
                    0 <= j < i ==> res_get(
                        self.deep_view(),
                        (#[trigger] requirements.deep_view()[j]).0,
                    ) >= requirements.deep_view()[j].1,
            decreases requirements.entries.len() - i,
        {
            let needed = requirements.entries[i].1;
            if self.get(requirements.entries[i].0.as_str()) < needed {
                proof {
                    assert(res_get(self.deep_view(), requirements.deep_view()[i as int].0)
                        < requirements.deep_view()[i as int].1);
                }
                return false;
            }
            i += 1;
        }
        true
    }

    /// Consume every requirement when all are covered; report whether the
    /// consumption happened.
    pub fn try_consume_all(&mut self, requirements: &Resources) -> (ok: bool)
        ensures
            ok == res_can_consume_all(old(self).deep_view(), requirements.deep_view()),
            ok ==> final(self).deep_view() == res_consume_each(
                old(self).deep_view(),
                requirements.deep_view(),
            ),
            !ok ==> final(self).deep_view() == old(self).deep_view(),
    {
        if !self.can_consume_all(requirements) {
            return false;
        }
        self.consume_each(requirements);
        true
    }

    /// Attempt to consume every entry of `reqs` in order, skipping entries
    /// that are not covered at their turn.
    pub fn consume_each(&mut self, reqs: &Resources)
        ensures
            final(self).deep_view() == res_consume_each(old(self).deep_view(), reqs.deep_view()),
    {
        let ghost rv = reqs.deep_view();
        let ghost s0 = self.deep_view();
        proof {
            assert(rv.skip(0) =~= rv);
        }
        let mut i: usize = 0;
        while i < reqs.entries.len()
            invariant
                i <= reqs.entries.len(),
                rv == reqs.deep_view(),
                res_consume_each(s0, rv) == res_consume_each(self.deep_view(), rv.skip(i as int)),
            decreases reqs.entries.len() - i,
        {
            let ghost before = self.deep_view();
            self.try_consume(reqs.entries[i].0.as_str(), reqs.entries[i].1);
            proof {
                assert(rv.skip(i as int).drop_first() =~= rv.skip(i + 1));
                assert(rv.skip(i as int)[0] == rv[i as int]);
            }
            i += 1;
        }
        proof {
            assert(rv.skip(reqs.entries.len() as int) =~= Seq::<(Seq<char>, i64)>::empty());
        }
    }

    /// Add every entry of `additions` in order.
    pub fn add_all(&mut self, additions: &Resources)
        ensures
            final(self).deep_view() == res_add_all(old(self).deep_view(), additions.deep_view()),
    {
        let ghost av = additions.deep_view();
        let ghost s0 = self.deep_view();
        proof {
            assert(av.skip(0) =~= av);
        }
        let mut i: usize = 0;
        while i < additions.entries.len()
            invariant
                i <= additions.entries.len(),
                av == additions.deep_view(),
                res_add_all(s0, av) == res_add_all(self.deep_view(), av.skip(i as int)),
            decreases additions.entries.len() - i,
        {
            self.add(additions.entries[i].0.as_str(), additions.entries[i].1);
            proof {
                assert(av.skip(i as int).drop_first() =~= av.skip(i + 1));
                assert(av.skip(i as int)[0] == av[i as int]);
            }
            i += 1;
        }
        proof {
            assert(av.skip(additions.entries.len() as int) =~= Seq::<(Seq<char>, i64)>::empty());
        }
    }

    /// Subtract every entry of `subs` in order.
    pub fn sub_all(&mut self, subs: &Resources)
        ensures
            final(self).deep_view() == res_sub_all(old(self).deep_view(), subs.deep_view()),
    {
        let ghost sv = subs.deep_view();
        let ghost s0 = self.deep_view();
        proof {
            assert(sv.skip(0) =~= sv);
        }
        let mut i: usize = 0;
        while i < subs.entries.len()
            invariant
                i <= subs.entries.len(),
                sv == subs.deep_view(),
                res_sub_all(s0, sv) == res_sub_all(self.deep_view(), sv.skip(i as int)),
            decreases subs.entries.len() - i,
        {
            self.sub(subs.entries[i].0.as_str(), subs.entries[i].1);
            proof {
                assert(sv.skip(i as int).drop_first() =~= sv.skip(i + 1));
                assert(sv.skip(i as int)[0] == sv[i as int]);
            }
            i += 1;
        }
        proof {
            assert(sv.skip(subs.entries.len() as int) =~= Seq::<(Seq<char>, i64)>::empty());
        }
    }

    /// Whether the table holds no entry at all.
    pub fn is_empty(&self) -> (r: bool)
        ensures
            r == (self.deep_view().len() == 0),
    {
        self.entries.is_empty()
    }

    /// An exact copy, used to snapshot amounts before a tick's phases run.
    pub fn snapshot(&self) -> (r: Resources)
        ensures
            r.deep_view() == self.deep_view(),
    {
        let mut entries: Vec<(String, i64)> = Vec::new();
        let mut i: usize = 0;
        while i < self.entries.len()
            invariant
                i <= self.entries.len(),
                entries@.len() == i,
                entries.deep_view() == self.deep_view().take(i as int),
            decreases self.entries.len() - i,
        {
            let name: String = self.entries[i].0.clone();
            entries.push((name, self.entries[i].1));
            proof {
                assert(entries@[i as int].deep_view() == self.deep_view()[i as int]);
                assert(entries.deep_view() =~= self.deep_view().take(i + 1));
            }
            i += 1;
        }
        let r = Resources { entries };
        proof {
            assert(self.deep_view().take(self.entries.len() as int) =~= self.deep_view());
        }
        r
    }

    /// How many distinct entries the table holds.
    pub fn len(&self) -> (n: usize)
        ensures
            n == self.deep_view().len(),
    {
        self.entries.len()
    }

    /// The name of the `i`-th entry.
    pub fn name_at(&self, i: usize) -> (r: &String)
        requires
            i < self.deep_view().len(),
        ensures
            r@ == self.deep_view()[i as int].0,
    {
        &self.entries[i].0
    }

    /// The amount of the `i`-th entry.
    pub fn amount_at(&self, i: usize) -> (r: i64)
        requires
            i < self.deep_view().len(),
        ensures
            r == self.deep_view()[i as int].1,
    {
        self.entries[i].1
    }
}

} // verus!
