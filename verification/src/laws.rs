use vstd::prelude::*;

use crate::assoc::{
    assoc_index_of, lemma_assoc_index_of, lemma_assoc_index_of_same_keys,
    lemma_assoc_index_of_update,
};
use crate::constants::{
    spec_thresholds, HUNGER_GAIN_FROM_EATING, HUNGER_THRESHOLD_EAT, ONE_UNIT,
};
use crate::engine::{
    spec_blight_kills, spec_blight_phase, spec_crossings, spec_entity_step, spec_tick,
};
use crate::entity::{DeathCause, EntityM, EntityType, VisitorType};
use crate::events::{EventKindM, EventM};
use crate::graveyard::GraveyardM;
use crate::resource::{
    lemma_res_get_add, lemma_res_get_sub, res_add, res_add_all, res_can_consume_all, res_get,
    res_sub, res_sub_all, spec_amount_sub,
};
use crate::rng::SeededRng;
use crate::state::StateM;
use crate::system::{spec_disable, spec_enable, spec_total_bonus, spec_unexpired, SystemM, SystemRatesM};
use crate::tile::spec_tick_blight;

verus! {

// The engine's load-bearing guarantees, stated once and proved from the
// functional contracts of the tick and its phases.

/// A whole run: the snapshot and bookkeeping after `n` consecutive ticks
/// under one base seed.
pub open spec fn spec_run(s: StateM, seed: u64, last_spawn: u64, last_summon: u64, n: nat) -> (
    StateM,
    u64,
    u64,
)
    decreases n,
{
    if n == 0 {
        (s, last_spawn, last_summon)
    } else {
        let (s1, ls1, lm1, evs) = spec_tick(s, seed, last_spawn, last_summon);
        spec_run(s1, seed, ls1, lm1, (n - 1) as nat)
    }
}

/// Determinism: everything a run of ticks produces — the final snapshot, the
/// engine bookkeeping, and (through `spec_tick`) every tick's event list —
/// is a pure function of the starting snapshot, the base seed and the
/// starting bookkeeping.  Two engines stepped over equal inputs stay equal
/// forever.
pub proof fn lemma_run_deterministic(
    s1: StateM,
    s2: StateM,
    seed1: u64,
    seed2: u64,
    ls1: u64,
    ls2: u64,
    lm1: u64,
    lm2: u64,
    n: nat,
)
    requires
        s1 == s2,
        seed1 == seed2,
        ls1 == ls2,
        lm1 == lm2,
    ensures
        spec_run(s1, seed1, ls1, lm1, n) == spec_run(s2, seed2, ls2, lm2, n),
        spec_tick(s1, seed1, ls1, lm1) == spec_tick(s2, seed2, ls2, lm2),
{
}

/// Eating: an entity that enters its step hungry (below the eating
/// threshold), eats by the generic rule, and finds at least one whole unit
/// of its food in stock, ends the step alive with strictly more hunger, the
/// food stock reduced by exactly one unit, and exactly one "ate" event.
///
/// The preconditions carve out the inputs on which the rules give something
/// else: a hunger drain at or above the meal's gain (the meal cannot win),
/// a hungry-type visitor eating influence (its own rule applies), and an
/// entity that dies of old age this very step.
pub proof fn lemma_entity_eats(e: EntityM, res: Seq<(Seq<char>, i64)>, tick: u64, f: Seq<char>)
    requires
        0 <= e.hunger,
        0 <= e.hunger_rate < HUNGER_GAIN_FROM_EATING,
        spec_amount_sub(e.hunger, e.hunger_rate) < HUNGER_THRESHOLD_EAT,
        e.food == Some(f),
        !(f == "influence"@ && e.subtype() == Some(VisitorType::Hungry)),
        res_get(res, f) >= ONE_UNIT,
        e.age + 1 < e.max_age,
    ensures
        ({
            let (surv, res2, corpses, evs) = spec_entity_step(e, res, tick);
            &&& surv matches Some(e2) && e2.hunger > e.hunger - e.hunger_rate && e2.hunger > 0
            &&& res_get(res2, f) == res_get(res, f) - ONE_UNIT
            &&& corpses.len() == 0
            &&& evs.len() == 1
            &&& evs[0].kind matches EventKindM::EntityAte { entity_id, food, .. } && entity_id
                == e.id && food == f
        }),
{
    let aged = EntityM {
        age: if e.age < u64::MAX {
            (e.age + 1) as u64
        } else {
            u64::MAX
        },
        hunger: spec_amount_sub(e.hunger, e.hunger_rate),
        ..e
    };
    assert(aged.hunger == e.hunger - e.hunger_rate);
    lemma_res_get_sub(res, f, ONE_UNIT, f);
    let (surv, res2, corpses, evs) = spec_entity_step(e, res, tick);
    assert(res_get(res_sub(res, f, ONE_UNIT), f) == res_get(res, f) - ONE_UNIT);
}

/// Starvation: an entity whose hunger is spent by the time its step's death
/// check runs — it entered at or below zero, or its drain finished it and no
/// meal saved it — leaves the live set; an ant is laid in the graveyard with
/// cause `Starvation` and a death event carries the same cause.
pub proof fn lemma_entity_starves(e: EntityM, res: Seq<(Seq<char>, i64)>, tick: u64)
    requires
        ({
            let aged = EntityM {
                age: if e.age < u64::MAX {
                    (e.age + 1) as u64
                } else {
                    u64::MAX
                },
                hunger: spec_amount_sub(e.hunger, e.hunger_rate),
                ..e
            };
            let (fed, r1, ev1) = crate::engine::spec_eat(aged, res, tick);
            fed.hunger <= 0
        }),
        e.entity_type() == EntityType::Ant,
    ensures
        ({
            let (surv, res2, corpses, evs) = spec_entity_step(e, res, tick);
            &&& surv is None
            &&& corpses.len() == 1
            &&& corpses[0].cause == DeathCause::Starvation
            &&& corpses[0].entity_id == e.id
            &&& corpses[0].death_tick == tick
            &&& evs[evs.len() - 1].kind matches EventKindM::EntityDied { entity_id, cause, .. }
                && entity_id == e.id && cause == DeathCause::Starvation
        }),
{
}

/// How many events of a list report the crossing of one given threshold.
pub open spec fn count_crossings_of(evs: Seq<EventM>, t: i64) -> int
    decreases evs.len(),
{
    if evs.len() == 0 {
        0
    } else {
        (if evs[0].kind matches EventKindM::ThresholdCrossed { threshold, .. } && threshold == t {
            1int
        } else {
            0int
        }) + count_crossings_of(evs.drop_first(), t)
    }
}

/// Counting distributes over concatenation.
pub proof fn lemma_count_crossings_concat(a: Seq<EventM>, b: Seq<EventM>, t: i64)
    ensures
        count_crossings_of(a + b, t) == count_crossings_of(a, t) + count_crossings_of(b, t),
    decreases a.len(),
{
    if a.len() == 0 {
        assert(a + b =~= b);
    } else {
        assert((a + b).drop_first() =~= a.drop_first() + b);
        lemma_count_crossings_concat(a.drop_first(), b, t);
    }
}

/// One resource's crossing events against a duplicate-free threshold list:
/// a threshold is reported exactly once when the amount rose across it, and
/// never otherwise.  Since the report depends only on the previous and the
/// current amount, a resource that falls back below a threshold and rises
/// across it again re-fires it.
pub proof fn lemma_crossings_exact(
    name: Seq<char>,
    prev: i64,
    cur: i64,
    ts: Seq<i64>,
    tick: u64,
    t: i64,
)
    requires
        ts.no_duplicates(),
    ensures
        count_crossings_of(spec_crossings(name, prev, cur, ts, tick), t) == (if ts.contains(t)
            && prev < t && cur >= t {
            1int
        } else {
            0int
        }),
    decreases ts.len(),
{
    reveal_with_fuel(count_crossings_of, 3);
    if ts.len() == 0 {
        assert(!ts.contains(t));
    } else {
        let head: Seq<EventM> = if prev < ts[0] && cur >= ts[0] {
            seq![
                EventM {
                    tick: tick,
                    kind: EventKindM::ThresholdCrossed {
                        resource: name,
                        threshold: ts[0],
                        current: cur,
                    },
                },
            ]
        } else {
            Seq::empty()
        };
        let rest = spec_crossings(name, prev, cur, ts.drop_first(), tick);
        assert(ts.drop_first().no_duplicates());
        lemma_crossings_exact(name, prev, cur, ts.drop_first(), tick, t);
        lemma_count_crossings_concat(head, rest, t);
        if prev < ts[0] && cur >= ts[0] {
            assert(head.drop_first() =~= Seq::<EventM>::empty());
            assert(count_crossings_of(head, t) == (if ts[0] == t {
                1int
            } else {
                0int
            }));
        } else {
            assert(count_crossings_of(head, t) == 0);
        }
        if t == ts[0] {
            assert(!ts.drop_first().contains(t)) by {
                if ts.drop_first().contains(t) {
                    let j = choose|j: int|
                        0 <= j < ts.drop_first().len() && ts.drop_first()[j] == t;
                    assert(ts[j + 1] == t);
                }
            }
            assert(ts.contains(t));
        } else {
            assert(ts.contains(t) == ts.drop_first().contains(t)) by {
                if ts.contains(t) {
                    let j = choose|j: int| 0 <= j < ts.len() && ts[j] == t;
                    assert(ts.drop_first()[j - 1] == t);
                }
                if ts.drop_first().contains(t) {
                    let j = choose|j: int|
                        0 <= j < ts.drop_first().len() && ts.drop_first()[j] == t;
                    assert(ts[j + 1] == t);
                }
            }
        }
    }
}

/// Threshold monotonicity over the engine's own threshold list: a resource
/// rising from `prev` to `cur` reports a listed threshold exactly once when
/// `prev < t <= cur`, and not at all otherwise; downward movement reports
/// nothing.
pub proof fn lemma_threshold_monotonicity(
    name: Seq<char>,
    prev: i64,
    cur: i64,
    tick: u64,
    t: i64,
)
    ensures
        count_crossings_of(spec_crossings(name, prev, cur, spec_thresholds(), tick), t) == (
        if spec_thresholds().contains(t) && prev < t && cur >= t {
            1int
        } else {
            0int
        }),
{
    assert(spec_thresholds().no_duplicates()) by {
        assert forall|i: int, j: int|
            0 <= i < spec_thresholds().len() && 0 <= j < spec_thresholds().len() && i
                != j implies spec_thresholds()[i] != spec_thresholds()[j] by {}
    }
    lemma_crossings_exact(name, prev, cur, spec_thresholds(), tick, t);
}

/// Shape of a blight kill sweep: no survivor stands on the compost tile,
/// nobody is lost (every entity survives or becomes a corpse), and every
/// corpse records the blight at this tick.
pub proof fn lemma_blight_kills_shape(es: Seq<EntityM>, tick: u64)
    ensures
        ({
            let (surv, corps, evs) = spec_blight_kills(es, tick);
            &&& forall|j: int| 0 <= j < surv.len() ==> (#[trigger] surv[j]).tile != "compost"@
            &&& surv.len() + corps.len() == es.len()
            &&& evs.len() == corps.len()
            &&& forall|j: int|
                0 <= j < corps.len() ==> (#[trigger] corps[j]).cause == DeathCause::Blight
                    && corps[j].tile == "compost"@ && corps[j].death_tick == tick
        }),
    decreases es.len(),
{
    if es.len() > 0 {
        lemma_blight_kills_shape(es.drop_first(), tick);
    }
}

/// Blight strike: with contamination on an unblighted compost tile and the
/// tick's random roll coming up positive, the blight phase sets the tile
/// blighted for the fixed duration, disables the compost heap with its rate
/// tables saved and its boosts cleared, kills every entity on the tile into
/// the graveyard, and reports the strike first.
pub proof fn lemma_blight_strikes(s: StateM, tick: u64, seed: u64, calls: u64)
    requires
        calls < u64::MAX,
        ({
            let ti = assoc_index_of(s.map.tiles, "compost"@);
            &&& ti != -1
            &&& !s.map.tiles[ti].1.is_blighted()
            &&& s.map.tiles[ti].1.contamination_or_zero() > 0
            &&& SeededRng::spec_chance(seed, calls, s.map.tiles[ti].1.contamination_or_zero())
        }),
    ensures
        ({
            let ti = assoc_index_of(s.map.tiles, "compost"@);
            let si = assoc_index_of(s.systems, "compost_heap"@);
            let (s2, evs, calls2) = spec_blight_phase(s, tick, seed, calls);
            &&& assoc_index_of(s2.map.tiles, "compost"@) == ti
            &&& s2.map.tiles[ti].1.is_blighted()
            &&& s2.map.tiles[ti].1.blight_ticks_remaining == Some(
                crate::constants::BLIGHT_DURATION,
            )
            &&& si != -1 ==> {
                &&& s2.systems[si].1.is_disabled()
                &&& s2.systems[si].1.corpse_boosts.len() == 0
                &&& s2.systems[si].1.rates == spec_disable(s.systems[si].1).rates
            }
            &&& forall|j: int|
                0 <= j < s2.entities.len() ==> (#[trigger] s2.entities[j]).tile != "compost"@
            &&& s2.entities.len() + (s2.graveyard.corpses.len() - s.graveyard.corpses.len())
                == s.entities.len()
            &&& evs.len() >= 1
            &&& evs[0].kind matches EventKindM::BlightStruck { duration_ticks, .. }
                && duration_ticks == crate::constants::BLIGHT_DURATION
            &&& calls2 == calls + 1
        }),
{
    let ti = assoc_index_of(s.map.tiles, "compost"@);
    lemma_assoc_index_of(s.map.tiles, "compost"@);
    let tile = s.map.tiles[ti].1;
    let tile2 = crate::tile::TileM {
        blighted: Some(true),
        blight_ticks_remaining: Some(crate::constants::BLIGHT_DURATION),
        ..tile
    };
    lemma_assoc_index_of_update(s.map.tiles, ti, tile2, "compost"@);
    let tiles1 = s.map.tiles.update(ti, (s.map.tiles[ti].0, tile2));
    assert(assoc_index_of(tiles1, "compost"@) == ti);
    let si = assoc_index_of(s.systems, "compost_heap"@);
    lemma_assoc_index_of(s.systems, "compost_heap"@);
    lemma_blight_kills_shape(s.entities, tick);
    let (s2, evs, calls2) = spec_blight_phase(s, tick, seed, calls);
    if si != -1 {
        let disabled = crate::system::SystemM {
            corpse_boosts: Seq::empty(),
            ..spec_disable(s.systems[si].1)
        };
        lemma_assoc_index_of_update(s.systems, si, disabled, "compost_heap"@);
    }
    assert(assoc_index_of(s2.map.tiles, "compost"@) == ti);
    assert(s2.map.tiles[ti].1.is_blighted());
    assert(s2.map.tiles[ti].1.blight_ticks_remaining == Some(crate::constants::BLIGHT_DURATION));
    if si != -1 {
        assert(s2.systems[si].1.is_disabled());
        assert(s2.systems[si].1.corpse_boosts.len() == 0);
        assert(s2.systems[si].1.rates == spec_disable(s.systems[si].1).rates);
    }
    assert(forall|j: int|
        0 <= j < s2.entities.len() ==> (#[trigger] s2.entities[j]).tile != "compost"@);
    assert(s2.entities.len() + (s2.graveyard.corpses.len() - s.graveyard.corpses.len())
        == s.entities.len());
    assert(evs.len() >= 1);
    assert(evs[0].kind matches EventKindM::BlightStruck { duration_ticks, .. } && duration_ticks
        == crate::constants::BLIGHT_DURATION);
    assert(calls2 == calls + 1);
}

/// Blight clearing: on the tick an active blight runs out, the blight phase
/// clears the tile, resets its contamination to zero, restores the compost
/// heap's saved rate tables verbatim, and reports the clearing.
pub proof fn lemma_blight_clears(s: StateM, tick: u64, seed: u64, calls: u64)
    requires
        ({
            let ti = assoc_index_of(s.map.tiles, "compost"@);
            &&& ti != -1
            &&& s.map.tiles[ti].1.is_blighted()
            &&& spec_tick_blight(s.map.tiles[ti].1).1
        }),
    ensures
        ({
            let ti = assoc_index_of(s.map.tiles, "compost"@);
            let si = assoc_index_of(s.systems, "compost_heap"@);
            let (s2, evs, calls2) = spec_blight_phase(s, tick, seed, calls);
            &&& assoc_index_of(s2.map.tiles, "compost"@) == ti
            &&& !s2.map.tiles[ti].1.is_blighted()
            &&& s2.map.tiles[ti].1.contamination == Some(0i64)
            &&& s2.map.tiles[ti].1.blight_ticks_remaining == Some(0u64)
            &&& si != -1 ==> s2.systems[si].1.rates == spec_enable(s.systems[si].1).rates
            &&& evs =~= seq![
                EventM { tick: tick, kind: EventKindM::BlightCleared { tile: "compost"@ } },
            ]
            &&& calls2 == calls
        }),
{
    let ti = assoc_index_of(s.map.tiles, "compost"@);
    lemma_assoc_index_of(s.map.tiles, "compost"@);
    let tile = s.map.tiles[ti].1;
    let (tile2, cleared) = spec_tick_blight(tile);
    lemma_assoc_index_of_update(s.map.tiles, ti, tile2, "compost"@);
    let si = assoc_index_of(s.systems, "compost_heap"@);
    lemma_assoc_index_of(s.systems, "compost_heap"@);
    let tiles1 = s.map.tiles.update(ti, (s.map.tiles[ti].0, tile2));
    if si != -1 {
        lemma_assoc_index_of_update(s.systems, si, spec_enable(s.systems[si].1), "compost_heap"@);
    }
}

/// The snapshot family of the conservation law: one generator making 0.02
/// dirt per tick and one converter turning 0.005 dirt into 0.01 nutrients
/// per tick, no entities, no pending actions, no compost tile, no queen
/// chamber and no receiver; `d` and `n` are the current dirt and nutrients.
pub open spec fn conservation_scenario(s: StateM, d: i64, n: i64) -> bool {
    &&& s.systems.len() == 2
    &&& s.systems[0].1.rates == (SystemRatesM::Enabled {
        consumes: None,
        generates: Some(seq![("dirt"@, 200i64)]),
    })
    &&& s.systems[0].1.corpse_boosts == Seq::<crate::system::CorpseBoost>::empty()
    &&& s.systems[1].1.rates == (SystemRatesM::Enabled {
        consumes: Some(seq![("dirt"@, 50i64)]),
        generates: Some(seq![("nutrients"@, 100i64)]),
    })
    &&& s.systems[1].1.corpse_boosts == Seq::<crate::system::CorpseBoost>::empty()
    &&& s.resources == seq![("dirt"@, d), ("nutrients"@, n)]
    &&& s.entities.len() == 0
    &&& s.queues.actions.len() == 0
    &&& assoc_index_of(s.map.tiles, "compost"@) == -1
    &&& assoc_index_of(s.systems, "queen_chamber"@) == -1
    &&& assoc_index_of(s.systems, "receiver"@) == -1
}

/// The systems phase of the conservation scenario: the generator and the
/// converter both fire, dirt nets +0.015 and nutrients +0.01, and the
/// system table itself comes back unchanged.
#[verifier::rlimit(100)]
pub proof fn lemma_conservation_systems(
    systems: Seq<(Seq<char>, SystemM)>,
    res0: Seq<(Seq<char>, i64)>,
    d: i64,
    n: i64,
    tick: u64,
)
    requires
        systems.len() == 2,
        systems[0].1.rates == (SystemRatesM::Enabled {
            consumes: None,
            generates: Some(seq![("dirt"@, 200i64)]),
        }),
        systems[0].1.corpse_boosts == Seq::<crate::system::CorpseBoost>::empty(),
        systems[1].1.rates == (SystemRatesM::Enabled {
            consumes: Some(seq![("dirt"@, 50i64)]),
            generates: Some(seq![("nutrients"@, 100i64)]),
        }),
        systems[1].1.corpse_boosts == Seq::<crate::system::CorpseBoost>::empty(),
        res0 == seq![("dirt"@, d), ("nutrients"@, n)],
        50 <= d,
        0 <= n,
        d + 200 <= i64::MAX,
        n + 100 <= i64::MAX,
    ensures
        ({
            let (sys2, res2, ev2) = crate::engine::spec_systems_phase(systems, res0, tick);
            &&& sys2 == systems
            &&& res2 == seq![("dirt"@, (d + 150) as i64), ("nutrients"@, (n + 100) as i64)]
        }),
{
    reveal_with_fuel(crate::resource::res_index_of, 4);
    reveal_with_fuel(crate::engine::spec_collect_ops, 4);
    reveal_with_fuel(crate::engine::spec_apply_ops, 4);
    reveal_with_fuel(crate::resource::res_add_all, 3);
    reveal_with_fuel(crate::resource::res_sub_all, 3);
    assert("dirt"@ != "nutrients"@) by {
        reveal_strlit("dirt");
        reveal_strlit("nutrients");
        assert("dirt"@.len() == 4);
        assert("nutrients"@.len() == 9);
    }
    assert(res_get(res0, "dirt"@) == d);
    assert(res_get(res0, "nutrients"@) == n);
    let sys0 = systems[0].1;
    let sys1 = systems[1].1;
    assert(spec_total_bonus(sys0.corpse_boosts, tick) == 0);
    assert(spec_total_bonus(sys1.corpse_boosts, tick) == 0);
    assert(!sys0.is_disabled() && sys0.can_run(res0));
    assert(res_can_consume_all(res0, seq![("dirt"@, 50i64)])) by {
        assert(res_get(res0, seq![("dirt"@, 50i64)][0].0) >= 50);
    }
    assert(!sys1.is_disabled() && sys1.can_run(res0));
    let ops = crate::engine::spec_collect_ops(systems, res0, tick);
    let op0 = (systems[0].0, Seq::<(Seq<char>, i64)>::empty(), seq![("dirt"@, 200i64)]);
    let op1 = (systems[1].0, seq![("dirt"@, 50i64)], seq![("nutrients"@, 100i64)]);
    assert(systems.drop_first().drop_first() =~= Seq::<(Seq<char>, SystemM)>::empty());
    assert(systems.drop_first()[0] == systems[1]);
    assert(crate::engine::spec_op(systems[0].0, sys0, tick) == (op0.1, op0.2));
    assert(crate::engine::spec_op(systems[1].0, sys1, tick) == (op1.1, op1.2));
    assert(ops =~= seq![op0, op1]);

    let res_a = res_add(res0, "dirt"@, 200);
    lemma_res_get_add(res0, "dirt"@, 200, "dirt"@);
    lemma_res_get_add(res0, "dirt"@, 200, "nutrients"@);
    let res_b = res_sub(res_a, "dirt"@, 50);
    lemma_res_get_sub(res_a, "dirt"@, 50, "dirt"@);
    lemma_res_get_sub(res_a, "dirt"@, 50, "nutrients"@);
    let res_c = res_add(res_b, "nutrients"@, 100);
    lemma_res_get_add(res_b, "nutrients"@, 100, "dirt"@);
    lemma_res_get_add(res_b, "nutrients"@, 100, "nutrients"@);
    assert(res_get(res_c, "dirt"@) == d + 150);
    assert(res_get(res_c, "nutrients"@) == n + 100);

    let (res2, ev2) = crate::engine::spec_apply_ops(ops, res0, tick);
    assert(ops.drop_first().drop_first() =~= Seq::<
        (Seq<char>, Seq<(Seq<char>, i64)>, Seq<(Seq<char>, i64)>),
    >::empty());
    assert(ops.drop_first()[0] == op1);
    assert(res_sub_all(res0, op0.1) == res0);
    assert(op0.2.drop_first() =~= Seq::<(Seq<char>, i64)>::empty());
    assert(op1.1.drop_first() =~= Seq::<(Seq<char>, i64)>::empty());
    assert(op1.2.drop_first() =~= Seq::<(Seq<char>, i64)>::empty());
    assert(res_add_all(res0, op0.2) == res_a);
    assert(res_sub_all(res_a, op1.1) == res_b);
    assert(res_add_all(res_b, op1.2) == res_c);
    assert(res2 == res_c);
    assert(res_a =~= seq![("dirt"@, (d + 200) as i64), ("nutrients"@, n)]);
    assert(res_b =~= seq![("dirt"@, (d + 150) as i64), ("nutrients"@, n)]);
    assert(res_c =~= seq![("dirt"@, (d + 150) as i64), ("nutrients"@, (n + 100) as i64)]);

    let sys_after = crate::engine::spec_expire_all(systems, tick);
    assert(sys_after =~= systems) by {
        assert forall|x: int| 0 <= x < systems.len() implies sys_after[x] == systems[x] by {
            assert(spec_unexpired(systems[x].1.corpse_boosts, tick)
                =~= systems[x].1.corpse_boosts);
        }
    }
}

/// One tick of the conservation scenario: dirt grows by exactly the net
/// 0.015 and nutrients by exactly 0.01, whatever the seed and bookkeeping,
/// and the snapshot stays in the scenario.
#[verifier::rlimit(100)]
pub proof fn lemma_conservation_step(s: StateM, seed: u64, ls: u64, lm: u64, d: i64, n: i64)
    requires
        conservation_scenario(s, d, n),
        50 <= d,
        0 <= n,
        d + 200 <= i64::MAX,
        n + 100 <= i64::MAX,
        s.tick < u64::MAX,
    ensures
        ({
            let (s2, ls2, lm2, evs) = spec_tick(s, seed, ls, lm);
            &&& conservation_scenario(s2, (d + 150) as i64, (n + 100) as i64)
            &&& s2.tick == s.tick + 1
            &&& ls2 == ls
            &&& lm2 == lm
        }),
{
    reveal_with_fuel(crate::resource::res_index_of, 4);
    assert("dirt"@ != "nutrients"@) by {
        reveal_strlit("dirt");
        reveal_strlit("nutrients");
        assert("dirt"@.len() == 4);
        assert("nutrients"@.len() == 9);
    }
    let tick = (s.tick + 1) as u64;
    let s_t = StateM { tick: tick, ..s };
    let res0 = s.resources;
    assert(res_get(res0, "dirt"@) == d);
    assert(res_get(res0, "nutrients"@) == n);

    // Phase 1: the action queue is empty.
    assert(s.queues.actions =~= Seq::<crate::action::ActionM>::empty());
    let (acts1, res1, ev1) = crate::engine::spec_actions_phase(
        s_t.queues.actions,
        s_t.resources,
        tick,
    );
    assert(acts1 =~= s.queues.actions);
    assert(res1 == res0);
    let s1 = StateM {
        resources: res1,
        queues: crate::action::QueuesM { actions: acts1, ..s_t.queues },
        ..s_t
    };
    assert(s1.queues == s.queues);

    // Phase 2: both systems fire against the starting resources.
    lemma_conservation_systems(s1.systems, res0, d, n, tick);
    let (sys_after, res2, ev2) = crate::engine::spec_systems_phase(s1.systems, res0, tick);
    let s2s = StateM { systems: sys_after, resources: res2, ..s1 };

    // Phase 3: no entities.
    assert(s2s.entities =~= Seq::<EntityM>::empty());
    let (ents3, res3, corps3, ev3) = crate::engine::spec_entities_phase(
        s2s.entities,
        s2s.resources,
        tick,
    );
    assert(res3 == res2);
    assert(ents3 =~= s2s.entities);
    assert(s2s.graveyard.corpses + corps3 =~= s2s.graveyard.corpses);
    let s3s = StateM {
        entities: ents3,
        resources: res3,
        graveyard: crate::graveyard::GraveyardM {
            corpses: s2s.graveyard.corpses + corps3,
            ..s2s.graveyard
        },
        ..s2s
    };
    assert(s3s.graveyard == s2s.graveyard);

    // Phase 4: no compost tile, no entities.
    let (s4s, ev4) = crate::engine::spec_undertakers_phase(s3s, tick);
    assert(s4s == s3s);

    // Phase 5: no compost tile.
    let (s5s, ev5, c5) = spec_blight_phase(s3s, tick, SeededRng::spec_tick_seed(seed, tick), 0);
    assert(s5s == s3s && c5 == 0);

    // Phase 6: no queen chamber.
    assert(assoc_index_of(s5s.systems, "queen_chamber"@) == -1);
    let (s6s, ls6, c6, ev6) = crate::engine::spec_queen_phase(
        s5s,
        ls,
        tick,
        SeededRng::spec_tick_seed(seed, tick),
        c5,
    );
    assert(s6s == s5s && ls6 == ls);

    // Phase 7: no receiver.
    assert(assoc_index_of(s6s.systems, "receiver"@) == -1);
    let (s7s, lm7, c7, ev7) = crate::engine::spec_receiver_phase(
        s6s,
        lm,
        tick,
        SeededRng::spec_tick_seed(seed, tick),
        c6,
    );
    assert(s7s == s6s && lm7 == lm);

    // Phase 8: no visitors.
    let (res8, ev8) = crate::engine::spec_visitors_phase(s7s.entities, s7s.resources, tick);
    assert(res8 == s7s.resources);
    let s8s = StateM { resources: res8, ..s7s };

    // Phases 9 and 10 leave the scenario fields alone.
    let (s10s, ev10) = crate::engine::spec_boredom_phase(s8s, tick);
    assert(s10s.resources == s8s.resources);
    assert(s10s.systems == s8s.systems);
    assert(s10s.entities == s8s.entities);
    assert(s10s.map == s8s.map);
    assert(s10s.queues == s8s.queues);
    assert(s10s.tick == tick);

    let (s2r, ls2, lm2, evs) = spec_tick(s, seed, ls, lm);
    assert(s2r == s10s);
    assert(conservation_scenario(s2r, (d + 150) as i64, (n + 100) as i64));
}

/// Conservation under known rates: starting from `d` dirt and `n` nutrients,
/// `t` ticks of the conservation scenario end with exactly `d + 0.015 t`
/// dirt and `n + 0.01 t` nutrients, for every seed and bookkeeping — the
/// generator and converter never miss a tick as long as dirt covers the
/// converter's draw.
pub proof fn lemma_resource_conservation(
    s: StateM,
    seed: u64,
    ls: u64,
    lm: u64,
    d: i64,
    n: i64,
    t: nat,
)
    requires
        conservation_scenario(s, d, n),
        50 <= d,
        0 <= n,
        d + 200 + 150 * t <= i64::MAX,
        n + 100 + 100 * t <= i64::MAX,
        s.tick + t <= u64::MAX,
    ensures
        ({
            let (s2, ls2, lm2) = spec_run(s, seed, ls, lm, t);
            &&& conservation_scenario(s2, (d + 150 * t) as i64, (n + 100 * t) as i64)
            &&& res_get(s2.resources, "dirt"@) == d + 150 * t
            &&& res_get(s2.resources, "nutrients"@) == n + 100 * t
        }),
    decreases t,
{
    reveal_with_fuel(crate::resource::res_index_of, 4);
    assert("dirt"@ != "nutrients"@) by {
        reveal_strlit("dirt");
        reveal_strlit("nutrients");
        assert("dirt"@.len() == 4);
        assert("nutrients"@.len() == 9);
    }
    if t == 0 {
        assert(res_get(s.resources, "dirt"@) == d);
        assert(res_get(s.resources, "nutrients"@) == n);
    } else {
        lemma_conservation_step(s, seed, ls, lm, d, n);
        let (s1, ls1, lm1, evs) = spec_tick(s, seed, ls, lm);
        lemma_resource_conservation(
            s1,
            seed,
            ls1,
            lm1,
            (d + 150) as i64,
            (n + 100) as i64,
            (t - 1) as nat,
        );
        assert(d + 150 + 150 * (t - 1) == d + 150 * t) by (nonlinear_arith);
        assert(n + 100 + 100 * (t - 1) == n + 100 * t) by (nonlinear_arith);
    }
}

/// One full tick with an active blight that is not yet running out: every
/// phase leaves the blighted compost tile alone except the blight phase,
/// which only runs the counter down; the compost heap's rate tables are not
/// touched.
pub proof fn lemma_blight_tick_down(s: StateM, seed: u64, ls: u64, lm: u64)
    requires
        s.tick < u64::MAX,
        ({
            let ti = assoc_index_of(s.map.tiles, "compost"@);
            &&& ti != -1
            &&& s.map.tiles[ti].1.is_blighted()
            &&& (match s.map.tiles[ti].1.blight_ticks_remaining {
                Some(r) => r >= 2,
                None => false,
            })
        }),
    ensures
        ({
            let ti = assoc_index_of(s.map.tiles, "compost"@);
            let si = assoc_index_of(s.systems, "compost_heap"@);
            let r = s.map.tiles[ti].1.blight_ticks_remaining->Some_0;
            let (s2, ls2, lm2, evs) = spec_tick(s, seed, ls, lm);
            &&& s2.tick == s.tick + 1
            &&& assoc_index_of(s2.map.tiles, "compost"@) == ti
            &&& s2.map.tiles[ti].1.is_blighted()
            &&& s2.map.tiles[ti].1.blight_ticks_remaining == Some((r - 1) as u64)
            &&& s2.map.tiles[ti].1.contamination == s.map.tiles[ti].1.contamination
            &&& assoc_index_of(s2.systems, "compost_heap"@) == si
            &&& si != -1 ==> s2.systems[si].1.rates == s.systems[si].1.rates
        }),
{
    let ti = assoc_index_of(s.map.tiles, "compost"@);
    let si = assoc_index_of(s.systems, "compost_heap"@);
    lemma_assoc_index_of(s.map.tiles, "compost"@);
    lemma_assoc_index_of(s.systems, "compost_heap"@);
    let tick = (s.tick + 1) as u64;
    let (s2, ls2, lm2, evs) = spec_tick(s, seed, ls, lm);

    let s_t = StateM { tick: tick, ..s };
    let (acts1, res1, ev1) = crate::engine::spec_actions_phase(
        s_t.queues.actions,
        s_t.resources,
        tick,
    );
    let s1 = StateM {
        resources: res1,
        queues: crate::action::QueuesM { actions: acts1, ..s_t.queues },
        ..s_t
    };
    let (sys2, res2, ev2) = crate::engine::spec_systems_phase(s1.systems, s1.resources, tick);
    let s2s = StateM { systems: sys2, resources: res2, ..s1 };
    assert(sys2.len() == s.systems.len());
    assert(forall|i: int| 0 <= i < sys2.len() ==> (#[trigger] sys2[i]).0 == s.systems[i].0);
    assert(forall|i: int| 0 <= i < sys2.len() ==> (#[trigger] sys2[i]).1.rates == s.systems[i].1.rates);
    lemma_assoc_index_of_same_keys(sys2, s.systems, "compost_heap"@);
    assert(assoc_index_of(s2s.systems, "compost_heap"@) == si);

    let (ents3, res3, corps3, ev3) = crate::engine::spec_entities_phase(
        s2s.entities,
        s2s.resources,
        tick,
    );
    let s3s = StateM {
        entities: ents3,
        resources: res3,
        graveyard: GraveyardM { corpses: s2s.graveyard.corpses + corps3, ..s2s.graveyard },
        ..s2s
    };
    assert(s3s.map == s.map);

    // The blighted compost tile makes the undertaker phase a no-op.
    let (s4s, ev4) = crate::engine::spec_undertakers_phase(s3s, tick);
    assert(s4s == s3s);

    // The blight phase only runs the counter down.
    let tile = s.map.tiles[ti].1;
    let (tile2, cleared) = spec_tick_blight(tile);
    assert(!cleared);
    let (s5s, ev5, c5) = spec_blight_phase(s4s, tick, SeededRng::spec_tick_seed(seed, tick), 0);
    lemma_assoc_index_of_update(s.map.tiles, ti, tile2, "compost"@);
    assert(s5s.map.tiles == s.map.tiles.update(ti, (s.map.tiles[ti].0, tile2)));
    assert(assoc_index_of(s5s.map.tiles, "compost"@) == ti);
    assert(s5s.systems == s4s.systems);

    // The queen and receiver phases never touch the map or the systems'
    // rate tables.
    let (s6s, ls6, c6, ev6) = crate::engine::spec_queen_phase(
        s5s,
        ls,
        tick,
        SeededRng::spec_tick_seed(seed, tick),
        c5,
    );
    assert(s6s.map == s5s.map && s6s.systems == s5s.systems);
    let (s7s, lm7, c7, ev7) = crate::engine::spec_receiver_phase(
        s6s,
        lm,
        tick,
        SeededRng::spec_tick_seed(seed, tick),
        c6,
    );
    assert(s7s.map == s6s.map && s7s.systems == s6s.systems);
    let (res8, ev8) = crate::engine::spec_visitors_phase(s7s.entities, s7s.resources, tick);
    let s8s = StateM { resources: res8, ..s7s };
    let (s10s, ev10) = crate::engine::spec_boredom_phase(s8s, tick);
    assert(s10s.map == s5s.map && s10s.systems == s5s.systems);
    assert(s2 == s10s);
}

/// One full tick with an active blight on its last turn: the tile clears,
/// its contamination resets, and the compost heap's saved tables come back
/// verbatim.
pub proof fn lemma_blight_tick_clear(s: StateM, seed: u64, ls: u64, lm: u64)
    requires
        s.tick < u64::MAX,
        ({
            let ti = assoc_index_of(s.map.tiles, "compost"@);
            &&& ti != -1
            &&& s.map.tiles[ti].1.is_blighted()
            &&& (match s.map.tiles[ti].1.blight_ticks_remaining {
                Some(r) => r <= 1,
                None => true,
            })
        }),
    ensures
        ({
            let ti = assoc_index_of(s.map.tiles, "compost"@);
            let si = assoc_index_of(s.systems, "compost_heap"@);
            let (s2, ls2, lm2, evs) = spec_tick(s, seed, ls, lm);
            &&& s2.tick == s.tick + 1
            &&& assoc_index_of(s2.map.tiles, "compost"@) == ti
            &&& !s2.map.tiles[ti].1.is_blighted()
            &&& s2.map.tiles[ti].1.contamination == Some(0i64)
            &&& s2.map.tiles[ti].1.blight_ticks_remaining == Some(0u64)
            &&& assoc_index_of(s2.systems, "compost_heap"@) == si
            &&& si != -1 ==> s2.systems[si].1.rates == spec_enable(
                crate::system::SystemM { rates: s.systems[si].1.rates, ..s.systems[si].1 },
            ).rates
        }),
{
    let ti = assoc_index_of(s.map.tiles, "compost"@);
    let si = assoc_index_of(s.systems, "compost_heap"@);
    lemma_assoc_index_of(s.map.tiles, "compost"@);
    lemma_assoc_index_of(s.systems, "compost_heap"@);
    let tick = (s.tick + 1) as u64;
    let (s2, ls2, lm2, evs) = spec_tick(s, seed, ls, lm);

    let s_t = StateM { tick: tick, ..s };
    let (acts1, res1, ev1) = crate::engine::spec_actions_phase(
        s_t.queues.actions,
        s_t.resources,
        tick,
    );
    let s1 = StateM {
        resources: res1,
        queues: crate::action::QueuesM { actions: acts1, ..s_t.queues },
        ..s_t
    };
    let (sys2, res2, ev2) = crate::engine::spec_systems_phase(s1.systems, s1.resources, tick);
    let s2s = StateM { systems: sys2, resources: res2, ..s1 };
    assert(sys2.len() == s.systems.len());
    assert(forall|i: int| 0 <= i < sys2.len() ==> (#[trigger] sys2[i]).0 == s.systems[i].0);
    assert(forall|i: int| 0 <= i < sys2.len() ==> (#[trigger] sys2[i]).1.rates == s.systems[i].1.rates);
    lemma_assoc_index_of_same_keys(sys2, s.systems, "compost_heap"@);

    let (ents3, res3, corps3, ev3) = crate::engine::spec_entities_phase(
        s2s.entities,
        s2s.resources,
        tick,
    );
    let s3s = StateM {
        entities: ents3,
        resources: res3,
        graveyard: GraveyardM { corpses: s2s.graveyard.corpses + corps3, ..s2s.graveyard },
        ..s2s
    };
    assert(s3s.map == s.map);

    let (s4s, ev4) = crate::engine::spec_undertakers_phase(s3s, tick);
    assert(s4s == s3s);

    // The blight clears and the compost heap is restored.
    let tile = s.map.tiles[ti].1;
    let (tile2, cleared) = spec_tick_blight(tile);
    assert(cleared);
    let (s5s, ev5, c5) = spec_blight_phase(s4s, tick, SeededRng::spec_tick_seed(seed, tick), 0);
    lemma_assoc_index_of_update(s.map.tiles, ti, tile2, "compost"@);
    let tiles1 = s.map.tiles.update(ti, (s.map.tiles[ti].0, tile2));
    assert(assoc_index_of(tiles1, "compost"@) == ti);
    let sysk = assoc_index_of(s3s.systems, "compost_heap"@);
    assert(sysk == si);
    if si != -1 {
        lemma_assoc_index_of_update(s3s.systems, si, spec_enable(s3s.systems[si].1), "compost_heap"@);
        assert(s5s.systems[si].1 == spec_enable(s3s.systems[si].1));
        assert(s3s.systems[si].1.rates == s.systems[si].1.rates);
        assert(spec_enable(s3s.systems[si].1).rates == spec_enable(
            crate::system::SystemM { rates: s.systems[si].1.rates, ..s.systems[si].1 },
        ).rates);
    }
    assert(assoc_index_of(s5s.map.tiles, "compost"@) == ti);
    assert(sys_keys_match(s5s.systems, s.systems));

    let (s6s, ls6, c6, ev6) = crate::engine::spec_queen_phase(
        s5s,
        ls,
        tick,
        SeededRng::spec_tick_seed(seed, tick),
        c5,
    );
    assert(s6s.map == s5s.map && s6s.systems == s5s.systems);
    let (s7s, lm7, c7, ev7) = crate::engine::spec_receiver_phase(
        s6s,
        lm,
        tick,
        SeededRng::spec_tick_seed(seed, tick),
        c6,
    );
    assert(s7s.map == s6s.map && s7s.systems == s6s.systems);
    let (res8, ev8) = crate::engine::spec_visitors_phase(s7s.entities, s7s.resources, tick);
    let s8s = StateM { resources: res8, ..s7s };
    let (s10s, ev10) = crate::engine::spec_boredom_phase(s8s, tick);
    assert(s10s.map == s5s.map && s10s.systems == s5s.systems);
    assert(s2 == s10s);
    if si != -1 {
        lemma_assoc_index_of_same_keys(s5s.systems, s.systems, "compost_heap"@);
    }
}

/// Keys of two system tables match pointwise.
pub open spec fn sys_keys_match(
    a: Seq<(Seq<char>, crate::system::SystemM)>,
    b: Seq<(Seq<char>, crate::system::SystemM)>,
) -> bool {
    a.len() == b.len() && forall|i: int| 0 <= i < a.len() ==> (#[trigger] a[i]).0 == b[i].0
}

/// Blight lifecycle, the waiting half: once blight is active with `r` turns
/// remaining, it holds for `r - 1` further ticks and then clears on the
/// `r`-th, with contamination reset to zero and the compost heap's saved
/// rate tables restored verbatim.
pub proof fn lemma_blight_lifecycle(s: StateM, seed: u64, ls: u64, lm: u64, r: u64)
    requires
        ({
            let ti = assoc_index_of(s.map.tiles, "compost"@);
            &&& ti != -1
            &&& s.map.tiles[ti].1.is_blighted()
            &&& s.map.tiles[ti].1.blight_ticks_remaining == Some(r)
            &&& r >= 1
        }),
        s.tick + r <= u64::MAX,
    ensures
        ({
            let ti = assoc_index_of(s.map.tiles, "compost"@);
            let si = assoc_index_of(s.systems, "compost_heap"@);
            let (s2, ls2, lm2) = spec_run(s, seed, ls, lm, r as nat);
            &&& s2.tick == s.tick + r
            &&& assoc_index_of(s2.map.tiles, "compost"@) == ti
            &&& !s2.map.tiles[ti].1.is_blighted()
            &&& s2.map.tiles[ti].1.contamination == Some(0i64)
            &&& s2.map.tiles[ti].1.blight_ticks_remaining == Some(0u64)
            &&& assoc_index_of(s2.systems, "compost_heap"@) == si
            &&& si != -1 ==> s2.systems[si].1.rates == spec_enable(
                crate::system::SystemM { rates: s.systems[si].1.rates, ..s.systems[si].1 },
            ).rates
        }),
    decreases r,
{
    let ti = assoc_index_of(s.map.tiles, "compost"@);
    let si = assoc_index_of(s.systems, "compost_heap"@);
    let (s1, ls1, lm1, evs) = spec_tick(s, seed, ls, lm);
    if r == 1 {
        lemma_blight_tick_clear(s, seed, ls, lm);
        assert(spec_run(s, seed, ls, lm, 1) == spec_run(s1, seed, ls1, lm1, 0));
    } else {
        lemma_blight_tick_down(s, seed, ls, lm);
        lemma_blight_lifecycle(s1, seed, ls1, lm1, (r - 1) as u64);
        assert(s1.systems[si].1.rates == s.systems[si].1.rates || si == -1);
        if si != -1 {
            assert(spec_enable(
                crate::system::SystemM { rates: s1.systems[si].1.rates, ..s1.systems[si].1 },
            ).rates == spec_enable(
                crate::system::SystemM { rates: s.systems[si].1.rates, ..s.systems[si].1 },
            ).rates);
        }
    }
}

} // verus!
