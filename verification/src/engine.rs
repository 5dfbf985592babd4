use vstd::prelude::*;

use crate::action::{ActionM, QueuesM};
use crate::constants::{
    spec_amount_add, BLIGHT_DURATION, CONTAMINATION_PER_CORPSE, CORPSE_BOOST_DURATION,
    CORPSE_NUTRIENT_BOOST, CORPSE_PROCESSING_TICKS, HUNGER_GAIN_FROM_EATING, HUNGER_THRESHOLD_EAT,
    HUNGRY_HUNGER_GAIN, HUNGRY_INFLUENCE_CONSUME, HUNGRY_STRANGE_MATTER_PRODUCE, MAX_HUNGER,
    ONE_UNIT,
};
use crate::entity::{AntRole, Entity, EntityKind, EntityKindM, EntityM, EntityType, VisitorType};
use crate::events::{EventKind, EventKindM, EventM, TickEvents};
use crate::assoc::{assoc_index_of, lemma_assoc_index_of};
use crate::entity::DeathCause;
use crate::graveyard::{CorpseM, GraveyardM};
use crate::rng::SeededRng;
use crate::system::CorpseBoost;
use crate::tile::{spec_raised_contamination, spec_tick_blight, MapM, TileM};
use crate::resource::{
    amount_sub, res_add, res_add_all, res_get, res_sub, res_sub_all, spec_amount_sub, Resources,
};
use crate::state::{opaque_untouched, GameState, StateM};
use crate::system::{spec_total_bonus, spec_unexpired, SystemM, SystemRates};

verus! {

// ---------------------------------------------------------------------------
// Phase 1: the action queue.
//
// Every queued action counts down; one that reaches its final tick is
// removed, its resource effects are applied, and a completion event is
// emitted.

/// What one queued action does this tick: either it completes (applying its
/// effects and emitting an event) or it keeps waiting with one tick less
/// remaining.
pub open spec fn spec_action_step(a: ActionM, res: Seq<(Seq<char>, i64)>, tick: u64) -> (
    Option<ActionM>,
    Seq<(Seq<char>, i64)>,
    Seq<EventM>,
) {
    if a.ticks_remaining <= 1 {
        let res2 = match a.effects {
            Some(eff) => match eff.resources {
                Some(r) => res_add_all(res, r),
                None => res,
            },
            None => res,
        };
        (
            None,
            res2,
            seq![
                EventM {
                    tick: tick,
                    kind: EventKindM::ActionComplete {
                        action_id: a.id,
                        action_type: a.action_type,
                    },
                },
            ],
        )
    } else {
        (
            Some(ActionM { ticks_remaining: (a.ticks_remaining - 1) as u64, ..a }),
            res,
            Seq::empty(),
        )
    }
}

/// The whole action phase: every action steps once, in queue order.
pub open spec fn spec_actions_phase(
    actions: Seq<ActionM>,
    res: Seq<(Seq<char>, i64)>,
    tick: u64,
) -> (Seq<ActionM>, Seq<(Seq<char>, i64)>, Seq<EventM>)
    decreases actions.len(),
{
    if actions.len() == 0 {
        (Seq::empty(), res, Seq::empty())
    } else {
        let (kept, res1, ev1) = spec_action_step(actions[0], res, tick);
        let (rest, res2, ev2) = spec_actions_phase(actions.drop_first(), res1, tick);
        let head: Seq<ActionM> = match kept {
            Some(a) => seq![a],
            None => Seq::empty(),
        };
        (head + rest, res2, ev1 + ev2)
    }
}

/// Run the action phase on the snapshot.
fn process_actions(state: &mut GameState, events: &mut TickEvents)
    ensures
        ({
            let (acts, res, evs) = spec_actions_phase(
                old(state).m().queues.actions,
                old(state).m().resources,
                old(state).m().tick,
            );
            &&& final(state).m() == (StateM {
                resources: res,
                queues: QueuesM { actions: acts, ..old(state).m().queues },
                ..old(state).m()
            })
            &&& final(events).deep_view() == old(events).deep_view() + evs
            &&& opaque_untouched(*old(state), *final(state))
        }),
{
    let tick = state.tick;
    let ghost s0 = state.m();
    let ghost ev0 = events.deep_view();
    let ghost meta0 = state.meta;
    let ghost qev0 = state.queues.events@;

    let mut pending: Vec<crate::action::Action> = Vec::new();
    core::mem::swap(&mut pending, &mut state.queues.actions);
    let ghost pv = pending.deep_view();
    proof {
        assert(pv =~= s0.queues.actions);
        assert(pv.skip(0) =~= pv);
    }

    let mut remaining: Vec<crate::action::Action> = Vec::new();
    let ghost mut emitted: Seq<EventM> = Seq::empty();
    proof {
        assert(Seq::<EventM>::empty() + spec_actions_phase(pv, s0.resources, tick).2
            =~= spec_actions_phase(pv, s0.resources, tick).2);
        assert(Seq::<ActionM>::empty() + spec_actions_phase(pv, s0.resources, tick).0
            =~= spec_actions_phase(pv, s0.resources, tick).0);
        assert(remaining.deep_view() =~= Seq::<ActionM>::empty());
        assert(ev0 + emitted =~= ev0);
    }
    let mut i: usize = 0;
    while i < pending.len()
        invariant
            i <= pending.len(),
            pv == pending.deep_view(),
            tick == s0.tick,
            state.tick == s0.tick,
            state.systems.deep_view() == s0.systems,
            state.entities.deep_view() == s0.entities,
            state.map.deep_view() == s0.map,
            state.queues.m().actions.len() == 0,
            state.queues.events@ == qev0,
            state.meta == meta0,
            state.graveyard.deep_view() == s0.graveyard,
            state.last_save_timestamp == s0.last_save_timestamp,
            events.deep_view() == ev0 + emitted,
            ({
                let whole = spec_actions_phase(pv, s0.resources, tick);
                let rest = spec_actions_phase(pv.skip(i as int), state.resources.deep_view(), tick);
                &&& whole.0 == remaining.deep_view() + rest.0
                &&& whole.1 == rest.1
                &&& whole.2 == emitted + rest.2
            }),
        decreases pending.len() - i,
    {
        proof {
            assert(pv.skip(i as int).drop_first() =~= pv.skip(i + 1));
            assert(pv.skip(i as int)[0] == pv[i as int]);
        }
        let ghost pre_remaining = remaining.deep_view();
        let ghost pre_res = state.resources.deep_view();
        let ghost pre_emitted = emitted;

        let complete = pending[i].ticks_remaining <= 1;
        if complete {
            events.push(
                tick,
                EventKind::ActionComplete {
                    action_id: pending[i].id.clone(),
                    action_type: pending[i].action_type.clone(),
                },
            );
            proof {
                emitted = emitted + seq![
                    EventM {
                        tick: tick,
                        kind: EventKindM::ActionComplete {
                            action_id: pv[i as int].id,
                            action_type: pv[i as int].action_type,
                        },
                    },
                ];
                assert(events.deep_view() =~= ev0 + emitted);
            }
            match &pending[i].effects {
                Some(eff) => match &eff.resources {
                    Some(r) => {
                        state.resources.add_all(r);
                    },
                    None => {},
                },
                None => {},
            }
        } else {
            let mut kept = pending[i].duplicate();
            kept.ticks_remaining = kept.ticks_remaining - 1;
            remaining.push(kept);
            proof {
                assert(remaining.deep_view() =~= pre_remaining.push(
                    ActionM { ticks_remaining: (pv[i as int].ticks_remaining - 1) as u64, ..pv[i as int] },
                ));
            }
        }
        proof {
            let whole = spec_actions_phase(pv, s0.resources, tick);
            let (kept_m, res1, ev1) = spec_action_step(pv[i as int], pre_res, tick);
            let rest_pre = spec_actions_phase(pv.skip(i as int), pre_res, tick);
            let rest_post = spec_actions_phase(pv.skip(i + 1), state.resources.deep_view(), tick);
            if complete {
                assert(state.resources.deep_view() == res1);
            } else {
                assert(state.resources.deep_view() == res1);
            }
            assert(rest_pre.0 == (match kept_m {
                Some(a) => seq![a],
                None => Seq::<ActionM>::empty(),
            }) + rest_post.0);
            assert(rest_pre.1 == rest_post.1);
            assert(rest_pre.2 == ev1 + rest_post.2);
            assert(remaining.deep_view() + rest_post.0 =~= pre_remaining + rest_pre.0);
            assert(emitted + rest_post.2 =~= pre_emitted + rest_pre.2);
        }
        i += 1;
    }
    proof {
        assert(pv.skip(pending.len() as int) =~= Seq::<ActionM>::empty());
    }
    state.queues.actions = remaining;
    proof {
        let whole = spec_actions_phase(pv, s0.resources, tick);
        assert(remaining.deep_view() + spec_actions_phase(
            pv.skip(pending.len() as int),
            state.resources.deep_view(),
            tick,
        ).0 =~= remaining.deep_view());
        assert(emitted + spec_actions_phase(
            pv.skip(pending.len() as int),
            state.resources.deep_view(),
            tick,
        ).2 =~= emitted);
        assert(state.m() == (StateM {
            resources: whole.1,
            queues: QueuesM { actions: whole.0, ..s0.queues },
            ..s0
        }));
    }
}

// ---------------------------------------------------------------------------
// Phase 2: production systems.
//
// Every enabled system whose consumption requirements are covered by the
// resources as they stood at the start of the phase fires once: it consumes
// and generates its per-tick amounts, the compost heap with its current
// corpse-boost bonus added.  Expired corpse boosts are then pruned.

/// The operation one system would perform: its consumption table and its
/// generation table, the latter with the corpse bonus folded in for the
/// compost heap.
pub open spec fn spec_op(id: Seq<char>, sys: SystemM, tick: u64) -> (
    Seq<(Seq<char>, i64)>,
    Seq<(Seq<char>, i64)>,
) {
    let consumes = match sys.live_consumes() {
        Some(c) => c,
        None => Seq::empty(),
    };
    let generates0 = match sys.live_generates() {
        Some(g) => g,
        None => Seq::empty(),
    };
    let bonus = spec_total_bonus(sys.corpse_boosts, tick);
    let generates = if id == "compost_heap"@ && bonus > 0 {
        res_add(generates0, "nutrients"@, bonus)
    } else {
        generates0
    };
    (consumes, generates)
}

/// The operations of all systems that may fire, in table order, judged
/// against the resources as they stood when the phase began.
pub open spec fn spec_collect_ops(
    systems: Seq<(Seq<char>, SystemM)>,
    res: Seq<(Seq<char>, i64)>,
    tick: u64,
) -> Seq<(Seq<char>, Seq<(Seq<char>, i64)>, Seq<(Seq<char>, i64)>)>
    decreases systems.len(),
{
    if systems.len() == 0 {
        Seq::empty()
    } else {
        let head: Seq<(Seq<char>, Seq<(Seq<char>, i64)>, Seq<(Seq<char>, i64)>)> = if !systems[0].1.is_disabled()
            && systems[0].1.can_run(res) {
            let (c, g) = spec_op(systems[0].0, systems[0].1, tick);
            seq![(systems[0].0, c, g)]
        } else {
            Seq::empty()
        };
        head + spec_collect_ops(systems.drop_first(), res, tick)
    }
}

/// Applying the collected operations in order: consume, generate, and report
/// each system that had any declared amounts.
pub open spec fn spec_apply_ops(
    ops: Seq<(Seq<char>, Seq<(Seq<char>, i64)>, Seq<(Seq<char>, i64)>)>,
    res: Seq<(Seq<char>, i64)>,
    tick: u64,
) -> (Seq<(Seq<char>, i64)>, Seq<EventM>)
    decreases ops.len(),
{
    if ops.len() == 0 {
        (res, Seq::empty())
    } else {
        let op = ops[0];
        let res1 = res_sub_all(res, op.1);
        let res2 = res_add_all(res1, op.2);
        let ev: Seq<EventM> = if op.1.len() != 0 || op.2.len() != 0 {
            seq![
                EventM {
                    tick: tick,
                    kind: EventKindM::SystemProduced {
                        system_id: op.0,
                        produced: op.2,
                        consumed: op.1,
                    },
                },
            ]
        } else {
            Seq::empty()
        };
        let (res3, evs) = spec_apply_ops(ops.drop_first(), res2, tick);
        (res3, ev + evs)
    }
}

/// All systems with their expired corpse boosts pruned.
pub open spec fn spec_expire_all(
    systems: Seq<(Seq<char>, SystemM)>,
    tick: u64,
) -> Seq<(Seq<char>, SystemM)> {
    systems.map_values(
        |p: (Seq<char>, SystemM)|
            (p.0, SystemM { corpse_boosts: spec_unexpired(p.1.corpse_boosts, tick), ..p.1 }),
    )
}

/// The whole systems phase.
pub open spec fn spec_systems_phase(
    systems: Seq<(Seq<char>, SystemM)>,
    res: Seq<(Seq<char>, i64)>,
    tick: u64,
) -> (Seq<(Seq<char>, SystemM)>, Seq<(Seq<char>, i64)>, Seq<EventM>) {
    let ops = spec_collect_ops(systems, res, tick);
    let (res2, evs) = spec_apply_ops(ops, res, tick);
    (spec_expire_all(systems, tick), res2, evs)
}

/// Run the systems phase on the snapshot.
fn process_systems(state: &mut GameState, events: &mut TickEvents)
    ensures
        ({
            let (sys2, res2, evs) = spec_systems_phase(
                old(state).m().systems,
                old(state).m().resources,
                old(state).m().tick,
            );
            &&& final(state).m() == (StateM { systems: sys2, resources: res2, ..old(state).m() })
            &&& final(events).deep_view() == old(events).deep_view() + evs
            &&& opaque_untouched(*old(state), *final(state))
        }),
{
    let tick = state.tick;
    let ghost s0 = state.m();
    let ghost ev0 = events.deep_view();
    let ghost meta0 = state.meta;
    let ghost qev0 = state.queues.events@;
    let ghost sv = state.systems.deep_view();

    let compost_key: String = "compost_heap".to_owned();

    // Collect the operations of every system that may fire, judged against
    // the resources as they stand now.
    let mut ops: Vec<(String, Resources, Resources)> = Vec::new();
    proof {
        assert(sv.skip(0) =~= sv);
        assert(ops.deep_view() =~= Seq::<
            (Seq<char>, Seq<(Seq<char>, i64)>, Seq<(Seq<char>, i64)>),
        >::empty());
        assert(ops.deep_view() + spec_collect_ops(sv, s0.resources, tick) =~= spec_collect_ops(
            sv,
            s0.resources,
            tick,
        ));
    }
    let mut i: usize = 0;
    while i < state.systems.len()
        invariant
            i <= state.systems.len(),
            sv == state.systems.deep_view(),
            tick == s0.tick,
            state.resources.deep_view() == s0.resources,
            compost_key@ == "compost_heap"@,
            spec_collect_ops(sv, s0.resources, tick) == ops.deep_view() + spec_collect_ops(
                sv.skip(i as int),
                s0.resources,
                tick,
            ),
        decreases state.systems.len() - i,
    {
        proof {
            assert(sv.skip(i as int).drop_first() =~= sv.skip(i + 1));
            assert(sv.skip(i as int)[0] == sv[i as int]);
        }
        let ghost pre_ops = ops.deep_view();
        let fires = !state.systems[i].1.is_disabled() && state.systems[i].1.can_run(
            &state.resources,
        );
        if fires {
            let mut consumes = Resources::new();
            let mut generates = Resources::new();
            match &state.systems[i].1.rates {
                SystemRates::Enabled { consumes: c, generates: g } => {
                    match c {
                        Some(cr) => {
                            consumes = cr.snapshot();
                        },
                        None => {},
                    }
                    match g {
                        Some(gr) => {
                            generates = gr.snapshot();
                        },
                        None => {},
                    }
                },
                SystemRates::Disabled { .. } => {},
            }
            proof {
                assert(consumes.deep_view() == match sv[i as int].1.live_consumes() {
                    Some(c) => c,
                    None => Seq::<(Seq<char>, i64)>::empty(),
                });
                assert(generates.deep_view() == match sv[i as int].1.live_generates() {
                    Some(g) => g,
                    None => Seq::<(Seq<char>, i64)>::empty(),
                });
            }
            if state.systems[i].0 == compost_key {
                let bonus = state.systems[i].1.total_corpse_bonus(tick);
                if bonus > 0 {
                    generates.add("nutrients", bonus);
                }
            }
            let id: String = state.systems[i].0.clone();
            ops.push((id, consumes, generates));
            proof {
                let (sc, sg) = spec_op(sv[i as int].0, sv[i as int].1, tick);
                assert(ops.deep_view() =~= pre_ops.push((sv[i as int].0, sc, sg)));
                assert(pre_ops.push((sv[i as int].0, sc, sg)) + spec_collect_ops(
                    sv.skip(i + 1),
                    s0.resources,
                    tick,
                ) =~= pre_ops + spec_collect_ops(sv.skip(i as int), s0.resources, tick));
            }
        } else {
            proof {
                assert(pre_ops + spec_collect_ops(sv.skip(i + 1), s0.resources, tick) =~= pre_ops
                    + spec_collect_ops(sv.skip(i as int), s0.resources, tick));
            }
        }
        i += 1;
    }
    proof {
        assert(sv.skip(state.systems.len() as int) =~= Seq::<(Seq<char>, SystemM)>::empty());
        assert(ops.deep_view() + spec_collect_ops(
            sv.skip(state.systems.len() as int),
            s0.resources,
            tick,
        ) =~= ops.deep_view());
    }

    // Apply the operations in order, reporting each system that declared any
    // amounts.
    let ghost opsv = ops.deep_view();
    let ghost mut emitted: Seq<EventM> = Seq::empty();
    proof {
        assert(opsv.skip(0) =~= opsv);
        assert(ev0 + emitted =~= ev0);
        assert(Seq::<EventM>::empty() + spec_apply_ops(opsv, s0.resources, tick).1
            =~= spec_apply_ops(opsv, s0.resources, tick).1);
    }
    let mut j: usize = 0;
    while j < ops.len()
        invariant
            j <= ops.len(),
            opsv == ops.deep_view(),
            tick == s0.tick,
            state.tick == s0.tick,
            state.systems.deep_view() == s0.systems,
            state.entities.deep_view() == s0.entities,
            state.map.deep_view() == s0.map,
            state.queues.m().actions == s0.queues.actions,
            state.queues.events@ == qev0,
            state.meta == meta0,
            state.graveyard.deep_view() == s0.graveyard,
            state.last_save_timestamp == s0.last_save_timestamp,
            events.deep_view() == ev0 + emitted,
            ({
                let whole = spec_apply_ops(opsv, s0.resources, tick);
                let rest = spec_apply_ops(opsv.skip(j as int), state.resources.deep_view(), tick);
                &&& whole.0 == rest.0
                &&& whole.1 == emitted + rest.1
            }),
        decreases ops.len() - j,
    {
        proof {
            assert(opsv.skip(j as int).drop_first() =~= opsv.skip(j + 1));
            assert(opsv.skip(j as int)[0] == opsv[j as int]);
        }
        let ghost pre_emitted = emitted;
        let ghost pre_res = state.resources.deep_view();
        state.resources.sub_all(&ops[j].1);
        state.resources.add_all(&ops[j].2);
        if !ops[j].1.is_empty() || !ops[j].2.is_empty() {
            events.push(
                tick,
                EventKind::SystemProduced {
                    system_id: ops[j].0.clone(),
                    produced: ops[j].2.snapshot(),
                    consumed: ops[j].1.snapshot(),
                },
            );
            proof {
                emitted = emitted + seq![
                    EventM {
                        tick: tick,
                        kind: EventKindM::SystemProduced {
                            system_id: opsv[j as int].0,
                            produced: opsv[j as int].2,
                            consumed: opsv[j as int].1,
                        },
                    },
                ];
                assert(events.deep_view() =~= ev0 + emitted);
            }
        }
        proof {
            let op = opsv[j as int];
            assert(state.resources.deep_view() == res_add_all(res_sub_all(pre_res, op.1), op.2));
            let rest_pre = spec_apply_ops(opsv.skip(j as int), pre_res, tick);
            let rest_post = spec_apply_ops(opsv.skip(j + 1), state.resources.deep_view(), tick);
            let ev: Seq<EventM> = if op.1.len() != 0 || op.2.len() != 0 {
                seq![
                    EventM {
                        tick: tick,
                        kind: EventKindM::SystemProduced {
                            system_id: op.0,
                            produced: op.2,
                            consumed: op.1,
                        },
                    },
                ]
            } else {
                Seq::empty()
            };
            assert(rest_pre.0 == rest_post.0);
            assert(rest_pre.1 == ev + rest_post.1);
            assert(emitted =~= pre_emitted + ev);
            assert(emitted + rest_post.1 =~= pre_emitted + rest_pre.1);
        }
        j += 1;
    }
    proof {
        assert(opsv.skip(ops.len() as int) =~= Seq::<
            (Seq<char>, Seq<(Seq<char>, i64)>, Seq<(Seq<char>, i64)>),
        >::empty());
        assert(emitted + spec_apply_ops(
            opsv.skip(ops.len() as int),
            state.resources.deep_view(),
            tick,
        ).1 =~= emitted);
    }

    // Prune expired corpse boosts from every system.
    let ghost res2v = state.resources.deep_view();
    let ghost ev2v = events.deep_view();
    let mut k: usize = 0;
    while k < state.systems.len()
        invariant
            k <= state.systems.len(),
            state.systems.deep_view().len() == sv.len(),
            sv == s0.systems,
            tick == s0.tick,
            state.tick == s0.tick,
            state.resources.deep_view() == res2v,
            events.deep_view() == ev2v,
            state.entities.deep_view() == s0.entities,
            state.map.deep_view() == s0.map,
            state.queues.m().actions == s0.queues.actions,
            state.queues.events@ == qev0,
            state.meta == meta0,
            state.graveyard.deep_view() == s0.graveyard,
            state.last_save_timestamp == s0.last_save_timestamp,
            forall|x: int|
                0 <= x < k ==> state.systems.deep_view()[x] == spec_expire_all(sv, tick)[x],
            forall|x: int|
                k <= x < sv.len() ==> state.systems.deep_view()[x] == sv[x],
        decreases state.systems.len() - k,
    {
        state.systems[k].1.expire_corpse_boosts(tick);
        k += 1;
    }
    proof {
        assert(state.systems.deep_view() =~= spec_expire_all(sv, tick));
        let whole = spec_systems_phase(s0.systems, s0.resources, s0.tick);
        assert(state.m() == (StateM { systems: whole.0, resources: whole.1, ..s0 }));
    }
}

// ---------------------------------------------------------------------------
// Phase 3: entities.
//
// Every entity ages and hungers; a hungry one with declared food tries to
// eat; one that then stands dead leaves the live set, an ant into the
// graveyard, a visitor departing with its optional gift.

/// Hunger after a meal: raised by `gain` and capped at the maximum.
pub open spec fn spec_fed_hunger(h: i64, gain: i64) -> i64 {
    let x = spec_amount_add(h, gain);
    if x > MAX_HUNGER {
        MAX_HUNGER
    } else {
        x
    }
}

/// The transform flag of a visitor; ants never transform.
pub open spec fn spec_transforms(e: EntityM) -> bool {
    match e.kind {
        EntityKindM::Visitor { transforms, .. } => transforms == Some(true),
        EntityKindM::Ant { .. } => false,
    }
}

/// The death gift of a visitor, if any.
pub open spec fn spec_gift(e: EntityM) -> Option<Seq<(Seq<char>, i64)>> {
    match e.kind {
        EntityKindM::Visitor { gift_on_death, .. } => gift_on_death,
        EntityKindM::Ant { .. } => None,
    }
}

/// One entity's attempt to eat, applied to an entity that has already aged
/// and hungered this tick.  A hungry-type visitor eating influence follows
/// its own rule; everything else eats one whole unit of its food.
pub open spec fn spec_eat(e: EntityM, res: Seq<(Seq<char>, i64)>, tick: u64) -> (
    EntityM,
    Seq<(Seq<char>, i64)>,
    Seq<EventM>,
) {
    if e.hunger < HUNGER_THRESHOLD_EAT {
        match e.food {
            Some(f) => {
                if f == "influence"@ && e.subtype() == Some(VisitorType::Hungry) {
                    if res_get(res, "influence"@) >= HUNGRY_INFLUENCE_CONSUME {
                        let res1 = res_sub(res, "influence"@, HUNGRY_INFLUENCE_CONSUME);
                        let e1 = EntityM {
                            hunger: spec_fed_hunger(e.hunger, HUNGRY_HUNGER_GAIN),
                            ..e
                        };
                        if spec_transforms(e) {
                            (
                                e1,
                                res_add(res1, "strange_matter"@, HUNGRY_STRANGE_MATTER_PRODUCE),
                                seq![
                                    EventM {
                                        tick: tick,
                                        kind: EventKindM::InfluenceTransformed {
                                            visitor_id: e.id,
                                            influence_consumed: HUNGRY_INFLUENCE_CONSUME,
                                            strange_matter_produced: HUNGRY_STRANGE_MATTER_PRODUCE,
                                        },
                                    },
                                ],
                            )
                        } else {
                            (e1, res1, Seq::empty())
                        }
                    } else {
                        (e, res, Seq::empty())
                    }
                } else if res_get(res, f) >= ONE_UNIT {
                    let res1 = res_sub(res, f, ONE_UNIT);
                    let e1 = EntityM {
                        hunger: spec_fed_hunger(e.hunger, HUNGER_GAIN_FROM_EATING),
                        ..e
                    };
                    (
                        e1,
                        res1,
                        seq![
                            EventM {
                                tick: tick,
                                kind: EventKindM::EntityAte {
                                    entity_id: e.id,
                                    food: f,
                                    hunger_after: e1.hunger,
                                },
                            },
                        ],
                    )
                } else {
                    (e, res, Seq::empty())
                }
            },
            None => (e, res, Seq::empty()),
        }
    } else {
        (e, res, Seq::empty())
    }
}

/// What one tick does to one entity: age, hunger, eat, and possibly die.
/// The results are the surviving entity (if it lives), the resources, the
/// corpses laid into the graveyard, and the events emitted.
pub open spec fn spec_entity_step(e: EntityM, res: Seq<(Seq<char>, i64)>, tick: u64) -> (
    Option<EntityM>,
    Seq<(Seq<char>, i64)>,
    Seq<CorpseM>,
    Seq<EventM>,
) {
    let aged = EntityM {
        age: if e.age < u64::MAX {
            (e.age + 1) as u64
        } else {
            u64::MAX
        },
        hunger: spec_amount_sub(e.hunger, e.hunger_rate),
        ..e
    };
    let (fed, res1, evs1) = spec_eat(aged, res, tick);
    match fed.cause_of_death() {
        None => (Some(fed), res1, Seq::empty(), evs1),
        Some(cause) => {
            if fed.entity_type() == EntityType::Visitor {
                let gift = spec_gift(fed);
                let res2 = match gift {
                    Some(g) => res_add_all(res1, g),
                    None => res1,
                };
                let ev = EventM {
                    tick: tick,
                    kind: EventKindM::VisitorDeparted {
                        visitor_id: fed.id,
                        visitor_type: match fed.subtype() {
                            Some(t) => t,
                            None => VisitorType::Wanderer,
                        },
                        name: match fed.name {
                            Some(n) => n,
                            None => Seq::empty(),
                        },
                        gift: gift,
                    },
                };
                (None, res2, Seq::empty(), evs1 + seq![ev])
            } else {
                let corpse = CorpseM {
                    entity_id: fed.id,
                    entity_type: "ant"@,
                    death_tick: tick,
                    cause: cause,
                    tile: fed.tile,
                };
                let ev = EventM {
                    tick: tick,
                    kind: EventKindM::EntityDied {
                        entity_id: fed.id,
                        entity_type: "ant"@,
                        cause: cause,
                        tile: fed.tile,
                    },
                };
                (None, res1, seq![corpse], evs1 + seq![ev])
            }
        },
    }
}

/// The whole entity phase, in list order.
pub open spec fn spec_entities_phase(
    es: Seq<EntityM>,
    res: Seq<(Seq<char>, i64)>,
    tick: u64,
) -> (Seq<EntityM>, Seq<(Seq<char>, i64)>, Seq<CorpseM>, Seq<EventM>)
    decreases es.len(),
{
    if es.len() == 0 {
        (Seq::empty(), res, Seq::empty(), Seq::empty())
    } else {
        let (surv, res1, corp1, ev1) = spec_entity_step(es[0], res, tick);
        let (rest, res2, corp2, ev2) = spec_entities_phase(es.drop_first(), res1, tick);
        let head: Seq<EntityM> = match surv {
            Some(e) => seq![e],
            None => Seq::empty(),
        };
        (head + rest, res2, corp1 + corp2, ev1 + ev2)
    }
}

/// Run one entity through aging, hunger, eating and the death check.
fn step_entity(
    e: Entity,
    tick: u64,
    resources: &mut Resources,
    graveyard: &mut crate::graveyard::Graveyard,
    events: &mut TickEvents,
) -> (surv: Option<Entity>)
    ensures
        ({
            let (sm, res2, corpses, evs) = spec_entity_step(
                e.deep_view(),
                old(resources).deep_view(),
                tick,
            );
            &&& (match surv {
                Some(x) => sm == Some(x.deep_view()),
                None => sm is None,
            })
            &&& final(resources).deep_view() == res2
            &&& final(graveyard).deep_view().corpses == old(graveyard).deep_view().corpses
                + corpses
            &&& final(graveyard).deep_view().total_processed == old(
                graveyard,
            ).deep_view().total_processed
            &&& final(events).deep_view() == old(events).deep_view() + evs
        }),
{
    let ghost em = e.deep_view();
    let ghost res0 = resources.deep_view();
    let ghost ev0 = events.deep_view();
    let ghost gy0 = graveyard.deep_view();

    let mut e = e;
    e.age = if e.age < u64::MAX {
        e.age + 1
    } else {
        u64::MAX
    };
    e.hunger = amount_sub(e.hunger, e.hunger_rate);
    let ghost aged = e.deep_view();

    // Try to eat if hungry.
    if e.hunger < HUNGER_THRESHOLD_EAT {
        let food: Option<String> = match &e.food {
            Some(f) => Some(f.clone()),
            None => None,
        };
        match food {
            Some(f) => {
                let is_hungry_visitor = match &e.kind {
                    EntityKind::Visitor { subtype: VisitorType::Hungry, .. } => true,
                    _ => false,
                };
                if f == "influence".to_owned() && is_hungry_visitor {
                    if resources.get("influence") >= HUNGRY_INFLUENCE_CONSUME {
                        resources.sub("influence", HUNGRY_INFLUENCE_CONSUME);
                        let gained = crate::constants::amount_add(e.hunger, HUNGRY_HUNGER_GAIN);
                        e.hunger = if gained > MAX_HUNGER {
                            MAX_HUNGER
                        } else {
                            gained
                        };
                        let transforms = match &e.kind {
                            EntityKind::Visitor { transforms: Some(true), .. } => true,
                            _ => false,
                        };
                        if transforms {
                            resources.add("strange_matter", HUNGRY_STRANGE_MATTER_PRODUCE);
                            events.push(
                                tick,
                                EventKind::InfluenceTransformed {
                                    visitor_id: e.id.clone(),
                                    influence_consumed: HUNGRY_INFLUENCE_CONSUME,
                                    strange_matter_produced: HUNGRY_STRANGE_MATTER_PRODUCE,
                                },
                            );
                        }
                    }
                } else if resources.get(f.as_str()) >= ONE_UNIT {
                    resources.sub(f.as_str(), ONE_UNIT);
                    let gained = crate::constants::amount_add(e.hunger, HUNGER_GAIN_FROM_EATING);
                    e.hunger = if gained > MAX_HUNGER {
                        MAX_HUNGER
                    } else {
                        gained
                    };
                    events.push(
                        tick,
                        EventKind::EntityAte {
                            entity_id: e.id.clone(),
                            food: f,
                            hunger_after: e.hunger,
                        },
                    );
                }
            },
            None => {},
        }
    }
    proof {
        let (fed, res1, evs1) = spec_eat(aged, res0, tick);
        assert(e.deep_view() == fed);
        assert(resources.deep_view() == res1);
        assert(events.deep_view() =~= ev0 + evs1);
    }

    // Check for death.
    let cause = e.cause_of_death();
    match cause {
        None => Some(e),
        Some(c) => {
            let is_visitor = match &e.kind {
                EntityKind::Visitor { .. } => true,
                EntityKind::Ant { .. } => false,
            };
            if is_visitor {
                let (gift, subtype) = match &e.kind {
                    EntityKind::Visitor { gift_on_death, subtype, .. } => (
                        match gift_on_death {
                            Some(g) => Some(g.snapshot()),
                            None => None,
                        },
                        *subtype,
                    ),
                    EntityKind::Ant { .. } => (None, VisitorType::Wanderer),
                };
                match &gift {
                    Some(g) => {
                        resources.add_all(g);
                    },
                    None => {},
                }
                let name: String = match &e.name {
                    Some(n) => n.clone(),
                    None => String::new(),
                };
                events.push(
                    tick,
                    EventKind::VisitorDeparted {
                        visitor_id: e.id.clone(),
                        visitor_type: subtype,
                        name,
                        gift,
                    },
                );
                None
            } else {
                graveyard.add_corpse(
                    crate::graveyard::Corpse {
                        entity_id: e.id.clone(),
                        entity_type: "ant".to_owned(),
                        death_tick: tick,
                        cause: c,
                        tile: e.tile.clone(),
                    },
                );
                events.push(
                    tick,
                    EventKind::EntityDied {
                        entity_id: e.id.clone(),
                        entity_type: "ant".to_owned(),
                        cause: c,
                        tile: e.tile.clone(),
                    },
                );
                proof {
                    let (sm, res2, corpses, evs) = spec_entity_step(em, res0, tick);
                    assert(graveyard.deep_view().corpses =~= gy0.corpses + corpses);
                    assert(events.deep_view() =~= ev0 + evs);
                }
                None
            }
        },
    }
}

/// Run the entity phase on the snapshot.
fn process_entities(state: &mut GameState, events: &mut TickEvents)
    ensures
        ({
            let (ents, res, corpses, evs) = spec_entities_phase(
                old(state).m().entities,
                old(state).m().resources,
                old(state).m().tick,
            );
            &&& final(state).m() == (StateM {
                entities: ents,
                resources: res,
                graveyard: crate::graveyard::GraveyardM {
                    corpses: old(state).m().graveyard.corpses + corpses,
                    total_processed: old(state).m().graveyard.total_processed,
                },
                ..old(state).m()
            })
            &&& final(events).deep_view() == old(events).deep_view() + evs
            &&& opaque_untouched(*old(state), *final(state))
        }),
{
    let tick = state.tick;
    let ghost s0 = state.m();
    let ghost ev0 = events.deep_view();
    let ghost meta0 = state.meta;
    let ghost qev0 = state.queues.events@;

    let mut pending: Vec<Entity> = Vec::new();
    core::mem::swap(&mut pending, &mut state.entities);
    let ghost pv = pending.deep_view();
    proof {
        assert(pv =~= s0.entities);
        assert(pv.skip(0) =~= pv);
    }

    let mut surviving: Vec<Entity> = Vec::new();
    let ghost mut emitted: Seq<EventM> = Seq::empty();
    let ghost mut laid: Seq<CorpseM> = Seq::empty();
    proof {
        let whole = spec_entities_phase(pv, s0.resources, tick);
        assert(Seq::<EventM>::empty() + whole.3 =~= whole.3);
        assert(Seq::<EntityM>::empty() + whole.0 =~= whole.0);
        assert(Seq::<CorpseM>::empty() + whole.2 =~= whole.2);
        assert(surviving.deep_view() =~= Seq::<EntityM>::empty());
        assert(ev0 + emitted =~= ev0);
        assert(s0.graveyard.corpses + laid =~= s0.graveyard.corpses);
    }
    let ghost i: int = 0;
    while pending.len() > 0
        invariant
            0 <= i <= pv.len(),
            pending.deep_view() == pv.skip(i),
            tick == s0.tick,
            state.tick == s0.tick,
            state.systems.deep_view() == s0.systems,
            state.entities.deep_view().len() == 0,
            state.map.deep_view() == s0.map,
            state.queues.m().actions == s0.queues.actions,
            state.queues.events@ == qev0,
            state.meta == meta0,
            state.graveyard.deep_view().corpses == s0.graveyard.corpses + laid,
            state.graveyard.deep_view().total_processed == s0.graveyard.total_processed,
            state.last_save_timestamp == s0.last_save_timestamp,
            events.deep_view() == ev0 + emitted,
            ({
                let whole = spec_entities_phase(pv, s0.resources, tick);
                let rest = spec_entities_phase(pv.skip(i), state.resources.deep_view(), tick);
                &&& whole.0 == surviving.deep_view() + rest.0
                &&& whole.1 == rest.1
                &&& whole.2 == laid + rest.2
                &&& whole.3 == emitted + rest.3
            }),
        decreases pending.len(),
    {
        proof {
            assert(pv.skip(i).drop_first() =~= pv.skip(i + 1));
            assert(pv.skip(i)[0] == pv[i]);
        }
        let ghost pre_surviving = surviving.deep_view();
        let ghost pre_res = state.resources.deep_view();
        let ghost pre_emitted = emitted;
        let ghost pre_laid = laid;

        let e = pending.remove(0);
        let surv = step_entity(e, tick, &mut state.resources, &mut state.graveyard, events);
        proof {
            let (sm, res1, corp1, ev1) = spec_entity_step(pv[i], pre_res, tick);
            emitted = pre_emitted + ev1;
            laid = pre_laid + corp1;
        }
        match surv {
            Some(x) => {
                surviving.push(x);
                proof {
                    let (sm, res1, corp1, ev1) = spec_entity_step(pv[i], pre_res, tick);
                    assert(surviving.deep_view() =~= pre_surviving + (match sm {
                        Some(m) => seq![m],
                        None => Seq::<EntityM>::empty(),
                    }));
                }
            },
            None => {
                proof {
                    let (sm, res1, corp1, ev1) = spec_entity_step(pv[i], pre_res, tick);
                    assert(surviving.deep_view() =~= pre_surviving + (match sm {
                        Some(m) => seq![m],
                        None => Seq::<EntityM>::empty(),
                    }));
                }
            },
        }
        proof {
            let (sm, res1, corp1, ev1) = spec_entity_step(pv[i], pre_res, tick);
            let rest_pre = spec_entities_phase(pv.skip(i), pre_res, tick);
            let rest_post = spec_entities_phase(pv.skip(i + 1), state.resources.deep_view(), tick);
            assert(rest_pre.0 == (match sm {
                Some(m) => seq![m],
                None => Seq::<EntityM>::empty(),
            }) + rest_post.0);
            assert(surviving.deep_view() + rest_post.0 =~= pre_surviving + rest_pre.0);
            assert(laid + rest_post.2 =~= pre_laid + rest_pre.2);
            assert(emitted + rest_post.3 =~= pre_emitted + rest_pre.3);
            assert(events.deep_view() =~= ev0 + emitted);
            i = i + 1;
        }
    }
    proof {
        assert(pv.skip(i) =~= Seq::<EntityM>::empty());
        assert(i == pv.len());
    }
    state.entities = surviving;
    proof {
        let whole = spec_entities_phase(pv, s0.resources, tick);
        assert(surviving.deep_view() + spec_entities_phase(
            pv.skip(pv.len() as int),
            state.resources.deep_view(),
            tick,
        ).0 =~= surviving.deep_view());
        assert(state.m() == (StateM {
            entities: whole.0,
            resources: whole.1,
            graveyard: crate::graveyard::GraveyardM {
                corpses: s0.graveyard.corpses + whole.2,
                total_processed: s0.graveyard.total_processed,
            },
            ..s0
        }));
    }
}

// ---------------------------------------------------------------------------
// Phase 4: undertakers.
//
// Skipped entirely while the compost tile is blighted.  Each undertaker
// either keeps carrying its current corpse (finishing after the fixed
// processing time, which boosts the compost heap and contaminates the
// compost tile) or picks up the oldest corpse from the graveyard.

/// Whether an entity is an undertaker currently marked as processing.
pub open spec fn spec_is_processing(e: EntityM) -> bool {
    match e.kind {
        EntityKindM::Ant { processing_corpse, .. } => processing_corpse == Some(true),
        EntityKindM::Visitor { .. } => false,
    }
}

/// The ticks an undertaker has spent on its current corpse; absent reads as
/// zero.
pub open spec fn spec_processing_ticks(e: EntityM) -> u64 {
    match e.kind {
        EntityKindM::Ant { processing_ticks: Some(t), .. } => t,
        _ => 0,
    }
}

/// The entity with its processing bookkeeping replaced.
pub open spec fn spec_with_processing(e: EntityM, active: bool, ticks: u64) -> EntityM {
    match e.kind {
        EntityKindM::Ant { role, .. } => EntityM {
            kind: EntityKindM::Ant {
                role: role,
                processing_corpse: Some(active),
                processing_ticks: Some(ticks),
            },
            ..e
        },
        EntityKindM::Visitor { .. } => e,
    }
}

/// What one undertaker does this tick, given that `e` is the entity at
/// index `i` as the phase found it.
pub open spec fn spec_undertaker_step(s: StateM, e: EntityM, i: int, tick: u64) -> (
    StateM,
    Seq<EventM>,
) {
    if e.role() != Some(AntRole::Undertaker) {
        (s, Seq::empty())
    } else if spec_is_processing(e) {
        let ticks = spec_processing_ticks(e);
        let t1 = if ticks < u64::MAX {
            (ticks + 1) as u64
        } else {
            u64::MAX
        };
        if t1 >= CORPSE_PROCESSING_TICKS {
            // Corpse delivered: reset the undertaker, boost the compost
            // heap, contaminate the compost tile and count the corpse.
            let s1 = StateM {
                entities: s.entities.update(i, spec_with_processing(e, false, 0)),
                ..s
            };
            let si = assoc_index_of(s1.systems, "compost_heap"@);
            let s2 = if si == -1 {
                s1
            } else {
                let sys = s1.systems[si].1;
                let boosted = SystemM {
                    corpse_boosts: sys.corpse_boosts.push(
                        CorpseBoost {
                            expires_at_tick: if tick <= u64::MAX - CORPSE_BOOST_DURATION {
                                (tick + CORPSE_BOOST_DURATION) as u64
                            } else {
                                u64::MAX
                            },
                            bonus: CORPSE_NUTRIENT_BOOST,
                        },
                    ),
                    ..sys
                };
                StateM { systems: s1.systems.update(si, (s1.systems[si].0, boosted)), ..s1 }
            };
            let ti = assoc_index_of(s2.map.tiles, "compost"@);
            if ti == -1 {
                (s2, Seq::empty())
            } else {
                let tile = s2.map.tiles[ti].1;
                let contamination = spec_raised_contamination(
                    tile.contamination_or_zero(),
                    CONTAMINATION_PER_CORPSE,
                );
                let tile2 = TileM { contamination: Some(contamination), ..tile };
                let processed = s2.graveyard.total_processed.saturating_add(1);
                let s3 = StateM {
                    map: MapM {
                        tiles: s2.map.tiles.update(ti, (s2.map.tiles[ti].0, tile2)),
                        ..s2.map
                    },
                    graveyard: GraveyardM { total_processed: processed, ..s2.graveyard },
                    ..s2
                };
                (
                    s3,
                    seq![
                        EventM {
                            tick: tick,
                            kind: EventKindM::CorpseProcessed {
                                undertaker_id: e.id,
                                total_processed: processed,
                                contamination: contamination,
                            },
                        },
                    ],
                )
            }
        } else {
            (
                StateM { entities: s.entities.update(i, spec_with_processing(e, true, t1)), ..s },
                Seq::empty(),
            )
        }
    } else if s.graveyard.corpses.len() > 0 {
        (
            StateM {
                entities: s.entities.update(i, spec_with_processing(e, true, 0)),
                graveyard: GraveyardM {
                    corpses: s.graveyard.corpses.drop_first(),
                    ..s.graveyard
                },
                ..s
            },
            Seq::empty(),
        )
    } else {
        (s, Seq::empty())
    }
}

/// The undertaker phase from index `i` on, over the entities as the phase
/// found them.
pub open spec fn spec_undertakers_from(orig: Seq<EntityM>, s: StateM, tick: u64, i: int) -> (
    StateM,
    Seq<EventM>,
)
    decreases orig.len() - i,
{
    if i < 0 || i >= orig.len() {
        (s, Seq::empty())
    } else {
        let (s1, ev1) = spec_undertaker_step(s, orig[i], i, tick);
        let (s2, ev2) = spec_undertakers_from(orig, s1, tick, i + 1);
        (s2, ev1 + ev2)
    }
}

/// The undertaker phase never touches the tick counter, the resources, the
/// queues, the metadata, the save timestamp, or the number of entities.
pub proof fn lemma_undertakers_from_frame(orig: Seq<EntityM>, s: StateM, tick: u64, i: int)
    requires
        orig.len() == s.entities.len(),
    ensures
        ({
            let (s2, evs) = spec_undertakers_from(orig, s, tick, i);
            &&& s2.tick == s.tick
            &&& s2.resources == s.resources
            &&& s2.queues == s.queues
            &&& s2.meta == s.meta
            &&& s2.last_save_timestamp == s.last_save_timestamp
            &&& s2.entities.len() == s.entities.len()
        }),
    decreases orig.len() - i,
{
    if 0 <= i < orig.len() {
        let (s1, ev1) = spec_undertaker_step(s, orig[i], i, tick);
        lemma_undertakers_from_frame(orig, s1, tick, i + 1);
    }
}

/// The whole undertaker phase: a no-op while the compost tile is blighted.
pub open spec fn spec_undertakers_phase(s: StateM, tick: u64) -> (StateM, Seq<EventM>) {
    let ti = assoc_index_of(s.map.tiles, "compost"@);
    let blighted = ti != -1 && s.map.tiles[ti].1.is_blighted();
    if blighted {
        (s, Seq::empty())
    } else {
        spec_undertakers_from(s.entities, s, tick, 0)
    }
}

/// Run the undertaker phase on the snapshot.
fn process_undertakers(state: &mut GameState, events: &mut TickEvents)
    ensures
        ({
            let (m2, evs) = spec_undertakers_phase(old(state).m(), old(state).m().tick);
            &&& final(state).m() == m2
            &&& final(events).deep_view() == old(events).deep_view() + evs
            &&& opaque_untouched(*old(state), *final(state))
        }),
{
    let tick = state.tick;
    let ghost s0 = state.m();
    let ghost ev0 = events.deep_view();
    let ghost meta0 = state.meta;
    let ghost qev0 = state.queues.events@;
    let ghost orig = s0.entities;

    let compost_blighted = match state.map.get_tile("compost") {
        Some(t) => t.is_blighted(),
        None => false,
    };
    proof {
        let ti = assoc_index_of(s0.map.tiles, "compost"@);
        lemma_assoc_index_of(s0.map.tiles, "compost"@);
        assert(compost_blighted == (ti != -1 && s0.map.tiles[ti].1.is_blighted()));
    }
    if compost_blighted {
        return ;
    }

    let ghost mut emitted: Seq<EventM> = Seq::empty();
    proof {
        assert(ev0 + emitted =~= ev0);
        assert(Seq::<EventM>::empty() + spec_undertakers_from(orig, s0, tick, 0).1
            =~= spec_undertakers_from(orig, s0, tick, 0).1);
    }
    let entity_count = state.entities.len();
    let mut i: usize = 0;
    while i < entity_count
        invariant
            i <= entity_count,
            entity_count == orig.len(),
            state.entities.deep_view().len() == orig.len(),
            tick == s0.tick,
            state.tick == s0.tick,
            state.queues.m() == s0.queues,
            state.queues.events@ == qev0,
            state.meta == meta0,
            state.resources.deep_view() == s0.resources,
            state.last_save_timestamp == s0.last_save_timestamp,
            events.deep_view() == ev0 + emitted,
            forall|j: int| i <= j < orig.len() ==> state.entities.deep_view()[j] == orig[j],
            ({
                let whole = spec_undertakers_from(orig, s0, tick, 0);
                let rest = spec_undertakers_from(orig, state.m(), tick, i as int);
                &&& whole.0 == rest.0
                &&& whole.1 == emitted + rest.1
            }),
        decreases entity_count - i,
    {
        let ghost pre = state.m();
        let ghost pre_emitted = emitted;
        proof {
            assert(state.entities.deep_view()[i as int] == orig[i as int]);
        }

        let is_undertaker = match &state.entities[i].kind {
            EntityKind::Ant { role: AntRole::Undertaker, .. } => true,
            _ => false,
        };
        if is_undertaker {
            let processing = match &state.entities[i].kind {
                EntityKind::Ant { processing_corpse: Some(true), .. } => true,
                _ => false,
            };
            let ticks: u64 = match &state.entities[i].kind {
                EntityKind::Ant { processing_ticks: Some(t), .. } => *t,
                _ => 0,
            };
            if processing {
                let t1 = if ticks < u64::MAX {
                    ticks + 1
                } else {
                    u64::MAX
                };
                if t1 >= CORPSE_PROCESSING_TICKS {
                    // Corpse delivered.
                    state.entities[i].kind = EntityKind::Ant {
                        role: AntRole::Undertaker,
                        processing_corpse: Some(false),
                        processing_ticks: Some(0),
                    };
                    proof {
                        assert(state.entities.deep_view() =~= pre.entities.update(
                            i as int,
                            spec_with_processing(orig[i as int], false, 0),
                        ));
                    }
                    let ghost s1 = StateM {
                        entities: pre.entities.update(
                            i as int,
                            spec_with_processing(orig[i as int], false, 0),
                        ),
                        ..pre
                    };
                    match state.system_index("compost_heap") {
                        Some(si) => {
                            let expires = if tick <= u64::MAX - CORPSE_BOOST_DURATION {
                                tick + CORPSE_BOOST_DURATION
                            } else {
                                u64::MAX
                            };
                            state.systems[si].1.corpse_boosts.push(
                                CorpseBoost { expires_at_tick: expires, bonus: CORPSE_NUTRIENT_BOOST },
                            );
                            proof {
                                let sys = s1.systems[si as int].1;
                                let boosted = SystemM {
                                    corpse_boosts: sys.corpse_boosts.push(
                                        CorpseBoost {
                                            expires_at_tick: expires,
                                            bonus: CORPSE_NUTRIENT_BOOST,
                                        },
                                    ),
                                    ..sys
                                };
                                assert(state.systems.deep_view()[si as int].1.corpse_boosts
                                    =~= boosted.corpse_boosts);
                                assert(state.systems.deep_view() =~= s1.systems.update(
                                    si as int,
                                    (s1.systems[si as int].0, boosted),
                                ));
                            }
                        },
                        None => {},
                    }
                    let ghost s2 = ({
                        let si = assoc_index_of(s1.systems, "compost_heap"@);
                        if si == -1 {
                            s1
                        } else {
                            let sys = s1.systems[si].1;
                            let boosted = SystemM {
                                corpse_boosts: sys.corpse_boosts.push(
                                    CorpseBoost {
                                        expires_at_tick: if tick <= u64::MAX
                                            - CORPSE_BOOST_DURATION {
                                            (tick + CORPSE_BOOST_DURATION) as u64
                                        } else {
                                            u64::MAX
                                        },
                                        bonus: CORPSE_NUTRIENT_BOOST,
                                    },
                                ),
                                ..sys
                            };
                            StateM {
                                systems: s1.systems.update(si, (s1.systems[si].0, boosted)),
                                ..s1
                            }
                        }
                    });
                    proof {
                        assert(state.m() == s2);
                    }
                    match state.map.tile_index("compost") {
                        Some(ti) => {
                            state.map.tiles[ti].1.add_contamination(CONTAMINATION_PER_CORPSE);
                            let contamination = match state.map.tiles[ti].1.contamination {
                                Some(c) => c,
                                None => 0,
                            };
                            state.graveyard.mark_processed();
                            events.push(
                                tick,
                                EventKind::CorpseProcessed {
                                    undertaker_id: state.entities[i].id.clone(),
                                    total_processed: state.graveyard.total_processed,
                                    contamination,
                                },
                            );
                            proof {
                                let tiv = assoc_index_of(s2.map.tiles, "compost"@);
                                let tile = s2.map.tiles[tiv].1;
                                let cont = spec_raised_contamination(
                                    tile.contamination_or_zero(),
                                    CONTAMINATION_PER_CORPSE,
                                );
                                let tile2 = TileM { contamination: Some(cont), ..tile };
                                assert(state.map.deep_view().tiles =~= s2.map.tiles.update(
                                    tiv,
                                    (s2.map.tiles[tiv].0, tile2),
                                ));
                                assert(contamination == cont);
                                emitted = pre_emitted + spec_undertaker_step(
                                    pre,
                                    orig[i as int],
                                    i as int,
                                    tick,
                                ).1;
                                assert(events.deep_view() =~= ev0 + emitted);
                                assert((state.m(), spec_undertaker_step(
                                    pre,
                                    orig[i as int],
                                    i as int,
                                    tick,
                                ).1) == spec_undertaker_step(pre, orig[i as int], i as int, tick));
                            }
                        },
                        None => {
                            proof {
                                emitted = pre_emitted + spec_undertaker_step(
                                    pre,
                                    orig[i as int],
                                    i as int,
                                    tick,
                                ).1;
                                assert((state.m(), Seq::<EventM>::empty())
                                    == spec_undertaker_step(pre, orig[i as int], i as int, tick));
                                assert(events.deep_view() =~= ev0 + emitted);
                            }
                        },
                    }
                } else {
                    // Keep carrying.
                    state.entities[i].kind = EntityKind::Ant {
                        role: AntRole::Undertaker,
                        processing_corpse: Some(true),
                        processing_ticks: Some(t1),
                    };
                    proof {
                        assert(state.entities.deep_view() =~= pre.entities.update(
                            i as int,
                            spec_with_processing(orig[i as int], true, t1),
                        ));
                        emitted = pre_emitted + spec_undertaker_step(
                            pre,
                            orig[i as int],
                            i as int,
                            tick,
                        ).1;
                        assert(events.deep_view() =~= ev0 + emitted);
                        assert((state.m(), Seq::<EventM>::empty()) == spec_undertaker_step(
                            pre,
                            orig[i as int],
                            i as int,
                            tick,
                        ));
                    }
                }
            } else {
                let has = state.graveyard.has_corpses();
                if has {
                    // Pick up the oldest corpse.
                    let taken = state.graveyard.take_corpse();
                    state.entities[i].kind = EntityKind::Ant {
                        role: AntRole::Undertaker,
                        processing_corpse: Some(true),
                        processing_ticks: Some(0),
                    };
                    proof {
                        assert(state.entities.deep_view() =~= pre.entities.update(
                            i as int,
                            spec_with_processing(orig[i as int], true, 0),
                        ));
                        emitted = pre_emitted + spec_undertaker_step(
                            pre,
                            orig[i as int],
                            i as int,
                            tick,
                        ).1;
                        assert(events.deep_view() =~= ev0 + emitted);
                        assert((state.m(), Seq::<EventM>::empty()) == spec_undertaker_step(
                            pre,
                            orig[i as int],
                            i as int,
                            tick,
                        ));
                    }
                } else {
                    proof {
                        emitted = pre_emitted + spec_undertaker_step(
                            pre,
                            orig[i as int],
                            i as int,
                            tick,
                        ).1;
                        assert((state.m(), Seq::<EventM>::empty()) == spec_undertaker_step(
                            pre,
                            orig[i as int],
                            i as int,
                            tick,
                        ));
                        assert(events.deep_view() =~= ev0 + emitted);
                    }
                }
            }
        } else {
            proof {
                emitted = pre_emitted + spec_undertaker_step(
                    pre,
                    orig[i as int],
                    i as int,
                    tick,
                ).1;
                assert((state.m(), Seq::<EventM>::empty()) == spec_undertaker_step(
                    pre,
                    orig[i as int],
                    i as int,
                    tick,
                ));
                assert(events.deep_view() =~= ev0 + emitted);
            }
        }
        proof {
            let (sp, evp) = spec_undertaker_step(pre, orig[i as int], i as int, tick);
            let rest_pre = spec_undertakers_from(orig, pre, tick, i as int);
            let rest_post = spec_undertakers_from(orig, state.m(), tick, i + 1);
            assert(rest_pre.1 == evp + rest_post.1);
            assert(emitted + rest_post.1 =~= pre_emitted + rest_pre.1);
        }
        i += 1;
    }
}

// ---------------------------------------------------------------------------
// Phase 5: blight.
//
// An active blight runs down, and on clearing restores the compost heap.
// Otherwise contamination rolls for a fresh blight, which disables the
// compost heap and kills every entity standing on the compost tile.

/// The lower-case label of an entity's table, as corpse records carry it.
pub open spec fn spec_type_label(e: EntityM) -> Seq<char> {
    if e.entity_type() == EntityType::Visitor {
        "visitor"@
    } else {
        "ant"@
    }
}

/// A striking blight kills every entity on the compost tile: the survivors,
/// the corpses laid, and the kill events, in entity order.
pub open spec fn spec_blight_kills(es: Seq<EntityM>, tick: u64) -> (
    Seq<EntityM>,
    Seq<CorpseM>,
    Seq<EventM>,
)
    decreases es.len(),
{
    if es.len() == 0 {
        (Seq::empty(), Seq::empty(), Seq::empty())
    } else {
        let (surv, corps, evs) = spec_blight_kills(es.drop_first(), tick);
        if es[0].tile == "compost"@ {
            let corpse = CorpseM {
                entity_id: es[0].id,
                entity_type: spec_type_label(es[0]),
                death_tick: tick,
                cause: DeathCause::Blight,
                tile: es[0].tile,
            };
            let ev = EventM {
                tick: tick,
                kind: EventKindM::BlightKill { entity_id: es[0].id, tile: "compost"@ },
            };
            (surv, seq![corpse] + corps, seq![ev] + evs)
        } else {
            (seq![es[0]] + surv, corps, evs)
        }
    }
}

/// The whole blight phase.  The result also carries the stream position the
/// tick's generator has reached afterwards.
pub open spec fn spec_blight_phase(s: StateM, tick: u64, seed: u64, calls: u64) -> (
    StateM,
    Seq<EventM>,
    u64,
) {
    let ti = assoc_index_of(s.map.tiles, "compost"@);
    if ti == -1 {
        (s, Seq::empty(), calls)
    } else {
        let tile = s.map.tiles[ti].1;
        if tile.is_blighted() {
            let (tile2, cleared) = spec_tick_blight(tile);
            let s1 = StateM {
                map: MapM { tiles: s.map.tiles.update(ti, (s.map.tiles[ti].0, tile2)), ..s.map },
                ..s
            };
            if cleared {
                let si = assoc_index_of(s1.systems, "compost_heap"@);
                let s2 = if si == -1 {
                    s1
                } else {
                    StateM {
                        systems: s1.systems.update(
                            si,
                            (s1.systems[si].0, crate::system::spec_enable(s1.systems[si].1)),
                        ),
                        ..s1
                    }
                };
                (
                    s2,
                    seq![
                        EventM { tick: tick, kind: EventKindM::BlightCleared { tile: "compost"@ } },
                    ],
                    calls,
                )
            } else {
                (s1, Seq::empty(), calls)
            }
        } else {
            let contamination = tile.contamination_or_zero();
            if contamination > 0 {
                let roll = SeededRng::spec_chance(seed, calls, contamination);
                if roll {
                    let tile2 = TileM {
                        blighted: Some(true),
                        blight_ticks_remaining: Some(BLIGHT_DURATION),
                        ..tile
                    };
                    let s1 = StateM {
                        map: MapM {
                            tiles: s.map.tiles.update(ti, (s.map.tiles[ti].0, tile2)),
                            ..s.map
                        },
                        ..s
                    };
                    let si = assoc_index_of(s1.systems, "compost_heap"@);
                    let s2 = if si == -1 {
                        s1
                    } else {
                        let disabled = SystemM {
                            corpse_boosts: Seq::empty(),
                            ..crate::system::spec_disable(s1.systems[si].1)
                        };
                        StateM {
                            systems: s1.systems.update(si, (s1.systems[si].0, disabled)),
                            ..s1
                        }
                    };
                    let (surv, corps, kill_evs) = spec_blight_kills(s2.entities, tick);
                    let s3 = StateM {
                        entities: surv,
                        graveyard: GraveyardM {
                            corpses: s2.graveyard.corpses + corps,
                            ..s2.graveyard
                        },
                        ..s2
                    };
                    let struck = EventM {
                        tick: tick,
                        kind: EventKindM::BlightStruck {
                            tile: "compost"@,
                            contamination: contamination,
                            duration_ticks: BLIGHT_DURATION,
                        },
                    };
                    (s3, seq![struck] + kill_evs, (calls + 1) as u64)
                } else {
                    (s, Seq::empty(), (calls + 1) as u64)
                }
            } else {
                (s, Seq::empty(), calls)
            }
        }
    }
}

/// Run the blight phase on the snapshot.
fn process_blight(state: &mut GameState, events: &mut TickEvents, rng: &mut SeededRng)
    requires
        old(rng).spec_calls() < u64::MAX,
    ensures
        ({
            let (m2, evs, calls2) = spec_blight_phase(
                old(state).m(),
                old(state).m().tick,
                old(rng).spec_seed(),
                old(rng).spec_calls(),
            );
            &&& final(state).m() == m2
            &&& final(events).deep_view() == old(events).deep_view() + evs
            &&& final(rng).spec_seed() == old(rng).spec_seed()
            &&& final(rng).spec_calls() == calls2
            &&& opaque_untouched(*old(state), *final(state))
        }),
{
    let tick = state.tick;
    let ghost s0 = state.m();
    let ghost ev0 = events.deep_view();
    let ghost meta0 = state.meta;
    let ghost qev0 = state.queues.events@;

    let ti = match state.map.tile_index("compost") {
        Some(ti) => ti,
        None => {
            return ;
        },
    };

    if state.map.tiles[ti].1.is_blighted() {
        let cleared = state.map.tiles[ti].1.tick_blight();
        proof {
            let tile = s0.map.tiles[ti as int].1;
            let (tile2, c2) = spec_tick_blight(tile);
            assert(cleared == c2);
            assert(state.map.deep_view().tiles =~= s0.map.tiles.update(
                ti as int,
                (s0.map.tiles[ti as int].0, tile2),
            ));
        }
        if cleared {
            events.push(tick, EventKind::BlightCleared { tile: "compost".to_owned() });
            let ghost s1 = state.m();
            match state.system_index("compost_heap") {
                Some(si) => {
                    state.systems[si].1.enable();
                    proof {
                        assert(state.systems.deep_view() =~= s1.systems.update(
                            si as int,
                            (s1.systems[si as int].0, crate::system::spec_enable(
                                s1.systems[si as int].1,
                            )),
                        ));
                    }
                },
                None => {},
            }
            proof {
                assert(events.deep_view() =~= ev0 + seq![
                    EventM { tick: tick, kind: EventKindM::BlightCleared { tile: "compost"@ } },
                ]);
            }
        }
        return ;
    }

    let contamination = match state.map.tiles[ti].1.contamination {
        Some(c) => c,
        None => 0,
    };
    if contamination > 0 {
        let roll = rng.chance(contamination);
        if roll {
            state.map.tiles[ti].1.start_blight(BLIGHT_DURATION);
            proof {
                let tile = s0.map.tiles[ti as int].1;
                let tile2 = TileM {
                    blighted: Some(true),
                    blight_ticks_remaining: Some(BLIGHT_DURATION),
                    ..tile
                };
                assert(state.map.deep_view().tiles =~= s0.map.tiles.update(
                    ti as int,
                    (s0.map.tiles[ti as int].0, tile2),
                ));
            }
            events.push(
                tick,
                EventKind::BlightStruck {
                    tile: "compost".to_owned(),
                    contamination,
                    duration_ticks: BLIGHT_DURATION,
                },
            );
            let ghost s1 = state.m();
            match state.system_index("compost_heap") {
                Some(si) => {
                    state.systems[si].1.disable();
                    state.systems[si].1.corpse_boosts = Vec::new();
                    proof {
                        let disabled = SystemM {
                            corpse_boosts: Seq::empty(),
                            ..crate::system::spec_disable(s1.systems[si as int].1)
                        };
                        assert(state.systems.deep_view()[si as int].1.corpse_boosts
                            =~= Seq::<CorpseBoost>::empty());
                        assert(state.systems.deep_view() =~= s1.systems.update(
                            si as int,
                            (s1.systems[si as int].0, disabled),
                        ));
                    }
                },
                None => {},
            }

            // Kill the entities standing on the compost tile.
            let ghost s2 = state.m();
            let compost_key: String = "compost".to_owned();
            let mut pending: Vec<Entity> = Vec::new();
            core::mem::swap(&mut pending, &mut state.entities);
            let ghost pv = pending.deep_view();
            proof {
                assert(pv =~= s2.entities);
                assert(pv.skip(0) =~= pv);
            }
            let mut surviving: Vec<Entity> = Vec::new();
            let ghost mut laid: Seq<CorpseM> = Seq::empty();
            let ghost mut emitted: Seq<EventM> = Seq::empty();
            let ghost ev1 = events.deep_view();
            proof {
                let whole = spec_blight_kills(pv, tick);
                assert(surviving.deep_view() =~= Seq::<EntityM>::empty());
                assert(Seq::<EntityM>::empty() + whole.0 =~= whole.0);
                assert(Seq::<CorpseM>::empty() + whole.1 =~= whole.1);
                assert(Seq::<EventM>::empty() + whole.2 =~= whole.2);
                assert(ev1 + emitted =~= ev1);
                assert(s2.graveyard.corpses + laid =~= s2.graveyard.corpses);
            }
            let ghost i: int = 0;
            while pending.len() > 0
                invariant
                    0 <= i <= pv.len(),
                    pending.deep_view() == pv.skip(i),
                    tick == s2.tick,
                    compost_key@ == "compost"@,
                    state.tick == s2.tick,
                    state.systems.deep_view() == s2.systems,
                    state.entities.deep_view().len() == 0,
                    state.map.deep_view() == s2.map,
                    state.resources.deep_view() == s2.resources,
                    state.queues.m() == s2.queues,
                    state.queues.events@ == qev0,
                    state.meta == meta0,
                    state.graveyard.deep_view().corpses == s2.graveyard.corpses + laid,
                    state.graveyard.deep_view().total_processed == s2.graveyard.total_processed,
                    state.last_save_timestamp == s2.last_save_timestamp,
                    events.deep_view() == ev1 + emitted,
                    ({
                        let whole = spec_blight_kills(pv, tick);
                        let rest = spec_blight_kills(pv.skip(i), tick);
                        &&& whole.0 == surviving.deep_view() + rest.0
                        &&& whole.1 == laid + rest.1
                        &&& whole.2 == emitted + rest.2
                    }),
                decreases pending.len(),
            {
                proof {
                    assert(pv.skip(i).drop_first() =~= pv.skip(i + 1));
                    assert(pv.skip(i)[0] == pv[i]);
                }
                let ghost pre_surviving = surviving.deep_view();
                let ghost pre_laid = laid;
                let ghost pre_emitted = emitted;

                let e = pending.remove(0);
                proof {
                    assert(pending.deep_view() =~= pv.skip(i + 1));
                    assert(e.deep_view() == pv[i]);
                }
                if e.tile == compost_key {
                    events.push(
                        tick,
                        EventKind::BlightKill {
                            entity_id: e.id.clone(),
                            tile: "compost".to_owned(),
                        },
                    );
                    let label: String = match &e.kind {
                        EntityKind::Visitor { .. } => "visitor".to_owned(),
                        EntityKind::Ant { .. } => "ant".to_owned(),
                    };
                    state.graveyard.add_corpse(
                        crate::graveyard::Corpse {
                            entity_id: e.id.clone(),
                            entity_type: label,
                            death_tick: tick,
                            cause: DeathCause::Blight,
                            tile: e.tile.clone(),
                        },
                    );
                    proof {
                        let corpse = CorpseM {
                            entity_id: pv[i].id,
                            entity_type: spec_type_label(pv[i]),
                            death_tick: tick,
                            cause: DeathCause::Blight,
                            tile: pv[i].tile,
                        };
                        let ev = EventM {
                            tick: tick,
                            kind: EventKindM::BlightKill { entity_id: pv[i].id, tile: "compost"@ },
                        };
                        laid = pre_laid + seq![corpse];
                        emitted = pre_emitted + seq![ev];
                        assert(state.graveyard.deep_view().corpses =~= s2.graveyard.corpses
                            + laid);
                        assert(events.deep_view() =~= ev1 + emitted);
                        assert(surviving.deep_view() + spec_blight_kills(pv.skip(i + 1), tick).0
                            =~= pre_surviving + spec_blight_kills(pv.skip(i), tick).0);
                        assert(laid + spec_blight_kills(pv.skip(i + 1), tick).1 =~= pre_laid
                            + spec_blight_kills(pv.skip(i), tick).1);
                        assert(emitted + spec_blight_kills(pv.skip(i + 1), tick).2 =~= pre_emitted
                            + spec_blight_kills(pv.skip(i), tick).2);
                    }
                } else {
                    surviving.push(e);
                    proof {
                        assert(surviving.deep_view() =~= pre_surviving.push(pv[i]));
                        assert(surviving.deep_view() + spec_blight_kills(pv.skip(i + 1), tick).0
                            =~= pre_surviving + spec_blight_kills(pv.skip(i), tick).0);
                        assert(laid + spec_blight_kills(pv.skip(i + 1), tick).1 =~= pre_laid
                            + spec_blight_kills(pv.skip(i), tick).1);
                        assert(emitted + spec_blight_kills(pv.skip(i + 1), tick).2 =~= pre_emitted
                            + spec_blight_kills(pv.skip(i), tick).2);
                    }
                }
                proof {
                    i = i + 1;
                }
            }
            proof {
                assert(pv.skip(i) =~= Seq::<EntityM>::empty());
            }
            state.entities = surviving;
            proof {
                let whole = spec_blight_kills(pv, tick);
                assert(surviving.deep_view() + spec_blight_kills(pv.skip(i), tick).0
                    =~= surviving.deep_view());
                assert(laid + spec_blight_kills(pv.skip(i), tick).1 =~= laid);
                assert(emitted + spec_blight_kills(pv.skip(i), tick).2 =~= emitted);
                let (m2, evs, calls2) = spec_blight_phase(
                    s0,
                    s0.tick,
                    old(rng).spec_seed(),
                    old(rng).spec_calls(),
                );
                assert(state.m() == m2);
                assert(events.deep_view() =~= ev0 + evs);
            }
        }
    }
}

// ---------------------------------------------------------------------------
// Phase 6: queen spawning.
//
// With a queen chamber present, an empty colony with enough nutrients and
// fungus triggers an emergency spawn at once; otherwise a worker and an
// undertaker are spawned whenever the spawn interval has elapsed and the
// resources cover the cost.

/// The entities after a spawn: one worker and one undertaker at the origin,
/// with identifiers drawn at stream positions `calls` and `calls + 1`.
pub open spec fn spec_spawned_entities(es: Seq<EntityM>, seed: u64, calls: u64) -> Seq<EntityM> {
    let wid = SeededRng::spec_entity_id(seed, calls);
    let uid = SeededRng::spec_entity_id(seed, (calls + 1) as u64);
    es.push(crate::entity::spec_new_worker(wid, "origin"@)).push(
        crate::entity::spec_new_undertaker(uid, "origin"@),
    )
}

/// The resources after paying one spawn's cost.
pub open spec fn spec_spawn_costs(res: Seq<(Seq<char>, i64)>) -> Seq<(Seq<char>, i64)> {
    res_sub(
        res_sub(res, "nutrients"@, crate::constants::SPAWN_COST_NUTRIENTS),
        "fungus"@,
        crate::constants::SPAWN_COST_FUNGUS,
    )
}

/// The whole queen phase.  The results carry the updated last-spawn tick and
/// the stream position reached.
pub open spec fn spec_queen_phase(s: StateM, last_spawn: u64, tick: u64, seed: u64, calls: u64) -> (
    StateM,
    u64,
    u64,
    Seq<EventM>,
) {
    if assoc_index_of(s.systems, "queen_chamber"@) == -1 {
        (s, last_spawn, calls, Seq::empty())
    } else {
        let nutrients = res_get(s.resources, "nutrients"@);
        let fungus = res_get(s.resources, "fungus"@);
        let emergency = s.entities.len() == 0 && nutrients >= crate::constants::MIN_RESOURCES_TO_SPAWN
            && fungus >= crate::constants::MIN_RESOURCES_TO_SPAWN;
        if emergency {
            let wid = SeededRng::spec_entity_id(seed, calls);
            let uid = SeededRng::spec_entity_id(seed, (calls + 1) as u64);
            (
                StateM {
                    entities: spec_spawned_entities(s.entities, seed, calls),
                    resources: spec_spawn_costs(s.resources),
                    ..s
                },
                tick,
                (calls + 2) as u64,
                seq![
                    EventM {
                        tick: tick,
                        kind: EventKindM::EmergencySpawn { worker_id: wid, undertaker_id: uid },
                    },
                ],
            )
        } else if last_spawn == 0 {
            (s, tick, calls, Seq::empty())
        } else if tick - last_spawn < crate::constants::SPAWN_INTERVAL_TICKS {
            (s, last_spawn, calls, Seq::empty())
        } else if nutrients < crate::constants::MIN_RESOURCES_TO_SPAWN || fungus
            < crate::constants::MIN_RESOURCES_TO_SPAWN {
            (s, last_spawn, calls, Seq::empty())
        } else {
            let wid = SeededRng::spec_entity_id(seed, calls);
            let uid = SeededRng::spec_entity_id(seed, (calls + 1) as u64);
            (
                StateM {
                    entities: spec_spawned_entities(s.entities, seed, calls),
                    resources: spec_spawn_costs(s.resources),
                    ..s
                },
                tick,
                (calls + 2) as u64,
                seq![
                    EventM {
                        tick: tick,
                        kind: EventKindM::AntsSpawned {
                            worker_id: wid,
                            undertaker_id: uid,
                            nutrients_consumed: crate::constants::SPAWN_COST_NUTRIENTS,
                            fungus_consumed: crate::constants::SPAWN_COST_FUNGUS,
                        },
                    },
                ],
            )
        }
    }
}

// ---------------------------------------------------------------------------
// Phase 7: the receiver.
//
// Maintenance runs first and can silence or restore the receiver.  A working
// receiver drains a little influence, and, given enough influence and an
// elapsed cooldown, spends it on a summoning attempt that may bring one of
// three visitor archetypes.

/// The maintenance rules of the receiver, run every tick the receiver
/// exists: a lapsed interval consumes strange matter or silences the
/// receiver; a silent receiver with enough strange matter is restored.
pub open spec fn spec_maintenance(s: StateM, tick: u64) -> (StateM, Seq<EventM>) {
    match s.meta.maintenance_goal {
        None => (s, Seq::empty()),
        Some(goal) => {
            let last = match goal.last_maintained {
                Some(l) => l,
                None => tick,
            };
            let interval = match goal.interval_ticks {
                Some(iv) => iv,
                None => crate::constants::MAINTENANCE_INTERVAL,
            };
            let since: u64 = if tick >= last {
                (tick - last) as u64
            } else {
                0
            };
            let first = if since >= interval {
                if res_get(s.resources, "strange_matter"@)
                    >= crate::constants::MAINTENANCE_COST_STRANGE_MATTER {
                    (
                        StateM {
                            resources: res_sub(
                                s.resources,
                                "strange_matter"@,
                                crate::constants::MAINTENANCE_COST_STRANGE_MATTER,
                            ),
                            meta: crate::state::MetaM {
                                maintenance_goal: Some(
                                    crate::state::MaintenanceGoalM {
                                        last_maintained: Some(tick),
                                        ..goal
                                    },
                                ),
                                ..s.meta
                            },
                            ..s
                        },
                        Seq::<EventM>::empty(),
                    )
                } else if !s.meta.receiver_silent {
                    (
                        StateM {
                            meta: crate::state::MetaM {
                                receiver_silent: true,
                                receiver_failed_tick: Some(tick),
                                ..s.meta
                            },
                            ..s
                        },
                        seq![EventM { tick: tick, kind: EventKindM::ReceiverSilent }],
                    )
                } else {
                    (s, Seq::<EventM>::empty())
                }
            } else {
                (s, Seq::<EventM>::empty())
            };
            let s1 = first.0;
            let ev1 = first.1;
            if s1.meta.receiver_silent && res_get(s1.resources, "strange_matter"@)
                >= crate::constants::MAINTENANCE_COST_STRANGE_MATTER {
                let goal1 = match s1.meta.maintenance_goal {
                    Some(g) => g,
                    None => crate::state::MaintenanceGoalM {
                        last_maintained: None,
                        interval_ticks: None,
                    },
                };
                (
                    StateM {
                        resources: res_sub(
                            s1.resources,
                            "strange_matter"@,
                            crate::constants::MAINTENANCE_COST_STRANGE_MATTER,
                        ),
                        meta: crate::state::MetaM {
                            receiver_silent: false,
                            maintenance_goal: Some(
                                crate::state::MaintenanceGoalM {
                                    last_maintained: Some(tick),
                                    ..goal1
                                },
                            ),
                            ..s1.meta
                        },
                        ..s1
                    },
                    ev1 + seq![EventM { tick: tick, kind: EventKindM::ReceiverRestored }],
                )
            } else {
                (s1, ev1)
            }
        },
    }
}

/// The whole receiver phase.  The results carry the updated last-summon
/// tick and the stream position reached.
pub open spec fn spec_receiver_phase(
    s: StateM,
    last_summon: u64,
    tick: u64,
    seed: u64,
    calls: u64,
) -> (StateM, u64, u64, Seq<EventM>) {
    if assoc_index_of(s.systems, "receiver"@) == -1 {
        (s, last_summon, calls, Seq::empty())
    } else {
        let (s1, ev1) = spec_maintenance(s, tick);
        if s1.meta.receiver_silent {
            (s1, last_summon, calls, ev1)
        } else {
            let s2 = if res_get(s1.resources, "influence"@) > crate::constants::LISTENING_DRAIN {
                StateM {
                    resources: res_sub(
                        s1.resources,
                        "influence"@,
                        crate::constants::LISTENING_DRAIN,
                    ),
                    ..s1
                }
            } else {
                s1
            };
            let influence = res_get(s2.resources, "influence"@);
            if influence < crate::constants::SUMMON_COST {
                (s2, last_summon, calls, ev1)
            } else if last_summon > 0 && tick - last_summon < crate::constants::SUMMON_COOLDOWN {
                (s2, last_summon, calls, ev1)
            } else {
                let s3 = StateM {
                    resources: res_sub(s2.resources, "influence"@, crate::constants::SUMMON_COST),
                    ..s2
                };
                let success = SeededRng::spec_chance(seed, calls, crate::constants::SUMMON_CHANCE);
                let ev_spent = EventM {
                    tick: tick,
                    kind: EventKindM::InfluenceSpent {
                        amount: crate::constants::SUMMON_COST,
                        success: success,
                    },
                };
                if success {
                    let idx = SeededRng::spec_range(seed, (calls + 1) as u64, 0, 2);
                    let vid = SeededRng::spec_visitor_id(seed, (calls + 2) as u64);
                    let visitor = if idx == 0 {
                        crate::entity::spec_new_wanderer(vid)
                    } else if idx == 1 {
                        crate::entity::spec_new_observer(vid)
                    } else {
                        crate::entity::spec_new_hungry(vid)
                    };
                    let vtype = if idx == 0 {
                        VisitorType::Wanderer
                    } else if idx == 1 {
                        VisitorType::Observer
                    } else {
                        VisitorType::Hungry
                    };
                    let name = match visitor.name {
                        Some(n) => n,
                        None => Seq::<char>::empty(),
                    };
                    (
                        StateM { entities: s3.entities.push(visitor), ..s3 },
                        tick,
                        (calls + 3) as u64,
                        ev1 + seq![
                            ev_spent,
                            EventM {
                                tick: tick,
                                kind: EventKindM::VisitorArrived {
                                    visitor_id: vid,
                                    visitor_type: vtype,
                                    name: name,
                                },
                            },
                        ],
                    )
                } else {
                    (
                        s3,
                        tick,
                        (calls + 1) as u64,
                        ev1 + seq![
                            ev_spent,
                            EventM { tick: tick, kind: EventKindM::SummoningFailed },
                        ],
                    )
                }
            }
        }
    }
}

/// Run the receiver-maintenance rules on the snapshot.
fn check_receiver_maintenance(state: &mut GameState, events: &mut TickEvents)
    ensures
        ({
            let (m2, evs) = spec_maintenance(old(state).m(), old(state).m().tick);
            &&& final(state).m() == m2
            &&& final(events).deep_view() == old(events).deep_view() + evs
            &&& opaque_untouched(*old(state), *final(state))
        }),
{
    let tick = state.tick;
    let ghost s0 = state.m();
    let ghost ev0 = events.deep_view();

    let goal_present = match &state.meta.maintenance_goal {
        Some(_) => true,
        None => false,
    };
    if !goal_present {
        return ;
    }
    let (last, interval) = match &state.meta.maintenance_goal {
        Some(g) => (
            match g.last_maintained {
                Some(l) => l,
                None => tick,
            },
            match g.interval_ticks {
                Some(iv) => iv,
                None => crate::constants::MAINTENANCE_INTERVAL,
            },
        ),
        None => (tick, crate::constants::MAINTENANCE_INTERVAL),
    };
    let since = tick.saturating_sub(last);

    if since >= interval {
        let sm = state.resources.get("strange_matter");
        if sm >= crate::constants::MAINTENANCE_COST_STRANGE_MATTER {
            state.resources.sub("strange_matter", crate::constants::MAINTENANCE_COST_STRANGE_MATTER);
            match &mut state.meta.maintenance_goal {
                Some(g) => {
                    g.last_maintained = Some(tick);
                },
                None => {},
            }
        } else if !state.meta.receiver_silent {
            state.meta.receiver_silent = true;
            state.meta.receiver_failed_tick = Some(tick);
            events.push(tick, EventKind::ReceiverSilent);
        }
    }

    if state.meta.receiver_silent && state.resources.get("strange_matter")
        >= crate::constants::MAINTENANCE_COST_STRANGE_MATTER {
        state.resources.sub("strange_matter", crate::constants::MAINTENANCE_COST_STRANGE_MATTER);
        state.meta.receiver_silent = false;
        match &mut state.meta.maintenance_goal {
            Some(g) => {
                g.last_maintained = Some(tick);
            },
            None => {},
        }
        events.push(tick, EventKind::ReceiverRestored);
    }
}

/// The tick engine: the base seed and the spawn/summon bookkeeping that
/// lives with the engine instance rather than with the snapshot.
pub struct TickEngine {
    /// Base seed; each tick derives its own generator from it.
    pub seed: u64,
    /// Last tick at which the queen spawned; zero means "never".
    pub last_spawn_tick: u64,
    /// Last tick at which a summoning was attempted; zero means "never".
    pub last_summon_tick: u64,
}

impl TickEngine {
    /// A fresh engine over the given seed.
    pub fn new(seed: u64) -> (e: TickEngine)
        ensures
            e.seed == seed,
            e.last_spawn_tick == 0,
            e.last_summon_tick == 0,
    {
        TickEngine { seed, last_spawn_tick: 0, last_summon_tick: 0 }
    }

    /// Run the queen phase on the snapshot.
    fn process_queen(&mut self, state: &mut GameState, events: &mut TickEvents, rng: &mut SeededRng)
        requires
            old(rng).spec_calls() <= u64::MAX - 2,
            old(self).last_spawn_tick <= old(state).tick,
        ensures
            ({
                let (m2, ls2, calls2, evs) = spec_queen_phase(
                    old(state).m(),
                    old(self).last_spawn_tick,
                    old(state).m().tick,
                    old(rng).spec_seed(),
                    old(rng).spec_calls(),
                );
                &&& final(state).m() == m2
                &&& final(self).last_spawn_tick == ls2
                &&& final(self).seed == old(self).seed
                &&& final(self).last_summon_tick == old(self).last_summon_tick
                &&& final(events).deep_view() == old(events).deep_view() + evs
                &&& final(rng).spec_seed() == old(rng).spec_seed()
                &&& final(rng).spec_calls() == calls2
                &&& opaque_untouched(*old(state), *final(state))
                &&& final(self).last_spawn_tick <= old(state).tick
            }),
    {
        let tick = state.tick;
        let ghost s0 = state.m();
        let ghost ev0 = events.deep_view();

        if !state.has_system("queen_chamber") {
            return ;
        }

        let nutrients = state.resources.get("nutrients");
        let fungus = state.resources.get("fungus");
        let entity_count = state.entities.len();

        let is_emergency = entity_count == 0 && nutrients >= crate::constants::MIN_RESOURCES_TO_SPAWN
            && fungus >= crate::constants::MIN_RESOURCES_TO_SPAWN;

        if is_emergency {
            let worker_id = rng.entity_id();
            let undertaker_id = rng.entity_id();

            state.entities.push(Entity::new_worker(worker_id.clone(), "origin".to_owned()));
            state.entities.push(Entity::new_undertaker(undertaker_id.clone(), "origin".to_owned()));
            proof {
                assert(state.entities.deep_view() =~= spec_spawned_entities(
                    s0.entities,
                    old(rng).spec_seed(),
                    old(rng).spec_calls(),
                ));
            }

            state.resources.sub("nutrients", crate::constants::SPAWN_COST_NUTRIENTS);
            state.resources.sub("fungus", crate::constants::SPAWN_COST_FUNGUS);

            self.last_spawn_tick = tick;

            events.push(tick, EventKind::EmergencySpawn { worker_id, undertaker_id });
            proof {
                let (m2, ls2, calls2, evs) = spec_queen_phase(
                    s0,
                    old(self).last_spawn_tick,
                    s0.tick,
                    old(rng).spec_seed(),
                    old(rng).spec_calls(),
                );
                assert(state.m() == m2);
                assert(events.deep_view() =~= ev0 + evs);
            }
            return ;
        }

        if self.last_spawn_tick == 0 {
            self.last_spawn_tick = tick;
            return ;
        }

        let ticks_since_spawn = tick - self.last_spawn_tick;
        if ticks_since_spawn < crate::constants::SPAWN_INTERVAL_TICKS {
            return ;
        }

        if nutrients < crate::constants::MIN_RESOURCES_TO_SPAWN || fungus
            < crate::constants::MIN_RESOURCES_TO_SPAWN {
            return ;
        }

        let worker_id = rng.entity_id();
        let undertaker_id = rng.entity_id();

        state.entities.push(Entity::new_worker(worker_id.clone(), "origin".to_owned()));
        state.entities.push(Entity::new_undertaker(undertaker_id.clone(), "origin".to_owned()));
        proof {
            assert(state.entities.deep_view() =~= spec_spawned_entities(
                s0.entities,
                old(rng).spec_seed(),
                old(rng).spec_calls(),
            ));
        }

        state.resources.sub("nutrients", crate::constants::SPAWN_COST_NUTRIENTS);
        state.resources.sub("fungus", crate::constants::SPAWN_COST_FUNGUS);

        self.last_spawn_tick = tick;

        events.push(
            tick,
            EventKind::AntsSpawned {
                worker_id,
                undertaker_id,
                nutrients_consumed: crate::constants::SPAWN_COST_NUTRIENTS,
                fungus_consumed: crate::constants::SPAWN_COST_FUNGUS,
            },
        );
        proof {
            let (m2, ls2, calls2, evs) = spec_queen_phase(
                s0,
                old(self).last_spawn_tick,
                s0.tick,
                old(rng).spec_seed(),
                old(rng).spec_calls(),
            );
            assert(state.m() == m2);
            assert(events.deep_view() =~= ev0 + evs);
        }
    }

    /// Run the receiver phase on the snapshot.
    fn process_receiver(
        &mut self,
        state: &mut GameState,
        events: &mut TickEvents,
        rng: &mut SeededRng,
    )
        requires
            old(rng).spec_calls() <= u64::MAX - 3,
            old(self).last_summon_tick <= old(state).tick,
        ensures
            ({
                let (m2, lsm2, calls2, evs) = spec_receiver_phase(
                    old(state).m(),
                    old(self).last_summon_tick,
                    old(state).m().tick,
                    old(rng).spec_seed(),
                    old(rng).spec_calls(),
                );
                &&& final(state).m() == m2
                &&& final(self).last_summon_tick == lsm2
                &&& final(self).seed == old(self).seed
                &&& final(self).last_spawn_tick == old(self).last_spawn_tick
                &&& final(events).deep_view() == old(events).deep_view() + evs
                &&& final(rng).spec_seed() == old(rng).spec_seed()
                &&& final(rng).spec_calls() == calls2
                &&& opaque_untouched(*old(state), *final(state))
                &&& final(self).last_summon_tick <= old(state).tick
            }),
    {
        let tick = state.tick;
        let ghost s0 = state.m();
        let ghost ev0 = events.deep_view();

        if !state.has_system("receiver") {
            return ;
        }

        check_receiver_maintenance(state, events);
        let ghost s1 = state.m();
        let ghost ev1 = events.deep_view();

        if state.meta.receiver_silent {
            return ;
        }

        if state.resources.get("influence") > crate::constants::LISTENING_DRAIN {
            state.resources.sub("influence", crate::constants::LISTENING_DRAIN);
        }
        let ghost s2 = state.m();

        let influence = state.resources.get("influence");
        if influence < crate::constants::SUMMON_COST {
            return ;
        }

        if self.last_summon_tick > 0 && (tick - self.last_summon_tick)
            < crate::constants::SUMMON_COOLDOWN {
            return ;
        }

        state.resources.sub("influence", crate::constants::SUMMON_COST);
        self.last_summon_tick = tick;

        let success = rng.chance(crate::constants::SUMMON_CHANCE);

        events.push(
            tick,
            EventKind::InfluenceSpent { amount: crate::constants::SUMMON_COST, success },
        );

        if success {
            let visitor_type_idx = rng.range(0, 2);
            let vid = rng.visitor_id();
            let (visitor, visitor_type) = if visitor_type_idx == 0 {
                (Entity::new_wanderer(vid.clone()), VisitorType::Wanderer)
            } else if visitor_type_idx == 1 {
                (Entity::new_observer(vid.clone()), VisitorType::Observer)
            } else {
                (Entity::new_hungry(vid.clone()), VisitorType::Hungry)
            };

            let name: String = match &visitor.name {
                Some(n) => n.clone(),
                None => String::new(),
            };

            state.entities.push(visitor);

            events.push(
                tick,
                EventKind::VisitorArrived { visitor_id: vid, visitor_type, name },
            );
            proof {
                let (m2, lsm2, calls2, evs) = spec_receiver_phase(
                    s0,
                    old(self).last_summon_tick,
                    s0.tick,
                    old(rng).spec_seed(),
                    old(rng).spec_calls(),
                );
                assert(state.entities.deep_view() =~= m2.entities);
                assert(state.m() == m2);
                assert(events.deep_view() =~= ev0 + evs);
            }
        } else {
            events.push(tick, EventKind::SummoningFailed);
            proof {
                let (m2, lsm2, calls2, evs) = spec_receiver_phase(
                    s0,
                    old(self).last_summon_tick,
                    s0.tick,
                    old(rng).spec_seed(),
                    old(rng).spec_calls(),
                );
                assert(state.m() == m2);
                assert(events.deep_view() =~= ev0 + evs);
            }
        }
    }
}

// ---------------------------------------------------------------------------
// Phase 8: visitor passive generation.

/// Applying one visitor's generation table: every listed resource grows by
/// its rate, with one event per resource.
pub open spec fn spec_generation(
    id: Seq<char>,
    gen: Seq<(Seq<char>, i64)>,
    res: Seq<(Seq<char>, i64)>,
    tick: u64,
) -> (Seq<(Seq<char>, i64)>, Seq<EventM>)
    decreases gen.len(),
{
    if gen.len() == 0 {
        (res, Seq::empty())
    } else {
        let res1 = res_add(res, gen[0].0, gen[0].1);
        let ev = EventM {
            tick: tick,
            kind: EventKindM::PassiveGeneration {
                entity_id: id,
                resource: gen[0].0,
                amount: gen[0].1,
            },
        };
        let (res2, evs) = spec_generation(id, gen.drop_first(), res1, tick);
        (res2, seq![ev] + evs)
    }
}

/// The generation table of a visitor, if it has one.
pub open spec fn spec_generates(e: EntityM) -> Option<Seq<(Seq<char>, i64)>> {
    match e.kind {
        EntityKindM::Visitor { generates, .. } => generates,
        EntityKindM::Ant { .. } => None,
    }
}

/// The whole visitor phase: every visitor with a generation table adds its
/// rates, in entity order.
pub open spec fn spec_visitors_phase(
    es: Seq<EntityM>,
    res: Seq<(Seq<char>, i64)>,
    tick: u64,
) -> (Seq<(Seq<char>, i64)>, Seq<EventM>)
    decreases es.len(),
{
    if es.len() == 0 {
        (res, Seq::empty())
    } else {
        let (res1, ev1) = match spec_generates(es[0]) {
            Some(g) => spec_generation(es[0].id, g, res, tick),
            None => (res, Seq::empty()),
        };
        let (res2, ev2) = spec_visitors_phase(es.drop_first(), res1, tick);
        (res2, ev1 + ev2)
    }
}

/// Run the visitor phase on the snapshot.
fn process_visitors(state: &mut GameState, events: &mut TickEvents)
    ensures
        ({
            let (res2, evs) = spec_visitors_phase(
                old(state).m().entities,
                old(state).m().resources,
                old(state).m().tick,
            );
            &&& final(state).m() == (StateM { resources: res2, ..old(state).m() })
            &&& final(events).deep_view() == old(events).deep_view() + evs
            &&& opaque_untouched(*old(state), *final(state))
        }),
{
    let tick = state.tick;
    let ghost s0 = state.m();
    let ghost ev0 = events.deep_view();
    let ghost meta0 = state.meta;
    let ghost qev0 = state.queues.events@;
    let ghost es = s0.entities;

    let ghost mut emitted: Seq<EventM> = Seq::empty();
    proof {
        assert(es.skip(0) =~= es);
        assert(ev0 + emitted =~= ev0);
        assert(Seq::<EventM>::empty() + spec_visitors_phase(es, s0.resources, tick).1
            =~= spec_visitors_phase(es, s0.resources, tick).1);
    }
    let mut i: usize = 0;
    while i < state.entities.len()
        invariant
            i <= state.entities.len(),
            tick == s0.tick,
            state.tick == s0.tick,
            state.systems.deep_view() == s0.systems,
            state.entities.deep_view() == s0.entities,
            es == s0.entities,
            state.map.deep_view() == s0.map,
            state.queues.m() == s0.queues,
            state.queues.events@ == qev0,
            state.meta == meta0,
            state.graveyard.deep_view() == s0.graveyard,
            state.last_save_timestamp == s0.last_save_timestamp,
            events.deep_view() == ev0 + emitted,
            ({
                let whole = spec_visitors_phase(es, s0.resources, tick);
                let rest = spec_visitors_phase(es.skip(i as int), state.resources.deep_view(), tick);
                &&& whole.0 == rest.0
                &&& whole.1 == emitted + rest.1
            }),
        decreases state.entities.len() - i,
    {
        proof {
            assert(es.skip(i as int).drop_first() =~= es.skip(i + 1));
            assert(es.skip(i as int)[0] == es[i as int]);
        }
        let ghost pre_res = state.resources.deep_view();
        let ghost pre_emitted = emitted;

        let gen: Option<Resources> = match &state.entities[i].kind {
            EntityKind::Visitor { generates: Some(g), .. } => Some(g.snapshot()),
            _ => None,
        };
        match gen {
            Some(g) => {
                let ghost gv = g.deep_view();
                proof {
                    assert(spec_generates(es[i as int]) == Some(gv));
                    assert(gv.skip(0) =~= gv);
                    assert(emitted + spec_generation(es[i as int].id, gv, pre_res, tick).1
                        =~= pre_emitted + spec_generation(es[i as int].id, gv, pre_res, tick).1);
                }
                let eid: String = state.entities[i].id.clone();
                let mut j: usize = 0;
                while j < g.entries.len()
                    invariant
                        j <= g.entries.len(),
                        gv == g.deep_view(),
                        eid@ == es[i as int].id,
                        0 <= i < es.len(),
                        tick == s0.tick,
                        state.tick == s0.tick,
                        state.systems.deep_view() == s0.systems,
                        state.entities.deep_view() == s0.entities,
                        es == s0.entities,
                        state.map.deep_view() == s0.map,
                        state.queues.m() == s0.queues,
                        state.queues.events@ == qev0,
                        state.meta == meta0,
                        state.graveyard.deep_view() == s0.graveyard,
                        state.last_save_timestamp == s0.last_save_timestamp,
                        events.deep_view() == ev0 + emitted,
                        ({
                            let whole = spec_generation(es[i as int].id, gv, pre_res, tick);
                            let rest = spec_generation(
                                es[i as int].id,
                                gv.skip(j as int),
                                state.resources.deep_view(),
                                tick,
                            );
                            &&& whole.0 == rest.0
                            &&& pre_emitted + whole.1 == emitted + rest.1
                        }),
                    decreases g.entries.len() - j,
                {
                    proof {
                        assert(gv.skip(j as int).drop_first() =~= gv.skip(j + 1));
                        assert(gv.skip(j as int)[0] == gv[j as int]);
                    }
                    let ghost inner_pre = emitted;
                    let ghost inner_res = state.resources.deep_view();
                    state.resources.add(g.entries[j].0.as_str(), g.entries[j].1);
                    events.push(
                        tick,
                        EventKind::PassiveGeneration {
                            entity_id: eid.clone(),
                            resource: g.entries[j].0.clone(),
                            amount: g.entries[j].1,
                        },
                    );
                    proof {
                        emitted = inner_pre + seq![
                            EventM {
                                tick: tick,
                                kind: EventKindM::PassiveGeneration {
                                    entity_id: es[i as int].id,
                                    resource: gv[j as int].0,
                                    amount: gv[j as int].1,
                                },
                            },
                        ];
                        assert(events.deep_view() =~= ev0 + emitted);
                        let rest_pre = spec_generation(es[i as int].id, gv.skip(j as int), inner_res, tick);
                        let rest_post = spec_generation(
                            es[i as int].id,
                            gv.skip(j + 1),
                            state.resources.deep_view(),
                            tick,
                        );
                        assert(rest_pre.0 == rest_post.0);
                        assert(emitted + rest_post.1 =~= inner_pre + rest_pre.1);
                    }
                    j += 1;
                }
                proof {
                    assert(gv.skip(g.entries.len() as int) =~= Seq::<(Seq<char>, i64)>::empty());
                }
            },
            None => {
                proof {
                    assert(spec_generates(es[i as int]) is None);
                }
            },
        }
        proof {
            let rest_pre = spec_visitors_phase(es.skip(i as int), pre_res, tick);
            let rest_post = spec_visitors_phase(es.skip(i + 1), state.resources.deep_view(), tick);
            let step = match spec_generates(es[i as int]) {
                Some(g) => spec_generation(es[i as int].id, g, pre_res, tick),
                None => (pre_res, Seq::<EventM>::empty()),
            };
            assert(rest_pre.1 == step.1 + rest_post.1);
            assert(emitted + rest_post.1 =~= pre_emitted + rest_pre.1);
        }
        i += 1;
    }
    proof {
        assert(es.skip(state.entities.len() as int) =~= Seq::<EntityM>::empty());
        let whole = spec_visitors_phase(es, s0.resources, tick);
        assert(emitted + spec_visitors_phase(
            es.skip(state.entities.len() as int),
            state.resources.deep_view(),
            tick,
        ).1 =~= emitted);
        assert(state.m() == (StateM { resources: whole.0, ..s0 }));
    }
}

// ---------------------------------------------------------------------------
// Phase 9: resource thresholds.

/// The events one resource emits: one crossing per threshold that its amount
/// passed upward this tick.
pub open spec fn spec_crossings(
    name: Seq<char>,
    prev: i64,
    cur: i64,
    ts: Seq<i64>,
    tick: u64,
) -> Seq<EventM>
    decreases ts.len(),
{
    if ts.len() == 0 {
        Seq::empty()
    } else {
        let head: Seq<EventM> = if prev < ts[0] && cur >= ts[0] {
            seq![
                EventM {
                    tick: tick,
                    kind: EventKindM::ThresholdCrossed {
                        resource: name,
                        threshold: ts[0],
                        current: cur,
                    },
                },
            ]
        } else {
            Seq::empty()
        };
        head + spec_crossings(name, prev, cur, ts.drop_first(), tick)
    }
}

/// The whole threshold phase: every resource is compared, in table order,
/// against its amount before the tick's phases ran.
pub open spec fn spec_thresholds_phase(
    res: Seq<(Seq<char>, i64)>,
    prev: Seq<(Seq<char>, i64)>,
    tick: u64,
) -> Seq<EventM>
    decreases res.len(),
{
    if res.len() == 0 {
        Seq::empty()
    } else {
        spec_crossings(
            res[0].0,
            res_get(prev, res[0].0),
            res[0].1,
            crate::constants::spec_thresholds(),
            tick,
        ) + spec_thresholds_phase(res.drop_first(), prev, tick)
    }
}

/// Run the threshold phase: the snapshot is only read.
fn check_thresholds(state: &GameState, prev: &Resources, events: &mut TickEvents)
    ensures
        final(events).deep_view() == old(events).deep_view() + spec_thresholds_phase(
            state.m().resources,
            prev.deep_view(),
            state.m().tick,
        ),
{
    let tick = state.tick;
    let ghost rv = state.m().resources;
    let ghost pv = prev.deep_view();
    let ghost ev0 = events.deep_view();
    let thresholds = crate::constants::thresholds_vec();
    let ghost tv = thresholds.deep_view();

    let ghost mut emitted: Seq<EventM> = Seq::empty();
    proof {
        assert(rv.skip(0) =~= rv);
        assert(ev0 + emitted =~= ev0);
        assert(Seq::<EventM>::empty() + spec_thresholds_phase(rv, pv, tick)
            =~= spec_thresholds_phase(rv, pv, tick));
    }
    let mut i: usize = 0;
    while i < state.resources.entries.len()
        invariant
            i <= state.resources.entries.len(),
            rv == state.m().resources,
            pv == prev.deep_view(),
            tv == thresholds.deep_view(),
            tv == crate::constants::spec_thresholds(),
            tick == state.tick,
            events.deep_view() == ev0 + emitted,
            spec_thresholds_phase(rv, pv, tick) == emitted + spec_thresholds_phase(
                rv.skip(i as int),
                pv,
                tick,
            ),
        decreases state.resources.entries.len() - i,
    {
        proof {
            assert(rv.skip(i as int).drop_first() =~= rv.skip(i + 1));
            assert(rv.skip(i as int)[0] == rv[i as int]);
        }
        let ghost outer_pre = emitted;
        let name: &String = &state.resources.entries[i].0;
        let current = state.resources.entries[i].1;
        let prev_amount = prev.get(name.as_str());
        proof {
            assert(name@ == rv[i as int].0);
            assert(prev_amount == res_get(pv, rv[i as int].0));
            assert(tv.skip(0) =~= tv);
            assert(emitted + spec_crossings(rv[i as int].0, prev_amount, current, tv, tick)
                =~= outer_pre + spec_crossings(rv[i as int].0, prev_amount, current, tv, tick));
        }
        let mut j: usize = 0;
        while j < thresholds.len()
            invariant
                j <= thresholds.len(),
                tv == thresholds.deep_view(),
                tick == state.tick,
                rv == state.m().resources,
                0 <= i < rv.len(),
                name@ == rv[i as int].0,
                current == rv[i as int].1,
                prev_amount == res_get(pv, rv[i as int].0),
                events.deep_view() == ev0 + emitted,
                outer_pre + spec_crossings(rv[i as int].0, prev_amount, current, tv, tick)
                    == emitted + spec_crossings(
                    rv[i as int].0,
                    prev_amount,
                    current,
                    tv.skip(j as int),
                    tick,
                ),
            decreases thresholds.len() - j,
        {
            proof {
                assert(tv.skip(j as int).drop_first() =~= tv.skip(j + 1));
                assert(tv.skip(j as int)[0] == tv[j as int]);
            }
            let ghost inner_pre = emitted;
            let t = thresholds[j];
            if prev_amount < t && current >= t {
                events.push(
                    tick,
                    EventKind::ThresholdCrossed {
                        resource: name.clone(),
                        threshold: t,
                        current,
                    },
                );
                proof {
                    emitted = inner_pre + seq![
                        EventM {
                            tick: tick,
                            kind: EventKindM::ThresholdCrossed {
                                resource: rv[i as int].0,
                                threshold: tv[j as int],
                                current: rv[i as int].1,
                            },
                        },
                    ];
                    assert(events.deep_view() =~= ev0 + emitted);
                }
            }
            proof {
                assert(emitted + spec_crossings(
                    rv[i as int].0,
                    prev_amount,
                    current,
                    tv.skip(j + 1),
                    tick,
                ) =~= inner_pre + spec_crossings(
                    rv[i as int].0,
                    prev_amount,
                    current,
                    tv.skip(j as int),
                    tick,
                ));
            }
            j += 1;
        }
        proof {
            assert(tv.skip(thresholds.len() as int) =~= Seq::<i64>::empty());
            assert(emitted + spec_thresholds_phase(rv.skip(i + 1), pv, tick) =~= outer_pre
                + spec_thresholds_phase(rv.skip(i as int), pv, tick));
        }
        i += 1;
    }
    proof {
        assert(rv.skip(state.resources.entries.len() as int) =~= Seq::<(Seq<char>, i64)>::empty());
        assert(emitted + spec_thresholds_phase(
            rv.skip(state.resources.entries.len() as int),
            pv,
            tick,
        ) =~= emitted);
    }
}

// ---------------------------------------------------------------------------
// Phase 10: boredom.

/// The whole boredom phase: an idle tick raises the counter, a busy one
/// lowers it, and the peak resets it with one report.
pub open spec fn spec_boredom_phase(s: StateM, tick: u64) -> (StateM, Seq<EventM>) {
    let idle = s.queues.actions.len() == 0 && s.queues.events_len == 0;
    let b1: u64 = if idle {
        if s.meta.boredom < u64::MAX {
            (s.meta.boredom + 1) as u64
        } else {
            u64::MAX
        }
    } else {
        if s.meta.boredom > 0 {
            (s.meta.boredom - 1) as u64
        } else {
            0
        }
    };
    if b1 >= crate::constants::BOREDOM_THRESHOLD {
        (
            StateM { meta: crate::state::MetaM { boredom: 0, ..s.meta }, ..s },
            seq![EventM { tick: tick, kind: EventKindM::BoredomHigh { level: b1 } }],
        )
    } else {
        (StateM { meta: crate::state::MetaM { boredom: b1, ..s.meta }, ..s }, Seq::empty())
    }
}

/// Run the boredom phase on the snapshot.
fn process_boredom(state: &mut GameState, events: &mut TickEvents)
    ensures
        ({
            let (m2, evs) = spec_boredom_phase(old(state).m(), old(state).m().tick);
            &&& final(state).m() == m2
            &&& final(events).deep_view() == old(events).deep_view() + evs
            &&& opaque_untouched(*old(state), *final(state))
        }),
{
    let tick = state.tick;

    let idle = !state.queues.has_actions() && state.queues.events.is_empty();
    if idle {
        state.meta.boredom = state.meta.boredom.saturating_add(1);
    } else {
        state.meta.boredom = state.meta.boredom.saturating_sub(1);
    }

    if state.meta.boredom >= crate::constants::BOREDOM_THRESHOLD {
        events.push(tick, EventKind::BoredomHigh { level: state.meta.boredom });
        state.meta.boredom = 0;
    }
}

// ---------------------------------------------------------------------------
// The tick: the ten phases in their fixed order.

/// One whole tick over the model: the new snapshot, the engine's updated
/// spawn and summon bookkeeping, and the events, in emission order.  The
/// tick's generator is seeded from (base seed, tick number) alone, so this
/// function of (snapshot, seed, bookkeeping) is the engine's entire
/// observable behaviour.
pub open spec fn spec_tick(s: StateM, seed: u64, last_spawn: u64, last_summon: u64) -> (
    StateM,
    u64,
    u64,
    Seq<EventM>,
) {
    let tick = (s.tick + 1) as u64;
    let s_t = StateM { tick: tick, ..s };
    let tseed = SeededRng::spec_tick_seed(seed, tick);
    let prev = s_t.resources;
    let (acts1, res1, ev1) = spec_actions_phase(s_t.queues.actions, s_t.resources, tick);
    let s1 = StateM { resources: res1, queues: QueuesM { actions: acts1, ..s_t.queues }, ..s_t };
    let (sys2, res2, ev2) = spec_systems_phase(s1.systems, s1.resources, tick);
    let s2 = StateM { systems: sys2, resources: res2, ..s1 };
    let (ents3, res3, corps3, ev3) = spec_entities_phase(s2.entities, s2.resources, tick);
    let s3 = StateM {
        entities: ents3,
        resources: res3,
        graveyard: GraveyardM { corpses: s2.graveyard.corpses + corps3, ..s2.graveyard },
        ..s2
    };
    let (s4, ev4) = spec_undertakers_phase(s3, tick);
    let (s5, ev5, c5) = spec_blight_phase(s4, tick, tseed, 0);
    let (s6, ls6, c6, ev6) = spec_queen_phase(s5, last_spawn, tick, tseed, c5);
    let (s7, lsm7, c7, ev7) = spec_receiver_phase(s6, last_summon, tick, tseed, c6);
    let (res8, ev8) = spec_visitors_phase(s7.entities, s7.resources, tick);
    let s8 = StateM { resources: res8, ..s7 };
    let ev9 = spec_thresholds_phase(s8.resources, prev, tick);
    let (s10, ev10) = spec_boredom_phase(s8, tick);
    (s10, ls6, lsm7, ev1 + ev2 + ev3 + ev4 + ev5 + ev6 + ev7 + ev8 + ev9 + ev10)
}

impl TickEngine {
    /// Process one tick: advance the tick counter, derive the tick's
    /// generator, and run the ten phases strictly in order.  Everything the
    /// tick does is the pure function `spec_tick` of the starting snapshot,
    /// the base seed and the engine's bookkeeping.
    #[verifier::rlimit(100)]
    pub fn tick(&mut self, state: &mut GameState) -> (r: TickEvents)
        requires
            old(state).tick < u64::MAX,
            old(self).last_spawn_tick <= old(state).tick,
            old(self).last_summon_tick <= old(state).tick,
        ensures
            ({
                let (m2, ls, lsm, evs) = spec_tick(
                    old(state).m(),
                    old(self).seed,
                    old(self).last_spawn_tick,
                    old(self).last_summon_tick,
                );
                &&& final(state).m() == m2
                &&& final(self).seed == old(self).seed
                &&& final(self).last_spawn_tick == ls
                &&& final(self).last_summon_tick == lsm
                &&& r.deep_view() == evs
                &&& opaque_untouched(*old(state), *final(state))
                &&& final(state).tick == old(state).tick + 1
                &&& final(self).last_spawn_tick <= final(state).tick
                &&& final(self).last_summon_tick <= final(state).tick
            }),
    {
        let ghost s_in = state.m();
        let mut events = TickEvents::new();
        let tick = state.tick + 1;
        state.tick = tick;
        let ghost s_t = state.m();

        let mut rng = SeededRng::from_tick(self.seed, tick);

        let prev_resources = state.resources.snapshot();

        process_actions(state, &mut events);
        let ghost s1 = state.m();
        let ghost e1 = events.deep_view();
        process_systems(state, &mut events);
        let ghost s2 = state.m();
        let ghost e2 = events.deep_view();
        process_entities(state, &mut events);
        let ghost s3 = state.m();
        let ghost e3 = events.deep_view();
        process_undertakers(state, &mut events);
        let ghost s4 = state.m();
        let ghost e4 = events.deep_view();
        process_blight(state, &mut events, &mut rng);
        let ghost s5 = state.m();
        let ghost e5 = events.deep_view();
        proof {
            assert(rng.spec_calls() <= 1);
            assert(s3.tick == tick);
            lemma_undertakers_from_frame(s3.entities, s3, tick, 0);
            assert(s4.tick == tick);
            assert(s5.tick == tick);
            assert(state.tick == tick);
        }
        self.process_queen(state, &mut events, &mut rng);
        let ghost s6 = state.m();
        let ghost e6 = events.deep_view();
        proof {
            assert(rng.spec_calls() <= 3);
            assert(state.tick == tick);
        }
        self.process_receiver(state, &mut events, &mut rng);
        let ghost s7 = state.m();
        let ghost e7 = events.deep_view();
        process_visitors(state, &mut events);
        let ghost s8 = state.m();
        let ghost e8 = events.deep_view();
        check_thresholds(state, &prev_resources, &mut events);
        let ghost e9 = events.deep_view();
        process_boredom(state, &mut events);
        proof {
            let tickn = (s_in.tick + 1) as u64;
            assert(tickn == tick);
            assert(s_t == (StateM { tick: tickn, ..s_in }));
            let tseed = SeededRng::spec_tick_seed(old(self).seed, tickn);
            let prevv = s_t.resources;
            assert(prev_resources.deep_view() == prevv);
            let (acts1, res1, ev1) = spec_actions_phase(s_t.queues.actions, s_t.resources, tickn);
            assert(s1 == (StateM {
                resources: res1,
                queues: QueuesM { actions: acts1, ..s_t.queues },
                ..s_t
            }));
            assert(e1 =~= ev1);
            let (sys2, res2, ev2) = spec_systems_phase(s1.systems, s1.resources, tickn);
            assert(s2 == (StateM { systems: sys2, resources: res2, ..s1 }));
            assert(e2 == e1 + ev2);
            let (ents3, res3, corps3, ev3) = spec_entities_phase(s2.entities, s2.resources, tickn);
            assert(s3 == (StateM {
                entities: ents3,
                resources: res3,
                graveyard: GraveyardM { corpses: s2.graveyard.corpses + corps3, ..s2.graveyard },
                ..s2
            }));
            assert(e3 == e2 + ev3);
            let (s4s, ev4) = spec_undertakers_phase(s3, tickn);
            assert(s4 == s4s);
            assert(e4 == e3 + ev4);
            let (s5s, ev5, c5) = spec_blight_phase(s4, tickn, tseed, 0);
            assert(s5 == s5s);
            assert(e5 == e4 + ev5);
            let (s6s, ls6, c6, ev6) = spec_queen_phase(
                s5,
                old(self).last_spawn_tick,
                tickn,
                tseed,
                c5,
            );
            assert(s6 == s6s);
            assert(e6 == e5 + ev6);
            let (s7s, lsm7, c7, ev7) = spec_receiver_phase(
                s6,
                old(self).last_summon_tick,
                tickn,
                tseed,
                c6,
            );
            assert(s7 == s7s);
            assert(e7 == e6 + ev7);
            let (res8, ev8) = spec_visitors_phase(s7.entities, s7.resources, tickn);
            assert(s8 == (StateM { resources: res8, ..s7 }));
            assert(e8 == e7 + ev8);
            let ev9 = spec_thresholds_phase(s8.resources, prevv, tickn);
            assert(e9 == e8 + ev9);
            let (s10, ev10) = spec_boredom_phase(s8, tickn);
            assert(state.m() == s10);
            let (m2, ls, lsm, evs) = spec_tick(
                s_in,
                old(self).seed,
                old(self).last_spawn_tick,
                old(self).last_summon_tick,
            );
            assert(state.m() == m2);
            assert(events.deep_view() =~= evs);
        }
        events
    }

    /// Infer the last-spawn bookkeeping from an already-running snapshot:
    /// the youngest living ant marks how long ago the queen last spawned.
    pub fn init_from_state(&mut self, state: &GameState)
        ensures
            final(self).seed == old(self).seed,
            final(self).last_summon_tick == old(self).last_summon_tick,
            final(self).last_spawn_tick == spec_inferred_spawn_tick(
                state.m(),
                old(self).last_spawn_tick,
            ),
            final(self).last_spawn_tick <= state.tick || final(self).last_spawn_tick == old(
                self,
            ).last_spawn_tick,
    {
        if !state.entities.is_empty() {
            let ghost es = state.m().entities;
            proof {
                assert(es.skip(0) =~= es);
            }
            let mut youngest: Option<u64> = None;
            let mut i: usize = 0;
            while i < state.entities.len()
                invariant
                    i <= state.entities.len(),
                    es == state.m().entities,
                    spec_min_ant_age_from(es, 0, None) == spec_min_ant_age_from(
                        es,
                        i as int,
                        youngest,
                    ),
                decreases state.entities.len() - i,
            {
                let is_ant = match &state.entities[i].kind {
                    EntityKind::Ant { .. } => true,
                    EntityKind::Visitor { .. } => false,
                };
                if is_ant {
                    let age = state.entities[i].age;
                    youngest = match youngest {
                        Some(m) => if age < m {
                            Some(age)
                        } else {
                            Some(m)
                        },
                        None => Some(age),
                    };
                }
                i += 1;
            }
            let y = match youngest {
                Some(m) => m,
                None => 0,
            };
            self.last_spawn_tick = state.tick.saturating_sub(y);
        }
    }
}

/// The minimum age over the ants of `es` from index `i` on, folded onto
/// `acc`.
pub open spec fn spec_min_ant_age_from(es: Seq<EntityM>, i: int, acc: Option<u64>) -> Option<u64>
    decreases es.len() - i,
{
    if i < 0 || i >= es.len() {
        acc
    } else {
        let acc2 = if es[i].entity_type() == EntityType::Ant {
            match acc {
                Some(m) => if es[i].age < m {
                    Some(es[i].age)
                } else {
                    Some(m)
                },
                None => Some(es[i].age),
            }
        } else {
            acc
        };
        spec_min_ant_age_from(es, i + 1, acc2)
    }
}

/// The last-spawn tick inferred from a snapshot: the tick minus the youngest
/// living ant's age, clamped at zero; an empty snapshot leaves the
/// bookkeeping alone.
pub open spec fn spec_inferred_spawn_tick(s: StateM, current: u64) -> u64 {
    if s.entities.len() == 0 {
        current
    } else {
        let y = match spec_min_ant_age_from(s.entities, 0, None) {
            Some(m) => m,
            None => 0,
        };
        if s.tick >= y {
            (s.tick - y) as u64
        } else {
            0
        }
    }
}

// ---------------------------------------------------------------------------
// Offline progress: a reduced catch-up pass, one simplified tick per elapsed
// second up to a cap.  It runs only the systems' plain consume/generate rule
// (no corpse bonus, no events), ages entities at half hunger drain with
// opportunistic eating, and silently drops the dead; every other phase is
// deliberately skipped.

/// Half a hunger rate, truncated toward zero as the runtime division does.
pub open spec fn spec_half(r: i64) -> i64 {
    if r >= 0 {
        (r / 2) as i64
    } else {
        (0 - ((0 - r as int) / 2)) as i64
    }
}

/// Half a hunger rate, as runtime code.
fn half_rate(r: i64) -> (h: i64)
    ensures
        h == spec_half(r),
{
    if r >= 0 {
        r / 2
    } else if r == i64::MIN {
        -4611686018427387904
    } else {
        -((-r) / 2)
    }
}

/// The rate tables of every system that may fire offline, judged against the
/// resources at the start of the pass; the corpse bonus does not apply.
pub open spec fn spec_offline_collect(
    systems: Seq<(Seq<char>, SystemM)>,
    res: Seq<(Seq<char>, i64)>,
) -> Seq<(Seq<(Seq<char>, i64)>, Seq<(Seq<char>, i64)>)>
    decreases systems.len(),
{
    if systems.len() == 0 {
        Seq::empty()
    } else {
        let head: Seq<(Seq<(Seq<char>, i64)>, Seq<(Seq<char>, i64)>)> = if !systems[0].1.is_disabled()
            && systems[0].1.can_run(res) {
            let c = match systems[0].1.live_consumes() {
                Some(c) => c,
                None => Seq::empty(),
            };
            let g = match systems[0].1.live_generates() {
                Some(g) => g,
                None => Seq::empty(),
            };
            seq![(c, g)]
        } else {
            Seq::empty()
        };
        head + spec_offline_collect(systems.drop_first(), res)
    }
}

/// Applying the collected offline operations in order.
pub open spec fn spec_offline_apply(
    ops: Seq<(Seq<(Seq<char>, i64)>, Seq<(Seq<char>, i64)>)>,
    res: Seq<(Seq<char>, i64)>,
) -> Seq<(Seq<char>, i64)>
    decreases ops.len(),
{
    if ops.len() == 0 {
        res
    } else {
        spec_offline_apply(ops.drop_first(), res_add_all(res_sub_all(res, ops[0].0), ops[0].1))
    }
}

/// One entity's offline step: age, half-rate hunger, opportunistic eating
/// under the generic rule only.
pub open spec fn spec_offline_entity(e: EntityM, res: Seq<(Seq<char>, i64)>) -> (
    EntityM,
    Seq<(Seq<char>, i64)>,
) {
    let aged = EntityM {
        age: if e.age < u64::MAX {
            (e.age + 1) as u64
        } else {
            u64::MAX
        },
        hunger: spec_amount_sub(e.hunger, spec_half(e.hunger_rate)),
        ..e
    };
    if aged.hunger < HUNGER_THRESHOLD_EAT {
        match aged.food {
            Some(f) => {
                if res_get(res, f) >= ONE_UNIT {
                    (
                        EntityM {
                            hunger: spec_fed_hunger(aged.hunger, HUNGER_GAIN_FROM_EATING),
                            ..aged
                        },
                        res_sub(res, f, ONE_UNIT),
                    )
                } else {
                    (aged, res)
                }
            },
            None => (aged, res),
        }
    } else {
        (aged, res)
    }
}

/// All entities' offline steps, in list order.
pub open spec fn spec_offline_entities(es: Seq<EntityM>, res: Seq<(Seq<char>, i64)>) -> (
    Seq<EntityM>,
    Seq<(Seq<char>, i64)>,
)
    decreases es.len(),
{
    if es.len() == 0 {
        (Seq::empty(), res)
    } else {
        let (e1, res1) = spec_offline_entity(es[0], res);
        let (rest, res2) = spec_offline_entities(es.drop_first(), res1);
        (seq![e1] + rest, res2)
    }
}

/// The offline survivors: entities with hunger left and age below the
/// default cap.
pub open spec fn spec_offline_retain(es: Seq<EntityM>) -> Seq<EntityM>
    decreases es.len(),
{
    if es.len() == 0 {
        Seq::empty()
    } else {
        let head: Seq<EntityM> = if es[0].hunger > 0 && es[0].age
            < crate::constants::DEFAULT_MAX_AGE {
            seq![es[0]]
        } else {
            Seq::empty()
        };
        head + spec_offline_retain(es.drop_first())
    }
}

/// One simplified offline tick over the model.
pub open spec fn spec_offline_tick(s: StateM) -> StateM {
    let tick = if s.tick < u64::MAX {
        (s.tick + 1) as u64
    } else {
        u64::MAX
    };
    let ops = spec_offline_collect(s.systems, s.resources);
    let res1 = spec_offline_apply(ops, s.resources);
    let (es1, res2) = spec_offline_entities(s.entities, res1);
    StateM { tick: tick, resources: res2, entities: spec_offline_retain(es1), ..s }
}

/// `n` simplified offline ticks over the model.
pub open spec fn spec_offline_ticks(s: StateM, n: nat) -> StateM
    decreases n,
{
    if n == 0 {
        s
    } else {
        spec_offline_ticks(spec_offline_tick(s), (n - 1) as nat)
    }
}

/// How many offline ticks a save gap earns: the elapsed whole seconds,
/// capped, and none at all below the minimum worth simulating.
pub open spec fn spec_offline_tick_count(s: StateM, now_micros: i64) -> u64 {
    match s.last_save_timestamp {
        None => 0,
        Some(last) => {
            if now_micros <= last {
                0
            } else {
                let secs = (now_micros - last) / (crate::constants::MICROS_PER_SECOND as int);
                let capped: u64 = if secs > crate::constants::MAX_OFFLINE_TICKS {
                    crate::constants::MAX_OFFLINE_TICKS
                } else {
                    secs as u64
                };
                if capped < crate::constants::MIN_OFFLINE_TICKS {
                    0
                } else {
                    capped
                }
            }
        },
    }
}

/// Run one simplified offline tick on the snapshot.
fn offline_tick(state: &mut GameState)
    ensures
        final(state).m() == spec_offline_tick(old(state).m()),
        opaque_untouched(*old(state), *final(state)),
{
    let ghost s0 = state.m();
    let ghost meta0 = state.meta;
    let ghost qev0 = state.queues.events@;

    state.tick = state.tick.saturating_add(1);

    // Collect and apply the plain system operations.
    let ghost sv = s0.systems;
    let mut ops: Vec<(Resources, Resources)> = Vec::new();
    proof {
        assert(sv.skip(0) =~= sv);
        assert(ops.deep_view() =~= Seq::<(Seq<(Seq<char>, i64)>, Seq<(Seq<char>, i64)>)>::empty());
        assert(ops.deep_view() + spec_offline_collect(sv, s0.resources) =~= spec_offline_collect(
            sv,
            s0.resources,
        ));
    }
    let mut i: usize = 0;
    while i < state.systems.len()
        invariant
            i <= state.systems.len(),
            sv == state.systems.deep_view(),
            state.resources.deep_view() == s0.resources,
            spec_offline_collect(sv, s0.resources) == ops.deep_view() + spec_offline_collect(
                sv.skip(i as int),
                s0.resources,
            ),
        decreases state.systems.len() - i,
    {
        proof {
            assert(sv.skip(i as int).drop_first() =~= sv.skip(i + 1));
            assert(sv.skip(i as int)[0] == sv[i as int]);
        }
        let ghost pre_ops = ops.deep_view();
        let fires = !state.systems[i].1.is_disabled() && state.systems[i].1.can_run(
            &state.resources,
        );
        if fires {
            let mut consumes = Resources::new();
            let mut generates = Resources::new();
            match &state.systems[i].1.rates {
                SystemRates::Enabled { consumes: c, generates: g } => {
                    match c {
                        Some(cr) => {
                            consumes = cr.snapshot();
                        },
                        None => {},
                    }
                    match g {
                        Some(gr) => {
                            generates = gr.snapshot();
                        },
                        None => {},
                    }
                },
                SystemRates::Disabled { .. } => {},
            }
            proof {
                assert(consumes.deep_view() == match sv[i as int].1.live_consumes() {
                    Some(c) => c,
                    None => Seq::<(Seq<char>, i64)>::empty(),
                });
                assert(generates.deep_view() == match sv[i as int].1.live_generates() {
                    Some(g) => g,
                    None => Seq::<(Seq<char>, i64)>::empty(),
                });
            }
            ops.push((consumes, generates));
            proof {
                assert(ops.deep_view() =~= pre_ops.push(
                    (ops.deep_view()[pre_ops.len() as int].0, ops.deep_view()[pre_ops.len() as int].1),
                ));
                assert(ops.deep_view() + spec_offline_collect(sv.skip(i + 1), s0.resources)
                    =~= pre_ops + spec_offline_collect(sv.skip(i as int), s0.resources));
            }
        } else {
            proof {
                assert(pre_ops + spec_offline_collect(sv.skip(i + 1), s0.resources) =~= pre_ops
                    + spec_offline_collect(sv.skip(i as int), s0.resources));
            }
        }
        i += 1;
    }
    proof {
        assert(sv.skip(state.systems.len() as int) =~= Seq::<(Seq<char>, SystemM)>::empty());
        assert(ops.deep_view() + spec_offline_collect(
            sv.skip(state.systems.len() as int),
            s0.resources,
        ) =~= ops.deep_view());
    }

    let ghost opsv = ops.deep_view();
    proof {
        assert(opsv.skip(0) =~= opsv);
    }
    let ghost tick1 = state.tick;
    let mut j: usize = 0;
    while j < ops.len()
        invariant
            j <= ops.len(),
            opsv == ops.deep_view(),
            state.tick == tick1,
            state.systems.deep_view() == s0.systems,
            state.entities@ == old(state).entities@,
            state.map.deep_view() == s0.map,
            state.queues.m() == s0.queues,
            state.queues.events@ == qev0,
            state.meta == meta0,
            state.graveyard.deep_view() == s0.graveyard,
            state.last_save_timestamp == s0.last_save_timestamp,
            spec_offline_apply(opsv, s0.resources) == spec_offline_apply(
                opsv.skip(j as int),
                state.resources.deep_view(),
            ),
        decreases ops.len() - j,
    {
        proof {
            assert(opsv.skip(j as int).drop_first() =~= opsv.skip(j + 1));
            assert(opsv.skip(j as int)[0] == opsv[j as int]);
        }
        state.resources.sub_all(&ops[j].0);
        state.resources.add_all(&ops[j].1);
        j += 1;
    }
    proof {
        assert(opsv.skip(ops.len() as int) =~= Seq::<
            (Seq<(Seq<char>, i64)>, Seq<(Seq<char>, i64)>),
        >::empty());
    }

    // Age and feed the entities at the reduced offline rate.
    let ghost res1 = state.resources.deep_view();
    let mut pending: Vec<Entity> = Vec::new();
    core::mem::swap(&mut pending, &mut state.entities);
    let ghost pv = pending.deep_view();
    proof {
        assert(pv =~= s0.entities);
        assert(pv.skip(0) =~= pv);
    }
    let mut stepped: Vec<Entity> = Vec::new();
    proof {
        let whole = spec_offline_entities(pv, res1);
        assert(stepped.deep_view() =~= Seq::<EntityM>::empty());
        assert(Seq::<EntityM>::empty() + whole.0 =~= whole.0);
    }
    let ghost k: int = 0;
    while pending.len() > 0
        invariant
            0 <= k <= pv.len(),
            pending.deep_view() == pv.skip(k),
            state.tick == tick1,
            state.systems.deep_view() == s0.systems,
            state.entities@.len() == 0,
            state.map.deep_view() == s0.map,
            state.queues.m() == s0.queues,
            state.queues.events@ == qev0,
            state.meta == meta0,
            state.graveyard.deep_view() == s0.graveyard,
            state.last_save_timestamp == s0.last_save_timestamp,
            ({
                let whole = spec_offline_entities(pv, res1);
                let rest = spec_offline_entities(pv.skip(k), state.resources.deep_view());
                &&& whole.0 == stepped.deep_view() + rest.0
                &&& whole.1 == rest.1
            }),
        decreases pending.len(),
    {
        proof {
            assert(pv.skip(k).drop_first() =~= pv.skip(k + 1));
            assert(pv.skip(k)[0] == pv[k]);
        }
        let ghost pre_stepped = stepped.deep_view();
        let ghost pre_res = state.resources.deep_view();

        let mut e = pending.remove(0);
        proof {
            assert(pending.deep_view() =~= pv.skip(k + 1));
            assert(e.deep_view() == pv[k]);
        }
        e.age = if e.age < u64::MAX {
            e.age + 1
        } else {
            u64::MAX
        };
        let half = half_rate(e.hunger_rate);
        e.hunger = amount_sub(e.hunger, half);
        if e.hunger < HUNGER_THRESHOLD_EAT {
            let food: Option<String> = match &e.food {
                Some(f) => Some(f.clone()),
                None => None,
            };
            match food {
                Some(f) => {
                    if state.resources.get(f.as_str()) >= ONE_UNIT {
                        state.resources.sub(f.as_str(), ONE_UNIT);
                        let gained = crate::constants::amount_add(
                            e.hunger,
                            HUNGER_GAIN_FROM_EATING,
                        );
                        e.hunger = if gained > MAX_HUNGER {
                            MAX_HUNGER
                        } else {
                            gained
                        };
                    }
                },
                None => {},
            }
        }
        stepped.push(e);
        proof {
            let (em1, resn) = spec_offline_entity(pv[k], pre_res);
            assert(stepped.deep_view() =~= pre_stepped.push(em1));
            let rest_pre = spec_offline_entities(pv.skip(k), pre_res);
            let rest_post = spec_offline_entities(pv.skip(k + 1), state.resources.deep_view());
            assert(rest_pre.0 == seq![em1] + rest_post.0);
            assert(stepped.deep_view() + rest_post.0 =~= pre_stepped + rest_pre.0);
            k = k + 1;
        }
    }
    proof {
        assert(pv.skip(k) =~= Seq::<EntityM>::empty());
        let whole = spec_offline_entities(pv, res1);
        assert(stepped.deep_view() + spec_offline_entities(
            pv.skip(k),
            state.resources.deep_view(),
        ).0 =~= stepped.deep_view());
        assert(stepped.deep_view() == whole.0);
        assert(state.resources.deep_view() == whole.1);
    }

    // Drop the entities that died offline, without graveyard bookkeeping.
    let ghost stv = stepped.deep_view();
    proof {
        assert(stv.skip(0) =~= stv);
    }
    let mut kept: Vec<Entity> = Vec::new();
    proof {
        assert(kept.deep_view() =~= Seq::<EntityM>::empty());
        assert(Seq::<EntityM>::empty() + spec_offline_retain(stv) =~= spec_offline_retain(stv));
    }
    let ghost res2 = state.resources.deep_view();
    let ghost r: int = 0;
    while stepped.len() > 0
        invariant
            0 <= r <= stv.len(),
            stepped.deep_view() == stv.skip(r),
            state.tick == tick1,
            state.resources.deep_view() == res2,
            state.systems.deep_view() == s0.systems,
            state.entities@.len() == 0,
            state.map.deep_view() == s0.map,
            state.queues.m() == s0.queues,
            state.queues.events@ == qev0,
            state.meta == meta0,
            state.graveyard.deep_view() == s0.graveyard,
            state.last_save_timestamp == s0.last_save_timestamp,
            spec_offline_retain(stv) == kept.deep_view() + spec_offline_retain(stv.skip(r)),
        decreases stepped.len(),
    {
        proof {
            assert(stv.skip(r).drop_first() =~= stv.skip(r + 1));
            assert(stv.skip(r)[0] == stv[r]);
        }
        let ghost pre_kept = kept.deep_view();
        let e = stepped.remove(0);
        proof {
            assert(stepped.deep_view() =~= stv.skip(r + 1));
            assert(e.deep_view() == stv[r]);
        }
        let alive = e.hunger > 0 && e.age < crate::constants::DEFAULT_MAX_AGE;
        if alive {
            kept.push(e);
            proof {
                assert(kept.deep_view() =~= pre_kept.push(stv[r]));
                assert(kept.deep_view() + spec_offline_retain(stv.skip(r + 1)) =~= pre_kept
                    + spec_offline_retain(stv.skip(r)));
            }
        } else {
            proof {
                assert(kept.deep_view() + spec_offline_retain(stv.skip(r + 1)) =~= pre_kept
                    + spec_offline_retain(stv.skip(r)));
            }
        }
        proof {
            r = r + 1;
        }
    }
    proof {
        assert(stv.skip(r) =~= Seq::<EntityM>::empty());
    }
    state.entities = kept;
    proof {
        assert(kept.deep_view() + spec_offline_retain(stv.skip(r)) =~= kept.deep_view());
        assert(state.m() == spec_offline_tick(s0));
    }
}

impl TickEngine {
    /// Catch up on real time elapsed since the last save: apply one
    /// simplified offline tick per elapsed whole second, capped, and nothing
    /// at all for gaps too short to matter.  The event list is kept for
    /// interface stability and is always empty.
    pub fn process_offline_progress(&mut self, state: &mut GameState, current_timestamp: i64) -> (r:
        TickEvents)
        ensures
            final(state).m() == spec_offline_ticks(
                old(state).m(),
                spec_offline_tick_count(old(state).m(), current_timestamp) as nat,
            ),
            opaque_untouched(*old(state), *final(state)),
            r.deep_view() == Seq::<EventM>::empty(),
            *final(self) == *old(self),
    {
        let events = TickEvents::new();
        let ghost s0 = state.m();

        let last_save = match state.last_save_timestamp {
            Some(ts) => ts,
            None => {
                proof {
                    assert(spec_offline_ticks(s0, 0) == s0);
                }
                return events;
            },
        };

        if current_timestamp <= last_save {
            proof {
                assert(spec_offline_ticks(s0, 0) == s0);
            }
            return events;
        }

        let elapsed_micros = amount_sub(current_timestamp, last_save);
        let elapsed_seconds = (elapsed_micros as u64) / 1000000;
        let ticks_to_apply = if elapsed_seconds > crate::constants::MAX_OFFLINE_TICKS {
            crate::constants::MAX_OFFLINE_TICKS
        } else {
            elapsed_seconds
        };
        proof {
            let exact = current_timestamp - last_save;
            let secs = exact / (crate::constants::MICROS_PER_SECOND as int);
            if exact > i64::MAX {
                assert(elapsed_micros == i64::MAX);
                assert(elapsed_seconds == i64::MAX as u64 / 1000000);
                assert(secs >= (i64::MAX as int) / 1000000);
                assert(elapsed_seconds > crate::constants::MAX_OFFLINE_TICKS);
                assert(secs > crate::constants::MAX_OFFLINE_TICKS);
            } else {
                assert(elapsed_micros == exact);
                assert(elapsed_seconds == secs);
            }
            assert(ticks_to_apply == ({
                let capped: u64 = if secs > crate::constants::MAX_OFFLINE_TICKS {
                    crate::constants::MAX_OFFLINE_TICKS
                } else {
                    secs as u64
                };
                capped
            }));
        }

        if ticks_to_apply < crate::constants::MIN_OFFLINE_TICKS {
            proof {
                assert(spec_offline_tick_count(s0, current_timestamp) == 0);
                assert(spec_offline_ticks(s0, 0) == s0);
            }
            return events;
        }
        proof {
            assert(ticks_to_apply == spec_offline_tick_count(s0, current_timestamp));
        }

        let mut t: u64 = 0;
        while t < ticks_to_apply
            invariant
                t <= ticks_to_apply,
                state.m() == spec_offline_ticks(s0, t as nat),
                opaque_untouched(*old(state), *state),
            decreases ticks_to_apply - t,
        {
            let ghost pre = state.m();
            offline_tick(state);
            proof {
                lemma_offline_ticks_snoc(s0, t as nat);
            }
            t += 1;
        }
        events
    }
}

/// Unrolling one more offline tick at the back of the iteration.
pub proof fn lemma_offline_ticks_snoc(s: StateM, n: nat)
    ensures
        spec_offline_ticks(s, (n + 1) as nat) == spec_offline_tick(spec_offline_ticks(s, n)),
    decreases n,
{
    if n == 0 {
        assert(spec_offline_ticks(s, 1) == spec_offline_ticks(spec_offline_tick(s), 0));
    } else {
        lemma_offline_ticks_snoc(spec_offline_tick(s), (n - 1) as nat);
        assert(spec_offline_ticks(s, (n + 1) as nat) == spec_offline_ticks(
            spec_offline_tick(s),
            n,
        ));
        assert(spec_offline_ticks(s, n) == spec_offline_ticks(spec_offline_tick(s), (n - 1) as nat));
    }
}

} // verus!
