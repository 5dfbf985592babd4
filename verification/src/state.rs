use vstd::prelude::*;

use crate::action::{Queues, QueuesM};
use crate::assoc::{assoc_index_of, lemma_assoc_index_of};
use crate::constants::DEFAULT_SANITY;
use crate::entity::{AntRole, Entity, EntityM, EntityType};
use crate::graveyard::{Graveyard, GraveyardM};
use crate::resource::Resources;
use crate::system::{System, SystemM};
use crate::tile::{GameMap, MapM, Tile};

verus! {

/// The one goal record the engine reads by name: receiver maintenance.
/// Fields the engine does not interpret ride along in `extra`.
#[derive(Clone, Debug)]
pub struct MaintenanceGoal {
    /// Tick of the last successful maintenance; absent means "as of now".
    pub last_maintained: Option<u64>,
    /// Ticks between maintenance payments; absent means the default.
    pub interval_ticks: Option<u64>,
    /// Uninterpreted fields of the goal record, passed through unchanged.
    pub extra: Vec<(String, serde_json::Value)>,
}

/// Mathematical image of the interpreted part of `MaintenanceGoal`.
pub struct MaintenanceGoalM {
    pub last_maintained: Option<u64>,
    pub interval_ticks: Option<u64>,
}

/// Non-simulation bookkeeping.  Only boredom, sanity, the receiver-silence
/// state and the maintenance goal are ever read or written by the engine;
/// everything else is owned by the calling layer and passed through.
#[derive(Clone, Debug)]
pub struct Meta {
    /// Counts ticks in which nothing was queued; reset when it peaks.
    pub boredom: u64,
    pub recent_decisions: Vec<serde_json::Value>,
    pub rejected_ideas: Vec<String>,
    pub fired_cards: Vec<String>,
    pub estate: Option<serde_json::Value>,
    pub decor: Vec<serde_json::Value>,
    pub jewelry: Vec<serde_json::Value>,
    /// The receiver-maintenance goal, when the calling layer has set one.
    pub maintenance_goal: Option<MaintenanceGoal>,
    /// All other goal records, uninterpreted.
    pub other_goals: Vec<(String, serde_json::Value)>,
    pub reflections: Vec<serde_json::Value>,
    /// Fixed-point colony sanity; the engine stores it untouched.
    pub sanity: i64,
    /// Whether the receiver has fallen silent for lack of maintenance.
    pub receiver_silent: bool,
    /// The tick at which the receiver last fell silent.
    pub receiver_failed_tick: Option<u64>,
}

/// Mathematical image of the interpreted part of `Meta`.
pub struct MetaM {
    pub boredom: u64,
    pub sanity: i64,
    pub receiver_silent: bool,
    pub receiver_failed_tick: Option<u64>,
    pub maintenance_goal: Option<MaintenanceGoalM>,
}

impl Meta {
    /// The model of the interpreted part.
    pub open spec fn m(&self) -> MetaM {
        MetaM {
            boredom: self.boredom,
            sanity: self.sanity,
            receiver_silent: self.receiver_silent,
            receiver_failed_tick: self.receiver_failed_tick,
            maintenance_goal: match self.maintenance_goal {
                Some(g) => Some(
                    MaintenanceGoalM {
                        last_maintained: g.last_maintained,
                        interval_ticks: g.interval_ticks,
                    },
                ),
                None => None,
            },
        }
    }

    /// Fresh metadata for a new colony.
    pub fn new() -> (m: Meta)
        ensures
            m.m() == (MetaM {
                boredom: 0,
                sanity: DEFAULT_SANITY,
                receiver_silent: false,
                receiver_failed_tick: None,
                maintenance_goal: None,
            }),
            m.recent_decisions@.len() == 0,
            m.rejected_ideas@.len() == 0,
            m.fired_cards@.len() == 0,
            m.estate is None,
            m.decor@.len() == 0,
            m.jewelry@.len() == 0,
            m.other_goals@.len() == 0,
            m.reflections@.len() == 0,
    {
        Meta {
            boredom: 0,
            recent_decisions: Vec::new(),
            rejected_ideas: Vec::new(),
            fired_cards: Vec::new(),
            estate: None,
            decor: Vec::new(),
            jewelry: Vec::new(),
            maintenance_goal: None,
            other_goals: Vec::new(),
            reflections: Vec::new(),
            sanity: DEFAULT_SANITY,
            receiver_silent: false,
            receiver_failed_tick: None,
        }
    }
}

/// The uninterpreted payload of the maintenance goal is carried unchanged.
pub open spec fn goal_extra_untouched(a: Option<MaintenanceGoal>, b: Option<MaintenanceGoal>) -> bool {
    match (a, b) {
        (Option::None, Option::None) => true,
        (Option::Some(x), Option::Some(y)) => x.extra@ == y.extra@,
        _ => false,
    }
}

/// Every metadata field the engine does not interpret is carried unchanged.
pub open spec fn meta_untouched(a: Meta, b: Meta) -> bool {
    &&& a.recent_decisions@ == b.recent_decisions@
    &&& a.rejected_ideas@ == b.rejected_ideas@
    &&& a.fired_cards@ == b.fired_cards@
    &&& a.estate == b.estate
    &&& a.decor@ == b.decor@
    &&& a.jewelry@ == b.jewelry@
    &&& goal_extra_untouched(a.maintenance_goal, b.maintenance_goal)
    &&& a.other_goals@ == b.other_goals@
    &&& a.reflections@ == b.reflections@
}

/// Mathematical image of the whole snapshot, as far as the engine interprets
/// it; opaque pass-through data is covered by `opaque_untouched` instead.
pub struct StateM {
    pub tick: u64,
    pub resources: Seq<(Seq<char>, i64)>,
    pub systems: Seq<(Seq<char>, SystemM)>,
    pub entities: Seq<EntityM>,
    pub map: MapM,
    pub queues: QueuesM,
    pub meta: MetaM,
    pub graveyard: GraveyardM,
    /// Wall-clock time of the last save, in whole microseconds.
    pub last_save_timestamp: Option<i64>,
}

/// The complete game state: the sole unit of persistence and the engine's
/// only mutable argument.
#[derive(Clone, Debug)]
pub struct GameState {
    pub tick: u64,
    pub resources: Resources,
    /// Production systems keyed by stable identifier, in insertion order.
    pub systems: Vec<(String, System)>,
    pub entities: Vec<Entity>,
    pub map: GameMap,
    pub queues: Queues,
    pub meta: Meta,
    pub graveyard: Graveyard,
    /// Wall-clock time of the last save, in whole microseconds.
    pub last_save_timestamp: Option<i64>,
}

impl GameState {
    /// The model of this snapshot.
    pub open spec fn m(&self) -> StateM {
        StateM {
            tick: self.tick,
            resources: self.resources.deep_view(),
            systems: self.systems.deep_view(),
            entities: self.entities.deep_view(),
            map: self.map.deep_view(),
            queues: self.queues.m(),
            meta: self.meta.m(),
            graveyard: self.graveyard.deep_view(),
            last_save_timestamp: self.last_save_timestamp,
        }
    }

    /// A fresh snapshot: tick zero, no resources, no systems, no entities,
    /// a map holding only the origin tile, empty queues, fresh metadata and
    /// an empty graveyard.
    pub fn new() -> (s: GameState)
        ensures
            s.m().tick == 0,
            s.m().resources.len() == 0,
            s.m().systems.len() == 0,
            s.m().entities.len() == 0,
            s.m().map.tiles.len() == 1,
            s.m().map.tiles[0].0 == "origin"@,
            s.m().map.tiles[0].1 == Tile::origin_m(),
            s.m().map.connections.len() == 0,
            s.m().queues.actions.len() == 0,
            s.m().queues.events_len == 0,
            s.m().meta == (MetaM {
                boredom: 0,
                sanity: DEFAULT_SANITY,
                receiver_silent: false,
                receiver_failed_tick: None,
                maintenance_goal: None,
            }),
            s.m().graveyard.corpses.len() == 0,
            s.m().graveyard.total_processed == 0,
            s.m().last_save_timestamp is None,
    {
        let s = GameState {
            tick: 0,
            resources: Resources::new(),
            systems: Vec::new(),
            entities: Vec::new(),
            map: GameMap::new(),
            queues: Queues::new(),
            meta: Meta::new(),
            graveyard: Graveyard::new(),
            last_save_timestamp: None,
        };
        proof {
            assert(s.m().systems =~= Seq::<(Seq<char>, SystemM)>::empty());
            assert(s.m().entities =~= Seq::<EntityM>::empty());
        }
        s
    }

    /// Index of the system with the given identifier, if any.
    pub fn system_index(&self, id: &str) -> (r: Option<usize>)
        ensures
            match r {
                Some(i) => i < self.systems.len() && assoc_index_of(self.m().systems, id@) == i,
                None => assoc_index_of(self.m().systems, id@) == -1,
            },
    {
        let key: String = id.to_owned();
        let ghost kv = id@;
        let mut i: usize = 0;
        while i < self.systems.len()
            invariant
                i <= self.systems.len(),
                forall|j: int| 0 <= j < i ==> (#[trigger] self.m().systems[j]).0 != kv,
                kv == key@,
                kv == id@,
            decreases self.systems.len() - i,
        {
            if self.systems[i].0 == key {
                proof {
                    let s = self.m().systems;
                    lemma_assoc_index_of(s, kv);
                    assert(s[i as int].0 == kv);
                    let idx = assoc_index_of(s, kv);
                    if idx == -1 {
                        assert(s[i as int].0 != kv);
                    } else if idx < i {
                        assert(s[idx].0 != kv);
                        assert(s[idx].0 == kv);
                    } else if idx > i {
                        assert(s[i as int].0 != kv);
                    }
                }
                return Some(i);
            }
            proof {
                assert(self.m().systems[i as int].0 != kv);
            }
            i += 1;
        }
        proof {
            lemma_assoc_index_of(self.m().systems, kv);
            if assoc_index_of(self.m().systems, kv) >= 0 {
                assert(self.m().systems[assoc_index_of(self.m().systems, kv)].0 == kv);
            }
        }
        None
    }

    /// Whether a system with the given identifier exists.
    pub fn has_system(&self, system_id: &str) -> (r: bool)
        ensures
            r == (assoc_index_of(self.m().systems, system_id@) != -1),
    {
        match self.system_index(system_id) {
            Some(_) => true,
            None => false,
        }
    }
}

/// Every part of two snapshots that the engine treats as opaque is equal:
/// the pending-event queue and the uninterpreted metadata.
pub open spec fn opaque_untouched(a: GameState, b: GameState) -> bool {
    &&& a.queues.events@ == b.queues.events@
    &&& meta_untouched(a.meta, b.meta)
}

impl Default for GameState {
    /// A fresh snapshot, as `GameState::new` builds it.
    fn default() -> (s: GameState)
        ensures
            s.m().tick == 0,
            s.m().entities.len() == 0,
            s.m().map.tiles.len() == 1,
            s.m().map.tiles[0].0 == "origin"@,
    {
        GameState::new()
    }
}

/// Helpers the engine uses to look up entities.
impl GameState {
    /// Index of the first entity with the given identifier, if any.
    pub fn entity_index(&self, id: &str) -> (r: Option<usize>)
        ensures
            match r {
                Some(i) => i < self.entities.len() && (#[trigger] self.m().entities[i as int]).id
                    == id@,
                None => forall|j: int|
                    0 <= j < self.m().entities.len() ==> (#[trigger] self.m().entities[j]).id
                        != id@,
            },
    {
        let key: String = id.to_owned();
        let mut i: usize = 0;
        while i < self.entities.len()
            invariant
                i <= self.entities.len(),
                forall|j: int| 0 <= j < i ==> (#[trigger] self.m().entities[j]).id != id@,
                key@ == id@,
            decreases self.entities.len() - i,
        {
            if self.entities[i].id == key {
                proof {
                    assert(self.m().entities[i as int].id == id@);
                }
                return Some(i);
            }
            proof {
                assert(self.m().entities[i as int].id != id@);
            }
            i += 1;
        }
        None
    }

    /// The first entity with the given identifier, if any.
    pub fn get_entity(&self, id: &str) -> (r: Option<&Entity>)
        ensures
            match r {
                Some(e) => exists|i: int|
                    0 <= i < self.m().entities.len() && (#[trigger] self.m().entities[i]).id == id@
                        && e.deep_view() == self.m().entities[i],
                None => forall|j: int|
                    0 <= j < self.m().entities.len() ==> (#[trigger] self.m().entities[j]).id
                        != id@,
            },
    {
        match self.entity_index(id) {
            Some(i) => {
                proof {
                    let ghost_i = i as int;
                    assert(0 <= ghost_i < self.m().entities.len() && self.m().entities[ghost_i].id
                        == id@ && self.entities[ghost_i].deep_view() == self.m().entities[ghost_i]);
                }
                Some(&self.entities[i])
            },
            None => None,
        }
    }

    /// The first entity with the given identifier, borrowed for writing, if
    /// any.
    pub fn get_entity_mut(&mut self, id: &str) -> (r: Option<&mut Entity>)
        ensures
            match r {
                Some(e) => exists|i: int|
                    {
                        &&& 0 <= i < old(self).m().entities.len()
                        &&& (#[trigger] old(self).m().entities[i]).id == id@
                        &&& *e == old(self).entities@[i]
                        &&& final(self).entities@ == old(self).entities@.update(i, *final(e))
                        &&& final(self).resources == old(self).resources
                        &&& final(self).systems == old(self).systems
                        &&& final(self).map == old(self).map
                        &&& final(self).queues == old(self).queues
                        &&& final(self).meta == old(self).meta
                        &&& final(self).graveyard == old(self).graveyard
                        &&& final(self).tick == old(self).tick
                        &&& final(self).last_save_timestamp == old(self).last_save_timestamp
                    },
                None => *final(self) == *old(self) && forall|j: int|
                    0 <= j < old(self).m().entities.len() ==> (#[trigger] old(
                        self,
                    ).m().entities[j]).id != id@,
            },
    {
        match self.entity_index(id) {
            Some(i) => {
                proof {
                    assert(old(self).entities@.update(i as int, old(self).entities@[i as int])
                        =~= old(self).entities@);
                }
                Some(&mut self.entities[i])
            },
            None => None,
        }
    }

    /// How many living entities are of the given type.
    pub fn count_entities_by_type(&self, entity_type: &EntityType) -> (n: usize)
        ensures
            n == spec_count_type(self.m().entities, *entity_type),
    {
        let ghost es = self.m().entities;
        proof {
            assert(es.skip(0) =~= es);
        }
        let mut n: usize = 0;
        let mut i: usize = 0;
        while i < self.entities.len()
            invariant
                i <= self.entities.len(),
                es == self.m().entities,
                n <= i,
                spec_count_type(es, *entity_type) == n + spec_count_type(
                    es.skip(i as int),
                    *entity_type,
                ),
            decreases self.entities.len() - i,
        {
            proof {
                assert(es.skip(i as int).drop_first() =~= es.skip(i + 1));
                assert(es.skip(i as int)[0] == es[i as int]);
            }
            let t = self.entities[i].entity_type();
            if t == *entity_type {
                n += 1;
            }
            i += 1;
        }
        proof {
            assert(es.skip(self.entities.len() as int) =~= Seq::<EntityM>::empty());
        }
        n
    }

    /// How many living ants hold the given role.
    pub fn count_ants_by_role(&self, role: &AntRole) -> (n: usize)
        ensures
            n == spec_count_role(self.m().entities, *role),
    {
        let ghost es = self.m().entities;
        proof {
            assert(es.skip(0) =~= es);
        }
        let mut n: usize = 0;
        let mut i: usize = 0;
        while i < self.entities.len()
            invariant
                i <= self.entities.len(),
                es == self.m().entities,
                n <= i,
                spec_count_role(es, *role) == n + spec_count_role(es.skip(i as int), *role),
            decreases self.entities.len() - i,
        {
            proof {
                assert(es.skip(i as int).drop_first() =~= es.skip(i + 1));
                assert(es.skip(i as int)[0] == es[i as int]);
            }
            let is_match = match &self.entities[i].kind {
                crate::entity::EntityKind::Ant { role: r, .. } => *r == *role,
                _ => false,
            };
            if is_match {
                n += 1;
            }
            i += 1;
        }
        proof {
            assert(es.skip(self.entities.len() as int) =~= Seq::<EntityM>::empty());
        }
        n
    }

    /// All living entities standing on the given tile, in list order.
    pub fn entities_on_tile(&self, tile: &str) -> (r: Vec<&Entity>)
        ensures
            r.deep_view() == spec_on_tile(self.m().entities, tile@),
    {
        let key: String = tile.to_owned();
        let ghost es = self.m().entities;
        proof {
            assert(es.skip(0) =~= es);
        }
        let mut out: Vec<&Entity> = Vec::new();
        let mut i: usize = 0;
        while i < self.entities.len()
            invariant
                i <= self.entities.len(),
                es == self.m().entities,
                key@ == tile@,
                spec_on_tile(es, tile@) == out.deep_view() + spec_on_tile(
                    es.skip(i as int),
                    tile@,
                ),
            decreases self.entities.len() - i,
        {
            let ghost pre = out.deep_view();
            proof {
                assert(es.skip(i as int).drop_first() =~= es.skip(i + 1));
                assert(es.skip(i as int)[0] == es[i as int]);
            }
            if self.entities[i].tile == key {
                out.push(&self.entities[i]);
                proof {
                    assert(out.deep_view() =~= pre.push(es[i as int]));
                    assert(out.deep_view() + spec_on_tile(es.skip(i + 1), tile@) =~= pre
                        + spec_on_tile(es.skip(i as int), tile@));
                }
            } else {
                proof {
                    assert(out.deep_view() + spec_on_tile(es.skip(i + 1), tile@) =~= pre
                        + spec_on_tile(es.skip(i as int), tile@));
                }
            }
            i += 1;
        }
        proof {
            assert(es.skip(self.entities.len() as int) =~= Seq::<EntityM>::empty());
            assert(out.deep_view() + spec_on_tile(
                es.skip(self.entities.len() as int),
                tile@,
            ) =~= out.deep_view());
        }
        out
    }
}

/// How many entities of a sequence are of the given type.
pub open spec fn spec_count_type(es: Seq<EntityM>, t: EntityType) -> int
    decreases es.len(),
{
    if es.len() == 0 {
        0
    } else {
        (if es[0].entity_type() == t {
            1int
        } else {
            0int
        }) + spec_count_type(es.drop_first(), t)
    }
}

/// How many entities of a sequence are ants with the given role.
pub open spec fn spec_count_role(es: Seq<EntityM>, r: AntRole) -> int
    decreases es.len(),
{
    if es.len() == 0 {
        0
    } else {
        (if es[0].role() == Some(r) {
            1int
        } else {
            0int
        }) + spec_count_role(es.drop_first(), r)
    }
}

/// The entities of a sequence standing on the given tile, in order.
pub open spec fn spec_on_tile(es: Seq<EntityM>, tile: Seq<char>) -> Seq<EntityM>
    decreases es.len(),
{
    if es.len() == 0 {
        Seq::empty()
    } else {
        let head: Seq<EntityM> = if es[0].tile == tile {
            seq![es[0]]
        } else {
            Seq::empty()
        };
        head + spec_on_tile(es.drop_first(), tile)
    }
}

} // verus!
