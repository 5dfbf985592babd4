use vstd::prelude::*;

use crate::constants::{
    DEFAULT_HUNGER, DEFAULT_HUNGER_RATE, DEFAULT_MAX_AGE,
};
use crate::resource::Resources;

verus! {

/// What kind of creature an entity is.
#[derive(Clone, Copy, PartialEq, Eq, Structural, Debug)]
pub enum EntityType {
    Ant,
    Visitor,
}

/// Role of an ant in the colony.
#[derive(Clone, Copy, PartialEq, Eq, Structural, Debug)]
pub enum AntRole {
    Worker,
    Undertaker,
}

/// Kind of visitor from the outside.
#[derive(Clone, Copy, PartialEq, Eq, Structural, Debug)]
pub enum VisitorType {
    Wanderer,
    Observer,
    Hungry,
}

/// Why an entity died.
#[derive(Clone, Copy, PartialEq, Eq, Structural, Debug)]
pub enum DeathCause {
    Starvation,
    OldAge,
    Blight,
}

/// The part of an entity that depends on whether it is an ant or a visitor.
/// Keeping the two payloads apart makes combinations such as an ant with a
/// death gift unrepresentable.
#[derive(Clone, Debug)]
pub enum EntityKind {
    Ant {
        role: AntRole,
        /// For undertakers: currently carrying a corpse to the compost heap.
        processing_corpse: Option<bool>,
        /// For undertakers: ticks spent on the current corpse.
        processing_ticks: Option<u64>,
    },
    Visitor {
        subtype: VisitorType,
        from_outside: Option<bool>,
        /// Resources deposited when the visitor departs.
        gift_on_death: Option<Resources>,
        /// Resources generated passively every tick.
        generates: Option<Resources>,
        /// Whether eaten influence is transformed into strange matter.
        transforms: Option<bool>,
    },
}

/// A living entity: one ant or one visitor.
#[derive(Clone, Debug)]
pub struct Entity {
    pub id: String,
    pub name: Option<String>,
    pub description: Option<String>,
    /// Identifier of the tile the entity stands on.
    pub tile: String,
    /// Age in ticks; the entity dies of old age at `max_age`.
    pub age: u64,
    /// Fixed-point hunger in [0, MAX_HUNGER]; the entity starves at zero.
    pub hunger: i64,
    /// Fixed-point hunger lost per tick.
    pub hunger_rate: i64,
    pub max_age: u64,
    /// Name of the resource this entity eats, if it eats at all.
    pub food: Option<String>,
    pub kind: EntityKind,
}

/// Mathematical image of `EntityKind`.
pub enum EntityKindM {
    Ant {
        role: AntRole,
        processing_corpse: Option<bool>,
        processing_ticks: Option<u64>,
    },
    Visitor {
        subtype: VisitorType,
        from_outside: Option<bool>,
        gift_on_death: Option<Seq<(Seq<char>, i64)>>,
        generates: Option<Seq<(Seq<char>, i64)>>,
        transforms: Option<bool>,
    },
}

/// Mathematical image of `Entity`.
pub struct EntityM {
    pub id: Seq<char>,
    pub name: Option<Seq<char>>,
    pub description: Option<Seq<char>>,
    pub tile: Seq<char>,
    pub age: u64,
    pub hunger: i64,
    pub hunger_rate: i64,
    pub max_age: u64,
    pub food: Option<Seq<char>>,
    pub kind: EntityKindM,
}

impl DeepView for EntityKind {
    type V = EntityKindM;

    open spec fn deep_view(&self) -> EntityKindM {
        match self {
            EntityKind::Ant { role, processing_corpse, processing_ticks } => EntityKindM::Ant {
                role: *role,
                processing_corpse: *processing_corpse,
                processing_ticks: *processing_ticks,
            },
            EntityKind::Visitor {
                subtype,
                from_outside,
                gift_on_death,
                generates,
                transforms,
            } => EntityKindM::Visitor {
                subtype: *subtype,
                from_outside: *from_outside,
                gift_on_death: gift_on_death.deep_view(),
                generates: generates.deep_view(),
                transforms: *transforms,
            },
        }
    }
}

impl DeepView for Entity {
    type V = EntityM;

    open spec fn deep_view(&self) -> EntityM {
        EntityM {
            id: self.id@,
            name: self.name.deep_view(),
            description: self.description.deep_view(),
            tile: self.tile@,
            age: self.age,
            hunger: self.hunger,
            hunger_rate: self.hunger_rate,
            max_age: self.max_age,
            food: self.food.deep_view(),
            kind: self.kind.deep_view(),
        }
    }
}

impl EntityM {
    /// Which table of the world an entity belongs to.
    pub open spec fn entity_type(self) -> EntityType {
        match self.kind {
            EntityKindM::Ant { .. } => EntityType::Ant,
            EntityKindM::Visitor { .. } => EntityType::Visitor,
        }
    }

    /// The ant role, if the entity is an ant.
    pub open spec fn role(self) -> Option<AntRole> {
        match self.kind {
            EntityKindM::Ant { role, .. } => Some(role),
            EntityKindM::Visitor { .. } => None,
        }
    }

    /// The visitor subtype, if the entity is a visitor.
    pub open spec fn subtype(self) -> Option<VisitorType> {
        match self.kind {
            EntityKindM::Ant { .. } => None,
            EntityKindM::Visitor { subtype, .. } => Some(subtype),
        }
    }

    /// Dead entities have starved or reached their maximum age.
    pub open spec fn is_dead(self) -> bool {
        self.hunger <= 0 || self.age >= self.max_age
    }

    /// Starvation is checked before old age, as the death rules require.
    pub open spec fn cause_of_death(self) -> Option<DeathCause> {
        if self.hunger <= 0 {
            Some(DeathCause::Starvation)
        } else if self.age >= self.max_age {
            Some(DeathCause::OldAge)
        } else {
            None
        }
    }
}

/// The model value built by `Entity::new_worker`.
pub open spec fn spec_new_worker(id: Seq<char>, tile: Seq<char>) -> EntityM {
    EntityM {
        id: id,
        name: None,
        description: None,
        tile: tile,
        age: 0,
        hunger: DEFAULT_HUNGER,
        hunger_rate: DEFAULT_HUNGER_RATE,
        max_age: DEFAULT_MAX_AGE,
        food: Some("fungus"@),
        kind: EntityKindM::Ant { role: AntRole::Worker, processing_corpse: None, processing_ticks: None },
    }
}

/// The model value built by `Entity::new_undertaker`.
pub open spec fn spec_new_undertaker(id: Seq<char>, tile: Seq<char>) -> EntityM {
    EntityM {
        id: id,
        name: None,
        description: None,
        tile: tile,
        age: 0,
        hunger: DEFAULT_HUNGER,
        hunger_rate: 1500,
        max_age: DEFAULT_MAX_AGE,
        food: Some("fungus"@),
        kind: EntityKindM::Ant {
            role: AntRole::Undertaker,
            processing_corpse: Some(false),
            processing_ticks: Some(0),
        },
    }
}

/// The model value built by `Entity::new_wanderer`.
pub open spec fn spec_new_wanderer(id: Seq<char>) -> EntityM {
    EntityM {
        id: id,
        name: Some("A Wanderer"@),
        description: Some("Passes through. Leaves something behind."@),
        tile: "receiver"@,
        age: 0,
        hunger: DEFAULT_HUNGER,
        hunger_rate: 0,
        max_age: 1800,
        food: None,
        kind: EntityKindM::Visitor {
            subtype: VisitorType::Wanderer,
            from_outside: Some(true),
            gift_on_death: Some(seq![("strange_matter"@, 10000i64)]),
            generates: None,
            transforms: None,
        },
    }
}

/// The model value built by `Entity::new_observer`.
pub open spec fn spec_new_observer(id: Seq<char>) -> EntityM {
    EntityM {
        id: id,
        name: Some("An Observer"@),
        description: Some("Watches. Generates insight from the watching."@),
        tile: "receiver"@,
        age: 0,
        hunger: DEFAULT_HUNGER,
        hunger_rate: 500,
        max_age: 3600,
        food: Some("crystals"@),
        kind: EntityKindM::Visitor {
            subtype: VisitorType::Observer,
            from_outside: Some(true),
            gift_on_death: None,
            generates: Some(seq![("insight"@, 10i64)]),
            transforms: None,
        },
    }
}

/// The model value built by `Entity::new_hungry`.
pub open spec fn spec_new_hungry(id: Seq<char>) -> EntityM {
    EntityM {
        id: id,
        name: Some("A Hungry Thing"@),
        description: Some("Consumes. Transforms what it consumes."@),
        tile: "receiver"@,
        age: 0,
        hunger: DEFAULT_HUNGER,
        hunger_rate: 5000,
        max_age: 900,
        food: Some("influence"@),
        kind: EntityKindM::Visitor {
            subtype: VisitorType::Hungry,
            from_outside: Some(true),
            gift_on_death: None,
            generates: None,
            transforms: Some(true),
        },
    }
}

impl Entity {
    /// Create a worker ant on the given tile.
    pub fn new_worker(id: String, tile: String) -> (e: Entity)
        ensures
            e.deep_view() == spec_new_worker(id@, tile@),
    {
        Entity {
            id,
            name: None,
            description: None,
            tile,
            age: 0,
            hunger: DEFAULT_HUNGER,
            hunger_rate: DEFAULT_HUNGER_RATE,
            max_age: DEFAULT_MAX_AGE,
            food: Some("fungus".to_owned()),
            kind: EntityKind::Ant {
                role: AntRole::Worker,
                processing_corpse: None,
                processing_ticks: None,
            },
        }
    }

    /// Create an undertaker ant on the given tile.  Undertakers are hungrier
    /// than workers.
    pub fn new_undertaker(id: String, tile: String) -> (e: Entity)
        ensures
            e.deep_view() == spec_new_undertaker(id@, tile@),
    {
        Entity {
            id,
            name: None,
            description: None,
            tile,
            age: 0,
            hunger: DEFAULT_HUNGER,
            hunger_rate: 1500,
            max_age: DEFAULT_MAX_AGE,
            food: Some("fungus".to_owned()),
            kind: EntityKind::Ant {
                role: AntRole::Undertaker,
                processing_corpse: Some(false),
                processing_ticks: Some(0),
            },
        }
    }

    /// Create a wanderer visitor at the receiver.
    pub fn new_wanderer(id: String) -> (e: Entity)
        ensures
            e.deep_view() == spec_new_wanderer(id@),
    {
        let mut gift = Resources::new();
        gift.set("strange_matter", 10000);
        proof {
            assert(gift.deep_view() =~= seq![("strange_matter"@, 10000i64)]);
        }
        let e = Entity {
            id,
            name: Some("A Wanderer".to_owned()),
            description: Some("Passes through. Leaves something behind.".to_owned()),
            tile: "receiver".to_owned(),
            age: 0,
            hunger: DEFAULT_HUNGER,
            hunger_rate: 0,
            max_age: 1800,
            food: None,
            kind: EntityKind::Visitor {
                subtype: VisitorType::Wanderer,
                from_outside: Some(true),
                gift_on_death: Some(gift),
                generates: None,
                transforms: None,
            },
        };
        e
    }

    /// Create an observer visitor at the receiver.
    pub fn new_observer(id: String) -> (e: Entity)
        ensures
            e.deep_view() == spec_new_observer(id@),
    {
        let mut generates = Resources::new();
        generates.set("insight", 10);
        proof {
            assert(generates.deep_view() =~= seq![("insight"@, 10i64)]);
        }
        let e = Entity {
            id,
            name: Some("An Observer".to_owned()),
            description: Some("Watches. Generates insight from the watching.".to_owned()),
            tile: "receiver".to_owned(),
            age: 0,
            hunger: DEFAULT_HUNGER,
            hunger_rate: 500,
            max_age: 3600,
            food: Some("crystals".to_owned()),
            kind: EntityKind::Visitor {
                subtype: VisitorType::Observer,
                from_outside: Some(true),
                gift_on_death: None,
                generates: Some(generates),
                transforms: None,
            },
        };
        e
    }

    /// Create a hungry visitor at the receiver.
    pub fn new_hungry(id: String) -> (e: Entity)
        ensures
            e.deep_view() == spec_new_hungry(id@),
    {
        Entity {
            id,
            name: Some("A Hungry Thing".to_owned()),
            description: Some("Consumes. Transforms what it consumes.".to_owned()),
            tile: "receiver".to_owned(),
            age: 0,
            hunger: DEFAULT_HUNGER,
            hunger_rate: 5000,
            max_age: 900,
            food: Some("influence".to_owned()),
            kind: EntityKind::Visitor {
                subtype: VisitorType::Hungry,
                from_outside: Some(true),
                gift_on_death: None,
                generates: None,
                transforms: Some(true),
            },
        }
    }

    /// Which table of the world this entity belongs to.
    pub fn entity_type(&self) -> (t: EntityType)
        ensures
            t == self.deep_view().entity_type(),
    {
        match &self.kind {
            EntityKind::Ant { .. } => EntityType::Ant,
            EntityKind::Visitor { .. } => EntityType::Visitor,
        }
    }

    /// Whether the entity is dead of starvation or old age.
    pub fn is_dead(&self) -> (r: bool)
        ensures
            r == self.deep_view().is_dead(),
    {
        self.hunger <= 0 || self.age >= self.max_age
    }

    /// The cause of death, if the entity is dead.
    pub fn cause_of_death(&self) -> (r: Option<DeathCause>)
        ensures
            r == self.deep_view().cause_of_death(),
    {
        if self.hunger <= 0 {
            Some(DeathCause::Starvation)
        } else if self.age >= self.max_age {
            Some(DeathCause::OldAge)
        } else {
            None
        }
    }
}

/// The default maximum age of a freshly spawned ant, in ticks.
pub fn default_max_age() -> (r: u64)
    ensures
        r == DEFAULT_MAX_AGE,
{
    DEFAULT_MAX_AGE
}

} // verus!
