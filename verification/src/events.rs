use vstd::prelude::*;

use crate::entity::{DeathCause, VisitorType};
use crate::resource::Resources;

verus! {

/// Everything a tick can report, one variant per event kind.  Amounts are
/// fixed-point, like everywhere in the engine.
#[derive(Clone, Debug)]
pub enum EventKind {
    /// An entity died and, if it was an ant, was laid in the graveyard.
    EntityDied { entity_id: String, entity_type: String, cause: DeathCause, tile: String },
    /// An entity ate one unit of its food.
    EntityAte { entity_id: String, food: String, hunger_after: i64 },
    /// A resource rose past a threshold.
    ThresholdCrossed { resource: String, threshold: i64, current: i64 },
    /// A queued action finished and its effects were applied.
    ActionComplete { action_id: String, action_type: String },
    /// A system consumed and generated its per-tick amounts.
    SystemProduced { system_id: String, produced: Resources, consumed: Resources },
    /// An undertaker finished processing a corpse.
    CorpseProcessed { undertaker_id: String, total_processed: u64, contamination: i64 },
    /// Contamination erupted into blight.
    BlightStruck { tile: String, contamination: i64, duration_ticks: u64 },
    /// A blight ran out and the tile recovered.
    BlightCleared { tile: String },
    /// An entity standing on a tile was killed by striking blight.
    BlightKill { entity_id: String, tile: String },
    /// The queen spawned a worker and an undertaker.
    AntsSpawned {
        worker_id: String,
        undertaker_id: String,
        nutrients_consumed: i64,
        fungus_consumed: i64,
    },
    /// The queen spawned into an empty colony, ignoring the cooldown.
    EmergencySpawn { worker_id: String, undertaker_id: String },
    /// A summoning succeeded and a visitor arrived at the receiver.
    VisitorArrived { visitor_id: String, visitor_type: VisitorType, name: String },
    /// A visitor reached the end of its stay and departed.
    VisitorDeparted {
        visitor_id: String,
        visitor_type: VisitorType,
        name: String,
        gift: Option<Resources>,
    },
    /// Influence was spent on a summoning attempt.
    InfluenceSpent { amount: i64, success: bool },
    /// A summoning attempt failed.
    SummoningFailed,
    /// The receiver fell silent for lack of maintenance.
    ReceiverSilent,
    /// The receiver was restored to operation.
    ReceiverRestored,
    /// A visitor generated a resource passively.
    PassiveGeneration { entity_id: String, resource: String, amount: i64 },
    /// A hungry visitor transformed eaten influence into strange matter.
    InfluenceTransformed {
        visitor_id: String,
        influence_consumed: i64,
        strange_matter_produced: i64,
    },
    /// The boredom counter peaked and was reset.
    BoredomHigh { level: u64 },
    /// Colony sanity changed.
    SanityChanged { delta: i64, new_value: i64, reason: String },
}

/// Mathematical image of `EventKind`.
pub enum EventKindM {
    EntityDied { entity_id: Seq<char>, entity_type: Seq<char>, cause: DeathCause, tile: Seq<char> },
    EntityAte { entity_id: Seq<char>, food: Seq<char>, hunger_after: i64 },
    ThresholdCrossed { resource: Seq<char>, threshold: i64, current: i64 },
    ActionComplete { action_id: Seq<char>, action_type: Seq<char> },
    SystemProduced {
        system_id: Seq<char>,
        produced: Seq<(Seq<char>, i64)>,
        consumed: Seq<(Seq<char>, i64)>,
    },
    CorpseProcessed { undertaker_id: Seq<char>, total_processed: u64, contamination: i64 },
    BlightStruck { tile: Seq<char>, contamination: i64, duration_ticks: u64 },
    BlightCleared { tile: Seq<char> },
    BlightKill { entity_id: Seq<char>, tile: Seq<char> },
    AntsSpawned {
        worker_id: Seq<char>,
        undertaker_id: Seq<char>,
        nutrients_consumed: i64,
        fungus_consumed: i64,
    },
    EmergencySpawn { worker_id: Seq<char>, undertaker_id: Seq<char> },
    VisitorArrived { visitor_id: Seq<char>, visitor_type: VisitorType, name: Seq<char> },
    VisitorDeparted {
        visitor_id: Seq<char>,
        visitor_type: VisitorType,
        name: Seq<char>,
        gift: Option<Seq<(Seq<char>, i64)>>,
    },
    InfluenceSpent { amount: i64, success: bool },
    SummoningFailed,
    ReceiverSilent,
    ReceiverRestored,
    PassiveGeneration { entity_id: Seq<char>, resource: Seq<char>, amount: i64 },
    InfluenceTransformed {
        visitor_id: Seq<char>,
        influence_consumed: i64,
        strange_matter_produced: i64,
    },
    BoredomHigh { level: u64 },
    SanityChanged { delta: i64, new_value: i64, reason: Seq<char> },
}

impl DeepView for EventKind {
    type V = EventKindM;

    open spec fn deep_view(&self) -> EventKindM {
        match self {
            EventKind::EntityDied { entity_id, entity_type, cause, tile } => EventKindM::EntityDied {
                entity_id: entity_id@,
                entity_type: entity_type@,
                cause: *cause,
                tile: tile@,
            },
            EventKind::EntityAte { entity_id, food, hunger_after } => EventKindM::EntityAte {
                entity_id: entity_id@,
                food: food@,
                hunger_after: *hunger_after,
            },
            EventKind::ThresholdCrossed { resource, threshold, current } => EventKindM::ThresholdCrossed {
                resource: resource@,
                threshold: *threshold,
                current: *current,
            },
            EventKind::ActionComplete { action_id, action_type } => EventKindM::ActionComplete {
                action_id: action_id@,
                action_type: action_type@,
            },
            EventKind::SystemProduced { system_id, produced, consumed } => EventKindM::SystemProduced {
                system_id: system_id@,
                produced: produced.deep_view(),
                consumed: consumed.deep_view(),
            },
            EventKind::CorpseProcessed { undertaker_id, total_processed, contamination } => EventKindM::CorpseProcessed {
                undertaker_id: undertaker_id@,
                total_processed: *total_processed,
                contamination: *contamination,
            },
            EventKind::BlightStruck { tile, contamination, duration_ticks } => EventKindM::BlightStruck {
                tile: tile@,
                contamination: *contamination,
                duration_ticks: *duration_ticks,
            },
            EventKind::BlightCleared { tile } => EventKindM::BlightCleared { tile: tile@ },
            EventKind::BlightKill { entity_id, tile } => EventKindM::BlightKill {
                entity_id: entity_id@,
                tile: tile@,
            },
            EventKind::AntsSpawned {
                worker_id,
                undertaker_id,
                nutrients_consumed,
                fungus_consumed,
            } => EventKindM::AntsSpawned {
                worker_id: worker_id@,
                undertaker_id: undertaker_id@,
                nutrients_consumed: *nutrients_consumed,
                fungus_consumed: *fungus_consumed,
            },
            EventKind::EmergencySpawn { worker_id, undertaker_id } => EventKindM::EmergencySpawn {
                worker_id: worker_id@,
                undertaker_id: undertaker_id@,
            },
            EventKind::VisitorArrived { visitor_id, visitor_type, name } => EventKindM::VisitorArrived {
                visitor_id: visitor_id@,
                visitor_type: *visitor_type,
                name: name@,
            },
            EventKind::VisitorDeparted { visitor_id, visitor_type, name, gift } => EventKindM::VisitorDeparted {
                visitor_id: visitor_id@,
                visitor_type: *visitor_type,
                name: name@,
                gift: gift.deep_view(),
            },
            EventKind::InfluenceSpent { amount, success } => EventKindM::InfluenceSpent {
                amount: *amount,
                success: *success,
            },
            EventKind::SummoningFailed => EventKindM::SummoningFailed,
            EventKind::ReceiverSilent => EventKindM::ReceiverSilent,
            EventKind::ReceiverRestored => EventKindM::ReceiverRestored,
            EventKind::PassiveGeneration { entity_id, resource, amount } => EventKindM::PassiveGeneration {
                entity_id: entity_id@,
                resource: resource@,
                amount: *amount,
            },
            EventKind::InfluenceTransformed {
                visitor_id,
                influence_consumed,
                strange_matter_produced,
            } => EventKindM::InfluenceTransformed {
                visitor_id: visitor_id@,
                influence_consumed: *influence_consumed,
                strange_matter_produced: *strange_matter_produced,
            },
            EventKind::BoredomHigh { level } => EventKindM::BoredomHigh { level: *level },
            EventKind::SanityChanged { delta, new_value, reason } => EventKindM::SanityChanged {
                delta: *delta,
                new_value: *new_value,
                reason: reason@,
            },
        }
    }
}

/// One event, stamped with the tick it happened in.
#[derive(Clone, Debug)]
pub struct Event {
    pub tick: u64,
    pub kind: EventKind,
}

/// Mathematical image of `Event`.
pub struct EventM {
    pub tick: u64,
    pub kind: EventKindM,
}

impl DeepView for Event {
    type V = EventM;

    open spec fn deep_view(&self) -> EventM {
        EventM { tick: self.tick, kind: self.kind.deep_view() }
    }
}

impl Event {
    /// Stamp an event kind with its tick.
    pub fn new(tick: u64, kind: EventKind) -> (e: Event)
        ensures
            e.deep_view() == (EventM { tick: tick, kind: kind.deep_view() }),
    {
        Event { tick, kind }
    }
}

/// The ordered log of everything one tick did.
#[derive(Clone, Debug)]
pub struct TickEvents {
    pub events: Vec<Event>,
}

impl DeepView for TickEvents {
    type V = Seq<EventM>;

    open spec fn deep_view(&self) -> Seq<EventM> {
        self.events.deep_view()
    }
}

impl TickEvents {
    /// An empty log.
    pub fn new() -> (r: TickEvents)
        ensures
            r.deep_view() == Seq::<EventM>::empty(),
    {
        let r = TickEvents { events: Vec::new() };
        proof {
            assert(r.deep_view() =~= Seq::<EventM>::empty());
        }
        r
    }

    /// Append one event.
    pub fn push(&mut self, tick: u64, kind: EventKind)
        ensures
            final(self).deep_view() == old(self).deep_view().push(
                EventM { tick: tick, kind: kind.deep_view() },
            ),
    {
        let ghost k = kind.deep_view();
        self.events.push(Event::new(tick, kind));
        proof {
            assert(self.deep_view() =~= old(self).deep_view().push(EventM { tick: tick, kind: k }));
        }
    }

    /// All events, in emission order.
    pub fn events(&self) -> (r: &Vec<Event>)
        ensures
            r.deep_view() == self.deep_view(),
    {
        &self.events
    }

    /// All events, in emission order, consuming the log.
    pub fn into_events(self) -> (r: Vec<Event>)
        ensures
            r.deep_view() == self.deep_view(),
    {
        self.events
    }

    /// Whether nothing happened.
    pub fn is_empty(&self) -> (r: bool)
        ensures
            r == (self.deep_view().len() == 0),
    {
        self.events.is_empty()
    }

    /// How many events were emitted.
    pub fn len(&self) -> (n: usize)
        ensures
            n == self.deep_view().len(),
    {
        self.events.len()
    }
}

} // verus!
