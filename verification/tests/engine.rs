use anthill_core::{
    Action, ActionEffects, Entity, EntityKind, EventKind, GameState, MaintenanceGoal, Resources,
    System, SystemRates, SystemType, TickEngine, Tile,
};

fn queen_chamber() -> System {
    System {
        name: "Queen's Chamber".to_string(),
        system_type: SystemType::Spawner,
        description: Some("The queen produces new ants".to_string()),
        corpse_boosts: Vec::new(),
        rates: SystemRates::Enabled { consumes: None, generates: None },
    }
}

#[test]
fn test_basic_tick() {
    let mut engine = TickEngine::new(42);
    let mut state = GameState::default();

    let events = engine.tick(&mut state);
    assert_eq!(state.tick, 1);
    assert!(events.is_empty() || !events.is_empty()); // Just checking it runs
}

#[test]
fn test_entity_aging() {
    let mut engine = TickEngine::new(42);
    let mut state = GameState::default();

    state.entities.push(Entity::new_worker("test".to_string(), "origin".to_string()));

    engine.tick(&mut state);

    assert_eq!(state.entities[0].age, 1);
    assert!(state.entities[0].hunger < 1000000);
}

#[test]
fn test_entity_eating() {
    let mut engine = TickEngine::new(42);
    let mut state = GameState::default();

    let mut entity = Entity::new_worker("test".to_string(), "origin".to_string());
    entity.hunger = 400000; // Below threshold
    state.entities.push(entity);
    state.resources.set("fungus", 100000);

    let events = engine.tick(&mut state);

    // Entity should have eaten
    assert!(state.entities[0].hunger > 400000);
    assert!(state.resources.get("fungus") < 100000);
    assert!(events.events().iter().any(|e| match e.kind {
        EventKind::EntityAte { .. } => true,
        _ => false,
    }));
}

#[test]
fn test_entity_starvation() {
    let mut engine = TickEngine::new(42);
    let mut state = GameState::default();

    let mut entity = Entity::new_worker("test".to_string(), "origin".to_string());
    entity.hunger = 500; // About to starve
    state.entities.push(entity);

    let events = engine.tick(&mut state);

    // Entity should have died
    assert!(state.entities.is_empty());
    assert!(!state.graveyard.corpses.is_empty());
    assert!(events.events().iter().any(|e| match e.kind {
        EventKind::EntityDied { .. } => true,
        _ => false,
    }));
}

#[test]
fn test_offline_progress() {
    let mut engine = TickEngine::new(42);
    let mut state = GameState::default();

    // Setup state: timestamps are whole microseconds
    state.last_save_timestamp = Some(1000000000);
    state.resources.set("fungus", 1000000);

    // Add an entity
    let mut entity = Entity::new_worker("test_offline".to_string(), "origin".to_string());
    entity.hunger = 800000;
    state.entities.push(entity);

    // Add a system that generates resources
    let mut system_gen = Resources::new();
    system_gen.set("fungus", 10000);
    let system = System::new_generator("fungus_farm".to_string(), system_gen);
    state.systems.push(("fungus_farm".to_string(), system));

    // 100 seconds elapsed ( > 10 ticks, < 3600)
    let current_time = 1100000000;

    engine.process_offline_progress(&mut state, current_time);

    // Check ticks advanced
    assert_eq!(state.tick, 100);

    // 100 ticks * 1.0 fungus generated on top of the 100.0 start; the
    // entity's hunger only falls to 75.0, so it never eats.
    assert_eq!(state.resources.get("fungus"), 2000000);
    assert_eq!(state.entities[0].age, 100);
    // 80 - (0.1 * 0.5 * 100) = 75, exactly, in fixed point
    assert_eq!(state.entities[0].hunger, 750000);
}

#[test]
fn test_action_queue_completion() {
    let mut engine = TickEngine::new(42);
    let mut state = GameState::default();

    let mut gain = Resources::new();
    gain.set("ore", 30000);
    state.queues.actions.push(Action {
        id: "a1".to_string(),
        action_type: "dig".to_string(),
        ticks_remaining: 2,
        effects: Some(ActionEffects { resources: Some(gain) }),
    });

    let events = engine.tick(&mut state);
    assert_eq!(state.queues.actions.len(), 1);
    assert_eq!(state.queues.actions[0].ticks_remaining, 1);
    assert!(!events.events().iter().any(|e| match e.kind {
        EventKind::ActionComplete { .. } => true,
        _ => false,
    }));

    let events = engine.tick(&mut state);
    assert!(state.queues.actions.is_empty());
    assert_eq!(state.resources.get("ore"), 30000);
    assert!(events.events().iter().any(|e| match e.kind {
        EventKind::ActionComplete { .. } => true,
        _ => false,
    }));
}

#[test]
fn test_emergency_spawn() {
    let mut engine = TickEngine::new(42);
    let mut state = GameState::default();
    state.resources.set("nutrients", 200000);
    state.resources.set("fungus", 200000);
    state.systems.push(("queen_chamber".to_string(), queen_chamber()));

    let events = engine.tick(&mut state);

    // The colony was empty and rich: the queen spawns at once
    assert_eq!(state.entities.len(), 2);
    assert_eq!(state.resources.get("nutrients"), 100000);
    assert_eq!(state.resources.get("fungus"), 100000);
    assert!(events.events().iter().any(|e| match e.kind {
        EventKind::EmergencySpawn { .. } => true,
        _ => false,
    }));
    for e in &state.entities {
        assert_eq!(e.id.len(), 8);
        assert!(e.id.chars().all(|c| c.is_ascii_hexdigit()));
    }
}

#[test]
fn test_threshold_crossing_fires_once_and_refires() {
    let mut engine = TickEngine::new(42);
    let mut state = GameState::default();

    // dirt rises from 9.9 to 10.1 in one tick: exactly one crossing of 10.0
    state.resources.set("dirt", 99000);
    let mut gain = Resources::new();
    gain.set("dirt", 2000);
    state.systems.push(("dig_site".to_string(), System::new_generator("Dig Site".to_string(), gain)));

    let events = engine.tick(&mut state);
    assert_eq!(state.resources.get("dirt"), 101000);
    let crossings: Vec<i64> = events
        .events()
        .iter()
        .filter_map(|e| match e.kind {
            EventKind::ThresholdCrossed { threshold, .. } => Some(threshold),
            _ => None,
        })
        .collect();
    assert_eq!(crossings, vec![100000]);

    // Fall back below and rise again: the same threshold re-fires
    state.resources.set("dirt", 99000);
    let events = engine.tick(&mut state);
    let crossings: Vec<i64> = events
        .events()
        .iter()
        .filter_map(|e| match e.kind {
            EventKind::ThresholdCrossed { threshold, .. } => Some(threshold),
            _ => None,
        })
        .collect();
    assert_eq!(crossings, vec![100000]);
}

#[test]
fn test_blight_lifecycle() {
    let mut engine = TickEngine::new(42);
    let mut state = GameState::default();

    // A contaminated compost tile at certainty, a compost heap, one ant on
    // the tile and one elsewhere.
    let mut tile = Tile::new_compost("The Heap".to_string(), 1, 0);
    tile.contamination = Some(10000); // 1.0: the blight roll cannot miss
    state.map.tiles.push(("compost".to_string(), tile));

    let mut gen = Resources::new();
    gen.set("nutrients", 100);
    let mut cons = Resources::new();
    cons.set("dirt", 50);
    let heap = System::new_converter("Compost Heap".to_string(), cons, gen);
    state.systems.push(("compost_heap".to_string(), heap));
    state.resources.set("dirt", 1000000);
    state.resources.set("fungus", 10000000);

    let mut on_tile = Entity::new_worker("doomed".to_string(), "compost".to_string());
    on_tile.hunger = 900000;
    state.entities.push(on_tile);
    state.entities.push(Entity::new_worker("safe".to_string(), "origin".to_string()));

    let events = engine.tick(&mut state);

    // Blight strikes: the occupant dies, the system is disabled
    assert!(events.events().iter().any(|e| match e.kind {
        EventKind::BlightStruck { .. } => true,
        _ => false,
    }));
    assert!(events.events().iter().any(|e| match e.kind {
        EventKind::BlightKill { .. } => true,
        _ => false,
    }));
    assert_eq!(state.entities.len(), 1);
    assert_eq!(state.entities[0].id, "safe");
    assert_eq!(state.graveyard.corpses.len(), 1);
    let heap_now = &state.systems.iter().find(|p| p.0 == "compost_heap").unwrap().1;
    assert!(match heap_now.rates {
        SystemRates::Disabled { .. } => true,
        _ => false,
    });

    // Run out the fixed blight duration: the tile clears and the heap's
    // tables come back verbatim
    let mut cleared = false;
    for _ in 0..300 {
        let events = engine.tick(&mut state);
        if events.events().iter().any(|e| match e.kind {
            EventKind::BlightCleared { .. } => true,
            _ => false,
        }) {
            cleared = true;
        }
    }
    assert!(cleared);
    let tile_now = state.map.get_tile("compost").unwrap();
    assert!(!tile_now.is_blighted());
    assert_eq!(tile_now.contamination, Some(0));
    let heap_now = &state.systems.iter().find(|p| p.0 == "compost_heap").unwrap().1;
    match &heap_now.rates {
        SystemRates::Enabled { consumes, generates } => {
            assert_eq!(consumes.as_ref().unwrap().get("dirt"), 50);
            assert_eq!(generates.as_ref().unwrap().get("nutrients"), 100);
        },
        _ => panic!("compost heap should be re-enabled"),
    }
}

#[test]
fn test_undertaker_processes_corpse() {
    let mut engine = TickEngine::new(42);
    let mut state = GameState::default();

    state.map.tiles.push(("compost".to_string(), Tile::new_compost("The Heap".to_string(), 1, 0)));
    let heap = System::new_generator("Compost Heap".to_string(), Resources::new());
    state.systems.push(("compost_heap".to_string(), heap));

    // A dying ant and a healthy undertaker
    let mut dying = Entity::new_worker("w0".to_string(), "origin".to_string());
    dying.hunger = 100;
    state.entities.push(dying);
    state.entities.push(Entity::new_undertaker("u0".to_string(), "origin".to_string()));

    engine.tick(&mut state);
    // The ant died in the entity phase and the undertaker picked the corpse
    // up in the undertaker phase of the same tick
    assert!(state.graveyard.corpses.is_empty());
    assert!(match &state.entities[0].kind {
        EntityKind::Ant { processing_corpse: Some(true), .. } => true,
        _ => false,
    });

    // 120 ticks of carrying
    let mut processed = false;
    for _ in 0..125 {
        let events = engine.tick(&mut state);
        if events.events().iter().any(|e| match e.kind {
            EventKind::CorpseProcessed { .. } => true,
            _ => false,
        }) {
            processed = true;
        }
    }
    assert!(processed);
    assert!(state.graveyard.corpses.is_empty());
    assert_eq!(state.graveyard.total_processed, 1);
    let tile_now = state.map.get_tile("compost").unwrap();
    assert_eq!(tile_now.contamination, Some(100));
    let heap_now = &state.systems.iter().find(|p| p.0 == "compost_heap").unwrap().1;
    assert_eq!(heap_now.corpse_boosts.len(), 1);
    assert_eq!(heap_now.corpse_boosts[0].bonus, 1000);
}

#[test]
fn test_receiver_maintenance_silences_and_restores() {
    let mut engine = TickEngine::new(42);
    let mut state = GameState::default();

    let receiver = System {
        name: "The Receiver".to_string(),
        system_type: SystemType::Antenna,
        description: None,
        corpse_boosts: Vec::new(),
        rates: SystemRates::Enabled { consumes: None, generates: None },
    };
    state.systems.push(("receiver".to_string(), receiver));
    state.meta.maintenance_goal = Some(MaintenanceGoal {
        last_maintained: Some(0),
        interval_ticks: Some(1),
        extra: Vec::new(),
    });

    // No strange matter: the receiver falls silent
    let events = engine.tick(&mut state);
    assert!(events.events().iter().any(|e| match e.kind {
        EventKind::ReceiverSilent => true,
        _ => false,
    }));
    assert!(state.meta.receiver_silent);

    // Strange matter arrives: the receiver is restored
    state.resources.set("strange_matter", 20000);
    let events = engine.tick(&mut state);
    assert!(events.events().iter().any(|e| match e.kind {
        EventKind::ReceiverRestored => true,
        _ => false,
    }));
    assert!(!state.meta.receiver_silent);
    // the lapsed interval and the restoration each consumed one unit
    assert_eq!(state.resources.get("strange_matter"), 0);
}

#[test]
fn test_hungry_visitor_transforms_influence() {
    let mut engine = TickEngine::new(42);
    let mut state = GameState::default();

    let mut hungry = Entity::new_hungry("v_000001".to_string());
    hungry.hunger = 400000; // below the eating threshold
    state.entities.push(hungry);
    state.resources.set("influence", 100000);

    let events = engine.tick(&mut state);

    assert!(events.events().iter().any(|e| match e.kind {
        EventKind::InfluenceTransformed { .. } => true,
        _ => false,
    }));
    // 0.1 influence eaten, 0.05 strange matter produced
    assert_eq!(state.resources.get("influence"), 99000);
    assert_eq!(state.resources.get("strange_matter"), 500);
}

#[test]
fn test_wanderer_leaves_gift() {
    let mut engine = TickEngine::new(42);
    let mut state = GameState::default();

    let mut wanderer = Entity::new_wanderer("v_000002".to_string());
    wanderer.age = 1799; // departs this tick at max age 1800
    state.entities.push(wanderer);

    let events = engine.tick(&mut state);

    assert!(state.entities.is_empty());
    assert!(state.graveyard.corpses.is_empty()); // visitors never enter the graveyard
    assert!(events.events().iter().any(|e| match e.kind {
        EventKind::VisitorDeparted { .. } => true,
        _ => false,
    }));
    assert_eq!(state.resources.get("strange_matter"), 10000);
}

#[test]
fn test_boredom_builds_and_resets() {
    let mut engine = TickEngine::new(42);
    let mut state = GameState::default();

    let mut peaked = false;
    for _ in 0..60 {
        let events = engine.tick(&mut state);
        if events.events().iter().any(|e| match e.kind {
            EventKind::BoredomHigh { level } => level == 60,
            _ => false,
        }) {
            peaked = true;
        }
    }
    assert!(peaked);
    assert_eq!(state.meta.boredom, 0);
}

#[test]
fn test_tick_populated_colony() {
    let mut engine = TickEngine::new(42);
    let mut state = GameState::default();

    // A running colony: a dig site, a compost heap, two fed ants
    state.resources.set("dirt", 15898550);
    state.resources.set("nutrients", 885070);
    state.resources.set("fungus", 1017816);
    let mut dig = Resources::new();
    dig.set("dirt", 200);
    state.systems.push(("dig_site".to_string(), System::new_generator("Dig Site".to_string(), dig)));
    let mut cons = Resources::new();
    cons.set("dirt", 50);
    let mut gen = Resources::new();
    gen.set("nutrients", 100);
    state.systems.push((
        "compost_heap".to_string(),
        System::new_converter("Compost Heap".to_string(), cons, gen),
    ));
    state.entities.push(Entity::new_worker("81a2527a".to_string(), "origin".to_string()));
    state.entities.push(Entity::new_undertaker("539a5906".to_string(), "origin".to_string()));

    let initial_dirt = state.resources.get("dirt");
    for _ in 0..100 {
        engine.tick(&mut state);
    }

    assert_eq!(state.tick, 100);
    // dig_site +0.02, compost_heap -0.005: net +0.015 dirt per tick, exactly
    assert_eq!(state.resources.get("dirt") - initial_dirt, 15000);
    assert!(!state.entities.is_empty());
}
