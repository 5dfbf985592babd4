use std::collections::HashMap;

use anthill_core::{
    Entity, Event, EventKind, GameState, Resources, System, SystemRates, SystemType, TickEngine,
};

/// Run N ticks and collect all events
fn run_ticks(engine: &mut TickEngine, state: &mut GameState, n: usize) -> Vec<Event> {
    let mut all_events = Vec::new();
    for _ in 0..n {
        let events = engine.tick(state);
        all_events.extend(events.into_events());
    }
    all_events
}

/// Compare two event sequences for equality (ignoring order within same tick)
fn events_equal(a: &[Event], b: &[Event]) -> bool {
    if a.len() != b.len() {
        return false;
    }

    let mut a_by_tick: HashMap<u64, Vec<String>> = HashMap::new();
    let mut b_by_tick: HashMap<u64, Vec<String>> = HashMap::new();

    for event in a {
        a_by_tick.entry(event.tick).or_default().push(format!("{:?}", event.kind));
    }
    for event in b {
        b_by_tick.entry(event.tick).or_default().push(format!("{:?}", event.kind));
    }

    for (tick, mut a_events) in a_by_tick {
        match b_by_tick.get_mut(&tick) {
            Some(b_events) => {
                a_events.sort();
                b_events.sort();
                if a_events != *b_events {
                    return false;
                }
            },
            None => return false,
        }
    }

    true
}

fn antenna(name: &str, description: Option<&str>) -> System {
    System {
        name: name.to_string(),
        system_type: SystemType::Antenna,
        description: description.map(|d| d.to_string()),
        corpse_boosts: Vec::new(),
        rates: SystemRates::Enabled { consumes: None, generates: None },
    }
}

#[test]
fn test_determinism_basic() {
    // Run the same simulation twice with the same seed
    let seed = 12345u64;

    let mut state1 = GameState::default();
    state1.resources.set("nutrients", 1000000);
    state1.resources.set("fungus", 1000000);
    state1.entities.push(Entity::new_worker("w1".to_string(), "origin".to_string()));

    let mut state2 = state1.clone();

    let mut engine1 = TickEngine::new(seed);
    let mut engine2 = TickEngine::new(seed);

    let events1 = run_ticks(&mut engine1, &mut state1, 100);
    let events2 = run_ticks(&mut engine2, &mut state2, 100);

    // States should be identical
    assert_eq!(state1.tick, state2.tick);
    assert_eq!(state1.resources.entries, state2.resources.entries);
    assert_eq!(state1.entities.len(), state2.entities.len());

    // Events should be equivalent
    assert!(events_equal(&events1, &events2), "Events differ between runs");
}

#[test]
fn test_determinism_with_spawning() {
    // Test with queen chamber active
    let seed = 42u64;

    let mut state1 = GameState::default();
    state1.resources.set("nutrients", 2000000);
    state1.resources.set("fungus", 2000000);
    state1.systems.push((
        "queen_chamber".to_string(),
        System {
            name: "Queen's Chamber".to_string(),
            system_type: SystemType::Spawner,
            description: Some("The queen produces new ants".to_string()),
            corpse_boosts: Vec::new(),
            rates: SystemRates::Enabled { consumes: None, generates: None },
        },
    ));

    let mut state2 = state1.clone();

    let mut engine1 = TickEngine::new(seed);
    let mut engine2 = TickEngine::new(seed);

    // Run for 2000 ticks (past spawn interval)
    let events1 = run_ticks(&mut engine1, &mut state1, 2000);
    let events2 = run_ticks(&mut engine2, &mut state2, 2000);

    // Check that spawning happened and was deterministic
    let spawns1: Vec<&Event> = events1
        .iter()
        .filter(|e| match e.kind {
            EventKind::AntsSpawned { .. } | EventKind::EmergencySpawn { .. } => true,
            _ => false,
        })
        .collect();
    let spawns2: Vec<&Event> = events2
        .iter()
        .filter(|e| match e.kind {
            EventKind::AntsSpawned { .. } | EventKind::EmergencySpawn { .. } => true,
            _ => false,
        })
        .collect();

    assert!(!spawns1.is_empty(), "Expected spawning events");
    assert_eq!(spawns1.len(), spawns2.len(), "Spawn counts differ");

    // Entity counts should match
    assert_eq!(state1.entities.len(), state2.entities.len());
}

#[test]
fn test_determinism_with_receiver() {
    // Test visitor summoning determinism
    let seed = 99999u64;

    let mut state1 = GameState::default();
    state1.resources.set("influence", 500000);
    state1.resources.set("fungus", 1000000);
    state1.systems.push(("receiver".to_string(), antenna("The Receiver", Some("Listens to the Outside"))));

    let mut state2 = state1.clone();

    let mut engine1 = TickEngine::new(seed);
    let mut engine2 = TickEngine::new(seed);

    // Run for 3000 ticks (enough for multiple summon attempts)
    let events1 = run_ticks(&mut engine1, &mut state1, 3000);
    let events2 = run_ticks(&mut engine2, &mut state2, 3000);

    // Check visitor arrivals are deterministic
    let arrivals1: Vec<&Event> = events1
        .iter()
        .filter(|e| match e.kind {
            EventKind::VisitorArrived { .. } => true,
            _ => false,
        })
        .collect();
    let arrivals2: Vec<&Event> = events2
        .iter()
        .filter(|e| match e.kind {
            EventKind::VisitorArrived { .. } => true,
            _ => false,
        })
        .collect();

    assert_eq!(arrivals1.len(), arrivals2.len(), "Visitor arrival counts differ");

    // Compare visitor types
    for (a1, a2) in arrivals1.iter().zip(arrivals2.iter()) {
        if let (
            EventKind::VisitorArrived { visitor_type: t1, .. },
            EventKind::VisitorArrived { visitor_type: t2, .. },
        ) = (&a1.kind, &a2.kind)
        {
            assert_eq!(t1, t2, "Visitor types differ at tick {}", a1.tick);
        }
    }
}

#[test]
fn test_different_seeds_diverge() {
    // Different seeds should produce different results
    let mut state1 = GameState::default();
    state1.resources.set("influence", 500000);
    state1.systems.push(("receiver".to_string(), antenna("The Receiver", None)));

    let mut state2 = state1.clone();

    let mut engine1 = TickEngine::new(11111);
    let mut engine2 = TickEngine::new(22222);

    // Enough ticks for many summon attempts, whose random outcomes decide
    // which visitors arrive and what they consume or leave behind
    run_ticks(&mut engine1, &mut state1, 12000);
    run_ticks(&mut engine2, &mut state2, 12000);

    // The randomized outcomes should differ between the seeds
    let outcome1 = (
        state1.resources.get("influence"),
        state1.resources.get("strange_matter"),
        state1.resources.get("insight"),
    );
    let outcome2 = (
        state2.resources.get("influence"),
        state2.resources.get("strange_matter"),
        state2.resources.get("insight"),
    );
    assert_ne!(outcome1, outcome2, "Different seeds should produce different outcomes");
}

#[test]
fn test_resource_generation_determinism() {
    let seed = 55555u64;

    let mut generates = Resources::new();
    generates.set("dirt", 200);

    let mut consumes = Resources::new();
    consumes.set("dirt", 50);

    let mut generates2 = Resources::new();
    generates2.set("nutrients", 100);

    let mut state1 = GameState::default();
    state1.resources.set("dirt", 500000);
    state1.systems.push((
        "dig_site".to_string(),
        System::new_generator("Dig Site".to_string(), generates),
    ));
    state1.systems.push((
        "compost_heap".to_string(),
        System::new_converter("Compost Heap".to_string(), consumes, generates2),
    ));

    let mut state2 = state1.clone();

    let mut engine1 = TickEngine::new(seed);
    let mut engine2 = TickEngine::new(seed);

    run_ticks(&mut engine1, &mut state1, 1000);
    run_ticks(&mut engine2, &mut state2, 1000);

    // Resource amounts should be identical
    assert_eq!(state1.resources.get("dirt"), state2.resources.get("dirt"));
    assert_eq!(state1.resources.get("nutrients"), state2.resources.get("nutrients"));

    // dig_site: +0.02 dirt, compost_heap: -0.005 dirt +0.01 nutrients per
    // tick; fixed-point arithmetic makes the totals exact
    assert_eq!(state1.resources.get("dirt"), 500000 + 1000 * 150);
    assert_eq!(state1.resources.get("nutrients"), 1000 * 100);
}

#[test]
fn test_entity_lifecycle_determinism() {
    let seed = 77777u64;

    let mut state1 = GameState::default();
    state1.resources.set("fungus", 50000); // Limited food

    // Add some entities with varying hunger: 50, 40, 30, 20, 10
    for i in 0..5 {
        let mut entity = Entity::new_worker(format!("w{}", i), "origin".to_string());
        entity.hunger = 500000 - (i as i64) * 100000;
        state1.entities.push(entity);
    }

    let mut state2 = state1.clone();

    let mut engine1 = TickEngine::new(seed);
    let mut engine2 = TickEngine::new(seed);

    run_ticks(&mut engine1, &mut state1, 500);
    run_ticks(&mut engine2, &mut state2, 500);

    // Same number of survivors
    assert_eq!(state1.entities.len(), state2.entities.len());

    // Same graveyard state
    assert_eq!(state1.graveyard.corpses.len(), state2.graveyard.corpses.len());

    // Same resource state
    assert_eq!(state1.resources.get("fungus"), state2.resources.get("fungus"));
}
