use anthill_core::{GameState, Resources, SeededRng};

#[test]
fn test_determinism() {
    let mut rng1 = SeededRng::new(12345);
    let mut rng2 = SeededRng::new(12345);

    // Same seed should produce same sequence
    for _ in 0..100 {
        assert_eq!(rng1.random(), rng2.random());
    }
}

#[test]
fn test_different_seeds() {
    let mut rng1 = SeededRng::new(12345);
    let mut rng2 = SeededRng::new(54321);

    // Different seeds should (almost certainly) produce different values
    let vals1: Vec<i64> = (0..10).map(|_| rng1.random()).collect();
    let vals2: Vec<i64> = (0..10).map(|_| rng2.random()).collect();

    assert_ne!(vals1, vals2);
}

#[test]
fn test_from_tick() {
    let rng1 = SeededRng::from_tick(100, 1000);
    let rng2 = SeededRng::from_tick(100, 1000);
    let rng3 = SeededRng::from_tick(100, 1001);

    assert_eq!(rng1.seed(), rng2.seed());
    assert_ne!(rng1.seed(), rng3.seed());
}

#[test]
fn test_entity_id() {
    let mut rng = SeededRng::new(42);
    let id1 = rng.entity_id();
    let id2 = rng.entity_id();

    assert_eq!(id1.len(), 8);
    assert_eq!(id2.len(), 8);
    assert_ne!(id1, id2);
}

#[test]
fn test_chance() {
    let mut rng = SeededRng::new(42);

    // With many trials, ~30% should be true for probability 0.3
    let trials = 10000;
    let trues: usize = (0..trials).filter(|_| rng.chance(3000)).count();

    assert!(trues > 2500 && trues < 3500);
}

#[test]
fn test_visitor_id_shape() {
    let mut rng = SeededRng::new(7);
    let id = rng.visitor_id();
    assert_eq!(id.len(), 8);
    assert!(id.starts_with("v_"));
    assert!(id[2..].chars().all(|c| c.is_ascii_hexdigit()));
}

#[test]
fn test_resource_operations() {
    let mut res = Resources::new();

    assert_eq!(res.get("dirt"), 0);

    res.add("dirt", 100000);
    assert_eq!(res.get("dirt"), 100000);

    assert!(res.try_consume("dirt", 30000));
    assert_eq!(res.get("dirt"), 70000);

    assert!(!res.try_consume("dirt", 100000));
    assert_eq!(res.get("dirt"), 70000);
}

#[test]
fn test_resource_bulk_operations() {
    let mut res = Resources::new();
    res.set("dirt", 50000);
    res.set("ore", 20000);

    let mut reqs = Resources::new();
    reqs.set("dirt", 30000);
    reqs.set("ore", 10000);
    assert!(res.can_consume_all(&reqs));
    assert!(res.try_consume_all(&reqs));
    assert_eq!(res.get("dirt"), 20000);
    assert_eq!(res.get("ore"), 10000);

    let mut too_much = Resources::new();
    too_much.set("ore", 999999);
    assert!(!res.can_consume_all(&too_much));
    assert!(!res.try_consume_all(&too_much));
    assert_eq!(res.get("ore"), 10000);

    let mut adds = Resources::new();
    adds.set("dirt", 5000);
    adds.set("fungus", 10000);
    res.add_all(&adds);
    assert_eq!(res.get("dirt"), 25000);
    assert_eq!(res.get("fungus"), 10000);
}

#[test]
fn test_default_state() {
    let state = GameState::default();
    assert_eq!(state.tick, 0);
    assert!(state.entities.is_empty());
    assert!(state.map.get_tile("origin").is_some());
}
