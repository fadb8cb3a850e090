use lau_agent_organism::reproduce::{decimal_string, BirthGates, Spawner};

/// Birth gates under the default spawner thresholds (H¹ below 0.1, health
/// at least 0.5, free energy at least 10).
fn gates(h1_risk: f64, parent_health: f64, parent_free_energy: f64) -> BirthGates {
    BirthGates {
        h1_zero: h1_risk < 0.1,
        parent_healthy: parent_health >= 0.5,
        sufficient_energy: parent_free_energy >= 10.0,
    }
}

#[test]
fn test_asexual_spawn_success() {
    let mut spawner = Spawner::new();
    let result = spawner.spawn_asexual("parent-1", 0, gates(0.01, 0.9, 100.0));
    assert!(result.success);
    assert_eq!(result.generation, 1);
    assert!(!result.child_id.is_empty());
}

#[test]
fn test_asexual_spawn_failure() {
    let mut spawner = Spawner::new();
    let result = spawner.spawn_asexual("parent-1", 0, gates(0.5, 0.9, 100.0));
    assert!(!result.success);
}

#[test]
fn test_generation_increments() {
    let mut spawner = Spawner::new();
    let r1 = spawner.spawn_asexual("p", 0, gates(0.01, 0.9, 100.0));
    let r2 = spawner.spawn_asexual("p", 5, gates(0.01, 0.9, 100.0));
    assert_eq!(r1.generation, 1);
    assert_eq!(r2.generation, 6);
}

#[test]
fn test_child_id_increments() {
    let mut spawner = Spawner::new();
    let r1 = spawner.spawn_asexual("p", 0, gates(0.01, 0.9, 100.0));
    let r2 = spawner.spawn_asexual("p", 0, gates(0.01, 0.9, 100.0));
    assert_ne!(r1.child_id, r2.child_id);
}

#[test]
fn child_ids_are_numbered_from_one() {
    let mut spawner = Spawner::new();
    let g = gates(0.0, 1.0, 50.0);
    assert_eq!(spawner.spawn_asexual("alice", 3, g).child_id, "alice-child-1");
    assert_eq!(spawner.spawn_asexual("alice", 3, g).child_id, "alice-child-2");
    assert_eq!(spawner.next_child_id, 2);
}

#[test]
fn refused_spawn_keeps_the_counter() {
    let mut spawner = Spawner::new();
    let refused = spawner.spawn_asexual("p", 9, gates(0.05, 0.3, 50.0));
    assert!(!refused.success);
    assert_eq!(refused.child_id, "");
    assert_eq!(refused.generation, 10);
    assert_eq!(spawner.next_child_id, 0);
}

#[test]
fn each_gate_can_refuse_birth() {
    assert!(gates(0.05, 0.8, 50.0).can_birth());
    assert!(!gates(0.5, 0.8, 50.0).can_birth());
    assert!(!gates(0.05, 0.3, 50.0).can_birth());
    assert!(!gates(0.05, 0.8, 5.0).can_birth());
}

#[test]
fn decimal_strings() {
    assert_eq!(decimal_string(0), "0");
    assert_eq!(decimal_string(7), "7");
    assert_eq!(decimal_string(10), "10");
    assert_eq!(decimal_string(1234567890), "1234567890");
    assert_eq!(decimal_string(u64::MAX), u64::MAX.to_string());
}

#[test]
fn ten_spawns_give_ten_distinct_ids() {
    let mut spawner = Spawner::new();
    let g = gates(0.0, 1.0, 50.0);
    let ids: Vec<String> = (0..10).map(|_| spawner.spawn_asexual("p", 0, g).child_id).collect();
    for i in 0..ids.len() {
        for j in 0..i {
            assert_ne!(ids[i], ids[j]);
        }
    }
    assert_eq!(ids[9], "p-child-10");
}
