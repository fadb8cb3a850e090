use lau_agent_organism::lifecycle::{LifecycleStage, SpendLevels, SunsetManager};

/// Levels of a spent fraction against the default death condition
/// (sunset at 0.9, declining at 0.7).
fn levels(fraction: f64) -> SpendLevels {
    SpendLevels {
        exhausted: fraction >= 1.0,
        past_sunset: fraction >= 0.9,
        past_declining: fraction >= 0.7,
    }
}

#[test]
fn test_initial_stage_is_gestating() {
    let mgr: SunsetManager<f64> = SunsetManager::new();
    assert_eq!(mgr.stage, LifecycleStage::Gestating);
}

#[test]
fn test_birth_transition() {
    let mut mgr = SunsetManager::new();
    mgr.birth(0.0);
    assert_eq!(mgr.stage, LifecycleStage::Alive);
    assert_eq!(mgr.num_transitions(), 1);
}

#[test]
fn test_declining_stage() {
    let mut mgr = SunsetManager::new();
    mgr.birth(0.0);
    let stage = mgr.update(levels(0.75), 1.0);
    assert_eq!(stage, LifecycleStage::Declining);
}

#[test]
fn test_sunset_stage() {
    let mut mgr = SunsetManager::new();
    mgr.birth(0.0);
    let stage = mgr.update(levels(0.95), 1.0);
    assert_eq!(stage, LifecycleStage::Sunset);
    assert!(mgr.sunset_initiated);
}

#[test]
fn test_death_stage() {
    let mut mgr = SunsetManager::new();
    mgr.birth(0.0);
    let stage = mgr.update(levels(1.0), 1.0);
    assert_eq!(stage, LifecycleStage::Dead);
}

#[test]
fn test_should_die() {
    let mut mgr: SunsetManager<f64> = SunsetManager::new();
    assert!(!mgr.should_die());
    mgr.stage = LifecycleStage::Dead;
    assert!(mgr.should_die());
}

#[test]
fn test_in_sunset() {
    let mut mgr: SunsetManager<f64> = SunsetManager::new();
    assert!(!mgr.in_sunset());
    mgr.stage = LifecycleStage::Sunset;
    assert!(mgr.in_sunset());
}

#[test]
fn death_test_colimit_computation() {
    let mut mgr: SunsetManager<f64> = SunsetManager::new();
    let (landauer_cost, free_energy) = (100.0, 50.0);
    let result = mgr.compute_colimit(landauer_cost >= free_energy);
    assert!(result.is_colimit);
    assert_eq!(mgr.stage, LifecycleStage::Dead);
}

#[test]
fn test_colimit_not_yet() {
    let mut mgr: SunsetManager<f64> = SunsetManager::new();
    let (landauer_cost, free_energy) = (50.0, 100.0);
    let result = mgr.compute_colimit(landauer_cost >= free_energy);
    assert!(!result.is_colimit);
    assert_eq!(mgr.stage, LifecycleStage::Gestating);
}

#[test]
fn test_knowledge_transfer() {
    let mut mgr: SunsetManager<f64> = SunsetManager::new();
    assert!(!mgr.knowledge_transferred);
    mgr.transfer_knowledge();
    assert!(mgr.knowledge_transferred);
}

#[test]
fn test_final_state() {
    let mut mgr: SunsetManager<f64> = SunsetManager::new();
    mgr.set_final_state("all knowledge transferred");
    assert_eq!(mgr.final_state, Some("all knowledge transferred".to_string()));
}

#[test]
fn test_lifecycle_display() {
    assert_eq!(LifecycleStage::Alive.name(), "Alive");
    assert_eq!(LifecycleStage::Dead.name(), "Dead");
}

#[test]
fn test_lifespan() {
    let mut mgr = SunsetManager::new();
    mgr.birth(0.0);
    mgr.update(levels(1.0), 100.0);
    let ls: f64 = match mgr.lifespan_bounds() {
        (Some(b), Some(d)) => d - b,
        (Some(b), None) => -b,
        _ => 0.0,
    };
    assert!((ls - 100.0).abs() < 1e-10);
}

#[test]
fn test_full_lifecycle() {
    let mut mgr = SunsetManager::new();
    mgr.birth(0.0);
    assert_eq!(mgr.stage, LifecycleStage::Alive);

    mgr.update(levels(0.5), 10.0);
    assert_eq!(mgr.stage, LifecycleStage::Alive);

    mgr.update(levels(0.75), 20.0);
    assert_eq!(mgr.stage, LifecycleStage::Declining);

    mgr.update(levels(0.92), 30.0);
    assert_eq!(mgr.stage, LifecycleStage::Sunset);

    mgr.update(levels(1.0), 40.0);
    assert_eq!(mgr.stage, LifecycleStage::Dead);

    assert_eq!(mgr.num_transitions(), 4); // birth, declining, sunset, dead
}

#[test]
fn stage_names_of_every_stage() {
    assert_eq!(LifecycleStage::Gestating.name(), "Gestating");
    assert_eq!(LifecycleStage::Declining.name(), "Declining");
    assert_eq!(LifecycleStage::Sunset.name(), "Sunset");
}

#[test]
fn sunset_is_entered_only_once() {
    let mut mgr = SunsetManager::new();
    mgr.birth(0u64);
    assert_eq!(mgr.update(levels(0.95), 1), LifecycleStage::Sunset);
    // Still past the sunset threshold: the protocol is not entered again.
    assert_eq!(mgr.update(levels(0.95), 2), LifecycleStage::Declining);
    assert_eq!(mgr.update(levels(0.97), 3), LifecycleStage::Declining);
    let sunsets = mgr.transitions.iter().filter(|(s, _)| *s == LifecycleStage::Sunset).count();
    assert_eq!(sunsets, 1);
}

#[test]
fn exhaustion_means_death_from_any_stage() {
    let mut mgr: SunsetManager<u64> = SunsetManager::new();
    assert_eq!(mgr.update(levels(1.5), 7), LifecycleStage::Dead);
    assert_eq!(mgr.transitions, vec![(LifecycleStage::Dead, 7)]);
    // Staying exhausted logs nothing more.
    assert_eq!(mgr.update(levels(2.0), 8), LifecycleStage::Dead);
    assert_eq!(mgr.num_transitions(), 1);
}

#[test]
fn below_thresholds_keeps_the_stage() {
    let mut mgr = SunsetManager::new();
    mgr.birth(0u64);
    assert_eq!(mgr.update(levels(0.1), 1), LifecycleStage::Alive);
    assert_eq!(mgr.num_transitions(), 1);
    assert_eq!(mgr.first_time(LifecycleStage::Alive), Some(0));
    assert_eq!(mgr.first_time(LifecycleStage::Dead), None);
}

#[test]
fn lifespan_bounds_of_a_living_agent() {
    let mut mgr = SunsetManager::new();
    mgr.birth(5u64);
    mgr.update(levels(0.8), 9);
    assert_eq!(mgr.lifespan_bounds(), (Some(5), None));
}

#[test]
fn colimit_reports_the_stage_before_death() {
    let mut mgr = SunsetManager::new();
    mgr.birth(0u64);
    mgr.transfer_knowledge();
    let r = mgr.compute_colimit(true);
    assert!(r.is_colimit);
    assert!(r.knowledge_transferred);
    assert_eq!(r.stage, LifecycleStage::Alive);
    assert!(mgr.should_die());
}

#[test]
fn dead_agent_stays_dead() {
    let mut mgr = SunsetManager::new();
    mgr.birth(0.0);
    mgr.update(levels(1.0), 1.0);
    assert_eq!(mgr.stage, LifecycleStage::Dead);
    assert_eq!(mgr.update(levels(0.8), 2.0), LifecycleStage::Dead);
    assert_eq!(mgr.stage, LifecycleStage::Dead);
    assert!(mgr.should_die());
    assert_eq!(mgr.num_transitions(), 2);
}

#[test]
fn reversible_death_can_be_left() {
    let mut mgr = SunsetManager::new();
    mgr.irreversible = false;
    mgr.birth(0u64);
    mgr.update(levels(1.0), 1);
    assert_eq!(mgr.update(levels(0.8), 2), LifecycleStage::Declining);
    assert_eq!(mgr.num_transitions(), 3);
}
