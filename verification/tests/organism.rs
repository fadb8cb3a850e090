use lau_agent_organism::lifecycle::{LifecycleStage, SpendLevels};
use lau_agent_organism::organism::OrganismLife;
use lau_agent_organism::reproduce::BirthGates;

fn calm() -> SpendLevels {
    SpendLevels { exhausted: false, past_sunset: false, past_declining: false }
}

const OPEN: BirthGates = BirthGates { h1_zero: true, parent_healthy: true, sufficient_energy: true };

#[test]
fn test_reproduction_fails_when_dead() {
    let life: OrganismLife<f64> = OrganismLife::new();
    // Not born yet, can't reproduce.
    assert!(!life.may_reproduce(&OPEN));
}

#[test]
fn birth_makes_the_organism_alive() {
    let mut life = OrganismLife::new();
    life.birth(0.0);
    assert!(life.alive);
    assert_eq!(life.stage(), LifecycleStage::Alive);
    assert!(life.may_reproduce(&OPEN));
}

#[test]
fn living_steps_are_counted() {
    let mut life = OrganismLife::new();
    life.birth(0.0);
    for t in 1..=3 {
        assert!(life.begin_step());
        assert_eq!(life.finish_step(false, calm(), t as f64), LifecycleStage::Alive);
    }
    assert_eq!(life.steps, 3);
}

#[test]
fn forced_death_ends_life() {
    let mut life = OrganismLife::new();
    life.birth(0.0);
    assert!(life.begin_step());
    assert_eq!(life.finish_step(true, calm(), 1.0), LifecycleStage::Dead);
    assert!(!life.alive);
    assert!(life.lifecycle.knowledge_transferred);
    assert!(!life.may_reproduce(&OPEN));
}

#[test]
fn dead_organism_does_not_step() {
    let mut life = OrganismLife::new();
    life.birth(0.0);
    life.begin_step();
    life.finish_step(true, calm(), 1.0);
    let steps = life.steps;
    assert!(!life.begin_step());
    assert_eq!(life.steps, steps);
    assert_eq!(life.stage(), LifecycleStage::Dead);
}

#[test]
fn unborn_organism_does_not_step() {
    let mut life: OrganismLife<f64> = OrganismLife::new();
    assert!(!life.begin_step());
    assert_eq!(life.steps, 0);
    assert_eq!(life.stage(), LifecycleStage::Gestating);
}
