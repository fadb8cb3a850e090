//! The organism's life: whether it is alive, how many steps it has lived,
//! and its lifecycle, driven one step at a time.

use vstd::prelude::*;

use crate::lifecycle::{update_model, LifecycleStage, SpendLevels, SunsetManager, SunsetModel};
use crate::reproduce::BirthGates;

verus! {

/// The lifecycle part of an organism; `T` is the type of its clock.
#[derive(Debug, Clone)]
pub struct OrganismLife<T> {
    /// Is the agent alive?
    pub alive: bool,
    /// Number of steps taken.
    pub steps: u64,
    /// Lifecycle manager (colimit sunset).
    pub lifecycle: SunsetManager<T>,
}

/// Mathematical model of an organism's life.
pub struct LifeModel<T> {
    pub alive: bool,
    pub steps: int,
    pub lifecycle: SunsetModel<T>,
}

impl<T> View for OrganismLife<T> {
    type V = LifeModel<T>;

    open spec fn view(&self) -> LifeModel<T> {
        LifeModel { alive: self.alive, steps: self.steps as int, lifecycle: self.lifecycle@ }
    }
}

/// What one step of the organism brings: whether the budget can no longer
/// pay for a step, where the spent fraction stands, and the step's time.
pub struct StepEvent<T> {
    pub force_death: bool,
    pub levels: SpendLevels,
    pub time: T,
}

/// The life after `begin_step`, and whether the organism steps.
pub open spec fn begin_model<T>(o: LifeModel<T>) -> (LifeModel<T>, bool) {
    if o.alive {
        (LifeModel { steps: o.steps + 1, ..o }, true)
    } else {
        (o, false)
    }
}

/// The life after `finish_step`, and the stage it reports.
pub open spec fn finish_model<T>(o: LifeModel<T>, force_death: bool, levels: SpendLevels, time: T) -> (LifeModel<T>, LifecycleStage) {
    let effective = if force_death && o.alive { SpendLevels::spec_exhausted() } else { levels };
    let updated = update_model(o.lifecycle, effective, time);
    let dead = updated.1 == LifecycleStage::Dead;
    (
        LifeModel {
            alive: o.alive && !dead,
            lifecycle: if dead {
                SunsetModel { knowledge_transferred: true, ..updated.0 }
            } else {
                updated.0
            },
            ..o
        },
        updated.1,
    )
}

/// One whole step: a dead or unborn organism does not step; a living one
/// counts the step and updates its lifecycle.
pub open spec fn step_model<T>(o: LifeModel<T>, e: StepEvent<T>) -> LifeModel<T> {
    let begun = begin_model(o);
    if begun.1 {
        finish_model(begun.0, e.force_death, e.levels, e.time).0
    } else {
        begun.0
    }
}

/// The life after a run of steps.
pub open spec fn run_steps<T>(o: LifeModel<T>, events: Seq<StepEvent<T>>) -> LifeModel<T>
    decreases events.len(),
{
    if events.len() == 0 {
        o
    } else {
        step_model(run_steps(o, events.drop_last()), events.last())
    }
}

impl<T> OrganismLife<T> {
    /// A new organism, not yet born.
    pub fn new() -> (o: Self)
        ensures
            !o.alive,
            o.steps == 0,
            o.lifecycle.stage == LifecycleStage::Gestating,
            o.lifecycle.transitions@.len() == 0,
            !o.lifecycle.sunset_initiated,
            o.lifecycle.irreversible,
            !o.lifecycle.knowledge_transferred,
            o.lifecycle.final_state.is_none(),
    {
        OrganismLife { alive: false, steps: 0, lifecycle: SunsetManager::new() }
    }

    /// Birth at `time`: the organism becomes alive.
    pub fn birth(&mut self, time: T)
        ensures
            final(self)@ == (LifeModel {
                alive: true,
                lifecycle: SunsetModel {
                    stage: LifecycleStage::Alive,
                    transitions: old(self)@.lifecycle.transitions.push((LifecycleStage::Alive, time)),
                    ..old(self)@.lifecycle
                },
                ..old(self)@
            }),
    {
        self.lifecycle.birth(time);
        self.alive = true;
    }

    /// Start a step: a dead (or unborn) organism does not step and nothing
    /// changes; a living one counts the step. Returns whether it steps.
    pub fn begin_step(&mut self) -> (stepping: bool)
        requires
            old(self).alive ==> old(self).steps < u64::MAX,
        ensures
            (final(self)@, stepping) == begin_model(old(self)@),
    {
        if !self.alive {
            return false;
        }
        self.steps = self.steps + 1;
        true
    }

    /// Finish a step at `time`: the lifecycle is updated from the spent
    /// fraction's `levels`, or driven to death when `force_death` says the
    /// budget can no longer pay for a step; at death the organism stops
    /// living and hands its knowledge on.
    pub fn finish_step(&mut self, force_death: bool, levels: SpendLevels, time: T) -> (stage: LifecycleStage)
        ensures
            (final(self)@, stage) == finish_model(old(self)@, force_death, levels, time),
            force_death && old(self).alive ==> stage == LifecycleStage::Dead,
    {
        let effective = if force_death && self.alive {
            SpendLevels::exhausted_budget()
        } else {
            levels
        };
        let stage = self.lifecycle.update(effective, time);
        if stage == LifecycleStage::Dead {
            self.alive = false;
            self.lifecycle.transfer_knowledge();
        }
        stage
    }

    /// The current lifecycle stage.
    pub fn stage(&self) -> (s: LifecycleStage)
        ensures
            s == self.lifecycle.stage,
    {
        self.lifecycle.stage
    }

    /// Whether an attempt to reproduce may go ahead: only a living
    /// organism whose birth gates are all open reproduces.
    pub fn may_reproduce(&self, gates: &BirthGates) -> (b: bool)
        ensures
            b == (self.alive && gates.allows_birth()),
    {
        self.alive && gates.can_birth()
    }
}

/// Law: a step of a living organism whose budget can still pay moves the
/// lifecycle exactly as an update of its sunset manager with the same
/// levels does; the organism stays alive unless that update kills it.
/// When the budget can no longer pay, the living organism dies.
pub proof fn law_step_follows_update<T>(o: LifeModel<T>, force_death: bool, levels: SpendLevels, time: T)
    requires
        o.alive,
    ensures
        !force_death ==> {
            let (after, stage) = finish_model(o, false, levels, time);
            let (updated, expected) = update_model(o.lifecycle, levels, time);
            &&& stage == expected
            &&& after.lifecycle.stage == updated.stage
            &&& after.lifecycle.sunset_initiated == updated.sunset_initiated
            &&& after.lifecycle.transitions == updated.transitions
            &&& after.alive == (expected != LifecycleStage::Dead)
            &&& after.steps == o.steps
        },
        force_death ==> finish_model(o, true, levels, time).1 == LifecycleStage::Dead
            && !finish_model(o, true, levels, time).0.alive,
{
}

/// Law: a dead or unborn organism is untouched by any run of steps.
pub proof fn law_dead_organism_does_not_step<T>(o: LifeModel<T>, events: Seq<StepEvent<T>>)
    requires
        !o.alive,
    ensures
        run_steps(o, events) == o,
    decreases events.len(),
{
    if events.len() > 0 {
        law_dead_organism_does_not_step(o, events.drop_last());
    }
}

/// Law: death is permanent and clean. After any run of steps, an organism
/// that is still alive was alive before and lived every step of the run;
/// one that was alive before and is not any more has handed on its
/// knowledge and is dead.
pub proof fn law_death_is_permanent<T>(o: LifeModel<T>, events: Seq<StepEvent<T>>)
    ensures
        run_steps(o, events).alive ==> o.alive && run_steps(o, events).steps == o.steps + events.len(),
        o.alive && !run_steps(o, events).alive ==> {
            &&& run_steps(o, events).lifecycle.knowledge_transferred
            &&& run_steps(o, events).lifecycle.stage == LifecycleStage::Dead
        },
        run_steps(o, events).steps <= o.steps + events.len(),
    decreases events.len(),
{
    if events.len() > 0 {
        let prev = run_steps(o, events.drop_last());
        law_death_is_permanent(o, events.drop_last());
        if !prev.alive {
            assert(run_steps(o, events) == prev);
        }
    }
}

} // verus!
