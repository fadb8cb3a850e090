//! Lifecycle of the agent: gestation, life, decline, sunset and death.

use vstd::prelude::*;

verus! {

/// Lifecycle stage of the agent.
#[derive(Debug, Clone, Copy, PartialEq, Eq, Structural)]
pub enum LifecycleStage {
    /// Agent is being spawned.
    Gestating,
    /// Agent is alive and operational.
    Alive,
    /// Agent's free energy is running low.
    Declining,
    /// Agent has entered the sunset protocol.
    Sunset,
    /// Agent is dead.
    Dead,
}

impl LifecycleStage {
    /// The human-readable name of a stage.
    pub open spec fn stage_name(self) -> Seq<char> {
        match self {
            LifecycleStage::Gestating => "Gestating"@,
            LifecycleStage::Alive => "Alive"@,
            LifecycleStage::Declining => "Declining"@,
            LifecycleStage::Sunset => "Sunset"@,
            LifecycleStage::Dead => "Dead"@,
        }
    }

    /// The name under which the stage is displayed.
    pub fn name(&self) -> (s: String)
        ensures
            s@ == self.stage_name(),
    {
        match self {
            LifecycleStage::Gestating => String::from_str("Gestating"),
            LifecycleStage::Alive => String::from_str("Alive"),
            LifecycleStage::Declining => String::from_str("Declining"),
            LifecycleStage::Sunset => String::from_str("Sunset"),
            LifecycleStage::Dead => String::from_str("Dead"),
        }
    }
}

/// Where the spent fraction of the free-energy budget stands against the
/// thresholds of the death condition.
#[derive(Debug, Clone, Copy, PartialEq, Eq, Structural)]
pub struct SpendLevels {
    /// The whole budget has been spent (fraction at least one).
    pub exhausted: bool,
    /// The fraction has reached the sunset threshold.
    pub past_sunset: bool,
    /// The fraction has reached the declining threshold.
    pub past_declining: bool,
}

impl SpendLevels {
    /// Levels of a budget that is spent completely.
    pub open spec fn spec_exhausted() -> SpendLevels {
        SpendLevels { exhausted: true, past_sunset: true, past_declining: true }
    }

    /// Levels of a budget that is spent completely.
    pub fn exhausted_budget() -> (l: SpendLevels)
        ensures
            l == SpendLevels::spec_exhausted(),
    {
        SpendLevels { exhausted: true, past_sunset: true, past_declining: true }
    }
}

/// The stage reached from `stage` under `levels`, and whether the sunset
/// protocol has been initiated afterwards. When death is irreversible, a
/// dead agent stays dead whatever the levels.
pub open spec fn next_stage(
    stage: LifecycleStage,
    sunset_initiated: bool,
    irreversible: bool,
    levels: SpendLevels,
) -> (LifecycleStage, bool) {
    if irreversible && stage == LifecycleStage::Dead {
        (LifecycleStage::Dead, sunset_initiated)
    } else if levels.exhausted {
        (LifecycleStage::Dead, sunset_initiated)
    } else if levels.past_sunset && !sunset_initiated {
        (LifecycleStage::Sunset, true)
    } else if levels.past_declining {
        (LifecycleStage::Declining, sunset_initiated)
    } else {
        (stage, sunset_initiated)
    }
}

/// The first time recorded for `stage` in a transition log.
pub open spec fn first_time_of<T>(log: Seq<(LifecycleStage, T)>, stage: LifecycleStage) -> Option<T>
    decreases log.len(),
{
    if log.len() == 0 {
        None
    } else if log[0].0 == stage {
        Some(log[0].1)
    } else {
        first_time_of(log.drop_first(), stage)
    }
}

/// Outcome of computing the colimit of the lifecycle (death).
#[derive(Debug, Clone, Copy, PartialEq, Eq, Structural)]
pub struct ColimitOutcome {
    /// Whether the colimit condition is met (death).
    pub is_colimit: bool,
    /// Whether knowledge was transferred before death.
    pub knowledge_transferred: bool,
    /// Lifecycle stage when the colimit was computed.
    pub stage: LifecycleStage,
}

/// Colimit sunset manager: the lifecycle state machine of one agent.
/// `T` is the type of the timestamps attached to stage transitions.
#[derive(Debug, Clone)]
pub struct SunsetManager<T> {
    /// Current lifecycle stage.
    pub stage: LifecycleStage,
    /// Whether sunset has been initiated.
    pub sunset_initiated: bool,
    /// Whether death is irreversible: a dead agent stays dead.
    pub irreversible: bool,
    /// Final message/state before death.
    pub final_state: Option<String>,
    /// Stage transitions with their timestamps, oldest first.
    pub transitions: Vec<(LifecycleStage, T)>,
    /// Whether knowledge has been transferred (for reproduction).
    pub knowledge_transferred: bool,
}

/// Mathematical model of a sunset manager.
pub struct SunsetModel<T> {
    pub stage: LifecycleStage,
    pub sunset_initiated: bool,
    pub irreversible: bool,
    pub final_state: Option<Seq<char>>,
    pub transitions: Seq<(LifecycleStage, T)>,
    pub knowledge_transferred: bool,
}

impl<T> View for SunsetManager<T> {
    type V = SunsetModel<T>;

    open spec fn view(&self) -> SunsetModel<T> {
        SunsetModel {
            stage: self.stage,
            sunset_initiated: self.sunset_initiated,
            irreversible: self.irreversible,
            final_state: match self.final_state {
                Some(s) => Some(s@),
                None => None,
            },
            transitions: self.transitions@,
            knowledge_transferred: self.knowledge_transferred,
        }
    }
}

/// The manager after an update with `levels` at `time`, and the stage it
/// reports: a change of stage is appended to the log.
pub open spec fn update_model<T>(m: SunsetModel<T>, levels: SpendLevels, time: T) -> (SunsetModel<T>, LifecycleStage) {
    let next = next_stage(m.stage, m.sunset_initiated, m.irreversible, levels);
    (
        SunsetModel {
            stage: next.0,
            sunset_initiated: next.1,
            transitions: if next.0 != m.stage {
                m.transitions.push((next.0, time))
            } else {
                m.transitions
            },
            ..m
        },
        next.0,
    )
}

/// The manager after a run of updates, `levels[i]` applied at `times[i]`.
pub open spec fn run_updates<T>(m: SunsetModel<T>, levels: Seq<SpendLevels>, times: Seq<T>) -> SunsetModel<T>
    recommends
        levels.len() == times.len(),
    decreases levels.len(),
{
    if levels.len() == 0 {
        m
    } else {
        update_model(run_updates(m, levels.drop_last(), times.drop_last()), levels.last(), times.last()).0
    }
}

/// Number of log entries for `stage`.
pub open spec fn count_stage<T>(log: Seq<(LifecycleStage, T)>, stage: LifecycleStage) -> nat
    decreases log.len(),
{
    if log.len() == 0 {
        0
    } else {
        count_stage(log.drop_last(), stage) + if log.last().0 == stage { 1nat } else { 0nat }
    }
}

/// Law: the sunset protocol is entered at most once. Over any run of
/// updates, the log gains at most one sunset entry, and none at all if the
/// protocol had already been initiated.
pub proof fn law_sunset_at_most_once<T>(m: SunsetModel<T>, levels: Seq<SpendLevels>, times: Seq<T>)
    requires
        levels.len() == times.len(),
    ensures
        count_stage(run_updates(m, levels, times).transitions, LifecycleStage::Sunset)
            <= count_stage(m.transitions, LifecycleStage::Sunset) + if m.sunset_initiated { 0nat } else { 1nat },
    decreases levels.len(),
{
    lemma_sunset_budget(m, levels, times);
}

proof fn lemma_sunset_budget<T>(m: SunsetModel<T>, levels: Seq<SpendLevels>, times: Seq<T>)
    requires
        levels.len() == times.len(),
    ensures
        count_stage(run_updates(m, levels, times).transitions, LifecycleStage::Sunset)
            + if run_updates(m, levels, times).sunset_initiated { 0nat } else { 1nat }
            <= count_stage(m.transitions, LifecycleStage::Sunset) + if m.sunset_initiated { 0nat } else { 1nat },
    decreases levels.len(),
{
    if levels.len() > 0 {
        let prev = run_updates(m, levels.drop_last(), times.drop_last());
        lemma_sunset_budget(m, levels.drop_last(), times.drop_last());
        let next = update_model(prev, levels.last(), times.last()).0;
        if next.transitions != prev.transitions {
            assert(next.transitions.drop_last() =~= prev.transitions);
        }
    }
}

/// Law: death is irreversible. When the manager says so, a dead agent stays
/// dead through any run of updates, with its log and sunset flag unchanged.
pub proof fn law_death_is_irreversible<T>(m: SunsetModel<T>, levels: Seq<SpendLevels>, times: Seq<T>)
    requires
        levels.len() == times.len(),
        m.irreversible,
        m.stage == LifecycleStage::Dead,
    ensures
        run_updates(m, levels, times) == m,
    decreases levels.len(),
{
    if levels.len() > 0 {
        law_death_is_irreversible(m, levels.drop_last(), times.drop_last());
    }
}

/// Law: how one update moves the lifecycle, rule by rule. An irreversible
/// dead agent stays dead; otherwise a spent budget kills; otherwise reaching
/// the sunset threshold for the first time starts the sunset protocol;
/// otherwise reaching the declining threshold means decline; otherwise the
/// stage stays. The log gains the new stage with its time exactly when the
/// stage changes, and nothing else about the manager changes.
pub proof fn law_update_rules<T>(m: SunsetModel<T>, levels: SpendLevels, time: T)
    ensures
        ({
            let (after, stage) = update_model(m, levels, time);
            &&& after.stage == stage
            &&& (m.irreversible && m.stage == LifecycleStage::Dead) ==> stage == LifecycleStage::Dead
                && after.sunset_initiated == m.sunset_initiated
            &&& !(m.irreversible && m.stage == LifecycleStage::Dead) ==> {
                &&& levels.exhausted ==> stage == LifecycleStage::Dead && after.sunset_initiated == m.sunset_initiated
                &&& (!levels.exhausted && levels.past_sunset && !m.sunset_initiated)
                    ==> stage == LifecycleStage::Sunset && after.sunset_initiated
                &&& (!levels.exhausted && !(levels.past_sunset && !m.sunset_initiated) && levels.past_declining)
                    ==> stage == LifecycleStage::Declining && after.sunset_initiated == m.sunset_initiated
                &&& (!levels.exhausted && !(levels.past_sunset && !m.sunset_initiated) && !levels.past_declining)
                    ==> stage == m.stage && after.sunset_initiated == m.sunset_initiated
            }
            &&& stage != m.stage ==> after.transitions == m.transitions.push((stage, time))
            &&& stage == m.stage ==> after.transitions == m.transitions
            &&& after.irreversible == m.irreversible
            &&& after.final_state == m.final_state
            &&& after.knowledge_transferred == m.knowledge_transferred
        }),
{
}

/// Law: the time found for a stage is that of the first log entry for that
/// stage; nothing is found exactly when no entry is for that stage.
pub proof fn law_first_time<T>(log: Seq<(LifecycleStage, T)>, stage: LifecycleStage)
    ensures
        first_time_of(log, stage) matches Some(x) ==> exists|i: int|
            0 <= i < log.len() && (#[trigger] log[i]).0 == stage && log[i].1 == x
                && forall|j: int| 0 <= j < i ==> log[j].0 != stage,
        first_time_of(log, stage) is None <==> forall|i: int| 0 <= i < log.len() ==> (#[trigger] log[i]).0 != stage,
    decreases log.len(),
{
    if log.len() > 0 {
        let rest = log.drop_first();
        law_first_time(rest, stage);
        assert forall|i: int| 0 <= i < rest.len() implies rest[i] == log[i + 1] by {}
        if log[0].0 != stage {
            if first_time_of(log, stage) is Some {
                let x = first_time_of(log, stage)->0;
                let i = choose|i: int|
                    0 <= i < rest.len() && (#[trigger] rest[i]).0 == stage && rest[i].1 == x
                        && forall|j: int| 0 <= j < i ==> rest[j].0 != stage;
                assert(log[i + 1] == rest[i]);
                assert forall|j: int| 0 <= j < i + 1 implies log[j].0 != stage by {
                    if j > 0 {
                        assert(log[j] == rest[j - 1]);
                    }
                }
            }
            if forall|i: int| 0 <= i < log.len() ==> (#[trigger] log[i]).0 != stage {
                assert forall|i: int| 0 <= i < rest.len() implies (#[trigger] rest[i]).0 != stage by {
                    assert(log[i + 1] == rest[i]);
                }
            }
            if forall|i: int| 0 <= i < rest.len() ==> (#[trigger] rest[i]).0 != stage {
                assert forall|i: int| 0 <= i < log.len() implies (#[trigger] log[i]).0 != stage by {
                    if i > 0 {
                        assert(log[i] == rest[i - 1]);
                    }
                }
            }
        } else {
            assert(log[0].0 == stage);
        }
    }
}

/// Law: a fully spent budget means death. Whatever the state, an update
/// whose levels say the budget is exhausted leaves the agent dead, and an
/// agent that stays exhausted stays dead without logging anything more.
pub proof fn law_exhaustion_is_death<T>(m: SunsetModel<T>, time: T, levels: SpendLevels, later: T)
    requires
        levels.exhausted,
    ensures
        update_model(m, levels, time).1 == LifecycleStage::Dead,
        update_model(update_model(m, levels, time).0, levels, later).0 == update_model(m, levels, time).0,
{
}

impl<T> SunsetManager<T> {
    /// Whether the transition log ends with the current stage.
    pub open spec fn log_matches_stage(&self) -> bool {
        self.transitions@.len() > 0 ==> self.transitions@.last().0 == self.stage
    }

    /// A manager for an agent that is still gestating.
    pub fn new() -> (m: Self)
        ensures
            m.stage == LifecycleStage::Gestating,
            !m.sunset_initiated,
            m.irreversible,
            m.final_state.is_none(),
            m.transitions@.len() == 0,
            !m.knowledge_transferred,
    {
        SunsetManager {
            stage: LifecycleStage::Gestating,
            sunset_initiated: false,
            irreversible: true,
            final_state: None,
            transitions: Vec::new(),
            knowledge_transferred: false,
        }
    }

    /// Transition to the alive stage at `time`.
    pub fn birth(&mut self, time: T)
        ensures
            final(self).stage == LifecycleStage::Alive,
            final(self).transitions@ == old(self).transitions@.push((LifecycleStage::Alive, time)),
            final(self).sunset_initiated == old(self).sunset_initiated,
            final(self).irreversible == old(self).irreversible,
            final(self).final_state == old(self).final_state,
            final(self).knowledge_transferred == old(self).knowledge_transferred,
            final(self).log_matches_stage(),
    {
        self.stage = LifecycleStage::Alive;
        self.transitions.push((LifecycleStage::Alive, time));
    }

    /// Update the lifecycle stage from the levels that the spent fraction of
    /// the budget has reached; a change of stage is logged at `time`.
    pub fn update(&mut self, levels: SpendLevels, time: T) -> (stage: LifecycleStage)
        ensures
            (final(self)@, stage) == update_model(old(self)@, levels, time),
            levels.exhausted ==> stage == LifecycleStage::Dead,
            old(self).irreversible && old(self).stage == LifecycleStage::Dead ==> {
                &&& stage == LifecycleStage::Dead
                &&& final(self)@ == old(self)@
            },
            old(self).log_matches_stage() ==> final(self).log_matches_stage(),
    {
        let new_stage = if self.irreversible && self.stage == LifecycleStage::Dead {
            LifecycleStage::Dead
        } else if levels.exhausted {
            LifecycleStage::Dead
        } else if levels.past_sunset && !self.sunset_initiated {
            self.sunset_initiated = true;
            LifecycleStage::Sunset
        } else if levels.past_declining {
            LifecycleStage::Declining
        } else {
            self.stage
        };
        if new_stage != self.stage {
            self.transitions.push((new_stage, time));
            self.stage = new_stage;
        }
        self.stage
    }

    /// Whether the agent should die.
    pub fn should_die(&self) -> (b: bool)
        ensures
            b == (self.stage == LifecycleStage::Dead),
    {
        self.stage == LifecycleStage::Dead
    }

    /// Whether the agent is declining or in sunset.
    pub fn in_sunset(&self) -> (b: bool)
        ensures
            b == (self.stage == LifecycleStage::Sunset || self.stage == LifecycleStage::Declining),
    {
        self.stage == LifecycleStage::Sunset || self.stage == LifecycleStage::Declining
    }

    /// Record the final state before death.
    pub fn set_final_state(&mut self, state: &str)
        ensures
            final(self).final_state is Some,
            final(self).final_state->0@ == state@,
            final(self).stage == old(self).stage,
            final(self).sunset_initiated == old(self).sunset_initiated,
            final(self).irreversible == old(self).irreversible,
            final(self).transitions@ == old(self).transitions@,
            final(self).knowledge_transferred == old(self).knowledge_transferred,
    {
        self.final_state = Some(String::from_str(state));
    }

    /// Mark knowledge as transferred (prerequisite for a clean death).
    pub fn transfer_knowledge(&mut self)
        ensures
            final(self).knowledge_transferred,
            final(self).stage == old(self).stage,
            final(self).sunset_initiated == old(self).sunset_initiated,
            final(self).irreversible == old(self).irreversible,
            final(self).final_state == old(self).final_state,
            final(self).transitions@ == old(self).transitions@,
    {
        self.knowledge_transferred = true;
    }

    /// Execute the colimit: `dead` says whether the cumulative Landauer cost
    /// has reached the free energy; if so the agent's stage becomes dead.
    pub fn compute_colimit(&mut self, dead: bool) -> (r: ColimitOutcome)
        ensures
            r == (ColimitOutcome {
                is_colimit: dead,
                knowledge_transferred: old(self).knowledge_transferred,
                stage: old(self).stage,
            }),
            final(self).stage == if dead { LifecycleStage::Dead } else { old(self).stage },
            final(self).sunset_initiated == old(self).sunset_initiated,
            final(self).irreversible == old(self).irreversible,
            final(self).final_state == old(self).final_state,
            final(self).transitions@ == old(self).transitions@,
            final(self).knowledge_transferred == old(self).knowledge_transferred,
    {
        let r = ColimitOutcome {
            is_colimit: dead,
            knowledge_transferred: self.knowledge_transferred,
            stage: self.stage,
        };
        if dead {
            self.stage = LifecycleStage::Dead;
        }
        r
    }

    /// Number of logged lifecycle transitions.
    pub fn num_transitions(&self) -> (n: usize)
        ensures
            n == self.transitions@.len(),
    {
        self.transitions.len()
    }
}

impl<T: Copy> SunsetManager<T> {
    /// The first time at which `stage` was entered, if it ever was.
    pub fn first_time(&self, stage: LifecycleStage) -> (t: Option<T>)
        ensures
            t == first_time_of(self.transitions@, stage),
    {
        let n = self.transitions.len();
        let mut i: usize = 0;
        assert(self.transitions@.subrange(0, n as int) =~= self.transitions@);
        while i < n
            invariant
                n == self.transitions@.len(),
                0 <= i <= n,
                first_time_of(self.transitions@, stage)
                    == first_time_of(self.transitions@.subrange(i as int, n as int), stage),
            decreases n - i,
        {
            let entry = self.transitions[i];
            proof {
                let rest = self.transitions@.subrange(i as int, n as int);
                assert(rest.drop_first() =~= self.transitions@.subrange(i + 1, n as int));
            }
            if entry.0 == stage {
                return Some(entry.1);
            }
            i = i + 1;
        }
        None
    }

    /// Birth time and death time, the first of each in the log; the lifespan
    /// is their difference.
    pub fn lifespan_bounds(&self) -> (r: (Option<T>, Option<T>))
        ensures
            r.0 == first_time_of(self.transitions@, LifecycleStage::Alive),
            r.1 == first_time_of(self.transitions@, LifecycleStage::Dead),
    {
        (self.first_time(LifecycleStage::Alive), self.first_time(LifecycleStage::Dead))
    }
}

} // verus!
