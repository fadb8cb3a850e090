//! Self-model: the agent represents its own theorem structure, a network of
//! named theorems with categories, dependencies and activity flags.

use vstd::prelude::*;

verus! {

/// A theorem in the agent's self-model.
#[derive(Debug, Clone)]
pub struct Theorem {
    /// Name of the theorem.
    pub name: String,
    /// Category (perception, action, learning, ...).
    pub category: String,
    /// Mathematical statement (informal).
    pub statement: String,
    /// Names of the theorems this one requires.
    pub dependencies: Vec<String>,
    /// Whether this theorem is currently active.
    pub active: bool,
}

/// Mathematical model of a theorem.
pub struct TheoremView {
    pub name: Seq<char>,
    pub category: Seq<char>,
    pub statement: Seq<char>,
    pub dependencies: Seq<Seq<char>>,
    pub active: bool,
}

impl View for Theorem {
    type V = TheoremView;

    open spec fn view(&self) -> TheoremView {
        TheoremView {
            name: self.name@,
            category: self.category@,
            statement: self.statement@,
            dependencies: self.dependencies.deep_view(),
            active: self.active,
        }
    }
}

/// The models of a sequence of theorems.
pub open spec fn theorem_views(ts: Seq<Theorem>) -> Seq<TheoremView> {
    Seq::new(ts.len(), |i: int| ts[i]@)
}

/// Number of active theorems.
pub open spec fn count_active(ts: Seq<TheoremView>) -> nat
    decreases ts.len(),
{
    if ts.len() == 0 {
        0
    } else {
        count_active(ts.drop_last()) + if ts.last().active { 1nat } else { 0nat }
    }
}

/// `i` is the first position of a theorem called `name`.
pub open spec fn first_named(ts: Seq<TheoremView>, name: Seq<char>, i: int) -> bool {
    &&& 0 <= i < ts.len()
    &&& ts[i].name == name
    &&& forall|j: int| 0 <= j < i ==> ts[j].name != name
}

/// The theorem called `name`, if there is one (the first such).
pub open spec fn lookup(ts: Seq<TheoremView>, name: Seq<char>) -> Option<TheoremView> {
    if exists|i: int| first_named(ts, name, i) {
        Some(ts[choose|i: int| first_named(ts, name, i)])
    } else {
        None
    }
}

/// No two theorems share a name.
pub open spec fn names_distinct(ts: Seq<TheoremView>) -> bool {
    forall|i: int, j: int| 0 <= i < ts.len() && 0 <= j < ts.len() && i != j ==> ts[i].name != ts[j].name
}

/// The theorems with `name`'s first occurrence marked inactive.
pub open spec fn deactivated(ts: Seq<TheoremView>, name: Seq<char>) -> Seq<TheoremView> {
    if exists|i: int| first_named(ts, name, i) {
        let i = choose|i: int| first_named(ts, name, i);
        ts.update(i, TheoremView { active: false, ..ts[i] })
    } else {
        ts
    }
}

/// The theorems of category `category`, in order.
pub open spec fn of_category(ts: Seq<TheoremView>, category: Seq<char>) -> Seq<TheoremView>
    decreases ts.len(),
{
    if ts.len() == 0 {
        seq![]
    } else if ts.last().category == category {
        of_category(ts.drop_last(), category).push(ts.last())
    } else {
        of_category(ts.drop_last(), category)
    }
}

/// The message, if any, about `owner`'s dependency on `dep` within `ts`:
/// the dependency is missing, or it is inactive.
pub open spec fn dependency_issue(ts: Seq<TheoremView>, owner: Seq<char>, dep: Seq<char>) -> Seq<Seq<char>> {
    match lookup(ts, dep) {
        Some(t) => if t.active {
            seq![]
        } else {
            seq![owner + " depends on inactive "@ + dep]
        },
        None => seq![owner + " depends on missing "@ + dep],
    }
}

/// The messages about the dependencies `deps` of `owner`, in order.
pub open spec fn issues_of_deps(ts: Seq<TheoremView>, owner: Seq<char>, deps: Seq<Seq<char>>) -> Seq<Seq<char>>
    decreases deps.len(),
{
    if deps.len() == 0 {
        seq![]
    } else {
        issues_of_deps(ts, owner, deps.drop_last()) + dependency_issue(ts, owner, deps.last())
    }
}

/// The messages about every unsatisfied dependency of the theorems
/// `owners`, looked up in `ts`, in order.
pub open spec fn dependency_issues(ts: Seq<TheoremView>, owners: Seq<TheoremView>) -> Seq<Seq<char>>
    decreases owners.len(),
{
    if owners.len() == 0 {
        seq![]
    } else {
        dependency_issues(ts, owners.drop_last()) + issues_of_deps(ts, owners.last().name, owners.last().dependencies)
    }
}

/// The dependency `dep` names an active theorem of `ts`.
pub open spec fn dependency_satisfied(ts: Seq<TheoremView>, dep: Seq<char>) -> bool {
    lookup(ts, dep) matches Some(t) && t.active
}

/// Some dependency of some theorem of `owners` has `msg` as its report.
pub open spec fn reported_by_some_dependency(ts: Seq<TheoremView>, owners: Seq<TheoremView>, msg: Seq<char>) -> bool {
    exists|o: int, q: int|
        #![trigger owners[o].dependencies[q]]
        0 <= o < owners.len() && 0 <= q < owners[o].dependencies.len()
            && dependency_issue(ts, owners[o].name, owners[o].dependencies[q]).contains(msg)
}

/// Every dependency of every theorem of `owners` is satisfied in `ts`.
pub open spec fn all_dependencies_satisfied(ts: Seq<TheoremView>, owners: Seq<TheoremView>) -> bool {
    forall|o: int, q: int|
        #![trigger owners[o].dependencies[q]]
        0 <= o < owners.len() && 0 <= q < owners[o].dependencies.len()
            ==> dependency_satisfied(ts, owners[o].dependencies[q])
}

proof fn lemma_concat_contains<A>(a: Seq<A>, b: Seq<A>, x: A)
    ensures
        (a + b).contains(x) <==> (a.contains(x) || b.contains(x)),
{
    if (a + b).contains(x) {
        let k = choose|k: int| 0 <= k < (a + b).len() && (a + b)[k] == x;
        if k < a.len() {
            assert(a[k] == x);
        } else {
            assert(b[k - a.len()] == x);
        }
    }
    if a.contains(x) {
        let k = choose|k: int| 0 <= k < a.len() && a[k] == x;
        assert((a + b)[k] == x);
    }
    if b.contains(x) {
        let k = choose|k: int| 0 <= k < b.len() && b[k] == x;
        assert((a + b)[a.len() + k] == x);
    }
}

proof fn lemma_issue_empty_iff_satisfied(ts: Seq<TheoremView>, owner: Seq<char>, dep: Seq<char>)
    ensures
        dependency_issue(ts, owner, dep).len() == 0 <==> dependency_satisfied(ts, dep),
{
}

proof fn lemma_deps_report(ts: Seq<TheoremView>, owner: Seq<char>, deps: Seq<Seq<char>>, msg: Seq<char>)
    ensures
        issues_of_deps(ts, owner, deps).contains(msg) <==> exists|q: int|
            0 <= q < deps.len() && #[trigger] dependency_issue(ts, owner, deps[q]).contains(msg),
        issues_of_deps(ts, owner, deps).len() == 0 <==> forall|q: int|
            0 <= q < deps.len() ==> #[trigger] dependency_satisfied(ts, deps[q]),
    decreases deps.len(),
{
    if deps.len() > 0 {
        let init = deps.drop_last();
        let rest = issues_of_deps(ts, owner, init);
        let last = dependency_issue(ts, owner, deps.last());
        lemma_deps_report(ts, owner, init, msg);
        lemma_concat_contains(rest, last, msg);
        lemma_issue_empty_iff_satisfied(ts, owner, deps.last());
        assert forall|q: int| 0 <= q < init.len() implies init[q] == deps[q] by {}
        if exists|q: int| 0 <= q < deps.len() && #[trigger] dependency_issue(ts, owner, deps[q]).contains(msg) {
            let q = choose|q: int| 0 <= q < deps.len() && #[trigger] dependency_issue(ts, owner, deps[q]).contains(msg);
            if q < init.len() {
                assert(dependency_issue(ts, owner, init[q]).contains(msg));
            }
        }
        if forall|q: int| 0 <= q < init.len() ==> #[trigger] dependency_satisfied(ts, init[q]) {
            if dependency_satisfied(ts, deps.last()) {
                assert forall|q: int| 0 <= q < deps.len() implies #[trigger] dependency_satisfied(ts, deps[q]) by {
                    if q < init.len() {
                        assert(dependency_satisfied(ts, init[q]));
                    }
                }
            }
        }
        if forall|q: int| 0 <= q < deps.len() ==> #[trigger] dependency_satisfied(ts, deps[q]) {
            assert forall|q: int| 0 <= q < init.len() implies #[trigger] dependency_satisfied(ts, init[q]) by {
                assert(dependency_satisfied(ts, deps[q]));
            }
            assert(dependency_satisfied(ts, deps[deps.len() - 1]));
        }
    }
}

proof fn lemma_owners_report(ts: Seq<TheoremView>, owners: Seq<TheoremView>, msg: Seq<char>)
    ensures
        dependency_issues(ts, owners).contains(msg) <==> reported_by_some_dependency(ts, owners, msg),
        dependency_issues(ts, owners).len() == 0 <==> all_dependencies_satisfied(ts, owners),
    decreases owners.len(),
{
    if owners.len() > 0 {
        let init = owners.drop_last();
        let t = owners.last();
        let o_last = owners.len() - 1;
        let rest = dependency_issues(ts, init);
        let last = issues_of_deps(ts, t.name, t.dependencies);
        lemma_owners_report(ts, init, msg);
        lemma_deps_report(ts, t.name, t.dependencies, msg);
        lemma_concat_contains(rest, last, msg);
        assert forall|o: int| 0 <= o < init.len() implies init[o] == owners[o] by {}
        if reported_by_some_dependency(ts, owners, msg) {
            let (o, q) = choose|o: int, q: int|
                #![trigger owners[o].dependencies[q]]
                0 <= o < owners.len() && 0 <= q < owners[o].dependencies.len()
                    && dependency_issue(ts, owners[o].name, owners[o].dependencies[q]).contains(msg);
            if o < init.len() {
                assert(init[o].dependencies[q] == owners[o].dependencies[q]);
                assert(reported_by_some_dependency(ts, init, msg));
            } else {
                assert(dependency_issue(ts, t.name, t.dependencies[q]).contains(msg));
            }
        }
        if reported_by_some_dependency(ts, init, msg) {
            let (o, q) = choose|o: int, q: int|
                #![trigger init[o].dependencies[q]]
                0 <= o < init.len() && 0 <= q < init[o].dependencies.len()
                    && dependency_issue(ts, init[o].name, init[o].dependencies[q]).contains(msg);
            assert(owners[o].dependencies[q] == init[o].dependencies[q]);
        }
        if last.contains(msg) {
            let q = choose|q: int| 0 <= q < t.dependencies.len() && #[trigger] dependency_issue(ts, t.name, t.dependencies[q]).contains(msg);
            assert(owners[o_last].dependencies[q] == t.dependencies[q]);
        }
        if all_dependencies_satisfied(ts, owners) {
            assert forall|o: int, q: int|
                #![trigger init[o].dependencies[q]]
                0 <= o < init.len() && 0 <= q < init[o].dependencies.len()
                    implies dependency_satisfied(ts, init[o].dependencies[q]) by {
                assert(owners[o].dependencies[q] == init[o].dependencies[q]);
            }
            assert forall|q: int| 0 <= q < t.dependencies.len() implies #[trigger] dependency_satisfied(ts, t.dependencies[q]) by {
                assert(owners[o_last].dependencies[q] == t.dependencies[q]);
            }
        }
        if all_dependencies_satisfied(ts, init) && last.len() == 0 {
            assert forall|o: int, q: int|
                #![trigger owners[o].dependencies[q]]
                0 <= o < owners.len() && 0 <= q < owners[o].dependencies.len()
                    implies dependency_satisfied(ts, owners[o].dependencies[q]) by {
                if o < init.len() {
                    assert(init[o].dependencies[q] == owners[o].dependencies[q]);
                } else {
                    assert(dependency_satisfied(ts, t.dependencies[q]));
                }
            }
        }
    }
}

/// Law: the dependency check reports exactly the unsatisfied
/// dependencies. A message is reported exactly when some dependency of
/// some theorem is missing or inactive and that is its message (the
/// report lists one message per such dependency, in order); the report is
/// empty exactly when every dependency names an active theorem.
pub proof fn law_dependency_report(ts: Seq<TheoremView>, msg: Seq<char>)
    ensures
        dependency_issues(ts, ts).contains(msg) <==> reported_by_some_dependency(ts, ts, msg),
        dependency_issues(ts, ts).len() == 0 <==> all_dependencies_satisfied(ts, ts),
{
    lemma_owners_report(ts, ts, msg);
}

pub proof fn lemma_first_named_unique(ts: Seq<TheoremView>, name: Seq<char>, i: int, k: int)
    requires
        first_named(ts, name, i),
        first_named(ts, name, k),
    ensures
        i == k,
{
    if i < k {
        assert(ts[i].name != name);
    } else if k < i {
        assert(ts[k].name != name);
    }
}

/// Deactivation changes nothing but the activity of the first theorem
/// called `name`.
pub proof fn lemma_deactivated_shape(ts: Seq<TheoremView>, name: Seq<char>)
    ensures
        deactivated(ts, name).len() == ts.len(),
        forall|i: int| 0 <= i < ts.len() ==> {
            &&& (#[trigger] deactivated(ts, name)[i]).name == ts[i].name
            &&& deactivated(ts, name)[i].category == ts[i].category
            &&& deactivated(ts, name)[i].statement == ts[i].statement
            &&& deactivated(ts, name)[i].dependencies == ts[i].dependencies
            &&& deactivated(ts, name)[i].active == (ts[i].active && !first_named(ts, name, i))
        },
{
    assert forall|i: int| 0 <= i < ts.len() implies (#[trigger] deactivated(ts, name)[i]).active == (ts[i].active && !first_named(ts, name, i)) by {
        if exists|k: int| first_named(ts, name, k) {
            let k = choose|k: int| first_named(ts, name, k);
            if first_named(ts, name, i) {
                lemma_first_named_unique(ts, name, i, k);
            }
        }
    }
}

/// Law: deactivating an active theorem lowers the number of active
/// theorems by exactly one; deactivating an unknown or inactive one leaves
/// it unchanged.
pub proof fn law_deactivation_count(ts: Seq<TheoremView>, name: Seq<char>)
    ensures
        (lookup(ts, name) matches Some(t) && t.active)
            ==> count_active(deactivated(ts, name)) + 1 == count_active(ts),
        !(lookup(ts, name) matches Some(t) && t.active)
            ==> count_active(deactivated(ts, name)) == count_active(ts),
{
    if exists|i: int| first_named(ts, name, i) {
        let i = choose|i: int| first_named(ts, name, i);
        lemma_count_active_update(ts, i, TheoremView { active: false, ..ts[i] });
    }
}

/// The message about `owner`'s dependency on `dep`, where it is inactive.
pub open spec fn inactive_message(owner: Seq<char>, dep: Seq<char>) -> Seq<char> {
    owner + " depends on inactive "@ + dep
}

proof fn lemma_issue_in_deps(ts: Seq<TheoremView>, owner: Seq<char>, deps: Seq<Seq<char>>, q: int, msg: Seq<char>)
    requires
        0 <= q < deps.len(),
        dependency_issue(ts, owner, deps[q]) == seq![msg],
    ensures
        issues_of_deps(ts, owner, deps).contains(msg),
    decreases deps.len(),
{
    let rest = issues_of_deps(ts, owner, deps.drop_last());
    let last = dependency_issue(ts, owner, deps.last());
    if q == deps.len() - 1 {
        assert((rest + last)[rest.len() as int] == msg);
    } else {
        lemma_issue_in_deps(ts, owner, deps.drop_last(), q, msg);
        let k = choose|k: int| 0 <= k < rest.len() && rest[k] == msg;
        assert((rest + last)[k] == msg);
    }
}

proof fn lemma_issue_in_all(ts: Seq<TheoremView>, owners: Seq<TheoremView>, o: int, q: int, msg: Seq<char>)
    requires
        0 <= o < owners.len(),
        0 <= q < owners[o].dependencies.len(),
        dependency_issue(ts, owners[o].name, owners[o].dependencies[q]) == seq![msg],
    ensures
        dependency_issues(ts, owners).contains(msg),
    decreases owners.len(),
{
    let rest = dependency_issues(ts, owners.drop_last());
    let last = issues_of_deps(ts, owners.last().name, owners.last().dependencies);
    if o == owners.len() - 1 {
        lemma_issue_in_deps(ts, owners[o].name, owners[o].dependencies, q, msg);
        let k = choose|k: int| 0 <= k < last.len() && last[k] == msg;
        assert((rest + last)[rest.len() + k] == msg);
    } else {
        lemma_issue_in_all(ts, owners.drop_last(), o, q, msg);
        let k = choose|k: int| 0 <= k < rest.len() && rest[k] == msg;
        assert((rest + last)[k] == msg);
    }
}

/// Law: once a theorem that another theorem depends on is deactivated, the
/// dependency check reports that dependency as inactive.
pub proof fn law_deactivation_breaks_dependents(ts: Seq<TheoremView>, name: Seq<char>, owner: int, q: int)
    requires
        exists|i: int| 0 <= i < ts.len() && ts[i].name == name,
        0 <= owner < ts.len(),
        0 <= q < ts[owner].dependencies.len(),
        ts[owner].dependencies[q] == name,
    ensures
        dependency_issues(deactivated(ts, name), deactivated(ts, name)).contains(
            inactive_message(ts[owner].name, name),
        ),
{
    let after = deactivated(ts, name);
    lemma_deactivated_shape(ts, name);
    let w = choose|i: int| 0 <= i < ts.len() && ts[i].name == name;
    let f = lemma_first_named_exists(ts, name, w);
    assert(first_named(after, name, f)) by {
        assert forall|j: int| 0 <= j < f implies after[j].name != name by {
            assert(after[j].name == ts[j].name);
        }
    }
    let c = choose|c: int| first_named(after, name, c);
    lemma_first_named_unique(after, name, f, c);
    assert(!after[f].active);
    assert(after[owner].dependencies == ts[owner].dependencies);
    lemma_issue_in_all(after, after, owner, q, inactive_message(ts[owner].name, name));
}

/// Some theorem called `name` at `w` means there is a first one.
pub proof fn lemma_first_named_exists(ts: Seq<TheoremView>, name: Seq<char>, w: int) -> (f: int)
    requires
        0 <= w < ts.len(),
        ts[w].name == name,
    ensures
        first_named(ts, name, f),
        f <= w,
    decreases w,
{
    if exists|j: int| 0 <= j < w && ts[j].name == name {
        let j = choose|j: int| 0 <= j < w && ts[j].name == name;
        lemma_first_named_exists(ts, name, j)
    } else {
        w
    }
}

proof fn lemma_count_active_bound(ts: Seq<TheoremView>)
    ensures
        count_active(ts) <= ts.len(),
    decreases ts.len(),
{
    if ts.len() > 0 {
        lemma_count_active_bound(ts.drop_last());
    }
}

/// Changing one theorem's activity changes the count by the difference.
proof fn lemma_count_active_update(ts: Seq<TheoremView>, i: int, t: TheoremView)
    requires
        0 <= i < ts.len(),
    ensures
        count_active(ts.update(i, t)) + (if ts[i].active { 1int } else { 0int })
            == count_active(ts) + (if t.active { 1int } else { 0int }),
    decreases ts.len(),
{
    let u = ts.update(i, t);
    if i == ts.len() - 1 {
        assert(u.drop_last() =~= ts.drop_last());
    } else {
        assert(u.drop_last() =~= ts.drop_last().update(i, t));
        lemma_count_active_update(ts.drop_last(), i, t);
    }
}

/// The theorems of a fresh self-model, in definition order, all active.
pub open spec fn theorem_table() -> Seq<TheoremView> {
    seq![
        TheoremView {
            name: "Kalman-Hodge"@,
            category: "perception"@,
            statement: "Kalman filter = Hodge decomposition of observation stream"@,
            dependencies: seq![],
            active: true,
        },
        TheoremView {
            name: "Spectral Perception"@,
            category: "perception"@,
            statement: "Observations decompose into exact, co-exact, and harmonic components"@,
            dependencies: seq!["Kalman-Hodge"@],
            active: true,
        },
        TheoremView {
            name: "Obs-Ctrl Adjunction"@,
            category: "action"@,
            statement: "Observation is left adjoint to Control: Obs ⊣ Ctrl"@,
            dependencies: seq!["Kalman-Hodge"@],
            active: true,
        },
        TheoremView {
            name: "LQR Pushforward"@,
            category: "action"@,
            statement: "Optimal control is the pushforward through the Obs-Ctrl adjunction"@,
            dependencies: seq!["Obs-Ctrl Adjunction"@],
            active: true,
        },
        TheoremView {
            name: "Fisher-Rao Geodesic"@,
            category: "learning"@,
            statement: "Learning follows geodesics on the Fisher information manifold"@,
            dependencies: seq!["Kalman-Hodge"@],
            active: true,
        },
        TheoremView {
            name: "Natural Gradient"@,
            category: "learning"@,
            statement: "F^{-1}∇L is the natural gradient on the belief manifold"@,
            dependencies: seq!["Fisher-Rao Geodesic"@],
            active: true,
        },
        TheoremView {
            name: "Noether Conservation"@,
            category: "conservation"@,
            statement: "Every continuous symmetry yields a conserved quantity"@,
            dependencies: seq!["LQR Pushforward"@],
            active: true,
        },
        TheoremView {
            name: "CALM Merge"@,
            category: "conservation"@,
            statement: "Fleet merge preserves conserved quantities via precision-weighted averaging"@,
            dependencies: seq!["Noether Conservation"@],
            active: true,
        },
        TheoremView {
            name: "Landauer Cost"@,
            category: "thermodynamics"@,
            statement: "Information erasure costs kT ln(2) per bit"@,
            dependencies: seq!["Natural Gradient"@],
            active: true,
        },
        TheoremView {
            name: "Varadhan Rate"@,
            category: "thermodynamics"@,
            statement: "Large deviation rate function gives thermodynamic cost of transitions"@,
            dependencies: seq!["Landauer Cost"@],
            active: true,
        },
        TheoremView {
            name: "H¹ Holonomy"@,
            category: "delusion"@,
            statement: "First cohomology detects global inconsistencies in belief structure"@,
            dependencies: seq!["Fisher-Rao Geodesic"@],
            active: true,
        },
        TheoremView {
            name: "Colimit Death"@,
            category: "lifecycle"@,
            statement: "Agent dies when Landauer cost = initial free energy (colimit of lifecycle)"@,
            dependencies: seq!["Landauer Cost"@],
            active: true,
        },
        TheoremView {
            name: "Pullback Birth"@,
            category: "lifecycle"@,
            statement: "Agent reproduces via pullback of parent knowledge when H¹=0"@,
            dependencies: seq!["H¹ Holonomy"@, "Noether Conservation"@],
            active: true,
        },
        TheoremView {
            name: "Conservation Law"@,
            category: "meta"@,
            statement: "Landauer + free_energy + H¹_risk ≈ constant across lifecycle"@,
            dependencies: seq!["Landauer Cost"@, "H¹ Holonomy"@],
            active: true,
        },
    ]
}

/// The theorems of a fresh self-model have distinct names.
pub proof fn lemma_table_names_distinct()
    ensures
        names_distinct(theorem_table()),
{
    let tab = theorem_table();
    assert forall|i: int, j: int| 0 <= i < tab.len() && 0 <= j < tab.len() && i != j implies tab[i].name != tab[j].name by {
        reveal_strlit("Kalman-Hodge");
        reveal_strlit("Spectral Perception");
        reveal_strlit("Obs-Ctrl Adjunction");
        reveal_strlit("LQR Pushforward");
        reveal_strlit("Fisher-Rao Geodesic");
        reveal_strlit("Natural Gradient");
        reveal_strlit("Noether Conservation");
        reveal_strlit("CALM Merge");
        reveal_strlit("Landauer Cost");
        reveal_strlit("Varadhan Rate");
        reveal_strlit("H¹ Holonomy");
        reveal_strlit("Colimit Death");
        reveal_strlit("Pullback Birth");
        reveal_strlit("Conservation Law");
        if tab[i].name == tab[j].name {
            assert(tab[i].name.len() == tab[j].name.len());
            assert(tab[i].name[0] == tab[j].name[0]);
            assert(tab[i].name[1] == tab[j].name[1]);
        }
    }
}

/// Law: the fresh self-model (the table that `new` and `offspring` build)
/// is the network of fourteen theorems, in this order, each with this
/// category, statement and exactly these dependencies, all active.
pub proof fn law_fresh_theorems()
    ensures
        ({
            let t = theorem_table();
            &&& t.len() == 14
            &&& forall|i: int| 0 <= i < 14 ==> (#[trigger] t[i]).active
        }),
        theorem_table()[0].name == "Kalman-Hodge"@ && theorem_table()[0].category == "perception"@ && theorem_table()[0].dependencies.len() == 0,
        theorem_table()[0].statement == "Kalman filter = Hodge decomposition of observation stream"@,
        theorem_table()[1].name == "Spectral Perception"@ && theorem_table()[1].category == "perception"@ && theorem_table()[1].dependencies == seq!["Kalman-Hodge"@],
        theorem_table()[1].statement == "Observations decompose into exact, co-exact, and harmonic components"@,
        theorem_table()[2].name == "Obs-Ctrl Adjunction"@ && theorem_table()[2].category == "action"@ && theorem_table()[2].dependencies == seq!["Kalman-Hodge"@],
        theorem_table()[2].statement == "Observation is left adjoint to Control: Obs ⊣ Ctrl"@,
        theorem_table()[3].name == "LQR Pushforward"@ && theorem_table()[3].category == "action"@ && theorem_table()[3].dependencies == seq!["Obs-Ctrl Adjunction"@],
        theorem_table()[3].statement == "Optimal control is the pushforward through the Obs-Ctrl adjunction"@,
        theorem_table()[4].name == "Fisher-Rao Geodesic"@ && theorem_table()[4].category == "learning"@ && theorem_table()[4].dependencies == seq!["Kalman-Hodge"@],
        theorem_table()[4].statement == "Learning follows geodesics on the Fisher information manifold"@,
        theorem_table()[5].name == "Natural Gradient"@ && theorem_table()[5].category == "learning"@ && theorem_table()[5].dependencies == seq!["Fisher-Rao Geodesic"@],
        theorem_table()[5].statement == "F^{-1}∇L is the natural gradient on the belief manifold"@,
        theorem_table()[6].name == "Noether Conservation"@ && theorem_table()[6].category == "conservation"@ && theorem_table()[6].dependencies == seq!["LQR Pushforward"@],
        theorem_table()[6].statement == "Every continuous symmetry yields a conserved quantity"@,
        theorem_table()[7].name == "CALM Merge"@ && theorem_table()[7].category == "conservation"@ && theorem_table()[7].dependencies == seq!["Noether Conservation"@],
        theorem_table()[7].statement == "Fleet merge preserves conserved quantities via precision-weighted averaging"@,
        theorem_table()[8].name == "Landauer Cost"@ && theorem_table()[8].category == "thermodynamics"@ && theorem_table()[8].dependencies == seq!["Natural Gradient"@],
        theorem_table()[8].statement == "Information erasure costs kT ln(2) per bit"@,
        theorem_table()[9].name == "Varadhan Rate"@ && theorem_table()[9].category == "thermodynamics"@ && theorem_table()[9].dependencies == seq!["Landauer Cost"@],
        theorem_table()[9].statement == "Large deviation rate function gives thermodynamic cost of transitions"@,
        theorem_table()[10].name == "H¹ Holonomy"@ && theorem_table()[10].category == "delusion"@ && theorem_table()[10].dependencies == seq!["Fisher-Rao Geodesic"@],
        theorem_table()[10].statement == "First cohomology detects global inconsistencies in belief structure"@,
        theorem_table()[11].name == "Colimit Death"@ && theorem_table()[11].category == "lifecycle"@ && theorem_table()[11].dependencies == seq!["Landauer Cost"@],
        theorem_table()[11].statement == "Agent dies when Landauer cost = initial free energy (colimit of lifecycle)"@,
        theorem_table()[12].name == "Pullback Birth"@ && theorem_table()[12].category == "lifecycle"@ && theorem_table()[12].dependencies == seq!["H¹ Holonomy"@, "Noether Conservation"@],
        theorem_table()[12].statement == "Agent reproduces via pullback of parent knowledge when H¹=0"@,
        theorem_table()[13].name == "Conservation Law"@ && theorem_table()[13].category == "meta"@ && theorem_table()[13].dependencies == seq!["Landauer Cost"@, "H¹ Holonomy"@],
        theorem_table()[13].statement == "Landauer + free_energy + H¹_risk ≈ constant across lifecycle"@,
{
}

/// Law: the theorems of a category are exactly the theorems whose
/// category is the one asked for, in order, whether active or not.
pub proof fn law_category_is_filter(ts: Seq<TheoremView>, category: Seq<char>)
    ensures
        of_category(ts, category) == ts.filter(|t: TheoremView| t.category == category),
        forall|i: int| 0 <= i < of_category(ts, category).len()
            ==> (#[trigger] of_category(ts, category)[i]).category == category,
        of_category(ts, category).len() <= ts.len(),
    decreases ts.len(),
{
    reveal(Seq::filter);
    if ts.len() > 0 {
        law_category_is_filter(ts.drop_last(), category);
    }
}

/// An active theorem built from its parts.
fn make_theorem(name: &str, category: &str, statement: &str, deps: Vec<&str>) -> (t: Theorem)
    ensures
        t@ == (TheoremView {
            name: name@,
            category: category@,
            statement: statement@,
            dependencies: Seq::new(deps@.len(), |i: int| deps@[i]@),
            active: true,
        }),
{
    let mut dependencies: Vec<String> = Vec::new();
    let n = deps.len();
    let mut i: usize = 0;
    while i < n
        invariant
            n == deps@.len(),
            0 <= i <= n,
            dependencies@.len() == i,
            forall|j: int| 0 <= j < i ==> dependencies@[j]@ == deps@[j]@,
        decreases n - i,
    {
        dependencies.push(String::from_str(deps[i]));
        i = i + 1;
    }
    let t = Theorem {
        name: String::from_str(name),
        category: String::from_str(category),
        statement: String::from_str(statement),
        dependencies,
        active: true,
    };
    assert(t.dependencies.deep_view() =~= Seq::new(deps@.len(), |i: int| deps@[i]@));
    t
}

/// The fourteen theorems of a fresh self-model.
fn initial_theorems() -> (ts: Vec<Theorem>)
    ensures
        theorem_views(ts@) =~= theorem_table(),
{
    let mut theorems: Vec<Theorem> = Vec::new();
        theorems.push(make_theorem(
            "Kalman-Hodge",
            "perception",
            "Kalman filter = Hodge decomposition of observation stream",
            vec![],
        ));
        theorems.push(make_theorem(
            "Spectral Perception",
            "perception",
            "Observations decompose into exact, co-exact, and harmonic components",
            vec!["Kalman-Hodge"],
        ));
        theorems.push(make_theorem(
            "Obs-Ctrl Adjunction",
            "action",
            "Observation is left adjoint to Control: Obs ⊣ Ctrl",
            vec!["Kalman-Hodge"],
        ));
        theorems.push(make_theorem(
            "LQR Pushforward",
            "action",
            "Optimal control is the pushforward through the Obs-Ctrl adjunction",
            vec!["Obs-Ctrl Adjunction"],
        ));
        theorems.push(make_theorem(
            "Fisher-Rao Geodesic",
            "learning",
            "Learning follows geodesics on the Fisher information manifold",
            vec!["Kalman-Hodge"],
        ));
        theorems.push(make_theorem(
            "Natural Gradient",
            "learning",
            "F^{-1}∇L is the natural gradient on the belief manifold",
            vec!["Fisher-Rao Geodesic"],
        ));
        theorems.push(make_theorem(
            "Noether Conservation",
            "conservation",
            "Every continuous symmetry yields a conserved quantity",
            vec!["LQR Pushforward"],
        ));
        theorems.push(make_theorem(
            "CALM Merge",
            "conservation",
            "Fleet merge preserves conserved quantities via precision-weighted averaging",
            vec!["Noether Conservation"],
        ));
        theorems.push(make_theorem(
            "Landauer Cost",
            "thermodynamics",
            "Information erasure costs kT ln(2) per bit",
            vec!["Natural Gradient"],
        ));
        theorems.push(make_theorem(
            "Varadhan Rate",
            "thermodynamics",
            "Large deviation rate function gives thermodynamic cost of transitions",
            vec!["Landauer Cost"],
        ));
        theorems.push(make_theorem(
            "H¹ Holonomy",
            "delusion",
            "First cohomology detects global inconsistencies in belief structure",
            vec!["Fisher-Rao Geodesic"],
        ));
        theorems.push(make_theorem(
            "Colimit Death",
            "lifecycle",
            "Agent dies when Landauer cost = initial free energy (colimit of lifecycle)",
            vec!["Landauer Cost"],
        ));
        theorems.push(make_theorem(
            "Pullback Birth",
            "lifecycle",
            "Agent reproduces via pullback of parent knowledge when H¹=0",
            vec!["H¹ Holonomy", "Noether Conservation"],
        ));
        theorems.push(make_theorem(
            "Conservation Law",
            "meta",
            "Landauer + free_energy + H¹_risk ≈ constant across lifecycle",
            vec!["Landauer Cost", "H¹ Holonomy"],
        ));
    proof {
        let vs = theorem_views(theorems@);
        let tab = theorem_table();
        assert(vs.len() == tab.len());
        assert forall|i: int| 0 <= i < vs.len() implies vs[i] == tab[i] by {
            assert(vs[i].dependencies =~= tab[i].dependencies);
        }
    }
    theorems
}

/// A copy of a list of strings.
fn copy_strings(v: &Vec<String>) -> (r: Vec<String>)
    ensures
        r.deep_view() == v.deep_view(),
{
    let n = v.len();
    let mut r: Vec<String> = Vec::new();
    let mut i: usize = 0;
    while i < n
        invariant
            n == v@.len(),
            0 <= i <= n,
            r@.len() == i,
            forall|k: int| 0 <= k < i ==> r@[k]@ == v@[k]@,
        decreases n - i,
    {
        r.push(v[i].clone());
        i = i + 1;
    }
    assert(r.deep_view() =~= v.deep_view());
    r
}

/// The agent's self-model: its theorem network and lineage.
#[derive(Debug, Clone)]
pub struct SelfModel {
    /// All theorems the agent embodies, in definition order.
    pub theorems: Vec<Theorem>,
    /// Number of active theorems.
    pub active_count: usize,
    /// Generation (for reproductive tracking).
    pub generation: u64,
    /// Parent ID (for reproductive tracking).
    pub parent_id: Option<String>,
    /// Unique agent ID.
    pub agent_id: String,
}

impl SelfModel {
    /// A complete self-model for agent `agent_id`: the fourteen theorems,
    /// all active, generation zero and no parent.
    pub fn new(agent_id: &str) -> (m: Self)
        ensures
            m.theorem_models() == theorem_table(),
            m.wf(),
            m.active_count == 14,
            m.active_count == count_active(m.theorem_models()),
            m.generation == 0,
            m.parent_id.is_none(),
            m.agent_id@ == agent_id@,
    {
        let theorems = initial_theorems();
        let mut m = SelfModel {
            theorems,
            active_count: 0,
            generation: 0,
            parent_id: None,
            agent_id: String::from_str(agent_id),
        };
        m.active_count = m.count_active_theorems();
        proof {
            reveal_with_fuel(count_active, 15);
            lemma_table_names_distinct();
        }
        m
    }

    /// A self-model for an offspring `agent_id` of `parent_id`.
    pub fn offspring(agent_id: &str, parent_id: &str, generation: u64) -> (m: Self)
        ensures
            m.theorem_models() == theorem_table(),
            m.wf(),
            m.active_count == 14,
            m.active_count == count_active(m.theorem_models()),
            m.generation == generation,
            m.parent_id matches Some(p) && p@ == parent_id@,
            m.agent_id@ == agent_id@,
    {
        let mut m = Self::new(agent_id);
        m.parent_id = Some(String::from_str(parent_id));
        m.generation = generation;
        m
    }

    /// Well-formedness: theorems are identified by their names, so no two
    /// theorems share a name.
    pub open spec fn wf(&self) -> bool {
        names_distinct(self.theorem_models())
    }

    /// Models of the theorems.
    pub open spec fn theorem_models(&self) -> Seq<TheoremView> {
        theorem_views(self.theorems@)
    }

    /// Position of the theorem called `name`, the first if several are.
    pub fn find(&self, name: &str) -> (r: Option<usize>)
        ensures
            r matches Some(i) ==> first_named(self.theorem_models(), name@, i as int),
            r is None ==> forall|j: int|
                0 <= j < self.theorems@.len() ==> self.theorem_models()[j].name != name@,
    {
        let key = String::from_str(name);
        let n = self.theorems.len();
        let mut i: usize = 0;
        while i < n
            invariant
                n == self.theorems@.len(),
                0 <= i <= n,
                key@ == name@,
                forall|j: int| 0 <= j < i ==> self.theorem_models()[j].name != name@,
            decreases n - i,
        {
            if self.theorems[i].name == key {
                return Some(i);
            }
            i = i + 1;
        }
        None
    }

    /// Count the active theorems.
    fn count_active_theorems(&self) -> (c: usize)
        ensures
            c == count_active(self.theorem_models()),
    {
        let n = self.theorems.len();
        let mut c: usize = 0;
        let mut i: usize = 0;
        while i < n
            invariant
                n == self.theorems@.len(),
                0 <= i <= n,
                c == count_active(self.theorem_models().take(i as int)),
            decreases n - i,
        {
            proof {
                let ms = self.theorem_models();
                assert(ms.take(i + 1).drop_last() =~= ms.take(i as int));
                lemma_count_active_bound(ms.take(i as int));
            }
            if self.theorems[i].active {
                c = c + 1;
            }
            i = i + 1;
        }
        assert(self.theorem_models().take(n as int) =~= self.theorem_models());
        c
    }

    /// Deactivate a theorem (e.g. because it failed). Unknown names leave
    /// the theorems unchanged; the active count is recomputed either way.
    pub fn deactivate_theorem(&mut self, name: &str)
        requires
            old(self).wf(),
        ensures
            final(self).theorem_models() == deactivated(old(self).theorem_models(), name@),
            final(self).active_count == count_active(final(self).theorem_models()),
            final(self).wf(),
            final(self).generation == old(self).generation,
            final(self).parent_id == old(self).parent_id,
            final(self).agent_id@ == old(self).agent_id@,
    {
        let found = self.find(name);
        if let Some(i) = found {
            self.set_inactive(i, name);
        } else {
            assert(self.theorem_models() =~= deactivated(old(self).theorem_models(), name@));
        }
        self.active_count = self.count_active_theorems();
        proof {
            lemma_deactivated_shape(old(self).theorem_models(), name@);
        }
    }

    /// Mark the theorem at `i`, the first called `name`, inactive.
    fn set_inactive(&mut self, i: usize, name: &str)
        requires
            first_named(old(self).theorem_models(), name@, i as int),
        ensures
            final(self).theorem_models() == deactivated(old(self).theorem_models(), name@),
            final(self).active_count == old(self).active_count,
            final(self).generation == old(self).generation,
            final(self).parent_id == old(self).parent_id,
            final(self).agent_id@ == old(self).agent_id@,
    {
        let ghost ms = old(self).theorem_models();
        proof {
            let k = choose|k: int| first_named(ms, name@, k);
            lemma_first_named_unique(ms, name@, i as int, k);
        }
        self.theorems[i].active = false;
        assert(self.theorem_models() =~= deactivated(ms, name@));
    }

    /// Report a health check of a theorem: a failing theorem is deactivated.
    /// The active count is recomputed either way.
    pub fn update_health(&mut self, name: &str, failing: bool)
        requires
            old(self).wf(),
        ensures
            final(self).theorem_models() == if failing {
                deactivated(old(self).theorem_models(), name@)
            } else {
                old(self).theorem_models()
            },
            final(self).active_count == count_active(final(self).theorem_models()),
            final(self).wf(),
            final(self).generation == old(self).generation,
            final(self).parent_id == old(self).parent_id,
            final(self).agent_id@ == old(self).agent_id@,
    {
        if failing {
            let found = self.find(name);
            if let Some(i) = found {
                self.set_inactive(i, name);
            } else {
                assert(self.theorem_models() =~= deactivated(old(self).theorem_models(), name@));
            }
        }
        self.active_count = self.count_active_theorems();
        proof {
            lemma_deactivated_shape(old(self).theorem_models(), name@);
        }
    }

    /// The theorems of category `category`, in definition order.
    pub fn theorems_by_category(&self, category: &str) -> (r: Vec<&Theorem>)
        ensures
            Seq::new(r@.len(), |i: int| r@[i]@) == of_category(self.theorem_models(), category@),
    {
        let key = String::from_str(category);
        let ghost ms = self.theorem_models();
        let n = self.theorems.len();
        let mut r: Vec<&Theorem> = Vec::new();
        let mut i: usize = 0;
        while i < n
            invariant
                n == self.theorems@.len(),
                ms == self.theorem_models(),
                0 <= i <= n,
                key@ == category@,
                Seq::new(r@.len(), |k: int| r@[k]@) == of_category(ms.take(i as int), category@),
            decreases n - i,
        {
            let ghost before = r@;
            assert(ms.take(i + 1).drop_last() =~= ms.take(i as int));
            if self.theorems[i].category == key {
                r.push(&self.theorems[i]);
                assert(Seq::new(r@.len(), |k: int| r@[k]@) =~= Seq::new(before.len(), |k: int| before[k]@).push(ms[i as int]));
            }
            i = i + 1;
        }
        assert(ms.take(n as int) =~= ms);
        r
    }

    /// Messages for every dependency that is missing or inactive, in the
    /// order of the theorems and of their dependencies.
    pub fn check_dependencies(&self) -> (r: Vec<String>)
        ensures
            r.deep_view() == dependency_issues(self.theorem_models(), self.theorem_models()),
    {
        let ghost ms = self.theorem_models();
        let n = self.theorems.len();
        let mut r: Vec<String> = Vec::new();
        let mut i: usize = 0;
        assert(r.deep_view() =~= dependency_issues(ms, ms.take(0)));
        while i < n
            invariant
                n == self.theorems@.len(),
                ms == self.theorem_models(),
                0 <= i <= n,
                r.deep_view() == dependency_issues(ms, ms.take(i as int)),
            decreases n - i,
        {
            let owner = &self.theorems[i];
            let m = owner.dependencies.len();
            let ghost base = r.deep_view();
            let ghost deps = ms[i as int].dependencies;
            let mut j: usize = 0;
            assert(base + issues_of_deps(ms, ms[i as int].name, deps.take(0)) =~= base);
            while j < m
                invariant
                    n == self.theorems@.len(),
                    ms == self.theorem_models(),
                    0 <= i < n,
                    owner == &self.theorems@[i as int],
                    m == owner.dependencies@.len(),
                    deps == ms[i as int].dependencies,
                    0 <= j <= m,
                    r.deep_view() == base + issues_of_deps(ms, ms[i as int].name, deps.take(j as int)),
                decreases m - j,
            {
                let dep = &owner.dependencies[j];
                let ghost prev = r.deep_view();
                assert(deps.take(j + 1).drop_last() =~= deps.take(j as int));
                assert(deps[j as int] == dep@);
                let found = self.find(dep.as_str());
                match found {
                    Some(k) => {
                        proof {
                            let c = choose|c: int| first_named(ms, dep@, c);
                            lemma_first_named_unique(ms, dep@, k as int, c);
                        }
                        if !self.theorems[k].active {
                            let mut msg = owner.name.clone();
                            msg.append(" depends on inactive ");
                            msg.append(dep.as_str());
                            r.push(msg);
                            assert(r.deep_view() =~= prev.push(msg@));
                        }
                    },
                    None => {
                        assert(!exists|c: int| first_named(ms, dep@, c));
                        let mut msg = owner.name.clone();
                        msg.append(" depends on missing ");
                        msg.append(dep.as_str());
                        r.push(msg);
                        assert(r.deep_view() =~= prev.push(msg@));
                    },
                }
                j = j + 1;
            }
            assert(deps.take(m as int) =~= deps);
            assert(ms.take(i + 1).drop_last() =~= ms.take(i as int));
            i = i + 1;
        }
        assert(ms.take(n as int) =~= ms);
        r
    }

    /// The dependency graph: each theorem's name with the names it depends
    /// on, in definition order.
    pub fn dependency_graph(&self) -> (g: Vec<(String, Vec<String>)>)
        ensures
            g@.len() == self.theorems@.len(),
            forall|i: int| 0 <= i < g@.len() ==> {
                &&& (#[trigger] g@[i]).0@ == self.theorem_models()[i].name
                &&& g@[i].1.deep_view() == self.theorem_models()[i].dependencies
            },
    {
        let n = self.theorems.len();
        let mut g: Vec<(String, Vec<String>)> = Vec::new();
        let mut i: usize = 0;
        while i < n
            invariant
                n == self.theorems@.len(),
                0 <= i <= n,
                g@.len() == i,
                forall|k: int| 0 <= k < i ==> {
                    &&& (#[trigger] g@[k]).0@ == self.theorem_models()[k].name
                    &&& g@[k].1.deep_view() == self.theorem_models()[k].dependencies
                },
            decreases n - i,
        {
            let t = &self.theorems[i];
            g.push((t.name.clone(), copy_strings(&t.dependencies)));
            i = i + 1;
        }
        g
    }

    /// Total number of theorems.
    pub fn total_theorems(&self) -> (n: usize)
        ensures
            n == self.theorems@.len(),
    {
        self.theorems.len()
    }
}

} // verus!
