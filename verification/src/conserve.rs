//! Noether symmetry bookkeeping: the symmetries an agent tracks, each with
//! its generator and conserved value, and a bounded history of snapshots.
//! `V` is the type of conserved values, `G` that of generators and `H`
//! that of snapshots.

use vstd::prelude::*;

use crate::history::{bounded_push, push_bounded};

verus! {

/// Maximum number of snapshots kept in a tracker's history.
pub const MAX_SNAPSHOTS: usize = 1000;

/// A symmetry and its associated conserved quantity.
#[derive(Debug, Clone)]
pub struct Symmetry<V, G> {
    /// Name of the symmetry (e.g. "energy", "rotation").
    pub name: String,
    /// The generator of the symmetry (Lie algebra element).
    pub generator: G,
    /// The conserved quantity value.
    pub conserved_value: V,
    /// Tolerance for the conservation check.
    pub tolerance: V,
}

/// `i` is the first position of a symmetry called `name`.
pub open spec fn first_symmetry_named<V, G>(syms: Seq<Symmetry<V, G>>, name: Seq<char>, i: int) -> bool {
    &&& 0 <= i < syms.len()
    &&& syms[i].name@ == name
    &&& forall|j: int| 0 <= j < i ==> syms[j].name@ != name
}

/// Noether symmetry tracker.
#[derive(Debug, Clone)]
pub struct NoetherTracker<V, G, H> {
    /// Tracked symmetries, in registration order.
    pub symmetries: Vec<Symmetry<V, G>>,
    /// History of conserved values (for drift detection), oldest first.
    pub history: Vec<H>,
}

impl<V, G, H> NoetherTracker<V, G, H> {
    /// A tracker with no symmetries and an empty history.
    pub fn new() -> (t: Self)
        ensures
            t.symmetries@.len() == 0,
            t.history@.len() == 0,
    {
        NoetherTracker { symmetries: Vec::new(), history: Vec::new() }
    }

    /// Register a new symmetry to track.
    pub fn register_symmetry(&mut self, name: &str, generator: G, initial_value: V, tolerance: V)
        ensures
            final(self).symmetries@.len() == old(self).symmetries@.len() + 1,
            forall|i: int| 0 <= i < old(self).symmetries@.len()
                ==> #[trigger] final(self).symmetries@[i] == old(self).symmetries@[i],
            final(self).symmetries@.last().name@ == name@,
            final(self).symmetries@.last().generator == generator,
            final(self).symmetries@.last().conserved_value == initial_value,
            final(self).symmetries@.last().tolerance == tolerance,
            final(self).history@ == old(self).history@,
    {
        self.symmetries.push(
            Symmetry { name: String::from_str(name), generator, conserved_value: initial_value, tolerance },
        );
    }

    /// Update the conserved value of the first symmetry called `name`;
    /// unknown names change nothing.
    pub fn update_value(&mut self, name: &str, new_value: V)
        ensures
            final(self).symmetries@.len() == old(self).symmetries@.len(),
            final(self).history@ == old(self).history@,
            forall|i: int| 0 <= i < old(self).symmetries@.len() ==> {
                let (o, n) = (old(self).symmetries@[i], #[trigger] final(self).symmetries@[i]);
                &&& n.name == o.name
                &&& n.generator == o.generator
                &&& n.tolerance == o.tolerance
                &&& n.conserved_value == if first_symmetry_named(old(self).symmetries@, name@, i) {
                    new_value
                } else {
                    o.conserved_value
                }
            },
    {
        let key = String::from_str(name);
        let n = self.symmetries.len();
        let mut i: usize = 0;
        while i < n
            invariant
                n == self.symmetries@.len(),
                0 <= i <= n,
                key@ == name@,
                self.symmetries@ == old(self).symmetries@,
                self.history@ == old(self).history@,
                forall|j: int| 0 <= j < i ==> self.symmetries@[j].name@ != name@,
            decreases n - i,
        {
            if self.symmetries[i].name == key {
                self.symmetries[i].conserved_value = new_value;
                return;
            }
            i = i + 1;
        }
    }

    /// Record a snapshot of the current values in the history, which keeps
    /// the most recent `MAX_SNAPSHOTS` snapshots.
    pub fn snapshot(&mut self, values: H)
        ensures
            final(self).history@ == bounded_push(old(self).history@, values, MAX_SNAPSHOTS as nat),
            final(self).symmetries@ == old(self).symmetries@,
    {
        push_bounded(&mut self.history, values, MAX_SNAPSHOTS);
    }

    /// Number of tracked symmetries.
    pub fn num_symmetries(&self) -> (n: usize)
        ensures
            n == self.symmetries@.len(),
    {
        self.symmetries.len()
    }
}

} // verus!
