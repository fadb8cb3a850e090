//! Reproduction bookkeeping: the birth gate, generations and child
//! identifiers of pullback spawning.

use vstd::prelude::*;

verus! {

/// The character of decimal digit `d` (0 to 9).
pub open spec fn digit_char(d: nat) -> char {
    if d == 0 {
        '0'
    } else if d == 1 {
        '1'
    } else if d == 2 {
        '2'
    } else if d == 3 {
        '3'
    } else if d == 4 {
        '4'
    } else if d == 5 {
        '5'
    } else if d == 6 {
        '6'
    } else if d == 7 {
        '7'
    } else if d == 8 {
        '8'
    } else {
        '9'
    }
}

/// Decimal representation of `n`, without leading zeros.
pub open spec fn decimal(n: nat) -> Seq<char>
    decreases n,
{
    if n < 10 {
        seq![digit_char(n)]
    } else {
        decimal(n / 10).push(digit_char(n % 10))
    }
}

/// Identifier of the `n`-th child of the agent called `parent`.
pub open spec fn child_id_of(parent: Seq<char>, n: nat) -> Seq<char> {
    parent + "-child-"@ + decimal(n)
}

proof fn lemma_decimal_nonempty(n: nat)
    ensures
        decimal(n).len() >= 1,
        n >= 10 ==> decimal(n).len() >= 2,
    decreases n,
{
    if n >= 10 {
        lemma_decimal_nonempty(n / 10);
    }
}

/// Distinct numbers have distinct decimal representations.
pub proof fn lemma_decimal_injective(a: nat, b: nat)
    requires
        decimal(a) == decimal(b),
    ensures
        a == b,
    decreases a,
{
    lemma_decimal_nonempty(a);
    lemma_decimal_nonempty(b);
    let da = decimal(a);
    assert(da.last() == digit_char(a % 10));
    assert(decimal(b).last() == digit_char(b % 10));
    assert(a % 10 == b % 10);
    if a >= 10 && b >= 10 {
        assert(decimal(a / 10) =~= da.drop_last());
        assert(decimal(b / 10) =~= decimal(b).drop_last());
        lemma_decimal_injective(a / 10, b / 10);
    }
}

/// Law: children numbered differently get different identifiers.
pub proof fn law_child_ids_distinct(parent: Seq<char>, a: nat, b: nat)
    requires
        a != b,
    ensures
        child_id_of(parent, a) != child_id_of(parent, b),
{
    let k = parent.len() + "-child-"@.len();
    if child_id_of(parent, a) == child_id_of(parent, b) {
        assert(child_id_of(parent, a).subrange(k as int, child_id_of(parent, a).len() as int) =~= decimal(a));
        assert(child_id_of(parent, b).subrange(k as int, child_id_of(parent, b).len() as int) =~= decimal(b));
        lemma_decimal_injective(a, b);
    }
}

/// The one-character string of decimal digit `d`.
fn digit_str(d: u64) -> (s: &'static str)
    requires
        d < 10,
    ensures
        s@ == seq![digit_char(d as nat)],
{
    if d == 0 {
        proof {
            reveal_strlit("0");
        }
        "0"
    } else if d == 1 {
        proof {
            reveal_strlit("1");
        }
        "1"
    } else if d == 2 {
        proof {
            reveal_strlit("2");
        }
        "2"
    } else if d == 3 {
        proof {
            reveal_strlit("3");
        }
        "3"
    } else if d == 4 {
        proof {
            reveal_strlit("4");
        }
        "4"
    } else if d == 5 {
        proof {
            reveal_strlit("5");
        }
        "5"
    } else if d == 6 {
        proof {
            reveal_strlit("6");
        }
        "6"
    } else if d == 7 {
        proof {
            reveal_strlit("7");
        }
        "7"
    } else if d == 8 {
        proof {
            reveal_strlit("8");
        }
        "8"
    } else {
        proof {
            reveal_strlit("9");
        }
        "9"
    }
}

/// Decimal representation of `n`.
pub fn decimal_string(n: u64) -> (s: String)
    ensures
        s@ == decimal(n as nat),
    decreases n,
{
    if n < 10 {
        String::from_str(digit_str(n))
    } else {
        let mut s = decimal_string(n / 10);
        s.append(digit_str(n % 10));
        s
    }
}

/// The three conditions of the pullback birth: consistent knowledge
/// (H¹ below its threshold), a healthy parent and enough free energy.
#[derive(Debug, Clone, Copy, PartialEq, Eq, Structural)]
pub struct BirthGates {
    /// H¹ risk is below the birth threshold.
    pub h1_zero: bool,
    /// The parent is healthy enough to reproduce.
    pub parent_healthy: bool,
    /// There is enough free energy for spawning.
    pub sufficient_energy: bool,
}

impl BirthGates {
    /// Birth may proceed exactly when all three conditions hold.
    pub open spec fn allows_birth(self) -> bool {
        self.h1_zero && self.parent_healthy && self.sufficient_energy
    }

    /// Whether birth can proceed.
    pub fn can_birth(&self) -> (b: bool)
        ensures
            b == self.allows_birth(),
    {
        self.h1_zero && self.parent_healthy && self.sufficient_energy
    }
}

/// Identity of a spawned (or refused) child.
#[derive(Debug, Clone)]
pub struct SpawnOutcome {
    /// Child agent ID (empty when the spawn was refused).
    pub child_id: String,
    /// Child generation.
    pub generation: u64,
    /// Whether the spawn succeeded.
    pub success: bool,
}

/// Pullback spawner: numbers the children it spawns.
#[derive(Debug, Clone, Copy, PartialEq, Eq, Structural)]
pub struct Spawner {
    /// Number of children spawned so far; the next child gets this plus one.
    pub next_child_id: u64,
}

impl Spawner {
    /// A spawner that has not spawned yet.
    pub fn new() -> (s: Self)
        ensures
            s.next_child_id == 0,
    {
        Spawner { next_child_id: 0 }
    }

    /// Asexual reproduction of `parent_id`: succeeds exactly when `gates`
    /// allow birth; the child is one generation after its parent and, on
    /// success, is numbered after all earlier children of this spawner.
    pub fn spawn_asexual(&mut self, parent_id: &str, parent_generation: u64, gates: BirthGates) -> (r: SpawnOutcome)
        requires
            parent_generation < u64::MAX,
            gates.allows_birth() ==> old(self).next_child_id < u64::MAX,
        ensures
            r.generation == parent_generation + 1,
            r.success == gates.allows_birth(),
            r.success ==> final(self).next_child_id == old(self).next_child_id + 1,
            r.success ==> r.child_id@ == child_id_of(parent_id@, final(self).next_child_id as nat),
            !r.success ==> final(self).next_child_id == old(self).next_child_id,
            !r.success ==> r.child_id@ == Seq::<char>::empty(),
    {
        if !gates.can_birth() {
            return SpawnOutcome {
                child_id: String::new(),
                generation: parent_generation + 1,
                success: false,
            };
        }
        self.next_child_id = self.next_child_id + 1;
        let mut child_id = String::from_str(parent_id);
        child_id.append("-child-");
        let number = decimal_string(self.next_child_id);
        child_id.append(number.as_str());
        SpawnOutcome { child_id, generation: parent_generation + 1, success: true }
    }
}

} // verus!
