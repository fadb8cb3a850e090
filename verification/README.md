# lau-agent-organism

An agent organism whose lifecycle is paid for by a thermodynamic budget.

* `src/` — the verified discrete core (Verus):
  * `lifecycle` — lifecycle stages and the sunset state machine, with its
    transition log;
  * `organism` — the organism's life: alive flag, step count, death and the
    reproduction gate;
  * `self_model` — the network of fourteen theorems the agent embodies, with
    dependency checking and activity bookkeeping;
  * `reproduce` — the birth gate, generations and child identifiers;
  * `conserve` — Noether symmetry registration and snapshot history;
  * `rng` — the deterministic linear congruential generator;
  * `history` — bounded histories.
* `app/` — the floating-point subsystems (Kalman–Hodge perception, LQR
  control, Fisher–Rao learning, energy accounting, H¹ monitoring, CALM
  merge) composed with the core, plus serialisation.
* `tests/` — tests of the core.
