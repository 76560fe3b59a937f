//! The global guarantees of the simulation loop, stated over the
//! mathematical run: the history a simulation holds after `k` ticks from
//! a given seed under given parameters.

use vstd::prelude::*;
use crate::model::State;
use crate::model::Params;
use crate::model::STEPS_PER_TICK;
use crate::integrator::chain_seq;

verus! {

/// The history after `k` successful ticks from `seed` under `p`: the seed
/// alone, then `STEPS_PER_TICK` appended states per tick. `Simulation::
/// tick`'s contract pins each successful tick to exactly one unfolding of
/// this definition.
pub open spec fn run(seed: State, p: Params, k: nat) -> Seq<State>
    decreases k,
{
    if k == 0 {
        seq![seed]
    } else {
        let prev = run(seed, p, (k - 1) as nat);
        prev + chain_seq(prev.last(), p, STEPS_PER_TICK as nat)
    }
}

/// Growth invariant: after `k` ticks from a single seed state the history
/// holds exactly `1 + STEPS_PER_TICK * k` states, for every `k >= 0`.
pub proof fn lemma_growth(seed: State, p: Params, k: nat)
    ensures
        run(seed, p, k).len() == 1 + (STEPS_PER_TICK as int) * k,
    decreases k,
{
    if k == 0 {
        assert(run(seed, p, 0).len() == 1);
    } else {
        lemma_growth(seed, p, (k - 1) as nat);
        assert((STEPS_PER_TICK as int) * k
            == (STEPS_PER_TICK as int) * (k - 1) + (STEPS_PER_TICK as int)) by (nonlinear_arith);
    }
}

/// Append-only invariant: the history after tick `k` begins with the
/// whole history after tick `k - 1`, position by position and value by
/// value; no earlier entry is mutated, removed or reordered.
pub proof fn lemma_append_only(seed: State, p: Params, k: nat)
    requires
        k >= 1,
    ensures
        run(seed, p, (k - 1) as nat).len() <= run(seed, p, k).len(),
        run(seed, p, k).subrange(0, run(seed, p, (k - 1) as nat).len() as int)
            == run(seed, p, (k - 1) as nat),
{
    let prev = run(seed, p, (k - 1) as nat);
    let full = run(seed, p, k);
    assert(full == prev + chain_seq(prev.last(), p, STEPS_PER_TICK as nat));
    assert(full.subrange(0, prev.len() as int) =~= prev);
}

/// Determinism: two runs of the same length from the same seed and
/// parameters are identical, state by state. There is no hidden
/// randomness and no time-dependent behaviour beyond the tick count.
pub proof fn lemma_determinism(seed1: State, seed2: State, p1: Params, p2: Params, k: nat)
    requires
        seed1 == seed2,
        p1 == p2,
    ensures
        run(seed1, p1, k) == run(seed2, p2, k),
{
}

/// One successful `Simulation::tick` carries the mathematical run from
/// `k` ticks to `k + 1`: a history equal to `run(seed, p, k)` extended by
/// the tick's appended chain equals `run(seed, p, k + 1)`.
pub proof fn lemma_tick_extends_run(seed: State, p: Params, k: nat, t: Seq<State>)
    requires
        t == run(seed, p, k),
    ensures
        t.len() >= 1,
        t + chain_seq(t.last(), p, STEPS_PER_TICK as nat) == run(seed, p, (k + 1) as nat),
{
    lemma_growth(seed, p, k);
    assert((STEPS_PER_TICK as int) * k >= 0) by (nonlinear_arith);
}

} // verus!
