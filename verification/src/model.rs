//! The data model: fixed-point phase-space states and the simulation
//! parameters of the Lorenz vector field.

use vstd::prelude::*;

verus! {

/// One coordinate unit is `1 / SCALE` of a phase-space unit, so a stored
/// value `v` stands for the real number `v / 1_000_000`.
pub const SCALE: i64 = 1_000_000;

/// Integration inputs are confined to one million phase-space units per
/// axis; far beyond where the Lorenz attractor lives, and small enough
/// that one Euler step can never overflow the stored representation.
pub const COORD_LIMIT: i64 = 1_000_000_000_000;

/// Every state held by a trajectory stays within this magnitude per axis.
/// One Euler step from a `COORD_LIMIT`-bounded state provably lands below
/// it, and it leaves headroom under `i64::MAX` for the grid arithmetic.
pub const STORE_LIMIT: i64 = 2_000_000_000_000_000_000;

/// Magnitude cap on the dimensionless parameters sigma, rho and beta.
pub const PARAM_LIMIT: i64 = 1_000;

/// Cap on the denominators of beta and of the time step.
pub const DEN_LIMIT: i64 = 1_000_000;

/// How many integration steps one tick of the driver performs.
pub const STEPS_PER_TICK: usize = 200;

/// A point of phase space: an immutable value; integration produces a new
/// `State`, it never mutates one in place. Each field is a fixed-point
/// coordinate in units of `1 / SCALE`.
#[derive(Clone, Copy, Debug, PartialEq, Eq, Structural)]
pub struct State {
    pub x: i64,
    pub y: i64,
    pub z: i64,
}

impl State {
    /// Small enough to be fed to the integrator without overflow.
    pub open spec fn in_range(self) -> bool {
        &&& -COORD_LIMIT <= self.x <= COORD_LIMIT
        &&& -COORD_LIMIT <= self.y <= COORD_LIMIT
        &&& -COORD_LIMIT <= self.z <= COORD_LIMIT
    }

    /// Small enough to be stored and fed to the scene computation.
    pub open spec fn bounded(self) -> bool {
        &&& -STORE_LIMIT <= self.x <= STORE_LIMIT
        &&& -STORE_LIMIT <= self.y <= STORE_LIMIT
        &&& -STORE_LIMIT <= self.z <= STORE_LIMIT
    }

    /// Runtime check for `in_range`, used by the tick loop to surface
    /// unbounded numeric growth instead of overflowing.
    pub fn is_in_range(&self) -> (b: bool)
        ensures
            b == self.in_range(),
    {
        -COORD_LIMIT <= self.x && self.x <= COORD_LIMIT
            && -COORD_LIMIT <= self.y && self.y <= COORD_LIMIT
            && -COORD_LIMIT <= self.z && self.z <= COORD_LIMIT
    }
}

/// The constants of the Lorenz vector field and the step size, immutable
/// for the life of a simulation. `sigma` and `rho` are plain integers,
/// `beta` is the rational `beta_num / beta_den`, and the time step is the
/// rational `dt_num / dt_den` (in seconds of simulated time).
#[derive(Clone, Copy, Debug, PartialEq, Eq, Structural)]
pub struct Params {
    pub sigma: i64,
    pub rho: i64,
    pub beta_num: i64,
    pub beta_den: i64,
    pub dt_num: i64,
    pub dt_den: i64,
}

impl Params {
    /// The ranges under which one Euler step provably stays within
    /// `STORE_LIMIT`. The step size may not exceed one second.
    pub open spec fn wf(self) -> bool {
        &&& -PARAM_LIMIT <= self.sigma <= PARAM_LIMIT
        &&& -PARAM_LIMIT <= self.rho <= PARAM_LIMIT
        &&& -PARAM_LIMIT <= self.beta_num <= PARAM_LIMIT
        &&& 1 <= self.beta_den <= PARAM_LIMIT
        &&& 1 <= self.dt_num <= self.dt_den
        &&& self.dt_den <= DEN_LIMIT
    }
}

/// The classical chaotic choice: sigma = 10, rho = 28, beta = 8/3, with a
/// step of one millisecond.
pub fn lorenz_params() -> (p: Params)
    ensures
        p.wf(),
        p == (Params { sigma: 10i64, rho: 28i64, beta_num: 8i64, beta_den: 3i64, dt_num: 1i64, dt_den: 1000i64 }),
{
    Params { sigma: 10, rho: 28, beta_num: 8, beta_den: 3, dt_num: 1, dt_den: 1000 }
}

/// The canonical seed state: (0, 1, 1.05) in phase-space units.
pub fn initial_state() -> (s: State)
    ensures
        s == (State { x: 0i64, y: 1_000_000i64, z: 1_050_000i64 }),
        s.in_range(),
{
    State { x: 0, y: 1_000_000, z: 1_050_000 }
}

} // verus!
