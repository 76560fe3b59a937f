//! The single-threaded simulation actor. It owns the trajectory store
//! exclusively; a driver delivers tick messages one at a time and draws
//! the scene each tick returns, so integration and rendering never
//! overlap and no lock is needed. A tick runs to completion or fails
//! fatally; there is no partial result.

use vstd::prelude::*;
use crate::model::State;
use crate::model::Params;
use crate::model::STEPS_PER_TICK;
use crate::error::FrameError;
use crate::trajectory::Trajectory;
use crate::integrator::inputs_ok;
use crate::integrator::chain_seq;
use crate::scene::Scene;
use crate::scene::scene_ok;
use crate::scene::build_scene;

verus! {

/// The simulation: the trajectory history plus the immutable parameters
/// it is advanced under.
pub struct Simulation {
    trajectory: Trajectory,
    params: Params,
}

impl View for Simulation {
    type V = Seq<State>;

    closed spec fn view(&self) -> Seq<State> {
        self.trajectory@
    }
}

impl Simulation {
    /// The parameters the simulation was created with.
    pub closed spec fn params(self) -> Params {
        self.params
    }

    /// Well-formed: valid parameters and a non-empty history of
    /// representable states. Established by `new`, preserved by `tick`.
    pub open spec fn wf(self) -> bool {
        &&& self.params().wf()
        &&& self@.len() >= 1
        &&& forall|i: int| 0 <= i < self@.len() ==> (#[trigger] self@[i]).bounded()
    }

    /// Start a simulation from one seed state.
    pub fn new(seed_state: State, params: Params) -> (s: Simulation)
        requires
            params.wf(),
            seed_state.bounded(),
        ensures
            s.wf(),
            s@ == seq![seed_state],
            s.params() == params,
    {
        Simulation { trajectory: Trajectory::seed(seed_state), params }
    }

    /// How many states have been visited so far.
    pub fn len(&self) -> (n: usize)
        ensures
            n == self@.len(),
    {
        self.trajectory.len()
    }

    /// A point-in-time read-only snapshot of the history.
    pub fn snapshot(&self) -> (v: &Vec<State>)
        ensures
            v@ == self@,
    {
        self.trajectory.snapshot()
    }

    /// Handle one tick message: advance the integrator `STEPS_PER_TICK`
    /// times from the last state and append every intermediate result.
    /// Deterministic: the new history is a function of the old history
    /// and the parameters alone. On failure (a state left the integrable
    /// range) the history is untouched.
    pub fn tick(&mut self) -> (r: Result<(), FrameError>)
        requires
            old(self).wf(),
        ensures
            final(self).wf(),
            final(self).params() == old(self).params(),
            r is Ok <==> inputs_ok(old(self)@.last(), old(self).params(), STEPS_PER_TICK as nat),
            r is Ok ==> final(self)@ == old(self)@
                + chain_seq(old(self)@.last(), old(self).params(), STEPS_PER_TICK as nat),
            r is Err ==> final(self)@ == old(self)@
                && r == Err::<(), FrameError>(FrameError::PreconditionViolation),
    {
        self.trajectory.advance(self.params, STEPS_PER_TICK)
    }

    /// Build the scene of the current history. Always succeeds: the
    /// history is non-empty by construction.
    pub fn frame(&self) -> (sc: Scene)
        requires
            self.wf(),
        ensures
            scene_ok(sc, self@),
    {
        match build_scene(self.trajectory.snapshot()) {
            Ok(sc) => sc,
            Err(_) => {
                proof {
                    assert(false);
                }
                unreached()
            },
        }
    }

    /// One whole tick of the animation pipeline: integrate, then build
    /// the scene of the grown history for the driver to draw.
    pub fn on_tick(&mut self) -> (r: Result<Scene, FrameError>)
        requires
            old(self).wf(),
        ensures
            final(self).wf(),
            final(self).params() == old(self).params(),
            r is Ok <==> inputs_ok(old(self)@.last(), old(self).params(), STEPS_PER_TICK as nat),
            r is Ok ==> final(self)@ == old(self)@
                + chain_seq(old(self)@.last(), old(self).params(), STEPS_PER_TICK as nat)
                && scene_ok(r->Ok_0, final(self)@),
            r is Err ==> final(self)@ == old(self)@
                && r == Err::<Scene, FrameError>(FrameError::PreconditionViolation),
    {
        match self.tick() {
            Ok(()) => Ok(self.frame()),
            Err(e) => Err(e),
        }
    }
}

} // verus!
