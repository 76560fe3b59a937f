//! The append-only trajectory store: the ordered history of visited
//! states, seeded with one initial state, growing at the tail and never
//! mutated elsewhere. It is a dynamically growing contiguous buffer, so
//! memory use is linear in the number of stored states; nothing is ever
//! evicted.

use vstd::prelude::*;
use crate::model::State;
use crate::model::Params;
use crate::error::FrameError;
use crate::integrator::step;
use crate::integrator::state_at;
use crate::integrator::inputs_ok;
use crate::integrator::chain_seq;

verus! {

/// An ordered, append-only sequence of states, insertion order equal to
/// simulation-time order.
pub struct Trajectory {
    pts: Vec<State>,
}

impl View for Trajectory {
    type V = Seq<State>;

    closed spec fn view(&self) -> Seq<State> {
        self.pts@
    }
}

impl Trajectory {
    /// Non-empty since seeding, and every stored state is representable,
    /// which the scene computation depends on.
    pub open spec fn wf(self) -> bool {
        &&& self@.len() >= 1
        &&& forall|i: int| 0 <= i < self@.len() ==> (#[trigger] self@[i]).bounded()
    }

    /// Initialize with exactly the one seed state.
    pub fn seed(initial: State) -> (t: Trajectory)
        requires
            initial.bounded(),
        ensures
            t@ == seq![initial],
            t.wf(),
    {
        let mut pts: Vec<State> = Vec::new();
        pts.push(initial);
        proof {
            assert(pts@ =~= seq![initial]);
        }
        Trajectory { pts }
    }

    /// How many states have been visited so far.
    pub fn len(&self) -> (n: usize)
        ensures
            n == self@.len(),
    {
        self.pts.len()
    }

    /// A point-in-time read-only view of all states in insertion order.
    pub fn snapshot(&self) -> (v: &Vec<State>)
        ensures
            v@ == self@,
    {
        &self.pts
    }

    /// The state at position `i` of the history.
    pub fn at(&self, i: usize) -> (s: State)
        requires
            i < self@.len(),
        ensures
            s == self@[i as int],
    {
        self.pts[i]
    }

    /// The most recently appended state.
    pub fn last(&self) -> (s: State)
        requires
            self@.len() >= 1,
        ensures
            s == self@.last(),
    {
        self.pts[self.pts.len() - 1]
    }

    /// Extend the history in order; earlier entries are untouched.
    pub fn append(&mut self, states: Vec<State>)
        requires
            old(self).wf(),
            forall|i: int| 0 <= i < states@.len() ==> (#[trigger] states@[i]).bounded(),
        ensures
            final(self).wf(),
            final(self)@ == old(self)@ + states@,
    {
        let mut tail = states;
        self.pts.append(&mut tail);
        proof {
            assert(final(self)@ =~= old(self)@ + states@);
        }
    }

    /// Advance the integrator `n` times from the last visited state,
    /// threading each output into the next call, and append every
    /// intermediate result, in order.
    ///
    /// Succeeds exactly when all `n` integrator inputs are in the
    /// integrable range; otherwise the history is left untouched and the
    /// overflow is surfaced as `PreconditionViolation`, the fixed-point
    /// counterpart of a non-finite value.
    #[verifier::loop_isolation(false)]
    pub fn advance(&mut self, p: Params, n: usize) -> (r: Result<(), FrameError>)
        requires
            old(self).wf(),
            p.wf(),
        ensures
            final(self).wf(),
            r is Ok <==> inputs_ok(old(self)@.last(), p, n as nat),
            r is Ok ==> final(self)@ == old(self)@ + chain_seq(old(self)@.last(), p, n as nat),
            r is Err ==> final(self)@ == old(self)@
                && r == Err::<(), FrameError>(FrameError::PreconditionViolation),
    {
        let s0 = self.last();
        let mut cur: State = s0;
        let mut buf: Vec<State> = Vec::new();
        let mut i: usize = 0;
        while i < n
            invariant
                i <= n,
                cur == state_at(s0, p, i as nat),
                buf@ == chain_seq(s0, p, i as nat),
                forall|j: nat| j < i as nat ==> (#[trigger] state_at(s0, p, j)).in_range(),
                forall|k: int| 0 <= k < buf@.len() ==> (#[trigger] buf@[k]).bounded(),
            decreases n - i,
        {
            if !cur.is_in_range() {
                proof {
                    assert(!inputs_ok(s0, p, n as nat));
                }
                return Err(FrameError::PreconditionViolation);
            }
            let nxt = step(cur, p);
            proof {
                assert(state_at(s0, p, (i + 1) as nat) == nxt);
                assert(chain_seq(s0, p, (i + 1) as nat)
                    =~= chain_seq(s0, p, i as nat).push(nxt));
            }
            buf.push(nxt);
            cur = nxt;
            i = i + 1;
        }
        proof {
            assert(inputs_ok(s0, p, n as nat));
        }
        self.append(buf);
        Ok(())
    }
}

} // verus!
