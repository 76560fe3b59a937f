//! The fixed-step explicit Euler integrator for the Lorenz vector field
//!
//!     x' = x + dt * sigma * (y - x)
//!     y' = y + dt * (rho * x - y - x * z)
//!     z' = z + dt * (x * y - beta * z)
//!
//! over the fixed-point state space of `crate::model`. Products of two
//! coordinates are rescaled by `SCALE`; every division is Euclidean
//! (rounding toward negative infinity), so each step has one exact value,
//! stated by `step_state`.

use vstd::prelude::*;
use vstd::arithmetic::div_mod::lemma_fundamental_div_mod;
use vstd::arithmetic::div_mod::lemma_mod_bound;
use vstd::arithmetic::div_mod::lemma_div_is_ordered;
use vstd::arithmetic::div_mod::lemma_div_multiples_vanish;
use vstd::arithmetic::div_mod::lemma_div_nonincreasing;
use crate::model::State;
use crate::model::Params;
use crate::model::SCALE;
use crate::model::COORD_LIMIT;
use crate::model::PARAM_LIMIT;

verus! {

/// The scaled time derivative of x: `sigma * (y - x)`.
pub open spec fn dx_scaled(s: State, p: Params) -> int {
    p.sigma * (s.y - s.x)
}

/// The scaled time derivative of y: `rho * x - y - x * z`, with the
/// coordinate product brought back to scale.
pub open spec fn dy_scaled(s: State, p: Params) -> int {
    p.rho * s.x - s.y - (s.x * s.z) / (SCALE as int)
}

/// The scaled time derivative of z: `x * y - beta * z`, with the
/// coordinate product brought back to scale.
pub open spec fn dz_scaled(s: State, p: Params) -> int {
    (s.x * s.y) / (SCALE as int) - (p.beta_num * s.z) / (p.beta_den as int)
}

/// One derivative value times the time step `dt_num / dt_den`.
pub open spec fn euler_delta(raw: int, p: Params) -> int {
    (raw * p.dt_num) / (p.dt_den as int)
}

pub open spec fn next_x_int(s: State, p: Params) -> int {
    s.x + euler_delta(dx_scaled(s, p), p)
}

pub open spec fn next_y_int(s: State, p: Params) -> int {
    s.y + euler_delta(dy_scaled(s, p), p)
}

pub open spec fn next_z_int(s: State, p: Params) -> int {
    s.z + euler_delta(dz_scaled(s, p), p)
}

/// The mathematical successor of a state under one Euler step. For an
/// `in_range` state and well-formed parameters the casts are exact (see
/// `step`, which proves its result equal to this and to the `int` values).
pub open spec fn step_state(s: State, p: Params) -> State {
    State {
        x: next_x_int(s, p) as i64,
        y: next_y_int(s, p) as i64,
        z: next_z_int(s, p) as i64,
    }
}

/// The state reached from `s` after `i` Euler steps.
pub open spec fn state_at(s: State, p: Params, i: nat) -> State
    decreases i,
{
    if i == 0 {
        s
    } else {
        step_state(state_at(s, p, (i - 1) as nat), p)
    }
}

/// Whether every state an `n`-step advance feeds to the integrator is in
/// the integrable range. The `n`-th state itself is not an input, so it
/// is not constrained.
pub open spec fn inputs_ok(s: State, p: Params, n: nat) -> bool {
    forall|j: nat| j < n ==> (#[trigger] state_at(s, p, j)).in_range()
}

/// The `n` states an `n`-step advance appends after `s`, in order.
pub open spec fn chain_seq(s: State, p: Params, n: nat) -> Seq<State> {
    Seq::new(n, |j: int| state_at(s, p, (j + 1) as nat))
}

/// Magnitude bound on a product from magnitude bounds on its factors.
pub proof fn lemma_mul_bound(a: int, b: int, aa: int, bb: int)
    requires
        -aa <= a <= aa,
        -bb <= b <= bb,
        0 <= aa,
        0 <= bb,
    ensures
        -(aa * bb) <= a * b <= aa * bb,
        0 <= aa * bb,
{
    assert(-(aa * bb) <= a * b <= aa * bb && 0 <= aa * bb) by (nonlinear_arith)
        requires
            -aa <= a <= aa,
            -bb <= b <= bb,
            0 <= aa,
            0 <= bb,
    ;
}

/// A magnitude bound on a Euclidean quotient from one on its dividend.
pub proof fn lemma_div_bound(t: int, d: int, b: int)
    requires
        1 <= d,
        0 <= b,
        -b <= t <= b,
    ensures
        -(b / d) - 1 <= t / d <= b / d,
        0 <= b / d <= b,
{
    lemma_fundamental_div_mod(t, d);
    lemma_fundamental_div_mod(b, d);
    lemma_mod_bound(t, d);
    lemma_mod_bound(b, d);
    lemma_div_nonincreasing(b, d);
    let q = t / d;
    let r = t % d;
    let qb = b / d;
    let rb = b % d;
    assert(0 <= qb) by (nonlinear_arith)
        requires
            b == d * qb + rb,
            0 <= rb < d,
            1 <= d,
            0 <= b,
    ;
    assert(-qb - 1 <= q <= qb) by (nonlinear_arith)
        requires
            t == d * q + r,
            b == d * qb + rb,
            0 <= r < d,
            0 <= rb < d,
            1 <= d,
            -b <= t <= b,
            0 <= b,
    ;
}

/// A time-step factor `dt_num / dt_den <= 1` cannot enlarge a derivative
/// by more than the rounding slack of one.
pub proof fn lemma_delta_bound(raw: int, n: int, d: int, rb: int)
    requires
        -rb <= raw <= rb,
        0 <= rb,
        1 <= n,
        n <= d,
    ensures
        -rb - 1 <= (raw * n) / d <= rb,
{
    lemma_mul_bound(raw, n, rb, n);
    lemma_div_bound(raw * n, d, rb * n);
    assert(rb * n <= rb * d) by (nonlinear_arith)
        requires
            0 <= rb,
            n <= d,
    ;
    lemma_div_is_ordered(rb * n, rb * d, d);
    assert(rb * d == d * rb) by (nonlinear_arith);
    lemma_div_multiples_vanish(rb, d);
}

/// Exact Euclidean division, which is what `/` means in the
/// specifications above.
fn div_eu(num: i128, den: i128) -> (q: i128)
    requires
        1 <= den,
        -100_000_000_000_000_000_000_000_000 <= num <= 100_000_000_000_000_000_000_000_000,
    ensures
        q == num as int / den as int,
{
    proof {
        lemma_div_bound(num as int, den as int, 100_000_000_000_000_000_000_000_000int);
        lemma_div_nonincreasing(100_000_000_000_000_000_000_000_000int, den as int);
    }
    match num.checked_div_euclid(den) {
        Some(q) => q,
        None => {
            proof {
                assert(false);
            }
            0
        },
    }
}

/// One Euler step. Deterministic, no failure modes, no side effects: the
/// result is exactly `step_state(s, p)`, and each coordinate equals the
/// unbounded integer value of the update formula (the casts lose
/// nothing). The result always stays well inside the storable range.
pub fn step(s: State, p: Params) -> (r: State)
    requires
        p.wf(),
        s.in_range(),
    ensures
        r == step_state(s, p),
        r.x as int == next_x_int(s, p),
        r.y as int == next_y_int(s, p),
        r.z as int == next_z_int(s, p),
        r.bounded(),
{
    let x = s.x as i128;
    let y = s.y as i128;
    let z = s.z as i128;
    let sg = p.sigma as i128;
    let rh = p.rho as i128;
    let bn = p.beta_num as i128;
    let bd = p.beta_den as i128;
    let dn = p.dt_num as i128;
    let dd = p.dt_den as i128;

    // x: sigma * (y - x), then the time step.
    proof {
        lemma_mul_bound(sg as int, y - x, PARAM_LIMIT as int, 2 * COORD_LIMIT as int);
    }
    let dxv: i128 = sg * (y - x);
    proof {
        lemma_mul_bound(dxv as int, dn as int, 2_000_000_000_000_000int, 1_000_000int);
        lemma_delta_bound(dxv as int, dn as int, dd as int, 2_000_000_000_000_000int);
    }
    let ddx: i128 = div_eu(dxv * dn, dd);
    let nx: i128 = x + ddx;

    // y: rho * x - y - x * z / SCALE, then the time step.
    proof {
        lemma_mul_bound(x as int, z as int, COORD_LIMIT as int, COORD_LIMIT as int);
    }
    let xz: i128 = x * z;
    let xz_s: i128 = div_eu(xz, SCALE as i128);
    proof {
        lemma_div_bound(xz as int, SCALE as int, COORD_LIMIT as int * COORD_LIMIT as int);
        lemma_mul_bound(rh as int, x as int, PARAM_LIMIT as int, COORD_LIMIT as int);
    }
    let dyv: i128 = rh * x - y - xz_s;
    proof {
        lemma_mul_bound(dyv as int, dn as int, 1_002_000_000_000_000_002int, 1_000_000int);
        lemma_delta_bound(dyv as int, dn as int, dd as int, 1_002_000_000_000_000_002int);
    }
    let ddy: i128 = div_eu(dyv * dn, dd);
    let ny: i128 = y + ddy;

    // z: x * y / SCALE - beta * z, then the time step.
    proof {
        lemma_mul_bound(x as int, y as int, COORD_LIMIT as int, COORD_LIMIT as int);
    }
    let xy: i128 = x * y;
    let xy_s: i128 = div_eu(xy, SCALE as i128);
    proof {
        lemma_div_bound(xy as int, SCALE as int, COORD_LIMIT as int * COORD_LIMIT as int);
        lemma_mul_bound(bn as int, z as int, PARAM_LIMIT as int, COORD_LIMIT as int);
    }
    let bnz: i128 = bn * z;
    let bz: i128 = div_eu(bnz, bd);
    proof {
        lemma_div_bound(bnz as int, bd as int, 1_000_000_000_000_000int);
    }
    let dzv: i128 = xy_s - bz;
    proof {
        lemma_mul_bound(dzv as int, dn as int, 1_002_000_000_000_000_002int, 1_000_000int);
        lemma_delta_bound(dzv as int, dn as int, dd as int, 1_002_000_000_000_000_002int);
    }
    let ddz: i128 = div_eu(dzv * dn, dd);
    let nz: i128 = z + ddz;

    let r = State { x: nx as i64, y: ny as i64, z: nz as i64 };
    proof {
        assert(r.x as int == next_x_int(s, p));
        assert(r.y as int == next_y_int(s, p));
        assert(r.z as int == next_z_int(s, p));
        assert(r == step_state(s, p));
    }
    r
}

} // verus!
