use lorenz_plot::model::initial_state;
use lorenz_plot::model::lorenz_params;
use lorenz_plot::integrator::step;
use lorenz_plot::Params;
use lorenz_plot::State;

#[test]
fn step_matches_euler_formula() {
    // From (0, 1, 1.05) with sigma=10, rho=28, beta=8/3, dt=0.001:
    //   x' = 0 + 0.001 * 10 * (1 - 0)            = 0.01
    //   y' = 1 + 0.001 * (28*0 - 1 - 0*1.05)     = 0.999
    //   z' = 1.05 + 0.001 * (0*1 - (8/3)*1.05)   = 1.0472
    // in millionths: (10_000, 999_000, 1_047_200).
    let p = lorenz_params();
    let s = initial_state();
    let r = step(s, p);
    assert_eq!(r, State { x: 10_000, y: 999_000, z: 1_047_200 });
}

#[test]
fn step_is_deterministic() {
    let p = lorenz_params();
    let s = State { x: 5_000_000, y: -2_500_000, z: 30_000_000 };
    assert_eq!(step(s, p), step(s, p));
}

#[test]
fn step_from_origin_stays_at_origin_without_drive() {
    // With y = x = z = 0 every derivative is zero.
    let p = lorenz_params();
    let s = State { x: 0, y: 0, z: 0 };
    assert_eq!(step(s, p), s);
}

#[test]
fn step_with_unit_time_step() {
    // dt = 1 makes the update x' = x + sigma*(y - x) exactly.
    let p = Params { sigma: 2, rho: 1, beta_num: 1, beta_den: 1, dt_num: 1, dt_den: 1 };
    let s = State { x: 1_000_000, y: 3_000_000, z: 0 };
    let r = step(s, p);
    // x' = 1 + 2*(3 - 1) = 5
    assert_eq!(r.x, 5_000_000);
    // y' = 3 + (1*1 - 3 - 1*0) = 1
    assert_eq!(r.y, 1_000_000);
    // z' = 0 + (1*3 - 0) = 3
    assert_eq!(r.z, 3_000_000);
}
