use lorenz_plot::model::initial_state;
use lorenz_plot::model::lorenz_params;
use lorenz_plot::FrameError;
use lorenz_plot::Simulation;
use lorenz_plot::State;
use lorenz_plot::Trajectory;

#[test]
fn history_grows_by_two_hundred_per_tick() {
    let mut sim = Simulation::new(initial_state(), lorenz_params());
    assert_eq!(sim.len(), 1);
    for k in 1..=4usize {
        assert_eq!(sim.tick(), Ok(()));
        assert_eq!(sim.len(), 1 + 200 * k);
    }
}

#[test]
fn history_prefix_unchanged_after_tick() {
    let mut sim = Simulation::new(initial_state(), lorenz_params());
    assert_eq!(sim.tick(), Ok(()));
    let before: Vec<State> = sim.snapshot().clone();
    assert_eq!(sim.tick(), Ok(()));
    let after = sim.snapshot();
    assert_eq!(after.len(), before.len() + 200);
    for i in 0..before.len() {
        assert_eq!(after[i], before[i]);
    }
}

#[test]
fn runs_from_same_seed_are_identical() {
    let mut a = Simulation::new(initial_state(), lorenz_params());
    let mut b = Simulation::new(initial_state(), lorenz_params());
    for _ in 0..5 {
        assert_eq!(a.tick(), Ok(()));
        assert_eq!(b.tick(), Ok(()));
    }
    let sa = a.snapshot();
    let sb = b.snapshot();
    assert_eq!(sa.len(), sb.len());
    for i in 0..sa.len() {
        assert_eq!(sa[i], sb[i]);
    }
}

#[test]
fn tick_on_out_of_range_state_fails_and_leaves_history() {
    // x is beyond the integrable range, the fixed-point counterpart of a
    // non-finite coordinate.
    let far = State { x: 2_000_000_000_000, y: 0, z: 0 };
    let mut sim = Simulation::new(far, lorenz_params());
    assert_eq!(sim.tick(), Err(FrameError::PreconditionViolation));
    assert_eq!(sim.len(), 1);
    assert_eq!(sim.snapshot()[0], far);
}

#[test]
fn trajectory_seed_and_append_keep_order() {
    let a = State { x: 1, y: 2, z: 3 };
    let b = State { x: 4, y: 5, z: 6 };
    let c = State { x: 7, y: 8, z: 9 };
    let mut t = Trajectory::seed(a);
    assert_eq!(t.len(), 1);
    t.append(vec![b, c]);
    assert_eq!(t.len(), 3);
    assert_eq!(t.at(0), a);
    assert_eq!(t.at(1), b);
    assert_eq!(t.at(2), c);
    assert_eq!(t.last(), c);
}

#[test]
fn trajectory_advance_matches_repeated_step() {
    let p = lorenz_params();
    let mut t = Trajectory::seed(initial_state());
    assert_eq!(t.advance(p, 3), Ok(()));
    assert_eq!(t.len(), 4);
    let mut cur = initial_state();
    for i in 1..4usize {
        cur = lorenz_plot::integrator::step(cur, p);
        assert_eq!(t.at(i), cur);
    }
}

#[test]
fn memory_growth_is_linear_in_tick_count() {
    // No eviction and no windowing: the buffer holds exactly the seed
    // plus 200 states per tick, whatever came before.
    let mut sim = Simulation::new(initial_state(), lorenz_params());
    for _ in 0..10 {
        assert_eq!(sim.tick(), Ok(()));
    }
    assert_eq!(sim.snapshot().len(), 1 + 200 * 10);
}

#[test]
fn error_messages_name_each_failure() {
    assert_eq!(FrameError::PreconditionViolation.message(), "precondition violation");
    assert_eq!(FrameError::SurfaceUnavailable.message(), "drawing surface unavailable");
    assert_eq!(FrameError::RenderIoFailure.message(), "render or flush failure");
}
