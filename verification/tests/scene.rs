use lorenz_plot::model::initial_state;
use lorenz_plot::model::lorenz_params;
use lorenz_plot::scene::build_scene;
use lorenz_plot::scene::compute_bounds;
use lorenz_plot::scene::grid_lines;
use lorenz_plot::scene::polyline_segments;
use lorenz_plot::AxisBounds;
use lorenz_plot::FrameError;
use lorenz_plot::SceneBounds;
use lorenz_plot::Segment;
use lorenz_plot::Simulation;
use lorenz_plot::State;

#[test]
fn bounds_are_exact_per_axis() {
    let pts = vec![
        State { x: 3, y: -7, z: 100 },
        State { x: -2, y: 9, z: 100 },
        State { x: 5, y: 0, z: 42 },
    ];
    let b = compute_bounds(&pts).unwrap();
    assert_eq!(
        b,
        SceneBounds {
            x: AxisBounds { min: -2, max: 5 },
            y: AxisBounds { min: -7, max: 9 },
            z: AxisBounds { min: 42, max: 100 },
        }
    );
}

#[test]
fn bounds_of_single_point_collapse_to_it() {
    let pts = vec![State { x: 11, y: -4, z: 0 }];
    let b = compute_bounds(&pts).unwrap();
    assert_eq!(b.x, AxisBounds { min: 11, max: 11 });
    assert_eq!(b.y, AxisBounds { min: -4, max: -4 });
    assert_eq!(b.z, AxisBounds { min: 0, max: 0 });
}

#[test]
fn bounds_handle_equal_values_and_ties() {
    let pts = vec![
        State { x: 7, y: 7, z: 7 },
        State { x: 7, y: 7, z: 7 },
    ];
    let b = compute_bounds(&pts).unwrap();
    assert_eq!(b.x, AxisBounds { min: 7, max: 7 });
}

#[test]
fn bounds_recomputation_is_idempotent() {
    let mut sim = Simulation::new(initial_state(), lorenz_params());
    assert_eq!(sim.tick(), Ok(()));
    let first = compute_bounds(sim.snapshot()).unwrap();
    let second = compute_bounds(sim.snapshot()).unwrap();
    assert_eq!(first, second);
}

#[test]
fn bounds_on_empty_trajectory_fail() {
    let pts: Vec<State> = Vec::new();
    assert_eq!(compute_bounds(&pts), Err(FrameError::PreconditionViolation));
    assert!(matches!(build_scene(&pts), Err(FrameError::PreconditionViolation)));
}

#[test]
fn grid_lines_are_evenly_spaced_and_capped() {
    // Room for only two lines below the maximum.
    let g = grid_lines(AxisBounds { min: 0, max: 250_000 }, 100_000, 3);
    assert_eq!(g, vec![100_000, 200_000]);
    // A wide axis is capped at the maximum number of lines.
    let g = grid_lines(AxisBounds { min: -100_000, max: 10_000_000 }, 100_000, 3);
    assert_eq!(g, vec![0, 100_000, 200_000]);
    // A degenerate axis has no room at all.
    let g = grid_lines(AxisBounds { min: 5, max: 5 }, 100_000, 3);
    assert!(g.is_empty());
}

#[test]
fn polyline_connects_consecutive_points() {
    let a = State { x: 0, y: 0, z: 0 };
    let b = State { x: 1, y: 1, z: 1 };
    let c = State { x: 2, y: 4, z: 8 };
    let segs = polyline_segments(&vec![a, b, c]);
    assert_eq!(segs, vec![Segment { a, b }, Segment { a: b, b: c }]);
    assert!(polyline_segments(&vec![a]).is_empty());
    assert!(polyline_segments(&Vec::new()).is_empty());
}

#[test]
fn frame_scene_covers_whole_history() {
    let mut sim = Simulation::new(initial_state(), lorenz_params());
    let scene = sim.on_tick().unwrap();
    let snapshot = sim.snapshot();
    assert_eq!(snapshot.len(), 201);
    assert_eq!(scene.segments.len(), 200);
    assert_eq!(scene.segments[0].a, snapshot[0]);
    assert_eq!(scene.segments[199].b, snapshot[200]);
    assert_eq!(scene.bounds, compute_bounds(snapshot).unwrap());
    assert!(scene.grid_x.len() <= 3);
    assert!(scene.grid_y.len() <= 3);
    assert!(scene.grid_z.len() <= 3);
}
