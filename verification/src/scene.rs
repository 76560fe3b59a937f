//! The per-frame scene computation: axis bounds scanned from the whole
//! snapshot (deliberately recomputed from scratch every frame, O(length)
//! per frame), a capped set of light grid lines per axis, and the ordered
//! polyline segments through every visited state. The 3D camera
//! projection itself belongs to the drawing surface and its driver; this
//! module produces everything the projection consumes.

use vstd::prelude::*;
use crate::model::State;
use crate::model::STORE_LIMIT;
use crate::error::FrameError;

verus! {

/// Spacing of the light grid lines: a tenth of a phase-space unit.
pub const GRID_STEP: i64 = 100_000;

/// Visual cap on the number of light grid lines per axis.
pub const MAX_LIGHT_LINES: usize = 3;

/// A per-axis (min, max) pair derived from the full trajectory at render
/// time.
#[derive(Clone, Copy, Debug, PartialEq, Eq, Structural)]
pub struct AxisBounds {
    pub min: i64,
    pub max: i64,
}

/// The bounds of all three axes.
#[derive(Clone, Copy, Debug, PartialEq, Eq, Structural)]
pub struct SceneBounds {
    pub x: AxisBounds,
    pub y: AxisBounds,
    pub z: AxisBounds,
}

/// One line segment of the drawn polyline.
#[derive(Clone, Copy, Debug, PartialEq, Eq, Structural)]
pub struct Segment {
    pub a: State,
    pub b: State,
}

/// Everything one frame draws: bounds, the reference grid per axis, and
/// the polyline through the whole history. Rebuilt fully every frame,
/// never cached across frames.
#[derive(Clone, Debug)]
pub struct Scene {
    pub bounds: SceneBounds,
    pub grid_x: Vec<i64>,
    pub grid_y: Vec<i64>,
    pub grid_z: Vec<i64>,
    pub segments: Vec<Segment>,
}

/// The x coordinates of a state sequence, as unbounded integers.
pub open spec fn xs(s: Seq<State>) -> Seq<int> {
    s.map_values(|st: State| st.x as int)
}

/// The y coordinates of a state sequence, as unbounded integers.
pub open spec fn ys(s: Seq<State>) -> Seq<int> {
    s.map_values(|st: State| st.y as int)
}

/// The z coordinates of a state sequence, as unbounded integers.
pub open spec fn zs(s: Seq<State>) -> Seq<int> {
    s.map_values(|st: State| st.z as int)
}

/// The least element of a non-empty integer sequence (0 on an empty one,
/// where it is never used).
pub open spec fn seq_min(s: Seq<int>) -> int
    decreases s.len(),
{
    if s.len() == 0 {
        0
    } else if s.len() == 1 {
        s[0]
    } else {
        let m = seq_min(s.drop_last());
        if s.last() < m {
            s.last()
        } else {
            m
        }
    }
}

/// The greatest element of a non-empty integer sequence.
pub open spec fn seq_max(s: Seq<int>) -> int
    decreases s.len(),
{
    if s.len() == 0 {
        0
    } else if s.len() == 1 {
        s[0]
    } else {
        let m = seq_max(s.drop_last());
        if s.last() > m {
            s.last()
        } else {
            m
        }
    }
}

/// `seq_min` and `seq_max` are the true minimum and maximum: they bound
/// every element and are themselves attained.
pub proof fn lemma_seq_min_max(s: Seq<int>)
    requires
        s.len() >= 1,
    ensures
        forall|i: int| 0 <= i < s.len() ==> seq_min(s) <= #[trigger] s[i] && s[i] <= seq_max(s),
        exists|i: int| 0 <= i < s.len() && #[trigger] s[i] == seq_min(s),
        exists|i: int| 0 <= i < s.len() && #[trigger] s[i] == seq_max(s),
    decreases s.len(),
{
    if s.len() == 1 {
        assert(s[0] == seq_min(s));
        assert(s[0] == seq_max(s));
    } else {
        let dl = s.drop_last();
        lemma_seq_min_max(dl);
        assert forall|i: int| 0 <= i < s.len() implies
            seq_min(s) <= #[trigger] s[i] && s[i] <= seq_max(s) by {
            if i < s.len() - 1 {
                assert(dl[i] == s[i]);
                assert(seq_min(dl) <= dl[i]);
                assert(dl[i] <= seq_max(dl));
            } else {
                assert(s[i] == s.last());
            }
        }
        let wn = choose|i: int| 0 <= i < dl.len() && #[trigger] dl[i] == seq_min(dl);
        let wx = choose|i: int| 0 <= i < dl.len() && #[trigger] dl[i] == seq_max(dl);
        if s.last() < seq_min(dl) {
            assert(s[s.len() - 1] == seq_min(s));
        } else {
            assert(s[wn] == seq_min(s));
        }
        if s.last() > seq_max(dl) {
            assert(s[s.len() - 1] == seq_max(s));
        } else {
            assert(s[wx] == seq_max(s));
        }
    }
}

/// The exact per-axis bounds of a snapshot. A pure function of the
/// snapshot alone, so recomputing it on an unchanged snapshot gives the
/// same value every time.
pub open spec fn bounds_spec(s: Seq<State>) -> SceneBounds {
    SceneBounds {
        x: AxisBounds { min: seq_min(xs(s)) as i64, max: seq_max(xs(s)) as i64 },
        y: AxisBounds { min: seq_min(ys(s)) as i64, max: seq_max(ys(s)) as i64 },
        z: AxisBounds { min: seq_min(zs(s)) as i64, max: seq_max(zs(s)) as i64 },
    }
}

/// On any non-empty snapshot, `bounds_spec` brackets every point on every
/// axis, and each of the six bounds is attained by some point.
pub proof fn lemma_bounds_minmax(s: Seq<State>)
    requires
        s.len() >= 1,
    ensures
        forall|i: int| 0 <= i < s.len() ==> {
            let st = #[trigger] s[i];
            bounds_spec(s).x.min <= st.x <= bounds_spec(s).x.max
                && bounds_spec(s).y.min <= st.y <= bounds_spec(s).y.max
                && bounds_spec(s).z.min <= st.z <= bounds_spec(s).z.max
        },
        exists|i: int| 0 <= i < s.len() && (#[trigger] s[i]).x == bounds_spec(s).x.min,
        exists|i: int| 0 <= i < s.len() && (#[trigger] s[i]).x == bounds_spec(s).x.max,
        exists|i: int| 0 <= i < s.len() && (#[trigger] s[i]).y == bounds_spec(s).y.min,
        exists|i: int| 0 <= i < s.len() && (#[trigger] s[i]).y == bounds_spec(s).y.max,
        exists|i: int| 0 <= i < s.len() && (#[trigger] s[i]).z == bounds_spec(s).z.min,
        exists|i: int| 0 <= i < s.len() && (#[trigger] s[i]).z == bounds_spec(s).z.max,
{
    lemma_seq_min_max(xs(s));
    lemma_seq_min_max(ys(s));
    lemma_seq_min_max(zs(s));
    let wxn = choose|i: int| 0 <= i < xs(s).len() && #[trigger] xs(s)[i] == seq_min(xs(s));
    let wxx = choose|i: int| 0 <= i < xs(s).len() && #[trigger] xs(s)[i] == seq_max(xs(s));
    let wyn = choose|i: int| 0 <= i < ys(s).len() && #[trigger] ys(s)[i] == seq_min(ys(s));
    let wyx = choose|i: int| 0 <= i < ys(s).len() && #[trigger] ys(s)[i] == seq_max(ys(s));
    let wzn = choose|i: int| 0 <= i < zs(s).len() && #[trigger] zs(s)[i] == seq_min(zs(s));
    let wzx = choose|i: int| 0 <= i < zs(s).len() && #[trigger] zs(s)[i] == seq_max(zs(s));
    assert(s[wxn].x == bounds_spec(s).x.min);
    assert(s[wxx].x == bounds_spec(s).x.max);
    assert(s[wyn].y == bounds_spec(s).y.min);
    assert(s[wyx].y == bounds_spec(s).y.max);
    assert(s[wzn].z == bounds_spec(s).z.min);
    assert(s[wzx].z == bounds_spec(s).z.max);
    assert forall|i: int| 0 <= i < s.len() implies {
        let st = #[trigger] s[i];
        bounds_spec(s).x.min <= st.x <= bounds_spec(s).x.max
            && bounds_spec(s).y.min <= st.y <= bounds_spec(s).y.max
            && bounds_spec(s).z.min <= st.z <= bounds_spec(s).z.max
    } by {
        assert(xs(s)[i] == s[i].x as int);
        assert(ys(s)[i] == s[i].y as int);
        assert(zs(s)[i] == s[i].z as int);
    }
}

/// Scan the whole snapshot for the per-axis minima and maxima. Fails with
/// `PreconditionViolation` exactly on the empty snapshot, where no bound
/// is defined; on a non-empty one the result is exactly `bounds_spec`.
#[verifier::loop_isolation(false)]
pub fn compute_bounds(pts: &Vec<State>) -> (r: Result<SceneBounds, FrameError>)
    ensures
        pts@.len() == 0 ==> r == Err::<SceneBounds, FrameError>(FrameError::PreconditionViolation),
        pts@.len() >= 1 ==> r == Ok::<SceneBounds, FrameError>(bounds_spec(pts@)),
{
    let n = pts.len();
    if n == 0 {
        return Err(FrameError::PreconditionViolation);
    }
    let ghost sx = xs(pts@);
    let ghost sy = ys(pts@);
    let ghost sz = zs(pts@);
    let first = pts[0];
    let mut mnx = first.x;
    let mut mxx = first.x;
    let mut mny = first.y;
    let mut mxy = first.y;
    let mut mnz = first.z;
    let mut mxz = first.z;
    proof {
        assert(sx.subrange(0, 1) =~= seq![first.x as int]);
        assert(sy.subrange(0, 1) =~= seq![first.y as int]);
        assert(sz.subrange(0, 1) =~= seq![first.z as int]);
    }
    let mut i: usize = 1;
    while i < n
        invariant
            1 <= i <= n,
            mnx as int == seq_min(sx.subrange(0, i as int)),
            mxx as int == seq_max(sx.subrange(0, i as int)),
            mny as int == seq_min(sy.subrange(0, i as int)),
            mxy as int == seq_max(sy.subrange(0, i as int)),
            mnz as int == seq_min(sz.subrange(0, i as int)),
            mxz as int == seq_max(sz.subrange(0, i as int)),
        decreases n - i,
    {
        let s = pts[i];
        proof {
            assert(sx.subrange(0, i + 1).drop_last() =~= sx.subrange(0, i as int));
            assert(sy.subrange(0, i + 1).drop_last() =~= sy.subrange(0, i as int));
            assert(sz.subrange(0, i + 1).drop_last() =~= sz.subrange(0, i as int));
            assert(sx.subrange(0, i + 1).last() == s.x as int);
            assert(sy.subrange(0, i + 1).last() == s.y as int);
            assert(sz.subrange(0, i + 1).last() == s.z as int);
        }
        if s.x < mnx {
            mnx = s.x;
        }
        if s.x > mxx {
            mxx = s.x;
        }
        if s.y < mny {
            mny = s.y;
        }
        if s.y > mxy {
            mxy = s.y;
        }
        if s.z < mnz {
            mnz = s.z;
        }
        if s.z > mxz {
            mxz = s.z;
        }
        i = i + 1;
    }
    proof {
        assert(sx.subrange(0, n as int) =~= sx);
        assert(sy.subrange(0, n as int) =~= sy);
        assert(sz.subrange(0, n as int) =~= sz);
    }
    let b = SceneBounds {
        x: AxisBounds { min: mnx, max: mxx },
        y: AxisBounds { min: mny, max: mxy },
        z: AxisBounds { min: mnz, max: mxz },
    };
    proof {
        assert(b == bounds_spec(pts@));
    }
    Ok(b)
}

/// What the light grid of one axis must look like: evenly spaced lines
/// strictly inside the range, capped at `max_lines`, and as many as the
/// cap and the range allow.
pub open spec fn grid_ok(g: Seq<i64>, axis: AxisBounds, step_size: int, max_lines: int) -> bool {
    &&& g.len() <= max_lines
    &&& forall|k: int| 0 <= k < g.len() ==> #[trigger] g[k] == axis.min + (k + 1) * step_size
        && g[k] < axis.max
    &&& g.len() < max_lines ==> axis.min + (g.len() + 1) * step_size >= axis.max
}

/// The light grid line positions of one axis: `min + step`, `min +
/// 2*step`, ... while below `max`, at most `max_lines` of them.
#[verifier::loop_isolation(false)]
pub fn grid_lines(axis: AxisBounds, step_size: i64, max_lines: usize) -> (r: Vec<i64>)
    requires
        1 <= step_size,
        axis.min <= axis.max,
        axis.max + step_size <= i64::MAX,
    ensures
        grid_ok(r@, axis, step_size as int, max_lines as int),
{
    let mut r: Vec<i64> = Vec::new();
    let mut cur: i64 = axis.min;
    let mut k: usize = 0;
    while k < max_lines && cur + step_size < axis.max
        invariant
            k == r@.len(),
            k <= max_lines,
            cur == axis.min + k * step_size,
            axis.min <= cur <= axis.max,
            forall|j: int| 0 <= j < k ==> #[trigger] r@[j] == axis.min + (j + 1) * step_size
                && r@[j] < axis.max,
        decreases max_lines - k,
    {
        proof {
            assert((k + 1) * step_size == k * step_size + step_size) by (nonlinear_arith);
        }
        let cand = cur + step_size;
        r.push(cand);
        cur = cand;
        k = k + 1;
    }
    proof {
        assert((k + 1) * step_size == k * step_size + step_size) by (nonlinear_arith);
    }
    r
}

/// The ordered polyline through the snapshot: segment `i` connects point
/// `i` to point `i + 1`.
#[verifier::loop_isolation(false)]
pub fn polyline_segments(pts: &Vec<State>) -> (r: Vec<Segment>)
    ensures
        pts@.len() == 0 ==> r@.len() == 0,
        pts@.len() >= 1 ==> r@.len() == pts@.len() - 1,
        forall|i: int| 0 <= i < r@.len() ==> #[trigger] r@[i]
            == (Segment { a: pts@[i], b: pts@[i + 1] }),
{
    let mut r: Vec<Segment> = Vec::new();
    let n = pts.len();
    if n == 0 {
        return r;
    }
    let mut i: usize = 0;
    while i < n - 1
        invariant
            i <= n - 1,
            r@.len() == i,
            forall|j: int| 0 <= j < i ==> #[trigger] r@[j]
                == (Segment { a: pts@[j], b: pts@[j + 1] }),
        decreases n - i,
    {
        r.push(Segment { a: pts[i], b: pts[i + 1] });
        i = i + 1;
    }
    r
}

/// What a correctly built scene for snapshot `s` looks like: the exact
/// bounds, a correct light grid per axis, and the full ordered polyline.
pub open spec fn scene_ok(sc: Scene, s: Seq<State>) -> bool {
    &&& sc.bounds == bounds_spec(s)
    &&& grid_ok(sc.grid_x@, sc.bounds.x, GRID_STEP as int, MAX_LIGHT_LINES as int)
    &&& grid_ok(sc.grid_y@, sc.bounds.y, GRID_STEP as int, MAX_LIGHT_LINES as int)
    &&& grid_ok(sc.grid_z@, sc.bounds.z, GRID_STEP as int, MAX_LIGHT_LINES as int)
    &&& sc.segments@.len() == s.len() - 1
    &&& forall|i: int| 0 <= i < sc.segments@.len() ==> #[trigger] sc.segments@[i]
        == (Segment { a: s[i], b: s[i + 1] })
}

/// Build the full drawable scene from a snapshot: exact bounds, the
/// capped light grid of each axis, and the complete polyline. Fails with
/// `PreconditionViolation` exactly on the empty snapshot. Rebuilt from
/// scratch by every frame; nothing here is cached.
pub fn build_scene(pts: &Vec<State>) -> (r: Result<Scene, FrameError>)
    requires
        forall|i: int| 0 <= i < pts@.len() ==> (#[trigger] pts@[i]).bounded(),
    ensures
        pts@.len() == 0 <==> r is Err,
        r is Err ==> r == Err::<Scene, FrameError>(FrameError::PreconditionViolation),
        r is Ok ==> scene_ok(r->Ok_0, pts@),
{
    let bounds = match compute_bounds(pts) {
        Ok(b) => b,
        Err(e) => {
            return Err(e);
        },
    };
    proof {
        lemma_bounds_minmax(pts@);
        let wxn = choose|i: int| 0 <= i < pts@.len()
            && (#[trigger] pts@[i]).x == bounds_spec(pts@).x.min;
        let wxx = choose|i: int| 0 <= i < pts@.len()
            && (#[trigger] pts@[i]).x == bounds_spec(pts@).x.max;
        let wyn = choose|i: int| 0 <= i < pts@.len()
            && (#[trigger] pts@[i]).y == bounds_spec(pts@).y.min;
        let wyx = choose|i: int| 0 <= i < pts@.len()
            && (#[trigger] pts@[i]).y == bounds_spec(pts@).y.max;
        let wzn = choose|i: int| 0 <= i < pts@.len()
            && (#[trigger] pts@[i]).z == bounds_spec(pts@).z.min;
        let wzx = choose|i: int| 0 <= i < pts@.len()
            && (#[trigger] pts@[i]).z == bounds_spec(pts@).z.max;
        assert(pts@[wxn].bounded() && pts@[wxx].bounded());
        assert(pts@[wyn].bounded() && pts@[wyx].bounded());
        assert(pts@[wzn].bounded() && pts@[wzx].bounded());
        assert(bounds.x.min <= pts@[0].x <= bounds.x.max);
        assert(bounds.y.min <= pts@[0].y <= bounds.y.max);
        assert(bounds.z.min <= pts@[0].z <= bounds.z.max);
        assert(-STORE_LIMIT <= bounds.x.max <= STORE_LIMIT);
        assert(-STORE_LIMIT <= bounds.y.max <= STORE_LIMIT);
        assert(-STORE_LIMIT <= bounds.z.max <= STORE_LIMIT);
    }
    let grid_x = grid_lines(bounds.x, GRID_STEP, MAX_LIGHT_LINES);
    let grid_y = grid_lines(bounds.y, GRID_STEP, MAX_LIGHT_LINES);
    let grid_z = grid_lines(bounds.z, GRID_STEP, MAX_LIGHT_LINES);
    let segments = polyline_segments(pts);
    Ok(Scene { bounds, grid_x, grid_y, grid_z, segments })
}

} // verus!
