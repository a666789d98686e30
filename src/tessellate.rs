use vstd::prelude::*;

use crate::curve::{bezier_at, bezier_curve, coords_valid, steps, xs_of, ys_of, CurveError};
use crate::field::{inch_to_pixel_x, inch_to_pixel_y, pixel_x, pixel_y};
use crate::geometry::{valid_coord, valid_pose};
use crate::movement::{valid_movement, Movement};

verus! {

/// Number of samples drawn for a segment: a two-point lateral is a straight
/// line and needs only its ends and middle; everything else gets twenty.
pub open spec fn sample_count(m: Movement) -> int {
    if m.ctrl.len() == 2 && m.kind is Lateral {
        3
    } else {
        20
    }
}

/// Pixel columns of the sampled curve of a segment.
pub open spec fn samples_x(m: Movement) -> Seq<i32> {
    Seq::new(
        sample_count(m) as nat,
        |k: int| pixel_x(bezier_at(xs_of(m.ctrl@), k, steps(sample_count(m)))) as i32,
    )
}

/// Pixel rows of the sampled curve of a segment.
pub open spec fn samples_y(m: Movement) -> Seq<i32> {
    Seq::new(
        sample_count(m) as nat,
        |k: int| pixel_y(bezier_at(ys_of(m.ctrl@), k, steps(sample_count(m)))) as i32,
    )
}

/// Whether a segment's curve is drawn: it has control points.
pub open spec fn drawn(m: Movement) -> bool {
    m.ctrl.len() > 0
}

/// The control points of every segment lie in the coordinate range.
pub open spec fn path_coords_valid(path: Seq<Movement>) -> bool {
    forall|i: int| 0 <= i < path.len() ==> coords_valid(#[trigger] path[i].ctrl@)
}

/// A valid path's control points lie in the coordinate range.
pub proof fn lemma_path_coords(path: Seq<Movement>)
    requires
        crate::movement::valid_path(crate::movement::path_models(path)),
    ensures
        path_coords_valid(path),
{
    assert forall|i: int| 0 <= i < path.len() implies coords_valid(#[trigger] path[i].ctrl@) by {
        assert(valid_movement(crate::movement::path_models(path)[i]));
        lemma_movement_coords(path[i]);
    }
}

/// A valid movement's control points lie in the coordinate range.
pub proof fn lemma_movement_coords(m: Movement)
    requires
        valid_movement(m@),
    ensures
        coords_valid(m.ctrl@),
{
    assert forall|k: int| 0 <= k < m.ctrl@.len() implies valid_coord(
        #[trigger] m.ctrl@[k].x as int,
    ) by {
        assert(valid_pose(m@.ctrl[k]));
    }
    assert forall|k: int| 0 <= k < m.ctrl@.len() implies valid_coord(
        #[trigger] m.ctrl@[k].y as int,
    ) by {
        assert(valid_pose(m@.ctrl[k]));
    }
}

/// Pixel columns of the drawn curves of the first `n` segments, in order.
pub open spec fn curve_x(path: Seq<Movement>, n: int) -> Seq<i32>
    decreases n,
{
    if n <= 0 {
        seq![]
    } else {
        curve_x(path, n - 1) + if drawn(path[n - 1]) {
            samples_x(path[n - 1])
        } else {
            seq![]
        }
    }
}

pub open spec fn curve_y(path: Seq<Movement>, n: int) -> Seq<i32>
    decreases n,
{
    if n <= 0 {
        seq![]
    } else {
        curve_y(path, n - 1) + if drawn(path[n - 1]) {
            samples_y(path[n - 1])
        } else {
            seq![]
        }
    }
}

/// Number of curve samples drawn for the first `n` segments: three for each
/// drawn two-point lateral, twenty for each other drawn segment.
pub open spec fn sample_total(path: Seq<Movement>, n: int) -> int
    decreases n,
{
    if n <= 0 {
        0
    } else {
        sample_total(path, n - 1) + if drawn(path[n - 1]) {
            sample_count(path[n - 1])
        } else {
            0
        }
    }
}

/// Pixel columns of every control point of the first `n` segments, in order.
pub open spec fn handles_x(path: Seq<Movement>, n: int) -> Seq<i32>
    decreases n,
{
    if n <= 0 {
        seq![]
    } else {
        handles_x(path, n - 1) + path[n - 1].ctrl@.map_values(|p: crate::geometry::Pose| pixel_x(p.x as int) as i32)
    }
}

pub open spec fn handles_y(path: Seq<Movement>, n: int) -> Seq<i32>
    decreases n,
{
    if n <= 0 {
        seq![]
    } else {
        handles_y(path, n - 1) + path[n - 1].ctrl@.map_values(|p: crate::geometry::Pose| pixel_y(p.y as int) as i32)
    }
}

/// Samples the curve of one segment and converts it to pixels.
pub fn sample_movement(m: &Movement) -> (r: Result<(Vec<i32>, Vec<i32>), CurveError>)
    requires
        coords_valid(m.ctrl@),
    ensures
        r == Err::<(Vec<i32>, Vec<i32>), CurveError>(CurveError::Empty) <==> m.ctrl.len() == 0,
        r matches Ok((xs, ys)) ==> xs@ == samples_x(*m) && ys@ == samples_y(*m),
        r is Ok <==> drawn(*m),
{
    let n: usize = if m.ctrl.len() == 2 && m.is_lateral() {
        3
    } else {
        20
    };
    let (xs, ys) = bezier_curve(&m.ctrl, n)?;
    let mut px: Vec<i32> = Vec::new();
    let mut py: Vec<i32> = Vec::new();
    let mut k: usize = 0;
    while k < n
        invariant
            n == sample_count(*m),
            xs.len() == n,
            ys.len() == n,
            forall|q: int|
                0 <= q < n ==> #[trigger] xs@[q] == bezier_at(xs_of(m.ctrl@), q, steps(n as int)),
            forall|q: int|
                0 <= q < n ==> #[trigger] ys@[q] == bezier_at(ys_of(m.ctrl@), q, steps(n as int)),
            k <= n,
            px@ =~= samples_x(*m).take(k as int),
            py@ =~= samples_y(*m).take(k as int),
        decreases n - k,
    {
        px.push(inch_to_pixel_x(xs[k]));
        py.push(inch_to_pixel_y(ys[k]));
        k += 1;
    }
    assert(samples_x(*m).take(n as int) =~= samples_x(*m));
    assert(samples_y(*m).take(n as int) =~= samples_y(*m));
    Ok((px, py))
}

/// Tessellates a path for display: the sampled curve of every segment in
/// pixels (a segment that is not `drawn` is left out), and the pixel
/// positions of every control point. The path is handed back unchanged.
pub fn redraw(control_points: Vec<Movement>) -> (r: (
    (Vec<i32>, Vec<i32>),
    (Vec<i32>, Vec<i32>),
    Vec<Movement>,
))
    requires
        path_coords_valid(control_points@),
    ensures
        r.2 == control_points,
        r.1.0@ == handles_x(control_points@, control_points.len() as int),
        r.1.1@ == handles_y(control_points@, control_points.len() as int),
        r.0.0@ == curve_x(control_points@, control_points.len() as int),
        r.0.1@ == curve_y(control_points@, control_points.len() as int),
        r.0.0@.len() == sample_total(control_points@, control_points.len() as int),
{
    let ghost path = control_points@;
    let mut out_x: Vec<i32> = Vec::new();
    let mut out_y: Vec<i32> = Vec::new();
    let mut hx: Vec<i32> = Vec::new();
    let mut hy: Vec<i32> = Vec::new();
    let mut i: usize = 0;
    while i < control_points.len()
        invariant
            path == control_points@,
            path_coords_valid(path),
            i <= control_points.len(),
            out_x@ == curve_x(path, i as int),
            out_y@ == curve_y(path, i as int),
            out_x@.len() == sample_total(path, i as int),
            hx@ == handles_x(path, i as int),
            hy@ == handles_y(path, i as int),
        decreases control_points.len() - i,
    {
        let m = &control_points[i];
        match sample_movement(m) {
            Ok((mut xs, mut ys)) => {
                out_x.append(&mut xs);
                out_y.append(&mut ys);
            },
            Err(_) => {},
        }
        let ghost hx0 = hx@;
        let ghost hy0 = hy@;
        let mut j: usize = 0;
        while j < m.ctrl.len()
            invariant
                j <= m.ctrl.len(),
                hx@ =~= hx0 + m.ctrl@.map_values(|p: crate::geometry::Pose| pixel_x(p.x as int) as i32).take(j as int),
                hy@ =~= hy0 + m.ctrl@.map_values(|p: crate::geometry::Pose| pixel_y(p.y as int) as i32).take(j as int),
            decreases m.ctrl.len() - j,
        {
            hx.push(inch_to_pixel_x(m.ctrl[j].x));
            hy.push(inch_to_pixel_y(m.ctrl[j].y));
            j += 1;
        }
        proof {
            assert(m.ctrl@.map_values(|p: crate::geometry::Pose| pixel_x(p.x as int) as i32).take(j as int)
                =~= m.ctrl@.map_values(|p: crate::geometry::Pose| pixel_x(p.x as int) as i32));
            assert(m.ctrl@.map_values(|p: crate::geometry::Pose| pixel_y(p.y as int) as i32).take(j as int)
                =~= m.ctrl@.map_values(|p: crate::geometry::Pose| pixel_y(p.y as int) as i32));
        }
        i += 1;
    }
    ((out_x, out_y), (hx, hy), control_points)
}

} // verus!
