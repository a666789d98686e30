use vstd::prelude::*;

use crate::curve::{bezier_at, bezier_curve, steps, xs_of, ys_of};
use crate::tessellate::path_coords_valid;
use crate::geometry::Heading;
use crate::movement::{Kind, Movement};

verus! {

/// Samples per follow curve in a route export.
pub const ROUTE_SAMPLES: usize = 20;

/// Samples in the export of a single follow curve.
pub const MOVEMENT_SAMPLES: usize = 10;

/// What the controller is told about one segment.
#[derive(Clone, Debug)]
pub enum ExportBlock {
    /// A follow curve: its parameters and sampled points.
    Route { end_tol: i64, timeout: i32, lookahead: i64, xs: Vec<i64>, ys: Vec<i64> },
    /// A straight travel.
    Lateral { distance: i64, end_tol: i64, timeout: i32 },
    /// A named side effect.
    Command { name: String },
    /// A rotation in place.
    Turn { angle: Heading, end_tol: i64, timeout: i32 },
}

/// The samples of a curve through `m`'s control points at `n` parameters.
pub open spec fn sampled(m: Movement, n: int, xs: Seq<i64>, ys: Seq<i64>) -> bool {
    &&& xs.len() == n
    &&& ys.len() == n
    &&& forall|k: int| 0 <= k < n ==> #[trigger] xs[k] == bezier_at(xs_of(m.ctrl@), k, steps(n))
    &&& forall|k: int| 0 <= k < n ==> #[trigger] ys[k] == bezier_at(ys_of(m.ctrl@), k, steps(n))
}

/// The block exported for a segment. A follow curve carries its samples, or
/// none when it has no control points.
pub open spec fn block_of(m: Movement, b: ExportBlock) -> bool {
    match m.kind {
        Kind::Follow => match b {
            ExportBlock::Route { end_tol, timeout, lookahead, xs, ys } => {
                &&& end_tol == m.end_tol
                &&& timeout == m.timeout
                &&& lookahead == m.lookahead
                &&& m.ctrl@.len() > 0 ==> sampled(m, ROUTE_SAMPLES as int, xs@, ys@)
                &&& m.ctrl@.len() == 0 ==> xs@.len() == 0 && ys@.len() == 0
            },
            _ => false,
        },
        Kind::Lateral { distance } => b == ExportBlock::Lateral {
            distance,
            end_tol: m.end_tol,
            timeout: m.timeout,
        },
        Kind::Command => match b {
            ExportBlock::Command { name } => name@ == m.name@,
            _ => false,
        },
        Kind::Turn { angle } => b == ExportBlock::Turn {
            angle,
            end_tol: m.end_tol,
            timeout: m.timeout,
        },
    }
}

/// The export of a path: one block per segment, in order.
pub fn export_route(path: &Vec<Movement>) -> (r: Vec<ExportBlock>)
    requires
        path_coords_valid(path@),
    ensures
        r.len() == path.len(),
        forall|i: int| 0 <= i < path.len() ==> #[trigger] block_of(path@[i], r@[i]),
{
    let mut out: Vec<ExportBlock> = Vec::new();
    let mut i: usize = 0;
    while i < path.len()
        invariant
            path_coords_valid(path@),
            i <= path.len(),
            out.len() == i,
            forall|q: int| 0 <= q < i ==> #[trigger] block_of(path@[q], out@[q]),
        decreases path.len() - i,
    {
        let m = &path[i];
        let b = match m.kind {
            Kind::Follow => {
                let (xs, ys) = match bezier_curve(&m.ctrl, ROUTE_SAMPLES) {
                    Ok(s) => s,
                    Err(_) => (Vec::new(), Vec::new()),
                };
                ExportBlock::Route { end_tol: m.end_tol, timeout: m.timeout, lookahead: m.lookahead, xs, ys }
            },
            Kind::Lateral { distance } => ExportBlock::Lateral {
                distance,
                end_tol: m.end_tol,
                timeout: m.timeout,
            },
            Kind::Command => ExportBlock::Command { name: m.name.clone() },
            Kind::Turn { angle } => ExportBlock::Turn { angle, end_tol: m.end_tol, timeout: m.timeout },
        };
        out.push(b);
        i += 1;
    }
    out
}

/// The samples of the first segment with id `id` that is a follow curve of
/// more than two control points; `None` when there is no such segment. The
/// samples are those of `MOVEMENT_SAMPLES` evenly spaced parameters.
pub fn export_movement(path: &Vec<Movement>, id: i32) -> (r: Option<(Vec<i64>, Vec<i64>)>)
    requires
        path_coords_valid(path@),
    ensures
        r is None <==> forall|i: int|
            0 <= i < path.len() ==> !(#[trigger] path@[i].id == id && path@[i].kind is Follow
                && path@[i].ctrl@.len() > 2),
        r matches Some((xs, ys)) ==> exists|i: int|
            0 <= i < path.len() && #[trigger] path@[i].id == id && path@[i].kind is Follow
                && path@[i].ctrl@.len() > 2 && (forall|q: int|
                0 <= q < i ==> !(#[trigger] path@[q].id == id && path@[q].kind is Follow
                    && path@[q].ctrl@.len() > 2)) && sampled(path@[i], MOVEMENT_SAMPLES as int, xs@, ys@),
{
    let mut i: usize = 0;
    while i < path.len()
        invariant
            path_coords_valid(path@),
            i <= path.len(),
            forall|q: int|
                0 <= q < i ==> !(#[trigger] path@[q].id == id && path@[q].kind is Follow
                    && path@[q].ctrl@.len() > 2),
        decreases path.len() - i,
    {
        let m = &path[i];
        if m.id == id && m.is_follow() && m.ctrl.len() > 2 {
            let s = match bezier_curve(&m.ctrl, MOVEMENT_SAMPLES) {
                Ok(s) => s,
                Err(_) => (Vec::new(), Vec::new()),
            };
            assert(path@[i as int].id == id);
            return Some(s);
        }
        i += 1;
    }
    None
}

} // verus!
