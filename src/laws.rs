use vstd::prelude::*;

use crate::geometry::{
    clamp_coord, direction, displaced, heading_between, lemma_direction_bound,
    lemma_offset_bound, offset, valid_coord, valid_pose, PoseModel,
};
use crate::movement::{valid_movement, valid_path, Kind, MovementModel};
use crate::propagate::{
    end_pose, inherits, lemma_propagate_len, propagate, settle_segment,
};

verus! {

/// The pose the propagation pass has reached when it comes to segment `i`.
pub open spec fn incoming(path: Seq<MovementModel>, edited: (usize, usize), start: PoseModel, i: int) -> PoseModel {
    propagate(path.take(i), edited, start).1
}

/// Segment `i` of the propagated path is segment `i` of the input settled from
/// the pose reached before it; the pose reached after it is its end pose.
pub proof fn lemma_propagate_index(
    path: Seq<MovementModel>,
    edited: (usize, usize),
    start: PoseModel,
    i: int,
)
    requires
        0 <= i < path.len(),
    ensures
        propagate(path, edited, start).0[i] == settle_segment(
            path[i],
            inherits(i, edited),
            incoming(path, edited, start, i),
        ),
        incoming(path, edited, start, i + 1) == end_pose(
            propagate(path, edited, start).0[i],
            incoming(path, edited, start, i),
        ),
    decreases path.len(),
{
    let q = path.take(i + 1);
    assert(q.drop_last() =~= path.take(i));
    assert(q.last() == path[i]);
    lemma_propagate_len(path.drop_last(), edited, start);
    if i == path.len() - 1 {
        assert(path.take(i) =~= path.drop_last());
        assert(q =~= path);
    } else {
        lemma_propagate_index(path.drop_last(), edited, start, i);
        assert(path.drop_last().take(i) =~= path.take(i));
        assert(path.drop_last().take(i + 1) =~= q);
    }
}

proof fn lemma_settle_valid(m: MovementModel, inherit: bool, curr: PoseModel)
    requires
        valid_movement(m),
        valid_pose(curr),
    ensures
        valid_movement(settle_segment(m, inherit, curr)),
        valid_pose(end_pose(settle_segment(m, inherit, curr), curr)),
{
    if m.ctrl.len() > 0 {
        let r = settle_segment(m, inherit, curr);
        let j = m.ctrl.len() - 1;
        if let Kind::Lateral { distance } = m.kind {
            lemma_offset_bound(distance as int, curr.cos);
            lemma_offset_bound(distance as int, curr.sin);
        }
        let c0 = if inherit {
            m.ctrl.update(0, curr)
        } else {
            m.ctrl
        };
        let c1 = match m.kind {
            Kind::Lateral { distance } => c0.update(j, displaced(curr, distance as int)),
            Kind::Turn { angle } => c0.update(
                j,
                crate::propagate::with_heading(c0[0], (angle.cos as int, angle.sin as int)),
            ),
            Kind::Command => c0.update(j, c0[0]),
            Kind::Follow => c0,
        };
        assert forall|k: int| 0 <= k < c1.len() implies valid_pose(#[trigger] c1[k]) by {
            assert(valid_pose(m.ctrl[k]));
            assert(valid_pose(m.ctrl[0]));
        }
        if j > 0 {
            assert(valid_pose(c1[j - 1]));
            assert(valid_pose(c1[j]));
            lemma_direction_bound(c1[j].x - c1[j - 1].x, c1[j].y - c1[j - 1].y);
        }
        assert forall|k: int| 0 <= k < r.ctrl.len() implies valid_pose(#[trigger] r.ctrl[k]) by {
            assert(valid_pose(c1[k]));
        }
        assert(valid_pose(r.ctrl[j]));
    }
}

/// Every pose the propagation pass reaches is valid when its inputs are.
pub proof fn lemma_propagate_valid(path: Seq<MovementModel>, edited: (usize, usize), start: PoseModel)
    requires
        valid_path(path),
        valid_pose(start),
    ensures
        valid_path(propagate(path, edited, start).0),
        valid_pose(propagate(path, edited, start).1),
    decreases path.len(),
{
    if path.len() > 0 {
        let prev = propagate(path.drop_last(), edited, start);
        assert(valid_path(path.drop_last())) by {
            assert forall|i: int| 0 <= i < path.drop_last().len() implies valid_movement(
                #[trigger] path.drop_last()[i],
            ) by {
                assert(valid_movement(path[i]));
            }
        }
        lemma_propagate_valid(path.drop_last(), edited, start);
        lemma_propagate_len(path.drop_last(), edited, start);
        assert(valid_movement(path.last()));
        lemma_settle_valid(path.last(), inherits(path.len() - 1, edited), prev.1);
        let r = propagate(path, edited, start).0;
        assert forall|i: int| 0 <= i < r.len() implies valid_movement(#[trigger] r[i]) by {
            if i < r.len() - 1 {
                assert(r[i] == prev.0[i]);
            }
        }
    }
}

/// Continuity: after propagation, a segment that was not edited at its start
/// begins where the segment before it ends. (A one-point segment is inert and
/// keeps its point, so it is left out.)
pub proof fn lemma_continuity(
    path: Seq<MovementModel>,
    edited: (usize, usize),
    start: PoseModel,
    i: int,
)
    requires
        0 <= i,
        i + 1 < path.len(),
        path[i].ctrl.len() > 0,
        path[i + 1].ctrl.len() >= 2,
        inherits(i + 1, edited),
    ensures
        propagate(path, edited, start).0[i + 1].ctrl[0] == propagate(
            path,
            edited,
            start,
        ).0[i].ctrl.last(),
{
    lemma_propagate_index(path, edited, start, i);
    lemma_propagate_index(path, edited, start, i + 1);
}

/// Lateral displacement: a lateral segment that was not edited at its start
/// ends `distance` ahead of its start along the start heading, and where
/// `distance` is zero it ends where it starts.
pub proof fn lemma_lateral_displacement(
    path: Seq<MovementModel>,
    edited: (usize, usize),
    start: PoseModel,
    i: int,
    distance: i64,
)
    requires
        valid_path(path),
        valid_pose(start),
        0 <= i < path.len(),
        path[i].kind == (Kind::Lateral { distance }),
        path[i].ctrl.len() >= 2,
        inherits(i, edited),
    ensures
        ({
            let seg = propagate(path, edited, start).0[i];
            let s = seg.ctrl[0];
            let t = seg.ctrl.last();
            &&& t.x == clamp_coord(s.x + offset(distance as int, s.cos))
            &&& t.y == clamp_coord(s.y + offset(distance as int, s.sin))
            &&& valid_coord(s.x + offset(distance as int, s.cos)) ==> t.x == s.x + offset(
                distance as int,
                s.cos,
            )
            &&& valid_coord(s.y + offset(distance as int, s.sin)) ==> t.y == s.y + offset(
                distance as int,
                s.sin,
            )
            &&& distance == 0 ==> t.x == s.x && t.y == s.y
        }),
{
    lemma_propagate_index(path, edited, start, i);
    let q = path.take(i);
    assert(valid_path(q)) by {
        assert forall|k: int| 0 <= k < q.len() implies valid_movement(#[trigger] q[k]) by {
            assert(valid_movement(path[k]));
        }
    }
    lemma_propagate_valid(q, edited, start);
    let c = incoming(path, edited, start, i);
    assert(offset(0, c.cos) == 0);
    assert(offset(0, c.sin) == 0);
}

/// Reverse heading: a follow segment with a negative lookahead ends with the
/// heading of its last two control points turned by a half turn.
pub proof fn lemma_reverse_heading(
    path: Seq<MovementModel>,
    edited: (usize, usize),
    start: PoseModel,
    i: int,
)
    requires
        0 <= i < path.len(),
        path[i].kind is Follow,
        path[i].lookahead < 0,
        path[i].ctrl.len() >= 2,
    ensures
        ({
            let c = propagate(path, edited, start).0[i].ctrl;
            let a = c[c.len() - 2];
            let b = c[c.len() - 1];
            let d = direction(b.x - a.x, b.y - a.y);
            &&& (b.cos, b.sin) == heading_between(a, b, true)
            &&& b.cos == -d.0
            &&& b.sin == -d.1
        }),
{
    lemma_propagate_index(path, edited, start, i);
}

/// The segments that propagation leaves as they are: those with zero or one
/// control points.
pub open spec fn start_ignored(m: MovementModel) -> bool {
    m.ctrl.len() <= 1
}

/// The edit leaves nothing for a second pass to undo: where the start point of
/// a later segment was edited, it already sits at the pose reached before it.
pub open spec fn edit_settled(path: Seq<MovementModel>, edited: (usize, usize), start: PoseModel) -> bool {
    (edited.1 == 0 && 0 < edited.0 < path.len()) ==> (start_ignored(path[edited.0 as int])
        || path[edited.0 as int].ctrl[0] == incoming(path, edited, start, edited.0 as int))
}

proof fn lemma_settle_twice(m: MovementModel, inherit1: bool, inherit2: bool, curr: PoseModel)
    requires
        inherit1 || !inherit2 || start_ignored(m) || m.ctrl[0] == curr,
    ensures
        settle_segment(settle_segment(m, inherit1, curr), inherit2, curr) == settle_segment(
            m,
            inherit1,
            curr,
        ),
{
    let r1 = settle_segment(m, inherit1, curr);
    let r2 = settle_segment(r1, inherit2, curr);
    if m.ctrl.len() > 0 {
        assert(r2.ctrl =~= r1.ctrl);
    }
}

/// Idempotence: propagating again from the same start pose, with no edit,
/// changes nothing, once the edit is settled (see `edit_settled`).
pub proof fn lemma_idempotent(path: Seq<MovementModel>, edited: (usize, usize), start: PoseModel)
    requires
        edit_settled(path, edited, start),
    ensures
        propagate(propagate(path, edited, start).0, (0, 0), start) == propagate(
            path,
            edited,
            start,
        ),
    decreases path.len(),
{
    if path.len() > 0 {
        let p = path.drop_last();
        let i = path.len() - 1;
        if edited.1 == 0 && 0 < edited.0 < p.len() {
            assert(p[edited.0 as int] == path[edited.0 as int]);
            assert(p.take(edited.0 as int) =~= path.take(edited.0 as int));
        }
        lemma_idempotent(p, edited, start);
        let prev = propagate(p, edited, start);
        let m = settle_segment(path.last(), inherits(i, edited), prev.1);
        let r = propagate(path, edited, start).0;
        assert(r == prev.0.push(m));
        assert(r.drop_last() =~= prev.0);
        lemma_propagate_len(p, edited, start);
        if edited.0 == i && edited.1 == 0 {
            assert(path.take(i) =~= p);
        }
        lemma_settle_twice(path.last(), inherits(i, edited), inherits(i, (0, 0)), prev.1);
    }
}

} // verus!
