use vstd::prelude::*;

use crate::geometry::{
    displace, displaced, heading_between, heading_from_to, valid_pose, Pose, PoseModel,
};
use crate::movement::{
    path_models, pose_models, valid_movement, valid_path, Kind, Movement, MovementModel,
};

verus! {

/// Whether segment `i` takes its start point from the pose reached before it:
/// every segment does but the one whose start point was just edited.
pub open spec fn inherits(i: int, edited: (usize, usize)) -> bool {
    i != edited.0 || edited.1 != 0
}

pub open spec fn with_heading(p: PoseModel, h: (int, int)) -> PoseModel {
    PoseModel { cos: h.0, sin: h.1, ..p }
}

/// One segment after propagation, given the pose reached before it.
///
/// The start point is replaced by `curr` when `inherit` holds. The end point
/// is recomputed by variant: a lateral ends `distance` ahead of `curr`, a turn
/// ends at its start with the turn's heading, a command ends at its start
/// (same position, same heading), a follow curve keeps its points. Then a
/// lateral or a follow curve gets as end heading the direction from its last
/// but one point to its last, turned around when its lookahead is negative.
///
/// A segment with zero or one control points is inert: it passes through
/// unchanged.
pub open spec fn settle_segment(m: MovementModel, inherit: bool, curr: PoseModel) -> MovementModel {
    if m.ctrl.len() <= 1 {
        m
    } else {
        let j = m.ctrl.len() - 1;
        let c0 = if inherit {
            m.ctrl.update(0, curr)
        } else {
            m.ctrl
        };
        let c1 = match m.kind {
            Kind::Lateral { distance } => c0.update(j, displaced(curr, distance as int)),
            Kind::Turn { angle } => c0.update(
                j,
                with_heading(c0[0], (angle.cos as int, angle.sin as int)),
            ),
            Kind::Command => c0.update(j, c0[0]),
            Kind::Follow => c0,
        };
        let c2 = if !(m.kind is Turn) && !(m.kind is Command) {
            c1.update(j, with_heading(c1[j], heading_between(c1[j - 1], c1[j], m.lookahead < 0)))
        } else {
            c1
        };
        MovementModel { ctrl: c2, ..m }
    }
}

/// The pose reached after a settled segment: its last point, or `curr` when it
/// has none.
pub open spec fn end_pose(m: MovementModel, curr: PoseModel) -> PoseModel {
    if m.ctrl.len() == 0 {
        curr
    } else {
        m.ctrl.last()
    }
}

/// The forward propagation pass: each segment settled from the pose reached
/// before it, starting at `start`, and the pose reached at the end.
pub open spec fn propagate(path: Seq<MovementModel>, edited: (usize, usize), start: PoseModel) -> (
    Seq<MovementModel>,
    PoseModel,
)
    decreases path.len(),
{
    if path.len() == 0 {
        (path, start)
    } else {
        let prev = propagate(path.drop_last(), edited, start);
        let m = settle_segment(path.last(), inherits(path.len() - 1, edited), prev.1);
        (prev.0.push(m), end_pose(m, prev.1))
    }
}

pub proof fn lemma_propagate_len(path: Seq<MovementModel>, edited: (usize, usize), start: PoseModel)
    ensures
        propagate(path, edited, start).0.len() == path.len(),
    decreases path.len(),
{
    if path.len() > 0 {
        lemma_propagate_len(path.drop_last(), edited, start);
    }
}

fn placeholder() -> Movement {
    Movement::follow(Vec::new(), 0, 0, 0, 0)
}

/// Settles one segment in place from the pose `curr` reached before it, and
/// returns the pose reached after it.
fn settle(m: &mut Movement, inherit: bool, curr: Pose) -> (end: Pose)
    requires
        valid_movement(old(m)@),
        valid_pose(curr@),
    ensures
        final(m)@ == settle_segment(old(m)@, inherit, curr@),
        end@ == end_pose(final(m)@, curr@),
        valid_movement(final(m)@),
        valid_pose(end@),
{
    let ghost m0 = m@;
    let n = m.ctrl.len();
    if n == 0 {
        return curr;
    }
    if n == 1 {
        let only = m.ctrl[0];
        assert(valid_pose(m0.ctrl[0]));
        assert(only@ == m0.ctrl[0]);
        return only;
    }
    let j = n - 1;
    assert(m.ctrl@[0]@ == m0.ctrl[0]);
    if inherit {
        m.ctrl.set(0, curr);
    }
    let ghost c0 = if inherit {
        m0.ctrl.update(0, curr@)
    } else {
        m0.ctrl
    };
    assert(pose_models(m.ctrl@) =~= c0);
    proof {
        assert(valid_pose(m0.ctrl[0]));
        assert(valid_pose(m0.ctrl[j as int]));
    }
    match m.kind {
        Kind::Lateral { distance } => {
            let e = displace(curr, distance);
            m.ctrl.set(j, e);
            assert(valid_pose(pose_models(m.ctrl@)[j as int]));
        },
        Kind::Turn { angle } => {
            let s = m.ctrl[0];
            assert(s@ == c0[0]);
            m.ctrl.set(j, Pose { heading: angle, ..s });
            assert(valid_pose(pose_models(m.ctrl@)[j as int]));
        },
        Kind::Command => {
            let s = m.ctrl[0];
            assert(s@ == c0[0]);
            m.ctrl.set(j, s);
            assert(valid_pose(pose_models(m.ctrl@)[j as int]));
        },
        Kind::Follow => {},
    }
    let ghost c1 = match m0.kind {
        Kind::Lateral { distance } => c0.update(j as int, displaced(curr@, distance as int)),
        Kind::Turn { angle } => c0.update(
            j as int,
            with_heading(c0[0], (angle.cos as int, angle.sin as int)),
        ),
        Kind::Command => c0.update(j as int, c0[0]),
        Kind::Follow => c0,
    };
    assert(pose_models(m.ctrl@) =~= c1);
    assert forall|k: int| 0 <= k < c1.len() implies valid_pose(#[trigger] c1[k]) by {
        assert(valid_pose(m0.ctrl[k]));
        if k == j {
            assert(valid_pose(pose_models(m.ctrl@)[j as int]));
        }
    }
    if !m.is_turn() && !m.is_command() {
        let a = m.ctrl[j - 1];
        let b = m.ctrl[j];
        assert(a@ == c1[j - 1]);
        assert(b@ == c1[j as int]);
        assert(valid_pose(c1[j - 1]));
        assert(valid_pose(c1[j as int]));
        let h = heading_from_to(a, b, m.lookahead < 0);
        m.ctrl.set(j, Pose { heading: h, ..b });
    }
    assert(pose_models(m.ctrl@) =~= settle_segment(m0, inherit, curr@).ctrl);
    assert forall|k: int| 0 <= k < m.ctrl@.len() implies valid_pose(
        #[trigger] pose_models(m.ctrl@)[k],
    ) by {
        assert(valid_pose(c1[k]));
    }
    let end = m.ctrl[j];
    assert(end@ == pose_models(m.ctrl@)[j as int]);
    end
}

/// Recomputes every segment's control points from `start_pos` forward, so that
/// each segment starts where the one before it ends, except the segment whose
/// start point is `changed`; returns the settled path and the pose reached at
/// its end.
pub fn repopulate(control_points: Vec<Movement>, changed: (usize, usize), start_pos: Pose) -> (r: (
    Vec<Movement>,
    Pose,
))
    requires
        valid_path(path_models(control_points@)),
        valid_pose(start_pos@),
    ensures
        (path_models(r.0@), r.1@) == propagate(path_models(control_points@), changed, start_pos@),
        valid_path(path_models(r.0@)),
        valid_pose(r.1@),
{
    let ghost p = path_models(control_points@);
    let mut v = control_points;
    let mut curr = start_pos;
    let mut i: usize = 0;
    proof {
        assert(p.take(0) =~= Seq::<MovementModel>::empty());
        assert(path_models(v@).take(0) =~= Seq::<MovementModel>::empty());
    }
    while i < v.len()
        invariant
            v.len() == p.len(),
            0 <= i <= v.len(),
            p == path_models(control_points@),
            valid_path(p),
            valid_pose(curr@),
            path_models(v@).take(i as int) == propagate(p.take(i as int), changed, start_pos@).0,
            curr@ == propagate(p.take(i as int), changed, start_pos@).1,
            forall|k: int| i <= k < v.len() ==> #[trigger] path_models(v@)[k] == p[k],
            valid_path(path_models(v@)),
        decreases v.len() - i,
    {
        let ghost before = path_models(v@);
        let mut m = placeholder();
        v.set_and_swap(i, &mut m);
        assert(before[i as int] == p[i as int]);
        assert(m@ == p[i as int]);
        assert(valid_movement(p[i as int]));
        let end = settle(&mut m, i != changed.0 || changed.1 != 0, curr);
        let ghost prev = propagate(p.take(i as int), changed, start_pos@);
        v.set_and_swap(i, &mut m);
        curr = end;
        proof {
            let q = p.take(i + 1);
            assert(q.drop_last() =~= p.take(i as int));
            assert(q.last() == p[i as int]);
            lemma_propagate_len(p.take(i as int), changed, start_pos@);
            assert(path_models(v@).take(i + 1) =~= propagate(q, changed, start_pos@).0);
            assert forall|k: int| i + 1 <= k < v.len() implies #[trigger] path_models(v@)[k]
                == p[k] by {
                assert(path_models(v@)[k] == before[k]);
            }
            assert forall|k: int| 0 <= k < v.len() implies valid_movement(
                #[trigger] path_models(v@)[k],
            ) by {
                if k != i {
                    assert(path_models(v@)[k] == before[k]);
                }
            }
        }
        i += 1;
    }
    proof {
        assert(p.take(p.len() as int) =~= p);
        assert(path_models(v@).take(i as int) =~= path_models(v@));
    }
    (v, curr)
}

} // verus!
