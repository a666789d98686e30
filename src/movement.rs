use vstd::prelude::*;

use crate::geometry::{
    valid_coord, valid_heading, valid_pose, Heading, Pose, PoseModel, COORD_LIMIT, HEADING_UNIT,
};

verus! {

/// What a segment does; each variant carries its own parameter.
#[derive(Clone, Copy, Debug, PartialEq, Eq, Structural)]
pub enum Kind {
    /// Straight travel by `distance` (thousandths of an inch) along the
    /// current heading; negative travels backward.
    Lateral { distance: i64 },
    /// Rotation in place to the heading `angle`.
    Turn { angle: Heading },
    /// A zero-length marker naming a side effect for the controller.
    Command,
    /// A free-form curve through the control points.
    Follow,
}

/// One motion segment of a path.
#[derive(Clone, Debug)]
pub struct Movement {
    /// Control points: the first is the start, the last is the end.
    pub ctrl: Vec<Pose>,
    pub kind: Kind,
    /// Terminal position tolerance, thousandths of an inch.
    pub end_tol: i64,
    /// Milliseconds.
    pub timeout: i32,
    /// Path-follower lookahead; negative means the segment is traversed backward.
    pub lookahead: i64,
    /// Name of the side effect of a command segment.
    pub name: String,
    pub id: i32,
}

/// Mathematical value of a movement.
pub struct MovementModel {
    pub ctrl: Seq<PoseModel>,
    pub kind: Kind,
    pub end_tol: i64,
    pub timeout: i32,
    pub lookahead: i64,
    pub name: Seq<char>,
    pub id: i32,
}

pub open spec fn pose_models(ctrl: Seq<Pose>) -> Seq<PoseModel> {
    ctrl.map_values(|p: Pose| p@)
}

impl View for Movement {
    type V = MovementModel;

    open spec fn view(&self) -> MovementModel {
        MovementModel {
            ctrl: pose_models(self.ctrl@),
            kind: self.kind,
            end_tol: self.end_tol,
            timeout: self.timeout,
            lookahead: self.lookahead,
            name: self.name@,
            id: self.id,
        }
    }
}

pub open spec fn valid_kind(k: Kind) -> bool {
    match k {
        Kind::Lateral { distance } => valid_coord(distance as int),
        Kind::Turn { angle } => valid_heading(angle.cos as int, angle.sin as int),
        _ => true,
    }
}

/// Every control point is a valid pose and the variant's parameter is in range.
pub open spec fn valid_movement(m: MovementModel) -> bool {
    &&& valid_kind(m.kind)
    &&& forall|k: int| 0 <= k < m.ctrl.len() ==> valid_pose(#[trigger] m.ctrl[k])
}

pub open spec fn valid_path(p: Seq<MovementModel>) -> bool {
    forall|i: int| 0 <= i < p.len() ==> valid_movement(#[trigger] p[i])
}

pub open spec fn path_models(p: Seq<Movement>) -> Seq<MovementModel> {
    p.map_values(|m: Movement| m@)
}

impl Movement {
    pub fn new(
        ctrl: Vec<Pose>,
        kind: Kind,
        end_tol: i64,
        timeout: i32,
        name: String,
        lookahead: i64,
        id: i32,
    ) -> (r: Movement)
        ensures
            r.ctrl == ctrl,
            r.kind == kind,
            r.end_tol == end_tol,
            r.timeout == timeout,
            r.name == name,
            r.lookahead == lookahead,
            r.id == id,
    {
        Movement { ctrl, kind, end_tol, timeout, lookahead, name, id }
    }

    /// A straight segment from `start` to the pose `distance` ahead of it.
    pub fn lateral(start: Pose, distance: i64, end_tol: i64, timeout: i32, id: i32) -> (r:
        Movement)
        requires
            valid_pose(start@),
            valid_coord(distance as int),
        ensures
            r@.ctrl == seq![start@, crate::geometry::displaced(start@, distance as int)],
            r.kind == (Kind::Lateral { distance }),
            r.end_tol == end_tol,
            r.timeout == timeout,
            r.lookahead == 0,
            r.name@.len() == 0,
            r.id == id,
    {
        let end = crate::geometry::displace(start, distance);
        let ctrl = vec![start, end];
        proof {
            assert(pose_models(ctrl@) =~= seq![start@, end@]);
        }
        Movement {
            ctrl,
            kind: Kind::Lateral { distance },
            end_tol,
            timeout,
            lookahead: 0,
            name: String::new(),
            id,
        }
    }

    /// A rotation in place at `at` to the heading `angle`.
    pub fn turn(at: Pose, angle: Heading, end_tol: i64, timeout: i32, id: i32) -> (r: Movement)
        ensures
            r.ctrl@ == seq![Pose { heading: angle, ..at }, Pose { heading: angle, ..at }],
            r.kind == (Kind::Turn { angle }),
            r.end_tol == end_tol,
            r.timeout == timeout,
            r.lookahead == 0,
            r.name@.len() == 0,
            r.id == id,
    {
        let p = Pose { heading: angle, ..at };
        Movement {
            ctrl: vec![p, p],
            kind: Kind::Turn { angle },
            end_tol,
            timeout,
            lookahead: 0,
            name: String::new(),
            id,
        }
    }

    /// A zero-length command marker at `at`.
    pub fn command(at: Pose, name: String, id: i32) -> (r: Movement)
        ensures
            r.ctrl@ == seq![at, at],
            r.kind == Kind::Command,
            r.end_tol == 0,
            r.timeout == 0,
            r.lookahead == 0,
            r.name == name,
            r.id == id,
    {
        Movement { ctrl: vec![at, at], kind: Kind::Command, end_tol: 0, timeout: 0, lookahead: 0, name, id }
    }

    /// A free-form curve through `ctrl`.
    pub fn follow(ctrl: Vec<Pose>, end_tol: i64, timeout: i32, lookahead: i64, id: i32) -> (r:
        Movement)
        ensures
            r.ctrl == ctrl,
            r.kind == Kind::Follow,
            r.end_tol == end_tol,
            r.timeout == timeout,
            r.lookahead == lookahead,
            r.name@.len() == 0,
            r.id == id,
    {
        Movement { ctrl, kind: Kind::Follow, end_tol, timeout, lookahead, name: String::new(), id }
    }

    pub fn is_lateral(&self) -> (r: bool)
        ensures
            r == (self.kind is Lateral),
    {
        matches!(self.kind, Kind::Lateral { .. })
    }

    pub fn is_turn(&self) -> (r: bool)
        ensures
            r == (self.kind is Turn),
    {
        matches!(self.kind, Kind::Turn { .. })
    }

    pub fn is_command(&self) -> (r: bool)
        ensures
            r == (self.kind is Command),
    {
        matches!(self.kind, Kind::Command)
    }

    pub fn is_follow(&self) -> (r: bool)
        ensures
            r == (self.kind is Follow),
    {
        matches!(self.kind, Kind::Follow)
    }

    /// Whether every control point and the variant's parameter are in range,
    /// as `valid_movement` states it.
    pub fn is_valid(&self) -> (r: bool)
        ensures
            r == valid_movement(self@),
    {
        let ok = match self.kind {
            Kind::Lateral { distance } => -COORD_LIMIT <= distance && distance <= COORD_LIMIT,
            Kind::Turn { angle } => -HEADING_UNIT <= angle.cos && angle.cos <= HEADING_UNIT
                && -HEADING_UNIT <= angle.sin && angle.sin <= HEADING_UNIT,
            _ => true,
        };
        if !ok {
            return false;
        }
        let mut k: usize = 0;
        while k < self.ctrl.len()
            invariant
                k <= self.ctrl.len(),
                forall|q: int| 0 <= q < k ==> valid_pose(#[trigger] pose_models(self.ctrl@)[q]),
            decreases self.ctrl.len() - k,
        {
            assert(pose_models(self.ctrl@)[k as int] == self.ctrl@[k as int]@);
            if !self.ctrl[k].is_valid() {
                assert(!valid_pose(self@.ctrl[k as int]));
                return false;
            }
            k += 1;
        }
        true
    }

    /// A copy of this movement.
    pub fn duplicate(&self) -> (r: Movement)
        ensures
            r@ == self@,
    {
        Movement {
            ctrl: self.ctrl.clone(),
            kind: self.kind,
            end_tol: self.end_tol,
            timeout: self.timeout,
            lookahead: self.lookahead,
            name: self.name.clone(),
            id: self.id,
        }
    }
}

} // verus!
