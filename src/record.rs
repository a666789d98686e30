use vstd::prelude::*;

use crate::geometry::{Heading, Pose, PoseModel};
use crate::movement::{pose_models, Kind, Movement, MovementModel};
use crate::propagate::propagate;

verus! {

/// A segment as stored: the variant is not written down but read from which
/// fields are set. A non-zero `distance` makes a lateral, else an `angle`
/// makes a turn, else a non-empty `name` makes a command, else it is a follow
/// curve.
#[derive(Clone, Debug)]
pub struct SegmentRecord {
    pub ctrl: Vec<Pose>,
    pub distance: i64,
    pub angle: Option<Heading>,
    pub end_tol: i64,
    pub timeout: i32,
    pub lookahead: i64,
    pub name: String,
    pub id: i32,
}

pub struct RecordModel {
    pub ctrl: Seq<PoseModel>,
    pub distance: i64,
    pub angle: Option<Heading>,
    pub end_tol: i64,
    pub timeout: i32,
    pub lookahead: i64,
    pub name: Seq<char>,
    pub id: i32,
}

impl View for SegmentRecord {
    type V = RecordModel;

    open spec fn view(&self) -> RecordModel {
        RecordModel {
            ctrl: pose_models(self.ctrl@),
            distance: self.distance,
            angle: self.angle,
            end_tol: self.end_tol,
            timeout: self.timeout,
            lookahead: self.lookahead,
            name: self.name@,
            id: self.id,
        }
    }
}

/// The variant that the stored fields stand for.
pub open spec fn kind_of_fields(distance: i64, angle: Option<Heading>, name: Seq<char>) -> Kind {
    if distance != 0 {
        Kind::Lateral { distance }
    } else if angle is Some {
        Kind::Turn { angle: angle->0 }
    } else if name.len() > 0 {
        Kind::Command
    } else {
        Kind::Follow
    }
}

pub open spec fn record_of(m: MovementModel) -> RecordModel {
    RecordModel {
        ctrl: m.ctrl,
        distance: match m.kind {
            Kind::Lateral { distance } => distance,
            _ => 0,
        },
        angle: match m.kind {
            Kind::Turn { angle } => Some(angle),
            _ => None,
        },
        end_tol: m.end_tol,
        timeout: m.timeout,
        lookahead: m.lookahead,
        name: m.name,
        id: m.id,
    }
}

pub open spec fn movement_of(r: RecordModel) -> MovementModel {
    MovementModel {
        ctrl: r.ctrl,
        kind: kind_of_fields(r.distance, r.angle, r.name),
        end_tol: r.end_tol,
        timeout: r.timeout,
        lookahead: r.lookahead,
        name: r.name,
        id: r.id,
    }
}

/// A segment that its stored form tells apart: a lateral moves, a command is
/// named, a follow curve is not.
pub open spec fn storable(m: MovementModel) -> bool {
    match m.kind {
        Kind::Lateral { distance } => distance != 0,
        Kind::Command => m.name.len() > 0,
        Kind::Follow => m.name.len() == 0,
        Kind::Turn { .. } => true,
    }
}

/// The stored form of a segment.
pub fn to_record(m: &Movement) -> (r: SegmentRecord)
    ensures
        r@ == record_of(m@),
{
    let (distance, angle) = match m.kind {
        Kind::Lateral { distance } => (distance, None),
        Kind::Turn { angle } => (0, Some(angle)),
        _ => (0, None),
    };
    SegmentRecord {
        ctrl: m.ctrl.clone(),
        distance,
        angle,
        end_tol: m.end_tol,
        timeout: m.timeout,
        lookahead: m.lookahead,
        name: m.name.clone(),
        id: m.id,
    }
}

/// The segment a stored form stands for.
pub fn from_record(r: SegmentRecord) -> (m: Movement)
    ensures
        m@ == movement_of(r@),
{
    let kind = if r.distance != 0 {
        Kind::Lateral { distance: r.distance }
    } else if let Some(a) = r.angle {
        Kind::Turn { angle: a }
    } else if !r.name.as_str().is_empty() {
        Kind::Command
    } else {
        Kind::Follow
    };
    Movement {
        ctrl: r.ctrl,
        kind,
        end_tol: r.end_tol,
        timeout: r.timeout,
        lookahead: r.lookahead,
        name: r.name,
        id: r.id,
    }
}

/// The stored form of a path.
pub fn to_records(path: &Vec<Movement>) -> (r: Vec<SegmentRecord>)
    ensures
        r.len() == path.len(),
        forall|i: int| 0 <= i < path.len() ==> #[trigger] r@[i]@ == record_of(path@[i]@),
{
    let mut out: Vec<SegmentRecord> = Vec::new();
    let mut i: usize = 0;
    while i < path.len()
        invariant
            i <= path.len(),
            out.len() == i,
            forall|q: int| 0 <= q < i ==> #[trigger] out@[q]@ == record_of(path@[q]@),
        decreases path.len() - i,
    {
        out.push(to_record(&path[i]));
        i += 1;
    }
    out
}

/// The path that a list of stored forms stands for.
pub fn from_records(records: Vec<SegmentRecord>) -> (r: Vec<Movement>)
    ensures
        r.len() == records.len(),
        forall|i: int| 0 <= i < records.len() ==> #[trigger] r@[i]@ == movement_of(records@[i]@),
{
    let ghost recs = records@;
    let mut rest = records;
    let mut out: Vec<Movement> = Vec::new();
    let mut i: usize = 0;
    let n = rest.len();
    while i < n
        invariant
            n == recs.len(),
            rest.len() == n,
            i <= n,
            out.len() == i,
            forall|q: int| i <= q < n ==> #[trigger] rest@[q] == recs[q],
            forall|q: int| 0 <= q < i ==> #[trigger] out@[q]@ == movement_of(recs[q]@),
        decreases n - i,
    {
        let mut r = SegmentRecord {
            ctrl: Vec::new(),
            distance: 0,
            angle: None,
            end_tol: 0,
            timeout: 0,
            lookahead: 0,
            name: String::new(),
            id: 0,
        };
        rest.set_and_swap(i, &mut r);
        assert(r == recs[i as int]);
        out.push(from_record(r));
        i += 1;
    }
    out
}

/// Storing a path and reading it back gives the same path, segment by
/// segment, for paths whose segments their stored form tells apart; so one
/// propagation pass from any start pose gives the same control points and
/// headings for both.
pub proof fn lemma_round_trip(path: Seq<MovementModel>, start: PoseModel)
    requires
        forall|i: int| 0 <= i < path.len() ==> storable(#[trigger] path[i]),
    ensures
        path.map_values(|m: MovementModel| movement_of(record_of(m))) == path,
        propagate(path.map_values(|m: MovementModel| movement_of(record_of(m))), (0, 0), start)
            == propagate(path, (0, 0), start),
{
    let back = path.map_values(|m: MovementModel| movement_of(record_of(m)));
    assert forall|i: int| 0 <= i < path.len() implies #[trigger] back[i] == path[i] by {
        assert(storable(path[i]));
    }
    assert(back =~= path);
}

} // verus!
