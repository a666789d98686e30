use vstd::prelude::*;

use crate::field::{dist_between, field_x, field_y, pixel_to_inch, PICK_TOLERANCE};
use crate::geometry::{
    displace, displaced, floor_sqrt, heading_between, heading_from_to, valid_coord,
    valid_heading, valid_pose, Heading, Pose, PoseModel,
};
use crate::movement::{path_models, valid_movement, valid_path, Kind, Movement, MovementModel};
use crate::propagate::{lemma_propagate_len, propagate, repopulate};
use crate::tessellate::{curve_x, curve_y, handles_x, handles_y, redraw};

verus! {

/// Edit location meaning "no point was edited": every segment inherits its
/// start from the one before it.
pub const NO_EDIT: (usize, usize) = (usize::MAX, usize::MAX);

/// The default lookahead of a follow segment, thousandths of an inch.
pub const FOLLOW_LOOKAHEAD: i64 = 18_000;

/// The default end tolerance of a follow segment, thousandths of an inch.
pub const FOLLOW_END_TOL: i64 = 2_000;

/// The default timeout of a follow segment, milliseconds.
pub const FOLLOW_TIMEOUT: i32 = 5000;

/// The value a parameter change sets; which one applies depends on the
/// segment's variant.
#[derive(Clone, Debug)]
pub enum Tunable {
    /// The heading a turn rotates to.
    Angle(Heading),
    /// The distance of a lateral.
    Distance(i64),
    /// The name of a command.
    Name(String),
    /// The lookahead of a follow curve.
    Lookahead(i64),
}

/// The state of the path editor: the path, the pose reached at its end, the
/// pose it starts from, the selected control point and the next id to hand out.
pub struct Editor {
    pub path: Vec<Movement>,
    pub current_pose: Pose,
    pub start_pose: Pose,
    pub selected: Option<(usize, usize)>,
    pub next_id: i32,
}

/// The path with the parameter change applied to segment `i`: end tolerance and
/// timeout always, the tunable value only where it fits the variant.
pub open spec fn tuned(m: MovementModel, end_tol: i64, timeout: i32, value: Tunable) -> MovementModel {
    let base = MovementModel { end_tol, timeout, ..m };
    match (m.kind, value) {
        (Kind::Turn { .. }, Tunable::Angle(a)) => MovementModel { kind: Kind::Turn { angle: a }, ..base },
        (Kind::Lateral { .. }, Tunable::Distance(d)) => MovementModel {
            kind: Kind::Lateral { distance: d },
            ..base
        },
        (Kind::Command, Tunable::Name(n)) => MovementModel { name: n@, ..base },
        (Kind::Follow, Tunable::Lookahead(l)) => MovementModel { lookahead: l, ..base },
        _ => base,
    }
}

pub open spec fn valid_tunable(value: Tunable) -> bool {
    match value {
        Tunable::Angle(a) => valid_heading(a.cos as int, a.sin as int),
        Tunable::Distance(d) => valid_coord(d as int),
        _ => true,
    }
}

/// Index of the first segment with the given id.
pub open spec fn first_with_id(path: Seq<MovementModel>, id: i32, i: int) -> bool {
    0 <= i < path.len() && path[i].id == id && forall|k: int| 0 <= k < i ==> #[trigger] path[k].id
        != id
}

/// Whether `(i, j)` names a control point of a follow segment within the pick
/// tolerance of `(x, y)`.
pub open spec fn pickable(path: Seq<MovementModel>, x: int, y: int, i: int, j: int) -> bool {
    &&& 0 <= i < path.len()
    &&& path[i].kind is Follow
    &&& 0 <= j < path[i].ctrl.len()
    &&& distance_to(path[i].ctrl[j], x, y) < PICK_TOLERANCE
}

pub open spec fn distance_to(p: PoseModel, x: int, y: int) -> int {
    floor_sqrt((x - p.x) * (x - p.x) + (y - p.y) * (y - p.y))
}

/// `(i, j)` comes before `(k, l)` in path order.
pub open spec fn before(i: int, j: int, k: int, l: int) -> bool {
    i < k || (i == k && j < l)
}


/// Index of the first segment at or after `k` that has control points, or -1.
pub open spec fn next_nonempty(path: Seq<MovementModel>, k: int) -> int
    decreases path.len() - k,
{
    if k < 0 || k >= path.len() {
        -1
    } else if path[k].ctrl.len() > 0 {
        k
    } else {
        next_nonempty(path, k + 1)
    }
}

/// Index of the last segment at or before `k` that has control points, or -1.
pub open spec fn prev_nonempty(path: Seq<MovementModel>, k: int) -> int
    decreases k + 1,
{
    if k < 0 || k >= path.len() {
        -1
    } else if path[k].ctrl.len() > 0 {
        k
    } else {
        prev_nonempty(path, k - 1)
    }
}

/// The path with control point `l` of segment `k` replaced by `p`.
pub open spec fn with_point(path: Seq<MovementModel>, k: int, l: int, p: PoseModel) -> Seq<
    MovementModel,
> {
    path.update(k, MovementModel { ctrl: path[k].ctrl.update(l, p), ..path[k] })
}

/// The path after control point `(i, j)` moves to `p`: a segment's last point
/// (but the path's very last) carries the next segment with points along at
/// its start, a later segment's first point carries the previous segment with
/// points along at its end.
pub open spec fn moved(path: Seq<MovementModel>, i: int, j: int, p: PoseModel) -> Seq<MovementModel> {
    let last_pt = path[i].ctrl.len() - 1;
    let linked = if i == path.len() - 1 && j == last_pt {
        path
    } else if j == last_pt {
        let k = next_nonempty(path, i + 1);
        if k >= 0 {
            with_point(path, k, 0, p)
        } else {
            path
        }
    } else if i > 0 && j == 0 {
        let k = prev_nonempty(path, i - 1);
        if k >= 0 {
            with_point(path, k, path[k].ctrl.len() - 1, p)
        } else {
            path
        }
    } else {
        path
    };
    with_point(linked, i, j, p)
}

/// The largest id among the first `n` segments; zero when `n` is zero.
pub open spec fn max_id(path: Seq<MovementModel>, n: int) -> int
    decreases n,
{
    if n <= 0 {
        0
    } else if n == 1 {
        path[0].id as int
    } else if path[n - 1].id > max_id(path, n - 1) {
        path[n - 1].id as int
    } else {
        max_id(path, n - 1)
    }
}

/// Replaces control point `l` of segment `k`.
fn set_point(path: &mut Vec<Movement>, k: usize, l: usize, p: Pose)
    requires
        k < old(path)@.len(),
        l < old(path)@[k as int].ctrl@.len(),
        valid_path(path_models(old(path)@)),
        valid_pose(p@),
    ensures
        path_models(final(path)@) == with_point(path_models(old(path)@), k as int, l as int, p@),
        valid_path(path_models(final(path)@)),
        final(path)@.len() == old(path)@.len(),
{
    let ghost before = path_models(path@);
    let mut m = Movement::follow(Vec::new(), 0, 0, 0, 0);
    path.set_and_swap(k, &mut m);
    assert(m@ == before[k as int]);
    m.ctrl.set(l, p);
    assert(m@.ctrl =~= before[k as int].ctrl.update(l as int, p@));
    path.set_and_swap(k, &mut m);
    proof {
        let after = with_point(before, k as int, l as int, p@);
        assert(path_models(path@) =~= after);
        assert forall|q: int| 0 <= q < after.len() implies valid_movement(#[trigger] after[q]) by {
            assert(valid_movement(before[q]));
            if q == k {
                assert forall|r: int| 0 <= r < after[q].ctrl.len() implies valid_pose(
                    #[trigger] after[q].ctrl[r],
                ) by {
                    assert(valid_pose(before[q].ctrl[r]));
                }
            }
        }
    }
}

/// A command name with its double quotes taken out, as the export format
/// cannot hold them.
pub open spec fn unquoted(s: Seq<char>) -> Seq<char> {
    s.filter(|c: char| c != '"')
}

/// Relies on str::replace: every match of the pattern (here the double quote)
/// is replaced by the replacement (here nothing).
#[verifier::external_body]
fn strip_quotes(s: &str) -> (r: String)
    ensures
        r@ == unquoted(s@),
{
    s.replace('"', "")
}

impl Editor {
    /// The editor's invariant: every pose in range.
    pub open spec fn wf(&self) -> bool {
        &&& valid_path(path_models(self.path@))
        &&& valid_pose(self.current_pose@)
        &&& valid_pose(self.start_pose@)
    }

    /// An empty path starting at `start`.
    pub fn new(start: Pose) -> (r: Editor)
        requires
            valid_pose(start@),
        ensures
            r.wf(),
            r.path@.len() == 0,
            r.current_pose == start,
            r.start_pose == start,
            r.selected.is_none(),
            r.next_id == 1,
    {
        Editor { path: Vec::new(), current_pose: start, start_pose: start, selected: None, next_id: 1 }
    }

    fn take_id(&mut self) -> (id: i32)
        requires
            old(self).next_id < i32::MAX,
        ensures
            id == old(self).next_id,
            final(self).next_id == old(self).next_id + 1,
            final(self).path == old(self).path,
            final(self).current_pose == old(self).current_pose,
            final(self).start_pose == old(self).start_pose,
            final(self).selected == old(self).selected,
    {
        let id = self.next_id;
        self.next_id = id + 1;
        id
    }

    /// Runs the propagation pass over the whole path from the start pose and
    /// takes the pose reached as the current pose.
    fn settle(&mut self, changed: (usize, usize))
        requires
            old(self).wf(),
        ensures
            final(self).wf(),
            (path_models(final(self).path@), final(self).current_pose@) == propagate(
                path_models(old(self).path@),
                changed,
                old(self).start_pose@,
            ),
            final(self).start_pose == old(self).start_pose,
            final(self).selected == old(self).selected,
            final(self).next_id == old(self).next_id,
    {
        let mut p: Vec<Movement> = Vec::new();
        std::mem::swap(&mut p, &mut self.path);
        let (settled, end) = repopulate(p, changed, self.start_pose);
        self.path = settled;
        self.current_pose = end;
    }

    /// Appends a lateral of `distance` from the current pose.
    pub fn add_lateral_movement(&mut self, distance: i64, endtol: i64, timeout: i32)
        requires
            old(self).wf(),
            valid_coord(distance as int),
            old(self).next_id < i32::MAX,
        ensures
            final(self).wf(),
            path_models(final(self).path@) == path_models(old(self).path@).push(
                MovementModel {
                    ctrl: seq![
                        old(self).current_pose@,
                        displaced(old(self).current_pose@, distance as int),
                    ],
                    kind: Kind::Lateral { distance },
                    end_tol: endtol,
                    timeout,
                    lookahead: 0,
                    name: seq![],
                    id: old(self).next_id,
                },
            ),
            final(self).current_pose@ == displaced(old(self).current_pose@, distance as int),
            final(self).start_pose == old(self).start_pose,
            final(self).selected == old(self).selected,
            final(self).next_id == old(self).next_id + 1,
    {
        let id = self.take_id();
        let m = Movement::lateral(self.current_pose, distance, endtol, timeout, id);
        let ghost old_path = path_models(self.path@);
        self.current_pose = displace(self.current_pose, distance);
        self.path.push(m);
        proof {
            assert(m@.name =~= seq![]);
            assert(path_models(self.path@) =~= old_path.push(m@));
            assert(valid_movement(m@));
        }
    }

    /// Appends a rotation in place at the current position to `angle`.
    pub fn add_turn_movement(&mut self, angle: Heading, endtol: i64, timeout: i32)
        requires
            old(self).wf(),
            valid_heading(angle.cos as int, angle.sin as int),
            old(self).next_id < i32::MAX,
        ensures
            final(self).wf(),
            final(self).current_pose == (Pose { heading: angle, ..old(self).current_pose }),
            path_models(final(self).path@) == path_models(old(self).path@).push(
                MovementModel {
                    ctrl: seq![final(self).current_pose@, final(self).current_pose@],
                    kind: Kind::Turn { angle },
                    end_tol: endtol,
                    timeout,
                    lookahead: 0,
                    name: seq![],
                    id: old(self).next_id,
                },
            ),
            final(self).start_pose == old(self).start_pose,
            final(self).selected == old(self).selected,
            final(self).next_id == old(self).next_id + 1,
    {
        let id = self.take_id();
        let m = Movement::turn(self.current_pose, angle, endtol, timeout, id);
        let ghost old_path = path_models(self.path@);
        self.current_pose = Pose { heading: angle, ..self.current_pose };
        self.path.push(m);
        proof {
            assert(m@.name =~= seq![]);
            assert(m@.ctrl =~= seq![self.current_pose@, self.current_pose@]);
            assert(path_models(self.path@) =~= old_path.push(m@));
            assert(valid_movement(m@));
        }
    }

    /// Appends a command marker named `name`, without its double quotes, at
    /// the current pose.
    pub fn add_command(&mut self, name: String)
        requires
            old(self).wf(),
            old(self).next_id < i32::MAX,
        ensures
            final(self).wf(),
            path_models(final(self).path@) == path_models(old(self).path@).push(
                MovementModel {
                    ctrl: seq![old(self).current_pose@, old(self).current_pose@],
                    kind: Kind::Command,
                    end_tol: 0,
                    timeout: 0,
                    lookahead: 0,
                    name: unquoted(name@),
                    id: old(self).next_id,
                },
            ),
            final(self).current_pose == old(self).current_pose,
            final(self).start_pose == old(self).start_pose,
            final(self).selected == old(self).selected,
            final(self).next_id == old(self).next_id + 1,
    {
        let id = self.take_id();
        let m = Movement::command(self.current_pose, strip_quotes(name.as_str()), id);
        let ghost old_path = path_models(self.path@);
        self.path.push(m);
        proof {
            assert(m@.ctrl =~= seq![self.current_pose@, self.current_pose@]);
            assert(path_models(self.path@) =~= old_path.push(m@));
            assert(valid_movement(m@));
        }
    }

    /// Appends a follow curve from the current pose to the field position of
    /// the pixel `pos`, through the corner that first changes y; the current
    /// pose becomes its end, headed along the curve's last leg.
    pub fn click(&mut self, pos: [i32; 2])
        requires
            old(self).wf(),
            old(self).next_id < i32::MAX,
        ensures
            final(self).wf(),
            ({
                let c = old(self).current_pose@;
                let x = field_x(pos[0] as int);
                let y = field_y(pos[1] as int);
                let corner = PoseModel { x: c.x, y, ..c };
                let h = heading_between(corner, PoseModel { x, y, ..c }, false);
                let end = PoseModel { x, y, cos: h.0, sin: h.1 };
                &&& final(self).current_pose@ == end
                &&& path_models(final(self).path@) == path_models(old(self).path@).push(
                    MovementModel {
                        ctrl: seq![c, PoseModel { cos: h.0, sin: h.1, ..corner }, end],
                        kind: Kind::Follow,
                        end_tol: FOLLOW_END_TOL,
                        timeout: FOLLOW_TIMEOUT,
                        lookahead: FOLLOW_LOOKAHEAD,
                        name: seq![],
                        id: old(self).next_id,
                    },
                )
            }),
            final(self).start_pose == old(self).start_pose,
            final(self).selected == old(self).selected,
            final(self).next_id == old(self).next_id + 1,
    {
        let field = pixel_to_inch(pos);
        proof {
            crate::field::lemma_field_in_range(pos[0] as int, pos[1] as int);
        }
        let c = self.current_pose;
        let corner = Pose { x: c.x, y: field[1], heading: c.heading };
        let target = Pose { x: field[0], y: field[1], heading: c.heading };
        let h = heading_from_to(corner, target, false);
        let end = Pose { x: field[0], y: field[1], heading: h };
        let id = self.take_id();
        let m = Movement::follow(
            vec![c, Pose { heading: h, ..corner }, end],
            FOLLOW_END_TOL,
            FOLLOW_TIMEOUT,
            FOLLOW_LOOKAHEAD,
            id,
        );
        let ghost old_path = path_models(self.path@);
        self.current_pose = end;
        self.path.push(m);
        proof {
            assert(m@.name =~= seq![]);
            assert(m@.ctrl =~= seq![c@, Pose { heading: h, ..corner }@, end@]);
            assert(path_models(self.path@) =~= old_path.push(m@));
            assert(valid_movement(m@));
        }
    }

    /// Removes the last segment, if any, and propagates the rest again.
    pub fn delete_last(&mut self)
        requires
            old(self).wf(),
        ensures
            final(self).wf(),
            old(self).path@.len() == 0 ==> final(self).path@ == old(self).path@
                && final(self).current_pose == old(self).current_pose,
            old(self).path@.len() > 0 ==> (path_models(final(self).path@), final(self).current_pose@)
                == propagate(path_models(old(self).path@).drop_last(), NO_EDIT, old(self).start_pose@),
            final(self).start_pose == old(self).start_pose,
            final(self).selected == old(self).selected,
            final(self).next_id == old(self).next_id,
    {
        if self.path.len() == 0 {
            return;
        }
        let ghost old_path = path_models(self.path@);
        self.path.pop();
        proof {
            assert(path_models(self.path@) =~= old_path.drop_last());
            assert forall|i: int| 0 <= i < path_models(self.path@).len() implies valid_movement(
                #[trigger] path_models(self.path@)[i],
            ) by {
                assert(valid_movement(old_path[i]));
            }
        }
        self.settle(NO_EDIT);
    }

    /// Moves the start of the path to `position` and propagates the whole path
    /// from it.
    pub fn change_start_pos(&mut self, position: Pose)
        requires
            old(self).wf(),
            valid_pose(position@),
        ensures
            final(self).wf(),
            final(self).start_pose == position,
            (path_models(final(self).path@), final(self).current_pose@) == propagate(
                path_models(old(self).path@),
                NO_EDIT,
                position@,
            ),
            final(self).selected == old(self).selected,
            final(self).next_id == old(self).next_id,
    {
        self.start_pose = position;
        self.settle(NO_EDIT);
    }

    /// Empties the path; the current pose returns to the start pose and ids
    /// start again from zero.
    pub fn clear(&mut self)
        requires
            old(self).wf(),
        ensures
            final(self).wf(),
            final(self).path@.len() == 0,
            final(self).current_pose == old(self).start_pose,
            final(self).start_pose == old(self).start_pose,
            final(self).selected == old(self).selected,
            final(self).next_id == 0,
    {
        self.path = Vec::new();
        self.current_pose = self.start_pose;
        self.next_id = 0;
    }

    /// Drops the selection.
    pub fn deselect_ctrl(&mut self)
        ensures
            final(self).selected.is_none(),
            final(self).path == old(self).path,
            final(self).current_pose == old(self).current_pose,
            final(self).start_pose == old(self).start_pose,
            final(self).next_id == old(self).next_id,
    {
        self.selected = None;
    }

    /// Changes the parameters of the first segment with id `id`, then
    /// propagates twice: once with its start as the edited point, once with
    /// no edit, to settle what the change moved. Nothing happens when no
    /// segment has that id.
    pub fn change_mvmt(&mut self, endtol: i64, timeout: i32, value: Tunable, id: i32)
        requires
            old(self).wf(),
            valid_tunable(value),
        ensures
            final(self).wf(),
            (forall|i: int| 0 <= i < old(self).path@.len() ==> #[trigger] old(self).path@[i].id != id)
                ==> final(self).path@ == old(self).path@ && final(self).current_pose
                == old(self).current_pose,
            forall|i: int|
                #![trigger first_with_id(path_models(old(self).path@), id, i)]
                first_with_id(path_models(old(self).path@), id, i) ==> {
                    let changed = path_models(old(self).path@).update(
                        i,
                        tuned(path_models(old(self).path@)[i], endtol, timeout, value),
                    );
                    let once = propagate(changed, (i as usize, 0), old(self).start_pose@).0;
                    (path_models(final(self).path@), final(self).current_pose@) == propagate(
                        once,
                        (0, 0),
                        old(self).start_pose@,
                    )
                },
            final(self).start_pose == old(self).start_pose,
            final(self).selected == old(self).selected,
            final(self).next_id == old(self).next_id,
    {
        let ghost old_path = path_models(self.path@);
        let mut i: usize = 0;
        while i < self.path.len() && self.path[i].id != id
            invariant
                i <= self.path.len(),
                old_path == path_models(self.path@),
                forall|k: int| 0 <= k < i ==> #[trigger] self.path@[k].id != id,
            decreases self.path.len() - i,
        {
            i += 1;
        }
        if i == self.path.len() {
            return;
        }
        assert(first_with_id(old_path, id, i as int));
        let mut m = Movement::follow(Vec::new(), 0, 0, 0, 0);
        self.path.set_and_swap(i, &mut m);
        let ghost m0 = m@;
        assert(m0 == old_path[i as int]);
        m.end_tol = endtol;
        m.timeout = timeout;
        match (m.kind, value) {
            (Kind::Turn { .. }, Tunable::Angle(a)) => {
                m.kind = Kind::Turn { angle: a };
            },
            (Kind::Lateral { .. }, Tunable::Distance(d)) => {
                m.kind = Kind::Lateral { distance: d };
            },
            (Kind::Command, Tunable::Name(n)) => {
                m.name = n;
            },
            (Kind::Follow, Tunable::Lookahead(l)) => {
                m.lookahead = l;
            },
            _ => {},
        }
        assert(m@ == tuned(m0, endtol, timeout, value));
        self.path.set_and_swap(i, &mut m);
        proof {
            let changed = old_path.update(i as int, tuned(m0, endtol, timeout, value));
            assert(path_models(self.path@) =~= changed);
            assert forall|k: int| 0 <= k < changed.len() implies valid_movement(
                #[trigger] changed[k],
            ) by {
                assert(valid_movement(old_path[k]));
            }
            assert forall|k: int|
                #![trigger first_with_id(old_path, id, k)]
                first_with_id(old_path, id, k) implies k == i by {
                if k < i {
                } else if k > i {
                    assert(old_path[i as int].id == id);
                }
            }
        }
        self.settle((i, 0));
        self.settle((0, 0));
    }

    /// Moves the selected control point to the pixel `pos`, keeping its
    /// heading, carries the neighbouring segment's shared point along (see
    /// `moved`), and propagates with that point as the edited one. Returns the
    /// moved point after propagation; without a selection that names a control
    /// point, nothing changes and `None` is returned.
    pub fn move_ctrl(&mut self, pos: [i32; 2]) -> (r: Option<Pose>)
        requires
            old(self).wf(),
        ensures
            final(self).wf(),
            final(self).start_pose == old(self).start_pose,
            final(self).selected == old(self).selected,
            final(self).next_id == old(self).next_id,
            match old(self).selected {
                Some((i, j)) if i < old(self).path@.len() && j < old(self).path@[i as int].ctrl@.len() => {
                    let p = path_models(old(self).path@);
                    let target = PoseModel {
                        x: field_x(pos[0] as int),
                        y: field_y(pos[1] as int),
                        ..p[i as int].ctrl[j as int]
                    };
                    &&& (path_models(final(self).path@), final(self).current_pose@) == propagate(
                        moved(p, i as int, j as int, target),
                        (i, j),
                        old(self).start_pose@,
                    )
                    &&& r matches Some(q) && q@ == path_models(final(self).path@)[i as int].ctrl[j as int]
                },
                _ => r is None && final(self).path == old(self).path && final(self).current_pose
                    == old(self).current_pose,
            },
    {
        let (i, j) = match self.selected {
            Some(ij) => ij,
            None => {
                return None;
            },
        };
        if i >= self.path.len() || j >= self.path[i].ctrl.len() {
            return None;
        }
        let ghost p = path_models(self.path@);
        let field = pixel_to_inch(pos);
        proof {
            crate::field::lemma_field_in_range(pos[0] as int, pos[1] as int);
            assert(valid_movement(p[i as int]));
            assert(valid_pose(p[i as int].ctrl[j as int]));
        }
        let old_pt = self.path[i].ctrl[j];
        let target = Pose { x: field[0], y: field[1], heading: old_pt.heading };
        let n = self.path.len();
        let last_pt = self.path[i].ctrl.len() - 1;
        if i == n - 1 && j == last_pt {
        } else if j == last_pt {
            let mut k = i + 1;
            while k < n && self.path[k].ctrl.len() == 0
                invariant
                    i < k <= n,
                    n == self.path@.len(),
                    p == path_models(self.path@),
                    next_nonempty(p, i + 1) == next_nonempty(p, k as int),
                decreases n - k,
            {
                assert(p[k as int].ctrl.len() == 0);
                k += 1;
            }
            if k < n {
                assert(p[k as int].ctrl.len() == self.path@[k as int].ctrl@.len());
                set_point(&mut self.path, k, 0, target);
            }
        } else if i > 0 && j == 0 {
            let mut k = i - 1;
            while k > 0 && self.path[k].ctrl.len() == 0
                invariant
                    k < i,
                    i < n,
                    n == self.path@.len(),
                    p == path_models(self.path@),
                    prev_nonempty(p, i - 1) == prev_nonempty(p, k as int),
                decreases k,
            {
                assert(p[k as int].ctrl.len() == 0);
                k -= 1;
            }
            assert(p[k as int].ctrl.len() == self.path@[k as int].ctrl@.len());
            if k == 0 {
                assert(prev_nonempty(p, -1) == -1);
            }
            if self.path[k].ctrl.len() > 0 {
                let l = self.path[k].ctrl.len() - 1;
                set_point(&mut self.path, k, l, target);
            }
        }
        assert(path_models(self.path@)[i as int] == p[i as int]);
        assert(self.path@.len() == n);
        assert(self.path@[i as int].ctrl@.len() == path_models(self.path@)[i as int].ctrl.len());
        set_point(&mut self.path, i, j, target);
        assert(path_models(self.path@) == moved(p, i as int, j as int, target@));
        self.settle((i, j));
        proof {
            let mv = moved(p, i as int, j as int, target@);
            lemma_propagate_len(mv, (i, j), self.start_pose@);
            crate::laws::lemma_propagate_index(mv, (i, j), self.start_pose@, i as int);
            assert(mv[i as int].ctrl.len() == p[i as int].ctrl.len());
            assert(path_models(self.path@)[i as int].ctrl.len() == self.path@[i as int].ctrl@.len());
        }
        let q = self.path[i].ctrl[j];
        Some(q)
    }

    /// Replaces the path by `movements`, as read from storage: the start pose
    /// becomes the first segment's first point (when there is one), ids are
    /// handed out from one past the largest present, and the path is
    /// propagated once with no edit but the first segment's start.
    pub fn load_route(&mut self, movements: Vec<Movement>)
        requires
            old(self).wf(),
            valid_path(path_models(movements@)),
            forall|i: int| 0 <= i < movements@.len() ==> #[trigger] movements@[i].id < i32::MAX,
        ensures
            final(self).wf(),
            final(self).start_pose@ == if movements@.len() > 0 && movements@[0].ctrl@.len() > 0 {
                movements@[0].ctrl@[0]@
            } else {
                old(self).start_pose@
            },
            final(self).next_id == max_id(path_models(movements@), movements@.len() as int) + 1,
            (path_models(final(self).path@), final(self).current_pose@) == propagate(
                path_models(movements@),
                (0, 0),
                final(self).start_pose@,
            ),
            final(self).selected == old(self).selected,
    {
        let ghost p = path_models(movements@);
        if movements.len() > 0 && movements[0].ctrl.len() > 0 {
            proof {
                assert(valid_movement(p[0]));
                assert(valid_pose(p[0].ctrl[0]));
            }
            self.start_pose = movements[0].ctrl[0];
        }
        let mut top: i32 = 0;
        let mut i: usize = 0;
        if movements.len() > 0 {
            top = movements[0].id;
            i = 1;
        }
        while i < movements.len()
            invariant
                i <= movements@.len(),
                movements@.len() > 0 ==> i >= 1,
                p == path_models(movements@),
                top == max_id(p, i as int),
                forall|q: int| 0 <= q < movements@.len() ==> #[trigger] movements@[q].id < i32::MAX,
                top < i32::MAX,
            decreases movements.len() - i,
        {
            if movements[i].id > top {
                top = movements[i].id;
            }
            i += 1;
        }
        self.next_id = top + 1;
        self.path = movements;
        self.settle((0, 0));
    }

    /// The display of the current path: its sampled curves and its control
    /// points in pixels, as `redraw` gives them.
    pub fn render(&mut self) -> (r: ((Vec<i32>, Vec<i32>), (Vec<i32>, Vec<i32>)))
        requires
            old(self).wf(),
        ensures
            final(self).path == old(self).path,
            final(self).current_pose == old(self).current_pose,
            final(self).start_pose == old(self).start_pose,
            final(self).selected == old(self).selected,
            final(self).next_id == old(self).next_id,
            r.1.0@ == handles_x(old(self).path@, old(self).path@.len() as int),
            r.1.1@ == handles_y(old(self).path@, old(self).path@.len() as int),
            r.0.0@ == curve_x(old(self).path@, old(self).path@.len() as int),
            r.0.1@ == curve_y(old(self).path@, old(self).path@.len() as int),
    {
        let mut p: Vec<Movement> = Vec::new();
        std::mem::swap(&mut p, &mut self.path);
        proof {
            crate::tessellate::lemma_path_coords(p@);
        }
        let (curve, handles, back) = redraw(p);
        self.path = back;
        (curve, handles)
    }

    /// Selects the control point of a follow segment nearest to the pixel
    /// `pos`, among those within the pick tolerance, the earliest one on a
    /// tie. The selection stays as it was when none is that close.
    pub fn select_ctrl(&mut self, pos: [i32; 2])
        requires
            old(self).wf(),
        ensures
            final(self).path == old(self).path,
            final(self).current_pose == old(self).current_pose,
            final(self).start_pose == old(self).start_pose,
            final(self).next_id == old(self).next_id,
            ({
                let p = path_models(old(self).path@);
                let x = field_x(pos[0] as int);
                let y = field_y(pos[1] as int);
                (forall|k: int, l: int| !#[trigger] pickable(p, x, y, k, l)) ==> final(self).selected
                    == old(self).selected
            }),
            ({
                let p = path_models(old(self).path@);
                let x = field_x(pos[0] as int);
                let y = field_y(pos[1] as int);
                (exists|k: int, l: int| #[trigger] pickable(p, x, y, k, l)) ==> {
                    &&& final(self).selected is Some
                    &&& forall|k: int, l: int|
                        #[trigger] pickable(p, x, y, k, l) ==> {
                            let (i, j) = final(self).selected->0;
                            let di = distance_to(p[i as int].ctrl[j as int], x, y);
                            let dk = distance_to(p[k].ctrl[l], x, y);
                            &&& pickable(p, x, y, i as int, j as int)
                            &&& di <= dk
                            &&& before(k, l, i as int, j as int) ==> di < dk
                        }
                }
            }),
    {
        let field = pixel_to_inch(pos);
        proof {
            crate::field::lemma_field_in_range(pos[0] as int, pos[1] as int);
        }
        let ghost p = path_models(self.path@);
        let ghost x = field[0] as int;
        let ghost y = field[1] as int;
        let mut best: Option<((usize, usize), u64)> = None;
        let mut i: usize = 0;
        while i < self.path.len()
            invariant
                p == path_models(self.path@),
                valid_path(p),
                i <= self.path.len(),
                x == field[0],
                y == field[1],
                valid_coord(x),
                valid_coord(y),
                best matches Some((ij, bd)) ==> {
                    &&& pickable(p, x, y, ij.0 as int, ij.1 as int)
                    &&& bd == distance_to(p[ij.0 as int].ctrl[ij.1 as int], x, y)
                    &&& ij.0 < i
                },
                best is None ==> forall|k: int, l: int| 0 <= k < i ==> !#[trigger] pickable(p, x, y, k, l),
                best matches Some((ij, bd)) ==> forall|k: int, l: int|
                    0 <= k < i && #[trigger] pickable(p, x, y, k, l) ==> {
                        &&& bd <= distance_to(p[k].ctrl[l], x, y)
                        &&& before(k, l, ij.0 as int, ij.1 as int) ==> bd < distance_to(p[k].ctrl[l], x, y)
                    },
            decreases self.path.len() - i,
        {
            let m = &self.path[i];
            assert(p[i as int] == m@);
            if m.is_follow() {
                let mut j: usize = 0;
                while j < m.ctrl.len()
                    invariant
                        p == path_models(self.path@),
                        valid_path(p),
                        i < self.path.len(),
                        *m == self.path@[i as int],
                        p[i as int] == m@,
                        m.kind is Follow,
                        j <= m.ctrl.len(),
                        x == field[0],
                        y == field[1],
                        valid_coord(x),
                        valid_coord(y),
                        best matches Some((ij, bd)) ==> {
                            &&& pickable(p, x, y, ij.0 as int, ij.1 as int)
                            &&& bd == distance_to(p[ij.0 as int].ctrl[ij.1 as int], x, y)
                            &&& before(ij.0 as int, ij.1 as int, i as int, j as int)
                        },
                        best is None ==> forall|k: int, l: int|
                            (0 <= k < i || (k == i && 0 <= l < j)) ==> !#[trigger] pickable(p, x, y, k, l),
                        best matches Some((ij, bd)) ==> forall|k: int, l: int|
                            (0 <= k < i || (k == i && 0 <= l < j)) && #[trigger] pickable(p, x, y, k, l) ==> {
                                &&& bd <= distance_to(p[k].ctrl[l], x, y)
                                &&& before(k, l, ij.0 as int, ij.1 as int) ==> bd < distance_to(p[k].ctrl[l], x, y)
                            },
                    decreases m.ctrl.len() - j,
                {
                    let pt = m.ctrl[j];
                    assert(valid_movement(p[i as int]));
                    assert(pt@ == p[i as int].ctrl[j as int]);
                    assert(valid_pose(p[i as int].ctrl[j as int]));
                    let d = dist_between((pt.x, pt.y), (field[0], field[1]));
                    if d < PICK_TOLERANCE {
                        let better = match best {
                            None => true,
                            Some((_, bd)) => d < bd,
                        };
                        if better {
                            best = Some(((i, j), d));
                        }
                    }
                    j += 1;
                }
            } else {
                assert(forall|l: int| !#[trigger] pickable(p, x, y, i as int, l));
            }
            i += 1;
        }
        if let Some((ij, _)) = best {
            self.selected = Some(ij);
        }
    }
}

} // verus!
