use auton_path::editor::{Editor, Tunable, NO_EDIT};
use auton_path::geometry::{Heading, Pose, HEADING_UNIT};
use auton_path::movement::{Kind, Movement};
use auton_path::propagate::repopulate;

fn pose(x: i64, y: i64, cos: i64, sin: i64) -> Pose {
    Pose { x, y, heading: Heading { cos, sin } }
}

fn up() -> Heading {
    Heading { cos: 0, sin: HEADING_UNIT }
}

fn same_paths(a: &[Movement], b: &[Movement]) -> bool {
    a.len() == b.len()
        && a.iter().zip(b.iter()).all(|(p, q)| {
            p.ctrl == q.ctrl
                && p.kind == q.kind
                && p.end_tol == q.end_tol
                && p.timeout == q.timeout
                && p.lookahead == q.lookahead
                && p.name == q.name
                && p.id == q.id
        })
}

#[test]
fn lateral_then_turn_from_origin() {
    let start = pose(0, 0, 0, HEADING_UNIT);
    let mut ed = Editor::new(start);
    ed.add_lateral_movement(12_000, 2_000, 5_000);
    ed.add_turn_movement(up(), 2_000, 5_000);
    ed.change_start_pos(start);
    assert_eq!(ed.path.len(), 2);
    assert_eq!(ed.path[0].ctrl[1], pose(0, 12_000, 0, HEADING_UNIT));
    assert_eq!(ed.path[1].ctrl, vec![pose(0, 12_000, 0, HEADING_UNIT), pose(0, 12_000, 0, HEADING_UNIT)]);
    assert_eq!(ed.current_pose, pose(0, 12_000, 0, HEADING_UNIT));
}

#[test]
fn lateral_then_turn_settled_without_edit() {
    let start = pose(0, 0, 0, HEADING_UNIT);
    let path = vec![
        Movement::lateral(start, 12_000, 2_000, 5_000, 1),
        Movement::turn(pose(0, 12_000, 0, HEADING_UNIT), up(), 2_000, 5_000, 2),
    ];
    let (out, end) = repopulate(path, (0, 0), start);
    assert_eq!(out[0].ctrl, vec![start, pose(0, 12_000, 0, HEADING_UNIT)]);
    assert_eq!(out[1].ctrl[0], pose(0, 12_000, 0, HEADING_UNIT));
    assert_eq!(out[1].ctrl[1], pose(0, 12_000, 0, HEADING_UNIT));
    assert_eq!(end, pose(0, 12_000, 0, HEADING_UNIT));
}

#[test]
fn lateral_displacement_along_heading() {
    let start = pose(1_000, 2_000, 600_000, 800_000);
    let path = vec![Movement::lateral(start, 10_000, 0, 0, 1)];
    let (out, end) = repopulate(path, NO_EDIT, start);
    assert_eq!(out[0].ctrl[1].x, 7_000);
    assert_eq!(out[0].ctrl[1].y, 10_000);
    assert_eq!(end.x, 7_000);
    assert_eq!(end.heading, Heading { cos: 600_000, sin: 800_000 });
}

#[test]
fn zero_lateral_ends_at_start() {
    let start = pose(5_000, -3_000, HEADING_UNIT, 0);
    let path = vec![Movement::lateral(start, 0, 0, 0, 1)];
    let (out, _) = repopulate(path, NO_EDIT, start);
    assert_eq!(out[0].ctrl[1].x, out[0].ctrl[0].x);
    assert_eq!(out[0].ctrl[1].y, out[0].ctrl[0].y);
}

#[test]
fn backward_lateral_turns_heading_around() {
    let start = pose(0, 0, HEADING_UNIT, 0);
    let path = vec![Movement::lateral(start, -4_000, 0, 0, 1)];
    let (out, end) = repopulate(path, NO_EDIT, start);
    assert_eq!(out[0].ctrl[1].x, -4_000);
    assert_eq!(end.heading, Heading { cos: -HEADING_UNIT, sin: 0 });
}

#[test]
fn reversed_follow_heading() {
    let start = pose(0, 0, HEADING_UNIT, 0);
    let ctrl = vec![start, pose(1_000, 0, 0, 0), pose(2_000, 1_000, 0, 0)];
    let path = vec![Movement::follow(ctrl, 0, 0, -5_000, 1)];
    let (out, _) = repopulate(path, NO_EDIT, start);
    // direction (1000, 1000) has length floor(sqrt(2e6)) = 1414
    let d = 1_000 * HEADING_UNIT / 1_414;
    assert_eq!(out[0].ctrl[2].heading, Heading { cos: -d, sin: -d });
}

#[test]
fn forward_follow_heading() {
    let start = pose(0, 0, HEADING_UNIT, 0);
    let ctrl = vec![start, pose(0, 3_000, 0, 0), pose(0, 6_000, 0, 0)];
    let path = vec![Movement::follow(ctrl, 0, 0, 18_000, 1)];
    let (out, end) = repopulate(path, NO_EDIT, start);
    assert_eq!(end.heading, up());
    assert_eq!(out[0].ctrl[2].heading, up());
}

#[test]
fn command_sits_at_current_pose() {
    let start = pose(3_000, 4_000, 0, HEADING_UNIT);
    let path = vec![Movement::command(pose(0, 0, 0, 0), "intake".to_string(), 1)];
    let (out, end) = repopulate(path, NO_EDIT, start);
    assert_eq!(out[0].ctrl[0].x, 3_000);
    assert_eq!(out[0].ctrl[1].y, 4_000);
    assert_eq!(end.x, 3_000);
    // a command keeps the heading it starts with
    assert_eq!(end.heading, up());
    assert_eq!(out[0].ctrl[1], out[0].ctrl[0]);
}

#[test]
fn lateral_after_command_keeps_heading() {
    let start = pose(0, 0, 0, HEADING_UNIT);
    let mut ed = Editor::new(start);
    ed.add_command("grab".to_string());
    ed.add_lateral_movement(5_000, 0, 0);
    ed.change_start_pos(start);
    assert_eq!((ed.current_pose.x, ed.current_pose.y), (0, 5_000));
}

#[test]
fn one_point_segments_are_inert() {
    let start = pose(0, 0, HEADING_UNIT, 0);
    let lone = pose(7_000, 8_000, 0, HEADING_UNIT);
    let path = vec![
        Movement::new(vec![lone], Kind::Lateral { distance: 3_000 }, 0, 0, "".to_string(), 0, 1),
        Movement::new(vec![lone], Kind::Turn { angle: up() }, 0, 0, "".to_string(), 0, 2),
        Movement::new(vec![lone], Kind::Follow, 0, 0, "".to_string(), 0, 3),
    ];
    let (out, end) = repopulate(path, NO_EDIT, start);
    assert!(out.iter().all(|m| m.ctrl == vec![lone]));
    assert_eq!(end, lone);
    let path = vec![Movement::new(vec![lone], Kind::Lateral { distance: 3_000 }, 0, 0, "".to_string(), 0, 1)];
    let (out, _) = repopulate(path, (0, 0), start);
    assert_eq!(out[0].ctrl, vec![lone]);
}

fn sample_path() -> (Vec<Movement>, Pose) {
    let start = pose(0, 0, 0, HEADING_UNIT);
    let path = vec![
        Movement::lateral(start, 10_000, 1, 2, 1),
        Movement::follow(
            vec![pose(50, 50, 0, 0), pose(4_000, 14_000, 0, 0), pose(9_000, 20_000, 0, 0)],
            3,
            4,
            18_000,
            2,
        ),
        Movement::new(vec![], Kind::Follow, 0, 0, "".to_string(), 0, 3),
        Movement::turn(pose(1, 1, 0, 0), Heading { cos: -HEADING_UNIT, sin: 0 }, 0, 0, 4),
        Movement::lateral(pose(7, 7, HEADING_UNIT, 0), 2_500, 0, 0, 5),
    ];
    (path, start)
}

#[test]
fn propagation_is_idempotent() {
    let (path, start) = sample_path();
    let (once, end1) = repopulate(path, NO_EDIT, start);
    let copy: Vec<Movement> = once.iter().map(|m| m.duplicate()).collect();
    let (twice, end2) = repopulate(copy, (0, 0), start);
    assert!(same_paths(&once, &twice));
    assert_eq!(end1, end2);
}

#[test]
fn propagation_restores_continuity() {
    let (path, start) = sample_path();
    let (out, _) = repopulate(path, NO_EDIT, start);
    assert_eq!(out[1].ctrl[0], out[0].ctrl[1]);
    assert_eq!(out[3].ctrl[0], out[1].ctrl[2]);
    assert_eq!(out[4].ctrl[0], out[3].ctrl[1]);
    assert!(out[2].ctrl.is_empty());
}

#[test]
fn edited_start_is_kept() {
    let (path, start) = sample_path();
    let (out, _) = repopulate(path, (1, 0), start);
    assert_eq!(out[1].ctrl[0], pose(50, 50, 0, 0));
    assert_eq!(out[0].ctrl[0], start);
}

#[test]
fn turn_ends_with_its_angle() {
    let (path, start) = sample_path();
    let (out, _) = repopulate(path, NO_EDIT, start);
    assert_eq!(out[3].ctrl[1].heading, Heading { cos: -HEADING_UNIT, sin: 0 });
    assert_eq!(out[3].ctrl[1].x, out[1].ctrl[2].x);
    assert_eq!(out[4].ctrl[1].x, 9_000 - 2_500);
}

#[test]
fn delete_last_propagates_rest() {
    let start = pose(0, 0, HEADING_UNIT, 0);
    let mut ed = Editor::new(start);
    ed.add_lateral_movement(1_000, 0, 0);
    ed.add_lateral_movement(2_000, 0, 0);
    assert_eq!(ed.current_pose.x, 3_000);
    ed.delete_last();
    assert_eq!(ed.path.len(), 1);
    assert_eq!(ed.current_pose.x, 1_000);
    ed.delete_last();
    assert_eq!(ed.current_pose, start);
    ed.delete_last();
    assert!(ed.path.is_empty());
}

#[test]
fn ids_increase_and_clear_resets() {
    let mut ed = Editor::new(pose(0, 0, HEADING_UNIT, 0));
    ed.add_lateral_movement(1_000, 0, 0);
    ed.add_command("shoot".to_string());
    ed.add_turn_movement(up(), 0, 0);
    let ids: Vec<i32> = ed.path.iter().map(|m| m.id).collect();
    assert_eq!(ids, vec![1, 2, 3]);
    assert_eq!(ed.next_id, 4);
    ed.clear();
    assert!(ed.path.is_empty());
    assert_eq!(ed.next_id, 0);
    assert_eq!(ed.current_pose, ed.start_pose);
}

#[test]
fn change_mvmt_moves_downstream() {
    let mut ed = Editor::new(pose(0, 0, HEADING_UNIT, 0));
    ed.add_lateral_movement(1_000, 0, 0);
    ed.add_lateral_movement(1_000, 0, 0);
    ed.change_mvmt(5, 6, Tunable::Distance(4_000), 1);
    assert_eq!(ed.path[0].kind, Kind::Lateral { distance: 4_000 });
    assert_eq!(ed.path[0].end_tol, 5);
    assert_eq!(ed.path[0].timeout, 6);
    assert_eq!(ed.path[1].ctrl[0].x, 4_000);
    assert_eq!(ed.current_pose.x, 5_000);
}

#[test]
fn change_mvmt_unknown_id_changes_nothing() {
    let mut ed = Editor::new(pose(0, 0, HEADING_UNIT, 0));
    ed.add_lateral_movement(1_000, 0, 0);
    ed.change_mvmt(5, 6, Tunable::Distance(4_000), 42);
    assert_eq!(ed.path[0].kind, Kind::Lateral { distance: 1_000 });
    assert_eq!(ed.current_pose.x, 1_000);
}

#[test]
fn change_mvmt_mismatched_value_sets_only_common_fields() {
    let mut ed = Editor::new(pose(0, 0, HEADING_UNIT, 0));
    ed.add_turn_movement(up(), 0, 0);
    ed.change_mvmt(9, 10, Tunable::Distance(4_000), 1);
    assert_eq!(ed.path[0].kind, Kind::Turn { angle: up() });
    assert_eq!(ed.path[0].end_tol, 9);
}

#[test]
fn change_start_moves_whole_path() {
    let mut ed = Editor::new(pose(0, 0, HEADING_UNIT, 0));
    ed.add_lateral_movement(1_000, 0, 0);
    ed.change_start_pos(pose(500, 500, 0, HEADING_UNIT));
    assert_eq!(ed.path[0].ctrl[0], pose(500, 500, 0, HEADING_UNIT));
    assert_eq!(ed.path[0].ctrl[1].y, 1_500);
    assert_eq!(ed.current_pose.y, 1_500);
}

#[test]
fn command_names_lose_quotes() {
    let mut ed = Editor::new(pose(0, 0, HEADING_UNIT, 0));
    ed.add_command("\"shoot\" now".to_string());
    assert_eq!(ed.path[0].name, "shoot now");
    assert_eq!(ed.path[0].kind, Kind::Command);
}

#[test]
fn edited_command_keeps_its_start() {
    let start = pose(0, 0, HEADING_UNIT, 0);
    let path = vec![Movement::command(pose(5_000, 6_000, 0, HEADING_UNIT), "grab".to_string(), 1)];
    let (out, end) = repopulate(path, (0, 0), start);
    assert_eq!((out[0].ctrl[0].x, out[0].ctrl[0].y), (5_000, 6_000));
    assert_eq!((out[0].ctrl[1].x, out[0].ctrl[1].y), (5_000, 6_000));
    assert_eq!((end.x, end.y), (5_000, 6_000));
}
