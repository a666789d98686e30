use auton_path::curve::{bezier_curve, CurveError};
use auton_path::editor::Editor;
use auton_path::export::{export_movement, export_route, ExportBlock};
use auton_path::field::{dist_between, inch_to_pixel, inch_to_pixel_x, inch_to_pixel_y, pixel_to_inch};
use auton_path::geometry::{heading_from_to, isqrt, Heading, Pose, HEADING_UNIT};
use auton_path::movement::{Kind, Movement};
use auton_path::record::{from_records, to_records};
use auton_path::tessellate::{redraw, sample_movement};

fn pose(x: i64, y: i64) -> Pose {
    Pose { x, y, heading: Heading { cos: HEADING_UNIT, sin: 0 } }
}

#[test]
fn two_point_lateral_has_three_samples() {
    let m = Movement::lateral(pose(0, 0), 24_000, 0, 0, 1);
    let (xs, ys) = sample_movement(&m).unwrap();
    assert_eq!(xs.len(), 3);
    assert_eq!(xs, vec![638, 677, 716]);
    assert_eq!(ys, vec![339, 339, 339]);
}

#[test]
fn other_segments_have_twenty_samples() {
    let follow = Movement::follow(vec![pose(0, 0), pose(1_000, 1_000), pose(2_000, 0)], 0, 0, 0, 1);
    let turn = Movement::turn(pose(0, 0), Heading { cos: 0, sin: HEADING_UNIT }, 0, 0, 2);
    let command = Movement::command(pose(0, 0), "x".to_string(), 3);
    let one = Movement::new(vec![pose(0, 0)], Kind::Lateral { distance: 5 }, 0, 0, "".to_string(), 0, 4);
    for m in [follow, turn, command, one] {
        let (xs, ys) = sample_movement(&m).unwrap();
        assert_eq!(xs.len(), 20);
        assert_eq!(ys.len(), 20);
    }
}

#[test]
fn empty_segment_cannot_be_sampled() {
    let m = Movement::follow(vec![], 0, 0, 0, 1);
    assert_eq!(sample_movement(&m).unwrap_err(), CurveError::Empty);
    assert_eq!(bezier_curve(&vec![], 5).unwrap_err(), CurveError::Empty);
}

#[test]
fn quadratic_curve_exact_samples() {
    let pts = vec![pose(0, 0), pose(1_000, 2_000), pose(2_000, 0)];
    let (xs, ys) = bezier_curve(&pts, 3).unwrap();
    assert_eq!(xs, vec![0, 1_000, 2_000]);
    assert_eq!(ys, vec![0, 1_000, 0]);
    let (xs, ys) = bezier_curve(&pts, 5).unwrap();
    // t = 1/4: x = (0 + 2*3*1000 + 2000) / 16 = 500, y = 2*3*2000 / 16 = 750
    assert_eq!(xs[1], 500);
    assert_eq!(ys[1], 750);
    let (xs, _) = bezier_curve(&pts, 1).unwrap();
    assert_eq!(xs, vec![0]);
    let (xs, _) = bezier_curve(&pts, 0).unwrap();
    assert!(xs.is_empty());
}

#[test]
fn negative_samples_round_toward_zero() {
    let pts = vec![pose(0, 0), pose(-1, -1)];
    let (xs, ys) = bezier_curve(&pts, 3).unwrap();
    assert_eq!(xs, vec![0, 0, -1]);
    assert_eq!(ys, vec![0, 0, -1]);
}

#[test]
fn many_points_are_sampled() {
    let pts: Vec<Pose> = (0..40).map(|i| pose(i * 1_000, -i * 1_000)).collect();
    let (xs, ys) = bezier_curve(&pts, 20).unwrap();
    assert_eq!((xs[0], ys[0]), (0, 0));
    assert_eq!((xs[19], ys[19]), (39_000, -39_000));
}

#[test]
fn redraw_lists_samples_and_handles() {
    let path = vec![
        Movement::lateral(pose(0, 0), 24_000, 0, 0, 1),
        Movement::follow(vec![], 0, 0, 0, 2),
        Movement::command(pose(24_000, 0), "c".to_string(), 3),
    ];
    let ((cx, cy), (hx, hy), back) = redraw(path);
    assert_eq!(cx.len(), 23);
    assert_eq!(cy.len(), 23);
    assert_eq!(hx, vec![638, 716, 716, 716]);
    assert_eq!(hy, vec![339, 339, 339, 339]);
    assert_eq!(back.len(), 3);
}

#[test]
fn pixel_conversions() {
    assert_eq!(inch_to_pixel_x(0), 638);
    assert_eq!(inch_to_pixel_x(24_000), 716);
    assert_eq!(inch_to_pixel_y(24_000), 261);
    assert_eq!(inch_to_pixel_x(-24_000), 560);
    assert_eq!(inch_to_pixel([48_000, -48_000]), [794, 495]);
    assert_eq!(pixel_to_inch([716, 261]), [24_000, 24_000]);
    assert_eq!(pixel_to_inch([639, 339]), [307, 0]);
    assert_eq!(pixel_to_inch([637, 340]), [-307, -307]);
    assert_eq!(inch_to_pixel_x(i64::MAX), i32::MAX);
}

#[test]
fn distances_and_roots() {
    assert_eq!(dist_between((0, 0), (3_000, 4_000)), 5_000);
    assert_eq!(dist_between((1, 1), (1, 1)), 0);
    assert_eq!(dist_between((0, 0), (1, 1)), 1);
    assert_eq!(isqrt(99), 9);
    assert_eq!(isqrt(100), 10);
    assert_eq!(isqrt(u128::MAX), u64::MAX as u128);
}

#[test]
fn headings_between_points() {
    let h = heading_from_to(pose(0, 0), pose(0, 5), false);
    assert_eq!(h, Heading { cos: 0, sin: HEADING_UNIT });
    let h = heading_from_to(pose(0, 0), pose(3, 4), true);
    assert_eq!(h, Heading { cos: -600_000, sin: -800_000 });
    let h = heading_from_to(pose(7, 7), pose(7, 7), false);
    assert_eq!(h, Heading { cos: HEADING_UNIT, sin: 0 });
}

#[test]
fn records_round_trip() {
    let path = vec![
        Movement::lateral(pose(0, 0), 3_000, 1, 2, 1),
        Movement::turn(pose(3_000, 0), Heading { cos: 0, sin: -HEADING_UNIT }, 3, 4, 2),
        Movement::command(pose(3_000, 0), "lift".to_string(), 3),
        Movement::follow(vec![pose(1, 2), pose(3, 4), pose(5, 6)], 7, 8, -9, 4),
    ];
    let records = to_records(&path);
    assert_eq!(records[0].distance, 3_000);
    assert_eq!(records[1].angle, Some(Heading { cos: 0, sin: -HEADING_UNIT }));
    assert_eq!(records[2].angle, None);
    let back = from_records(records);
    for (a, b) in path.iter().zip(back.iter()) {
        assert_eq!(a.ctrl, b.ctrl);
        assert_eq!(a.kind, b.kind);
        assert_eq!(a.name, b.name);
        assert_eq!(a.id, b.id);
        assert_eq!(a.lookahead, b.lookahead);
    }
}

#[test]
fn zero_lateral_reads_back_as_follow() {
    let path = vec![Movement::lateral(pose(0, 0), 0, 0, 0, 1)];
    let back = from_records(to_records(&path));
    assert_eq!(back[0].kind, Kind::Follow);
}

#[test]
fn load_route_sets_start_and_ids() {
    let mut ed = Editor::new(pose(0, 0));
    let path = vec![
        Movement::lateral(Pose { x: 1_000, y: 0, heading: Heading { cos: 0, sin: HEADING_UNIT } }, 2_000, 0, 0, 7),
        Movement::command(pose(0, 0), "c".to_string(), 3),
    ];
    ed.load_route(path);
    assert_eq!(ed.start_pose.x, 1_000);
    assert_eq!(ed.next_id, 8);
    assert_eq!(ed.path[1].ctrl[0].y, 2_000);
    assert_eq!(ed.current_pose.y, 2_000);
}

#[test]
fn click_select_and_move() {
    let mut ed = Editor::new(pose(0, 0));
    ed.click([716, 261]);
    assert_eq!(ed.path.len(), 1);
    assert_eq!(ed.path[0].ctrl.len(), 3);
    assert_eq!(ed.path[0].ctrl[2].x, 24_000);
    assert_eq!(ed.path[0].ctrl[1].x, 0);
    assert_eq!(ed.path[0].ctrl[1].y, 24_000);
    assert_eq!(ed.current_pose.heading, Heading { cos: HEADING_UNIT, sin: 0 });
    ed.select_ctrl([716, 262]);
    assert_eq!(ed.selected, Some((0, 2)));
    let moved = ed.move_ctrl([794, 261]).unwrap();
    assert_eq!(moved.x, 48_000);
    assert_eq!(ed.current_pose.x, 48_000);
    ed.deselect_ctrl();
    assert_eq!(ed.move_ctrl([0, 0]), None);
}

#[test]
fn select_prefers_nearest_then_earliest() {
    let mut ed = Editor::new(pose(0, 0));
    ed.click([639, 339]);
    ed.click([639, 339]);
    // every point of both curves is within a pixel of the origin
    ed.select_ctrl([638, 339]);
    assert_eq!(ed.selected, Some((0, 0)));
    ed.select_ctrl([300, 30]);
    assert_eq!(ed.selected, Some((0, 0)));
}

#[test]
fn export_blocks_by_variant() {
    let path = vec![
        Movement::lateral(pose(0, 0), 3_000, 1, 2, 1),
        Movement::turn(pose(3_000, 0), Heading { cos: 0, sin: HEADING_UNIT }, 3, 4, 2),
        Movement::command(pose(3_000, 0), "lift".to_string(), 3),
        Movement::follow(vec![pose(0, 0), pose(1_000, 2_000), pose(2_000, 0)], 7, 8, 9, 4),
    ];
    let blocks = export_route(&path);
    assert_eq!(blocks.len(), 4);
    assert!(matches!(blocks[0], ExportBlock::Lateral { distance: 3_000, end_tol: 1, timeout: 2 }));
    assert!(matches!(blocks[2], ExportBlock::Command { ref name } if name == "lift"));
    match &blocks[3] {
        ExportBlock::Route { xs, ys, lookahead, .. } => {
            assert_eq!(*lookahead, 9);
            assert_eq!(xs.len(), 20);
            assert_eq!(xs[0], 0);
            assert_eq!(xs[19], 2_000);
            assert_eq!(ys[19], 0);
        }
        _ => panic!("expected a route block"),
    }
    let (xs, _) = export_movement(&path, 4).unwrap();
    assert_eq!(xs.len(), 10);
    assert!(export_movement(&path, 1).is_none());
}

#[test]
fn moving_a_first_point_keeps_it_as_edited() {
    let mut ed = Editor::new(pose(0, 0));
    ed.add_lateral_movement(24_000, 0, 0);
    ed.click([794, 339]);
    // the follow curve starts at the lateral's end, pixel (716, 339)
    ed.select_ctrl([716, 339]);
    assert_eq!(ed.selected, Some((1, 0)));
    let moved = ed.move_ctrl([716, 261]).unwrap();
    assert_eq!((moved.x, moved.y), (24_000, 24_000));
    assert_eq!((ed.path[1].ctrl[0].x, ed.path[1].ctrl[0].y), (24_000, 24_000));
    // the lateral keeps its own end, recomputed from its distance
    assert_eq!((ed.path[0].ctrl[1].x, ed.path[0].ctrl[1].y), (24_000, 0));
}

#[test]
fn moving_a_last_point_carries_the_next_start() {
    let mut ed = Editor::new(pose(0, 0));
    ed.click([716, 339]);
    ed.click([794, 339]);
    ed.select_ctrl([716, 339]);
    assert_eq!(ed.selected, Some((0, 2)));
    ed.move_ctrl([716, 261]);
    assert_eq!((ed.path[0].ctrl[2].x, ed.path[0].ctrl[2].y), (24_000, 24_000));
    assert_eq!((ed.path[1].ctrl[0].x, ed.path[1].ctrl[0].y), (24_000, 24_000));
    assert_eq!(ed.current_pose.x, 48_000);
}

#[test]
fn stale_selection_moves_nothing() {
    let mut ed = Editor::new(pose(0, 0));
    ed.click([716, 339]);
    ed.select_ctrl([716, 339]);
    ed.delete_last();
    assert_eq!(ed.move_ctrl([0, 0]), None);
    assert!(ed.path.is_empty());
}

#[test]
fn twenty_points_are_sampled() {
    let pts: Vec<Pose> = (0..20).map(|i| pose(1_000 * i, -4_194_304)).collect();
    let (xs, ys) = bezier_curve(&pts, 20).unwrap();
    assert_eq!(xs.len(), 20);
    assert_eq!(xs[0], 0);
    assert_eq!(xs[19], 19_000);
    // a straight, evenly spaced control polygon is sampled evenly, up to one
    // unit of rounding per round of interpolation
    assert!((xs[10] - 10_000).abs() <= 19);
    assert!(ys.iter().all(|y| *y == -4_194_304));
}

#[test]
fn far_points_and_many_samples() {
    let pts = vec![pose(5_000_000, 0), pose(-1_000_000_000_000_000, 1_000_000_000_000_000)];
    let (xs, ys) = bezier_curve(&pts, 3).unwrap();
    assert_eq!(xs[0], 5_000_000);
    assert_eq!(xs[2], -1_000_000_000_000_000);
    assert_eq!(ys[1], 500_000_000_000_000);
    let pts = vec![pose(0, 0)];
    let (xs, _) = bezier_curve(&pts, 21).unwrap();
    assert_eq!(xs, vec![0; 21]);
    let pts = vec![pose(0, 0), pose(1_000, 0)];
    let (xs, _) = bezier_curve(&pts, 1_001).unwrap();
    assert_eq!(xs[500], 500);
    assert_eq!(xs[1_000], 1_000);
}

#[test]
fn far_follow_gets_twenty_samples() {
    let path = vec![Movement::follow(vec![pose(5_000_000, 0), pose(5_010_000, 0)], 0, 0, 0, 1)];
    let ((cx, cy), _, _) = redraw(path);
    assert_eq!(cx.len(), 20);
    assert_eq!(cy.len(), 20);
}

#[test]
fn headings_do_not_change_samples() {
    let a = vec![pose(0, 0), pose(1_000, 3_000), pose(2_000, 0)];
    let b: Vec<Pose> = a.iter().map(|p| Pose { heading: Heading { cos: 0, sin: -HEADING_UNIT }, ..*p }).collect();
    assert_eq!(bezier_curve(&a, 7).unwrap(), bezier_curve(&b, 7).unwrap());
}

#[test]
fn load_route_with_negative_ids() {
    let mut ed = Editor::new(pose(0, 0));
    let path = vec![Movement::command(pose(0, 0), "c".to_string(), -5), Movement::command(pose(0, 0), "d".to_string(), -9)];
    ed.load_route(path);
    assert_eq!(ed.next_id, -4);
}
