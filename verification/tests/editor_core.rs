use map_editor::actions::{Action, CreateDistrictAction, CreateIntersection, History};
use map_editor::editor::{Editor, Mode, ModeKind};
use map_editor::geom::{Point, Side};
use map_editor::graph::{InteractiveElementState, StreetMap};
use map_editor::modes::{BoxSelectSystem, DeleteStreetState, MoveControlState};
use map_editor::tracer::create_district_for_street;

fn pt(x: i64, y: i64) -> Point {
    Point { x, y }
}

fn triangle() -> StreetMap {
    let mut m = StreetMap::new(1000, 1000);
    m.add_intersection_with_id(pt(0, 0), 1).unwrap();
    m.add_intersection_with_id(pt(100, 0), 2).unwrap();
    m.add_intersection_with_id(pt(50, 100), 3).unwrap();
    m.add_street_with_id(1, 2, 10, 11).unwrap();
    m.add_street_with_id(2, 3, 10, 12).unwrap();
    m.add_street_with_id(3, 1, 10, 13).unwrap();
    m
}

#[test]
fn tracing_the_triangle_interior_closes_with_three_points() {
    let m = triangle();
    // the interior lies left of street 11 (1 -> 2)
    let polygon = m.trace_face(11, Side::Left).unwrap();
    assert_eq!(polygon, vec![pt(0, 0), pt(100, 0), pt(50, 100)]);
    // the exterior side is unbounded
    assert_eq!(m.trace_face(11, Side::Right), None);
    // the same through the district entry point
    assert!(create_district_for_street(Side::Left, 11, &m).is_some());
    assert!(create_district_for_street(Side::Right, 11, &m).is_none());
}

#[test]
fn tracing_an_isolated_street_fails_on_both_sides() {
    let mut m = StreetMap::new(1000, 1000);
    m.add_intersection_with_id(pt(0, 0), 1).unwrap();
    m.add_intersection_with_id(pt(100, 0), 2).unwrap();
    m.add_street_with_id(1, 2, 10, 11).unwrap();
    assert_eq!(m.trace_face(11, Side::Left), None);
    assert_eq!(m.trace_face(11, Side::Right), None);
}

#[test]
fn tracing_a_square_face() {
    let mut m = StreetMap::new(1000, 1000);
    m.add_intersection_with_id(pt(0, 0), 1).unwrap();
    m.add_intersection_with_id(pt(100, 0), 2).unwrap();
    m.add_intersection_with_id(pt(100, 100), 3).unwrap();
    m.add_intersection_with_id(pt(0, 100), 4).unwrap();
    m.add_street_with_id(1, 2, 10, 11).unwrap();
    m.add_street_with_id(2, 3, 10, 12).unwrap();
    // a deliberately reversed edge exercises the direction/side flip
    m.add_street_with_id(4, 3, 10, 14).unwrap();
    m.add_street_with_id(4, 1, 10, 15).unwrap();
    let polygon = m.trace_face(11, Side::Left).unwrap();
    assert_eq!(polygon.len(), 4);
    assert_eq!(polygon[0], pt(0, 0));
    assert_eq!(polygon[1], pt(100, 0));
    assert_eq!(m.trace_face(11, Side::Right), None);
}

#[test]
fn perform_undo_restores_intersections() {
    let mut m = StreetMap::new(1000, 1000);
    m.add_intersection_with_id(pt(5, 5), 1).unwrap();
    let mut h = History::new();
    let before_count = m.intersections_length();
    let before_ids: Vec<u128> = m.intersections.iter().map(|i| i.id).collect();
    h.perform(
        Action::CreateIntersection(CreateIntersection::new_with_id(pt(42, 42), 77)),
        &mut m,
    );
    assert_eq!(m.intersections_length(), 2);
    h.undo(&mut m);
    assert_eq!(m.intersections_length(), before_count);
    let after_ids: Vec<u128> = m.intersections.iter().map(|i| i.id).collect();
    assert_eq!(after_ids, before_ids);
}

#[test]
fn undo_redo_reproduces_the_district() {
    let mut m = triangle();
    let polygon = m.trace_face(11, Side::Left).unwrap();
    let mut h = History::new();
    h.perform(
        Action::CreateDistrict(CreateDistrictAction::new_with_id(11, polygon.clone(), 99)),
        &mut m,
    );
    assert_eq!(m.districts_length(), 1);
    let original = m.district(99).unwrap().polygon.clone();
    h.undo(&mut m);
    assert_eq!(m.districts_length(), 0);
    h.redo(&mut m);
    assert_eq!(m.districts_length(), 1);
    assert_eq!(m.district(99).unwrap().polygon, original);
    assert_eq!(m.district(99).unwrap().polygon, polygon);
}

#[test]
fn performing_discards_the_undone_suffix() {
    let mut m = StreetMap::new(1000, 1000);
    let mut h = History::new();
    h.perform(
        Action::CreateIntersection(CreateIntersection::new_with_id(pt(1, 1), 5)),
        &mut m,
    );
    h.undo(&mut m);
    assert_eq!(h.redo_depth(), 1);
    h.perform(
        Action::CreateIntersection(CreateIntersection::new_with_id(pt(2, 2), 6)),
        &mut m,
    );
    assert_eq!(h.redo_depth(), 0);
    // a redo with an empty buffer is a no-op
    h.redo(&mut m);
    assert_eq!(m.intersections_length(), 1);
    // the one remaining action can be undone; a further undo is a no-op
    h.undo(&mut m);
    h.undo(&mut m);
    assert_eq!(h.undo_depth(), 0);
    assert_eq!(m.intersections_length(), 0);
}

#[test]
fn undo_of_an_externally_deleted_id_is_a_no_op() {
    let mut m = StreetMap::new(1000, 1000);
    let mut h = History::new();
    h.perform(
        Action::CreateIntersection(CreateIntersection::new_with_id(pt(1, 1), 5)),
        &mut m,
    );
    m.remove_intersection(5).unwrap();
    h.undo(&mut m);
    assert_eq!(m.intersections_length(), 0);
}

#[test]
fn action_labels_are_stable() {
    let a = Action::CreateIntersection(CreateIntersection::new_with_id(pt(0, 0), 1));
    assert_eq!(a.label(), "create_intersection");
}

#[test]
fn box_select_selects_exactly_the_rectangle() {
    let mut m = StreetMap::new(1000, 1000);
    m.add_intersection_with_id(pt(10, 10), 1).unwrap();
    m.add_intersection_with_id(pt(50, 50), 2).unwrap();
    m.add_intersection_with_id(pt(30, 30), 3).unwrap();
    m.add_intersection_with_id(pt(9, 30), 4).unwrap();
    m.add_intersection_with_id(pt(30, 51), 5).unwrap();
    let mut mode = BoxSelectSystem::new();
    mode.mouse_down(pt(10, 10), 0, &mut m);
    mode.mouse_move(pt(50, 50), &mut m);
    mode.mouse_up(pt(50, 50), 0, &mut m);
    let sel = |m: &StreetMap, id: u128| {
        m.intersection(id).unwrap().state == InteractiveElementState::Selected
    };
    assert!(sel(&m, 1));
    assert!(sel(&m, 2));
    assert!(sel(&m, 3));
    assert!(!sel(&m, 4));
    assert!(!sel(&m, 5));
    // the rectangle is cleared afterwards
    assert!(!mode.active);
}

#[test]
fn box_select_normalizes_the_corners() {
    let mut m = StreetMap::new(1000, 1000);
    m.add_intersection_with_id(pt(30, 30), 1).unwrap();
    let mut mode = BoxSelectSystem::new();
    mode.mouse_down(pt(50, 50), 0, &mut m);
    mode.mouse_move(pt(10, 10), &mut m);
    mode.mouse_up(pt(10, 10), 0, &mut m);
    assert_eq!(
        m.intersection(1).unwrap().state,
        InteractiveElementState::Selected
    );
}

#[test]
fn move_control_drag_preserves_relative_offsets() {
    let mut m = StreetMap::new(1000, 1000);
    m.add_intersection_with_id(pt(100, 100), 1).unwrap();
    m.add_intersection_with_id(pt(200, 200), 2).unwrap();
    m.set_intersection_state(1, InteractiveElementState::Selected);
    m.set_intersection_state(2, InteractiveElementState::Selected);
    let mut mode = MoveControlState::new();
    mode.enter(&mut m);
    // the gizmo sits at the arithmetic mean of the selection
    assert_eq!(mode.gizmo_position, pt(150, 150));
    mode.mouse_down(pt(150, 150), 0, &mut m);
    assert!(mode.dragging);
    mode.mouse_move(pt(160, 170), &mut m);
    mode.mouse_up(pt(160, 170), 0, &mut m);
    let p1 = m.intersection(1).unwrap().position;
    let p2 = m.intersection(2).unwrap().position;
    assert_eq!(p1, pt(110, 120));
    assert_eq!(p2, pt(210, 220));
    assert_eq!(p2.x - p1.x, 100);
    assert_eq!(p2.y - p1.y, 100);
}

#[test]
fn move_control_click_on_empty_space_clears_selection() {
    let mut m = StreetMap::new(1000, 1000);
    m.add_intersection_with_id(pt(100, 100), 1).unwrap();
    m.set_intersection_state(1, InteractiveElementState::Selected);
    let mut mode = MoveControlState::new();
    mode.enter(&mut m);
    // far from both the gizmo and any intersection
    mode.mouse_down(pt(900, 900), 0, &mut m);
    assert_eq!(
        m.intersection(1).unwrap().state,
        InteractiveElementState::Normal
    );
}

#[test]
fn delete_street_mode_removes_undoably() {
    let mut m = triangle();
    let mut h = History::new();
    let mut mode = DeleteStreetState::new();
    mode.mouse_move(pt(50, 2), &mut m);
    assert_eq!(mode.hovered_street, Some(11));
    assert_eq!(
        m.street(11).unwrap().state,
        InteractiveElementState::Hover
    );
    mode.mouse_up(pt(50, 2), 0, &mut m, &mut h);
    assert!(m.street(11).is_none());
    assert_eq!(m.streets_length(), 2);
    h.undo(&mut m);
    assert_eq!(m.streets_length(), 3);
    assert!(m.street(11).is_some());
}

#[test]
fn create_street_drag_commits_an_undoable_street() {
    let mut e = Editor::new(1000, 1000);
    e.switch_to_mode(ModeKind::CreateStreet);
    e.mouse_down(100, 100, 0);
    // mid-drag the preview is in the graph
    assert_eq!(e.intersections_length(), 2);
    assert_eq!(e.streets_length(), 1);
    e.mouse_move(300, 100);
    e.mouse_up(300, 100, 0);
    assert_eq!(e.intersections_length(), 2);
    assert_eq!(e.streets_length(), 1);
    // the whole gesture is three undoable actions
    e.undo();
    assert_eq!(e.streets_length(), 0);
    e.undo();
    e.undo();
    assert_eq!(e.intersections_length(), 0);
    e.redo();
    e.redo();
    e.redo();
    assert_eq!(e.intersections_length(), 2);
    assert_eq!(e.streets_length(), 1);
}

#[test]
fn switching_out_mid_drag_leaves_no_preview() {
    let mut e = Editor::new(1000, 1000);
    e.switch_to_mode(ModeKind::CreateStreet);
    e.mouse_down(100, 100, 0);
    e.mouse_move(250, 180);
    assert_eq!(e.intersections_length(), 2);
    assert_eq!(e.streets_length(), 1);
    e.switch_to_mode(ModeKind::Idle);
    assert_eq!(e.intersections_length(), 0);
    assert_eq!(e.streets_length(), 0);
    assert!(matches!(e.mode, Mode::Idle(_)));
}

#[test]
fn create_district_mode_traces_and_registers() {
    let mut e = Editor::new(1000, 1000);
    e.map = triangle();
    e.switch_to_mode(ModeKind::CreateDistrict);
    // hover over street 11, release inside the triangle
    e.mouse_move(50, 2);
    e.mouse_up(50, 10, 0);
    assert_eq!(e.map.districts_length(), 1);
    assert_eq!(e.map.districts[0].polygon.len(), 3);
    e.undo();
    assert_eq!(e.map.districts_length(), 0);
    e.redo();
    assert_eq!(e.map.districts_length(), 1);
}

#[test]
fn delete_district_mode_removes_undoably() {
    let mut e = Editor::new(1000, 1000);
    e.map = triangle();
    let polygon = e.map.trace_face(11, Side::Left).unwrap();
    e.map.add_district_with_id(polygon, 21).unwrap();
    e.switch_to_mode(ModeKind::DeleteDistrict);
    e.mouse_move(50, 30);
    assert_eq!(
        e.map.district(21).unwrap().state,
        InteractiveElementState::Hover
    );
    e.mouse_up(50, 30, 0);
    assert_eq!(e.map.districts_length(), 0);
    e.undo();
    assert_eq!(e.map.districts_length(), 1);
    assert_eq!(e.map.districts[0].polygon.len(), 3);
}

#[test]
fn create_district_release_on_the_open_side_does_nothing() {
    let mut e = Editor::new(1000, 1000);
    e.map = triangle();
    e.switch_to_mode(ModeKind::CreateDistrict);
    e.mouse_move(50, 2);
    // releasing below street 11 asks for the unbounded exterior face
    e.mouse_up(50, 0, 0);
    assert_eq!(e.map.districts_length(), 0);
}

#[test]
fn editor_basics() {
    let mut e = Editor::new(640, 480);
    assert_eq!(e.width(), 640);
    assert_eq!(e.height(), 480);
    assert_eq!(e.intersections_length(), 0);
    assert_eq!(e.streets_length(), 0);
    e.set_render_intersections(false);
    e.set_render_streets(false);
    assert!(!e.render_intersections);
    assert!(!e.render_streets);
    e.switch_to_mode(ModeKind::BoxSelect);
    assert!(matches!(e.mode, Mode::BoxSelect(_)));
    e.switch_to_mode(ModeKind::MoveControl);
    assert!(matches!(e.mode, Mode::MoveControl(_)));
}

#[test]
fn property_update_clamps_the_house_side() {
    let mut m = triangle();
    let polygon = m.trace_face(11, Side::Left).unwrap();
    m.add_district_with_id(polygon, 21).unwrap();
    let mut mode = map_editor::modes::CreateDistrict::new();
    mode.property_updated(5000, &mut m);
    assert_eq!(mode.minimum_house_side, 1000);
    assert_eq!(m.district(21).unwrap().minimum_house_side, 1000);
    mode.property_updated(3, &mut m);
    assert_eq!(mode.minimum_house_side, 20);
    mode.property_updated(400, &mut m);
    assert_eq!(m.district(21).unwrap().minimum_house_side, 400);
}

#[test]
fn render_plan_reflects_flags_and_overlay() {
    let mut e = Editor::new(640, 480);
    e.switch_to_mode(ModeKind::BoxSelect);
    let plan = e.render();
    assert!(plan.draw_intersections);
    assert!(plan.draw_streets);
    assert!(plan.selection_rectangle.is_none());
    e.mouse_down(10, 20, 0);
    e.mouse_move(60, 90);
    let plan = e.render();
    assert_eq!(
        plan.selection_rectangle,
        Some((pt(10, 20), pt(60, 90)))
    );
    e.set_render_streets(false);
    assert!(!e.render().draw_streets);
}
