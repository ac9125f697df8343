use map_editor::geom::{Point, Side};
use map_editor::graph::{GraphError, InteractiveElementState, StreetMap};

fn pt(x: i64, y: i64) -> Point {
    Point { x, y }
}

/// A triangle with intersections 1, 2, 3 and streets 11 (1 -> 2),
/// 12 (2 -> 3), 13 (3 -> 1).
fn triangle() -> StreetMap {
    let mut m = StreetMap::new(1000, 1000);
    m.add_intersection_with_id(pt(0, 0), 1).unwrap();
    m.add_intersection_with_id(pt(100, 0), 2).unwrap();
    m.add_intersection_with_id(pt(50, 100), 3).unwrap();
    m.add_street_with_id(1, 2, 10, 11).unwrap();
    m.add_street_with_id(2, 3, 10, 12).unwrap();
    m.add_street_with_id(3, 1, 10, 13).unwrap();
    m
}

#[test]
fn add_and_lookup_elements() {
    let m = triangle();
    assert_eq!(m.intersections_length(), 3);
    assert_eq!(m.streets_length(), 3);
    assert_eq!(m.intersection(2).unwrap().position, pt(100, 0));
    assert_eq!(m.street(11).unwrap().start, 1);
    assert_eq!(m.street(11).unwrap().end, 2);
    assert!(m.intersection(99).is_none());
    assert!(m.street(99).is_none());
}

#[test]
fn duplicate_or_dangling_street_is_rejected() {
    let mut m = triangle();
    // id taken
    assert_eq!(
        m.add_street_with_id(1, 2, 10, 11),
        Err(GraphError::GraphConstraintViolation)
    );
    // endpoints must exist and differ
    assert_eq!(
        m.add_street_with_id(1, 42, 10, 44),
        Err(GraphError::GraphConstraintViolation)
    );
    assert_eq!(
        m.add_street_with_id(1, 1, 10, 44),
        Err(GraphError::GraphConstraintViolation)
    );
    assert_eq!(m.streets_length(), 3);
}

#[test]
fn referenced_intersection_cannot_be_removed() {
    let mut m = triangle();
    assert_eq!(
        m.remove_intersection(1),
        Err(GraphError::GraphConstraintViolation)
    );
    assert_eq!(m.intersections_length(), 3);
    // an absent id is a quiet no-op
    assert_eq!(m.remove_intersection(42), Ok(()));
}

#[test]
fn cascade_removal_takes_incident_streets() {
    let mut m = triangle();
    m.remove_intersection_cascade(1);
    assert_eq!(m.intersections_length(), 2);
    assert_eq!(m.streets_length(), 1);
    assert!(m.street(12).is_some());
    assert!(m.street(11).is_none());
    assert!(m.street(13).is_none());
}

#[test]
fn nearest_intersection_breaks_ties_by_insertion_order() {
    let mut m = StreetMap::new(1000, 1000);
    m.add_intersection_with_id(pt(10, 0), 1).unwrap();
    m.add_intersection_with_id(pt(-10, 0), 2).unwrap();
    m.add_intersection_with_id(pt(0, 3), 3).unwrap();
    // 3 is closest
    assert_eq!(m.nearest_intersection(pt(0, 0), 50), Some(3));
    // equally distant: the earlier insertion wins
    let mut m2 = StreetMap::new(1000, 1000);
    m2.add_intersection_with_id(pt(10, 0), 7).unwrap();
    m2.add_intersection_with_id(pt(-10, 0), 8).unwrap();
    assert_eq!(m2.nearest_intersection(pt(0, 0), 50), Some(7));
    // nothing within tolerance
    assert_eq!(m2.nearest_intersection(pt(500, 500), 10), None);
}

#[test]
fn nearest_street_measures_segment_distance() {
    let mut m = StreetMap::new(1000, 1000);
    m.add_intersection_with_id(pt(0, 0), 1).unwrap();
    m.add_intersection_with_id(pt(100, 0), 2).unwrap();
    m.add_intersection_with_id(pt(0, 80), 3).unwrap();
    m.add_intersection_with_id(pt(100, 80), 4).unwrap();
    m.add_street_with_id(1, 2, 10, 11).unwrap();
    m.add_street_with_id(3, 4, 10, 12).unwrap();
    // (50, 10) is 10 from street 11 and 70 from street 12
    assert_eq!(m.nearest_street(pt(50, 10), 50), Some(11));
    assert_eq!(m.get_nearest_street_to_position(pt(50, 70)), Some(12));
    // beyond the tolerance
    assert_eq!(m.nearest_street(pt(50, 40), 20), None);
    // past the endpoint the distance is to the endpoint, not the line
    assert_eq!(m.nearest_street(pt(140, 0), 30), None);
    assert_eq!(m.nearest_street(pt(120, 0), 30), Some(11));
}

#[test]
fn intersections_in_rectangle_bounds_are_inclusive() {
    let mut m = StreetMap::new(1000, 1000);
    m.add_intersection_with_id(pt(10, 10), 1).unwrap();
    m.add_intersection_with_id(pt(50, 50), 2).unwrap();
    m.add_intersection_with_id(pt(51, 50), 3).unwrap();
    m.add_intersection_with_id(pt(30, 9), 4).unwrap();
    let ids = m.intersections_in_rectangle(pt(10, 10), pt(50, 50));
    assert_eq!(ids, vec![1, 2]);
}

#[test]
fn side_of_position_uses_the_cross_product_sign() {
    let m = triangle();
    // interior of the triangle is left of street 11 (1 -> 2)
    assert_eq!(m.side_of_position(11, pt(50, 10)), Side::Left);
    assert_eq!(m.side_of_position(11, pt(50, -10)), Side::Right);
    // points exactly on the carrier line count as right
    assert_eq!(m.side_of_position(11, pt(50, 0)), Side::Right);
}

#[test]
fn rotation_neighbors_on_the_triangle() {
    let m = triangle();
    // walking 1 -> 2 with the interior on the left continues on street 12
    assert_eq!(m.rotation_next(11, Side::Left), Some(12));
    // the exterior side has no continuation at the corner
    assert_eq!(m.rotation_next(11, Side::Right), None);
    // walking backwards out of street 12's start continues on street 11
    assert_eq!(m.rotation_previous(12, Side::Left), Some(11));
}

#[test]
fn district_hit_test_uses_even_odd_rule() {
    let mut m = StreetMap::new(1000, 1000);
    let square = vec![pt(0, 0), pt(100, 0), pt(100, 100), pt(0, 100)];
    m.add_district_with_id(square, 21).unwrap();
    assert_eq!(m.get_district_at_position(pt(50, 50)), Some(21));
    assert_eq!(m.get_district_at_position(pt(150, 50)), None);
    assert!(m
        .district(21)
        .unwrap()
        .is_point_on_district(&pt(1, 1)));
    assert!(!m
        .district(21)
        .unwrap()
        .is_point_on_district(&pt(-1, 1)));
    assert!(m.remove_district(21));
    assert_eq!(m.get_district_at_position(pt(50, 50)), None);
}

#[test]
fn fresh_ids_are_nonzero() {
    let mut m = StreetMap::new(1000, 1000);
    let a = m.add_intersection(pt(0, 0)).unwrap();
    let b = m.add_intersection(pt(10, 0)).unwrap();
    assert_ne!(a, 0);
    assert_ne!(b, 0);
    assert_ne!(a, b);
    let s = m.add_street(a, b, 10).unwrap();
    assert_ne!(s, 0);
    assert_eq!(m.streets_length(), 1);
}

#[test]
fn translate_selected_is_all_or_nothing() {
    let mut m = StreetMap::new(1000, 1000);
    m.add_intersection_with_id(pt(0, 0), 1).unwrap();
    m.add_intersection_with_id(pt(10, 10), 2).unwrap();
    m.set_intersection_state(1, InteractiveElementState::Selected);
    m.set_intersection_state(2, InteractiveElementState::Selected);
    assert!(m.translate_selected(5, -5));
    assert_eq!(m.intersection(1).unwrap().position, pt(5, -5));
    assert_eq!(m.intersection(2).unwrap().position, pt(15, 5));
    // a move that would leave the world bounds moves nothing
    assert!(!m.translate_selected(100_000, 0));
    assert_eq!(m.intersection(1).unwrap().position, pt(5, -5));
    assert_eq!(m.intersection(2).unwrap().position, pt(15, 5));
}

#[test]
fn moving_an_endpoint_moves_the_derived_segment() {
    let mut m = StreetMap::new(1000, 1000);
    m.add_intersection_with_id(pt(0, 0), 1).unwrap();
    m.add_intersection_with_id(pt(100, 0), 2).unwrap();
    m.add_street_with_id(1, 2, 10, 11).unwrap();
    // near the segment before the move
    assert_eq!(m.nearest_street(pt(50, 5), 10), Some(11));
    assert!(m.set_intersection_position(2, pt(0, 100)));
    // the street now runs vertically: the old probe point is far away
    assert_eq!(m.nearest_street(pt(50, 5), 10), None);
    assert_eq!(m.nearest_street(pt(5, 50), 10), Some(11));
}
