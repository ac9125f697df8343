//! The interaction-mode state machine: mutually exclusive editing modes that
//! translate raw pointer events into graph queries and mutations.
//!
//! Modes hold transient, mode-local data only. Selection and hover changes
//! mutate the graph directly (they are not undoable); structural edits go
//! through the action engine. `enter` and `exit` are paired by the editor
//! when it switches modes, and `exit` leaves the graph free of any preview
//! artifacts the mode created.

use vstd::prelude::*;

use crate::actions::{self, Action, History};
use crate::geom::{in_rect, normalize_rect, side_of, valid_point, Point, Side};
use crate::graph::{InteractiveElementState, Intersection, Street, StreetMap};
use crate::tracer::trace_face_spec;

verus! {

/// Pointer tolerance for hitting an intersection.
pub const INTERSECTION_HIT_TOLERANCE: i64 = 50;

/// Pointer tolerance for hitting a street.
pub const STREET_HIT_TOLERANCE: i64 = 50;

/// Pointer tolerance for grabbing the move gizmo.
pub const GIZMO_HIT_TOLERANCE: i64 = 20;

/// Width given to streets drawn interactively.
pub const DEFAULT_STREET_WIDTH: i64 = 20;

/// The resting mode: all input is ignored.
#[derive(Clone, Copy, PartialEq, Eq, Structural, Debug)]
pub struct IdleState {}

impl IdleState {
    pub fn new() -> (r: IdleState)
        ensures
            r == (IdleState {  }),
    {
        IdleState {  }
    }
}

/// Drag-selection of intersections with an axis-aligned rectangle.
#[derive(Clone, Copy, PartialEq, Eq, Structural, Debug)]
pub struct BoxSelectSystem {
    pub selection_min: Point,
    pub selection_max: Point,
    pub active: bool,
}

impl BoxSelectSystem {
    pub fn new() -> (r: BoxSelectSystem)
        ensures
            r == BoxSelectSystem::default_spec(),
    {
        BoxSelectSystem {
            selection_min: Point { x: 0, y: 0 },
            selection_max: Point { x: 0, y: 0 },
            active: false,
        }
    }

    pub open spec fn default_spec() -> BoxSelectSystem {
        BoxSelectSystem {
            selection_min: Point { x: 0, y: 0 },
            selection_max: Point { x: 0, y: 0 },
            active: false,
        }
    }

    /// Anchors one corner of the selection rectangle at the pointer.
    pub fn mouse_down(&mut self, mouse_pos: Point, button: u32, map: &mut StreetMap)
        ensures
            *final(map) == *old(map),
            *final(self) == (BoxSelectSystem {
                selection_min: mouse_pos,
                selection_max: old(self).selection_max,
                active: true,
            }),
    {
        self.selection_min = mouse_pos;
        self.active = true;
    }

    /// Tracks the opposite corner of the selection rectangle.
    pub fn mouse_move(&mut self, mouse_pos: Point, map: &mut StreetMap)
        ensures
            *final(map) == *old(map),
            *final(self) == (BoxSelectSystem {
                selection_min: old(self).selection_min,
                selection_max: mouse_pos,
                active: old(self).active,
            }),
    {
        self.selection_max = mouse_pos;
    }

    /// Marks every intersection inside the normalized rectangle as selected
    /// and clears the rectangle. Intersections outside keep their state.
    pub fn mouse_up(&mut self, mouse_pos: Point, button: u32, map: &mut StreetMap)
        requires
            old(map).wf(),
        ensures
            final(map).wf(),
            final(map).intersections@ == old(map).selected_in_rect(
                normalized_min(old(self).selection_min, old(self).selection_max),
                normalized_max(old(self).selection_min, old(self).selection_max),
            ),
            final(map).streets@ == old(map).streets@,
            final(map).districts@ == old(map).districts@,
            final(map).width == old(map).width,
            final(map).height == old(map).height,
            *final(self) == BoxSelectSystem::default_spec(),
    {
        let (min, max) = normalize_rect(self.selection_min, self.selection_max);
        map.select_intersections_in_rectangle(min, max);
        self.selection_min = Point { x: 0, y: 0 };
        self.selection_max = Point { x: 0, y: 0 };
        self.active = false;
    }

    /// The rectangle to draw while a drag is active.
    pub fn overlay_rect(&self) -> (r: Option<(Point, Point)>)
        ensures
            self.active ==> r == Some((self.selection_min, self.selection_max)),
            !self.active ==> r is None,
    {
        if self.active {
            Some((self.selection_min, self.selection_max))
        } else {
            None
        }
    }

    pub fn enter(&mut self, map: &mut StreetMap)
        ensures
            *final(map) == *old(map),
            *final(self) == *old(self),
    {
    }

    pub fn exit(&self, map: &mut StreetMap)
        ensures
            *final(map) == *old(map),
    {
    }
}

impl Default for BoxSelectSystem {
    /// The inactive selection with both corners at the origin.
    fn default() -> (r: BoxSelectSystem)
        ensures
            r == BoxSelectSystem::default_spec(),
    {
        BoxSelectSystem::new()
    }
}

/// The lower-left corner of the rectangle spanned by two drag corners.
pub open spec fn normalized_min(a: Point, b: Point) -> Point {
    Point {
        x: if a.x <= b.x {
            a.x
        } else {
            b.x
        },
        y: if a.y <= b.y {
            a.y
        } else {
            b.y
        },
    }
}

/// The upper-right corner of the rectangle spanned by two drag corners.
pub open spec fn normalized_max(a: Point, b: Point) -> Point {
    Point {
        x: if a.x <= b.x {
            b.x
        } else {
            a.x
        },
        y: if a.y <= b.y {
            b.y
        } else {
            a.y
        },
    }
}

/// Releasing a box selection over a graph with nothing selected marks exactly
/// the intersections whose position lies inside the rectangle (bounds
/// inclusive) as selected, and moves nothing.
pub proof fn lemma_box_select_selects_exactly(m0: StreetMap, min: Point, max: Point, m1: StreetMap)
    requires
        m1.intersections@ == m0.selected_in_rect(min, max),
        forall|k: int|
            0 <= k < m0.intersections@.len() ==> (#[trigger] m0.intersections@[k]).state
                != InteractiveElementState::Selected,
    ensures
        m1.intersections@.len() == m0.intersections@.len(),
        forall|k: int|
            0 <= k < m1.intersections@.len() ==> (((#[trigger] m1.intersections@[k]).state
                == InteractiveElementState::Selected) <==> in_rect(
                m0.intersections@[k].position,
                min,
                max,
            )),
        forall|k: int|
            0 <= k < m1.intersections@.len() ==> (#[trigger] m1.intersections@[k]).position
                == m0.intersections@[k].position && m1.intersections@[k].id
                == m0.intersections@[k].id,
{
}

/// Hover-highlights the street under the pointer; removes it on release,
/// undoably, through the action engine.
#[derive(Clone, Copy, PartialEq, Eq, Structural, Debug)]
pub struct DeleteStreetState {
    pub hovered_street: Option<u128>,
}

impl DeleteStreetState {
    pub fn new() -> (r: DeleteStreetState)
        ensures
            r == (DeleteStreetState { hovered_street: Option::<u128>::None }),
    {
        DeleteStreetState { hovered_street: None }
    }

    pub fn mouse_down(&mut self, mouse_pos: Point, button: u32, map: &mut StreetMap)
        ensures
            *final(map) == *old(map),
            *final(self) == *old(self),
    {
    }

    /// Clears the old hover highlight and highlights the street nearest to
    /// the pointer, within tolerance.
    pub fn mouse_move(&mut self, mouse_pos: Point, map: &mut StreetMap)
        requires
            old(map).wf(),
            valid_point(mouse_pos),
        ensures
            final(map).wf(),
            hover_street_effect(
                old(self).hovered_street,
                final(self).hovered_street,
                *old(map),
                *final(map),
                mouse_pos,
            ),
    {
        hover_nearest_street(&mut self.hovered_street, mouse_pos, map);
    }

    /// Removes the street under the pointer, if any, through the action
    /// engine so the removal can be undone.
    pub fn mouse_up(
        &mut self,
        mouse_pos: Point,
        button: u32,
        map: &mut StreetMap,
        history: &mut History,
    )
        requires
            old(map).wf(),
            valid_point(mouse_pos),
        ensures
            final(map).wf(),
            final(self).hovered_street is None,
            match nearest_street_hit(*old(map), mouse_pos, Some(STREET_HIT_TOLERANCE)) {
                Some(id) => actions::dls_apply_map(
                    actions::DeleteStreet { id, removed: Option::<crate::graph::Street>::None },
                    *old(map),
                    *final(map),
                ) && final(history).done@ == old(history).done@.push(
                    actions::apply_act(
                        Action::DeleteStreet(
                            actions::DeleteStreet {
                                id,
                                removed: Option::<crate::graph::Street>::None,
                            },
                        ),
                        *old(map),
                    ),
                ) && final(history).undone@.len() == 0,
                None => *final(map) == *old(map) && final(history).done@ == old(history).done@
                    && final(history).undone@ == old(history).undone@,
            },
    {
        let near = map.nearest_street(mouse_pos, STREET_HIT_TOLERANCE);
        proof {
            lemma_nearest_street_hit_agrees(*map, mouse_pos, Some(STREET_HIT_TOLERANCE), near);
        }
        match near {
            Some(id) => {
                history.perform(
                    Action::DeleteStreet(actions::DeleteStreet::new(id)),
                    map,
                );
            },
            None => {},
        }
        self.hovered_street = None;
    }

    pub fn enter(&mut self, map: &mut StreetMap)
        ensures
            *final(map) == *old(map),
            *final(self) == *old(self),
    {
    }

    /// Clears the hover highlight this mode may have left.
    pub fn exit(&self, map: &mut StreetMap)
        requires
            old(map).wf(),
        ensures
            final(map).wf(),
            clear_street_hover_effect(self.hovered_street, *old(map), *final(map)),
    {
        match self.hovered_street {
            Some(id) => {
                let cleared = map.set_street_state(id, InteractiveElementState::Normal);
            },
            None => {},
        }
    }
}

impl Default for DeleteStreetState {
    /// The mode with nothing hovered.
    fn default() -> (r: DeleteStreetState)
        ensures
            r == (DeleteStreetState { hovered_street: Option::<u128>::None }),
    {
        DeleteStreetState::new()
    }
}

/// The street a pointer at `pos` acts on: the nearest one within the given
/// tolerance (`None`: no bound).
pub open spec fn nearest_street_hit(m: StreetMap, pos: Point, tol: Option<i64>) -> Option<u128> {
    if exists|id: u128|
        m.has_street(id) && #[trigger] m.is_nearest_street_idx(pos, tol, m.street_idx(id)) {
        Some(
            choose|id: u128|
                m.has_street(id) && #[trigger] m.is_nearest_street_idx(pos, tol, m.street_idx(id)),
        )
    } else {
        None
    }
}

/// `nearest_street` lands on `nearest_street_hit` (under well-formedness the
/// nearest qualifying street is unique).
proof fn lemma_nearest_street_hit_agrees(m: StreetMap, pos: Point, tol: Option<i64>, r: Option<u128>)
    requires
        m.wf(),
        match r {
            Some(id) => m.has_street(id) && m.is_nearest_street_idx(pos, tol, m.street_idx(id)),
            None => forall|j: int|
                0 <= j < m.streets@.len() ==> !(#[trigger] m.street_within(pos, tol, j)),
        },
    ensures
        r == nearest_street_hit(m, pos, tol),
{
    match r {
        Some(id) => {
            assert(nearest_street_hit(m, pos, tol) is Some);
            let id2 = choose|id2: u128|
                m.has_street(id2) && #[trigger] m.is_nearest_street_idx(pos, tol, m.street_idx(id2));
            let k = m.street_idx(id);
            let k2 = m.street_idx(id2);
            assert(m.street_within(pos, tol, k));
            assert(m.street_within(pos, tol, k2));
            assert(m.street_closer_eq(pos, k, k2) && m.street_closer_eq(pos, k2, k));
            assert(k == k2);
            assert(m.streets@[k].id == id && m.streets@[k2].id == id2);
        },
        None => {
            if nearest_street_hit(m, pos, tol) is Some {
                let id2 = choose|id2: u128|
                    m.has_street(id2) && #[trigger] m.is_nearest_street_idx(
                        pos,
                        tol,
                        m.street_idx(id2),
                    );
                assert(m.street_within(pos, tol, m.street_idx(id2)));
            }
        },
    }
}

/// The exact effect of a hover pass over the streets: geometry untouched, the
/// new hover is the nearest street within tolerance and is highlighted, the
/// old hover is cleared, everything else keeps its state.
pub open spec fn hover_street_effect(
    old_hover: Option<u128>,
    new_hover: Option<u128>,
    m0: StreetMap,
    m1: StreetMap,
    pos: Point,
) -> bool {
    &&& m1.intersections@ == m0.intersections@
    &&& m1.districts@ == m0.districts@
    &&& m1.width == m0.width
    &&& m1.height == m0.height
    &&& m1.streets@.len() == m0.streets@.len()
    &&& forall|k: int|
        0 <= k < m1.streets@.len() ==> (#[trigger] m1.streets@[k]).id == m0.streets@[k].id
            && m1.streets@[k].start == m0.streets@[k].start && m1.streets@[k].end
            == m0.streets@[k].end && m1.streets@[k].width == m0.streets@[k].width
    &&& new_hover == nearest_street_hit(m0, pos, Some(STREET_HIT_TOLERANCE))
    &&& match new_hover {
        Some(id) => m1.has_street(id) && m1.street_at(id).state == InteractiveElementState::Hover,
        None => true,
    }
    &&& forall|k: int|
        0 <= k < m1.streets@.len() && Some((#[trigger] m1.streets@[k]).id) != new_hover
            ==> m1.streets@[k].state == (if old_hover == Some(m0.streets@[k].id) {
            InteractiveElementState::Normal
        } else {
            m0.streets@[k].state
        })
}

/// The exact effect of clearing a street hover on exit: the hovered street,
/// if still present, goes back to normal; nothing else changes.
pub open spec fn clear_street_hover_effect(
    hover: Option<u128>,
    m0: StreetMap,
    m1: StreetMap,
) -> bool {
    match hover {
        Some(id) => if m0.has_street(id) {
            m1.intersections@ == m0.intersections@ && m1.districts@ == m0.districts@ && m1.width
                == m0.width && m1.height == m0.height && m1.streets@ == m0.streets@.update(
                m0.street_idx(id),
                crate::graph::Street {
                    id: m0.street_at(id).id,
                    start: m0.street_at(id).start,
                    end: m0.street_at(id).end,
                    width: m0.street_at(id).width,
                    state: InteractiveElementState::Normal,
                },
            )
        } else {
            m1 == m0
        },
        None => m1 == m0,
    }
}

/// Shared hover pass: clears the old highlight, highlights the nearest
/// street within tolerance, and records it.
fn hover_nearest_street(hovered: &mut Option<u128>, pos: Point, map: &mut StreetMap)
    requires
        old(map).wf(),
        valid_point(pos),
    ensures
        final(map).wf(),
        hover_street_effect(*old(hovered), *final(hovered), *old(map), *final(map), pos),
{
    let ghost m0 = *map;
    let near = map.nearest_street(pos, STREET_HIT_TOLERANCE);
    proof {
        lemma_nearest_street_hit_agrees(*map, pos, Some(STREET_HIT_TOLERANCE), near);
    }
    match *hovered {
        Some(old_id) => {
            let cleared = map.set_street_state(old_id, InteractiveElementState::Normal);
        },
        None => {},
    }
    let ghost m_mid = *map;
    match near {
        Some(id) => {
            proof {
                if m0.has_street(id) {
                    let k = m0.street_idx(id);
                    assert(m_mid.streets@[k].id == id);
                    m_mid.lemma_street_idx_is(k, id);
                }
            }
            let set = map.set_street_state(id, InteractiveElementState::Hover);
            *hovered = Some(id);
            proof {
                let k = m0.street_idx(id);
                assert(map.streets@[k].id == id);
                map.lemma_street_idx_is(k, id);
            }
        },
        None => {
            *hovered = None;
        },
    }
}

/// The district a pointer at `pos` acts on: the first (in insertion order)
/// whose polygon contains the point.
pub open spec fn district_hit(m: StreetMap, pos: Point) -> Option<u128> {
    if exists|id: u128|
        m.has_district(id) && #[trigger] crate::geom::point_in_polygon(
            pos,
            m.district_at(id).polygon@,
        ) && (forall|j: int|
            0 <= j < m.district_idx(id) ==> !crate::geom::point_in_polygon(
                pos,
                (#[trigger] m.districts@[j]).polygon@,
            )) {
        Some(
            choose|id: u128|
                m.has_district(id) && #[trigger] crate::geom::point_in_polygon(
                    pos,
                    m.district_at(id).polygon@,
                ) && (forall|j: int|
                    0 <= j < m.district_idx(id) ==> !crate::geom::point_in_polygon(
                        pos,
                        (#[trigger] m.districts@[j]).polygon@,
                    )),
        )
    } else {
        None
    }
}

/// `get_district_at_position` lands on `district_hit` (under well-formedness
/// the first containing district is unique).
proof fn lemma_district_hit_agrees(m: StreetMap, pos: Point, r: Option<u128>)
    requires
        m.wf(),
        match r {
            Some(id) => m.has_district(id) && crate::geom::point_in_polygon(
                pos,
                m.district_at(id).polygon@,
            ) && (forall|j: int|
                0 <= j < m.district_idx(id) ==> !crate::geom::point_in_polygon(
                    pos,
                    (#[trigger] m.districts@[j]).polygon@,
                )),
            None => forall|j: int|
                0 <= j < m.districts@.len() ==> !crate::geom::point_in_polygon(
                    pos,
                    (#[trigger] m.districts@[j]).polygon@,
                ),
        },
    ensures
        r == district_hit(m, pos),
{
    match r {
        Some(id) => {
            assert(district_hit(m, pos) is Some);
            let id2 = choose|id2: u128|
                m.has_district(id2) && #[trigger] crate::geom::point_in_polygon(
                    pos,
                    m.district_at(id2).polygon@,
                ) && (forall|j: int|
                    0 <= j < m.district_idx(id2) ==> !crate::geom::point_in_polygon(
                        pos,
                        (#[trigger] m.districts@[j]).polygon@,
                    ));
            let k = m.district_idx(id);
            let k2 = m.district_idx(id2);
            if k < k2 {
                assert(!crate::geom::point_in_polygon(pos, m.districts@[k].polygon@));
            }
            if k2 < k {
                assert(!crate::geom::point_in_polygon(pos, m.districts@[k2].polygon@));
            }
            assert(k == k2);
            assert(m.districts@[k].id == id && m.districts@[k2].id == id2);
        },
        None => {
            if district_hit(m, pos) is Some {
                let id2 = choose|id2: u128|
                    m.has_district(id2) && #[trigger] crate::geom::point_in_polygon(
                        pos,
                        m.district_at(id2).polygon@,
                    ) && (forall|j: int|
                        0 <= j < m.district_idx(id2) ==> !crate::geom::point_in_polygon(
                            pos,
                            (#[trigger] m.districts@[j]).polygon@,
                        ));
                assert(!crate::geom::point_in_polygon(pos, m.districts@[m.district_idx(id2)].polygon@));
            }
        },
    }
}

/// The exact effect of a hover pass over the districts: structure untouched,
/// the new hover is the district under the pointer and is highlighted, the
/// old hover is cleared, everything else keeps its state.
pub open spec fn hover_district_effect(
    old_hover: Option<u128>,
    new_hover: Option<u128>,
    m0: StreetMap,
    m1: StreetMap,
    pos: Point,
) -> bool {
    &&& m1.intersections@ == m0.intersections@
    &&& m1.streets@ == m0.streets@
    &&& m1.width == m0.width
    &&& m1.height == m0.height
    &&& m1.districts@.len() == m0.districts@.len()
    &&& forall|k: int|
        0 <= k < m1.districts@.len() ==> (#[trigger] m1.districts@[k]).id == m0.districts@[k].id
            && m1.districts@[k].polygon == m0.districts@[k].polygon
            && m1.districts@[k].minimum_house_side == m0.districts@[k].minimum_house_side
    &&& new_hover == district_hit(m0, pos)
    &&& match new_hover {
        Some(id) => m1.has_district(id) && m1.district_at(id).state
            == InteractiveElementState::Hover,
        None => true,
    }
    &&& forall|k: int|
        0 <= k < m1.districts@.len() && Some((#[trigger] m1.districts@[k]).id) != new_hover
            ==> m1.districts@[k].state == (if old_hover == Some(m0.districts@[k].id) {
            InteractiveElementState::Normal
        } else {
            m0.districts@[k].state
        })
}

/// Hover-highlights the district under the pointer; removes it on release,
/// undoably, through the action engine.
#[derive(Clone, Copy, PartialEq, Eq, Structural, Debug)]
pub struct DeleteDistrict {
    pub hovered_district: Option<u128>,
}

impl DeleteDistrict {
    pub fn new() -> (r: DeleteDistrict)
        ensures
            r == (DeleteDistrict { hovered_district: Option::<u128>::None }),
    {
        DeleteDistrict { hovered_district: None }
    }

    pub fn mouse_down(&mut self, mouse_pos: Point, button: u32, map: &mut StreetMap)
        ensures
            *final(map) == *old(map),
            *final(self) == *old(self),
    {
    }

    /// Clears the old hover highlight and highlights the district under the
    /// pointer.
    pub fn mouse_move(&mut self, mouse_pos: Point, map: &mut StreetMap)
        requires
            old(map).wf(),
            valid_point(mouse_pos),
        ensures
            final(map).wf(),
            hover_district_effect(
                old(self).hovered_district,
                final(self).hovered_district,
                *old(map),
                *final(map),
                mouse_pos,
            ),
    {
        let ghost m0 = *map;
        let hit = map.get_district_at_position(mouse_pos);
        proof {
            lemma_district_hit_agrees(*map, mouse_pos, hit);
        }
        match self.hovered_district {
            Some(old_id) => {
                let cleared = map.set_district_state(old_id, InteractiveElementState::Normal);
            },
            None => {},
        }
        let ghost m_mid = *map;
        match hit {
            Some(id) => {
                proof {
                    if m0.has_district(id) {
                        let k = m0.district_idx(id);
                        assert(m_mid.districts@[k].id == id);
                        m_mid.lemma_district_idx_is(k, id);
                    }
                }
                let set = map.set_district_state(id, InteractiveElementState::Hover);
                self.hovered_district = Some(id);
                proof {
                    let k = m0.district_idx(id);
                    assert(map.districts@[k].id == id);
                    map.lemma_district_idx_is(k, id);
                }
            },
            None => {
                self.hovered_district = None;
            },
        }
    }

    /// Removes the district under the pointer, if any, through the action
    /// engine so the removal can be undone.
    pub fn mouse_up(
        &mut self,
        mouse_pos: Point,
        button: u32,
        map: &mut StreetMap,
        history: &mut History,
    )
        requires
            old(map).wf(),
            valid_point(mouse_pos),
        ensures
            final(map).wf(),
            final(self).hovered_district is None,
            match district_hit(*old(map), mouse_pos) {
                Some(id) => actions::dld_apply_map(
                    actions::DeleteDistrict { id, removed: Option::<crate::graph::District>::None },
                    *old(map),
                    *final(map),
                ) && final(history).done@.len() == old(history).done@.len() + 1 && final(history).undone@.len() == 0,
                None => *final(map) == *old(map) && final(history).done@ == old(history).done@
                    && final(history).undone@ == old(history).undone@,
            },
    {
        let hit = map.get_district_at_position(mouse_pos);
        proof {
            lemma_district_hit_agrees(*map, mouse_pos, hit);
        }
        match hit {
            Some(id) => {
                history.perform(Action::DeleteDistrict(actions::DeleteDistrict::new(id)), map);
            },
            None => {},
        }
        self.hovered_district = None;
    }

    pub fn enter(&mut self, map: &mut StreetMap)
        ensures
            *final(map) == *old(map),
            *final(self) == *old(self),
    {
    }

    /// Clears the hover highlight this mode may have left.
    pub fn exit(&self, map: &mut StreetMap)
        requires
            old(map).wf(),
        ensures
            final(map).wf(),
            final(map).intersections@ == old(map).intersections@,
            final(map).streets@ == old(map).streets@,
            final(map).width == old(map).width,
            final(map).height == old(map).height,
            match self.hovered_district {
                Some(id) => if old(map).has_district(id) {
                    final(map).districts@ == old(map).districts@.update(
                        old(map).district_idx(id),
                        crate::graph::District {
                            id: old(map).district_at(id).id,
                            polygon: old(map).district_at(id).polygon,
                            state: InteractiveElementState::Normal,
                            minimum_house_side: old(map).district_at(id).minimum_house_side,
                        },
                    )
                } else {
                    final(map).districts@ == old(map).districts@
                },
                None => final(map).districts@ == old(map).districts@,
            },
    {
        match self.hovered_district {
            Some(id) => {
                let cleared = map.set_district_state(id, InteractiveElementState::Normal);
            },
            None => {},
        }
    }
}

impl Default for DeleteDistrict {
    /// The mode with nothing hovered.
    fn default() -> (r: DeleteDistrict)
        ensures
            r == (DeleteDistrict { hovered_district: Option::<u128>::None }),
    {
        DeleteDistrict::new()
    }
}

/// Traces and registers a district from the street under the pointer.
#[derive(Clone, Copy, PartialEq, Eq, Structural, Debug)]
pub struct CreateDistrict {
    pub hovered_street: Option<u128>,
    pub minimum_house_side: i64,
}

impl CreateDistrict {
    pub fn new() -> (r: CreateDistrict)
        ensures
            r == (CreateDistrict {
                hovered_street: Option::<u128>::None,
                minimum_house_side: crate::graph::DEFAULT_MINIMUM_HOUSE_SIDE,
            }),
    {
        CreateDistrict {
            hovered_street: None,
            minimum_house_side: crate::graph::DEFAULT_MINIMUM_HOUSE_SIDE,
        }
    }

    pub fn mouse_down(&mut self, mouse_pos: Point, button: u32, map: &mut StreetMap)
        ensures
            *final(map) == *old(map),
            *final(self) == *old(self),
    {
    }

    /// Tracks the street nearest to the pointer, with no distance bound.
    pub fn mouse_move(&mut self, mouse_pos: Point, map: &mut StreetMap)
        requires
            old(map).wf(),
            valid_point(mouse_pos),
        ensures
            *final(map) == *old(map),
            final(self).minimum_house_side == old(self).minimum_house_side,
            final(self).hovered_street == nearest_street_hit(
                *old(map),
                mouse_pos,
                Option::<i64>::None,
            ),
    {
        let near = map.get_nearest_street_to_position(mouse_pos);
        proof {
            lemma_nearest_street_hit_agrees(*map, mouse_pos, Option::<i64>::None, near);
        }
        self.hovered_street = near;
    }

    /// Traces the face of the hovered street on the side of the release
    /// position and, when it encloses, registers the district through the
    /// action engine.
    pub fn mouse_up(
        &mut self,
        mouse_pos: Point,
        button: u32,
        map: &mut StreetMap,
        history: &mut History,
    )
        requires
            old(map).wf(),
            valid_point(mouse_pos),
        ensures
            final(map).wf(),
            *final(self) == *old(self),
            match old(self).hovered_street {
                Some(sid) => if old(map).has_street(sid) {
                    create_district_outcome(*old(map), sid, mouse_pos, *final(map), old(history).done@, final(history).done@, final(history).undone@)
                } else {
                    *final(map) == *old(map) && final(history).done@ == old(history).done@
                        && final(history).undone@ == old(history).undone@
                },
                None => *final(map) == *old(map) && final(history).done@ == old(history).done@
                    && final(history).undone@ == old(history).undone@,
            },
    {
        match self.hovered_street {
            Some(sid) => {
                match map.street_index(sid) {
                    Some(_) => {
                        let side = map.side_of_position(sid, mouse_pos);
                        match crate::tracer::create_district_for_street(side, sid, map) {
                            Some(polygon) => {
                                history.perform(
                                    Action::CreateDistrict(
                                        actions::CreateDistrictAction::new(sid, polygon),
                                    ),
                                    map,
                                );
                            },
                            None => {},
                        }
                    },
                    None => {},
                }
            },
            None => {},
        }
    }

    /// Clamps and stores the lot-size option and pushes it into every
    /// district.
    pub fn property_updated(&mut self, value: i64, map: &mut StreetMap)
        requires
            old(map).wf(),
        ensures
            final(map).wf(),
            final(self).hovered_street == old(self).hovered_street,
            final(self).minimum_house_side == clamp_house_side(value),
            final(map).districts@ == old(map).districts_with_minimum_house_side(
                clamp_house_side(value),
            ),
            final(map).intersections@ == old(map).intersections@,
            final(map).streets@ == old(map).streets@,
            final(map).width == old(map).width,
            final(map).height == old(map).height,
    {
        let v = if value < 20 {
            20
        } else if value > 1000 {
            1000
        } else {
            value
        };
        self.minimum_house_side = v;
        map.set_districts_minimum_house_side(v);
    }

    pub fn enter(&mut self, map: &mut StreetMap)
        ensures
            *final(map) == *old(map),
            *final(self) == *old(self),
    {
    }

    pub fn exit(&self, map: &mut StreetMap)
        ensures
            *final(map) == *old(map),
    {
    }
}

impl Default for CreateDistrict {
    /// The mode with nothing hovered and the default lot size.
    fn default() -> (r: CreateDistrict)
        ensures
            r == (CreateDistrict {
                hovered_street: Option::<u128>::None,
                minimum_house_side: crate::graph::DEFAULT_MINIMUM_HOUSE_SIDE,
            }),
    {
        CreateDistrict::new()
    }
}

/// The lot-size option clamped to its documented range.
pub open spec fn clamp_house_side(value: i64) -> i64 {
    if value < 20 {
        20
    } else if value > 1000 {
        1000
    } else {
        value
    }
}

/// What a create-district release does, given the hovered street: it traces
/// the face on the side of the release position; on an enclosed face exactly
/// one district with that boundary is registered through the action engine
/// (or, on the unlikely id collision, nothing changes); on an open face
/// nothing changes.
pub open spec fn create_district_outcome(
    m0: StreetMap,
    sid: u128,
    pos: Point,
    m1: StreetMap,
    done0: Seq<Action>,
    done1: Seq<Action>,
    undone1: Seq<Action>,
) -> bool {
    let side = side_of(m0.pos_of(m0.street_at(sid).start), m0.pos_of(m0.street_at(sid).end), pos);
    match trace_face_spec(m0, sid, side) {
        Some(poly) => {
            &&& done1.len() == done0.len() + 1
            &&& undone1.len() == 0
            &&& m1.intersections@ == m0.intersections@
            &&& m1.streets@ == m0.streets@
            &&& m1.width == m0.width
            &&& m1.height == m0.height
            &&& (m1.districts@ == m0.districts@ || (m1.districts@.len() == m0.districts@.len() + 1
                && m1.districts@.drop_last() == m0.districts@ && m1.districts@.last().polygon@
                == poly && m1.districts@.last().state == InteractiveElementState::Normal
                && m1.districts@.last().minimum_house_side
                == crate::graph::DEFAULT_MINIMUM_HOUSE_SIDE))
        },
        None => m1 == m0 && done1 == done0,
    }
}

/// Sum of the x coordinates of the selected intersections from index `i` on.
pub open spec fn sel_sum_x(s: Seq<crate::graph::Intersection>, i: int) -> int
    decreases s.len() - i,
{
    if i < 0 || i >= s.len() {
        0
    } else {
        (if s[i].state == InteractiveElementState::Selected {
            s[i].position.x as int
        } else {
            0
        }) + sel_sum_x(s, i + 1)
    }
}

/// Sum of the y coordinates of the selected intersections from index `i` on.
pub open spec fn sel_sum_y(s: Seq<crate::graph::Intersection>, i: int) -> int
    decreases s.len() - i,
{
    if i < 0 || i >= s.len() {
        0
    } else {
        (if s[i].state == InteractiveElementState::Selected {
            s[i].position.y as int
        } else {
            0
        }) + sel_sum_y(s, i + 1)
    }
}

/// How many intersections from index `i` on are selected.
pub open spec fn sel_count(s: Seq<crate::graph::Intersection>, i: int) -> int
    decreases s.len() - i,
{
    if i < 0 || i >= s.len() {
        0
    } else {
        (if s[i].state == InteractiveElementState::Selected {
            1int
        } else {
            0int
        }) + sel_count(s, i + 1)
    }
}

/// Integer division rounded toward zero (the rounding machine division
/// uses), for a positive divisor.
pub open spec fn trunc_div(a: int, b: int) -> int {
    if a >= 0 {
        a / b
    } else {
        -((-a) / b)
    }
}

/// The drag gizmo's position: the arithmetic mean of all selected
/// intersections' positions (components rounded toward zero), or the origin
/// when nothing is selected.
pub open spec fn gizmo_centroid(m: StreetMap) -> Point {
    let c = sel_count(m.intersections@, 0);
    if c == 0 {
        Point { x: 0, y: 0 }
    } else {
        Point {
            x: trunc_div(sel_sum_x(m.intersections@, 0), c) as i64,
            y: trunc_div(sel_sum_y(m.intersections@, 0), c) as i64,
        }
    }
}

/// Drags the current selection by the pointer delta via a gizmo anchored at
/// the selection's centroid; clicking empty space clears the selection.
#[derive(Clone, Copy, PartialEq, Eq, Structural, Debug)]
pub struct MoveControlState {
    pub hovered_control: Option<u128>,
    pub gizmo_position: Point,
    pub dragging: bool,
    pub last_mouse: Point,
}

impl MoveControlState {
    /// Mode-local validity: the cached points lie in the world bounds.
    pub open spec fn wf(self) -> bool {
        valid_point(self.gizmo_position) && valid_point(self.last_mouse)
    }

    pub fn new() -> (r: MoveControlState)
        ensures
            r == (MoveControlState {
                hovered_control: Option::<u128>::None,
                gizmo_position: Point { x: 0, y: 0 },
                dragging: false,
                last_mouse: Point { x: 0, y: 0 },
            }),
            r.wf(),
    {
        MoveControlState {
            hovered_control: None,
            gizmo_position: Point { x: 0, y: 0 },
            dragging: false,
            last_mouse: Point { x: 0, y: 0 },
        }
    }

    /// Anchors the gizmo at the arithmetic mean of the selected
    /// intersections' positions.
    pub fn enter(&mut self, map: &mut StreetMap)
        requires
            old(map).wf(),
            old(self).wf(),
        ensures
            *final(map) == *old(map),
            final(self).gizmo_position == gizmo_centroid(*old(map)),
            final(self).dragging == false,
            final(self).hovered_control == old(self).hovered_control,
            final(self).last_mouse == old(self).last_mouse,
            final(self).wf(),
    {
        let ghost s = map.intersections@;
        let n = map.intersections.len();
        let mut sx: i128 = 0;
        let mut sy: i128 = 0;
        let mut cnt: i128 = 0;
        let mut i: usize = 0;
        while i < n
            invariant
                map.wf(),
                n == map.intersections@.len(),
                s == map.intersections@,
                i <= n,
                sx + sel_sum_x(s, i as int) == sel_sum_x(s, 0),
                sy + sel_sum_y(s, i as int) == sel_sum_y(s, 0),
                cnt + sel_count(s, i as int) == sel_count(s, 0),
                0 <= cnt <= i as i128,
                -100_000 * cnt <= sx <= 100_000 * cnt,
                -100_000 * cnt <= sy <= 100_000 * cnt,
            decreases n - i,
        {
            let x = map.intersections[i];
            if x.state == InteractiveElementState::Selected {
                sx = sx + (x.position.x as i128);
                sy = sy + (x.position.y as i128);
                cnt = cnt + 1;
            }
            i += 1;
        }
        if cnt == 0 {
            self.gizmo_position = Point { x: 0, y: 0 };
        } else {
            let qx = div_toward_zero(sx, cnt);
            let qy = div_toward_zero(sy, cnt);
            self.gizmo_position = Point { x: qx as i64, y: qy as i64 };
        }
        self.dragging = false;
    }

    /// Starts a drag when the pointer grabs the gizmo; otherwise, a click on
    /// empty space clears the selection.
    pub fn mouse_down(&mut self, mouse_pos: Point, button: u32, map: &mut StreetMap)
        requires
            old(map).wf(),
            old(self).wf(),
            valid_point(mouse_pos),
        ensures
            final(map).wf(),
            final(self).wf(),
            crate::geom::dist_sq(mouse_pos, old(self).gizmo_position) <= GIZMO_HIT_TOLERANCE
                * GIZMO_HIT_TOLERANCE ==> *final(map) == *old(map) && *final(self)
                == (MoveControlState {
                hovered_control: old(self).hovered_control,
                gizmo_position: old(self).gizmo_position,
                dragging: true,
                last_mouse: mouse_pos,
            }),
            crate::geom::dist_sq(mouse_pos, old(self).gizmo_position) > GIZMO_HIT_TOLERANCE
                * GIZMO_HIT_TOLERANCE ==> *final(self) == *old(self) && (if (exists|j: int|
                0 <= j < old(map).intersections@.len() && crate::geom::dist_sq(
                    mouse_pos,
                    (#[trigger] old(map).intersections@[j]).position,
                ) <= INTERSECTION_HIT_TOLERANCE * INTERSECTION_HIT_TOLERANCE) {
                *final(map) == *old(map)
            } else {
                final(map).intersections@ == old(map).deselected() && final(map).streets@ == old(
                    map,
                ).streets@ && final(map).districts@ == old(map).districts@ && final(map).width
                    == old(map).width && final(map).height == old(map).height
            }),
    {
        let d = crate::geom::dist_sq_i64(mouse_pos, self.gizmo_position);
        if d <= GIZMO_HIT_TOLERANCE * GIZMO_HIT_TOLERANCE {
            self.dragging = true;
            self.last_mouse = mouse_pos;
        } else {
            match map.nearest_intersection(mouse_pos, INTERSECTION_HIT_TOLERANCE) {
                Some(_) => {},
                None => {
                    map.clear_selection();
                },
            }
        }
    }

    /// While dragging, translates every selected intersection by the pointer
    /// delta, exactly; a drag that would push a selected intersection out of
    /// the world bounds moves nothing this event.
    pub fn mouse_move(&mut self, mouse_pos: Point, map: &mut StreetMap)
        requires
            old(map).wf(),
            old(self).wf(),
            valid_point(mouse_pos),
        ensures
            final(map).wf(),
            final(self).wf(),
            !old(self).dragging ==> *final(map) == *old(map) && *final(self) == *old(self),
            old(self).dragging ==> {
                let dx = mouse_pos.x - old(self).last_mouse.x;
                let dy = mouse_pos.y - old(self).last_mouse.y;
                &&& *final(self) == (MoveControlState {
                    hovered_control: old(self).hovered_control,
                    gizmo_position: old(self).gizmo_position,
                    dragging: true,
                    last_mouse: mouse_pos,
                })
                &&& final(map).streets@ == old(map).streets@
                &&& final(map).districts@ == old(map).districts@
                &&& final(map).width == old(map).width
                &&& final(map).height == old(map).height
                &&& (if old(map).selected_fit_after(dx as int, dy as int) {
                    final(map).intersections@ == old(map).translated_selected(dx as int, dy as int)
                } else {
                    final(map).intersections@ == old(map).intersections@
                })
            },
    {
        if self.dragging {
            let dx = mouse_pos.x - self.last_mouse.x;
            let dy = mouse_pos.y - self.last_mouse.y;
            let moved = map.translate_selected(dx, dy);
            self.last_mouse = mouse_pos;
        }
    }

    /// Ends a drag.
    pub fn mouse_up(&mut self, mouse_pos: Point, button: u32, map: &mut StreetMap)
        ensures
            *final(map) == *old(map),
            *final(self) == (MoveControlState {
                hovered_control: old(self).hovered_control,
                gizmo_position: old(self).gizmo_position,
                dragging: false,
                last_mouse: old(self).last_mouse,
            }),
    {
        self.dragging = false;
    }

    /// Returns the hovered control, if it still exists, to the normal state.
    pub fn clean_hovered_control_state(&self, map: &mut StreetMap)
        requires
            old(map).wf(),
        ensures
            final(map).wf(),
            final(map).streets@ == old(map).streets@,
            final(map).districts@ == old(map).districts@,
            final(map).width == old(map).width,
            final(map).height == old(map).height,
            match self.hovered_control {
                Some(id) => if old(map).has_intersection(id) {
                    final(map).intersections@ == old(map).intersections@.update(
                        old(map).intersection_idx(id),
                        crate::graph::Intersection {
                            id: old(map).intersection_at(id).id,
                            position: old(map).intersection_at(id).position,
                            state: InteractiveElementState::Normal,
                        },
                    )
                } else {
                    final(map).intersections@ == old(map).intersections@
                },
                None => final(map).intersections@ == old(map).intersections@,
            },
    {
        match self.hovered_control {
            Some(id) => {
                let cleared = map.set_intersection_state(id, InteractiveElementState::Normal);
            },
            None => {},
        }
    }

    /// Clears the hover highlight this mode may have left.
    pub fn exit(&self, map: &mut StreetMap)
        requires
            old(map).wf(),
        ensures
            final(map).wf(),
            final(map).streets@ == old(map).streets@,
            final(map).districts@ == old(map).districts@,
            final(map).width == old(map).width,
            final(map).height == old(map).height,
            match self.hovered_control {
                Some(id) => if old(map).has_intersection(id) {
                    final(map).intersections@ == old(map).intersections@.update(
                        old(map).intersection_idx(id),
                        crate::graph::Intersection {
                            id: old(map).intersection_at(id).id,
                            position: old(map).intersection_at(id).position,
                            state: InteractiveElementState::Normal,
                        },
                    )
                } else {
                    final(map).intersections@ == old(map).intersections@
                },
                None => final(map).intersections@ == old(map).intersections@,
            },
    {
        self.clean_hovered_control_state(map);
    }
}

/// Division rounded toward zero, for a positive divisor and a numerator
/// bounded by `100_000` times the divisor (the shape the centroid sums
/// have); the quotient then fits the coordinate range.
fn div_toward_zero(a: i128, b: i128) -> (r: i128)
    requires
        0 < b <= 0x1_0000_0000_0000_0000,
        -100_000 * b <= a <= 100_000 * b,
    ensures
        r == trunc_div(a as int, b as int),
        -100_000 <= r <= 100_000,
{
    proof {
        if a >= 0 {
            vstd::arithmetic::div_mod::lemma_div_pos_is_pos(a as int, b as int);
            vstd::arithmetic::div_mod::lemma_div_is_ordered(a as int, 100_000 * (b as int), b as int);
            vstd::arithmetic::div_mod::lemma_div_multiples_vanish(100_000, b as int);
            assert((b as int) * 100_000 == 100_000 * (b as int));
        } else {
            vstd::arithmetic::div_mod::lemma_div_pos_is_pos(-(a as int), b as int);
            vstd::arithmetic::div_mod::lemma_div_is_ordered(
                -(a as int),
                100_000 * (b as int),
                b as int,
            );
            vstd::arithmetic::div_mod::lemma_div_multiples_vanish(100_000, b as int);
            assert((b as int) * 100_000 == 100_000 * (b as int));
        }
    }
    if a >= 0 {
        a / b
    } else {
        -((-a) / b)
    }
}

/// Dragging a selection moves every selected intersection by exactly the
/// same delta, so the relative offset between any two selected intersections
/// is preserved exactly.
pub proof fn lemma_drag_preserves_relative_offsets(
    m0: StreetMap,
    dx: int,
    dy: int,
    m1: StreetMap,
    i: int,
    j: int,
)
    requires
        m0.selected_fit_after(dx, dy),
        m1.intersections@ == m0.translated_selected(dx, dy),
        0 <= i < m0.intersections@.len(),
        0 <= j < m0.intersections@.len(),
        m0.intersections@[i].state == InteractiveElementState::Selected,
        m0.intersections@[j].state == InteractiveElementState::Selected,
    ensures
        m1.intersections@[i].position.x - m1.intersections@[j].position.x
            == m0.intersections@[i].position.x - m0.intersections@[j].position.x,
        m1.intersections@[i].position.y - m1.intersections@[j].position.y
            == m0.intersections@[i].position.y - m0.intersections@[j].position.y,
{
    assert(m0.intersections@[i].position.x + dx == m1.intersections@[i].position.x as int);
    assert(m0.intersections@[j].position.x + dx == m1.intersections@[j].position.x as int);
    assert(m0.intersections@[i].position.y + dy == m1.intersections@[i].position.y as int);
    assert(m0.intersections@[j].position.y + dy == m1.intersections@[j].position.y as int);
}

/// The artifacts of an in-progress street drag: the preview street, its two
/// endpoint intersections, and whether the start intersection was created for
/// the preview (rather than snapped to an existing one).
#[derive(Clone, Copy, PartialEq, Eq, Structural, Debug)]
pub struct PreviewStreet {
    pub street: u128,
    pub start: u128,
    pub end: u128,
    pub start_created: bool,
}

/// Keeps a street that is not the preview street.
pub open spec fn not_preview_street(p: PreviewStreet) -> spec_fn(crate::graph::Street) -> bool {
    |t: crate::graph::Street| t.id != p.street
}

/// Keeps an intersection that is not a preview endpoint (the start counts
/// only when the preview created it).
pub open spec fn not_preview_intersection(p: PreviewStreet) -> spec_fn(
    crate::graph::Intersection,
) -> bool {
    |x: crate::graph::Intersection| x.id != p.end && (!p.start_created || x.id != p.start)
}

/// What a mouse press leaves in the graph while the drag is in progress: the
/// preview street under fresh ids between the (snapped or fresh) start and a
/// fresh end intersection at the pointer.
pub open spec fn preview_created(
    m0: StreetMap,
    m1: StreetMap,
    p: PreviewStreet,
    pos: Point,
) -> bool {
    &&& m1.districts@ == m0.districts@
    &&& m1.width == m0.width
    &&& m1.height == m0.height
    &&& m0.id_free(p.street)
    &&& m0.id_free(p.end)
    &&& p.start != p.end && p.end != p.street && p.start != p.street
    &&& m1.streets@ == m0.streets@.push(
        crate::graph::Street {
            id: p.street,
            start: p.start,
            end: p.end,
            width: DEFAULT_STREET_WIDTH,
            state: InteractiveElementState::Normal,
        },
    )
    &&& if p.start_created {
        m0.id_free(p.start) && m1.intersections@ == m0.intersections@.push(
            crate::graph::Intersection {
                id: p.start,
                position: pos,
                state: InteractiveElementState::Normal,
            },
        ).push(
            crate::graph::Intersection {
                id: p.end,
                position: pos,
                state: InteractiveElementState::Normal,
            },
        )
    } else {
        m0.has_intersection(p.start) && m1.intersections@ == m0.intersections@.push(
            crate::graph::Intersection {
                id: p.end,
                position: pos,
                state: InteractiveElementState::Normal,
            },
        )
    }
}

/// The preview artifacts stand in the graph as the mode put them there: the
/// street is present between its two endpoints, and the preview endpoints are
/// referenced by no other street.
pub open spec fn preview_live(p: PreviewStreet, m: StreetMap) -> bool {
    &&& m.has_street(p.street)
    &&& m.street_at(p.street).start == p.start
    &&& m.street_at(p.street).end == p.end
    &&& m.has_intersection(p.end)
    &&& (p.start_created ==> m.has_intersection(p.start))
    &&& p.start != p.end && p.end != p.street && p.start != p.street
    &&& forall|j: int|
        0 <= j < m.streets@.len() && ((#[trigger] m.streets@[j]).start == p.end
            || m.streets@[j].end == p.end) ==> m.streets@[j].id == p.street
    &&& (p.start_created ==> forall|j: int|
        0 <= j < m.streets@.len() && ((#[trigger] m.streets@[j]).start == p.start
            || m.streets@[j].start == p.start || m.streets@[j].end == p.start)
            ==> m.streets@[j].id == p.street)
}

/// Draws a street by dragging: the press anchors the start (snapping to a
/// nearby intersection or creating one), the drag moves a preview street's
/// end, and the release commits the result through the action engine. The
/// preview is pure overlay: leaving the mode mid-drag removes it without a
/// trace.
#[derive(Clone, Copy, PartialEq, Eq, Structural, Debug)]
pub struct CreateStreetState {
    pub preview: Option<PreviewStreet>,
}

impl CreateStreetState {
    pub fn new() -> (r: CreateStreetState)
        ensures
            r == (CreateStreetState { preview: Option::<PreviewStreet>::None }),
    {
        CreateStreetState { preview: None }
    }

    /// Begins a drag: snaps the start to a nearby intersection or creates
    /// one, creates the end intersection at the pointer, and strings the
    /// preview street between them.
    pub fn mouse_down(&mut self, mouse_pos: Point, button: u32, map: &mut StreetMap)
        requires
            old(map).wf(),
            valid_point(mouse_pos),
        ensures
            final(map).wf(),
            final(map).districts@ == old(map).districts@,
            final(map).width == old(map).width,
            final(map).height == old(map).height,
            old(self).preview is Some ==> *final(map) == *old(map) && *final(self) == *old(self),
            old(self).preview is None ==> match final(self).preview {
                Some(p) => preview_created(*old(map), *final(map), p, mouse_pos),
                None => final(map).intersections@ == old(map).intersections@ && final(map).streets@
                    == old(map).streets@,
            },
    {
        if self.preview.is_some() {
            return ;
        }
        let ghost m0 = *map;
        let snap = map.nearest_intersection(mouse_pos, INTERSECTION_HIT_TOLERANCE);
        let (start_id, start_created) = match snap {
            Some(id) => (id, false),
            None => {
                match map.add_intersection(mouse_pos) {
                    Some(id) => (id, true),
                    None => {
                        return ;
                    },
                }
            },
        };
        let ghost m_start = *map;
        let end_id = match map.add_intersection(mouse_pos) {
            Some(id) => id,
            None => {
                if start_created {
                    proof {
                        lemma_rollback_one(m0, *map, start_id, mouse_pos);
                    }
                    let r = map.remove_intersection(start_id);
                }
                return ;
            },
        };
        match map.add_street(start_id, end_id, DEFAULT_STREET_WIDTH) {
            Ok(sid) => {
                self.preview = Some(
                    PreviewStreet { street: sid, start: start_id, end: end_id, start_created },
                );
                proof {
                    let m_both = *map;
                    let p = PreviewStreet { street: sid, start: start_id, end: end_id, start_created };
                    assert(m0.id_free(end_id)) by {
                        if m0.has_intersection(end_id) {
                            let w = choose|w: int|
                                0 <= w < m0.intersections@.len() && (
                                #[trigger] m0.intersections@[w]).id == end_id;
                            assert(m_start.intersections@[w].id == end_id);
                        }
                    }
                    assert(start_id != end_id) by {
                        if start_created {
                            assert(m_start.intersections@[m0.intersections@.len() as int].id
                                == start_id);
                        }
                    }
                    assert(sid != end_id && sid != start_id) by {
                        let me = m_start.intersections@.push(
                            crate::graph::Intersection {
                                id: end_id,
                                position: mouse_pos,
                                state: InteractiveElementState::Normal,
                            },
                        );
                        assert(me[me.len() - 1].id == end_id);
                        if start_created {
                            assert(me[m0.intersections@.len() as int].id == start_id);
                        } else {
                            let w = choose|w: int|
                                0 <= w < m0.intersections@.len() && (
                                #[trigger] m0.intersections@[w]).id == start_id;
                            assert(me[w].id == start_id);
                        }
                    }
                    assert(m0.id_free(sid)) by {
                        let me = m_start.intersections@.push(
                            crate::graph::Intersection {
                                id: end_id,
                                position: mouse_pos,
                                state: InteractiveElementState::Normal,
                            },
                        );
                        if m0.has_intersection(sid) {
                            let w = choose|w: int|
                                0 <= w < m0.intersections@.len() && (
                                #[trigger] m0.intersections@[w]).id == sid;
                            assert(me[w].id == sid);
                        }
                    }
                    assert(preview_created(m0, *map, p, mouse_pos));
                }
            },
            Err(_) => {
                proof {
                    lemma_rollback_one(m_start, *map, end_id, mouse_pos);
                }
                let r1 = map.remove_intersection(end_id);
                if start_created {
                    proof {
                        lemma_rollback_one(m0, *map, start_id, mouse_pos);
                    }
                    let r2 = map.remove_intersection(start_id);
                }
            },
        }
    }

    /// Moves the preview street's free end with the pointer.
    pub fn mouse_move(&mut self, mouse_pos: Point, map: &mut StreetMap)
        requires
            old(map).wf(),
            valid_point(mouse_pos),
        ensures
            final(map).wf(),
            *final(self) == *old(self),
            final(map).streets@ == old(map).streets@,
            final(map).districts@ == old(map).districts@,
            final(map).width == old(map).width,
            final(map).height == old(map).height,
            match old(self).preview {
                Some(p) => if old(map).has_intersection(p.end) {
                    final(map).intersections@ == old(map).intersections@.update(
                        old(map).intersection_idx(p.end),
                        crate::graph::Intersection {
                            id: old(map).intersection_at(p.end).id,
                            position: mouse_pos,
                            state: old(map).intersection_at(p.end).state,
                        },
                    )
                } else {
                    final(map).intersections@ == old(map).intersections@
                },
                None => final(map).intersections@ == old(map).intersections@,
            },
    {
        match self.preview {
            Some(p) => {
                let moved = map.set_intersection_position(p.end, mouse_pos);
            },
            None => {},
        }
    }

    /// Commits the dragged street: removes the preview artifacts and
    /// re-creates them, under the same ids, through the action engine, so
    /// the whole gesture is undoable.
    pub fn mouse_up(
        &mut self,
        mouse_pos: Point,
        button: u32,
        map: &mut StreetMap,
        history: &mut History,
    )
        requires
            old(map).wf(),
            valid_point(mouse_pos),
        ensures
            final(map).wf(),
            final(self).preview is None,
            final(map).districts@ == old(map).districts@,
            final(map).width == old(map).width,
            final(map).height == old(map).height,
            match old(self).preview {
                Some(p) => commit_street_rel(
                    p,
                    *old(map),
                    old(history).done@,
                    *final(map),
                    final(history).done@,
                ) && final(history).undone@.len() == 0,
                None => *final(map) == *old(map) && final(history).done@ == old(history).done@
                    && final(history).undone@ == old(history).undone@,
            },
    {
        let ghost m0 = *map;
        let ghost h0 = *history;
        match self.preview {
            None => {},
            Some(p) => {
                self.preview = None;
                // positions to re-create the endpoints at
                let start_pos = match map.intersection(p.start) {
                    Some(x) => x.position,
                    None => Point { x: 0, y: 0 },
                };
                let end_pos = match map.intersection(p.end) {
                    Some(x) => x.position,
                    None => Point { x: 0, y: 0 },
                };
                // tear the preview down ...
                clear_preview(&p, map);
                // ... and rebuild it, undoably, under the same ids
                let ghost m_clean = *map;
                if p.start_created {
                    history.perform(
                        Action::CreateIntersection(
                            actions::CreateIntersection::new_with_id(start_pos, p.start),
                        ),
                        map,
                    );
                }
                let ghost ma = *map;
                let ghost d1 = history.done@;
                history.perform(
                    Action::CreateIntersection(
                        actions::CreateIntersection::new_with_id(end_pos, p.end),
                    ),
                    map,
                );
                let ghost mb = *map;
                history.perform(
                    Action::CreateStreet(
                        actions::CreateStreet::new_with_id(
                            p.start,
                            p.end,
                            DEFAULT_STREET_WIDTH,
                            p.street,
                        ),
                    ),
                    map,
                );
                proof {
                    let a_start = Action::CreateIntersection(
                        actions::CreateIntersection {
                            position: start_pos,
                            id: p.start,
                            applied: false,
                        },
                    );
                    let a_end = Action::CreateIntersection(
                        actions::CreateIntersection { position: end_pos, id: p.end, applied: false },
                    );
                    let a_street = Action::CreateStreet(
                        actions::CreateStreet {
                            start: p.start,
                            end: p.end,
                            width: DEFAULT_STREET_WIDTH,
                            id: p.street,
                            applied: false,
                        },
                    );
                    assert(start_pos == if m0.has_intersection(p.start) {
                        m0.intersection_at(p.start).position
                    } else {
                        Point { x: 0, y: 0 }
                    });
                    assert(clear_preview_rel(p, m0, m_clean));
                    if p.start_created {
                        assert(actions::apply_map(a_start, m_clean, ma));
                        assert(d1 == h0.done@.push(actions::apply_act(a_start, m_clean)));
                    } else {
                        assert(ma == m_clean && d1 == h0.done@);
                    }
                    assert(actions::apply_map(a_end, ma, mb));
                    assert(actions::apply_map(a_street, mb, *map));
                    assert(history.done@ == (if p.start_created {
                        h0.done@.push(actions::apply_act(a_start, m_clean))
                    } else {
                        h0.done@
                    }).push(actions::apply_act(a_end, ma)).push(actions::apply_act(a_street, mb)));
                    assert(commit_street_chain(
                        p,
                        m0,
                        h0.done@,
                        *map,
                        history.done@,
                        m_clean,
                        ma,
                        mb,
                    ));
                    assert(commit_street_rel(p, m0, h0.done@, *map, history.done@));
                }
            },
        }
    }

    pub fn enter(&mut self, map: &mut StreetMap)
        ensures
            *final(map) == *old(map),
            *final(self) == *old(self),
    {
    }

    /// Removes the preview artifacts; after a live preview the graph holds
    /// exactly the elements it held before the drag began.
    pub fn exit(&self, map: &mut StreetMap)
        requires
            old(map).wf(),
        ensures
            final(map).wf(),
            final(map).districts@ == old(map).districts@,
            final(map).width == old(map).width,
            final(map).height == old(map).height,
            self.preview is None ==> *final(map) == *old(map),
            match self.preview {
                Some(p) => preview_live(p, *old(map)) ==> (final(map).streets@ == old(
                    map,
                ).streets@.filter(not_preview_street(p)) && final(map).intersections@ == old(
                    map,
                ).intersections@.filter(not_preview_intersection(p))),
                None => true,
            },
    {
        match self.preview {
            None => {},
            Some(p) => {
                clear_preview(&p, map);
            },
        }
    }
}

impl Default for CreateStreetState {
    /// The mode with no drag in progress.
    fn default() -> (r: CreateStreetState)
        ensures
            r == (CreateStreetState { preview: Option::<PreviewStreet>::None }),
    {
        CreateStreetState::new()
    }
}

/// Removes the preview street and its preview endpoints from the graph.
fn clear_preview(p: &PreviewStreet, map: &mut StreetMap)
    requires
        old(map).wf(),
    ensures
        final(map).wf(),
        final(map).districts@ == old(map).districts@,
        final(map).width == old(map).width,
        final(map).height == old(map).height,
        preview_live(*p, *old(map)) ==> (final(map).streets@ == old(map).streets@.filter(
            not_preview_street(*p),
        ) && final(map).intersections@ == old(map).intersections@.filter(
            not_preview_intersection(*p),
        )),
    {
        let ghost m0 = *map;
        let ghost live = preview_live(*p, m0);
        let removed_street = map.remove_street(p.street);
        proof {
            if live {
                let k = m0.street_idx(p.street);
                crate::graph::lemma_remove_unique_is_filter(
                    m0.streets@,
                    k,
                    not_preview_street(*p),
                );
            }
        }
        let ghost m1 = *map;
        let r_end = map.remove_intersection(p.end);
        proof {
            if live {
                assert(m1.has_intersection(p.end)) by {
                    let w = choose|w: int|
                        0 <= w < m0.intersections@.len() && (#[trigger] m0.intersections@[w]).id
                            == p.end;
                    assert(m1.intersections@[w].id == p.end);
                }
                assert(!m1.intersection_referenced(p.end)) by {
                    if m1.intersection_referenced(p.end) {
                        let j = choose|j: int|
                            0 <= j < m1.streets@.len() && ((#[trigger] m1.streets@[j]).start
                                == p.end || m1.streets@[j].end == p.end);
                        crate::graph::lemma_filter_subset(m0.streets@, not_preview_street(*p));
                        assert(m0.streets@.contains(m1.streets@[j]));
                        let w = choose|w: int|
                            0 <= w < m0.streets@.len() && m0.streets@[w] == m1.streets@[j];
                        assert(m0.streets@[w].id == p.street);
                        m0.streets@.lemma_filter_pred(not_preview_street(*p), j);
                    }
                }
            }
        }
        let ghost m2 = *map;
        if p.start_created {
            let r_start = map.remove_intersection(p.start);
        }
        proof {
            if live {
                lemma_clear_preview_filters(*p, m0, m1, m2, *map);
            }
        }
    }

/// In the live case, the three removals of `clear_preview` amount to the two
/// filters of its contract.
proof fn lemma_clear_preview_filters(
    p: PreviewStreet,
    m0: StreetMap,
    m1: StreetMap,
    m2: StreetMap,
    m3: StreetMap,
)
    requires
        m0.wf(),
        preview_live(p, m0),
        m1.streets@ == m0.streets@.filter(not_preview_street(p)),
        m1.intersections@ == m0.intersections@,
        m1.wf(),
        m2.intersections@ == m1.intersections@.remove(m1.intersection_idx(p.end)),
        m2.streets@ == m1.streets@,
        m2.wf(),
        m1.has_intersection(p.end),
        if p.start_created {
            if m2.has_intersection(p.start) && !m2.intersection_referenced(p.start) {
                m3.intersections@ == m2.intersections@.remove(m2.intersection_idx(p.start))
            } else {
                m3.intersections@ == m2.intersections@
            }
        } else {
            m3.intersections@ == m2.intersections@
        },
        m3.streets@ == m2.streets@,
    ensures
        m3.streets@ == m0.streets@.filter(not_preview_street(p)),
        m3.intersections@ == m0.intersections@.filter(not_preview_intersection(p)),
{
    let ke = m1.intersection_idx(p.end);
    assert(0 <= ke < m1.intersections@.len() && m1.intersections@[ke].id == p.end);
    if !p.start_created {
        // only the end fails the predicate
        assert forall|i: int|
            0 <= i < m1.intersections@.len() && i != ke implies (not_preview_intersection(p))(
        #[trigger] m1.intersections@[i]) by {
            if m1.intersections@[i].id == p.end {
                assert(m1.intersections@[ke].id == m1.intersections@[i].id);
            }
        }
        crate::graph::lemma_remove_unique_is_filter(
            m1.intersections@,
            ke,
            not_preview_intersection(p),
        );
    } else {
        // first the end goes, then the start; each removal is one filter step
        assert(m2.has_intersection(p.start)) by {
            let w = choose|w: int|
                0 <= w < m0.intersections@.len() && (#[trigger] m0.intersections@[w]).id == p.start;
            if w < ke {
                assert(m2.intersections@[w].id == p.start);
            } else {
                assert(m0.intersections@[w].id != p.end);
                assert(w != ke);
                assert(m2.intersections@[w - 1].id == p.start);
            }
        }
        assert(!m2.intersection_referenced(p.start)) by {
            if m2.intersection_referenced(p.start) {
                let j = choose|j: int|
                    0 <= j < m2.streets@.len() && ((#[trigger] m2.streets@[j]).start == p.start
                        || m2.streets@[j].end == p.start);
                crate::graph::lemma_filter_subset(m0.streets@, not_preview_street(p));
                assert(m0.streets@.contains(m2.streets@[j]));
                let w = choose|w: int| 0 <= w < m0.streets@.len() && m0.streets@[w] == m2.streets@[j];
                assert(m0.streets@[w].id == p.street);
                m0.streets@.lemma_filter_pred(not_preview_street(p), j);
            }
        }
        let ks = m2.intersection_idx(p.start);
        assert(0 <= ks < m2.intersections@.len() && m2.intersections@[ks].id == p.start);
        assert forall|i: int|
            0 <= i < m2.intersections@.len() && i != ks implies (not_preview_intersection(p))(
        #[trigger] m2.intersections@[i]) by {
            let x = m2.intersections@[i];
            if i < ke {
                assert(x == m1.intersections@[i]);
            } else {
                assert(x == m1.intersections@[i + 1]);
            }
            if x.id == p.end {
                // a second intersection with the end id would break uniqueness
                if i < ke {
                    assert(m1.intersections@[i].id != m1.intersections@[ke].id);
                } else {
                    assert(m1.intersections@[ke].id != m1.intersections@[i + 1].id);
                }
            }
            if x.id == p.start {
                assert(m2.intersections@[ks].id == m2.intersections@[i].id);
            }
        }
        crate::graph::lemma_remove_unique_is_filter(
            m2.intersections@,
            ks,
            not_preview_intersection(p),
        );
        assert(!(not_preview_intersection(p))(m1.intersections@[ke]));
        crate::graph::lemma_filter_remove_failing(
            m1.intersections@,
            ke,
            not_preview_intersection(p),
        );
    }
}

/// The exact effect of tearing a preview down: districts and canvas size are
/// untouched, and a live preview's three elements are filtered out.
pub open spec fn clear_preview_rel(p: PreviewStreet, m0: StreetMap, m1: StreetMap) -> bool {
    &&& m1.wf()
    &&& m1.districts@ == m0.districts@
    &&& m1.width == m0.width
    &&& m1.height == m0.height
    &&& (preview_live(p, m0) ==> (m1.streets@ == m0.streets@.filter(not_preview_street(p))
        && m1.intersections@ == m0.intersections@.filter(not_preview_intersection(p))))
}

/// What a release with a preview in flight does: the preview is torn down,
/// then the start intersection (when the drag created it), the end
/// intersection and the street are re-created under the same ids through the
/// action engine, in that order, each with the exact effect its action
/// relation gives.
pub open spec fn commit_street_rel(
    p: PreviewStreet,
    m0: StreetMap,
    done0: Seq<Action>,
    m3: StreetMap,
    done3: Seq<Action>,
) -> bool {
    exists|mc: StreetMap, ma: StreetMap, mb: StreetMap|
        #[trigger] commit_street_chain(p, m0, done0, m3, done3, mc, ma, mb)
}

/// The commit chain through its intermediate stores: teardown to `mc`, the
/// optional start re-creation to `ma`, the end re-creation to `mb`, the
/// street re-creation to `m3`.
pub open spec fn commit_street_chain(
    p: PreviewStreet,
    m0: StreetMap,
    done0: Seq<Action>,
    m3: StreetMap,
    done3: Seq<Action>,
    mc: StreetMap,
    ma: StreetMap,
    mb: StreetMap,
) -> bool {
    let start_pos = if m0.has_intersection(p.start) {
        m0.intersection_at(p.start).position
    } else {
        Point { x: 0, y: 0 }
    };
    let end_pos = if m0.has_intersection(p.end) {
        m0.intersection_at(p.end).position
    } else {
        Point { x: 0, y: 0 }
    };
    let a_start = Action::CreateIntersection(
        actions::CreateIntersection { position: start_pos, id: p.start, applied: false },
    );
    let a_end = Action::CreateIntersection(
        actions::CreateIntersection { position: end_pos, id: p.end, applied: false },
    );
    let a_street = Action::CreateStreet(
        actions::CreateStreet {
            start: p.start,
            end: p.end,
            width: DEFAULT_STREET_WIDTH,
            id: p.street,
            applied: false,
        },
    );
    {
        &&& clear_preview_rel(p, m0, mc)
        &&& (if p.start_created {
            actions::apply_map(a_start, mc, ma)
        } else {
            ma == mc
        })
        &&& actions::apply_map(a_end, ma, mb)
        &&& actions::apply_map(a_street, mb, m3)
        &&& done3 == (if p.start_created {
            done0.push(actions::apply_act(a_start, mc))
        } else {
            done0
        }).push(actions::apply_act(a_end, ma)).push(actions::apply_act(a_street, mb))
    }
}

/// Removing a just-created intersection under a fresh id restores the
/// intersection arena exactly.
proof fn lemma_rollback_one(m0: StreetMap, m1: StreetMap, id: u128, pos: Point)
    requires
        m0.wf(),
        m0.id_free(id),
        m1.intersections@ == m0.intersections@.push(
            crate::graph::Intersection {
                id,
                position: pos,
                state: InteractiveElementState::Normal,
            },
        ),
        m1.streets@ == m0.streets@,
        m1.wf(),
    ensures
        m1.has_intersection(id),
        !m1.intersection_referenced(id),
        m1.intersections@.remove(m1.intersection_idx(id)) == m0.intersections@,
{
    let n0 = m0.intersections@.len() as int;
    assert(m1.intersections@[n0].id == id);
    assert(m1.has_intersection(id));
    assert(!m1.intersection_referenced(id)) by {
        if m1.intersection_referenced(id) {
            let j = choose|j: int|
                0 <= j < m1.streets@.len() && ((#[trigger] m1.streets@[j]).start == id
                    || m1.streets@[j].end == id);
            assert(m0.streets@[j] == m1.streets@[j]);
            assert(m0.has_intersection(m0.streets@[j].start));
            assert(m0.has_intersection(m0.streets@[j].end));
        }
    }
    let k = m1.intersection_idx(id);
    assert(k == n0) by {
        if k < n0 {
            assert(m0.intersections@[k] == m1.intersections@[k]);
            assert(m0.has_intersection(id));
        }
    }
    assert(m1.intersections@.remove(n0) =~= m0.intersections@);
}

/// A preview freshly laid down by a press stands live in the graph: the
/// three elements are present and nothing else references the preview
/// endpoints.
pub proof fn lemma_preview_created_is_live(
    m0: StreetMap,
    m1: StreetMap,
    p: PreviewStreet,
    pos: Point,
)
    requires
        m0.wf(),
        m1.wf(),
        preview_created(m0, m1, p, pos),
    ensures
        preview_live(p, m1),
{
    let n = m0.streets@.len() as int;
    assert(m1.streets@[n].id == p.street);
    assert(m1.has_street(p.street));
    m1.lemma_street_idx_is(n, p.street);
    if p.start_created {
        assert(m1.intersections@[m0.intersections@.len() as int].id == p.start);
        assert(m1.intersections@[m0.intersections@.len() as int + 1].id == p.end);
    } else {
        let w = choose|w: int|
            0 <= w < m0.intersections@.len() && (#[trigger] m0.intersections@[w]).id == p.start;
        assert(m1.intersections@[w].id == p.start);
        assert(m1.intersections@[m0.intersections@.len() as int].id == p.end);
    }
    assert forall|j: int|
        0 <= j < m1.streets@.len() && ((#[trigger] m1.streets@[j]).start == p.end
            || m1.streets@[j].end == p.end) implies m1.streets@[j].id == p.street by {
        if j < n {
            assert(m0.streets@[j] == m1.streets@[j]);
            assert(m0.has_intersection(m0.streets@[j].start));
            assert(m0.has_intersection(m0.streets@[j].end));
        }
    }
    if p.start_created {
        assert forall|j: int|
            0 <= j < m1.streets@.len() && ((#[trigger] m1.streets@[j]).start == p.start
                || m1.streets@[j].start == p.start || m1.streets@[j].end == p.start) implies
            m1.streets@[j].id == p.street by {
            if j < n {
                assert(m0.streets@[j] == m1.streets@[j]);
                assert(m0.has_intersection(m0.streets@[j].start));
                assert(m0.has_intersection(m0.streets@[j].end));
            }
        }
    }
}

/// Switching out of the create-street mode mid-drag leaves no preview
/// residue: after the press laid the preview down, the mode exit returns the
/// street and intersection arenas exactly to their state before the press.
pub proof fn lemma_exit_mid_drag_leaves_no_residue(
    m0: StreetMap,
    m1: StreetMap,
    p: PreviewStreet,
    pos: Point,
    m2: StreetMap,
)
    requires
        m0.wf(),
        m1.wf(),
        preview_created(m0, m1, p, pos),
        m2.streets@ == m1.streets@.filter(not_preview_street(p)),
        m2.intersections@ == m1.intersections@.filter(not_preview_intersection(p)),
        m2.districts@ == m1.districts@,
    ensures
        m2.intersections@ == m0.intersections@,
        m2.streets@ == m0.streets@,
        m2.districts@ == m0.districts@,
{
    reveal_with_fuel(Seq::filter, 3);
    let ps = Street {
        id: p.street,
        start: p.start,
        end: p.end,
        width: DEFAULT_STREET_WIDTH,
        state: InteractiveElementState::Normal,
    };
    assert(m1.streets@.drop_last() =~= m0.streets@);
    assert(m1.streets@.last() == ps);
    assert forall|i: int|
        0 <= i < m0.streets@.len() implies (not_preview_street(p))(#[trigger] m0.streets@[i]) by {
        if m0.streets@[i].id == p.street {
            assert(m0.has_street(p.street));
        }
    }
    crate::graph::lemma_filter_keep_all(m0.streets@, not_preview_street(p));
    assert forall|i: int|
        0 <= i < m0.intersections@.len() implies (not_preview_intersection(p))(
    #[trigger] m0.intersections@[i]) by {
        if m0.intersections@[i].id == p.end {
            assert(m0.has_intersection(p.end));
        }
        if p.start_created && m0.intersections@[i].id == p.start {
            assert(m0.has_intersection(p.start));
        }
    }
    crate::graph::lemma_filter_keep_all(m0.intersections@, not_preview_intersection(p));
    if p.start_created {
        let i_start = Intersection {
            id: p.start,
            position: pos,
            state: InteractiveElementState::Normal,
        };
        let i_end = Intersection { id: p.end, position: pos, state: InteractiveElementState::Normal };
        let mid = m0.intersections@.push(i_start);
        assert(m1.intersections@.drop_last() =~= mid);
        assert(m1.intersections@.last() == i_end);
        assert(mid.drop_last() =~= m0.intersections@);
        assert(mid.last() == i_start);
    } else {
        let i_end = Intersection { id: p.end, position: pos, state: InteractiveElementState::Normal };
        assert(m1.intersections@.drop_last() =~= m0.intersections@);
        assert(m1.intersections@.last() == i_end);
    }
}

/// Moving the preview street's free end keeps the preview live: liveness
/// depends only on ids and adjacency, which a position update leaves alone.
pub proof fn lemma_preview_live_after_move(
    p: PreviewStreet,
    m1: StreetMap,
    m2: StreetMap,
    pos2: Point,
)
    requires
        m1.wf(),
        preview_live(p, m1),
        m1.has_intersection(p.end),
        m2.streets@ == m1.streets@,
        m2.intersections@ == m1.intersections@.update(
            m1.intersection_idx(p.end),
            Intersection {
                id: m1.intersection_at(p.end).id,
                position: pos2,
                state: m1.intersection_at(p.end).state,
            },
        ),
    ensures
        preview_live(p, m2),
{
    let ke = m1.intersection_idx(p.end);
    assert(0 <= ke < m1.intersections@.len() && m1.intersections@[ke].id == p.end);
    assert(m2.intersections@[ke].id == p.end);
    assert(m2.has_intersection(p.end));
    let ks = m1.street_idx(p.street);
    assert(m2.streets@[ks].id == p.street);
    assert(m2.has_street(p.street));
    if p.start_created {
        let w = choose|w: int|
            0 <= w < m1.intersections@.len() && (#[trigger] m1.intersections@[w]).id == p.start;
        assert(m2.intersections@[w].id == p.start);
    }
}

/// Switching out of the create-street mode after the press and any number of
/// end moves still leaves no residue: one move step keeps the teardown's
/// conclusion anchored at the pre-press arenas.
pub proof fn lemma_exit_after_move_leaves_no_residue(
    m0: StreetMap,
    m1: StreetMap,
    m2: StreetMap,
    p: PreviewStreet,
    pos: Point,
    pos2: Point,
    m3: StreetMap,
)
    requires
        m0.wf(),
        m1.wf(),
        preview_created(m0, m1, p, pos),
        m1.has_intersection(p.end),
        m2.streets@ == m1.streets@,
        m2.districts@ == m1.districts@,
        m2.intersections@ == m1.intersections@.update(
            m1.intersection_idx(p.end),
            Intersection {
                id: m1.intersection_at(p.end).id,
                position: pos2,
                state: m1.intersection_at(p.end).state,
            },
        ),
        m3.streets@ == m2.streets@.filter(not_preview_street(p)),
        m3.intersections@ == m2.intersections@.filter(not_preview_intersection(p)),
        m3.districts@ == m2.districts@,
    ensures
        m3.intersections@ == m0.intersections@,
        m3.streets@ == m0.streets@,
        m3.districts@ == m0.districts@,
{
    let ke = m1.intersection_idx(p.end);
    assert(0 <= ke < m1.intersections@.len() && m1.intersections@[ke].id == p.end);
    let moved = Intersection {
        id: m1.intersection_at(p.end).id,
        position: pos2,
        state: m1.intersection_at(p.end).state,
    };
    assert(!(not_preview_intersection(p))(m1.intersections@[ke]));
    assert(!(not_preview_intersection(p))(moved));
    crate::graph::lemma_filter_update_failing(
        m1.intersections@,
        ke,
        moved,
        not_preview_intersection(p),
    );
    lemma_exit_mid_drag_leaves_no_residue(m0, m1, p, pos, m3);
}

} // verus!
