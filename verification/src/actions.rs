//! The undoable action engine: reversible units of graph mutation and a
//! linear history with a branch-discarding redo buffer.
//!
//! Every concrete action stores exactly the data needed to reverse itself:
//! the created id and its defining parameters, or the removed element. An
//! action whose recorded id can no longer be acted on (taken by someone else,
//! externally deleted, or still referenced) degrades to a no-op instead of
//! failing. The exact effect of applying and reverting each action is given
//! by the `*_apply_*` and `*_revert_*` spec functions below, and the history
//! engine's contracts compose them.

use vstd::prelude::*;

use crate::geom::{valid_point, Point};
use crate::graph::{
    District, InteractiveElementState, Intersection, Street, StreetMap,
    DEFAULT_MINIMUM_HOUSE_SIDE,
};

verus! {

/// Creates one intersection at a fixed position under a fixed id; undone by
/// removing that id.
#[derive(Clone, Copy, PartialEq, Eq, Structural, Debug)]
pub struct CreateIntersection {
    pub position: Point,
    pub id: u128,
    pub applied: bool,
}

impl CreateIntersection {
    /// A create-intersection action under a freshly drawn id.
    pub fn new(position: Point) -> (r: CreateIntersection)
        ensures
            r.position == position,
            !r.applied,
    {
        CreateIntersection::new_with_id(position, crate::graph::fresh_id())
    }

    /// A create-intersection action under a caller-chosen id.
    pub fn new_with_id(position: Point, id: u128) -> (r: CreateIntersection)
        ensures
            r == (CreateIntersection { position, id, applied: false }),
    {
        CreateIntersection { position, id, applied: false }
    }
}

/// Whether applying this create-intersection action lands.
pub open spec fn ci_apply_ok(a: CreateIntersection, m: StreetMap) -> bool {
    m.id_free(a.id) && valid_point(a.position)
}

/// The store after applying a create-intersection action.
pub open spec fn ci_apply_map(a: CreateIntersection, m0: StreetMap, m1: StreetMap) -> bool {
    if ci_apply_ok(a, m0) {
        m1.intersections@ == m0.intersections@.push(
            Intersection { id: a.id, position: a.position, state: InteractiveElementState::Normal },
        ) && m1.streets@ == m0.streets@ && m1.districts@ == m0.districts@ && m1.width == m0.width
            && m1.height == m0.height
    } else {
        m1 == m0
    }
}

/// The action after applying it: it records whether its effect landed.
pub open spec fn ci_apply_act(a: CreateIntersection, m: StreetMap) -> CreateIntersection {
    CreateIntersection { position: a.position, id: a.id, applied: ci_apply_ok(a, m) }
}

/// Whether reverting this create-intersection action lands.
pub open spec fn ci_revert_ok(a: CreateIntersection, m: StreetMap) -> bool {
    a.applied && m.has_intersection(a.id) && !m.intersection_referenced(a.id)
}

/// The store after reverting a create-intersection action.
pub open spec fn ci_revert_map(a: CreateIntersection, m0: StreetMap, m1: StreetMap) -> bool {
    if ci_revert_ok(a, m0) {
        m1.intersections@ == m0.intersections@.remove(m0.intersection_idx(a.id))
            && m1.streets@ == m0.streets@ && m1.districts@ == m0.districts@ && m1.width == m0.width
            && m1.height == m0.height
    } else {
        m1 == m0
    }
}

/// The action after reverting it.
pub open spec fn ci_revert_act(a: CreateIntersection, m: StreetMap) -> CreateIntersection {
    if ci_revert_ok(a, m) {
        CreateIntersection { position: a.position, id: a.id, applied: false }
    } else {
        a
    }
}

impl CreateIntersection {
    /// Applies the action: inserts the intersection when the id is free and
    /// the position lies in the world bounds, else changes nothing.
    pub fn redo(&mut self, map: &mut StreetMap)
        requires
            old(map).wf(),
        ensures
            final(map).wf(),
            ci_apply_map(*old(self), *old(map), *final(map)),
            *final(self) == ci_apply_act(*old(self), *old(map)),
    {
        let ok = crate::geom::point_valid(self.position) && map.id_is_free(self.id);
        if ok {
            match map.add_intersection_with_id(self.position, self.id) {
                Ok(()) => {},
                Err(_) => {},
            }
        }
        self.applied = ok;
    }

    /// Reverts the action: removes the recorded id when it was applied, still
    /// exists and no street references it, else changes nothing.
    pub fn undo(&mut self, map: &mut StreetMap)
        requires
            old(map).wf(),
        ensures
            final(map).wf(),
            ci_revert_map(*old(self), *old(map), *final(map)),
            *final(self) == ci_revert_act(*old(self), *old(map)),
    {
        if self.applied {
            let present = map.intersection_index(self.id).is_some();
            let referenced = map.is_intersection_referenced(self.id);
            if present && !referenced {
                match map.remove_intersection(self.id) {
                    Ok(()) => {},
                    Err(_) => {},
                }
                self.applied = false;
            }
        }
    }
}

/// Creates one street between two fixed intersections under a fixed id;
/// undone by removing that id.
#[derive(Clone, Copy, PartialEq, Eq, Structural, Debug)]
pub struct CreateStreet {
    pub start: u128,
    pub end: u128,
    pub width: i64,
    pub id: u128,
    pub applied: bool,
}

impl CreateStreet {
    /// A create-street action under a freshly drawn id.
    pub fn new(start: u128, end: u128, width: i64) -> (r: CreateStreet)
        ensures
            r.start == start && r.end == end && r.width == width && !r.applied,
    {
        CreateStreet { start, end, width, id: crate::graph::fresh_id(), applied: false }
    }

    /// A create-street action under a caller-chosen id.
    pub fn new_with_id(start: u128, end: u128, width: i64, id: u128) -> (r: CreateStreet)
        ensures
            r == (CreateStreet { start, end, width, id, applied: false }),
    {
        CreateStreet { start, end, width, id, applied: false }
    }
}

pub open spec fn cs_apply_ok(a: CreateStreet, m: StreetMap) -> bool {
    m.id_free(a.id) && m.has_intersection(a.start) && m.has_intersection(a.end) && a.start != a.end
        && 1 <= a.width <= crate::geom::MAX_COORD
}

pub open spec fn cs_apply_map(a: CreateStreet, m0: StreetMap, m1: StreetMap) -> bool {
    if cs_apply_ok(a, m0) {
        m1.streets@ == m0.streets@.push(
            Street {
                id: a.id,
                start: a.start,
                end: a.end,
                width: a.width,
                state: InteractiveElementState::Normal,
            },
        ) && m1.intersections@ == m0.intersections@ && m1.districts@ == m0.districts@ && m1.width
            == m0.width && m1.height == m0.height
    } else {
        m1 == m0
    }
}

pub open spec fn cs_apply_act(a: CreateStreet, m: StreetMap) -> CreateStreet {
    CreateStreet {
        start: a.start,
        end: a.end,
        width: a.width,
        id: a.id,
        applied: cs_apply_ok(a, m),
    }
}

pub open spec fn cs_revert_ok(a: CreateStreet, m: StreetMap) -> bool {
    a.applied && m.has_street(a.id)
}

pub open spec fn cs_revert_map(a: CreateStreet, m0: StreetMap, m1: StreetMap) -> bool {
    if cs_revert_ok(a, m0) {
        m1.streets@ == m0.streets@.remove(m0.street_idx(a.id)) && m1.intersections@
            == m0.intersections@ && m1.districts@ == m0.districts@ && m1.width == m0.width
            && m1.height == m0.height
    } else {
        m1 == m0
    }
}

pub open spec fn cs_revert_act(a: CreateStreet, m: StreetMap) -> CreateStreet {
    if cs_revert_ok(a, m) {
        CreateStreet { start: a.start, end: a.end, width: a.width, id: a.id, applied: false }
    } else {
        a
    }
}

impl CreateStreet {
    /// Applies the action: inserts the street when the id is free, both
    /// endpoints exist and are distinct, and the width is in range.
    pub fn redo(&mut self, map: &mut StreetMap)
        requires
            old(map).wf(),
        ensures
            final(map).wf(),
            cs_apply_map(*old(self), *old(map), *final(map)),
            *final(self) == cs_apply_act(*old(self), *old(map)),
    {
        let ok = 1 <= self.width && self.width <= crate::geom::MAX_COORD && self.start != self.end
            && map.intersection_index(self.start).is_some() && map.intersection_index(
            self.end,
        ).is_some() && map.id_is_free(self.id);
        if ok {
            match map.add_street_with_id(self.start, self.end, self.width, self.id) {
                Ok(()) => {},
                Err(_) => {},
            }
        }
        self.applied = ok;
    }

    /// Reverts the action: removes the recorded street id if it still exists.
    pub fn undo(&mut self, map: &mut StreetMap)
        requires
            old(map).wf(),
        ensures
            final(map).wf(),
            cs_revert_map(*old(self), *old(map), *final(map)),
            *final(self) == cs_revert_act(*old(self), *old(map)),
    {
        if self.applied {
            if map.street_index(self.id).is_some() {
                let removed = map.remove_street(self.id);
                self.applied = false;
            }
        }
    }
}

/// Registers one district with a fixed boundary polygon under a fixed id;
/// undone by removing that id. Records the street the trace started from.
#[derive(Clone, PartialEq, Eq, Debug)]
pub struct CreateDistrictAction {
    pub street: u128,
    pub polygon: Vec<Point>,
    pub id: u128,
    pub applied: bool,
}

impl CreateDistrictAction {
    /// A create-district action under a freshly drawn id.
    pub fn new(street: u128, polygon: Vec<Point>) -> (r: CreateDistrictAction)
        ensures
            r.street == street && r.polygon@ == polygon@ && !r.applied,
    {
        CreateDistrictAction { street, polygon, id: crate::graph::fresh_id(), applied: false }
    }

    /// A create-district action under a caller-chosen id.
    pub fn new_with_id(street: u128, polygon: Vec<Point>, id: u128) -> (r: CreateDistrictAction)
        ensures
            r.street == street && r.polygon@ == polygon@ && r.id == id && !r.applied,
    {
        CreateDistrictAction { street, polygon, id, applied: false }
    }
}

pub open spec fn cd_apply_ok(a: CreateDistrictAction, m: StreetMap) -> bool {
    m.id_free(a.id) && forall|i: int|
        0 <= i < a.polygon@.len() ==> valid_point(#[trigger] a.polygon@[i])
}

pub open spec fn cd_apply_map(a: CreateDistrictAction, m0: StreetMap, m1: StreetMap) -> bool {
    if cd_apply_ok(a, m0) {
        m1.districts@.len() == m0.districts@.len() + 1 && m1.districts@.drop_last()
            == m0.districts@ && m1.districts@.last().id == a.id && m1.districts@.last().polygon@
            == a.polygon@ && m1.districts@.last().state == InteractiveElementState::Normal
            && m1.districts@.last().minimum_house_side == DEFAULT_MINIMUM_HOUSE_SIDE
            && m1.intersections@ == m0.intersections@ && m1.streets@ == m0.streets@ && m1.width
            == m0.width && m1.height == m0.height
    } else {
        m1 == m0
    }
}

pub open spec fn cd_apply_act(a: CreateDistrictAction, m: StreetMap) -> CreateDistrictAction {
    CreateDistrictAction {
        street: a.street,
        polygon: a.polygon,
        id: a.id,
        applied: cd_apply_ok(a, m),
    }
}

pub open spec fn cd_revert_ok(a: CreateDistrictAction, m: StreetMap) -> bool {
    a.applied && m.has_district(a.id)
}

pub open spec fn cd_revert_map(a: CreateDistrictAction, m0: StreetMap, m1: StreetMap) -> bool {
    if cd_revert_ok(a, m0) {
        m1.districts@ == m0.districts@.remove(m0.district_idx(a.id)) && m1.intersections@
            == m0.intersections@ && m1.streets@ == m0.streets@ && m1.width == m0.width && m1.height
            == m0.height
    } else {
        m1 == m0
    }
}

pub open spec fn cd_revert_act(a: CreateDistrictAction, m: StreetMap) -> CreateDistrictAction {
    if cd_revert_ok(a, m) {
        CreateDistrictAction { street: a.street, polygon: a.polygon, id: a.id, applied: false }
    } else {
        a
    }
}

impl CreateDistrictAction {
    /// Applies the action: registers the district when the id is free and the
    /// polygon lies in the world bounds.
    pub fn redo(&mut self, map: &mut StreetMap)
        requires
            old(map).wf(),
        ensures
            final(map).wf(),
            cd_apply_map(*old(self), *old(map), *final(map)),
            *final(self) == cd_apply_act(*old(self), *old(map)),
    {
        let ok = crate::graph::points_all_valid(&self.polygon) && map.id_is_free(self.id);
        if ok {
            let ghost pre = *map;
            let poly = crate::graph::clone_points(&self.polygon);
            match map.add_district_with_id(poly, self.id) {
                Ok(()) => {},
                Err(_) => {},
            }
            proof {
                assert(map.districts@.drop_last() =~= pre.districts@);
            }
        }
        self.applied = ok;
    }

    /// Reverts the action: removes the recorded district id if it still
    /// exists.
    pub fn undo(&mut self, map: &mut StreetMap)
        requires
            old(map).wf(),
        ensures
            final(map).wf(),
            cd_revert_map(*old(self), *old(map), *final(map)),
            *final(self) == cd_revert_act(*old(self), *old(map)),
    {
        if self.applied {
            if map.district_index(self.id).is_some() {
                let removed = map.remove_district(self.id);
                self.applied = false;
            }
        }
    }
}

/// Removes one street, remembering it so the removal can be reversed.
#[derive(Clone, Copy, PartialEq, Eq, Structural, Debug)]
pub struct DeleteStreet {
    pub id: u128,
    pub removed: Option<Street>,
}

impl DeleteStreet {
    pub fn new(id: u128) -> (r: DeleteStreet)
        ensures
            r == (DeleteStreet { id, removed: Option::<Street>::None }),
    {
        DeleteStreet { id, removed: None }
    }
}

pub open spec fn dls_apply_ok(a: DeleteStreet, m: StreetMap) -> bool {
    m.has_street(a.id)
}

pub open spec fn dls_apply_map(a: DeleteStreet, m0: StreetMap, m1: StreetMap) -> bool {
    if dls_apply_ok(a, m0) {
        m1.streets@ == m0.streets@.remove(m0.street_idx(a.id)) && m1.intersections@
            == m0.intersections@ && m1.districts@ == m0.districts@ && m1.width == m0.width
            && m1.height == m0.height
    } else {
        m1 == m0
    }
}

pub open spec fn dls_apply_act(a: DeleteStreet, m: StreetMap) -> DeleteStreet {
    if dls_apply_ok(a, m) {
        DeleteStreet { id: a.id, removed: Some(m.street_at(a.id)) }
    } else {
        a
    }
}

pub open spec fn dls_revert_ok(a: DeleteStreet, m: StreetMap) -> bool {
    match a.removed {
        Option::Some(s) => m.id_free(s.id) && m.has_intersection(s.start) && m.has_intersection(
            s.end,
        ) && s.start != s.end && 1 <= s.width <= crate::geom::MAX_COORD,
        Option::None => false,
    }
}

pub open spec fn dls_revert_map(a: DeleteStreet, m0: StreetMap, m1: StreetMap) -> bool {
    if dls_revert_ok(a, m0) {
        m1.streets@ == m0.streets@.push(
            Street {
                id: a.removed->Some_0.id,
                start: a.removed->Some_0.start,
                end: a.removed->Some_0.end,
                width: a.removed->Some_0.width,
                state: InteractiveElementState::Normal,
            },
        ) && m1.intersections@ == m0.intersections@ && m1.districts@ == m0.districts@ && m1.width
            == m0.width && m1.height == m0.height
    } else {
        m1 == m0
    }
}

pub open spec fn dls_revert_act(a: DeleteStreet, m: StreetMap) -> DeleteStreet {
    if dls_revert_ok(a, m) {
        DeleteStreet { id: a.id, removed: Option::<Street>::None }
    } else {
        a
    }
}

impl DeleteStreet {
    /// Applies the action: removes the street and remembers its data.
    pub fn redo(&mut self, map: &mut StreetMap)
        requires
            old(map).wf(),
        ensures
            final(map).wf(),
            dls_apply_map(*old(self), *old(map), *final(map)),
            *final(self) == dls_apply_act(*old(self), *old(map)),
    {
        match map.street(self.id) {
            Some(s) => {
                self.removed = Some(*s);
                let removed = map.remove_street(self.id);
            },
            None => {},
        }
    }

    /// Reverts the action: re-creates the remembered street if its id is free
    /// again and its endpoints still exist.
    pub fn undo(&mut self, map: &mut StreetMap)
        requires
            old(map).wf(),
        ensures
            final(map).wf(),
            dls_revert_map(*old(self), *old(map), *final(map)),
            *final(self) == dls_revert_act(*old(self), *old(map)),
    {
        match self.removed {
            Some(s) => {
                let ok = 1 <= s.width && s.width <= crate::geom::MAX_COORD && s.start != s.end
                    && map.intersection_index(s.start).is_some() && map.intersection_index(
                    s.end,
                ).is_some() && map.id_is_free(s.id);
                if ok {
                    match map.add_street_with_id(s.start, s.end, s.width, s.id) {
                        Ok(()) => {},
                        Err(_) => {},
                    }
                    self.removed = None;
                }
            },
            None => {},
        }
    }
}

/// Removes one district, remembering it so the removal can be reversed.
#[derive(Clone, PartialEq, Eq, Debug)]
pub struct DeleteDistrict {
    pub id: u128,
    pub removed: Option<District>,
}

impl DeleteDistrict {
    pub fn new(id: u128) -> (r: DeleteDistrict)
        ensures
            r.id == id && r.removed is None,
    {
        DeleteDistrict { id, removed: None }
    }
}

pub open spec fn dld_apply_ok(a: DeleteDistrict, m: StreetMap) -> bool {
    m.has_district(a.id)
}

pub open spec fn dld_apply_map(a: DeleteDistrict, m0: StreetMap, m1: StreetMap) -> bool {
    if dld_apply_ok(a, m0) {
        m1.districts@ == m0.districts@.remove(m0.district_idx(a.id)) && m1.intersections@
            == m0.intersections@ && m1.streets@ == m0.streets@ && m1.width == m0.width && m1.height
            == m0.height
    } else {
        m1 == m0
    }
}

pub open spec fn dld_apply_act(a: DeleteDistrict, m: StreetMap) -> DeleteDistrict {
    if dld_apply_ok(a, m) {
        DeleteDistrict { id: a.id, removed: Some(m.district_at(a.id)) }
    } else {
        a
    }
}

pub open spec fn dld_revert_ok(a: DeleteDistrict, m: StreetMap) -> bool {
    match a.removed {
        Option::Some(d) => m.id_free(d.id) && d.wf(),
        Option::None => false,
    }
}

pub open spec fn dld_revert_map(a: DeleteDistrict, m0: StreetMap, m1: StreetMap) -> bool {
    if dld_revert_ok(a, m0) {
        m1.districts@.len() == m0.districts@.len() + 1 && m1.districts@.drop_last()
            == m0.districts@ && m1.districts@.last().id == a.removed->Some_0.id
            && m1.districts@.last().polygon@ == a.removed->Some_0.polygon@
            && m1.districts@.last().state == InteractiveElementState::Normal
            && m1.districts@.last().minimum_house_side == a.removed->Some_0.minimum_house_side
            && m1.intersections@ == m0.intersections@ && m1.streets@ == m0.streets@ && m1.width
            == m0.width && m1.height == m0.height
    } else {
        m1 == m0
    }
}

pub open spec fn dld_revert_act(a: DeleteDistrict, m: StreetMap) -> DeleteDistrict {
    if dld_revert_ok(a, m) {
        DeleteDistrict { id: a.id, removed: Option::<District>::None }
    } else {
        a
    }
}

impl DeleteDistrict {
    /// Applies the action: removes the district and remembers it.
    pub fn redo(&mut self, map: &mut StreetMap)
        requires
            old(map).wf(),
        ensures
            final(map).wf(),
            dld_apply_map(*old(self), *old(map), *final(map)),
            *final(self) == dld_apply_act(*old(self), *old(map)),
    {
        match map.take_district(self.id) {
            Some(d) => {
                self.removed = Some(d);
            },
            None => {},
        }
    }

    /// Reverts the action: re-registers the remembered district if its id is
    /// free again.
    pub fn undo(&mut self, map: &mut StreetMap)
        requires
            old(map).wf(),
        ensures
            final(map).wf(),
            dld_revert_map(*old(self), *old(map), *final(map)),
            *final(self) == dld_revert_act(*old(self), *old(map)),
    {
        let ok = match &self.removed {
            Some(d) => crate::graph::points_all_valid(&d.polygon) && map.id_is_free(d.id),
            None => false,
        };
        if ok {
            match &self.removed {
                Some(d) => {
                    let poly = crate::graph::clone_points(&d.polygon);
                    let restored = District {
                        id: d.id,
                        polygon: poly,
                        state: InteractiveElementState::Normal,
                        minimum_house_side: d.minimum_house_side,
                    };
                    let ghost pre = *map;
                    match map.insert_district(restored) {
                        Ok(()) => {},
                        Err(_) => {},
                    }
                    proof {
                        assert(map.districts@.drop_last() =~= pre.districts@);
                    }
                },
                None => {},
            }
            self.removed = None;
        }
    }
}

/// One reversible unit of graph mutation.
#[derive(Clone, PartialEq, Eq, Debug)]
pub enum Action {
    CreateIntersection(CreateIntersection),
    CreateStreet(CreateStreet),
    CreateDistrict(CreateDistrictAction),
    DeleteStreet(DeleteStreet),
    DeleteDistrict(DeleteDistrict),
}

/// The store after applying an action.
pub open spec fn apply_map(a: Action, m0: StreetMap, m1: StreetMap) -> bool {
    match a {
        Action::CreateIntersection(x) => ci_apply_map(x, m0, m1),
        Action::CreateStreet(x) => cs_apply_map(x, m0, m1),
        Action::CreateDistrict(x) => cd_apply_map(x, m0, m1),
        Action::DeleteStreet(x) => dls_apply_map(x, m0, m1),
        Action::DeleteDistrict(x) => dld_apply_map(x, m0, m1),
    }
}

/// The action after applying it.
pub open spec fn apply_act(a: Action, m: StreetMap) -> Action {
    match a {
        Action::CreateIntersection(x) => Action::CreateIntersection(ci_apply_act(x, m)),
        Action::CreateStreet(x) => Action::CreateStreet(cs_apply_act(x, m)),
        Action::CreateDistrict(x) => Action::CreateDistrict(cd_apply_act(x, m)),
        Action::DeleteStreet(x) => Action::DeleteStreet(dls_apply_act(x, m)),
        Action::DeleteDistrict(x) => Action::DeleteDistrict(dld_apply_act(x, m)),
    }
}

/// The store after reverting an action.
pub open spec fn revert_map(a: Action, m0: StreetMap, m1: StreetMap) -> bool {
    match a {
        Action::CreateIntersection(x) => ci_revert_map(x, m0, m1),
        Action::CreateStreet(x) => cs_revert_map(x, m0, m1),
        Action::CreateDistrict(x) => cd_revert_map(x, m0, m1),
        Action::DeleteStreet(x) => dls_revert_map(x, m0, m1),
        Action::DeleteDistrict(x) => dld_revert_map(x, m0, m1),
    }
}

/// The action after reverting it.
pub open spec fn revert_act(a: Action, m: StreetMap) -> Action {
    match a {
        Action::CreateIntersection(x) => Action::CreateIntersection(ci_revert_act(x, m)),
        Action::CreateStreet(x) => Action::CreateStreet(cs_revert_act(x, m)),
        Action::CreateDistrict(x) => Action::CreateDistrict(cd_revert_act(x, m)),
        Action::DeleteStreet(x) => Action::DeleteStreet(dls_revert_act(x, m)),
        Action::DeleteDistrict(x) => Action::DeleteDistrict(dld_revert_act(x, m)),
    }
}

impl Action {
    /// Applies this action to the graph (the `redo` direction).
    pub fn redo(&mut self, map: &mut StreetMap)
        requires
            old(map).wf(),
        ensures
            final(map).wf(),
            apply_map(*old(self), *old(map), *final(map)),
            *final(self) == apply_act(*old(self), *old(map)),
    {
        match self {
            Action::CreateIntersection(x) => x.redo(map),
            Action::CreateStreet(x) => x.redo(map),
            Action::CreateDistrict(x) => x.redo(map),
            Action::DeleteStreet(x) => x.redo(map),
            Action::DeleteDistrict(x) => x.redo(map),
        }
    }

    /// Reverses this action's mutation (the `undo` direction).
    pub fn undo(&mut self, map: &mut StreetMap)
        requires
            old(map).wf(),
        ensures
            final(map).wf(),
            revert_map(*old(self), *old(map), *final(map)),
            *final(self) == revert_act(*old(self), *old(map)),
    {
        match self {
            Action::CreateIntersection(x) => x.undo(map),
            Action::CreateStreet(x) => x.undo(map),
            Action::CreateDistrict(x) => x.undo(map),
            Action::DeleteStreet(x) => x.undo(map),
            Action::DeleteDistrict(x) => x.undo(map),
        }
    }

    /// A human-readable label for diagnostics; no behavioral effect.
    pub fn label(&self) -> (r: &'static str) {
        match self {
            Action::CreateIntersection(_) => "create_intersection",
            Action::CreateStreet(_) => "create_street",
            Action::CreateDistrict(_) => "create_district",
            Action::DeleteStreet(_) => "delete_street",
            Action::DeleteDistrict(_) => "delete_district",
        }
    }
}

/// The linear undo/redo history: a stack of performed actions and a buffer of
/// undone ones. Performing a new action discards the undone suffix.
#[derive(Debug)]
pub struct History {
    pub done: Vec<Action>,
    pub undone: Vec<Action>,
}

impl History {
    /// An empty history.
    pub fn new() -> (r: History)
        ensures
            r.done@.len() == 0,
            r.undone@.len() == 0,
    {
        History { done: Vec::new(), undone: Vec::new() }
    }

    /// Applies the action against the graph, pushes it onto the history
    /// stack, and clears the previously undone suffix.
    pub fn perform(&mut self, action: Action, map: &mut StreetMap)
        requires
            old(map).wf(),
        ensures
            final(map).wf(),
            apply_map(action, *old(map), *final(map)),
            final(self).done@ == old(self).done@.push(apply_act(action, *old(map))),
            final(self).undone@.len() == 0,
    {
        let mut a = action;
        a.redo(map);
        self.done.push(a);
        self.undone.clear();
    }

    /// Reverts the most recently performed action, moving it to the redo
    /// buffer; a no-op on an empty history.
    pub fn undo(&mut self, map: &mut StreetMap)
        requires
            old(map).wf(),
        ensures
            final(map).wf(),
            old(self).done@.len() == 0 ==> final(self).done@ == old(self).done@ && final(self).undone@ == old(self).undone@ && *final(map) == *old(map),
            old(self).done@.len() > 0 ==> revert_map(old(self).done@.last(), *old(map), *final(map))
                && final(self).done@ == old(self).done@.drop_last() && final(self).undone@ == old(self).undone@.push(revert_act(old(self).done@.last(), *old(map))),
    {
        match self.done.pop() {
            None => {},
            Some(a) => {
                let mut a = a;
                a.undo(map);
                self.undone.push(a);
            },
        }
    }

    /// Re-applies the most recently undone action, moving it back onto the
    /// history stack; a no-op on an empty redo buffer.
    pub fn redo(&mut self, map: &mut StreetMap)
        requires
            old(map).wf(),
        ensures
            final(map).wf(),
            old(self).undone@.len() == 0 ==> final(self).done@ == old(self).done@ && final(self).undone@
                == old(self).undone@ && *final(map) == *old(map),
            old(self).undone@.len() > 0 ==> apply_map(old(self).undone@.last(), *old(map), *final(map))
                && final(self).undone@ == old(self).undone@.drop_last() && final(self).done@ == old(self).done@.push(apply_act(old(self).undone@.last(), *old(map))),
    {
        match self.undone.pop() {
            None => {},
            Some(a) => {
                let mut a = a;
                a.redo(map);
                self.done.push(a);
            },
        }
    }

    /// How many actions can currently be undone.
    pub fn undo_depth(&self) -> (r: usize)
        ensures
            r == self.done@.len(),
    {
        self.done.len()
    }

    /// How many actions can currently be redone.
    pub fn redo_depth(&self) -> (r: usize)
        ensures
            r == self.undone@.len(),
    {
        self.undone.len()
    }
}

/// Performing a create-intersection action and then undoing it restores all
/// three element arenas exactly: in particular the intersection count and
/// every id are as they were before the perform.
pub proof fn lemma_perform_undo_create_intersection(
    a0: CreateIntersection,
    m0: StreetMap,
    m1: StreetMap,
    m2: StreetMap,
)
    requires
        m0.wf(),
        ci_apply_map(a0, m0, m1),
        ci_revert_map(ci_apply_act(a0, m0), m1, m2),
    ensures
        m2.intersections@ == m0.intersections@,
        m2.streets@ == m0.streets@,
        m2.districts@ == m0.districts@,
{
    let a1 = ci_apply_act(a0, m0);
    if ci_apply_ok(a0, m0) {
        let n0 = m0.intersections@.len() as int;
        assert(m1.intersections@[n0].id == a0.id);
        assert(m1.has_intersection(a0.id));
        assert(!m1.intersection_referenced(a0.id)) by {
            if m1.intersection_referenced(a0.id) {
                let j = choose|j: int|
                    0 <= j < m1.streets@.len() && ((#[trigger] m1.streets@[j]).start == a0.id
                        || m1.streets@[j].end == a0.id);
                assert(m0.streets@[j] == m1.streets@[j]);
                assert(m0.has_intersection(m0.streets@[j].start));
                assert(m0.has_intersection(m0.streets@[j].end));
            }
        }
        assert(ci_revert_ok(a1, m1));
        let k = m1.intersection_idx(a0.id);
        assert(0 <= k < m1.intersections@.len() && m1.intersections@[k].id == a0.id);
        assert(k == n0) by {
            if k < n0 {
                assert(m0.intersections@[k] == m1.intersections@[k]);
                assert(m0.has_intersection(a0.id));
            }
        }
        assert(m2.intersections@ =~= m0.intersections@);
    } else {
        assert(!ci_revert_ok(a1, m1));
    }
}

/// The key of a district for comparisons across re-creation: its id and its
/// polygon, as a value.
pub open spec fn district_keys(s: Seq<District>) -> Seq<(u128, Seq<Point>)> {
    s.map_values(|d: District| (d.id, d.polygon@))
}

/// Performing a create-district action, undoing it and redoing it reproduces
/// the district of the original perform: afterwards the district arena holds
/// the same ids and the same polygons as right after the first perform, and
/// the rest of the graph is untouched.
pub proof fn lemma_undo_redo_create_district(
    a0: CreateDistrictAction,
    m0: StreetMap,
    m1: StreetMap,
    m2: StreetMap,
    m3: StreetMap,
)
    requires
        m0.wf(),
        cd_apply_map(a0, m0, m1),
        cd_revert_map(cd_apply_act(a0, m0), m1, m2),
        cd_apply_map(cd_revert_act(cd_apply_act(a0, m0), m1), m2, m3),
    ensures
        district_keys(m3.districts@) == district_keys(m1.districts@),
        m3.intersections@ == m1.intersections@,
        m3.streets@ == m1.streets@,
{
    let a1 = cd_apply_act(a0, m0);
    let a2 = cd_revert_act(a1, m1);
    let n0 = m0.districts@.len() as int;
    if cd_apply_ok(a0, m0) {
        assert(m1.districts@[n0].id == a0.id) by {
            assert(m1.districts@.last() == m1.districts@[n0]);
        }
        assert(m1.has_district(a0.id));
        assert(cd_revert_ok(a1, m1));
        let k = m1.district_idx(a0.id);
        assert(0 <= k < m1.districts@.len() && m1.districts@[k].id == a0.id);
        assert(k == n0) by {
            if k < n0 {
                assert(m1.districts@.drop_last()[k] == m1.districts@[k]);
                assert(m0.districts@[k] == m1.districts@[k]);
                assert(m0.has_district(a0.id));
            }
        }
        assert(m2.districts@ =~= m0.districts@) by {
            assert forall|i: int| 0 <= i < n0 implies m2.districts@[i] == m0.districts@[i] by {
                assert(m2.districts@[i] == m1.districts@[i]);
                assert(m1.districts@.drop_last()[i] == m1.districts@[i]);
            }
        }
        assert(cd_apply_ok(a2, m2)) by {
            assert(m2.intersections@ == m0.intersections@);
            assert(m2.streets@ == m0.streets@);
        }
        assert(district_keys(m3.districts@) =~= district_keys(m1.districts@)) by {
            assert forall|i: int|
                0 <= i < m3.districts@.len() implies district_keys(m3.districts@)[i]
                == district_keys(m1.districts@)[i] by {
                if i < n0 {
                    assert(m3.districts@.drop_last()[i] == m3.districts@[i]);
                    assert(m2.districts@[i] == m3.districts@[i]);
                    assert(m1.districts@.drop_last()[i] == m1.districts@[i]);
                } else {
                    assert(m3.districts@.last() == m3.districts@[i]);
                    assert(m1.districts@.last() == m1.districts@[i]);
                }
            }
        }
    } else {
        assert(!cd_revert_ok(a1, m1));
        assert(m2 == m1 && m1 == m0);
        assert(!cd_apply_ok(a2, m2));
    }
}

} // verus!
