//! The editor context: the graph store, the action history and the single
//! active interaction mode, with the event entry points that the surrounding
//! shell calls.
//!
//! Exactly one mode is active at a time. Switching modes exits the old mode
//! (which removes any preview artifacts it created) and enters the new one;
//! no mutation happens outside the handler of one input event.

use vstd::prelude::*;

use crate::actions::History;
use crate::geom::{valid_point, Point, MAX_COORD};
use crate::graph::StreetMap;
use crate::modes::{
    gizmo_centroid, BoxSelectSystem, CreateDistrict, CreateStreetState, DeleteDistrict,
    DeleteStreetState, IdleState, MoveControlState,
};

verus! {

/// The closed set of interaction modes, each carrying its transient data.
#[derive(Clone, Copy, PartialEq, Eq, Structural, Debug)]
pub enum Mode {
    Idle(IdleState),
    CreateStreet(CreateStreetState),
    DeleteStreet(DeleteStreetState),
    MoveControl(MoveControlState),
    BoxSelect(BoxSelectSystem),
    CreateDistrict(CreateDistrict),
    DeleteDistrict(DeleteDistrict),
}

/// Which mode is meant, without its data.
#[derive(Clone, Copy, PartialEq, Eq, Structural, Debug)]
pub enum ModeKind {
    Idle,
    CreateStreet,
    DeleteStreet,
    MoveControl,
    BoxSelect,
    CreateDistrict,
    DeleteDistrict,
}

impl Mode {
    pub open spec fn kind(self) -> ModeKind {
        match self {
            Mode::Idle(_) => ModeKind::Idle,
            Mode::CreateStreet(_) => ModeKind::CreateStreet,
            Mode::DeleteStreet(_) => ModeKind::DeleteStreet,
            Mode::MoveControl(_) => ModeKind::MoveControl,
            Mode::BoxSelect(_) => ModeKind::BoxSelect,
            Mode::CreateDistrict(_) => ModeKind::CreateDistrict,
            Mode::DeleteDistrict(_) => ModeKind::DeleteDistrict,
        }
    }

    /// Mode-local validity (only the move mode caches points).
    pub open spec fn wf(self) -> bool {
        match self {
            Mode::MoveControl(mc) => mc.wf(),
            _ => true,
        }
    }
}

/// What leaving a mode does to the graph: hover highlights are cleared and
/// preview artifacts are removed; nothing else changes.
pub open spec fn mode_exit_map(mode: Mode, m0: StreetMap, m1: StreetMap) -> bool {
    match mode {
        Mode::Idle(_) => m1 == m0,
        Mode::BoxSelect(_) => m1 == m0,
        Mode::CreateDistrict(_) => m1 == m0,
        Mode::DeleteStreet(s) => crate::modes::clear_street_hover_effect(
            s.hovered_street,
            m0,
            m1,
        ),
        Mode::DeleteDistrict(d) => {
            &&& m1.intersections@ == m0.intersections@
            &&& m1.streets@ == m0.streets@
            &&& m1.width == m0.width
            &&& m1.height == m0.height
            &&& match d.hovered_district {
                Some(id) => if m0.has_district(id) {
                    m1.districts@ == m0.districts@.update(
                        m0.district_idx(id),
                        crate::graph::District {
                            id: m0.district_at(id).id,
                            polygon: m0.district_at(id).polygon,
                            state: crate::graph::InteractiveElementState::Normal,
                            minimum_house_side: m0.district_at(id).minimum_house_side,
                        },
                    )
                } else {
                    m1.districts@ == m0.districts@
                },
                None => m1.districts@ == m0.districts@,
            }
        },
        Mode::MoveControl(mc) => {
            &&& m1.streets@ == m0.streets@
            &&& m1.districts@ == m0.districts@
            &&& m1.width == m0.width
            &&& m1.height == m0.height
            &&& match mc.hovered_control {
                Some(id) => if m0.has_intersection(id) {
                    m1.intersections@ == m0.intersections@.update(
                        m0.intersection_idx(id),
                        crate::graph::Intersection {
                            id: m0.intersection_at(id).id,
                            position: m0.intersection_at(id).position,
                            state: crate::graph::InteractiveElementState::Normal,
                        },
                    )
                } else {
                    m1.intersections@ == m0.intersections@
                },
                None => m1.intersections@ == m0.intersections@,
            }
        },
        Mode::CreateStreet(cs) => {
            &&& m1.districts@ == m0.districts@
            &&& m1.width == m0.width
            &&& m1.height == m0.height
            &&& (cs.preview is None ==> m1 == m0)
            &&& match cs.preview {
                Some(p) => crate::modes::preview_live(p, m0) ==> (m1.streets@
                    == m0.streets@.filter(crate::modes::not_preview_street(p))
                    && m1.intersections@ == m0.intersections@.filter(
                    crate::modes::not_preview_intersection(p),
                )),
                None => true,
            }
        },
    }
}

/// The fresh data a just-entered mode starts with; only the move mode reads
/// the graph on entry (to anchor its gizmo at the selection's centroid).
pub open spec fn mode_entered(kind: ModeKind, m: StreetMap) -> Mode {
    match kind {
        ModeKind::Idle => Mode::Idle(IdleState {  }),
        ModeKind::CreateStreet => Mode::CreateStreet(
            CreateStreetState { preview: Option::None },
        ),
        ModeKind::DeleteStreet => Mode::DeleteStreet(
            DeleteStreetState { hovered_street: Option::None },
        ),
        ModeKind::MoveControl => Mode::MoveControl(
            MoveControlState {
                hovered_control: Option::None,
                gizmo_position: gizmo_centroid(m),
                dragging: false,
                last_mouse: Point { x: 0, y: 0 },
            },
        ),
        ModeKind::BoxSelect => Mode::BoxSelect(BoxSelectSystem::default_spec()),
        ModeKind::CreateDistrict => Mode::CreateDistrict(
            CreateDistrict {
                hovered_street: Option::None,
                minimum_house_side: crate::graph::DEFAULT_MINIMUM_HOUSE_SIDE,
            },
        ),
        ModeKind::DeleteDistrict => Mode::DeleteDistrict(
            DeleteDistrict { hovered_district: Option::None },
        ),
    }
}

/// The editor context: graph, history, active mode and render flags.
#[derive(Debug)]
pub struct Editor {
    pub map: StreetMap,
    pub history: History,
    pub mode: Mode,
    pub render_intersections: bool,
    pub render_streets: bool,
}

impl Editor {
    pub open spec fn wf(self) -> bool {
        self.map.wf() && self.mode.wf()
    }

    /// A fresh editor over an empty map of the given canvas size, idle.
    pub fn new(width: u32, height: u32) -> (r: Editor)
        ensures
            r.wf(),
            r.map.intersections@.len() == 0,
            r.map.streets@.len() == 0,
            r.map.districts@.len() == 0,
            r.map.width == width,
            r.map.height == height,
            r.mode == Mode::Idle(IdleState {  }),
            r.history.done@.len() == 0,
            r.history.undone@.len() == 0,
            r.render_intersections,
            r.render_streets,
    {
        Editor {
            map: StreetMap::new(width, height),
            history: History::new(),
            mode: Mode::Idle(IdleState {  }),
            render_intersections: true,
            render_streets: true,
        }
    }

    /// Switches the active mode: exits the old mode (clearing its hover
    /// highlights and preview artifacts) and enters the new one with fresh
    /// mode-local data.
    pub fn switch_to_mode(&mut self, kind: ModeKind)
        requires
            old(self).wf(),
        ensures
            final(self).wf(),
            mode_exit_map(old(self).mode, old(self).map, final(self).map),
            final(self).mode == mode_entered(kind, final(self).map),
            final(self).mode.kind() == kind,
            final(self).history.done@ == old(self).history.done@,
            final(self).history.undone@ == old(self).history.undone@,
            final(self).render_intersections == old(self).render_intersections,
            final(self).render_streets == old(self).render_streets,
    {
        let mode = self.mode;
        match mode {
            Mode::Idle(_) => {},
            Mode::BoxSelect(s) => {
                s.exit(&mut self.map);
            },
            Mode::CreateDistrict(s) => {
                s.exit(&mut self.map);
            },
            Mode::DeleteStreet(s) => {
                s.exit(&mut self.map);
            },
            Mode::DeleteDistrict(s) => {
                s.exit(&mut self.map);
            },
            Mode::MoveControl(s) => {
                s.exit(&mut self.map);
            },
            Mode::CreateStreet(s) => {
                s.exit(&mut self.map);
            },
        }
        match kind {
            ModeKind::Idle => {
                self.mode = Mode::Idle(IdleState::new());
            },
            ModeKind::CreateStreet => {
                self.mode = Mode::CreateStreet(CreateStreetState::new());
            },
            ModeKind::DeleteStreet => {
                self.mode = Mode::DeleteStreet(DeleteStreetState::new());
            },
            ModeKind::MoveControl => {
                let mut mc = MoveControlState::new();
                mc.enter(&mut self.map);
                self.mode = Mode::MoveControl(mc);
            },
            ModeKind::BoxSelect => {
                self.mode = Mode::BoxSelect(BoxSelectSystem::new());
            },
            ModeKind::CreateDistrict => {
                self.mode = Mode::CreateDistrict(CreateDistrict::new());
            },
            ModeKind::DeleteDistrict => {
                self.mode = Mode::DeleteDistrict(DeleteDistrict::new());
            },
        }
    }

    pub fn width(&self) -> (r: u32)
        ensures
            r == self.map.width,
    {
        self.map.width()
    }

    pub fn height(&self) -> (r: u32)
        ensures
            r == self.map.height,
    {
        self.map.height()
    }

    pub fn intersections_length(&self) -> (r: usize)
        ensures
            r == self.map.intersections@.len(),
    {
        self.map.intersections_length()
    }

    pub fn streets_length(&self) -> (r: usize)
        ensures
            r == self.map.streets@.len(),
    {
        self.map.streets_length()
    }

    pub fn set_render_intersections(&mut self, render: bool)
        ensures
            *final(self) == (Editor { render_intersections: render, ..*old(self) }),
    {
        self.render_intersections = render;
    }

    pub fn set_render_streets(&mut self, render: bool)
        ensures
            *final(self) == (Editor { render_streets: render, ..*old(self) }),
    {
        self.render_streets = render;
    }

    /// Clamps raw canvas coordinates into the world bounds.
    fn clamp_pos(x: u32, y: u32) -> (r: Point)
        ensures
            valid_point(r),
            r == clamped_pos(x, y),
    {
        let px: i64 = if (x as i64) > MAX_COORD {
            MAX_COORD
        } else {
            x as i64
        };
        let py: i64 = if (y as i64) > MAX_COORD {
            MAX_COORD
        } else {
            y as i64
        };
        Point { x: px, y: py }
    }

    /// Routes a press to the active mode.
    pub fn mouse_down(&mut self, x: u32, y: u32, button: u32)
        requires
            old(self).wf(),
        ensures
            final(self).wf(),
            final(self).mode.kind() == old(self).mode.kind(),
            editor_mouse_down_rel(*old(self), *final(self), clamped_pos(x, y), button),
    {
        let pos = Editor::clamp_pos(x, y);
        let mode = self.mode;
        match mode {
            Mode::Idle(_) => {},
            Mode::CreateStreet(mut s) => {
                s.mouse_down(pos, button, &mut self.map);
                self.mode = Mode::CreateStreet(s);
            },
            Mode::DeleteStreet(mut s) => {
                s.mouse_down(pos, button, &mut self.map);
                self.mode = Mode::DeleteStreet(s);
            },
            Mode::MoveControl(mut s) => {
                s.mouse_down(pos, button, &mut self.map);
                self.mode = Mode::MoveControl(s);
            },
            Mode::BoxSelect(mut s) => {
                s.mouse_down(pos, button, &mut self.map);
                self.mode = Mode::BoxSelect(s);
            },
            Mode::CreateDistrict(mut s) => {
                s.mouse_down(pos, button, &mut self.map);
                self.mode = Mode::CreateDistrict(s);
            },
            Mode::DeleteDistrict(mut s) => {
                s.mouse_down(pos, button, &mut self.map);
                self.mode = Mode::DeleteDistrict(s);
            },
        }
    }

    /// Routes a pointer move to the active mode.
    pub fn mouse_move(&mut self, x: u32, y: u32)
        requires
            old(self).wf(),
        ensures
            final(self).wf(),
            final(self).mode.kind() == old(self).mode.kind(),
            editor_mouse_move_rel(*old(self), *final(self), clamped_pos(x, y)),
    {
        let pos = Editor::clamp_pos(x, y);
        let mode = self.mode;
        match mode {
            Mode::Idle(_) => {},
            Mode::CreateStreet(mut s) => {
                s.mouse_move(pos, &mut self.map);
                self.mode = Mode::CreateStreet(s);
            },
            Mode::DeleteStreet(mut s) => {
                s.mouse_move(pos, &mut self.map);
                self.mode = Mode::DeleteStreet(s);
            },
            Mode::MoveControl(mut s) => {
                s.mouse_move(pos, &mut self.map);
                self.mode = Mode::MoveControl(s);
            },
            Mode::BoxSelect(mut s) => {
                s.mouse_move(pos, &mut self.map);
                self.mode = Mode::BoxSelect(s);
            },
            Mode::CreateDistrict(mut s) => {
                s.mouse_move(pos, &mut self.map);
                self.mode = Mode::CreateDistrict(s);
            },
            Mode::DeleteDistrict(mut s) => {
                s.mouse_move(pos, &mut self.map);
                self.mode = Mode::DeleteDistrict(s);
            },
        }
    }

    /// Routes a release to the active mode.
    pub fn mouse_up(&mut self, x: u32, y: u32, button: u32)
        requires
            old(self).wf(),
        ensures
            final(self).wf(),
            final(self).mode.kind() == old(self).mode.kind(),
            editor_mouse_up_rel(*old(self), *final(self), clamped_pos(x, y), button),
    {
        let pos = Editor::clamp_pos(x, y);
        let mode = self.mode;
        match mode {
            Mode::Idle(_) => {},
            Mode::CreateStreet(mut s) => {
                s.mouse_up(pos, button, &mut self.map, &mut self.history);
                self.mode = Mode::CreateStreet(s);
            },
            Mode::DeleteStreet(mut s) => {
                s.mouse_up(pos, button, &mut self.map, &mut self.history);
                self.mode = Mode::DeleteStreet(s);
            },
            Mode::MoveControl(mut s) => {
                s.mouse_up(pos, button, &mut self.map);
                self.mode = Mode::MoveControl(s);
            },
            Mode::BoxSelect(mut s) => {
                s.mouse_up(pos, button, &mut self.map);
                self.mode = Mode::BoxSelect(s);
            },
            Mode::CreateDistrict(mut s) => {
                s.mouse_up(pos, button, &mut self.map, &mut self.history);
                self.mode = Mode::CreateDistrict(s);
            },
            Mode::DeleteDistrict(mut s) => {
                s.mouse_up(pos, button, &mut self.map, &mut self.history);
                self.mode = Mode::DeleteDistrict(s);
            },
        }
    }

    /// Reverts the most recently performed action.
    pub fn undo(&mut self)
        requires
            old(self).wf(),
        ensures
            final(self).wf(),
            final(self).mode == old(self).mode,
            old(self).history.done@.len() == 0 ==> final(self).map == old(self).map && final(self).history.done@ == old(self).history.done@ && final(self).history.undone@ == old(self).history.undone@,
            old(self).history.done@.len() > 0 ==> crate::actions::revert_map(
                old(self).history.done@.last(),
                old(self).map,
                final(self).map,
            ) && final(self).history.done@ == old(self).history.done@.drop_last() && final(self).history.undone@ == old(self).history.undone@.push(
                crate::actions::revert_act(old(self).history.done@.last(), old(self).map),
            ),
    {
        let mut h = History { done: Vec::new(), undone: Vec::new() };
        core::mem::swap(&mut h, &mut self.history);
        h.undo(&mut self.map);
        core::mem::swap(&mut h, &mut self.history);
    }

    /// Re-applies the most recently undone action.
    pub fn redo(&mut self)
        requires
            old(self).wf(),
        ensures
            final(self).wf(),
            final(self).mode == old(self).mode,
            old(self).history.undone@.len() == 0 ==> final(self).map == old(self).map && final(self).history.done@ == old(self).history.done@ && final(self).history.undone@ == old(self).history.undone@,
            old(self).history.undone@.len() > 0 ==> crate::actions::apply_map(
                old(self).history.undone@.last(),
                old(self).map,
                final(self).map,
            ) && final(self).history.undone@ == old(self).history.undone@.drop_last() && final(self).history.done@ == old(self).history.done@.push(
                crate::actions::apply_act(old(self).history.undone@.last(), old(self).map),
            ),
    {
        let mut h = History { done: Vec::new(), undone: Vec::new() };
        core::mem::swap(&mut h, &mut self.history);
        h.redo(&mut self.map);
        core::mem::swap(&mut h, &mut self.history);
    }
}


/// Raw canvas coordinates clamped into the world bounds.
pub open spec fn clamped_pos(x: u32, y: u32) -> Point {
    Point {
        x: if x > MAX_COORD {
            MAX_COORD
        } else {
            x as i64
        },
        y: if y > MAX_COORD {
            MAX_COORD
        } else {
            y as i64
        },
    }
}

/// What a press does, by active mode: the exact effect of the mode's own
/// press handler on the mode data and the graph; history and render flags
/// are untouched.
pub open spec fn editor_mouse_down_rel(e0: Editor, e1: Editor, pos: Point, button: u32) -> bool {
    &&& e1.history.done@ == e0.history.done@
    &&& e1.history.undone@ == e0.history.undone@
    &&& e1.render_intersections == e0.render_intersections
    &&& e1.render_streets == e0.render_streets
    &&& match e0.mode {
        Mode::Idle(_) => e1.mode == e0.mode && e1.map == e0.map,
        Mode::DeleteStreet(_) => e1.mode == e0.mode && e1.map == e0.map,
        Mode::DeleteDistrict(_) => e1.mode == e0.mode && e1.map == e0.map,
        Mode::CreateDistrict(_) => e1.mode == e0.mode && e1.map == e0.map,
        Mode::BoxSelect(s) => e1.map == e0.map && e1.mode == Mode::BoxSelect(
            crate::modes::BoxSelectSystem {
                selection_min: pos,
                selection_max: s.selection_max,
                active: true,
            },
        ),
        Mode::MoveControl(s) => if crate::geom::dist_sq(pos, s.gizmo_position)
            <= crate::modes::GIZMO_HIT_TOLERANCE * crate::modes::GIZMO_HIT_TOLERANCE {
            e1.map == e0.map && e1.mode == Mode::MoveControl(
                crate::modes::MoveControlState {
                    hovered_control: s.hovered_control,
                    gizmo_position: s.gizmo_position,
                    dragging: true,
                    last_mouse: pos,
                },
            )
        } else {
            e1.mode == e0.mode && (if (exists|j: int|
                0 <= j < e0.map.intersections@.len() && crate::geom::dist_sq(
                    pos,
                    (#[trigger] e0.map.intersections@[j]).position,
                ) <= crate::modes::INTERSECTION_HIT_TOLERANCE
                    * crate::modes::INTERSECTION_HIT_TOLERANCE) {
                e1.map == e0.map
            } else {
                e1.map.intersections@ == e0.map.deselected() && e1.map.streets@ == e0.map.streets@
                    && e1.map.districts@ == e0.map.districts@ && e1.map.width == e0.map.width
                    && e1.map.height == e0.map.height
            })
        },
        Mode::CreateStreet(s) => {
            &&& e1.map.districts@ == e0.map.districts@
            &&& e1.map.width == e0.map.width
            &&& e1.map.height == e0.map.height
            &&& (s.preview is Some ==> e1.map == e0.map && e1.mode == e0.mode)
            &&& (s.preview is None ==> match e1.mode {
                Mode::CreateStreet(s1) => match s1.preview {
                    Some(p) => crate::modes::preview_created(e0.map, e1.map, p, pos),
                    None => e1.map.intersections@ == e0.map.intersections@ && e1.map.streets@
                        == e0.map.streets@,
                },
                _ => false,
            })
        },
    }
}

/// What a pointer move does, by active mode: the exact effect of the mode's
/// own move handler; history and render flags are untouched.
pub open spec fn editor_mouse_move_rel(e0: Editor, e1: Editor, pos: Point) -> bool {
    &&& e1.history.done@ == e0.history.done@
    &&& e1.history.undone@ == e0.history.undone@
    &&& e1.render_intersections == e0.render_intersections
    &&& e1.render_streets == e0.render_streets
    &&& match e0.mode {
        Mode::Idle(_) => e1.mode == e0.mode && e1.map == e0.map,
        Mode::BoxSelect(s) => e1.map == e0.map && e1.mode == Mode::BoxSelect(
            crate::modes::BoxSelectSystem {
                selection_min: s.selection_min,
                selection_max: pos,
                active: s.active,
            },
        ),
        Mode::DeleteStreet(s) => match e1.mode {
            Mode::DeleteStreet(s1) => crate::modes::hover_street_effect(
                s.hovered_street,
                s1.hovered_street,
                e0.map,
                e1.map,
                pos,
            ),
            _ => false,
        },
        Mode::DeleteDistrict(s) => match e1.mode {
            Mode::DeleteDistrict(s1) => crate::modes::hover_district_effect(
                s.hovered_district,
                s1.hovered_district,
                e0.map,
                e1.map,
                pos,
            ),
            _ => false,
        },
        Mode::CreateDistrict(s) => e1.map == e0.map && e1.mode == Mode::CreateDistrict(
            crate::modes::CreateDistrict {
                hovered_street: crate::modes::nearest_street_hit(e0.map, pos, Option::None),
                minimum_house_side: s.minimum_house_side,
            },
        ),
        Mode::MoveControl(s) => if !s.dragging {
            e1.map == e0.map && e1.mode == e0.mode
        } else {
            let dx = pos.x - s.last_mouse.x;
            let dy = pos.y - s.last_mouse.y;
            &&& e1.mode == Mode::MoveControl(
                crate::modes::MoveControlState {
                    hovered_control: s.hovered_control,
                    gizmo_position: s.gizmo_position,
                    dragging: true,
                    last_mouse: pos,
                },
            )
            &&& e1.map.streets@ == e0.map.streets@
            &&& e1.map.districts@ == e0.map.districts@
            &&& e1.map.width == e0.map.width
            &&& e1.map.height == e0.map.height
            &&& (if e0.map.selected_fit_after(dx as int, dy as int) {
                e1.map.intersections@ == e0.map.translated_selected(dx as int, dy as int)
            } else {
                e1.map.intersections@ == e0.map.intersections@
            })
        },
        Mode::CreateStreet(s) => {
            &&& e1.mode == e0.mode
            &&& e1.map.streets@ == e0.map.streets@
            &&& e1.map.districts@ == e0.map.districts@
            &&& e1.map.width == e0.map.width
            &&& e1.map.height == e0.map.height
            &&& match s.preview {
                Some(p) => if e0.map.has_intersection(p.end) {
                    e1.map.intersections@ == e0.map.intersections@.update(
                        e0.map.intersection_idx(p.end),
                        crate::graph::Intersection {
                            id: e0.map.intersection_at(p.end).id,
                            position: pos,
                            state: e0.map.intersection_at(p.end).state,
                        },
                    )
                } else {
                    e1.map.intersections@ == e0.map.intersections@
                },
                None => e1.map.intersections@ == e0.map.intersections@,
            }
        },
    }
}

/// What a release does, by active mode: the exact effect of the mode's own
/// release handler, including the actions it performs through the history;
/// render flags are untouched.
pub open spec fn editor_mouse_up_rel(e0: Editor, e1: Editor, pos: Point, button: u32) -> bool {
    &&& e1.render_intersections == e0.render_intersections
    &&& e1.render_streets == e0.render_streets
    &&& match e0.mode {
        Mode::Idle(_) => e1.mode == e0.mode && e1.map == e0.map && e1.history.done@
            == e0.history.done@ && e1.history.undone@ == e0.history.undone@,
        Mode::BoxSelect(s) => {
            &&& e1.history.done@ == e0.history.done@
            &&& e1.history.undone@ == e0.history.undone@
            &&& e1.mode == Mode::BoxSelect(crate::modes::BoxSelectSystem::default_spec())
            &&& e1.map.intersections@ == e0.map.selected_in_rect(
                crate::modes::normalized_min(s.selection_min, s.selection_max),
                crate::modes::normalized_max(s.selection_min, s.selection_max),
            )
            &&& e1.map.streets@ == e0.map.streets@
            &&& e1.map.districts@ == e0.map.districts@
            &&& e1.map.width == e0.map.width
            &&& e1.map.height == e0.map.height
        },
        Mode::MoveControl(s) => e1.map == e0.map && e1.history.done@ == e0.history.done@
            && e1.history.undone@ == e0.history.undone@ && e1.mode == Mode::MoveControl(
            crate::modes::MoveControlState {
                hovered_control: s.hovered_control,
                gizmo_position: s.gizmo_position,
                dragging: false,
                last_mouse: s.last_mouse,
            },
        ),
        Mode::DeleteStreet(_) => {
            &&& e1.mode == Mode::DeleteStreet(
                crate::modes::DeleteStreetState { hovered_street: Option::None },
            )
            &&& match crate::modes::nearest_street_hit(
                e0.map,
                pos,
                Some(crate::modes::STREET_HIT_TOLERANCE),
            ) {
                Some(id) => crate::actions::dls_apply_map(
                    crate::actions::DeleteStreet {
                        id,
                        removed: Option::<crate::graph::Street>::None,
                    },
                    e0.map,
                    e1.map,
                ) && e1.history.done@ == e0.history.done@.push(
                    crate::actions::apply_act(
                        crate::actions::Action::DeleteStreet(
                            crate::actions::DeleteStreet {
                                id,
                                removed: Option::<crate::graph::Street>::None,
                            },
                        ),
                        e0.map,
                    ),
                ) && e1.history.undone@.len() == 0,
                None => e1.map == e0.map && e1.history.done@ == e0.history.done@
                    && e1.history.undone@ == e0.history.undone@,
            }
        },
        Mode::DeleteDistrict(_) => {
            &&& e1.mode == Mode::DeleteDistrict(
                crate::modes::DeleteDistrict { hovered_district: Option::None },
            )
            &&& match crate::modes::district_hit(e0.map, pos) {
                Some(id) => crate::actions::dld_apply_map(
                    crate::actions::DeleteDistrict {
                        id,
                        removed: Option::<crate::graph::District>::None,
                    },
                    e0.map,
                    e1.map,
                ) && e1.history.done@.len() == e0.history.done@.len() + 1
                    && e1.history.undone@.len() == 0,
                None => e1.map == e0.map && e1.history.done@ == e0.history.done@
                    && e1.history.undone@ == e0.history.undone@,
            }
        },
        Mode::CreateDistrict(s) => {
            &&& e1.mode == e0.mode
            &&& match s.hovered_street {
                Some(sid) => if e0.map.has_street(sid) {
                    crate::modes::create_district_outcome(
                        e0.map,
                        sid,
                        pos,
                        e1.map,
                        e0.history.done@,
                        e1.history.done@,
                        e1.history.undone@,
                    )
                } else {
                    e1.map == e0.map && e1.history.done@ == e0.history.done@
                        && e1.history.undone@ == e0.history.undone@
                },
                None => e1.map == e0.map && e1.history.done@ == e0.history.done@
                    && e1.history.undone@ == e0.history.undone@,
            }
        },
        Mode::CreateStreet(s) => {
            &&& e1.map.districts@ == e0.map.districts@
            &&& e1.map.width == e0.map.width
            &&& e1.map.height == e0.map.height
            &&& e1.mode == Mode::CreateStreet(
                crate::modes::CreateStreetState { preview: Option::None },
            )
            &&& match s.preview {
                Some(p) => crate::modes::commit_street_rel(
                    p,
                    e0.map,
                    e0.history.done@,
                    e1.map,
                    e1.history.done@,
                ) && e1.history.undone@.len() == 0,
                None => e1.map == e0.map && e1.history.done@ == e0.history.done@
                    && e1.history.undone@ == e0.history.undone@,
            }
        },
    }
}

/// What one render pass draws: the enabled base layers and the active mode's
/// transient overlay. The drawing itself happens outside the library;
/// rendering never mutates state.
#[derive(Clone, Copy, Debug)]
pub struct RenderPlan {
    pub draw_intersections: bool,
    pub draw_streets: bool,
    pub selection_rectangle: Option<(Point, Point)>,
}

impl Editor {
    /// The plan for the current frame: base layers per the render flags, and
    /// the selection rectangle while a box selection drag is active.
    pub fn render(&self) -> (r: RenderPlan)
        ensures
            r.draw_intersections == self.render_intersections,
            r.draw_streets == self.render_streets,
            r.selection_rectangle == (match self.mode {
                Mode::BoxSelect(s) => if s.active {
                    Some((s.selection_min, s.selection_max))
                } else {
                    Option::<(Point, Point)>::None
                },
                _ => Option::<(Point, Point)>::None,
            }),
    {
        let overlay = match &self.mode {
            Mode::BoxSelect(s) => s.overlay_rect(),
            _ => None,
        };
        RenderPlan {
            draw_intersections: self.render_intersections,
            draw_streets: self.render_streets,
            selection_rectangle: overlay,
        }
    }
}

} // verus!
