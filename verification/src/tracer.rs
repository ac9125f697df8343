//! The face tracer: walks the planar rotation system to extract the boundary
//! of one enclosed face of the street graph.
//!
//! The walk keeps a current street, a side (relative to that street's own
//! direction) and a travel direction. Each step records one endpoint
//! position, asks the rotation system for the neighboring street continuing
//! the face, and flips side and direction together whenever the walk enters
//! the next street against its own orientation. The walk succeeds when it
//! returns to the starting street; it fails when no neighbor continues the
//! face, or when it cycles through a sub-loop that excludes the start. A walk
//! without a repeated (street, direction) state visits at most two states per
//! street, so a step budget of twice the street count plus one separates the
//! two outcomes exactly.

use vstd::prelude::*;

use crate::geom::{valid_point, Point, Side};
use crate::graph::{street_touches, Street, StreetMap};

verus! {

/// One walk of the face boundary, from `cur` with `fuel` steps left; `acc`
/// holds the positions recorded so far. `None` means the face is not
/// enclosed.
pub open spec fn trace_rec(
    m: StreetMap,
    start: u128,
    cur: u128,
    side: Side,
    forward: bool,
    acc: Seq<Point>,
    fuel: nat,
) -> Option<Seq<Point>>
    decreases fuel,
{
    if fuel == 0 {
        None
    } else {
        let s = m.street_at(cur);
        let pt = if forward {
            m.pos_of(s.start)
        } else {
            m.pos_of(s.end)
        };
        let acc2 = acc.push(pt);
        let step = if forward {
            m.rotation_next_spec(cur, side)
        } else {
            m.rotation_previous_spec(cur, side)
        };
        match step {
            None => None,
            Some(t) => if t == start {
                Some(acc2)
            } else {
                let e = if forward {
                    s.end
                } else {
                    s.start
                };
                let new_forward = m.street_at(t).start == e;
                let new_side = if new_forward == forward {
                    side
                } else {
                    side.flip_spec()
                };
                trace_rec(m, start, t, new_side, new_forward, acc2, (fuel - 1) as nat)
            },
        }
    }
}

/// The boundary of the face on the given side of the street, if that side
/// bounds an enclosed face: the endpoint positions visited by the rotation
/// walk, in traversal order.
pub open spec fn trace_face_spec(m: StreetMap, sid: u128, side: Side) -> Option<Seq<Point>> {
    trace_rec(m, sid, sid, side, true, Seq::empty(), (2 * m.streets@.len() + 1) as nat)
}

impl StreetMap {
    /// Traces the face on the given side of the street. `Some` holds the
    /// boundary polygon (one vertex per boundary street, in traversal
    /// order); `None` means that side does not bound an enclosed face.
    pub fn trace_face(&self, sid: u128, side: Side) -> (r: Option<Vec<Point>>)
        requires
            self.wf(),
            self.has_street(sid),
        ensures
            match r {
                Some(v) => trace_face_spec(*self, sid, side) == Some(v@) && forall|i: int|
                    0 <= i < v@.len() ==> valid_point(#[trigger] v@[i]),
                None => trace_face_spec(*self, sid, side) is None,
            },
    {
        let mut cur: u128 = sid;
        let mut cur_side: Side = side;
        let mut forward: bool = true;
        let mut points: Vec<Point> = Vec::new();
        let mut fuel: u128 = 2 * (self.streets.len() as u128) + 1;
        loop
            invariant
                self.wf(),
                self.has_street(cur),
                trace_face_spec(*self, sid, side) == trace_rec(
                    *self,
                    sid,
                    cur,
                    cur_side,
                    forward,
                    points@,
                    fuel as nat,
                ),
                forall|i: int| 0 <= i < points@.len() ==> valid_point(#[trigger] points@[i]),
            decreases fuel,
        {
            if fuel == 0 {
                return None;
            }
            let k = match self.street_index(cur) {
                Some(k) => k,
                None => {
                    proof {
                        assert(false);
                    }
                    0
                },
            };
            proof {
                self.lemma_street_idx_is(k as int, cur);
            }
            let s = self.streets[k];
            let (a, b) = self.endpoint_positions(k);
            let pt = if forward {
                a
            } else {
                b
            };
            points.push(pt);
            let step = if forward {
                self.rotation_next(cur, cur_side)
            } else {
                self.rotation_previous(cur, cur_side)
            };
            match step {
                None => {
                    return None;
                },
                Some(t) => {
                    if t == sid {
                        return Some(points);
                    }
                    let e = if forward {
                        s.end
                    } else {
                        s.start
                    };
                    let tk = match self.street_index(t) {
                        Some(tk) => tk,
                        None => {
                            proof {
                                assert(false);
                            }
                            0
                        },
                    };
                    proof {
                        self.lemma_street_idx_is(tk as int, t);
                    }
                    let new_forward = self.streets[tk].start == e;
                    let new_side = if new_forward == forward {
                        cur_side
                    } else {
                        cur_side.flip()
                    };
                    cur = t;
                    cur_side = new_side;
                    forward = new_forward;
                    fuel -= 1;
                },
            }
        }
    }
}

/// The face boundary for a district to be created from this street and side,
/// if that side bounds an enclosed face.
pub fn create_district_for_street(side: Side, street: u128, map: &StreetMap) -> (r: Option<
    Vec<Point>,
>)
    requires
        map.wf(),
        map.has_street(street),
    ensures
        match r {
            Some(v) => trace_face_spec(*map, street, side) == Some(v@) && forall|i: int|
                0 <= i < v@.len() ==> valid_point(#[trigger] v@[i]),
            None => trace_face_spec(*map, street, side) is None,
        },
{
    map.trace_face(street, side)
}

/// A street is isolated when no other street shares either endpoint with it.
pub open spec fn street_isolated(m: StreetMap, sid: u128) -> bool {
    forall|j: int|
        0 <= j < m.streets@.len() && (#[trigger] m.streets@[j]).id != sid ==> !street_touches(
            m.streets@[j],
            m.street_at(sid).start,
        ) && !street_touches(m.streets@[j], m.street_at(sid).end)
}

/// A scan around an endpoint of an isolated street finds no candidate.
proof fn lemma_scan_isolated(m: StreetMap, sid: u128, e: u128, ux: int, uy: int, side: Side, i: int)
    requires
        m.wf(),
        m.has_street(sid),
        street_isolated(m, sid),
        e == m.street_at(sid).start || e == m.street_at(sid).end,
    ensures
        m.rotation_scan(sid, e, ux, uy, side, i, None) is None,
    decreases m.streets@.len() - i,
{
    if 0 <= i < m.streets@.len() {
        let t = m.streets@[i];
        assert(!m.street_eligible(t, sid, e, ux, uy, side)) by {
            if t.id != sid {
                assert(!street_touches(t, m.street_at(sid).start));
                assert(!street_touches(t, m.street_at(sid).end));
            }
        }
        lemma_scan_isolated(m, sid, e, ux, uy, side, i + 1);
    }
}

/// Tracing from an isolated street reports no enclosed face, on either side.
///
/// The very first rotation query finds no street sharing the relevant
/// endpoint, so the walk stops with `None`.
pub proof fn lemma_isolated_street_traces_none(m: StreetMap, sid: u128, side: Side)
    requires
        m.wf(),
        m.has_street(sid),
        street_isolated(m, sid),
    ensures
        trace_face_spec(m, sid, side) is None,
{
    let s = m.street_at(sid);
    let ux = m.pos_of(s.end).x - m.pos_of(s.start).x;
    let uy = m.pos_of(s.end).y - m.pos_of(s.start).y;
    if !(ux == 0 && uy == 0) {
        lemma_scan_isolated(m, sid, s.end, ux, uy, side, 0);
    }
    assert(m.rotation_next_spec(sid, side) is None);
}

/// The three cyclic corner cross products of a triangle all equal the
/// orientation `cross(b - a, c - a)`.
proof fn lemma_triangle_cross_cycle(ax: int, ay: int, bx: int, by: int, cx: int, cy: int)
    ensures
        crate::geom::cross(bx - ax, by - ay, cx - bx, cy - by) == crate::geom::cross(
            bx - ax,
            by - ay,
            cx - ax,
            cy - ay,
        ),
        crate::geom::cross(cx - bx, cy - by, ax - cx, ay - cy) == crate::geom::cross(
            bx - ax,
            by - ay,
            cx - ax,
            cy - ay,
        ),
        crate::geom::cross(ax - cx, ay - cy, bx - ax, by - ay) == crate::geom::cross(
            bx - ax,
            by - ay,
            cx - ax,
            cy - ay,
        ),
{
    assert((bx - ax) * (cy - by) - (by - ay) * (cx - bx) == (bx - ax) * (cy - ay) - (by - ay) * (cx
        - ax)) by (nonlinear_arith);
    assert((cx - bx) * (ay - cy) - (cy - by) * (ax - cx) == (bx - ax) * (cy - ay) - (by - ay) * (cx
        - ax)) by (nonlinear_arith);
    assert((ax - cx) * (by - ay) - (ay - cy) * (bx - ax) == (bx - ax) * (cy - ay) - (by - ay) * (cx
        - ax)) by (nonlinear_arith);
}

/// For three streets forming a triangle, tracing from the first street on
/// the side its opposite corner lies on returns exactly the three corner
/// positions, in traversal order; tracing the other side reports no
/// enclosed face.
pub proof fn lemma_triangle_trace(m: StreetMap, s1: Street, s2: Street, s3: Street)
    requires
        m.wf(),
        m.streets@ == seq![s1, s2, s3],
        m.intersections@.len() == 3,
        s1.start == m.intersections@[0].id,
        s1.end == m.intersections@[1].id,
        s2.start == m.intersections@[1].id,
        s2.end == m.intersections@[2].id,
        s3.start == m.intersections@[2].id,
        s3.end == m.intersections@[0].id,
        crate::geom::cross(
            m.intersections@[1].position.x - m.intersections@[0].position.x,
            m.intersections@[1].position.y - m.intersections@[0].position.y,
            m.intersections@[2].position.x - m.intersections@[0].position.x,
            m.intersections@[2].position.y - m.intersections@[0].position.y,
        ) != 0,
    ensures
        trace_face_spec(
            m,
            s1.id,
            crate::geom::side_of(
                m.intersections@[0].position,
                m.intersections@[1].position,
                m.intersections@[2].position,
            ),
        ) == Some(
            seq![
                m.intersections@[0].position,
                m.intersections@[1].position,
                m.intersections@[2].position,
            ],
        ),
        trace_face_spec(
            m,
            s1.id,
            crate::geom::side_of(
                m.intersections@[0].position,
                m.intersections@[1].position,
                m.intersections@[2].position,
            ).flip_spec(),
        ) is None,
{
    let a = m.intersections@[0].position;
    let b = m.intersections@[1].position;
    let c = m.intersections@[2].position;
    let ia = m.intersections@[0].id;
    let ib = m.intersections@[1].id;
    let ic = m.intersections@[2].id;
    let d = crate::geom::cross(b.x - a.x, b.y - a.y, c.x - a.x, c.y - a.y);
    let inner = crate::geom::side_of(a, b, c);
    let outer = inner.flip_spec();
    lemma_triangle_cross_cycle(a.x as int, a.y as int, b.x as int, b.y as int, c.x as int, c.y as int);
    // names for positions and streets resolve to the given indices
    m.lemma_intersection_idx_is(0, ia);
    m.lemma_intersection_idx_is(1, ib);
    m.lemma_intersection_idx_is(2, ic);
    m.lemma_street_idx_is(0, s1.id);
    m.lemma_street_idx_is(1, s2.id);
    m.lemma_street_idx_is(2, s3.id);
    assert(m.pos_of(ia) == a && m.pos_of(ib) == b && m.pos_of(ic) == c);
    // distinct ids (well-formedness) and distinct corner positions (area)
    assert(ia != ib && ib != ic && ia != ic);
    assert(s1.id != s2.id && s2.id != s3.id && s1.id != s3.id);
    assert(!(b.x - a.x == 0 && b.y - a.y == 0));
    assert(!(c.x - b.x == 0 && c.y - b.y == 0)) by {
        if c.x - b.x == 0 && c.y - b.y == 0 {
            assert(crate::geom::cross(b.x - a.x, b.y - a.y, c.x - b.x, c.y - b.y) == 0);
        }
    }
    assert(!(a.x - c.x == 0 && a.y - c.y == 0)) by {
        if a.x - c.x == 0 && a.y - c.y == 0 {
            assert(crate::geom::cross(c.x - b.x, c.y - b.y, a.x - c.x, a.y - c.y) == 0);
        }
    }
    // step 1: from s1 forward at its end ib, the walk can only continue on s2
    let u1x = b.x - a.x as int;
    let u1y = b.y - a.y as int;
    assert(m.cand_vec(s2, ib) == ((c.x - b.x) as int, (c.y - b.y) as int));
    assert(crate::geom::cross(u1x, u1y, c.x - b.x, c.y - b.y) == d);
    assert(!crate::graph::street_touches(s3, ib));
    assert(!m.street_eligible(s1, s1.id, ib, u1x, u1y, inner));
    assert(m.street_eligible(s2, s1.id, ib, u1x, u1y, inner)) by {
        if inner == Side::Left {
            assert(d > 0);
        } else {
            assert(d < 0);
        }
    }
    assert(!m.street_eligible(s3, s1.id, ib, u1x, u1y, inner));
    assert(m.rotation_scan(s1.id, ib, u1x, u1y, inner, 3, Some(1int)) == Some(1int));
    assert(m.rotation_scan(s1.id, ib, u1x, u1y, inner, 2, Some(1int)) == Some(1int));
    assert(m.rotation_scan(s1.id, ib, u1x, u1y, inner, 1, None) == Some(1int));
    assert(m.rotation_scan(s1.id, ib, u1x, u1y, inner, 0, None) == Some(1int));
    assert(m.rotation_next_spec(s1.id, inner) == Some(s2.id));
    // the outer side has no continuation at ib at all
    assert(!m.street_eligible(s1, s1.id, ib, u1x, u1y, outer));
    assert(!m.street_eligible(s2, s1.id, ib, u1x, u1y, outer));
    assert(!m.street_eligible(s3, s1.id, ib, u1x, u1y, outer));
    assert(m.rotation_scan(s1.id, ib, u1x, u1y, outer, 3, None) is None);
    assert(m.rotation_scan(s1.id, ib, u1x, u1y, outer, 2, None) is None);
    assert(m.rotation_scan(s1.id, ib, u1x, u1y, outer, 1, None) is None);
    assert(m.rotation_scan(s1.id, ib, u1x, u1y, outer, 0, None) is None);
    assert(m.rotation_next_spec(s1.id, outer) is None);
    // step 2: from s2 forward at ic, only s3 continues
    let u2x = c.x - b.x as int;
    let u2y = c.y - b.y as int;
    assert(m.cand_vec(s3, ic) == ((a.x - c.x) as int, (a.y - c.y) as int));
    assert(crate::geom::cross(u2x, u2y, a.x - c.x, a.y - c.y) == d);
    assert(!crate::graph::street_touches(s1, ic));
    assert(!m.street_eligible(s1, s2.id, ic, u2x, u2y, inner));
    assert(!m.street_eligible(s2, s2.id, ic, u2x, u2y, inner));
    assert(m.street_eligible(s3, s2.id, ic, u2x, u2y, inner));
    assert(m.rotation_scan(s2.id, ic, u2x, u2y, inner, 3, Some(2int)) == Some(2int));
    assert(m.rotation_scan(s2.id, ic, u2x, u2y, inner, 2, None) == Some(2int));
    assert(m.rotation_scan(s2.id, ic, u2x, u2y, inner, 1, None) == Some(2int));
    assert(m.rotation_scan(s2.id, ic, u2x, u2y, inner, 0, None) == Some(2int));
    assert(m.rotation_next_spec(s2.id, inner) == Some(s3.id));
    // step 3: from s3 forward at ia, the start street closes the walk
    let u3x = a.x - c.x as int;
    let u3y = a.y - c.y as int;
    assert(m.cand_vec(s1, ia) == ((b.x - a.x) as int, (b.y - a.y) as int));
    assert(crate::geom::cross(u3x, u3y, b.x - a.x, b.y - a.y) == d);
    assert(!crate::graph::street_touches(s2, ia));
    assert(m.street_eligible(s1, s3.id, ia, u3x, u3y, inner));
    assert(!m.street_eligible(s2, s3.id, ia, u3x, u3y, inner));
    assert(!m.street_eligible(s3, s3.id, ia, u3x, u3y, inner));
    assert(m.rotation_scan(s3.id, ia, u3x, u3y, inner, 3, Some(0int)) == Some(0int));
    assert(m.rotation_scan(s3.id, ia, u3x, u3y, inner, 2, Some(0int)) == Some(0int));
    assert(m.rotation_scan(s3.id, ia, u3x, u3y, inner, 1, Some(0int)) == Some(0int));
    assert(m.rotation_scan(s3.id, ia, u3x, u3y, inner, 0, None) == Some(0int));
    assert(m.rotation_next_spec(s3.id, inner) == Some(s1.id));
    // unwind the walk: three forward steps, then the start street closes it
    let fuel = (2 * m.streets@.len() + 1) as nat;
    let acc0 = Seq::<Point>::empty();
    let acc1 = acc0.push(a);
    let acc2 = acc1.push(b);
    let acc3 = acc2.push(c);
    assert(trace_rec(m, s1.id, s3.id, inner, true, acc2, (fuel - 2) as nat) == Some(acc3));
    assert(trace_rec(m, s1.id, s2.id, inner, true, acc1, (fuel - 1) as nat) == Some(acc3));
    assert(trace_rec(m, s1.id, s1.id, inner, true, acc0, fuel) == Some(acc3));
    assert(acc3 =~= seq![a, b, c]);
    assert(trace_rec(m, s1.id, s1.id, outer, true, acc0, fuel) is None);
}

} // verus!
