//! The spatial graph store: an arena of intersections, streets and districts
//! keyed by stable ids.
//!
//! Every cross-reference is an id lookup through the store; streets never own
//! their endpoints. Geometry derived from a street (its segment, its side
//! test, its hit area) is computed on demand from the endpoint positions, so
//! it can never go stale. Ids are random 128-bit values drawn through the
//! store; all structural operations are specified exactly over the element
//! sequences.

use vstd::prelude::*;

use crate::geom::{
    dist_sq, dist_sq_i64, in_rect, point_in_polygon, point_in_polygon_exec, point_in_rect,
    seg_dist_sq_den, seg_dist_sq_num, side_of, side_of_segment, turn_better, turn_better_exec,
    turn_eligible, turn_eligible_exec, valid_point, Point, Side, MAX_COORD,
};

verus! {

/// How an element is currently presented to the user.
#[derive(Clone, Copy, PartialEq, Eq, Structural, Debug)]
pub enum InteractiveElementState {
    Normal,
    Hover,
    Selected,
}

/// Error taxonomy of the store: a structural rule was violated (a removal
/// would leave a dangling reference, or an id was not free).
#[derive(Clone, Copy, PartialEq, Eq, Structural, Debug)]
pub enum GraphError {
    GraphConstraintViolation,
}

/// A graph node with a position on the integer grid.
#[derive(Clone, Copy, PartialEq, Eq, Structural, Debug)]
pub struct Intersection {
    pub id: u128,
    pub position: Point,
    pub state: InteractiveElementState,
}

/// A graph edge between two intersections, referenced by id.
#[derive(Clone, Copy, PartialEq, Eq, Structural, Debug)]
pub struct Street {
    pub id: u128,
    pub start: u128,
    pub end: u128,
    pub width: i64,
    pub state: InteractiveElementState,
}

/// One traced planar face: a closed polygon of intersection positions, stored
/// as a derived artifact that owns none of the elements bounding it.
#[derive(Clone, PartialEq, Eq, Debug)]
pub struct District {
    pub id: u128,
    pub polygon: Vec<Point>,
    pub state: InteractiveElementState,
    pub minimum_house_side: i64,
}

/// The spatial graph store.
#[derive(Clone, Debug)]
pub struct StreetMap {
    pub intersections: Vec<Intersection>,
    pub streets: Vec<Street>,
    pub districts: Vec<District>,
    pub width: u32,
    pub height: u32,
}

impl District {
    pub open spec fn wf(self) -> bool {
        forall|i: int| 0 <= i < self.polygon@.len() ==> valid_point(#[trigger] self.polygon@[i])
    }
}

impl StreetMap {
    /// Well-formedness: ids are unique per kind, street endpoints are present
    /// and distinct, and every coordinate lies in the world bounds.
    pub open spec fn wf(self) -> bool {
        &&& forall|i: int, j: int|
            0 <= i < j < self.intersections@.len()
                ==> (#[trigger] self.intersections@[i]).id != (#[trigger] self.intersections@[j]).id
        &&& forall|i: int, j: int|
            0 <= i < j < self.streets@.len()
                ==> (#[trigger] self.streets@[i]).id != (#[trigger] self.streets@[j]).id
        &&& forall|i: int, j: int|
            0 <= i < j < self.districts@.len()
                ==> (#[trigger] self.districts@[i]).id != (#[trigger] self.districts@[j]).id
        &&& forall|i: int|
            0 <= i < self.streets@.len() ==> {
                let s = #[trigger] self.streets@[i];
                self.has_intersection(s.start) && self.has_intersection(s.end) && s.start != s.end
                    && 1 <= s.width <= MAX_COORD
            }
        &&& forall|i: int|
            0 <= i < self.intersections@.len()
                ==> valid_point((#[trigger] self.intersections@[i]).position)
        &&& forall|i: int| 0 <= i < self.districts@.len() ==> (#[trigger] self.districts@[i]).wf()
    }

    pub open spec fn has_intersection(self, id: u128) -> bool {
        exists|i: int|
            0 <= i < self.intersections@.len() && (#[trigger] self.intersections@[i]).id == id
    }

    pub open spec fn has_street(self, id: u128) -> bool {
        exists|i: int| 0 <= i < self.streets@.len() && (#[trigger] self.streets@[i]).id == id
    }

    pub open spec fn has_district(self, id: u128) -> bool {
        exists|i: int| 0 <= i < self.districts@.len() && (#[trigger] self.districts@[i]).id == id
    }

    /// Index of the intersection with the given id (meaningful when present;
    /// unique under well-formedness).
    pub open spec fn intersection_idx(self, id: u128) -> int {
        choose|i: int|
            0 <= i < self.intersections@.len() && (#[trigger] self.intersections@[i]).id == id
    }

    pub open spec fn street_idx(self, id: u128) -> int {
        choose|i: int| 0 <= i < self.streets@.len() && (#[trigger] self.streets@[i]).id == id
    }

    pub open spec fn district_idx(self, id: u128) -> int {
        choose|i: int| 0 <= i < self.districts@.len() && (#[trigger] self.districts@[i]).id == id
    }

    /// The intersection with the given id (meaningful when present).
    pub open spec fn intersection_at(self, id: u128) -> Intersection {
        self.intersections@[self.intersection_idx(id)]
    }

    pub open spec fn street_at(self, id: u128) -> Street {
        self.streets@[self.street_idx(id)]
    }

    pub open spec fn district_at(self, id: u128) -> District {
        self.districts@[self.district_idx(id)]
    }

    /// Some street references this intersection as an endpoint.
    pub open spec fn intersection_referenced(self, id: u128) -> bool {
        exists|i: int|
            0 <= i < self.streets@.len()
                && ((#[trigger] self.streets@[i]).start == id || self.streets@[i].end == id)
    }

    /// An id is free when no element of any kind carries it.
    pub open spec fn id_free(self, id: u128) -> bool {
        !self.has_intersection(id) && !self.has_street(id) && !self.has_district(id)
    }

    pub(crate) proof fn lemma_intersection_idx_is(self, k: int, id: u128)
        requires
            self.wf(),
            0 <= k < self.intersections@.len(),
            self.intersections@[k].id == id,
        ensures
            self.intersection_idx(id) == k,
            self.has_intersection(id),
    {
        assert(self.has_intersection(id));
        let i = self.intersection_idx(id);
        assert(0 <= i < self.intersections@.len() && self.intersections@[i].id == id);
        if i != k {
            if i < k {
                assert(self.intersections@[i].id != self.intersections@[k].id);
            } else {
                assert(self.intersections@[k].id != self.intersections@[i].id);
            }
        }
    }

    pub(crate) proof fn lemma_street_idx_is(self, k: int, id: u128)
        requires
            self.wf(),
            0 <= k < self.streets@.len(),
            self.streets@[k].id == id,
        ensures
            self.street_idx(id) == k,
            self.has_street(id),
    {
        assert(self.has_street(id));
        let i = self.street_idx(id);
        if i != k {
            if i < k {
                assert(self.streets@[i].id != self.streets@[k].id);
            } else {
                assert(self.streets@[k].id != self.streets@[i].id);
            }
        }
    }

    pub(crate) proof fn lemma_district_idx_is(self, k: int, id: u128)
        requires
            self.wf(),
            0 <= k < self.districts@.len(),
            self.districts@[k].id == id,
        ensures
            self.district_idx(id) == k,
            self.has_district(id),
    {
        assert(self.has_district(id));
        let i = self.district_idx(id);
        if i != k {
            if i < k {
                assert(self.districts@[i].id != self.districts@[k].id);
            } else {
                assert(self.districts@[k].id != self.districts@[i].id);
            }
        }
    }

    /// An empty store of the given canvas size.
    pub fn new(width: u32, height: u32) -> (r: StreetMap)
        ensures
            r.wf(),
            r.intersections@.len() == 0,
            r.streets@.len() == 0,
            r.districts@.len() == 0,
            r.width == width,
            r.height == height,
    {
        StreetMap { intersections: Vec::new(), streets: Vec::new(), districts: Vec::new(), width, height }
    }

    pub fn width(&self) -> (r: u32)
        ensures
            r == self.width,
    {
        self.width
    }

    pub fn height(&self) -> (r: u32)
        ensures
            r == self.height,
    {
        self.height
    }

    pub fn intersections_length(&self) -> (r: usize)
        ensures
            r == self.intersections@.len(),
    {
        self.intersections.len()
    }

    pub fn streets_length(&self) -> (r: usize)
        ensures
            r == self.streets@.len(),
    {
        self.streets.len()
    }

    pub fn districts_length(&self) -> (r: usize)
        ensures
            r == self.districts@.len(),
    {
        self.districts.len()
    }

    /// Index of the intersection with this id: the first (and under
    /// well-formedness only) position carrying it.
    pub fn intersection_index(&self, id: u128) -> (r: Option<usize>)
        ensures
            match r {
                Some(k) => k < self.intersections@.len() && self.intersections@[k as int].id == id,
                None => !self.has_intersection(id),
            },
    {
        let n = self.intersections.len();
        let mut i: usize = 0;
        while i < n
            invariant
                n == self.intersections@.len(),
                i <= n,
                forall|j: int| 0 <= j < i ==> (#[trigger] self.intersections@[j]).id != id,
            decreases n - i,
        {
            if self.intersections[i].id == id {
                return Some(i);
            }
            i += 1;
        }
        None
    }

    pub fn street_index(&self, id: u128) -> (r: Option<usize>)
        ensures
            match r {
                Some(k) => k < self.streets@.len() && self.streets@[k as int].id == id,
                None => !self.has_street(id),
            },
    {
        let n = self.streets.len();
        let mut i: usize = 0;
        while i < n
            invariant
                n == self.streets@.len(),
                i <= n,
                forall|j: int| 0 <= j < i ==> (#[trigger] self.streets@[j]).id != id,
            decreases n - i,
        {
            if self.streets[i].id == id {
                return Some(i);
            }
            i += 1;
        }
        None
    }

    pub fn district_index(&self, id: u128) -> (r: Option<usize>)
        ensures
            match r {
                Some(k) => k < self.districts@.len() && self.districts@[k as int].id == id,
                None => !self.has_district(id),
            },
    {
        let n = self.districts.len();
        let mut i: usize = 0;
        while i < n
            invariant
                n == self.districts@.len(),
                i <= n,
                forall|j: int| 0 <= j < i ==> (#[trigger] self.districts@[j]).id != id,
            decreases n - i,
        {
            if self.districts[i].id == id {
                return Some(i);
            }
            i += 1;
        }
        None
    }

    /// The intersection with this id, if present.
    pub fn intersection(&self, id: u128) -> (r: Option<&Intersection>)
        requires
            self.wf(),
        ensures
            match r {
                Some(x) => self.has_intersection(id) && *x == self.intersection_at(id),
                None => !self.has_intersection(id),
            },
    {
        match self.intersection_index(id) {
            Some(k) => {
                proof {
                    self.lemma_intersection_idx_is(k as int, id);
                }
                Some(&self.intersections[k])
            },
            None => None,
        }
    }

    /// The street with this id, if present.
    pub fn street(&self, id: u128) -> (r: Option<&Street>)
        requires
            self.wf(),
        ensures
            match r {
                Some(x) => self.has_street(id) && *x == self.street_at(id),
                None => !self.has_street(id),
            },
    {
        match self.street_index(id) {
            Some(k) => {
                proof {
                    self.lemma_street_idx_is(k as int, id);
                }
                Some(&self.streets[k])
            },
            None => None,
        }
    }

    /// The district with this id, if present.
    pub fn district(&self, id: u128) -> (r: Option<&District>)
        requires
            self.wf(),
        ensures
            match r {
                Some(x) => self.has_district(id) && *x == self.district_at(id),
                None => !self.has_district(id),
            },
    {
        match self.district_index(id) {
            Some(k) => {
                proof {
                    self.lemma_district_idx_is(k as int, id);
                }
                Some(&self.districts[k])
            },
            None => None,
        }
    }

    /// Inserts an intersection under a caller-supplied id; rejects an id that
    /// is already taken.
    pub fn add_intersection_with_id(&mut self, position: Point, id: u128) -> (r: Result<
        (),
        GraphError,
    >)
        requires
            old(self).wf(),
            valid_point(position),
        ensures
            final(self).wf(),
            old(self).id_free(id) ==> r == Result::<(), GraphError>::Ok(())
                && final(self).intersections@ == old(self).intersections@.push(
                Intersection { id, position, state: InteractiveElementState::Normal },
            ),
            !old(self).id_free(id) ==> r == Result::<(), GraphError>::Err(
                GraphError::GraphConstraintViolation,
            ) && *final(self) == *old(self),
            final(self).streets@ == old(self).streets@,
            final(self).districts@ == old(self).districts@,
            final(self).width == old(self).width,
            final(self).height == old(self).height,
    {
        if self.id_is_free(id) {
            let ghost pre = *self;
            self.intersections.push(
                Intersection { id, position, state: InteractiveElementState::Normal },
            );
            proof {
                let post = *self;
                assert forall|i: int, j: int|
                    0 <= i < j < post.intersections@.len() implies (
                #[trigger] post.intersections@[i]).id != (#[trigger] post.intersections@[j]).id by {
                    if j == post.intersections@.len() - 1 {
                        assert(pre.has_intersection(pre.intersections@[i].id)) by {
                            assert(pre.intersections@[i].id == pre.intersections@[i].id);
                        }
                    }
                }
                assert forall|i: int| 0 <= i < post.streets@.len() implies {
                    let s = #[trigger] post.streets@[i];
                    post.has_intersection(s.start) && post.has_intersection(s.end)
                } by {
                    let s = post.streets@[i];
                    let ks = pre.intersection_idx(s.start);
                    assert(pre.intersections@[ks] == post.intersections@[ks]);
                    let ke = pre.intersection_idx(s.end);
                    assert(pre.intersections@[ke] == post.intersections@[ke]);
                }
            }
            Ok(())
        } else {
            Err(GraphError::GraphConstraintViolation)
        }
    }

    /// Whether no element of any kind carries this id.
    pub fn id_is_free(&self, id: u128) -> (r: bool)
        ensures
            r == self.id_free(id),
    {
        self.intersection_index(id).is_none() && self.street_index(id).is_none()
            && self.district_index(id).is_none()
    }

    /// Creates an intersection under a freshly drawn random id. `None` only
    /// on the (astronomically unlikely) collision of the drawn id with an
    /// existing one; the store is then unchanged.
    pub fn add_intersection(&mut self, position: Point) -> (r: Option<u128>)
        requires
            old(self).wf(),
            valid_point(position),
        ensures
            final(self).wf(),
            match r {
                Some(id) => old(self).id_free(id) && final(self).intersections@ == old(self).intersections@.push(
                    Intersection { id, position, state: InteractiveElementState::Normal },
                ),
                None => *final(self) == *old(self),
            },
            final(self).streets@ == old(self).streets@,
            final(self).districts@ == old(self).districts@,
            final(self).width == old(self).width,
            final(self).height == old(self).height,
    {
        let id = fresh_id();
        match self.add_intersection_with_id(position, id) {
            Ok(()) => Some(id),
            Err(_) => None,
        }
    }
}

/// Elements of a filtered sequence are elements of the original.
pub proof fn lemma_filter_subset<T>(s: Seq<T>, pred: spec_fn(T) -> bool)
    ensures
        forall|j: int|
            0 <= j < s.filter(pred).len() ==> s.contains(#[trigger] s.filter(pred)[j]),
    decreases s.len(),
{
    reveal(Seq::filter);
    if s.len() != 0 {
        lemma_filter_subset(s.drop_last(), pred);
        assert forall|j: int|
            0 <= j < s.filter(pred).len() implies s.contains(#[trigger] s.filter(pred)[j]) by {
            let f = s.filter(pred);
            let fd = s.drop_last().filter(pred);
            if j < fd.len() {
                assert(s.drop_last().contains(fd[j]));
                let w = choose|w: int| 0 <= w < s.drop_last().len() && s.drop_last()[w] == fd[j];
                assert(s[w] == fd[j]);
            } else {
                assert(f[j] == s.last());
                assert(s[s.len() - 1] == s.last());
            }
        }
    }
}

/// Filtering keeps a key unique if it was unique in the original.
pub proof fn lemma_filter_unique_by<T>(s: Seq<T>, pred: spec_fn(T) -> bool, key: spec_fn(T) -> u128)
    requires
        forall|i: int, j: int| 0 <= i < j < s.len() ==> key(#[trigger] s[i]) != key(#[trigger] s[j]),
    ensures
        forall|i: int, j: int|
            0 <= i < j < s.filter(pred).len() ==> key(#[trigger] s.filter(pred)[i]) != key(
                #[trigger] s.filter(pred)[j],
            ),
    decreases s.len(),
{
    reveal(Seq::filter);
    if s.len() != 0 {
        let d = s.drop_last();
        assert(forall|i: int, j: int|
            0 <= i < j < d.len() ==> key(#[trigger] d[i]) != key(#[trigger] d[j]));
        lemma_filter_unique_by(d, pred, key);
        lemma_filter_subset(d, pred);
        let f = s.filter(pred);
        let fd = d.filter(pred);
        assert forall|i: int, j: int|
            0 <= i < j < f.len() implies key(#[trigger] f[i]) != key(#[trigger] f[j]) by {
            if j < fd.len() {
                assert(key(fd[i]) != key(fd[j]));
            } else if j == fd.len() && j < f.len() {
                // f ends with s.last(); f[i] stems from the front of s
                assert(f[j] == s.last());
                assert(d.contains(fd[i]));
                let w = choose|w: int| 0 <= w < d.len() && d[w] == fd[i];
                assert(s[w] == fd[i]);
                assert(key(s[w]) != key(s[s.len() - 1]));
            }
        }
    }
}

impl StreetMap {
    /// Whether any street references this intersection as an endpoint.
    pub fn is_intersection_referenced(&self, id: u128) -> (r: bool)
        ensures
            r == self.intersection_referenced(id),
    {
        let n = self.streets.len();
        let mut i: usize = 0;
        while i < n
            invariant
                n == self.streets@.len(),
                i <= n,
                forall|j: int|
                    0 <= j < i ==> (#[trigger] self.streets@[j]).start != id
                        && self.streets@[j].end != id,
            decreases n - i,
        {
            if self.streets[i].start == id || self.streets[i].end == id {
                return true;
            }
            i += 1;
        }
        false
    }

    /// Removes an intersection. Rejected while a street still references it;
    /// removing an absent id is a no-op.
    pub fn remove_intersection(&mut self, id: u128) -> (r: Result<(), GraphError>)
        requires
            old(self).wf(),
        ensures
            final(self).wf(),
            final(self).streets@ == old(self).streets@,
            final(self).districts@ == old(self).districts@,
            final(self).width == old(self).width,
            final(self).height == old(self).height,
            old(self).has_intersection(id) && old(self).intersection_referenced(id) ==> r
                == Result::<(), GraphError>::Err(GraphError::GraphConstraintViolation) && *final(self) == *old(self),
            old(self).has_intersection(id) && !old(self).intersection_referenced(id) ==> r
                == Result::<(), GraphError>::Ok(()) && final(self).intersections@ == old(self).intersections@.remove(old(self).intersection_idx(id)),
            !old(self).has_intersection(id) ==> r == Result::<(), GraphError>::Ok(()) && *final(self) == *old(self),
    {
        match self.intersection_index(id) {
            None => Ok(()),
            Some(k) => {
                if self.is_intersection_referenced(id) {
                    Err(GraphError::GraphConstraintViolation)
                } else {
                    let ghost pre = *self;
                    proof {
                        pre.lemma_intersection_idx_is(k as int, id);
                    }
                    self.intersections.remove(k);
                    proof {
                        let post = *self;
                        let s0 = pre.intersections@;
                        let s1 = post.intersections@;
                        assert forall|j: int| 0 <= j < s1.len() implies s1[j] == (if j < k {
                            s0[j]
                        } else {
                            s0[j + 1]
                        }) by {}
                        assert forall|i: int| 0 <= i < post.streets@.len() implies {
                            let s = #[trigger] post.streets@[i];
                            post.has_intersection(s.start) && post.has_intersection(s.end)
                        } by {
                            let s = post.streets@[i];
                            assert(pre.streets@[i] == s);
                            let ws = choose|w: int|
                                0 <= w < s0.len() && (#[trigger] s0[w]).id == s.start;
                            assert(s0[ws].id != id);
                            if ws < k {
                                assert(s1[ws].id == s.start);
                            } else {
                                assert(s1[ws - 1].id == s.start);
                            }
                            let we = choose|w: int|
                                0 <= w < s0.len() && (#[trigger] s0[w]).id == s.end;
                            if we < k {
                                assert(s1[we].id == s.end);
                            } else {
                                assert(s1[we - 1].id == s.end);
                            }
                        }
                    }
                    Ok(())
                }
            },
        }
    }

    /// Removes an intersection together with every street that references it
    /// (explicitly requested cascading). Removing an absent id still removes
    /// incident streets (there are none under well-formedness).
    pub fn remove_intersection_cascade(&mut self, id: u128)
        requires
            old(self).wf(),
        ensures
            final(self).wf(),
            final(self).streets@ == old(self).streets@.filter(
                |s: Street| s.start != id && s.end != id,
            ),
            final(self).districts@ == old(self).districts@,
            final(self).width == old(self).width,
            final(self).height == old(self).height,
            old(self).has_intersection(id) ==> final(self).intersections@ == old(self).intersections@.remove(old(self).intersection_idx(id)),
            !old(self).has_intersection(id) ==> final(self).intersections@ == old(self).intersections@,
    {
        let ghost pre = *self;
        let ghost pred = |s: Street| s.start != id && s.end != id;
        let n = self.streets.len();
        let mut kept: Vec<Street> = Vec::new();
        let mut i: usize = 0;
        while i < n
            invariant
                n == self.streets@.len(),
                i <= n,
                *self == pre,
                kept@ == pre.streets@.subrange(0, i as int).filter(pred),
                pred == (|s: Street| s.start != id && s.end != id),
            decreases n - i,
        {
            let ghost prefix = pre.streets@.subrange(0, i as int);
            let ghost prefix1 = pre.streets@.subrange(0, i as int + 1);
            let s = self.streets[i];
            proof {
                reveal(Seq::filter);
                assert(prefix1.drop_last() =~= prefix);
                assert(prefix1.last() == s);
            }
            if s.start != id && s.end != id {
                kept.push(s);
            }
            i += 1;
        }
        proof {
            assert(pre.streets@.subrange(0, n as int) =~= pre.streets@);
        }
        self.streets = kept;
        proof {
            let post = *self;
            lemma_filter_subset(pre.streets@, pred);
            lemma_filter_unique_by(pre.streets@, pred, |s: Street| s.id);
            assert forall|i2: int| 0 <= i2 < post.streets@.len() implies {
                let s = #[trigger] post.streets@[i2];
                post.has_intersection(s.start) && post.has_intersection(s.end) && s.start != s.end
                    && 1 <= s.width <= MAX_COORD
            } by {
                let s = post.streets@[i2];
                assert(pre.streets@.contains(s));
                let w = choose|w: int| 0 <= w < pre.streets@.len() && pre.streets@[w] == s;
                assert(pre.streets@[w] == s);
                assert(pre.has_intersection(s.start) && pre.has_intersection(s.end));
                let ws = choose|x: int|
                    0 <= x < pre.intersections@.len() && (#[trigger] pre.intersections@[x]).id
                        == s.start;
                assert(post.intersections@[ws].id == s.start);
                let we = choose|x: int|
                    0 <= x < pre.intersections@.len() && (#[trigger] pre.intersections@[x]).id
                        == s.end;
                assert(post.intersections@[we].id == s.end);
            }
            assert(post.wf());
            assert(!post.intersection_referenced(id)) by {
                lemma_filter_subset(pre.streets@, pred);
                assert forall|j: int| 0 <= j < post.streets@.len() implies !((
                #[trigger] post.streets@[j]).start == id || post.streets@[j].end == id) by {
                    pre.streets@.lemma_filter_pred(pred, j);
                }
            }
        }
        let ghost mid = *self;
        let r = self.remove_intersection(id);
        proof {
            if mid.has_intersection(id) {
                let k = pre.intersection_idx(id);
                assert(0 <= k < pre.intersections@.len() && pre.intersections@[k].id == id);
                mid.lemma_intersection_idx_is(k, id);
            }
        }
    }

    /// Removes a street; reports whether it was present.
    pub fn remove_street(&mut self, id: u128) -> (r: bool)
        requires
            old(self).wf(),
        ensures
            final(self).wf(),
            final(self).intersections@ == old(self).intersections@,
            final(self).districts@ == old(self).districts@,
            final(self).width == old(self).width,
            final(self).height == old(self).height,
            old(self).has_street(id) ==> r && final(self).streets@ == old(self).streets@.remove(
                old(self).street_idx(id),
            ),
            !old(self).has_street(id) ==> !r && *final(self) == *old(self),
    {
        match self.street_index(id) {
            None => false,
            Some(k) => {
                proof {
                    self.lemma_street_idx_is(k as int, id);
                }
                let ghost pre = *self;
                self.streets.remove(k);
                proof {
                    let post = *self;
                    assert forall|i: int| 0 <= i < post.streets@.len() implies {
                        let s = #[trigger] post.streets@[i];
                        post.has_intersection(s.start) && post.has_intersection(s.end) && s.start
                            != s.end && 1 <= s.width <= MAX_COORD
                    } by {
                        let s = post.streets@[i];
                        if i < k {
                            assert(pre.streets@[i] == s);
                        } else {
                            assert(pre.streets@[i + 1] == s);
                        }
                    }
                }
                true
            },
        }
    }

    /// Removes a district; reports whether it was present.
    pub fn remove_district(&mut self, id: u128) -> (r: bool)
        requires
            old(self).wf(),
        ensures
            final(self).wf(),
            final(self).intersections@ == old(self).intersections@,
            final(self).streets@ == old(self).streets@,
            final(self).width == old(self).width,
            final(self).height == old(self).height,
            old(self).has_district(id) ==> r && final(self).districts@ == old(self).districts@.remove(old(self).district_idx(id)),
            !old(self).has_district(id) ==> !r && *final(self) == *old(self),
    {
        match self.district_index(id) {
            None => false,
            Some(k) => {
                proof {
                    self.lemma_district_idx_is(k as int, id);
                }
                let ghost pre = *self;
                self.districts.remove(k);
                proof {
                    let post = *self;
                    assert forall|i: int| 0 <= i < post.districts@.len() implies (
                    #[trigger] post.districts@[i]).wf() by {
                        if i < k {
                            assert(pre.districts@[i] == post.districts@[i]);
                        } else {
                            assert(pre.districts@[i + 1] == post.districts@[i]);
                        }
                    }
                }
                true
            },
        }
    }

    /// Inserts a street under a caller-supplied id. Rejected when the id is
    /// taken, an endpoint is absent, or the endpoints coincide.
    pub fn add_street_with_id(
        &mut self,
        start_id: u128,
        end_id: u128,
        width: i64,
        id: u128,
    ) -> (r: Result<(), GraphError>)
        requires
            old(self).wf(),
            1 <= width <= MAX_COORD,
        ensures
            final(self).wf(),
            final(self).intersections@ == old(self).intersections@,
            final(self).districts@ == old(self).districts@,
            final(self).width == old(self).width,
            final(self).height == old(self).height,
            (old(self).id_free(id) && old(self).has_intersection(start_id) && old(self).has_intersection(end_id) && start_id != end_id) ==> r == Result::<
                (),
                GraphError,
            >::Ok(()) && final(self).streets@ == old(self).streets@.push(
                Street {
                    id,
                    start: start_id,
                    end: end_id,
                    width,
                    state: InteractiveElementState::Normal,
                },
            ),
            !(old(self).id_free(id) && old(self).has_intersection(start_id) && old(self).has_intersection(end_id) && start_id != end_id) ==> r == Result::<
                (),
                GraphError,
            >::Err(GraphError::GraphConstraintViolation) && *final(self) == *old(self),
    {
        let endpoints_ok = self.intersection_index(start_id).is_some()
            && self.intersection_index(end_id).is_some() && start_id != end_id;
        if endpoints_ok && self.id_is_free(id) {
            let ghost pre = *self;
            self.streets.push(
                Street {
                    id,
                    start: start_id,
                    end: end_id,
                    width,
                    state: InteractiveElementState::Normal,
                },
            );
            proof {
                let post = *self;
                assert forall|i: int, j: int|
                    0 <= i < j < post.streets@.len() implies (#[trigger] post.streets@[i]).id != (
                #[trigger] post.streets@[j]).id by {
                    if j == post.streets@.len() - 1 {
                        assert(pre.has_street(pre.streets@[i].id)) by {
                            assert(pre.streets@[i].id == pre.streets@[i].id);
                        }
                    }
                }
            }
            Ok(())
        } else {
            Err(GraphError::GraphConstraintViolation)
        }
    }

    /// Creates a street between two present, distinct intersections under a
    /// freshly drawn id. `Err` for bad endpoints, or on the unlikely id
    /// collision; the store is then unchanged.
    pub fn add_street(&mut self, start_id: u128, end_id: u128, width: i64) -> (r: Result<
        u128,
        GraphError,
    >)
        requires
            old(self).wf(),
            1 <= width <= MAX_COORD,
        ensures
            final(self).wf(),
            final(self).intersections@ == old(self).intersections@,
            final(self).districts@ == old(self).districts@,
            final(self).width == old(self).width,
            final(self).height == old(self).height,
            !(old(self).has_intersection(start_id) && old(self).has_intersection(end_id)
                && start_id != end_id) ==> r.is_err() && *final(self) == *old(self),
            match r {
                Ok(id) => old(self).id_free(id) && final(self).streets@ == old(self).streets@.push(
                    Street {
                        id,
                        start: start_id,
                        end: end_id,
                        width,
                        state: InteractiveElementState::Normal,
                    },
                ),
                Err(e) => *final(self) == *old(self) && e == GraphError::GraphConstraintViolation,
            },
    {
        let id = fresh_id();
        match self.add_street_with_id(start_id, end_id, width, id) {
            Ok(()) => Ok(id),
            Err(e) => Err(e),
        }
    }

    /// Inserts a district with the given boundary polygon under a
    /// caller-supplied id; rejects an id that is already taken.
    pub fn add_district_with_id(&mut self, polygon: Vec<Point>, id: u128) -> (r: Result<
        (),
        GraphError,
    >)
        requires
            old(self).wf(),
            forall|i: int| 0 <= i < polygon@.len() ==> valid_point(#[trigger] polygon@[i]),
        ensures
            final(self).wf(),
            final(self).intersections@ == old(self).intersections@,
            final(self).streets@ == old(self).streets@,
            final(self).width == old(self).width,
            final(self).height == old(self).height,
            old(self).id_free(id) ==> r == Result::<(), GraphError>::Ok(()) && final(self).districts@ == old(self).districts@.push(
                District {
                    id,
                    polygon,
                    state: InteractiveElementState::Normal,
                    minimum_house_side: DEFAULT_MINIMUM_HOUSE_SIDE,
                },
            ),
            !old(self).id_free(id) ==> r == Result::<(), GraphError>::Err(
                GraphError::GraphConstraintViolation,
            ) && *final(self) == *old(self),
    {
        if self.id_is_free(id) {
            let ghost pre = *self;
            self.districts.push(
                District {
                    id,
                    polygon,
                    state: InteractiveElementState::Normal,
                    minimum_house_side: DEFAULT_MINIMUM_HOUSE_SIDE,
                },
            );
            proof {
                let post = *self;
                assert forall|i: int, j: int|
                    0 <= i < j < post.districts@.len() implies (#[trigger] post.districts@[i]).id
                    != (#[trigger] post.districts@[j]).id by {
                    if j == post.districts@.len() - 1 {
                        assert(pre.has_district(pre.districts@[i].id)) by {
                            assert(pre.districts@[i].id == pre.districts@[i].id);
                        }
                    }
                }
            }
            Ok(())
        } else {
            Err(GraphError::GraphConstraintViolation)
        }
    }

    /// Registers a district under a freshly drawn id. `None` only on the
    /// unlikely id collision; the store is then unchanged.
    pub fn add_district(&mut self, polygon: Vec<Point>) -> (r: Option<u128>)
        requires
            old(self).wf(),
            forall|i: int| 0 <= i < polygon@.len() ==> valid_point(#[trigger] polygon@[i]),
        ensures
            final(self).wf(),
            final(self).intersections@ == old(self).intersections@,
            final(self).streets@ == old(self).streets@,
            final(self).width == old(self).width,
            final(self).height == old(self).height,
            match r {
                Some(id) => old(self).id_free(id) && final(self).districts@ == old(self).districts@.push(
                    District {
                        id,
                        polygon,
                        state: InteractiveElementState::Normal,
                        minimum_house_side: DEFAULT_MINIMUM_HOUSE_SIDE,
                    },
                ),
                None => *final(self) == *old(self),
            },
    {
        let id = fresh_id();
        match self.add_district_with_id(polygon, id) {
            Ok(()) => Some(id),
            Err(_) => None,
        }
    }
}

impl StreetMap {
    /// Sets the interaction state of an intersection; reports presence.
    pub fn set_intersection_state(&mut self, id: u128, st: InteractiveElementState) -> (r: bool)
        requires
            old(self).wf(),
        ensures
            final(self).wf(),
            final(self).streets@ == old(self).streets@,
            final(self).districts@ == old(self).districts@,
            final(self).width == old(self).width,
            final(self).height == old(self).height,
            old(self).has_intersection(id) ==> r && final(self).intersections@ == old(self).intersections@.update(
                old(self).intersection_idx(id),
                Intersection {
                    id: old(self).intersection_at(id).id,
                    position: old(self).intersection_at(id).position,
                    state: st,
                },
            ),
            !old(self).has_intersection(id) ==> !r && *final(self) == *old(self),
    {
        match self.intersection_index(id) {
            None => false,
            Some(k) => {
                proof {
                    self.lemma_intersection_idx_is(k as int, id);
                }
                let ghost pre = *self;
                let p = self.intersections[k].position;
                self.intersections.set(k, Intersection { id, position: p, state: st });
                proof {
                    lemma_intersections_update_keeps_wf(pre, *self, k as int);
                }
                true
            },
        }
    }

    /// Moves an intersection to a new position; reports presence. Incident
    /// street geometry is derived from positions on demand, so it can never
    /// lag behind this update.
    pub fn set_intersection_position(&mut self, id: u128, position: Point) -> (r: bool)
        requires
            old(self).wf(),
            valid_point(position),
        ensures
            final(self).wf(),
            final(self).streets@ == old(self).streets@,
            final(self).districts@ == old(self).districts@,
            final(self).width == old(self).width,
            final(self).height == old(self).height,
            old(self).has_intersection(id) ==> r && final(self).intersections@ == old(self).intersections@.update(
                old(self).intersection_idx(id),
                Intersection {
                    id: old(self).intersection_at(id).id,
                    position,
                    state: old(self).intersection_at(id).state,
                },
            ),
            !old(self).has_intersection(id) ==> !r && *final(self) == *old(self),
    {
        match self.intersection_index(id) {
            None => false,
            Some(k) => {
                proof {
                    self.lemma_intersection_idx_is(k as int, id);
                }
                let ghost pre = *self;
                let st = self.intersections[k].state;
                self.intersections.set(k, Intersection { id, position, state: st });
                proof {
                    lemma_intersections_update_keeps_wf(pre, *self, k as int);
                }
                true
            },
        }
    }

    /// Sets the interaction state of a street; reports presence.
    pub fn set_street_state(&mut self, id: u128, st: InteractiveElementState) -> (r: bool)
        requires
            old(self).wf(),
        ensures
            final(self).wf(),
            final(self).intersections@ == old(self).intersections@,
            final(self).districts@ == old(self).districts@,
            final(self).width == old(self).width,
            final(self).height == old(self).height,
            old(self).has_street(id) ==> r && final(self).streets@ == old(self).streets@.update(
                old(self).street_idx(id),
                Street {
                    id: old(self).street_at(id).id,
                    start: old(self).street_at(id).start,
                    end: old(self).street_at(id).end,
                    width: old(self).street_at(id).width,
                    state: st,
                },
            ),
            !old(self).has_street(id) ==> !r && *final(self) == *old(self),
    {
        match self.street_index(id) {
            None => false,
            Some(k) => {
                proof {
                    self.lemma_street_idx_is(k as int, id);
                }
                let ghost pre = *self;
                let s = self.streets[k];
                self.streets.set(
                    k,
                    Street { id, start: s.start, end: s.end, width: s.width, state: st },
                );
                proof {
                    let post = *self;
                    assert forall|i: int| 0 <= i < post.streets@.len() implies {
                        let w = #[trigger] post.streets@[i];
                        post.has_intersection(w.start) && post.has_intersection(w.end) && w.start
                            != w.end && 1 <= w.width <= MAX_COORD
                    } by {
                        let w = post.streets@[i];
                        if i == k {
                            assert(pre.streets@[i].start == w.start);
                        } else {
                            assert(pre.streets@[i] == w);
                        }
                    }
                }
                true
            },
        }
    }

    /// Sets the interaction state of a district; reports presence.
    pub fn set_district_state(&mut self, id: u128, st: InteractiveElementState) -> (r: bool)
        requires
            old(self).wf(),
        ensures
            final(self).wf(),
            final(self).intersections@ == old(self).intersections@,
            final(self).streets@ == old(self).streets@,
            final(self).width == old(self).width,
            final(self).height == old(self).height,
            old(self).has_district(id) ==> r && final(self).districts@ == old(self).districts@.update(
                old(self).district_idx(id),
                District {
                    id: old(self).district_at(id).id,
                    polygon: old(self).district_at(id).polygon,
                    state: st,
                    minimum_house_side: old(self).district_at(id).minimum_house_side,
                },
            ),
            !old(self).has_district(id) ==> !r && *final(self) == *old(self),
    {
        match self.district_index(id) {
            None => false,
            Some(k) => {
                proof {
                    self.lemma_district_idx_is(k as int, id);
                }
                let ghost pre = *self;
                let d = self.districts.remove(k);
                self.districts.insert(
                    k,
                    District {
                        id,
                        polygon: d.polygon,
                        state: st,
                        minimum_house_side: d.minimum_house_side,
                    },
                );
                proof {
                    let post = *self;
                    assert(post.districts@ =~= pre.districts@.update(
                        k as int,
                        District {
                            id,
                            polygon: pre.districts@[k as int].polygon,
                            state: st,
                            minimum_house_side: pre.districts@[k as int].minimum_house_side,
                        },
                    ));
                    assert(pre.districts@[k as int].wf());
                    assert forall|i: int| 0 <= i < post.districts@.len() implies (
                    #[trigger] post.districts@[i]).wf() by {
                        if i != k {
                            assert(post.districts@[i] == pre.districts@[i]);
                        }
                    }
                }
                true
            },
        }
    }

    /// Ids of the intersections whose position lies in the axis-aligned
    /// rectangle (bounds inclusive), in insertion order.
    pub fn intersections_in_rectangle(&self, min: Point, max: Point) -> (r: Vec<u128>)
        ensures
            r@ == self.ids_in_rect(min, max),
    {
        let ghost pred = |x: Intersection| in_rect(x.position, min, max);
        let n = self.intersections.len();
        let mut out: Vec<u128> = Vec::new();
        let mut i: usize = 0;
        while i < n
            invariant
                n == self.intersections@.len(),
                i <= n,
                pred == (|x: Intersection| in_rect(x.position, min, max)),
                out@ == self.intersections@.subrange(0, i as int).filter(pred).map_values(
                    |x: Intersection| x.id,
                ),
            decreases n - i,
        {
            let ghost prefix = self.intersections@.subrange(0, i as int);
            let ghost prefix1 = self.intersections@.subrange(0, i as int + 1);
            proof {
                reveal(Seq::filter);
                assert(prefix1.drop_last() =~= prefix);
                assert(prefix1.last() == self.intersections@[i as int]);
            }
            let x = self.intersections[i];
            if point_in_rect(x.position, min, max) {
                out.push(x.id);
                proof {
                    assert(prefix1.filter(pred) =~= prefix.filter(pred).push(x));
                    assert(prefix1.filter(pred).map_values(|y: Intersection| y.id)
                        =~= prefix.filter(pred).map_values(|y: Intersection| y.id).push(x.id));
                }
            } else {
                proof {
                    assert(prefix1.filter(pred) =~= prefix.filter(pred));
                }
            }
            i += 1;
        }
        proof {
            assert(self.intersections@.subrange(0, n as int) =~= self.intersections@);
        }
        out
    }

    /// The ids `intersections_in_rectangle` returns.
    pub open spec fn ids_in_rect(self, min: Point, max: Point) -> Seq<u128> {
        self.intersections@.filter(|x: Intersection| in_rect(x.position, min, max)).map_values(
            |x: Intersection| x.id,
        )
    }

    /// Ids of the intersections in the given interaction state, in insertion
    /// order.
    pub fn intersections_with_state(&self, st: InteractiveElementState) -> (r: Vec<u128>)
        ensures
            r@ == self.ids_with_state(st),
    {
        let ghost pred = |x: Intersection| x.state == st;
        let n = self.intersections.len();
        let mut out: Vec<u128> = Vec::new();
        let mut i: usize = 0;
        while i < n
            invariant
                n == self.intersections@.len(),
                i <= n,
                pred == (|x: Intersection| x.state == st),
                out@ == self.intersections@.subrange(0, i as int).filter(pred).map_values(
                    |x: Intersection| x.id,
                ),
            decreases n - i,
        {
            let ghost prefix = self.intersections@.subrange(0, i as int);
            let ghost prefix1 = self.intersections@.subrange(0, i as int + 1);
            proof {
                reveal(Seq::filter);
                assert(prefix1.drop_last() =~= prefix);
                assert(prefix1.last() == self.intersections@[i as int]);
            }
            let x = self.intersections[i];
            if x.state == st {
                out.push(x.id);
                proof {
                    assert(prefix1.filter(pred) =~= prefix.filter(pred).push(x));
                    assert(prefix1.filter(pred).map_values(|y: Intersection| y.id)
                        =~= prefix.filter(pred).map_values(|y: Intersection| y.id).push(x.id));
                }
            } else {
                proof {
                    assert(prefix1.filter(pred) =~= prefix.filter(pred));
                }
            }
            i += 1;
        }
        proof {
            assert(self.intersections@.subrange(0, n as int) =~= self.intersections@);
        }
        out
    }

    /// The ids `intersections_with_state` returns.
    pub open spec fn ids_with_state(self, st: InteractiveElementState) -> Seq<u128> {
        self.intersections@.filter(|x: Intersection| x.state == st).map_values(
            |x: Intersection| x.id,
        )
    }

    /// The intersections after marking everything inside the rectangle as
    /// selected; everything outside keeps its state.
    pub open spec fn selected_in_rect(self, min: Point, max: Point) -> Seq<Intersection> {
        self.intersections@.map_values(
            |x: Intersection|
                if in_rect(x.position, min, max) {
                    Intersection { id: x.id, position: x.position, state: InteractiveElementState::Selected }
                } else {
                    x
                },
        )
    }

    /// Marks every intersection inside the rectangle (bounds inclusive) as
    /// selected; intersections outside keep their state.
    pub fn select_intersections_in_rectangle(&mut self, min: Point, max: Point)
        requires
            old(self).wf(),
        ensures
            final(self).wf(),
            final(self).intersections@ == old(self).selected_in_rect(min, max),
            final(self).streets@ == old(self).streets@,
            final(self).districts@ == old(self).districts@,
            final(self).width == old(self).width,
            final(self).height == old(self).height,
    {
        let ghost pre = *self;
        let n = self.intersections.len();
        let mut i: usize = 0;
        while i < n
            invariant
                pre.wf(),
                n == self.intersections@.len(),
                n == pre.intersections@.len(),
                i <= n,
                self.streets@ == pre.streets@,
                self.districts@ == pre.districts@,
                self.width == pre.width,
                self.height == pre.height,
                forall|j: int|
                    i <= j < n ==> #[trigger] self.intersections@[j] == pre.intersections@[j],
                forall|j: int|
                    0 <= j < i ==> #[trigger] self.intersections@[j] == (if in_rect(
                        pre.intersections@[j].position,
                        min,
                        max,
                    ) {
                        Intersection {
                            id: pre.intersections@[j].id,
                            position: pre.intersections@[j].position,
                            state: InteractiveElementState::Selected,
                        }
                    } else {
                        pre.intersections@[j]
                    }),
            decreases n - i,
        {
            let x = self.intersections[i];
            if point_in_rect(x.position, min, max) {
                self.intersections.set(
                    i,
                    Intersection {
                        id: x.id,
                        position: x.position,
                        state: InteractiveElementState::Selected,
                    },
                );
            }
            i += 1;
        }
        proof {
            assert(self.intersections@ =~= pre.selected_in_rect(min, max));
            lemma_same_ids_positions_keeps_wf(pre, *self);
        }
    }

    /// Whether every selected intersection stays inside the world bounds when
    /// moved by this delta.
    pub open spec fn selected_fit_after(self, dx: int, dy: int) -> bool {
        forall|j: int|
            0 <= j < self.intersections@.len() && (#[trigger] self.intersections@[j]).state
                == InteractiveElementState::Selected ==> crate::geom::valid_coord(
                self.intersections@[j].position.x + dx,
            ) && crate::geom::valid_coord(self.intersections@[j].position.y + dy)
    }

    /// The intersections after moving every selected one by the delta.
    pub open spec fn translated_selected(self, dx: int, dy: int) -> Seq<Intersection> {
        self.intersections@.map_values(
            |x: Intersection|
                if x.state == InteractiveElementState::Selected {
                    Intersection {
                        id: x.id,
                        position: Point { x: (x.position.x + dx) as i64, y: (x.position.y + dy) as i64 },
                        state: x.state,
                    }
                } else {
                    x
                },
        )
    }

    /// Moves every selected intersection by the delta, exactly, or does
    /// nothing at all if any of them would leave the world bounds. Reports
    /// whether the move happened.
    pub fn translate_selected(&mut self, dx: i64, dy: i64) -> (r: bool)
        requires
            old(self).wf(),
            -2 * MAX_COORD <= dx <= 2 * MAX_COORD,
            -2 * MAX_COORD <= dy <= 2 * MAX_COORD,
        ensures
            final(self).wf(),
            final(self).streets@ == old(self).streets@,
            final(self).districts@ == old(self).districts@,
            final(self).width == old(self).width,
            final(self).height == old(self).height,
            r == old(self).selected_fit_after(dx as int, dy as int),
            r ==> final(self).intersections@ == old(self).translated_selected(
                dx as int,
                dy as int,
            ),
            !r ==> *final(self) == *old(self),
    {
        let n = self.intersections.len();
        let mut i: usize = 0;
        while i < n
            invariant
                self.wf(),
                n == self.intersections@.len(),
                i <= n,
                -2 * MAX_COORD <= dx <= 2 * MAX_COORD,
                -2 * MAX_COORD <= dy <= 2 * MAX_COORD,
                forall|j: int|
                    0 <= j < i && (#[trigger] self.intersections@[j]).state
                        == InteractiveElementState::Selected ==> crate::geom::valid_coord(
                        self.intersections@[j].position.x + dx,
                    ) && crate::geom::valid_coord(self.intersections@[j].position.y + dy),
            decreases n - i,
        {
            let x = self.intersections[i];
            if x.state == InteractiveElementState::Selected {
                let nx = x.position.x + dx;
                let ny = x.position.y + dy;
                if nx < -MAX_COORD || nx > MAX_COORD || ny < -MAX_COORD || ny > MAX_COORD {
                    return false;
                }
            }
            i += 1;
        }
        let ghost pre = *self;
        let mut i: usize = 0;
        while i < n
            invariant
                pre.wf(),
                pre.selected_fit_after(dx as int, dy as int),
                n == self.intersections@.len(),
                n == pre.intersections@.len(),
                i <= n,
                -2 * MAX_COORD <= dx <= 2 * MAX_COORD,
                -2 * MAX_COORD <= dy <= 2 * MAX_COORD,
                self.streets@ == pre.streets@,
                self.districts@ == pre.districts@,
                self.width == pre.width,
                self.height == pre.height,
                forall|j: int|
                    i <= j < n ==> #[trigger] self.intersections@[j] == pre.intersections@[j],
                forall|j: int|
                    0 <= j < i ==> #[trigger] self.intersections@[j] == (if pre.intersections@[j].state
                        == InteractiveElementState::Selected {
                        Intersection {
                            id: pre.intersections@[j].id,
                            position: Point {
                                x: (pre.intersections@[j].position.x + dx) as i64,
                                y: (pre.intersections@[j].position.y + dy) as i64,
                            },
                            state: pre.intersections@[j].state,
                        }
                    } else {
                        pre.intersections@[j]
                    }),
            decreases n - i,
        {
            let x = self.intersections[i];
            if x.state == InteractiveElementState::Selected {
                self.intersections.set(
                    i,
                    Intersection {
                        id: x.id,
                        position: Point { x: x.position.x + dx, y: x.position.y + dy },
                        state: x.state,
                    },
                );
            }
            i += 1;
        }
        proof {
            assert(self.intersections@ =~= pre.translated_selected(dx as int, dy as int));
            lemma_same_ids_keeps_wf(pre, *self);
        }
        true
    }

    /// The index `k` holds an intersection within tolerance that is at least
    /// as close as every other within-tolerance intersection, the earliest
    /// such at its distance.
    pub open spec fn is_nearest_intersection_idx(
        self,
        pos: Point,
        max_d: i64,
        k: int,
    ) -> bool {
        &&& 0 <= k < self.intersections@.len()
        &&& dist_sq(pos, self.intersections@[k].position) <= (max_d as int) * (max_d as int)
        &&& forall|j: int|
            0 <= j < self.intersections@.len() && dist_sq(
                pos,
                (#[trigger] self.intersections@[j]).position,
            ) <= (max_d as int) * (max_d as int) ==> (dist_sq(pos, self.intersections@[k].position)
                < dist_sq(pos, self.intersections@[j].position) || (dist_sq(
                pos,
                self.intersections@[k].position,
            ) == dist_sq(pos, self.intersections@[j].position) && k <= j))
    }

    /// The closest intersection within `max_d` of `pos`, ties broken by
    /// lowest distance, then by insertion order; `None` when none qualifies.
    pub fn nearest_intersection(&self, pos: Point, max_d: i64) -> (r: Option<u128>)
        requires
            self.wf(),
            valid_point(pos),
            0 <= max_d,
        ensures
            match r {
                Some(id) => self.has_intersection(id) && self.is_nearest_intersection_idx(
                    pos,
                    max_d,
                    self.intersection_idx(id),
                ),
                None => forall|j: int|
                    0 <= j < self.intersections@.len() ==> dist_sq(
                        pos,
                        (#[trigger] self.intersections@[j]).position,
                    ) > (max_d as int) * (max_d as int),
            },
    {
        let ghost md2 = (max_d as int) * (max_d as int);
        let n = self.intersections.len();
        let mut best: Option<(usize, i64)> = None;
        let mut i: usize = 0;
        while i < n
            invariant
                self.wf(),
                valid_point(pos),
                0 <= max_d,
                md2 == (max_d as int) * (max_d as int),
                n == self.intersections@.len(),
                i <= n,
                match best {
                    Option::Some((k, d)) => k < i && d == dist_sq(
                        pos,
                        self.intersections@[k as int].position,
                    ) && d <= md2 && forall|j: int|
                        0 <= j < i && dist_sq(
                            pos,
                            (#[trigger] self.intersections@[j]).position,
                        ) <= md2 ==> (d < dist_sq(pos, self.intersections@[j].position) || (d
                            == dist_sq(pos, self.intersections@[j].position) && k <= j)),
                    Option::None => forall|j: int|
                        0 <= j < i ==> dist_sq(pos, (#[trigger] self.intersections@[j]).position)
                            > md2,
                },
            decreases n - i,
        {
            let x = self.intersections[i];
            let d = dist_sq_i64(pos, x.position);
            proof {
                crate::geom::lemma_mul_bound(max_d as int, max_d as int, i64::MAX as int, i64::MAX as int);
            }
            let within = (d as i128) <= (max_d as i128) * (max_d as i128);
            if within {
                match best {
                    Some((_, bd)) => {
                        if d < bd {
                            best = Some((i, d));
                        }
                    },
                    None => {
                        best = Some((i, d));
                    },
                }
            }
            i += 1;
        }
        match best {
            Some((k, _)) => {
                let id = self.intersections[k].id;
                proof {
                    self.lemma_intersection_idx_is(k as int, id);
                }
                Some(id)
            },
            None => None,
        }
    }
}

/// Updating one intersection without changing its id, to a valid position,
/// keeps the store well-formed.
proof fn lemma_intersections_update_keeps_wf(pre: StreetMap, post: StreetMap, k: int)
    requires
        pre.wf(),
        post.streets@ == pre.streets@,
        post.districts@ == pre.districts@,
        post.intersections@.len() == pre.intersections@.len(),
        0 <= k < pre.intersections@.len(),
        forall|j: int|
            0 <= j < pre.intersections@.len() && j != k ==> #[trigger] post.intersections@[j]
                == pre.intersections@[j],
        post.intersections@[k].id == pre.intersections@[k].id,
        valid_point(post.intersections@[k].position),
    ensures
        post.wf(),
{
    lemma_same_ids_keeps_wf(pre, post);
}

/// A store whose intersections keep their ids and position validity, and
/// whose streets and districts are untouched, stays well-formed.
proof fn lemma_same_ids_keeps_wf(pre: StreetMap, post: StreetMap)
    requires
        pre.wf(),
        post.streets@ == pre.streets@,
        post.districts@ == pre.districts@,
        post.intersections@.len() == pre.intersections@.len(),
        forall|j: int|
            0 <= j < pre.intersections@.len() ==> (#[trigger] post.intersections@[j]).id
                == pre.intersections@[j].id,
        forall|j: int|
            0 <= j < post.intersections@.len() ==> valid_point(
                (#[trigger] post.intersections@[j]).position,
            ),
    ensures
        post.wf(),
{
    assert forall|i: int| 0 <= i < post.streets@.len() implies {
        let s = #[trigger] post.streets@[i];
        post.has_intersection(s.start) && post.has_intersection(s.end) && s.start != s.end && 1
            <= s.width <= MAX_COORD
    } by {
        let s = post.streets@[i];
        assert(pre.streets@[i] == s);
        let ws = choose|w: int|
            0 <= w < pre.intersections@.len() && (#[trigger] pre.intersections@[w]).id == s.start;
        assert(post.intersections@[ws].id == s.start);
        let we = choose|w: int|
            0 <= w < pre.intersections@.len() && (#[trigger] pre.intersections@[w]).id == s.end;
        assert(post.intersections@[we].id == s.end);
    }
}

/// A store whose intersections keep ids and positions, and whose streets and
/// districts are untouched, stays well-formed.
proof fn lemma_same_ids_positions_keeps_wf(pre: StreetMap, post: StreetMap)
    requires
        pre.wf(),
        post.streets@ == pre.streets@,
        post.districts@ == pre.districts@,
        post.intersections@.len() == pre.intersections@.len(),
        forall|j: int|
            0 <= j < pre.intersections@.len() ==> (#[trigger] post.intersections@[j]).id
                == pre.intersections@[j].id && post.intersections@[j].position
                == pre.intersections@[j].position,
    ensures
        post.wf(),
{
    lemma_same_ids_keeps_wf(pre, post);
}

impl District {
    /// Whether the point lies inside this district's polygon (even-odd rule).
    pub fn is_point_on_district(&self, point: &Point) -> (r: bool)
        requires
            self.wf(),
            valid_point(*point),
        ensures
            r == point_in_polygon(*point, self.polygon@),
    {
        point_in_polygon_exec(*point, &self.polygon)
    }
}

/// A street has this intersection id as one of its endpoints.
pub open spec fn street_touches(t: Street, e: u128) -> bool {
    t.start == e || t.end == e
}

/// The endpoint of `t` that is not `e` (meaningful when `t` touches `e`).
pub open spec fn other_endpoint(t: Street, e: u128) -> u128 {
    if t.start == e {
        t.end
    } else {
        t.start
    }
}

impl StreetMap {
    /// Position of the intersection with this id (meaningful when present).
    pub open spec fn pos_of(self, iid: u128) -> Point {
        self.intersection_at(iid).position
    }

    /// Positions of a street's endpoints, by street index.
    pub(crate) fn endpoint_positions(&self, k: usize) -> (r: (Point, Point))
        requires
            self.wf(),
            k < self.streets@.len(),
        ensures
            r.0 == self.pos_of(self.streets@[k as int].start),
            r.1 == self.pos_of(self.streets@[k as int].end),
            valid_point(r.0),
            valid_point(r.1),
    {
        let s = self.streets[k];
        let a = match self.intersection_index(s.start) {
            Some(i) => {
                proof {
                    self.lemma_intersection_idx_is(i as int, s.start);
                }
                self.intersections[i].position
            },
            None => {
                proof {
                    assert(false);
                }
                Point { x: 0, y: 0 }
            },
        };
        let b = match self.intersection_index(s.end) {
            Some(i) => {
                proof {
                    self.lemma_intersection_idx_is(i as int, s.end);
                }
                self.intersections[i].position
            },
            None => {
                proof {
                    assert(false);
                }
                Point { x: 0, y: 0 }
            },
        };
        (a, b)
    }

    /// Which face of the street the position lies on: the sign of the cross
    /// product of the street direction with the vector from the street's
    /// start to the position.
    pub fn side_of_position(&self, street_id: u128, pos: Point) -> (r: Side)
        requires
            self.wf(),
            self.has_street(street_id),
            valid_point(pos),
        ensures
            r == side_of(
                self.pos_of(self.street_at(street_id).start),
                self.pos_of(self.street_at(street_id).end),
                pos,
            ),
    {
        match self.street_index(street_id) {
            Some(k) => {
                proof {
                    self.lemma_street_idx_is(k as int, street_id);
                }
                let (a, b) = self.endpoint_positions(k);
                side_of_segment(a, b, pos)
            },
            None => {
                proof {
                    assert(false);
                }
                Side::Right
            },
        }
    }

    /// The first district (in insertion order) whose polygon contains the
    /// position, if any.
    pub fn get_district_at_position(&self, pos: Point) -> (r: Option<u128>)
        requires
            self.wf(),
            valid_point(pos),
        ensures
            match r {
                Some(id) => self.has_district(id) && point_in_polygon(
                    pos,
                    self.district_at(id).polygon@,
                ) && forall|j: int|
                    0 <= j < self.district_idx(id) ==> !point_in_polygon(
                        pos,
                        (#[trigger] self.districts@[j]).polygon@,
                    ),
                None => forall|j: int|
                    0 <= j < self.districts@.len() ==> !point_in_polygon(
                        pos,
                        (#[trigger] self.districts@[j]).polygon@,
                    ),
            },
    {
        let n = self.districts.len();
        let mut i: usize = 0;
        while i < n
            invariant
                self.wf(),
                valid_point(pos),
                n == self.districts@.len(),
                i <= n,
                forall|j: int|
                    0 <= j < i ==> !point_in_polygon(pos, (#[trigger] self.districts@[j]).polygon@),
            decreases n - i,
        {
            if self.districts[i].is_point_on_district(&pos) {
                let id = self.districts[i].id;
                proof {
                    self.lemma_district_idx_is(i as int, id);
                }
                return Some(id);
            }
            i += 1;
        }
        None
    }

    /// Exact squared distance from `pos` to street `k`, as a rational
    /// numerator over `street_dist_den`.
    pub open spec fn street_dist_num(self, pos: Point, k: int) -> int {
        seg_dist_sq_num(
            pos,
            self.pos_of(self.streets@[k].start),
            self.pos_of(self.streets@[k].end),
        )
    }

    pub open spec fn street_dist_den(self, pos: Point, k: int) -> int {
        seg_dist_sq_den(
            pos,
            self.pos_of(self.streets@[k].start),
            self.pos_of(self.streets@[k].end),
        )
    }

    /// Street `k` lies within the tolerance (`None`: no bound).
    pub open spec fn street_within(self, pos: Point, tol: Option<i64>, k: int) -> bool {
        match tol {
            Option::Some(t) => self.street_dist_num(pos, k) <= (t as int) * (t as int)
                * self.street_dist_den(pos, k),
            Option::None => true,
        }
    }

    /// Street `k` is at least as close as street `j` (exact rational
    /// comparison of squared distances).
    pub open spec fn street_closer_eq(self, pos: Point, k: int, j: int) -> bool {
        crate::geom::rat_le(
            self.street_dist_num(pos, k),
            self.street_dist_den(pos, k),
            self.street_dist_num(pos, j),
            self.street_dist_den(pos, j),
        )
    }

    /// Street `k` qualifies and is at least as close as every qualifying
    /// street, the earliest such at its distance.
    pub open spec fn is_nearest_street_idx(self, pos: Point, tol: Option<i64>, k: int) -> bool {
        &&& 0 <= k < self.streets@.len()
        &&& self.street_within(pos, tol, k)
        &&& forall|j: int|
            0 <= j < self.streets@.len() && #[trigger] self.street_within(pos, tol, j)
                ==> (self.street_closer_eq(pos, k, j) && (!self.street_closer_eq(pos, j, k) || k
                <= j))
    }

    /// Index of the nearest street within the tolerance.
    fn nearest_street_index(&self, pos: Point, tol: Option<i64>) -> (r: Option<usize>)
        requires
            self.wf(),
            valid_point(pos),
            match tol {
                Option::Some(t) => 0 <= t <= crate::geom::MAX_DIFF,
                Option::None => true,
            },
        ensures
            match r {
                Some(k) => self.is_nearest_street_idx(pos, tol, k as int),
                None => forall|j: int|
                    0 <= j < self.streets@.len() ==> !(#[trigger] self.street_within(pos, tol, j)),
            },
    {
        let n = self.streets.len();
        let mut best: Option<(usize, i128, i128)> = None;
        let mut i: usize = 0;
        while i < n
            invariant
                self.wf(),
                valid_point(pos),
                match tol {
                    Option::Some(t) => 0 <= t <= crate::geom::MAX_DIFF,
                    Option::None => true,
                },
                n == self.streets@.len(),
                i <= n,
                match best {
                    Option::Some((k, num, den)) => k < i && num == self.street_dist_num(
                        pos,
                        k as int,
                    ) && den == self.street_dist_den(pos, k as int) && 0 <= num
                        <= 6_400_000_000_000_000_000_000 && 1 <= den <= 80_000_000_000
                        && self.street_within(pos, tol, k as int) && forall|j: int|
                        0 <= j < i && #[trigger] self.street_within(pos, tol, j)
                            ==> (self.street_closer_eq(pos, k as int, j) && (
                        !self.street_closer_eq(pos, j, k as int) || k <= j)),
                    Option::None => forall|j: int|
                        0 <= j < i ==> !(#[trigger] self.street_within(pos, tol, j)),
                },
            decreases n - i,
        {
            let ghost pre_best = best;
            let (a, b) = self.endpoint_positions(i);
            let (num, den) = crate::geom::seg_dist_sq_rat(pos, a, b);
            proof {
                assert(num == self.street_dist_num(pos, i as int));
                assert(den == self.street_dist_den(pos, i as int));
            }
            let within = match tol {
                Some(t) => {
                    proof {
                        crate::geom::lemma_mul_bound(t as int, t as int, 200_000, 200_000);
                        crate::geom::lemma_mul_bound(
                            (t as int) * (t as int),
                            den as int,
                            40_000_000_000,
                            80_000_000_000,
                        );
                    }
                    num <= (t as i128) * (t as i128) * den
                },
                None => true,
            };
            proof {
                assert(within == self.street_within(pos, tol, i as int));
            }
            if within {
                match best {
                    Some((bk, bnum, bden)) => {
                        proof {
                            crate::geom::lemma_mul_bound(
                                num as int,
                                bden as int,
                                6_400_000_000_000_000_000_000,
                                80_000_000_000,
                            );
                            crate::geom::lemma_mul_bound(
                                bnum as int,
                                den as int,
                                6_400_000_000_000_000_000_000,
                                80_000_000_000,
                            );
                        }
                        if num * bden < bnum * den {
                            best = Some((i, num, den));
                            proof {
                                assert forall|j: int|
                                    0 <= j < i + 1 && #[trigger] self.street_within(pos, tol, j)
                                        implies (self.street_closer_eq(pos, i as int, j) && (
                                !self.street_closer_eq(pos, j, i as int) || i <= j)) by {
                                    if j < i {
                                        assert(self.street_closer_eq(pos, bk as int, j));
                                        crate::geom::lemma_rat_lt_le_trans(
                                            self.street_dist_num(pos, i as int),
                                            self.street_dist_den(pos, i as int),
                                            self.street_dist_num(pos, bk as int),
                                            self.street_dist_den(pos, bk as int),
                                            self.street_dist_num(pos, j),
                                            self.street_dist_den(pos, j),
                                        );
                                    }
                                }
                            }
                        } else {
                            proof {
                                assert forall|j: int|
                                    0 <= j < i + 1 && #[trigger] self.street_within(pos, tol, j)
                                        implies (self.street_closer_eq(pos, bk as int, j) && (
                                !self.street_closer_eq(pos, j, bk as int) || bk <= j)) by {
                                    if j == i {
                                        assert(self.street_closer_eq(pos, bk as int, j));
                                    }
                                }
                            }
                        }
                    },
                    None => {
                        best = Some((i, num, den));
                    },
                }
            }
            i += 1;
        }
        match best {
            Some((k, _, _)) => Some(k),
            None => None,
        }
    }

    /// The closest street within `max_d` of `pos` (distance to its segment),
    /// ties broken by lowest distance, then by insertion order.
    pub fn nearest_street(&self, pos: Point, max_d: i64) -> (r: Option<u128>)
        requires
            self.wf(),
            valid_point(pos),
            0 <= max_d <= crate::geom::MAX_DIFF,
        ensures
            match r {
                Some(id) => self.has_street(id) && self.is_nearest_street_idx(
                    pos,
                    Some(max_d),
                    self.street_idx(id),
                ),
                None => forall|j: int|
                    0 <= j < self.streets@.len() ==> !(#[trigger] self.street_within(
                        pos,
                        Some(max_d),
                        j,
                    )),
            },
    {
        match self.nearest_street_index(pos, Some(max_d)) {
            Some(k) => {
                let id = self.streets[k].id;
                proof {
                    self.lemma_street_idx_is(k as int, id);
                }
                Some(id)
            },
            None => None,
        }
    }

    /// The closest street to `pos` with no distance bound; `None` only when
    /// there are no streets.
    pub fn get_nearest_street_to_position(&self, pos: Point) -> (r: Option<u128>)
        requires
            self.wf(),
            valid_point(pos),
        ensures
            match r {
                Some(id) => self.has_street(id) && self.is_nearest_street_idx(
                    pos,
                    None,
                    self.street_idx(id),
                ),
                None => self.streets@.len() == 0,
            },
    {
        match self.nearest_street_index(pos, None) {
            Some(k) => {
                let id = self.streets[k].id;
                proof {
                    self.lemma_street_idx_is(k as int, id);
                }
                Some(id)
            },
            None => {
                proof {
                    if self.streets@.len() > 0 {
                        assert(self.street_within(pos, None, 0));
                    }
                }
                None
            },
        }
    }

    /// The direction vector from the shared endpoint `e` outwards along
    /// street `t` (as a pair of coordinate differences).
    pub open spec fn cand_vec(self, t: Street, e: u128) -> (int, int) {
        (
            self.pos_of(other_endpoint(t, e)).x - self.pos_of(e).x,
            self.pos_of(other_endpoint(t, e)).y - self.pos_of(e).y,
        )
    }

    /// Street `t` can continue a face walk that arrives at endpoint `e` along
    /// `u` on the given walk side.
    pub open spec fn street_eligible(
        self,
        t: Street,
        sid: u128,
        e: u128,
        ux: int,
        uy: int,
        side: Side,
    ) -> bool {
        &&& t.id != sid
        &&& street_touches(t, e)
        &&& !(self.cand_vec(t, e).0 == 0 && self.cand_vec(t, e).1 == 0)
        &&& turn_eligible(side, ux, uy, self.cand_vec(t, e).0, self.cand_vec(t, e).1)
    }

    /// Folds the angular choice over the street arena from index `i` on,
    /// carrying the best candidate so far; the earliest street wins ties.
    pub open spec fn rotation_scan(
        self,
        sid: u128,
        e: u128,
        ux: int,
        uy: int,
        side: Side,
        i: int,
        best: Option<int>,
    ) -> Option<int>
        decreases self.streets@.len() - i,
    {
        if i < 0 || i >= self.streets@.len() {
            best
        } else {
            let t = self.streets@[i];
            let new_best = if self.street_eligible(t, sid, e, ux, uy, side) {
                match best {
                    Option::None => Option::Some(i),
                    Option::Some(b) => if turn_better(
                        side,
                        ux,
                        uy,
                        self.cand_vec(self.streets@[b], e).0,
                        self.cand_vec(self.streets@[b], e).1,
                        self.cand_vec(t, e).0,
                        self.cand_vec(t, e).1,
                    ) {
                        Option::Some(i)
                    } else {
                        best
                    },
                }
            } else {
                best
            };
            self.rotation_scan(sid, e, ux, uy, side, i + 1, new_best)
        }
    }

    /// The neighbor street continuing the face walk past the end intersection
    /// of street `sid`, on the given side of the street's own direction.
    pub open spec fn rotation_next_spec(self, sid: u128, side: Side) -> Option<u128> {
        let s = self.street_at(sid);
        let e = s.end;
        let ux = self.pos_of(s.end).x - self.pos_of(s.start).x;
        let uy = self.pos_of(s.end).y - self.pos_of(s.start).y;
        if ux == 0 && uy == 0 {
            Option::None
        } else {
            match self.rotation_scan(sid, e, ux, uy, side, 0, Option::None) {
                Option::Some(k) => Option::Some(self.streets@[k].id),
                Option::None => Option::None,
            }
        }
    }

    /// The neighbor street continuing the face walk past the start
    /// intersection of street `sid`. A walk that leaves through the start
    /// travels against the street's own direction, so the face on side `side`
    /// of the street lies on the opposite side of the walk direction.
    pub open spec fn rotation_previous_spec(self, sid: u128, side: Side) -> Option<u128> {
        let s = self.street_at(sid);
        let e = s.start;
        let ux = self.pos_of(s.start).x - self.pos_of(s.end).x;
        let uy = self.pos_of(s.start).y - self.pos_of(s.end).y;
        if ux == 0 && uy == 0 {
            Option::None
        } else {
            match self.rotation_scan(sid, e, ux, uy, side.flip_spec(), 0, Option::None) {
                Option::Some(k) => Option::Some(self.streets@[k].id),
                Option::None => Option::None,
            }
        }
    }

    /// A scan that starts from a valid best candidate only ever returns a
    /// valid candidate.
    proof fn lemma_rotation_scan_props(
        self,
        sid: u128,
        e: u128,
        ux: int,
        uy: int,
        side: Side,
        i: int,
        best: Option<int>,
    )
        requires
            match best {
                Option::Some(b) => 0 <= b < self.streets@.len() && self.street_eligible(
                    self.streets@[b],
                    sid,
                    e,
                    ux,
                    uy,
                    side,
                ),
                Option::None => true,
            },
        ensures
            match self.rotation_scan(sid, e, ux, uy, side, i, best) {
                Option::Some(k) => 0 <= k < self.streets@.len() && self.street_eligible(
                    self.streets@[k],
                    sid,
                    e,
                    ux,
                    uy,
                    side,
                ),
                Option::None => true,
            },
        decreases self.streets@.len() - i,
    {
        if 0 <= i < self.streets@.len() {
            let t = self.streets@[i];
            let new_best = if self.street_eligible(t, sid, e, ux, uy, side) {
                match best {
                    Option::None => Option::Some(i),
                    Option::Some(b) => if turn_better(
                        side,
                        ux,
                        uy,
                        self.cand_vec(self.streets@[b], e).0,
                        self.cand_vec(self.streets@[b], e).1,
                        self.cand_vec(t, e).0,
                        self.cand_vec(t, e).1,
                    ) {
                        Option::Some(i)
                    } else {
                        best
                    },
                }
            } else {
                best
            };
            self.lemma_rotation_scan_props(sid, e, ux, uy, side, i + 1, new_best);
        }
    }

    /// Shared body of the two rotation queries: scans every street around the
    /// endpoint `e` for the best continuation.
    fn rotation_scan_exec(&self, sid: u128, e: u128, ux: i64, uy: i64, side: Side) -> (r: Option<
        usize,
    >)
        requires
            self.wf(),
            self.has_intersection(e),
            -(crate::geom::MAX_DIFF as int) <= ux <= crate::geom::MAX_DIFF as int,
            -(crate::geom::MAX_DIFF as int) <= uy <= crate::geom::MAX_DIFF as int,
        ensures
            match r {
                Some(k) => Option::Some(k as int) == self.rotation_scan(
                    sid,
                    e,
                    ux as int,
                    uy as int,
                    side,
                    0,
                    Option::None,
                ) && k < self.streets@.len() && self.street_eligible(
                    self.streets@[k as int],
                    sid,
                    e,
                    ux as int,
                    uy as int,
                    side,
                ),
                None => Option::<int>::None == self.rotation_scan(
                    sid,
                    e,
                    ux as int,
                    uy as int,
                    side,
                    0,
                    Option::None,
                ),
            },
    {
        let e_pos = match self.intersection_index(e) {
            Some(i) => {
                proof {
                    self.lemma_intersection_idx_is(i as int, e);
                }
                self.intersections[i].position
            },
            None => {
                proof {
                    assert(false);
                }
                Point { x: 0, y: 0 }
            },
        };
        let n = self.streets.len();
        let mut best: Option<usize> = None;
        let mut i: usize = 0;
        while i < n
            invariant
                self.wf(),
                self.has_intersection(e),
                e_pos == self.pos_of(e),
                valid_point(e_pos),
                -(crate::geom::MAX_DIFF as int) <= ux <= crate::geom::MAX_DIFF as int,
                -(crate::geom::MAX_DIFF as int) <= uy <= crate::geom::MAX_DIFF as int,
                n == self.streets@.len(),
                i <= n,
                match best {
                    Option::Some(b) => b < n && self.street_eligible(
                        self.streets@[b as int],
                        sid,
                        e,
                        ux as int,
                        uy as int,
                        side,
                    ),
                    Option::None => true,
                },
                self.rotation_scan(sid, e, ux as int, uy as int, side, 0, Option::None)
                    == self.rotation_scan(
                    sid,
                    e,
                    ux as int,
                    uy as int,
                    side,
                    i as int,
                    match best {
                        Option::Some(b) => Option::Some(b as int),
                        Option::None => Option::None,
                    },
                ),
            decreases n - i,
        {
            let t = self.streets[i];
            let eligible = if t.id != sid && (t.start == e || t.end == e) {
                let other = if t.start == e {
                    t.end
                } else {
                    t.start
                };
                let other_pos = match self.intersection_index(other) {
                    Some(oi) => {
                        proof {
                            self.lemma_intersection_idx_is(oi as int, other);
                        }
                        self.intersections[oi].position
                    },
                    None => {
                        proof {
                            assert(false);
                        }
                        Point { x: 0, y: 0 }
                    },
                };
                let wx = other_pos.x - e_pos.x;
                let wy = other_pos.y - e_pos.y;
                if wx == 0 && wy == 0 {
                    false
                } else {
                    turn_eligible_exec(side, ux, uy, wx, wy)
                }
            } else {
                false
            };
            proof {
                assert(eligible == self.street_eligible(
                    self.streets@[i as int],
                    sid,
                    e,
                    ux as int,
                    uy as int,
                    side,
                ));
            }
            if eligible {
                match best {
                    None => {
                        best = Some(i);
                    },
                    Some(b) => {
                        let (bwx, bwy) = self.cand_vec_exec(b, e, e_pos);
                        let (wx, wy) = self.cand_vec_exec(i, e, e_pos);
                        if turn_better_exec(side, ux, uy, bwx, bwy, wx, wy) {
                            best = Some(i);
                        }
                    },
                }
            }
            i += 1;
        }
        best
    }

    /// The outward direction of street `k` from endpoint `e`, exactly.
    fn cand_vec_exec(&self, k: usize, e: u128, e_pos: Point) -> (r: (i64, i64))
        requires
            self.wf(),
            k < self.streets@.len(),
            street_touches(self.streets@[k as int], e),
            e_pos == self.pos_of(e),
            valid_point(e_pos),
        ensures
            r.0 == self.cand_vec(self.streets@[k as int], e).0,
            r.1 == self.cand_vec(self.streets@[k as int], e).1,
            -(crate::geom::MAX_DIFF as int) <= r.0 <= crate::geom::MAX_DIFF as int,
            -(crate::geom::MAX_DIFF as int) <= r.1 <= crate::geom::MAX_DIFF as int,
    {
        let t = self.streets[k];
        let other = if t.start == e {
            t.end
        } else {
            t.start
        };
        let other_pos = match self.intersection_index(other) {
            Some(oi) => {
                proof {
                    self.lemma_intersection_idx_is(oi as int, other);
                }
                self.intersections[oi].position
            },
            None => {
                proof {
                    assert(false);
                }
                Point { x: 0, y: 0 }
            },
        };
        (other_pos.x - e_pos.x, other_pos.y - e_pos.y)
    }

    /// The next street in angular order past the end of `sid` on the given
    /// side; `None` when no street continues the face there.
    pub fn rotation_next(&self, sid: u128, side: Side) -> (r: Option<u128>)
        requires
            self.wf(),
            self.has_street(sid),
        ensures
            r == self.rotation_next_spec(sid, side),
            match r {
                Some(t) => self.has_street(t) && t != sid && street_touches(
                    self.street_at(t),
                    self.street_at(sid).end,
                ),
                None => true,
            },
    {
        let k = match self.street_index(sid) {
            Some(k) => k,
            None => {
                proof {
                    assert(false);
                }
                0
            },
        };
        proof {
            self.lemma_street_idx_is(k as int, sid);
        }
        let s = self.streets[k];
        let (a, b) = self.endpoint_positions(k);
        let ux = b.x - a.x;
        let uy = b.y - a.y;
        if ux == 0 && uy == 0 {
            return None;
        }
        match self.rotation_scan_exec(sid, s.end, ux, uy, side) {
            Some(j) => {
                let id = self.streets[j].id;
                proof {
                    self.lemma_street_idx_is(j as int, id);
                }
                Some(id)
            },
            None => None,
        }
    }

    /// The next street in angular order past the start of `sid` on the given
    /// side; `None` when no street continues the face there.
    pub fn rotation_previous(&self, sid: u128, side: Side) -> (r: Option<u128>)
        requires
            self.wf(),
            self.has_street(sid),
        ensures
            r == self.rotation_previous_spec(sid, side),
            match r {
                Some(t) => self.has_street(t) && t != sid && street_touches(
                    self.street_at(t),
                    self.street_at(sid).start,
                ),
                None => true,
            },
    {
        let k = match self.street_index(sid) {
            Some(k) => k,
            None => {
                proof {
                    assert(false);
                }
                0
            },
        };
        proof {
            self.lemma_street_idx_is(k as int, sid);
        }
        let s = self.streets[k];
        let (a, b) = self.endpoint_positions(k);
        let ux = a.x - b.x;
        let uy = a.y - b.y;
        if ux == 0 && uy == 0 {
            return None;
        }
        match self.rotation_scan_exec(sid, s.start, ux, uy, side.flip()) {
            Some(j) => {
                let id = self.streets[j].id;
                proof {
                    self.lemma_street_idx_is(j as int, id);
                }
                Some(id)
            },
            None => None,
        }
    }
}

impl StreetMap {
    /// Inserts a district value as it stands; rejects a taken id.
    pub fn insert_district(&mut self, d: District) -> (r: Result<(), GraphError>)
        requires
            old(self).wf(),
            d.wf(),
        ensures
            final(self).wf(),
            final(self).intersections@ == old(self).intersections@,
            final(self).streets@ == old(self).streets@,
            final(self).width == old(self).width,
            final(self).height == old(self).height,
            old(self).id_free(d.id) ==> r == Result::<(), GraphError>::Ok(()) && final(self).districts@ == old(self).districts@.push(d),
            !old(self).id_free(d.id) ==> r == Result::<(), GraphError>::Err(
                GraphError::GraphConstraintViolation,
            ) && *final(self) == *old(self),
    {
        let free = self.id_is_free(d.id);
        if free {
            let ghost pre = *self;
            let ghost did = d.id;
            self.districts.push(d);
            proof {
                let post = *self;
                assert forall|i: int, j: int|
                    0 <= i < j < post.districts@.len() implies (#[trigger] post.districts@[i]).id
                    != (#[trigger] post.districts@[j]).id by {
                    if j == post.districts@.len() - 1 {
                        assert(pre.has_district(pre.districts@[i].id)) by {
                            assert(pre.districts@[i].id == pre.districts@[i].id);
                        }
                    }
                }
            }
            Ok(())
        } else {
            Err(GraphError::GraphConstraintViolation)
        }
    }

    /// Removes and returns the district with this id, if present.
    pub fn take_district(&mut self, id: u128) -> (r: Option<District>)
        requires
            old(self).wf(),
        ensures
            final(self).wf(),
            final(self).intersections@ == old(self).intersections@,
            final(self).streets@ == old(self).streets@,
            final(self).width == old(self).width,
            final(self).height == old(self).height,
            old(self).has_district(id) ==> r == Some(old(self).district_at(id)) && final(self).districts@ == old(self).districts@.remove(old(self).district_idx(id)),
            !old(self).has_district(id) ==> r is None && *final(self) == *old(self),
    {
        match self.district_index(id) {
            None => None,
            Some(k) => {
                proof {
                    self.lemma_district_idx_is(k as int, id);
                }
                let ghost pre = *self;
                let d = self.districts.remove(k);
                proof {
                    let post = *self;
                    assert forall|i: int| 0 <= i < post.districts@.len() implies (
                    #[trigger] post.districts@[i]).wf() by {
                        if i < k {
                            assert(pre.districts@[i] == post.districts@[i]);
                        } else {
                            assert(pre.districts@[i + 1] == post.districts@[i]);
                        }
                    }
                }
                Some(d)
            },
        }
    }
}

impl StreetMap {
    /// The intersections after dropping every selection.
    pub open spec fn deselected(self) -> Seq<Intersection> {
        self.intersections@.map_values(
            |x: Intersection|
                if x.state == InteractiveElementState::Selected {
                    Intersection {
                        id: x.id,
                        position: x.position,
                        state: InteractiveElementState::Normal,
                    }
                } else {
                    x
                },
        )
    }

    /// Returns every selected intersection to the normal state.
    pub fn clear_selection(&mut self)
        requires
            old(self).wf(),
        ensures
            final(self).wf(),
            final(self).intersections@ == old(self).deselected(),
            final(self).streets@ == old(self).streets@,
            final(self).districts@ == old(self).districts@,
            final(self).width == old(self).width,
            final(self).height == old(self).height,
    {
        let ghost pre = *self;
        let n = self.intersections.len();
        let mut i: usize = 0;
        while i < n
            invariant
                pre.wf(),
                n == self.intersections@.len(),
                n == pre.intersections@.len(),
                i <= n,
                self.streets@ == pre.streets@,
                self.districts@ == pre.districts@,
                self.width == pre.width,
                self.height == pre.height,
                forall|j: int|
                    i <= j < n ==> #[trigger] self.intersections@[j] == pre.intersections@[j],
                forall|j: int|
                    0 <= j < i ==> #[trigger] self.intersections@[j] == (if pre.intersections@[j].state
                        == InteractiveElementState::Selected {
                        Intersection {
                            id: pre.intersections@[j].id,
                            position: pre.intersections@[j].position,
                            state: InteractiveElementState::Normal,
                        }
                    } else {
                        pre.intersections@[j]
                    }),
            decreases n - i,
        {
            let x = self.intersections[i];
            if x.state == InteractiveElementState::Selected {
                self.intersections.set(
                    i,
                    Intersection {
                        id: x.id,
                        position: x.position,
                        state: InteractiveElementState::Normal,
                    },
                );
            }
            i += 1;
        }
        proof {
            assert(self.intersections@ =~= pre.deselected());
            lemma_same_ids_positions_keeps_wf(pre, *self);
        }
    }

    /// The districts after setting every lot-size parameter to `v`.
    pub open spec fn districts_with_minimum_house_side(self, v: i64) -> Seq<District> {
        self.districts@.map_values(
            |d: District|
                District { id: d.id, polygon: d.polygon, state: d.state, minimum_house_side: v },
        )
    }

    /// Sets the lot-size parameter of every district.
    pub fn set_districts_minimum_house_side(&mut self, v: i64)
        requires
            old(self).wf(),
        ensures
            final(self).wf(),
            final(self).districts@ == old(self).districts_with_minimum_house_side(v),
            final(self).intersections@ == old(self).intersections@,
            final(self).streets@ == old(self).streets@,
            final(self).width == old(self).width,
            final(self).height == old(self).height,
    {
        let ghost pre = *self;
        let n = self.districts.len();
        let mut i: usize = 0;
        while i < n
            invariant
                pre.wf(),
                n == self.districts@.len(),
                n == pre.districts@.len(),
                i <= n,
                self.intersections@ == pre.intersections@,
                self.streets@ == pre.streets@,
                self.width == pre.width,
                self.height == pre.height,
                forall|j: int| i <= j < n ==> #[trigger] self.districts@[j] == pre.districts@[j],
                forall|j: int|
                    0 <= j < i ==> #[trigger] self.districts@[j] == (District {
                        id: pre.districts@[j].id,
                        polygon: pre.districts@[j].polygon,
                        state: pre.districts@[j].state,
                        minimum_house_side: v,
                    }),
            decreases n - i,
        {
            let d = self.districts.remove(i);
            self.districts.insert(
                i,
                District { id: d.id, polygon: d.polygon, state: d.state, minimum_house_side: v },
            );
            proof {
                assert forall|j: int| i + 1 <= j < n implies #[trigger] self.districts@[j]
                    == pre.districts@[j] by {}
            }
            i += 1;
        }
        proof {
            let post = *self;
            assert(post.districts@ =~= pre.districts_with_minimum_house_side(v));
            assert forall|i2: int, j2: int|
                0 <= i2 < j2 < post.districts@.len() implies (#[trigger] post.districts@[i2]).id
                != (#[trigger] post.districts@[j2]).id by {}
            assert forall|i2: int| 0 <= i2 < post.districts@.len() implies (
            #[trigger] post.districts@[i2]).wf() by {
                assert(pre.districts@[i2].wf());
            }
        }
    }
}

/// Filtering keeps a sequence whose elements all pass.
pub proof fn lemma_filter_keep_all<T>(s: Seq<T>, pred: spec_fn(T) -> bool)
    requires
        forall|i: int| 0 <= i < s.len() ==> pred(#[trigger] s[i]),
    ensures
        s.filter(pred) == s,
    decreases s.len(),
{
    reveal(Seq::filter);
    if s.len() > 0 {
        let d = s.drop_last();
        lemma_filter_keep_all(d, pred);
        assert(s.filter(pred) =~= s);
    } else {
        assert(s.filter(pred) =~= s);
    }
}

/// Removing the unique element that fails the predicate is the same as
/// filtering by it.
pub proof fn lemma_remove_unique_is_filter<T>(s: Seq<T>, k: int, pred: spec_fn(T) -> bool)
    requires
        0 <= k < s.len(),
        !pred(s[k]),
        forall|i: int| 0 <= i < s.len() && i != k ==> pred(#[trigger] s[i]),
    ensures
        s.remove(k) == s.filter(pred),
    decreases s.len(),
{
    reveal(Seq::filter);
    if k == s.len() - 1 {
        assert(s.remove(k) =~= s.drop_last());
        lemma_filter_keep_all(s.drop_last(), pred);
    } else {
        let d = s.drop_last();
        lemma_remove_unique_is_filter(d, k, pred);
        assert(s.remove(k) =~= d.remove(k).push(s.last()));
        assert(s.filter(pred) == d.filter(pred).push(s.last()));
        assert(s.remove(k) == s.filter(pred));
    }
}

/// Removing an element that fails the predicate does not change the filtered
/// sequence.
pub proof fn lemma_filter_remove_failing<T>(s: Seq<T>, k: int, pred: spec_fn(T) -> bool)
    requires
        0 <= k < s.len(),
        !pred(s[k]),
    ensures
        s.remove(k).filter(pred) == s.filter(pred),
    decreases s.len(),
{
    reveal(Seq::filter);
    if k == s.len() - 1 {
        assert(s.remove(k) =~= s.drop_last());
    } else {
        let d = s.drop_last();
        lemma_filter_remove_failing(d, k, pred);
        assert(s.remove(k) =~= d.remove(k).push(s.last()));
        assert(s.remove(k).drop_last() =~= d.remove(k));
        assert(s.remove(k).last() == s.last());
        if pred(s.last()) {
            assert(s.remove(k).filter(pred) == d.remove(k).filter(pred).push(s.last()));
            assert(s.filter(pred) == d.filter(pred).push(s.last()));
        } else {
            assert(s.remove(k).filter(pred) == d.remove(k).filter(pred));
            assert(s.filter(pred) == d.filter(pred));
        }
    }
}


/// Updating an element that fails the predicate with another failing value
/// does not change the filtered sequence.
pub proof fn lemma_filter_update_failing<T>(s: Seq<T>, k: int, v: T, pred: spec_fn(T) -> bool)
    requires
        0 <= k < s.len(),
        !pred(s[k]),
        !pred(v),
    ensures
        s.update(k, v).filter(pred) == s.filter(pred),
    decreases s.len(),
{
    reveal(Seq::filter);
    if k == s.len() - 1 {
        assert(s.update(k, v).drop_last() =~= s.drop_last());
    } else {
        let d = s.drop_last();
        lemma_filter_update_failing(d, k, v, pred);
        assert(s.update(k, v).drop_last() =~= d.update(k, v));
        assert(s.update(k, v).last() == s.last());
        if pred(s.last()) {
            assert(s.update(k, v).filter(pred) == d.update(k, v).filter(pred).push(s.last()));
            assert(s.filter(pred) == d.filter(pred).push(s.last()));
        } else {
            assert(s.update(k, v).filter(pred) == d.update(k, v).filter(pred));
            assert(s.filter(pred) == d.filter(pred));
        }
    }
}

/// An element-wise copy of a polygon.
pub fn clone_points(v: &Vec<Point>) -> (r: Vec<Point>)
    ensures
        r@ == v@,
{
    let n = v.len();
    let mut out: Vec<Point> = Vec::new();
    let mut i: usize = 0;
    while i < n
        invariant
            n == v@.len(),
            i <= n,
            out@ == v@.subrange(0, i as int),
        decreases n - i,
    {
        out.push(v[i]);
        proof {
            assert(out@ =~= v@.subrange(0, i as int + 1));
        }
        i += 1;
    }
    proof {
        assert(v@.subrange(0, n as int) =~= v@);
    }
    out
}

/// Whether every vertex of a polygon lies in the world bounds.
pub fn points_all_valid(v: &Vec<Point>) -> (r: bool)
    ensures
        r == forall|i: int| 0 <= i < v@.len() ==> valid_point(#[trigger] v@[i]),
{
    let n = v.len();
    let mut i: usize = 0;
    while i < n
        invariant
            n == v@.len(),
            i <= n,
            forall|j: int| 0 <= j < i ==> valid_point(#[trigger] v@[j]),
        decreases n - i,
    {
        if !crate::geom::point_valid(v[i]) {
            return false;
        }
        i += 1;
    }
    true
}

/// Default lot-size parameter a new district starts with.
pub const DEFAULT_MINIMUM_HOUSE_SIDE: i64 = 500;

/// Relies on `uuid::Uuid::new_v4` and `uuid::Uuid::as_u128`: a freshly drawn
/// random version-4 UUID as its 128-bit value. Nothing is promised of the
/// value beyond being nonzero, which holds because the constructor sets the
/// version and variant bits. Aborts only if the operating system's random
/// source fails.
#[verifier::external_body]
pub(crate) fn fresh_id() -> (r: u128)
    ensures
        r != 0,
{
    uuid::Uuid::new_v4().as_u128()
}

impl Default for StreetMap {
    /// An empty store over the default canvas.
    fn default() -> (r: StreetMap)
        ensures
            r.wf(),
            r.intersections@.len() == 0,
            r.streets@.len() == 0,
            r.districts@.len() == 0,
            r.width == 1920,
            r.height == 1080,
    {
        StreetMap::new(1920, 1080)
    }
}

} // verus!
