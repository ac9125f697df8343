//! Exact integer geometry for the street graph.
//!
//! Positions live on an integer grid bounded by [`MAX_COORD`], so every cross
//! product, squared distance and rational comparison below fits its machine
//! integer and is computed exactly; no floating point is involved.

use vstd::prelude::*;

verus! {

/// The world is a square of side `2 * MAX_COORD`; every coordinate of every
/// element must lie within `[-MAX_COORD, MAX_COORD]`. The bound keeps all
/// derived products (squared cross products times squared lengths) inside
/// `i128`.
pub const MAX_COORD: i64 = 100_000;

/// Bound on a coordinate difference of two valid points.
pub const MAX_DIFF: i64 = 200_000;

/// A position on the integer grid.
#[derive(Clone, Copy, PartialEq, Eq, Structural, Debug)]
pub struct Point {
    pub x: i64,
    pub y: i64,
}

/// Which face of a directed street a trace or a hit test refers to, by the
/// sign of the perpendicular offset from the street's direction.
#[derive(Clone, Copy, PartialEq, Eq, Structural, Debug)]
pub enum Side {
    Left,
    Right,
}

pub open spec fn valid_coord(c: int) -> bool {
    -(MAX_COORD as int) <= c <= MAX_COORD as int
}

pub open spec fn valid_point(p: Point) -> bool {
    valid_coord(p.x as int) && valid_coord(p.y as int)
}

/// 2D cross product of the vectors `(ax, ay)` and `(bx, by)`.
pub open spec fn cross(ax: int, ay: int, bx: int, by: int) -> int {
    ax * by - ay * bx
}

/// Dot product of the vectors `(ax, ay)` and `(bx, by)`.
pub open spec fn dot(ax: int, ay: int, bx: int, by: int) -> int {
    ax * bx + ay * by
}

/// Squared Euclidean distance between two points.
pub open spec fn dist_sq(a: Point, b: Point) -> int {
    (b.x - a.x) * (b.x - a.x) + (b.y - a.y) * (b.y - a.y)
}

/// `p` lies in the axis-aligned rectangle spanned by `min` and `max`,
/// bounds inclusive.
pub open spec fn in_rect(p: Point, min: Point, max: Point) -> bool {
    min.x <= p.x <= max.x && min.y <= p.y <= max.y
}

impl Side {
    pub open spec fn flip_spec(self) -> Side {
        match self {
            Side::Left => Side::Right,
            Side::Right => Side::Left,
        }
    }

    /// The other side.
    pub fn flip(self) -> (r: Side)
        ensures
            r == self.flip_spec(),
    {
        match self {
            Side::Left => Side::Right,
            Side::Right => Side::Left,
        }
    }
}

/// The product of two values bounded by `m` and `n` is bounded by `m * n`.
pub proof fn lemma_mul_bound(a: int, b: int, m: int, n: int)
    requires
        -m <= a <= m,
        -n <= b <= n,
        0 <= m,
        0 <= n,
    ensures
        -(m * n) <= a * b <= m * n,
{
    assert(-(m * n) <= a * b <= m * n) by (nonlinear_arith)
        requires
            -m <= a <= m,
            -n <= b <= n,
            0 <= m,
            0 <= n,
    ;
}

/// A square is non-negative.
pub proof fn lemma_square_nonneg(a: int)
    ensures
        0 <= a * a,
{
    assert(0 <= a * a) by (nonlinear_arith);
}

/// Exact cross product of two difference vectors; the coordinate bound keeps
/// it inside `i64`.
pub fn cross_i64(ax: i64, ay: i64, bx: i64, by: i64) -> (r: i64)
    requires
        -(MAX_DIFF as int) <= ax <= MAX_DIFF as int,
        -(MAX_DIFF as int) <= ay <= MAX_DIFF as int,
        -(MAX_DIFF as int) <= bx <= MAX_DIFF as int,
        -(MAX_DIFF as int) <= by <= MAX_DIFF as int,
    ensures
        r == cross(ax as int, ay as int, bx as int, by as int),
        -80_000_000_000 <= r <= 80_000_000_000,
{
    proof {
        lemma_mul_bound(ax as int, by as int, MAX_DIFF as int, MAX_DIFF as int);
        lemma_mul_bound(ay as int, bx as int, MAX_DIFF as int, MAX_DIFF as int);
    }
    ax * by - ay * bx
}

/// Exact dot product of two difference vectors.
pub fn dot_i64(ax: i64, ay: i64, bx: i64, by: i64) -> (r: i64)
    requires
        -(MAX_DIFF as int) <= ax <= MAX_DIFF as int,
        -(MAX_DIFF as int) <= ay <= MAX_DIFF as int,
        -(MAX_DIFF as int) <= bx <= MAX_DIFF as int,
        -(MAX_DIFF as int) <= by <= MAX_DIFF as int,
    ensures
        r == dot(ax as int, ay as int, bx as int, by as int),
        -80_000_000_000 <= r <= 80_000_000_000,
{
    proof {
        lemma_mul_bound(ax as int, bx as int, MAX_DIFF as int, MAX_DIFF as int);
        lemma_mul_bound(ay as int, by as int, MAX_DIFF as int, MAX_DIFF as int);
    }
    ax * bx + ay * by
}

/// Exact squared distance between two valid points.
pub fn dist_sq_i64(a: Point, b: Point) -> (r: i64)
    requires
        valid_point(a),
        valid_point(b),
    ensures
        r == dist_sq(a, b),
        0 <= r <= 80_000_000_000,
{
    let dx = b.x - a.x;
    let dy = b.y - a.y;
    proof {
        lemma_mul_bound(dx as int, dx as int, MAX_DIFF as int, MAX_DIFF as int);
        lemma_mul_bound(dy as int, dy as int, MAX_DIFF as int, MAX_DIFF as int);
        lemma_square_nonneg(dx as int);
        lemma_square_nonneg(dy as int);
    }
    dx * dx + dy * dy
}

/// Whether `p` lies in the axis-aligned rectangle spanned by `min` and `max`.
pub fn point_in_rect(p: Point, min: Point, max: Point) -> (r: bool)
    ensures
        r == in_rect(p, min, max),
{
    min.x <= p.x && p.x <= max.x && min.y <= p.y && p.y <= max.y
}

/// Componentwise minimum and maximum of two corners: the normalized
/// axis-aligned rectangle they span.
pub fn normalize_rect(a: Point, b: Point) -> (r: (Point, Point))
    ensures
        r.0.x == if a.x <= b.x { a.x } else { b.x },
        r.0.y == if a.y <= b.y { a.y } else { b.y },
        r.1.x == if a.x <= b.x { b.x } else { a.x },
        r.1.y == if a.y <= b.y { b.y } else { a.y },
        forall|p: Point| in_rect(p, r.0, r.1) <==> #[trigger] in_rect_corners(p, a, b),
{
    let min = Point {
        x: if a.x <= b.x { a.x } else { b.x },
        y: if a.y <= b.y { a.y } else { b.y },
    };
    let max = Point {
        x: if a.x <= b.x { b.x } else { a.x },
        y: if a.y <= b.y { b.y } else { a.y },
    };
    (min, max)
}

/// `p` lies between the two corners `a` and `b` on both axes, in whichever
/// order the corners come.
pub open spec fn in_rect_corners(p: Point, a: Point, b: Point) -> bool {
    (if a.x <= b.x { a.x <= p.x <= b.x } else { b.x <= p.x <= a.x })
    && (if a.y <= b.y { a.y <= p.y <= b.y } else { b.y <= p.y <= a.y })
}

/// Which face of the directed segment `a -> b` the point `p` lies on: `Left`
/// for a positive cross product of the segment direction with the vector from
/// `a` to `p`, `Right` otherwise (points exactly on the carrier line count as
/// `Right`).
pub open spec fn side_of(a: Point, b: Point, p: Point) -> Side {
    if cross(b.x - a.x, b.y - a.y, p.x - a.x, p.y - a.y) > 0 {
        Side::Left
    } else {
        Side::Right
    }
}

/// Exact side test for valid points.
pub fn side_of_segment(a: Point, b: Point, p: Point) -> (r: Side)
    requires
        valid_point(a),
        valid_point(b),
        valid_point(p),
    ensures
        r == side_of(a, b, p),
{
    let c = cross_i64(b.x - a.x, b.y - a.y, p.x - a.x, p.y - a.y);
    if c > 0 {
        Side::Left
    } else {
        Side::Right
    }
}

/// Numerator of the exact squared distance from `p` to the segment `[a, b]`:
/// the squared distance to the nearer endpoint when the perpendicular foot
/// falls outside the segment, else the squared cross product (over the
/// squared segment length as denominator).
pub open spec fn seg_dist_sq_num(p: Point, a: Point, b: Point) -> int {
    let t = dot(b.x - a.x, b.y - a.y, p.x - a.x, p.y - a.y);
    if t <= 0 {
        dist_sq(p, a)
    } else if t >= dist_sq(a, b) {
        dist_sq(p, b)
    } else {
        cross(b.x - a.x, b.y - a.y, p.x - a.x, p.y - a.y) * cross(
            b.x - a.x,
            b.y - a.y,
            p.x - a.x,
            p.y - a.y,
        )
    }
}

/// Denominator of the exact squared distance from `p` to the segment.
pub open spec fn seg_dist_sq_den(p: Point, a: Point, b: Point) -> int {
    let t = dot(b.x - a.x, b.y - a.y, p.x - a.x, p.y - a.y);
    if t <= 0 || t >= dist_sq(a, b) {
        1
    } else {
        dist_sq(a, b)
    }
}

/// The rational `num / den` is no greater than the rational `num2 / den2`
/// (both denominators positive).
pub open spec fn rat_le(num: int, den: int, num2: int, den2: int) -> bool {
    num * den2 <= num2 * den
}

/// Transitivity of the rational order (denominators positive).
pub proof fn lemma_rat_le_trans(n1: int, d1: int, n2: int, d2: int, n3: int, d3: int)
    requires
        d1 > 0,
        d2 > 0,
        d3 > 0,
        n1 * d2 <= n2 * d1,
        n2 * d3 <= n3 * d2,
    ensures
        n1 * d3 <= n3 * d1,
{
    assert(n1 * d3 <= n3 * d1) by (nonlinear_arith)
        requires
            d1 > 0,
            d2 > 0,
            d3 > 0,
            n1 * d2 <= n2 * d1,
            n2 * d3 <= n3 * d2,
    ;
}

/// A strictly smaller rational stays strictly smaller across a larger third
/// (denominators positive).
pub proof fn lemma_rat_lt_le_trans(n1: int, d1: int, n2: int, d2: int, n3: int, d3: int)
    requires
        d1 > 0,
        d2 > 0,
        d3 > 0,
        n1 * d2 < n2 * d1,
        n2 * d3 <= n3 * d2,
    ensures
        n1 * d3 < n3 * d1,
{
    assert(n1 * d3 < n3 * d1) by (nonlinear_arith)
        requires
            d1 > 0,
            d2 > 0,
            d3 > 0,
            n1 * d2 < n2 * d1,
            n2 * d3 <= n3 * d2,
    ;
}

/// Exact squared point-to-segment distance as a rational `num / den`.
pub fn seg_dist_sq_rat(p: Point, a: Point, b: Point) -> (r: (i128, i128))
    requires
        valid_point(p),
        valid_point(a),
        valid_point(b),
    ensures
        r.0 == seg_dist_sq_num(p, a, b),
        r.1 == seg_dist_sq_den(p, a, b),
        0 <= r.0 <= 6_400_000_000_000_000_000_000,
        1 <= r.1 <= 80_000_000_000,
{
    let t = dot_i64(b.x - a.x, b.y - a.y, p.x - a.x, p.y - a.y);
    let d = dist_sq_i64(a, b);
    if t <= 0 {
        (dist_sq_i64(p, a) as i128, 1)
    } else if t >= d {
        (dist_sq_i64(p, b) as i128, 1)
    } else {
        let c = cross_i64(b.x - a.x, b.y - a.y, p.x - a.x, p.y - a.y);
        proof {
            lemma_mul_bound(c as int, c as int, 80_000_000_000, 80_000_000_000);
            lemma_square_nonneg(c as int);
        }
        ((c as i128) * (c as i128), d as i128)
    }
}

/// The horizontal ray from `p` towards positive x crosses the edge from `a`
/// to `b` (the classic even-odd crossing rule; the edge is half-open in y, so
/// a ray through a shared vertex counts the two incident edges once).
pub open spec fn edge_crosses(p: Point, a: Point, b: Point) -> bool {
    ((a.y > p.y) != (b.y > p.y)) && (if b.y > a.y {
        cross(b.x - a.x, b.y - a.y, p.x - a.x, p.y - a.y) > 0
    } else {
        cross(b.x - a.x, b.y - a.y, p.x - a.x, p.y - a.y) < 0
    })
}

/// Number of polygon edges from index `i` on that the ray from `p` crosses;
/// the edge after the last vertex closes the ring back to the first.
pub open spec fn crossings_from(p: Point, ring: Seq<Point>, i: int) -> int
    decreases ring.len() - i,
{
    if i < 0 || i >= ring.len() {
        0
    } else {
        let nxt = if i + 1 == ring.len() {
            ring[0]
        } else {
            ring[i + 1]
        };
        (if edge_crosses(p, ring[i], nxt) {
            1int
        } else {
            0int
        }) + crossings_from(p, ring, i + 1)
    }
}

/// Even-odd test of `p` against the closed ring (first vertex not repeated at
/// the end); a ring of fewer than three vertices contains nothing.
pub open spec fn point_in_polygon(p: Point, ring: Seq<Point>) -> bool {
    ring.len() >= 3 && (crossings_from(p, ring, 0) % 2) == 1
}

/// Exact even-odd containment test of a point against a polygon ring.
pub fn point_in_polygon_exec(p: Point, ring: &Vec<Point>) -> (r: bool)
    requires
        valid_point(p),
        forall|i: int| 0 <= i < ring@.len() ==> valid_point(#[trigger] ring@[i]),
    ensures
        r == point_in_polygon(p, ring@),
{
    let n = ring.len();
    if n < 3 {
        return false;
    }
    let mut cnt: usize = 0;
    let mut i: usize = 0;
    while i < n
        invariant
            n == ring@.len(),
            3 <= n,
            i <= n,
            cnt <= i,
            valid_point(p),
            forall|k: int| 0 <= k < ring@.len() ==> valid_point(#[trigger] ring@[k]),
            crossings_from(p, ring@, 0) == cnt + crossings_from(p, ring@, i as int),
        decreases n - i,
    {
        let a = ring[i];
        let b = if i + 1 == n {
            ring[0]
        } else {
            ring[i + 1]
        };
        let straddles = (a.y > p.y) != (b.y > p.y);
        if straddles {
            let c = cross_i64(b.x - a.x, b.y - a.y, p.x - a.x, p.y - a.y);
            if (b.y > a.y && c > 0) || (b.y <= a.y && c < 0) {
                cnt += 1;
            }
        }
        i += 1;
    }
    cnt % 2 == 1
}

/// Whether a street leaving the shared endpoint along `w` can continue a face
/// walk arriving along `u` on the given walk side: it must turn strictly to
/// that side, or continue straight ahead. A candidate doubling straight back
/// bounds no face on either side.
pub open spec fn turn_eligible(side: Side, ux: int, uy: int, wx: int, wy: int) -> bool {
    let c = cross(ux, uy, wx, wy);
    let d = dot(ux, uy, wx, wy);
    match side {
        Side::Left => c > 0 || (c == 0 && d > 0),
        Side::Right => c < 0 || (c == 0 && d > 0),
    }
}

/// Among two eligible continuations, whether `w` bounds the face more tightly
/// than the incumbent `b`: a strict turn beats going straight ahead, and
/// between two strict turns the one hugging the walked side closer wins
/// (within one half-plane the counterclockwise order is decided by the cross
/// product).
pub open spec fn turn_better(
    side: Side,
    ux: int,
    uy: int,
    bx: int,
    by: int,
    wx: int,
    wy: int,
) -> bool {
    let cb = cross(ux, uy, bx, by);
    let cw = cross(ux, uy, wx, wy);
    if cb == 0 {
        cw != 0
    } else if cw == 0 {
        false
    } else {
        match side {
            Side::Left => cross(bx, by, wx, wy) > 0,
            Side::Right => cross(bx, by, wx, wy) < 0,
        }
    }
}

/// Exact eligibility test for a face-walk continuation.
pub fn turn_eligible_exec(side: Side, ux: i64, uy: i64, wx: i64, wy: i64) -> (r: bool)
    requires
        -(MAX_DIFF as int) <= ux <= MAX_DIFF as int,
        -(MAX_DIFF as int) <= uy <= MAX_DIFF as int,
        -(MAX_DIFF as int) <= wx <= MAX_DIFF as int,
        -(MAX_DIFF as int) <= wy <= MAX_DIFF as int,
    ensures
        r == turn_eligible(side, ux as int, uy as int, wx as int, wy as int),
{
    let c = cross_i64(ux, uy, wx, wy);
    let d = dot_i64(ux, uy, wx, wy);
    match side {
        Side::Left => c > 0 || (c == 0 && d > 0),
        Side::Right => c < 0 || (c == 0 && d > 0),
    }
}

/// Exact preference test between two face-walk continuations.
pub fn turn_better_exec(side: Side, ux: i64, uy: i64, bx: i64, by: i64, wx: i64, wy: i64) -> (r:
    bool)
    requires
        -(MAX_DIFF as int) <= ux <= MAX_DIFF as int,
        -(MAX_DIFF as int) <= uy <= MAX_DIFF as int,
        -(MAX_DIFF as int) <= bx <= MAX_DIFF as int,
        -(MAX_DIFF as int) <= by <= MAX_DIFF as int,
        -(MAX_DIFF as int) <= wx <= MAX_DIFF as int,
        -(MAX_DIFF as int) <= wy <= MAX_DIFF as int,
    ensures
        r == turn_better(side, ux as int, uy as int, bx as int, by as int, wx as int, wy as int),
{
    let cb = cross_i64(ux, uy, bx, by);
    let cw = cross_i64(ux, uy, wx, wy);
    if cb == 0 {
        cw != 0
    } else if cw == 0 {
        false
    } else {
        let cbw = cross_i64(bx, by, wx, wy);
        match side {
            Side::Left => cbw > 0,
            Side::Right => cbw < 0,
        }
    }
}

/// Whether a point lies in the world bounds.
pub fn point_valid(p: Point) -> (r: bool)
    ensures
        r == valid_point(p),
{
    -MAX_COORD <= p.x && p.x <= MAX_COORD && -MAX_COORD <= p.y && p.y <= MAX_COORD
}

} // verus!
