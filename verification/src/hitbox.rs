//! Collision shapes: the axis-aligned rectangle and the simple polygon.

use vstd::prelude::*;
use crate::geometry::{
    in_geom_bounds, lemma_segments_separated, poly_in_geom_bounds, segments_intersect,
    segments_intersect_at, Vec2,
};

verus! {

/// An axis-aligned rectangle with origin corner `(x, y)`, in milliunits.
#[derive(Clone, Copy, PartialEq, Eq, Structural, Debug)]
pub struct Hitbox {
    pub x: i64,
    pub y: i64,
    pub width: i64,
    pub height: i64,
}

impl Hitbox {
    /// A hitbox has positive extent on both axes.
    pub open spec fn wf(self) -> bool {
        self.width > 0 && self.height > 0
    }

    /// Open-interval overlap: rectangles that share only a boundary edge do
    /// not overlap.
    pub open spec fn overlaps(self, other: Hitbox) -> bool {
        self.x < other.x + other.width && self.x + self.width > other.x && self.y < other.y
            + other.height && self.y + self.height > other.y
    }

    pub fn new(x: i64, y: i64, width: i64, height: i64) -> (h: Hitbox)
        requires
            width > 0,
            height > 0,
        ensures
            h == (Hitbox { x, y, width, height }),
            h.wf(),
    {
        Hitbox { x, y, width, height }
    }

    /// Whether two hitboxes overlap, with strict comparisons on every side:
    /// touching edges do not collide.
    pub fn collides(&self, other: &Hitbox) -> (r: bool)
        ensures
            r == self.overlaps(*other),
    {
        (self.x as i128) < (other.x as i128) + (other.width as i128)
            && (self.x as i128) + (self.width as i128) > (other.x as i128)
            && (self.y as i128) < (other.y as i128) + (other.height as i128)
            && (self.y as i128) + (self.height as i128) > (other.y as i128)
    }

    /// The origin corner.
    pub fn get_pos(&self) -> (v: Vec2)
        ensures
            v.x == self.x,
            v.y == self.y,
    {
        Vec2 { x: self.x, y: self.y }
    }
}

/// Hitbox overlap does not depend on the order of the two rectangles.
pub proof fn lemma_overlaps_symmetric(a: Hitbox, b: Hitbox)
    ensures
        a.overlaps(b) == b.overlaps(a),
{
}

/// Two hitboxes that share only a boundary — one ending exactly where the
/// other begins, on either axis and in either order — do not overlap: the
/// overlap test is strict on every side.
pub proof fn lemma_touching_hitboxes_do_not_overlap(a: Hitbox, b: Hitbox)
    requires
        a.x + a.width == b.x || b.x + b.width == a.x || a.y + a.height == b.y || b.y + b.height
            == a.y,
    ensures
        !a.overlaps(b),
        !b.overlaps(a),
{
}

/// Edge `i` of the closed polygon `a` crosses edge `j` of `b`, where edge
/// `i` joins vertex `i` to the vertex after it, wrapping at the end.
pub open spec fn edges_cross_at(a: Seq<Vec2>, b: Seq<Vec2>, i: int, j: int) -> bool {
    segments_intersect_at(
        a[i],
        a[(i + 1) % a.len() as int],
        b[j],
        b[(j + 1) % b.len() as int],
    )
}

/// Some edge of `a` crosses some edge of `b`. This is a boundary-crossing
/// test only: a polygon strictly inside another crosses no edge.
pub open spec fn polys_edges_cross(a: Seq<Vec2>, b: Seq<Vec2>) -> bool {
    exists|i: int, j: int|
        0 <= i < a.len() && 0 <= j < b.len() && #[trigger] edges_cross_at(a, b, i, j)
}

/// The distance `t` is larger than any difference between two x coordinates
/// of `p`'s vertices: a shift by `t` clears the polygon's horizontal extent.
pub open spec fn exceeds_x_spread(p: Seq<Vec2>, t: int) -> bool {
    forall|i: int, j: int|
        #![trigger p[i], p[j]]
        0 <= i < p.len() && 0 <= j < p.len() ==> t > p[i].x - p[j].x
}

/// The vertical counterpart of [`exceeds_x_spread`].
pub open spec fn exceeds_y_spread(p: Seq<Vec2>, t: int) -> bool {
    forall|i: int, j: int|
        #![trigger p[i], p[j]]
        0 <= i < p.len() && 0 <= j < p.len() ==> t > p[i].y - p[j].y
}

/// A polygon never reports a collision with a copy of itself translated
/// clear past its own extent: when the shift along one axis is larger (in
/// either direction) than the polygon's spread on that axis, no edge of the
/// copy crosses an edge of the original. A translation longer than the
/// bounding-box diagonal always exceeds the spread on at least one axis.
pub proof fn lemma_polygon_misses_far_copy(p: Seq<Vec2>, q: Seq<Vec2>, tx: int, ty: int)
    requires
        p.len() >= 1,
        q.len() == p.len(),
        forall|i: int|
            0 <= i < p.len() ==> (#[trigger] q[i]).x == p[i].x + tx && q[i].y == p[i].y + ty,
        exceeds_x_spread(p, tx) || exceeds_x_spread(p, -tx) || exceeds_y_spread(p, ty)
            || exceeds_y_spread(p, -ty),
    ensures
        !polys_edges_cross(p, q),
{
    if polys_edges_cross(p, q) {
        let (i, j): (int, int) = choose|i: int, j: int|
            0 <= i < p.len() && 0 <= j < q.len() && edges_cross_at(p, q, i, j);
        let i2 = (i + 1) % p.len() as int;
        let j2 = (j + 1) % q.len() as int;
        assert(0 <= i2 < p.len());
        assert(0 <= j2 < q.len());
        let a1 = p[i];
        let a2 = p[i2];
        let b1 = q[j];
        let b2 = q[j2];
        assert(segments_intersect_at(a1, a2, b1, b2));
        // Each endpoint of the copied edge is the matching original vertex
        // shifted by the translation, which outruns any difference between
        // two original coordinates; so the two edges sit strictly apart on
        // the wide axis, in the direction of the shift.
        if exceeds_x_spread(p, tx) {
            assert(a1.x < b1.x && a1.x < b2.x && a2.x < b1.x && a2.x < b2.x);
        } else if exceeds_x_spread(p, -tx) {
            assert(b1.x < a1.x && b1.x < a2.x && b2.x < a1.x && b2.x < a2.x);
        } else if exceeds_y_spread(p, ty) {
            assert(a1.y < b1.y && a1.y < b2.y && a2.y < b1.y && a2.y < b2.y);
        } else {
            assert(b1.y < a1.y && b1.y < a2.y && b2.y < a1.y && b2.y < a2.y);
        }
        lemma_segments_separated(a1, a2, b1, b2);
        assert(false);
    }
}

/// A simple closed polygon: vertices in order, each joined to the next and
/// the last back to the first.
#[derive(Clone, PartialEq, Eq, Debug)]
pub struct PolygonHitbox {
    pub points: Vec<Vec2>,
}

impl PolygonHitbox {
    /// At least three vertices, all within the geometry bounds.
    pub open spec fn wf(self) -> bool {
        self.points@.len() >= 3 && poly_in_geom_bounds(self.points@)
    }

    pub fn new(points: Vec<Vec2>) -> (p: PolygonHitbox)
        ensures
            p.points == points,
    {
        PolygonHitbox { points }
    }

    /// Whether any edge of `self` crosses any edge of `other`. Full
    /// containment without an edge crossing reports no collision.
    pub fn collides(&self, other: &PolygonHitbox) -> (r: bool)
        requires
            self.points@.len() >= 1,
            other.points@.len() >= 1,
            poly_in_geom_bounds(self.points@),
            poly_in_geom_bounds(other.points@),
        ensures
            r == polys_edges_cross(self.points@, other.points@),
    {
        let n = self.points.len();
        let m = other.points.len();
        for i in 0..n
            invariant
                n == self.points@.len(),
                m == other.points@.len(),
                1 <= n,
                1 <= m,
                poly_in_geom_bounds(self.points@),
                poly_in_geom_bounds(other.points@),
                forall|i2: int, j2: int|
                    0 <= i2 < i && 0 <= j2 < m ==> !#[trigger] edges_cross_at(
                        self.points@,
                        other.points@,
                        i2,
                        j2,
                    ),
        {
            let p1 = self.points[i];
            let p2 = self.points[(i + 1) % n];
            for j in 0..m
                invariant
                    n == self.points@.len(),
                    m == other.points@.len(),
                    1 <= n,
                    1 <= m,
                    i < n,
                    p1 == self.points@[i as int],
                    p2 == self.points@[(i + 1) % n as int],
                    poly_in_geom_bounds(self.points@),
                    poly_in_geom_bounds(other.points@),
                    forall|i2: int, j2: int|
                        0 <= i2 < i && 0 <= j2 < m ==> !#[trigger] edges_cross_at(
                            self.points@,
                            other.points@,
                            i2,
                            j2,
                        ),
                    forall|j2: int|
                        0 <= j2 < j ==> !#[trigger] edges_cross_at(
                            self.points@,
                            other.points@,
                            i as int,
                            j2,
                        ),
            {
                let q1 = other.points[j];
                let q2 = other.points[(j + 1) % m];
                if segments_intersect(p1, p2, q1, q2) {
                    proof {
                        assert(edges_cross_at(self.points@, other.points@, i as int, j as int));
                    }
                    return true;
                }
                proof {
                    assert(!edges_cross_at(self.points@, other.points@, i as int, j as int));
                }
            }
        }
        false
    }
}

} // verus!
