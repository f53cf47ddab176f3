//! Plane geometry on fixed-point coordinates: the 2D cross product, the
//! segment-intersection test, and the even-odd point-in-polygon test.
//!
//! Coordinates are `i64` milliunits. The intersection and containment tests
//! compare exact integer cross products instead of floating-point quotients,
//! so they decide the real-valued conditions without rounding, as long as
//! every coordinate stays within [`GEOM_BOUND`].

use vstd::prelude::*;

verus! {

/// Number of fixed-point steps in one world unit.
pub const UNIT: i64 = 1000;

/// Largest coordinate magnitude the geometry tests accept; differences and
/// cross products of such coordinates fit in `i128`.
pub const GEOM_BOUND: i64 = 4_000_000_000_000_000_000;

/// Largest magnitude a world description may use for a coordinate, size,
/// speed or speed factor: one million world units. Keeps squared distances
/// within `u64` and every step of the motion arithmetic within `i64`.
pub const COORD_LIMIT: i64 = 1_000_000_000;

/// A point or direction in the plane, in milliunits.
#[derive(Clone, Copy, PartialEq, Eq, Structural, Debug)]
pub struct Vec2 {
    pub x: i64,
    pub y: i64,
}

impl Vec2 {
    pub fn new(x: i64, y: i64) -> (v: Vec2)
        ensures
            v.x == x,
            v.y == y,
    {
        Vec2 { x, y }
    }
}

/// Both coordinates of `v` are within `GEOM_BOUND` in magnitude.
pub open spec fn in_geom_bounds(v: Vec2) -> bool {
    -GEOM_BOUND <= v.x <= GEOM_BOUND && -GEOM_BOUND <= v.y <= GEOM_BOUND
}

/// Every vertex of `poly` is within `GEOM_BOUND` in magnitude.
pub open spec fn poly_in_geom_bounds(poly: Seq<Vec2>) -> bool {
    forall|k: int| 0 <= k < poly.len() ==> in_geom_bounds(#[trigger] poly[k])
}

/// The magnitude of a product is bounded by the product of bounds on the
/// factors.
proof fn lemma_mul_bound(x: int, y: int, b: int)
    requires
        -b <= x <= b,
        -b <= y <= b,
        0 <= b,
    ensures
        -(b * b) <= x * y <= b * b,
{
    assert(-(b * b) <= x * y <= b * b) by (nonlinear_arith)
        requires
            -b <= x <= b,
            -b <= y <= b,
            0 <= b;
}

/// The 2D cross product of the vectors `(ax, ay)` and `(bx, by)`.
pub open spec fn cross(ax: int, ay: int, bx: int, by: int) -> int {
    ax * by - ay * bx
}

/// Computes [`cross`] of two directions exactly.
pub fn cross_of(a: Vec2, b: Vec2) -> (r: i128)
    requires
        in_geom_bounds(a),
        in_geom_bounds(b),
    ensures
        r == cross(a.x as int, a.y as int, b.x as int, b.y as int),
{
    proof {
        lemma_mul_bound(a.x as int, b.y as int, GEOM_BOUND as int);
        lemma_mul_bound(a.y as int, b.x as int, GEOM_BOUND as int);
    }
    (a.x as i128) * (b.y as i128) - (a.y as i128) * (b.x as i128)
}

/// `n / d` lies in the closed real interval [0, 1], stated without division.
pub open spec fn ratio_in_unit_interval(n: int, d: int) -> bool {
    if d > 0 {
        0 <= n <= d
    } else {
        d <= n <= 0
    }
}

/// Exact form of the parametric segment test: the closed segments `p1 p2` and
/// `q1 q2` cross in a single point. A parallel or collinear pair — cross
/// product of the directions zero — reports no intersection, even when the
/// segments overlap.
pub open spec fn segments_intersect_at(p1: Vec2, p2: Vec2, q1: Vec2, q2: Vec2) -> bool {
    let rx = p2.x - p1.x;
    let ry = p2.y - p1.y;
    let sx = q2.x - q1.x;
    let sy = q2.y - q1.y;
    let qpx = q1.x - p1.x;
    let qpy = q1.y - p1.y;
    let denom = cross(rx, ry, sx, sy);
    let t_num = cross(qpx, qpy, sx, sy);
    let u_num = cross(qpx, qpy, rx, ry);
    denom != 0 && ratio_in_unit_interval(t_num, denom) && ratio_in_unit_interval(u_num, denom)
}

/// Whether the segments `p1 p2` and `q1 q2` intersect, by Cramer's rule on
/// the parametric form: the quotients `t` and `u` must both lie in [0, 1],
/// decided here by exact integer comparison.
pub fn segments_intersect(p1: Vec2, p2: Vec2, q1: Vec2, q2: Vec2) -> (r: bool)
    requires
        in_geom_bounds(p1),
        in_geom_bounds(p2),
        in_geom_bounds(q1),
        in_geom_bounds(q2),
    ensures
        r == segments_intersect_at(p1, p2, q1, q2),
{
    let rx = p2.x as i128 - p1.x as i128;
    let ry = p2.y as i128 - p1.y as i128;
    let sx = q2.x as i128 - q1.x as i128;
    let sy = q2.y as i128 - q1.y as i128;
    let qpx = q1.x as i128 - p1.x as i128;
    let qpy = q1.y as i128 - p1.y as i128;
    proof {
        lemma_mul_bound(rx as int, sy as int, 2 * GEOM_BOUND as int);
        lemma_mul_bound(ry as int, sx as int, 2 * GEOM_BOUND as int);
        lemma_mul_bound(qpx as int, sy as int, 2 * GEOM_BOUND as int);
        lemma_mul_bound(qpy as int, sx as int, 2 * GEOM_BOUND as int);
        lemma_mul_bound(qpx as int, ry as int, 2 * GEOM_BOUND as int);
        lemma_mul_bound(qpy as int, rx as int, 2 * GEOM_BOUND as int);
    }
    let denom = rx * sy - ry * sx;
    if denom == 0 {
        return false;
    }
    let t_num = qpx * sy - qpy * sx;
    let u_num = qpx * ry - qpy * rx;
    if denom > 0 {
        0 <= t_num && t_num <= denom && 0 <= u_num && u_num <= denom
    } else {
        denom <= t_num && t_num <= 0 && denom <= u_num && u_num <= 0
    }
}

/// Core of the separation argument, on one coordinate axis. An intersection
/// point of the two segments would have `d` times its coordinate equal to
/// both `d * a1 + t * (a2 - a1)` and `d * b1 + u * (b2 - b1)`; when every
/// endpoint of the first segment lies strictly below every endpoint of the
/// second on this axis, those two values cannot meet.
proof fn lemma_sep_core(d: int, t: int, u: int, a1: int, a2: int, b1: int, b2: int)
    requires
        d > 0,
        0 <= t <= d,
        0 <= u <= d,
        t * (a2 - a1) - u * (b2 - b1) == d * (b1 - a1),
    ensures
        !(a1 < b1 && a1 < b2 && a2 < b1 && a2 < b2),
{
    if a1 < b1 && a1 < b2 && a2 < b1 && a2 < b2 {
        let ma = if a1 >= a2 {
            a1
        } else {
            a2
        };
        let mb = if b1 <= b2 {
            b1
        } else {
            b2
        };
        assert(d * a1 + t * (a2 - a1) <= d * ma) by (nonlinear_arith)
            requires
                0 <= t <= d,
                a1 <= ma,
                a2 <= ma,
        ;
        assert(d * b1 + u * (b2 - b1) >= d * mb) by (nonlinear_arith)
            requires
                0 <= u <= d,
                b1 >= mb,
                b2 >= mb,
        ;
        assert(d * a1 + t * (a2 - a1) == d * b1 + u * (b2 - b1)) by (nonlinear_arith)
            requires
                t * (a2 - a1) - u * (b2 - b1) == d * (b1 - a1),
        ;
        assert(d * ma < d * mb) by (nonlinear_arith)
            requires
                d > 0,
                ma < mb,
        ;
        assert(false);
    }
}

/// Two segments cannot intersect when one lies strictly to the side of the
/// other: every endpoint of one strictly left of, right of, below or above
/// every endpoint of the other.
pub proof fn lemma_segments_separated(p1: Vec2, p2: Vec2, q1: Vec2, q2: Vec2)
    requires
        (p1.x < q1.x && p1.x < q2.x && p2.x < q1.x && p2.x < q2.x) || (q1.x < p1.x && q1.x < p2.x
            && q2.x < p1.x && q2.x < p2.x) || (p1.y < q1.y && p1.y < q2.y && p2.y < q1.y && p2.y
            < q2.y) || (q1.y < p1.y && q1.y < p2.y && q2.y < p1.y && q2.y < p2.y),
    ensures
        !segments_intersect_at(p1, p2, q1, q2),
{
    if segments_intersect_at(p1, p2, q1, q2) {
        let rx = p2.x - p1.x as int;
        let ry = p2.y - p1.y as int;
        let sx = q2.x - q1.x as int;
        let sy = q2.y - q1.y as int;
        let qpx = q1.x - p1.x as int;
        let qpy = q1.y - p1.y as int;
        let d = cross(rx, ry, sx, sy);
        let tn = cross(qpx, qpy, sx, sy);
        let un = cross(qpx, qpy, rx, ry);
        // Cramer's rule puts the intersection point on both segments: the
        // scaled parametric forms agree on each axis.
        assert(tn * rx - un * sx == d * qpx) by (nonlinear_arith)
            requires
                d == rx * sy - ry * sx,
                tn == qpx * sy - qpy * sx,
                un == qpx * ry - qpy * rx,
        ;
        assert(tn * ry - un * sy == d * qpy) by (nonlinear_arith)
            requires
                d == rx * sy - ry * sx,
                tn == qpx * sy - qpy * sx,
                un == qpx * ry - qpy * rx,
        ;
        let dd = if d > 0 {
            d
        } else {
            -d
        };
        let tt = if d > 0 {
            tn
        } else {
            -tn
        };
        let uu = if d > 0 {
            un
        } else {
            -un
        };
        assert(dd > 0 && 0 <= tt <= dd && 0 <= uu <= dd);
        assert(tt * rx - uu * sx == dd * qpx && tt * ry - uu * sy == dd * qpy) by (nonlinear_arith)
            requires
                tn * rx - un * sx == d * qpx,
                tn * ry - un * sy == d * qpy,
                (dd == d && tt == tn && uu == un) || (dd == -d && tt == -tn && uu == -un),
        ;
        if p1.x < q1.x && p1.x < q2.x && p2.x < q1.x && p2.x < q2.x {
            lemma_sep_core(dd, tt, uu, p1.x as int, p2.x as int, q1.x as int, q2.x as int);
        } else if q1.x < p1.x && q1.x < p2.x && q2.x < p1.x && q2.x < p2.x {
            assert(uu * sx - tt * rx == dd * (p1.x - q1.x)) by (nonlinear_arith)
                requires
                    tt * rx - uu * sx == dd * qpx,
                    qpx == q1.x - p1.x,
            ;
            lemma_sep_core(dd, uu, tt, q1.x as int, q2.x as int, p1.x as int, p2.x as int);
        } else if p1.y < q1.y && p1.y < q2.y && p2.y < q1.y && p2.y < q2.y {
            lemma_sep_core(dd, tt, uu, p1.y as int, p2.y as int, q1.y as int, q2.y as int);
        } else {
            assert(uu * sy - tt * ry == dd * (p1.y - q1.y)) by (nonlinear_arith)
                requires
                    tt * ry - uu * sy == dd * qpy,
                    qpy == q1.y - p1.y,
            ;
            lemma_sep_core(dd, uu, tt, q1.y as int, q2.y as int, p1.y as int, p2.y as int);
        }
    }
}

/// The horizontal ray from `p` toward positive x crosses the edge from `a`
/// to `b`: the edge spans `p`'s height and `p` lies strictly left of the
/// point where the edge meets that height. Stated by exact cross
/// multiplication; the `>` span test skips horizontal edges.
pub open spec fn ray_hits_edge(p: Vec2, a: Vec2, b: Vec2) -> bool {
    let dy = b.y - a.y;
    ((a.y > p.y) != (b.y > p.y)) && (if dy > 0 {
        (p.x - a.x) * dy < (b.x - a.x) * (p.y - a.y)
    } else {
        (p.x - a.x) * dy > (b.x - a.x) * (p.y - a.y)
    })
}

/// Index of the vertex before `i` in a polygon of `len` vertices, wrapping
/// to the last vertex before the first.
pub open spec fn prev_vertex(len: int, i: int) -> int {
    if i == 0 {
        len - 1
    } else {
        i - 1
    }
}

/// Parity of ray crossings over the first `k` edges of `poly`, where edge
/// `i` joins vertex `i` to the vertex before it.
pub open spec fn crossing_parity(p: Vec2, poly: Seq<Vec2>, k: int) -> bool
    decreases k,
{
    if k <= 0 {
        false
    } else {
        crossing_parity(p, poly, k - 1) != ray_hits_edge(
            p,
            poly[k - 1],
            poly[prev_vertex(poly.len() as int, k - 1)],
        )
    }
}

/// `p` lies inside `poly` by the even-odd rule: a horizontal ray from `p`
/// crosses the boundary an odd number of times. A point exactly on the
/// boundary, a vertex included, may fall on either side, depending on which
/// edges the half-open span test charges the crossing to.
pub open spec fn point_in_polygon_at(p: Vec2, poly: Seq<Vec2>) -> bool {
    crossing_parity(p, poly, poly.len() as int)
}

/// Decides [`ray_hits_edge`] exactly, multiplying out the real-valued
/// comparison against the edge.
fn ray_crosses(p: Vec2, a: Vec2, b: Vec2) -> (r: bool)
    requires
        in_geom_bounds(p),
        in_geom_bounds(a),
        in_geom_bounds(b),
    ensures
        r == ray_hits_edge(p, a, b),
{
    let spans = (a.y > p.y) != (b.y > p.y);
    if !spans {
        return false;
    }
    let dy = b.y as i128 - a.y as i128;
    proof {
        lemma_mul_bound(p.x as int - a.x as int, dy as int, 2 * GEOM_BOUND as int);
        lemma_mul_bound(b.x as int - a.x as int, p.y as int - a.y as int, 2 * GEOM_BOUND as int);
    }
    let lhs = (p.x as i128 - a.x as i128) * dy;
    let rhs = (b.x as i128 - a.x as i128) * (p.y as i128 - a.y as i128);
    if dy > 0 {
        lhs < rhs
    } else {
        lhs > rhs
    }
}

/// Even-odd containment test: walks the edges from each vertex to the one
/// before it, toggling on every ray crossing.
pub fn point_in_polygon(point: Vec2, polygon: &Vec<Vec2>) -> (r: bool)
    requires
        polygon@.len() >= 1,
        in_geom_bounds(point),
        poly_in_geom_bounds(polygon@),
    ensures
        r == point_in_polygon_at(point, polygon@),
{
    let mut inside = false;
    let n = polygon.len();
    let mut j: usize = n - 1;
    for i in 0..n
        invariant
            n == polygon@.len(),
            1 <= n,
            j == prev_vertex(n as int, i as int),
            inside == crossing_parity(point, polygon@, i as int),
            in_geom_bounds(point),
            poly_in_geom_bounds(polygon@),
    {
        let a = polygon[i];
        let b = polygon[j];
        if ray_crosses(point, a, b) {
            inside = !inside;
        }
        j = i;
    }
    inside
}

} // verus!
