//! A platform that oscillates along the straight segment between two
//! endpoints at constant speed, reversing whenever it reaches or passes
//! either end.

use vstd::prelude::*;
use vstd::arithmetic::div_mod::{
    lemma_div_is_ordered, lemma_div_multiples_vanish, lemma_div_nonincreasing,
    lemma_div_pos_is_pos,
};
use vstd::arithmetic::mul::{lemma_mul_inequality, lemma_mul_nonnegative};
use crate::geometry::{COORD_LIMIT, Vec2};
use crate::hitbox::Hitbox;
use crate::num::{div_trunc, div_trunc_i128, isqrt, lemma_sqrt_floor_bounds, sqrt_floor};

verus! {

/// A hitbox moving back and forth between `from` and `to`.
///
/// `step` caches the per-tick displacement: the direction `to - from`
/// normalized by the floor square root of its squared length and scaled by
/// `speed`, each component truncated toward zero. The hitbox position is
/// always `from` plus an integer multiple of `step`.
#[derive(Clone, PartialEq, Eq, Structural, Debug)]
pub struct MovingObject {
    pub from: Vec2,
    pub to: Vec2,
    pub speed: i64,
    pub forward: bool,
    pub step: Vec2,
    pub hitbox: Hitbox,
}

impl MovingObject {
    /// Squared length of the segment `from`–`to`.
    pub open spec fn span_sq(self) -> int {
        (self.to.x - self.from.x) * (self.to.x - self.from.x) + (self.to.y - self.from.y) * (
        self.to.y - self.from.y)
    }

    /// Floor of the segment length.
    pub open spec fn span(self) -> int {
        sqrt_floor(self.span_sq())
    }

    /// The per-tick displacement along x that the motion parameters call for.
    pub open spec fn step_x_of(self) -> int {
        div_trunc((self.to.x - self.from.x) * self.speed, self.span())
    }

    /// The per-tick displacement along y that the motion parameters call for.
    pub open spec fn step_y_of(self) -> int {
        div_trunc((self.to.y - self.from.y) * self.speed, self.span())
    }

    /// Squared length of one step.
    pub open spec fn step_sq(self) -> int {
        self.step.x * self.step.x + self.step.y * self.step.y
    }

    /// Squared distance of the hitbox corner from `from`.
    pub open spec fn offset_sq(self) -> int {
        (self.hitbox.x - self.from.x) * (self.hitbox.x - self.from.x) + (self.hitbox.y
            - self.from.y) * (self.hitbox.y - self.from.y)
    }

    /// The motion parameters are valid: distinct endpoints within the world
    /// coordinate limit, a nonnegative speed, a positive hitbox extent, and
    /// a `step` that matches them.
    pub open spec fn params_wf(self) -> bool {
        &&& -COORD_LIMIT <= self.from.x <= COORD_LIMIT
        &&& -COORD_LIMIT <= self.from.y <= COORD_LIMIT
        &&& -COORD_LIMIT <= self.to.x <= COORD_LIMIT
        &&& -COORD_LIMIT <= self.to.y <= COORD_LIMIT
        &&& !(self.from.x == self.to.x && self.from.y == self.to.y)
        &&& 0 <= self.speed <= COORD_LIMIT
        &&& 0 < self.hitbox.width <= COORD_LIMIT
        &&& 0 < self.hitbox.height <= COORD_LIMIT
        &&& self.step.x == self.step_x_of()
        &&& self.step.y == self.step_y_of()
    }

    /// The hitbox sits `k` steps from `from`, and `k` respects the travel
    /// rule: moving forward it has not yet left the segment, and moving
    /// backward it left by at most one step before turning.
    pub open spec fn offset_ok(self, k: int) -> bool {
        &&& self.hitbox.x == self.from.x + k * self.step.x
        &&& self.hitbox.y == self.from.y + k * self.step.y
        &&& k >= 0
        &&& self.forward ==> (k == 0 || k * k * self.step_sq() < self.span_sq())
        &&& !self.forward ==> (k >= 1 && (k == 1 || (k - 1) * (k - 1) * self.step_sq()
            < self.span_sq()))
    }

    pub open spec fn wf(self) -> bool {
        &&& self.params_wf()
        &&& exists|k: int| self.offset_ok(k)
    }

    /// What the direction flag becomes when the squared offset after a move
    /// is `cur_sq`: turn back at or beyond the far end, turn forward again
    /// at the near end, keep going otherwise.
    pub open spec fn flip_rule(self, cur_sq: int) -> bool {
        if cur_sq >= self.span_sq() {
            false
        } else if cur_sq <= 0 {
            true
        } else {
            self.forward
        }
    }
}

/// One tick of platform motion relates `pre` to `post`: the parameters stay,
/// the hitbox moves one step along the current direction, and the direction
/// flag follows [`MovingObject::flip_rule`] on the new offset.
pub open spec fn ticked(pre: MovingObject, post: MovingObject) -> bool {
    &&& post.from == pre.from
    &&& post.to == pre.to
    &&& post.speed == pre.speed
    &&& post.step == pre.step
    &&& post.hitbox.width == pre.hitbox.width
    &&& post.hitbox.height == pre.hitbox.height
    &&& pre.forward ==> post.hitbox.x == pre.hitbox.x + pre.step.x && post.hitbox.y
        == pre.hitbox.y + pre.step.y
    &&& !pre.forward ==> post.hitbox.x == pre.hitbox.x - pre.step.x && post.hitbox.y
        == pre.hitbox.y - pre.step.y
    &&& post.forward == pre.flip_rule(post.offset_sq())
}

/// Squares are at least zero, at least one for a nonzero factor, bounded by
/// the square of a bound on the factor's magnitude; a square below a square
/// pins the factor into the open interval.
proof fn lemma_square_facts(a: int, b: int)
    ensures
        a * a >= 0,
        a != 0 ==> a * a >= 1,
        (-b <= a <= b && 0 <= b) ==> a * a <= b * b,
        (a * a < b * b && 0 <= b) ==> -b < a < b,
{
    assert(a * a >= 0 && (a != 0 ==> a * a >= 1) && ((-b <= a <= b && 0 <= b) ==> a * a <= b * b)
        && ((a * a < b * b && 0 <= b) ==> -b < a < b)) by (nonlinear_arith);
}

/// One component of the step is bounded by the speed, because the span is
/// at least the magnitude of the matching endpoint difference.
proof fn lemma_step_component_bound(dc: int, speed: int, d: int, span_sq: int)
    requires
        1 <= span_sq,
        d == sqrt_floor(span_sq),
        1 <= d,
        dc * dc <= span_sq,
        0 <= speed,
    ensures
        -speed <= div_trunc(dc * speed, d) <= speed,
{
    lemma_sqrt_floor_bounds(span_sq);
    // span_sq < (d + 1)^2 and dc^2 <= span_sq, so |dc| < d + 1, so |dc| <= d.
    lemma_square_facts(dc, d + 1);
    assert(-(d + 1) < dc < d + 1);
    if dc >= 0 {
        let a = dc * speed;
        lemma_mul_nonnegative(dc, speed);
        lemma_mul_inequality(dc, d, speed);
        lemma_div_pos_is_pos(a, d);
        lemma_div_is_ordered(a, d * speed, d);
        lemma_div_multiples_vanish(speed, d);
        assert(div_trunc(a, d) == a / d);
    } else {
        let a = dc * speed;
        assert(-(dc * speed) == (-dc) * speed && dc * speed <= 0) by (nonlinear_arith)
            requires
                dc < 0,
                speed >= 0,
        ;
        lemma_mul_inequality(-dc, d, speed);
        lemma_div_pos_is_pos(-a, d);
        lemma_div_is_ordered(-a, d * speed, d);
        lemma_div_multiples_vanish(speed, d);
        if a == 0 {
            lemma_div_pos_is_pos(0, d);
            lemma_div_nonincreasing(0, d);
        }
    }
}

/// For valid parameters: the squared span is at least one and at most
/// `8e18`, the span is at least one, and each step component is bounded by
/// the speed.
proof fn lemma_step_bound(m: MovingObject)
    requires
        m.params_wf(),
    ensures
        1 <= m.span_sq() <= 8_000_000_000_000_000_000,
        1 <= m.span(),
        -m.speed <= m.step.x <= m.speed,
        -m.speed <= m.step.y <= m.speed,
{
    let dx = m.to.x - m.from.x;
    let dy = m.to.y - m.from.y;
    assert(1 <= m.span_sq() <= 8_000_000_000_000_000_000 && dx * dx <= m.span_sq() && dy * dy
        <= m.span_sq()) by (nonlinear_arith)
        requires
            -2_000_000_000 <= dx <= 2_000_000_000,
            -2_000_000_000 <= dy <= 2_000_000_000,
            dx != 0 || dy != 0,
            m.span_sq() == dx * dx + dy * dy,
    ;
    lemma_sqrt_floor_bounds(m.span_sq());
    if m.span() == 0 {
        assert((m.span() + 1) * (m.span() + 1) == 1) by (nonlinear_arith)
            requires m.span() == 0;
        assert(false);
    }
    lemma_step_component_bound(dx, m.speed as int, m.span(), m.span_sq());
    lemma_step_component_bound(dy, m.speed as int, m.span(), m.span_sq());
}

/// Bound for `k` scaled copies of one step component `sc` under the travel
/// rule: the offset along either axis stays within four coordinate limits.
proof fn lemma_scaled_component_bound(m: MovingObject, k: int, sc: int)
    requires
        m.params_wf(),
        m.offset_ok(k),
        -m.speed <= sc <= m.speed,
        sc == m.step.x || sc == m.step.y,
        1 <= m.span_sq() <= 8_000_000_000_000_000_000,
    ensures
        -4_000_000_000 <= k * sc <= 4_000_000_000,
{
    let ss = m.step_sq();
    let q = m.span_sq();
    lemma_square_facts(m.step.x as int, 0);
    lemma_square_facts(m.step.y as int, 0);
    assert(sc * sc <= ss);
    if k == 0 {
        assert(k * sc == 0) by (nonlinear_arith)
            requires k == 0;
    } else if k == 1 {
        assert(k * sc == sc) by (nonlinear_arith)
            requires k == 1;
    } else {
        // Either k steps (going forward) or k - 1 steps (already turned)
        // stay strictly within the span; one more step adds at most the
        // speed, which is at most one coordinate limit.
        let j = if m.forward {
            k
        } else {
            k - 1
        };
        assert(j * j * ss < q);
        assert((j * sc) * (j * sc) <= j * j * ss) by (nonlinear_arith)
            requires
                sc * sc <= ss,
        ;
        assert(q < 3_000_000_000int * 3_000_000_000int) by (nonlinear_arith)
            requires
                q <= 8_000_000_000_000_000_000,
        ;
        lemma_square_facts(j * sc, 3_000_000_000int);
        assert(-3_000_000_000 < j * sc < 3_000_000_000);
        if !m.forward {
            assert(k * sc == j * sc + sc) by (nonlinear_arith)
                requires j == k - 1;
        }
    }
}

/// A valid offset keeps each coordinate of the hitbox within four coordinate
/// limits of `from`.
proof fn lemma_offset_bound(m: MovingObject, k: int)
    requires
        m.params_wf(),
        m.offset_ok(k),
    ensures
        -4_000_000_000 <= k * m.step.x <= 4_000_000_000,
        -4_000_000_000 <= k * m.step.y <= 4_000_000_000,
{
    lemma_step_bound(m);
    lemma_scaled_component_bound(m, k, m.step.x as int);
    lemma_scaled_component_bound(m, k, m.step.y as int);
}

/// The hitbox of a well-formed moving object lies on the step lattice from
/// `from` and never leaves the `from`–`to` segment by more than one tick's
/// displacement: retreating a single step always lands within the span.
pub proof fn lemma_within_one_step_of_span(m: MovingObject)
    requires
        m.wf(),
    ensures
        exists|k: int|
            {
                &&& #[trigger] m.offset_ok(k)
                &&& k <= 1 || (k - 1) * (k - 1) * m.step_sq() < m.span_sq()
            },
{
    let k = choose|kk: int| m.offset_ok(kk);
    lemma_step_bound(m);
    if k > 1 && m.forward {
        // Going forward the whole offset is within the span, so one step
        // less surely is.
        lemma_square_facts(m.step.x as int, 0);
        lemma_square_facts(m.step.y as int, 0);
        assert((k - 1) * (k - 1) * m.step_sq() <= k * k * m.step_sq()) by (nonlinear_arith)
            requires
                k > 1,
                m.step_sq() >= 0,
        ;
    }
    assert(m.offset_ok(k) && (k <= 1 || (k - 1) * (k - 1) * m.step_sq() < m.span_sq()));
}

impl MovingObject {
    /// Builds a platform at `from`, moving toward `to`.
    pub fn new(from: Vec2, to: Vec2, width: i64, height: i64, speed: i64) -> (m: MovingObject)
        requires
            -COORD_LIMIT <= from.x <= COORD_LIMIT,
            -COORD_LIMIT <= from.y <= COORD_LIMIT,
            -COORD_LIMIT <= to.x <= COORD_LIMIT,
            -COORD_LIMIT <= to.y <= COORD_LIMIT,
            !(from.x == to.x && from.y == to.y),
            0 <= speed <= COORD_LIMIT,
            0 < width <= COORD_LIMIT,
            0 < height <= COORD_LIMIT,
        ensures
            m.wf(),
            m.from == from,
            m.to == to,
            m.speed == speed,
            m.forward == true,
            m.hitbox == (Hitbox { x: from.x, y: from.y, width, height }),
    {
        let dx = to.x - from.x;
        let dy = to.y - from.y;
        proof {
            assert(1 <= dx * dx + dy * dy <= 8_000_000_000_000_000_000 && dx * dx <= dx * dx + dy
                * dy && dy * dy <= dx * dx + dy * dy && 0 <= dx * dx
                <= 4_000_000_000_000_000_000 && 0 <= dy * dy
                <= 4_000_000_000_000_000_000) by (nonlinear_arith)
                requires
                    -2_000_000_000 <= dx <= 2_000_000_000,
                    -2_000_000_000 <= dy <= 2_000_000_000,
                    dx != 0 || dy != 0,
            ;
        }
        let span_sq: u64 = ((dx as i128) * (dx as i128) + (dy as i128) * (dy as i128)) as u64;
        let d = isqrt(span_sq);
        proof {
            lemma_sqrt_floor_bounds(span_sq as int);
            if d == 0 {
                assert((d + 1) * (d + 1) == 1) by (nonlinear_arith)
                    requires d == 0;
                assert(false);
            }
            assert(-2_000_000_000_000_000_000 <= (dx as int) * (speed as int)
                <= 2_000_000_000_000_000_000 && -2_000_000_000_000_000_000 <= (dy as int) * (
            speed as int) <= 2_000_000_000_000_000_000) by (nonlinear_arith)
                requires
                    -2_000_000_000 <= dx <= 2_000_000_000,
                    -2_000_000_000 <= dy <= 2_000_000_000,
                    0 <= speed <= 1_000_000_000,
            ;
            lemma_step_component_bound(dx as int, speed as int, d as int, span_sq as int);
            lemma_step_component_bound(dy as int, speed as int, d as int, span_sq as int);
        }
        let step_x = div_trunc_i128((dx as i128) * (speed as i128), d as i128) as i64;
        let step_y = div_trunc_i128((dy as i128) * (speed as i128), d as i128) as i64;
        let m = MovingObject {
            from,
            to,
            speed,
            forward: true,
            step: Vec2 { x: step_x, y: step_y },
            hitbox: Hitbox { x: from.x, y: from.y, width, height },
        };
        proof {
            assert(0 * m.step.x == 0 && 0 * m.step.y == 0) by (nonlinear_arith);
            assert(m.offset_ok(0));
        }
        m
    }

    /// One tick of motion: move one `step` along the current direction, then
    /// turn around at (or beyond) `to`, and forward again back at `from`.
    /// The flip compares exact squared distances, so an overshoot of less
    /// than one step still turns the platform.
    pub fn update(&mut self)
        requires
            old(self).wf(),
        ensures
            final(self).wf(),
            ticked(*old(self), *final(self)),
    {
        proof {
            lemma_step_bound(*old(self));
        }
        let ghost k = choose|kk: int| old(self).offset_ok(kk);
        proof {
            assert(old(self).offset_ok(k));
            lemma_offset_bound(*old(self), k);
        }
        let sx = self.step.x;
        let sy = self.step.y;
        let ghost k2: int = if old(self).forward {
            k + 1
        } else {
            k - 1
        };
        proof {
            assert((k + 1) * sx == k * sx + sx && (k - 1) * sx == k * sx - sx && (k + 1) * sy == k
                * sy + sy && (k - 1) * sy == k * sy - sy) by (nonlinear_arith);
        }
        if self.forward {
            self.hitbox.x = self.hitbox.x + sx;
            self.hitbox.y = self.hitbox.y + sy;
        } else {
            self.hitbox.x = self.hitbox.x - sx;
            self.hitbox.y = self.hitbox.y - sy;
        }
        proof {
            assert(self.hitbox.x == self.from.x + k2 * sx);
            assert(self.hitbox.y == self.from.y + k2 * sy);
            lemma_square_facts(self.hitbox.x - self.from.x, 5_000_000_000int);
            lemma_square_facts(self.hitbox.y - self.from.y, 5_000_000_000int);
            lemma_square_facts(self.to.x - self.from.x, 2_000_000_000int);
            lemma_square_facts(self.to.y - self.from.y, 2_000_000_000int);
        }
        let ox = self.hitbox.x as i128 - self.from.x as i128;
        let oy = self.hitbox.y as i128 - self.from.y as i128;
        let cur_sq = ox * ox + oy * oy;
        let dx = self.to.x as i128 - self.from.x as i128;
        let dy = self.to.y as i128 - self.from.y as i128;
        let span_sq = dx * dx + dy * dy;
        if cur_sq >= span_sq {
            self.forward = false;
        } else if cur_sq == 0 {
            self.forward = true;
        }
        proof {
            let ss = old(self).step_sq();
            let q = old(self).span_sq();
            lemma_square_facts(sx as int, 0);
            lemma_square_facts(sy as int, 0);
            assert((k2 * sx) * (k2 * sx) + (k2 * sy) * (k2 * sy) == k2 * k2 * (sx * sx + sy
                * sy)) by (nonlinear_arith);
            assert(cur_sq == k2 * k2 * ss);
            if cur_sq >= q {
                if !old(self).forward {
                    // Moving back, one step toward `from` cannot reach the
                    // span again.
                    if k == 1 {
                        assert(cur_sq == 0) by (nonlinear_arith)
                            requires
                                k2 == 0,
                                cur_sq == k2 * k2 * ss,
                        ;
                    }
                    assert(false);
                }
            } else if cur_sq == 0 {
            } else {
                if !old(self).forward {
                    if k2 == 0 {
                        assert(cur_sq == 0) by (nonlinear_arith)
                            requires
                                k2 == 0,
                                cur_sq == k2 * k2 * ss,
                        ;
                        assert(false);
                    }
                    if k2 >= 2 {
                        assert((k2 - 1) * (k2 - 1) * ss <= (k - 1) * (k - 1) * ss)
                            by (nonlinear_arith)
                            requires
                                k2 == k - 1,
                                k2 >= 2,
                                ss >= 0,
                        ;
                    }
                }
            }
            assert(self.offset_ok(k2));
            assert(self.wf());
        }
    }
}

} // verus!
