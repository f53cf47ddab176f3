//! The player: a kinematic body with vertical thrust toggled by input,
//! constant horizontal auto-scroll, damping, and a hitbox kept in sync with
//! its position.

use vstd::prelude::*;
use crate::geometry::{UNIT, Vec2};
use crate::hitbox::Hitbox;
use crate::num::{div_trunc, div_trunc_i128, lemma_div_trunc_limit};
use crate::world::World;

verus! {

/// Vertical thrust per tick, and also the base horizontal speed, of one
/// world unit per tick.
pub const PLAYER_SPEED: i64 = 1000;

/// Width of the player's hitbox: 32 world units.
pub const PLAYER_WIDTH: i64 = 32_000;

/// Height of the player's hitbox: 24 world units.
pub const PLAYER_HEIGHT: i64 = 24_000;

/// Horizontal speed multiplier a fresh player starts with: 3.5.
pub const START_SPEED_MULT: i64 = 3_500;

/// The damping keeps the vertical velocity within nine world units per tick:
/// from there one tick of thrust followed by damping lands back within it.
pub const VY_LIMIT: i64 = 9_000;

/// Cap for the speed multiplier: portals saturate here instead of
/// overflowing.
pub const MULT_LIMIT: i64 = 1_000_000_000_000_000;

/// How far from the origin the player may be for one more tick of motion
/// and collision checking to stay within machine integers.
pub const POS_LIMIT: i64 = 1_000_000_000_000_000_000;

/// The kinematic state of the player.
#[derive(Clone, Copy, PartialEq, Eq, Structural, Debug)]
pub struct Player {
    pub x: i64,
    pub y: i64,
    pub vy: i64,
    pub is_facing_up: bool,
    pub x_speed_mult: i64,
    pub hitbox: Hitbox,
}

/// The state a player spawns with at `(x, y)`: at rest, facing up (the
/// press that started the run persists), at the starting speed multiplier.
pub open spec fn player_start(x: i64, y: i64) -> Player {
    Player {
        x,
        y,
        vy: 0,
        is_facing_up: true,
        x_speed_mult: START_SPEED_MULT,
        hitbox: Hitbox { x, y, width: PLAYER_WIDTH, height: PLAYER_HEIGHT },
    }
}

impl Player {
    /// The hitbox mirrors the position and has the player's fixed extent;
    /// the velocity is within the damping bound and the multiplier within
    /// its cap.
    pub open spec fn wf(self) -> bool {
        &&& self.hitbox.x == self.x
        &&& self.hitbox.y == self.y
        &&& self.hitbox.width == PLAYER_WIDTH
        &&& self.hitbox.height == PLAYER_HEIGHT
        &&& -VY_LIMIT <= self.vy <= VY_LIMIT
        &&& 0 <= self.x_speed_mult <= MULT_LIMIT
    }

    /// Both coordinates are within `POS_LIMIT`.
    pub open spec fn in_pos_limit(self) -> bool {
        &&& -POS_LIMIT <= self.x <= POS_LIMIT
        &&& -POS_LIMIT <= self.y <= POS_LIMIT
    }

    /// The four corners of the player's hitbox, in the order origin, right,
    /// far, down: the closed quadrilateral the polygon hit test walks.
    pub open spec fn corners(self) -> Seq<Vec2> {
        seq![
            Vec2 { x: self.x, y: self.y },
            Vec2 { x: (self.x + self.hitbox.width) as i64, y: self.y },
            Vec2 {
                x: (self.x + self.hitbox.width) as i64,
                y: (self.y + self.hitbox.height) as i64,
            },
            Vec2 { x: self.x, y: (self.y + self.hitbox.height) as i64 },
        ]
    }

    /// Which way the player faces after this tick's input: an edge-triggered
    /// toggle flips it once per press.
    pub open spec fn toggled(self, toggle: bool) -> bool {
        if toggle {
            !self.is_facing_up
        } else {
            self.is_facing_up
        }
    }

    /// The state after one tick of free motion: flip on input, accelerate
    /// one `PLAYER_SPEED` toward the facing direction, integrate the
    /// position, auto-scroll by the multiplied speed, then damp the vertical
    /// velocity to nine tenths, truncated toward zero.
    pub open spec fn moved(self, toggle: bool) -> Player {
        let facing = self.toggled(toggle);
        let vy_mid = self.vy + if facing {
            -(PLAYER_SPEED as int)
        } else {
            PLAYER_SPEED as int
        };
        let new_y = self.y + vy_mid;
        let new_x = self.x + div_trunc(PLAYER_SPEED * self.x_speed_mult, UNIT as int);
        let new_vy = div_trunc(vy_mid * 9, 10);
        Player {
            x: new_x as i64,
            y: new_y as i64,
            vy: new_vy as i64,
            is_facing_up: facing,
            x_speed_mult: self.x_speed_mult,
            hitbox: Hitbox {
                x: new_x as i64,
                y: new_y as i64,
                width: self.hitbox.width,
                height: self.hitbox.height,
            },
        }
    }

    /// Spawns a player at `(x, y)`.
    pub fn new(x: i64, y: i64) -> (p: Player)
        ensures
            p == player_start(x, y),
            p.wf(),
    {
        Player {
            x,
            y,
            vy: 0,
            is_facing_up: true,
            x_speed_mult: START_SPEED_MULT,
            hitbox: Hitbox::new(x, y, PLAYER_WIDTH, PLAYER_HEIGHT),
        }
    }

    /// One tick of free motion (no hazard in the way): see [`Player::moved`]
    /// for the exact effect.
    pub fn advance(&mut self, toggle: bool)
        requires
            old(self).wf(),
            old(self).in_pos_limit(),
        ensures
            *final(self) == old(self).moved(toggle),
            final(self).wf(),
    {
        if toggle {
            self.is_facing_up = !self.is_facing_up;
        }
        if self.is_facing_up {
            self.vy = self.vy - PLAYER_SPEED;
        } else {
            self.vy = self.vy + PLAYER_SPEED;
        }
        self.y = self.y + self.vy;
        self.hitbox.y = self.y;
        proof {
            let mult = self.x_speed_mult as int;
            assert(0 <= PLAYER_SPEED * mult <= 1_000_000_000_000_000_000) by (nonlinear_arith)
                requires
                    PLAYER_SPEED == 1000,
                    0 <= mult <= 1_000_000_000_000_000,
            ;
            lemma_div_trunc_limit(PLAYER_SPEED * mult, 1000, 1_000_000_000_000_000int);
        }
        let scroll = div_trunc_i128(
            (PLAYER_SPEED as i128) * (self.x_speed_mult as i128),
            UNIT as i128,
        ) as i64;
        self.x = self.x + scroll;
        self.hitbox.x = self.x;
        proof {
            lemma_div_trunc_limit(self.vy as int * 9, 10, 9_000int);
        }
        self.vy = div_trunc_i128((self.vy as i128) * 9, 10) as i64;
    }

    /// One player tick. A hazard overlap kills the player before anything
    /// moves: on the death tick the whole state is exactly as it was.
    /// Otherwise the player moves as [`Player::moved`] says, with `toggle`
    /// true when the flip input fired this tick.
    pub fn update(&mut self, world: &World, toggle: bool) -> (died: bool)
        requires
            old(self).wf(),
            old(self).in_pos_limit(),
            world.wf(),
        ensures
            died == world.hits_player(*old(self)),
            died ==> *final(self) == *old(self),
            !died ==> *final(self) == old(self).moved(toggle),
            final(self).wf(),
    {
        if world.player_hit_check(self) {
            return true;
        }
        self.advance(toggle);
        false
    }
}

} // verus!
