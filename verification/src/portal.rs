//! A one-shot trigger volume that scales the player's horizontal speed on
//! first contact and then stays spent until the world resets it.

use vstd::prelude::*;
use crate::geometry::{COORD_LIMIT, UNIT};
use crate::hitbox::Hitbox;
use vstd::arithmetic::div_mod::lemma_div_pos_is_pos;
use crate::num::div_trunc;
use crate::player::{MULT_LIMIT, Player};

verus! {

/// Width of a portal volume: 64 world units.
pub const PORTAL_WIDTH: i64 = 64_000;

/// Height of a portal volume: 128 world units.
pub const PORTAL_HEIGHT: i64 = 128_000;

/// A speed portal: a fixed volume, a multiplicative speed factor, and a
/// latch that turns the effect off after the first contact.
#[derive(Clone, Copy, PartialEq, Eq, Structural, Debug)]
pub struct SpeedPortal {
    pub used: bool,
    pub speed_change: i64,
    pub hitbox: Hitbox,
}

/// The player's multiplier scaled by the portal factor (both fixed-point),
/// truncated toward zero and saturated at [`MULT_LIMIT`].
pub open spec fn boosted_mult(mult: int, change: int) -> int {
    let v = div_trunc(mult * change, UNIT as int);
    if v > MULT_LIMIT {
        MULT_LIMIT as int
    } else {
        v
    }
}

/// What one portal does to itself and the player in one tick: on overlap
/// with an unspent portal the multiplier is boosted and the latch set; a
/// spent portal, or no overlap, changes nothing.
pub open spec fn portal_step(portal: SpeedPortal, p: Player) -> (SpeedPortal, Player) {
    if p.hitbox.overlaps(portal.hitbox) && !portal.used {
        (
            SpeedPortal { used: true, speed_change: portal.speed_change, hitbox: portal.hitbox },
            Player {
                x: p.x,
                y: p.y,
                vy: p.vy,
                is_facing_up: p.is_facing_up,
                x_speed_mult: boosted_mult(p.x_speed_mult as int, portal.speed_change as int) as i64,
                hitbox: p.hitbox,
            },
        )
    } else {
        (portal, p)
    }
}

impl SpeedPortal {
    /// The volume sits within the world coordinate limit, has the fixed
    /// portal extent, and carries a nonnegative bounded factor.
    pub open spec fn wf(self) -> bool {
        &&& -COORD_LIMIT <= self.hitbox.x <= COORD_LIMIT
        &&& -COORD_LIMIT <= self.hitbox.y <= COORD_LIMIT
        &&& self.hitbox.width == PORTAL_WIDTH
        &&& self.hitbox.height == PORTAL_HEIGHT
        &&& 0 <= self.speed_change <= COORD_LIMIT
    }

    /// Builds an unspent portal at `(x, y)`.
    pub fn new(x: i64, y: i64, speed_change: i64) -> (s: SpeedPortal)
        requires
            -COORD_LIMIT <= x <= COORD_LIMIT,
            -COORD_LIMIT <= y <= COORD_LIMIT,
            0 <= speed_change <= COORD_LIMIT,
        ensures
            s == (SpeedPortal {
                used: false,
                speed_change,
                hitbox: Hitbox { x, y, width: PORTAL_WIDTH, height: PORTAL_HEIGHT },
            }),
            s.wf(),
    {
        SpeedPortal {
            used: false,
            speed_change,
            hitbox: Hitbox::new(x, y, PORTAL_WIDTH, PORTAL_HEIGHT),
        }
    }

    /// One tick of the portal: exactly [`portal_step`].
    pub fn update(&mut self, player: &mut Player)
        requires
            old(self).wf(),
            old(player).wf(),
        ensures
            (*final(self), *final(player)) == portal_step(*old(self), *old(player)),
            final(self).wf(),
            final(player).wf(),
    {
        if player.hitbox.collides(&self.hitbox) {
            if self.used {
                return ;
            }
            proof {
                assert(0 <= (player.x_speed_mult as int) * (self.speed_change as int)
                    <= 1_000_000_000_000_000_000_000_000) by (nonlinear_arith)
                    requires
                        0 <= player.x_speed_mult <= 1_000_000_000_000_000,
                        0 <= self.speed_change <= 1_000_000_000,
                ;
            }
            let prod = (player.x_speed_mult as u128) * (self.speed_change as u128);
            let q = prod / (UNIT as u128);
            player.x_speed_mult = if q > (MULT_LIMIT as u128) {
                MULT_LIMIT
            } else {
                q as i64
            };
            self.used = true;
        }
    }
}

/// A portal fires exactly once: the first overlapping tick boosts the
/// multiplier and sets the latch, any later tick leaves portal and player
/// alone whatever the player's state, and only a reset of the latch lets the
/// boost happen again.
pub proof fn lemma_portal_one_shot(portal: SpeedPortal, p: Player, later: Player)
    requires
        portal.wf(),
        p.wf(),
        later.wf(),
        p.hitbox.overlaps(portal.hitbox),
        !portal.used,
    ensures
        portal_step(portal, p).1.x_speed_mult == boosted_mult(
            p.x_speed_mult as int,
            portal.speed_change as int,
        ),
        portal_step(portal, p).0.used,
        portal_step(portal_step(portal, p).0, later) == (portal_step(portal, p).0, later),
        later.hitbox.overlaps(portal.hitbox) ==> portal_step(
            SpeedPortal {
                used: false,
                speed_change: portal.speed_change,
                hitbox: portal.hitbox,
            },
            later,
        ).1.x_speed_mult == boosted_mult(later.x_speed_mult as int, portal.speed_change as int),
{
    let c = portal.speed_change as int;
    assert(p.x_speed_mult * c >= 0 && later.x_speed_mult * c >= 0) by (nonlinear_arith)
        requires
            p.x_speed_mult >= 0,
            later.x_speed_mult >= 0,
            c >= 0,
    ;
    lemma_div_pos_is_pos(p.x_speed_mult * c, UNIT as int);
    lemma_div_pos_is_pos(later.x_speed_mult * c, UNIT as int);
}

} // verus!
