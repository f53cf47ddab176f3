//! The session controller: runs the per-tick loop of one play session and
//! owns the counters that outlive a death — attempts, score and best score.
//! On death the player respawns at the origin and the portal latches reset;
//! the world geometry persists.

use vstd::prelude::*;
use crate::moving::ticked;
use crate::player::{player_start, Player};
use crate::portal::SpeedPortal;
use crate::world::{apply_portals, reset_all, World};

verus! {

/// What one tick of the session ends in.
#[derive(Clone, Copy, PartialEq, Eq, Structural, Debug)]
pub enum TickOutcome {
    Alive,
    Died,
}

/// One play session: the player, the world it runs through, and the
/// counters shown around the playfield. The score counts ticks survived in
/// the current attempt.
pub struct Session {
    pub player: Player,
    pub world: World,
    pub attempts: u32,
    pub score: u32,
    pub best_score: u32,
}

impl Session {
    pub open spec fn wf(self) -> bool {
        &&& self.player.wf()
        &&& self.world.wf()
    }

    /// The portal latches this tick's world update starts from: reset when
    /// the player just died, untouched otherwise.
    pub open spec fn mid_portals(self, died: bool) -> Seq<SpeedPortal> {
        if died {
            reset_all(self.world.speed_increases@)
        } else {
            self.world.speed_increases@
        }
    }

    /// The player this tick's world update starts from: respawned at the
    /// origin on death, moved normally otherwise.
    pub open spec fn mid_player(self, died: bool, toggle: bool) -> Player {
        if died {
            player_start(0, 0)
        } else {
            self.player.moved(toggle)
        }
    }

    /// Starts a session on `world` with a fresh player and zeroed counters.
    pub fn new(world: World) -> (s: Session)
        requires
            world.wf(),
        ensures
            s.player == player_start(0, 0),
            s.world == world,
            s.attempts == 0,
            s.score == 0,
            s.best_score == 0,
            s.wf(),
    {
        Session { player: Player::new(0, 0), world, attempts: 0, score: 0, best_score: 0 }
    }

    /// One tick of the whole game: the player checks hazards and moves (or
    /// dies and respawns, resetting the portal latches and the score), then
    /// the world advances its platforms and applies its portals, and the
    /// counters tick up. The hazard check runs before the world moves, so
    /// it sees the platforms where the previous tick left them.
    pub fn tick(&mut self, toggle: bool) -> (outcome: TickOutcome)
        requires
            old(self).wf(),
            old(self).player.in_pos_limit(),
            old(self).score < u32::MAX,
            old(self).attempts < u32::MAX,
        ensures
            final(self).wf(),
            (outcome == TickOutcome::Died) == old(self).world.hits_player(old(self).player),
            final(self).world.objects == old(self).world.objects,
            final(self).world.poly_objects == old(self).world.poly_objects,
            final(self).world.moving_objects@.len() == old(self).world.moving_objects@.len(),
            forall|i: int|
                0 <= i < old(self).world.moving_objects@.len() ==> ticked(
                    old(self).world.moving_objects@[i],
                    #[trigger] final(self).world.moving_objects@[i],
                ),
            ({
                let died = old(self).world.hits_player(old(self).player);
                let run = apply_portals(
                    old(self).mid_portals(died),
                    old(self).mid_player(died, toggle),
                );
                &&& final(self).world.speed_increases@ == run.0
                &&& final(self).player == run.1
            }),
            ({
                let died = old(self).world.hits_player(old(self).player);
                &&& final(self).attempts == if died {
                    old(self).attempts + 1
                } else {
                    old(self).attempts as int
                }
                &&& final(self).score == if died {
                    1int
                } else {
                    old(self).score + 1
                }
                &&& final(self).best_score == if final(self).score > old(self).best_score {
                    final(self).score as int
                } else {
                    old(self).best_score as int
                }
            }),
    {
        let died = self.player.update(&self.world, toggle);
        if died {
            self.player = Player::new(0, 0);
            self.world.reset_portals();
            self.attempts = self.attempts + 1;
            self.score = 0;
            proof {
                assert(self.world.speed_increases@ =~= reset_all(
                    old(self).world.speed_increases@,
                ));
            }
        }
        self.world.update(&mut self.player);
        self.score = self.score + 1;
        if self.score > self.best_score {
            self.best_score = self.score;
        }
        if died {
            TickOutcome::Died
        } else {
            TickOutcome::Alive
        }
    }
}

} // verus!
