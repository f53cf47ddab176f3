//! The world: static rectangle hazards, polygon hazards, moving platforms
//! and speed portals, with the per-tick update and the player hazard query.

use vstd::prelude::*;
use crate::geometry::{COORD_LIMIT, Vec2};
use crate::hitbox::{polys_edges_cross, Hitbox, PolygonHitbox};
use crate::moving::{ticked, MovingObject};
use crate::player::Player;
use crate::portal::{portal_step, SpeedPortal, PORTAL_HEIGHT, PORTAL_WIDTH};

verus! {

/// A static rectangle hazard lies within the world limit and has positive,
/// bounded extent.
pub open spec fn hitbox_valid(h: Hitbox) -> bool {
    &&& -COORD_LIMIT <= h.x <= COORD_LIMIT
    &&& -COORD_LIMIT <= h.y <= COORD_LIMIT
    &&& 0 < h.width <= COORD_LIMIT
    &&& 0 < h.height <= COORD_LIMIT
}

/// A polygon hazard has at least three vertices, all within the world limit.
pub open spec fn poly_valid(p: PolygonHitbox) -> bool {
    &&& p.points@.len() >= 3
    &&& forall|k: int|
        0 <= k < p.points@.len() ==> -COORD_LIMIT <= (#[trigger] p.points@[k]).x <= COORD_LIMIT
            && -COORD_LIMIT <= p.points@[k].y <= COORD_LIMIT
}

/// Every portal of `portals` with its latch cleared.
pub open spec fn reset_all(portals: Seq<SpeedPortal>) -> Seq<SpeedPortal> {
    portals.map_values(
        |p: SpeedPortal| SpeedPortal { used: false, speed_change: p.speed_change, hitbox: p.hitbox },
    )
}

/// The portals of `portals`, applied to the player in order: each may latch
/// and boost once, handing the changed player to the next.
pub open spec fn apply_portals(portals: Seq<SpeedPortal>, p: Player) -> (Seq<SpeedPortal>, Player)
    decreases portals.len(),
{
    if portals.len() == 0 {
        (portals, p)
    } else {
        let head = apply_portals(portals.drop_last(), p);
        let stepped = portal_step(portals.last(), head.1);
        (head.0.push(stepped.0), stepped.1)
    }
}

/// The whole playfield of one session.
#[derive(Debug)]
pub struct World {
    pub objects: Vec<Hitbox>,
    pub poly_objects: Vec<PolygonHitbox>,
    pub moving_objects: Vec<MovingObject>,
    pub speed_increases: Vec<SpeedPortal>,
}

impl World {
    /// Every hazard in the world is valid.
    pub open spec fn wf(self) -> bool {
        &&& forall|i: int|
            0 <= i < self.objects@.len() ==> hitbox_valid(#[trigger] self.objects@[i])
        &&& forall|i: int|
            0 <= i < self.poly_objects@.len() ==> poly_valid(#[trigger] self.poly_objects@[i])
        &&& forall|i: int|
            0 <= i < self.moving_objects@.len() ==> (#[trigger] self.moving_objects@[i]).wf()
        &&& forall|i: int|
            0 <= i < self.speed_increases@.len() ==> (#[trigger] self.speed_increases@[i]).wf()
    }

    /// The player overlaps a hazard: a static rectangle, a polygon whose
    /// boundary crosses the player's boundary, or a moving platform at its
    /// current position. Portals are not hazards.
    pub open spec fn hits_player(self, p: Player) -> bool {
        ||| exists|i: int|
            0 <= i < self.objects@.len() && p.hitbox.overlaps(#[trigger] self.objects@[i])
        ||| exists|i: int|
            0 <= i < self.poly_objects@.len() && polys_edges_cross(
                (#[trigger] self.poly_objects@[i]).points@,
                p.corners(),
            )
        ||| exists|i: int|
            0 <= i < self.moving_objects@.len() && p.hitbox.overlaps(
                (#[trigger] self.moving_objects@[i]).hitbox,
            )
    }

    /// Whether the player's hitbox currently overlaps any hazard; the
    /// polygon test walks the four corners of the player against each
    /// polygon's edges.
    pub fn player_hit_check(&self, player: &Player) -> (r: bool)
        requires
            self.wf(),
            player.wf(),
            player.in_pos_limit(),
        ensures
            r == self.hits_player(*player),
    {
        let n = self.objects.len();
        for i in 0..n
            invariant
                n == self.objects@.len(),
                forall|j: int|
                    0 <= j < i ==> !player.hitbox.overlaps(#[trigger] self.objects@[j]),
        {
            if player.hitbox.collides(&self.objects[i]) {
                proof {
                    assert(player.hitbox.overlaps(self.objects@[i as int]));
                }
                return true;
            }
        }
        let right = player.x + player.hitbox.width;
        let bottom = player.y + player.hitbox.height;
        let mut corner_points: Vec<Vec2> = Vec::new();
        corner_points.push(Vec2 { x: player.x, y: player.y });
        corner_points.push(Vec2 { x: right, y: player.y });
        corner_points.push(Vec2 { x: right, y: bottom });
        corner_points.push(Vec2 { x: player.x, y: bottom });
        proof {
            assert(corner_points@ =~= player.corners());
        }
        let player_poly = PolygonHitbox::new(corner_points);
        let np = self.poly_objects.len();
        for i in 0..np
            invariant
                np == self.poly_objects@.len(),
                self.wf(),
                player_poly.points@ == player.corners(),
                player_poly.points@.len() == 4,
                forall|k: int|
                    0 <= k < player_poly.points@.len() ==> crate::geometry::in_geom_bounds(
                        #[trigger] player_poly.points@[k],
                    ),
                forall|j: int|
                    0 <= j < i ==> !polys_edges_cross(
                        (#[trigger] self.poly_objects@[j]).points@,
                        player.corners(),
                    ),
        {
            proof {
                assert(poly_valid(self.poly_objects@[i as int]));
                assert forall|k: int|
                    0 <= k < self.poly_objects@[i as int].points@.len() implies
                    crate::geometry::in_geom_bounds(
                        #[trigger] self.poly_objects@[i as int].points@[k],
                    ) by {}
            }
            if self.poly_objects[i].collides(&player_poly) {
                proof {
                    assert(polys_edges_cross(
                        self.poly_objects@[i as int].points@,
                        player.corners(),
                    ));
                }
                return true;
            }
        }
        let nm = self.moving_objects.len();
        for i in 0..nm
            invariant
                nm == self.moving_objects@.len(),
                forall|j: int|
                    0 <= j < i ==> !player.hitbox.overlaps(
                        (#[trigger] self.moving_objects@[j]).hitbox,
                    ),
        {
            if player.hitbox.collides(&self.moving_objects[i].hitbox) {
                proof {
                    assert(player.hitbox.overlaps(self.moving_objects@[i as int].hitbox));
                }
                return true;
            }
        }
        false
    }

    /// One world tick: every moving platform advances one step, then every
    /// portal acts on the player in order. The hazard query is not part of
    /// this: the player checks hazards before the world moves, so a death
    /// check always sees the world as the previous tick left it.
    pub fn update(&mut self, player: &mut Player)
        requires
            old(self).wf(),
            old(player).wf(),
        ensures
            final(self).wf(),
            final(player).wf(),
            final(self).objects == old(self).objects,
            final(self).poly_objects == old(self).poly_objects,
            final(self).moving_objects@.len() == old(self).moving_objects@.len(),
            forall|i: int|
                0 <= i < old(self).moving_objects@.len() ==> ticked(
                    old(self).moving_objects@[i],
                    #[trigger] final(self).moving_objects@[i],
                ),
            final(self).speed_increases@ == apply_portals(
                old(self).speed_increases@,
                *old(player),
            ).0,
            *final(player) == apply_portals(old(self).speed_increases@, *old(player)).1,
    {
        let n = self.moving_objects.len();
        for i in 0..n
            invariant
                n == self.moving_objects@.len(),
                n == old(self).moving_objects@.len(),
                self.objects == old(self).objects,
                self.poly_objects == old(self).poly_objects,
                self.speed_increases == old(self).speed_increases,
                old(self).wf(),
                forall|j: int|
                    0 <= j < i ==> ticked(
                        old(self).moving_objects@[j],
                        #[trigger] self.moving_objects@[j],
                    ),
                forall|j: int| 0 <= j < i ==> (#[trigger] self.moving_objects@[j]).wf(),
                forall|j: int|
                    i <= j < n ==> #[trigger] self.moving_objects@[j] == old(
                        self,
                    ).moving_objects@[j],
        {
            proof {
                assert(self.moving_objects@[i as int] == old(self).moving_objects@[i as int]);
                assert(old(self).moving_objects@[i as int].wf());
            }
            self.moving_objects[i].update();
        }
        let ghost portals0 = self.speed_increases@;
        let ghost player0 = *player;
        let ghost movers_done = self.moving_objects@;
        proof {
            assert(portals0 == old(self).speed_increases@);
            assert(forall|j: int|
                0 <= j < n ==> ticked(old(self).moving_objects@[j], #[trigger] movers_done[j]));
            assert(forall|j: int| 0 <= j < n ==> (#[trigger] movers_done[j]).wf());
        }
        let m = self.speed_increases.len();
        for i in 0..m
            invariant
                m == self.speed_increases@.len(),
                m == portals0.len(),
                portals0 == old(self).speed_increases@,
                self.objects == old(self).objects,
                self.poly_objects == old(self).poly_objects,
                self.moving_objects@ == movers_done,
                old(self).wf(),
                player.wf(),
                forall|j: int|
                    i <= j < m ==> #[trigger] self.speed_increases@[j] == portals0[j],
                forall|j: int| 0 <= j < i ==> (#[trigger] self.speed_increases@[j]).wf(),
                self.speed_increases@.take(i as int) == apply_portals(
                    portals0.take(i as int),
                    player0,
                ).0,
                *player == apply_portals(portals0.take(i as int), player0).1,
        {
            proof {
                assert(portals0.take(i + 1).drop_last() =~= portals0.take(i as int));
                assert(portals0.take(i + 1).last() == portals0[i as int]);
                assert(self.speed_increases@[i as int] == old(self).speed_increases@[i as int]);
                assert(old(self).speed_increases@[i as int].wf());
            }
            let ghost before = self.speed_increases@;
            self.speed_increases[i].update(player);
            proof {
                assert(self.speed_increases@.take(i + 1) =~= before.take(i as int).push(
                    self.speed_increases@[i as int],
                ));
            }
        }
        proof {
            assert(portals0.take(m as int) =~= portals0);
            assert(self.speed_increases@.take(m as int) =~= self.speed_increases@);
        }
    }

    /// Clears every portal latch, as a respawn does; the geometry and the
    /// platforms stay as they are.
    pub fn reset_portals(&mut self)
        requires
            old(self).wf(),
        ensures
            final(self).wf(),
            final(self).objects == old(self).objects,
            final(self).poly_objects == old(self).poly_objects,
            final(self).moving_objects == old(self).moving_objects,
            final(self).speed_increases@.len() == old(self).speed_increases@.len(),
            forall|i: int|
                0 <= i < old(self).speed_increases@.len()
                    ==> #[trigger] final(self).speed_increases@[i] == (SpeedPortal {
                    used: false,
                    speed_change: old(self).speed_increases@[i].speed_change,
                    hitbox: old(self).speed_increases@[i].hitbox,
                }),
    {
        let m = self.speed_increases.len();
        for i in 0..m
            invariant
                m == self.speed_increases@.len(),
                m == old(self).speed_increases@.len(),
                self.objects == old(self).objects,
                self.poly_objects == old(self).poly_objects,
                self.moving_objects == old(self).moving_objects,
                old(self).wf(),
                forall|j: int|
                    i <= j < m ==> #[trigger] self.speed_increases@[j] == old(
                        self,
                    ).speed_increases@[j],
                forall|j: int|
                    0 <= j < i ==> #[trigger] self.speed_increases@[j] == (SpeedPortal {
                        used: false,
                        speed_change: old(self).speed_increases@[j].speed_change,
                        hitbox: old(self).speed_increases@[j].hitbox,
                    }),
                forall|j: int| 0 <= j < i ==> (#[trigger] self.speed_increases@[j]).wf(),
        {
            proof {
                assert(self.speed_increases@[i as int] == old(self).speed_increases@[i as int]);
                assert(old(self).speed_increases@[i as int].wf());
            }
            let sp = self.speed_increases[i];
            self.speed_increases.set(
                i,
                SpeedPortal { used: false, speed_change: sp.speed_change, hitbox: sp.hitbox },
            );
        }
    }

    /// The built-in default world: two long floors, two pillars, one
    /// five-sided polygon block, three moving platforms, and one portal
    /// that doubles the horizontal speed.
    pub fn new() -> (w: World)
        ensures
            w.wf(),
            w.objects@ == seq![
                Hitbox { x: 0, y: 250_000, width: 5_000_000, height: 50_000 },
                Hitbox { x: 0, y: -300_000i64, width: 5_000_000, height: 50_000 },
                Hitbox { x: 500_000, y: 15_000, width: 50_000, height: 235_000 },
                Hitbox { x: 625_000, y: -250_000i64, width: 50_000, height: 235_000 },
            ],
            w.poly_objects@.len() == 1,
            w.poly_objects@[0].points@ == seq![
                Vec2 { x: 775_000, y: -80_000i64 },
                Vec2 { x: 775_000, y: 250_000 },
                Vec2 { x: 1_075_000, y: 250_000 },
                Vec2 { x: 1_075_000, y: 0 },
                Vec2 { x: 975_000, y: -80_000i64 },
            ],
            w.moving_objects@.len() == 3,
            w.moving_objects@[0].from == (Vec2 { x: 1_100_000, y: -225_000i64 }),
            w.moving_objects@[0].to == (Vec2 { x: 1_200_000, y: 150_000 }),
            w.moving_objects@[0].speed == 3_000,
            w.moving_objects@[0].forward,
            w.moving_objects@[0].hitbox == (Hitbox {
                x: 1_100_000,
                y: -225_000i64,
                width: 50_000,
                height: 100_000,
            }),
            w.moving_objects@[1].from == (Vec2 { x: 1_300_000, y: 150_000 }),
            w.moving_objects@[1].to == (Vec2 { x: 1_400_000, y: -225_000i64 }),
            w.moving_objects@[1].speed == 3_000,
            w.moving_objects@[1].forward,
            w.moving_objects@[1].hitbox == (Hitbox {
                x: 1_300_000,
                y: 150_000,
                width: 50_000,
                height: 100_000,
            }),
            w.moving_objects@[2].from == (Vec2 { x: 1_500_000, y: 0 }),
            w.moving_objects@[2].to == (Vec2 { x: 1_600_000, y: 0 }),
            w.moving_objects@[2].speed == 3_000,
            w.moving_objects@[2].forward,
            w.moving_objects@[2].hitbox == (Hitbox {
                x: 1_500_000,
                y: 0,
                width: 100_000,
                height: 50_000,
            }),
            w.speed_increases@ == seq![
                SpeedPortal {
                    used: false,
                    speed_change: 2_000,
                    hitbox: Hitbox {
                        x: 1_075_000,
                        y: -200_000i64,
                        width: PORTAL_WIDTH,
                        height: PORTAL_HEIGHT,
                    },
                },
            ],
    {
        let mut objects: Vec<Hitbox> = Vec::new();
        objects.push(Hitbox::new(0, 250_000, 5_000_000, 50_000));
        objects.push(Hitbox::new(0, -300_000i64, 5_000_000, 50_000));
        objects.push(Hitbox::new(500_000, 15_000, 50_000, 235_000));
        objects.push(Hitbox::new(625_000, -250_000i64, 50_000, 235_000));
        let mut points: Vec<Vec2> = Vec::new();
        points.push(Vec2 { x: 775_000, y: -80_000i64 });
        points.push(Vec2 { x: 775_000, y: 250_000 });
        points.push(Vec2 { x: 1_075_000, y: 250_000 });
        points.push(Vec2 { x: 1_075_000, y: 0 });
        points.push(Vec2 { x: 975_000, y: -80_000i64 });
        let mut poly_objects: Vec<PolygonHitbox> = Vec::new();
        poly_objects.push(PolygonHitbox::new(points));
        let mut moving_objects: Vec<MovingObject> = Vec::new();
        moving_objects.push(
            MovingObject::new(
                Vec2 { x: 1_100_000, y: -225_000i64 },
                Vec2 { x: 1_200_000, y: 150_000 },
                50_000,
                100_000,
                3_000,
            ),
        );
        moving_objects.push(
            MovingObject::new(
                Vec2 { x: 1_300_000, y: 150_000 },
                Vec2 { x: 1_400_000, y: -225_000i64 },
                50_000,
                100_000,
                3_000,
            ),
        );
        moving_objects.push(
            MovingObject::new(
                Vec2 { x: 1_500_000, y: 0 },
                Vec2 { x: 1_600_000, y: 0 },
                100_000,
                50_000,
                3_000,
            ),
        );
        let mut speed_increases: Vec<SpeedPortal> = Vec::new();
        speed_increases.push(SpeedPortal::new(1_075_000, -200_000i64, 2_000));
        let w = World { objects, poly_objects, moving_objects, speed_increases };
        proof {
            assert(w.objects@ =~= seq![
                Hitbox { x: 0, y: 250_000, width: 5_000_000, height: 50_000 },
                Hitbox { x: 0, y: -300_000i64, width: 5_000_000, height: 50_000 },
                Hitbox { x: 500_000, y: 15_000, width: 50_000, height: 235_000 },
                Hitbox { x: 625_000, y: -250_000i64, width: 50_000, height: 235_000 },
            ]);
            assert(w.poly_objects@[0].points@ =~= seq![
                Vec2 { x: 775_000, y: -80_000i64 },
                Vec2 { x: 775_000, y: 250_000 },
                Vec2 { x: 1_075_000, y: 250_000 },
                Vec2 { x: 1_075_000, y: 0 },
                Vec2 { x: 975_000, y: -80_000i64 },
            ]);
            assert(w.speed_increases@ =~= seq![
                SpeedPortal {
                    used: false,
                    speed_change: 2_000,
                    hitbox: Hitbox {
                        x: 1_075_000,
                        y: -200_000i64,
                        width: PORTAL_WIDTH,
                        height: PORTAL_HEIGHT,
                    },
                },
            ]);
            assert(poly_valid(w.poly_objects@[0]));
            assert(w.wf());
        }
        w
    }
}

} // verus!
