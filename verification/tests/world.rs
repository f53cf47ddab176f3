//! Tests for the world: the hazard query, the per-tick update, the default
//! world, the document round trip and the session loop.

use rage_platformer::document::{MovingObjectDoc, SpeedPortalDoc, WorldDoc, WorldError};
use rage_platformer::geometry::Vec2;
use rage_platformer::hitbox::{Hitbox, PolygonHitbox};
use rage_platformer::moving::MovingObject;
use rage_platformer::player::Player;
use rage_platformer::portal::SpeedPortal;
use rage_platformer::session::{Session, TickOutcome};
use rage_platformer::world::World;

fn v(x: i64, y: i64) -> Vec2 {
    Vec2 { x, y }
}

fn bare_world() -> World {
    World {
        objects: vec![],
        poly_objects: vec![],
        moving_objects: vec![],
        speed_increases: vec![],
    }
}

#[test]
fn hit_check_sees_static_rectangles() {
    let mut world = bare_world();
    world.objects.push(Hitbox::new(20_000, 10_000, 50_000, 50_000));
    let player = Player::new(0, 0);
    assert!(world.player_hit_check(&player));
    let far = Player::new(200_000, 0);
    assert!(!world.player_hit_check(&far));
}

#[test]
fn touching_edges_do_not_collide() {
    // Two 10-by-10 boxes sharing only the x = 10 edge.
    let a = Hitbox::new(0, 0, 10_000, 10_000);
    let b = Hitbox::new(10_000, 0, 10_000, 10_000);
    assert!(!a.collides(&b));
    assert!(!b.collides(&a));
    // Moved one milliunit closer they overlap, from both sides.
    let c = Hitbox::new(9_999, 0, 10_000, 10_000);
    assert!(a.collides(&c));
    assert!(c.collides(&a));
}

#[test]
fn polygon_misses_distant_translate_of_itself() {
    let square = PolygonHitbox::new(vec![
        v(0, 0),
        v(0, 10_000),
        v(10_000, 10_000),
        v(10_000, 0),
    ]);
    // Translated past its own diagonal it cannot collide with itself.
    let far = PolygonHitbox::new(vec![
        v(30_000, 30_000),
        v(30_000, 40_000),
        v(40_000, 40_000),
        v(40_000, 30_000),
    ]);
    assert!(!square.collides(&far));
    assert!(!far.collides(&square));
    // A translate of half the side still crosses edges.
    let near = PolygonHitbox::new(vec![
        v(5_000, 5_000),
        v(5_000, 15_000),
        v(15_000, 15_000),
        v(15_000, 5_000),
    ]);
    assert!(square.collides(&near));
}

#[test]
fn hit_check_sees_polygon_edge_crossings_only() {
    let mut world = bare_world();
    world.poly_objects.push(PolygonHitbox::new(vec![
        v(775_000, -80_000),
        v(775_000, 250_000),
        v(1_075_000, 250_000),
        v(1_075_000, 0),
        v(975_000, -80_000),
    ]));
    // The player's right edge crosses the polygon's left edge.
    let crossing = Player::new(760_000, 100_000);
    assert!(world.player_hit_check(&crossing));
    let clear = Player::new(0, 0);
    assert!(!world.player_hit_check(&clear));
    // A player fully enclosed by a polygon crosses no edge, and the
    // boundary-only test reports no hit.
    let mut big = bare_world();
    big.poly_objects.push(PolygonHitbox::new(vec![
        v(-1_000_000, -1_000_000),
        v(-1_000_000, 1_000_000),
        v(1_000_000, 1_000_000),
        v(1_000_000, -1_000_000),
    ]));
    let enclosed = Player::new(0, 0);
    assert!(!big.player_hit_check(&enclosed));
}

#[test]
fn hit_check_sees_moving_platforms() {
    let mut world = bare_world();
    world.moving_objects.push(MovingObject::new(
        v(10_000, 0),
        v(500_000, 0),
        40_000,
        40_000,
        2_000,
    ));
    let player = Player::new(0, 0);
    assert!(world.player_hit_check(&player));
    let far = Player::new(-100_000, 0);
    assert!(!world.player_hit_check(&far));
}

#[test]
fn world_update_moves_platforms_and_applies_portals() {
    let mut world = bare_world();
    world.moving_objects.push(MovingObject::new(
        v(100_000, 0),
        v(200_000, 0),
        10_000,
        10_000,
        5_000,
    ));
    world.speed_increases.push(SpeedPortal::new(0, 0, 3_000));
    let mut player = Player::new(0, 0);
    world.update(&mut player);
    assert_eq!(world.moving_objects[0].hitbox.x, 105_000);
    assert_eq!(player.x_speed_mult, 10_500);
    assert!(world.speed_increases[0].used);
    // The platform keeps moving; the spent portal stays quiet.
    world.update(&mut player);
    assert_eq!(world.moving_objects[0].hitbox.x, 110_000);
    assert_eq!(player.x_speed_mult, 10_500);
}

#[test]
fn reset_portals_clears_latches_only() {
    let mut world = bare_world();
    world.speed_increases.push(SpeedPortal::new(0, 0, 3_000));
    let mut player = Player::new(0, 0);
    world.update(&mut player);
    assert!(world.speed_increases[0].used);
    world.reset_portals();
    assert!(!world.speed_increases[0].used);
    assert_eq!(world.speed_increases[0].speed_change, 3_000);
    assert_eq!(world.speed_increases[0].hitbox.x, 0);
}

#[test]
fn default_world_shape() {
    let world = World::new();
    assert_eq!(world.objects.len(), 4);
    assert_eq!(world.poly_objects.len(), 1);
    assert_eq!(world.poly_objects[0].points.len(), 5);
    assert_eq!(world.moving_objects.len(), 3);
    assert_eq!(world.speed_increases.len(), 1);
    assert_eq!(world.objects[0], Hitbox::new(0, 250_000, 5_000_000, 50_000));
    assert_eq!(world.moving_objects[2].from, v(1_500_000, 0));
    assert_eq!(world.moving_objects[2].to, v(1_600_000, 0));
    assert_eq!(world.speed_increases[0].speed_change, 2_000);
}

#[test]
fn document_round_trip_reproduces_geometry() {
    let world = World::new();
    let doc = world.to_document();
    let loaded = World::from_document(doc).unwrap();
    assert_eq!(loaded.objects, world.objects);
    assert_eq!(
        loaded.poly_objects[0].points,
        world.poly_objects[0].points
    );
    assert_eq!(loaded.moving_objects, world.moving_objects);
    assert_eq!(loaded.speed_increases, world.speed_increases);
}

#[test]
fn load_rejects_flat_rectangle() {
    let doc = WorldDoc {
        objects: vec![Hitbox { x: 0, y: 0, width: 0, height: 1_000 }],
        poly_objects: vec![],
        moving_objects: vec![],
        speed_increases: vec![],
    };
    assert_eq!(World::from_document(doc).unwrap_err(), WorldError::InvalidObject);
}

#[test]
fn load_rejects_degenerate_polygon() {
    let doc = WorldDoc {
        objects: vec![],
        poly_objects: vec![PolygonHitbox::new(vec![v(0, 0), v(1_000, 0)])],
        moving_objects: vec![],
        speed_increases: vec![],
    };
    assert_eq!(World::from_document(doc).unwrap_err(), WorldError::InvalidPolygon);
}

#[test]
fn load_rejects_mover_with_coincident_endpoints() {
    let doc = WorldDoc {
        objects: vec![],
        poly_objects: vec![],
        moving_objects: vec![MovingObjectDoc {
            from: v(5_000, 5_000),
            to: v(5_000, 5_000),
            width: 1_000,
            height: 1_000,
            speed: 1_000,
        }],
        speed_increases: vec![],
    };
    assert_eq!(
        World::from_document(doc).unwrap_err(),
        WorldError::InvalidMovingObject
    );
}

#[test]
fn load_rejects_negative_portal_factor() {
    let doc = WorldDoc {
        objects: vec![],
        poly_objects: vec![],
        moving_objects: vec![],
        speed_increases: vec![SpeedPortalDoc { x: 0, y: 0, speed_change: -1 }],
    };
    assert_eq!(World::from_document(doc).unwrap_err(), WorldError::InvalidPortal);
}

#[test]
fn load_rejects_out_of_range_coordinate() {
    let doc = WorldDoc {
        objects: vec![Hitbox { x: 2_000_000_000, y: 0, width: 1_000, height: 1_000 }],
        poly_objects: vec![],
        moving_objects: vec![],
        speed_increases: vec![],
    };
    assert_eq!(World::from_document(doc).unwrap_err(), WorldError::InvalidObject);
}

#[test]
fn default_world_first_tick() {
    // The default world has no hazard near the origin: the first tick
    // moves the player freely.
    let mut session = Session::new(World::new());
    assert_eq!(session.player.x, 0);
    assert_eq!(session.player.y, 0);
    assert!(session.player.is_facing_up);
    assert_eq!(session.player.x_speed_mult, 3_500);
    let outcome = session.tick(false);
    assert_eq!(outcome, TickOutcome::Alive);
    assert_eq!(session.player.x, 3_500);
    assert_eq!(session.player.y, -1_000);
    assert_eq!(session.player.vy, -900);
    assert_eq!(session.score, 1);
    assert_eq!(session.attempts, 0);
    assert_eq!(session.best_score, 1);
}

#[test]
fn session_death_respawns_and_counts() {
    let mut world = bare_world();
    world.objects.push(Hitbox::new(-10_000, -10_000, 50_000, 50_000));
    let mut session = Session::new(world);
    let outcome = session.tick(false);
    assert_eq!(outcome, TickOutcome::Died);
    assert_eq!(session.attempts, 1);
    assert_eq!(session.score, 1);
    // The player is back at the spawn state.
    assert_eq!(session.player.x, 0);
    assert_eq!(session.player.y, 0);
    assert_eq!(session.player.vy, 0);
    assert_eq!(session.player.x_speed_mult, 3_500);
}

#[test]
fn session_keeps_best_score_across_deaths() {
    let mut world = bare_world();
    // A wall some way ahead: the player survives a few ticks, then dies.
    world.objects.push(Hitbox::new(100_000, -1_000_000, 10_000, 2_000_000));
    let mut session = Session::new(world);
    let mut died_at = 0;
    for tick in 1..100 {
        if session.tick(false) == TickOutcome::Died {
            died_at = tick;
            break;
        }
    }
    assert!(died_at > 1);
    assert_eq!(session.attempts, 1);
    assert_eq!(session.score, 1);
    // The best score is the ticks survived before the deadly one.
    assert_eq!(session.best_score, died_at as u32 - 1);
}
