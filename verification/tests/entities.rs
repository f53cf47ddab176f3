//! Tests for the moving platform, the speed portal and the player.

use rage_platformer::geometry::Vec2;
use rage_platformer::hitbox::Hitbox;
use rage_platformer::moving::MovingObject;
use rage_platformer::player::Player;
use rage_platformer::portal::SpeedPortal;
use rage_platformer::world::World;

fn v(x: i64, y: i64) -> Vec2 {
    Vec2 { x, y }
}

fn empty_world() -> World {
    World {
        objects: vec![],
        poly_objects: vec![],
        moving_objects: vec![],
        speed_increases: vec![],
    }
}

#[test]
fn moving_object_ping_pongs() {
    // From the origin to 100 units right at 10 units per tick.
    let mut m = MovingObject::new(v(0, 0), v(100_000, 0), 10_000, 10_000, 10_000);
    assert_eq!(m.step, v(10_000, 0));
    for tick in 1..=9 {
        m.update();
        assert!(m.forward);
        assert_eq!(m.hitbox.x, 10_000 * tick);
        assert_eq!(m.hitbox.y, 0);
    }
    m.update();
    // Reaching the far end turns the platform around.
    assert_eq!(m.hitbox.x, 100_000);
    assert!(!m.forward);
    for tick in 1..=9 {
        m.update();
        assert!(!m.forward);
        assert_eq!(m.hitbox.x, 100_000 - 10_000 * tick);
    }
    m.update();
    // Back at the start it heads forward again.
    assert_eq!(m.hitbox.x, 0);
    assert!(m.forward);
}

#[test]
fn moving_object_overshoots_by_less_than_one_step() {
    // 25 units of track, 10 units per tick: the platform passes the end by
    // 5 units, then turns.
    let mut m = MovingObject::new(v(0, 0), v(25_000, 0), 10_000, 10_000, 10_000);
    m.update();
    m.update();
    assert_eq!(m.hitbox.x, 20_000);
    assert!(m.forward);
    m.update();
    assert_eq!(m.hitbox.x, 30_000);
    assert!(!m.forward);
    m.update();
    assert_eq!(m.hitbox.x, 20_000);
}

#[test]
fn moving_object_diagonal_step() {
    // A 3-4-5 triangle: the unit direction is exact.
    let mut m = MovingObject::new(v(0, 0), v(3_000, 4_000), 10_000, 10_000, 1_000);
    assert_eq!(m.step, v(600, 800));
    for _ in 0..5 {
        assert!(m.forward);
        m.update();
    }
    assert_eq!(m.hitbox.x, 3_000);
    assert_eq!(m.hitbox.y, 4_000);
    assert!(!m.forward);
}

#[test]
fn portal_fires_once_until_reset() {
    let mut portal = SpeedPortal::new(0, 0, 2_000);
    let mut player = Player::new(0, 0);
    assert_eq!(player.x_speed_mult, 3_500);
    portal.update(&mut player);
    // First overlapping tick doubles the multiplier exactly once.
    assert_eq!(player.x_speed_mult, 7_000);
    assert!(portal.used);
    for _ in 0..5 {
        portal.update(&mut player);
        assert_eq!(player.x_speed_mult, 7_000);
    }
    // A respawn clears the latch; the next overlap doubles again.
    portal.used = false;
    portal.update(&mut player);
    assert_eq!(player.x_speed_mult, 14_000);
}

#[test]
fn portal_without_overlap_does_nothing() {
    let mut portal = SpeedPortal::new(500_000, 500_000, 2_000);
    let mut player = Player::new(0, 0);
    portal.update(&mut player);
    assert_eq!(player.x_speed_mult, 3_500);
    assert!(!portal.used);
}

#[test]
fn portal_boost_saturates_at_the_multiplier_cap() {
    let mut portal = SpeedPortal::new(0, 0, 1_000_000_000);
    let mut player = Player::new(0, 0);
    portal.update(&mut player);
    assert_eq!(player.x_speed_mult, 3_500_000_000);
    portal.used = false;
    portal.update(&mut player);
    assert_eq!(player.x_speed_mult, 1_000_000_000_000_000);
}

#[test]
fn player_first_tick_of_free_motion() {
    let mut player = Player::new(0, 0);
    assert!(player.is_facing_up);
    let died = player.update(&empty_world(), false);
    assert!(!died);
    // Facing up: one unit of thrust, integrated, then damped to nine
    // tenths; the auto-scroll advances by the 3.5 multiplier.
    assert_eq!(player.y, -1_000);
    assert_eq!(player.vy, -900);
    assert_eq!(player.x, 3_500);
    assert_eq!(player.hitbox.x, 3_500);
    assert_eq!(player.hitbox.y, -1_000);
}

#[test]
fn player_toggle_flips_direction() {
    let mut player = Player::new(0, 0);
    let died = player.update(&empty_world(), true);
    assert!(!died);
    assert!(!player.is_facing_up);
    assert_eq!(player.vy, 900);
    assert_eq!(player.y, 1_000);
}

#[test]
fn player_velocity_settles_under_damping() {
    let mut player = Player::new(0, 0);
    let world = empty_world();
    for _ in 0..200 {
        let died = player.update(&world, false);
        assert!(!died);
        assert!(player.vy >= -9_000);
    }
    // The fixed point of one tick of thrust and damping, with the division
    // truncated toward zero.
    assert_eq!(player.vy, -8_991);
}

#[test]
fn player_death_freezes_motion_that_tick() {
    let world = World {
        objects: vec![Hitbox::new(-10_000, -10_000, 50_000, 50_000)],
        poly_objects: vec![],
        moving_objects: vec![],
        speed_increases: vec![],
    };
    let mut player = Player::new(0, 0);
    let before = player;
    let died = player.update(&world, true);
    assert!(died);
    // Nothing of the state moved on the death tick, input included.
    assert_eq!(player, before);
}
