//! Verified core of a small 2D auto-scroll platformer: fixed-point plane
//! geometry, axis-aligned and polygon hitboxes, oscillating platforms,
//! one-shot speed portals, player kinematics, the per-tick world update,
//! the world description document, and a leaderboard table.
//!
//! All coordinates, sizes and speeds are fixed-point numbers held in `i64`
//! milliunits: the value `1500` stands for one and a half world units (see
//! [`geometry::UNIT`]).

pub mod document;
pub mod geometry;
pub mod hitbox;
pub mod leaderboard;
pub mod moving;
pub mod num;
pub mod player;
pub mod portal;
pub mod session;
pub mod world;
