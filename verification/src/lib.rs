//! Simulation core of a 2D arcade shooter.
//!
//! The library decides where moving entities (enemies, projectiles) are at
//! each tick, how enemies organize into elliptical group flight patterns,
//! how fast new entities may appear, and how collisions between projectiles
//! and targets are detected and resolved into destruction, counter updates
//! and explosion animations.
//!
//! All geometry is fixed point: distances are in millipixels (one pixel is
//! `PX` units), angles in milliradians, time in milliseconds.  Rendering,
//! asset loading, input polling and the per-tick scheduler are the host's
//! business; the host drives the systems of [`world::GameWorld`] once per
//! tick and draws whatever the world then holds.

use vstd::prelude::*;

pub mod collide;
pub mod components;
pub mod formation;
pub mod motion;
pub mod rng;
pub mod trig;
pub mod world;

verus! {

/// One pixel, in millipixel units.
pub const PX: i64 = 1000;

/// Base linear speed shared by every entity, in pixels per second.
/// One pixel per second equals one millipixel per millisecond, so a
/// displacement in millipixels is a velocity factor times this constant
/// times a duration in milliseconds, divided by the per-mille unit.
pub const BASE_SPEED: i64 = 500;

/// Most enemies that may be alive at once.
pub const ENEMY_MAX: u32 = 2;

/// Most enemies that may share one formation template.
pub const FORMATION_MEMBERS_MAX: u32 = 2;

/// Pause between the player's death and the earliest respawn.
pub const PLAYER_RESPAWN_DELAY_MS: u64 = 2000;

/// Number of frames in the explosion sprite sheet.
pub const EXPLOSION_LEN: u32 = 16;

/// Period of the explosion animation timer.
pub const EXPLOSION_PERIOD_MS: u64 = 50;

/// Scale applied to every spawned sprite, in per-mille.
pub const SPRITE_SCALE: i64 = 500;

/// Sprite sizes, in whole pixels (width and height split in two
/// constants each).  A size in pixels times a scale in per-mille is an
/// extent in millipixels.
pub const PLAYER_SIZE_X: i64 = 144;
pub const PLAYER_SIZE_Y: i64 = 75;
pub const PLAYER_LASER_SIZE_X: i64 = 9;
pub const PLAYER_LASER_SIZE_Y: i64 = 54;
pub const ENEMY_SIZE_X: i64 = 144;
pub const ENEMY_SIZE_Y: i64 = 75;
pub const ENEMY_LASER_SIZE_X: i64 = 17;
pub const ENEMY_LASER_SIZE_Y: i64 = 55;

/// A projectile flagged auto-despawn is destroyed once it is this far
/// outside the window, in millipixels.
pub const DESPAWN_MARGIN: i64 = 200 * 1000;

/// Largest window side the arithmetic is sized for, in millipixels.
pub const WIN_LIMIT: i64 = 0x200000;

/// Smallest window width accepted, in millipixels.
pub const WIN_W_MIN: i64 = 4;

/// Smallest window height accepted, in millipixels: the vertical range the
/// formation generator draws pivots from is `h / 3 - 50 px` wide and must
/// not be empty.
pub const WIN_H_MIN: i64 = 150003;

/// Bound on the coordinates of formation start and pivot points.
pub const FORMATION_COORD_LIMIT: i64 = 0x200000;

/// Bound on the semi-axes of a formation ellipse, in millipixels.
pub const RADIUS_LIMIT: i64 = 0x100000;

/// Bound on enemy positions: an enemy starts just off screen and the
/// integrator only ever moves it toward a point on its ellipse, so it
/// stays within this box.
pub const ENEMY_POS_LIMIT: i64 = 0x400000;

/// Bound on every other entity position, in millipixels.
pub const POS_LIMIT: i64 = 0x4000000000000;

/// Bound on a formation's scalar speed, in pixels per second.
pub const SPEED_LIMIT: i64 = 10000;

/// Bound on the magnitude of a velocity factor, in per-mille.
pub const VEL_LIMIT: i64 = 1000;

/// Bound on the magnitude of a transform scale, in per-mille.
pub const SCALE_LIMIT: i64 = 2000;

/// Longest tick duration the arithmetic is sized for, in milliseconds.
pub const DT_LIMIT: u64 = 0x100000;

/// A planar point or vector in millipixels.
#[derive(Clone, Copy, Debug, PartialEq, Eq, Structural)]
pub struct Vec2I {
    pub x: i64,
    pub y: i64,
}

impl Vec2I {
    pub open spec fn wf_within(self, limit: i64) -> bool {
        -limit <= self.x <= limit && -limit <= self.y <= limit
    }
}

/// Window bounds, in millipixels, fixed at setup.
#[derive(Clone, Copy, Debug, PartialEq, Eq, Structural)]
pub struct WinSize {
    pub w: i64,
    pub h: i64,
}

impl WinSize {
    pub open spec fn wf(self) -> bool {
        WIN_W_MIN <= self.w <= WIN_LIMIT && WIN_H_MIN <= self.h <= WIN_LIMIT
    }
}

} // verus!
