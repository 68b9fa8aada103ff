//! The component and resource types that entities of the simulation carry.
//!
//! The host's rendering layer decides how an entity looks from which
//! components it holds; the simulation core only decides which entities
//! exist, where they are, and when they disappear.

use vstd::prelude::*;
use crate::formation::Formation;
use crate::{
    Vec2I, ENEMY_POS_LIMIT, EXPLOSION_LEN, EXPLOSION_PERIOD_MS, PLAYER_RESPAWN_DELAY_MS, POS_LIMIT,
    SCALE_LIMIT, VEL_LIMIT,
};

verus! {

/// Linear velocity factor of a movable entity, in per-mille of the base
/// speed on each axis.
#[derive(Clone, Copy, Debug, PartialEq, Eq, Structural)]
pub struct Velocity {
    pub x: i64,
    pub y: i64,
}

impl Velocity {
    pub open spec fn wf(self) -> bool {
        -VEL_LIMIT <= self.x <= VEL_LIMIT && -VEL_LIMIT <= self.y <= VEL_LIMIT
    }
}

/// Marks an entity that moves linearly each tick; if `auto_despawn` is
/// set it is destroyed once it leaves the window by more than the
/// despawn margin.
#[derive(Clone, Copy, Debug, PartialEq, Eq, Structural)]
pub struct Movable {
    pub auto_despawn: bool,
}

/// Tags a projectile entity.
#[derive(Clone, Copy, Debug, PartialEq, Eq, Structural)]
pub struct Laser;

/// Base sprite size of a collidable entity, in whole pixels; the
/// collision half-extent is this size scaled by the transform scale,
/// halved.
#[derive(Clone, Copy, Debug, PartialEq, Eq, Structural)]
pub struct SpriteSize(pub Vec2I);

impl SpriteSize {
    pub open spec fn wf(self) -> bool {
        0 < self.0.x <= 0x100000 && 0 < self.0.y <= 0x100000
    }
}

impl From<(i64, i64)> for SpriteSize {
    fn from(val: (i64, i64)) -> (s: SpriteSize) {
        SpriteSize(Vec2I { x: val.0, y: val.1 })
    }
}

impl vstd::std_specs::convert::FromSpecImpl<(i64, i64)> for SpriteSize {
    open spec fn obeys_from_spec() -> bool {
        true
    }

    open spec fn from_spec(val: (i64, i64)) -> SpriteSize {
        SpriteSize(Vec2I { x: val.0, y: val.1 })
    }
}

/// Tags the player's ship.
#[derive(Clone, Copy, Debug, PartialEq, Eq, Structural)]
pub struct Player;

/// Tags a projectile fired by the player.
#[derive(Clone, Copy, Debug, PartialEq, Eq, Structural)]
pub struct FromPlayer;

/// Tags an enemy ship.
#[derive(Clone, Copy, Debug, PartialEq, Eq, Structural)]
pub struct Enemy;

/// Tags a projectile fired by an enemy.
#[derive(Clone, Copy, Debug, PartialEq, Eq, Structural)]
pub struct FromEnemy;

/// Tags a running explosion animation.
#[derive(Clone, Copy, Debug, PartialEq, Eq, Structural)]
pub struct Explosion;

/// A request, emitted by the collision pass, to start an explosion
/// animation at a position.
#[derive(Clone, Copy, Debug, PartialEq, Eq, Structural)]
pub struct ExplosionToSpawn(pub Vec2I);

/// Repeating timer that drives an explosion animation: the frame index
/// is the number of whole periods elapsed since the explosion spawned.
#[derive(Clone, Copy, Debug, PartialEq, Eq, Structural)]
pub struct ExplosionTimer {
    pub period_ms: u64,
    pub elapsed_ms: u64,
}

impl ExplosionTimer {
    pub open spec fn wf(self) -> bool {
        0 < self.period_ms <= 1000000 && self.elapsed_ms <= 0xFFFFFFFFFF
    }

    /// The frame this timer has reached.
    pub open spec fn frame_spec(self) -> int {
        self.elapsed_ms as int / self.period_ms as int
    }

    /// The frame this timer has reached.
    pub fn frame_index(&self) -> (f: u64)
        requires
            self.wf(),
        ensures
            f == self.frame_spec(),
    {
        self.elapsed_ms / self.period_ms
    }
}

impl Default for ExplosionTimer {
    /// A fresh animation timer: nothing elapsed, the standard period.
    fn default() -> (t: ExplosionTimer)
        ensures
            t.period_ms == EXPLOSION_PERIOD_MS,
            t.elapsed_ms == 0,
            t.wf(),
    {
        ExplosionTimer { period_ms: EXPLOSION_PERIOD_MS, elapsed_ms: 0 }
    }
}

/// Whether the player is alive, and when it last died.
#[derive(Clone, Copy, Debug, PartialEq, Eq, Structural)]
pub struct PlayerState {
    pub on: bool,
    pub last_shot: Option<u64>,
}

impl PlayerState {
    /// Whether the respawn gate is open at time `now`: the player is
    /// dead and either never died before or the respawn delay has
    /// passed.
    pub open spec fn respawn_due(self, now: u64) -> bool {
        &&& !self.on
        &&& match self.last_shot {
            Option::None => true,
            Option::Some(t) => now > t + PLAYER_RESPAWN_DELAY_MS,
        }
    }

    /// Record that the player was shot at time `time`.
    pub fn shot(&mut self, time: u64)
        ensures
            final(self).on == false,
            final(self).last_shot == Option::Some(time),
    {
        self.on = false;
        self.last_shot = Option::Some(time);
    }

    /// Record that the player entity was spawned.
    pub fn spawned(&mut self)
        ensures
            final(self).on == true,
            final(self).last_shot == Option::<u64>::None,
    {
        self.on = true;
        self.last_shot = Option::None;
    }
}

impl Default for PlayerState {
    /// Before the first spawn: not alive, never shot.
    fn default() -> (s: PlayerState)
        ensures
            s.on == false,
            s.last_shot == Option::<u64>::None,
    {
        PlayerState { on: false, last_shot: Option::None }
    }
}

/// The per-mille transform scale of an entity's sprite, per axis; a
/// negative component mirrors the sprite but must not flip its
/// collision box.
#[derive(Clone, Copy, Debug, PartialEq, Eq, Structural)]
pub struct Scale2 {
    pub x: i64,
    pub y: i64,
}

impl Scale2 {
    pub open spec fn wf(self) -> bool {
        -SCALE_LIMIT <= self.x <= SCALE_LIMIT && -SCALE_LIMIT <= self.y <= SCALE_LIMIT
    }
}

/// An enemy ship: position in millipixels, transform scale, sprite
/// size, and its assigned flight formation.
#[derive(Clone, Copy, Debug, PartialEq, Eq, Structural)]
pub struct EnemyEnt {
    pub pos: Vec2I,
    pub scale: Scale2,
    pub size: SpriteSize,
    pub formation: Formation,
}

impl EnemyEnt {
    pub open spec fn wf(self) -> bool {
        &&& self.pos.wf_within(ENEMY_POS_LIMIT)
        &&& self.scale.wf()
        &&& self.size.wf()
        &&& self.formation.wf()
    }
}

/// A projectile: position, transform scale, sprite size, linear
/// velocity and despawn behavior.
#[derive(Clone, Copy, Debug, PartialEq, Eq, Structural)]
pub struct LaserEnt {
    pub pos: Vec2I,
    pub scale: Scale2,
    pub size: SpriteSize,
    pub velocity: Velocity,
    pub movable: Movable,
}

impl LaserEnt {
    pub open spec fn wf(self) -> bool {
        &&& self.pos.wf_within(POS_LIMIT)
        &&& self.scale.wf()
        &&& self.size.wf()
        &&& self.velocity.wf()
    }
}

/// The player's ship.
#[derive(Clone, Copy, Debug, PartialEq, Eq, Structural)]
pub struct PlayerEnt {
    pub pos: Vec2I,
    pub scale: Scale2,
    pub size: SpriteSize,
    pub velocity: Velocity,
}

impl PlayerEnt {
    pub open spec fn wf(self) -> bool {
        &&& self.pos.wf_within(POS_LIMIT)
        &&& self.scale.wf()
        &&& self.size.wf()
        &&& self.velocity.wf()
    }
}

/// A running explosion animation.
#[derive(Clone, Copy, Debug, PartialEq, Eq, Structural)]
pub struct ExplosionEnt {
    pub pos: Vec2I,
    pub timer: ExplosionTimer,
}

impl ExplosionEnt {
    /// A live explosion has not yet reached the last frame.
    pub open spec fn wf(self) -> bool {
        &&& self.pos.wf_within(POS_LIMIT)
        &&& self.timer.wf()
        &&& self.timer.elapsed_ms < (EXPLOSION_LEN as u64) * self.timer.period_ms
    }
}

} // verus!
