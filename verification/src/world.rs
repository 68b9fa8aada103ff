//! The simulation world and its per-tick systems.
//!
//! The host drives one tick by calling, in order: the spawn systems,
//! the movement systems, the collision systems, and the explosion
//! systems.  Each system is a total function from the old world to the
//! new one; nothing here blocks, suspends or fails.

use vstd::prelude::*;
use vstd::arithmetic::div_mod::{lemma_fundamental_div_mod, lemma_mod_bound};
use crate::collide::{
    count_true, find_first_hit, find_first_player_hit, first_player_hit, hits_any_dead,
    keep_alive, keep_vec, lemma_count_false_seq, lemma_count_true_from_bound,
    lemma_count_true_from_update, lemma_keep_from_len, lemma_keep_from_subset, resolve_from,
    resolve_spec, vec_false,
};
use crate::components::{
    EnemyEnt, ExplosionEnt, ExplosionTimer, ExplosionToSpawn, LaserEnt, Movable, PlayerEnt,
    PlayerState, Scale2, SpriteSize, Velocity,
};
use crate::formation::{Formation, FormationMaker};
use crate::motion::{orbit_new_angle_spec, orbit_new_x_spec, orbit_new_y_spec, orbit_step};
use crate::rng::rand_range;
use crate::{
    Vec2I, WinSize, DESPAWN_MARGIN, DT_LIMIT, ENEMY_LASER_SIZE_X, ENEMY_LASER_SIZE_Y, ENEMY_MAX,
    ENEMY_SIZE_X, ENEMY_SIZE_Y, EXPLOSION_LEN, PLAYER_LASER_SIZE_X, PLAYER_LASER_SIZE_Y,
    PLAYER_SIZE_X, PLAYER_SIZE_Y, POS_LIMIT, PX, SPRITE_SCALE,
};

verus! {

/// A sum clamped to the coordinate range, so positions stay within the
/// arithmetic's bounds however long an entity drifts.
pub open spec fn add_clamped_spec(a: int, d: int) -> int {
    if a + d > POS_LIMIT {
        POS_LIMIT as int
    } else if a + d < -POS_LIMIT {
        -POS_LIMIT as int
    } else {
        a + d
    }
}

/// A sum clamped to the coordinate range, executable.
fn add_clamped(a: i64, d: i64) -> (r: i64)
    requires
        -POS_LIMIT <= a <= POS_LIMIT,
        -0x10000000000 <= d <= 0x10000000000,
    ensures
        r == add_clamped_spec(a as int, d as int),
        -POS_LIMIT <= r <= POS_LIMIT,
{
    let s = a + d;
    if s > POS_LIMIT {
        POS_LIMIT
    } else if s < -POS_LIMIT {
        -POS_LIMIT
    } else {
        s
    }
}

/// The displacement of a velocity factor over a tick: per-mille factor
/// times the base speed, times the elapsed milliseconds, brought back
/// from per-mille.
pub open spec fn disp_spec(v: int, dt: int) -> int {
    if v >= 0 {
        (v * (500 * dt)) / 1000
    } else {
        -(((-v) * (500 * dt)) / 1000)
    }
}

/// The displacement of a velocity factor over a tick, executable.
fn displacement(v: i64, dt_ms: u64) -> (d: i64)
    requires
        -1000 <= v <= 1000,
        dt_ms <= DT_LIMIT,
    ensures
        d == disp_spec(v as int, dt_ms as int),
        -0x10000000000 <= d <= 0x10000000000,
{
    let scale: u64 = 500 * dt_ms;
    if v >= 0 {
        assert((v as u64) * scale <= 1000 * (500 * 0x100000)) by (nonlinear_arith)
            requires
                0 <= v <= 1000 && 0 <= scale <= 500 * 0x100000,
        ;
        (((v as u64) * scale) / 1000) as i64
    } else {
        assert(((-v) as u64) * scale <= 1000 * (500 * 0x100000)) by (nonlinear_arith)
            requires
                0 < -v <= 1000 && 0 <= scale <= 500 * 0x100000,
        ;
        -(((((-v) as u64) * scale) / 1000) as i64)
    }
}

/// Whether a point lies farther outside the window than the despawn
/// margin allows.
pub open spec fn outside_margin(p: Vec2I, win: WinSize) -> bool {
    ||| p.y > win.h as int / 2 + DESPAWN_MARGIN
    ||| p.y < -(win.h as int / 2) - DESPAWN_MARGIN
    ||| p.x > win.w as int / 2 + DESPAWN_MARGIN
    ||| p.x < -(win.w as int / 2) - DESPAWN_MARGIN
}

/// A projectile after one tick of linear motion.
pub open spec fn moved_laser(l: LaserEnt, dt: u64) -> LaserEnt {
    LaserEnt {
        pos: Vec2I {
            x: add_clamped_spec(l.pos.x as int, disp_spec(l.velocity.x as int, dt as int)) as i64,
            y: add_clamped_spec(l.pos.y as int, disp_spec(l.velocity.y as int, dt as int)) as i64,
        },
        ..l
    }
}

/// The projectiles after one tick of linear motion, with those flagged
/// auto-despawn and now outside the margin removed.
pub open spec fn move_cull_from(lasers: Seq<LaserEnt>, dt: u64, win: WinSize, i: int) -> Seq<LaserEnt>
    decreases lasers.len() - i,
    when 0 <= i <= lasers.len()
{
    if i >= lasers.len() {
        Seq::empty()
    } else {
        let ml = moved_laser(lasers[i], dt);
        if ml.movable.auto_despawn && outside_margin(ml.pos, win) {
            move_cull_from(lasers, dt, win, i + 1)
        } else {
            seq![ml] + move_cull_from(lasers, dt, win, i + 1)
        }
    }
}

/// The player's ship after one tick of linear motion.
pub open spec fn moved_player(p: PlayerEnt, dt: u64) -> PlayerEnt {
    PlayerEnt {
        pos: Vec2I {
            x: add_clamped_spec(p.pos.x as int, disp_spec(p.velocity.x as int, dt as int)) as i64,
            y: add_clamped_spec(p.pos.y as int, disp_spec(p.velocity.y as int, dt as int)) as i64,
        },
        ..p
    }
}

/// The enemy a spawn places at its formation's start point.
pub open spec fn spawned_enemy(f: crate::formation::Formation) -> EnemyEnt {
    EnemyEnt {
        pos: f.start,
        scale: Scale2 { x: SPRITE_SCALE, y: SPRITE_SCALE },
        size: SpriteSize(Vec2I { x: ENEMY_SIZE_X, y: ENEMY_SIZE_Y }),
        formation: f,
    }
}

/// The projectile an enemy fires: just below the enemy, moving straight
/// down, gone once off screen.
pub open spec fn enemy_laser_of(e: EnemyEnt) -> LaserEnt {
    LaserEnt {
        pos: Vec2I { x: e.pos.x, y: add_clamped_spec(e.pos.y as int, -15 * PX) as i64 },
        scale: Scale2 { x: SPRITE_SCALE, y: SPRITE_SCALE },
        size: SpriteSize(Vec2I { x: ENEMY_LASER_SIZE_X, y: ENEMY_LASER_SIZE_Y }),
        velocity: Velocity { x: 0i64, y: -1000i64 },
        movable: Movable { auto_despawn: true },
    }
}

/// A projectile the player fires: offset horizontally from the ship's
/// nose, moving straight up, gone once off screen.
pub open spec fn player_laser_of(p: PlayerEnt, off: int) -> LaserEnt {
    LaserEnt {
        pos: Vec2I {
            x: add_clamped_spec(p.pos.x as int, off) as i64,
            y: add_clamped_spec(p.pos.y as int, 15 * PX) as i64,
        },
        scale: Scale2 { x: SPRITE_SCALE, y: SPRITE_SCALE },
        size: SpriteSize(Vec2I { x: PLAYER_LASER_SIZE_X, y: PLAYER_LASER_SIZE_Y }),
        velocity: Velocity { x: 0, y: 1000 },
        movable: Movable { auto_despawn: true },
    }
}

/// The horizontal offset of the player's two projectiles from the
/// ship's center, in millipixels.
pub open spec fn player_fire_offset() -> int {
    (PLAYER_SIZE_X * SPRITE_SCALE) / 2 - 5 * PX
}

/// Where the player's ship spawns: centered horizontally, resting at
/// the bottom of the window.
pub open spec fn player_spawn_y(win: WinSize) -> int {
    -(win.h as int / 2) + (PLAYER_SIZE_Y * SPRITE_SCALE) / 2
}

/// The freshly spawned player ship.
pub open spec fn spawned_player(win: WinSize) -> PlayerEnt {
    PlayerEnt {
        pos: Vec2I { x: 0, y: player_spawn_y(win) as i64 },
        scale: Scale2 { x: SPRITE_SCALE, y: SPRITE_SCALE },
        size: SpriteSize(Vec2I { x: PLAYER_SIZE_X, y: PLAYER_SIZE_Y }),
        velocity: Velocity { x: 0, y: 0 },
    }
}

/// An explosion animation after `dt` more milliseconds.
pub open spec fn advanced_explosion(e: ExplosionEnt, dt: u64) -> ExplosionEnt {
    ExplosionEnt {
        timer: ExplosionTimer {
            elapsed_ms: (e.timer.elapsed_ms + dt) as u64,
            ..e.timer
        },
        ..e
    }
}

/// The explosions after one tick: each timer advanced, and those whose
/// frame index has reached the sheet's frame count removed.
pub open spec fn advance_explosions_from(explosions: Seq<ExplosionEnt>, dt: u64, i: int) -> Seq<ExplosionEnt>
    decreases explosions.len() - i,
    when 0 <= i <= explosions.len()
{
    if i >= explosions.len() {
        Seq::empty()
    } else {
        let e = advanced_explosion(explosions[i], dt);
        if e.timer.frame_spec() >= EXPLOSION_LEN {
            advance_explosions_from(explosions, dt, i + 1)
        } else {
            seq![e] + advance_explosions_from(explosions, dt, i + 1)
        }
    }
}

/// The whole simulation state: the window, the typed entity tables,
/// and the governor counters.
pub struct GameWorld {
    pub win_size: WinSize,
    pub enemies: Vec<EnemyEnt>,
    pub player: Option<PlayerEnt>,
    pub player_lasers: Vec<LaserEnt>,
    pub enemy_lasers: Vec<LaserEnt>,
    pub explosions_to_spawn: Vec<ExplosionToSpawn>,
    pub explosions: Vec<ExplosionEnt>,
    pub enemy_count: u32,
    pub player_state: PlayerState,
    pub formation_maker: FormationMaker,
}

impl GameWorld {
    /// Every entity in range, the live-enemy counter equal to the
    /// number of live enemies, and the player entity present exactly
    /// when the player state says it is alive.
    pub open spec fn wf(self) -> bool {
        &&& self.win_size.wf()
        &&& self.enemy_count == self.enemies@.len()
        &&& forall|i: int| 0 <= i < self.enemies@.len() ==> (#[trigger] self.enemies@[i]).wf()
        &&& match self.player {
            Option::Some(p) => p.wf() && self.player_state.on,
            Option::None => !self.player_state.on,
        }
        &&& forall|i: int|
            0 <= i < self.player_lasers@.len() ==> (#[trigger] self.player_lasers@[i]).wf()
        &&& forall|i: int|
            0 <= i < self.enemy_lasers@.len() ==> (#[trigger] self.enemy_lasers@[i]).wf()
        &&& forall|i: int|
            0 <= i < self.explosions_to_spawn@.len() ==> (#[trigger] self.explosions_to_spawn@[i]).0.wf_within(POS_LIMIT)
        &&& forall|i: int| 0 <= i < self.explosions@.len() ==> (#[trigger] self.explosions@[i]).wf()
        &&& self.formation_maker.wf()
    }

    /// An empty world over the given window.
    pub fn new(win_size: WinSize) -> (w: GameWorld)
        requires
            win_size.wf(),
        ensures
            w.wf(),
            w.win_size == win_size,
            w.enemies@.len() == 0,
            w.player is None,
            w.player_lasers@.len() == 0,
            w.enemy_lasers@.len() == 0,
            w.explosions_to_spawn@.len() == 0,
            w.explosions@.len() == 0,
            w.enemy_count == 0,
            w.player_state == (PlayerState { on: false, last_shot: Option::<u64>::None }),
            w.formation_maker == (FormationMaker {
                current_template: Option::None,
                current_members: 0,
                group_seq: 0,
            }),
    {
        GameWorld {
            win_size,
            enemies: Vec::new(),
            player: Option::None,
            player_lasers: Vec::new(),
            enemy_lasers: Vec::new(),
            explosions_to_spawn: Vec::new(),
            explosions: Vec::new(),
            enemy_count: 0,
            player_state: PlayerState { on: false, last_shot: Option::None },
            formation_maker: FormationMaker {
                current_template: Option::None,
                current_members: 0,
                group_seq: 0,
            },
        }
    }

    /// One interval tick of the enemy spawn gate: below the enemy cap
    /// one enemy spawns at its formation's start point and the counter
    /// rises by one; at the cap nothing happens at all.
    pub fn enemy_spawn_system(&mut self)
        requires
            old(self).wf(),
        ensures
            final(self).wf(),
            old(self).enemy_count >= ENEMY_MAX ==> *final(self) == *old(self),
            old(self).enemy_count < ENEMY_MAX ==> {
                &&& final(self).enemy_count == old(self).enemy_count + 1
                &&& final(self).enemies@.len() == old(self).enemies@.len() + 1
                &&& final(self).enemies@ == old(self).enemies@.push(
                    spawned_enemy(final(self).enemies@.last().formation),
                )
                &&& FormationMaker::make_rel(
                    old(self).formation_maker,
                    final(self).formation_maker,
                    old(self).win_size,
                    final(self).enemies@.last().formation,
                )
                &&& final(self).win_size == old(self).win_size
                &&& final(self).player == old(self).player
                &&& final(self).player_lasers == old(self).player_lasers
                &&& final(self).enemy_lasers == old(self).enemy_lasers
                &&& final(self).explosions_to_spawn == old(self).explosions_to_spawn
                &&& final(self).explosions == old(self).explosions
                &&& final(self).player_state == old(self).player_state
            },
    {
        if self.enemy_count < ENEMY_MAX {
            let win = self.win_size;
            let f = self.formation_maker.make(&win);
            let e = EnemyEnt {
                pos: f.start,
                scale: Scale2 { x: SPRITE_SCALE, y: SPRITE_SCALE },
                size: SpriteSize(Vec2I { x: ENEMY_SIZE_X, y: ENEMY_SIZE_Y }),
                formation: f,
            };
            self.enemies.push(e);
            self.enemy_count = self.enemy_count + 1;
        }
    }

    /// Each tick each live enemy has one chance in sixty of firing; a
    /// firing enemy spawns a projectile just below itself.  Which
    /// enemies fire is up to chance, but every new projectile belongs
    /// to a distinct enemy and they appear in enemy order.
    pub fn enemy_fire_system(&mut self)
        requires
            old(self).wf(),
        ensures
            final(self).wf(),
            final(self).enemy_lasers@.len() >= old(self).enemy_lasers@.len(),
            final(self).enemy_lasers@.len() <= old(self).enemy_lasers@.len() + old(
                self,
            ).enemies@.len(),
            exists|m: Seq<int>|
                #[trigger] fired_map(
                    m,
                    old(self).enemies@,
                    old(self).enemy_lasers@,
                    final(self).enemy_lasers@,
                ),
            final(self).win_size == old(self).win_size,
            final(self).enemies == old(self).enemies,
            final(self).player == old(self).player,
            final(self).player_lasers == old(self).player_lasers,
            final(self).explosions_to_spawn == old(self).explosions_to_spawn,
            final(self).explosions == old(self).explosions,
            final(self).enemy_count == old(self).enemy_count,
            final(self).player_state == old(self).player_state,
            final(self).formation_maker == old(self).formation_maker,
    {
        let ghost lasers0 = self.enemy_lasers@;
        let ghost m: Seq<int> = Seq::empty();
        proof {
            assert(lasers0.subrange(0, lasers0.len() as int) =~= lasers0);
        }
        let n = self.enemies.len();
        let mut i: usize = 0;
        while i < n
            invariant
                0 <= i <= n,
                n == self.enemies@.len(),
                self.wf(),
                self.enemy_lasers@.len() <= lasers0.len() + i,
                fired_map(m, self.enemies@, lasers0, self.enemy_lasers@),
                forall|k: int| 0 <= k < m.len() ==> #[trigger] m[k] < i,
                self.win_size == old(self).win_size,
                self.enemies == old(self).enemies,
                self.player == old(self).player,
                self.player_lasers == old(self).player_lasers,
                self.explosions_to_spawn == old(self).explosions_to_spawn,
                self.explosions == old(self).explosions,
                self.enemy_count == old(self).enemy_count,
                self.player_state == old(self).player_state,
                self.formation_maker == old(self).formation_maker,
                lasers0 == old(self).enemy_lasers@,
            decreases n - i,
        {
            if rand_range(0, 60) == 0 {
                let e = self.enemies[i];
                let y = add_clamped(e.pos.y, -15 * PX);
                let l = LaserEnt {
                    pos: Vec2I { x: e.pos.x, y },
                    scale: Scale2 { x: SPRITE_SCALE, y: SPRITE_SCALE },
                    size: SpriteSize(Vec2I { x: ENEMY_LASER_SIZE_X, y: ENEMY_LASER_SIZE_Y }),
                    velocity: Velocity { x: 0i64, y: -1000i64 },
                    movable: Movable { auto_despawn: true },
                };
                self.enemy_lasers.push(l);
                proof {
                    m = m.push(i as int);
                    assert(self.enemy_lasers@.subrange(0, lasers0.len() as int) =~= lasers0);
                }
            }
            i = i + 1;
        }
    }

    /// One interval tick of the player respawn gate: when the player is
    /// dead and past the respawn delay, the ship appears at the bottom
    /// of the window and the state turns alive; otherwise nothing
    /// changes.
    pub fn player_spawn_system(&mut self, now_ms: u64)
        requires
            old(self).wf(),
        ensures
            final(self).wf(),
            !old(self).player_state.respawn_due(now_ms) ==> *final(self) == *old(self),
            old(self).player_state.respawn_due(now_ms) ==> {
                &&& final(self).player == Option::Some(spawned_player(old(self).win_size))
                &&& final(self).player_state == (PlayerState {
                    on: true,
                    last_shot: Option::<u64>::None,
                })
                &&& final(self).win_size == old(self).win_size
                &&& final(self).enemies == old(self).enemies
                &&& final(self).player_lasers == old(self).player_lasers
                &&& final(self).enemy_lasers == old(self).enemy_lasers
                &&& final(self).explosions_to_spawn == old(self).explosions_to_spawn
                &&& final(self).explosions == old(self).explosions
                &&& final(self).enemy_count == old(self).enemy_count
                &&& final(self).formation_maker == old(self).formation_maker
            },
    {
        let due: bool = if self.player_state.on {
            false
        } else {
            match self.player_state.last_shot {
                Option::None => true,
                Option::Some(t) => now_ms > t && now_ms - t > crate::PLAYER_RESPAWN_DELAY_MS,
            }
        };
        if due {
            let half_h: i64 = ((self.win_size.h as u64) / 2) as i64;
            let y: i64 = -half_h + (PLAYER_SIZE_Y * SPRITE_SCALE) / 2;
            self.player = Option::Some(
                PlayerEnt {
                    pos: Vec2I { x: 0, y },
                    scale: Scale2 { x: SPRITE_SCALE, y: SPRITE_SCALE },
                    size: SpriteSize(Vec2I { x: PLAYER_SIZE_X, y: PLAYER_SIZE_Y }),
                    velocity: Velocity { x: 0, y: 0 },
                },
            );
            self.player_state.spawned();
        }
    }

    /// Held movement keys set the player ship's velocity factor: half
    /// speed along each pressed axis, opposite keys favoring left and
    /// up; nothing happens without a ship.
    pub fn player_keyboard_event_system(&mut self, left: bool, right: bool, up: bool, down: bool)
        requires
            old(self).wf(),
        ensures
            final(self).wf(),
            old(self).player is None ==> *final(self) == *old(self),
            old(self).player matches Option::Some(p) ==> {
                &&& final(self).player == Option::Some(
                    PlayerEnt {
                        velocity: Velocity {
                            x: if left {
                                -500i64
                            } else if right {
                                500i64
                            } else {
                                0i64
                            },
                            y: if up {
                                500i64
                            } else if down {
                                -500i64
                            } else {
                                0i64
                            },
                        },
                        ..p
                    },
                )
                &&& *final(self) == (GameWorld { player: final(self).player, ..*old(self) })
            },
    {
        match &mut self.player {
            Option::Some(p) => {
                p.velocity = Velocity {
                    x: if left {
                        -500
                    } else if right {
                        500
                    } else {
                        0
                    },
                    y: if up {
                        500
                    } else if down {
                        -500
                    } else {
                        0
                    },
                };
            },
            Option::None => {},
        }
    }

    /// An edge-triggered fire input spawns two player projectiles,
    /// symmetrically offset from the ship's nose; without the input or
    /// without a ship nothing changes.
    pub fn player_fire_system(&mut self, fire: bool)
        requires
            old(self).wf(),
        ensures
            final(self).wf(),
            !(fire && old(self).player is Some) ==> *final(self) == *old(self),
            fire ==> (match old(self).player {
                Option::Some(p) => {
                    &&& final(self).player_lasers@ == old(self).player_lasers@.push(
                        player_laser_of(p, player_fire_offset()),
                    ).push(player_laser_of(p, -player_fire_offset()))
                    &&& *final(self) == (GameWorld {
                        player_lasers: final(self).player_lasers,
                        ..*old(self)
                    })
                },
                Option::None => true,
            }),
    {
        if fire {
            let p = match &self.player {
                Option::Some(p) => Option::Some(*p),
                Option::None => Option::None,
            };
            if let Option::Some(p) = p {
                let off: i64 = (PLAYER_SIZE_X * SPRITE_SCALE) / 2 - 5 * PX;
                let y = add_clamped(p.pos.y, 15 * PX);
                let l1 = LaserEnt {
                    pos: Vec2I { x: add_clamped(p.pos.x, off), y },
                    scale: Scale2 { x: SPRITE_SCALE, y: SPRITE_SCALE },
                    size: SpriteSize(Vec2I { x: PLAYER_LASER_SIZE_X, y: PLAYER_LASER_SIZE_Y }),
                    velocity: Velocity { x: 0, y: 1000 },
                    movable: Movable { auto_despawn: true },
                };
                let l2 = LaserEnt {
                    pos: Vec2I { x: add_clamped(p.pos.x, -off), y },
                    ..l1
                };
                self.player_lasers.push(l1);
                self.player_lasers.push(l2);
            }
        }
    }

    /// Turn every pending explosion request into a running explosion
    /// animation at the requested position, with a fresh timer.
    pub fn explosion_to_spawn_system(&mut self)
        requires
            old(self).wf(),
        ensures
            final(self).wf(),
            final(self).explosions@ == old(self).explosions@ + old(
                self,
            ).explosions_to_spawn@.map_values(
                |r: ExplosionToSpawn|
                    ExplosionEnt {
                        pos: r.0,
                        timer: ExplosionTimer {
                            period_ms: crate::EXPLOSION_PERIOD_MS,
                            elapsed_ms: 0,
                        },
                    },
            ),
            final(self).explosions_to_spawn@.len() == 0,
            *final(self) == (GameWorld {
                explosions: final(self).explosions,
                explosions_to_spawn: final(self).explosions_to_spawn,
                ..*old(self)
            }),
    {
        let ghost requests = self.explosions_to_spawn@;
        let ghost explosions0 = self.explosions@;
        let n = self.explosions_to_spawn.len();
        let mut i: usize = 0;
        while i < n
            invariant
                0 <= i <= n,
                n == requests.len(),
                self.explosions_to_spawn@ == requests,
                self.wf(),
                self.explosions@ =~= explosions0 + requests.subrange(0, i as int).map_values(
                    |r: ExplosionToSpawn|
                        ExplosionEnt {
                            pos: r.0,
                            timer: ExplosionTimer {
                                period_ms: crate::EXPLOSION_PERIOD_MS,
                                elapsed_ms: 0,
                            },
                        },
                ),
                *self == (GameWorld {
                    explosions: self.explosions,
                    ..*old(self)
                }),
            decreases n - i,
        {
            let r = self.explosions_to_spawn[i];
            let e = ExplosionEnt {
                pos: r.0,
                timer: ExplosionTimer { period_ms: crate::EXPLOSION_PERIOD_MS, elapsed_ms: 0 },
            };
            self.explosions.push(e);
            proof {
                assert(requests.subrange(0, i as int + 1) =~= requests.subrange(0, i as int).push(
                    requests[i as int],
                ));
            }
            i = i + 1;
        }
        self.explosions_to_spawn.clear();
        proof {
            assert(requests.subrange(0, n as int) =~= requests);
        }
    }

    /// Advance every explosion animation by the elapsed time and remove
    /// those that have played all their frames.
    pub fn explosion_animation_system(&mut self, dt_ms: u64)
        requires
            old(self).wf(),
            dt_ms <= DT_LIMIT,
        ensures
            final(self).wf(),
            final(self).explosions@ == advance_explosions_from(old(self).explosions@, dt_ms, 0),
            *final(self) == (GameWorld { explosions: final(self).explosions, ..*old(self) }),
    {
        let ghost explosions0 = self.explosions@;
        let n = self.explosions.len();
        let mut out: Vec<ExplosionEnt> = Vec::new();
        let mut i: usize = 0;
        while i < n
            invariant
                0 <= i <= n,
                n == explosions0.len(),
                self.explosions@ == explosions0,
                dt_ms <= DT_LIMIT,
                forall|k: int| 0 <= k < explosions0.len() ==> (#[trigger] explosions0[k]).wf(),
                forall|k: int| 0 <= k < out@.len() ==> (#[trigger] out@[k]).wf(),
                advance_explosions_from(explosions0, dt_ms, 0) =~= out@ + advance_explosions_from(
                    explosions0,
                    dt_ms,
                    i as int,
                ),
            decreases n - i,
        {
            let e = self.explosions[i];
            let elapsed = e.timer.elapsed_ms + dt_ms;
            let adv = ExplosionEnt {
                pos: e.pos,
                timer: ExplosionTimer { period_ms: e.timer.period_ms, elapsed_ms: elapsed },
            };
            proof {
                assert(explosions0[i as int].wf());
                assert(EXPLOSION_LEN == 16);
                assert(e.timer.elapsed_ms < 16 * e.timer.period_ms);
                assert(adv.timer.wf());
            }
            let frame = adv.timer.frame_index();
            if frame >= EXPLOSION_LEN as u64 {
                proof {
                    assert(advance_explosions_from(explosions0, dt_ms, i as int)
                        =~= advance_explosions_from(explosions0, dt_ms, i as int + 1));
                }
            } else {
                proof {
                    lemma_frame_bounds_elapsed(adv.timer);
                }
                out.push(adv);
                proof {
                    assert(advance_explosions_from(explosions0, dt_ms, i as int) =~= seq![adv]
                        + advance_explosions_from(explosions0, dt_ms, i as int + 1));
                }
            }
            i = i + 1;
        }
        self.explosions = out;
    }
}


/// An enemy after one integration step along its ellipse.
pub open spec fn moved_enemy(e: EnemyEnt, dt: u64) -> EnemyEnt {
    EnemyEnt {
        pos: Vec2I {
            x: orbit_new_x_spec(e.pos, e.formation, dt) as i64,
            y: orbit_new_y_spec(e.pos, e.formation, dt) as i64,
        },
        formation: Formation { angle: orbit_new_angle_spec(e.pos, e.formation, dt) as i64, ..e.formation },
        ..e
    }
}

impl GameWorld {
    /// Advance every enemy one integration step along its assigned
    /// ellipse.
    pub fn enemy_movement_system(&mut self, dt_ms: u64)
        requires
            old(self).wf(),
            dt_ms <= DT_LIMIT,
        ensures
            final(self).wf(),
            final(self).enemies@.len() == old(self).enemies@.len(),
            forall|i: int|
                0 <= i < old(self).enemies@.len() ==> #[trigger] final(self).enemies@[i]
                    == moved_enemy(old(self).enemies@[i], dt_ms),
            *final(self) == (GameWorld { enemies: final(self).enemies, ..*old(self) }),
    {
        let ghost enemies0 = self.enemies@;
        let n = self.enemies.len();
        let mut out: Vec<EnemyEnt> = Vec::new();
        let mut i: usize = 0;
        while i < n
            invariant
                0 <= i <= n,
                n == enemies0.len(),
                self.enemies@ == enemies0,
                dt_ms <= DT_LIMIT,
                forall|k: int| 0 <= k < enemies0.len() ==> (#[trigger] enemies0[k]).wf(),
                out@.len() == i,
                forall|k: int|
                    0 <= k < i ==> #[trigger] out@[k] == moved_enemy(enemies0[k], dt_ms),
                forall|k: int| 0 <= k < out@.len() ==> (#[trigger] out@[k]).wf(),
            decreases n - i,
        {
            let e = self.enemies[i];
            let stepped = orbit_step(e.pos, &e.formation, dt_ms);
            let np = stepped.0;
            let nf = stepped.1;
            out.push(EnemyEnt { pos: np, formation: nf, ..e });
            i = i + 1;
        }
        self.enemies = out;
    }

    /// Move every projectile linearly and despawn those flagged for it
    /// that have left the window by more than the margin; the player's
    /// ship moves the same way but never despawns.
    pub fn movable_system(&mut self, dt_ms: u64)
        requires
            old(self).wf(),
            dt_ms <= DT_LIMIT,
        ensures
            final(self).wf(),
            final(self).player_lasers@ == move_cull_from(
                old(self).player_lasers@,
                dt_ms,
                old(self).win_size,
                0,
            ),
            final(self).enemy_lasers@ == move_cull_from(
                old(self).enemy_lasers@,
                dt_ms,
                old(self).win_size,
                0,
            ),
            (match old(self).player {
                Option::Some(p) => final(self).player == Option::Some(moved_player(p, dt_ms)),
                Option::None => final(self).player is None,
            }),
            *final(self) == (GameWorld {
                player_lasers: final(self).player_lasers,
                enemy_lasers: final(self).enemy_lasers,
                player: final(self).player,
                ..*old(self)
            }),
    {
        let win = self.win_size;
        let pl = move_cull(&self.player_lasers, dt_ms, win);
        self.player_lasers = pl;
        let el = move_cull(&self.enemy_lasers, dt_ms, win);
        self.enemy_lasers = el;
        let p = match &self.player {
            Option::Some(p) => Option::Some(*p),
            Option::None => Option::None,
        };
        if let Option::Some(p) = p {
            let nx = add_clamped(p.pos.x, displacement(p.velocity.x, dt_ms));
            let ny = add_clamped(p.pos.y, displacement(p.velocity.y, dt_ms));
            self.player = Option::Some(PlayerEnt { pos: Vec2I { x: nx, y: ny }, ..p });
        }
    }

    /// Test every live player projectile against every live enemy, in
    /// order, and resolve each overlap: both entities are destroyed,
    /// the live-enemy counter falls by one per destroyed enemy - never
    /// below zero - and exactly one explosion request appears at each
    /// destroyed enemy's position.  A projectile destroys at most one
    /// enemy; one that strikes only an enemy already destroyed this
    /// pass is spent all the same, but the kill is not counted twice:
    /// no second decrement, no second explosion.
    pub fn player_laser_hit_enemy_system(&mut self)
        requires
            old(self).wf(),
        ensures
            final(self).wf(),
            ({
                let r = resolve_spec(old(self).player_lasers@, old(self).enemies@);
                &&& final(self).player_lasers@ == keep_alive(old(self).player_lasers@, r.0)
                &&& final(self).enemies@ == keep_alive(old(self).enemies@, r.1)
                &&& final(self).explosions_to_spawn@ == old(self).explosions_to_spawn@
                    + r.2.map_values(|p: Vec2I| ExplosionToSpawn(p))
                &&& final(self).enemy_count == old(self).enemy_count - count_true(r.1)
                &&& count_true(r.1) <= old(self).enemy_count
            }),
            *final(self) == (GameWorld {
                player_lasers: final(self).player_lasers,
                enemies: final(self).enemies,
                explosions_to_spawn: final(self).explosions_to_spawn,
                enemy_count: final(self).enemy_count,
                ..*old(self)
            }),
    {
        let ghost lasers0 = self.player_lasers@;
        let ghost enemies0 = self.enemies@;
        let ghost booms0 = self.explosions_to_spawn@;
        let n_l = self.player_lasers.len();
        let n_e = self.enemies.len();
        let mut dl = vec_false(n_l);
        let mut de = vec_false(n_e);
        let mut killed: u32 = 0;
        let ghost gbooms: Seq<Vec2I> = Seq::empty();
        proof {
            lemma_count_false_seq(n_e as int, 0);
            assert(booms0 + gbooms.map_values(|p: Vec2I| ExplosionToSpawn(p)) =~= booms0);
        }
        let mut i: usize = 0;
        while i < n_l
            invariant
                0 <= i <= n_l,
                n_l == lasers0.len(),
                n_e == enemies0.len(),
                n_e <= 0xFFFFFFFF,
                self.player_lasers@ == lasers0,
                self.enemies@ == enemies0,
                dl@.len() == n_l,
                de@.len() == n_e,
                forall|k: int| i <= k < n_l ==> !dl@[k],
                forall|k: int| 0 <= k < enemies0.len() ==> (#[trigger] enemies0[k]).wf(),
                forall|k: int| 0 <= k < lasers0.len() ==> (#[trigger] lasers0[k]).wf(),
                killed == count_true(de@),
                killed <= n_e,
                self.explosions_to_spawn@ == booms0 + gbooms.map_values(
                    |p: Vec2I| ExplosionToSpawn(p),
                ),
                forall|k: int|
                    0 <= k < gbooms.len() ==> (#[trigger] gbooms[k]).wf_within(POS_LIMIT),
                resolve_from(lasers0, enemies0, i as int, dl@, de@, gbooms) == resolve_spec(
                    lasers0,
                    enemies0,
                ),
                *self == (GameWorld {
                    explosions_to_spawn: self.explosions_to_spawn,
                    ..*old(self)
                }),
            decreases n_l - i,
        {
            let l = self.player_lasers[i];
            let hit = find_first_hit(&l, &self.enemies, &de);
            match hit {
                Option::Some(j) => {
                    let e = self.enemies[j];
                    proof {
                        lemma_count_true_from_update(de@, 0, j as int);
                        lemma_count_true_from_bound(de@.update(j as int, true), 0);
                    }
                    de[j] = true;
                    dl[i] = true;
                    killed = killed + 1;
                    self.explosions_to_spawn.push(ExplosionToSpawn(e.pos));
                    proof {
                        gbooms = gbooms.push(e.pos);
                        assert(booms0 + gbooms.map_values(|p: Vec2I| ExplosionToSpawn(p))
                            =~= self.explosions_to_spawn@);
                    }
                },
                Option::None => {
                    // a projectile that overlaps only an
                    // already-destroyed target is still spent, with no
                    // second decrement and no explosion
                    if hits_any_dead(&l, &self.enemies, &de) {
                        dl[i] = true;
                    }
                },
            }
            i = i + 1;
        }
        proof {
            lemma_count_true_from_bound(de@, 0);
            lemma_keep_from_len(enemies0, de@, 0);
            lemma_keep_from_len(lasers0, dl@, 0);
            lemma_keep_from_subset(enemies0, de@, 0);
            lemma_keep_from_subset(lasers0, dl@, 0);
        }
        self.enemy_count = self.enemy_count - killed;
        let ne = keep_vec(&self.enemies, &de);
        self.enemies = ne;
        let nl = keep_vec(&self.player_lasers, &dl);
        self.player_lasers = nl;
        proof {
            assert forall|k: int| 0 <= k < self.enemies@.len() implies (
            #[trigger] self.enemies@[k]).wf() by {
                let j = choose|j: int| 0 <= j < enemies0.len() && self.enemies@[k] == enemies0[j];
            }
            assert forall|k: int| 0 <= k < self.player_lasers@.len() implies (
            #[trigger] self.player_lasers@[k]).wf() by {
                let j = choose|j: int| 0 <= j < lasers0.len() && self.player_lasers@[k]
                    == lasers0[j];
            }
        }
    }

    /// Test every live enemy projectile against the player, in order;
    /// the first overlap destroys the player and that projectile, marks
    /// the player state shot at `now_ms`, and requests one explosion at
    /// the player's position.  Later projectiles are left alone: only
    /// one fatal hit matters.  Without a live player nothing changes.
    pub fn enemy_laser_hit_player_system(&mut self, now_ms: u64)
        requires
            old(self).wf(),
        ensures
            final(self).wf(),
            old(self).player is None ==> *final(self) == *old(self),
            (match old(self).player {
                Option::Some(p) => match first_player_hit(old(self).enemy_lasers@, p, 0) {
                    Option::Some(k) => {
                        &&& final(self).player is None
                        &&& final(self).player_state == (PlayerState {
                            on: false,
                            last_shot: Option::Some(now_ms),
                        })
                        &&& final(self).enemy_lasers@ == old(self).enemy_lasers@.remove(k)
                        &&& final(self).explosions_to_spawn@ == old(
                            self,
                        ).explosions_to_spawn@.push(ExplosionToSpawn(p.pos))
                        &&& *final(self) == (GameWorld {
                            player: final(self).player,
                            player_state: final(self).player_state,
                            enemy_lasers: final(self).enemy_lasers,
                            explosions_to_spawn: final(self).explosions_to_spawn,
                            ..*old(self)
                        })
                    },
                    Option::None => *final(self) == *old(self),
                },
                Option::None => true,
            }),
    {
        let p = match &self.player {
            Option::Some(p) => Option::Some(*p),
            Option::None => Option::None,
        };
        if let Option::Some(p) = p {
            match find_first_player_hit(&self.enemy_lasers, &p) {
                Option::Some(k) => {
                    self.player = Option::None;
                    self.player_state.shot(now_ms);
                    let removed = self.enemy_lasers.remove(k);
                    self.explosions_to_spawn.push(ExplosionToSpawn(p.pos));
                },
                Option::None => {},
            }
        }
    }
}

/// Move the projectiles one tick and drop those flagged auto-despawn
/// that have left the window by more than the margin.
fn move_cull(lasers: &Vec<LaserEnt>, dt_ms: u64, win: WinSize) -> (r: Vec<LaserEnt>)
    requires
        forall|k: int| 0 <= k < lasers@.len() ==> (#[trigger] lasers@[k]).wf(),
        dt_ms <= DT_LIMIT,
        win.wf(),
    ensures
        r@ == move_cull_from(lasers@, dt_ms, win, 0),
        forall|k: int| 0 <= k < r@.len() ==> (#[trigger] r@[k]).wf(),
{
    let half_w: i64 = ((win.w as u64) / 2) as i64;
    let half_h: i64 = ((win.h as u64) / 2) as i64;
    let n = lasers.len();
    let mut out: Vec<LaserEnt> = Vec::new();
    let mut i: usize = 0;
    while i < n
        invariant
            0 <= i <= n,
            n == lasers@.len(),
            forall|k: int| 0 <= k < lasers@.len() ==> (#[trigger] lasers@[k]).wf(),
            dt_ms <= DT_LIMIT,
            win.wf(),
            half_w == win.w as int / 2,
            half_h == win.h as int / 2,
            forall|k: int| 0 <= k < out@.len() ==> (#[trigger] out@[k]).wf(),
            move_cull_from(lasers@, dt_ms, win, 0) =~= out@ + move_cull_from(
                lasers@,
                dt_ms,
                win,
                i as int,
            ),
        decreases n - i,
    {
        let l = lasers[i];
        let nx = add_clamped(l.pos.x, displacement(l.velocity.x, dt_ms));
        let ny = add_clamped(l.pos.y, displacement(l.velocity.y, dt_ms));
        let ml = LaserEnt { pos: Vec2I { x: nx, y: ny }, ..l };
        let gone = ml.movable.auto_despawn && (ml.pos.y > half_h + DESPAWN_MARGIN || ml.pos.y
            < -half_h - DESPAWN_MARGIN || ml.pos.x > half_w + DESPAWN_MARGIN || ml.pos.x < -half_w
            - DESPAWN_MARGIN);
        if !gone {
            out.push(ml);
            proof {
                assert(move_cull_from(lasers@, dt_ms, win, i as int) =~= seq![ml]
                    + move_cull_from(lasers@, dt_ms, win, i as int + 1));
                assert(move_cull_from(lasers@, dt_ms, win, 0) =~= out@ + move_cull_from(
                    lasers@,
                    dt_ms,
                    win,
                    i as int + 1,
                ));
            }
        } else {
            proof {
                assert(move_cull_from(lasers@, dt_ms, win, i as int) =~= move_cull_from(
                    lasers@,
                    dt_ms,
                    win,
                    i as int + 1,
                ));
            }
        }
        i = i + 1;
    }
    assert(out@ =~= move_cull_from(lasers@, dt_ms, win, 0));
    out
}

/// Law: an explosion that has run a full sheet of periods is over,
/// while one short of fifteen periods still runs with its frame index
/// at most fourteen.
pub proof fn lemma_explosion_lifecycle(t: ExplosionTimer)
    requires
        t.period_ms > 0,
    ensures
        t.elapsed_ms >= (EXPLOSION_LEN as u64) * t.period_ms ==> t.frame_spec() >= EXPLOSION_LEN,
        t.elapsed_ms < 15 * t.period_ms ==> t.frame_spec() <= 14,
{
    let p = t.period_ms as int;
    let e = t.elapsed_ms as int;
    let q = t.frame_spec();
    lemma_fundamental_div_mod(e, p);
    lemma_mod_bound(e, p);
    assert(EXPLOSION_LEN == 16);
    if e >= 16 * p && q < 16 {
        assert(p * q <= p * 15) by (nonlinear_arith)
            requires
                p > 0 && q <= 15,
        ;
        assert(false);
    }
    if e < 15 * p && q > 14 {
        assert(p * q >= p * 15) by (nonlinear_arith)
            requires
                p > 0 && q >= 15,
        ;
        assert(false);
    }
}

/// A projectile volley maps each new projectile to a distinct firing
/// enemy, in enemy order.
pub open spec fn fired_map(
    m: Seq<int>,
    enemies: Seq<EnemyEnt>,
    old_lasers: Seq<LaserEnt>,
    new_lasers: Seq<LaserEnt>,
) -> bool {
    &&& new_lasers.len() == old_lasers.len() + m.len()
    &&& new_lasers.subrange(0, old_lasers.len() as int) == old_lasers
    &&& forall|k: int|
        0 <= k < m.len() ==> 0 <= #[trigger] m[k] < enemies.len() && new_lasers[old_lasers.len()
            + k] == enemy_laser_of(enemies[m[k]])
    &&& forall|k: int| 0 <= k < m.len() - 1 ==> #[trigger] m[k] < m[k + 1]
}

/// A frame index below the sheet length keeps the elapsed time below
/// the sheet's full duration.
proof fn lemma_frame_bounds_elapsed(t: ExplosionTimer)
    requires
        t.period_ms > 0,
        t.frame_spec() < EXPLOSION_LEN,
    ensures
        t.elapsed_ms < (EXPLOSION_LEN as u64) * t.period_ms,
{
    lemma_fundamental_div_mod(t.elapsed_ms as int, t.period_ms as int);
    lemma_mod_bound(t.elapsed_ms as int, t.period_ms as int);
    assert(t.elapsed_ms as int == t.period_ms * t.frame_spec() + (t.elapsed_ms as int
        % t.period_ms as int));
    assert(t.period_ms * t.frame_spec() <= t.period_ms * (EXPLOSION_LEN - 1)) by (nonlinear_arith)
        requires
            t.period_ms > 0 && t.frame_spec() <= EXPLOSION_LEN - 1,
    ;
    assert((EXPLOSION_LEN as u64) * t.period_ms == t.period_ms * (EXPLOSION_LEN - 1)
        + t.period_ms) by (nonlinear_arith);
}

} // verus!
