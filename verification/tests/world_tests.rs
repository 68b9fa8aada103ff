use invaders::components::{
    EnemyEnt, ExplosionToSpawn, LaserEnt, Movable, PlayerState, Scale2, SpriteSize, Velocity,
};
use invaders::formation::Formation;
use invaders::world::GameWorld;
use invaders::{Vec2I, WinSize};

fn window() -> WinSize {
    WinSize { w: 598_000, h: 676_000 }
}

fn plain_formation() -> Formation {
    Formation {
        start: Vec2I { x: -399_000, y: 0 },
        radius: Vec2I { x: 100_000, y: 100_000 },
        pivot: Vec2I { x: 0, y: 0 },
        speed: 500,
        angle: 0,
        group: 1,
    }
}

/// An enemy centered at `(x, y)` whose collision half-extent is 5 by 5
/// pixels: a 20-pixel sprite at half scale.
fn small_enemy(x: i64, y: i64) -> EnemyEnt {
    EnemyEnt {
        pos: Vec2I { x, y },
        scale: Scale2 { x: 500, y: 500 },
        size: SpriteSize(Vec2I { x: 20, y: 20 }),
        formation: plain_formation(),
    }
}

/// A projectile centered at `(x, y)` with the same 5 by 5 half-extent.
fn small_laser(x: i64, y: i64) -> LaserEnt {
    LaserEnt {
        pos: Vec2I { x, y },
        scale: Scale2 { x: 500, y: 500 },
        size: SpriteSize(Vec2I { x: 20, y: 20 }),
        velocity: Velocity { x: 0, y: 1000 },
        movable: Movable { auto_despawn: true },
    }
}

#[test]
fn two_interval_ticks_spawn_two_enemies_and_a_third_spawns_none() {
    // window bounds 598 x 676, enemy cap 2
    let mut w = GameWorld::new(window());
    w.enemy_spawn_system();
    assert_eq!(w.enemies.len(), 1);
    assert_eq!(w.enemy_count, 1);
    w.enemy_spawn_system();
    assert_eq!(w.enemies.len(), 2);
    assert_eq!(w.enemy_count, 2);
    w.enemy_spawn_system();
    assert_eq!(w.enemies.len(), 2);
    assert_eq!(w.enemy_count, 2);
    // each spawned enemy sits at its formation's start point
    for e in &w.enemies {
        assert_eq!(e.pos, e.formation.start);
        assert!(e.formation.radius.x > 0 && e.formation.radius.y > 0);
    }
}

#[test]
fn spawn_gate_reopens_after_a_kill() {
    let mut w = GameWorld::new(window());
    w.enemy_spawn_system();
    w.enemy_spawn_system();
    assert_eq!(w.enemy_count, 2);
    // at the cap, interval ticks spawn nothing no matter how many
    for _ in 0..5 {
        w.enemy_spawn_system();
    }
    assert_eq!(w.enemy_count, 2);
    // a projectile destroys one enemy
    w.enemies[0] = small_enemy(3000, 3000);
    w.player_lasers.push(small_laser(0, 0));
    w.player_laser_hit_enemy_system();
    assert_eq!(w.enemy_count, 1);
    assert_eq!(w.enemies.len(), 1);
    // the next interval tick spawns exactly one again
    w.enemy_spawn_system();
    assert_eq!(w.enemy_count, 2);
    assert_eq!(w.enemies.len(), 2);
}

#[test]
fn overlapping_projectile_destroys_enemy_once() {
    // a projectile at the origin with half-extent (5, 5) and an enemy
    // at (3, 3) pixels with half-extent (5, 5) overlap
    let mut w = GameWorld::new(window());
    w.enemies.push(small_enemy(3000, 3000));
    w.enemy_count = 1;
    w.player_lasers.push(small_laser(0, 0));
    w.player_laser_hit_enemy_system();
    assert_eq!(w.enemies.len(), 0);
    assert_eq!(w.player_lasers.len(), 0);
    assert_eq!(w.enemy_count, 0);
    assert_eq!(w.explosions_to_spawn.len(), 1);
    assert_eq!(w.explosions_to_spawn[0], ExplosionToSpawn(Vec2I { x: 3000, y: 3000 }));
}

#[test]
fn touching_boxes_collide() {
    // exactly 10 pixels apart: the summed half-extents, touching
    let mut w = GameWorld::new(window());
    w.enemies.push(small_enemy(10_000, 0));
    w.enemy_count = 1;
    w.player_lasers.push(small_laser(0, 0));
    w.player_laser_hit_enemy_system();
    assert_eq!(w.enemies.len(), 0);
    assert_eq!(w.enemy_count, 0);
}

#[test]
fn separated_boxes_do_not_collide() {
    // 11 pixels apart horizontally: beyond the summed half-extents
    let mut w = GameWorld::new(window());
    w.enemies.push(small_enemy(11_000, 0));
    w.enemy_count = 1;
    w.player_lasers.push(small_laser(0, 0));
    w.player_laser_hit_enemy_system();
    assert_eq!(w.enemies.len(), 1);
    assert_eq!(w.player_lasers.len(), 1);
    assert_eq!(w.enemy_count, 1);
    assert_eq!(w.explosions_to_spawn.len(), 0);
}

#[test]
fn one_projectile_destroys_only_the_first_of_two_targets() {
    // the projectile straddles both enemies; only the first in
    // iteration order is destroyed, and the projectile is spent
    let mut w = GameWorld::new(window());
    w.enemies.push(small_enemy(-3000, 0));
    w.enemies.push(small_enemy(3000, 0));
    w.enemy_count = 2;
    w.player_lasers.push(small_laser(0, 0));
    w.player_laser_hit_enemy_system();
    assert_eq!(w.enemies.len(), 1);
    assert_eq!(w.enemies[0].pos, Vec2I { x: 3000, y: 0 });
    assert_eq!(w.enemy_count, 1);
    assert_eq!(w.explosions_to_spawn.len(), 1);
}

#[test]
fn second_projectile_on_dead_target_is_still_spent() {
    // two projectiles overlap the same lone enemy: the enemy dies
    // once, the counter falls once, exactly one explosion is
    // requested, and both projectiles are destroyed
    let mut w = GameWorld::new(window());
    w.enemies.push(small_enemy(0, 0));
    w.enemy_count = 1;
    w.player_lasers.push(small_laser(-2000, 0));
    w.player_lasers.push(small_laser(2000, 0));
    w.player_laser_hit_enemy_system();
    assert_eq!(w.enemies.len(), 0);
    assert_eq!(w.enemy_count, 0);
    assert_eq!(w.player_lasers.len(), 0);
    assert_eq!(w.explosions_to_spawn.len(), 1);
}

#[test]
fn mirrored_scale_keeps_collision_box() {
    // a sprite mirrored by a negative scale must not flip its box
    let mut w = GameWorld::new(window());
    let mut e = small_enemy(3000, 3000);
    e.scale = Scale2 { x: -500, y: -500 };
    w.enemies.push(e);
    w.enemy_count = 1;
    w.player_lasers.push(small_laser(0, 0));
    w.player_laser_hit_enemy_system();
    assert_eq!(w.enemies.len(), 0);
    assert_eq!(w.enemy_count, 0);
}

#[test]
fn enemy_projectile_shoots_down_player() {
    let mut w = GameWorld::new(window());
    w.player_spawn_system(0);
    assert!(w.player.is_some());
    assert!(w.player_state.on);
    let ppos = w.player.unwrap().pos;
    let mut l = small_laser(ppos.x, ppos.y);
    l.velocity = Velocity { x: 0, y: -1000 };
    w.enemy_lasers.push(l);
    w.enemy_laser_hit_player_system(1000);
    assert!(w.player.is_none());
    assert!(!w.player_state.on);
    assert_eq!(w.player_state.last_shot, Some(1000));
    assert_eq!(w.enemy_lasers.len(), 0);
    assert_eq!(w.explosions_to_spawn.len(), 1);
    assert_eq!(w.explosions_to_spawn[0], ExplosionToSpawn(ppos));
}

#[test]
fn player_respawns_only_after_the_delay() {
    let mut w = GameWorld::new(window());
    w.player_spawn_system(0);
    let ppos = w.player.unwrap().pos;
    let mut l = small_laser(ppos.x, ppos.y);
    l.velocity = Velocity { x: 0, y: -1000 };
    w.enemy_lasers.push(l);
    w.enemy_laser_hit_player_system(1000);
    assert!(w.player.is_none());
    // the respawn delay is two seconds
    w.player_spawn_system(2500);
    assert!(w.player.is_none());
    w.player_spawn_system(3000);
    assert!(w.player.is_none());
    w.player_spawn_system(3001);
    assert!(w.player.is_some());
    assert!(w.player_state.on);
    assert_eq!(w.player_state.last_shot, None);
}

#[test]
fn player_spawns_at_the_bottom_center() {
    let mut w = GameWorld::new(window());
    w.player_spawn_system(0);
    let p = w.player.unwrap();
    // -676_000 / 2 + 75 px * 0.5 / 2 = -338_000 + 18_750
    assert_eq!(p.pos, Vec2I { x: 0, y: -319_250 });
    assert_eq!(p.velocity, Velocity { x: 0, y: 0 });
}

#[test]
fn player_fire_spawns_two_symmetric_projectiles() {
    let mut w = GameWorld::new(window());
    w.player_spawn_system(0);
    w.player_fire_system(false);
    assert_eq!(w.player_lasers.len(), 0);
    w.player_fire_system(true);
    assert_eq!(w.player_lasers.len(), 2);
    // offset 144 px * 0.5 / 2 - 5 px = 31 px from the ship's center
    assert_eq!(w.player_lasers[0].pos, Vec2I { x: 31_000, y: -304_250 });
    assert_eq!(w.player_lasers[1].pos, Vec2I { x: -31_000, y: -304_250 });
    assert_eq!(w.player_lasers[0].velocity, Velocity { x: 0, y: 1000 });
    assert!(w.player_lasers[0].movable.auto_despawn);
}

#[test]
fn keyboard_sets_player_velocity() {
    let mut w = GameWorld::new(window());
    w.player_spawn_system(0);
    w.player_keyboard_event_system(true, false, true, false);
    assert_eq!(w.player.unwrap().velocity, Velocity { x: -500, y: 500 });
    w.player_keyboard_event_system(false, true, false, true);
    assert_eq!(w.player.unwrap().velocity, Velocity { x: 500, y: -500 });
    w.player_keyboard_event_system(false, false, false, false);
    assert_eq!(w.player.unwrap().velocity, Velocity { x: 0, y: 0 });
}

#[test]
fn movable_system_moves_and_despawns() {
    let mut w = GameWorld::new(window());
    // a projectile moving up at full speed covers 8 px in 16 ms
    w.player_lasers.push(small_laser(0, 0));
    w.movable_system(16);
    assert_eq!(w.player_lasers.len(), 1);
    assert_eq!(w.player_lasers[0].pos, Vec2I { x: 0, y: 8000 });
    // one just inside the margin leaves it on the next tick and is gone
    w.player_lasers.push(small_laser(0, 537_000));
    w.movable_system(16);
    assert_eq!(w.player_lasers.len(), 1);
    assert_eq!(w.player_lasers[0].pos, Vec2I { x: 0, y: 16_000 });
}

#[test]
fn player_moves_but_never_despawns() {
    let mut w = GameWorld::new(window());
    w.player_spawn_system(0);
    w.player_keyboard_event_system(false, true, false, false);
    let y0 = w.player.unwrap().pos.y;
    w.movable_system(16);
    // half speed: 4 px in 16 ms
    let p = w.player.unwrap();
    assert_eq!(p.pos, Vec2I { x: 4000, y: y0 });
}

#[test]
fn enemy_fire_spawns_projectiles_below_enemies() {
    let mut w = GameWorld::new(window());
    w.enemies.push(small_enemy(10_000, 50_000));
    w.enemies.push(small_enemy(-20_000, 80_000));
    w.enemy_count = 2;
    // each enemy fires with chance one in sixty per tick; over three
    // thousand ticks at least one volley is all but certain
    for _ in 0..3000 {
        let before = w.enemy_lasers.len();
        w.enemy_fire_system();
        let added = w.enemy_lasers.len() - before;
        assert!(added <= 2);
    }
    assert!(!w.enemy_lasers.is_empty());
    for l in &w.enemy_lasers {
        assert!(l.pos.x == 10_000 || l.pos.x == -20_000);
        let expected_y = if l.pos.x == 10_000 { 50_000 - 15_000 } else { 80_000 - 15_000 };
        assert_eq!(l.pos.y, expected_y);
        assert_eq!(l.velocity, Velocity { x: 0, y: -1000 });
        assert!(l.movable.auto_despawn);
    }
}

#[test]
fn systems_skip_an_absent_player() {
    let mut w = GameWorld::new(window());
    assert!(w.player.is_none());
    // firing, steering and enemy projectiles all find no player
    w.player_fire_system(true);
    assert_eq!(w.player_lasers.len(), 0);
    w.player_keyboard_event_system(true, false, false, false);
    w.enemy_lasers.push(small_laser(0, 0));
    w.enemy_laser_hit_player_system(77);
    assert!(w.player.is_none());
    assert_eq!(w.enemy_lasers.len(), 1);
    assert_eq!(w.explosions_to_spawn.len(), 0);
    assert_eq!(w.player_state.last_shot, None);
}

#[test]
fn collision_pass_on_empty_tables_changes_nothing() {
    let mut w = GameWorld::new(window());
    w.player_laser_hit_enemy_system();
    assert_eq!(w.enemy_count, 0);
    assert_eq!(w.explosions_to_spawn.len(), 0);
    // projectiles with no targets survive the pass
    w.player_lasers.push(small_laser(0, 0));
    w.player_laser_hit_enemy_system();
    assert_eq!(w.player_lasers.len(), 1);
}

#[test]
fn player_state_defaults_and_transitions() {
    let mut s = PlayerState::default();
    assert!(!s.on);
    assert_eq!(s.last_shot, None);
    s.spawned();
    assert!(s.on);
    assert_eq!(s.last_shot, None);
    s.shot(4242);
    assert!(!s.on);
    assert_eq!(s.last_shot, Some(4242));
    s.spawned();
    assert!(s.on);
    assert_eq!(s.last_shot, None);
}

#[test]
fn sprite_size_from_pair() {
    let s = SpriteSize::from((144, 75));
    assert_eq!(s.0, Vec2I { x: 144, y: 75 });
}
