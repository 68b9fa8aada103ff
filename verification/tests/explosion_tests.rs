use invaders::components::{
    EnemyEnt, ExplosionTimer, ExplosionToSpawn, LaserEnt, Movable, Scale2, SpriteSize, Velocity,
};
use invaders::formation::Formation;
use invaders::world::GameWorld;
use invaders::{Vec2I, WinSize};

fn window() -> WinSize {
    WinSize { w: 598_000, h: 676_000 }
}

#[test]
fn fresh_timer_has_standard_period_and_frame_zero() {
    let t = ExplosionTimer::default();
    assert_eq!(t.period_ms, 50);
    assert_eq!(t.elapsed_ms, 0);
    assert_eq!(t.frame_index(), 0);
}

#[test]
fn spawn_request_becomes_running_explosion() {
    let mut w = GameWorld::new(window());
    w.explosions_to_spawn.push(ExplosionToSpawn(Vec2I { x: 7000, y: -2000 }));
    w.explosion_to_spawn_system();
    assert_eq!(w.explosions_to_spawn.len(), 0);
    assert_eq!(w.explosions.len(), 1);
    assert_eq!(w.explosions[0].pos, Vec2I { x: 7000, y: -2000 });
    assert_eq!(w.explosions[0].timer.frame_index(), 0);
}

#[test]
fn explosion_just_short_of_fifteen_periods_still_runs() {
    let mut w = GameWorld::new(window());
    w.explosions_to_spawn.push(ExplosionToSpawn(Vec2I { x: 0, y: 0 }));
    w.explosion_to_spawn_system();
    // 15 * 50 ms minus a millisecond
    w.explosion_animation_system(749);
    assert_eq!(w.explosions.len(), 1);
    let f = w.explosions[0].timer.frame_index();
    assert!(f == 14 || f == 15, "{f}");
}

#[test]
fn explosion_past_full_sheet_is_destroyed() {
    let mut w = GameWorld::new(window());
    w.explosions_to_spawn.push(ExplosionToSpawn(Vec2I { x: 0, y: 0 }));
    w.explosion_to_spawn_system();
    // 16 * 50 ms plus a millisecond
    w.explosion_animation_system(801);
    assert_eq!(w.explosions.len(), 0);
}

#[test]
fn explosion_advances_one_frame_per_period_across_ticks() {
    let mut w = GameWorld::new(window());
    w.explosions_to_spawn.push(ExplosionToSpawn(Vec2I { x: 0, y: 0 }));
    w.explosion_to_spawn_system();
    // fifteen whole periods over many small ticks
    for _ in 0..15 {
        w.explosion_animation_system(50);
        assert_eq!(w.explosions.len(), 1);
    }
    assert_eq!(w.explosions[0].timer.frame_index(), 15);
    // one more period finishes the sheet
    w.explosion_animation_system(50);
    assert_eq!(w.explosions.len(), 0);
}

#[test]
fn kill_to_explosion_round_trip() {
    let mut w = GameWorld::new(window());
    w.enemies.push(EnemyEnt {
        pos: Vec2I { x: 3000, y: 3000 },
        scale: Scale2 { x: 500, y: 500 },
        size: SpriteSize(Vec2I { x: 20, y: 20 }),
        formation: Formation {
            start: Vec2I { x: -399_000, y: 0 },
            radius: Vec2I { x: 100_000, y: 100_000 },
            pivot: Vec2I { x: 0, y: 0 },
            speed: 500,
            angle: 0,
            group: 1,
        },
    });
    w.enemy_count = 1;
    w.player_lasers.push(LaserEnt {
        pos: Vec2I { x: 0, y: 0 },
        scale: Scale2 { x: 500, y: 500 },
        size: SpriteSize(Vec2I { x: 20, y: 20 }),
        velocity: Velocity { x: 0, y: 1000 },
        movable: Movable { auto_despawn: true },
    });
    w.player_laser_hit_enemy_system();
    w.explosion_to_spawn_system();
    assert_eq!(w.explosions.len(), 1);
    assert_eq!(w.explosions[0].pos, Vec2I { x: 3000, y: 3000 });
    // the animation then runs out on its own
    w.explosion_animation_system(801);
    assert_eq!(w.explosions.len(), 0);
}
