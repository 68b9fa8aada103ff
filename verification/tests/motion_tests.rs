use invaders::formation::Formation;
use invaders::motion::orbit_step;
use invaders::Vec2I;

/// A formation whose target point at the advanced phase is exactly
/// `(pivot.x + radius.x, pivot.y)`: the start lies on the right, so the
/// phase runs backward, and the stored phase equals one tick's advance.
fn formation_aimed_at_axis() -> Formation {
    // speed 500 px/s and a 16 ms tick advance the phase by
    // 1_000_000 * 8000 / (100_000 * 1571) = 50 milliradians
    Formation {
        start: Vec2I { x: 399_000, y: 0 },
        radius: Vec2I { x: 100_000, y: 100_000 },
        pivot: Vec2I { x: 0, y: 0 },
        speed: 500,
        angle: 50,
        group: 1,
    }
}

#[test]
fn step_moves_toward_target_without_overshoot() {
    let f = formation_aimed_at_axis();
    // target is (100_000, 0); the entity sits 200 px away on the axis
    let (pos, nf) = orbit_step(Vec2I { x: 300_000, y: 0 }, &f, 16);
    // one tick's travel is 8 px = 8000 millipixels
    assert_eq!(pos, Vec2I { x: 292_000, y: 0 });
    // 200 px is not yet within the settling threshold of 200_000
    // millipixels, so the phase is held
    assert_eq!(nf.angle, 50);
    assert_eq!(nf.radius, f.radius);
    assert_eq!(nf.pivot, f.pivot);
}

#[test]
fn step_clamps_at_target_and_settles() {
    let f = formation_aimed_at_axis();
    // only 3 px from the target: the full 8 px step would overshoot
    let (pos, nf) = orbit_step(Vec2I { x: 103_000, y: 0 }, &f, 16);
    assert_eq!(pos, Vec2I { x: 100_000, y: 0 });
    // within the settling threshold, so the phase advanced: 50 - 50 = 0
    assert_eq!(nf.angle, 0);
}

#[test]
fn zero_distance_changes_nothing() {
    // at phase 1571 the target is exactly (pivot.x, pivot.y + radius.y)
    let f = Formation {
        start: Vec2I { x: -399_000, y: 0 },
        radius: Vec2I { x: 1000, y: 1000 },
        pivot: Vec2I { x: 500_000, y: 500_000 },
        speed: 500,
        angle: 1571,
        group: 1,
    };
    let on_target = Vec2I { x: 500_000, y: 501_000 };
    // a zero-length tick leaves the phase alone, so the entity is
    // exactly on its target: distance zero, no division, no movement
    let (pos, nf) = orbit_step(on_target, &f, 0);
    assert_eq!(pos, on_target);
    assert_eq!(nf.angle, 1571);
}

#[test]
fn per_axis_distance_never_grows() {
    let f = formation_aimed_at_axis();
    // target is (100_000, 0) at the advanced phase
    let starts = [
        Vec2I { x: 300_000, y: 40_000 },
        Vec2I { x: 100_100, y: -30 },
        Vec2I { x: -250_000, y: -250_000 },
        Vec2I { x: 100_000, y: 0 },
    ];
    for s in starts {
        let (pos, _) = orbit_step(s, &f, 16);
        let (tx, ty) = (100_000i64, 0i64);
        assert!((pos.x - tx).abs() <= (s.x - tx).abs(), "{s:?} -> {pos:?}");
        assert!((pos.y - ty).abs() <= (s.y - ty).abs(), "{s:?} -> {pos:?}");
    }
}
