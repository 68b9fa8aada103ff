//! Orbital motion: one integration step along an enemy's ellipse.
//!
//! Each tick the entity's phase is advanced, the point on the ellipse at
//! the new phase becomes the target, and the entity moves toward the
//! target by at most `speed * dt`, clamped per axis so it never
//! overshoots.  The phase is committed only once the entity is close
//! enough to the target that advancing it causes no visible jump.

use vstd::prelude::*;
use vstd::arithmetic::div_mod::{lemma_div_is_ordered, lemma_div_multiples_vanish, lemma_div_pos_is_pos, lemma_div_nonincreasing};
use crate::formation::Formation;
use crate::trig::{abs_i, cos_fp, cos_mrad, isqrt, sin_fp, sin_mrad, sqrt_floor};
use crate::{Vec2I, DT_LIMIT, ENEMY_POS_LIMIT};

verus! {

/// The larger of two integers.
pub open spec fn max_i(a: int, b: int) -> int {
    if a >= b {
        a
    } else {
        b
    }
}

/// The smaller of two integers.
pub open spec fn min_i(a: int, b: int) -> int {
    if a <= b {
        a
    } else {
        b
    }
}

/// The farthest the entity may travel this tick, in millipixels.
pub open spec fn max_step_spec(f: Formation, dt_ms: u64) -> int {
    f.speed * dt_ms
}

/// The orbit direction is fixed at formation creation: entities that
/// entered from the left orbit one way, those from the right the other.
pub open spec fn dir_positive(f: Formation) -> bool {
    f.start.x < 0
}

/// The tighter semi-axis of the ellipse.
pub open spec fn min_radius(f: Formation) -> int {
    min_i(f.radius.x as int, f.radius.y as int)
}

/// How far the phase advances this tick, in milliradians, reduced to
/// less than a full turn.  The advance rate is scaled inversely with
/// the tighter semi-axis, keeping angular speed roughly proportional
/// to linear speed regardless of ellipse shape.
pub open spec fn angle_delta_spec(f: Formation, dt_ms: u64) -> int {
    ((1000000 * max_step_spec(f, dt_ms)) / (min_radius(f) * 1571)) % 6284
}

/// The phase after this tick's advance, normalized.
pub open spec fn next_angle_spec(f: Formation, dt_ms: u64) -> int {
    let d = angle_delta_spec(f, dt_ms);
    if dir_positive(f) {
        if f.angle + d < 6284 {
            f.angle + d
        } else {
            f.angle + d - 6284
        }
    } else {
        if f.angle - d >= 0 {
            f.angle - d
        } else {
            f.angle - d + 6284
        }
    }
}

/// A semi-axis scaled by a trigonometric factor, rounding the
/// magnitude toward zero.
pub open spec fn scaled_radius_spec(r: int, c: int) -> int {
    if c >= 0 {
        (r * c) / 1000
    } else {
        -((r * (-c)) / 1000)
    }
}

/// The target point's coordinate on the ellipse at phase `a`.
pub open spec fn target_x_spec(f: Formation, a: int) -> int {
    f.pivot.x + scaled_radius_spec(f.radius.x as int, cos_fp(a))
}

/// The target point's coordinate on the ellipse at phase `a`.
pub open spec fn target_y_spec(f: Formation, a: int) -> int {
    f.pivot.y + scaled_radius_spec(f.radius.y as int, sin_fp(a))
}

/// The straight-line distance from the current position to the target,
/// rounded down.
pub open spec fn orbit_dist_spec(pos: Vec2I, f: Formation, dt_ms: u64) -> int {
    let na = next_angle_spec(f, dt_ms);
    let dx = pos.x - target_x_spec(f, na);
    let dy = pos.y - target_y_spec(f, na);
    sqrt_floor((dx * dx + dy * dy) as nat) as int
}

/// One axis of the move: step from `org` toward `dst` by the share of
/// `num / dist` that falls on this axis, clamped at `dst` so the move
/// never overshoots the target.
pub open spec fn axis_step_spec(org: int, dst: int, num: int, dist: int) -> int {
    let d = org - dst;
    let s = (abs_i(d) * num) / dist;
    if d > 0 {
        max_i(org - s, dst)
    } else {
        min_i(org + s, dst)
    }
}

/// Below this distance the entity counts as settled on its ellipse and
/// the phase advance is committed; the factor is an empirically tuned
/// heuristic with no deeper derivation.
pub open spec fn settle_threshold_spec(f: Formation, dt_ms: u64) -> int {
    (max_step_spec(f, dt_ms) * f.speed) / 20
}

/// The position after one integration step.
pub open spec fn orbit_new_x_spec(pos: Vec2I, f: Formation, dt_ms: u64) -> int {
    let na = next_angle_spec(f, dt_ms);
    let dist = orbit_dist_spec(pos, f, dt_ms);
    if dist == 0 {
        pos.x as int
    } else {
        axis_step_spec(pos.x as int, target_x_spec(f, na), max_step_spec(f, dt_ms), dist)
    }
}

/// The position after one integration step.
pub open spec fn orbit_new_y_spec(pos: Vec2I, f: Formation, dt_ms: u64) -> int {
    let na = next_angle_spec(f, dt_ms);
    let dist = orbit_dist_spec(pos, f, dt_ms);
    if dist == 0 {
        pos.y as int
    } else {
        axis_step_spec(pos.y as int, target_y_spec(f, na), max_step_spec(f, dt_ms), dist)
    }
}

/// The phase stored after the step: advanced if the entity has settled
/// close to the target, held otherwise so the entity keeps closing in.
pub open spec fn orbit_new_angle_spec(pos: Vec2I, f: Formation, dt_ms: u64) -> int {
    if orbit_dist_spec(pos, f, dt_ms) < settle_threshold_spec(f, dt_ms) {
        next_angle_spec(f, dt_ms)
    } else {
        f.angle as int
    }
}

/// One axis of the move stays between the old coordinate and the
/// target, so the distance to the target never grows and is never
/// overshot.
proof fn lemma_axis_step_within(org: int, dst: int, num: int, dist: int)
    requires
        dist > 0,
        num >= 0,
    ensures
        min_i(org, dst) <= axis_step_spec(org, dst, num, dist) <= max_i(org, dst),
        abs_i(axis_step_spec(org, dst, num, dist) - dst) <= abs_i(org - dst),
{
    let d = org - dst;
    lemma_div_pos_is_pos(abs_i(d) * num, dist);
    assert(abs_i(d) * num >= 0) by (nonlinear_arith)
        requires
            num >= 0 && abs_i(d) >= 0,
    ;
}

/// The scaled radius keeps the magnitude of the factor's share of the
/// radius.
proof fn lemma_scaled_radius_bound(r: int, c: int)
    requires
        0 < r,
        -1000 <= c <= 1000,
    ensures
        -r <= scaled_radius_spec(r, c) <= r,
{
    if c >= 0 {
        lemma_div_pos_is_pos(r * c, 1000);
        assert(r * c <= 1000 * r) by (nonlinear_arith)
            requires
                0 < r && 0 <= c <= 1000,
        ;
        lemma_div_le_factor_local(r * c, 1000, r);
    } else {
        lemma_div_pos_is_pos(r * (-c), 1000);
        assert(r * (-c) <= 1000 * r) by (nonlinear_arith)
            requires
                0 < r && 0 < -c <= 1000,
        ;
        lemma_div_le_factor_local(r * (-c), 1000, r);
    }
}

/// If `a <= b * c` with `b` positive, then `a / b <= c`.
proof fn lemma_div_le_factor_local(a: int, b: int, c: int)
    requires
        0 < b,
        0 <= c,
        a <= b * c,
    ensures
        a / b <= c,
{
    lemma_div_is_ordered(a, b * c, b);
    lemma_div_multiples_vanish(c, b);
}

/// A semi-axis scaled by a trigonometric factor, executable.
fn scaled_radius(r: i64, c: i64) -> (v: i64)
    requires
        0 < r <= 0x100000,
        -1000 <= c <= 1000,
    ensures
        v == scaled_radius_spec(r as int, c as int),
        -r <= v <= r,
{
    proof {
        lemma_scaled_radius_bound(r as int, c as int);
    }
    if c >= 0 {
        (((r as u64) * (c as u64)) / 1000) as i64
    } else {
        -((((r as u64) * ((-c) as u64)) / 1000) as i64)
    }
}

/// One integration step: the new position and the formation with its
/// possibly advanced phase.
///
/// The position result never overshoots the target along either axis,
/// the distance to the target never grows along either axis, and a
/// zero distance moves nothing - in particular nothing is ever divided
/// by zero.
pub fn orbit_step(pos: Vec2I, f: &Formation, dt_ms: u64) -> (res: (Vec2I, Formation))
    requires
        f.wf(),
        dt_ms <= DT_LIMIT,
        pos.wf_within(ENEMY_POS_LIMIT),
    ensures
        res.0.x == orbit_new_x_spec(pos, *f, dt_ms),
        res.0.y == orbit_new_y_spec(pos, *f, dt_ms),
        res.1 == (Formation { angle: orbit_new_angle_spec(pos, *f, dt_ms) as i64, ..*f }),
        res.1.wf(),
        res.0.wf_within(ENEMY_POS_LIMIT),
        abs_i(res.0.x - target_x_spec(*f, next_angle_spec(*f, dt_ms))) <= abs_i(
            pos.x - target_x_spec(*f, next_angle_spec(*f, dt_ms)),
        ),
        abs_i(res.0.y - target_y_spec(*f, next_angle_spec(*f, dt_ms))) <= abs_i(
            pos.y - target_y_spec(*f, next_angle_spec(*f, dt_ms)),
        ),
        orbit_dist_spec(pos, *f, dt_ms) == 0 ==> res.0 == pos,
{
    // the farthest the entity may travel this tick
    assert((f.speed as u64) * dt_ms <= 0x280000000) by (nonlinear_arith)
        requires
            0 <= f.speed <= 10000 && 0 <= dt_ms <= 0x100000,
    ;
    let num: u64 = (f.speed as u64) * dt_ms;
    // phase advance, reduced to less than a full turn
    let min_r: i64 = if f.radius.x <= f.radius.y {
        f.radius.x
    } else {
        f.radius.y
    };
    let den: u64 = (min_r as u64) * 1571;
    let delta: u64 = ((1000000 * num) / den) % 6284;
    let na: i64 = if f.start.x < 0 {
        let a = f.angle + (delta as i64);
        if a < 6284 {
            a
        } else {
            a - 6284
        }
    } else {
        let a = f.angle - (delta as i64);
        if a >= 0 {
            a
        } else {
            a + 6284
        }
    };
    // the target point on the ellipse at the new phase
    let c = cos_mrad(na);
    let s = sin_mrad(na);
    let tx: i64 = f.pivot.x + scaled_radius(f.radius.x, c);
    let ty: i64 = f.pivot.y + scaled_radius(f.radius.y, s);
    // distance from the current position to the target
    let dx: i64 = pos.x - tx;
    let dy: i64 = pos.y - ty;
    let adx: u64 = (if dx < 0 {
        -dx
    } else {
        dx
    }) as u64;
    let ady: u64 = (if dy < 0 {
        -dy
    } else {
        dy
    }) as u64;
    assert(adx * adx + ady * ady < 0x1000000000000) by (nonlinear_arith)
        requires
            0 <= adx < 0x800000 && 0 <= ady < 0x800000,
    ;
    assert(adx * adx + ady * ady == dx * dx + dy * dy) by (nonlinear_arith)
        requires
            adx == abs_i(dx as int) && ady == abs_i(dy as int),
    ;
    let dist: u64 = isqrt(adx * adx + ady * ady);
    let (nx, ny): (i64, i64) = if dist == 0 {
        (pos.x, pos.y)
    } else {
        proof {
            lemma_axis_step_within(pos.x as int, tx as int, num as int, dist as int);
            lemma_axis_step_within(pos.y as int, ty as int, num as int, dist as int);
            lemma_div_nonincreasing(adx as int * num as int, dist as int);
            lemma_div_nonincreasing(ady as int * num as int, dist as int);
            lemma_div_pos_is_pos(adx as int * num as int, dist as int);
            lemma_div_pos_is_pos(ady as int * num as int, dist as int);
            assert(adx as int * num as int <= 0x800000 * 0x280000000) by (nonlinear_arith)
                requires
                    0 <= adx <= 0x800000 && 0 <= num <= 0x280000000,
            ;
            assert(ady as int * num as int <= 0x800000 * 0x280000000) by (nonlinear_arith)
                requires
                    0 <= ady <= 0x800000 && 0 <= num <= 0x280000000,
            ;
        }
        let sx: u64 = adx * num / dist;
        let sy: u64 = ady * num / dist;
        let nx: i64 = if dx > 0 {
            let cand = pos.x - (sx as i64);
            if cand >= tx {
                cand
            } else {
                tx
            }
        } else {
            let cand = pos.x + (sx as i64);
            if cand <= tx {
                cand
            } else {
                tx
            }
        };
        let ny: i64 = if dy > 0 {
            let cand = pos.y - (sy as i64);
            if cand >= ty {
                cand
            } else {
                ty
            }
        } else {
            let cand = pos.y + (sy as i64);
            if cand <= ty {
                cand
            } else {
                ty
            }
        };
        (nx, ny)
    };
    // commit the phase only once the entity has settled near the target
    assert(num * (f.speed as u64) <= 0x280000000 * 10000) by (nonlinear_arith)
        requires
            0 <= num <= 0x280000000 && 0 <= f.speed <= 10000,
    ;
    let threshold: u64 = num * (f.speed as u64) / 20;
    let new_angle: i64 = if dist < threshold {
        na
    } else {
        f.angle
    };
    let nf = Formation { angle: new_angle, ..*f };
    (Vec2I { x: nx, y: ny }, nf)
}

} // verus!
