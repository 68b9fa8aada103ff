//! Collision resolution: axis-aligned bounding-box tests between
//! projectiles and targets, resolved once per tick with first-match-wins
//! deduplication.
//!
//! A projectile destroys at most one live target per tick (the first it
//! overlaps, in iteration order); a target already destroyed this tick
//! absorbs later projectiles without being counted again - such a
//! projectile is still spent, but causes no second decrement and no
//! second explosion.  Every kill emits exactly one explosion request at
//! the target's position.

use vstd::prelude::*;
use crate::components::{EnemyEnt, LaserEnt, PlayerEnt, Scale2, SpriteSize};
use crate::trig::abs_i;
use crate::Vec2I;

verus! {

/// The collision half-extent of a sprite along one axis: the base size
/// in pixels times the magnitude of the scale in per-mille gives the
/// full extent in millipixels; half of that is the half-extent.  The
/// magnitude is taken so a mirrored sprite keeps its collision box.
pub open spec fn half_extent_x(size: SpriteSize, scale: Scale2) -> int {
    (size.0.x * abs_i(scale.x as int)) / 2
}

/// The collision half-extent of a sprite along the vertical axis.
pub open spec fn half_extent_y(size: SpriteSize, scale: Scale2) -> int {
    (size.0.y * abs_i(scale.y as int)) / 2
}

/// Two axis-aligned boxes, given by center, base size and scale,
/// overlap when they meet along both axes (touching counts).
pub open spec fn overlap_spec(
    p1: Vec2I,
    s1: SpriteSize,
    c1: Scale2,
    p2: Vec2I,
    s2: SpriteSize,
    c2: Scale2,
) -> bool {
    &&& abs_i(p1.x - p2.x) <= half_extent_x(s1, c1) + half_extent_x(s2, c2)
    &&& abs_i(p1.y - p2.y) <= half_extent_y(s1, c1) + half_extent_y(s2, c2)
}

/// Whether a projectile's box overlaps an enemy's box.
pub open spec fn hits_enemy(l: LaserEnt, e: EnemyEnt) -> bool {
    overlap_spec(l.pos, l.size, l.scale, e.pos, e.size, e.scale)
}

/// Whether a projectile's box overlaps the player's box.
pub open spec fn hits_player(l: LaserEnt, p: PlayerEnt) -> bool {
    overlap_spec(l.pos, l.size, l.scale, p.pos, p.size, p.scale)
}

/// The bounding-box test, executable.
pub fn boxes_overlap(
    p1: Vec2I,
    s1: SpriteSize,
    c1: Scale2,
    p2: Vec2I,
    s2: SpriteSize,
    c2: Scale2,
) -> (b: bool)
    requires
        s1.wf(),
        s2.wf(),
        c1.wf(),
        c2.wf(),
        p1.wf_within(crate::POS_LIMIT),
        p2.wf_within(crate::POS_LIMIT),
    ensures
        b == overlap_spec(p1, s1, c1, p2, s2, c2),
{
    let acx1: u64 = (if c1.x < 0 {
        -c1.x
    } else {
        c1.x
    }) as u64;
    let acy1: u64 = (if c1.y < 0 {
        -c1.y
    } else {
        c1.y
    }) as u64;
    let acx2: u64 = (if c2.x < 0 {
        -c2.x
    } else {
        c2.x
    }) as u64;
    let acy2: u64 = (if c2.y < 0 {
        -c2.y
    } else {
        c2.y
    }) as u64;
    assert((s1.0.x as u64) * acx1 <= 0x100000 * 2000 && (s1.0.y as u64) * acy1 <= 0x100000 * 2000
        && (s2.0.x as u64) * acx2 <= 0x100000 * 2000 && (s2.0.y as u64) * acy2 <= 0x100000
        * 2000) by (nonlinear_arith)
        requires
            0 <= s1.0.x <= 0x100000 && 0 <= s1.0.y <= 0x100000 && 0 <= s2.0.x <= 0x100000 && 0
                <= s2.0.y <= 0x100000 && 0 <= acx1 <= 2000 && 0 <= acy1 <= 2000 && 0 <= acx2
                <= 2000 && 0 <= acy2 <= 2000,
    ;
    let hx1: u64 = (s1.0.x as u64) * acx1 / 2;
    let hy1: u64 = (s1.0.y as u64) * acy1 / 2;
    let hx2: u64 = (s2.0.x as u64) * acx2 / 2;
    let hy2: u64 = (s2.0.y as u64) * acy2 / 2;
    let dx: i64 = p1.x - p2.x;
    let dy: i64 = p1.y - p2.y;
    let adx: u64 = (if dx < 0 {
        -dx
    } else {
        dx
    }) as u64;
    let ady: u64 = (if dy < 0 {
        -dy
    } else {
        dy
    }) as u64;
    adx <= hx1 + hx2 && ady <= hy1 + hy2
}

/// The first target from index `j` on that is still alive and overlaps
/// the projectile.
pub open spec fn first_hit(l: LaserEnt, enemies: Seq<EnemyEnt>, dead: Seq<bool>, j: int) -> Option<int>
    decreases enemies.len() - j,
    when 0 <= j <= enemies.len() && dead.len() == enemies.len()
{
    if j >= enemies.len() {
        Option::None
    } else if !dead[j] && hits_enemy(l, enemies[j]) {
        Option::Some(j)
    } else {
        first_hit(l, enemies, dead, j + 1)
    }
}

/// Whether the projectile overlaps some target, from index `j` on,
/// that was already destroyed this pass.
pub open spec fn hits_dead_target(l: LaserEnt, enemies: Seq<EnemyEnt>, dead: Seq<bool>, j: int) -> bool
    decreases enemies.len() - j,
    when 0 <= j <= enemies.len() && dead.len() == enemies.len()
{
    if j >= enemies.len() {
        false
    } else if dead[j] && hits_enemy(l, enemies[j]) {
        true
    } else {
        hits_dead_target(l, enemies, dead, j + 1)
    }
}

/// A sequence of `n` cleared flags.
pub open spec fn false_seq(n: int) -> Seq<bool> {
    Seq::new(n as nat, |i: int| false)
}

/// The whole resolution pass from projectile `i` on: each projectile
/// destroys the first still-alive target it overlaps, both are flagged,
/// and an explosion request is recorded at the target's position.  A
/// projectile that overlaps no live target but does overlap one already
/// destroyed this pass is spent all the same, with no other effect.
pub open spec fn resolve_from(
    lasers: Seq<LaserEnt>,
    enemies: Seq<EnemyEnt>,
    i: int,
    dead_l: Seq<bool>,
    dead_e: Seq<bool>,
    booms: Seq<Vec2I>,
) -> (Seq<bool>, Seq<bool>, Seq<Vec2I>)
    decreases lasers.len() - i,
    when 0 <= i <= lasers.len() && dead_l.len() == lasers.len() && dead_e.len() == enemies.len()
{
    if i >= lasers.len() {
        (dead_l, dead_e, booms)
    } else {
        match first_hit(lasers[i], enemies, dead_e, 0) {
            Option::Some(j) => resolve_from(
                lasers,
                enemies,
                i + 1,
                dead_l.update(i, true),
                dead_e.update(j, true),
                booms.push(enemies[j].pos),
            ),
            Option::None => {
                if hits_dead_target(lasers[i], enemies, dead_e, 0) {
                    resolve_from(lasers, enemies, i + 1, dead_l.update(i, true), dead_e, booms)
                } else {
                    resolve_from(lasers, enemies, i + 1, dead_l, dead_e, booms)
                }
            },
        }
    }
}

/// The resolution pass over all projectiles, starting with everything
/// alive: which projectiles died, which targets died, and where the
/// explosions go, in kill order.
pub open spec fn resolve_spec(lasers: Seq<LaserEnt>, enemies: Seq<EnemyEnt>) -> (Seq<bool>, Seq<bool>, Seq<Vec2I>) {
    resolve_from(lasers, enemies, 0, false_seq(lasers.len() as int), false_seq(enemies.len() as int), Seq::empty())
}

/// How many flags are set from index `i` on.
pub open spec fn count_true_from(s: Seq<bool>, i: int) -> int
    decreases s.len() - i,
    when 0 <= i <= s.len()
{
    if i >= s.len() {
        0
    } else {
        (if s[i] {
            1int
        } else {
            0int
        }) + count_true_from(s, i + 1)
    }
}

/// How many flags are set.
pub open spec fn count_true(s: Seq<bool>) -> int {
    count_true_from(s, 0)
}

/// The elements whose flag is clear, from index `i` on, in order.
pub open spec fn keep_from<T>(s: Seq<T>, dead: Seq<bool>, i: int) -> Seq<T>
    decreases s.len() - i,
    when 0 <= i <= s.len() && dead.len() == s.len()
{
    if i >= s.len() {
        Seq::empty()
    } else if dead[i] {
        keep_from(s, dead, i + 1)
    } else {
        seq![s[i]] + keep_from(s, dead, i + 1)
    }
}

/// The elements whose flag is clear, in order.
pub open spec fn keep_alive<T>(s: Seq<T>, dead: Seq<bool>) -> Seq<T> {
    keep_from(s, dead, 0)
}

/// Flag counts are bounded by the number of flags.
pub proof fn lemma_count_true_from_bound(s: Seq<bool>, i: int)
    requires
        0 <= i <= s.len(),
    ensures
        0 <= count_true_from(s, i) <= s.len() - i,
    decreases s.len() - i,
{
    if i < s.len() {
        lemma_count_true_from_bound(s, i + 1);
    }
}

/// Setting a clear flag raises the count by one; flags before the
/// cursor do not change counts from the cursor on.
pub proof fn lemma_count_true_from_update(s: Seq<bool>, i: int, j: int)
    requires
        0 <= i <= s.len(),
        0 <= j < s.len(),
        !s[j],
    ensures
        count_true_from(s.update(j, true), i) == count_true_from(s, i) + (if i <= j {
            1int
        } else {
            0int
        }),
    decreases s.len() - i,
{
    if i < s.len() {
        lemma_count_true_from_update(s, i + 1, j);
    }
}

/// What survives is what was not flagged: the kept length is the
/// input length less the number of set flags.
pub proof fn lemma_keep_from_len<T>(s: Seq<T>, dead: Seq<bool>, i: int)
    requires
        0 <= i <= s.len(),
        dead.len() == s.len(),
    ensures
        keep_from(s, dead, i).len() == s.len() - i - count_true_from(dead, i),
    decreases s.len() - i,
{
    if i < s.len() {
        lemma_keep_from_len(s, dead, i + 1);
        lemma_count_true_from_bound(dead, i + 1);
    }
}

/// Law: in one resolution pass every kill is counted exactly once -
/// each destroyed target matches exactly one explosion request, every
/// kill spends a projectile (a projectile striking an already-destroyed
/// target is spent without a kill), and no count exceeds what exists.
pub proof fn lemma_resolve_counts(lasers: Seq<LaserEnt>, enemies: Seq<EnemyEnt>)
    ensures
        ({
            let r = resolve_spec(lasers, enemies);
            &&& r.0.len() == lasers.len()
            &&& r.1.len() == enemies.len()
            &&& count_true(r.0) >= r.2.len()
            &&& count_true(r.1) == r.2.len()
            &&& r.2.len() <= lasers.len()
            &&& r.2.len() <= enemies.len()
        }),
{
    lemma_resolve_from_counts(
        lasers,
        enemies,
        0,
        false_seq(lasers.len() as int),
        false_seq(enemies.len() as int),
        Seq::empty(),
    );
    lemma_count_false_seq(lasers.len() as int, 0);
    lemma_count_false_seq(enemies.len() as int, 0);
    let r = resolve_spec(lasers, enemies);
    lemma_count_true_from_bound(r.0, 0);
    lemma_count_true_from_bound(r.1, 0);
}

/// Law: a destroy is only ever emitted for a target some projectile
/// overlaps - no phantom kills.
pub proof fn lemma_resolve_destroys_only_overlapping(lasers: Seq<LaserEnt>, enemies: Seq<EnemyEnt>)
    ensures
        forall|j: int|
            0 <= j < enemies.len() && #[trigger] resolve_spec(lasers, enemies).1[j] ==> exists|k: int|
                0 <= k < lasers.len() && hits_enemy(lasers[k], enemies[j]),
{
    lemma_resolve_from_hits(
        lasers,
        enemies,
        0,
        false_seq(lasers.len() as int),
        false_seq(enemies.len() as int),
        Seq::empty(),
    );
}

/// A target flagged during the pass, and not flagged before it, was
/// overlapped by one of the remaining projectiles.
proof fn lemma_resolve_from_hits(
    lasers: Seq<LaserEnt>,
    enemies: Seq<EnemyEnt>,
    i: int,
    dead_l: Seq<bool>,
    dead_e: Seq<bool>,
    booms: Seq<Vec2I>,
)
    requires
        0 <= i <= lasers.len(),
        dead_l.len() == lasers.len(),
        dead_e.len() == enemies.len(),
    ensures
        forall|j: int|
            0 <= j < enemies.len() && !dead_e[j] && #[trigger] resolve_from(
                lasers,
                enemies,
                i,
                dead_l,
                dead_e,
                booms,
            ).1[j] ==> exists|k: int| i <= k < lasers.len() && hits_enemy(lasers[k], enemies[j]),
    decreases lasers.len() - i,
{
    if i < lasers.len() {
        match first_hit(lasers[i], enemies, dead_e, 0) {
            Option::Some(j0) => {
                lemma_first_hit_in_range(lasers[i], enemies, dead_e, 0);
                let dl1 = dead_l.update(i, true);
                let de1 = dead_e.update(j0, true);
                let b1 = booms.push(enemies[j0].pos);
                lemma_resolve_from_hits(lasers, enemies, i + 1, dl1, de1, b1);
                let r = resolve_from(lasers, enemies, i, dead_l, dead_e, booms);
                assert(r == resolve_from(lasers, enemies, i + 1, dl1, de1, b1));
                assert forall|j: int| 0 <= j < enemies.len() && !dead_e[j] && #[trigger] r.1[j]
                    implies exists|k: int|
                    i <= k < lasers.len() && hits_enemy(lasers[k], enemies[j]) by {
                    if j == j0 {
                        assert(i <= i < lasers.len() && hits_enemy(lasers[i], enemies[j]));
                    } else {
                        assert(!de1[j]);
                        assert(resolve_from(lasers, enemies, i + 1, dl1, de1, b1).1[j]);
                        let k = choose|k: int|
                            i + 1 <= k < lasers.len() && hits_enemy(lasers[k], enemies[j]);
                        assert(i <= k < lasers.len() && hits_enemy(lasers[k], enemies[j]));
                    }
                }
            },
            Option::None => {
                let dl1 = if hits_dead_target(lasers[i], enemies, dead_e, 0) {
                    dead_l.update(i, true)
                } else {
                    dead_l
                };
                lemma_resolve_from_hits(lasers, enemies, i + 1, dl1, dead_e, booms);
                let r = resolve_from(lasers, enemies, i, dead_l, dead_e, booms);
                assert(r == resolve_from(lasers, enemies, i + 1, dl1, dead_e, booms));
                assert forall|j: int| 0 <= j < enemies.len() && !dead_e[j] && #[trigger] r.1[j]
                    implies exists|k: int|
                    i <= k < lasers.len() && hits_enemy(lasers[k], enemies[j]) by {
                    assert(resolve_from(lasers, enemies, i + 1, dl1, dead_e, booms).1[j]);
                    let k = choose|k: int|
                        i + 1 <= k < lasers.len() && hits_enemy(lasers[k], enemies[j]);
                    assert(i <= k < lasers.len() && hits_enemy(lasers[k], enemies[j]));
                }
            },
        }
    }
}

/// What survives the filter was already there.
pub proof fn lemma_keep_from_subset<T>(s: Seq<T>, dead: Seq<bool>, i: int)
    requires
        0 <= i <= s.len(),
        dead.len() == s.len(),
    ensures
        forall|k: int|
            0 <= k < keep_from(s, dead, i).len() ==> exists|j: int|
                i <= j < s.len() && #[trigger] keep_from(s, dead, i)[k] == s[j],
    decreases s.len() - i,
{
    if i < s.len() {
        lemma_keep_from_subset(s, dead, i + 1);
        let cur = keep_from(s, dead, i);
        let rest = keep_from(s, dead, i + 1);
        if dead[i] {
        } else {
            assert forall|k: int| 0 <= k < cur.len() implies exists|j: int|
                i <= j < s.len() && #[trigger] cur[k] == s[j] by {
                if k == 0 {
                    assert(cur[0] == s[i]);
                } else {
                    assert(cur[k] == rest[k - 1]);
                    let j = choose|j: int| i + 1 <= j < s.len() && rest[k - 1] == s[j];
                    assert(cur[k] == s[j]);
                }
            }
        }
    }
}

/// A sequence of cleared flags has count zero.
pub proof fn lemma_count_false_seq(n: int, i: int)
    requires
        0 <= i <= n,
    ensures
        count_true_from(false_seq(n), i) == 0,
    decreases n - i,
{
    if i < n {
        lemma_count_false_seq(n, i + 1);
    }
}

/// Each resolution step either flags one projectile and one target and
/// records one explosion, flags one spent projectile alone, or does
/// nothing.
proof fn lemma_resolve_from_counts(
    lasers: Seq<LaserEnt>,
    enemies: Seq<EnemyEnt>,
    i: int,
    dead_l: Seq<bool>,
    dead_e: Seq<bool>,
    booms: Seq<Vec2I>,
)
    requires
        0 <= i <= lasers.len(),
        dead_l.len() == lasers.len(),
        dead_e.len() == enemies.len(),
        forall|k: int| i <= k < lasers.len() ==> !dead_l[k],
    ensures
        ({
            let r = resolve_from(lasers, enemies, i, dead_l, dead_e, booms);
            &&& r.0.len() == lasers.len()
            &&& r.1.len() == enemies.len()
            &&& count_true(r.0) - count_true(dead_l) >= r.2.len() - booms.len()
            &&& count_true(r.1) - count_true(dead_e) == r.2.len() - booms.len()
            &&& r.2.len() >= booms.len()
            &&& r.2.len() - booms.len() <= lasers.len() - i
        }),
    decreases lasers.len() - i,
{
    if i < lasers.len() {
        match first_hit(lasers[i], enemies, dead_e, 0) {
            Option::Some(j) => {
                lemma_first_hit_in_range(lasers[i], enemies, dead_e, 0);
                lemma_count_true_from_update(dead_l, 0, i);
                lemma_count_true_from_update(dead_e, 0, j);
                lemma_resolve_from_counts(
                    lasers,
                    enemies,
                    i + 1,
                    dead_l.update(i, true),
                    dead_e.update(j, true),
                    booms.push(enemies[j].pos),
                );
            },
            Option::None => {
                if hits_dead_target(lasers[i], enemies, dead_e, 0) {
                    lemma_count_true_from_update(dead_l, 0, i);
                    lemma_resolve_from_counts(
                        lasers,
                        enemies,
                        i + 1,
                        dead_l.update(i, true),
                        dead_e,
                        booms,
                    );
                } else {
                    lemma_resolve_from_counts(lasers, enemies, i + 1, dead_l, dead_e, booms);
                }
            },
        }
    }
}

/// A found hit names a still-alive target in range.
pub proof fn lemma_first_hit_in_range(l: LaserEnt, enemies: Seq<EnemyEnt>, dead: Seq<bool>, j: int)
    requires
        0 <= j <= enemies.len(),
        dead.len() == enemies.len(),
    ensures
        match first_hit(l, enemies, dead, j) {
            Option::Some(k) => j <= k < enemies.len() && !dead[k] && hits_enemy(l, enemies[k]),
            Option::None => true,
        },
    decreases enemies.len() - j,
{
    if j < enemies.len() {
        if !dead[j] && hits_enemy(l, enemies[j]) {
        } else {
            lemma_first_hit_in_range(l, enemies, dead, j + 1);
        }
    }
}

/// Law: a lone projectile overlapping a lone target destroys exactly
/// both, with exactly one explosion at the target's position.
pub proof fn lemma_single_pair_resolved(l: LaserEnt, e: EnemyEnt)
    requires
        hits_enemy(l, e),
    ensures
        resolve_spec(seq![l], seq![e]) == (seq![true], seq![true], seq![e.pos]),
{
    let lasers = seq![l];
    let enemies = seq![e];
    let dl0 = false_seq(1);
    let de0 = false_seq(1);
    assert(first_hit(lasers[0], enemies, de0, 0) == Option::Some(0int));
    let dl1 = dl0.update(0, true);
    let de1 = de0.update(0, true);
    let b1 = Seq::<Vec2I>::empty().push(e.pos);
    assert(resolve_from(lasers, enemies, 1, dl1, de1, b1) == (dl1, de1, b1));
    assert(dl1 =~= seq![true]);
    assert(de1 =~= seq![true]);
    assert(b1 =~= seq![e.pos]);
}

/// Law: two projectiles overlapping one target destroy it exactly once
/// - one kill, one explosion - and the second projectile, striking the
/// already-destroyed target, is spent all the same.
pub proof fn lemma_second_projectile_spent(l1: LaserEnt, l2: LaserEnt, e: EnemyEnt)
    requires
        hits_enemy(l1, e),
        hits_enemy(l2, e),
    ensures
        resolve_spec(seq![l1, l2], seq![e]) == (seq![true, true], seq![true], seq![e.pos]),
{
    let lasers = seq![l1, l2];
    let enemies = seq![e];
    let dl0 = false_seq(2);
    let de0 = false_seq(1);
    assert(first_hit(lasers[0], enemies, de0, 0) == Option::Some(0int));
    let dl1 = dl0.update(0, true);
    let de1 = de0.update(0, true);
    let b1 = Seq::<Vec2I>::empty().push(e.pos);
    assert(first_hit(lasers[1], enemies, de1, 1) is None);
    assert(first_hit(lasers[1], enemies, de1, 0) is None);
    assert(hits_dead_target(lasers[1], enemies, de1, 0));
    let dl2 = dl1.update(1, true);
    assert(resolve_from(lasers, enemies, 2, dl2, de1, b1) == (dl2, de1, b1));
    assert(resolve_from(lasers, enemies, 1, dl1, de1, b1) == resolve_from(
        lasers,
        enemies,
        2,
        dl2,
        de1,
        b1,
    ));
    assert(resolve_from(lasers, enemies, 0, dl0, de0, Seq::empty()) == resolve_from(
        lasers,
        enemies,
        1,
        dl1,
        de1,
        b1,
    ));
    assert(dl2 =~= seq![true, true]);
    assert(de1 =~= seq![true]);
    assert(b1 =~= seq![e.pos]);
}

/// Find the first still-alive target this projectile overlaps.
pub fn find_first_hit(l: &LaserEnt, enemies: &Vec<EnemyEnt>, dead: &Vec<bool>) -> (r: Option<usize>)
    requires
        l.wf(),
        forall|k: int| 0 <= k < enemies@.len() ==> (#[trigger] enemies@[k]).wf(),
        dead@.len() == enemies@.len(),
    ensures
        match r {
            Option::Some(j) => {
                &&& j < enemies@.len()
                &&& first_hit(*l, enemies@, dead@, 0) == Option::Some(j as int)
                &&& !dead@[j as int]
                &&& hits_enemy(*l, enemies@[j as int])
            },
            Option::None => first_hit(*l, enemies@, dead@, 0) is None,
        },
{
    let n = enemies.len();
    let mut j: usize = 0;
    while j < n
        invariant
            0 <= j <= n,
            n == enemies@.len(),
            dead@.len() == enemies@.len(),
            l.wf(),
            forall|k: int| 0 <= k < enemies@.len() ==> (#[trigger] enemies@[k]).wf(),
            first_hit(*l, enemies@, dead@, 0) == first_hit(*l, enemies@, dead@, j as int),
        decreases n - j,
    {
        if !dead[j] {
            let e = enemies[j];
            if boxes_overlap(l.pos, l.size, l.scale, e.pos, e.size, e.scale) {
                return Option::Some(j);
            }
        }
        j = j + 1;
    }
    Option::None
}

/// Whether this projectile overlaps some target already destroyed this
/// pass.
pub fn hits_any_dead(l: &LaserEnt, enemies: &Vec<EnemyEnt>, dead: &Vec<bool>) -> (b: bool)
    requires
        l.wf(),
        forall|k: int| 0 <= k < enemies@.len() ==> (#[trigger] enemies@[k]).wf(),
        dead@.len() == enemies@.len(),
    ensures
        b == hits_dead_target(*l, enemies@, dead@, 0),
{
    let n = enemies.len();
    let mut j: usize = 0;
    while j < n
        invariant
            0 <= j <= n,
            n == enemies@.len(),
            dead@.len() == enemies@.len(),
            l.wf(),
            forall|k: int| 0 <= k < enemies@.len() ==> (#[trigger] enemies@[k]).wf(),
            hits_dead_target(*l, enemies@, dead@, 0) == hits_dead_target(
                *l,
                enemies@,
                dead@,
                j as int,
            ),
        decreases n - j,
    {
        if dead[j] {
            let e = enemies[j];
            if boxes_overlap(l.pos, l.size, l.scale, e.pos, e.size, e.scale) {
                return true;
            }
        }
        j = j + 1;
    }
    false
}

/// Keep the elements whose flag is clear, in order.
pub fn keep_vec<T: Copy>(v: &Vec<T>, dead: &Vec<bool>) -> (r: Vec<T>)
    requires
        dead@.len() == v@.len(),
    ensures
        r@ == keep_alive(v@, dead@),
{
    let n = v.len();
    let mut out: Vec<T> = Vec::new();
    let mut i: usize = 0;
    while i < n
        invariant
            0 <= i <= n,
            n == v@.len(),
            dead@.len() == v@.len(),
            keep_alive(v@, dead@) =~= out@ + keep_from(v@, dead@, i as int),
        decreases n - i,
    {
        if !dead[i] {
            out.push(v[i]);
        }
        proof {
            if !dead@[i as int] {
                assert(keep_from(v@, dead@, i as int) =~= seq![v@[i as int]] + keep_from(
                    v@,
                    dead@,
                    i as int + 1,
                ));
            }
            assert(keep_alive(v@, dead@) =~= out@ + keep_from(v@, dead@, i as int + 1));
        }
        i = i + 1;
    }
    assert(out@ =~= keep_alive(v@, dead@));
    out
}

/// A vector of `n` cleared flags.
pub fn vec_false(n: usize) -> (r: Vec<bool>)
    ensures
        r@ =~= false_seq(n as int),
        r@.len() == n,
{
    let mut out: Vec<bool> = Vec::new();
    let mut i: usize = 0;
    while i < n
        invariant
            0 <= i <= n,
            out@.len() == i,
            forall|k: int| 0 <= k < i ==> !(#[trigger] out@[k]),
        decreases n - i,
    {
        out.push(false);
        i = i + 1;
    }
    assert(out@ =~= false_seq(n as int));
    out
}

/// The first projectile, from index `i` on, that overlaps the player.
pub open spec fn first_player_hit(lasers: Seq<LaserEnt>, p: PlayerEnt, i: int) -> Option<int>
    decreases lasers.len() - i,
    when 0 <= i <= lasers.len()
{
    if i >= lasers.len() {
        Option::None
    } else if hits_player(lasers[i], p) {
        Option::Some(i)
    } else {
        first_player_hit(lasers, p, i + 1)
    }
}

/// Find the first projectile that overlaps the player.
pub fn find_first_player_hit(lasers: &Vec<LaserEnt>, p: &PlayerEnt) -> (r: Option<usize>)
    requires
        p.wf(),
        forall|k: int| 0 <= k < lasers@.len() ==> (#[trigger] lasers@[k]).wf(),
    ensures
        match r {
            Option::Some(k) => {
                &&& k < lasers@.len()
                &&& first_player_hit(lasers@, *p, 0) == Option::Some(k as int)
                &&& hits_player(lasers@[k as int], *p)
            },
            Option::None => first_player_hit(lasers@, *p, 0) is None,
        },
{
    let n = lasers.len();
    let mut k: usize = 0;
    while k < n
        invariant
            0 <= k <= n,
            n == lasers@.len(),
            p.wf(),
            forall|j: int| 0 <= j < lasers@.len() ==> (#[trigger] lasers@[j]).wf(),
            first_player_hit(lasers@, *p, 0) == first_player_hit(lasers@, *p, k as int),
        decreases n - k,
    {
        let l = lasers[k];
        if boxes_overlap(l.pos, l.size, l.scale, p.pos, p.size, p.scale) {
            return Option::Some(k);
        }
        k = k + 1;
    }
    Option::None
}

} // verus!
