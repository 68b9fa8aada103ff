//! Elliptical-orbit flight assignments for groups of enemies.
//!
//! The generator keeps the most recently issued [`Formation`] as a
//! template and hands out copies of it until the template has served
//! [`FORMATION_MEMBERS_MAX`] members; then it synthesizes a fresh one
//! with randomized start point, pivot and radius.

use vstd::prelude::*;
use crate::rng::rand_range;
use crate::trig::{atan2_fp, atan2_mrad, TWO_PI_MRAD};
use crate::{
    Vec2I, WinSize, BASE_SPEED, FORMATION_COORD_LIMIT, FORMATION_MEMBERS_MAX, RADIUS_LIMIT,
    SPEED_LIMIT,
};

verus! {

/// Per-enemy flight assignment: the enemy enters at `start`, then
/// settles into an orbit around `pivot` with the given semi-axes, its
/// phase held in `angle` (milliradians, normalized) and advanced every
/// tick.  `group` names the template this formation was copied from.
#[derive(Clone, Copy, Debug, PartialEq, Eq, Structural)]
pub struct Formation {
    pub start: Vec2I,
    pub radius: Vec2I,
    pub pivot: Vec2I,
    pub speed: i64,
    pub angle: i64,
    pub group: u32,
}

impl Formation {
    /// Both semi-axes positive and bounded, coordinates and speed
    /// bounded, phase normalized.
    pub open spec fn wf(self) -> bool {
        &&& 0 < self.radius.x <= RADIUS_LIMIT
        &&& 0 < self.radius.y <= RADIUS_LIMIT
        &&& self.start.wf_within(FORMATION_COORD_LIMIT)
        &&& self.pivot.wf_within(FORMATION_COORD_LIMIT)
        &&& 0 <= self.angle < TWO_PI_MRAD
        &&& 0 < self.speed <= SPEED_LIMIT
    }
}

/// The horizontal start span: enemies enter just outside the left or
/// right edge, a hundred pixels beyond it.
pub open spec fn w_span_spec(win: WinSize) -> int {
    win.w as int / 2 + 100000
}

/// The vertical start span, padded the same way.
pub open spec fn h_span_spec(win: WinSize) -> int {
    win.h as int / 2 + 100000
}

/// Pivots sit within a quarter of the window width of the center line.
pub open spec fn pivot_x_span_spec(win: WinSize) -> int {
    win.w as int / 4
}

/// Pivots sit in the upper band, within a third of the window height
/// less a fixed margin.
pub open spec fn pivot_y_span_spec(win: WinSize) -> int {
    win.h as int / 3 - 50000
}

/// What a freshly synthesized formation looks like: start on one of the
/// two off-screen verticals, pivot biased toward the center, radius in
/// the standard band, the base speed, and the phase pointing from the
/// pivot to the start so the enemy begins exactly on its ellipse.
pub open spec fn synthesized(f: Formation, win: WinSize) -> bool {
    &&& (f.start.x == w_span_spec(win) || f.start.x == -w_span_spec(win))
    &&& -h_span_spec(win) <= f.start.y < h_span_spec(win)
    &&& -pivot_x_span_spec(win) <= f.pivot.x < pivot_x_span_spec(win)
    &&& 0 <= f.pivot.y < pivot_y_span_spec(win)
    &&& 80000 <= f.radius.x < 150000
    &&& f.radius.y == 100000
    &&& f.speed == BASE_SPEED
    &&& f.angle == atan2_fp(f.start.y - f.pivot.y, f.start.x - f.pivot.x)
}

/// The generator's state: the template in use, how many enemies share
/// it, and a running group number.
#[derive(Clone, Copy, Debug, PartialEq, Eq, Structural)]
pub struct FormationMaker {
    pub current_template: Option<Formation>,
    pub current_members: u32,
    pub group_seq: u32,
}

impl FormationMaker {
    /// The member count never exceeds the cap, and the stored template,
    /// when there is one, is well formed, carries the latest group
    /// number, and serves at least one member.
    pub open spec fn wf(self) -> bool {
        &&& self.current_members <= FORMATION_MEMBERS_MAX
        &&& match self.current_template {
            Option::Some(t) => t.wf() && t.group == self.group_seq && self.current_members >= 1,
            Option::None => self.current_members == 0,
        }
    }

    /// What one `make` call does: either the template still has room
    /// and is copied out once more, or a fresh formation is synthesized,
    /// stored as the template with one member, and the group number
    /// advances (saturating at its type's maximum).
    pub open spec fn make_rel(pre: FormationMaker, post: FormationMaker, win: WinSize, r: Formation) -> bool {
        match pre.current_template {
            Option::Some(t) => {
                if pre.current_members < FORMATION_MEMBERS_MAX {
                    &&& r == t
                    &&& post.current_template == pre.current_template
                    &&& post.current_members == pre.current_members + 1
                    &&& post.group_seq == pre.group_seq
                } else {
                    FormationMaker::synth_rel(pre, post, win, r)
                }
            },
            Option::None => FormationMaker::synth_rel(pre, post, win, r),
        }
    }

    /// The synthesis branch of [`FormationMaker::make_rel`].
    pub open spec fn synth_rel(pre: FormationMaker, post: FormationMaker, win: WinSize, r: Formation) -> bool {
        &&& synthesized(r, win)
        &&& r.group == post.group_seq
        &&& post.group_seq as int == (if pre.group_seq < 0xFFFFFFFFu32 {
            pre.group_seq + 1
        } else {
            pre.group_seq as int
        })
        &&& post.current_template == Option::Some(r)
        &&& post.current_members == 1
    }

    /// Issue a formation for one more enemy.
    pub fn make(&mut self, win_size: &WinSize) -> (f: Formation)
        requires
            old(self).wf(),
            win_size.wf(),
        ensures
            final(self).wf(),
            f.wf(),
            FormationMaker::make_rel(*old(self), *final(self), *win_size, f),
    {
        if self.current_members < FORMATION_MEMBERS_MAX {
            if let Option::Some(t) = &self.current_template {
                let f = *t;
                self.current_members = self.current_members + 1;
                return f;
            }
        }
        let w_span: i64 = ((win_size.w as u64) / 2 + 100000) as i64;
        let h_span: i64 = ((win_size.h as u64) / 2 + 100000) as i64;
        let x: i64 = if rand_range(0, 2) == 0 {
            w_span
        } else {
            -w_span
        };
        let y: i64 = rand_range(-h_span, h_span);
        let px_span: i64 = ((win_size.w as u64) / 4) as i64;
        let piv_x: i64 = rand_range(-px_span, px_span);
        let py_span: i64 = ((win_size.h as u64) / 3 - 50000) as i64;
        let piv_y: i64 = rand_range(0, py_span);
        let rad_x: i64 = rand_range(80000, 150000);
        let angle: i64 = atan2_mrad(y - piv_y, x - piv_x);
        let group: u32 = if self.group_seq < 0xFFFFFFFF {
            self.group_seq + 1
        } else {
            self.group_seq
        };
        let f = Formation {
            start: Vec2I { x, y },
            radius: Vec2I { x: rad_x, y: 100000 },
            pivot: Vec2I { x: piv_x, y: piv_y },
            speed: BASE_SPEED,
            angle,
            group,
        };
        self.current_template = Option::Some(f);
        self.current_members = 1;
        self.group_seq = group;
        f
    }
}

impl Default for FormationMaker {
    /// A generator that has issued nothing yet.
    fn default() -> (m: FormationMaker)
        ensures
            m.current_template == Option::<Formation>::None,
            m.current_members == 0,
            m.group_seq == 0,
            m.wf(),
    {
        FormationMaker { current_template: Option::None, current_members: 0, group_seq: 0 }
    }
}

/// The first `k` results all carry the group of the first one.
pub open spec fn all_same_group(results: Seq<Formation>, k: int) -> bool {
    forall|i: int| 0 <= i < k ==> #[trigger] results[i].group == results[0].group
}

/// One `make` step keeps the generator well formed, returns a well
/// formed formation carrying the new state's group number, and advances
/// the group number by at most one.
pub proof fn lemma_make_rel_step(pre: FormationMaker, post: FormationMaker, win: WinSize, r: Formation)
    requires
        pre.wf(),
        win.wf(),
        FormationMaker::make_rel(pre, post, win, r),
    ensures
        post.wf(),
        r.wf(),
        r.group == post.group_seq,
        pre.group_seq <= post.group_seq <= pre.group_seq + 1,
        post.current_template == Option::Some(r),
{
    match pre.current_template {
        Option::Some(t) => {
            if pre.current_members < FORMATION_MEMBERS_MAX {
            } else {
                lemma_synthesized_wf(r, win);
            }
        },
        Option::None => {
            lemma_synthesized_wf(r, win);
        },
    }
}

/// A synthesized formation is well formed.
pub proof fn lemma_synthesized_wf(f: Formation, win: WinSize)
    requires
        win.wf(),
        synthesized(f, win),
    ensures
        f.wf(),
{
    crate::trig::lemma_atan2_range(f.start.y - f.pivot.y, f.start.x - f.pivot.x);
}

/// Along a chain of `make` calls whose results so far all share one
/// group, the member count has grown with every step, and each result
/// carries the group number the generator then held.
proof fn lemma_chain_invariant(
    states: Seq<FormationMaker>,
    results: Seq<Formation>,
    win: WinSize,
    k: int,
)
    requires
        states.len() == results.len() + 1,
        states[0].wf(),
        win.wf(),
        states[0].group_seq + results.len() < 0xFFFFFFFF,
        forall|i: int|
            0 <= i < results.len() ==> FormationMaker::make_rel(
                states[i],
                states[i + 1],
                win,
                #[trigger] results[i],
            ),
        1 <= k <= results.len(),
        k <= FORMATION_MEMBERS_MAX,
    ensures
        states[k].wf(),
        states[k].group_seq <= states[0].group_seq + k,
        results[k - 1].group == states[k].group_seq,
        states[k].current_template == Option::Some(results[k - 1]),
        all_same_group(results, k) ==> states[k].current_members >= k,
    decreases k,
{
    if k == 1 {
        lemma_make_rel_step(states[0], states[1], win, results[0]);
    } else {
        lemma_chain_invariant(states, results, win, k - 1);
        lemma_make_rel_step(states[k - 1], states[k], win, results[k - 1]);
        if all_same_group(results, k) {
            assert(all_same_group(results, k - 1));
            // the step from k-1 to k cannot synthesize: that would advance
            // the group number past the group of the previous result
            match states[k - 1].current_template {
                Option::Some(t) => {
                    if states[k - 1].current_members < FORMATION_MEMBERS_MAX {
                        assert(states[k].current_members >= k);
                    } else {
                        assert(states[k - 1].current_members >= k - 1);
                        assert(results[k - 1].group == states[k - 1].group_seq + 1);
                        assert(results[k - 2].group == states[k - 1].group_seq);
                        assert(false);
                    }
                },
                Option::None => {
                    assert(results[k - 1].group == states[k - 1].group_seq + 1);
                    assert(results[k - 2].group == states[k - 1].group_seq);
                    assert(false);
                },
            }
        }
    }
}

/// Law: issuing more consecutive formations than one template may serve
/// always draws on at least two distinct group templates - the rollover
/// happens exactly when the member cap is reached.
pub proof fn lemma_template_rollover(states: Seq<FormationMaker>, results: Seq<Formation>, win: WinSize)
    requires
        states.len() == results.len() + 1,
        results.len() > FORMATION_MEMBERS_MAX,
        states[0].wf(),
        win.wf(),
        states[0].group_seq + results.len() < 0xFFFFFFFF,
        forall|i: int|
            0 <= i < results.len() ==> FormationMaker::make_rel(
                states[i],
                states[i + 1],
                win,
                #[trigger] results[i],
            ),
    ensures
        exists|i: int, j: int| 0 <= i < j < results.len() && results[i].group != results[j].group,
{
    let cap = FORMATION_MEMBERS_MAX as int;
    if all_same_group(results, cap + 1) {
        lemma_chain_invariant(states, results, win, cap);
        lemma_make_rel_step(states[cap], states[cap + 1], win, results[cap]);
        // the member count has reached the cap, so the next call must
        // synthesize and advance the group number
        assert(states[cap].current_members >= cap);
        match states[cap].current_template {
            Option::Some(t) => {
                assert(results[cap].group == states[cap].group_seq + 1);
                assert(results[cap - 1].group == states[cap].group_seq);
                assert(false);
            },
            Option::None => {
                assert(false);
            },
        }
    }
    let w = choose|i: int| 0 <= i < cap + 1 && #[trigger] results[i].group != results[0].group;
    assert(0 <= 0 < w < results.len() && results[0].group != results[w].group);
}

} // verus!
