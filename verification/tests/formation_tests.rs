use invaders::formation::FormationMaker;
use invaders::{WinSize, BASE_SPEED};

fn window() -> WinSize {
    // a 598 x 676 pixel window, in millipixels
    WinSize { w: 598_000, h: 676_000 }
}

#[test]
fn first_formation_is_synthesized_in_range() {
    let mut maker = FormationMaker::default();
    let win = window();
    let f = maker.make(&win);
    let w_span = win.w / 2 + 100_000;
    let h_span = win.h / 2 + 100_000;
    assert!(f.start.x == w_span || f.start.x == -w_span);
    assert!(-h_span <= f.start.y && f.start.y < h_span);
    assert!(-win.w / 4 <= f.pivot.x && f.pivot.x < win.w / 4);
    assert!(0 <= f.pivot.y && f.pivot.y < win.h / 3 - 50_000);
    assert!(80_000 <= f.radius.x && f.radius.x < 150_000);
    assert_eq!(f.radius.y, 100_000);
    assert_eq!(f.speed, BASE_SPEED);
    assert!(0 <= f.angle && f.angle < 6284);
    assert_eq!(f.group, 1);
    assert!(f.radius.x > 0 && f.radius.y > 0);
}

#[test]
fn template_is_reused_until_full() {
    let mut maker = FormationMaker::default();
    let win = window();
    let f1 = maker.make(&win);
    let f2 = maker.make(&win);
    // the member cap is two, so the second enemy shares the template
    assert_eq!(f1, f2);
    assert_eq!(f1.group, f2.group);
}

#[test]
fn template_rolls_over_at_member_cap() {
    let mut maker = FormationMaker::default();
    let win = window();
    let f1 = maker.make(&win);
    let f2 = maker.make(&win);
    let f3 = maker.make(&win);
    // more calls than one template may serve touch two distinct groups
    assert_eq!(f1.group, f2.group);
    assert_ne!(f3.group, f1.group);
    assert!(f3.radius.x > 0 && f3.radius.y > 0);
}

#[test]
fn groups_keep_rolling_over() {
    let mut maker = FormationMaker::default();
    let win = window();
    let mut groups = Vec::new();
    for _ in 0..10 {
        groups.push(maker.make(&win).group);
    }
    // every pair of consecutive calls shares a group, every next pair is new
    for k in 0..5 {
        assert_eq!(groups[2 * k], groups[2 * k + 1]);
        assert_eq!(groups[2 * k], (k as u32) + 1);
    }
}
