use invaders::trig::{atan2_mrad, cos_mrad, isqrt, sin_mrad};

#[test]
fn isqrt_small_values() {
    assert_eq!(isqrt(0), 0);
    assert_eq!(isqrt(1), 1);
    assert_eq!(isqrt(3), 1);
    assert_eq!(isqrt(4), 2);
    assert_eq!(isqrt(144), 12);
    assert_eq!(isqrt(145), 12);
}

#[test]
fn isqrt_large_values() {
    assert_eq!(isqrt(1 << 40), 1 << 20);
    assert_eq!(isqrt((1 << 40) - 1), (1 << 20) - 1);
    let n: u64 = 0xFFFF_FFFF_FFFF;
    let r = isqrt(n);
    assert!(r * r <= n);
    assert!((r + 1) * (r + 1) > n);
}

#[test]
fn sine_key_angles() {
    assert_eq!(sin_mrad(0), 0);
    assert_eq!(sin_mrad(1571), 1000);
    assert_eq!(sin_mrad(3142), 0);
    // the second half-turn mirrors the first
    assert_eq!(sin_mrad(4713), -1000);
    assert_eq!(sin_mrad(3142 + 100), -sin_mrad(100));
}

#[test]
fn cosine_key_angles() {
    assert_eq!(cos_mrad(0), 1000);
    assert_eq!(cos_mrad(1571), 0);
    assert_eq!(cos_mrad(3142), -1000);
    assert_eq!(cos_mrad(4713), 0);
}

#[test]
fn sine_stays_in_unit_range() {
    let mut a: i64 = 0;
    while a < 6284 {
        let s = sin_mrad(a);
        let c = cos_mrad(a);
        assert!(-1000 <= s && s <= 1000);
        assert!(-1000 <= c && c <= 1000);
        a += 13;
    }
}

#[test]
fn atan2_axes() {
    assert_eq!(atan2_mrad(0, 0), 0);
    assert_eq!(atan2_mrad(0, 1000), 0);
    assert_eq!(atan2_mrad(1000, 0), 1571);
    assert_eq!(atan2_mrad(0, -1000), 3142);
    assert_eq!(atan2_mrad(-1000, 0), 4713);
}

#[test]
fn atan2_diagonals_and_quadrants() {
    // an eighth of a turn on the main diagonal
    assert_eq!(atan2_mrad(1, 1), 785);
    assert_eq!(atan2_mrad(1000, 2000), 460);
    // each quadrant lands in its own quarter-turn band
    let q2 = atan2_mrad(1000, -1000);
    assert!(1571 <= q2 && q2 <= 3142, "{q2}");
    let q3 = atan2_mrad(-1000, -1000);
    assert!(3142 <= q3 && q3 <= 4713, "{q3}");
    let q4 = atan2_mrad(-1000, 1000);
    assert!(4713 <= q4 && q4 < 6284, "{q4}");
}
