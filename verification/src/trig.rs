//! Fixed-point trigonometry and square roots for the orbital motion math.
//!
//! Angles are measured in milliradians.  The sine and cosine are rational
//! approximations scaled by [`TRIG_ONE`]; the arctangent is the octant
//! construction over a rational approximation on the first half-octant.
//! Every executable function returns exactly the value of its spec
//! counterpart, so callers reason about one closed formula.

use vstd::prelude::*;
use vstd::arithmetic::div_mod::{
    lemma_div_is_ordered, lemma_div_multiples_vanish, lemma_div_pos_is_pos,
    lemma_fundamental_div_mod, lemma_mod_bound,
};

verus! {

/// A quarter turn, in milliradians.
pub const HALF_PI_MRAD: i64 = 1571;

/// A half turn, in milliradians.
pub const PI_MRAD: i64 = 3142;

/// A full turn, in milliradians; twice [`PI_MRAD`].
pub const TWO_PI_MRAD: i64 = 6284;

/// The fixed-point unit of the sine and cosine.
pub const TRIG_ONE: i64 = 1000;

/// Magnitude of an integer.
pub open spec fn abs_i(v: int) -> int {
    if v < 0 {
        -v
    } else {
        v
    }
}

/// Bhaskara's rational approximation of the sine on a half turn:
/// `sin(x) ~ 16 x (pi - x) / (5 pi^2 - 4 x (pi - x))`, here in
/// milliradians and scaled by [`TRIG_ONE`].
pub open spec fn sin_half_fp(x: int) -> int {
    (16000 * (x * (3142 - x))) / (49360820 - 4 * (x * (3142 - x)))
}

/// The sine over a full turn `[0, TWO_PI_MRAD)`, scaled by [`TRIG_ONE`].
pub open spec fn sin_fp(a: int) -> int {
    if a <= 3142 {
        sin_half_fp(a)
    } else {
        -sin_half_fp(a - 3142)
    }
}

/// The cosine over a full turn `[0, TWO_PI_MRAD)`, scaled by [`TRIG_ONE`]:
/// the sine a quarter turn ahead.
pub open spec fn cos_fp(a: int) -> int {
    if a + 1571 < 6284 {
        sin_fp(a + 1571)
    } else {
        sin_fp(a + 1571 - 6284)
    }
}

/// Rational approximation of the arctangent on `[0, 1]`:
/// `atan(z) ~ (pi/4) z + 0.273 z (1 - z)`, argument scaled by
/// [`TRIG_ONE`], result in milliradians.
pub open spec fn atan_unit_fp(z: int) -> int {
    (785 * z + (273 * (z * (1000 - z))) / 1000) / 1000
}

/// The polar angle of a point in the closed first quadrant, in
/// milliradians within `[0, HALF_PI_MRAD]`; `ax` and `ay` must not both
/// be zero.
pub open spec fn atan_octant_fp(ay: int, ax: int) -> int {
    if ax >= ay {
        atan_unit_fp(1000 * ay / ax)
    } else {
        1571 - atan_unit_fp(1000 * ax / ay)
    }
}

/// The polar angle of `(x, y)`, in milliradians normalized to
/// `[0, TWO_PI_MRAD)`; the origin is assigned angle zero.
pub open spec fn atan2_fp(y: int, x: int) -> int {
    if x == 0 && y == 0 {
        0
    } else {
        let base = atan_octant_fp(abs_i(y), abs_i(x));
        if x >= 0 && y >= 0 {
            base
        } else if x < 0 && y >= 0 {
            3142 - base
        } else if x < 0 {
            3142 + base
        } else if base == 0 {
            0
        } else {
            6284 - base
        }
    }
}

/// If `a <= b * c` with `b` positive, then `a / b <= c`.
proof fn lemma_div_le_factor(a: int, b: int, c: int)
    requires
        0 < b,
        0 <= c,
        a <= b * c,
    ensures
        a / b <= c,
{
    lemma_div_is_ordered(a, b * c, b);
    lemma_div_multiples_vanish(c, b);
}

/// The integer quotient times the divisor is at most the dividend.
proof fn lemma_div_times_den_le(a: int, b: int)
    requires
        0 <= a,
        0 < b,
    ensures
        b * (a / b) <= a,
{
    lemma_fundamental_div_mod(a, b);
    lemma_mod_bound(a, b);
}

/// The half-turn sine approximation stays within `[0, TRIG_ONE]`.
pub proof fn lemma_sin_half_bounds(x: int)
    requires
        0 <= x <= 3142,
    ensures
        0 <= sin_half_fp(x) <= 1000,
{
    let e = x * (3142 - x);
    assert(0 <= e <= 2468041) by (nonlinear_arith)
        requires
            0 <= x <= 3142,
            e == x * (3142 - x),
    ;
    lemma_div_pos_is_pos(16000 * e, 49360820 - 4 * e);
    lemma_div_le_factor(16000 * e, 49360820 - 4 * e, 1000);
}

/// The full-turn sine stays within `[-TRIG_ONE, TRIG_ONE]`.
pub proof fn lemma_sin_bounds(a: int)
    requires
        0 <= a < 6284,
    ensures
        -1000 <= sin_fp(a) <= 1000,
{
    if a <= 3142 {
        lemma_sin_half_bounds(a);
    } else {
        lemma_sin_half_bounds(a - 3142);
    }
}

/// The full-turn cosine stays within `[-TRIG_ONE, TRIG_ONE]`.
pub proof fn lemma_cos_bounds(a: int)
    requires
        0 <= a < 6284,
    ensures
        -1000 <= cos_fp(a) <= 1000,
{
    if a + 1571 < 6284 {
        lemma_sin_bounds(a + 1571);
    } else {
        lemma_sin_bounds(a + 1571 - 6284);
    }
}

/// The unit arctangent approximation stays within `[0, 785]` (an eighth
/// of a turn).
pub proof fn lemma_atan_unit_bounds(z: int)
    requires
        0 <= z <= 1000,
    ensures
        0 <= atan_unit_fp(z) <= 785,
{
    let e = z * (1000 - z);
    assert(0 <= e <= 250000) by (nonlinear_arith)
        requires
            0 <= z <= 1000,
            e == z * (1000 - z),
    ;
    let t = (273 * e) / 1000;
    lemma_div_pos_is_pos(273 * e, 1000);
    lemma_div_times_den_le(273 * e, 1000);
    assert(785000 * z + 273 * e <= 785000000) by (nonlinear_arith)
        requires
            0 <= z <= 1000,
            e == z * (1000 - z),
    ;
    assert(1000 * (785 * z + t) <= 785000000);
    lemma_div_pos_is_pos(785 * z + t, 1000);
    lemma_div_le_factor(785 * z + t, 1000, 785);
}

/// The octant angle of a first-quadrant point stays within a quarter
/// turn.
pub proof fn lemma_atan_octant_bounds(ay: int, ax: int)
    requires
        0 <= ay,
        0 <= ax,
        ax > 0 || ay > 0,
    ensures
        0 <= atan_octant_fp(ay, ax) <= 1571,
{
    if ax >= ay {
        let z = 1000 * ay / ax;
        lemma_div_pos_is_pos(1000 * ay, ax);
        assert(1000 * ay <= ax * 1000) by (nonlinear_arith)
            requires
                0 <= ay <= ax,
        ;
        lemma_div_le_factor(1000 * ay, ax, 1000);
        lemma_atan_unit_bounds(z);
    } else {
        let z = 1000 * ax / ay;
        lemma_div_pos_is_pos(1000 * ax, ay);
        assert(1000 * ax <= ay * 1000) by (nonlinear_arith)
            requires
                0 <= ax <= ay,
        ;
        lemma_div_le_factor(1000 * ax, ay, 1000);
        lemma_atan_unit_bounds(z);
    }
}

/// The polar angle is always a normalized angle.
pub proof fn lemma_atan2_range(y: int, x: int)
    ensures
        0 <= atan2_fp(y, x) < 6284,
{
    if x == 0 && y == 0 {
    } else {
        lemma_atan_octant_bounds(abs_i(y), abs_i(x));
    }
}

/// The integer square root, rounded down.
pub open spec fn sqrt_floor(n: nat) -> nat
    decreases n,
{
    if n == 0 {
        0
    } else {
        let r = sqrt_floor((n - 1) as nat);
        if (r + 1) * (r + 1) <= n {
            r + 1
        } else {
            r
        }
    }
}

/// The rounded-down square root brackets its argument.
pub proof fn lemma_sqrt_floor_bracket(n: nat)
    ensures
        sqrt_floor(n) * sqrt_floor(n) <= n < (sqrt_floor(n) + 1) * (sqrt_floor(n) + 1),
    decreases n,
{
    let s = sqrt_floor(n);
    if n == 0 {
        assert(s * s <= n && n < (s + 1) * (s + 1)) by (nonlinear_arith)
            requires
                s == 0 && n == 0,
        ;
    } else {
        lemma_sqrt_floor_bracket((n - 1) as nat);
        let r = sqrt_floor((n - 1) as nat);
        if (r + 1) * (r + 1) <= n {
            assert(s == r + 1);
            assert(s * s <= n && n < (s + 1) * (s + 1)) by (nonlinear_arith)
                requires
                    s == r + 1 && (r + 1) * (r + 1) <= n && n - 1 < (r + 1) * (r + 1) && r >= 0,
            ;
        } else {
            assert(s == r);
            assert(s * s <= n && n < (s + 1) * (s + 1)) by (nonlinear_arith)
                requires
                    s == r && r * r <= n - 1 && !((r + 1) * (r + 1) <= n) && r >= 0 && n >= 1,
            ;
        }
    }
}

/// Any value bracketing `n` the same way is the rounded-down square
/// root.
pub proof fn lemma_sqrt_floor_unique(n: nat, r: nat)
    requires
        r * r <= n < (r + 1) * (r + 1),
    ensures
        r == sqrt_floor(n),
{
    lemma_sqrt_floor_bracket(n);
    let s = sqrt_floor(n);
    assert(r == s) by (nonlinear_arith)
        requires
            r * r <= n < (r + 1) * (r + 1) && s * s <= n < (s + 1) * (s + 1) && r >= 0 && s >= 0,
    ;
}

/// Integer square root by binary search.
pub fn isqrt(n: u64) -> (r: u64)
    requires
        n < 0x1000000000000,
    ensures
        r * r <= n < (r + 1) * (r + 1),
        r == sqrt_floor(n as nat),
{
    proof {
        lemma_sqrt_floor_bracket(n as nat);
    }
    let mut lo: u64 = 0;
    let mut hi: u64 = 0x1000000;
    assert(n < 0x1000001 * 0x1000001) by (nonlinear_arith)
        requires
            n < 0x1000000000000,
    ;
    while lo < hi
        invariant
            lo <= hi <= 0x1000000,
            lo * lo <= n,
            n < (hi + 1) * (hi + 1),
        decreases hi - lo,
    {
        let mid = lo + (hi - lo + 1) / 2;
        assert(mid * mid <= 0x1000000000000) by (nonlinear_arith)
            requires
                0 <= mid <= 0x1000000,
        ;
        if mid * mid <= n {
            lo = mid;
        } else {
            hi = mid - 1;
        }
    }
    proof {
        lemma_sqrt_floor_unique(n as nat, lo as nat);
    }
    lo
}

/// The half-turn sine, executable.
fn sin_half_mrad(x: i64) -> (r: i64)
    requires
        0 <= x <= 3142,
    ensures
        r == sin_half_fp(x as int),
        0 <= r <= 1000,
{
    proof {
        lemma_sin_half_bounds(x as int);
    }
    assert((x as u64) * ((3142 - x) as u64) <= 2468041) by (nonlinear_arith)
        requires
            0 <= x <= 3142,
    ;
    let q: u64 = (x as u64) * ((3142 - x) as u64);
    let num: u64 = 16000 * q;
    let den: u64 = 49360820 - 4 * q;
    let r: u64 = num / den;
    r as i64
}

/// The sine of a normalized angle in milliradians, scaled by
/// [`TRIG_ONE`].
pub fn sin_mrad(a: i64) -> (r: i64)
    requires
        0 <= a < 6284,
    ensures
        r == sin_fp(a as int),
        -1000 <= r <= 1000,
{
    if a <= 3142 {
        sin_half_mrad(a)
    } else {
        -sin_half_mrad(a - 3142)
    }
}

/// The cosine of a normalized angle in milliradians, scaled by
/// [`TRIG_ONE`].
pub fn cos_mrad(a: i64) -> (r: i64)
    requires
        0 <= a < 6284,
    ensures
        r == cos_fp(a as int),
        -1000 <= r <= 1000,
{
    let b = a + 1571;
    if b < 6284 {
        sin_mrad(b)
    } else {
        sin_mrad(b - 6284)
    }
}

/// The unit arctangent, executable.
fn atan_unit_mrad(z: i64) -> (r: i64)
    requires
        0 <= z <= 1000,
    ensures
        r == atan_unit_fp(z as int),
        0 <= r <= 785,
{
    proof {
        lemma_atan_unit_bounds(z as int);
    }
    assert((z as u64) * ((1000 - z) as u64) <= 250000) by (nonlinear_arith)
        requires
            0 <= z <= 1000,
    ;
    let e: u64 = (z as u64) * ((1000 - z) as u64);
    let t: u64 = (273 * e) / 1000;
    proof {
        lemma_div_pos_is_pos(273 * e as int, 1000);
        lemma_div_le_factor(273 * e as int, 1000, 68250int);
    }
    let v: u64 = (785 * (z as u64) + t) / 1000;
    v as i64
}

/// The polar angle of `(y, x)`, in milliradians normalized to
/// `[0, TWO_PI_MRAD)`.
pub fn atan2_mrad(y: i64, x: i64) -> (r: i64)
    requires
        -0x40000000 <= y <= 0x40000000,
        -0x40000000 <= x <= 0x40000000,
    ensures
        r == atan2_fp(y as int, x as int),
        0 <= r < 6284,
{
    proof {
        lemma_atan2_range(y as int, x as int);
    }
    let ay: i64 = if y < 0 {
        -y
    } else {
        y
    };
    let ax: i64 = if x < 0 {
        -x
    } else {
        x
    };
    if ax == 0 && ay == 0 {
        return 0;
    }
    let base: i64 = if ax >= ay {
        proof {
            lemma_div_pos_is_pos(1000 * ay as int, ax as int);
            assert(1000 * ay as int <= ax as int * 1000) by (nonlinear_arith)
                requires
                    0 <= ay <= ax,
            ;
            lemma_div_le_factor(1000 * ay as int, ax as int, 1000);
        }
        let z: u64 = 1000 * (ay as u64) / (ax as u64);
        atan_unit_mrad(z as i64)
    } else {
        proof {
            lemma_div_pos_is_pos(1000 * ax as int, ay as int);
            assert(1000 * ax as int <= ay as int * 1000) by (nonlinear_arith)
                requires
                    0 <= ax <= ay,
            ;
            lemma_div_le_factor(1000 * ax as int, ay as int, 1000);
        }
        let z: u64 = 1000 * (ax as u64) / (ay as u64);
        1571 - atan_unit_mrad(z as i64)
    };
    if x >= 0 && y >= 0 {
        base
    } else if x < 0 && y >= 0 {
        3142 - base
    } else if x < 0 {
        3142 + base
    } else if base == 0 {
        0
    } else {
        6284 - base
    }
}

} // verus!
