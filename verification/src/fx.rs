//! Fixed-point scalar arithmetic.  A scalar holds a real value multiplied by
//! `SCALE` and truncated toward zero; products and quotients rescale and
//! truncate the same way, which the spec functions here state exactly.
use vstd::prelude::*;
use vstd::arithmetic::div_mod::*;
use vstd::arithmetic::mul::*;
use crate::{SCALE, PI};

verus! {

/// Largest magnitude `fx_mul` accepts.
pub const MUL_LIM: i128 = 4611686018427387904;

/// Largest magnitude `fx_div` accepts.
pub const FXD_LIM: i128 = 1267650600228229401496703205376;

/// Largest magnitude `fx_sqrt` accepts.
pub const SQRT_LIM: i128 = 81129638414606681695789005144064;

/// Largest magnitude `raw_div` accepts.
pub const DIV_LIM: i128 = 21267647932558653966460912964485513216;

/// Magnitude of an integer.
pub open spec fn absi(a: int) -> int {
    if a >= 0 { a } else { -a }
}

/// Division truncated toward zero, as Rust's integer division rounds.
pub open spec fn tdiv(a: int, b: int) -> int {
    if (a >= 0) == (b >= 0) { absi(a) / absi(b) } else { -(absi(a) / absi(b)) }
}

/// The fixed-point product of two scalars.
pub open spec fn fxm(a: int, b: int) -> int {
    tdiv(a * b, SCALE as int)
}

/// The fixed-point quotient of two scalars.
pub open spec fn fxd(a: int, b: int) -> int {
    tdiv(a * SCALE as int, b)
}

/// `r` is the integer square root of `x`.
pub open spec fn is_sqrt(r: int, x: int) -> bool {
    0 <= r && r * r <= x && x < (r + 1) * (r + 1)
}

/// The integer square root of a non-negative integer.
pub open spec fn sqrti(x: int) -> int {
    choose|r: int| is_sqrt(r, x)
}

/// The fixed-point square root of a non-negative scalar.
pub open spec fn fxsqrt(a: int) -> int {
    sqrti(a * SCALE as int)
}

/// The lesser of two integers.
pub open spec fn mini(a: int, b: int) -> int {
    if a < b { a } else { b }
}

/// The greater of two integers.
pub open spec fn maxi(a: int, b: int) -> int {
    if a > b { a } else { b }
}

/// Integer square roots are unique.
pub proof fn lemma_sqrt_unique(r1: int, r2: int, x: int)
    requires
        is_sqrt(r1, x),
        is_sqrt(r2, x),
    ensures
        r1 == r2,
{
    assert(r1 == r2) by (nonlinear_arith)
        requires
            0 <= r1, r1 * r1 <= x, x < (r1 + 1) * (r1 + 1),
            0 <= r2, r2 * r2 <= x, x < (r2 + 1) * (r2 + 1);
}

/// A magnitude distributes over a product.
pub proof fn lemma_abs_mul(a: int, b: int)
    ensures
        absi(a * b) == absi(a) * absi(b),
{
    assert(absi(a * b) == absi(a) * absi(b)) by (nonlinear_arith);
}

/// Truncating division by a positive divisor keeps the magnitude of the
/// Euclidean quotient of the magnitudes.
pub proof fn lemma_tdiv_abs(a: int, b: int)
    requires
        b >= 1,
    ensures
        absi(tdiv(a, b)) == absi(a) / b,
        tdiv(a, b) == if a >= 0 { a / b } else { -((-a) / b) },
{
    lemma_div_pos_is_pos(absi(a), b);
}

/// Truncating division by any non-zero divisor keeps the magnitude of the
/// Euclidean quotient of the magnitudes.
pub proof fn lemma_tdiv_abs_any(a: int, b: int)
    requires
        b != 0,
    ensures
        absi(tdiv(a, b)) == absi(a) / absi(b),
{
    lemma_div_pos_is_pos(absi(a), absi(b));
}

/// Dividing a non-negative value by a positive divisor stays non-negative.
pub proof fn lemma_tdiv_nonneg(a: int, b: int)
    requires
        a >= 0,
        b >= 1,
    ensures
        tdiv(a, b) >= 0,
        tdiv(a, b) <= a,
{
    lemma_div_pos_is_pos(a, b);
    lemma_div_nonincreasing(a, b);
}

/// A bound on both factors bounds a fixed-point product.
pub proof fn lemma_fxm_bound(a: int, b: int, aa: int, bb: int)
    requires
        absi(a) <= aa,
        absi(b) <= bb,
    ensures
        absi(fxm(a, b)) <= (aa * bb) / SCALE as int,
        absi(a * b) <= aa * bb,
{
    lemma_abs_mul(a, b);
    lemma_mul_upper_bound(absi(a), aa, absi(b), bb);
    lemma_tdiv_abs(a * b, SCALE as int);
    lemma_div_is_ordered(absi(a * b), aa * bb, SCALE as int);
}

/// A bound on both factors bounds a fixed-point product by a stated target.
pub proof fn lemma_fxm_within(a: int, b: int, aa: int, bb: int, m: int)
    requires
        absi(a) <= aa,
        absi(b) <= bb,
        aa * bb <= m * SCALE as int,
    ensures
        absi(fxm(a, b)) <= m,
        absi(a * b) <= aa * bb,
{
    lemma_abs_mul(a, b);
    lemma_mul_upper_bound(absi(a), aa, absi(b), bb);
    lemma_tdiv_abs(a * b, SCALE as int);
    lemma_div_is_ordered(absi(a * b), m * SCALE as int, SCALE as int);
    lemma_div_multiples_vanish(m, SCALE as int);
}

/// Scaling a non-negative value by a factor of at most one shrinks it.
pub proof fn lemma_fxm_le_factor(a: int, b: int)
    requires
        0 <= a,
        0 <= b <= SCALE as int,
    ensures
        0 <= fxm(a, b) <= a,
{
    lemma_mul_nonnegative(a, b);
    lemma_tdiv_abs(a * b, SCALE as int);
    lemma_mul_inequality(b, SCALE as int, a);
    lemma_div_is_ordered(a * b, a * SCALE as int, SCALE as int);
    lemma_div_multiples_vanish(a, SCALE as int);
    lemma_div_pos_is_pos(a * b, SCALE as int);
}

/// The fraction of the way `x` lies through `[lo, hi]` is a scalar within
/// `[0, 1]`.
pub proof fn lemma_frac_unit(x: int, lo: int, hi: int)
    requires
        lo <= x <= hi,
        lo < hi,
    ensures
        0 <= fxd(x - lo, hi - lo) <= SCALE as int,
{
    lemma_mul_nonnegative(x - lo, SCALE as int);
    lemma_tdiv_nonneg((x - lo) * SCALE as int, hi - lo);
    lemma_mul_inequality(x - lo, hi - lo, SCALE as int);
    lemma_tdiv_mono((x - lo) * SCALE as int, (hi - lo) * SCALE as int, hi - lo);
    lemma_div_multiples_vanish(SCALE as int, hi - lo);
    lemma_tdiv_abs((hi - lo) * SCALE as int, hi - lo);
    assert((hi - lo) * SCALE as int == SCALE as int * (hi - lo));
}

/// Scaling and rescaling by the fixed-point unit is exact.
pub proof fn lemma_tdiv_scale(x: int)
    ensures
        tdiv(x * SCALE as int, SCALE as int) == x,
{
    lemma_tdiv_abs(x * SCALE as int, SCALE as int);
    lemma_abs_mul(x, SCALE as int);
    lemma_div_multiples_vanish(absi(x), SCALE as int);
    assert(absi(x) * SCALE as int == SCALE as int * absi(x));
}

/// Negating either operand negates a truncating quotient.
pub proof fn lemma_tdiv_neg(a: int, b: int)
    requires
        b != 0,
    ensures
        tdiv(-a, b) == -tdiv(a, b),
        tdiv(a, -b) == -tdiv(a, b),
{
    assert(absi(-a) == absi(a));
    assert(absi(-b) == absi(b));
}

/// Negating either factor negates a fixed-point product.
pub proof fn lemma_fxm_neg(a: int, b: int)
    ensures
        fxm(-a, b) == -fxm(a, b),
        fxm(a, -b) == -fxm(a, b),
{
    lemma_mul_unary_negation(a, b);
    lemma_tdiv_neg(a * b, SCALE as int);
}

/// Truncating division by a positive divisor is monotone in the dividend.
pub proof fn lemma_tdiv_mono(a1: int, a2: int, b: int)
    requires
        a1 <= a2,
        b >= 1,
    ensures
        tdiv(a1, b) <= tdiv(a2, b),
{
    lemma_tdiv_abs(a1, b);
    lemma_tdiv_abs(a2, b);
    if a1 >= 0 {
        lemma_div_is_ordered(a1, a2, b);
    } else if a2 < 0 {
        lemma_div_is_ordered(-a2, -a1, b);
    } else {
        lemma_div_pos_is_pos(-a1, b);
        lemma_div_pos_is_pos(a2, b);
    }
}

/// Truncating division of raw scalars, rounding toward zero.
pub fn raw_div(a: i128, b: i128) -> (r: i128)
    requires
        b != 0,
        absi(a as int) <= DIV_LIM as int,
        absi(b as int) <= DIV_LIM as int,
    ensures
        r as int == tdiv(a as int, b as int),
{
    let na: u128 = if a >= 0 { a as u128 } else { (-a) as u128 };
    let nb: u128 = if b >= 0 { b as u128 } else { (-b) as u128 };
    let q: u128 = na / nb;
    proof {
        assert(na as int == absi(a as int));
        assert(nb as int == absi(b as int));
        assert(na / nb <= na) by (nonlinear_arith)
            requires nb >= 1;
    }
    if (a >= 0) == (b >= 0) {
        q as i128
    } else {
        -(q as i128)
    }
}

/// The fixed-point product of two scalars.
pub fn fx_mul(a: i128, b: i128) -> (r: i128)
    requires
        absi(a as int) <= MUL_LIM as int,
        absi(b as int) <= MUL_LIM as int,
    ensures
        r as int == fxm(a as int, b as int),
{
    proof {
        lemma_fxm_bound(a as int, b as int, MUL_LIM as int, MUL_LIM as int);
    }
    let p = a * b;
    raw_div(p, SCALE)
}

/// The fixed-point quotient of two scalars.
pub fn fx_div(a: i128, b: i128) -> (r: i128)
    requires
        b != 0,
        absi(a as int) <= FXD_LIM as int,
        absi(b as int) <= DIV_LIM as int,
    ensures
        r as int == fxd(a as int, b as int),
{
    proof {
        lemma_abs_mul(a as int, SCALE as int);
        lemma_mul_upper_bound(absi(a as int), FXD_LIM as int, SCALE as int, SCALE as int);
    }
    let p = a * SCALE;
    raw_div(p, b)
}

/// The fixed-point square root of a non-negative scalar.
pub fn fx_sqrt(a: i128) -> (r: i128)
    requires
        0 <= a <= SQRT_LIM as int,
    ensures
        r as int == fxsqrt(a as int),
        is_sqrt(r as int, a as int * SCALE as int),
        0 <= r <= MUL_LIM,
{
    proof {
        lemma_abs_mul(a as int, SCALE as int);
        lemma_mul_upper_bound(absi(a as int), SQRT_LIM as int, SCALE as int, SCALE as int);
    }
    let x: u128 = (a * SCALE) as u128;
    let mut lo: u128 = 0;
    let mut hi: u128 = 4611686018427387904;
    proof {
        assert((hi as int) * (hi as int) > x as int) by (nonlinear_arith)
            requires hi == 4611686018427387904u128, x as int <= SQRT_LIM as int * SCALE as int;
    }
    while lo + 1 < hi
        invariant
            lo < hi,
            hi <= 4611686018427387904,
            lo as int * lo as int <= x as int,
            (x as int) < hi as int * hi as int,
        decreases hi - lo,
    {
        let mid = lo + (hi - lo) / 2;
        proof {
            assert((hi - lo) / 2 >= 1 && (hi - lo) / 2 < hi - lo) by (nonlinear_arith)
                requires hi - lo >= 2;
            assert(mid * mid < 21267647932558653966460912964485513216) by (nonlinear_arith)
                requires mid < 4611686018427387904u128;
        }
        if mid * mid <= x {
            lo = mid;
        } else {
            hi = mid;
        }
    }
    proof {
        assert(hi == lo + 1);
        assert(is_sqrt(lo as int, x as int));
        assert(is_sqrt(sqrti(x as int), x as int)) by {
            assert(exists|r: int| is_sqrt(r, x as int)) by {
                assert(is_sqrt(lo as int, x as int));
            }
        }
        lemma_sqrt_unique(lo as int, sqrti(x as int), x as int);
    }
    lo as i128
}

/// Flooring division of a raw scalar by a positive divisor, rounding toward
/// negative infinity as the mathematical floor does.
pub fn floor_div(a: i128, b: i128) -> (r: i128)
    requires
        1 <= b,
        absi(a as int) <= DIV_LIM as int,
        b <= DIV_LIM,
    ensures
        r as int == a as int / b as int,
{
    if a >= 0 {
        raw_div(a, b)
    } else {
        let q0 = raw_div(-a, b);
        proof {
            lemma_fundamental_div_mod(-(a as int), b as int);
            lemma_mod_division_less_than_divisor(-(a as int), b as int);
            lemma_div_pos_is_pos(-(a as int), b as int);
        }
        let r0 = (-a) - q0 * b;
        if r0 == 0 {
            proof {
                lemma_mul_unary_negation(q0 as int, b as int);
                lemma_div_multiples_vanish(-(q0 as int), b as int);
            }
            -q0
        } else {
            proof {
                assert((-(q0 as int) - 1) * b as int + (b as int - r0 as int) == a as int)
                    by (nonlinear_arith)
                    requires r0 as int == -(a as int) - (q0 as int) * (b as int);
                lemma_fundamental_div_mod_converse_div(
                    a as int, b as int, -(q0 as int) - 1, b as int - r0 as int);
            }
            -q0 - 1
        }
    }
}

/// The remainder of a raw scalar into `[0, b)` for a positive divisor.
pub fn floor_mod(a: i128, b: i128) -> (r: i128)
    requires
        1 <= b,
        absi(a as int) <= DIV_LIM as int,
        b <= MUL_LIM,
    ensures
        r as int == a as int % b as int,
        0 <= r < b,
{
    let q = floor_div(a, b);
    proof {
        lemma_fundamental_div_mod(a as int, b as int);
        lemma_mod_division_less_than_divisor(a as int, b as int);
        let ai = a as int;
        let bi = b as int;
        let qi = q as int;
        let mi = ai % bi;
        assert(absi(qi * bi) <= absi(ai) + bi) by (nonlinear_arith)
            requires
                ai == qi * bi + mi,
                0 <= mi < bi;
    }
    a - q * b
}

/// Largest magnitude `fx_sin` and `fx_cos` accept.
pub const TRIG_LIM: i128 = 1152921504606846976;

/// Two times the circle constant, in raw fixed-point units.
pub const TWO_PI: i128 = 411775;

/// The argument reduced into `[-PI, PI)`, as `fx_sin` reduces it.
pub open spec fn trig_reduce(x: int) -> int {
    let m = x % (TWO_PI as int);
    if m >= PI as int { m - TWO_PI as int } else { m }
}

/// The truncated sine series `fx_sin` evaluates after reduction.
pub open spec fn sin_series(r: int) -> int {
    let r2 = fxm(r, r);
    let r3 = fxm(r2, r);
    let r5 = fxm(r3, r2);
    let r7 = fxm(r5, r2);
    r - tdiv(r3, 6) + tdiv(r5, 120) - tdiv(r7, 5040)
}

/// The truncated cosine series `fx_cos` evaluates after reduction.
pub open spec fn cos_series(r: int) -> int {
    let r2 = fxm(r, r);
    let r4 = fxm(r2, r2);
    let r6 = fxm(r4, r2);
    SCALE as int - tdiv(r2, 2) + tdiv(r4, 24) - tdiv(r6, 720)
}

/// The sine of a fixed-point angle in radians, by a truncated series on the
/// argument reduced into `[-PI, PI)`, clamped to `[-1, 1]`.
pub fn fx_sin(x: i128) -> (r: i128)
    requires
        absi(x as int) <= TRIG_LIM as int,
    ensures
        r as int == crate::clamp_spec(sin_series(trig_reduce(x as int)), -(SCALE as int),
            SCALE as int),
        absi(r as int) <= SCALE as int,
        x == 0 ==> r == 0,
{
    let m = floor_mod(x, TWO_PI);
    let red = if m >= PI { m - TWO_PI } else { m };
    proof {
        assert(red as int == trig_reduce(x as int));
        lemma_fxm_bound(red as int, red as int, 205888, 205888);
        let r2 = fxm(red as int, red as int);
        lemma_fxm_bound(r2, red as int, 646843, 205888);
        let r3 = fxm(r2, red as int);
        lemma_fxm_bound(r3, r2, 2032168, 646843);
        let r5 = fxm(r3, r2);
        lemma_fxm_bound(r5, r2, 20060000, 646843);
        lemma_tdiv_abs(r3, 6);
        lemma_tdiv_abs(r5, 120);
        lemma_tdiv_abs(fxm(r5, r2), 5040);
        lemma_tdiv_nonneg(absi(r3), 6);
        lemma_tdiv_nonneg(absi(r5), 120);
        lemma_tdiv_nonneg(absi(fxm(r5, r2)), 5040);
    }
    let r2 = fx_mul(red, red);
    let r3 = fx_mul(r2, red);
    let r5 = fx_mul(r3, r2);
    let r7 = fx_mul(r5, r2);
    let s = red - raw_div(r3, 6) + raw_div(r5, 120) - raw_div(r7, 5040);
    proof {
        if x == 0 {
            lemma_tdiv_nonneg(0, SCALE as int);
            lemma_tdiv_nonneg(0, 6);
            lemma_tdiv_nonneg(0, 120);
            lemma_tdiv_nonneg(0, 5040);
            assert(sin_series(0) == 0);
        }
    }
    crate::clamp(s, -SCALE, SCALE)
}

/// The cosine of a fixed-point angle in radians, by a truncated series on
/// the argument reduced into `[-PI, PI)`, clamped to `[-1, 1]`.
pub fn fx_cos(x: i128) -> (r: i128)
    requires
        absi(x as int) <= TRIG_LIM as int,
    ensures
        r as int == crate::clamp_spec(cos_series(trig_reduce(x as int)), -(SCALE as int),
            SCALE as int),
        absi(r as int) <= SCALE as int,
        x == 0 ==> r == SCALE,
{
    let m = floor_mod(x, TWO_PI);
    let red = if m >= PI { m - TWO_PI } else { m };
    proof {
        assert(red as int == trig_reduce(x as int));
        lemma_fxm_bound(red as int, red as int, 205888, 205888);
        let r2 = fxm(red as int, red as int);
        lemma_fxm_bound(r2, r2, 646843, 646843);
        let r4 = fxm(r2, r2);
        lemma_fxm_bound(r4, r2, 6384696, 646843);
        lemma_tdiv_abs(r2, 2);
        lemma_tdiv_abs(r4, 24);
        lemma_tdiv_abs(fxm(r4, r2), 720);
        lemma_tdiv_nonneg(absi(r2), 2);
        lemma_tdiv_nonneg(absi(r4), 24);
        lemma_tdiv_nonneg(absi(fxm(r4, r2)), 720);
    }
    let r2 = fx_mul(red, red);
    let r4 = fx_mul(r2, r2);
    let r6 = fx_mul(r4, r2);
    let c = SCALE - raw_div(r2, 2) + raw_div(r4, 24) - raw_div(r6, 720);
    proof {
        if x == 0 {
            lemma_tdiv_nonneg(0, SCALE as int);
            lemma_tdiv_nonneg(0, 2);
            lemma_tdiv_nonneg(0, 24);
            lemma_tdiv_nonneg(0, 720);
            assert(cos_series(0) == SCALE as int);
        }
    }
    crate::clamp(c, -SCALE, SCALE)
}

/// Half the circle constant, in raw fixed-point units.
pub const HALF_PI: i128 = 102944;

/// The truncated arc-tangent series `atan_poly` evaluates.
pub open spec fn atan_series(t: int) -> int {
    let t2 = fxm(t, t);
    let t3 = fxm(t2, t);
    let t5 = fxm(t3, t2);
    t - tdiv(t3, 3) + tdiv(t5, 5)
}

/// The angle `fx_atan2` returns before its final clamp: the arc-tangent
/// series on the slighter-slope quotient, folded into the right quadrant.
pub open spec fn atan2_spec(y: int, x: int) -> int {
    if x == 0 && y == 0 {
        0
    } else {
        let base = if absi(y) <= absi(x) {
            atan_series(fxd(y, x))
        } else {
            let inner = atan_series(fxd(x, y));
            if y > 0 { HALF_PI as int - inner } else { -(HALF_PI as int) - inner }
        };
        let shifted = if x < 0 {
            if y >= 0 { base + PI } else { base - PI }
        } else {
            base
        };
        crate::clamp_spec(shifted, -(PI as int), PI as int)
    }
}

/// The truncated arc-sine series `fx_acos` evaluates away from the ends.
pub open spec fn asin_series(t: int) -> int {
    let t2 = fxm(t, t);
    let t3 = fxm(t2, t);
    let t5 = fxm(t3, t2);
    t + tdiv(t3, 6) + tdiv(3 * t5, 40)
}

/// The square-root expansion `fx_acos` evaluates near the ends: for `s` one
/// minus the argument, the arc cosine is close to
/// `sqrt(2 s) (1 + s/12 + 3 s^2/160)`, and exactly zero at the end itself.
pub open spec fn acos_tail(s: int) -> int {
    let root = sqrti(2 * s * SCALE as int);
    let poly = SCALE as int + tdiv(s, 12) + tdiv(3 * fxm(s, s), 160);
    fxm(root, poly)
}

/// The angle `fx_acos` returns: on the middle of `[-1, 1]` a quarter turn
/// less the arc-sine series; near either end the square-root expansion,
/// which meets the ends exactly; clamped into `[0, PI]`.
pub open spec fn acos_spec(x: int) -> int {
    let t = crate::clamp_spec(x, -(SCALE as int), SCALE as int);
    let raw = if t >= 32768 {
        acos_tail(SCALE as int - t)
    } else if t <= -32768 {
        PI as int - acos_tail(SCALE as int + t)
    } else {
        HALF_PI as int - asin_series(t)
    };
    crate::clamp_spec(raw, 0, PI as int)
}

/// A truncated arc-tangent series for arguments of magnitude at most one.
fn atan_poly(t: i128) -> (r: i128)
    requires
        absi(t as int) <= SCALE as int,
    ensures
        r as int == atan_series(t as int),
        absi(r as int) <= 2 * SCALE as int,
{
    proof {
        lemma_fxm_within(t as int, t as int, 65536, 65536, 65536);
        let t2 = fxm(t as int, t as int);
        lemma_fxm_within(t2, t as int, 65536, 65536, 65536);
        let t3 = fxm(t2, t as int);
        lemma_fxm_within(t3, t2, 65536, 65536, 65536);
        lemma_tdiv_abs(t3, 3);
        lemma_tdiv_abs(fxm(t3, t2), 5);
        lemma_div_nonincreasing(absi(t3), 3);
        lemma_div_nonincreasing(absi(fxm(t3, t2)), 5);
    }
    let t2 = fx_mul(t, t);
    let t3 = fx_mul(t2, t);
    let t5 = fx_mul(t3, t2);
    t - raw_div(t3, 3) + raw_div(t5, 5)
}

/// The angle of the point `(x, y)` from the positive x axis, clamped into
/// `[-PI, PI]`; both coordinates zero give zero.
pub fn fx_atan2(y: i128, x: i128) -> (r: i128)
    requires
        absi(y as int) <= 1048576,
        absi(x as int) <= 1048576,
    ensures
        r as int == atan2_spec(y as int, x as int),
        -(PI as int) <= r as int <= PI as int,
{
    if x == 0 && y == 0 {
        return 0;
    }
    let ay = abs_i(y);
    let ax = abs_i(x);
    let base: i128 = if ay <= ax {
        proof {
            assert(x != 0);
            lemma_tdiv_abs_any(y as int * SCALE as int, x as int);
            lemma_abs_mul(y as int, SCALE as int);
            assert(absi(y as int) * SCALE as int <= absi(x as int) * SCALE as int)
                by (nonlinear_arith)
                requires absi(y as int) <= absi(x as int);
            lemma_div_is_ordered(absi(y as int) * SCALE as int, absi(x as int) * SCALE as int,
                absi(x as int));
            assert((absi(x as int) * SCALE as int) / absi(x as int) == SCALE as int) by {
                assert(absi(x as int) * SCALE as int == SCALE as int * absi(x as int));
                lemma_div_multiples_vanish(SCALE as int, absi(x as int));
            }
        }
        atan_poly(fx_div(y, x))
    } else {
        proof {
            assert(y != 0);
            lemma_tdiv_abs_any(x as int * SCALE as int, y as int);
            lemma_abs_mul(x as int, SCALE as int);
            assert(absi(x as int) * SCALE as int <= absi(y as int) * SCALE as int)
                by (nonlinear_arith)
                requires absi(x as int) <= absi(y as int);
            lemma_div_is_ordered(absi(x as int) * SCALE as int, absi(y as int) * SCALE as int,
                absi(y as int));
            assert((absi(y as int) * SCALE as int) / absi(y as int) == SCALE as int) by {
                assert(absi(y as int) * SCALE as int == SCALE as int * absi(y as int));
                lemma_div_multiples_vanish(SCALE as int, absi(y as int));
            }
        }
        let inner = atan_poly(fx_div(x, y));
        if y > 0 { HALF_PI - inner } else { -HALF_PI - inner }
    };
    let shifted = if x < 0 {
        if y >= 0 { base + PI } else { base - PI }
    } else {
        base
    };
    crate::clamp(shifted, -PI, PI)
}

/// The arc cosine of a scalar in `[-1, 1]`, by a truncated series, clamped
/// into `[0, PI]`.
pub fn fx_acos(x: i128) -> (r: i128)
    requires
        absi(x as int) <= 2 * SCALE as int,
    ensures
        r as int == acos_spec(x as int),
        0 <= r as int <= PI as int,
        x >= SCALE ==> r == 0,
        x <= -SCALE ==> r == PI,
{
    let t = crate::clamp(x, -SCALE, SCALE);
    let raw: i128 = if t >= 32768 {
        acos_end(SCALE - t)
    } else if t <= -32768 {
        PI - acos_end(SCALE + t)
    } else {
        proof {
            lemma_fxm_within(t as int, t as int, 65536, 65536, 65536);
            let t2 = fxm(t as int, t as int);
            lemma_fxm_within(t2, t as int, 65536, 65536, 65536);
            let t3 = fxm(t2, t as int);
            lemma_fxm_within(t3, t2, 65536, 65536, 65536);
            lemma_tdiv_abs(t3, 6);
            lemma_tdiv_abs(3 * fxm(t3, t2), 40);
            lemma_div_nonincreasing(absi(t3), 6);
            lemma_div_nonincreasing(absi(3 * fxm(t3, t2)), 40);
            lemma_abs_mul(3, fxm(t3, t2));
        }
        let t2 = fx_mul(t, t);
        let t3 = fx_mul(t2, t);
        let t5 = fx_mul(t3, t2);
        let asin_v = t + raw_div(t3, 6) + raw_div(3 * t5, 40);
        HALF_PI - asin_v
    };
    proof {
        if x >= SCALE {
            lemma_acos_end_zero();
        }
        if x <= -SCALE {
            lemma_acos_end_zero();
        }
    }
    crate::clamp(raw, 0, PI)
}

/// The square-root expansion of the arc cosine for arguments within the
/// scale's half of an end.
fn acos_end(s: i128) -> (r: i128)
    requires
        0 <= s <= 32768,
    ensures
        r as int == acos_tail(s as int),
        0 <= r <= 104000,
{
    proof {
        lemma_fxm_within(s as int, s as int, 32768, 32768, 16384);
        lemma_tdiv_abs(s as int, 12);
        lemma_tdiv_nonneg(s as int, 12);
        lemma_tdiv_abs(3 * fxm(s as int, s as int), 160);
        lemma_tdiv_nonneg(3 * fxm(s as int, s as int), 160);
        lemma_abs_mul(3, fxm(s as int, s as int));
        crate::vec3::lemma_fxm_sq_nonneg(s as int);
    }
    let root = fx_sqrt(2 * s);
    let poly = SCALE + raw_div(s, 12) + raw_div(3 * fx_mul(s, s), 160);
    proof {
        let ri = root as int;
        assert(ri * ri <= 2 * s as int * SCALE as int);
        assert(ri <= 92682) by (nonlinear_arith)
            requires 0 <= ri, ri * ri <= 2 * (s as int) * 65536, s <= 32768i128;
        lemma_fxm_within(ri, poly as int, 92682, 69013, 97603);
        lemma_mul_nonnegative(ri, poly as int);
        lemma_tdiv_nonneg(ri * poly as int, SCALE as int);
    }
    fx_mul(root, poly)
}

/// The square-root expansion vanishes exactly at the end.
proof fn lemma_acos_end_zero()
    ensures
        acos_tail(0) == 0,
{
    assert(is_sqrt(0, 0));
    lemma_sqrt_unique(0, sqrti(0), 0);
    let poly = SCALE as int + tdiv(0, 12) + tdiv(3 * fxm(0, 0), 160);
    lemma_tdiv_nonneg(0, 12);
    lemma_tdiv_nonneg(0, SCALE as int);
    lemma_tdiv_nonneg(0, 160);
    assert(fxm(0, poly) == 0);
}

/// Magnitude of a raw scalar.
pub fn abs_i(a: i128) -> (r: i128)
    requires
        absi(a as int) <= DIV_LIM as int,
    ensures
        r as int == absi(a as int),
{
    if a >= 0 { a } else { -a }
}

/// The lesser of two raw scalars.
pub fn min_i(a: i128, b: i128) -> (r: i128)
    ensures
        r as int == mini(a as int, b as int),
{
    if a < b { a } else { b }
}

/// The greater of two raw scalars.
pub fn max_i(a: i128, b: i128) -> (r: i128)
    ensures
        r as int == maxi(a as int, b as int),
{
    if a > b { a } else { b }
}

} // verus!
