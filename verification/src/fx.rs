//! Signed fixed-point numbers with 48 fractional bits.
//!
//! All continuous quantities of the engine (world coordinates, angles in
//! radians, distances) are carried as `Fx` values: an `i64` holding the
//! quantity multiplied by `FX_SCALE` (2^48).  Contracts speak of the raw
//! scaled integers, so every arithmetic claim below is exact.
use vstd::prelude::*;

verus! {

/// A fixed-point number: the represented quantity times `FX_SCALE`.
pub type Fx = i64;

/// One whole unit: 2^48.
pub const FX_SCALE: i64 = 0x1_0000_0000_0000;

/// Half of a unit, used for rounding to the nearest integer.
pub const FX_HALF: i64 = 0x8000_0000_0000;

/// Magnitude of a mathematical integer.
pub open spec fn abs_val(x: int) -> int {
    if x < 0 {
        -x
    } else {
        x
    }
}

/// Clamps a mathematical integer into the `i64` range.
pub open spec fn sat_i64(x: int) -> int {
    if x > i64::MAX {
        i64::MAX as int
    } else if x < i64::MIN {
        i64::MIN as int
    } else {
        x
    }
}

/// Quotient of `a` by `b`, truncated toward zero (the semantics of `/` on
/// Rust's integers), expressed with Euclidean spec division on magnitudes.
pub open spec fn div_trunc(a: int, b: int) -> int
    recommends
        b != 0,
{
    if (a < 0) != (b < 0) {
        -(abs_val(a) / abs_val(b))
    } else {
        abs_val(a) / abs_val(b)
    }
}

/// The product of two fixed-point numbers, before saturation.
pub open spec fn fx_mul_val(a: int, b: int) -> int {
    div_trunc(a * b, FX_SCALE as int)
}

/// The quotient of two fixed-point numbers, before saturation.
pub open spec fn fx_div_val(a: int, b: int) -> int
    recommends
        b != 0,
{
    div_trunc(a * FX_SCALE, b)
}

/// `a` rounded to the nearest whole number of units (half away from zero),
/// as a plain integer count of units.
pub open spec fn fx_round_val(a: int) -> int {
    if a >= 0 {
        (a + FX_HALF) / (FX_SCALE as int)
    } else {
        -((-a + FX_HALF) / (FX_SCALE as int))
    }
}

/// The value `fx_mul_sat` returns.
pub open spec fn fx_mul_s(a: int, b: int) -> int {
    sat_i64(fx_mul_val(a, b))
}

/// The value `fx_div_sat` returns.
pub open spec fn fx_div_s(a: int, b: int) -> int
    recommends
        b != 0,
{
    sat_i64(fx_div_val(a, b))
}

/// The value `fx_add_sat` returns.
pub open spec fn fx_add_s(a: int, b: int) -> int {
    sat_i64(a + b)
}

/// The value `fx_sub_sat` returns.
pub open spec fn fx_sub_s(a: int, b: int) -> int {
    sat_i64(a - b)
}

/// Saturating fixed-point addition.
pub fn fx_add_sat(a: Fx, b: Fx) -> (r: Fx)
    ensures
        r == sat_i64(a + b),
{
    let s: i128 = a as i128 + b as i128;
    if s > i64::MAX as i128 {
        i64::MAX
    } else if s < i64::MIN as i128 {
        i64::MIN
    } else {
        s as i64
    }
}

/// Saturating fixed-point subtraction.
pub fn fx_sub_sat(a: Fx, b: Fx) -> (r: Fx)
    ensures
        r == sat_i64(a - b),
{
    let s: i128 = a as i128 - b as i128;
    if s > i64::MAX as i128 {
        i64::MAX
    } else if s < i64::MIN as i128 {
        i64::MIN
    } else {
        s as i64
    }
}

/// Magnitude of an `i64`, widened so that `i64::MIN` needs no special case.
fn abs128(a: i64) -> (r: i128)
    ensures
        r == abs_val(a as int),
        0 <= r <= 0x8000_0000_0000_0000i128,
{
    if a >= 0 {
        a as i128
    } else {
        -(a as i128)
    }
}

proof fn lemma_abs_mul(a: int, b: int)
    ensures
        abs_val(a) * abs_val(b) == abs_val(a * b),
        (a < 0) != (b < 0) && a * b != 0 ==> a * b < 0,
        (a < 0) == (b < 0) ==> a * b >= 0,
{
    assert(abs_val(a) * abs_val(b) == abs_val(a * b) && ((a < 0) != (b < 0) && a * b != 0 ==> a * b < 0)
        && ((a < 0) == (b < 0) ==> a * b >= 0)) by (nonlinear_arith);
}

/// Saturating fixed-point multiplication, truncated toward zero.
pub fn fx_mul_sat(a: Fx, b: Fx) -> (r: Fx)
    ensures
        r == sat_i64(fx_mul_val(a as int, b as int)),
{
    let negative: bool = (a < 0) != (b < 0);
    let ma: i128 = abs128(a);
    let mb: i128 = abs128(b);
    proof {
        assert(ma * mb <= 0x8000_0000_0000_0000i128 * 0x8000_0000_0000_0000i128)
            by (nonlinear_arith)
            requires
                0 <= ma <= 0x8000_0000_0000_0000i128,
                0 <= mb <= 0x8000_0000_0000_0000i128,
        ;
        lemma_abs_mul(a as int, b as int);
    }
    let p: i128 = ma * mb;
    let q: i128 = p / FX_SCALE as i128;
    if negative {
        if q > -(i64::MIN as i128) {
            i64::MIN
        } else {
            (-q) as i64
        }
    } else {
        if q > i64::MAX as i128 {
            i64::MAX
        } else {
            q as i64
        }
    }
}

/// Saturating fixed-point division, truncated toward zero.
pub fn fx_div_sat(a: Fx, b: Fx) -> (r: Fx)
    requires
        b != 0,
    ensures
        r == sat_i64(fx_div_val(a as int, b as int)),
{
    let negative: bool = (a < 0) != (b < 0);
    let ma: i128 = abs128(a);
    let mb: i128 = abs128(b);
    proof {
        assert(ma * (FX_SCALE as i128) <= 0x8000_0000_0000_0000i128 * 0x1_0000_0000_0000i128)
            by (nonlinear_arith)
            requires
                0 <= ma <= 0x8000_0000_0000_0000i128,
        ;
        lemma_abs_mul(a as int, FX_SCALE as int);
    }
    let p: i128 = ma * (FX_SCALE as i128);
    let q: i128 = p / mb;
    proof {
        assert(abs_val(a as int) * (FX_SCALE as int) / abs_val(b as int) == abs_val(a as int * FX_SCALE)
            / abs_val(b as int));
    }
    if negative {
        if q > -(i64::MIN as i128) {
            i64::MIN
        } else {
            (-q) as i64
        }
    } else {
        if q > i64::MAX as i128 {
            i64::MAX
        } else {
            q as i64
        }
    }
}

/// Largest multiple of one unit that is at most `a` (floor), saturated.
pub fn fx_floor(a: Fx) -> (r: Fx)
    ensures
        r == sat_i64((a as int / FX_SCALE as int) * FX_SCALE),
{
    let v: i128 = a as i128;
    let q: i128 = if v >= 0 {
        v / FX_SCALE as i128
    } else {
        -((-v + FX_SCALE as i128 - 1) / FX_SCALE as i128)
    };
    proof {
        lemma_floor_div(a as int, q as int);
    }
    let f: i128 = q * FX_SCALE as i128;
    if f < i64::MIN as i128 {
        i64::MIN
    } else {
        f as i64
    }
}

/// Smallest multiple of one unit that is at least `a` (ceiling), saturated.
pub fn fx_ceil(a: Fx) -> (r: Fx)
    ensures
        r == sat_i64(((a + FX_SCALE - 1) as int / FX_SCALE as int) * FX_SCALE),
{
    let v: i128 = a as i128 + FX_SCALE as i128 - 1;
    let q: i128 = if v >= 0 {
        v / FX_SCALE as i128
    } else {
        -((-v + FX_SCALE as i128 - 1) / FX_SCALE as i128)
    };
    proof {
        lemma_floor_div(v as int, q as int);
    }
    let f: i128 = q * FX_SCALE as i128;
    if f > i64::MAX as i128 {
        i64::MAX
    } else {
        f as i64
    }
}

/// Relates the truncated quotient computed on magnitudes to the Euclidean
/// quotient used in contracts: `q` as computed in `fx_floor` is exactly
/// `x / FX_SCALE` in spec arithmetic.
proof fn lemma_floor_div(x: int, q: int)
    requires
        q == if x >= 0 {
            x / FX_SCALE as int
        } else {
            -((-x + FX_SCALE - 1) / FX_SCALE as int)
        },
    ensures
        q == x / FX_SCALE as int,
{
    let s = FX_SCALE as int;
    if x < 0 {
        let m = -x;
        assert((m + s - 1) / s * s >= m && (m + s - 1) / s * s < m + s && ((m % s == 0) ==> (m + s
            - 1) / s == m / s) && ((m % s != 0) ==> (m + s - 1) / s == m / s + 1))
            by (nonlinear_arith)
            requires
                m > 0,
                s == FX_SCALE as int,
        ;
        assert((-m) / s == if m % s == 0 {
            -(m / s)
        } else {
            -(m / s) - 1
        }) by (nonlinear_arith)
            requires
                m > 0,
                s == FX_SCALE as int,
        ;
    }
}

/// The grid cell that a nonnegative coordinate lies in; negative
/// coordinates are clamped to cell zero, as a float-to-`usize` cast would.
pub open spec fn fx_cell_val(a: int) -> int {
    if a < 0 {
        0
    } else {
        a / FX_SCALE as int
    }
}

/// Grid cell index of a fixed-point coordinate.
pub fn fx_cell(a: Fx) -> (r: usize)
    ensures
        r == fx_cell_val(a as int),
        r <= 0x8000,
{
    if a < 0 {
        0
    } else {
        (a / FX_SCALE) as usize
    }
}

/// Rounds to the nearest whole number of units, half away from zero,
/// returning the unit count as a plain integer.
pub fn fx_round(a: Fx) -> (r: i64)
    ensures
        r == fx_round_val(a as int),
        -0x8001 <= r <= 0x8000,
{
    if a >= 0 {
        ((a as i128 + FX_HALF as i128) / FX_SCALE as i128) as i64
    } else {
        let m: i128 = -(a as i128) + FX_HALF as i128;
        -((m / FX_SCALE as i128) as i64)
    }
}

/// Rounds a wide intermediate value to the nearest whole number of units,
/// half away from zero.
pub fn fx_round_wide(v: i128) -> (r: i64)
    requires
        -0x2_0000_0000_0000_0000i128 <= v <= 0x2_0000_0000_0000_0000i128,
    ensures
        r == fx_round_val(v as int),
        -0x2_0001 <= r <= 0x2_0000,
{
    if v >= 0 {
        ((v + FX_HALF as i128) / FX_SCALE as i128) as i64
    } else {
        -(((-v + FX_HALF as i128) / FX_SCALE as i128) as i64)
    }
}

/// Clamps a wide intermediate value into the `i64` range.
pub fn fx_narrow(v: i128) -> (r: i64)
    ensures
        r == sat_i64(v as int),
{
    if v > i64::MAX as i128 {
        i64::MAX
    } else if v < i64::MIN as i128 {
        i64::MIN
    } else {
        v as i64
    }
}

/// The saturated product of nonnegative values is nonnegative.
pub proof fn lemma_mul_s_nonneg(a: int, b: int)
    requires
        a >= 0,
        b >= 0,
    ensures
        fx_mul_s(a, b) >= 0,
{
    assert(a * b >= 0) by (nonlinear_arith)
        requires
            a >= 0,
            b >= 0,
    ;
}

/// The saturated quotient of a nonnegative value by a positive one is
/// nonnegative.
pub proof fn lemma_div_s_nonneg(a: int, b: int)
    requires
        a >= 0,
        b > 0,
    ensures
        fx_div_s(a, b) >= 0,
{
    assert(a * FX_SCALE >= 0) by (nonlinear_arith)
        requires
            a >= 0,
    ;
}

/// The fixed-point value of a small whole number of units.
pub fn fx_from_int(n: i64) -> (r: Fx)
    requires
        -0x7fff <= n <= 0x7fff,
    ensures
        r == n * FX_SCALE,
{
    n * FX_SCALE
}

} // verus!
