//! Angles in radians, as fixed-point numbers, and their normalization.
use vstd::prelude::*;
use vstd::arithmetic::div_mod::lemma_mod_multiples_vanish;
use crate::fx::Fx;

verus! {

/// Pi, rounded to the fixed-point scale.
pub const FX_PI: i64 = 884279719003555;

/// A full turn: exactly twice `FX_PI`.
pub const FX_TAU: i64 = 1768559438007110;

/// A quarter turn, rounded to the fixed-point scale.
pub const FX_HALF_PI: i64 = 442139859501778;

/// Three quarters of a turn, rounded to the fixed-point scale.
pub const FX_THREE_HALF_PI: i64 = 1326419578505333;

/// The angle congruent to `a` that lies in `[0, FX_TAU)`.
pub open spec fn norm_val(a: int) -> int {
    a % (FX_TAU as int)
}

/// Maps an angle in `[0, FX_TAU)` into the signed range `[-FX_PI, FX_PI)`.
pub open spec fn wrap_val(a: int) -> int {
    if a >= FX_PI {
        a - FX_TAU
    } else {
        a
    }
}

/// Euclidean remainder of a (possibly negative) value by `FX_TAU`.
fn emod_tau(v: i128) -> (r: i128)
    requires
        -0x1_0000_0000_0000_0000_0000i128 < v < 0x1_0000_0000_0000_0000_0000i128,
    ensures
        r == (v as int) % (FX_TAU as int),
        0 <= r < FX_TAU,
{
    let t: i128 = FX_TAU as i128;
    if v >= 0 {
        v % t
    } else {
        let mm: i128 = (-v) % t;
        if mm == 0 {
            proof {
                lemma_mod_opposite_zero(v as int, t as int);
            }
            0
        } else {
            proof {
                lemma_mod_opposite(v as int, t as int);
            }
            t - mm
        }
    }
}

/// Normalizes an angle into `[0, FX_TAU)`.
pub fn get_normalized_radians_angle(a: Fx) -> (r: Fx)
    ensures
        r == norm_val(a as int),
        0 <= r < FX_TAU,
{
    emod_tau(a as i128) as i64
}

/// For a negative dividend whose magnitude is not a multiple of the
/// modulus, the Euclidean remainder is the modulus minus the remainder of
/// the magnitude.
proof fn lemma_mod_opposite(v: int, t: int)
    requires
        v < 0,
        t > 0,
        (-v) % t != 0,
    ensures
        v % t == t - ((-v) % t),
{
    let m = -v;
    vstd::arithmetic::div_mod::lemma_fundamental_div_mod(m, t);
    assert(v == (-(m / t) - 1) * t + (t - m % t)) by (nonlinear_arith)
        requires
            v == -m,
            m == t * (m / t) + m % t,
    ;
    vstd::arithmetic::div_mod::lemma_fundamental_div_mod_converse_mod(
        v,
        t,
        -(m / t) - 1,
        t - m % t,
    );
}

/// For a negative dividend whose magnitude is a multiple of the modulus,
/// the Euclidean remainder is zero.
proof fn lemma_mod_opposite_zero(v: int, t: int)
    requires
        v < 0,
        t > 0,
        (-v) % t == 0,
    ensures
        v % t == 0,
{
    let m = -v;
    vstd::arithmetic::div_mod::lemma_fundamental_div_mod(m, t);
    assert(v == (-(m / t)) * t + 0) by (nonlinear_arith)
        requires
            v == -m,
            m % t == 0,
            m == t * (m / t) + m % t,
    ;
    vstd::arithmetic::div_mod::lemma_fundamental_div_mod_converse_mod(v, t, -(m / t), 0);
}

/// The normalization law: normalizing is idempotent, and the result always
/// lies in `[0, FX_TAU)`.
pub proof fn lemma_normalize_idempotent(a: int)
    ensures
        0 <= norm_val(a) < FX_TAU,
        norm_val(norm_val(a)) == norm_val(a),
{
    assert(norm_val(a) % (FX_TAU as int) == norm_val(a)) by {
        vstd::arithmetic::div_mod::lemma_small_mod(norm_val(a) as nat, FX_TAU as nat);
    };
}

/// The periodicity law: adding any whole number of full turns does not
/// change the normalized angle.
pub proof fn lemma_normalize_periodic(a: int, k: int)
    ensures
        norm_val(a + k * FX_TAU) == norm_val(a),
{
    lemma_mod_multiples_vanish(k, a, FX_TAU as int);
}

/// The signed angle from a facing direction to a world bearing, in
/// `[-FX_PI, FX_PI)`: the normalized difference, wrapped into the signed
/// range.
pub fn relative_angle(bearing: Fx, facing: Fx) -> (r: Fx)
    ensures
        r == wrap_val(norm_val(bearing - facing)),
        -FX_PI <= r < FX_PI,
{
    let n: i128 = emod_tau(bearing as i128 - facing as i128);
    let w: i128 = if n >= FX_PI as i128 {
        n - FX_TAU as i128
    } else {
        n
    };
    w as i64
}

} // verus!
