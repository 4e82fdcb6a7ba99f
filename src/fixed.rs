//! Fixed-point conventions shared by the engine: time is counted in
//! microseconds, directions are unit vectors scaled by `AXIS_SCALE`.
use vstd::prelude::*;

verus! {

/// Microseconds in one second: the denominator of every time step.
pub const MICROS_PER_SECOND: i128 = 1000000;

/// The length of a unit direction vector (a heading axis).
pub const AXIS_SCALE: i128 = 16384;

/// Division of integers that rounds toward zero, as machine division does.
pub open spec fn div0(a: int, b: int) -> int {
    if a >= 0 {
        a / b
    } else {
        -((-a) / b)
    }
}

/// The change of a velocity component when `f`, given in units of
/// `1 / scale`, acts for `dt` microseconds on a body of mass `mass`.
pub open spec fn velocity_change(f: int, scale: int, dt: int, mass: int) -> int {
    div0(f * dt, scale * mass * MICROS_PER_SECOND)
}

/// Executable `div0`.
pub fn div_toward_zero(a: i128, b: i128) -> (r: i128)
    requires
        b > 0,
        a > i128::MIN,
    ensures
        r == div0(a as int, b as int),
{
    if a >= 0 {
        ((a as u128) / (b as u128)) as i128
    } else {
        -((((-a) as u128) / (b as u128)) as i128)
    }
}

/// A quotient rounded toward zero is never larger in magnitude than the
/// exact one, and never has the opposite sign.
pub proof fn lemma_div0_bounds(a: int, b: int)
    requires
        b > 0,
    ensures
        a >= 0 ==> 0 <= div0(a, b) && div0(a, b) * b <= a,
        a < 0 ==> div0(a, b) <= 0 && div0(a, b) * b >= a,
        a >= 0 ==> div0(a, b) <= a,
        a < 0 ==> div0(a, b) >= a,
{
    let n = if a >= 0 { a } else { -a };
    vstd::arithmetic::div_mod::lemma_fundamental_div_mod(n, b);
    vstd::arithmetic::div_mod::lemma_mod_pos_bound(n, b);
    vstd::arithmetic::div_mod::lemma_div_pos_is_pos(n, b);
    let q = n / b;
    assert(q * b <= n) by (nonlinear_arith)
        requires
            n == b * q + n % b,
            0 <= n % b,
    ;
    assert(q <= n) by (nonlinear_arith)
        requires
            q * b <= n,
            b >= 1,
            q >= 0,
    ;
    assert((-q) * b == -(q * b)) by (nonlinear_arith);
}

} // verus!
