//! Q32.32 fixed-point arithmetic over `i128`: the higher-precision backing
//! representation.
//!
//! The operation family mirrors the Q16.16 module exactly, with one unit at
//! `2^32` and the conservative multiplication bound raised to `2^63`.  The
//! replay engine runs on the deployed Q16.16 format; this module keeps the
//! wide representation available with the same proved contracts.

use crate::fixed::{abs_i, Fault};
use vstd::arithmetic::div_mod::lemma_fundamental_div_mod;
use vstd::prelude::*;

verus! {

/// Fixed-point type: Q32.32 format using i128.
pub type IW = i128;

/// One wide fixed-point unit (1 << 32).
pub const FXW_ONE: i128 = 4294967296;

/// Does `v` fit in an `i128`?
pub open spec fn in_i128(v: int) -> bool {
    i128::MIN <= v <= i128::MAX
}

/// Value of `i_abs_wide`: the absolute value, except that the absolute
/// value of `i128::MIN` (not representable) saturates to `i128::MAX`.
pub open spec fn sat_abs_wide(a: int) -> int {
    if a == i128::MIN {
        i128::MAX as int
    } else {
        abs_i(a)
    }
}

/// Convert an integer count of units to wide fixed-point.
pub open spec fn fxw(n: int) -> int {
    n * 4294967296
}

/// Convert an integer to wide fixed-point by scaling it up by one unit.
pub fn to_fixed_int_wide(n: IW) -> (r: IW)
    requires
        in_i128(fxw(n as int)),
    ensures
        r == fxw(n as int),
{
    n * FXW_ONE
}

/// Absolute value; saturates at `i128::MAX` for the one unrepresentable
/// case.
pub fn i_abs_wide(a: IW) -> (r: IW)
    ensures
        r == sat_abs_wide(a as int),
{
    if a == i128::MIN {
        i128::MAX
    } else if a < 0 {
        -a
    } else {
        a
    }
}

/// Floor division of `p` by a positive divisor `d`.
fn floor_div_i128(p: i128, d: i128) -> (q: i128)
    requires
        0 < d,
        i128::MIN < p,
    ensures
        q == p as int / d as int,
{
    if p >= 0 {
        let pu: u128 = p as u128;
        let du: u128 = d as u128;
        let qu: u128 = pu / du;
        let ru: u128 = pu % du;
        proof {
            crate::fixed::lemma_div_mod_signs(
                p as int,
                d as int,
                qu as int,
                ru as int,
                pu as int,
                du as int,
            );
        }
        qu as i128
    } else {
        let pu: u128 = (-p) as u128;
        let du: u128 = d as u128;
        let qu: u128 = pu / du;
        let ru: u128 = pu % du;
        proof {
            crate::fixed::lemma_div_mod_signs(
                p as int,
                d as int,
                qu as int,
                ru as int,
                pu as int,
                du as int,
            );
        }
        if ru == 0 {
            -(qu as i128)
        } else {
            -(qu as i128) - 1
        }
    }
}

/// Euclidean remainder of `p` modulo a positive modulus `m`.
fn euclid_mod_i128(p: i128, m: i128) -> (r: i128)
    requires
        0 < m,
    ensures
        r == p as int % m as int,
        0 <= r < m,
{
    if p >= 0 {
        let pu: u128 = p as u128;
        let mu: u128 = m as u128;
        let qu: u128 = pu / mu;
        let ru: u128 = pu % mu;
        proof {
            crate::fixed::lemma_div_mod_signs(
                p as int,
                m as int,
                qu as int,
                ru as int,
                pu as int,
                mu as int,
            );
        }
        ru as i128
    } else {
        let pu: u128 = if p == i128::MIN {
            0x8000_0000_0000_0000_0000_0000_0000_0000u128
        } else {
            (-p) as u128
        };
        let mu: u128 = m as u128;
        let qu: u128 = pu / mu;
        let ru: u128 = pu % mu;
        proof {
            crate::fixed::lemma_div_mod_signs(
                p as int,
                m as int,
                qu as int,
                ru as int,
                pu as int,
                mu as int,
            );
        }
        if ru == 0 {
            0
        } else {
            m - (ru as i128)
        }
    }
}

/// Operand bound for wide fixed-point multiplication: both absolute
/// operands must stay at or below `2^63`.
pub open spec fn fmul_wide_ok(a: int, b: int) -> bool {
    sat_abs_wide(a) <= 0x8000_0000_0000_0000 && sat_abs_wide(b) <= 0x8000_0000_0000_0000
}

/// Value of a wide fixed-point product, rounding toward negative infinity.
pub open spec fn fmul_wide(a: int, b: int) -> int {
    (a * b) / 4294967296
}

/// Wide fixed-point multiplication with the conservative overflow guard.
pub fn i_mul_wide(a: IW, b: IW) -> (r: Result<IW, Fault>)
    ensures
        fmul_wide_ok(a as int, b as int) ==> (r matches Ok(v) && v == fmul_wide(
            a as int,
            b as int,
        )),
        !fmul_wide_ok(a as int, b as int) ==> r == Err::<IW, Fault>(Fault::Overflow),
{
    let a_abs = i_abs_wide(a);
    let b_abs = i_abs_wide(b);
    if a_abs > 0x8000_0000_0000_0000i128 || b_abs > 0x8000_0000_0000_0000i128 {
        return Err(Fault::Overflow);
    }
    proof {
        assert(-0x4000_0000_0000_0000_0000_0000_0000_0000 <= a as int * b as int
            <= 0x4000_0000_0000_0000_0000_0000_0000_0000) by (nonlinear_arith)
            requires
                -0x8000_0000_0000_0000 <= a as int <= 0x8000_0000_0000_0000,
                -0x8000_0000_0000_0000 <= b as int <= 0x8000_0000_0000_0000,
        ;
    }
    let p: i128 = a * b;
    let q = floor_div_i128(p, FXW_ONE);
    proof {
        lemma_fundamental_div_mod(p as int, 4294967296);
    }
    Ok(q)
}

/// Operand bound for wide fixed-point division.
pub open spec fn fdiv_wide_ok(a: int, b: int) -> bool {
    b != 0 && -0x8000_0000_0000_0000_0000_0000 <= a < 0x8000_0000_0000_0000_0000_0000 && !(a
        == -0x8000_0000_0000_0000_0000_0000 && b == -1)
}

/// Value of a wide fixed-point quotient, truncating toward zero.
pub open spec fn fdiv_wide(a: int, b: int) -> int {
    crate::fixed::tdiv(a * 4294967296, b)
}

/// Truncating machine division on `i128`.
fn trunc_div_i128(a: i128, b: i128) -> (q: i128)
    requires
        b != 0,
        !(a == i128::MIN && b == -1),
    ensures
        q == crate::fixed::tdiv(a as int, b as int),
{
    if b == 1 {
        proof {
            lemma_fundamental_div_mod(abs_i(a as int), 1);
        }
        return a;
    }
    let au: u128 = if a == i128::MIN {
        0x8000_0000_0000_0000_0000_0000_0000_0000u128
    } else if a < 0 {
        (-a) as u128
    } else {
        a as u128
    };
    let bu: u128 = if b == i128::MIN {
        0x8000_0000_0000_0000_0000_0000_0000_0000u128
    } else if b < 0 {
        (-b) as u128
    } else {
        b as u128
    };
    let qu: u128 = au / bu;
    let ru: u128 = au % bu;
    proof {
        assert(au as int == abs_i(a as int));
        assert(bu as int == abs_i(b as int));
        assert(bu >= 2 || au < 0x8000_0000_0000_0000_0000_0000_0000_0000u128);
        lemma_fundamental_div_mod(au as int, bu as int);
        assert(qu <= 0x7fff_ffff_ffff_ffff_ffff_ffff_ffff_ffffu128) by (nonlinear_arith)
            requires
                au as int == bu as int * qu as int + ru as int,
                0 <= ru,
                au <= 0x8000_0000_0000_0000_0000_0000_0000_0000u128,
                bu >= 2 || au < 0x8000_0000_0000_0000_0000_0000_0000_0000u128,
                bu >= 1,
        ;
    }
    if (a < 0) == (b < 0) {
        qu as i128
    } else {
        -(qu as i128)
    }
}

/// Wide fixed-point division: scale the dividend up by one unit, then
/// divide truncating toward zero.
pub fn i_div_wide(a: IW, b: IW) -> (r: Result<IW, Fault>)
    ensures
        fdiv_wide_ok(a as int, b as int) ==> (r matches Ok(v) && v == fdiv_wide(
            a as int,
            b as int,
        )),
        b == 0 ==> r == Err::<IW, Fault>(Fault::DivByZero),
        b != 0 && !fdiv_wide_ok(a as int, b as int) ==> r == Err::<IW, Fault>(Fault::Overflow),
{
    if b == 0 {
        return Err(Fault::DivByZero);
    }
    if !(-0x8000_0000_0000_0000_0000_0000i128 <= a && a < 0x8000_0000_0000_0000_0000_0000i128) {
        return Err(Fault::Overflow);
    }
    if a == -0x8000_0000_0000_0000_0000_0000i128 && b == -1 {
        return Err(Fault::Overflow);
    }
    let shifted: i128 = a * FXW_ONE;
    Ok(trunc_div_i128(shifted, b))
}

/// Do all intermediate values of `reflect1d_wide` stay representable?
pub open spec fn reflect_wide_ok(y0: int, vy: int, dt: int, min_y: int, max_y: int) -> bool {
    let span = max_y - min_y;
    in_i128(span) && (span <= 0 || {
        &&& fmul_wide_ok(vy, dt)
        &&& in_i128(2 * span)
        &&& in_i128(y0 + fmul_wide(vy, dt))
        &&& in_i128(y0 + fmul_wide(vy, dt) - min_y)
    })
}

/// Value of `reflect1d_wide`: the displaced position folded back into
/// `[min_y, max_y]` by mirroring over a period of twice the span.
pub open spec fn spec_reflect_wide(y0: int, vy: int, dt: int, min_y: int, max_y: int) -> int {
    let span = max_y - min_y;
    if span <= 0 {
        y0
    } else {
        let period = 2 * span;
        let ynorm = (y0 + fmul_wide(vy, dt) - min_y) % period;
        if ynorm > span {
            max_y - (ynorm - span)
        } else {
            min_y + ynorm
        }
    }
}

/// Elastic reflection within `[min_y, max_y]` on the wide format, matching
/// the double-modulo reference bit for bit.
pub fn reflect1d_wide(y0: IW, vy: IW, dt: IW, min_y: IW, max_y: IW) -> (r: Result<IW, Fault>)
    ensures
        reflect_wide_ok(y0 as int, vy as int, dt as int, min_y as int, max_y as int) ==> (r
            matches Ok(v) && v == spec_reflect_wide(
            y0 as int,
            vy as int,
            dt as int,
            min_y as int,
            max_y as int,
        )),
        !reflect_wide_ok(y0 as int, vy as int, dt as int, min_y as int, max_y as int) ==> r
            == Err::<IW, Fault>(Fault::Overflow),
{
    let span = match max_y.checked_sub(min_y) {
        Some(s) => s,
        None => {
            return Err(Fault::Overflow);
        },
    };
    if span <= 0 {
        return Ok(y0);
    }
    let period = match span.checked_mul(2) {
        Some(p) => p,
        None => {
            return Err(Fault::Overflow);
        },
    };
    let moved = match i_mul_wide(vy, dt) {
        Ok(m) => m,
        Err(_) => {
            return Err(Fault::Overflow);
        },
    };
    let y1 = match y0.checked_add(moved) {
        Some(y) => y,
        None => {
            return Err(Fault::Overflow);
        },
    };
    let y2 = match y1.checked_sub(min_y) {
        Some(y) => y,
        None => {
            return Err(Fault::Overflow);
        },
    };
    let ynorm = euclid_mod_i128(y2, period);
    if ynorm > span {
        Ok(max_y - (ynorm - span))
    } else {
        Ok(min_y + ynorm)
    }
}

/// Clamp a paddle centre into `[half, height - half]` on the wide format.
pub fn clamp_paddle_y_wide(y: IW, half: IW, height: IW) -> (r: IW)
    requires
        in_i128(height - half),
    ensures
        r == crate::fixed::spec_clamp(y as int, half as int, height as int),
{
    let hi = height - half;
    let lo_of_hi = if hi < y {
        hi
    } else {
        y
    };
    if half > lo_of_hi {
        half
    } else {
        lo_of_hi
    }
}

} // verus!
