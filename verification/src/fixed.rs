//! Q16.16 fixed-point arithmetic over `i64`.
//!
//! Every value carries 16 fractional bits, so one unit is 65536.  All
//! operations are pure integer arithmetic, which keeps results bit-identical
//! on every platform.  Operations that could overflow on adversarial inputs
//! report a [`Fault`] instead of wrapping or panicking.

use vstd::arithmetic::div_mod::{
    lemma_div_is_ordered, lemma_fundamental_div_mod, lemma_fundamental_div_mod_converse,
};
use vstd::prelude::*;

verus! {

/// Fixed-point type: Q16.16 format using i64.
pub type I = i64;

/// One fixed-point unit (1 << 16).
pub const FX_ONE: i64 = 65536;

/// An unrecoverable arithmetic or configuration fault.  These correspond to
/// conditions no valid game can produce; they are kept distinct from the
/// ordinary rejection reasons of the validator.
#[derive(Clone, Copy, Debug, PartialEq, Eq, Structural)]
pub enum Fault {
    /// An intermediate value left the representable range.
    Overflow,
    /// A division by zero was attempted.
    DivByZero,
    /// A configuration value was degenerate (for example a non-positive
    /// paddle contact limit).
    BadConfig,
}

/// Does `v` fit in an `i64`?
pub open spec fn in_i64(v: int) -> bool {
    i64::MIN <= v <= i64::MAX
}

/// Mathematical absolute value.
pub open spec fn abs_i(a: int) -> int {
    if a < 0 {
        -a
    } else {
        a
    }
}

/// Value of `i_abs`: the absolute value, except that the absolute value of
/// `i64::MIN` (not representable) saturates to `i64::MAX`.
pub open spec fn sat_abs(a: int) -> int {
    if a == i64::MIN {
        i64::MAX as int
    } else {
        abs_i(a)
    }
}

/// Convert an integer count of units to fixed-point.
pub open spec fn fx(n: int) -> int {
    n * 65536
}

/// Convert an integer to fixed-point by scaling it up by one unit.
pub fn to_fixed_int(n: I) -> (r: I)
    requires
        in_i64(fx(n as int)),
    ensures
        r == fx(n as int),
{
    n * FX_ONE
}

/// Absolute value; saturates at `i64::MAX` for the one unrepresentable case.
pub fn i_abs(a: I) -> (r: I)
    ensures
        r == sat_abs(a as int),
{
    if a == i64::MIN {
        i64::MAX
    } else if a < 0 {
        -a
    } else {
        a
    }
}

/// Minimum of two fixed-point values.
pub fn i_min(a: I, b: I) -> (r: I)
    ensures
        r == if a < b {
            a
        } else {
            b
        },
{
    if a < b {
        a
    } else {
        b
    }
}

/// Maximum of two fixed-point values.
pub fn i_max(a: I, b: I) -> (r: I)
    ensures
        r == if a > b {
            a
        } else {
            b
        },
{
    if a > b {
        a
    } else {
        b
    }
}

/// Take the value out of a result that is known to hold one.
pub(crate) fn take_ok(r: Result<I, Fault>) -> (v: I)
    requires
        r matches Ok(_),
    ensures
        r == Ok::<I, Fault>(v),
{
    match r {
        Ok(v) => v,
        Err(_) => {
            proof {
                assert(false);
            }
            0
        },
    }
}

/// Floor division of `p` by a positive divisor `d` (rounds toward negative
/// infinity, matching an arithmetic right shift when `d` is a power of two).
pub(crate) fn floor_div_i64(p: i64, d: i64) -> (q: i64)
    requires
        0 < d,
        i64::MIN < p,
    ensures
        q == p as int / d as int,
{
    if p >= 0 {
        let pu: u64 = p as u64;
        let du: u64 = d as u64;
        let qu: u64 = pu / du;
        let ru: u64 = pu % du;
        proof {
            lemma_div_mod_signs(p as int, d as int, qu as int, ru as int, pu as int, du as int);
        }
        qu as i64
    } else {
        let pu: u64 = (-p) as u64;
        let du: u64 = d as u64;
        let qu: u64 = pu / du;
        let ru: u64 = pu % du;
        proof {
            lemma_div_mod_signs(p as int, d as int, qu as int, ru as int, pu as int, du as int);
        }
        if ru == 0 {
            -(qu as i64)
        } else {
            -(qu as i64) - 1
        }
    }
}

/// For `p` with absolute value `pu` and positive divisor `d == du`, relate
/// the unsigned quotient and remainder `qu`, `ru` to the Euclidean quotient
/// and remainder of `p` itself.
pub(crate) proof fn lemma_div_mod_signs(p: int, d: int, qu: int, ru: int, pu: int, du: int)
    requires
        0 < d,
        d == du,
        pu == abs_i(p),
        qu == pu / du,
        ru == pu % du,
    ensures
        0 <= ru < d,
        qu <= pu,
        p >= 0 ==> p / d == qu && p % d == ru,
        p < 0 && ru == 0 ==> p / d == -qu && p % d == 0,
        p < 0 && ru != 0 ==> p / d == -qu - 1 && p % d == d - ru,
{
    lemma_fundamental_div_mod(pu, du);
    assert(pu == du * qu + ru);
    assert(qu >= 0 && ru >= 0) by (nonlinear_arith)
        requires
            0 < du,
            0 <= pu,
            qu == pu / du,
            ru == pu % du,
    ;
    assert(qu <= pu) by (nonlinear_arith)
        requires
            0 < du,
            0 <= qu,
            0 <= ru,
            pu == du * qu + ru,
    ;
    if p >= 0 {
        lemma_fundamental_div_mod_converse(p, d, qu, ru);
    } else if ru == 0 {
        assert(p == (-qu) * d + 0) by (nonlinear_arith)
            requires
                pu == du * qu + ru,
                ru == 0,
                d == du,
                pu == -p,
        ;
        lemma_fundamental_div_mod_converse(p, d, -qu, 0);
    } else {
        assert(p == (-qu - 1) * d + (d - ru)) by (nonlinear_arith)
            requires
                pu == du * qu + ru,
                d == du,
                pu == -p,
        ;
        lemma_fundamental_div_mod_converse(p, d, -qu - 1, d - ru);
    }
}

/// Euclidean remainder of `p` modulo a positive modulus `m`; the result is
/// always in `[0, m)`, also for negative `p`.
pub(crate) fn euclid_mod_i64(p: i64, m: i64) -> (r: i64)
    requires
        0 < m,
    ensures
        r == p as int % m as int,
        0 <= r < m,
{
    if p >= 0 {
        let pu: u64 = p as u64;
        let mu: u64 = m as u64;
        let qu: u64 = pu / mu;
        let ru: u64 = pu % mu;
        proof {
            lemma_div_mod_signs(p as int, m as int, qu as int, ru as int, pu as int, mu as int);
        }
        ru as i64
    } else {
        let pu: u64 = if p == i64::MIN {
            0x8000_0000_0000_0000u64
        } else {
            (-p) as u64
        };
        let mu: u64 = m as u64;
        let qu: u64 = pu / mu;
        let ru: u64 = pu % mu;
        proof {
            lemma_div_mod_signs(p as int, m as int, qu as int, ru as int, pu as int, mu as int);
        }
        if ru == 0 {
            0
        } else {
            m - (ru as i64)
        }
    }
}

/// Operand bound for fixed-point multiplication: both absolute operands must
/// stay at or below `2^31`, far above any in-game magnitude.
pub open spec fn fmul_ok(a: int, b: int) -> bool {
    sat_abs(a) <= 0x8000_0000 && sat_abs(b) <= 0x8000_0000
}

/// Value of a fixed-point product: the wide product scaled down by one unit,
/// rounding toward negative infinity (as an arithmetic shift does).
pub open spec fn fmul(a: int, b: int) -> int {
    (a * b) / 65536
}

/// Fixed-point multiplication.  Rejects operands above the conservative
/// safety bound instead of letting the wide product wrap.
pub fn i_mul(a: I, b: I) -> (r: Result<I, Fault>)
    ensures
        fmul_ok(a as int, b as int) ==> (r matches Ok(v) && v == fmul(a as int, b as int)),
        !fmul_ok(a as int, b as int) ==> r == Err::<I, Fault>(Fault::Overflow),
{
    let a_abs = i_abs(a);
    let b_abs = i_abs(b);
    if a_abs > 0x8000_0000i64 || b_abs > 0x8000_0000i64 {
        return Err(Fault::Overflow);
    }
    proof {
        assert(-0x4000_0000_0000_0000 <= a as int * b as int <= 0x4000_0000_0000_0000)
            by (nonlinear_arith)
            requires
                -0x8000_0000 <= a as int <= 0x8000_0000,
                -0x8000_0000 <= b as int <= 0x8000_0000,
        ;
    }
    let p: i64 = a * b;
    let q = floor_div_i64(p, 65536);
    proof {
        lemma_fundamental_div_mod(p as int, 65536);
    }
    Ok(q)
}

/// Truncating division (rounds toward zero, as machine division does).
pub open spec fn tdiv(a: int, b: int) -> int {
    if (a < 0) == (b < 0) {
        abs_i(a) / abs_i(b)
    } else {
        -(abs_i(a) / abs_i(b))
    }
}

/// Operand bound for fixed-point division: the dividend must be small enough
/// to scale up by one unit without leaving `i64`, the divisor must be
/// non-zero, and the one quotient that would itself overflow is excluded.
pub open spec fn fdiv_ok(a: int, b: int) -> bool {
    b != 0 && -0x8000_0000_0000 <= a < 0x8000_0000_0000 && !(a == -0x8000_0000_0000 && b
        == -1)
}

/// Value of a fixed-point quotient: scale the dividend up by one unit, then
/// divide truncating toward zero.
pub open spec fn fdiv(a: int, b: int) -> int {
    tdiv(a * 65536, b)
}

/// Truncating machine division on `i64`.
fn trunc_div_i64(a: i64, b: i64) -> (q: i64)
    requires
        b != 0,
        !(a == i64::MIN && b == -1),
    ensures
        q == tdiv(a as int, b as int),
{
    if b == 1 {
        proof {
            lemma_fundamental_div_mod(abs_i(a as int), 1);
        }
        return a;
    }
    let au: u64 = if a == i64::MIN {
        0x8000_0000_0000_0000u64
    } else if a < 0 {
        (-a) as u64
    } else {
        a as u64
    };
    let bu: u64 = if b == i64::MIN {
        0x8000_0000_0000_0000u64
    } else if b < 0 {
        (-b) as u64
    } else {
        b as u64
    };
    let qu: u64 = au / bu;
    let ru: u64 = au % bu;
    proof {
        assert(au as int == abs_i(a as int));
        assert(bu as int == abs_i(b as int));
        assert(bu >= 2 || au < 0x8000_0000_0000_0000u64);
        lemma_fundamental_div_mod(au as int, bu as int);
        assert(qu <= 0x7fff_ffff_ffff_ffffu64) by (nonlinear_arith)
            requires
                au as int == bu as int * qu as int + ru as int,
                0 <= ru,
                au <= 0x8000_0000_0000_0000u64,
                bu >= 2 || au < 0x8000_0000_0000_0000u64,
                bu >= 1,
        ;
    }
    if (a < 0) == (b < 0) {
        qu as i64
    } else {
        -(qu as i64)
    }
}

/// Fixed-point division.  Rejects a zero divisor and a dividend too large to
/// scale up safely.
pub fn i_div(a: I, b: I) -> (r: Result<I, Fault>)
    ensures
        fdiv_ok(a as int, b as int) ==> (r matches Ok(v) && v == fdiv(a as int, b as int)),
        b == 0 ==> r == Err::<I, Fault>(Fault::DivByZero),
        b != 0 && !fdiv_ok(a as int, b as int) ==> r == Err::<I, Fault>(Fault::Overflow),
{
    if b == 0 {
        return Err(Fault::DivByZero);
    }
    if !(-0x8000_0000_0000i64 <= a && a < 0x8000_0000_0000i64) {
        return Err(Fault::Overflow);
    }
    if a == -0x8000_0000_0000i64 && b == -1 {
        return Err(Fault::Overflow);
    }
    let shifted: i64 = a * 65536;
    Ok(trunc_div_i64(shifted, b))
}

/// Do all intermediate values of `reflect1d` stay representable?
pub open spec fn reflect_ok(y0: int, vy: int, dt: int, min_y: int, max_y: int) -> bool {
    let span = max_y - min_y;
    in_i64(span) && (span <= 0 || {
        &&& fmul_ok(vy, dt)
        &&& in_i64(2 * span)
        &&& in_i64(y0 + fmul(vy, dt))
        &&& in_i64(y0 + fmul(vy, dt) - min_y)
    })
}

/// Value of `reflect1d`: the displaced position folded back into
/// `[min_y, max_y]` by mirroring over a period of twice the span.
pub open spec fn spec_reflect(y0: int, vy: int, dt: int, min_y: int, max_y: int) -> int {
    let span = max_y - min_y;
    if span <= 0 {
        y0
    } else {
        let period = 2 * span;
        let ynorm = (y0 + fmul(vy, dt) - min_y) % period;
        if ynorm > span {
            max_y - (ynorm - span)
        } else {
            min_y + ynorm
        }
    }
}

/// Elastic reflection within `[min_y, max_y]`: advance `y0` by `vy · dt` and
/// fold the result back between the bounds by modular mirroring.  Matches a
/// double-modulo reference implementation bit for bit, negative inputs
/// included.
pub fn reflect1d(y0: I, vy: I, dt: I, min_y: I, max_y: I) -> (r: Result<I, Fault>)
    ensures
        reflect_ok(y0 as int, vy as int, dt as int, min_y as int, max_y as int) ==> (r matches Ok(v)
            && v == spec_reflect(y0 as int, vy as int, dt as int, min_y as int, max_y as int)),
        !reflect_ok(y0 as int, vy as int, dt as int, min_y as int, max_y as int) ==> r
            == Err::<I, Fault>(Fault::Overflow),
{
    let span = match max_y.checked_sub(min_y) {
        Some(s) => s,
        None => {
            return Err(Fault::Overflow);
        },
    };
    if span <= 0 {
        return Ok(y0);
    }
    let period = match span.checked_mul(2) {
        Some(p) => p,
        None => {
            return Err(Fault::Overflow);
        },
    };
    let moved = match i_mul(vy, dt) {
        Ok(m) => m,
        Err(_) => {
            return Err(Fault::Overflow);
        },
    };
    let y1 = match y0.checked_add(moved) {
        Some(y) => y,
        None => {
            return Err(Fault::Overflow);
        },
    };
    let y2 = match y1.checked_sub(min_y) {
        Some(y) => y,
        None => {
            return Err(Fault::Overflow);
        },
    };
    let ynorm = euclid_mod_i64(y2, period);
    if ynorm > span {
        Ok(max_y - (ynorm - span))
    } else {
        Ok(min_y + ynorm)
    }
}

/// The result of a reflection with a positive span always lies within the
/// bounds it reflects between.
pub proof fn lemma_reflect1d_in_bounds(y0: int, vy: int, dt: int, min_y: int, max_y: int)
    requires
        min_y < max_y,
    ensures
        min_y <= spec_reflect(y0, vy, dt, min_y, max_y) <= max_y,
{
    let span = max_y - min_y;
    let period = 2 * span;
    let ynorm = (y0 + fmul(vy, dt) - min_y) % period;
    lemma_fundamental_div_mod((y0 + fmul(vy, dt) - min_y) as int, period);
    assert(0 <= ynorm < period) by (nonlinear_arith)
        requires
            period > 0,
            ynorm == (y0 + fmul(vy, dt) - min_y) % period,
    ;
}

/// Value of `clamp_paddle_y`: `y` clamped into `[half, height - half]`.
pub open spec fn spec_clamp(y: int, half: int, height: int) -> int {
    let lo_of_hi = if height - half < y {
        height - half
    } else {
        y
    };
    if half > lo_of_hi {
        half
    } else {
        lo_of_hi
    }
}

/// Clamp a paddle centre into the playable band `[half, height - half]`.
pub fn clamp_paddle_y(y: I, half: I, height: I) -> (r: I)
    requires
        in_i64(height - half),
    ensures
        r == spec_clamp(y as int, half as int, height as int),
{
    i_max(half, i_min(height - half, y))
}

/// The circle constant in Q16.16 (3.14159… scaled by 65536).
pub const PI_Q16: I = 205887;

/// Value of `deg_to_rad_fixed`: degrees scaled by `π / 180`, carried out in
/// fixed-point.
pub open spec fn spec_deg_to_rad(d: int) -> int {
    fdiv(fmul(fx(d), 205887), 11796480)
}

/// Convert whole degrees to fixed-point radians using integer-only math.
pub fn deg_to_rad_fixed(d: i32) -> (r: I)
    requires
        -32768 <= d <= 32768,
    ensures
        r == spec_deg_to_rad(d as int),
{
    let deg_fixed = to_fixed_int(d as i64);
    let num = take_ok(i_mul(deg_fixed, PI_Q16));
    proof {
        lemma_fx_mul_exact(d as int, 205887);
        assert(abs_i(num as int) <= 0x8000_0000_0000) by (nonlinear_arith)
            requires
                num as int == d as int * 205887,
                -32768 <= d as int <= 32768,
        ;
    }
    take_ok(i_div(num, to_fixed_int(180)))
}

/// Scaling an integer to fixed-point and multiplying by `c` in fixed-point
/// yields exactly the integer product `d · c`.
pub(crate) proof fn lemma_fx_mul_exact(d: int, c: int)
    ensures
        fmul(fx(d), c) == d * c,
{
    assert(fx(d) * c == (d * c) * 65536 + 0) by (nonlinear_arith);
    lemma_fundamental_div_mod_converse(fx(d) * c, 65536, d * c, 0);
}

/// Multiplying a fixed-point value by a whole number of units yields exactly
/// the integer product: the unit scale cancels.
pub(crate) proof fn lemma_fx_cancel(c: int, d: int)
    ensures
        fmul(c, fx(d)) == c * d,
{
    assert(c * fx(d) == (c * d) * 65536 + 0) by (nonlinear_arith);
    lemma_fundamental_div_mod_converse(c * fx(d), 65536, c * d, 0);
}

/// The radian value of a bounded count of degrees stays strictly below the
/// eight-half-turn limit that the trigonometry accepts.
pub proof fn lemma_deg_to_rad_bound(d: int)
    requires
        -1400 <= d <= 1400,
    ensures
        abs_i(spec_deg_to_rad(d)) <= 1601343,
{
    lemma_fx_mul_exact(d, 205887);
    let num = d * 205887;
    assert(abs_i(num) <= 288241800) by (nonlinear_arith)
        requires
            num == d * 205887,
            -1400 <= d <= 1400,
    ;
    let a = num * 65536;
    assert(abs_i(a) == abs_i(num) * 65536) by (nonlinear_arith)
        requires
            a == num * 65536,
    ;
    vstd::arithmetic::div_mod::lemma_div_denominator(abs_i(a), 65536, 180);
    lemma_fundamental_div_mod_converse(abs_i(a), 65536, abs_i(num), 0);
    assert(abs_i(a) / 11796480 == abs_i(num) / 180);
    lemma_div_is_ordered(abs_i(num), 288241800, 180);
    lemma_fundamental_div_mod_converse(288241800, 180, 1601343, 60);
    lemma_div_nonneg(abs_i(num), 180);
}

/// Integer division of a non-negative value by a positive divisor is
/// non-negative.
proof fn lemma_div_nonneg(x: int, d: int)
    requires
        0 <= x,
        0 < d,
    ensures
        0 <= x / d,
{
    assert(0 <= x / d) by (nonlinear_arith)
        requires
            0 <= x,
            0 < d,
    ;
}

} // verus!
