//! Physics of the replay: CORDIC trigonometry, serve, and bounce.
//!
//! The serve angle mixes the volley count with the game identifier, so serves
//! vary between games while staying fully deterministic.  The bounce angle is
//! determined by the contact offset alone; no jitter is applied.

use crate::fixed::{
    abs_i, fdiv, fdiv_ok, fmul, fmul_ok, fx, i_abs, i_div, i_max, i_min, i_mul, in_i64, sat_abs,
    spec_deg_to_rad, take_ok, to_fixed_int, deg_to_rad_fixed, lemma_deg_to_rad_bound,
    lemma_div_mod_signs, Fault, I,
};
use vstd::arithmetic::div_mod::lemma_fundamental_div_mod;
use vstd::prelude::*;

verus! {

/// Number of CORDIC rotation steps.  Eight steps give roughly a quarter of a
/// degree of accuracy, plenty for game physics.
pub const CORDIC_ITER: usize = 8;

/// CORDIC gain constant (about 0.6073 in Q16.16): starting the rotation from
/// this x value bakes the gain correction into the result.
pub const CORDIC_K_Q16: I = 39797;

/// Any angle handed to the trigonometry must stay strictly below eight half
/// turns (8π in Q16.16).
pub const CORDIC_MAX_ANGLE: I = 1647096;

/// Arctangent table: `atan(2^-i)` in Q16.16 for each rotation step.
pub open spec fn atan_tbl() -> Seq<int> {
    seq![51472int, 30386, 16055, 8150, 4091, 2047, 1024, 512]
}

/// Divisor applied at rotation step `i`: `2^i`.
pub open spec fn shift_tbl() -> Seq<int> {
    seq![1int, 2, 4, 8, 16, 32, 64, 128]
}

/// One CORDIC rotation step: shift-and-add toward the remaining angle.
pub open spec fn cordic_step(x: int, y: int, z: int, i: nat) -> (int, int, int) {
    let xs = x / shift_tbl()[i as int];
    let ys = y / shift_tbl()[i as int];
    let t = atan_tbl()[i as int];
    if z >= 0 {
        (x - ys, y + xs, z - t)
    } else {
        (x + ys, y - xs, z + t)
    }
}

/// Run the rotation from step `i` to the last step.
pub open spec fn cordic_iter(x: int, y: int, z: int, i: nat) -> (int, int, int)
    decreases 8 - i,
{
    if i >= 8 {
        (x, y, z)
    } else {
        let s = cordic_step(x, y, z, i);
        cordic_iter(s.0, s.1, s.2, i + 1)
    }
}

/// Value of `cordic_sin_cos`: `(sin, cos)` of the angle, gain pre-corrected.
pub open spec fn spec_sin_cos(angle: int) -> (int, int) {
    let f = cordic_iter(39797, 0, angle, 0);
    (f.1, f.0)
}

/// Bound on `|x| + |y|` after `i` rotation steps.
pub open spec fn cordic_sum_bound(i: nat) -> int {
    seq![39797int, 79598, 119401, 149255, 167915, 178413, 183992, 186870, 188334][i as int]
}

/// A floor division by a positive divisor shrinks the absolute value to the
/// divided absolute value, up to one unit for negative dividends.
proof fn lemma_div_abs_bound(p: int, d: int)
    requires
        0 < d,
    ensures
        abs_i(p / d) <= abs_i(p) / d + 1,
        0 <= abs_i(p) / d,
{
    let pu = abs_i(p);
    let qu = pu / d;
    let ru = pu % d;
    lemma_fundamental_div_mod(pu, d);
    lemma_div_mod_signs(p, d, qu, ru, pu, d);
}

/// Floor division distributes over a sum of non-negative values, up to
/// dropping remainders: `a/d + b/d <= (a+b)/d`.
proof fn lemma_div_subadd(a: int, b: int, d: int)
    requires
        0 <= a,
        0 <= b,
        0 < d,
    ensures
        a / d + b / d <= (a + b) / d,
{
    lemma_fundamental_div_mod(a, d);
    lemma_fundamental_div_mod(b, d);
    lemma_fundamental_div_mod(a + b, d);
    assert(a / d + b / d <= (a + b) / d) by (nonlinear_arith)
        requires
            a == d * (a / d) + a % d,
            b == d * (b / d) + b % d,
            a + b == d * ((a + b) / d) + (a + b) % d,
            0 <= a % d < d,
            0 <= b % d < d,
            0 <= (a + b) % d < d,
            0 < d,
            0 <= a,
            0 <= b,
    ;
}

/// The step bound table satisfies its recurrence.
proof fn lemma_cordic_bound_step(i: nat)
    requires
        i < 8,
    ensures
        cordic_sum_bound(i) + cordic_sum_bound(i) / shift_tbl()[i as int] + 2 <= cordic_sum_bound(
            i + 1,
        ),
        0 < shift_tbl()[i as int],
{
    if i == 0 {
        vstd::arithmetic::div_mod::lemma_fundamental_div_mod_converse(39797, 1, 39797, 0);
    } else if i == 1 {
        vstd::arithmetic::div_mod::lemma_fundamental_div_mod_converse(79598, 2, 39799, 0);
    } else if i == 2 {
        vstd::arithmetic::div_mod::lemma_fundamental_div_mod_converse(119401, 4, 29850, 1);
    } else if i == 3 {
        vstd::arithmetic::div_mod::lemma_fundamental_div_mod_converse(149255, 8, 18656, 7);
    } else if i == 4 {
        vstd::arithmetic::div_mod::lemma_fundamental_div_mod_converse(167915, 16, 10494, 11);
    } else if i == 5 {
        vstd::arithmetic::div_mod::lemma_fundamental_div_mod_converse(178413, 32, 5575, 13);
    } else if i == 6 {
        vstd::arithmetic::div_mod::lemma_fundamental_div_mod_converse(183992, 64, 2874, 56);
    } else {
        assert(i == 7);
        vstd::arithmetic::div_mod::lemma_fundamental_div_mod_converse(186870, 128, 1459, 118);
    }
}

/// The arctangent entry for step `i`.
fn atan_at(i: usize) -> (r: i64)
    requires
        i < 8,
    ensures
        r == atan_tbl()[i as int],
{
    if i == 0 {
        51472
    } else if i == 1 {
        30386
    } else if i == 2 {
        16055
    } else if i == 3 {
        8150
    } else if i == 4 {
        4091
    } else if i == 5 {
        2047
    } else if i == 6 {
        1024
    } else {
        512
    }
}

/// The divisor for step `i`.
fn shift_at(i: usize) -> (r: i64)
    requires
        i < 8,
    ensures
        r == shift_tbl()[i as int],
{
    if i == 0 {
        1
    } else if i == 1 {
        2
    } else if i == 2 {
        4
    } else if i == 3 {
        8
    } else if i == 4 {
        16
    } else if i == 5 {
        32
    } else if i == 6 {
        64
    } else {
        128
    }
}

/// Table-driven sine and cosine over the fixed-point radian domain, returned
/// as `(sin, cos)`.  The gain constant is baked into the starting vector, so
/// callers need no final scaling.
pub fn cordic_sin_cos(angle: I) -> (r: (I, I))
    requires
        abs_i(angle as int) < CORDIC_MAX_ANGLE,
    ensures
        r.0 == spec_sin_cos(angle as int).0,
        r.1 == spec_sin_cos(angle as int).1,
        abs_i(r.0 as int) <= 188334,
        abs_i(r.1 as int) <= 188334,
{
    let mut x: i64 = CORDIC_K_Q16;
    let mut y: i64 = 0;
    let mut z: i64 = angle;
    let mut i: usize = 0;
    while i < CORDIC_ITER
        invariant
            i <= 8,
            cordic_iter(39797, 0, angle as int, 0) == cordic_iter(
                x as int,
                y as int,
                z as int,
                i as nat,
            ),
            abs_i(x as int) + abs_i(y as int) <= cordic_sum_bound(i as nat),
            abs_i(z as int) <= 1647095 + 51472 * i,
        decreases 8 - i,
    {
        let d = shift_at(i);
        let xs = crate::fixed::floor_div_i64(x, d);
        let ys = crate::fixed::floor_div_i64(y, d);
        let t = atan_at(i);
        proof {
            lemma_div_abs_bound(x as int, d as int);
            lemma_div_abs_bound(y as int, d as int);
            lemma_div_subadd(abs_i(x as int), abs_i(y as int), d as int);
            lemma_cordic_bound_step(i as nat);
            vstd::arithmetic::div_mod::lemma_div_is_ordered(
                abs_i(x as int) + abs_i(y as int),
                cordic_sum_bound(i as nat),
                d as int,
            );
        }
        if z >= 0 {
            x = x - ys;
            y = y + xs;
            z = z - t;
        } else {
            x = x + ys;
            y = y - xs;
            z = z + t;
        }
        i = i + 1;
    }
    (y, x)
}

/// Ephemeral simulation state owned by the replay: ball position and
/// velocity, scalar speed, last known paddle positions, travel direction and
/// the simulation time of the last contact.
#[derive(Clone, Copy, Debug, PartialEq, Eq, Structural)]
pub struct FixState {
    pub t0: I,
    pub x: I,
    pub y: I,
    pub vx: I,
    pub vy: I,
    pub speed: I,
    pub left_y: I,
    pub right_y: I,
    /// Travel direction of the ball: -1 toward the left paddle, +1 toward the
    /// right paddle.
    pub dir: i32,
}

/// Value of `serve`: the deterministic serve angle mixes the volley count
/// with the game identifier, and the resulting velocity points toward the
/// receiving side.  The ball starts at the board centre; both paddles are
/// taken to sit at the vertical centre.
pub open spec fn spec_serve(
    receiver_dir: i32,
    t0: i64,
    width: i64,
    height: i64,
    serve_speed: i64,
    max_bounce_angle_deg: i32,
    angle_range: i32,
    serve_angle_multiplier: i32,
    volley_count: u32,
    game_id: u32,
) -> FixState {
    let emix: i32 = (volley_count as i32).wrapping_add(game_id as i32);
    let vraw: i32 = emix.wrapping_mul(serve_angle_multiplier);
    let volley_ang: int = vraw as int % angle_range as int;
    let angle_raw: int = volley_ang - max_bounce_angle_deg as int;
    let rad: int = spec_deg_to_rad(angle_raw);
    let sc = spec_sin_cos(rad);
    let centre_y: int = fdiv(height as int, 131072);
    FixState {
        t0: t0,
        x: fdiv(width as int, 131072) as i64,
        y: centre_y as i64,
        vx: fmul(serve_speed as int, fmul(sc.1, fx(receiver_dir as int))) as i64,
        vy: fmul(serve_speed as int, sc.0) as i64,
        speed: serve_speed,
        left_y: centre_y as i64,
        right_y: centre_y as i64,
        dir: receiver_dir,
    }
}

/// Serve the ball toward `receiver_dir` at simulation time `t0`, picking the
/// serve angle deterministically from the volley count and game identifier.
pub fn serve(
    receiver_dir: i32,
    t0: I,
    width: I,
    height: I,
    serve_speed: I,
    max_bounce_angle_deg: i32,
    angle_range: i32,
    serve_angle_multiplier: i32,
    volley_count: u32,
    game_id: u32,
) -> (r: FixState)
    requires
        receiver_dir == 1 || receiver_dir == -1,
        0 <= width < 0x8000_0000_0000,
        0 <= height < 0x8000_0000_0000,
        0 <= serve_speed <= 0x8000_0000,
        0 <= max_bounce_angle_deg <= 700,
        0 < angle_range <= 1400,
    ensures
        r == spec_serve(
            receiver_dir,
            t0,
            width,
            height,
            serve_speed,
            max_bounce_angle_deg,
            angle_range,
            serve_angle_multiplier,
            volley_count,
            game_id,
        ),
{
    let emix: i32 = (volley_count as i32).wrapping_add(game_id as i32);
    let vraw: i32 = emix.wrapping_mul(serve_angle_multiplier);
    let volley_ang: i32 = crate::fixed::euclid_mod_i64(vraw as i64, angle_range as i64) as i32;
    let angle_raw: i32 = volley_ang - max_bounce_angle_deg;
    let rad = deg_to_rad_fixed(angle_raw);
    proof {
        lemma_deg_to_rad_bound(angle_raw as int);
    }
    let (sinv, cosv) = cordic_sin_cos(rad);
    let fdir = to_fixed_int(receiver_dir as i64);
    let vx_inner = take_ok(i_mul(cosv, fdir));
    proof {
        crate::fixed::lemma_fx_cancel(cosv as int, receiver_dir as int);
    }
    let vx = take_ok(i_mul(serve_speed, vx_inner));
    let vy = take_ok(i_mul(serve_speed, sinv));
    let centre_x = take_ok(i_div(width, to_fixed_int(2)));
    let centre_y = take_ok(i_div(height, to_fixed_int(2)));
    FixState {
        t0,
        x: centre_x,
        y: centre_y,
        vx,
        vy,
        speed: serve_speed,
        left_y: centre_y,
        right_y: centre_y,
        dir: receiver_dir,
    }
}

/// Contact offset of the ball from the paddle centre, clamped to
/// `[-limit, limit]`.
pub open spec fn bounce_offset(ball_y: int, paddle_y: int, limit: int) -> int {
    let o = ball_y - paddle_y;
    if o < -limit {
        -limit
    } else if o > limit {
        limit
    } else {
        o
    }
}

/// Reflection angle: the normalized offset scaled by the maximum bounce
/// angle, clamped to that maximum on both sides.
pub open spec fn bounce_angle(norm: int, max_bounce_angle: int) -> int {
    let v = fmul(norm, max_bounce_angle);
    let lo = if max_bounce_angle < v {
        max_bounce_angle
    } else {
        v
    };
    if -max_bounce_angle > lo {
        -max_bounce_angle
    } else {
        lo
    }
}

/// Do all intermediate values of `bounce` stay representable, and is the
/// paddle contact limit positive?
pub open spec fn bounce_ok(
    s: FixState,
    paddle_y: int,
    half: int,
    ball_radius: int,
    max_bounce_angle: int,
    speed_increment: int,
) -> bool {
    let limit = half + ball_radius;
    let offset = bounce_offset(s.y as int, paddle_y, limit);
    let norm = fdiv(offset, limit);
    let angle = bounce_angle(norm, max_bounce_angle);
    &&& in_i64(limit)
    &&& limit > 0
    &&& in_i64(s.y - paddle_y)
    &&& fdiv_ok(offset, limit)
    &&& fmul_ok(norm, max_bounce_angle)
    &&& in_i64(s.speed + speed_increment)
    &&& abs_i(angle) < 1647096
    &&& sat_abs(s.speed + speed_increment) <= 0x8000_0000
}

/// Value of `bounce`: new velocity components, the incremented speed and the
/// flipped travel direction.
pub open spec fn spec_bounce(
    s: FixState,
    paddle_y: int,
    half: int,
    ball_radius: int,
    max_bounce_angle: int,
    speed_increment: int,
) -> (int, int, int, int) {
    let limit = half + ball_radius;
    let offset = bounce_offset(s.y as int, paddle_y, limit);
    let norm = fdiv(offset, limit);
    let angle = bounce_angle(norm, max_bounce_angle);
    let new_speed = s.speed + speed_increment;
    let new_dir: int = if s.dir < 0 {
        1
    } else {
        -1
    };
    let sc = spec_sin_cos(angle);
    (
        fmul(new_speed, fmul(sc.1, fx(new_dir))),
        fmul(new_speed, sc.0),
        new_speed,
        new_dir,
    )
}

/// Reflect the ball off a paddle: clamp the contact offset, derive the
/// bounce angle from it, raise the speed by the fixed increment and flip the
/// travel direction.  A non-positive contact limit is a configuration fault;
/// an unrepresentable intermediate value is an overflow fault.
pub fn bounce(
    s: &FixState,
    paddle_y: I,
    half: I,
    ball_radius: I,
    max_bounce_angle: I,
    speed_increment: I,
) -> (r: Result<(I, I, I, i32), Fault>)
    ensures
        bounce_ok(
            *s,
            paddle_y as int,
            half as int,
            ball_radius as int,
            max_bounce_angle as int,
            speed_increment as int,
        ) ==> (r matches Ok(t) && {
            let m = spec_bounce(
                *s,
                paddle_y as int,
                half as int,
                ball_radius as int,
                max_bounce_angle as int,
                speed_increment as int,
            );
            t.0 == m.0 && t.1 == m.1 && t.2 == m.2 && t.3 == m.3
        }),
        !bounce_ok(
            *s,
            paddle_y as int,
            half as int,
            ball_radius as int,
            max_bounce_angle as int,
            speed_increment as int,
        ) ==> (r matches Err(f) && f == (if in_i64(half + ball_radius) && half + ball_radius
            <= 0 {
            Fault::BadConfig
        } else {
            Fault::Overflow
        })),
{
    let limit = match half.checked_add(ball_radius) {
        Some(l) => l,
        None => {
            return Err(Fault::Overflow);
        },
    };
    if limit <= 0 {
        return Err(Fault::BadConfig);
    }
    let raw_offset = match s.y.checked_sub(paddle_y) {
        Some(o) => o,
        None => {
            return Err(Fault::Overflow);
        },
    };
    let mut offset = raw_offset;
    if offset < -limit {
        offset = -limit;
    }
    if offset > limit {
        offset = limit;
    }
    let norm = match i_div(offset, limit) {
        Ok(n) => n,
        Err(_) => {
            return Err(Fault::Overflow);
        },
    };
    let scaled = match i_mul(norm, max_bounce_angle) {
        Ok(v) => v,
        Err(_) => {
            return Err(Fault::Overflow);
        },
    };
    let angle = i_max(-max_bounce_angle, i_min(max_bounce_angle, scaled));
    let new_speed = match s.speed.checked_add(speed_increment) {
        Some(v) => v,
        None => {
            return Err(Fault::Overflow);
        },
    };
    let new_dir: i32 = if s.dir < 0 {
        1
    } else {
        -1
    };
    if !(-1647095 <= angle && angle <= 1647095) {
        return Err(Fault::Overflow);
    }
    let (sinv, cosv) = cordic_sin_cos(angle);
    let inner = take_ok(i_mul(cosv, to_fixed_int(new_dir as i64)));
    proof {
        crate::fixed::lemma_fx_cancel(cosv as int, new_dir as int);
    }
    let vx = match i_mul(new_speed, inner) {
        Ok(v) => v,
        Err(_) => {
            return Err(Fault::Overflow);
        },
    };
    let vy = match i_mul(new_speed, sinv) {
        Ok(v) => v,
        Err(_) => {
            return Err(Fault::Overflow);
        },
    };
    Ok((vx, vy, new_speed, new_dir))
}

} // verus!
