//! The log validator: replays a claimed event log against the canonical
//! physics and decides the fairness verdict.
//!
//! The whole validation is specified by [`spec_validate`], a mathematical
//! model of the replay; [`validate_log`] is proved to return exactly what
//! the model says, so two runs over the same input cannot disagree.

use crate::commit::{
    bytes32_eq, commitments_all_valid, count_zero_bytes, verify_commitments, zero_count,
};
use crate::fixed::{
    clamp_paddle_y, fdiv, fdiv_ok, fmul, fmul_ok, i_abs, i_div, i_mul, in_i64, reflect1d,
    reflect_ok, sat_abs, spec_clamp, spec_reflect, take_ok, to_fixed_int, deg_to_rad_fixed, Fault,
    I,
};
use crate::hashing::{compute_log_hash, log_msg, sha256_of};
use crate::physics::{bounce, bounce_ok, serve, spec_bounce, spec_serve, FixState};
use crate::types::{Commitment32, ValidateLogInput, ValidateLogOutput};
use vstd::arithmetic::div_mod::lemma_fundamental_div_mod_converse;
use vstd::prelude::*;

verus! {

/// Why a log was rejected.  Every variant is an expected, recoverable
/// verdict; arithmetic faults travel on a separate channel.
#[derive(Clone, Copy, Debug, PartialEq, Eq, Structural)]
pub enum Reason {
    /// The log holds no events at all.
    NoEvents,
    /// The log exceeds the maximum event count.
    TooManyEvents,
    /// The event count is odd, so the readings cannot pair up.
    NotPairs,
    /// The commitment count differs from the event count.
    CommitmentCount,
    /// Both players revealed the same seed.
    DuplicateSeeds,
    /// A revealed seed holds too many zero bytes.
    LowEntropy,
    /// A commitment does not reproduce from seed, index and value.
    CommitmentMismatch,
    /// The ball has no horizontal velocity.
    ZeroVelocity,
    /// The time to the next paddle plane is not positive.
    BadKinematics,
    /// A paddle moved further than its speed limit allows.
    PaddleTooFast,
    /// A claimed paddle position lies outside the playable band.
    PaddleOutOfBounds,
    /// The game ended with neither player at the points target.
    NoWinner,
    /// A score lies beyond the points target.
    PastTarget,
    /// The game ended tied.
    Tie,
}

/// The reason string carried in a rejected output.
pub open spec fn reason_text(k: Reason) -> Seq<char> {
    match k {
        Reason::NoEvents => "No events provided - game never started"@,
        Reason::TooManyEvents => "Too many events (exceeds MAX_EVENTS limit)"@,
        Reason::NotPairs => "Events must be pairs"@,
        Reason::CommitmentCount => "Commitment count must match event count"@,
        Reason::DuplicateSeeds => "Player seeds must be unique - duplicate seeds rejected"@,
        Reason::LowEntropy => "Seed entropy too low - too many zero bytes"@,
        Reason::CommitmentMismatch => "Commitment verification failed"@,
        Reason::ZeroVelocity => "Invalid velocity: vx is zero"@,
        Reason::BadKinematics => "Invalid kinematics"@,
        Reason::PaddleTooFast => "Paddle moved too fast"@,
        Reason::PaddleOutOfBounds => "Paddle out of bounds"@,
        Reason::NoWinner => "Invalid final score - neither player reached POINTS_TO_WIN"@,
        Reason::PastTarget => "Invalid final score - game continued beyond POINTS_TO_WIN"@,
        Reason::Tie => "Game ended in a tie - invalid game"@,
    }
}

/// The reason string as a value.
pub fn reason_str(k: Reason) -> (s: &'static str)
    ensures
        s@ == reason_text(k),
{
    match k {
        Reason::NoEvents => "No events provided - game never started",
        Reason::TooManyEvents => "Too many events (exceeds MAX_EVENTS limit)",
        Reason::NotPairs => "Events must be pairs",
        Reason::CommitmentCount => "Commitment count must match event count",
        Reason::DuplicateSeeds => "Player seeds must be unique - duplicate seeds rejected",
        Reason::LowEntropy => "Seed entropy too low - too many zero bytes",
        Reason::CommitmentMismatch => "Commitment verification failed",
        Reason::ZeroVelocity => "Invalid velocity: vx is zero",
        Reason::BadKinematics => "Invalid kinematics",
        Reason::PaddleTooFast => "Paddle moved too fast",
        Reason::PaddleOutOfBounds => "Paddle out of bounds",
        Reason::NoWinner => "Invalid final score - neither player reached POINTS_TO_WIN",
        Reason::PastTarget => "Invalid final score - game continued beyond POINTS_TO_WIN",
        Reason::Tie => "Game ended in a tie - invalid game",
    }
}

/// Outcome of replaying the event pairs.
pub enum RunOut {
    /// An arithmetic fault stopped the replay.
    Overflowed,
    /// The replay rejected the log for the given reason.
    Rejected(Reason),
    /// The replay ran to its end (all pairs, or a completed game) with
    /// these scores and this processed-event count.
    Completed { left: int, right: int, processed: int },
}

/// Outcome of one event pair.
pub enum StepOut {
    /// The replay stops here.
    Halt(RunOut),
    /// The replay continues with this state and these scores.
    Next(FixState, int, int),
}

/// One step of the replay over the pair `(l, r)` of claimed paddle
/// positions.  `processed` is the count of events consumed up to and
/// including this pair.  All geometry is the built-in board in Q16.16.
#[verifier::opaque]
pub open spec fn spec_step(
    st: FixState,
    l: i64,
    r: i64,
    ls: int,
    rs: int,
    processed: int,
    game_id: u32,
) -> StepOut {
    let target_x: i64 = if st.dir < 0 {
        2097152i64
    } else {
        50331648i64
    };
    if st.vx == 0 {
        StepOut::Halt(RunOut::Rejected(Reason::ZeroVelocity))
    } else if !in_i64(target_x - st.x) {
        StepOut::Halt(RunOut::Overflowed)
    } else if !fdiv_ok((target_x - st.x) as int, st.vx as int) {
        StepOut::Halt(RunOut::Overflowed)
    } else {
        let dt = fdiv((target_x - st.x) as int, st.vx as int);
        if !(dt > 0) {
            StepOut::Halt(RunOut::Rejected(Reason::BadKinematics))
        } else if !in_i64(st.t0 + dt) {
            StepOut::Halt(RunOut::Overflowed)
        } else if !reflect_ok(st.y as int, st.vy as int, dt, 393216, 31064064) {
            StepOut::Halt(RunOut::Overflowed)
        } else {
            let t_hit = st.t0 + dt;
            let y_at_hit = spec_reflect(st.y as int, st.vy as int, dt, 393216, 31064064);
            if !fmul_ok(13107200, dt) {
                StepOut::Halt(RunOut::Overflowed)
            } else {
                let max_delta = fmul(13107200, dt);
                if !in_i64(l - st.left_y) || !in_i64(r - st.right_y) {
                    StepOut::Halt(RunOut::Overflowed)
                } else {
                    let d_l = sat_abs(l - st.left_y);
                    let d_r = sat_abs(r - st.right_y);
                    if d_l > max_delta || d_r > max_delta {
                        StepOut::Halt(RunOut::Rejected(Reason::PaddleTooFast))
                    } else if spec_clamp(l as int, 2621440, 31457280) != l || spec_clamp(
                        r as int,
                        2621440,
                        31457280,
                    ) != r {
                        StepOut::Halt(RunOut::Rejected(Reason::PaddleOutOfBounds))
                    } else {
                        let moving_left = st.dir < 0;
                        let contact: i64 = if moving_left {
                            l
                        } else {
                            r
                        };
                        if !in_i64(contact - y_at_hit) {
                            StepOut::Halt(RunOut::Overflowed)
                        } else {
                            let hit = sat_abs(contact - y_at_hit) <= 3014656;
                            let st2 = FixState {
                                x: target_x,
                                y: y_at_hit as i64,
                                t0: t_hit as i64,
                                left_y: l,
                                right_y: r,
                                ..st
                            };
                            if hit {
                                if !bounce_ok(st2, contact as int, 2621440, 393216, 68629, 3276800) {
                                    StepOut::Halt(RunOut::Overflowed)
                                } else {
                                    let b = spec_bounce(
                                        st2,
                                        contact as int,
                                        2621440,
                                        393216,
                                        68629,
                                        3276800,
                                    );
                                    StepOut::Next(
                                        FixState {
                                            vx: b.0 as i64,
                                            vy: b.1 as i64,
                                            speed: b.2 as i64,
                                            dir: b.3 as i32,
                                            ..st2
                                        },
                                        ls,
                                        rs,
                                    )
                                }
                            } else {
                                let ls2 = if moving_left {
                                    ls
                                } else {
                                    ls + 1
                                };
                                let rs2 = if moving_left {
                                    rs + 1
                                } else {
                                    rs
                                };
                                if ls2 >= 3 || rs2 >= 3 {
                                    StepOut::Halt(
                                        RunOut::Completed { left: ls2, right: rs2, processed },
                                    )
                                } else {
                                    let receiver: i32 = if moving_left {
                                        -1i32
                                    } else {
                                        1i32
                                    };
                                    let nst = spec_serve(
                                        receiver,
                                        st2.t0,
                                        52428800,
                                        31457280,
                                        32768000,
                                        60,
                                        121,
                                        37,
                                        processed as u32,
                                        game_id,
                                    );
                                    StepOut::Next(
                                        FixState {
                                            left_y: st2.left_y,
                                            right_y: st2.right_y,
                                            ..nst
                                        },
                                        ls2,
                                        rs2,
                                    )
                                }
                            }
                        }
                    }
                }
            }
        }
    }
}

/// Replay all event pairs from index `idx` on.
pub open spec fn run(
    events: Seq<i64>,
    game_id: u32,
    st: FixState,
    ls: int,
    rs: int,
    idx: int,
) -> RunOut
    decreases events.len() - idx,
{
    if idx < 0 || idx + 2 > events.len() {
        RunOut::Completed { left: ls, right: rs, processed: idx }
    } else {
        match spec_step(st, events[idx], events[idx + 1], ls, rs, idx + 2, game_id) {
            StepOut::Halt(o) => o,
            StepOut::Next(st2, ls2, rs2) => run(events, game_id, st2, ls2, rs2, idx + 2),
        }
    }
}

/// The model of a validation output.
pub struct SpecOut {
    pub fair: bool,
    pub reason: Option<Reason>,
    pub left: int,
    pub right: int,
    pub events_len: int,
    pub hash: Seq<u8>,
    pub game_id: u32,
}

/// Outcome of the whole validation: a verdict, or an arithmetic fault.
pub enum VOut {
    VFault,
    V(SpecOut),
}

/// A rejected output: the reason, with zeroed scores, count, hash and
/// identifier.
pub open spec fn invalid_out(k: Reason) -> SpecOut {
    SpecOut {
        fair: false,
        reason: Some(k),
        left: 0,
        right: 0,
        events_len: 0,
        hash: Seq::new(32, |i: int| 0u8),
        game_id: 0,
    }
}

/// The initial serve of a game: toward the right player, at time zero, with
/// volley count zero.
pub open spec fn init_state(game_id: u32) -> FixState {
    spec_serve(1, 0, 52428800, 31457280, 32768000, 60, 121, 37, 0, game_id)
}

/// The complete model of the validator: structural checks, seed and
/// commitment checks, the physics replay, and the final score rules, in
/// exactly this order.
pub open spec fn spec_validate(
    events: Seq<i64>,
    game_id: u32,
    commitments: Seq<Commitment32>,
    seed_l: Seq<u8>,
    seed_r: Seq<u8>,
) -> VOut {
    if events.len() == 0 {
        VOut::V(invalid_out(Reason::NoEvents))
    } else if events.len() > 10000 {
        VOut::V(invalid_out(Reason::TooManyEvents))
    } else if events.len() % 2 != 0 {
        VOut::V(invalid_out(Reason::NotPairs))
    } else if commitments.len() != events.len() {
        VOut::V(invalid_out(Reason::CommitmentCount))
    } else if seed_l == seed_r {
        VOut::V(invalid_out(Reason::DuplicateSeeds))
    } else if zero_count(seed_l) > 28 || zero_count(seed_r) > 28 {
        VOut::V(invalid_out(Reason::LowEntropy))
    } else if !commitments_all_valid(events, commitments, seed_l, seed_r) {
        VOut::V(invalid_out(Reason::CommitmentMismatch))
    } else {
        match run(events, game_id, init_state(game_id), 0, 0, 0) {
            RunOut::Overflowed => VOut::VFault,
            RunOut::Rejected(k) => VOut::V(invalid_out(k)),
            RunOut::Completed { left, right, processed } => {
                if left != 3 && right != 3 {
                    VOut::V(invalid_out(Reason::NoWinner))
                } else if left > 3 || right > 3 {
                    VOut::V(invalid_out(Reason::PastTarget))
                } else if left == right {
                    VOut::V(invalid_out(Reason::Tie))
                } else {
                    VOut::V(
                        SpecOut {
                            fair: true,
                            reason: None,
                            left,
                            right,
                            events_len: events.len() as int,
                            hash: sha256_of(log_msg(events)),
                            game_id,
                        },
                    )
                }
            },
        }
    }
}

/// Does an output value carry exactly what the model says?
pub open spec fn out_matches(out: ValidateLogOutput, mo: SpecOut) -> bool {
    &&& out.fair == mo.fair
    &&& (match (out.reason, mo.reason) {
        (Option::None, Option::None) => true,
        (Option::Some(s), Option::Some(k)) => s@ == reason_text(k),
        _ => false,
    })
    &&& out.left_score == mo.left
    &&& out.right_score == mo.right
    &&& out.events_len == mo.events_len
    &&& out.log_hash_sha256@ == mo.hash
    &&& out.game_id == mo.game_id
}


/// Outcome of processing one event pair in the replay.
pub enum StepExec {
    /// An arithmetic fault; the replay cannot continue.
    Failed(Fault),
    /// The pair violates a gameplay rule.
    Refused(Reason),
    /// A miss completed the game at these scores.
    GameOver { left: u32, right: u32 },
    /// The replay continues with this state and these scores.
    Advance { state: FixState, left: u32, right: u32 },
}

/// Process one event pair: advance the ball to the paddle plane, check
/// reachability and bounds of both claimed positions, and either bounce or
/// score.  Returns exactly what one step of the replay model says.
#[verifier::rlimit(100)]
fn replay_step(pre: FixState, l_i: I, r_i: I, ls: u32, rs: u32, processed: u32, game_id: u32) -> (r:
    StepExec)
    requires
        ls < 3,
        rs < 3,
        processed <= 10000,
    ensures
        ({
            let step = spec_step(pre, l_i, r_i, ls as int, rs as int, processed as int, game_id);
            match r {
                StepExec::Failed(_) => step == StepOut::Halt(RunOut::Overflowed),
                StepExec::Refused(k) => step == StepOut::Halt(RunOut::Rejected(k)),
                StepExec::GameOver { left, right } => {
                    &&& step == StepOut::Halt(
                        RunOut::Completed {
                            left: left as int,
                            right: right as int,
                            processed: processed as int,
                        },
                    )
                    &&& left <= 3
                    &&& right <= 3
                },
                StepExec::Advance { state, left, right } => {
                    &&& step == StepOut::Next(state, left as int, right as int)
                    &&& left < 3
                    &&& right < 3
                },
            }
        }),
{
    proof {
        reveal(spec_step);
    }
    // Board geometry in Q16.16, all from the built-in configuration.
    let width = to_fixed_int(crate::constants::WIDTH as i64);
    let height = to_fixed_int(crate::constants::HEIGHT as i64);
    let ball_radius = to_fixed_int(crate::constants::BALL_RADIUS as i64);
    let paddle_height = to_fixed_int(crate::constants::PADDLE_HEIGHT as i64);
    let paddle_width = to_fixed_int(crate::constants::PADDLE_WIDTH as i64);
    let paddle_margin = to_fixed_int(crate::constants::PADDLE_MARGIN as i64);
    let paddle_max_speed = to_fixed_int(crate::constants::PADDLE_MAX_SPEED as i64);
    let serve_speed = to_fixed_int(crate::constants::SERVE_SPEED as i64);
    let speed_increment = to_fixed_int(crate::constants::SPEED_INCREMENT as i64);
    let max_bounce_angle = deg_to_rad_fixed(crate::constants::MAX_BOUNCE_ANGLE_DEG);
    proof {
        crate::fixed::lemma_fx_mul_exact(60, 205887);
        lemma_fundamental_div_mod_converse(12353220int * 65536, 11796480, 68629, 0);
        assert(max_bounce_angle == 68629);
    }
    let y_min = ball_radius;
    let y_max = height - ball_radius;
    let left_face = paddle_margin + paddle_width;
    let right_face = width - left_face;
    let half = take_ok(i_div(paddle_height, to_fixed_int(2)));
    proof {
        lemma_fundamental_div_mod_converse(5242880int * 65536, 131072, 2621440, 0);
        assert(half == 2621440);
    }
    let pad_ball = half + ball_radius;
    let left_contact_x = left_face + ball_radius;
    let right_contact_x = right_face - ball_radius;

    let mut state = pre;
    let target_x = if state.dir < 0 {
        left_contact_x
    } else {
        right_contact_x
    };
    if state.vx == 0 {
        return StepExec::Refused(Reason::ZeroVelocity);
    }
    let diff = match target_x.checked_sub(state.x) {
        Some(d) => d,
        None => {
            return StepExec::Failed(Fault::Overflow);
        },
    };
    let dt_to_paddle = match i_div(diff, state.vx) {
        Ok(d) => d,
        Err(f) => {
            return StepExec::Failed(f);
        },
    };
    if !(dt_to_paddle > 0) {
        return StepExec::Refused(Reason::BadKinematics);
    }
    let t_hit = match state.t0.checked_add(dt_to_paddle) {
        Some(t) => t,
        None => {
            return StepExec::Failed(Fault::Overflow);
        },
    };
    let y_at_hit = match reflect1d(state.y, state.vy, dt_to_paddle, y_min, y_max) {
        Ok(y) => y,
        Err(f) => {
            return StepExec::Failed(f);
        },
    };
    let max_delta = match i_mul(paddle_max_speed, dt_to_paddle) {
        Ok(v) => v,
        Err(f) => {
            return StepExec::Failed(f);
        },
    };
    let dl_raw = match l_i.checked_sub(state.left_y) {
        Some(v) => v,
        None => {
            return StepExec::Failed(Fault::Overflow);
        },
    };
    let dr_raw = match r_i.checked_sub(state.right_y) {
        Some(v) => v,
        None => {
            return StepExec::Failed(Fault::Overflow);
        },
    };
    let d_l = i_abs(dl_raw);
    let d_r = i_abs(dr_raw);
    if d_l > max_delta || d_r > max_delta {
        return StepExec::Refused(Reason::PaddleTooFast);
    }
    let clamp_l = clamp_paddle_y(l_i, half, height);
    let clamp_r = clamp_paddle_y(r_i, half, height);
    if clamp_l != l_i || clamp_r != r_i {
        return StepExec::Refused(Reason::PaddleOutOfBounds);
    }
    let moving_left = state.dir < 0;
    let contact = if moving_left {
        l_i
    } else {
        r_i
    };
    let c_diff = match contact.checked_sub(y_at_hit) {
        Some(v) => v,
        None => {
            return StepExec::Failed(Fault::Overflow);
        },
    };
    let hit = i_abs(c_diff) <= pad_ball;

    // Advance the state to the contact point, and record both claimed
    // positions as the paddles' last known values.
    state.x = if moving_left {
        left_contact_x
    } else {
        right_contact_x
    };
    state.y = y_at_hit;
    state.t0 = t_hit;
    state.left_y = l_i;
    state.right_y = r_i;

    if hit {
        let (vx, vy, speed, dir) = match bounce(
            &state,
            contact,
            half,
            ball_radius,
            max_bounce_angle,
            speed_increment,
        ) {
            Ok(t) => t,
            Err(f) => {
                return StepExec::Failed(f);
            },
        };
        state.vx = vx;
        state.vy = vy;
        state.speed = speed;
        state.dir = dir;
        StepExec::Advance { state, left: ls, right: rs }
    } else {
        let left2 = if moving_left {
            ls
        } else {
            ls + 1
        };
        let right2 = if moving_left {
            rs + 1
        } else {
            rs
        };
        if left2 >= crate::constants::POINTS_TO_WIN || right2 >= crate::constants::POINTS_TO_WIN {
            return StepExec::GameOver { left: left2, right: right2 };
        }
        // Serve again toward the side that just missed.
        let receiver_dir: i32 = if moving_left {
            -1
        } else {
            1
        };
        let next = serve(
            receiver_dir,
            state.t0,
            width,
            height,
            serve_speed,
            crate::constants::MAX_BOUNCE_ANGLE_DEG,
            crate::constants::ANGLE_RANGE,
            crate::constants::SERVE_ANGLE_MULTIPLIER,
            processed,
            game_id,
        );
        let keep_left = state.left_y;
        let keep_right = state.right_y;
        state = next;
        state.left_y = keep_left;
        state.right_y = keep_right;
        StepExec::Advance { state, left: left2, right: right2 }
    }
}

/// Validate a claimed game log against the canonical deterministic physics.
///
/// Structural, seed and commitment violations and every gameplay violation
/// come back as a fair-is-false output with a specific reason; only
/// arithmetic beyond the conservative safety bounds aborts with a fault.
/// The result is exactly the value of [`spec_validate`] on the input.
#[verifier::rlimit(100)]
#[verifier::loop_isolation(false)]
pub fn validate_log(inp: ValidateLogInput) -> (r: Result<ValidateLogOutput, Fault>)
    ensures
        ({
            let m = spec_validate(
                inp.events@,
                inp.game_id,
                inp.commitments@,
                inp.player_left_seed@,
                inp.player_right_seed@,
            );
            match r {
                Ok(out) => m matches VOut::V(mo) && out_matches(out, mo),
                Err(_) => m == VOut::VFault,
            }
        }),
{
    let events = &inp.events;
    if events.len() == 0 {
        return Ok(ValidateLogOutput::invalid(reason_str(Reason::NoEvents)));
    }
    if events.len() > crate::constants::MAX_EVENTS as usize {
        return Ok(ValidateLogOutput::invalid(reason_str(Reason::TooManyEvents)));
    }
    if events.len() % 2 != 0 {
        return Ok(ValidateLogOutput::invalid(reason_str(Reason::NotPairs)));
    }
    if inp.commitments.len() != events.len() {
        return Ok(ValidateLogOutput::invalid(reason_str(Reason::CommitmentCount)));
    }
    if bytes32_eq(&inp.player_left_seed, &inp.player_right_seed) {
        return Ok(ValidateLogOutput::invalid(reason_str(Reason::DuplicateSeeds)));
    }
    if count_zero_bytes(&inp.player_left_seed) > crate::commit::MAX_ZERO_BYTES
        || count_zero_bytes(&inp.player_right_seed) > crate::commit::MAX_ZERO_BYTES {
        return Ok(ValidateLogOutput::invalid(reason_str(Reason::LowEntropy)));
    }
    if !verify_commitments(
        events,
        &inp.commitments,
        &inp.player_left_seed,
        &inp.player_right_seed,
    ) {
        return Ok(ValidateLogOutput::invalid(reason_str(Reason::CommitmentMismatch)));
    }
    let width = to_fixed_int(crate::constants::WIDTH as i64);
    let height = to_fixed_int(crate::constants::HEIGHT as i64);
    let serve_speed = to_fixed_int(crate::constants::SERVE_SPEED as i64);
    let mut state = serve(
        crate::constants::INITIAL_SERVE_DIRECTION,
        to_fixed_int(0),
        width,
        height,
        serve_speed,
        crate::constants::MAX_BOUNCE_ANGLE_DEG,
        crate::constants::ANGLE_RANGE,
        crate::constants::SERVE_ANGLE_MULTIPLIER,
        0,
        inp.game_id,
    );
    proof {
        assert(state == init_state(inp.game_id));
    }

    let mut left_score: u32 = 0;
    let mut right_score: u32 = 0;
    let mut processed_events: u32 = 0;
    let mut idx: usize = 0;
    let ghost total = run(events@, inp.game_id, state, 0, 0, 0);

    let mut done: bool = false;
    while !done && idx + 2 <= events.len()
        invariant
            idx % 2 == 0,
            idx <= events@.len(),
            events@.len() <= 10000,
            processed_events == idx,
            left_score <= 3,
            right_score <= 3,
            inp.events@ == events@,
            !done ==> left_score < 3 && right_score < 3 && run(
                events@,
                inp.game_id,
                state,
                left_score as int,
                right_score as int,
                idx as int,
            ) == total,
            done ==> total == (RunOut::Completed {
                left: left_score as int,
                right: right_score as int,
                processed: idx as int,
            }),
        decreases events@.len() - idx,
    {
        let l_i = events[idx];
        let r_i = events[idx + 1];
        processed_events = processed_events + 2;
        match replay_step(
            state,
            l_i,
            r_i,
            left_score,
            right_score,
            processed_events,
            inp.game_id,
        ) {
            StepExec::Failed(f) => {
                proof {
                    assert(total == RunOut::Overflowed);
                }
                return Err(f);
            },
            StepExec::Refused(k) => {
                proof {
                    assert(total == RunOut::Rejected(k));
                }
                return Ok(ValidateLogOutput::invalid(reason_str(k)));
            },
            StepExec::GameOver { left, right } => {
                left_score = left;
                right_score = right;
                idx = idx + 2;
                done = true;
            },
            StepExec::Advance { state: next, left, right } => {
                state = next;
                left_score = left;
                right_score = right;
                idx = idx + 2;
            },
        }
    }
    proof {
        assert(total == RunOut::Completed {
            left: left_score as int,
            right: right_score as int,
            processed: processed_events as int,
        });
    }

    if left_score != crate::constants::POINTS_TO_WIN && right_score != crate::constants::POINTS_TO_WIN {
        return Ok(ValidateLogOutput::invalid(reason_str(Reason::NoWinner)));
    }
    if left_score > crate::constants::POINTS_TO_WIN || right_score > crate::constants::POINTS_TO_WIN {
        return Ok(ValidateLogOutput::invalid(reason_str(Reason::PastTarget)));
    }
    if left_score == right_score {
        return Ok(ValidateLogOutput::invalid(reason_str(Reason::Tie)));
    }
    let hash = compute_log_hash(events);
    let out = ValidateLogOutput::ok(
        left_score,
        right_score,
        events.len() as u32,
        hash,
        inp.game_id,
    );
    Ok(out)
}

} // verus!
