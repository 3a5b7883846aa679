//! Properties of the validator, stated and proved against its model.

use crate::commit::zero_count;
use crate::fixed::{fdiv, fdiv_ok, fmul, fmul_ok, in_i64, reflect_ok, sat_abs, spec_clamp};
use crate::physics::FixState;
use crate::types::Commitment32;
use crate::validator::{
    invalid_out, run, spec_step, spec_validate, Reason, RunOut, SpecOut, StepOut, VOut,
};
use vstd::prelude::*;

verus! {

/// Determinism: the verdict is a function of the input alone.  Two
/// validations of identical arguments yield identical outputs, hash and
/// verdict included.
pub proof fn lemma_validate_deterministic(
    events1: Seq<i64>,
    game_id1: u32,
    commitments1: Seq<Commitment32>,
    seed_l1: Seq<u8>,
    seed_r1: Seq<u8>,
    events2: Seq<i64>,
    game_id2: u32,
    commitments2: Seq<Commitment32>,
    seed_l2: Seq<u8>,
    seed_r2: Seq<u8>,
)
    requires
        events1 == events2,
        game_id1 == game_id2,
        commitments1 == commitments2,
        seed_l1 == seed_l2,
        seed_r1 == seed_r2,
    ensures
        spec_validate(events1, game_id1, commitments1, seed_l1, seed_r1) == spec_validate(
            events2,
            game_id2,
            commitments2,
            seed_l2,
            seed_r2,
        ),
{
}

/// The replay itself only ever rejects for a kinematic or gameplay reason;
/// structural and trust reasons come from the checks before it.
pub proof fn lemma_run_reasons(
    events: Seq<i64>,
    game_id: u32,
    st: FixState,
    ls: int,
    rs: int,
    idx: int,
)
    ensures
        match run(events, game_id, st, ls, rs, idx) {
            RunOut::Rejected(k) => k is ZeroVelocity || k is BadKinematics || k is PaddleTooFast
                || k is PaddleOutOfBounds,
            _ => true,
        },
    decreases events.len() - idx,
{
    reveal(spec_step);
    if idx < 0 || idx + 2 > events.len() {
    } else {
        match spec_step(st, events[idx], events[idx + 1], ls, rs, idx + 2, game_id) {
            StepOut::Halt(_) => {},
            StepOut::Next(st2, ls2, rs2) => {
                lemma_run_reasons(events, game_id, st2, ls2, rs2, idx + 2);
            },
        }
    }
}

/// Boundary on the event count, accepting side: a log of exactly the
/// maximum count is never rejected for its count.
pub proof fn lemma_max_events_not_rejected_for_count(
    events: Seq<i64>,
    game_id: u32,
    commitments: Seq<Commitment32>,
    seed_l: Seq<u8>,
    seed_r: Seq<u8>,
)
    requires
        events.len() == 10000,
    ensures
        match spec_validate(events, game_id, commitments, seed_l, seed_r) {
            VOut::V(mo) => mo.reason != Some(Reason::TooManyEvents),
            VOut::VFault => true,
        },
{
    lemma_run_reasons(events, game_id, crate::validator::init_state(game_id), 0, 0, 0);
}

/// Boundary on the event count, rejecting side: any log over the maximum
/// count is rejected as holding too many events.
pub proof fn lemma_over_max_events_rejected(
    events: Seq<i64>,
    game_id: u32,
    commitments: Seq<Commitment32>,
    seed_l: Seq<u8>,
    seed_r: Seq<u8>,
)
    requires
        events.len() > 10000,
    ensures
        spec_validate(events, game_id, commitments, seed_l, seed_r) == VOut::V(
            invalid_out(Reason::TooManyEvents),
        ),
{
}

/// Parity: any odd-length event list within the size cap is rejected with
/// the pairing reason.  (An odd list over the cap is rejected for its count
/// first.)
pub proof fn lemma_odd_length_rejected(
    events: Seq<i64>,
    game_id: u32,
    commitments: Seq<Commitment32>,
    seed_l: Seq<u8>,
    seed_r: Seq<u8>,
)
    requires
        events.len() % 2 == 1,
        events.len() <= 10000,
    ensures
        spec_validate(events, game_id, commitments, seed_l, seed_r) == VOut::V(
            invalid_out(Reason::NotPairs),
        ),
{
}

/// Empty log: a log with no events is rejected with the no-events reason,
/// and the rejected output carries zeroed scores and hash.
pub proof fn lemma_empty_rejected(
    events: Seq<i64>,
    game_id: u32,
    commitments: Seq<Commitment32>,
    seed_l: Seq<u8>,
    seed_r: Seq<u8>,
)
    requires
        events.len() == 0,
    ensures
        spec_validate(events, game_id, commitments, seed_l, seed_r) == VOut::V(
            invalid_out(Reason::NoEvents),
        ),
        invalid_out(Reason::NoEvents).left == 0,
        invalid_out(Reason::NoEvents).right == 0,
        invalid_out(Reason::NoEvents).hash == Seq::new(32, |i: int| 0u8),
{
}

/// Entropy boundary, accepting side: seeds with at most 28 zero bytes are
/// never rejected for entropy (other rejections may still apply).
pub proof fn lemma_entropy_at_boundary_passes(
    events: Seq<i64>,
    game_id: u32,
    commitments: Seq<Commitment32>,
    seed_l: Seq<u8>,
    seed_r: Seq<u8>,
)
    requires
        zero_count(seed_l) <= 28,
        zero_count(seed_r) <= 28,
    ensures
        match spec_validate(events, game_id, commitments, seed_l, seed_r) {
            VOut::V(mo) => mo.reason != Some(Reason::LowEntropy),
            VOut::VFault => true,
        },
{
    lemma_run_reasons(events, game_id, crate::validator::init_state(game_id), 0, 0, 0);
}

/// Entropy boundary, rejecting side: once the structural checks pass, a
/// seed with more than 28 zero bytes is rejected with the entropy reason.
pub proof fn lemma_low_entropy_rejected(
    events: Seq<i64>,
    game_id: u32,
    commitments: Seq<Commitment32>,
    seed_l: Seq<u8>,
    seed_r: Seq<u8>,
)
    requires
        0 < events.len() <= 10000,
        events.len() % 2 == 0,
        commitments.len() == events.len(),
        seed_l != seed_r,
        zero_count(seed_l) > 28 || zero_count(seed_r) > 28,
    ensures
        spec_validate(events, game_id, commitments, seed_l, seed_r) == VOut::V(
            invalid_out(Reason::LowEntropy),
        ),
{
}

/// Duplicate seed rejection: whatever else the input holds, once the
/// structural checks pass, identical seeds are rejected as duplicates.
pub proof fn lemma_duplicate_seeds_rejected(
    events: Seq<i64>,
    game_id: u32,
    commitments: Seq<Commitment32>,
    seed_l: Seq<u8>,
    seed_r: Seq<u8>,
)
    requires
        0 < events.len() <= 10000,
        events.len() % 2 == 0,
        commitments.len() == events.len(),
        seed_l == seed_r,
    ensures
        spec_validate(events, game_id, commitments, seed_l, seed_r) == VOut::V(
            invalid_out(Reason::DuplicateSeeds),
        ),
{
}

/// Premises under which a replay step reaches its reachability check: the
/// ball is moving, the time to the paddle plane is positive, and every
/// intermediate value is representable.
pub open spec fn step_reaches_reachability(st: FixState, l: i64, r: i64) -> bool {
    let target_x: i64 = if st.dir < 0 {
        2097152i64
    } else {
        50331648i64
    };
    &&& st.vx != 0
    &&& in_i64(target_x - st.x)
    &&& fdiv_ok((target_x - st.x) as int, st.vx as int)
    &&& fdiv((target_x - st.x) as int, st.vx as int) > 0
    &&& in_i64(st.t0 + fdiv((target_x - st.x) as int, st.vx as int))
    &&& reflect_ok(
        st.y as int,
        st.vy as int,
        fdiv((target_x - st.x) as int, st.vx as int),
        393216,
        31064064,
    )
    &&& fmul_ok(13107200, fdiv((target_x - st.x) as int, st.vx as int))
    &&& in_i64(l - st.left_y)
    &&& in_i64(r - st.right_y)
}

/// The time to the paddle plane a step works with.
pub open spec fn step_dt(st: FixState) -> int {
    let target_x: i64 = if st.dir < 0 {
        2097152i64
    } else {
        50331648i64
    };
    fdiv((target_x - st.x) as int, st.vx as int)
}

/// Speed rejection: a paddle jump exceeding the speed limit times the
/// travel time is always rejected as moving too fast.
pub proof fn lemma_step_rejects_too_fast(
    st: FixState,
    l: i64,
    r: i64,
    ls: int,
    rs: int,
    processed: int,
    game_id: u32,
)
    requires
        step_reaches_reachability(st, l, r),
        sat_abs(l - st.left_y) > fmul(13107200, step_dt(st)) || sat_abs(r - st.right_y) > fmul(
            13107200,
            step_dt(st),
        ),
    ensures
        spec_step(st, l, r, ls, rs, processed, game_id) == StepOut::Halt(
            RunOut::Rejected(Reason::PaddleTooFast),
        ),
{
    reveal(spec_step);
}

/// Bounds rejection: a claimed paddle position that its own clamp into the
/// playable band would change is always rejected as out of bounds, whenever
/// the step reaches the bounds check.
pub proof fn lemma_step_rejects_out_of_bounds(
    st: FixState,
    l: i64,
    r: i64,
    ls: int,
    rs: int,
    processed: int,
    game_id: u32,
)
    requires
        step_reaches_reachability(st, l, r),
        sat_abs(l - st.left_y) <= fmul(13107200, step_dt(st)),
        sat_abs(r - st.right_y) <= fmul(13107200, step_dt(st)),
        spec_clamp(l as int, 2621440, 31457280) != l || spec_clamp(r as int, 2621440, 31457280)
            != r,
    ensures
        spec_step(st, l, r, ls, rs, processed, game_id) == StepOut::Halt(
            RunOut::Rejected(Reason::PaddleOutOfBounds),
        ),
{
    reveal(spec_step);
}

/// Score termination: a fair verdict always has exactly one side at the
/// points target and the other strictly below it; ties and overshoots never
/// pass.
pub proof fn lemma_score_termination(
    events: Seq<i64>,
    game_id: u32,
    commitments: Seq<Commitment32>,
    seed_l: Seq<u8>,
    seed_r: Seq<u8>,
    mo: SpecOut,
)
    requires
        spec_validate(events, game_id, commitments, seed_l, seed_r) == VOut::V(mo),
        mo.fair,
    ensures
        (mo.left == 3 && mo.right < 3) || (mo.right == 3 && mo.left < 3),
{
}

} // verus!
