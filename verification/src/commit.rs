//! Commitment and entropy checks: the trust half of the validator.
//!
//! Both players commit to every move in advance; at verification time the
//! revealed seeds must be distinct, carry enough entropy, and reproduce
//! every commitment.

use crate::fixed::I;
use crate::hashing::{commit_msg, compute_commitment, sha256_of};
use crate::types::Commitment32;
use vstd::prelude::*;

verus! {

/// A seed may contain at most this many zero bytes; more counts as too
/// predictable.
pub const MAX_ZERO_BYTES: u32 = 28;

/// Number of zero bytes in a byte sequence.
pub open spec fn zero_count(s: Seq<u8>) -> int
    decreases s.len(),
{
    if s.len() == 0 {
        0
    } else {
        zero_count(s.drop_last()) + if s.last() == 0 {
            1int
        } else {
            0int
        }
    }
}

/// Count the zero bytes of a seed.
pub fn count_zero_bytes(seed: &[u8; 32]) -> (n: u32)
    ensures
        n == zero_count(seed@),
{
    let mut n: u32 = 0;
    let mut i: usize = 0;
    while i < 32
        invariant
            i <= 32,
            n == zero_count(seed@.take(i as int)),
            n <= i,
        decreases 32 - i,
    {
        proof {
            assert(seed@.take(i + 1).drop_last() =~= seed@.take(i as int));
            assert(seed@.take(i + 1).last() == seed@[i as int]);
        }
        if seed[i] == 0 {
            n = n + 1;
        }
        i = i + 1;
    }
    proof {
        assert(seed@.take(32) =~= seed@);
    }
    n
}

/// Compare two 32-byte values without an early exit: the accumulated
/// difference is tested only once, so the comparison touches every byte
/// whether or not the values differ.
pub fn bytes32_eq(a: &[u8; 32], b: &[u8; 32]) -> (r: bool)
    ensures
        r == (a@ == b@),
{
    let mut diff: u8 = 0;
    let mut i: usize = 0;
    while i < 32
        invariant
            i <= 32,
            (diff == 0) <==> (forall|j: int| 0 <= j < i ==> a@[j] == b@[j]),
        decreases 32 - i,
    {
        let av = a[i];
        let bv = b[i];
        let x = av ^ bv;
        proof {
            assert((av ^ bv == 0) == (av == bv)) by (bit_vector);
            assert(forall|p: u8, q: u8| (p | q == 0) == (p == 0 && q == 0)) by (bit_vector);
        }
        diff = diff | x;
        i = i + 1;
    }
    proof {
        if forall|j: int| 0 <= j < 32 ==> a@[j] == b@[j] {
            assert(a@ =~= b@);
        }
    }
    diff == 0
}

/// Does every commitment reproduce from the side's seed, the event index and
/// the claimed value?  Left-player readings sit at even indices, right-player
/// readings at odd ones.
pub open spec fn commitments_all_valid(
    events: Seq<i64>,
    commitments: Seq<Commitment32>,
    seed_l: Seq<u8>,
    seed_r: Seq<u8>,
) -> bool {
    forall|i: int|
        0 <= i < events.len() ==> (#[trigger] commitments[i].0)@ == sha256_of(
            commit_msg(
                if i % 2 == 0 {
                    seed_l
                } else {
                    seed_r
                },
                i as u32,
                events[i],
            ),
        )
}

/// Recompute and check every commitment against the revealed seeds.
pub fn verify_commitments(
    events: &Vec<I>,
    commitments: &Vec<Commitment32>,
    seed_l: &[u8; 32],
    seed_r: &[u8; 32],
) -> (r: bool)
    requires
        events@.len() == commitments@.len(),
        events@.len() <= 10000,
    ensures
        r == commitments_all_valid(events@, commitments@, seed_l@, seed_r@),
{
    let n = events.len();
    let mut i: usize = 0;
    while i < n
        invariant
            i <= n,
            n == events@.len(),
            n == commitments@.len(),
            n <= 10000,
            forall|j: int|
                0 <= j < i ==> (#[trigger] commitments@[j].0)@ == sha256_of(
                    commit_msg(
                        if j % 2 == 0 {
                            seed_l@
                        } else {
                            seed_r@
                        },
                        j as u32,
                        events@[j],
                    ),
                ),
        decreases n - i,
    {
        let side_seed: &[u8; 32] = if i % 2 == 0 {
            seed_l
        } else {
            seed_r
        };
        let expected = compute_commitment(side_seed, i as u32, events[i]);
        let given = &commitments[i];
        if !bytes32_eq(&expected, &given.0) {
            proof {
                assert(!commitments_all_valid(events@, commitments@, seed_l@, seed_r@));
            }
            return false;
        }
        i = i + 1;
    }
    true
}

} // verus!
