//! Commitments and the binding log hash.
//!
//! A commitment binds one claimed paddle position to a player seed and an
//! event index; the log hash binds the verdict to the exact event sequence
//! that was judged.  Both are SHA-256 digests of canonical byte encodings.

use crate::fixed::I;
use vstd::bytes::{
    spec_u32_to_le_bytes, spec_u64_to_le_bytes, lemma_auto_spec_u32_to_from_le_bytes,
    lemma_auto_spec_u64_to_from_le_bytes, u32_to_le_bytes, u64_to_le_bytes,
};
use vstd::prelude::*;

verus! {

/// The SHA-256 digest of a byte sequence, named but not written out: the
/// compression function is the hash crate's business, not this library's.
pub uninterp spec fn sha256_of(data: Seq<u8>) -> Seq<u8>;

/// Relies on sha2::Sha256: the digest is 32 bytes and a function of the
/// input bytes alone, identical on every platform.
#[verifier::external_body]
fn sha256_digest(data: &[u8]) -> (r: [u8; 32])
    ensures
        r@ == sha256_of(data@),
{
    let out = <sha2::Sha256 as sha2::Digest>::digest(data);
    out.into()
}

/// The canonical byte message behind a commitment: the 32 seed bytes, the
/// event index as 4 little-endian bytes, then the claimed paddle position as
/// 8 little-endian bytes.
pub open spec fn commit_msg(seed: Seq<u8>, event_index: u32, paddle_y: i64) -> Seq<u8> {
    seed + spec_u32_to_le_bytes(event_index) + spec_u64_to_le_bytes(paddle_y as u64)
}

/// Version tag opening the byte message of the log hash.
pub open spec fn log_tag() -> Seq<u8> {
    seq![80u8, 79, 78, 71, 76, 79, 71, 118, 49]
}

/// Little-endian byte encoding of a whole event sequence, 8 bytes per event.
pub open spec fn events_bytes(events: Seq<i64>) -> Seq<u8>
    decreases events.len(),
{
    if events.len() == 0 {
        Seq::empty()
    } else {
        spec_u64_to_le_bytes(events[0] as u64) + events_bytes(events.skip(1))
    }
}

/// The canonical byte message behind the log hash: the version tag followed
/// by every event value in little-endian byte order.
pub open spec fn log_msg(events: Seq<i64>) -> Seq<u8> {
    log_tag() + events_bytes(events)
}

/// Extending the encoded prefix by one event appends that event's bytes.
proof fn lemma_events_bytes_snoc(events: Seq<i64>, i: int)
    requires
        0 <= i < events.len(),
    ensures
        events_bytes(events.take(i + 1)) == events_bytes(events.take(i)) + spec_u64_to_le_bytes(
            events[i] as u64,
        ),
    decreases i,
{
    reveal_with_fuel(events_bytes, 3);
    let a = events.take(i + 1);
    if i == 0 {
        assert(a.skip(1) =~= Seq::<i64>::empty());
        assert(events.take(0) =~= Seq::<i64>::empty());
        assert(a[0] == events[0]);
        assert(events_bytes(events.take(1)) =~= spec_u64_to_le_bytes(events[0] as u64));
        assert(events_bytes(events.take(0)) + spec_u64_to_le_bytes(events[0] as u64)
            =~= spec_u64_to_le_bytes(events[0] as u64));
    } else {
        lemma_events_bytes_snoc(events.skip(1), i - 1);
        assert(a.skip(1) =~= events.skip(1).take(i));
        assert(events.take(i).skip(1) =~= events.skip(1).take(i - 1));
        assert(events_bytes(events.take(i + 1)) == spec_u64_to_le_bytes(events[0] as u64)
            + events_bytes(events.skip(1).take(i)));
        assert(events_bytes(events.take(i)) == spec_u64_to_le_bytes(events[0] as u64)
            + events_bytes(events.skip(1).take(i - 1)));
        assert(events.skip(1)[i - 1] == events[i]);
        assert(spec_u64_to_le_bytes(events[0] as u64) + (events_bytes(events.skip(1).take(i - 1))
            + spec_u64_to_le_bytes(events[i] as u64)) =~= (spec_u64_to_le_bytes(events[0] as u64)
            + events_bytes(events.skip(1).take(i - 1))) + spec_u64_to_le_bytes(events[i] as u64));
    }
}

/// Push every byte of a 32-byte array onto a buffer.
fn push_array32(buf: &mut Vec<u8>, arr: &[u8; 32])
    ensures
        final(buf)@ == old(buf)@ + arr@,
{
    let mut i: usize = 0;
    while i < 32
        invariant
            i <= 32,
            buf@ == old(buf)@ + arr@.take(i as int),
        decreases 32 - i,
    {
        let b = arr[i];
        buf.push(b);
        proof {
            assert(arr@.take(i + 1) =~= arr@.take(i as int).push(arr@[i as int]));
            assert(old(buf)@ + arr@.take(i + 1) =~= (old(buf)@ + arr@.take(i as int)).push(
                arr@[i as int],
            ));
        }
        i = i + 1;
    }
    proof {
        assert(arr@.take(32) =~= arr@);
    }
}

/// Append a whole vector of bytes onto a buffer.
fn push_bytes(buf: &mut Vec<u8>, mut bytes: Vec<u8>)
    ensures
        final(buf)@ == old(buf)@ + bytes@,
{
    let ghost all = bytes@;
    buf.append(&mut bytes);
}

/// Compute the commitment for one claimed paddle position: the SHA-256
/// digest of the seed, the event index and the value in canonical order.
pub fn compute_commitment(seed: &[u8; 32], event_index: u32, paddle_y: I) -> (r: [u8; 32])
    ensures
        r@ == sha256_of(commit_msg(seed@, event_index, paddle_y)),
{
    let mut buf: Vec<u8> = Vec::new();
    push_array32(&mut buf, seed);
    push_bytes(&mut buf, u32_to_le_bytes(event_index));
    push_bytes(&mut buf, u64_to_le_bytes(paddle_y as u64));
    proof {
        assert(buf@ =~= commit_msg(seed@, event_index, paddle_y));
    }
    sha256_digest(buf.as_slice())
}

/// Compute the binding hash of the event log: the SHA-256 digest of the
/// version tag followed by every event in little-endian bytes.
pub fn compute_log_hash(events: &Vec<I>) -> (r: [u8; 32])
    ensures
        r@ == sha256_of(log_msg(events@)),
{
    let mut buf: Vec<u8> = Vec::new();
    buf.push(80);
    buf.push(79);
    buf.push(78);
    buf.push(71);
    buf.push(76);
    buf.push(79);
    buf.push(71);
    buf.push(118);
    buf.push(49);
    proof {
        assert(buf@ =~= log_tag());
        assert(events@.take(0) =~= Seq::<i64>::empty());
        assert(log_tag() + events_bytes(events@.take(0)) =~= log_tag());
    }
    let n = events.len();
    let mut i: usize = 0;
    while i < n
        invariant
            i <= n,
            n == events@.len(),
            buf@ == log_tag() + events_bytes(events@.take(i as int)),
        decreases n - i,
    {
        let v = events[i];
        push_bytes(&mut buf, u64_to_le_bytes(v as u64));
        proof {
            lemma_events_bytes_snoc(events@, i as int);
            assert((log_tag() + events_bytes(events@.take(i as int))) + spec_u64_to_le_bytes(
                events@[i as int] as u64,
            ) =~= log_tag() + (events_bytes(events@.take(i as int)) + spec_u64_to_le_bytes(
                events@[i as int] as u64,
            )));
        }
        i = i + 1;
    }
    proof {
        assert(events@.take(n as int) =~= events@);
    }
    sha256_digest(buf.as_slice())
}

/// The commitment message is injective: two equal messages can only come
/// from the same seed, the same event index and the same claimed value.
/// Moving a commitment to another index or seed therefore always changes
/// the bytes that are hashed.
pub proof fn lemma_commit_msg_binds(
    seed1: Seq<u8>,
    seed2: Seq<u8>,
    i1: u32,
    i2: u32,
    v1: i64,
    v2: i64,
)
    requires
        seed1.len() == 32,
        seed2.len() == 32,
        commit_msg(seed1, i1, v1) == commit_msg(seed2, i2, v2),
    ensures
        seed1 == seed2,
        i1 == i2,
        v1 == v2,
{
    lemma_auto_spec_u32_to_from_le_bytes();
    lemma_auto_spec_u64_to_from_le_bytes();
    let m1 = commit_msg(seed1, i1, v1);
    let m2 = commit_msg(seed2, i2, v2);
    assert(seed1 =~= m1.subrange(0, 32));
    assert(seed2 =~= m2.subrange(0, 32));
    assert(spec_u32_to_le_bytes(i1) =~= m1.subrange(32, 36));
    assert(spec_u32_to_le_bytes(i2) =~= m2.subrange(32, 36));
    assert(spec_u64_to_le_bytes(v1 as u64) =~= m1.subrange(36, 44));
    assert(spec_u64_to_le_bytes(v2 as u64) =~= m2.subrange(36, 44));
    assert(v1 == v2) by (bit_vector)
        requires
            v1 as u64 == v2 as u64,
    ;
}

} // verus!
