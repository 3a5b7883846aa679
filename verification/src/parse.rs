//! Turning a compact wire log into a validation input.
//!
//! A compact log carries every event as a decimal string and every binary
//! field hex-encoded; this module decodes those fields exactly, rejecting
//! the document on the first malformed one.

use crate::fixed::{in_i64, I};
use crate::types::{Commitment32, CompactLog, ValidateLogInput};
use vstd::prelude::*;

verus! {

/// Error turning a compact log into a validation input.
#[derive(Clone, Copy, Debug, PartialEq, Eq, Structural)]
pub enum LogParseError {
    /// The document's format version is not the supported one.
    UnsupportedVersion,
    /// An event string is not a decimal value in range.
    BadEvent,
    /// A commitment string is not 64 hex digits.
    BadCommitment,
    /// A seed string is not 64 hex digits.
    BadSeed,
}

/// Is `c` one of the characters the hex alphabet accepts?
pub open spec fn is_hex_digit(c: char) -> bool {
    ('0' <= c && c <= '9') || ('a' <= c && c <= 'f') || ('A' <= c && c <= 'F')
}

/// Numeric value of a hex digit.
pub open spec fn hex_val(c: char) -> int {
    if '0' <= c && c <= '9' {
        c as int - 48
    } else if 'a' <= c && c <= 'f' {
        c as int - 87
    } else {
        c as int - 55
    }
}

/// Byte decoding of a hex string: each byte is a high digit followed by a
/// low digit.
pub open spec fn hex_bytes(s: Seq<char>) -> Seq<u8> {
    Seq::new((s.len() / 2) as nat, |i: int| (hex_val(s[2 * i]) * 16 + hex_val(s[2 * i + 1])) as u8)
}

/// Relies on hex::decode: it accepts exactly the even-length strings of hex
/// digits (both cases), pairing a high digit with a low digit per byte.
#[verifier::external_body]
fn hex_decode(s: &str) -> (r: Result<Vec<u8>, hex::FromHexError>)
    ensures
        (r matches Ok(_)) == (s@.len() % 2 == 0 && (forall|i: int|
            0 <= i < s@.len() ==> is_hex_digit(#[trigger] s@[i]))),
        r matches Ok(v) ==> v@ == hex_bytes(s@),
{
    hex::decode(s)
}

/// The error type of the hex crate, declared so that results of its calls
/// can pass through this module.
#[verifier::external_type_specification]
#[verifier::external_body]
pub struct ExFromHexError(hex::FromHexError);

/// Is `s` entirely decimal digits, at least one?
pub open spec fn dec_digits(s: Seq<char>) -> bool {
    s.len() > 0 && (forall|i: int| 0 <= i < s.len() ==> ('0' <= #[trigger] s[i] && s[i] <= '9'))
}

/// Numeric value of a digit string.
pub open spec fn dec_val(s: Seq<char>) -> int
    decreases s.len(),
{
    if s.len() == 0 {
        0
    } else {
        dec_val(s.drop_last()) * 10 + (s.last() as int - 48)
    }
}

/// The value a decimal `i64` string denotes: an optional sign, then digits,
/// and the signed value must be representable.  Anything else denotes
/// nothing.
pub open spec fn i64_str_value(s: Seq<char>) -> Option<int> {
    if s.len() > 0 && (s[0] == '+' || s[0] == '-') {
        let body = s.subrange(1, s.len() as int);
        if dec_digits(body) {
            let v = if s[0] == '-' {
                -dec_val(body)
            } else {
                dec_val(body)
            };
            if in_i64(v) {
                Some(v)
            } else {
                None
            }
        } else {
            None
        }
    } else if dec_digits(s) {
        if in_i64(dec_val(s)) {
            Some(dec_val(s))
        } else {
            None
        }
    } else {
        None
    }
}

/// Relies on str::parse::<i64>: it accepts exactly an optional sign followed
/// by decimal digits whose signed value fits in an i64, and returns that
/// value.
#[verifier::external_body]
fn parse_i64_str(s: &str) -> (r: Option<i64>)
    ensures
        match r {
            Some(v) => i64_str_value(s@) == Some(v as int),
            None => i64_str_value(s@) is None,
        },
{
    match s.parse::<i64>() {
        Ok(v) => Some(v),
        Err(_) => None,
    }
}

/// Does `s` denote an event value?
pub open spec fn good_event_str(s: Seq<char>) -> bool {
    i64_str_value(s) is Some
}

/// Does `s` denote 32 bytes in hex?
pub open spec fn good_hex32(s: Seq<char>) -> bool {
    s.len() == 64 && (forall|i: int| 0 <= i < s.len() ==> is_hex_digit(#[trigger] s[i]))
}

/// Copy a 32-byte vector into an array.
fn vec_to_arr32(v: &Vec<u8>) -> (r: [u8; 32])
    requires
        v@.len() == 32,
    ensures
        r@ == v@,
{
    let mut r = [0u8; 32];
    let mut i: usize = 0;
    while i < 32
        invariant
            i <= 32,
            v@.len() == 32,
            r@.len() == 32,
            forall|j: int| 0 <= j < i ==> r@[j] == v@[j],
        decreases 32 - i,
    {
        r[i] = v[i];
        i = i + 1;
    }
    proof {
        assert(r@ =~= v@);
    }
    r
}

/// Decode one hex-encoded 32-byte field.
fn decode_hex32(s: &str) -> (r: Option<[u8; 32]>)
    ensures
        (r is Some) == good_hex32(s@),
        r matches Some(a) ==> a@ == hex_bytes(s@),
{
    match hex_decode(s) {
        Ok(bytes) => {
            if bytes.len() == 32 {
                proof {
                    assert(s@.len() == 64);
                }
                Some(vec_to_arr32(&bytes))
            } else {
                None
            }
        },
        Err(_) => None,
    }
}

/// Does every event string denote a value?
pub open spec fn all_events_good(log: CompactLog) -> bool {
    forall|i: int| 0 <= i < log.events@.len() ==> good_event_str((#[trigger] log.events@[i])@)
}

/// Is every commitment string 64 hex digits?
pub open spec fn all_commitments_good(log: CompactLog) -> bool {
    forall|i: int| 0 <= i < log.commitments@.len() ==> good_hex32((#[trigger] log.commitments@[i])@)
}

/// Does the whole compact log decode?
pub open spec fn compact_log_good(log: CompactLog) -> bool {
    &&& log.v == 1
    &&& all_events_good(log)
    &&& all_commitments_good(log)
    &&& good_hex32(log.player_left_seed@)
    &&& good_hex32(log.player_right_seed@)
}

/// The error a malformed compact log is refused with: the first check that
/// fails, in document order.
pub open spec fn compact_log_error(log: CompactLog) -> LogParseError {
    if log.v != 1 {
        LogParseError::UnsupportedVersion
    } else if !all_events_good(log) {
        LogParseError::BadEvent
    } else if !all_commitments_good(log) {
        LogParseError::BadCommitment
    } else {
        LogParseError::BadSeed
    }
}

/// Decode a compact wire log into a validation input: parse every event
/// string as a Q16.16 value, hex-decode every commitment and both seeds.
/// The first malformed field decides the error.
#[verifier::loop_isolation(false)]
pub fn parse_compact_log(log: &CompactLog) -> (r: Result<ValidateLogInput, LogParseError>)
    ensures
        (r is Ok) == compact_log_good(*log),
        r matches Ok(inp) ==> {
            &&& inp.events@.len() == log.events@.len()
            &&& (forall|i: int|
                0 <= i < log.events@.len() ==> Some((#[trigger] inp.events@[i]) as int)
                    == i64_str_value(log.events@[i]@))
            &&& inp.game_id == log.game_id
            &&& inp.commitments@.len() == log.commitments@.len()
            &&& (forall|i: int|
                0 <= i < log.commitments@.len() ==> (#[trigger] inp.commitments@[i]).0@
                    == hex_bytes(log.commitments@[i]@))
            &&& inp.player_left_seed@ == hex_bytes(log.player_left_seed@)
            &&& inp.player_right_seed@ == hex_bytes(log.player_right_seed@)
        },
        r matches Err(e) ==> e == compact_log_error(*log),
{
    if log.v != 1 {
        return Err(LogParseError::UnsupportedVersion);
    }
    let mut events: Vec<I> = Vec::new();
    let n = log.events.len();
    let mut i: usize = 0;
    while i < n
        invariant
            i <= n,
            n == log.events@.len(),
            events@.len() == i,
            forall|j: int|
                0 <= j < i ==> Some((#[trigger] events@[j]) as int) == i64_str_value(
                    log.events@[j]@,
                ),
        decreases n - i,
    {
        match parse_i64_str(log.events[i].as_str()) {
            Some(v) => {
                events.push(v);
            },
            None => {
                proof {
                    assert(!all_events_good(*log)) by {
                        assert(!good_event_str(log.events@[i as int]@));
                    }
                }
                return Err(LogParseError::BadEvent);
            },
        }
        i = i + 1;
    }
    proof {
        assert(all_events_good(*log)) by {
            assert forall|j: int| 0 <= j < log.events@.len() implies good_event_str(
                (#[trigger] log.events@[j])@,
            ) by {
                assert(Some(events@[j] as int) == i64_str_value(log.events@[j]@));
            }
        }
    }
    let mut commitments: Vec<Commitment32> = Vec::new();
    let m = log.commitments.len();
    let mut k: usize = 0;
    while k < m
        invariant
            k <= m,
            m == log.commitments@.len(),
            commitments@.len() == k,
            forall|j: int|
                0 <= j < k ==> good_hex32((#[trigger] log.commitments@[j])@),
            forall|j: int|
                0 <= j < k ==> (#[trigger] commitments@[j]).0@ == hex_bytes(log.commitments@[j]@),
            all_events_good(*log),
        decreases m - k,
    {
        match decode_hex32(log.commitments[k].as_str()) {
            Some(arr) => {
                commitments.push(Commitment32(arr));
            },
            None => {
                proof {
                    assert(!all_commitments_good(*log)) by {
                        assert(!good_hex32(log.commitments@[k as int]@));
                    }
                }
                return Err(LogParseError::BadCommitment);
            },
        }
        k = k + 1;
    }
    proof {
        assert(all_commitments_good(*log)) by {
            assert forall|j: int|
                0 <= j < log.commitments@.len() implies good_hex32(
                (#[trigger] log.commitments@[j])@,
            ) by {
            }
        }
    }
    let left_seed = match decode_hex32(log.player_left_seed.as_str()) {
        Some(a) => a,
        None => {
            return Err(LogParseError::BadSeed);
        },
    };
    let right_seed = match decode_hex32(log.player_right_seed.as_str()) {
        Some(a) => a,
        None => {
            return Err(LogParseError::BadSeed);
        },
    };
    Ok(
        ValidateLogInput {
            events,
            game_id: log.game_id,
            commitments,
            player_left_seed: left_seed,
            player_right_seed: right_seed,
        },
    )
}

} // verus!
