//! Data types of the validation interface.

use crate::fixed::I;
use vstd::prelude::*;

verus! {

/// A 32-byte commitment binding one claimed paddle position to a player
/// seed and event index.
#[derive(Clone)]
pub struct Commitment32(pub [u8; 32]);

impl Commitment32 {
    /// The raw commitment bytes.
    pub fn as_bytes(&self) -> (r: &[u8])
        ensures
            r@ == self.0@,
    {
        &self.0
    }
}

/// Input of a validation run: the claimed event log, the game identifier,
/// one commitment per scalar paddle reading, and the two revealed player
/// seeds.
pub struct ValidateLogInput {
    /// Claimed paddle positions, alternating left and right, in Q16.16.
    pub events: Vec<I>,
    /// Unique game identifier; it feeds the serve-angle derivation, so
    /// serves differ between games.
    pub game_id: u32,
    /// One commitment per event value, covering seed, index and value.
    pub commitments: Vec<Commitment32>,
    /// Revealed 32-byte seed of the left player.
    pub player_left_seed: [u8; 32],
    /// Revealed 32-byte seed of the right player.
    pub player_right_seed: [u8; 32],
}

/// Output of a validation run: the fairness verdict with an optional reason,
/// both scores, the processed event count, the binding hash of the log and
/// the game identifier.  Every rejection carries zeroed scores and hash.
#[derive(Debug)]
pub struct ValidateLogOutput {
    pub fair: bool,
    pub reason: Option<String>,
    pub left_score: u32,
    pub right_score: u32,
    pub events_len: u32,
    pub log_hash_sha256: [u8; 32],
    pub game_id: u32,
}

impl ValidateLogOutput {
    /// A fair verdict carrying the real scores, event count and log hash.
    pub fn ok(left: u32, right: u32, events_len: u32, hash: [u8; 32], game_id: u32) -> (r: Self)
        ensures
            r.fair == true,
            r.reason is None,
            r.left_score == left,
            r.right_score == right,
            r.events_len == events_len,
            r.log_hash_sha256@ == hash@,
            r.game_id == game_id,
    {
        Self {
            fair: true,
            reason: None,
            left_score: left,
            right_score: right,
            events_len,
            log_hash_sha256: hash,
            game_id,
        }
    }

    /// An unfair verdict carrying the given reason and zeroed numeric and
    /// hash fields: a rejected log discloses nothing else.
    pub fn invalid(msg: &str) -> (r: Self)
        ensures
            r.fair == false,
            r.reason matches Some(s) && s@ == msg@,
            r.left_score == 0,
            r.right_score == 0,
            r.events_len == 0,
            r.log_hash_sha256@ == Seq::<u8>::new(32, |i: int| 0u8),
            r.game_id == 0,
    {
        let hash = [0u8; 32];
        proof {
            assert(hash@ =~= Seq::<u8>::new(32, |i: int| 0u8));
        }
        Self {
            fair: false,
            reason: Some(msg.to_string()),
            left_score: 0,
            right_score: 0,
            events_len: 0,
            log_hash_sha256: hash,
            game_id: 0,
        }
    }
}

/// Game configuration as plain integers.  The validator's built-in defaults
/// are one fixed instance of this shape; a well-formed configuration keeps
/// every distance and speed positive and demands at least one point to win.
#[derive(Clone, Copy, Debug, PartialEq, Eq, Structural)]
pub struct ConfigInts {
    pub seed: u32,
    pub width: i32,
    pub height: i32,
    pub paddle_height: i32,
    pub paddle_width: i32,
    pub paddle_margin: i32,
    pub ball_radius: i32,
    pub paddle_max_speed: i32,
    pub serve_speed: i32,
    pub speed_increment: i32,
    pub max_bounce_angle_deg: i32,
    pub serve_max_angle_deg: i32,
    pub points_to_win: u32,
    pub micro_jitter_milli_deg: i32,
    pub ai_offset_max_permille: i32,
}

impl ConfigInts {
    /// Invariant of a usable configuration: positive distances and speeds,
    /// at least one point to win.
    pub open spec fn well_formed(self) -> bool {
        &&& self.width > 0
        &&& self.height > 0
        &&& self.paddle_height > 0
        &&& self.paddle_width > 0
        &&& self.paddle_margin > 0
        &&& self.ball_radius > 0
        &&& self.paddle_max_speed > 0
        &&& self.serve_speed > 0
        &&& self.speed_increment > 0
        &&& self.max_bounce_angle_deg > 0
        &&& self.points_to_win >= 1
    }

    /// Check the configuration invariant.
    pub fn is_valid(&self) -> (r: bool)
        ensures
            r == self.well_formed(),
    {
        self.width > 0 && self.height > 0 && self.paddle_height > 0 && self.paddle_width > 0
            && self.paddle_margin > 0 && self.ball_radius > 0 && self.paddle_max_speed > 0
            && self.serve_speed > 0 && self.speed_increment > 0 && self.max_bounce_angle_deg > 0
            && self.points_to_win >= 1
    }
}

impl Default for ConfigInts {
    /// The built-in configuration the validator replays against.
    fn default() -> (r: Self)
        ensures
            r == crate::constants::default_config(),
            r.well_formed(),
    {
        Self {
            seed: 0,
            width: 800,
            height: 480,
            paddle_height: 80,
            paddle_width: 10,
            paddle_margin: 16,
            ball_radius: 6,
            paddle_max_speed: 200,
            serve_speed: 500,
            speed_increment: 50,
            max_bounce_angle_deg: 60,
            serve_max_angle_deg: 60,
            points_to_win: 3,
            micro_jitter_milli_deg: 0,
            ai_offset_max_permille: 0,
        }
    }
}

/// The compact wire form of a game log, as read from a versioned document:
/// every numeric or binary field still carried as text.
pub struct CompactLog {
    /// Format version; only version 1 is supported.
    pub v: u32,
    /// Paddle positions as decimal Q16.16 strings.
    pub events: Vec<String>,
    /// Game identifier.
    pub game_id: u32,
    /// Hex-encoded 32-byte commitments, one per event value.
    pub commitments: Vec<String>,
    /// Hex-encoded 32-byte seed of the left player.
    pub player_left_seed: String,
    /// Hex-encoded 32-byte seed of the right player.
    pub player_right_seed: String,
}

/// The receipt flavours a proving backend can produce for a validation run.
#[derive(Clone, Copy, Debug, PartialEq, Eq, Structural)]
pub enum ReceiptKind {
    /// Fastest to generate, largest in size.
    Composite,
    /// A succinct proof of medium size.
    Succinct,
    /// The smallest proof, slowest to generate.
    Groth16,
}

impl ReceiptKind {
    /// The lower-case name of the receipt kind.
    pub fn label(&self) -> (r: &'static str)
        ensures
            self is Composite ==> r@ == "composite"@,
            self is Succinct ==> r@ == "succinct"@,
            self is Groth16 ==> r@ == "groth16"@,
    {
        match self {
            ReceiptKind::Composite => "composite",
            ReceiptKind::Succinct => "succinct",
            ReceiptKind::Groth16 => "groth16",
        }
    }
}

impl Default for ReceiptKind {
    /// The balanced default choice.
    fn default() -> (r: Self)
        ensures
            r is Succinct,
    {
        ReceiptKind::Succinct
    }
}

} // verus!
