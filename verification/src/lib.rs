//! Deterministic replay validation for a two-player paddle game.
//!
//! Two untrusted parties submit a log of claimed paddle positions together
//! with per-move commitments and revealed seeds; the validator re-simulates
//! the canonical integer-only physics and returns a fairness verdict bound
//! to a content hash of the log.  Everything the verdict depends on --
//! fixed-point arithmetic, trigonometry, reflection, commitment checks and
//! the replay itself -- is specified and proved here; only the hash
//! function and the hex alphabet are taken from outside crates through
//! narrow trusted contracts.

pub mod commit;
pub mod constants;
pub mod fixed;
pub mod fixed_wide;
pub mod hashing;
pub mod laws;
pub mod parse;
pub mod physics;
pub mod types;
pub mod validator;

pub use commit::{bytes32_eq, count_zero_bytes, verify_commitments};
pub use fixed::{
    clamp_paddle_y, deg_to_rad_fixed, i_abs, i_div, i_max, i_min, i_mul, reflect1d, to_fixed_int,
    Fault, I, PI_Q16,
};
pub use hashing::{compute_commitment, compute_log_hash};
pub use parse::{parse_compact_log, LogParseError};
pub use physics::{bounce, cordic_sin_cos, serve, FixState};
pub use types::{
    Commitment32, CompactLog, ConfigInts, ReceiptKind, ValidateLogInput, ValidateLogOutput,
};
pub use validator::{validate_log, Reason};
