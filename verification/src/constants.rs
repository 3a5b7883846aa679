//! Game configuration constants.  The replay is fully deterministic; every
//! value here must match the simulation that produced the log exactly.

use crate::types::ConfigInts;
use vstd::prelude::*;

verus! {

/// Game board width (pixels).
pub const WIDTH: i32 = 800;

/// Game board height (pixels).
pub const HEIGHT: i32 = 480;

/// Paddle height (pixels).
pub const PADDLE_HEIGHT: i32 = 80;

/// Paddle width (pixels).
pub const PADDLE_WIDTH: i32 = 10;

/// Paddle margin from the board edge (pixels).
pub const PADDLE_MARGIN: i32 = 16;

/// Ball radius (pixels).
pub const BALL_RADIUS: i32 = 6;

/// Maximum paddle speed (pixels per second).
pub const PADDLE_MAX_SPEED: i32 = 200;

/// Initial serve speed (pixels per second).
pub const SERVE_SPEED: i32 = 500;

/// Speed increment per bounce (pixels per second).
pub const SPEED_INCREMENT: i32 = 50;

/// Maximum bounce angle off a paddle (degrees).
pub const MAX_BOUNCE_ANGLE_DEG: i32 = 60;

/// Points needed to win the game.
pub const POINTS_TO_WIN: u32 = 3;

/// Count of possible serve angles (every whole degree in the bounce range).
pub const ANGLE_RANGE: i32 = 121;

/// Multiplier of the deterministic serve-angle derivation; coprime with the
/// angle range for an even spread.
pub const SERVE_ANGLE_MULTIPLIER: i32 = 37;

/// Initial serve direction: +1 serves toward the right player.
pub const INITIAL_SERVE_DIRECTION: i32 = 1;

/// Maximum number of events allowed in a game log.
pub const MAX_EVENTS: u32 = 10000;

/// The built-in configuration, as one value of the configuration shape.
pub open spec fn default_config() -> ConfigInts {
    ConfigInts {
        seed: 0,
        width: 800,
        height: 480,
        paddle_height: 80,
        paddle_width: 10,
        paddle_margin: 16,
        ball_radius: 6,
        paddle_max_speed: 200,
        serve_speed: 500,
        speed_increment: 50,
        max_bounce_angle_deg: 60,
        serve_max_angle_deg: 60,
        points_to_win: 3,
        micro_jitter_milli_deg: 0,
        ai_offset_max_permille: 0,
    }
}

} // verus!
