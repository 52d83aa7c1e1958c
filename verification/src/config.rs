//! What the user can set.

use vstd::prelude::*;

use crate::binary64::Binary64;

verus! {

/// How a recording is cut, and how long the finished video should be.
#[derive(Debug, Clone, Copy, PartialEq, Eq, Structural)]
pub struct VideoConfig {
    /// How many standard deviations below the mean volume a sample has to be to count as quiet.
    pub silence_threshold: Binary64,
    /// How long a silence has to last to be a long one, in microseconds.
    pub silence_time: i64,
    /// What a long silence is divided by when a noise goes on.
    pub silence_degrade: Binary64,
    /// How long the finished video should be, in microseconds.
    pub time_limit: i64,
}

/// What is set before the user has a say: one standard deviation, one second, a factor of 1.1, and
/// fifteen seconds.
pub open spec fn initial_config() -> VideoConfig {
    VideoConfig {
        silence_threshold: Binary64 { bits: 0x3ff0_0000_0000_0000 },
        silence_time: 1_000_000,
        silence_degrade: Binary64 { bits: 0x3ff1_9999_9999_999a },
        time_limit: 15_000_000,
    }
}

impl VideoConfig {
    /// What is set before the user has a say.
    pub fn initial() -> (r: VideoConfig)
        ensures
            r == initial_config(),
    {
        VideoConfig {
            silence_threshold: Binary64::from_bits(0x3ff0_0000_0000_0000),
            silence_time: 1_000_000,
            silence_degrade: Binary64::from_bits(0x3ff1_9999_9999_999a),
            time_limit: 15_000_000,
        }
    }
}

} // verus!
