//! The game's tunable constants.  Durations are in nanoseconds, the unit in
//! which the library keeps its timestamps.

use vstd::prelude::*;

verus! {

/// How long a member must rest between two coin tricks: four hours.
pub const TIME_BETWEEN_TRICKS: u64 = 14_400_000_000_000;

/// How often the CowardCoin Bank's holdings drift: every hour.
pub const MARKET_CHANGE_TIMER: u64 = 3_600_000_000_000;

/// How long a member must wait between two investments: ten minutes.
pub const INVESTMENT_TIMER: u64 = 600_000_000_000;

/// The bot's own account, which holds the CowardCoin Bank.
pub const BOT_ID: u64 = 813814751192809543;

/// The shortest wait, in seconds, before a new coin appears.
pub const COIN_MIN_TIME: u64 = 900;

/// The longest wait (exclusive), in seconds, before a new coin appears.
pub const COIN_MAX_TIME: u64 = 1500;

/// Nanoseconds in a second.
pub const NANOS_PER_SECOND: u64 = 1_000_000_000;

} // verus!
