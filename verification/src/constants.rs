//! The game's timings.

use vstd::prelude::*;

verus! {

/// Nanoseconds in a second.
pub const NANOS_PER_SEC: u64 = 1_000_000_000;

/// Length of a round, in seconds.
pub const GAME_DURATION_SECS: u64 = 30;

/// Length of a round, in nanoseconds.
pub const GAME_DURATION_NANOS: u64 = GAME_DURATION_SECS * NANOS_PER_SEC;

/// How long a mole stays up before it disappears on its own, in nanoseconds.
pub const MOLE_LIFETIME_NANOS: u64 = 1_000_000_000;

/// How often a new mole pops up during a round, in nanoseconds.
pub const MOLE_SPAWN_INTERVAL_NANOS: u64 = 1_000_000_000;

} // verus!
