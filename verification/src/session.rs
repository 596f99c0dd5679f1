//! The 19 and 20 minute recording policy.
//!
//! Always warns at 19:00. Stops at 20:00 where the cap is on.

use vstd::prelude::*;

verus! {

pub const WARN_SECS: u64 = 1140;

pub const CAP_SECS: u64 = 1200;

#[derive(Debug, Clone, Copy, PartialEq, Eq, Structural)]
pub enum SessionTick {
    Nothing,
    Warn,
    Cap,
}

/// What the live ticker does after `elapsed_ms` milliseconds.
pub open spec fn tick_at(elapsed_ms: int, already_warned: bool, cap_enabled: bool) -> SessionTick {
    if elapsed_ms >= CAP_SECS * 1000 && cap_enabled {
        SessionTick::Cap
    } else if elapsed_ms >= WARN_SECS * 1000 && !already_warned {
        SessionTick::Warn
    } else {
        SessionTick::Nothing
    }
}

/// Decides what the live ticker does this interval.
pub fn session_tick(elapsed_ms: u64, already_warned: bool, cap_enabled: bool) -> (r: SessionTick)
    ensures
        r == tick_at(elapsed_ms as int, already_warned, cap_enabled),
{
    if elapsed_ms >= CAP_SECS * 1000 && cap_enabled {
        return SessionTick::Cap;
    }
    if elapsed_ms >= WARN_SECS * 1000 && !already_warned {
        return SessionTick::Warn;
    }
    SessionTick::Nothing
}

/// After the warning there is no second one, and without the cap nothing stops.
pub proof fn lemma_warned_once(elapsed_ms: int, cap_enabled: bool)
    ensures
        tick_at(elapsed_ms, true, cap_enabled) != SessionTick::Warn,
        tick_at(elapsed_ms, true, false) == SessionTick::Nothing,
        tick_at(elapsed_ms, false, false) != SessionTick::Cap,
{
}

} // verus!
