//! What the edges of the talk key do to the take.

use super::TalkEdge;
use crate::chars::str_eq;
use vstd::prelude::*;
use vstd::string::*;

verus! {

/// What is done next.
#[derive(Debug, Clone, Copy, PartialEq, Eq, Structural)]
pub enum TalkAction {
    /// Start a take that the talk key owns.
    Start,
    /// Stop the live take and transcribe it.
    Stop,
    /// Throw the live take away.
    Cancel,
    Nothing,
}

/// Two taps closer than this start a take in the double-tap mode.
pub const DOUBLE_TAP_NS: u64 = 500_000_000;

/// How the talk key works.
#[derive(Debug, Clone, Copy, PartialEq, Eq, Structural)]
pub enum TalkMode {
    /// Down starts, up stops.
    Hold,
    /// Down starts and down stops.
    Toggle,
    /// Two taps start, down stops.
    DoubleTap,
    /// A mode of another name: down starts.
    Unknown,
}

/// The mode of a name.
pub open spec fn mode_named(s: Seq<char>) -> TalkMode {
    if s == "hold"@ {
        TalkMode::Hold
    } else if s == "toggle"@ {
        TalkMode::Toggle
    } else if s == "double_tap"@ {
        TalkMode::DoubleTap
    } else {
        TalkMode::Unknown
    }
}

pub fn talk_mode(s: &str) -> (r: TalkMode)
    ensures
        r == mode_named(s@),
{
    if str_eq(s, "hold") {
        TalkMode::Hold
    } else if str_eq(s, "toggle") {
        TalkMode::Toggle
    } else if str_eq(s, "double_tap") {
        TalkMode::DoubleTap
    } else {
        TalkMode::Unknown
    }
}

/// The take, as the talk key sees it.
#[derive(Debug, Clone, Copy, PartialEq, Eq, Structural)]
pub struct TalkState {
    pub recording: bool,
    /// The talk key started the take.
    pub owned: bool,
    /// When the key came up without a take, in nanoseconds.
    pub last_tap_end: Option<u64>,
}

/// Whether a press makes a double tap.
pub open spec fn is_double(last_tap_end: Option<u64>, now: u64) -> bool {
    last_tap_end matches Some(t) && now < t + DOUBLE_TAP_NS
}

/// What an edge does, and the last tap after it.
pub open spec fn on_edge(
    edge: TalkEdge,
    mode: TalkMode,
    s: TalkState,
    now: u64,
) -> (TalkAction, Option<u64>) {
    match edge {
        TalkEdge::Pressed => match mode {
            TalkMode::Toggle => if s.recording {
                (TalkAction::Stop, s.last_tap_end)
            } else {
                (TalkAction::Start, s.last_tap_end)
            },
            TalkMode::DoubleTap => if s.recording {
                (TalkAction::Stop, None)
            } else if is_double(s.last_tap_end, now) {
                (TalkAction::Start, None)
            } else {
                (TalkAction::Nothing, s.last_tap_end)
            },
            _ => if s.recording {
                (TalkAction::Nothing, s.last_tap_end)
            } else {
                (TalkAction::Start, s.last_tap_end)
            },
        },
        TalkEdge::Released => match mode {
            TalkMode::Hold => if s.recording && s.owned {
                (TalkAction::Stop, s.last_tap_end)
            } else {
                (TalkAction::Nothing, s.last_tap_end)
            },
            TalkMode::DoubleTap => if s.recording {
                (TalkAction::Nothing, s.last_tap_end)
            } else {
                (TalkAction::Nothing, Some(now))
            },
            _ => (TalkAction::Nothing, s.last_tap_end),
        },
        TalkEdge::Cancel => if s.recording && s.owned {
            (TalkAction::Cancel, s.last_tap_end)
        } else {
            (TalkAction::Nothing, s.last_tap_end)
        },
        TalkEdge::Escape => if s.recording {
            (TalkAction::Cancel, s.last_tap_end)
        } else {
            (TalkAction::Nothing, s.last_tap_end)
        },
    }
}

/// Decides what an edge of the talk key does. The last tap lies in the past.
pub fn talk_step(edge: TalkEdge, mode: TalkMode, s: TalkState, now: u64) -> (r: (
    TalkAction,
    Option<u64>,
))
    requires
        s.last_tap_end matches Some(t) ==> t <= now,
    ensures
        r == on_edge(edge, mode, s, now),
{
    match edge {
        TalkEdge::Pressed => match mode {
            TalkMode::Toggle => (
                if s.recording {
                    TalkAction::Stop
                } else {
                    TalkAction::Start
                },
                s.last_tap_end,
            ),
            TalkMode::DoubleTap => {
                if s.recording {
                    return (TalkAction::Stop, None);
                }
                let double = match s.last_tap_end {
                    Some(t) => now - t < DOUBLE_TAP_NS,
                    None => false,
                };
                if double {
                    (TalkAction::Start, None)
                } else {
                    (TalkAction::Nothing, s.last_tap_end)
                }
            },
            _ => (
                if s.recording {
                    TalkAction::Nothing
                } else {
                    TalkAction::Start
                },
                s.last_tap_end,
            ),
        },
        TalkEdge::Released => match mode {
            TalkMode::Hold => (
                if s.recording && s.owned {
                    TalkAction::Stop
                } else {
                    TalkAction::Nothing
                },
                s.last_tap_end,
            ),
            TalkMode::DoubleTap => (
                TalkAction::Nothing,
                if s.recording {
                    s.last_tap_end
                } else {
                    Some(now)
                },
            ),
            _ => (TalkAction::Nothing, s.last_tap_end),
        },
        TalkEdge::Cancel => (
            if s.recording && s.owned {
                TalkAction::Cancel
            } else {
                TalkAction::Nothing
            },
            s.last_tap_end,
        ),
        TalkEdge::Escape => (
            if s.recording {
                TalkAction::Cancel
            } else {
                TalkAction::Nothing
            },
            s.last_tap_end,
        ),
    }
}

/// The state after an action that worked.
pub open spec fn done(action: TalkAction, last_tap_end: Option<u64>, s: TalkState) -> TalkState {
    match action {
        TalkAction::Start => TalkState { recording: true, owned: true, last_tap_end },
        TalkAction::Stop | TalkAction::Cancel => TalkState {
            recording: false,
            owned: false,
            last_tap_end,
        },
        TalkAction::Nothing => TalkState { last_tap_end, ..s },
    }
}

/// Whatever the edge, a take starts only where none is live, and stops or is
/// thrown away only where one is.
pub proof fn lemma_actions_fit(edge: TalkEdge, mode: TalkMode, s: TalkState, now: u64)
    ensures
        ({
            let a = on_edge(edge, mode, s, now).0;
            &&& a == TalkAction::Start ==> !s.recording && edge == TalkEdge::Pressed
            &&& (a == TalkAction::Stop || a == TalkAction::Cancel) ==> s.recording
            &&& a == TalkAction::Cancel ==> edge == TalkEdge::Cancel || edge == TalkEdge::Escape
        }),
{
}

/// A take that was started elsewhere is not stopped by the key coming up, nor
/// thrown away by another key going down.
pub proof fn lemma_foreign_takes_are_safe(mode: TalkMode, s: TalkState, now: u64)
    requires
        !s.owned,
    ensures
        on_edge(TalkEdge::Released, mode, s, now).0 == TalkAction::Nothing,
        on_edge(TalkEdge::Cancel, mode, s, now).0 == TalkAction::Nothing,
{
}

/// Esc throws any live take away, in every mode.
pub proof fn lemma_escape_discards(mode: TalkMode, s: TalkState, now: u64)
    requires
        s.recording,
    ensures
        on_edge(TalkEdge::Escape, mode, s, now).0 == TalkAction::Cancel,
{
}

/// In the hold mode, down starts a take and up transcribes it.
pub proof fn lemma_hold(s: TalkState, down: u64, up: u64)
    requires
        !s.recording,
    ensures
        ({
            let a = on_edge(TalkEdge::Pressed, TalkMode::Hold, s, down);
            let t = done(a.0, a.1, s);
            let b = on_edge(TalkEdge::Released, TalkMode::Hold, t, up);
            a.0 == TalkAction::Start && b.0 == TalkAction::Stop
        }),
{
}

/// In the toggle mode, each press turns the take on or off, and the key coming
/// up does nothing.
pub proof fn lemma_toggle(s: TalkState, now: u64)
    ensures
        ({
            let a = on_edge(TalkEdge::Pressed, TalkMode::Toggle, s, now);
            done(a.0, a.1, s).recording == !s.recording
        }),
        on_edge(TalkEdge::Released, TalkMode::Toggle, s, now) == (
            TalkAction::Nothing,
            s.last_tap_end,
        ),
{
}

/// In the double-tap mode, a press starts a take exactly where the key came up
/// less than half a second before.
pub proof fn lemma_double_tap(s: TalkState, up: u64, down: u64)
    requires
        !s.recording,
        up <= down,
    ensures
        ({
            let a = on_edge(TalkEdge::Released, TalkMode::DoubleTap, s, up);
            let t = done(a.0, a.1, s);
            let b = on_edge(TalkEdge::Pressed, TalkMode::DoubleTap, t, down);
            a.0 == TalkAction::Nothing && (b.0 == TalkAction::Start <==> down - up
                < DOUBLE_TAP_NS)
        }),
{
}

} // verus!
