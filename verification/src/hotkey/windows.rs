//! Windows talk keys, polled every ten milliseconds.
//!
//! Bare modifier keys cannot be registered as hot keys, so their state is
//! polled.

use super::TalkEdge;
use crate::chars::str_eq;
use vstd::prelude::*;
use vstd::string::*;

verus! {

/// The virtual-key code of a single talk key.
pub open spec fn code(key: Seq<char>) -> Option<i32> {
    if key == "LeftCtrl"@ {
        Some(0xA2)
    } else if key == "RightCtrl"@ {
        Some(0xA3)
    } else if key == "LeftAlt"@ {
        Some(0xA4)
    } else if key == "RightAlt"@ {
        Some(0xA5)
    } else if key == "LeftWin"@ {
        Some(0x5B)
    } else if key == "RightWin"@ {
        Some(0x5C)
    } else if key == "ScrollLock"@ {
        Some(0x91)
    } else if key == "F9"@ {
        Some(0x78)
    } else {
        None
    }
}

/// Virtual-key code for a talk key, or `None` for the combo.
pub fn hotkey_vk(key: &str) -> (r: Option<i32>)
    ensures
        r == code(key@),
{
    if str_eq(key, "LeftCtrl") {
        Some(0xA2)
    } else if str_eq(key, "RightCtrl") {
        Some(0xA3)
    } else if str_eq(key, "LeftAlt") {
        Some(0xA4)
    } else if str_eq(key, "RightAlt") {
        Some(0xA5)
    } else if str_eq(key, "LeftWin") {
        Some(0x5B)
    } else if str_eq(key, "RightWin") {
        Some(0x5C)
    } else if str_eq(key, "ScrollLock") {
        Some(0x91)
    } else if str_eq(key, "F9") {
        Some(0x78)
    } else {
        None
    }
}

/// The codes of a talk key: one, or two for `CtrlWin`.
pub open spec fn codes(key: Seq<char>) -> Option<Seq<i32>> {
    if key == "CtrlWin"@ {
        Some(seq![0xA2i32, 0x5Bi32])
    } else {
        match code(key) {
            Some(c) => Some(seq![c]),
            None => None,
        }
    }
}

pub fn hotkey_vks(key: &str) -> (r: Option<Vec<i32>>)
    ensures
        (match r {
            Some(v) => Some(v@),
            None => None,
        }) == codes(key@),
{
    let mut v: Vec<i32> = Vec::new();
    if str_eq(key, "CtrlWin") {
        v.push(0xA2);
        v.push(0x5B);
        assert(v@ =~= seq![0xA2i32, 0x5Bi32]);
        return Some(v);
    }
    match hotkey_vk(key) {
        Some(c) => {
            v.push(c);
            assert(v@ =~= seq![c]);
            Some(v)
        },
        None => None,
    }
}

/// Edges closer than this are bounces.
pub const BOUNCE_NS: u64 = 30_000_000;

/// What the poll remembers. Times are in nanoseconds.
#[derive(Debug)]
pub struct PollState {
    pub was_down: bool,
    pub was_esc: bool,
    pub last_change: u64,
    pub last_esc: u64,
    /// The state of each key at the poll before.
    pub prev_keys: Vec<u8>,
}

/// What one poll reports, in this order.
#[derive(Debug, Clone, Copy, PartialEq, Eq, Structural)]
pub struct PollEdges {
    pub escape: bool,
    pub talk: Option<TalkEdge>,
    pub cancel: bool,
}

/// Whether a key is down in a snapshot.
pub open spec fn is_down(b: u8) -> bool {
    b >= 128
}

/// Whether key `i` went down and is neither a talk key nor a mouse button.
pub open spec fn intrudes(vks: Seq<i32>, prev: Seq<u8>, cur: Seq<u8>, i: int) -> bool {
    &&& !vks.contains(i as i32)
    &&& !(1 <= i <= 6)
    &&& is_down(cur[i])
    &&& !is_down(prev[i])
}

/// Whether any key intrudes.
pub open spec fn has_intruder(vks: Seq<i32>, prev: Seq<u8>, cur: Seq<u8>) -> bool {
    exists|i: int| 0 <= i < cur.len() && #[trigger] intrudes(vks, prev, cur, i)
}

fn find_intruder(vks: &Vec<i32>, prev: &Vec<u8>, cur: &Vec<u8>) -> (r: bool)
    requires
        prev@.len() == 256,
        cur@.len() == 256,
    ensures
        r == has_intruder(vks@, prev@, cur@),
{
    let mut i: usize = 0;
    while i < cur.len()
        invariant
            i <= cur.len(),
            prev@.len() == 256,
            cur@.len() == 256,
            forall|k: int| 0 <= k < i ==> !(#[trigger] intrudes(vks@, prev@, cur@, k)),
        decreases cur.len() - i,
    {
        let mut ours = false;
        let mut j: usize = 0;
        while j < vks.len()
            invariant
                j <= vks.len(),
                i < 256,
                ours == vks@.take(j as int).contains(i as i32),
            decreases vks.len() - j,
        {
            assert(vks@.take(j + 1) =~= vks@.take(j as int).push(vks@[j as int]));
            if vks[j] == i as i32 {
                ours = true;
                assert(vks@.take(j + 1)[j as int] == i as i32);
            } else {
                assert(vks@.take(j + 1).contains(i as i32) == vks@.take(j as int).contains(
                    i as i32,
                )) by {
                    if vks@.take(j as int).contains(i as i32) {
                        let m = choose|m: int|
                            0 <= m < j && vks@.take(j as int)[m] == i as i32;
                        assert(vks@.take(j + 1)[m] == i as i32);
                    }
                }
            }
            if ours {
                assert(vks@.take(j + 1).contains(i as i32)) by {
                    if vks@[j as int] != i as i32 {
                        let m = choose|m: int|
                            0 <= m < j && vks@.take(j as int)[m] == i as i32;
                        assert(vks@.take(j + 1)[m] == i as i32);
                    }
                }
            }
            j += 1;
        }
        assert(vks@.take(j as int) =~= vks@);
        if !ours && !(1 <= i && i <= 6) && cur[i] >= 128 && prev[i] < 128 {
            assert(intrudes(vks@, prev@, cur@, i as int));
            return true;
        }
        assert(!intrudes(vks@, prev@, cur@, i as int));
        i += 1;
    }
    false
}

/// Whether Esc is reported: it went down during a take.
pub open spec fn sees_escape(s: PollState, recording: bool, esc: bool, now: u64) -> bool {
    recording && esc && !s.was_esc && now - s.last_esc > BOUNCE_NS
}

/// Whether the talk key changed.
pub open spec fn sees_change(s: PollState, down: bool, now: u64) -> bool {
    down != s.was_down && now - s.last_change > BOUNCE_NS
}

/// What a poll reports.
pub open spec fn edges_of(
    s: PollState,
    vks: Option<Seq<i32>>,
    down: bool,
    recording: bool,
    esc: bool,
    cur: Seq<u8>,
    now: u64,
) -> PollEdges {
    let changed = vks is Some && sees_change(s, down, now);
    PollEdges {
        escape: sees_escape(s, recording, esc, now),
        talk: if !changed {
            None
        } else if down {
            Some(TalkEdge::Pressed)
        } else {
            Some(TalkEdge::Released)
        },
        cancel: vks is Some && (if changed {
            down
        } else {
            s.was_down
        }) && has_intruder(vks->0, s.prev_keys@, cur),
    }
}

/// One poll. `vks` are the codes of the talk key, `down` says whether all of
/// them are down, `esc` whether Esc is, and `cur` is the state of each key.
pub fn poll_step(
    s: &mut PollState,
    vks: &Option<Vec<i32>>,
    down: bool,
    recording: bool,
    esc: bool,
    cur: Vec<u8>,
    now: u64,
) -> (r: PollEdges)
    requires
        old(s).prev_keys@.len() == 256,
        cur@.len() == 256,
        old(s).last_change <= now,
        old(s).last_esc <= now,
    ensures
        r == edges_of(
            *old(s),
            match *vks {
                Some(v) => Some(v@),
                None => None,
            },
            down,
            recording,
            esc,
            cur@,
            now,
        ),
        final(s).prev_keys@ == cur@,
        final(s).was_esc == (recording && esc),
        r.escape == sees_escape(*old(s), recording, esc, now),
        final(s).last_esc == (if r.escape {
            now
        } else {
            old(s).last_esc
        }),
        vks is None ==> !final(s).was_down && r.talk is None && !r.cancel && final(s).last_change
            == old(s).last_change,
        vks matches Some(v) ==> {
            let changed = sees_change(*old(s), down, now);
            &&& final(s).was_down == (if changed {
                down
            } else {
                old(s).was_down
            })
            &&& final(s).last_change == (if changed {
                now
            } else {
                old(s).last_change
            })
            &&& r.talk == (if changed {
                Some(
                    if down {
                        TalkEdge::Pressed
                    } else {
                        TalkEdge::Released
                    },
                )
            } else {
                None
            })
            &&& r.cancel == (final(s).was_down && has_intruder(v@, old(s).prev_keys@, cur@))
        },
{
    let mut escape = false;
    if recording {
        if esc && !s.was_esc && now - s.last_esc > BOUNCE_NS {
            s.last_esc = now;
            escape = true;
        }
        s.was_esc = esc;
    } else {
        s.was_esc = false;
    }
    let mut talk: Option<TalkEdge> = None;
    let mut cancel = false;
    match vks {
        None => {
            s.was_down = false;
        },
        Some(v) => {
            if down != s.was_down && now - s.last_change > BOUNCE_NS {
                s.was_down = down;
                s.last_change = now;
                talk = Some(
                    if down {
                        TalkEdge::Pressed
                    } else {
                        TalkEdge::Released
                    },
                );
            }
            if s.was_down {
                cancel = find_intruder(v, &s.prev_keys, &cur);
            }
        },
    }
    s.prev_keys = cur;
    PollEdges { escape, talk, cancel }
}

} // verus!
