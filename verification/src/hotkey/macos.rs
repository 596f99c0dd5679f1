//! macOS talk keys, out of the events of a session tap.

use super::TalkEdge;
use crate::chars::str_eq;
use vstd::prelude::*;
use vstd::string::*;

verus! {

/// Carbon virtual key codes.
pub const VK_FN: i64 = 63;

pub const VK_LEFT_CMD: i64 = 55;

pub const VK_RIGHT_CMD: i64 = 54;

pub const VK_LEFT_CTRL: i64 = 59;

pub const VK_RIGHT_CTRL: i64 = 62;

pub const VK_LEFT_OPT: i64 = 58;

pub const VK_RIGHT_OPT: i64 = 61;

pub const VK_F9: i64 = 0x65;

pub const VK_ESC: i64 = 53;

pub const VK_F19: i64 = 0x50;

pub const FN_MASK: u64 = 0x0080_0000;

pub const CTRL_MASK: u64 = 0x0004_0000;

pub const CMD_MASK: u64 = 0x0010_0000;

pub const ALT_MASK: u64 = 0x0008_0000;

pub const FLAGS_CHANGED: u32 = 12;

pub const KEY_DOWN: u32 = 10;

pub const KEY_UP: u32 = 11;

pub const TAP_DISABLED_TIMEOUT: u32 = 0xFFFF_FFFE;

pub const TAP_DISABLED_USER: u32 = 0xFFFF_FFFF;

/// The codes of a talk key.
pub open spec fn codes(key: Seq<char>) -> Option<Seq<i64>> {
    if key == "Fn"@ || key == "FnCtrl"@ {
        Some(seq![VK_FN])
    } else if key == "LeftCtrl"@ {
        Some(seq![VK_LEFT_CTRL])
    } else if key == "RightCtrl"@ {
        Some(seq![VK_RIGHT_CTRL])
    } else if key == "LeftAlt"@ {
        Some(seq![VK_LEFT_OPT])
    } else if key == "RightAlt"@ {
        Some(seq![VK_RIGHT_OPT])
    } else if key == "LeftWin"@ || key == "LeftCmd"@ {
        Some(seq![VK_LEFT_CMD])
    } else if key == "RightWin"@ || key == "RightCmd"@ {
        Some(seq![VK_RIGHT_CMD])
    } else if key == "CtrlWin"@ || key == "CtrlCmd"@ {
        Some(seq![VK_LEFT_CTRL, VK_LEFT_CMD])
    } else if key == "F9"@ {
        Some(seq![VK_F9])
    } else {
        None
    }
}

fn one(code: i64) -> (r: Option<Vec<i64>>)
    ensures
        r matches Some(v) && v@ == seq![code],
{
    let mut v: Vec<i64> = Vec::new();
    v.push(code);
    assert(v@ =~= seq![code]);
    Some(v)
}

pub fn talk_keys(key: &str) -> (r: Option<Vec<i64>>)
    ensures
        (match r {
            Some(v) => Some(v@),
            None => None,
        }) == codes(key@),
{
    if str_eq(key, "Fn") || str_eq(key, "FnCtrl") {
        one(VK_FN)
    } else if str_eq(key, "LeftCtrl") {
        one(VK_LEFT_CTRL)
    } else if str_eq(key, "RightCtrl") {
        one(VK_RIGHT_CTRL)
    } else if str_eq(key, "LeftAlt") {
        one(VK_LEFT_OPT)
    } else if str_eq(key, "RightAlt") {
        one(VK_RIGHT_OPT)
    } else if str_eq(key, "LeftWin") || str_eq(key, "LeftCmd") {
        one(VK_LEFT_CMD)
    } else if str_eq(key, "RightWin") || str_eq(key, "RightCmd") {
        one(VK_RIGHT_CMD)
    } else if str_eq(key, "CtrlWin") || str_eq(key, "CtrlCmd") {
        let mut v: Vec<i64> = Vec::new();
        v.push(VK_LEFT_CTRL);
        v.push(VK_LEFT_CMD);
        assert(v@ =~= seq![VK_LEFT_CTRL, VK_LEFT_CMD]);
        Some(v)
    } else if str_eq(key, "F9") {
        one(VK_F9)
    } else {
        None
    }
}

/// How the tap treats the Fn key: alone, with Ctrl, or not at all.
pub open spec fn fn_mode(key: Seq<char>) -> u8 {
    if key == "Fn"@ {
        1
    } else if key == "FnCtrl"@ {
        2
    } else {
        0
    }
}

pub fn mode_value(key: &str) -> (r: u8)
    ensures
        r == fn_mode(key@),
{
    if str_eq(key, "Fn") {
        1
    } else if str_eq(key, "FnCtrl") {
        2
    } else {
        0
    }
}

/// Whether the tap can see a talk key: the combo needs none.
pub fn taps_live_for(key: &str, live: bool) -> (r: bool)
    ensures
        r == (key@ == "CtrlAltSpace"@ || live),
{
    str_eq(key, "CtrlAltSpace") || live
}

/// Whether a flag is set.
pub open spec fn has_flag(flags: u64, mask: u64) -> bool {
    flags & mask != 0
}

/// Whether the talk key is down after a change of the modifiers, or none where
/// the change is about another key.
pub open spec fn pressed(key: Seq<char>, flags: u64, keycode: i64) -> Option<bool> {
    let fn_down = has_flag(flags, FN_MASK);
    let ctrl_down = has_flag(flags, CTRL_MASK);
    let cmd_down = has_flag(flags, CMD_MASK);
    let alt_down = has_flag(flags, ALT_MASK);
    if key == "Fn"@ {
        only(keycode == VK_FN, fn_down)
    } else if key == "FnCtrl"@ {
        only(
            keycode == VK_FN || keycode == VK_LEFT_CTRL || keycode == VK_RIGHT_CTRL,
            fn_down && ctrl_down,
        )
    } else if key == "LeftCtrl"@ {
        only(keycode == VK_LEFT_CTRL, ctrl_down)
    } else if key == "RightCtrl"@ {
        only(keycode == VK_RIGHT_CTRL, ctrl_down)
    } else if key == "LeftAlt"@ {
        only(keycode == VK_LEFT_OPT, alt_down)
    } else if key == "RightAlt"@ {
        only(keycode == VK_RIGHT_OPT, alt_down)
    } else if key == "LeftWin"@ || key == "LeftCmd"@ {
        only(keycode == VK_LEFT_CMD, cmd_down)
    } else if key == "RightWin"@ || key == "RightCmd"@ {
        only(keycode == VK_RIGHT_CMD, cmd_down)
    } else if key == "CtrlWin"@ || key == "CtrlCmd"@ {
        only(
            keycode == VK_LEFT_CTRL || keycode == VK_RIGHT_CTRL || keycode == VK_LEFT_CMD
                || keycode == VK_RIGHT_CMD,
            ctrl_down && cmd_down,
        )
    } else {
        None
    }
}

/// `down` where the key is the right one.
pub open spec fn only(ours: bool, down: bool) -> Option<bool> {
    if ours {
        Some(down)
    } else {
        None
    }
}

fn when(ours: bool, down: bool) -> (r: Option<bool>)
    ensures
        r == only(ours, down),
{
    if ours {
        Some(down)
    } else {
        None
    }
}

/// The key code has to be that of the talk key, and the matching flag tells
/// whether it is down: Left Ctrl is not Right Ctrl.
pub fn talk_pressed(key: &str, flags: u64, keycode: i64) -> (r: Option<bool>)
    ensures
        r == pressed(key@, flags, keycode),
{
    let fn_down = (flags & FN_MASK) != 0;
    let ctrl_down = (flags & CTRL_MASK) != 0;
    let cmd_down = (flags & CMD_MASK) != 0;
    let alt_down = (flags & ALT_MASK) != 0;
    if str_eq(key, "Fn") {
        when(keycode == VK_FN, fn_down)
    } else if str_eq(key, "FnCtrl") {
        when(
            keycode == VK_FN || keycode == VK_LEFT_CTRL || keycode == VK_RIGHT_CTRL,
            fn_down && ctrl_down,
        )
    } else if str_eq(key, "LeftCtrl") {
        when(keycode == VK_LEFT_CTRL, ctrl_down)
    } else if str_eq(key, "RightCtrl") {
        when(keycode == VK_RIGHT_CTRL, ctrl_down)
    } else if str_eq(key, "LeftAlt") {
        when(keycode == VK_LEFT_OPT, alt_down)
    } else if str_eq(key, "RightAlt") {
        when(keycode == VK_RIGHT_OPT, alt_down)
    } else if str_eq(key, "LeftWin") || str_eq(key, "LeftCmd") {
        when(keycode == VK_LEFT_CMD, cmd_down)
    } else if str_eq(key, "RightWin") || str_eq(key, "RightCmd") {
        when(keycode == VK_RIGHT_CMD, cmd_down)
    } else if str_eq(key, "CtrlWin") || str_eq(key, "CtrlCmd") {
        when(
            keycode == VK_LEFT_CTRL || keycode == VK_RIGHT_CTRL || keycode == VK_LEFT_CMD
                || keycode == VK_RIGHT_CMD,
            ctrl_down && cmd_down,
        )
    } else {
        None
    }
}

/// Whether a key code belongs to the talk key.
pub open spec fn is_talk_code(key: Seq<char>, keycode: i64) -> bool {
    codes(key) matches Some(v) && v.contains(keycode)
}

pub fn is_talk_keycode(key: &str, keycode: i64) -> (r: bool)
    ensures
        r == is_talk_code(key@, keycode),
{
    match talk_keys(key) {
        Some(v) => {
            let mut i: usize = 0;
            while i < v.len()
                invariant
                    i <= v.len(),
                    codes(key@) == Some(v@),
                    forall|k: int| 0 <= k < i ==> v@[k] != keycode,
                decreases v.len() - i,
            {
                if v[i] == keycode {
                    assert(v@.contains(keycode));
                    return true;
                }
                i += 1;
            }
            false
        },
        None => false,
    }
}

/// Whether an app is a terminal or an editor with one, where the Fn key must not
/// be followed by a synthetic key.
pub open spec fn is_terminal(bundle: Seq<char>) -> bool {
    bundle == "com.apple.Terminal"@ || bundle == "com.googlecode.iterm2"@ || bundle
        == "com.mitchellh.ghostty"@ || bundle == "io.alacritty"@ || bundle == "org.alacritty"@
        || bundle == "net.kovidgoyal.kitty"@ || bundle == "com.github.wez.wezterm"@ || bundle
        == "dev.warp.Warp-Stable"@ || bundle == "dev.warp.Warp"@ || bundle == "co.zeit.hyper"@
        || bundle == "org.tabby"@ || bundle == "com.microsoft.VSCode"@ || bundle
        == "com.vscodium"@ || bundle == "com.todesktop.230313mzl4w4u92"@
}

pub fn is_terminal_app(bundle: &str) -> (r: bool)
    ensures
        r == is_terminal(bundle@),
{
    str_eq(bundle, "com.apple.Terminal") || str_eq(bundle, "com.googlecode.iterm2") || str_eq(
        bundle,
        "com.mitchellh.ghostty",
    ) || str_eq(bundle, "io.alacritty") || str_eq(bundle, "org.alacritty") || str_eq(
        bundle,
        "net.kovidgoyal.kitty",
    ) || str_eq(bundle, "com.github.wez.wezterm") || str_eq(bundle, "dev.warp.Warp-Stable")
        || str_eq(bundle, "dev.warp.Warp") || str_eq(bundle, "co.zeit.hyper") || str_eq(
        bundle,
        "org.tabby",
    ) || str_eq(bundle, "com.microsoft.VSCode") || str_eq(bundle, "com.vscodium") || str_eq(
        bundle,
        "com.todesktop.230313mzl4w4u92",
    )
}

/// Edges closer than this, in milliseconds, are bounces.
pub const BOUNCE_MS: u64 = 50;

/// What the tap remembers.
#[derive(Debug, Clone, Copy, PartialEq, Eq, Structural)]
pub struct TapState {
    pub was_down: bool,
    /// When the last edge was sent, in milliseconds.
    pub last_edge: u64,
}

/// An event of the tap.
#[derive(Debug, Clone, Copy, PartialEq, Eq, Structural)]
pub struct TapEvent {
    pub etype: u32,
    pub flags: u64,
    pub keycode: i64,
}

/// What is done about an event.
#[derive(Debug, Clone, Copy, PartialEq, Eq, Structural)]
pub struct TapReaction {
    /// The system switched the tap off: switch it on again.
    pub reenable: bool,
    /// The edge to send.
    pub edge: Option<TalkEdge>,
    /// The event goes no further.
    pub swallow: bool,
}

pub open spec fn no_reaction() -> TapReaction {
    TapReaction { reenable: false, edge: None, swallow: false }
}

/// Whether an edge is a bounce.
pub open spec fn bounces(last_edge: u64, now: u64) -> bool {
    (if now >= last_edge {
        now - last_edge
    } else {
        0
    }) < BOUNCE_MS
}

/// An edge is sent unless it is a bounce.
pub open spec fn emitted(last_edge: u64, edge: TalkEdge, now: u64) -> (u64, Option<TalkEdge>) {
    if bounces(last_edge, now) {
        (last_edge, None)
    } else {
        (now, Some(edge))
    }
}

pub fn emit_edge(last_edge: u64, edge: TalkEdge, now: u64) -> (r: (u64, Option<TalkEdge>))
    ensures
        r == emitted(last_edge, edge, now),
{
    if now.saturating_sub(last_edge) < BOUNCE_MS {
        (last_edge, None)
    } else {
        (now, Some(edge))
    }
}

/// Which edge an event is, and whether the talk key is down after it; `None`
/// where it is none.
pub open spec fn edge_of(
    was_down: bool,
    key: Seq<char>,
    e: TapEvent,
    recording: bool,
) -> Option<(TalkEdge, bool)> {
    if key.len() == 0 || key == "CtrlAltSpace"@ {
        None
    } else if e.etype == KEY_DOWN {
        if e.keycode == VK_F19 {
            None
        } else if e.keycode == VK_ESC && recording {
            Some((TalkEdge::Escape, was_down))
        } else if key == "F9"@ && e.keycode == VK_F9 {
            if was_down {
                None
            } else {
                Some((TalkEdge::Pressed, true))
            }
        } else if was_down && !is_talk_code(key, e.keycode) {
            Some((TalkEdge::Cancel, was_down))
        } else {
            None
        }
    } else if e.etype == KEY_UP && key == "F9"@ && e.keycode == VK_F9 {
        if was_down {
            Some((TalkEdge::Released, false))
        } else {
            None
        }
    } else if e.etype == FLAGS_CHANGED {
        match pressed(key, e.flags, e.keycode) {
            Some(down) => if down == was_down {
                None
            } else if down {
                Some((TalkEdge::Pressed, true))
            } else {
                Some((TalkEdge::Released, false))
            },
            None => None,
        }
    } else {
        None
    }
}

/// Whether an event is kept from other apps: a change of the Fn key that is an
/// edge.
pub open spec fn is_swallowed(was_down: bool, key: Seq<char>, e: TapEvent) -> bool {
    &&& e.etype == FLAGS_CHANGED
    &&& key == "Fn"@ || key == "FnCtrl"@
    &&& e.keycode == VK_FN
    &&& pressed(key, e.flags, e.keycode) matches Some(down) && down != was_down
}

/// What an event does.
pub open spec fn on_event(
    s: TapState,
    key: Seq<char>,
    e: TapEvent,
    recording: bool,
    now: u64,
) -> (TapState, TapReaction) {
    if e.etype == TAP_DISABLED_TIMEOUT || e.etype == TAP_DISABLED_USER {
        (s, TapReaction { reenable: true, ..no_reaction() })
    } else {
        match edge_of(s.was_down, key, e, recording) {
            Some((edge, down)) => {
                let sent = emitted(s.last_edge, edge, now);
                (
                    TapState { was_down: down, last_edge: sent.0 },
                    TapReaction {
                        reenable: false,
                        edge: sent.1,
                        swallow: is_swallowed(s.was_down, key, e),
                    },
                )
            },
            None => (s, no_reaction()),
        }
    }
}

fn find_edge(was_down: bool, key: &str, e: TapEvent, recording: bool) -> (r: Option<
    (TalkEdge, bool),
>)
    ensures
        r == edge_of(was_down, key@, e, recording),
{
    if key.is_empty() || str_eq(key, "CtrlAltSpace") {
        return None;
    }
    if e.etype == KEY_DOWN {
        if e.keycode == VK_F19 {
            return None;
        }
        if e.keycode == VK_ESC && recording {
            return Some((TalkEdge::Escape, was_down));
        }
        if str_eq(key, "F9") && e.keycode == VK_F9 {
            return if was_down {
                None
            } else {
                Some((TalkEdge::Pressed, true))
            };
        }
        if was_down && !is_talk_keycode(key, e.keycode) {
            return Some((TalkEdge::Cancel, was_down));
        }
        return None;
    }
    if e.etype == KEY_UP && str_eq(key, "F9") && e.keycode == VK_F9 {
        return if was_down {
            Some((TalkEdge::Released, false))
        } else {
            None
        };
    }
    if e.etype != FLAGS_CHANGED {
        return None;
    }
    match talk_pressed(key, e.flags, e.keycode) {
        Some(down) => if down == was_down {
            None
        } else if down {
            Some((TalkEdge::Pressed, true))
        } else {
            Some((TalkEdge::Released, false))
        },
        None => None,
    }
}

/// Decides about an event of the tap, for the talk key `key`.
pub fn tap_step(s: TapState, key: &str, e: TapEvent, recording: bool, now: u64) -> (r: (
    TapState,
    TapReaction,
))
    ensures
        r == on_event(s, key@, e, recording, now),
{
    if e.etype == TAP_DISABLED_TIMEOUT || e.etype == TAP_DISABLED_USER {
        return (s, TapReaction { reenable: true, edge: None, swallow: false });
    }
    match find_edge(s.was_down, key, e, recording) {
        Some((edge, down)) => {
            let (last_edge, sent) = emit_edge(s.last_edge, edge, now);
            let swallow = e.etype == FLAGS_CHANGED && (str_eq(key, "Fn") || str_eq(key, "FnCtrl"))
                && e.keycode == VK_FN;
            (
                TapState { was_down: down, last_edge },
                TapReaction { reenable: false, edge: sent, swallow },
            )
        },
        None => (s, TapReaction { reenable: false, edge: None, swallow: false }),
    }
}

/// Whether a press is followed by a synthetic F19, so that the Fn key does not
/// open the emoji picker.
pub fn suppresses_emoji(edge: Option<TalkEdge>, mode: u8, in_terminal: bool) -> (r: bool)
    ensures
        r == (edge == Some(TalkEdge::Pressed) && mode != 0 && !in_terminal),
{
    match edge {
        Some(TalkEdge::Pressed) => mode != 0 && !in_terminal,
        _ => false,
    }
}

/// The synthetic F19 does nothing, so that it does not throw away the take that
/// it follows.
pub proof fn lemma_f19_is_ignored(
    s: TapState,
    key: Seq<char>,
    flags: u64,
    recording: bool,
    now: u64,
)
    ensures
        on_event(s, key, TapEvent { etype: KEY_DOWN, flags, keycode: VK_F19 }, recording, now) == (
            s,
            no_reaction(),
        ),
{
}

/// A press is reported only where the talk key was up, a release only where it
/// was down, and another key throws a take away only while it is down.
pub proof fn lemma_edges_alternate(
    s: TapState,
    key: Seq<char>,
    e: TapEvent,
    recording: bool,
    now: u64,
)
    ensures
        ({
            let r = on_event(s, key, e, recording, now);
            &&& r.1.edge == Some(TalkEdge::Pressed) ==> !s.was_down && r.0.was_down
            &&& r.1.edge == Some(TalkEdge::Released) ==> s.was_down && !r.0.was_down
            &&& r.1.edge == Some(TalkEdge::Cancel) ==> s.was_down && r.0.was_down
            &&& r.1.edge == Some(TalkEdge::Escape) ==> recording
        }),
{
}

} // verus!
