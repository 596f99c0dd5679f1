//! Talk keys, shortcuts and the edges of the talk key.

use crate::hotkey;
use crate::hotkey::macos;
use crate::hotkey::macos::{TapEvent, TapState};
use crate::hotkey::talk;
use crate::hotkey::talk::{TalkAction, TalkMode, TalkState};
use crate::hotkey::windows;
use crate::hotkey::windows::PollState;
use crate::hotkey::TalkEdge;
use crate::platform::Platform;
use crate::settings;
use vstd::prelude::*;
use vstd::string::*;

verus! {

/// The virtual-key codes of Windows.
pub const VK_LCONTROL: i32 = 0xA2;

pub const VK_RCONTROL: i32 = 0xA3;

pub const VK_LMENU: i32 = 0xA4;

pub const VK_RMENU: i32 = 0xA5;

pub const VK_LWIN: i32 = 0x5B;

pub const VK_RWIN: i32 = 0x5C;

pub const VK_SCROLL: i32 = 0x91;

pub const VK_F9: i32 = 0x78;

proof fn lemma_key_names()
    ensures
        "LeftCtrl"@.len() == 8 && "LeftCtrl"@[0] == 'L' && "LeftCtrl"@[7] == 'l',
        "RightCtrl"@.len() == 9 && "RightCtrl"@[0] == 'R' && "RightCtrl"@[8] == 'l',
        "LeftAlt"@.len() == 7 && "LeftAlt"@[0] == 'L' && "LeftAlt"@[6] == 't',
        "RightAlt"@.len() == 8 && "RightAlt"@[0] == 'R' && "RightAlt"@[7] == 't',
        "LeftWin"@.len() == 7 && "LeftWin"@[0] == 'L' && "LeftWin"@[6] == 'n',
        "RightWin"@.len() == 8 && "RightWin"@[0] == 'R' && "RightWin"@[7] == 'n',
        "ScrollLock"@.len() == 10 && "ScrollLock"@[0] == 'S' && "ScrollLock"@[9] == 'k',
        "F9"@.len() == 2 && "F9"@[0] == 'F' && "F9"@[1] == '9',
        "CtrlWin"@.len() == 7 && "CtrlWin"@[0] == 'C' && "CtrlWin"@[6] == 'n',
        "Fn"@.len() == 2 && "Fn"@[0] == 'F' && "Fn"@[1] == 'n',
        "FnCtrl"@.len() == 6 && "FnCtrl"@[0] == 'F' && "FnCtrl"@[5] == 'l',
        "LeftCmd"@.len() == 7 && "LeftCmd"@[0] == 'L' && "LeftCmd"@[6] == 'd',
        "RightCmd"@.len() == 8 && "RightCmd"@[0] == 'R' && "RightCmd"@[7] == 'd',
        "CtrlCmd"@.len() == 7 && "CtrlCmd"@[0] == 'C' && "CtrlCmd"@[6] == 'd',
        "CtrlAltSpace"@.len() == 12 && "CtrlAltSpace"@[0] == 'C' && "CtrlAltSpace"@[11] == 'e',
{
    reveal_strlit("LeftCtrl");
    reveal_strlit("RightCtrl");
    reveal_strlit("LeftAlt");
    reveal_strlit("RightAlt");
    reveal_strlit("LeftWin");
    reveal_strlit("RightWin");
    reveal_strlit("ScrollLock");
    reveal_strlit("F9");
    reveal_strlit("CtrlWin");
    reveal_strlit("Fn");
    reveal_strlit("FnCtrl");
    reveal_strlit("LeftCmd");
    reveal_strlit("RightCmd");
    reveal_strlit("CtrlCmd");
    reveal_strlit("CtrlAltSpace");
}

/// Each talk key of Windows has the code that Windows gives the key.
pub proof fn lemma_windows_codes()
    ensures
        windows::code("LeftCtrl"@) == Some(VK_LCONTROL),
        windows::code("RightCtrl"@) == Some(VK_RCONTROL),
        windows::code("LeftAlt"@) == Some(VK_LMENU),
        windows::code("RightAlt"@) == Some(VK_RMENU),
        windows::code("LeftWin"@) == Some(VK_LWIN),
        windows::code("RightWin"@) == Some(VK_RWIN),
        windows::code("ScrollLock"@) == Some(VK_SCROLL),
        windows::code("F9"@) == Some(VK_F9),
        windows::codes("CtrlWin"@) == Some(seq![VK_LCONTROL, VK_LWIN]),
        windows::code("CtrlAltSpace"@) is None && windows::codes("CtrlAltSpace"@) is None,
{
    lemma_key_names();
}

/// No two talk keys of Windows share a code, and a single key is polled by its own
/// code.
pub proof fn lemma_windows_codes_differ(a: Seq<char>, b: Seq<char>)
    ensures
        windows::code(a) is Some && windows::code(a) == windows::code(b) ==> a == b,
        windows::codes(a) is Some && windows::codes(a) == windows::codes(b) ==> a == b,
        windows::code(a) matches Some(c) ==> windows::codes(a) == Some(seq![c]),
{
    lemma_key_names();
    if windows::codes(a) is Some && windows::codes(a) == windows::codes(b) {
        let v = windows::codes(a)->0;
        if a == "CtrlWin"@ || b == "CtrlWin"@ {
            assert(v.len() == 2 || v.len() == 1);
        } else {
            assert(v[0] == windows::code(a)->0 && v[0] == windows::code(b)->0);
        }
    }
}

/// Each talk key of macOS has the codes that macOS gives the keys.
pub proof fn lemma_macos_codes()
    ensures
        macos::codes("Fn"@) == Some(seq![63i64]),
        macos::codes("FnCtrl"@) == Some(seq![63i64]),
        macos::codes("LeftCtrl"@) == Some(seq![59i64]),
        macos::codes("RightCtrl"@) == Some(seq![62i64]),
        macos::codes("LeftAlt"@) == Some(seq![58i64]),
        macos::codes("RightAlt"@) == Some(seq![61i64]),
        macos::codes("LeftCmd"@) == Some(seq![55i64]),
        macos::codes("RightCmd"@) == Some(seq![54i64]),
        macos::codes("LeftWin"@) == macos::codes("LeftCmd"@),
        macos::codes("RightWin"@) == macos::codes("RightCmd"@),
        macos::codes("CtrlCmd"@) == Some(seq![59i64, 55i64]),
        macos::codes("CtrlWin"@) == macos::codes("CtrlCmd"@),
        macos::codes("F9"@) == Some(seq![0x65i64]),
        macos::codes("ScrollLock"@) is None && macos::codes("CtrlAltSpace"@) is None,
{
    lemma_key_names();
}

/// The flags of an event tell which modifiers are down.
pub open spec fn bit(flags: u64, n: u64) -> bool {
    flags & (1u64 << n) != 0
}

/// A single modifier key of macOS is down exactly where the event is about that key,
/// left or right, and its flag is set; an event about any other key says nothing of
/// it.
pub proof fn lemma_macos_pressed(flags: u64, keycode: i64)
    ensures
        macos::pressed("Fn"@, flags, keycode) == (if keycode == 63 {
            Some(bit(flags, 23))
        } else {
            None
        }),
        macos::pressed("LeftCtrl"@, flags, keycode) == (if keycode == 59 {
            Some(bit(flags, 18))
        } else {
            None
        }),
        macos::pressed("RightCtrl"@, flags, keycode) == (if keycode == 62 {
            Some(bit(flags, 18))
        } else {
            None
        }),
        macos::pressed("LeftAlt"@, flags, keycode) == (if keycode == 58 {
            Some(bit(flags, 19))
        } else {
            None
        }),
        macos::pressed("RightAlt"@, flags, keycode) == (if keycode == 61 {
            Some(bit(flags, 19))
        } else {
            None
        }),
        macos::pressed("LeftCmd"@, flags, keycode) == (if keycode == 55 {
            Some(bit(flags, 20))
        } else {
            None
        }),
        macos::pressed("RightCmd"@, flags, keycode) == (if keycode == 54 {
            Some(bit(flags, 20))
        } else {
            None
        }),
        macos::pressed("LeftWin"@, flags, keycode) == macos::pressed("LeftCmd"@, flags, keycode),
        macos::pressed("RightWin"@, flags, keycode) == macos::pressed("RightCmd"@, flags, keycode),
        macos::pressed("CtrlWin"@, flags, keycode) == macos::pressed("CtrlCmd"@, flags, keycode),
{
    lemma_key_names();
    lemma_masks(flags);
}

/// A pair of keys is down where both are, whichever of them the event is about.
pub proof fn lemma_macos_pairs(flags: u64, keycode: i64)
    ensures
        macos::pressed("FnCtrl"@, flags, keycode) is Some <==> keycode == 63 || keycode == 59
            || keycode == 62,
        macos::pressed("FnCtrl"@, flags, keycode) matches Some(down) ==> down == (bit(flags, 23)
            && bit(flags, 18)),
        macos::pressed("CtrlCmd"@, flags, keycode) is Some <==> keycode == 59 || keycode == 62
            || keycode == 55 || keycode == 54,
        macos::pressed("CtrlCmd"@, flags, keycode) matches Some(down) ==> down == (bit(flags, 18)
            && bit(flags, 20)),
{
    lemma_key_names();
    lemma_masks(flags);
}

proof fn lemma_masks(flags: u64)
    ensures
        macos::has_flag(flags, macos::FN_MASK) == bit(flags, 23),
        macos::has_flag(flags, macos::CTRL_MASK) == bit(flags, 18),
        macos::has_flag(flags, macos::CMD_MASK) == bit(flags, 20),
        macos::has_flag(flags, macos::ALT_MASK) == bit(flags, 19),
{
    assert(1u64 << 23u64 == 0x0080_0000u64) by (bit_vector);
    assert(1u64 << 18u64 == 0x0004_0000u64) by (bit_vector);
    assert(1u64 << 20u64 == 0x0010_0000u64) by (bit_vector);
    assert(1u64 << 19u64 == 0x0008_0000u64) by (bit_vector);
}

/// A talk key that is stored in a settings file keeps its place on the keyboard on
/// the other system: Win is Cmd there, and what has no place becomes the default.
pub proof fn lemma_native_keys(key: Seq<char>)
    ensures
        settings::native_key("LeftWin"@, Platform::MacOs) == "LeftCmd"@,
        settings::native_key("RightWin"@, Platform::MacOs) == "RightCmd"@,
        settings::native_key("CtrlWin"@, Platform::MacOs) == "CtrlCmd"@,
        settings::native_key("ScrollLock"@, Platform::MacOs) == settings::talk_key(Platform::MacOs),
        settings::native_key("LeftCmd"@, Platform::Windows) == "LeftWin"@,
        settings::native_key("RightCmd"@, Platform::Windows) == "RightWin"@,
        settings::native_key("CtrlCmd"@, Platform::Windows) == "CtrlWin"@,
        settings::native_key("Fn"@, Platform::Windows) == settings::talk_key(Platform::Windows),
        settings::native_key("FnCtrl"@, Platform::Windows) == settings::talk_key(Platform::Windows),
        settings::native_key(key, Platform::Other) == settings::native_key(key, Platform::Windows),
        windows::codes(key) is Some || key == "CtrlAltSpace"@ ==> settings::native_key(
            key,
            Platform::Windows,
        ) == key,
        key == "LeftCtrl"@ || key == "RightCtrl"@ || key == "LeftAlt"@ || key == "RightAlt"@ || key
            == "F9"@ || key == "CtrlAltSpace"@ || key == "Fn"@ || key == "FnCtrl"@ || key
            == "LeftCmd"@ || key == "RightCmd"@ || key == "CtrlCmd"@ ==> settings::native_key(
            key,
            Platform::MacOs,
        ) == key,
        settings::talk_key(Platform::MacOs) == "Fn"@,
        settings::talk_key(Platform::Windows) == "RightCtrl"@,
        settings::talk_key(Platform::Other) == "RightCtrl"@,
{
    lemma_key_names();
}

/// The talk keys that a system without a poll or a tap knows.
pub proof fn lemma_talk_keys(key: Seq<char>)
    ensures
        hotkey::is_talk_key(key, Platform::Other) <==> key == "LeftCtrl"@ || key == "RightCtrl"@
            || key == "LeftAlt"@ || key == "RightAlt"@ || key == "F9"@,
        hotkey::is_talk_key(key, Platform::Windows) <==> key == "LeftCtrl"@ || key == "RightCtrl"@
            || key == "LeftAlt"@ || key == "RightAlt"@ || key == "LeftWin"@ || key == "RightWin"@
            || key == "ScrollLock"@ || key == "F9"@ || key == "CtrlWin"@,
        hotkey::is_talk_key(key, Platform::MacOs) <==> key == "Fn"@ || key == "FnCtrl"@ || key
            == "LeftCtrl"@ || key == "RightCtrl"@ || key == "LeftAlt"@ || key == "RightAlt"@ || key
            == "LeftWin"@ || key == "LeftCmd"@ || key == "RightWin"@ || key == "RightCmd"@ || key
            == "CtrlWin"@ || key == "CtrlCmd"@ || key == "F9"@,
        hotkey::is_combo_key(key) <==> key == "CtrlAltSpace"@,
{
}

/// A press starts a take where none is live. In the double-tap mode it does so only
/// as the second of two taps that are less than half a second apart.
pub proof fn lemma_press_starts(mode: TalkMode, s: TalkState, now: u64)
    requires
        !s.recording,
    ensures
        ({
            let (action, tap) = talk::on_edge(TalkEdge::Pressed, mode, s, now);
            &&& mode != TalkMode::DoubleTap ==> action == TalkAction::Start && tap == s.last_tap_end
            &&& mode == TalkMode::DoubleTap ==> (action == TalkAction::Start <==> (s.last_tap_end
                matches Some(t) && now - t < 500_000_000))
            &&& mode == TalkMode::DoubleTap && action != TalkAction::Start ==> action
                == TalkAction::Nothing && tap == s.last_tap_end
            &&& mode == TalkMode::DoubleTap && action == TalkAction::Start ==> tap is None
        }),
{
}

/// A press while a take is live ends it where the key toggles, and does nothing where
/// the key is held.
pub proof fn lemma_press_stops(mode: TalkMode, s: TalkState, now: u64)
    requires
        s.recording,
    ensures
        ({
            let (action, tap) = talk::on_edge(TalkEdge::Pressed, mode, s, now);
            &&& mode == TalkMode::Toggle ==> action == TalkAction::Stop && tap == s.last_tap_end
            &&& mode == TalkMode::DoubleTap ==> action == TalkAction::Stop && tap is None
            &&& mode == TalkMode::Hold || mode == TalkMode::Unknown ==> action
                == TalkAction::Nothing && tap == s.last_tap_end
        }),
{
}

/// The key coming up ends a take that the key started, in the hold mode alone. In the
/// double-tap mode it is the end of a tap where no take is live.
pub proof fn lemma_release(mode: TalkMode, s: TalkState, now: u64)
    ensures
        ({
            let (action, tap) = talk::on_edge(TalkEdge::Released, mode, s, now);
            &&& action == TalkAction::Stop <==> mode == TalkMode::Hold && s.recording && s.owned
            &&& action == TalkAction::Stop || action == TalkAction::Nothing
            &&& mode == TalkMode::DoubleTap && !s.recording ==> tap == Some(now)
            &&& !(mode == TalkMode::DoubleTap && !s.recording) ==> tap == s.last_tap_end
        }),
{
}

/// Another key throws away a take that the talk key started, Esc any take, and
/// neither does anything else.
pub proof fn lemma_discards(mode: TalkMode, s: TalkState, now: u64)
    ensures
        talk::on_edge(TalkEdge::Cancel, mode, s, now) == (
            if s.recording && s.owned {
                TalkAction::Cancel
            } else {
                TalkAction::Nothing
            },
            s.last_tap_end,
        ),
        talk::on_edge(TalkEdge::Escape, mode, s, now) == (
            if s.recording {
                TalkAction::Cancel
            } else {
                TalkAction::Nothing
            },
            s.last_tap_end,
        ),
{
}

/// The modes by their names.
pub proof fn lemma_modes(s: Seq<char>)
    ensures
        talk::mode_named("hold"@) == TalkMode::Hold,
        talk::mode_named("toggle"@) == TalkMode::Toggle,
        talk::mode_named("double_tap"@) == TalkMode::DoubleTap,
        s != "hold"@ && s != "toggle"@ && s != "double_tap"@ ==> talk::mode_named(s)
            == TalkMode::Unknown,
{
    reveal_strlit("hold");
    reveal_strlit("toggle");
    reveal_strlit("double_tap");
    assert("hold"@.len() == 4 && "toggle"@.len() == 6 && "double_tap"@.len() == 10);
}

/// A poll reports a press where the talk key went down and a release where it came
/// up, unless it changed less than thirty milliseconds before.
pub proof fn lemma_poll_talk(
    s: PollState,
    vks: Seq<i32>,
    down: bool,
    recording: bool,
    esc: bool,
    cur: Seq<u8>,
    now: u64,
)
    requires
        s.last_change <= now,
    ensures
        ({
            let r = windows::edges_of(s, Some(vks), down, recording, esc, cur, now);
            let settled = now - s.last_change > 30_000_000;
            &&& r.talk == Some(TalkEdge::Pressed) <==> !s.was_down && down && settled
            &&& r.talk == Some(TalkEdge::Released) <==> s.was_down && !down && settled
            &&& r.talk is None <==> s.was_down == down || !settled
        }),
        windows::edges_of(s, None, down, recording, esc, cur, now).talk is None,
        !windows::edges_of(s, None, down, recording, esc, cur, now).cancel,
{
}

/// A poll reports Esc where it went down during a take, and never outside one.
pub proof fn lemma_poll_escape(
    s: PollState,
    vks: Option<Seq<i32>>,
    down: bool,
    recording: bool,
    esc: bool,
    cur: Seq<u8>,
    now: u64,
)
    ensures
        windows::edges_of(s, vks, down, recording, esc, cur, now).escape <==> recording && esc
            && !s.was_esc && now - s.last_esc > 30_000_000,
{
}

/// A poll reports another key where one went down while the talk key was held, unless
/// it is a talk key or a mouse button.
pub proof fn lemma_poll_cancel(
    s: PollState,
    vks: Seq<i32>,
    down: bool,
    recording: bool,
    esc: bool,
    cur: Seq<u8>,
    now: u64,
    i: int,
)
    requires
        s.prev_keys@.len() == 256,
        cur.len() == 256,
        0 <= i < 256,
        s.was_down && down,
        cur[i] >= 128,
        s.prev_keys@[i] < 128,
        i == 0 || i > 6,
        !vks.contains(i as i32),
    ensures
        windows::edges_of(s, Some(vks), down, recording, esc, cur, now).cancel,
{
    assert(windows::intrudes(vks, s.prev_keys@, cur, i));
}

/// Talk keys, mouse buttons and keys that were down before are no other keys, and
/// without the talk key held there is nothing to throw away.
pub proof fn lemma_poll_no_cancel(
    s: PollState,
    vks: Seq<i32>,
    down: bool,
    recording: bool,
    esc: bool,
    cur: Seq<u8>,
    now: u64,
)
    requires
        s.prev_keys@.len() == 256,
        cur.len() == 256,
        (!s.was_down && !down) || forall|i: int|
            0 <= i < 256 ==> (#[trigger] cur[i]) < 128 || s.prev_keys@[i] >= 128 || 1 <= i <= 6
                || vks.contains(i as i32),
    ensures
        !windows::edges_of(s, Some(vks), down, recording, esc, cur, now).cancel,
{
    if windows::has_intruder(vks, s.prev_keys@, cur) {
        let i = choose|i: int|
            0 <= i < cur.len() && #[trigger] windows::intrudes(vks, s.prev_keys@, cur, i);
        assert(cur[i] >= 128);
    }
}

/// A modifier talk key of macOS reports a press where it goes down and a release where
/// it comes up.
pub proof fn lemma_tap_talk(s: TapState, key: Seq<char>, flags: u64, keycode: i64, recording: bool, now: u64)
    requires
        key.len() > 0,
        key != "CtrlAltSpace"@,
        s.last_edge + 50 <= now,
        macos::pressed(key, flags, keycode) is Some,
    ensures
        ({
            let e = TapEvent { etype: 12, flags, keycode };
            let (t, r) = macos::on_event(s, key, e, recording, now);
            let down = macos::pressed(key, flags, keycode)->0;
            &&& !s.was_down && down <==> r.edge == Some(TalkEdge::Pressed)
            &&& s.was_down && !down <==> r.edge == Some(TalkEdge::Released)
            &&& s.was_down == down <==> r.edge is None
            &&& t.was_down == down
            &&& r.edge is Some ==> t.last_edge == now
            &&& !r.reenable
            &&& r.swallow ==> keycode == 63 && r.edge is Some
            &&& (key == "Fn"@ || key == "FnCtrl"@) && keycode == 63 && r.edge is Some ==> r.swallow
        }),
{
}

/// The function key as a talk key goes down and comes up with its own events.
pub proof fn lemma_tap_f9(s: TapState, flags: u64, recording: bool, now: u64)
    requires
        s.last_edge + 50 <= now,
    ensures
        ({
            let (t, r) = macos::on_event(
                s,
                "F9"@,
                TapEvent { etype: 10, flags, keycode: 0x65 },
                recording,
                now,
            );
            let (u, q) = macos::on_event(
                s,
                "F9"@,
                TapEvent { etype: 11, flags, keycode: 0x65 },
                recording,
                now,
            );
            &&& !s.was_down ==> r.edge == Some(TalkEdge::Pressed) && t.was_down
            &&& s.was_down ==> r.edge is None && t == s
            &&& s.was_down ==> q.edge == Some(TalkEdge::Released) && !u.was_down
            &&& !s.was_down ==> q.edge is None && u == s
        }),
{
    reveal_strlit("F9");
    lemma_key_names();
}

/// Another key that goes down while the talk key is held throws the take away, Esc
/// does so during any take, and both leave the talk key as it was.
pub proof fn lemma_tap_cancel(
    s: TapState,
    key: Seq<char>,
    flags: u64,
    keycode: i64,
    recording: bool,
    now: u64,
)
    requires
        key.len() > 0,
        key != "CtrlAltSpace"@,
        s.last_edge + 50 <= now,
        keycode != 0x50,
    ensures
        ({
            let (t, r) = macos::on_event(
                s,
                key,
                TapEvent { etype: 10, flags, keycode },
                recording,
                now,
            );
            &&& recording && keycode == 53 ==> r.edge == Some(TalkEdge::Escape)
            &&& s.was_down && !(recording && keycode == 53) && !macos::is_talk_code(key, keycode)
                && !(key == "F9"@ && keycode == 0x65) ==> r.edge == Some(TalkEdge::Cancel)
            &&& !s.was_down && !(recording && keycode == 53) && !(key == "F9"@ && keycode == 0x65)
                ==> r.edge is None
            &&& r.edge == Some(TalkEdge::Escape) || r.edge == Some(TalkEdge::Cancel) ==> t.was_down
                == s.was_down
            &&& !r.swallow && !r.reenable
        }),
{
}

/// Edges less than fifty milliseconds apart are bounces, the combo needs no tap, and
/// a tap that was switched off is switched on again.
pub proof fn lemma_tap_quiet(s: TapState, key: Seq<char>, e: TapEvent, recording: bool, now: u64)
    ensures
        s.last_edge <= now < s.last_edge + 50 ==> macos::on_event(s, key, e, recording, now).1.edge
            is None,
        key == "CtrlAltSpace"@ || key.len() == 0 ==> macos::on_event(
            s,
            key,
            e,
            recording,
            now,
        ).1.edge is None,
        e.etype == 0xFFFF_FFFE || e.etype == 0xFFFF_FFFF <==> macos::on_event(
            s,
            key,
            e,
            recording,
            now,
        ).1.reenable,
        e.etype == 0xFFFF_FFFE || e.etype == 0xFFFF_FFFF ==> macos::on_event(
            s,
            key,
            e,
            recording,
            now,
        ).0 == s,
{
}

/// The Fn key counts where it is the talk key, alone or with Ctrl.
pub proof fn lemma_fn_modes(key: Seq<char>)
    ensures
        macos::fn_mode(key) == 1 <==> key == "Fn"@,
        macos::fn_mode(key) == 2 <==> key == "FnCtrl"@,
        key != "Fn"@ && key != "FnCtrl"@ <==> macos::fn_mode(key) == 0,
{
    reveal_strlit("Fn");
    reveal_strlit("FnCtrl");
    assert("Fn"@.len() == 2 && "FnCtrl"@.len() == 6);
}

/// A press of the Fn key is followed by a key that keeps the emoji picker away, but
/// not in a terminal, and not for a talk key without Fn.
pub proof fn lemma_emoji(key: Seq<char>, edge: Option<TalkEdge>, in_terminal: bool, r: bool)
    requires
        call_ensures(
            crate::hotkey::macos::suppresses_emoji,
            (edge, macos::fn_mode(key), in_terminal),
            r,
        ),
    ensures
        r ==> edge == Some(TalkEdge::Pressed) && !in_terminal && (key == "Fn"@ || key
            == "FnCtrl"@),
        edge == Some(TalkEdge::Pressed) && !in_terminal && (key == "Fn"@ || key == "FnCtrl"@) ==> r,
{
    lemma_fn_modes(key);
}

/// The terminals, and the editors with one.
pub proof fn lemma_terminals(bundle: Seq<char>)
    ensures
        macos::is_terminal("com.apple.Terminal"@),
        macos::is_terminal("com.googlecode.iterm2"@),
        macos::is_terminal("com.mitchellh.ghostty"@),
        macos::is_terminal("io.alacritty"@) && macos::is_terminal("org.alacritty"@),
        macos::is_terminal("net.kovidgoyal.kitty"@),
        macos::is_terminal("com.github.wez.wezterm"@),
        macos::is_terminal("dev.warp.Warp-Stable"@) && macos::is_terminal("dev.warp.Warp"@),
        macos::is_terminal("co.zeit.hyper"@),
        macos::is_terminal("org.tabby"@),
        macos::is_terminal("com.microsoft.VSCode"@) && macos::is_terminal("com.vscodium"@),
        macos::is_terminal("com.todesktop.230313mzl4w4u92"@),
        macos::is_terminal(bundle) ==> 9 <= bundle.len() <= 29 && bundle.contains('.'),
{
    reveal_strlit("com.apple.Terminal");
    reveal_strlit("com.googlecode.iterm2");
    reveal_strlit("com.mitchellh.ghostty");
    reveal_strlit("io.alacritty");
    reveal_strlit("org.alacritty");
    reveal_strlit("net.kovidgoyal.kitty");
    reveal_strlit("com.github.wez.wezterm");
    reveal_strlit("dev.warp.Warp-Stable");
    reveal_strlit("dev.warp.Warp");
    reveal_strlit("co.zeit.hyper");
    reveal_strlit("org.tabby");
    reveal_strlit("com.microsoft.VSCode");
    reveal_strlit("com.vscodium");
    reveal_strlit("com.todesktop.230313mzl4w4u92");
    if macos::is_terminal(bundle) {
        assert(bundle[3] == '.' || bundle[2] == '.');
    }
}

/// The combination needs no tap; any other talk key does.
pub proof fn lemma_tap_needed(key: &str, live: bool, r: bool)
    requires
        call_ensures(crate::hotkey::macos::taps_live_for, (key, live), r),
    ensures
        key@ == "CtrlAltSpace"@ ==> r,
        key@ != "CtrlAltSpace"@ ==> r == live,
{
}

} // verus!
