//! Talk keys, utility shortcuts and the edges of the talk key.

use dictflow::hotkey::macos::{
    emit_edge, is_talk_keycode, is_terminal_app, mode_value, suppresses_emoji, talk_keys,
    talk_pressed, taps_live_for, tap_step, TapEvent, TapState, CMD_MASK, CTRL_MASK, FLAGS_CHANGED,
    FN_MASK, KEY_DOWN, KEY_UP, TAP_DISABLED_TIMEOUT, TAP_DISABLED_USER, VK_ESC, VK_F19, VK_F9,
    VK_FN, VK_LEFT_CMD, VK_LEFT_CTRL, VK_RIGHT_CTRL,
};
use dictflow::hotkey::talk::{talk_mode, talk_step, TalkAction, TalkMode, TalkState};
use dictflow::hotkey::windows::{hotkey_vk, poll_step, PollState};
use dictflow::hotkey::{
    hotkey_vks, registers_combo, shortcut_action, spec_to_shortcut, talk_key_live,
    validate_utility_key, KeyCombo, ShortcutAction, TalkEdge, HOTKEY,
};
use dictflow::platform::Platform;
use dictflow::settings::{default_talk_key, normalize_talk_key};
use dictflow::shortcuts::{is_talk_combo, parse_shortcut, ShortcutSpec};

#[test]
fn speaktype_carbon_codes() {
    assert_eq!(talk_keys("Fn"), Some(vec![63]));
    assert_eq!(talk_keys("LeftCmd"), Some(vec![55]));
    assert_eq!(talk_keys("RightCmd"), Some(vec![54]));
    assert_eq!(talk_keys("LeftCtrl"), Some(vec![59]));
    assert_eq!(talk_keys("RightCtrl"), Some(vec![62]));
    assert_eq!(talk_keys("LeftAlt"), Some(vec![58]));
    assert_eq!(talk_keys("RightAlt"), Some(vec![61]));
    assert!(talk_keys("ScrollLock").is_none());
}

#[test]
fn left_ctrl_is_not_right_ctrl() {
    assert_eq!(talk_pressed("LeftCtrl", CTRL_MASK, VK_LEFT_CTRL), Some(true));
    assert_eq!(talk_pressed("LeftCtrl", CTRL_MASK, VK_RIGHT_CTRL), None);
    assert_eq!(talk_pressed("Fn", FN_MASK, VK_FN), Some(true));
    assert_eq!(talk_pressed("Fn", FN_MASK, VK_LEFT_CTRL), None);
}

#[test]
fn talk_key_is_known_on_this_platform() {
    let mac = Platform::MacOs;
    assert!(hotkey_vks("Fn", mac).is_some());
    assert!(hotkey_vks("FnCtrl", mac).is_some());
    assert!(hotkey_vks("LeftCmd", mac).is_some());
    assert!(hotkey_vks("ScrollLock", mac).is_none());
    assert_eq!(normalize_talk_key("LeftWin", mac), "LeftCmd");
    assert_eq!(default_talk_key(mac), "Fn");
    let win = Platform::Windows;
    assert!(hotkey_vks("RightCtrl", win).is_some());
    assert!(hotkey_vks("LeftWin", win).is_some());
    assert!(hotkey_vks("Fn", win).is_none());
    assert_eq!(normalize_talk_key("Fn", win), "RightCtrl");
    assert_eq!(default_talk_key(win), "RightCtrl");
}

#[test]
fn talk_key_normalizes_to_this_platform() {
    let mac = Platform::MacOs;
    assert_eq!(normalize_talk_key("LeftWin", mac), "LeftCmd");
    assert_eq!(normalize_talk_key("RightWin", mac), "RightCmd");
    assert_eq!(normalize_talk_key("CtrlWin", mac), "CtrlCmd");
    assert_eq!(normalize_talk_key("ScrollLock", mac), "Fn");
    assert_eq!(normalize_talk_key("Fn", mac), "Fn");
    assert_eq!(normalize_talk_key("FnCtrl", mac), "FnCtrl");
    assert_eq!(normalize_talk_key("RightCtrl", mac), "RightCtrl");
    assert_eq!(default_talk_key(mac), "Fn");
    for p in [Platform::Windows, Platform::Other] {
        assert_eq!(normalize_talk_key("Fn", p), "RightCtrl");
        assert_eq!(normalize_talk_key("FnCtrl", p), "RightCtrl");
        assert_eq!(normalize_talk_key("LeftCmd", p), "LeftWin");
        assert_eq!(normalize_talk_key("RightCmd", p), "RightWin");
        assert_eq!(normalize_talk_key("CtrlCmd", p), "CtrlWin");
        assert_eq!(normalize_talk_key("RightCtrl", p), "RightCtrl");
        assert_eq!(default_talk_key(p), "RightCtrl");
    }
}

#[test]
fn copied_talk_keys_exist() {
    let win = ["LeftCtrl", "LeftAlt", "LeftWin", "RightWin", "CtrlWin", "ScrollLock", "F9"];
    let mac = ["Fn", "FnCtrl", "RightAlt", "LeftCmd", "RightCmd", "CtrlCmd", "F9"];
    for key in win.iter().chain(mac.iter()) {
        for p in [Platform::Windows, Platform::MacOs] {
            assert!(hotkey_vks(&normalize_talk_key(key, p), p).is_some());
        }
    }
}

#[test]
fn other_platforms_know_five_keys() {
    assert!(hotkey_vks("F9", Platform::Other).is_some());
    assert!(hotkey_vks("LeftWin", Platform::Other).is_none());
    assert_eq!(hotkey_vk("ScrollLock"), Some(0x91));
    assert_eq!(hotkey_vk("CtrlWin"), None);
    assert_eq!(dictflow::hotkey::windows::hotkey_vks("CtrlWin"), Some(vec![0xA2, 0x5B]));
    assert_eq!(dictflow::hotkey::windows::hotkey_vks("Fn"), None);
    assert!(registers_combo("CtrlAltSpace"));
    assert!(!registers_combo("F9"));
    assert!(is_talk_combo(&parse_shortcut(HOTKEY).unwrap()));
    assert!(talk_key_live("CtrlAltSpace", Platform::MacOs, false));
    assert!(!talk_key_live("Fn", Platform::MacOs, false));
    assert!(talk_key_live("F9", Platform::Windows, false));
    assert!(taps_live_for("CtrlAltSpace", false));
    assert!(!taps_live_for("Fn", false));
}

#[test]
fn key_codes_of_shortcuts() {
    let code = |s: &str| spec_to_shortcut(&parse_shortcut(s).unwrap()).unwrap().code;
    assert_eq!(code("Ctrl+a"), "KeyA");
    assert_eq!(code("Ctrl+7"), "Digit7");
    assert_eq!(code("space"), "Space");
    assert_eq!(code("f11"), "F11");
    let odd = ShortcutSpec { ctrl: true, alt: false, shift: false, meta: false, key: "?".to_owned() };
    assert_eq!(spec_to_shortcut(&odd), Err("unsupported shortcut key: ?".to_owned()));
}

#[test]
fn utility_keys_are_checked() {
    assert!(validate_utility_key("Shift+Alt+Z", "Shift+Alt+X").is_ok());
    assert_eq!(
        validate_utility_key("Z", "X").unwrap_err(),
        "Z needs a modifier so it does not steal typing"
    );
    assert_eq!(
        validate_utility_key("alt+ctrl+space", "X").unwrap_err(),
        "that combo is reserved for the talk key"
    );
    assert_eq!(
        validate_utility_key("Shift+Alt+Z", "shift+alt+z").unwrap_err(),
        "paste-last and copy-last must be different"
    );
    assert_eq!(validate_utility_key("", "X").unwrap_err(), "shortcut is empty");
}

#[test]
fn utility_keys_always_need_a_modifier() {
    for key in ["Escape", "Space", "F5", "7"] {
        assert_eq!(
            validate_utility_key(key, "Shift+Alt+X").unwrap_err(),
            format!("{key} needs a modifier so it does not steal typing")
        );
    }
    let k = validate_utility_key("Ctrl+F5", "Shift+Alt+X").unwrap();
    assert_eq!((k.ctrl, k.key.as_str()), (true, "F5"));
}

#[test]
fn one_shortcut_in_two_spellings_is_refused() {
    assert_eq!(
        validate_utility_key("Shift+Alt+Z", "Alt+Shift+Z").unwrap_err(),
        "paste-last and copy-last must be different"
    );
    assert_eq!(
        validate_utility_key("control+escape", "Ctrl+Esc").unwrap_err(),
        "paste-last and copy-last must be different"
    );
    assert!(validate_utility_key("Shift+Alt+Z", "no shortcut").is_ok());
}

fn combo(ctrl: bool, alt: bool, shift: bool, code: &str) -> KeyCombo {
    KeyCombo { ctrl, alt, shift, meta: false, code: code.to_owned() }
}

#[test]
fn pressed_shortcuts_act() {
    let act = |k: &KeyCombo| shortcut_action(k, "Shift+Alt+Z", "Shift+Alt+X");
    assert_eq!(act(&combo(true, true, false, "Space")), ShortcutAction::Toggle);
    assert_eq!(act(&combo(false, true, true, "KeyZ")), ShortcutAction::PasteLast);
    assert_eq!(act(&combo(false, true, true, "KeyX")), ShortcutAction::CopyLast);
    assert_eq!(act(&combo(false, true, false, "KeyX")), ShortcutAction::Nothing);
    assert_eq!(
        shortcut_action(&combo(false, false, false, "F5"), "garbage", "F5"),
        ShortcutAction::CopyLast
    );
}

fn state(recording: bool, owned: bool, last_tap_end: Option<u64>) -> TalkState {
    TalkState { recording, owned, last_tap_end }
}

#[test]
fn hold_starts_and_stops() {
    let m = talk_mode("hold");
    assert_eq!(talk_step(TalkEdge::Pressed, m, state(false, false, None), 1).0, TalkAction::Start);
    assert_eq!(talk_step(TalkEdge::Pressed, m, state(true, true, None), 1).0, TalkAction::Nothing);
    assert_eq!(talk_step(TalkEdge::Released, m, state(true, true, None), 1).0, TalkAction::Stop);
    assert_eq!(
        talk_step(TalkEdge::Released, m, state(true, false, None), 1).0,
        TalkAction::Nothing
    );
    assert_eq!(talk_mode("odd"), TalkMode::Unknown);
    assert_eq!(
        talk_step(TalkEdge::Pressed, TalkMode::Unknown, state(false, false, None), 1).0,
        TalkAction::Start
    );
    assert_eq!(
        talk_step(TalkEdge::Released, TalkMode::Unknown, state(true, true, None), 1).0,
        TalkAction::Nothing
    );
}

#[test]
fn toggle_turns_on_and_off() {
    let m = talk_mode("toggle");
    assert_eq!(talk_step(TalkEdge::Pressed, m, state(false, false, None), 1).0, TalkAction::Start);
    assert_eq!(talk_step(TalkEdge::Pressed, m, state(true, false, None), 1).0, TalkAction::Stop);
    assert_eq!(
        talk_step(TalkEdge::Released, m, state(true, true, Some(0)), 1),
        (TalkAction::Nothing, Some(0))
    );
}

#[test]
fn double_tap_needs_two_quick_taps() {
    let m = talk_mode("double_tap");
    let ms: u64 = 1_000_000;
    assert_eq!(
        talk_step(TalkEdge::Pressed, m, state(false, false, None), 5),
        (TalkAction::Nothing, None)
    );
    assert_eq!(
        talk_step(TalkEdge::Released, m, state(false, false, None), 5),
        (TalkAction::Nothing, Some(5))
    );
    assert_eq!(
        talk_step(TalkEdge::Pressed, m, state(false, false, Some(0)), 500 * ms - 1),
        (TalkAction::Start, None)
    );
    assert_eq!(
        talk_step(TalkEdge::Pressed, m, state(false, false, Some(0)), 500 * ms),
        (TalkAction::Nothing, Some(0))
    );
    assert_eq!(
        talk_step(TalkEdge::Released, m, state(true, true, None), 9),
        (TalkAction::Nothing, None)
    );
    assert_eq!(
        talk_step(TalkEdge::Pressed, m, state(true, true, Some(1)), 9),
        (TalkAction::Stop, None)
    );
}

#[test]
fn cancel_needs_an_owned_take_and_escape_does_not() {
    for m in [TalkMode::Hold, TalkMode::Toggle, TalkMode::DoubleTap, TalkMode::Unknown] {
        let owned = state(true, true, None);
        let foreign = state(true, false, None);
        let idle = state(false, false, None);
        assert_eq!(talk_step(TalkEdge::Cancel, m, owned, 1).0, TalkAction::Cancel);
        assert_eq!(talk_step(TalkEdge::Cancel, m, foreign, 1).0, TalkAction::Nothing);
        assert_eq!(talk_step(TalkEdge::Escape, m, foreign, 1).0, TalkAction::Cancel);
        assert_eq!(talk_step(TalkEdge::Escape, m, idle, 1).0, TalkAction::Nothing);
    }
}

fn event(etype: u32, flags: u64, keycode: i64) -> TapEvent {
    TapEvent { etype, flags, keycode }
}

#[test]
fn tap_reports_fn_and_swallows_it() {
    let s = TapState { was_down: false, last_edge: 0 };
    let (s, r) = tap_step(s, "Fn", event(FLAGS_CHANGED, FN_MASK, VK_FN), false, 1000);
    assert_eq!(r.edge, Some(TalkEdge::Pressed));
    assert!(r.swallow && s.was_down && s.last_edge == 1000);
    let (s, r) = tap_step(s, "Fn", event(KEY_DOWN, 0, VK_F19), true, 1001);
    assert!(r.edge.is_none() && s.was_down);
    let (s, r) = tap_step(s, "Fn", event(KEY_DOWN, 0, 8), true, 1100);
    assert_eq!(r.edge, Some(TalkEdge::Cancel));
    let (s, r) = tap_step(s, "Fn", event(FLAGS_CHANGED, 0, VK_FN), true, 1120);
    assert!(r.edge.is_none() && r.swallow && !s.was_down && s.last_edge == 1100);
    let (_, r) = tap_step(s, "Fn", event(FLAGS_CHANGED, 0, VK_LEFT_CMD), true, 2000);
    assert!(r.edge.is_none() && !r.swallow);
}

#[test]
fn tap_reports_f9_and_escape() {
    let s = TapState { was_down: false, last_edge: 0 };
    let (s, r) = tap_step(s, "F9", event(KEY_DOWN, 0, VK_F9), false, 100);
    assert_eq!(r.edge, Some(TalkEdge::Pressed));
    let (s, r) = tap_step(s, "F9", event(KEY_DOWN, 0, VK_F9), true, 200);
    assert!(r.edge.is_none());
    let (s, r) = tap_step(s, "F9", event(KEY_DOWN, 0, VK_ESC), true, 300);
    assert_eq!(r.edge, Some(TalkEdge::Escape));
    let (s, r) = tap_step(s, "F9", event(KEY_UP, 0, VK_F9), true, 400);
    assert_eq!(r.edge, Some(TalkEdge::Released));
    assert!(!s.was_down && !r.swallow);
    let (_, r) = tap_step(s, "F9", event(KEY_UP, 0, VK_F9), false, 500);
    assert!(r.edge.is_none());
}

#[test]
fn tap_is_switched_on_again() {
    let s = TapState { was_down: true, last_edge: 7 };
    for t in [TAP_DISABLED_TIMEOUT, TAP_DISABLED_USER] {
        let (after, r) = tap_step(s, "Fn", event(t, 0, 0), true, 9);
        assert!(r.reenable && r.edge.is_none());
        assert_eq!(after, s);
    }
    let (after, r) =
        tap_step(s, "CtrlAltSpace", event(FLAGS_CHANGED, FN_MASK, VK_FN), false, 1000);
    assert!(r.edge.is_none() && after == s);
}

#[test]
fn tap_details() {
    assert_eq!(talk_pressed("CtrlCmd", CTRL_MASK | CMD_MASK, VK_LEFT_CMD), Some(true));
    assert_eq!(talk_pressed("CtrlCmd", CTRL_MASK, VK_LEFT_CMD), Some(false));
    assert_eq!(talk_pressed("FnCtrl", FN_MASK | CTRL_MASK, VK_RIGHT_CTRL), Some(true));
    assert_eq!(talk_pressed("F9", 0, VK_F9), None);
    assert!(is_talk_keycode("CtrlWin", VK_LEFT_CTRL));
    assert!(!is_talk_keycode("CtrlWin", VK_RIGHT_CTRL));
    assert_eq!((mode_value("Fn"), mode_value("FnCtrl"), mode_value("F9")), (1, 2, 0));
    assert_eq!(emit_edge(100, TalkEdge::Pressed, 149), (100, None));
    assert_eq!(emit_edge(100, TalkEdge::Pressed, 150), (150, Some(TalkEdge::Pressed)));
    assert_eq!(emit_edge(100, TalkEdge::Pressed, 20), (100, None));
    assert!(is_terminal_app("com.apple.Terminal"));
    assert!(!is_terminal_app("com.apple.Safari"));
    assert!(suppresses_emoji(Some(TalkEdge::Pressed), 1, false));
    assert!(!suppresses_emoji(Some(TalkEdge::Pressed), 1, true));
    assert!(!suppresses_emoji(Some(TalkEdge::Released), 1, false));
    assert!(!suppresses_emoji(Some(TalkEdge::Pressed), 0, false));
}

fn poll(was_down: bool) -> PollState {
    PollState { was_down, was_esc: false, last_change: 0, last_esc: 0, prev_keys: vec![0; 256] }
}

#[test]
fn poll_reports_edges_after_the_bounce() {
    let mut s = poll(false);
    let vks = Some(vec![0xA3]);
    let r = poll_step(&mut s, &vks, true, false, false, vec![0; 256], 30_000_000);
    assert_eq!(r.talk, None);
    let r = poll_step(&mut s, &vks, true, false, false, vec![0; 256], 30_000_001);
    assert_eq!(r.talk, Some(TalkEdge::Pressed));
    assert!(s.was_down && s.last_change == 30_000_001);
    let r = poll_step(&mut s, &vks, false, true, false, vec![0; 256], 90_000_000);
    assert_eq!(r.talk, Some(TalkEdge::Released));
}

#[test]
fn poll_sees_intruders_and_escape() {
    let vks = Some(vec![0xA3]);
    let mut keys = vec![0u8; 256];
    keys[0x43] = 0x80;
    let mut s = poll(true);
    let r = poll_step(&mut s, &vks, true, true, true, keys.clone(), 40_000_000);
    assert!(r.cancel && r.escape && r.talk.is_none());
    let r = poll_step(&mut s, &vks, true, true, true, keys.clone(), 80_000_000);
    assert!(!r.cancel && !r.escape);
    let mut s = poll(true);
    let mut mouse = vec![0u8; 256];
    mouse[1] = 0x80;
    mouse[0xA3] = 0x80;
    let r = poll_step(&mut s, &vks, true, true, false, mouse, 40_000_000);
    assert!(!r.cancel);
    let mut s = poll(true);
    let r = poll_step(&mut s, &None, true, false, true, keys, 40_000_000);
    assert!(!r.cancel && !r.escape && r.talk.is_none() && !s.was_down && s.prev_keys[0x43] == 0x80);
}
