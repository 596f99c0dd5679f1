//! Talk keys and utility shortcuts.
//!
//! Windows polls the key state; macOS taps the session's events. Utility
//! shortcuts (paste-last and copy-last) are registered with the system on both.

pub mod macos;
pub mod talk;
pub mod windows;

use crate::chars;
use crate::chars::{cat, digit, str_eq, to_chars};
use crate::platform::Platform;
use crate::settings;
use crate::shortcuts;
use crate::shortcuts::{is_talk_combo, parse_shortcut, Combo, ShortcutSpec};
use crate::words;
use vstd::prelude::*;
use vstd::string::*;

verus! {

/// The talk combo.
pub const HOTKEY: &'static str = "Ctrl+Alt+Space";

/// What the talk key does.
#[derive(Debug, Clone, Copy, PartialEq, Eq, Structural)]
pub enum TalkEdge {
    Pressed,
    Released,
    /// Another key went down while the talk key was held: throw the take away.
    /// Applies only to takes that the talk key started.
    Cancel,
    /// Esc while any take is live: throw it away.
    Escape,
}

/// Whether the combo is the talk key, so that it is registered.
pub open spec fn is_combo_key(key: Seq<char>) -> bool {
    key == "CtrlAltSpace"@
}

pub fn registers_combo(key: &str) -> (r: bool)
    ensures
        r == is_combo_key(key@),
{
    str_eq(key, "CtrlAltSpace")
}

/// Whether the talk key can see events: the combo always, a tapped key on macOS
/// where the tap is live.
pub fn talk_key_live(key: &str, platform: Platform, tap_live: bool) -> (r: bool)
    ensures
        r == (is_combo_key(key@) || platform != Platform::MacOs || tap_live),
{
    str_eq(key, "CtrlAltSpace") || platform != Platform::MacOs || tap_live
}

/// Whether a platform has a talk key of this name, besides the combo.
pub open spec fn is_talk_key(key: Seq<char>, platform: Platform) -> bool {
    match platform {
        Platform::Windows => windows::codes(key) is Some,
        Platform::MacOs => macos::codes(key) is Some,
        Platform::Other => key == "LeftCtrl"@ || key == "RightCtrl"@ || key == "LeftAlt"@ || key
            == "RightAlt"@ || key == "F9"@,
    }
}

/// `Some` where a platform has a talk key of this name.
pub fn hotkey_vks(key: &str, platform: Platform) -> (r: Option<()>)
    ensures
        r is Some <==> is_talk_key(key@, platform),
{
    let known = match platform {
        Platform::Windows => crate::hotkey::windows::hotkey_vks(key).is_some(),
        Platform::MacOs => crate::hotkey::macos::talk_keys(key).is_some(),
        Platform::Other => str_eq(key, "LeftCtrl") || str_eq(key, "RightCtrl") || str_eq(
            key,
            "LeftAlt",
        ) || str_eq(key, "RightAlt") || str_eq(key, "F9"),
    };
    if known {
        Some(())
    } else {
        None
    }
}

/// A talk key of Windows or macOS that is stored in a settings file is one that
/// exists on the other too, once it is made native.
pub proof fn lemma_copied_key_exists(key: Seq<char>, from: Platform, to: Platform)
    requires
        from != Platform::Other,
        to != Platform::Other,
        is_talk_key(key, from) || is_combo_key(key),
    ensures
        is_talk_key(settings::native_key(key, to), to) || is_combo_key(
            settings::native_key(key, to),
        ),
{
}

/// A shortcut as the system registers it: modifiers and the name of a key code.
#[derive(Debug, PartialEq, Eq)]
pub struct KeyCombo {
    pub ctrl: bool,
    pub alt: bool,
    pub shift: bool,
    pub meta: bool,
    pub code: String,
}

/// The name of the key code of a standard key.
pub open spec fn code_of(key: Seq<char>) -> Option<Seq<char>> {
    if key.len() == 1 && 'A' <= key[0] <= 'Z' {
        Some("Key"@ + key)
    } else if key.len() == 1 && chars::is_digit(key[0]) {
        Some("Digit"@ + key)
    } else if key == "Space"@ || key == "Escape"@ || key == "F1"@ || key == "F2"@ || key == "F3"@
        || key == "F4"@ || key == "F5"@ || key == "F6"@ || key == "F7"@ || key == "F8"@ || key
        == "F9"@ || key == "F10"@ || key == "F11"@ || key == "F12"@ {
        Some(key)
    } else {
        None
    }
}

fn code_name(key: &str) -> (r: Option<String>)
    ensures
        (match r {
            Some(s) => Some(s@),
            None => None,
        }) == code_of(key@),
{
    let cs = to_chars(key);
    if cs.len() == 1 && 'A' <= cs[0] && cs[0] <= 'Z' {
        Some(cat("Key", key))
    } else if cs.len() == 1 && digit(cs[0]) {
        Some(cat("Digit", key))
    } else if str_eq(key, "Space") || str_eq(key, "Escape") || str_eq(key, "F1") || str_eq(
        key,
        "F2",
    ) || str_eq(key, "F3") || str_eq(key, "F4") || str_eq(key, "F5") || str_eq(key, "F6")
        || str_eq(key, "F7") || str_eq(key, "F8") || str_eq(key, "F9") || str_eq(key, "F10")
        || str_eq(key, "F11") || str_eq(key, "F12") {
        Some(key.to_owned())
    } else {
        None
    }
}

/// `k` is the shortcut `c` as the system registers it.
pub open spec fn registers(k: KeyCombo, c: Combo) -> bool {
    &&& k.ctrl == c.ctrl
    &&& k.alt == c.alt
    &&& k.shift == c.shift
    &&& k.meta == c.meta
    &&& code_of(c.key) == Some(k.code@)
}

pub fn spec_to_shortcut(spec: &ShortcutSpec) -> (r: Result<KeyCombo, String>)
    ensures
        match r {
            Ok(k) => registers(k, spec@),
            Err(e) => code_of(spec.key@) is None && e@ == "unsupported shortcut key: "@
                + spec.key@,
        },
{
    match code_name(spec.key.as_str()) {
        Some(code) => Ok(
            KeyCombo { ctrl: spec.ctrl, alt: spec.alt, shift: spec.shift, meta: spec.meta, code },
        ),
        None => Err(cat("unsupported shortcut key: ", spec.key.as_str())),
    }
}

/// Every shortcut that parses can be registered.
pub proof fn lemma_parsed_can_register(s: Seq<char>)
    ensures
        shortcuts::parsed(s) matches Ok(c) ==> code_of(c.key) is Some,
{
    shortcuts::lemma_parsed_key(s);
    if let Ok(c) = shortcuts::parsed(s) {
        let k = c.key;
        if !shortcuts::is_typing_key(k) && k != "Space"@ && k != "Escape"@ {
            let n = choose|n: nat| 1 <= n <= 12 && k == "F"@ + #[trigger] words::decimal(n);
            lemma_function_code(n);
        }
    }
}

/// The function keys have codes.
pub proof fn lemma_function_code(n: nat)
    requires
        1 <= n <= 12,
    ensures
        code_of("F"@ + words::decimal(n)) is Some,
{
    reveal_strlit("F");
    reveal_strlit("F1");
    reveal_strlit("F2");
    reveal_strlit("F3");
    reveal_strlit("F4");
    reveal_strlit("F5");
    reveal_strlit("F6");
    reveal_strlit("F7");
    reveal_strlit("F8");
    reveal_strlit("F9");
    reveal_strlit("F10");
    reveal_strlit("F11");
    reveal_strlit("F12");
    reveal_with_fuel(words::decimal, 2);
    let k = "F"@ + words::decimal(n);
    if n == 1 {
        assert(k =~= "F1"@);
    } else if n == 2 {
        assert(k =~= "F2"@);
    } else if n == 3 {
        assert(k =~= "F3"@);
    } else if n == 4 {
        assert(k =~= "F4"@);
    } else if n == 5 {
        assert(k =~= "F5"@);
    } else if n == 6 {
        assert(k =~= "F6"@);
    } else if n == 7 {
        assert(k =~= "F7"@);
    } else if n == 8 {
        assert(k =~= "F8"@);
    } else if n == 9 {
        assert(k =~= "F9"@);
    } else if n == 10 {
        assert(k =~= "F10"@);
    } else if n == 11 {
        assert(k =~= "F11"@);
    } else {
        assert(k =~= "F12"@);
    }
}

/// A utility shortcut, or why it is none. It carries a modifier, it is not the
/// talk combo, and `other` does not spell the same shortcut.
pub open spec fn utility_key(raw: Seq<char>, other: Seq<char>) -> Result<Combo, Seq<char>> {
    match shortcuts::parsed(raw) {
        Err(e) => Err(e),
        Ok(c) => if !shortcuts::has_modifier(c) {
            Err(raw + " needs a modifier so it does not steal typing"@)
        } else if shortcuts::is_reserved(c) {
            Err("that combo is reserved for the talk key"@)
        } else if shortcuts::parsed(other) == Ok::<Combo, Seq<char>>(c) {
            Err("paste-last and copy-last must be different"@)
        } else {
            Ok(c)
        },
    }
}

/// Whether a text spells this shortcut.
fn spells(text: &str, spec: &ShortcutSpec) -> (r: bool)
    ensures
        r == (shortcuts::parsed(text@) == Ok::<Combo, Seq<char>>(spec@)),
{
    match parse_shortcut(text) {
        Ok(s) => {
            let same = s.ctrl == spec.ctrl && s.alt == spec.alt && s.shift == spec.shift && s.meta
                == spec.meta && str_eq(s.key.as_str(), spec.key.as_str());
            assert(same ==> s@ =~= spec@);
            same
        },
        Err(_) => false,
    }
}

pub fn validate_utility_key(raw: &str, other: &str) -> (r: Result<ShortcutSpec, String>)
    ensures
        shortcuts::said(r) == utility_key(raw@, other@),
{
    let spec = match parse_shortcut(raw) {
        Ok(s) => s,
        Err(e) => {
            return Err(e);
        },
    };
    if !(spec.ctrl || spec.alt || spec.shift || spec.meta) {
        return Err(cat(raw, " needs a modifier so it does not steal typing"));
    }
    if is_talk_combo(&spec) {
        return Err("that combo is reserved for the talk key".to_owned());
    }
    if spells(other, &spec) {
        return Err("paste-last and copy-last must be different".to_owned());
    }
    Ok(spec)
}

/// What a registered shortcut does.
#[derive(Debug, Clone, Copy, PartialEq, Eq, Structural)]
pub enum ShortcutAction {
    Toggle,
    PasteLast,
    CopyLast,
    Nothing,
}

/// Whether a pressed shortcut is the one that a setting spells.
pub open spec fn is_setting(pressed: KeyCombo, setting: Seq<char>) -> bool {
    shortcuts::parsed(setting) matches Ok(c) && registers(pressed, c)
}

fn matches_setting(pressed: &KeyCombo, setting: &str) -> (r: bool)
    ensures
        r == is_setting(*pressed, setting@),
{
    match parse_shortcut(setting) {
        Ok(spec) => match spec_to_shortcut(&spec) {
            Ok(k) => pressed.ctrl == k.ctrl && pressed.alt == k.alt && pressed.shift == k.shift
                && pressed.meta == k.meta && str_eq(pressed.code.as_str(), k.code.as_str()),
            Err(_) => false,
        },
        Err(_) => false,
    }
}

/// The talk combo, as the system registers it.
pub open spec fn is_hotkey(k: KeyCombo) -> bool {
    k.ctrl && k.alt && !k.shift && !k.meta && k.code@ == "Space"@
}

/// What a pressed shortcut does: the talk combo toggles the take, then paste-last
/// goes before copy-last.
pub fn shortcut_action(
    pressed: &KeyCombo,
    paste_last_key: &str,
    copy_last_key: &str,
) -> (r: ShortcutAction)
    ensures
        r == (if is_hotkey(*pressed) {
            ShortcutAction::Toggle
        } else if is_setting(*pressed, paste_last_key@) {
            ShortcutAction::PasteLast
        } else if is_setting(*pressed, copy_last_key@) {
            ShortcutAction::CopyLast
        } else {
            ShortcutAction::Nothing
        }),
{
    if pressed.ctrl && pressed.alt && !pressed.shift && !pressed.meta && str_eq(
        pressed.code.as_str(),
        "Space",
    ) {
        return ShortcutAction::Toggle;
    }
    if matches_setting(pressed, paste_last_key) {
        return ShortcutAction::PasteLast;
    }
    if matches_setting(pressed, copy_last_key) {
        return ShortcutAction::CopyLast;
    }
    ShortcutAction::Nothing
}

/// Two utility shortcuts that were accepted beside each other are never pressed
/// by one and the same combo.
pub proof fn lemma_utilities_differ(paste: Seq<char>, copy: Seq<char>, k: KeyCombo)
    requires
        utility_key(paste, copy) is Ok,
        is_setting(k, paste),
    ensures
        !is_setting(k, copy),
{
    if is_setting(k, copy) {
        let a = shortcuts::parsed(paste)->Ok_0;
        let b = shortcuts::parsed(copy)->Ok_0;
        lemma_code_tells_key(a.key, b.key);
        assert(a =~= b);
    }
}

/// Different keys have different codes.
proof fn lemma_code_tells_key(a: Seq<char>, b: Seq<char>)
    requires
        code_of(a) is Some,
        code_of(a) == code_of(b),
    ensures
        a == b,
{
    reveal_strlit("Key");
    reveal_strlit("Digit");
    reveal_strlit("Space");
    reveal_strlit("Escape");
    reveal_strlit("F1");
    reveal_strlit("F2");
    reveal_strlit("F3");
    reveal_strlit("F4");
    reveal_strlit("F5");
    reveal_strlit("F6");
    reveal_strlit("F7");
    reveal_strlit("F8");
    reveal_strlit("F9");
    reveal_strlit("F10");
    reveal_strlit("F11");
    reveal_strlit("F12");
    let code = code_of(a)->Some_0;
    if a.len() == 1 && 'A' <= a[0] <= 'Z' {
        assert(code[0] == 'K' && code.len() == 4 && code[3] == a[0]);
    } else if a.len() == 1 && chars::is_digit(a[0]) {
        assert(code[0] == 'D' && code.len() == 6 && code[5] == a[0]);
    } else {
        assert(code == a && a[0] != 'K' && a[0] != 'D');
    }
    if b.len() == 1 && 'A' <= b[0] <= 'Z' {
        assert(code[0] == 'K' && code.len() == 4 && code[3] == b[0]);
    } else if b.len() == 1 && chars::is_digit(b[0]) {
        assert(code[0] == 'D' && code.len() == 6 && code[5] == b[0]);
    } else {
        assert(code == b && b[0] != 'K' && b[0] != 'D');
    }
    assert(a =~= b);
}

/// A utility shortcut that was accepted is never taken for the talk combo.
pub proof fn lemma_utility_is_not_the_talk_combo(raw: Seq<char>, other: Seq<char>, k: KeyCombo)
    requires
        utility_key(raw, other) matches Ok(c) && registers(k, c),
    ensures
        !is_hotkey(k),
{
    reveal_strlit("Space");
    reveal_strlit("Key");
    reveal_strlit("Digit");
    let c = utility_key(raw, other)->Ok_0;
    if is_hotkey(k) {
        assert(k.code@.len() == 5);
        if c.key.len() == 1 && 'A' <= c.key[0] <= 'Z' {
            assert(k.code@.len() == 4);
        } else if c.key.len() == 1 && chars::is_digit(c.key[0]) {
            assert(k.code@.len() == 6);
        } else {
            assert(c.key == "Space"@);
        }
    }
}

} // verus!
