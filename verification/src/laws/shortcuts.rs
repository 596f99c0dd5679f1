//! Shortcuts as texts.

use crate::chars;
use crate::hotkey;
use crate::hotkey::{KeyCombo, ShortcutAction};
use crate::laws::texts;
use crate::platform::Platform;
use crate::shortcuts;
use crate::shortcuts::Combo;
use crate::words;
use crate::words::Class;
use vstd::prelude::*;
use vstd::string::*;

verus! {

proof fn lemma_token_names()
    ensures
        "ctrl"@.len() == 4 && "ctrl"@[0] == 'c',
        "control"@.len() == 7 && "control"@[0] == 'c',
        "alt"@.len() == 3 && "alt"@[0] == 'a',
        "option"@.len() == 6 && "option"@[0] == 'o',
        "shift"@.len() == 5 && "shift"@[1] == 'h',
        "meta"@.len() == 4 && "meta"@[0] == 'm',
        "win"@.len() == 3 && "win"@[0] == 'w',
        "super"@.len() == 5 && "super"@[1] == 'u',
        "cmd"@.len() == 3 && "cmd"@[0] == 'c',
        "space"@.len() == 5 && "space"@[1] == 'p',
        "escape"@.len() == 6 && "escape"@[0] == 'e',
        "esc"@.len() == 3 && "esc"@[0] == 'e',
{
    reveal_strlit("ctrl");
    reveal_strlit("control");
    reveal_strlit("alt");
    reveal_strlit("option");
    reveal_strlit("shift");
    reveal_strlit("meta");
    reveal_strlit("win");
    reveal_strlit("super");
    reveal_strlit("cmd");
    reveal_strlit("space");
    reveal_strlit("escape");
    reveal_strlit("esc");
}

/// Each modifier token sets its own modifier and nothing else.
pub proof fn lemma_modifier_tokens(c: Combo)
    ensures
        ({
            let ctrl = Ok::<Combo, Seq<char>>(Combo { ctrl: true, ..c });
            let alt = Ok::<Combo, Seq<char>>(Combo { alt: true, ..c });
            let shift = Ok::<Combo, Seq<char>>(Combo { shift: true, ..c });
            let meta = Ok::<Combo, Seq<char>>(Combo { meta: true, ..c });
            &&& shortcuts::with_token(c, "ctrl"@) == ctrl
            &&& shortcuts::with_token(c, "control"@) == ctrl
            &&& shortcuts::with_token(c, "alt"@) == alt
            &&& shortcuts::with_token(c, "option"@) == alt
            &&& shortcuts::with_token(c, "shift"@) == shift
            &&& shortcuts::with_token(c, "meta"@) == meta
            &&& shortcuts::with_token(c, "win"@) == meta
            &&& shortcuts::with_token(c, "super"@) == meta
            &&& shortcuts::with_token(c, "cmd"@) == meta
        }),
{
    lemma_token_names();
}

/// A token that is no modifier is the key, and there is one key at most.
pub proof fn lemma_key_tokens(c: Combo, t: Seq<char>)
    requires
        t != "ctrl"@ && t != "control"@ && t != "alt"@ && t != "option"@ && t != "shift"@ && t
            != "meta"@ && t != "win"@ && t != "super"@ && t != "cmd"@,
    ensures
        c.key.len() > 0 ==> shortcuts::with_token(c, t) == Err::<Combo, Seq<char>>(
            "shortcut has two keys: "@ + c.key + " and "@ + t,
        ),
        c.key.len() == 0 && shortcuts::key_name(t) is Some ==> shortcuts::with_token(c, t) == Ok::<
            Combo,
            Seq<char>,
        >(Combo { key: shortcuts::key_name(t)->0, ..c }),
        c.key.len() == 0 && shortcuts::key_name(t) is None ==> shortcuts::with_token(c, t) == Err::<
            Combo,
            Seq<char>,
        >("unknown shortcut key: "@ + t),
{
}

/// Parts are read one after the other, in any case and with white space around them.
pub proof fn lemma_parts(parts: Seq<Seq<char>>, p: Seq<char>, t: Seq<char>, q: Seq<char>)
    requires
        texts::all_in(p, Class::White),
        texts::is_core(t, Class::White),
        texts::all_in(q, Class::White),
    ensures
        ({
            let n = parts.len() as int;
            let more = parts.push(p + t + q);
            &&& shortcuts::combo_of(parts, n) matches Ok(c) ==> shortcuts::combo_of(more, n + 1)
                == shortcuts::with_token(c, chars::lower(t))
            &&& shortcuts::combo_of(parts, n) is Err ==> shortcuts::combo_of(more, n + 1)
                == shortcuts::combo_of(parts, n)
            &&& shortcuts::combo_of(parts, n) is Ok ==> shortcuts::combo_of(parts.push(p), n + 1)
                == Err::<Combo, Seq<char>>("shortcut has an empty token"@)
        }),
        shortcuts::combo_of(Seq::empty(), 0) matches Ok(c) && !c.ctrl && !c.alt && !c.shift
            && !c.meta && c.key.len() == 0,
{
    let n = parts.len() as int;
    texts::lemma_trim_keeps_core(p, t, q, Class::White);
    texts::lemma_trim_takes_all(p, Class::White);
    lemma_same_parts(parts, parts.push(p + t + q), n);
    lemma_same_parts(parts, parts.push(p), n);
}

proof fn lemma_same_parts(a: Seq<Seq<char>>, b: Seq<Seq<char>>, n: int)
    requires
        0 <= n <= a.len(),
        n <= b.len(),
        forall|i: int| 0 <= i < n ==> a[i] == b[i],
    ensures
        shortcuts::combo_of(a, n) == shortcuts::combo_of(b, n),
    decreases n,
{
    if n > 0 {
        lemma_same_parts(a, b, n - 1);
        assert(a[n - 1] == b[n - 1]);
    }
}

/// A text is taken apart at each plus sign, and has to name a key.
pub proof fn lemma_parsed(parts: Seq<Seq<char>>)
    requires
        parts.len() > 0,
        forall|i: int| 0 <= i < parts.len() ==> !(#[trigger] parts[i]).contains('+'),
        texts::is_core(words::join(parts, seq!['+']), Class::White),
    ensures
        ({
            let r = shortcuts::combo_of(parts, parts.len() as int);
            let s = shortcuts::parsed(words::join(parts, seq!['+']));
            &&& r is Err ==> s == r
            &&& r matches Ok(c) ==> s == (if c.key.len() > 0 {
                Ok(c)
            } else {
                Err("shortcut has no key"@)
            })
        }),
{
    words::lemma_split_of_join(parts, '+');
    words::lemma_trimmed(words::join(parts, seq!['+']));
}

/// A blank text is no shortcut.
pub proof fn lemma_blank_is_no_shortcut(s: Seq<char>)
    requires
        texts::all_in(s, Class::White),
    ensures
        shortcuts::parsed(s) == Err::<Combo, Seq<char>>("shortcut is empty"@),
{
    texts::lemma_trim_takes_all(s, Class::White);
}

/// A letter names its capital, a digit itself.
pub proof fn lemma_letter_keys(c: char)
    ensures
        'a' <= c <= 'z' ==> shortcuts::key_name(seq![c]) == Some(
            seq![(c as u32 - ('a' as u32 - 'A' as u32)) as char],
        ),
        'A' <= c <= 'Z' || '0' <= c <= '9' ==> shortcuts::key_name(seq![c]) == Some(seq![c]),
{
    if 'a' <= c <= 'z' || 'A' <= c <= 'Z' || '0' <= c <= '9' {
        words::lemma_trimmed(seq![c]);
    }
}

/// The keys with names of more than one character, in any case.
pub proof fn lemma_named_keys(t: Seq<char>)
    requires
        texts::is_core(t, Class::White),
    ensures
        chars::lower(t) == "space"@ ==> shortcuts::key_name(t) == Some("Space"@),
        chars::lower(t) == "escape"@ || chars::lower(t) == "esc"@ ==> shortcuts::key_name(t)
            == Some("Escape"@),
        t.len() > 1 && shortcuts::key_name(t) is Some ==> chars::lower(t) == "space"@
            || chars::lower(t) == "escape"@ || chars::lower(t) == "esc"@ || t[0] == 'f' || t[0]
            == 'F',
{
    lemma_token_names();
    words::lemma_trimmed(t);
    if t.len() > 1 && shortcuts::key_name(t) is Some {
        assert(chars::lower(t)[0] == chars::lower_char(t[0]));
    }
}

/// The function keys are F1 to F12.
pub proof fn lemma_function_keys(n: nat)
    requires
        n < 1000,
    ensures
        ({
            let name = seq!['f'] + words::decimal(n);
            &&& 1 <= n <= 12 ==> shortcuts::key_name(name) == Some(seq!['F'] + words::decimal(n))
            &&& !(1 <= n <= 12) ==> shortcuts::key_name(name) is None
        }),
{
    reveal_strlit("F");
    assert("F"@ =~= seq!['F']);
    lemma_token_names();
    let d = words::decimal(n);
    lemma_decimal_digits(n);
    let name = seq!['f'] + d;
    assert(name.last() == d.last());
    words::lemma_trimmed(name);
    assert(chars::lower(name) =~= name) by {
        assert forall|i: int| 0 <= i < name.len() implies chars::lower(name)[i] == name[i] by {
            if i > 0 {
                assert(name[i] == d[i - 1]);
            }
        }
    }
    assert(name[1] == d[0]);
    assert(name.drop_first() =~= d);
}

proof fn lemma_decimal_digits(n: nat)
    ensures
        words::decimal(n).len() > 0,
        shortcuts::all_digits(words::decimal(n)),
        shortcuts::digits_value(words::decimal(n)) == n,
    decreases n,
{
    let d = words::decimal(n);
    if n < 10 {
        reveal_with_fuel(shortcuts::digits_value, 2);
        assert(d.drop_last() =~= Seq::empty());
    } else {
        lemma_decimal_digits(n / 10);
        assert(d.drop_last() =~= words::decimal(n / 10));
        assert forall|i: int| 0 <= i < d.len() implies chars::is_digit(#[trigger] d[i]) by {
            if i < d.len() - 1 {
                assert(d[i] == words::decimal(n / 10)[i]);
            }
        }
    }
}

/// A shortcut is written with its modifiers first, in the order Ctrl, Shift, Alt and
/// the meta key, which macOS calls Cmd.
pub proof fn lemma_written(c: Combo, platform: Platform)
    ensures
        shortcuts::formatted(c, platform) == (if c.ctrl {
            "Ctrl+"@
        } else {
            Seq::empty()
        }) + (if c.shift {
            "Shift+"@
        } else {
            Seq::empty()
        }) + (if c.alt {
            "Alt+"@
        } else {
            Seq::empty()
        }) + (if c.meta {
            if platform == Platform::MacOs {
                "Cmd+"@
            } else {
                "Win+"@
            }
        } else {
            Seq::empty()
        }) + c.key,
{
    reveal_strlit("Ctrl+");
    reveal_strlit("Shift+");
    reveal_strlit("Alt+");
    reveal_strlit("Cmd+");
    reveal_strlit("Win+");
    reveal_strlit("Ctrl");
    reveal_strlit("Shift");
    reveal_strlit("Alt");
    reveal_strlit("Cmd");
    reveal_strlit("Win");
    reveal_strlit("+");
    let sep = "+"@;
    let k = seq![c.key];
    assert(words::join(k, sep) == c.key);
    let m = shortcuts::meta_label(platform);
    let a4 = if c.meta {
        seq![m] + k
    } else {
        k
    };
    let t4 = (if c.meta {
        m + sep
    } else {
        Seq::empty()
    }) + c.key;
    assert(words::join(a4, sep) =~= t4) by {
        if c.meta {
            texts::lemma_join_parts(seq![m], k, sep);
        }
    }
    let a3 = if c.alt {
        seq!["Alt"@] + a4
    } else {
        a4
    };
    let t3 = (if c.alt {
        "Alt"@ + sep
    } else {
        Seq::empty()
    }) + t4;
    assert(words::join(a3, sep) =~= t3) by {
        if c.alt {
            texts::lemma_join_parts(seq!["Alt"@], a4, sep);
        }
    }
    let a2 = if c.shift {
        seq!["Shift"@] + a3
    } else {
        a3
    };
    let t2 = (if c.shift {
        "Shift"@ + sep
    } else {
        Seq::empty()
    }) + t3;
    assert(words::join(a2, sep) =~= t2) by {
        if c.shift {
            texts::lemma_join_parts(seq!["Shift"@], a3, sep);
        }
    }
    let a1 = if c.ctrl {
        seq!["Ctrl"@] + a2
    } else {
        a2
    };
    let t1 = (if c.ctrl {
        "Ctrl"@ + sep
    } else {
        Seq::empty()
    }) + t2;
    assert(words::join(a1, sep) =~= t1) by {
        if c.ctrl {
            texts::lemma_join_parts(seq!["Ctrl"@], a2, sep);
        }
    }
    assert(shortcuts::labels(c, platform) =~= a1);
    assert("Ctrl"@ + sep =~= "Ctrl+"@ && "Shift"@ + sep =~= "Shift+"@ && "Alt"@ + sep =~= "Alt+"@
        && "Cmd"@ + sep =~= "Cmd+"@ && "Win"@ + sep =~= "Win+"@);
    assert(shortcuts::formatted(c, platform) =~= (if c.ctrl {
        "Ctrl+"@
    } else {
        Seq::empty()
    }) + (if c.shift {
        "Shift+"@
    } else {
        Seq::empty()
    }) + (if c.alt {
        "Alt+"@
    } else {
        Seq::empty()
    }) + (if c.meta {
        if platform == Platform::MacOs {
            "Cmd+"@
        } else {
            "Win+"@
        }
    } else {
        Seq::empty()
    }) + c.key);
}

/// A utility shortcut carries a modifier, is not the talk combo, and differs from the
/// other one; any shortcut that does is accepted as it was read.
pub proof fn lemma_utility(raw: Seq<char>, other: Seq<char>)
    ensures
        shortcuts::parsed(raw) matches Err(e) ==> hotkey::utility_key(raw, other) == Err::<
            Combo,
            Seq<char>,
        >(e),
        shortcuts::parsed(raw) matches Ok(c) ==> {
            let bare = !c.ctrl && !c.alt && !c.shift && !c.meta;
            let talk = c.ctrl && c.alt && !c.shift && !c.meta && c.key == "Space"@;
            let same = shortcuts::parsed(other) == Ok::<Combo, Seq<char>>(c);
            &&& hotkey::utility_key(raw, other) == Ok::<Combo, Seq<char>>(c) <==> !bare && !talk
                && !same
            &&& bare ==> hotkey::utility_key(raw, other) == Err::<Combo, Seq<char>>(
                raw + " needs a modifier so it does not steal typing"@,
            )
            &&& talk ==> hotkey::utility_key(raw, other) == Err::<Combo, Seq<char>>(
                "that combo is reserved for the talk key"@,
            )
            &&& same && !bare && !talk ==> hotkey::utility_key(raw, other) == Err::<
                Combo,
                Seq<char>,
            >("paste-last and copy-last must be different"@)
        },
{
}

/// A letter key is registered as `Key` and the letter, a digit key as `Digit` and the
/// digit, and the other keys under their own names.
pub proof fn lemma_key_codes(c: char, n: nat)
    requires
        1 <= n <= 12,
    ensures
        'A' <= c <= 'Z' ==> hotkey::code_of(seq![c]) == Some("Key"@ + seq![c]),
        '0' <= c <= '9' ==> hotkey::code_of(seq![c]) == Some("Digit"@ + seq![c]),
        hotkey::code_of("Space"@) == Some("Space"@),
        hotkey::code_of("Escape"@) == Some("Escape"@),
        hotkey::code_of(seq!['F'] + words::decimal(n)) == Some(seq!['F'] + words::decimal(n)),
{
    reveal_strlit("Space");
    reveal_strlit("Escape");
    reveal_strlit("F");
    assert("F"@ =~= seq!['F']);
    assert("Space"@.len() == 5 && "Escape"@.len() == 6);
    hotkey::lemma_function_code(n);
    lemma_decimal_digits(n);
}

/// A shortcut is registered with its own modifiers and the code of its key.
pub proof fn lemma_registered(k: KeyCombo, c: Combo)
    requires
        hotkey::registers(k, c),
    ensures
        k.ctrl == c.ctrl && k.alt == c.alt && k.shift == c.shift && k.meta == c.meta,
        hotkey::code_of(c.key) == Some(k.code@),
{
}

/// What a pressed shortcut does.
pub proof fn lemma_pressed_shortcut(
    pressed: &KeyCombo,
    paste_last: &str,
    copy_last: &str,
    r: ShortcutAction,
)
    requires
        call_ensures(crate::hotkey::shortcut_action, (pressed, paste_last, copy_last), r),
    ensures
        ({
            let talk = pressed.ctrl && pressed.alt && !pressed.shift && !pressed.meta
                && pressed.code@ == "Space"@;
            let paste = hotkey::is_setting(*pressed, paste_last@);
            let copy = hotkey::is_setting(*pressed, copy_last@);
            &&& r == ShortcutAction::Toggle <==> talk
            &&& r == ShortcutAction::PasteLast <==> !talk && paste
            &&& r == ShortcutAction::CopyLast <==> !talk && !paste && copy
        }),
{
}

} // verus!
