//! User-facing shortcut strings (`Shift+Alt+Z`).
//!
//! Utility shortcuts (paste-last and copy-last) need a modifier with a bare
//! letter or digit, so that they never steal typing. `Ctrl+Alt+Space` is
//! reserved for the talk combo.

use crate::chars;
use crate::chars::{ascii_letter, cat, digit, lowered, str_eq, to_chars, upper_one};
use crate::platform::Platform;
use crate::words;
use crate::words::{join_strings, number, split_char, trimmed, Class};
use vstd::prelude::*;
use vstd::string::*;

verus! {

/// A key with its modifiers.
#[derive(Debug, PartialEq, Eq)]
pub struct ShortcutSpec {
    pub ctrl: bool,
    pub alt: bool,
    pub shift: bool,
    pub meta: bool,
    pub key: String,
}

/// What a shortcut says.
pub struct Combo {
    pub ctrl: bool,
    pub alt: bool,
    pub shift: bool,
    pub meta: bool,
    pub key: Seq<char>,
}

impl View for ShortcutSpec {
    type V = Combo;

    open spec fn view(&self) -> Combo {
        Combo {
            ctrl: self.ctrl,
            alt: self.alt,
            shift: self.shift,
            meta: self.meta,
            key: self.key@,
        }
    }
}

impl Clone for ShortcutSpec {
    fn clone(&self) -> (r: Self)
        ensures
            r == *self,
    {
        ShortcutSpec {
            ctrl: self.ctrl,
            alt: self.alt,
            shift: self.shift,
            meta: self.meta,
            key: self.key.clone(),
        }
    }
}

pub fn default_paste_last() -> (r: String)
    ensures
        r@ == "Shift+Alt+Z"@,
{
    "Shift+Alt+Z".to_owned()
}

pub fn default_copy_last() -> (r: String)
    ensures
        r@ == "Shift+Alt+X"@,
{
    "Shift+Alt+X".to_owned()
}

/// Whether every character is a decimal digit.
pub open spec fn all_digits(s: Seq<char>) -> bool {
    forall|i: int| 0 <= i < s.len() ==> chars::is_digit(#[trigger] s[i])
}

/// The number that decimal digits spell.
pub open spec fn digits_value(s: Seq<char>) -> nat
    decreases s.len(),
{
    if s.len() == 0 {
        0
    } else {
        10 * digits_value(s.drop_last()) + ((s.last() as u32) - 48) as nat
    }
}

/// The number that a text in decimal spells, with at most one `+` before it.
pub open spec fn decimal_value(s: Seq<char>) -> Option<nat> {
    let d = if s.len() > 0 && s[0] == '+' {
        s.drop_first()
    } else {
        s
    };
    if d.len() > 0 && all_digits(d) {
        Some(digits_value(d))
    } else {
        None
    }
}

/// The number of a function key, for a name in lower case.
pub open spec fn function_key(s: Seq<char>) -> Option<nat> {
    if s.len() > 0 && s[0] == 'f' {
        match decimal_value(s.drop_first()) {
            Some(n) => if 1 <= n <= 12 {
                Some(n)
            } else {
                None
            },
            None => None,
        }
    } else {
        None
    }
}

/// The standard name of the key that a token names.
pub open spec fn key_name(token: Seq<char>) -> Option<Seq<char>> {
    let t = words::trim(token);
    let low = chars::lower(t);
    if t.len() == 1 && (chars::is_ascii_letter(t[0]) || chars::is_digit(t[0])) {
        Some(seq![chars::upper_char(t[0])])
    } else if low == "space"@ {
        Some("Space"@)
    } else if low == "escape"@ || low == "esc"@ {
        Some("Escape"@)
    } else {
        match function_key(low) {
            Some(n) => Some("F"@ + words::decimal(n)),
            None => None,
        }
    }
}

/// A number of at most three digits' worth, or 1000 for any larger one.
fn read_digits(cs: &Vec<char>, from: usize) -> (r: Option<u32>)
    requires
        from <= cs.len(),
    ensures
        ({
            let d = cs@.skip(from as int);
            r == if d.len() > 0 && all_digits(d) {
                Some(
                    if digits_value(d) < 1000 {
                        digits_value(d) as u32
                    } else {
                        1000u32
                    },
                )
            } else {
                None
            }
        }),
{
    let ghost d = cs@.skip(from as int);
    if from == cs.len() {
        return None;
    }
    let mut v: u32 = 0;
    let mut i: usize = from;
    while i < cs.len()
        invariant
            from <= i <= cs.len(),
            d == cs@.skip(from as int),
            all_digits(d.take(i - from)),
            v == if digits_value(d.take(i - from)) < 1000 {
                digits_value(d.take(i - from)) as int
            } else {
                1000
            },
        decreases cs.len() - i,
    {
        assert(d[i - from] == cs@[i as int]);
        if !digit(cs[i]) {
            return None;
        }
        assert(d.take(i + 1 - from).drop_last() =~= d.take(i - from));
        let n: u32 = v * 10 + (cs[i] as u32 - 48);
        v = if n < 1000 { n } else { 1000 };
        assert forall|k: int| 0 <= k < i + 1 - from implies chars::is_digit(
            #[trigger] d.take(i + 1 - from)[k],
        ) by {
            if k < i - from {
                assert(d.take(i - from)[k] == d[k]);
            }
        }
        i += 1;
    }
    assert(d.take(i - from) =~= d);
    Some(v)
}

fn function_number(low: &str) -> (r: Option<u32>)
    ensures
        (match r {
            Some(n) => Some(n as nat),
            None => None,
        }) == function_key(low@),
{
    let cs = to_chars(low);
    if cs.len() == 0 || cs[0] != 'f' {
        return None;
    }
    let ghost rest = low@.drop_first();
    let from: usize = if cs.len() > 1 && cs[1] == '+' {
        assert(rest[0] == '+');
        2
    } else {
        assert(rest.len() > 0 ==> rest[0] != '+');
        1
    };
    assert(cs@.skip(1) =~= rest);
    assert(from == 2 ==> cs@.skip(2) =~= rest.drop_first());
    match read_digits(&cs, from) {
        Some(n) => if 1 <= n && n <= 12 {
            Some(n)
        } else {
            None
        },
        None => None,
    }
}

/// The standard name of a key, or an error that names the token.
pub fn normalize_key(token: &str) -> (r: Result<String, String>)
    ensures
        match r {
            Ok(k) => key_name(token@) == Some(k@),
            Err(e) => key_name(token@) is None && e@ == "unknown shortcut key: "@ + token@,
        },
{
    let t = trimmed(token);
    let cs = to_chars(t.as_str());
    if cs.len() == 1 && (ascii_letter(cs[0]) || digit(cs[0])) {
        let mut k = String::new();
        k.push(upper_one(cs[0]));
        assert(k@ =~= seq![chars::upper_char(cs@[0])]);
        return Ok(k);
    }
    let low = lowered(t.as_str());
    if str_eq(low.as_str(), "space") {
        return Ok("Space".to_owned());
    }
    if str_eq(low.as_str(), "escape") || str_eq(low.as_str(), "esc") {
        return Ok("Escape".to_owned());
    }
    match function_number(low.as_str()) {
        Some(n) => {
            let d = number(n as u128);
            Ok(cat("F", d.as_str()))
        },
        None => Err(cat("unknown shortcut key: ", token)),
    }
}

pub open spec fn is_ctrl(t: Seq<char>) -> bool {
    t == "ctrl"@ || t == "control"@
}

pub open spec fn is_alt(t: Seq<char>) -> bool {
    t == "alt"@ || t == "option"@
}

pub open spec fn is_shift(t: Seq<char>) -> bool {
    t == "shift"@
}

pub open spec fn is_meta(t: Seq<char>) -> bool {
    t == "meta"@ || t == "win"@ || t == "super"@ || t == "cmd"@
}

/// A shortcut with one more token, given in lower case.
pub open spec fn with_token(c: Combo, t: Seq<char>) -> Result<Combo, Seq<char>> {
    if is_ctrl(t) {
        Ok(Combo { ctrl: true, ..c })
    } else if is_alt(t) {
        Ok(Combo { alt: true, ..c })
    } else if is_shift(t) {
        Ok(Combo { shift: true, ..c })
    } else if is_meta(t) {
        Ok(Combo { meta: true, ..c })
    } else if c.key.len() > 0 {
        Err("shortcut has two keys: "@ + c.key + " and "@ + t)
    } else {
        match key_name(t) {
            Some(k) => Ok(Combo { key: k, ..c }),
            None => Err("unknown shortcut key: "@ + t),
        }
    }
}

pub open spec fn no_combo() -> Combo {
    Combo { ctrl: false, alt: false, shift: false, meta: false, key: Seq::empty() }
}

/// The shortcut that the first `n` parts make up.
pub open spec fn combo_of(parts: Seq<Seq<char>>, n: int) -> Result<Combo, Seq<char>>
    decreases n,
{
    if n <= 0 {
        Ok(no_combo())
    } else {
        match combo_of(parts, n - 1) {
            Err(e) => Err(e),
            Ok(c) => {
                let t = words::trim(parts[n - 1]);
                if t.len() == 0 {
                    Err("shortcut has an empty token"@)
                } else {
                    with_token(c, chars::lower(t))
                }
            },
        }
    }
}

/// The shortcut that a text spells, or the message that says why it is none.
pub open spec fn parsed(s: Seq<char>) -> Result<Combo, Seq<char>> {
    let raw = words::trim(s);
    if raw.len() == 0 {
        Err("shortcut is empty"@)
    } else {
        let parts = words::split_at_char(raw, '+');
        match combo_of(parts, parts.len() as int) {
            Err(e) => Err(e),
            Ok(c) => if c.key.len() == 0 {
                Err("shortcut has no key"@)
            } else {
                Ok(c)
            },
        }
    }
}

/// What `r` says, as `parsed` puts it.
pub open spec fn said(r: Result<ShortcutSpec, String>) -> Result<Combo, Seq<char>> {
    match r {
        Ok(s) => Ok(s@),
        Err(e) => Err(e@),
    }
}

fn add_token(spec: &mut ShortcutSpec, token: &str) -> (r: Result<(), String>)
    ensures
        match r {
            Ok(_) => with_token(old(spec)@, token@) == Ok::<Combo, Seq<char>>(final(spec)@),
            Err(e) => with_token(old(spec)@, token@) == Err::<Combo, Seq<char>>(e@),
        },
{
    if str_eq(token, "ctrl") || str_eq(token, "control") {
        spec.ctrl = true;
    } else if str_eq(token, "alt") || str_eq(token, "option") {
        spec.alt = true;
    } else if str_eq(token, "shift") {
        spec.shift = true;
    } else if str_eq(token, "meta") || str_eq(token, "win") || str_eq(token, "super") || str_eq(
        token,
        "cmd",
    ) {
        spec.meta = true;
    } else {
        if !spec.key.as_str().is_empty() {
            let mut e = "shortcut has two keys: ".to_owned();
            e.append(spec.key.as_str());
            e.append(" and ");
            e.append(token);
            return Err(e);
        }
        match normalize_key(token) {
            Ok(k) => {
                spec.key = k;
            },
            Err(e) => {
                return Err(e);
            },
        }
    }
    Ok(())
}

/// Splits on `+`, in any case. Keys: A to Z, 0 to 9, Space, Escape, F1 to F12.
pub fn parse_shortcut(s: &str) -> (r: Result<ShortcutSpec, String>)
    ensures
        said(r) == parsed(s@),
{
    let raw = trimmed(s);
    if raw.as_str().is_empty() {
        return Err("shortcut is empty".to_owned());
    }
    let parts = split_char(raw.as_str(), '+');
    let ghost all = words::split_at_char(raw@, '+');
    assert(parts@.len() == all.len());
    let mut spec = ShortcutSpec {
        ctrl: false,
        alt: false,
        shift: false,
        meta: false,
        key: String::new(),
    };
    assert(spec.key@ =~= Seq::empty());
    let mut i: usize = 0;
    while i < parts.len()
        invariant
            i <= parts.len(),
            raw@ == words::trim(s@),
            raw@.len() > 0,
            all == words::split_at_char(raw@, '+'),
            chars::texts(parts@) == all,
            parts@.len() == all.len(),
            combo_of(all, i as int) == Ok::<Combo, Seq<char>>(spec@),
        decreases parts.len() - i,
    {
        assert(parts@[i as int]@ == all[i as int]);
        let token = trimmed(parts[i].as_str());
        if token.as_str().is_empty() {
            proof {
                lemma_combo_error(all, i + 1);
            }
            return Err("shortcut has an empty token".to_owned());
        }
        let low = lowered(token.as_str());
        if let Err(e) = add_token(&mut spec, low.as_str()) {
            proof {
                lemma_combo_error(all, i + 1);
            }
            return Err(e);
        }
        i += 1;
    }
    if spec.key.as_str().is_empty() {
        return Err("shortcut has no key".to_owned());
    }
    Ok(spec)
}

/// The first error decides.
pub proof fn lemma_combo_error(parts: Seq<Seq<char>>, n: int)
    requires
        0 <= n <= parts.len(),
        combo_of(parts, n) is Err,
    ensures
        combo_of(parts, parts.len() as int) == combo_of(parts, n),
    decreases parts.len() - n,
{
    if n < parts.len() {
        assert(combo_of(parts, n + 1) == combo_of(parts, n));
        lemma_combo_error(parts, n + 1);
    }
}

/// The label of the meta key.
pub open spec fn meta_label(platform: Platform) -> Seq<char> {
    if platform == Platform::MacOs {
        "Cmd"@
    } else {
        "Win"@
    }
}

/// The labels of a shortcut, modifiers first.
pub open spec fn labels(c: Combo, platform: Platform) -> Seq<Seq<char>> {
    (if c.ctrl {
        seq!["Ctrl"@]
    } else {
        Seq::empty()
    }) + (if c.shift {
        seq!["Shift"@]
    } else {
        Seq::empty()
    }) + (if c.alt {
        seq!["Alt"@]
    } else {
        Seq::empty()
    }) + (if c.meta {
        seq![meta_label(platform)]
    } else {
        Seq::empty()
    }) + seq![c.key]
}

/// A shortcut as a text.
pub open spec fn formatted(c: Combo, platform: Platform) -> Seq<char> {
    words::join(labels(c, platform), "+"@)
}

fn push_label(parts: &mut Vec<String>, label: &str)
    ensures
        chars::texts(final(parts)@) == chars::texts(old(parts)@) + seq![label@],
{
    let ghost before = chars::texts(parts@);
    parts.push(label.to_owned());
    assert(chars::texts(parts@) =~= before + seq![label@]);
}

/// Writes a shortcut with the labels of `platform`.
pub fn format_shortcut(s: &ShortcutSpec, platform: Platform) -> (r: String)
    ensures
        r@ == formatted(s@, platform),
{
    let mut parts: Vec<String> = Vec::new();
    assert(chars::texts(parts@) =~= Seq::empty());
    if s.ctrl {
        push_label(&mut parts, "Ctrl");
    }
    if s.shift {
        push_label(&mut parts, "Shift");
    }
    if s.alt {
        push_label(&mut parts, "Alt");
    }
    if s.meta {
        push_label(
            &mut parts,
            if platform == Platform::MacOs {
                "Cmd"
            } else {
                "Win"
            },
        );
    }
    push_label(&mut parts, s.key.as_str());
    assert(chars::texts(parts@) =~= labels(s@, platform));
    join_strings(&parts, "+")
}

/// Whether a shortcut has a modifier.
pub open spec fn has_modifier(c: Combo) -> bool {
    c.ctrl || c.alt || c.shift || c.meta
}

/// Whether a key types a character: a single ASCII letter or digit.
pub open spec fn is_typing_key(k: Seq<char>) -> bool {
    k.len() == 1 && (chars::is_ascii_letter(k[0]) || chars::is_digit(k[0]))
}

/// Letter and digit keys must carry at least one modifier.
pub fn is_safe_utility(s: &ShortcutSpec) -> (r: bool)
    ensures
        r == (is_typing_key(s.key@) ==> has_modifier(s@)),
{
    let cs = to_chars(s.key.as_str());
    if cs.len() == 1 && (ascii_letter(cs[0]) || digit(cs[0])) {
        s.ctrl || s.alt || s.shift || s.meta
    } else {
        true
    }
}

/// The combo of the talk key.
pub open spec fn is_reserved(c: Combo) -> bool {
    c.ctrl && c.alt && !c.shift && !c.meta && c.key == "Space"@
}

/// Whether this is the talk combo, which paste and copy must not steal.
pub fn is_talk_combo(s: &ShortcutSpec) -> (r: bool)
    ensures
        r == is_reserved(s@),
{
    s.ctrl && s.alt && !s.shift && !s.meta && str_eq(s.key.as_str(), "Space")
}

/// The standard key names.
pub open spec fn is_key(k: Seq<char>) -> bool {
    ||| is_typing_key(k) && chars::upper_char(k[0]) == k[0]
    ||| k == "Space"@
    ||| k == "Escape"@
    ||| exists|n: nat| 1 <= n <= 12 && k == "F"@ + #[trigger] words::decimal(n)
}

proof fn lemma_decimal(n: nat)
    ensures
        words::decimal(n).len() > 0,
        all_digits(words::decimal(n)),
        digits_value(words::decimal(n)) == n,
    decreases n,
{
    let d = words::decimal(n);
    if n < 10 {
        assert(d.drop_last() =~= Seq::empty());
        assert(digits_value(d.drop_last()) == 0);
    } else {
        lemma_decimal(n / 10);
        assert(d.drop_last() =~= words::decimal(n / 10));
    }
}

/// What a key is called in lower case names that key again.
proof fn lemma_key_name(k: Seq<char>)
    requires
        is_key(k),
    ensures
        k.len() > 0,
        !k.contains('+'),
        words::trim(k) == k,
        key_name(chars::lower(k)) == Some(k),
        !is_ctrl(chars::lower(k)),
        !is_alt(chars::lower(k)),
        !is_shift(chars::lower(k)),
        !is_meta(chars::lower(k)),
{
    reveal_strlit("Space");
    reveal_strlit("Escape");
    reveal_strlit("F");
    reveal_strlit("space");
    reveal_strlit("escape");
    reveal_strlit("esc");
    reveal_strlit("ctrl");
    reveal_strlit("control");
    reveal_strlit("alt");
    reveal_strlit("option");
    reveal_strlit("shift");
    reveal_strlit("meta");
    reveal_strlit("win");
    reveal_strlit("super");
    reveal_strlit("cmd");
    let low = chars::lower(k);
    if is_typing_key(k) && chars::upper_char(k[0]) == k[0] {
        assert(k =~= seq![k[0]]);
        words::lemma_trimmed(low);
    } else if k == "Space"@ {
        assert(low =~= "space"@);
        words::lemma_trimmed(low);
        assert(chars::lower(low) =~= low);
    } else if k == "Escape"@ {
        assert(low =~= "escape"@);
        words::lemma_trimmed(low);
        assert(chars::lower(low) =~= low);
        assert("escape"@[0] != "space"@[0]);
    } else {
        let n = choose|n: nat| 1 <= n <= 12 && k == "F"@ + #[trigger] words::decimal(n);
        let d = words::decimal(n);
        lemma_decimal(n);
        assert(low =~= seq!['f'] + d) by {
            assert forall|i: int| 0 <= i < d.len() implies low[i + 1] == d[i] by {
                assert(chars::is_digit(d[i]));
            }
        }
        assert(low.last() == d.last());
        assert(chars::is_digit(d.last()));
        words::lemma_trimmed(low);
        assert(chars::lower(low) =~= low) by {
            assert forall|i: int| 0 <= i < low.len() implies chars::lower_char(low[i])
                == low[i] by {
                if i > 0 {
                    assert(chars::is_digit(d[i - 1]));
                }
            }
        }
        assert(low.drop_first() =~= d);
        assert(chars::is_digit(d[0]));
        assert(low[0] == 'f');
        assert(k.last() == d.last());
        words::lemma_trimmed(k);
        assert forall|i: int| 0 <= i < k.len() implies k[i] != '+' by {
            if i > 0 {
                assert(chars::is_digit(d[i - 1]));
            }
        }
    }
}

/// A token names a standard key or none.
pub proof fn lemma_key_names_are_keys(token: Seq<char>)
    ensures
        key_name(token) matches Some(k) ==> is_key(k),
{
}

proof fn lemma_combo_key(parts: Seq<Seq<char>>, n: int)
    ensures
        combo_of(parts, n) matches Ok(c) ==> c.key.len() == 0 || is_key(c.key),
    decreases n,
{
    if n > 0 {
        lemma_combo_key(parts, n - 1);
        lemma_key_names_are_keys(chars::lower(words::trim(parts[n - 1])));
    }
}

/// A shortcut that parses has a standard key.
pub proof fn lemma_parsed_key(s: Seq<char>)
    ensures
        parsed(s) matches Ok(c) ==> is_key(c.key),
{
    let parts = words::split_at_char(words::trim(s), '+');
    lemma_combo_key(parts, parts.len() as int);
}

proof fn lemma_label(label: Seq<char>)
    requires
        label == "Ctrl"@ || label == "Shift"@ || label == "Alt"@ || label == "Cmd"@ || label
            == "Win"@,
    ensures
        label.len() > 0,
        !label.contains('+'),
        words::trim(label) == label,
        label == "Ctrl"@ ==> is_ctrl(chars::lower(label)),
        label == "Shift"@ ==> is_shift(chars::lower(label)) && !is_ctrl(chars::lower(label))
            && !is_alt(chars::lower(label)),
        label == "Alt"@ ==> is_alt(chars::lower(label)) && !is_ctrl(chars::lower(label)),
        label == "Cmd"@ || label == "Win"@ ==> is_meta(chars::lower(label)) && !is_ctrl(
            chars::lower(label),
        ) && !is_alt(chars::lower(label)) && !is_shift(chars::lower(label)),
{
    reveal_strlit("Ctrl");
    reveal_strlit("Shift");
    reveal_strlit("Alt");
    reveal_strlit("Cmd");
    reveal_strlit("Win");
    reveal_strlit("ctrl");
    reveal_strlit("control");
    reveal_strlit("alt");
    reveal_strlit("option");
    reveal_strlit("shift");
    reveal_strlit("win");
    reveal_strlit("cmd");
    let low = chars::lower(label);
    if label == "Ctrl"@ {
        assert(low =~= "ctrl"@);
    } else if label == "Shift"@ {
        assert(low =~= "shift"@);
    } else if label == "Alt"@ {
        assert(low =~= "alt"@);
    } else if label == "Cmd"@ {
        assert(low =~= "cmd"@);
        assert(low.len() == 3);
        assert(low[0] != "alt"@[0]);
    } else {
        assert(low =~= "win"@);
        assert(low.len() == 3);
        assert(low[0] != "alt"@[0]);
    }
}

/// A shortcut with a standard key is read back as it was written, on every
/// platform.
pub proof fn lemma_format_then_parse(c: Combo, platform: Platform)
    requires
        is_key(c.key),
    ensures
        parsed(formatted(c, platform)) == Ok::<Combo, Seq<char>>(c),
{
    reveal_strlit("+");
    assert("+"@ =~= seq!['+']);
    lemma_key_name(c.key);
    lemma_label("Ctrl"@);
    lemma_label("Shift"@);
    lemma_label("Alt"@);
    lemma_label("Cmd"@);
    lemma_label("Win"@);
    let a = if c.ctrl {
        seq!["Ctrl"@]
    } else {
        Seq::<Seq<char>>::empty()
    };
    let b = a + if c.shift {
        seq!["Shift"@]
    } else {
        Seq::empty()
    };
    let d = b + if c.alt {
        seq!["Alt"@]
    } else {
        Seq::empty()
    };
    let e = d + if c.meta {
        seq![meta_label(platform)]
    } else {
        Seq::empty()
    };
    let all = labels(c, platform);
    assert(all =~= e + seq![c.key]);
    assert forall|i: int| 0 <= i < all.len() implies !(#[trigger] all[i]).contains('+') by {
        if i < a.len() {
            assert(all[i] == a[i]);
        } else if i < b.len() {
            assert(all[i] == b[i]);
        } else if i < d.len() {
            assert(all[i] == d[i]);
        } else if i < e.len() {
            assert(all[i] == e[i]);
        }
    }
    words::lemma_split_of_join(all, '+');
    let none = no_combo();
    let ca = Combo { ctrl: c.ctrl, ..none };
    let cb = Combo { shift: c.shift, ..ca };
    let cd = Combo { alt: c.alt, ..cb };
    let ce = Combo { meta: c.meta, ..cd };
    lemma_combo_step(all, 0, "Ctrl"@, c.ctrl, none, ca);
    lemma_combo_step(all, a.len() as int, "Shift"@, c.shift, ca, cb);
    lemma_combo_step(all, b.len() as int, "Alt"@, c.alt, cb, cd);
    lemma_combo_step(all, d.len() as int, meta_label(platform), c.meta, cd, ce);
    lemma_combo_step(all, e.len() as int, c.key, true, ce, c);
    lemma_formatted_ends(c, platform);
    words::lemma_trimmed(formatted(c, platform));
}

/// One label of a shortcut, where it is there.
proof fn lemma_combo_step(
    all: Seq<Seq<char>>,
    n: int,
    label: Seq<char>,
    there: bool,
    before: Combo,
    after: Combo,
)
    requires
        0 <= n,
        combo_of(all, n) == Ok::<Combo, Seq<char>>(before),
        there ==> all[n] == label && label.len() > 0 && words::trim(label) == label && with_token(
            before,
            chars::lower(label),
        ) == Ok::<Combo, Seq<char>>(after),
        !there ==> before == after,
    ensures
        combo_of(all, n + if there {
            1int
        } else {
            0
        }) == Ok::<Combo, Seq<char>>(after),
{
}

/// A written shortcut starts and ends with a label.
proof fn lemma_formatted_ends(c: Combo, platform: Platform)
    requires
        is_key(c.key),
    ensures
        formatted(c, platform).len() > 0,
        !chars::is_white(formatted(c, platform)[0]),
        !chars::is_white(formatted(c, platform).last()),
{
    reveal_strlit("Ctrl");
    reveal_strlit("Shift");
    reveal_strlit("Alt");
    reveal_strlit("Cmd");
    reveal_strlit("Win");
    lemma_key_name(c.key);
    let k = c.key;
    words::lemma_without_ends(k, Class::White);
    let all = labels(c, platform);
    let text = formatted(c, platform);
    assert(all.last() == k);
    assert(all[0].len() > 0 && !chars::is_white(all[0][0]));
    if all.len() >= 2 {
        words::lemma_join_first(all, "+"@);
        assert(text == words::join(all.drop_last(), "+"@) + "+"@ + k);
        assert(text.last() == k.last());
        assert(text[0] == all[0][0]);
    }
}

/// Writing a shortcut that was read and reading it again changes nothing.
pub proof fn lemma_parse_then_format(s: Seq<char>, platform: Platform)
    ensures
        parsed(s) matches Ok(c) ==> parsed(formatted(c, platform)) == Ok::<Combo, Seq<char>>(c),
{
    lemma_parsed_key(s);
    if let Ok(c) = parsed(s) {
        lemma_format_then_parse(c, platform);
    }
}

/// The standard shortcuts parse as Shift, Alt and their letter.
pub proof fn lemma_default_parses(letter: char, text: Seq<char>)
    requires
        'A' <= letter <= 'Z',
        text == "Shift+Alt+"@ + seq![letter] || letter == 'Z' && text == "Shift+Alt+Z"@ || letter
            == 'X' && text == "Shift+Alt+X"@,
    ensures
        parsed(text) == Ok::<Combo, Seq<char>>(
            Combo { ctrl: false, alt: true, shift: true, meta: false, key: seq![letter] },
        ),
{
    reveal_strlit("Shift+Alt+");
    reveal_strlit("Shift+Alt+Z");
    reveal_strlit("Shift+Alt+X");
    reveal_strlit("Shift");
    reveal_strlit("Alt");
    reveal_strlit("+");
    let c = Combo { ctrl: false, alt: true, shift: true, meta: false, key: seq![letter] };
    let all = labels(c, Platform::Other);
    assert(all =~= seq!["Shift"@, "Alt"@, seq![letter]]);
    let two = all.drop_last();
    let one = two.drop_last();
    assert(one.len() == 1 && one[0] == "Shift"@);
    assert(words::join(one, "+"@) == "Shift"@);
    assert(words::join(two, "+"@) == "Shift"@ + "+"@ + "Alt"@);
    assert(formatted(c, Platform::Other) == "Shift"@ + "+"@ + "Alt"@ + "+"@ + seq![letter]);
    assert(formatted(c, Platform::Other) =~= text);
    lemma_format_then_parse(c, Platform::Other);
}

} // verus!
