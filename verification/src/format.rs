//! Offline spoken-command, list and backtrack passes.

use crate::chars;
use crate::chars::{cat, cat3, eq_ignore_case, from_range, lowered, str_eq, to_chars};
use crate::pattern;
use crate::pattern::{escaped, find_matches, replace_matches};
use crate::words;
use crate::words::{
    has_prefix, join_strings, number, replaced_char, split_words, trim_class, trim_end_class,
    trimmed, Class,
};
use vstd::prelude::*;
use vstd::string::*;

verus! {

/// The spoken commands and what they write. Where one phrase begins with
/// another, the longer one stands first.
pub open spec fn commands() -> Seq<(&'static str, &'static str)> {
    seq![
        ("new paragraph", "\n\n"),
        ("next paragraph", "\n\n"),
        ("new line", "\n"),
        ("next line", "\n"),
        ("newline", "\n"),
        ("line break", "\n"),
        ("question mark", "?"),
        ("exclamation mark", "!"),
        ("exclamation point", "!"),
        ("full stop", "."),
        ("semi colon", ";"),
        ("semicolon", ";"),
        ("colon", ":"),
        ("comma", ","),
        ("ellipsis", "…"),
        ("dot dot dot", "…"),
        ("em dash", "—"),
        ("open parenthesis", "("),
        ("close parenthesis", ")"),
        ("open bracket", "["),
        ("close bracket", "]"),
        ("open quote", "\""),
        ("close quote", "\""),
        ("quote", "\""),
        ("unquote", "\""),
        ("degrees celsius", "°C"),
        ("degrees fahrenheit", "°F"),
        ("degree sign", "°"),
        ("degrees", "°"),
        ("percent sign", "%"),
        ("dollar sign", "$"),
        ("at sign", "@"),
        ("ampersand", "&"),
        ("asterisk", "*"),
        ("hashtag", "#"),
        ("pound sign", "#"),
        ("underscore", "_"),
        ("backslash", "\\"),
        ("forward slash", "/"),
        ("period", "."),
        ("slash", "/"),
        ("hyphen", "-"),
        ("dash", "-"),
        ("percent", "%"),
    ]
}

/// The table of the spoken commands.
pub fn command_table() -> (r: Vec<(&'static str, &'static str)>)
    ensures
        r@ == commands(),
{
    vec![
        ("new paragraph", "\n\n"),
        ("next paragraph", "\n\n"),
        ("new line", "\n"),
        ("next line", "\n"),
        ("newline", "\n"),
        ("line break", "\n"),
        ("question mark", "?"),
        ("exclamation mark", "!"),
        ("exclamation point", "!"),
        ("full stop", "."),
        ("semi colon", ";"),
        ("semicolon", ";"),
        ("colon", ":"),
        ("comma", ","),
        ("ellipsis", "…"),
        ("dot dot dot", "…"),
        ("em dash", "—"),
        ("open parenthesis", "("),
        ("close parenthesis", ")"),
        ("open bracket", "["),
        ("close bracket", "]"),
        ("open quote", "\""),
        ("close quote", "\""),
        ("quote", "\""),
        ("unquote", "\""),
        ("degrees celsius", "°C"),
        ("degrees fahrenheit", "°F"),
        ("degree sign", "°"),
        ("degrees", "°"),
        ("percent sign", "%"),
        ("dollar sign", "$"),
        ("at sign", "@"),
        ("ampersand", "&"),
        ("asterisk", "*"),
        ("hashtag", "#"),
        ("pound sign", "#"),
        ("underscore", "_"),
        ("backslash", "\\"),
        ("forward slash", "/"),
        ("period", "."),
        ("slash", "/"),
        ("hyphen", "-"),
        ("dash", "-"),
        ("percent", "%"),
    ]
}

/// A phrase as a pattern: literal, its spaces matching any run of white space.
pub open spec fn phrase_pattern(phrase: Seq<char>) -> Seq<char> {
    words::replace_char(pattern::escape(phrase), ' ', "\\s+"@)
}

fn phrase_to_pattern(phrase: &str) -> (r: String)
    ensures
        r@ == phrase_pattern(phrase@),
{
    let e = escaped(phrase);
    replaced_char(e.as_str(), ' ', "\\s+")
}

/// The spoken commands as alternatives.
pub open spec fn command_alternatives() -> Seq<Seq<char>> {
    Seq::new(commands().len(), |i: int| phrase_pattern(commands()[i].0@))
}

/// Any spoken command as a whole phrase, in any case.
pub open spec fn command_pattern() -> Seq<char> {
    "(?i)\\b(?:"@ + words::join(command_alternatives(), "|"@) + ")\\b"@
}

fn build_command_pattern() -> (r: String)
    ensures
        r@ == command_pattern(),
{
    let table = command_table();
    let mut alts: Vec<String> = Vec::new();
    let mut i: usize = 0;
    while i < table.len()
        invariant
            i <= table.len(),
            table@ == commands(),
            chars::texts(alts@) == command_alternatives().take(i as int),
        decreases table.len() - i,
    {
        let ghost before = chars::texts(alts@);
        alts.push(phrase_to_pattern(table[i].0));
        assert(chars::texts(alts@) =~= before.push(phrase_pattern(commands()[i as int].0@)));
        i += 1;
    }
    assert(command_alternatives().take(i as int) =~= command_alternatives());
    let body = join_strings(&alts, "|");
    cat3("(?i)\\b(?:", body.as_str(), ")\\b")
}

/// What the first command from `i` on whose phrase is `key` writes, or
/// `otherwise` where there is none.
pub open spec fn command_output(key: Seq<char>, i: int, otherwise: Seq<char>) -> Seq<char>
    decreases commands().len() - i,
{
    if i < 0 || i >= commands().len() {
        otherwise
    } else if chars::same_ignoring_case(commands()[i].0@, key) {
        commands()[i].1@
    } else {
        command_output(key, i + 1, otherwise)
    }
}

/// What a spoken phrase writes; a phrase that is no command stays.
pub open spec fn spoken_output(phrase: Seq<char>) -> Seq<char> {
    command_output(words::join(words::words(phrase), " "@), 0, phrase)
}

/// What a spoken phrase writes.
pub fn replacement_for(phrase: &str) -> (r: String)
    ensures
        r@ == spoken_output(phrase@),
{
    let ws = split_words(phrase);
    let key = join_strings(&ws, " ");
    let table = command_table();
    let mut i: usize = 0;
    while i < table.len()
        invariant
            i <= table.len(),
            table@ == commands(),
            key@ == words::join(words::words(phrase@), " "@),
            spoken_output(phrase@) == command_output(key@, i as int, phrase@),
        decreases table.len() - i,
    {
        if eq_ignore_case(table[i].0, key.as_str()) {
            return table[i].1.to_owned();
        }
        i += 1;
    }
    phrase.to_owned()
}

/// Marks that take no space before them.
pub open spec fn is_closing(s: Seq<char>) -> bool {
    s == "."@ || s == ","@ || s == "!"@ || s == "?"@ || s == ";"@ || s == ":"@ || s == "…"@ || s
        == ")"@ || s == "]"@ || s == "\""@
}

fn closing(s: &str) -> (r: bool)
    ensures
        r == is_closing(s@),
{
    str_eq(s, ".") || str_eq(s, ",") || str_eq(s, "!") || str_eq(s, "?") || str_eq(s, ";")
        || str_eq(s, ":") || str_eq(s, "…") || str_eq(s, ")") || str_eq(s, "]") || str_eq(s, "\"")
}

/// `text` up to the end of span `n - 1`, with each span spoken out and no space
/// before a closing mark.
pub open spec fn spoken_upto(text: Seq<char>, spans: Seq<(usize, usize)>, n: int) -> Seq<char>
    decreases n,
{
    if n <= 0 {
        Seq::empty()
    } else {
        let before = spoken_upto(text, spans, n - 1) + pattern::gap(text, spans, n - 1);
        let output = spoken_output(pattern::matched(text, spans, n - 1));
        (if is_closing(output) {
            words::without_end(before, Class::White)
        } else {
            before
        }) + output
    }
}

/// `text` with each span spoken out.
pub open spec fn spoken(text: Seq<char>, spans: Seq<(usize, usize)>) -> Seq<char> {
    spoken_upto(text, spans, spans.len() as int) + pattern::gap(text, spans, spans.len() as int)
}

/// Writes what is spoken at the given places of `text`.
pub fn speak_out(text: &Vec<char>, spans: &Vec<(usize, usize)>) -> (r: String)
    requires
        pattern::ordered(text@, spans@),
    ensures
        r@ == spoken(text@, spans@),
{
    let mut out = String::new();
    let mut last: usize = 0;
    let mut i: usize = 0;
    while i < spans.len()
        invariant
            i <= spans.len(),
            pattern::ordered(text@, spans@),
            last == pattern::end_of(spans@, i as int),
            last <= text.len(),
            out@ == spoken_upto(text@, spans@, i as int),
        decreases spans.len() - i,
    {
        let (a, b) = spans[i];
        assert(last <= a) by {
            if i > 0 {
                assert(spans@[i - 1].1 <= spans@[i as int].0);
            }
        }
        let between = from_range(text, last, a);
        out.append(between.as_str());
        let phrase = from_range(text, a, b);
        let output = replacement_for(phrase.as_str());
        if closing(output.as_str()) {
            out = trim_end_class(out.as_str(), &Class::White);
        }
        out.append(output.as_str());
        last = b;
        i += 1;
    }
    let tail = from_range(text, last, text.len());
    out.append(tail.as_str());
    out
}

/// White space behind an opening mark.
pub const AFTER_OPEN: &'static str = r#"([\(\["])\s+"#;

/// White space before a closing mark.
pub const BEFORE_CLOSE: &'static str = r#"\s+([,.;:!?…\)\]"])"#;

/// A newline with the other white space around it.
pub const AROUND_BREAK: &'static str = r"[^\S\n]*\n[^\S\n]*";

/// `text` without white space behind opening marks, before closing marks and
/// around newlines.
pub open spec fn collapsed(text: Seq<char>) -> Seq<char> {
    let a = pattern::replaced(AFTER_OPEN@, text, "$1"@);
    let b = pattern::replaced(BEFORE_CLOSE@, a, "$1"@);
    pattern::with_each_replaced(b, pattern::matches(AROUND_BREAK@, b), "\n"@)
}

/// Takes away white space behind opening marks, before closing marks and around
/// newlines.
pub fn collapse_space_around_breaks(text: &str) -> (r: String)
    ensures
        r@ == collapsed(text@),
{
    proof {
        reveal_strlit("\n");
        pattern::lemma_plain_template("\n"@);
    }
    let a = replace_matches(AFTER_OPEN, text, "$1");
    let b = replace_matches(BEFORE_CLOSE, a.as_str(), "$1");
    replace_matches(AROUND_BREAK, b.as_str(), "\n")
}

/// `text` after the spoken-command pass.
pub open spec fn with_commands(text: Seq<char>) -> Seq<char> {
    collapsed(spoken(text, pattern::matches(command_pattern(), text)))
}

/// Replaces spoken punctuation and newline phrases. Longer phrases win.
pub fn apply_spoken_commands(text: &str) -> (r: String)
    ensures
        r@ == with_commands(text@),
{
    let cs = to_chars(text);
    let p = build_command_pattern();
    let spans = find_matches(p.as_str(), &cs);
    let out = speak_out(&cs, &spans);
    collapse_space_around_breaks(out.as_str())
}

/// The cardinal list markers, in order.
pub open spec fn cardinals() -> Seq<&'static str> {
    seq!["one", "two", "three", "four", "five", "six", "seven", "eight", "nine", "ten"]
}

/// The ordinal list markers, in order.
pub open spec fn ordinals() -> Seq<&'static str> {
    seq![
        "first",
        "second",
        "third",
        "fourth",
        "fifth",
        "sixth",
        "seventh",
        "eighth",
        "ninth",
        "tenth",
    ]
}

/// The place of `core` in `family` from `i` on.
pub open spec fn place_of(core: Seq<char>, family: Seq<&'static str>, i: int) -> Option<int>
    decreases family.len() - i,
{
    if i < 0 || i >= family.len() {
        None
    } else if family[i]@ == core {
        Some(i)
    } else {
        place_of(core, family, i + 1)
    }
}

/// A word in lower case, without the punctuation around it.
pub open spec fn bare_word(w: Seq<char>) -> Seq<char> {
    chars::lower(words::without_ends(w, Class::Punct))
}

fn to_bare_word(w: &str) -> (r: String)
    ensures
        r@ == bare_word(w@),
{
    let core = trim_class(w, &Class::Punct);
    lowered(core.as_str())
}

/// Which marker of `family` a word is, if any.
pub open spec fn marker(w: Seq<char>, family: Seq<&'static str>) -> Option<int> {
    place_of(bare_word(w), family, 0)
}

/// Which marker of `family` a word is, if any.
pub fn marker_index(word: &str, family: &Vec<&'static str>) -> (r: Option<usize>)
    ensures
        (match r {
            Some(i) => Some(i as int),
            None => None,
        }) == marker(word@, family@),
        r matches Some(i) ==> i < family.len(),
{
    let core = to_bare_word(word);
    let mut i: usize = 0;
    while i < family.len()
        invariant
            i <= family.len(),
            core@ == bare_word(word@),
            marker(word@, family@) == place_of(core@, family@, i as int),
        decreases family.len() - i,
    {
        if str_eq(family[i], core.as_str()) {
            return Some(i);
        }
        i += 1;
    }
    None
}

/// Where marker `k` first stands in `ws` from `from` on; the number of words
/// where it does not.
pub open spec fn next_marker(
    ws: Seq<Seq<char>>,
    family: Seq<&'static str>,
    k: int,
    from: int,
) -> int
    decreases ws.len() - from,
{
    if from < 0 || from >= ws.len() {
        ws.len() as int
    } else if marker(ws[from], family) == Some(k) {
        from
    } else {
        next_marker(ws, family, k, from + 1)
    }
}

/// The items of a list whose marker `k - 1` stands right before word `from`:
/// each runs up to the next marker in order, the last one to the end. A last
/// item without words is left out.
pub open spec fn marker_items(
    ws: Seq<Seq<char>>,
    family: Seq<&'static str>,
    k: int,
    from: int,
) -> Seq<Seq<char>>
    decreases ws.len() - from,
{
    let q = next_marker(ws, family, k, from);
    if from < 0 || from >= ws.len() || q < from {
        Seq::empty()
    } else {
        seq![words::join(ws.subrange(from, q), " "@)] + if q < ws.len() {
            marker_items(ws, family, k + 1, q + 1)
        } else {
            Seq::empty()
        }
    }
}

/// Items with their numbers, one per line.
pub open spec fn numbered(items: Seq<Seq<char>>) -> Seq<char> {
    words::join(
        Seq::new(items.len(), |i: int| words::decimal((i + 1) as nat) + ". "@ + items[i]),
        "\n"@,
    )
}

/// The numbered list that `text` spells out with the markers of `family`.
pub open spec fn marker_list(text: Seq<char>, family: Seq<&'static str>) -> Option<Seq<char>> {
    let ws = words::words(text);
    let items = marker_items(ws, family, 1, 1);
    if ws.len() == 0 || marker(ws[0], family) != Some(0int) || items.len() < 2 || items.contains(
        Seq::empty(),
    ) {
        None
    } else {
        Some(numbered(items))
    }
}

fn number_items(items: &Vec<String>) -> (r: String)
    ensures
        r@ == numbered(chars::texts(items@)),
{
    let ghost all = chars::texts(items@);
    let ghost lines = Seq::new(
        all.len(),
        |i: int| words::decimal((i + 1) as nat) + ". "@ + all[i],
    );
    let mut out: Vec<String> = Vec::new();
    let mut i: usize = 0;
    while i < items.len()
        invariant
            i <= items.len(),
            all == chars::texts(items@),
            lines == Seq::new(
                all.len(),
                |i: int| words::decimal((i + 1) as nat) + ". "@ + all[i],
            ),
            chars::texts(out@) == lines.take(i as int),
        decreases items.len() - i,
    {
        let n = number(i as u128 + 1);
        let ghost before = chars::texts(out@);
        out.push(cat3(n.as_str(), ". ", items[i].as_str()));
        assert(chars::texts(out@) =~= before.push(lines[i as int]));
        i += 1;
    }
    assert(lines.take(i as int) =~= lines);
    join_strings(&out, "\n")
}

fn join_range(ws: &Vec<String>, from: usize, to: usize) -> (r: String)
    requires
        from <= to <= ws.len(),
    ensures
        r@ == words::join(chars::texts(ws@).subrange(from as int, to as int), " "@),
{
    let mut part: Vec<String> = Vec::new();
    let mut i: usize = from;
    while i < to
        invariant
            from <= i <= to <= ws.len(),
            chars::texts(part@) == chars::texts(ws@).subrange(from as int, i as int),
        decreases to - i,
    {
        let ghost before = chars::texts(part@);
        part.push(ws[i].clone());
        assert(chars::texts(part@) =~= before.push(ws@[i as int]@));
        i += 1;
    }
    join_strings(&part, " ")
}

/// Where marker `k` first stands from `from` on.
fn find_marker(ws: &Vec<String>, family: &Vec<&'static str>, k: usize, from: usize) -> (r: usize)
    requires
        from <= ws.len(),
    ensures
        from <= r <= ws.len(),
        r == next_marker(chars::texts(ws@), family@, k as int, from as int),
{
    let ghost all = chars::texts(ws@);
    let mut q: usize = from;
    while q < ws.len()
        invariant
            from <= q <= ws.len(),
            all == chars::texts(ws@),
            next_marker(all, family@, k as int, from as int) == next_marker(
                all,
                family@,
                k as int,
                q as int,
            ),
        decreases ws.len() - q,
    {
        if marker_index(ws[q].as_str(), family) == Some(k) {
            return q;
        }
        q += 1;
    }
    q
}

/// A numbered list out of a text that starts with the first marker of `family`.
pub fn try_marker_list(text: &str, family: &Vec<&'static str>) -> (r: Option<String>)
    ensures
        (match r {
            Some(s) => Some(s@),
            None => None,
        }) == marker_list(text@, family@),
{
    let ws = split_words(text);
    let ghost all = words::words(text@);
    assert(ws@.len() == all.len());
    if ws.len() == 0 {
        return None;
    }
    assert(ws@[0]@ == all[0]);
    if marker_index(ws[0].as_str(), family) != Some(0usize) {
        return None;
    }
    let mut items: Vec<String> = Vec::new();
    let mut k: usize = 1;
    let mut from: usize = 1;
    assert(chars::texts(items@) + marker_items(all, family@, 1, 1) =~= marker_items(
        all,
        family@,
        1,
        1,
    ));
    while from < ws.len()
        invariant
            1 <= k <= from,
            from <= ws.len(),
            all == words::words(text@),
            chars::texts(ws@) == all,
            ws@.len() == all.len(),
            all.len() > 0,
            marker_items(all, family@, 1, 1) == chars::texts(items@) + marker_items(
                all,
                family@,
                k as int,
                from as int,
            ),
            forall|i: int| 0 <= i < items@.len() ==> (#[trigger] items@[i])@.len() > 0,
        decreases ws.len() - from,
    {
        let q = find_marker(&ws, family, k, from);
        let item = join_range(&ws, from, q);
        let ghost rest = marker_items(all, family@, k as int, from as int);
        if item.as_str().is_empty() {
            proof {
                assert(rest[0] == item@);
                assert(item@ =~= Seq::empty());
                assert(marker_items(all, family@, 1, 1)[items@.len() as int] == Seq::<char>::empty());
                assert(marker_items(all, family@, 1, 1).contains(Seq::empty()));
            }
            return None;
        }
        let ghost before = chars::texts(items@);
        items.push(item);
        proof {
            assert(chars::texts(items@) =~= before.push(item@));
            if q < all.len() {
                assert(before + rest =~= chars::texts(items@) + marker_items(
                    all,
                    family@,
                    k + 1,
                    q + 1,
                ));
            } else {
                assert(before + rest =~= chars::texts(items@));
                assert(chars::texts(items@) + marker_items(all, family@, k as int, q as int)
                    =~= chars::texts(items@));
            }
        }
        if q < ws.len() {
            k += 1;
            from = q + 1;
        } else {
            from = q;
        }
    }
    proof {
        let done = marker_items(all, family@, 1, 1);
        assert(done =~= chars::texts(items@));
        assert forall|i: int| 0 <= i < done.len() implies done[i] != Seq::<char>::empty() by {
            assert(items@[i]@.len() > 0);
        }
    }
    if items.len() < 2 {
        return None;
    }
    Some(number_items(&items))
}

/// The word that starts each item of a bulleted list, with the white space
/// around it.
pub const BULLET: &'static str = r"(?i)(?:^|\s+)bullet\s+";

/// The trimmed gaps before the first `n` spans and between them, without those
/// that are empty.
pub open spec fn parts_upto(text: Seq<char>, spans: Seq<(usize, usize)>, n: int) -> Seq<Seq<char>>
    decreases n,
{
    if n <= 0 {
        Seq::empty()
    } else {
        let part = words::trim(pattern::gap(text, spans, n - 1));
        if part.len() > 0 {
            parts_upto(text, spans, n - 1).push(part)
        } else {
            parts_upto(text, spans, n - 1)
        }
    }
}

/// Parts with a dash each, one per line.
pub open spec fn dashed(parts: Seq<Seq<char>>) -> Seq<char> {
    words::join(Seq::new(parts.len(), |i: int| "- "@ + parts[i]), "\n"@)
}

/// Whether a text starts as a bulleted list does.
pub open spec fn starts_bullet(text: Seq<char>) -> bool {
    words::starts_with(chars::lower(text), "bullet "@) || words::starts_with(
        chars::lower(text),
        "bullet\n"@,
    )
}

/// The bulleted list out of the parts that the given places of `text` separate;
/// a single part makes no list.
pub open spec fn bullets_at(text: Seq<char>, spans: Seq<(usize, usize)>) -> Option<Seq<char>> {
    let parts = parts_upto(text, spans, spans.len() as int + 1);
    if parts.len() < 2 {
        None
    } else {
        Some(dashed(parts))
    }
}

/// The bulleted list that `text` spells out.
pub open spec fn bullet_list(text: Seq<char>) -> Option<Seq<char>> {
    if starts_bullet(text) {
        bullets_at(text, pattern::matches(BULLET@, text))
    } else {
        None
    }
}

fn add_part(parts: &mut Vec<String>, piece: &str)
    ensures
        chars::texts(final(parts)@) == (if words::trim(piece@).len() > 0 {
            chars::texts(old(parts)@).push(words::trim(piece@))
        } else {
            chars::texts(old(parts)@)
        }),
{
    let ghost before = chars::texts(parts@);
    let part = trimmed(piece);
    if !part.as_str().is_empty() {
        parts.push(part);
        assert(chars::texts(parts@) =~= before.push(part@));
    }
}

fn dash_parts(parts: &Vec<String>) -> (r: String)
    ensures
        r@ == dashed(chars::texts(parts@)),
{
    let ghost all = chars::texts(parts@);
    let ghost wanted = Seq::new(all.len(), |i: int| "- "@ + all[i]);
    let mut lines: Vec<String> = Vec::new();
    let mut i: usize = 0;
    while i < parts.len()
        invariant
            i <= parts.len(),
            all == chars::texts(parts@),
            wanted == Seq::new(all.len(), |i: int| "- "@ + all[i]),
            chars::texts(lines@) == wanted.take(i as int),
        decreases parts.len() - i,
    {
        let ghost before = chars::texts(lines@);
        lines.push(cat("- ", parts[i].as_str()));
        assert(chars::texts(lines@) =~= before.push(wanted[i as int]));
        i += 1;
    }
    assert(wanted.take(i as int) =~= wanted);
    join_strings(&lines, "\n")
}

/// Makes a bulleted list of the parts between the given places.
pub fn list_parts(text: &Vec<char>, spans: &Vec<(usize, usize)>) -> (r: Option<String>)
    requires
        pattern::ordered(text@, spans@),
    ensures
        (match r {
            Some(s) => Some(s@),
            None => None,
        }) == bullets_at(text@, spans@),
{
    let mut parts: Vec<String> = Vec::new();
    let mut last: usize = 0;
    let mut i: usize = 0;
    assert(chars::texts(parts@) =~= parts_upto(text@, spans@, 0));
    while i < spans.len()
        invariant
            i <= spans.len(),
            pattern::ordered(text@, spans@),
            last == pattern::end_of(spans@, i as int),
            last <= text.len(),
            chars::texts(parts@) == parts_upto(text@, spans@, i as int),
        decreases spans.len() - i,
    {
        let (a, b) = spans[i];
        assert(last <= a) by {
            if i > 0 {
                assert(spans@[i - 1].1 <= spans@[i as int].0);
            }
        }
        let piece = from_range(text, last, a);
        add_part(&mut parts, piece.as_str());
        last = b;
        i += 1;
    }
    let piece = from_range(text, last, text.len());
    add_part(&mut parts, piece.as_str());
    if parts.len() < 2 {
        return None;
    }
    Some(dash_parts(&parts))
}

/// A bulleted list out of a text that starts with `bullet`.
pub fn try_bullet_list(text: &str) -> (r: Option<String>)
    ensures
        (match r {
            Some(s) => Some(s@),
            None => None,
        }) == bullet_list(text@),
{
    let low = lowered(text);
    if !(has_prefix(low.as_str(), "bullet ") || has_prefix(low.as_str(), "bullet\n")) {
        return None;
    }
    let cs = to_chars(text);
    let spans = find_matches(BULLET, &cs);
    list_parts(&cs, &spans)
}

/// `text` after the list pass.
pub open spec fn with_lists(text: Seq<char>) -> Seq<char> {
    let t = words::trim(text);
    match marker_list(t, cardinals()) {
        Some(s) => s,
        None => match marker_list(t, ordinals()) {
            Some(s) => s,
            None => match bullet_list(t) {
                Some(s) => s,
                None => text,
            },
        },
    }
}

/// Numbered and bulleted lists when the utterance *starts* with a marker
/// sequence (avoids "I have one apple and two friends").
pub fn apply_lists(text: &str) -> (r: String)
    ensures
        r@ == with_lists(text@),
{
    let t = trimmed(text);
    let family: Vec<&'static str> = vec![
        "one",
        "two",
        "three",
        "four",
        "five",
        "six",
        "seven",
        "eight",
        "nine",
        "ten",
    ];
    assert(family@ =~= cardinals());
    if let Some(out) = try_marker_list(t.as_str(), &family) {
        return out;
    }
    let family: Vec<&'static str> = vec![
        "first",
        "second",
        "third",
        "fourth",
        "fifth",
        "sixth",
        "seventh",
        "eighth",
        "ninth",
        "tenth",
    ];
    assert(family@ =~= ordinals());
    if let Some(out) = try_marker_list(t.as_str(), &family) {
        return out;
    }
    if let Some(out) = try_bullet_list(t.as_str()) {
        return out;
    }
    text.to_owned()
}

/// A text that starts with neither first marker nor with `bullet` stays as it
/// is: numbers in the middle of prose make no list.
pub proof fn lemma_prose_makes_no_list(text: Seq<char>)
    requires
        ({
            let t = words::trim(text);
            let ws = words::words(t);
            &&& ws.len() > 0 ==> marker(ws[0], cardinals()) != Some(0int) && marker(
                ws[0],
                ordinals(),
            ) != Some(0int)
            &&& !starts_bullet(t)
        }),
    ensures
        with_lists(text) == text,
{
}

/// The phrases that take back what was said before them.
pub open spec fn discard_phrases() -> Seq<&'static str> {
    seq!["scratch that", "never mind", "disregard that"]
}

/// A clause up to a phrase that takes it back, with the mark before it and the
/// white space behind it.
pub open spec fn discard_pattern() -> Seq<char> {
    r"(?i)(?:^|[.!?]\s*|\n)[^.!?\n]*?\b(?:"@ + words::join(
        Seq::new(discard_phrases().len(), |i: int| phrase_pattern(discard_phrases()[i]@)),
        "|"@,
    ) + r")\b[,\.]?\s*"@
}

fn build_discard_pattern() -> (r: String)
    ensures
        r@ == discard_pattern(),
{
    let mut alts: Vec<String> = Vec::new();
    alts.push(phrase_to_pattern("scratch that"));
    alts.push(phrase_to_pattern("never mind"));
    alts.push(phrase_to_pattern("disregard that"));
    assert(chars::texts(alts@) =~= Seq::new(
        discard_phrases().len(),
        |i: int| phrase_pattern(discard_phrases()[i]@),
    ));
    let body = join_strings(&alts, "|");
    cat3(r"(?i)(?:^|[.!?]\s*|\n)[^.!?\n]*?\b(?:", body.as_str(), r")\b[,\.]?\s*")
}

/// What is left of a clause that was taken back: the mark that ended the
/// sentence before it, and a space.
pub open spec fn clause_rest(m: Seq<char>) -> Seq<char> {
    if m.len() > 0 && (m[0] == '.' || m[0] == '!' || m[0] == '?') {
        seq![m[0], ' ']
    } else {
        Seq::empty()
    }
}

/// `text` up to the end of span `n - 1`, with the rest of each span in its place.
pub open spec fn discarded_upto(text: Seq<char>, spans: Seq<(usize, usize)>, n: int) -> Seq<char>
    decreases n,
{
    if n <= 0 {
        Seq::empty()
    } else {
        discarded_upto(text, spans, n - 1) + pattern::gap(text, spans, n - 1) + clause_rest(
            pattern::matched(text, spans, n - 1),
        )
    }
}

/// `text` with the rest of each span in its place.
pub open spec fn discarded(text: Seq<char>, spans: Seq<(usize, usize)>) -> Seq<char> {
    discarded_upto(text, spans, spans.len() as int) + pattern::gap(text, spans, spans.len() as int)
}

/// Drops the clauses at the given places of `text`.
pub fn discard_clauses(text: &Vec<char>, spans: &Vec<(usize, usize)>) -> (r: String)
    requires
        pattern::ordered(text@, spans@),
    ensures
        r@ == discarded(text@, spans@),
{
    let mut out = String::new();
    let mut last: usize = 0;
    let mut i: usize = 0;
    while i < spans.len()
        invariant
            i <= spans.len(),
            pattern::ordered(text@, spans@),
            last == pattern::end_of(spans@, i as int),
            last <= text.len(),
            out@ == discarded_upto(text@, spans@, i as int),
        decreases spans.len() - i,
    {
        let (a, b) = spans[i];
        assert(last <= a) by {
            if i > 0 {
                assert(spans@[i - 1].1 <= spans@[i as int].0);
            }
        }
        let between = from_range(text, last, a);
        out.append(between.as_str());
        let ghost m = pattern::matched(text@, spans@, i as int);
        if a < b && (text[a] == '.' || text[a] == '!' || text[a] == '?') {
            assert(m[0] == text@[a as int]);
            out.push(text[a]);
            out.push(' ');
        } else {
            assert(m.len() > 0 ==> m[0] == text@[a as int]);
        }
        last = b;
        i += 1;
    }
    let tail = from_range(text, last, text.len());
    out.append(tail.as_str());
    out
}

/// `text` without the clauses that are taken back.
pub open spec fn without_discarded(text: Seq<char>) -> Seq<char> {
    collapsed(words::trim(discarded(text, pattern::matches(discard_pattern(), text))))
}

/// Drops each clause that ends in a phrase that takes it back.
pub fn drop_discard_commands(text: &str) -> (r: String)
    ensures
        r@ == without_discarded(text@),
{
    let cs = to_chars(text);
    let p = build_discard_pattern();
    let spans = find_matches(p.as_str(), &cs);
    let s = discard_clauses(&cs, &spans);
    let t = trimmed(s.as_str());
    collapse_space_around_breaks(t.as_str())
}

/// Whether a word is a pronoun, whatever its case and the punctuation around it.
pub open spec fn is_pronoun(w: Seq<char>) -> bool {
    let b = bare_word(w);
    b == "i"@ || b == "we"@ || b == "they"@ || b == "he"@ || b == "she"@ || b == "you"@
}

fn pronoun(w: &str) -> (r: bool)
    ensures
        r == is_pronoun(w@),
{
    let bare = to_bare_word(w);
    let b = bare.as_str();
    str_eq(b, "i") || str_eq(b, "we") || str_eq(b, "they") || str_eq(b, "he") || str_eq(b, "she")
        || str_eq(b, "you")
}

pub open spec fn is_actually(w: Seq<char>) -> bool {
    chars::same_ignoring_case(w, "actually"@)
}

pub open spec fn is_i(w: Seq<char>) -> bool {
    chars::same_ignoring_case(w, "i"@) || chars::same_ignoring_case(w, "i,"@)
}

pub open spec fn is_mean(w: Seq<char>) -> bool {
    chars::same_ignoring_case(w, "mean"@)
}

/// `actually` at `i`, with a word behind it.
pub open spec fn actually_at(ws: Seq<Seq<char>>, i: int) -> bool {
    i + 1 < ws.len() && is_actually(ws[i])
}

/// `I mean` at `i`, with a word behind it.
pub open spec fn i_mean_at(ws: Seq<Seq<char>>, i: int) -> bool {
    i + 2 < ws.len() && is_i(ws[i]) && is_mean(ws[i + 1])
}

/// The words from `i` on, behind the words `out`, with `X actually Y` made `Y`
/// wherever `X` is no pronoun.
pub open spec fn after_actually(
    ws: Seq<Seq<char>>,
    i: int,
    out: Seq<Seq<char>>,
) -> Seq<Seq<char>>
    decreases ws.len() - i,
{
    if i < 0 || i >= ws.len() {
        out
    } else if actually_at(ws, i) && out.len() > 0 && !is_pronoun(out.last()) {
        after_actually(ws, i + 2, out.drop_last().push(ws[i + 1]))
    } else {
        after_actually(ws, i + 1, out.push(ws[i]))
    }
}

/// The same for `X I mean Y`.
pub open spec fn after_i_mean(ws: Seq<Seq<char>>, i: int, out: Seq<Seq<char>>) -> Seq<Seq<char>>
    decreases ws.len() - i,
{
    if i < 0 || i >= ws.len() {
        out
    } else if i_mean_at(ws, i) && out.len() > 0 && !is_pronoun(out.last()) {
        after_i_mean(ws, i + 3, out.drop_last().push(ws[i + 2]))
    } else {
        after_i_mean(ws, i + 1, out.push(ws[i]))
    }
}

fn replace_last(out: &mut Vec<String>, w: &String)
    requires
        old(out).len() > 0,
    ensures
        chars::texts(final(out)@) == chars::texts(old(out)@).drop_last().push(w@),
{
    let ghost before = chars::texts(out@);
    out.pop();
    out.push(w.clone());
    assert(chars::texts(out@) =~= before.drop_last().push(w@));
}

fn push_copy(out: &mut Vec<String>, w: &String)
    ensures
        chars::texts(final(out)@) == chars::texts(old(out)@).push(w@),
{
    let ghost before = chars::texts(out@);
    out.push(w.clone());
    assert(chars::texts(out@) =~= before.push(w@));
}

/// Makes `X actually Y` just `Y`, unless `X` is a pronoun.
pub fn rewrite_actually(text: &str) -> (r: String)
    ensures
        r@ == words::join(after_actually(words::words(text@), 0, Seq::empty()), " "@),
{
    let ws = split_words(text);
    let ghost all = words::words(text@);
    let mut out: Vec<String> = Vec::new();
    let mut i: usize = 0;
    assert(ws@.len() == all.len());
    assert(chars::texts(out@) =~= Seq::empty());
    while i < ws.len()
        invariant
            i <= ws.len(),
            chars::texts(ws@) == all,
            ws@.len() == all.len(),
            after_actually(all, 0, Seq::empty()) == after_actually(
                all,
                i as int,
                chars::texts(out@),
            ),
        decreases ws.len() - i,
    {
        assert(ws@[i as int]@ == all[i as int]);
        let n = out.len();
        if ws.len() - i > 1 && eq_ignore_case(ws[i].as_str(), "actually") && n > 0 && !pronoun(
            out[n - 1].as_str(),
        ) {
            assert(chars::texts(out@).last() == out@[n - 1]@);
            assert(ws@[i + 1]@ == all[i + 1]);
            replace_last(&mut out, &ws[i + 1]);
            i += 2;
        } else {
            assert(n > 0 ==> chars::texts(out@).last() == out@[n - 1]@);
            push_copy(&mut out, &ws[i]);
            i += 1;
        }
    }
    join_strings(&out, " ")
}

/// Makes `X I mean Y` just `Y`, unless `X` is a pronoun.
pub fn rewrite_i_mean(text: &str) -> (r: String)
    ensures
        r@ == words::join(after_i_mean(words::words(text@), 0, Seq::empty()), " "@),
{
    let ws = split_words(text);
    let ghost all = words::words(text@);
    let mut out: Vec<String> = Vec::new();
    let mut i: usize = 0;
    assert(ws@.len() == all.len());
    assert(chars::texts(out@) =~= Seq::empty());
    while i < ws.len()
        invariant
            i <= ws.len(),
            chars::texts(ws@) == all,
            ws@.len() == all.len(),
            after_i_mean(all, 0, Seq::empty()) == after_i_mean(all, i as int, chars::texts(out@)),
        decreases ws.len() - i,
    {
        assert(ws@[i as int]@ == all[i as int]);
        let n = out.len();
        if ws.len() - i > 2 && (eq_ignore_case(ws[i].as_str(), "i") || eq_ignore_case(
            ws[i].as_str(),
            "i,",
        )) && eq_ignore_case(ws[i + 1].as_str(), "mean") && n > 0 && !pronoun(
            out[n - 1].as_str(),
        ) {
            assert(chars::texts(out@).last() == out@[n - 1]@);
            assert(ws@[i + 1]@ == all[i + 1]);
            assert(ws@[i + 2]@ == all[i + 2]);
            replace_last(&mut out, &ws[i + 2]);
            i += 3;
        } else {
            assert(n > 0 ==> chars::texts(out@).last() == out@[n - 1]@);
            assert(i + 1 < ws@.len() ==> ws@[i + 1]@ == all[i + 1]);
            push_copy(&mut out, &ws[i]);
            i += 1;
        }
    }
    join_strings(&out, " ")
}

/// `text` after the backtrack pass.
pub open spec fn backtracked(text: Seq<char>) -> Seq<char> {
    let a = without_discarded(text);
    let b = words::join(after_actually(words::words(a), 0, Seq::empty()), " "@);
    words::join(after_i_mean(words::words(b), 0, Seq::empty()), " "@)
}

/// Conservative backtrack: drops a clause at "scratch that" or "never mind",
/// and rewrites "X actually Y" and "X I mean Y" when X is not a pronoun.
pub fn apply_backtrack(text: &str) -> (r: String)
    ensures
        r@ == backtracked(text@),
{
    let a = drop_discard_commands(text);
    let b = rewrite_actually(a.as_str());
    rewrite_i_mean(b.as_str())
}

/// Where each `actually` stands behind a pronoun or at an end, nothing is
/// rewritten ("I actually enjoyed it").
pub proof fn lemma_actually_behind_a_pronoun(ws: Seq<Seq<char>>, i: int)
    requires
        0 <= i <= ws.len(),
        forall|k: int| 0 < k < ws.len() && #[trigger] actually_at(ws, k) ==> is_pronoun(ws[k - 1]),
    ensures
        after_actually(ws, i, ws.take(i)) == ws,
    decreases ws.len() - i,
{
    if i < ws.len() {
        lemma_actually_behind_a_pronoun(ws, i + 1);
        assert(ws.take(i).push(ws[i]) =~= ws.take(i + 1));
        if i > 0 {
            assert(ws.take(i).last() == ws[i - 1]);
        }
    } else {
        assert(ws.take(i) =~= ws);
    }
}

/// Where each `I mean` stands behind a pronoun or at an end, nothing is rewritten.
pub proof fn lemma_i_mean_behind_a_pronoun(ws: Seq<Seq<char>>, i: int)
    requires
        0 <= i <= ws.len(),
        forall|k: int| 0 < k < ws.len() && #[trigger] i_mean_at(ws, k) ==> is_pronoun(ws[k - 1]),
    ensures
        after_i_mean(ws, i, ws.take(i)) == ws,
    decreases ws.len() - i,
{
    if i < ws.len() {
        lemma_i_mean_behind_a_pronoun(ws, i + 1);
        assert(ws.take(i).push(ws[i]) =~= ws.take(i + 1));
        if i > 0 {
            assert(ws.take(i).last() == ws[i - 1]);
        }
    } else {
        assert(ws.take(i) =~= ws);
    }
}

/// `text` after the whole offline pass.
pub open spec fn offline_formatted(text: Seq<char>) -> Seq<char> {
    with_lists(backtracked(with_commands(text)))
}

/// The full offline pass, before the user dictionary and cleanup.
pub fn apply_offline_format(text: &str) -> (r: String)
    ensures
        r@ == offline_formatted(text@),
{
    let spoken = apply_spoken_commands(text);
    let back = apply_backtrack(spoken.as_str());
    apply_lists(back.as_str())
}

} // verus!
