//! Trimming, splitting, replacing and joining.

use crate::chars;
use crate::pattern;
use crate::words;
use crate::words::Class;
use vstd::prelude::*;
use vstd::string::*;

verus! {

/// Whether a character is taken away by a trim.
pub open spec fn in_class(c: char, class: Class) -> bool {
    match class {
        Class::White => chars::is_white(c),
        Class::Punct => '!' <= c <= '/' || ':' <= c <= '@' || '[' <= c <= '`' || '{' <= c <= '~',
        Class::Only(d) => c == d,
    }
}

/// Whether all characters of a text are of a class.
pub open spec fn all_in(s: Seq<char>, class: Class) -> bool {
    forall|i: int| 0 <= i < s.len() ==> in_class(#[trigger] s[i], class)
}

/// Whether a text is not empty and has no character of a class at its ends.
pub open spec fn is_core(s: Seq<char>, class: Class) -> bool {
    s.len() > 0 && !in_class(s[0], class) && !in_class(s.last(), class)
}

proof fn lemma_start_gone(p: Seq<char>, s: Seq<char>, class: Class)
    requires
        all_in(p, class),
        s.len() > 0 ==> !in_class(s[0], class),
    ensures
        words::without_start(p + s, class) == s,
    decreases p.len(),
{
    if p.len() == 0 {
        assert(p + s =~= s);
    } else {
        assert(in_class(p[0], class));
        assert((p + s).drop_first() =~= p.drop_first() + s);
        assert forall|i: int| 0 <= i < p.drop_first().len() implies in_class(
            #[trigger] p.drop_first()[i],
            class,
        ) by {
            assert(in_class(p[i + 1], class));
        }
        lemma_start_gone(p.drop_first(), s, class);
    }
}

proof fn lemma_end_gone(s: Seq<char>, q: Seq<char>, class: Class)
    requires
        all_in(q, class),
        s.len() > 0 ==> !in_class(s.last(), class),
    ensures
        words::without_end(s + q, class) == s,
    decreases q.len(),
{
    if q.len() == 0 {
        assert(s + q =~= s);
    } else {
        assert(in_class(q.last(), class));
        assert((s + q).drop_last() =~= s + q.drop_last());
        assert forall|i: int| 0 <= i < q.drop_last().len() implies in_class(
            #[trigger] q.drop_last()[i],
            class,
        ) by {
            assert(in_class(q[i], class));
        }
        lemma_end_gone(s, q.drop_last(), class);
    }
}

/// A trim takes away the characters of the class before and behind a text, and
/// keeps the text.
pub proof fn lemma_trim_keeps_core(p: Seq<char>, s: Seq<char>, q: Seq<char>, class: Class)
    requires
        all_in(p, class),
        is_core(s, class),
        all_in(q, class),
    ensures
        words::without_ends(p + s + q, class) == s,
        words::without_start(p + s + q, class) == s + q,
        words::without_end(p + s + q, class) == p + s,
{
    assert(p + s + q =~= p + (s + q));
    lemma_start_gone(p, s + q, class);
    lemma_end_gone(s, q, class);
    assert((p + s).last() == s.last());
    lemma_end_gone(p + s, q, class);
}

/// Nothing is left of a text that is of the class as a whole.
pub proof fn lemma_trim_takes_all(p: Seq<char>, class: Class)
    requires
        all_in(p, class),
    ensures
        words::without_ends(p, class).len() == 0,
        words::without_start(p, class).len() == 0,
        words::without_end(p, class).len() == 0,
{
    assert(p + Seq::<char>::empty() =~= p);
    assert(Seq::<char>::empty() + p =~= p);
    lemma_start_gone(p, Seq::empty(), class);
    lemma_end_gone(Seq::empty(), p, class);
}

/// What can be trimmed off: the space and the line breaks are white, letters,
/// digits and marks are not.
pub proof fn lemma_white(c: char)
    ensures
        chars::is_white(' ') && chars::is_white('\n') && chars::is_white('\t') && chars::is_white(
            '\r',
        ),
        '!' <= c <= '~' ==> !chars::is_white(c),
{
}

/// The white space of Unicode, and nothing else.
pub proof fn lemma_white_space(c: char)
    ensures
        chars::is_white(c) <==> c == '\t' || c == '\n' || c == '\u{b}' || c == '\u{c}' || c == '\r'
            || c == ' ' || c == '\u{85}' || c == '\u{a0}' || c == '\u{1680}' || '\u{2000}' <= c
            <= '\u{200a}' || c == '\u{2028}' || c == '\u{2029}' || c == '\u{202f}' || c
            == '\u{205f}' || c == '\u{3000}',
{
}

/// ASCII letters come in pairs that lower and upper case lead between, and no digit
/// is one.
pub proof fn lemma_letter_case(c: char)
    ensures
        chars::is_ascii_letter(c) <==> 65 <= (c as u32) <= 90 || 97 <= (c as u32) <= 122,
        chars::is_digit(c) <==> 48 <= (c as u32) <= 57,
        65 <= (c as u32) <= 90 ==> chars::lower_char(c) as u32 == c as u32 + 32
            && chars::upper_char(chars::lower_char(c)) == c,
        97 <= (c as u32) <= 122 ==> chars::upper_char(c) as u32 == c as u32 - 32
            && chars::lower_char(chars::upper_char(c)) == c,
        !chars::is_ascii_letter(c) ==> chars::lower_char(c) == c && chars::upper_char(c) == c,
        chars::is_punct(c) <==> 33 <= (c as u32) <= 126 && !chars::is_ascii_letter(c)
            && !chars::is_digit(c),
{
}

/// Lower-casing changes ASCII capitals, each to its own letter, and nothing else.
pub proof fn lemma_lower(s: Seq<char>, i: int)
    requires
        0 <= i < s.len(),
    ensures
        chars::lower(s).len() == s.len(),
        'A' <= s[i] <= 'Z' ==> chars::lower(s)[i] as u32 == s[i] as u32 + ('a' as u32 - 'A' as u32),
        !('A' <= s[i] <= 'Z') ==> chars::lower(s)[i] == s[i],
{
}

/// Replacing a character goes through a text piece by piece.
pub proof fn lemma_replace_char(s: Seq<char>, t: Seq<char>, c: char, with: Seq<char>)
    ensures
        words::replace_char(s + t, c, with) == words::replace_char(s, c, with)
            + words::replace_char(t, c, with),
    decreases t.len(),
{
    if t.len() == 0 {
        assert(s + t =~= s);
        assert(words::replace_char(s, c, with) + Seq::<char>::empty() =~= words::replace_char(
            s,
            c,
            with,
        ));
    } else {
        assert((s + t).drop_last() =~= s + t.drop_last());
        lemma_replace_char(s, t.drop_last(), c, with);
        assert(words::replace_char(s + t, c, with) =~= words::replace_char(s, c, with)
            + words::replace_char(t, c, with));
    }
}

/// Each occurrence of the character is replaced, and each other character kept.
pub proof fn lemma_replace_one(d: char, c: char, with: Seq<char>)
    ensures
        words::replace_char(seq![c], c, with) == with,
        d != c ==> words::replace_char(seq![d], c, with) == seq![d],
        words::replace_char(Seq::empty(), c, with).len() == 0,
{
    reveal_with_fuel(words::replace_char, 2);
    assert(seq![c].drop_last() =~= Seq::empty());
    assert(seq![d].drop_last() =~= Seq::empty());
    assert(words::replace_char(seq![c], c, with) =~= with);
    if d != c {
        assert(words::replace_char(seq![d], c, with) =~= seq![d]);
    }
}

/// A join is the parts, one after the other, with the separator between each two.
pub proof fn lemma_join_parts(a: Seq<Seq<char>>, b: Seq<Seq<char>>, sep: Seq<char>)
    requires
        a.len() > 0,
        b.len() > 0,
    ensures
        words::join(a + b, sep) == words::join(a, sep) + sep + words::join(b, sep),
        words::join(seq![a[0]], sep) == a[0],
    decreases b.len(),
{
    if b.len() == 1 {
        assert((a + b).drop_last() =~= a);
        assert((a + b).last() == b[0]);
    } else {
        assert((a + b).drop_last() =~= a + b.drop_last());
        lemma_join_parts(a, b.drop_last(), sep);
        assert(words::join(a + b, sep) =~= words::join(a, sep) + sep + words::join(b, sep));
    }
}

/// Trailing characters of a class go, and nothing else.
pub proof fn lemma_end_trimmed(s: Seq<char>, q: Seq<char>, class: Class)
    requires
        all_in(q, class),
        s.len() > 0 ==> !in_class(s.last(), class),
    ensures
        words::without_end(s + q, class) == s,
{
    lemma_end_gone(s, q, class);
}

/// The characters that have a meaning in a pattern.
pub open spec fn has_meaning(c: char) -> bool {
    c == '\\' || c == '.' || c == '+' || c == '*' || c == '?' || c == '(' || c == ')' || c == '|'
        || c == '[' || c == ']' || c == '{' || c == '}' || c == '^' || c == '$' || c == '#' || c
        == '&' || c == '-' || c == '~'
}

/// A literal text as a pattern, character by character.
pub proof fn lemma_literal_pattern(s: Seq<char>, c: char)
    ensures
        words::replace_char(pattern::escape(s.push(c)), ' ', "\\s+"@) == words::replace_char(
            pattern::escape(s),
            ' ',
            "\\s+"@,
        ) + (if c == ' ' {
            seq!['\\', 's', '+']
        } else if has_meaning(c) {
            seq!['\\', c]
        } else {
            seq![c]
        }),
        words::replace_char(pattern::escape(Seq::empty()), ' ', "\\s+"@).len() == 0,
{
    reveal_strlit("\\s+");
    assert("\\s+"@ =~= seq!['\\', 's', '+']);
    assert(s.push(c).drop_last() =~= s);
    let with = "\\s+"@;
    if has_meaning(c) {
        lemma_replace_char(pattern::escape(s), seq!['\\', c], ' ', with);
        lemma_replace_one('\\', ' ', with);
        lemma_replace_one(c, ' ', with);
        lemma_replace_char(seq!['\\'], seq![c], ' ', with);
        assert(seq!['\\'] + seq![c] =~= seq!['\\', c]);
    } else {
        lemma_replace_char(pattern::escape(s), seq![c], ' ', with);
        lemma_replace_one(c, ' ', with);
    }
}

/// Leading characters of a class go, and nothing else.
pub proof fn lemma_start_trimmed(p: Seq<char>, s: Seq<char>, class: Class)
    requires
        all_in(p, class),
        s.len() > 0 ==> !in_class(s[0], class),
    ensures
        words::without_start(p + s, class) == s,
{
    lemma_start_gone(p, s, class);
}

/// Something is left of a trimmed text exactly where it holds a character that is
/// not white.
pub proof fn lemma_blank(t: Seq<char>)
    ensures
        words::trim(t).len() > 0 <==> exists|i: int|
            0 <= i < t.len() && !chars::is_white(#[trigger] t[i]),
{
    if !(exists|i: int| 0 <= i < t.len() && !chars::is_white(#[trigger] t[i])) {
        lemma_trim_takes_all(t, Class::White);
    } else {
        let i = choose|i: int| 0 <= i < t.len() && !chars::is_white(#[trigger] t[i]);
        words::lemma_without_start(t, Class::White);
        let a = words::without_start(t, Class::White);
        words::lemma_without_end(a, Class::White);
        let n = t.len() - a.len();
        if i < n {
            assert(Class::White.holds(t[i]));
        } else {
            assert(a[i - n] == t[i]);
            assert(words::trim(t).len() == 0 ==> Class::White.holds(a[i - n]));
        }
    }
}

/// A template that stands for a text writes each `$` of it twice and leaves the rest.
pub proof fn lemma_template(s: Seq<char>, c: char)
    ensures
        c == '$' ==> pattern::literal_template(s.push(c)) == pattern::literal_template(s) + seq![
            '$',
            '$',
        ],
        c != '$' ==> pattern::literal_template(s.push(c)) == pattern::literal_template(s).push(c),
        pattern::literal_template(Seq::<char>::empty()).len() == 0,
{
    reveal_strlit("$$");
    assert("$$"@ =~= seq!['$', '$']);
    lemma_replace_char(s, seq![c], '$', "$$"@);
    lemma_replace_one(c, '$', "$$"@);
    assert(s + seq![c] =~= s.push(c));
    let a = words::replace_char(s, '$', "$$"@);
    assert(a + seq![c] =~= a.push(c));
}

} // verus!
