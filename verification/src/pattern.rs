//! Regular expressions, by way of the `regex` crate.
//!
//! A pattern is compiled at each use. A match is a pair of byte offsets; the
//! text passes work on character offsets, which `char_spans` computes.

use crate::chars;
use crate::chars::char_index;
use crate::words;
use vstd::prelude::*;
use vstd::string::*;

verus! {

/// The byte spans that `Regex::find_iter` of `regex` yields for a pattern and a
/// text, in order; `None` when `Regex::new` refuses the pattern.
pub uninterp spec fn regex_spans(pattern: Seq<char>, text: Seq<char>) -> Option<
    Seq<(usize, usize)>,
>;

/// The text that `Regex::replace_all` of `regex` returns for a pattern, a text
/// and a replacement template; `None` when `Regex::new` refuses the pattern.
pub uninterp spec fn regex_replace_all(
    pattern: Seq<char>,
    text: Seq<char>,
    template: Seq<char>,
) -> Option<Seq<char>>;

/// Spans that lie in `text` at character boundaries, in order, without overlap.
pub open spec fn spans_in(text: Seq<char>, spans: Seq<(usize, usize)>) -> bool {
    &&& forall|i: int| #![trigger spans[i]]
        0 <= i < spans.len() ==> spans[i].0 <= spans[i].1 && chars::at_boundary(
            text,
            spans[i].0 as int,
        ) && chars::at_boundary(text, spans[i].1 as int)
    &&& forall|i: int, j: int| #![trigger spans[i], spans[j]]
        0 <= i < j < spans.len() ==> spans[i].1 <= spans[j].0
}

/// The same for spans of characters.
pub open spec fn ordered(text: Seq<char>, spans: Seq<(usize, usize)>) -> bool {
    &&& forall|i: int| #![trigger spans[i]]
        0 <= i < spans.len() ==> spans[i].0 <= spans[i].1 <= text.len()
    &&& forall|i: int, j: int| #![trigger spans[i], spans[j]]
        0 <= i < j < spans.len() ==> spans[i].1 <= spans[j].0
}

/// The characters that have a meaning in a pattern.
pub open spec fn is_meta(c: char) -> bool {
    c == '\\' || c == '.' || c == '+' || c == '*' || c == '?' || c == '(' || c == ')' || c == '|'
        || c == '[' || c == ']' || c == '{' || c == '}' || c == '^' || c == '$' || c == '#' || c
        == '&' || c == '-' || c == '~'
}

/// `s` with a backslash before every character that has a meaning in a pattern.
pub open spec fn escape(s: Seq<char>) -> Seq<char>
    decreases s.len(),
{
    if s.len() == 0 {
        Seq::empty()
    } else {
        escape(s.drop_last()) + if is_meta(s.last()) {
            seq!['\\', s.last()]
        } else {
            seq![s.last()]
        }
    }
}

/// `regex::escape` puts a backslash before each meta character and keeps all
/// other characters.
#[verifier::external_body]
pub(crate) fn escaped(text: &str) -> (r: String)
    ensures
        r@ == escape(text@),
{
    regex::escape(text)
}

/// `Regex::find_iter` yields the successive non-overlapping matches of a
/// pattern, from left to right, each at character boundaries of the text. Which
/// matches these are depends on the pattern and the text alone. The result is
/// `None` when `Regex::new` returns an error.
#[verifier::external_body]
pub(crate) fn find_spans(pattern: &str, text: &str) -> (r: Option<Vec<(usize, usize)>>)
    ensures
        r is Some <==> regex_spans(pattern@, text@) is Some,
        r matches Some(v) ==> regex_spans(pattern@, text@) == Some(v@) && spans_in(text@, v@),
{
    let re = regex::Regex::new(pattern).ok()?;
    Some(re.find_iter(text).map(|m| (m.start(), m.end())).collect())
}

/// `Regex::is_match` holds iff there is a match of the pattern anywhere in the
/// text. The result is `None` when `Regex::new` returns an error.
#[verifier::external_body]
pub(crate) fn is_match(pattern: &str, text: &str) -> (r: Option<bool>)
    ensures
        r == (match regex_spans(pattern@, text@) {
            Some(v) => Some(v.len() > 0),
            None => None::<bool>,
        }),
{
    regex::Regex::new(pattern).ok().map(|re| re.is_match(text))
}

/// A template that stands for a literal text: each `$` of the text is written
/// twice.
pub open spec fn literal_template(text: Seq<char>) -> Seq<char> {
    words::replace_char(text, '$', "$$"@)
}

/// `Regex::replace_all` puts the expanded template in place of each match of
/// the pattern. A template in which each `$` of a text is written twice expands
/// to that text, and a text without a match is returned as it is. What any other
/// template expands to has no shorter statement than the name. The result is
/// `None` when `Regex::new` returns an error.
#[verifier::external_body]
pub(crate) fn replace_all(pattern: &str, text: &str, template: &str) -> (r: Option<String>)
    ensures
        (match r {
            Some(s) => Some(s@),
            None => None,
        }) == regex_replace_all(pattern@, text@, template@),
        r is Some <==> regex_spans(pattern@, text@) is Some,
        r matches Some(s) ==> (regex_spans(pattern@, text@)->0.len() == 0 ==> s@ == text@),
        r matches Some(s) ==> forall|literal: Seq<char>|
            #![trigger literal_template(literal)]
            literal_template(literal) == template@ ==> s@ == with_each_replaced(
                text@,
                to_char_spans(text@, regex_spans(pattern@, text@)->0),
                literal,
            ),
{
    let re = regex::Regex::new(pattern).ok()?;
    Some(re.replace_all(text, template).into_owned())
}

/// Byte spans of `text` as character spans.
pub open spec fn to_char_spans(text: Seq<char>, spans: Seq<(usize, usize)>) -> Seq<
    (usize, usize),
> {
    Seq::new(
        spans.len(),
        |i: int|
            (
                chars::chars_before(text, spans[i].0 as int) as usize,
                chars::chars_before(text, spans[i].1 as int) as usize,
            ),
    )
}

/// The character spans of the matches of `pattern` in `text`; none when the
/// pattern is refused.
pub open spec fn matches(pattern: Seq<char>, text: Seq<char>) -> Seq<(usize, usize)> {
    match regex_spans(pattern, text) {
        Some(spans) => to_char_spans(text, spans),
        None => Seq::empty(),
    }
}

/// Whether `pattern` matches somewhere in `text`.
pub open spec fn found(pattern: Seq<char>, text: Seq<char>) -> bool {
    matches(pattern, text).len() > 0
}

/// `text` after `Regex::replace_all`, or `text` itself when the pattern is refused.
pub open spec fn replaced(pattern: Seq<char>, text: Seq<char>, template: Seq<char>) -> Seq<char> {
    match regex_replace_all(pattern, text, template) {
        Some(t) => t,
        None => text,
    }
}

/// Where the text behind the first `n` spans starts.
pub open spec fn end_of(spans: Seq<(usize, usize)>, n: int) -> int {
    if n <= 0 {
        0
    } else {
        spans[n - 1].1 as int
    }
}

/// The text between span `n - 1` (or the start) and span `n` (or the end).
pub open spec fn gap(text: Seq<char>, spans: Seq<(usize, usize)>, n: int) -> Seq<char> {
    text.subrange(
        end_of(spans, n),
        if n < spans.len() {
            spans[n].0 as int
        } else {
            text.len() as int
        },
    )
}

/// The text of span `n`.
pub open spec fn matched(text: Seq<char>, spans: Seq<(usize, usize)>, n: int) -> Seq<char> {
    text.subrange(spans[n].0 as int, spans[n].1 as int)
}

/// `text` up to the end of span `n - 1`, with `with` in place of each span.
pub open spec fn replaced_upto(
    text: Seq<char>,
    spans: Seq<(usize, usize)>,
    with: Seq<char>,
    n: int,
) -> Seq<char>
    decreases n,
{
    if n <= 0 {
        Seq::empty()
    } else {
        replaced_upto(text, spans, with, n - 1) + gap(text, spans, n - 1) + with
    }
}

/// `text` with `with` in place of each span.
pub open spec fn with_each_replaced(
    text: Seq<char>,
    spans: Seq<(usize, usize)>,
    with: Seq<char>,
) -> Seq<char> {
    replaced_upto(text, spans, with, spans.len() as int) + gap(text, spans, spans.len() as int)
}

/// Without a match nothing is replaced.
pub proof fn lemma_nothing_replaced(text: Seq<char>, with: Seq<char>)
    ensures
        with_each_replaced(text, Seq::empty(), with) == text,
{
    assert(gap(text, Seq::empty(), 0) =~= text);
}

pub proof fn lemma_char_spans(text: Seq<char>, spans: Seq<(usize, usize)>)
    requires
        spans_in(text, spans),
        text.len() <= usize::MAX,
    ensures
        ordered(text, to_char_spans(text, spans)),
        forall|i: int| #![trigger spans[i]]
            0 <= i < spans.len() ==> to_char_spans(text, spans)[i].0 == chars::chars_before(
                text,
                spans[i].0 as int,
            ) && to_char_spans(text, spans)[i].1 == chars::chars_before(text, spans[i].1 as int),
{
    let cs = to_char_spans(text, spans);
    assert forall|i: int| #![trigger spans[i]] 0 <= i < spans.len() implies cs[i].0
        == chars::chars_before(text, spans[i].0 as int) && cs[i].1 == chars::chars_before(
        text,
        spans[i].1 as int,
    ) && cs[i].0 <= cs[i].1 <= text.len() by {
        chars::lemma_chars_before_monotone(text, spans[i].0 as int, spans[i].1 as int);
    }
    assert forall|i: int| #![trigger cs[i]] 0 <= i < cs.len() implies cs[i].0 <= cs[i].1
        <= text.len() by {
        assert(spans[i].0 <= spans[i].1);
    }
    assert forall|i: int, j: int| #![trigger cs[i], cs[j]] 0 <= i < j < cs.len() implies cs[i].1
        <= cs[j].0 by {
        assert(spans[i].1 <= spans[j].0);
        chars::lemma_chars_before_monotone(text, spans[i].1 as int, spans[j].0 as int);
    }
}

/// Byte spans as character spans.
pub fn char_spans(text: &Vec<char>, spans: &Vec<(usize, usize)>) -> (r: Vec<(usize, usize)>)
    requires
        spans_in(text@, spans@),
    ensures
        r@ == to_char_spans(text@, spans@),
        ordered(text@, r@),
{
    let mut out: Vec<(usize, usize)> = Vec::new();
    let mut i: usize = 0;
    while i < spans.len()
        invariant
            i <= spans.len(),
            out@ == to_char_spans(text@, spans@).take(i as int),
        decreases spans.len() - i,
    {
        let a = char_index(text, spans[i].0);
        let b = char_index(text, spans[i].1);
        out.push((a, b));
        i += 1;
    }
    assert(to_char_spans(text@, spans@).take(i as int) == to_char_spans(text@, spans@));
    assert(text.len() == text@.len());
    proof {
        lemma_char_spans(text@, spans@);
    }
    out
}

/// The matches of `pattern` in `text`, as character spans.
pub fn find_matches(pattern: &str, text: &Vec<char>) -> (r: Vec<(usize, usize)>)
    ensures
        r@ == matches(pattern@, text@),
        ordered(text@, r@),
{
    let s = crate::chars::from_chars(text);
    match find_spans(pattern, s.as_str()) {
        Some(v) => char_spans(text, &v),
        None => Vec::new(),
    }
}

/// Whether `pattern` matches somewhere in `text`.
pub fn matches_somewhere(pattern: &str, text: &str) -> (r: bool)
    ensures
        r == found(pattern@, text@),
{
    match is_match(pattern, text) {
        Some(b) => b,
        None => false,
    }
}

/// Puts the expanded template in place of each match of `pattern`.
pub fn replace_matches(pattern: &str, text: &str, template: &str) -> (r: String)
    ensures
        r@ == replaced(pattern@, text@, template@),
        !found(pattern@, text@) ==> r@ == text@,
        forall|literal: Seq<char>|
            #![trigger literal_template(literal)]
            literal_template(literal) == template@ ==> r@ == with_each_replaced(
                text@,
                matches(pattern@, text@),
                literal,
            ),
{
    proof {
        assert forall|literal: Seq<char>| #![trigger literal_template(literal)] with_each_replaced(
            text@,
            Seq::empty(),
            literal,
        ) == text@ by {
            lemma_nothing_replaced(text@, literal);
        }
    }
    match replace_all(pattern, text, template) {
        Some(s) => s,
        None => text.to_owned(),
    }
}

/// A text without `$` stands for itself.
pub proof fn lemma_plain_template(text: Seq<char>)
    requires
        !text.contains('$'),
    ensures
        literal_template(text) == text,
{
    words::lemma_replace_absent(text, '$', "$$"@);
}

/// How often `pattern` matches in `text`.
pub fn count_matches(pattern: &str, text: &str) -> (r: usize)
    ensures
        r == matches(pattern@, text@).len(),
{
    match find_spans(pattern, text) {
        Some(v) => v.len(),
        None => 0,
    }
}

} // verus!
