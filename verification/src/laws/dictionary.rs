//! Dictionary rules, fillers and final punctuation.

use crate::chars;
use crate::laws::texts;
use crate::pattern;
use crate::text;
use crate::text::DictionaryEntry;
use crate::words;
use crate::words::Class;
use vstd::prelude::*;
use vstd::string::*;

verus! {

/// A rule is searched for in any case. A whole-word rule has a word boundary before a
/// trigger that begins with an alphanumeric character, and behind one that ends with
/// one; no other boundary stands in the pattern.
pub proof fn lemma_rule_boundaries(e: DictionaryEntry)
    requires
        words::trim(e.trigger@).len() > 0,
    ensures
        ({
            let t = words::trim(e.trigger@);
            let p = text::rule_pattern(e);
            let n = p.len() as int;
            let lead = e.whole_word && chars::char_is_alphanumeric(t[0]);
            let trail = e.whole_word && chars::char_is_alphanumeric(t.last());
            let from: int = if lead {
                6
            } else {
                4
            };
            let to = if trail {
                n - 2
            } else {
                n
            };
            &&& from <= to <= n
            &&& p.take(4) == seq!['(', '?', 'i', ')']
            &&& lead ==> p.subrange(4, 6) == seq!['\\', 'b']
            &&& trail ==> p.skip(n - 2) == seq!['\\', 'b']
            &&& p.subrange(from, to) == crate::format::phrase_pattern(t)
        }),
{
    reveal_strlit("(?i)");
    reveal_strlit("\\b");
    reveal_strlit("");
    let t = words::trim(e.trigger@);
    let p = text::rule_pattern(e);
    let n = p.len() as int;
    let lead = e.whole_word && chars::char_is_alphanumeric(t[0]);
    let trail = e.whole_word && chars::char_is_alphanumeric(t.last());
    let body = crate::format::phrase_pattern(t);
    let head = if lead {
        "\\b"@
    } else {
        ""@
    };
    let tail = if trail {
        "\\b"@
    } else {
        ""@
    };
    assert(p =~= "(?i)"@ + head + body + tail);
    assert(p.take(4) =~= seq!['(', '?', 'i', ')']);
    if lead {
        assert(p.subrange(4, 6) =~= seq!['\\', 'b']);
    }
    if trail {
        assert(p.skip(n - 2) =~= seq!['\\', 'b']);
    }
    let from: int = if lead {
        6
    } else {
        4
    };
    let to = if trail {
        n - 2
    } else {
        n
    };
    assert(p.subrange(from, to) =~= body);
}

/// Whether a rule takes part: it is enabled, and its trigger is not blank.
pub open spec fn takes_part(e: DictionaryEntry) -> bool {
    e.enabled && exists|i: int| 0 <= i < e.trigger@.len() && !chars::is_white(
        #[trigger] e.trigger@[i],
    )
}

/// A rule that takes part fires at the matches of its pattern; any other fires
/// nowhere, and leaves text and count as they are.
pub proof fn lemma_rule_takes_part(s: Seq<char>, e: DictionaryEntry)
    ensures
        takes_part(e) ==> text::rule_matches(s, e) == pattern::matches(text::rule_pattern(e), s),
        !takes_part(e) ==> {
            &&& text::rule_matches(s, e).len() == 0
            &&& text::rule_hits(s, e) == 0
            &&& text::rule_result(s, e, text::rule_matches(s, e)) == s
        },
{
    let t = e.trigger@;
    if !(exists|i: int| 0 <= i < t.len() && !chars::is_white(#[trigger] t[i])) {
        texts::lemma_trim_takes_all(t, Class::White);
    } else {
        let i = choose|i: int| 0 <= i < t.len() && !chars::is_white(#[trigger] t[i]);
        if words::trim(t).len() == 0 {
            words::lemma_without_start(t, Class::White);
            let a = words::without_start(t, Class::White);
            words::lemma_without_end(a, Class::White);
            let n = t.len() - a.len();
            if i < n {
                assert(Class::White.holds(t[i]));
            } else {
                assert(a[i - n] == t[i]);
                assert(Class::White.holds(a[i - n]));
            }
        }
    }
}

/// Rules run in order, each on the text that the ones before it left, and their
/// replacements add up.
pub proof fn lemma_rules_in_order(s: Seq<char>, a: Seq<DictionaryEntry>, b: Seq<DictionaryEntry>)
    ensures
        ({
            let n = a.len() as int;
            let all = (a + b).len() as int;
            let left = text::after_rules(s, a, n);
            &&& text::after_rules(s, a + b, all) == text::after_rules(left, b, b.len() as int)
            &&& text::hits_of_rules(s, a + b, all) as int == (text::hits_of_rules(s, a, n)
                + text::hits_of_rules(left, b, b.len() as int)) % 0x1_0000_0000
        }),
    decreases b.len(),
{
    let n = a.len() as int;
    let left = text::after_rules(s, a, n);
    if b.len() == 0 {
        assert(a + b =~= a);
    } else {
        let c = b.drop_last();
        let e = b.last();
        lemma_rules_in_order(s, a, c);
        assert(a + b =~= (a + c).push(e));
        assert(b =~= c.push(e));
        lemma_one_more_rule(s, a + c, e);
        lemma_one_more_rule(left, c, e);
        let x = text::hits_of_rules(s, a, n) as int;
        let y = text::hits_of_rules(left, c, c.len() as int) as int;
        let h = text::rule_hits(text::after_rules(left, c, c.len() as int), e) as int;
        lemma_modular(x, y, h);
    }
}

proof fn lemma_modular(x: int, y: int, h: int)
    ensures
        ((x + y) % 0x1_0000_0000 + h) % 0x1_0000_0000 == (x + (y + h) % 0x1_0000_0000)
            % 0x1_0000_0000,
{
}

/// One more rule runs on what the others left.
proof fn lemma_one_more_rule(s: Seq<char>, v: Seq<DictionaryEntry>, e: DictionaryEntry)
    ensures
        ({
            let n = v.len() as int;
            let t = text::after_rules(s, v, n);
            &&& text::after_rules(s, v.push(e), n + 1) == text::rule_result(
                t,
                e,
                text::rule_matches(t, e),
            )
            &&& text::hits_of_rules(s, v.push(e), n + 1) as int == (text::hits_of_rules(s, v, n)
                + text::rule_hits(t, e)) % 0x1_0000_0000
        }),
{
    let n = v.len() as int;
    lemma_first_rules(s, v.push(e), v, n);
    assert(v.push(e)[n] == e);
}

proof fn lemma_first_rules(
    s: Seq<char>,
    a: Seq<DictionaryEntry>,
    b: Seq<DictionaryEntry>,
    n: int,
)
    requires
        0 <= n <= a.len(),
        n <= b.len(),
        forall|i: int| 0 <= i < n ==> a[i] == b[i],
    ensures
        text::after_rules(s, a, n) == text::after_rules(s, b, n),
        text::hits_of_rules(s, a, n) == text::hits_of_rules(s, b, n),
    decreases n,
{
    if n > 0 {
        lemma_first_rules(s, a, b, n - 1);
        assert(a[n - 1] == b[n - 1]);
    }
}

/// One rule puts its replacement in place of each match, counts each match, and keeps
/// the rest of the text.
pub proof fn lemma_one_rule(s: Seq<char>, e: DictionaryEntry)
    requires
        text::rule_matches(s, e).len() <= u32::MAX,
    ensures
        text::after_rules(s, seq![e], 1) == pattern::with_each_replaced(
            s,
            text::rule_matches(s, e),
            e.replacement@,
        ),
        text::hits_of_rules(s, seq![e], 1) == text::rule_matches(s, e).len(),
        text::rule_hits(s, e) == text::rule_matches(s, e).len(),
{
    reveal_with_fuel(text::after_rules, 2);
    reveal_with_fuel(text::hits_of_rules, 2);
    let m = text::rule_matches(s, e);
    if m.len() == 0 {
        assert(m =~= Seq::empty());
        pattern::lemma_nothing_replaced(s, e.replacement@);
    }
}

/// Matches are replaced one after the other: the last replacement stands behind what
/// the ones before it made of the text before it, and the rest of the text is kept.
pub proof fn lemma_last_replacement(s: Seq<char>, spans: Seq<(usize, usize)>, with: Seq<char>)
    requires
        pattern::ordered(s, spans),
        spans.len() > 0,
    ensures
        ({
            let (from, to) = spans.last();
            pattern::with_each_replaced(s, spans, with) == pattern::with_each_replaced(
                s.take(from as int),
                spans.drop_last(),
                with,
            ) + with + s.skip(to as int)
        }),
        pattern::with_each_replaced(s, Seq::empty(), with) == s,
{
    let (from, to) = spans.last();
    let n = spans.len() as int;
    let head = s.take(from as int);
    let rest = spans.drop_last();
    assert(spans[n - 1] == spans.last());
    lemma_replacements_agree(s, head, spans, rest, with, n - 1);
    if n > 1 {
        assert(spans[n - 2].1 <= spans[n - 1].0);
        assert(rest[n - 2] == spans[n - 2]);
    }
    assert(pattern::gap(s, spans, n - 1) =~= pattern::gap(head, rest, n - 1));
    assert(pattern::gap(s, spans, n) =~= s.skip(to as int));
    pattern::lemma_nothing_replaced(s, with);
}

proof fn lemma_replacements_agree(
    s: Seq<char>,
    head: Seq<char>,
    spans: Seq<(usize, usize)>,
    rest: Seq<(usize, usize)>,
    with: Seq<char>,
    n: int,
)
    requires
        0 <= n < spans.len(),
        pattern::ordered(s, spans),
        head == s.take(spans.last().0 as int),
        rest == spans.drop_last(),
    ensures
        pattern::replaced_upto(s, spans, with, n) == pattern::replaced_upto(head, rest, with, n),
    decreases n,
{
    if n > 0 {
        lemma_replacements_agree(s, head, spans, rest, with, n - 1);
        assert(rest[n - 1] == spans[n - 1]);
        assert(spans[n - 1].1 <= spans[spans.len() - 1].0);
        if n > 1 {
            assert(rest[n - 2] == spans[n - 2]);
            assert(spans[n - 2].1 <= spans[n - 1].0);
        }
        assert(pattern::gap(s, spans, n - 1) =~= pattern::gap(head, rest, n - 1));
    }
}

/// The use of a rule grows by its matches, up to the limit of the counter, and
/// nothing else of the entry changes.
pub proof fn lemma_use_is_counted(e: DictionaryEntry, n: u32)
    ensures
        e.usage + n <= u32::MAX ==> text::used(e, n).usage == e.usage + n,
        e.usage + n > u32::MAX ==> text::used(e, n).usage == u32::MAX,
        text::used(e, n).id == e.id,
        text::used(e, n).trigger == e.trigger,
        text::used(e, n).replacement == e.replacement,
        text::used(e, n).enabled == e.enabled,
        text::used(e, n).whole_word == e.whole_word,
        text::used(e, n).kind == e.kind,
        text::used(e, n).starred == e.starred,
{
}

/// The order of entries: starred ones first, then those that were used more, then by
/// trigger without regard to case.
pub proof fn lemma_entry_ranks(a: DictionaryEntry, b: DictionaryEntry)
    ensures
        a.starred && !b.starred ==> a.may_precede(b) && !b.may_precede(a),
        a.starred == b.starred && a.usage > b.usage ==> a.may_precede(b) && !b.may_precede(a),
        a.starred == b.starred && a.usage == b.usage ==> a.may_precede(b) == words::text_le(
            chars::lower(a.trigger@),
            chars::lower(b.trigger@),
        ),
{
}

/// The text order goes by the first character that differs; a text stands before one
/// that it begins.
pub proof fn lemma_text_order(p: Seq<char>, c: char, a: Seq<char>, d: char, b: Seq<char>)
    requires
        c < d,
    ensures
        words::text_le(p + seq![c] + a, p + seq![d] + b),
        !words::text_le(p + seq![d] + b, p + seq![c] + a),
        words::text_le(p, p + b),
        !words::text_le(p + seq![d] + b, p),
    decreases p.len(),
{
    let x = p + seq![c] + a;
    let y = p + seq![d] + b;
    if p.len() > 0 {
        let q = p.drop_first();
        assert(x.drop_first() =~= q + seq![c] + a);
        assert(y.drop_first() =~= q + seq![d] + b);
        assert((p + b).drop_first() =~= q + b);
        assert(x[0] == p[0] && y[0] == p[0] && (p + b)[0] == p[0]);
        lemma_text_order(q, c, a, d, b);
    } else {
        assert(x[0] == c && y[0] == d);
    }
}

/// A fresh rule is an enabled whole-word vocabulary rule that was never used.
pub proof fn lemma_fresh_rule(id: Seq<char>, trigger: Seq<char>, replacement: Seq<char>)
    ensures
        ({
            let r = text::fresh_rule(id, trigger, replacement);
            &&& r.id == id
            &&& r.trigger == trigger
            &&& r.replacement == replacement
            &&& r.enabled
            &&& r.whole_word
            &&& r.kind == "vocab"@
            &&& !r.starred
            &&& r.usage == 0
        }),
{
}

/// The words that are left are those that are not fillers, in order.
pub proof fn lemma_fillers_dropped(a: Seq<Seq<char>>, w: Seq<char>, b: Seq<Seq<char>>)
    ensures
        ({
            let ws = a + seq![w] + b;
            let kept = |v: Seq<Seq<char>>| text::unmarked(v, text::filler_marks(v), v.len() as int);
            kept(ws) == kept(a) + (if text::is_filler(w) {
                Seq::empty()
            } else {
                seq![w]
            }) + kept(b)
        }),
    decreases b.len(),
{
    let ws = a + seq![w] + b;
    if b.len() == 0 {
        assert(ws =~= a.push(w));
        lemma_marks_agree(ws, a, a.len() as int);
        assert(ws[a.len() as int] == w);
        assert(text::unmarked(ws, text::filler_marks(ws), ws.len() as int) =~= text::unmarked(
            a,
            text::filler_marks(a),
            a.len() as int,
        ) + (if text::is_filler(w) {
            Seq::empty()
        } else {
            seq![w]
        }) + text::unmarked(b, text::filler_marks(b), 0));
    } else {
        let c = b.drop_last();
        let vs = a + seq![w] + c;
        lemma_fillers_dropped(a, w, c);
        lemma_marks_agree(ws, vs, vs.len() as int);
        lemma_marks_agree(b, c, c.len() as int);
        assert(ws.last() == b.last());
        assert(text::unmarked(ws, text::filler_marks(ws), ws.len() as int) =~= text::unmarked(
            a,
            text::filler_marks(a),
            a.len() as int,
        ) + (if text::is_filler(w) {
            Seq::empty()
        } else {
            seq![w]
        }) + text::unmarked(b, text::filler_marks(b), b.len() as int));
    }
}

proof fn lemma_marks_agree(a: Seq<Seq<char>>, b: Seq<Seq<char>>, n: int)
    requires
        0 <= n <= a.len(),
        n <= b.len(),
        forall|i: int| 0 <= i < n ==> a[i] == b[i],
    ensures
        text::unmarked(a, text::filler_marks(a), n) == text::unmarked(b, text::filler_marks(b), n),
    decreases n,
{
    if n > 0 {
        lemma_marks_agree(a, b, n - 1);
        assert(a[n - 1] == b[n - 1]);
    }
}

/// A filler is a hesitation, in any case, with any punctuation around it; a word of
/// punctuation alone is none.
pub proof fn lemma_fillers(p: Seq<char>, w: Seq<char>, q: Seq<char>)
    requires
        texts::all_in(p, Class::Punct),
        texts::is_core(w, Class::Punct),
        texts::all_in(q, Class::Punct),
    ensures
        text::is_filler(p + w + q) == pattern::found(
            "(?i)^(uh+|um+|umm+|uhm+|erm+|hmm+)$"@,
            w,
        ),
        !text::is_filler(p),
{
    reveal_strlit("(?i)^(uh+|um+|umm+|uhm+|erm+|hmm+)$");
    reveal_strlit(r"(?i)^(uh+|um+|umm+|uhm+|erm+|hmm+)$");
    assert(text::FILLER@ =~= "(?i)^(uh+|um+|umm+|uhm+|erm+|hmm+)$"@);
    texts::lemma_trim_keeps_core(p, w, q, Class::Punct);
    texts::lemma_trim_takes_all(p, Class::Punct);
}

/// Tidying: a mark moves to the word before it, runs of white space become a space,
/// more than two line breaks become two, and the ends are trimmed.
pub proof fn lemma_tidy(s: Seq<char>)
    ensures
        ({
            let a = pattern::replaced("[^\\S\\n]+([,.;:!?])"@, s, "$1"@);
            let b = pattern::with_each_replaced(
                a,
                pattern::matches("[^\\S\\n]+"@, a),
                seq![' '],
            );
            let c = pattern::with_each_replaced(
                b,
                pattern::matches("\\n{3,}"@, b),
                seq!['\n', '\n'],
            );
            text::tidied(s) == words::trim(c)
        }),
        text::tidied(s).len() > 0 ==> !chars::is_white(text::tidied(s)[0]) && !chars::is_white(
            text::tidied(s).last(),
        ),
{
    reveal_strlit("[^\\S\\n]+([,.;:!?])");
    reveal_strlit(r"[^\S\n]+([,.;:!?])");
    reveal_strlit("[^\\S\\n]+");
    reveal_strlit(r"[^\S\n]+");
    reveal_strlit("\\n{3,}");
    reveal_strlit(r"\n{3,}");
    reveal_strlit(" ");
    reveal_strlit("\n\n");
    assert(" "@ =~= seq![' ']);
    assert("\n\n"@ =~= seq!['\n', '\n']);
    assert(text::SPACE_BEFORE_MARK@ =~= "[^\\S\\n]+([,.;:!?])"@);
    assert(text::SPACE_RUN@ =~= "[^\\S\\n]+"@);
    assert(text::NEWLINE_RUN@ =~= "\\n{3,}"@);
    let a = pattern::replaced(text::SPACE_BEFORE_MARK@, s, "$1"@);
    let b = pattern::with_each_replaced(a, pattern::matches(text::SPACE_RUN@, a), " "@);
    let c = pattern::with_each_replaced(b, pattern::matches(text::NEWLINE_RUN@, b), "\n\n"@);
    words::lemma_without_ends(c, Class::White);
}

/// A single word without a full stop inside loses the lone full stop at its end,
/// and so does an email, a URL or a number; the white space around it goes with it.
pub proof fn lemma_lone_stop_goes(p: Seq<char>, s: Seq<char>, q: Seq<char>)
    requires
        texts::all_in(p, Class::White),
        s.len() > 0,
        !chars::is_white(s[0]),
        s.last() != '.',
        texts::all_in(q, Class::White),
    ensures
        ({
            let t = p + s.push('.') + q;
            let token = forall|i: int|
                0 <= i < s.len() ==> !chars::is_white(#[trigger] s[i]) && s[i] != '.';
            text::smartly_ended(t) == (if token || text::is_special(s) {
                s
            } else {
                t
            })
        }),
{
    let d = s.push('.');
    texts::lemma_trim_keeps_core(p, d, q, Class::White);
    assert(d[d.len() - 2] == s.last());
    assert(d.drop_last() =~= s);
}

/// A text that does not end in a full stop, or ends in more than one, stays.
pub proof fn lemma_other_ends_stay(t: Seq<char>)
    requires
        ({
            let s = words::trim(t);
            s.len() < 2 || s.last() != '.' || s[s.len() - 2] == '.'
        }),
    ensures
        text::smartly_ended(t) == t,
{
}

/// The kinds of text that take no final full stop.
pub proof fn lemma_special(c: Seq<char>)
    ensures
        text::is_special(c) == (pattern::found("(?i)^\\+?\\(?\\d(?:[\\d\\s.,\\-()/:]*\\d)?$"@, c)
            || pattern::found("(?i)^[^\\s@]+@[^\\s@]+\\.[^\\s@]+$"@, c) || pattern::found(
            "(?i)^(?:[a-z][a-z0-9+.\\-]*://\\S+|www\\.\\S+\\.\\S+|[a-z0-9\\-]+(?:\\.[a-z0-9\\-]+)*\\.[a-z]{2,}(?:[/:?#]\\S*)?)$"@,
            c,
        )),
{
    reveal_strlit("(?i)^\\+?\\(?\\d(?:[\\d\\s.,\\-()/:]*\\d)?$");
    reveal_strlit(r"(?i)^\+?\(?\d(?:[\d\s.,\-()/:]*\d)?$");
    reveal_strlit("(?i)^[^\\s@]+@[^\\s@]+\\.[^\\s@]+$");
    reveal_strlit(r"(?i)^[^\s@]+@[^\s@]+\.[^\s@]+$");
    reveal_strlit("(?i)^(?:[a-z][a-z0-9+.\\-]*://\\S+|www\\.\\S+\\.\\S+|[a-z0-9\\-]+(?:\\.[a-z0-9\\-]+)*\\.[a-z]{2,}(?:[/:?#]\\S*)?)$");
    reveal_strlit(r"(?i)^(?:[a-z][a-z0-9+.\-]*://\S+|www\.\S+\.\S+|[a-z0-9\-]+(?:\.[a-z0-9\-]+)*\.[a-z]{2,}(?:[/:?#]\S*)?)$");
    assert(text::NUMBER@ =~= "(?i)^\\+?\\(?\\d(?:[\\d\\s.,\\-()/:]*\\d)?$"@);
    assert(text::EMAIL@ =~= "(?i)^[^\\s@]+@[^\\s@]+\\.[^\\s@]+$"@);
    assert(text::URL@
        =~= "(?i)^(?:[a-z][a-z0-9+.\\-]*://\\S+|www\\.\\S+\\.\\S+|[a-z0-9\\-]+(?:\\.[a-z0-9\\-]+)*\\.[a-z]{2,}(?:[/:?#]\\S*)?)$"@);
}

} // verus!
