//! Numbered and bulleted lists.

use crate::chars;
use crate::laws::texts;
use crate::pattern;
use crate::words;
use crate::words::Class;
use vstd::prelude::*;
use vstd::string::*;

verus! {

/// The cardinal markers by their number, in any case and with any punctuation around
/// them; no other word is one.
pub proof fn lemma_cardinals(p: Seq<char>, w: Seq<char>, q: Seq<char>)
    requires
        texts::all_in(p, Class::Punct),
        texts::is_core(w, Class::Punct),
        texts::all_in(q, Class::Punct),
    ensures
        ({
            let m = crate::format::marker(p + w + q, crate::format::cardinals());
            let l = chars::lower(w);
            &&& l == "one"@ <==> m == Some(0int)
            &&& l == "two"@ <==> m == Some(1int)
            &&& l == "three"@ <==> m == Some(2int)
            &&& l == "four"@ <==> m == Some(3int)
            &&& l == "five"@ <==> m == Some(4int)
            &&& l == "six"@ <==> m == Some(5int)
            &&& l == "seven"@ <==> m == Some(6int)
            &&& l == "eight"@ <==> m == Some(7int)
            &&& l == "nine"@ <==> m == Some(8int)
            &&& l == "ten"@ <==> m == Some(9int)
            &&& m matches Some(k) ==> 0 <= k < 10
        }),
{
    texts::lemma_trim_keeps_core(p, w, q, Class::Punct);
    reveal_strlit("one");
    reveal_strlit("two");
    reveal_strlit("three");
    reveal_strlit("four");
    reveal_strlit("five");
    reveal_strlit("six");
    reveal_strlit("seven");
    reveal_strlit("eight");
    reveal_strlit("nine");
    reveal_strlit("ten");
    assert("one"@.len() == 3 && "one"@[2] == 'e');
    assert("two"@.len() == 3 && "two"@[2] == 'o');
    assert("three"@.len() == 5 && "three"@[2] == 'r');
    assert("four"@.len() == 4 && "four"@[2] == 'u');
    assert("five"@.len() == 4 && "five"@[2] == 'v');
    assert("six"@.len() == 3 && "six"@[2] == 'x');
    assert("seven"@.len() == 5 && "seven"@[2] == 'v');
    assert("eight"@.len() == 5 && "eight"@[2] == 'g');
    assert("nine"@.len() == 4 && "nine"@[2] == 'n');
    assert("ten"@.len() == 3 && "ten"@[2] == 'n');
    reveal_with_fuel(crate::format::place_of, 11);
}

/// The ordinal markers by their number, in any case and with any punctuation around
/// them; no other word is one.
pub proof fn lemma_ordinals(p: Seq<char>, w: Seq<char>, q: Seq<char>)
    requires
        texts::all_in(p, Class::Punct),
        texts::is_core(w, Class::Punct),
        texts::all_in(q, Class::Punct),
    ensures
        ({
            let m = crate::format::marker(p + w + q, crate::format::ordinals());
            let l = chars::lower(w);
            &&& l == "first"@ <==> m == Some(0int)
            &&& l == "second"@ <==> m == Some(1int)
            &&& l == "third"@ <==> m == Some(2int)
            &&& l == "fourth"@ <==> m == Some(3int)
            &&& l == "fifth"@ <==> m == Some(4int)
            &&& l == "sixth"@ <==> m == Some(5int)
            &&& l == "seventh"@ <==> m == Some(6int)
            &&& l == "eighth"@ <==> m == Some(7int)
            &&& l == "ninth"@ <==> m == Some(8int)
            &&& l == "tenth"@ <==> m == Some(9int)
            &&& m matches Some(k) ==> 0 <= k < 10
        }),
{
    texts::lemma_trim_keeps_core(p, w, q, Class::Punct);
    reveal_strlit("first");
    reveal_strlit("second");
    reveal_strlit("third");
    reveal_strlit("fourth");
    reveal_strlit("fifth");
    reveal_strlit("sixth");
    reveal_strlit("seventh");
    reveal_strlit("eighth");
    reveal_strlit("ninth");
    reveal_strlit("tenth");
    assert("first"@.len() == 5 && "first"@[0] == 'f' && "first"@[2] == 'r');
    assert("second"@.len() == 6 && "second"@[0] == 's' && "second"@[2] == 'c');
    assert("third"@.len() == 5 && "third"@[0] == 't' && "third"@[2] == 'i');
    assert("fourth"@.len() == 6 && "fourth"@[0] == 'f' && "fourth"@[2] == 'u');
    assert("fifth"@.len() == 5 && "fifth"@[0] == 'f' && "fifth"@[2] == 'f');
    assert("sixth"@.len() == 5 && "sixth"@[0] == 's' && "sixth"@[2] == 'x');
    assert("seventh"@.len() == 7 && "seventh"@[0] == 's' && "seventh"@[2] == 'v');
    assert("eighth"@.len() == 6 && "eighth"@[0] == 'e' && "eighth"@[2] == 'g');
    assert("ninth"@.len() == 5 && "ninth"@[0] == 'n' && "ninth"@[2] == 'n');
    assert("tenth"@.len() == 5 && "tenth"@[0] == 't' && "tenth"@[2] == 'n');
    reveal_with_fuel(crate::format::place_of, 11);
}

/// Where the next marker stands: behind words that are not it.
proof fn lemma_next_marker_at(
    ws: Seq<Seq<char>>,
    family: Seq<&'static str>,
    k: int,
    from: int,
    q: int,
)
    requires
        0 <= from <= q <= ws.len(),
        forall|i: int| from <= i < q ==> crate::format::marker(#[trigger] ws[i], family) != Some(k),
        q < ws.len() ==> crate::format::marker(ws[q], family) == Some(k),
    ensures
        crate::format::next_marker(ws, family, k, from) == q,
    decreases q - from,
{
    if from < q {
        assert(crate::format::marker(ws[from], family) != Some(k));
        lemma_next_marker_at(ws, family, k, from + 1, q);
    }
}

/// An item runs up to the next marker in order, and the list goes on behind the marker.
pub proof fn lemma_item(
    ws: Seq<Seq<char>>,
    family: Seq<&'static str>,
    k: int,
    from: int,
    q: int,
)
    requires
        0 <= from < ws.len(),
        from <= q < ws.len(),
        forall|i: int| from <= i < q ==> crate::format::marker(#[trigger] ws[i], family) != Some(k),
        crate::format::marker(ws[q], family) == Some(k),
    ensures
        crate::format::marker_items(ws, family, k, from) == seq![
            words::join(ws.subrange(from, q), " "@),
        ] + crate::format::marker_items(ws, family, k + 1, q + 1),
{
    lemma_next_marker_at(ws, family, k, from, q);
}

/// The last item runs to the end.
pub proof fn lemma_last_item(ws: Seq<Seq<char>>, family: Seq<&'static str>, k: int, from: int)
    requires
        0 <= from < ws.len(),
        forall|i: int| from <= i < ws.len() ==> crate::format::marker(#[trigger] ws[i], family)
            != Some(k),
    ensures
        crate::format::marker_items(ws, family, k, from) == seq![
            words::join(ws.skip(from), " "@),
        ],
{
    let n = ws.len() as int;
    lemma_next_marker_at(ws, family, k, from, n);
    assert(ws.subrange(from, n) =~= ws.skip(from));
    assert(crate::format::marker_items(ws, family, k, from) =~= seq![
        words::join(ws.skip(from), " "@),
    ]);
}

/// Items are numbered from one, each on its own line.
pub proof fn lemma_numbered(items: Seq<Seq<char>>, x: Seq<char>)
    ensures
        crate::format::numbered(seq![x]) == "1. "@ + x,
        items.len() > 0 ==> crate::format::numbered(items.push(x)) == crate::format::numbered(items)
            + seq!['\n'] + words::decimal(items.len() + 1) + seq!['.', ' '] + x,
{
    reveal_strlit("1. ");
    reveal_strlit(". ");
    reveal_strlit("\n");
    let f = |v: Seq<Seq<char>>|
        Seq::new(v.len(), |i: int| words::decimal((i + 1) as nat) + ". "@ + v[i]);
    assert(f(seq![x]).len() == 1);
    assert(words::decimal(1) =~= seq!['1']);
    assert(crate::format::numbered(seq![x]) =~= "1. "@ + x);
    if items.len() > 0 {
        let all = f(items.push(x));
        assert(all.drop_last() =~= f(items));
        assert(crate::format::numbered(items.push(x)) =~= crate::format::numbered(items)
            + seq!['\n'] + words::decimal(items.len() + 1) + seq!['.', ' '] + x);
    }
}

/// A text that spells out two items with the first two markers becomes a list of the
/// two, each with all of its words.
pub proof fn lemma_two_items(
    text: Seq<char>,
    family: Seq<&'static str>,
    v: Seq<char>,
    a: Seq<Seq<char>>,
    w: Seq<char>,
    b: Seq<Seq<char>>,
)
    requires
        words::words(text) == seq![v] + a + seq![w] + b,
        crate::format::marker(v, family) == Some(0int),
        a.len() > 0,
        forall|i: int| 0 <= i < a.len() ==> crate::format::marker(#[trigger] a[i], family) != Some(
            1int,
        ),
        crate::format::marker(w, family) == Some(1int),
        b.len() > 0,
        forall|i: int| 0 <= i < b.len() ==> crate::format::marker(#[trigger] b[i], family) != Some(
            2int,
        ),
    ensures
        crate::format::marker_list(text, family) == Some(
            "1. "@ + words::join(a, " "@) + seq!['\n'] + words::decimal(2) + seq!['.', ' ']
                + words::join(b, " "@),
        ),
{
    let ws = seq![v] + a + seq![w] + b;
    let q = 1 + a.len() as int;
    assert(ws[0] == v && ws[q] == w);
    assert forall|i: int| 1 <= i < q implies crate::format::marker(#[trigger] ws[i], family)
        != Some(1int) by {
        assert(ws[i] == a[i - 1]);
    }
    assert forall|i: int| q + 1 <= i < ws.len() implies crate::format::marker(
        #[trigger] ws[i],
        family,
    ) != Some(2int) by {
        assert(ws[i] == b[i - q - 1]);
    }
    lemma_item(ws, family, 1, 1, q);
    lemma_last_item(ws, family, 2, q + 1);
    assert(ws.subrange(1, q) =~= a);
    assert(ws.skip(q + 1) =~= b);
    let x = words::join(a, " "@);
    let y = words::join(b, " "@);
    let items = crate::format::marker_items(ws, family, 1, 1);
    assert(items =~= seq![x, y]);
    words::lemma_words_are_words(text);
    assert(words::is_word(ws[1]) && ws[1] == a[0]);
    assert(words::is_word(ws[q + 1]) && ws[q + 1] == b[0]);
    lemma_join_not_empty(a);
    lemma_join_not_empty(b);
    assert(!items.contains(Seq::empty()));
    lemma_numbered(seq![x], x);
    lemma_numbered(seq![x], y);
    assert(seq![x].push(y) =~= items);
}

proof fn lemma_join_not_empty(ws: Seq<Seq<char>>)
    requires
        ws.len() > 0,
        ws[0].len() > 0,
    ensures
        words::join(ws, " "@).len() > 0,
    decreases ws.len(),
{
    if ws.len() > 1 {
        lemma_join_not_empty(ws.drop_last());
    }
}

/// One item alone makes no list, and neither does a text that does not begin with the
/// first marker.
pub proof fn lemma_no_list(text: Seq<char>, family: Seq<&'static str>)
    ensures
        ({
            let ws = words::words(text);
            &&& ws.len() == 0 || crate::format::marker(ws[0], family) != Some(0int)
                ==> crate::format::marker_list(text, family) is None
            &&& (forall|i: int|
                1 <= i < ws.len() ==> crate::format::marker(#[trigger] ws[i], family) != Some(
                    1int,
                )) ==> crate::format::marker_list(text, family) is None
        }),
{
    let ws = words::words(text);
    if ws.len() > 1 && (forall|i: int|
        1 <= i < ws.len() ==> crate::format::marker(#[trigger] ws[i], family) != Some(1int)) {
        lemma_last_item(ws, family, 1, 1);
    }
}

/// Bullets stand one per line, each behind a dash.
pub proof fn lemma_dashed(parts: Seq<Seq<char>>, x: Seq<char>)
    ensures
        crate::format::dashed(seq![x]) == "- "@ + x,
        parts.len() > 0 ==> crate::format::dashed(parts.push(x)) == crate::format::dashed(parts)
            + seq!['\n', '-', ' '] + x,
{
    reveal_strlit("- ");
    reveal_strlit("\n");
    let f = |v: Seq<Seq<char>>| Seq::new(v.len(), |i: int| "- "@ + v[i]);
    assert(f(seq![x]).len() == 1);
    assert(crate::format::dashed(seq![x]) =~= "- "@ + x);
    if parts.len() > 0 {
        let all = f(parts.push(x));
        assert(all.drop_last() =~= f(parts));
        assert(crate::format::dashed(parts.push(x)) =~= crate::format::dashed(parts)
            + seq!['\n', '-', ' '] + x);
    }
}

/// A bulleted list out of two bullets holds the trimmed text behind each.
pub proof fn lemma_two_bullets(
    first: Seq<char>,
    a: Seq<char>,
    second: Seq<char>,
    b: Seq<char>,
    i: usize,
    j: usize,
    k: usize,
)
    requires
        i == first.len(),
        j == i + a.len(),
        k == j + second.len(),
        words::trim(a).len() > 0,
        words::trim(b).len() > 0,
    ensures
        crate::format::bullets_at(first + a + second + b, seq![(0usize, i), (j, k)]) == Some(
            "- "@ + words::trim(a) + seq!['\n', '-', ' '] + words::trim(b),
        ),
{
    let text = first + a + second + b;
    let spans = seq![(0usize, i), (j, k)];
    reveal_with_fuel(crate::format::parts_upto, 4);
    assert(pattern::gap(text, spans, 0) =~= Seq::empty());
    assert(pattern::gap(text, spans, 1) =~= a);
    assert(pattern::gap(text, spans, 2) =~= b);
    texts::lemma_trim_takes_all(Seq::empty(), Class::White);
    let x = words::trim(a);
    let y = words::trim(b);
    let parts = crate::format::parts_upto(text, spans, 3);
    assert(parts =~= seq![x].push(y));
    lemma_dashed(seq![x], y);
}

/// A bulleted list begins with the word `bullet` and white space, in any case, and is
/// taken apart at that word.
pub proof fn lemma_bullets(text: Seq<char>)
    ensures
        !crate::format::starts_bullet(text) ==> crate::format::bullet_list(text) is None,
        crate::format::starts_bullet(text) ==> crate::format::bullet_list(text)
            == crate::format::bullets_at(
            text,
            pattern::matches("(?i)(?:^|\\s+)bullet\\s+"@, text),
        ),
        crate::format::starts_bullet(text) <==> text.len() >= 7 && chars::lower(text).take(6)
            == seq!['b', 'u', 'l', 'l', 'e', 't'] && (text[6] == ' ' || text[6] == '\n'),
{
    reveal_strlit("(?i)(?:^|\\s+)bullet\\s+");
    reveal_strlit(r"(?i)(?:^|\s+)bullet\s+");
    assert(crate::format::BULLET@ =~= "(?i)(?:^|\\s+)bullet\\s+"@);
    reveal_strlit("bullet ");
    reveal_strlit("bullet\n");
    let l = chars::lower(text);
    if text.len() >= 7 {
        assert(l.take(7) =~= l.take(6).push(l[6]));
        let six = seq!['b', 'u', 'l', 'l', 'e', 't'];
        assert("bullet "@ =~= six.push(' '));
        assert("bullet\n"@ =~= six.push('\n'));
        assert(l.take(7).take(6) =~= l.take(6));
        assert(six.push(' ').take(6) =~= six && six.push('\n').take(6) =~= six);
        assert(l.take(7).last() == l[6]);
        assert(six.push(' ').last() == ' ' && six.push('\n').last() == '\n');
    }
}

/// The list pass tries numbers, then ordinals, then bullets, on the trimmed text, and
/// keeps a text that is no list as it is.
pub proof fn lemma_list_pass(p: Seq<char>, s: Seq<char>, q: Seq<char>)
    requires
        texts::all_in(p, Class::White),
        texts::is_core(s, Class::White),
        texts::all_in(q, Class::White),
    ensures
        ({
            let one = crate::format::marker_list(s, crate::format::cardinals());
            let first = crate::format::marker_list(s, crate::format::ordinals());
            let bullets = crate::format::bullet_list(s);
            let t = p + s + q;
            &&& one matches Some(l) ==> crate::format::with_lists(t) == l
            &&& one is None ==> (first matches Some(l) ==> crate::format::with_lists(t) == l)
            &&& one is None && first is None ==> (bullets matches Some(l)
                ==> crate::format::with_lists(t) == l)
            &&& one is None && first is None && bullets is None ==> crate::format::with_lists(t)
                == t
        }),
{
    texts::lemma_trim_keeps_core(p, s, q, Class::White);
}

/// The offline pass speaks the commands out, then takes back, then makes lists.
pub proof fn lemma_offline_pass(text: &str, r: String, a: String, b: String)
    requires
        call_ensures(crate::format::apply_offline_format, (text,), r),
        a@ == crate::format::with_commands(text@),
        b@ == crate::format::backtracked(a@),
    ensures
        r@ == crate::format::with_lists(b@),
{
}

} // verus!
