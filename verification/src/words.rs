//! Trimming, splitting, joining and searching of texts.

use crate::chars;
use crate::chars::{from_range, punct, to_chars, white};
use vstd::prelude::*;
use vstd::string::*;

verus! {

/// A set of characters that a trim takes away.
pub enum Class {
    /// Unicode white space.
    White,
    /// ASCII punctuation.
    Punct,
    /// One character.
    Only(char),
}

impl Class {
    pub open spec fn holds(self, c: char) -> bool {
        match self {
            Class::White => chars::is_white(c),
            Class::Punct => chars::is_punct(c),
            Class::Only(d) => c == d,
        }
    }

    pub fn has(&self, c: char) -> (r: bool)
        ensures
            r == self.holds(c),
    {
        match self {
            Class::White => white(c),
            Class::Punct => punct(c),
            Class::Only(d) => c == *d,
        }
    }
}

/// `s` without the leading characters of `class`.
pub open spec fn without_start(s: Seq<char>, class: Class) -> Seq<char>
    decreases s.len(),
{
    if s.len() > 0 && class.holds(s[0]) {
        without_start(s.drop_first(), class)
    } else {
        s
    }
}

/// `s` without the trailing characters of `class`.
pub open spec fn without_end(s: Seq<char>, class: Class) -> Seq<char>
    decreases s.len(),
{
    if s.len() > 0 && class.holds(s.last()) {
        without_end(s.drop_last(), class)
    } else {
        s
    }
}

/// `s` without the characters of `class` at either end.
pub open spec fn without_ends(s: Seq<char>, class: Class) -> Seq<char> {
    without_end(without_start(s, class), class)
}

/// `s` without white space at either end.
pub open spec fn trim(s: Seq<char>) -> Seq<char> {
    without_ends(s, Class::White)
}

/// What is left of a text between its ends holds no character of the class at them.
pub proof fn lemma_without_end(s: Seq<char>, class: Class)
    ensures
        without_end(s, class).len() <= s.len(),
        without_end(s, class) == s.take(without_end(s, class).len() as int),
        without_end(s, class).len() > 0 ==> !class.holds(without_end(s, class).last()),
        forall|k: int| without_end(s, class).len() <= k < s.len() ==> class.holds(s[k]),
    decreases s.len(),
{
    if s.len() > 0 && class.holds(s.last()) {
        lemma_without_end(s.drop_last(), class);
        let t = s.drop_last();
        let n = without_end(s, class).len();
        assert(s.take(n as int) =~= t.take(n as int));
        assert forall|k: int| n <= k < s.len() implies class.holds(s[k]) by {
            if k < t.len() {
                assert(s[k] == t[k]);
            }
        }
    } else {
        assert(s.take(s.len() as int) =~= s);
    }
}

pub proof fn lemma_without_start(s: Seq<char>, class: Class)
    ensures
        without_start(s, class).len() <= s.len(),
        without_start(s, class) == s.skip(s.len() - without_start(s, class).len()),
        without_start(s, class).len() > 0 ==> !class.holds(without_start(s, class)[0]),
        forall|k: int| 0 <= k < s.len() - without_start(s, class).len() ==> class.holds(s[k]),
    decreases s.len(),
{
    if s.len() > 0 && class.holds(s[0]) {
        let t = s.drop_first();
        lemma_without_start(t, class);
        let n = s.len() - without_start(s, class).len();
        assert(s.skip(n) =~= t.skip(n - 1));
        assert forall|k: int| 0 <= k < n implies class.holds(s[k]) by {
            if k > 0 {
                assert(s[k] == t[k - 1]);
            }
        }
    } else {
        assert(s.skip(0) =~= s);
    }
}

/// A trimmed text starts and ends with a character outside the class.
pub proof fn lemma_without_ends(s: Seq<char>, class: Class)
    ensures
        without_ends(s, class).len() <= s.len(),
        without_ends(s, class).len() > 0 ==> !class.holds(without_ends(s, class)[0])
            && !class.holds(without_ends(s, class).last()),
        without_ends(without_ends(s, class), class) == without_ends(s, class),
{
    let a = without_start(s, class);
    lemma_without_start(s, class);
    lemma_without_end(a, class);
}

/// Index of the first character of `cs[from..to]` outside `class`, or `to`.
fn skip_class(cs: &Vec<char>, from: usize, to: usize, class: &Class) -> (r: usize)
    requires
        from <= to <= cs.len(),
    ensures
        from <= r <= to,
        cs@.subrange(r as int, to as int) == without_start(
            cs@.subrange(from as int, to as int),
            *class,
        ),
{
    let mut i: usize = from;
    while i < to && class.has(cs[i])
        invariant
            from <= i <= to <= cs.len(),
            without_start(cs@.subrange(i as int, to as int), *class) == without_start(
                cs@.subrange(from as int, to as int),
                *class,
            ),
        decreases to - i,
    {
        assert(cs@.subrange(i as int, to as int).drop_first() == cs@.subrange(i + 1, to as int));
        i += 1;
    }
    i
}

/// One past the last character of `cs[from..to]` outside `class`, or `from`.
fn drop_class(cs: &Vec<char>, from: usize, to: usize, class: &Class) -> (r: usize)
    requires
        from <= to <= cs.len(),
    ensures
        from <= r <= to,
        cs@.subrange(from as int, r as int) == without_end(
            cs@.subrange(from as int, to as int),
            *class,
        ),
{
    let mut i: usize = to;
    while from < i && class.has(cs[i - 1])
        invariant
            from <= i <= to <= cs.len(),
            without_end(cs@.subrange(from as int, i as int), *class) == without_end(
                cs@.subrange(from as int, to as int),
                *class,
            ),
        decreases i,
    {
        assert(cs@.subrange(from as int, i as int).drop_last() == cs@.subrange(
            from as int,
            i - 1,
        ));
        i -= 1;
    }
    i
}

/// Takes the characters of `class` away at both ends.
pub fn trim_class(s: &str, class: &Class) -> (r: String)
    ensures
        r@ == without_ends(s@, *class),
{
    let cs = to_chars(s);
    let a = skip_class(&cs, 0, cs.len(), class);
    let b = drop_class(&cs, a, cs.len(), class);
    assert(cs@.subrange(0, cs@.len() as int) == s@);
    from_range(&cs, a, b)
}

pub fn trim_start_class(s: &str, class: &Class) -> (r: String)
    ensures
        r@ == without_start(s@, *class),
{
    let cs = to_chars(s);
    let a = skip_class(&cs, 0, cs.len(), class);
    assert(cs@.subrange(0, cs@.len() as int) == s@);
    from_range(&cs, a, cs.len())
}

pub fn trim_end_class(s: &str, class: &Class) -> (r: String)
    ensures
        r@ == without_end(s@, *class),
{
    let cs = to_chars(s);
    let b = drop_class(&cs, 0, cs.len(), class);
    assert(cs@.subrange(0, cs@.len() as int) == s@);
    from_range(&cs, 0, b)
}

/// Takes white space away at both ends.
pub fn trimmed(s: &str) -> (r: String)
    ensures
        r@ == trim(s@),
{
    trim_class(s, &Class::White)
}

/// How many leading characters of `s` are not white space.
pub open spec fn word_len(s: Seq<char>) -> int
    decreases s.len(),
{
    if s.len() == 0 || chars::is_white(s[0]) {
        0
    } else {
        1 + word_len(s.drop_first())
    }
}

/// The longest runs of characters other than white space, in order.
pub open spec fn words(s: Seq<char>) -> Seq<Seq<char>>
    decreases s.len(),
{
    if s.len() == 0 {
        Seq::empty()
    } else if chars::is_white(s[0]) {
        words(s.drop_first())
    } else if 0 < word_len(s) <= s.len() {
        seq![s.take(word_len(s))] + words(s.skip(word_len(s)))
    } else {
        Seq::empty()
    }
}

pub proof fn lemma_word_len(s: Seq<char>)
    ensures
        0 <= word_len(s) <= s.len(),
        forall|k: int| 0 <= k < word_len(s) ==> !chars::is_white(#[trigger] s[k]),
        word_len(s) < s.len() ==> chars::is_white(s[word_len(s)]),
        s.len() > 0 && !chars::is_white(s[0]) ==> word_len(s) > 0,
    decreases s.len(),
{
    if s.len() > 0 && !chars::is_white(s[0]) {
        let t = s.drop_first();
        lemma_word_len(t);
        assert forall|k: int| 0 <= k < word_len(s) implies !chars::is_white(#[trigger] s[k]) by {
            if k > 0 {
                assert(s[k] == t[k - 1]);
            }
        }
    }
}

/// A word: some characters, none of them white space.
pub open spec fn is_word(w: Seq<char>) -> bool {
    w.len() > 0 && forall|k: int| 0 <= k < w.len() ==> !chars::is_white(#[trigger] w[k])
}

/// The words of a text are words.
pub proof fn lemma_words_are_words(s: Seq<char>)
    ensures
        forall|i: int| 0 <= i < words(s).len() ==> is_word(#[trigger] words(s)[i]),
        words(s).len() <= s.len(),
    decreases s.len(),
{
    if s.len() == 0 {
    } else if chars::is_white(s[0]) {
        lemma_words_are_words(s.drop_first());
    } else {
        lemma_word_len(s);
        let n = word_len(s);
        lemma_words_are_words(s.skip(n));
        let w = s.take(n);
        assert(is_word(w)) by {
            assert forall|k: int| 0 <= k < w.len() implies !chars::is_white(#[trigger] w[k]) by {
                assert(w[k] == s[k]);
            }
        }
        assert forall|i: int| 0 <= i < words(s).len() implies is_word(#[trigger] words(s)[i]) by {
            if i > 0 {
                assert(words(s)[i] == words(s.skip(n))[i - 1]);
            }
        }
    }
}

/// Splits a text at white space.
pub fn split_words(s: &str) -> (r: Vec<String>)
    ensures
        chars::texts(r@) == words(s@),
{
    let cs = to_chars(s);
    let n = cs.len();
    let mut out: Vec<String> = Vec::new();
    let mut i: usize = 0;
    assert(cs@.skip(0) == s@);
    assert(chars::texts(out@) + words(s@) == words(s@));
    while i < n
        invariant
            i <= n,
            n == cs.len(),
            cs@ == s@,
            words(s@) == chars::texts(out@) + words(cs@.skip(i as int)),
        decreases n - i,
    {
        let ghost rest = cs@.skip(i as int);
        if white(cs[i]) {
            assert(rest.drop_first() == cs@.skip(i + 1));
            i += 1;
        } else {
            let start = i;
            proof {
                lemma_word_len(rest);
            }
            assert(rest.skip(0) == rest);
            while i < n && !white(cs[i])
                invariant
                    start <= i <= n,
                    n == cs.len(),
                    rest == cs@.skip(start as int),
                    word_len(rest) == (i - start) + word_len(cs@.skip(i as int)),
                decreases n - i,
            {
                assert(cs@.skip(i as int).drop_first() == cs@.skip(i + 1));
                i += 1;
            }
            assert(word_len(rest) == i - start);
            let w = from_range(&cs, start, i);
            let ghost before = out@;
            out.push(w);
            proof {
                assert(w@ == rest.take(word_len(rest)));
                assert(rest.skip(word_len(rest)) == cs@.skip(i as int));
                assert(chars::texts(out@) == chars::texts(before).push(w@));
                assert(chars::texts(before) + (seq![w@] + words(cs@.skip(i as int))) == chars::texts(out@)
                    + words(cs@.skip(i as int)));
            }
        }
    }
    assert(words(cs@.skip(i as int)).len() == 0);
    assert(chars::texts(out@) + words(cs@.skip(i as int)) == chars::texts(out@));
    out
}

/// `parts`, with `sep` between each two.
pub open spec fn join(parts: Seq<Seq<char>>, sep: Seq<char>) -> Seq<char>
    decreases parts.len(),
{
    if parts.len() == 0 {
        Seq::empty()
    } else if parts.len() == 1 {
        parts[0]
    } else {
        join(parts.drop_last(), sep) + sep + parts.last()
    }
}

/// A join, taken apart at its first part.
pub proof fn lemma_join_first(parts: Seq<Seq<char>>, sep: Seq<char>)
    requires
        parts.len() >= 2,
    ensures
        join(parts, sep) == parts[0] + sep + join(parts.drop_first(), sep),
    decreases parts.len(),
{
    if parts.len() == 2 {
        assert(parts.drop_last().len() == 1);
        assert(parts.drop_first().len() == 1);
        assert(join(parts.drop_last(), sep) == parts[0]);
        assert(join(parts.drop_first(), sep) == parts[1]);
    } else {
        lemma_join_first(parts.drop_last(), sep);
        let rest = parts.drop_first();
        assert(parts.drop_last().drop_first() =~= rest.drop_last());
        assert(parts.drop_last()[0] == parts[0]);
        assert(rest.last() == parts.last());
        assert(join(parts, sep) =~= parts[0] + sep + join(rest, sep));
    }
}

/// The words of a text that starts with a word and goes on behind a space.
pub proof fn lemma_words_first(w: Seq<char>, s: Seq<char>)
    requires
        is_word(w),
    ensures
        words(w + seq![' '] + s) == seq![w] + words(s),
        words(w) == seq![w],
{
    let t = w + seq![' '] + s;
    lemma_word_len(t);
    lemma_word_len(w);
    let n = word_len(t);
    assert(n == w.len()) by {
        if n < w.len() {
            assert(t[n] == w[n]);
        } else if n > w.len() {
            assert(t[w.len() as int] == ' ');
        }
    }
    assert(t.take(n) =~= w);
    assert(t.skip(n) =~= seq![' '] + s);
    assert((seq![' '] + s).drop_first() =~= s);
    assert(t[0] == w[0]);
    assert(words(t.skip(n)) == words(s));
    assert(word_len(w) == w.len()) by {
        if word_len(w) < w.len() {
            assert(chars::is_white(w[word_len(w)]));
        }
    }
    assert(w.take(w.len() as int) =~= w);
    assert(words(w.skip(w.len() as int)) =~= Seq::empty());
    assert(words(w) == seq![w.take(w.len() as int)] + words(w.skip(w.len() as int)));
    assert(words(w) =~= seq![w]);
}

/// Words that are joined by spaces come apart again as they were.
pub proof fn lemma_words_of_join(ws: Seq<Seq<char>>)
    requires
        forall|i: int| 0 <= i < ws.len() ==> is_word(#[trigger] ws[i]),
    ensures
        words(join(ws, " "@)) == ws,
    decreases ws.len(),
{
    reveal_strlit(" ");
    assert(" "@ =~= seq![' ']);
    if ws.len() == 0 {
        assert(words(join(ws, " "@)) =~= ws);
    } else if ws.len() == 1 {
        lemma_words_first(ws[0], Seq::empty());
        assert(seq![ws[0]] =~= ws);
    } else {
        lemma_join_first(ws, " "@);
        let rest = ws.drop_first();
        assert forall|i: int| 0 <= i < rest.len() implies is_word(#[trigger] rest[i]) by {
            assert(rest[i] == ws[i + 1]);
        }
        lemma_words_of_join(rest);
        lemma_words_first(ws[0], join(rest, " "@));
        assert(seq![ws[0]] + rest =~= ws);
    }
}

/// Joins strings with `sep` between each two.
pub fn join_strings(parts: &Vec<String>, sep: &str) -> (r: String)
    ensures
        r@ == join(chars::texts(parts@), sep@),
{
    let mut out = String::new();
    let mut i: usize = 0;
    let ghost all = chars::texts(parts@);
    while i < parts.len()
        invariant
            i <= parts.len(),
            all == chars::texts(parts@),
            out@ == join(all.take(i as int), sep@),
        decreases parts.len() - i,
    {
        if i > 0 {
            out.append(sep);
        }
        out.append(parts[i].as_str());
        assert(all.take(i + 1).drop_last() == all.take(i as int));
        i += 1;
    }
    assert(all.take(i as int) == all);
    out
}

/// Whether `s` begins with `p`.
pub open spec fn starts_with(s: Seq<char>, p: Seq<char>) -> bool {
    p.len() <= s.len() && s.take(p.len() as int) == p
}

/// Whether `s` ends with `p`.
pub open spec fn ends_with(s: Seq<char>, p: Seq<char>) -> bool {
    p.len() <= s.len() && s.skip(s.len() - p.len()) == p
}

/// Whether `p` stands in `s` at `i`.
pub open spec fn occurs_at(s: Seq<char>, p: Seq<char>, i: int) -> bool {
    0 <= i && i + p.len() <= s.len() && s.subrange(i, i + p.len()) == p
}

/// Whether `p` stands somewhere in `s`.
pub open spec fn contains(s: Seq<char>, p: Seq<char>) -> bool {
    exists|i: int| #[trigger] occurs_at(s, p, i)
}

fn matches_at(cs: &Vec<char>, ps: &Vec<char>, at: usize) -> (r: bool)
    requires
        at + ps.len() <= cs.len(),
    ensures
        r == (cs@.subrange(at as int, at + ps.len()) == ps@),
{
    let mut k: usize = 0;
    while k < ps.len()
        invariant
            k <= ps.len(),
            at + ps.len() <= cs.len(),
            forall|j: int| 0 <= j < k ==> cs@[at + j] == ps@[j],
        decreases ps.len() - k,
    {
        if cs[at + k] != ps[k] {
            assert(cs@.subrange(at as int, at + ps.len())[k as int] != ps@[k as int]);
            return false;
        }
        k += 1;
    }
    assert(cs@.subrange(at as int, at + ps.len()) =~= ps@);
    true
}

pub fn has_prefix(s: &str, p: &str) -> (r: bool)
    ensures
        r == starts_with(s@, p@),
{
    let cs = to_chars(s);
    let ps = to_chars(p);
    if ps.len() > cs.len() {
        return false;
    }
    assert(cs@.subrange(0, ps@.len() as int) == s@.take(p@.len() as int));
    matches_at(&cs, &ps, 0)
}

pub fn has_suffix(s: &str, p: &str) -> (r: bool)
    ensures
        r == ends_with(s@, p@),
{
    let cs = to_chars(s);
    let ps = to_chars(p);
    if ps.len() > cs.len() {
        return false;
    }
    assert(cs@.subrange(cs@.len() - ps@.len(), cs@.len() as int) == s@.skip(s@.len() - p@.len()));
    matches_at(&cs, &ps, cs.len() - ps.len())
}

pub fn has_text(s: &str, p: &str) -> (r: bool)
    ensures
        r == contains(s@, p@),
{
    let cs = to_chars(s);
    let ps = to_chars(p);
    if ps.len() > cs.len() {
        return false;
    }
    let last = cs.len() - ps.len();
    let mut i: usize = 0;
    loop
        invariant
            i <= last,
            last == cs.len() - ps.len(),
            cs@ == s@,
            ps@ == p@,
            forall|k: int| 0 <= k < i ==> !occurs_at(s@, p@, k),
        decreases last - i,
    {
        if matches_at(&cs, &ps, i) {
            assert(occurs_at(s@, p@, i as int));
            return true;
        }
        assert(!occurs_at(s@, p@, i as int));
        if i == last {
            return false;
        }
        i += 1;
    }
}

/// `s` with `with` in place of every `c`.
pub open spec fn replace_char(s: Seq<char>, c: char, with: Seq<char>) -> Seq<char>
    decreases s.len(),
{
    if s.len() == 0 {
        Seq::empty()
    } else {
        replace_char(s.drop_last(), c, with) + if s.last() == c {
            with
        } else {
            seq![s.last()]
        }
    }
}

/// A text without `c` is not changed by replacing `c`.
pub proof fn lemma_replace_absent(s: Seq<char>, c: char, with: Seq<char>)
    requires
        !s.contains(c),
    ensures
        replace_char(s, c, with) == s,
    decreases s.len(),
{
    if s.len() > 0 {
        assert(s.contains(s.last()));
        assert forall|i: int| 0 <= i < s.len() - 1 implies s.drop_last()[i] != c by {
            assert(s.contains(s[i]));
        }
        lemma_replace_absent(s.drop_last(), c, with);
        assert(s.drop_last() + seq![s.last()] =~= s);
    }
}

pub fn replaced_char(s: &str, c: char, with: &str) -> (r: String)
    ensures
        r@ == replace_char(s@, c, with@),
{
    let cs = to_chars(s);
    let mut out = String::new();
    let mut i: usize = 0;
    while i < cs.len()
        invariant
            i <= cs.len(),
            cs@ == s@,
            out@ == replace_char(s@.take(i as int), c, with@),
        decreases cs.len() - i,
    {
        if cs[i] == c {
            out.append(with);
        } else {
            out.push(cs[i]);
        }
        assert(s@.take(i + 1).drop_last() == s@.take(i as int));
        i += 1;
    }
    assert(s@.take(i as int) == s@);
    out
}

/// The pieces of `s` between the occurrences of `c`.
pub open spec fn split_at_char(s: Seq<char>, c: char) -> Seq<Seq<char>>
    decreases s.len(),
{
    if s.len() == 0 {
        seq![Seq::empty()]
    } else {
        let before = split_at_char(s.drop_last(), c);
        if s.last() == c {
            before.push(Seq::empty())
        } else {
            before.update(before.len() - 1, before.last().push(s.last()))
        }
    }
}

pub proof fn lemma_split_at_char(s: Seq<char>, c: char)
    ensures
        split_at_char(s, c).len() >= 1,
    decreases s.len(),
{
    if s.len() > 0 {
        lemma_split_at_char(s.drop_last(), c);
    }
}

/// Splitting goes on behind a separator.
pub proof fn lemma_split_behind(s: Seq<char>, t: Seq<char>, c: char)
    requires
        !t.contains(c),
    ensures
        split_at_char(s + seq![c] + t, c) == split_at_char(s, c).push(t),
    decreases t.len(),
{
    let all = s + seq![c] + t;
    if t.len() == 0 {
        assert(all.drop_last() =~= s);
        assert(all.last() == c);
        assert(t =~= Seq::empty());
    } else {
        let u = t.drop_last();
        assert forall|i: int| 0 <= i < u.len() implies u[i] != c by {
            assert(t.contains(t[i]));
        }
        lemma_split_behind(s, u, c);
        assert(all.drop_last() =~= s + seq![c] + u);
        assert(all.last() == t.last());
        assert(t.contains(t.last()));
        let before = split_at_char(s, c).push(u);
        assert(before.update(before.len() - 1, before.last().push(t.last())) =~= split_at_char(
            s,
            c,
        ).push(u.push(t.last())));
        assert(u.push(t.last()) =~= t);
    }
}

/// A text without the separator is one part.
pub proof fn lemma_split_single(t: Seq<char>, c: char)
    requires
        !t.contains(c),
    ensures
        split_at_char(t, c) == seq![t],
    decreases t.len(),
{
    if t.len() == 0 {
        assert(t =~= Seq::empty());
    } else {
        let u = t.drop_last();
        assert forall|i: int| 0 <= i < u.len() implies u[i] != c by {
            assert(t.contains(t[i]));
        }
        lemma_split_single(u, c);
        assert(t.contains(t.last()));
        assert(u.push(t.last()) =~= t);
        assert(seq![u].update(0, seq![u].last().push(t.last())) =~= seq![t]);
    }
}

/// Parts without the separator come apart again as they were joined.
pub proof fn lemma_split_of_join(parts: Seq<Seq<char>>, c: char)
    requires
        parts.len() > 0,
        forall|i: int| 0 <= i < parts.len() ==> !(#[trigger] parts[i]).contains(c),
    ensures
        split_at_char(join(parts, seq![c]), c) == parts,
    decreases parts.len(),
{
    if parts.len() == 1 {
        lemma_split_single(parts[0], c);
        assert(seq![parts[0]] =~= parts);
    } else {
        let rest = parts.drop_last();
        assert forall|i: int| 0 <= i < rest.len() implies !(#[trigger] rest[i]).contains(c) by {
            assert(rest[i] == parts[i]);
        }
        lemma_split_of_join(rest, c);
        lemma_split_behind(join(rest, seq![c]), parts.last(), c);
        assert(rest.push(parts.last()) =~= parts);
    }
}

/// A text with no white space at its ends is trimmed already.
pub proof fn lemma_trimmed(s: Seq<char>)
    requires
        s.len() > 0 ==> !chars::is_white(s[0]) && !chars::is_white(s.last()),
    ensures
        trim(s) == s,
{
}

/// Splits a text at every `c`.
pub fn split_char(s: &str, c: char) -> (r: Vec<String>)
    ensures
        chars::texts(r@) == split_at_char(s@, c),
{
    let cs = to_chars(s);
    let mut done: Vec<String> = Vec::new();
    let mut cur = String::new();
    let mut i: usize = 0;
    assert(s@.take(0).len() == 0);
    assert(chars::texts(done@).push(cur@) == split_at_char(s@.take(0), c));
    while i < cs.len()
        invariant
            i <= cs.len(),
            cs@ == s@,
            chars::texts(done@).push(cur@) == split_at_char(s@.take(i as int), c),
        decreases cs.len() - i,
    {
        let ghost before = chars::texts(done@).push(cur@);
        assert(s@.take(i + 1).drop_last() == s@.take(i as int));
        if cs[i] == c {
            done.push(cur);
            assert(chars::texts(done@) == before);
            cur = String::new();
        } else {
            cur.push(cs[i]);
            assert(before.update(before.len() - 1, before.last().push(cs@[i as int])) == chars::texts(
                done@,
            ).push(cur@));
        }
        i += 1;
    }
    assert(s@.take(i as int) == s@);
    let ghost d = chars::texts(done@);
    let ghost last = cur@;
    done.push(cur);
    assert(chars::texts(done@) == d.push(last));
    done
}

/// Lexicographic order of texts, by character code.
pub open spec fn text_le(a: Seq<char>, b: Seq<char>) -> bool
    decreases a.len(),
{
    if a.len() == 0 {
        true
    } else if b.len() == 0 {
        false
    } else if a[0] != b[0] {
        a[0] < b[0]
    } else {
        text_le(a.drop_first(), b.drop_first())
    }
}

pub fn str_le(a: &str, b: &str) -> (r: bool)
    ensures
        r == text_le(a@, b@),
{
    let x = to_chars(a);
    let y = to_chars(b);
    let mut i: usize = 0;
    assert(x@.skip(0) == a@);
    assert(y@.skip(0) == b@);
    while i < x.len()
        invariant
            i <= x.len(),
            i <= y.len(),
            text_le(a@, b@) == text_le(x@.skip(i as int), y@.skip(i as int)),
        decreases x.len() - i,
    {
        if i == y.len() {
            return false;
        }
        if x[i] != y[i] {
            return x[i] < y[i];
        }
        assert(x@.skip(i as int).drop_first() == x@.skip(i + 1));
        assert(y@.skip(i as int).drop_first() == y@.skip(i + 1));
        i += 1;
    }
    true
}

/// The order is total.
pub proof fn lemma_text_le_total(a: Seq<char>, b: Seq<char>)
    ensures
        text_le(a, b) || text_le(b, a),
    decreases a.len(),
{
    if a.len() > 0 && b.len() > 0 && a[0] == b[0] {
        lemma_text_le_total(a.drop_first(), b.drop_first());
    }
}

/// The order is transitive.
pub proof fn lemma_text_le_transitive(a: Seq<char>, b: Seq<char>, c: Seq<char>)
    requires
        text_le(a, b),
        text_le(b, c),
    ensures
        text_le(a, c),
    decreases a.len(),
{
    if a.len() > 0 && a[0] == b[0] && b[0] == c[0] {
        lemma_text_le_transitive(a.drop_first(), b.drop_first(), c.drop_first());
    }
}

/// The order is antisymmetric.
pub proof fn lemma_text_le_antisymmetric(a: Seq<char>, b: Seq<char>)
    requires
        text_le(a, b),
        text_le(b, a),
    ensures
        a == b,
    decreases a.len(),
{
    if a.len() == 0 || b.len() == 0 {
        assert(a =~= b);
    } else {
        let x = a.drop_first();
        let y = b.drop_first();
        assert(a[0] == b[0]);
        lemma_text_le_antisymmetric(x, y);
        assert(a.len() == x.len() + 1);
        assert(b.len() == y.len() + 1);
        assert forall|k: int| 0 <= k < a.len() implies a[k] == b[k] by {
            if k > 0 {
                assert(a[k] == x[k - 1]);
                assert(b[k] == y[k - 1]);
            }
        }
        assert(a =~= b);
    }
}

/// The decimal digits of a number.
pub open spec fn decimal(n: nat) -> Seq<char>
    decreases n,
{
    if n < 10 {
        seq![digit_char(n)]
    } else {
        decimal(n / 10).push(digit_char(n % 10))
    }
}

pub open spec fn digit_char(d: nat) -> char {
    (48 + d) as char
}

/// A number in decimal.
pub fn number(n: u128) -> (r: String)
    ensures
        r@ == decimal(n as nat),
    decreases n,
{
    if n < 10 {
        let mut out = String::new();
        out.push(((n as u8) + 48) as char);
        assert(out@ == decimal(n as nat));
        out
    } else {
        let mut out = number(n / 10);
        out.push((((n % 10) as u8) + 48) as char);
        out
    }
}

} // verus!
