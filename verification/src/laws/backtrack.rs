//! Taking back what was said.

use crate::chars;
use crate::laws::texts;
use crate::pattern;
use crate::words;
use crate::words::Class;
use vstd::prelude::*;
use vstd::string::*;

verus! {

/// A word that is `actually`, in any case.
pub open spec fn says_actually(w: Seq<char>) -> bool {
    chars::lower(w) == "actually"@
}

/// Two words that are `I mean` or `I, mean`, in any case.
pub open spec fn says_i_mean(v: Seq<char>, w: Seq<char>) -> bool {
    (chars::lower(v) == "i"@ || chars::lower(v) == "i,"@) && chars::lower(w) == "mean"@
}

/// No word is `actually`.
pub open spec fn without_actually(ws: Seq<Seq<char>>) -> bool {
    forall|i: int| 0 <= i < ws.len() ==> !says_actually(#[trigger] ws[i])
}

/// No two neighbours are `I mean`.
pub open spec fn without_i_mean(ws: Seq<Seq<char>>) -> bool {
    forall|i: int| 0 <= i < ws.len() - 1 ==> !says_i_mean(#[trigger] ws[i], ws[i + 1])
}

proof fn lemma_lower_literals()
    ensures
        chars::lower("actually"@) == "actually"@,
        chars::lower("i"@) == "i"@,
        chars::lower("i,"@) == "i,"@,
        chars::lower("mean"@) == "mean"@,
{
    reveal_strlit("actually");
    reveal_strlit("i");
    reveal_strlit("i,");
    reveal_strlit("mean");
    assert(chars::lower("actually"@) =~= "actually"@);
    assert(chars::lower("i"@) =~= "i"@);
    assert(chars::lower("i,"@) =~= "i,"@);
    assert(chars::lower("mean"@) =~= "mean"@);
}

/// Words without `actually` are taken over as they are, behind whatever stands
/// there already.
pub proof fn lemma_plain_words_stay(ws: Seq<Seq<char>>, i: int, out: Seq<Seq<char>>)
    requires
        0 <= i <= ws.len(),
        without_actually(ws.skip(i)),
    ensures
        crate::format::after_actually(ws, i, out) == out + ws.skip(i),
    decreases ws.len() - i,
{
    lemma_lower_literals();
    if i < ws.len() {
        assert(ws.skip(i)[0] == ws[i]);
        assert forall|k: int| 0 <= k < ws.skip(i + 1).len() implies !says_actually(
            #[trigger] ws.skip(i + 1)[k],
        ) by {
            assert(ws.skip(i)[k + 1] == ws.skip(i + 1)[k]);
        }
        lemma_plain_words_stay(ws, i + 1, out.push(ws[i]));
        assert(out.push(ws[i]) + ws.skip(i + 1) =~= out + ws.skip(i));
    } else {
        assert(out + ws.skip(i) =~= out);
    }
}

/// The words before a place, where none of them is `actually`.
proof fn lemma_walk_to(ws: Seq<Seq<char>>, from: int, to: int)
    requires
        0 <= from <= to <= ws.len(),
        without_actually(ws.take(to)),
    ensures
        crate::format::after_actually(ws, from, ws.take(from)) == crate::format::after_actually(
            ws,
            to,
            ws.take(to),
        ),
    decreases to - from,
{
    lemma_lower_literals();
    if from < to {
        assert(ws.take(to)[from] == ws[from]);
        assert(ws.take(from).push(ws[from]) =~= ws.take(from + 1));
        lemma_walk_to(ws, from + 1, to);
    }
}

/// `X actually Y` becomes `Y` where `X` is no pronoun: every word before `X` and
/// every word behind `Y` is kept, in order.
pub proof fn lemma_actually_replaces_one_word(
    a: Seq<Seq<char>>,
    x: Seq<char>,
    w: Seq<char>,
    y: Seq<char>,
    b: Seq<Seq<char>>,
)
    requires
        without_actually(a),
        !says_actually(x),
        says_actually(w),
        without_actually(b),
        !crate::format::is_pronoun(x),
    ensures
        crate::format::after_actually(a + seq![x, w, y] + b, 0, Seq::empty()) == a + seq![y] + b,
{
    lemma_lower_literals();
    let ws = a + seq![x, w, y] + b;
    let n = a.len() as int;
    assert(ws.take(0) =~= Seq::empty());
    assert forall|k: int| 0 <= k < ws.take(n + 1).len() implies !says_actually(
        #[trigger] ws.take(n + 1)[k],
    ) by {
        if k < n {
            assert(ws.take(n + 1)[k] == a[k]);
        }
    }
    lemma_walk_to(ws, 0, n + 1);
    let out = ws.take(n + 1);
    assert(out.last() == x && ws[n + 1] == w && ws[n + 2] == y);
    assert(out.drop_last().push(y) =~= a + seq![y]);
    assert(ws.skip(n + 3) =~= b);
    lemma_plain_words_stay(ws, n + 3, a + seq![y]);
}

/// `X actually Y` stays where `X` is a pronoun, with every word around it.
pub proof fn lemma_actually_behind_pronoun_stays(
    a: Seq<Seq<char>>,
    x: Seq<char>,
    w: Seq<char>,
    b: Seq<Seq<char>>,
)
    requires
        without_actually(a),
        !says_actually(x),
        says_actually(w),
        without_actually(b),
        crate::format::is_pronoun(x),
    ensures
        crate::format::after_actually(a + seq![x, w] + b, 0, Seq::empty()) == a + seq![x, w] + b,
{
    lemma_lower_literals();
    let ws = a + seq![x, w] + b;
    let n = a.len() as int;
    assert(ws.take(0) =~= Seq::empty());
    assert forall|k: int| 0 <= k < ws.take(n + 1).len() implies !says_actually(
        #[trigger] ws.take(n + 1)[k],
    ) by {
        if k < n {
            assert(ws.take(n + 1)[k] == a[k]);
        }
    }
    lemma_walk_to(ws, 0, n + 1);
    assert(ws.take(n + 1).last() == x && ws[n + 1] == w);
    assert(ws.take(n + 1).push(w) =~= a + seq![x, w]);
    assert(ws.skip(n + 2) =~= b);
    lemma_plain_words_stay(ws, n + 2, a + seq![x, w]);
}

/// `actually` at either end of the words corrects nothing.
pub proof fn lemma_actually_at_an_end_stays(w: Seq<char>, b: Seq<Seq<char>>)
    requires
        says_actually(w),
        without_actually(b),
    ensures
        crate::format::after_actually(seq![w] + b, 0, Seq::empty()) == seq![w] + b,
        crate::format::after_actually(b.push(w), 0, Seq::empty()) == b.push(w),
{
    lemma_lower_literals();
    let ws = seq![w] + b;
    assert(ws.skip(1) =~= b);
    assert(Seq::empty().push(w) =~= seq![w]);
    lemma_plain_words_stay(ws, 1, seq![w]);
    let vs = b.push(w);
    let n = b.len() as int;
    assert(vs.take(n) =~= b);
    assert(vs.take(0) =~= Seq::empty());
    lemma_walk_to(vs, 0, n);
    assert(crate::format::after_actually(vs, n + 1, vs) == vs);
    assert(vs.take(n).push(vs[n]) =~= vs);
}

/// A correction can be corrected in turn.
pub proof fn lemma_actually_twice(
    a: Seq<Seq<char>>,
    x: Seq<char>,
    w: Seq<char>,
    y: Seq<char>,
    v: Seq<char>,
    z: Seq<char>,
    b: Seq<Seq<char>>,
)
    requires
        without_actually(a),
        !says_actually(x),
        says_actually(w),
        says_actually(v),
        without_actually(b),
        !crate::format::is_pronoun(x),
        !crate::format::is_pronoun(y),
    ensures
        crate::format::after_actually(a + seq![x, w, y, v, z] + b, 0, Seq::empty()) == a + seq![z]
            + b,
{
    lemma_lower_literals();
    let ws = a + seq![x, w, y, v, z] + b;
    let n = a.len() as int;
    assert(ws.take(0) =~= Seq::empty());
    assert forall|k: int| 0 <= k < ws.take(n + 1).len() implies !says_actually(
        #[trigger] ws.take(n + 1)[k],
    ) by {
        if k < n {
            assert(ws.take(n + 1)[k] == a[k]);
        }
    }
    lemma_walk_to(ws, 0, n + 1);
    let out = ws.take(n + 1);
    assert(out.last() == x && ws[n + 1] == w && ws[n + 2] == y && ws[n + 3] == v && ws[n + 4]
        == z);
    assert(out.drop_last().push(y) =~= a + seq![y]);
    let two = a + seq![y];
    assert(crate::format::after_actually(ws, n + 1, out) == crate::format::after_actually(
        ws,
        n + 3,
        two,
    ));
    assert(two.last() == y);
    assert(two.drop_last().push(z) =~= a + seq![z]);
    assert(crate::format::after_actually(ws, n + 3, two) == crate::format::after_actually(
        ws,
        n + 5,
        a + seq![z],
    ));
    assert(ws.skip(n + 5) =~= b);
    lemma_plain_words_stay(ws, n + 5, a + seq![z]);
}

/// Words without `I mean` are taken over as they are.
pub proof fn lemma_plain_words_stay_too(ws: Seq<Seq<char>>, i: int, out: Seq<Seq<char>>)
    requires
        0 <= i <= ws.len(),
        without_i_mean(ws.skip(i)),
    ensures
        crate::format::after_i_mean(ws, i, out) == out + ws.skip(i),
    decreases ws.len() - i,
{
    lemma_lower_literals();
    if i < ws.len() {
        let s = ws.skip(i);
        let t = ws.skip(i + 1);
        assert(s[0] == ws[i]);
        if i + 1 < ws.len() {
            assert(s[1] == ws[i + 1]);
        }
        assert forall|k: int| 0 <= k < t.len() - 1 implies !says_i_mean(#[trigger] t[k], t[k + 1]) by {
            assert(s[k + 1] == t[k] && s[k + 2] == t[k + 1]);
        }
        lemma_plain_words_stay_too(ws, i + 1, out.push(ws[i]));
        assert(out.push(ws[i]) + t =~= out + s);
    } else {
        assert(out + ws.skip(i) =~= out);
    }
}

proof fn lemma_walk_to_too(ws: Seq<Seq<char>>, from: int, to: int)
    requires
        0 <= from <= to <= ws.len(),
        forall|k: int| 0 <= k < to && k + 1 < ws.len() ==> !says_i_mean(#[trigger] ws[k], ws[k + 1]),
    ensures
        crate::format::after_i_mean(ws, from, ws.take(from)) == crate::format::after_i_mean(
            ws,
            to,
            ws.take(to),
        ),
    decreases to - from,
{
    lemma_lower_literals();
    if from < to {
        assert(from + 1 < ws.len() ==> !says_i_mean(ws[from], ws[from + 1]));
        assert(ws.take(from).push(ws[from]) =~= ws.take(from + 1));
        lemma_walk_to_too(ws, from + 1, to);
    }
}

/// `X I mean Y` becomes `Y` where `X` is no pronoun: every word before `X` and
/// every word behind `Y` is kept, in order.
pub proof fn lemma_i_mean_replaces_one_word(
    a: Seq<Seq<char>>,
    x: Seq<char>,
    v: Seq<char>,
    w: Seq<char>,
    y: Seq<char>,
    b: Seq<Seq<char>>,
)
    requires
        without_i_mean(a.push(x)),
        says_i_mean(v, w),
        without_i_mean(b),
        !crate::format::is_pronoun(x),
    ensures
        crate::format::after_i_mean(a + seq![x, v, w, y] + b, 0, Seq::empty()) == a + seq![y] + b,
{
    lemma_lower_literals();
    reveal_strlit("i");
    reveal_strlit("i,");
    reveal_strlit("mean");
    let ws = a + seq![x, v, w, y] + b;
    let n = a.len() as int;
    let ax = a.push(x);
    assert(ws.take(0) =~= Seq::empty());
    assert(chars::lower(v).len() <= 2 && "mean"@.len() == 4);
    assert forall|k: int| 0 <= k < n + 1 && k + 1 < ws.len() implies !says_i_mean(
        #[trigger] ws[k],
        ws[k + 1],
    ) by {
        if k < n {
            assert(ax[k] == ws[k] && ax[k + 1] == ws[k + 1]);
        } else {
            assert(ws[k + 1] == v);
        }
    }
    lemma_walk_to_too(ws, 0, n + 1);
    let out = ws.take(n + 1);
    assert(out.last() == x && ws[n + 1] == v && ws[n + 2] == w && ws[n + 3] == y);
    assert(out.drop_last().push(y) =~= a + seq![y]);
    assert(ws.skip(n + 4) =~= b);
    lemma_plain_words_stay_too(ws, n + 4, a + seq![y]);
}

/// `X I mean Y` stays where `X` is a pronoun, with every word around it.
pub proof fn lemma_i_mean_behind_pronoun_stays(
    a: Seq<Seq<char>>,
    x: Seq<char>,
    v: Seq<char>,
    w: Seq<char>,
    b: Seq<Seq<char>>,
)
    requires
        without_i_mean(a.push(x)),
        says_i_mean(v, w),
        without_i_mean(seq![w] + b),
        crate::format::is_pronoun(x),
    ensures
        crate::format::after_i_mean(a + seq![x, v, w] + b, 0, Seq::empty()) == a + seq![x, v, w]
            + b,
{
    lemma_lower_literals();
    reveal_strlit("i");
    reveal_strlit("i,");
    reveal_strlit("mean");
    let ws = a + seq![x, v, w] + b;
    let n = a.len() as int;
    let ax = a.push(x);
    assert(ws.take(0) =~= Seq::empty());
    assert(chars::lower(v).len() <= 2 && "mean"@.len() == 4);
    assert forall|k: int| 0 <= k < n + 1 && k + 1 < ws.len() implies !says_i_mean(
        #[trigger] ws[k],
        ws[k + 1],
    ) by {
        if k < n {
            assert(ax[k] == ws[k] && ax[k + 1] == ws[k + 1]);
        } else {
            assert(ws[k + 1] == v);
        }
    }
    lemma_walk_to_too(ws, 0, n + 1);
    assert(ws.take(n + 1).last() == x && ws[n + 1] == v);
    assert(ws.take(n + 1).push(v) =~= a + seq![x, v]);
    assert(ws.skip(n + 2) =~= seq![w] + b);
    lemma_plain_words_stay_too(ws, n + 2, a + seq![x, v]);
    assert(a + seq![x, v] + (seq![w] + b) =~= ws);
}

/// The pronouns, in any case and with any punctuation around them.
pub proof fn lemma_pronouns(p: Seq<char>, w: Seq<char>, q: Seq<char>)
    requires
        texts::all_in(p, Class::Punct),
        texts::is_core(w, Class::Punct),
        texts::all_in(q, Class::Punct),
    ensures
        crate::format::is_pronoun(p + w + q) <==> {
            let l = chars::lower(w);
            l == "i"@ || l == "we"@ || l == "they"@ || l == "he"@ || l == "she"@ || l == "you"@
        },
{
    texts::lemma_trim_keeps_core(p, w, q, Class::Punct);
}

/// The backtrack pass corrects with `actually` what the dropped clauses leave.
pub proof fn lemma_backtrack_actually(
    text: Seq<char>,
    a: Seq<Seq<char>>,
    x: Seq<char>,
    w: Seq<char>,
    y: Seq<char>,
    b: Seq<Seq<char>>,
)
    requires
        words::words(crate::format::without_discarded(text)) == a + seq![x, w, y] + b,
        without_actually(a),
        !says_actually(x),
        says_actually(w),
        without_actually(b),
        !crate::format::is_pronoun(x),
        without_i_mean(a + seq![y] + b),
    ensures
        crate::format::backtracked(text) == words::join(a + seq![y] + b, " "@),
{
    lemma_actually_replaces_one_word(a, x, w, y, b);
    let kept = a + seq![y] + b;
    let ws = a + seq![x, w, y] + b;
    words::lemma_words_are_words(crate::format::without_discarded(text));
    assert forall|i: int| 0 <= i < kept.len() implies words::is_word(#[trigger] kept[i]) by {
        if i < a.len() {
            assert(kept[i] == ws[i]);
        } else {
            assert(kept[i] == ws[i + 2]);
        }
    }
    words::lemma_words_of_join(kept);
    assert(kept.skip(0) =~= kept);
    lemma_plain_words_stay_too(kept, 0, Seq::empty());
    assert(Seq::empty() + kept =~= kept);
}

/// The backtrack pass corrects with `I mean` what the dropped clauses leave.
pub proof fn lemma_backtrack_i_mean(
    text: Seq<char>,
    a: Seq<Seq<char>>,
    x: Seq<char>,
    v: Seq<char>,
    w: Seq<char>,
    y: Seq<char>,
    b: Seq<Seq<char>>,
)
    requires
        words::words(crate::format::without_discarded(text)) == a + seq![x, v, w, y] + b,
        without_actually(a + seq![x, v, w, y] + b),
        without_i_mean(a.push(x)),
        says_i_mean(v, w),
        without_i_mean(b),
        !crate::format::is_pronoun(x),
    ensures
        crate::format::backtracked(text) == words::join(a + seq![y] + b, " "@),
{
    let ws = a + seq![x, v, w, y] + b;
    assert(ws.skip(0) =~= ws);
    lemma_plain_words_stay(ws, 0, Seq::empty());
    assert(Seq::empty() + ws =~= ws);
    words::lemma_words_are_words(crate::format::without_discarded(text));
    words::lemma_words_of_join(ws);
    lemma_i_mean_replaces_one_word(a, x, v, w, y, b);
}

/// Where nothing is corrected, the backtrack pass keeps every word that the
/// dropped clauses leave.
pub proof fn lemma_backtrack_keeps_words(text: Seq<char>)
    requires
        without_actually(words::words(crate::format::without_discarded(text))),
        without_i_mean(words::words(crate::format::without_discarded(text))),
    ensures
        words::words(crate::format::backtracked(text)) == words::words(
            crate::format::without_discarded(text),
        ),
{
    let ws = words::words(crate::format::without_discarded(text));
    assert(ws.skip(0) =~= ws);
    lemma_plain_words_stay(ws, 0, Seq::empty());
    lemma_plain_words_stay_too(ws, 0, Seq::empty());
    assert(Seq::empty() + ws =~= ws);
    words::lemma_words_are_words(crate::format::without_discarded(text));
    words::lemma_words_of_join(ws);
}

/// A clause that is taken back goes, with the phrase that takes it back; what
/// stands before it and behind it is kept. A mark that ended the sentence before
/// it stays, with a space behind it.
pub proof fn lemma_clause_is_dropped(
    before: Seq<char>,
    clause: Seq<char>,
    behind: Seq<char>,
    from: usize,
    to: usize,
)
    requires
        clause.len() > 0,
        from == before.len(),
        to == before.len() + clause.len(),
    ensures
        crate::format::discarded(before + clause + behind, seq![(from, to)]) == before + (
        if clause[0] == '.' || clause[0] == '!' || clause[0] == '?' {
            seq![clause[0], ' ']
        } else {
            Seq::empty()
        }) + behind,
{
    let text = before + clause + behind;
    let one = seq![(from, to)];
    reveal_with_fuel(crate::format::discarded_upto, 2);
    assert(pattern::gap(text, one, 0) =~= before);
    assert(pattern::gap(text, one, 1) =~= behind);
    assert(pattern::matched(text, one, 0) =~= clause);
    assert(crate::format::discarded(text, one) =~= before + (if clause[0] == '.' || clause[0] == '!'
        || clause[0] == '?' {
        seq![clause[0], ' ']
    } else {
        Seq::empty()
    }) + behind);
}

/// Clauses are dropped one after the other: the last one leaves what the ones
/// before it left of the text before it.
pub proof fn lemma_last_clause(text: Seq<char>, spans: Seq<(usize, usize)>)
    requires
        pattern::ordered(text, spans),
        spans.len() > 0,
    ensures
        ({
            let (from, to) = spans.last();
            let clause = text.subrange(from as int, to as int);
            crate::format::discarded(text, spans) == crate::format::discarded(
                text.take(from as int),
                spans.drop_last(),
            ) + (if from < to && (text[from as int] == '.' || text[from as int] == '!'
                || text[from as int] == '?') {
                seq![text[from as int], ' ']
            } else {
                Seq::empty()
            }) + text.skip(to as int)
        }),
{
    let (from, to) = spans.last();
    let n = spans.len() as int;
    let head = text.take(from as int);
    let rest = spans.drop_last();
    assert(spans[n - 1] == spans.last());
    lemma_discards_agree(text, head, spans, rest, n - 1);
    if n > 1 {
        assert(spans[n - 2].1 <= spans[n - 1].0);
        assert(rest[n - 2] == spans[n - 2]);
    }
    assert(pattern::gap(text, spans, n - 1) =~= pattern::gap(head, rest, n - 1));
    assert(pattern::gap(text, spans, n) =~= text.skip(to as int));
    let clause = pattern::matched(text, spans, n - 1);
    if from < to {
        assert(clause[0] == text[from as int]);
    }
    assert(crate::format::discarded(text, spans) =~= crate::format::discarded(head, rest)
        + crate::format::clause_rest(clause) + text.skip(to as int));
}

proof fn lemma_discards_agree(
    text: Seq<char>,
    head: Seq<char>,
    spans: Seq<(usize, usize)>,
    rest: Seq<(usize, usize)>,
    n: int,
)
    requires
        0 <= n < spans.len(),
        pattern::ordered(text, spans),
        head == text.take(spans.last().0 as int),
        rest == spans.drop_last(),
    ensures
        crate::format::discarded_upto(text, spans, n) == crate::format::discarded_upto(
            head,
            rest,
            n,
        ),
    decreases n,
{
    if n > 0 {
        lemma_discards_agree(text, head, spans, rest, n - 1);
        assert(rest[n - 1] == spans[n - 1]);
        assert(spans[n - 1].1 <= spans[spans.len() - 1].0);
        if n > 1 {
            assert(rest[n - 2] == spans[n - 2]);
            assert(spans[n - 2].1 <= spans[n - 1].0);
        }
        assert(pattern::gap(text, spans, n - 1) =~= pattern::gap(head, rest, n - 1));
        assert(pattern::matched(text, spans, n - 1) =~= pattern::matched(head, rest, n - 1));
    }
}

/// A clause is taken back by one of three phrases, in any case and as whole words. The
/// clause reaches back to the mark or the line break before it, or to the start.
pub proof fn lemma_discard_pattern()
    ensures
        crate::format::discard_pattern() == "(?i)(?:^|[.!?]\\s*|\\n)[^.!?\\n]*?\\b(?:"@
            + words::join(
            seq![
                crate::format::phrase_pattern("scratch that"@),
                crate::format::phrase_pattern("never mind"@),
                crate::format::phrase_pattern("disregard that"@),
            ],
            seq!['|'],
        ) + ")\\b[,\\.]?\\s*"@,
{
    reveal_strlit("(?i)(?:^|[.!?]\\s*|\\n)[^.!?\\n]*?\\b(?:");
    reveal_strlit(r"(?i)(?:^|[.!?]\s*|\n)[^.!?\n]*?\b(?:");
    reveal_strlit(")\\b[,\\.]?\\s*");
    reveal_strlit(r")\b[,\.]?\s*");
    reveal_strlit("|");
    assert("|"@ =~= seq!['|']);
    assert(r"(?i)(?:^|[.!?]\s*|\n)[^.!?\n]*?\b(?:"@
        =~= "(?i)(?:^|[.!?]\\s*|\\n)[^.!?\\n]*?\\b(?:"@);
    assert(r")\b[,\.]?\s*"@ =~= ")\\b[,\\.]?\\s*"@);
    let alts = Seq::new(
        crate::format::discard_phrases().len(),
        |i: int| crate::format::phrase_pattern(crate::format::discard_phrases()[i]@),
    );
    assert(alts =~= seq![
        crate::format::phrase_pattern("scratch that"@),
        crate::format::phrase_pattern("never mind"@),
        crate::format::phrase_pattern("disregard that"@),
    ]);
}

} // verus!
