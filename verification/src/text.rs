//! Offline text post-processing.
//!
//! - Dictionary (trigger to replacement snippet and vocabulary rules)
//! - Filler-word cleanup
//! - Smart trailing punctuation (no full stop behind emails, URLs and numbers)

use crate::chars;
use crate::chars::{from_range, lowered, str_eq, to_chars, white};
use crate::pattern;
use crate::pattern::{count_matches, escaped, matches_somewhere, replace_matches};
use crate::words;
use crate::words::{
    join_strings, replaced_char, split_words, str_le, trim_class, trimmed, Class,
};
use vstd::prelude::*;
use vstd::string::*;

verus! {

/// One rule of the dictionary.
#[derive(Debug)]
pub struct DictionaryEntry {
    pub id: String,
    pub trigger: String,
    pub replacement: String,
    pub enabled: bool,
    pub whole_word: bool,
    /// `vocab` (default) or `snippet`.
    pub kind: String,
    pub starred: bool,
    pub usage: u32,
}

/// The kind of an entry that names none.
pub fn default_kind() -> (r: String)
    ensures
        r@ == "vocab"@,
{
    "vocab".to_owned()
}

impl DictionaryEntry {
    /// A fresh, enabled whole-word vocabulary rule.
    pub fn new(id: &str, trigger: &str, replacement: &str) -> (r: Self)
        ensures
            r@ == fresh_rule(id@, trigger@, replacement@),
    {
        DictionaryEntry {
            id: id.to_owned(),
            trigger: trigger.to_owned(),
            replacement: replacement.to_owned(),
            enabled: true,
            whole_word: true,
            kind: default_kind(),
            starred: false,
            usage: 0,
        }
    }

    pub fn is_snippet(&self) -> (r: bool)
        ensures
            r == (self.kind@ == "snippet"@),
    {
        str_eq(self.kind.as_str(), "snippet")
    }

    /// Whether `self` may stand before `other`: starred entries first, then the
    /// more used ones, then by trigger without regard to ASCII case.
    pub open spec fn may_precede(self, other: Self) -> bool {
        if self.starred != other.starred {
            self.starred
        } else if self.usage != other.usage {
            self.usage > other.usage
        } else {
            words::text_le(chars::lower(self.trigger@), chars::lower(other.trigger@))
        }
    }

    fn goes_before(&self, other: &Self) -> (r: bool)
        ensures
            r == self.may_precede(*other),
    {
        if self.starred != other.starred {
            self.starred
        } else if self.usage != other.usage {
            self.usage > other.usage
        } else {
            let a = lowered(self.trigger.as_str());
            let b = lowered(other.trigger.as_str());
            str_le(a.as_str(), b.as_str())
        }
    }
}

impl Clone for DictionaryEntry {
    fn clone(&self) -> (r: Self)
        ensures
            r == *self,
    {
        DictionaryEntry {
            id: self.id.clone(),
            trigger: self.trigger.clone(),
            replacement: self.replacement.clone(),
            enabled: self.enabled,
            whole_word: self.whole_word,
            kind: self.kind.clone(),
            starred: self.starred,
            usage: self.usage,
        }
    }
}

/// What a rule says.
pub struct Rule {
    pub id: Seq<char>,
    pub trigger: Seq<char>,
    pub replacement: Seq<char>,
    pub enabled: bool,
    pub whole_word: bool,
    pub kind: Seq<char>,
    pub starred: bool,
    pub usage: u32,
}

impl View for DictionaryEntry {
    type V = Rule;

    open spec fn view(&self) -> Rule {
        Rule {
            id: self.id@,
            trigger: self.trigger@,
            replacement: self.replacement@,
            enabled: self.enabled,
            whole_word: self.whole_word,
            kind: self.kind@,
            starred: self.starred,
            usage: self.usage,
        }
    }
}

/// What some rules say.
pub open spec fn rules(entries: Seq<DictionaryEntry>) -> Seq<Rule> {
    Seq::new(entries.len(), |i: int| entries[i]@)
}

/// A fresh rule.
pub open spec fn fresh_rule(id: Seq<char>, trigger: Seq<char>, replacement: Seq<char>) -> Rule {
    Rule {
        id,
        trigger,
        replacement,
        enabled: true,
        whole_word: true,
        kind: "vocab"@,
        starred: false,
        usage: 0,
    }
}

/// An equal list of entries.
pub fn copy_entries(entries: &Vec<DictionaryEntry>) -> (r: Vec<DictionaryEntry>)
    ensures
        r@ == entries@,
{
    let mut out: Vec<DictionaryEntry> = Vec::new();
    let mut i: usize = 0;
    while i < entries.len()
        invariant
            i <= entries.len(),
            out@ == entries@.take(i as int),
        decreases entries.len() - i,
    {
        out.push(entries[i].clone());
        i += 1;
    }
    out
}

/// The order of entries is total and transitive.
pub proof fn lemma_entry_order(a: DictionaryEntry, b: DictionaryEntry, c: DictionaryEntry)
    ensures
        a.may_precede(b) || b.may_precede(a),
        a.may_precede(b) && b.may_precede(c) ==> a.may_precede(c),
{
    let x = chars::lower(a.trigger@);
    let y = chars::lower(b.trigger@);
    let z = chars::lower(c.trigger@);
    words::lemma_text_le_total(x, y);
    if words::text_le(x, y) && words::text_le(y, z) {
        words::lemma_text_le_transitive(x, y, z);
    }
}

/// `places[i]` is where the entry at `i` of `after` stood in `before`; every
/// entry of `before` is there once, in order, and entries of equal rank keep
/// their order.
pub open spec fn sorted_by(
    before: Seq<DictionaryEntry>,
    after: Seq<DictionaryEntry>,
    places: Seq<int>,
) -> bool {
    &&& after.len() == before.len()
    &&& places.len() == before.len()
    &&& places.no_duplicates()
    &&& forall|i: int| #![trigger places[i]]
        0 <= i < places.len() ==> 0 <= places[i] < before.len() && after[i] == before[places[i]]
    &&& forall|i: int, j: int| #![trigger after[i], after[j]]
        0 <= i < j < after.len() ==> after[i].may_precede(after[j]) && (after[j].may_precede(
            after[i],
        ) ==> places[i] < places[j])
}

/// `after` is `before`, stably sorted.
pub open spec fn is_sorted_from(
    before: Seq<DictionaryEntry>,
    after: Seq<DictionaryEntry>,
) -> bool {
    exists|places: Seq<int>| #[trigger] sorted_by(before, after, places)
}

/// The invariant of the insertion sort: the first `n` entries are sorted, the
/// rest stands where it stood.
spec fn sorted_prefix(
    before: Seq<DictionaryEntry>,
    now: Seq<DictionaryEntry>,
    places: Seq<int>,
    n: int,
) -> bool {
    &&& now.len() == before.len()
    &&& places.len() == n
    &&& 0 <= n <= before.len()
    &&& places.no_duplicates()
    &&& forall|i: int| #![trigger places[i]]
        0 <= i < n ==> 0 <= places[i] < n && now[i] == before[places[i]]
    &&& forall|i: int| #![trigger now[i]] n <= i < now.len() ==> now[i] == before[i]
    &&& forall|i: int, j: int| #![trigger now[i], now[j]]
        0 <= i < j < n ==> now[i].may_precede(now[j]) && (now[j].may_precede(now[i])
            ==> places[i] < places[j])
}

proof fn lemma_insert_sorted(
    before: Seq<DictionaryEntry>,
    now: Seq<DictionaryEntry>,
    places: Seq<int>,
    n: int,
    j: int,
)
    requires
        sorted_prefix(before, now, places, n),
        n < now.len(),
        0 <= j <= n,
        forall|k: int| j <= k < n ==> !(#[trigger] now[k]).may_precede(now[n]),
        j > 0 ==> now[j - 1].may_precede(now[n]),
    ensures
        sorted_prefix(before, now.remove(n).insert(j, now[n]), places.insert(j, n), n + 1),
{
    let x = now[n];
    let after = now.remove(n).insert(j, x);
    let p = places.insert(j, n);
    assert forall|i: int| #![trigger p[i]] 0 <= i < n + 1 implies 0 <= p[i] < n + 1 && after[i]
        == before[p[i]] by {
        if i < j {
            assert(p[i] == places[i]);
        } else if i > j {
            assert(p[i] == places[i - 1]);
        }
    }
    assert(p.no_duplicates()) by {
        assert forall|a: int, b: int| 0 <= a < p.len() && 0 <= b < p.len() && a != b implies p[a]
            != p[b] by {
            let a0 = if a < j { a } else { a - 1 };
            let b0 = if b < j { b } else { b - 1 };
            if a != j {
                assert(p[a] == places[a0]);
            }
            if b != j {
                assert(p[b] == places[b0]);
            }
        }
    }
    assert forall|a: int, b: int| #![trigger after[a], after[b]] 0 <= a < b < n + 1 implies after[a]
        .may_precede(after[b]) && (after[b].may_precede(after[a]) ==> p[a] < p[b]) by {
        let a0 = if a < j { a } else { a - 1 };
        let b0 = if b < j { b } else { b - 1 };
        if a != j {
            assert(after[a] == now[a0]);
            assert(p[a] == places[a0]);
        }
        if b != j {
            assert(after[b] == now[b0]);
            assert(p[b] == places[b0]);
        }
        if b == j {
            assert(now[a0] == before[places[a0]]);
            lemma_entry_order(now[a0], now[j - 1], x);
            assert(now[j - 1] == now[j - 1]);
        } else if a == j {
            lemma_entry_order(x, now[b0], x);
        }
    }
}

/// Sorts the entries: starred first, then by usage, then by trigger. Entries of
/// equal rank keep their order.
pub fn sort_dictionary(entries: &mut Vec<DictionaryEntry>)
    ensures
        is_sorted_from(old(entries)@, final(entries)@),
{
    let n = entries.len();
    let ghost before = entries@;
    let ghost mut places: Seq<int> = Seq::empty();
    let mut i: usize = 0;
    while i < n
        invariant
            i <= n,
            n == entries.len(),
            sorted_prefix(before, entries@, places, i as int),
        decreases n - i,
    {
        let mut j: usize = i;
        while j > 0 && !entries[j - 1].goes_before(&entries[i])
            invariant
                j <= i < n,
                n == entries.len(),
                forall|k: int| j <= k < i ==> !(#[trigger] entries@[k]).may_precede(
                    entries@[i as int],
                ),
            decreases j,
        {
            j -= 1;
        }
        proof {
            lemma_insert_sorted(before, entries@, places, i as int, j as int);
            places = places.insert(j as int, i as int);
        }
        let x = entries.remove(i);
        entries.insert(j, x);
        i += 1;
    }
    assert(sorted_by(before, entries@, places));
}

/// White-space-separated word count.
pub fn word_count(text: &str) -> (r: u32)
    ensures
        r == words::words(text@).len() as u32,
{
    let w = split_words(text);
    assert(w@.len() == chars::texts(w@).len());
    w.len() as u32
}

/// Whether a rule takes part at all.
pub open spec fn rule_is_active(e: DictionaryEntry) -> bool {
    e.enabled && words::trim(e.trigger@).len() > 0
}

/// The pattern of a rule: the trigger in any case, its spaces matching any run
/// of white space, with a word boundary at each alphanumeric end of a
/// whole-word rule.
pub open spec fn rule_pattern(e: DictionaryEntry) -> Seq<char> {
    let t = words::trim(e.trigger@);
    "(?i)"@ + (if e.whole_word && chars::char_is_alphanumeric(t[0]) {
        "\\b"@
    } else {
        ""@
    }) + words::replace_char(pattern::escape(t), ' ', "\\s+"@) + (if e.whole_word
        && chars::char_is_alphanumeric(t.last()) {
        "\\b"@
    } else {
        ""@
    })
}

/// Where a rule fires in `text`.
pub open spec fn rule_matches(text: Seq<char>, e: DictionaryEntry) -> Seq<(usize, usize)> {
    if rule_is_active(e) {
        pattern::matches(rule_pattern(e), text)
    } else {
        Seq::empty()
    }
}

/// How often a rule fires in `text`.
pub open spec fn rule_hits(text: Seq<char>, e: DictionaryEntry) -> u32 {
    rule_matches(text, e).len() as u32
}

/// `text` after one rule with the given matches.
pub open spec fn rule_result(
    text: Seq<char>,
    e: DictionaryEntry,
    matches: Seq<(usize, usize)>,
) -> Seq<char> {
    if matches.len() as u32 > 0 {
        pattern::with_each_replaced(text, matches, e.replacement@)
    } else {
        text
    }
}

/// `text` after the first `n` rules.
pub open spec fn after_rules(text: Seq<char>, entries: Seq<DictionaryEntry>, n: int) -> Seq<char>
    decreases n,
{
    if n <= 0 {
        text
    } else {
        let t = after_rules(text, entries, n - 1);
        rule_result(t, entries[n - 1], rule_matches(t, entries[n - 1]))
    }
}

/// The replacements of the first `n` rules, modulo 2^32.
pub open spec fn hits_of_rules(text: Seq<char>, entries: Seq<DictionaryEntry>, n: int) -> u32
    decreases n,
{
    if n <= 0 {
        0
    } else {
        vstd::wrapping::u32_specs::wrapping_add(
            hits_of_rules(text, entries, n - 1),
            rule_hits(after_rules(text, entries, n - 1), entries[n - 1]),
        )
    }
}

/// An entry after its rule has fired `n` times.
pub open spec fn used(e: DictionaryEntry, n: u32) -> DictionaryEntry {
    DictionaryEntry {
        usage: if e.usage + n > u32::MAX {
            u32::MAX
        } else {
            (e.usage + n) as u32
        },
        ..e
    }
}

/// The pattern of a rule that is active.
pub fn build_rule_pattern(e: &DictionaryEntry) -> (r: String)
    requires
        rule_is_active(*e),
    ensures
        r@ == rule_pattern(*e),
{
    let trigger = trimmed(e.trigger.as_str());
    let t = to_chars(trigger.as_str());
    let body = escaped(trigger.as_str());
    let body = replaced_char(body.as_str(), ' ', "\\s+");
    let lead = e.whole_word && t[0].is_alphanumeric();
    let trail = e.whole_word && t[t.len() - 1].is_alphanumeric();
    let mut out = "(?i)".to_owned();
    out.append(if lead { "\\b" } else { "" });
    out.append(body.as_str());
    out.append(if trail { "\\b" } else { "" });
    out
}

/// The template of a rule: its replacement, each `$` doubled.
pub fn rule_template(e: &DictionaryEntry) -> (r: String)
    ensures
        r@ == pattern::literal_template(e.replacement@),
{
    replaced_char(e.replacement.as_str(), '$', "$$")
}

/// Ends one rule, from how often it matched and the text with its replacements.
pub fn apply_rule(text: String, entry: &DictionaryEntry, matches: usize, replaced: String) -> (r: (
    String,
    DictionaryEntry,
))
    ensures
        r.0@ == (if matches as u32 > 0 {
            replaced@
        } else {
            text@
        }),
        r.1 == used(*entry, matches as u32),
{
    let n: u32 = matches as u32;
    let mut e = entry.clone();
    e.usage = e.usage.saturating_add(n);
    if n > 0 {
        (replaced, e)
    } else {
        (text, e)
    }
}

/// Applies every enabled rule, in order. Word-boundary-aware and
/// case-insensitive; spaces in the trigger match any white-space run. Returns the
/// rewritten text and how many replacements fired, and counts the usage of each
/// entry that matched.
pub fn apply_dictionary(text: &str, entries: &mut Vec<DictionaryEntry>) -> (r: (String, u32))
    ensures
        r.0@ == after_rules(text@, old(entries)@, old(entries)@.len() as int),
        r.1 == hits_of_rules(text@, old(entries)@, old(entries)@.len() as int),
        final(entries)@.len() == old(entries)@.len(),
        forall|i: int| #![trigger final(entries)@[i]]
            0 <= i < old(entries)@.len() ==> final(entries)@[i] == used(
                old(entries)@[i],
                rule_hits(after_rules(text@, old(entries)@, i), old(entries)@[i]),
            ),
{
    let ghost before = entries@;
    let mut result = text.to_owned();
    let mut hits: u32 = 0;
    let mut i: usize = 0;
    while i < entries.len()
        invariant
            i <= entries.len(),
            entries@.len() == before.len(),
            result@ == after_rules(text@, before, i as int),
            hits == hits_of_rules(text@, before, i as int),
            forall|k: int| #![trigger entries@[k]]
                i <= k < before.len() ==> entries@[k] == before[k],
            forall|k: int| #![trigger entries@[k]]
                0 <= k < i ==> entries@[k] == used(
                    before[k],
                    rule_hits(after_rules(text@, before, k), before[k]),
                ),
        decreases entries.len() - i,
    {
        let trigger = trimmed(entries[i].trigger.as_str());
        if entries[i].enabled && !trigger.as_str().is_empty() {
            let pattern = build_rule_pattern(&entries[i]);
            let template = rule_template(&entries[i]);
            let n = count_matches(pattern.as_str(), result.as_str());
            let replaced = replace_matches(pattern.as_str(), result.as_str(), template.as_str());
            let (next, entry) = apply_rule(result, &entries[i], n, replaced);
            result = next;
            hits = hits.wrapping_add(n as u32);
            entries.set(i, entry);
        }
        i += 1;
    }
    (result, hits)
}

/// A replacement is written as it stands, `$` and backslash and all: where a rule
/// matches once, its replacement stands between what comes before the match and
/// what comes behind it.
pub proof fn lemma_replacement_is_literal(
    text: Seq<char>,
    e: DictionaryEntry,
    from: usize,
    to: usize,
)
    requires
        from <= to <= text.len(),
    ensures
        rule_result(text, e, seq![(from, to)]) == text.subrange(0, from as int) + e.replacement@
            + text.subrange(to as int, text.len() as int),
{
    let one = seq![(from, to)];
    reveal_with_fuel(pattern::replaced_upto, 2);
    assert(pattern::gap(text, one, 0) =~= text.subrange(0, from as int));
    assert(pattern::gap(text, one, 1) =~= text.subrange(to as int, text.len() as int));
    assert(rule_result(text, e, one) =~= text.subrange(0, from as int) + e.replacement@
        + text.subrange(to as int, text.len() as int));
}

/// A rule that is disabled, or whose trigger is blank, changes nothing.
pub proof fn lemma_inactive_rule(text: Seq<char>, e: DictionaryEntry)
    requires
        !rule_is_active(e),
    ensures
        rule_result(text, e, rule_matches(text, e)) == text,
        used(e, rule_hits(text, e)) == e,
{
}

/// The filler words.
pub const FILLER: &'static str = r"(?i)^(uh+|um+|umm+|uhm+|erm+|hmm+)$";

/// A word without the punctuation around it.
pub open spec fn word_core(w: Seq<char>) -> Seq<char> {
    words::without_ends(w, Class::Punct)
}

/// Whether a word is a filler once the punctuation around it is gone.
pub open spec fn is_filler(w: Seq<char>) -> bool {
    word_core(w).len() > 0 && pattern::found(FILLER@, word_core(w))
}

/// The first `n` words without those that are marked.
pub open spec fn unmarked(ws: Seq<Seq<char>>, marks: Seq<bool>, n: int) -> Seq<Seq<char>>
    decreases n,
{
    if n <= 0 {
        Seq::empty()
    } else if marks[n - 1] {
        unmarked(ws, marks, n - 1)
    } else {
        unmarked(ws, marks, n - 1).push(ws[n - 1])
    }
}

/// Joins the words that are not marked, a space between each two.
pub fn join_unmarked(ws: &Vec<String>, marks: &Vec<bool>) -> (r: String)
    requires
        ws@.len() == marks@.len(),
    ensures
        r@ == words::join(unmarked(chars::texts(ws@), marks@, ws@.len() as int), " "@),
{
    let mut kept: Vec<String> = Vec::new();
    let mut i: usize = 0;
    assert(chars::texts(kept@) =~= unmarked(chars::texts(ws@), marks@, 0));
    while i < ws.len()
        invariant
            i <= ws.len(),
            ws@.len() == marks@.len(),
            chars::texts(kept@) == unmarked(chars::texts(ws@), marks@, i as int),
        decreases ws.len() - i,
    {
        if !marks[i] {
            let ghost before = chars::texts(kept@);
            kept.push(ws[i].clone());
            assert(chars::texts(kept@) =~= before.push(ws@[i as int]@));
        }
        i += 1;
    }
    join_strings(&kept, " ")
}

/// Which words of `ws` are fillers.
pub open spec fn filler_marks(ws: Seq<Seq<char>>) -> Seq<bool> {
    Seq::new(ws.len(), |i: int| is_filler(ws[i]))
}

/// Drops the filler words. Words are split at white space, and what is left is
/// joined by single spaces; a word of punctuation alone stays.
pub fn remove_fillers(text: &str) -> (r: String)
    ensures
        r@ == without_fillers(text@),
{
    let ws = split_words(text);
    let ghost all = words::words(text@);
    assert(ws@.len() == all.len());
    let mut marks: Vec<bool> = Vec::new();
    let mut i: usize = 0;
    while i < ws.len()
        invariant
            i <= ws.len(),
            chars::texts(ws@) == all,
            ws@.len() == all.len(),
            marks@ == filler_marks(all).take(i as int),
        decreases ws.len() - i,
    {
        let core = trim_class(ws[i].as_str(), &Class::Punct);
        assert(all[i as int] == ws@[i as int]@);
        marks.push(!core.as_str().is_empty() && matches_somewhere(FILLER, core.as_str()));
        i += 1;
    }
    assert(filler_marks(all).take(i as int) == filler_marks(all));
    join_unmarked(&ws, &marks)
}

pub proof fn lemma_unmarked(ws: Seq<Seq<char>>, n: int)
    requires
        0 <= n <= ws.len(),
        forall|i: int| 0 <= i < ws.len() ==> words::is_word(#[trigger] ws[i]),
    ensures
        ({
            let kept = unmarked(ws, filler_marks(ws), n);
            forall|i: int| 0 <= i < kept.len() ==> words::is_word(#[trigger] kept[i]) && !is_filler(kept[i])
        }),
    decreases n,
{
    if n > 0 {
        lemma_unmarked(ws, n - 1);
        let before = unmarked(ws, filler_marks(ws), n - 1);
        let kept = unmarked(ws, filler_marks(ws), n);
        assert forall|i: int| 0 <= i < kept.len() implies words::is_word(#[trigger] kept[i]) && !is_filler(kept[i]) by {
            if i < before.len() {
                assert(kept[i] == before[i]);
            } else {
                assert(kept[i] == ws[n - 1]);
            }
        }
    }
}

pub proof fn lemma_nothing_marked(ws: Seq<Seq<char>>, n: int)
    requires
        0 <= n <= ws.len(),
        forall|i: int| 0 <= i < ws.len() ==> !is_filler(#[trigger] ws[i]),
    ensures
        unmarked(ws, filler_marks(ws), n) == ws.take(n),
    decreases n,
{
    if n > 0 {
        lemma_nothing_marked(ws, n - 1);
        assert(!is_filler(ws[n - 1]));
        assert(ws.take(n - 1).push(ws[n - 1]) =~= ws.take(n));
    } else {
        assert(ws.take(0) =~= Seq::empty());
    }
}

/// A text without its fillers.
pub open spec fn without_fillers(text: Seq<char>) -> Seq<char> {
    let ws = words::words(text);
    words::join(unmarked(ws, filler_marks(ws), ws.len() as int), " "@)
}

/// No filler is left behind, and a second pass changes nothing.
pub proof fn lemma_fillers_are_gone(text: Seq<char>)
    ensures
        ({
            let ws = words::words(without_fillers(text));
            forall|i: int| 0 <= i < ws.len() ==> !is_filler(#[trigger] ws[i])
        }),
        without_fillers(without_fillers(text)) == without_fillers(text),
{
    let ws = words::words(text);
    words::lemma_words_are_words(text);
    lemma_unmarked(ws, ws.len() as int);
    let kept = unmarked(ws, filler_marks(ws), ws.len() as int);
    words::lemma_words_of_join(kept);
    lemma_nothing_marked(kept, kept.len() as int);
    assert(kept.take(kept.len() as int) =~= kept);
}

/// White space other than the newline, before a mark.
pub const SPACE_BEFORE_MARK: &'static str = r"[^\S\n]+([,.;:!?])";

/// A run of white space other than newlines.
pub const SPACE_RUN: &'static str = r"[^\S\n]+";

/// Three newlines or more.
pub const NEWLINE_RUN: &'static str = r"\n{3,}";

/// `text` with marks attached to the word before them, white-space runs made
/// one space, more than two newlines made two, and the ends trimmed.
pub open spec fn tidied(text: Seq<char>) -> Seq<char> {
    let a = pattern::replaced(SPACE_BEFORE_MARK@, text, "$1"@);
    let b = pattern::with_each_replaced(a, pattern::matches(SPACE_RUN@, a), " "@);
    let c = pattern::with_each_replaced(b, pattern::matches(NEWLINE_RUN@, b), "\n\n"@);
    words::trim(c)
}

/// Attaches stray spaces before punctuation. Keeps newlines; collapses other
/// white-space runs.
pub fn tidy_punctuation(text: &str) -> (r: String)
    ensures
        r@ == tidied(text@),
{
    proof {
        reveal_strlit(" ");
        reveal_strlit("\n\n");
        pattern::lemma_plain_template(" "@);
        pattern::lemma_plain_template("\n\n"@);
    }
    let a = replace_matches(SPACE_BEFORE_MARK, text, "$1");
    let b = replace_matches(SPACE_RUN, a.as_str(), " ");
    let c = replace_matches(NEWLINE_RUN, b.as_str(), "\n\n");
    trimmed(c.as_str())
}

/// A number, possibly with a sign, brackets and separators.
pub const NUMBER: &'static str = r"(?i)^\+?\(?\d(?:[\d\s.,\-()/:]*\d)?$";

/// An email address.
pub const EMAIL: &'static str = r"(?i)^[^\s@]+@[^\s@]+\.[^\s@]+$";

/// A URL or a host name.
pub const URL: &'static str = r"(?i)^(?:[a-z][a-z0-9+.\-]*://\S+|www\.\S+\.\S+|[a-z0-9\-]+(?:\.[a-z0-9\-]+)*\.[a-z]{2,}(?:[/:?#]\S*)?)$";

/// The trimmed text without its final full stop, where it ends in exactly one
/// and something stands before it.
pub open spec fn period_candidate(text: Seq<char>) -> Option<Seq<char>> {
    let t = words::trim(text);
    if t.len() < 2 || t.last() != '.' || t[t.len() - 2] == '.' {
        None
    } else {
        Some(t.drop_last())
    }
}

/// A single token: no white space and no full stop.
pub open spec fn is_token(s: Seq<char>) -> bool {
    forall|i: int| 0 <= i < s.len() ==> !chars::is_white(#[trigger] s[i]) && s[i] != '.'
}

/// `text` without the final full stop where there is a candidate and it is of
/// some kind that takes none.
pub open spec fn period_stripped(text: Seq<char>, special: bool) -> Seq<char> {
    match period_candidate(text) {
        Some(c) => if special || is_token(c) {
            c
        } else {
            text
        },
        None => text,
    }
}

/// The candidate for losing its final full stop.
pub fn find_period_candidate(text: &str) -> (r: Option<String>)
    ensures
        (match r {
            Some(s) => Some(s@),
            None => None,
        }) == period_candidate(text@),
{
    let t = trimmed(text);
    let cs = to_chars(t.as_str());
    let n = cs.len();
    if n < 2 || cs[n - 1] != '.' || cs[n - 2] == '.' {
        return None;
    }
    assert(cs@.subrange(0, n - 1) == words::trim(text@).drop_last());
    Some(from_range(&cs, 0, n - 1))
}

/// Strips the final full stop of a number, an email, a URL (`special`) or a
/// single token.
pub fn strip_period(text: &str, special: bool) -> (r: String)
    ensures
        r@ == period_stripped(text@, special),
{
    match find_period_candidate(text) {
        None => text.to_owned(),
        Some(c) => {
            let cs = to_chars(c.as_str());
            let mut token = true;
            let mut i: usize = 0;
            while i < cs.len()
                invariant
                    i <= cs.len(),
                    cs@ == c@,
                    token <==> forall|k: int|
                        0 <= k < i ==> !chars::is_white(#[trigger] cs@[k]) && cs@[k] != '.',
                decreases cs.len() - i,
            {
                if white(cs[i]) || cs[i] == '.' {
                    token = false;
                }
                i += 1;
            }
            if special || token {
                c
            } else {
                text.to_owned()
            }
        },
    }
}

/// Whether a candidate is a number, an email or a URL.
pub open spec fn is_special(c: Seq<char>) -> bool {
    pattern::found(NUMBER@, c) || pattern::found(EMAIL@, c) || pattern::found(URL@, c)
}

/// A text without the final full stop that a recognizer puts behind an email, a
/// URL, a number or a single token.
pub open spec fn smartly_ended(text: Seq<char>) -> Seq<char> {
    match period_candidate(text) {
        Some(c) => period_stripped(text, is_special(c)),
        None => text,
    }
}

/// Strips a lone sentence-final full stop when the whole transcript is an
/// email, a URL, a number or a single token.
pub fn smart_trailing_punctuation(text: &str) -> (r: String)
    ensures
        r@ == smartly_ended(text@),
{
    match find_period_candidate(text) {
        None => text.to_owned(),
        Some(c) => {
            let special = matches_somewhere(NUMBER, c.as_str()) || matches_somewhere(
                EMAIL,
                c.as_str(),
            ) || matches_somewhere(URL, c.as_str());
            strip_period(text, special)
        },
    }
}

} // verus!
