//! Dictionary, fillers, punctuation, spoken commands, lists and backtrack.

use dictflow::format::{
    apply_backtrack, apply_lists, apply_offline_format, apply_spoken_commands, discard_clauses,
    list_parts, marker_index, replacement_for, speak_out,
};
use dictflow::text::{
    apply_dictionary, apply_rule, join_unmarked, remove_fillers, smart_trailing_punctuation,
    sort_dictionary, strip_period, tidy_punctuation, word_count, DictionaryEntry,
};

fn chars_of(s: &str) -> Vec<char> {
    s.chars().collect()
}

#[test]
fn word_count_splits_on_whitespace() {
    assert_eq!(word_count("one two  three"), 3);
    assert_eq!(word_count("  "), 0);
}

#[test]
fn dictionary_replaces_whole_words_case_insensitively() {
    let mut entries = vec![DictionaryEntry::new("1", "my email", "a@b.com")];
    assert_eq!(
        apply_dictionary("contact MY EMAIL please", &mut entries).0,
        "contact a@b.com please"
    );
    assert_eq!(entries[0].usage, 1);
    let mut entries = vec![DictionaryEntry::new("1", "fig", "FigJam")];
    assert_eq!(apply_dictionary("a figment", &mut entries).0, "a figment");
    let mut entries = vec![DictionaryEntry::new("1", "my email", "a@b.com")];
    let (out, hits) = apply_dictionary("contact MY EMAIL please", &mut entries);
    assert_eq!(out, "contact a@b.com please");
    assert_eq!(hits, 1);
}

#[test]
fn fillers_removed_tidy_kept_separate() {
    assert_eq!(remove_fillers("Um, let's go"), "let's go");
    assert_eq!(remove_fillers("well uh yeah"), "well yeah");
    assert_eq!(remove_fillers("the hum of uh-huh"), "the hum of uh-huh");
    assert_eq!(tidy_punctuation("hello , world !"), "hello, world!");
}

#[test]
fn smart_punctuation_strips_dot_after_email() {
    assert_eq!(
        smart_trailing_punctuation("mail me at a@b.com."),
        "mail me at a@b.com."
    );
    assert_eq!(smart_trailing_punctuation("a@b.com."), "a@b.com");
    assert_eq!(smart_trailing_punctuation("Hello world."), "Hello world.");
}

#[test]
fn sort_stars_then_usage() {
    let mut entries = vec![
        DictionaryEntry::new("1", "zeta", "z"),
        DictionaryEntry::new("2", "alpha", "a"),
    ];
    entries[0].usage = 3;
    entries[1].starred = true;
    sort_dictionary(&mut entries);
    assert_eq!(entries[0].id, "2");
    assert_eq!(entries[1].id, "1");
}

#[test]
fn sort_is_stable_and_ignores_case() {
    let mut entries = vec![
        DictionaryEntry::new("1", "beta", ""),
        DictionaryEntry::new("2", "ALPHA", ""),
        DictionaryEntry::new("3", "alpha", ""),
        DictionaryEntry::new("4", "Beta", ""),
    ];
    entries[3].usage = 1;
    sort_dictionary(&mut entries);
    let ids: Vec<&str> = entries.iter().map(|e| e.id.as_str()).collect();
    assert_eq!(ids, vec!["4", "2", "3", "1"]);
}

#[test]
fn dictionary_dollar_is_literal_and_disabled_rules_rest() {
    let mut entries = vec![
        DictionaryEntry::new("1", "price", "$1.00"),
        DictionaryEntry::new("2", "off", "on"),
        DictionaryEntry::new("3", "   ", "blank"),
    ];
    entries[1].enabled = false;
    let (out, hits) = apply_dictionary("price off", &mut entries);
    assert_eq!(out, "$1.00 off");
    assert_eq!(hits, 1);
    assert_eq!(entries[0].usage, 1);
    assert_eq!(entries[1].usage, 0);
    assert_eq!(entries[2].usage, 0);
}

#[test]
fn dictionary_backslash_stays() {
    let mut entries = vec![DictionaryEntry::new("1", "root", r"C:\dev")];
    assert_eq!(apply_dictionary("root", &mut entries), (r"C:\dev".to_owned(), 1));
    let mut entries = vec![DictionaryEntry::new("1", "share", r"\\host\d")];
    assert_eq!(apply_dictionary("my share", &mut entries).0, r"my \\host\d");
}

#[test]
fn dictionary_trigger_spaces_match_any_run() {
    let mut entries = vec![DictionaryEntry::new("1", "new york", "NYC")];
    let (out, hits) = apply_dictionary("New\n  York and new york", &mut entries);
    assert_eq!(out, "NYC and NYC");
    assert_eq!(hits, 2);
}

#[test]
fn dictionary_meta_characters_are_escaped() {
    let mut entries = vec![DictionaryEntry::new("1", "c++", "cpp")];
    assert_eq!(apply_dictionary("use C++ or ccc", &mut entries).0, "use cpp or ccc");
}

#[test]
fn dictionary_without_whole_word_matches_inside() {
    let mut entries = vec![DictionaryEntry::new("1", "fig", "F")];
    entries[0].whole_word = false;
    assert_eq!(apply_dictionary("a figment", &mut entries).0, "a Fment");
}

#[test]
fn dictionary_replacement_is_literal() {
    let mut entries = vec![DictionaryEntry::new("1", "path", r"C:\x $$ ${1} $0")];
    assert_eq!(
        apply_dictionary("the path.", &mut entries),
        (r"the C:\x $$ ${1} $0.".to_owned(), 1)
    );
}

#[test]
fn one_rule_with_known_matches() {
    let mut e = DictionaryEntry::new("1", "b", "XY");
    e.usage = u32::MAX;
    let (out, after) = apply_rule("abab".to_owned(), &e, 2, "aXYaXY".to_owned());
    assert_eq!(out, "aXYaXY");
    assert_eq!(after.usage, u32::MAX);
    e.usage = 3;
    assert_eq!(apply_rule("b".to_owned(), &e, 1, "XY".to_owned()).1.usage, 4);
    let (out, after) = apply_rule("abab".to_owned(), &e, 0, "x".to_owned());
    assert_eq!(out, "abab");
    assert_eq!(after.usage, 3);
}

#[test]
fn fillers_a_second_pass_changes_nothing() {
    let once = remove_fillers("um so, UHM I hmmm guess ... erm");
    assert_eq!(once, "so, I guess ...");
    assert_eq!(remove_fillers(&once), once);
}

#[test]
fn marked_words_are_left_out() {
    let ws: Vec<String> = vec!["a".to_owned(), "b".to_owned(), "c".to_owned()];
    assert_eq!(join_unmarked(&ws, &vec![false, true, false]), "a c");
    assert_eq!(join_unmarked(&ws, &vec![true, true, true]), "");
}

#[test]
fn tidy_keeps_newlines_and_limits_them() {
    assert_eq!(tidy_punctuation("  a\t b\n\n\n\nc  "), "a b\n\nc");
    assert_eq!(tidy_punctuation("one\ntwo"), "one\ntwo");
}

#[test]
fn smart_punctuation_kinds() {
    assert_eq!(smart_trailing_punctuation("www.example.com."), "www.example.com");
    assert_eq!(smart_trailing_punctuation("+1 (555) 010-0000."), "+1 (555) 010-0000");
    assert_eq!(smart_trailing_punctuation("  Hello.  "), "Hello");
    assert_eq!(smart_trailing_punctuation("wait.."), "wait..");
    assert_eq!(smart_trailing_punctuation("."), ".");
    assert_eq!(smart_trailing_punctuation("no stop"), "no stop");
    assert_eq!(strip_period("two words.", true), "two words");
    assert_eq!(strip_period("two words.", false), "two words.");
}

#[test]
fn default_rule_is_vocab() {
    let e = DictionaryEntry::new("1", "a", "b");
    assert_eq!(e.kind, "vocab");
    assert!(!e.starred);
    assert_eq!(e.usage, 0);
    assert!(!e.is_snippet());
    let mut snip = DictionaryEntry::new("2", "sign off", "Best regards");
    snip.kind = "snippet".to_owned();
    assert!(snip.is_snippet());
}

#[test]
fn spoken_period_and_comma() {
    assert_eq!(
        apply_spoken_commands("hello comma world period"),
        "hello, world."
    );
}

#[test]
fn spoken_newline_and_paragraph() {
    let out = apply_spoken_commands("first new line second new paragraph third");
    assert_eq!(out, "first\nsecond\n\nthird");
}

#[test]
fn spoken_does_not_eat_partial_words() {
    assert_eq!(apply_spoken_commands("periodic table"), "periodic table");
    assert_eq!(apply_spoken_commands("commander"), "commander");
}

#[test]
fn list_from_one_two_three() {
    assert_eq!(
        apply_lists("one buy milk two call mom three send email"),
        "1. buy milk\n2. call mom\n3. send email"
    );
}

#[test]
fn list_ignores_prose_numbers() {
    assert_eq!(
        apply_lists("I have one apple and two friends"),
        "I have one apple and two friends"
    );
}

#[test]
fn list_from_first_second() {
    assert_eq!(
        apply_lists("first wash dishes second take out trash"),
        "1. wash dishes\n2. take out trash"
    );
}

#[test]
fn bullet_list() {
    assert_eq!(apply_lists("bullet milk bullet eggs"), "- milk\n- eggs");
}

#[test]
fn scratch_that_drops_clause() {
    assert_eq!(
        apply_backtrack("hello world scratch that goodbye"),
        "goodbye"
    );
    assert_eq!(
        apply_backtrack("Keep this. Wrong take scratch that Right take"),
        "Keep this. Right take"
    );
}

#[test]
fn actually_rewrites_number_not_enjoyed() {
    assert_eq!(
        apply_backtrack("the meeting is at 5 actually 3"),
        "the meeting is at 3"
    );
    assert_eq!(
        apply_backtrack("I actually enjoyed it"),
        "I actually enjoyed it"
    );
}

#[test]
fn i_mean_replaces_previous_word() {
    assert_eq!(
        apply_backtrack("the color is blue I mean red"),
        "the color is red"
    );
}

#[test]
fn pipeline_spoken_then_list() {
    let out = apply_offline_format("one milk comma two eggs period");
    assert_eq!(out, "1. milk,\n2. eggs.");
}

#[test]
fn spoken_longer_phrase_wins() {
    assert_eq!(apply_spoken_commands("20 degrees celsius"), "20 °C");
    assert_eq!(apply_spoken_commands("20 degrees"), "20 °");
    assert_eq!(apply_spoken_commands("5 Percent  Sign"), "5 %");
}

#[test]
fn spoken_brackets_hug_their_text() {
    assert_eq!(
        apply_spoken_commands("say open quote hi close quote now"),
        "say\"hi\"now"
    );
    assert_eq!(
        apply_spoken_commands("f open parenthesis x close parenthesis"),
        "f (x)"
    );
}

#[test]
fn spoken_phrase_lookup() {
    assert_eq!(replacement_for("New\n Line"), "\n");
    assert_eq!(replacement_for("ELLIPSIS"), "…");
    assert_eq!(replacement_for("not a command"), "not a command");
}

#[test]
fn spoken_at_known_places() {
    assert_eq!(speak_out(&chars_of("a comma b"), &vec![(2, 7)]), "a, b");
    assert_eq!(speak_out(&chars_of("a dash b"), &vec![(2, 6)]), "a - b");
    assert_eq!(speak_out(&chars_of("plain"), &vec![]), "plain");
}

#[test]
fn list_markers_carry_punctuation() {
    let family = vec!["one", "two", "three"];
    assert_eq!(marker_index("Two,", &family), Some(1));
    assert_eq!(marker_index("four", &family), None);
    assert_eq!(apply_lists("One: milk. TWO: eggs"), "1. milk.\n2. eggs");
}

#[test]
fn list_needs_two_items_in_order() {
    assert_eq!(apply_lists("one milk"), "one milk");
    assert_eq!(apply_lists("one two milk"), "one two milk");
    assert_eq!(apply_lists("one milk three eggs"), "one milk three eggs");
    assert_eq!(apply_lists("one a two"), "one a two");
    assert_eq!(apply_lists("one a two b two c"), "1. a\n2. b two c");
    assert_eq!(apply_lists(""), "");
}

#[test]
fn bullet_list_edges() {
    assert_eq!(apply_lists("bullet milk"), "bullet milk");
    assert_eq!(apply_lists("Bullet\nmilk Bullet eggs"), "- milk\n- eggs");
    assert_eq!(list_parts(&chars_of("x|y| "), &vec![(1, 2), (3, 4)]), Some("- x\n- y".to_owned()));
    assert_eq!(list_parts(&chars_of("x"), &vec![]), None);
}

#[test]
fn discarded_clause_leaves_the_mark_before_it() {
    assert_eq!(discard_clauses(&chars_of("A. b c"), &vec![(1, 5)]), "A. c");
    assert_eq!(discard_clauses(&chars_of("b c"), &vec![(0, 2)]), "c");
    assert_eq!(apply_backtrack("Good! bad never mind ok"), "Good! ok");
}

#[test]
fn pronoun_before_i_mean_stays() {
    assert_eq!(apply_backtrack("ask him I mean her"), "ask her");
    assert_eq!(apply_backtrack("he I mean she left"), "he I mean she left");
    assert_eq!(apply_backtrack("I mean it"), "I mean it");
}

#[test]
fn actually_at_an_end_stays() {
    assert_eq!(apply_backtrack("actually yes"), "actually yes");
    assert_eq!(apply_backtrack("that is it actually"), "that is it actually");
}
