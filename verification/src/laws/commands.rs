//! The commands of the user interface.

use crate::chars;
use crate::commands;
use crate::commands::{ModelStatus, ProviderStatus, Status, SystemReport, UpdateInfo};
use crate::hotkey;
use crate::laws::texts;
use crate::models;
use crate::models::EngineKind;
use crate::platform::Platform;
use crate::polish;
use crate::polish::Secrets;
use crate::settings;
use crate::settings::Settings;
use crate::state::AppState;
use crate::text;
use crate::text::{DictionaryEntry, Rule};
use crate::words;
use crate::words::Class;
use vstd::prelude::*;
use vstd::string::*;

verus! {

/// A catalog model that is chosen is the one that listens, on this machine; the rest
/// of the settings and the state stay. An unknown id changes nothing.
pub proof fn lemma_selected(
    before: AppState,
    after: AppState,
    id: Seq<char>,
    r: Result<String, String>,
)
    requires
        commands::is_selected(before, after, id, r),
    ensures
        models::model_named(id) matches Some(m) ==> {
            &&& r matches Ok(msg) && msg@ == "selected "@ + m.name
            &&& settings::speech_id(after.settings) == id
            &&& !settings::is_online(after.settings)
            &&& settings::speech_name(after.settings) == m.name
            &&& after.settings.hotkey_key@ == before.settings.hotkey_key@
            &&& after.settings.llm_backend@ == before.settings.llm_backend@
            &&& after.settings.language@ == before.settings.language@
            &&& after.history == before.history && after.stats == before.stats
        },
        models::model_named(id) is None ==> (r matches Err(e) && e@ == "unknown model: "@ + id)
            && after == before,
{
    reveal_strlit("local");
    reveal_strlit("openai_compat");
    assert("local"@.len() == 5 && "openai_compat"@.len() == 13);
}

/// Deleting the selected model selects the first of the catalog; deleting another
/// leaves the selection.
pub proof fn lemma_model_deleted(
    before: AppState,
    after: AppState,
    id: Seq<char>,
    r: Result<String, String>,
)
    requires
        commands::is_model_deleted(before, after, id, r),
    ensures
        models::model_named(id) matches Some(m) ==> {
            &&& r matches Ok(msg) && msg@ == "deleted "@ + m.name
            &&& before.settings.model_id@ == id ==> after.settings.model_id@
                == models::catalog_info()[0].id
            &&& before.settings.model_id@ != id ==> after.settings.model_id@
                == before.settings.model_id@
            &&& after.settings.audio_backend@ == before.settings.audio_backend@
            &&& after.history == before.history && after.stats == before.stats
        },
        models::model_named(id) is None ==> (r matches Err(e) && e@ == "unknown model: "@ + id)
            && after == before,
{
    models::lemma_default_model();
}

/// A pose is stored at one of the four edges.
pub proof fn lemma_posed(
    before: AppState,
    after: AppState,
    edge: Seq<char>,
    offset: i32,
    r: Result<(), String>,
)
    requires
        commands::is_posed(before, after, edge, offset, r),
    ensures
        edge == "top"@ || edge == "bottom"@ || edge == "left"@ || edge == "right"@ ==> r is Ok
            && after.settings.overlay_edge@ == edge && after.settings.overlay_offset == offset,
        edge != "top"@ && edge != "bottom"@ && edge != "left"@ && edge != "right"@ ==> (r matches Err(
            e,
        ) && e@ == "unknown overlay edge: "@ + edge) && after == before,
        after.history == before.history && after.stats == before.stats,
{
    crate::laws::shell::lemma_edges();
}

/// A rule is found at its first place.
pub proof fn lemma_rule_place(entries: Seq<DictionaryEntry>, id: Seq<char>, i: int, from: int)
    requires
        0 <= from <= i < entries.len(),
        entries[i].id@ == id,
        forall|k: int| from <= k < i ==> (#[trigger] entries[k]).id@ != id,
    ensures
        commands::rule_place(entries, id, from) == Some(i),
    decreases i - from,
{
    if from < i {
        lemma_rule_place(entries, id, i, from + 1);
    }
}

/// An id that no rule has is not found.
pub proof fn lemma_no_rule_place(entries: Seq<DictionaryEntry>, id: Seq<char>, from: int)
    requires
        0 <= from <= entries.len(),
        forall|k: int| from <= k < entries.len() ==> (#[trigger] entries[k]).id@ != id,
    ensures
        commands::rule_place(entries, id, from) is None,
    decreases entries.len() - from,
{
    if from < entries.len() {
        lemma_no_rule_place(entries, id, from + 1);
    }
}

/// Switching a rule changes that rule's switch and nothing else.
pub proof fn lemma_switched(
    before: Seq<DictionaryEntry>,
    after: Seq<DictionaryEntry>,
    id: Seq<char>,
    enabled: bool,
    i: int,
    r: Result<(), &'static str>,
)
    requires
        commands::is_switched(before, after, id, enabled, r),
        0 <= i < before.len(),
        before[i].id@ == id,
        forall|k: int| 0 <= k < i ==> (#[trigger] before[k]).id@ != id,
    ensures
        r is Ok,
        after.len() == before.len(),
        after[i].enabled == enabled,
        after[i].id@ == id && after[i].trigger@ == before[i].trigger@ && after[i].replacement@
            == before[i].replacement@ && after[i].starred == before[i].starred,
        forall|k: int| 0 <= k < before.len() && k != i ==> #[trigger] after[k] == before[k],
{
    lemma_rule_place(before, id, i, 0);
}

/// Starring a rule sets its star, and the rules come out in order.
pub proof fn lemma_starred(
    before: Seq<DictionaryEntry>,
    after: Seq<DictionaryEntry>,
    id: Seq<char>,
    starred: bool,
    i: int,
    r: Result<(), &'static str>,
)
    requires
        commands::is_starred(before, after, id, starred, r),
        0 <= i < before.len(),
        before[i].id@ == id,
        forall|k: int| 0 <= k < i ==> (#[trigger] before[k]).id@ != id,
    ensures
        r is Ok,
        exists|e: DictionaryEntry| #[trigger]
            text::is_sorted_from(before.update(i, e), after) && e.starred == starred && e.id@ == id
                && e.trigger@ == before[i].trigger@ && e.enabled == before[i].enabled,
{
    lemma_rule_place(before, id, i, 0);
    let e = DictionaryEntry { starred, ..before[i] };
    assert(text::is_sorted_from(before.update(i, e), after));
}

/// A rule that is not there can be neither switched nor starred.
pub proof fn lemma_rule_missing(
    before: Seq<DictionaryEntry>,
    after: Seq<DictionaryEntry>,
    id: Seq<char>,
    on: bool,
    r: Result<(), &'static str>,
)
    requires
        commands::is_switched(before, after, id, on, r) || commands::is_starred(
            before,
            after,
            id,
            on,
            r,
        ),
        forall|k: int| 0 <= k < before.len() ==> (#[trigger] before[k]).id@ != id,
    ensures
        r matches Err(e) && e@ == "entry not found"@,
        after == before,
{
    lemma_no_rule_place(before, id, 0);
}

/// Deleting rules keeps the others in their order.
pub proof fn lemma_rules_kept(before: Seq<DictionaryEntry>, e: DictionaryEntry, id: Seq<char>)
    ensures
        ({
            let n = before.len() as int;
            let kept = commands::rules_without(before, id, n);
            let more = commands::rules_without(before.push(e), id, n + 1);
            &&& e.id@ == id ==> more == kept
            &&& e.id@ != id ==> more == kept.push(e)
        }),
        commands::rules_without(Seq::<DictionaryEntry>::empty(), id, 0).len() == 0,
{
    lemma_same_start(before, before.push(e), id, before.len() as int);
}

proof fn lemma_same_start(
    a: Seq<DictionaryEntry>,
    b: Seq<DictionaryEntry>,
    id: Seq<char>,
    n: int,
)
    requires
        0 <= n <= a.len(),
        n <= b.len(),
        forall|k: int| 0 <= k < n ==> a[k] == b[k],
    ensures
        commands::rules_without(a, id, n) == commands::rules_without(b, id, n),
    decreases n,
{
    if n > 0 {
        lemma_same_start(a, b, id, n - 1);
        assert(a[n - 1] == b[n - 1]);
    }
}

/// A rule that is added stands with the rules that were there: its trigger trimmed, its
/// replacement as given, for whole words unless it says otherwise, and a snippet only
/// where it says so.
pub proof fn lemma_added(
    id: Seq<char>,
    p: Seq<char>,
    t: Seq<char>,
    q: Seq<char>,
    replacement: Seq<char>,
    whole_word: Option<bool>,
    kind: Option<&str>,
)
    requires
        texts::all_in(p, Class::White),
        texts::is_core(t, Class::White),
        texts::all_in(q, Class::White),
    ensures
        ({
            let r = commands::added_rule(id, p + t + q, replacement, whole_word, kind);
            &&& r.id == id
            &&& r.trigger == t
            &&& r.replacement == replacement
            &&& whole_word is None ==> r.whole_word
            &&& whole_word matches Some(w) ==> r.whole_word == w
            &&& kind matches Some(k) ==> (k@ == "snippet"@ <==> r.kind == "snippet"@)
            &&& r.kind == "snippet"@ || r.kind == "vocab"@
            &&& kind is None ==> r.kind == "vocab"@
            &&& r.enabled && !r.starred
        }),
{
    texts::lemma_trim_keeps_core(p, t, q, Class::White);
    reveal_strlit("vocab");
    reveal_strlit("snippet");
    assert("vocab"@.len() == 5 && "snippet"@.len() == 7);
}

/// A correction needs something heard and something else to write; it need not differ
/// in more than a letter.
pub proof fn lemma_correction(heard: Seq<char>, written: Seq<char>)
    requires
        texts::is_core(heard, Class::White),
        texts::is_core(written, Class::White),
    ensures
        chars::lower(heard) == chars::lower(written) ==> commands::correction_error(heard, written)
            == Some("correction is the same as what was heard"@),
        chars::lower(heard) != chars::lower(written) ==> commands::correction_error(
            heard,
            written,
        ) is None,
        commands::correction_error(Seq::<char>::empty(), written) == Some(
            "heard text must not be empty"@,
        ),
        commands::correction_error(heard, Seq::<char>::empty()) == Some(
            "correction must not be empty"@,
        ),
{
    let none = Seq::<char>::empty();
    texts::lemma_trim_keeps_core(none, heard, none, Class::White);
    texts::lemma_trim_keeps_core(none, written, none, Class::White);
    assert(none + heard + none =~= heard);
    assert(none + written + none =~= written);
    texts::lemma_trim_takes_all(none, Class::White);
}

/// A correction that is taken is a rule from what was heard to what is written.
pub proof fn lemma_correction_rule(
    entries: Vec<DictionaryEntry>,
    id: &str,
    heard: &str,
    written: &str,
    r: Result<Vec<DictionaryEntry>, &'static str>,
)
    requires
        call_ensures(crate::commands::add_correction, (entries, id, heard, written), r),
        texts::is_core(heard@, Class::White),
        texts::is_core(written@, Class::White),
        chars::lower(heard@) != chars::lower(written@),
    ensures
        r is Ok,
        exists|rule: Rule| #[trigger]
            commands::sorted_out_of(seq![rule] + text::rules(entries@), r->Ok_0@) && rule.id == id@
                && rule.trigger == heard@ && rule.replacement == written@ && rule.whole_word
                && rule.enabled && rule.kind == "vocab"@,
{
    lemma_correction(heard@, written@);
    let none = Seq::<char>::empty();
    texts::lemma_trim_keeps_core(none, heard@, none, Class::White);
    texts::lemma_trim_keeps_core(none, written@, none, Class::White);
    assert(none + heard@ + none =~= heard@);
    assert(none + written@ + none =~= written@);
    let rule = text::fresh_rule(id@, heard@, written@);
    assert(commands::sorted_out_of(seq![rule] + text::rules(entries@), r->Ok_0@));
}

/// What each symbol preset is said and written as.
pub proof fn lemma_presets()
    ensures
        ({
            let p = commands::symbol_presets();
            &&& p.len() == 9
            &&& p[0].0@ == "at sign"@ && p[0].1@ == "@"@
            &&& p[1].0@ == "dot com"@ && p[1].1@ == ".com"@
            &&& p[2].0@ == "dot net"@ && p[2].1@ == ".net"@
            &&& p[3].0@ == "dot org"@ && p[3].1@ == ".org"@
            &&& p[4].0@ == "dot io"@ && p[4].1@ == ".io"@
            &&& p[5].0@ == "hashtag"@ && p[5].1@ == "#"@
            &&& p[6].0@ == "slash"@ && p[6].1@ == "/"@
            &&& p[7].0@ == "underscore"@ && p[7].1@ == "_"@
            &&& p[8].0@ == "dash"@ && p[8].1@ == "-"@
        }),
{
}

/// Presets are added on top, and the rules of the user stay below them in their order.
pub proof fn lemma_presets_keep(rules: Seq<Rule>, ids: Seq<Seq<char>>, n: int)
    requires
        0 <= n <= 9,
    ensures
        ({
            let all = commands::with_presets(rules, ids, n);
            let k = all.len() - rules.len();
            &&& 0 <= k <= n
            &&& all.skip(k) == rules
        }),
    decreases n,
{
    if n > 0 {
        lemma_presets_keep(rules, ids, n - 1);
        let before = commands::with_presets(rules, ids, n - 1);
        let all = commands::with_presets(rules, ids, n);
        if all.len() > before.len() {
            let k = all.len() - rules.len();
            assert(all.skip(k) =~= before.skip(k - 1));
        }
    } else {
        assert(rules.skip(0) =~= rules);
    }
}

/// A preset that the user has no rule for is added as said and written, and one that
/// the user has a rule for is not.
pub proof fn lemma_preset_added(rules: Seq<Rule>, ids: Seq<Seq<char>>, n: int)
    requires
        0 <= n < 9,
    ensures
        ({
            let before = commands::with_presets(rules, ids, n);
            let after = commands::with_presets(rules, ids, n + 1);
            let p = commands::symbol_presets()[n];
            let known = exists|i: int|
                0 <= i < before.len() && (#[trigger] before[i]).kind != "snippet"@ && chars::lower(
                    before[i].trigger,
                ) == chars::lower(p.0@);
            &&& known ==> after == before
            &&& !known ==> after.len() == before.len() + 1 && after[0].trigger == p.0@
                && after[0].replacement == p.1@ && after[0].id == ids[n] && after[0].enabled
                && after[0].whole_word
        }),
{
}

/// A dictionary file of up to a thousand rules is taken rule by rule, in its order.
pub proof fn lemma_imported(
    entries: Vec<DictionaryEntry>,
    ids: &Vec<String>,
    i: int,
    r: Result<Vec<DictionaryEntry>, &'static str>,
)
    requires
        call_ensures(crate::commands::import_dictionary, (entries, ids), r),
        ids@.len() == entries@.len(),
        entries@.len() <= 1000,
        forall|k: int|
            0 <= k < entries@.len() ==> texts::is_core(
                (#[trigger] entries@[k]).trigger@,
                Class::White,
            ),
        0 <= i < entries@.len(),
    ensures
        r matches Ok(v) && v@.len() == entries@.len() && v@[i].id@ == ids@[i]@ && v@[i].trigger@
            == entries@[i].trigger@ && v@[i].replacement@ == entries@[i].replacement@
            && v@[i].enabled == entries@[i].enabled && v@[i].starred == entries@[i].starred
            && v@[i].whole_word == entries@[i].whole_word && v@[i].kind@ == entries@[i].kind@,
{
    let none = Seq::<char>::empty();
    assert forall|k: int| 0 <= k < entries@.len() implies words::trim(
        (#[trigger] entries@[k]).trigger@,
    ) == entries@[k].trigger@ by {
        texts::lemma_trim_keeps_core(none, entries@[k].trigger@, none, Class::White);
        assert(none + entries@[k].trigger@ + none =~= entries@[k].trigger@);
    }
    assert(commands::import_error(entries@) is None);
    if let Ok(v) = r {
        assert(v@[i]@.id == ids@[i]@);
        assert(v@[i]@.trigger == v@[i].trigger@);
    }
}

/// A dictionary file is refused for more than a thousand rules, or a blank trigger.
pub proof fn lemma_import_refused(entries: Seq<DictionaryEntry>, i: int)
    ensures
        entries.len() > 1000 ==> commands::import_error(entries) == Some(
            "dictionary file has more than 1000 rules"@,
        ),
        entries.len() <= 1000 && 0 <= i < entries.len() && texts::all_in(
            entries[i].trigger@,
            Class::White,
        ) ==> commands::import_error(entries) == Some("dictionary file contains an empty trigger"@),
{
    if 0 <= i < entries.len() && texts::all_in(entries[i].trigger@, Class::White) {
        texts::lemma_trim_takes_all(entries[i].trigger@, Class::White);
        assert(words::trim(entries[i].trigger@).len() == 0);
    }
}

/// An update is there where the release, without its `v`, is another version.
pub proof fn lemma_update(current: &str, tag: &str, url: &str, r: UpdateInfo)
    requires
        call_ensures(crate::commands::update_info, (current, tag, url), r),
        current@.len() > 0 ==> current@[0] != 'v',
    ensures
        tag@ == seq!['v'] + current@ || tag@ == current@ ==> !r.available,
        r.configured,
        r.current@ == current@,
        r.latest matches Some(l) && l@ == tag@,
        r.url matches Some(u) && u@ == url@,
{
    let none = Seq::<char>::empty();
    texts::lemma_start_trimmed(seq!['v'], current@, Class::Only('v'));
    texts::lemma_start_trimmed(none, current@, Class::Only('v'));
    assert(none + current@ =~= current@);
}

/// A release with another version is an update.
pub proof fn lemma_newer(current: &str, tag: &str, url: &str, v: Seq<char>, r: UpdateInfo)
    requires
        call_ensures(crate::commands::update_info, (current, tag, url), r),
        v.len() > 0 ==> v[0] != 'v',
        v != current@,
        tag@ == v || tag@ == seq!['v'] + v,
    ensures
        r.available,
{
    let none = Seq::<char>::empty();
    texts::lemma_start_trimmed(seq!['v'], v, Class::Only('v'));
    texts::lemma_start_trimmed(none, v, Class::Only('v'));
    assert(none + v =~= v);
}

/// The keys that are shown are each masked on its own.
pub proof fn lemma_providers(s: &Secrets, r: ProviderStatus)
    requires
        call_ensures(crate::commands::get_provider_status, (s,), r),
    ensures
        r.audio_key_masked@ == polish::masked(s.audio_api_key@),
        r.llm_key_masked@ == polish::masked(s.llm_api_key@),
        texts::all_in(s.audio_api_key@, Class::White) ==> !r.has_audio_key,
        texts::all_in(s.llm_api_key@, Class::White) ==> !r.has_llm_key,
        texts::is_core(s.audio_api_key@, Class::White) ==> r.has_audio_key,
        texts::is_core(s.llm_api_key@, Class::White) ==> r.has_llm_key,
{
    lemma_has_text(s.audio_api_key@);
    lemma_has_text(s.llm_api_key@);
}

proof fn lemma_has_text(s: Seq<char>)
    ensures
        texts::all_in(s, Class::White) ==> words::trim(s).len() == 0,
        texts::is_core(s, Class::White) ==> words::trim(s) == s,
{
    let none = Seq::<char>::empty();
    if texts::all_in(s, Class::White) {
        texts::lemma_trim_takes_all(s, Class::White);
    }
    if texts::is_core(s, Class::White) {
        texts::lemma_trim_keeps_core(none, s, none, Class::White);
        assert(none + s + none =~= s);
    }
}

/// What is told about a test of the audio host: a host that heard nothing is there.
pub proof fn lemma_audio_test(t: &str, p: Seq<char>, q: Seq<char>)
    ensures
        texts::all_in(t@, Class::White) ==> commands::audio_test(Ok(t)) == Ok::<
            Seq<char>,
            Seq<char>,
        >("Audio API accepted the clip (empty transcript — speak louder)"@),
        texts::is_core(t@, Class::White) ==> commands::audio_test(Ok(t)) == Ok::<
            Seq<char>,
            Seq<char>,
        >("Audio API heard: "@ + settings::truncated(t@, 80)),
        t@ == p + "empty audio transcript"@ + q ==> commands::audio_test(Err(t)) == Ok::<
            Seq<char>,
            Seq<char>,
        >("Audio API accepted the clip (empty transcript — speak louder)"@),
        (forall|k: int| !words::occurs_at(t@, "empty audio transcript"@, k))
            ==> commands::audio_test(Err(t)) == Err::<Seq<char>, Seq<char>>(t@),
{
    lemma_has_text(t@);
    let m = "empty audio transcript"@;
    if t@ == p + m + q {
        assert(t@.subrange(p.len() as int, (p.len() + m.len()) as int) =~= m);
        assert(words::occurs_at(t@, m, p.len() as int));
    }
}

/// The newest text is what is copied or pasted, whole.
pub proof fn lemma_again(
    s: &AppState,
    copied: Result<(String, String), &'static str>,
    pasted: Result<(String, String), &'static str>,
)
    requires
        call_ensures(crate::commands::copy_last, (s,), copied),
        call_ensures(crate::commands::paste_last, (s,), pasted),
    ensures
        s.history@.len() == 0 ==> copied is Err && pasted is Err,
        s.history@.len() > 0 && s.history@[0].text@.len() > 0 ==> {
            let t = s.history@[0].text@;
            &&& copied matches Ok(c) && c.0@ == t && c.1@ == "copied: "@ + settings::truncated(t, 80)
            &&& pasted matches Ok(c) && c.0@ == t && c.1@ == "pasted: "@ + settings::truncated(t, 80)
        },
        copied matches Err(e) ==> e@ == "nothing to copy — dictate first"@,
        pasted matches Err(e) ==> e@ == "nothing to paste — dictate first"@,
{
}

/// Whether a text is made of ASCII letters and digits.
pub open spec fn is_letters(s: Seq<char>) -> bool {
    forall|i: int|
        0 <= i < s.len() ==> chars::is_ascii_letter(#[trigger] s[i]) || chars::is_digit(s[i])
}

/// A name that reaches out of its directory is not taken.
pub proof fn lemma_file_name(p: Seq<char>, q: Seq<char>)
    ensures
        !commands::is_plain_name(p + seq!['/'] + q),
        !commands::is_plain_name(p + seq!['\\'] + q),
        !commands::is_plain_name(p + seq![':'] + q),
        !commands::is_plain_name(p + seq!['.', '.'] + q),
        is_letters(p) ==> commands::is_plain_name(p),
{
    let n = p.len() as int;
    assert((p + seq!['/'] + q)[n] == '/');
    assert((p + seq!['\\'] + q)[n] == '\\');
    assert((p + seq![':'] + q)[n] == ':');
    reveal_strlit("..");
    let s = p + seq!['.', '.'] + q;
    assert(s.subrange(n, n + 2) =~= ".."@);
    assert(words::occurs_at(s, ".."@, n));
    if is_letters(p) && words::contains(p, ".."@) {
        let k = choose|k: int| words::occurs_at(p, ".."@, k);
        assert(p.subrange(k, k + 2)[0] == p[k]);
    }
}

/// The state that is shown is that of the app and of its model.
pub proof fn lemma_status(s: &AppState, sys: SystemReport, r: Status)
    requires
        call_ensures(crate::commands::get_status, (s, sys), r),
    ensures
        r.recording == s.recording,
        r.transcribing == s.transcribing,
        r.model_id@ == s.settings.model_id@,
        r.recommended_model@ == models::catalog_info()[0].id,
        models::model_named(s.settings.model_id@) matches Some(m) ==> r.engine == m.engine
            && r.model_loaded == sys.downloaded,
        models::model_named(s.settings.model_id@) is None ==> r.engine == EngineKind::Whisper
            && !r.model_loaded,
        s.settings.audio_backend@ == "openai_compat"@ ==> r.speech_source@ == "online"@,
        s.settings.audio_backend@ != "openai_compat"@ ==> r.speech_source@ == "local"@
            && r.speech_ready == r.model_loaded && r.speech_model@ == s.settings.model_id@,
        r.version == sys.version,
        r.data_dir == sys.data_dir,
        r.audio_device == sys.audio_device,
        r.whisper_binary == sys.whisper_binary,
{
    models::lemma_default_model();
}

/// One model is in use where speech comes from the machine, and none where it comes
/// from a host.
pub proof fn lemma_models_shown(s: &AppState, downloaded: &Vec<bool>, r: Vec<ModelStatus>, i: int)
    requires
        call_ensures(crate::commands::get_models, (s, downloaded), r),
        downloaded@.len() == models::catalog_info().len(),
        0 <= i < models::catalog_info().len(),
    ensures
        r@.len() == models::catalog_info().len(),
        r@[i].entry@ == models::catalog_info()[i],
        r@[i].downloaded == downloaded@[i],
        s.settings.audio_backend@ == "openai_compat"@ ==> !r@[i].active,
        s.settings.audio_backend@ != "openai_compat"@ ==> (r@[i].active <==> s.settings.model_id@
            == models::catalog_info()[i].id),
        r@[i].downloading <==> chars::texts(s.downloading@).contains(models::catalog_info()[i].id),
{
    assert(commands::shows_model(r@[i], models::catalog_info()[i], *s, downloaded@[i]));
}

/// Only a Parakeet model that is there is loaded ahead, and only where it is new.
pub proof fn lemma_warm(id: &str, old_id: &str, downloaded: bool, r: bool)
    requires
        call_ensures(crate::commands::warms_up, (id, old_id, downloaded), r),
    ensures
        id@ == old_id@ ==> !r,
        !downloaded ==> !r,
        models::model_named(id@) is None ==> !r,
        models::model_named(id@) matches Some(m) ==> (m.engine == EngineKind::Whisper ==> !r),
        models::model_named(id@) matches Some(m) ==> (m.engine == EngineKind::Parakeet && downloaded
            && id@ != old_id@ ==> r),
{
}

/// Settings are accepted where each of their names is known and both shortcuts are.
pub proof fn lemma_accepted(s: Settings, platform: Platform)
    ensures
        commands::settings_error(s, platform) is None <==> {
            let key = settings::native_key(s.hotkey_key@, platform);
            &&& models::model_named(s.model_id@) is Some
            &&& hotkey::is_talk_key(key, platform) || hotkey::is_combo_key(key)
            &&& s.recording_mode@ == "hold"@ || s.recording_mode@ == "toggle"@ || s.recording_mode@
                == "double_tap"@
            &&& s.audio_backend@ == "local"@ || s.audio_backend@ == "openai_compat"@
            &&& s.llm_backend@ == "off"@ || s.llm_backend@ == "local"@ || s.llm_backend@
                == "openai_compat"@ || s.llm_backend@ == "anthropic"@
            &&& s.overlay_edge@ == "top"@ || s.overlay_edge@ == "bottom"@ || s.overlay_edge@
                == "left"@ || s.overlay_edge@ == "right"@
            &&& hotkey::utility_key(s.paste_last_key@, s.copy_last_key@) is Ok
            &&& hotkey::utility_key(s.copy_last_key@, s.paste_last_key@) is Ok
        },
        models::model_named(s.model_id@) is None ==> commands::settings_error(s, platform) == Some(
            "unknown model: "@ + s.model_id@,
        ),
{
    crate::laws::shell::lemma_edges();
}

/// What accepted settings keep: all but the talk key, the shortcuts and a preset that
/// is not known.
pub proof fn lemma_accepted_keeps(before: Settings, after: Settings, platform: Platform)
    requires
        commands::is_accepted(before, after, platform),
    ensures
        after.model_id@ == before.model_id@,
        after.language@ == before.language@,
        after.cleanup@ == before.cleanup@,
        after.auto_paste == before.auto_paste,
        after.translate == before.translate,
        after.recording_mode@ == before.recording_mode@,
        after.audio_device == before.audio_device,
        after.overlay_enabled == before.overlay_enabled,
        after.overlay_edge@ == before.overlay_edge@,
        after.overlay_offset == before.overlay_offset,
        after.onboarded == before.onboarded,
        after.session_cap == before.session_cap,
        after.audio_backend@ == before.audio_backend@ && after.llm_backend@ == before.llm_backend@,
        after.audio_api_base@ == before.audio_api_base@ && after.llm_api_base@
            == before.llm_api_base@,
        after.llm_timeout_ms == before.llm_timeout_ms,
        after.llm_enabled == before.llm_enabled,
        polish::is_preset(before.llm_preset@) ==> after.llm_preset@ == before.llm_preset@,
        !polish::is_preset(before.llm_preset@) ==> after.llm_preset@ == "clean"@,
        after.hotkey_key@ == settings::native_key(before.hotkey_key@, platform),
{
}

/// Ending a download keeps the others under way in their order.
pub proof fn lemma_download_ends(ids: Seq<Seq<char>>, last: Seq<char>, id: Seq<char>)
    ensures
        ({
            let n = ids.len() as int;
            let kept = commands::ids_without(ids, id, n);
            let more = commands::ids_without(ids.push(last), id, n + 1);
            &&& last == id ==> more == kept
            &&& last != id ==> more == kept.push(last)
        }),
        commands::ids_without(Seq::<Seq<char>>::empty(), id, 0).len() == 0,
{
    lemma_same_ids(ids, ids.push(last), id, ids.len() as int);
}

proof fn lemma_same_ids(a: Seq<Seq<char>>, b: Seq<Seq<char>>, id: Seq<char>, n: int)
    requires
        0 <= n <= a.len(),
        n <= b.len(),
        forall|k: int| 0 <= k < n ==> a[k] == b[k],
    ensures
        commands::ids_without(a, id, n) == commands::ids_without(b, id, n),
    decreases n,
{
    if n > 0 {
        lemma_same_ids(a, b, id, n - 1);
        assert(a[n - 1] == b[n - 1]);
    }
}

} // verus!
