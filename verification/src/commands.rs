//! What the commands of the user interface do.

use crate::chars;
use crate::chars::{cat, cat3, eq_ignore_case, str_eq};
use crate::devices;
use crate::devices::blank_audio;
use crate::hotkey;
use crate::hotkey::{hotkey_vks, validate_utility_key};
use crate::models;
use crate::models::{catalog, default_model_id, find, EngineKind, ModelEntry};
use crate::onboarding::recommended_model_id;
use crate::overlay;
use crate::overlay::{snap_to_edge, DockEdge, OverlayPose, BOTTOM_MARGIN, MARGIN, PILL_H, PILL_W};
use crate::platform::Platform;
use crate::polish;
use crate::polish::{holds_char, known_preset, mask_key, Secrets};
use crate::settings;
use crate::settings::{
    active_speech_engine_label, active_speech_id, active_speech_name, active_speech_ready,
    active_speech_source, is_online_audio, normalize_talk_key, truncate, Settings,
};
use crate::shortcuts;
use crate::shortcuts::format_shortcut;
use crate::state::AppState;
use crate::text;
use crate::text::{sort_dictionary, DictionaryEntry, Rule};
use crate::words;
use crate::words::{has_text, number, trim_start_class, trimmed, Class};
use vstd::prelude::*;
use vstd::string::*;

verus! {

/// The state of the app, as the user interface shows it.
#[derive(Debug)]
pub struct Status {
    pub recording: bool,
    pub model_id: String,
    pub engine: EngineKind,
    pub engine_label: String,
    pub model_loaded: bool,
    pub whisper_binary: Option<String>,
    pub data_dir: String,
    pub audio_device: Option<String>,
    pub version: String,
    pub recommended_model: String,
    pub transcribing: bool,
    /// "local" or "online".
    pub speech_source: String,
    pub speech_model: String,
    pub speech_model_name: String,
    pub speech_ready: bool,
}

/// What the system reports for the status.
#[derive(Debug)]
pub struct SystemReport {
    pub whisper_binary: Option<String>,
    pub data_dir: String,
    pub audio_device: Option<String>,
    pub version: String,
    /// The files of the selected model are there.
    pub downloaded: bool,
}

pub fn get_status(state: &AppState, sys: SystemReport) -> (r: Status)
    ensures
        r.recording == state.recording,
        r.model_id@ == state.settings.model_id@,
        r.engine == (match models::model_named(state.settings.model_id@) {
            Some(m) => m.engine,
            None => EngineKind::Whisper,
        }),
        r.engine_label@ == settings::speech_engine(state.settings),
        r.model_loaded == (models::model_named(state.settings.model_id@) is Some
            && sys.downloaded),
        r.whisper_binary == sys.whisper_binary,
        r.data_dir == sys.data_dir,
        r.audio_device == sys.audio_device,
        r.version == sys.version,
        r.recommended_model@ == "parakeet-v3"@,
        r.transcribing == state.transcribing,
        r.speech_source@ == (if settings::is_online(state.settings) {
            "online"@
        } else {
            "local"@
        }),
        r.speech_model@ == settings::speech_id(state.settings),
        r.speech_model_name@ == settings::speech_name(state.settings),
        r.speech_ready == (if settings::is_online(state.settings) {
            words::trim(state.settings.audio_api_model@).len() > 0
        } else {
            r.model_loaded
        }),
{
    let s = &state.settings;
    let (engine, known) = match find(s.model_id.as_str()) {
        Some(m) => (m.engine, true),
        None => (EngineKind::Whisper, false),
    };
    Status {
        recording: state.recording,
        model_id: s.model_id.clone(),
        engine,
        engine_label: active_speech_engine_label(s),
        model_loaded: known && sys.downloaded,
        whisper_binary: sys.whisper_binary,
        data_dir: sys.data_dir,
        audio_device: sys.audio_device,
        version: sys.version,
        recommended_model: recommended_model_id().to_owned(),
        transcribing: state.transcribing,
        speech_source: active_speech_source(s).to_owned(),
        speech_model: active_speech_id(s),
        speech_model_name: active_speech_name(s),
        speech_ready: active_speech_ready(s, sys.downloaded),
    }
}

/// A catalog entry, as the user interface shows it.
#[derive(Debug)]
pub struct ModelStatus {
    pub entry: ModelEntry,
    pub downloaded: bool,
    pub active: bool,
    pub downloading: bool,
}

/// `row` shows the catalog entry `m`.
pub open spec fn shows_model(
    row: ModelStatus,
    m: models::ModelInfo,
    state: AppState,
    downloaded: bool,
) -> bool {
    &&& row.entry@ == m
    &&& row.downloaded == downloaded
    &&& row.active == (!settings::is_online(state.settings) && m.id == state.settings.model_id@)
    &&& row.downloading == chars::texts(state.downloading@).contains(m.id)
}

/// The catalog with the state of each model. `downloaded` says of each, in the
/// order of the catalog, whether its files are there.
pub fn get_models(state: &AppState, downloaded: &Vec<bool>) -> (r: Vec<ModelStatus>)
    requires
        downloaded@.len() == models::catalog_info().len(),
    ensures
        r@.len() == models::catalog_info().len(),
        forall|i: int| 0 <= i < r@.len() ==> shows_model(
            #[trigger] r@[i],
            models::catalog_info()[i],
            *state,
            downloaded@[i],
        ),
{
    let mut all = catalog();
    let ghost infos = models::catalog_info();
    let mut out: Vec<ModelStatus> = Vec::new();
    let online = is_online_audio(&state.settings);
    assert(all@.len() == infos.len());
    let n = all.len();
    let mut i: usize = n;
    while i > 0
        invariant
            i <= n,
            n == infos.len(),
            downloaded@.len() == infos.len(),
            infos == models::catalog_info(),
            all@.len() == i,
            models::model_infos(all@) == infos.take(i as int),
            online == settings::is_online(state.settings),
            out@.len() == n - i,
            forall|k: int| 0 <= k < out@.len() ==> shows_model(
                #[trigger] out@[k],
                infos[i + k],
                *state,
                downloaded@[i + k],
            ),
        decreases i,
    {
        i -= 1;
        let ghost before = all@;
        assert(infos.take(i + 1)[i as int] == before[i as int]@);
        let entry = all.swap_remove(i);
        assert(models::model_infos(all@) =~= infos.take(i as int)) by {
            assert forall|k: int| 0 <= k < i implies models::model_infos(all@)[k] == infos[k] by {
                assert(all@[k] == before[k]);
                assert(models::model_infos(before)[k] == infos.take(i + 1)[k]);
            }
        }
        let active = !online && str_eq(entry.id.as_str(), state.settings.model_id.as_str());
        let downloading = crate::devices::lists_name(&state.downloading, entry.id.as_str());
        let ghost rows = out@;
        out.insert(0, ModelStatus { entry, downloaded: downloaded[i], active, downloading });
        assert forall|k: int| 0 <= k < out@.len() implies shows_model(
            #[trigger] out@[k],
            infos[i + k],
            *state,
            downloaded@[i + k],
        ) by {
            if k > 0 {
                assert(out@[k] == rows[k - 1]);
            }
        }
    }
    out
}

/// Whether a model is loaded ahead of the first take: a Parakeet model that is
/// there.
pub open spec fn is_preloaded(id: Seq<char>, downloaded: bool) -> bool {
    models::model_named(id) matches Some(m) && m.engine == EngineKind::Parakeet && downloaded
}

pub fn preloads(id: &str, downloaded: bool) -> (r: bool)
    ensures
        r == is_preloaded(id@, downloaded),
{
    match find(id) {
        Some(m) => m.engine == EngineKind::Parakeet && downloaded,
        None => false,
    }
}

/// What the choice of a catalog model does, and what is told about it.
pub open spec fn is_selected(
    before: AppState,
    after: AppState,
    id: Seq<char>,
    r: Result<String, String>,
) -> bool {
    match models::model_named(id) {
        Some(m) => {
            &&& r matches Ok(msg) && msg@ == "selected "@ + m.name
            &&& after.settings.model_id@ == id
            &&& after.settings.audio_backend@ == "local"@
            &&& after == (AppState {
                settings: Settings {
                    model_id: after.settings.model_id,
                    audio_backend: after.settings.audio_backend,
                    ..before.settings
                },
                ..before
            })
        },
        None => {
            &&& r matches Err(e) && e@ == "unknown model: "@ + id
            &&& after == before
        },
    }
}

/// Uses a catalog model: leaves the online host.
pub fn select_model(state: &mut AppState, id: &str) -> (r: Result<String, String>)
    ensures
        is_selected(*old(state), *final(state), id@, r),
{
    match find(id) {
        Some(m) => {
            state.settings.model_id = id.to_owned();
            state.settings.audio_backend = "local".to_owned();
            Ok(cat("selected ", m.name.as_str()))
        },
        None => Err(cat("unknown model: ", id)),
    }
}

/// What the start of a download does, and what is told where it cannot start.
pub open spec fn is_begun(
    before: AppState,
    after: AppState,
    id: Seq<char>,
    r: Result<ModelEntry, String>,
) -> bool {
    match models::model_named(id) {
        None => {
            &&& r matches Err(e) && e@ == "unknown model: "@ + id
            &&& after == before
        },
        Some(m) => if chars::texts(before.downloading@).contains(id) {
            &&& r matches Err(e) && e@ == "download already in progress"@
            &&& after == before
        } else {
            &&& r matches Ok(entry) && entry@ == m
            &&& after == (AppState {
                downloading: after.downloading,
                ..before
            })
            &&& chars::texts(after.downloading@) == chars::texts(
                before.downloading@,
            ).push(id)
        },
    }
}

/// Begins the download of a model.
pub fn begin_download(state: &mut AppState, id: &str) -> (r: Result<ModelEntry, String>)
    ensures
        is_begun(*old(state), *final(state), id@, r),
        chars::texts(old(state).downloading@).no_duplicates() ==> chars::texts(
            final(state).downloading@,
        ).no_duplicates(),
{
    let entry = match find(id) {
        Some(m) => m,
        None => {
            return Err(cat("unknown model: ", id));
        },
    };
    if crate::devices::lists_name(&state.downloading, id) {
        return Err("download already in progress".to_owned());
    }
    let ghost before = chars::texts(state.downloading@);
    state.downloading.push(id.to_owned());
    assert(chars::texts(state.downloading@) =~= before.push(id@));
    Ok(entry)
}

/// The ids without one of them, up to `n`.
pub open spec fn ids_without(ids: Seq<Seq<char>>, id: Seq<char>, n: int) -> Seq<Seq<char>>
    decreases n,
{
    if n <= 0 {
        Seq::empty()
    } else if ids[n - 1] == id {
        ids_without(ids, id, n - 1)
    } else {
        ids_without(ids, id, n - 1).push(ids[n - 1])
    }
}

/// Ends the download of a model, however it went.
pub fn end_download(state: &mut AppState, id: &str)
    ensures
        *final(state) == (AppState { downloading: final(state).downloading, ..*old(state) }),
        ({
            let ids = chars::texts(old(state).downloading@);
            chars::texts(final(state).downloading@) == ids_without(ids, id@, ids.len() as int)
        }),
        !chars::texts(final(state).downloading@).contains(id@),
        chars::texts(old(state).downloading@).no_duplicates() ==> chars::texts(
            final(state).downloading@,
        ).no_duplicates(),
{
    let ghost ids = chars::texts(state.downloading@);
    let mut out: Vec<String> = Vec::new();
    let mut i: usize = 0;
    assert(chars::texts(out@) =~= ids_without(ids, id@, 0));
    while i < state.downloading.len()
        invariant
            i <= state.downloading.len(),
            *state == *old(state),
            ids == chars::texts(state.downloading@),
            chars::texts(out@) == ids_without(ids, id@, i as int),
        decreases state.downloading.len() - i,
    {
        if !str_eq(state.downloading[i].as_str(), id) {
            let ghost before = chars::texts(out@);
            out.push(state.downloading[i].clone());
            assert(chars::texts(out@) =~= before.push(ids[i as int]));
        }
        i += 1;
    }
    state.downloading = out;
    proof {
        lemma_ended(ids, id@, ids.len() as int);
    }
}

/// A download that has ended is no longer under way, and every other one still is,
/// none twice that was there once.
pub proof fn lemma_ended(ids: Seq<Seq<char>>, id: Seq<char>, n: int)
    requires
        0 <= n <= ids.len(),
    ensures
        forall|x: Seq<char>| #[trigger]
            ids_without(ids, id, n).contains(x) <==> ids.take(n).contains(x) && x != id,
        ids.no_duplicates() ==> ids_without(ids, id, n).no_duplicates(),
    decreases n,
{
    if n > 0 {
        lemma_ended(ids, id, n - 1);
        let before = ids_without(ids, id, n - 1);
        let after = ids_without(ids, id, n);
        let last = ids[n - 1];
        assert(ids.take(n) =~= ids.take(n - 1).push(last));
        assert forall|x: Seq<char>| #[trigger]
            after.contains(x) <==> ids.take(n).contains(x) && x != id by {
            lemma_one_more(before, last, x);
            lemma_one_more(ids.take(n - 1), last, x);
            assert(before.contains(x) <==> ids.take(n - 1).contains(x) && x != id);
        }
        if ids.no_duplicates() && last != id {
            assert(!before.contains(last)) by {
                let early = ids.take(n - 1);
                if early.contains(last) {
                    let k = choose|k: int| 0 <= k < early.len() && early[k] == last;
                    assert(ids[k] == ids[n - 1]);
                }
            }
        }
    }
}

proof fn lemma_one_more(ids: Seq<Seq<char>>, id: Seq<char>, x: Seq<char>)
    ensures
        ids.push(id).contains(x) <==> ids.contains(x) || x == id,
{
    assert(ids.push(id)[ids.len() as int] == id);
    if ids.contains(x) {
        let k = choose|k: int| 0 <= k < ids.len() && ids[k] == x;
        assert(ids.push(id)[k] == x);
    }
    if ids.push(id).contains(x) && x != id {
        let k = choose|k: int| 0 <= k < ids.push(id).len() && ids.push(id)[k] == x;
        assert(ids[k] == x);
    }
}

/// What the user is told about a finished download.
pub fn downloaded_message(name: &str, mb: u64) -> (r: String)
    ensures
        r@ == "downloaded "@ + name@ + " ("@ + words::decimal(mb as nat) + " MB)"@,
{
    let n = number(mb as u128);
    let head = cat3("downloaded ", name, " (");
    cat3(head.as_str(), n.as_str(), " MB)")
}

/// What the user is told about a cancelled download.
pub fn cancel_download(state: &AppState, id: &str) -> (r: Result<String, &'static str>)
    ensures
        match r {
            Ok(m) => chars::texts(state.downloading@).contains(id@) && m@ == "cancelling "@ + id@,
            Err(e) => !chars::texts(state.downloading@).contains(id@) && e@
                == "no download in progress for that model"@,
        },
{
    if crate::devices::lists_name(&state.downloading, id) {
        Ok(cat("cancelling ", id))
    } else {
        Err("no download in progress for that model")
    }
}

/// What the deletion of a catalog model does, and what is told about it.
pub open spec fn is_model_deleted(
    before: AppState,
    after: AppState,
    id: Seq<char>,
    r: Result<String, String>,
) -> bool {
    match models::model_named(id) {
        Some(m) => {
            &&& r matches Ok(msg) && msg@ == "deleted "@ + m.name
            &&& after.settings.model_id@ == (if before.settings.model_id@ == id {
                "parakeet-v3"@
            } else {
                before.settings.model_id@
            })
            &&& after == (AppState {
                settings: Settings {
                    model_id: after.settings.model_id,
                    ..before.settings
                },
                ..before
            })
        },
        None => {
            &&& r matches Err(e) && e@ == "unknown model: "@ + id
            &&& after == before
        },
    }
}

/// Deletes a model: the selected one is replaced by the default.
pub fn delete_model(state: &mut AppState, id: &str) -> (r: Result<String, String>)
    ensures
        is_model_deleted(*old(state), *final(state), id@, r),
{
    match find(id) {
        Some(m) => {
            if str_eq(state.settings.model_id.as_str(), id) {
                state.settings.model_id = default_model_id();
            }
            Ok(cat("deleted ", m.name.as_str()))
        },
        None => Err(cat("unknown model: ", id)),
    }
}

/// A file name that stays in its directory.
pub open spec fn is_plain_name(name: Seq<char>) -> bool {
    !name.contains('/') && !name.contains('\\') && !name.contains(':') && !words::contains(
        name,
        ".."@,
    )
}

/// Takes only a file *name*, never a path.
pub fn plain_file_name(name: &str) -> (r: Result<(), &'static str>)
    ensures
        match r {
            Ok(_) => is_plain_name(name@),
            Err(e) => !is_plain_name(name@) && e@ == "invalid file name"@,
        },
{
    if holds_char(name, '/') || holds_char(name, '\\') || holds_char(name, ':') || has_text(
        name,
        "..",
    ) {
        Err("invalid file name")
    } else {
        Ok(())
    }
}

/// An id out of a prefix and a time stamp in nanoseconds.
pub fn new_id(prefix: &str, stamp_ns: u128) -> (r: String)
    ensures
        r@ == prefix@ + words::decimal(stamp_ns as nat),
{
    let n = number(stamp_ns);
    cat(prefix, n.as_str())
}

/// The kind of a new rule: `snippet` by name, else `vocab`.
pub open spec fn kind_of(kind: Option<&str>) -> Seq<char> {
    if kind matches Some(k) && k@ == "snippet"@ {
        "snippet"@
    } else {
        "vocab"@
    }
}

/// A new rule of the dictionary.
pub open spec fn added_rule(
    id: Seq<char>,
    trigger: Seq<char>,
    replacement: Seq<char>,
    whole_word: Option<bool>,
    kind: Option<&str>,
) -> Rule {
    Rule {
        whole_word: match whole_word {
            Some(w) => w,
            None => true,
        },
        kind: kind_of(kind),
        ..text::fresh_rule(id, words::trim(trigger), replacement)
    }
}

/// `after` is sorted out of the given rules.
pub open spec fn sorted_out_of(given: Seq<Rule>, after: Seq<DictionaryEntry>) -> bool {
    exists|e: Seq<DictionaryEntry>| #[trigger] text::rules(e) == given && text::is_sorted_from(
        e,
        after,
    )
}

/// Adds a rule to the dictionary, which stays sorted.
pub fn add_dictionary_entry(
    entries: Vec<DictionaryEntry>,
    id: &str,
    trigger: &str,
    replacement: &str,
    whole_word: Option<bool>,
    kind: Option<&str>,
) -> (r: Result<Vec<DictionaryEntry>, &'static str>)
    ensures
        match r {
            Ok(v) => words::trim(trigger@).len() > 0 && sorted_out_of(
                seq![added_rule(id@, trigger@, replacement@, whole_word, kind)] + text::rules(
                    entries@,
                ),
                v@,
            ),
            Err(e) => words::trim(trigger@).len() == 0 && e@
                == "say-what-you-hear (trigger) must not be empty"@,
        },
{
    let t = trimmed(trigger);
    if t.as_str().is_empty() {
        return Err("say-what-you-hear (trigger) must not be empty");
    }
    let snippet = match kind {
        Some(k) => str_eq(k, "snippet"),
        None => false,
    };
    let mut entry = DictionaryEntry::new(id, t.as_str(), replacement);
    entry.whole_word = match whole_word {
        Some(w) => w,
        None => true,
    };
    if snippet {
        entry.kind = "snippet".to_owned();
    }
    let ghost e = entry;
    let ghost before = text::rules(entries@);
    let mut v = entries;
    v.insert(0, entry);
    assert(text::rules(v@) =~= seq![added_rule(id@, trigger@, replacement@, whole_word, kind)]
        + before) by {
        assert(v@[0]@ == added_rule(id@, trigger@, replacement@, whole_word, kind));
        assert forall|i: int| 0 < i < v@.len() implies text::rules(v@)[i] == before[i - 1] by {
            assert(v@[i] == entries@[i - 1]);
        }
    }
    sort_dictionary(&mut v);
    Ok(v)
}

/// The place of the first rule from `i` on with an id.
pub open spec fn rule_place(entries: Seq<DictionaryEntry>, id: Seq<char>, i: int) -> Option<int>
    decreases entries.len() - i,
{
    if i < 0 || i >= entries.len() {
        None
    } else if entries[i].id@ == id {
        Some(i)
    } else {
        rule_place(entries, id, i + 1)
    }
}

fn find_rule(entries: &Vec<DictionaryEntry>, id: &str) -> (r: Option<usize>)
    ensures
        (match r {
            Some(i) => Some(i as int),
            None => None,
        }) == rule_place(entries@, id@, 0),
        r matches Some(i) ==> i < entries@.len(),
{
    let mut i: usize = 0;
    while i < entries.len()
        invariant
            i <= entries.len(),
            rule_place(entries@, id@, 0) == rule_place(entries@, id@, i as int),
        decreases entries.len() - i,
    {
        if str_eq(entries[i].id.as_str(), id) {
            return Some(i);
        }
        i += 1;
    }
    None
}

/// What switching a rule on or off does.
pub open spec fn is_switched(
    before: Seq<DictionaryEntry>,
    after: Seq<DictionaryEntry>,
    id: Seq<char>,
    enabled: bool,
    r: Result<(), &'static str>,
) -> bool {
    match rule_place(before, id, 0) {
        Some(i) => r is Ok && after == before.update(
            i,
            DictionaryEntry { enabled, ..before[i] },
        ),
        None => (r matches Err(e) && e@ == "entry not found"@) && after == before,
    }
}

/// Switches a rule on or off.
pub fn set_dictionary_enabled(entries: &mut Vec<DictionaryEntry>, id: &str, enabled: bool) -> (r:
    Result<(), &'static str>)
    ensures
        is_switched(old(entries)@, final(entries)@, id@, enabled, r),
{
    match find_rule(entries, id) {
        Some(i) => {
            let mut e = entries[i].clone();
            e.enabled = enabled;
            entries.set(i, e);
            Ok(())
        },
        None => Err("entry not found"),
    }
}

/// What starring a rule, or taking its star, does.
pub open spec fn is_starred(
    before: Seq<DictionaryEntry>,
    after: Seq<DictionaryEntry>,
    id: Seq<char>,
    starred: bool,
    r: Result<(), &'static str>,
) -> bool {
    match rule_place(before, id, 0) {
        Some(i) => r is Ok && text::is_sorted_from(
            before.update(i, DictionaryEntry { starred, ..before[i] }),
            after,
        ),
        None => (r matches Err(e) && e@ == "entry not found"@) && after == before,
    }
}

/// Stars a rule or takes its star; the dictionary stays sorted.
pub fn star_dictionary_entry(entries: &mut Vec<DictionaryEntry>, id: &str, starred: bool) -> (r:
    Result<(), &'static str>)
    ensures
        is_starred(old(entries)@, final(entries)@, id@, starred, r),
{
    match find_rule(entries, id) {
        Some(i) => {
            let mut e = entries[i].clone();
            e.starred = starred;
            entries.set(i, e);
            sort_dictionary(entries);
            Ok(())
        },
        None => Err("entry not found"),
    }
}

/// The first `n` rules without those of an id.
pub open spec fn rules_without(entries: Seq<DictionaryEntry>, id: Seq<char>, n: int) -> Seq<
    DictionaryEntry,
>
    decreases n,
{
    if n <= 0 {
        Seq::empty()
    } else if entries[n - 1].id@ == id {
        rules_without(entries, id, n - 1)
    } else {
        rules_without(entries, id, n - 1).push(entries[n - 1])
    }
}

/// Deletes the rules of an id.
pub fn delete_dictionary_entry(entries: &mut Vec<DictionaryEntry>, id: &str) -> (r: Result<
    (),
    &'static str,
>)
    ensures
        final(entries)@ == rules_without(old(entries)@, id@, old(entries)@.len() as int),
        match r {
            Ok(_) => final(entries)@.len() < old(entries)@.len(),
            Err(e) => final(entries)@ == old(entries)@ && e@ == "entry not found"@,
        },
{
    let ghost before = entries@;
    let n = entries.len();
    let mut out: Vec<DictionaryEntry> = Vec::new();
    let mut i: usize = 0;
    while i < n
        invariant
            i <= n,
            n == before.len(),
            entries@ == before,
            out@ == rules_without(before, id@, i as int),
            out@.len() <= i,
            out@.len() == i ==> out@ == before.take(i as int),
        decreases n - i,
    {
        if !str_eq(entries[i].id.as_str(), id) {
            out.push(entries[i].clone());
            assert(before.take(i as int).push(before[i as int]) =~= before.take(i + 1));
        }
        i += 1;
    }
    assert(before.take(n as int) =~= before);
    let kept = out.len();
    *entries = out;
    if kept == n {
        return Err("entry not found");
    }
    Ok(())
}

/// A deleted rule is gone, and every other one stays.
pub proof fn lemma_deleted(entries: Seq<DictionaryEntry>, id: Seq<char>, n: int)
    requires
        0 <= n <= entries.len(),
    ensures
        forall|i: int| 0 <= i < rules_without(entries, id, n).len() ==> (
        #[trigger] rules_without(entries, id, n)[i]).id@ != id,
        forall|i: int| 0 <= i < n && (#[trigger] entries[i]).id@ != id ==> rules_without(
            entries,
            id,
            n,
        ).contains(entries[i]),
    decreases n,
{
    if n > 0 {
        lemma_deleted(entries, id, n - 1);
        let before = rules_without(entries, id, n - 1);
        let after = rules_without(entries, id, n);
        assert forall|i: int| 0 <= i < after.len() implies (#[trigger] after[i]).id@ != id by {
            if i < before.len() {
                assert(after[i] == before[i]);
            }
        }
        assert forall|i: int| 0 <= i < n && (#[trigger] entries[i]).id@ != id implies after.contains(
            entries[i],
        ) by {
            if i < n - 1 {
                let k = choose|k: int| 0 <= k < before.len() && before[k] == entries[i];
                assert(after[k] == entries[i]);
            } else {
                assert(after[before.len() as int] == entries[i]);
            }
        }
    }
}

/// A correction of what was heard, or why it is none.
pub open spec fn correction_error(heard: Seq<char>, written: Seq<char>) -> Option<Seq<char>> {
    let h = words::trim(heard);
    let w = words::trim(written);
    if h.len() == 0 {
        Some("heard text must not be empty"@)
    } else if w.len() == 0 {
        Some("correction must not be empty"@)
    } else if chars::same_ignoring_case(h, w) {
        Some("correction is the same as what was heard"@)
    } else {
        None
    }
}

/// Adds a whole-word vocabulary rule out of a correction.
pub fn add_correction(entries: Vec<DictionaryEntry>, id: &str, heard: &str, written: &str) -> (r:
    Result<Vec<DictionaryEntry>, &'static str>)
    ensures
        match r {
            Ok(v) => correction_error(heard@, written@) is None && sorted_out_of(
                seq![text::fresh_rule(id@, words::trim(heard@), words::trim(written@))]
                    + text::rules(entries@),
                v@,
            ),
            Err(e) => correction_error(heard@, written@) == Some(e@),
        },
{
    let h = trimmed(heard);
    let w = trimmed(written);
    if h.as_str().is_empty() {
        return Err("heard text must not be empty");
    }
    if w.as_str().is_empty() {
        return Err("correction must not be empty");
    }
    if eq_ignore_case(h.as_str(), w.as_str()) {
        return Err("correction is the same as what was heard");
    }
    proof {
        words::lemma_without_ends(heard@, Class::White);
        reveal_strlit("vocab");
        reveal_strlit("snippet");
        assert("vocab"@.len() == 5 && "snippet"@.len() == 7);
        assert(added_rule(id@, h@, w@, Some(true), Some("vocab")) == text::fresh_rule(
            id@,
            words::trim(heard@),
            words::trim(written@),
        ));
    }
    add_dictionary_entry(entries, id, h.as_str(), w.as_str(), Some(true), Some("vocab"))
}

/// The symbols that voice models mangle, and what they are written as.
pub open spec fn symbol_presets() -> Seq<(&'static str, &'static str)> {
    seq![
        ("at sign", "@"),
        ("dot com", ".com"),
        ("dot net", ".net"),
        ("dot org", ".org"),
        ("dot io", ".io"),
        ("hashtag", "#"),
        ("slash", "/"),
        ("underscore", "_"),
        ("dash", "-"),
    ]
}

/// Whether there is a vocabulary rule for a trigger.
pub open spec fn has_vocab(rules: Seq<Rule>, trigger: Seq<char>) -> bool {
    exists|i: int|
        0 <= i < rules.len() && (#[trigger] rules[i]).kind != "snippet"@
            && chars::same_ignoring_case(rules[i].trigger, trigger)
}

fn lists_vocab(entries: &Vec<DictionaryEntry>, trigger: &str) -> (r: bool)
    ensures
        r == has_vocab(text::rules(entries@), trigger@),
{
    let ghost all = text::rules(entries@);
    let mut i: usize = 0;
    while i < entries.len()
        invariant
            i <= entries.len(),
            all == text::rules(entries@),
            forall|k: int| 0 <= k < i ==> (#[trigger] all[k]).kind == "snippet"@
                || !chars::same_ignoring_case(all[k].trigger, trigger@),
        decreases entries.len() - i,
    {
        assert(all[i as int] == entries@[i as int]@);
        if !entries[i].is_snippet() && eq_ignore_case(entries[i].trigger.as_str(), trigger) {
            return true;
        }
        i += 1;
    }
    false
}

/// The rules with the first `n` presets on top, but for those that the user has
/// a rule for.
pub open spec fn with_presets(rules: Seq<Rule>, ids: Seq<Seq<char>>, n: int) -> Seq<Rule>
    decreases n,
{
    if n <= 0 {
        rules
    } else {
        let before = with_presets(rules, ids, n - 1);
        let p = symbol_presets()[n - 1];
        if has_vocab(before, p.0@) {
            before
        } else {
            seq![text::fresh_rule(ids[n - 1], p.0@, p.1@)] + before
        }
    }
}

/// Adds the symbol presets, each with an id of its own.
pub fn add_symbol_presets(entries: &mut Vec<DictionaryEntry>, ids: &Vec<String>)
    requires
        ids@.len() == symbol_presets().len(),
    ensures
        text::rules(final(entries)@) == with_presets(
            text::rules(old(entries)@),
            chars::texts(ids@),
            symbol_presets().len() as int,
        ),
{
    let presets: Vec<(&'static str, &'static str)> = vec![
        ("at sign", "@"),
        ("dot com", ".com"),
        ("dot net", ".net"),
        ("dot org", ".org"),
        ("dot io", ".io"),
        ("hashtag", "#"),
        ("slash", "/"),
        ("underscore", "_"),
        ("dash", "-"),
    ];
    assert(presets@ =~= symbol_presets());
    let ghost before = text::rules(entries@);
    let ghost names = chars::texts(ids@);
    let mut i: usize = 0;
    while i < presets.len()
        invariant
            i <= presets.len(),
            presets@ == symbol_presets(),
            ids@.len() == presets@.len(),
            names == chars::texts(ids@),
            text::rules(entries@) == with_presets(before, names, i as int),
        decreases presets.len() - i,
    {
        let (trigger, replacement) = presets[i];
        if !lists_vocab(entries, trigger) {
            let ghost now = entries@;
            let entry = DictionaryEntry::new(ids[i].as_str(), trigger, replacement);
            let ghost fresh = entry@;
            entries.insert(0, entry);
            assert(text::rules(entries@) =~= seq![fresh] + text::rules(now)) by {
                assert forall|k: int| 0 < k < entries@.len() implies text::rules(entries@)[k]
                    == text::rules(now)[k - 1] by {
                    assert(entries@[k] == now[k - 1]);
                }
            }
            assert(names[i as int] == ids@[i as int]@);
        }
        i += 1;
    }
}

/// Once the presets are there, adding them again changes nothing.
pub proof fn lemma_presets_once(
    rules: Seq<Rule>,
    ids: Seq<Seq<char>>,
    more: Seq<Seq<char>>,
    n: int,
)
    requires
        0 <= n <= symbol_presets().len(),
    ensures
        with_presets(
            with_presets(rules, ids, symbol_presets().len() as int),
            more,
            n,
        ) == with_presets(rules, ids, symbol_presets().len() as int),
    decreases n,
{
    let all = with_presets(rules, ids, symbol_presets().len() as int);
    if n > 0 {
        lemma_presets_once(rules, ids, more, n - 1);
        lemma_preset_is_there(rules, ids, n - 1, symbol_presets().len() as int);
    }
}

/// A preset that was gone through has a vocabulary rule from then on.
proof fn lemma_preset_is_there(rules: Seq<Rule>, ids: Seq<Seq<char>>, k: int, n: int)
    requires
        0 <= k < n <= symbol_presets().len(),
    ensures
        has_vocab(with_presets(rules, ids, n), symbol_presets()[k].0@),
    decreases n,
{
    reveal_strlit("vocab");
    reveal_strlit("snippet");
    assert("vocab"@.len() == 5 && "snippet"@.len() == 7);
    let before = with_presets(rules, ids, n - 1);
    let after = with_presets(rules, ids, n);
    let trigger = symbol_presets()[k].0@;
    if k == n - 1 {
        if !has_vocab(before, trigger) {
            assert(after[0].trigger == trigger && after[0].kind != "snippet"@);
        }
    } else {
        lemma_preset_is_there(rules, ids, k, n - 1);
        let i = choose|i: int|
            0 <= i < before.len() && (#[trigger] before[i]).kind != "snippet"@
                && chars::same_ignoring_case(before[i].trigger, trigger);
        if after != before {
            assert(after[i + 1] == before[i]);
        }
    }
}

/// The most rules that a dictionary file may hold.
pub const IMPORT_LIMIT: usize = 1000;

/// Why a dictionary file is refused, if it is.
pub open spec fn import_error(entries: Seq<DictionaryEntry>) -> Option<Seq<char>> {
    if entries.len() > IMPORT_LIMIT {
        Some("dictionary file has more than 1000 rules"@)
    } else if exists|i: int|
        0 <= i < entries.len() && words::trim((#[trigger] entries[i]).trigger@).len() == 0 {
        Some("dictionary file contains an empty trigger"@)
    } else {
        None
    }
}

/// Takes over the rules of a dictionary file: triggers trimmed, ids new.
pub fn import_dictionary(entries: Vec<DictionaryEntry>, ids: &Vec<String>) -> (r: Result<
    Vec<DictionaryEntry>,
    &'static str,
>)
    requires
        ids@.len() == entries@.len(),
    ensures
        match r {
            Ok(v) => {
                &&& import_error(entries@) is None
                &&& v@.len() == entries@.len()
                &&& forall|i: int| 0 <= i < v@.len() ==> (#[trigger] v@[i])@ == (Rule {
                    id: ids@[i]@,
                    trigger: words::trim(entries@[i].trigger@),
                    ..entries@[i]@
                })
            },
            Err(e) => import_error(entries@) == Some(e@),
        },
{
    if entries.len() > IMPORT_LIMIT {
        return Err("dictionary file has more than 1000 rules");
    }
    let mut out: Vec<DictionaryEntry> = Vec::new();
    let mut i: usize = 0;
    while i < entries.len()
        invariant
            i <= entries.len(),
            entries@.len() <= IMPORT_LIMIT,
            ids@.len() == entries@.len(),
            out@.len() == i,
            forall|k: int| 0 <= k < i ==> words::trim((#[trigger] entries@[k]).trigger@).len() > 0,
            forall|k: int| 0 <= k < i ==> (#[trigger] out@[k])@ == (Rule {
                id: ids@[k]@,
                trigger: words::trim(entries@[k].trigger@),
                ..entries@[k]@
            }),
        decreases entries.len() - i,
    {
        let t = trimmed(entries[i].trigger.as_str());
        if t.as_str().is_empty() {
            assert(words::trim(entries@[i as int].trigger@).len() == 0);
            return Err("dictionary file contains an empty trigger");
        }
        let mut e = entries[i].clone();
        e.trigger = t;
        e.id = ids[i].clone();
        out.push(e);
        i += 1;
    }
    Ok(out)
}

/// What the user is told about an exported dictionary.
pub fn exported_message(rules: usize, path: &str) -> (r: String)
    ensures
        r@ == "exported "@ + words::decimal(rules as nat) + " rules → "@ + path@,
{
    let n = number(rules as u128);
    let head = cat3("exported ", n.as_str(), " rules → ");
    cat(head.as_str(), path)
}

/// What is known about newer versions.
#[derive(Debug)]
pub struct UpdateInfo {
    pub current: String,
    pub latest: Option<String>,
    pub url: Option<String>,
    pub available: bool,
    pub configured: bool,
}

/// Where no release page is set.
pub fn no_update_check(current: &str) -> (r: UpdateInfo)
    ensures
        r.current@ == current@,
        r.latest is None,
        r.url is None,
        !r.available,
        !r.configured,
{
    UpdateInfo {
        current: current.to_owned(),
        latest: None,
        url: None,
        available: false,
        configured: false,
    }
}

/// What a release says about the version in use.
pub fn update_info(current: &str, tag: &str, url: &str) -> (r: UpdateInfo)
    ensures
        r.current@ == current@,
        r.latest matches Some(l) && l@ == tag@,
        r.url matches Some(u) && u@ == url@,
        r.available == (words::without_start(tag@, Class::Only('v')) != current@),
        r.configured,
{
    let latest = trim_start_class(tag, &Class::Only('v'));
    UpdateInfo {
        current: current.to_owned(),
        latest: Some(tag.to_owned()),
        url: Some(url.to_owned()),
        available: !str_eq(latest.as_str(), current),
        configured: true,
    }
}

/// The API keys, as the user interface shows them.
#[derive(Debug)]
pub struct ProviderStatus {
    pub audio_key_masked: String,
    pub llm_key_masked: String,
    pub has_audio_key: bool,
    pub has_llm_key: bool,
}

pub fn get_provider_status(s: &Secrets) -> (r: ProviderStatus)
    requires
        polish::can_mask(s.audio_api_key@),
        polish::can_mask(s.llm_api_key@),
    ensures
        r.audio_key_masked@ == polish::masked(s.audio_api_key@),
        r.llm_key_masked@ == polish::masked(s.llm_api_key@),
        r.has_audio_key == (words::trim(s.audio_api_key@).len() > 0),
        r.has_llm_key == (words::trim(s.llm_api_key@).len() > 0),
{
    let a = trimmed(s.audio_api_key.as_str());
    let l = trimmed(s.llm_api_key.as_str());
    ProviderStatus {
        audio_key_masked: mask_key(s.audio_api_key.as_str()),
        llm_key_masked: mask_key(s.llm_api_key.as_str()),
        has_audio_key: !a.as_str().is_empty(),
        has_llm_key: !l.as_str().is_empty(),
    }
}

/// Whether a test recording can start.
pub fn can_test(state: &AppState) -> (r: Result<(), &'static str>)
    ensures
        match r {
            Ok(_) => !state.recording,
            Err(e) => state.recording && e@ == "already recording — stop first"@,
        },
{
    if state.recording {
        Err("already recording — stop first")
    } else {
        Ok(())
    }
}

/// Whether the test recording is still there when its time is up.
pub fn test_runs(state: &AppState) -> (r: Result<(), &'static str>)
    ensures
        match r {
            Ok(_) => state.recording,
            Err(e) => !state.recording && e@ == "recording stopped early — try again"@,
        },
{
    if state.recording {
        Ok(())
    } else {
        Err("recording stopped early — try again")
    }
}

/// Whether a test clip at 16 kHz is worth sending.
pub fn test_clip(samples_16k: &Vec<u32>) -> (r: Result<(), &'static str>)
    ensures
        match r {
            Ok(_) => devices::blank(samples_16k@, 16_000) is None,
            Err(e) => devices::blank(samples_16k@, 16_000) matches Some(why) && e@ == why.words(),
        },
{
    match blank_audio(samples_16k, 16_000) {
        Some(why) => Err(why.message()),
        None => Ok(()),
    }
}

/// What the user is told about a test of the audio API.
pub open spec fn audio_test(result: Result<&str, &str>) -> Result<Seq<char>, Seq<char>> {
    match result {
        Ok(t) => if words::trim(t@).len() == 0 {
            Ok("Audio API accepted the clip (empty transcript — speak louder)"@)
        } else {
            Ok("Audio API heard: "@ + settings::truncated(t@, 80))
        },
        Err(e) => if words::contains(e@, "empty audio transcript"@) {
            Ok("Audio API accepted the clip (empty transcript — speak louder)"@)
        } else {
            Err(e@)
        },
    }
}

pub fn audio_test_message(result: Result<&str, &str>) -> (r: Result<String, String>)
    requires
        result matches Ok(t) ==> words::trim(t@).len() == 0 || settings::can_truncate(t@, 80),
    ensures
        (match r {
            Ok(s) => Ok::<Seq<char>, Seq<char>>(s@),
            Err(e) => Err(e@),
        }) == audio_test(result),
{
    match result {
        Ok(t) => {
            let b = trimmed(t);
            if b.as_str().is_empty() {
                Ok("Audio API accepted the clip (empty transcript — speak louder)".to_owned())
            } else {
                let s = truncate(t, 80);
                Ok(cat("Audio API heard: ", s.as_str()))
            }
        },
        Err(e) => {
            if has_text(e, "empty audio transcript") {
                Ok("Audio API accepted the clip (empty transcript — speak louder)".to_owned())
            } else {
                Err(e.to_owned())
            }
        },
    }
}

/// The newest text to copy, and what the user is told once it is copied.
pub fn copy_last(state: &AppState) -> (r: Result<(String, String), &'static str>)
    requires
        crate::state::newest_text(state.history@) matches Some(t) ==> settings::can_truncate(t, 80),
    ensures
        match (r, crate::state::newest_text(state.history@)) {
            (Ok((t, m)), Some(text)) => t@ == text && m@ == "copied: "@ + settings::truncated(
                text,
                80,
            ),
            (Err(e), None) => e@ == "nothing to copy — dictate first"@,
            _ => false,
        },
{
    match state.last_text() {
        Some(t) => {
            let s = truncate(t.as_str(), 80);
            let m = cat("copied: ", s.as_str());
            Ok((t, m))
        },
        None => Err("nothing to copy — dictate first"),
    }
}

/// The newest text to paste, and what the user is told once it is pasted.
pub fn paste_last(state: &AppState) -> (r: Result<(String, String), &'static str>)
    requires
        crate::state::newest_text(state.history@) matches Some(t) ==> settings::can_truncate(t, 80),
    ensures
        match (r, crate::state::newest_text(state.history@)) {
            (Ok((t, m)), Some(text)) => t@ == text && m@ == "pasted: "@ + settings::truncated(
                text,
                80,
            ),
            (Err(e), None) => e@ == "nothing to paste — dictate first"@,
            _ => false,
        },
{
    match state.last_text() {
        Some(t) => {
            let s = truncate(t.as_str(), 80);
            let m = cat("pasted: ", s.as_str());
            Ok((t, m))
        },
        None => Err("nothing to paste — dictate first"),
    }
}

/// Where a dragged overlay snaps to.
pub fn snap_overlay(x: i32, y: i32, screen_w: i32, screen_h: i32) -> (r: OverlayPose)
    requires
        overlay::fits(screen_w - PILL_W - MARGIN),
        overlay::fits(screen_h - PILL_H - BOTTOM_MARGIN),
        overlay::fits(x + 84),
        overlay::fits(y + 22),
        overlay::fits(screen_w - (x + 84)),
        overlay::fits(screen_h - (y + 22)),
    ensures
        r.edge == overlay::nearest_edge(
            x as int,
            y as int,
            screen_w as int,
            screen_h as int,
            PILL_W as int,
            PILL_H as int,
        ),
        r.offset == overlay::snapped_offset(
            r.edge,
            x as int,
            y as int,
            screen_w as int,
            screen_h as int,
            PILL_W as int,
            PILL_H as int,
        ),
        (r.x as int, r.y as int) == overlay::docked(
            r.edge,
            r.offset as int,
            screen_w as int,
            screen_h as int,
            PILL_W as int,
            PILL_H as int,
        ),
{
    snap_to_edge(x, y, screen_w, screen_h, PILL_W, PILL_H)
}

/// What storing a pose of the overlay does, and what is told about an unknown edge.
pub open spec fn is_posed(
    before: AppState,
    after: AppState,
    edge: Seq<char>,
    offset: i32,
    r: Result<(), String>,
) -> bool {
    match overlay::edge_named(edge) {
        Some(_) => {
            &&& r is Ok
            &&& after.settings.overlay_edge@ == edge
            &&& after == (AppState {
                settings: Settings {
                    overlay_edge: after.settings.overlay_edge,
                    overlay_offset: offset,
                    ..before.settings
                },
                ..before
            })
        },
        None => {
            &&& r matches Err(e) && e@ == "unknown overlay edge: "@ + edge
            &&& after == before
        },
    }
}

/// Stores the pose of the overlay.
pub fn set_overlay_pose(state: &mut AppState, edge: &str, offset: i32) -> (r: Result<(), String>)
    ensures
        is_posed(*old(state), *final(state), edge@, offset, r),
{
    match DockEdge::parse(edge) {
        Some(e) => {
            state.settings.overlay_edge = e.as_str().to_owned();
            state.settings.overlay_offset = offset;
            Ok(())
        },
        None => Err(cat("unknown overlay edge: ", edge)),
    }
}

/// The recording modes.
pub open spec fn is_mode(s: Seq<char>) -> bool {
    s == "hold"@ || s == "toggle"@ || s == "double_tap"@
}

/// The language-model backends.
pub open spec fn is_llm_backend(s: Seq<char>) -> bool {
    s == "off"@ || s == "local"@ || s == "openai_compat"@ || s == "anthropic"@
}

/// Why settings are refused on a platform, if they are.
pub open spec fn settings_error(s: Settings, platform: Platform) -> Option<Seq<char>> {
    let key = settings::native_key(s.hotkey_key@, platform);
    let paste = hotkey::utility_key(s.paste_last_key@, s.copy_last_key@);
    let copy = hotkey::utility_key(s.copy_last_key@, s.paste_last_key@);
    if models::model_named(s.model_id@) is None {
        Some("unknown model: "@ + s.model_id@)
    } else if !hotkey::is_talk_key(key, platform) && !hotkey::is_combo_key(key) {
        Some("unknown talk key: "@ + key)
    } else if !is_mode(s.recording_mode@) {
        Some("unknown recording mode: "@ + s.recording_mode@)
    } else if s.audio_backend@ != "local"@ && s.audio_backend@ != "openai_compat"@ {
        Some("unknown audio backend: "@ + s.audio_backend@)
    } else if !is_llm_backend(s.llm_backend@) {
        Some("unknown LLM backend: "@ + s.llm_backend@)
    } else if overlay::edge_named(s.overlay_edge@) is None {
        Some("unknown overlay edge: "@ + s.overlay_edge@)
    } else if paste is Err {
        Some(paste->Err_0)
    } else if copy is Err {
        Some(copy->Err_0)
    } else {
        None
    }
}

/// `after` is what settings become when they are accepted: a native talk key,
/// shortcuts in standard form, and a preset that is known.
pub open spec fn is_accepted(before: Settings, after: Settings, platform: Platform) -> bool {
    &&& after == (Settings {
        hotkey_key: after.hotkey_key,
        overlay_edge: after.overlay_edge,
        paste_last_key: after.paste_last_key,
        copy_last_key: after.copy_last_key,
        llm_preset: after.llm_preset,
        ..before
    })
    &&& after.hotkey_key@ == settings::native_key(before.hotkey_key@, platform)
    &&& after.overlay_edge@ == before.overlay_edge@
    &&& after.paste_last_key@ == shortcuts::formatted(
        hotkey::utility_key(before.paste_last_key@, before.copy_last_key@)->Ok_0,
        platform,
    )
    &&& after.copy_last_key@ == shortcuts::formatted(
        hotkey::utility_key(before.copy_last_key@, before.paste_last_key@)->Ok_0,
        platform,
    )
    &&& after.llm_preset@ == (if polish::is_preset(before.llm_preset@) {
        before.llm_preset@
    } else {
        "clean"@
    })
}

/// Checks settings before they are stored, and brings them into standard form.
pub fn set_settings(settings: Settings, platform: Platform) -> (r: Result<Settings, String>)
    ensures
        match r {
            Ok(s) => settings_error(settings, platform) is None && is_accepted(
                settings,
                s,
                platform,
            ),
            Err(e) => settings_error(settings, platform) == Some(e@),
        },
{
    let mut s = settings;
    if find(s.model_id.as_str()).is_none() {
        return Err(cat("unknown model: ", s.model_id.as_str()));
    }
    s.hotkey_key = normalize_talk_key(s.hotkey_key.as_str(), platform);
    if hotkey_vks(s.hotkey_key.as_str(), platform).is_none() && !str_eq(
        s.hotkey_key.as_str(),
        "CtrlAltSpace",
    ) {
        return Err(cat("unknown talk key: ", s.hotkey_key.as_str()));
    }
    let mode = s.recording_mode.as_str();
    if !(str_eq(mode, "hold") || str_eq(mode, "toggle") || str_eq(mode, "double_tap")) {
        return Err(cat("unknown recording mode: ", mode));
    }
    let audio = s.audio_backend.as_str();
    if !str_eq(audio, "local") && !str_eq(audio, "openai_compat") {
        return Err(cat("unknown audio backend: ", audio));
    }
    let llm = s.llm_backend.as_str();
    if !(str_eq(llm, "off") || str_eq(llm, "local") || str_eq(llm, "openai_compat") || str_eq(
        llm,
        "anthropic",
    )) {
        return Err(cat("unknown LLM backend: ", llm));
    }
    let edge = match DockEdge::parse(s.overlay_edge.as_str()) {
        Some(e) => e,
        None => {
            return Err(cat("unknown overlay edge: ", s.overlay_edge.as_str()));
        },
    };
    let paste = match validate_utility_key(s.paste_last_key.as_str(), s.copy_last_key.as_str()) {
        Ok(k) => k,
        Err(e) => {
            return Err(e);
        },
    };
    let copy = match validate_utility_key(s.copy_last_key.as_str(), s.paste_last_key.as_str()) {
        Ok(k) => k,
        Err(e) => {
            return Err(e);
        },
    };
    if !known_preset(s.llm_preset.as_str()) {
        s.llm_preset = "clean".to_owned();
    }
    s.overlay_edge = edge.as_str().to_owned();
    s.paste_last_key = format_shortcut(&paste, platform);
    s.copy_last_key = format_shortcut(&copy, platform);
    Ok(s)
}

/// Whether new settings name a model to load ahead of the first take.
pub fn warms_up(new_id: &str, old_id: &str, downloaded: bool) -> (r: bool)
    ensures
        r == (new_id@ != old_id@ && is_preloaded(new_id@, downloaded)),
{
    !str_eq(new_id, old_id) && preloads(new_id, downloaded)
}

/// Settings that were accepted are accepted again as they are.
pub proof fn lemma_accepted_again(
    given: Settings,
    first: Settings,
    second: Settings,
    platform: Platform,
)
    requires
        settings_error(given, platform) is None,
        is_accepted(given, first, platform),
        is_accepted(first, second, platform),
    ensures
        settings_error(first, platform) is None,
        second.hotkey_key@ == first.hotkey_key@,
        second.overlay_edge@ == first.overlay_edge@,
        second.paste_last_key@ == first.paste_last_key@,
        second.copy_last_key@ == first.copy_last_key@,
        second.llm_preset@ == first.llm_preset@,
{
    settings::lemma_native_key_stays(given.hotkey_key@, platform);
    let paste = hotkey::utility_key(given.paste_last_key@, given.copy_last_key@)->Ok_0;
    let copy = hotkey::utility_key(given.copy_last_key@, given.paste_last_key@)->Ok_0;
    shortcuts::lemma_parse_then_format(given.paste_last_key@, platform);
    shortcuts::lemma_parse_then_format(given.copy_last_key@, platform);
    assert(hotkey::utility_key(first.paste_last_key@, first.copy_last_key@) == Ok::<
        shortcuts::Combo,
        Seq<char>,
    >(paste));
    assert(hotkey::utility_key(first.copy_last_key@, first.paste_last_key@) == Ok::<
        shortcuts::Combo,
        Seq<char>,
    >(copy));
}

/// The settings of a fresh install are accepted on every platform.
pub proof fn lemma_fresh_is_accepted(s: Settings, platform: Platform)
    requires
        settings::is_fresh(s, platform),
    ensures
        settings_error(s, platform) is None,
{
    reveal_strlit("Fn");
    reveal_strlit("FnCtrl");
    reveal_strlit("RightCtrl");
    reveal_strlit("LeftCmd");
    reveal_strlit("RightCmd");
    reveal_strlit("CtrlCmd");
    reveal_strlit("LeftWin");
    reveal_strlit("RightWin");
    reveal_strlit("CtrlWin");
    reveal_strlit("ScrollLock");
    reveal_strlit("LeftCtrl");
    assert("Fn"@.len() == 2 && "RightCtrl"@.len() == 9);
    assert("FnCtrl"@.len() == 6 && "LeftCmd"@.len() == 7 && "RightCmd"@.len() == 8
        && "CtrlCmd"@.len() == 7 && "LeftWin"@.len() == 7 && "RightWin"@.len() == 8
        && "CtrlWin"@.len() == 7 && "ScrollLock"@.len() == 10 && "LeftCtrl"@.len() == 8);
    models::lemma_default_model();
    shortcuts::lemma_default_parses('Z', "Shift+Alt+Z"@);
    shortcuts::lemma_default_parses('X', "Shift+Alt+X"@);
    reveal_strlit("Space");
    assert("Space"@.len() == 5);
    assert(seq!['Z'][0] != seq!['X'][0]);
}

} // verus!
