//! Settings, and the catalog that they choose from.

use crate::chars;
use crate::laws::texts;
use crate::models;
use crate::models::{EngineKind, ModelEntry};
use crate::platform::Platform;
use crate::settings;
use crate::settings::Settings;
use crate::words;
use crate::words::Class;
use vstd::prelude::*;
use vstd::string::*;

verus! {

/// A fresh install works offline: it listens to the machine's own model in any
/// language, rewrites nothing, and waits for the wizard.
pub proof fn lemma_fresh(s: Settings, platform: Platform)
    requires
        settings::is_fresh(s, platform),
    ensures
        !settings::is_online(s),
        models::model_named(s.model_id@) == Some(models::catalog_info()[0]),
        s.llm_backend@ == "off"@ && !s.llm_enabled,
        s.language@ == "auto"@ && !s.translate,
        s.cleanup@ == "full"@,
        s.auto_paste,
        s.overlay_enabled && s.overlay_edge@ == "bottom"@ && s.overlay_offset == -1,
        !s.onboarded && !s.session_cap,
        s.recording_mode@ == "hold"@,
        s.audio_device is None,
        platform == Platform::MacOs ==> s.hotkey_key@ == "Fn"@,
        platform == Platform::Windows || platform == Platform::Other ==> s.hotkey_key@
            == "RightCtrl"@,
        s.paste_last_key@ == "Shift+Alt+Z"@,
        s.copy_last_key@ == "Shift+Alt+X"@,
        s.paste_last_key@ != s.copy_last_key@,
        s.llm_timeout_ms == 8_000,
        s.llm_temperature == 0x3E4C_CCCD,
        s.audio_api_model@ == "whisper-1"@ && s.llm_api_model@ == "gpt-4o-mini"@,
        s.llm_preset@ == "clean"@,
        s.audio_api_base@.len() == 0 && s.llm_api_base@.len() == 0 && s.llm_custom_prompt@.len()
            == 0,
{
    models::lemma_default_model();
    reveal_strlit("local");
    reveal_strlit("openai_compat");
    assert("local"@.len() == 5 && "openai_compat"@.len() == 13);
    reveal_strlit("Shift+Alt+Z");
    reveal_strlit("Shift+Alt+X");
    assert("Shift+Alt+Z"@[10] == 'Z' && "Shift+Alt+X"@[10] == 'X');
}

/// An older settings file shows the overlay and has been through the wizard.
pub proof fn lemma_older_file(r: bool, edge: String, offset: i32, cleanup: String)
    requires
        call_ensures(crate::settings::default_true, (), r),
        call_ensures(crate::settings::default_overlay_edge, (), edge),
        call_ensures(crate::settings::default_overlay_offset, (), offset),
        call_ensures(crate::settings::default_cleanup, (), cleanup),
    ensures
        r,
        edge@ == "bottom"@,
        offset < 0,
        cleanup@ == "full"@,
{
}

/// A text whose first part is `n` bytes long keeps that part, with an ellipsis where
/// something is cut.
pub proof fn lemma_truncated(s: Seq<char>, t: Seq<char>, n: int)
    requires
        chars::byte_len(s) == n,
    ensures
        settings::truncated(s, n) == s,
        t.len() > 0 ==> settings::truncated(s + t, n) == s + seq!['…'],
{
    if t.len() > 0 {
        lemma_cut(s, t);
        reveal_strlit("…");
        assert((s + t).take(s.len() as int) =~= s);
        assert("…"@ =~= seq!['…']);
    }
}

proof fn lemma_bytes(s: Seq<char>)
    ensures
        s.len() > 0 ==> chars::byte_len(s) > 0,
        chars::byte_len(s) >= 0,
    decreases s.len(),
{
    if s.len() > 0 {
        lemma_bytes(s.skip(1));
    }
}

proof fn lemma_cut(s: Seq<char>, t: Seq<char>)
    requires
        t.len() > 0,
    ensures
        chars::chars_before(s + t, chars::byte_len(s) as int) == s.len(),
        chars::byte_len(s + t) > chars::byte_len(s),
    decreases s.len(),
{
    lemma_bytes(t);
    if s.len() > 0 {
        lemma_cut(s.skip(1), t);
        lemma_bytes(s);
        assert((s + t).skip(1) =~= s.skip(1) + t);
        assert((s + t)[0] == s[0]);
    } else {
        assert(s + t =~= t);
    }
}

/// A character of plain text is one byte, and one of any other is two to four.
pub proof fn lemma_widths(c: char)
    ensures
        (c as u32) < 0x80 ==> chars::width(c) == 1,
        0x80 <= (c as u32) < 0x800 ==> chars::width(c) == 2,
        0x800 <= (c as u32) < 0x1_0000 ==> chars::width(c) == 3,
        0x1_0000 <= (c as u32) ==> chars::width(c) == 4,
{
}

/// A host is told by its address, with or without a slash at its end.
pub proof fn lemma_host(base: Seq<char>, p: Seq<char>, q: Seq<char>)
    requires
        texts::is_core(base, Class::White),
        texts::is_core(base, Class::Only('/')),
    ensures
        base == p + "api.groq.com"@ + q ==> settings::host_label(base) == "Groq"@,
        (forall|k: int| !words::occurs_at(base, "api.groq.com"@, k)) && base == p
            + "api.openai.com"@ + q ==> settings::host_label(base) == "OpenAI"@,
        (forall|k: int| !words::occurs_at(base, "api.groq.com"@, k)) && (forall|k: int|
            !words::occurs_at(base, "api.openai.com"@, k)) && base.len() > 0
            ==> settings::host_label(base) == "Online"@,
        settings::host_label(Seq::<char>::empty()) == "OpenAI"@,
{
    let none = Seq::<char>::empty();
    texts::lemma_trim_keeps_core(none, base, none, Class::White);
    texts::lemma_trim_keeps_core(none, base, none, Class::Only('/'));
    assert(none + base + none =~= base);
    texts::lemma_end_trimmed(base, none, Class::Only('/'));
    assert(base + none =~= base);
    let g = "api.groq.com"@;
    let o = "api.openai.com"@;
    if base == p + g + q {
        assert(base.subrange(p.len() as int, (p.len() + g.len()) as int) =~= g);
        assert(words::occurs_at(base, g, p.len() as int));
    }
    if base == p + o + q {
        assert(base.subrange(p.len() as int, (p.len() + o.len()) as int) =~= o);
        assert(words::occurs_at(base, o, p.len() as int));
    }
    texts::lemma_trim_takes_all(none, Class::White);
    texts::lemma_end_trimmed(none, none, Class::Only('/'));
    assert(none + none =~= none);
    reveal_strlit("api.groq.com");
    assert(g.len() == 12);
}

/// What is shown of the speech source: the API model and its host, or the catalog
/// entry.
pub proof fn lemma_speech_source(s: Settings, p: Seq<char>, m: Seq<char>, q: Seq<char>)
    requires
        texts::all_in(p, Class::White),
        texts::all_in(q, Class::White),
        texts::is_core(m, Class::White),
        m.len() > 0,
    ensures
        s.audio_backend@ == "openai_compat"@ && s.audio_api_model@ == p + m + q
            ==> settings::speech_id(s) == m && settings::speech_name(s) == m
            && settings::speech_engine(s) == settings::host_label(s.audio_api_base@),
        s.audio_backend@ == "openai_compat"@ && s.audio_api_model@ == p ==> settings::speech_id(s)
            == "online model"@ && settings::speech_name(s) == "online model"@,
        s.audio_backend@ != "openai_compat"@ ==> settings::speech_id(s) == s.model_id@,
        s.audio_backend@ != "openai_compat"@ ==> match models::model_named(s.model_id@) {
            Some(e) => settings::speech_name(s) == e.name && settings::speech_engine(s)
                == e.engine.name(),
            None => settings::speech_name(s) == s.model_id@ && settings::speech_engine(s)
                == "Local"@,
        },
{
    texts::lemma_trim_keeps_core(p, m, q, Class::White);
    texts::lemma_trim_takes_all(p, Class::White);
}

/// Dictation starts where its model is there; a host needs a model name only.
pub proof fn lemma_speech_ready(s: &Settings, downloaded: bool, r: bool, source: &'static str)
    requires
        call_ensures(crate::settings::active_speech_ready, (s, downloaded), r),
        call_ensures(crate::settings::active_speech_source, (s,), source),
    ensures
        s.audio_backend@ == "openai_compat"@ ==> source@ == "online"@ && (r <==> words::trim(
            s.audio_api_model@,
        ).len() > 0),
        s.audio_backend@ != "openai_compat"@ ==> source@ == "local"@ && (r ==> downloaded),
        s.audio_backend@ != "openai_compat"@ && downloaded && models::model_named(
            s.model_id@,
        ) is Some ==> r,
{
}

/// Every entry comes with its files: a Whisper model is one file that is named after
/// it, and a Parakeet model is an encoder, a decoder, a joiner and a list of tokens.
pub proof fn lemma_files(i: int)
    requires
        0 <= i < models::catalog_info().len(),
    ensures
        ({
            let m = models::catalog_info()[i];
            &&& m.engine == EngineKind::Whisper ==> {
                &&& m.files.len() == 1
                &&& m.files[0].name == "ggml-"@ + m.id + ".bin"@
                &&& m.files[0].url == "https://huggingface.co/ggerganov/whisper.cpp/resolve/main/"@
                    + m.files[0].name
            }
            &&& m.engine == EngineKind::Parakeet ==> {
                &&& m.files.len() == 4
                &&& m.files[0].name == "encoder.int8.onnx"@
                &&& m.files[1].name == "decoder.int8.onnx"@
                &&& m.files[2].name == "joiner.int8.onnx"@
                &&& m.files[3].name == "tokens.txt"@
                &&& m.min_ram_gb == 4
            }
            &&& m.engine == EngineKind::Parakeet <==> i < 3
        }),
{
}

/// The files of a Parakeet model all come from its own repository.
pub proof fn lemma_repositories(i: int)
    requires
        0 <= i < 4,
    ensures
        ({
            let all = models::catalog_info();
            &&& all[0].id == "parakeet-v3"@ && all[1].id == "parakeet-ultra"@ && all[2].id
                == "parakeet-v2"@
            &&& all[0].files[i].url == "https://huggingface.co/"@
                + "csukuangfj/sherpa-onnx-nemo-parakeet-tdt-0.6b-v3-int8"@ + "/resolve/main/"@
                + all[0].files[i].name
            &&& all[1].files[i].url == "https://huggingface.co/"@
                + "mldecode/parakeet-ultra-onnx-int8"@ + "/resolve/main/"@ + all[1].files[i].name
            &&& all[2].files[i].url == "https://huggingface.co/"@
                + "csukuangfj/sherpa-onnx-nemo-parakeet-tdt-0.6b-v2-int8"@ + "/resolve/main/"@
                + all[2].files[i].name
        }),
{
}

/// A Whisper model whose id ends in `.en` is for English only, and the larger the
/// file, the more memory it needs.
pub proof fn lemma_whisper_entries(i: int)
    requires
        3 <= i < models::catalog_info().len(),
    ensures
        models::catalog_info().len() == 7,
        ({
            let m = models::catalog_info()[i];
            let bytes = m.files[0].expected_bytes;
            &&& words::ends_with(m.id, ".en"@) ==> m.languages == "English-only"@
            &&& !words::ends_with(m.id, ".en"@) ==> m.languages == "Multilingual"@
            &&& bytes > 300_000_000 <==> m.min_ram_gb == 8
            &&& 100_000_000 < bytes <= 300_000_000 <==> m.min_ram_gb == 4
            &&& bytes <= 100_000_000 <==> m.min_ram_gb == 2
        }),
{
    reveal_strlit(".en");
    reveal_strlit("small.en");
    reveal_strlit("base.en");
    reveal_strlit("tiny.en");
    reveal_strlit("small");
    assert("small.en"@.subrange(5, 8) =~= ".en"@);
    assert("base.en"@.subrange(4, 7) =~= ".en"@);
    assert("tiny.en"@.subrange(4, 7) =~= ".en"@);
    assert("small"@[4] == 'l');
    assert(".en"@[2] == 'n');
    if words::ends_with("small"@, ".en"@) {
        assert("small"@.subrange(2, 5)[2] == 'l');
    }
}

/// The ids of the catalog, and what each is called.
pub proof fn lemma_names()
    ensures
        ({
            let all = models::catalog_info();
            &&& all[0].name == "Parakeet TDT 0.6B v3"@
            &&& all[1].name == "Parakeet Ultra 0.6B"@
            &&& all[2].name == "Parakeet TDT 0.6B v2"@
            &&& all[3].id == "small.en"@ && all[3].name == "Whisper Small"@
            &&& all[4].id == "base.en"@ && all[4].name == "Whisper Base"@
            &&& all[5].id == "tiny.en"@ && all[5].name == "Whisper Tiny"@
            &&& all[6].id == "small"@ && all[6].name == "Whisper Small Multi"@
        }),
{
}

/// A model is found under its id, and no other text finds one.
pub proof fn lemma_found(id: Seq<char>, i: int)
    ensures
        0 <= i < models::catalog_info().len() ==> models::model_named(models::catalog_info()[i].id)
            == Some(models::catalog_info()[i]),
        models::model_named(id) matches Some(m) ==> m.id == id && models::catalog_info().contains(m),
        (forall|k: int|
            0 <= k < models::catalog_info().len() ==> (#[trigger] models::catalog_info()[k]).id
                != id) ==> models::model_named(id) is None,
{
    if 0 <= i < models::catalog_info().len() {
        lemma_search(models::catalog_info()[i].id, 0, i);
    }
    lemma_search_sound(id, 0);
}

proof fn lemma_search(id: Seq<char>, from: int, i: int)
    requires
        0 <= from <= i < models::catalog_info().len(),
        models::catalog_info()[i].id == id,
    ensures
        models::entry_from(models::catalog_info(), id, from) == Some(models::catalog_info()[i]),
    decreases i - from,
{
    if from < i {
        models::lemma_catalog_ids(from, i);
        lemma_search(id, from + 1, i);
    }
}

proof fn lemma_search_sound(id: Seq<char>, from: int)
    requires
        0 <= from <= models::catalog_info().len(),
    ensures
        models::entry_from(models::catalog_info(), id, from) matches Some(m) ==> m.id == id
            && models::catalog_info().contains(m),
    decreases models::catalog_info().len() - from,
{
    if from < models::catalog_info().len() {
        lemma_search_sound(id, from + 1);
        assert(models::catalog_info().contains(models::catalog_info()[from]));
    }
}

/// A model is there where each of its files is.
pub proof fn lemma_downloaded(m: &ModelEntry, present: &Vec<bool>, i: int, r: bool)
    requires
        call_ensures(ModelEntry::is_downloaded, (m, present), r),
        present@.len() == m.files@.len(),
        0 <= i < m.files@.len(),
    ensures
        r ==> present@[i],
        (forall|k: int| 0 <= k < present@.len() ==> #[trigger] present@[k]) ==> r,
{
    if r {
        assert(models::all_there(present@));
    }
}

/// The names of the engines.
pub proof fn lemma_engine_names()
    ensures
        EngineKind::Whisper.name() == "Whisper"@,
        EngineKind::Parakeet.name() == "Parakeet"@,
{
}

/// What the catalog says of each model: languages, size on disk, speed and accuracy.
pub proof fn lemma_ratings()
    ensures
        ({
            let all = models::catalog_info();
            &&& all[0].languages == "25 languages"@ && all[0].size_label == "~670 MB"@
            &&& all[1].languages == "25 languages"@ && all[1].size_label == "~630 MB"@
            &&& all[2].languages == "English-only"@ && all[2].size_label == "~660 MB"@
            &&& all[3].size_label == "~470 MB"@ && all[3].files[0].expected_bytes == 466_000_000
            &&& all[4].size_label == "~145 MB"@ && all[4].files[0].expected_bytes == 142_000_000
            &&& all[5].size_label == "~75 MB"@ && all[5].files[0].expected_bytes == 75_000_000
            &&& all[6].size_label == "~490 MB"@ && all[6].files[0].expected_bytes == 488_000_000
            &&& all[0].speed_tenths == 97 && all[0].accuracy_tenths == 92
            &&& all[1].speed_tenths == 95 && all[1].accuracy_tenths == 95
            &&& all[2].speed_tenths == 98 && all[2].accuracy_tenths == 91
            &&& all[3].speed_tenths == 80 && all[3].accuracy_tenths == 85
            &&& all[4].speed_tenths == 90 && all[4].accuracy_tenths == 75
            &&& all[5].speed_tenths == 95 && all[5].accuracy_tenths == 60
            &&& all[6].speed_tenths == 78 && all[6].accuracy_tenths == 85
            &&& all[0].essence == "Best all-rounder"@ && all[1].essence == "Most accurate"@
            &&& all[2].essence == "Fastest English"@ && all[3].essence == "Reliable"@
            &&& all[4].essence == "Fast & light"@ && all[5].essence == "Featherweight"@
            &&& all[6].essence == "Multilingual"@
        }),
{
}

/// No model is faster than the one that is called the fastest, and none more accurate
/// than the one that is called the most accurate. The three Parakeet models have files
/// of the same sizes.
pub proof fn lemma_best(i: int, k: int)
    requires
        0 <= i < models::catalog_info().len(),
        0 <= k < 4,
    ensures
        models::catalog_info()[i].speed_tenths <= models::catalog_info()[2].speed_tenths,
        models::catalog_info()[i].accuracy_tenths <= models::catalog_info()[1].accuracy_tenths,
        i < 3 ==> models::catalog_info()[i].files[k].expected_bytes == (if k == 0 {
            640_000_000u64
        } else if k == 1 {
            18_000_000
        } else if k == 2 {
            7_000_000
        } else {
            4_000
        }),
{
}

/// A model lives in a directory that is named after it, and the file of one that is a
/// single file lies there under its own name.
pub proof fn lemma_model_paths(m: &ModelEntry, d: Vec<String>, f: Option<Vec<String>>)
    requires
        call_ensures(ModelEntry::dir, (m,), d),
        call_ensures(ModelEntry::single_path, (m,), f),
    ensures
        d@.len() == 2 && d@[0]@ == "models"@ && d@[1]@ == m.id@,
        m.files@.len() != 1 ==> f is None,
        m.files@.len() == 1 ==> (f matches Some(v) && v@.len() == 3 && v@[0]@ == d@[0]@ && v@[1]@
            == d@[1]@ && v@[2]@ == m.files@[0].name@),
{
}

/// The model that the wizard recommends is that of a fresh install, the first of the
/// catalog.
pub proof fn lemma_recommended(a: &'static str, b: String)
    requires
        call_ensures(crate::onboarding::recommended_model_id, (), a),
        call_ensures(crate::models::default_model_id, (), b),
    ensures
        a@ == b@,
        a@ == models::catalog_info()[0].id,
{
    models::lemma_default_model();
}

} // verus!
