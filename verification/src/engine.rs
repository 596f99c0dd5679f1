//! Transcription routing and post-processing, around the speech engines.

use crate::chars;
use crate::chars::{cat, cat3, str_eq};
use crate::format::apply_offline_format;
use crate::models;
use crate::models::{find, EngineKind};
use crate::platform::Platform;
use crate::polish;
use crate::json::Json;
use crate::polish::{default_base, plan_polish, ChatRequest, PolishArgs, Secrets};
use crate::settings::Settings;
use crate::text;
use crate::text::{
    apply_dictionary, copy_entries, remove_fillers, smart_trailing_punctuation, sort_dictionary,
    tidy_punctuation, DictionaryEntry,
};
use crate::vad;
use crate::vad::gate_and_trim;
use crate::words;
use crate::words::trimmed;
use vstd::prelude::*;
use vstd::string::*;

verus! {

/// The name of the Whisper sidecar.
pub fn whisper_binary_name(platform: Platform) -> (r: &'static str)
    ensures
        r@ == (if platform == Platform::Windows {
            "whisper-cli.exe"@
        } else {
            "whisper-cli"@
        }),
{
    if platform == Platform::Windows {
        "whisper-cli.exe"
    } else {
        "whisper-cli"
    }
}

/// Threads of the recognizer: up to four of those that are there, two where
/// that is not known.
pub fn num_threads(available: Option<usize>) -> (r: i32)
    ensures
        r == (match available {
            Some(n) => if n < 4 {
                n as int
            } else {
                4
            },
            None => 2,
        }),
{
    match available {
        Some(n) => if n < 4 {
            n as i32
        } else {
            4
        },
        None => 2,
    }
}

/// Why a Parakeet model cannot be loaded, if it cannot.
pub open spec fn load_error(model_id: Seq<char>, downloaded: bool) -> Option<Seq<char>> {
    match models::model_named(model_id) {
        None => Some("unknown model: "@ + model_id),
        Some(m) => if m.engine != EngineKind::Parakeet {
            Some(model_id + " is not a Parakeet model"@)
        } else if !downloaded {
            Some(m.name + " is not downloaded yet — open Models and download it first"@)
        } else {
            None
        },
    }
}

/// Whether a model has to be loaded: not where it is the one in memory.
pub fn ensure_parakeet(
    loaded: Option<&str>,
    model_id: &str,
    downloaded: bool,
) -> (r: Result<bool, String>)
    ensures
        match r {
            Ok(needs_load) => {
                &&& needs_load == !(loaded matches Some(id) && id@ == model_id@)
                &&& needs_load ==> load_error(model_id@, downloaded) is None
            },
            Err(e) => !(loaded matches Some(id) && id@ == model_id@) && load_error(
                model_id@,
                downloaded,
            ) == Some(e@),
        },
{
    if let Some(id) = loaded {
        if str_eq(id, model_id) {
            return Ok(false);
        }
    }
    match find(model_id) {
        None => Err(cat("unknown model: ", model_id)),
        Some(m) => {
            if m.engine != EngineKind::Parakeet {
                return Err(cat(model_id, " is not a Parakeet model"));
            }
            if !downloaded {
                return Err(
                    cat(
                        m.name.as_str(),
                        " is not downloaded yet — open Models and download it first",
                    ),
                );
            }
            Ok(true)
        },
    }
}

/// The transcript that a recognizer gave, or why there is none.
pub fn decoded_text(samples: usize, heard: Option<&str>) -> (r: Result<String, &'static str>)
    ensures
        match r {
            Ok(s) => samples > 0 && heard is Some && s@ == words::trim(heard->0@) && s@.len() > 0,
            Err(e) => if samples == 0 {
                e@ == "no audio captured"@
            } else {
                e@ == "transcription was empty"@ && (heard matches Some(h) ==> words::trim(
                    h@,
                ).len() == 0)
            },
        },
{
    if samples == 0 {
        return Err("no audio captured");
    }
    match heard {
        Some(h) => {
            let t = trimmed(h);
            if t.as_str().is_empty() {
                Err("transcription was empty")
            } else {
                Ok(t)
            }
        },
        None => Err("transcription was empty"),
    }
}

/// What the language models are asked for. The temperature is the bit pattern of
/// a single-precision value.
#[derive(Debug)]
pub struct PolishCfg {
    pub audio_backend: String,
    pub audio_api_base: String,
    pub audio_api_model: String,
    pub audio_api_key: String,
    pub llm_backend: String,
    pub llm_api_base: String,
    pub llm_api_model: String,
    pub llm_api_key: String,
    pub llm_temperature: u32,
    pub llm_timeout_ms: u64,
    pub llm_preset: String,
    pub llm_custom_prompt: String,
    pub llm_enabled: bool,
}

/// An address, or the standard one of a backend where it is blank.
pub open spec fn base_or(base: Seq<char>, backend: Seq<char>) -> Seq<char> {
    if words::trim(base).len() == 0 {
        polish::base_of(backend)
    } else {
        base
    }
}

fn base_or_default(base: &String, backend: &str) -> (r: String)
    ensures
        r@ == base_or(base@, backend@),
{
    let t = trimmed(base.as_str());
    if t.as_str().is_empty() {
        default_base(backend).to_owned()
    } else {
        base.clone()
    }
}

/// `r` is what the settings and the keys say.
pub open spec fn is_polish_cfg(r: PolishCfg, settings: Settings, secrets: Secrets) -> bool {
    &&& r.audio_backend@ == settings.audio_backend@
    &&& r.audio_api_base@ == base_or(settings.audio_api_base@, "openai_compat"@)
    &&& r.audio_api_model@ == settings.audio_api_model@
    &&& r.audio_api_key@ == secrets.audio_api_key@
    &&& r.llm_backend@ == settings.llm_backend@
    &&& r.llm_api_base@ == base_or(settings.llm_api_base@, settings.llm_backend@)
    &&& r.llm_api_model@ == settings.llm_api_model@
    &&& r.llm_api_key@ == secrets.llm_api_key@
    &&& r.llm_temperature == settings.llm_temperature
    &&& r.llm_timeout_ms == settings.llm_timeout_ms
    &&& r.llm_preset@ == settings.llm_preset@
    &&& r.llm_custom_prompt@ == settings.llm_custom_prompt@
    &&& r.llm_enabled == settings.llm_enabled
}

pub fn polish_cfg(settings: &Settings, secrets: Secrets) -> (r: PolishCfg)
    ensures
        is_polish_cfg(r, *settings, secrets),
{
    PolishCfg {
        audio_backend: settings.audio_backend.clone(),
        audio_api_base: base_or_default(&settings.audio_api_base, "openai_compat"),
        audio_api_model: settings.audio_api_model.clone(),
        audio_api_key: secrets.audio_api_key,
        llm_backend: settings.llm_backend.clone(),
        llm_api_base: base_or_default(&settings.llm_api_base, settings.llm_backend.as_str()),
        llm_api_model: settings.llm_api_model.clone(),
        llm_api_key: secrets.llm_api_key,
        llm_temperature: settings.llm_temperature,
        llm_timeout_ms: settings.llm_timeout_ms,
        llm_preset: settings.llm_preset.clone(),
        llm_custom_prompt: settings.llm_custom_prompt.clone(),
        llm_enabled: settings.llm_enabled,
    }
}

/// Whether a language is named.
pub open spec fn names_language(language: Seq<char>) -> bool {
    language != "auto"@ && language.len() > 0
}

/// The arguments of the Whisper sidecar. Translating needs a language by name.
pub open spec fn whisper_arguments(
    model: Seq<char>,
    wav: Seq<char>,
    out_prefix: Seq<char>,
    language: Seq<char>,
    translate: bool,
) -> Seq<Seq<char>> {
    seq!["-m"@, model, "-f"@, wav, "-otxt"@, "-of"@, out_prefix, "--no-prints"@] + (
    if names_language(language) {
        seq!["-l"@, language]
    } else {
        Seq::empty()
    }) + (if translate && names_language(language) {
        seq!["--translate"@]
    } else {
        Seq::empty()
    })
}

pub fn whisper_args(
    model: &str,
    wav: &str,
    out_prefix: &str,
    language: &str,
    translate: bool,
) -> (r: Vec<String>)
    ensures
        chars::texts(r@) == whisper_arguments(model@, wav@, out_prefix@, language@, translate),
{
    let mut v: Vec<String> = Vec::new();
    v.push("-m".to_owned());
    v.push(model.to_owned());
    v.push("-f".to_owned());
    v.push(wav.to_owned());
    v.push("-otxt".to_owned());
    v.push("-of".to_owned());
    v.push(out_prefix.to_owned());
    v.push("--no-prints".to_owned());
    let named = !str_eq(language, "auto") && !language.is_empty();
    if named {
        v.push("-l".to_owned());
        v.push(language.to_owned());
    }
    if translate && named {
        v.push("--translate".to_owned());
    }
    assert(chars::texts(v@) =~= whisper_arguments(
        model@,
        wav@,
        out_prefix@,
        language@,
        translate,
    ));
    v
}

/// What a Whisper run needs, as the system reports it, in the order in which it
/// is looked for. Paths are those to name in a message.
pub fn whisper_ready(
    model_id: &str,
    model_path: &str,
    model_there: bool,
    bin_dir: &str,
    binary_there: bool,
) -> (r: Result<(), String>)
    ensures
        match models::model_named(model_id@) {
            None => r matches Err(e) && e@ == "unknown model"@,
            Some(m) => if m.files.len() != 1 {
                r matches Err(e) && e@ == "not a single-file model"@
            } else if !model_there {
                r matches Err(e) && e@ == "model not downloaded yet: "@ + model_path@
                    + " (open Models and download it first)"@
            } else if !binary_there {
                r matches Err(e) && e@
                    == "whisper-cli not found — place a whisper.cpp build at "@ + bin_dir@
                    + " or put it on PATH"@
            } else {
                r is Ok
            },
        },
{
    match find(model_id) {
        None => Err("unknown model".to_owned()),
        Some(m) => {
            assert(m@.files.len() == m.files@.len());
            if m.files.len() != 1 {
                return Err("not a single-file model".to_owned());
            }
            if !model_there {
                return Err(
                    cat3(
                        "model not downloaded yet: ",
                        model_path,
                        " (open Models and download it first)",
                    ),
                );
            }
            if !binary_there {
                return Err(
                    cat3(
                        "whisper-cli not found — place a whisper.cpp build at ",
                        bin_dir,
                        " or put it on PATH",
                    ),
                );
            }
            Ok(())
        },
    }
}

/// Where a take is transcribed.
#[derive(Debug, Clone, Copy, PartialEq, Eq, Structural)]
pub enum SpeechRoute {
    Online,
    Whisper,
    Parakeet,
}

/// Where a take is transcribed: at a host, or by the engine of the model.
pub open spec fn route_of(audio_backend: Seq<char>, model_id: Seq<char>) -> Option<SpeechRoute> {
    if audio_backend == "openai_compat"@ {
        Some(SpeechRoute::Online)
    } else {
        match models::model_named(model_id) {
            Some(m) => Some(
                match m.engine {
                    EngineKind::Whisper => SpeechRoute::Whisper,
                    EngineKind::Parakeet => SpeechRoute::Parakeet,
                },
            ),
            None => None,
        }
    }
}

pub fn speech_route(audio_backend: &str, model_id: &str) -> (r: Result<SpeechRoute, &'static str>)
    ensures
        match r {
            Ok(route) => route_of(audio_backend@, model_id@) == Some(route),
            Err(e) => route_of(audio_backend@, model_id@) is None && e@ == "unknown model"@,
        },
{
    if str_eq(audio_backend, "openai_compat") {
        return Ok(SpeechRoute::Online);
    }
    match find(model_id) {
        Some(m) => match m.engine {
            EngineKind::Whisper => Ok(SpeechRoute::Whisper),
            EngineKind::Parakeet => Ok(SpeechRoute::Parakeet),
        },
        None => Err("unknown model"),
    }
}

/// Timeout of an audio request: fifteen seconds at least.
pub fn audio_timeout(timeout_ms: u64) -> (r: u64)
    ensures
        r == (if timeout_ms < 15_000 {
            15_000
        } else {
            timeout_ms
        }),
{
    if timeout_ms < 15_000 {
        15_000
    } else {
        timeout_ms
    }
}

/// The length of a clip at 16 kHz, in nanoseconds.
pub fn clip_duration_ns(samples: usize) -> (r: u64)
    requires
        samples * 62_500 <= u64::MAX,
    ensures
        r == samples * 62_500,
        r * 16_000 == samples * 1_000_000_000,
{
    (samples as u64) * 62_500
}

/// A text after the cleanup of a level.
pub open spec fn cleaned(text: Seq<char>, cleanup: Seq<char>) -> Seq<char> {
    if cleanup == "light"@ || cleanup == "medium"@ {
        text::without_fillers(text)
    } else if cleanup == "full"@ || cleanup == "high"@ {
        text::tidied(text::without_fillers(text))
    } else {
        text
    }
}

pub fn apply_cleanup(text: &str, cleanup: &str) -> (r: String)
    ensures
        r@ == cleaned(text@, cleanup@),
{
    if str_eq(cleanup, "light") || str_eq(cleanup, "medium") {
        remove_fillers(text)
    } else if str_eq(cleanup, "full") || str_eq(cleanup, "high") {
        let t = remove_fillers(text);
        tidy_punctuation(t.as_str())
    } else {
        text.to_owned()
    }
}

/// A transcript after the local rules.
#[derive(Debug)]
pub struct RulesResult {
    pub text: String,
    pub raw_text: String,
    pub dict_hits: u32,
    /// The dictionary with its usage counted and sorted, where a rule fired.
    pub dictionary: Option<Vec<DictionaryEntry>>,
}

/// A transcript before the dictionary: trimmed, then spoken commands, backtrack
/// and lists.
pub open spec fn before_dictionary(raw: Seq<char>) -> Seq<char> {
    crate::format::offline_formatted(words::trim(raw))
}

/// A transcript after the local rules.
pub open spec fn ruled(
    raw: Seq<char>,
    dictionary: Seq<DictionaryEntry>,
    cleanup: Seq<char>,
) -> Seq<char> {
    text::smartly_ended(
        cleaned(
            text::after_rules(before_dictionary(raw), dictionary, dictionary.len() as int),
            cleanup,
        ),
    )
}

/// `entries` is `dictionary` with the usage of each rule counted.
pub open spec fn usage_counted(
    dictionary: Seq<DictionaryEntry>,
    entries: Seq<DictionaryEntry>,
    formatted: Seq<char>,
) -> bool {
    &&& entries.len() == dictionary.len()
    &&& forall|i: int| #![trigger entries[i]]
        0 <= i < dictionary.len() ==> entries[i] == text::used(
            dictionary[i],
            text::rule_hits(text::after_rules(formatted, dictionary, i), dictionary[i]),
        )
}

/// `r` is what the local rules make of a transcript. The dictionary is given back
/// where a rule fired, with its usage counted and sorted.
pub open spec fn is_ruled(
    r: RulesResult,
    raw: Seq<char>,
    dictionary: Seq<DictionaryEntry>,
    cleanup: Seq<char>,
) -> bool {
    &&& r.raw_text@ == words::trim(raw)
    &&& r.text@ == ruled(raw, dictionary, cleanup)
    &&& r.dict_hits == text::hits_of_rules(
        before_dictionary(raw),
        dictionary,
        dictionary.len() as int,
    )
    &&& r.dictionary is Some <==> r.dict_hits > 0
    &&& r.dictionary matches Some(d) ==> exists|entries: Seq<DictionaryEntry>| #[trigger]
        usage_counted(dictionary, entries, before_dictionary(raw)) && text::is_sorted_from(
            entries,
            d@,
        )
}

/// Runs the local rules over a transcript: spoken commands, backtrack and lists,
/// then the dictionary, then the cleanup, then the trailing full stop.
pub fn apply_rules(raw: &str, dictionary: &Vec<DictionaryEntry>, cleanup: &str) -> (r: RulesResult)
    ensures
        is_ruled(r, raw@, dictionary@, cleanup@),
{
    let raw_text = trimmed(raw);
    let formatted = apply_offline_format(raw_text.as_str());
    let mut entries = copy_entries(dictionary);
    let (out, dict_hits) = apply_dictionary(formatted.as_str(), &mut entries);
    assert(usage_counted(dictionary@, entries@, before_dictionary(raw@)));
    let kept = if dict_hits > 0 {
        sort_dictionary(&mut entries);
        Some(entries)
    } else {
        None
    };
    let out = apply_cleanup(out.as_str(), cleanup);
    let out = smart_trailing_punctuation(out.as_str());
    RulesResult { text: out, raw_text, dict_hits, dictionary: kept }
}

/// Whether a language model is asked after the rules.
pub open spec fn asks_llm(cfg: PolishCfg, cleanup: Seq<char>) -> bool {
    (cfg.llm_enabled || cleanup == "medium"@ || cleanup == "high"@) && cfg.llm_backend@ != "off"@
}

/// The preset of a cleanup level.
pub open spec fn preset_for(cfg: PolishCfg, cleanup: Seq<char>) -> Seq<char> {
    if cleanup == "high"@ {
        "professional"@
    } else if cleanup == "medium"@ {
        "clean"@
    } else {
        cfg.llm_preset@
    }
}

/// `a` is what the language model is asked for after the rules.
pub open spec fn asks_with(
    a: PolishArgs,
    cfg: PolishCfg,
    cleanup: Seq<char>,
    text: Seq<char>,
) -> bool {
    &&& a.backend@ == cfg.llm_backend@
    &&& a.base_url@ == cfg.llm_api_base@
    &&& a.api_key@ == cfg.llm_api_key@
    &&& a.model@ == cfg.llm_api_model@
    &&& a.preset@ == preset_for(cfg, cleanup)
    &&& a.custom_prompt@ == cfg.llm_custom_prompt@
    &&& a.temperature == cfg.llm_temperature
    &&& a.timeout_ms == cfg.llm_timeout_ms
    &&& a.text@ == text
}

/// What the language model is asked for, where it is asked.
pub fn polish_args<'a>(cfg: &'a PolishCfg, cleanup: &str, text: &'a str) -> (r: Option<
    PolishArgs<'a>,
>)
    ensures
        r is Some <==> asks_llm(*cfg, cleanup@),
        r matches Some(a) ==> asks_with(a, *cfg, cleanup@, text@),
{
    let high = str_eq(cleanup, "high");
    let medium = str_eq(cleanup, "medium");
    if !(cfg.llm_enabled || medium || high) || str_eq(cfg.llm_backend.as_str(), "off") {
        return None;
    }
    let preset: &'a str = if high {
        "professional"
    } else if medium {
        "clean"
    } else {
        cfg.llm_preset.as_str()
    };
    Some(
        PolishArgs {
            backend: cfg.llm_backend.as_str(),
            base_url: cfg.llm_api_base.as_str(),
            api_key: cfg.llm_api_key.as_str(),
            model: cfg.llm_api_model.as_str(),
            preset,
            custom_prompt: cfg.llm_custom_prompt.as_str(),
            temperature: cfg.llm_temperature,
            timeout_ms: cfg.llm_timeout_ms,
            text,
        },
    )
}

/// The text of a take: the polished one where there is one, trimmed.
pub open spec fn final_text(ruled: Seq<char>, polished: Option<Seq<char>>) -> Seq<char> {
    words::trim(
        match polished {
            Some(p) => p,
            None => ruled,
        },
    )
}

/// Ends a transcription with what the language model gave, if anything.
pub fn finish_text(ruled: &str, polished: Option<String>) -> (r: Result<String, &'static str>)
    ensures
        match r {
            Ok(s) => s@ == final_text(ruled@, polish::opt_text(polished)) && s@.len() > 0,
            Err(e) => final_text(ruled@, polish::opt_text(polished)).len() == 0 && e@ == "transcription was empty"@,
        },
{
    let out = match polished {
        Some(p) => trimmed(p.as_str()),
        None => trimmed(ruled),
    };
    if out.as_str().is_empty() {
        Err("transcription was empty")
    } else {
        Ok(out)
    }
}

/// What a transcription gives.
#[derive(Debug)]
pub struct TranscriptResult {
    pub text: String,
    pub raw_text: String,
    pub duration_ns: u64,
    pub dict_hits: u32,
}

/// Puts the result of a transcription together. The duration is that of the
/// whole recording, not of the part that was transcribed.
pub fn finish_transcription(
    rules: RulesResult,
    polished: Option<String>,
    samples: usize,
) -> (r: Result<TranscriptResult, &'static str>)
    requires
        samples * 62_500 <= u64::MAX,
    ensures
        match r {
            Ok(t) => {
                &&& t.text@ == final_text(rules.text@, polish::opt_text(polished))
                &&& t.text@.len() > 0
                &&& t.raw_text == rules.raw_text
                &&& t.duration_ns == samples * 62_500
                &&& t.dict_hits == rules.dict_hits
            },
            Err(e) => final_text(rules.text@, polish::opt_text(polished)).len() == 0 && e@
                == "transcription was empty"@,
        },
{
    match finish_text(rules.text.as_str(), polished) {
        Ok(text) => Ok(
            TranscriptResult {
                text,
                raw_text: rules.raw_text,
                duration_ns: clip_duration_ns(samples),
                dict_hits: rules.dict_hits,
            },
        ),
        Err(e) => Err(e),
    }
}

/// A take that is to be transcribed, and what the settings say of it.
#[derive(Debug)]
pub struct TranscribeInput {
    pub model_id: String,
    pub language: String,
    pub cleanup: String,
    pub translate: bool,
    pub dictionary: Vec<DictionaryEntry>,
    pub polish: PolishCfg,
}

/// What the settings say of a take.
pub fn transcribe_input(
    settings: &Settings,
    dictionary: Vec<DictionaryEntry>,
    secrets: Secrets,
) -> (r: TranscribeInput)
    ensures
        r.model_id@ == settings.model_id@,
        r.language@ == settings.language@,
        r.cleanup@ == settings.cleanup@,
        r.translate == settings.translate,
        r.dictionary == dictionary,
        is_polish_cfg(r.polish, *settings, secrets),
{
    TranscribeInput {
        model_id: settings.model_id.clone(),
        language: settings.language.clone(),
        cleanup: settings.cleanup.clone(),
        translate: settings.translate,
        dictionary,
        polish: polish_cfg(settings, secrets),
    }
}

/// What a speech engine is given.
#[derive(Debug)]
pub struct SpeechTask {
    pub route: SpeechRoute,
    pub samples: Vec<u32>,
}

/// The first step of a transcription, from the whole recording at 16 kHz and the
/// speech in it, as the detector found it: what the speech engine is given, or
/// what the user is told.
pub fn begin_transcription(
    input: &TranscribeInput,
    samples_16k: &Vec<u32>,
    segments: Option<Vec<(usize, usize)>>,
) -> (r: Result<SpeechTask, &'static str>)
    ensures
        match vad::let_through(samples_16k@, 16_000, vad::spans_of(segments)) {
            Err(why) => r matches Err(e) && e@ == why.words(),
            Ok(clip) => match route_of(input.polish.audio_backend@, input.model_id@) {
                Some(route) => r matches Ok(t) && t.route == route && t.samples@ == clip,
                None => r matches Err(e) && e@ == "unknown model"@,
            },
        },
{
    match gate_and_trim(samples_16k, 16_000, segments) {
        Err(why) => Err(why.message()),
        Ok(samples) => match speech_route(
            input.polish.audio_backend.as_str(),
            input.model_id.as_str(),
        ) {
            Ok(route) => Ok(SpeechTask { route, samples }),
            Err(e) => Err(e),
        },
    }
}

/// The second step, from what the speech engine heard: the text of the local
/// rules, and the request to the language model where one is made.
pub fn continue_transcription(input: &TranscribeInput, heard: &str) -> (r: (
    RulesResult,
    Option<ChatRequest>,
))
    ensures
        is_ruled(r.0, heard@, input.dictionary@, input.cleanup@),
        r.1 is Some <==> asks_llm(input.polish, input.cleanup@) && words::trim(
            r.0.text@,
        ).len() > 0,
        r.1 matches Some(q) ==> exists|a: PolishArgs| #[trigger]
            asks_with(a, input.polish, input.cleanup@, r.0.text@) && polish::is_request(q, a),
{
    let rules = apply_rules(heard, &input.dictionary, input.cleanup.as_str());
    let request = match polish_args(&input.polish, input.cleanup.as_str(), rules.text.as_str()) {
        Some(args) => plan_polish(&args),
        None => None,
    };
    (rules, request)
}

/// The text that the language model gave, where it was asked and answered.
pub open spec fn polished_text(
    cfg: PolishCfg,
    cleanup: Seq<char>,
    ruled: Seq<char>,
    reply: Option<Json>,
) -> Option<Seq<char>> {
    if asks_llm(cfg, cleanup) && words::trim(ruled).len() > 0 && reply is Some {
        polish::reply_text(polish::dialect_of(cfg.llm_backend@), reply->0.tree())
    } else {
        None
    }
}

/// The last step, from the text of the local rules and the reply of the language
/// model; a request that failed has none. `samples` is the length of the whole
/// recording.
pub fn end_transcription(
    input: &TranscribeInput,
    rules: RulesResult,
    reply: Option<Json>,
    samples: usize,
) -> (r: Result<TranscriptResult, &'static str>)
    requires
        samples * 62_500 <= u64::MAX,
    ensures
        ({
            let text = final_text(
                rules.text@,
                polished_text(input.polish, input.cleanup@, rules.text@, reply),
            );
            match r {
                Ok(t) => {
                    &&& t.text@ == text
                    &&& t.text@.len() > 0
                    &&& t.raw_text == rules.raw_text
                    &&& t.duration_ns == samples * 62_500
                    &&& t.dict_hits == rules.dict_hits
                },
                Err(e) => text.len() == 0 && e@ == "transcription was empty"@,
            }
        }),
{
    let polished = match polish_args(&input.polish, input.cleanup.as_str(), rules.text.as_str()) {
        Some(args) => polish::polish(&args, reply),
        None => None,
    };
    finish_transcription(rules, polished, samples)
}

/// A language model that does not answer, or answers with nothing, costs
/// nothing: the text of the local rules is kept.
pub proof fn lemma_rules_survive(
    cfg: PolishCfg,
    cleanup: Seq<char>,
    ruled: Seq<char>,
    reply: Option<Json>,
)
    requires
        reply matches Some(v) ==> polish::reply_text(
            polish::dialect_of(cfg.llm_backend@),
            v.tree(),
        ) is None,
    ensures
        final_text(ruled, polished_text(cfg, cleanup, ruled, reply)) == words::trim(ruled),
{
}

/// With the cleanup off and no rule that fires, the dictionary and the cleanup
/// leave the formatted text alone.
pub proof fn lemma_off_changes_nothing(
    raw: Seq<char>,
    dictionary: Seq<DictionaryEntry>,
    cleanup: Seq<char>,
)
    requires
        cleanup == "off"@,
        forall|i: int| 0 <= i < dictionary.len() ==> !text::rule_is_active(
            #[trigger] dictionary[i],
        ),
    ensures
        ruled(raw, dictionary, cleanup) == text::smartly_ended(before_dictionary(raw)),
{
    reveal_strlit("off");
    reveal_strlit("light");
    reveal_strlit("medium");
    reveal_strlit("full");
    reveal_strlit("high");
    assert("off"@.len() == 3);
    assert("light"@.len() == 5 && "medium"@.len() == 6 && "full"@.len() == 4 && "high"@.len()
        == 4);
    lemma_inactive_rules(before_dictionary(raw), dictionary, dictionary.len() as int);
}

proof fn lemma_inactive_rules(text: Seq<char>, dictionary: Seq<DictionaryEntry>, n: int)
    requires
        0 <= n <= dictionary.len(),
        forall|i: int| 0 <= i < dictionary.len() ==> !text::rule_is_active(
            #[trigger] dictionary[i],
        ),
    ensures
        text::after_rules(text, dictionary, n) == text,
    decreases n,
{
    if n > 0 {
        lemma_inactive_rules(text, dictionary, n - 1);
        assert(!text::rule_is_active(dictionary[n - 1]));
    }
}

} // verus!
