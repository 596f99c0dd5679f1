//! A take, from the microphone to the finished text.

use crate::chars;
use crate::devices;
use crate::devices::BlankAudio;
use crate::dictation;
use crate::dictation::{TickAction, TickInput};
use crate::engine;
use crate::engine::{
    PolishCfg, RulesResult, SpeechRoute, SpeechTask, TranscribeInput, TranscriptResult,
};
use crate::json::Json;
use crate::laws::texts;
use crate::models;
use crate::models::EngineKind;
use crate::polish;
use crate::polish::{ChatRequest, PolishArgs, Secrets};
use crate::session;
use crate::session::SessionTick;
use crate::settings::Settings;
use crate::text;
use crate::text::DictionaryEntry;
use crate::vad;
use crate::words;
use crate::words::Class;
use vstd::prelude::*;
use vstd::string::*;

verus! {

proof fn lemma_level_names()
    ensures
        "off"@.len() == 3,
        "light"@.len() == 5,
        "medium"@.len() == 6,
        "full"@.len() == 4 && "full"@[0] == 'f',
        "high"@.len() == 4 && "high"@[0] == 'h',
{
    reveal_strlit("off");
    reveal_strlit("light");
    reveal_strlit("medium");
    reveal_strlit("full");
    reveal_strlit("high");
}

/// The local rules: the trimmed transcript goes through the offline passes, then
/// through the dictionary, then through the cleanup of its level, and loses a final full
/// stop last. The levels `light` and `medium` drop the fillers, `full` and `high` tidy
/// the punctuation too, and any other level changes nothing.
pub proof fn lemma_rules(
    p: Seq<char>,
    s: Seq<char>,
    q: Seq<char>,
    raw: &str,
    dictionary: &Vec<DictionaryEntry>,
    cleanup: &str,
    r: RulesResult,
)
    requires
        call_ensures(crate::engine::apply_rules, (raw, dictionary, cleanup), r),
        raw@ == p + s + q,
        texts::all_in(p, Class::White),
        texts::is_core(s, Class::White),
        texts::all_in(q, Class::White),
    ensures
        ({
            let formatted = crate::format::offline_formatted(s);
            let n = dictionary@.len() as int;
            let looked_up = text::after_rules(formatted, dictionary@, n);
            let level = cleanup@;
            &&& r.raw_text@ == s
            &&& r.dict_hits == text::hits_of_rules(formatted, dictionary@, n)
            &&& level == "light"@ || level == "medium"@ ==> r.text@ == text::smartly_ended(
                text::without_fillers(looked_up),
            )
            &&& level == "full"@ || level == "high"@ ==> r.text@ == text::smartly_ended(
                text::tidied(text::without_fillers(looked_up)),
            )
            &&& level != "light"@ && level != "medium"@ && level != "full"@ && level != "high"@
                ==> r.text@ == text::smartly_ended(looked_up)
            &&& r.dictionary is Some <==> r.dict_hits > 0
        }),
{
    lemma_level_names();
    texts::lemma_trim_keeps_core(p, s, q, Class::White);
}

/// The offline passes are the spoken commands, then the backtrack, then the lists.
pub proof fn lemma_offline_passes(s: Seq<char>)
    ensures
        crate::format::offline_formatted(s) == crate::format::with_lists(
            crate::format::backtracked(crate::format::with_commands(s)),
        ),
{
}

/// A language model is asked where a rewrite is switched on, or the level asks for
/// one, and the backend is not off.
pub proof fn lemma_model_is_asked(cfg: PolishCfg, level: Seq<char>)
    ensures
        cfg.llm_backend@ == "off"@ ==> !engine::asks_llm(cfg, level),
        cfg.llm_backend@ != "off"@ && cfg.llm_enabled ==> engine::asks_llm(cfg, level),
        cfg.llm_backend@ != "off"@ && !cfg.llm_enabled ==> (engine::asks_llm(cfg, level) <==> level
            == "medium"@ || level == "high"@),
        engine::preset_for(cfg, "high"@) == "professional"@,
        engine::preset_for(cfg, "medium"@) == "clean"@,
        level != "high"@ && level != "medium"@ ==> engine::preset_for(cfg, level)
            == cfg.llm_preset@,
{
    lemma_level_names();
}

/// The request of a transcription asks for the rewrite of the text of the rules, with
/// the address, the key and the model of the language model.
pub proof fn lemma_request(input: &TranscribeInput, heard: &str, r: (RulesResult, Option<ChatRequest>))
    requires
        call_ensures(crate::engine::continue_transcription, (input, heard), r),
    ensures
        r.1 is Some <==> engine::asks_llm(input.polish, input.cleanup@) && words::trim(
            r.0.text@,
        ).len() > 0,
        r.1 matches Some(q) ==> {
            let m = crate::laws::polish::messages(q.body.tree());
            &&& m.len() > 0
            &&& crate::laws::polish::says(m.last(), "user"@, r.0.text@)
            &&& q.body.tree().field("model"@) == crate::json::Tree::Text(
                input.polish.llm_api_model@,
            )
            &&& q.key@ == words::trim(input.polish.llm_api_key@)
            &&& q.url@ == polish::joined_url(
                input.polish.llm_api_base@,
                if input.polish.llm_backend@ == "anthropic"@ {
                    "v1/messages"@
                } else {
                    "chat/completions"@
                },
            )
        },
{
    if let Some(q) = r.1 {
        let a = choose|a: PolishArgs| #[trigger]
            engine::asks_with(a, input.polish, input.cleanup@, r.0.text@) && polish::is_request(
                q,
                a,
            );
        crate::laws::polish::lemma_request_holds_the_text(q, a);
        crate::laws::polish::lemma_request_address(q, a);
    }
}

/// The text of a take is the reply of the language model where there is one, and the
/// text of the rules otherwise; the raw text, the hits and the length of the whole
/// recording are kept.
pub proof fn lemma_finished(
    rules: RulesResult,
    polished: Option<String>,
    samples: usize,
    r: Result<TranscriptResult, &'static str>,
)
    requires
        call_ensures(crate::engine::finish_transcription, (rules, polished, samples), r),
    ensures
        r matches Ok(t) ==> {
            &&& t.text@ == words::trim(
                match polished {
                    Some(s) => s@,
                    None => rules.text@,
                },
            )
            &&& t.text@.len() > 0
            &&& t.raw_text@ == rules.raw_text@
            &&& t.dict_hits == rules.dict_hits
            &&& t.duration_ns * 16_000 == samples * 1_000_000_000
        },
        r is Err <==> words::trim(
            match polished {
                Some(s) => s@,
                None => rules.text@,
            },
        ).len() == 0,
{
}

/// A reply counts where the model was asked; a request that failed has none.
pub proof fn lemma_reply_counts(
    cfg: PolishCfg,
    level: Seq<char>,
    ruled: Seq<char>,
    reply: Json,
)
    ensures
        engine::polished_text(cfg, level, ruled, None) is None,
        !engine::asks_llm(cfg, level) ==> engine::polished_text(cfg, level, ruled, Some(reply)) is None,
        engine::asks_llm(cfg, level) && words::trim(ruled).len() > 0 ==> engine::polished_text(
            cfg,
            level,
            ruled,
            Some(reply),
        ) == (if cfg.llm_backend@ == "anthropic"@ {
            polish::anthropic_reply(reply.tree())
        } else {
            polish::openai_reply(reply.tree())
        }),
{
}

/// The language model and the audio host are asked with their own addresses, models
/// and keys; a blank address is the standard one.
pub proof fn lemma_configuration(settings: &Settings, secrets: Secrets, r: PolishCfg)
    requires
        call_ensures(crate::engine::polish_cfg, (settings, secrets), r),
    ensures
        r.audio_backend@ == settings.audio_backend@ && r.llm_backend@ == settings.llm_backend@,
        r.audio_api_model@ == settings.audio_api_model@ && r.llm_api_model@
            == settings.llm_api_model@,
        r.audio_api_key@ == secrets.audio_api_key@ && r.llm_api_key@ == secrets.llm_api_key@,
        r.llm_temperature == settings.llm_temperature && r.llm_timeout_ms
            == settings.llm_timeout_ms,
        r.llm_preset@ == settings.llm_preset@ && r.llm_custom_prompt@
            == settings.llm_custom_prompt@ && r.llm_enabled == settings.llm_enabled,
        texts::all_in(settings.llm_api_base@, Class::White) ==> r.llm_api_base@ == polish::base_of(
            settings.llm_backend@,
        ),
        texts::all_in(settings.audio_api_base@, Class::White) ==> r.audio_api_base@
            == "https://api.openai.com/v1"@,
        !texts::all_in(settings.llm_api_base@, Class::White) ==> r.llm_api_base@
            == settings.llm_api_base@,
        !texts::all_in(settings.audio_api_base@, Class::White) ==> r.audio_api_base@
            == settings.audio_api_base@,
{
    crate::laws::polish::lemma_base_addresses();
    lemma_blank_or_not(settings.llm_api_base@);
    lemma_blank_or_not(settings.audio_api_base@);
}

proof fn lemma_blank_or_not(s: Seq<char>)
    ensures
        texts::all_in(s, Class::White) <==> words::trim(s).len() == 0,
{
    texts::lemma_blank(s);
    if texts::all_in(s, Class::White) {
        texts::lemma_trim_takes_all(s, Class::White);
    } else {
        let i = choose|i: int| 0 <= i < s.len() && !texts::in_class(#[trigger] s[i], Class::White);
        assert(!chars::is_white(s[i]));
    }
}

/// The sidecar is told the model, the clip and where to write; it is told the
/// language where one is named, and to translate only then.
pub proof fn lemma_sidecar(
    model: Seq<char>,
    wav: Seq<char>,
    out: Seq<char>,
    language: Seq<char>,
    translate: bool,
)
    ensures
        ({
            let a = engine::whisper_arguments(model, wav, out, language, translate);
            let named = language != "auto"@ && language.len() > 0;
            &&& a[0] == "-m"@ && a[1] == model
            &&& a[2] == "-f"@ && a[3] == wav
            &&& a[4] == "-otxt"@
            &&& a[5] == "-of"@ && a[6] == out
            &&& a[7] == "--no-prints"@
            &&& named ==> a[8] == "-l"@ && a[9] == language
            &&& named && translate ==> a.len() == 11 && a[10] == "--translate"@
            &&& named && !translate ==> a.len() == 10
            &&& !named ==> a.len() == 8
        }),
{
}

/// A take goes to the host where speech comes from one, and to the engine of its
/// model otherwise.
pub proof fn lemma_route(backend: Seq<char>, id: Seq<char>)
    ensures
        backend == "openai_compat"@ ==> engine::route_of(backend, id) == Some(SpeechRoute::Online),
        backend != "openai_compat"@ ==> match models::model_named(id) {
            Some(m) => engine::route_of(backend, id) == Some(
                if m.engine == EngineKind::Parakeet {
                    SpeechRoute::Parakeet
                } else {
                    SpeechRoute::Whisper
                },
            ),
            None => engine::route_of(backend, id) is None,
        },
{
}

/// An engine is given the part of a clip that holds speech.
pub proof fn lemma_engine_input(
    input: &TranscribeInput,
    samples: &Vec<u32>,
    segments: Option<Vec<(usize, usize)>>,
    r: Result<SpeechTask, &'static str>,
)
    requires
        call_ensures(crate::engine::begin_transcription, (input, samples, segments), r),
    ensures
        r matches Ok(t) ==> vad::let_through(samples@, 16_000, vad::spans_of(segments)) == Ok::<
            Seq<u32>,
            BlankAudio,
        >(t.samples@) && engine::route_of(input.polish.audio_backend@, input.model_id@) == Some(
            t.route,
        ),
        vad::let_through(samples@, 16_000, vad::spans_of(segments)) matches Err(why) ==> (r
            matches Err(e) && e@ == why.words()),
{
}

/// A clip is empty where it has no sample or no rate, too short below a quarter of a
/// second, and silent where no sample reaches a hundredth of full scale.
pub proof fn lemma_blank(samples: Seq<u32>, rate: u32)
    ensures
        devices::blank(samples, rate) == Some(BlankAudio::Empty) <==> samples.len() == 0 || rate
            == 0,
        devices::blank(samples, rate) == Some(BlankAudio::TooShort) <==> samples.len() > 0 && rate
            > 0 && 4 * samples.len() < rate,
        devices::blank(samples, rate) is None <==> samples.len() > 0 && rate > 0 && 4
            * samples.len() >= rate && exists|i: int|
            0 <= i < samples.len() && devices::magnitude(#[trigger] samples[i]) >= 0x3C23_D70A,
{
    assert(devices::MIN_SPEECH_MS * rate == 250 * rate);
    if devices::is_silent(samples) {
        assert forall|i: int| 0 <= i < samples.len() implies devices::magnitude(
            #[trigger] samples[i],
        ) < 0x3C23_D70A by {}
    } else {
        let i = choose|i: int|
            0 <= i < samples.len() && !(devices::magnitude(#[trigger] samples[i])
                < devices::SILENCE_PEAK);
        assert(devices::magnitude(samples[i]) >= 0x3C23_D70A);
    }
}

/// The magnitude of a sample does not depend on its sign, and what is not a number
/// has none.
pub proof fn lemma_magnitude(s: u32)
    requires
        s < 0x8000_0000,
    ensures
        devices::magnitude(s) == devices::magnitude((s + 0x8000_0000) as u32),
        s <= 0x7F80_0000 ==> devices::magnitude(s) == s,
        s > 0x7F80_0000 ==> devices::magnitude(s) == 0,
{
}

/// What the user is told about a clip that holds no speech.
pub proof fn lemma_blank_words()
    ensures
        BlankAudio::Empty.words() == "captured no audio — check the microphone"@,
        BlankAudio::TooShort.words()
            == "clip too short to transcribe — hold the talk key and speak"@,
        BlankAudio::Silence.words() == "only silence — nothing to transcribe"@,
{
}

/// With a detector, a clip without a segment of speech is silence however loud it is,
/// and one with a segment is cut to it; without one, the clip goes through whole.
pub proof fn lemma_gate(samples: Seq<u32>, rate: u32, segments: Seq<(usize, usize)>)
    requires
        devices::blank(samples, rate) is None || devices::blank(samples, rate) == Some(
            BlankAudio::Silence,
        ),
    ensures
        segments.len() == 0 ==> vad::let_through(samples, rate, Some(segments)) == Err::<
            Seq<u32>,
            BlankAudio,
        >(BlankAudio::Silence),
        segments.len() > 0 && samples.len() <= usize::MAX ==> (vad::trimmed_range(
            segments,
            samples.len() as int,
            rate,
            vad::EDGE_PAD_SECS,
        ) matches Some((a, b)) ==> vad::let_through(samples, rate, Some(segments)) == Ok::<
            Seq<u32>,
            BlankAudio,
        >(samples.subrange(a, b))),
        devices::blank(samples, rate) is None ==> vad::let_through(samples, rate, None) == Ok::<
            Seq<u32>,
            BlankAudio,
        >(samples),
        devices::blank(samples, rate) is Some ==> vad::let_through(samples, rate, None) == Err::<
            Seq<u32>,
            BlankAudio,
        >(BlankAudio::Silence),
{
    if segments.len() > 0 && samples.len() <= usize::MAX {
        vad::lemma_range_holds_speech(segments, samples.len() as int, rate, vad::EDGE_PAD_SECS, 0);
    }
}

/// A clip that is empty or too short is told so, with or without a detector.
pub proof fn lemma_gate_refuses(
    samples: Seq<u32>,
    rate: u32,
    segments: Option<Seq<(usize, usize)>>,
    why: BlankAudio,
)
    requires
        devices::blank(samples, rate) == Some(why),
        why != BlankAudio::Silence,
    ensures
        vad::let_through(samples, rate, segments) == Err::<Seq<u32>, BlankAudio>(why),
{
}

/// The range that is transcribed starts one padding before the first speech and ends
/// one padding behind the last, inside the clip.
pub proof fn lemma_trimmed_range(
    segments: Seq<(usize, usize)>,
    len: int,
    rate: u32,
    pad: u32,
    i: int,
    j: int,
)
    requires
        0 <= i < segments.len(),
        0 <= j < segments.len(),
        forall|k: int| 0 <= k < segments.len() ==> segments[i].0 <= (#[trigger] segments[k]).0,
        forall|k: int| 0 <= k < segments.len() ==> (#[trigger] segments[k]).1 <= segments[j].1,
        segments[i].0 < segments[j].1,
        segments[i].0 < len,
        rate > 0,
    ensures
        ({
            let first = segments[i].0 as int;
            let last = segments[j].1 as int;
            let n = crate::single::count_of(pad, rate);
            vad::trimmed_range(segments, len, rate, pad) matches Some((a, b)) && a == (if first
                >= n {
                first - n
            } else {
                0
            }) && b == (if last + n <= len {
                last + n
            } else {
                len
            })
        }),
{
    assert(vad::is_first(segments, segments[i].0));
    assert(vad::is_last(segments, segments[j].1));
    let f = vad::first_start(segments);
    let l = vad::last_end(segments);
    assert(vad::is_first(segments, f));
    assert(vad::is_last(segments, l));
    let x = choose|x: int| 0 <= x < segments.len() && (#[trigger] segments[x]).0 == f;
    let y = choose|y: int| 0 <= y < segments.len() && (#[trigger] segments[y]).1 == l;
    assert(segments[x].0 == f && segments[y].1 == l);
    assert(f <= segments[i].0 && segments[j].1 <= l);
}

/// A segment that the detector reports by its start and length.
pub proof fn lemma_segment(start: i32, n: i32)
    requires
        start >= 0,
        n >= 0,
    ensures
        vad::span_of(start, n).0 == start,
        start + n <= usize::MAX ==> vad::span_of(start, n).1 == start + n,
{
}

/// A take is warned about from its nineteenth minute on, once, and is stopped at its
/// twentieth where the cap is on; the cap goes before the warning.
pub proof fn lemma_session(ms: int, warned: bool, cap: bool)
    ensures
        ms < 19 * 60 * 1000 ==> session::tick_at(ms, warned, cap) == SessionTick::Nothing,
        session::tick_at(ms, warned, cap) == SessionTick::Cap <==> cap && ms >= 20 * 60 * 1000,
        session::tick_at(ms, warned, cap) == SessionTick::Warn <==> !warned && ms >= 19 * 60 * 1000
            && !(cap && ms >= 20 * 60 * 1000),
{
}

/// A tick ends with the take, discards a take whose stream broke, and otherwise does
/// what the length of the take asks for.
pub proof fn lemma_tick(i: TickInput, warned: bool)
    ensures
        dictation::ticked(i, warned) == TickAction::End <==> !i.recording || !i.active,
        dictation::ticked(i, warned) == TickAction::Discard <==> i.recording && i.active
            && i.stream_error,
        dictation::ticked(i, warned) == TickAction::Stop <==> i.recording && i.active
            && !i.stream_error && i.cap && i.elapsed_ms >= 1_200_000,
        dictation::ticked(i, warned) == TickAction::Warn <==> i.recording && i.active
            && !i.stream_error && !warned && i.elapsed_ms >= 1_140_000 && !(i.cap && i.elapsed_ms
            >= 1_200_000),
{
}

/// The messages that mean that a take held no speech, in any case.
pub proof fn lemma_blank_messages(p: Seq<char>, m: Seq<char>, q: Seq<char>)
    requires
        chars::lower(m) == "nothing to transcribe"@ || chars::lower(m)
            == "too short to transcribe"@ || chars::lower(m) == "captured no audio"@
            || chars::lower(m) == "only silence"@,
    ensures
        devices::says_blank(p + m + q),
{
    let s = p + m + q;
    let l = chars::lower(s);
    let t = chars::lower(m);
    assert(l.subrange(p.len() as int, (p.len() + t.len()) as int) =~= t);
    assert(words::occurs_at(l, t, p.len() as int));
}

/// The device that a take is recorded from: the preferred one where it is there, the
/// default one otherwise.
pub proof fn lemma_device(
    names: Seq<Seq<char>>,
    default_name: Option<Seq<char>>,
    want: Seq<char>,
)
    ensures
        names.len() > 0 && names.contains(want) ==> devices::chosen(names, default_name, Some(want))
            == Ok::<(Seq<char>, bool), Seq<char>>((want, false)),
        names.len() > 0 && !names.contains(want) ==> (default_name matches Some(d)
            ==> devices::chosen(names, default_name, Some(want)) == Ok::<
            (Seq<char>, bool),
            Seq<char>,
        >((d, true))),
        names.len() > 0 ==> (default_name matches Some(d) ==> devices::chosen(
            names,
            default_name,
            None,
        ) == Ok::<(Seq<char>, bool), Seq<char>>((d, false))),
        names.len() == 0 ==> devices::chosen(names, default_name, Some(want)) is Err
            && devices::chosen(names, default_name, None) is Err,
        default_name is None ==> devices::chosen(names, default_name, None) is Err,
        default_name is None && !names.contains(want) ==> devices::chosen(
            names,
            default_name,
            Some(want),
        ) is Err,
{
}

/// A device name is taken trimmed, and a blank one is none.
pub proof fn lemma_given(name: &str)
    ensures
        devices::given(None) is None,
        texts::all_in(name@, Class::White) ==> devices::given(Some(name)) is None,
        !texts::all_in(name@, Class::White) ==> devices::given(Some(name)) == Some(
            words::trim(name@),
        ),
{
    lemma_blank_or_not(name@);
}

/// A request to an audio host has fifteen seconds at least.
pub proof fn lemma_audio_patience(ms: u64, r: u64)
    requires
        call_ensures(crate::engine::audio_timeout, (ms,), r),
    ensures
        r >= 15_000,
        r >= ms,
        r == 15_000 || r == ms,
{
}

/// The recognizer gets four threads at most, and two where the machine does not say.
pub proof fn lemma_threads(available: Option<usize>, r: i32)
    requires
        call_ensures(crate::engine::num_threads, (available,), r),
    ensures
        available matches Some(n) ==> r <= n && r <= 4 && (r == n || r == 4),
        available is None ==> r == 2,
{
}

/// The live meter looks at the last samples of a take.
pub proof fn lemma_meter(samples: usize, r: usize)
    requires
        call_ensures(crate::dictation::meter_start, (samples,), r),
    ensures
        samples >= 1920 ==> samples - r == 1920,
        samples < 1920 ==> r == 0,
{
}

} // verus!
