//! Speech gate, transcription routing, post-processing and the language model.

use dictflow::devices::{blank_audio, BlankAudio, DeviceChoice};
use dictflow::dictation::{
    committed, copied_name, deletes_recording, device_fallback, done_message, meter_start,
    recording_name, started_message, stream_error_fallback, tick_step, PasteOutcome, TickAction,
    TickInput,
};
use dictflow::engine::{
    apply_cleanup, apply_rules, audio_timeout, begin_transcription, clip_duration_ns,
    continue_transcription, decoded_text, end_transcription, ensure_parakeet, finish_text,
    finish_transcription, num_threads, polish_args, polish_cfg, speech_route, transcribe_input,
    whisper_args, whisper_binary_name, whisper_ready, PolishCfg, SpeechRoute, TranscribeInput,
};
use dictflow::json::Json;
use dictflow::platform::Platform;
use dictflow::polish::{
    anthropic_body, default_base, default_prompt, extract_anthropic_text, extract_openai_text,
    extract_transcript, join_url, load_secrets, mask_key, migrate_file_secrets, openai_chat_body,
    ping_llm, ping_outcome, plan_polish, plan_transcription, polish, prompt_catalog, save_secrets,
    secrets_path, set_provider_secrets, system_prompt, transcribe_openai, Dialect, PolishArgs,
    Secrets,
};
use dictflow::prompts::text;
use dictflow::settings::Settings;
use dictflow::single::times_count;
use dictflow::text::DictionaryEntry;
use dictflow::vad::{
    gate_and_trim, gate_with_segments, model_path, segment_span, trim_range, EDGE_PAD_SECS,
};

const SR: u32 = 16_000;

fn bits(samples: &[f32]) -> Vec<u32> {
    samples.iter().map(|s| s.to_bits()).collect()
}

fn floats(samples: &[u32]) -> Vec<f32> {
    samples.iter().map(|s| f32::from_bits(*s)).collect()
}

fn pad() -> usize {
    (f32::from_bits(EDGE_PAD_SECS) * SR as f32) as usize
}

fn padded_speech() -> Vec<f32> {
    let mut v = vec![0.0; 2 * SR as usize];
    for s in &mut v[8000..24_000] {
        *s = 0.4;
    }
    v
}

#[test]
fn empty_and_too_short_keep_existing_copy() {
    assert_eq!(
        gate_with_segments(&bits(&[]), SR, &vec![(0, 16_000)]),
        Err(BlankAudio::Empty)
    );
    assert_eq!(
        gate_with_segments(&bits(&[0.5; 800]), SR, &vec![(0, 800)]),
        Err(BlankAudio::TooShort)
    );
}

#[test]
fn loud_non_speech_is_rejected() {
    let loud_noise = bits(&vec![0.3; SR as usize]);
    assert!(blank_audio(&loud_noise, SR).is_none());
    assert_eq!(gate_with_segments(&loud_noise, SR, &vec![]), Err(BlankAudio::Silence));
}

#[test]
fn edges_trimmed_with_pad() {
    let samples = bits(&padded_speech());
    let out = floats(&gate_with_segments(&samples, SR, &vec![(8000, 24_000)]).unwrap());
    let pad = pad();
    assert_eq!(out.len(), 16_000 + 2 * pad);
    assert_eq!(out[0], 0.0);
    assert_eq!(out[pad], 0.4);
    assert_eq!(out[out.len() - 1], 0.0);
}

#[test]
fn interior_silence_is_kept() {
    let mut samples = vec![0.0; 4 * SR as usize];
    for s in &mut samples[8000..16_000] {
        *s = 0.4;
    }
    for s in &mut samples[24_000..32_000] {
        *s = 0.4;
    }
    let segs = vec![(8000, 16_000), (24_000, 32_000)];
    let out = floats(&gate_with_segments(&bits(&samples), SR, &segs).unwrap());
    let pad = pad();
    assert_eq!(out.len(), (32_000 + pad) - (8000 - pad));
    let gap_start = 16_000 - (8000 - pad);
    let gap_end = 24_000 - (8000 - pad);
    assert!(out[gap_start..gap_end].iter().all(|&s| s == 0.0));
    assert_eq!(out[gap_end], 0.4);
}

#[test]
fn trim_range_clamps_and_rejects_degenerate() {
    assert_eq!(trim_range(&vec![], 100, SR, EDGE_PAD_SECS), None);
    assert_eq!(trim_range(&vec![(10, 90)], 100, 100, 1.0f32.to_bits()), Some((0, 100)));
    assert_eq!(trim_range(&vec![(90, 10)], 100, SR, EDGE_PAD_SECS), None);
}

#[test]
fn trim_range_spans_unordered_segments() {
    let pad = 0.01f32.to_bits();
    assert_eq!(trim_range(&vec![(500, 600), (100, 200)], 1000, 1000, pad), Some((90, 610)));
    assert_eq!(trim_range(&vec![(1000, 1100)], 1000, 1000, pad), None);
    assert_eq!(trim_range(&vec![(0, 0)], 1000, 1000, pad), None);
    assert_eq!(trim_range(&vec![(1, 2)], 0, 1000, pad), None);
    assert_eq!(trim_range(&vec![(1, 2)], 10, 0, pad), None);
    let pad = 0.001f32.to_bits();
    assert_eq!(trim_range(&vec![(3, usize::MAX)], 10, 1000, pad), Some((2, 10)));
    assert_eq!(segment_span(-5, 7), (0, 7));
    assert_eq!(segment_span(10, -1), (10, 10));
    assert_eq!(model_path(), "silero_vad.onnx");
}

#[test]
fn padding_is_taken_in_single_precision() {
    assert_eq!(f32::from_bits(EDGE_PAD_SECS), 0.15);
    assert_eq!(times_count(EDGE_PAD_SECS, SR), 2400);
    assert_eq!(times_count(EDGE_PAD_SECS, 7_000_013), 1_050_002);
    assert_eq!(
        trim_range(&vec![(2_000_000, 3_000_000)], 9_000_000, 7_000_013, EDGE_PAD_SECS),
        Some((949_998, 4_050_002))
    );
    assert_eq!(times_count(f32::INFINITY.to_bits(), 1), usize::MAX);
    assert_eq!(times_count(f32::NAN.to_bits(), SR), 0);
    assert_eq!(times_count((-1.0f32).to_bits(), SR), 0);
    assert_eq!(times_count(f32::MAX.to_bits(), u32::MAX), usize::MAX);
}

#[test]
fn products_agree_with_single_precision() {
    let mut x: u64 = 0x9E37_79B9_7F4A_7C15;
    let mut next = || {
        x ^= x << 13;
        x ^= x >> 7;
        x ^= x << 17;
        x
    };
    let want = |p: u32, n: u32| (f32::from_bits(p).max(0.0) * n as f32) as usize;
    for _ in 0..200_000 {
        let r = next();
        let (p, n) = (r as u32, (r >> 32) as u32);
        assert_eq!(times_count(p, n), want(p, n), "{p:#x} {n}");
        let near = 0x3000_0000 + p % 0x2000_0000;
        assert_eq!(times_count(near, n >> (p % 32)), want(near, n >> (p % 32)), "{near:#x} {n}");
    }
    let edges = [0, 1, 2, 0x7F_FFFF, 0x80_0000, 0x80_0001, 0x3F7F_FFFF, 0x3F80_0000, 0x3F80_0001];
    let counts = [0, 1, 3, 0xFF_FFFF, 0x100_0000, 0x100_0001, 0x100_0003, u32::MAX - 128, u32::MAX];
    for p in edges.into_iter().chain([0x4B80_0000, 0x5F7F_FFFF, 0x5F80_0000, 0x7F7F_FFFF]) {
        for n in counts {
            assert_eq!(times_count(p, n), want(p, n), "{p:#x} {n}");
        }
    }
}

#[test]
fn missing_model_falls_back_to_peak_gate() {
    assert_eq!(
        gate_and_trim(&bits(&vec![0.0; SR as usize]), SR, None),
        Err(BlankAudio::Silence)
    );
    let loud = bits(&vec![0.3; SR as usize]);
    assert_eq!(gate_and_trim(&loud, SR, None), Ok(loud.clone()));
    assert_eq!(gate_and_trim(&loud, SR, Some(vec![])), Err(BlankAudio::Silence));
    let quiet = bits(&vec![0.001; SR as usize]);
    assert_eq!(gate_and_trim(&quiet, SR, Some(vec![(0, 100)])).unwrap().len(), 100 + pad());
}

#[test]
fn joins_base_and_path() {
    assert_eq!(
        join_url("http://127.0.0.1:11434/v1/", "/chat/completions"),
        "http://127.0.0.1:11434/v1/chat/completions"
    );
    assert_eq!(
        join_url("https://api.anthropic.com", "v1/messages"),
        "https://api.anthropic.com/v1/messages"
    );
    assert_eq!(
        join_url("https://api.groq.com/openai/v1", "audio/transcriptions"),
        "https://api.groq.com/openai/v1/audio/transcriptions"
    );
    assert_eq!(
        join_url(
            "https://api.groq.com/openai/v1/audio/transcriptions",
            "audio/transcriptions"
        ),
        "https://api.groq.com/openai/v1/audio/transcriptions"
    );
}

#[test]
fn join_url_edges() {
    assert_eq!(join_url("", "x"), "/x");
    assert_eq!(join_url(" // ", "/x"), "/x");
    assert_eq!(join_url("b", ""), "b");
    let once = join_url("https://h/", "v1/messages");
    assert_eq!(join_url(&once, "v1/messages"), once);
}

#[test]
fn masks_keys() {
    assert_eq!(mask_key(""), "");
    assert_eq!(mask_key("sk-abcdefghij"), "sk-a…ghij");
}

#[test]
fn short_keys_are_dots() {
    assert_eq!(mask_key("12345678"), "••••");
    assert_eq!(mask_key(" 123456789 "), "1234…6789");
}

#[test]
fn clean_preset_is_default() {
    assert_eq!(system_prompt("clean", ""), default_prompt());
    assert_eq!(system_prompt("custom", ""), default_prompt());
    assert_eq!(system_prompt("custom", "Only fix names"), "Only fix names");
    let catalog = prompt_catalog();
    let clean = catalog.iter().find(|p| p.0 == "clean").unwrap().1;
    assert!(clean.contains("transcript editor"));
    assert!(clean.contains("spelling"));
}

#[test]
fn catalog_has_the_five_presets() {
    let names: Vec<&str> = prompt_catalog().iter().map(|p| p.0).collect();
    assert_eq!(names, vec!["clean", "professional", "casual", "message", "bullets"]);
    for (name, prompt) in prompt_catalog() {
        assert_eq!(system_prompt(name, "ignored"), prompt);
        assert!(!prompt.is_empty());
        assert_eq!(prompt_catalog().iter().filter(|p| p.1 == prompt).count(), 1);
    }
    assert_eq!(text("no such preset"), text("clean"));
    assert_eq!(default_base("local"), "http://127.0.0.1:11434/v1");
    assert_eq!(default_base("off"), "");
}

#[test]
fn clean_prompt_is_a_transcript_editor() {
    let p = text("clean");
    assert!(p.contains("transcript editor"));
    assert!(p.contains("spelling"));
    assert!(p.contains("Return only the cleaned text"));
    assert!(p.contains("no preamble"));
}

#[test]
fn presets_are_nonempty_and_distinct() {
    assert!(text("professional").contains("professional prose"));
    assert!(text("casual").contains("casual"));
    assert!(text("message").contains("SMS"));
    assert!(text("bullets").contains("- "));
    assert_ne!(text("clean"), text("professional"));
}

fn list_len(v: &Json) -> usize {
    match v {
        Json::List(l) => l.len(),
        _ => panic!("no list"),
    }
}

#[test]
fn openai_body_has_two_messages() {
    let v = openai_chat_body("gpt-4o-mini", "sys", "hi", 0.2f32.to_bits());
    assert_eq!(list_len(v.field("messages").unwrap()), 2);
    assert_eq!(v.field("model").unwrap().text(), Some("gpt-4o-mini"));
}

#[test]
fn bodies_carry_prompt_and_text() {
    let v = openai_chat_body("m", "sys", "hi", 0.5f32.to_bits());
    let messages = v.field("messages").unwrap();
    assert_eq!(messages.item(0).unwrap().field("role").unwrap().text(), Some("system"));
    assert_eq!(messages.item(1).unwrap().field("content").unwrap().text(), Some("hi"));
    assert!(matches!(v.field("temperature"), Some(Json::Single(b)) if f32::from_bits(*b) == 0.5));
    assert!(messages.item(2).is_none());
    let a = anthropic_body("m", "sys", "hi", 0);
    assert_eq!(a.field("system").unwrap().text(), Some("sys"));
    assert!(matches!(a.field("max_tokens"), Some(Json::Int(1024))));
    assert_eq!(list_len(a.field("messages").unwrap()), 1);
}

fn string(s: &str) -> Json {
    Json::Text(s.to_owned())
}

fn object(name: &str, v: Json) -> Json {
    Json::Object(vec![(name.to_owned(), v)])
}

#[test]
fn extracts_chat_content() {
    let message = object("message", object("content", string("  Hello  ")));
    let v = object("choices", Json::List(vec![message]));
    assert_eq!(extract_openai_text(&v).as_deref(), Some("Hello"));
    let block = Json::Object(vec![
        ("type".to_owned(), string("text")),
        ("text".to_owned(), string("Hi")),
    ]);
    let a = object("content", Json::List(vec![block]));
    assert_eq!(extract_anthropic_text(&a).as_deref(), Some("Hi"));
}

#[test]
fn replies_without_text_give_nothing() {
    assert_eq!(extract_openai_text(&Json::Null), None);
    assert_eq!(extract_openai_text(&object("choices", Json::List(vec![]))), None);
    assert_eq!(extract_anthropic_text(&object("content", string("x"))), None);
    let blank_first =
        Json::List(vec![object("text", string(" ")), object("text", string("late"))]);
    assert_eq!(extract_anthropic_text(&object("content", blank_first)), None);
    let second = Json::List(vec![object("id", Json::Bool(true)), object("text", string("late"))]);
    assert_eq!(extract_anthropic_text(&object("content", second)).as_deref(), Some("late"));
    assert_eq!(extract_transcript(&object("text", string(" a "))).as_deref(), Some("a"));
    assert_eq!(extract_transcript(&object("text", Json::Int(1))), None);
}

fn args<'a>(backend: &'a str, text: &'a str) -> PolishArgs<'a> {
    PolishArgs {
        backend,
        base_url: "",
        api_key: "",
        model: "",
        preset: "clean",
        custom_prompt: "",
        temperature: 0.2f32.to_bits(),
        timeout_ms: 1000,
        text,
    }
}

#[test]
fn polish_off_is_none() {
    let reply = object("choices", Json::List(vec![]));
    assert!(plan_polish(&args("off", "hello")).is_none());
    assert!(polish(&args("off", "hello"), Some(reply)).is_none());
}

#[test]
fn polish_asks_and_answers() {
    let mut a = args("anthropic", "hello");
    a.base_url = "https://api.anthropic.com";
    a.api_key = " key ";
    a.timeout_ms = 10;
    let q = plan_polish(&a).unwrap();
    assert_eq!(q.dialect, Dialect::Anthropic);
    assert_eq!(q.url, "https://api.anthropic.com/v1/messages");
    assert_eq!((q.key.as_str(), q.timeout_ms), ("key", 1000));
    assert_eq!(q.body.field("system").unwrap().text(), Some(default_prompt()));
    let reply = object("content", Json::List(vec![object("text", string("Hello."))]));
    assert_eq!(polish(&a, Some(reply)).as_deref(), Some("Hello."));
    assert_eq!(polish(&a, None), None);
    assert!(plan_polish(&args("local", "  ")).is_none());
    let q = plan_polish(&args("local", "x")).unwrap();
    assert_eq!((q.dialect, q.url.as_str()), (Dialect::OpenAi, "/chat/completions"));
}

#[test]
fn ping_is_a_short_request() {
    let a = ping_llm("local", "b", "k", "m", 5);
    assert_eq!((a.text, a.preset, a.temperature), ("ping", "clean", 0f32.to_bits()));
    assert_eq!(ping_outcome(Some("x".to_owned())), Ok("LLM responded"));
    assert_eq!(ping_outcome(None), Err("LLM returned empty"));
}

#[test]
fn secrets_are_trimmed_and_kept() {
    let s = load_secrets(None, Some("k".to_owned()));
    assert_eq!((s.audio_api_key.as_str(), s.llm_api_key.as_str()), ("", "k"));
    assert_eq!(save_secrets(&s), (None, Some("k".to_owned())));
    let file = Secrets { audio_api_key: " a ".to_owned(), llm_api_key: "l".to_owned() };
    assert_eq!(
        migrate_file_secrets(None, Some("k".to_owned()), &file),
        (Some("a".to_owned()), None)
    );
    let t = set_provider_secrets(&s, Some(" new ".to_owned()), Some("sk-a…ghij".to_owned()));
    assert_eq!((t.audio_api_key.as_str(), t.llm_api_key.as_str()), ("new", "k"));
    let t = set_provider_secrets(&t, Some(" ".to_owned()), None);
    assert_eq!(t.audio_api_key, "new");
    assert_eq!(secrets_path(), "secrets.json");
}

fn cfg(backend: &str, enabled: bool) -> PolishCfg {
    let s = Settings {
        llm_backend: backend.to_owned(),
        llm_enabled: enabled,
        llm_preset: "bullets".to_owned(),
        ..Settings::default(Platform::Other)
    };
    polish_cfg(&s, load_secrets(None, None))
}

#[test]
fn blank_addresses_get_the_standard_one() {
    let c = cfg("anthropic", true);
    assert_eq!(c.audio_api_base, "https://api.openai.com/v1");
    assert_eq!(c.llm_api_base, "https://api.anthropic.com");
}

#[test]
fn cleanup_levels_pick_the_preset() {
    let on = cfg("local", true);
    let off = cfg("local", false);
    assert_eq!(polish_args(&on, "full", "x").unwrap().preset, "bullets");
    assert_eq!(polish_args(&off, "medium", "x").unwrap().preset, "clean");
    assert_eq!(polish_args(&off, "high", "x").unwrap().preset, "professional");
    assert!(polish_args(&off, "full", "x").is_none());
    assert!(polish_args(&cfg("off", true), "high", "x").is_none());
}

#[test]
fn cleanup_levels_clean() {
    assert_eq!(apply_cleanup("um hi , you", "off"), "um hi , you");
    assert_eq!(apply_cleanup("um hi , you", "light"), "hi , you");
    assert_eq!(apply_cleanup("um hi , you", "full"), "hi, you");
    assert_eq!(apply_cleanup("um hi , you", "high"), "hi, you");
}

#[test]
fn rules_run_in_order() {
    let dict = vec![
        DictionaryEntry::new("1", "eggs", "EGGS"),
        DictionaryEntry::new("2", "milk", "MILK"),
    ];
    let r = apply_rules("  um one milk comma two milk period ", &dict, "full");
    assert_eq!(r.raw_text, "um one milk comma two milk period");
    assert_eq!(r.text, "one MILK, two MILK.");
    assert_eq!(r.dict_hits, 2);
    let d = r.dictionary.unwrap();
    assert_eq!((d[0].id.as_str(), d[0].usage), ("2", 2));
    let r = apply_rules("one milk two eggs", &vec![], "off");
    assert_eq!(r.text, "1. milk\n2. eggs");
    assert!(r.dictionary.is_none());
}

#[test]
fn transcripts_end_with_the_polished_text() {
    assert_eq!(finish_text("rules", Some(" polished ".to_owned())), Ok("polished".to_owned()));
    assert_eq!(finish_text(" rules ", None), Ok("rules".to_owned()));
    assert_eq!(finish_text("  ", None), Err("transcription was empty"));
    let t = finish_transcription(apply_rules("hi there", &vec![], "off"), None, 16_000).unwrap();
    assert_eq!((t.text.as_str(), t.raw_text.as_str()), ("hi there", "hi there"));
    assert_eq!(t.duration_ns, 1_000_000_000);
    assert_eq!(clip_duration_ns(8_000), 500_000_000);
}

#[test]
fn engines_are_routed() {
    assert_eq!(speech_route("openai_compat", "x"), Ok(SpeechRoute::Online));
    assert_eq!(speech_route("local", "base.en"), Ok(SpeechRoute::Whisper));
    assert_eq!(speech_route("local", "parakeet-v2"), Ok(SpeechRoute::Parakeet));
    assert_eq!(speech_route("local", "x"), Err("unknown model"));
    assert_eq!((audio_timeout(8000), audio_timeout(20_000)), (15_000, 20_000));
    assert_eq!((num_threads(Some(8)), num_threads(Some(2)), num_threads(None)), (4, 2, 2));
    assert_eq!(whisper_binary_name(Platform::Windows), "whisper-cli.exe");
    assert_eq!(whisper_binary_name(Platform::MacOs), "whisper-cli");
}

#[test]
fn parakeet_is_loaded_once() {
    assert_eq!(ensure_parakeet(Some("parakeet-v3"), "parakeet-v3", false), Ok(false));
    assert_eq!(ensure_parakeet(None, "parakeet-v3", true), Ok(true));
    assert_eq!(ensure_parakeet(None, "x", true), Err("unknown model: x".to_owned()));
    assert_eq!(
        ensure_parakeet(Some("parakeet-v3"), "base.en", true),
        Err("base.en is not a Parakeet model".to_owned())
    );
    assert_eq!(
        ensure_parakeet(None, "parakeet-v2", false),
        Err("Parakeet TDT 0.6B v2 is not downloaded yet — open Models and download it first".to_owned())
    );
    assert_eq!(decoded_text(0, Some("x")), Err("no audio captured"));
    assert_eq!(decoded_text(5, Some("  ")), Err("transcription was empty"));
    assert_eq!(decoded_text(5, None), Err("transcription was empty"));
    assert_eq!(decoded_text(5, Some(" x ")), Ok("x".to_owned()));
}

#[test]
fn whisper_arguments() {
    assert_eq!(
        whisper_args("m", "w", "o", "de", true),
        vec!["-m", "m", "-f", "w", "-otxt", "-of", "o", "--no-prints", "-l", "de", "--translate"]
    );
    assert_eq!(whisper_args("m", "w", "o", "auto", true).len(), 8);
    assert_eq!(whisper_args("m", "w", "o", "", true).len(), 8);
    assert_eq!(whisper_args("m", "w", "o", "fr", false).len(), 10);
    assert_eq!(whisper_ready("x", "p", true, "b", true), Err("unknown model".to_owned()));
    assert_eq!(
        whisper_ready("parakeet-v3", "p", true, "b", true),
        Err("not a single-file model".to_owned())
    );
    assert_eq!(
        whisper_ready("small", "p", false, "b", true),
        Err("model not downloaded yet: p (open Models and download it first)".to_owned())
    );
    assert_eq!(
        whisper_ready("small", "p", true, "b", false),
        Err("whisper-cli not found — place a whisper.cpp build at b or put it on PATH".to_owned())
    );
    assert!(whisper_ready("small", "p", true, "b", true).is_ok());
}

fn input(backend: &str, cleanup: &str) -> TranscribeInput {
    let s = Settings {
        audio_backend: backend.to_owned(),
        llm_backend: "openai_compat".to_owned(),
        cleanup: cleanup.to_owned(),
        language: "de".to_owned(),
        ..Settings::default(Platform::Other)
    };
    let dict = vec![DictionaryEntry::new("1", "milk", "MILK")];
    transcribe_input(&s, dict, load_secrets(None, Some("k".to_owned())))
}

#[test]
fn transcription_runs_through() {
    let job = input("local", "medium");
    assert_eq!((job.model_id.as_str(), job.language.as_str()), ("parakeet-v3", "de"));
    let take = bits(&padded_speech());
    let task = begin_transcription(&job, &take, Some(vec![(8000, 24_000)])).unwrap();
    assert_eq!(task.route, SpeechRoute::Parakeet);
    assert_eq!(task.samples.len(), 16_000 + 2 * pad());
    let (rules, request) = continue_transcription(&job, " um more milk ");
    assert_eq!((rules.text.as_str(), rules.dict_hits), ("more MILK", 1));
    let q = request.unwrap();
    assert_eq!(q.url, "https://api.openai.com/v1/chat/completions");
    assert_eq!(q.key, "k");
    let sent = q.body.field("messages").unwrap().item(1).unwrap().field("content").unwrap();
    assert_eq!(sent.text(), Some("more MILK"));
    let message = object("message", object("content", string("More milk.")));
    let reply = object("choices", Json::List(vec![message]));
    let done = end_transcription(&job, rules, Some(reply), take.len()).unwrap();
    assert_eq!((done.text.as_str(), done.raw_text.as_str()), ("More milk.", "um more milk"));
    assert_eq!((done.duration_ns, done.dict_hits), (2_000_000_000, 1));
}

#[test]
fn transcription_without_a_reply_keeps_the_rules() {
    let job = input("openai_compat", "high");
    let (rules, request) = continue_transcription(&job, "hello");
    assert!(request.is_some());
    assert_eq!(end_transcription(&job, rules, None, 1).unwrap().text, "hello");
    let (rules, request) = continue_transcription(&job, "  um ");
    assert!(request.is_none());
    assert_eq!(end_transcription(&job, rules, None, 1).unwrap_err(), "transcription was empty");
    let quiet = input("local", "full");
    assert!(continue_transcription(&quiet, "hello").1.is_none());
}

#[test]
fn transcription_stops_at_the_first_step() {
    let loud = bits(&vec![0.3; SR as usize]);
    let mut job = input("openai_compat", "off");
    assert_eq!(begin_transcription(&job, &loud, None).unwrap().route, SpeechRoute::Online);
    assert_eq!(
        begin_transcription(&job, &loud, Some(vec![])).unwrap_err(),
        "only silence — nothing to transcribe"
    );
    assert_eq!(
        begin_transcription(&job, &vec![], None).unwrap_err(),
        "captured no audio — check the microphone"
    );
    job.polish.audio_backend = "local".to_owned();
    job.model_id = "gone".to_owned();
    assert_eq!(begin_transcription(&job, &loud, None).unwrap_err(), "unknown model");
}

#[test]
fn audio_requests() {
    let q = plan_transcription("https://h/v1/", " k ", "whisper-1", 5);
    assert_eq!(q.url, "https://h/v1/audio/transcriptions");
    assert_eq!((q.key.as_str(), q.model.as_str(), q.timeout_ms), ("k", "whisper-1", 1000));
    assert_eq!(transcribe_openai(&object("text", string(" hi "))), Ok("hi".to_owned()));
    assert_eq!(transcribe_openai(&Json::Null), Err("empty audio transcript"));
}

fn tick(elapsed_ms: u64, cap: bool) -> TickInput {
    TickInput { recording: true, active: true, stream_error: false, elapsed_ms, cap }
}

#[test]
fn ticker_warns_and_stops() {
    assert_eq!(tick_step(tick(0, true), false), (TickAction::Level, false));
    assert_eq!(tick_step(tick(1_140_000, true), false), (TickAction::Warn, true));
    assert_eq!(tick_step(tick(1_150_000, true), true), (TickAction::Level, true));
    assert_eq!(tick_step(tick(1_200_000, true), true), (TickAction::Stop, true));
    let broken = TickInput { stream_error: true, ..tick(1_200_000, true) };
    assert_eq!(tick_step(broken, false), (TickAction::Discard, false));
    let over = TickInput { recording: false, ..broken };
    assert_eq!(tick_step(over, false), (TickAction::End, false));
    let gone = TickInput { active: false, ..tick(0, false) };
    assert_eq!(tick_step(gone, false), (TickAction::End, false));
    assert_eq!((meter_start(1920), meter_start(2000), meter_start(0)), (0, 80, 0));
}

#[test]
fn take_messages() {
    assert_eq!(done_message("hi", PasteOutcome::Pasted), "pasted: hi");
    assert_eq!(done_message("hi", PasteOutcome::Off), "transcribed (auto-paste off): hi");
    assert_eq!(
        done_message("hi", PasteOutcome::Failed("no keys")),
        "transcribed (paste failed: no keys): hi"
    );
    let long = "y".repeat(100);
    assert_eq!(done_message(&long, PasteOutcome::Pasted).chars().count(), 8 + 80 + 1);
    assert_eq!(done_message(&long, PasteOutcome::Off).chars().count(), 30 + 100);
    assert!(started_message().starts_with("recording…"));
    assert_eq!(recording_name(12), "rec-12.wav");
    assert_eq!(copied_name(7), "file-7.wav");
    assert!(deletes_recording("only silence — nothing to transcribe"));
    assert!(!deletes_recording("timeout"));
    let c = committed("t".to_owned());
    assert_eq!((c.text.as_str(), c.chip_ms), ("t", 10_000));
}

#[test]
fn device_switches_are_reported() {
    let kept = DeviceChoice { name: "Mic".to_owned(), fell_back: false };
    assert!(device_fallback(Some("USB"), &kept).is_none());
    let other = DeviceChoice { name: "Mic".to_owned(), fell_back: true };
    let f = device_fallback(Some("USB"), &other).unwrap();
    assert_eq!((f.from.as_str(), f.to.as_str()), ("USB", "Mic"));
    assert_eq!(device_fallback(None, &other).unwrap().from, "");
    assert_eq!(stream_error_fallback().to, "stream error — take discarded");
}
