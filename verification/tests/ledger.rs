//! Settings, history, ledger, models and the dictionary commands.

use std::time::{SystemTime, UNIX_EPOCH};

use dictflow::commands::{
    add_correction, add_dictionary_entry, add_symbol_presets, audio_test_message, begin_download,
    can_test, cancel_download, copy_last, delete_dictionary_entry, delete_model, downloaded_message,
    end_download, exported_message, get_models, get_provider_status, get_status, import_dictionary,
    new_id, no_update_check, paste_last, plain_file_name, preloads, select_model,
    set_dictionary_enabled, set_overlay_pose, set_settings, snap_overlay, star_dictionary_entry,
    test_clip, test_runs, update_info, warms_up, SystemReport,
};
use dictflow::dictation::commit_take;
use dictflow::download::{Download, DownloadAction, DownloadEvent};
use dictflow::models::{catalog, default_model_id, find, EngineKind};
use dictflow::overlay::DockEdge;
use dictflow::platform::Platform;
use dictflow::polish::Secrets;
use dictflow::settings::{
    active_speech_engine_label, active_speech_id, active_speech_name, active_speech_ready,
    active_speech_source, audio_host_label, default_llm_temp, default_talk_key, default_true,
    truncate, HistoryItem, NewHistory, Settings, HISTORY_LIMIT,
};
use dictflow::state::AppState;
use dictflow::stats::{day_key_unix, Take, UsageStats};
use dictflow::text::DictionaryEntry;

const HERE: Platform = Platform::Other;

fn take(words: u64, audio_ns: u64, raw_words: u64, dict_hits: u64) -> Take {
    Take { words, audio_ns, raw_words, dict_hits }
}

fn item(text: &str, raw: &str, dict_hits: u32) -> NewHistory {
    NewHistory {
        text: text.to_owned(),
        raw_text: raw.to_owned(),
        duration_ns: 1_000_000_000,
        model: "test".to_owned(),
        audio_path: None,
        dict_hits,
        cleanup: "full".to_owned(),
    }
}

fn row(text: &str, raw: &str, words_out: u32, date_unix: u64) -> HistoryItem {
    HistoryItem {
        text: text.to_owned(),
        date_unix,
        duration_ns: 3_000_000_000,
        model: "test".to_owned(),
        audio_path: None,
        raw_text: raw.to_owned(),
        words_out,
        dict_hits: 0,
        cleanup: "full".to_owned(),
    }
}

#[test]
fn fresh_settings_are_not_onboarded() {
    assert!(!Settings::default(HERE).onboarded);
    assert_eq!(Settings::default(HERE).paste_last_key, "Shift+Alt+Z");
    assert_eq!(Settings::default(HERE).copy_last_key, "Shift+Alt+X");
    assert!(!Settings::default(HERE).session_cap);
    assert!(Settings::default(HERE).overlay_enabled);
    assert_eq!(Settings::default(HERE).hotkey_key, default_talk_key(HERE));
}

#[test]
fn temperature_is_a_fifth() {
    assert_eq!(f32::from_bits(default_llm_temp()), 0.2);
    assert!(default_true());
}

#[test]
fn truncate_keeps_short_text() {
    assert_eq!(truncate("hi", 80), "hi");
}

#[test]
fn truncate_clips_long_text() {
    let long = "x".repeat(200);
    assert_eq!(truncate(&long, 80), format!("{}…", &long[..80]));
}

#[test]
fn truncate_counts_bytes() {
    assert_eq!(truncate("éé", 4), "éé");
    assert_eq!(truncate("éé", 2), "é…");
}

#[test]
fn local_speech_uses_catalog_name() {
    let s = Settings::default(HERE);
    assert_eq!(active_speech_source(&s), "local");
    assert_eq!(active_speech_id(&s), default_model_id());
    assert_eq!(active_speech_name(&s), "Parakeet TDT 0.6B v3");
    assert_eq!(active_speech_engine_label(&s), "Parakeet");
}

#[test]
fn online_speech_uses_api_model_name() {
    let s = Settings {
        audio_backend: "openai_compat".to_owned(),
        audio_api_base: "https://api.groq.com/openai/v1".to_owned(),
        audio_api_model: "whisper-large-v3-turbo".to_owned(),
        ..Settings::default(HERE)
    };
    assert_eq!(active_speech_source(&s), "online");
    assert_eq!(active_speech_id(&s), "whisper-large-v3-turbo");
    assert_eq!(active_speech_name(&s), "whisper-large-v3-turbo");
    assert_eq!(active_speech_engine_label(&s), "Groq");
    assert!(active_speech_ready(&s, false));
}

#[test]
fn online_speech_empty_model_is_not_ready() {
    let s = Settings {
        audio_backend: "openai_compat".to_owned(),
        audio_api_model: "  ".to_owned(),
        ..Settings::default(HERE)
    };
    assert_eq!(active_speech_id(&s), "online model");
    assert!(!active_speech_ready(&s, true));
    assert_eq!(audio_host_label("https://api.openai.com/v1"), "OpenAI");
    assert_eq!(audio_host_label("http://127.0.0.1:8080/v1"), "Online");
}

#[test]
fn unknown_local_model() {
    let s = Settings { model_id: "nope".to_owned(), ..Settings::default(HERE) };
    assert_eq!(active_speech_name(&s), "nope");
    assert_eq!(active_speech_engine_label(&s), "Local");
    assert!(!active_speech_ready(&s, true));
    assert_eq!(audio_host_label(" / "), "OpenAI");
}

#[test]
fn record_increments_lifetime_and_day() {
    let mut s = UsageStats::new();
    s.record(1_700_000_000, take(40, 12_000_000_000, 48, 2));
    assert_eq!(s.lifetime_dictations, 1);
    assert_eq!(s.lifetime_words, 40);
    assert!((s.lifetime_audio_ns as f64 / 1e9 - 12.0).abs() < f64::EPSILON);
    assert_eq!(s.lifetime_raw_words, 48);
    assert_eq!(s.lifetime_dict_hits, 2);
    let key = day_key_unix(1_700_000_000).unwrap();
    let day = s.day(&key).expect("day bucket");
    assert_eq!(day.dictations, 1);
    assert_eq!(day.words, 40);
}

#[test]
fn zero_unix_skips_by_day_keeps_lifetime() {
    let mut s = UsageStats::new();
    s.record(0, take(10, 1_000_000_000, 10, 0));
    assert_eq!(s.lifetime_dictations, 1);
    assert!(s.by_day.is_empty());
}

#[test]
fn day_key_now_looks_like_ymd() {
    let now = SystemTime::now().duration_since(UNIX_EPOCH).unwrap().as_secs();
    let k = day_key_unix(now).unwrap();
    assert_eq!(k.len(), 10);
    assert_eq!(&k[4..5], "-");
    assert_eq!(&k[7..8], "-");
}

#[test]
fn day_keys_near_the_ends() {
    assert_eq!(day_key_unix(0), None);
    let k = day_key_unix(1_700_000_000).unwrap();
    assert!(k == "2023-11-14" || k == "2023-11-15" || k == "2023-11-13");
    assert!(day_key_unix(1).unwrap().len() == 10);
    assert!(day_key_unix(253_402_214_399).unwrap().len() == 10);
    assert_eq!(day_key_unix(8_210_266_876_800), None);
    let k = day_key_unix(8_210_266_876_799).unwrap();
    assert!(k == "+262142-12-30" || k == "+262142-12-31" || k == "+262143-01-01");
}

#[test]
fn stamps_that_wrap_have_days_before_the_epoch() {
    let k = day_key_unix(u64::MAX).unwrap();
    assert!(k == "1969-12-30" || k == "1969-12-31" || k == "1970-01-01");
    let stamp = |secs: i64| secs as u64;
    let k = day_key_unix(stamp(-8_334_601_228_800)).unwrap();
    assert!(k == "-262144-12-31" || k == "-262143-01-01");
    assert_eq!(day_key_unix(stamp(-8_334_601_228_801)), None);
    assert_eq!(day_key_unix(stamp(i64::MIN)), None);
}

#[test]
fn leap_days_have_keys() {
    let k = day_key_unix(951_825_600).unwrap();
    assert!(k == "2000-02-28" || k == "2000-02-29" || k == "2000-03-01");
    let k = day_key_unix(4_107_542_400).unwrap();
    assert!(k == "2100-02-28" || k == "2100-03-01" || k == "2100-03-02");
}

#[test]
fn later_days_have_greater_keys() {
    let mut before = day_key_unix(1_600_000_000).unwrap();
    for i in 1..400u64 {
        let k = day_key_unix(1_600_000_000 + i * 3 * 86_400).unwrap();
        assert!(before < k);
        before = k;
    }
}

#[test]
fn all_days_stay_within_the_lifetime_counters() {
    let mut s = UsageStats::new();
    for (i, unix) in [1_700_000_000, 0, 1_700_500_000, 1_700_000_000].into_iter().enumerate() {
        s.record(unix, take(10 + i as u64, 5, 20, 1));
    }
    let dictations: u64 = s.by_day.iter().map(|d| d.1.dictations).sum();
    let words: u64 = s.by_day.iter().map(|d| d.1.words).sum();
    assert_eq!((dictations, s.lifetime_dictations), (3, 4));
    assert_eq!((words, s.lifetime_words), (10 + 12 + 13, 46));
    assert_eq!(s.by_day.len(), 2);
}

#[test]
fn days_stay_in_order() {
    let mut s = UsageStats::new();
    for day in ["2024-03-02", "2024-03-01", "2024-03-02", "2024-03-03"] {
        s.record_on(Some(day.to_owned()), take(1, 2, 3, 4));
    }
    s.record_on(None, take(1, 0, 0, 0));
    let keys: Vec<&str> = s.by_day.iter().map(|d| d.0.as_str()).collect();
    assert_eq!(keys, vec!["2024-03-01", "2024-03-02", "2024-03-03"]);
    assert_eq!(s.lifetime_dictations, 5);
    let d = s.day("2024-03-02").unwrap();
    assert_eq!((d.dictations, d.words, d.audio_ns, d.raw_words, d.dict_hits), (2, 2, 4, 6, 8));
    assert_eq!(s.day("2024-04-01"), None);
    assert!(!s.is_empty());
    assert!(UsageStats::new().is_empty());
}

#[test]
fn history_is_capped_at_limit() {
    let mut s = AppState::new(HERE);
    for i in 0..(HISTORY_LIMIT + 10) {
        s.push_history(item(&format!("item {i}"), &format!("raw {i}"), 0), 1_700_000_000);
    }
    assert_eq!(s.history.len(), HISTORY_LIMIT);
    assert_eq!(
        s.history.first().unwrap().text,
        format!("item {}", HISTORY_LIMIT + 9)
    );
    assert_eq!(s.stats.lifetime_dictations, (HISTORY_LIMIT + 10) as u64);
}

#[test]
fn clear_history_keeps_stats() {
    let mut s = AppState::new(HERE);
    let mut take = item("hello world", "hello um world", 1);
    take.audio_path = Some("a.wav".to_owned());
    s.push_history(take, 1_700_000_000);
    assert_eq!(s.stats.lifetime_dictations, 1);
    assert_eq!(s.stats.lifetime_words, 2);
    assert_eq!(s.stats.lifetime_raw_words, 3);
    assert_eq!(s.clear_history(), vec!["a.wav".to_owned()]);
    assert!(s.history.is_empty());
    assert_eq!(s.stats.lifetime_dictations, 1);
    assert_eq!(s.stats.lifetime_words, 2);
}

#[test]
fn seed_stats_from_existing_history_once() {
    let mut s = AppState::new(HERE);
    s.history.push(row("one two three", "one two three", 3, 1_700_000_000));
    assert!(s.seed_stats_from_history());
    assert_eq!(s.stats.lifetime_dictations, 1);
    assert_eq!(s.stats.lifetime_words, 3);
    assert!(!s.seed_stats_from_history());
    assert_eq!(s.stats.lifetime_dictations, 1, "must not double-count");
}

#[test]
fn seed_counts_old_rows() {
    let mut s = AppState::new(HERE);
    s.history.push(row("a b", "", 0, 0));
    s.history.push(row("a b c", "um a b c", 0, 1_700_000_000));
    assert!(s.seed_stats_from_history());
    assert_eq!(s.stats.lifetime_words, 5);
    assert_eq!(s.stats.lifetime_raw_words, 6);
    assert_eq!(s.stats.lifetime_audio_ns, 6_000_000_000);
    assert_eq!(s.stats.by_day.len(), 1);
}

#[test]
fn cancel_does_not_touch_stats() {
    let mut s = AppState::new(HERE);
    s.push_history(item("keep", "keep", 0), 1_700_000_000);
    assert_eq!(s.stats.lifetime_dictations, 1);
    assert_eq!(s.history.len(), 1);
    assert!(s.cancel_recording().is_err());
    assert_eq!(s.stats.lifetime_dictations, 1);
    assert_eq!(s.history.len(), 1);
}

#[test]
fn takes_start_and_end_once() {
    let mut s = AppState::new(HERE);
    assert_eq!(s.stop_recording(), Err("not recording"));
    assert!(s.start_recording(true).is_ok());
    assert!(s.recording && s.hotkey_owned);
    assert_eq!(s.start_recording(false), Err("already recording"));
    assert!(s.hotkey_owned);
    s.transcribing = true;
    assert_eq!(dictflow::dictation::cancel_dictation(&mut s), Ok("cancelled"));
    assert!(!s.recording && !s.hotkey_owned && !s.transcribing);
    assert_eq!(dictflow::dictation::cancel_dictation(&mut s), Err("not recording"));
}

#[test]
fn stored_settings_are_migrated() {
    let mut s = AppState::new(HERE);
    let stored = Settings {
        hotkey_key: "Fn".to_owned(),
        overlay_edge: "top".to_owned(),
        overlay_offset: 0,
        language: "de".to_owned(),
        ..Settings::default(Platform::MacOs)
    };
    assert!(s.load_settings(Some(stored.clone()), Platform::Windows));
    assert_eq!(s.settings.hotkey_key, "RightCtrl");
    assert_eq!((s.settings.overlay_edge.as_str(), s.settings.overlay_offset), ("bottom", -1));
    assert_eq!(s.settings.language, "de");
    assert!(!s.load_settings(Some(stored), Platform::MacOs));
    assert_eq!(s.settings.hotkey_key, "Fn");
    let gone = Settings {
        model_id: "gone".to_owned(),
        language: "de".to_owned(),
        ..Settings::default(HERE)
    };
    assert!(!s.load_settings(Some(gone), HERE));
    assert_eq!(s.settings.language, "auto");
    assert!(!s.load_settings(None, HERE));
}

#[test]
fn plain_history_is_migrated() {
    let mut s = AppState::new(HERE);
    assert!(s.load_history(None, Some(vec!["a".to_owned(), "b".to_owned()])));
    assert_eq!(s.history.len(), 2);
    assert_eq!((s.history[1].text.as_str(), s.history[1].date_unix), ("b", 0));
    assert!(!s.load_history(None, None));
    assert_eq!(s.history.len(), 2);
    assert!(!s.load_history(Some(vec![]), Some(vec!["x".to_owned()])));
    assert!(s.history.is_empty());
}

#[test]
fn history_rows_are_deleted() {
    let mut s = AppState::new(HERE);
    assert_eq!(s.last_text(), None);
    s.history = vec![row("a", "", 0, 0), row("b", "", 0, 0)];
    s.history[0].audio_path = Some("a.wav".to_owned());
    assert_eq!(s.last_text(), Some("a".to_owned()));
    assert_eq!(s.delete_history_item(2), Err("history item not found".to_owned()));
    assert_eq!(s.delete_history_item(0), Ok(Some("a.wav".to_owned())));
    assert_eq!(s.history.len(), 1);
    assert_eq!(copy_last(&s), Ok(("b".to_owned(), "copied: b".to_owned())));
    assert_eq!(paste_last(&s), Ok(("b".to_owned(), "pasted: b".to_owned())));
    s.history.clear();
    assert_eq!(copy_last(&s), Err("nothing to copy — dictate first"));
    assert_eq!(paste_last(&s), Err("nothing to paste — dictate first"));
}

#[test]
fn catalog_entries() {
    let all = catalog();
    let ids: Vec<&str> = all.iter().map(|m| m.id.as_str()).collect();
    assert_eq!(
        ids,
        vec![
            "parakeet-v3",
            "parakeet-ultra",
            "parakeet-v2",
            "small.en",
            "base.en",
            "tiny.en",
            "small",
        ]
    );
    let base = find("base.en").unwrap();
    assert_eq!(base.engine, EngineKind::Whisper);
    assert_eq!(base.min_ram_gb, 4);
    assert_eq!((base.speed_tenths, base.accuracy_tenths), (90, 75));
    assert_eq!(base.files[0].name, "ggml-base.en.bin");
    assert_eq!(
        base.files[0].url,
        "https://huggingface.co/ggerganov/whisper.cpp/resolve/main/ggml-base.en.bin"
    );
    assert_eq!(base.files[0].expected_bytes, 142_000_000);
    assert_eq!(
        base.single_path(),
        Some(vec!["models".to_owned(), "base.en".to_owned(), "ggml-base.en.bin".to_owned()])
    );
    let ultra = find("parakeet-ultra").unwrap();
    assert_eq!(ultra.name, "Parakeet Ultra 0.6B");
    assert_eq!(ultra.engine, EngineKind::Parakeet);
    assert_eq!((ultra.languages.as_str(), ultra.size_label.as_str()), ("25 languages", "~630 MB"));
    assert!(ultra.files[3].url.contains("mldecode/parakeet-ultra-onnx-int8"));
    assert!(all.iter().all(|m| m.id == ultra.id || m.accuracy_tenths < ultra.accuracy_tenths));
    assert_eq!(default_model_id(), all[0].id);
    let v3 = find("parakeet-v3").unwrap();
    assert_eq!(v3.files.len(), 4);
    assert_eq!(
        v3.files[3].url,
        "https://huggingface.co/csukuangfj/sherpa-onnx-nemo-parakeet-tdt-0.6b-v3-int8/resolve/main/tokens.txt"
    );
    assert_eq!(v3.single_path(), None);
    assert!(v3.is_downloaded(&vec![true, true, true, true]));
    assert!(!v3.is_downloaded(&vec![true, true, false, true]));
    assert_eq!(find("small").unwrap().languages, "Multilingual");
    assert_eq!(find("tiny.en").unwrap().min_ram_gb, 2);
    assert!(find("nope").is_none());
    assert_eq!(EngineKind::Whisper.label(), "Whisper");
}

#[test]
fn models_are_selected_and_deleted() {
    let mut s = AppState::new(HERE);
    s.settings.audio_backend = "openai_compat".to_owned();
    assert_eq!(select_model(&mut s, "base.en"), Ok("selected Whisper Base".to_owned()));
    assert_eq!(s.settings.audio_backend, "local");
    assert_eq!(select_model(&mut s, "x"), Err("unknown model: x".to_owned()));
    let rows = get_models(&s, &vec![false, false, false, false, true, false, false]);
    assert!(rows[4].active && rows[4].downloaded && !rows[4].downloading);
    assert!(!rows[0].active);
    assert_eq!(rows[6].entry.id, "small");
    assert_eq!(delete_model(&mut s, "base.en"), Ok("deleted Whisper Base".to_owned()));
    assert_eq!(s.settings.model_id, "parakeet-v3");
    assert!(delete_model(&mut s, "x").is_err());
    assert!(preloads("parakeet-v2", true));
    assert!(!preloads("base.en", true));
    assert!(warms_up("parakeet-v2", "parakeet-v3", true));
    assert!(!warms_up("parakeet-v2", "parakeet-v2", true));
}

#[test]
fn status_shows_the_speech_source() {
    let s = AppState::new(HERE);
    let st = get_status(
        &s,
        SystemReport {
            whisper_binary: None,
            data_dir: "/d".to_owned(),
            audio_device: Some("Mic".to_owned()),
            version: "0.3.1".to_owned(),
            downloaded: true,
        },
    );
    assert!(!st.recording && st.model_loaded && st.speech_ready);
    assert_eq!(st.engine, EngineKind::Parakeet);
    assert_eq!(st.speech_model_name, "Parakeet TDT 0.6B v3");
    assert_eq!(st.recommended_model, "parakeet-v3");
}

#[test]
fn downloads_are_tracked() {
    let mut s = AppState::new(HERE);
    assert_eq!(begin_download(&mut s, "small").unwrap().id, "small");
    assert_eq!(
        begin_download(&mut s, "small").unwrap_err(),
        "download already in progress"
    );
    assert_eq!(s.downloading, vec!["small".to_owned()]);
    assert_eq!(begin_download(&mut s, "x").unwrap_err(), "unknown model: x");
    assert_eq!(cancel_download(&s, "small"), Ok("cancelling small".to_owned()));
    assert!(begin_download(&mut s, "parakeet-ultra").is_ok());
    end_download(&mut s, "small");
    assert_eq!(s.downloading, vec!["parakeet-ultra".to_owned()]);
    assert_eq!(cancel_download(&s, "small"), Err("no download in progress for that model"));
    assert_eq!(downloaded_message("Whisper Small", 466), "downloaded Whisper Small (466 MB)");
}

#[test]
fn download_goes_file_by_file() {
    let files = find("parakeet-v3").unwrap().files;
    let mut d = Download::new();
    assert!(matches!(d.begin(&files), DownloadAction::Check));
    assert!(matches!(d.step(&files, DownloadEvent::Present(18_500_000), false), DownloadAction::Check));
    assert!(matches!(d.step(&files, DownloadEvent::Missing, false), DownloadAction::Fetch));
    assert_eq!(d.announcement(&files), "downloading decoder.int8.onnx…");
    assert!(matches!(d.step(&files, DownloadEvent::Accepted, false), DownloadAction::Read));
    let r = d.step(&files, DownloadEvent::Chunk(262_143), false);
    assert!(matches!(r, DownloadAction::Write { report: false }));
    let r = d.step(&files, DownloadEvent::Chunk(1), false);
    assert!(matches!(r, DownloadAction::Write { report: true }));
    assert_eq!((d.received, d.last_emit), (262_144, 262_144));
    d.step(&files, DownloadEvent::Chunk(2_000_000), false);
    assert!(matches!(d.step(&files, DownloadEvent::Ended, false), DownloadAction::Publish));
    assert_eq!((d.file, d.downloaded_mb), (2, 20));
    d.step(&files, DownloadEvent::Present(0), false);
    let r = d.step(&files, DownloadEvent::Present(0), false);
    assert!(matches!(r, DownloadAction::Done));
}

#[test]
fn download_failures() {
    let files = find("small").unwrap().files;
    let fail = |e: DownloadEvent, cancelled: bool| -> (String, bool) {
        let mut d = Download::new();
        match d.step(&files, e, cancelled) {
            DownloadAction::Fail { message, remove } => (message, remove),
            _ => panic!("no failure"),
        }
    };
    assert_eq!(
        fail(DownloadEvent::Refused("404 Not Found".to_owned()), false),
        ("download failed for ggml-small.bin: HTTP 404 Not Found".to_owned(), false)
    );
    assert_eq!(fail(DownloadEvent::Chunk(5), true), ("download cancelled".to_owned(), true));
    assert_eq!(fail(DownloadEvent::Broken("reset".to_owned()), false), ("reset".to_owned(), false));
    assert_eq!(
        fail(DownloadEvent::Broken("reset".to_owned()), true),
        ("download cancelled".to_owned(), true)
    );
}

#[test]
fn file_names_stay_in_their_directory() {
    assert!(plain_file_name("rec-1.wav").is_ok());
    for bad in ["a/b", "a\\b", "c:x", "..", "a..b"] {
        assert_eq!(plain_file_name(bad), Err("invalid file name"));
    }
    assert_eq!(new_id("d", 1_700_000_000_000_000_001), "d1700000000000000001");
    assert_eq!(new_id("d", 0), "d0");
}

#[test]
fn rules_are_added_sorted() {
    let old = vec![DictionaryEntry::new("1", "beta", "b")];
    let v = add_dictionary_entry(old, "2", "  alpha ", "a", None, Some("snippet")).unwrap();
    assert_eq!((v[0].id.as_str(), v[0].trigger.as_str(), v[0].kind.as_str()), ("2", "alpha", "snippet"));
    assert!(v[0].whole_word);
    let v = add_dictionary_entry(v, "3", "zeta", "z", Some(false), Some("other")).unwrap();
    assert_eq!((v[2].id.as_str(), v[2].whole_word, v[2].kind.as_str()), ("3", false, "vocab"));
    assert_eq!(
        add_dictionary_entry(v, "4", " ", "z", None, None).unwrap_err(),
        "say-what-you-hear (trigger) must not be empty"
    );
}

#[test]
fn rules_are_edited_by_id() {
    let mut v = vec![DictionaryEntry::new("1", "a", "x"), DictionaryEntry::new("2", "b", "y")];
    assert!(set_dictionary_enabled(&mut v, "2", false).is_ok());
    assert!(!v[1].enabled);
    assert!(star_dictionary_entry(&mut v, "2", true).is_ok());
    assert_eq!(v[0].id, "2");
    assert_eq!(set_dictionary_enabled(&mut v, "9", true), Err("entry not found"));
    assert_eq!(star_dictionary_entry(&mut v, "9", true), Err("entry not found"));
    assert_eq!(delete_dictionary_entry(&mut v, "9"), Err("entry not found"));
    assert!(delete_dictionary_entry(&mut v, "2").is_ok());
    assert_eq!(v.len(), 1);
    assert_eq!(v[0].id, "1");
}

#[test]
fn corrections_become_rules() {
    let v = add_correction(vec![], "1", " Jon ", " John ").unwrap();
    assert_eq!((v[0].trigger.as_str(), v[0].replacement.as_str()), ("Jon", "John"));
    assert_eq!(add_correction(vec![], "1", " ", "x").unwrap_err(), "heard text must not be empty");
    assert_eq!(add_correction(vec![], "1", "x", " ").unwrap_err(), "correction must not be empty");
    assert_eq!(
        add_correction(vec![], "1", "Same", "sAME").unwrap_err(),
        "correction is the same as what was heard"
    );
}

#[test]
fn symbol_presets_are_added_once() {
    let ids: Vec<String> = (0..9).map(|i| format!("d{i}")).collect();
    let mut v = vec![DictionaryEntry::new("u", "HASHTAG", "#!")];
    add_symbol_presets(&mut v, &ids);
    assert_eq!(v.len(), 9);
    assert_eq!((v[0].id.as_str(), v[0].trigger.as_str(), v[0].replacement.as_str()), ("d8", "dash", "-"));
    assert_eq!(v[8].id, "u");
    add_symbol_presets(&mut v, &ids);
    assert_eq!(v.len(), 9);
    let mut snip = vec![DictionaryEntry::new("u", "slash", "sig")];
    snip[0].kind = "snippet".to_owned();
    add_symbol_presets(&mut snip, &ids);
    assert_eq!(snip.len(), 10);
}

#[test]
fn imported_rules_are_checked() {
    let mut e = DictionaryEntry::new("old", "  hi ", "there");
    e.usage = 4;
    let v = import_dictionary(vec![e], &vec!["new".to_owned()]).unwrap();
    assert_eq!((v[0].id.as_str(), v[0].trigger.as_str(), v[0].usage), ("new", "hi", 4));
    let blank = vec![DictionaryEntry::new("1", " ", "x")];
    assert_eq!(
        import_dictionary(blank, &vec!["n".to_owned()]).unwrap_err(),
        "dictionary file contains an empty trigger"
    );
    let many: Vec<DictionaryEntry> = (0..1001).map(|_| DictionaryEntry::new("1", "a", "b")).collect();
    let ids: Vec<String> = (0..1001).map(|i| format!("{i}")).collect();
    assert_eq!(
        import_dictionary(many, &ids).unwrap_err(),
        "dictionary file has more than 1000 rules"
    );
    assert_eq!(exported_message(12, "/x.json"), "exported 12 rules → /x.json");
}

#[test]
fn updates_compare_tags() {
    let none = no_update_check("0.3.1");
    assert!(!none.available && !none.configured && none.latest.is_none());
    let same = update_info("0.3.1", "v0.3.1", "u");
    assert!(!same.available && same.configured);
    let newer = update_info("0.3.1", "v0.4.0", "u");
    assert!(newer.available);
    assert_eq!(newer.latest.as_deref(), Some("v0.4.0"));
}

#[test]
fn provider_status_masks_keys() {
    let s = Secrets { audio_api_key: " ".to_owned(), llm_api_key: "sk-abcdefghij".to_owned() };
    let p = get_provider_status(&s);
    assert!(!p.has_audio_key && p.has_llm_key);
    assert_eq!((p.audio_key_masked.as_str(), p.llm_key_masked.as_str()), ("", "sk-a…ghij"));
}

#[test]
fn audio_test_answers() {
    let empty = "Audio API accepted the clip (empty transcript — speak louder)";
    assert_eq!(audio_test_message(Ok(" ")), Ok(empty.to_owned()));
    assert_eq!(audio_test_message(Ok("hello")), Ok("Audio API heard: hello".to_owned()));
    assert_eq!(audio_test_message(Err("empty audio transcript")), Ok(empty.to_owned()));
    assert_eq!(audio_test_message(Err("timeout")), Err("timeout".to_owned()));
}

#[test]
fn test_recordings_are_guarded() {
    let mut s = AppState::new(HERE);
    assert!(can_test(&s).is_ok());
    assert_eq!(test_runs(&s), Err("recording stopped early — try again"));
    assert!(s.start_recording(false).is_ok());
    assert_eq!(can_test(&s), Err("already recording — stop first"));
    assert!(test_runs(&s).is_ok());
    assert!(test_clip(&vec![0.3f32.to_bits(); 16_000]).is_ok());
    assert_eq!(test_clip(&vec![0; 16_000]), Err("only silence — nothing to transcribe"));
}

#[test]
fn finished_takes_are_filed() {
    let mut s = AppState::new(HERE);
    let (event, pastes) = commit_take(&mut s, item("a b", "um a b", 2), 1_700_000_000);
    assert_eq!((event.text.as_str(), event.chip_ms, pastes), ("a b", 10_000, true));
    assert_eq!((s.history[0].words_out, s.history[0].dict_hits), (2, 2));
    assert_eq!((s.stats.lifetime_raw_words, s.stats.lifetime_dict_hits), (3, 2));
    s.settings.auto_paste = false;
    assert!(!commit_take(&mut s, item("c", "c", 0), 0).1);
    assert_eq!(s.history[0].text, "c");
    assert_eq!(s.stats.by_day.len(), 1);
}

#[test]
fn overlay_pose_is_stored() {
    let mut s = AppState::new(HERE);
    assert!(set_overlay_pose(&mut s, "left", 300).is_ok());
    assert_eq!((s.settings.overlay_edge.as_str(), s.settings.overlay_offset), ("left", 300));
    assert_eq!(
        set_overlay_pose(&mut s, "up", 1),
        Err("unknown overlay edge: up".to_owned())
    );
    let p = snap_overlay(800, 40, 1920, 1080);
    assert_eq!((p.edge, p.x, p.y), (DockEdge::Top, 800, 16));
}

#[test]
fn fresh_settings_are_accepted() {
    for p in [Platform::Windows, Platform::MacOs, Platform::Other] {
        let s = set_settings(Settings::default(p), p).unwrap();
        assert_eq!(s.paste_last_key, "Shift+Alt+Z");
        assert_eq!(set_settings(s, p).unwrap().copy_last_key, "Shift+Alt+X");
    }
}

#[test]
fn settings_are_brought_into_standard_form() {
    let s = Settings {
        hotkey_key: "LeftCmd".to_owned(),
        paste_last_key: "alt+shift+super+p".to_owned(),
        copy_last_key: "control+f7".to_owned(),
        llm_preset: "odd".to_owned(),
        ..Settings::default(HERE)
    };
    let s = set_settings(s, Platform::Windows).unwrap();
    assert_eq!(s.hotkey_key, "LeftWin");
    assert_eq!(s.paste_last_key, "Shift+Alt+Win+P");
    assert_eq!(s.copy_last_key, "Ctrl+F7");
    assert_eq!(s.llm_preset, "clean");
    let keys = (s.paste_last_key.clone(), s.copy_last_key.clone());
    let s = set_settings(s, Platform::Windows).unwrap();
    assert_eq!((s.paste_last_key, s.copy_last_key), keys);
}

#[test]
fn settings_errors() {
    let err = |s: Settings| set_settings(s, HERE).unwrap_err();
    let d = || Settings::default(HERE);
    assert_eq!(err(Settings { model_id: "m".to_owned(), ..d() }), "unknown model: m");
    assert_eq!(err(Settings { hotkey_key: "K".to_owned(), ..d() }), "unknown talk key: K");
    assert_eq!(err(Settings { recording_mode: "r".to_owned(), ..d() }), "unknown recording mode: r");
    assert_eq!(err(Settings { audio_backend: "a".to_owned(), ..d() }), "unknown audio backend: a");
    assert_eq!(err(Settings { llm_backend: "l".to_owned(), ..d() }), "unknown LLM backend: l");
    assert_eq!(err(Settings { overlay_edge: "e".to_owned(), ..d() }), "unknown overlay edge: e");
    assert_eq!(err(Settings { paste_last_key: "".to_owned(), ..d() }), "shortcut is empty");
    assert_eq!(
        err(Settings { copy_last_key: "shift+alt+z".to_owned(), ..d() }),
        "paste-last and copy-last must be different"
    );
    let combo = Settings { hotkey_key: "CtrlAltSpace".to_owned(), ..d() };
    assert!(set_settings(combo, HERE).is_ok());
}
