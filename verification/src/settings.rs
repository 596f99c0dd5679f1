//! Settings, history rows and speech-source helpers.
//!
//! Talk-key *names* live here, so that a settings file copied between Windows
//! and macOS still loads.

use crate::chars;
use crate::chars::{byte_length, cat, char_index, from_range, str_eq, to_chars};
use crate::models;
use crate::models::{default_model_id, find};
use crate::overlay;
use crate::platform::Platform;
use crate::shortcuts::{default_copy_last, default_paste_last};
use crate::words;
use crate::words::{has_text, trim_end_class, trimmed, Class};
use vstd::prelude::*;
use vstd::string::*;

verus! {

pub const HISTORY_LIMIT: usize = 100;

/// A stored talk key, as the platform calls it.
pub open spec fn native_key(key: Seq<char>, platform: Platform) -> Seq<char> {
    if platform == Platform::MacOs {
        if key == "LeftWin"@ {
            "LeftCmd"@
        } else if key == "RightWin"@ {
            "RightCmd"@
        } else if key == "CtrlWin"@ {
            "CtrlCmd"@
        } else if key == "ScrollLock"@ {
            "Fn"@
        } else {
            key
        }
    } else {
        if key == "Fn"@ || key == "FnCtrl"@ {
            "RightCtrl"@
        } else if key == "LeftCmd"@ {
            "LeftWin"@
        } else if key == "RightCmd"@ {
            "RightWin"@
        } else if key == "CtrlCmd"@ {
            "CtrlWin"@
        } else {
            key
        }
    }
}

/// Maps a stored talk key onto a platform, so that a settings file copied across
/// machines still picks a key that exists there. Win keys become Cmd on macOS;
/// Fn combos fall back to Right Ctrl elsewhere.
pub fn normalize_talk_key(key: &str, platform: Platform) -> (r: String)
    ensures
        r@ == native_key(key@, platform),
{
    let native = if platform == Platform::MacOs {
        if str_eq(key, "LeftWin") {
            "LeftCmd"
        } else if str_eq(key, "RightWin") {
            "RightCmd"
        } else if str_eq(key, "CtrlWin") {
            "CtrlCmd"
        } else if str_eq(key, "ScrollLock") {
            "Fn"
        } else {
            key
        }
    } else {
        if str_eq(key, "Fn") || str_eq(key, "FnCtrl") {
            "RightCtrl"
        } else if str_eq(key, "LeftCmd") {
            "LeftWin"
        } else if str_eq(key, "RightCmd") {
            "RightWin"
        } else if str_eq(key, "CtrlCmd") {
            "CtrlWin"
        } else {
            key
        }
    };
    native.to_owned()
}

/// A key that is native already stays.
pub proof fn lemma_native_key_stays(key: Seq<char>, platform: Platform)
    ensures
        native_key(native_key(key, platform), platform) == native_key(key, platform),
{
    reveal_strlit("LeftWin");
    reveal_strlit("RightWin");
    reveal_strlit("CtrlWin");
    reveal_strlit("ScrollLock");
    reveal_strlit("LeftCmd");
    reveal_strlit("RightCmd");
    reveal_strlit("CtrlCmd");
    reveal_strlit("Fn");
    reveal_strlit("FnCtrl");
    reveal_strlit("RightCtrl");
    assert("LeftWin"@.last() == 'n' && "RightWin"@.last() == 'n' && "CtrlWin"@.last() == 'n');
    assert("LeftWin"@.len() == 7 && "RightWin"@.len() == 8 && "CtrlWin"@.len() == 7);
    assert("LeftCmd"@.last() == 'd' && "RightCmd"@.last() == 'd' && "CtrlCmd"@.last() == 'd');
    assert("RightCtrl"@.last() == 'l' && "RightCtrl"@.len() == 9);
    assert("ScrollLock"@.last() == 'k');
    assert("Fn"@.len() == 2);
    assert("FnCtrl"@.len() == 6);
}

pub open spec fn talk_key(platform: Platform) -> Seq<char> {
    if platform == Platform::MacOs {
        "Fn"@
    } else {
        "RightCtrl"@
    }
}

pub fn default_talk_key(platform: Platform) -> (r: String)
    ensures
        r@ == talk_key(platform),
{
    if platform == Platform::MacOs {
        "Fn".to_owned()
    } else {
        "RightCtrl".to_owned()
    }
}

#[derive(Debug)]
pub struct Settings {
    pub model_id: String,
    /// BCP-47 code or "auto".
    pub language: String,
    pub auto_paste: bool,
    /// "off", "light" (filler words only) or "full" (fillers and punctuation).
    /// "medium" and "high" add a language-model rewrite.
    pub cleanup: String,
    /// Whisper only: translate to English (needs a language other than "auto").
    pub translate: bool,
    /// The name of the talk key.
    pub hotkey_key: String,
    /// "hold", "toggle" or "double_tap".
    pub recording_mode: String,
    /// Preferred input device name. `None` is the OS default.
    pub audio_device: Option<String>,
    pub overlay_enabled: bool,
    pub overlay_edge: String,
    pub overlay_offset: i32,
    pub paste_last_key: String,
    pub copy_last_key: String,
    pub onboarded: bool,
    /// Stop the take at 20 minutes.
    pub session_cap: bool,
    pub audio_backend: String,
    pub audio_api_base: String,
    pub audio_api_model: String,
    pub llm_backend: String,
    pub llm_api_base: String,
    pub llm_api_model: String,
    /// The bit pattern of a single-precision value.
    pub llm_temperature: u32,
    pub llm_timeout_ms: u64,
    pub llm_preset: String,
    pub llm_custom_prompt: String,
    pub llm_enabled: bool,
}

/// An equal optional string.
pub fn copy_opt(o: &Option<String>) -> (r: Option<String>)
    ensures
        r == *o,
{
    match o {
        Some(s) => Some(s.clone()),
        None => None,
    }
}

impl Clone for Settings {
    fn clone(&self) -> (r: Self)
        ensures
            r == *self,
    {
        Settings {
            model_id: self.model_id.clone(),
            language: self.language.clone(),
            auto_paste: self.auto_paste,
            cleanup: self.cleanup.clone(),
            translate: self.translate,
            hotkey_key: self.hotkey_key.clone(),
            recording_mode: self.recording_mode.clone(),
            audio_device: copy_opt(&self.audio_device),
            overlay_enabled: self.overlay_enabled,
            overlay_edge: self.overlay_edge.clone(),
            overlay_offset: self.overlay_offset,
            paste_last_key: self.paste_last_key.clone(),
            copy_last_key: self.copy_last_key.clone(),
            onboarded: self.onboarded,
            session_cap: self.session_cap,
            audio_backend: self.audio_backend.clone(),
            audio_api_base: self.audio_api_base.clone(),
            audio_api_model: self.audio_api_model.clone(),
            llm_backend: self.llm_backend.clone(),
            llm_api_base: self.llm_api_base.clone(),
            llm_api_model: self.llm_api_model.clone(),
            llm_temperature: self.llm_temperature,
            llm_timeout_ms: self.llm_timeout_ms,
            llm_preset: self.llm_preset.clone(),
            llm_custom_prompt: self.llm_custom_prompt.clone(),
            llm_enabled: self.llm_enabled,
        }
    }
}

pub fn default_cleanup() -> (r: String)
    ensures
        r@ == "full"@,
{
    "full".to_owned()
}

/// What a settings file without the field says: an older install has been
/// through the wizard, and shows the overlay.
pub fn default_true() -> (r: bool)
    ensures
        r,
{
    true
}

pub fn default_overlay_edge() -> (r: String)
    ensures
        r@ == "bottom"@,
{
    "bottom".to_owned()
}

pub fn default_overlay_offset() -> (r: i32)
    ensures
        r == overlay::OFFSET_CENTER,
{
    overlay::OFFSET_CENTER
}

pub fn default_audio_backend() -> (r: String)
    ensures
        r@ == "local"@,
{
    "local".to_owned()
}

pub fn default_audio_model() -> (r: String)
    ensures
        r@ == "whisper-1"@,
{
    "whisper-1".to_owned()
}

pub fn default_llm_backend() -> (r: String)
    ensures
        r@ == "off"@,
{
    "off".to_owned()
}

pub fn default_llm_model() -> (r: String)
    ensures
        r@ == "gpt-4o-mini"@,
{
    "gpt-4o-mini".to_owned()
}

/// The bit pattern of 0.2.
pub fn default_llm_temp() -> (r: u32)
    ensures
        r == 0x3E4C_CCCD,
{
    0x3E4C_CCCD
}

pub fn default_llm_timeout() -> (r: u64)
    ensures
        r == 8000,
{
    8000
}

pub fn default_llm_preset() -> (r: String)
    ensures
        r@ == "clean"@,
{
    "clean".to_owned()
}

/// The settings of a fresh install.
pub open spec fn is_fresh(s: Settings, platform: Platform) -> bool {
    &&& s.model_id@ == "parakeet-v3"@
    &&& s.language@ == "auto"@
    &&& s.auto_paste
    &&& s.cleanup@ == "full"@
    &&& !s.translate
    &&& s.hotkey_key@ == talk_key(platform)
    &&& s.recording_mode@ == "hold"@
    &&& s.audio_device is None
    &&& s.overlay_enabled
    &&& s.overlay_edge@ == "bottom"@
    &&& s.overlay_offset == overlay::OFFSET_CENTER
    &&& s.paste_last_key@ == "Shift+Alt+Z"@
    &&& s.copy_last_key@ == "Shift+Alt+X"@
    &&& !s.onboarded
    &&& !s.session_cap
    &&& s.audio_backend@ == "local"@
    &&& s.audio_api_base@ == Seq::<char>::empty()
    &&& s.audio_api_model@ == "whisper-1"@
    &&& s.llm_backend@ == "off"@
    &&& s.llm_api_base@ == Seq::<char>::empty()
    &&& s.llm_api_model@ == "gpt-4o-mini"@
    &&& s.llm_temperature == 0x3E4C_CCCD
    &&& s.llm_timeout_ms == 8000
    &&& s.llm_preset@ == "clean"@
    &&& s.llm_custom_prompt@ == Seq::<char>::empty()
    &&& !s.llm_enabled
}

impl Settings {
    /// The settings of a fresh install on a platform.
    pub fn default(platform: Platform) -> (r: Self)
        ensures
            is_fresh(r, platform),
    {
        Settings {
            model_id: default_model_id(),
            language: "auto".to_owned(),
            auto_paste: true,
            cleanup: default_cleanup(),
            translate: false,
            hotkey_key: default_talk_key(platform),
            recording_mode: "hold".to_owned(),
            audio_device: None,
            overlay_enabled: true,
            overlay_edge: default_overlay_edge(),
            overlay_offset: default_overlay_offset(),
            paste_last_key: default_paste_last(),
            copy_last_key: default_copy_last(),
            onboarded: false,
            session_cap: false,
            audio_backend: default_audio_backend(),
            audio_api_base: String::new(),
            audio_api_model: default_audio_model(),
            llm_backend: default_llm_backend(),
            llm_api_base: String::new(),
            llm_api_model: default_llm_model(),
            llm_temperature: default_llm_temp(),
            llm_timeout_ms: default_llm_timeout(),
            llm_preset: default_llm_preset(),
            llm_custom_prompt: String::new(),
            llm_enabled: false,
        }
    }
}

/// A history row.
#[derive(Debug)]
pub struct HistoryItem {
    pub text: String,
    /// Seconds since the epoch; zero where it is not known.
    pub date_unix: u64,
    pub duration_ns: u64,
    pub model: String,
    /// The recording, for playback.
    pub audio_path: Option<String>,
    /// The transcript before dictionary and cleanup. Empty on old rows.
    pub raw_text: String,
    /// Polished word count. Zero on old rows.
    pub words_out: u32,
    pub dict_hits: u32,
    pub cleanup: String,
}

impl Clone for HistoryItem {
    fn clone(&self) -> (r: Self)
        ensures
            r == *self,
    {
        HistoryItem {
            text: self.text.clone(),
            date_unix: self.date_unix,
            duration_ns: self.duration_ns,
            model: self.model.clone(),
            audio_path: copy_opt(&self.audio_path),
            raw_text: self.raw_text.clone(),
            words_out: self.words_out,
            dict_hits: self.dict_hits,
            cleanup: self.cleanup.clone(),
        }
    }
}

/// A take on its way into the history.
#[derive(Debug)]
pub struct NewHistory {
    pub text: String,
    pub raw_text: String,
    pub duration_ns: u64,
    pub model: String,
    pub audio_path: Option<String>,
    pub dict_hits: u32,
    pub cleanup: String,
}

/// Whether a text can be cut at byte `n`.
pub open spec fn can_truncate(s: Seq<char>, n: int) -> bool {
    chars::byte_len(s) > n ==> chars::at_boundary(s, n)
}

/// The first `n` bytes of a text that is longer, with an ellipsis.
pub open spec fn truncated(s: Seq<char>, n: int) -> Seq<char> {
    if chars::byte_len(s) <= n {
        s
    } else {
        s.take(chars::chars_before(s, n)) + "…"@
    }
}

pub fn truncate(s: &str, n: usize) -> (r: String)
    requires
        can_truncate(s@, n as int),
    ensures
        r@ == truncated(s@, n as int),
{
    if byte_length(s) <= n {
        return s.to_owned();
    }
    let cs = to_chars(s);
    let k = char_index(&cs, n);
    let head = from_range(&cs, 0, k);
    assert(head@ =~= s@.take(k as int));
    cat(head.as_str(), "…")
}

/// What stays of a text that is cut fits into `n` bytes.
pub proof fn lemma_truncated_fits(s: Seq<char>, n: int)
    requires
        0 <= n,
        can_truncate(s, n),
        chars::byte_len(s) > n,
    ensures
        chars::byte_len(s.take(chars::chars_before(s, n))) == n,
{
    chars::lemma_boundary(s, n);
}

/// Whether speech comes from a host.
pub open spec fn is_online(s: Settings) -> bool {
    s.audio_backend@ == "openai_compat"@
}

pub fn is_online_audio(settings: &Settings) -> (r: bool)
    ensures
        r == is_online(*settings),
{
    str_eq(settings.audio_backend.as_str(), "openai_compat")
}

/// The host of an address.
pub open spec fn host_label(base: Seq<char>) -> Seq<char> {
    let b = words::without_end(words::trim(base), Class::Only('/'));
    if words::contains(b, "api.groq.com"@) {
        "Groq"@
    } else if b.len() == 0 || words::contains(b, "api.openai.com"@) {
        "OpenAI"@
    } else {
        "Online"@
    }
}

pub fn audio_host_label(base: &str) -> (r: &'static str)
    ensures
        r@ == host_label(base@),
{
    let b = trimmed(base);
    let b = trim_end_class(b.as_str(), &Class::Only('/'));
    if has_text(b.as_str(), "api.groq.com") {
        "Groq"
    } else if b.as_str().is_empty() || has_text(b.as_str(), "api.openai.com") {
        "OpenAI"
    } else {
        "Online"
    }
}

/// Catalog id, or the API model name when speech comes from a host.
pub open spec fn speech_id(s: Settings) -> Seq<char> {
    if is_online(s) {
        if words::trim(s.audio_api_model@).len() == 0 {
            "online model"@
        } else {
            words::trim(s.audio_api_model@)
        }
    } else {
        s.model_id@
    }
}

pub fn active_speech_id(settings: &Settings) -> (r: String)
    ensures
        r@ == speech_id(*settings),
{
    if is_online_audio(settings) {
        let t = trimmed(settings.audio_api_model.as_str());
        if t.as_str().is_empty() {
            "online model".to_owned()
        } else {
            t
        }
    } else {
        settings.model_id.clone()
    }
}

/// The name of the speech model.
pub open spec fn speech_name(s: Settings) -> Seq<char> {
    if is_online(s) {
        speech_id(s)
    } else {
        match models::model_named(s.model_id@) {
            Some(m) => m.name,
            None => s.model_id@,
        }
    }
}

pub fn active_speech_name(settings: &Settings) -> (r: String)
    ensures
        r@ == speech_name(*settings),
{
    if is_online_audio(settings) {
        active_speech_id(settings)
    } else {
        match find(settings.model_id.as_str()) {
            Some(m) => m.name,
            None => settings.model_id.clone(),
        }
    }
}

/// The engine or the host of the speech model.
pub open spec fn speech_engine(s: Settings) -> Seq<char> {
    if is_online(s) {
        host_label(s.audio_api_base@)
    } else {
        match models::model_named(s.model_id@) {
            Some(m) => m.engine.name(),
            None => "Local"@,
        }
    }
}

pub fn active_speech_engine_label(settings: &Settings) -> (r: String)
    ensures
        r@ == speech_engine(*settings),
{
    if is_online_audio(settings) {
        audio_host_label(settings.audio_api_base.as_str()).to_owned()
    } else {
        match find(settings.model_id.as_str()) {
            Some(m) => m.engine.label().to_owned(),
            None => "Local".to_owned(),
        }
    }
}

/// Whether dictation can start: an API model is set, or the catalog model is
/// there. `downloaded` says whether the files of the model are.
pub fn active_speech_ready(settings: &Settings, downloaded: bool) -> (r: bool)
    ensures
        r == (if is_online(*settings) {
            words::trim(settings.audio_api_model@).len() > 0
        } else {
            models::model_named(settings.model_id@) is Some && downloaded
        }),
{
    if is_online_audio(settings) {
        let t = trimmed(settings.audio_api_model.as_str());
        !t.as_str().is_empty()
    } else {
        find(settings.model_id.as_str()).is_some() && downloaded
    }
}

pub fn active_speech_source(settings: &Settings) -> (r: &'static str)
    ensures
        r@ == (if is_online(*settings) {
            "online"@
        } else {
            "local"@
        }),
{
    if is_online_audio(settings) {
        "online"
    } else {
        "local"
    }
}

} // verus!
