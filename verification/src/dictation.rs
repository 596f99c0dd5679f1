//! Dictation session: the live ticker, and what the user is told.

use crate::chars::{cat, cat3};
use crate::devices::{is_blank_audio_error, DeviceChoice};
use crate::devices;
use crate::overlay;
use crate::session;
use crate::session::{session_tick, SessionTick};
use crate::settings;
use crate::settings::{truncate, NewHistory};
use crate::state;
use crate::state::AppState;
use crate::words;
use crate::words::number;
use vstd::prelude::*;
use vstd::string::*;

verus! {

/// A committed text, with the time that its copy chip stays.
#[derive(Debug)]
pub struct CommittedEvent {
    pub text: String,
    pub chip_ms: u64,
}

pub fn committed(text: String) -> (r: CommittedEvent)
    ensures
        r.text == text,
        r.chip_ms == overlay::COPY_CHIP_MS,
{
    CommittedEvent { text, chip_ms: overlay::COPY_CHIP_MS }
}

/// A switch to another input device.
#[derive(Debug)]
pub struct DeviceFallback {
    pub from: String,
    pub to: String,
}

/// The switch to report, where a take uses another device than the preferred
/// one.
pub fn device_fallback(preferred: Option<&str>, choice: &DeviceChoice) -> (r: Option<
    DeviceFallback,
>)
    ensures
        r is Some <==> choice.fell_back,
        r matches Some(f) ==> f.to@ == choice.name@ && f.from@ == (match preferred {
            Some(p) => p@,
            None => ""@,
        }),
{
    if choice.fell_back {
        let from = match preferred {
            Some(p) => p,
            None => "",
        };
        Some(DeviceFallback { from: from.to_owned(), to: choice.name.clone() })
    } else {
        None
    }
}

/// The switch that is reported when the stream of a take broke.
pub fn stream_error_fallback() -> (r: DeviceFallback)
    ensures
        r.from@ == ""@,
        r.to@ == "stream error — take discarded"@,
{
    DeviceFallback { from: "".to_owned(), to: "stream error — take discarded".to_owned() }
}

/// How many samples the live meter looks at.
pub const METER_SAMPLES: usize = 1920;

/// Where the samples of the live meter start.
pub fn meter_start(samples: usize) -> (r: usize)
    ensures
        r == (if samples > METER_SAMPLES {
            samples - METER_SAMPLES
        } else {
            0
        }),
{
    samples.saturating_sub(METER_SAMPLES)
}

/// What the live ticker sees.
#[derive(Debug, Clone, Copy, PartialEq, Eq, Structural)]
pub struct TickInput {
    pub recording: bool,
    /// The capture of the take is there.
    pub active: bool,
    pub stream_error: bool,
    pub elapsed_ms: u64,
    pub cap: bool,
}

/// What the live ticker does.
#[derive(Debug, Clone, Copy, PartialEq, Eq, Structural)]
pub enum TickAction {
    /// The take is over: the ticker ends.
    End,
    /// Report the level, throw the take away and end.
    Discard,
    /// Report the level and warn about the length of the take.
    Warn,
    /// Report the level, stop the take, transcribe it and end.
    Stop,
    /// Report the level.
    Level,
}

/// What the live ticker does.
pub open spec fn ticked(i: TickInput, warned: bool) -> TickAction {
    if !i.recording || !i.active {
        TickAction::End
    } else if i.stream_error {
        TickAction::Discard
    } else {
        match session::tick_at(i.elapsed_ms as int, warned, i.cap) {
            SessionTick::Warn => TickAction::Warn,
            SessionTick::Cap => TickAction::Stop,
            SessionTick::Nothing => TickAction::Level,
        }
    }
}

/// One tick of the live ticker, and whether the warning was given by then.
pub fn tick_step(i: TickInput, warned: bool) -> (r: (TickAction, bool))
    ensures
        r.0 == ticked(i, warned),
        r.1 == (warned || r.0 == TickAction::Warn),
{
    if !i.recording || !i.active {
        return (TickAction::End, warned);
    }
    if i.stream_error {
        return (TickAction::Discard, warned);
    }
    match session_tick(i.elapsed_ms, warned, i.cap) {
        SessionTick::Warn => (TickAction::Warn, true),
        SessionTick::Cap => (TickAction::Stop, warned),
        SessionTick::Nothing => (TickAction::Level, warned),
    }
}

/// Whether the warning was given by the first `n` ticks of a take.
pub open spec fn warned_by(ticks: Seq<TickInput>, n: int) -> bool
    decreases n,
{
    n > 0 && (warned_by(ticks, n - 1) || ticked(ticks[n - 1], warned_by(ticks, n - 1))
        == TickAction::Warn)
}

/// A take is warned about at most once: of two ticks of a take, one gives no
/// warning.
pub proof fn lemma_one_warning(ticks: Seq<TickInput>, i: int, j: int)
    requires
        0 <= i < j < ticks.len(),
    ensures
        ticked(ticks[i], warned_by(ticks, i)) != TickAction::Warn || ticked(
            ticks[j],
            warned_by(ticks, j),
        ) != TickAction::Warn,
    decreases j,
{
    if ticked(ticks[i], warned_by(ticks, i)) == TickAction::Warn {
        lemma_stays_warned(ticks, i + 1, j);
    }
}

proof fn lemma_stays_warned(ticks: Seq<TickInput>, i: int, j: int)
    requires
        0 < i <= j,
        warned_by(ticks, i),
    ensures
        warned_by(ticks, j),
    decreases j,
{
    if i < j {
        lemma_stays_warned(ticks, i, j - 1);
    }
}

/// Whether the recording of a take that failed is deleted: where it holds no
/// speech.
pub fn deletes_recording(error: &str) -> (r: bool)
    ensures
        r == devices::says_blank(error@),
{
    is_blank_audio_error(error)
}

/// What the overlay is told about a finished take, and whether the text is pasted.
pub open spec fn is_committed(
    before: AppState,
    item: NewHistory,
    r: (CommittedEvent, bool),
) -> bool {
    &&& r.0.text@ == item.text@
    &&& r.0.chip_ms == overlay::COPY_CHIP_MS
    &&& r.1 == before.settings.auto_paste
}

/// Files a finished take, and gives what the overlay is told and whether the text
/// is pasted.
pub fn commit_take(state: &mut AppState, item: NewHistory, now: u64) -> (r: (CommittedEvent, bool))
    requires
        old(state).stats.wf(),
        old(state).stats.has_room(state::take_of(item)),
    ensures
        state::is_filed(*old(state), *final(state), item, now),
        is_committed(*old(state), item, r),
{
    let event = committed(item.text.clone());
    let pastes = state.settings.auto_paste;
    state.push_history(item, now);
    (event, pastes)
}

/// What became of the paste.
pub enum PasteOutcome<'a> {
    Off,
    Pasted,
    Failed(&'a str),
}

/// How much of the text is shown.
pub open spec fn shown_bytes(outcome: PasteOutcome) -> int {
    match outcome {
        PasteOutcome::Pasted => 80,
        _ => 160,
    }
}

/// What the user is told about a finished take.
pub fn done_message(text: &str, outcome: PasteOutcome) -> (r: String)
    requires
        settings::can_truncate(text@, shown_bytes(outcome)),
    ensures
        r@ == (match outcome {
            PasteOutcome::Off => "transcribed (auto-paste off): "@ + settings::truncated(
                text@,
                160,
            ),
            PasteOutcome::Pasted => "pasted: "@ + settings::truncated(text@, 80),
            PasteOutcome::Failed(e) => "transcribed (paste failed: "@ + e@ + "): "@
                + settings::truncated(text@, 160),
        }),
{
    match outcome {
        PasteOutcome::Off => {
            let t = truncate(text, 160);
            cat("transcribed (auto-paste off): ", t.as_str())
        },
        PasteOutcome::Pasted => {
            let t = truncate(text, 80);
            cat("pasted: ", t.as_str())
        },
        PasteOutcome::Failed(e) => {
            let t = truncate(text, 160);
            let head = cat3("transcribed (paste failed: ", e, "): ");
            cat(head.as_str(), t.as_str())
        },
    }
}

/// What the user is told when a take starts.
pub fn started_message() -> (r: &'static str)
    ensures
        r@ == "recording… press hotkey again to transcribe"@,
{
    "recording… press hotkey again to transcribe"
}

/// The file name of a recording, by its time in milliseconds.
pub fn recording_name(stamp_ms: u128) -> (r: String)
    ensures
        r@ == "rec-"@ + words::decimal(stamp_ms as nat) + ".wav"@,
{
    let n = number(stamp_ms);
    cat3("rec-", n.as_str(), ".wav")
}

/// The file name of a copied audio file, by its time in milliseconds.
pub fn copied_name(stamp_ms: u128) -> (r: String)
    ensures
        r@ == "file-"@ + words::decimal(stamp_ms as nat) + ".wav"@,
{
    let n = number(stamp_ms);
    cat3("file-", n.as_str(), ".wav")
}

/// What the user's word to throw the live take away does.
pub open spec fn is_cancelled(
    before: AppState,
    after: AppState,
    r: Result<&'static str, &'static str>,
) -> bool {
    match r {
        Ok(m) => before.recording && m@ == "cancelled"@ && after == (AppState {
            recording: false,
            hotkey_owned: false,
            transcribing: false,
            ..before
        }),
        Err(e) => !before.recording && e@ == "not recording"@ && after == before,
    }
}

/// Throws the live take away on the user's word. History and ledger stay.
pub fn cancel_dictation(state: &mut AppState) -> (r: Result<&'static str, &'static str>)
    ensures
        is_cancelled(*old(state), *final(state), r),
{
    if !state.recording {
        return Err("not recording");
    }
    match state.cancel_recording() {
        Ok(_) => {
            state.transcribing = false;
            Ok("cancelled")
        },
        Err(e) => Err(e),
    }
}

} // verus!
