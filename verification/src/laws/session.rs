//! A dictation session, and what the user is told about it.

use crate::chars;
use crate::commands;
use crate::devices;
use crate::devices::DeviceChoice;
use crate::dictation;
use crate::dictation::{CommittedEvent, DeviceFallback, PasteOutcome, TickAction, TickInput};
use crate::models;
use crate::models::{EngineKind, ModelEntry};
use crate::platform::Platform;
use crate::settings;
use crate::settings::NewHistory;
use crate::state::AppState;
use crate::words;
use vstd::prelude::*;
use vstd::string::*;

verus! {

/// A take that is thrown away is neither live nor transcribed, and leaves history,
/// ledger and settings as they are.
pub proof fn lemma_cancelled(
    before: AppState,
    after: AppState,
    r: Result<&'static str, &'static str>,
)
    requires
        dictation::is_cancelled(before, after, r),
    ensures
        before.recording ==> (r matches Ok(m) && m@ == "cancelled"@) && !after.recording
            && !after.transcribing && !after.hotkey_owned,
        !before.recording ==> (r matches Err(e) && e@ == "not recording"@) && after == before,
        after.history == before.history,
        after.stats == before.stats,
        after.settings == before.settings,
{
}

/// A warning that was given stays given, and only a warning gives it.
pub proof fn lemma_warned(i: TickInput, warned: bool, r: (TickAction, bool))
    requires
        call_ensures(crate::dictation::tick_step, (i, warned), r),
    ensures
        warned ==> r.1 && r.0 != TickAction::Warn,
        r.0 == TickAction::Warn ==> r.1,
        !warned && r.0 != TickAction::Warn ==> !r.1,
{
}

/// What is told about a finished take holds the start of its text: 80 bytes where it
/// was pasted, 160 where it was not.
pub proof fn lemma_done(text: &str, why: &str, off: String, pasted: String, failed: String)
    requires
        call_ensures(crate::dictation::done_message, (text, PasteOutcome::Off), off),
        call_ensures(crate::dictation::done_message, (text, PasteOutcome::Pasted), pasted),
        call_ensures(crate::dictation::done_message, (text, PasteOutcome::Failed(why)), failed),
    ensures
        chars::byte_len(text@) <= 80 ==> pasted@ == "pasted: "@ + text@,
        chars::byte_len(text@) <= 160 ==> off@ == "transcribed (auto-paste off): "@ + text@,
        chars::byte_len(text@) <= 160 ==> failed@ == "transcribed (paste failed: "@ + why@ + "): "@
            + text@,
        pasted@ == "pasted: "@ + settings::truncated(text@, 80),
        off@ == "transcribed (auto-paste off): "@ + settings::truncated(text@, 160),
{
}

/// The recordings of two moments have two names, and a copied file never has the name
/// of a recording.
pub proof fn lemma_recording_names(a: u128, b: u128, x: String, y: String, z: String)
    requires
        call_ensures(crate::dictation::recording_name, (a,), x),
        call_ensures(crate::dictation::recording_name, (b,), y),
        call_ensures(crate::dictation::copied_name, (b,), z),
    ensures
        a != b ==> x@ != y@,
        x@ != z@,
        words::starts_with(x@, "rec-"@) && words::ends_with(x@, ".wav"@),
        words::starts_with(z@, "file-"@) && words::ends_with(z@, ".wav"@),
{
    reveal_strlit("rec-");
    reveal_strlit("file-");
    reveal_strlit(".wav");
    let d = words::decimal(a as nat);
    let e = words::decimal(b as nat);
    assert(x@[0] == 'r' && z@[0] == 'f');
    assert(x@.take(4) =~= "rec-"@);
    assert(z@.take(5) =~= "file-"@);
    assert(x@.skip(x@.len() - 4) =~= ".wav"@);
    assert(z@.skip(z@.len() - 4) =~= ".wav"@);
    assert(x@.subrange(x@.len() - 4, x@.len() as int) =~= ".wav"@);
    assert(z@.subrange(z@.len() - 4, z@.len() as int) =~= ".wav"@);
    if x@ == y@ {
        assert(x@.subrange(4, x@.len() - 4) =~= d);
        assert(y@.subrange(4, y@.len() - 4) =~= e);
        lemma_decimal_value(a as nat);
        lemma_decimal_value(b as nat);
    }
}

/// The number that a row of digits stands for.
pub open spec fn value(s: Seq<char>) -> int
    decreases s.len(),
{
    if s.len() == 0 {
        0
    } else {
        10 * value(s.drop_last()) + (s.last() as int - '0' as int)
    }
}

/// The digits of a number stand for it, and have no zero in front.
pub proof fn lemma_decimal_value(n: nat)
    ensures
        value(words::decimal(n)) == n,
        forall|i: int|
            0 <= i < words::decimal(n).len() ==> chars::is_digit(#[trigger] words::decimal(n)[i]),
        words::decimal(n).len() > 0,
        n > 0 ==> words::decimal(n)[0] != '0',
    decreases n,
{
    let d = words::decimal(n);
    if n < 10 {
        assert(d.drop_last() =~= Seq::empty());
        assert(value(d.drop_last()) == 0);
    } else {
        lemma_decimal_value(n / 10);
        assert(d.drop_last() =~= words::decimal(n / 10));
        assert(d[0] == words::decimal(n / 10)[0]);
    }
}

/// An id is its prefix and the time it was made at.
pub proof fn lemma_ids(prefix: &str, a: u128, b: u128, x: String, y: String)
    requires
        call_ensures(crate::commands::new_id, (prefix, a), x),
        call_ensures(crate::commands::new_id, (prefix, b), y),
        a != b,
    ensures
        x@ != y@,
        words::starts_with(x@, prefix@),
{
    let n = prefix@.len() as int;
    assert(x@.take(n) =~= prefix@);
    if x@ == y@ {
        assert(x@.skip(n) =~= words::decimal(a as nat));
        assert(y@.skip(n) =~= words::decimal(b as nat));
        lemma_decimal_value(a as nat);
        lemma_decimal_value(b as nat);
    }
}

/// A switch of devices is told from the preferred one to the one in use.
pub proof fn lemma_fallback(p: &str, choice: &DeviceChoice, r: Option<DeviceFallback>)
    requires
        call_ensures(crate::dictation::device_fallback, (Some(p), choice), r),
    ensures
        !choice.fell_back ==> r is None,
        choice.fell_back ==> (r matches Some(f) && f.from@ == p@ && f.to@ == choice.name@),
{
}

/// A recording is deleted only where it held no speech.
pub proof fn lemma_deletes(error: &str, r: bool)
    requires
        call_ensures(crate::dictation::deletes_recording, (error,), r),
    ensures
        r ==> exists|k: int|
            #![trigger words::occurs_at(chars::lower(error@), "nothing to transcribe"@, k)]
            words::occurs_at(chars::lower(error@), "nothing to transcribe"@, k) || words::occurs_at(
                chars::lower(error@),
                "too short to transcribe"@,
                k,
            ) || words::occurs_at(chars::lower(error@), "captured no audio"@, k)
                || words::occurs_at(chars::lower(error@), "only silence"@, k),
{
    let m = chars::lower(error@);
    if r {
        assert(devices::says_blank(error@));
        if words::contains(m, "nothing to transcribe"@) {
            let k = choose|k: int| words::occurs_at(m, "nothing to transcribe"@, k);
            assert(words::occurs_at(m, "nothing to transcribe"@, k));
        } else if words::contains(m, "too short to transcribe"@) {
            let k = choose|k: int| words::occurs_at(m, "too short to transcribe"@, k);
            assert(!words::occurs_at(m, "nothing to transcribe"@, k));
        } else if words::contains(m, "captured no audio"@) {
            let k = choose|k: int| words::occurs_at(m, "captured no audio"@, k);
            assert(!words::occurs_at(m, "nothing to transcribe"@, k));
        } else {
            let k = choose|k: int| words::occurs_at(m, "only silence"@, k);
            assert(!words::occurs_at(m, "nothing to transcribe"@, k));
        }
    }
}

/// A Parakeet model is loaded where it is there and not in memory yet.
pub proof fn lemma_load(
    loaded: Option<&str>,
    id: &str,
    downloaded: bool,
    r: Result<bool, String>,
)
    requires
        call_ensures(crate::engine::ensure_parakeet, (loaded, id, downloaded), r),
    ensures
        loaded matches Some(l) ==> (l@ == id@ ==> r == Ok::<bool, String>(false)),
        loaded is None ==> match models::model_named(id@) {
            None => r matches Err(e) && e@ == "unknown model: "@ + id@,
            Some(m) => {
                &&& m.engine == EngineKind::Whisper ==> (r matches Err(e) && e@ == id@
                    + " is not a Parakeet model"@)
                &&& m.engine == EngineKind::Parakeet && !downloaded ==> (r matches Err(e) && e@
                    == m.name + " is not downloaded yet — open Models and download it first"@)
                &&& m.engine == EngineKind::Parakeet && downloaded ==> r == Ok::<bool, String>(true)
            },
        },
        loaded matches Some(l) ==> (l@ != id@ ==> r != Ok::<bool, String>(false)),
{
}

/// A recognizer that heard nothing gives no transcript.
pub proof fn lemma_decoded(samples: usize, heard: &str, r: Result<String, &'static str>)
    requires
        call_ensures(crate::engine::decoded_text, (samples, Some(heard)), r),
    ensures
        samples == 0 ==> (r matches Err(e) && e@ == "no audio captured"@),
        samples > 0 && words::trim(heard@).len() > 0 ==> (r matches Ok(s) && s@ == words::trim(
            heard@,
        )),
        samples > 0 && words::trim(heard@).len() == 0 ==> (r matches Err(e) && e@
            == "transcription was empty"@),
{
}

/// The sidecar runs where the model is one file that is there, and so is the program.
pub proof fn lemma_sidecar_ready(
    id: &str,
    path: &str,
    model_there: bool,
    dir: &str,
    binary_there: bool,
    r: Result<(), String>,
)
    requires
        call_ensures(crate::engine::whisper_ready, (id, path, model_there, dir, binary_there), r),
    ensures
        r is Ok <==> model_there && binary_there && (models::model_named(id@) matches Some(m)
            && m.files.len() == 1),
        models::model_named(id@) matches Some(m) ==> (m.files.len() == 1 && !model_there ==> (
        r matches Err(e) && e@ == "model not downloaded yet: "@ + path@
            + " (open Models and download it first)"@)),
        models::model_named(id@) is None ==> (r matches Err(e) && e@ == "unknown model"@),
{
}

/// The sidecar is a program of the platform.
pub proof fn lemma_sidecar_name(platform: Platform, r: &'static str)
    requires
        call_ensures(crate::engine::whisper_binary_name, (platform,), r),
    ensures
        platform == Platform::Windows <==> r@ == "whisper-cli.exe"@,
        platform == Platform::MacOs || platform == Platform::Other <==> r@ == "whisper-cli"@,
{
    reveal_strlit("whisper-cli.exe");
    reveal_strlit("whisper-cli");
    assert("whisper-cli.exe"@.len() == 15 && "whisper-cli"@.len() == 11);
}

/// A download that begins is under way behind the others, and none begins twice.
pub proof fn lemma_begun(
    before: AppState,
    after: AppState,
    id: Seq<char>,
    r: Result<ModelEntry, String>,
)
    requires
        commands::is_begun(before, after, id, r),
    ensures
        r matches Ok(m) ==> m@.id == id && chars::texts(after.downloading@) == chars::texts(
            before.downloading@,
        ).push(id) && !chars::texts(before.downloading@).contains(id),
        r is Err ==> after == before,
        r is Ok <==> models::model_named(id) is Some && !chars::texts(before.downloading@).contains(
            id,
        ),
        models::model_named(id) is None ==> (r matches Err(e) && e@ == "unknown model: "@ + id),
        after.settings == before.settings && after.history == before.history,
{
    crate::laws::settings::lemma_found(id, 0);
}

/// Only a download that is under way can be cancelled.
pub proof fn lemma_cancel_download(s: &AppState, id: &str, r: Result<String, &'static str>)
    requires
        call_ensures(crate::commands::cancel_download, (s, id), r),
    ensures
        chars::texts(s.downloading@).contains(id@) ==> (r matches Ok(m) && m@ == "cancelling "@
            + id@),
        !chars::texts(s.downloading@).contains(id@) ==> (r matches Err(e) && e@
            == "no download in progress for that model"@),
{
}

/// A clip that is as long as its samples, at sixteen thousand a second.
pub proof fn lemma_clip_duration(a: usize, b: usize, x: u64, y: u64)
    requires
        call_ensures(crate::engine::clip_duration_ns, (a,), x),
        call_ensures(crate::engine::clip_duration_ns, (b,), y),
    ensures
        a == 16_000 * b ==> x == b * 1_000_000_000,
        a - b == 16 ==> x - y == 1_000_000,
        a < b ==> x < y,
{
}

/// What is told about a finished download and an exported dictionary.
pub proof fn lemma_told(name: &str, mb: u64, rules: usize, d: String, e: String)
    requires
        call_ensures(crate::commands::downloaded_message, (name, mb), d),
        call_ensures(crate::commands::exported_message, (rules, name), e),
    ensures
        d@ == "downloaded "@ + name@ + " ("@ + words::decimal(mb as nat) + " MB)"@,
        e@ == "exported "@ + words::decimal(rules as nat) + " rules → "@ + name@,
{
}

/// A test recording starts where none is live, and counts where it still is.
pub proof fn lemma_test_recording(
    s: &AppState,
    can: Result<(), &'static str>,
    runs: Result<(), &'static str>,
)
    requires
        call_ensures(crate::commands::can_test, (s,), can),
        call_ensures(crate::commands::test_runs, (s,), runs),
    ensures
        can is Ok <==> !s.recording,
        runs is Ok <==> s.recording,
        can matches Err(e) ==> e@ == "already recording — stop first"@,
        runs matches Err(e) ==> e@ == "recording stopped early — try again"@,
{
}

/// A stream that broke is told as such, and a started take says how it ends.
pub proof fn lemma_fixed_messages(f: DeviceFallback, started: &'static str)
    requires
        call_ensures(crate::dictation::stream_error_fallback, (), f),
        call_ensures(crate::dictation::started_message, (), started),
    ensures
        f.from@.len() == 0,
        f.to@ == "stream error — take discarded"@,
        started@ == "recording… press hotkey again to transcribe"@,
{
    reveal_strlit("");
}

/// A finished take is pasted where the settings say so, and can be copied for ten
/// seconds.
pub proof fn lemma_committed(before: AppState, item: NewHistory, r: (CommittedEvent, bool))
    requires
        dictation::is_committed(before, item, r),
    ensures
        r.0.text@ == item.text@,
        r.0.chip_ms == 10_000,
        before.settings.auto_paste <==> r.1,
{
}

} // verus!
