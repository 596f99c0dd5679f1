//! Device pick and live level math, without an audio host.
//!
//! A sample is held by the bit pattern of its single-precision value. Without
//! the sign bit, the patterns of numbers order as their magnitudes do, and those
//! above the pattern of infinity are not numbers.

use crate::chars;
use crate::chars::{lowered, str_eq};
use crate::words;
use crate::words::{has_text, trimmed};
use vstd::prelude::*;
use vstd::string::*;

verus! {

#[derive(Debug, PartialEq, Eq)]
pub struct DeviceChoice {
    pub name: String,
    pub fell_back: bool,
}

/// The text of an optional string.
pub open spec fn text_of(o: Option<&str>) -> Option<Seq<char>> {
    match o {
        Some(s) => Some(s@),
        None => None,
    }
}

/// A name with something in it, trimmed.
pub open spec fn given(o: Option<&str>) -> Option<Seq<char>> {
    match o {
        Some(s) => if words::trim(s@).len() > 0 {
            Some(words::trim(s@))
        } else {
            None
        },
        None => None,
    }
}

fn take_given(o: Option<&str>) -> (r: Option<String>)
    ensures
        (match r {
            Some(s) => Some(s@),
            None => None,
        }) == given(o),
{
    match o {
        Some(s) => {
            let t = trimmed(s);
            if t.as_str().is_empty() {
                None
            } else {
                Some(t)
            }
        },
        None => None,
    }
}

/// The device to record from, and whether it stands in for the preferred one; or
/// why there is none.
pub open spec fn chosen(
    names: Seq<Seq<char>>,
    default_name: Option<Seq<char>>,
    preferred: Option<Seq<char>>,
) -> Result<(Seq<char>, bool), Seq<char>> {
    if names.len() == 0 {
        Err("no input devices found"@)
    } else {
        match (preferred, default_name) {
            (Some(want), _) if names.contains(want) => Ok((want, false)),
            (Some(_), Some(name)) => Ok((name, true)),
            (Some(_), None) => Err("no input devices found"@),
            (None, Some(name)) => Ok((name, false)),
            (None, None) => Err("no default input device"@),
        }
    }
}

/// A choice, by its texts.
pub open spec fn choice_of(r: Result<DeviceChoice, String>) -> Result<
    (Seq<char>, bool),
    Seq<char>,
> {
    match r {
        Ok(c) => Ok((c.name@, c.fell_back)),
        Err(e) => Err(e@),
    }
}

/// Whether `name` is one of `names`.
pub fn lists_name(names: &Vec<String>, name: &str) -> (r: bool)
    ensures
        r == chars::texts(names@).contains(name@),
{
    let mut i: usize = 0;
    while i < names.len()
        invariant
            i <= names.len(),
            forall|k: int| 0 <= k < i ==> (#[trigger] names@[k])@ != name@,
        decreases names.len() - i,
    {
        if str_eq(names[i].as_str(), name) {
            assert(chars::texts(names@)[i as int] == name@);
            return true;
        }
        i += 1;
    }
    assert forall|k: int| 0 <= k < names@.len() implies chars::texts(names@)[k] != name@ by {
        assert(names@[k]@ != name@);
    }
    false
}

/// Prefers `preferred` when it is still plugged in; otherwise the OS default.
pub fn choose_device(
    names: &Vec<String>,
    default_name: Option<&str>,
    preferred: Option<&str>,
) -> (r: Result<DeviceChoice, String>)
    ensures
        choice_of(r) == chosen(chars::texts(names@), given(default_name), given(preferred)),
{
    if names.len() == 0 {
        return Err("no input devices found".to_owned());
    }
    let fallback = take_given(default_name);
    if let Some(want) = take_given(preferred) {
        if lists_name(names, want.as_str()) {
            return Ok(DeviceChoice { name: want, fell_back: false });
        }
        return match fallback {
            Some(name) => Ok(DeviceChoice { name, fell_back: true }),
            None => Err("no input devices found".to_owned()),
        };
    }
    match fallback {
        Some(name) => Ok(DeviceChoice { name, fell_back: false }),
        None => Err("no default input device".to_owned()),
    }
}

/// A choice never names a device that is neither listed nor the default, and it
/// falls back exactly where the preferred device is gone.
pub proof fn lemma_choice_is_known(
    names: Seq<Seq<char>>,
    default_name: Option<Seq<char>>,
    preferred: Option<Seq<char>>,
)
    ensures
        chosen(names, default_name, preferred) matches Ok((name, fell_back)) ==> {
            &&& names.contains(name) || default_name == Some(name)
            &&& fell_back == (preferred matches Some(want) && !names.contains(want))
        },
{
}

/// The choice for a preferred device whose label the audio host knows, or
/// `choose_device` where it knows none.
pub fn resolve_capture_device(
    names: &Vec<String>,
    default_name: Option<&str>,
    preferred: Option<&str>,
    known_label: Option<String>,
) -> (r: Result<DeviceChoice, String>)
    ensures
        choice_of(r) == (match (given(preferred), known_label) {
            (Some(_), Some(label)) => Ok((label@, false)),
            _ => chosen(chars::texts(names@), given(default_name), given(preferred)),
        }),
{
    if take_given(preferred).is_some() {
        if let Some(label) = known_label {
            return Ok(DeviceChoice { name: label, fell_back: false });
        }
    }
    choose_device(names, default_name, preferred)
}

/// The first `n` labels without those that came before.
pub open spec fn distinct_upto(labels: Seq<Seq<char>>, n: int) -> Seq<Seq<char>>
    decreases n,
{
    if n <= 0 {
        Seq::empty()
    } else {
        let before = distinct_upto(labels, n - 1);
        if before.contains(labels[n - 1]) {
            before
        } else {
            before.push(labels[n - 1])
        }
    }
}

/// Device labels in the order of the host, each once.
pub fn distinct_names(labels: &Vec<String>) -> (r: Vec<String>)
    ensures
        chars::texts(r@) == distinct_upto(chars::texts(labels@), labels@.len() as int),
{
    let ghost all = chars::texts(labels@);
    let mut out: Vec<String> = Vec::new();
    let mut i: usize = 0;
    assert(chars::texts(out@) =~= distinct_upto(all, 0));
    while i < labels.len()
        invariant
            i <= labels.len(),
            all == chars::texts(labels@),
            chars::texts(out@) == distinct_upto(all, i as int),
        decreases labels.len() - i,
    {
        if !lists_name(&out, labels[i].as_str()) {
            let ghost before = chars::texts(out@);
            out.push(labels[i].clone());
            assert(chars::texts(out@) =~= before.push(all[i as int]));
        }
        i += 1;
    }
    out
}

/// No label stands twice among the distinct ones, and each label is among them.
pub proof fn lemma_distinct(labels: Seq<Seq<char>>, n: int)
    requires
        0 <= n <= labels.len(),
    ensures
        distinct_upto(labels, n).no_duplicates(),
        forall|i: int| 0 <= i < n ==> distinct_upto(labels, n).contains(#[trigger] labels[i]),
    decreases n,
{
    if n > 0 {
        lemma_distinct(labels, n - 1);
        let before = distinct_upto(labels, n - 1);
        let after = distinct_upto(labels, n);
        assert forall|i: int| 0 <= i < n implies after.contains(#[trigger] labels[i]) by {
            if i < n - 1 {
                let k = choose|k: int| 0 <= k < before.len() && before[k] == labels[i];
                assert(after[k] == labels[i]);
            } else if !before.contains(labels[n - 1]) {
                assert(after[before.len() as int] == labels[i]);
            }
        }
    }
}

/// Whether a listed device is the one in use: the preferred one where one is
/// set, else the default.
pub fn is_selected(preferred: Option<&str>, matches_preferred: bool, is_default: bool) -> (r: bool)
    ensures
        r == (match text_of(preferred) {
            Some(p) => if p.len() > 0 {
                matches_preferred
            } else {
                is_default
            },
            None => is_default,
        }),
{
    match preferred {
        Some(p) => if p.is_empty() {
            is_default
        } else {
            matches_preferred
        },
        None => is_default,
    }
}

/// The pattern of infinity.
pub const INFINITE: u32 = 0x7F80_0000;

/// The lowest pattern with the sign bit.
pub const SIGN: u32 = 0x8000_0000;

/// The magnitude of a sample: its pattern without the sign bit; zero for what is
/// not a number.
pub open spec fn magnitude(sample: u32) -> u32 {
    let m = if sample >= SIGN {
        (sample - SIGN) as u32
    } else {
        sample
    };
    if m <= INFINITE {
        m
    } else {
        0
    }
}

fn magnitude_of(sample: u32) -> (r: u32)
    ensures
        r == magnitude(sample),
{
    let m: u32 = if sample >= SIGN {
        sample - SIGN
    } else {
        sample
    };
    if m <= INFINITE {
        m
    } else {
        0
    }
}

/// `m` is the largest magnitude from `from` up to `to`, and zero where there is
/// no sample.
pub open spec fn is_peak(samples: Seq<u32>, from: int, to: int, m: u32) -> bool {
    &&& forall|i: int| from <= i < to ==> magnitude(#[trigger] samples[i]) <= m
    &&& m == 0 || exists|i: int| from <= i < to && magnitude(#[trigger] samples[i]) == m
}

/// The peak of a range of samples.
pub fn peak_between(samples: &Vec<u32>, from: usize, to: usize) -> (r: u32)
    requires
        from <= to <= samples.len(),
    ensures
        is_peak(samples@, from as int, to as int, r),
{
    let mut peak: u32 = 0;
    let mut i: usize = from;
    while i < to
        invariant
            from <= i <= to <= samples.len(),
            is_peak(samples@, from as int, i as int, peak),
        decreases to - i,
    {
        let m = magnitude_of(samples[i]);
        if m > peak {
            peak = m;
            assert(magnitude(samples@[i as int]) == peak);
        }
        i += 1;
    }
    peak
}

/// The peak of all samples.
pub fn peak_level(samples: &Vec<u32>) -> (r: u32)
    ensures
        is_peak(samples@, 0, samples@.len() as int, r),
{
    peak_between(samples, 0, samples.len())
}

/// Vertical-bar count for the live waveform.
pub const WAVE_BINS: usize = 40;

/// Where bar `i` of `n` starts among `len` samples.
pub open spec fn bin_start(i: int, len: int, n: int) -> int {
    i * len / n
}

/// Where bar `i` of `n` ends: one sample at least.
pub open spec fn bin_end(i: int, len: int, n: int) -> int {
    let end = if bin_start(i + 1, len, n) > bin_start(i, len, n) {
        bin_start(i + 1, len, n)
    } else {
        bin_start(i, len, n) + 1
    };
    if end < len {
        end
    } else {
        len
    }
}

proof fn lemma_bin(i: int, len: int, n: int)
    requires
        0 <= i < n,
        0 < len,
    ensures
        0 <= bin_start(i, len, n) < bin_end(i, len, n) <= len,
        (i + 1) * len <= n * len,
        i * len <= (i + 1) * len,
{
    assert(0 <= i * len) by (nonlinear_arith)
        requires
            0 <= i,
            0 < len,
    ;
    assert(i * len < n * len) by (nonlinear_arith)
        requires
            i < n,
            0 < len,
    ;
    assert((i + 1) * len <= n * len) by (nonlinear_arith)
        requires
            i + 1 <= n,
            0 < len,
    ;
    assert(i * len <= (i + 1) * len) by (nonlinear_arith)
        requires
            0 < len,
    ;
    vstd::arithmetic::div_mod::lemma_div_pos_is_pos(i * len, n);
    assert(n * len == len * n) by (nonlinear_arith);
    vstd::arithmetic::div_mod::lemma_multiply_divide_lt(i * len, n, len);
}

/// The peak of each equal slice of `samples`, for the floating recording HUD.
pub fn peak_bins(samples: &Vec<u32>, n: usize) -> (r: Vec<u32>)
    requires
        n * samples@.len() <= usize::MAX,
    ensures
        r@.len() == n,
        forall|i: int| #![trigger r@[i]]
            0 <= i < n ==> if samples@.len() == 0 {
                r@[i] == 0
            } else {
                is_peak(
                    samples@,
                    bin_start(i, samples@.len() as int, n as int),
                    bin_end(i, samples@.len() as int, n as int),
                    r@[i],
                )
            },
{
    let len = samples.len();
    let mut out: Vec<u32> = Vec::new();
    let mut i: usize = 0;
    while i < n
        invariant
            i <= n,
            len == samples@.len(),
            n * samples@.len() <= usize::MAX,
            out@.len() == i,
            forall|k: int| #![trigger out@[k]]
                0 <= k < i ==> if len == 0 {
                    out@[k] == 0
                } else {
                    is_peak(
                        samples@,
                        bin_start(k, len as int, n as int),
                        bin_end(k, len as int, n as int),
                        out@[k],
                    )
                },
        decreases n - i,
    {
        if len == 0 {
            out.push(0);
        } else {
            proof {
                lemma_bin(i as int, len as int, n as int);
            }
            let start = i * len / n;
            let next = (i + 1) * len / n;
            let mut end = if next > start {
                next
            } else {
                start + 1
            };
            if end > len {
                end = len;
            }
            assert(end == bin_end(i as int, len as int, n as int));
            out.push(peak_between(samples, start, end));
        }
        i += 1;
    }
    out
}

/// The pattern of 0.01: a lower peak is treated as silence.
pub const SILENCE_PEAK: u32 = 0x3C23_D70A;

/// Shorter than this many milliseconds is a tap or an empty buffer, not speech.
pub const MIN_SPEECH_MS: u32 = 250;

#[derive(Debug, Clone, Copy, PartialEq, Eq, Structural)]
pub enum BlankAudio {
    Empty,
    TooShort,
    Silence,
}

impl BlankAudio {
    /// What the user is told.
    pub open spec fn words(self) -> Seq<char> {
        match self {
            BlankAudio::Empty => "captured no audio — check the microphone"@,
            BlankAudio::TooShort =>
                "clip too short to transcribe — hold the talk key and speak"@,
            BlankAudio::Silence => "only silence — nothing to transcribe"@,
        }
    }

    pub fn message(self) -> (r: &'static str)
        ensures
            r@ == self.words(),
    {
        match self {
            BlankAudio::Empty => "captured no audio — check the microphone",
            BlankAudio::TooShort => "clip too short to transcribe — hold the talk key and speak",
            BlankAudio::Silence => "only silence — nothing to transcribe",
        }
    }
}

/// Whether no sample is as loud as the silence limit.
pub open spec fn is_silent(samples: Seq<u32>) -> bool {
    forall|i: int| 0 <= i < samples.len() ==> magnitude(#[trigger] samples[i]) < SILENCE_PEAK
}

/// What is wrong with a clip, if anything.
pub open spec fn blank(samples: Seq<u32>, sample_rate: u32) -> Option<BlankAudio> {
    if samples.len() == 0 || sample_rate == 0 {
        Some(BlankAudio::Empty)
    } else if samples.len() * 1000 < MIN_SPEECH_MS * sample_rate {
        Some(BlankAudio::TooShort)
    } else if is_silent(samples) {
        Some(BlankAudio::Silence)
    } else {
        None
    }
}

/// Rejects empty, sub-quarter-second or silent clips before any transcription.
pub fn blank_audio(samples: &Vec<u32>, sample_rate: u32) -> (r: Option<BlankAudio>)
    ensures
        r == blank(samples@, sample_rate),
{
    if samples.len() == 0 || sample_rate == 0 {
        return Some(BlankAudio::Empty);
    }
    assert(MIN_SPEECH_MS * sample_rate == 250 * sample_rate);
    if (samples.len() as u128) * 1000 < (MIN_SPEECH_MS as u128) * (sample_rate as u128) {
        return Some(BlankAudio::TooShort);
    }
    let peak = peak_level(samples);
    if peak < SILENCE_PEAK {
        return Some(BlankAudio::Silence);
    }
    assert(!is_silent(samples@));
    None
}

/// The messages of a clip that holds no speech, in any case.
pub open spec fn says_blank(msg: Seq<char>) -> bool {
    let m = chars::lower(msg);
    words::contains(m, "nothing to transcribe"@) || words::contains(m, "too short to transcribe"@)
        || words::contains(m, "captured no audio"@) || words::contains(m, "only silence"@)
}

pub fn is_blank_audio_error(msg: &str) -> (r: bool)
    ensures
        r == says_blank(msg@),
{
    let m = lowered(msg);
    let m = m.as_str();
    has_text(m, "nothing to transcribe") || has_text(m, "too short to transcribe") || has_text(
        m,
        "captured no audio",
    ) || has_text(m, "only silence")
}

/// Every message of a blank clip is recognised as one.
pub proof fn lemma_blank_messages(b: BlankAudio)
    ensures
        says_blank(b.words()),
{
    reveal_strlit("captured no audio — check the microphone");
    reveal_strlit("clip too short to transcribe — hold the talk key and speak");
    reveal_strlit("only silence — nothing to transcribe");
    reveal_strlit("captured no audio");
    reveal_strlit("too short to transcribe");
    reveal_strlit("only silence");
    let m = chars::lower(b.words());
    match b {
        BlankAudio::Empty => {
            assert(m.subrange(0, 17) =~= "captured no audio"@);
            assert(words::occurs_at(m, "captured no audio"@, 0));
        },
        BlankAudio::TooShort => {
            assert(m.subrange(5, 28) =~= "too short to transcribe"@);
            assert(words::occurs_at(m, "too short to transcribe"@, 5));
        },
        BlankAudio::Silence => {
            assert(m.subrange(0, 12) =~= "only silence"@);
            assert(words::occurs_at(m, "only silence"@, 0));
        },
    }
}

} // verus!
