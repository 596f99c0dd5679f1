//! Speech gate and edge trim over a finished buffer at 16 kHz.
//!
//! Decides whether a finished take holds speech, and which part of it is
//! transcribed. Playback always uses the whole recording. Where the speech
//! detector is missing, the peak gate decides alone. A sample is held by the bit
//! pattern of its single-precision value.

use crate::devices;
use crate::devices::{blank_audio, BlankAudio};
use crate::single;
use crate::single::times_count;
use vstd::prelude::*;

verus! {

/// File name of the detector below the data directory.
pub const MODEL_FILENAME: &'static str = "silero_vad.onnx";

/// Where the detector is downloaded.
pub const MODEL_URL: &'static str =
    "https://github.com/k2-fsa/sherpa-onnx/releases/download/asr-models/silero_vad.onnx";

/// Speech probability that counts as speech, in thousandths.
pub const THRESHOLD_MILLI: u32 = 500;

/// Shortest speech that counts as a segment, in milliseconds.
pub const MIN_SPEECH_MS: u32 = 250;

/// Shortest silence between two segments, in milliseconds.
pub const MIN_SILENCE_MS: u32 = 300;

/// What is kept around the first and last speech edge: the pattern of 0.15 seconds.
pub const EDGE_PAD_SECS: u32 = 0x3E19_999A;

/// Samples per detector window.
pub const WINDOW_SIZE: i32 = 512;

/// The detector's file below the data directory.
pub fn model_path() -> (r: &'static str)
    ensures
        r@ == MODEL_FILENAME@,
{
    MODEL_FILENAME
}

/// The span of a detected segment.
pub open spec fn span_of(start: i32, n: i32) -> (int, int) {
    let a = if start < 0 {
        0
    } else {
        start as int
    };
    let len = if n < 0 {
        0
    } else {
        n as int
    };
    (
        a,
        if a + len > usize::MAX {
            usize::MAX as int
        } else {
            a + len
        },
    )
}

/// The span of a segment that the detector reports by its start and length.
pub fn segment_span(start: i32, n: i32) -> (r: (usize, usize))
    ensures
        (r.0 as int, r.1 as int) == span_of(start, n),
{
    let a: usize = if start < 0 {
        0
    } else {
        start as usize
    };
    let len: usize = if n < 0 {
        0
    } else {
        n as usize
    };
    (a, a.saturating_add(len))
}

/// `m` is the smallest start.
pub open spec fn is_first(segments: Seq<(usize, usize)>, m: usize) -> bool {
    &&& forall|i: int| 0 <= i < segments.len() ==> m <= (#[trigger] segments[i]).0
    &&& exists|i: int| 0 <= i < segments.len() && (#[trigger] segments[i]).0 == m
}

/// `m` is the largest end.
pub open spec fn is_last(segments: Seq<(usize, usize)>, m: usize) -> bool {
    &&& forall|i: int| 0 <= i < segments.len() ==> (#[trigger] segments[i]).1 <= m
    &&& exists|i: int| 0 <= i < segments.len() && (#[trigger] segments[i]).1 == m
}

/// The smallest start of some segments.
pub open spec fn first_start(segments: Seq<(usize, usize)>) -> usize {
    choose|m: usize| is_first(segments, m)
}

/// The largest end of some segments.
pub open spec fn last_end(segments: Seq<(usize, usize)>) -> usize {
    choose|m: usize| is_last(segments, m)
}

/// From the first speech start less the padding up to the last speech end and
/// the padding, inside the buffer. None where there is no speech in it. The padding
/// is a number of seconds, by its pattern.
pub open spec fn trimmed_range(
    segments: Seq<(usize, usize)>,
    total_len: int,
    sample_rate: u32,
    pad_secs: u32,
) -> Option<(int, int)> {
    let first = first_start(segments) as int;
    let last = last_end(segments) as int;
    let pad = single::count_of(pad_secs, sample_rate);
    if segments.len() == 0 || total_len == 0 || sample_rate == 0 || first >= total_len || last == 0
        || first >= last {
        None
    } else {
        Some(
            (
                if first < pad {
                    0
                } else {
                    first - pad
                },
                if last + pad > total_len {
                    total_len
                } else {
                    last + pad
                },
            ),
        )
    }
}

fn find_ends(segments: &Vec<(usize, usize)>) -> (r: (usize, usize))
    requires
        segments@.len() > 0,
    ensures
        r.0 == first_start(segments@),
        r.1 == last_end(segments@),
{
    let mut first: usize = segments[0].0;
    let mut last: usize = segments[0].1;
    let ghost mut fi: int = 0;
    let ghost mut li: int = 0;
    let mut i: usize = 1;
    while i < segments.len()
        invariant
            1 <= i <= segments.len(),
            0 <= fi < i,
            0 <= li < i,
            segments@[fi].0 == first,
            segments@[li].1 == last,
            forall|k: int| 0 <= k < i ==> first <= (#[trigger] segments@[k]).0,
            forall|k: int| 0 <= k < i ==> (#[trigger] segments@[k]).1 <= last,
        decreases segments.len() - i,
    {
        let (a, b) = segments[i];
        if a < first {
            first = a;
            proof {
                fi = i as int;
            }
        }
        if b > last {
            last = b;
            proof {
                li = i as int;
            }
        }
        i += 1;
    }
    proof {
        assert(is_first(segments@, first));
        assert(is_last(segments@, last));
        let m = first_start(segments@);
        assert(is_first(segments@, m));
        assert(first <= m && m <= first);
        let n = last_end(segments@);
        assert(is_last(segments@, n));
        assert(last <= n && n <= last);
    }
    (first, last)
}

/// The range to transcribe. Pauses inside it stay: it spans the islands of
/// speech and never stitches them.
pub fn trim_range(
    segments: &Vec<(usize, usize)>,
    total_len: usize,
    sample_rate: u32,
    pad_secs: u32,
) -> (r: Option<(usize, usize)>)
    ensures
        (match r {
            Some((a, b)) => Some((a as int, b as int)),
            None => None,
        }) == trimmed_range(segments@, total_len as int, sample_rate, pad_secs),
{
    if segments.len() == 0 || total_len == 0 || sample_rate == 0 {
        return None;
    }
    let pad = times_count(pad_secs, sample_rate);
    let (first, last) = find_ends(segments);
    if first >= total_len || last == 0 || first >= last {
        return None;
    }
    let start = first.saturating_sub(pad);
    let end = last.saturating_add(pad);
    Some(
        (
            start,
            if end > total_len {
                total_len
            } else {
                end
            },
        ),
    )
}

/// The range holds every island of speech, as far as it lies in the buffer, and
/// never leaves the buffer.
pub proof fn lemma_range_holds_speech(
    segments: Seq<(usize, usize)>,
    total_len: int,
    sample_rate: u32,
    pad_secs: u32,
    i: int,
)
    requires
        0 <= i < segments.len(),
        0 <= total_len <= usize::MAX,
    ensures
        trimmed_range(segments, total_len, sample_rate, pad_secs) matches Some((a, b)) ==> 0 <= a < b
            <= total_len && a <= segments[i].0 && (segments[i].1 <= b || b == total_len),
{
    lemma_ends_exist(segments, segments.len() as int);
    let first = first_start(segments);
    let last = last_end(segments);
    assert(is_first(segments, first));
    assert(is_last(segments, last));
    assert(first <= segments[i].0 && segments[i].1 <= last);
}

proof fn lemma_ends_exist(segments: Seq<(usize, usize)>, n: int)
    requires
        0 < n <= segments.len(),
    ensures
        exists|m: usize| is_first(segments.take(n), m),
        exists|m: usize| is_last(segments.take(n), m),
        n == segments.len() ==> segments.take(n) == segments,
    decreases n,
{
    assert(n == segments.len() ==> segments.take(n) =~= segments);
    let all = segments.take(n);
    if n == 1 {
        assert(all[0] == segments[0]);
        assert(is_first(all, segments[0].0));
        assert(is_last(all, segments[0].1));
    } else {
        lemma_ends_exist(segments, n - 1);
        let rest = segments.take(n - 1);
        let f = choose|m: usize| is_first(rest, m);
        let l = choose|m: usize| is_last(rest, m);
        let s = segments[n - 1];
        assert(all[n - 1] == s);
        let fi = choose|i: int| 0 <= i < rest.len() && (#[trigger] rest[i]).0 == f;
        let li = choose|i: int| 0 <= i < rest.len() && (#[trigger] rest[i]).1 == l;
        assert(all[fi] == rest[fi]);
        assert(all[li] == rest[li]);
        let nf = if s.0 < f {
            s.0
        } else {
            f
        };
        let nl = if s.1 > l {
            s.1
        } else {
            l
        };
        assert forall|i: int| 0 <= i < all.len() implies nf <= (#[trigger] all[i]).0 && all[i].1
            <= nl by {
            if i < n - 1 {
                assert(all[i] == rest[i]);
            }
        }
        assert(is_first(all, nf));
        assert(is_last(all, nl));
    }
}

/// What is transcribed of a take whose speech segments are known.
pub open spec fn gated(
    samples: Seq<u32>,
    sample_rate: u32,
    segments: Seq<(usize, usize)>,
) -> Result<Seq<u32>, BlankAudio> {
    let why = devices::blank(samples, sample_rate);
    if why is Some && why->0 != BlankAudio::Silence {
        Err(why->0)
    } else if segments.len() == 0 {
        Err(BlankAudio::Silence)
    } else {
        match trimmed_range(segments, samples.len() as int, sample_rate, EDGE_PAD_SECS) {
            Some((a, b)) => if b > a {
                Ok(samples.subrange(a, b))
            } else {
                Err(BlankAudio::Silence)
            },
            None => Err(BlankAudio::Silence),
        }
    }
}

/// What `r` says, over sequences.
pub open spec fn clip_of(r: Result<Vec<u32>, BlankAudio>) -> Result<Seq<u32>, BlankAudio> {
    match r {
        Ok(v) => Ok(v@),
        Err(e) => Err(e),
    }
}

fn copy_range(samples: &Vec<u32>, from: usize, to: usize) -> (r: Vec<u32>)
    requires
        from <= to <= samples@.len(),
    ensures
        r@ == samples@.subrange(from as int, to as int),
{
    let mut out: Vec<u32> = Vec::new();
    let mut i: usize = from;
    while i < to
        invariant
            from <= i <= to <= samples@.len(),
            out@ == samples@.subrange(from as int, i as int),
        decreases to - i,
    {
        out.push(samples[i]);
        i += 1;
    }
    out
}

/// Gates and trims a take whose speech segments are known. An empty or short
/// buffer is reported as such; a loud buffer without speech is silence.
pub fn gate_with_segments(
    samples_16k: &Vec<u32>,
    sample_rate: u32,
    segments: &Vec<(usize, usize)>,
) -> (r: Result<Vec<u32>, BlankAudio>)
    ensures
        clip_of(r) == gated(samples_16k@, sample_rate, segments@),
{
    if let Some(why) = blank_audio(samples_16k, sample_rate) {
        if why != BlankAudio::Silence {
            return Err(why);
        }
    }
    if segments.len() == 0 {
        return Err(BlankAudio::Silence);
    }
    match trim_range(segments, samples_16k.len(), sample_rate, EDGE_PAD_SECS) {
        Some((start, end)) => if end > start {
            Ok(copy_range(samples_16k, start, end))
        } else {
            Err(BlankAudio::Silence)
        },
        None => Err(BlankAudio::Silence),
    }
}

/// Speech segments as the detector gave them, over sequences.
pub open spec fn spans_of(segments: Option<Vec<(usize, usize)>>) -> Option<Seq<(usize, usize)>> {
    match segments {
        Some(s) => Some(s@),
        None => None,
    }
}

/// What is transcribed of a take: without a detector the peak gate decides
/// alone.
pub open spec fn let_through(
    samples: Seq<u32>,
    sample_rate: u32,
    segments: Option<Seq<(usize, usize)>>,
) -> Result<Seq<u32>, BlankAudio> {
    match segments {
        Some(s) => gated(samples, sample_rate, s),
        None => match devices::blank(samples, sample_rate) {
            Some(why) => Err(why),
            None => Ok(samples),
        },
    }
}

/// The full gate. `segments` is what the detector found, or `None` where there
/// is no detector: then the peak gate decides alone.
pub fn gate_and_trim(
    samples_16k: &Vec<u32>,
    sample_rate: u32,
    segments: Option<Vec<(usize, usize)>>,
) -> (r: Result<Vec<u32>, BlankAudio>)
    ensures
        clip_of(r) == let_through(samples_16k@, sample_rate, spans_of(segments)),
{
    match segments {
        Some(s) => gate_with_segments(samples_16k, sample_rate, &s),
        None => match blank_audio(samples_16k, sample_rate) {
            Some(why) => Err(why),
            None => {
                let all = copy_range(samples_16k, 0, samples_16k.len());
                assert(samples_16k@.subrange(0, samples_16k@.len() as int) =~= samples_16k@);
                Ok(all)
            },
        },
    }
}

/// A take without speech segments is never let through by the detector, however loud
/// it is.
pub proof fn lemma_no_speech_no_clip(samples: Seq<u32>, sample_rate: u32)
    ensures
        gated(samples, sample_rate, Seq::empty()) is Err,
{
}

} // verus!
