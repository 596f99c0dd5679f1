//! Samples, devices and detected speech.

use crate::devices;
use crate::devices::DeviceChoice;
use crate::single;
use crate::vad;
use vstd::arithmetic::power2::*;
use vstd::prelude::*;

verus! {

proof fn lemma_spacing_divides(m: nat, j: nat) -> (c: nat)
    requires
        m < 0x100_0000,
    ensures
        pow2(j) == c * single::spacing(m * pow2(j)),
        single::spacing(m * pow2(j)) >= 1,
    decreases j,
{
    lemma_pow2_pos(j);
    let n = m * pow2(j);
    if n < 0x100_0000 {
        assert(single::spacing(n) == 1);
        assert(pow2(j) * 1 == pow2(j));
        pow2(j)
    } else {
        if j == 0 {
            lemma2_to64();
            assert(m * 1 == m);
        }
        lemma_pow2_unfold(j);
        let h = pow2((j - 1) as nat);
        let c = lemma_spacing_divides(m, (j - 1) as nat);
        assert(m * (2 * h) == 2 * (m * h)) by (nonlinear_arith);
        assert(n / 2 == m * h);
        let u = single::spacing(m * h);
        assert(single::spacing(n) == 2 * u);
        assert(h == c * u);
        assert(2 * (c * u) == c * (2 * u)) by (nonlinear_arith);
        assert(pow2(j) == c * single::spacing(n));
        c
    }
}

/// A number with 24 significant bits at most is one of single precision.
pub proof fn lemma_exact(m: nat, j: nat)
    requires
        m < 0x100_0000,
    ensures
        single::nearest(m * pow2(j)) == m * pow2(j),
{
    let n = m * pow2(j);
    let c = lemma_spacing_divides(m, j);
    let u = single::spacing(n);
    let q = m * c;
    assert(n == q * u) by (nonlinear_arith)
        requires
            n == m * pow2(j),
            pow2(j) == c * u,
            q == m * c,
    ;
    vstd::arithmetic::div_mod::lemma_fundamental_div_mod_converse(n as int, u as int, q as int, 0);
}

/// One, a half and a quarter times a rate are the rate, its half and its quarter,
/// rounded down.
pub proof fn lemma_fractions(n: u32)
    requires
        n < 0x100_0000,
    ensures
        single::count_of(0x3F80_0000, n) == n,
        single::count_of(0x3F00_0000, n) == n / 2,
        single::count_of(0x3E80_0000, n) == n / 4,
{
    lemma2_to64();
    lemma_exact(n as nat, 0);
    lemma_exact(n as nat, 23);
    assert(n as nat * pow2(0) == n);
    let s = 0x80_0000nat;
    assert(pow2(23) == s);
    let p = s * n as nat;
    assert(p == n as nat * pow2(23)) by (nonlinear_arith)
        requires
            p == s * n as nat,
            pow2(23) == s,
    ;
    assert(single::significand(0x3F80_0000) == s && single::exponent(0x3F80_0000) == -23);
    assert(single::significand(0x3F00_0000) == s && single::exponent(0x3F00_0000) == -24);
    assert(single::significand(0x3E80_0000) == s && single::exponent(0x3E80_0000) == -25);
    assert(single::nearest(n as nat) == n);
    assert(single::nearest(s * n as nat) == p);
    assert(pow2(24) == 0x100_0000 && pow2(25) == 0x200_0000);
    assert(single::whole_product(0x3F80_0000, n) == p / 0x80_0000);
    assert(single::whole_product(0x3F00_0000, n) == p / 0x100_0000);
    assert(single::whole_product(0x3E80_0000, n) == p / 0x200_0000);
}

/// What is not above zero, or not a number, counts nothing; so does no rate.
pub proof fn lemma_no_count(pattern: u32, n: u32)
    ensures
        pattern == 0 || pattern >= 0x8000_0000 ==> single::count_of(pattern, n) == 0,
        0x7F80_0000 < pattern ==> single::count_of(pattern, n) == 0,
        single::count_of(pattern, 0) == 0,
        pattern == 0x7F80_0000 && n > 0 ==> single::count_of(pattern, n) == usize::MAX,
{
}

/// The padding around speech is the number nearest to 0.15 seconds: no other fraction
/// of its precision is nearer.
pub proof fn lemma_padding()
    ensures
        ({
            let s = single::significand(vad::EDGE_PAD_SECS) as int;
            &&& single::exponent(vad::EDGE_PAD_SECS) == -26
            &&& 2 * (100 * s - 15 * 0x400_0000) <= 100
            &&& 2 * (15 * 0x400_0000 - 100 * s) <= 100
        }),
{
}

/// The labels of devices come in the order of the host, each where it stands first.
pub proof fn lemma_labels(labels: Seq<Seq<char>>, label: Seq<char>)
    ensures
        ({
            let n = labels.len() as int;
            let seen = devices::distinct_upto(labels, n);
            let more = devices::distinct_upto(labels.push(label), n + 1);
            &&& labels.contains(label) ==> more == seen
            &&& !labels.contains(label) ==> more == seen.push(label)
        }),
        devices::distinct_upto(Seq::<Seq<char>>::empty(), 0).len() == 0,
{
    let n = labels.len() as int;
    lemma_same_labels(labels, labels.push(label), n);
    devices::lemma_distinct(labels, n);
    lemma_labels_are_given(labels, n);
    let seen = devices::distinct_upto(labels, n);
    if labels.contains(label) {
        let i = choose|i: int| 0 <= i < labels.len() && labels[i] == label;
        assert(seen.contains(labels[i]));
    } else if seen.contains(label) {
        let k = choose|k: int| 0 <= k < seen.len() && seen[k] == label;
        assert(labels.contains(seen[k]));
    }
}

proof fn lemma_same_labels(a: Seq<Seq<char>>, b: Seq<Seq<char>>, n: int)
    requires
        0 <= n <= a.len(),
        n <= b.len(),
        forall|k: int| 0 <= k < n ==> a[k] == b[k],
    ensures
        devices::distinct_upto(a, n) == devices::distinct_upto(b, n),
    decreases n,
{
    if n > 0 {
        lemma_same_labels(a, b, n - 1);
        assert(a[n - 1] == b[n - 1]);
    }
}

proof fn lemma_labels_are_given(labels: Seq<Seq<char>>, n: int)
    requires
        0 <= n <= labels.len(),
    ensures
        forall|k: int|
            0 <= k < devices::distinct_upto(labels, n).len() ==> labels.contains(
                #[trigger] devices::distinct_upto(labels, n)[k],
            ),
    decreases n,
{
    if n > 0 {
        lemma_labels_are_given(labels, n - 1);
        let before = devices::distinct_upto(labels, n - 1);
        let after = devices::distinct_upto(labels, n);
        assert(labels.contains(labels[n - 1]));
        assert forall|k: int| 0 <= k < after.len() implies labels.contains(#[trigger] after[k]) by {
            if k < before.len() {
                assert(after[k] == before[k]);
            }
        }
    }
}

/// The peak of a clip is as loud as its loudest sample.
pub proof fn lemma_peak(samples: &Vec<u32>, i: int, r: u32)
    requires
        call_ensures(crate::devices::peak_level, (samples,), r),
        0 <= i < samples@.len(),
    ensures
        samples@[i] <= 0x7F80_0000 ==> r >= samples@[i],
        0x8000_0000 <= samples@[i] <= 0xFF80_0000 ==> r >= samples@[i] - 0x8000_0000,
        r > 0 ==> exists|k: int|
            0 <= k < samples@.len() && devices::magnitude(#[trigger] samples@[k]) == r,
{
    assert(devices::is_peak(samples@, 0, samples@.len() as int, r));
    assert(devices::magnitude(samples@[i]) <= r);
}

/// The bars of the waveform share out the samples: the first starts with the first,
/// each starts where the one before it ends, and the last ends with the last.
pub proof fn lemma_bars(i: int, len: int, n: int)
    requires
        0 <= i < n,
        n <= len,
    ensures
        devices::bin_start(0, len, n) == 0,
        devices::bin_end(n - 1, len, n) == len,
        i + 1 < n ==> devices::bin_end(i, len, n) == devices::bin_start(i + 1, len, n),
        devices::bin_start(i, len, n) * n <= i * len,
        i * len < (devices::bin_start(i, len, n) + 1) * n,
{
    let a = i * len;
    let b = (i + 1) * len;
    assert(b == a + len) by (nonlinear_arith)
        requires
            a == i * len,
            b == (i + 1) * len,
    ;
    vstd::arithmetic::div_mod::lemma_fundamental_div_mod(a, n);
    vstd::arithmetic::div_mod::lemma_fundamental_div_mod(b, n);
    assert((a / n) * n == n * (a / n)) by (nonlinear_arith);
    assert((a / n + 1) * n == n * (a / n) + n) by (nonlinear_arith);
    assert((b / n) * n == n * (b / n)) by (nonlinear_arith);
    assert(b / n > a / n) by (nonlinear_arith)
        requires
            b == n * (b / n) + b % n,
            a == n * (a / n) + a % n,
            b >= a + n,
            0 <= a % n < n,
            0 <= b % n < n,
            n > 0,
    ;
    assert(0int * len == 0);
    assert(0int / n == 0) by (nonlinear_arith)
        requires
            n > 0,
    ;
    vstd::arithmetic::div_mod::lemma_div_multiples_vanish(len, n);
    assert(n * len / n == len);
    assert((n - 1) * len / n < len) by {
        let c = (n - 1) * len;
        assert(c == n * len - len) by (nonlinear_arith)
            requires
                c == (n - 1) * len,
        ;
        vstd::arithmetic::div_mod::lemma_fundamental_div_mod(c, n);
        assert(c / n < len) by (nonlinear_arith)
            requires
                c == n * (c / n) + c % n,
                c < n * len,
                0 <= c % n,
                n > 0,
        ;
    }
    if i + 1 < n {
        assert(b < n * len) by (nonlinear_arith)
            requires
                b == (i + 1) * len,
                i + 1 < n,
                len > 0,
        ;
        assert(b / n < len) by (nonlinear_arith)
            requires
                b == n * (b / n) + b % n,
                b < n * len,
                0 <= b % n,
                n > 0,
        ;
    }
}

/// The live waveform has a bar for each slice of the samples, as loud as the slice.
pub proof fn lemma_waveform(samples: &Vec<u32>, n: usize, i: int, k: int, r: Vec<u32>)
    requires
        call_ensures(crate::devices::peak_bins, (samples, n), r),
        0 <= i < n,
        samples@.len() > 0,
        devices::bin_start(i, samples@.len() as int, n as int) <= k < devices::bin_end(
            i,
            samples@.len() as int,
            n as int,
        ),
        0 <= k < samples@.len(),
    ensures
        r@.len() == n,
        devices::magnitude(samples@[k]) <= r@[i],
        devices::WAVE_BINS == 40,
{
    assert(devices::is_peak(
        samples@,
        devices::bin_start(i, samples@.len() as int, n as int),
        devices::bin_end(i, samples@.len() as int, n as int),
        r@[i],
    ));
}

/// A device that the host knows under the preferred name is taken under its label.
pub proof fn lemma_known_device(
    names: &Vec<String>,
    default_name: Option<&str>,
    p: &str,
    label: String,
    r: Result<DeviceChoice, String>,
)
    requires
        call_ensures(
            crate::devices::resolve_capture_device,
            (names, default_name, Some(p), Some(label)),
            r,
        ),
        devices::given(Some(p)) is Some,
    ensures
        r matches Ok(c) && c.name@ == label@ && !c.fell_back,
{
}

/// The device in use is the preferred one where one is set.
pub proof fn lemma_device_in_use(p: &str, matches_preferred: bool, is_default: bool, r: bool)
    requires
        call_ensures(crate::devices::is_selected, (Some(p), matches_preferred, is_default), r),
    ensures
        p@.len() > 0 ==> r == matches_preferred,
        p@.len() == 0 ==> r == is_default,
{
}

/// How the detector tells speech from noise: speech is likelier than not, lasts a
/// quarter of a second, and ends with three tenths of a second of silence.
pub proof fn lemma_detector()
    ensures
        2 * vad::THRESHOLD_MILLI == 1000,
        4 * vad::MIN_SPEECH_MS == 1000,
        10 * vad::MIN_SILENCE_MS == 3 * 1000,
        vad::WINDOW_SIZE == 512,
{
}

} // verus!
