//! Local usage ledger. Survives a cleared history.
//!
//! Lifetime counters and one bucket per local calendar day. Audio time is
//! counted in nanoseconds.

use crate::calendar;
use crate::chars::str_eq;
use crate::words;
use crate::words::str_le;
use chrono::TimeZone;
use vstd::prelude::*;
use vstd::string::*;

verus! {

/// What was dictated on one day.
#[derive(Debug, Clone, Copy, PartialEq, Eq, Structural)]
pub struct DayBucket {
    pub dictations: u64,
    pub words: u64,
    pub audio_ns: u64,
    pub raw_words: u64,
    pub dict_hits: u64,
}

/// One take.
#[derive(Debug, Clone, Copy, PartialEq, Eq, Structural)]
pub struct Take {
    pub words: u64,
    pub audio_ns: u64,
    pub raw_words: u64,
    pub dict_hits: u64,
}

/// The ledger. The days stand in order, each once.
#[derive(Debug)]
pub struct UsageStats {
    pub lifetime_dictations: u64,
    pub lifetime_words: u64,
    pub lifetime_audio_ns: u64,
    pub lifetime_raw_words: u64,
    pub lifetime_dict_hits: u64,
    pub by_day: Vec<(String, DayBucket)>,
}

/// No take at all.
pub open spec fn no_takes() -> DayBucket {
    DayBucket { dictations: 0, words: 0, audio_ns: 0, raw_words: 0, dict_hits: 0 }
}

/// A bucket with one more take.
pub open spec fn with_take(b: DayBucket, t: Take) -> DayBucket {
    DayBucket {
        dictations: (b.dictations + 1) as u64,
        words: (b.words + t.words) as u64,
        audio_ns: (b.audio_ns + t.audio_ns) as u64,
        raw_words: (b.raw_words + t.raw_words) as u64,
        dict_hits: (b.dict_hits + t.dict_hits) as u64,
    }
}

/// Whether the counters of a bucket can take one more take.
pub open spec fn bucket_has_room(b: DayBucket, t: Take) -> bool {
    &&& b.dictations < u64::MAX
    &&& b.words + t.words <= u64::MAX
    &&& b.audio_ns + t.audio_ns <= u64::MAX
    &&& b.raw_words + t.raw_words <= u64::MAX
    &&& b.dict_hits + t.dict_hits <= u64::MAX
}

/// The days of a ledger.
pub open spec fn days(v: Seq<(String, DayBucket)>) -> Map<Seq<char>, DayBucket> {
    Map::new(
        |k: Seq<char>| exists|i: int| 0 <= i < v.len() && #[trigger] v[i].0@ == k,
        |k: Seq<char>| v[choose|i: int| 0 <= i < v.len() && #[trigger] v[i].0@ == k].1,
    )
}

/// Days in order, each once.
pub open spec fn in_order(v: Seq<(String, DayBucket)>) -> bool {
    forall|i: int, j: int| #![trigger v[i], v[j]]
        0 <= i < j < v.len() ==> words::text_le(v[i].0@, v[j].0@) && v[i].0@ != v[j].0@
}

impl UsageStats {
    /// The lifetime counters, as a bucket.
    pub open spec fn lifetime(self) -> DayBucket {
        DayBucket {
            dictations: self.lifetime_dictations,
            words: self.lifetime_words,
            audio_ns: self.lifetime_audio_ns,
            raw_words: self.lifetime_raw_words,
            dict_hits: self.lifetime_dict_hits,
        }
    }

    pub open spec fn wf(self) -> bool {
        in_order(self.by_day@)
    }

    /// Whether every counter can take one more take.
    pub open spec fn has_room(self, t: Take) -> bool {
        &&& bucket_has_room(self.lifetime(), t)
        &&& forall|i: int| 0 <= i < self.by_day@.len() ==> bucket_has_room(
            (#[trigger] self.by_day@[i]).1,
            t,
        )
    }

    /// Whether the counters that a take on the day `key` moves can take it.
    pub open spec fn has_room_on(self, key: Option<Seq<char>>, t: Take) -> bool {
        &&& bucket_has_room(self.lifetime(), t)
        &&& key matches Some(k) ==> bucket_has_room(bucket_of(self.by_day@, k), t)
    }

    /// An empty ledger.
    pub fn new() -> (r: Self)
        ensures
            r.wf(),
            r.lifetime() == no_takes(),
            r.by_day@.len() == 0,
            is_consistent(r),
    {
        let r = UsageStats {
            lifetime_dictations: 0,
            lifetime_words: 0,
            lifetime_audio_ns: 0,
            lifetime_raw_words: 0,
            lifetime_dict_hits: 0,
            by_day: Vec::new(),
        };
        proof {
            lemma_empty_is_consistent(r);
        }
        r
    }

    pub fn is_empty(&self) -> (r: bool)
        ensures
            r == (self.lifetime_dictations == 0 && self.by_day@.len() == 0),
    {
        self.lifetime_dictations == 0 && self.by_day.len() == 0
    }

    /// The bucket of a day.
    pub fn day(&self, key: &str) -> (r: Option<DayBucket>)
        requires
            self.wf(),
        ensures
            r == (if days(self.by_day@).contains_key(key@) {
                Some(days(self.by_day@)[key@])
            } else {
                None
            }),
    {
        let mut i: usize = 0;
        while i < self.by_day.len()
            invariant
                i <= self.by_day.len(),
                self.wf(),
                forall|k: int| 0 <= k < i ==> (#[trigger] self.by_day@[k]).0@ != key@,
            decreases self.by_day.len() - i,
        {
            if str_eq(self.by_day[i].0.as_str(), key) {
                proof {
                    lemma_day(self.by_day@, i as int);
                }
                return Some(self.by_day[i].1);
            }
            i += 1;
        }
        None
    }

    /// Counts a take: the lifetime counters, and the bucket of `key` where the
    /// day is known.
    pub fn record_on(&mut self, key: Option<String>, take: Take)
        requires
            old(self).wf(),
            old(self).has_room_on(key_text(key), take),
        ensures
            final(self).wf(),
            counted(*old(self), *final(self), key_text(key), take),
            is_consistent(*old(self)) ==> is_consistent(*final(self)),
    {
        let ghost start = *self;
        let ghost on = key_text(key);
        self.lifetime_dictations = self.lifetime_dictations + 1;
        self.lifetime_words = self.lifetime_words + take.words;
        self.lifetime_audio_ns = self.lifetime_audio_ns + take.audio_ns;
        self.lifetime_raw_words = self.lifetime_raw_words + take.raw_words;
        self.lifetime_dict_hits = self.lifetime_dict_hits + take.dict_hits;
        if let Some(k) = key {
            let ghost before = self.by_day@;
            let mut i: usize = 0;
            while i < self.by_day.len() && !str_le(k.as_str(), self.by_day[i].0.as_str())
                invariant
                    i <= self.by_day.len(),
                    self.by_day@ == before,
                    forall|j: int| 0 <= j < i ==> !words::text_le(
                        k@,
                        (#[trigger] before[j]).0@,
                    ),
                decreases self.by_day.len() - i,
            {
                i += 1;
            }
            if i < self.by_day.len() && str_eq(self.by_day[i].0.as_str(), k.as_str()) {
                proof {
                    lemma_day(before, i as int);
                }
                let b = self.by_day[i].1;
                let name = self.by_day[i].0.clone();
                let b = add_take(b, take);
                proof {
                    lemma_day_updated(before, i as int, name, b);
                }
                self.by_day.set(i, (name, b));
            } else {
                let b = add_take(
                    DayBucket { dictations: 0, words: 0, audio_ns: 0, raw_words: 0, dict_hits: 0 },
                    take,
                );
                proof {
                    lemma_day_inserted(before, i as int, k, b);
                }
                self.by_day.insert(i, (k, b));
            }
        }
        proof {
            if is_consistent(start) {
                lemma_counted_is_consistent(start, *self, on, take);
            }
        }
    }

    /// Counts a take on the local day of a time stamp. Without a time stamp only
    /// the lifetime counters move.
    pub fn record(&mut self, unix: u64, take: Take)
        requires
            old(self).wf(),
            old(self).has_room(take),
        ensures
            final(self).wf(),
            exists|key: Option<Seq<char>>| #[trigger]
                counted(*old(self), *final(self), key, take) && may_be_day(unix, key),
            is_consistent(*old(self)) ==> is_consistent(*final(self)),
    {
        let key = day_key_unix(unix);
        let ghost k = key_text(key);
        let ghost before = *self;
        proof {
            if k is Some && days(self.by_day@).contains_key(k->0) {
                let i = choose|i: int|
                    0 <= i < self.by_day@.len() && #[trigger] self.by_day@[i].0@ == k->0;
                lemma_day(self.by_day@, i);
            }
        }
        self.record_on(key, take);
        assert(counted(before, *self, k, take) && may_be_day(unix, k));
    }
}

fn add_take(b: DayBucket, take: Take) -> (r: DayBucket)
    requires
        bucket_has_room(b, take),
    ensures
        r == with_take(b, take),
{
    DayBucket {
        dictations: b.dictations + 1,
        words: b.words + take.words,
        audio_ns: b.audio_ns + take.audio_ns,
        raw_words: b.raw_words + take.raw_words,
        dict_hits: b.dict_hits + take.dict_hits,
    }
}

/// The text of an optional key.
pub open spec fn key_text(key: Option<String>) -> Option<Seq<char>> {
    match key {
        Some(k) => Some(k@),
        None => None,
    }
}

/// The bucket of a day, empty where there is none.
pub open spec fn bucket_of(v: Seq<(String, DayBucket)>, key: Seq<char>) -> DayBucket {
    if days(v).contains_key(key) {
        days(v)[key]
    } else {
        no_takes()
    }
}

/// `after` is `before` with one more take, on the day `key`.
pub open spec fn counted(
    before: UsageStats,
    after: UsageStats,
    key: Option<Seq<char>>,
    take: Take,
) -> bool {
    &&& after.lifetime() == with_take(before.lifetime(), take)
    &&& days(after.by_day@) == (match key {
        Some(k) => days(before.by_day@).insert(k, with_take(bucket_of(before.by_day@, k), take)),
        None => days(before.by_day@),
    })
}

/// Each row is the bucket of its day.
pub proof fn lemma_day(v: Seq<(String, DayBucket)>, i: int)
    requires
        in_order(v),
        0 <= i < v.len(),
    ensures
        days(v).contains_key(v[i].0@),
        days(v)[v[i].0@] == v[i].1,
{
    let k = v[i].0@;
    let j = choose|j: int| 0 <= j < v.len() && #[trigger] v[j].0@ == k;
    assert(v[i].0@ == k);
    assert(0 <= j < v.len() && v[j].0@ == k);
    if i < j {
        assert(v[i].0@ != v[j].0@);
    } else if j < i {
        assert(v[j].0@ != v[i].0@);
    }
}

proof fn lemma_day_updated(v: Seq<(String, DayBucket)>, i: int, name: String, b: DayBucket)
    requires
        in_order(v),
        0 <= i < v.len(),
        name@ == v[i].0@,
    ensures
        in_order(v.update(i, (name, b))),
        days(v.update(i, (name, b))) == days(v).insert(name@, b),
        days(v).contains_key(name@),
        days(v)[name@] == v[i].1,
{
    let w = v.update(i, (name, b));
    assert forall|x: int, y: int| #![trigger w[x], w[y]] 0 <= x < y < w.len() implies words::text_le(
        w[x].0@,
        w[y].0@,
    ) && w[x].0@ != w[y].0@ by {
        assert(words::text_le(v[x].0@, v[y].0@) && v[x].0@ != v[y].0@);
    }
    lemma_day(v, i);
    lemma_days_equal(v, w, name@, b, i);
}

/// `w` is `v` but for the day `k`.
proof fn lemma_days_equal(
    v: Seq<(String, DayBucket)>,
    w: Seq<(String, DayBucket)>,
    k: Seq<char>,
    b: DayBucket,
    i: int,
)
    requires
        in_order(v),
        in_order(w),
        0 <= i < w.len(),
        w[i].0@ == k,
        w[i].1 == b,
        w.len() == v.len() && (forall|j: int| #![trigger w[j]]
            0 <= j < w.len() && j != i ==> w[j] == v[j]) && v[i].0@ == k || w == v.insert(i, w[i])
            && i <= v.len(),
    ensures
        days(w) == days(v).insert(k, b),
{
    let want = days(v).insert(k, b);
    lemma_day(w, i);
    assert forall|q: Seq<char>| days(w).contains_key(q) == want.contains_key(q) by {
        if days(w).contains_key(q) {
            let j = choose|j: int| 0 <= j < w.len() && #[trigger] w[j].0@ == q;
            if j != i {
                let m = if w.len() == v.len() || j < i {
                    j
                } else {
                    j - 1
                };
                assert(v[m].0@ == q);
            }
        }
        if days(v).contains_key(q) {
            let m = choose|m: int| 0 <= m < v.len() && #[trigger] v[m].0@ == q;
            let j = if w.len() == v.len() || m < i {
                m
            } else {
                m + 1
            };
            assert(w[j].0@ == q);
        }
    }
    assert forall|q: Seq<char>| days(w).contains_key(q) implies days(w)[q] == want[q] by {
        let j = choose|j: int| 0 <= j < w.len() && #[trigger] w[j].0@ == q;
        lemma_day(w, j);
        if j == i {
        } else {
            let m = if w.len() == v.len() || j < i {
                j
            } else {
                j - 1
            };
            assert(v[m] == w[j]);
            lemma_day(v, m);
            if i < j {
                assert(w[i].0@ != w[j].0@);
            } else {
                assert(w[j].0@ != w[i].0@);
            }
        }
    }
    assert(days(w) =~= want);
}

proof fn lemma_day_inserted(v: Seq<(String, DayBucket)>, i: int, name: String, b: DayBucket)
    requires
        in_order(v),
        0 <= i <= v.len(),
        forall|j: int| 0 <= j < i ==> !words::text_le(name@, (#[trigger] v[j]).0@),
        i < v.len() ==> words::text_le(name@, v[i].0@) && name@ != v[i].0@,
    ensures
        in_order(v.insert(i, (name, b))),
        days(v.insert(i, (name, b))) == days(v).insert(name@, b),
        !days(v).contains_key(name@),
{
    let w = v.insert(i, (name, b));
    assert forall|j: int| 0 <= j < i implies words::text_le((#[trigger] v[j]).0@, name@) && v[j].0@
        != name@ by {
        words::lemma_text_le_total(v[j].0@, name@);
    }
    assert forall|j: int| i <= j < v.len() implies words::text_le(name@, (#[trigger] v[j]).0@)
        && v[j].0@ != name@ by {
        if j > i {
            assert(words::text_le(v[i].0@, v[j].0@) && v[i].0@ != v[j].0@);
            words::lemma_text_le_transitive(name@, v[i].0@, v[j].0@);
            if v[j].0@ == name@ {
                words::lemma_text_le_antisymmetric(v[i].0@, name@);
            }
        }
    }
    assert forall|x: int, y: int| #![trigger w[x], w[y]] 0 <= x < y < w.len() implies words::text_le(
        w[x].0@,
        w[y].0@,
    ) && w[x].0@ != w[y].0@ by {
        let a = if x < i {
            x
        } else {
            x - 1
        };
        let c = if y < i {
            y
        } else {
            y - 1
        };
        if x != i {
            assert(w[x] == v[a]);
        }
        if y != i {
            assert(w[y] == v[c]);
        }
        if x != i && y != i {
            assert(words::text_le(v[a].0@, v[c].0@) && v[a].0@ != v[c].0@);
        }
    }
    assert(w[i] == (name, b));
    lemma_days_equal(v, w, name@, b, i);
    if days(v).contains_key(name@) {
        let j = choose|j: int| 0 <= j < v.len() && #[trigger] v[j].0@ == name@;
        assert(v[j].0@ != name@);
    }
}

/// The last second whose local day has a year of four digits in every time zone.
pub const LAST_PLAIN_SECOND: u64 = 253_402_214_399;

/// The first second that a date can be made of: the start of the year -262143.
pub const FIRST_SECOND: i64 = -8_334_601_228_800;

/// The last second that a date can be made of: the end of the year 262142.
pub const LAST_SECOND: i64 = 8_210_266_876_799;

/// The seconds of a time stamp. One that is too large for them wraps.
pub open spec fn seconds(unix: u64) -> int {
    if unix <= i64::MAX {
        unix as int
    } else {
        unix - 0x1_0000_0000_0000_0000
    }
}

/// `key` is the date of a second in a time zone that is less than a day off.
pub open spec fn is_local_day(secs: int, key: Seq<char>) -> bool {
    exists|off: int|
        -86_400 < off < 86_400 && #[trigger] calendar::is_date_of(key, (secs + off) / 86_400)
}

/// What a day key may be for a time stamp: its date in some time zone. There is
/// none for a stamp that is missing, or that lies outside the calendar.
pub open spec fn may_be_day(unix: u64, key: Option<Seq<char>>) -> bool {
    match key {
        Some(k) => unix != 0 && FIRST_SECOND <= seconds(unix) <= LAST_SECOND && is_local_day(
            seconds(unix),
            k,
        ),
        None => unix == 0 || !(FIRST_SECOND <= seconds(unix) <= LAST_SECOND),
    }
}

/// `TimeZone::timestamp_opt` of chrono's `Local` for a number of seconds, and
/// `DateTime::format` of the single result with year, month and day. There is a
/// result for every second of chrono's calendar, from the year -262143 to the
/// year 262142, and it is the Gregorian date of the second, moved by the offset
/// of the machine's time zone, which chrono bounds to less than a day. Which
/// offset that is, is left unsaid: it depends on the machine.
#[verifier::external_body]
fn local_day(secs: i64, pattern: &str) -> (r: Option<String>)
    requires
        pattern@ == "%Y-%m-%d"@,
    ensures
        r is Some <==> FIRST_SECOND <= secs <= LAST_SECOND,
        r matches Some(key) ==> is_local_day(secs as int, key@),
{
    let day = chrono::Local.timestamp_opt(secs, 0).single()?;
    Some(day.format(pattern).to_string())
}

/// Local calendar `YYYY-MM-DD` for a unix time stamp. `None` where the stamp is
/// missing.
pub fn day_key_unix(unix: u64) -> (r: Option<String>)
    ensures
        may_be_day(unix, key_text(r)),
{
    if unix == 0 {
        return None;
    }
    let secs: i64 = unix as i64;
    assert(secs == seconds(unix)) by {
        assert(unix > 0x7FFF_FFFF_FFFF_FFFF ==> unix as i64 == unix - 0x1_0000_0000_0000_0000)
            by (bit_vector);
    }
    local_day(secs, "%Y-%m-%d")
}

/// Up to the year 9999 a day key is four digits, a dash, two digits, a dash and
/// two digits, in every time zone.
pub proof fn lemma_day_key_shape(unix: u64, key: Option<Seq<char>>)
    requires
        0 < unix <= LAST_PLAIN_SECOND,
        may_be_day(unix, key),
    ensures
        key is Some && calendar::is_day_key(key->0),
{
    let off = choose|off: int|
        -86_400 < off < 86_400 && #[trigger] calendar::is_date_of(key->0, (unix + off) / 86_400);
    let number = (unix + off) / 86_400;
    calendar::lemma_plain_range();
    assert(-1 <= number <= 2_932_896);
    calendar::lemma_plain_shape(key->0, number);
}

/// Takes that are three days apart or more are filed under different keys, the
/// earlier one first, even if the time zone changed in between.
pub proof fn lemma_later_day(early: u64, late: u64, a: Seq<char>, b: Seq<char>)
    requires
        0 < early,
        early + 3 * 86_400 <= late <= LAST_PLAIN_SECOND,
        may_be_day(early, Some(a)),
        may_be_day(late, Some(b)),
    ensures
        words::text_le(a, b),
        a != b,
{
    let o = choose|o: int|
        -86_400 < o < 86_400 && #[trigger] calendar::is_date_of(a, (early + o) / 86_400);
    let p = choose|p: int|
        -86_400 < p < 86_400 && #[trigger] calendar::is_date_of(b, (late + p) / 86_400);
    let first = (early + o) / 86_400;
    let second = (late + p) / 86_400;
    calendar::lemma_plain_range();
    assert(-1 <= first);
    assert(early + o < late + p - 86_400);
    assert(first < second);
    assert(second <= 2_932_896);
    calendar::lemma_text_order(a, b, first, second);
}

/// What the ledger counts.
pub enum Counter {
    Dictations,
    Words,
    Audio,
    RawWords,
    DictHits,
}

impl Counter {
    /// A counter of a bucket.
    pub open spec fn of(self, b: DayBucket) -> int {
        match self {
            Counter::Dictations => b.dictations as int,
            Counter::Words => b.words as int,
            Counter::Audio => b.audio_ns as int,
            Counter::RawWords => b.raw_words as int,
            Counter::DictHits => b.dict_hits as int,
        }
    }
}

/// A counter, added up over all days.
pub open spec fn total(m: Map<Seq<char>, DayBucket>, c: Counter) -> int
    decreases m.dom().len(),
    when m.dom().finite()
{
    if m.dom().len() == 0 {
        0
    } else {
        let k = m.dom().choose();
        c.of(m[k]) + total(m.remove(k), c)
    }
}

/// All days together count no more than the lifetime counters.
pub open spec fn is_consistent(s: UsageStats) -> bool {
    forall|c: Counter| #[trigger] total(days(s.by_day@), c) <= c.of(s.lifetime())
}

/// A total does not depend on the order in which it is added up.
proof fn lemma_total_without(m: Map<Seq<char>, DayBucket>, k: Seq<char>, c: Counter)
    requires
        m.dom().finite(),
        m.contains_key(k),
    ensures
        total(m, c) == c.of(m[k]) + total(m.remove(k), c),
    decreases m.dom().len(),
{
    let j = m.dom().choose();
    assert(m.dom().contains(j)) by {
        assert(m.dom().len() > 0) by {
            if m.dom().len() == 0 {
                assert(m.dom() =~= Set::empty());
            }
        }
    }
    if j != k {
        lemma_total_without(m.remove(j), k, c);
        lemma_total_without(m.remove(k), j, c);
        assert(m.remove(j).remove(k) =~= m.remove(k).remove(j));
    }
}

/// A total is at least what one day counts.
pub proof fn lemma_day_within_total(m: Map<Seq<char>, DayBucket>, k: Seq<char>, c: Counter)
    requires
        m.dom().finite(),
        m.contains_key(k),
    ensures
        c.of(m[k]) <= total(m, c),
{
    lemma_total_without(m, k, c);
    lemma_total_not_negative(m.remove(k), c);
}

proof fn lemma_total_not_negative(m: Map<Seq<char>, DayBucket>, c: Counter)
    requires
        m.dom().finite(),
    ensures
        total(m, c) >= 0,
    decreases m.dom().len(),
{
    if m.dom().len() > 0 {
        lemma_total_not_negative(m.remove(m.dom().choose()), c);
    }
}

/// A ledger has finitely many days.
pub proof fn lemma_days_finite(v: Seq<(String, DayBucket)>)
    ensures
        days(v).dom().finite(),
{
    let keys = v.map(|i: int, row: (String, DayBucket)| row.0@);
    vstd::seq_lib::seq_to_set_is_finite(keys);
    assert forall|k: Seq<char>| days(v).dom().contains(k) == keys.to_set().contains(k) by {
        if days(v).dom().contains(k) {
            let i = choose|i: int| 0 <= i < v.len() && #[trigger] v[i].0@ == k;
            assert(keys[i] == k);
        }
        if keys.contains(k) {
            let i = choose|i: int| 0 <= i < keys.len() && keys[i] == k;
            assert(v[i].0@ == k);
        }
    }
    assert(days(v).dom() =~= keys.to_set());
}

/// A ledger without a day is consistent.
pub proof fn lemma_empty_is_consistent(s: UsageStats)
    requires
        s.by_day@.len() == 0,
    ensures
        is_consistent(s),
{
    lemma_days_finite(s.by_day@);
    assert(days(s.by_day@).dom() =~= Set::empty());
}

/// Counting a take keeps all days together within the lifetime counters.
pub proof fn lemma_counted_is_consistent(
    before: UsageStats,
    after: UsageStats,
    key: Option<Seq<char>>,
    take: Take,
)
    requires
        is_consistent(before),
        before.has_room_on(key, take),
        counted(before, after, key, take),
    ensures
        is_consistent(after),
{
    let m = days(before.by_day@);
    lemma_days_finite(before.by_day@);
    assert forall|c: Counter| #[trigger] total(days(after.by_day@), c) <= c.of(
        after.lifetime(),
    ) by {
        assert(total(m, c) <= c.of(before.lifetime()));
        if let Some(k) = key {
            let n = days(after.by_day@);
            lemma_total_without(n, k, c);
            assert(n.remove(k) =~= m.remove(k));
            if m.contains_key(k) {
                lemma_total_without(m, k, c);
            } else {
                assert(m.remove(k) =~= m);
            }
        }
    }
}

} // verus!
