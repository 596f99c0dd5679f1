//! App state: settings, history, ledger and the flags of the live take.

use crate::chars;
use crate::chars::str_eq;
use crate::focus::FocusHandle;
use crate::models;
use crate::models::find;
use crate::overlay;
use crate::platform::Platform;
use crate::settings;
use crate::settings::{
    copy_opt, default_overlay_edge, default_overlay_offset, normalize_talk_key, HistoryItem,
    NewHistory, Settings, HISTORY_LIMIT,
};
use crate::stats;
use crate::stats::{DayBucket, Take, UsageStats};
use crate::text::word_count;
use crate::words;
use vstd::prelude::*;
use vstd::string::*;

verus! {

#[derive(Debug)]
pub struct AppState {
    pub recording: bool,
    pub transcribing: bool,
    /// The live take was started by the talk key: a key release must not stop a
    /// take that was started elsewhere.
    pub hotkey_owned: bool,
    pub settings: Settings,
    pub history: Vec<HistoryItem>,
    /// Lifetime usage; never cleared with the history.
    pub stats: UsageStats,
    /// The ids of the models that are being downloaded.
    pub downloading: Vec<String>,
    /// The last foreign window in front.
    pub paste_target: Option<FocusHandle>,
}

/// `after` is `before` but for the talk key and the overlay pose.
pub open spec fn same_but_migrated(before: Settings, after: Settings) -> bool {
    after == (Settings {
        hotkey_key: after.hotkey_key,
        overlay_edge: after.overlay_edge,
        overlay_offset: after.overlay_offset,
        ..before
    })
}

/// Whether settings hold the pose of the first installs, at the top left.
pub open spec fn has_unset_pose(s: Settings) -> bool {
    s.overlay_edge@ == "top"@ && s.overlay_offset == 0
}

/// What stored settings become on a platform: the talk key is made native, and
/// the pose of the first installs is moved to the bottom center.
pub open spec fn is_migrated(before: Settings, after: Settings, platform: Platform) -> bool {
    &&& same_but_migrated(before, after)
    &&& after.hotkey_key@ == settings::native_key(before.hotkey_key@, platform)
    &&& if has_unset_pose(before) {
        after.overlay_edge@ == "bottom"@ && after.overlay_offset == overlay::OFFSET_CENTER
    } else {
        after.overlay_edge@ == before.overlay_edge@ && after.overlay_offset
            == before.overlay_offset
    }
}

/// A history row of the plain-text format.
pub open spec fn is_plain_row(row: HistoryItem, text: Seq<char>) -> bool {
    &&& row.text@ == text
    &&& row.date_unix == 0
    &&& row.duration_ns == 0
    &&& row.model@ == Seq::<char>::empty()
    &&& row.audio_path is None
    &&& row.raw_text@ == Seq::<char>::empty()
    &&& row.words_out == 0
    &&& row.dict_hits == 0
    &&& row.cleanup@ == Seq::<char>::empty()
}

fn plain_row(text: &String) -> (r: HistoryItem)
    ensures
        is_plain_row(r, text@),
{
    HistoryItem {
        text: text.clone(),
        date_unix: 0,
        duration_ns: 0,
        model: String::new(),
        audio_path: None,
        raw_text: String::new(),
        words_out: 0,
        dict_hits: 0,
        cleanup: String::new(),
    }
}

/// The word count of a text.
pub open spec fn count_words(s: Seq<char>) -> u32 {
    words::words(s).len() as u32
}

/// The raw word count of a take: that of the raw text, or the polished one where
/// there is no raw text.
pub open spec fn raw_count(raw: Seq<char>, polished: u64) -> u64 {
    if raw.len() == 0 {
        polished
    } else {
        count_words(raw) as u64
    }
}

/// What a new take counts.
pub open spec fn take_of(item: NewHistory) -> Take {
    let words = count_words(item.text@) as u64;
    Take {
        words,
        audio_ns: item.duration_ns,
        raw_words: raw_count(item.raw_text@, words),
        dict_hits: item.dict_hits as u64,
    }
}

/// The row of a new take.
pub open spec fn is_row_of(row: HistoryItem, item: NewHistory, now: u64) -> bool {
    row == (HistoryItem {
        text: item.text,
        date_unix: now,
        duration_ns: item.duration_ns,
        model: item.model,
        audio_path: item.audio_path,
        raw_text: item.raw_text,
        words_out: count_words(item.text@),
        dict_hits: item.dict_hits,
        cleanup: item.cleanup,
    })
}

/// The newest rows, as many as the history keeps.
pub open spec fn capped(rows: Seq<HistoryItem>) -> Seq<HistoryItem> {
    if rows.len() > HISTORY_LIMIT {
        rows.take(HISTORY_LIMIT as int)
    } else {
        rows
    }
}

/// What a row counts.
pub open spec fn take_of_row(h: HistoryItem) -> Take {
    let words = if h.words_out > 0 {
        h.words_out as u64
    } else {
        count_words(h.text@) as u64
    };
    Take {
        words,
        audio_ns: h.duration_ns,
        raw_words: raw_count(h.raw_text@, words),
        dict_hits: h.dict_hits as u64,
    }
}

fn row_take(h: &HistoryItem) -> (r: Take)
    ensures
        r == take_of_row(*h),
{
    let words: u64 = if h.words_out > 0 {
        h.words_out as u64
    } else {
        word_count(h.text.as_str()) as u64
    };
    let raw_words: u64 = if h.raw_text.as_str().is_empty() {
        words
    } else {
        word_count(h.raw_text.as_str()) as u64
    };
    Take { words, audio_ns: h.duration_ns, raw_words, dict_hits: h.dict_hits as u64 }
}

/// What the first `n` rows count together.
pub open spec fn total_words(rows: Seq<HistoryItem>, n: int) -> int
    decreases n,
{
    if n <= 0 {
        0
    } else {
        total_words(rows, n - 1) + take_of_row(rows[n - 1]).words
    }
}

pub open spec fn total_audio(rows: Seq<HistoryItem>, n: int) -> int
    decreases n,
{
    if n <= 0 {
        0
    } else {
        total_audio(rows, n - 1) + take_of_row(rows[n - 1]).audio_ns
    }
}

pub open spec fn total_raw(rows: Seq<HistoryItem>, n: int) -> int
    decreases n,
{
    if n <= 0 {
        0
    } else {
        total_raw(rows, n - 1) + take_of_row(rows[n - 1]).raw_words
    }
}

pub open spec fn total_hits(rows: Seq<HistoryItem>, n: int) -> int
    decreases n,
{
    if n <= 0 {
        0
    } else {
        total_hits(rows, n - 1) + take_of_row(rows[n - 1]).dict_hits
    }
}

proof fn lemma_totals_grow(rows: Seq<HistoryItem>, n: int, m: int)
    requires
        0 <= n <= m,
    ensures
        0 <= total_words(rows, n) <= total_words(rows, m),
        0 <= total_audio(rows, n) <= total_audio(rows, m),
        0 <= total_raw(rows, n) <= total_raw(rows, m),
        0 <= total_hits(rows, n) <= total_hits(rows, m),
    decreases m,
{
    if n < m {
        lemma_totals_grow(rows, n, m - 1);
    } else if n > 0 {
        lemma_totals_grow(rows, n - 1, m - 1);
    }
}

/// Whether the counters can take all rows.
pub open spec fn can_seed(s: UsageStats, rows: Seq<HistoryItem>) -> bool {
    let n = rows.len() as int;
    &&& s.lifetime_words + total_words(rows, n) <= u64::MAX
    &&& s.lifetime_audio_ns + total_audio(rows, n) <= u64::MAX
    &&& s.lifetime_raw_words + total_raw(rows, n) <= u64::MAX
    &&& s.lifetime_dict_hits + total_hits(rows, n) <= u64::MAX
}

/// The lifetime counters with the first `n` rows counted in.
pub open spec fn has_counted(
    before: UsageStats,
    after: UsageStats,
    rows: Seq<HistoryItem>,
    n: int,
) -> bool {
    &&& after.lifetime_dictations == before.lifetime_dictations + n
    &&& after.lifetime_words == before.lifetime_words + total_words(rows, n)
    &&& after.lifetime_audio_ns == before.lifetime_audio_ns + total_audio(rows, n)
    &&& after.lifetime_raw_words == before.lifetime_raw_words + total_raw(rows, n)
    &&& after.lifetime_dict_hits == before.lifetime_dict_hits + total_hits(rows, n)
}

/// The days with the first `n` rows counted in, each on the day of its key.
pub open spec fn days_with(
    before: Map<Seq<char>, DayBucket>,
    rows: Seq<HistoryItem>,
    keys: Seq<Option<Seq<char>>>,
    n: int,
) -> Map<Seq<char>, DayBucket>
    decreases n,
{
    if n <= 0 {
        before
    } else {
        let m = days_with(before, rows, keys, n - 1);
        match keys[n - 1] {
            Some(k) => m.insert(
                k,
                stats::with_take(
                    if m.contains_key(k) {
                        m[k]
                    } else {
                        stats::no_takes()
                    },
                    take_of_row(rows[n - 1]),
                ),
            ),
            None => m,
        }
    }
}

/// `keys` may be the local days of the first rows, in some time zone.
pub open spec fn may_be_days(rows: Seq<HistoryItem>, keys: Seq<Option<Seq<char>>>) -> bool {
    forall|i: int| #![trigger keys[i]]
        0 <= i < keys.len() ==> stats::may_be_day(rows[i].date_unix, keys[i])
}

/// The days are seeded out of all rows.
pub open spec fn days_seeded(
    before: UsageStats,
    after: UsageStats,
    rows: Seq<HistoryItem>,
    keys: Seq<Option<Seq<char>>>,
) -> bool {
    &&& keys.len() == rows.len()
    &&& may_be_days(rows, keys)
    &&& stats::days(after.by_day@) == days_with(
        stats::days(before.by_day@),
        rows,
        keys,
        rows.len() as int,
    )
}

proof fn lemma_room(s: UsageStats, t: Take)
    requires
        s.wf(),
        stats::is_consistent(s),
        stats::bucket_has_room(s.lifetime(), t),
    ensures
        s.has_room(t),
{
    assert forall|i: int| 0 <= i < s.by_day@.len() implies stats::bucket_has_room(
        (#[trigger] s.by_day@[i]).1,
        t,
    ) by {
        let k = s.by_day@[i].0@;
        stats::lemma_day(s.by_day@, i);
        stats::lemma_days_finite(s.by_day@);
        assert forall|c: stats::Counter| #[trigger] c.of(s.by_day@[i].1) <= c.of(s.lifetime()) by {
            let days = stats::days(s.by_day@);
            stats::lemma_day_within_total(days, k, c);
            assert(stats::total(days, c) <= c.of(s.lifetime()));
        }
        let b = s.by_day@[i].1;
        assert(stats::Counter::Dictations.of(b) <= stats::Counter::Dictations.of(s.lifetime()));
        assert(stats::Counter::Words.of(b) <= stats::Counter::Words.of(s.lifetime()));
        assert(stats::Counter::Audio.of(b) <= stats::Counter::Audio.of(s.lifetime()));
        assert(stats::Counter::RawWords.of(b) <= stats::Counter::RawWords.of(s.lifetime()));
        assert(stats::Counter::DictHits.of(b) <= stats::Counter::DictHits.of(s.lifetime()));
    }
}

/// `after` is `before` with a take filed: counted in the ledger, on its day where
/// there is one, and on top of the history.
pub open spec fn is_filed(before: AppState, after: AppState, item: NewHistory, now: u64) -> bool {
    &&& after == (AppState { history: after.history, stats: after.stats, ..before })
    &&& after.stats.wf()
    &&& stats::is_consistent(before.stats) ==> stats::is_consistent(after.stats)
    &&& exists|key: Option<Seq<char>>| #[trigger]
        stats::counted(before.stats, after.stats, key, take_of(item)) && stats::may_be_day(now, key)
    &&& exists|row: HistoryItem| #[trigger]
        is_row_of(row, item, now) && after.history@ == capped(seq![row] + before.history@)
}

/// The settings that an app starts with, and whether they have to be stored again.
pub open spec fn is_loaded(
    stored: Option<Settings>,
    after: Settings,
    platform: Platform,
    r: bool,
) -> bool {
    match stored {
        Some(s) => if models::model_named(s.model_id@) is Some {
            &&& is_migrated(s, after, platform)
            &&& r == (settings::native_key(s.hotkey_key@, platform) != s.hotkey_key@)
        } else {
            settings::is_fresh(after, platform) && !r
        },
        None => settings::is_fresh(after, platform) && !r,
    }
}

/// The history that an app starts with, and whether it has to be stored again.
pub open spec fn is_history_loaded(
    before: Seq<HistoryItem>,
    after: Seq<HistoryItem>,
    rows: Option<Vec<HistoryItem>>,
    texts: Option<Vec<String>>,
    r: bool,
) -> bool {
    &&& r == (rows is None && texts is Some)
    &&& match (rows, texts) {
        (Some(v), _) => after == v@,
        (None, Some(t)) => after.len() == t@.len() && (forall|i: int|
            0 <= i < t@.len() ==> is_plain_row(#[trigger] after[i], t@[i]@)),
        (None, None) => after == before,
    }
}

/// `after` is `before` with a live take.
pub open spec fn is_started(before: AppState, after: AppState, by_hotkey: bool) -> bool {
    after == (AppState { recording: true, hotkey_owned: by_hotkey, ..before })
}

/// `after` is `before` without a live take.
pub open spec fn is_stopped(before: AppState, after: AppState) -> bool {
    after == (AppState { recording: false, hotkey_owned: false, ..before })
}

/// `after` is `before` without the row at `index`.
pub open spec fn is_deleted(before: AppState, after: AppState, index: int) -> bool {
    after == (AppState { history: after.history, ..before }) && after.history@
        == before.history@.remove(index)
}

impl AppState {
    /// A state without a take, with the settings of a fresh install.
    pub fn new(platform: Platform) -> (r: Self)
        ensures
            !r.recording && !r.transcribing && !r.hotkey_owned,
            settings::is_fresh(r.settings, platform),
            r.history@.len() == 0,
            r.stats.wf(),
            r.stats.lifetime() == stats::no_takes(),
            r.stats.by_day@.len() == 0,
            r.downloading@.len() == 0,
            r.paste_target is None,
    {
        AppState {
            recording: false,
            transcribing: false,
            hotkey_owned: false,
            settings: Settings::default(platform),
            history: Vec::new(),
            stats: UsageStats::new(),
            downloading: Vec::new(),
            paste_target: None,
        }
    }

    /// Takes over stored settings, migrated to the platform. Settings that could
    /// not be read, or that name a model outside the catalog, are replaced by
    /// those of a fresh install. Says whether the settings have to be stored
    /// again: where the talk key changed.
    pub fn load_settings(&mut self, stored: Option<Settings>, platform: Platform) -> (r: bool)
        ensures
            *final(self) == (AppState { settings: final(self).settings, ..*old(self) }),
            is_loaded(stored, final(self).settings, platform, r),
    {
        if let Some(s) = stored {
            if find(s.model_id.as_str()).is_some() {
                let mut s = s;
                let native = normalize_talk_key(s.hotkey_key.as_str(), platform);
                let changed = !str_eq(native.as_str(), s.hotkey_key.as_str());
                if changed {
                    s.hotkey_key = native;
                }
                if str_eq(s.overlay_edge.as_str(), "top") && s.overlay_offset == 0 {
                    s.overlay_edge = default_overlay_edge();
                    s.overlay_offset = default_overlay_offset();
                }
                self.settings = s;
                return changed;
            }
        }
        self.settings = Settings::default(platform);
        false
    }

    /// Takes over a stored history: rows of the current format, or plain texts.
    /// Says whether the history has to be stored again: where it was plain texts.
    pub fn load_history(
        &mut self,
        rows: Option<Vec<HistoryItem>>,
        texts: Option<Vec<String>>,
    ) -> (r: bool)
        ensures
            *final(self) == (AppState { history: final(self).history, ..*old(self) }),
            is_history_loaded(old(self).history@, final(self).history@, rows, texts, r),
    {
        if let Some(v) = rows {
            self.history = v;
            return false;
        }
        if let Some(t) = texts {
            let mut out: Vec<HistoryItem> = Vec::new();
            let mut i: usize = 0;
            while i < t.len()
                invariant
                    i <= t.len(),
                    out@.len() == i,
                    forall|k: int| 0 <= k < i ==> is_plain_row(#[trigger] out@[k], t@[k]@),
                decreases t.len() - i,
            {
                out.push(plain_row(&t[i]));
                i += 1;
            }
            self.history = out;
            return true;
        }
        false
    }

    /// Files a take: counts it, and puts its row on top of the history, which
    /// keeps the newest rows.
    pub fn push_history(&mut self, item: NewHistory, now: u64)
        requires
            old(self).stats.wf(),
            old(self).stats.has_room(take_of(item)),
        ensures
            is_filed(*old(self), *final(self), item, now),
    {
        let words_out = word_count(item.text.as_str());
        let raw_words: u64 = if item.raw_text.as_str().is_empty() {
            words_out as u64
        } else {
            word_count(item.raw_text.as_str()) as u64
        };
        let take = Take {
            words: words_out as u64,
            audio_ns: item.duration_ns,
            raw_words,
            dict_hits: item.dict_hits as u64,
        };
        self.stats.record(now, take);
        let ghost before = self.history@;
        let row = HistoryItem {
            text: item.text,
            date_unix: now,
            duration_ns: item.duration_ns,
            model: item.model,
            audio_path: item.audio_path,
            raw_text: item.raw_text,
            words_out,
            dict_hits: item.dict_hits,
            cleanup: item.cleanup,
        };
        let ghost r = row;
        self.history.insert(0, row);
        assert(self.history@ =~= seq![r] + before);
        if self.history.len() > HISTORY_LIMIT {
            self.history.truncate(HISTORY_LIMIT);
        }
        assert(self.history@ =~= capped(seq![r] + before));
        assert(is_row_of(r, item, now));
    }

    /// First launch with a ledger: fills it from the history that is there. Says
    /// whether the ledger has to be stored.
    pub fn seed_stats_from_history(&mut self) -> (r: bool)
        requires
            old(self).stats.wf(),
            old(self).stats.lifetime_dictations == 0 && old(self).stats.by_day@.len() == 0
                ==> can_seed(old(self).stats, old(self).history@),
        ensures
            *final(self) == (AppState { stats: final(self).stats, ..*old(self) }),
            final(self).stats.wf(),
            r == (old(self).stats.lifetime_dictations == 0 && old(self).stats.by_day@.len() == 0
                && old(self).history@.len() > 0),
            !r ==> final(self).stats == old(self).stats,
            r ==> has_counted(
                old(self).stats,
                final(self).stats,
                old(self).history@,
                old(self).history@.len() as int,
            ),
            r ==> exists|keys: Seq<Option<Seq<char>>>| #[trigger]
                days_seeded(old(self).stats, final(self).stats, old(self).history@, keys),
            r ==> stats::is_consistent(final(self).stats),
    {
        if !self.stats.is_empty() || self.history.len() == 0 {
            return false;
        }
        let ghost before = self.stats;
        let ghost rows = self.history@;
        let ghost mut keys: Seq<Option<Seq<char>>> = Seq::empty();
        let ghost start = *self;
        let n = self.history.len();
        let mut i: usize = 0;
        proof {
            stats::lemma_empty_is_consistent(before);
        }
        while i < n
            invariant
                i <= n,
                n == rows.len(),
                self.history@ == rows,
                *self == (AppState { stats: self.stats, ..start }),
                can_seed(before, rows),
                before.lifetime_dictations == 0,
                self.stats.wf(),
                stats::is_consistent(self.stats),
                has_counted(before, self.stats, rows, i as int),
                keys.len() == i,
                may_be_days(rows, keys),
                stats::days(self.stats.by_day@) == days_with(
                    stats::days(before.by_day@),
                    rows,
                    keys,
                    i as int,
                ),
            decreases n - i,
        {
            let take = row_take(&self.history[i]);
            let unix = self.history[i].date_unix;
            let ghost now = self.stats;
            proof {
                lemma_totals_grow(rows, i + 1, n as int);
                lemma_room(now, take);
            }
            self.stats.record(unix, take);
            proof {
                let key = choose|key: Option<Seq<char>>| #[trigger]
                    stats::counted(now, self.stats, key, take) && stats::may_be_day(unix, key);
                let more = keys.push(key);
                lemma_days_prefix(stats::days(before.by_day@), rows, keys, key, i as int);
                assert forall|k: int| #![trigger more[k]] 0 <= k < more.len() implies stats::may_be_day(
                    rows[k].date_unix,
                    more[k],
                ) by {
                    if k < keys.len() {
                        assert(more[k] == keys[k]);
                    }
                }
                assert(self.stats.lifetime() == stats::with_take(now.lifetime(), take));
                assert(self.stats.lifetime_dictations == self.stats.lifetime().dictations);
                assert(self.stats.lifetime_words == self.stats.lifetime().words);
                assert(self.stats.lifetime_audio_ns == self.stats.lifetime().audio_ns);
                assert(self.stats.lifetime_raw_words == self.stats.lifetime().raw_words);
                assert(self.stats.lifetime_dict_hits == self.stats.lifetime().dict_hits);
                keys = more;
            }
            i += 1;
        }
        assert(days_seeded(before, self.stats, rows, keys));
        true
    }

    /// Takes a row out of the history, and gives back the recording to delete.
    pub fn delete_history_item(&mut self, index: usize) -> (r: Result<Option<String>, String>)
        ensures
            *final(self) == (AppState { history: final(self).history, ..*old(self) }),
            match r {
                Ok(path) => index < old(self).history@.len() && is_deleted(
                    *old(self),
                    *final(self),
                    index as int,
                ) && path == old(self).history@[index as int].audio_path,
                Err(e) => index >= old(self).history@.len() && final(self).history@ == old(
                    self,
                ).history@ && e@ == "history item not found"@,
            },
    {
        if index >= self.history.len() {
            return Err("history item not found".to_owned());
        }
        let item = self.history.remove(index);
        Ok(item.audio_path)
    }

    /// Clears the history, and gives back the recordings to delete. The ledger
    /// stays.
    pub fn clear_history(&mut self) -> (r: Vec<String>)
        ensures
            *final(self) == (AppState { history: final(self).history, ..*old(self) }),
            final(self).history@.len() == 0,
            chars::texts(r@) == recordings(old(self).history@, old(self).history@.len() as int),
    {
        let ghost rows = self.history@;
        let mut out: Vec<String> = Vec::new();
        let mut i: usize = 0;
        assert(chars::texts(out@) =~= recordings(rows, 0));
        while i < self.history.len()
            invariant
                i <= self.history.len(),
                self.history@ == rows,
                *self == *old(self),
                chars::texts(out@) == recordings(rows, i as int),
            decreases self.history.len() - i,
        {
            if let Some(p) = copy_opt(&self.history[i].audio_path) {
                let ghost before = chars::texts(out@);
                out.push(p);
                assert(chars::texts(out@) =~= before.push(p@));
            }
            i += 1;
        }
        self.history.clear();
        out
    }

    /// The newest text, where it is not empty.
    pub fn last_text(&self) -> (r: Option<String>)
        ensures
            (match r {
                Some(s) => Some(s@),
                None => None,
            }) == newest_text(self.history@),
    {
        if self.history.len() == 0 || self.history[0].text.as_str().is_empty() {
            None
        } else {
            Some(self.history[0].text.clone())
        }
    }

    /// A take starts.
    pub fn start_recording(&mut self, by_hotkey: bool) -> (r: Result<(), &'static str>)
        ensures
            match r {
                Ok(_) => !old(self).recording && is_started(*old(self), *final(self), by_hotkey),
                Err(e) => old(self).recording && *final(self) == *old(self) && e@
                    == "already recording"@,
            },
    {
        if self.recording {
            return Err("already recording");
        }
        self.recording = true;
        self.hotkey_owned = by_hotkey;
        Ok(())
    }

    /// The live take ends, to be transcribed or thrown away.
    pub fn stop_recording(&mut self) -> (r: Result<(), &'static str>)
        ensures
            is_stopped(*old(self), *final(self)),
            match r {
                Ok(_) => old(self).recording,
                Err(e) => !old(self).recording && e@ == "not recording"@,
            },
    {
        self.hotkey_owned = false;
        if !self.recording {
            return Err("not recording");
        }
        self.recording = false;
        Ok(())
    }

    /// Throws the live take away, without transcribing, filing or pasting it.
    pub fn cancel_recording(&mut self) -> (r: Result<(), &'static str>)
        ensures
            is_stopped(*old(self), *final(self)),
            match r {
                Ok(_) => old(self).recording,
                Err(e) => !old(self).recording && e@ == "not recording"@,
            },
    {
        self.stop_recording()
    }
}

proof fn lemma_days_prefix(
    before: Map<Seq<char>, DayBucket>,
    rows: Seq<HistoryItem>,
    keys: Seq<Option<Seq<char>>>,
    key: Option<Seq<char>>,
    n: int,
)
    requires
        0 <= n <= keys.len(),
    ensures
        days_with(before, rows, keys.push(key), n) == days_with(before, rows, keys, n),
    decreases n,
{
    if n > 0 {
        lemma_days_prefix(before, rows, keys, key, n - 1);
        assert(keys.push(key)[n - 1] == keys[n - 1]);
    }
}

/// The recordings of the first `n` rows.
pub open spec fn recordings(rows: Seq<HistoryItem>, n: int) -> Seq<Seq<char>>
    decreases n,
{
    if n <= 0 {
        Seq::empty()
    } else {
        match rows[n - 1].audio_path {
            Some(p) => recordings(rows, n - 1).push(p@),
            None => recordings(rows, n - 1),
        }
    }
}

/// The newest text, where it is not empty.
pub open spec fn newest_text(rows: Seq<HistoryItem>) -> Option<Seq<char>> {
    if rows.len() == 0 || rows[0].text@.len() == 0 {
        None
    } else {
        Some(rows[0].text@)
    }
}

/// The history never outgrows its limit, and a filed take stands on top of it.
pub proof fn lemma_history_is_capped(rows: Seq<HistoryItem>, row: HistoryItem)
    ensures
        capped(seq![row] + rows).len() <= HISTORY_LIMIT,
        capped(seq![row] + rows)[0] == row,
        rows.len() < HISTORY_LIMIT ==> capped(seq![row] + rows) == seq![row] + rows,
{
}

/// A ledger that was seeded is not seeded again.
pub proof fn lemma_seeded_once(before: UsageStats, after: UsageStats, rows: Seq<HistoryItem>)
    requires
        rows.len() > 0,
        has_counted(before, after, rows, rows.len() as int),
    ensures
        after.lifetime_dictations > 0,
{
}

/// Settings that were migrated once stay as they are.
pub proof fn lemma_migrated_once(first: Settings, second: Settings, platform: Platform)
    requires
        exists|stored: Settings| is_migrated(stored, first, platform),
        is_migrated(first, second, platform),
    ensures
        second.hotkey_key@ == first.hotkey_key@,
        second.overlay_edge@ == first.overlay_edge@,
        second.overlay_offset == first.overlay_offset,
{
    let stored = choose|stored: Settings| is_migrated(stored, first, platform);
    settings::lemma_native_key_stays(stored.hotkey_key@, platform);
    reveal_strlit("top");
    reveal_strlit("bottom");
    assert("top"@.len() == 3 && "bottom"@.len() == 6);
}

} // verus!
