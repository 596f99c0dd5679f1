//! The history and the ledger of takes.

use crate::calendar;
use crate::laws::session;
use crate::models;
use crate::platform::Platform;
use crate::settings;
use crate::settings::{HistoryItem, NewHistory, Settings};
use crate::state;
use crate::state::AppState;
use crate::stats;
use crate::stats::{DayBucket, Take, UsageStats};
use crate::words;
use vstd::prelude::*;
use vstd::string::*;

verus! {

/// A take adds one to the takes and its own counts to every other counter.
pub proof fn lemma_take_adds(b: DayBucket, t: Take)
    requires
        stats::bucket_has_room(b, t),
    ensures
        ({
            let a = stats::with_take(b, t);
            &&& a.dictations - b.dictations == 1
            &&& a.words - b.words == t.words
            &&& a.audio_ns - b.audio_ns == t.audio_ns
            &&& a.raw_words - b.raw_words == t.raw_words
            &&& a.dict_hits - b.dict_hits == t.dict_hits
        }),
{
}

/// A take moves the lifetime counters and its own day, and no other day.
pub proof fn lemma_take_is_counted(
    before: UsageStats,
    after: UsageStats,
    key: Seq<char>,
    take: Take,
)
    requires
        before.has_room_on(Some(key), take),
        stats::counted(before, after, Some(key), take),
    ensures
        after.lifetime_dictations == before.lifetime_dictations + 1,
        after.lifetime_words == before.lifetime_words + take.words,
        after.lifetime_audio_ns == before.lifetime_audio_ns + take.audio_ns,
        after.lifetime_raw_words == before.lifetime_raw_words + take.raw_words,
        after.lifetime_dict_hits == before.lifetime_dict_hits + take.dict_hits,
        stats::days(after.by_day@).contains_key(key),
        ({
            let b = stats::bucket_of(before.by_day@, key);
            let a = stats::bucket_of(after.by_day@, key);
            &&& a.dictations == b.dictations + 1
            &&& a.words == b.words + take.words
            &&& a.audio_ns == b.audio_ns + take.audio_ns
            &&& a.raw_words == b.raw_words + take.raw_words
            &&& a.dict_hits == b.dict_hits + take.dict_hits
        }),
        forall|other: Seq<char>|
            other != key ==> #[trigger] stats::bucket_of(after.by_day@, other) == stats::bucket_of(
                before.by_day@,
                other,
            ),
{
    assert(after.lifetime().dictations == after.lifetime_dictations);
    assert(after.lifetime().words == after.lifetime_words);
    assert(after.lifetime().audio_ns == after.lifetime_audio_ns);
    assert(after.lifetime().raw_words == after.lifetime_raw_words);
    assert(after.lifetime().dict_hits == after.lifetime_dict_hits);
}

/// A take without a day leaves every day as it is.
pub proof fn lemma_take_without_day(
    before: UsageStats,
    after: UsageStats,
    take: Take,
    key: Seq<char>,
)
    requires
        stats::counted(before, after, None, take),
    ensures
        stats::bucket_of(after.by_day@, key) == stats::bucket_of(before.by_day@, key),
{
}

/// A day without a take counts nothing.
pub proof fn lemma_idle_day(v: Seq<(String, DayBucket)>, key: Seq<char>)
    requires
        forall|i: int| 0 <= i < v.len() ==> (#[trigger] v[i]).0@ != key,
    ensures
        ({
            let b = stats::bucket_of(v, key);
            b.dictations == 0 && b.words == 0 && b.audio_ns == 0 && b.raw_words == 0 && b.dict_hits
                == 0
        }),
{
}

/// A stamp of zero has no day; one in the calendar has one, and it is at most a day
/// away from the day of the stamp.
pub proof fn lemma_day_of_stamp(unix: u64, key: Option<Seq<char>>)
    requires
        stats::may_be_day(unix, key),
    ensures
        unix == 0 ==> key is None,
        0 < unix <= 253_402_214_399 ==> key is Some && exists|n: int| #[trigger]
            calendar::is_date_of(key->0, n) && unix / 86_400 - 1 <= n <= unix / 86_400 + 1,
{
    if 0 < unix <= 253_402_214_399 {
        let off = choose|off: int|
            -86_400 < off < 86_400 && #[trigger] calendar::is_date_of(
                key->0,
                (stats::seconds(unix) + off) / 86_400,
            );
        let n = (unix + off) / 86_400;
        assert(calendar::is_date_of(key->0, n));
        assert(unix / 86_400 - 1 <= n <= unix / 86_400 + 1);
    }
}

/// The lengths of the months: four have thirty days, and February has 28, or 29 in a
/// year that four divides, unless a hundred does and four hundred does not.
pub proof fn lemma_month_lengths(year: int, month: int)
    requires
        1 <= month <= 12,
    ensures
        month == 4 || month == 6 || month == 9 || month == 11 <==> calendar::month_len(year, month)
            == 30,
        month == 2 && (year % 400 == 0 || year % 4 == 0 && year % 100 != 0)
            <==> calendar::month_len(year, month) == 29,
        month == 2 && !(year % 400 == 0 || year % 4 == 0 && year % 100 != 0)
            <==> calendar::month_len(year, month) == 28,
        month == 1 || month == 3 || month == 5 || month == 7 || month == 8 || month == 10 || month
            == 12 <==> calendar::month_len(year, month) == 31,
{
}

/// The day behind a date has the next number, over the end of a month and of a year.
pub proof fn lemma_next_day(year: int, month: int, day: int)
    requires
        calendar::is_date(year, month, day),
    ensures
        calendar::day_number(1970, 1, 1) == 0,
        day < calendar::month_len(year, month) ==> calendar::day_number(year, month, day + 1)
            == calendar::day_number(year, month, day) + 1,
        day == calendar::month_len(year, month) && month < 12 ==> calendar::day_number(
            year,
            month + 1,
            1,
        ) == calendar::day_number(year, month, day) + 1,
        day == calendar::month_len(year, month) && month == 12 ==> calendar::day_number(
            year + 1,
            1,
            1,
        ) == calendar::day_number(year, month, day) + 1,
{
    assert(calendar::days_before_month(1970, 1) == 0);
    if day == calendar::month_len(year, month) && month < 12 {
        assert(calendar::days_before_month(year, month + 1) == calendar::days_before_month(
            year,
            month,
        ) + calendar::month_len(year, month));
    }
    if month == 12 {
        lemma_year_ends(year);
        calendar::lemma_next_year(year);
        assert(calendar::days_before_month(year + 1, 1) == 0);
    }
}

proof fn lemma_year_ends(year: int)
    ensures
        calendar::days_before_month(year, 12) == 334 + (if calendar::is_leap(year) {
            1int
        } else {
            0
        }),
{
    reveal_with_fuel(calendar::days_before_month, 13);
}

/// A filed take is the newest row, with its own text, model, length and recording,
/// the time it was filed at, and the number of its words.
pub proof fn lemma_filed(before: AppState, after: AppState, item: NewHistory, now: u64)
    requires
        state::is_filed(before, after, item, now),
    ensures
        after.history@.len() > 0,
        ({
            let row = after.history@[0];
            &&& row.text@ == item.text@
            &&& row.raw_text@ == item.raw_text@
            &&& row.date_unix == now
            &&& row.duration_ns == item.duration_ns
            &&& row.model@ == item.model@
            &&& row.audio_path == item.audio_path
            &&& row.dict_hits == item.dict_hits
            &&& row.cleanup@ == item.cleanup@
            &&& words::words(item.text@).len() <= u32::MAX ==> row.words_out == words::words(
                item.text@,
            ).len()
        }),
        after.history@.len() == (if before.history@.len() < 100 {
            before.history@.len() + 1
        } else {
            100
        }),
        forall|i: int|
            0 <= i < before.history@.len() && i < 99 ==> after.history@[i + 1]
                == #[trigger] before.history@[i],
        after.recording == before.recording,
        after.transcribing == before.transcribing,
        after.settings == before.settings,
        after.downloading == before.downloading,
{
    let row = choose|row: HistoryItem| #[trigger]
        state::is_row_of(row, item, now) && after.history@ == state::capped(
            seq![row] + before.history@,
        );
    let all = seq![row] + before.history@;
    assert(all[0] == row);
    assert forall|i: int| 0 <= i < before.history@.len() && i < 99 implies after.history@[i + 1]
        == #[trigger] before.history@[i] by {
        assert(all[i + 1] == before.history@[i]);
    }
}

/// A take counts the words of its text and, where there is one, of its raw text.
pub proof fn lemma_counts(item: NewHistory)
    requires
        words::words(item.text@).len() <= u32::MAX,
        words::words(item.raw_text@).len() <= u32::MAX,
    ensures
        ({
            let t = state::take_of(item);
            &&& t.words == words::words(item.text@).len()
            &&& item.raw_text@.len() > 0 ==> t.raw_words == words::words(item.raw_text@).len()
            &&& item.raw_text@.len() == 0 ==> t.raw_words == words::words(item.text@).len()
            &&& t.audio_ns == item.duration_ns
            &&& t.dict_hits == item.dict_hits
        }),
{
}

/// A row counts what its take counted, and an old row without a word count the words
/// of its text.
pub proof fn lemma_row_counts(row: HistoryItem, item: NewHistory, now: u64)
    requires
        words::words(row.text@).len() <= u32::MAX,
        words::words(row.raw_text@).len() <= u32::MAX,
    ensures
        state::is_row_of(row, item, now) && words::words(row.text@).len() > 0
            ==> state::take_of_row(row) == state::take_of(item),
        row.words_out == 0 ==> state::take_of_row(row).words == words::words(row.text@).len(),
        row.words_out > 0 ==> state::take_of_row(row).words == row.words_out,
        row.raw_text@.len() > 0 ==> state::take_of_row(row).raw_words == words::words(
            row.raw_text@,
        ).len(),
        row.raw_text@.len() == 0 ==> state::take_of_row(row).raw_words == state::take_of_row(
            row,
        ).words,
        state::take_of_row(row).audio_ns == row.duration_ns,
        state::take_of_row(row).dict_hits == row.dict_hits,
{
}

/// The counts of rows add up: one more row adds its own.
pub proof fn lemma_totals(rows: Seq<HistoryItem>, n: int)
    requires
        0 <= n < rows.len(),
    ensures
        state::total_words(rows, 0) == 0 && state::total_audio(rows, 0) == 0 && state::total_raw(
            rows,
            0,
        ) == 0 && state::total_hits(rows, 0) == 0,
        state::total_words(rows, n + 1) - state::total_words(rows, n) == state::take_of_row(
            rows[n],
        ).words,
        state::total_audio(rows, n + 1) - state::total_audio(rows, n) == rows[n].duration_ns,
        state::total_raw(rows, n + 1) - state::total_raw(rows, n) == state::take_of_row(
            rows[n],
        ).raw_words,
        state::total_hits(rows, n + 1) - state::total_hits(rows, n) == rows[n].dict_hits,
{
}

/// Seeding counts each row as a take.
pub proof fn lemma_seeded(before: UsageStats, after: UsageStats, rows: Seq<HistoryItem>)
    requires
        state::has_counted(before, after, rows, rows.len() as int),
    ensures
        after.lifetime_dictations - before.lifetime_dictations == rows.len(),
        after.lifetime_words - before.lifetime_words == state::total_words(rows, rows.len() as int),
        after.lifetime_audio_ns - before.lifetime_audio_ns == state::total_audio(
            rows,
            rows.len() as int,
        ),
        after.lifetime_raw_words - before.lifetime_raw_words == state::total_raw(
            rows,
            rows.len() as int,
        ),
        after.lifetime_dict_hits - before.lifetime_dict_hits == state::total_hits(
            rows,
            rows.len() as int,
        ),
{
}

/// A row that is seeded moves its own day and no other.
pub proof fn lemma_seeded_day(
    before: Map<Seq<char>, DayBucket>,
    rows: Seq<HistoryItem>,
    keys: Seq<Option<Seq<char>>>,
    n: int,
    day: Seq<char>,
)
    requires
        0 <= n < rows.len(),
        n < keys.len(),
    ensures
        ({
            let m = state::days_with(before, rows, keys, n);
            let after = state::days_with(before, rows, keys, n + 1);
            &&& keys[n] != Some(day) ==> (after.contains_key(day) <==> m.contains_key(day))
                && after[day] == m[day]
            &&& keys[n] == Some(day) ==> after.contains_key(day)
            &&& keys[n] == Some(day) && !m.contains_key(day) ==> after[day].dictations == 1
                && after[day].audio_ns == rows[n].duration_ns && after[day].dict_hits
                == rows[n].dict_hits && after[day].words == state::take_of_row(rows[n]).words
            &&& keys[n] == Some(day) && m.contains_key(day) && stats::bucket_has_room(
                m[day],
                state::take_of_row(rows[n]),
            ) ==> after[day].dictations == m[day].dictations + 1 && after[day].audio_ns
                == m[day].audio_ns + rows[n].duration_ns && after[day].words == m[day].words
                + state::take_of_row(rows[n]).words
        }),
{
}

/// A plain row holds a text and nothing else.
pub proof fn lemma_plain_row(row: HistoryItem, text: Seq<char>)
    requires
        state::is_plain_row(row, text),
    ensures
        row.text@ == text,
        row.date_unix == 0,
        row.duration_ns == 0,
        row.dict_hits == 0,
        row.audio_path is None,
        row.model@.len() == 0 && row.raw_text@.len() == 0 && row.cleanup@.len() == 0,
        words::words(text).len() <= u32::MAX ==> state::take_of_row(row).words == words::words(
            text,
        ).len(),
{
}

/// The recordings that a cleared history gives back are those of its rows.
pub proof fn lemma_recordings(rows: Seq<HistoryItem>, n: int, path: Seq<char>)
    requires
        0 <= n <= rows.len(),
    ensures
        state::recordings(rows, n).contains(path) <==> exists|i: int|
            0 <= i < n && (#[trigger] rows[i]).audio_path is Some && rows[i].audio_path->0@ == path,
        state::recordings(rows, n).len() <= n,
    decreases n,
{
    if n > 0 {
        lemma_recordings(rows, n - 1, path);
        let prior = state::recordings(rows, n - 1);
        if let Some(p) = rows[n - 1].audio_path {
            let all = prior.push(p@);
            assert(all.last() == p@);
            if prior.contains(path) {
                let k = choose|k: int| 0 <= k < prior.len() && prior[k] == path;
                assert(all[k] == path);
            }
            if all.contains(path) && !prior.contains(path) {
                let k = choose|k: int| 0 <= k < all.len() && all[k] == path;
                if k < prior.len() {
                    assert(prior[k] == path);
                }
                assert(rows[n - 1].audio_path->0@ == path);
            }
        }
    }
}

/// The last text is that of the newest row.
pub proof fn lemma_last_text(row: HistoryItem, rows: Seq<HistoryItem>)
    ensures
        row.text@.len() > 0 ==> state::newest_text(seq![row] + rows) == Some(row.text@),
        row.text@.len() == 0 ==> state::newest_text(seq![row] + rows) is None,
        state::newest_text(Seq::<HistoryItem>::empty()) is None,
{
    assert((seq![row] + rows)[0] == row);
}

/// A take that starts is live and belongs to who started it; one that stops is not.
pub proof fn lemma_live(before: AppState, live: AppState, after: AppState, by_hotkey: bool)
    requires
        state::is_started(before, live, by_hotkey),
        state::is_stopped(live, after),
    ensures
        live.recording,
        live.hotkey_owned == by_hotkey,
        !after.recording,
        !after.hotkey_owned,
        live.history == before.history && after.history == before.history,
        live.stats == before.stats && after.stats == before.stats,
        live.settings == before.settings && after.settings == before.settings,
        live.transcribing == before.transcribing && after.transcribing == before.transcribing,
{
}

/// Deleting a row takes it out and moves the later ones up; the ledger stays.
pub proof fn lemma_deleted(before: AppState, after: AppState, index: int)
    requires
        0 <= index < before.history@.len(),
        state::is_deleted(before, after, index),
    ensures
        after.history@.len() == before.history@.len() - 1,
        forall|i: int| 0 <= i < index ==> #[trigger] after.history@[i] == before.history@[i],
        forall|i: int|
            index <= i < after.history@.len() ==> #[trigger] after.history@[i] == before.history@[i
                + 1],
        after.stats == before.stats,
        after.settings == before.settings,
{
}

/// Settings that were at the top left move to the bottom center; any other pose
/// stays, and so does all that is not the pose or the talk key.
pub proof fn lemma_migrated(before: Settings, after: Settings, platform: Platform)
    requires
        state::is_migrated(before, after, platform),
    ensures
        before.overlay_edge@ == "top"@ && before.overlay_offset == 0 ==> after.overlay_edge@
            == "bottom"@ && after.overlay_offset == -1,
        before.overlay_edge@ != "top"@ || before.overlay_offset != 0 ==> after.overlay_edge@
            == before.overlay_edge@ && after.overlay_offset == before.overlay_offset,
        after.model_id@ == before.model_id@,
        after.language@ == before.language@,
        after.cleanup@ == before.cleanup@,
        after.auto_paste == before.auto_paste,
        after.llm_backend@ == before.llm_backend@,
        after.audio_backend@ == before.audio_backend@,
        after.onboarded == before.onboarded,
{
}

/// Stored settings are taken where their model is in the catalog; others are replaced
/// by those of a fresh install. They are stored again only for another talk key.
pub proof fn lemma_loaded(s: Settings, after: Settings, platform: Platform, r: bool)
    ensures
        state::is_loaded(None, after, platform, r) ==> settings::is_fresh(after, platform) && !r,
        state::is_loaded(Some(s), after, platform, r) && models::model_named(s.model_id@) is None
            ==> settings::is_fresh(after, platform) && !r,
        state::is_loaded(Some(s), after, platform, r) && models::model_named(s.model_id@) is Some
            ==> after.model_id@ == s.model_id@ && after.language@ == s.language@ && (r
            <==> after.hotkey_key@ != s.hotkey_key@),
{
}

/// A day is written with four digits of the year, two of the month and two of the day.
pub proof fn lemma_date_text(year: int, month: int, day: int)
    requires
        1000 <= year <= 9999,
        calendar::is_date(year, month, day),
    ensures
        ({
            let t = calendar::date_text(year, month, day);
            &&& t.len() == 10
            &&& t[4] == '-' && t[7] == '-'
            &&& session::value(t.take(4)) == year
            &&& session::value(t.subrange(5, 7)) == month
            &&& session::value(t.skip(8)) == day
        }),
{
    reveal_with_fuel(words::decimal, 5);
    reveal_with_fuel(session::value, 5);
    reveal_strlit("-");
    let y = words::decimal(year as nat);
    let m = calendar::padded(month as nat, 2);
    let d = calendar::padded(day as nat, 2);
    session::lemma_decimal_value(year as nat);
    assert(y.len() == 4);
    lemma_two_digits(month as nat);
    lemma_two_digits(day as nat);
    let t = calendar::date_text(year, month, day);
    assert(t =~= y + "-"@ + m + "-"@ + d);
    assert(t.take(4) =~= y);
    assert(t.subrange(5, 7) =~= m);
    assert(t.skip(8) =~= d);
}

proof fn lemma_two_digits(n: nat)
    requires
        n < 100,
    ensures
        calendar::padded(n, 2).len() == 2,
        session::value(calendar::padded(n, 2)) == n,
{
    reveal_with_fuel(words::decimal, 3);
    session::lemma_decimal_value(n);
    let p = calendar::padded(n, 2);
    if n < 10 {
        assert(words::decimal(n).len() == 1);
        reveal_with_fuel(session::value, 3);
        assert(p =~= seq!['0', words::decimal(n)[0]]);
        assert(p.drop_last() =~= seq!['0']);
        assert(p.drop_last().drop_last() =~= Seq::empty());
        assert(words::decimal(n).drop_last() =~= Seq::empty());
    } else {
        assert(words::decimal(n).len() == 2);
    }
}

/// A ledger is empty until the first take.
pub proof fn lemma_empty(s: &UsageStats, r: bool)
    requires
        call_ensures(UsageStats::is_empty, (s,), r),
    ensures
        s.lifetime_dictations > 0 ==> !r,
        s.by_day@.len() > 0 ==> !r,
        s.lifetime_dictations == 0 && s.by_day@.len() == 0 ==> r,
{
}

/// Rows of the current format are taken as they are, before any plain texts; plain
/// texts become rows in their order, and are stored again.
pub proof fn lemma_history_loaded(
    before: Seq<HistoryItem>,
    after: Seq<HistoryItem>,
    rows: Option<Vec<HistoryItem>>,
    texts: Option<Vec<String>>,
    r: bool,
    i: int,
)
    requires
        state::is_history_loaded(before, after, rows, texts, r),
    ensures
        rows matches Some(v) ==> after == v@ && !r,
        rows is None ==> (texts matches Some(t) ==> r && after.len() == t@.len() && (0 <= i
            < after.len() ==> after[i].text@ == t@[i]@ && after[i].date_unix == 0)),
        rows is None && texts is None ==> after == before && !r,
{
    if let Some(t) = texts {
        if rows is None && 0 <= i < after.len() {
            assert(state::is_plain_row(after[i], t@[i]@));
        }
    }
}

} // verus!
