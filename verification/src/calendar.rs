//! The Gregorian calendar, by the number of days since 1970-01-01.

use crate::chars;
use crate::words;
use vstd::prelude::*;
use vstd::string::*;

verus! {

pub open spec fn is_leap(year: int) -> bool {
    year % 4 == 0 && (year % 100 != 0 || year % 400 == 0)
}

/// The days of a month.
pub open spec fn month_len(year: int, month: int) -> int {
    if month == 2 {
        if is_leap(year) {
            29
        } else {
            28
        }
    } else if month == 4 || month == 6 || month == 9 || month == 11 {
        30
    } else {
        31
    }
}

/// The days of a year that come before a month.
pub open spec fn days_before_month(year: int, month: int) -> int
    decreases month,
{
    if month <= 1 {
        0
    } else {
        days_before_month(year, month - 1) + month_len(year, month - 1)
    }
}

/// The days from the start of year 1 to the start of a year.
pub open spec fn days_before_year(year: int) -> int {
    365 * (year - 1) + (year - 1) / 4 - (year - 1) / 100 + (year - 1) / 400
}

pub open spec fn is_date(year: int, month: int, day: int) -> bool {
    1 <= month <= 12 && 1 <= day <= month_len(year, month)
}

/// The days from 1970-01-01 to a date.
pub open spec fn day_number(year: int, month: int, day: int) -> int {
    days_before_year(year) + days_before_month(year, month) + day - 1 - days_before_year(1970)
}

/// A number in decimal, with leading zeros up to a width.
pub open spec fn padded(n: nat, width: nat) -> Seq<char> {
    let d = words::decimal(n);
    if d.len() < width {
        Seq::new((width - d.len()) as nat, |i: int| '0') + d
    } else {
        d
    }
}

/// A year: four digits, and a sign where it does not lie in 0 to 9999.
pub open spec fn year_text(year: int) -> Seq<char> {
    if year > 9999 {
        "+"@ + padded(year as nat, 4)
    } else if year < 0 {
        "-"@ + padded((-year) as nat, 4)
    } else {
        padded(year as nat, 4)
    }
}

/// A date as year, month and day with dashes.
pub open spec fn date_text(year: int, month: int, day: int) -> Seq<char> {
    year_text(year) + "-"@ + padded(month as nat, 2) + "-"@ + padded(day as nat, 2)
}

/// `text` is the date of a day.
pub open spec fn is_date_of(text: Seq<char>, number: int) -> bool {
    exists|year: int, month: int, day: int|
        is_date(year, month, day) && day_number(year, month, day) == number && text
            == #[trigger] date_text(year, month, day)
}

/// Four digits, a dash, two digits, a dash and two digits.
pub open spec fn is_day_key(s: Seq<char>) -> bool {
    &&& s.len() == 10
    &&& s[4] == '-'
    &&& s[7] == '-'
    &&& forall|i: int| #![trigger s[i]]
        0 <= i < 10 && i != 4 && i != 7 ==> chars::is_digit(s[i])
}

/// The months of a year follow each other without a gap, and a year has 365 days
/// or 366.
proof fn lemma_months(year: int, month: int)
    requires
        1 <= month <= 12,
    ensures
        days_before_month(year, month) >= 0,
        days_before_month(year, month) + month_len(year, month) <= 365 + (if is_leap(year) {
            1int
        } else {
            0
        }),
        forall|later: int| month < later <= 12 ==> days_before_month(year, month) + month_len(
            year,
            month,
        ) <= #[trigger] days_before_month(year, later),
{
    reveal_with_fuel(days_before_month, 13);
}

/// A multiple of `n` lies between two neighbours where the later is one.
proof fn lemma_one_more(year: int, n: int)
    requires
        n == 4 || n == 100 || n == 400,
    ensures
        year / n == (year - 1) / n + (if year % n == 0 {
            1int
        } else {
            0
        }),
{
    if n == 4 {
        assert(year / 4 == (year - 1) / 4 + (if year % 4 == 0 {
            1int
        } else {
            0
        }));
    } else if n == 100 {
        assert(year / 100 == (year - 1) / 100 + (if year % 100 == 0 {
            1int
        } else {
            0
        }));
    } else {
        assert(year / 400 == (year - 1) / 400 + (if year % 400 == 0 {
            1int
        } else {
            0
        }));
    }
}

/// A year starts when the one before it has ended.
pub proof fn lemma_next_year(year: int)
    ensures
        days_before_year(year + 1) == days_before_year(year) + 365 + (if is_leap(year) {
            1int
        } else {
            0
        }),
{
    lemma_one_more(year, 4);
    lemma_one_more(year, 100);
    lemma_one_more(year, 400);
    assert(year % 400 == 0 ==> year % 100 == 0);
    assert(year % 100 == 0 ==> year % 4 == 0);
}

/// Later years start later.
proof fn lemma_years(early: int, late: int)
    requires
        early < late,
    ensures
        days_before_year(early) + 365 + (if is_leap(early) {
            1int
        } else {
            0
        }) <= days_before_year(late),
    decreases late - early,
{
    lemma_next_year(late - 1);
    if early < late - 1 {
        lemma_years(early, late - 1);
    }
}

/// A date that is earlier by year, month and day is earlier by its number.
pub proof fn lemma_date_order(y: int, m: int, d: int, year: int, month: int, day: int)
    requires
        is_date(y, m, d),
        is_date(year, month, day),
        y < year || y == year && (m < month || m == month && d < day),
    ensures
        day_number(y, m, d) < day_number(year, month, day),
{
    lemma_months(y, m);
    lemma_months(year, month);
    if y < year {
        lemma_years(y, year);
    } else if m < month {
        assert(days_before_month(y, m) + month_len(y, m) <= days_before_month(y, month));
    }
}

/// A day has one date.
pub proof fn lemma_one_date(a: Seq<char>, b: Seq<char>, number: int)
    requires
        is_date_of(a, number),
        is_date_of(b, number),
    ensures
        a == b,
{
    let (y, m, d) = choose|y: int, m: int, d: int|
        is_date(y, m, d) && day_number(y, m, d) == number && a == #[trigger] date_text(y, m, d);
    let (year, month, day) = choose|year: int, month: int, day: int|
        is_date(year, month, day) && day_number(year, month, day) == number && b
            == #[trigger] date_text(year, month, day);
    if y < year || y == year && (m < month || m == month && d < day) {
        lemma_date_order(y, m, d, year, month, day);
    } else if !(y == year && m == month && d == day) {
        lemma_date_order(year, month, day, y, m, d);
    }
}

proof fn lemma_two_digits(n: nat)
    requires
        n < 100,
    ensures
        padded(n, 2) == seq![words::digit_char(n / 10), words::digit_char(n % 10)],
{
    reveal_with_fuel(words::decimal, 3);
    assert(padded(n, 2) =~= seq![words::digit_char(n / 10), words::digit_char(n % 10)]);
}

proof fn lemma_four_digits(n: nat)
    requires
        n < 10_000,
    ensures
        padded(n, 4) == seq![
            words::digit_char(n / 1000),
            words::digit_char(n / 100 % 10),
            words::digit_char(n / 10 % 10),
            words::digit_char(n % 10),
        ],
{
    reveal_with_fuel(words::decimal, 5);
    assert(padded(n, 4) =~= seq![
        words::digit_char(n / 1000),
        words::digit_char(n / 100 % 10),
        words::digit_char(n / 10 % 10),
        words::digit_char(n % 10),
    ]);
}

/// The date of a year of four digits, character by character.
proof fn lemma_plain_date(year: int, month: int, day: int)
    requires
        0 <= year <= 9999,
        is_date(year, month, day),
    ensures
        date_text(year, month, day) == seq![
            words::digit_char(year as nat / 1000),
            words::digit_char(year as nat / 100 % 10),
            words::digit_char(year as nat / 10 % 10),
            words::digit_char(year as nat % 10),
            '-',
            words::digit_char(month as nat / 10),
            words::digit_char(month as nat % 10),
            '-',
            words::digit_char(day as nat / 10),
            words::digit_char(day as nat % 10),
        ],
{
    reveal_strlit("-");
    lemma_four_digits(year as nat);
    lemma_two_digits(month as nat);
    lemma_two_digits(day as nat);
    assert(date_text(year, month, day) =~= seq![
        words::digit_char(year as nat / 1000),
        words::digit_char(year as nat / 100 % 10),
        words::digit_char(year as nat / 10 % 10),
        words::digit_char(year as nat % 10),
        '-',
        words::digit_char(month as nat / 10),
        words::digit_char(month as nat % 10),
        '-',
        words::digit_char(day as nat / 10),
        words::digit_char(day as nat % 10),
    ]);
}

/// A day from the start of year 0 to the end of year 9999 lies in such a year.
proof fn lemma_plain_year(year: int, month: int, day: int)
    requires
        is_date(year, month, day),
        day_number(0, 1, 1) <= day_number(year, month, day) < day_number(10_000, 1, 1),
    ensures
        0 <= year <= 9999,
{
    if year < 0 {
        lemma_date_order(year, month, day, 0, 1, 1);
    }
    if year > 10_000 {
        lemma_date_order(10_000, 1, 1, year, month, day);
    } else if year == 10_000 {
        lemma_months(year, month);
    }
}

/// The numbers of the first day of year 0 and of the first day behind year 9999.
pub proof fn lemma_plain_range()
    ensures
        day_number(0, 1, 1) == -719_528,
        day_number(10_000, 1, 1) == 2_932_897,
{
}

/// The dates of the years 0 to 9999 are day keys.
pub proof fn lemma_plain_shape(text: Seq<char>, number: int)
    requires
        is_date_of(text, number),
        day_number(0, 1, 1) <= number < day_number(10_000, 1, 1),
    ensures
        is_day_key(text),
{
    let (year, month, day) = choose|year: int, month: int, day: int|
        is_date(year, month, day) && day_number(year, month, day) == number && text
            == #[trigger] date_text(year, month, day);
    lemma_plain_year(year, month, day);
    lemma_plain_date(year, month, day);
}

/// Two texts that part at `i` are in the order of their characters there.
proof fn lemma_parts_at(a: Seq<char>, b: Seq<char>, i: int)
    requires
        0 <= i < a.len(),
        i < b.len(),
        forall|k: int| 0 <= k < i ==> a[k] == b[k],
        a[i] < b[i],
    ensures
        words::text_le(a, b),
        a != b,
    decreases i,
{
    if i > 0 {
        assert(a[0] == b[0]);
        let x = a.drop_first();
        let y = b.drop_first();
        assert forall|k: int| 0 <= k < i - 1 implies x[k] == y[k] by {
            assert(a[k + 1] == b[k + 1]);
        }
        lemma_parts_at(x, y, i - 1);
    }
}

/// Where the digits of two numbers part.
proof fn lemma_two_part(low: nat, high: nat) -> (i: int)
    requires
        low < high < 100,
    ensures
        0 <= i < 2,
        i == 1 ==> padded(low, 2)[0] == padded(high, 2)[0],
        padded(low, 2)[i] < padded(high, 2)[i],
{
    lemma_two_digits(low);
    lemma_two_digits(high);
    if low / 10 != high / 10 {
        0
    } else {
        1
    }
}

proof fn lemma_four_part(low: nat, high: nat) -> (i: int)
    requires
        low < high < 10_000,
    ensures
        0 <= i < 4,
        forall|k: int| 0 <= k < i ==> padded(low, 4)[k] == padded(high, 4)[k],
        padded(low, 4)[i] < padded(high, 4)[i],
{
    lemma_four_digits(low);
    lemma_four_digits(high);
    lemma_digits_add_up(low);
    lemma_digits_add_up(high);
    let (a, b) = (padded(low, 4), padded(high, 4));
    let (t, h, e) = (low / 1000, low / 100 % 10, low / 10 % 10);
    let (u, v, w) = (high / 1000, high / 100 % 10, high / 10 % 10);
    if t != u {
        assert(t < u);
        assert(a[0] < b[0]);
        0
    } else if h != v {
        assert(h < v);
        assert(a[0] == b[0] && a[1] < b[1]);
        1
    } else if e != w {
        assert(e < w);
        assert(a[0] == b[0] && a[1] == b[1] && a[2] < b[2]);
        2
    } else {
        assert(low % 10 < high % 10);
        assert(a[0] == b[0] && a[1] == b[1] && a[2] == b[2] && a[3] < b[3]);
        3
    }
}

proof fn lemma_digits_add_up(n: nat)
    requires
        n < 10_000,
    ensures
        n == 1000 * (n / 1000) + 100 * (n / 100 % 10) + 10 * (n / 10 % 10) + n % 10,
        n / 1000 <= 9,
        n / 100 % 10 <= 9,
        n / 10 % 10 <= 9,
        n % 10 <= 9,
{
    assert(n / 100 == n / 10 / 10);
    assert(n / 1000 == n / 100 / 10);
}

/// A date that is earlier by year, month and day has the lesser text.
proof fn lemma_earlier_text(y: int, m: int, d: int, year: int, month: int, day: int)
    requires
        is_date(y, m, d),
        is_date(year, month, day),
        0 <= y <= 9999,
        0 <= year <= 9999,
        y < year || y == year && (m < month || m == month && d < day),
    ensures
        words::text_le(date_text(y, m, d), date_text(year, month, day)),
        date_text(y, m, d) != date_text(year, month, day),
{
    reveal_strlit("-");
    let a = date_text(y, m, d);
    let b = date_text(year, month, day);
    lemma_four_digits(y as nat);
    lemma_four_digits(year as nat);
    lemma_two_digits(m as nat);
    lemma_two_digits(month as nat);
    lemma_two_digits(d as nat);
    lemma_two_digits(day as nat);
    if y < year {
        let i = lemma_four_part(y as nat, year as nat);
        assert(a[i] == padded(y as nat, 4)[i] && b[i] == padded(year as nat, 4)[i]);
        lemma_parts_at(a, b, i);
    } else if m < month {
        let i = lemma_two_part(m as nat, month as nat);
        assert(a[5 + i] == padded(m as nat, 2)[i] && b[5 + i] == padded(month as nat, 2)[i]);
        lemma_parts_at(a, b, 5 + i);
    } else {
        let i = lemma_two_part(d as nat, day as nat);
        assert(a[8 + i] == padded(d as nat, 2)[i] && b[8 + i] == padded(day as nat, 2)[i]);
        lemma_parts_at(a, b, 8 + i);
    }
}

/// In the years 0 to 9999 the dates of different days are different texts, and
/// the earlier day has the lesser one: days in the order of their keys are in the
/// order of time.
pub proof fn lemma_text_order(a: Seq<char>, b: Seq<char>, early: int, late: int)
    requires
        is_date_of(a, early),
        is_date_of(b, late),
        day_number(0, 1, 1) <= early < late < day_number(10_000, 1, 1),
    ensures
        words::text_le(a, b),
        a != b,
{
    let (y, m, d) = choose|y: int, m: int, d: int|
        is_date(y, m, d) && day_number(y, m, d) == early && a == #[trigger] date_text(y, m, d);
    let (year, month, day) = choose|year: int, month: int, day: int|
        is_date(year, month, day) && day_number(year, month, day) == late && b
            == #[trigger] date_text(year, month, day);
    lemma_plain_year(y, m, d);
    lemma_plain_year(year, month, day);
    if year < y || year == y && (month < m || month == m && day < d) {
        lemma_date_order(year, month, day, y, m, d);
    }
    lemma_earlier_text(y, m, d, year, month, day);
}

} // verus!
