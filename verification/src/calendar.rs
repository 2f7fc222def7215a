//! Calendar dates from Unix time.
//!
//! Dates are those of the Gregorian calendar, carried on before its
//! introduction, in UTC. Days are counted from the first of January 1970.

use crate::text::{
    all_digits, decimal, decimal_padded, digit_char, digits_value, is_digit,
    lemma_decimal_is_digits, to_decimal_padded,
};
use vstd::prelude::*;

verus! {

/// Whether February has a twenty-ninth day in a year.
pub open spec fn is_leap(year: int) -> bool {
    year % 4 == 0 && (year % 100 != 0 || year % 400 == 0)
}

/// How many days a month has.
pub open spec fn days_in_month(year: int, month: int) -> int {
    if month == 2 {
        if is_leap(year) {
            29
        } else {
            28
        }
    } else if month == 4 || month == 6 || month == 9 || month == 11 {
        30
    } else {
        31
    }
}

/// Whether the calendar has this date.
pub open spec fn is_date(year: int, month: int, day: int) -> bool {
    1 <= month <= 12 && 1 <= day <= days_in_month(year, month)
}

/// How many days of the year lie before a month.
pub open spec fn days_before_month(year: int, month: int) -> int
    decreases month,
{
    if month <= 1 {
        0
    } else {
        days_before_month(year, month - 1) + days_in_month(year, month - 1)
    }
}

/// How many days lie between the start of the year 0 and the start of a year:
/// 365 for each year, and one more for each leap year.
pub open spec fn days_before_year(year: int) -> int {
    365 * year + (year + 3) / 4 - (year + 99) / 100 + (year + 399) / 400
}

/// How many days a date lies behind the first of January 1970.
pub open spec fn day_number(year: int, month: int, day: int) -> int {
    days_before_year(year) + days_before_month(year, month) + (day - 1) - 719_528
}

/// The date that follows a date.
pub open spec fn next_date(year: int, month: int, day: int) -> (int, int, int) {
    if day < days_in_month(year, month) {
        (year, month, day + 1)
    } else if month < 12 {
        (year, month + 1, 1)
    } else {
        (year + 1, 1, 1)
    }
}

/// The count of days starts at the first of January 1970.
pub proof fn law_epoch()
    ensures
        day_number(1970, 1, 1) == 0,
{
}

/// The count of days goes up by one from each date to the next.
pub proof fn law_days_follow(year: int, month: int, day: int)
    requires
        is_date(year, month, day),
    ensures
        ({
            let next = next_date(year, month, day);
            &&& is_date(next.0, next.1, next.2)
            &&& day_number(next.0, next.1, next.2) == day_number(year, month, day) + 1
        }),
{
    lemma_year_length(year);
    lemma_months(year);
}

/// A count of days belongs to one date only.
pub proof fn law_one_date_per_day(
    year: int,
    month: int,
    day: int,
    year2: int,
    month2: int,
    day2: int,
)
    requires
        is_date(year, month, day),
        is_date(year2, month2, day2),
        day_number(year, month, day) == day_number(year2, month2, day2),
    ensures
        year == year2,
        month == month2,
        day == day2,
{
    lemma_months(year);
    lemma_months(year2);
    lemma_year_length(year);
    lemma_year_length(year2);
    if year < year2 {
        lemma_years_increase(year + 1, year2);
    }
    if year2 < year {
        lemma_years_increase(year2 + 1, year);
    }
}

proof fn lemma_years_increase(year: int, later: int)
    requires
        year <= later,
    ensures
        days_before_year(year) <= days_before_year(later),
    decreases later - year,
{
    if year < later {
        lemma_year_length(later - 1);
        lemma_years_increase(year, later - 1);
    }
}

proof fn lemma_year_length(year: int)
    ensures
        days_before_year(year + 1) == days_before_year(year) + 365 + (if is_leap(year) {
            1int
        } else {
            0int
        }),
{
    lemma_rounded_up(year);
    lemma_hundreds(year);
    assert((year + 4) / 4 == year / 4 + 1);
    assert((year + 100) / 100 == year / 100 + 1);
    assert((year + 400) / 400 == year / 400 + 1);
}

/// A year that four hundred divides is one that a hundred divides, and that is one
/// that four divides.
proof fn lemma_hundreds(year: int)
    ensures
        year % 400 == 0 ==> year % 100 == 0,
        year % 100 == 0 ==> year % 4 == 0,
{
    let c: int = year / 100;
    let e: int = year / 400;
    assert(year == 100 * c + year % 100);
    assert(year == 400 * e + year % 400);
}

/// The days before each month of a year, spelled out.
proof fn lemma_months(year: int)
    ensures
        ({
            let leap: int = if is_leap(year) {
                1
            } else {
                0
            };
            &&& days_before_month(year, 1) == 0
            &&& days_before_month(year, 2) == 31
            &&& days_before_month(year, 3) == 59 + leap
            &&& days_before_month(year, 4) == 90 + leap
            &&& days_before_month(year, 5) == 120 + leap
            &&& days_before_month(year, 6) == 151 + leap
            &&& days_before_month(year, 7) == 181 + leap
            &&& days_before_month(year, 8) == 212 + leap
            &&& days_before_month(year, 9) == 243 + leap
            &&& days_before_month(year, 10) == 273 + leap
            &&& days_before_month(year, 11) == 304 + leap
            &&& days_before_month(year, 12) == 334 + leap
        }),
{
    reveal_with_fuel(days_before_month, 13);
}

/// The days between the first of March of the year 0 and that of a year.
spec fn days_before_march(year: int) -> int {
    365 * year + year / 4 - year / 100 + year / 400
}

proof fn lemma_rounded_up(year: int)
    ensures
        year % 4 == 0 ==> (year + 3) / 4 == year / 4,
        year % 4 != 0 ==> (year + 3) / 4 == year / 4 + 1,
        year % 100 == 0 ==> (year + 99) / 100 == year / 100,
        year % 100 != 0 ==> (year + 99) / 100 == year / 100 + 1,
        year % 400 == 0 ==> (year + 399) / 400 == year / 400,
        year % 400 != 0 ==> (year + 399) / 400 == year / 400 + 1,
{
    let q: int = year / 4;
    let c: int = year / 100;
    let e: int = year / 400;
    assert(year == 4 * q + year % 4);
    assert(year == 100 * c + year % 100);
    assert(year == 400 * e + year % 400);
}

proof fn lemma_march(year: int)
    ensures
        days_before_march(year) + 60 == days_before_year(year) + 59 + (if is_leap(year) {
            1int
        } else {
            0int
        }),
        days_before_march(year) + 366 == days_before_year(year + 1),
{
    lemma_year_length(year);
    lemma_rounded_up(year);
    lemma_hundreds(year);
}

/// Within a year that starts in March, the month of a day: `mp` counts the
/// months from March, and `start` is the day on which the month starts.
proof fn lemma_month_of_year(doy: int, mp: int, start: int)
    requires
        0 <= doy <= 365,
        mp == (5 * doy + 2) / 153,
        start == (153 * mp + 2) / 5,
    ensures
        0 <= mp <= 11,
        start <= doy,
        mp == 0 ==> start == 0 && doy <= 30,
        mp == 1 ==> start == 31 && doy <= 60,
        mp == 2 ==> start == 61 && doy <= 91,
        mp == 3 ==> start == 92 && doy <= 121,
        mp == 4 ==> start == 122 && doy <= 152,
        mp == 5 ==> start == 153 && doy <= 183,
        mp == 6 ==> start == 184 && doy <= 213,
        mp == 7 ==> start == 214 && doy <= 244,
        mp == 8 ==> start == 245 && doy <= 274,
        mp == 9 ==> start == 275 && doy <= 305,
        mp == 10 ==> start == 306 && doy <= 336,
        mp == 11 ==> start == 337,
{
}

/// A year that starts in March, 400 of them to an era.
proof fn lemma_march_of_era(era: int, yoe: int)
    requires
        0 <= yoe <= 399,
    ensures
        days_before_march(yoe + era * 400) == 146_097 * era + (365 * yoe + yoe / 4 - yoe / 100),
        (yoe + 1) % 4 == 0 && ((yoe + 1) % 100 != 0 || yoe + 1 == 400) ==> is_leap(
            yoe + era * 400 + 1,
        ),
{
    let year: int = yoe + era * 400;
    assert(year / 4 == yoe / 4 + era * 100);
    assert(year / 100 == yoe / 100 + era * 4);
    assert(year / 400 == era);
    assert((year + 1) % 4 == (yoe + 1) % 4);
    assert((year + 1) % 100 == (yoe + 1) % 100);
    if yoe + 1 == 400 {
        assert((year + 1) % 400 == 0);
    }
}

/// Within 400 years that start in March, the year of a day.
proof fn lemma_year_of_era(doe: int, yoe: int)
    requires
        0 <= doe <= 146_096,
        yoe == (doe - doe / 1_460 + doe / 36_524 - doe / 146_096) / 365,
    ensures
        0 <= yoe <= 399,
        365 * yoe + yoe / 4 - yoe / 100 <= doe,
        doe - (365 * yoe + yoe / 4 - yoe / 100) <= 365,
        doe - (365 * yoe + yoe / 4 - yoe / 100) == 365 ==> (yoe + 1) % 4 == 0 && ((yoe + 1) % 100
            != 0 || yoe + 1 == 400),
{
    if doe == 146_096 {
        assert(yoe == 399);
    } else {
        let c: int = doe / 36_524;
        let r: int = doe - 36_524 * c;
        assert(0 <= c <= 3 && 0 <= r <= 36_523);
        let q: int = r / 1_461;
        let s: int = r - 1_461 * q;
        assert(0 <= q <= 24 && 0 <= s <= 1_460);
        let a: int = if s / 365 > 3 {
            3
        } else {
            s / 365
        };
        assert(0 <= s - 365 * a <= 365);
        assert(a < 3 ==> s - 365 * a <= 364);
        assert(doe == 1_460 * (25 * c + q) + (24 * c + q + s));
        let e: int = if 24 * c + q + s >= 1_460 {
            1
        } else {
            0
        };
        assert(doe / 1_460 == 25 * c + q + e);
        assert(doe / 146_096 == 0);
        let year: int = 100 * c + 4 * q + a;
        assert(doe - doe / 1_460 + doe / 36_524 == 365 * year + (s - 365 * a) - e);
        assert(0 <= (s - 365 * a) - e <= 364);
        assert(yoe == year);
        assert(yoe / 4 == 25 * c + q);
        assert(4 * q + a <= 99);
        assert(yoe / 100 == c);
    }
}

/// The civil date of a count of days since the first of January 1970, as
/// `(year, month, day)`.
pub fn civil_from_days(days: i64) -> (date: (i64, u32, u32))
    requires
        days <= i64::MAX - 719_468,
    ensures
        is_date(date.0 as int, date.1 as int, date.2 as int),
        day_number(date.0 as int, date.1 as int, date.2 as int) == days,
{
    let z: i64 = days + 719_468;
    let era: i64 = if z >= 0 {
        z / 146_097
    } else {
        (z - 146_096) / 146_097
    };
    assert(era == (z as int) / 146_097);
    let doe: u64 = (z - era * 146_097) as u64;
    let yoe: u64 = (doe - doe / 1_460 + doe / 36_524 - doe / 146_096) / 365;
    proof {
        lemma_year_of_era(doe as int, yoe as int);
    }
    let march_year: i64 = yoe as i64 + era * 400;
    let doy: u64 = doe - (365 * yoe + yoe / 4 - yoe / 100);
    let mp: u64 = (5 * doy + 2) / 153;
    proof {
        lemma_month_of_year(doy as int, mp as int, (153 * mp + 2) / 5);
    }
    let day: u32 = (doy - (153 * mp + 2) / 5 + 1) as u32;
    let month: u32 = (if mp < 10 {
        mp + 3
    } else {
        mp - 9
    }) as u32;
    let year: i64 = if month <= 2 {
        march_year + 1
    } else {
        march_year
    };
    proof {
        let y: int = march_year as int;
        lemma_march_of_era(era as int, yoe as int);
        lemma_march(y);
        lemma_months(year as int);
        assert(z == days_before_march(y) + doy);
    }
    (year, month, day)
}

/// The text of a moment as `YYYY-MM-DD_HH-MM-SS` in UTC.
pub open spec fn is_timestamp(text: Seq<char>, unix_seconds: u64) -> bool {
    let days = (unix_seconds / 86_400) as int;
    let rest = (unix_seconds % 86_400) as int;
    exists|year: int, month: int, day: int|
        #![trigger is_date(year, month, day)]
        {
            &&& is_date(year, month, day)
            &&& day_number(year, month, day) == days
            &&& year >= 0
            &&& text == timestamp(
                year as nat,
                month as nat,
                day as nat,
                (rest / 3_600) as nat,
                ((rest % 3_600) / 60) as nat,
                (rest % 60) as nat,
            )
        }
}

/// A date and a time of day as `YYYY-MM-DD_HH-MM-SS`.
pub open spec fn timestamp(
    year: nat,
    month: nat,
    day: nat,
    hour: nat,
    minute: nat,
    second: nat,
) -> Seq<char> {
    decimal_padded(year, 4) + seq!['-'] + decimal_padded(month, 2) + seq!['-'] + decimal_padded(
        day,
        2,
    ) + seq!['_'] + decimal_padded(hour, 2) + seq!['-'] + decimal_padded(minute, 2) + seq!['-']
        + decimal_padded(second, 2)
}

/// Whether a text holds nothing but digits, `-` and `_`.
pub open spec fn is_plain_name(text: Seq<char>) -> bool {
    forall|i: int|
        0 <= i < text.len() ==> is_digit(#[trigger] text[i]) || text[i] == '-' || text[i] == '_'
}

proof fn lemma_padded_is_plain(n: nat, width: nat)
    ensures
        is_plain_name(decimal_padded(n, width)),
{
    lemma_decimal_is_digits(n);
    let digits = decimal(n);
    let text = decimal_padded(n, width);
    assert forall|i: int| 0 <= i < text.len() implies is_digit(#[trigger] text[i]) by {
        let zeros: int = text.len() - digits.len();
        if i >= zeros {
            assert(text[i] == digits[i - zeros]);
        }
    }
}

/// The text of a moment can stand as the name of a file: it holds nothing but
/// digits, `-` and `_`.
pub proof fn law_timestamp_is_a_file_name(text: Seq<char>, unix_seconds: u64)
    requires
        is_timestamp(text, unix_seconds),
    ensures
        is_plain_name(text),
{
    let rest = (unix_seconds % 86_400) as int;
    let hour = (rest / 3_600) as nat;
    let minute = ((rest % 3_600) / 60) as nat;
    let second = (rest % 60) as nat;
    let (year, month, day) = choose|year: int, month: int, day: int|
        #![trigger is_date(year, month, day)]
        {
            &&& is_date(year, month, day)
            &&& year >= 0
            &&& text == timestamp(year as nat, month as nat, day as nat, hour, minute, second)
        };
    lemma_padded_is_plain(year as nat, 4);
    lemma_padded_is_plain(month as nat, 2);
    lemma_padded_is_plain(day as nat, 2);
    lemma_padded_is_plain(hour, 2);
    lemma_padded_is_plain(minute, 2);
    lemma_padded_is_plain(second, 2);
}

/// The first moment of the year 10000, in Unix time.
pub const YEAR_10000: u64 = 253_402_300_800;

/// Whether a text has the shape `dddd-dd-dd_dd-dd-dd`.
pub open spec fn is_timestamp_shape(text: Seq<char>) -> bool {
    &&& text.len() == 19
    &&& forall|i: int|
        0 <= i < 19 ==> if i == 4 || i == 7 || i == 13 || i == 16 {
            #[trigger] text[i] == '-'
        } else if i == 10 {
            text[i] == '_'
        } else {
            is_digit(text[i])
        }
}

/// Whether one text sorts before another: at the first place where they differ
/// its character is the smaller one.
pub open spec fn sorts_before(text: Seq<char>, other: Seq<char>) -> bool {
    exists|i: int|
        #![trigger text[i], other[i]]
        0 <= i < text.len() && i < other.len() && text.take(i) == other.take(i) && text[i]
            < other[i]
}

/// Up to the end of the year 9999 the texts of moments all have one shape, and
/// sort as the moments follow on each other. So no two of them are equal.
pub proof fn law_timestamps_sort_by_time(
    text: Seq<char>,
    unix_seconds: u64,
    later_text: Seq<char>,
    later: u64,
)
    requires
        is_timestamp(text, unix_seconds),
        is_timestamp(later_text, later),
        unix_seconds < later < YEAR_10000,
    ensures
        is_timestamp_shape(text),
        is_timestamp_shape(later_text),
        sorts_before(text, later_text),
        text != later_text,
{
    let (year, month, day) = lemma_date_of(text, unix_seconds);
    let (year2, month2, day2) = lemma_date_of(later_text, later);
    let rest = (unix_seconds % 86_400) as int;
    let rest2 = (later % 86_400) as int;
    if unix_seconds / 86_400 == later / 86_400 {
        law_one_date_per_day(year, month, day, year2, month2, day2);
    } else {
        lemma_dates_follow_days(year, month, day, year2, month2, day2);
    }
    lemma_texts_sort(
        (year as nat, month as nat, day as nat),
        ((rest / 3_600) as nat, ((rest % 3_600) / 60) as nat, (rest % 60) as nat),
        (year2 as nat, month2 as nat, day2 as nat),
        ((rest2 / 3_600) as nat, ((rest2 % 3_600) / 60) as nat, (rest2 % 60) as nat),
    );
    let i = choose|i: int|
        #![trigger text[i], later_text[i]]
        0 <= i < text.len() && i < later_text.len() && text.take(i) == later_text.take(i)
            && text[i] < later_text[i];
    assert(text[i] != later_text[i]);
}

/// Whether one triple of numbers comes before another.
spec fn is_earlier(a: (nat, nat, nat), b: (nat, nat, nat)) -> bool {
    a.0 < b.0 || (a.0 == b.0 && (a.1 < b.1 || (a.1 == b.1 && a.2 < b.2)))
}

/// Dates and times of day in four and two digits have one shape, and sort as
/// they follow on each other.
proof fn lemma_texts_sort(
    date: (nat, nat, nat),
    time: (nat, nat, nat),
    date2: (nat, nat, nat),
    time2: (nat, nat, nat),
)
    requires
        date.0 < 10_000 && date.1 < 100 && date.2 < 100,
        time.0 < 100 && time.1 < 100 && time.2 < 100,
        date2.0 < 10_000 && date2.1 < 100 && date2.2 < 100,
        time2.0 < 100 && time2.1 < 100 && time2.2 < 100,
        is_earlier(date, date2) || (date == date2 && is_earlier(time, time2)),
    ensures
        is_timestamp_shape(timestamp(date.0, date.1, date.2, time.0, time.1, time.2)),
        is_timestamp_shape(timestamp(date2.0, date2.1, date2.2, time2.0, time2.1, time2.2)),
        sorts_before(
            timestamp(date.0, date.1, date.2, time.0, time.1, time.2),
            timestamp(date2.0, date2.1, date2.2, time2.0, time2.1, time2.2),
        ),
{
    lemma_year_sorts(date.0, date2.0);
    lemma_field_sorts(date.1, date2.1);
    lemma_field_sorts(date.2, date2.2);
    lemma_field_sorts(time.0, time2.0);
    lemma_field_sorts(time.1, time2.1);
    lemma_field_sorts(time.2, time2.2);
    let (y, y2) = (decimal_padded(date.0, 4), decimal_padded(date2.0, 4));
    let (mo, mo2) = (decimal_padded(date.1, 2), decimal_padded(date2.1, 2));
    let (d, d2) = (decimal_padded(date.2, 2), decimal_padded(date2.2, 2));
    let (h, h2) = (decimal_padded(time.0, 2), decimal_padded(time2.0, 2));
    let (mi, mi2) = (decimal_padded(time.1, 2), decimal_padded(time2.1, 2));
    let (s, s2) = (decimal_padded(time.2, 2), decimal_padded(time2.2, 2));
    lemma_shape(y, mo, d, h, mi, s);
    lemma_shape(y2, mo2, d2, h2, mi2, s2);
    lemma_fields_sort(y, mo, d, h, mi, s, y2, mo2, d2, h2, mi2, s2);
}

/// Six fields with the marks between them.
spec fn with_marks(
    y: Seq<char>,
    mo: Seq<char>,
    d: Seq<char>,
    h: Seq<char>,
    mi: Seq<char>,
    s: Seq<char>,
) -> Seq<char> {
    y + seq!['-'] + mo + seq!['-'] + d + seq!['_'] + h + seq!['-'] + mi + seq!['-'] + s
}

proof fn lemma_shape(
    y: Seq<char>,
    mo: Seq<char>,
    d: Seq<char>,
    h: Seq<char>,
    mi: Seq<char>,
    s: Seq<char>,
)
    requires
        y.len() == 4,
        mo.len() == 2,
        d.len() == 2,
        h.len() == 2,
        mi.len() == 2,
        s.len() == 2,
        all_digits(y),
        all_digits(mo),
        all_digits(d),
        all_digits(h),
        all_digits(mi),
        all_digits(s),
    ensures
        is_timestamp_shape(with_marks(y, mo, d, h, mi, s)),
{
}

/// Texts sort by the first field in which they differ.
proof fn lemma_fields_sort(
    y: Seq<char>,
    mo: Seq<char>,
    d: Seq<char>,
    h: Seq<char>,
    mi: Seq<char>,
    s: Seq<char>,
    y2: Seq<char>,
    mo2: Seq<char>,
    d2: Seq<char>,
    h2: Seq<char>,
    mi2: Seq<char>,
    s2: Seq<char>,
)
    requires
        sorts_before(y, y2) || (y == y2 && (sorts_before(mo, mo2) || (mo == mo2 && (sorts_before(
            d,
            d2,
        ) || (d == d2 && (sorts_before(h, h2) || (h == h2 && (sorts_before(mi, mi2) || (mi == mi2
            && sorts_before(s, s2)))))))))),
    ensures
        sorts_before(with_marks(y, mo, d, h, mi, s), with_marks(y2, mo2, d2, h2, mi2, s2)),
{
    let dash = seq!['-'];
    let bar = seq!['_'];
    let none = Seq::<char>::empty();
    let text = with_marks(y, mo, d, h, mi, s);
    let text2 = with_marks(y2, mo2, d2, h2, mi2, s2);
    if sorts_before(y, y2) {
        let behind = dash + mo + dash + d + bar + h + dash + mi + dash + s;
        let behind2 = dash + mo2 + dash + d2 + bar + h2 + dash + mi2 + dash + s2;
        lemma_sorts_within(none, y, y2, behind, behind2);
        assert(text =~= none + y + behind);
        assert(text2 =~= none + y2 + behind2);
    } else if sorts_before(mo, mo2) {
        let behind = dash + d + bar + h + dash + mi + dash + s;
        let behind2 = dash + d2 + bar + h2 + dash + mi2 + dash + s2;
        lemma_sorts_within(y + dash, mo, mo2, behind, behind2);
        assert(text =~= y + dash + mo + behind);
        assert(text2 =~= y + dash + mo2 + behind2);
    } else if sorts_before(d, d2) {
        let behind = bar + h + dash + mi + dash + s;
        let behind2 = bar + h2 + dash + mi2 + dash + s2;
        let before = y + dash + mo + dash;
        lemma_sorts_within(before, d, d2, behind, behind2);
        assert(text =~= before + d + behind);
        assert(text2 =~= before + d2 + behind2);
    } else if sorts_before(h, h2) {
        let behind = dash + mi + dash + s;
        let behind2 = dash + mi2 + dash + s2;
        let before = y + dash + mo + dash + d + bar;
        lemma_sorts_within(before, h, h2, behind, behind2);
        assert(text =~= before + h + behind);
        assert(text2 =~= before + h2 + behind2);
    } else if sorts_before(mi, mi2) {
        let before = y + dash + mo + dash + d + bar + h + dash;
        lemma_sorts_within(before, mi, mi2, dash + s, dash + s2);
        assert(text =~= before + mi + (dash + s));
        assert(text2 =~= before + mi2 + (dash + s2));
    } else {
        let before = y + dash + mo + dash + d + bar + h + dash + mi + dash;
        lemma_sorts_within(before, s, s2, none, none);
        assert(text =~= before + s + none);
        assert(text2 =~= before + s2 + none);
    }
}

/// Texts that differ first in a stretch sort as the stretches do.
proof fn lemma_sorts_within(
    before: Seq<char>,
    text: Seq<char>,
    other: Seq<char>,
    behind: Seq<char>,
    other_behind: Seq<char>,
)
    requires
        sorts_before(text, other),
    ensures
        sorts_before(before + text + behind, before + other + other_behind),
{
    let i = choose|i: int|
        #![trigger text[i], other[i]]
        0 <= i < text.len() && i < other.len() && text.take(i) == other.take(i) && text[i]
            < other[i];
    let whole = before + text + behind;
    let whole2 = before + other + other_behind;
    let at: int = before.len() + i;
    assert(whole[at] == text[i]);
    assert(whole2[at] == other[i]);
    assert(whole.take(at) =~= before + text.take(i));
    assert(whole2.take(at) =~= before + other.take(i));
}

/// Whether a number has no more digits than this.
spec fn fits(n: nat, width: nat) -> bool
    decreases width,
{
    if width <= 1 {
        width == 1 && n < 10
    } else {
        fits(n / 10, (width - 1) as nat)
    }
}

/// A number is filled up to just as many digits as asked for where it fits, and
/// its last digit stands behind all others.
proof fn lemma_padded_digits(n: nat, width: nat)
    requires
        fits(n, width),
    ensures
        decimal_padded(n, width).len() == width,
        all_digits(decimal_padded(n, width)),
        width > 1 ==> decimal_padded(n, width) == decimal_padded(
            n / 10,
            (width - 1) as nat,
        ).push(digit_char(n % 10)),
        width == 1 ==> decimal_padded(n, width) == seq![digit_char(n)],
    decreases width,
{
    if width > 1 {
        let shorter = decimal_padded(n / 10, (width - 1) as nat);
        let text = decimal_padded(n, width);
        lemma_padded_digits(n / 10, (width - 1) as nat);
        assert(text =~= shorter.push(digit_char(n % 10)));
        assert forall|i: int| 0 <= i < text.len() implies is_digit(#[trigger] text[i]) by {
            if i < shorter.len() {
                assert(text[i] == shorter[i]);
            }
        }
    }
}

/// Numbers that are filled up to as many digits sort by size.
proof fn lemma_padded_sorts(n: nat, other: nat, width: nat)
    requires
        fits(n, width),
        fits(other, width),
        n < other,
    ensures
        sorts_before(decimal_padded(n, width), decimal_padded(other, width)),
    decreases width,
{
    lemma_padded_digits(n, width);
    lemma_padded_digits(other, width);
    let text = decimal_padded(n, width);
    let text2 = decimal_padded(other, width);
    if width > 1 && n / 10 < other / 10 {
        let less = (width - 1) as nat;
        lemma_padded_sorts(n / 10, other / 10, less);
        let none = Seq::<char>::empty();
        let last = seq![digit_char(n % 10)];
        let last2 = seq![digit_char(other % 10)];
        lemma_sorts_within(
            none,
            decimal_padded(n / 10, less),
            decimal_padded(other / 10, less),
            last,
            last2,
        );
        assert(text =~= none + decimal_padded(n / 10, less) + last);
        assert(text2 =~= none + decimal_padded(other / 10, less) + last2);
    } else {
        let at: int = width - 1;
        assert(text[at] < text2[at]);
        assert(text.take(at) =~= text2.take(at));
    }
}

proof fn lemma_year_sorts(n: nat, other: nat)
    requires
        n < 10_000,
        other < 10_000,
    ensures
        decimal_padded(n, 4).len() == 4,
        decimal_padded(other, 4).len() == 4,
        all_digits(decimal_padded(n, 4)),
        all_digits(decimal_padded(other, 4)),
        n < other ==> sorts_before(decimal_padded(n, 4), decimal_padded(other, 4)),
{
    reveal_with_fuel(fits, 5);
    lemma_padded_digits(n, 4);
    lemma_padded_digits(other, 4);
    if n < other {
        lemma_padded_sorts(n, other, 4);
    }
}

proof fn lemma_field_sorts(n: nat, other: nat)
    requires
        n < 100,
        other < 100,
    ensures
        decimal_padded(n, 2).len() == 2,
        decimal_padded(other, 2).len() == 2,
        all_digits(decimal_padded(n, 2)),
        all_digits(decimal_padded(other, 2)),
        n < other ==> sorts_before(decimal_padded(n, 2), decimal_padded(other, 2)),
{
    reveal_with_fuel(fits, 3);
    lemma_padded_digits(n, 2);
    lemma_padded_digits(other, 2);
    if n < other {
        lemma_padded_sorts(n, other, 2);
    }
}

/// The date in the text of a moment, which lies before the year 10000 where the
/// moment does.
proof fn lemma_date_of(text: Seq<char>, unix_seconds: u64) -> (date: (int, int, int))
    requires
        is_timestamp(text, unix_seconds),
        unix_seconds < YEAR_10000,
    ensures
        is_date(date.0, date.1, date.2),
        day_number(date.0, date.1, date.2) == (unix_seconds / 86_400) as int,
        0 <= date.0 < 10_000,
        ({
            let rest = (unix_seconds % 86_400) as int;
            text == timestamp(
                date.0 as nat,
                date.1 as nat,
                date.2 as nat,
                (rest / 3_600) as nat,
                ((rest % 3_600) / 60) as nat,
                (rest % 60) as nat,
            )
        }),
{
    let days = (unix_seconds / 86_400) as int;
    let rest = (unix_seconds % 86_400) as int;
    let (year, month, day) = choose|year: int, month: int, day: int|
        #![trigger is_date(year, month, day)]
        {
            &&& is_date(year, month, day)
            &&& day_number(year, month, day) == days
            &&& year >= 0
            &&& text == timestamp(
                year as nat,
                month as nat,
                day as nat,
                (rest / 3_600) as nat,
                ((rest % 3_600) / 60) as nat,
                (rest % 60) as nat,
            )
        };
    lemma_months(year);
    if year >= 10_000 {
        lemma_years_increase(10_000, year);
    }
    (year, month, day)
}

/// Of two days the earlier one has the earlier date.
proof fn lemma_dates_follow_days(
    year: int,
    month: int,
    day: int,
    year2: int,
    month2: int,
    day2: int,
)
    requires
        is_date(year, month, day),
        is_date(year2, month2, day2),
        day_number(year, month, day) < day_number(year2, month2, day2),
    ensures
        year < year2 || (year == year2 && (month < month2 || (month == month2 && day < day2))),
{
    lemma_months(year);
    lemma_months(year2);
    if year2 < year {
        lemma_year_length(year2);
        lemma_years_increase(year2 + 1, year);
    }
}

/// Unix time as `YYYY-MM-DD_HH-MM-SS` in UTC, fit for the name of a file.
pub fn format_utc_timestamp(unix_seconds: u64) -> (text: String)
    ensures
        is_timestamp(text@, unix_seconds),
{
    let days: i64 = (unix_seconds / 86_400) as i64;
    let rest: u64 = unix_seconds % 86_400;
    let (year, month, day): (i64, u32, u32) = civil_from_days(days);
    let hour: u64 = rest / 3_600;
    let minute: u64 = (rest % 3_600) / 60;
    let second: u64 = rest % 60;
    proof {
        lemma_not_before_epoch(year as int, month as int, day as int);
    }
    let mut text: String = to_decimal_padded(year as u64, 4);
    text.push('-');
    text.append(to_decimal_padded(month as u64, 2).as_str());
    text.push('-');
    text.append(to_decimal_padded(day as u64, 2).as_str());
    text.push('_');
    text.append(to_decimal_padded(hour, 2).as_str());
    text.push('-');
    text.append(to_decimal_padded(minute, 2).as_str());
    text.push('-');
    text.append(to_decimal_padded(second, 2).as_str());
    assert(text@ =~= timestamp(
        year as nat,
        month as nat,
        day as nat,
        hour as nat,
        minute as nat,
        second as nat,
    ));
    assert(is_date(year as int, month as int, day as int));
    text
}

proof fn lemma_not_before_epoch(year: int, month: int, day: int)
    requires
        is_date(year, month, day),
        day_number(year, month, day) >= 0,
    ensures
        year >= 1970,
{
    lemma_months(year);
    if year < 1970 {
        lemma_years_increase(year + 1, 1970);
        lemma_year_length(year);
    }
}

/// The text of a moment tells the moment: its year, month and day are a date, and
/// the days up to that, with the hours, the minutes and the seconds, are the time
/// that has gone by.
pub proof fn law_timestamp_tells_the_moment(unix_seconds: u64, name: String)
    requires
        call_ensures(format_utc_timestamp, (unix_seconds,), name),
        unix_seconds < YEAR_10000,
    ensures
        ({
            let text = name@;
            let year = digits_value(text.subrange(0, 4)) as int;
            let month = digits_value(text.subrange(5, 7)) as int;
            let day = digits_value(text.subrange(8, 10)) as int;
            let hour = digits_value(text.subrange(11, 13)) as int;
            let minute = digits_value(text.subrange(14, 16)) as int;
            let second = digits_value(text.subrange(17, 19)) as int;
            &&& is_timestamp_shape(text)
            &&& is_date(year, month, day)
            &&& hour < 24 && minute < 60 && second < 60
            &&& day_number(year, month, day) * 86_400 + hour * 3_600 + minute * 60 + second
                == unix_seconds
        }),
{
    let text = name@;
    let (year, month, day) = lemma_date_of(text, unix_seconds);
    let rest = (unix_seconds % 86_400) as int;
    let (hour, minute, second) = (rest / 3_600, (rest % 3_600) / 60, rest % 60);
    let y = decimal_padded(year as nat, 4);
    let mo = decimal_padded(month as nat, 2);
    let d = decimal_padded(day as nat, 2);
    let h = decimal_padded(hour as nat, 2);
    let mi = decimal_padded(minute as nat, 2);
    let s = decimal_padded(second as nat, 2);
    lemma_year_sorts(year as nat, year as nat);
    lemma_field_sorts(month as nat, day as nat);
    lemma_field_sorts(hour as nat, minute as nat);
    lemma_field_sorts(second as nat, second as nat);
    lemma_shape(y, mo, d, h, mi, s);
    lemma_padded_values(year as nat, month as nat, day as nat);
    lemma_padded_values(0, hour as nat, minute as nat);
    lemma_padded_values(0, second as nat, second as nat);
    lemma_fields_stand_apart(y, mo, d, h, mi, s);
}

proof fn lemma_fields_stand_apart(
    y: Seq<char>,
    mo: Seq<char>,
    d: Seq<char>,
    h: Seq<char>,
    mi: Seq<char>,
    s: Seq<char>,
)
    requires
        y.len() == 4,
        mo.len() == 2,
        d.len() == 2,
        h.len() == 2,
        mi.len() == 2,
        s.len() == 2,
    ensures
        ({
            let text = with_marks(y, mo, d, h, mi, s);
            &&& text.subrange(0, 4) == y
            &&& text.subrange(5, 7) == mo
            &&& text.subrange(8, 10) == d
            &&& text.subrange(11, 13) == h
            &&& text.subrange(14, 16) == mi
            &&& text.subrange(17, 19) == s
        }),
{
    let text = with_marks(y, mo, d, h, mi, s);
    assert(text.subrange(0, 4) =~= y);
    assert(text.subrange(5, 7) =~= mo);
    assert(text.subrange(8, 10) =~= d);
    assert(text.subrange(11, 13) =~= h);
    assert(text.subrange(14, 16) =~= mi);
    assert(text.subrange(17, 19) =~= s);
}

proof fn lemma_padded_values(year: nat, field: nat, other: nat)
    requires
        year < 10_000,
        field < 100,
        other < 100,
    ensures
        digits_value(decimal_padded(year, 4)) == year,
        digits_value(decimal_padded(field, 2)) == field,
        digits_value(decimal_padded(other, 2)) == other,
{
    reveal_with_fuel(fits, 5);
    lemma_padded_value(year, 4);
    lemma_padded_value(field, 2);
    lemma_padded_value(other, 2);
}

/// A number that is filled up with zeros still stands for itself.
proof fn lemma_padded_value(n: nat, width: nat)
    requires
        fits(n, width),
    ensures
        digits_value(decimal_padded(n, width)) == n,
    decreases width,
{
    lemma_padded_digits(n, width);
    let none = Seq::<char>::empty();
    if width > 1 {
        let shorter = decimal_padded(n / 10, (width - 1) as nat);
        lemma_padded_value(n / 10, (width - 1) as nat);
        crate::text::law_digits_count_by_tens(shorter, digit_char(n % 10));
    } else {
        crate::text::law_digits_count_by_tens(none, digit_char(n));
        assert(none.push(digit_char(n)) =~= seq![digit_char(n)]);
    }
}

/// A year has 365 days, and one more every fourth year, but for three of four
/// hundredth ones: so 400 years have 146097 days.
pub proof fn law_length_of_years(year: int)
    ensures
        days_before_year(year + 400) == days_before_year(year) + 146_097,
        year % 4 != 0 ==> days_before_year(year + 1) == days_before_year(year) + 365,
        year % 4 == 0 && year % 100 != 0 ==> days_before_year(year + 1) == days_before_year(year)
            + 366,
        year % 100 == 0 && year % 400 != 0 ==> days_before_year(year + 1) == days_before_year(year)
            + 365,
        year % 400 == 0 ==> days_before_year(year + 1) == days_before_year(year) + 366,
        days_before_month(year, 12) + 31 == days_before_year(year + 1) - days_before_year(year),
{
    lemma_months(year);
    lemma_year_length(year);
}

/// The date of a number of days is the one that many days behind the first of
/// January 1970.
pub proof fn law_date_is_that_many_days_on(days: i64, date: (i64, u32, u32), next: (i64, u32, u32))
    requires
        call_ensures(civil_from_days, (days,), date),
        days < i64::MAX - 719_468,
        call_ensures(civil_from_days, ((days + 1) as i64,), next),
    ensures
        days == 0 ==> date == (1970i64, 1u32, 1u32),
        1 <= date.1 <= 12 && 1 <= date.2 <= 31,
        (next.0 as int, next.1 as int, next.2 as int) == next_date(
            date.0 as int,
            date.1 as int,
            date.2 as int,
        ),
{
    let (y, m, d) = (date.0 as int, date.1 as int, date.2 as int);
    law_days_follow(y, m, d);
    let after = next_date(y, m, d);
    law_one_date_per_day(
        next.0 as int,
        next.1 as int,
        next.2 as int,
        after.0,
        after.1,
        after.2,
    );
    if days == 0 {
        law_one_date_per_day(y, m, d, 1970, 1, 1);
    }
}

} // verus!
