//! Calendar dates of Unix times, in the proleptic Gregorian calendar.
use crate::text::{
    comes_before, decimal, decimal_text, digit, order_before_a_suffix, order_behind_a_prefix, order_is_total, zero_pad, zero_padded,
};
use vstd::prelude::*;

verus! {

/// Every fourth year, without the centuries that 400 does not divide.
pub open spec fn is_leap(year: int) -> bool {
    year % 4 == 0 && (year % 100 != 0 || year % 400 == 0)
}

/// The days of a year.
pub open spec fn year_len(year: int) -> int {
    if is_leap(year) {
        366
    } else {
        365
    }
}

/// The days of a month; January is month 1.
pub open spec fn month_len(year: int, month: int) -> int {
    if month == 2 {
        if is_leap(year) {
            29
        } else {
            28
        }
    } else if month == 4 || month == 6 || month == 9 || month == 11 {
        30
    } else {
        31
    }
}

/// The days from the start of 1970 to the start of `year`.
pub open spec fn days_before_year(year: int) -> int
    decreases year,
{
    if year <= 1970 {
        0
    } else {
        days_before_year(year - 1) + year_len(year - 1)
    }
}

/// The days from the start of `year` to the start of `month`.
pub open spec fn days_before_month(year: int, month: int) -> int
    decreases month,
{
    if month <= 1 {
        0
    } else {
        days_before_month(year, month - 1) + month_len(year, month - 1)
    }
}

/// A date from 1970 on.
pub open spec fn is_date(year: int, month: int, day: int) -> bool {
    1970 <= year && 1 <= month <= 12 && 1 <= day <= month_len(year, month)
}

/// The days from 1970-01-01 to a date.
pub open spec fn day_number(year: int, month: int, day: int) -> int {
    days_before_year(year) + days_before_month(year, month) + day - 1
}

/// `YYYY-MM-DD HH:MM`, for a date and the seconds since its midnight.
pub open spec fn stamp(year: int, month: int, day: int, seconds: int) -> Seq<char> {
    zero_padded(decimal(year as nat), 4) + seq!['-'] + zero_padded(decimal(month as nat), 2) + seq!['-']
        + zero_padded(decimal(day as nat), 2) + seq![' '] + zero_padded(decimal((seconds / 3600) as nat), 2)
        + seq![':'] + zero_padded(decimal((seconds % 3600 / 60) as nat), 2)
}

/// The date that lies this many days behind 1970-01-01.
pub open spec fn date_of(days: int) -> (int, int, int) {
    choose|year: int, month: int, day: int| is_date(year, month, day) && #[trigger] day_number(year, month, day) == days
}

/// `YYYY-MM-DD HH:MM` in UTC, from Unix seconds.
pub open spec fn utc_text(seconds: int) -> Seq<char> {
    let (year, month, day) = date_of(seconds / 86400);
    stamp(year, month, day, seconds % 86400)
}

/// How many leap years there are from year 1 up to and without `year`.
spec fn leaps_before(year: int) -> int {
    (year - 1) / 4 - (year - 1) / 100 + (year - 1) / 400
}

proof fn days_before_year_closed(year: int)
    requires
        year >= 1970,
    ensures
        days_before_year(year) == 365 * (year - 1970) + leaps_before(year) - 477,
    decreases year,
{
    if year > 1970 {
        days_before_year_closed(year - 1);
        leap_step(year - 1);
    }
}

proof fn leap_step(year: int)
    requires
        year >= 1,
    ensures
        leaps_before(year + 1) == leaps_before(year) + if is_leap(year) { 1int } else { 0int },
{
    assert(year / 4 == (year - 1) / 4 + if year % 4 == 0 { 1int } else { 0int });
    assert(year / 100 == (year - 1) / 100 + if year % 100 == 0 { 1int } else { 0int });
    assert(year / 400 == (year - 1) / 400 + if year % 400 == 0 { 1int } else { 0int });
    assert(year % 400 == 0 ==> year % 100 == 0);
    assert(year % 100 == 0 ==> year % 4 == 0);
}

/// Year 1 + 400e + 100c + 4q + a starts 146097e + 36524c + 1461q + 365a days after year 1.
proof fn year_start(e: int, c: int, q: int, a: int)
    requires
        0 <= e,
        0 <= c < 4,
        0 <= q < 25,
        0 <= a < 4,
        400 * e + 100 * c + 4 * q + a + 1 >= 1970,
    ensures
        days_before_year(400 * e + 100 * c + 4 * q + a + 1) == 146097 * e + 36524 * c + 1461 * q + 365 * a - 719162,
        is_leap(400 * e + 100 * c + 4 * q + a + 1) <==> a == 3 && (q != 24 || c == 3),
{
    let y = 400 * e + 100 * c + 4 * q + a;
    days_before_year_closed(y + 1);
    assert(y / 4 == 100 * e + 25 * c + q);
    assert(y / 100 == 4 * e + c);
    assert(y / 400 == e);
    assert((y + 1) % 4 == 0 <==> a == 3);
    assert((y + 1) % 100 == 0 <==> q == 24 && a == 3);
    assert((y + 1) % 400 == 0 <==> c == 3 && q == 24 && a == 3);
}

proof fn days_before_month_is_monotone(year: int, a: int, b: int)
    requires
        1 <= a <= b,
    ensures
        days_before_month(year, a) <= days_before_month(year, b),
    decreases b,
{
    if a < b {
        days_before_month_is_monotone(year, a, b - 1);
    }
}

proof fn days_before_year_is_monotone(a: int, b: int)
    requires
        a <= b,
    ensures
        days_before_year(a) <= days_before_year(b),
    decreases b - a,
{
    if a < b {
        days_before_year_is_monotone(a, b - 1);
    }
}

proof fn twelve_months(year: int)
    ensures
        days_before_month(year, 13) == year_len(year),
{
    reveal_with_fuel(days_before_month, 13);
}

proof fn day_number_within_year(year: int, month: int, day: int)
    requires
        is_date(year, month, day),
    ensures
        days_before_year(year) <= day_number(year, month, day) < days_before_year(year + 1),
        day_number(year, month, day) < days_before_year(year) + days_before_month(year, month + 1),
{
    days_before_month_is_monotone(year, 1, month);
    days_before_month_is_monotone(year, month + 1, 13);
    twelve_months(year);
}

/// No two dates have the same day number.
pub proof fn day_number_is_injective(y1: int, m1: int, d1: int, y2: int, m2: int, d2: int)
    requires
        is_date(y1, m1, d1),
        is_date(y2, m2, d2),
        day_number(y1, m1, d1) == day_number(y2, m2, d2),
    ensures
        y1 == y2,
        m1 == m2,
        d1 == d2,
{
    day_number_within_year(y1, m1, d1);
    day_number_within_year(y2, m2, d2);
    if y1 < y2 {
        days_before_year_is_monotone(y1 + 1, y2);
    } else if y2 < y1 {
        days_before_year_is_monotone(y2 + 1, y1);
    } else if m1 < m2 {
        days_before_month_is_monotone(y1, m1 + 1, m2);
    } else if m2 < m1 {
        days_before_month_is_monotone(y1, m2 + 1, m1);
    }
}

/// The days of a month.
fn month_days(leap: bool, month: u64, Ghost(year): Ghost<int>) -> (days: u64)
    requires
        leap == is_leap(year),
    ensures
        days == month_len(year, month as int),
{
    if month == 2 {
        if leap {
            29
        } else {
            28
        }
    } else if month == 4 || month == 6 || month == 9 || month == 11 {
        30
    } else {
        31
    }
}

/// `YYYY-MM-DD HH:MM` in UTC, from Unix seconds.
pub fn utc(seconds: u64) -> (text: String)
    ensures
        text@ == utc_text(seconds as int),
        exists|year: int, month: int, day: int|
            is_date(year, month, day) && #[trigger] day_number(year, month, day) == seconds as int / 86400
                && text@ == stamp(year, month, day, seconds as int % 86400),
{
    // Whole cycles of 400, 100, 4 and 1 years since the start of year 1.
    let days: u64 = seconds / 86400 + 719162;
    let e: u64 = days / 146097;
    let in_cycle: u64 = days % 146097;
    let c: u64 = if in_cycle / 36524 > 3 { 3 } else { in_cycle / 36524 };
    let in_century: u64 = in_cycle - 36524 * c;
    let q: u64 = in_century / 1461;
    let in_four: u64 = in_century % 1461;
    let a: u64 = if in_four / 365 > 3 { 3 } else { in_four / 365 };
    let year: u64 = 400 * e + 100 * c + 4 * q + a + 1;
    let leap: bool = a == 3 && (q != 24 || c == 3);
    let mut rest: u64 = in_four - 365 * a;
    proof {
        assert(days == 146097 * e + 36524 * c + 1461 * q + 365 * a + rest);
        assert(year >= 1970);
        year_start(e as int, c as int, q as int, a as int);
        twelve_months(year as int);
        assert(rest < year_len(year as int));
    }
    let mut month: u64 = 1;
    let mut length: u64 = month_days(leap, month, Ghost(year as int));
    while rest >= length
        invariant
            leap == is_leap(year as int),
            1 <= month <= 12,
            length == month_len(year as int, month as int),
            days_before_month(year as int, month as int) + rest == in_four - 365 * a,
            in_four - 365 * a < days_before_month(year as int, 13),
        decreases rest,
    {
        rest = rest - length;
        month = month + 1;
        length = month_days(leap, month, Ghost(year as int));
    }
    let day: u64 = rest + 1;
    let clock: u64 = seconds % 86400;
    let mut text = zero_pad(decimal_text(year).as_str(), 4);
    text.push('-');
    text.append(zero_pad(decimal_text(month).as_str(), 2).as_str());
    text.push('-');
    text.append(zero_pad(decimal_text(day).as_str(), 2).as_str());
    text.push(' ');
    text.append(zero_pad(decimal_text(clock / 3600).as_str(), 2).as_str());
    text.push(':');
    text.append(zero_pad(decimal_text(clock % 3600 / 60).as_str(), 2).as_str());
    proof {
        assert(day_number(year as int, month as int, day as int) == seconds as int / 86400);
        assert(text@ =~= stamp(year as int, month as int, day as int, seconds as int % 86400));
        let (y, m, d) = date_of(seconds as int / 86400);
        day_number_is_injective(y, m, d, year as int, month as int, day as int);
    }
    text
}

/// The first second of the year 10000.
pub open spec fn year_10000() -> int {
    253_402_300_800
}

/// The value of a decimal digit.
pub open spec fn digit_value(c: char) -> int {
    c as int - '0' as int
}

/// The number in the digits of a text from `start` up to and without `end`.
pub open spec fn number_in(text: Seq<char>, start: int, end: int) -> int
    decreases end - start,
{
    if start >= end {
        0
    } else {
        10 * number_in(text, start, end - 1) + digit_value(text[end - 1])
    }
}

/// Whether a text has digits from `start` up to and without `end`.
pub open spec fn has_digits(text: Seq<char>, start: int, end: int) -> bool {
    forall|i: int| start <= i < end ==> '0' <= #[trigger] text[i] <= '9'
}

/// Whether a text has the form `YYYY-MM-DD HH:MM`.
pub open spec fn is_stamp(text: Seq<char>) -> bool {
    &&& text.len() == 16
    &&& has_digits(text, 0, 4) && text[4] == '-'
    &&& has_digits(text, 5, 7) && text[7] == '-'
    &&& has_digits(text, 8, 10) && text[10] == ' '
    &&& has_digits(text, 11, 13) && text[13] == ':'
    &&& has_digits(text, 14, 16)
}

/// The Unix seconds of a text of the form `YYYY-MM-DD HH:MM`, read as UTC.
pub open spec fn stamp_seconds(text: Seq<char>) -> int {
    86400 * day_number(number_in(text, 0, 4), number_in(text, 5, 7), number_in(text, 8, 10)) + 3600 * number_in(text, 11, 13) + 60
        * number_in(text, 14, 16)
}

/// Every day from 1970-01-01 on has a date.
proof fn every_day_has_a_date(days: int) -> (date: (int, int, int))
    requires
        days >= 0,
    ensures
        is_date(date.0, date.1, date.2),
        day_number(date.0, date.1, date.2) == days,
    decreases days,
{
    if days == 0 {
        (1970, 1, 1)
    } else {
        let (year, month, day) = every_day_has_a_date(days - 1);
        if day < month_len(year, month) {
            (year, month, day + 1)
        } else if month < 12 {
            (year, month + 1, 1)
        } else {
            twelve_months(year);
            (year + 1, 1, 1)
        }
    }
}

/// The date of a day before the year 10000.
proof fn date_before_10000(days: int)
    requires
        0 <= days < 2_932_897,
    ensures
        is_date(date_of(days).0, date_of(days).1, date_of(days).2),
        day_number(date_of(days).0, date_of(days).1, date_of(days).2) == days,
        date_of(days).0 < 10000,
{
    let (y, m, d) = every_day_has_a_date(days);
    assert(is_date(y, m, d) && day_number(y, m, d) == days);
    let (year, month, day) = date_of(days);
    if year >= 10000 {
        days_before_year_is_monotone(10000, year);
        days_before_year_closed(10000);
        day_number_within_year(year, month, day);
    }
}

/// Two digits of a number below 100.
spec fn two_digits(value: int) -> Seq<char> {
    seq![digit(value / 10), digit(value % 10)]
}

/// Four digits of a number below 10000.
spec fn four_digits(value: int) -> Seq<char> {
    two_digits(value / 100) + two_digits(value % 100)
}

proof fn two_digits_are_padded(value: int)
    requires
        0 <= value < 100,
    ensures
        zero_padded(decimal(value as nat), 2) == two_digits(value),
{
    reveal_with_fuel(decimal, 2);
    assert(zero_padded(decimal(value as nat), 2) =~= two_digits(value));
}

proof fn four_digits_are_padded(value: int)
    requires
        1000 <= value < 10000,
    ensures
        zero_padded(decimal(value as nat), 4) == four_digits(value),
{
    reveal_with_fuel(decimal, 4);
    assert(value / 10 / 10 == value / 100 && value / 10 / 10 / 10 == value / 100 / 10);
    assert(value / 10 % 10 == value % 100 / 10 && value % 100 % 10 == value % 10);
    assert(zero_padded(decimal(value as nat), 4) =~= four_digits(value));
}

proof fn digits_are_digits(value: int)
    requires
        0 <= value < 10,
    ensures
        '0' <= digit(value) <= '9',
        digit_value(digit(value)) == value,
{
}

/// The date and the clock of a time, each part in its digits.
spec fn spelled(year: int, month: int, day: int, hour: int, minute: int) -> Seq<char> {
    four_digits(year) + (seq!['-'] + (two_digits(month) + (seq!['-'] + (two_digits(day) + (seq![' '] + (two_digits(hour) + (seq![':']
        + two_digits(minute))))))))
}

/// Five parts and the marks between them, joined from the left or from the right.
proof fn parts_are_joined(a: Seq<char>, b: Seq<char>, c: Seq<char>, d: Seq<char>, e: Seq<char>)
    ensures
        a + seq!['-'] + b + seq!['-'] + c + seq![' '] + d + seq![':'] + e == a + (seq!['-'] + (b + (seq!['-'] + (c + (seq![' '] + (d + (
        seq![':'] + e))))))),
{
    assert(a + seq!['-'] + b + seq!['-'] + c + seq![' '] + d + seq![':'] + e =~= a + (seq!['-'] + (b + (seq!['-'] + (c + (seq![' '] + (d
        + (seq![':'] + e))))))));
}

/// The text of a time before the year 10000, spelled out.
proof fn utc_is_spelled(seconds: int)
    requires
        0 <= seconds < year_10000(),
    ensures
        ({
            let (year, month, day) = date_of(seconds / 86400);
            let clock = seconds % 86400;
            &&& is_date(year, month, day)
            &&& day_number(year, month, day) == seconds / 86400
            &&& year < 10000
            &&& utc_text(seconds) == spelled(year, month, day, clock / 3600, clock % 3600 / 60)
        }),
{
    date_before_10000(seconds / 86400);
    let (year, month, day) = date_of(seconds / 86400);
    let clock = seconds % 86400;
    four_digits_are_padded(year);
    two_digits_are_padded(month);
    two_digits_are_padded(day);
    two_digits_are_padded(clock / 3600);
    two_digits_are_padded(clock % 3600 / 60);
    parts_are_joined(
        four_digits(year),
        two_digits(month),
        two_digits(day),
        two_digits(clock / 3600),
        two_digits(clock % 3600 / 60),
    );
}

/// A spelled time has the form of one, and its numbers are those that it was spelled of.
proof fn spelled_reads_back(year: int, month: int, day: int, hour: int, minute: int)
    requires
        0 <= year < 10000,
        0 <= month < 100,
        0 <= day < 100,
        0 <= hour < 100,
        0 <= minute < 100,
    ensures
        is_stamp(spelled(year, month, day, hour, minute)),
        number_in(spelled(year, month, day, hour, minute), 0, 4) == year,
        number_in(spelled(year, month, day, hour, minute), 5, 7) == month,
        number_in(spelled(year, month, day, hour, minute), 8, 10) == day,
        number_in(spelled(year, month, day, hour, minute), 11, 13) == hour,
        number_in(spelled(year, month, day, hour, minute), 14, 16) == minute,
{
    let text = spelled(year, month, day, hour, minute);
    assert forall|value: int| 0 <= value < 10 implies '0' <= #[trigger] digit(value) <= '9' && digit_value(digit(value)) == value by {
        digits_are_digits(value);
    }
    assert(text.len() == 16);
    assert(text[0] == digit(year / 100 / 10) && text[1] == digit(year / 100 % 10));
    assert(text[2] == digit(year % 100 / 10) && text[3] == digit(year % 100 % 10));
    assert(text[5] == digit(month / 10) && text[6] == digit(month % 10));
    assert(text[8] == digit(day / 10) && text[9] == digit(day % 10));
    assert(text[11] == digit(hour / 10) && text[12] == digit(hour % 10));
    assert(text[14] == digit(minute / 10) && text[15] == digit(minute % 10));
    assert(text[4] == '-' && text[7] == '-' && text[10] == ' ' && text[13] == ':');
    reveal_with_fuel(number_in, 5);
}

/// The days, hours and minutes of a time add up to it, to the minute.
proof fn clock_adds_up(seconds: int)
    requires
        0 <= seconds,
    ensures
        0 <= seconds % 86400 / 3600 < 24,
        0 <= seconds % 86400 % 3600 / 60 < 60,
        86400 * (seconds / 86400) + 3600 * (seconds % 86400 / 3600) + 60 * (seconds % 86400 % 3600 / 60) == seconds - seconds % 60,
{
    let clock = seconds % 86400;
    assert(3600 * (clock / 3600) + 60 * (clock % 3600 / 60) == clock - clock % 60);
    assert(clock % 60 == seconds % 60);
}

/// The text of a time before the year 10000 has the form `YYYY-MM-DD HH:MM`, names a real date, and reads
/// back as that time, to the minute.
pub proof fn times_read_back(seconds: int)
    requires
        0 <= seconds < year_10000(),
    ensures
        is_stamp(utc_text(seconds)),
        is_date(number_in(utc_text(seconds), 0, 4), number_in(utc_text(seconds), 5, 7), number_in(utc_text(seconds), 8, 10)),
        number_in(utc_text(seconds), 11, 13) < 24,
        number_in(utc_text(seconds), 14, 16) < 60,
        stamp_seconds(utc_text(seconds)) == seconds - seconds % 60,
{
    utc_is_spelled(seconds);
    let (year, month, day) = date_of(seconds / 86400);
    let clock = seconds % 86400;
    spelled_reads_back(year, month, day, clock / 3600, clock % 3600 / 60);
    clock_adds_up(seconds);
}

proof fn two_digits_are_ordered(a: int, b: int)
    requires
        0 <= a < b < 100,
    ensures
        comes_before(two_digits(a), two_digits(b)),
{
    let (x, y) = (two_digits(a), two_digits(b));
    digits_are_digits(a / 10);
    digits_are_digits(b / 10);
    digits_are_digits(a % 10);
    digits_are_digits(b % 10);
    assert(x[0] == digit(a / 10) && y[0] == digit(b / 10));
    if a / 10 == b / 10 {
        assert(x.skip(1)[0] == digit(a % 10) && y.skip(1)[0] == digit(b % 10));
        assert(comes_before(x.skip(1), y.skip(1)));
    }
}

proof fn four_digits_are_ordered(a: int, b: int)
    requires
        0 <= a < b < 10000,
    ensures
        comes_before(four_digits(a), four_digits(b)),
{
    if a / 100 < b / 100 {
        two_digits_are_ordered(a / 100, b / 100);
        order_before_a_suffix(two_digits(a / 100), two_digits(b / 100), two_digits(a % 100), two_digits(b % 100));
    } else {
        two_digits_are_ordered(a % 100, b % 100);
        order_behind_a_prefix(two_digits(a / 100), two_digits(a % 100), two_digits(b % 100));
    }
}

/// Two digits and what follows are ordered as the numbers, and where these are equal, as what follows.
proof fn parts_are_ordered(a: int, b: int, x: Seq<char>, y: Seq<char>, mark: char)
    requires
        0 <= a <= b < 100,
        a == b ==> comes_before(x, y),
    ensures
        comes_before(seq![mark] + (two_digits(a) + x), seq![mark] + (two_digits(b) + y)),
{
    if a < b {
        two_digits_are_ordered(a, b);
        order_before_a_suffix(two_digits(a), two_digits(b), x, y);
    } else {
        order_behind_a_prefix(two_digits(a), x, y);
    }
    order_behind_a_prefix(seq![mark], two_digits(a) + x, two_digits(b) + y);
}

/// An earlier day has an earlier date.
proof fn dates_are_ordered(y1: int, m1: int, d1: int, y2: int, m2: int, d2: int)
    requires
        is_date(y1, m1, d1),
        is_date(y2, m2, d2),
        day_number(y1, m1, d1) < day_number(y2, m2, d2),
    ensures
        y1 < y2 || y1 == y2 && (m1 < m2 || m1 == m2 && d1 < d2),
{
    day_number_within_year(y1, m1, d1);
    day_number_within_year(y2, m2, d2);
    if y2 < y1 {
        days_before_year_is_monotone(y2 + 1, y1);
    } else if y1 == y2 && m2 < m1 {
        days_before_month_is_monotone(y1, m2 + 1, m1);
    }
}

proof fn spelled_is_ordered(y1: int, m1: int, d1: int, h1: int, n1: int, y2: int, m2: int, d2: int, h2: int, n2: int)
    requires
        0 <= y1 <= y2 < 10000,
        0 <= m1 < 100 && 0 <= m2 < 100,
        0 <= d1 < 100 && 0 <= d2 < 100,
        0 <= h1 < 100 && 0 <= h2 < 100,
        0 <= n1 < 100 && 0 <= n2 < 100,
        y1 == y2 ==> m1 < m2 || m1 == m2 && (d1 < d2 || d1 == d2 && (h1 < h2 || h1 == h2 && n1 < n2)),
    ensures
        comes_before(spelled(y1, m1, d1, h1, n1), spelled(y2, m2, d2, h2, n2)),
{
    let minutes = |n: int| seq![':'] + two_digits(n);
    let hours = |h: int, n: int| seq![' '] + (two_digits(h) + minutes(n));
    let days = |d: int, h: int, n: int| seq!['-'] + (two_digits(d) + hours(h, n));
    let months = |m: int, d: int, h: int, n: int| seq!['-'] + (two_digits(m) + days(d, h, n));
    if y1 < y2 {
        four_digits_are_ordered(y1, y2);
        order_before_a_suffix(four_digits(y1), four_digits(y2), months(m1, d1, h1, n1), months(m2, d2, h2, n2));
    } else {
        if m1 == m2 {
            if d1 == d2 {
                if h1 == h2 {
                    two_digits_are_ordered(n1, n2);
                    order_behind_a_prefix(seq![':'], two_digits(n1), two_digits(n2));
                }
                parts_are_ordered(h1, h2, minutes(n1), minutes(n2), ' ');
            }
            parts_are_ordered(d1, d2, hours(h1, n1), hours(h2, n2), '-');
        }
        parts_are_ordered(m1, m2, days(d1, h1, n1), days(d2, h2, n2), '-');
        order_behind_a_prefix(four_digits(y1), months(m1, d1, h1, n1), months(m2, d2, h2, n2));
    }
}

/// The texts of times before the year 10000 are ordered as the times are, and are equal only for times of
/// the same minute.
pub proof fn texts_order_as_times(a: int, b: int)
    requires
        0 <= a <= b < year_10000(),
    ensures
        utc_text(a) == utc_text(b) <==> a / 60 == b / 60,
        a / 60 < b / 60 ==> comes_before(utc_text(a), utc_text(b)),
{
    utc_is_spelled(a);
    utc_is_spelled(b);
    let (y1, m1, d1) = date_of(a / 86400);
    let (y2, m2, d2) = date_of(b / 86400);
    let (s, t) = (a % 86400, b % 86400);
    assert(a / 60 == 1440 * (a / 86400) + s / 60 && b / 60 == 1440 * (b / 86400) + t / 60);
    assert(s / 60 == 60 * (s / 3600) + s % 3600 / 60 && t / 60 == 60 * (t / 3600) + t % 3600 / 60);
    if a / 60 < b / 60 {
        if a / 86400 < b / 86400 {
            dates_are_ordered(y1, m1, d1, y2, m2, d2);
        } else {
            day_number_is_injective(y1, m1, d1, y2, m2, d2);
        }
        spelled_is_ordered(y1, m1, d1, s / 3600, s % 3600 / 60, y2, m2, d2, t / 3600, t % 3600 / 60);
        order_is_total(utc_text(a), utc_text(b));
    } else {
        assert(a / 86400 == b / 86400 && s / 3600 == t / 3600);
    }
}

/// Four centuries have 146097 days, wherever they start.
pub proof fn the_calendar_repeats(year: int)
    requires
        year >= 1970,
    ensures
        days_before_year(year + 400) == days_before_year(year) + 146097,
{
    days_before_year_closed(year);
    days_before_year_closed(year + 400);
    assert((year + 399) / 4 == (year - 1) / 4 + 100);
    assert((year + 399) / 100 == (year - 1) / 100 + 4);
    assert((year + 399) / 400 == (year - 1) / 400 + 1);
}

/// The lengths of the months, of which February alone depends on the year.
pub proof fn months_have_their_lengths(year: int, month: int)
    requires
        1 <= month <= 12,
    ensures
        month_len(year, month) == 31 <==> month == 1 || month == 3 || month == 5 || month == 7 || month == 8 || month == 10 || month == 12,
        month_len(year, month) == 30 <==> month == 4 || month == 6 || month == 9 || month == 11,
        month_len(year, 2) == 29 <==> year % 400 == 0 || year % 4 == 0 && year % 100 != 0,
        month_len(year, 2) == 28 || month_len(year, 2) == 29,
{
}

/// The day after a day is the next one of the month, the first of the next month, or the first of the next
/// year.
pub proof fn days_follow_each_other(year: int, month: int, day: int)
    requires
        is_date(year, month, day),
    ensures
        day < month_len(year, month) ==> day_number(year, month, day + 1) == day_number(year, month, day) + 1,
        day == month_len(year, month) && month < 12 ==> day_number(year, month + 1, 1) == day_number(year, month, day) + 1,
        day == 31 && month == 12 ==> day_number(year + 1, 1, 1) == day_number(year, month, day) + 1,
        day_number(1970, 1, 1) == 0,
{
    twelve_months(year);
    reveal_with_fuel(days_before_month, 2);
}

} // verus!
