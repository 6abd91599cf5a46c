//! Calendar dates as plain values: parsing and rendering of `YYYY-MM-DD`
//! names, day counting for retention windows, and day-by-day iteration for
//! history synchronization.
use vstd::prelude::*;

use crate::text;
use chrono::Datelike;

verus! {

/// A civil calendar date.
#[derive(Clone, Copy, Debug, PartialEq, Eq, Structural)]
pub struct Date {
    pub year: i64,
    pub month: u8,
    pub day: u8,
}

/// A leap year of the Gregorian calendar.
pub open spec fn is_leap_spec(y: int) -> bool {
    y % 4 == 0 && (y % 100 != 0 || y % 400 == 0)
}

/// Days in a month of a given year.
pub open spec fn days_in_month_spec(y: int, m: int) -> int {
    if m == 2 {
        if is_leap_spec(y) { 29 } else { 28 }
    } else if m == 4 || m == 6 || m == 9 || m == 11 {
        30
    } else {
        31
    }
}

impl Date {
    /// A well-formed date: month and day in range, year renderable with
    /// four digits.
    pub open spec fn wf(self) -> bool {
        &&& 1 <= self.year <= 9999
        &&& 1 <= self.month <= 12
        &&& 1 <= self.day <= days_in_month_spec(self.year as int, self.month as int)
    }
}

/// Days of the year before month `m` begins.
pub open spec fn days_before_month_spec(y: int, m: int) -> int {
    let plain: int = if m == 1 { 0 }
    else if m == 2 { 31 }
    else if m == 3 { 59 }
    else if m == 4 { 90 }
    else if m == 5 { 120 }
    else if m == 6 { 151 }
    else if m == 7 { 181 }
    else if m == 8 { 212 }
    else if m == 9 { 243 }
    else if m == 10 { 273 }
    else if m == 11 { 304 }
    else { 334 };
    if m > 2 && is_leap_spec(y) {
        plain + 1
    } else {
        plain
    }
}

/// Leap years strictly before year `y`.
pub open spec fn leaps_before_spec(y: int) -> int {
    (y - 1) / 4 - (y - 1) / 100 + (y - 1) / 400
}

/// A linear day count: equal dates have equal counts, later dates have
/// larger counts, and consecutive days differ by one.
pub open spec fn day_index_spec(d: Date) -> int {
    365 * d.year + leaps_before_spec(d.year as int) + days_before_month_spec(
        d.year as int,
        d.month as int,
    ) + d.day
}

/// `a` is on or before `b`.
pub open spec fn date_le_spec(a: Date, b: Date) -> bool {
    ||| a.year < b.year
    ||| (a.year == b.year && a.month < b.month)
    ||| (a.year == b.year && a.month == b.month && a.day <= b.day)
}

/// Whether `y` is a leap year.
pub fn is_leap(y: i64) -> (r: bool)
    requires
        y >= 0,
    ensures
        r == is_leap_spec(y as int),
{
    y % 4 == 0 && (y % 100 != 0 || y % 400 == 0)
}

/// Days in month `m` of year `y`.
pub fn days_in_month(y: i64, m: u8) -> (r: u8)
    requires
        y >= 0,
    ensures
        r == days_in_month_spec(y as int, m as int),
{
    if m == 2 {
        if is_leap(y) { 29 } else { 28 }
    } else if m == 4 || m == 6 || m == 9 || m == 11 {
        30
    } else {
        31
    }
}

/// The linear day count of a date.
pub fn day_index(d: &Date) -> (r: i64)
    requires
        d.wf(),
    ensures
        r == day_index_spec(*d),
{
    let y = d.year;
    let leaps = (y - 1) / 4 - (y - 1) / 100 + (y - 1) / 400;
    let before_month: i64 = {
        let m = d.month;
        let plain: i64 = if m == 1 { 0 }
        else if m == 2 { 31 }
        else if m == 3 { 59 }
        else if m == 4 { 90 }
        else if m == 5 { 120 }
        else if m == 6 { 151 }
        else if m == 7 { 181 }
        else if m == 8 { 212 }
        else if m == 9 { 243 }
        else if m == 10 { 273 }
        else if m == 11 { 304 }
        else { 334 };
        if m > 2 && is_leap(y) {
            plain + 1
        } else {
            plain
        }
    };
    365 * y + leaps + before_month + (d.day as i64)
}

/// `a` is on or before `b`.
pub fn date_le(a: &Date, b: &Date) -> (r: bool)
    ensures
        r == date_le_spec(*a, *b),
{
    a.year < b.year || (a.year == b.year && a.month < b.month) || (a.year == b.year && a.month
        == b.month && a.day <= b.day)
}

/// The day after `d` in the civil calendar.
pub open spec fn next_day_spec(d: Date) -> Date {
    if d.day < days_in_month_spec(d.year as int, d.month as int) {
        Date { year: d.year, month: d.month, day: (d.day + 1) as u8 }
    } else if d.month < 12 {
        Date { year: d.year, month: (d.month + 1) as u8, day: 1 }
    } else {
        Date { year: (d.year + 1) as i64, month: 1, day: 1 }
    }
}

/// Step one day forward.
pub fn next_day(d: &Date) -> (r: Date)
    requires
        d.wf(),
    ensures
        r == next_day_spec(*d),
        d.year < 9999 ==> r.wf(),
        r.year <= d.year + 1,
{
    if d.day < days_in_month(d.year, d.month) {
        Date { year: d.year, month: d.month, day: d.day + 1 }
    } else if d.month < 12 {
        Date { year: d.year, month: d.month + 1, day: 1 }
    } else {
        Date { year: d.year + 1, month: 1, day: 1 }
    }
}

/// A decimal digit.
pub open spec fn is_digit(c: char) -> bool {
    c == '0' || c == '1' || c == '2' || c == '3' || c == '4' || c == '5' || c == '6' || c == '7'
        || c == '8' || c == '9'
}

/// The value of a decimal digit.
pub open spec fn digit_val(c: char) -> int {
    if c == '0' { 0 }
    else if c == '1' { 1 }
    else if c == '2' { 2 }
    else if c == '3' { 3 }
    else if c == '4' { 4 }
    else if c == '5' { 5 }
    else if c == '6' { 6 }
    else if c == '7' { 7 }
    else if c == '8' { 8 }
    else { 9 }
}

fn digit_value(c: char) -> (r: Option<u8>)
    ensures
        is_digit(c) ==> (r matches Some(v) && v == digit_val(c)),
        !is_digit(c) ==> r is None,
{
    match c {
        '0' => Some(0),
        '1' => Some(1),
        '2' => Some(2),
        '3' => Some(3),
        '4' => Some(4),
        '5' => Some(5),
        '6' => Some(6),
        '7' => Some(7),
        '8' => Some(8),
        '9' => Some(9),
        _ => None,
    }
}

/// A ten-character `YYYY-MM-DD` name.
pub open spec fn is_date_seq(s: Seq<char>) -> bool {
    &&& s.len() == 10
    &&& is_digit(s[0]) && is_digit(s[1]) && is_digit(s[2]) && is_digit(s[3])
    &&& s[4] == '-'
    &&& is_digit(s[5]) && is_digit(s[6])
    &&& s[7] == '-'
    &&& is_digit(s[8]) && is_digit(s[9])
}

/// The date a `YYYY-MM-DD` name denotes.
pub open spec fn date_of_seq(s: Seq<char>) -> Date {
    Date {
        year: (1000 * digit_val(s[0]) + 100 * digit_val(s[1]) + 10 * digit_val(s[2]) + digit_val(
            s[3],
        )) as i64,
        month: (10 * digit_val(s[5]) + digit_val(s[6])) as u8,
        day: (10 * digit_val(s[8]) + digit_val(s[9])) as u8,
    }
}

/// Parse a `YYYY-MM-DD` name; the result is the denoted date exactly when
/// the name is in that shape and denotes a well-formed date.
pub fn parse_date(s: &str) -> (r: Option<Date>)
    ensures
        r matches Some(d) ==> is_date_seq(s@) && d == date_of_seq(s@) && d.wf(),
        r is None ==> !(is_date_seq(s@) && date_of_seq(s@).wf()),
{
    if s.unicode_len() != 10 {
        return None;
    }
    if s.get_char(4) != '-' || s.get_char(7) != '-' {
        return None;
    }
    let y0 = digit_value(s.get_char(0));
    let y1 = digit_value(s.get_char(1));
    let y2 = digit_value(s.get_char(2));
    let y3 = digit_value(s.get_char(3));
    let m0 = digit_value(s.get_char(5));
    let m1 = digit_value(s.get_char(6));
    let d0 = digit_value(s.get_char(8));
    let d1 = digit_value(s.get_char(9));
    match (y0, y1, y2, y3, m0, m1, d0, d1) {
        (Some(a), Some(b), Some(c), Some(d), Some(e), Some(f), Some(g), Some(h)) => {
            let year = 1000 * (a as i64) + 100 * (b as i64) + 10 * (c as i64) + (d as i64);
            let month = 10 * e + f;
            let day = 10 * g + h;
            let date = Date { year, month, day };
            if year >= 1 && 1 <= month && month <= 12 && 1 <= day && day <= days_in_month(
                year,
                month,
            ) {
                Some(date)
            } else {
                None
            }
        },
        _ => None,
    }
}

/// The `YYYY-MM-DD` rendering of a date.
pub open spec fn date_seq_of(d: Date) -> Seq<char> {
    text::dec_pad_of(d.year as nat, 4) + seq!['-'] + text::dec_pad_of(d.month as nat, 2)
        + seq!['-'] + text::dec_pad_of(d.day as nat, 2)
}

/// Render a date as `YYYY-MM-DD`.
pub fn date_to_string(d: &Date) -> (r: String)
    requires
        d.wf(),
    ensures
        r@ == date_seq_of(*d),
{
    proof {
        reveal_strlit("-");
    }
    let mut r = text::u64_to_string_pad(d.year as u64, 4);
    r.append("-");
    let m = text::u64_to_string_pad(d.month as u64, 2);
    r.append(m.as_str());
    r.append("-");
    let day = text::u64_to_string_pad(d.day as u64, 2);
    r.append(day.as_str());
    assert(r@ =~= date_seq_of(*d));
    r
}

/// The decimal digits recover their values.
proof fn lemma_digit_char_val(k: int)
    requires
        0 <= k < 10,
    ensures
        is_digit(text::digit_char(k)),
        digit_val(text::digit_char(k)) == k,
{
}

/// Two-digit zero-padded rendering, digit by digit.
proof fn lemma_dec_pad2(n: nat)
    requires
        n < 100,
    ensures
        text::dec_pad_of(n, 2) =~= seq![
            text::digit_char(n as int / 10),
            text::digit_char(n as int % 10),
        ],
{
    reveal_with_fuel(text::dec_pad_of, 3);
    reveal_with_fuel(text::dec_of, 3);
    text::lemma_dec_of_len(n);
    if n < 10 {
        assert(text::dec_pad_of(n, 2) =~= seq!['0'] + text::dec_of(n));
    } else {
        assert(text::dec_of(n) =~= text::dec_of(n / 10) + seq![text::digit_char(n as int % 10)]);
    }
}

/// Four-digit zero-padded rendering, digit by digit.
proof fn lemma_dec_pad4(n: nat)
    requires
        n < 10000,
    ensures
        text::dec_pad_of(n, 4) =~= seq![
            text::digit_char(n as int / 1000),
            text::digit_char((n as int / 100) % 10),
            text::digit_char((n as int / 10) % 10),
            text::digit_char(n as int % 10),
        ],
{
    reveal_with_fuel(text::dec_pad_of, 5);
    reveal_with_fuel(text::dec_of, 5);
    text::lemma_dec_of_len(n);
    assert((n as int / 10) / 10 == n as int / 100) by (nonlinear_arith);
    assert((n as int / 100) / 10 == n as int / 1000) by (nonlinear_arith);
    if n < 10 {
        assert(n as int / 1000 == 0 && (n as int / 100) % 10 == 0 && (n as int / 10) % 10 == 0);
        assert(text::dec_pad_of(n, 4) =~= seq!['0', '0', '0'] + text::dec_of(n));
    } else if n < 100 {
        assert(text::dec_of(n) =~= seq![
            text::digit_char((n as int / 10) % 10),
            text::digit_char(n as int % 10),
        ]);
        assert(text::dec_pad_of(n, 4) =~= seq!['0', '0'] + text::dec_of(n));
    } else if n < 1000 {
        assert(text::dec_of(n / 10) =~= seq![
            text::digit_char((n as int / 100) % 10),
            text::digit_char((n as int / 10) % 10),
        ]);
        assert(text::dec_of(n) =~= text::dec_of(n / 10) + seq![text::digit_char(n as int % 10)]);
        assert(text::dec_pad_of(n, 4) =~= seq!['0'] + text::dec_of(n));
    } else {
        assert(text::dec_of(n / 100) =~= seq![
            text::digit_char(n as int / 1000),
            text::digit_char((n as int / 100) % 10),
        ]);
        assert(text::dec_of(n / 10) =~= text::dec_of(n / 100) + seq![
            text::digit_char((n as int / 10) % 10),
        ]);
        assert(text::dec_of(n) =~= text::dec_of(n / 10) + seq![text::digit_char(n as int % 10)]);
    }
}

/// A date's rendered name always re-parses to the date itself: the
/// `YYYY-MM-DD` rendering of any well-formed date is in the shape the parser
/// demands and denotes that very date.
pub proof fn lemma_date_string_round_trip(d: Date)
    requires
        d.wf(),
    ensures
        is_date_seq(date_seq_of(d)),
        date_of_seq(date_seq_of(d)) == d,
{
    let y = d.year as int;
    let m = d.month as int;
    let day = d.day as int;
    lemma_dec_pad4(d.year as nat);
    lemma_dec_pad2(d.month as nat);
    lemma_dec_pad2(d.day as nat);
    let s = date_seq_of(d);
    assert(s =~= seq![
        text::digit_char(y / 1000),
        text::digit_char((y / 100) % 10),
        text::digit_char((y / 10) % 10),
        text::digit_char(y % 10),
        '-',
        text::digit_char(m / 10),
        text::digit_char(m % 10),
        '-',
        text::digit_char(day / 10),
        text::digit_char(day % 10),
    ]);
    lemma_digit_char_val(y / 1000);
    lemma_digit_char_val((y / 100) % 10);
    lemma_digit_char_val((y / 10) % 10);
    lemma_digit_char_val(y % 10);
    lemma_digit_char_val(m / 10);
    lemma_digit_char_val(m % 10);
    lemma_digit_char_val(day / 10);
    lemma_digit_char_val(day % 10);
    assert(1000 * (y / 1000) + 100 * ((y / 100) % 10) + 10 * ((y / 10) % 10) + y % 10 == y) by {
        assert(y / 100 == 10 * (y / 1000) + (y / 100) % 10);
        assert(y / 10 == 10 * (y / 100) + (y / 10) % 10);
        assert(y == 10 * (y / 10) + y % 10);
        assert((y / 10) / 10 == y / 100) by (nonlinear_arith);
        assert((y / 100) / 10 == y / 1000) by (nonlinear_arith);
    }
    assert(10 * (m / 10) + m % 10 == m);
    assert(10 * (day / 10) + day % 10 == day);
}

/// Relies on chrono::Utc::now and chrono::NaiveDate through the Datelike
/// accessors: the current civil date in UTC; its month and day are in the
/// calendar's ranges. The result depends on the clock, and chrono itself
/// aborts on a system clock set before the unix epoch.
#[verifier::external_body]
fn today_ymd() -> (r: (i64, u8, u8))
    ensures
        1 <= r.1 <= 12,
        1 <= r.2 <= 31,
{
    let today = chrono::Utc::now().date_naive();
    (today.year() as i64, today.month() as u8, today.day() as u8)
}

/// Relies on chrono::Utc::now and chrono::DateTime::timestamp: the current
/// unix time in seconds. The result depends on the clock, and chrono itself
/// aborts on a system clock set before the unix epoch.
#[verifier::external_body]
pub fn now_unix() -> (r: i64) {
    chrono::Utc::now().timestamp()
}

/// A clock reading as an unsigned second count: negative readings (before
/// the epoch) clamp to zero.
pub fn clamp_unix(now: i64) -> (r: u64)
    ensures
        r == if now > 0 { now as int } else { 0int },
{
    if now > 0 {
        now as u64
    } else {
        0
    }
}

/// The date a year, month and day denote: `Some` exactly when they form a
/// well-formed civil date this model can hold.
pub fn date_from_ymd(y: i64, m: u8, d: u8) -> (r: Option<Date>)
    ensures
        r is Some <==> (1 <= y <= 9999 && 1 <= m <= 12 && 1 <= d <= days_in_month_spec(
            y as int,
            m as int,
        )),
        r matches Some(dd) ==> dd == (Date { year: y, month: m, day: d }) && dd.wf(),
{
    if y >= 1 && y <= 9999 && m >= 1 && m <= 12 && d >= 1 && d <= days_in_month(y, m) {
        Some(Date { year: y, month: m, day: d })
    } else {
        None
    }
}

/// Today's date in UTC; `None` when the clock reports a date this model
/// cannot hold.
pub fn today_utc() -> (r: Option<Date>)
    ensures
        r matches Some(d) ==> d.wf(),
{
    let (year, month, day) = today_ymd();
    date_from_ymd(year, month, day)
}

/// Whether `d` lies more than `days` days before `today`.
pub fn date_older_than(d: &Date, today: &Date, days: i64) -> (r: bool)
    requires
        d.wf(),
        today.wf(),
        -36_600_000 <= days <= 36_600_000,
    ensures
        r == (day_index_spec(*today) - day_index_spec(*d) > days),
{
    let di = day_index(d);
    let ti = day_index(today);
    ti - di > days
}

} // verus!
