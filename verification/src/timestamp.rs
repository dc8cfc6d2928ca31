use vstd::prelude::*;

verus! {

pub const NANOS_PER_SECOND: u64 = 1_000_000_000;

pub const SECONDS_PER_DAY: u64 = 86_400;

/// The number of days of 400 years, after which the calendar repeats.
pub const DAYS_PER_CYCLE: u64 = 146_097;

/// A day of the proleptic Gregorian calendar.
#[derive(Clone, Copy, Debug, PartialEq, Eq, Structural)]
pub struct CivilDate {
    pub year: u64,
    pub month: u8,
    pub day: u8,
}

/// Whether the year has a 29 February.
pub open spec fn is_leap_year(year: int) -> bool {
    year % 4 == 0 && (year % 100 != 0 || year % 400 == 0)
}

/// The number of days of a year.
pub open spec fn days_in_year(year: int) -> int {
    if is_leap_year(year) {
        366
    } else {
        365
    }
}

/// The number of days of a month, counted from 1 for January.
pub open spec fn days_in_month(year: int, month: int) -> int {
    if month == 2 {
        if is_leap_year(year) {
            29
        } else {
            28
        }
    } else if month == 4 || month == 6 || month == 9 || month == 11 {
        30
    } else {
        31
    }
}

/// The number of days from 1 January 1970 to 1 January of `year`.
pub open spec fn days_before_year(year: int) -> int
    decreases year,
{
    if year <= 1970 {
        0
    } else {
        days_before_year(year - 1) + days_in_year(year - 1)
    }
}

/// The number of days from 1 January of `year` to the first of `month`.
pub open spec fn days_before_month(year: int, month: int) -> int
    decreases month,
{
    if month <= 1 {
        0
    } else {
        days_before_month(year, month - 1) + days_in_month(year, month - 1)
    }
}

/// A year from 1970 on, a month of it and a day of that month.
pub open spec fn is_date(year: int, month: int, day: int) -> bool {
    year >= 1970 && 1 <= month <= 12 && 1 <= day <= days_in_month(year, month)
}

/// The number of days from 1 January 1970 to the given day.
pub open spec fn day_number(year: int, month: int, day: int) -> int {
    days_before_year(year) + days_before_month(year, month) + day - 1
}

/// The year in which the day lies that comes `days` days after 1 January
/// of `year`.
pub open spec fn year_from(year: int, days: int) -> int
    decreases days,
{
    if days < days_in_year(year) {
        year
    } else {
        year_from(year + 1, days - days_in_year(year))
    }
}

/// The month in which the day lies that comes `days` days after the first
/// of `month`, within one year.
pub open spec fn month_from(year: int, month: int, days: int) -> int
    decreases 12 - month,
{
    if month >= 12 || days < days_in_month(year, month) {
        month
    } else {
        month_from(year, month + 1, days - days_in_month(year, month))
    }
}

/// The calendar day that comes `days` days after 1 January 1970, as year,
/// month and day of the month.
pub open spec fn date_of_day(days: int) -> (int, int, int) {
    let year = year_from(1970, days);
    let rest = days - days_before_year(year);
    let month = month_from(year, 1, rest);
    (year, month, rest - days_before_month(year, month) + 1)
}

/// The closed form of [`days_before_year`]: 365 days for each year and one
/// more for each leap year among them.
pub open spec fn days_before_year_closed(year: int) -> int {
    365 * (year - 1970) + (year - 1969) / 4 - (year - 1901) / 100 + (year - 1601) / 400
}

/// The closed form counts the days before a year, which are between 365
/// and 366 for each year since 1970.
pub proof fn lemma_days_before_year_closed(year: int)
    requires
        year >= 1970,
    ensures
        days_before_year(year) == days_before_year_closed(year),
        365 * (year - 1970) <= days_before_year(year) <= 366 * (year - 1970),
    decreases year,
{
    if year > 1970 {
        lemma_days_before_year_closed(year - 1);
        lemma_closed_step(year - 1);
    }
}

/// One year on, the closed form grows by the length of the year.
proof fn lemma_closed_step(year: int)
    requires
        year >= 1970,
    ensures
        days_before_year_closed(year + 1) == days_before_year_closed(year) + days_in_year(year),
{
    let a = (year - 1968) / 4 - (year - 1969) / 4;
    let b = (year - 1900) / 100 - (year - 1901) / 100;
    let c = (year - 1600) / 400 - (year - 1601) / 400;
    assert(a == if year % 4 == 0 { 1int } else { 0int });
    assert(b == if year % 100 == 0 { 1int } else { 0int });
    assert(c == if year % 400 == 0 { 1int } else { 0int });
    assert(year % 400 == 0 ==> year % 100 == 0);
    assert(year % 100 == 0 ==> year % 4 == 0);
    assert(days_in_year(year) == 365 + a - b + c);
}

/// The days before each month of a year, and that the months of a year
/// add up to the year.
pub proof fn lemma_days_before_month_values(year: int)
    ensures
        days_before_month(year, 1) == 0,
        days_before_month(year, 2) == 31,
        days_before_month(year, 3) == 31 + days_in_month(year, 2),
        days_before_month(year, 4) == 62 + days_in_month(year, 2),
        days_before_month(year, 5) == 92 + days_in_month(year, 2),
        days_before_month(year, 6) == 123 + days_in_month(year, 2),
        days_before_month(year, 7) == 153 + days_in_month(year, 2),
        days_before_month(year, 8) == 184 + days_in_month(year, 2),
        days_before_month(year, 9) == 215 + days_in_month(year, 2),
        days_before_month(year, 10) == 245 + days_in_month(year, 2),
        days_before_month(year, 11) == 276 + days_in_month(year, 2),
        days_before_month(year, 12) == 306 + days_in_month(year, 2),
        days_before_month(year, 13) == days_in_year(year),
{
    reveal_with_fuel(days_before_month, 14);
}

/// Searching for the year from 1970 on finds what searching from a later
/// year finds, as long as that year has begun by the day in question.
proof fn lemma_year_from_skip(year: int, days: int)
    requires
        year >= 1970,
        days_before_year(year) <= days,
    ensures
        year_from(1970, days) == year_from(year, days - days_before_year(year)),
    decreases year,
{
    if year > 1970 {
        lemma_year_from_skip(year - 1, days);
    }
}

/// The date of a day is a date, and it is that day's: [`date_of_day`]
/// inverts [`day_number`].
pub proof fn lemma_date_of_day(days: int)
    requires
        days >= 0,
    ensures
        ({
            let (year, month, day) = date_of_day(days);
            is_date(year, month, day) && day_number(year, month, day) == days
        }),
{
    lemma_year_from_bounds(1970, days);
    let year = year_from(1970, days);
    let rest = days - days_before_year(year);
    lemma_days_before_month_values(year);
    lemma_month_from_bounds(year, 1, rest);
}

proof fn lemma_year_from_bounds(year: int, days: int)
    requires
        year >= 1970,
        days >= 0,
    ensures
        year_from(year, days) >= year,
        days_before_year(year_from(year, days)) - days_before_year(year) <= days,
        days < days_before_year(year_from(year, days) + 1) - days_before_year(year),
    decreases days,
{
    if days >= days_in_year(year) {
        lemma_year_from_bounds(year + 1, days - days_in_year(year));
    }
}

proof fn lemma_month_from_bounds(year: int, month: int, days: int)
    requires
        1 <= month <= 12,
        0 <= days < days_before_month(year, 13) - days_before_month(year, month),
    ensures
        month <= month_from(year, month, days) <= 12,
        days_before_month(year, month_from(year, month, days)) - days_before_month(year, month)
            <= days,
        days < days_before_month(year, month_from(year, month, days) + 1) - days_before_month(
            year,
            month,
        ),
    decreases 12 - month,
{
    lemma_days_before_month_values(year);
    if !(month >= 12 || days < days_in_month(year, month)) {
        lemma_month_from_bounds(year, month + 1, days - days_in_month(year, month));
    }
}

/// Two dates with the same day number are the same date.
pub proof fn lemma_day_number_injective(y1: int, m1: int, d1: int, y2: int, m2: int, d2: int)
    requires
        is_date(y1, m1, d1),
        is_date(y2, m2, d2),
        day_number(y1, m1, d1) == day_number(y2, m2, d2),
    ensures
        y1 == y2 && m1 == m2 && d1 == d2,
{
    lemma_days_before_month_values(y1);
    lemma_days_before_month_values(y2);
    if y1 < y2 {
        lemma_days_before_year_monotonic(y1 + 1, y2);
    } else if y2 < y1 {
        lemma_days_before_year_monotonic(y2 + 1, y1);
    }
}

proof fn lemma_days_before_year_monotonic(y1: int, y2: int)
    requires
        y1 <= y2,
    ensures
        days_before_year(y1) <= days_before_year(y2),
    decreases y2 - y1,
{
    if y1 < y2 {
        lemma_days_before_year_monotonic(y1, y2 - 1);
    }
}

fn leap_year(year: u32) -> (r: bool)
    ensures
        r == is_leap_year(year as int),
{
    year % 4 == 0 && (year % 100 != 0 || year % 400 == 0)
}

fn month_length(year: u32, month: u8) -> (r: u64)
    ensures
        r == days_in_month(year as int, month as int),
{
    if month == 2 {
        if leap_year(year) {
            29
        } else {
            28
        }
    } else if month == 4 || month == 6 || month == 9 || month == 11 {
        30
    } else {
        31
    }
}

fn year_start(year: u32) -> (r: u64)
    requires
        1970 <= year <= 2400,
    ensures
        r == days_before_year(year as int),
{
    proof {
        lemma_days_before_year_closed(year as int);
    }
    let y: u64 = year as u64;
    365 * (y - 1970) + (y - 1969) / 4 - (y - 1901) / 100 + (y - 1601) / 400
}

/// The calendar repeats after 400 years: a year 400 years later begins
/// 146 097 days later and has months of the same lengths.
pub proof fn lemma_calendar_cycle(year: int, cycles: int)
    requires
        year >= 1970,
        cycles >= 0,
    ensures
        days_before_year(year + 400 * cycles) == days_before_year(year) + 146_097 * cycles,
        is_leap_year(year + 400 * cycles) == is_leap_year(year),
        forall|month: int|
            1 <= month <= 13 ==> #[trigger] days_before_month(year + 400 * cycles, month)
                == days_before_month(year, month),
{
    let later = year + 400 * cycles;
    lemma_days_before_year_closed(year);
    lemma_days_before_year_closed(later);
    assert((later - 1969) / 4 == (year - 1969) / 4 + 100 * cycles);
    assert((later - 1901) / 100 == (year - 1901) / 100 + 4 * cycles);
    assert((later - 1601) / 400 == (year - 1601) / 400 + cycles);
    assert(later % 4 == year % 4);
    assert(later % 100 == year % 100);
    assert(later % 400 == year % 400);
    lemma_days_before_month_values(year);
    lemma_days_before_month_values(later);
}

/// The calendar day that comes `days` days after 1 January 1970, for a
/// day of the first 400 years.
fn civil_within_cycle(days: u64) -> (r: CivilDate)
    requires
        days < 146_097,
    ensures
        (r.year as int, r.month as int, r.day as int) == date_of_day(days as int),
        1970 <= r.year <= 2370,
{
    let mut year: u32 = 1970 + (days / 366) as u32;
    proof {
        lemma_days_before_year_closed(year as int);
        lemma_date_of_day(days as int);
    }
    while year_start(year + 1) <= days
        invariant
            1970 <= year <= 1970 + days / 365,
            days < 146_097,
            days_before_year(year as int) <= days,
        decreases days - days_before_year(year as int),
    {
        year += 1;
        proof {
            lemma_days_before_year_closed(year as int);
        }
    }
    let mut rest: u64 = days - year_start(year);
    proof {
        lemma_year_from_skip(year as int, days as int);
        lemma_days_before_month_values(year as int);
    }
    let ghost total = rest as int;
    let mut month: u8 = 1;
    while rest >= month_length(year, month)
        invariant
            1 <= month <= 12,
            total < days_in_year(year as int),
            rest + days_before_month(year as int, month as int) == total,
            month_from(year as int, 1, total) == month_from(year as int, month as int, rest as int),
        decreases 12 - month,
    {
        proof {
            lemma_days_before_month_values(year as int);
        }
        rest -= month_length(year, month);
        month += 1;
    }
    CivilDate { year: year as u64, month, day: (rest + 1) as u8 }
}

/// The calendar day that comes `days` days after 1 January 1970.
pub fn civil_from_days(days: u64) -> (r: CivilDate)
    ensures
        (r.year as int, r.month as int, r.day as int) == date_of_day(days as int),
        is_date(r.year as int, r.month as int, r.day as int),
        day_number(r.year as int, r.month as int, r.day as int) == days,
{
    let cycles: u64 = days / DAYS_PER_CYCLE;
    let within = civil_within_cycle(days % DAYS_PER_CYCLE);
    let year: u64 = within.year + 400 * cycles;
    proof {
        let rest = (days % DAYS_PER_CYCLE) as int;
        lemma_date_of_day(rest);
        lemma_date_of_day(days as int);
        lemma_calendar_cycle(within.year as int, cycles as int);
        let (y, m, d) = date_of_day(days as int);
        assert(days_in_month(year as int, within.month as int) == days_in_month(
            within.year as int,
            within.month as int,
        ));
        assert(days == 146_097 * cycles + rest);
        assert(day_number(year as int, within.month as int, within.day as int) == days);
        lemma_day_number_injective(year as int, within.month as int, within.day as int, y, m, d);
    }
    CivilDate { year, month: within.month, day: within.day }
}

/// The character of a decimal digit.
pub open spec fn digit_char(digit: int) -> char {
    ((digit + 48) as u8) as char
}

/// The last `width` decimal digits of `n`, most significant first, with
/// leading zeros.
pub open spec fn decimal(n: nat, width: nat) -> Seq<char>
    decreases width,
{
    if width == 0 {
        Seq::<char>::empty()
    } else {
        decimal(n / 10, (width - 1) as nat).push(digit_char((n % 10) as int))
    }
}

/// A number written with `width` digits has `width` characters.
pub proof fn lemma_decimal_len(n: nat, width: nat)
    ensures
        decimal(n, width).len() == width,
    decreases width,
{
    if width > 0 {
        lemma_decimal_len(n / 10, (width - 1) as nat);
    }
}

/// The instant `ns` nanoseconds after the start of 1970 in UTC, written as
/// `YYYY-MM-DDThh:mm:ss.nnnnnnnnnZ`.
pub open spec fn iso8601_text(ns: u64) -> Seq<char> {
    let seconds = (ns as int) / 1_000_000_000;
    let nanos = (ns as int) % 1_000_000_000;
    let within = seconds % 86_400;
    let (year, month, day) = date_of_day(seconds / 86_400);
    let date = (decimal(year as nat, 4).push('-') + decimal(month as nat, 2)).push('-') + decimal(
        day as nat,
        2,
    );
    let time = ((date.push('T') + decimal((within / 3600) as nat, 2)).push(':') + decimal(
        (within % 3600 / 60) as nat,
        2,
    )).push(':') + decimal((within % 60) as nat, 2);
    (time.push('.') + decimal(nanos as nat, 9)).push('Z')
}

/// The text of an instant has 30 characters.
pub proof fn lemma_iso8601_len(ns: u64)
    ensures
        iso8601_text(ns).len() == 30,
{
    let seconds = (ns as int) / 1_000_000_000;
    let nanos = (ns as int) % 1_000_000_000;
    let within = seconds % 86_400;
    let (year, month, day) = date_of_day(seconds / 86_400);
    lemma_decimal_len(year as nat, 4);
    lemma_decimal_len(month as nat, 2);
    lemma_decimal_len(day as nat, 2);
    lemma_decimal_len((within / 3600) as nat, 2);
    lemma_decimal_len((within % 3600 / 60) as nat, 2);
    lemma_decimal_len((within % 60) as nat, 2);
    lemma_decimal_len(nanos as nat, 9);
}

/// Appends the last `width` decimal digits of `n` to `out`.
fn push_decimal(out: &mut String, n: u64, width: u8)
    ensures
        final(out)@ == old(out)@ + decimal(n as nat, width as nat),
    decreases width,
{
    if width > 0 {
        push_decimal(out, n / 10, width - 1);
        let digit: u8 = (n % 10) as u8;
        out.push((48 + digit) as char);
        assert(out@ =~= old(out)@ + decimal(n as nat, width as nat));
    } else {
        assert(out@ =~= old(out)@ + decimal(n as nat, width as nat));
    }
}

/// Writes a time, given in nanoseconds since the start of 1970 in UTC, as
/// an ISO 8601 text with nine fractional digits and a closing `Z`.
pub fn unix_nanos_to_iso8601(timestamp_ns: u64) -> (r: String)
    ensures
        r@ == iso8601_text(timestamp_ns),
{
    let seconds: u64 = timestamp_ns / NANOS_PER_SECOND;
    let nanos: u64 = timestamp_ns % NANOS_PER_SECOND;
    let within: u64 = seconds % SECONDS_PER_DAY;
    let date = civil_from_days(seconds / SECONDS_PER_DAY);
    let mut out = String::new();
    push_decimal(&mut out, date.year as u64, 4);
    assert(out@ =~= decimal(date.year as nat, 4));
    out.push('-');
    push_decimal(&mut out, date.month as u64, 2);
    out.push('-');
    push_decimal(&mut out, date.day as u64, 2);
    out.push('T');
    push_decimal(&mut out, within / 3600, 2);
    out.push(':');
    push_decimal(&mut out, within % 3600 / 60, 2);
    out.push(':');
    push_decimal(&mut out, within % 60, 2);
    out.push('.');
    push_decimal(&mut out, nanos, 9);
    out.push('Z');
    out
}

} // verus!
