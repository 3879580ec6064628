use datetime::DatePiece;
use vstd::prelude::*;
use crate::text::{decimal, decimal_string};

verus! {

/// A calendar date, with the day of the year and the day of the week that
/// the rotation reads off it.
#[derive(Clone, Copy, Debug, PartialEq, Eq, Structural)]
pub struct CalendarDate {
    pub year: i64,
    /// 1 for January, ..., 12 for December.
    pub month: u8,
    pub day: u8,
    /// 1 for January 1st.
    pub yearday: u16,
    /// 0 for Sunday, 1 for Monday, ..., 6 for Saturday.
    pub weekday: u8,
}

/// The Gregorian leap-year rule.
pub open spec fn is_leap_year(year: int) -> bool {
    (year % 4 == 0 && year % 100 != 0) || year % 400 == 0
}

pub open spec fn days_in_year(year: int) -> int {
    if is_leap_year(year) {
        366
    } else {
        365
    }
}

pub open spec fn days_in_month(year: int, month: int) -> int {
    if month == 2 {
        if is_leap_year(year) {
            29
        } else {
            28
        }
    } else if month == 4 || month == 6 || month == 9 || month == 11 {
        30
    } else {
        31
    }
}

/// The days of the year that come before the first of `month`.
pub open spec fn days_before_month(year: int, month: int) -> int
    decreases month,
{
    if month <= 1 {
        0
    } else {
        days_before_month(year, month - 1) + days_in_month(year, month - 1)
    }
}

/// The month, from `month` on, that holds day `yearday` of the year.
pub open spec fn month_from(year: int, yearday: int, month: int) -> int
    decreases 12 - month,
{
    if month >= 12 || yearday <= days_before_month(year, month) + days_in_month(year, month) {
        month
    } else {
        month_from(year, yearday, month + 1)
    }
}

/// The month that holds day `yearday` of the year.
pub open spec fn month_of_yearday(year: int, yearday: int) -> int {
    month_from(year, yearday, 1)
}

/// The days from January 1st of year 0 to January 1st of `year` in the
/// Gregorian calendar, counted backwards before year 0.
pub open spec fn days_before_year(year: int) -> int {
    365 * year + (year + 3) / 4 - (year + 99) / 100 + (year + 399) / 400
}

/// The day of the week, 0 for Sunday, of day `yearday` of `year`: January
/// 1st of year 0 was a Saturday.
pub open spec fn weekday_of(year: int, yearday: int) -> int {
    (days_before_year(year) + yearday - 1 + 6) % 7
}

/// The month and the day of the month of day `yearday` of `year`.
pub open spec fn month_and_day(year: int, yearday: int) -> (int, int) {
    let month = month_of_yearday(year, yearday);
    (month, yearday - days_before_month(year, month))
}

/// Day `yearday` of `year`, for `yearday` from 1 to the length of the year.
pub open spec fn date_at(year: int, yearday: int) -> CalendarDate {
    CalendarDate {
        year: year as i64,
        month: month_and_day(year, yearday).0 as u8,
        day: month_and_day(year, yearday).1 as u8,
        yearday: yearday as u16,
        weekday: weekday_of(year, yearday) as u8,
    }
}

/// The years the calendar reads, before and after year 0: their day counts
/// and holiday keys stay well within `i64`.
pub const YEAR_LIMIT: i64 = 100_000_000_000_000;

/// Relies on datetime's `LocalDate::yd`, which counts `yearday - 1` days on
/// from January 1st of `year` (into the next year past its last day), and on
/// the year, day of the year and weekday that `DatePiece` reads back from the
/// date; `Weekday` converts to its position from Sunday.
#[verifier::external_body]
fn local_date(year: i64, yearday: i64) -> (r: (i64, u16, u8))
    requires
        -YEAR_LIMIT <= year <= YEAR_LIMIT,
        1 <= yearday <= 366,
    ensures
        yearday <= days_in_year(year as int) ==> r.0 == year && r.1 == yearday,
        yearday > days_in_year(year as int) ==> r.0 == year + 1 && r.1 == 1,
        r.2 == weekday_of(r.0 as int, r.1 as int),
{
    let date = datetime::LocalDate::yd(year, yearday).unwrap();
    (date.year(), date.yearday() as u16, date.weekday() as u8)
}

/// Relies on datetime's `LocalDate::ymd`, which accepts a day from 1 to the
/// length of the month, and on the fields that `DatePiece` reads back from the
/// date, converted as in `local_date`.
#[verifier::external_body]
pub(crate) fn local_date_ymd(year: i64, month: i8, day: i8) -> (r: Option<(i64, u16, u8)>)
    requires
        -YEAR_LIMIT <= year <= YEAR_LIMIT,
        1 <= month <= 12,
    ensures
        r is Some <==> 1 <= day <= days_in_month(year as int, month as int),
        r matches Some(d) ==> d.0 == year && d.1 == days_before_month(year as int, month as int)
            + day,
        r matches Some(d) ==> d.2 == weekday_of(d.0 as int, d.1 as int),
{
    let month = datetime::Month::from_one(month).unwrap();
    let date = datetime::LocalDate::ymd(year, month, day).ok()?;
    Some((date.year(), date.yearday() as u16, date.weekday() as u8))
}

fn is_leap(year: i64) -> (r: bool)
    requires
        -YEAR_LIMIT <= year <= YEAR_LIMIT,
    ensures
        r == is_leap_year(year as int),
{
    let y: i64 = if year < 0 {
        -year
    } else {
        year
    };
    assert(is_leap_year(year as int) == is_leap_year(y as int));
    (y % 4 == 0 && y % 100 != 0) || y % 400 == 0
}

fn month_length(year: i64, month: u8) -> (r: u16)
    requires
        -YEAR_LIMIT <= year <= YEAR_LIMIT,
    ensures
        r == days_in_month(year as int, month as int),
{
    if month == 2 {
        if is_leap(year) {
            29
        } else {
            28
        }
    } else if month == 4 || month == 6 || month == 9 || month == 11 {
        30
    } else {
        31
    }
}

/// The month and the day of the month of day `yearday` of `year`.
pub fn month_day(year: i64, yearday: u16) -> (r: (u8, u8))
    requires
        -YEAR_LIMIT <= year <= YEAR_LIMIT,
        1 <= yearday <= days_in_year(year as int),
    ensures
        (r.0 as int, r.1 as int) == month_and_day(year as int, yearday as int),
{
    let ghost y = year as int;
    let ghost yd = yearday as int;
    let mut month: u8 = 1;
    let mut before: u16 = 0;
    proof {
        lemma_month_within_year(y, 1);
    }
    loop
        invariant
            -YEAR_LIMIT <= year <= YEAR_LIMIT,
            y == year as int,
            yd == yearday as int,
            1 <= month <= 12,
            before == days_before_month(y, month as int),
            before + days_in_month(y, month as int) <= days_in_year(y),
            month_from(y, yd, 1) == month_from(y, yd, month as int),
            yd > before,
            yd <= days_in_year(y),
        ensures
            month_from(y, yd, month as int) == month as int,
            yd <= before + days_in_month(y, month as int),
        decreases 12 - month,
    {
        let length = month_length(year, month);
        if month >= 12 || yearday <= before + length {
            proof {
                if month >= 12 {
                    reveal_with_fuel(days_before_month, 13);
                }
            }
            break;
        }
        before = before + length;
        month = month + 1;
        proof {
            lemma_month_within_year(y, month as int);
        }
    }
    (month, (yearday - before) as u8)
}

/// The key under which a date stands in a holiday map: its digits as in
/// `20250801`, with the year's sign.
pub open spec fn key_of(year: int, month: int, day: int) -> int {
    year * 10000 + month * 100 + day
}

impl CalendarDate {
    /// The date is day `yearday` of its year, in a year the calendar reads.
    pub open spec fn wf(self) -> bool {
        &&& -YEAR_LIMIT <= self.year <= YEAR_LIMIT
        &&& 1 <= self.yearday <= days_in_year(self.year as int)
        &&& self == date_at(self.year as int, self.yearday as int)
        &&& self.weekday < 7
    }

    pub open spec fn spec_key(&self) -> i64 {
        key_of(self.year as int, self.month as int, self.day as int) as i64
    }

    /// Day `yearday` of `year`, on the given day of the week.
    pub(crate) fn build(year: i64, yearday: u16, weekday: u8) -> (r: CalendarDate)
        requires
            -YEAR_LIMIT <= year <= YEAR_LIMIT,
            1 <= yearday <= days_in_year(year as int),
            weekday == weekday_of(year as int, yearday as int),
        ensures
            r.wf(),
            r == date_at(year as int, yearday as int),
    {
        let (month, day) = month_day(year, yearday);
        CalendarDate { year, month, day, yearday, weekday }
    }

    /// The date `day`.`month`.`year`; `None` where the month has no such day
    /// or the year lies beyond `YEAR_LIMIT`.
    pub fn from_ymd(year: i64, month: u8, day: u8) -> (r: Option<CalendarDate>)
        ensures
            r == (if -YEAR_LIMIT <= year <= YEAR_LIMIT && 1 <= month <= 12 && 1 <= day
                <= days_in_month(year as int, month as int) {
                Some(date_at(year as int, days_before_month(year as int, month as int) + day))
            } else {
                None
            }),
            r matches Some(d) ==> d.wf(),
    {
        if year < -YEAR_LIMIT || year > YEAR_LIMIT || month < 1 || month > 12 || day > 31 {
            return None;
        }
        proof {
            lemma_month_within_year(year as int, month as int);
        }
        match local_date_ymd(year, month as i8, day as i8) {
            Some((year, yearday, weekday)) => Some(CalendarDate::build(year, yearday, weekday)),
            None => None,
        }
    }

    /// January 1st of `year`.
    pub fn first_of_year(year: u16) -> (r: CalendarDate)
        ensures
            r.wf(),
            r == date_at(year as int, 1),
    {
        let (y, yearday, weekday) = local_date(year as i64, 1);
        CalendarDate::build(y, yearday, weekday)
    }

    /// The following day; `None` where it lies in the next year.
    pub fn next_in_year(&self) -> (r: Option<CalendarDate>)
        requires
            self.wf(),
        ensures
            r is Some <==> self.yearday < days_in_year(self.year as int),
            r matches Some(d) ==> d.wf() && d == date_at(self.year as int, self.yearday + 1),
    {
        if self.yearday >= 366 {
            return None;
        }
        let (year, yearday, weekday) = local_date(self.year, self.yearday as i64 + 1);
        if year != self.year {
            return None;
        }
        Some(CalendarDate::build(year, yearday, weekday))
    }

    #[verifier::when_used_as_spec(spec_key)]
    pub fn key(&self) -> (r: i64)
        requires
            self.wf(),
        ensures
            r == self.spec_key(),
    {
        holiday_key(self.year, self.month, self.day)
    }
}

/// The key of a date in a holiday map.
pub fn holiday_key(year: i64, month: u8, day: u8) -> (r: i64)
    requires
        -YEAR_LIMIT <= year <= YEAR_LIMIT,
    ensures
        r == key_of(year as int, month as int, day as int),
{
    year * 10000 + month as i64 * 100 + day as i64
}

/// The printed date: day and month, as in `1.8`.
pub open spec fn date_label(d: CalendarDate) -> Seq<char> {
    decimal(d.day as nat) + "."@ + decimal(d.month as nat)
}

/// The printed day of the week.
pub open spec fn weekday_label(weekday: int) -> Seq<char> {
    if weekday == 0 {
        "So"@
    } else if weekday == 1 {
        "Mo"@
    } else if weekday == 2 {
        "Di"@
    } else if weekday == 3 {
        "Mi"@
    } else if weekday == 4 {
        "Do"@
    } else if weekday == 5 {
        "Fr"@
    } else {
        "Sa"@
    }
}

/// The name of a month, counted from 0 for January.
pub open spec fn month_name(month: int) -> Seq<char> {
    if month == 0 {
        "Januar"@
    } else if month == 1 {
        "Februar"@
    } else if month == 2 {
        "März"@
    } else if month == 3 {
        "April"@
    } else if month == 4 {
        "Mai"@
    } else if month == 5 {
        "Juni"@
    } else if month == 6 {
        "Juli"@
    } else if month == 7 {
        "August"@
    } else if month == 8 {
        "September"@
    } else if month == 9 {
        "Oktober"@
    } else if month == 10 {
        "November"@
    } else {
        "Dezember"@
    }
}

pub fn print_local_date(date: &CalendarDate) -> (r: String)
    ensures
        r@ == date_label(*date),
{
    let day = decimal_string(date.day as u64);
    let month = decimal_string(date.month as u64);
    day.concat(".").concat(month.as_str())
}

pub fn print_local_weekday(weekday: u8) -> (r: String)
    ensures
        r@ == weekday_label(weekday as int),
{
    let name = match weekday {
        0 => "So",
        1 => "Mo",
        2 => "Di",
        3 => "Mi",
        4 => "Do",
        5 => "Fr",
        _ => "Sa",
    };
    name.to_owned()
}

/// The name of month `month`, counted from 0 for January.
pub fn month_to_string(month: i8) -> (r: String)
    requires
        0 <= month < 12,
    ensures
        r@ == month_name(month as int),
{
    let name = match month {
        0 => "Januar",
        1 => "Februar",
        2 => "März",
        3 => "April",
        4 => "Mai",
        5 => "Juni",
        6 => "Juli",
        7 => "August",
        8 => "September",
        9 => "Oktober",
        10 => "November",
        _ => "Dezember",
    };
    name.to_owned()
}

proof fn lemma_month_from_range(year: int, yearday: int, month: int)
    requires
        1 <= month <= 12,
    ensures
        month <= month_from(year, yearday, month) <= 12,
    decreases 12 - month,
{
    if month < 12 && yearday > days_before_month(year, month) + days_in_month(year, month) {
        lemma_month_from_range(year, yearday, month + 1);
    }
}

/// Every month ends within its year.
pub proof fn lemma_month_within_year(year: int, month: int)
    requires
        1 <= month <= 12,
    ensures
        0 <= days_before_month(year, month),
        days_before_month(year, month) + days_in_month(year, month) <= days_in_year(year),
{
    reveal_with_fuel(days_before_month, 12);
}

/// Every date of the calendar lies in one of the twelve months.
pub proof fn lemma_month_range(year: int, yearday: int)
    ensures
        1 <= date_at(year, yearday).month <= 12,
{
    lemma_month_from_range(year, yearday, 1);
    assert(1 <= month_and_day(year, yearday).0 <= 12);
}

} // verus!
