//! Calendar days in the proleptic Gregorian calendar, obtained from chrono.
use vstd::prelude::*;
use chrono::{Datelike, TimeZone, Timelike};

verus! {

/// Days before January 1 of `year`, counted from January 1 of year 1, in
/// the proleptic Gregorian calendar (year 0 is 1 BC).
pub open spec fn days_before_year(year: int) -> int {
    let p = year - 1;
    365 * p + p / 4 - p / 100 + p / 400
}

/// Days of `year` before the first of `month`.
pub open spec fn days_before_month(year: int, month: int) -> int
    decreases month,
{
    if month <= 1 {
        0
    } else {
        days_before_month(year, month - 1) + days_in_month(year, month - 1)
    }
}

/// chrono's day count of a calendar date (`num_days_from_ce`): January 1
/// of year 1 is day 1, and each day counts one more than the day before.
pub open spec fn chrono_day_number(year: i32, month: u32, day: u32) -> int {
    days_before_year(year as int) + days_before_month(year as int, month as int) + day
}

/// chrono's weekday of a calendar date, counted from Monday as 0: January 1
/// of year 1 was a Monday.
pub open spec fn chrono_weekday(year: i32, month: u32, day: u32) -> int {
    (chrono_day_number(year, month, day) - 1) % 7
}

/// The earliest and latest years chrono represents.
pub open spec fn chrono_min_year() -> int {
    -262143
}

pub open spec fn chrono_max_year() -> int {
    262142
}

pub open spec fn is_leap_year(year: int) -> bool {
    (year % 4 == 0 && year % 100 != 0) || year % 400 == 0
}

pub open spec fn days_in_month(year: int, month: int) -> int {
    if month == 2 {
        if is_leap_year(year) {
            29
        } else {
            28
        }
    } else if month == 4 || month == 6 || month == 9 || month == 11 {
        30
    } else {
        31
    }
}

/// chrono's day count (see `chrono_day_number`) of the UTC day of a Unix
/// timestamp in milliseconds; January 1, 1970 is day 719163.
pub open spec fn utc_day_number(millis: i64) -> int {
    millis / 86_400_000 + 719_163
}

/// The UTC day of the timestamp lies within chrono's calendar, from
/// January 1 of its first year to December 31 of its last.
pub open spec fn timestamp_in_range(millis: i64) -> bool {
    chrono_day_number(-262143i32, 1u32, 1u32) <= utc_day_number(millis) <= chrono_day_number(
        262142i32,
        12u32,
        31u32,
    )
}

/// The UTC day of the timestamp lies strictly inside chrono's calendar:
/// neither its first nor its last day, so that the local day of every time
/// zone lies in the calendar too.
pub open spec fn timestamp_inside_range(millis: i64) -> bool {
    chrono_day_number(-262143i32, 1u32, 1u32) < utc_day_number(millis) < chrono_day_number(
        262142i32,
        12u32,
        31u32,
    )
}

/// A calendar day together with chrono's day count and weekday for it.
#[derive(Clone, Copy, Debug, PartialEq, Eq, Structural)]
pub struct CalendarDate {
    pub year: i32,
    pub month: u32,
    pub day: u32,
    /// Days since the start of the calendar; consecutive days differ by one.
    pub day_number: i32,
    /// 0 for Monday up to 6 for Sunday.
    pub weekday: u32,
}

impl CalendarDate {
    /// The fields describe one calendar day as chrono counts it.
    pub open spec fn wf(self) -> bool {
        &&& 1 <= self.month <= 12
        &&& 1 <= self.day <= 31
        &&& self.weekday < 7
        &&& self.day_number == chrono_day_number(self.year, self.month, self.day)
        &&& self.weekday == chrono_weekday(self.year, self.month, self.day)
    }
}

/// `res` is the calendar day `year-month-day` when that day exists and
/// chrono can represent it, and `None` otherwise.
pub open spec fn ymd_result(year: i32, month: u32, day: u32, res: Option<CalendarDate>) -> bool {
    &&& res is Some <==> (1 <= month <= 12 && 1 <= day <= days_in_month(year as int, month as int)
        && chrono_min_year() <= year <= chrono_max_year())
    &&& res matches Some(d) ==> d.year == year && d.month == month && d.day == day
        && d.day_number == chrono_day_number(year, month, day) && d.weekday == chrono_weekday(
        year,
        month,
        day,
    ) && d.weekday < 7 && (year <= 0 ==> d.day_number <= 0)
}

impl CalendarDate {
    /// The calendar day `year-month-day`, if it exists and chrono can
    /// represent it.
    pub fn from_ymd(year: i32, month: u32, day: u32) -> (res: Option<CalendarDate>)
        ensures
            ymd_result(year, month, day, res),
            res matches Some(d) ==> d.wf(),
    {
        calendar_date(year, month, day)
    }

    /// Today's calendar day in the machine's time zone, from the system
    /// clock; `None` when the clock cannot be read as a time after the Unix
    /// epoch. A day that comes back is never earlier than the day before
    /// January 1, 1970.
    pub fn today() -> (res: Option<CalendarDate>)
        ensures
            res matches Some(d) ==> d.wf() && d.day_number >= 719_162,
    {
        match clock_millis() {
            Some(millis) => local_calendar_date(millis),
            None => None,
        }
    }
}

/// The calendar day `year-month-day`, if it exists and chrono can represent
/// it. Calls `chrono::NaiveDate::from_ymd_opt`; the contract states that the
/// date exists exactly for valid month and day numbers within chrono's year
/// range, and that its fields are chrono's day count and weekday (counted
/// from Monday, below 7). chrono counts January 1 of year 1 as day 1, so a
/// day of a year up to 0 has a count of at most 0.
#[verifier::external_body]
pub(crate) fn calendar_date(year: i32, month: u32, day: u32) -> (res: Option<CalendarDate>)
    ensures
        res is Some <==> (1 <= month <= 12 && 1 <= day <= days_in_month(year as int, month as int)
            && chrono_min_year() <= year <= chrono_max_year()),
        res matches Some(d) ==> d.year == year && d.month == month && d.day == day
            && d.day_number == chrono_day_number(year, month, day) && d.weekday == chrono_weekday(
            year,
            month,
            day,
        ) && d.weekday < 7 && (year <= 0 ==> d.day_number <= 0),
{
    chrono::NaiveDate::from_ymd_opt(year, month, day).map(|d| CalendarDate {
        year: d.year(),
        month: d.month(),
        day: d.day(),
        day_number: d.num_days_from_ce(),
        weekday: d.weekday().num_days_from_monday(),
    })
}

/// The local calendar day of a Unix timestamp in milliseconds, in the
/// machine's time zone. Calls `DateTime::from_timestamp_millis` (which
/// accepts the timestamp exactly when its UTC day lies in chrono's
/// calendar), `Local.offset_from_utc_datetime` and
/// `NaiveDateTime::checked_add_offset` (which fails when the local time
/// falls outside chrono's calendar). The local day depends on the time
/// zone; the contract states that a day comes back for every timestamp
/// whose UTC day lies strictly inside the calendar, none for one outside
/// it, and that the day is well formed and, as a time zone's offset is less
/// than a day, at most one day away from the UTC day.
#[verifier::external_body]
pub(crate) fn local_calendar_date(millis: i64) -> (res: Option<CalendarDate>)
    ensures
        res is Some ==> timestamp_in_range(millis),
        timestamp_inside_range(millis) ==> res is Some,
        res matches Some(d) ==> d.wf() && utc_day_number(millis) - 1 <= d.day_number
            <= utc_day_number(millis) + 1,
{
    let utc = chrono::DateTime::from_timestamp_millis(millis)?.naive_utc();
    let local = utc.checked_add_offset(chrono::Local.offset_from_utc_datetime(&utc))?;
    let d = local.date();
    Some(CalendarDate {
        year: d.year(),
        month: d.month(),
        day: d.day(),
        day_number: d.num_days_from_ce(),
        weekday: d.weekday().num_days_from_monday(),
    })
}

/// The system clock in whole milliseconds since the Unix epoch. Calls
/// `SystemTime::now` and `SystemTime::duration_since(UNIX_EPOCH)`, which
/// fails when the clock is before the epoch, and converts the duration's
/// milliseconds to `i64`, which fails past `i64::MAX`. The reading depends
/// on the clock, so the contract states only that it is not negative.
#[verifier::external_body]
fn clock_millis() -> (res: Option<i64>)
    ensures
        res matches Some(m) ==> m >= 0,
{
    let since = std::time::SystemTime::now().duration_since(std::time::UNIX_EPOCH).ok()?;
    i64::try_from(since.as_millis()).ok()
}

/// The local date and time (hour, minute) of a Unix timestamp in
/// milliseconds, in the machine's time zone. Makes the same calls as
/// `local_calendar_date`, and reads the hour and minute of the local time.
/// The contract states when a result comes back, as there, and that it is a
/// well-formed day at most one day away from the UTC day, and a time of day.
#[verifier::external_body]
pub(crate) fn local_date_time(millis: i64) -> (res: Option<(CalendarDate, u32, u32)>)
    ensures
        res is Some ==> timestamp_in_range(millis),
        timestamp_inside_range(millis) ==> res is Some,
        res matches Some((d, h, m)) ==> d.wf() && h < 24 && m < 60 && utc_day_number(millis) - 1
            <= d.day_number <= utc_day_number(millis) + 1,
{
    let utc = chrono::DateTime::from_timestamp_millis(millis)?.naive_utc();
    let local = utc.checked_add_offset(chrono::Local.offset_from_utc_datetime(&utc))?;
    let d = local.date();
    let date = CalendarDate {
        year: d.year(),
        month: d.month(),
        day: d.day(),
        day_number: d.num_days_from_ce(),
        weekday: d.weekday().num_days_from_monday(),
    };
    Some((date, local.hour(), local.minute()))
}

proof fn lemma_step_quotient(p: int, d: int)
    requires
        d > 0,
    ensures
        (p + 1) / d - p / d == (if (p + 1) % d == 0 {
            1int
        } else {
            0int
        }),
{
    assert((p + 1) / d - p / d == (if (p + 1) % d == 0 { 1int } else { 0int })) by (nonlinear_arith)
        requires
            d > 0,
    ;
}

/// Consecutive calendar days have consecutive day counts: the day after
/// `year-month-day` counts one more, whether it falls in the same month,
/// the next month or the next year; so its weekday is the next one too.
pub proof fn law_next_day_counts_one_more(year: i32, month: u32, day: u32)
    requires
        1 <= month <= 12,
        1 <= day <= days_in_month(year as int, month as int),
        year < i32::MAX,
    ensures
        day < days_in_month(year as int, month as int) ==> chrono_day_number(year, month, (day + 1) as u32)
            == chrono_day_number(year, month, day) + 1,
        day == days_in_month(year as int, month as int) && month < 12 ==> chrono_day_number(
            year,
            (month + 1) as u32,
            1,
        ) == chrono_day_number(year, month, day) + 1,
        day == days_in_month(year as int, month as int) && month == 12 ==> chrono_day_number(
            (year + 1) as i32,
            1,
            1,
        ) == chrono_day_number(year, month, day) + 1,
{
    if day == days_in_month(year as int, month as int) && month == 12 {
        let y = year as int;
        let p = y - 1;
        lemma_step_quotient(p, 4);
        lemma_step_quotient(p, 100);
        lemma_step_quotient(p, 400);
        assert(days_before_month(y, 13) == 365 + if is_leap_year(y) { 1int } else { 0int }) by {
            reveal_with_fuel(days_before_month, 13);
        }
        assert(days_before_month(y + 1, 1) == 0);
    }
}

} // verus!
