//! Dates and times written out as text, the way chrono's `%Y-%m-%d %H:%M`
//! writes them.
use vstd::prelude::*;
use vstd::string::StringExecFns;
use crate::calendar::{
    local_date_time, timestamp_in_range, timestamp_inside_range, utc_day_number, CalendarDate,
};

verus! {

broadcast use vstd::string::group_string_axioms;

/// The digit of `d` (0 to 9).
pub open spec fn digit(d: int) -> char {
    (('0' as int) + d) as char
}

/// `n` in decimal, without leading zeros.
pub open spec fn decimal(n: nat) -> Seq<char>
    decreases n,
{
    if n < 10 {
        seq![digit(n as int)]
    } else {
        decimal(n / 10) + seq![digit((n % 10) as int)]
    }
}

/// `s` with zeros before it up to `width` characters.
pub open spec fn zero_padded(s: Seq<char>, width: int) -> Seq<char> {
    if s.len() >= width {
        s
    } else {
        Seq::new((width - s.len()) as nat, |i: int| '0') + s
    }
}

/// A year as `%Y` writes it: four digits from 0 to 9999, else a sign and at
/// least four digits.
pub open spec fn year_text(y: int) -> Seq<char> {
    if 0 <= y <= 9999 {
        zero_padded(decimal(y as nat), 4)
    } else if y < 0 {
        seq!['-'] + zero_padded(decimal((-y) as nat), 4)
    } else {
        seq!['+'] + zero_padded(decimal(y as nat), 4)
    }
}

/// A two-digit field (month, day, hour, minute) below 100.
pub open spec fn two_digits(n: int) -> Seq<char> {
    seq![digit(n / 10), digit(n % 10)]
}

/// `year-month-day hour:minute` as `%Y-%m-%d %H:%M` writes it.
pub open spec fn stamp_text(year: int, month: int, day: int, hour: int, minute: int) -> Seq<char> {
    year_text(year) + seq!['-'] + two_digits(month) + seq!['-'] + two_digits(day) + seq![' ']
        + two_digits(hour) + seq![':'] + two_digits(minute)
}

fn digit_text(d: u32) -> (res: &'static str)
    requires
        d < 10,
    ensures
        res@ == seq![digit(d as int)],
{
    proof {
        reveal_strlit("0");
        reveal_strlit("1");
        reveal_strlit("2");
        reveal_strlit("3");
        reveal_strlit("4");
        reveal_strlit("5");
        reveal_strlit("6");
        reveal_strlit("7");
        reveal_strlit("8");
        reveal_strlit("9");
    }
    if d == 0 {
        "0"
    } else if d == 1 {
        "1"
    } else if d == 2 {
        "2"
    } else if d == 3 {
        "3"
    } else if d == 4 {
        "4"
    } else if d == 5 {
        "5"
    } else if d == 6 {
        "6"
    } else if d == 7 {
        "7"
    } else if d == 8 {
        "8"
    } else {
        "9"
    }
}

fn push_decimal(s: &mut String, n: u32)
    ensures
        final(s)@ == old(s)@ + decimal(n as nat),
    decreases n,
{
    if n >= 10 {
        push_decimal(s, n / 10);
    }
    s.append(digit_text(n % 10));
    proof {
        if n >= 10 {
            assert(final(s)@ =~= old(s)@ + decimal(n as nat));
        }
    }
}

proof fn lemma_decimal_len(n: nat)
    ensures
        n < 10 ==> decimal(n).len() == 1,
        10 <= n < 100 ==> decimal(n).len() == 2,
        100 <= n < 1000 ==> decimal(n).len() == 3,
        1000 <= n ==> decimal(n).len() >= 4,
    decreases n,
{
    if n >= 10 {
        lemma_decimal_len(n / 10);
    }
}

fn push_padded4(s: &mut String, n: u32)
    ensures
        final(s)@ == old(s)@ + zero_padded(decimal(n as nat), 4),
{
    proof {
        lemma_decimal_len(n as nat);
        reveal_strlit("000");
        reveal_strlit("00");
        reveal_strlit("0");
    }
    if n < 10 {
        s.append("000");
    } else if n < 100 {
        s.append("00");
    } else if n < 1000 {
        s.append("0");
    }
    let ghost mid = s@;
    push_decimal(s, n);
    proof {
        let want = zero_padded(decimal(n as nat), 4);
        assert(final(s)@ =~= old(s)@ + want);
    }
}

fn push_two(s: &mut String, n: u32)
    requires
        n < 100,
    ensures
        final(s)@ == old(s)@ + two_digits(n as int),
{
    s.append(digit_text(n / 10));
    s.append(digit_text(n % 10));
    assert(final(s)@ =~= old(s)@ + two_digits(n as int));
}

/// Appends `y` as `%Y` writes it.
pub(crate) fn push_year(s: &mut String, y: i32)
    ensures
        final(s)@ == old(s)@ + year_text(y as int),
{
    proof {
        reveal_strlit("-");
        reveal_strlit("+");
    }
    if 0 <= y && y <= 9999 {
        push_padded4(s, y as u32);
    } else if y < 0 {
        s.append("-");
        let a: u32 = if y == i32::MIN {
            0x8000_0000u32
        } else {
            (-y) as u32
        };
        push_padded4(s, a);
    } else {
        s.append("+");
        push_padded4(s, y as u32);
    }
    assert(s@ =~= old(s)@ + year_text(y as int));
}

/// `date` at `hour:minute` as `%Y-%m-%d %H:%M` writes it.
pub fn format_stamp(date: CalendarDate, hour: u32, minute: u32) -> (res: String)
    requires
        1 <= date.month <= 12,
        1 <= date.day <= 31,
        hour < 24,
        minute < 60,
    ensures
        res@ == stamp_text(date.year as int, date.month as int, date.day as int, hour as int, minute as int),
{
    let mut s = String::new();
    proof {
        reveal_strlit("-");
        reveal_strlit(" ");
        reveal_strlit(":");
    }
    push_year(&mut s, date.year);
    s.append("-");
    push_two(&mut s, date.month);
    s.append("-");
    push_two(&mut s, date.day);
    s.append(" ");
    push_two(&mut s, hour);
    s.append(":");
    push_two(&mut s, minute);
    assert(s@ =~= stamp_text(date.year as int, date.month as int, date.day as int, hour as int, minute as int));
    s
}

/// The date and time of a cleanup run for the history, in the machine's
/// time zone: `None` when chrono cannot date the stamp (always so outside
/// chrono's calendar, never strictly inside it); otherwise the local day,
/// within a day of the stamp's UTC day, and time of day.
pub fn history_date(stamp: i64) -> (res: Option<String>)
    ensures
        res is Some ==> timestamp_in_range(stamp),
        timestamp_inside_range(stamp) ==> res is Some,
        res matches Some(t) ==> exists|d: CalendarDate, h: int, mi: int|
            d.wf() && utc_day_number(stamp) - 1 <= d.day_number <= utc_day_number(stamp) + 1 && 0
                <= h < 24 && 0 <= mi < 60 && t@ == stamp_text(
                d.year as int,
                d.month as int,
                d.day as int,
                h,
                mi,
            ),
{
    match local_date_time(stamp) {
        Some((date, hour, minute)) => Some(format_stamp(date, hour, minute)),
        None => None,
    }
}

} // verus!
