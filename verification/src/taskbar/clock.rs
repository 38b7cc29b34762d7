//! The clock's two lines.
use vstd::prelude::*;

use crate::number;
use crate::text;

verus! {

/// A reading of the local time.
#[derive(Debug, Clone, Copy, PartialEq, Eq, Structural)]
pub struct LocalTime {
    pub hour: u16,
    pub minute: u16,
    /// 0 is Sunday.
    pub day_of_week: u16,
    pub day: u16,
    /// 1 is January.
    pub month: u16,
}

/// The name of a day of the week, counted from Sunday.
pub open spec fn day_text(day: int) -> Seq<char> {
    if day == 0 {
        "Sun"@
    } else if day == 1 {
        "Mon"@
    } else if day == 2 {
        "Tue"@
    } else if day == 3 {
        "Wed"@
    } else if day == 4 {
        "Thu"@
    } else if day == 5 {
        "Fri"@
    } else {
        "Sat"@
    }
}

/// The name of a day of the week.
fn day_name(day_of_week: u16) -> (r: &'static str)
    ensures
        r@ == day_text(day_of_week as int % 7),
{
    match day_of_week % 7 {
        0 => "Sun",
        1 => "Mon",
        2 => "Tue",
        3 => "Wed",
        4 => "Thu",
        5 => "Fri",
        _ => "Sat",
    }
}

/// The name of a month, counted from January as 1; what is before January is
/// January, and what is after December is December.
pub open spec fn month_text(month: int) -> Seq<char> {
    if month <= 1 {
        "Jan"@
    } else if month == 2 {
        "Feb"@
    } else if month == 3 {
        "Mar"@
    } else if month == 4 {
        "Apr"@
    } else if month == 5 {
        "May"@
    } else if month == 6 {
        "Jun"@
    } else if month == 7 {
        "Jul"@
    } else if month == 8 {
        "Aug"@
    } else if month == 9 {
        "Sep"@
    } else if month == 10 {
        "Oct"@
    } else if month == 11 {
        "Nov"@
    } else {
        "Dec"@
    }
}

/// The name of a month.
fn month_name(month: u16) -> (r: &'static str)
    ensures
        r@ == month_text(month as int),
{
    match month {
        0 => "Jan",
        1 => "Jan",
        2 => "Feb",
        3 => "Mar",
        4 => "Apr",
        5 => "May",
        6 => "Jun",
        7 => "Jul",
        8 => "Aug",
        9 => "Sep",
        10 => "Oct",
        11 => "Nov",
        _ => "Dec",
    }
}

/// A number with at least two digits.
pub open spec fn two_digits(n: nat) -> Seq<char> {
    if n < 10 {
        seq!['0'] + number::decimal_text(n)
    } else {
        number::decimal_text(n)
    }
}

/// Append a number with at least two digits.
fn push_two_digits(out: &mut String, n: u16)
    ensures
        final(out)@ == old(out)@ + two_digits(n as nat),
{
    let ghost before = out@;
    if n < 10 {
        out.push('0');
    }
    number::push_decimal(out, n as u64);
    proof {
        assert(out@ =~= before + two_digits(n as nat));
    }
}

/// The time line: hours and minutes.
pub open spec fn clock_text(t: LocalTime) -> Seq<char> {
    two_digits(t.hour as nat) + seq![':'] + two_digits(t.minute as nat)
}

/// The date line: weekday, day, month; empty where the date is off.
pub open spec fn date_text(t: LocalTime, show_date: bool) -> Seq<char> {
    if show_date {
        day_text(t.day_of_week as int % 7) + " "@ + number::decimal_text(t.day as nat) + " "@
            + month_text(t.month as int)
    } else {
        Seq::empty()
    }
}

/// The two lines of the clock.
pub fn clock_strings(t: &LocalTime, show_date: bool) -> (r: (String, String))
    ensures
        r.0@ == clock_text(*t),
        r.1@ == date_text(*t, show_date),
{
    let mut clock = String::new();
    push_two_digits(&mut clock, t.hour);
    clock.push(':');
    push_two_digits(&mut clock, t.minute);
    proof {
        assert(clock@ =~= clock_text(*t));
    }
    let date = if show_date {
        let mut out = text::joined(day_name(t.day_of_week), " ");
        number::push_decimal(&mut out, t.day as u64);
        out.append(" ");
        out.append(month_name(t.month));
        out
    } else {
        String::new()
    };
    (clock, date)
}

/// The months are named in the order of the calendar, by their first three
/// letters, and no two of them have the same name.
pub proof fn law_months_have_their_names(month: int, other: int)
    requires
        1 <= month <= 12,
        1 <= other <= 12,
    ensures
        month_text(month) == "JanFebMarAprMayJunJulAugSepOctNovDec"@.subrange(
            3 * month - 3,
            3 * month,
        ),
        month != other ==> month_text(month) != month_text(other),
{
    let all = "JanFebMarAprMayJunJulAugSepOctNovDec"@;
    reveal_strlit("JanFebMarAprMayJunJulAugSepOctNovDec");
    reveal_strlit("Jan");
    reveal_strlit("Feb");
    reveal_strlit("Mar");
    reveal_strlit("Apr");
    reveal_strlit("May");
    reveal_strlit("Jun");
    reveal_strlit("Jul");
    reveal_strlit("Aug");
    reveal_strlit("Sep");
    reveal_strlit("Oct");
    reveal_strlit("Nov");
    reveal_strlit("Dec");
    assert forall|k: int| 1 <= k <= 12 implies #[trigger] month_text(k) == all.subrange(
        3 * k - 3,
        3 * k,
    ) by {
        if k == 1 {
            assert(month_text(k) =~= all.subrange(0, 3));
        }
        if k == 2 {
            assert(month_text(k) =~= all.subrange(3, 6));
        }
        if k == 3 {
            assert(month_text(k) =~= all.subrange(6, 9));
        }
        if k == 4 {
            assert(month_text(k) =~= all.subrange(9, 12));
        }
        if k == 5 {
            assert(month_text(k) =~= all.subrange(12, 15));
        }
        if k == 6 {
            assert(month_text(k) =~= all.subrange(15, 18));
        }
        if k == 7 {
            assert(month_text(k) =~= all.subrange(18, 21));
        }
        if k == 8 {
            assert(month_text(k) =~= all.subrange(21, 24));
        }
        if k == 9 {
            assert(month_text(k) =~= all.subrange(24, 27));
        }
        if k == 10 {
            assert(month_text(k) =~= all.subrange(27, 30));
        }
        if k == 11 {
            assert(month_text(k) =~= all.subrange(30, 33));
        }
        if k == 12 {
            assert(month_text(k) =~= all.subrange(33, 36));
        }
    }
    let a = month_text(month);
    let b = month_text(other);
    assert(a == all.subrange(3 * month - 3, 3 * month));
    assert(b == all.subrange(3 * other - 3, 3 * other));
    assert(a.len() == 3 && b.len() == 3);
    if month != other {
        assert(a[0] != b[0] || a[1] != b[1] || a[2] != b[2]);
    }
}

/// The days of the week are named in order from Sunday, by their first three
/// letters, and no two of them have the same name.
pub proof fn law_days_have_their_names(day: int, other: int)
    requires
        0 <= day < 7,
        0 <= other < 7,
    ensures
        day_text(day) == "SunMonTueWedThuFriSat"@.subrange(3 * day, 3 * day + 3),
        day != other ==> day_text(day) != day_text(other),
{
    lemma_day_name(day);
    lemma_day_name(other);
    reveal_strlit("SunMonTueWedThuFriSat");
    let a = day_text(day);
    let b = day_text(other);
    assert(a.len() == 3 && b.len() == 3);
    if day != other {
        assert(a[0] != b[0] || a[1] != b[1] || a[2] != b[2]);
    }
}

proof fn lemma_day_name(k: int)
    requires
        0 <= k < 7,
    ensures
        day_text(k) == "SunMonTueWedThuFriSat"@.subrange(3 * k, 3 * k + 3),
{
    let all = "SunMonTueWedThuFriSat"@;
    reveal_strlit("SunMonTueWedThuFriSat");
    reveal_strlit("Sun");
    reveal_strlit("Mon");
    reveal_strlit("Tue");
    reveal_strlit("Wed");
    reveal_strlit("Thu");
    reveal_strlit("Fri");
    reveal_strlit("Sat");
    if k == 0 {
        assert(day_text(k) =~= all.subrange(0, 3));
    }
    if k == 1 {
        assert(day_text(k) =~= all.subrange(3, 6));
    }
    if k == 2 {
        assert(day_text(k) =~= all.subrange(6, 9));
    }
    if k == 3 {
        assert(day_text(k) =~= all.subrange(9, 12));
    }
    if k == 4 {
        assert(day_text(k) =~= all.subrange(12, 15));
    }
    if k == 5 {
        assert(day_text(k) =~= all.subrange(15, 18));
    }
    if k == 6 {
        assert(day_text(k) =~= all.subrange(18, 21));
    }
}

/// The date line reads weekday, day of the month and month, each set off by a
/// blank; a month past either end of the year is the first or the last. Where the
/// date is off the line is empty.
pub proof fn law_the_date_line_reads_weekday_day_month(t: LocalTime)
    ensures
        ({
            let week = t.day_of_week as int % 7;
            let month = if t.month < 1 {
                1
            } else if t.month > 12 {
                12
            } else {
                t.month as int
            };
            date_text(t, true) == "SunMonTueWedThuFriSat"@.subrange(3 * week, 3 * week + 3)
                + seq![' '] + number::decimal_text(t.day as nat) + seq![' ']
                + "JanFebMarAprMayJunJulAugSepOctNovDec"@.subrange(3 * month - 3, 3 * month)
        }),
        date_text(t, false).len() == 0,
{
    let week = t.day_of_week as int % 7;
    let month = if t.month < 1 {
        1
    } else if t.month > 12 {
        12
    } else {
        t.month as int
    };
    lemma_day_name(week);
    law_months_have_their_names(month, 1);
    reveal_strlit(" ");
    assert(" "@ =~= seq![' ']);
}

/// The time line is two digits of the hour, a colon, and two digits of the
/// minute.
pub proof fn law_the_time_line_has_two_digits_each(t: LocalTime)
    requires
        t.hour < 100,
        t.minute < 100,
    ensures
        clock_text(t).len() == 5,
        clock_text(t)[0] as int == 48 + t.hour as int / 10,
        clock_text(t)[1] as int == 48 + t.hour as int % 10,
        clock_text(t)[2] == ':',
        clock_text(t)[3] as int == 48 + t.minute as int / 10,
        clock_text(t)[4] as int == 48 + t.minute as int % 10,
{
    lemma_two_digits(t.hour as nat);
    lemma_two_digits(t.minute as nat);
}

proof fn lemma_two_digits(n: nat)
    requires
        n < 100,
    ensures
        two_digits(n).len() == 2,
        two_digits(n)[0] as int == 48 + n / 10,
        two_digits(n)[1] as int == 48 + n % 10,
{
    reveal_with_fuel(number::decimal_text, 2);
}

} // verus!
