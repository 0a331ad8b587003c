//! What dates stand for.

use vstd::prelude::*;
use super::numerals::{lemma_padded_spells, spelt};
use crate::date::{days_before_month, days_before_year, CivilTime};
use crate::text::padded;

verus! {

/// Whether the year `y` has a 29th of February: every fourth year has one, but for those of
/// full centuries that are not the fourth of them.
pub open spec fn has_leap_day(y: int) -> bool {
    (y % 4 == 0 && y % 100 != 0) || y % 400 == 0
}

/// The length of a month in days.
pub open spec fn month_length(y: int, m: int) -> int {
    if m == 4 || m == 6 || m == 9 || m == 11 {
        30
    } else if m == 2 {
        if has_leap_day(y) {
            29
        } else {
            28
        }
    } else {
        31
    }
}

/// The same time on the next day.
pub open spec fn day_after(c: CivilTime) -> CivilTime {
    if c.day < month_length(c.year, c.month) {
        CivilTime { day: c.day + 1, ..c }
    } else if c.month < 12 {
        CivilTime { month: c.month + 1, day: 1, ..c }
    } else {
        CivilTime { year: c.year + 1, month: 1, day: 1, ..c }
    }
}

/// Time is counted from the start of 1970, day after day of the calendar, each of 24 hours of
/// 3600 seconds. The calendar has the days of each month and no others.
pub proof fn lemma_calendar(c: CivilTime)
    requires
        1 <= c.month <= 12,
    ensures
        (CivilTime { year: 1970, month: 1, day: 1, hour: 0, minute: 0, second: 0 }).unix_seconds()
            == 0,
        c.valid() <==> 1 <= c.day <= month_length(c.year, c.month) && 0 <= c.hour < 24 && 0
            <= c.minute < 60 && 0 <= c.second < 60,
        c.valid() ==> day_after(c).valid(),
        c.valid() ==> day_after(c).unix_seconds() == c.unix_seconds() + 86_400,
        (CivilTime { hour: c.hour + 1, ..c }).unix_seconds() == c.unix_seconds() + 3600,
        (CivilTime { minute: c.minute + 1, ..c }).unix_seconds() == c.unix_seconds() + 60,
        (CivilTime { second: c.second + 1, ..c }).unix_seconds() == c.unix_seconds() + 1,
{
    let y = c.year;
    assert(days_before_month(y, c.month + 1) - days_before_month(y, c.month) == month_length(
        y,
        c.month,
    ));
    assert(days_before_year(y + 1) == days_before_year(y) + 365 + (if has_leap_day(y) {
        1int
    } else {
        0
    }));
    assert(month_length(y, 12) == 31);
}

/// A date of a year with four digits is spelt in 20 characters: the year, the month and the
/// day with dashes between them, the letter T, the hour, the minute and the second with colons
/// between them, and the letter Z.
#[verifier::rlimit(40)]
pub proof fn lemma_date_spelling(c: CivilTime)
    requires
        c.valid(),
        0 <= c.year < 10_000,
    ensures
        c.text().len() == 20,
        spelt(c.text().subrange(0, 4)) == c.year,
        c.text()[4] == '-',
        spelt(c.text().subrange(5, 7)) == c.month,
        c.text()[7] == '-',
        spelt(c.text().subrange(8, 10)) == c.day,
        c.text()[10] == 'T',
        spelt(c.text().subrange(11, 13)) == c.hour,
        c.text()[13] == ':',
        spelt(c.text().subrange(14, 16)) == c.minute,
        c.text()[16] == ':',
        spelt(c.text().subrange(17, 19)) == c.second,
        c.text()[19] == 'Z',
{
    lemma_padded_spells(c.year as nat, 4);
    lemma_padded_spells(c.month as nat, 2);
    lemma_padded_spells(c.day as nat, 2);
    lemma_padded_spells(c.hour as nat, 2);
    lemma_padded_spells(c.minute as nat, 2);
    lemma_padded_spells(c.second as nat, 2);
    reveal_strlit("-");
    reveal_strlit("T");
    reveal_strlit(":");
    reveal_strlit("Z");
    let t = c.text();
    assert(t.subrange(0, 4) =~= padded(c.year as nat, 4));
    assert(t.subrange(5, 7) =~= padded(c.month as nat, 2));
    assert(t.subrange(8, 10) =~= padded(c.day as nat, 2));
    assert(t.subrange(11, 13) =~= padded(c.hour as nat, 2));
    assert(t.subrange(14, 16) =~= padded(c.minute as nat, 2));
    assert(t.subrange(17, 19) =~= padded(c.second as nat, 2));
}

} // verus!
