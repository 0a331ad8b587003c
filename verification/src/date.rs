//! Calendar dates.

use vstd::prelude::*;
use crate::text::{append_padded, padded};
use vstd::string::StringExecFns;

verus! {

/// Whether the year `y` of the Gregorian calendar has a 29th of February.
pub open spec fn is_leap(y: int) -> bool {
    y % 4 == 0 && (y % 100 != 0 || y % 400 == 0)
}

/// The days before the year `y`, counted from the first day of the year 0.
pub open spec fn days_before_year(y: int) -> int {
    365 * y + (y + 3) / 4 - (y + 99) / 100 + (y + 399) / 400
}

/// The days of a year before the month `m`.
pub open spec fn days_before_month(y: int, m: int) -> int {
    let leap: int = if is_leap(y) && m > 2 {
        1
    } else {
        0
    };
    leap + (if m == 1 {
        0int
    } else if m == 2 {
        31
    } else if m == 3 {
        59
    } else if m == 4 {
        90
    } else if m == 5 {
        120
    } else if m == 6 {
        151
    } else if m == 7 {
        181
    } else if m == 8 {
        212
    } else if m == 9 {
        243
    } else if m == 10 {
        273
    } else if m == 11 {
        304
    } else if m == 12 {
        334
    } else {
        365
    })
}

/// A date and a time of day.
pub struct CivilTime {
    pub year: int,
    pub month: int,
    pub day: int,
    pub hour: int,
    pub minute: int,
    pub second: int,
}

impl CivilTime {
    /// Whether the calendar has this date and the clock this time.
    pub open spec fn valid(self) -> bool {
        &&& 1 <= self.month <= 12
        &&& 1 <= self.day <= days_before_month(self.year, self.month + 1) - days_before_month(
            self.year,
            self.month,
        )
        &&& 0 <= self.hour < 24
        &&& 0 <= self.minute < 60
        &&& 0 <= self.second < 60
    }

    /// The days from 1970-01-01 to this date.
    pub open spec fn unix_days(self) -> int {
        days_before_year(self.year) + days_before_month(self.year, self.month) + self.day - 1
            - 719_528
    }

    /// The seconds from 1970-01-01 00:00:00 to this date and time.
    pub open spec fn unix_seconds(self) -> int {
        self.unix_days() * 86_400 + self.hour * 3600 + self.minute * 60 + self.second
    }

    /// The spelling `YYYY-MM-DDThh:mm:ssZ`.
    pub open spec fn text(self) -> Seq<char> {
        signed_year(self.year) + "-"@ + padded(self.month as nat, 2) + "-"@ + padded(
            self.day as nat,
            2,
        ) + "T"@ + padded(self.hour as nat, 2) + ":"@ + padded(self.minute as nat, 2) + ":"@
            + padded(self.second as nat, 2) + "Z"@
    }
}

/// A year in at least four characters, the sign of a negative one counted in.
pub open spec fn signed_year(y: int) -> Seq<char> {
    if y < 0 {
        "-"@ + padded((-y) as nat, 3)
    } else {
        padded(y as nat, 4)
    }
}

/// The date and time that lie `unix` seconds after 1970-01-01 00:00:00.
pub open spec fn civil_time(unix: int) -> CivilTime {
    choose|c: CivilTime| c.valid() && #[trigger] c.unix_seconds() == unix
}

/// The spelling of the date and time `unix` seconds after 1970-01-01 00:00:00.
pub open spec fn iso8601(unix: int) -> Seq<char> {
    civil_time(unix).text()
}

/// One if `b`, else zero.
spec fn one_if(b: bool) -> int {
    if b {
        1
    } else {
        0
    }
}

proof fn lemma_year_length(y: int)
    ensures
        days_before_year(y + 1) == days_before_year(y) + 365 + one_if(is_leap(y)),
{
}

proof fn lemma_years_apart(a: int, b: int)
    requires
        a <= b,
    ensures
        days_before_year(a) <= days_before_year(b),
{
}

proof fn lemma_day_of_year(c: CivilTime)
    requires
        c.valid(),
    ensures
        days_before_year(c.year) <= c.unix_days() + 719_528 < days_before_year(c.year + 1),
{
    lemma_year_length(c.year);
}

/// No two dates and times lie the same number of seconds after 1970.
pub proof fn lemma_civil_time_unique(a: CivilTime, b: CivilTime)
    requires
        a.valid(),
        b.valid(),
        a.unix_seconds() == b.unix_seconds(),
    ensures
        a == b,
{
    assert(a.unix_days() == b.unix_days());
    lemma_day_of_year(a);
    lemma_day_of_year(b);
    if a.year < b.year {
        lemma_years_apart(a.year + 1, b.year);
    }
    if b.year < a.year {
        lemma_years_apart(b.year + 1, a.year);
    }
}

/// The days of a 400-year era before its year `yoe`, both counted from a first of March.
spec fn era_days(yoe: int) -> int {
    365 * yoe + yoe / 4 - yoe / 100
}

proof fn lemma_year_of_era(doe: int, yoe: int)
    requires
        0 <= doe < 146_097,
        yoe == (doe - doe / 1460 + doe / 36_524 - doe / 146_096) / 365,
    ensures
        0 <= yoe <= 399,
        era_days(yoe) <= doe,
        doe - era_days(yoe) <= 364 + one_if(
            (yoe + 1) % 4 == 0 && ((yoe + 1) % 100 != 0 || yoe == 399),
        ),
{
}

/// The days before the first of March of the year `y`.
proof fn lemma_first_of_march(era: int, yoe: int)
    requires
        0 <= yoe <= 399,
    ensures
        days_before_year(era * 400 + yoe) + days_before_month(era * 400 + yoe, 3) == era * 146_097
            + era_days(yoe) + 60,
        is_leap(era * 400 + yoe + 1) == ((yoe + 1) % 4 == 0 && ((yoe + 1) % 100 != 0 || yoe
            == 399)),
{
    let y = era * 400 + yoe;
    assert((y + 3) / 4 == era * 100 + (yoe + 3) / 4);
    assert((y + 99) / 100 == era * 4 + (yoe + 99) / 100);
    assert((y + 399) / 400 == era + (yoe + 399) / 400);
    assert(y % 4 == yoe % 4);
    assert(y % 100 == yoe % 100);
    assert(y % 400 == yoe);
    assert((y + 1) % 4 == (yoe + 1) % 4);
    assert((y + 1) % 100 == (yoe + 1) % 100);
    assert((y + 1) % 400 == (yoe + 1) % 400);
    assert((yoe + 3) / 4 == yoe / 4 + one_if(yoe % 4 != 0));
    assert((yoe + 99) / 100 == yoe / 100 + one_if(yoe % 100 != 0));
}

proof fn lemma_civil(
    unix: int,
    era: int,
    doe: int,
    yoe: int,
    doy: int,
    mp: int,
    sod: int,
    c: CivilTime,
)
    requires
        0 <= doe < 146_097,
        yoe == (doe - doe / 1460 + doe / 36_524 - doe / 146_096) / 365,
        doy == doe - era_days(yoe),
        mp == (5 * doy + 2) / 153,
        0 <= sod < 86_400,
        unix == (era * 146_097 + doe - 719_468) * 86_400 + sod,
        c.month == (if mp < 10 {
            mp + 3
        } else {
            mp - 9
        }),
        c.day == doy - (153 * mp + 2) / 5 + 1,
        c.year == era * 400 + yoe + one_if(c.month <= 2),
        c.hour == sod / 3600,
        c.minute == (sod % 3600) / 60,
        c.second == sod % 60,
    ensures
        c.valid(),
        c.unix_seconds() == unix,
{
    lemma_year_of_era(doe, yoe);
    lemma_first_of_march(era, yoe);
    let y = era * 400 + yoe;
    lemma_year_length(y);
    assert(0 <= mp <= 11);
    assert(c.unix_days() == era * 146_097 + doe - 719_468);
}

/// Every number of seconds after 1970 is that of a date and a time.
pub proof fn lemma_civil_exists(unix: int)
    ensures
        civil_time(unix).valid(),
        civil_time(unix).unix_seconds() == unix,
{
    let days = unix / 86_400;
    let sod = unix % 86_400;
    let z = days + 719_468;
    let era = z / 146_097;
    let doe = z % 146_097;
    let yoe = (doe - doe / 1460 + doe / 36_524 - doe / 146_096) / 365;
    let doy = doe - era_days(yoe);
    let mp = (5 * doy + 2) / 153;
    let month = if mp < 10 {
        mp + 3
    } else {
        mp - 9
    };
    let c = CivilTime {
        year: era * 400 + yoe + one_if(month <= 2),
        month,
        day: doy - (153 * mp + 2) / 5 + 1,
        hour: sod / 3600,
        minute: (sod % 3600) / 60,
        second: sod % 60,
    };
    lemma_civil(unix, era, doe, yoe, doy, mp, sod, c);
    assert(c.valid() && c.unix_seconds() == unix);
}

/// The date and time `unix_secs` seconds after 1970-01-01 00:00:00: year, month, day,
/// hour, minute and second.
pub fn civil_from_days_seconds(unix_secs: i64) -> (r: (i64, u32, u32, u32, u32, u32))
    ensures
        civil_time(unix_secs as int) == (CivilTime {
            year: r.0 as int,
            month: r.1 as int,
            day: r.2 as int,
            hour: r.3 as int,
            minute: r.4 as int,
            second: r.5 as int,
        }),
        civil_time(unix_secs as int).valid(),
        civil_time(unix_secs as int).unix_seconds() == unix_secs,
{
    // Shifted by a whole number of 400-year eras, everything is positive.
    let shifted: u128 = (unix_secs as i128 + 731_000_000 * 12_622_780_800) as u128;
    let days: u128 = shifted / 86_400;
    let secs_of_day: u32 = (shifted % 86_400) as u32;
    let z: u128 = days + 719_468;
    let era: u128 = z / 146_097;
    let doe: u64 = (z % 146_097) as u64;
    let yoe: u64 = (doe - doe / 1460 + doe / 36_524 - doe / 146_096) / 365;
    let doy: u64 = doe - (365 * yoe + yoe / 4 - yoe / 100);
    let mp: u64 = (5 * doy + 2) / 153;
    let d: u32 = (doy - (153 * mp + 2) / 5 + 1) as u32;
    let m: u32 = if mp < 10 {
        (mp + 3) as u32
    } else {
        (mp - 9) as u32
    };
    let y: i64 = (yoe as i128 + (era as i128 - 731_000_000) * 400) as i64;
    let year: i64 = if m <= 2 {
        y + 1
    } else {
        y
    };
    let hh: u32 = secs_of_day / 3600;
    let mm: u32 = (secs_of_day % 3600) / 60;
    let ss: u32 = secs_of_day % 60;
    proof {
        let c = CivilTime {
            year: year as int,
            month: m as int,
            day: d as int,
            hour: hh as int,
            minute: mm as int,
            second: ss as int,
        };
        lemma_civil(
            unix_secs as int,
            era - 731_000_000,
            doe as int,
            yoe as int,
            doy as int,
            mp as int,
            secs_of_day as int,
            c,
        );
        assert(civil_time(unix_secs as int).valid() && civil_time(
            unix_secs as int,
        ).unix_seconds() == unix_secs);
        lemma_civil_time_unique(c, civil_time(unix_secs as int));
    }
    (year, m, d, hh, mm, ss)
}

/// Spells the date and time `unix_secs` seconds after 1970-01-01 00:00:00.
pub fn format_iso8601(unix_secs: i64) -> (s: String)
    ensures
        s@ == iso8601(unix_secs as int),
{
    let (y, m, d, hh, mm, ss) = civil_from_days_seconds(unix_secs);
    let mut s: String = String::new();
    if y < 0 {
        s.append("-");
        append_padded(&mut s, (-y) as u64, 3);
    } else {
        append_padded(&mut s, y as u64, 4);
    }
    assert(s@ =~= signed_year(y as int));
    s.append("-");
    append_padded(&mut s, m as u64, 2);
    s.append("-");
    append_padded(&mut s, d as u64, 2);
    s.append("T");
    append_padded(&mut s, hh as u64, 2);
    s.append(":");
    append_padded(&mut s, mm as u64, 2);
    s.append(":");
    append_padded(&mut s, ss as u64, 2);
    s.append("Z");
    s
}

} // verus!
