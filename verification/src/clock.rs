//! Calendar dates and timestamps.

use crate::text::{padded, push_padded};
use vstd::prelude::*;

verus! {

// ---------------------------------------------------------------------------
// the proleptic Gregorian calendar

pub open spec fn is_leap(y: int) -> bool {
    y % 4 == 0 && (y % 100 != 0 || y % 400 == 0)
}

pub open spec fn year_len(y: int) -> int {
    if is_leap(y) {
        366
    } else {
        365
    }
}

pub open spec fn month_len(y: int, m: int) -> int {
    if m == 2 {
        if is_leap(y) {
            29
        } else {
            28
        }
    } else if m == 4 || m == 6 || m == 9 || m == 11 {
        30
    } else {
        31
    }
}

/// Days from the first day of year zero to the first day of year `y`.
pub open spec fn days_before_year(y: int) -> int {
    365 * y + (y + 3) / 4 - (y + 99) / 100 + (y + 399) / 400
}

/// Days from the first day of a year to the first day of its month `m`.
pub open spec fn days_before_month(y: int, m: int) -> int
    decreases m,
{
    if m <= 1 {
        0
    } else {
        days_before_month(y, m - 1) + month_len(y, m - 1)
    }
}

/// Days from the first of January 1970 to a date.
pub open spec fn day_number(y: int, m: int, d: int) -> int {
    days_before_year(y) + days_before_month(y, m) + (d - 1) - days_before_year(1970)
}

pub open spec fn is_date(y: int, m: int, d: int) -> bool {
    1 <= m <= 12 && 1 <= d <= month_len(y, m)
}

/// The years follow one another: each begins where the one before ends.
pub proof fn law_years_follow(y: int)
    ensures
        days_before_year(y + 1) == days_before_year(y) + year_len(y),
        days_before_year(0) == 0,
{
}

proof fn lemma_months(y: int)
    ensures
        days_before_month(y, 1) == 0,
        days_before_month(y, 2) == 31,
        days_before_month(y, 3) == 59 + if is_leap(y) { 1int } else { 0int },
        days_before_month(y, 4) == days_before_month(y, 3) + 31,
        days_before_month(y, 5) == days_before_month(y, 3) + 61,
        days_before_month(y, 6) == days_before_month(y, 3) + 92,
        days_before_month(y, 7) == days_before_month(y, 3) + 122,
        days_before_month(y, 8) == days_before_month(y, 3) + 153,
        days_before_month(y, 9) == days_before_month(y, 3) + 184,
        days_before_month(y, 10) == days_before_month(y, 3) + 214,
        days_before_month(y, 11) == days_before_month(y, 3) + 245,
        days_before_month(y, 12) == days_before_month(y, 3) + 275,
{
    reveal_with_fuel(days_before_month, 13);
}

/// The year of an era that a day of the era falls in, for years that begin in
/// March: the bounds that make it the right one.
#[verifier::spinoff_prover]
#[verifier::rlimit(60)]
proof fn lemma_year_of_era(doe: int)
    requires
        0 <= doe < 146097,
    ensures
        ({
            let yoe = (doe - doe / 1460 + doe / 36524 - doe / 146096) / 365;
            let doy = doe - (365 * yoe + yoe / 4 - yoe / 100);
            &&& 0 <= yoe <= 399
            &&& 0 <= doy <= 365
            &&& doy == 365 ==> is_leap(yoe + 1)
        }),
{
    let century = doe / 36524;
    if century == 0 {
        lemma_year_of_century(doe, 0);
    } else if century == 1 {
        lemma_year_of_century(doe, 1);
    } else if century == 2 {
        lemma_year_of_century(doe, 2);
    } else if century == 3 {
        lemma_year_of_century(doe, 3);
    } else {
        assert(doe == 146096);
    }
}

/// The same within one century, which is known.
#[verifier::spinoff_prover]
#[verifier::rlimit(60)]
proof fn lemma_year_of_century(doe: int, century: int)
    requires
        0 <= century <= 3,
        36524 * century <= doe < 36524 * (century + 1),
    ensures
        ({
            let yoe = (doe - doe / 1460 + century) / 365;
            let doy = doe - (365 * yoe + yoe / 4 - yoe / 100);
            &&& 0 <= yoe <= 399
            &&& 0 <= doy <= 365
            &&& doy == 365 ==> is_leap(yoe + 1)
        }),
{
    let fours = doe / 1460;
    let yoe = (doe - fours + century) / 365;
    let quarter = yoe / 4;
    assert(1460 * fours <= doe < 1460 * fours + 1460);
    assert(365 * yoe <= doe - fours + century < 365 * yoe + 365);
    assert(4 * quarter <= yoe <= 4 * quarter + 3);
    assert(100 * century <= yoe <= 100 * century + 99);
    assert(yoe / 100 == century);
}

/// From the first of March of year zero to the first of March of year `y`.
#[verifier::spinoff_prover]
proof fn lemma_march(y: int)
    ensures
        days_before_year(y) + days_before_month(y, 3) == 365 * y + y / 4 - y / 100 + y / 400 + 60,
        days_before_year(y + 1) == 365 * y + y / 4 - y / 100 + y / 400 + 366,
{
    lemma_months(y);
    let one = |b: bool| if b { 1int } else { 0int };
    assert((y + 3) / 4 == y / 4 + one(y % 4 != 0));
    assert((y + 99) / 100 == y / 100 + one(y % 100 != 0));
    assert((y + 399) / 400 == y / 400 + one(y % 400 != 0));
    assert((y + 4) / 4 == y / 4 + 1);
    assert((y + 100) / 100 == y / 100 + 1);
    assert((y + 400) / 400 == y / 400 + 1);
    assert(y % 400 == 0 ==> y % 100 == 0);
    assert(y % 100 == 0 ==> y % 4 == 0);
}

proof fn lemma_eras(era: int, yoe: int)
    requires
        0 <= yoe <= 399,
    ensures
        ({
            let y = yoe + era * 400;
            365 * y + y / 4 - y / 100 + y / 400 == era * 146097 + 365 * yoe + yoe / 4 - yoe / 100
        }),
        is_leap(yoe + era * 400 + 1) == is_leap(yoe + 1),
{
}

/// Two dates with the same day number are the same date.
pub proof fn law_day_number_is_injective(
    y1: int,
    m1: int,
    d1: int,
    y2: int,
    m2: int,
    d2: int,
)
    requires
        is_date(y1, m1, d1),
        is_date(y2, m2, d2),
        day_number(y1, m1, d1) == day_number(y2, m2, d2),
    ensures
        y1 == y2 && m1 == m2 && d1 == d2,
{
    lemma_months(y1);
    lemma_months(y2);
    lemma_year_bounds(y1, m1, d1);
    lemma_year_bounds(y2, m2, d2);
    if y1 < y2 {
        lemma_years_grow(y1 + 1, y2);
    } else if y2 < y1 {
        lemma_years_grow(y2 + 1, y1);
    }
}

/// A date lies within its year.
proof fn lemma_year_bounds(y: int, m: int, d: int)
    requires
        is_date(y, m, d),
    ensures
        days_before_year(y) <= day_number(y, m, d) + days_before_year(1970) < days_before_year(
            y + 1,
        ),
{
    lemma_months(y);
    law_years_follow(y);
}

proof fn lemma_years_grow(y1: int, y2: int)
    requires
        y1 <= y2,
    ensures
        days_before_year(y1) <= days_before_year(y2),
{
}

/// The date of a day number.
pub open spec fn civil(z: int) -> (int, int, int) {
    choose|date: (int, int, int)| is_civil(z, date)
}

/// Is this the date of a day number?
pub open spec fn is_civil(z: int, date: (int, int, int)) -> bool {
    is_date(date.0, date.1, date.2) && day_number(date.0, date.1, date.2) == z
}

proof fn lemma_civil(z: int, date: (int, int, int))
    requires
        is_civil(z, date),
    ensures
        civil(z) == date,
{
    let c = civil(z);
    law_day_number_is_injective(c.0, c.1, c.2, date.0, date.1, date.2);
}

/// The month and day of a day within a year that begins in March.
#[verifier::spinoff_prover]
proof fn lemma_day_of_year(y: int, doy: int, mp: int, year: int, m: int, d: int)
    requires
        0 <= doy <= 365,
        doy == 365 ==> is_leap(y + 1),
        mp == (5 * doy + 2) / 153,
        d == doy - (153 * mp + 2) / 5 + 1,
        m == if mp < 10 { mp + 3 } else { mp - 9 },
        year == if m <= 2 { y + 1 } else { y },
    ensures
        is_date(year, m, d),
        days_before_year(year) + days_before_month(year, m) + d - 1 == 365 * y + y / 4 - y / 100 + y
            / 400 + 60 + doy,
{
    lemma_march(y);
    lemma_months(year);
    assert(0 <= mp <= 11);
    if mp == 0 {
    } else if mp == 1 {
    } else if mp == 2 {
    } else if mp == 3 {
    } else if mp == 4 {
    } else if mp == 5 {
    } else if mp == 6 {
    } else if mp == 7 {
    } else if mp == 8 {
    } else if mp == 9 {
    } else if mp == 10 {
    } else {
    }
}

/// The calendar date of a day counted from the first of January 1970.
pub fn civil_from_days(z: i64) -> (date: (i64, u32, u32))
    requires
        z <= i64::MAX - 719468,
    ensures
        is_date(date.0 as int, date.1 as int, date.2 as int),
        day_number(date.0 as int, date.1 as int, date.2 as int) == z,
        civil(z as int) == (date.0 as int, date.1 as int, date.2 as int),
{
    // count from the first of March of year zero, so that a leap day ends a year
    let z1: i64 = z + 719468;
    let era: i64 = if z1 >= 0 {
        z1 / 146097
    } else {
        -((146096 - z1) / 146097)
    };
    let doe: u64 = (z1 - era * 146097) as u64;
    let yoe: u64 = (doe - doe / 1460 + doe / 36524 - doe / 146096) / 365;
    let y: i64 = yoe as i64 + era * 400;
    proof {
        lemma_year_of_era(doe as int);
        lemma_eras(era as int, yoe as int);
    }
    let doy: u64 = doe - (365 * yoe + yoe / 4 - yoe / 100);
    let mp: u64 = (5 * doy + 2) / 153;
    let d: u32 = (doy - (153 * mp + 2) / 5 + 1) as u32;
    let m: u32 = if mp < 10 {
        (mp + 3) as u32
    } else {
        (mp - 9) as u32
    };
    let year: i64 = if m <= 2 {
        y + 1
    } else {
        y
    };
    proof {
        lemma_day_of_year(y as int, doy as int, mp as int, year as int, m as int, d as int);
        assert(days_before_year(1970) == 719528);
        lemma_civil(z as int, (year as int, m as int, d as int));
    }
    (year, m, d)
}

// ---------------------------------------------------------------------------
// timestamps

/// An ISO-8601 UTC timestamp of a time given in seconds and milliseconds since
/// the first of January 1970.
pub open spec fn iso(secs: nat, millis: nat) -> Seq<char> {
    let date = civil((secs / 86400) as int);
    let rem = secs % 86400;
    padded(date.0 as nat, 4) + "-"@ + padded(date.1 as nat, 2) + "-"@ + padded(date.2 as nat, 2)
        + "T"@ + padded(rem / 3600, 2) + ":"@ + padded((rem % 3600) / 60, 2) + ":"@ + padded(
        rem % 60,
        2,
    ) + "."@ + padded(millis, 3) + "Z"@
}

proof fn lemma_year_after_epoch(y: int, m: int, d: int)
    requires
        is_date(y, m, d),
        day_number(y, m, d) >= 0,
    ensures
        y >= 1970,
{
    lemma_year_bounds(y, m, d);
    if y < 1970 {
        lemma_years_grow(y + 1, 1970);
    }
}

/// The timestamp of a time since the epoch.
pub fn iso_timestamp(secs: u64, millis: u32) -> (stamp: String)
    ensures
        stamp@ == iso(secs as nat, millis as nat),
{
    let days: u64 = secs / 86400;
    let (y, mo, dy) = civil_from_days(days as i64);
    proof {
        lemma_year_after_epoch(y as int, mo as int, dy as int);
    }
    let rem: u64 = secs % 86400;
    let mut stamp = String::new();
    push_padded(&mut stamp, y as u64, 4);
    stamp.append("-");
    push_padded(&mut stamp, mo as u64, 2);
    stamp.append("-");
    push_padded(&mut stamp, dy as u64, 2);
    stamp.append("T");
    push_padded(&mut stamp, rem / 3600, 2);
    stamp.append(":");
    push_padded(&mut stamp, (rem % 3600) / 60, 2);
    stamp.append(":");
    push_padded(&mut stamp, rem % 60, 2);
    stamp.append(".");
    push_padded(&mut stamp, millis as u64, 3);
    stamp.append("Z");
    assert(stamp@ =~= iso(secs as nat, millis as nat));
    stamp
}

/// A year is a leap year if four divides it, unless a hundred does and four
/// hundred does not; February has then one day more. The other months are as
/// long in every year.
pub proof fn law_the_lengths_of_months(y: int, d: int)
    ensures
        is_date(y, 2, d) <==> 1 <= d <= 28 || (d == 29 && (y % 400 == 0 || (y % 4 == 0 && y % 100
            != 0))),
        forall|m: int|
            m == 4 || m == 6 || m == 9 || m == 11 ==> (#[trigger] is_date(y, m, d) <==> 1 <= d
                <= 30),
        forall|m: int|
            m == 1 || m == 3 || m == 5 || m == 7 || m == 8 || m == 10 || m == 12 ==> (
            #[trigger] is_date(y, m, d) <==> 1 <= d <= 31),
        forall|m: int| m < 1 || m > 12 ==> !#[trigger] is_date(y, m, d),
{
}

/// Days are numbered one after the other, from the first of January 1970: each
/// day has the number after that of the day before it, which ends a month or a
/// year where it is the last one of these.
pub proof fn law_days_are_numbered_in_order(y: int, m: int, d: int)
    requires
        is_date(y, m, d),
    ensures
        day_number(1970, 1, 1) == 0,
        is_date(y, m, d + 1) ==> day_number(y, m, d + 1) == day_number(y, m, d) + 1,
        !is_date(y, m, d + 1) && m < 12 ==> day_number(y, m + 1, 1) == day_number(y, m, d) + 1,
        !is_date(y, m, d + 1) && m == 12 ==> day_number(y + 1, 1, 1) == day_number(y, m, d) + 1,
{
    lemma_months(y);
    lemma_months(y + 1);
    lemma_months(1970);
    law_years_follow(y);
}

/// The timestamp of a moment of a date: year, month, day, hour, minute, second
/// and millisecond, each in its place and filled to its width.
#[verifier::spinoff_prover]
pub proof fn law_a_timestamp_tells_the_moment(
    y: int,
    mo: int,
    d: int,
    h: nat,
    mi: nat,
    s: nat,
    millis: nat,
)
    requires
        is_date(y, mo, d),
        day_number(y, mo, d) >= 0,
        h < 24,
        mi < 60,
        s < 60,
    ensures
        iso((day_number(y, mo, d) * 86400 + h * 3600 + mi * 60 + s) as nat, millis) == padded(
            y as nat,
            4,
        ) + "-"@ + padded(mo as nat, 2) + "-"@ + padded(d as nat, 2) + "T"@ + padded(h, 2) + ":"@
            + padded(mi, 2) + ":"@ + padded(s, 2) + "."@ + padded(millis, 3) + "Z"@,
        y >= 1970,
{
    let day = day_number(y, mo, d);
    let secs = (day * 86400 + h * 3600 + mi * 60 + s) as nat;
    lemma_seconds(day as nat, h, mi, s);
    assert(civil(day) == (y, mo, d)) by {
        lemma_civil(day, (y, mo, d));
    }
    assert(y >= 1970) by {
        lemma_year_after_epoch(y, mo, d);
    }
    assert(civil((secs / 86400) as int) == (y, mo, d));
}

/// The parts of a number of seconds.
proof fn lemma_seconds(day: nat, h: nat, mi: nat, s: nat)
    requires
        h < 24,
        mi < 60,
        s < 60,
    ensures
        ({
            let secs = day * 86400 + h * 3600 + mi * 60 + s;
            let rem = secs % 86400;
            &&& secs / 86400 == day
            &&& rem / 3600 == h
            &&& (rem % 3600) / 60 == mi
            &&& rem % 60 == s
        }),
{
    let part = h * 3600 + mi * 60 + s;
    let secs = day * 86400 + part;
    assert(part < 86400);
    assert(secs / 86400 == day);
    assert(secs % 86400 == part);
    assert(part / 3600 == h);
    assert(part % 3600 == mi * 60 + s);
    assert((mi * 60 + s) / 60 == mi);
    assert(part % 60 == s);
}

/// A moment of the system clock, carried through unread.
#[verifier::external_type_specification]
#[verifier::external_body]
pub struct ExSystemTime(std::time::SystemTime);

/// How far a moment lies before another one, carried through unread.
#[verifier::external_type_specification]
#[verifier::external_body]
pub struct ExSystemTimeError(std::time::SystemTimeError);

/// `SystemTime::now` reads the system clock. Nothing holds of every reading.
pub assume_specification[ std::time::SystemTime::now ]() -> std::time::SystemTime
;

/// `SystemTime::duration_since` on the epoch: an error for a moment before it.
/// What the duration is, is not stated.
#[verifier::external_body]
fn since_epoch(moment: &std::time::SystemTime) -> Result<
    std::time::Duration,
    std::time::SystemTimeError,
> {
    moment.duration_since(std::time::UNIX_EPOCH)
}

/// `Duration::as_secs` gives the whole seconds; how many is not stated.
pub assume_specification[ std::time::Duration::as_secs ](d: &std::time::Duration) -> u64
;

/// `Duration::subsec_millis` gives the part of a second beyond the whole ones:
/// less than a thousand milliseconds.
pub assume_specification[ std::time::Duration::subsec_millis ](d: &std::time::Duration) -> (ms: u32)
    ensures
        ms < 1000,
;

/// A reading of the clock, given the seconds and milliseconds since the epoch:
/// both zero where there are none, for a clock that is set before it.
pub fn reading_or_epoch(since: Option<(u64, u32)>) -> (now: (u64, u32))
    ensures
        now == match since {
            Some(reading) => reading,
            None => (0u64, 0u32),
        },
{
    match since {
        Some(reading) => reading,
        None => (0, 0),
    }
}

/// The present in whole seconds and milliseconds since the epoch. Which moment
/// that is, the clock decides: only the bound on the milliseconds holds of
/// every reading.
fn clock_reading() -> (now: (u64, u32))
    ensures
        now.1 < 1000,
{
    let moment = std::time::SystemTime::now();
    let since = match since_epoch(&moment) {
        Ok(d) => Some((d.as_secs(), d.subsec_millis())),
        Err(_) => None,
    };
    reading_or_epoch(since)
}

/// Is a text the timestamp of some time?
pub open spec fn is_timestamp(text: Seq<char>) -> bool {
    exists|secs: u64, millis: u32| millis < 1000 && text == #[trigger] iso(
        secs as nat,
        millis as nat,
    )
}

/// The timestamp of the present.
pub fn now_iso() -> (stamp: String)
    ensures
        is_timestamp(stamp@),
{
    let (secs, millis) = clock_reading();
    iso_timestamp(secs, millis)
}

} // verus!
