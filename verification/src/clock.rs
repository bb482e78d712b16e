//! Calendar dates and time stamps from counts of seconds.

use crate::text::{decimal_digits, fixed_digits, push_decimal, push_fixed};
use vstd::prelude::*;

verus! {

/// Days from 1 January 1970 to a date of the Gregorian calendar, taken
/// back before its introduction too.
pub open spec fn days_of(year: int, month: int, day: int) -> int {
    let y = if month <= 2 {
        year - 1
    } else {
        year
    };
    let era = y / 400;
    let yoe = y - era * 400;
    let mp = if month > 2 {
        month - 3
    } else {
        month + 9
    };
    let doy = (153 * mp + 2) / 5 + day - 1;
    let doe = yoe * 365 + yoe / 4 - yoe / 100 + doy;
    era * 146_097 + doe - 719_468
}

/// Year of the era, month and day of a day of an era of 400 years, and
/// whether the month is January or February: those belong to the year after.
pub open spec fn in_era(doe: int) -> (int, int, int) {
    let yoe = (doe - doe / 1_460 + doe / 36_524 - doe / 146_096) / 365;
    let doy = doe - (365 * yoe + yoe / 4 - yoe / 100);
    let mp = (5 * doy + 2) / 153;
    let day = doy - (153 * mp + 2) / 5 + 1;
    let month = if mp < 10 {
        mp + 3
    } else {
        mp - 9
    };
    (yoe, month, day)
}

/// The date, as year, month and day, that lies the given number of days after 1 January 1970.
pub open spec fn civil_of(days: int) -> (int, int, int) {
    let z = days + 719_468;
    let era = z / 146_097;
    let (yoe, month, day) = in_era(z - era * 146_097);
    let year = yoe + era * 400 + if month <= 2 {
        1int
    } else {
        0int
    };
    (year, month, day)
}

/// Within an era the year is one of 400, the month one of twelve, the day
/// one of at most thirty-one, and they count back to the day of the era.
pub proof fn lemma_in_era(doe: int)
    requires
        0 <= doe < 146_097,
    ensures
        0 <= in_era(doe).0 <= 399,
        1 <= in_era(doe).1 <= 12,
        1 <= in_era(doe).2 <= 31,
        ({
            let (yoe, month, day) = in_era(doe);
            let mp = if month > 2 {
                month - 3
            } else {
                month + 9
            };
            yoe * 365 + yoe / 4 - yoe / 100 + (153 * mp + 2) / 5 + day - 1 == doe
        }),
{
    let yoe = (doe - doe / 1_460 + doe / 36_524 - doe / 146_096) / 365;
    assert(0 <= yoe <= 399);
    let doy = doe - (365 * yoe + yoe / 4 - yoe / 100);
    assert(0 <= doy <= 365);
    let mp = (5 * doy + 2) / 153;
    assert(0 <= mp <= 11);
}

/// The date of a day count is a date: its month is one of twelve and its
/// day one of at most thirty-one, and counting its days gives the count back.
pub proof fn lemma_civil_of(days: int)
    ensures
        1 <= civil_of(days).1 <= 12,
        1 <= civil_of(days).2 <= 31,
        days_of(civil_of(days).0, civil_of(days).1, civil_of(days).2) == days,
{
    let z = days + 719_468;
    let era = z / 146_097;
    let doe = z - era * 146_097;
    assert(0 <= doe < 146_097);
    lemma_in_era(doe);
    let (yoe, month, day) = in_era(doe);
    let year = civil_of(days).0;
    let y = if month <= 2 {
        year - 1
    } else {
        year
    };
    assert(y == yoe + era * 400);
    assert(y / 400 == era);
}

fn date_in_era(doe: u64) -> (r: (u64, u32, u32))
    requires
        doe < 146_097,
    ensures
        (r.0 as int, r.1 as int, r.2 as int) == in_era(doe as int),
        r.0 <= 399,
        1 <= r.1 <= 12,
        1 <= r.2 <= 31,
{
    proof {
        lemma_in_era(doe as int);
    }
    let yoe: u64 = (doe - doe / 1_460 + doe / 36_524 - doe / 146_096) / 365;
    assert(yoe <= 399);
    let doy: u64 = doe - (365 * yoe + yoe / 4 - yoe / 100);
    assert(doy <= 365);
    let mp: u64 = (5 * doy + 2) / 153;
    assert(mp <= 11);
    let day: u64 = doy - (153 * mp + 2) / 5 + 1;
    let month: u64 = if mp < 10 {
        mp + 3
    } else {
        mp - 9
    };
    (yoe, month as u32, day as u32)
}

/// The date that lies the given number of days after 1 January 1970.
pub fn civil_from_days(days: i64) -> (date: (i64, u32, u32))
    ensures
        (date.0 as int, date.1 as int, date.2 as int) == civil_of(days as int),
        1 <= date.1 <= 12,
        1 <= date.2 <= 31,
        days >= 0 ==> date.0 >= 1970,
{
    let z: i128 = days as i128 + 719_468;
    let era: i128 = if z >= 0 {
        z / 146_097
    } else {
        -((146_096 - z) / 146_097)
    };
    assert(era == (z as int) / 146_097);
    let doe: i128 = z - era * 146_097;
    let (yoe, month, day) = date_in_era(doe as u64);
    let year: i128 = yoe as i128 + era * 400 + if month <= 2 {
        1
    } else {
        0
    };
    (year as i64, month, day)
}

/// A number of at least `width` digits: zeros lead where it has fewer.
pub open spec fn at_least_digits(n: nat, width: nat, limit: nat) -> Seq<char> {
    if n < limit {
        fixed_digits(n, width)
    } else {
        decimal_digits(n)
    }
}

/// The time stamp of a moment given as seconds since 1 January 1970 and
/// the nanoseconds of its second: date, `T`, time of day, a point, the
/// milliseconds, and `Z`.
pub open spec fn rfc3339_of(seconds: int, nanos: int) -> Seq<char> {
    let date = civil_of(seconds / 86_400);
    let s = seconds % 86_400;
    at_least_digits(date.0 as nat, 4, 10_000) + seq!['-'] + fixed_digits(date.1 as nat, 2)
        + seq!['-'] + fixed_digits(date.2 as nat, 2) + seq!['T'] + fixed_digits(
        (s / 3_600) as nat,
        2,
    ) + seq![':'] + fixed_digits((s % 3_600 / 60) as nat, 2) + seq![':'] + fixed_digits(
        (s % 60) as nat,
        2,
    ) + seq!['.'] + at_least_digits((nanos / 1_000_000) as nat, 3, 1_000) + seq!['Z']
}

fn push_at_least(out: &mut String, n: u64, width: usize, limit: u64)
    ensures
        final(out)@ == old(out)@ + at_least_digits(n as nat, width as nat, limit as nat),
{
    if n < limit {
        push_fixed(out, n, width);
    } else {
        push_decimal(out, n as u128);
    }
}

/// The time stamp of a moment; see `rfc3339_of`.
pub fn format_rfc3339(seconds: u64, nanos: u32) -> (stamp: String)
    ensures
        stamp@ == rfc3339_of(seconds as int, nanos as int),
{
    let days: i64 = (seconds / 86_400) as i64;
    let secs_of_day: u64 = seconds % 86_400;
    let (year, month, day) = civil_from_days(days);
    let mut out = String::new();
    push_at_least(&mut out, year as u64, 4, 10_000);
    out.push('-');
    push_fixed(&mut out, month as u64, 2);
    out.push('-');
    push_fixed(&mut out, day as u64, 2);
    out.push('T');
    push_fixed(&mut out, secs_of_day / 3_600, 2);
    out.push(':');
    push_fixed(&mut out, (secs_of_day % 3_600) / 60, 2);
    out.push(':');
    push_fixed(&mut out, secs_of_day % 60, 2);
    out.push('.');
    push_at_least(&mut out, (nanos / 1_000_000) as u64, 3, 1_000);
    out.push('Z');
    assert(out@ =~= rfc3339_of(seconds as int, nanos as int));
    out
}

} // verus!
