//! Dates of the Gregorian calendar, counted in days.

use vstd::prelude::*;

use crate::text;

verus! {

pub open spec fn is_leap(year: int) -> bool {
    year % 4 == 0 && (year % 100 != 0 || year % 400 == 0)
}

pub open spec fn days_in_month(year: int, month: int) -> int {
    if month == 2 {
        if is_leap(year) {
            29
        } else {
            28
        }
    } else if month == 4 || month == 6 || month == 9 || month == 11 {
        30
    } else {
        31
    }
}

/// Whether there is such a day.
pub open spec fn is_date(year: int, month: int, day: int) -> bool {
    1 <= month <= 12 && 1 <= day <= days_in_month(year, month)
}

/// The number of leap years from year one up to a year, counted backwards
/// before that.
pub open spec fn leap_years(year: int) -> int {
    year / 4 - year / 100 + year / 400
}

/// The number of days of a year before a month.
pub open spec fn days_before_month(year: int, month: int) -> int
    decreases month,
{
    if month <= 1 {
        0
    } else {
        days_before_month(year, month - 1) + days_in_month(year, month - 1)
    }
}

/// The number of days from the first of January 1970 to a date.
pub open spec fn day_number(year: int, month: int, day: int) -> int {
    365 * (year - 1970) + leap_years(year - 1) - leap_years(1969) + days_before_month(year, month)
        + day - 1
}

/// The day after a date.
pub open spec fn next_date(year: int, month: int, day: int) -> (int, int, int) {
    if day < days_in_month(year, month) {
        (year, month, day + 1)
    } else if month < 12 {
        (year, month + 1, 1)
    } else {
        (year + 1, 1, 1)
    }
}

proof fn lemma_months(year: int)
    ensures
        days_before_month(year, 1) == 0,
        days_before_month(year, 2) == 31,
        days_before_month(year, 3) == 59 + (if is_leap(year) {
            1int
        } else {
            0
        }),
        days_before_month(year, 4) == days_before_month(year, 3) + 31,
        days_before_month(year, 5) == days_before_month(year, 3) + 61,
        days_before_month(year, 6) == days_before_month(year, 3) + 92,
        days_before_month(year, 7) == days_before_month(year, 3) + 122,
        days_before_month(year, 8) == days_before_month(year, 3) + 153,
        days_before_month(year, 9) == days_before_month(year, 3) + 184,
        days_before_month(year, 10) == days_before_month(year, 3) + 214,
        days_before_month(year, 11) == days_before_month(year, 3) + 245,
        days_before_month(year, 12) == days_before_month(year, 3) + 275,
{
    reveal_with_fuel(days_before_month, 13);
}

proof fn lemma_quotients_step(year: int)
    ensures
        year / 4 - (year - 1) / 4 == (if year % 4 == 0 {
            1int
        } else {
            0
        }),
        year / 100 - (year - 1) / 100 == (if year % 100 == 0 {
            1int
        } else {
            0
        }),
        year / 400 - (year - 1) / 400 == (if year % 400 == 0 {
            1int
        } else {
            0
        }),
{
}

proof fn lemma_multiples(year: int)
    ensures
        year % 400 == 0 ==> year % 100 == 0,
        year % 100 == 0 ==> year % 4 == 0,
{
    if year % 400 == 0 {
        let k = year / 400;
        assert(year == 100 * (4 * k));
    }
    if year % 100 == 0 {
        let k = year / 100;
        assert(year == 4 * (25 * k));
    }
}

proof fn lemma_leap_step(year: int)
    ensures
        leap_years(year) == leap_years(year - 1) + (if is_leap(year) {
            1int
        } else {
            0
        }),
{
    lemma_quotients_step(year);
    lemma_multiples(year);
}

/// Day numbers count days: the first of January 1970 is day zero, and each day
/// has the number after that of the day before it.
pub proof fn day_numbers_count_days(year: int, month: int, day: int)
    requires
        is_date(year, month, day),
    ensures
        day_number(1970, 1, 1) == 0,
        ({
            let (y, m, d) = next_date(year, month, day);
            is_date(y, m, d) && day_number(y, m, d) == day_number(year, month, day) + 1
        }),
{
    lemma_months(1970);
    lemma_months(year);
    lemma_months(year + 1);
    lemma_leap_step(year);
    reveal_with_fuel(days_before_month, 13);
}

/// The year of a cycle of four centuries that a day of it falls in, where years
/// begin in March.
spec fn cycle_year(day: int) -> int {
    (day - day / 1460 + day / 36524 - day / 146096) / 365
}

proof fn lemma_cycle_year(day: int)
    requires
        0 <= day < 146097,
    ensures
        ({
            let year = cycle_year(day);
            let rest = day - (365 * year + year / 4 - year / 100);
            &&& 0 <= year < 400
            &&& 0 <= rest <= 365
            &&& rest == 365 ==> is_leap(year + 1)
        }),
{
    let century = if day / 36524 < 4 {
        day / 36524
    } else {
        3
    };
    let in_century = day - 36524 * century;
    assert(0 <= in_century <= 36524);
    let four = in_century / 1461;
    let in_four = in_century - 1461 * four;
    let one = if in_four / 365 < 4 {
        in_four / 365
    } else {
        3
    };
    let year = 100 * century + 4 * four + one;
    assert(0 <= four <= 24);
    assert(0 <= one <= 3);
    assert(year / 4 == 25 * century + four);
    assert(year / 100 == century);
    let rest = day - (365 * year + year / 4 - year / 100);
    assert(rest == in_four - 365 * one);
    assert(cycle_year(day) == year);
}

/// The month, counted from March, that a day of a year that begins in March
/// falls in.
spec fn march_month(day: int) -> int {
    (5 * day + 2) / 153
}

proof fn lemma_march_month(day: int)
    requires
        0 <= day <= 365,
    ensures
        ({
            let month = march_month(day);
            let first = (153 * month + 2) / 5;
            &&& 0 <= month <= 11
            &&& first <= day
            &&& month < 11 ==> day < (153 * (month + 1) + 2) / 5
        }),
{
}

proof fn lemma_cycles(yoe: int, era: int)
    requires
        0 <= yoe < 400,
    ensures
        (yoe + era * 400) / 4 == yoe / 4 + 100 * era,
        (yoe + era * 400) / 100 == yoe / 100 + 4 * era,
        (yoe + era * 400) / 400 == era,
        (yoe + era * 400 + 1) % 4 == (yoe + 1) % 4,
        (yoe + era * 400 + 1) % 100 == (yoe + 1) % 100,
        (yoe + era * 400 + 1) % 400 == (yoe + 1) % 400,
{
}

/// The number of the first of March.
proof fn lemma_first_of_march(year: int)
    ensures
        day_number(year, 3, 1) == 365 * year + leap_years(year) - 719468,
        leap_years(1969) == 477,
{
    lemma_months(year);
    lemma_leap_step(year);
}

/// The date of a day of a year that begins in March.
spec fn march_date(year: int, day: int) -> (int, int, int) {
    let mp = march_month(day);
    let month = if mp < 10 {
        mp + 3
    } else {
        mp - 9
    };
    (
        if month <= 2 {
            year + 1
        } else {
            year
        },
        month,
        day - (153 * mp + 2) / 5 + 1,
    )
}

proof fn lemma_march_date(year: int, day: int)
    requires
        0 <= day <= 365,
        day == 365 ==> is_leap(year + 1),
    ensures
        ({
            let (y, m, d) = march_date(year, day);
            is_date(y, m, d) && day_number(y, m, d) == day_number(year, 3, 1) + day
        }),
{
    lemma_march_month(day);
    let mp = march_month(day);
    lemma_months(year);
    lemma_months(year + 1);
    if mp >= 10 {
        lemma_leap_step(year);
        lemma_first_of_march(year);
        assert(mp == 10 || mp == 11);
    } else {
        assert(mp == 0 || mp == 1 || mp == 2 || mp == 3 || mp == 4 || mp == 5 || mp == 6 || mp == 7
            || mp == 8 || mp == 9);
    }
}

proof fn lemma_civil(days: int)
    ensures
        ({
            let z = days + 719468;
            let era = z / 146097;
            let doe = z - era * 146097;
            let yoe = cycle_year(doe);
            let doy = doe - (365 * yoe + yoe / 4 - yoe / 100);
            let (year, month, day) = march_date(yoe + era * 400, doy);
            &&& 0 <= doe < 146097
            &&& 0 <= yoe < 400
            &&& 0 <= doy <= 365
            &&& 0 <= march_month(doy) <= 11
            &&& is_date(year, month, day)
            &&& day_number(year, month, day) == days
        }),
{
    let z = days + 719468;
    let era = z / 146097;
    let doe = z - era * 146097;
    assert(0 <= doe < 146097);
    lemma_cycle_year(doe);
    let yoe = cycle_year(doe);
    let y = yoe + era * 400;
    let doy = doe - (365 * yoe + yoe / 4 - yoe / 100);
    lemma_cycles(yoe, era);
    lemma_first_of_march(y);
    lemma_march_month(doy);
    lemma_march_date(y, doy);
}

proof fn lemma_day_of_year(year: int, month: int, day: int)
    requires
        is_date(year, month, day),
    ensures
        0 <= days_before_month(year, month) + day - 1,
        days_before_month(year, month) + day - 1 < 365 + (if is_leap(year) {
            1int
        } else {
            0
        }),
{
    lemma_months(year);
}

proof fn lemma_years_in_order(a: int, b: int)
    requires
        a < b,
    ensures
        365 * (a - 1970) + leap_years(a - 1) + 365 + (if is_leap(a) {
            1int
        } else {
            0
        }) <= 365 * (b - 1970) + leap_years(b - 1),
{
    lemma_leap_step(a);
    let c = b - 1;
    assert(a <= c);
    assert(leap_years(c) - leap_years(a) >= -365 * (c - a)) by {
        assert(c / 4 >= a / 4);
        assert(c / 400 >= a / 400);
        assert(c / 100 - a / 100 <= c - a);
    }
}

/// Two dates with one number are one date.
pub proof fn dates_are_told_apart(y1: int, m1: int, d1: int, y2: int, m2: int, d2: int)
    requires
        is_date(y1, m1, d1),
        is_date(y2, m2, d2),
        day_number(y1, m1, d1) == day_number(y2, m2, d2),
    ensures
        y1 == y2 && m1 == m2 && d1 == d2,
{
    lemma_day_of_year(y1, m1, d1);
    lemma_day_of_year(y2, m2, d2);
    if y1 < y2 {
        lemma_years_in_order(y1, y2);
    } else if y2 < y1 {
        lemma_years_in_order(y2, y1);
    } else {
        lemma_months(y1);
    }
}

/// The date with a number.
pub open spec fn civil_date(days: int) -> (int, int, int) {
    choose|date: (int, int, int)|
        #![trigger is_date(date.0, date.1, date.2)]
        is_date(date.0, date.1, date.2) && day_number(date.0, date.1, date.2) == days
}

/// Every number has a date.
pub proof fn every_day_has_a_date(days: int)
    ensures
        ({
            let (year, month, day) = civil_date(days);
            is_date(year, month, day) && day_number(year, month, day) == days
        }),
{
    lemma_civil(days);
    let z = days + 719468;
    let era = z / 146097;
    let doe = z - era * 146097;
    let yoe = cycle_year(doe);
    let doy = doe - (365 * yoe + yoe / 4 - yoe / 100);
    let date = march_date(yoe + era * 400, doy);
    assert(is_date(date.0, date.1, date.2));
}

/// The date of a day, counted from the first of January 1970; of the year, the
/// low bits that the type holds.
pub fn civil_from_days(days_since_unix_epoch: i64) -> (date: (i32, u32, u32))
    requires
        days_since_unix_epoch <= i64::MAX - 719_468,
    ensures
        date.0 == civil_date(days_since_unix_epoch as int).0 as i32,
        date.1 == civil_date(days_since_unix_epoch as int).1,
        date.2 == civil_date(days_since_unix_epoch as int).2,
{
    proof {
        lemma_civil(days_since_unix_epoch as int);
    }
    let z: i64 = days_since_unix_epoch + 719_468;
    let era: i64 = if z >= 0 {
        z / 146_097
    } else {
        -((146_096 - z) / 146_097)
    };
    proof {
        assert(era == z as int / 146097);
    }
    let doe: i64 = z - era * 146_097;
    let yoe: i64 = (doe - doe / 1_460 + doe / 36_524 - doe / 146_096) / 365;
    let y: i64 = yoe + era * 400;
    let doy: i64 = doe - (365 * yoe + yoe / 4 - yoe / 100);
    let mp: i64 = (5 * doy + 2) / 153;
    let day: i64 = doy - (153 * mp + 2) / 5 + 1;
    let month: i64 = if mp < 10 {
        mp + 3
    } else {
        mp - 9
    };
    let year: i64 = if month <= 2 {
        y + 1
    } else {
        y
    };
    let date: (i32, u32, u32) = (
        #[verifier::truncate]
        (year as i32),
        month as u32,
        day as u32,
    );
    proof {
        let true_year = year as int;
        assert(date.1 as int == month as int);
        assert(date.2 as int == day as int);
        every_day_has_a_date(days_since_unix_epoch as int);
        let (y, m, d) = civil_date(days_since_unix_epoch as int);
        dates_are_told_apart(y, m, d, true_year, date.1 as int, date.2 as int);
        assert(date.0 == true_year as i32);
    }
    date
}

/// A number in decimal notation, with a sign where it is negative and with
/// leading zeros up to `width` characters.
pub open spec fn signed_padded(n: int, width: nat) -> Seq<char> {
    if n >= 0 {
        text::zero_padded(n as nat, width)
    } else {
        seq!['-'] + text::zero_padded((-n) as nat, (width - 1) as nat)
    }
}

/// The time of a number of seconds since the beginning of 1970, in UTC.
pub open spec fn timestamp_text(timestamp: u64) -> Seq<char> {
    let (year, month, day) = civil_date(timestamp as int / 86400);
    let second = timestamp as int % 86400;
    signed_padded((year as i32) as int, 4) + "-"@ + text::zero_padded(month as nat, 2) + "-"@
        + text::zero_padded(day as nat, 2) + "T"@ + text::zero_padded((second / 3600) as nat, 2)
        + ":"@ + text::zero_padded((second % 3600 / 60) as nat, 2) + ":"@ + text::zero_padded(
        (second % 60) as nat,
        2,
    ) + "Z"@
}

fn push_year(out: &mut String, year: i32)
    ensures
        final(out)@ == old(out)@ + signed_padded(year as int, 4),
{
    if year >= 0 {
        text::push_zero_padded(out, year as u64, 4);
    } else {
        let size: u64 = (-(year as i64)) as u64;
        out.push('-');
        text::push_zero_padded(out, size, 3);
        proof {
            assert(out@ =~= old(out)@ + signed_padded(year as int, 4));
        }
    }
}

/// The time of a number of seconds since the beginning of 1970, in UTC.
pub fn format_unix_timestamp_utc(timestamp: u64) -> (out: String)
    ensures
        out@ == timestamp_text(timestamp),
{
    let days: i64 = (timestamp / 86_400) as i64;
    let second_of_day = timestamp % 86_400;
    let (year, month, day) = civil_from_days(days);
    let mut out = String::new();
    push_year(&mut out, year);
    proof {
        assert(out@ =~= signed_padded(year as int, 4));
    }
    out.append("-");
    text::push_zero_padded(&mut out, month as u64, 2);
    out.append("-");
    text::push_zero_padded(&mut out, day as u64, 2);
    out.append("T");
    text::push_zero_padded(&mut out, second_of_day / 3_600, 2);
    out.append(":");
    text::push_zero_padded(&mut out, (second_of_day % 3_600) / 60, 2);
    out.append(":");
    text::push_zero_padded(&mut out, second_of_day % 60, 2);
    out.append("Z");
    out
}

/// The date and the time of a second are written from the year down to the second: the
/// date has the number of the day, and the seconds that are left make up the time.
pub proof fn timestamps_tell_date_and_time(
    timestamp: u64,
    year: int,
    month: int,
    day: int,
    hour: nat,
    minute: nat,
    second: nat,
)
    requires
        is_date(year, month, day),
        0 <= year <= 9999,
        hour < 24,
        minute < 60,
        second < 60,
        timestamp == day_number(year, month, day) * 86400 + hour * 3600 + minute * 60 + second,
    ensures
        timestamp_text(timestamp) == text::zero_padded(year as nat, 4) + seq!['-']
            + text::zero_padded(month as nat, 2) + seq!['-'] + text::zero_padded(day as nat, 2)
            + seq!['T'] + text::zero_padded(hour, 2) + seq![':'] + text::zero_padded(minute, 2)
            + seq![':'] + text::zero_padded(second, 2) + seq!['Z'],
{
    let days = timestamp as int / 86400;
    let rest = timestamp as int % 86400;
    assert(days == day_number(year, month, day));
    assert(rest == hour * 3600 + minute * 60 + second);
    every_day_has_a_date(days);
    let (y, m, d) = civil_date(days);
    dates_are_told_apart(y, m, d, year, month, day);
    assert(rest / 3600 == hour);
    assert(rest % 3600 == minute * 60 + second);
    assert((rest % 3600) / 60 == minute);
    assert(rest % 60 == second);
    reveal_strlit("-");
    reveal_strlit("T");
    reveal_strlit(":");
    reveal_strlit("Z");
    assert("-"@ =~= seq!['-']);
    assert("T"@ =~= seq!['T']);
    assert(":"@ =~= seq![':']);
    assert("Z"@ =~= seq!['Z']);
}

/// The months have the days that they have: thirty in four of them, thirty-one in
/// seven, and twenty-eight in February, but for leap years, which are those that four
/// divides, but not those that a hundred divides, unless four hundred does.
pub proof fn months_have_their_days(year: int)
    ensures
        days_in_month(year, 1) == 31 && days_in_month(year, 3) == 31 && days_in_month(year, 5)
            == 31 && days_in_month(year, 7) == 31 && days_in_month(year, 8) == 31
            && days_in_month(year, 10) == 31 && days_in_month(year, 12) == 31,
        days_in_month(year, 4) == 30 && days_in_month(year, 6) == 30 && days_in_month(year, 9)
            == 30 && days_in_month(year, 11) == 30,
        year % 400 == 0 ==> days_in_month(year, 2) == 29,
        year % 100 == 0 && year % 400 != 0 ==> days_in_month(year, 2) == 28,
        year % 4 == 0 && year % 100 != 0 ==> days_in_month(year, 2) == 29,
        year % 4 != 0 ==> days_in_month(year, 2) == 28,
{
}

} // verus!
