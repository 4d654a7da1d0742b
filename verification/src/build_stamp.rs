//! Build stamps: when a build was made, as a timestamp and as a day count that
//! fits a 16-bit version component.

use vstd::prelude::*;

verus! {

/// Days between 1970-01-01 and 2020-01-01.
pub const EPOCH_2020_DAYS: u64 = 18_262;

/// The largest value of a 16-bit version component.
pub const LARGEST_COMPONENT: u64 = 65_535;

/// Build stamp captured once per build.
#[derive(Debug, Clone, PartialEq, Eq)]
pub struct BuildStamp {
    /// UTC ISO-8601 timestamp, e.g. `2026-06-16T14:30:05Z`.
    pub timestamp: String,
    /// Unix seconds at build time.
    pub epoch: u64,
    /// Days since 2020-01-01 (fits a 16-bit version component).
    pub number: u64,
}

/// Whether a year of the Gregorian calendar has 366 days.
pub open spec fn is_leap_year(year: int) -> bool {
    year % 4 == 0 && (year % 100 != 0 || year % 400 == 0)
}

/// Days in a month.
pub open spec fn days_in_month(year: int, month: int) -> int {
    if month == 2 {
        if is_leap_year(year) {
            29
        } else {
            28
        }
    } else if month == 4 || month == 6 || month == 9 || month == 11 {
        30
    } else {
        31
    }
}

/// Days of a year before a month.
pub open spec fn days_before_month(year: int, month: int) -> int
    decreases month,
{
    if month <= 1 {
        0
    } else {
        days_before_month(year, month - 1) + days_in_month(year, month - 1)
    }
}

/// Days from the start of year 1 to the start of a year.
pub open spec fn days_before_year(year: int) -> int {
    let past = year - 1;
    365 * past + past / 4 - past / 100 + past / 400
}

/// Whether year, month and day name a day of the calendar.
pub open spec fn is_calendar_day(year: int, month: int, day: int) -> bool {
    &&& 1 <= month <= 12
    &&& 1 <= day <= days_in_month(year, month)
}

/// Days from 1970-01-01 to a day of the calendar.
pub open spec fn days_since_1970(year: int, month: int, day: int) -> int {
    days_before_year(year) - days_before_year(1970) + days_before_month(year, month) + day - 1
}

/// A decimal digit as a character.
pub open spec fn digit_char(digit: int) -> char {
    (48 + digit) as char
}

/// A number in decimal, with leading zeros to at least `width` digits.
pub open spec fn padded(n: nat, width: nat) -> Seq<char>
    decreases n, width,
{
    if n < 10 && width <= 1 {
        seq![digit_char(n as int)]
    } else {
        let rest = if width > 0 {
            (width - 1) as nat
        } else {
            0
        };
        padded(n / 10, rest).push(digit_char((n % 10) as int))
    }
}

/// A UTC time in ISO-8601.
pub open spec fn iso_time(
    year: u64,
    month: u32,
    day: u32,
    hour: u32,
    minute: u32,
    second: u32,
) -> Seq<char> {
    padded(year as nat, 4) + seq!['-'] + padded(month as nat, 2) + seq!['-'] + padded(day as nat, 2)
        + seq!['T'] + padded(hour as nat, 2) + seq![':'] + padded(minute as nat, 2) + seq![':']
        + padded(second as nat, 2) + seq!['Z']
}

/// Whether a civil time is that of some Unix seconds.
pub open spec fn is_civil_time(secs: u64, civil: (u64, u32, u32, u32, u32, u32)) -> bool {
    let (year, month, day, hour, minute, second) = civil;
    &&& is_calendar_day(year as int, month as int, day as int)
    &&& days_since_1970(year as int, month as int, day as int) == secs as int / 86_400
    &&& hour < 24
    &&& minute < 60
    &&& second < 60
    &&& hour * 3_600 + minute * 60 + second == secs as int % 86_400
}

/// The first day of a year of a 400-year era that starts on March 1.
pub open spec fn era_year_start(year: int) -> int {
    365 * year + year / 4 - year / 100
}

/// The year of the era that a day of it falls in.
proof fn lemma_year_of_era(doe: int, yoe: int)
    requires
        0 <= doe < 146_097,
        yoe == (doe - doe / 1_460 + doe / 36_524 - doe / 146_096) / 365,
    ensures
        0 <= yoe < 400,
        era_year_start(yoe) <= doe,
        yoe < 399 ==> doe < era_year_start(yoe + 1),
        yoe == 399 ==> doe - era_year_start(yoe) <= 365,
{
    let century = doe / 36_524;
    if century == 4 {
        assert(doe == 146_096);
    } else {
        // Century, four-year block and year of the block, each counted from 0.
        let block = doe % 36_524 / 1_461;
        let left = doe % 36_524 % 1_461;
        let year = if left / 365 < 3 {
            left / 365
        } else {
            3
        };
        let doy = left - 365 * year;
        let y = 100 * century + 4 * block + year;
        assert(doe == 36_524 * century + 1_461 * block + 365 * year + doy);
        assert(0 <= century <= 3 && 0 <= block <= 24 && 0 <= doy <= 365);
        assert(y / 4 == 25 * century + block);
        assert(y / 100 == century);
        assert(era_year_start(y) == doe - doy);
        let extra = 24 * century + block + 365 * year + doy;
        assert(doe == 1_460 * (25 * century + block) + extra);
        assert(doe / 1_460 == 25 * century + block + extra / 1_460);
        assert(doe / 146_096 == 0);
        assert(doe - doe / 1_460 + century - 0 == 365 * y + doy - extra / 1_460);
        assert(0 <= doy - extra / 1_460 < 365);
        assert(yoe == y);
        assert((y + 1) / 4 == if year == 3 {
            25 * century + block + 1
        } else {
            25 * century + block
        });
        assert((y + 1) / 100 == if block == 24 && year == 3 {
            century + 1
        } else {
            century
        });
    }
}

/// Convert Unix seconds to civil UTC `(year, month, day, hour, minute, second)`.
///
/// Years are counted from March 1 in eras of 400 years, so that the leap day is
/// the last day of its year.
pub fn civil_from_unix(secs: u64) -> (r: (u64, u32, u32, u32, u32, u32))
    ensures
        is_civil_time(secs, r),
{
    let days: u64 = secs / 86_400;
    let rem: u64 = secs % 86_400;
    let z: u64 = days + 719_468;
    let era: u64 = z / 146_097;
    let doe: u64 = z % 146_097;
    let yoe: u64 = (doe - doe / 1_460 + doe / 36_524 - doe / 146_096) / 365;
    proof {
        lemma_year_of_era(doe as int, yoe as int);
    }
    let doy: u64 = doe - (365 * yoe + yoe / 4 - yoe / 100);
    let mp: u64 = (5 * doy + 2) / 153;
    let day: u64 = doy - (153 * mp + 2) / 5 + 1;
    let month: u64 = if mp < 10 {
        mp + 3
    } else {
        mp - 9
    };
    let year: u64 = if month <= 2 {
        yoe + era * 400 + 1
    } else {
        yoe + era * 400
    };
    proof {
        lemma_day_of_era(days as int, era as int, doe as int, yoe as int);
    }
    (
        year,
        month as u32,
        day as u32,
        (rem / 3_600) as u32,
        (rem % 3_600 / 60) as u32,
        (rem % 60) as u32,
    )
}

/// Month and day of a day of the era, and its distance from 1970-01-01.
proof fn lemma_day_of_era(days: int, era: int, doe: int, yoe: int)
    requires
        days + 719_468 == 146_097 * era + doe,
        0 <= era,
        0 <= doe < 146_097,
        0 <= yoe < 400,
        era_year_start(yoe) <= doe,
        yoe < 399 ==> doe < era_year_start(yoe + 1),
        yoe == 399 ==> doe - era_year_start(yoe) <= 365,
    ensures
        ({
            let doy = doe - era_year_start(yoe);
            let mp = (5 * doy + 2) / 153;
            let day = doy - (153 * mp + 2) / 5 + 1;
            let month = if mp < 10 {
                mp + 3
            } else {
                mp - 9
            };
            let year = if month <= 2 {
                yoe + era * 400 + 1
            } else {
                yoe + era * 400
            };
            &&& 0 <= mp <= 11
            &&& is_calendar_day(year, month, day)
            &&& days_since_1970(year, month, day) == days
        }),
{
    let doy = doe - era_year_start(yoe);
    let march = yoe + era * 400;
    assert(march / 4 == yoe / 4 + 100 * era);
    assert(march / 100 == yoe / 100 + 4 * era);
    assert(march / 400 == era);
    assert(days_before_year(march + 1) == era_year_start(yoe) + 146_097 * era);
    assert(0 <= doy <= 365);
    assert(doy == 365 ==> is_leap_year(march + 1)) by {
        lemma_leap_after(yoe, era);
    }
    lemma_year_length(march);
    lemma_month_of_year(march, doy);
}

/// A year of the era has 366 days exactly if the calendar year it ends in is a
/// leap year.
proof fn lemma_leap_after(yoe: int, era: int)
    requires
        0 <= yoe < 400,
    ensures
        yoe < 399 ==> era_year_start(yoe + 1) - era_year_start(yoe) == if is_leap_year(
            yoe + era * 400 + 1,
        ) {
            366
        } else {
            365int
        },
        yoe == 399 ==> is_leap_year(yoe + era * 400 + 1),
{
    let next = yoe + era * 400 + 1;
    vstd::arithmetic::div_mod::lemma_mod_multiples_vanish(100 * era, yoe + 1, 4);
    vstd::arithmetic::div_mod::lemma_mod_multiples_vanish(4 * era, yoe + 1, 100);
    vstd::arithmetic::div_mod::lemma_mod_multiples_vanish(era, yoe + 1, 400);
    assert(next % 4 == (yoe + 1) % 4 && next % 100 == (yoe + 1) % 100);
    assert(next % 400 == (yoe + 1) % 400);
    if yoe < 399 {
        vstd::arithmetic::div_mod::lemma_small_mod((yoe + 1) as nat, 400);
        lemma_quotient_steps(yoe, 4);
        lemma_quotient_steps(yoe, 100);
    }
}

/// The quotient by `d` grows exactly at the multiples of `d`.
proof fn lemma_quotient_steps(x: int, d: int)
    requires
        d > 0,
    ensures
        (x + 1) / d == x / d + if (x + 1) % d == 0 {
            1
        } else {
            0int
        },
{
    let q = x / d;
    let r = x % d;
    vstd::arithmetic::div_mod::lemma_fundamental_div_mod(x, d);
    vstd::arithmetic::div_mod::lemma_mod_bound(x, d);
    if r + 1 < d {
        assert(x + 1 == q * d + (r + 1)) by (nonlinear_arith)
            requires
                x == d * q + r,
        ;
        vstd::arithmetic::div_mod::lemma_fundamental_div_mod_converse(x + 1, d, q, r + 1);
    } else {
        assert(x + 1 == (q + 1) * d + 0) by (nonlinear_arith)
            requires
                x == d * q + r,
                r + 1 == d,
        ;
        vstd::arithmetic::div_mod::lemma_fundamental_div_mod_converse(x + 1, d, q + 1, 0);
    }
}

/// A calendar year has 366 days exactly if it is a leap year.
pub proof fn lemma_year_length(year: int)
    ensures
        days_before_year(year + 1) - days_before_year(year) == if is_leap_year(year) {
            366
        } else {
            365int
        },
{
    lemma_quotient_steps(year - 1, 4);
    lemma_quotient_steps(year - 1, 100);
    lemma_quotient_steps(year - 1, 400);
}

/// Days of a year before each month.
pub proof fn lemma_days_before_months(year: int)
    ensures
        ({
            let feb = if is_leap_year(year) {
                29
            } else {
                28int
            };
            &&& days_before_month(year, 1) == 0
            &&& days_before_month(year, 2) == 31
            &&& days_before_month(year, 3) == 31 + feb
            &&& days_before_month(year, 4) == 62 + feb
            &&& days_before_month(year, 5) == 92 + feb
            &&& days_before_month(year, 6) == 123 + feb
            &&& days_before_month(year, 7) == 153 + feb
            &&& days_before_month(year, 8) == 184 + feb
            &&& days_before_month(year, 9) == 215 + feb
            &&& days_before_month(year, 10) == 245 + feb
            &&& days_before_month(year, 11) == 276 + feb
            &&& days_before_month(year, 12) == 306 + feb
        }),
{
    reveal_with_fuel(days_before_month, 13);
}

/// Month and day of the `doy`-th day from March 1 of a year.
proof fn lemma_month_of_year(march: int, doy: int)
    requires
        0 <= doy <= 365,
        doy == 365 ==> is_leap_year(march + 1),
    ensures
        ({
            let mp = (5 * doy + 2) / 153;
            let day = doy - (153 * mp + 2) / 5 + 1;
            let month = if mp < 10 {
                mp + 3
            } else {
                mp - 9
            };
            let year = if month <= 2 {
                march + 1
            } else {
                march
            };
            &&& 0 <= mp <= 11
            &&& is_calendar_day(year, month, day)
            &&& month >= 3 ==> days_before_month(year, month) + day - 1 == doy + 59 + (
            if is_leap_year(march) {
                1
            } else {
                0int
            })
            &&& month <= 2 ==> days_before_month(year, month) + day - 1 == doy - 306
        }),
{
    lemma_days_before_months(march);
    lemma_days_before_months(march + 1);
    let mp = (5 * doy + 2) / 153;
    assert(mp == 0 || mp == 1 || mp == 2 || mp == 3 || mp == 4 || mp == 5 || mp == 6 || mp == 7
        || mp == 8 || mp == 9 || mp == 10 || mp == 11);
}

/// The digit as text.
fn digit_text(digit: u64) -> (r: &'static str)
    requires
        digit < 10,
    ensures
        r@ == seq![digit_char(digit as int)],
{
    proof {
        reveal_strlit("0");
        reveal_strlit("1");
        reveal_strlit("2");
        reveal_strlit("3");
        reveal_strlit("4");
        reveal_strlit("5");
        reveal_strlit("6");
        reveal_strlit("7");
        reveal_strlit("8");
        reveal_strlit("9");
    }
    let text = match digit {
        0 => "0",
        1 => "1",
        2 => "2",
        3 => "3",
        4 => "4",
        5 => "5",
        6 => "6",
        7 => "7",
        8 => "8",
        _ => "9",
    };
    assert(text@ =~= seq![digit_char(digit as int)]);
    text
}

/// Append a number in decimal, with leading zeros to at least `width` digits.
fn append_padded(text: &mut String, n: u64, width: u64)
    ensures
        final(text)@ == old(text)@ + padded(n as nat, width as nat),
    decreases n, width,
{
    let ghost start = text@;
    if n >= 10 || width > 1 {
        let rest: u64 = if width > 0 {
            width - 1
        } else {
            0
        };
        append_padded(text, n / 10, rest);
    }
    text.append(digit_text(n % 10));
    assert(text@ =~= start + padded(n as nat, width as nat));
}

/// A UTC time in ISO-8601, e.g. `2026-06-16T14:30:05Z`.
fn iso_timestamp(civil: (u64, u32, u32, u32, u32, u32)) -> (r: String)
    ensures
        r@ == iso_time(civil.0, civil.1, civil.2, civil.3, civil.4, civil.5),
{
    proof {
        reveal_strlit("-");
        reveal_strlit("T");
        reveal_strlit(":");
        reveal_strlit("Z");
    }
    let (year, month, day, hour, minute, second) = civil;
    let mut text = String::new();
    append_padded(&mut text, year, 4);
    text.append("-");
    append_padded(&mut text, month as u64, 2);
    text.append("-");
    append_padded(&mut text, day as u64, 2);
    text.append("T");
    append_padded(&mut text, hour as u64, 2);
    text.append(":");
    append_padded(&mut text, minute as u64, 2);
    text.append(":");
    append_padded(&mut text, second as u64, 2);
    text.append("Z");
    assert("-"@ =~= seq!['-']);
    assert("T"@ =~= seq!['T']);
    assert(":"@ =~= seq![':']);
    assert("Z"@ =~= seq!['Z']);
    assert(text@ =~= iso_time(year, month, day, hour, minute, second));
    text
}

/// The build time to stamp: the override if there is one, else the current
/// time, else the start of 1970.
pub fn stamp_epoch(requested: Option<u64>, now: Option<u64>) -> (r: u64)
    ensures
        r == match (requested, now) {
            (Some(epoch), _) => epoch,
            (None, Some(epoch)) => epoch,
            (None, None) => 0,
        },
{
    match requested {
        Some(epoch) => epoch,
        None => match now {
            Some(epoch) => epoch,
            None => 0,
        },
    }
}

/// Days from 2020-01-01, held to the range of a 16-bit version component.
pub open spec fn build_number(epoch: u64) -> int {
    let days = epoch as int / 86_400 - EPOCH_2020_DAYS;
    if days < 0 {
        0
    } else if days > LARGEST_COMPONENT {
        LARGEST_COMPONENT as int
    } else {
        days
    }
}

/// The build stamp of a build made at the given Unix seconds. The day count of
/// a build before 2020-01-01 is 0, and one that does not fit the version
/// component is the largest that does.
pub fn build_stamp(epoch: u64) -> (r: BuildStamp)
    ensures
        r.epoch == epoch,
        r.number == build_number(epoch),
        r.number <= 65_535,
        exists|civil: (u64, u32, u32, u32, u32, u32)| #[trigger]
            is_civil_time(epoch, civil) && r.timestamp@ == iso_time(
                civil.0,
                civil.1,
                civil.2,
                civil.3,
                civil.4,
                civil.5,
            ),
{
    let civil = civil_from_unix(epoch);
    let timestamp = iso_timestamp(civil);
    assert(is_civil_time(epoch, civil));
    let days: u64 = (epoch / 86_400).saturating_sub(EPOCH_2020_DAYS);
    let number: u64 = if days > LARGEST_COMPONENT {
        LARGEST_COMPONENT
    } else {
        days
    };
    BuildStamp { timestamp, epoch, number }
}

/// A version with the build time, e.g. `0.2.9 (built 2026-06-16T14:30:05Z)`.
pub fn version_long(version: &str, timestamp: &str) -> (r: String)
    ensures
        r@ == version@ + " (built "@ + timestamp@ + ")"@,
{
    let mut text = String::new();
    text.append(version);
    text.append(" (built ");
    text.append(timestamp);
    text.append(")");
    assert(text@ =~= version@ + " (built "@ + timestamp@ + ")"@);
    text
}

/// The comment of a version resource, e.g. `Built 2026-06-16T14:30:05Z`.
pub fn build_comments(timestamp: &str) -> (r: String)
    ensures
        r@ == "Built "@ + timestamp@,
{
    let mut text = String::new();
    text.append("Built ");
    text.append(timestamp);
    assert(text@ =~= "Built "@ + timestamp@);
    text
}

/// A version with the build number as its fourth component.
pub fn file_version(version: &str, number: u64) -> (r: String)
    ensures
        r@ == version@ + "."@ + padded(number as nat, 1),
{
    let mut text = String::new();
    text.append(version);
    text.append(".");
    append_padded(&mut text, number, 1);
    assert(text@ =~= version@ + "."@ + padded(number as nat, 1));
    text
}

/// No two days of the calendar are equally far from 1970-01-01, so Unix seconds
/// have one civil time.
pub proof fn law_civil_time_is_unique(
    secs: u64,
    a: (u64, u32, u32, u32, u32, u32),
    b: (u64, u32, u32, u32, u32, u32),
)
    requires
        is_civil_time(secs, a),
        is_civil_time(secs, b),
    ensures
        a == b,
{
    lemma_day_in_year(a.0 as int, a.1 as int, a.2 as int);
    lemma_day_in_year(b.0 as int, b.1 as int, b.2 as int);
    if a.0 < b.0 {
        lemma_years_increase(a.0 as int + 1, b.0 as int);
    } else if b.0 < a.0 {
        lemma_years_increase(b.0 as int + 1, a.0 as int);
    }
    assert(a.0 == b.0);
    lemma_days_before_months(a.0 as int);
    if a.1 < b.1 {
        lemma_months_increase(a.0 as int, a.1 as int + 1, b.1 as int);
    } else if b.1 < a.1 {
        lemma_months_increase(a.0 as int, b.1 as int + 1, a.1 as int);
    }
}

/// The day of a year lies in that year.
proof fn lemma_day_in_year(year: int, month: int, day: int)
    requires
        is_calendar_day(year, month, day),
    ensures
        days_before_year(year) <= days_since_1970(year, month, day) + days_before_year(1970)
            < days_before_year(year + 1),
{
    lemma_year_length(year);
    lemma_days_before_months(year);
}

proof fn lemma_years_increase(a: int, b: int)
    requires
        a <= b,
    ensures
        days_before_year(a) <= days_before_year(b),
{
}

proof fn lemma_months_increase(year: int, a: int, b: int)
    requires
        1 <= a <= b,
    ensures
        days_before_month(year, a) <= days_before_month(year, b),
    decreases b - a,
{
    if a < b {
        lemma_months_increase(year, a, b - 1);
    }
}

} // verus!
