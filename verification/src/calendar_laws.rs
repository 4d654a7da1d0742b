//! What holds of the calendar, and of numbers and times as text.

use vstd::prelude::*;
use vstd::arithmetic::power::{lemma_pow0, lemma_pow_positive, pow};

use crate::build_stamp::{
    build_number, days_before_month, days_before_year, days_since_1970, digit_char, is_calendar_day,
    is_civil_time, iso_time, law_civil_time_is_unique, lemma_days_before_months, lemma_year_length,
    padded,
};
use crate::epoch_text::{
    all_digits, decimal_value, epoch_in, is_white_space, trimmed_back, trimmed_front, unsigned,
};

verus! {

/// Days of a month: thirty in April, June, September and November, in February
/// twenty-eight, or twenty-nine in every fourth year but three of four centuries,
/// and else thirty-one.
pub open spec fn month_length(year: int, month: int) -> int {
    if month == 1 || month == 3 || month == 5 || month == 7 || month == 8 || month == 10 || month
        == 12 {
        31
    } else if month != 2 {
        30
    } else if year % 400 == 0 {
        29
    } else if year % 100 == 0 {
        28
    } else if year % 4 == 0 {
        29
    } else {
        28
    }
}

/// The second after a civil time.
pub open spec fn next_second(civil: (u64, u32, u32, u32, u32, u32)) -> (
    int,
    int,
    int,
    int,
    int,
    int,
) {
    let (year, month, day, hour, minute, second) = (
        civil.0 as int,
        civil.1 as int,
        civil.2 as int,
        civil.3 as int,
        civil.4 as int,
        civil.5 as int,
    );
    if second < 59 {
        (year, month, day, hour, minute, second + 1)
    } else if minute < 59 {
        (year, month, day, hour, minute + 1, 0)
    } else if hour < 23 {
        (year, month, day, hour + 1, 0, 0)
    } else if day < month_length(year, month) {
        (year, month, day + 1, 0, 0, 0)
    } else if month < 12 {
        (year, month + 1, 1, 0, 0, 0)
    } else {
        (year + 1, 1, 1, 0, 0, 0)
    }
}

/// The days of the calendar are those of its months.
pub proof fn law_months_have_their_days(year: int, month: int, day: int)
    ensures
        is_calendar_day(year, month, day) <==> 1 <= month <= 12 && 1 <= day <= month_length(
            year,
            month,
        ),
{
    assert(year % 100 == 0 ==> year % 4 == 0);
    assert(year % 400 == 0 ==> year % 100 == 0);
}

/// The days of the calendar are counted one by one from the first of 1970: over
/// days, months and years.
pub proof fn law_days_are_counted_one_by_one(year: int, month: int, day: int)
    requires
        1 <= month <= 12,
        1 <= day <= month_length(year, month),
    ensures
        days_since_1970(1970, 1, 1) == 0,
        days_since_1970(year, month, day + 1) == days_since_1970(year, month, day) + 1,
        day == month_length(year, month) && month < 12 ==> days_since_1970(year, month + 1, 1)
            == days_since_1970(year, month, day) + 1,
        day == month_length(year, month) && month == 12 ==> days_since_1970(year + 1, 1, 1)
            == days_since_1970(year, month, day) + 1,
{
    law_months_have_their_days(year, month, day);
    law_months_have_their_days(year, month, day + 1);
    lemma_year_length(year);
    lemma_days_before_months(year);
    lemma_days_before_months(year + 1);
    lemma_days_before_months(1970);
}

/// Time starts at midnight of the first of 1970.
pub proof fn law_time_starts_in_1970()
    ensures
        is_civil_time(0, (1970, 1, 1, 0, 0, 0)),
{
    lemma_days_before_months(1970);
}

/// Each second of Unix time is the civil second after the one before: over
/// minutes, hours, days, months and years.
pub proof fn law_seconds_follow_each_other(
    secs: u64,
    now: (u64, u32, u32, u32, u32, u32),
    after: (u64, u32, u32, u32, u32, u32),
)
    requires
        secs < u64::MAX,
        is_civil_time(secs, now),
        is_civil_time((secs + 1) as u64, after),
    ensures
        ({
            let next = next_second(now);
            &&& after.0 == next.0 && after.1 == next.1 && after.2 == next.2
            &&& after.3 == next.3 && after.4 == next.4 && after.5 == next.5
        }),
{
    lemma_year_is_small(secs, now);
    let next = next_second(now);
    let civil = (
        next.0 as u64,
        next.1 as u32,
        next.2 as u32,
        next.3 as u32,
        next.4 as u32,
        next.5 as u32,
    );
    if now.5 < 59 || now.4 < 59 || now.3 < 23 {
        lemma_later_that_day(secs, now);
    } else {
        lemma_midnight(secs, now);
    }
    law_civil_time_is_unique((secs + 1) as u64, civil, after);
}

proof fn lemma_year_is_small(secs: u64, now: (u64, u32, u32, u32, u32, u32))
    requires
        is_civil_time(secs, now),
    ensures
        now.0 <= 1_000_000_000_000_000,
        now.1 <= 12,
        now.2 <= 31,
{
    lemma_days_before_months(now.0 as int);
    let past = now.0 - 1;
    assert(days_before_year(now.0 as int) >= 364 * past - 10);
    assert(days_before_year(1970) <= 1_000_000);
    assert(days_before_month(now.0 as int, now.1 as int) >= 0);
}

proof fn lemma_later_that_day(secs: u64, now: (u64, u32, u32, u32, u32, u32))
    requires
        secs < u64::MAX,
        is_civil_time(secs, now),
        now.0 <= 1_000_000_000_000_000,
        now.5 < 59 || now.4 < 59 || now.3 < 23,
    ensures
        ({
            let next = next_second(now);
            is_civil_time(
                (secs + 1) as u64,
                (
                    next.0 as u64,
                    next.1 as u32,
                    next.2 as u32,
                    next.3 as u32,
                    next.4 as u32,
                    next.5 as u32,
                ),
            )
        }),
{
    let left = secs as int % 86_400;
    assert(left < 86_399);
    assert((secs + 1) % 86_400 == left + 1);
    assert((secs + 1) / 86_400 == secs as int / 86_400);
}

proof fn lemma_midnight(secs: u64, now: (u64, u32, u32, u32, u32, u32))
    requires
        secs < u64::MAX,
        is_civil_time(secs, now),
        now.0 <= 1_000_000_000_000_000,
        now.5 == 59 && now.4 == 59 && now.3 == 23,
    ensures
        ({
            let next = next_second(now);
            is_civil_time(
                (secs + 1) as u64,
                (
                    next.0 as u64,
                    next.1 as u32,
                    next.2 as u32,
                    next.3 as u32,
                    next.4 as u32,
                    next.5 as u32,
                ),
            )
        }),
{
    let (year, month, day) = (now.0 as int, now.1 as int, now.2 as int);
    law_months_have_their_days(year, month, day);
    law_days_are_counted_one_by_one(year, month, day);
    let next = next_second(now);
    assert((secs + 1) % 86_400 == 0);
    assert((secs + 1) / 86_400 == secs as int / 86_400 + 1);
    law_months_have_their_days(next.0, next.1, next.2);
    assert(days_since_1970(next.0, next.1, next.2) == days_since_1970(year, month, day) + 1);
}

/// The build number is how many days after the first of 2020 the build was made,
/// held between zero and what fits in sixteen bits.
pub proof fn law_build_number_counts_days_from_2020(
    epoch: u64,
    civil: (u64, u32, u32, u32, u32, u32),
)
    requires
        is_civil_time(epoch, civil),
    ensures
        ({
            let days = days_since_1970(civil.0 as int, civil.1 as int, civil.2 as int)
                - days_since_1970(2020, 1, 1);
            &&& 0 <= days <= 0xffff ==> build_number(epoch) == days
            &&& days < 0 ==> build_number(epoch) == 0
            &&& days > 0xffff ==> build_number(epoch) == 0xffff
        }),
{
    lemma_days_before_months(2020);
}

/// A number in decimal shows its digits, the last one the units. It has as many
/// as are asked for, and more only as far as the number needs.
pub proof fn law_padded_number_shows_its_digits(n: nat, width: nat, i: int)
    ensures
        ({
            let text = padded(n, width);
            &&& text.len() >= 1
            &&& text.len() >= width
            &&& n < pow(10, text.len())
            &&& text.len() > 1 && text.len() > width ==> text[0] != '0'
            &&& 0 <= i < text.len() ==> text[text.len() - 1 - i] as int == 48 + (n as int / pow(
                10,
                i as nat,
            )) % 10
        }),
    decreases n, width,
{
    let text = padded(n, width);
    lemma_pow0(10);
    lemma_powers(i);
    if n < 10 && width <= 1 {
        assert(text.last() == digit_char(n as int));
        assert(pow(10, 1) == 10) by {
            lemma_powers(1);
        }
    } else {
        let rest = if width > 0 {
            (width - 1) as nat
        } else {
            0
        };
        let front = padded(n / 10, rest);
        law_padded_number_shows_its_digits(n / 10, rest, i - 1);
        assert(text == front.push(digit_char((n % 10) as int)));
        assert(pow(10, text.len()) == 10 * pow(10, front.len())) by {
            lemma_powers(text.len() as int);
        }
        assert(n < pow(10, text.len()));
        if i == 0 {
            assert(text[text.len() - 1] as int == 48 + n % 10);
        } else if 0 < i < text.len() {
            let p = pow(10, (i - 1) as nat);
            lemma_pow_positive(10, (i - 1) as nat);
            vstd::arithmetic::div_mod::lemma_div_denominator(n as int, 10, p);
            assert(text[text.len() - 1 - i] == front[front.len() - 1 - (i - 1)]);
        }
        if text.len() > 1 && text.len() > width && front.len() == 1 {
            law_padded_number_shows_its_digits(n / 10, rest, 0);
            assert(n >= 10);
            assert(front[0] as int == 48 + (n / 10) as int % 10);
            assert(n / 10 < pow(10, 1));
            lemma_powers(1);
            assert(n / 10 >= 1);
        }
    }
}

proof fn lemma_powers(i: int)
    ensures
        i > 0 ==> pow(10, i as nat) == 10 * pow(10, (i - 1) as nat),
        pow(10, 0) == 1,
{
    reveal(pow);
}

/// A time as text: the year with at least four digits, followed by month, day, hour,
/// minute and second with two each, and the marks between them.
pub proof fn law_time_text_has_its_marks(
    year: u64,
    month: u32,
    day: u32,
    hour: u32,
    minute: u32,
    second: u32,
    i: int,
)
    requires
        month < 100,
        day < 100,
        hour < 100,
        minute < 100,
        second < 100,
    ensures
        ({
            let text = iso_time(year, month, day, hour, minute, second);
            let n = text.len() - 16;
            &&& n >= 4
            &&& n > 4 ==> text[0] != '0'
            &&& year < pow(10, n as nat)
            &&& 0 <= i < n ==> text[n - 1 - i] as int == 48 + (year as int / pow(10, i as nat)) % 10
            &&& text[n] == '-' && text[n + 3] == '-' && text[n + 6] == 'T'
            &&& text[n + 9] == ':' && text[n + 12] == ':' && text[n + 15] == 'Z'
            &&& text[n + 1] as int == 48 + month as int / 10
            &&& text[n + 2] as int == 48 + month as int % 10
            &&& text[n + 4] as int == 48 + day as int / 10
            &&& text[n + 5] as int == 48 + day as int % 10
            &&& text[n + 7] as int == 48 + hour as int / 10
            &&& text[n + 8] as int == 48 + hour as int % 10
            &&& text[n + 10] as int == 48 + minute as int / 10
            &&& text[n + 11] as int == 48 + minute as int % 10
            &&& text[n + 13] as int == 48 + second as int / 10
            &&& text[n + 14] as int == 48 + second as int % 10
        }),
{
    law_padded_number_shows_its_digits(year as nat, 4, i);
    lemma_two_digits(month as nat);
    lemma_two_digits(day as nat);
    lemma_two_digits(hour as nat);
    lemma_two_digits(minute as nat);
    lemma_two_digits(second as nat);
    let text = iso_time(year, month, day, hour, minute, second);
    let n = padded(year as nat, 4).len();
    assert(text.len() == n + 16);
    assert(text[0] == padded(year as nat, 4)[0]);
    if 0 <= i < n {
        assert(text[n - 1 - i] == padded(year as nat, 4)[n - 1 - i]);
    }
}

proof fn lemma_two_digits(n: nat)
    requires
        n < 100,
    ensures
        padded(n, 2).len() == 2,
        padded(n, 2)[0] as int == 48 + n / 10,
        padded(n, 2)[1] as int == 48 + n % 10,
{
    reveal_with_fuel(padded, 3);
}

/// Whether a character is white space, by its number.
pub open spec fn blank(c: char) -> bool {
    let code = c as int;
    ||| code == 9 || code == 10 || code == 11 || code == 12 || code == 13 || code == 32
    ||| code == 133 || code == 160 || code == 5760
    ||| code == 8192 || code == 8193 || code == 8194 || code == 8195 || code == 8196
    ||| code == 8197 || code == 8198 || code == 8199 || code == 8200 || code == 8201
    ||| code == 8202 || code == 8232 || code == 8233 || code == 8239 || code == 8287
    ||| code == 12288
}

/// Whether a text is nothing but white space.
pub open spec fn all_blank(text: Seq<char>) -> bool {
    forall|i: int| 0 <= i < text.len() ==> blank(#[trigger] text[i])
}

/// White space is what it is by its number.
pub proof fn law_white_space_by_number(c: char)
    ensures
        is_white_space(c) == blank(c),
{
}

/// Trimming takes white space off both ends, all of it and nothing else.
pub proof fn law_trimming_takes_white_space_off_both_ends(
    before: Seq<char>,
    text: Seq<char>,
    after: Seq<char>,
)
    requires
        all_blank(before),
        all_blank(after),
        text.len() > 0 ==> !blank(text[0]) && !blank(text.last()),
    ensures
        trimmed_back(trimmed_front(before + text + after)) == text,
{
    if text.len() > 0 {
        lemma_front(before, text + after);
        assert(before + (text + after) =~= before + text + after);
        lemma_back(text, after);
    } else {
        assert(before + text + after =~= (before + after) + text);
        assert(all_blank(before + after)) by {
            assert forall|i: int| 0 <= i < (before + after).len() implies blank(
                #[trigger] (before + after)[i],
            ) by {
                if i < before.len() {
                    assert(blank(before[i]));
                } else {
                    assert(blank(after[i - before.len()]));
                }
            }
        }
        lemma_front(before + after, text);
        assert(trimmed_front(before + text + after) =~= Seq::empty());
    }
}

proof fn lemma_front(before: Seq<char>, text: Seq<char>)
    requires
        all_blank(before),
        text.len() > 0 ==> !blank(text[0]),
    ensures
        trimmed_front(before + text) == text,
    decreases before.len(),
{
    if before.len() == 0 {
        assert(before + text =~= text);
        if text.len() > 0 {
            law_white_space_by_number(text[0]);
        }
    } else {
        assert(blank(before[0]));
        assert((before + text)[0] == before[0]);
        law_white_space_by_number(before[0]);
        assert((before + text).skip(1) =~= before.skip(1) + text);
        assert forall|i: int| 0 <= i < before.skip(1).len() implies blank(
            #[trigger] before.skip(1)[i],
        ) by {
            assert(blank(before[i + 1]));
        }
        lemma_front(before.skip(1), text);
    }
}

proof fn lemma_back(text: Seq<char>, after: Seq<char>)
    requires
        all_blank(after),
        text.len() > 0,
        !blank(text.last()),
    ensures
        trimmed_back(text + after) == text,
    decreases after.len(),
{
    if after.len() == 0 {
        assert(text + after =~= text);
        law_white_space_by_number(text.last());
    } else {
        assert((text + after).last() == after.last());
        assert(blank(after[after.len() - 1]));
        law_white_space_by_number(after.last());
        assert((text + after).drop_last() =~= text + after.drop_last());
        assert forall|i: int| 0 <= i < after.drop_last().len() implies blank(
            #[trigger] after.drop_last()[i],
        ) by {
            assert(blank(after[i]));
        }
        lemma_back(text, after.drop_last());
    }
}

/// Whether a text shows the digits of a number, the last one the units.
pub open spec fn shows_number(text: Seq<char>, n: nat) -> bool {
    &&& text.len() > 0
    &&& n < pow(10, text.len())
    &&& forall|i: int|
        0 <= i < text.len() ==> (#[trigger] text[i]) as int == 48 + (n as int / pow(
            10,
            (text.len() - 1 - i) as nat,
        )) % 10
}

proof fn lemma_shown_value(text: Seq<char>, n: nat)
    requires
        shows_number(text, n),
    ensures
        all_digits(text),
        decimal_value(text) == n,
    decreases text.len(),
{
    let last = text.len() - 1;
    lemma_powers(1);
    assert forall|i: int| 0 <= i < text.len() implies '0' <= #[trigger] text[i] <= '9' by {
        assert(text[i] as int == 48 + (n as int / pow(10, (text.len() - 1 - i) as nat)) % 10);
    }
    assert(text[last] as int == 48 + n % 10) by {
        assert(pow(10, 0) == 1);
        assert(text[last] as int == 48 + (n as int / pow(10, (text.len() - 1 - last) as nat)) % 10);
    }
    let front = text.drop_last();
    if front.len() == 0 {
        assert(decimal_value(front) == 0);
        assert(n < 10);
    } else {
        let m = n / 10;
        assert(m < pow(10, front.len())) by {
            lemma_powers(text.len() as int);
        }
        assert forall|i: int| 0 <= i < front.len() implies (#[trigger] front[i]) as int == 48 + (
        m as int / pow(10, (front.len() - 1 - i) as nat)) % 10 by {
            let k = (text.len() - 1 - i) as nat;
            let p = pow(10, (k - 1) as nat);
            lemma_powers(k as int);
            lemma_pow_positive(10, (k - 1) as nat);
            vstd::arithmetic::div_mod::lemma_div_denominator(n as int, 10, p);
            assert(text[i] as int == 48 + (n as int / pow(10, k)) % 10);
        }
        lemma_shown_value(front, m);
    }
}

/// A build time is read from its digits, with white space round them and perhaps
/// a plus sign before them, unless the number does not fit.
pub proof fn law_digits_are_read(before: Seq<char>, digits: Seq<char>, after: Seq<char>, n: nat)
    requires
        all_blank(before),
        all_blank(after),
        shows_number(digits, n),
    ensures
        n <= u64::MAX ==> epoch_in(before + digits + after) == Some(n as u64),
        n <= u64::MAX ==> epoch_in(before + (seq!['+'] + digits) + after) == Some(n as u64),
        n > u64::MAX ==> epoch_in(before + digits + after) is None,
        n > u64::MAX ==> epoch_in(before + (seq!['+'] + digits) + after) is None,
{
    lemma_shown_value(digits, n);
    assert('0' <= digits[0] <= '9');
    assert('0' <= digits[digits.len() - 1] <= '9');
    law_trimming_takes_white_space_off_both_ends(before, digits, after);
    let signed = seq!['+'] + digits;
    assert(signed.last() == digits.last());
    assert(signed[0] == '+');
    law_trimming_takes_white_space_off_both_ends(before, signed, after);
    assert(signed.skip(1) =~= digits);
}

/// Nothing else is read: no empty text, nothing that is but a sign, and nothing
/// with another character among the digits.
pub proof fn law_nothing_but_digits_is_read(
    before: Seq<char>,
    text: Seq<char>,
    after: Seq<char>,
    i: int,
)
    requires
        all_blank(before),
        all_blank(after),
        text.len() > 0 ==> !blank(text[0]) && !blank(text.last()),
        ({
            ||| text.len() == 0
            ||| text.len() == 1 && text[0] == '+'
            ||| 0 <= i < text.len() && !('0' <= text[i] <= '9') && (i > 0 || text[0] != '+')
        }),
    ensures
        epoch_in(before + text + after) is None,
{
    law_trimming_takes_white_space_off_both_ends(before, text, after);
    let digits = unsigned(text);
    if digits.len() > 0 {
        if text[0] == '+' {
            assert(digits[i - 1] == text[i]);
        } else {
            assert(digits[i] == text[i]);
        }
        assert(!all_digits(digits));
    }
}

} // verus!
