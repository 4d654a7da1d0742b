//! Build times as text: Unix seconds in decimal.

use vstd::prelude::*;

use crate::build_stamp::{digit_char, padded};

verus! {

/// Whether a character has the Unicode property `White_Space`.
pub open spec fn is_white_space(c: char) -> bool {
    let code = c as u32;
    ||| 0x9 <= code <= 0xd
    ||| code == 0x20
    ||| code == 0x85
    ||| code == 0xa0
    ||| code == 0x1680
    ||| 0x2000 <= code <= 0x200a
    ||| code == 0x2028
    ||| code == 0x2029
    ||| code == 0x202f
    ||| code == 0x205f
    ||| code == 0x3000
}

/// A text without the white space it starts with.
pub open spec fn trimmed_front(text: Seq<char>) -> Seq<char>
    decreases text.len(),
{
    if text.len() > 0 && is_white_space(text[0]) {
        trimmed_front(text.skip(1))
    } else {
        text
    }
}

/// A text without the white space it ends with.
pub open spec fn trimmed_back(text: Seq<char>) -> Seq<char>
    decreases text.len(),
{
    if text.len() > 0 && is_white_space(text.last()) {
        trimmed_back(text.drop_last())
    } else {
        text
    }
}

/// Whether a text is made of decimal digits.
pub open spec fn all_digits(text: Seq<char>) -> bool {
    forall|i: int| 0 <= i < text.len() ==> '0' <= #[trigger] text[i] <= '9'
}

/// The number that decimal digits write.
pub open spec fn decimal_value(digits: Seq<char>) -> int
    decreases digits.len(),
{
    if digits.len() == 0 {
        0
    } else {
        decimal_value(digits.drop_last()) * 10 + (digits.last() as int - '0' as int)
    }
}

/// The digits of a number that may start with a plus sign.
pub open spec fn unsigned(text: Seq<char>) -> Seq<char> {
    if text.len() > 0 && text[0] == '+' {
        text.skip(1)
    } else {
        text
    }
}

/// The number that a text of digits writes in decimal; none if it is something
/// else or does not fit.
pub open spec fn number_in(text: Seq<char>) -> Option<u64> {
    if text.len() > 0 && all_digits(text) && decimal_value(text) <= u64::MAX {
        Some(decimal_value(text) as u64)
    } else {
        None
    }
}

/// The number that a text writes in decimal, white space round it aside.
pub open spec fn epoch_in(text: Seq<char>) -> Option<u64> {
    number_in(unsigned(trimmed_back(trimmed_front(text))))
}

/// Whether a character has the Unicode property `White_Space`.
fn white_space(c: char) -> (r: bool)
    ensures
        r == is_white_space(c),
{
    let code: u32 = c as u32;
    (0x9 <= code && code <= 0xd) || code == 0x20 || code == 0x85 || code == 0xa0 || code == 0x1680
        || (0x2000 <= code && code <= 0x200a) || code == 0x2028 || code == 0x2029 || code == 0x202f
        || code == 0x205f || code == 0x3000
}

/// The characters of a text.
fn characters(text: &str) -> (r: Vec<char>)
    ensures
        r@ == text@,
{
    let mut chars: Vec<char> = Vec::new();
    for c in iter: text.chars()
        invariant
            chars@.len() == iter.index(),
            forall|j: int| 0 <= j < chars@.len() ==> chars@[j] == iter.seq()[j],
            iter.seq() == text@,
    {
        chars.push(c);
    }
    assert(chars@ =~= text@);
    chars
}

/// Read the build time that an override asks for: Unix seconds in decimal, with
/// white space round them.
pub fn parse_epoch(text: &str) -> (r: Option<u64>)
    ensures
        r == epoch_in(text@),
{
    let chars = characters(text);
    let (start, to) = trimmed_range(&chars);
    let ghost trimmed = chars@.subrange(start as int, to as int);
    let mut from: usize = start;
    if from < to && chars[from] == '+' {
        assert(trimmed.skip(1) =~= chars@.subrange(from + 1, to as int));
        from = from + 1;
    }
    read_decimal(&chars, from, to)
}

/// Where a text starts and ends, white space round it aside.
fn trimmed_range(chars: &Vec<char>) -> (r: (usize, usize))
    ensures
        r.0 <= r.1 <= chars@.len(),
        chars@.subrange(r.0 as int, r.1 as int) == trimmed_back(trimmed_front(chars@)),
{
    let mut from: usize = 0;
    assert(chars@.skip(0) =~= chars@);
    while from < chars.len() && white_space(chars[from])
        invariant
            0 <= from <= chars@.len(),
            trimmed_front(chars@.skip(from as int)) == trimmed_front(chars@),
        decreases chars@.len() - from,
    {
        assert(chars@.skip(from as int).skip(1) =~= chars@.skip(from + 1));
        from = from + 1;
    }
    let ghost front = chars@.skip(from as int);
    assert(front == trimmed_front(chars@));
    let mut to: usize = chars.len();
    assert(chars@.subrange(from as int, to as int) =~= front);
    while from < to && white_space(chars[to - 1])
        invariant
            0 <= from <= to <= chars@.len(),
            trimmed_back(chars@.subrange(from as int, to as int)) == trimmed_back(front),
        decreases to - from,
    {
        assert(chars@.subrange(from as int, to as int).drop_last() =~= chars@.subrange(
            from as int,
            to - 1,
        ));
        to = to - 1;
    }
    (from, to)
}

/// Read decimal digits.
fn read_decimal(chars: &Vec<char>, from: usize, to: usize) -> (r: Option<u64>)
    requires
        from <= to <= chars@.len(),
    ensures
        r == number_in(chars@.subrange(from as int, to as int)),
{
    let ghost digits = chars@.subrange(from as int, to as int);
    if from == to {
        return None;
    }
    let mut value: u64 = 0;
    let mut at: usize = from;
    assert(digits.take(0) =~= Seq::empty());
    while at < to
        invariant
            from < to <= chars@.len(),
            from <= at <= to,
            digits == chars@.subrange(from as int, to as int),
            all_digits(digits.take(at - from)),
            value == decimal_value(digits.take(at - from)),
        decreases to - at,
    {
        let c = chars[at];
        let ghost longer = digits.take(at - from + 1);
        proof {
            assert(longer.drop_last() =~= digits.take(at - from));
            assert(longer.last() == c && digits[at - from] == c);
        }
        if c < '0' || '9' < c {
            assert(!all_digits(digits));
            return None;
        }
        let digit: u64 = (c as u32 - '0' as u32) as u64;
        let next: u128 = value as u128 * 10 + digit as u128;
        assert(next == decimal_value(longer));
        if next > u64::MAX as u128 {
            proof {
                if all_digits(digits) {
                    lemma_decimal_grows(digits, at - from + 1);
                }
            }
            return None;
        }
        value = next as u64;
        assert forall|i: int| 0 <= i < longer.len() implies '0' <= #[trigger] longer[i] <= '9' by {
            if i < at - from {
                assert(digits.take(at - from)[i] == longer[i]);
            }
        }
        at = at + 1;
    }
    assert(digits.take(at - from) =~= digits);
    Some(value)
}

/// More digits write no smaller number.
proof fn lemma_decimal_grows(digits: Seq<char>, count: int)
    requires
        all_digits(digits),
        0 <= count <= digits.len(),
    ensures
        0 <= decimal_value(digits.take(count)) <= decimal_value(digits),
    decreases digits.len(),
{
    if count == digits.len() {
        assert(digits.take(count) =~= digits);
        if count > 0 {
            assert(digits.drop_last() =~= digits.take(count - 1));
            assert('0' <= digits[count - 1] <= '9');
            lemma_decimal_grows(digits.drop_last(), count - 1);
            assert(digits.drop_last().take(count - 1) =~= digits.drop_last());
        }
    } else {
        let front = digits.drop_last();
        lemma_decimal_grows(front, count);
        assert(front.take(count) =~= digits.take(count));
        assert('0' <= digits[digits.len() - 1] <= '9');
    }
}

/// A build time written in decimal, with or without leading zeros, reads back.
pub proof fn law_written_epoch_reads_back(epoch: u64, width: nat)
    ensures
        epoch_in(padded(epoch as nat, width)) == Some(epoch),
{
    let text = padded(epoch as nat, width);
    lemma_padded_digits(epoch as nat, width);
    assert('0' <= text[0] <= '9');
    assert('0' <= text[text.len() - 1] <= '9');
}

proof fn lemma_padded_digits(n: nat, width: nat)
    ensures
        padded(n, width).len() > 0,
        all_digits(padded(n, width)),
        decimal_value(padded(n, width)) == n,
    decreases n, width,
{
    let text = padded(n, width);
    if n < 10 && width <= 1 {
        assert(text.drop_last() =~= Seq::empty());
        assert(decimal_value(text.drop_last()) == 0);
        assert(text.last() == digit_char(n as int));
        assert(text.last() as int == 48 + n);
    } else {
        let rest = if width > 0 {
            (width - 1) as nat
        } else {
            0
        };
        lemma_padded_digits(n / 10, rest);
        assert(text.drop_last() =~= padded(n / 10, rest));
        assert(text.last() == digit_char((n % 10) as int));
        assert(text.last() as int == 48 + n % 10);
    }
}

} // verus!
