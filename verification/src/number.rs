//! Decimal numerals: what they are worth, and how a value is written out.

use crate::text::{
    is_digit, lemma_run_end, lemma_runs_from, run_end, runs, split_runs, CharClass, Span,
};
use std::collections::VecDeque;
use vstd::arithmetic::div_mod::{lemma_fundamental_div_mod, lemma_mod_multiples_vanish};
use vstd::prelude::*;
use vstd::string::StringExecFns;

verus! {

/// What the decimal digit `c` is worth.
pub open spec fn digit_value(c: char) -> int {
    c as int - '0' as int
}

/// What a string of decimal digits is worth, the empty one being worth 0.
pub open spec fn decimal_value(digits: Seq<char>) -> int
    decreases digits.len(),
{
    if digits.len() == 0 {
        0
    } else {
        10 * decimal_value(digits.drop_last()) + digit_value(digits.last())
    }
}

/// Whether every character of `text` is a decimal digit.
pub open spec fn all_digits(text: Seq<char>) -> bool {
    forall|i: int| 0 <= i < text.len() ==> is_digit(#[trigger] text[i])
}

/// The digits of a cell index: the text itself, or what follows its plus sign.
pub open spec fn unsigned_part(text: Seq<char>) -> Seq<char> {
    if text.len() > 0 && text[0] == '+' {
        text.skip(1)
    } else {
        text
    }
}

/// The cell index that `text` writes, if it writes one: decimal digits, at least one, which
/// a plus sign may precede, worth no more than the largest `usize`.
pub open spec fn index_value(text: Seq<char>) -> Option<usize> {
    let digits = unsigned_part(text);
    if digits.len() > 0 && all_digits(digits) && decimal_value(digits) <= usize::MAX {
        Some(decimal_value(digits) as usize)
    } else {
        None
    }
}

/// A string of digits is worth at least as much as each of its prefixes, and never less
/// than 0.
pub proof fn lemma_decimal_value_grows(digits: Seq<char>, k: int)
    requires
        all_digits(digits),
        0 <= k <= digits.len(),
    ensures
        0 <= decimal_value(digits.take(k)) <= decimal_value(digits),
    decreases digits.len() - k,
{
    if k == digits.len() {
        assert(digits.take(k) =~= digits);
        lemma_decimal_value_nonnegative(digits);
    } else {
        lemma_decimal_value_grows(digits, k + 1);
        assert(digits.take(k + 1).drop_last() =~= digits.take(k));
        lemma_decimal_value_nonnegative(digits.take(k));
    }
}

proof fn lemma_decimal_value_nonnegative(digits: Seq<char>)
    requires
        all_digits(digits),
    ensures
        0 <= decimal_value(digits),
    decreases digits.len(),
{
    if digits.len() > 0 {
        lemma_decimal_value_nonnegative(digits.drop_last());
    }
}

/// The value of the digit `c`, if it is one.
pub fn digit_of(c: char) -> (r: Option<u8>)
    ensures
        r is Some <==> is_digit(c),
        r matches Some(d) ==> d == digit_value(c) && d < 10,
{
    if '0' <= c && c <= '9' {
        Some(((c as u32) - ('0' as u32)) as u8)
    } else {
        None
    }
}

/// Reads the cell index that the characters under `span` write.
pub fn parse_index(chars: &Vec<char>, span: Span) -> (r: Option<usize>)
    requires
        span.start <= span.end <= chars.len(),
    ensures
        r == index_value(span.of(chars@)),
{
    let first: usize = if span.start < span.end && chars[span.start] == '+' {
        span.start + 1
    } else {
        span.start
    };
    let ghost digits = chars@.subrange(first as int, span.end as int);
    if first == span.end {
        return None;
    }
    let mut value: usize = 0;
    let mut pos: usize = first;
    while pos < span.end
        invariant
            first <= pos <= span.end <= chars.len(),
            digits == chars@.subrange(first as int, span.end as int),
            digits == unsigned_part(span.of(chars@)),
            all_digits(digits.take(pos - first)),
            value == decimal_value(digits.take(pos - first)),
        decreases span.end - pos,
    {
        let ghost k = pos - first;
        proof {
            assert(digits.take(k + 1).drop_last() =~= digits.take(k));
        }
        match digit_of(chars[pos]) {
            None => {
                assert(!is_digit(digits[k]));
                return None;
            },
            Some(d) => {
                assert(all_digits(digits.take(k + 1))) by {
                    assert forall|i: int| 0 <= i < k + 1 implies is_digit(
                        #[trigger] digits.take(k + 1)[i],
                    ) by {}
                }
                if value > (usize::MAX - d as usize) / 10 {
                    proof {
                        if all_digits(digits) {
                            lemma_decimal_value_grows(digits, k + 1);
                        }
                    }
                    return None;
                }
                value = value * 10 + d as usize;
            },
        }
        pos = pos + 1;
    }
    proof {
        assert(digits.take(pos - first) =~= digits);
    }
    Some(value)
}

/// The 16-bit signed integer that `x` wraps to: the one that differs from `x` by a
/// multiple of 65536.
pub open spec fn wrap16(x: int) -> i16 {
    let low = x % 65536;
    if low < 32768 {
        low as i16
    } else {
        (low - 65536) as i16
    }
}

/// The value that the digits under `span` write into an input stream: what they are
/// worth, negated where a minus sign stands directly before them, wrapped to 16 bits.
pub open spec fn number_at(text: Seq<char>, span: Span) -> i16 {
    let magnitude = decimal_value(span.of(text));
    if span.start > 0 && text[span.start - 1] == '-' {
        wrap16(-magnitude)
    } else {
        wrap16(magnitude)
    }
}

/// The values that an input stream holds: one for each maximal run of digits, from left
/// to right. Every other character only separates.
pub open spec fn numbers(text: Seq<char>) -> Seq<i16> {
    runs(text, CharClass::Digit).map_values(|span: Span| number_at(text, span))
}

/// Appending a digit to a numeral and wrapping comes to the same as wrapping first.
proof fn lemma_low_bits_step(value: int, digit: int)
    ensures
        (10 * (value % 65536) + digit) % 65536 == (10 * value + digit) % 65536,
{
    let q = value / 65536;
    let r = value % 65536;
    lemma_fundamental_div_mod(value, 65536);
    assert(10 * value + digit == 65536 * (10 * q) + (10 * r + digit));
    lemma_mod_multiples_vanish(10 * q, 10 * r + digit, 65536);
}

/// The low 16 bits of a negated value, from those of the value.
proof fn lemma_low_bits_negated(value: int)
    ensures
        (-value) % 65536 == if value % 65536 == 0 {
            0
        } else {
            65536 - value % 65536
        },
{
    let q = value / 65536;
    let r = value % 65536;
    lemma_fundamental_div_mod(value, 65536);
    if r == 0 {
        assert(-value == 65536 * (-q) + 0);
        lemma_mod_multiples_vanish(-q, 0, 65536);
    } else {
        assert(-value == 65536 * (-q - 1) + (65536 - r));
        lemma_mod_multiples_vanish(-q - 1, 65536 - r, 65536);
    }
}

/// Reads the value that the digits under `span` write.
fn parse_number(chars: &Vec<char>, span: Span) -> (r: i16)
    requires
        span.start <= span.end <= chars.len(),
        all_digits(span.of(chars@)),
    ensures
        r == number_at(chars@, span),
{
    let ghost digits = span.of(chars@);
    let mut low: u32 = 0;
    let mut pos: usize = span.start;
    while pos < span.end
        invariant
            span.start <= pos <= span.end <= chars.len(),
            digits == span.of(chars@),
            all_digits(digits),
            low == decimal_value(digits.take(pos - span.start)) % 65536,
        decreases span.end - pos,
    {
        let ghost k = pos - span.start;
        proof {
            assert(digits.take(k + 1).drop_last() =~= digits.take(k));
        }
        let d = match digit_of(chars[pos]) {
            Some(d) => d,
            None => 0,
        };
        proof {
            lemma_low_bits_step(decimal_value(digits.take(k)), d as int);
        }
        low = (low * 10 + d as u32) % 65536;
        pos = pos + 1;
    }
    proof {
        assert(digits.take(pos - span.start) =~= digits);
        lemma_low_bits_negated(decimal_value(digits));
    }
    let negative = span.start > 0 && chars[span.start - 1] == '-';
    let low: u32 = if negative && low != 0 {
        65536 - low
    } else {
        low
    };
    if low < 32768 {
        low as i16
    } else {
        (low as i32 - 65536) as i16
    }
}

/// Reads the values that an input stream holds into a queue, the first at its front.
pub fn parse_numbers(chars: &Vec<char>) -> (values: VecDeque<i16>)
    ensures
        values@ == numbers(chars@),
{
    let spans = split_runs(chars, CharClass::Digit);
    proof {
        assert(chars@.len() == chars.len());
        lemma_runs_from(chars@, CharClass::Digit, 0);
    }
    let mut values: VecDeque<i16> = VecDeque::new();
    let mut k: usize = 0;
    while k < spans.len()
        invariant
            k <= spans.len(),
            chars@.len() <= usize::MAX,
            spans@ == runs(chars@, CharClass::Digit),
            forall|j: int|
                0 <= j < spans.len() ==> {
                    let span = #[trigger] spans[j];
                    &&& span.start < span.end <= chars.len()
                    &&& span.end == run_end(chars@, CharClass::Digit, span.start as int)
                },
            values@ == numbers(chars@).take(k as int),
        decreases spans.len() - k,
    {
        let span = spans[k];
        proof {
            lemma_run_end(chars@, CharClass::Digit, span.start as int);
            assert forall|i: int| 0 <= i < span.of(chars@).len() implies is_digit(
                #[trigger] span.of(chars@)[i],
            ) by {}
        }
        let value = parse_number(chars, span);
        values.push_back(value);
        k = k + 1;
    }
    values
}

/// The character that writes the digit `d`.
pub open spec fn digit_char(d: int) -> char {
    ('0' as int + d) as char
}

/// The decimal digits of `n`, without leading zeros; `0` for 0.
pub open spec fn decimal_digits(n: nat) -> Seq<char>
    decreases n,
{
    if n < 10 {
        seq![digit_char(n as int)]
    } else {
        decimal_digits(n / 10).push(digit_char((n % 10) as int))
    }
}

/// How `value` is written: its decimal digits, after a minus sign if it is below 0.
pub open spec fn decimal_text(value: int) -> Seq<char> {
    if value < 0 {
        seq!['-'] + decimal_digits((-value) as nat)
    } else {
        decimal_digits(value as nat)
    }
}

/// The line that an emitted value is printed as: the value and a line feed.
pub open spec fn output_line(value: i16) -> Seq<char> {
    decimal_text(value as int).push('\n')
}

/// The text that emitted values are printed as: the line of each, in their order.
pub open spec fn output_text(values: Seq<i16>) -> Seq<char>
    decreases values.len(),
{
    if values.len() == 0 {
        Seq::empty()
    } else {
        output_text(values.drop_last()) + output_line(values.last())
    }
}

/// The digit `d` as text.
fn digit_str(d: u32) -> (s: &'static str)
    requires
        d < 10,
    ensures
        s@ == seq![digit_char(d as int)],
{
    proof {
        reveal_strlit("0");
        reveal_strlit("1");
        reveal_strlit("2");
        reveal_strlit("3");
        reveal_strlit("4");
        reveal_strlit("5");
        reveal_strlit("6");
        reveal_strlit("7");
        reveal_strlit("8");
        reveal_strlit("9");
    }
    let s = if d == 0 {
        "0"
    } else if d == 1 {
        "1"
    } else if d == 2 {
        "2"
    } else if d == 3 {
        "3"
    } else if d == 4 {
        "4"
    } else if d == 5 {
        "5"
    } else if d == 6 {
        "6"
    } else if d == 7 {
        "7"
    } else if d == 8 {
        "8"
    } else {
        "9"
    };
    s
}

/// Appends the decimal digits of `n` to `out`.
fn write_digits(out: &mut String, n: u32)
    ensures
        final(out)@ == old(out)@ + decimal_digits(n as nat),
    decreases n,
{
    if n >= 10 {
        write_digits(out, n / 10);
    }
    out.append(digit_str(n % 10));
}

/// Appends the line that `value` is printed as to `out`.
pub fn write_line(out: &mut String, value: i16)
    ensures
        final(out)@ == old(out)@ + output_line(value),
{
    proof {
        reveal_strlit("-");
        reveal_strlit("\n");
    }
    if value < 0 {
        out.append("-");
        write_digits(out, (-(value as i32)) as u32);
    } else {
        write_digits(out, value as u32);
    }
    out.append("\n");
}

/// The text that `values` are printed as.
pub fn render(values: &Vec<i16>) -> (text: String)
    ensures
        text@ == output_text(values@),
{
    let mut text = String::new();
    let mut i: usize = 0;
    while i < values.len()
        invariant
            i <= values.len(),
            text@ == output_text(values@.take(i as int)),
        decreases values.len() - i,
    {
        proof {
            assert(values@.take(i + 1).drop_last() =~= values@.take(i as int));
        }
        write_line(&mut text, values[i]);
        i = i + 1;
    }
    proof {
        assert(values@.take(i as int) =~= values@);
    }
    text
}

} // verus!
