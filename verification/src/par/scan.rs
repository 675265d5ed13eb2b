//! Reading characters and tokens off the text.

use super::grammar::{
    after_sign, digit_values, digits_end, exponent_at, float_at, integer_at, is_name_start,
    is_space, name_end, number_at, number_of, spaces_end, symbol_at,
};
use crate::sym::decimal::{canonical, leading_zeros, saturated, trailing_zeros, Decimal};
use crate::sym::integer::{
    bigint_from_digit_run, bigint_value, digits_value, is_digit, is_digit_run,
};
use num::BigInt;
use vstd::prelude::*;

verus! {

/// The characters of `text`, in order.
pub(crate) fn chars_of(text: &str) -> (chars: Vec<char>)
    ensures
        chars@ == text@,
{
    let mut chars: Vec<char> = Vec::new();
    for c in it: text.chars()
        invariant
            chars@ == it.seq().take(it.index() as int),
            it.seq() == text@,
    {
        chars.push(c);
    }
    chars
}

/// `String::push`: the text with one more character at its end.
#[verifier::external_body]
fn push_char(text: &mut String, c: char)
    ensures
        final(text)@ == old(text)@.push(c),
{
    text.push(c)
}

/// The text of the characters `chars[from..to]`.
pub(crate) fn text_of(chars: &Vec<char>, from: usize, to: usize) -> (text: String)
    requires
        from <= to <= chars.len(),
    ensures
        text@ == chars@.subrange(from as int, to as int),
{
    let mut text = String::new();
    let mut i: usize = from;
    assert(text@ =~= chars@.subrange(from as int, i as int));
    while i < to
        invariant
            from <= i <= to <= chars.len(),
            text@ == chars@.subrange(from as int, i as int),
        decreases to - i,
    {
        push_char(&mut text, chars[i]);
        i += 1;
        assert(text@ =~= chars@.subrange(from as int, i as int));
    }
    text
}

/// Whether `c` is white space.
pub(crate) fn space(c: char) -> (r: bool)
    ensures
        r == is_space(c),
{
    c == ' ' || c == '\t' || c == '\r' || c == '\n'
}

/// Whether `c` is a digit.
pub(crate) fn digit(c: char) -> (r: bool)
    ensures
        r == is_digit(c),
{
    '0' <= c && c <= '9'
}

/// Whether `c` may begin a name.
pub(crate) fn name_start(c: char) -> (r: bool)
    ensures
        r == is_name_start(c),
{
    ('a' <= c && c <= 'z') || ('A' <= c && c <= 'Z') || c == '_' || ('\u{391}' <= c && c
        <= '\u{3a9}' && c != '\u{3a2}') || ('\u{3b1}' <= c && c <= '\u{3c9}')
}

/// Where the white space that begins at `p` ends.
pub(crate) fn skip_spaces(chars: &Vec<char>, p: usize) -> (end: usize)
    requires
        p <= chars.len(),
    ensures
        end == spaces_end(chars@, p as int),
        p <= end <= chars.len(),
{
    let mut i: usize = p;
    while i < chars.len() && space(chars[i])
        invariant
            p <= i <= chars.len(),
            spaces_end(chars@, p as int) == spaces_end(chars@, i as int),
        decreases chars.len() - i,
    {
        i += 1;
    }
    i
}

/// Where the digits that begin at `p` end.
pub(crate) fn skip_digits(chars: &Vec<char>, p: usize) -> (end: usize)
    requires
        p <= chars.len(),
    ensures
        end == digits_end(chars@, p as int),
        p <= end <= chars.len(),
        forall|i: int| p <= i < end ==> is_digit(#[trigger] chars[i]),
{
    let mut i: usize = p;
    while i < chars.len() && digit(chars[i])
        invariant
            p <= i <= chars.len(),
            digits_end(chars@, p as int) == digits_end(chars@, i as int),
            forall|j: int| p <= j < i ==> is_digit(#[trigger] chars[j]),
        decreases chars.len() - i,
    {
        i += 1;
    }
    i
}

/// Where the name characters that begin at `p` end.
pub(crate) fn skip_name(chars: &Vec<char>, p: usize) -> (end: usize)
    requires
        p <= chars.len(),
    ensures
        end == name_end(chars@, p as int),
        p <= end <= chars.len(),
{
    let mut i: usize = p;
    while i < chars.len() && (name_start(chars[i]) || digit(chars[i]))
        invariant
            p <= i <= chars.len(),
            name_end(chars@, p as int) == name_end(chars@, i as int),
        decreases chars.len() - i,
    {
        i += 1;
    }
    i
}

/// The position after a sign at `p`, if there is one: a `-`, or a `+` too
/// where `plus_too` says so.
pub(crate) fn skip_sign(chars: &Vec<char>, p: usize, plus_too: bool) -> (end: usize)
    requires
        p <= chars.len(),
    ensures
        end == after_sign(chars@, p as int, plus_too),
        p <= end <= chars.len(),
{
    if p < chars.len() && (chars[p] == '-' || (plus_too && chars[p] == '+')) {
        p + 1
    } else {
        p
    }
}

/// The digit run at `p`, read as an integer, and where it ends.
pub(crate) fn scan_integer(chars: &Vec<char>, p: usize) -> (r: Option<(BigInt, usize)>)
    requires
        p <= chars.len(),
    ensures
        match r {
            Some((value, end)) => integer_at(chars@, p as int) == Some(
                (bigint_value(value), end as int),
            ) && p < end <= chars.len(),
            None => integer_at(chars@, p as int) is None,
        },
{
    let first = skip_sign(chars, p, false);
    let end = skip_digits(chars, first);
    if first == end {
        return None;
    }
    let token = text_of(chars, p, end);
    proof {
        let run = chars@.subrange(p as int, end as int);
        if first > p {
            assert(run[0] == '-');
            assert forall|i: int| 0 <= i < run.skip(1).len() implies is_digit(
                #[trigger] run.skip(1)[i],
            ) by {
                assert(run.skip(1)[i] == chars[first + i]);
            }
        } else {
            assert(run[0] == chars[p as int]);
            assert forall|i: int| 0 <= i < run.len() implies is_digit(#[trigger] run[i]) by {
                assert(run[i] == chars[p + i]);
            }
        }
        assert(is_digit_run(run));
    }
    match bigint_from_digit_run(token.as_str()) {
        Ok(value) => Some((value, end)),
        Err(_) => None,
    }
}

/// The symbol at `p`, as the text of its name, and where it ends.
pub(crate) fn scan_symbol(chars: &Vec<char>, p: usize) -> (r: Option<(String, usize)>)
    requires
        p <= chars.len(),
    ensures
        match r {
            Some((name, end)) => symbol_at(chars@, p as int) == Some((name@, end as int)) && p
                < end <= chars.len(),
            None => symbol_at(chars@, p as int) is None,
        },
{
    if p < chars.len() && name_start(chars[p]) {
        let end = skip_name(chars, p + 1);
        Some((text_of(chars, p, end), end))
    } else {
        None
    }
}

/// The largest size of exponent that is read exactly; a larger one is
/// read as this.
pub(crate) const EXPONENT_CAP: i128 = 100_000_000_000_000_000_000;

/// `v`, held to the range from `-EXPONENT_CAP` to `EXPONENT_CAP`.
pub(crate) open spec fn capped(v: int) -> int {
    if v > EXPONENT_CAP {
        EXPONENT_CAP as int
    } else if v < -EXPONENT_CAP {
        -EXPONENT_CAP
    } else {
        v
    }
}

/// The value of a run of digits, from that of the run without its last.
proof fn lemma_digits_value_step(s: Seq<char>, from: int, i: int)
    requires
        0 <= from <= i < s.len(),
        is_digit(s[i]),
    ensures
        digits_value(s.subrange(from, i + 1)) == 10 * digits_value(s.subrange(from, i)) + (
        s[i] as int - '0' as int),
{
    let longer = s.subrange(from, i + 1);
    assert(longer.drop_last() =~= s.subrange(from, i));
    assert(longer.last() == s[i]);
}

/// The exponent part at `p`, its value capped, and where it ends.
pub(crate) fn scan_exponent(chars: &Vec<char>, p: usize) -> (r: (i128, usize))
    requires
        p <= chars.len(),
    ensures
        r.0 == capped(exponent_at(chars@, p as int).0),
        r.1 == exponent_at(chars@, p as int).1,
        p <= r.1 <= chars.len(),
{
    if !(p < chars.len() && (chars[p] == 'e' || chars[p] == 'E')) {
        return (0, p);
    }
    let first = skip_sign(chars, p + 1, true);
    let end = skip_digits(chars, first);
    if first == end {
        return (0, p);
    }
    let mut size: i128 = 0;
    let mut i: usize = first;
    assert(chars@.subrange(first as int, first as int) =~= Seq::<char>::empty());
    while i < end
        invariant
            first <= i <= end <= chars.len(),
            forall|j: int| first <= j < end ==> is_digit(#[trigger] chars[j]),
            0 <= size <= EXPONENT_CAP,
            size == capped(digits_value(chars@.subrange(first as int, i as int)) as int),
        decreases end - i,
    {
        let d = (chars[i] as u32 - '0' as u32) as i128;
        proof {
            lemma_digits_value_step(chars@, first as int, i as int);
        }
        size = size * 10 + d;
        if size > EXPONENT_CAP {
            size = EXPONENT_CAP;
        }
        i += 1;
    }
    if chars[p + 1] == '-' {
        (-size, end)
    } else {
        (size, end)
    }
}

/// Appends to `digits` the numbers of the digits `chars[from..to]`.
fn push_digit_values(digits: &mut Vec<u8>, chars: &Vec<char>, from: usize, to: usize)
    requires
        from <= to <= chars.len(),
        forall|j: int| from <= j < to ==> is_digit(#[trigger] chars[j]),
    ensures
        final(digits)@ == old(digits)@ + digit_values(chars@.subrange(from as int, to as int)),
{
    let mut i: usize = from;
    assert(digits@ =~= old(digits)@ + digit_values(chars@.subrange(from as int, i as int)));
    while i < to
        invariant
            from <= i <= to <= chars.len(),
            forall|j: int| from <= j < to ==> is_digit(#[trigger] chars[j]),
            digits@ == old(digits)@ + digit_values(chars@.subrange(from as int, i as int)),
        decreases to - i,
    {
        digits.push((chars[i] as u32 - '0' as u32) as u8);
        i += 1;
        assert(digits@ =~= old(digits)@ + digit_values(chars@.subrange(from as int, i as int)));
    }
}

/// The number of the whole digits `chars[first..point]`, the fraction
/// digits `chars[from..last]` and the exponent part at `last`.
fn scan_number_of(
    chars: &Vec<char>,
    p: usize,
    first: usize,
    point: usize,
    from: usize,
    last: usize,
) -> (r: (Decimal, usize))
    requires
        p <= first <= point <= from <= last <= chars.len(),
        first < last,
        forall|j: int| first <= j < point ==> is_digit(#[trigger] chars[j]),
        forall|j: int| from <= j < last ==> is_digit(#[trigger] chars[j]),
    ensures
        number_of(chars@, p as int, first as int, point as int, from as int, last as int) == (
            r.0@,
            r.1 as int,
        ),
        last <= r.1 <= chars.len(),
{
    let (exponent, end) = scan_exponent(chars, last);
    let mut digits: Vec<u8> = Vec::new();
    push_digit_values(&mut digits, chars, first, point);
    push_digit_values(&mut digits, chars, from, last);
    let negative = first > p && chars[p] == '-';
    let places = (last - from) as i128;
    proof {
        let whole = chars@.subrange(first as int, point as int);
        let part = chars@.subrange(from as int, last as int);
        assert(digits@ =~= digit_values(whole + part));
        assert forall|j: int| 0 <= j < digits.len() implies #[trigger] digits[j] < 10 by {
            if j < whole.len() {
                assert(is_digit(chars[first + j]));
            } else {
                assert(is_digit(chars[from + (j - whole.len())]));
            }
        }
        let true_exponent = exponent_at(chars@, last as int).0;
        let tail = digits@.skip(leading_zeros(digits@) as int);
        lemma_zero_counts(digits@);
        lemma_zero_counts(tail);
        // An exponent beyond the cap is beyond the range with or without
        // the cap, and on the same side.
        assert(saturated(canonical(negative, digits@, true_exponent - places)) == saturated(
            canonical(negative, digits@, exponent - places),
        ));
    }
    (Decimal::scaled(negative, &digits, exponent - places).unwrap(), end)
}

/// The decimal number at `p`, and where it ends; without a point too where
/// `point_needed` is false.
pub(crate) fn scan_number(chars: &Vec<char>, p: usize, point_needed: bool) -> (r: Option<
    (Decimal, usize),
>)
    requires
        p <= chars.len(),
    ensures
        match r {
            Some((number, end)) => number_at(chars@, p as int, point_needed) == Some(
                (number@, end as int),
            ) && p < end <= chars.len(),
            None => number_at(chars@, p as int, point_needed) is None,
        },
{
    let first = skip_sign(chars, p, true);
    let point = skip_digits(chars, first);
    if point < chars.len() && chars[point] == '.' {
        let last = skip_digits(chars, point + 1);
        if first == point && point + 1 == last {
            return None;
        }
        Some(scan_number_of(chars, p, first, point, point + 1, last))
    } else if !point_needed && first < point {
        Some(scan_number_of(chars, p, first, point, point, point))
    } else {
        None
    }
}

/// The decimal literal at `p`, and where it ends.
pub(crate) fn scan_float(chars: &Vec<char>, p: usize) -> (r: Option<(Decimal, usize)>)
    requires
        p <= chars.len(),
    ensures
        match r {
            Some((number, end)) => float_at(chars@, p as int) == Some((number@, end as int)) && p
                < end <= chars.len(),
            None => float_at(chars@, p as int) is None,
        },
{
    scan_number(chars, p, true)
}

/// A sequence has no more zeros at either end than it has items.
proof fn lemma_zero_counts(s: Seq<u8>)
    ensures
        leading_zeros(s) <= s.len(),
        trailing_zeros(s) <= s.len(),
    decreases s.len(),
{
    if s.len() > 0 {
        lemma_zero_counts(s.skip(1));
        lemma_zero_counts(s.drop_last());
    }
}

} // verus!
