//! Laws of the grammar: a decimal literal is read whole, and white space
//! around what is read does not count.

use super::grammar::{
    after_sign, digits_end, exponent_at, float_at, integer_at, is_space, name_end, negative_at,
    number_at, number_of, pow_at, primitive_at, product_at, product_rest, spaces_end, sum_at,
    sum_rest, symbol_at, unit_at,
};
use super::roundtrip::{
    ends_at, layer_at, lemma_digits_run, lemma_lift, lemma_spaces_end_bounds,
};
use crate::sym::expr::Tree;
use crate::sym::integer::{all_digits, is_digit};
use vstd::prelude::*;

verus! {

/// No sign, a `+` or a `-`.
pub open spec fn is_sign(s: Seq<char>) -> bool {
    s.len() == 0 || (s.len() == 1 && (s[0] == '+' || s[0] == '-'))
}

/// No exponent part, or an `e` or `E`, a sign and digits, one at least.
pub open spec fn is_exponent_part(mark: Seq<char>, sign: Seq<char>, digits: Seq<char>) -> bool {
    if mark.len() == 0 {
        sign.len() == 0 && digits.len() == 0
    } else {
        &&& mark.len() == 1
        &&& mark[0] == 'e' || mark[0] == 'E'
        &&& is_sign(sign)
        &&& all_digits(digits)
        &&& digits.len() > 0
    }
}

/// A decimal literal, from its parts: a sign, the digits before the point,
/// the point, the digits behind it, and an exponent part.
pub open spec fn float_literal(
    sign: Seq<char>,
    whole: Seq<char>,
    part: Seq<char>,
    mark: Seq<char>,
    exponent_sign: Seq<char>,
    exponent: Seq<char>,
) -> Seq<char> {
    sign + whole + seq!['.'] + part + mark + exponent_sign + exponent
}

/// A decimal literal is read whole, whatever its digits and its exponent:
/// the text of a sign, digits, a point, digits and an exponent part, with
/// a digit on one side of the point at least and the sign and the exponent
/// part optional, is read as one approximate value, by the float
/// alternative and by the whole grammar, and nothing of it is left.
pub proof fn lemma_float_is_read_whole(
    sign: Seq<char>,
    whole: Seq<char>,
    part: Seq<char>,
    mark: Seq<char>,
    exponent_sign: Seq<char>,
    exponent: Seq<char>,
)
    requires
        is_sign(sign),
        all_digits(whole),
        all_digits(part),
        whole.len() + part.len() > 0,
        is_exponent_part(mark, exponent_sign, exponent),
    ensures
        ({
            let text = float_literal(sign, whole, part, mark, exponent_sign, exponent);
            &&& float_at(text, 0) is Some
            &&& (float_at(text, 0)->0).1 == text.len()
            &&& sum_at(text, 0) == Ok::<(Tree, int), int>(
                (Tree::Approx((float_at(text, 0)->0).0), text.len() as int),
            )
        }),
{
    let text = float_literal(sign, whole, part, mark, exponent_sign, exponent);
    let first = sign.len() as int;
    let point = first + whole.len();
    let last = point + 1 + part.len();
    let digits = last + mark.len() + exponent_sign.len();
    assert(text.len() == digits + exponent.len());
    assert forall|i: int| 0 <= i < sign.len() implies text[i] == sign[i] by {}
    assert forall|i: int| 0 <= i < whole.len() implies is_digit(#[trigger] text[first + i]) by {
        assert(text[first + i] == whole[i]);
    }
    assert(text[point] == '.');
    assert forall|i: int| 0 <= i < part.len() implies is_digit(#[trigger] text[point + 1 + i]) by {
        assert(text[point + 1 + i] == part[i]);
    }
    assert forall|i: int| 0 <= i < exponent.len() implies is_digit(#[trigger] text[digits + i]) by {
        assert(text[digits + i] == exponent[i]);
    }
    if mark.len() > 0 {
        assert(text[last] == mark[0]);
        if exponent_sign.len() > 0 {
            assert(text[last + 1] == exponent_sign[0]);
        } else {
            assert(text[last + 1] == exponent[0]);
        }
    }
    if sign.len() > 0 {
        assert(text[0] == sign[0]);
    } else if whole.len() > 0 {
        assert(text[0] == whole[0]);
    }
    assert(after_sign(text, 0, true) == first);
    lemma_digits_run(text, first, whole.len() as int);
    lemma_digits_run(text, point + 1, part.len() as int);
    lemma_digits_run(text, digits, exponent.len() as int);
    assert(after_sign(text, last + 1, true) == digits || mark.len() == 0);
    assert(exponent_at(text, last).1 == text.len());
    let read = number_of(text, 0, first, point, point + 1, last);
    assert(float_at(text, 0) == Some(read));
    assert(spaces_end(text, 0) == 0);
    assert(spaces_end(text, text.len() as int) == text.len());
    assert(unit_at(text, 0) == Ok::<(Tree, int), int>((Tree::Approx(read.0), text.len() as int)));
    lemma_lift(Tree::Approx(read.0), 1, 5, text, 0, text.len() as int);
}

/// An integer is never read where a decimal literal begins: behind the
/// digits that were read as an integer no point stands.
pub proof fn lemma_integer_ends_before_no_point(s: Seq<char>, p: int)
    requires
        0 <= p,
        primitive_at(s, p) is Some,
        (primitive_at(s, p)->0).0 is Integer,
    ensures
        ({
            let end = (primitive_at(s, p)->0).1;
            end == s.len() || s[end] != '.'
        }),
{
    let first = after_sign(s, p, false);
    let end = digits_end(s, first);
    assert(float_at(s, p) is None);
    assert(integer_at(s, p) is Some);
    assert(first < end);
    if s[p] != '-' {
        assert(first == p);
        assert(is_digit(s[p]));
    }
    assert(after_sign(s, p, true) == first);
    lemma_digits_end_bounds(s, first);
}

/// The digits that begin at `p` end within the text, before what is no
/// digit.
pub proof fn lemma_digits_end_bounds(s: Seq<char>, p: int)
    requires
        0 <= p <= s.len(),
    ensures
        p <= digits_end(s, p) <= s.len(),
        digits_end(s, p) < s.len() ==> !is_digit(s[digits_end(s, p)]),
    decreases s.len() - p,
{
    if p < s.len() && is_digit(s[p]) {
        lemma_digits_end_bounds(s, p + 1);
    }
}

/// The name characters that begin at `p` end within the text.
proof fn lemma_name_end_bounds(s: Seq<char>, p: int)
    requires
        0 <= p <= s.len(),
    ensures
        p <= name_end(s, p) <= s.len(),
    decreases s.len() - p,
{
    if p < s.len() && name_end(s, p) != p {
        lemma_name_end_bounds(s, p + 1);
    }
}

/// A primitive that is read at `p` ends behind `p`, within the text.
proof fn lemma_primitive_bounds(s: Seq<char>, p: int)
    requires
        0 <= p <= s.len(),
        primitive_at(s, p) is Some,
    ensures
        p < (primitive_at(s, p)->0).1 <= s.len(),
{
    let first = after_sign(s, p, true);
    lemma_digits_end_bounds(s, first);
    let point = digits_end(s, first);
    if point < s.len() {
        lemma_digits_end_bounds(s, point + 1);
    }
    if float_at(s, p) is Some {
        let last = if s[point] == '.' {
            digits_end(s, point + 1)
        } else {
            point
        };
        if last < s.len() {
            let start = after_sign(s, last + 1, true);
            if start <= s.len() {
                lemma_digits_end_bounds(s, start);
            }
        }
    } else if integer_at(s, p) is Some {
        lemma_digits_end_bounds(s, after_sign(s, p, false));
    } else {
        lemma_name_end_bounds(s, p + 1);
    }
}

/// The place of a layer among the functions of the grammar, which orders
/// the proofs below as it orders the grammar.
pub open spec fn depth(level: int) -> int {
    if level <= 3 {
        level
    } else if level == 4 {
        5
    } else {
        7
    }
}

/// What every layer of the grammar reads, it reads within the text: a
/// reading from `p` ends behind the first character that is no white
/// space, at most at the end of the text, and behind the white space that
/// follows what was read; a failure lies between `p` and the end.
pub proof fn lemma_reading_bounds(level: int, s: Seq<char>, p: int)
    requires
        1 <= level <= 5,
        0 <= p <= s.len(),
    ensures
        match layer_at(level, s, p) {
            Ok((_, end)) => spaces_end(s, p) < end <= s.len() && spaces_end(s, end) == end,
            Err(at) => p <= at <= s.len(),
        },
    decreases s.len() - p, depth(level),
{
    let q = spaces_end(s, p);
    lemma_spaces_end_bounds(s, p);
    if level == 1 {
        if primitive_at(s, q) is Some {
            lemma_primitive_bounds(s, q);
            let end = (primitive_at(s, q)->0).1;
            lemma_spaces_end_bounds(s, end);
            lemma_spaces_end_bounds(s, spaces_end(s, end));
        } else if q < s.len() && s[q] == '(' {
            lemma_reading_bounds(5, s, q + 1);
            lemma_spaces_end_bounds(s, q + 1);
            match sum_at(s, q + 1) {
                Ok((_, end)) => {
                    if end < s.len() && s[end] == ')' {
                        lemma_spaces_end_bounds(s, end + 1);
                        lemma_spaces_end_bounds(s, spaces_end(s, end + 1));
                    }
                },
                Err(_) => {},
            }
        }
    } else if level == 2 {
        lemma_reading_bounds(1, s, p);
        match unit_at(s, p) {
            Ok((_, end)) => {
                if end < s.len() && s[end] == '^' {
                    lemma_reading_bounds(3, s, end + 1);
                    lemma_spaces_end_bounds(s, end + 1);
                }
            },
            Err(_) => {},
        }
    } else if level == 3 {
        lemma_reading_bounds(2, s, p);
        if pow_at(s, p) is Err && q < s.len() && s[q] == '-' {
            lemma_reading_bounds(2, s, q + 1);
            lemma_spaces_end_bounds(s, q + 1);
        }
    } else if level == 4 {
        lemma_reading_bounds(3, s, p);
        match negative_at(s, p) {
            Ok((first, end)) => {
                lemma_product_rest_bounds(s, end, first);
            },
            Err(_) => {},
        }
    } else {
        lemma_reading_bounds(4, s, p);
        match product_at(s, p) {
            Ok((first, end)) => {
                lemma_sum_rest_bounds(s, end, first);
            },
            Err(_) => {},
        }
    }
}

/// As [`lemma_reading_bounds`], for the rest of a product.
proof fn lemma_product_rest_bounds(s: Seq<char>, p: int, acc: Tree)
    requires
        0 <= p <= s.len(),
        spaces_end(s, p) == p,
    ensures
        p <= product_rest(s, p, acc).1 <= s.len(),
        spaces_end(s, product_rest(s, p, acc).1) == product_rest(s, p, acc).1,
    decreases s.len() - p, 4int,
{
    if p < s.len() && (s[p] == '*' || s[p] == '/') {
        lemma_reading_bounds(3, s, p + 1);
        lemma_spaces_end_bounds(s, p + 1);
        match negative_at(s, p + 1) {
            Ok((factor, end)) => {
                lemma_product_rest_bounds(
                    s,
                    end,
                    if s[p] == '*' {
                        acc.times(factor)
                    } else {
                        acc.over(factor)
                    },
                );
            },
            Err(_) => {},
        }
    }
}

/// As [`lemma_reading_bounds`], for the rest of a sum.
proof fn lemma_sum_rest_bounds(s: Seq<char>, p: int, acc: Tree)
    requires
        0 <= p <= s.len(),
        spaces_end(s, p) == p,
    ensures
        p <= sum_rest(s, p, acc).1 <= s.len(),
        spaces_end(s, sum_rest(s, p, acc).1) == sum_rest(s, p, acc).1,
    decreases s.len() - p, 6int,
{
    if p < s.len() && (s[p] == '+' || s[p] == '-') {
        lemma_reading_bounds(4, s, p + 1);
        lemma_spaces_end_bounds(s, p + 1);
        match product_at(s, p + 1) {
            Ok((term, end)) => {
                lemma_sum_rest_bounds(
                    s,
                    end,
                    if s[p] == '+' {
                        acc.plus(term)
                    } else {
                        acc.minus(term)
                    },
                );
            },
            Err(_) => {},
        }
    }
}

/// White space before what is read does not count: every layer of the
/// grammar reads from `p` what it reads from the first character behind
/// `p` that is no white space. So it is with what follows an operator sign
/// or a parenthesis, which a layer reads.
pub proof fn lemma_space_before_is_skipped(level: int, s: Seq<char>, p: int)
    requires
        1 <= level <= 5,
        0 <= p <= s.len(),
    ensures
        layer_at(level, s, p) == layer_at(level, s, spaces_end(s, p)),
    decreases level,
{
    let q = spaces_end(s, p);
    lemma_spaces_end_bounds(s, p);
    lemma_spaces_end_bounds(s, q);
    assert(spaces_end(s, q) == q);
    assert(unit_at(s, p) == unit_at(s, q));
    if level >= 2 {
        lemma_reading_bounds(level - 1, s, p);
        lemma_reading_bounds(level - 1, s, q);
        lemma_space_before_is_skipped(level - 1, s, p);
    }
}

/// White space behind what is read does not count: where a layer of the
/// grammar has read something, the reading ends behind the white space
/// that follows it.
pub proof fn lemma_space_behind_is_skipped(level: int, s: Seq<char>, p: int)
    requires
        1 <= level <= 5,
        0 <= p <= s.len(),
        layer_at(level, s, p) is Ok,
    ensures
        ({
            let end = (layer_at(level, s, p)->Ok_0).1;
            end == s.len() || !is_space(s[end])
        }),
{
    lemma_reading_bounds(level, s, p);
    lemma_spaces_end_bounds(s, (layer_at(level, s, p)->Ok_0).1);
}

} // verus!
