//! The grammar of expressions, as functions from text and a position to
//! what is read there.
//!
//! ```text
//! digit-run := ['-'] digit+
//! float     := ['+' | '-'] (digit+ '.' digit* | '.' digit+) [('e' | 'E') ['+' | '-'] digit+]
//! symbol    := start (start | digit)*       start: a letter, '_' or a Greek letter
//! primitive := float | digit-run | symbol
//! unit      := primitive | '(' sum ')'
//! pow       := unit ['^' negative]
//! negative  := pow | '-' pow
//! product   := negative (('*' | '/') negative)*
//! sum       := product (('+' | '-') product)*
//! ```
//!
//! White space may stand before and after every unit and before a `-` that
//! negates. A position is an index into the text; a successful reading ends
//! after the white space that follows it.

use crate::sym::decimal::{canonical, saturated, DecimalView};
use crate::sym::expr::Tree;
use crate::sym::integer::{digit_run_value, digits_value, is_digit};
use vstd::prelude::*;

verus! {

/// A blank, a tab, a carriage return or a line feed.
pub open spec fn is_space(c: char) -> bool {
    c == ' ' || c == '\t' || c == '\r' || c == '\n'
}

/// A Greek letter, capital or small: U+0391 to U+03A9 without the
/// unassigned U+03A2, and U+03B1 to U+03C9.
pub open spec fn is_greek(c: char) -> bool {
    ('\u{391}' <= c <= '\u{3a9}' && c != '\u{3a2}') || '\u{3b1}' <= c <= '\u{3c9}'
}

/// A character that may begin a symbol's name: an ASCII letter, `_`, or a
/// Greek letter.
pub open spec fn is_name_start(c: char) -> bool {
    'a' <= c <= 'z' || 'A' <= c <= 'Z' || c == '_' || is_greek(c)
}

/// A character that may go on a symbol's name.
pub open spec fn is_name_part(c: char) -> bool {
    is_name_start(c) || is_digit(c)
}

/// Where the white space that begins at `p` ends.
pub open spec fn spaces_end(s: Seq<char>, p: int) -> int
    decreases s.len() - p,
{
    if 0 <= p < s.len() && is_space(s[p]) {
        spaces_end(s, p + 1)
    } else {
        p
    }
}

/// Where the digits that begin at `p` end.
pub open spec fn digits_end(s: Seq<char>, p: int) -> int
    decreases s.len() - p,
{
    if 0 <= p < s.len() && is_digit(s[p]) {
        digits_end(s, p + 1)
    } else {
        p
    }
}

/// Where the name characters that begin at `p` end.
pub open spec fn name_end(s: Seq<char>, p: int) -> int
    decreases s.len() - p,
{
    if 0 <= p < s.len() && is_name_part(s[p]) {
        name_end(s, p + 1)
    } else {
        p
    }
}

/// The position after a sign at `p`, if there is one: a `-`, or a `+` too
/// where `plus_too` says so.
pub open spec fn after_sign(s: Seq<char>, p: int, plus_too: bool) -> int {
    if 0 <= p < s.len() && (s[p] == '-' || (plus_too && s[p] == '+')) {
        p + 1
    } else {
        p
    }
}

/// The digit run at `p`: its value and where it ends.
pub open spec fn integer_at(s: Seq<char>, p: int) -> Option<(int, int)> {
    let first = after_sign(s, p, false);
    let end = digits_end(s, first);
    if first < end {
        Some((digit_run_value(s.subrange(p, end)), end))
    } else {
        None
    }
}

/// The symbol at `p`: its name and where it ends.
pub open spec fn symbol_at(s: Seq<char>, p: int) -> Option<(Seq<char>, int)> {
    if 0 <= p < s.len() && is_name_start(s[p]) {
        let end = name_end(s, p + 1);
        Some((s.subrange(p, end), end))
    } else {
        None
    }
}

/// The numbers that the digits `s` stand for.
pub open spec fn digit_values(s: Seq<char>) -> Seq<u8> {
    Seq::new(s.len(), |i: int| (s[i] as int - '0' as int) as u8)
}

/// The exponent part at `p`, an `e` or `E`, an optional sign and digits:
/// its value and where it ends. Where there is none, the value is zero and
/// the end is `p`.
pub open spec fn exponent_at(s: Seq<char>, p: int) -> (int, int) {
    if 0 <= p < s.len() && (s[p] == 'e' || s[p] == 'E') {
        let first = after_sign(s, p + 1, true);
        let end = digits_end(s, first);
        if first < end {
            let size = digits_value(s.subrange(first, end)) as int;
            (
                if s[p + 1] == '-' {
                    -size
                } else {
                    size
                },
                end,
            )
        } else {
            (0, p)
        }
    } else {
        (0, p)
    }
}

/// The number written by the whole digits `s[first..point]`, the fraction
/// digits `s[from..last]` and the exponent part at `last`, with the sign at
/// `p` if `first` is behind it; and where the exponent part ends.
///
/// The number is in canonical form, and saturated: an exponent beyond the
/// range of `i64` is read as the nearest end of that range.
pub open spec fn number_of(s: Seq<char>, p: int, first: int, point: int, from: int, last: int) -> (
    DecimalView,
    int,
) {
    let (exponent, end) = exponent_at(s, last);
    let digits = digit_values(s.subrange(first, point) + s.subrange(from, last));
    (saturated(canonical(first > p && s[p] == '-', digits, exponent - (last - from))), end)
}

/// The decimal number at `p`: the number it writes and where it ends.
///
/// A number is an optional sign, digits with a point before, among or
/// behind them, and an optional exponent part. Where `point_needed` is
/// false, the point may be missing. Whatever has this shape is a number,
/// and is read to the end of its exponent part.
pub open spec fn number_at(s: Seq<char>, p: int, point_needed: bool) -> Option<(DecimalView, int)> {
    let first = after_sign(s, p, true);
    let point = digits_end(s, first);
    if 0 <= point < s.len() && s[point] == '.' {
        let last = digits_end(s, point + 1);
        if first < point || point + 1 < last {
            Some(number_of(s, p, first, point, point + 1, last))
        } else {
            None
        }
    } else if !point_needed && first < point {
        Some(number_of(s, p, first, point, point, point))
    } else {
        None
    }
}

/// The decimal literal at `p`, a decimal number with a point: the number
/// it writes and where it ends.
pub open spec fn float_at(s: Seq<char>, p: int) -> Option<(DecimalView, int)> {
    number_at(s, p, true)
}

/// The primitive at `p`: a decimal literal if there is one, else a digit
/// run, else a symbol.
pub open spec fn primitive_at(s: Seq<char>, p: int) -> Option<(Tree, int)> {
    match float_at(s, p) {
        Some((number, end)) => Some((Tree::Approx(number), end)),
        None => match integer_at(s, p) {
            Some((value, end)) => Some((Tree::Integer(value), end)),
            None => match symbol_at(s, p) {
                Some((name, end)) => Some((Tree::Sym(name), end)),
                None => None,
            },
        },
    }
}

/// What a layer of the grammar reads at a position: the tree and where the
/// reading ends, or the position at which it could not go on.
pub type Reading = Result<(Tree, int), int>;

/// `unit := primitive | '(' sum ')'`, with white space around it.
pub open spec fn unit_at(s: Seq<char>, p: int) -> Reading
    decreases s.len() - p, 1int,
{
    let q = spaces_end(s, p);
    match primitive_at(s, q) {
        Some((tree, end)) => Ok((tree, spaces_end(s, end))),
        None => if p <= q < s.len() && s[q] == '(' {
            match sum_at(s, q + 1) {
                Ok((tree, end)) => if 0 <= end < s.len() && s[end] == ')' {
                    Ok((tree, spaces_end(s, end + 1)))
                } else {
                    Err(end)
                },
                Err(stuck) => Err(stuck),
            }
        } else {
            Err(q)
        },
    }
}

/// `pow := unit ['^' negative]`. Where no exponent can be read after the
/// `^`, the unit stands alone and the reading ends before the `^`.
pub open spec fn pow_at(s: Seq<char>, p: int) -> Reading
    decreases s.len() - p, 2int,
{
    match unit_at(s, p) {
        Ok((base, end)) => if p <= end < s.len() && s[end] == '^' {
            match negative_at(s, end + 1) {
                Ok((exponent, end2)) => Ok((base.to_the(exponent), end2)),
                Err(_) => Ok((base, end)),
            }
        } else {
            Ok((base, end))
        },
        Err(stuck) => Err(stuck),
    }
}

/// `negative := pow | '-' pow`.
pub open spec fn negative_at(s: Seq<char>, p: int) -> Reading
    decreases s.len() - p, 3int,
{
    match pow_at(s, p) {
        Ok(read) => Ok(read),
        Err(stuck) => {
            let q = spaces_end(s, p);
            if p <= q < s.len() && s[q] == '-' {
                match pow_at(s, q + 1) {
                    Ok((tree, end)) => Ok((tree.negated(), end)),
                    Err(stuck2) => Err(stuck2),
                }
            } else {
                Err(stuck)
            }
        },
    }
}

/// The rest of a product after the factors read so far, which make `acc`:
/// as long as a `*` or `/` and a factor follow, the factor is folded in.
pub open spec fn product_rest(s: Seq<char>, p: int, acc: Tree) -> (Tree, int)
    decreases s.len() - p, 4int,
{
    if 0 <= p < s.len() && (s[p] == '*' || s[p] == '/') {
        match negative_at(s, p + 1) {
            Ok((factor, end)) => if p < end <= s.len() {
                product_rest(
                    s,
                    end,
                    if s[p] == '*' {
                        acc.times(factor)
                    } else {
                        acc.over(factor)
                    },
                )
            } else {
                (acc, p)
            },
            Err(_) => (acc, p),
        }
    } else {
        (acc, p)
    }
}

/// `product := negative (('*' | '/') negative)*`, folded from the left.
pub open spec fn product_at(s: Seq<char>, p: int) -> Reading
    decreases s.len() - p, 5int,
{
    match negative_at(s, p) {
        Ok((first, end)) => if p <= end <= s.len() {
            Ok(product_rest(s, end, first))
        } else {
            Ok((first, end))
        },
        Err(stuck) => Err(stuck),
    }
}

/// The rest of a sum after the terms read so far, which make `acc`: as long
/// as a `+` or `-` and a term follow, the term is folded in.
pub open spec fn sum_rest(s: Seq<char>, p: int, acc: Tree) -> (Tree, int)
    decreases s.len() - p, 6int,
{
    if 0 <= p < s.len() && (s[p] == '+' || s[p] == '-') {
        match product_at(s, p + 1) {
            Ok((term, end)) => if p < end <= s.len() {
                sum_rest(
                    s,
                    end,
                    if s[p] == '+' {
                        acc.plus(term)
                    } else {
                        acc.minus(term)
                    },
                )
            } else {
                (acc, p)
            },
            Err(_) => (acc, p),
        }
    } else {
        (acc, p)
    }
}

/// `sum := product (('+' | '-') product)*`, folded from the left.
pub open spec fn sum_at(s: Seq<char>, p: int) -> Reading
    decreases s.len() - p, 7int,
{
    match product_at(s, p) {
        Ok((first, end)) => if p <= end <= s.len() {
            Ok(sum_rest(s, end, first))
        } else {
            Ok((first, end))
        },
        Err(stuck) => Err(stuck),
    }
}

} // verus!
