//! What the printer writes, the parser reads back.
//!
//! The law is [`lemma_text_reads_back`]: the text of a tree, read as a sum
//! from its first character on, gives the same tree and ends at the end of
//! the text. It holds of the trees that are [`well_shaped`].

use super::grammar::{
    digit_values, digits_end, exponent_at, float_at, integer_at, is_name_part, is_name_start,
    is_space, name_end, negative_at, pow_at, primitive_at, product_at, product_rest, spaces_end,
    sum_at, sum_rest, symbol_at, unit_at, Reading,
};
use crate::sym::decimal::{
    canonical, decimal_digits, decimal_text, digit_chars, is_canonical, leading_zeros,
    sign_text, trailing_zeros, zeros, DecimalView,
};
use super::{parsed, ParseFailure};
use crate::sym::expr::{Expr, Tree};
use crate::sym::integer::{
    all_digits, digit_char, digit_run_value, digit_value, digits_value, integer_text, is_digit,
    is_digit_run, nat_digits,
};
use crate::sym::print::{grouped, joined, spaced};
use crate::sym::symbol::Symbol;
use vstd::prelude::*;

verus! {

/// `name` can be read as a symbol: it begins as a name begins and goes on
/// as a name goes on.
pub open spec fn is_name(name: Seq<char>) -> bool {
    &&& name.len() > 0
    &&& is_name_start(name[0])
    &&& forall|i: int| 0 < i < name.len() ==> is_name_part(#[trigger] name[i])
}

/// The text of `t` begins with the digit of a number that is not negative:
/// `t` is such a number, or a power of one.
pub open spec fn number_led(t: Tree) -> bool {
    match t {
        Tree::Integer(v) => v >= 0,
        Tree::Approx(d) => !d.negative,
        Tree::Pow(base, _) => match *base {
            Tree::Integer(v) => v >= 0,
            Tree::Approx(d) => !d.negative,
            _ => false,
        },
        _ => false,
    }
}

/// A decimal number whose text is read back as the same number: it is in
/// canonical form and has a fraction, so that its text has a point.
pub open spec fn has_fraction(d: DecimalView) -> bool {
    is_canonical(d) && d.digits.len() > 0 && i64::MIN <= d.exponent < 0
}

/// The trees whose text is read back as the same tree. They are made of
/// integers, of decimal numbers with a fraction and of symbols with proper
/// names, and:
/// - a sum or a product has two items at least, and its first item is not
///   again a sum or a product (read back, it would be flattened);
/// - what is negated does not begin with the digit of a number (`-` and `5`
///   would be read as the number `-5`).
pub open spec fn well_shaped(t: Tree) -> bool
    decreases t,
{
    match t {
        Tree::Integer(_) => true,
        Tree::Sym(name) => is_name(name),
        Tree::Approx(d) => has_fraction(d),
        Tree::Undefined => false,
        Tree::Neg(e) => well_shaped(*e) && !number_led(*e),
        Tree::Sum(args) => args.len() >= 2 && !(args[0] is Sum) && forall|i: int|
            0 <= i < args.len() ==> well_shaped(#[trigger] args[i]),
        Tree::Product(args) => args.len() >= 2 && !(args[0] is Product) && forall|i: int|
            0 <= i < args.len() ==> well_shaped(#[trigger] args[i]),
        Tree::Ratio(n, d) => well_shaped(*n) && well_shaped(*d),
        Tree::Pow(b, p) => well_shaped(*b) && well_shaped(*p),
    }
}

/// The text `w` stands in `s` from the position `p` on.
pub open spec fn stands_at(s: Seq<char>, p: int, w: Seq<char>) -> bool {
    &&& 0 <= p
    &&& p + w.len() <= s.len()
    &&& forall|i: int| 0 <= i < w.len() ==> s[p + i] == #[trigger] w[i]
}

/// Nothing at `q` goes on a number or a name: the text ends there, or a
/// blank or a closing parenthesis stands there.
pub open spec fn closed_at(s: Seq<char>, q: int) -> bool {
    q == s.len() || (0 <= q < s.len() && (s[q] == ' ' || s[q] == ')'))
}

/// The layers of the grammar, from the tightest: 1 the unit, 2 the power,
/// 3 the negative, 4 the product, 5 the sum.
pub open spec fn layer_at(level: int, s: Seq<char>, p: int) -> Reading {
    if level <= 1 {
        unit_at(s, p)
    } else if level == 2 {
        pow_at(s, p)
    } else if level == 3 {
        negative_at(s, p)
    } else if level == 4 {
        product_at(s, p)
    } else {
        sum_at(s, p)
    }
}

/// The operator signs that a layer reads on from.
pub open spec fn goes_on(level: int, c: char) -> bool {
    ||| level >= 2 && c == '^'
    ||| level >= 4 && (c == '*' || c == '/')
    ||| level >= 5 && (c == '+' || c == '-')
}

/// A reading of the layer `level` that has come to `e` ends there.
pub open spec fn ends_at(level: int, s: Seq<char>, e: int) -> bool {
    0 <= e <= s.len() && (e < s.len() ==> !goes_on(level, s[e]))
}

/// The tightest layer that reads a tree of the given rank.
pub open spec fn layer_of(rank: int) -> int {
    if rank < 2 {
        1
    } else {
        rank
    }
}

proof fn lemma_stands_concat(s: Seq<char>, p: int, a: Seq<char>, b: Seq<char>)
    requires
        stands_at(s, p, a + b),
    ensures
        stands_at(s, p, a),
        stands_at(s, p + a.len(), b),
{
    assert forall|i: int| 0 <= i < a.len() implies s[p + i] == #[trigger] a[i] by {
        assert((a + b)[i] == a[i]);
    }
    assert forall|i: int| 0 <= i < b.len() implies s[p + a.len() + i] == #[trigger] b[i] by {
        assert((a + b)[a.len() + i] == b[i]);
    }
}

pub(crate) proof fn lemma_spaces_end_bounds(s: Seq<char>, p: int)
    requires
        0 <= p <= s.len(),
    ensures
        p <= spaces_end(s, p) <= s.len(),
        spaces_end(s, p) < s.len() ==> !is_space(s[spaces_end(s, p)]),
    decreases s.len() - p,
{
    if p < s.len() && is_space(s[p]) {
        lemma_spaces_end_bounds(s, p + 1);
    }
}

pub(crate) proof fn lemma_digits_run(s: Seq<char>, p: int, n: int)
    requires
        0 <= p,
        0 <= n,
        p + n <= s.len(),
        forall|i: int| 0 <= i < n ==> is_digit(#[trigger] s[p + i]),
        p + n == s.len() || !is_digit(s[p + n]),
    ensures
        digits_end(s, p) == p + n,
    decreases n,
{
    if n > 0 {
        assert(is_digit(s[p + 0]));
        assert forall|i: int| 0 <= i < n - 1 implies is_digit(#[trigger] s[p + 1 + i]) by {
            assert(is_digit(s[p + (i + 1)]));
        }
        lemma_digits_run(s, p + 1, n - 1);
    }
}

proof fn lemma_name_run(s: Seq<char>, p: int, n: int)
    requires
        0 <= p,
        0 <= n,
        p + n <= s.len(),
        forall|i: int| 0 <= i < n ==> is_name_part(#[trigger] s[p + i]),
        p + n == s.len() || !is_name_part(s[p + n]),
    ensures
        name_end(s, p) == p + n,
    decreases n,
{
    if n > 0 {
        assert(is_name_part(s[p + 0]));
        assert forall|i: int| 0 <= i < n - 1 implies is_name_part(#[trigger] s[p + 1 + i]) by {
            assert(is_name_part(s[p + (i + 1)]));
        }
        lemma_name_run(s, p + 1, n - 1);
    }
}

/// The digits of a number are digits, and write the number.
proof fn lemma_nat_digits(n: nat)
    ensures
        all_digits(nat_digits(n)),
        digits_value(nat_digits(n)) == n,
        n > 0 ==> nat_digits(n).len() > 0,
    decreases n,
{
    if n > 0 {
        lemma_nat_digits(n / 10);
        let front = nat_digits(n / 10);
        let last = digit_char((n % 10) as int);
        assert(is_digit(last));
        assert(digit_value(last) == n % 10);
        assert(front.push(last).drop_last() =~= front);
        assert forall|i: int| 0 <= i < front.push(last).len() implies is_digit(
            #[trigger] front.push(last)[i],
        ) by {
            if i < front.len() {
                assert(front.push(last)[i] == front[i]);
            }
        }
    }
}

/// The text of an integer is a digit run that writes the integer.
proof fn lemma_integer_text(v: int)
    ensures
        is_digit_run(integer_text(v)),
        digit_run_value(integer_text(v)) == v,
        integer_text(v).len() > 0,
        v >= 0 ==> all_digits(integer_text(v)),
        v < 0 ==> integer_text(v)[0] == '-' && all_digits(integer_text(v).skip(1)),
{
    if v == 0 {
        let zero = seq!['0'];
        assert(zero.drop_last() =~= Seq::<char>::empty());
        assert(digits_value(zero) == 10 * digits_value(zero.drop_last()) + digit_value('0'));
        assert(digits_value(Seq::<char>::empty()) == 0);
    } else if v > 0 {
        lemma_nat_digits(v as nat);
        assert(is_digit(nat_digits(v as nat)[0]));
    } else {
        lemma_nat_digits((-v) as nat);
        assert(integer_text(v).skip(1) =~= nat_digits((-v) as nat));
    }
}

/// The parts of the text of a decimal number with a fraction: the digits
/// before the point, and those after it.
pub open spec fn whole_part(d: DecimalView) -> Seq<u8> {
    if -d.exponent < d.digits.len() {
        d.digits.take(d.digits.len() + d.exponent)
    } else {
        seq![0u8]
    }
}

pub open spec fn fraction_part(d: DecimalView) -> Seq<u8> {
    if -d.exponent < d.digits.len() {
        d.digits.skip(d.digits.len() + d.exponent)
    } else {
        Seq::new((-d.exponent - d.digits.len()) as nat, |i: int| 0u8) + d.digits
    }
}

/// The zeros in front of digits that do not begin with a zero are counted
/// as they are.
proof fn lemma_leading_zeros_of(zeros: int, digits: Seq<u8>)
    requires
        0 <= zeros,
        digits.len() > 0,
        digits[0] != 0,
    ensures
        leading_zeros(Seq::new(zeros as nat, |i: int| 0u8) + digits) == zeros,
        (Seq::new(zeros as nat, |i: int| 0u8) + digits).skip(zeros) == digits,
    decreases zeros,
{
    let all = Seq::new(zeros as nat, |i: int| 0u8) + digits;
    assert(all.skip(zeros) =~= digits);
    if zeros > 0 {
        lemma_leading_zeros_of(zeros - 1, digits);
        assert(all.skip(1) =~= Seq::new((zeros - 1) as nat, |i: int| 0u8) + digits);
        assert(all[0] == 0);
    } else {
        assert(all[0] == digits[0]);
    }
}

/// The text of a decimal number with a fraction is its sign, the digits
/// of its whole part, a point and the digits of its fraction; and these
/// digits, read as a number with as many places, are the number.
proof fn lemma_decimal_text(d: DecimalView)
    requires
        has_fraction(d),
    ensures
        decimal_text(d) == sign_text(d.negative) + digit_chars(whole_part(d)) + seq!['.']
            + digit_chars(fraction_part(d)),
        whole_part(d).len() > 0,
        fraction_part(d).len() == -d.exponent,
        decimal_digits(whole_part(d)),
        decimal_digits(fraction_part(d)),
        canonical(d.negative, whole_part(d) + fraction_part(d), d.exponent) == d,
        decimal_text(d).len() > 0,
        d.negative ==> decimal_text(d)[0] == '-',
        !d.negative ==> is_digit(decimal_text(d)[0]),
{
    let n = d.digits.len() as int;
    let all = whole_part(d) + fraction_part(d);
    if -d.exponent < n {
        assert(all =~= d.digits);
        assert(leading_zeros(all) == 0);
        assert(all.skip(0) =~= all);
    } else {
        let k = -d.exponent - n;
        let padding = Seq::new(k as nat, |i: int| 0u8);
        assert(digit_chars(seq![0u8]) =~= seq!['0']);
        assert(digit_chars(padding + d.digits) =~= zeros(k) + digit_chars(d.digits));
        assert(decimal_text(d) =~= sign_text(d.negative) + digit_chars(whole_part(d)) + seq!['.']
            + digit_chars(fraction_part(d)));
        assert(all =~= Seq::new((k + 1) as nat, |i: int| 0u8) + d.digits);
        lemma_leading_zeros_of(k + 1, d.digits);
    }
    let tail = all.skip(leading_zeros(all) as int);
    assert(tail =~= d.digits);
    assert(trailing_zeros(tail) == 0);
    assert(tail.take(tail.len() - 0) =~= d.digits);
    let text = decimal_text(d);
    let whole = digit_chars(whole_part(d));
    assert(whole[0] == ((whole_part(d)[0] as int) + ('0' as int)) as char);
    if d.negative {
        assert(text[0] == sign_text(true)[0]);
    } else {
        assert(sign_text(false) + whole =~= whole);
        assert(text[0] == whole[0]);
    }
}

/// The text of a decimal number with a fraction, standing closed in `s`,
/// is read as the number.
#[verifier::rlimit(30)]
proof fn lemma_reads_decimal(d: DecimalView, s: Seq<char>, p0: int)
    requires
        0 <= p0,
        has_fraction(d),
        stands_at(s, spaces_end(s, p0), decimal_text(d)),
        closed_at(s, spaces_end(s, p0) + decimal_text(d).len()),
    ensures
        unit_at(s, p0) == Ok::<(Tree, int), int>(
            (Tree::Approx(d), spaces_end(s, spaces_end(s, p0) + decimal_text(d).len())),
        ),
{
    let p = spaces_end(s, p0);
    let text = decimal_text(d);
    let whole = digit_chars(whole_part(d));
    let part = digit_chars(fraction_part(d));
    let sign = sign_text(d.negative);
    lemma_decimal_text(d);
    let first = p + sign.len();
    let point = first + whole.len();
    let last = point + 1 + part.len();
    lemma_stands_concat(s, p, sign + whole + seq!['.'], part);
    lemma_stands_concat(s, p, sign + whole, seq!['.']);
    lemma_stands_concat(s, p, sign, whole);
    assert(s[point + 0] == seq!['.'][0]);
    assert(s[first + 0] == whole[0]);
    if d.negative {
        assert(s[p + 0] == sign[0]);
    }
    assert forall|i: int| 0 <= i < whole.len() implies is_digit(#[trigger] s[first + i]) by {
        assert(s[first + i] == whole[i]);
    }
    assert forall|i: int| 0 <= i < part.len() implies is_digit(#[trigger] s[point + 1 + i]) by {
        assert(s[point + 1 + i] == part[i]);
    }
    lemma_digits_run(s, first, whole.len() as int);
    lemma_digits_run(s, point + 1, part.len() as int);
    assert(exponent_at(s, last) == (0int, last));
    assert(s.subrange(first, point) =~= whole);
    assert(s.subrange(point + 1, last) =~= part);
    assert(digit_values(whole + part) =~= whole_part(d) + fraction_part(d));
    assert(float_at(s, p) == Some((d, last)));
}

/// A character with which the text of a tree may begin.
pub open spec fn opens(c: char) -> bool {
    is_digit(c) || c == '-' || is_name_start(c) || c == '('
}

/// Texts joined begin with the first of them.
proof fn lemma_joined_begins(parts: Seq<Seq<char>>, sep: Seq<char>)
    requires
        parts.len() > 0,
    ensures
        joined(parts, sep).len() >= parts[0].len(),
        forall|i: int| 0 <= i < parts[0].len() ==> joined(parts, sep)[i] == #[trigger] parts[0][i],
    decreases parts.len(),
{
    if parts.len() > 1 {
        lemma_joined_begins(parts.drop_last(), sep);
        assert(parts.drop_last()[0] == parts[0]);
    }
}

/// The text of a well-shaped tree is not empty and begins with a digit, a
/// `-`, the start of a name or a parenthesis; so does the text of the tree
/// as a child of a parent of rank `k`. Under a negative, it begins with a
/// digit only if the tree is led by a number.
proof fn lemma_text_opens(t: Tree, k: int)
    requires
        well_shaped(t),
    ensures
        t.text().len() > 0,
        opens(t.text()[0]),
        t.rank() < 3 && is_digit(t.text()[0]) ==> number_led(t),
        grouped(t.text(), t.rank(), k).len() > 0,
        opens(grouped(t.text(), t.rank(), k)[0]),
        k == 3 && is_digit(grouped(t.text(), t.rank(), k)[0]) ==> number_led(t),
    decreases t,
{
    match t {
        Tree::Integer(v) => {
            lemma_integer_text(v);
        },
        Tree::Sym(name) => {},
        Tree::Approx(d) => {
            lemma_decimal_text(d);
        },
        Tree::Undefined => {},
        Tree::Neg(e) => {
            lemma_text_opens(*e, 3);
        },
        Tree::Sum(args) => {
            lemma_text_opens(args[0], 5);
            lemma_joined_begins(Tree::pieces(args, 5), spaced('+'));
            let first = Tree::pieces(args, 5)[0];
            assert(t.text()[0] == first[0]);
        },
        Tree::Product(args) => {
            lemma_text_opens(args[0], 4);
            lemma_joined_begins(Tree::pieces(args, 4), spaced('*'));
            let first = Tree::pieces(args, 4)[0];
            assert(t.text()[0] == first[0]);
        },
        Tree::Ratio(n, d) => {
            lemma_text_opens(*n, 4);
            let first = grouped(n.text(), n.rank(), 4);
            assert(t.text()[0] == first[0]);
        },
        Tree::Pow(b, x) => {
            lemma_text_opens(*b, 2);
            let first = grouped(b.text(), b.rank(), 2);
            assert(t.text()[0] == first[0]);
        },
    }
}

/// An integer's text that stands closed in `s` is read as the integer.
proof fn lemma_reads_integer(v: int, s: Seq<char>, p0: int)
    requires
        0 <= p0,
        stands_at(s, spaces_end(s, p0), integer_text(v)),
        closed_at(s, spaces_end(s, p0) + integer_text(v).len()),
    ensures
        unit_at(s, p0) == Ok::<(Tree, int), int>(
            (Tree::Integer(v), spaces_end(s, spaces_end(s, p0) + integer_text(v).len())),
        ),
{
    let p = spaces_end(s, p0);
    let text = integer_text(v);
    let end = p + text.len();
    lemma_integer_text(v);
    assert(s[p + 0] == text[0]);
    let first = if v < 0 {
        p + 1
    } else {
        p
    };
    assert forall|i: int| 0 <= i < end - first implies is_digit(#[trigger] s[first + i]) by {
        if v < 0 {
            assert(s[p + (i + 1)] == text[i + 1]);
            assert(text.skip(1)[i] == text[i + 1]);
        } else {
            assert(s[p + i] == text[i]);
        }
    }
    if v >= 0 {
        assert(is_digit(text[0]));
    }
    lemma_digits_run(s, first, end - first);
    assert(s.subrange(p, end) =~= text);
    assert(float_at(s, p) is None);
    assert(integer_at(s, p) == Some((v, end)));
}

/// A name that stands closed in `s` is read as its symbol.
proof fn lemma_reads_symbol(name: Seq<char>, s: Seq<char>, p0: int)
    requires
        0 <= p0,
        is_name(name),
        stands_at(s, spaces_end(s, p0), name),
        closed_at(s, spaces_end(s, p0) + name.len()),
    ensures
        unit_at(s, p0) == Ok::<(Tree, int), int>(
            (Tree::Sym(name), spaces_end(s, spaces_end(s, p0) + name.len())),
        ),
{
    let p = spaces_end(s, p0);
    let end = p + name.len();
    assert(s[p + 0] == name[0]);
    assert forall|i: int| 0 <= i < end - (p + 1) implies is_name_part(#[trigger] s[p + 1 + i]) by {
        assert(s[p + (i + 1)] == name[i + 1]);
    }
    lemma_name_run(s, p + 1, end - (p + 1));
    assert(s.subrange(p, end) =~= name);
    assert(digits_end(s, p) == p);
    assert(float_at(s, p) is None);
    assert(integer_at(s, p) is None);
    assert(symbol_at(s, p) == Some((name, end)));
}

/// What a layer has read, and ends at, every looser layer reads too.
pub(crate) proof fn lemma_lift(t: Tree, from: int, to: int, s: Seq<char>, p0: int, e: int)
    requires
        1 <= from <= to <= 5,
        layer_at(from, s, p0) == Ok::<(Tree, int), int>((t, e)),
        p0 <= e,
        ends_at(to, s, e),
    ensures
        layer_at(to, s, p0) == Ok::<(Tree, int), int>((t, e)),
    decreases to - from,
{
    if from < to {
        if from == 3 {
            assert(product_rest(s, e, t) == (t, e));
        }
        if from == 4 {
            assert(sum_rest(s, e, t) == (t, e));
        }
        assert(layer_at(from + 1, s, p0) == Ok::<(Tree, int), int>((t, e)));
        lemma_lift(t, from + 1, to, s, p0, e);
    }
}

/// The first `i` of the texts `parts`, joined.
pub open spec fn front(parts: Seq<Seq<char>>, sep: Seq<char>, i: int) -> Seq<char> {
    joined(parts.take(i), sep)
}

/// The first `i + 1` texts joined are the first `i` joined, the separator
/// and the next text.
proof fn lemma_front_step(parts: Seq<Seq<char>>, sep: Seq<char>, i: int)
    requires
        1 <= i < parts.len(),
    ensures
        front(parts, sep, i + 1) == front(parts, sep, i) + sep + parts[i],
{
    assert(parts.take(i + 1).drop_last() =~= parts.take(i));
    assert(parts.take(i + 1).last() == parts[i]);
}

/// Where texts joined stand, the first `i` of them joined stand.
proof fn lemma_front_stands(parts: Seq<Seq<char>>, sep: Seq<char>, s: Seq<char>, p: int, i: int)
    requires
        stands_at(s, p, joined(parts, sep)),
        1 <= i <= parts.len(),
    ensures
        stands_at(s, p, front(parts, sep, i)),
        i < parts.len() ==> stands_at(s, p + front(parts, sep, i).len(), sep) && stands_at(
            s,
            p + front(parts, sep, i).len() + sep.len(),
            parts[i],
        ),
        front(parts, sep, parts.len() as int) == joined(parts, sep),
    decreases parts.len() - i,
{
    assert(parts.take(parts.len() as int) =~= parts);
    if i < parts.len() {
        lemma_front_stands(parts, sep, s, p, i + 1);
        lemma_front_step(parts, sep, i);
        lemma_stands_concat(s, p, front(parts, sep, i) + sep, parts[i]);
        lemma_stands_concat(s, p, front(parts, sep, i), sep);
    }
}

/// Around an operator sign that stands with its blanks at `q`, before a
/// text that begins at `q + 3`: what stands before it is closed, the white
/// space from `q` on ends at the sign, and that after the sign ends at the
/// text.
proof fn lemma_sign(s: Seq<char>, q: int, sign: char, next: Seq<char>)
    requires
        stands_at(s, q, spaced(sign)),
        stands_at(s, q + 3, next),
        next.len() > 0,
        opens(next[0]),
        !is_space(sign),
    ensures
        closed_at(s, q),
        spaces_end(s, q) == q + 1,
        s[q + 1] == sign,
        spaces_end(s, q + 2) == q + 3,
        q + 3 < s.len(),
{
    let sep = spaced(sign);
    assert(s[q + 0] == sep[0]);
    assert(s[q + 1] == sep[1]);
    assert(s[q + 2] == sep[2]);
    assert(s[q + 3 + 0] == next[0]);
    assert(spaces_end(s, q + 1) == q + 1);
    assert(spaces_end(s, q + 3) == q + 3);
}

/// The text of a well-shaped tree, read by any layer from the tightest
/// that reads its kind: where the text stands closed in `s` after the
/// white space from `p0` on, and the layer ends behind it, the reading
/// gives the tree and ends after the white space behind the text.
proof fn lemma_reads_bare(t: Tree, level: int, s: Seq<char>, p0: int)
    requires
        well_shaped(t),
        layer_of(t.rank()) <= level <= 5,
        0 <= p0,
        stands_at(s, spaces_end(s, p0), t.text()),
        closed_at(s, spaces_end(s, p0) + t.text().len()),
        ends_at(level, s, spaces_end(s, spaces_end(s, p0) + t.text().len())),
    ensures
        layer_at(level, s, p0) == Ok::<(Tree, int), int>(
            (t, spaces_end(s, spaces_end(s, p0) + t.text().len())),
        ),
    decreases t, 2int, 0int,
{
    let p = spaces_end(s, p0);
    let end = p + t.text().len();
    lemma_spaces_end_bounds(s, p0);
    lemma_spaces_end_bounds(s, end);
    lemma_reads_tightest(t, s, p0);
    lemma_lift(t, layer_of(t.rank()), level, s, p0, spaces_end(s, end));
}

/// As [`lemma_reads_bare`], for the text in parentheses.
#[verifier::rlimit(30)]
proof fn lemma_reads_wrapped(t: Tree, level: int, s: Seq<char>, p0: int)
    requires
        well_shaped(t),
        1 <= level <= 5,
        0 <= p0,
        stands_at(s, spaces_end(s, p0), seq!['('] + t.text() + seq![')']),
        ends_at(level, s, spaces_end(s, spaces_end(s, p0) + t.text().len() + 2)),
    ensures
        layer_at(level, s, p0) == Ok::<(Tree, int), int>(
            (t, spaces_end(s, spaces_end(s, p0) + t.text().len() + 2)),
        ),
    decreases t, 3int, 0int,
{
    let p = spaces_end(s, p0);
    let text = t.text();
    let close = p + 1 + text.len();
    lemma_spaces_end_bounds(s, p0);
    lemma_spaces_end_bounds(s, close + 1);
    lemma_text_opens(t, 5);
    lemma_stands_concat(s, p, seq!['('] + text, seq![')']);
    lemma_stands_concat(s, p, seq!['('], text);
    assert(s[p + 0] == seq!['('][0]);
    assert(s[close + 0] == seq![')'][0]);
    assert(s[p + 1 + 0] == text[0]);
    assert(spaces_end(s, p + 1) == p + 1);
    assert(spaces_end(s, close) == close);
    lemma_reads_bare(t, 5, s, p + 1);
    lemma_unit_in_parentheses(s, p0, t, close);
    lemma_lift(t, 1, level, s, p0, spaces_end(s, close + 1));
}

/// A sum in parentheses is a unit.
proof fn lemma_unit_in_parentheses(s: Seq<char>, p0: int, t: Tree, close: int)
    requires
        0 <= p0 <= spaces_end(s, p0) < close < s.len(),
        s[spaces_end(s, p0)] == '(',
        s[close] == ')',
        sum_at(s, spaces_end(s, p0) + 1) == Ok::<(Tree, int), int>((t, close)),
    ensures
        unit_at(s, p0) == Ok::<(Tree, int), int>((t, spaces_end(s, close + 1))),
{
    let p = spaces_end(s, p0);
    assert(digits_end(s, p) == p);
    assert(float_at(s, p) is None);
    assert(integer_at(s, p) is None);
    assert(symbol_at(s, p) is None);
    assert(primitive_at(s, p) is None);
}

/// As [`lemma_reads_bare`], for the text of the tree as a child of a
/// parent of rank `k`, bare or in parentheses, read by the layer that
/// reads such a child or a looser one.
proof fn lemma_reads_child(t: Tree, k: int, level: int, s: Seq<char>, p0: int)
    requires
        well_shaped(t),
        2 <= k <= 5,
        1 <= level <= 5,
        k - 1 <= level,
        0 <= p0,
        stands_at(s, spaces_end(s, p0), grouped(t.text(), t.rank(), k)),
        closed_at(s, spaces_end(s, p0) + grouped(t.text(), t.rank(), k).len()),
        ends_at(
            level,
            s,
            spaces_end(s, spaces_end(s, p0) + grouped(t.text(), t.rank(), k).len()),
        ),
    ensures
        layer_at(level, s, p0) == Ok::<(Tree, int), int>(
            (t, spaces_end(s, spaces_end(s, p0) + grouped(t.text(), t.rank(), k).len())),
        ),
    decreases t, 4int, 0int,
{
    if t.rank() < k {
        lemma_reads_bare(t, level, s, p0);
    } else {
        lemma_reads_wrapped(t, level, s, p0);
    }
}

/// As [`lemma_reads_bare`], for the tightest layer that reads the kind of
/// the tree.
proof fn lemma_reads_tightest(t: Tree, s: Seq<char>, p0: int)
    requires
        well_shaped(t),
        0 <= p0,
        stands_at(s, spaces_end(s, p0), t.text()),
        closed_at(s, spaces_end(s, p0) + t.text().len()),
        ends_at(layer_of(t.rank()), s, spaces_end(s, spaces_end(s, p0) + t.text().len())),
    ensures
        layer_at(layer_of(t.rank()), s, p0) == Ok::<(Tree, int), int>(
            (t, spaces_end(s, spaces_end(s, p0) + t.text().len())),
        ),
    decreases t, 1int, 0int,
{
    match t {
        Tree::Integer(v) => {
            lemma_reads_integer(v, s, p0);
        },
        Tree::Sym(name) => {
            lemma_reads_symbol(name, s, p0);
        },
        Tree::Approx(d) => {
            lemma_reads_decimal(d, s, p0);
        },
        Tree::Undefined => {},
        Tree::Neg(e) => {
            lemma_reads_neg(*e, s, p0);
        },
        Tree::Pow(b, x) => {
            lemma_reads_pow(*b, *x, s, p0);
        },
        Tree::Ratio(n, d) => {
            lemma_reads_ratio(*n, *d, s, p0);
        },
        Tree::Product(args) => {
            lemma_reads_product(args, s, p0);
        },
        Tree::Sum(args) => {
            lemma_reads_sum(args, s, p0);
        },
    }
}

/// No unit begins with a `-` that no digit follows.
proof fn lemma_no_unit_at_minus(s: Seq<char>, p0: int)
    requires
        0 <= p0,
        spaces_end(s, p0) + 1 < s.len(),
        s[spaces_end(s, p0)] == '-',
        !is_digit(s[spaces_end(s, p0) + 1]),
        s[spaces_end(s, p0) + 1] != '.',
    ensures
        pow_at(s, p0) == Err::<(Tree, int), int>(spaces_end(s, p0)),
{
    let p = spaces_end(s, p0);
    assert(digits_end(s, p + 1) == p + 1);
    assert(float_at(s, p) is None);
    assert(integer_at(s, p) is None);
    assert(symbol_at(s, p) is None);
    assert(unit_at(s, p0) == Err::<(Tree, int), int>(p));
}

/// [`lemma_reads_tightest`] of a negative.
proof fn lemma_reads_neg(e: Tree, s: Seq<char>, p0: int)
    requires
        well_shaped(e.negated()),
        0 <= p0,
        stands_at(s, spaces_end(s, p0), e.negated().text()),
        closed_at(s, spaces_end(s, p0) + e.negated().text().len()),
        ends_at(3, s, spaces_end(s, spaces_end(s, p0) + e.negated().text().len())),
    ensures
        negative_at(s, p0) == Ok::<(Tree, int), int>(
            (e.negated(), spaces_end(s, spaces_end(s, p0) + e.negated().text().len())),
        ),
    decreases e.negated(), 0int, 0int,
{
    let p = spaces_end(s, p0);
    let inner = grouped(e.text(), e.rank(), 3);
    lemma_spaces_end_bounds(s, p0);
    lemma_text_opens(e, 3);
    lemma_stands_concat(s, p, seq!['-'], inner);
    assert(s[p + 0] == seq!['-'][0]);
    assert(s[p + 1 + 0] == inner[0]);
    assert(spaces_end(s, p + 1) == p + 1);
    lemma_no_unit_at_minus(s, p0);
    lemma_reads_child(e, 3, 2, s, p + 1);
}

/// [`lemma_reads_tightest`] of a power.
proof fn lemma_reads_pow(b: Tree, x: Tree, s: Seq<char>, p0: int)
    requires
        well_shaped(b.to_the(x)),
        0 <= p0,
        stands_at(s, spaces_end(s, p0), b.to_the(x).text()),
        closed_at(s, spaces_end(s, p0) + b.to_the(x).text().len()),
        ends_at(2, s, spaces_end(s, spaces_end(s, p0) + b.to_the(x).text().len())),
    ensures
        pow_at(s, p0) == Ok::<(Tree, int), int>(
            (b.to_the(x), spaces_end(s, spaces_end(s, p0) + b.to_the(x).text().len())),
        ),
    decreases b.to_the(x), 0int, 0int,
{
    let p = spaces_end(s, p0);
    let left = grouped(b.text(), b.rank(), 2);
    let right = grouped(x.text(), x.rank(), 2);
    let sign = p + left.len();
    lemma_spaces_end_bounds(s, p0);
    lemma_text_opens(x, 2);
    lemma_stands_concat(s, p, left + spaced('^'), right);
    lemma_stands_concat(s, p, left, spaced('^'));
    lemma_sign(s, sign, '^', right);
    lemma_reads_child(b, 2, 1, s, p0);
    lemma_reads_child(x, 2, 3, s, sign + 2);
}

/// A product goes on over a sign and a factor.
proof fn lemma_product_step(s: Seq<char>, here: int, acc: Tree, factor: Tree, end: int)
    requires
        0 <= here < s.len(),
        s[here] == '*' || s[here] == '/',
        negative_at(s, here + 1) == Ok::<(Tree, int), int>((factor, end)),
        here < end <= s.len(),
    ensures
        product_rest(s, here, acc) == product_rest(
            s,
            end,
            if s[here] == '*' {
                acc.times(factor)
            } else {
                acc.over(factor)
            },
        ),
{
}

/// A sum goes on over a sign and a term.
proof fn lemma_sum_step(s: Seq<char>, here: int, acc: Tree, term: Tree, end: int)
    requires
        0 <= here < s.len(),
        s[here] == '+' || s[here] == '-',
        product_at(s, here + 1) == Ok::<(Tree, int), int>((term, end)),
        here < end <= s.len(),
    ensures
        sum_rest(s, here, acc) == sum_rest(
            s,
            end,
            if s[here] == '+' {
                acc.plus(term)
            } else {
                acc.minus(term)
            },
        ),
{
}

/// [`lemma_reads_tightest`] of a ratio.
proof fn lemma_reads_ratio(n: Tree, d: Tree, s: Seq<char>, p0: int)
    requires
        well_shaped(n.over(d)),
        0 <= p0,
        stands_at(s, spaces_end(s, p0), n.over(d).text()),
        closed_at(s, spaces_end(s, p0) + n.over(d).text().len()),
        ends_at(4, s, spaces_end(s, spaces_end(s, p0) + n.over(d).text().len())),
    ensures
        product_at(s, p0) == Ok::<(Tree, int), int>(
            (n.over(d), spaces_end(s, spaces_end(s, p0) + n.over(d).text().len())),
        ),
    decreases n.over(d), 0int, 0int,
{
    let p = spaces_end(s, p0);
    let left = grouped(n.text(), n.rank(), 4);
    let right = grouped(d.text(), d.rank(), 4);
    let sign = p + left.len();
    let stop = spaces_end(s, p + n.over(d).text().len());
    lemma_spaces_end_bounds(s, p0);
    lemma_spaces_end_bounds(s, p + n.over(d).text().len());
    lemma_text_opens(d, 4);
    lemma_stands_concat(s, p, left + spaced('/'), right);
    lemma_stands_concat(s, p, left, spaced('/'));
    lemma_sign(s, sign, '/', right);
    lemma_reads_child(n, 4, 3, s, p0);
    lemma_reads_child(d, 4, 3, s, sign + 2);
    assert(negative_at(s, p0) == Ok::<(Tree, int), int>((n, sign + 1)));
    assert(negative_at(s, sign + 2) == Ok::<(Tree, int), int>((d, stop)));
    lemma_product_step(s, sign + 1, n, d, stop);
    assert(product_rest(s, stop, n.over(d)) == (n.over(d), stop));
}

/// A product begins with a factor.
proof fn lemma_product_start(s: Seq<char>, p0: int, first: Tree, end: int)
    requires
        negative_at(s, p0) == Ok::<(Tree, int), int>((first, end)),
        p0 <= end <= s.len(),
    ensures
        product_at(s, p0) == Ok::<(Tree, int), int>(product_rest(s, end, first)),
{
}

/// A sum begins with a term.
proof fn lemma_sum_start(s: Seq<char>, p0: int, first: Tree, end: int)
    requires
        product_at(s, p0) == Ok::<(Tree, int), int>((first, end)),
        p0 <= end <= s.len(),
    ensures
        sum_at(s, p0) == Ok::<(Tree, int), int>(sum_rest(s, end, first)),
{
}

/// Where the first item of a joined text stands, and what stands behind
/// it.
proof fn lemma_first_stands(args: Seq<Tree>, k: int, sign: char, s: Seq<char>, p: int)
    requires
        2 <= k <= 5,
        !is_space(sign),
        forall|j: int| 0 <= j < args.len() ==> well_shaped(#[trigger] args[j]),
        2 <= args.len(),
        stands_at(s, p, joined(Tree::pieces(args, k), spaced(sign))),
    ensures
        ({
            let parts = Tree::pieces(args, k);
            let after = p + parts[0].len();
            &&& front(parts, spaced(sign), 1) == parts[0]
            &&& parts[0] == grouped(args[0].text(), args[0].rank(), k)
            &&& stands_at(s, p, parts[0])
            &&& closed_at(s, after)
            &&& spaces_end(s, after) == after + 1
            &&& after + 1 < s.len()
            &&& s[after + 1] == sign
        }),
{
    let parts = Tree::pieces(args, k);
    let sep = spaced(sign);
    lemma_front_stands(parts, sep, s, p, 1);
    assert(parts.take(1)[0] == parts[0]);
    lemma_text_opens(args[1], k);
    lemma_sign(s, p + parts[0].len(), sign, parts[1]);
}

/// [`lemma_reads_tightest`] of a product.
proof fn lemma_reads_product(args: Seq<Tree>, s: Seq<char>, p0: int)
    requires
        well_shaped(Tree::Product(args)),
        0 <= p0,
        stands_at(s, spaces_end(s, p0), Tree::Product(args).text()),
        closed_at(s, spaces_end(s, p0) + Tree::Product(args).text().len()),
        ends_at(4, s, spaces_end(s, spaces_end(s, p0) + Tree::Product(args).text().len())),
    ensures
        product_at(s, p0) == Ok::<(Tree, int), int>(
            (
                Tree::Product(args),
                spaces_end(s, spaces_end(s, p0) + Tree::Product(args).text().len()),
            ),
        ),
    decreases Tree::Product(args), 0int, args.len() + 1,
{
    let p = spaces_end(s, p0);
    let parts = Tree::pieces(args, 4);
    let next = spaces_end(s, p + parts[0].len());
    lemma_spaces_end_bounds(s, p0);
    lemma_first_stands(args, 4, '*', s, p);
    assert(negative_at(s, p0) == Ok::<(Tree, int), int>((args[0], next))) by {
        lemma_reads_child(args[0], 4, 3, s, p0);
    }
    lemma_product_start(s, p0, args[0], next);
    lemma_product_reads_on(args, s, p, 1);
}

/// [`lemma_reads_tightest`] of a sum.
proof fn lemma_reads_sum(args: Seq<Tree>, s: Seq<char>, p0: int)
    requires
        well_shaped(Tree::Sum(args)),
        0 <= p0,
        stands_at(s, spaces_end(s, p0), Tree::Sum(args).text()),
        closed_at(s, spaces_end(s, p0) + Tree::Sum(args).text().len()),
        ends_at(5, s, spaces_end(s, spaces_end(s, p0) + Tree::Sum(args).text().len())),
    ensures
        sum_at(s, p0) == Ok::<(Tree, int), int>(
            (Tree::Sum(args), spaces_end(s, spaces_end(s, p0) + Tree::Sum(args).text().len())),
        ),
    decreases Tree::Sum(args), 0int, args.len() + 1,
{
    let p = spaces_end(s, p0);
    let parts = Tree::pieces(args, 5);
    let next = spaces_end(s, p + parts[0].len());
    lemma_spaces_end_bounds(s, p0);
    lemma_first_stands(args, 5, '+', s, p);
    assert(product_at(s, p0) == Ok::<(Tree, int), int>((args[0], next))) by {
        lemma_reads_child(args[0], 5, 4, s, p0);
    }
    lemma_sum_start(s, p0, args[0], next);
    lemma_sum_reads_on(args, s, p, 1);
}

/// The product of the first `i` factors, as the parser has folded them.
pub open spec fn product_so_far(args: Seq<Tree>, i: int) -> Tree {
    if i == 1 {
        args[0]
    } else {
        Tree::Product(args.take(i))
    }
}

/// Where the `i`th item of a joined text stands, and what stands around
/// it: the sign before it, and behind it the next sign or the end of the
/// whole.
proof fn lemma_item_stands(
    args: Seq<Tree>,
    k: int,
    sign: char,
    s: Seq<char>,
    p: int,
    i: int,
)
    requires
        2 <= k <= 5,
        !is_space(sign),
        sign != '^',
        forall|j: int| 0 <= j < args.len() ==> well_shaped(#[trigger] args[j]),
        1 <= i < args.len(),
        stands_at(s, p, joined(Tree::pieces(args, k), spaced(sign))),
        closed_at(s, p + joined(Tree::pieces(args, k), spaced(sign)).len()),
    ensures
        ({
            let parts = Tree::pieces(args, k);
            let here = p + front(parts, spaced(sign), i).len();
            let after = p + front(parts, spaced(sign), i + 1).len();
            &&& spaces_end(s, here) == here + 1
            &&& 0 <= here + 1 < s.len()
            &&& s[here + 1] == sign
            &&& spaces_end(s, here + 2) == here + 3
            &&& stands_at(s, here + 3, parts[i])
            &&& parts[i] == grouped(args[i].text(), args[i].rank(), k)
            &&& after == here + 3 + parts[i].len()
            &&& closed_at(s, after)
            &&& here + 1 < spaces_end(s, after) <= s.len()
            &&& i + 1 < args.len() ==> s[spaces_end(s, after)] == sign
            &&& i + 1 == args.len() ==> after == p + joined(parts, spaced(sign)).len()
        }),
{
    let parts = Tree::pieces(args, k);
    let sep = spaced(sign);
    let here = p + front(parts, sep, i).len();
    let after = p + front(parts, sep, i + 1).len();
    lemma_front_stands(parts, sep, s, p, i);
    lemma_text_opens(args[i], k);
    lemma_sign(s, here, sign, parts[i]);
    lemma_front_step(parts, sep, i);
    assert(after == here + 3 + parts[i].len());
    lemma_spaces_end_bounds(s, after);
    if i + 1 < args.len() {
        lemma_front_stands(parts, sep, s, p, i + 1);
        lemma_text_opens(args[i + 1], k);
        lemma_sign(s, after, sign, parts[i + 1]);
    } else {
        lemma_front_stands(parts, sep, s, p, i + 1);
    }
}

/// The rest of a product's text, read on after its first `i` factors.
#[verifier::rlimit(30)]
proof fn lemma_product_reads_on(args: Seq<Tree>, s: Seq<char>, p: int, i: int)
    requires
        well_shaped(Tree::Product(args)),
        1 <= i <= args.len(),
        0 <= p,
        stands_at(s, p, Tree::Product(args).text()),
        closed_at(s, p + Tree::Product(args).text().len()),
        ends_at(4, s, spaces_end(s, p + Tree::Product(args).text().len())),
    ensures
        product_rest(
            s,
            spaces_end(s, p + front(Tree::pieces(args, 4), spaced('*'), i).len()),
            product_so_far(args, i),
        ) == (Tree::Product(args), spaces_end(s, p + Tree::Product(args).text().len())),
    decreases Tree::Product(args), 0int, args.len() - i,
{
    let parts = Tree::pieces(args, 4);
    let sep = spaced('*');
    let text = Tree::Product(args).text();
    let here = p + front(parts, sep, i).len();
    if i == args.len() {
        assert(args.take(i) =~= args);
        assert(parts.take(i) =~= parts);
    } else {
        let factor = args[i];
        let after = p + front(parts, sep, i + 1).len();
        lemma_item_stands(args, 4, '*', s, p, i);
        lemma_reads_child(factor, 4, 3, s, here + 2);
        lemma_product_step(s, here + 1, product_so_far(args, i), factor, spaces_end(s, after));
        assert(product_so_far(args, i).times(factor) == product_so_far(args, i + 1)) by {
            if i == 1 {
                assert(seq![args[0], factor] =~= args.take(2));
            } else {
                assert(args.take(i).push(factor) =~= args.take(i + 1));
            }
        }
        lemma_product_reads_on(args, s, p, i + 1);
    }
}

/// The sum of the first `i` terms, as the parser has folded them.
pub open spec fn sum_so_far(args: Seq<Tree>, i: int) -> Tree {
    if i == 1 {
        args[0]
    } else {
        Tree::Sum(args.take(i))
    }
}

/// The rest of a sum's text, read on after its first `i` terms.
#[verifier::rlimit(30)]
proof fn lemma_sum_reads_on(args: Seq<Tree>, s: Seq<char>, p: int, i: int)
    requires
        well_shaped(Tree::Sum(args)),
        1 <= i <= args.len(),
        0 <= p,
        stands_at(s, p, Tree::Sum(args).text()),
        closed_at(s, p + Tree::Sum(args).text().len()),
        ends_at(5, s, spaces_end(s, p + Tree::Sum(args).text().len())),
    ensures
        sum_rest(
            s,
            spaces_end(s, p + front(Tree::pieces(args, 5), spaced('+'), i).len()),
            sum_so_far(args, i),
        ) == (Tree::Sum(args), spaces_end(s, p + Tree::Sum(args).text().len())),
    decreases Tree::Sum(args), 0int, args.len() - i,
{
    let parts = Tree::pieces(args, 5);
    let sep = spaced('+');
    let text = Tree::Sum(args).text();
    let here = p + front(parts, sep, i).len();
    if i == args.len() {
        assert(args.take(i) =~= args);
        assert(parts.take(i) =~= parts);
    } else {
        let term = args[i];
        let after = p + front(parts, sep, i + 1).len();
        lemma_item_stands(args, 5, '+', s, p, i);
        lemma_reads_child(term, 5, 4, s, here + 2);
        lemma_sum_step(s, here + 1, sum_so_far(args, i), term, spaces_end(s, after));
        assert(sum_so_far(args, i).plus(term) == sum_so_far(args, i + 1)) by {
            if i == 1 {
                assert(seq![args[0], term] =~= args.take(2));
            } else {
                assert(args.take(i).push(term) =~= args.take(i + 1));
            }
        }
        lemma_sum_reads_on(args, s, p, i + 1);
    }
}

/// What the printer writes, the parser reads back: the text of a
/// well-shaped tree, read as a sum from its first character on, gives the
/// tree, and the reading ends at the end of the text.
pub proof fn lemma_text_reads_back(t: Tree)
    requires
        well_shaped(t),
    ensures
        sum_at(t.text(), 0) == Ok::<(Tree, int), int>((t, t.text().len() as int)),
{
    let s = t.text();
    lemma_text_opens(t, 5);
    assert(spaces_end(s, 0) == 0);
    assert(spaces_end(s, s.len() as int) == s.len());
    lemma_reads_bare(t, 5, s, 0);
}

/// Parsing what was rendered gives the expression back: where `text` is
/// what [`Expr::render`] writes of `e` in a table with the handles `names`,
/// and `r` is what [`parse_expr`](super::parse_expr) makes of `text`,
/// leaving a table with the handles `later`, the parse has succeeded,
/// nothing of the text is left, and the expression read says in the table
/// after what `e` said in the table before.
pub proof fn lemma_parse_of_render(
    e: Expr,
    names: Map<Symbol, Seq<char>>,
    text: &str,
    r: Result<(&str, Expr), ParseFailure>,
    later: Map<Symbol, Seq<char>>,
)
    requires
        well_shaped(e.tree(names)),
        text@ == e.tree(names).text(),
        parsed(r, sum_at(text@, 0), text@, later),
    ensures
        r is Ok,
        r->Ok_0.0@.len() == 0,
        r->Ok_0.1.tree(later) == e.tree(names),
{
    lemma_text_reads_back(e.tree(names));
}

} // verus!
