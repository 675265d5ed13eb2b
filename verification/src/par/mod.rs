//! Tools for parsing expressions.

pub mod grammar;
pub mod laws;
pub mod roundtrip;
mod scan;

use self::grammar::{
    float_at, integer_at, negative_at, number_at, pow_at, primitive_at, product_at, product_rest,
    sum_at, sum_rest, symbol_at, unit_at, Reading,
};
use self::scan::{chars_of, scan_float, scan_integer, scan_number, scan_symbol, skip_spaces};
use crate::sym::decimal::Decimal;
use crate::sym::expr::{lemma_grown_keeps, Expr, Tree};
use crate::sym::adopt::learned;
use crate::sym::symbol::{grown_from, lemma_grown_twice, Symbol, SymbolTable};
use vstd::prelude::*;

verus! {

/// The text does not match the grammar: `position` is the index of the
/// character at which the reading could not go on.
#[derive(Clone, Copy, Debug, PartialEq, Eq)]
pub struct ParseFailure {
    pub position: usize,
}

impl ParseFailure {
    /// What is left of `input`, the text that failed to parse, from the
    /// position of the failure on.
    pub fn remainder<'a>(&self, input: &'a str) -> (rest: &'a str)
        ensures
            rest@ == if self.position <= input@.len() {
                input@.skip(self.position as int)
            } else {
                Seq::empty()
            },
    {
        let len = input.unicode_len();
        let rest = if self.position <= len {
            input.substring_char(self.position, len)
        } else {
            input.substring_char(len, len)
        };
        assert(rest@ =~= if self.position <= input@.len() {
            input@.skip(self.position as int)
        } else {
            Seq::empty()
        });
        rest
    }
}

/// What reading from `p` gave, against what the grammar says: on success
/// the tree that `e` says in `names` and the end, with every symbol of `e`
/// in `names` and the end after `p`; on failure the same position.
pub open spec fn agrees(
    r: Result<(Expr, usize), usize>,
    expected: Reading,
    names: Map<Symbol, Seq<char>>,
    p: int,
    len: int,
) -> bool {
    match r {
        Ok((e, end)) => expected == Ok::<(Tree, int), int>((e.tree(names), end as int))
            && e.bound_in(names) && p < end <= len,
        Err(at) => expected == Err::<(Tree, int), int>(at as int) && p <= at <= len,
    }
}

/// What a parser gave for the text `s`, against what the grammar says of
/// it from its first character on: on success the tree that `e` says in
/// `names`, with what is left of the text after the reading; on failure
/// the position of the failure.
pub open spec fn parsed(
    r: Result<(&str, Expr), ParseFailure>,
    expected: Reading,
    s: Seq<char>,
    names: Map<Symbol, Seq<char>>,
) -> bool {
    match r {
        Ok((rest, e)) => match expected {
            Ok((tree, end)) => tree == e.tree(names) && e.bound_in(names) && 0 <= end <= s.len()
                && rest@ == s.skip(end),
            Err(_) => false,
        },
        Err(failure) => expected == Err::<(Tree, int), int>(failure.position as int),
    }
}

/// As [`parsed`], for a parser that interns the symbols it reads in a
/// table, which holds the handles `before` when the parser is called and
/// the handles `after` when it is done: on success the table has learned
/// the names of the symbols of the tree, and no other; on failure it is as
/// it was.
pub open spec fn parsed_into(
    r: Result<(&str, Expr), ParseFailure>,
    expected: Reading,
    s: Seq<char>,
    before: Map<Symbol, Seq<char>>,
    after: Map<Symbol, Seq<char>>,
) -> bool {
    &&& parsed(r, expected, s, after)
    &&& match r {
        Ok((_, e)) => learned(before, after, e.tree(after)),
        Err(_) => after == before,
    }
}

/// A token that is read at the start of the text or not at all, as a
/// reading: where there is none, the reading fails at the start.
pub open spec fn token(found: Option<(Tree, int)>) -> Reading {
    match found {
        Some(read) => Ok(read),
        None => Err(0),
    }
}

/// The digit run at the start of `s`, as a tree.
pub open spec fn integer_token(s: Seq<char>) -> Option<(Tree, int)> {
    match integer_at(s, 0) {
        Some((value, end)) => Some((Tree::Integer(value), end)),
        None => None,
    }
}

/// The decimal literal at the start of `s`, as a tree.
pub open spec fn float_token(s: Seq<char>) -> Option<(Tree, int)> {
    match float_at(s, 0) {
        Some((number, end)) => Some((Tree::Approx(number), end)),
        None => None,
    }
}

/// The symbol at the start of `s`, as a tree.
pub open spec fn symbol_token(s: Seq<char>) -> Option<(Tree, int)> {
    match symbol_at(s, 0) {
        Some((name, end)) => Some((Tree::Sym(name), end)),
        None => None,
    }
}

/// What is left of `text` from the character `end` on, with the tree read
/// before it, or the failure.
fn finish<'a>(
    text: &'a str,
    chars: &Vec<char>,
    read: Result<(Expr, usize), usize>,
    Ghost(expected): Ghost<Reading>,
    Ghost(names): Ghost<Map<Symbol, Seq<char>>>,
) -> (r: Result<(&'a str, Expr), ParseFailure>)
    requires
        chars@ == text@,
        match read {
            Ok((e, end)) => expected == Ok::<(Tree, int), int>((e.tree(names), end as int))
                && e.bound_in(names) && end <= chars.len(),
            Err(at) => expected == Err::<(Tree, int), int>(at as int),
        },
    ensures
        parsed(r, expected, text@, names),
{
    match read {
        Ok((e, end)) => {
            let rest = text.substring_char(end, chars.len());
            assert(rest@ =~= text@.skip(end as int));
            Ok((rest, e))
        },
        Err(at) => Err(ParseFailure { position: at }),
    }
}

/// As [`finish`], for a tree that was read with the table `scratch`: on
/// success `table` takes the tree over.
fn finish_into<'a>(
    table: &mut SymbolTable,
    scratch: &SymbolTable,
    text: &'a str,
    chars: &Vec<char>,
    read: Result<(Expr, usize), usize>,
    Ghost(expected): Ghost<Reading>,
) -> (r: Result<(&'a str, Expr), ParseFailure>)
    requires
        old(table).wf(),
        chars@ == text@,
        match read {
            Ok((e, end)) => expected == Ok::<(Tree, int), int>((e.tree(scratch@), end as int))
                && e.bound_in(scratch@) && end <= chars.len(),
            Err(at) => expected == Err::<(Tree, int), int>(at as int),
        },
    ensures
        final(table).wf(),
        parsed_into(r, expected, text@, old(table)@, final(table)@),
{
    match read {
        Ok((e, end)) => {
            let taken = table.adopt(e, scratch);
            finish(text, chars, Ok((taken, end)), Ghost(expected), Ghost(table@))
        },
        Err(at) => Err(ParseFailure { position: at }),
    }
}

/// Parses an integer at the start of `input`: `integer := "-"? digit+`.
pub fn integer<'a>(input: &'a str) -> (r: Result<(&'a str, Expr), ParseFailure>)
    ensures
        parsed(r, token(integer_token(input@)), input@, Map::empty()),
{
    let chars = chars_of(input);
    let read = match scan_integer(&chars, 0) {
        Some((value, end)) => Ok((Expr::Integer(value), end)),
        None => Err(0),
    };
    finish(input, &chars, read, Ghost(token(integer_token(input@))), Ghost(Map::empty()))
}

/// Parses a decimal literal at the start of `input`: a sign, digits with a
/// point before, among or behind them, and an exponent part, the sign and
/// the exponent part optional. The literal is read whole, whatever its
/// exponent; see [`lemma_float_is_read_whole`](laws::lemma_float_is_read_whole).
pub fn float<'a>(input: &'a str) -> (r: Result<(&'a str, Expr), ParseFailure>)
    ensures
        parsed(r, token(float_token(input@)), input@, Map::empty()),
{
    let chars = chars_of(input);
    let read = match scan_float(&chars, 0) {
        Some((number, end)) => Ok((Expr::Approx(number), end)),
        None => Err(0),
    };
    finish(input, &chars, read, Ghost(token(float_token(input@))), Ghost(Map::empty()))
}

/// The decimal number that `input` writes as a whole, with or without a
/// point: `1.32`, `-5`, `.5e-3`, `1e21`. There is none if `input` is no such
/// number, or goes on behind it. An exponent beyond the range of `i64` is
/// read as the nearest end of that range.
pub fn decimal(input: &str) -> (r: Option<Decimal>)
    ensures
        match r {
            Some(d) => number_at(input@, 0, false) == Some((d@, input@.len() as int)),
            None => match number_at(input@, 0, false) {
                Some((_, end)) => end != input@.len(),
                None => true,
            },
        },
{
    let chars = chars_of(input);
    match scan_number(&chars, 0, false) {
        Some((number, end)) => if end == chars.len() {
            Some(number)
        } else {
            None
        },
        None => None,
    }
}

/// Parses a symbol at the start of `input`, and interns its name in
/// `table`: `symbol := alphabet alphabet_or_num*`.
pub fn symbol<'a>(table: &mut SymbolTable, input: &'a str) -> (r: Result<
    (&'a str, Expr),
    ParseFailure,
>)
    requires
        old(table).wf(),
    ensures
        final(table).wf(),
        parsed_into(r, token(symbol_token(input@)), input@, old(table)@, final(table)@),
{
    let chars = chars_of(input);
    let mut scratch = SymbolTable::new();
    let read = match scan_symbol(&chars, 0) {
        Some((name, end)) => Ok((Expr::Sym(scratch.intern(name.as_str())), end)),
        None => Err(0),
    };
    finish_into(table, &scratch, input, &chars, read, Ghost(token(symbol_token(input@))))
}

/// Parses a primitive at the start of `input`: a decimal literal, an
/// integer or a symbol, tried in this order.
pub fn primitive<'a>(table: &mut SymbolTable, input: &'a str) -> (r: Result<
    (&'a str, Expr),
    ParseFailure,
>)
    requires
        old(table).wf(),
    ensures
        final(table).wf(),
        parsed_into(r, token(primitive_at(input@, 0)), input@, old(table)@, final(table)@),
{
    let chars = chars_of(input);
    let mut scratch = SymbolTable::new();
    let read = match read_primitive(&chars, 0, &mut scratch) {
        Some(read) => Ok(read),
        None => Err(0),
    };
    finish_into(table, &scratch, input, &chars, read, Ghost(token(primitive_at(input@, 0))))
}

/// Parses a power at the start of `input`: `pow := unit ("^" negative)?`.
pub fn pow<'a>(table: &mut SymbolTable, input: &'a str) -> (r: Result<
    (&'a str, Expr),
    ParseFailure,
>)
    requires
        old(table).wf(),
    ensures
        final(table).wf(),
        parsed_into(r, pow_at(input@, 0), input@, old(table)@, final(table)@),
{
    let chars = chars_of(input);
    let mut scratch = SymbolTable::new();
    let read = read_pow(&chars, 0, &mut scratch);
    finish_into(table, &scratch, input, &chars, read, Ghost(pow_at(input@, 0)))
}

/// Parses a power or its negative at the start of `input`:
/// `negative := pow | "-" pow`.
pub fn negative<'a>(table: &mut SymbolTable, input: &'a str) -> (r: Result<
    (&'a str, Expr),
    ParseFailure,
>)
    requires
        old(table).wf(),
    ensures
        final(table).wf(),
        parsed_into(r, negative_at(input@, 0), input@, old(table)@, final(table)@),
{
    let chars = chars_of(input);
    let mut scratch = SymbolTable::new();
    let read = read_negative(&chars, 0, &mut scratch);
    finish_into(table, &scratch, input, &chars, read, Ghost(negative_at(input@, 0)))
}

/// Parses a product at the start of `input`:
/// `product := negative (("*" | "/") negative)*`.
pub fn product<'a>(table: &mut SymbolTable, input: &'a str) -> (r: Result<
    (&'a str, Expr),
    ParseFailure,
>)
    requires
        old(table).wf(),
    ensures
        final(table).wf(),
        parsed_into(r, product_at(input@, 0), input@, old(table)@, final(table)@),
{
    let chars = chars_of(input);
    let mut scratch = SymbolTable::new();
    let read = read_product(&chars, 0, &mut scratch);
    finish_into(table, &scratch, input, &chars, read, Ghost(product_at(input@, 0)))
}

/// Parse an expression at the start of `input`, a sum:
/// `sum := product (("+" | "-") product)*`.
///
/// The result holds the tree and what is left of the text behind it; a
/// caller that wants the whole text read checks that nothing is left. The
/// names of the symbols of the tree are interned in `table`; where the
/// parse fails, `table` is left as it was.
pub fn parse_expr<'a>(table: &mut SymbolTable, input: &'a str) -> (r: Result<
    (&'a str, Expr),
    ParseFailure,
>)
    requires
        old(table).wf(),
    ensures
        final(table).wf(),
        parsed_into(r, sum_at(input@, 0), input@, old(table)@, final(table)@),
{
    let chars = chars_of(input);
    let mut scratch = SymbolTable::new();
    let read = read_sum(&chars, 0, &mut scratch);
    finish_into(table, &scratch, input, &chars, read, Ghost(sum_at(input@, 0)))
}

/// The primitive at `p`.
fn read_primitive(chars: &Vec<char>, p: usize, table: &mut SymbolTable) -> (r: Option<
    (Expr, usize),
>)
    requires
        old(table).wf(),
        p <= chars.len(),
    ensures
        final(table).wf(),
        grown_from(final(table)@, old(table)@),
        match r {
            Some((e, end)) => primitive_at(chars@, p as int) == Some(
                (e.tree(final(table)@), end as int),
            ) && e.bound_in(final(table)@) && p < end <= chars.len(),
            None => primitive_at(chars@, p as int) is None,
        },
{
    if let Some((number, end)) = scan_float(chars, p) {
        return Some((Expr::Approx(number), end));
    }
    if let Some((value, end)) = scan_integer(chars, p) {
        return Some((Expr::Integer(value), end));
    }
    if let Some((name, end)) = scan_symbol(chars, p) {
        let sym = table.intern(name.as_str());
        return Some((Expr::Sym(sym), end));
    }
    None
}

/// `unit := primitive | '(' sum ')'` at `p`.
fn read_unit(chars: &Vec<char>, p: usize, table: &mut SymbolTable) -> (r: Result<
    (Expr, usize),
    usize,
>)
    requires
        old(table).wf(),
        p <= chars.len(),
    ensures
        final(table).wf(),
        grown_from(final(table)@, old(table)@),
        agrees(r, unit_at(chars@, p as int), final(table)@, p as int, chars.len() as int),
    decreases chars.len() - p, 1int,
{
    let q = skip_spaces(chars, p);
    if let Some((e, end)) = read_primitive(chars, q, table) {
        return Ok((e, skip_spaces(chars, end)));
    }
    if q < chars.len() && chars[q] == '(' {
        let ghost mid = table@;
        let inner = read_sum(chars, q + 1, table);
        proof {
            lemma_grown_twice(old(table)@, mid, table@);
        }
        match inner {
            Ok((e, end)) => {
                if end < chars.len() && chars[end] == ')' {
                    Ok((e, skip_spaces(chars, end + 1)))
                } else {
                    Err(end)
                }
            },
            Err(at) => Err(at),
        }
    } else {
        Err(q)
    }
}

/// `pow := unit ['^' negative]` at `p`.
fn read_pow(chars: &Vec<char>, p: usize, table: &mut SymbolTable) -> (r: Result<
    (Expr, usize),
    usize,
>)
    requires
        old(table).wf(),
        p <= chars.len(),
    ensures
        final(table).wf(),
        grown_from(final(table)@, old(table)@),
        agrees(r, pow_at(chars@, p as int), final(table)@, p as int, chars.len() as int),
    decreases chars.len() - p, 2int,
{
    let (base, end) = match read_unit(chars, p, table) {
        Ok(read) => read,
        Err(at) => {
            return Err(at);
        },
    };
    if end < chars.len() && chars[end] == '^' {
        let ghost mid = table@;
        let right = read_negative(chars, end + 1, table);
        proof {
            lemma_grown_twice(old(table)@, mid, table@);
            lemma_grown_keeps(base, mid, table@);
        }
        match right {
            Ok((exponent, end2)) => Ok((Expr::Pow(Box::new(base), Box::new(exponent)), end2)),
            Err(_) => Ok((base, end)),
        }
    } else {
        Ok((base, end))
    }
}

/// `negative := pow | '-' pow` at `p`.
fn read_negative(chars: &Vec<char>, p: usize, table: &mut SymbolTable) -> (r: Result<
    (Expr, usize),
    usize,
>)
    requires
        old(table).wf(),
        p <= chars.len(),
    ensures
        final(table).wf(),
        grown_from(final(table)@, old(table)@),
        agrees(r, negative_at(chars@, p as int), final(table)@, p as int, chars.len() as int),
    decreases chars.len() - p, 3int,
{
    match read_pow(chars, p, table) {
        Ok(read) => Ok(read),
        Err(at) => {
            let q = skip_spaces(chars, p);
            if q < chars.len() && chars[q] == '-' {
                let ghost mid = table@;
                let inner = read_pow(chars, q + 1, table);
                proof {
                    lemma_grown_twice(old(table)@, mid, table@);
                }
                match inner {
                    Ok((e, end)) => Ok((Expr::Neg(Box::new(e)), end)),
                    Err(at2) => Err(at2),
                }
            } else {
                Err(at)
            }
        },
    }
}

/// `product := negative (('*' | '/') negative)*` at `p`.
fn read_product(chars: &Vec<char>, p: usize, table: &mut SymbolTable) -> (r: Result<
    (Expr, usize),
    usize,
>)
    requires
        old(table).wf(),
        p <= chars.len(),
    ensures
        final(table).wf(),
        grown_from(final(table)@, old(table)@),
        agrees(r, product_at(chars@, p as int), final(table)@, p as int, chars.len() as int),
    decreases chars.len() - p, 5int,
{
    let (first, end) = match read_negative(chars, p, table) {
        Ok(read) => read,
        Err(at) => {
            return Err(at);
        },
    };
    let mut acc = first;
    let mut at = end;
    let mut going = true;
    while going
        invariant
            table.wf(),
            grown_from(table@, old(table)@),
            p < at <= chars.len(),
            acc.bound_in(table@),
            product_at(chars@, p as int) == Ok::<(Tree, int), int>(
                product_rest(chars@, at as int, acc.tree(table@)),
            ),
            !going ==> product_rest(chars@, at as int, acc.tree(table@)) == (
                acc.tree(table@),
                at as int,
            ),
        decreases chars.len() - at, (if going { 1int } else { 0int }),
    {
        if at < chars.len() && (chars[at] == '*' || chars[at] == '/') {
            let times = chars[at] == '*';
            let ghost mid = table@;
            let right = read_negative(chars, at + 1, table);
            proof {
                lemma_grown_twice(old(table)@, mid, table@);
                lemma_grown_keeps(acc, mid, table@);
            }
            match right {
                Ok((factor, next)) => {
                    let ghost left = acc.tree(table@);
                    acc = if times {
                        acc.times(factor)
                    } else {
                        acc.over(factor)
                    };
                    proof {
                        assert(acc.tree(table@) == if times {
                            left.times(factor.tree(table@))
                        } else {
                            left.over(factor.tree(table@))
                        });
                        assert(acc.bound_in(table@));
                    }
                    at = next;
                },
                Err(_) => {
                    going = false;
                },
            }
        } else {
            going = false;
        }
    }
    Ok((acc, at))
}

/// `sum := product (('+' | '-') product)*` at `p`.
fn read_sum(chars: &Vec<char>, p: usize, table: &mut SymbolTable) -> (r: Result<
    (Expr, usize),
    usize,
>)
    requires
        old(table).wf(),
        p <= chars.len(),
    ensures
        final(table).wf(),
        grown_from(final(table)@, old(table)@),
        agrees(r, sum_at(chars@, p as int), final(table)@, p as int, chars.len() as int),
    decreases chars.len() - p, 7int,
{
    let (first, end) = match read_product(chars, p, table) {
        Ok(read) => read,
        Err(at) => {
            return Err(at);
        },
    };
    let mut acc = first;
    let mut at = end;
    let mut going = true;
    while going
        invariant
            table.wf(),
            grown_from(table@, old(table)@),
            p < at <= chars.len(),
            acc.bound_in(table@),
            sum_at(chars@, p as int) == Ok::<(Tree, int), int>(
                sum_rest(chars@, at as int, acc.tree(table@)),
            ),
            !going ==> sum_rest(chars@, at as int, acc.tree(table@)) == (
                acc.tree(table@),
                at as int,
            ),
        decreases chars.len() - at, (if going { 1int } else { 0int }),
    {
        if at < chars.len() && (chars[at] == '+' || chars[at] == '-') {
            let plus = chars[at] == '+';
            let ghost mid = table@;
            let right = read_product(chars, at + 1, table);
            proof {
                lemma_grown_twice(old(table)@, mid, table@);
                lemma_grown_keeps(acc, mid, table@);
            }
            match right {
                Ok((term, next)) => {
                    let ghost left = acc.tree(table@);
                    acc = if plus {
                        acc.plus(term)
                    } else {
                        acc.minus(term)
                    };
                    proof {
                        assert(acc.tree(table@) == if plus {
                            left.plus(term.tree(table@))
                        } else {
                            left.minus(term.tree(table@))
                        });
                        assert(acc.bound_in(table@));
                    }
                    at = next;
                },
                Err(_) => {
                    going = false;
                },
            }
        } else {
            going = false;
        }
    }
    Ok((acc, at))
}

} // verus!
