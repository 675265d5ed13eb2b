//! Building expressions: what can stand as an operand, the constructors,
//! and the arithmetic combinators.

use super::decimal::Decimal;
use super::expr::{Expr, Tree};
use super::integer::bigint_value;
use super::symbol::{Symbol, SymbolTable};
use num::BigInt;
use vstd::prelude::*;

verus! {

/// A value that can stand where an expression is expected: an expression,
/// a symbol or a number.
pub trait Operand: Sized {
    /// What the operand says when its symbols are read in `names`.
    spec fn reading(self, names: Map<Symbol, Seq<char>>) -> Tree;

    /// Every symbol of the operand is a handle of `names`.
    spec fn known_in(self, names: Map<Symbol, Seq<char>>) -> bool;

    /// The operand as an expression.
    fn into_expr(self) -> (e: Expr)
        ensures
            forall|names: Map<Symbol, Seq<char>>|
                #![trigger e.tree(names)]
                #![trigger e.bound_in(names)]
                e.tree(names) == self.reading(names) && e.bound_in(names) == self.known_in(names),
    ;
}

/// One of the binary operators.
#[derive(Clone, Copy, Debug, PartialEq, Eq)]
pub enum Op {
    Plus,
    Minus,
    Times,
    Over,
    Power,
}

impl Op {
    /// What the operator makes of two trees.
    pub open spec fn apply(self, lhs: Tree, rhs: Tree) -> Tree {
        match self {
            Op::Plus => lhs.plus(rhs),
            Op::Minus => lhs.minus(rhs),
            Op::Times => lhs.times(rhs),
            Op::Over => lhs.over(rhs),
            Op::Power => lhs.to_the(rhs),
        }
    }
}

/// `r` is `lhs op rhs`: in every table it says what the operator makes of
/// what the two operands say, and its symbols are those of the two.
pub open spec fn combines<L: Operand, R: Operand>(r: Expr, op: Op, lhs: L, rhs: R) -> bool {
    forall|names: Map<Symbol, Seq<char>>|
        #![trigger r.tree(names)]
        #![trigger r.bound_in(names)]
        r.tree(names) == op.apply(lhs.reading(names), rhs.reading(names)) && r.bound_in(names) == (
        lhs.known_in(names) && rhs.known_in(names))
}

/// `r` is `-e`: in every table it says the negative of what `e` says, and
/// its symbols are those of `e`.
pub open spec fn negates<E: Operand>(r: Expr, e: E) -> bool {
    forall|names: Map<Symbol, Seq<char>>|
        #![trigger r.tree(names)]
        #![trigger r.bound_in(names)]
        r.tree(names) == e.reading(names).negated() && r.bound_in(names) == e.known_in(names)
}

impl Operand for Expr {
    open spec fn reading(self, names: Map<Symbol, Seq<char>>) -> Tree {
        self.tree(names)
    }

    open spec fn known_in(self, names: Map<Symbol, Seq<char>>) -> bool {
        self.bound_in(names)
    }

    fn into_expr(self) -> (e: Expr) {
        self
    }
}

impl Operand for &Expr {
    open spec fn reading(self, names: Map<Symbol, Seq<char>>) -> Tree {
        self.tree(names)
    }

    open spec fn known_in(self, names: Map<Symbol, Seq<char>>) -> bool {
        self.bound_in(names)
    }

    fn into_expr(self) -> (e: Expr) {
        let e = self.clone();
        assert forall|names: Map<Symbol, Seq<char>>|
            #![trigger e.tree(names)]
            #![trigger e.bound_in(names)]
            e.tree(names) == self.tree(names) && e.bound_in(names) == self.bound_in(names) by {
            assert(e.reads_as(*self, names));
        }
        e
    }
}

impl Operand for Symbol {
    open spec fn reading(self, names: Map<Symbol, Seq<char>>) -> Tree {
        Tree::Sym(names[self])
    }

    open spec fn known_in(self, names: Map<Symbol, Seq<char>>) -> bool {
        names.contains_key(self)
    }

    fn into_expr(self) -> (e: Expr) {
        Expr::Sym(self)
    }
}

impl Operand for BigInt {
    open spec fn reading(self, names: Map<Symbol, Seq<char>>) -> Tree {
        Tree::Integer(bigint_value(self))
    }

    open spec fn known_in(self, names: Map<Symbol, Seq<char>>) -> bool {
        true
    }

    fn into_expr(self) -> (e: Expr) {
        Expr::Integer(self)
    }
}

impl Operand for Decimal {
    open spec fn reading(self, names: Map<Symbol, Seq<char>>) -> Tree {
        Tree::Approx(self@)
    }

    open spec fn known_in(self, names: Map<Symbol, Seq<char>>) -> bool {
        true
    }

    fn into_expr(self) -> (e: Expr) {
        Expr::Approx(self)
    }
}

impl Expr {
    /// Construct an integer value: the integer that `i` is turned into.
    pub fn integer<I: Into<BigInt>>(i: I) -> (e: Expr)
        ensures
            e matches Expr::Integer(b) && call_ensures(<I as Into<BigInt>>::into, (i,), b),
    {
        Expr::Integer(i.into())
    }

    /// Construct a symbol, its name interned in `table`.
    pub fn symbol(table: &mut SymbolTable, s: &str) -> (e: Expr)
        requires
            old(table).wf(),
        ensures
            e matches Expr::Sym(sym) && old(table).interned(s@, *final(table), sym),
    {
        Expr::Sym(table.intern(s))
    }

    /// Construct an approximate value.
    pub fn approximate(d: Decimal) -> (e: Expr)
        ensures
            e == Expr::Approx(d),
    {
        Expr::Approx(d)
    }

    /// Construct the negative of an expression.
    pub fn negative<E: Operand>(e: E) -> (r: Expr)
        ensures
            negates(r, e),
    {
        let inner = e.into_expr();
        let r = Expr::Neg(Box::new(inner));
        assert forall|names: Map<Symbol, Seq<char>>|
            #![trigger r.tree(names)]
            #![trigger r.bound_in(names)]
            r.tree(names) == e.reading(names).negated() && r.bound_in(names) == e.known_in(
                names,
            ) by {
            assert(inner.tree(names) == e.reading(names));
            assert(inner.bound_in(names) == e.known_in(names));
        }
        r
    }

    /// Construct an exponentiation: `self` to the power `e`.
    pub fn pow<E: Operand>(self, e: E) -> (r: Expr)
        ensures
            combines(r, Op::Power, self, e),
    {
        let exponent = e.into_expr();
        let r = Expr::Pow(Box::new(self), Box::new(exponent));
        assert forall|names: Map<Symbol, Seq<char>>|
            #![trigger r.tree(names)]
            #![trigger r.bound_in(names)]
            r.tree(names) == self.tree(names).to_the(e.reading(names)) && r.bound_in(names) == (
            self.bound_in(names) && e.known_in(names)) by {
            assert(exponent.tree(names) == e.reading(names));
            assert(exponent.bound_in(names) == e.known_in(names));
        }
        r
    }

    /// `self + rhs`. If `self` is a sum, `rhs` becomes its last term;
    /// otherwise the result is the sum of the two.
    pub fn plus(self, rhs: Expr) -> (r: Expr)
        ensures
            combines(r, Op::Plus, self, rhs),
    {
        match self {
            Expr::Sum(mut terms) => {
                let ghost before = terms@;
                terms.push(rhs);
                let r = Expr::Sum(terms);
                assert forall|names: Map<Symbol, Seq<char>>|
                    #![trigger r.tree(names)]
                    #![trigger r.bound_in(names)]
                    r.tree(names) == self.tree(names).plus(rhs.tree(names)) && r.bound_in(names)
                        == (self.bound_in(names) && rhs.bound_in(names)) by {
                    lemma_push(before, rhs, names);
                }
                r
            },
            first => {
                let r = Expr::Sum(vec![first, rhs]);
                assert forall|names: Map<Symbol, Seq<char>>|
                    #![trigger r.tree(names)]
                    #![trigger r.bound_in(names)]
                    r.tree(names) == self.tree(names).plus(rhs.tree(names)) && r.bound_in(names)
                        == (self.bound_in(names) && rhs.bound_in(names)) by {
                    lemma_pair(self, rhs, names);
                }
                r
            },
        }
    }

    /// `self - rhs`, built as `self + (-rhs)`.
    pub fn minus(self, rhs: Expr) -> (r: Expr)
        ensures
            combines(r, Op::Minus, self, rhs),
    {
        let negated = Expr::Neg(Box::new(rhs));
        let r = self.plus(negated);
        assert forall|names: Map<Symbol, Seq<char>>|
            #![trigger r.tree(names)]
            #![trigger r.bound_in(names)]
            r.tree(names) == self.tree(names).minus(rhs.tree(names)) && r.bound_in(names) == (
            self.bound_in(names) && rhs.bound_in(names)) by {
            assert(negated.tree(names) == rhs.tree(names).negated());
            assert(negated.bound_in(names) == rhs.bound_in(names));
        }
        r
    }

    /// `self * rhs`. If `self` is a product, `rhs` becomes its last factor;
    /// otherwise the result is the product of the two.
    pub fn times(self, rhs: Expr) -> (r: Expr)
        ensures
            combines(r, Op::Times, self, rhs),
    {
        match self {
            Expr::Product(mut factors) => {
                let ghost before = factors@;
                factors.push(rhs);
                let r = Expr::Product(factors);
                assert forall|names: Map<Symbol, Seq<char>>|
                    #![trigger r.tree(names)]
                    #![trigger r.bound_in(names)]
                    r.tree(names) == self.tree(names).times(rhs.tree(names)) && r.bound_in(names)
                        == (self.bound_in(names) && rhs.bound_in(names)) by {
                    lemma_push(before, rhs, names);
                }
                r
            },
            first => {
                let r = Expr::Product(vec![first, rhs]);
                assert forall|names: Map<Symbol, Seq<char>>|
                    #![trigger r.tree(names)]
                    #![trigger r.bound_in(names)]
                    r.tree(names) == self.tree(names).times(rhs.tree(names)) && r.bound_in(names)
                        == (self.bound_in(names) && rhs.bound_in(names)) by {
                    lemma_pair(self, rhs, names);
                }
                r
            },
        }
    }

    /// `self / rhs`: the ratio of the two, whatever they are.
    pub fn over(self, rhs: Expr) -> (r: Expr)
        ensures
            r == Expr::Ratio(Box::new(self), Box::new(rhs)),
    {
        Expr::Ratio(Box::new(self), Box::new(rhs))
    }
}

/// What a sequence with one more item says.
proof fn lemma_push(items: Seq<Expr>, last: Expr, names: Map<Symbol, Seq<char>>)
    ensures
        Expr::trees(items.push(last), names) == Expr::trees(items, names).push(last.tree(names)),
        Expr::all_bound(items.push(last), names) == (Expr::all_bound(items, names)
            && last.bound_in(names)),
{
    let more = items.push(last);
    assert(Expr::trees(more, names) =~= Expr::trees(items, names).push(last.tree(names)));
    if Expr::all_bound(more, names) {
        assert(more[items.len() as int].bound_in(names));
        assert forall|i: int| 0 <= i < items.len() implies (#[trigger] items[i]).bound_in(
            names,
        ) by {
            assert(more[i].bound_in(names));
        }
    }
    if Expr::all_bound(items, names) && last.bound_in(names) {
        assert forall|i: int| 0 <= i < more.len() implies (#[trigger] more[i]).bound_in(names) by {
            if i < items.len() {
                assert(items[i].bound_in(names));
            }
        }
    }
}

/// What a sequence of two items says.
proof fn lemma_pair(first: Expr, second: Expr, names: Map<Symbol, Seq<char>>)
    ensures
        Expr::trees(seq![first, second], names) == seq![first.tree(names), second.tree(names)],
        Expr::all_bound(seq![first, second], names) == (first.bound_in(names) && second.bound_in(
            names,
        )),
{
    let both = seq![first, second];
    assert(Expr::trees(both, names) =~= seq![first.tree(names), second.tree(names)]);
    if Expr::all_bound(both, names) {
        assert(both[0].bound_in(names));
        assert(both[1].bound_in(names));
    }
}

impl Symbol {
    /// The handle of the name `s` in `table`: the one it has, or a new one.
    pub fn new(table: &mut SymbolTable, s: &str) -> (sym: Symbol)
        requires
            old(table).wf(),
        ensures
            old(table).interned(s@, *final(table), sym),
    {
        table.intern(s)
    }

    /// Construct a power expression: the symbol to the power `rhs`.
    pub fn pow<E: Operand>(self, rhs: E) -> (r: Expr)
        ensures
            combines(r, Op::Power, self, rhs),
    {
        Expr::Sym(self).pow(rhs)
    }
}

} // verus!
