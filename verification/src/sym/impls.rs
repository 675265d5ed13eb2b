//! The operators `+`, `-`, `*`, `/` and unary `-` on expressions, symbols
//! and numbers, and the conversions into `Expr`.
//!
//! Each operator converts its operands by [`Operand::into_expr`] and hands
//! them to one combinator of `Expr`; see [`combine`].

use super::decimal::Decimal;
use super::expr::{Expr, Tree};
use super::integer::bigint_value;
use super::operand::{combines, negates, Op, Operand};
use super::symbol::Symbol;
use num::BigInt;
use std::ops::{Add, Div, Mul, Neg, Sub};
use vstd::prelude::*;
use vstd::std_specs::convert::FromSpecImpl;
use vstd::std_specs::ops::{AddSpecImpl, DivSpecImpl, MulSpecImpl, NegSpecImpl, SubSpecImpl};

verus! {

/// `lhs op rhs`, for any two operands.
pub fn combine<L: Operand, R: Operand>(op: Op, lhs: L, rhs: R) -> (r: Expr)
    ensures
        combines(r, op, lhs, rhs),
{
    let left = lhs.into_expr();
    let right = rhs.into_expr();
    let r = match op {
        Op::Plus => left.plus(right),
        Op::Minus => left.minus(right),
        Op::Times => left.times(right),
        Op::Over => left.over(right),
        Op::Power => left.pow(right),
    };
    assert forall|names: Map<Symbol, Seq<char>>|
        #![trigger r.tree(names)]
        #![trigger r.bound_in(names)]
        r.tree(names) == op.apply(lhs.reading(names), rhs.reading(names)) && r.bound_in(names) == (
        lhs.known_in(names) && rhs.known_in(names)) by {
        assert(left.tree(names) == lhs.reading(names));
        assert(right.tree(names) == rhs.reading(names));
        assert(left.bound_in(names) == lhs.known_in(names));
        assert(right.bound_in(names) == rhs.known_in(names));
    }
    r
}

impl From<Symbol> for Expr {
    fn from(s: Symbol) -> (e: Expr) {
        Expr::Sym(s)
    }
}

impl FromSpecImpl<Symbol> for Expr {
    open spec fn obeys_from_spec() -> bool {
        true
    }

    open spec fn from_spec(s: Symbol) -> Expr {
        Expr::Sym(s)
    }
}

impl From<BigInt> for Expr {
    fn from(i: BigInt) -> (e: Expr) {
        Expr::Integer(i)
    }
}

impl FromSpecImpl<BigInt> for Expr {
    open spec fn obeys_from_spec() -> bool {
        true
    }

    open spec fn from_spec(i: BigInt) -> Expr {
        Expr::Integer(i)
    }
}

impl From<Decimal> for Expr {
    fn from(d: Decimal) -> (e: Expr) {
        Expr::Approx(d)
    }
}

impl FromSpecImpl<Decimal> for Expr {
    open spec fn obeys_from_spec() -> bool {
        true
    }

    open spec fn from_spec(d: Decimal) -> Expr {
        Expr::Approx(d)
    }
}

impl<'a> From<&'a Expr> for Expr {
    /// A copy of `e`.
    fn from(e: &'a Expr) -> (r: Expr)
        ensures
            forall|names: Map<Symbol, Seq<char>>| #[trigger] r.reads_as(*e, names),
    {
        e.clone()
    }
}

impl<'a> FromSpecImpl<&'a Expr> for Expr {
    open spec fn obeys_from_spec() -> bool {
        false
    }

    open spec fn from_spec(e: &'a Expr) -> Expr {
        *e
    }
}

impl Operand for &BigInt {
    open spec fn reading(self, names: Map<Symbol, Seq<char>>) -> Tree {
        Tree::Integer(bigint_value(*self))
    }

    open spec fn known_in(self, names: Map<Symbol, Seq<char>>) -> bool {
        true
    }

    fn into_expr(self) -> (e: Expr) {
        Expr::Integer(self.clone())
    }
}

impl<T: Operand> Add<T> for Expr {
    type Output = Expr;

    /// `self + rhs`.
    fn add(self, rhs: T) -> (r: Expr)
        ensures
            combines(r, Op::Plus, self, rhs),
    {
        combine(Op::Plus, self, rhs)
    }
}

impl<T: Operand> AddSpecImpl<T> for Expr {
    open spec fn obeys_add_spec() -> bool {
        false
    }

    open spec fn add_req(self, rhs: T) -> bool {
        true
    }

    open spec fn add_spec(self, rhs: T) -> Expr {
        Expr::Undefined
    }
}

impl<T: Operand> Sub<T> for Expr {
    type Output = Expr;

    /// `self - rhs`.
    fn sub(self, rhs: T) -> (r: Expr)
        ensures
            combines(r, Op::Minus, self, rhs),
    {
        combine(Op::Minus, self, rhs)
    }
}

impl<T: Operand> SubSpecImpl<T> for Expr {
    open spec fn obeys_sub_spec() -> bool {
        false
    }

    open spec fn sub_req(self, rhs: T) -> bool {
        true
    }

    open spec fn sub_spec(self, rhs: T) -> Expr {
        Expr::Undefined
    }
}

impl<T: Operand> Mul<T> for Expr {
    type Output = Expr;

    /// `self * rhs`.
    fn mul(self, rhs: T) -> (r: Expr)
        ensures
            combines(r, Op::Times, self, rhs),
    {
        combine(Op::Times, self, rhs)
    }
}

impl<T: Operand> MulSpecImpl<T> for Expr {
    open spec fn obeys_mul_spec() -> bool {
        false
    }

    open spec fn mul_req(self, rhs: T) -> bool {
        true
    }

    open spec fn mul_spec(self, rhs: T) -> Expr {
        Expr::Undefined
    }
}

impl<T: Operand> Div<T> for Expr {
    type Output = Expr;

    /// `self / rhs`.
    fn div(self, rhs: T) -> (r: Expr)
        ensures
            combines(r, Op::Over, self, rhs),
    {
        combine(Op::Over, self, rhs)
    }
}

impl<T: Operand> DivSpecImpl<T> for Expr {
    open spec fn obeys_div_spec() -> bool {
        false
    }

    open spec fn div_req(self, rhs: T) -> bool {
        true
    }

    open spec fn div_spec(self, rhs: T) -> Expr {
        Expr::Undefined
    }
}

impl<'a, T: Operand> Add<T> for &'a Expr {
    type Output = Expr;

    /// `self + rhs`.
    fn add(self, rhs: T) -> (r: Expr)
        ensures
            combines(r, Op::Plus, self, rhs),
    {
        combine(Op::Plus, self, rhs)
    }
}

impl<'a, T: Operand> AddSpecImpl<T> for &'a Expr {
    open spec fn obeys_add_spec() -> bool {
        false
    }

    open spec fn add_req(self, rhs: T) -> bool {
        true
    }

    open spec fn add_spec(self, rhs: T) -> Expr {
        Expr::Undefined
    }
}

impl<'a, T: Operand> Sub<T> for &'a Expr {
    type Output = Expr;

    /// `self - rhs`.
    fn sub(self, rhs: T) -> (r: Expr)
        ensures
            combines(r, Op::Minus, self, rhs),
    {
        combine(Op::Minus, self, rhs)
    }
}

impl<'a, T: Operand> SubSpecImpl<T> for &'a Expr {
    open spec fn obeys_sub_spec() -> bool {
        false
    }

    open spec fn sub_req(self, rhs: T) -> bool {
        true
    }

    open spec fn sub_spec(self, rhs: T) -> Expr {
        Expr::Undefined
    }
}

impl<'a, T: Operand> Mul<T> for &'a Expr {
    type Output = Expr;

    /// `self * rhs`.
    fn mul(self, rhs: T) -> (r: Expr)
        ensures
            combines(r, Op::Times, self, rhs),
    {
        combine(Op::Times, self, rhs)
    }
}

impl<'a, T: Operand> MulSpecImpl<T> for &'a Expr {
    open spec fn obeys_mul_spec() -> bool {
        false
    }

    open spec fn mul_req(self, rhs: T) -> bool {
        true
    }

    open spec fn mul_spec(self, rhs: T) -> Expr {
        Expr::Undefined
    }
}

impl<'a, T: Operand> Div<T> for &'a Expr {
    type Output = Expr;

    /// `self / rhs`.
    fn div(self, rhs: T) -> (r: Expr)
        ensures
            combines(r, Op::Over, self, rhs),
    {
        combine(Op::Over, self, rhs)
    }
}

impl<'a, T: Operand> DivSpecImpl<T> for &'a Expr {
    open spec fn obeys_div_spec() -> bool {
        false
    }

    open spec fn div_req(self, rhs: T) -> bool {
        true
    }

    open spec fn div_spec(self, rhs: T) -> Expr {
        Expr::Undefined
    }
}

impl<T: Operand> Add<T> for Symbol {
    type Output = Expr;

    /// `self + rhs`.
    fn add(self, rhs: T) -> (r: Expr)
        ensures
            combines(r, Op::Plus, self, rhs),
    {
        combine(Op::Plus, self, rhs)
    }
}

impl<T: Operand> AddSpecImpl<T> for Symbol {
    open spec fn obeys_add_spec() -> bool {
        false
    }

    open spec fn add_req(self, rhs: T) -> bool {
        true
    }

    open spec fn add_spec(self, rhs: T) -> Expr {
        Expr::Undefined
    }
}

impl<T: Operand> Sub<T> for Symbol {
    type Output = Expr;

    /// `self - rhs`.
    fn sub(self, rhs: T) -> (r: Expr)
        ensures
            combines(r, Op::Minus, self, rhs),
    {
        combine(Op::Minus, self, rhs)
    }
}

impl<T: Operand> SubSpecImpl<T> for Symbol {
    open spec fn obeys_sub_spec() -> bool {
        false
    }

    open spec fn sub_req(self, rhs: T) -> bool {
        true
    }

    open spec fn sub_spec(self, rhs: T) -> Expr {
        Expr::Undefined
    }
}

impl<T: Operand> Mul<T> for Symbol {
    type Output = Expr;

    /// `self * rhs`.
    fn mul(self, rhs: T) -> (r: Expr)
        ensures
            combines(r, Op::Times, self, rhs),
    {
        combine(Op::Times, self, rhs)
    }
}

impl<T: Operand> MulSpecImpl<T> for Symbol {
    open spec fn obeys_mul_spec() -> bool {
        false
    }

    open spec fn mul_req(self, rhs: T) -> bool {
        true
    }

    open spec fn mul_spec(self, rhs: T) -> Expr {
        Expr::Undefined
    }
}

impl<T: Operand> Div<T> for Symbol {
    type Output = Expr;

    /// `self / rhs`.
    fn div(self, rhs: T) -> (r: Expr)
        ensures
            combines(r, Op::Over, self, rhs),
    {
        combine(Op::Over, self, rhs)
    }
}

impl<T: Operand> DivSpecImpl<T> for Symbol {
    open spec fn obeys_div_spec() -> bool {
        false
    }

    open spec fn div_req(self, rhs: T) -> bool {
        true
    }

    open spec fn div_spec(self, rhs: T) -> Expr {
        Expr::Undefined
    }
}

impl Neg for Expr {
    type Output = Expr;

    /// `-self`.
    fn neg(self) -> (r: Expr)
        ensures
            negates(r, self),
    {
        Expr::negative(self)
    }
}

impl NegSpecImpl for Expr {
    open spec fn obeys_neg_spec() -> bool {
        false
    }

    open spec fn neg_req(self) -> bool {
        true
    }

    open spec fn neg_spec(self) -> Expr {
        Expr::Undefined
    }
}

impl<'a> Neg for &'a Expr {
    type Output = Expr;

    /// `-self`.
    fn neg(self) -> (r: Expr)
        ensures
            negates(r, self),
    {
        Expr::negative(self)
    }
}

impl<'a> NegSpecImpl for &'a Expr {
    open spec fn obeys_neg_spec() -> bool {
        false
    }

    open spec fn neg_req(self) -> bool {
        true
    }

    open spec fn neg_spec(self) -> Expr {
        Expr::Undefined
    }
}

impl Neg for Symbol {
    type Output = Expr;

    /// `-self`.
    fn neg(self) -> (r: Expr)
        ensures
            negates(r, self),
    {
        Expr::negative(self)
    }
}

impl NegSpecImpl for Symbol {
    open spec fn obeys_neg_spec() -> bool {
        false
    }

    open spec fn neg_req(self) -> bool {
        true
    }

    open spec fn neg_spec(self) -> Expr {
        Expr::Undefined
    }
}

} // verus!
