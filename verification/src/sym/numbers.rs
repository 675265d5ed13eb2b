//! Numbers as operands: the conversions of the integer types into `Expr`,
//! and the operators with a number on the left.
//!
//! An integer is held in a `BigInt`, which only the `num` crate can build.
//! So the conversions say in their own `ensures` which integer they hold,
//! and leave `from_spec` unused.

use super::decimal::Decimal;
use super::expr::{Expr, Tree};
use super::impls::combine;
use super::integer::bigint_value;
use super::operand::{combines, Op, Operand};
use super::symbol::Symbol;
use num::BigInt;
use std::ops::{Add, Div, Mul, Sub};
use vstd::prelude::*;
use vstd::std_specs::convert::FromSpecImpl;
use vstd::std_specs::ops::{AddSpecImpl, DivSpecImpl, MulSpecImpl, SubSpecImpl};

verus! {

impl From<i8> for Expr {
    /// The integer `i`.
    fn from(i: i8) -> (e: Expr)
        ensures
            e matches Expr::Integer(b) && bigint_value(b) == i,
    {
        Expr::Integer(BigInt::from(i))
    }
}

impl FromSpecImpl<i8> for Expr {
    open spec fn obeys_from_spec() -> bool {
        false
    }

    open spec fn from_spec(i: i8) -> Expr {
        Expr::Undefined
    }
}

impl Operand for i8 {
    open spec fn reading(self, names: Map<Symbol, Seq<char>>) -> Tree {
        Tree::Integer(self as int)
    }

    open spec fn known_in(self, names: Map<Symbol, Seq<char>>) -> bool {
        true
    }

    fn into_expr(self) -> (e: Expr) {
        Expr::Integer(BigInt::from(self))
    }
}

impl From<i16> for Expr {
    /// The integer `i`.
    fn from(i: i16) -> (e: Expr)
        ensures
            e matches Expr::Integer(b) && bigint_value(b) == i,
    {
        Expr::Integer(BigInt::from(i))
    }
}

impl FromSpecImpl<i16> for Expr {
    open spec fn obeys_from_spec() -> bool {
        false
    }

    open spec fn from_spec(i: i16) -> Expr {
        Expr::Undefined
    }
}

impl Operand for i16 {
    open spec fn reading(self, names: Map<Symbol, Seq<char>>) -> Tree {
        Tree::Integer(self as int)
    }

    open spec fn known_in(self, names: Map<Symbol, Seq<char>>) -> bool {
        true
    }

    fn into_expr(self) -> (e: Expr) {
        Expr::Integer(BigInt::from(self))
    }
}

impl From<i32> for Expr {
    /// The integer `i`.
    fn from(i: i32) -> (e: Expr)
        ensures
            e matches Expr::Integer(b) && bigint_value(b) == i,
    {
        Expr::Integer(BigInt::from(i))
    }
}

impl FromSpecImpl<i32> for Expr {
    open spec fn obeys_from_spec() -> bool {
        false
    }

    open spec fn from_spec(i: i32) -> Expr {
        Expr::Undefined
    }
}

impl Operand for i32 {
    open spec fn reading(self, names: Map<Symbol, Seq<char>>) -> Tree {
        Tree::Integer(self as int)
    }

    open spec fn known_in(self, names: Map<Symbol, Seq<char>>) -> bool {
        true
    }

    fn into_expr(self) -> (e: Expr) {
        Expr::Integer(BigInt::from(self))
    }
}

impl From<i64> for Expr {
    /// The integer `i`.
    fn from(i: i64) -> (e: Expr)
        ensures
            e matches Expr::Integer(b) && bigint_value(b) == i,
    {
        Expr::Integer(BigInt::from(i))
    }
}

impl FromSpecImpl<i64> for Expr {
    open spec fn obeys_from_spec() -> bool {
        false
    }

    open spec fn from_spec(i: i64) -> Expr {
        Expr::Undefined
    }
}

impl Operand for i64 {
    open spec fn reading(self, names: Map<Symbol, Seq<char>>) -> Tree {
        Tree::Integer(self as int)
    }

    open spec fn known_in(self, names: Map<Symbol, Seq<char>>) -> bool {
        true
    }

    fn into_expr(self) -> (e: Expr) {
        Expr::Integer(BigInt::from(self))
    }
}

impl From<isize> for Expr {
    /// The integer `i`.
    fn from(i: isize) -> (e: Expr)
        ensures
            e matches Expr::Integer(b) && bigint_value(b) == i,
    {
        Expr::Integer(BigInt::from(i))
    }
}

impl FromSpecImpl<isize> for Expr {
    open spec fn obeys_from_spec() -> bool {
        false
    }

    open spec fn from_spec(i: isize) -> Expr {
        Expr::Undefined
    }
}

impl Operand for isize {
    open spec fn reading(self, names: Map<Symbol, Seq<char>>) -> Tree {
        Tree::Integer(self as int)
    }

    open spec fn known_in(self, names: Map<Symbol, Seq<char>>) -> bool {
        true
    }

    fn into_expr(self) -> (e: Expr) {
        Expr::Integer(BigInt::from(self))
    }
}

impl From<u8> for Expr {
    /// The integer `i`.
    fn from(i: u8) -> (e: Expr)
        ensures
            e matches Expr::Integer(b) && bigint_value(b) == i,
    {
        Expr::Integer(BigInt::from(i))
    }
}

impl FromSpecImpl<u8> for Expr {
    open spec fn obeys_from_spec() -> bool {
        false
    }

    open spec fn from_spec(i: u8) -> Expr {
        Expr::Undefined
    }
}

impl Operand for u8 {
    open spec fn reading(self, names: Map<Symbol, Seq<char>>) -> Tree {
        Tree::Integer(self as int)
    }

    open spec fn known_in(self, names: Map<Symbol, Seq<char>>) -> bool {
        true
    }

    fn into_expr(self) -> (e: Expr) {
        Expr::Integer(BigInt::from(self))
    }
}

impl From<u16> for Expr {
    /// The integer `i`.
    fn from(i: u16) -> (e: Expr)
        ensures
            e matches Expr::Integer(b) && bigint_value(b) == i,
    {
        Expr::Integer(BigInt::from(i))
    }
}

impl FromSpecImpl<u16> for Expr {
    open spec fn obeys_from_spec() -> bool {
        false
    }

    open spec fn from_spec(i: u16) -> Expr {
        Expr::Undefined
    }
}

impl Operand for u16 {
    open spec fn reading(self, names: Map<Symbol, Seq<char>>) -> Tree {
        Tree::Integer(self as int)
    }

    open spec fn known_in(self, names: Map<Symbol, Seq<char>>) -> bool {
        true
    }

    fn into_expr(self) -> (e: Expr) {
        Expr::Integer(BigInt::from(self))
    }
}

impl From<u32> for Expr {
    /// The integer `i`.
    fn from(i: u32) -> (e: Expr)
        ensures
            e matches Expr::Integer(b) && bigint_value(b) == i,
    {
        Expr::Integer(BigInt::from(i))
    }
}

impl FromSpecImpl<u32> for Expr {
    open spec fn obeys_from_spec() -> bool {
        false
    }

    open spec fn from_spec(i: u32) -> Expr {
        Expr::Undefined
    }
}

impl Operand for u32 {
    open spec fn reading(self, names: Map<Symbol, Seq<char>>) -> Tree {
        Tree::Integer(self as int)
    }

    open spec fn known_in(self, names: Map<Symbol, Seq<char>>) -> bool {
        true
    }

    fn into_expr(self) -> (e: Expr) {
        Expr::Integer(BigInt::from(self))
    }
}

impl From<u64> for Expr {
    /// The integer `i`.
    fn from(i: u64) -> (e: Expr)
        ensures
            e matches Expr::Integer(b) && bigint_value(b) == i,
    {
        Expr::Integer(BigInt::from(i))
    }
}

impl FromSpecImpl<u64> for Expr {
    open spec fn obeys_from_spec() -> bool {
        false
    }

    open spec fn from_spec(i: u64) -> Expr {
        Expr::Undefined
    }
}

impl Operand for u64 {
    open spec fn reading(self, names: Map<Symbol, Seq<char>>) -> Tree {
        Tree::Integer(self as int)
    }

    open spec fn known_in(self, names: Map<Symbol, Seq<char>>) -> bool {
        true
    }

    fn into_expr(self) -> (e: Expr) {
        Expr::Integer(BigInt::from(self))
    }
}

impl From<usize> for Expr {
    /// The integer `i`.
    fn from(i: usize) -> (e: Expr)
        ensures
            e matches Expr::Integer(b) && bigint_value(b) == i,
    {
        Expr::Integer(BigInt::from(i))
    }
}

impl FromSpecImpl<usize> for Expr {
    open spec fn obeys_from_spec() -> bool {
        false
    }

    open spec fn from_spec(i: usize) -> Expr {
        Expr::Undefined
    }
}

impl Operand for usize {
    open spec fn reading(self, names: Map<Symbol, Seq<char>>) -> Tree {
        Tree::Integer(self as int)
    }

    open spec fn known_in(self, names: Map<Symbol, Seq<char>>) -> bool {
        true
    }

    fn into_expr(self) -> (e: Expr) {
        Expr::Integer(BigInt::from(self))
    }
}

impl Add<Expr> for i32 {
    type Output = Expr;

    /// `self + rhs`.
    fn add(self, rhs: Expr) -> (r: Expr)
        ensures
            combines(r, Op::Plus, self, rhs),
    {
        combine(Op::Plus, self, rhs)
    }
}

impl AddSpecImpl<Expr> for i32 {
    open spec fn obeys_add_spec() -> bool {
        false
    }

    open spec fn add_req(self, rhs: Expr) -> bool {
        true
    }

    open spec fn add_spec(self, rhs: Expr) -> Expr {
        Expr::Undefined
    }
}

impl Sub<Expr> for i32 {
    type Output = Expr;

    /// `self - rhs`.
    fn sub(self, rhs: Expr) -> (r: Expr)
        ensures
            combines(r, Op::Minus, self, rhs),
    {
        combine(Op::Minus, self, rhs)
    }
}

impl SubSpecImpl<Expr> for i32 {
    open spec fn obeys_sub_spec() -> bool {
        false
    }

    open spec fn sub_req(self, rhs: Expr) -> bool {
        true
    }

    open spec fn sub_spec(self, rhs: Expr) -> Expr {
        Expr::Undefined
    }
}

impl Mul<Expr> for i32 {
    type Output = Expr;

    /// `self * rhs`.
    fn mul(self, rhs: Expr) -> (r: Expr)
        ensures
            combines(r, Op::Times, self, rhs),
    {
        combine(Op::Times, self, rhs)
    }
}

impl MulSpecImpl<Expr> for i32 {
    open spec fn obeys_mul_spec() -> bool {
        false
    }

    open spec fn mul_req(self, rhs: Expr) -> bool {
        true
    }

    open spec fn mul_spec(self, rhs: Expr) -> Expr {
        Expr::Undefined
    }
}

impl Div<Expr> for i32 {
    type Output = Expr;

    /// `self / rhs`.
    fn div(self, rhs: Expr) -> (r: Expr)
        ensures
            combines(r, Op::Over, self, rhs),
    {
        combine(Op::Over, self, rhs)
    }
}

impl DivSpecImpl<Expr> for i32 {
    open spec fn obeys_div_spec() -> bool {
        false
    }

    open spec fn div_req(self, rhs: Expr) -> bool {
        true
    }

    open spec fn div_spec(self, rhs: Expr) -> Expr {
        Expr::Undefined
    }
}

impl Add<Symbol> for i32 {
    type Output = Expr;

    /// `self + rhs`.
    fn add(self, rhs: Symbol) -> (r: Expr)
        ensures
            combines(r, Op::Plus, self, rhs),
    {
        combine(Op::Plus, self, rhs)
    }
}

impl AddSpecImpl<Symbol> for i32 {
    open spec fn obeys_add_spec() -> bool {
        false
    }

    open spec fn add_req(self, rhs: Symbol) -> bool {
        true
    }

    open spec fn add_spec(self, rhs: Symbol) -> Expr {
        Expr::Undefined
    }
}

impl Sub<Symbol> for i32 {
    type Output = Expr;

    /// `self - rhs`.
    fn sub(self, rhs: Symbol) -> (r: Expr)
        ensures
            combines(r, Op::Minus, self, rhs),
    {
        combine(Op::Minus, self, rhs)
    }
}

impl SubSpecImpl<Symbol> for i32 {
    open spec fn obeys_sub_spec() -> bool {
        false
    }

    open spec fn sub_req(self, rhs: Symbol) -> bool {
        true
    }

    open spec fn sub_spec(self, rhs: Symbol) -> Expr {
        Expr::Undefined
    }
}

impl Mul<Symbol> for i32 {
    type Output = Expr;

    /// `self * rhs`.
    fn mul(self, rhs: Symbol) -> (r: Expr)
        ensures
            combines(r, Op::Times, self, rhs),
    {
        combine(Op::Times, self, rhs)
    }
}

impl MulSpecImpl<Symbol> for i32 {
    open spec fn obeys_mul_spec() -> bool {
        false
    }

    open spec fn mul_req(self, rhs: Symbol) -> bool {
        true
    }

    open spec fn mul_spec(self, rhs: Symbol) -> Expr {
        Expr::Undefined
    }
}

impl Div<Symbol> for i32 {
    type Output = Expr;

    /// `self / rhs`.
    fn div(self, rhs: Symbol) -> (r: Expr)
        ensures
            combines(r, Op::Over, self, rhs),
    {
        combine(Op::Over, self, rhs)
    }
}

impl DivSpecImpl<Symbol> for i32 {
    open spec fn obeys_div_spec() -> bool {
        false
    }

    open spec fn div_req(self, rhs: Symbol) -> bool {
        true
    }

    open spec fn div_spec(self, rhs: Symbol) -> Expr {
        Expr::Undefined
    }
}

impl Add<Expr> for i64 {
    type Output = Expr;

    /// `self + rhs`.
    fn add(self, rhs: Expr) -> (r: Expr)
        ensures
            combines(r, Op::Plus, self, rhs),
    {
        combine(Op::Plus, self, rhs)
    }
}

impl AddSpecImpl<Expr> for i64 {
    open spec fn obeys_add_spec() -> bool {
        false
    }

    open spec fn add_req(self, rhs: Expr) -> bool {
        true
    }

    open spec fn add_spec(self, rhs: Expr) -> Expr {
        Expr::Undefined
    }
}

impl Sub<Expr> for i64 {
    type Output = Expr;

    /// `self - rhs`.
    fn sub(self, rhs: Expr) -> (r: Expr)
        ensures
            combines(r, Op::Minus, self, rhs),
    {
        combine(Op::Minus, self, rhs)
    }
}

impl SubSpecImpl<Expr> for i64 {
    open spec fn obeys_sub_spec() -> bool {
        false
    }

    open spec fn sub_req(self, rhs: Expr) -> bool {
        true
    }

    open spec fn sub_spec(self, rhs: Expr) -> Expr {
        Expr::Undefined
    }
}

impl Mul<Expr> for i64 {
    type Output = Expr;

    /// `self * rhs`.
    fn mul(self, rhs: Expr) -> (r: Expr)
        ensures
            combines(r, Op::Times, self, rhs),
    {
        combine(Op::Times, self, rhs)
    }
}

impl MulSpecImpl<Expr> for i64 {
    open spec fn obeys_mul_spec() -> bool {
        false
    }

    open spec fn mul_req(self, rhs: Expr) -> bool {
        true
    }

    open spec fn mul_spec(self, rhs: Expr) -> Expr {
        Expr::Undefined
    }
}

impl Div<Expr> for i64 {
    type Output = Expr;

    /// `self / rhs`.
    fn div(self, rhs: Expr) -> (r: Expr)
        ensures
            combines(r, Op::Over, self, rhs),
    {
        combine(Op::Over, self, rhs)
    }
}

impl DivSpecImpl<Expr> for i64 {
    open spec fn obeys_div_spec() -> bool {
        false
    }

    open spec fn div_req(self, rhs: Expr) -> bool {
        true
    }

    open spec fn div_spec(self, rhs: Expr) -> Expr {
        Expr::Undefined
    }
}

impl Add<Symbol> for i64 {
    type Output = Expr;

    /// `self + rhs`.
    fn add(self, rhs: Symbol) -> (r: Expr)
        ensures
            combines(r, Op::Plus, self, rhs),
    {
        combine(Op::Plus, self, rhs)
    }
}

impl AddSpecImpl<Symbol> for i64 {
    open spec fn obeys_add_spec() -> bool {
        false
    }

    open spec fn add_req(self, rhs: Symbol) -> bool {
        true
    }

    open spec fn add_spec(self, rhs: Symbol) -> Expr {
        Expr::Undefined
    }
}

impl Sub<Symbol> for i64 {
    type Output = Expr;

    /// `self - rhs`.
    fn sub(self, rhs: Symbol) -> (r: Expr)
        ensures
            combines(r, Op::Minus, self, rhs),
    {
        combine(Op::Minus, self, rhs)
    }
}

impl SubSpecImpl<Symbol> for i64 {
    open spec fn obeys_sub_spec() -> bool {
        false
    }

    open spec fn sub_req(self, rhs: Symbol) -> bool {
        true
    }

    open spec fn sub_spec(self, rhs: Symbol) -> Expr {
        Expr::Undefined
    }
}

impl Mul<Symbol> for i64 {
    type Output = Expr;

    /// `self * rhs`.
    fn mul(self, rhs: Symbol) -> (r: Expr)
        ensures
            combines(r, Op::Times, self, rhs),
    {
        combine(Op::Times, self, rhs)
    }
}

impl MulSpecImpl<Symbol> for i64 {
    open spec fn obeys_mul_spec() -> bool {
        false
    }

    open spec fn mul_req(self, rhs: Symbol) -> bool {
        true
    }

    open spec fn mul_spec(self, rhs: Symbol) -> Expr {
        Expr::Undefined
    }
}

impl Div<Symbol> for i64 {
    type Output = Expr;

    /// `self / rhs`.
    fn div(self, rhs: Symbol) -> (r: Expr)
        ensures
            combines(r, Op::Over, self, rhs),
    {
        combine(Op::Over, self, rhs)
    }
}

impl DivSpecImpl<Symbol> for i64 {
    open spec fn obeys_div_spec() -> bool {
        false
    }

    open spec fn div_req(self, rhs: Symbol) -> bool {
        true
    }

    open spec fn div_spec(self, rhs: Symbol) -> Expr {
        Expr::Undefined
    }
}

impl Add<Expr> for u32 {
    type Output = Expr;

    /// `self + rhs`.
    fn add(self, rhs: Expr) -> (r: Expr)
        ensures
            combines(r, Op::Plus, self, rhs),
    {
        combine(Op::Plus, self, rhs)
    }
}

impl AddSpecImpl<Expr> for u32 {
    open spec fn obeys_add_spec() -> bool {
        false
    }

    open spec fn add_req(self, rhs: Expr) -> bool {
        true
    }

    open spec fn add_spec(self, rhs: Expr) -> Expr {
        Expr::Undefined
    }
}

impl Sub<Expr> for u32 {
    type Output = Expr;

    /// `self - rhs`.
    fn sub(self, rhs: Expr) -> (r: Expr)
        ensures
            combines(r, Op::Minus, self, rhs),
    {
        combine(Op::Minus, self, rhs)
    }
}

impl SubSpecImpl<Expr> for u32 {
    open spec fn obeys_sub_spec() -> bool {
        false
    }

    open spec fn sub_req(self, rhs: Expr) -> bool {
        true
    }

    open spec fn sub_spec(self, rhs: Expr) -> Expr {
        Expr::Undefined
    }
}

impl Mul<Expr> for u32 {
    type Output = Expr;

    /// `self * rhs`.
    fn mul(self, rhs: Expr) -> (r: Expr)
        ensures
            combines(r, Op::Times, self, rhs),
    {
        combine(Op::Times, self, rhs)
    }
}

impl MulSpecImpl<Expr> for u32 {
    open spec fn obeys_mul_spec() -> bool {
        false
    }

    open spec fn mul_req(self, rhs: Expr) -> bool {
        true
    }

    open spec fn mul_spec(self, rhs: Expr) -> Expr {
        Expr::Undefined
    }
}

impl Div<Expr> for u32 {
    type Output = Expr;

    /// `self / rhs`.
    fn div(self, rhs: Expr) -> (r: Expr)
        ensures
            combines(r, Op::Over, self, rhs),
    {
        combine(Op::Over, self, rhs)
    }
}

impl DivSpecImpl<Expr> for u32 {
    open spec fn obeys_div_spec() -> bool {
        false
    }

    open spec fn div_req(self, rhs: Expr) -> bool {
        true
    }

    open spec fn div_spec(self, rhs: Expr) -> Expr {
        Expr::Undefined
    }
}

impl Add<Symbol> for u32 {
    type Output = Expr;

    /// `self + rhs`.
    fn add(self, rhs: Symbol) -> (r: Expr)
        ensures
            combines(r, Op::Plus, self, rhs),
    {
        combine(Op::Plus, self, rhs)
    }
}

impl AddSpecImpl<Symbol> for u32 {
    open spec fn obeys_add_spec() -> bool {
        false
    }

    open spec fn add_req(self, rhs: Symbol) -> bool {
        true
    }

    open spec fn add_spec(self, rhs: Symbol) -> Expr {
        Expr::Undefined
    }
}

impl Sub<Symbol> for u32 {
    type Output = Expr;

    /// `self - rhs`.
    fn sub(self, rhs: Symbol) -> (r: Expr)
        ensures
            combines(r, Op::Minus, self, rhs),
    {
        combine(Op::Minus, self, rhs)
    }
}

impl SubSpecImpl<Symbol> for u32 {
    open spec fn obeys_sub_spec() -> bool {
        false
    }

    open spec fn sub_req(self, rhs: Symbol) -> bool {
        true
    }

    open spec fn sub_spec(self, rhs: Symbol) -> Expr {
        Expr::Undefined
    }
}

impl Mul<Symbol> for u32 {
    type Output = Expr;

    /// `self * rhs`.
    fn mul(self, rhs: Symbol) -> (r: Expr)
        ensures
            combines(r, Op::Times, self, rhs),
    {
        combine(Op::Times, self, rhs)
    }
}

impl MulSpecImpl<Symbol> for u32 {
    open spec fn obeys_mul_spec() -> bool {
        false
    }

    open spec fn mul_req(self, rhs: Symbol) -> bool {
        true
    }

    open spec fn mul_spec(self, rhs: Symbol) -> Expr {
        Expr::Undefined
    }
}

impl Div<Symbol> for u32 {
    type Output = Expr;

    /// `self / rhs`.
    fn div(self, rhs: Symbol) -> (r: Expr)
        ensures
            combines(r, Op::Over, self, rhs),
    {
        combine(Op::Over, self, rhs)
    }
}

impl DivSpecImpl<Symbol> for u32 {
    open spec fn obeys_div_spec() -> bool {
        false
    }

    open spec fn div_req(self, rhs: Symbol) -> bool {
        true
    }

    open spec fn div_spec(self, rhs: Symbol) -> Expr {
        Expr::Undefined
    }
}

impl Add<Expr> for u64 {
    type Output = Expr;

    /// `self + rhs`.
    fn add(self, rhs: Expr) -> (r: Expr)
        ensures
            combines(r, Op::Plus, self, rhs),
    {
        combine(Op::Plus, self, rhs)
    }
}

impl AddSpecImpl<Expr> for u64 {
    open spec fn obeys_add_spec() -> bool {
        false
    }

    open spec fn add_req(self, rhs: Expr) -> bool {
        true
    }

    open spec fn add_spec(self, rhs: Expr) -> Expr {
        Expr::Undefined
    }
}

impl Sub<Expr> for u64 {
    type Output = Expr;

    /// `self - rhs`.
    fn sub(self, rhs: Expr) -> (r: Expr)
        ensures
            combines(r, Op::Minus, self, rhs),
    {
        combine(Op::Minus, self, rhs)
    }
}

impl SubSpecImpl<Expr> for u64 {
    open spec fn obeys_sub_spec() -> bool {
        false
    }

    open spec fn sub_req(self, rhs: Expr) -> bool {
        true
    }

    open spec fn sub_spec(self, rhs: Expr) -> Expr {
        Expr::Undefined
    }
}

impl Mul<Expr> for u64 {
    type Output = Expr;

    /// `self * rhs`.
    fn mul(self, rhs: Expr) -> (r: Expr)
        ensures
            combines(r, Op::Times, self, rhs),
    {
        combine(Op::Times, self, rhs)
    }
}

impl MulSpecImpl<Expr> for u64 {
    open spec fn obeys_mul_spec() -> bool {
        false
    }

    open spec fn mul_req(self, rhs: Expr) -> bool {
        true
    }

    open spec fn mul_spec(self, rhs: Expr) -> Expr {
        Expr::Undefined
    }
}

impl Div<Expr> for u64 {
    type Output = Expr;

    /// `self / rhs`.
    fn div(self, rhs: Expr) -> (r: Expr)
        ensures
            combines(r, Op::Over, self, rhs),
    {
        combine(Op::Over, self, rhs)
    }
}

impl DivSpecImpl<Expr> for u64 {
    open spec fn obeys_div_spec() -> bool {
        false
    }

    open spec fn div_req(self, rhs: Expr) -> bool {
        true
    }

    open spec fn div_spec(self, rhs: Expr) -> Expr {
        Expr::Undefined
    }
}

impl Add<Symbol> for u64 {
    type Output = Expr;

    /// `self + rhs`.
    fn add(self, rhs: Symbol) -> (r: Expr)
        ensures
            combines(r, Op::Plus, self, rhs),
    {
        combine(Op::Plus, self, rhs)
    }
}

impl AddSpecImpl<Symbol> for u64 {
    open spec fn obeys_add_spec() -> bool {
        false
    }

    open spec fn add_req(self, rhs: Symbol) -> bool {
        true
    }

    open spec fn add_spec(self, rhs: Symbol) -> Expr {
        Expr::Undefined
    }
}

impl Sub<Symbol> for u64 {
    type Output = Expr;

    /// `self - rhs`.
    fn sub(self, rhs: Symbol) -> (r: Expr)
        ensures
            combines(r, Op::Minus, self, rhs),
    {
        combine(Op::Minus, self, rhs)
    }
}

impl SubSpecImpl<Symbol> for u64 {
    open spec fn obeys_sub_spec() -> bool {
        false
    }

    open spec fn sub_req(self, rhs: Symbol) -> bool {
        true
    }

    open spec fn sub_spec(self, rhs: Symbol) -> Expr {
        Expr::Undefined
    }
}

impl Mul<Symbol> for u64 {
    type Output = Expr;

    /// `self * rhs`.
    fn mul(self, rhs: Symbol) -> (r: Expr)
        ensures
            combines(r, Op::Times, self, rhs),
    {
        combine(Op::Times, self, rhs)
    }
}

impl MulSpecImpl<Symbol> for u64 {
    open spec fn obeys_mul_spec() -> bool {
        false
    }

    open spec fn mul_req(self, rhs: Symbol) -> bool {
        true
    }

    open spec fn mul_spec(self, rhs: Symbol) -> Expr {
        Expr::Undefined
    }
}

impl Div<Symbol> for u64 {
    type Output = Expr;

    /// `self / rhs`.
    fn div(self, rhs: Symbol) -> (r: Expr)
        ensures
            combines(r, Op::Over, self, rhs),
    {
        combine(Op::Over, self, rhs)
    }
}

impl DivSpecImpl<Symbol> for u64 {
    open spec fn obeys_div_spec() -> bool {
        false
    }

    open spec fn div_req(self, rhs: Symbol) -> bool {
        true
    }

    open spec fn div_spec(self, rhs: Symbol) -> Expr {
        Expr::Undefined
    }
}

impl Add<Expr> for BigInt {
    type Output = Expr;

    /// `self + rhs`.
    fn add(self, rhs: Expr) -> (r: Expr)
        ensures
            combines(r, Op::Plus, self, rhs),
    {
        combine(Op::Plus, self, rhs)
    }
}

impl AddSpecImpl<Expr> for BigInt {
    open spec fn obeys_add_spec() -> bool {
        false
    }

    open spec fn add_req(self, rhs: Expr) -> bool {
        true
    }

    open spec fn add_spec(self, rhs: Expr) -> Expr {
        Expr::Undefined
    }
}

impl Sub<Expr> for BigInt {
    type Output = Expr;

    /// `self - rhs`.
    fn sub(self, rhs: Expr) -> (r: Expr)
        ensures
            combines(r, Op::Minus, self, rhs),
    {
        combine(Op::Minus, self, rhs)
    }
}

impl SubSpecImpl<Expr> for BigInt {
    open spec fn obeys_sub_spec() -> bool {
        false
    }

    open spec fn sub_req(self, rhs: Expr) -> bool {
        true
    }

    open spec fn sub_spec(self, rhs: Expr) -> Expr {
        Expr::Undefined
    }
}

impl Mul<Expr> for BigInt {
    type Output = Expr;

    /// `self * rhs`.
    fn mul(self, rhs: Expr) -> (r: Expr)
        ensures
            combines(r, Op::Times, self, rhs),
    {
        combine(Op::Times, self, rhs)
    }
}

impl MulSpecImpl<Expr> for BigInt {
    open spec fn obeys_mul_spec() -> bool {
        false
    }

    open spec fn mul_req(self, rhs: Expr) -> bool {
        true
    }

    open spec fn mul_spec(self, rhs: Expr) -> Expr {
        Expr::Undefined
    }
}

impl Div<Expr> for BigInt {
    type Output = Expr;

    /// `self / rhs`.
    fn div(self, rhs: Expr) -> (r: Expr)
        ensures
            combines(r, Op::Over, self, rhs),
    {
        combine(Op::Over, self, rhs)
    }
}

impl DivSpecImpl<Expr> for BigInt {
    open spec fn obeys_div_spec() -> bool {
        false
    }

    open spec fn div_req(self, rhs: Expr) -> bool {
        true
    }

    open spec fn div_spec(self, rhs: Expr) -> Expr {
        Expr::Undefined
    }
}

impl Add<Symbol> for BigInt {
    type Output = Expr;

    /// `self + rhs`.
    fn add(self, rhs: Symbol) -> (r: Expr)
        ensures
            combines(r, Op::Plus, self, rhs),
    {
        combine(Op::Plus, self, rhs)
    }
}

impl AddSpecImpl<Symbol> for BigInt {
    open spec fn obeys_add_spec() -> bool {
        false
    }

    open spec fn add_req(self, rhs: Symbol) -> bool {
        true
    }

    open spec fn add_spec(self, rhs: Symbol) -> Expr {
        Expr::Undefined
    }
}

impl Sub<Symbol> for BigInt {
    type Output = Expr;

    /// `self - rhs`.
    fn sub(self, rhs: Symbol) -> (r: Expr)
        ensures
            combines(r, Op::Minus, self, rhs),
    {
        combine(Op::Minus, self, rhs)
    }
}

impl SubSpecImpl<Symbol> for BigInt {
    open spec fn obeys_sub_spec() -> bool {
        false
    }

    open spec fn sub_req(self, rhs: Symbol) -> bool {
        true
    }

    open spec fn sub_spec(self, rhs: Symbol) -> Expr {
        Expr::Undefined
    }
}

impl Mul<Symbol> for BigInt {
    type Output = Expr;

    /// `self * rhs`.
    fn mul(self, rhs: Symbol) -> (r: Expr)
        ensures
            combines(r, Op::Times, self, rhs),
    {
        combine(Op::Times, self, rhs)
    }
}

impl MulSpecImpl<Symbol> for BigInt {
    open spec fn obeys_mul_spec() -> bool {
        false
    }

    open spec fn mul_req(self, rhs: Symbol) -> bool {
        true
    }

    open spec fn mul_spec(self, rhs: Symbol) -> Expr {
        Expr::Undefined
    }
}

impl Div<Symbol> for BigInt {
    type Output = Expr;

    /// `self / rhs`.
    fn div(self, rhs: Symbol) -> (r: Expr)
        ensures
            combines(r, Op::Over, self, rhs),
    {
        combine(Op::Over, self, rhs)
    }
}

impl DivSpecImpl<Symbol> for BigInt {
    open spec fn obeys_div_spec() -> bool {
        false
    }

    open spec fn div_req(self, rhs: Symbol) -> bool {
        true
    }

    open spec fn div_spec(self, rhs: Symbol) -> Expr {
        Expr::Undefined
    }
}

impl Add<Expr> for Decimal {
    type Output = Expr;

    /// `self + rhs`.
    fn add(self, rhs: Expr) -> (r: Expr)
        ensures
            combines(r, Op::Plus, self, rhs),
    {
        combine(Op::Plus, self, rhs)
    }
}

impl AddSpecImpl<Expr> for Decimal {
    open spec fn obeys_add_spec() -> bool {
        false
    }

    open spec fn add_req(self, rhs: Expr) -> bool {
        true
    }

    open spec fn add_spec(self, rhs: Expr) -> Expr {
        Expr::Undefined
    }
}

impl Sub<Expr> for Decimal {
    type Output = Expr;

    /// `self - rhs`.
    fn sub(self, rhs: Expr) -> (r: Expr)
        ensures
            combines(r, Op::Minus, self, rhs),
    {
        combine(Op::Minus, self, rhs)
    }
}

impl SubSpecImpl<Expr> for Decimal {
    open spec fn obeys_sub_spec() -> bool {
        false
    }

    open spec fn sub_req(self, rhs: Expr) -> bool {
        true
    }

    open spec fn sub_spec(self, rhs: Expr) -> Expr {
        Expr::Undefined
    }
}

impl Mul<Expr> for Decimal {
    type Output = Expr;

    /// `self * rhs`.
    fn mul(self, rhs: Expr) -> (r: Expr)
        ensures
            combines(r, Op::Times, self, rhs),
    {
        combine(Op::Times, self, rhs)
    }
}

impl MulSpecImpl<Expr> for Decimal {
    open spec fn obeys_mul_spec() -> bool {
        false
    }

    open spec fn mul_req(self, rhs: Expr) -> bool {
        true
    }

    open spec fn mul_spec(self, rhs: Expr) -> Expr {
        Expr::Undefined
    }
}

impl Div<Expr> for Decimal {
    type Output = Expr;

    /// `self / rhs`.
    fn div(self, rhs: Expr) -> (r: Expr)
        ensures
            combines(r, Op::Over, self, rhs),
    {
        combine(Op::Over, self, rhs)
    }
}

impl DivSpecImpl<Expr> for Decimal {
    open spec fn obeys_div_spec() -> bool {
        false
    }

    open spec fn div_req(self, rhs: Expr) -> bool {
        true
    }

    open spec fn div_spec(self, rhs: Expr) -> Expr {
        Expr::Undefined
    }
}

impl Add<Symbol> for Decimal {
    type Output = Expr;

    /// `self + rhs`.
    fn add(self, rhs: Symbol) -> (r: Expr)
        ensures
            combines(r, Op::Plus, self, rhs),
    {
        combine(Op::Plus, self, rhs)
    }
}

impl AddSpecImpl<Symbol> for Decimal {
    open spec fn obeys_add_spec() -> bool {
        false
    }

    open spec fn add_req(self, rhs: Symbol) -> bool {
        true
    }

    open spec fn add_spec(self, rhs: Symbol) -> Expr {
        Expr::Undefined
    }
}

impl Sub<Symbol> for Decimal {
    type Output = Expr;

    /// `self - rhs`.
    fn sub(self, rhs: Symbol) -> (r: Expr)
        ensures
            combines(r, Op::Minus, self, rhs),
    {
        combine(Op::Minus, self, rhs)
    }
}

impl SubSpecImpl<Symbol> for Decimal {
    open spec fn obeys_sub_spec() -> bool {
        false
    }

    open spec fn sub_req(self, rhs: Symbol) -> bool {
        true
    }

    open spec fn sub_spec(self, rhs: Symbol) -> Expr {
        Expr::Undefined
    }
}

impl Mul<Symbol> for Decimal {
    type Output = Expr;

    /// `self * rhs`.
    fn mul(self, rhs: Symbol) -> (r: Expr)
        ensures
            combines(r, Op::Times, self, rhs),
    {
        combine(Op::Times, self, rhs)
    }
}

impl MulSpecImpl<Symbol> for Decimal {
    open spec fn obeys_mul_spec() -> bool {
        false
    }

    open spec fn mul_req(self, rhs: Symbol) -> bool {
        true
    }

    open spec fn mul_spec(self, rhs: Symbol) -> Expr {
        Expr::Undefined
    }
}

impl Div<Symbol> for Decimal {
    type Output = Expr;

    /// `self / rhs`.
    fn div(self, rhs: Symbol) -> (r: Expr)
        ensures
            combines(r, Op::Over, self, rhs),
    {
        combine(Op::Over, self, rhs)
    }
}

impl DivSpecImpl<Symbol> for Decimal {
    open spec fn obeys_div_spec() -> bool {
        false
    }

    open spec fn div_req(self, rhs: Symbol) -> bool {
        true
    }

    open spec fn div_spec(self, rhs: Symbol) -> Expr {
        Expr::Undefined
    }
}

impl<'a> Add<Expr> for &'a BigInt {
    type Output = Expr;

    /// `self + rhs`.
    fn add(self, rhs: Expr) -> (r: Expr)
        ensures
            combines(r, Op::Plus, self, rhs),
    {
        combine(Op::Plus, self, rhs)
    }
}

impl<'a> AddSpecImpl<Expr> for &'a BigInt {
    open spec fn obeys_add_spec() -> bool {
        false
    }

    open spec fn add_req(self, rhs: Expr) -> bool {
        true
    }

    open spec fn add_spec(self, rhs: Expr) -> Expr {
        Expr::Undefined
    }
}

impl<'a> Sub<Expr> for &'a BigInt {
    type Output = Expr;

    /// `self - rhs`.
    fn sub(self, rhs: Expr) -> (r: Expr)
        ensures
            combines(r, Op::Minus, self, rhs),
    {
        combine(Op::Minus, self, rhs)
    }
}

impl<'a> SubSpecImpl<Expr> for &'a BigInt {
    open spec fn obeys_sub_spec() -> bool {
        false
    }

    open spec fn sub_req(self, rhs: Expr) -> bool {
        true
    }

    open spec fn sub_spec(self, rhs: Expr) -> Expr {
        Expr::Undefined
    }
}

impl<'a> Mul<Expr> for &'a BigInt {
    type Output = Expr;

    /// `self * rhs`.
    fn mul(self, rhs: Expr) -> (r: Expr)
        ensures
            combines(r, Op::Times, self, rhs),
    {
        combine(Op::Times, self, rhs)
    }
}

impl<'a> MulSpecImpl<Expr> for &'a BigInt {
    open spec fn obeys_mul_spec() -> bool {
        false
    }

    open spec fn mul_req(self, rhs: Expr) -> bool {
        true
    }

    open spec fn mul_spec(self, rhs: Expr) -> Expr {
        Expr::Undefined
    }
}

impl<'a> Div<Expr> for &'a BigInt {
    type Output = Expr;

    /// `self / rhs`.
    fn div(self, rhs: Expr) -> (r: Expr)
        ensures
            combines(r, Op::Over, self, rhs),
    {
        combine(Op::Over, self, rhs)
    }
}

impl<'a> DivSpecImpl<Expr> for &'a BigInt {
    open spec fn obeys_div_spec() -> bool {
        false
    }

    open spec fn div_req(self, rhs: Expr) -> bool {
        true
    }

    open spec fn div_spec(self, rhs: Expr) -> Expr {
        Expr::Undefined
    }
}

impl<'a> Add<Symbol> for &'a BigInt {
    type Output = Expr;

    /// `self + rhs`.
    fn add(self, rhs: Symbol) -> (r: Expr)
        ensures
            combines(r, Op::Plus, self, rhs),
    {
        combine(Op::Plus, self, rhs)
    }
}

impl<'a> AddSpecImpl<Symbol> for &'a BigInt {
    open spec fn obeys_add_spec() -> bool {
        false
    }

    open spec fn add_req(self, rhs: Symbol) -> bool {
        true
    }

    open spec fn add_spec(self, rhs: Symbol) -> Expr {
        Expr::Undefined
    }
}

impl<'a> Sub<Symbol> for &'a BigInt {
    type Output = Expr;

    /// `self - rhs`.
    fn sub(self, rhs: Symbol) -> (r: Expr)
        ensures
            combines(r, Op::Minus, self, rhs),
    {
        combine(Op::Minus, self, rhs)
    }
}

impl<'a> SubSpecImpl<Symbol> for &'a BigInt {
    open spec fn obeys_sub_spec() -> bool {
        false
    }

    open spec fn sub_req(self, rhs: Symbol) -> bool {
        true
    }

    open spec fn sub_spec(self, rhs: Symbol) -> Expr {
        Expr::Undefined
    }
}

impl<'a> Mul<Symbol> for &'a BigInt {
    type Output = Expr;

    /// `self * rhs`.
    fn mul(self, rhs: Symbol) -> (r: Expr)
        ensures
            combines(r, Op::Times, self, rhs),
    {
        combine(Op::Times, self, rhs)
    }
}

impl<'a> MulSpecImpl<Symbol> for &'a BigInt {
    open spec fn obeys_mul_spec() -> bool {
        false
    }

    open spec fn mul_req(self, rhs: Symbol) -> bool {
        true
    }

    open spec fn mul_spec(self, rhs: Symbol) -> Expr {
        Expr::Undefined
    }
}

impl<'a> Div<Symbol> for &'a BigInt {
    type Output = Expr;

    /// `self / rhs`.
    fn div(self, rhs: Symbol) -> (r: Expr)
        ensures
            combines(r, Op::Over, self, rhs),
    {
        combine(Op::Over, self, rhs)
    }
}

impl<'a> DivSpecImpl<Symbol> for &'a BigInt {
    open spec fn obeys_div_spec() -> bool {
        false
    }

    open spec fn div_req(self, rhs: Symbol) -> bool {
        true
    }

    open spec fn div_spec(self, rhs: Symbol) -> Expr {
        Expr::Undefined
    }
}

} // verus!
