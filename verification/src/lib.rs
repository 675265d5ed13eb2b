//! A symbolic computation library: expressions over integers, decimal
//! approximations and named symbols, a printer that writes them as infix
//! text, and a parser that reads such text.
//!
//! - [`sym`] holds the expressions, the table that interns the names of
//!   their symbols, the operators that build them and the printer.
//! - [`par`] holds the grammar and the parser.
//!
//! Symbols live in a [`sym::SymbolTable`] that the caller owns and hands to
//! whatever makes or prints symbols:
//!
//! ```
//! use symrs::par::parse_expr;
//! use symrs::sym::{Expr, Symbol, SymbolTable};
//!
//! let mut table = SymbolTable::new();
//! let x = Symbol::new(&mut table, "x");
//!
//! let e: Expr = 1 + (7 - x);
//! assert_eq!(e, Expr::Sum(vec![Expr::integer(1), Expr::Sum(vec![Expr::integer(7), -x])]));
//! assert_eq!(e.render(&table), "1 + (7 + -x)");
//! assert_eq!(parse_expr(&mut table, "1 + (7 - x)"), Ok(("", e)));
//! ```
//!
//! Sometimes the compiler cannot tell which kind of number a literal is
//! when it stands on the left of an operator; a suffix settles it, as in
//! `1i32 + x`.

pub mod par;
pub mod sym;
