//! Definition of the expression representation.
//!
//! # Creating an `Expr`
//!
//! `Expr` implements `From` for symbols and numbers, so these can be
//! converted directly, or built by a constructor:
//!
//! ```
//! use symrs::sym::{Expr, Symbol, SymbolTable};
//!
//! let mut table = SymbolTable::new();
//! let one = Expr::from(1);
//! let x: Expr = Symbol::new(&mut table, "x").into();
//! let y = Expr::symbol(&mut table, "y");
//! let x_y = Expr::pow(x, y);
//! ```
//!
//! Operators build sums, products, ratios and negatives:
//!
//! ```
//! use symrs::sym::{Expr, Symbol, SymbolTable};
//!
//! let mut table = SymbolTable::new();
//! let x = Symbol::new(&mut table, "x");
//! let b = x + 1;
//! assert_eq!(b, Expr::Sum(vec![Expr::Sym(x), Expr::integer(1)]));
//! ```

pub mod adopt;
pub mod decimal;
pub mod expr;
pub mod impls;
pub mod integer;
pub mod numbers;
pub mod operand;
mod pool;
pub mod print;
pub mod symbol;

pub use self::decimal::Decimal;
pub use self::expr::Expr;
pub use self::operand::Operand;
pub use self::symbol::{Symbol, SymbolTable};
