use symrs::par::parse_expr;
use symrs::sym::{Expr, Symbol, SymbolTable};

#[test]
fn build_print_and_parse() {
    let mut table = SymbolTable::new();
    let x = Symbol::new(&mut table, "x");

    let e: Expr = 1 + (7 - x);
    assert_eq!(
        e,
        Expr::Sum(vec![Expr::integer(1), Expr::Sum(vec![Expr::integer(7), -x])])
    );
    assert_eq!(e.render(&table), "1 + (7 + -x)");
    assert_eq!(parse_expr(&mut table, "1 + (7 - x)"), Ok(("", e)));
}

#[test]
fn create_expressions() {
    let mut table = SymbolTable::new();
    let one = Expr::from(1);
    let x: Expr = Symbol::new(&mut table, "x").into();
    let y = Expr::symbol(&mut table, "y");
    let x_y = Expr::pow(x, y);
    assert_eq!(one.render(&table), "1");
    assert_eq!(x_y.render(&table), "x ^ y");

    let x = Symbol::new(&mut table, "x");
    let b = x + 1;
    assert_eq!(b, Expr::Sum(vec![Expr::Sym(x), Expr::integer(1)]));
    assert_eq!(1i32 + x, Expr::Sum(vec![Expr::integer(1), Expr::Sym(x)]));
    assert_eq!(x.pow(2), Expr::pow(x.into(), 2));
}

#[test]
fn print_two_examples() {
    let mut table = SymbolTable::new();
    let x = Symbol::new(&mut table, "x");
    let y = Symbol::new(&mut table, "y");
    assert_eq!((1i32 / (3i32 + x * y)).render(&table), "1 / (3 + x * y)");
    assert_eq!(
        (x - (2u32 - x).pow(x) + 3i32 / y).render(&table),
        "x + -(2 + -x) ^ x + 3 / y"
    );
}
