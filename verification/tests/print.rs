use symrs::par::parse_expr;
use symrs::sym::{Decimal, Expr, Symbol, SymbolTable};

#[test]
fn render_sum_inside_product() {
    let mut table = SymbolTable::new();
    let x = Expr::symbol(&mut table, "x");
    let y = Expr::symbol(&mut table, "y");
    let e = Expr::Product(vec![Expr::Sum(vec![Expr::integer(1), x]), y]);
    assert_eq!(e.render(&table), "(1 + x) * y");
}

#[test]
fn render_product_inside_sum() {
    let mut table = SymbolTable::new();
    let x = Expr::symbol(&mut table, "x");
    let y = Expr::symbol(&mut table, "y");
    let e = Expr::Sum(vec![Expr::Product(vec![Expr::integer(2), x]), y]);
    assert_eq!(e.render(&table), "2 * x + y");
}

#[test]
fn render_every_kind() {
    let mut table = SymbolTable::new();
    let x = Symbol::new(&mut table, "x");
    let y = Symbol::new(&mut table, "y");
    let d = Decimal::new(true, &vec![2, 5], -1).unwrap();
    assert_eq!(Expr::Undefined.render(&table), "Undefined");
    assert_eq!(Expr::integer(-42).render(&table), "-42");
    assert_eq!(Expr::integer(0).render(&table), "0");
    assert_eq!(Expr::Sym(y).render(&table), "y");
    assert_eq!(Expr::Approx(d).render(&table), "-2.5");
    assert_eq!((-x).render(&table), "-x");
    assert_eq!((-(x + y)).render(&table), "-(x + y)");
    assert_eq!((-(-x)).render(&table), "-(-x)");
    assert_eq!((-x.pow(2)).render(&table), "-x ^ 2");
    assert_eq!((x + y + 1).render(&table), "x + y + 1");
    assert_eq!((x * y * 2).render(&table), "x * y * 2");
    assert_eq!((x / y).render(&table), "x / y");
    assert_eq!((x / y / 2).render(&table), "(x / y) / 2");
    assert_eq!((x / (y * 2)).render(&table), "x / (y * 2)");
    assert_eq!((x * y / 2).render(&table), "(x * y) / 2");
    assert_eq!(x.pow(y).render(&table), "x ^ y");
    assert_eq!(x.pow(y).pow(2).render(&table), "(x ^ y) ^ 2");
    assert_eq!(x.pow(y.pow(2)).render(&table), "x ^ (y ^ 2)");
    assert_eq!(x.pow(-y).render(&table), "x ^ (-y)");
    assert_eq!((x + (y + 1)).render(&table), "x + (y + 1)");
    assert_eq!((x - y).render(&table), "x + -y");
    assert_eq!((1i32 / (3i32 + x * y)).render(&table), "1 / (3 + x * y)");
}

#[test]
fn render_degenerate_sequences() {
    let mut table = SymbolTable::new();
    let x = Symbol::new(&mut table, "x");
    assert_eq!(Expr::Sum(vec![]).render(&table), "");
    assert_eq!(Expr::Product(vec![]).render(&table), "");
    assert_eq!(Expr::Sum(vec![Expr::Sym(x)]).render(&table), "x");
    assert_eq!(Expr::Product(vec![Expr::Sym(x)]).render(&table), "x");
    assert_eq!(Expr::Sum(vec![x + 1]).render(&table), "(x + 1)");
    assert_eq!(Expr::Product(vec![x + 1]).render(&table), "(x + 1)");
    assert_eq!((-Expr::Sum(vec![])).render(&table), "-()");
}

/// The value of `e` where `x` is 1.5, `y_1` is -0.75 and `δ` is 2.
fn value(e: &Expr, table: &SymbolTable) -> f64 {
    match e {
        Expr::Integer(i) => i.to_string().parse().unwrap(),
        Expr::Approx(d) => d.to_text().parse().unwrap(),
        Expr::Sym(s) => match table.resolve(*s).as_str() {
            "x" => 1.5,
            "y_1" => -0.75,
            "δ" => 2.0,
            other => panic!("{} has no value", other),
        },
        Expr::Neg(e) => -value(e, table),
        Expr::Sum(args) => args.iter().map(|a| value(a, table)).sum(),
        Expr::Product(args) => args.iter().map(|a| value(a, table)).product(),
        Expr::Ratio(n, d) => value(n, table) / value(d, table),
        Expr::Pow(b, p) => value(b, table).powf(value(p, table)),
        Expr::Undefined => f64::NAN,
    }
}

#[test]
fn render_then_parse_gives_the_same_tree() {
    let mut table = SymbolTable::new();
    let x = Symbol::new(&mut table, "x");
    let y = Symbol::new(&mut table, "y_1");
    let z = Symbol::new(&mut table, "δ");
    let corpus = vec![
        Expr::integer(0),
        Expr::integer(123),
        Expr::integer(-123),
        Expr::Sym(x),
        -x,
        -(-x),
        -(x + y),
        -Expr::integer(-5),
        x + y,
        x + y + z,
        x + (y + z),
        x - y,
        x - (y - z),
        -x + y,
        x * y,
        x * y * z,
        x * (y * z),
        -x * y,
        x * -y,
        2 * x * 5,
        x / y,
        x / y / z,
        x / (y / z),
        x / y * z,
        x * (y / z),
        (x + 1) / (y - z),
        x.pow(2),
        x.pow(y.pow(z)),
        x.pow(y).pow(z),
        x.pow(-2),
        x.pow(-y),
        (-x).pow(2),
        -x.pow(2),
        (x + 1).pow(y * 2),
        Expr::integer(-5).pow(x),
        1 + (7 - x),
        (1 + x) * y,
        2 * x + y,
        x / (3 + 5 * -x - (-y.pow(4))),
        2i32 * -(-x / Expr::pow(3.into(), -y)) + z,
        Expr::Approx(Decimal::new(false, &vec![1, 5], -1).unwrap()),
        Expr::Approx(Decimal::new(true, &vec![2, 5], -2).unwrap()),
        Expr::Approx(Decimal::new(false, &vec![5], -3).unwrap()),
        -Expr::Approx(Decimal::new(true, &vec![1, 2, 3, 3], -1).unwrap()),
        x + Decimal::new(false, &vec![5], -1).unwrap(),
        Decimal::new(true, &vec![7, 5], -1).unwrap() * x.pow(Decimal::new(false, &vec![5], -1).unwrap()),
    ];
    for e in corpus {
        let text = e.render(&table);
        assert_eq!(parse_expr(&mut table, &text), Ok(("", e)), "{}", text);
    }
}

#[test]
fn a_number_without_a_fraction_comes_back_as_an_integer() {
    let mut table = SymbolTable::new();
    let e = Expr::Approx(Decimal::new(false, &vec![1, 2, 3, 3], 2).unwrap());
    assert_eq!(e.render(&table), "123300");
    assert_eq!(parse_expr(&mut table, "123300"), Ok(("", Expr::integer(123300))));
}

#[test]
fn render_then_parse_gives_the_same_value() {
    let mut table = SymbolTable::new();
    let x = Symbol::new(&mut table, "x");
    let y = Symbol::new(&mut table, "y_1");
    let z = Symbol::new(&mut table, "δ");
    // Trees that come back in another shape: a sequence of one, a sum in
    // the first place of a sum, the negative of a plain number.
    let corpus = vec![
        Expr::Sum(vec![Expr::Sym(x)]),
        Expr::Product(vec![Expr::Sym(x)]),
        Expr::Sum(vec![x + y]),
        Expr::Sum(vec![x + y, Expr::Sym(z)]),
        Expr::Product(vec![x * y, Expr::Sym(z)]),
        Expr::Product(vec![x + y]),
        -Expr::integer(5),
        x - 3,
        x - y - 3,
        (x - 1) * (y - 2) / (z - 3),
        -(Expr::integer(2) * x) - 4,
        Expr::negative(7).pow(z),
    ];
    for e in corpus {
        let text = e.render(&table);
        let (rest, back) = parse_expr(&mut table, &text).unwrap();
        assert_eq!(rest, "", "{}", text);
        let (before, after) = (value(&e, &table), value(&back, &table));
        assert!((before - after).abs() <= 1e-9 * before.abs(), "{}: {} {}", text, before, after);
    }
}

#[test]
fn the_negative_of_a_power_of_a_number_comes_back_as_another_value() {
    // `-(5 ^ x)` is written without parentheses, and `-5` is read as one
    // number.
    let mut table = SymbolTable::new();
    let x = Symbol::new(&mut table, "x");
    let e = -Expr::integer(5).pow(x);
    assert_eq!(e.render(&table), "-5 ^ x");
    assert_eq!(parse_expr(&mut table, "-5 ^ x"), Ok(("", Expr::integer(-5).pow(x))));
}
