use float_cmp::ApproxEqRatio;
use symrs::par::{
    float, integer, negative, parse_expr, pow, primitive, product, symbol, ParseFailure,
};
use symrs::sym::{Expr, Symbol, SymbolTable};

type Parsed<'a> = Result<(&'a str, Expr), ParseFailure>;

/// A helper function to convert `Expr` to f64.
fn as_f64(e: &Expr) -> f64 {
    match e {
        Expr::Approx(d) => d.to_text().parse().unwrap(),
        _ => panic!("{:?} is not a float", e),
    }
}

fn assert_finished_and_near(r: Parsed, expected: f64) {
    if let Ok((i, o)) = r {
        assert!(i.is_empty());
        assert!(as_f64(&o).approx_eq_ratio(&expected, 1e-6));
    } else {
        panic!("parser did not complete");
    }
}

fn assert_finished_and_eq(r: Parsed, expected: Expr) {
    if let Ok((i, o)) = r {
        assert!(i.is_empty());
        assert_eq!(o, expected);
    } else {
        panic!("parser did not complete");
    }
}

fn assert_floats(parser: &mut dyn for<'a> FnMut(&'a str) -> Parsed<'a>) {
    assert_finished_and_near(parser("123.3"), 123.3);
    assert_finished_and_near(parser("123.3e3"), 123.3e3);
    assert_finished_and_near(parser("-123.3"), -123.3);
    assert_finished_and_near(parser("-123.3e3"), -123.3e3);
}

fn assert_integers(parser: &mut dyn for<'a> FnMut(&'a str) -> Parsed<'a>) {
    assert_finished_and_eq(parser("123"), Expr::integer(123));
    assert_finished_and_eq(parser("-123"), Expr::integer(-123));
}

fn assert_symbols(
    table: &mut SymbolTable,
    parser: &mut dyn for<'a> FnMut(&mut SymbolTable, &'a str) -> Parsed<'a>,
) {
    assert_finished_and_eq(parser(table, "x"), Expr::symbol(table, "x"));
    assert_finished_and_eq(parser(table, "x1"), Expr::symbol(table, "x1"));
    assert_finished_and_eq(parser(table, "_x"), Expr::symbol(table, "_x"));
    assert_finished_and_eq(parser(table, "x_1"), Expr::symbol(table, "x_1"));
    assert_finished_and_eq(parser(table, "α_1"), Expr::symbol(table, "α_1"));
}

fn assert_negative(
    table: &mut SymbolTable,
    parser: &mut dyn for<'a> FnMut(&mut SymbolTable, &'a str) -> Parsed<'a>,
) {
    let x = Symbol::new(table, "x");
    assert_finished_and_eq(parser(table, "-x"), -x);
    assert_finished_and_eq(parser(table, "- x"), -x);
    assert_finished_and_eq(parser(table, "-(x)"), -x);
    assert_finished_and_eq(parser(table, "-(12)"), -Expr::integer(12));
}

fn assert_pow(
    table: &mut SymbolTable,
    parser: &mut dyn for<'a> FnMut(&mut SymbolTable, &'a str) -> Parsed<'a>,
) {
    let x = Symbol::new(table, "x");
    assert_finished_and_eq(parser(table, "x^x"), x.pow(x));
    assert_finished_and_eq(parser(table, "x ^ x"), x.pow(x));
    assert_finished_and_eq(parser(table, "x ^ x^ x"), x.pow(x.pow(x)));
    assert_finished_and_eq(parser(table, "x ^x   ^ x"), x.pow(x.pow(x)));
    assert_finished_and_eq(parser(table, "(x ^ x) ^ x"), x.pow(x).pow(x));
    assert_finished_and_eq(parser(table, "(x ^ 2) ^ x"), x.pow(2).pow(x));
    assert_finished_and_eq(parser(table, "(x ^ -2) ^ - x"), x.pow(-2).pow(-x));
}

fn assert_product(
    table: &mut SymbolTable,
    parser: &mut dyn for<'a> FnMut(&mut SymbolTable, &'a str) -> Parsed<'a>,
) {
    let x = Symbol::new(table, "x");
    assert_finished_and_eq(parser(table, "x*x"), x * x);
    assert_finished_and_eq(parser(table, "x * x"), x * x);
    assert_finished_and_eq(parser(table, "x * x* x"), x * x * x);
    assert_finished_and_eq(parser(table, "x *x *x"), x * x * x);
    assert_finished_and_eq(parser(table, "x *x *-x"), x * x * -x);
    assert_finished_and_eq(parser(table, "x / x/x"), x / x / x);
    assert_finished_and_eq(parser(table, "x / x * x"), x / x * x);
    assert_finished_and_eq(parser(table, "x / (x * x)"), x / (x * x));
    assert_finished_and_eq(parser(table, "4 / (x * x)"), 4 / (x * x));
}

fn with_table<'a>(
    table: &mut SymbolTable,
    parser: &mut dyn for<'b> FnMut(&mut SymbolTable, &'b str) -> Parsed<'b>,
    input: &'a str,
) -> Parsed<'a> {
    parser(table, input)
}

fn assert_numbers(
    table: &mut SymbolTable,
    parser: &mut dyn for<'a> FnMut(&mut SymbolTable, &'a str) -> Parsed<'a>,
) {
    assert_integers(&mut |s| with_table(table, parser, s));
    assert_floats(&mut |s| with_table(table, parser, s));
}

#[test]
fn integer_works() {
    assert_integers(&mut |s| integer(s));
}

#[test]
fn float_works() {
    assert_floats(&mut |s| float(s));
}

#[test]
fn symbol_works() {
    let mut table = SymbolTable::new();
    assert_symbols(&mut table, &mut |t, s| symbol(t, s));
}

#[test]
fn primitive_works() {
    let mut table = SymbolTable::new();
    assert_numbers(&mut table, &mut |t, s| primitive(t, s));
    assert_symbols(&mut table, &mut |t, s| primitive(t, s));
}

#[test]
fn pow_works() {
    let mut table = SymbolTable::new();
    assert_numbers(&mut table, &mut |t, s| pow(t, s));
    assert_symbols(&mut table, &mut |t, s| pow(t, s));
    assert_pow(&mut table, &mut |t, s| pow(t, s));
}

#[test]
fn negative_works() {
    let mut table = SymbolTable::new();
    assert_numbers(&mut table, &mut |t, s| negative(t, s));
    assert_symbols(&mut table, &mut |t, s| negative(t, s));
    assert_pow(&mut table, &mut |t, s| negative(t, s));
    assert_negative(&mut table, &mut |t, s| negative(t, s));
}

#[test]
fn product_works() {
    let mut table = SymbolTable::new();
    assert_numbers(&mut table, &mut |t, s| product(t, s));
    assert_symbols(&mut table, &mut |t, s| product(t, s));
    assert_pow(&mut table, &mut |t, s| product(t, s));
    assert_negative(&mut table, &mut |t, s| product(t, s));
    assert_product(&mut table, &mut |t, s| product(t, s));
}

#[test]
fn parse_works() {
    let mut table = SymbolTable::new();
    let t = &mut table;
    assert_numbers(t, &mut |t, s| parse_expr(t, s));
    assert_symbols(t, &mut |t, s| parse_expr(t, s));
    assert_pow(t, &mut |t, s| parse_expr(t, s));
    assert_negative(t, &mut |t, s| parse_expr(t, s));
    assert_product(t, &mut |t, s| parse_expr(t, s));

    assert_finished_and_eq(parse_expr(t, "(123)"), Expr::integer(123));
    assert_finished_and_eq(parse_expr(t, "( 123 )"), Expr::integer(123));
    assert_finished_and_eq(parse_expr(t, "((123))"), Expr::integer(123));

    let x = Symbol::new(t, "x");
    let y = Symbol::new(t, "y");
    assert_finished_and_eq(parse_expr(t, "2*x"), 2i32 * x);
    assert_finished_and_eq(parse_expr(t, "2 * x"), 2i32 * x);
    assert_finished_and_eq(parse_expr(t, "x *x"), x * x);
    assert_finished_and_eq(parse_expr(t, "2 * x * 5"), 2 * x * 5);
    assert_finished_and_eq(parse_expr(t, "2 * x / y"), 2i32 * x / y);
    assert_finished_and_eq(parse_expr(t, "2 * (x / y)"), 2i32 * (x / y));
    assert_finished_and_eq(parse_expr(t, "2 * (x * y)"), 2i32 * (x * y));
    assert_finished_and_eq(parse_expr(t, "(2 * x) * y"), (2i32 * x) * y);
    assert_finished_and_eq(parse_expr(t, "2*-x"), 2i32 * -x);
    assert_finished_and_eq(parse_expr(t, "-2 * x"), -2i32 * x);
    assert_finished_and_eq(parse_expr(t, "2 * -(-x / - y)"), 2i32 * -(-x / -y));
    assert_finished_and_eq(
        parse_expr(t, "2 * -(-x / 3 ^ - y)"),
        2i32 * -(-x / Expr::pow(3.into(), -y)),
    );
    assert_finished_and_eq(
        parse_expr(t, "2 * -(-x / 3 ^ - y) - 4"),
        2i32 * -(-x / Expr::pow(3.into(), -y)) - 4,
    );
    assert_finished_and_eq(
        parse_expr(t, "x / (3 + 5 * - x - (- y^4))"),
        x / (3 + 5 * -x - (-y.pow(4))),
    );
}

#[test]
fn parse_nested_sum() {
    let mut table = SymbolTable::new();
    let x = Expr::symbol(&mut table, "x");
    let expected = Expr::Sum(vec![
        Expr::integer(1),
        Expr::Sum(vec![Expr::integer(7), Expr::Neg(Box::new(x))]),
    ]);
    assert_eq!(parse_expr(&mut table, "1 + (7 - x)"), Ok(("", expected)));
}

#[test]
fn parse_power_is_right_associative() {
    let mut table = SymbolTable::new();
    let s = Symbol::new(&mut table, "x");
    let expected = Expr::Pow(
        Box::new(Expr::Sym(s)),
        Box::new(Expr::Pow(Box::new(Expr::Sym(s)), Box::new(Expr::Sym(s)))),
    );
    assert_eq!(parse_expr(&mut table, "x^x^x"), Ok(("", expected)));
}

#[test]
fn parse_minus_binds_looser_than_power() {
    let mut table = SymbolTable::new();
    let s = Symbol::new(&mut table, "x");
    let expected = Expr::Neg(Box::new(Expr::Pow(
        Box::new(Expr::Sym(s)),
        Box::new(Expr::integer(2)),
    )));
    assert_eq!(parse_expr(&mut table, "-x^2"), Ok(("", expected)));
}

#[test]
fn parse_product_is_flat() {
    let mut table = SymbolTable::new();
    let s = Symbol::new(&mut table, "x");
    let expected = Expr::Product(vec![Expr::integer(2), Expr::Sym(s), Expr::integer(5)]);
    assert_eq!(parse_expr(&mut table, "2 * x * 5"), Ok(("", expected)));
}

#[test]
fn parse_float_before_integer() {
    let mut table = SymbolTable::new();
    let (rest, e) = parse_expr(&mut table, "123.3").unwrap();
    assert_eq!(rest, "");
    match e {
        Expr::Approx(d) => {
            assert_eq!(d.to_text(), "123.3");
            assert_eq!(d.digits(), &vec![1u8, 2, 3, 3]);
            assert_eq!(d.exponent(), -1);
            assert!(!d.is_negative());
        }
        other => panic!("{:?} is not an approximate value", other),
    }
}

#[test]
fn parse_leaves_the_remainder() {
    let mut table = SymbolTable::new();
    let x = Symbol::new(&mut table, "x");
    assert_eq!(parse_expr(&mut table, "x + "), Ok(("+ ", Expr::Sym(x))));
    assert_eq!(parse_expr(&mut table, "x y"), Ok(("y", Expr::Sym(x))));
    assert_eq!(parse_expr(&mut table, "x ^ "), Ok(("^ ", Expr::Sym(x))));
    assert_eq!(parse_expr(&mut table, "1 + (7 - x"), Ok(("+ (7 - x", Expr::integer(1))));
    assert_eq!(parse_expr(&mut table, "  x  )"), Ok((")", Expr::Sym(x))));
    assert_eq!(integer("12ab"), Ok(("ab", Expr::integer(12))));
    assert_eq!(integer("1e5"), Ok(("e5", Expr::integer(1))));
}

#[test]
fn parse_failure_carries_the_position() {
    let mut table = SymbolTable::new();
    assert_eq!(parse_expr(&mut table, ""), Err(ParseFailure { position: 0 }));
    assert_eq!(parse_expr(&mut table, "   "), Err(ParseFailure { position: 3 }));
    assert_eq!(parse_expr(&mut table, "(1 + 2"), Err(ParseFailure { position: 6 }));
    assert_eq!(parse_expr(&mut table, "(1 + "), Err(ParseFailure { position: 3 }));
    assert_eq!(parse_expr(&mut table, "--x"), Err(ParseFailure { position: 1 }));
    assert_eq!(parse_expr(&mut table, "*x"), Err(ParseFailure { position: 0 }));
    assert_eq!(parse_expr(&mut table, "+1"), Err(ParseFailure { position: 0 }));
    assert_eq!(integer(" 12"), Err(ParseFailure { position: 0 }));
    assert_eq!(integer("-"), Err(ParseFailure { position: 0 }));
    assert_eq!(float("123"), Err(ParseFailure { position: 0 }));
    assert_eq!(float("."), Err(ParseFailure { position: 0 }));
    assert_eq!(symbol(&mut table, "1x"), Err(ParseFailure { position: 0 }));
    assert_eq!(symbol(&mut table, "\u{3a2}"), Err(ParseFailure { position: 0 }));
}

#[test]
fn parse_failure_gives_the_remainder() {
    let mut table = SymbolTable::new();
    let input = "(α + §) * 2";
    let failure = parse_expr(&mut table, input).unwrap_err();
    assert_eq!(failure, ParseFailure { position: 3 });
    assert_eq!(failure.remainder(input), "+ §) * 2");
    assert_eq!(ParseFailure { position: 0 }.remainder("abc"), "abc");
    assert_eq!(ParseFailure { position: 3 }.remainder("abc"), "");
    assert_eq!(ParseFailure { position: 4 }.remainder("abc"), "");
}

#[test]
fn parse_counts_characters_not_bytes() {
    let mut table = SymbolTable::new();
    let alpha = Symbol::new(&mut table, "α");
    let omega = Symbol::new(&mut table, "Ω");
    assert_eq!(parse_expr(&mut table, "α + Ω §"), Ok(("§", alpha + omega)));
    assert_eq!(parse_expr(&mut table, "(α §"), Err(ParseFailure { position: 3 }));
}

#[test]
fn parse_float_forms() {
    let text = |s: &str| match float(s) {
        Ok((rest, Expr::Approx(d))) => Some((d.to_text(), rest.to_string())),
        _ => None,
    };
    assert_eq!(text("1.5"), Some(("1.5".to_string(), String::new())));
    assert_eq!(text("+1.5"), Some(("1.5".to_string(), String::new())));
    assert_eq!(text("5."), Some(("5".to_string(), String::new())));
    assert_eq!(text(".5"), Some(("0.5".to_string(), String::new())));
    assert_eq!(text("-.5E-2"), Some(("-0.005".to_string(), String::new())));
    assert_eq!(text("1.50e+2"), Some(("150".to_string(), String::new())));
    assert_eq!(text("0.0"), Some(("0".to_string(), String::new())));
    assert_eq!(text("-0.0e99999999999999999999999999"), Some(("0".to_string(), String::new())));
    assert_eq!(text("1.5e"), Some(("1.5".to_string(), "e".to_string())));
    assert_eq!(text("1.5e+"), Some(("1.5".to_string(), "e+".to_string())));
    assert_eq!(text("1.5x"), Some(("1.5".to_string(), "x".to_string())));
    assert_eq!(text("1.000"), Some(("1".to_string(), String::new())));
    assert_eq!(text("1e5"), None);
    assert_eq!(text("-"), None);
}

#[test]
fn parse_float_with_a_huge_exponent_is_read_whole() {
    let mut table = SymbolTable::new();
    let exponent_of = |r: Result<(&str, Expr), ParseFailure>| match r {
        Ok(("", Expr::Approx(d))) => (d.is_negative(), d.digits().clone(), d.exponent()),
        other => panic!("{:?} is not a float read whole", other),
    };
    // Up to the ends of the range the exponent is exact.
    assert_eq!(exponent_of(float("1.5e9223372036854775808")), (false, vec![1, 5], i64::MAX));
    assert_eq!(exponent_of(float("1.5e-9223372036854775807")), (false, vec![1, 5], i64::MIN));
    assert_eq!(exponent_of(float("150.0e9223372036854775806")), (false, vec![1, 5], i64::MAX));
    // Beyond them it is the nearest end, and the literal is still read whole.
    assert_eq!(exponent_of(float("1.5e9223372036854775809")), (false, vec![1, 5], i64::MAX));
    assert_eq!(exponent_of(float("-1.5e99999999999999999999")), (true, vec![1, 5], i64::MAX));
    assert_eq!(exponent_of(float("1.5e-9223372036854775808")), (false, vec![1, 5], i64::MIN));
    assert_eq!(exponent_of(float("1.5E-99999999999999999999999999")), (false, vec![1, 5], i64::MIN));
    assert_eq!(
        exponent_of(primitive(&mut table, "1.5e99999999999999999999")),
        (false, vec![1, 5], i64::MAX)
    );
    assert_eq!(
        exponent_of(parse_expr(&mut table, "1.5e99999999999999999999")),
        (false, vec![1, 5], i64::MAX)
    );
    assert_eq!(
        exponent_of(parse_expr(&mut table, " 123.3e-99999999999999999999 ")),
        (false, vec![1, 2, 3, 3], i64::MIN)
    );
    assert_eq!(exponent_of(float("0.0e99999999999999999999")), (false, vec![], 0));
}

#[test]
fn parse_never_splits_a_float_literal() {
    let mut table = SymbolTable::new();
    let mut n: u64 = 99;
    let mut next = |bound: u64| {
        n = n.wrapping_mul(6364136223846793005).wrapping_add(1442695040888963407);
        (n >> 33) % bound
    };
    for _ in 0..500 {
        let digits = |k: u64, next: &mut dyn FnMut(u64) -> u64| -> String {
            (0..k).map(|_| char::from(b'0' + next(10) as u8)).collect()
        };
        let whole = digits(1 + next(4), &mut next);
        let part = digits(1 + next(4), &mut next);
        let mut text = format!("{}.{}", whole, part);
        if next(2) == 0 {
            let sign = ["", "+", "-"][next(3) as usize];
            text = format!("{}e{}{}", text, sign, digits(1 + next(30), &mut next));
        }
        match parse_expr(&mut table, &text) {
            Ok(("", Expr::Approx(_))) => {}
            other => panic!("{} is read as {:?}", text, other),
        }
    }
}

#[test]
fn parse_interns_symbols_once() {
    let mut table = SymbolTable::new();
    let (_, e) = parse_expr(&mut table, "x + y * x").unwrap();
    let x = Symbol::new(&mut table, "x");
    let y = Symbol::new(&mut table, "y");
    assert_ne!(x, y);
    assert_eq!(e, x + y * x);
    assert_eq!(table.resolve(x), "x");
    assert_eq!(table.resolve(y), "y");
}

#[test]
fn parse_large_integer() {
    let (rest, e) = integer("-123456789012345678901234567890").unwrap();
    assert_eq!(rest, "");
    let table = SymbolTable::new();
    assert_eq!(e.render(&table), "-123456789012345678901234567890");
    assert_eq!(e, Expr::integer("-123456789012345678901234567890".parse::<num::BigInt>().unwrap()));
}

#[test]
fn white_space_around_units_does_not_count() {
    let mut table = SymbolTable::new();
    let x = Symbol::new(&mut table, "x");
    let y = Symbol::new(&mut table, "y");
    let expected = x / (3 + 5 * -x - (-y.pow(4))) + Expr::integer(-2).pow(x);
    let texts = [
        "x/(3+5*-x-(-y^4))+-2^x",
        "x / (3 + 5 * - x - (- y ^ 4)) + -2 ^ x",
        "  x  /  (  3  +  5  *  -  x  -  (  -  y  ^  4  )  )  +  -2  ^  x  ",
        "\tx\n/\r\n(\t3+5\n*-x-(-y^4)\t)\n+\t-2^x\n",
    ];
    for text in texts {
        assert_eq!(parse_expr(&mut table, text), Ok(("", expected.clone())), "{:?}", text);
    }
    // Inside a number or a name, and between a `-` and the digits of a
    // number, white space does count.
    assert_eq!(parse_expr(&mut table, "x y"), Ok(("y", Expr::Sym(x))));
    assert_eq!(parse_expr(&mut table, "1 2"), Ok(("2", Expr::integer(1))));
    assert_eq!(parse_expr(&mut table, "- 2"), Ok(("", -Expr::integer(2))));
    assert_eq!(parse_expr(&mut table, "-2"), Ok(("", Expr::integer(-2))));
}
