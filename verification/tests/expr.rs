use num::BigInt;
use symrs::sym::{Decimal, Expr, Symbol, SymbolTable};

/// The decimal number that `f` prints as.
fn decimal(f: f64) -> Decimal {
    symrs::par::decimal(&format!("{:e}", f)).unwrap()
}

#[test]
fn symbol_display() {
    let mut table = SymbolTable::new();
    let s = Symbol::new(&mut table, "x");
    assert_eq!(table.resolve(s), "x".to_string());
}

#[test]
fn construct_expr() {
    let int = Expr::integer(4);
    if let Expr::Integer(i) = int {
        assert_eq!(i, 4.into());
    } else {
        unreachable!();
    }
}

#[test]
fn display_expr() {
    let mut table = SymbolTable::new();

    let int = Expr::integer(4);
    assert_eq!(int.render(&table), "4");

    let sym = Expr::symbol(&mut table, "x");
    assert_eq!(sym.render(&table), "x");

    let app = Expr::approximate(decimal(1.32f64));
    assert_eq!(app.render(&table), "1.32");

    let neg = -&sym;
    assert_eq!(neg.render(&table), "-x");

    let plus = int + sym;
    assert_eq!(plus.render(&table), "4 + x");

    let product = app * plus;
    assert_eq!(product.render(&table), "1.32 * (4 + x)");
}

#[test]
fn equality() {
    let mut table = SymbolTable::new();
    let x = Symbol::new(&mut table, "x");

    assert_eq!(Expr::symbol(&mut table, "x"), x.into());
    assert_eq!(Expr::Sym(x), x.into());
    assert_ne!(Expr::symbol(&mut table, "y"), x.into());
    assert_eq!(Expr::integer(9), 9.into());
    assert_ne!(Expr::integer(9), 10.into());

    assert_eq!(x - 1, x - 1);
    assert_eq!(-x, -x);
}

#[test]
fn classify_expr() {
    let mut table = SymbolTable::new();
    let x = Symbol::new(&mut table, "x");

    // is_primitive works.
    assert_eq!(Expr::from(x).is_primitive(), true);
    assert_eq!(Expr::symbol(&mut table, "x").is_primitive(), true);
    assert_eq!(Expr::integer(3).is_primitive(), true);
    assert_eq!(Expr::approximate(decimal(3.5)).is_primitive(), true);

    assert_eq!((x - 3).is_primitive(), false);
    assert_eq!((x + 3).is_primitive(), false);
}

#[test]
fn convert_from() {
    assert_eq!(Expr::from(3), Expr::integer(3));
    assert_eq!(Expr::from(3i8), Expr::integer(3));
    assert_eq!(
        Expr::from("1373663987".parse::<BigInt>().unwrap()),
        Expr::integer(1373663987)
    );

    assert_eq!(Expr::from(decimal(3.5554)), Expr::Approx(decimal(3.5554)));
    assert_eq!(
        Expr::from(decimal(f64::from(3.5554f32))),
        Expr::approximate(decimal(f64::from(3.5554f32)))
    );
}

#[test]
fn operators_works() {
    let mut table = SymbolTable::new();
    let x = Symbol::new(&mut table, "x");
    let y = Symbol::new(&mut table, "y");
    let z = Symbol::new(&mut table, "z");
    let big_3: BigInt = 3.into();

    assert_eq!(x + y, Expr::Sum(vec![Expr::Sym(x), Expr::Sym(y)]));
    assert_eq!(1 + y, Expr::Sum(vec![Expr::Integer(1.into()), Expr::Sym(y)]));
    assert_eq!(x + 1, Expr::Sum(vec![Expr::Sym(x), Expr::Integer(1.into())]));

    assert_eq!(
        2 * x * 5,
        Expr::Product(vec![
            Expr::integer(2),
            Expr::symbol(&mut table, "x"),
            Expr::integer(5),
        ])
    );

    // These operators should just works.
    let _ignore = [
        // Neg
        -x, // - sym
        // Add
        x + y,                // sym + sym
        x + 1 + z,            // expr + sym
        x + (5 + y),          // sym + expr
        x + decimal(4.0),     // sym + f
        decimal(4.0) + x,     // f + sym
        &big_3 + y,           // big + sym
        y + (x + &big_3),     // sym + big
        // Sub
        x - y,                // sym - sym
        x - 1 - z,            // expr - sym
        x - (5 - y),          // sym - expr
        x - decimal(4.0),     // sym - f
        decimal(4.0) - x,     // f - sym
        &big_3 - y,           // big - sym
        y - (x - &big_3),     // sym - big
        // Mul
        x * y,                // sym * sym
        x * 1 * z,            // expr * sym
        x * (5 * y),          // sym * expr
        x * decimal(4.0),     // sym * f
        decimal(4.0) * x,     // f * sym
        &big_3 * y,           // big * sym
        y * (x * &big_3),     // sym * big
        // Div
        x / y,                // sym / sym
        x / 1 / z,            // expr / sym
        x / (5 / y),          // sym / expr
        x / decimal(4.0),     // sym / f
        decimal(4.0) / x,     // f / sym
        &big_3 / y,           // big / sym
        y / (x / &big_3),     // sym / big
        // Mixed
        x + (4 - (x / 2)) * -z,
    ];
}

#[test]
fn priority_rank_order() {
    // rank works.
    let mut table = SymbolTable::new();
    let x = Symbol::new(&mut table, "x");
    let i = Expr::integer(3);
    let s = Expr::symbol(&mut table, "y");
    let approx = Expr::approximate(decimal(3.4));

    let pow = Expr::pow(i.clone(), 5);

    let neg = Expr::negative(x);

    let mul = &neg * 4;
    let div = &s / &i;

    let add = &i + &div;
    let sub = &approx - &i;

    // scalar returns 0.
    assert_eq!(i.priority_rank(), 0);
    assert_eq!(s.priority_rank(), 0);
    assert_eq!(approx.priority_rank(), 0);
    assert_eq!(Expr::Undefined.priority_rank(), 0);

    // scalar is higher than any other constructions.
    assert!(i.priority_rank() < pow.priority_rank());
    assert!(s.priority_rank() < pow.priority_rank());
    assert!(approx.priority_rank() < pow.priority_rank());

    // -x ^ 2 == -(x ^ 2)
    assert!(pow.priority_rank() < neg.priority_rank());

    // -x * 5 == (-x) * 5
    assert!(neg.priority_rank() < mul.priority_rank());
    assert!(neg.priority_rank() < div.priority_rank());

    // x * y / z, x / y * z
    assert_eq!(mul.priority_rank(), div.priority_rank());

    // x + y * z == x + (y * z)
    assert!(mul.priority_rank() < add.priority_rank());
    assert!(mul.priority_rank() < sub.priority_rank());

    assert_eq!(add.priority_rank(), sub.priority_rank());
}

#[test]
fn rank_values() {
    let mut table = SymbolTable::new();
    let x = Symbol::new(&mut table, "x");
    assert_eq!(Expr::pow(x.into(), 2).priority_rank(), 2);
    assert_eq!(Expr::negative(x).priority_rank(), 3);
    assert_eq!((x * 2).priority_rank(), 4);
    assert_eq!((x / 2).priority_rank(), 4);
    assert_eq!((x + 2).priority_rank(), 5);
    assert_eq!((x - 2).priority_rank(), 5);
}

#[test]
fn addition_flattens_on_the_left_only() {
    let mut table = SymbolTable::new();
    let x = Symbol::new(&mut table, "x");
    let y = Symbol::new(&mut table, "y");
    let z = Symbol::new(&mut table, "z");
    let s = |s: Symbol| Expr::Sym(s);
    assert_eq!(x + y + z, Expr::Sum(vec![s(x), s(y), s(z)]));
    assert_eq!(x + (y + z), Expr::Sum(vec![s(x), Expr::Sum(vec![s(y), s(z)])]));
    assert_eq!(
        x - y - z,
        Expr::Sum(vec![s(x), Expr::Neg(Box::new(s(y))), Expr::Neg(Box::new(s(z)))])
    );
    assert_eq!((x * y) + z, Expr::Sum(vec![Expr::Product(vec![s(x), s(y)]), s(z)]));
    assert_eq!(Expr::Sum(vec![]) + x, Expr::Sum(vec![s(x)]));
    assert_eq!(s(x).plus(s(y)), x + y);
    assert_eq!(s(x).minus(s(y)), x - y);
}

#[test]
fn multiplication_flattens_on_the_left_only() {
    let mut table = SymbolTable::new();
    let x = Symbol::new(&mut table, "x");
    let y = Symbol::new(&mut table, "y");
    let z = Symbol::new(&mut table, "z");
    let s = |s: Symbol| Expr::Sym(s);
    assert_eq!(x * y * z, Expr::Product(vec![s(x), s(y), s(z)]));
    assert_eq!(x * (y * z), Expr::Product(vec![s(x), Expr::Product(vec![s(y), s(z)])]));
    assert_eq!((x + y) * z, Expr::Product(vec![Expr::Sum(vec![s(x), s(y)]), s(z)]));
    assert_eq!(s(x).times(s(y)), x * y);
}

#[test]
fn division_never_flattens() {
    let mut table = SymbolTable::new();
    let x = Symbol::new(&mut table, "x");
    let y = Symbol::new(&mut table, "y");
    let z = Symbol::new(&mut table, "z");
    let s = |s: Symbol| Box::new(Expr::Sym(s));
    assert_eq!(x / y, Expr::Ratio(s(x), s(y)));
    assert_eq!(x / y / z, Expr::Ratio(Box::new(Expr::Ratio(s(x), s(y))), s(z)));
    assert_eq!(x / x, Expr::Ratio(s(x), s(x)));
    assert_eq!(Expr::Sym(x).over(Expr::Sym(y)), x / y);
}

#[test]
fn power_and_negative() {
    let mut table = SymbolTable::new();
    let x = Symbol::new(&mut table, "x");
    assert_eq!(x.pow(2), Expr::pow(x.into(), 2));
    assert_eq!(
        x.pow(2),
        Expr::Pow(Box::new(Expr::Sym(x)), Box::new(Expr::integer(2)))
    );
    assert_eq!(Expr::negative(x), Expr::Neg(Box::new(Expr::Sym(x))));
    assert_eq!(Expr::negative(7), Expr::Neg(Box::new(Expr::integer(7))));
    assert_eq!(-Expr::negative(x), Expr::Neg(Box::new(Expr::Neg(Box::new(Expr::Sym(x))))));
}

#[test]
fn integers_of_every_width() {
    let big = |s: &str| Expr::Integer(s.parse::<BigInt>().unwrap());
    assert_eq!(Expr::from(i8::MIN), big("-128"));
    assert_eq!(Expr::from(i16::MIN), big("-32768"));
    assert_eq!(Expr::from(i32::MIN), big("-2147483648"));
    assert_eq!(Expr::from(i64::MIN), big("-9223372036854775808"));
    assert_eq!(Expr::from(-5isize), big("-5"));
    assert_eq!(Expr::from(u8::MAX), big("255"));
    assert_eq!(Expr::from(u16::MAX), big("65535"));
    assert_eq!(Expr::from(u32::MAX), big("4294967295"));
    assert_eq!(Expr::from(u64::MAX), big("18446744073709551615"));
    assert_eq!(Expr::from(7usize), big("7"));
    assert_eq!(Expr::integer(i8::MIN), big("-128"));
    assert_eq!(Expr::integer(i16::MIN), big("-32768"));
    assert_eq!(Expr::integer(-5isize), big("-5"));
    assert_eq!(Expr::integer(u8::MAX), big("255"));
    assert_eq!(Expr::integer(u16::MAX), big("65535"));
    assert_eq!(Expr::integer(u32::MAX), big("4294967295"));
    assert_eq!(Expr::integer(7usize), big("7"));
    assert_eq!(u64::MAX + Expr::Undefined, Expr::Sum(vec![big("18446744073709551615"), Expr::Undefined]));
    assert_eq!(i64::MIN * Expr::Undefined, Expr::Product(vec![big("-9223372036854775808"), Expr::Undefined]));
}

#[test]
fn clone_copies_the_whole_tree() {
    let mut table = SymbolTable::new();
    let x = Symbol::new(&mut table, "x");
    let e = x / (3 + 5 * -x - (-x.pow(4))) + decimal(0.25);
    let copy = e.clone();
    assert_eq!(copy, e);
    assert_eq!(Expr::from(&e), e);
    assert_eq!(copy.render(&table), e.render(&table));
}
