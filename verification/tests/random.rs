use symrs::par::parse_expr;
use symrs::sym::{Decimal, Expr, Symbol, SymbolTable};

/// A small deterministic generator of numbers.
struct Numbers(u64);

impl Numbers {
    fn next(&mut self, bound: u64) -> u64 {
        self.0 = self.0.wrapping_mul(6364136223846793005).wrapping_add(1442695040888963407);
        (self.0 >> 33) % bound
    }
}

/// Whether the text of `e` begins with the digit of a number.
fn number_led(e: &Expr) -> bool {
    match e {
        Expr::Integer(i) => *i >= 0.into(),
        Expr::Approx(d) => !d.is_negative(),
        Expr::Pow(b, _) => match &**b {
            Expr::Integer(i) => *i >= 0.into(),
            Expr::Approx(d) => !d.is_negative(),
            _ => false,
        },
        _ => false,
    }
}

/// A tree of the shape that is read back as it is.
fn tree(n: &mut Numbers, depth: u32, symbols: &[Symbol]) -> Expr {
    let kind = if depth == 0 { n.next(3) } else { n.next(8) };
    match kind {
        0 => Expr::integer(n.next(2000) as i64 - 1000),
        1 => Expr::Sym(symbols[n.next(symbols.len() as u64) as usize]),
        2 => {
            let digits = vec![1 + n.next(9) as u8, n.next(10) as u8, 1 + n.next(9) as u8];
            Expr::Approx(Decimal::new(n.next(2) == 0, &digits, -1 - n.next(5) as i64).unwrap())
        }
        3 => loop {
            let inner = tree(n, depth - 1, symbols);
            if !number_led(&inner) {
                return Expr::Neg(Box::new(inner));
            }
        },
        4 => loop {
            let first = tree(n, depth - 1, symbols);
            if !matches!(first, Expr::Sum(_)) {
                let mut args = vec![first];
                for _ in 0..1 + n.next(3) {
                    args.push(tree(n, depth - 1, symbols));
                }
                return Expr::Sum(args);
            }
        },
        5 => loop {
            let first = tree(n, depth - 1, symbols);
            if !matches!(first, Expr::Product(_)) {
                let mut args = vec![first];
                for _ in 0..1 + n.next(3) {
                    args.push(tree(n, depth - 1, symbols));
                }
                return Expr::Product(args);
            }
        },
        6 => Expr::Ratio(
            Box::new(tree(n, depth - 1, symbols)),
            Box::new(tree(n, depth - 1, symbols)),
        ),
        _ => Expr::Pow(
            Box::new(tree(n, depth - 1, symbols)),
            Box::new(tree(n, depth - 1, symbols)),
        ),
    }
}

#[test]
fn random_trees_are_read_back() {
    let mut table = SymbolTable::new();
    let symbols: Vec<Symbol> =
        ["x", "y", "_z1", "Δ", "alpha_beta"].iter().map(|s| Symbol::new(&mut table, s)).collect();
    let mut n = Numbers(2024);
    for _ in 0..400 {
        let e = tree(&mut n, 4, &symbols);
        let text = e.render(&table);
        assert_eq!(parse_expr(&mut table, &text), Ok(("", e)), "{}", text);
    }
}

#[test]
fn random_texts_are_parsed_or_refused() {
    let alphabet: Vec<char> = "0123456789.eE+-*/^() \txyΩ_§".chars().collect();
    let mut n = Numbers(7);
    let mut table = SymbolTable::new();
    for _ in 0..3000 {
        let len = n.next(12);
        let text: String =
            (0..len).map(|_| alphabet[n.next(alphabet.len() as u64) as usize]).collect();
        let count = text.chars().count();
        match parse_expr(&mut table, &text) {
            Ok((rest, e)) => {
                assert!(text.ends_with(rest), "{}", text);
                assert!(rest.len() < text.len(), "{}", text);
                // What was read is read again from its own text, as far as
                // that text is one expression.
                let again = e.render(&table);
                assert!(parse_expr(&mut table, &again).is_ok(), "{} {}", text, again);
            }
            Err(failure) => {
                assert!(failure.position <= count, "{}", text);
                assert_eq!(
                    failure.remainder(&text),
                    text.chars().skip(failure.position).collect::<String>()
                );
            }
        }
    }
}
