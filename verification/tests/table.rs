use symrs::sym::{Expr, Symbol, SymbolTable};
use symtern::traits::{Intern, Resolve};

#[test]
fn resolve_gives_back_the_name() {
    let mut table = SymbolTable::new();
    for name in ["x", "y", "delta", "a_long_name_1", "α", "", "two words"] {
        let sym = table.intern(name);
        assert_eq!(table.resolve(sym), name);
    }
}

#[test]
fn equal_names_give_equal_symbols() {
    let mut table = SymbolTable::new();
    let names = ["x", "y", "delta", "x", "alpha", "delta", "x"];
    let symbols: Vec<Symbol> = names.iter().map(|n| table.intern(n)).collect();
    for i in 0..names.len() {
        for j in 0..names.len() {
            assert_eq!(names[i] == names[j], symbols[i] == symbols[j]);
        }
    }
}

#[test]
fn symbols_stay_valid_while_the_table_grows() {
    let mut table = SymbolTable::new();
    let first = table.intern("first");
    let mut all = vec![first];
    for i in 0..200 {
        all.push(table.intern(&format!("name{}", i)));
    }
    assert_eq!(table.resolve(first), "first");
    for i in 0..200 {
        assert_eq!(table.resolve(all[i + 1]), format!("name{}", i));
    }
    assert_eq!(table.intern("first"), first);
}

#[test]
fn tables_are_independent() {
    let mut one = SymbolTable::new();
    let mut two = SymbolTable::new();
    let a = one.intern("a");
    let b = two.intern("b");
    assert_eq!(one.resolve(a), "a");
    assert_eq!(two.resolve(b), "b");
    assert_eq!(Symbol::new(&mut one, "a"), a);
    assert_eq!(Symbol::new(&mut two, "b"), b);
}

#[test]
fn the_pool_alone_takes_names_with_one_hash_for_one() {
    let mut pool = symtern::Pool::<str, u32>::new();
    let a = pool.intern("8yn0iYCKYHlIj4-BwPqk").unwrap();
    let b = pool.intern("GReLUrM4wMqfg9yzV3KQ").unwrap();
    assert_eq!(a, b);
    assert_eq!(pool.resolve(b), Ok("8yn0iYCKYHlIj4-BwPqk"));
}

#[test]
fn names_with_one_hash_get_two_symbols() {
    // Two texts with the same 64-bit FNV-1a hash, which the pool cannot
    // tell apart.
    let mut table = SymbolTable::new();
    let one = "8yn0iYCKYHlIj4-BwPqk";
    let two = "GReLUrM4wMqfg9yzV3KQ";
    let a = table.intern(one);
    let b = table.intern(two);
    assert_ne!(a, b);
    assert_eq!(table.resolve(a), one);
    assert_eq!(table.resolve(b), two);
    assert_eq!(table.intern(one), a);
    assert_eq!(table.intern(two), b);
    let c = table.intern("other");
    assert_ne!(c, a);
    assert_ne!(c, b);
    assert_eq!(table.resolve(c), "other");
}

#[test]
fn a_table_adopts_an_expression_of_another() {
    let mut one = SymbolTable::new();
    let mut two = SymbolTable::new();
    let z = Symbol::new(&mut two, "z");
    let y = Symbol::new(&mut two, "y");
    let x = Symbol::new(&mut one, "x");
    let y1 = Symbol::new(&mut one, "y");
    let e = x / (3 + 5 * -y1 - (-x.pow(4))) + x * y1;
    let text = e.render(&one);
    let taken = two.adopt(e, &one);
    assert_eq!(taken.render(&two), text);
    let x2 = Symbol::new(&mut two, "x");
    assert_eq!(taken, x2 / (3 + 5 * -y - (-x2.pow(4))) + x2 * y);
    assert_eq!(two.resolve(z), "z");
    assert_eq!(two.adopt(Expr::Sum(vec![]), &one), Expr::Sum(vec![]));
    assert_eq!(two.adopt(Expr::Undefined, &one), Expr::Undefined);
}
