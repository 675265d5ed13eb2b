//! Expressions: the tree, what it denotes, and how its kinds rank.

use super::decimal::{Decimal, DecimalView};
use super::integer::bigint_value;
use super::symbol::{grown_from, Symbol};
use num::BigInt;
use vstd::prelude::*;

verus! {

/// An owned expression.
#[derive(Debug, PartialEq)]
pub enum Expr {
    /// An integer.
    Integer(BigInt),
    /// A symbol like `x`, `y`, or `delta`.
    Sym(Symbol),
    /// An approximate value.
    Approx(Decimal),
    /// The negative of an expression.
    Neg(Box<Expr>),
    /// A sum of some expressions, like `x + y + z`.
    Sum(Vec<Expr>),
    /// A product of some expressions, like `x * y * z`.
    Product(Vec<Expr>),
    /// A ratio.
    Ratio(Box<Expr>, Box<Expr>),
    /// A power.
    Pow(Box<Expr>, Box<Expr>),
    /// An undefined value.
    Undefined,
}

/// What an expression says, apart from any table: integers as integers,
/// symbols by name, sequences as sequences.
pub enum Tree {
    Integer(int),
    Sym(Seq<char>),
    Approx(DecimalView),
    Neg(Box<Tree>),
    Sum(Seq<Tree>),
    Product(Seq<Tree>),
    Ratio(Box<Tree>, Box<Tree>),
    Pow(Box<Tree>, Box<Tree>),
    Undefined,
}

impl Tree {
    /// The rank of the tree's kind when it is displayed; see
    /// [`Expr::priority_rank`].
    pub open spec fn rank(self) -> int {
        match self {
            Tree::Integer(_) | Tree::Sym(_) | Tree::Approx(_) | Tree::Undefined => 0,
            Tree::Pow(_, _) => 2,
            Tree::Neg(_) => 3,
            Tree::Product(_) | Tree::Ratio(_, _) => 4,
            Tree::Sum(_) => 5,
        }
    }

    /// Whether a symbol of the name `name` stands in the tree.
    pub open spec fn mentions(self, name: Seq<char>) -> bool
        decreases self,
    {
        match self {
            Tree::Integer(_) | Tree::Approx(_) | Tree::Undefined => false,
            Tree::Sym(n) => n == name,
            Tree::Neg(e) => e.mentions(name),
            Tree::Sum(args) | Tree::Product(args) => Tree::mention(args, name),
            Tree::Ratio(a, b) | Tree::Pow(a, b) => a.mentions(name) || b.mentions(name),
        }
    }

    /// Whether a symbol of the name `name` stands in one of `args`.
    pub open spec fn mention(args: Seq<Tree>, name: Seq<char>) -> bool
        decreases args,
    {
        exists|i: int| 0 <= i < args.len() && (#[trigger] args[i]).mentions(name)
    }

    /// `-self`.
    pub open spec fn negated(self) -> Tree {
        Tree::Neg(Box::new(self))
    }

    /// `self + rhs`: a sum takes `rhs` as one more term, anything else
    /// becomes the first of two terms.
    pub open spec fn plus(self, rhs: Tree) -> Tree {
        match self {
            Tree::Sum(terms) => Tree::Sum(terms.push(rhs)),
            _ => Tree::Sum(seq![self, rhs]),
        }
    }

    /// `self - rhs`, which is `self + (-rhs)`.
    pub open spec fn minus(self, rhs: Tree) -> Tree {
        self.plus(rhs.negated())
    }

    /// `self * rhs`: a product takes `rhs` as one more factor, anything else
    /// becomes the first of two factors.
    pub open spec fn times(self, rhs: Tree) -> Tree {
        match self {
            Tree::Product(factors) => Tree::Product(factors.push(rhs)),
            _ => Tree::Product(seq![self, rhs]),
        }
    }

    /// `self / rhs`: always a ratio.
    pub open spec fn over(self, rhs: Tree) -> Tree {
        Tree::Ratio(Box::new(self), Box::new(rhs))
    }

    /// `self ^ rhs`.
    pub open spec fn to_the(self, rhs: Tree) -> Tree {
        Tree::Pow(Box::new(self), Box::new(rhs))
    }
}

impl Expr {
    /// What the expression says when its symbols are read in `names`.
    pub open spec fn tree(self, names: Map<Symbol, Seq<char>>) -> Tree
        decreases self,
    {
        match self {
            Expr::Integer(i) => Tree::Integer(bigint_value(i)),
            Expr::Sym(s) => Tree::Sym(names[s]),
            Expr::Approx(d) => Tree::Approx(d@),
            Expr::Neg(e) => Tree::Neg(Box::new(e.tree(names))),
            Expr::Sum(args) => Tree::Sum(Expr::trees(args@, names)),
            Expr::Product(args) => Tree::Product(Expr::trees(args@, names)),
            Expr::Ratio(n, d) => Tree::Ratio(Box::new(n.tree(names)), Box::new(d.tree(names))),
            Expr::Pow(b, p) => Tree::Pow(Box::new(b.tree(names)), Box::new(p.tree(names))),
            Expr::Undefined => Tree::Undefined,
        }
    }

    /// What each of `args` says, in order.
    pub open spec fn trees(args: Seq<Expr>, names: Map<Symbol, Seq<char>>) -> Seq<Tree>
        decreases args,
    {
        Seq::new(
            args.len(),
            |i: int|
                if 0 <= i < args.len() {
                    args[i].tree(names)
                } else {
                    Tree::Undefined
                },
        )
    }

    /// Every symbol of the expression is a handle of `names`.
    pub open spec fn bound_in(self, names: Map<Symbol, Seq<char>>) -> bool
        decreases self,
    {
        match self {
            Expr::Integer(_) | Expr::Approx(_) | Expr::Undefined => true,
            Expr::Sym(s) => names.contains_key(s),
            Expr::Neg(e) => e.bound_in(names),
            Expr::Sum(args) | Expr::Product(args) => Expr::all_bound(args@, names),
            Expr::Ratio(a, b) | Expr::Pow(a, b) => a.bound_in(names) && b.bound_in(names),
        }
    }

    /// Every symbol of every item of `args` is a handle of `names`.
    pub open spec fn all_bound(args: Seq<Expr>, names: Map<Symbol, Seq<char>>) -> bool
        decreases args,
    {
        forall|i: int| 0 <= i < args.len() ==> (#[trigger] args[i]).bound_in(names)
    }

    /// The rank of the expression's kind; see [`Expr::priority_rank`].
    pub open spec fn rank(self) -> int {
        match self {
            Expr::Integer(_) | Expr::Sym(_) | Expr::Approx(_) | Expr::Undefined => 0,
            Expr::Pow(_, _) => 2,
            Expr::Neg(_) => 3,
            Expr::Product(_) | Expr::Ratio(_, _) => 4,
            Expr::Sum(_) => 5,
        }
    }

    /// Check if the expression is a primitive: an integer, a symbol or an
    /// approximate value.
    pub fn is_primitive(&self) -> (r: bool)
        ensures
            r == (*self is Integer || *self is Sym || *self is Approx),
    {
        match self {
            Expr::Integer(_) | Expr::Sym(_) | Expr::Approx(_) => true,
            _ => false,
        }
    }

    /// Get the priority rank of the expression when it is displayed. A lower
    /// number implies a higher priority.
    ///
    /// The order is as follows, from higher to lower priority:
    ///
    /// - Scalars: `Integer`, `Sym`, `Approx`, `Undefined`.
    /// - `Pow`.
    /// - `Neg`.
    /// - `Product`, `Ratio`.
    /// - `Sum`.
    pub fn priority_rank(&self) -> (r: i32)
        ensures
            r == self.rank(),
    {
        match self {
            Expr::Integer(_) | Expr::Sym(_) | Expr::Approx(_) | Expr::Undefined => 0,
            Expr::Pow(_, _) => 2,
            Expr::Neg(_) => 3,
            Expr::Product(_) | Expr::Ratio(_, _) => 4,
            Expr::Sum(_) => 5,
        }
    }
}

impl Expr {
    /// `self` and `other` say the same thing when their symbols are read in
    /// `names`, and have their symbols in `names` or not alike.
    pub open spec fn reads_as(self, other: Expr, names: Map<Symbol, Seq<char>>) -> bool {
        self.tree(names) == other.tree(names) && self.bound_in(names) == other.bound_in(names)
    }
}

impl Clone for Expr {
    /// A copy of the whole tree: in every table it reads as `self` does.
    fn clone(&self) -> (r: Expr)
        ensures
            forall|names: Map<Symbol, Seq<char>>| #[trigger] r.reads_as(*self, names),
        decreases self,
    {
        match self {
            Expr::Integer(i) => Expr::Integer(i.clone()),
            Expr::Sym(s) => Expr::Sym(*s),
            Expr::Approx(d) => Expr::Approx(d.clone()),
            Expr::Neg(e) => {
                let c = (**e).clone();
                assert forall|names: Map<Symbol, Seq<char>>| #[trigger]
                    Expr::Neg(Box::new(c)).reads_as(*self, names) by {
                    assert(c.reads_as(**e, names));
                }
                Expr::Neg(Box::new(c))
            },
            Expr::Sum(args) => {
                let copies = clone_all(args);
                assert forall|names: Map<Symbol, Seq<char>>| #[trigger]
                    Expr::Sum(copies).reads_as(*self, names) by {
                    assert(all_read_as(copies@, args@, names));
                }
                Expr::Sum(copies)
            },
            Expr::Product(args) => {
                let copies = clone_all(args);
                assert forall|names: Map<Symbol, Seq<char>>| #[trigger]
                    Expr::Product(copies).reads_as(*self, names) by {
                    assert(all_read_as(copies@, args@, names));
                }
                Expr::Product(copies)
            },
            Expr::Ratio(n, d) => {
                let a = (**n).clone();
                let b = (**d).clone();
                assert forall|names: Map<Symbol, Seq<char>>| #[trigger]
                    Expr::Ratio(Box::new(a), Box::new(b)).reads_as(*self, names) by {
                    assert(a.reads_as(**n, names));
                    assert(b.reads_as(**d, names));
                }
                Expr::Ratio(Box::new(a), Box::new(b))
            },
            Expr::Pow(n, d) => {
                let a = (**n).clone();
                let b = (**d).clone();
                assert forall|names: Map<Symbol, Seq<char>>| #[trigger]
                    Expr::Pow(Box::new(a), Box::new(b)).reads_as(*self, names) by {
                    assert(a.reads_as(**n, names));
                    assert(b.reads_as(**d, names));
                }
                Expr::Pow(Box::new(a), Box::new(b))
            },
            Expr::Undefined => Expr::Undefined,
        }
    }
}

/// The ranks follow the precedence of the operators: a power binds tighter
/// than a negative, a negative tighter than a product or a ratio, these
/// two alike, and both tighter than a sum; a primitive ranks below every
/// composite.
pub proof fn lemma_rank_order(
    primitive: Expr,
    pow: Expr,
    neg: Expr,
    product: Expr,
    ratio: Expr,
    sum: Expr,
)
    requires
        primitive is Integer || primitive is Sym || primitive is Approx,
        pow is Pow,
        neg is Neg,
        product is Product,
        ratio is Ratio,
        sum is Sum,
    ensures
        primitive.rank() < pow.rank() < neg.rank() < product.rank() == ratio.rank() < sum.rank(),
{
}

/// An expression and the tree it says rank alike, in every table.
pub proof fn lemma_rank_of_tree(e: Expr, names: Map<Symbol, Seq<char>>)
    ensures
        e.tree(names).rank() == e.rank(),
{
}

/// An expression keeps what it says while the table grows: if its symbols
/// are handles of `before`, and `after` holds every handle of `before` with
/// the same name, then it says in `after` what it said in `before`.
pub proof fn lemma_grown_keeps(e: Expr, before: Map<Symbol, Seq<char>>, after: Map<Symbol, Seq<char>>)
    requires
        e.bound_in(before),
        grown_from(after, before),
    ensures
        e.bound_in(after),
        e.tree(after) == e.tree(before),
    decreases e,
{
    match e {
        Expr::Integer(_) | Expr::Approx(_) | Expr::Undefined => {},
        Expr::Sym(s) => {
            assert(after.contains_pair(s, before[s]));
        },
        Expr::Neg(inner) => {
            lemma_grown_keeps(*inner, before, after);
        },
        Expr::Sum(args) | Expr::Product(args) => {
            assert(Expr::all_bound(args@, before));
            assert forall|i: int| 0 <= i < args.len() implies (#[trigger] args@[i]).bound_in(after)
                && args@[i].tree(after) == args@[i].tree(before) by {
                assert(args@[i].bound_in(before));
                lemma_grown_keeps(args@[i], before, after);
            }
            assert(Expr::all_bound(args@, after));
            assert(Expr::trees(args@, after) =~= Expr::trees(args@, before));
        },
        Expr::Ratio(a, b) | Expr::Pow(a, b) => {
            lemma_grown_keeps(*a, before, after);
            lemma_grown_keeps(*b, before, after);
        },
    }
}

/// The items of `a` and of `b` read alike in `names`, place by place.
pub open spec fn all_read_as(a: Seq<Expr>, b: Seq<Expr>, names: Map<Symbol, Seq<char>>) -> bool {
    &&& a.len() == b.len()
    &&& Expr::trees(a, names) == Expr::trees(b, names)
    &&& Expr::all_bound(a, names) == Expr::all_bound(b, names)
}

/// Sequences whose items read alike, place by place, read alike.
proof fn lemma_all_read_as(a: Seq<Expr>, b: Seq<Expr>, names: Map<Symbol, Seq<char>>)
    requires
        a.len() == b.len(),
        forall|i: int| 0 <= i < a.len() ==> (#[trigger] a[i]).reads_as(b[i], names),
    ensures
        all_read_as(a, b, names),
{
    assert(Expr::trees(a, names) =~= Expr::trees(b, names));
    if Expr::all_bound(a, names) {
        assert forall|i: int| 0 <= i < b.len() implies (#[trigger] b[i]).bound_in(names) by {
            assert(a[i].reads_as(b[i], names));
        }
    }
    if Expr::all_bound(b, names) {
        assert forall|i: int| 0 <= i < a.len() implies (#[trigger] a[i]).bound_in(names) by {
            assert(a[i].reads_as(b[i], names));
        }
    }
}

/// A copy of each of `args`, in order.
fn clone_all(args: &Vec<Expr>) -> (r: Vec<Expr>)
    ensures
        forall|names: Map<Symbol, Seq<char>>| #[trigger] all_read_as(r@, args@, names),
    decreases args,
{
    let mut out: Vec<Expr> = Vec::new();
    let mut i: usize = 0;
    while i < args.len()
        invariant
            i <= args.len(),
            out.len() == i,
            forall|names: Map<Symbol, Seq<char>>, j: int|
                0 <= j < i ==> #[trigger] out[j].reads_as(args[j], names),
        decreases args.len() - i,
    {
        let item = args[i].clone();
        out.push(item);
        i += 1;
    }
    assert forall|names: Map<Symbol, Seq<char>>| #[trigger] all_read_as(out@, args@, names) by {
        assert forall|k: int| 0 <= k < out.len() implies (#[trigger] out@[k]).reads_as(
            args@[k],
            names,
        ) by {
            assert(out[k].reads_as(args[k], names));
        }
        lemma_all_read_as(out@, args@, names);
    }
    out
}

} // verus!
