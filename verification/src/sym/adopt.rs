//! Taking an expression over from one table into another.

use super::expr::{lemma_grown_keeps, Expr, Tree};
use super::symbol::{grown_from, knows, lemma_grown_twice, Symbol, SymbolTable};
use vstd::prelude::*;

verus! {

/// What a table has learned from a tree: every handle of `before` is one of
/// `after`, with the same name, and the names that `after` knows are those
/// that `before` knew and those of the symbols of `tree`.
pub open spec fn learned(
    before: Map<Symbol, Seq<char>>,
    after: Map<Symbol, Seq<char>>,
    tree: Tree,
) -> bool {
    &&& grown_from(after, before)
    &&& forall|name: Seq<char>| #[trigger]
        knows(after, name) <==> knows(before, name) || tree.mentions(name)
}

/// As [`learned`], of the first `count` of the trees `trees`.
pub open spec fn learned_some(
    before: Map<Symbol, Seq<char>>,
    after: Map<Symbol, Seq<char>>,
    trees: Seq<Tree>,
    count: int,
) -> bool {
    &&& grown_from(after, before)
    &&& forall|name: Seq<char>| #[trigger]
        knows(after, name) <==> knows(before, name) || Tree::mention(trees.take(count), name)
}

/// A table that learns from one tree and then from another has learned
/// from both.
proof fn lemma_learned_both(
    first: Map<Symbol, Seq<char>>,
    second: Map<Symbol, Seq<char>>,
    third: Map<Symbol, Seq<char>>,
    a: Tree,
    b: Tree,
    both: Tree,
)
    requires
        learned(first, second, a),
        learned(second, third, b),
        forall|name: Seq<char>| #[trigger]
            both.mentions(name) <==> a.mentions(name) || b.mentions(name),
    ensures
        learned(first, third, both),
{
    lemma_grown_twice(first, second, third);
    assert forall|name: Seq<char>| #[trigger]
        knows(third, name) <==> knows(first, name) || both.mentions(name) by {
        assert(knows(second, name) <==> knows(first, name) || a.mentions(name));
        assert(knows(third, name) <==> knows(second, name) || b.mentions(name));
        assert(both.mentions(name) <==> a.mentions(name) || b.mentions(name));
    }
}

/// A table that has learned from the first trees of a sequence and learns
/// from the next has learned from one more.
proof fn lemma_learned_next(
    first: Map<Symbol, Seq<char>>,
    second: Map<Symbol, Seq<char>>,
    third: Map<Symbol, Seq<char>>,
    trees: Seq<Tree>,
    count: int,
)
    requires
        0 <= count < trees.len(),
        learned_some(first, second, trees, count),
        learned(second, third, trees[count]),
    ensures
        learned_some(first, third, trees, count + 1),
{
    lemma_grown_twice(first, second, third);
    let less = trees.take(count);
    let more = trees.take(count + 1);
    assert forall|name: Seq<char>| #[trigger]
        knows(third, name) <==> knows(first, name) || Tree::mention(more, name) by {
        assert(knows(second, name) <==> knows(first, name) || Tree::mention(less, name));
        assert(knows(third, name) <==> knows(second, name) || trees[count].mentions(name));
        if Tree::mention(less, name) {
            let i = choose|i: int| 0 <= i < less.len() && (#[trigger] less[i]).mentions(name);
            assert(more[i].mentions(name));
        }
        if trees[count].mentions(name) {
            assert(more[count].mentions(name));
        }
        if Tree::mention(more, name) {
            let i = choose|i: int| 0 <= i < more.len() && (#[trigger] more[i]).mentions(name);
            if i < count {
                assert(less[i].mentions(name));
            }
        }
    }
}

/// The items of `items`, the last first.
fn reversed(items: Vec<Expr>) -> (r: Vec<Expr>)
    ensures
        r@ == items@.reverse(),
{
    let ghost given = items@;
    let mut rest = items;
    let mut r: Vec<Expr> = Vec::new();
    while rest.len() > 0
        invariant
            r.len() + rest.len() == given.len(),
            forall|j: int| 0 <= j < rest.len() ==> rest[j] == given[j],
            forall|j: int| 0 <= j < r.len() ==> r[j] == given[given.len() - 1 - j],
        decreases rest.len(),
    {
        let item = rest.pop().unwrap();
        r.push(item);
    }
    assert(r@ =~= given.reverse());
    r
}

impl SymbolTable {
    /// Takes over an expression that was made with the table `from`: the
    /// same expression with its symbols interned in `self`.
    ///
    /// It says in `self` what `e` said in `from`, and `self` has learned
    /// the names of its symbols and no other.
    pub fn adopt(&mut self, e: Expr, from: &SymbolTable) -> (r: Expr)
        requires
            old(self).wf(),
            e.bound_in(from@),
        ensures
            final(self).wf(),
            r.bound_in(final(self)@),
            r.tree(final(self)@) == e.tree(from@),
            learned(old(self)@, final(self)@, e.tree(from@)),
        decreases e,
    {
        match e {
            Expr::Integer(i) => Expr::Integer(i),
            Expr::Approx(d) => Expr::Approx(d),
            Expr::Undefined => Expr::Undefined,
            Expr::Sym(s) => {
                let name = from.resolve(s);
                let sym = self.intern(name.as_str());
                proof {
                    let tree = e.tree(from@);
                    assert forall|n: Seq<char>| #[trigger]
                        knows(self@, n) <==> knows(old(self)@, n) || tree.mentions(n) by {
                        if knows(self@, n) && n != name@ {
                            let other = choose|other: Symbol| self@.contains_pair(other, n);
                            assert(old(self)@.contains_pair(other, n));
                        }
                        if knows(old(self)@, n) {
                            let other = choose|other: Symbol| old(self)@.contains_pair(other, n);
                            assert(self@.contains_pair(other, n));
                        }
                        if n == name@ {
                            assert(self@.contains_pair(sym, n));
                        }
                    }
                }
                Expr::Sym(sym)
            },
            Expr::Neg(inner) => {
                let inner = self.adopt(*inner, from);
                Expr::Neg(Box::new(inner))
            },
            Expr::Sum(args) => {
                let ghost trees = Expr::trees(args@, from@);
                let taken = self.adopt_all(args, from);
                proof {
                    assert(trees.take(trees.len() as int) =~= trees);
                }
                Expr::Sum(taken)
            },
            Expr::Product(args) => {
                let ghost trees = Expr::trees(args@, from@);
                let taken = self.adopt_all(args, from);
                proof {
                    assert(trees.take(trees.len() as int) =~= trees);
                }
                Expr::Product(taken)
            },
            Expr::Ratio(a, b) => {
                let ghost first = a.tree(from@);
                let ghost second = b.tree(from@);
                let a = self.adopt(*a, from);
                let ghost mid = self@;
                let b = self.adopt(*b, from);
                proof {
                    lemma_grown_keeps(a, mid, self@);
                    lemma_learned_both(old(self)@, mid, self@, first, second, e.tree(from@));
                }
                Expr::Ratio(Box::new(a), Box::new(b))
            },
            Expr::Pow(a, b) => {
                let ghost first = a.tree(from@);
                let ghost second = b.tree(from@);
                let a = self.adopt(*a, from);
                let ghost mid = self@;
                let b = self.adopt(*b, from);
                proof {
                    lemma_grown_keeps(a, mid, self@);
                    lemma_learned_both(old(self)@, mid, self@, first, second, e.tree(from@));
                }
                Expr::Pow(Box::new(a), Box::new(b))
            },
        }
    }

    /// Takes over each of `args`, in order.
    fn adopt_all(&mut self, args: Vec<Expr>, from: &SymbolTable) -> (r: Vec<Expr>)
        requires
            old(self).wf(),
            Expr::all_bound(args@, from@),
        ensures
            final(self).wf(),
            Expr::all_bound(r@, final(self)@),
            Expr::trees(r@, final(self)@) == Expr::trees(args@, from@),
            learned_some(
                old(self)@,
                final(self)@,
                Expr::trees(args@, from@),
                args.len() as int,
            ),
        decreases args,
    {
        let ghost trees = Expr::trees(args@, from@);
        let ghost given = args@;
        let mut taken: Vec<Expr> = Vec::new();
        let mut rest = reversed(args);
        proof {
            assert forall|name: Seq<char>| #[trigger]
                knows(self@, name) <==> knows(old(self)@, name) || Tree::mention(
                    trees.take(0),
                    name,
                ) by {}
        }
        while rest.len() > 0
            invariant
                self.wf(),
                taken.len() + rest.len() == given.len(),
                trees == Expr::trees(given, from@),
                Expr::all_bound(given, from@),
                forall|j: int| 0 <= j < rest.len() ==> rest[j] == given[given.len() - 1 - j],
                forall|j: int|
                    0 <= j < taken.len() ==> (#[trigger] taken[j]).bound_in(self@) && taken[j].tree(
                        self@,
                    ) == trees[j],
                learned_some(old(self)@, self@, trees, taken.len() as int),
                forall|j: int| 0 <= j < given.len() ==> decreases_to!(args => given[j]),
            decreases rest.len(),
        {
            let ghost mid = self@;
            let ghost done = taken@;
            let i = taken.len();
            let item = rest.pop().unwrap();
            assert(item == given[i as int]);
            assert(given[i as int].bound_in(from@));
            let moved = self.adopt(item, from);
            proof {
                assert(trees[i as int] == given[i as int].tree(from@));
                assert forall|j: int| 0 <= j < done.len() implies (#[trigger] done[j]).bound_in(
                    self@,
                ) && done[j].tree(self@) == trees[j] by {
                    lemma_grown_keeps(done[j], mid, self@);
                }
                lemma_learned_next(old(self)@, mid, self@, trees, i as int);
            }
            taken.push(moved);
        }
        proof {
            assert(Expr::trees(taken@, self@) =~= trees);
        }
        taken
    }
}

} // verus!
