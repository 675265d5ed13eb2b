//! The printer: an expression as infix text, with no more parentheses than
//! the ranks of its kinds ask for.

use super::decimal::decimal_text;
use super::expr::{Expr, Tree};
use super::integer::{bigint_to_text, integer_text};
use super::symbol::SymbolTable;
use vstd::prelude::*;

verus! {

/// The texts `parts` in order, with `sep` between each two.
pub open spec fn joined(parts: Seq<Seq<char>>, sep: Seq<char>) -> Seq<char>
    decreases parts.len(),
{
    if parts.len() == 0 {
        Seq::empty()
    } else if parts.len() == 1 {
        parts[0]
    } else {
        joined(parts.drop_last(), sep) + sep + parts.last()
    }
}

/// The text of a child of rank `rank` under a parent of rank `parent`:
/// bare if the child ranks strictly lower, else in parentheses.
pub open spec fn grouped(text: Seq<char>, rank: int, parent: int) -> Seq<char> {
    if rank < parent {
        text
    } else {
        seq!['('] + text + seq![')']
    }
}

/// The text of an undefined value.
pub open spec fn undefined_text() -> Seq<char> {
    seq!['U', 'n', 'd', 'e', 'f', 'i', 'n', 'e', 'd']
}

/// An operator sign with a space on either side.
pub open spec fn spaced(sign: char) -> Seq<char> {
    seq![' ', sign, ' ']
}

impl Tree {
    /// The tree as infix text.
    pub open spec fn text(self) -> Seq<char>
        decreases self,
    {
        match self {
            Tree::Undefined => undefined_text(),
            Tree::Integer(v) => integer_text(v),
            Tree::Sym(name) => name,
            Tree::Approx(d) => decimal_text(d),
            Tree::Neg(e) => seq!['-'] + grouped(e.text(), e.rank(), 3),
            Tree::Sum(args) => joined(Tree::pieces(args, 5), spaced('+')),
            Tree::Product(args) => joined(Tree::pieces(args, 4), spaced('*')),
            Tree::Ratio(n, d) => grouped(n.text(), n.rank(), 4) + spaced('/') + grouped(
                d.text(),
                d.rank(),
                4,
            ),
            Tree::Pow(b, p) => grouped(b.text(), b.rank(), 2) + spaced('^') + grouped(
                p.text(),
                p.rank(),
                2,
            ),
        }
    }

    /// The text of each of `args` as a child of a parent of rank `parent`.
    pub open spec fn pieces(args: Seq<Tree>, parent: int) -> Seq<Seq<char>>
        decreases args,
    {
        Seq::new(
            args.len(),
            |i: int|
                if 0 <= i < args.len() {
                    grouped(args[i].text(), args[i].rank(), parent)
                } else {
                    Seq::empty()
                },
        )
    }
}

/// The views of the texts `parts`.
pub open spec fn views(parts: Seq<String>) -> Seq<Seq<char>> {
    Seq::new(parts.len(), |i: int| parts[i]@)
}

/// `Itertools::join` over the texts: each of them in order, with `sep`
/// between each two, and nothing for no text.
#[verifier::external_body]
fn join_texts(parts: &Vec<String>, sep: &str) -> (text: String)
    ensures
        text@ == joined(views(parts@), sep@),
{
    itertools::Itertools::join(&mut parts.iter(), sep)
}

impl Expr {
    /// The expression as infix text, its symbols read in `table`.
    ///
    /// A child is put in parentheses unless its kind ranks strictly lower
    /// than its parent's.
    pub fn render(&self, table: &SymbolTable) -> (text: String)
        requires
            self.bound_in(table@),
        ensures
            text@ == self.tree(table@).text(),
        decreases self, 1int,
    {
        match self {
            Expr::Undefined => {
                proof {
                    reveal_strlit("Undefined");
                }
                let text = "Undefined".to_owned();
                assert(text@ =~= undefined_text());
                text
            },
            Expr::Integer(i) => bigint_to_text(i),
            Expr::Sym(s) => table.resolve(*s),
            Expr::Approx(d) => d.to_text(),
            Expr::Neg(e) => {
                proof {
                    reveal_strlit("-");
                }
                let mut text = "-".to_owned();
                let inner = render_child(e, 3, table);
                text.append(inner.as_str());
                assert(text@ =~= self.tree(table@).text());
                text
            },
            Expr::Sum(args) => {
                proof {
                    reveal_strlit(" + ");
                }
                let parts = render_children(args, 5, table);
                let text = join_texts(&parts, " + ");
                assert(" + "@ =~= spaced('+'));
                text
            },
            Expr::Product(args) => {
                proof {
                    reveal_strlit(" * ");
                }
                let parts = render_children(args, 4, table);
                let text = join_texts(&parts, " * ");
                assert(" * "@ =~= spaced('*'));
                text
            },
            Expr::Ratio(n, d) => {
                proof {
                    reveal_strlit(" / ");
                }
                let mut text = render_child(n, 4, table);
                let right = render_child(d, 4, table);
                text.append(" / ");
                text.append(right.as_str());
                assert(" / "@ =~= spaced('/'));
                text
            },
            Expr::Pow(b, p) => {
                proof {
                    reveal_strlit(" ^ ");
                }
                let mut text = render_child(b, 2, table);
                let right = render_child(p, 2, table);
                text.append(" ^ ");
                text.append(right.as_str());
                assert(" ^ "@ =~= spaced('^'));
                text
            },
        }
    }
}

/// The text of `child` under a parent of rank `parent`.
fn render_child(child: &Expr, parent: i32, table: &SymbolTable) -> (text: String)
    requires
        child.bound_in(table@),
    ensures
        text@ == grouped(child.tree(table@).text(), child.rank(), parent as int),
    decreases child, 2int,
{
    let inner = child.render(table);
    if child.priority_rank() < parent {
        inner
    } else {
        proof {
            reveal_strlit("(");
            reveal_strlit(")");
        }
        let mut text = "(".to_owned();
        text.append(inner.as_str());
        text.append(")");
        assert(text@ =~= seq!['('] + inner@ + seq![')']);
        text
    }
}

/// The text of each of `args` under a parent of rank `parent`.
fn render_children(args: &Vec<Expr>, parent: i32, table: &SymbolTable) -> (parts: Vec<String>)
    requires
        Expr::all_bound(args@, table@),
    ensures
        views(parts@) == Tree::pieces(Expr::trees(args@, table@), parent as int),
    decreases args, 0int,
{
    let mut parts: Vec<String> = Vec::new();
    let mut i: usize = 0;
    while i < args.len()
        invariant
            i <= args.len(),
            parts.len() == i,
            Expr::all_bound(args@, table@),
            forall|j: int|
                0 <= j < i ==> (#[trigger] parts[j])@ == grouped(
                    args[j].tree(table@).text(),
                    args[j].rank(),
                    parent as int,
                ),
        decreases args.len() - i,
    {
        let piece = render_child(&args[i], parent, table);
        parts.push(piece);
        i += 1;
    }
    proof {
        let trees = Expr::trees(args@, table@);
        assert forall|j: int| 0 <= j < args.len() implies views(parts@)[j] == Tree::pieces(
            trees,
            parent as int,
        )[j] by {
            assert(trees[j] == args[j].tree(table@));
            assert(trees[j].rank() == args[j].rank());
        }
        assert(views(parts@) =~= Tree::pieces(trees, parent as int));
    }
    parts
}

} // verus!
