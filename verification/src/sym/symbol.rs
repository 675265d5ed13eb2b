//! Symbols and the table that interns them.

use super::pool::{
    pool_entries, pool_holds, pool_intern, pool_new, pool_resolve, NamePool, PoolHandle,
};
use vstd::prelude::*;

verus! {

/// The name of a variable, as a cheap handle into a [`SymbolTable`].
///
/// A handle is made by [`SymbolTable::intern`] and means something only to
/// the table that made it.
#[derive(Clone, Copy, Debug)]
pub struct Symbol {
    slot: Slot,
}

/// Where a table keeps a name.
#[derive(Clone, Copy, Debug)]
enum Slot {
    /// In the pool, under this handle.
    Pooled(PoolHandle),
    /// In the spill list, at this place.
    Spilled(usize),
}

/// Whether some handle of `names` stands for `name`.
pub open spec fn knows(names: Map<Symbol, Seq<char>>, name: Seq<char>) -> bool {
    exists|s: Symbol| names.contains_pair(s, name)
}

/// No two handles of `names` stand for the same name.
pub open spec fn one_handle_per_name(names: Map<Symbol, Seq<char>>) -> bool {
    forall|a: Symbol, b: Symbol|
        names.contains_key(a) && names.contains_key(b) && names[a] == names[b] ==> a == b
}

/// Every handle of `before` is one of `after`, with the same name.
pub open spec fn grown_from(after: Map<Symbol, Seq<char>>, before: Map<Symbol, Seq<char>>) -> bool {
    forall|s: Symbol| before.contains_key(s) ==> after.contains_pair(s, before[s])
}

/// Giving a name that had no handle one handle keeps names at one handle each.
proof fn lemma_insert_unknown(names: Map<Symbol, Seq<char>>, sym: Symbol, name: Seq<char>)
    requires
        one_handle_per_name(names),
        !knows(names, name),
    ensures
        one_handle_per_name(names.insert(sym, name)),
{
    let after = names.insert(sym, name);
    assert forall|a: Symbol, b: Symbol|
        after.contains_key(a) && after.contains_key(b) && after[a] == after[b] implies a == b by {
        if a != sym && b == sym {
            assert(names.contains_pair(a, name));
        }
        if a == sym && b != sym {
            assert(names.contains_pair(b, name));
        }
    }
}

/// An interning table: each name has one handle, for as long as the table
/// lives.
///
/// Names go to a hash-based pool. The pool finds a name by its hash alone,
/// so it may answer with the handle of another name, and it holds a bounded
/// number of names. A name that it cannot take is kept in `spill`, which is
/// searched first.
pub struct SymbolTable {
    pool: NamePool,
    spill: Vec<String>,
}

impl View for SymbolTable {
    type V = Map<Symbol, Seq<char>>;

    /// The handles of the table, each with its name.
    closed spec fn view(&self) -> Map<Symbol, Seq<char>> {
        Map::new(
            |s: Symbol|
                match s.slot {
                    Slot::Pooled(h) => pool_entries(self.pool).contains_key(h),
                    Slot::Spilled(i) => i < self.spill.len(),
                },
            |s: Symbol|
                match s.slot {
                    Slot::Pooled(h) => pool_entries(self.pool)[h],
                    Slot::Spilled(i) => self.spill[i as int]@,
                },
        )
    }
}

impl SymbolTable {
    /// The table's invariant: no name has two handles.
    pub open spec fn wf(&self) -> bool {
        one_handle_per_name(self@)
    }

    /// An empty table.
    pub fn new() -> (table: SymbolTable)
        ensures
            table.wf(),
            table@ == Map::<Symbol, Seq<char>>::empty(),
    {
        let table = SymbolTable { pool: pool_new(), spill: Vec::new() };
        assert(table@ =~= Map::<Symbol, Seq<char>>::empty());
        table
    }

    /// The place of `name` in the spill list, if it is there.
    fn find_spilled(&self, name: &str) -> (r: Option<usize>)
        ensures
            match r {
                Some(i) => i < self.spill.len() && self.spill[i as int]@ == name@,
                None => forall|i: int| 0 <= i < self.spill.len() ==> self.spill[i]@ != name@,
            },
    {
        let wanted = name.to_owned();
        let mut i: usize = 0;
        while i < self.spill.len()
            invariant
                i <= self.spill.len(),
                wanted@ == name@,
                forall|j: int| 0 <= j < i ==> self.spill[j]@ != name@,
            decreases self.spill.len() - i,
        {
            if self.spill[i] == wanted {
                return Some(i);
            }
            i += 1;
        }
        None
    }

    /// What interning `name` does to the table `self`: it hands out `sym`
    /// and leaves the table as `after`. A name that has a handle keeps it,
    /// and the table is unchanged; a name that has none gets a handle that
    /// the table did not have, and nothing else changes.
    pub open spec fn interned(self, name: Seq<char>, after: SymbolTable, sym: Symbol) -> bool {
        &&& after.wf()
        &&& after@.contains_pair(sym, name)
        &&& knows(self@, name) ==> after@ == self@
        &&& !knows(self@, name) ==> !self@.contains_key(sym) && after@ == self@.insert(sym, name)
    }

    /// The handle of `name`: the one it has, or a new one if it has none.
    pub fn intern(&mut self, name: &str) -> (sym: Symbol)
        requires
            old(self).wf(),
        ensures
            old(self).interned(name@, *final(self), sym),
    {
        if let Some(i) = self.find_spilled(name) {
            let sym = Symbol { slot: Slot::Spilled(i) };
            assert(old(self)@.contains_pair(sym, name@));
            return sym;
        }
        let ghost before = pool_entries(self.pool);
        let taken = pool_intern(&mut self.pool, name);
        proof {
            // The spill list does not hold `name`, so the table knows it
            // exactly when the pool held it.
            if knows(old(self)@, name@) {
                let s = choose|s: Symbol| old(self)@.contains_pair(s, name@);
                match s.slot {
                    Slot::Pooled(g) => {
                        assert(before.contains_pair(g, name@));
                    },
                    Slot::Spilled(_) => {},
                }
            }
            if pool_holds(before, name@) {
                let g = choose|g: PoolHandle| before.contains_pair(g, name@);
                assert(old(self)@.contains_pair(Symbol { slot: Slot::Pooled(g) }, name@));
            }
            assert(knows(old(self)@, name@) == pool_holds(before, name@));
        }
        if let Ok(h) = taken {
            let stored = pool_resolve(&self.pool, h).unwrap();
            if stored == name.to_owned() {
                let sym = Symbol { slot: Slot::Pooled(h) };
                proof {
                    if before.contains_key(h) && pool_entries(self.pool) == before {
                        assert(self@ =~= old(self)@);
                        assert(old(self)@.contains_pair(sym, name@));
                    } else {
                        assert(self@ =~= old(self)@.insert(sym, name@));
                        lemma_insert_unknown(old(self)@, sym, name@);
                    }
                }
                return sym;
            }
        }
        assert(self@ =~= old(self)@);
        let sym = Symbol { slot: Slot::Spilled(self.spill.len()) };
        self.spill.push(name.to_owned());
        proof {
            assert(self@ =~= old(self)@.insert(sym, name@));
            lemma_insert_unknown(old(self)@, sym, name@);
        }
        sym
    }

    /// The name that `sym` stands for.
    pub fn resolve(&self, sym: Symbol) -> (name: String)
        requires
            self@.contains_key(sym),
        ensures
            name@ == self@[sym],
    {
        match sym.slot {
            Slot::Pooled(h) => pool_resolve(&self.pool, h).unwrap(),
            Slot::Spilled(i) => self.spill[i].clone(),
        }
    }
}

/// Resolving what interning handed out gives the name back: after `name`
/// is interned, its handle is a handle of the table, and stands for `name`.
pub proof fn lemma_resolve_interned(
    before: SymbolTable,
    name: Seq<char>,
    after: SymbolTable,
    sym: Symbol,
)
    requires
        before.interned(name, after, sym),
    ensures
        after@.contains_key(sym),
        after@[sym] == name,
{
}

/// Interning only adds: every handle of the table before is one of the
/// table after, with the same name.
pub proof fn lemma_interned_grows(
    before: SymbolTable,
    name: Seq<char>,
    after: SymbolTable,
    sym: Symbol,
)
    requires
        before.interned(name, after, sym),
    ensures
        grown_from(after@, before@),
{
}

/// Two names are the same text exactly when interning them, one after the
/// other, hands out the same handle.
pub proof fn lemma_intern_twice(
    start: SymbolTable,
    first: Seq<char>,
    between: SymbolTable,
    a: Symbol,
    second: Seq<char>,
    end: SymbolTable,
    b: Symbol,
)
    requires
        start.interned(first, between, a),
        between.interned(second, end, b),
    ensures
        first == second <==> a == b,
{
    // The first handle is still there after the second name is interned.
    assert(between@.contains_pair(a, first));
    assert(end@.contains_pair(a, first));
}

/// In a table, and in whatever it grows into, two handles are the same
/// exactly when their names are: if `a` is a handle of `table`, `b` one of
/// `later`, and `later` has grown from `table`, then `a == b` exactly when
/// the name of `a` is the name of `b`.
pub proof fn lemma_one_symbol_per_name(
    table: SymbolTable,
    later: SymbolTable,
    a: Symbol,
    b: Symbol,
)
    requires
        later.wf(),
        grown_from(later@, table@),
        table@.contains_key(a),
        later@.contains_key(b),
    ensures
        table@[a] == later@[b] <==> a == b,
{
    assert(later@.contains_pair(a, table@[a]));
}

/// Growing is transitive.
pub proof fn lemma_grown_twice(
    first: Map<Symbol, Seq<char>>,
    second: Map<Symbol, Seq<char>>,
    third: Map<Symbol, Seq<char>>,
)
    requires
        grown_from(second, first),
        grown_from(third, second),
    ensures
        grown_from(third, first),
{
    assert forall|s: Symbol| first.contains_key(s) implies third.contains_pair(s, first[s]) by {
        assert(second.contains_pair(s, first[s]));
    }
}

impl Default for SymbolTable {
    /// An empty table.
    fn default() -> (table: SymbolTable)
        ensures
            table.wf(),
            table@ == Map::<Symbol, Seq<char>>::empty(),
    {
        SymbolTable::new()
    }
}

impl PartialEq for Symbol {
    fn eq(&self, other: &Symbol) -> (r: bool) {
        match (self.slot, other.slot) {
            (Slot::Pooled(a), Slot::Pooled(b)) => a == b,
            (Slot::Spilled(i), Slot::Spilled(j)) => i == j,
            _ => false,
        }
    }
}

impl Eq for Symbol {

}

impl vstd::std_specs::cmp::PartialEqSpecImpl for Symbol {
    open spec fn obeys_eq_spec() -> bool {
        true
    }

    open spec fn eq_spec(&self, other: &Symbol) -> bool {
        *self == *other
    }
}

} // verus!
