//! The name pool behind the symbol table: `symtern`'s hash-based interner.
//!
//! What this file says of the pool is not proved: it states what the pool
//! does, as its source shows it, so that the table built on it can be.

use symtern::traits::{Intern, Resolve};
use vstd::prelude::*;

verus! {

/// A `symtern::Pool<str, u32>`: names stored in the order in which they
/// arrived, found again through a 64-bit hash of the name.
#[verifier::external_body]
pub struct NamePool {
    inner: symtern::Pool<str, u32>,
}

/// A `symtern::Sym<u32>`, the handle that a [`NamePool`] hands out for a
/// name. It can be copied and compared, and nothing else.
#[verifier::external_body]
#[derive(Debug)]
pub struct PoolHandle {
    inner: symtern::Sym<u32>,
}

impl Clone for PoolHandle {
    fn clone(&self) -> (r: PoolHandle)
        ensures
            r == *self,
    {
        *self
    }
}

impl Copy for PoolHandle {

}

/// `symtern::Error`, the error of a pool that has no identifier left.
#[verifier::external_type_specification]
#[verifier::external_body]
pub struct ExPoolError(symtern::Error);

/// The handles that resolve on a pool, each with the name stored for it.
pub uninterp spec fn pool_entries(pool: NamePool) -> Map<PoolHandle, Seq<char>>;

/// Whether some handle of `entries` stands for `name`.
pub open spec fn pool_holds(entries: Map<PoolHandle, Seq<char>>, name: Seq<char>) -> bool {
    exists|h: PoolHandle| entries.contains_pair(h, name)
}

/// `Pool::new`: a pool on which no handle resolves.
#[verifier::external_body]
pub(crate) fn pool_new() -> (pool: NamePool)
    ensures
        pool_entries(pool).dom().is_empty(),
{
    NamePool { inner: symtern::Pool::new() }
}

/// `Intern::intern` on the pool.
///
/// The pool looks the name up by its hash alone and never compares the
/// stored text. So a call ends in one of three ways:
/// - it hands back a handle that resolved before the call, and the pool is
///   as it was: the handle of `name` if `name` is stored, else that of a
///   stored name with the same hash;
/// - `name` was not stored, and is now, under a handle that did not resolve
///   before;
/// - `name` was not stored, the pool is full, and the call fails.
#[verifier::external_body]
pub(crate) fn pool_intern(pool: &mut NamePool, name: &str) -> (r: Result<
    PoolHandle,
    symtern::Error,
>)
    ensures
        match r {
            Ok(h) => {
                ||| (pool_entries(*final(pool)) == pool_entries(*old(pool))
                        && pool_entries(*old(pool)).contains_key(h)
                        && (pool_holds(pool_entries(*old(pool)), name@)
                            ==> pool_entries(*old(pool))[h] == name@))
                ||| (!pool_holds(pool_entries(*old(pool)), name@)
                        && !pool_entries(*old(pool)).contains_key(h)
                        && pool_entries(*final(pool)) == pool_entries(*old(pool)).insert(h, name@))
            },
            Err(_) => pool_entries(*final(pool)) == pool_entries(*old(pool))
                && !pool_holds(pool_entries(*old(pool)), name@),
        },
{
    match (&mut pool.inner).intern(name) {
        Ok(s) => Ok(PoolHandle { inner: s }),
        Err(e) => Err(e),
    }
}

/// `Resolve::resolve` on the pool, for a handle that resolves on it: the
/// stored name, copied out.
#[verifier::external_body]
pub(crate) fn pool_resolve(pool: &NamePool, h: PoolHandle) -> (r: Result<String, symtern::Error>)
    requires
        pool_entries(*pool).contains_key(h),
    ensures
        r is Ok,
        r->Ok_0@ == pool_entries(*pool)[h],
{
    match (&pool.inner).resolve(h.inner) {
        Ok(s) => Ok(s.to_owned()),
        Err(e) => Err(e),
    }
}

impl PartialEq for PoolHandle {
    /// `==` on two handles: `symtern` derives it, so it holds exactly when
    /// the two are the same value.
    #[verifier::external_body]
    fn eq(&self, other: &PoolHandle) -> (r: bool)
        ensures
            r == (*self == *other),
    {
        self.inner == other.inner
    }
}

impl Eq for PoolHandle {

}

} // verus!
