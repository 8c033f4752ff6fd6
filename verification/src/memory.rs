//! The sparse memory store: a hash map from address to value that uses the
//! Fx hashing algorithm.
//!
//! Verus knows the standard hash map only for hashers it has been told are
//! well behaved, so the four operations the computer needs are stated here,
//! over the map's view, and believed rather than proved.
use rustc_hash::{FxBuildHasher, FxHashMap};
use vstd::prelude::*;

use crate::machine::Int;

verus! {

/// The hasher factory of `rustc_hash`, which carries no data.
#[verifier::external_type_specification]
#[verifier::external_body]
pub struct ExFxBuildHasher(FxBuildHasher);

/// The store that backs a computer's memory.
pub type Memory = FxHashMap<Int, Int>;

/// Calls `FxHashMap::default`. Claims that a fresh map holds no entry.
#[verifier::external_body]
pub(crate) fn memory_new() -> (store: Memory)
    ensures
        (store@ == Map::<Int, Int>::empty()),
{
    FxHashMap::default()
}

/// Calls `HashMap::get` on a map hashed with `FxBuildHasher`. Claims that
/// the lookup finds exactly the entries of the map's view: `FxHasher` is a
/// pure function of the bytes it is fed, so equal keys hash alike.
#[verifier::external_body]
pub(crate) fn memory_get<'a>(m: &'a Memory, addr: &Int) -> (r: Option<&'a Int>)
    ensures
        match r {
            Some(v) => m@.contains_key(*addr) && *v == m@[*addr],
            None => !m@.contains_key(*addr),
        },
{
    m.get(addr)
}

/// Calls `HashMap::insert` on a map hashed with `FxBuildHasher`. Claims
/// that afterwards `addr` maps to `value` and every other entry is as it
/// was.
#[verifier::external_body]
pub(crate) fn memory_insert(m: &mut Memory, addr: Int, value: Int)
    ensures
        final(m)@ == old(m)@.insert(addr, value),
{
    m.insert(addr, value);
}

/// Calls `HashMap::clone` on a map hashed with `FxBuildHasher`. Claims that
/// the copy holds the same entries.
#[verifier::external_body]
pub(crate) fn memory_clone(m: &Memory) -> (r: Memory)
    ensures
        r@ == m@,
{
    m.clone()
}

} // verus!
