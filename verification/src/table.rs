//! The active table: a hash map from endpoint keys to thread ids.
//!
//! The table is the standard hash map with the hasher of `rustc_hash`. That
//! hasher has no state of its own: every hasher that `FxBuildHasher` builds
//! starts alike and hashes a key to the same number. So the map behaves as
//! the map that is its view, and the functions below say so of the three
//! methods that the server calls.

use rustc_hash::FxBuildHasher;
use rustc_hash::FxHashMap;
use vstd::prelude::*;

verus! {

/// The hasher factory of `rustc_hash`; the map carries it as its third parameter.
#[verifier::external_type_specification]
#[verifier::external_body]
pub struct ExFxBuildHasher(FxBuildHasher);

/// `FxHashMap::insert`: the key maps to the value afterwards, every other
/// entry stays, and the value that the key had before comes back.
#[verifier::external_body]
pub(crate) fn table_insert(table: &mut FxHashMap<u64, u64>, key: u64, value: u64) -> (displaced: Option<u64>)
    ensures
        final(table)@ == old(table)@.insert(key, value),
        displaced == (if old(table)@.contains_key(key) {
            Some(old(table)@[key])
        } else {
            None
        }),
{
    table.insert(key, value)
}

/// `FxHashMap::get`: the value filed under the key, if there is one.
#[verifier::external_body]
pub(crate) fn table_get(table: &FxHashMap<u64, u64>, key: u64) -> (found: Option<u64>)
    ensures
        found == (if table@.contains_key(key) {
            Some(table@[key])
        } else {
            None
        }),
{
    table.get(&key).copied()
}

/// `FxHashMap::remove`: the key has no entry afterwards, every other entry
/// stays, and the value that the key had comes back.
#[verifier::external_body]
pub(crate) fn table_remove(table: &mut FxHashMap<u64, u64>, key: u64) -> (removed: Option<u64>)
    ensures
        final(table)@ == old(table)@.remove(key),
        removed == (if old(table)@.contains_key(key) {
            Some(old(table)@[key])
        } else {
            None
        }),
{
    table.remove(&key)
}

} // verus!
