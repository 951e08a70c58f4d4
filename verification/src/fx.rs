//! Hash maps and hash sets keyed by arena indices and hashed with the Fx
//! hasher. Their contents are the `Map` and `Set` views that `vstd` gives
//! to the standard collections; the functions here state what the standard
//! operations do to those views when the hasher is `FxHasher`.

use rustc_hash::{FxHashMap, FxHashSet, FxHasher};
use std::hash::BuildHasherDefault;
use vstd::prelude::*;

verus! {

#[verifier::external_type_specification]
#[verifier::external_body]
pub struct ExFxHasher(FxHasher);

#[verifier::external_type_specification]
#[verifier::external_body]
#[verifier::reject_recursive_types(H)]
pub struct ExBuildHasherDefault<H>(BuildHasherDefault<H>);

/// `HashMap::insert` on an Fx-hashed map: afterwards `key` maps to `value`
/// and every other key is as before; the result is the value that `key` had.
#[verifier::external_body]
pub(crate) fn map_insert<V>(map: &mut FxHashMap<usize, V>, key: usize, value: V) -> (previous:
    Option<V>)
    ensures
        final(map)@ == old(map)@.insert(key, value),
        previous == if old(map)@.contains_key(key) {
            Some(old(map)@[key])
        } else {
            None
        },
{
    map.insert(key, value)
}

/// `HashMap::get` on an Fx-hashed map: the value stored under `key`, if any.
#[verifier::external_body]
pub(crate) fn map_get<V>(map: &FxHashMap<usize, V>, key: usize) -> (value: Option<&V>)
    ensures
        value == if map@.contains_key(key) {
            Some(&map@[key])
        } else {
            None
        },
{
    map.get(&key)
}

/// `HashSet::insert` on an Fx-hashed set: afterwards the set holds `key` and
/// what it held before; the result tells whether `key` is new.
#[verifier::external_body]
pub(crate) fn set_insert(set: &mut FxHashSet<usize>, key: usize) -> (fresh: bool)
    ensures
        final(set)@ == old(set)@.insert(key),
        fresh == !old(set)@.contains(key),
{
    set.insert(key)
}

/// `HashSet::iter` on an Fx-hashed set, collected: every element once, in
/// the order in which the set happens to hand them out.
#[verifier::external_body]
pub(crate) fn set_items(set: &FxHashSet<usize>) -> (items: Vec<usize>)
    ensures
        items@.no_duplicates(),
        items@.to_set() == set@,
{
    set.iter().copied().collect()
}

} // verus!
