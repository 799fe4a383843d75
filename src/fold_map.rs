//! Maps keyed by cell, kept in `foldhash`'s `HashMap` (the std map with
//! foldhash's hasher). The iteration order of such a map depends on a seed
//! drawn per process, so nothing here depends on it.

use vstd::prelude::*;

use crate::data_struct::BlockPoint;

verus! {

/// `foldhash::fast::RandomState`, the hasher builder of the maps below,
/// carried as an opaque value.
#[verifier::external_type_specification]
#[verifier::external_body]
pub struct ExFoldRandomState(foldhash::fast::RandomState);

/// A map from cells to `V`.
pub type FoldMap<V> = std::collections::HashMap<BlockPoint, V, foldhash::fast::RandomState>;

/// Relies on `foldhash::HashMapExt::new`: an empty map.
#[verifier::external_body]
pub(crate) fn fold_map_new<V>() -> (r: FoldMap<V>)
    ensures
        forall|k: BlockPoint| !r@.contains_key(k),
{
    <FoldMap<V> as foldhash::HashMapExt>::new()
}

/// Relies on `HashMap::insert`: the key now maps to the value, other keys
/// are untouched (`BlockPoint`'s `Hash` and `Eq` are derived, so agree).
#[verifier::external_body]
pub(crate) fn fold_map_insert<V>(m: &mut FoldMap<V>, k: BlockPoint, v: V)
    ensures
        final(m)@ == old(m)@.insert(k, v),
{
    m.insert(k, v);
}

/// Relies on `HashMap::remove`: the key is gone, other keys are untouched.
#[verifier::external_body]
pub(crate) fn fold_map_remove<V>(m: &mut FoldMap<V>, k: &BlockPoint)
    ensures
        final(m)@ == old(m)@.remove(*k),
{
    m.remove(k);
}

/// Relies on `HashMap::get`: the value stored under the key, if any.
#[verifier::external_body]
pub(crate) fn fold_map_get<'a, V>(m: &'a FoldMap<V>, k: &BlockPoint) -> (r: Option<&'a V>)
    ensures
        m@.contains_key(*k) ==> r == Some(&m@[*k]),
        !m@.contains_key(*k) ==> r is None,
{
    m.get(k)
}

/// Relies on `HashMap::keys`: every key once, in an order that is not
/// known.
#[verifier::external_body]
pub(crate) fn fold_map_keys<V>(m: &FoldMap<V>) -> (r: Vec<BlockPoint>)
    ensures
        r@.no_duplicates(),
        forall|k: BlockPoint| m@.contains_key(k) <==> r@.contains(k),
{
    m.keys().copied().collect()
}

} // verus!
