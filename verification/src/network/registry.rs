//! The concurrent map of `dashmap` that the manager keys its connected
//! servers and its running jobs by, and what the library relies on of it.

use vstd::prelude::*;
use dashmap::DashMap;

verus! {

#[verifier::external_type_specification]
#[verifier::external_body]
#[verifier::reject_recursive_types(K)]
#[verifier::reject_recursive_types(V)]
#[verifier::reject_recursive_types(S)]
pub struct ExDashMap<K, V, S>(DashMap<K, V, S>);

/// The keys of a map of identifiers, by their text.
pub uninterp spec fn id_keys(m: DashMap<String, ()>) -> Set<Seq<char>>;

/// The text of each string in a sequence of strings.
pub open spec fn texts(v: Seq<String>) -> Seq<Seq<char>> {
    v.map_values(|s: String| s@)
}

/// `DashMap::new`: an empty map.
#[verifier::external_body]
pub(crate) fn map_new() -> (m: DashMap<String, ()>)
    ensures
        id_keys(m) == Set::<Seq<char>>::empty(),
{
    DashMap::new()
}

/// `DashMap::insert`: afterwards the key `id` is in the map, and the other
/// keys are as they were (inserting a present key replaces its value).
#[verifier::external_body]
pub(crate) fn map_insert(m: &mut DashMap<String, ()>, id: String)
    ensures
        id_keys(*final(m)) == id_keys(*old(m)).insert(id@),
{
    m.insert(id, ());
}

/// `DashMap::remove`: afterwards the key `id` is not in the map, and the
/// other keys are as they were.
#[verifier::external_body]
pub(crate) fn map_remove(m: &mut DashMap<String, ()>, id: &str)
    ensures
        id_keys(*final(m)) == id_keys(*old(m)).remove(id@),
{
    m.remove(id);
}

/// `DashMap::contains_key`: whether `id` is a key of the map.
#[verifier::external_body]
pub(crate) fn map_contains(m: &DashMap<String, ()>, id: &str) -> (res: bool)
    ensures
        res == id_keys(*m).contains(id@),
{
    m.contains_key(id)
}

/// The keys that `DashMap::iter` walks, collected: each key of the map once.
/// The order depends on the hashes and the shards, and is left open.
#[verifier::external_body]
pub(crate) fn map_keys(m: &DashMap<String, ()>) -> (keys: Vec<String>)
    ensures
        texts(keys@).no_duplicates(),
        texts(keys@).to_set() == id_keys(*m),
{
    m.iter().map(|entry| entry.key().clone()).collect()
}

} // verus!
