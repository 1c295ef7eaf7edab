//! The hash map of `griddle` that holds the store's entries, seen through
//! the map of plain values that it holds.
use vstd::prelude::*;
use crate::engine::red_hare::{MetaData, MetaDataView};

verus! {

#[verifier::external_type_specification]
#[verifier::external_body]
pub struct ExDefaultHashBuilder(griddle::hash_map::DefaultHashBuilder);

#[verifier::external_type_specification]
#[verifier::external_body]
#[verifier::reject_recursive_types(K)]
#[verifier::reject_recursive_types(V)]
#[verifier::reject_recursive_types(S)]
pub struct ExGriddleHashMap<K, V, S>(griddle::HashMap<K, V, S>);

/// The entries that a map holds: each key by its characters, each value
/// by its view.
pub uninterp spec fn stored_entries(m: griddle::HashMap<String, MetaData>) -> Map<Seq<char>, MetaDataView>;

/// The characters of each key, in order.
pub open spec fn key_views(keys: Seq<String>) -> Seq<Seq<char>> {
    keys.map_values(|k: String| k@)
}

/// Calls `griddle::HashMap::new`: a map that holds nothing.
#[verifier::external_body]
pub(crate) fn map_new() -> (res: griddle::HashMap<String, MetaData>)
    ensures
        (stored_entries(res) == Map::<Seq<char>, MetaDataView>::empty()),
{
    griddle::HashMap::new()
}

/// Calls `griddle::HashMap::insert`: afterwards the key maps to the value
/// and the other entries stay; it hands back the value that the key had.
/// Keys are `String`s, whose `Eq` and `Hash` go by their characters.
#[verifier::external_body]
pub(crate) fn map_insert(m: &mut griddle::HashMap<String, MetaData>, k: String, v: MetaData) -> (res: Option<MetaData>)
    ensures
        stored_entries(*final(m)) == stored_entries(*old(m)).insert(k@, v@),
        res is Some <==> stored_entries(*old(m)).contains_key(k@),
        res matches Some(o) ==> o@ == stored_entries(*old(m))[k@],
{
    m.insert(k, v)
}

/// Calls `griddle::HashMap::remove`: afterwards the key maps to nothing
/// and the other entries stay; it hands back the value that the key had.
#[verifier::external_body]
pub(crate) fn map_remove(m: &mut griddle::HashMap<String, MetaData>, k: &String) -> (res: Option<MetaData>)
    ensures
        stored_entries(*final(m)) == stored_entries(*old(m)).remove(k@),
        res is Some <==> stored_entries(*old(m)).contains_key(k@),
        res matches Some(o) ==> o@ == stored_entries(*old(m))[k@],
{
    m.remove(k)
}

/// Calls `griddle::HashMap::get`: the value that the key maps to, if any.
#[verifier::external_body]
pub(crate) fn map_get<'a>(m: &'a griddle::HashMap<String, MetaData>, k: &String) -> (res: Option<&'a MetaData>)
    ensures
        res is Some <==> stored_entries(*m).contains_key(k@),
        res matches Some(o) ==> o@ == stored_entries(*m)[k@],
{
    m.get(k)
}

/// Calls `griddle::HashMap::keys` and collects a copy of each key: every
/// key of the map once, in an order that the source leaves open.
#[verifier::external_body]
pub(crate) fn map_keys(m: &griddle::HashMap<String, MetaData>) -> (res: Vec<String>)
    ensures
        key_views(res@).no_duplicates(),
        key_views(res@).to_set() == stored_entries(*m).dom(),
{
    m.keys().cloned().collect()
}

} // verus!
