use vstd::prelude::*;
use indexmap::IndexMap;
use crate::backend::models::{LinkModel, LinkView, links_view};
use crate::backend::entries::has_name;

verus! {

/// `indexmap::IndexMap`, a map that keeps its entries in the order in which
/// they were put in or last moved.
#[verifier::external_type_specification]
#[verifier::external_body]
#[verifier::reject_recursive_types(K)]
#[verifier::reject_recursive_types(V)]
#[verifier::reject_recursive_types(S)]
pub struct ExIndexMap<K, V, S>(IndexMap<K, V, S>);

/// The entries that an `IndexMap` holds, in the map's own order: each key
/// with its list of links, all taken by their views.
pub uninterp spec fn map_entries(map: IndexMap<String, Vec<LinkModel>>) -> Seq<(Seq<char>, Seq<LinkView>)>;

/// `IndexMap::new`: a map that holds nothing.
#[verifier::external_body]
pub(crate) fn map_new() -> (map: IndexMap<String, Vec<LinkModel>>)
    ensures
        map_entries(map) == Seq::<(Seq<char>, Seq<LinkView>)>::empty(),
{
    IndexMap::new()
}

/// `IndexMap::len`: the number of entries.
#[verifier::external_body]
pub(crate) fn map_len(map: &IndexMap<String, Vec<LinkModel>>) -> (len: usize)
    ensures
        len == map_entries(*map).len(),
{
    map.len()
}

/// `IndexMap::get_index_of`: the place of the entry whose key equals `key`,
/// or `None` where no entry has that key.
#[verifier::external_body]
pub(crate) fn map_get_index_of(map: &IndexMap<String, Vec<LinkModel>>, key: &String) -> (found: Option<usize>)
    ensures
        match found {
            Some(i) => i < map_entries(*map).len() && map_entries(*map)[i as int].0 == key@,
            None => !has_name(map_entries(*map), key@),
        },
{
    map.get_index_of(key)
}

/// `IndexMap::get_index`: the key and the value at place `index`, or `None`
/// where `index` is not below the map's length.
#[verifier::external_body]
pub(crate) fn map_get_index(map: &IndexMap<String, Vec<LinkModel>>, index: usize) -> (entry: Option<
    (&String, &Vec<LinkModel>),
>)
    ensures
        index >= map_entries(*map).len() ==> entry is None,
        index < map_entries(*map).len() ==> match entry {
            Some((key, links)) => key@ == map_entries(*map)[index as int].0 && links_view(links@)
                == map_entries(*map)[index as int].1,
            None => false,
        },
{
    map.get_index(index)
}

/// `IndexMap::insert`: where an entry has the key already, it keeps its
/// place and takes the new value; otherwise the pair becomes the last entry.
#[verifier::external_body]
pub(crate) fn map_insert(map: &mut IndexMap<String, Vec<LinkModel>>, key: String, value: Vec<LinkModel>)
    ensures
        !has_name(map_entries(*old(map)), key@) ==> map_entries(*final(map)) == map_entries(
            *old(map),
        ).push((key@, links_view(value@))),
        has_name(map_entries(*old(map)), key@) ==> exists|i: int|
            0 <= i < map_entries(*old(map)).len() && (#[trigger] map_entries(*old(map))[i]).0 == key@
                && map_entries(*final(map)) == map_entries(*old(map)).update(
                i,
                (key@, links_view(value@)),
            ),
{
    map.insert(key, value);
}

/// `IndexMap::shift_remove`: the entry with the key `key` leaves and those
/// behind it move up by one; a map without that key stays as it is.
#[verifier::external_body]
pub(crate) fn map_shift_remove(map: &mut IndexMap<String, Vec<LinkModel>>, key: &String)
    ensures
        !has_name(map_entries(*old(map)), key@) ==> map_entries(*final(map)) == map_entries(*old(map)),
        has_name(map_entries(*old(map)), key@) ==> exists|i: int|
            0 <= i < map_entries(*old(map)).len() && (#[trigger] map_entries(*old(map))[i]).0 == key@
                && map_entries(*final(map)) == map_entries(*old(map)).remove(i),
{
    map.shift_remove(key);
}

/// `IndexMap::shift_remove_index`: the entry at place `index` leaves and is
/// handed out, and those behind it move up by one; `None`, and no change,
/// where `index` is not below the map's length.
#[verifier::external_body]
pub(crate) fn map_shift_remove_index(map: &mut IndexMap<String, Vec<LinkModel>>, index: usize) -> (entry:
    Option<(String, Vec<LinkModel>)>)
    ensures
        index >= map_entries(*old(map)).len() ==> entry is None && map_entries(*final(map))
            == map_entries(*old(map)),
        index < map_entries(*old(map)).len() ==> map_entries(*final(map)) == map_entries(
            *old(map),
        ).remove(index as int) && match entry {
            Some((key, links)) => key@ == map_entries(*old(map))[index as int].0 && links_view(
                links@,
            ) == map_entries(*old(map))[index as int].1,
            None => false,
        },
{
    map.shift_remove_index(index)
}

/// `IndexMap::shift_insert`: a new key goes in at place `index` with its
/// value, and what stood there and behind moves down by one; an entry that
/// has the key already takes the value and moves to place `index`. The
/// method panics on an index beyond the length, and on one equal to the
/// length where the key is present, so the contract leaves those out.
#[verifier::external_body]
pub(crate) fn map_shift_insert(
    map: &mut IndexMap<String, Vec<LinkModel>>,
    index: usize,
    key: String,
    value: Vec<LinkModel>,
)
    requires
        index <= map_entries(*old(map)).len(),
        has_name(map_entries(*old(map)), key@) ==> index < map_entries(*old(map)).len(),
    ensures
        !has_name(map_entries(*old(map)), key@) ==> map_entries(*final(map)) == map_entries(
            *old(map),
        ).insert(index as int, (key@, links_view(value@))),
        has_name(map_entries(*old(map)), key@) ==> exists|i: int|
            0 <= i < map_entries(*old(map)).len() && (#[trigger] map_entries(*old(map))[i]).0 == key@
                && map_entries(*final(map)) == map_entries(*old(map)).remove(i).insert(
                index as int,
                (key@, links_view(value@)),
            ),
{
    map.shift_insert(index, key, value);
}

} // verus!
