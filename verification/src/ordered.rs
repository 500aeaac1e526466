//! The insertion-ordered collections of `indexmap`, as far as the library uses them: the
//! values a list setting offers, and the settings of a template by their names.

use crate::settings::repo::RepoSetting;
use indexmap::{IndexMap, IndexSet};
use vstd::prelude::*;

verus! {

/// `indexmap::IndexSet`: nothing of it is seen but through the functions below.
#[verifier::external_type_specification]
#[verifier::external_body]
#[verifier::reject_recursive_types(T)]
#[verifier::reject_recursive_types(S)]
pub struct ExIndexSet<T, S>(IndexSet<T, S>);

/// `indexmap::IndexMap`: nothing of it is seen but through the functions below.
#[verifier::external_type_specification]
#[verifier::external_body]
#[verifier::reject_recursive_types(K)]
#[verifier::reject_recursive_types(V)]
#[verifier::reject_recursive_types(S)]
pub struct ExIndexMap<K, V, S>(IndexMap<K, V, S>);

/// The values of a set, in the order in which they were inserted.
pub uninterp spec fn index_set_items(set: IndexSet<String>) -> Seq<Seq<char>>;

/// The settings of a map with their names, in the order in which they were inserted.
pub uninterp spec fn index_map_entries(map: IndexMap<String, RepoSetting>) -> Seq<
    (Seq<char>, RepoSetting),
>;

/// `IndexSet::new`: a set without values.
#[verifier::external_body]
pub(crate) fn set_new() -> (set: IndexSet<String>)
    ensures
        index_set_items(set) == Seq::<Seq<char>>::empty(),
{
    IndexSet::new()
}

/// `IndexSet::insert`: a value that the set does not hold yet goes to its end and `true` is
/// returned; for one that it holds the set stays as it is and `false` is returned.
#[verifier::external_body]
pub(crate) fn set_insert(set: &mut IndexSet<String>, value: String) -> (added: bool)
    ensures
        added == !index_set_items(*old(set)).contains(value@),
        index_set_items(*final(set)) == if added {
            index_set_items(*old(set)).push(value@)
        } else {
            index_set_items(*old(set))
        },
{
    set.insert(value)
}

/// `IndexSet::len`: the number of values.
#[verifier::external_body]
pub(crate) fn set_len(set: &IndexSet<String>) -> (n: usize)
    ensures
        n == index_set_items(*set).len(),
{
    set.len()
}

/// `IndexSet::get_index`: the value at a position in insertion order, `None` from the
/// length on.
#[verifier::external_body]
pub(crate) fn set_get(set: &IndexSet<String>, index: usize) -> (value: Option<&String>)
    ensures
        match value {
            Some(v) => index < index_set_items(*set).len() && v@ == index_set_items(*set)[index as int],
            None => index >= index_set_items(*set).len(),
        },
{
    set.get_index(index)
}

/// `IndexSet::contains`: whether the set holds the value.
#[verifier::external_body]
pub(crate) fn set_contains(set: &IndexSet<String>, value: &str) -> (found: bool)
    ensures
        found == index_set_items(*set).contains(value@),
{
    set.contains(value)
}

/// `IndexMap::len`: the number of settings.
#[verifier::external_body]
pub(crate) fn map_len(map: &IndexMap<String, RepoSetting>) -> (n: usize)
    ensures
        n == index_map_entries(*map).len(),
{
    map.len()
}

/// `IndexMap::get_index`: the name and the setting at a position in insertion order, `None`
/// from the length on.
#[verifier::external_body]
pub(crate) fn map_get(map: &IndexMap<String, RepoSetting>, index: usize) -> (entry: Option<
    (&String, &RepoSetting),
>)
    ensures
        match entry {
            Some((name, setting)) => {
                &&& index < index_map_entries(*map).len()
                &&& name@ == index_map_entries(*map)[index as int].0
                &&& *setting == index_map_entries(*map)[index as int].1
            },
            None => index >= index_map_entries(*map).len(),
        },
{
    map.get_index(index)
}

/// `IndexMap::shift_remove_index` at 0: takes the first setting out with its name and moves
/// the others up in their order; `None` for an empty map, which stays empty.
#[verifier::external_body]
pub(crate) fn map_take_first(map: &mut IndexMap<String, RepoSetting>) -> (entry: Option<
    (String, RepoSetting),
>)
    ensures
        match entry {
            Some((name, setting)) => {
                &&& index_map_entries(*old(map)).len() > 0
                &&& name@ == index_map_entries(*old(map))[0].0
                &&& setting == index_map_entries(*old(map))[0].1
                &&& index_map_entries(*final(map)) == index_map_entries(*old(map)).drop_first()
            },
            None => {
                &&& index_map_entries(*old(map)).len() == 0
                &&& index_map_entries(*final(map)) == index_map_entries(*old(map))
            },
        },
{
    map.shift_remove_index(0)
}

} // verus!
