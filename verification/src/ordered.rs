//! Insertion-ordered sets and maps of names, as the `indexmap` crate keeps
//! them. What is said here of their methods is taken on trust from the
//! crate's documentation.

use vstd::prelude::*;
use indexmap::{IndexMap, IndexSet};
use std::hash::RandomState;
use crate::text::first_index_of;

verus! {

#[verifier::external_type_specification]
#[verifier::external_body]
#[verifier::reject_recursive_types(T)]
#[verifier::reject_recursive_types(S)]
pub struct ExIndexSet<T, S>(IndexSet<T, S>);

#[verifier::external_type_specification]
#[verifier::external_body]
#[verifier::reject_recursive_types(K)]
#[verifier::reject_recursive_types(V)]
#[verifier::reject_recursive_types(S)]
pub struct ExIndexMap<K, V, S>(IndexMap<K, V, S>);

/// The names that a set holds, in its order.
pub uninterp spec fn set_items(set: IndexSet<&str, RandomState>) -> Seq<Seq<char>>;

/// The keys of a map with the list stored under each, in the map's order.
pub uninterp spec fn map_entries(map: IndexMap<&str, Vec<usize>, RandomState>) -> Seq<
    (Seq<char>, Seq<usize>),
>;

/// `list` without the item at `at`, whose place the last item takes.
pub open spec fn swap_removed<A>(list: Seq<A>, at: int) -> Seq<A> {
    list.update(at, list.last()).drop_last()
}

/// The keys of `entries`, in order.
pub open spec fn keys_of(entries: Seq<(Seq<char>, Seq<usize>)>) -> Seq<Seq<char>> {
    Seq::new(entries.len(), |i: int| entries[i].0)
}

/// `IndexSet::new`: a set that holds nothing.
#[verifier::external_body]
pub(crate) fn set_new<'a>() -> (set: IndexSet<&'a str, RandomState>)
    ensures
        set_items(set) == Seq::<Seq<char>>::empty(),
{
    IndexSet::new()
}

/// `IndexSet::insert`: a name that the set holds already leaves the set as
/// it is, and `false` is returned; any other name is added last, and `true`
/// is returned.
#[verifier::external_body]
pub(crate) fn set_insert<'a>(set: &mut IndexSet<&'a str, RandomState>, name: &'a str) -> (added:
    bool)
    ensures
        added == !set_items(*old(set)).contains(name@),
        set_items(*final(set)) == if added {
            set_items(*old(set)).push(name@)
        } else {
            set_items(*old(set))
        },
{
    set.insert(name)
}

/// `IndexSet::swap_remove`: a name that the set holds is removed, the last
/// item takes its place, and `true` is returned; for any other name the set
/// stays as it is and `false` is returned.
#[verifier::external_body]
pub(crate) fn set_swap_remove<'a>(set: &mut IndexSet<&'a str, RandomState>, name: &str) -> (removed:
    bool)
    ensures
        removed == set_items(*old(set)).contains(name@),
        set_items(*final(set)) == if removed {
            swap_removed(set_items(*old(set)), first_index_of(set_items(*old(set)), name@))
        } else {
            set_items(*old(set))
        },
{
    set.swap_remove(name)
}

/// `IndexSet::len`: the number of names in the set.
#[verifier::external_body]
pub(crate) fn set_len<'a>(set: &IndexSet<&'a str, RandomState>) -> (n: usize)
    ensures
        n == set_items(*set).len(),
{
    set.len()
}

/// `IndexSet::get_index`: the name at `index` in the set's order, or `None`
/// where the set holds fewer names.
#[verifier::external_body]
pub(crate) fn set_get_index<'a>(set: &IndexSet<&'a str, RandomState>, index: usize) -> (found:
    Option<&'a str>)
    ensures
        found is Some == (index < set_items(*set).len()),
        found matches Some(name) ==> name@ == set_items(*set)[index as int],
{
    set.get_index(index).copied()
}

/// `IndexMap::new`: a map that holds nothing.
#[verifier::external_body]
pub(crate) fn map_new<'a>() -> (map: IndexMap<&'a str, Vec<usize>, RandomState>)
    ensures
        map_entries(map) == Seq::<(Seq<char>, Seq<usize>)>::empty(),
{
    IndexMap::new()
}

/// `IndexMap::get`: the list stored under `key`, or `None` where the map
/// has no such key.
#[verifier::external_body]
pub(crate) fn map_get<'m, 'a>(
    map: &'m IndexMap<&'a str, Vec<usize>, RandomState>,
    key: &str,
) -> (found: Option<&'m Vec<usize>>)
    ensures
        found is Some == keys_of(map_entries(*map)).contains(key@),
        found matches Some(list) ==> list@ == map_entries(*map)[first_index_of(
            keys_of(map_entries(*map)),
            key@,
        )].1,
{
    map.get(key)
}

/// `IndexMap::insert`: under a key that the map has already, the list is
/// replaced and the key keeps its place; any other key is added last with
/// the list.
#[verifier::external_body]
pub(crate) fn map_insert<'a>(
    map: &mut IndexMap<&'a str, Vec<usize>, RandomState>,
    key: &'a str,
    list: Vec<usize>,
)
    ensures
        map_entries(*final(map)) == if keys_of(map_entries(*old(map))).contains(key@) {
            map_entries(*old(map)).update(
                first_index_of(keys_of(map_entries(*old(map))), key@),
                (key@, list@),
            )
        } else {
            map_entries(*old(map)).push((key@, list@))
        },
{
    map.insert(key, list);
}

/// `IndexMap::len`: the number of keys in the map.
#[verifier::external_body]
pub(crate) fn map_len<'a>(map: &IndexMap<&'a str, Vec<usize>, RandomState>) -> (n: usize)
    ensures
        n == map_entries(*map).len(),
{
    map.len()
}

/// `IndexMap::get_index`: the key at `index` in the map's order with the
/// list stored under it, or `None` where the map holds fewer keys.
#[verifier::external_body]
pub(crate) fn map_get_index<'m, 'a>(
    map: &'m IndexMap<&'a str, Vec<usize>, RandomState>,
    index: usize,
) -> (found: Option<(&'a str, &'m Vec<usize>)>)
    ensures
        found is Some == (index < map_entries(*map).len()),
        found matches Some(entry) ==> entry.0@ == map_entries(*map)[index as int].0 && entry.1@
            == map_entries(*map)[index as int].1,
{
    map.get_index(index).map(|entry| (*entry.0, entry.1))
}

} // verus!
