//! The insertion-ordered map that keeps the manifest: hostnames in the order
//! of their first appearance, each with its roles.

use indexmap::IndexMap;
use std::collections::VecDeque;
use vstd::prelude::*;

use crate::setup::hostsfile::Role;

verus! {

/// `indexmap::IndexMap`: a hash map that keeps its entries in the order in
/// which their keys were first inserted. Nothing is known of what is inside
/// but through `roster_entries`.
#[verifier::external_type_specification]
#[verifier::external_body]
#[verifier::reject_recursive_types(K)]
#[verifier::reject_recursive_types(V)]
#[verifier::reject_recursive_types(S)]
pub struct ExIndexMap<K, V, S>(IndexMap<K, V, S>);

/// One line of the manifest: a hostname and the roles listed for it.
pub type Entry = (Seq<char>, Seq<Role>);

/// The entries that the map holds, in its order: for each key the
/// characters of the hostname, and the roles of the value.
pub uninterp spec fn roster_entries(m: IndexMap<String, VecDeque<Role>>) -> Seq<Entry>;

/// Whether `i` is the position of the first entry named `name`.
pub open spec fn is_position(entries: Seq<Entry>, name: Seq<char>, i: int) -> bool {
    &&& 0 <= i < entries.len()
    &&& entries[i].0 == name
    &&& forall|j: int| 0 <= j < i ==> (#[trigger] entries[j]).0 != name
}

/// The position of the first entry named `name`, if there is one.
pub open spec fn position_of(entries: Seq<Entry>, name: Seq<char>) -> Option<int> {
    if exists|i: int| is_position(entries, name, i) {
        Some(choose|i: int| is_position(entries, name, i))
    } else {
        None
    }
}

/// `entries` with `roles` listed for `name`: in the place of the entry
/// that `name` has already, else at the end.
pub open spec fn put(entries: Seq<Entry>, name: Seq<char>, roles: Seq<Role>) -> Seq<Entry> {
    match position_of(entries, name) {
        Some(i) => entries.update(i, (name, roles)),
        None => entries.push((name, roles)),
    }
}

/// No two entries have the same name.
pub open spec fn distinct_names(entries: Seq<Entry>) -> bool {
    forall|i: int, j: int|
        0 <= i < j < entries.len() ==> (#[trigger] entries[i]).0 != (#[trigger] entries[j]).0
}

/// `IndexMap::new` makes a map without entries.
#[verifier::external_body]
pub(crate) fn roster_new() -> (m: IndexMap<String, VecDeque<Role>>)
    ensures
        roster_entries(m) == Seq::<Entry>::empty(),
{
    IndexMap::new()
}

/// `IndexMap::insert` on a name that the map holds keeps the entry's place
/// and replaces its roles; on a new name it adds the entry at the end.
#[verifier::external_body]
pub(crate) fn roster_insert(
    m: &mut IndexMap<String, VecDeque<Role>>,
    name: String,
    roles: VecDeque<Role>,
)
    ensures
        roster_entries(*final(m)) == put(roster_entries(*old(m)), name@, roles@),
{
    m.insert(name, roles);
}

/// `IndexMap::len` counts the entries.
#[verifier::external_body]
pub(crate) fn roster_len(m: &IndexMap<String, VecDeque<Role>>) -> (len: usize)
    ensures
        len == roster_entries(*m).len(),
{
    m.len()
}

/// `IndexMap::get_index` gives the entry at a position, and nothing beyond
/// the last one.
#[verifier::external_body]
pub(crate) fn roster_get_index(m: &IndexMap<String, VecDeque<Role>>, index: usize) -> (entry:
    Option<(&String, &VecDeque<Role>)>)
    ensures
        match entry {
            Some((name, roles)) => index < roster_entries(*m).len() && (name@, roles@)
                == roster_entries(*m)[index as int],
            None => index >= roster_entries(*m).len(),
        },
{
    m.get_index(index)
}

/// `IndexMap::get_index_of` gives the position of the entry with the given
/// name, and nothing where no entry has it.
#[verifier::external_body]
pub(crate) fn roster_get_index_of(m: &IndexMap<String, VecDeque<Role>>, name: &str) -> (index:
    Option<usize>)
    ensures
        match index {
            Some(i) => i < roster_entries(*m).len() && roster_entries(*m)[i as int].0 == name@,
            None => forall|i: int|
                0 <= i < roster_entries(*m).len() ==> (#[trigger] roster_entries(*m)[i]).0
                    != name@,
        },
{
    m.get_index_of(name)
}

} // verus!
