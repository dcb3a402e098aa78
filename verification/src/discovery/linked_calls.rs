//! The insertion-ordered map of `linked_hash_map` that keeps adapters in
//! the order in which they are tried.

use linked_hash_map::LinkedHashMap;
use vstd::prelude::*;

use crate::dscresources::dscresource::DscResource;
use crate::json::find_key;

verus! {

#[verifier::external_type_specification]
#[verifier::external_body]
#[verifier::reject_recursive_types(K)]
#[verifier::reject_recursive_types(V)]
#[verifier::reject_recursive_types(S)]
pub struct ExLinkedHashMap<K, V, S>(LinkedHashMap<K, V, S>);

/// What an adapter map holds, oldest entry first.
pub uninterp spec fn linked_entries(m: LinkedHashMap<String, Vec<DscResource>>) -> Seq<(String, Vec<DscResource>)>;

/// The entries after `(key, value)` is inserted: a new key goes to the
/// end; a key that is there keeps its first key, takes the new value and
/// moves to the end.
pub open spec fn linked_put(entries: Seq<(String, Vec<DscResource>)>, key: String, value: Vec<DscResource>) -> Seq<(String, Vec<DscResource>)> {
    let j = find_key(entries, key@);
    if j >= 0 {
        entries.remove(j).push((entries[j].0, value))
    } else {
        entries.push((key, value))
    }
}

/// `LinkedHashMap::new`: a map with no entries.
#[verifier::external_body]
pub(crate) fn linked_new() -> (m: LinkedHashMap<String, Vec<DscResource>>)
    ensures
        linked_entries(m) == Seq::<(String, Vec<DscResource>)>::empty(),
{
    LinkedHashMap::new()
}

/// `LinkedHashMap::insert`: the entries become those of `linked_put`; the
/// source detaches an existing entry and attaches it again as the newest.
#[verifier::external_body]
pub(crate) fn linked_insert(m: &mut LinkedHashMap<String, Vec<DscResource>>, key: String, value: Vec<DscResource>)
    ensures
        linked_entries(*final(m)) == linked_put(linked_entries(*old(m)), key, value),
{
    m.insert(key, value);
}

/// `LinkedHashMap::contains_key`: whether an entry has the key.
#[verifier::external_body]
pub(crate) fn linked_contains(m: &LinkedHashMap<String, Vec<DscResource>>, key: &String) -> (r: bool)
    ensures
        r == (find_key(linked_entries(*m), key@) >= 0),
{
    m.contains_key(key)
}

/// The entries of the map, oldest first, as its owning iterator gives
/// them.
#[verifier::external_body]
pub(crate) fn linked_into_entries(m: LinkedHashMap<String, Vec<DscResource>>) -> (v: Vec<(String, Vec<DscResource>)>)
    ensures
        v@ == linked_entries(m),
{
    m.into_iter().collect()
}

} // verus!
