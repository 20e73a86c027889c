//! Numbered slots under names, in the order in which the names first came.
use vstd::prelude::*;

verus! {

/// `indexmap::IndexMap`: a hash map that keeps its entries in the order in which their keys
/// were first inserted.
#[verifier::external_type_specification]
#[verifier::external_body]
#[verifier::reject_recursive_types(K)]
#[verifier::reject_recursive_types(V)]
#[verifier::reject_recursive_types(S)]
pub struct ExIndexMap<K, V, S>(indexmap::IndexMap<K, V, S>);

/// The entries of an index map, in its order.
pub uninterp spec fn slots(map: indexmap::IndexMap<String, usize>) -> Seq<(Seq<char>, usize)>;

/// The place of the first text that equals `name`.
pub open spec fn position_of(names: Seq<Seq<char>>, name: Seq<char>) -> Option<int>
    decreases names.len(),
{
    if names.len() == 0 {
        None
    } else {
        match position_of(names.drop_last(), name) {
            Some(i) => Some(i),
            None => if names.last() == name {
                Some(names.len() - 1)
            } else {
                None
            },
        }
    }
}

/// The keys of some entries.
pub open spec fn keys_of(entries: Seq<(Seq<char>, usize)>) -> Seq<Seq<char>> {
    entries.map_values(|e: (Seq<char>, usize)| e.0)
}

/// The slot under a name.
pub open spec fn slot_of(entries: Seq<(Seq<char>, usize)>, name: Seq<char>) -> Option<usize> {
    match position_of(keys_of(entries), name) {
        Some(i) => Some(entries[i].1),
        None => None,
    }
}

/// The entries with a slot put under a name: in the place of the name's entry where it has
/// one, and at the end otherwise.
pub open spec fn with_slot(
    entries: Seq<(Seq<char>, usize)>,
    name: Seq<char>,
    slot: usize,
) -> Seq<(Seq<char>, usize)> {
    match position_of(keys_of(entries), name) {
        Some(i) => entries.update(i, (name, slot)),
        None => entries.push((name, slot)),
    }
}

/// Calls `indexmap::IndexMap::new`, which makes a map without entries.
#[verifier::external_body]
pub(crate) fn new_slots() -> (r: indexmap::IndexMap<String, usize>)
    ensures
        slots(r) == Seq::<(Seq<char>, usize)>::empty(),
{
    indexmap::IndexMap::new()
}

/// Calls `indexmap::IndexMap::get`, which finds the value under a key.
#[verifier::external_body]
pub(crate) fn find_slot(map: &indexmap::IndexMap<String, usize>, name: &str) -> (r: Option<usize>)
    ensures
        r == slot_of(slots(*map), name@),
{
    map.get(name).copied()
}

/// Calls `indexmap::IndexMap::insert`, which replaces the value of a key that is there, in its
/// place, and adds a new key at the end.
#[verifier::external_body]
pub(crate) fn set_slot(map: &mut indexmap::IndexMap<String, usize>, name: String, slot: usize)
    ensures
        slots(*final(map)) == with_slot(slots(*old(map)), name@, slot),
{
    map.insert(name, slot);
}

/// Calls `indexmap::IndexMap::values`, which hands out the values in the order of the entries.
#[verifier::external_body]
pub(crate) fn all_slots(map: &indexmap::IndexMap<String, usize>) -> (r: Vec<usize>)
    ensures
        r@ == slots(*map).map_values(|e: (Seq<char>, usize)| e.1),
{
    map.values().copied().collect()
}

/// A position is that of the first equal text, and there is one whenever there is such a text.
pub proof fn lemma_position_of(names: Seq<Seq<char>>, name: Seq<char>)
    ensures
        match position_of(names, name) {
            Some(i) => 0 <= i < names.len() && names[i] == name && forall|j: int|
                0 <= j < i ==> names[j] != name,
            None => !names.contains(name),
        },
    decreases names.len(),
{
    if names.len() > 0 {
        let init = names.drop_last();
        lemma_position_of(init, name);
        assert forall|j: int| 0 <= j < init.len() && init[j] == name implies init.contains(
            name,
        ) by {}
        assert(forall|j: int| 0 <= j < init.len() ==> names[j] == init[j]);
    }
}

} // verus!
