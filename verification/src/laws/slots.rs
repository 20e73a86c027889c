//! What holds of slots under names.
use crate::slots::{keys_of, lemma_position_of, position_of, slot_of, with_slot};
use vstd::prelude::*;

verus! {

/// A slot that is put under a name is the one that is found there, and the other names have
/// theirs. Names that are there keep their places, and a new one comes last.
pub proof fn law_slots(
    entries: Seq<(Seq<char>, usize)>,
    name: Seq<char>,
    slot: usize,
    other: Seq<char>,
)
    ensures
        slot_of(Seq::empty(), name) is None,
        slot_of(with_slot(entries, name, slot), name) == Some(slot),
        other != name ==> slot_of(with_slot(entries, name, slot), other) == slot_of(entries, other),
        slot_of(entries, name) is Some ==> keys_of(with_slot(entries, name, slot)) == keys_of(
            entries,
        ),
        slot_of(entries, name) is None ==> keys_of(with_slot(entries, name, slot)) == keys_of(
            entries,
        ).push(name),
{
    let before = keys_of(entries);
    let later = with_slot(entries, name, slot);
    let after = keys_of(later);
    lemma_position_of(before, name);
    lemma_position_of(after, name);
    lemma_position_of(before, other);
    lemma_position_of(after, other);
    match position_of(before, name) {
        Some(i) => {
            assert(after =~= before);
        },
        None => {
            assert(after =~= before.push(name));
            assert(after[entries.len() as int] == name);
            assert(after.contains(name));
            let p = position_of(after, name)->0;
            if p < entries.len() {
                assert(before[p] == name);
            }
            if other != name {
                if before.contains(other) {
                    let p = position_of(before, other)->0;
                    let q = position_of(after, other)->0;
                    assert(after[p] == other);
                    assert(after.contains(other));
                    assert(q <= p) by {
                        if p < q {
                            assert(after[p] != other);
                        }
                    }
                    assert(before[q] == other);
                    assert(p <= q) by {
                        if q < p {
                            assert(before[q] != other);
                        }
                    }
                } else if after.contains(other) {
                    let q = position_of(after, other)->0;
                    assert(before[q] == other);
                }
            }
        },
    }
}

} // verus!
