//! The store's laws, proved over its abstract mapping.
//!
//! `put` states its effect as `insert` on the store's view and `get`
//! answers by `spec_get`, so the laws below are stated in exactly those
//! terms and apply to any sequence of completed store operations.

use vstd::prelude::*;

use crate::store::spec_get;

verus! {

/// Round-trip identity: a note saved under an id is what looking that
/// id up returns.
pub proof fn lemma_saved_note_retrievable(m: Map<u128, Seq<char>>, id: u128, note: Seq<char>)
    ensures
        spec_get(m.insert(id, note), id) == Some(note),
{
}

/// An id that was never issued by a save maps to nothing: looking it
/// up returns `None`.
pub proof fn lemma_unknown_id_absent(m: Map<u128, Seq<char>>, id: u128)
    requires
        !m.dom().contains(id),
    ensures
        spec_get(m, id) is None,
{
}

/// Two saves under distinct ids leave both notes independently
/// retrievable, whichever order the saves completed in.
pub proof fn lemma_two_saves_independent(
    m: Map<u128, Seq<char>>,
    id1: u128,
    note1: Seq<char>,
    id2: u128,
    note2: Seq<char>,
)
    requires
        id1 != id2,
    ensures
        spec_get(m.insert(id1, note1).insert(id2, note2), id1) == Some(note1),
        spec_get(m.insert(id1, note1).insert(id2, note2), id2) == Some(note2),
{
}

/// The mapping after a sequence of saves, each given as the id drawn
/// for it and the note text.
pub open spec fn insert_all(
    m: Map<u128, Seq<char>>,
    saves: Seq<(u128, Seq<char>)>,
) -> Map<u128, Seq<char>>
    decreases saves.len(),
{
    if saves.len() == 0 {
        m
    } else {
        insert_all(m, saves.drop_last()).insert(saves.last().0, saves.last().1)
    }
}

proof fn lemma_insert_all_contains(
    m: Map<u128, Seq<char>>,
    saves: Seq<(u128, Seq<char>)>,
    k: u128,
)
    ensures
        insert_all(m, saves).dom().contains(k) <==> (m.dom().contains(k) || exists|i: int|
            0 <= i < saves.len() && saves[i].0 == k),
    decreases saves.len(),
{
    if saves.len() > 0 {
        lemma_insert_all_contains(m, saves.drop_last(), k);
        if saves.last().0 == k {
            assert(saves[saves.len() - 1].0 == k);
        } else if exists|i: int| 0 <= i < saves.len() && saves[i].0 == k {
            let i = choose|i: int| 0 <= i < saves.len() && saves[i].0 == k;
            assert(saves.drop_last()[i].0 == k);
        }
    }
}

/// After `k` saves whose ids are fresh and pairwise distinct, the note
/// count is the count before plus `k`.
pub proof fn lemma_count_after_saves(m: Map<u128, Seq<char>>, saves: Seq<(u128, Seq<char>)>)
    requires
        m.dom().finite(),
        forall|i: int, j: int| 0 <= i < j < saves.len() ==> saves[i].0 != saves[j].0,
        forall|i: int| 0 <= i < saves.len() ==> !m.dom().contains(#[trigger] saves[i].0),
    ensures
        insert_all(m, saves).dom().finite(),
        insert_all(m, saves).dom().len() == m.dom().len() + saves.len(),
    decreases saves.len(),
{
    if saves.len() > 0 {
        let prefix = saves.drop_last();
        assert(forall|i: int| 0 <= i < prefix.len() ==> prefix[i] == saves[i]);
        lemma_count_after_saves(m, prefix);
        lemma_insert_all_contains(m, prefix, saves.last().0);
        assert(saves[saves.len() - 1].0 == saves.last().0);
        assert(forall|i: int| 0 <= i < prefix.len() ==> prefix[i].0 != saves.last().0);
        assert(!insert_all(m, prefix).dom().contains(saves.last().0));
    }
}

} // verus!
