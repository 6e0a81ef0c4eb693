//! The in-memory note store.
//!
//! A `NoteStore` maps 128-bit note ids to note text. Its abstract value
//! is a `Map<u128, Seq<char>>`; the concrete representation is a vector
//! of key/value pairs with pairwise distinct keys. The store also
//! carries a health flag: once the store is marked unavailable, reads
//! behave as if the store were empty and writes report an error instead
//! of inserting, so callers can degrade gracefully rather than fail.

use vstd::prelude::*;

use crate::ids::fresh_id;

verus! {

/// Why a store operation did not take effect.
#[derive(Clone, Copy, Debug, PartialEq, Eq, Structural)]
pub enum StoreError {
    /// The store was marked unavailable: the write was dropped.
    Unavailable,
}

/// Looking `id` up in the mapping `m`: the stored text, or `None` for
/// an unknown id.
pub open spec fn spec_get(m: Map<u128, Seq<char>>, id: u128) -> Option<Seq<char>> {
    if m.dom().contains(id) {
        Some(m[id])
    } else {
        None
    }
}

/// The mapping that a sequence of key/value pairs represents; on a
/// repeated key the later pair wins.
pub open spec fn map_of(s: Seq<(u128, String)>) -> Map<u128, Seq<char>>
    decreases s.len(),
{
    if s.len() == 0 {
        Map::empty()
    } else {
        map_of(s.drop_last()).insert(s.last().0, s.last().1@)
    }
}

/// Pairwise distinct keys.
pub open spec fn keys_distinct(s: Seq<(u128, String)>) -> bool {
    forall|i: int, j: int| 0 <= i < j < s.len() ==> s[i].0 != s[j].0
}

/// A mapping from note id to note text, plus a health flag.
pub struct NoteStore {
    entries: Vec<(u128, String)>,
    avail: bool,
}

impl View for NoteStore {
    type V = Map<u128, Seq<char>>;

    closed spec fn view(&self) -> Map<u128, Seq<char>> {
        map_of(self.entries@)
    }
}

proof fn lemma_map_of_contains(s: Seq<(u128, String)>, k: u128)
    ensures
        map_of(s).dom().contains(k) <==> exists|i: int| 0 <= i < s.len() && s[i].0 == k,
    decreases s.len(),
{
    if s.len() > 0 {
        lemma_map_of_contains(s.drop_last(), k);
        if s.last().0 == k {
            assert(s[s.len() - 1].0 == k);
        } else if map_of(s).dom().contains(k) {
            let i = choose|i: int| 0 <= i < s.drop_last().len() && s.drop_last()[i].0 == k;
            assert(s[i].0 == k);
        } else if exists|i: int| 0 <= i < s.len() && s[i].0 == k {
            let i = choose|i: int| 0 <= i < s.len() && s[i].0 == k;
            assert(s.drop_last()[i].0 == k);
        }
    }
}

proof fn lemma_map_of_index(s: Seq<(u128, String)>, i: int)
    requires
        keys_distinct(s),
        0 <= i < s.len(),
    ensures
        map_of(s).dom().contains(s[i].0),
        map_of(s)[s[i].0] == s[i].1@,
    decreases s.len(),
{
    if i == s.len() - 1 {
    } else {
        lemma_map_of_index(s.drop_last(), i);
        assert(s.drop_last()[i] == s[i]);
    }
}

proof fn lemma_map_of_len(s: Seq<(u128, String)>)
    requires
        keys_distinct(s),
    ensures
        map_of(s).dom().finite(),
        map_of(s).dom().len() == s.len(),
    decreases s.len(),
{
    if s.len() > 0 {
        lemma_map_of_len(s.drop_last());
        lemma_map_of_contains(s.drop_last(), s.last().0);
        assert(forall|i: int|
            0 <= i < s.drop_last().len() ==> s.drop_last()[i].0 != s.last().0);
    }
}

proof fn lemma_map_of_update(s: Seq<(u128, String)>, i: int, v: (u128, String))
    requires
        keys_distinct(s),
        0 <= i < s.len(),
        v.0 == s[i].0,
    ensures
        map_of(s.update(i, v)) =~= map_of(s).insert(v.0, v.1@),
    decreases s.len(),
{
    let t = s.update(i, v);
    if i == s.len() - 1 {
        assert(t.drop_last() =~= s.drop_last());
        assert(t.last() == v);
    } else {
        assert(t.drop_last() =~= s.drop_last().update(i, v));
        assert(s.drop_last()[i] == s[i]);
        lemma_map_of_update(s.drop_last(), i, v);
        assert(t.last() == s.last());
        assert(s.last().0 != v.0);
    }
}

impl NoteStore {
    #[verifier::type_invariant]
    spec fn wf(&self) -> bool {
        keys_distinct(self.entries@)
    }

    /// Whether the store is still healthy. A fresh store is; it stays
    /// so until `mark_unavailable` is called.
    pub closed spec fn available(&self) -> bool {
        self.avail
    }

    /// The number of notes a healthy store holds; an unavailable store
    /// reads as empty.
    pub open spec fn spec_count(&self) -> nat {
        if self.available() {
            self@.dom().len()
        } else {
            0
        }
    }

    /// Looking `id` up, as `get` answers it: an unavailable store reads
    /// as empty.
    pub open spec fn spec_lookup(&self, id: u128) -> Option<Seq<char>> {
        if self.available() {
            spec_get(self@, id)
        } else {
            None
        }
    }

    /// An empty, available store.
    pub fn new() -> (r: NoteStore)
        ensures
            r.available(),
            r@ == Map::<u128, Seq<char>>::empty(),
    {
        NoteStore { entries: Vec::new(), avail: true }
    }

    /// Marks the store permanently unavailable. Models the condition in
    /// which the shared state is judged broken: the notes are kept but
    /// no longer served, and writes report `StoreError::Unavailable`.
    pub fn mark_unavailable(&mut self)
        ensures
            !final(self).available(),
            final(self)@ == old(self)@,
    {
        proof {
            use_type_invariant(&*self);
        }
        self.avail = false;
    }

    /// The index of the entry holding `id`, if any.
    fn find_index(entries: &Vec<(u128, String)>, id: u128) -> (r: Option<usize>)
        ensures
            r matches Some(i) ==> i < entries@.len() && entries@[i as int].0 == id,
            r is None ==> forall|j: int| 0 <= j < entries@.len() ==> entries@[j].0 != id,
    {
        let n = entries.len();
        let mut i: usize = 0;
        while i < n
            invariant
                i <= n,
                n == entries@.len(),
                forall|j: int| 0 <= j < i ==> entries@[j].0 != id,
            decreases n - i,
        {
            if entries[i].0 == id {
                return Some(i);
            }
            i = i + 1;
        }
        None
    }

    /// Stores `note` under a freshly generated id and returns the id.
    /// On an id collision the newer note silently replaces the older
    /// one, which the `insert` in the contract already says. On an
    /// unavailable store nothing is inserted and the write reports
    /// `StoreError::Unavailable`.
    pub fn put(&mut self, note: String) -> (r: Result<u128, StoreError>)
        ensures
            final(self).available() == old(self).available(),
            old(self).available() ==> (r matches Ok(id) && final(self)@ == old(self)@.insert(
                id,
                note@,
            )),
            !old(self).available() ==> r == Err::<u128, StoreError>(StoreError::Unavailable)
                && final(self)@ == old(self)@,
    {
        proof {
            use_type_invariant(&*self);
        }
        if !self.avail {
            return Err(StoreError::Unavailable);
        }
        let id = fresh_id();
        let mut entries: Vec<(u128, String)> = Vec::new();
        core::mem::swap(&mut entries, &mut self.entries);
        let ghost s0 = entries@;
        match Self::find_index(&entries, id) {
            Some(i) => {
                entries[i] = (id, note);
                proof {
                    lemma_map_of_update(s0, i as int, entries@[i as int]);
                    assert(keys_distinct(entries@));
                }
            },
            None => {
                entries.push((id, note));
                proof {
                    assert(entries@.drop_last() =~= s0);
                    assert(keys_distinct(entries@));
                }
            },
        }
        self.entries = entries;
        Ok(id)
    }

    /// A copy of the note stored under `id`, or `None` for an unknown
    /// id or an unavailable store.
    pub fn get(&self, id: u128) -> (r: Option<String>)
        ensures
            r.deep_view() == self.spec_lookup(id),
    {
        proof {
            use_type_invariant(&*self);
        }
        if !self.avail {
            return None;
        }
        proof {
            lemma_map_of_contains(self.entries@, id);
        }
        match Self::find_index(&self.entries, id) {
            Some(i) => {
                proof {
                    lemma_map_of_index(self.entries@, i as int);
                }
                Some(self.entries[i].1.clone())
            },
            None => None,
        }
    }

    /// The number of stored notes; an unavailable store reports zero.
    pub fn count(&self) -> (r: usize)
        ensures
            r == self.spec_count(),
    {
        proof {
            use_type_invariant(&*self);
            lemma_map_of_len(self.entries@);
        }
        if self.avail {
            self.entries.len()
        } else {
            0
        }
    }
}

} // verus!
