//! An index from commit ids to values.
//!
//! The index is a list of entries. An entry written later hides an earlier
//! one under the same id, so the index stands for a map from ids to values.

use crate::commit::CommitId;
use vstd::prelude::*;

verus! {

/// The map that the entries `entries` stand for: each id with the value of
/// the last entry under it.
pub open spec fn entries_map<V: DeepView>(entries: Seq<(CommitId, V)>) -> Map<Seq<char>, V::V>
    decreases entries.len(),
{
    if entries.len() == 0 {
        Map::empty()
    } else {
        entries_map(entries.drop_last()).insert(
            entries.last().0@,
            entries.last().1.deep_view(),
        )
    }
}

/// What the map `map` holds under `key`, where it holds something.
pub open spec fn lookup<T>(map: Map<Seq<char>, T>, key: Seq<char>) -> Option<T> {
    if map.dom().contains(key) {
        Some(map[key])
    } else {
        None
    }
}

/// Entries under other ids do not change what the map holds under `key`:
/// where no entry from place `k` on is under `key`, the first `k` entries
/// decide.
pub proof fn lemma_lookup_in_prefix<V: DeepView>(
    entries: Seq<(CommitId, V)>,
    k: int,
    key: Seq<char>,
)
    requires
        0 <= k <= entries.len(),
        forall|j: int| k <= j < entries.len() ==> (#[trigger] entries[j]).0@ != key,
    ensures
        lookup(entries_map(entries), key) == lookup(entries_map(entries.take(k)), key),
    decreases entries.len(),
{
    if k == entries.len() {
        assert(entries.take(k) =~= entries);
    } else {
        let shorter = entries.drop_last();
        assert(entries[entries.len() - 1].0@ != key);
        assert forall|j: int| k <= j < shorter.len() implies (#[trigger] shorter[j]).0@ != key by {
            assert(shorter[j] == entries[j]);
        }
        lemma_lookup_in_prefix(shorter, k, key);
        assert(shorter.take(k) =~= entries.take(k));
    }
}

/// An index from commit ids to values of type `V`.
#[derive(Debug)]
pub struct CommitIndex<V> {
    entries: Vec<(CommitId, V)>,
}

impl<V: DeepView> DeepView for CommitIndex<V> {
    type V = Map<Seq<char>, V::V>;

    closed spec fn deep_view(&self) -> Map<Seq<char>, V::V> {
        entries_map(self.entries@)
    }
}

impl<V: DeepView> CommitIndex<V> {
    /// The index that holds nothing.
    pub fn new() -> (r: Self)
        ensures
            r.deep_view() == Map::<Seq<char>, V::V>::empty(),
    {
        CommitIndex { entries: Vec::new() }
    }

    /// Puts `value` under `id`, in place of what was there.
    pub fn insert(&mut self, id: CommitId, value: V)
        ensures
            final(self).deep_view() == old(self).deep_view().insert(id@, value.deep_view()),
    {
        let ghost before = self.entries@;
        self.entries.push((id, value));
        assert(self.entries@.drop_last() =~= before);
    }

    /// What the index holds under `id`.
    pub fn get(&self, id: &CommitId) -> (r: Option<&V>)
        ensures
            r.deep_view() == lookup(self.deep_view(), id@),
    {
        let mut i: usize = self.entries.len();
        while i > 0
            invariant
                i <= self.entries.len(),
                forall|j: int| i <= j < self.entries.len() ==> (#[trigger] self.entries@[j]).0@ != id@,
            decreases i,
        {
            i = i - 1;
            if self.entries[i].0 == *id {
                proof {
                    lemma_lookup_in_prefix(self.entries@, i + 1, id@);
                    assert(self.entries@.take(i + 1).drop_last() =~= self.entries@.take(i as int));
                }
                return Some(&self.entries[i].1);
            }
        }
        proof {
            lemma_lookup_in_prefix(self.entries@, 0, id@);
            assert(self.entries@.take(0) =~= Seq::<(CommitId, V)>::empty());
        }
        None
    }
}

} // verus!
