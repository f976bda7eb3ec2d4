//! The preview cache: one downsized filtered image per filter kind.
//!
//! Entries are immutable once inserted and are only ever cleared wholesale,
//! when the base preview they were derived from is regenerated.

use vstd::prelude::*;
use crate::filter::FilterType;
use crate::image::{Image, ImageView};

verus! {

/// A mapping from filter kind to a previously computed, downsized filtered
/// image, so repeat preview requests for the same filter are served without
/// invoking the external filter again.
pub struct PreviewCache {
    pub entries: Vec<(FilterType, Image)>,
}

/// The mathematical content of a list of cache entries.
pub open spec fn entries_map(entries: Seq<(FilterType, Image)>) -> Map<FilterType, ImageView>
    decreases entries.len(),
{
    if entries.len() == 0 {
        Map::empty()
    } else {
        entries_map(entries.drop_last()).insert(entries.last().0, entries.last().1@)
    }
}

impl View for PreviewCache {
    type V = Map<FilterType, ImageView>;

    open spec fn view(&self) -> Map<FilterType, ImageView> {
        entries_map(self.entries@)
    }
}

/// Membership in `entries_map` is membership among the entries' keys, and
/// with distinct keys the value is the matching entry's image.
proof fn lemma_entries_map_index(entries: Seq<(FilterType, Image)>, filter: FilterType)
    ensures
        entries_map(entries).contains_key(filter) <==> exists|i: int|
            0 <= i < entries.len() && (#[trigger] entries[i]).0 == filter,
        forall|i: int|
            0 <= i < entries.len() && (#[trigger] entries[i]).0 == filter && (forall|j: int|
                0 <= j < entries.len() && j != i ==> (#[trigger] entries[j]).0 != filter)
                ==> entries_map(entries)[filter] == entries[i].1@,
    decreases entries.len(),
{
    if entries.len() > 0 {
        lemma_entries_map_index(entries.drop_last(), filter);
        let n = entries.len() as int;
        assert forall|i: int|
            0 <= i < n && (#[trigger] entries[i]).0 == filter && (forall|j: int|
                0 <= j < n && j != i ==> (#[trigger] entries[j]).0 != filter)
                implies entries_map(entries)[filter] == entries[i].1@ by {
            if i == n - 1 {
                assert(entries_map(entries)[filter] == entries.last().1@);
            } else {
                assert(entries.last().0 != filter);
                assert(entries.drop_last()[i] == entries[i]);
                assert(forall|j: int|
                    0 <= j < n - 1 && j != i ==> (#[trigger] entries.drop_last()[j]).0
                        != filter);
            }
        }
        if entries.last().0 != filter {
            assert forall|i: int|
                0 <= i < n && (#[trigger] entries[i]).0 == filter implies entries_map(
                entries,
            ).contains_key(filter) by {
                assert(entries.drop_last()[i] == entries[i]);
            }
        }
    }
}

impl PreviewCache {
    /// The cached filter kinds are pairwise distinct, so each filter has at
    /// most one entry.
    pub open spec fn wf(self) -> bool {
        forall|i: int, j: int|
            0 <= i < self.entries@.len() && 0 <= j < self.entries@.len() && i != j ==> (
            #[trigger] self.entries@[i]).0 != (#[trigger] self.entries@[j]).0
    }

    /// An empty cache.
    pub fn new() -> (cache: PreviewCache)
        ensures
            cache@ == Map::<FilterType, ImageView>::empty(),
            cache.wf(),
    {
        PreviewCache { entries: Vec::new() }
    }

    /// Looks a filter up: a reference to its cached image, or `None` when
    /// the filter has no entry. Read-only.
    pub fn get(&self, filter: FilterType) -> (found: Option<&Image>)
        requires
            self.wf(),
        ensures
            match found {
                Some(img) => self@.contains_key(filter) && img@ == self@[filter],
                None => !self@.contains_key(filter),
            },
    {
        let n = self.entries.len();
        let mut i: usize = 0;
        while i < n
            invariant
                i <= n,
                n == self.entries@.len(),
                self.wf(),
                forall|j: int| 0 <= j < i ==> (#[trigger] self.entries@[j]).0 != filter,
            decreases n - i,
        {
            if self.entries[i].0 == filter {
                proof {
                    lemma_entries_map_index(self.entries@, filter);
                }
                return Some(&self.entries[i].1);
            }
            i = i + 1;
        }
        proof {
            lemma_entries_map_index(self.entries@, filter);
        }
        None
    }

    /// Caches the image computed for a filter that has no entry yet;
    /// existing entries are never overwritten.
    pub fn insert(&mut self, filter: FilterType, image: Image)
        requires
            old(self).wf(),
            !old(self)@.contains_key(filter),
        ensures
            final(self).wf(),
            final(self)@ == old(self)@.insert(filter, image@),
    {
        proof {
            lemma_entries_map_index(self.entries@, filter);
        }
        self.entries.push((filter, image));
        proof {
            assert(self.entries@.drop_last() =~= old(self).entries@);
        }
    }

    /// Drops every entry, leaving the cache empty.
    pub fn clear(&mut self)
        ensures
            final(self).wf(),
            final(self)@ == Map::<FilterType, ImageView>::empty(),
    {
        self.entries = Vec::new();
    }
}

} // verus!
