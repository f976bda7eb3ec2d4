//! The committed filter stack: an ordered sequence of layers applied
//! cumulatively on top of a base image.
//!
//! Each layer holds the filter applied and the resulting full-resolution
//! image; layer `i`'s image is exactly the external filter applied to layer
//! `i-1`'s image (the base image for layer 0). Removing a layer recomputes
//! every layer after it, since each depends on its predecessor's output.

use vstd::prelude::*;
use crate::effects::{apply_filter, filtered_view};
use crate::filter::{spec_filter_name, FilterType};
use crate::image::{Image, ImageView};

verus! {

/// One committed filter application: the filter and its cumulative output
/// image, which already incorporates every prior layer.
pub struct FilterLayer {
    pub filter: FilterType,
    pub image: Image,
}

/// The image obtained by applying `filters` in order on top of `base`.
pub open spec fn apply_all(base: ImageView, filters: Seq<FilterType>) -> ImageView
    decreases filters.len(),
{
    if filters.len() == 0 {
        base
    } else {
        filtered_view(apply_all(base, filters.drop_last()), spec_filter_name(filters.last()))
    }
}

/// An ordered sequence of committed filter layers; insertion order is
/// application order and visual z-order (later entries strictly on top).
pub struct FilterStack {
    pub layers: Vec<FilterLayer>,
}

impl FilterStack {
    /// The filters committed so far, bottom to top.
    pub open spec fn filters(self) -> Seq<FilterType> {
        self.layers@.map_values(|layer: FilterLayer| layer.filter)
    }

    /// Cumulative correctness over `base`: every layer's image is exactly
    /// the filters up to and including it, applied in order to the base
    /// image, and every layer's image is a well-formed raster.
    pub open spec fn wf(self, base: ImageView) -> bool {
        forall|i: int|
            0 <= i < self.layers@.len() ==> {
                &&& (#[trigger] self.layers@[i]).image@ == apply_all(
                    base,
                    self.filters().take(i + 1),
                )
                &&& self.layers@[i].image@.wf()
            }
    }

    /// The image the stack's top layer shows over `base`: the base image
    /// itself while the stack is empty.
    pub open spec fn top_view(self, base: ImageView) -> ImageView {
        apply_all(base, self.filters())
    }

    /// An empty stack, well formed over every base image.
    pub fn new() -> (stack: FilterStack)
        ensures
            stack.filters() == Seq::<FilterType>::empty(),
            forall|base: ImageView| stack.wf(base),
    {
        let stack = FilterStack { layers: Vec::new() };
        proof {
            assert(stack.filters() =~= Seq::<FilterType>::empty());
        }
        stack
    }

    /// How many layers are committed.
    pub fn len(&self) -> (n: usize)
        ensures
            n == self.filters().len(),
    {
        self.layers.len()
    }

    /// A reference to the top layer's image, or `None` while the stack is
    /// empty.
    pub fn top_image(&self) -> (top: Option<&Image>)
        requires
            exists|base: ImageView| self.wf(base),
        ensures
            match top {
                Some(img) => self.filters().len() > 0 && img@.wf() && forall|base: ImageView|
                    self.wf(base) ==> img@ == self.top_view(base),
                None => self.filters().len() == 0,
            },
    {
        if self.layers.len() == 0 {
            None
        } else {
            let img = &self.layers[self.layers.len() - 1].image;
            proof {
                let n = self.layers@.len() as int;
                assert forall|base: ImageView| self.wf(base) implies img@ == self.top_view(
                    base,
                ) by {
                    assert(self.layers@[n - 1].image@ == apply_all(base, self.filters().take(n)));
                    assert(self.filters().take(n) =~= self.filters());
                }
                let witness = choose|base: ImageView| self.wf(base);
                assert(self.wf(witness));
                assert(self.layers@[n - 1].image@.wf());
            }
            Some(img)
        }
    }

    /// Whether some committed layer holds `filter`.
    pub fn contains(&self, filter: FilterType) -> (found: bool)
        ensures
            found == self.filters().contains(filter),
    {
        let n = self.layers.len();
        let mut i: usize = 0;
        while i < n
            invariant
                i <= n,
                n == self.layers@.len(),
                forall|j: int| 0 <= j < i ==> self.filters()[j] != filter,
            decreases n - i,
        {
            if self.layers[i].filter == filter {
                proof {
                    assert(self.filters()[i as int] == filter);
                }
                return true;
            }
            i = i + 1;
        }
        proof {
            assert(!self.filters().contains(filter)) by {
                if self.filters().contains(filter) {
                    let w = choose|w: int|
                        0 <= w < self.filters().len() && self.filters()[w] == filter;
                    assert(self.filters()[w] != filter);
                }
            }
        }
        false
    }

    /// Commits one more filter: the new top layer's image is the external
    /// filter applied to the previous top image (the base image if the
    /// stack was empty). Always succeeds; committing a filter already in
    /// the stack adds an independent layer on top.
    pub fn append(&mut self, base: &Image, filter: FilterType)
        requires
            base@.wf(),
            old(self).wf(base@),
        ensures
            final(self).wf(base@),
            final(self).filters() == old(self).filters().push(filter),
    {
        let ghost old_filters = self.filters();
        let filtered = if self.layers.len() == 0 {
            proof {
                assert(old_filters.len() == 0);
                assert(apply_all(base@, old_filters) == base@);
            }
            apply_filter(base, filter)
        } else {
            let top = &self.layers[self.layers.len() - 1].image;
            proof {
                let n = self.layers@.len() as int;
                assert(old_filters.take(n) =~= old_filters);
                assert(top@ == apply_all(base@, old_filters));
            }
            apply_filter(top, filter)
        };
        proof {
            assert(old_filters.push(filter).drop_last() =~= old_filters);
            assert(filtered@ == apply_all(base@, old_filters.push(filter)));
        }
        self.layers.push(FilterLayer { filter, image: filtered });
        proof {
            assert(self.filters() =~= old_filters.push(filter));
            let n = self.layers@.len() as int;
            assert forall|i: int| 0 <= i < n implies {
                &&& (#[trigger] self.layers@[i]).image@ == apply_all(
                    base@,
                    self.filters().take(i + 1),
                )
                &&& self.layers@[i].image@.wf()
            } by {
                if i < n - 1 {
                    assert(self.layers@[i] == old(self).layers@[i]);
                    assert(self.filters().take(i + 1) =~= old_filters.take(i + 1));
                } else {
                    assert(self.filters().take(n) =~= old_filters.push(filter));
                }
            }
        }
    }

    /// Removes the first layer committed for `filter`, if any, and
    /// recomputes every layer above it against its predecessor's image (the
    /// base image when the bottom layer was removed). A filter absent from
    /// the stack is a no-op, not an error.
    pub fn remove(&mut self, base: &Image, filter: FilterType)
        requires
            base@.wf(),
            old(self).wf(base@),
        ensures
            final(self).wf(base@),
            match old(self).filters().index_of_first(filter) {
                Some(at) => final(self).filters() == old(self).filters().remove(at),
                None => *final(self) == *old(self),
            },
    {
        let ghost old_filters = self.filters();
        let n = self.layers.len();
        let mut at: usize = 0;
        while at < n && !(self.layers[at].filter == filter)
            invariant
                at <= n,
                n == self.layers@.len(),
                *self == *old(self),
                forall|j: int| 0 <= j < at ==> self.filters()[j] != filter,
            decreases n - at,
        {
            at = at + 1;
        }
        proof {
            old_filters.index_of_first_ensures(filter);
        }
        if at == n {
            proof {
                assert(forall|j: int| 0 <= j < old_filters.len() ==> old_filters[j] != filter);
                assert(!old_filters.contains(filter)) by {
                    if old_filters.contains(filter) {
                        let w = choose|w: int|
                            0 <= w < old_filters.len() && old_filters[w] == filter;
                        assert(old_filters[w] != filter);
                    }
                }
            }
            return ;
        }
        proof {
            assert(old_filters[at as int] == filter);
            assert(old_filters.contains(filter));
            let first = old_filters.index_of_first(filter).unwrap();
            assert(old_filters[first] == filter);
            assert(first <= at) by {
                if first > at {
                    assert(old_filters[at as int] != filter);
                }
            }
            assert(first == at);
        }
        let mut suffix: Vec<FilterType> = Vec::new();
        let mut j: usize = at + 1;
        while j < n
            invariant
                at < j <= n,
                n == self.layers@.len(),
                *self == *old(self),
                suffix@ == self.filters().subrange(at + 1, j as int),
            decreases n - j,
        {
            let next = self.layers[j].filter;
            suffix.push(next);
            proof {
                assert(suffix@ =~= self.filters().subrange(at + 1, j + 1));
            }
            j = j + 1;
        }
        self.layers.truncate(at);
        proof {
            assert(self.filters() =~= old_filters.take(at as int));
            assert(self.wf(base@)) by {
                assert forall|i: int| 0 <= i < self.layers@.len() implies {
                    &&& (#[trigger] self.layers@[i]).image@ == apply_all(
                        base@,
                        self.filters().take(i + 1),
                    )
                    &&& self.layers@[i].image@.wf()
                } by {
                    assert(self.layers@[i] == old(self).layers@[i]);
                    assert(self.filters().take(i + 1) =~= old_filters.take(i + 1));
                }
            }
        }
        let mut k: usize = 0;
        while k < suffix.len()
            invariant
                k <= suffix.len(),
                base@.wf(),
                suffix@ == old_filters.subrange(at as int + 1, n as int),
                at < n == old_filters.len(),
                self.wf(base@),
                self.filters() == old_filters.take(at as int) + suffix@.take(k as int),
            decreases suffix.len() - k,
        {
            let next = suffix[k];
            self.append(base, next);
            proof {
                assert(self.filters() =~= old_filters.take(at as int) + suffix@.take(
                    k as int + 1,
                ));
            }
            k = k + 1;
        }
        proof {
            assert(suffix@.take(suffix@.len() as int) =~= suffix@);
            assert(self.filters() =~= old_filters.remove(at as int));
        }
    }
}

} // verus!
