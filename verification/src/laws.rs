//! The library's global guarantees, stated and proved once.
//!
//! Each lemma here is a fact a caller may rely on across operations:
//! cumulative correctness of the committed stack, what removal leaves on
//! the canvas, and that cache hits serve exactly the image computed first.

use vstd::prelude::*;
use crate::effects::filtered_view;
use crate::filter::{spec_filter_name, FilterType};
use crate::image::ImageView;
use crate::manager::ImageManager;
use crate::stack::apply_all;

verus! {

/// Stack cumulative correctness: in a well-formed manager, the image at
/// layer `i` is exactly the first `i + 1` committed filters applied in
/// order on top of the base image, so successive application order is
/// preserved exactly.
pub proof fn lemma_stack_cumulative(manager: ImageManager, i: int)
    requires
        manager.wf(),
        0 <= i < manager.stack.layers@.len(),
    ensures
        manager.stack.layers@[i].image@ == apply_all(
            manager.base_image@,
            manager.stack.filters().take(i + 1),
        ),
{
}

/// Appending one filter transforms the cumulative image by exactly one
/// application of the external filter.
pub proof fn lemma_apply_all_push(base: ImageView, filters: Seq<FilterType>, filter: FilterType)
    ensures
        apply_all(base, filters.push(filter)) == filtered_view(
            apply_all(base, filters),
            spec_filter_name(filter),
        ),
{
    assert(filters.push(filter).drop_last() =~= filters);
}

/// Removal of the top: with `filter` not committed below, removing it
/// right after committing it restores the previous cumulative image, so
/// the canvas shows what it showed before the commit.
pub proof fn lemma_remove_top(base: ImageView, filters: Seq<FilterType>, filter: FilterType)
    requires
        !filters.contains(filter),
    ensures
        filters.push(filter).index_of_first(filter) == Some(filters.len() as int),
        apply_all(base, filters.push(filter).remove(filters.len() as int)) == apply_all(
            base,
            filters,
        ),
{
    let pushed = filters.push(filter);
    pushed.index_of_first_ensures(filter);
    assert(pushed[filters.len() as int] == filter);
    let at = pushed.index_of_first(filter).unwrap();
    assert(at == filters.len() as int) by {
        if at < filters.len() as int {
            assert(filters[at] == pushed[at]);
            assert(filters.contains(filter));
        }
    }
    assert(pushed.remove(filters.len() as int) =~= filters);
}

/// Removal of an interior layer: removing `b` from the stack `[a, b, c]`
/// recomputes `c` against `a`'s output, so the resulting top image is
/// `c` applied to `a` applied to the base — `b` drops out entirely.
pub proof fn lemma_remove_interior(base: ImageView, a: FilterType, b: FilterType, c: FilterType)
    requires
        a != b,
    ensures
        seq![a, b, c].index_of_first(b) == Some(1int),
        apply_all(base, seq![a, b, c].remove(1)) == filtered_view(
            filtered_view(base, spec_filter_name(a)),
            spec_filter_name(c),
        ),
{
    let committed = seq![a, b, c];
    committed.index_of_first_ensures(b);
    assert(committed[1] == b);
    assert(committed.contains(b));
    let at = committed.index_of_first(b).unwrap();
    assert(at == 1) by {
        if at == 0 {
            assert(committed[0] == a);
        }
        if at == 2 {
            assert(committed[1] == b && 1 < at);
        }
    }
    assert(committed.index_of_first(b) == Some(1int));
    let remaining = committed.remove(1);
    assert(remaining =~= seq![a, c]);
    assert(seq![a, c].drop_last() =~= seq![a]);
    assert(seq![a].drop_last() =~= Seq::<FilterType>::empty());
    assert(seq![a].last() == a && seq![a, c].last() == c);
    assert(apply_all(base, Seq::<FilterType>::empty()) == base);
    assert(apply_all(base, seq![a]) == filtered_view(base, spec_filter_name(a)));
    assert(apply_all(base, seq![a, c]) == filtered_view(
        filtered_view(base, spec_filter_name(a)),
        spec_filter_name(c),
    ));
}

/// Removal of everything: removing the sole committed layer leaves the
/// cumulative image equal to the original base image, with the stack
/// empty.
pub proof fn lemma_remove_sole_layer(base: ImageView, filter: FilterType)
    ensures
        seq![filter].index_of_first(filter) == Some(0int),
        seq![filter].remove(0).len() == 0,
        apply_all(base, seq![filter].remove(0)) == base,
{
    let committed = seq![filter];
    committed.index_of_first_ensures(filter);
    assert(committed[0] == filter);
    assert(committed.remove(0).len() == 0);
}

/// Preview cache hits are pixel-identical to the first computation: in a
/// well-formed manager, a cached entry holds exactly the external filter
/// applied to the current base preview, so serving it repeats no work and
/// returns the same image.
pub proof fn lemma_preview_cache_hit(manager: ImageManager, filter: FilterType)
    requires
        manager.wf(),
        manager.previews@.contains_key(filter),
    ensures
        manager.base_preview is Some,
        manager.previews@[filter] == filtered_view(
            manager.preview_image(),
            spec_filter_name(filter),
        ),
{
}

} // verus!
