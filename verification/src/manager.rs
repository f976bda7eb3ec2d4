//! The orchestrator: owns the base image, the committed canvas contents,
//! the downsized base preview, the preview cache and the filter stack, and
//! serves as the single entry point for preview and commit operations.
//!
//! Drawing surfaces are modelled as plain [`Image`] values: the `canvas`
//! field holds what the bound canvas shows, and preview operations paint
//! into a caller-supplied raster. A host layer owns the real surfaces and
//! copies these rasters onto them after each operation.

use vstd::prelude::*;
use crate::effects::{apply_filter, filtered_view, resize_image, resized_view};
use crate::filter::{spec_filter_name, FilterType};
use crate::image::{Image, ImageView};
use crate::preview::PreviewCache;
use crate::stack::{apply_all, FilterStack};

verus! {

/// The smaller of two lengths.
pub open spec fn min2(a: nat, b: nat) -> nat {
    if a <= b {
        a
    } else {
        b
    }
}

/// The larger of two lengths.
pub open spec fn max2(a: nat, b: nat) -> nat {
    if a >= b {
        a
    } else {
        b
    }
}

/// `dim` scaled by the ratio `small / large`, rounded half-up: the exact
/// rational `dim * small / large + 1/2`, taken to the floor.
pub open spec fn scaled_dim(dim: nat, small: nat, large: nat) -> nat
    recommends
        large >= 1,
{
    (2 * (dim * small) + large) / (2 * large)
}

/// The downsized, aspect-ratio-preserving copy of `base` that a preview
/// request bounded by `max_width` x `max_height` produces: both dimensions
/// scaled by `min(max_width, max_height) / max(base.width, base.height)`.
/// An empty base image is its own preview, and a target with a zero
/// dimension holds no pixels at all.
pub open spec fn preview_view(base: ImageView, max_width: nat, max_height: nat) -> ImageView {
    let small = min2(max_width, max_height);
    let large = max2(base.width, base.height);
    if large == 0 {
        base
    } else {
        let w = scaled_dim(base.width, small, large);
        let h = scaled_dim(base.height, small, large);
        if w == 0 || h == 0 {
            ImageView { width: w, height: h, pixels: Seq::empty() }
        } else {
            resized_view(base, w, h)
        }
    }
}

/// The machine limit on preview generation: the downsized raster's byte
/// count must be representable in a `usize`.
pub open spec fn preview_fits(base: ImageView, max_width: nat, max_height: nat) -> bool {
    let small = min2(max_width, max_height);
    let large = max2(base.width, base.height);
    large == 0 || 4 * scaled_dim(base.width, small, large) * scaled_dim(
        base.height,
        small,
        large,
    ) <= usize::MAX
}

/// The lazily generated downsized copy of the base image, together with the
/// bounding dimensions it was requested at.
pub struct BasePreview {
    pub max_width: u32,
    pub max_height: u32,
    pub image: Image,
}

/// Owns the base image, the canvas contents, the preview state and the
/// committed filter stack.
pub struct ImageManager {
    /// The original, unfiltered image snapshotted at load time.
    pub base_image: Image,
    /// What the bound canvas currently shows: always the top of the
    /// committed stack, the base image while the stack is empty.
    pub canvas: Image,
    /// The downsized copy of the base image that previews are derived
    /// from, once one has been requested.
    pub base_preview: Option<BasePreview>,
    /// Previously computed downsized filtered images, keyed by filter.
    pub previews: PreviewCache,
    /// The committed filter applications, bottom to top.
    pub stack: FilterStack,
}

impl ImageManager {
    /// Whether a base preview exists and was generated at exactly these
    /// bounding dimensions.
    pub open spec fn has_preview_at(self, max_width: u32, max_height: u32) -> bool {
        match self.base_preview {
            Some(bp) => bp.max_width == max_width && bp.max_height == max_height,
            None => false,
        }
    }

    /// The current base preview's raster.
    pub open spec fn preview_image(self) -> ImageView
        recommends
            self.base_preview is Some,
    {
        match self.base_preview {
            Some(bp) => bp.image@,
            None => arbitrary(),
        }
    }

    /// The manager's invariant.
    ///
    /// The committed stack is cumulative over the base image; the canvas
    /// shows the stack's top (the base image when the stack is empty); the
    /// base preview, if present, is the base image downsized at its
    /// recorded dimensions; and every cached preview is exactly the
    /// external filter applied to the current base preview.
    pub open spec fn wf(self) -> bool {
        &&& self.base_image@.wf()
        &&& self.canvas@.wf()
        &&& self.stack.wf(self.base_image@)
        &&& self.canvas@ == self.stack.top_view(self.base_image@)
        &&& self.previews.wf()
        &&& match self.base_preview {
            Some(bp) => bp.image@ == preview_view(
                self.base_image@,
                bp.max_width as nat,
                bp.max_height as nat,
            ) && bp.image@.wf(),
            None => true,
        }
        &&& forall|f: FilterType|
            #[trigger] self.previews@.contains_key(f) ==> {
                &&& self.base_preview is Some
                &&& self.previews@[f] == filtered_view(self.preview_image(), spec_filter_name(f))
                &&& self.previews@[f].wf()
            }
    }

    /// Snapshots a canvas's current raster as the base image, with an
    /// empty stack, no base preview and an empty cache; the canvas is left
    /// showing exactly that raster.
    pub fn load_from_canvas(canvas: Image) -> (manager: ImageManager)
        requires
            canvas@.wf(),
        ensures
            manager.wf(),
            manager.base_image@ == canvas@,
            manager.canvas@ == canvas@,
            manager.stack.filters() == Seq::<FilterType>::empty(),
            manager.base_preview is None,
            manager.previews@ == Map::<FilterType, ImageView>::empty(),
    {
        let shown = canvas.duplicate();
        let manager = ImageManager {
            base_image: canvas,
            canvas: shown,
            base_preview: None,
            previews: PreviewCache::new(),
            stack: FilterStack::new(),
        };
        proof {
            assert(manager.stack.filters().len() == 0);
            assert(manager.canvas@ == manager.stack.top_view(manager.base_image@));
        }
        manager
    }

    /// Computes the downsized copy of `base` bounded by the given
    /// dimensions, using the external smooth resampling kernel.
    fn compute_preview(base: &Image, max_width: u32, max_height: u32) -> (preview: Image)
        requires
            base@.wf(),
            preview_fits(base@, max_width as nat, max_height as nat),
        ensures
            preview@ == preview_view(base@, max_width as nat, max_height as nat),
            preview@.wf(),
    {
        let small: u32 = if max_width <= max_height {
            max_width
        } else {
            max_height
        };
        let large: u32 = if base.width >= base.height {
            base.width
        } else {
            base.height
        };
        if large == 0 {
            return base.duplicate();
        }
        let w = Self::scale_side(base.width, small, large);
        let h = Self::scale_side(base.height, small, large);
        if w == 0 || h == 0 {
            let preview = Image { width: w, height: h, pixels: Vec::new() };
            proof {
                assert(4 * (w as nat) * (h as nat) == 0) by (nonlinear_arith)
                    requires
                        w == 0 || h == 0,
                ;
                assert(preview@.pixels =~= Seq::<u8>::empty());
                assert(preview@ =~= preview_view(base@, max_width as nat, max_height as nat));
            }
            preview
        } else {
            resize_image(base, w, h)
        }
    }

    /// One side of the scaled dimensions: `dim * small / large`, rounded
    /// half-up. Never exceeds `small` (so it fits a `u32`), since `dim` is
    /// at most `large`.
    fn scale_side(dim: u32, small: u32, large: u32) -> (scaled: u32)
        requires
            large >= 1,
            dim <= large,
        ensures
            scaled as nat == scaled_dim(dim as nat, small as nat, large as nat),
            scaled <= small,
    {
        let dim_wide: u128 = dim as u128;
        let small_wide: u128 = small as u128;
        let large_wide: u128 = large as u128;
        proof {
            assert((dim_wide as int) * (small_wide as int) <= 0xffffffff * 0xffffffff)
                by (nonlinear_arith)
                requires
                    dim_wide as int <= 0xffffffff,
                    small_wide as int <= 0xffffffff,
                    0 <= dim_wide as int,
                    0 <= small_wide as int,
            ;
        }
        let product: u128 = dim_wide * small_wide;
        let numerator: u128 = 2 * product + large_wide;
        let quotient: u128 = numerator / (2 * large_wide);
        proof {
            assert((2 * ((dim_wide as int) * (small_wide as int)) + large_wide as int) / (2
                * (large_wide as int)) <= small_wide as int) by (nonlinear_arith)
                requires
                    1 <= large_wide as int,
                    0 <= small_wide as int,
                    0 <= dim_wide as int,
                    dim_wide as int <= large_wide as int,
            ;
        }
        quotient as u32
    }

    /// Generates the downsized base preview at the given bounding
    /// dimensions. A second request at the same dimensions is a no-op;
    /// a request at different dimensions regenerates the preview and
    /// invalidates every cached filter preview.
    pub fn gen_filter_preview(&mut self, max_width: u32, max_height: u32)
        requires
            old(self).wf(),
            preview_fits(old(self).base_image@, max_width as nat, max_height as nat),
        ensures
            final(self).wf(),
            final(self).base_image == old(self).base_image,
            final(self).stack == old(self).stack,
            final(self).canvas == old(self).canvas,
            old(self).has_preview_at(max_width, max_height) ==> *final(self) == *old(self),
            !old(self).has_preview_at(max_width, max_height) ==> {
                &&& final(self).has_preview_at(max_width, max_height)
                &&& final(self).preview_image() == preview_view(
                    old(self).base_image@,
                    max_width as nat,
                    max_height as nat,
                )
                &&& final(self).previews@ == Map::<FilterType, ImageView>::empty()
            },
    {
        match &self.base_preview {
            Some(bp) => {
                if bp.max_width == max_width && bp.max_height == max_height {
                    return ;
                }
            },
            None => {},
        }
        let image = Self::compute_preview(&self.base_image, max_width, max_height);
        self.base_preview = Some(BasePreview { max_width, max_height, image });
        self.previews.clear();
    }

    /// Serves the downsized preview for `filter` into `canvas`, resizing
    /// it to the preview's dimensions: from the cache when present,
    /// otherwise computed from the base preview (generated at the target
    /// canvas's dimensions if none exists yet) and cached. Never touches
    /// the base image, the committed stack or the bound canvas.
    pub fn draw_filter_preview(&mut self, canvas: &mut Image, filter: FilterType)
        requires
            old(self).wf(),
            old(self).base_preview is None ==> preview_fits(
                old(self).base_image@,
                old(canvas)@.width,
                old(canvas)@.height,
            ),
        ensures
            final(self).wf(),
            final(self).base_image == old(self).base_image,
            final(self).stack == old(self).stack,
            final(self).canvas == old(self).canvas,
            final(canvas)@.wf(),
            old(self).base_preview is Some ==> final(self).base_preview == old(
                self,
            ).base_preview,
            old(self).base_preview is None && !old(self).previews@.contains_key(filter)
                ==> match final(self).base_preview {
                Some(bp) => bp.max_width as nat == old(canvas)@.width && bp.max_height as nat
                    == old(canvas)@.height,
                None => false,
            },
            old(self).previews@.contains_key(filter) ==> {
                &&& *final(self) == *old(self)
                &&& final(canvas)@ == old(self).previews@[filter]
            },
            !old(self).previews@.contains_key(filter) ==> {
                &&& final(self).base_preview is Some
                &&& final(self).preview_image() == (match old(self).base_preview {
                    Some(bp) => bp.image@,
                    None => preview_view(
                        old(self).base_image@,
                        old(canvas)@.width,
                        old(canvas)@.height,
                    ),
                })
                &&& final(self).previews@ == old(self).previews@.insert(
                    filter,
                    filtered_view(final(self).preview_image(), spec_filter_name(filter)),
                )
                &&& final(canvas)@ == filtered_view(
                    final(self).preview_image(),
                    spec_filter_name(filter),
                )
            },
    {
        let cached = self.previews.get(filter);
        match cached {
            Some(image) => {
                *canvas = image.duplicate();
                return ;
            },
            None => {},
        }
        if self.base_preview.is_none() {
            let image = Self::compute_preview(&self.base_image, canvas.width, canvas.height);
            self.base_preview = Some(
                BasePreview { max_width: canvas.width, max_height: canvas.height, image },
            );
        }
        let filtered = match &self.base_preview {
            Some(bp) => apply_filter(&bp.image, filter),
            None => vstd::pervasive::unreached(),
        };
        let shown = filtered.duplicate();
        self.previews.insert(filter, filtered);
        *canvas = shown;
    }

    /// Commits `filter` on top of the stack and paints the new top image
    /// onto the bound canvas at its native resolution. Always succeeds;
    /// previews and the base image are untouched.
    pub fn add_filter(&mut self, filter: FilterType)
        requires
            old(self).wf(),
        ensures
            final(self).wf(),
            final(self).base_image == old(self).base_image,
            final(self).base_preview == old(self).base_preview,
            final(self).previews == old(self).previews,
            final(self).stack.filters() == old(self).stack.filters().push(filter),
            final(self).canvas@ == apply_all(
                old(self).base_image@,
                final(self).stack.filters(),
            ),
    {
        self.stack.append(&self.base_image, filter);
        proof {
            assert(self.stack.wf(self.base_image@));
        }
        let top = self.stack.top_image();
        match top {
            Some(image) => {
                let shown = image.duplicate();
                self.canvas = shown;
            },
            None => {
                proof {
                    assert(false);
                }
            },
        }
    }

    /// Uncommits the first layer holding `filter`: layers above it are
    /// recomputed against its predecessor, and the bound canvas is
    /// repainted with the resulting top image (the original base image
    /// when the stack became empty). A filter not in the stack is a no-op.
    pub fn remove_filter(&mut self, filter: FilterType)
        requires
            old(self).wf(),
        ensures
            final(self).wf(),
            final(self).base_image == old(self).base_image,
            final(self).base_preview == old(self).base_preview,
            final(self).previews == old(self).previews,
            match old(self).stack.filters().index_of_first(filter) {
                Some(at) => {
                    &&& final(self).stack.filters() == old(self).stack.filters().remove(at)
                    &&& final(self).canvas@ == apply_all(
                        old(self).base_image@,
                        final(self).stack.filters(),
                    )
                },
                None => *final(self) == *old(self),
            },
    {
        proof {
            old(self).stack.filters().index_of_first_ensures(filter);
        }
        if !self.stack.contains(filter) {
            return ;
        }
        self.stack.remove(&self.base_image, filter);
        proof {
            assert(self.stack.wf(self.base_image@));
        }
        let top = self.stack.top_image();
        match top {
            Some(image) => {
                let shown = image.duplicate();
                self.canvas = shown;
            },
            None => {
                self.canvas = self.base_image.duplicate();
            },
        }
    }
}

} // verus!
