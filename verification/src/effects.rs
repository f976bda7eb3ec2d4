//! The external pixel transforms, behind trusted wrappers.
//!
//! The colour filters and the resampling kernel are `photon_rs`'s work and
//! are out of scope here: each is a pure, deterministic function of its
//! arguments, so its result is given a name (`filtered_pixels`,
//! `resized_pixels`) that the rest of the library reasons with, together
//! with the few facts the crate's source plainly shows (dimensions kept by
//! filters, dimensions chosen by resize).

use vstd::prelude::*;
use crate::filter::{FilterType, get_filter_name, spec_filter_name};
use crate::image::{Image, ImageView};

verus! {

/// The pixel bytes that `photon_rs::filters::filter` produces for a given
/// raster and filter name.
pub uninterp spec fn filtered_pixels(img: ImageView, name: Seq<char>) -> Seq<u8>;

/// The pixel bytes that `photon_rs::transform::resize` (Lanczos3 kernel)
/// produces for a given raster and target dimensions.
pub uninterp spec fn resized_pixels(img: ImageView, width: nat, height: nat) -> Seq<u8>;

/// The image that applying the named colour filter yields: same dimensions,
/// filtered pixels.
pub open spec fn filtered_view(img: ImageView, name: Seq<char>) -> ImageView {
    ImageView { width: img.width, height: img.height, pixels: filtered_pixels(img, name) }
}

/// The image that resampling to `width` x `height` yields.
pub open spec fn resized_view(img: ImageView, width: nat, height: nat) -> ImageView {
    ImageView { width, height, pixels: resized_pixels(img, width, height) }
}

/// Relies on `photon_rs::filters::filter`: a per-pixel colour transform,
/// deterministic in the raster and the filter name, which leaves the
/// buffer's length and the image's dimensions unchanged. It reads four
/// bytes per pixel, hence the well-formedness precondition.
#[verifier::external_body]
fn photon_filter(img: &Image, name: &str) -> (result: Image)
    requires
        img@.wf(),
    ensures
        result@.width == img@.width,
        result@.height == img@.height,
        result@.pixels.len() == img@.pixels.len(),
        result@.pixels == filtered_pixels(img@, name@),
{
    let mut photon_image = photon_rs::PhotonImage::new(img.pixels.clone(), img.width, img.height);
    photon_rs::filters::filter(&mut photon_image, name);
    Image {
        width: photon_image.get_width(),
        height: photon_image.get_height(),
        pixels: photon_image.get_raw_pixels(),
    }
}

/// Relies on `photon_rs::transform::resize` with the Lanczos3 kernel: a
/// deterministic resampling that returns an image of exactly the requested
/// dimensions, four bytes per pixel. The source buffer must be well formed,
/// the target dimensions positive, and the target buffer representable.
#[verifier::external_body]
fn photon_resize(img: &Image, width: u32, height: u32) -> (result: Image)
    requires
        img@.wf(),
        width >= 1,
        height >= 1,
        4 * (width as nat) * (height as nat) <= usize::MAX,
    ensures
        result@.width == width as nat,
        result@.height == height as nat,
        result@.pixels.len() == 4 * (width as nat) * (height as nat),
        result@.pixels == resized_pixels(img@, width as nat, height as nat),
{
    let photon_image = photon_rs::PhotonImage::new(img.pixels.clone(), img.width, img.height);
    let kernel = photon_rs::transform::SamplingFilter::Lanczos3;
    let resized = photon_rs::transform::resize(&photon_image, width, height, kernel);
    Image {
        width: resized.get_width(),
        height: resized.get_height(),
        pixels: resized.get_raw_pixels(),
    }
}

/// Applies the external colour filter for `filter` to `img`: the result has
/// the same dimensions and the filter's pixels, and is well formed.
pub fn apply_filter(img: &Image, filter: FilterType) -> (result: Image)
    requires
        img@.wf(),
    ensures
        result@ == filtered_view(img@, spec_filter_name(filter)),
        result@.wf(),
{
    let name = get_filter_name(filter);
    let result = photon_filter(img, name.as_str());
    proof {
        assert(result@ =~= filtered_view(img@, spec_filter_name(filter)));
    }
    result
}

/// Resamples `img` to `width` x `height` with the external smooth kernel:
/// the result has exactly the requested dimensions and is well formed.
pub fn resize_image(img: &Image, width: u32, height: u32) -> (result: Image)
    requires
        img@.wf(),
        width >= 1,
        height >= 1,
        4 * (width as nat) * (height as nat) <= usize::MAX,
    ensures
        result@ == resized_view(img@, width as nat, height as nat),
        result@.wf(),
{
    let result = photon_resize(img, width, height);
    proof {
        assert(result@ =~= resized_view(img@, width as nat, height as nat));
    }
    result
}

} // verus!
