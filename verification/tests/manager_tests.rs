use canvas_filters::Image;
use canvas_filters::ImageManager;
use canvas_filters::FilterType;

/// A deterministic non-constant RGBA test raster.
fn gradient_image(width: u32, height: u32) -> Image {
    let mut pixels: Vec<u8> = Vec::new();
    for y in 0..height {
        for x in 0..width {
            pixels.push((x % 256) as u8);
            pixels.push((y % 256) as u8);
            pixels.push(((x + y) % 256) as u8);
            pixels.push(255);
        }
    }
    Image::new(width, height, pixels).unwrap()
}

/// The external filter applied directly through photon, for expected values.
fn photon_filtered(img: &Image, name: &str) -> Image {
    let mut photon_image =
        photon_rs::PhotonImage::new(img.pixels().clone(), img.width(), img.height());
    photon_rs::filters::filter(&mut photon_image, name);
    Image::new(
        photon_image.get_width(),
        photon_image.get_height(),
        photon_image.get_raw_pixels(),
    )
    .unwrap()
}

/// The external Lanczos3 resample applied directly through photon.
fn photon_resized(img: &Image, width: u32, height: u32) -> Image {
    let photon_image =
        photon_rs::PhotonImage::new(img.pixels().clone(), img.width(), img.height());
    let resized = photon_rs::transform::resize(
        &photon_image,
        width,
        height,
        photon_rs::transform::SamplingFilter::Lanczos3,
    );
    Image::new(resized.get_width(), resized.get_height(), resized.get_raw_pixels()).unwrap()
}

/// An all-zero canvas stub of the given dimensions.
fn blank_canvas(width: u32, height: u32) -> Image {
    Image::new(width, height, vec![0u8; (4 * width * height) as usize]).unwrap()
}

#[test]
fn image_new_rejects_wrong_buffer_length() {
    assert!(Image::new(2, 2, vec![0u8; 15]).is_none());
    assert!(Image::new(2, 2, vec![0u8; 17]).is_none());
    assert!(Image::new(2, 2, vec![0u8; 16]).is_some());
    assert!(Image::new(0, 7, Vec::new()).is_some());
}

#[test]
fn load_snapshots_base_onto_canvas() {
    let base = gradient_image(3, 2);
    let manager = ImageManager::load_from_canvas(base.duplicate());
    assert!(manager.canvas.same_as(&base));
    assert!(manager.base_image.same_as(&base));
    assert_eq!(manager.stack.len(), 0);
}

#[test]
fn add_filter_commits_cumulatively() {
    let base = gradient_image(3, 2);
    let mut manager = ImageManager::load_from_canvas(base.duplicate());

    manager.add_filter(FilterType::Oceanic);
    let after_one = photon_filtered(&base, "oceanic");
    assert!(manager.canvas.same_as(&after_one));

    manager.add_filter(FilterType::Vintage);
    let after_two = photon_filtered(&after_one, "vintage");
    assert!(manager.canvas.same_as(&after_two));
    assert_eq!(manager.stack.len(), 2);
}

#[test]
fn add_filter_changes_the_canvas() {
    let base = gradient_image(4, 4);
    let mut manager = ImageManager::load_from_canvas(base.duplicate());
    manager.add_filter(FilterType::Oceanic);
    assert!(!manager.canvas.same_as(&base));
}

#[test]
fn remove_top_restores_previous_canvas() {
    let base = gradient_image(5, 3);
    let mut manager = ImageManager::load_from_canvas(base);
    manager.add_filter(FilterType::Oceanic);
    manager.add_filter(FilterType::Marine);
    let committed_two = manager.canvas.duplicate();

    manager.add_filter(FilterType::Vintage);
    assert!(!manager.canvas.same_as(&committed_two));

    manager.remove_filter(FilterType::Vintage);
    assert!(manager.canvas.same_as(&committed_two));
    assert_eq!(manager.stack.len(), 2);
}

#[test]
fn remove_interior_recomputes_suffix() {
    let base = gradient_image(4, 3);
    let mut manager = ImageManager::load_from_canvas(base.duplicate());
    manager.add_filter(FilterType::Oceanic);
    manager.add_filter(FilterType::Vintage);

    manager.remove_filter(FilterType::Oceanic);
    let expected = photon_filtered(&base, "vintage");
    assert!(manager.canvas.same_as(&expected));
    assert_eq!(manager.stack.len(), 1);
}

#[test]
fn remove_interior_of_three_layers() {
    let base = gradient_image(4, 4);
    let mut manager = ImageManager::load_from_canvas(base.duplicate());
    manager.add_filter(FilterType::Radio);
    manager.add_filter(FilterType::Mauve);
    manager.add_filter(FilterType::Perfume);

    manager.remove_filter(FilterType::Mauve);
    let expected = photon_filtered(&photon_filtered(&base, "radio"), "perfume");
    assert!(manager.canvas.same_as(&expected));
    assert_eq!(manager.stack.len(), 2);
}

#[test]
fn remove_sole_layer_restores_base() {
    let base = gradient_image(6, 2);
    let mut manager = ImageManager::load_from_canvas(base.duplicate());
    manager.add_filter(FilterType::Radio);
    assert!(!manager.canvas.same_as(&base));

    manager.remove_filter(FilterType::Radio);
    assert!(manager.canvas.same_as(&base));
    assert_eq!(manager.stack.len(), 0);
}

#[test]
fn remove_absent_filter_is_a_noop() {
    let base = gradient_image(3, 3);
    let mut manager = ImageManager::load_from_canvas(base.duplicate());
    manager.remove_filter(FilterType::Liquid);
    assert!(manager.canvas.same_as(&base));
    assert_eq!(manager.stack.len(), 0);

    manager.add_filter(FilterType::Oceanic);
    let committed = manager.canvas.duplicate();
    manager.remove_filter(FilterType::Liquid);
    assert!(manager.canvas.same_as(&committed));
    assert_eq!(manager.stack.len(), 1);
}

#[test]
fn preview_has_ratio_preserving_dimensions() {
    let base = gradient_image(1000, 500);
    let mut manager = ImageManager::load_from_canvas(base.duplicate());
    manager.gen_filter_preview(200, 200);

    let mut preview_canvas = blank_canvas(1, 1);
    manager.draw_filter_preview(&mut preview_canvas, FilterType::Oceanic);

    assert_eq!(preview_canvas.width(), 200);
    assert_eq!(preview_canvas.height(), 100);
    let expected = photon_filtered(&photon_resized(&base, 200, 100), "oceanic");
    assert!(preview_canvas.same_as(&expected));
}

#[test]
fn preview_cache_hit_returns_identical_pixels() {
    let base = gradient_image(80, 40);
    let mut manager = ImageManager::load_from_canvas(base);
    manager.gen_filter_preview(32, 32);

    let mut first = blank_canvas(1, 1);
    manager.draw_filter_preview(&mut first, FilterType::Marine);
    let mut second = blank_canvas(1, 1);
    manager.draw_filter_preview(&mut second, FilterType::Marine);
    assert!(first.same_as(&second));
}

#[test]
fn preview_never_disturbs_committed_state() {
    let base = gradient_image(40, 20);
    let mut manager = ImageManager::load_from_canvas(base.duplicate());
    manager.add_filter(FilterType::Oceanic);
    let committed = manager.canvas.duplicate();

    manager.gen_filter_preview(16, 16);
    let mut preview_canvas = blank_canvas(1, 1);
    manager.draw_filter_preview(&mut preview_canvas, FilterType::Marine);
    manager.draw_filter_preview(&mut preview_canvas, FilterType::Vintage);

    assert!(manager.canvas.same_as(&committed));
    assert!(manager.base_image.same_as(&base));
    assert_eq!(manager.stack.len(), 1);

    manager.add_filter(FilterType::Vintage);
    let expected = photon_filtered(&photon_filtered(&base, "oceanic"), "vintage");
    assert!(manager.canvas.same_as(&expected));
}

#[test]
fn preview_generation_is_idempotent_at_same_dimensions() {
    let base = gradient_image(100, 60);
    let mut manager = ImageManager::load_from_canvas(base.duplicate());
    manager.gen_filter_preview(40, 40);

    let mut first = blank_canvas(1, 1);
    manager.draw_filter_preview(&mut first, FilterType::Twenties);

    manager.gen_filter_preview(40, 40);
    let mut second = blank_canvas(1, 1);
    manager.draw_filter_preview(&mut second, FilterType::Twenties);
    assert!(first.same_as(&second));
}

#[test]
fn preview_regeneration_invalidates_cached_previews() {
    let base = gradient_image(100, 50);
    let mut manager = ImageManager::load_from_canvas(base.duplicate());
    manager.gen_filter_preview(40, 40);
    let mut first = blank_canvas(1, 1);
    manager.draw_filter_preview(&mut first, FilterType::Twenties);
    assert_eq!(first.width(), 40);
    assert_eq!(first.height(), 20);

    manager.gen_filter_preview(20, 20);
    let mut second = blank_canvas(1, 1);
    manager.draw_filter_preview(&mut second, FilterType::Twenties);
    assert_eq!(second.width(), 20);
    assert_eq!(second.height(), 10);
    let expected = photon_filtered(&photon_resized(&base, 20, 10), "twenties");
    assert!(second.same_as(&expected));
}

#[test]
fn draw_preview_generates_at_canvas_dimensions_when_absent() {
    let base = gradient_image(8, 4);
    let mut manager = ImageManager::load_from_canvas(base.duplicate());

    let mut preview_canvas = blank_canvas(64, 64);
    manager.draw_filter_preview(&mut preview_canvas, FilterType::Marine);
    assert_eq!(preview_canvas.width(), 64);
    assert_eq!(preview_canvas.height(), 32);
    let expected = photon_filtered(&photon_resized(&base, 64, 32), "marine");
    assert!(preview_canvas.same_as(&expected));
}

#[test]
fn empty_base_image_previews_as_itself() {
    let base = Image::new(0, 0, Vec::new()).unwrap();
    let mut manager = ImageManager::load_from_canvas(base);
    manager.gen_filter_preview(50, 50);

    let mut preview_canvas = blank_canvas(1, 1);
    manager.draw_filter_preview(&mut preview_canvas, FilterType::Serenity);
    assert_eq!(preview_canvas.width(), 0);
    assert_eq!(preview_canvas.height(), 0);
}

#[test]
fn preview_scaled_to_zero_holds_no_pixels() {
    // min(1, 1) / max(1, 1000) scales the width of a 1 x 1000 strip to
    // round(1 / 1000) = 0, so the preview raster is empty.
    let base = gradient_image(1, 1000);
    let mut manager = ImageManager::load_from_canvas(base);
    manager.gen_filter_preview(1, 1);

    let mut preview_canvas = blank_canvas(1, 1);
    manager.draw_filter_preview(&mut preview_canvas, FilterType::FlagBlue);
    assert_eq!(preview_canvas.width(), 0);
    assert_eq!(preview_canvas.height(), 1);
    assert_eq!(preview_canvas.pixels().len(), 0);
}

#[test]
fn duplicate_filters_commit_independent_layers() {
    let base = gradient_image(3, 3);
    let mut manager = ImageManager::load_from_canvas(base.duplicate());
    manager.add_filter(FilterType::Oceanic);
    manager.add_filter(FilterType::Vintage);
    manager.add_filter(FilterType::Oceanic);
    assert_eq!(manager.stack.len(), 3);

    // Removal is keyed by filter and takes the first (bottom-most) match:
    // the remaining layers are Vintage then Oceanic, recomputed in order.
    manager.remove_filter(FilterType::Oceanic);
    assert_eq!(manager.stack.len(), 2);
    let expected = photon_filtered(&photon_filtered(&base, "vintage"), "oceanic");
    assert!(manager.canvas.same_as(&expected));
}
