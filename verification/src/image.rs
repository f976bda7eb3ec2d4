//! The raster value type: width, height and RGBA pixel bytes.
//!
//! Images have plain value semantics: every transform produces a new
//! `Image`, and two images are equal exactly when width, height and pixel
//! data coincide. A well-formed image holds exactly four bytes per pixel.

use vstd::prelude::*;

verus! {

/// The mathematical value of an [`Image`]: its dimensions and pixel bytes.
#[verifier::ext_equal]
pub ghost struct ImageView {
    pub width: nat,
    pub height: nat,
    pub pixels: Seq<u8>,
}

impl ImageView {
    /// A well-formed raster holds exactly four bytes (RGBA) per pixel.
    pub open spec fn wf(self) -> bool {
        self.pixels.len() == 4 * self.width * self.height
    }
}

/// An opaque raster buffer: width, height and RGBA pixel data.
pub struct Image {
    pub width: u32,
    pub height: u32,
    pub pixels: Vec<u8>,
}

impl View for Image {
    type V = ImageView;

    open spec fn view(&self) -> ImageView {
        ImageView { width: self.width as nat, height: self.height as nat, pixels: self.pixels@ }
    }
}

impl Image {
    /// Builds an image from raw parts; `None` exactly when the buffer does
    /// not hold four bytes per pixel.
    pub fn new(width: u32, height: u32, pixels: Vec<u8>) -> (result: Option<Image>)
        ensures
            match result {
                Some(img) => img@ == (ImageView {
                    width: width as nat,
                    height: height as nat,
                    pixels: pixels@,
                }) && img@.wf(),
                None => pixels@.len() != 4 * (width as nat) * (height as nat),
            },
    {
        let w: u128 = width as u128;
        let h: u128 = height as u128;
        proof {
            assert(w * h < 0x10000000000000000) by (nonlinear_arith)
                requires
                    w < 0x100000000,
                    h < 0x100000000,
            ;
        }
        let need: u128 = 4 * (w * h);
        proof {
            assert(4 * ((w * h) as int) == 4 * (w as int) * (h as int)) by (nonlinear_arith);
        }
        if (pixels.len() as u128) == need {
            Some(Image { width, height, pixels })
        } else {
            None
        }
    }

    /// A fresh copy of this image, pixel for pixel.
    pub fn duplicate(&self) -> (copy: Image)
        ensures
            copy@ == self@,
    {
        let mut pixels: Vec<u8> = Vec::new();
        let n = self.pixels.len();
        let mut i: usize = 0;
        while i < n
            invariant
                i <= n,
                n == self.pixels.len(),
                pixels@ == self.pixels@.take(i as int),
            decreases n - i,
        {
            pixels.push(self.pixels[i]);
            i = i + 1;
        }
        proof {
            assert(pixels@ =~= self.pixels@);
        }
        let copy = Image { width: self.width, height: self.height, pixels };
        proof {
            assert(copy@ =~= self@);
        }
        copy
    }

    /// The image's width in pixels.
    pub fn width(&self) -> (w: u32)
        ensures
            w as nat == self@.width,
    {
        self.width
    }

    /// The image's height in pixels.
    pub fn height(&self) -> (h: u32)
        ensures
            h as nat == self@.height,
    {
        self.height
    }

    /// The raw RGBA pixel bytes.
    pub fn pixels(&self) -> (pixels: &Vec<u8>)
        ensures
            pixels@ == self@.pixels,
    {
        &self.pixels
    }

    /// Pixel-exact equality: same width, same height, same bytes.
    pub fn same_as(&self, other: &Image) -> (equal: bool)
        ensures
            equal == (self@ == other@),
    {
        if self.width != other.width || self.height != other.height
            || self.pixels.len() != other.pixels.len() {
            proof {
                assert(self@ != other@);
            }
            return false;
        }
        let n = self.pixels.len();
        let mut i: usize = 0;
        while i < n
            invariant
                i <= n,
                n == self.pixels.len(),
                n == other.pixels.len(),
                forall|j: int| 0 <= j < i ==> self.pixels@[j] == other.pixels@[j],
            decreases n - i,
        {
            if self.pixels[i] != other.pixels[i] {
                return false;
            }
            i = i + 1;
        }
        proof {
            assert(self.pixels@ =~= other.pixels@);
            assert(self@ =~= other@);
        }
        true
    }
}

} // verus!
