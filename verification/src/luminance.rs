//! Brightness: reducing a colour picture to one sample per pixel.
//!
//! The brightness of a pixel is a weighted sum of its colour channels that
//! follows the eye: green counts most and blue least. Alpha is not looked at,
//! so a transparent pixel is as bright as the colour stored in it.

use vstd::prelude::*;
use crate::buffer::{pixel_at, GrayBuffer, Pixel, PixelBuffer};
use crate::codec::{luma8, luma_weighted};

verus! {

/// The brightness of a pixel.
pub open spec fn spec_luma(pixel: Pixel) -> u8 {
    luma_weighted(pixel.red, pixel.green, pixel.blue) as u8
}

/// The brightness of each pixel of a picture, in place.
pub open spec fn spec_grayscale(pixels: Seq<Pixel>) -> Seq<u8> {
    Seq::new(pixels.len(), |i: int| spec_luma(pixels[i]))
}

/// Reduces a picture to its brightness, pixel by pixel.
pub fn grayify_image(image: &PixelBuffer) -> (gray: GrayBuffer)
    ensures
        gray.spec_width() == image.spec_width(),
        gray.spec_height() == image.spec_height(),
        gray@ == spec_grayscale(image@),
{
    let raw = image.as_raw();
    let samples = luma8(image.width(), image.height(), raw);
    proof {
        let wanted = spec_grayscale(image@);
        assert(samples@.len() == wanted.len());
        assert forall|i: int| 0 <= i < wanted.len() implies samples@[i] == wanted[i] by {
            assert(image@[i] == pixel_at(raw@, i));
            lemma_luma_in_range(image@[i]);
        }
        assert(samples@ =~= wanted);
    }
    GrayBuffer::from_samples(image.width(), image.height(), samples)
}

/// The weighted sum never leaves the range of a sample: it is no darker than
/// the darkest and no brighter than the brightest of the three colour
/// channels.
pub proof fn lemma_luma_in_range(pixel: Pixel)
    ensures
        0 <= luma_weighted(pixel.red, pixel.green, pixel.blue) <= 255,
        spec_luma(pixel) == luma_weighted(pixel.red, pixel.green, pixel.blue),
        spec_luma(pixel) >= pixel.red || spec_luma(pixel) >= pixel.green || spec_luma(pixel)
            >= pixel.blue,
        spec_luma(pixel) <= pixel.red || spec_luma(pixel) <= pixel.green || spec_luma(pixel)
            <= pixel.blue,
{
}

/// A gray pixel, one whose three colour channels agree, is exactly as bright
/// as its channels say: the weights add up to one.
pub proof fn lemma_luma_of_gray(level: u8, alpha: u8)
    ensures
        spec_luma(Pixel { red: level, green: level, blue: level, alpha }) == level,
{
}

/// Alpha has no part in brightness.
pub proof fn lemma_luma_ignores_alpha(pixel: Pixel, alpha: u8)
    ensures
        spec_luma(Pixel { alpha, ..pixel }) == spec_luma(pixel),
{
}

/// Raising any colour channel never lowers the brightness.
pub proof fn lemma_luma_keeps_order(darker: Pixel, brighter: Pixel)
    requires
        darker.red <= brighter.red,
        darker.green <= brighter.green,
        darker.blue <= brighter.blue,
    ensures
        spec_luma(darker) <= spec_luma(brighter),
{
    lemma_luma_in_range(darker);
    lemma_luma_in_range(brighter);
}

} // verus!
