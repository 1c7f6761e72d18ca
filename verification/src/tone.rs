//! Contrast: a linear stretch of the colour channels around mid-gray.
//!
//! Photographs crowd into a narrow band of mid-tones. Stretching each colour
//! channel away from 128 before the picture is reduced to a handful of glyphs
//! keeps regions apart that would otherwise fall into the same glyph. The
//! factor is a ratio of two whole numbers, so the stretch is exact: 9/5 is
//! the factor 1.8.

use vstd::prelude::*;
use vstd::arithmetic::div_mod::lemma_div_multiples_vanish;
use crate::arith::{lemma_ceiling_is_negated_floor, lemma_floor_monotonic};
use crate::buffer::{pixel_at, Pixel, PixelBuffer};

verus! {

/// The channel value around which contrast is stretched.
pub const MID_GRAY: u8 = 128;

/// How strongly contrast is stretched: the ratio `numerator / denominator`,
/// both positive. A ratio of one changes nothing.
#[derive(Clone, Copy, Debug, PartialEq, Eq)]
pub struct ContrastFactor {
    numerator: u32,
    denominator: u32,
}

/// A channel value after the stretch by `numerator / denominator`:
/// `(sample - 128) * factor + 128`, rounded down and kept within 0 to 255.
pub open spec fn spec_stretch(sample: u8, numerator: int, denominator: int) -> u8 {
    let moved = 128 + ((sample - 128) * numerator) / denominator;
    if moved < 0 {
        0u8
    } else if moved > 255 {
        255u8
    } else {
        moved as u8
    }
}

/// A pixel after the stretch: the three colour channels stretched, alpha as it was.
pub open spec fn spec_adjust_pixel(pixel: Pixel, numerator: int, denominator: int) -> Pixel {
    Pixel {
        red: spec_stretch(pixel.red, numerator, denominator),
        green: spec_stretch(pixel.green, numerator, denominator),
        blue: spec_stretch(pixel.blue, numerator, denominator),
        alpha: pixel.alpha,
    }
}

/// A picture after the stretch: every pixel stretched, in place.
pub open spec fn spec_adjust(pixels: Seq<Pixel>, numerator: int, denominator: int) -> Seq<Pixel> {
    Seq::new(pixels.len(), |i: int| spec_adjust_pixel(pixels[i], numerator, denominator))
}

impl ContrastFactor {
    #[verifier::type_invariant]
    spec fn positive(&self) -> bool {
        self.numerator > 0 && self.denominator > 0
    }

    /// The upper part of the ratio.
    pub closed spec fn spec_numerator(&self) -> u32 {
        self.numerator
    }

    /// The lower part of the ratio.
    pub closed spec fn spec_denominator(&self) -> u32 {
        self.denominator
    }

    /// The factor `numerator / denominator`, if both are positive.
    pub fn new(numerator: u32, denominator: u32) -> (made: Option<ContrastFactor>)
        ensures
            made is Some <==> numerator > 0 && denominator > 0,
            made matches Some(f) ==> f.spec_numerator() == numerator && f.spec_denominator()
                == denominator,
    {
        if numerator > 0 && denominator > 0 {
            Some(ContrastFactor { numerator, denominator })
        } else {
            None
        }
    }

    /// The factor 1, which leaves every picture as it is.
    pub fn neutral() -> (made: ContrastFactor)
        ensures
            made.spec_numerator() == 1,
            made.spec_denominator() == 1,
    {
        ContrastFactor { numerator: 1, denominator: 1 }
    }

    /// The factor 1.8, found to separate the tones of ordinary photographs well.
    pub fn standard() -> (made: ContrastFactor)
        ensures
            made.spec_numerator() == 9,
            made.spec_denominator() == 5,
    {
        ContrastFactor { numerator: 9, denominator: 5 }
    }

    /// The upper part of the ratio.
    #[verifier::when_used_as_spec(spec_numerator)]
    pub fn numerator(&self) -> (n: u32)
        ensures
            n == self.spec_numerator(),
            n > 0,
    {
        proof {
            use_type_invariant(self);
        }
        self.numerator
    }

    /// The lower part of the ratio.
    #[verifier::when_used_as_spec(spec_denominator)]
    pub fn denominator(&self) -> (d: u32)
        ensures
            d == self.spec_denominator(),
            d > 0,
    {
        proof {
            use_type_invariant(self);
        }
        self.denominator
    }
}

/// Stretches one channel value away from mid-gray.
pub fn stretch_channel(sample: u8, factor: &ContrastFactor) -> (stretched: u8)
    ensures
        stretched == spec_stretch(
            sample,
            factor.spec_numerator() as int,
            factor.spec_denominator() as int,
        ),
{
    let n: u64 = factor.numerator() as u64;
    let d: u64 = factor.denominator() as u64;
    if sample >= MID_GRAY {
        let span: u64 = (sample - MID_GRAY) as u64;
        assert(span * n <= 127 * 0xFFFF_FFFF) by (nonlinear_arith)
            requires
                span <= 127,
                n <= 0xFFFF_FFFF,
        ;
        let up: u64 = (span * n) / d;
        if up > 127 {
            255
        } else {
            MID_GRAY + (up as u8)
        }
    } else {
        let span: u64 = (MID_GRAY - sample) as u64;
        assert(span * n <= 128 * 0xFFFF_FFFF) by (nonlinear_arith)
            requires
                span <= 128,
                n <= 0xFFFF_FFFF,
        ;
        let down: u64 = (span * n + d - 1) / d;
        proof {
            lemma_ceiling_is_negated_floor(span * n, d as int);
            assert((sample - 128) * n == -(span * n)) by (nonlinear_arith)
                requires
                    sample - 128 == -span,
            ;
        }
        if down > 128 {
            0
        } else {
            MID_GRAY - (down as u8)
        }
    }
}

/// Stretches the contrast of a picture.
///
/// Every colour channel of every pixel moves away from mid-gray by the
/// factor, and stops at 0 and 255. Alpha and the dimensions stay as they are.
pub fn adjust_contrast(image: &PixelBuffer, factor: &ContrastFactor) -> (adjusted: PixelBuffer)
    ensures
        adjusted.spec_width() == image.spec_width(),
        adjusted.spec_height() == image.spec_height(),
        adjusted@ == spec_adjust(
            image@,
            factor.spec_numerator() as int,
            factor.spec_denominator() as int,
        ),
{
    let raw = image.as_raw();
    let total = raw.len();
    let ghost n = factor.spec_numerator() as int;
    let ghost d = factor.spec_denominator() as int;
    let mut samples: Vec<u8> = Vec::new();
    let mut k: usize = 0;
    while k < total
        invariant
            k <= total,
            total == raw@.len(),
            samples@.len() == k,
            n == factor.spec_numerator(),
            d == factor.spec_denominator(),
            forall|j: int|
                0 <= j < k ==> samples@[j] == (if j % 4 == 3 {
                    raw@[j]
                } else {
                    spec_stretch(raw@[j], n, d)
                }),
        decreases total - k,
    {
        let sample = raw[k];
        if k % 4 == 3 {
            samples.push(sample);
        } else {
            samples.push(stretch_channel(sample, factor));
        }
        k += 1;
    }
    let adjusted = PixelBuffer::from_samples(image.width(), image.height(), samples);
    proof {
        let wanted = spec_adjust(image@, n, d);
        assert(adjusted@.len() == wanted.len());
        assert forall|i: int| 0 <= i < wanted.len() implies adjusted@[i] == wanted[i] by {
            assert(adjusted@[i] == pixel_at(adjusted.raw(), i));
            assert(image@[i] == pixel_at(raw@, i));
            assert((4 * i) % 4 == 0 && (4 * i + 1) % 4 == 1 && (4 * i + 2) % 4 == 2 && (4 * i
                + 3) % 4 == 3);
        }
        assert(adjusted@ =~= wanted);
    }
    adjusted
}

/// A factor of one is the identity: every channel value stays as it is.
pub proof fn lemma_neutral_stretch(sample: u8, numerator: int)
    requires
        numerator > 0,
    ensures
        spec_stretch(sample, numerator, numerator) == sample,
{
    lemma_div_multiples_vanish(sample - 128, numerator);
    assert((sample - 128) * numerator == numerator * (sample - 128)) by (nonlinear_arith);
}

/// With a factor of one, contrast adjustment gives the picture back: colour
/// channels and alpha of every pixel are unchanged.
pub proof fn lemma_neutral_adjust(pixels: Seq<Pixel>, numerator: int)
    requires
        numerator > 0,
    ensures
        spec_adjust(pixels, numerator, numerator) == pixels,
{
    let adjusted = spec_adjust(pixels, numerator, numerator);
    assert forall|i: int| 0 <= i < pixels.len() implies adjusted[i] == pixels[i] by {
        lemma_neutral_stretch(pixels[i].red, numerator);
        lemma_neutral_stretch(pixels[i].green, numerator);
        lemma_neutral_stretch(pixels[i].blue, numerator);
    }
    assert(adjusted =~= pixels);
}

/// Whatever the factor, adjustment keeps the number of pixels and every alpha.
pub proof fn lemma_adjust_keeps_alpha(pixels: Seq<Pixel>, numerator: int, denominator: int, i: int)
    requires
        0 <= i < pixels.len(),
    ensures
        spec_adjust(pixels, numerator, denominator).len() == pixels.len(),
        spec_adjust(pixels, numerator, denominator)[i].alpha == pixels[i].alpha,
{
}

/// Mid-gray is the fixed point of every stretch.
pub proof fn lemma_mid_gray_is_fixed(numerator: int, denominator: int)
    requires
        denominator > 0,
    ensures
        spec_stretch(MID_GRAY, numerator, denominator) == MID_GRAY,
{
    assert((128 - 128) * numerator == 0) by (nonlinear_arith);
}

/// A stretch never swaps two channel values: the darker of two stays the
/// darker or becomes equal.
pub proof fn lemma_stretch_keeps_order(low: u8, high: u8, numerator: int, denominator: int)
    requires
        numerator > 0,
        denominator > 0,
        low <= high,
    ensures
        spec_stretch(low, numerator, denominator) <= spec_stretch(high, numerator, denominator),
{
    assert((low - 128) * numerator <= (high - 128) * numerator) by (nonlinear_arith)
        requires
            low <= high,
            numerator > 0,
    ;
    lemma_floor_monotonic((low - 128) * numerator, (high - 128) * numerator, denominator);
}

} // verus!
