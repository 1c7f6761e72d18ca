//! Resampling a picture to the width of the text.
//!
//! A character cell is taller than it is wide, so a picture that is rendered
//! one glyph per pixel has to lose rows first. The new width is asked for; the
//! new height follows from the proportions of the picture, divided by a
//! correction for the shape of the cell and rounded to the nearest whole
//! number. The correction is a ratio of two whole numbers, so the height is
//! exact: 33/20 is the correction 1.65.

use vstd::prelude::*;
use crate::arith::lemma_floor_bounds;
use crate::buffer::{lemma_area_bound, Pixel, PixelBuffer};
use crate::codec::{filter_accepts, lanczos3, MAX_SIDE};

verus! {

/// How much taller than wide a character cell is: the ratio
/// `numerator / denominator`, both positive.
#[derive(Clone, Copy, Debug, PartialEq, Eq)]
pub struct AspectCorrection {
    numerator: u32,
    denominator: u32,
}

/// The height that goes with a new width:
/// `target_width * (height / width) / (numerator / denominator)`, rounded to
/// the nearest whole number, halves upwards.
pub open spec fn spec_target_height(
    width: int,
    height: int,
    target_width: int,
    numerator: int,
    denominator: int,
) -> int {
    (2 * (target_width * height * denominator) + width * numerator) / (2 * (width * numerator))
}

/// The pictures and widths that can be resampled: a picture that is not
/// empty, a positive width, a height that fits, and sizes that the filter
/// accepts.
pub open spec fn resizable(
    width: u32,
    height: u32,
    target_width: u32,
    numerator: u32,
    denominator: u32,
) -> bool {
    let target_height = spec_target_height(
        width as int,
        height as int,
        target_width as int,
        numerator as int,
        denominator as int,
    );
    &&& target_width > 0
    &&& width > 0
    &&& height > 0
    &&& target_height <= u32::MAX
    &&& filter_accepts(width, height, target_width, target_height as u32)
}

/// What is known of a resampled picture: it has the new size, and it is the
/// source itself where the size did not change.
pub open spec fn spec_resampled(
    source: Seq<Pixel>,
    width: int,
    height: int,
    resized: Seq<Pixel>,
    target_width: int,
    target_height: int,
) -> bool {
    &&& resized.len() == target_width * target_height
    &&& target_width == width && target_height == height ==> resized == source
}

impl AspectCorrection {
    #[verifier::type_invariant]
    spec fn positive(&self) -> bool {
        self.numerator > 0 && self.denominator > 0
    }

    /// The upper part of the ratio.
    pub closed spec fn spec_numerator(&self) -> u32 {
        self.numerator
    }

    /// The lower part of the ratio.
    pub closed spec fn spec_denominator(&self) -> u32 {
        self.denominator
    }

    /// The correction `numerator / denominator`, if both are positive.
    pub fn new(numerator: u32, denominator: u32) -> (made: Option<AspectCorrection>)
        ensures
            made is Some <==> numerator > 0 && denominator > 0,
            made matches Some(a) ==> a.spec_numerator() == numerator && a.spec_denominator()
                == denominator,
    {
        if numerator > 0 && denominator > 0 {
            Some(AspectCorrection { numerator, denominator })
        } else {
            None
        }
    }

    /// The correction 1.65, found to suit the cells of common monospace fonts.
    pub fn standard() -> (made: AspectCorrection)
        ensures
            made.spec_numerator() == 33,
            made.spec_denominator() == 20,
    {
        AspectCorrection { numerator: 33, denominator: 20 }
    }

    /// No correction: cells taken to be square.
    pub fn square() -> (made: AspectCorrection)
        ensures
            made.spec_numerator() == 1,
            made.spec_denominator() == 1,
    {
        AspectCorrection { numerator: 1, denominator: 1 }
    }

    /// The upper part of the ratio.
    #[verifier::when_used_as_spec(spec_numerator)]
    pub fn numerator(&self) -> (n: u32)
        ensures
            n == self.spec_numerator(),
            n > 0,
    {
        proof {
            use_type_invariant(self);
        }
        self.numerator
    }

    /// The lower part of the ratio.
    #[verifier::when_used_as_spec(spec_denominator)]
    pub fn denominator(&self) -> (d: u32)
        ensures
            d == self.spec_denominator(),
            d > 0,
    {
        proof {
            use_type_invariant(self);
        }
        self.denominator
    }
}

/// The product of three 32-bit numbers stays below 2^96.
proof fn lemma_volume_bound(a: u32, b: u32, c: u32)
    ensures
        0 <= a * b <= 0xFFFF_FFFF * 0xFFFF_FFFF,
        0 <= a * b * c <= 0xFFFF_FFFF * 0xFFFF_FFFF * 0xFFFF_FFFF,
{
    lemma_area_bound(a, b);
    let ab = a * b;
    assert(0 <= ab * c <= (0xFFFF_FFFF * 0xFFFF_FFFF) * 0xFFFF_FFFF) by (nonlinear_arith)
        requires
            0 <= ab <= 0xFFFF_FFFF * 0xFFFF_FFFF,
            0 <= c <= 0xFFFF_FFFF,
    ;
}

/// Computes the height that goes with a new width, if it fits in 32 bits.
pub fn target_height(width: u32, height: u32, target_width: u32, aspect: &AspectCorrection) -> (rows:
    Option<u32>)
    requires
        width > 0,
    ensures
        match rows {
            Some(h) => h == spec_target_height(
                width as int,
                height as int,
                target_width as int,
                aspect.spec_numerator() as int,
                aspect.spec_denominator() as int,
            ),
            None => spec_target_height(
                width as int,
                height as int,
                target_width as int,
                aspect.spec_numerator() as int,
                aspect.spec_denominator() as int,
            ) > u32::MAX,
        },
{
    let n = aspect.numerator();
    let d = aspect.denominator();
    proof {
        lemma_volume_bound(target_width, height, d);
        lemma_area_bound(width, n);
        assert(width * n >= 1) by (nonlinear_arith)
            requires
                width >= 1,
                n >= 1,
        ;
    }
    let scaled: u128 = (target_width as u128) * (height as u128) * (d as u128);
    let unit: u128 = (width as u128) * (n as u128);
    let rounded: u128 = (2 * scaled + unit) / (2 * unit);
    if rounded > u32::MAX as u128 {
        None
    } else {
        Some(rounded as u32)
    }
}

/// Tells whether a picture of the given size can be resampled to a width.
pub fn can_resize(width: u32, height: u32, target_width: u32, aspect: &AspectCorrection) -> (ok:
    bool)
    ensures
        ok == resizable(
            width,
            height,
            target_width,
            aspect.spec_numerator(),
            aspect.spec_denominator(),
        ),
{
    if width == 0 || height == 0 || target_width == 0 {
        return false;
    }
    if width > MAX_SIDE || height > MAX_SIDE || target_width > MAX_SIDE {
        return false;
    }
    let rows = match target_height(width, height, target_width, aspect) {
        Some(rows) => rows,
        None => {
            return false;
        },
    };
    if rows > MAX_SIDE {
        return false;
    }
    proof {
        lemma_area_bound(target_width, rows);
        lemma_area_bound(width, rows);
    }
    let result_bytes: u128 = 4 * ((target_width as u128) * (rows as u128));
    let working_bytes: u128 = 16 * ((width as u128) * (rows as u128));
    result_bytes <= isize::MAX as u128 && working_bytes <= isize::MAX as u128
}

/// Resamples a picture to a new width.
///
/// The result is `target_width` pixels wide. Its height is the one that keeps
/// the proportions of the picture on a grid of character cells. Where that is
/// the size of the picture itself, the picture is returned unchanged.
pub fn resize_image(image: &PixelBuffer, target_width: u32, aspect: &AspectCorrection) -> (resized:
    PixelBuffer)
    requires
        resizable(
            image.spec_width(),
            image.spec_height(),
            target_width,
            aspect.spec_numerator(),
            aspect.spec_denominator(),
        ),
    ensures
        resized.spec_width() == target_width,
        resized.spec_height() == spec_target_height(
            image.spec_width() as int,
            image.spec_height() as int,
            target_width as int,
            aspect.spec_numerator() as int,
            aspect.spec_denominator() as int,
        ),
        spec_resampled(
            image@,
            image.spec_width() as int,
            image.spec_height() as int,
            resized@,
            resized.spec_width() as int,
            resized.spec_height() as int,
        ),
        resized.spec_width() > 0,
        resized.spec_height() > 0 <==> 2 * (target_width * image.spec_height()
            * aspect.spec_denominator()) >= image.spec_width() * aspect.spec_numerator(),
{
    let width = image.width();
    let height = image.height();
    let rows = target_height(width, height, target_width, aspect).unwrap();
    let samples = lanczos3(width, height, image.as_raw(), target_width, rows);
    let resized = PixelBuffer::from_samples(target_width, rows, samples);
    proof {
        use_type_invariant(aspect);
        assert(resized@.len() == (4 * (target_width * rows)) / 4);
        lemma_target_height_positive(
            width as int,
            height as int,
            target_width as int,
            aspect.spec_numerator() as int,
            aspect.spec_denominator() as int,
        );
    }
    resized
}

/// The height is the proportional height rounded to the nearest whole number:
/// it differs from `target_width * height * denominator / (width * numerator)`
/// by at most one half.
pub proof fn lemma_target_height_is_nearest(
    width: int,
    height: int,
    target_width: int,
    numerator: int,
    denominator: int,
)
    requires
        width > 0,
        height >= 0,
        target_width >= 0,
        numerator > 0,
        denominator > 0,
    ensures
        ({
            let rows = spec_target_height(width, height, target_width, numerator, denominator);
            let exact_times = target_width * height * denominator;
            let unit = width * numerator;
            &&& rows >= 0
            &&& (2 * rows - 1) * unit <= 2 * exact_times < (2 * rows + 1) * unit
        }),
{
    let rows = spec_target_height(width, height, target_width, numerator, denominator);
    let exact_times = target_width * height * denominator;
    let unit = width * numerator;
    assert(unit > 0) by (nonlinear_arith)
        requires
            width > 0,
            numerator > 0,
            unit == width * numerator,
    ;
    assert(exact_times >= 0) by (nonlinear_arith)
        requires
            height >= 0,
            target_width >= 0,
            denominator > 0,
            exact_times == target_width * height * denominator,
    ;
    lemma_floor_bounds(2 * exact_times + unit, 2 * unit);
    assert(rows * (2 * unit) == 2 * rows * unit) by (nonlinear_arith);
    assert((2 * rows - 1) * unit == 2 * rows * unit - unit) by (nonlinear_arith);
    assert((2 * rows + 1) * unit == 2 * rows * unit + unit) by (nonlinear_arith);
    if rows < 0 {
        assert(rows * (2 * unit) + 2 * unit <= 0) by (nonlinear_arith)
            requires
                rows <= -1,
                unit > 0,
        ;
    }
}

/// The height is positive exactly when the proportional height is at least
/// one half. A picture that is very wide for its height can come out with no
/// rows at all.
pub proof fn lemma_target_height_positive(
    width: int,
    height: int,
    target_width: int,
    numerator: int,
    denominator: int,
)
    requires
        width > 0,
        height >= 0,
        target_width >= 0,
        numerator > 0,
        denominator > 0,
    ensures
        spec_target_height(width, height, target_width, numerator, denominator) > 0 <==> 2 * (
        target_width * height * denominator) >= width * numerator,
{
    let rows = spec_target_height(width, height, target_width, numerator, denominator);
    let unit = width * numerator;
    lemma_target_height_is_nearest(width, height, target_width, numerator, denominator);
    assert(unit > 0) by (nonlinear_arith)
        requires
            width > 0,
            numerator > 0,
            unit == width * numerator,
    ;
    if rows >= 1 {
        assert((2 * rows - 1) * unit >= unit) by (nonlinear_arith)
            requires
                rows >= 1,
                unit > 0,
        ;
    } else {
        assert(rows == 0);
        assert((2 * rows + 1) * unit == unit) by (nonlinear_arith)
            requires
                rows == 0,
        ;
    }
}

/// Resampling a picture that is at least half as tall, in character cells, as
/// one row gives a picture with both sides positive: the width asked for, and
/// the proportional height rounded to the nearest whole number.
pub proof fn lemma_resized_sides_positive(
    width: int,
    height: int,
    target_width: int,
    numerator: int,
    denominator: int,
)
    requires
        width > 0,
        height > 0,
        target_width > 0,
        numerator > 0,
        denominator > 0,
        2 * (target_width * height * denominator) >= width * numerator,
    ensures
        target_width > 0,
        spec_target_height(width, height, target_width, numerator, denominator) > 0,
{
    lemma_target_height_positive(width, height, target_width, numerator, denominator);
}

} // verus!
