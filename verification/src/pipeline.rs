//! The frame pipeline: from a picture to the text of a frame.
//!
//! The four stages run in a fixed order: contrast is stretched on the picture
//! as it came, the result is resampled to the width of the text, reduced to
//! brightness, and written in glyphs. The ramp, the contrast factor and the
//! cell correction are handed in as a configuration, so that two renderings
//! with different settings never meet in shared state.

use vstd::prelude::*;
use crate::animation::{load_image, spec_load};
use crate::buffer::{Pixel, PixelBuffer};
use crate::error::RenderError;
use crate::glyph::{
    is_ramp,
    lemma_frame_text_lines,
    lemma_glyph_index_in_range,
    spec_frame_text,
    spec_lines,
    to_glyphs,
    CharacterRamp,
};
use crate::luminance::{grayify_image, spec_grayscale};
use crate::resample::{
    can_resize,
    resizable,
    resize_image,
    spec_resampled,
    spec_target_height,
    AspectCorrection,
};
use crate::tone::{adjust_contrast, spec_adjust, ContrastFactor};

verus! {

/// The width of the text where none is asked for.
pub const DEFAULT_WIDTH: u32 = 200;

/// The settings of a rendering.
#[derive(Debug, PartialEq, Eq)]
pub struct RenderConfig {
    /// The glyphs, from one end of the brightness scale to the other.
    pub ramp: CharacterRamp,
    /// How strongly contrast is stretched before the picture is resampled.
    pub contrast: ContrastFactor,
    /// How much taller than wide a character cell is.
    pub aspect: AspectCorrection,
}

impl RenderConfig {
    /// The settings for a plain terminal: the short ramp, contrast 1.8 and
    /// cell correction 1.65.
    pub fn standard() -> (config: RenderConfig)
        ensures
            config.ramp@ == "#BRD!*+=-:. "@,
            config.contrast.spec_numerator() == 9,
            config.contrast.spec_denominator() == 5,
            config.aspect.spec_numerator() == 33,
            config.aspect.spec_denominator() == 20,
    {
        RenderConfig {
            ramp: CharacterRamp::compact(),
            contrast: ContrastFactor::standard(),
            aspect: AspectCorrection::standard(),
        }
    }

    /// The settings for fine output: the long ramp, contrast 1.8 and cell
    /// correction 1.65.
    pub fn detailed() -> (config: RenderConfig)
        ensures
            config.ramp@ == "@#WM&8%B$0QOZCLJUYXzcvunxrjft/\\|()1{}[]?-_+~<>i!lI;:,^. "@,
            config.contrast.spec_numerator() == 9,
            config.contrast.spec_denominator() == 5,
            config.aspect.spec_numerator() == 33,
            config.aspect.spec_denominator() == 20,
    {
        RenderConfig {
            ramp: CharacterRamp::detailed(),
            contrast: ContrastFactor::standard(),
            aspect: AspectCorrection::standard(),
        }
    }

    /// The number of rows that a picture of the given size takes at a width.
    pub open spec fn spec_rows(&self, width: u32, height: u32, target_width: u32) -> int {
        spec_target_height(
            width as int,
            height as int,
            target_width as int,
            self.aspect.spec_numerator() as int,
            self.aspect.spec_denominator() as int,
        )
    }

    /// Whether a picture of the given size can be rendered at a width.
    pub open spec fn spec_accepts(&self, width: u32, height: u32, target_width: u32) -> bool {
        resizable(
            width,
            height,
            target_width,
            self.aspect.spec_numerator(),
            self.aspect.spec_denominator(),
        )
    }

    /// Tells whether a picture of the given size can be rendered at a width.
    pub fn accepts(&self, width: u32, height: u32, target_width: u32) -> (ok: bool)
        ensures
            ok == self.spec_accepts(width, height, target_width),
    {
        can_resize(width, height, target_width, &self.aspect)
    }
}

/// The text of a picture that has its final size: its brightness written in
/// glyphs, one line per row.
pub open spec fn spec_text_of(pixels: Seq<Pixel>, width: int, height: int, ramp: Seq<char>) -> Seq<
    char,
> {
    spec_frame_text(spec_grayscale(pixels), width, height, ramp)
}

/// Whether `text` is a rendering of a picture at a width.
///
/// The text is that of some picture of the new size, which is the
/// contrast-stretched picture itself where the size did not change. What the
/// resampling filter computes in between is not stated.
pub open spec fn spec_rendering(
    text: Seq<char>,
    pixels: Seq<Pixel>,
    width: u32,
    height: u32,
    target_width: u32,
    config: RenderConfig,
) -> bool {
    let rows = config.spec_rows(width, height, target_width);
    let adjusted = spec_adjust(
        pixels,
        config.contrast.spec_numerator() as int,
        config.contrast.spec_denominator() as int,
    );
    exists|resized: Seq<Pixel>|
        {
            &&& #[trigger] spec_resampled(
                adjusted,
                width as int,
                height as int,
                resized,
                target_width as int,
                rows,
            )
            &&& text == spec_text_of(resized, target_width as int, rows, config.ramp@)
        }
}

/// Writes a picture that has its final size as text: one glyph per pixel,
/// one line per row.
pub fn render_resampled(resized: &PixelBuffer, ramp: &CharacterRamp) -> (text: String)
    ensures
        text@ == spec_text_of(
            resized@,
            resized.spec_width() as int,
            resized.spec_height() as int,
            ramp@,
        ),
        is_ramp(ramp@),
{
    let gray = grayify_image(resized);
    to_glyphs(&gray, ramp)
}

/// Renders a picture as text of the given width.
///
/// Contrast is stretched first, then the picture is resampled, reduced to
/// brightness and written in glyphs. The text has one line for each row of
/// the resampled picture and `width` glyphs of the ramp in each line.
pub fn frame_to_ascii(image: &PixelBuffer, width: u32, config: &RenderConfig) -> (text: String)
    requires
        config.spec_accepts(image.spec_width(), image.spec_height(), width),
    ensures
        spec_rendering(text@, image@, image.spec_width(), image.spec_height(), width, *config),
        config.spec_rows(image.spec_width(), image.spec_height(), width) >= 1 ==> {
            &&& spec_lines(text@).len() == config.spec_rows(
                image.spec_width(),
                image.spec_height(),
                width,
            )
            &&& forall|r: int|
                0 <= r < spec_lines(text@).len() ==> (#[trigger] spec_lines(text@)[r]).len()
                    == width
        },
        config.spec_rows(image.spec_width(), image.spec_height(), width) == 0 ==> text@.len()
            == 0,
{
    let adjusted = adjust_contrast(image, &config.contrast);
    let resized = resize_image(&adjusted, width, &config.aspect);
    let text = render_resampled(&resized, &config.ramp);
    proof {
        let rows = config.spec_rows(image.spec_width(), image.spec_height(), width);
        assert(spec_resampled(
            adjusted@,
            image.spec_width() as int,
            image.spec_height() as int,
            resized@,
            width as int,
            rows,
        ));
        lemma_rendering_lines(
            text@,
            image@,
            image.spec_width(),
            image.spec_height(),
            width,
            *config,
        );
    }
    text
}

/// Renders a picture as text of the given width, if the sizes allow.
///
/// Fails with `MalformedFrame` exactly when the picture has no pixels, the
/// width is 0, or the result would be larger than can be built.
pub fn render_frame(image: &PixelBuffer, width: u32, config: &RenderConfig) -> (rendered: Result<
    String,
    RenderError,
>)
    ensures
        match rendered {
            Ok(text) => {
                &&& config.spec_accepts(image.spec_width(), image.spec_height(), width)
                &&& spec_rendering(
                    text@,
                    image@,
                    image.spec_width(),
                    image.spec_height(),
                    width,
                    *config,
                )
            },
            Err(error) => {
                &&& error == RenderError::MalformedFrame
                &&& !config.spec_accepts(image.spec_width(), image.spec_height(), width)
            },
        },
{
    if config.accepts(image.width(), image.height(), width) {
        Ok(frame_to_ascii(image, width, config))
    } else {
        Err(RenderError::MalformedFrame)
    }
}

/// Renders the still picture that data holds as text of the given width.
///
/// The errors are those of [`load_image`], and `MalformedFrame` where the
/// picture cannot be rendered at this width.
pub fn convert_image(bytes: &[u8], width: u32, config: &RenderConfig) -> (converted: Result<
    String,
    RenderError,
>)
    ensures
        match spec_load(bytes@) {
            Ok(picture) => match converted {
                Ok(text) => {
                    &&& config.spec_accepts(picture.width, picture.height, width)
                    &&& spec_rendering(
                        text@,
                        picture.pixels,
                        picture.width,
                        picture.height,
                        width,
                        *config,
                    )
                },
                Err(error) => {
                    &&& error == RenderError::MalformedFrame
                    &&& !config.spec_accepts(picture.width, picture.height, width)
                },
            },
            Err(refusal) => converted == Err::<String, RenderError>(refusal),
        },
        bytes@.len() == 0 ==> converted == Err::<String, RenderError>(RenderError::EmptyInput),
{
    match load_image(bytes) {
        Ok(image) => render_frame(&image, width, config),
        Err(error) => Err(error),
    }
}

/// A rendering of at least one row, cut at its line breaks, has exactly as
/// many lines as the resampled picture has rows, each of exactly as many
/// glyphs as the width asked for, and every glyph is one of the ramp.
pub proof fn lemma_rendering_lines(
    text: Seq<char>,
    pixels: Seq<Pixel>,
    width: u32,
    height: u32,
    target_width: u32,
    config: RenderConfig,
)
    requires
        spec_rendering(text, pixels, width, height, target_width, config),
        is_ramp(config.ramp@),
    ensures
        config.spec_rows(width, height, target_width) >= 1 ==> {
            &&& spec_lines(text).len() == config.spec_rows(width, height, target_width)
            &&& forall|r: int|
                0 <= r < spec_lines(text).len() ==> (#[trigger] spec_lines(text)[r]).len()
                    == target_width
            &&& forall|r: int, x: int|
                0 <= r < spec_lines(text).len() && 0 <= x < target_width
                    ==> config.ramp@.contains(#[trigger] spec_lines(text)[r][x])
        },
        config.spec_rows(width, height, target_width) == 0 ==> text.len() == 0,
{
    let rows = config.spec_rows(width, height, target_width);
    let adjusted = spec_adjust(
        pixels,
        config.contrast.spec_numerator() as int,
        config.contrast.spec_denominator() as int,
    );
    let resized = choose|resized: Seq<Pixel>|
        {
            &&& #[trigger] spec_resampled(
                adjusted,
                width as int,
                height as int,
                resized,
                target_width as int,
                rows,
            )
            &&& text == spec_text_of(resized, target_width as int, rows, config.ramp@)
        };
    let gray = spec_grayscale(resized);
    if rows >= 1 {
        lemma_frame_text_lines(gray, target_width as int, rows, config.ramp@);
        let lines = spec_lines(text);
        assert forall|r: int, x: int| 0 <= r < lines.len() && 0 <= x < target_width implies config.ramp@.contains(
        #[trigger] lines[r][x]) by {
            lemma_glyph_index_in_range(gray[r * target_width + x], config.ramp@.len() as int);
        }
    }
}

} // verus!
