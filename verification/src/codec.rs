//! The decoders and filters of the `image` and `gif` crates, as the library calls them.
//!
//! Nothing in this file is proved. Each item states what the library takes on
//! trust from the code it calls; everything else in the crate is verified
//! against these statements. The functions hand plain values in and out:
//! sample vectors, dimensions, and the library's own frame type.

use vstd::prelude::*;
use crate::animation::{GifStream, IndexedFrame};

verus! {

/// The error type of `image`, carried through and never inspected.
#[verifier::external_type_specification]
#[verifier::external_body]
pub struct ExImageError(image::ImageError);

/// The error type of `gif`'s decoder, carried through and never inspected.
#[verifier::external_type_specification]
#[verifier::external_body]
pub struct ExGifDecodingError(gif::DecodingError);

/// An open GIF container: a `gif::Decoder` that reads from a byte slice and
/// stands before its next frame.
#[verifier::external_body]
pub struct GifReader<'a> {
    inner: gif::Decoder<&'a [u8]>,
}

/// Whether data starts with one of the two GIF signatures, `GIF87a` or `GIF89a`.
pub open spec fn has_gif_signature(bytes: Seq<u8>) -> bool {
    &&& bytes.len() >= 6
    &&& bytes[0] == 0x47
    &&& bytes[1] == 0x49
    &&& bytes[2] == 0x46
    &&& bytes[3] == 0x38
    &&& (bytes[4] == 0x37 || bytes[4] == 0x39)
    &&& bytes[5] == 0x61
}

/// `image::guess_format`, asked whether it takes the data for a GIF.
///
/// The guess goes by the first bytes alone, and names GIF exactly for the two
/// GIF signatures.
#[verifier::external_body]
pub(crate) fn is_gif(bytes: &[u8]) -> (gif: bool)
    ensures
        gif == has_gif_signature(bytes@),
{
    matches!(image::guess_format(bytes), Ok(image::ImageFormat::Gif))
}

/// What `image` decodes from data as a still picture: width, height and the
/// RGBA samples, or nothing where it reports an error.
pub uninterp spec fn still_image(bytes: Seq<u8>) -> Option<(u32, u32, Seq<u8>)>;

/// `image::load_from_memory`, followed by `DynamicImage::to_rgba8` to read the
/// picture out as 8-bit RGBA samples.
///
/// Decoding reads nothing but the data, so the same data always gives the
/// same picture or the same refusal. Nothing is claimed about the number of
/// samples.
#[verifier::external_body]
pub(crate) fn load_still(bytes: &[u8]) -> (loaded: Result<(u32, u32, Vec<u8>), image::ImageError>)
    ensures
        match loaded {
            Ok((width, height, samples)) => still_image(bytes@) == Some(
                (width, height, samples@),
            ),
            Err(_) => still_image(bytes@) is None,
        },
{
    let picture = image::load_from_memory(bytes)?.to_rgba8();
    Ok((picture.width(), picture.height(), picture.into_raw()))
}

/// The brightness that `image` gives an RGB colour: the channels weighted by
/// 0.2126, 0.7152 and 0.0722, in integer arithmetic.
pub open spec fn luma_weighted(red: u8, green: u8, blue: u8) -> int {
    (2126 * red + 7152 * green + 722 * blue) / 10000
}

/// `DynamicImage::to_luma8` on 8-bit RGBA samples.
///
/// Each pixel becomes one sample, the weighted sum of its three colour
/// channels; alpha plays no part.
#[verifier::external_body]
pub(crate) fn luma8(width: u32, height: u32, samples: &Vec<u8>) -> (gray: Vec<u8>)
    requires
        samples@.len() == 4 * (width * height),
    ensures
        gray@.len() == width * height,
        forall|i: int|
            0 <= i < gray@.len() ==> gray@[i] == luma_weighted(
                samples@[4 * i],
                samples@[4 * i + 1],
                samples@[4 * i + 2],
            ),
{
    let picture = image::RgbaImage::from_raw(width, height, samples.clone()).unwrap();
    image::DynamicImage::ImageRgba8(picture).to_luma8().into_raw()
}

/// Largest side that is handed to the resampling filter. Up to here every
/// pixel coordinate is exact in the filter's single-precision arithmetic.
pub const MAX_SIDE: u32 = 16_777_216;

/// The sizes that the resampling filter is called with: a picture that is not
/// empty, sides within `MAX_SIDE`, and buffers (the result, and the filter's
/// intermediate picture of four 4-byte samples per pixel) that can be allocated.
pub open spec fn filter_accepts(width: u32, height: u32, new_width: u32, new_height: u32) -> bool {
    &&& 0 < width <= MAX_SIDE
    &&& 0 < height <= MAX_SIDE
    &&& new_width <= MAX_SIDE
    &&& new_height <= MAX_SIDE
    &&& 4 * (new_width * new_height) <= isize::MAX
    &&& 16 * (width * new_height) <= isize::MAX
}

/// `DynamicImage::resize_exact` with the Lanczos filter of window 3, on 8-bit
/// RGBA samples.
///
/// The result has the requested size. Where that is the size of the source,
/// the filter is skipped and the result is a copy. The filter computes in
/// floating point, so no more is claimed about the values of the samples.
#[verifier::external_body]
pub(crate) fn lanczos3(
    width: u32,
    height: u32,
    samples: &Vec<u8>,
    new_width: u32,
    new_height: u32,
) -> (resized: Vec<u8>)
    requires
        samples@.len() == 4 * (width * height),
        filter_accepts(width, height, new_width, new_height),
    ensures
        resized@.len() == 4 * (new_width * new_height),
        new_width == width && new_height == height ==> resized@ == samples@,
{
    let picture = image::RgbaImage::from_raw(width, height, samples.clone()).unwrap();
    image::DynamicImage::ImageRgba8(picture)
        .resize_exact(new_width, new_height, image::imageops::FilterType::Lanczos3)
        .into_rgba8()
        .into_raw()
}

/// What `gif` reads from data as a container: the shared palette and the
/// frames in order, or nothing where the container cannot be opened.
pub uninterp spec fn gif_stream(bytes: Seq<u8>) -> Option<GifStream>;

/// What an open container has yet to give: the shared palette, the frames
/// that are still to be read, and whether the container ends properly after
/// them.
pub uninterp spec fn unread(reader: GifReader) -> GifStream;

/// `gif::Decoder::new` on a byte slice: reads the header, the screen
/// descriptor and the shared palette.
///
/// Decoding reads nothing but the data, so the same data always opens to the
/// same container or is refused.
#[verifier::external_body]
pub(crate) fn open_gif<'a>(bytes: &'a [u8]) -> (opened: Result<GifReader<'a>, gif::DecodingError>)
    ensures
        match opened {
            Ok(reader) => gif_stream(bytes@) == Some(unread(reader)),
            Err(_) => gif_stream(bytes@) is None,
        },
{
    Ok(GifReader { inner: gif::Decoder::new(bytes)? })
}

/// `gif::Decoder::global_palette`: the palette that the container declares for
/// all its frames, three samples per colour; empty where it declares none.
#[verifier::external_body]
pub(crate) fn shared_palette(reader: &GifReader) -> (palette: Vec<u8>)
    ensures
        palette@ == unread(*reader).global_palette,
{
    match reader.inner.global_palette() {
        Some(colours) => colours.to_vec(),
        None => Vec::new(),
    }
}

/// `gif::Decoder::read_next_frame`: reads the next frame with its palette
/// indices, hands it out and moves on.
///
/// A frame comes while one is still unread. After the last one the call
/// reports the end where the container ends properly, and an error where it
/// is cut short or damaged.
#[verifier::external_body]
pub(crate) fn next_indexed_frame(reader: &mut GifReader) -> (step: Result<
    Option<IndexedFrame>,
    gif::DecodingError,
>)
    ensures
        match step {
            Ok(Some(frame)) => {
                &&& unread(*old(reader)).frames.len() > 0
                &&& frame@ == unread(*old(reader)).frames[0]
                &&& unread(*final(reader)).frames == unread(*old(reader)).frames.skip(1)
                &&& unread(*final(reader)).global_palette == unread(*old(reader)).global_palette
                &&& unread(*final(reader)).intact == unread(*old(reader)).intact
            },
            Ok(None) => unread(*old(reader)).frames.len() == 0 && unread(*old(reader)).intact,
            Err(_) => unread(*old(reader)).frames.len() == 0 && !unread(*old(reader)).intact,
        },
{
    Ok(match reader.inner.read_next_frame()? {
        Some(frame) => Some(IndexedFrame {
            width: frame.width,
            height: frame.height,
            delay: frame.delay,
            transparent: frame.transparent,
            palette: frame.palette.clone(),
            indices: frame.buffer.to_vec(),
        }),
        None => None,
    })
}

/// `String::push`: appends one character.
pub assume_specification[ String::push ](text: &mut String, glyph: char)
    ensures
        final(text)@ == old(text)@.push(glyph),
;

} // verus!
