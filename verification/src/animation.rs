//! Unpacking an image container into standalone RGBA frames with their delays.
//!
//! An animated container stores each frame as palette indices, with an
//! optional palette of its own, an optional transparent index and a delay.
//! Every frame is resolved here into a picture that depends on no other
//! frame. A container that holds a still picture gives a single frame with no
//! delay. Delays stay in the container's unit; turning them into time is left
//! to delivery.
//!
//! Frames can be had all at once with [`decode`], or one by one from a
//! [`FrameReader`], which does no more work than it is asked for.
//! [`load_image`] decodes a still picture alone.

use vstd::prelude::*;
use crate::buffer::{pixel_at, pixels_of, Pixel, PixelBuffer};
use crate::codec::{
    gif_stream,
    has_gif_signature,
    is_gif,
    load_still,
    next_indexed_frame,
    open_gif,
    shared_palette,
    still_image,
    unread,
    GifReader,
};
use crate::error::RenderError;

verus! {

/// A frame as an animated container stores it.
#[derive(Debug, PartialEq, Eq)]
pub struct IndexedFrame {
    /// Number of samples in a row.
    pub width: u16,
    /// Number of rows.
    pub height: u16,
    /// How long the frame is shown, in the container's unit.
    pub delay: u16,
    /// The palette index that stands for a transparent pixel, if there is one.
    pub transparent: Option<u8>,
    /// The frame's own palette, three samples per colour, if it has one.
    pub palette: Option<Vec<u8>>,
    /// One palette index per pixel, row by row.
    pub indices: Vec<u8>,
}

/// The contents of an [`IndexedFrame`].
pub struct IndexedFrameView {
    pub width: u16,
    pub height: u16,
    pub delay: u16,
    pub transparent: Option<u8>,
    pub palette: Option<Seq<u8>>,
    pub indices: Seq<u8>,
}

impl View for IndexedFrame {
    type V = IndexedFrameView;

    open spec fn view(&self) -> IndexedFrameView {
        IndexedFrameView {
            width: self.width,
            height: self.height,
            delay: self.delay,
            transparent: self.transparent,
            palette: match self.palette {
                Some(colours) => Some(colours@),
                None => None,
            },
            indices: self.indices@,
        }
    }
}

/// The contents of an animated container.
pub struct GifStream {
    /// The palette shared by the frames that have none of their own; empty if
    /// the container declares none.
    pub global_palette: Seq<u8>,
    /// The frames, in the order in which they are stored.
    pub frames: Seq<IndexedFrameView>,
    /// Whether the container ends properly after its last frame.
    pub intact: bool,
}

/// One picture of a sequence, with the time for which it is shown.
#[derive(Debug, PartialEq, Eq)]
pub struct AnimationFrame {
    /// The picture, complete in itself.
    pub buffer: PixelBuffer,
    /// How long the frame is shown, in the container's unit.
    pub delay: u16,
}

/// The contents of an [`AnimationFrame`].
pub struct FrameView {
    pub width: u32,
    pub height: u32,
    pub pixels: Seq<Pixel>,
    pub delay: u16,
}

impl View for AnimationFrame {
    type V = FrameView;

    open spec fn view(&self) -> FrameView {
        FrameView {
            width: self.buffer.spec_width(),
            height: self.buffer.spec_height(),
            pixels: self.buffer@,
            delay: self.delay,
        }
    }
}

/// The contents of each frame of a sequence, in order.
pub open spec fn frames_view(frames: Seq<AnimationFrame>) -> Seq<FrameView> {
    Seq::new(frames.len(), |i: int| frames[i]@)
}

/// The palette that applies to a frame: its own where it has one, otherwise
/// the shared one.
pub open spec fn spec_active_palette(local: Option<Seq<u8>>, shared: Seq<u8>) -> Seq<u8> {
    match local {
        Some(colours) => colours,
        None => shared,
    }
}

/// Whether a palette holds all three samples of the colour with this index.
pub open spec fn in_palette(palette: Seq<u8>, index: u8) -> bool {
    3 * index + 2 < palette.len()
}

/// The pixel that a palette index stands for.
///
/// An index that the palette covers gives the palette's colour, fully
/// transparent if it is the transparent index and fully opaque otherwise. An
/// index beyond the palette gives opaque black.
pub open spec fn spec_expand(palette: Seq<u8>, transparent: Option<u8>, index: u8) -> Pixel {
    if in_palette(palette, index) {
        Pixel {
            red: palette[3 * index],
            green: palette[3 * index + 1],
            blue: palette[3 * index + 2],
            alpha: if transparent == Some(index) {
                0
            } else {
                255
            },
        }
    } else {
        Pixel { red: 0, green: 0, blue: 0, alpha: 255 }
    }
}

/// The standalone frame that a stored frame resolves to, if it holds exactly
/// one index for each of its `width * height` pixels.
pub open spec fn spec_frame(frame: IndexedFrameView, shared: Seq<u8>) -> Option<FrameView> {
    if frame.indices.len() == frame.width * frame.height {
        Some(
            FrameView {
                width: frame.width as u32,
                height: frame.height as u32,
                pixels: Seq::new(
                    frame.indices.len(),
                    |i: int|
                        spec_expand(
                            spec_active_palette(frame.palette, shared),
                            frame.transparent,
                            frame.indices[i],
                        ),
                ),
                delay: frame.delay,
            },
        )
    } else {
        None
    }
}

/// What a reader has yet to give: the frames that will come, in order, and
/// whether the end after them is a proper one.
pub struct Pending {
    /// The frames that are still to come.
    pub frames: Seq<FrameView>,
    /// Whether reading ends properly after these frames, and not in a failure.
    pub intact: bool,
}

/// What an animated container gives: its frames resolved one by one, in the
/// stored order, up to the first that cannot be resolved. The end is proper
/// if every frame can be resolved and the container itself ends properly.
pub open spec fn spec_pending(stream: GifStream) -> Pending
    decreases stream.frames.len(),
{
    if stream.frames.len() == 0 {
        Pending { frames: Seq::empty(), intact: stream.intact }
    } else {
        match spec_frame(stream.frames[0], stream.global_palette) {
            Some(frame) => {
                let rest = spec_pending(GifStream { frames: stream.frames.skip(1), ..stream });
                Pending { frames: seq![frame] + rest.frames, intact: rest.intact }
            },
            None => Pending { frames: Seq::empty(), intact: false },
        }
    }
}

/// The still picture that data holds.
///
/// Empty data is refused before anything else is looked at.
pub open spec fn spec_load(bytes: Seq<u8>) -> Result<FrameView, RenderError> {
    if bytes.len() == 0 {
        Err(RenderError::EmptyInput)
    } else {
        match still_image(bytes) {
            Some((width, height, samples)) => if samples.len() == 4 * (width * height) {
                Ok(FrameView { width, height, pixels: pixels_of(samples), delay: 0 })
            } else {
                Err(RenderError::MalformedFrame)
            },
            None => Err(RenderError::UnsupportedFormat),
        }
    }
}

/// What opening data for reading gives.
///
/// Empty data is refused before anything else is looked at. Data with a GIF
/// signature is read as an animated container. All other data is decoded as
/// a still picture, which gives a single frame without delay.
pub open spec fn spec_open(bytes: Seq<u8>) -> Result<Pending, RenderError> {
    if bytes.len() == 0 {
        Err(RenderError::EmptyInput)
    } else if has_gif_signature(bytes) {
        match gif_stream(bytes) {
            Some(stream) => Ok(spec_pending(stream)),
            None => Err(RenderError::UnsupportedFormat),
        }
    } else {
        match spec_load(bytes) {
            Ok(picture) => Ok(Pending { frames: seq![picture], intact: true }),
            Err(error) => Err(error),
        }
    }
}

/// The frames that data decodes to: all that reading gives, if it ends
/// properly.
pub open spec fn spec_decode(bytes: Seq<u8>) -> Result<Seq<FrameView>, RenderError> {
    match spec_open(bytes) {
        Ok(pending) => if pending.intact {
            Ok(pending.frames)
        } else {
            Err(RenderError::MalformedFrame)
        },
        Err(error) => Err(error),
    }
}

/// Whether `outcome` is what decoding `bytes` gives.
pub open spec fn decodes_to(bytes: Seq<u8>, outcome: Result<Vec<AnimationFrame>, RenderError>) -> bool {
    match outcome {
        Ok(frames) => spec_decode(bytes) == Ok::<Seq<FrameView>, RenderError>(
            frames_view(frames@),
        ),
        Err(error) => spec_decode(bytes) == Err::<Seq<FrameView>, RenderError>(error),
    }
}

/// Frames that are kept for handing out, the next one last.
pub open spec fn spec_stacked(stack: Seq<AnimationFrame>) -> Seq<FrameView> {
    Seq::new(stack.len(), |i: int| stack[stack.len() - 1 - i]@)
}

/// Chooses the palette that applies to a frame: its own where it has one,
/// otherwise the shared one.
pub fn active_palette<'a>(local: &'a Option<Vec<u8>>, shared: &'a Vec<u8>) -> (palette: &'a Vec<u8>)
    ensures
        palette@ == spec_active_palette(
            match *local {
                Some(colours) => Some(colours@),
                None => None,
            },
            shared@,
        ),
{
    match local {
        Some(colours) => colours,
        None => shared,
    }
}

/// Looks a palette index up.
pub fn expand_sample(palette: &Vec<u8>, transparent: Option<u8>, index: u8) -> (pixel: Pixel)
    ensures
        pixel == spec_expand(palette@, transparent, index),
{
    let base: usize = 3 * (index as usize);
    if base + 2 < palette.len() {
        let alpha: u8 = match transparent {
            Some(clear) => if clear == index {
                0
            } else {
                255
            },
            None => 255,
        };
        Pixel { red: palette[base], green: palette[base + 1], blue: palette[base + 2], alpha }
    } else {
        Pixel { red: 0, green: 0, blue: 0, alpha: 255 }
    }
}

/// Resolves a stored frame into a standalone RGBA frame.
///
/// Fails with `MalformedFrame` exactly when the number of indices is not
/// `width * height`.
pub fn reconstruct_frame(frame: &IndexedFrame, shared: &Vec<u8>) -> (made: Result<
    AnimationFrame,
    RenderError,
>)
    ensures
        match made {
            Ok(resolved) => spec_frame(frame@, shared@) == Some(resolved@),
            Err(error) => error == RenderError::MalformedFrame && spec_frame(frame@, shared@)
                is None,
        },
{
    let palette = active_palette(&frame.palette, shared);
    let count = frame.indices.len();
    let mut samples: Vec<u8> = Vec::new();
    let mut i: usize = 0;
    while i < count
        invariant
            i <= count,
            count == frame.indices@.len(),
            samples@.len() == 4 * i,
            palette@ == spec_active_palette(frame@.palette, shared@),
            forall|k: int|
                0 <= k < i ==> pixel_at(samples@, k) == spec_expand(
                    palette@,
                    frame.transparent,
                    #[trigger] frame.indices@[k],
                ),
        decreases count - i,
    {
        let pixel = expand_sample(palette, frame.transparent, frame.indices[i]);
        let ghost before = samples@;
        samples.push(pixel.red);
        samples.push(pixel.green);
        samples.push(pixel.blue);
        samples.push(pixel.alpha);
        proof {
            assert forall|k: int| 0 <= k < i + 1 implies pixel_at(samples@, k) == spec_expand(
                palette@,
                frame.transparent,
                #[trigger] frame.indices@[k],
            ) by {
                if k < i {
                    assert(pixel_at(samples@, k) == pixel_at(before, k));
                }
            }
        }
        i += 1;
    }
    match PixelBuffer::from_raw(frame.width as u32, frame.height as u32, samples) {
        Some(buffer) => {
            let resolved = AnimationFrame { buffer, delay: frame.delay };
            proof {
                let wanted = spec_frame(frame@, shared@)->Some_0;
                assert(resolved@.pixels =~= wanted.pixels);
            }
            Ok(resolved)
        },
        None => Err(RenderError::MalformedFrame),
    }
}

/// Decodes data as a still picture. Of an animation this gives the first frame.
///
/// The errors: `EmptyInput` for no bytes at all, before any decoder is tried;
/// `UnsupportedFormat` where the data cannot be decoded; `MalformedFrame`
/// where the decoded samples do not match the decoded dimensions.
pub fn load_image(bytes: &[u8]) -> (loaded: Result<PixelBuffer, RenderError>)
    ensures
        match loaded {
            Ok(image) => spec_load(bytes@) == Ok::<FrameView, RenderError>(
                FrameView {
                    width: image.spec_width(),
                    height: image.spec_height(),
                    pixels: image@,
                    delay: 0,
                },
            ),
            Err(error) => spec_load(bytes@) == Err::<FrameView, RenderError>(error),
        },
        bytes@.len() == 0 ==> loaded == Err::<PixelBuffer, RenderError>(RenderError::EmptyInput),
{
    if bytes.len() == 0 {
        return Err(RenderError::EmptyInput);
    }
    match load_still(bytes) {
        Ok((width, height, samples)) => match PixelBuffer::from_raw(width, height, samples) {
            Some(image) => Ok(image),
            None => Err(RenderError::MalformedFrame),
        },
        Err(_) => Err(RenderError::UnsupportedFormat),
    }
}

/// Where the frames of a reader come from.
enum Source<'a> {
    /// An open animated container and its shared palette.
    Animation(GifReader<'a>, Vec<u8>),
    /// Frames that are already resolved, the next one last.
    Listed(Vec<AnimationFrame>),
    /// Reading has failed.
    Broken,
}

/// Gives the frames of a container one by one, in the stored order.
pub struct FrameReader<'a> {
    source: Source<'a>,
}

impl<'a> FrameReader<'a> {
    #[verifier::type_invariant]
    spec fn consistent(&self) -> bool {
        match self.source {
            Source::Animation(reader, palette) => palette@ == unread(reader).global_palette,
            _ => true,
        }
    }

    /// What the reader has yet to give.
    pub closed spec fn pending(&self) -> Pending {
        match self.source {
            Source::Animation(reader, palette) => spec_pending(unread(reader)),
            Source::Listed(stack) => Pending { frames: spec_stacked(stack@), intact: true },
            Source::Broken => Pending { frames: Seq::empty(), intact: false },
        }
    }

    /// Opens data for reading.
    ///
    /// The errors: `EmptyInput` for no bytes at all, before any decoder is
    /// tried; `UnsupportedFormat` where the data cannot be opened as an
    /// image; `MalformedFrame` where the samples of a still picture do not
    /// match its dimensions.
    pub fn open(bytes: &'a [u8]) -> (opened: Result<FrameReader<'a>, RenderError>)
        ensures
            match opened {
                Ok(reader) => spec_open(bytes@) == Ok::<Pending, RenderError>(reader.pending()),
                Err(error) => spec_open(bytes@) == Err::<Pending, RenderError>(error),
            },
            bytes@.len() == 0 ==> (opened matches Err(error) && error
                == RenderError::EmptyInput),
    {
        if bytes.len() == 0 {
            Err(RenderError::EmptyInput)
        } else if is_gif(bytes) {
            match open_gif(bytes) {
                Ok(reader) => {
                    let palette = shared_palette(&reader);
                    Ok(FrameReader { source: Source::Animation(reader, palette) })
                },
                Err(_) => Err(RenderError::UnsupportedFormat),
            }
        } else {
            match load_image(bytes) {
                Ok(buffer) => {
                    let mut stack: Vec<AnimationFrame> = Vec::new();
                    stack.push(AnimationFrame { buffer, delay: 0 });
                    let reader = FrameReader { source: Source::Listed(stack) };
                    proof {
                        let wanted = seq![spec_load(bytes@)->Ok_0];
                        assert(reader.pending().frames =~= wanted);
                    }
                    Ok(reader)
                },
                Err(error) => Err(error),
            }
        }
    }

    /// Makes a reader that gives the frames of a list, first to last.
    pub fn from_frames(frames: Vec<AnimationFrame>) -> (reader: FrameReader<'a>)
        ensures
            reader.pending() == (Pending { frames: frames_view(frames@), intact: true }),
    {
        let ghost listed = frames@;
        let mut frames = frames;
        let mut stack: Vec<AnimationFrame> = Vec::new();
        while frames.len() > 0
            invariant
                frames@.len() + stack@.len() == listed.len(),
                forall|i: int| 0 <= i < frames@.len() ==> frames@[i] == listed[i],
                forall|i: int|
                    0 <= i < stack@.len() ==> stack@[i] == listed[listed.len() - 1 - i],
            decreases frames@.len(),
        {
            let frame = frames.pop().unwrap();
            stack.push(frame);
        }
        let reader = FrameReader { source: Source::Listed(stack) };
        proof {
            assert(reader.pending().frames =~= frames_view(listed));
        }
        reader
    }

    /// Hands out the next frame, or reports the end.
    ///
    /// A frame comes while one is pending. After the last one the reader
    /// reports the end if it is a proper one, and fails with `MalformedFrame`
    /// if a frame cannot be resolved or the container breaks off. A reader
    /// that has reported the end or failed goes on doing so.
    pub fn next_frame(&mut self) -> (step: Result<Option<AnimationFrame>, RenderError>)
        ensures
            match step {
                Ok(Some(frame)) => {
                    &&& old(self).pending().frames.len() > 0
                    &&& frame@ == old(self).pending().frames[0]
                    &&& final(self).pending().frames == old(self).pending().frames.skip(1)
                    &&& final(self).pending().intact == old(self).pending().intact
                },
                Ok(None) => {
                    &&& old(self).pending().frames.len() == 0
                    &&& old(self).pending().intact
                    &&& final(self).pending() == old(self).pending()
                },
                Err(error) => {
                    &&& error == RenderError::MalformedFrame
                    &&& old(self).pending().frames.len() == 0
                    &&& !old(self).pending().intact
                    &&& final(self).pending() == old(self).pending()
                },
            },
    {
        proof {
            use_type_invariant(&*self);
        }
        let mut source = Source::Broken;
        core::mem::swap(&mut self.source, &mut source);
        match source {
            Source::Animation(reader, palette) => {
                let mut reader = reader;
                let ghost before = unread(reader);
                match next_indexed_frame(&mut reader) {
                    Ok(Some(stored)) => match reconstruct_frame(&stored, &palette) {
                        Ok(frame) => {
                            proof {
                                let rest = GifStream { frames: before.frames.skip(1), ..before };
                                assert(unread(reader) =~= rest) by {
                                    assert(unread(reader).frames == rest.frames);
                                };
                                assert((seq![frame@] + spec_pending(rest).frames).skip(1)
                                    =~= spec_pending(rest).frames);
                            }
                            self.source = Source::Animation(reader, palette);
                            Ok(Some(frame))
                        },
                        Err(error) => Err(error),
                    },
                    Ok(None) => {
                        self.source = Source::Listed(Vec::new());
                        proof {
                            assert(self.pending().frames =~= Seq::<FrameView>::empty());
                        }
                        Ok(None)
                    },
                    Err(_) => Err(RenderError::MalformedFrame),
                }
            },
            Source::Listed(stack) => {
                let mut stack = stack;
                let ghost before = stack@;
                match stack.pop() {
                    Some(frame) => {
                        proof {
                            assert(spec_stacked(stack@) =~= spec_stacked(before).skip(1));
                        }
                        self.source = Source::Listed(stack);
                        Ok(Some(frame))
                    },
                    None => {
                        self.source = Source::Listed(stack);
                        proof {
                            assert(spec_stacked(stack@) =~= spec_stacked(before));
                        }
                        Ok(None)
                    },
                }
            },
            Source::Broken => Err(RenderError::MalformedFrame),
        }
    }
}

/// Decodes data into its frames, in the order in which the container stores
/// them.
///
/// A still picture gives one frame with delay 0. The errors: `EmptyInput` for
/// no bytes at all, before any decoder is tried; `UnsupportedFormat` where
/// the data cannot be opened as an image; `MalformedFrame` where a frame
/// cannot be resolved or the container breaks off.
pub fn decode(bytes: &[u8]) -> (decoded: Result<Vec<AnimationFrame>, RenderError>)
    ensures
        decodes_to(bytes@, decoded),
        bytes@.len() == 0 ==> decoded == Err::<Vec<AnimationFrame>, RenderError>(
            RenderError::EmptyInput,
        ),
{
    let mut reader = match FrameReader::open(bytes) {
        Ok(reader) => reader,
        Err(error) => {
            return Err(error);
        },
    };
    let ghost start = reader.pending();
    let mut frames: Vec<AnimationFrame> = Vec::new();
    loop
        invariant
            spec_open(bytes@) == Ok::<Pending, RenderError>(start),
            bytes@.len() > 0,
            reader.pending().intact == start.intact,
            frames@.len() <= start.frames.len(),
            reader.pending().frames == start.frames.skip(frames@.len() as int),
            forall|i: int| 0 <= i < frames@.len() ==> frames@[i]@ == start.frames[i],
        decreases reader.pending().frames.len(),
    {
        let ghost done = frames@.len() as int;
        match reader.next_frame() {
            Ok(Some(frame)) => {
                frames.push(frame);
                proof {
                    assert(start.frames.skip(done).skip(1) =~= start.frames.skip(done + 1));
                }
            },
            Ok(None) => {
                proof {
                    assert(start.frames =~= frames_view(frames@));
                }
                return Ok(frames);
            },
            Err(error) => {
                return Err(error);
            },
        }
    }
}

/// Decoding is stable: whatever two runs on the same data give, they give the
/// same frames, with the same pixels and delays in the same order, or the
/// same error.
pub proof fn lemma_decode_is_stable(
    bytes: Seq<u8>,
    first: Result<Vec<AnimationFrame>, RenderError>,
    second: Result<Vec<AnimationFrame>, RenderError>,
)
    requires
        decodes_to(bytes, first),
        decodes_to(bytes, second),
    ensures
        match (first, second) {
            (Ok(a), Ok(b)) => frames_view(a@) == frames_view(b@),
            (Err(a), Err(b)) => a == b,
            _ => false,
        },
{
}

/// What reading an animated container gives, frame by frame: frame `i` of
/// the reading is frame `i` of the container, resolved. Reading stops short
/// exactly at the first frame that cannot be resolved, and then does not end
/// properly; if it reaches the end of the container, it ends as the container
/// does.
pub proof fn lemma_pending_frames(stream: GifStream)
    ensures
        ({
            let pending = spec_pending(stream);
            &&& pending.frames.len() <= stream.frames.len()
            &&& forall|i: int|
                0 <= i < pending.frames.len() ==> spec_frame(
                    #[trigger] stream.frames[i],
                    stream.global_palette,
                ) == Some(pending.frames[i])
            &&& pending.frames.len() < stream.frames.len() ==> !pending.intact && spec_frame(
                stream.frames[pending.frames.len() as int],
                stream.global_palette,
            ) is None
            &&& pending.frames.len() == stream.frames.len() ==> pending.intact == stream.intact
        }),
    decreases stream.frames.len(),
{
    if stream.frames.len() > 0 {
        let first = spec_frame(stream.frames[0], stream.global_palette);
        if first is Some {
            let rest = GifStream { frames: stream.frames.skip(1), ..stream };
            lemma_pending_frames(rest);
            let pending = spec_pending(stream);
            let later = spec_pending(rest);
            assert forall|i: int| 0 <= i < pending.frames.len() implies spec_frame(
                #[trigger] stream.frames[i],
                stream.global_palette,
            ) == Some(pending.frames[i]) by {
                if i > 0 {
                    assert(stream.frames[i] == rest.frames[i - 1]);
                    assert(pending.frames[i] == later.frames[i - 1]);
                }
            }
            if pending.frames.len() < stream.frames.len() {
                assert(stream.frames[pending.frames.len() as int] == rest.frames[later.frames.len() as int]);
            }
        }
    }
}

/// A sample that the palette covers takes its colour from the palette. It is
/// fully transparent if it is the transparent index, and fully opaque if not.
pub proof fn lemma_covered_sample(palette: Seq<u8>, transparent: Option<u8>, index: u8)
    requires
        in_palette(palette, index),
    ensures
        spec_expand(palette, transparent, index).red == palette[3 * index],
        spec_expand(palette, transparent, index).green == palette[3 * index + 1],
        spec_expand(palette, transparent, index).blue == palette[3 * index + 2],
        transparent == Some(index) ==> spec_expand(palette, transparent, index).alpha == 0,
        transparent != Some(index) ==> spec_expand(palette, transparent, index).alpha == 255,
{
}

/// A sample beyond the palette becomes opaque black, whatever the transparent
/// index is.
pub proof fn lemma_uncovered_sample(palette: Seq<u8>, transparent: Option<u8>, index: u8)
    requires
        !in_palette(palette, index),
    ensures
        spec_expand(palette, transparent, index) == (Pixel {
            red: 0,
            green: 0,
            blue: 0,
            alpha: 255,
        }),
{
}

/// In a resolved frame, each pixel is what its index stands for in the
/// palette that applies: a frame's own palette goes before the shared one.
/// So a pixel is transparent exactly where a covered index is the
/// transparent one, and opaque black wherever the index is beyond the palette.
pub proof fn lemma_resolved_pixels(frame: IndexedFrameView, shared: Seq<u8>, k: int)
    requires
        spec_frame(frame, shared) is Some,
        0 <= k < frame.indices.len(),
    ensures
        ({
            let resolved = spec_frame(frame, shared)->Some_0;
            let palette = spec_active_palette(frame.palette, shared);
            let index = frame.indices[k];
            &&& resolved.pixels.len() == frame.width * frame.height
            &&& resolved.delay == frame.delay
            &&& frame.palette is Some ==> palette == frame.palette->Some_0
            &&& frame.palette is None ==> palette == shared
            &&& resolved.pixels[k] == spec_expand(palette, frame.transparent, index)
            &&& resolved.pixels[k].alpha == 0 <==> in_palette(palette, index) && frame.transparent
                == Some(index)
            &&& !in_palette(palette, index) ==> resolved.pixels[k] == (Pixel {
                red: 0,
                green: 0,
                blue: 0,
                alpha: 255,
            })
        }),
{
}

} // verus!
