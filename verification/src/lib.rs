//! Renders raster images, and the frames of animated ones, as monospace text.
//!
//! A picture goes through four stages: a linear contrast stretch
//! ([`tone`]), a resampling to the width of the text that makes up for tall
//! character cells ([`resample`]), a reduction to perceptual brightness
//! ([`luminance`]), and a mapping of each brightness to a glyph of an ordered
//! ramp ([`glyph`]). [`pipeline`] runs the four in order. [`animation`]
//! unpacks containers into standalone RGBA frames, each with its delay, and
//! [`delivery`] hands rendered frames to a consumer, all at once or one by
//! one in time. [`request`] reads the width that a caller asks for.
//!
//! Decoding and filtering are done by the `image` and `gif` crates; what the
//! library relies on from them is stated in [`codec`].

pub mod animation;
pub mod arith;
pub mod buffer;
pub mod codec;
pub mod delivery;
pub mod error;
pub mod glyph;
pub mod luminance;
pub mod pipeline;
pub mod request;
pub mod resample;
pub mod tone;

pub use crate::animation::{decode, load_image, AnimationFrame, FrameReader};
pub use crate::buffer::{GrayBuffer, Pixel, PixelBuffer};
pub use crate::delivery::{convert_gif, Delivery, DeliveryAction, DeliveryEvent};
pub use crate::error::RenderError;
pub use crate::glyph::CharacterRamp;
pub use crate::pipeline::{convert_image, frame_to_ascii, render_frame, RenderConfig};
pub use crate::resample::AspectCorrection;
pub use crate::tone::ContrastFactor;
