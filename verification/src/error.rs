//! The ways in which turning bytes into text can fail.

use vstd::prelude::*;

verus! {

/// Why no rendered text could be produced for an input.
#[derive(Clone, Copy, Debug, PartialEq, Eq, Structural)]
pub enum RenderError {
    /// The input holds no bytes at all; nothing was handed to a decoder.
    EmptyInput,
    /// The bytes are not a still or animated image in any format that is understood.
    UnsupportedFormat,
    /// A recognised container held a frame that cannot be made into a pixel
    /// buffer, or into an output of the requested size.
    MalformedFrame,
}

impl RenderError {
    /// The message shown for this error.
    pub open spec fn spec_message(self) -> Seq<char> {
        match self {
            RenderError::EmptyInput => "no image data was supplied"@,
            RenderError::UnsupportedFormat => "the data is not a supported image format"@,
            RenderError::MalformedFrame => "a frame of the image could not be processed"@,
        }
    }

    /// A short description, for logs and responses.
    pub fn message(&self) -> (text: &'static str)
        ensures
            text@ == self.spec_message(),
    {
        match self {
            RenderError::EmptyInput => "no image data was supplied",
            RenderError::UnsupportedFormat => "the data is not a supported image format",
            RenderError::MalformedFrame => "a frame of the image could not be processed",
        }
    }
}

} // verus!
