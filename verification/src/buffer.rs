//! Pixel grids: RGBA pictures and single-channel brightness maps.
//!
//! Both kinds store their samples row by row, top to bottom and left to
//! right. A picture keeps four samples per pixel (red, green, blue, alpha), a
//! brightness map one. The sample count always matches the dimensions; the
//! types enforce it, so no function that takes a buffer has to ask for it.

use vstd::prelude::*;

verus! {

/// One picture element: three colour channels and an opacity.
#[derive(Clone, Copy, Debug, PartialEq, Eq, Structural)]
pub struct Pixel {
    pub red: u8,
    pub green: u8,
    pub blue: u8,
    pub alpha: u8,
}

/// The pixel that starts at sample `4 * i` of raw RGBA data.
pub open spec fn pixel_at(samples: Seq<u8>, i: int) -> Pixel {
    Pixel {
        red: samples[4 * i],
        green: samples[4 * i + 1],
        blue: samples[4 * i + 2],
        alpha: samples[4 * i + 3],
    }
}

/// Raw RGBA data read as a sequence of pixels.
pub open spec fn pixels_of(samples: Seq<u8>) -> Seq<Pixel> {
    Seq::new((samples.len() / 4) as nat, |i: int| pixel_at(samples, i))
}

/// The product of two 32-bit sides, times a small factor, fits in 128 bits.
pub proof fn lemma_area_bound(width: u32, height: u32)
    ensures
        0 <= width * height <= 0xFFFF_FFFF * 0xFFFF_FFFF,
        4 * (width * height) <= u128::MAX,
{
    assert(0 <= width * height <= 0xFFFF_FFFF * 0xFFFF_FFFF) by (nonlinear_arith)
        requires
            0 <= width <= 0xFFFF_FFFF,
            0 <= height <= 0xFFFF_FFFF,
    ;
}

/// A rectangular RGBA picture.
#[derive(Debug, PartialEq, Eq)]
pub struct PixelBuffer {
    width: u32,
    height: u32,
    samples: Vec<u8>,
}

impl View for PixelBuffer {
    type V = Seq<Pixel>;

    /// The pixels, row by row.
    open spec fn view(&self) -> Seq<Pixel> {
        pixels_of(self.raw())
    }
}

impl PixelBuffer {
    #[verifier::type_invariant]
    spec fn sized(&self) -> bool {
        self.samples@.len() == 4 * (self.width * self.height)
    }

    /// Number of pixels in a row.
    pub closed spec fn spec_width(&self) -> u32 {
        self.width
    }

    /// Number of rows.
    pub closed spec fn spec_height(&self) -> u32 {
        self.height
    }

    /// The samples as stored: four per pixel, row by row.
    pub closed spec fn raw(&self) -> Seq<u8> {
        self.samples@
    }

    /// The pixel in column `x` of row `y`.
    pub open spec fn spec_pixel(&self, x: int, y: int) -> Pixel {
        self@[y * self.spec_width() + x]
    }

    /// Makes a picture of raw RGBA data, if there are exactly four samples for
    /// each of `width * height` pixels.
    pub fn from_raw(width: u32, height: u32, samples: Vec<u8>) -> (made: Option<PixelBuffer>)
        ensures
            made is Some <==> samples@.len() == 4 * (width * height),
            made matches Some(b) ==> b.spec_width() == width && b.spec_height() == height
                && b.raw() == samples@,
    {
        proof {
            lemma_area_bound(width, height);
        }
        let needed: u128 = 4 * ((width as u128) * (height as u128));
        if samples.len() as u128 == needed {
            Some(PixelBuffer { width, height, samples })
        } else {
            None
        }
    }

    /// Makes a picture of raw RGBA data whose length is known to fit.
    pub fn from_samples(width: u32, height: u32, samples: Vec<u8>) -> (made: PixelBuffer)
        requires
            samples@.len() == 4 * (width * height),
        ensures
            made.spec_width() == width,
            made.spec_height() == height,
            made.raw() == samples@,
    {
        PixelBuffer { width, height, samples }
    }

    /// Number of pixels in a row.
    #[verifier::when_used_as_spec(spec_width)]
    pub fn width(&self) -> (w: u32)
        ensures
            w == self.spec_width(),
    {
        self.width
    }

    /// Number of rows.
    #[verifier::when_used_as_spec(spec_height)]
    pub fn height(&self) -> (h: u32)
        ensures
            h == self.spec_height(),
    {
        self.height
    }

    /// The raw samples, four per pixel.
    pub fn as_raw(&self) -> (samples: &Vec<u8>)
        ensures
            samples@ == self.raw(),
            samples@.len() == 4 * (self.spec_width() * self.spec_height()),
            self@.len() == self.spec_width() * self.spec_height(),
    {
        proof {
            use_type_invariant(self);
        }
        &self.samples
    }

    /// Gives up the picture for its raw samples.
    pub fn into_raw(self) -> (samples: Vec<u8>)
        ensures
            samples@ == self.raw(),
            samples@.len() == 4 * (self.spec_width() * self.spec_height()),
    {
        proof {
            use_type_invariant(&self);
        }
        self.samples
    }

    /// Number of pixels.
    pub fn pixel_count(&self) -> (n: usize)
        ensures
            n == self@.len(),
            n == self.spec_width() * self.spec_height(),
            4 * n == self.raw().len(),
    {
        proof {
            use_type_invariant(self);
        }
        self.samples.len() / 4
    }

    /// The pixel at position `index`, counting row by row.
    pub fn pixel(&self, index: usize) -> (p: Pixel)
        requires
            index < self@.len(),
        ensures
            p == self@[index as int],
    {
        proof {
            use_type_invariant(self);
        }
        let total = self.samples.len();
        assert(self@.len() == total / 4);
        let base = 4 * index;
        Pixel {
            red: self.samples[base],
            green: self.samples[base + 1],
            blue: self.samples[base + 2],
            alpha: self.samples[base + 3],
        }
    }

    /// The pixel in column `x` of row `y`.
    pub fn get(&self, x: u32, y: u32) -> (p: Pixel)
        requires
            x < self.spec_width(),
            y < self.spec_height(),
        ensures
            p == self.spec_pixel(x as int, y as int),
    {
        proof {
            use_type_invariant(self);
            lemma_area_bound(self.width, self.height);
            lemma_cell_index(x as int, y as int, self.width as int, self.height as int);
        }
        let total = self.samples.len();
        let index = (y as u64) * (self.width as u64) + (x as u64);
        assert(self@.len() == total / 4);
        assert(index < self@.len());
        self.pixel(index as usize)
    }
}

/// The position of a cell of a grid, counted row by row, lies inside the grid.
pub proof fn lemma_cell_index(x: int, y: int, width: int, height: int)
    requires
        0 <= x < width,
        0 <= y < height,
    ensures
        0 <= y * width + x < width * height,
        (y * width + x) / width == y,
        (y * width + x) % width == x,
{
    assert(0 <= y * width && y * width + width <= height * width) by (nonlinear_arith)
        requires
            0 <= y < height,
            0 < width,
    ;
    assert(height * width == width * height) by (nonlinear_arith);
    vstd::arithmetic::div_mod::lemma_fundamental_div_mod_converse(y * width + x, width, y, x);
}

/// A rectangular map of brightness, one sample per pixel.
#[derive(Debug, PartialEq, Eq)]
pub struct GrayBuffer {
    width: u32,
    height: u32,
    samples: Vec<u8>,
}

impl View for GrayBuffer {
    type V = Seq<u8>;

    /// The brightness of each pixel, row by row.
    closed spec fn view(&self) -> Seq<u8> {
        self.samples@
    }
}

impl GrayBuffer {
    #[verifier::type_invariant]
    spec fn sized(&self) -> bool {
        self.samples@.len() == self.width * self.height
    }

    /// Number of samples in a row.
    pub closed spec fn spec_width(&self) -> u32 {
        self.width
    }

    /// Number of rows.
    pub closed spec fn spec_height(&self) -> u32 {
        self.height
    }

    /// The brightness in column `x` of row `y`.
    pub open spec fn spec_sample(&self, x: int, y: int) -> u8 {
        self@[y * self.spec_width() + x]
    }

    /// Makes a brightness map of its samples, if there is exactly one for each
    /// of `width * height` pixels.
    pub fn from_raw(width: u32, height: u32, samples: Vec<u8>) -> (made: Option<GrayBuffer>)
        ensures
            made is Some <==> samples@.len() == width * height,
            made matches Some(b) ==> b.spec_width() == width && b.spec_height() == height && b@
                == samples@,
    {
        proof {
            lemma_area_bound(width, height);
        }
        let needed: u128 = (width as u128) * (height as u128);
        if samples.len() as u128 == needed {
            Some(GrayBuffer { width, height, samples })
        } else {
            None
        }
    }

    /// Makes a brightness map of samples whose number is known to fit.
    pub fn from_samples(width: u32, height: u32, samples: Vec<u8>) -> (made: GrayBuffer)
        requires
            samples@.len() == width * height,
        ensures
            made.spec_width() == width,
            made.spec_height() == height,
            made@ == samples@,
    {
        GrayBuffer { width, height, samples }
    }

    /// Number of samples in a row.
    #[verifier::when_used_as_spec(spec_width)]
    pub fn width(&self) -> (w: u32)
        ensures
            w == self.spec_width(),
    {
        self.width
    }

    /// Number of rows.
    #[verifier::when_used_as_spec(spec_height)]
    pub fn height(&self) -> (h: u32)
        ensures
            h == self.spec_height(),
    {
        self.height
    }

    /// The samples, row by row.
    pub fn as_raw(&self) -> (samples: &Vec<u8>)
        ensures
            samples@ == self@,
            samples@.len() == self.spec_width() * self.spec_height(),
    {
        proof {
            use_type_invariant(self);
        }
        &self.samples
    }

    /// Gives up the map for its samples.
    pub fn into_raw(self) -> (samples: Vec<u8>)
        ensures
            samples@ == self@,
            samples@.len() == self.spec_width() * self.spec_height(),
    {
        proof {
            use_type_invariant(&self);
        }
        self.samples
    }

    /// The brightness in column `x` of row `y`.
    pub fn get(&self, x: u32, y: u32) -> (v: u8)
        requires
            x < self.spec_width(),
            y < self.spec_height(),
        ensures
            v == self.spec_sample(x as int, y as int),
    {
        proof {
            use_type_invariant(self);
            lemma_area_bound(self.width, self.height);
            lemma_cell_index(x as int, y as int, self.width as int, self.height as int);
        }
        let total = self.samples.len();
        let index = (y as u64) * (self.width as u64) + (x as u64);
        assert(index < total);
        self.samples[index as usize]
    }
}

} // verus!
