//! The pixel store of the `image` crate, as far as the renderer relies on it.
//!
//! Nothing in this file is proved: it states what `image::ImageBuffer` does,
//! and the rest of the library is verified against these statements.

use crate::frame::{sample_offset, write_rgb, Rgb8, CHANNELS};
use image::{ImageBuffer, Rgb};
use vstd::prelude::*;

verus! {

/// An `image::ImageBuffer` of 8-bit RGB pixels over a vector of samples.
#[verifier::external_body]
pub struct PixelBuffer {
    inner: ImageBuffer<Rgb<u8>, Vec<u8>>,
}

/// The samples that back `buf`, in the order of its container.
pub uninterp spec fn buffer_samples(buf: PixelBuffer) -> Seq<u8>;

/// The width and height of `buf`, in pixels.
pub uninterp spec fn buffer_dimensions(buf: PixelBuffer) -> (u32, u32);

/// `ImageBuffer::new`: a buffer of the given dimensions backed by a vector of
/// `3 * width * height` samples, all zero. The constructor multiplies 3 by the
/// width and then by the height in `usize` and panics when a product
/// overflows, or when the count cannot be the length of a vector; the
/// precondition rules both out.
#[verifier::external_body]
pub(crate) fn new_buffer(width: u32, height: u32) -> (buf: PixelBuffer)
    requires
        CHANNELS * width <= usize::MAX,
        CHANNELS * (width * height) <= isize::MAX,
    ensures
        buffer_dimensions(buf) == (width, height),
        buffer_samples(buf) == Seq::new((CHANNELS * (width * height)) as nat, |i: int| 0u8),
{
    PixelBuffer { inner: ImageBuffer::new(width, height) }
}

/// `ImageBuffer::dimensions`: the width and height the buffer was made with.
#[verifier::external_body]
pub(crate) fn dimensions_of(buf: &PixelBuffer) -> (dims: (u32, u32))
    ensures
        dims == buffer_dimensions(*buf),
{
    buf.inner.dimensions()
}

/// `ImageBuffer::as_raw`: the container that backs the buffer.
#[verifier::external_body]
pub(crate) fn raw_samples(buf: &PixelBuffer) -> (raw: &Vec<u8>)
    ensures
        raw@ == buffer_samples(*buf),
{
    buf.inner.as_raw()
}

/// `ImageBuffer::put_pixel`: overwrites the three samples of pixel `(x, y)`,
/// which start at index `3 * (y * width + x)`, with the colour's channels and
/// touches nothing else. The method panics outside the buffer's dimensions,
/// which the precondition rules out; inside them it returns normally, a
/// buffer being never shorter than its dimensions ask for.
#[verifier::external_body]
pub(crate) fn put_buffer_pixel(buf: &mut PixelBuffer, x: u32, y: u32, colour: Rgb8)
    requires
        x < buffer_dimensions(*old(buf)).0,
        y < buffer_dimensions(*old(buf)).1,
    ensures
        buffer_dimensions(*final(buf)) == buffer_dimensions(*old(buf)),
        buffer_samples(*final(buf)) == write_rgb(
            buffer_samples(*old(buf)),
            sample_offset(buffer_dimensions(*old(buf)).0 as nat, x as int, y as int),
            colour,
        ),
    no_unwind
{
    buf.inner.put_pixel(x, y, Rgb([colour.0, colour.1, colour.2]))
}

} // verus!
