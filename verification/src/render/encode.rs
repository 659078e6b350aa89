//! The encoder: the raster a render writes into, together with the path the
//! finished picture is meant for.

use crate::frame::{
    fits_memory, lemma_put_keeps_shape, lemma_rank_in_bounds, Frame, Rgb8, CHANNELS,
};
use crate::render::buffer::{
    buffer_dimensions, buffer_samples, dimensions_of, new_buffer, put_buffer_pixel, raw_samples,
    PixelBuffer,
};
use vstd::prelude::*;

verus! {

/// Encoder collects the pixels of one picture.
pub struct Encoder<'a> {
    file_path: &'a str,
    imag_buff: PixelBuffer,
}

impl<'a> View for Encoder<'a> {
    type V = Frame;

    closed spec fn view(&self) -> Frame {
        Frame {
            width: buffer_dimensions(self.imag_buff).0 as nat,
            height: buffer_dimensions(self.imag_buff).1 as nat,
            samples: buffer_samples(self.imag_buff),
        }
    }
}

impl<'a> Encoder<'a> {
    /// Every encoder holds exactly the samples of its `width * height` pixels.
    #[verifier::type_invariant]
    pub closed spec fn inv(&self) -> bool {
        self@.wf()
    }

    /// The characters of the path the picture is meant for.
    pub closed spec fn path(&self) -> Seq<char> {
        self.file_path@
    }

    /// Tells whether a picture of the given size can be created at all.
    pub fn can_hold(width: u32, height: u32) -> (ok: bool)
        ensures
            ok == fits_memory(width as nat, height as nat),
    {
        assert(CHANNELS * width <= 3 * 0xffff_ffff && CHANNELS * (width * height) <= 3
            * 0xffff_fffe_0000_0001) by (nonlinear_arith)
            requires
                CHANNELS == 3,
                0 <= width <= 0xffff_ffff,
                0 <= height <= 0xffff_ffff,
        ;
        let pixels: u128 = width as u128 * height as u128;
        CHANNELS as u128 * width as u128 <= usize::MAX as u128 && CHANNELS as u128 * pixels
            <= isize::MAX as u128
    }

    /// Constructor: a black picture of the given size.
    ///
    /// The size of the backing store, three samples per pixel, has to be a
    /// possible length of a vector.
    pub fn new(file_path: &'a str, width: u32, height: u32) -> (encoder: Encoder<'a>)
        requires
            fits_memory(width as nat, height as nat),
        ensures
            encoder@ == Frame::blank(width as nat, height as nat),
            encoder@.wf(),
            encoder.path() == file_path@,
    {
        Encoder { file_path: file_path, imag_buff: new_buffer(width, height) }
    }

    /// put_pixel puts the provided pixel value into the image.
    pub fn put_pixel(&mut self, x: u32, y: u32, col: Rgb8)
        requires
            old(self)@.contains(x as int, y as int),
        ensures
            final(self)@ == old(self)@.put(x as int, y as int, col),
            final(self)@.wf(),
            final(self).path() == old(self).path(),
    {
        proof {
            use_type_invariant(&*self);
            lemma_put_keeps_shape(self@, x as int, y as int, col);
        }
        put_buffer_pixel(&mut self.imag_buff, x, y, col);
    }

    /// The path the picture is meant for.
    pub fn file_path(&self) -> (path: &'a str)
        ensures
            path@ == self.path(),
    {
        self.file_path
    }

    /// The width of the picture, in pixels.
    pub fn width(&self) -> (width: u32)
        ensures
            width == self@.width,
    {
        dimensions_of(&self.imag_buff).0
    }

    /// The height of the picture, in pixels.
    pub fn height(&self) -> (height: u32)
        ensures
            height == self@.height,
    {
        dimensions_of(&self.imag_buff).1
    }

    /// The samples of the picture: three per pixel (red, green, blue), the
    /// pixels of a row from left to right, the rows from top to bottom.
    pub fn samples(&self) -> (samples: &Vec<u8>)
        ensures
            samples@ == self@.samples,
            self@.wf(),
    {
        proof {
            use_type_invariant(self);
        }
        raw_samples(&self.imag_buff)
    }

    /// The colour of pixel `(x, y)`.
    pub fn pixel(&self, x: u32, y: u32) -> (col: Rgb8)
        requires
            self@.contains(x as int, y as int),
        ensures
            col == self@.pixel(x as int, y as int),
    {
        let raw = raw_samples(&self.imag_buff);
        let width = dimensions_of(&self.imag_buff).0;
        let len = raw.len();
        proof {
            use_type_invariant(self);
            lemma_rank_in_bounds(self@.width, self@.height, x as int, y as int);
            assert(len == CHANNELS * (self@.width * self@.height));
            assert(0 <= y * width) by (nonlinear_arith)
                requires
                    0 <= y,
                    0 <= width,
            ;
        }
        let start: usize = CHANNELS as usize * (y as usize * width as usize + x as usize);
        (raw[start], raw[start + 1], raw[start + 2])
    }
}

} // verus!
