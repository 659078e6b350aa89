//! Rendering: the traversal of the viewport and the raster it fills.

pub mod buffer;
pub mod encode;

use crate::frame::{
    fits_memory, flipped_row, lemma_put_keeps_others, lemma_put_reads_back, Frame, Rgb8,
};
use crate::render::encode::Encoder;
use vstd::prelude::*;

verus! {

/// Whether `frame` shows what `shade` gives for the pixels of a viewport of
/// the frame's size: pixel `(x, y)` of the frame holds a colour that `shade`
/// may return for viewport pixel `(x, height - 1 - y)`.
pub open spec fn depicts<F: Fn(u32, u32) -> Rgb8>(frame: Frame, shade: F) -> bool {
    forall|x: int, y: int|
        frame.contains(x, y) ==> call_ensures(
            shade,
            (x as u32, flipped_row(frame.height, y) as u32),
            #[trigger] frame.pixel(x, y),
        )
}

/// The colour of viewport pixel `(i, j)` stands in column `i` of the row that
/// mirrors `j`; the top row of the viewport, `height - 1`, is row 0 of the
/// frame.
pub proof fn lemma_viewport_pixel_in_frame<F: Fn(u32, u32) -> Rgb8>(
    frame: Frame,
    shade: F,
    i: u32,
    j: u32,
)
    requires
        depicts(frame, shade),
        frame.contains(i as int, j as int),
    ensures
        frame.contains(i as int, flipped_row(frame.height, j as int)),
        call_ensures(shade, (i, j), frame.pixel(i as int, flipped_row(frame.height, j as int))),
        j == frame.height - 1 ==> flipped_row(frame.height, j as int) == 0,
{
    let y = flipped_row(frame.height, j as int);
    assert(flipped_row(frame.height, y) as u32 == j);
}

/// Options to create a new renderer.
pub struct Options<'a> {
    // Image dimensions.
    pub image_width: u32,
    pub image_height: u32,
    /// samples_per_pixel for anti-aliasing.
    pub samples_per_pixel: u32,
    // max_diff_depth for nested reflections, refractions and diffusion.
    pub max_diff_depth: u32,
    // output_file is the path to the output file.
    pub output_file: &'a str,
}

/// Renderer fills a picture pixel by pixel.
pub struct Renderer<'a> {
    pub opts: Options<'a>,
}

impl<'a> Renderer<'a> {
    /// Constructor.
    pub fn new(opts: Options<'a>) -> (renderer: Self)
        ensures
            renderer.opts == opts,
    {
        Renderer { opts }
    }

    /// render walks the viewport row by row from the bottom, each row from the
    /// left, asks `shade` for the colour of every viewport pixel `(i, j)` and
    /// stores it in the picture.
    ///
    /// Viewport rows count upwards and picture rows downwards, so pixel
    /// `(x, y)` of the picture holds what `shade` gave for `(x, height - 1 - y)`:
    /// the first row of the picture is the top of the viewport.
    pub fn render<F: Fn(u32, u32) -> Rgb8>(&self, shade: F) -> (encoder: Encoder<'a>)
        requires
            fits_memory(self.opts.image_width as nat, self.opts.image_height as nat),
            forall|i: u32, j: u32|
                i < self.opts.image_width && j < self.opts.image_height ==> call_requires(
                    shade,
                    (i, j),
                ),
        ensures
            encoder@.wf(),
            encoder@.width == self.opts.image_width,
            encoder@.height == self.opts.image_height,
            encoder.path() == self.opts.output_file@,
            depicts(encoder@, shade),
    {
        let width = self.opts.image_width;
        let height = self.opts.image_height;
        let mut encoder = Encoder::new(self.opts.output_file, width, height);

        // Nested loop over image height and width to handle each pixel.
        let mut j: u32 = 0;
        while j < height
            invariant
                j <= height,
                encoder@.wf(),
                encoder@.width == width,
                encoder@.height == height,
                encoder.path() == self.opts.output_file@,
                forall|a: u32, b: u32| a < width && b < height ==> call_requires(shade, (a, b)),
                forall|x: int, y: int|
                    0 <= x < width && height - j <= y < height ==> call_ensures(
                        shade,
                        (x as u32, flipped_row(height as nat, y) as u32),
                        #[trigger] encoder@.pixel(x, y),
                    ),
            decreases height - j,
        {
            // Reversing "j" because the picture is drawn from the top-left.
            let j_rev = height - 1 - j;
            let mut i: u32 = 0;
            while i < width
                invariant
                    i <= width,
                    j < height,
                    j_rev == height - 1 - j,
                    encoder@.wf(),
                    encoder@.width == width,
                    encoder@.height == height,
                    encoder.path() == self.opts.output_file@,
                    forall|a: u32, b: u32|
                        a < width && b < height ==> call_requires(shade, (a, b)),
                    forall|x: int, y: int|
                        0 <= x < width && height - j <= y < height ==> call_ensures(
                            shade,
                            (x as u32, flipped_row(height as nat, y) as u32),
                            #[trigger] encoder@.pixel(x, y),
                        ),
                    forall|x: int|
                        0 <= x < i ==> call_ensures(
                            shade,
                            (x as u32, j),
                            #[trigger] encoder@.pixel(x, j_rev as int),
                        ),
                decreases width - i,
            {
                let colour = shade(i, j);
                let ghost before = encoder@;
                encoder.put_pixel(i, j_rev, colour);
                proof {
                    lemma_put_reads_back(before, i as int, j_rev as int, colour);
                    assert forall|x: int, y: int|
                        before.contains(x, y) && (x, y) != (i as int, j_rev as int)
                        implies #[trigger] encoder@.pixel(x, y) == before.pixel(x, y) by {
                        lemma_put_keeps_others(before, i as int, j_rev as int, colour, x, y);
                    }
                }
                i += 1;
            }
            j += 1;
        }
        encoder
    }
}

} // verus!
