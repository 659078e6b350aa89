//! The mathematical model of an RGB raster: interleaved 8-bit samples in
//! row-major order, the first row being the top row of the picture.

use vstd::prelude::*;

verus! {

/// Number of samples that make up one pixel (red, green, blue).
pub const CHANNELS: u32 = 3;

/// An 8-bit colour as (red, green, blue).
pub type Rgb8 = (u8, u8, u8);

/// A raster of `width` by `height` pixels and the samples that back it.
pub struct Frame {
    pub width: nat,
    pub height: nat,
    pub samples: Seq<u8>,
}

/// Position of pixel `(x, y)` in row-major order, for rows of `width` pixels.
pub open spec fn pixel_rank(width: nat, x: int, y: int) -> int {
    y * width + x
}

/// Index of the red sample of pixel `(x, y)`; green and blue follow it.
pub open spec fn sample_offset(width: nat, x: int, y: int) -> int {
    CHANNELS * pixel_rank(width, x, y)
}

/// The samples `s` after the three samples from `offset` on were replaced by `colour`.
pub open spec fn write_rgb(s: Seq<u8>, offset: int, colour: Rgb8) -> Seq<u8> {
    s.update(offset, colour.0).update(offset + 1, colour.1).update(offset + 2, colour.2)
}

/// The row of the raster that shows viewport row `j`: viewport rows count
/// upwards from the bottom, raster rows downwards from the top.
pub open spec fn flipped_row(height: nat, j: int) -> int {
    height - 1 - j
}

/// Whether the samples of a `width` by `height` raster can be counted and
/// stored on this machine: the samples of one row fit a `usize`, and those of
/// all rows fit the length of a vector.
pub open spec fn fits_memory(width: nat, height: nat) -> bool {
    &&& CHANNELS * width <= usize::MAX
    &&& CHANNELS * (width * height) <= isize::MAX
}

impl Frame {
    /// The backing store holds exactly the samples of `width * height` pixels.
    pub open spec fn wf(self) -> bool {
        self.samples.len() == CHANNELS * (self.width * self.height)
    }

    /// Whether `(x, y)` names a pixel of this raster.
    pub open spec fn contains(self, x: int, y: int) -> bool {
        0 <= x < self.width && 0 <= y < self.height
    }

    /// The colour stored for pixel `(x, y)`.
    pub open spec fn pixel(self, x: int, y: int) -> Rgb8 {
        let o = sample_offset(self.width, x, y);
        (self.samples[o], self.samples[o + 1], self.samples[o + 2])
    }

    /// The raster of the given size in which every sample is zero.
    pub open spec fn blank(width: nat, height: nat) -> Frame {
        Frame {
            width,
            height,
            samples: Seq::new((CHANNELS * (width * height)) as nat, |i: int| 0u8),
        }
    }

    /// This raster with pixel `(x, y)` replaced by `colour`.
    pub open spec fn put(self, x: int, y: int, colour: Rgb8) -> Frame {
        Frame {
            width: self.width,
            height: self.height,
            samples: write_rgb(self.samples, sample_offset(self.width, x, y), colour),
        }
    }
}

/// Row-major ranks of pixels inside a `width` by `height` raster stay below
/// `width * height`.
pub proof fn lemma_rank_in_bounds(width: nat, height: nat, x: int, y: int)
    requires
        0 <= x < width,
        0 <= y < height,
    ensures
        0 <= pixel_rank(width, x, y) < width * height,
{
    assert(y * width + x < width * height) by (nonlinear_arith)
        requires
            0 <= x < width,
            0 <= y < height,
    ;
    assert(0 <= y * width) by (nonlinear_arith)
        requires
            0 <= y,
            0 <= width,
    ;
}

/// Two different pixels of one raster never share a row-major rank.
pub proof fn lemma_rank_injective(width: nat, x1: int, y1: int, x2: int, y2: int)
    requires
        0 <= x1 < width,
        0 <= x2 < width,
        0 <= y1,
        0 <= y2,
        (x1, y1) != (x2, y2),
    ensures
        pixel_rank(width, x1, y1) != pixel_rank(width, x2, y2),
{
    if y1 < y2 {
        assert(y1 * width + x1 < y2 * width + x2) by (nonlinear_arith)
            requires
                0 <= x1 < width,
                0 <= x2,
                0 <= y1 < y2,
        ;
    } else if y2 < y1 {
        assert(y2 * width + x2 < y1 * width + x1) by (nonlinear_arith)
            requires
                0 <= x2 < width,
                0 <= x1,
                0 <= y2 < y1,
        ;
    }
}

/// The three samples of a pixel of a well-formed raster lie inside its store.
pub proof fn lemma_offset_in_bounds(f: Frame, x: int, y: int)
    requires
        f.wf(),
        f.contains(x, y),
    ensures
        0 <= sample_offset(f.width, x, y),
        sample_offset(f.width, x, y) + CHANNELS <= f.samples.len(),
{
    lemma_rank_in_bounds(f.width, f.height, x, y);
}

/// A blank raster is well formed and black everywhere.
pub proof fn lemma_blank_is_black(width: nat, height: nat, x: int, y: int)
    requires
        0 <= x < width,
        0 <= y < height,
    ensures
        Frame::blank(width, height).wf(),
        Frame::blank(width, height).pixel(x, y) == (0u8, 0u8, 0u8),
{
    lemma_offset_in_bounds(Frame::blank(width, height), x, y);
}

/// Writing a pixel keeps the raster's size and well-formedness.
pub proof fn lemma_put_keeps_shape(f: Frame, x: int, y: int, colour: Rgb8)
    requires
        f.wf(),
        f.contains(x, y),
    ensures
        f.put(x, y, colour).wf(),
        f.put(x, y, colour).width == f.width,
        f.put(x, y, colour).height == f.height,
{
    lemma_offset_in_bounds(f, x, y);
}

/// A pixel reads back as the colour last written to it.
pub proof fn lemma_put_reads_back(f: Frame, x: int, y: int, colour: Rgb8)
    requires
        f.wf(),
        f.contains(x, y),
    ensures
        f.put(x, y, colour).pixel(x, y) == colour,
{
    lemma_offset_in_bounds(f, x, y);
}

/// Writing one pixel leaves every other pixel as it was.
pub proof fn lemma_put_keeps_others(f: Frame, x: int, y: int, colour: Rgb8, x2: int, y2: int)
    requires
        f.wf(),
        f.contains(x, y),
        f.contains(x2, y2),
        (x, y) != (x2, y2),
    ensures
        f.put(x, y, colour).pixel(x2, y2) == f.pixel(x2, y2),
{
    lemma_offset_in_bounds(f, x, y);
    lemma_offset_in_bounds(f, x2, y2);
    lemma_rank_injective(f.width, x, y, x2, y2);
}

/// Mirroring a row twice gives the row back, and a mirrored row is a row.
pub proof fn lemma_flip_involution(height: nat, j: int)
    requires
        0 <= j < height,
    ensures
        0 <= flipped_row(height, j) < height,
        flipped_row(height, flipped_row(height, j)) == j,
{
}

} // verus!
