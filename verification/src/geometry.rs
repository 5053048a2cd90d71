//! Frame dimensions, plane sizes, and the two ways in which a full-resolution
//! sample is paired with a chroma sample.

use vstd::arithmetic::div_mod::lemma_fundamental_div_mod_converse;
use vstd::prelude::*;

verus! {

/// The addressing strategy of a converter.
///
/// `Squared` is the spatial strategy: the chroma sample of the pixel at
/// `(row, column)` is the one at `(row / 2, column / 2)` of the half-resolution
/// plane, so a chroma sample covers a 2x2 block. `Vectorized` is the linear
/// strategy: the chroma sample of pixel `i` in row-major order is sample
/// `i / 4`, so a chroma sample covers four consecutive pixels of the scan.
#[derive(Clone, Copy, Debug, PartialEq, Eq, Structural)]
pub enum Indicization {
    Squared,
    Vectorized,
}

/// Width and height of a frame, in pixels.
#[derive(Clone, Copy, Debug, PartialEq, Eq, Structural)]
pub struct FrameSize {
    pub width: u32,
    pub height: u32,
}

impl FrameSize {
    /// Both dimensions are even, and the packed frame can be indexed.
    pub open spec fn wf(&self) -> bool {
        &&& self.width % 2 == 0
        &&& self.height % 2 == 0
        &&& self.packed_len() <= usize::MAX
    }

    /// Number of pixels of the frame.
    pub open spec fn pixels(&self) -> int {
        self.width as int * self.height as int
    }

    /// Bytes of the luma plane: one per pixel.
    pub open spec fn luma_len(&self) -> int {
        self.pixels()
    }

    /// Bytes of each chroma plane: one per four pixels.
    pub open spec fn chroma_len(&self) -> int {
        self.pixels() / 4
    }

    /// Bytes of the packed frame: four per pixel.
    pub open spec fn packed_len(&self) -> int {
        self.pixels() * 4
    }

    /// Index of the chroma sample that pixel `i` is paired with.
    pub open spec fn chroma_index(&self, strategy: Indicization, i: int) -> int {
        match strategy {
            Indicization::Squared => {
                let row = i / (self.width as int);
                let column = i % (self.width as int);
                (row / 2) * (self.width as int / 2) + column / 2
            },
            Indicization::Vectorized => i / 4,
        }
    }

    /// Index of the `k`-th of the four pixels that chroma sample `j` covers.
    pub open spec fn chroma_member(&self, strategy: Indicization, j: int, k: int) -> int {
        match strategy {
            Indicization::Squared => {
                let block_row = j / (self.width as int / 2);
                let block_column = j % (self.width as int / 2);
                (2 * block_row + k / 2) * (self.width as int) + 2 * block_column + k % 2
            },
            Indicization::Vectorized => 4 * j + k,
        }
    }

    /// Says whether a frame of these dimensions can be converted: both are
    /// even and four bytes per pixel stay within the address range.
    pub fn supported(width: u32, height: u32) -> (ok: bool)
        ensures
            ok == (FrameSize { width, height }).wf(),
    {
        assert(width as int * height as int <= 0xffff_ffff * 0xffff_ffff) by (nonlinear_arith)
            requires
                0 <= width <= 0xffff_ffff,
                0 <= height <= 0xffff_ffff,
        ;
        let pixels: u64 = (width as u64) * (height as u64);
        width % 2 == 0 && height % 2 == 0 && pixels <= (usize::MAX / 4) as u64
    }

    /// The size of a frame of `width` by `height` pixels.
    pub fn new(width: u32, height: u32) -> (size: Self)
        ensures
            size.width == width,
            size.height == height,
    {
        FrameSize { width, height }
    }

    /// Number of pixels of the frame.
    pub fn pixel_count(&self) -> (count: usize)
        requires
            self.wf(),
        ensures
            count == self.pixels(),
    {
        (self.width as usize) * (self.height as usize)
    }
}

/// `row * width + column` is below `width * height` when `(row, column)` lies
/// in the frame.
pub proof fn lemma_cell_in_range(row: int, column: int, width: int, height: int)
    by (nonlinear_arith)
    requires
        0 <= row < height,
        0 <= column < width,
    ensures
        0 <= row * width + column < width * height,
{
}

/// The first `row` rows hold `row * width` pixels, which are among those of
/// the frame.
pub proof fn lemma_rows_in_range(row: int, width: int, height: int)
    by (nonlinear_arith)
    requires
        0 <= row <= height,
        0 <= width,
    ensures
        0 <= row * width <= width * height,
        (row + 1) * width == row * width + width,
        row == height ==> row * width == width * height,
{
}

/// Halving both even dimensions quarters the number of pixels.
pub proof fn lemma_quarter(width: int, height: int)
    by (nonlinear_arith)
    requires
        0 <= width,
        0 <= height,
        width % 2 == 0,
        height % 2 == 0,
    ensures
        (height / 2) * (width / 2) == (width * height) / 4,
        (width * height) % 4 == 0,
{
}

/// A pixel index below `width * height` lies in a row below `height`.
pub proof fn lemma_row_in_range(i: int, width: int, height: int)
    by (nonlinear_arith)
    requires
        0 <= i < width * height,
        0 < width,
        0 <= height,
    ensures
        0 <= i / width < height,
        0 <= i % width < width,
        i == (i / width) * width + i % width,
{
}

impl FrameSize {
    /// Every pixel is paired with a chroma sample that exists.
    pub proof fn lemma_chroma_index_in_range(&self, strategy: Indicization, i: int)
        requires
            self.wf(),
            0 <= i < self.pixels(),
        ensures
            0 <= self.chroma_index(strategy, i) < self.chroma_len(),
    {
        let w = self.width as int;
        let h = self.height as int;
        lemma_quarter(w, h);
        match strategy {
            Indicization::Squared => {
                assert(w > 0) by (nonlinear_arith)
                    requires
                        0 <= i < w * h,
                        0 <= w,
                ;
                lemma_row_in_range(i, w, h);
                let row = i / w;
                let column = i % w;
                lemma_cell_in_range(row / 2, column / 2, w / 2, h / 2);
            },
            Indicization::Vectorized => {},
        }
    }

    /// With the spatial strategy the pixel at `(row, column)` is paired with the
    /// chroma sample at `(row / 2, column / 2)` of the half-resolution plane.
    pub proof fn lemma_squared_chroma_index(&self, row: int, column: int)
        requires
            0 <= row < self.height,
            0 <= column < self.width,
        ensures
            self.chroma_index(Indicization::Squared, row * self.width + column) == (row / 2) * (
            self.width / 2) + column / 2,
    {
        lemma_fundamental_div_mod_converse(
            row * self.width + column,
            self.width as int,
            row,
            column,
        );
    }

    /// With the linear strategy the pixels `4 j` to `4 j + 3` are paired with
    /// chroma sample `j`.
    pub proof fn lemma_vectorized_chroma_index(&self, j: int, k: int)
        requires
            0 <= j,
            0 <= k < 4,
        ensures
            self.chroma_index(Indicization::Vectorized, 4 * j + k) == j,
    {
    }

    /// The four pixels that a chroma sample covers lie in the frame, and each of
    /// them is paired with that sample.
    pub proof fn lemma_chroma_member(&self, strategy: Indicization, j: int, k: int)
        requires
            self.wf(),
            0 <= j < self.chroma_len(),
            0 <= k < 4,
        ensures
            0 <= self.chroma_member(strategy, j, k) < self.pixels(),
            self.chroma_index(strategy, self.chroma_member(strategy, j, k)) == j,
    {
        let w = self.width as int;
        let h = self.height as int;
        lemma_quarter(w, h);
        match strategy {
            Indicization::Squared => {
                let half = w / 2;
                assert(half > 0) by (nonlinear_arith)
                    requires
                        0 <= j < (h / 2) * half,
                        0 <= half,
                ;
                lemma_row_in_range(j, half, h / 2);
                let block_row = j / half;
                let block_column = j % half;
                let row = 2 * block_row + k / 2;
                let column = 2 * block_column + k % 2;
                lemma_cell_in_range(row, column, w, h);
                lemma_fundamental_div_mod_converse(row * w + column, w, row, column);
            },
            Indicization::Vectorized => {},
        }
    }
}

} // verus!
