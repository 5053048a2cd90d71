//! The forward converter: packed pixels in, three planes out.

use crate::buffers::{BufferIds, SizeMismatch, StageError};
use crate::frame_data::FrameData;
use crate::geometry::{
    lemma_cell_in_range, lemma_quarter, lemma_rows_in_range, FrameSize, Indicization,
};
use crate::doubles::{settled, to_byte};
use crate::pixel::{
    chroma_blue, chroma_blue_exact, chroma_blue_of, chroma_red, chroma_red_exact,
    chroma_red_of, lemma_samples_near, luma, luma_exact, luma_of,
};
use vstd::arithmetic::div_mod::lemma_fundamental_div_mod_converse;
use vstd::prelude::*;

verus! {

/// Transforms one pixel, given as blue, green and red, into luma and the two
/// chroma samples.
///
/// Each sample is worked out in double precision and truncated. Where the
/// exact value of a sample is no whole number, that is the byte of the exact
/// value.
pub fn bgr_to_yuv(b: u8, g: u8, r: u8) -> (yuv: (u8, u8, u8))
    ensures
        yuv.0 == luma(b as int, g as int, r as int),
        yuv.1 == chroma_blue(b as int, g as int, r as int),
        yuv.2 == chroma_red(b as int, g as int, r as int),
        settled(luma_exact(b as int, g as int, r as int), 1000) ==> yuv.0 == to_byte(
            luma_exact(b as int, g as int, r as int),
            1000,
        ),
        settled(chroma_blue_exact(b as int, g as int, r as int), 100_000) ==> yuv.1 == to_byte(
            chroma_blue_exact(b as int, g as int, r as int),
            100_000,
        ),
        settled(chroma_red_exact(b as int, g as int, r as int), 100_000) ==> yuv.2 == to_byte(
            chroma_red_exact(b as int, g as int, r as int),
            100_000,
        ),
{
    proof {
        lemma_samples_near(b as int, g as int, r as int);
    }
    let y: u8 = luma_of(b, g, r);
    let u: u8 = chroma_blue_of(b, g, r);
    let v: u8 = chroma_red_of(b, g, r);
    (y, u, v)
}

/// Luma of pixel `i` of a packed frame, whose bytes stand in the order blue,
/// green, red, alpha.
pub open spec fn pixel_luma(raw: Seq<u8>, i: int) -> u8 {
    luma(raw[4 * i] as int, raw[4 * i + 1] as int, raw[4 * i + 2] as int) as u8
}

/// Blue-difference chroma of pixel `i` of a packed frame.
pub open spec fn pixel_chroma_blue(raw: Seq<u8>, i: int) -> u8 {
    chroma_blue(raw[4 * i] as int, raw[4 * i + 1] as int, raw[4 * i + 2] as int) as u8
}

/// Red-difference chroma of pixel `i` of a packed frame.
pub open spec fn pixel_chroma_red(raw: Seq<u8>, i: int) -> u8 {
    chroma_red(raw[4 * i] as int, raw[4 * i + 1] as int, raw[4 * i + 2] as int) as u8
}

/// The luma plane of a packed frame: one sample per pixel.
pub open spec fn luma_plane(size: FrameSize, raw: Seq<u8>) -> Seq<u8> {
    Seq::new(size.luma_len() as nat, |i: int| pixel_luma(raw, i))
}

/// Blue-difference chroma of a packed frame at full resolution.
pub open spec fn full_chroma_blue(size: FrameSize, raw: Seq<u8>) -> Seq<u8> {
    Seq::new(size.pixels() as nat, |i: int| pixel_chroma_blue(raw, i))
}

/// Red-difference chroma of a packed frame at full resolution.
pub open spec fn full_chroma_red(size: FrameSize, raw: Seq<u8>) -> Seq<u8> {
    Seq::new(size.pixels() as nat, |i: int| pixel_chroma_red(raw, i))
}

/// Sample `j` of a subsampled plane: the mean of the four full-resolution
/// samples that it covers, the quotient truncated.
pub open spec fn block_mean(size: FrameSize, strategy: Indicization, full: Seq<u8>, j: int) -> u8 {
    ((full[size.chroma_member(strategy, j, 0)] + full[size.chroma_member(strategy, j, 1)]
        + full[size.chroma_member(strategy, j, 2)] + full[size.chroma_member(strategy, j, 3)])
        / 4) as u8
}

/// A full-resolution plane subsampled to a quarter of its samples.
pub open spec fn subsampled(size: FrameSize, strategy: Indicization, full: Seq<u8>) -> Seq<u8> {
    Seq::new(size.chroma_len() as nat, |j: int| block_mean(size, strategy, full, j))
}

/// The blue-difference chroma plane of a packed frame.
pub open spec fn chroma_blue_plane(size: FrameSize, strategy: Indicization, raw: Seq<u8>) -> Seq<
    u8,
> {
    subsampled(size, strategy, full_chroma_blue(size, raw))
}

/// The red-difference chroma plane of a packed frame.
pub open spec fn chroma_red_plane(size: FrameSize, strategy: Indicization, raw: Seq<u8>) -> Seq<
    u8,
> {
    subsampled(size, strategy, full_chroma_red(size, raw))
}

/// Mean of four samples, the quotient truncated.
fn mean_of_four(a: u8, b: u8, c: u8, d: u8) -> (mean: u8)
    ensures
        mean == (a + b + c + d) / 4,
{
    ((a as u16 + b as u16 + c as u16 + d as u16) / 4) as u8
}

/// First pass: transforms every pixel, storing luma in its plane and both
/// chroma samples at full resolution.
fn transform_pixels(
    size: &FrameSize,
    raw: &[u8],
    y: &mut [u8],
    u_full: &mut Vec<u8>,
    v_full: &mut Vec<u8>,
)
    requires
        size.wf(),
        raw@.len() == size.packed_len(),
        old(y)@.len() == size.luma_len(),
        old(u_full)@.len() == size.pixels(),
        old(v_full)@.len() == size.pixels(),
    ensures
        final(y)@ == luma_plane(*size, raw@),
        final(u_full)@ == full_chroma_blue(*size, raw@),
        final(v_full)@ == full_chroma_red(*size, raw@),
{
    let pixels: usize = size.pixel_count();
    let mut i: usize = 0;
    while i < pixels
        invariant
            i <= pixels,
            size.wf(),
            pixels == size.pixels(),
            raw@.len() == 4 * pixels,
            y@.len() == pixels,
            u_full@.len() == pixels,
            v_full@.len() == pixels,
            forall|k: int| 0 <= k < i ==> y@[k] == pixel_luma(raw@, k),
            forall|k: int| 0 <= k < i ==> u_full@[k] == pixel_chroma_blue(raw@, k),
            forall|k: int| 0 <= k < i ==> v_full@[k] == pixel_chroma_red(raw@, k),
        decreases pixels - i,
    {
        let base: usize = 4 * i;
        let (luma_sample, blue_sample, red_sample) = bgr_to_yuv(
            raw[base],
            raw[base + 1],
            raw[base + 2],
        );
        y[i] = luma_sample;
        u_full[i] = blue_sample;
        v_full[i] = red_sample;
        i += 1;
    }
    assert(y@ =~= luma_plane(*size, raw@));
    assert(u_full@ =~= full_chroma_blue(*size, raw@));
    assert(v_full@ =~= full_chroma_red(*size, raw@));
}

/// Second pass with the linear strategy: sample `j` is the mean of the four
/// consecutive samples from `4 j` on.
fn subsample_vectorized(size: &FrameSize, full: &Vec<u8>, plane: &mut [u8])
    requires
        size.wf(),
        full@.len() == size.pixels(),
        old(plane)@.len() == size.chroma_len(),
    ensures
        final(plane)@ == subsampled(*size, Indicization::Vectorized, full@),
{
    proof {
        lemma_quarter(size.width as int, size.height as int);
    }
    let samples: usize = size.pixel_count() / 4;
    let mut j: usize = 0;
    while j < samples
        invariant
            j <= samples,
            size.wf(),
            samples == size.chroma_len(),
            full@.len() == 4 * samples,
            full@.len() == size.pixels(),
            plane@.len() == samples,
            forall|k: int|
                0 <= k < j ==> plane@[k] == block_mean(*size, Indicization::Vectorized, full@, k),
        decreases samples - j,
    {
        let first: usize = 4 * j;
        plane[j] = mean_of_four(full[first], full[first + 1], full[first + 2], full[first + 3]);
        j += 1;
    }
    assert(plane@ =~= subsampled(*size, Indicization::Vectorized, full@));
}

/// Second pass with the spatial strategy: the sample at `(row, column)` of the
/// half-resolution plane is the mean of the 2x2 block whose corner is
/// `(2 row, 2 column)`.
fn subsample_squared(size: &FrameSize, full: &Vec<u8>, plane: &mut [u8])
    requires
        size.wf(),
        full@.len() == size.pixels(),
        old(plane)@.len() == size.chroma_len(),
    ensures
        final(plane)@ == subsampled(*size, Indicization::Squared, full@),
{
    let width: usize = size.width as usize;
    let half: usize = width / 2;
    let block_rows: usize = (size.height as usize) / 2;
    proof {
        lemma_quarter(width as int, size.height as int);
    }
    let mut block_row: usize = 0;
    while block_row < block_rows
        invariant
            block_row <= block_rows,
            size.wf(),
            width == size.width,
            half == width / 2,
            block_rows == size.height / 2,
            size.chroma_len() == block_rows * half,
            full@.len() == size.pixels(),
            plane@.len() == size.chroma_len(),
            block_row * half <= size.chroma_len(),
            forall|k: int|
                0 <= k < block_row * half ==> plane@[k] == block_mean(
                    *size,
                    Indicization::Squared,
                    full@,
                    k,
                ),
        decreases block_rows - block_row,
    {
        proof {
            lemma_rows_in_range(block_row as int, half as int, block_rows as int);
            lemma_rows_in_range(2 * block_row, width as int, size.height as int);
        }
        let plane_base: usize = block_row * half;
        let top_base: usize = 2 * block_row * width;
        let mut block_column: usize = 0;
        while block_column < half
            invariant
                block_row < block_rows,
                block_column <= half,
                size.wf(),
                width == size.width,
                half == width / 2,
                block_rows == size.height / 2,
                size.chroma_len() == block_rows * half,
                plane_base == block_row * half,
                top_base == 2 * block_row * width,
                full@.len() == size.pixels(),
                plane@.len() == size.chroma_len(),
                block_row * half + block_column <= size.chroma_len(),
                forall|k: int|
                    0 <= k < block_row * half + block_column ==> plane@[k] == block_mean(
                        *size,
                        Indicization::Squared,
                        full@,
                        k,
                    ),
            decreases half - block_column,
        {
            proof {
                lemma_cell_in_range(
                    block_row as int,
                    block_column as int,
                    half as int,
                    block_rows as int,
                );
                lemma_cell_in_range(block_row as int, block_column as int, half as int, block_row + 1);
                lemma_rows_in_range(block_row + 1, half as int, block_rows as int);
                lemma_fundamental_div_mod_converse(
                    block_row * half + block_column,
                    half as int,
                    block_row as int,
                    block_column as int,
                );
                lemma_cell_in_range(
                    2 * block_row + 1,
                    2 * block_column + 1,
                    width as int,
                    size.height as int,
                );
                lemma_rows_in_range(2 * block_row, width as int, size.height as int);
            }
            let j: usize = plane_base + block_column;
            let top: usize = top_base + 2 * block_column;
            let bottom: usize = top + width;
            assert(top == size.chroma_member(Indicization::Squared, j as int, 0));
            assert(top + 1 == size.chroma_member(Indicization::Squared, j as int, 1));
            assert(bottom == size.chroma_member(Indicization::Squared, j as int, 2));
            assert(bottom + 1 == size.chroma_member(Indicization::Squared, j as int, 3));
            plane[j] = mean_of_four(full[top], full[top + 1], full[bottom], full[bottom + 1]);
            block_column += 1;
        }
        block_row += 1;
        proof {
            lemma_rows_in_range(block_row as int, half as int, block_rows as int);
        }
    }
    proof {
        lemma_rows_in_range(block_row as int, half as int, block_rows as int);
    }
    assert(plane@ =~= subsampled(*size, Indicization::Squared, full@));
}

/// The forward converter for frames of fixed dimensions.
///
/// The context owns the two full-resolution chroma planes that the first pass
/// fills and the second pass subsamples. They are allocated once, when the
/// context is made, and written in full by every conversion, so that nothing of
/// one frame shows in the next.
pub struct ConversionContext {
    size: FrameSize,
    strategy: Indicization,
    u_full: Vec<u8>,
    v_full: Vec<u8>,
}

impl ConversionContext {
    /// The context is fit for use: its dimensions are supported and both of its
    /// planes hold one sample per pixel.
    pub closed spec fn wf(&self) -> bool {
        &&& self.size.wf()
        &&& self.u_full@.len() == self.size.pixels()
        &&& self.v_full@.len() == self.size.pixels()
    }

    /// The dimensions that the context was made for.
    pub closed spec fn size(&self) -> FrameSize {
        self.size
    }

    /// The strategy by which chroma samples are averaged.
    pub closed spec fn indicization(&self) -> Indicization {
        self.strategy
    }

    /// A context for frames of `width` by `height` pixels, which averages with
    /// the linear strategy.
    pub fn new(width: u32, height: u32) -> (context: Self)
        requires
            (FrameSize { width, height }).wf(),
        ensures
            context.wf(),
            context.size() == (FrameSize { width, height }),
            context.indicization() == Indicization::Vectorized,
    {
        let size: FrameSize = FrameSize::new(width, height);
        let pixels: usize = size.pixel_count();
        ConversionContext {
            size,
            strategy: Indicization::Vectorized,
            u_full: vec![0u8; pixels],
            v_full: vec![0u8; pixels],
        }
    }

    /// Selects the strategy by which chroma samples are averaged.
    pub fn set_indicization(&mut self, indicization: Indicization)
        requires
            old(self).wf(),
        ensures
            final(self).wf(),
            final(self).size() == old(self).size(),
            final(self).indicization() == indicization,
    {
        self.strategy = indicization;
    }

    /// Converts the packed frame `raw`, whose bytes stand in the order blue,
    /// green, red, alpha, into the planes `y`, `cb` and `cr`.
    ///
    /// The four lengths are checked first. When one of them is not what the
    /// dimensions call for, nothing is written and the error names the buffer.
    /// Otherwise every sample of the three planes is written: luma is the luma
    /// of its pixel, and a chroma sample is the truncated mean of the chroma of
    /// the four pixels that it covers.
    pub fn bgra_to_yuv_separate(
        &mut self,
        raw: &[u8],
        y: &mut [u8],
        cb: &mut [u8],
        cr: &mut [u8],
    ) -> (result: Result<(), SizeMismatch>)
        requires
            old(self).wf(),
        ensures
            final(self).wf(),
            final(self).size() == old(self).size(),
            final(self).indicization() == old(self).indicization(),
            result == old(self).size().check(
                raw@.len(),
                old(y)@.len(),
                old(cb)@.len(),
                old(cr)@.len(),
            ),
            result is Ok ==> final(y)@ == luma_plane(old(self).size(), raw@),
            result is Ok ==> final(cb)@ == chroma_blue_plane(
                old(self).size(),
                old(self).indicization(),
                raw@,
            ),
            result is Ok ==> final(cr)@ == chroma_red_plane(
                old(self).size(),
                old(self).indicization(),
                raw@,
            ),
            result is Err ==> final(y)@ == old(y)@ && final(cb)@ == old(cb)@ && final(cr)@ == old(
                cr,
            )@,
    {
        match self.size.validate(raw.len(), y.len(), cb.len(), cr.len()) {
            Err(mismatch) => Err(mismatch),
            Ok(()) => {
                transform_pixels(&self.size, raw, y, &mut self.u_full, &mut self.v_full);
                match self.strategy {
                    Indicization::Squared => {
                        subsample_squared(&self.size, &self.u_full, cb);
                        subsample_squared(&self.size, &self.v_full, cr);
                    },
                    Indicization::Vectorized => {
                        subsample_vectorized(&self.size, &self.u_full, cb);
                        subsample_vectorized(&self.size, &self.v_full, cr);
                    },
                }
                Ok(())
            },
        }
    }
}

/// A stage that converts the packed buffer of a frame into its three planes.
pub struct RGBAToYUV420PConverter {
    context: ConversionContext,
    ids: BufferIds,
}

impl RGBAToYUV420PConverter {
    /// The stage is fit for use.
    pub closed spec fn wf(&self) -> bool {
        self.context.wf()
    }

    /// The dimensions that the stage was made for.
    pub closed spec fn size(&self) -> FrameSize {
        self.context.size()
    }

    /// The strategy by which the stage averages chroma samples.
    pub closed spec fn indicization(&self) -> Indicization {
        self.context.indicization()
    }

    /// The names under which the stage finds its buffers.
    pub closed spec fn ids(&self) -> BufferIds {
        self.ids
    }

    /// A stage for frames of `width` by `height` pixels, which finds its
    /// buffers under the usual names and averages with the linear strategy.
    pub fn new(width: u32, height: u32) -> (stage: Self)
        requires
            (FrameSize { width, height }).wf(),
        ensures
            stage.wf(),
            stage.size() == (FrameSize { width, height }),
            stage.indicization() == Indicization::Vectorized,
            stage.ids().raw_frame_buffer_id@ == "raw_frame_buffer"@,
            stage.ids().y_buffer_id@ == "y_channel_buffer"@,
            stage.ids().u_buffer_id@ == "cb_channel_buffer"@,
            stage.ids().v_buffer_id@ == "cr_channel_buffer"@,
    {
        RGBAToYUV420PConverter { context: ConversionContext::new(width, height), ids: BufferIds::new() }
    }

    /// Converts the packed buffer of the frame into its three planes.
    ///
    /// The four buffers are taken out of the frame and put back, whether the
    /// conversion was made or not. When a buffer is missing or has the wrong
    /// length, the frame is left holding what it held.
    pub fn process(&mut self, frame_data: &mut FrameData) -> (result: Result<(), StageError>)
        requires
            old(self).wf(),
            old(frame_data).wf(),
        ensures
            final(self).wf(),
            final(self).size() == old(self).size(),
            final(self).indicization() == old(self).indicization(),
            final(self).ids() == old(self).ids(),
            final(frame_data).wf(),
            final(frame_data).stats() == old(frame_data).stats(),
            final(frame_data).drop_reason() == old(frame_data).drop_reason(),
            result == old(self).ids().verdict(old(self).size(), old(frame_data).writable_buffers()),
            result is Ok ==> ({
                let held = old(frame_data).writable_buffers();
                let ids = old(self).ids();
                let raw = held[ids.raw_frame_buffer_id@];
                final(frame_data).writable_buffers() == held.insert(
                    ids.y_buffer_id@,
                    luma_plane(old(self).size(), raw),
                ).insert(
                    ids.u_buffer_id@,
                    chroma_blue_plane(old(self).size(), old(self).indicization(), raw),
                ).insert(
                    ids.v_buffer_id@,
                    chroma_red_plane(old(self).size(), old(self).indicization(), raw),
                )
            }),
            result is Err ==> final(frame_data).writable_buffers() == old(
                frame_data,
            ).writable_buffers(),
    {
        let ghost held = frame_data.writable_buffers();
        match self.ids.take(frame_data) {
            Err(kind) => Err(StageError::MissingBuffer(kind)),
            Ok((raw, y, cb, cr)) => {
                let mut y: Vec<u8> = y;
                let mut cb: Vec<u8> = cb;
                let mut cr: Vec<u8> = cr;
                let converted: Result<(), SizeMismatch> = self.context.bgra_to_yuv_separate(
                    raw.as_slice(),
                    y.as_mut_slice(),
                    cb.as_mut_slice(),
                    cr.as_mut_slice(),
                );
                let ghost luma_written = y@;
                let ghost blue_written = cb@;
                let ghost red_written = cr@;
                self.ids.put_back(frame_data, raw, y, cb, cr);
                match converted {
                    Ok(()) => {
                        assert(frame_data.writable_buffers() =~= held.insert(
                            self.ids.y_buffer_id@,
                            luma_written,
                        ).insert(self.ids.u_buffer_id@, blue_written).insert(
                            self.ids.v_buffer_id@,
                            red_written,
                        ));
                        Ok(())
                    },
                    Err(mismatch) => {
                        assert(frame_data.writable_buffers() =~= held);
                        Err(StageError::SizeMismatch(mismatch))
                    },
                }
            },
        }
    }
}

} // verus!
