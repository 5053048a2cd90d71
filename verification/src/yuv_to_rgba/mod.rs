//! The inverse converter: three planes in, packed pixels out.

use crate::buffers::{BufferIds, SizeMismatch, StageError};
use crate::frame_data::FrameData;
use crate::geometry::{
    lemma_cell_in_range, lemma_quarter, lemma_rows_in_range, FrameSize, Indicization,
};
use crate::doubles::{settled, to_byte};
use crate::layout::{PixelOffset, OPAQUE};
use crate::pixel::{
    blue, blue_exact, blue_of, green, green_exact, green_of, lemma_channels_near, red,
    red_exact, red_of,
};
use vstd::arithmetic::div_mod::lemma_fundamental_div_mod_converse;
use vstd::prelude::*;

pub mod squared;
pub mod vectorized;

pub use self::squared::SquaredYUV420PToRGBAConverter;

verus! {

/// Transforms one luma sample with its two chroma samples into blue, green
/// and red.
///
/// Each channel is worked out in double precision, truncated, and held to the
/// range of a byte. Where the exact value of a channel is no whole number from
/// 1 to 255, that is the byte of the exact value.
pub fn yuv_to_bgr(y: u8, u: u8, v: u8) -> (bgr: (u8, u8, u8))
    ensures
        bgr.0 == blue(y as int, u as int),
        bgr.1 == green(y as int, u as int, v as int),
        bgr.2 == red(y as int, v as int),
        settled(blue_exact(y as int, u as int), 1000) ==> bgr.0 == to_byte(
            blue_exact(y as int, u as int),
            1000,
        ),
        settled(green_exact(y as int, u as int, v as int), 100_000) ==> bgr.1 == to_byte(
            green_exact(y as int, u as int, v as int),
            100_000,
        ),
        settled(red_exact(y as int, v as int), 1000) ==> bgr.2 == to_byte(
            red_exact(y as int, v as int),
            1000,
        ),
{
    proof {
        lemma_channels_near(y as int, u as int, v as int);
    }
    let r: u8 = red_of(y, v);
    let g: u8 = green_of(y, u, v);
    let b: u8 = blue_of(y, u);
    (b, g, r)
}

/// Byte `k` of the packed frame made from three planes: channel `k % 4` of
/// pixel `k / 4`, whose chroma samples are the ones that the strategy pairs it
/// with.
pub open spec fn packed_byte(
    size: FrameSize,
    layout: PixelOffset,
    strategy: Indicization,
    y: Seq<u8>,
    u: Seq<u8>,
    v: Seq<u8>,
    k: int,
) -> u8 {
    let i = k / 4;
    let c = size.chroma_index(strategy, i);
    layout.channel(k % 4, y[i] as int, u[c] as int, v[c] as int) as u8
}

/// The packed frame made from three planes.
pub open spec fn packed_frame(
    size: FrameSize,
    layout: PixelOffset,
    strategy: Indicization,
    y: Seq<u8>,
    u: Seq<u8>,
    v: Seq<u8>,
) -> Seq<u8> {
    Seq::new(size.packed_len() as nat, |k: int| packed_byte(size, layout, strategy, y, u, v, k))
}

/// Writes the four bytes of pixel `i`.
fn store_pixel(layout: &PixelOffset, out: &mut [u8], i: usize, y: u8, u: u8, v: u8)
    requires
        layout.wf(),
        4 * i + 4 <= old(out)@.len(),
    ensures
        final(out)@.len() == old(out)@.len(),
        forall|k: int|
            0 <= k < old(out)@.len() && !(4 * i <= k < 4 * i + 4) ==> final(out)@[k] == old(
                out,
            )@[k],
        forall|c: int|
            0 <= c < 4 ==> final(out)@[4 * i + c] == #[trigger] layout.channel(
                c,
                y as int,
                u as int,
                v as int,
            ),
{
    let (b, g, r) = yuv_to_bgr(y, u, v);
    let base: usize = 4 * i;
    out[base + layout.r] = r;
    out[base + layout.g] = g;
    out[base + layout.b] = b;
    out[base + layout.a] = OPAQUE;
}

/// Fills the packed frame with the linear strategy: pixel `i` reads chroma
/// sample `i / 4`.
fn fill_vectorized(
    size: &FrameSize,
    layout: &PixelOffset,
    y: &[u8],
    u: &[u8],
    v: &[u8],
    out: &mut [u8],
)
    requires
        size.wf(),
        layout.wf(),
        size.check(old(out)@.len(), y@.len(), u@.len(), v@.len()) is Ok,
    ensures
        final(out)@ == packed_frame(*size, *layout, Indicization::Vectorized, y@, u@, v@),
{
    let pixels: usize = size.pixel_count();
    proof {
        lemma_quarter(size.width as int, size.height as int);
    }
    let mut i: usize = 0;
    while i < pixels
        invariant
            i <= pixels,
            pixels == size.pixels(),
            pixels % 4 == 0,
            layout.wf(),
            out@.len() == 4 * pixels,
            y@.len() == pixels,
            u@.len() == pixels / 4,
            v@.len() == pixels / 4,
            forall|k: int|
                0 <= k < 4 * i ==> out@[k] == packed_byte(
                    *size,
                    *layout,
                    Indicization::Vectorized,
                    y@,
                    u@,
                    v@,
                    k,
                ),
        decreases pixels - i,
    {
        let c: usize = i / 4;
        store_pixel(layout, out, i, y[i], u[c], v[c]);
        i += 1;
    }
    assert(out@ =~= packed_frame(*size, *layout, Indicization::Vectorized, y@, u@, v@));
}

/// Fills the packed frame with the spatial strategy: the pixel at
/// `(row, column)` reads the chroma sample at `(row / 2, column / 2)`.
fn fill_squared(
    size: &FrameSize,
    layout: &PixelOffset,
    y: &[u8],
    u: &[u8],
    v: &[u8],
    out: &mut [u8],
)
    requires
        size.wf(),
        layout.wf(),
        size.check(old(out)@.len(), y@.len(), u@.len(), v@.len()) is Ok,
    ensures
        final(out)@ == packed_frame(*size, *layout, Indicization::Squared, y@, u@, v@),
{
    let pixels: usize = size.pixel_count();
    let width: usize = size.width as usize;
    let height: usize = size.height as usize;
    let half: usize = width / 2;
    proof {
        lemma_quarter(width as int, height as int);
    }
    let mut row: usize = 0;
    while row < height
        invariant
            row <= height,
            width == size.width,
            height == size.height,
            half == width / 2,
            width % 2 == 0,
            height % 2 == 0,
            pixels == width * height,
            pixels / 4 == (height / 2) * (width / 2),
            layout.wf(),
            out@.len() == 4 * pixels,
            y@.len() == pixels,
            u@.len() == pixels / 4,
            v@.len() == pixels / 4,
            row * width <= pixels,
            forall|k: int|
                0 <= k < 4 * (row * width) ==> out@[k] == packed_byte(
                    *size,
                    *layout,
                    Indicization::Squared,
                    y@,
                    u@,
                    v@,
                    k,
                ),
        decreases height - row,
    {
        proof {
            lemma_rows_in_range(row as int, width as int, height as int);
            lemma_rows_in_range((row / 2) as int, half as int, (height / 2) as int);
        }
        let luma_base: usize = row * width;
        let chroma_base: usize = (row / 2) * half;
        let mut column: usize = 0;
        while column < width
            invariant
                row < height,
                column <= width,
                width == size.width,
                height == size.height,
                half == width / 2,
                width % 2 == 0,
                height % 2 == 0,
                pixels == width * height,
                pixels / 4 == (height / 2) * (width / 2),
                luma_base == row * width,
                chroma_base == (row / 2) * half,
                layout.wf(),
                out@.len() == 4 * pixels,
                y@.len() == pixels,
                u@.len() == pixels / 4,
                v@.len() == pixels / 4,
                row * width + column <= pixels,
                forall|k: int|
                    0 <= k < 4 * (row * width + column) ==> out@[k] == packed_byte(
                        *size,
                        *layout,
                        Indicization::Squared,
                        y@,
                        u@,
                        v@,
                        k,
                    ),
            decreases width - column,
        {
            proof {
                lemma_cell_in_range(row as int, column as int, width as int, height as int);
                lemma_cell_in_range(row as int, column as int, width as int, row + 1);
                lemma_rows_in_range(row + 1, width as int, height as int);
                lemma_cell_in_range(
                    (row / 2) as int,
                    (column / 2) as int,
                    half as int,
                    (height / 2) as int,
                );
                lemma_fundamental_div_mod_converse(
                    row * width + column,
                    width as int,
                    row as int,
                    column as int,
                );
            }
            let i: usize = luma_base + column;
            let c: usize = chroma_base + column / 2;
            assert(c == size.chroma_index(Indicization::Squared, i as int));
            store_pixel(layout, out, i, y[i], u[c], v[c]);
            column += 1;
        }
        row += 1;
        proof {
            lemma_rows_in_range(row as int, width as int, height as int);
        }
    }
    proof {
        lemma_rows_in_range(row as int, width as int, height as int);
    }
    assert(out@ =~= packed_frame(*size, *layout, Indicization::Squared, y@, u@, v@));
}

/// Converts three planes into a packed frame, after checking the four
/// lengths.
pub(crate) fn convert_planes(
    size: &FrameSize,
    layout: &PixelOffset,
    strategy: Indicization,
    y: &[u8],
    u: &[u8],
    v: &[u8],
    out: &mut [u8],
) -> (result: Result<(), SizeMismatch>)
    requires
        size.wf(),
        layout.wf(),
    ensures
        result == size.check(old(out)@.len(), y@.len(), u@.len(), v@.len()),
        result is Ok ==> final(out)@ == packed_frame(*size, *layout, strategy, y@, u@, v@),
        result is Ok ==> layout.opaque(final(out)@),
        result is Err ==> final(out)@ == old(out)@,
{
    match size.validate(out.len(), y.len(), u.len(), v.len()) {
        Err(mismatch) => Err(mismatch),
        Ok(()) => {
            match strategy {
                Indicization::Squared => fill_squared(size, layout, y, u, v, out),
                Indicization::Vectorized => fill_vectorized(size, layout, y, u, v, out),
            }
            proof {
                lemma_packed_frame_opaque(*size, *layout, strategy, y@, u@, v@);
            }
            Ok(())
        },
    }
}

/// Whatever the planes hold, the alpha byte of every pixel of the packed frame
/// is fully opaque.
pub proof fn lemma_packed_frame_opaque(
    size: FrameSize,
    layout: PixelOffset,
    strategy: Indicization,
    y: Seq<u8>,
    u: Seq<u8>,
    v: Seq<u8>,
)
    requires
        layout.wf(),
    ensures
        layout.opaque(packed_frame(size, layout, strategy, y, u, v)),
{
    let frame = packed_frame(size, layout, strategy, y, u, v);
    assert forall|i: int| 0 <= i && 4 * i + 4 <= frame.len() implies frame[#[trigger] layout.alpha_index(
        i,
    )] == OPAQUE by {
        let k = layout.alpha_index(i);
        assert(k / 4 == i && k % 4 == layout.a);
    }
}

/// The two layouts differ in nothing but the places of red and blue: for the
/// same planes, the first and third byte of every pixel change places, and the
/// second byte and the opaque alpha stay.
pub proof fn lemma_layouts_exchange_red_and_blue(
    size: FrameSize,
    strategy: Indicization,
    y: Seq<u8>,
    u: Seq<u8>,
    v: Seq<u8>,
    i: int,
)
    requires
        0 <= i < size.pixels(),
    ensures
        ({
            let rgba = packed_frame(size, PixelOffset::rgba_offsets(), strategy, y, u, v);
            let bgra = packed_frame(size, PixelOffset::bgra_offsets(), strategy, y, u, v);
            &&& rgba[4 * i] == bgra[4 * i + 2]
            &&& rgba[4 * i + 1] == bgra[4 * i + 1]
            &&& rgba[4 * i + 2] == bgra[4 * i]
            &&& rgba[4 * i + 3] == bgra[4 * i + 3]
            &&& rgba[4 * i + 3] == OPAQUE
        }),
{
}

/// Each of the four pixels that a chroma sample covers is made from that
/// sample and no other: with the spatial strategy these are the pixels of the
/// sample's 2x2 block, with the linear strategy four consecutive pixels of the
/// scan.
pub proof fn lemma_block_reads_its_sample(
    size: FrameSize,
    layout: PixelOffset,
    strategy: Indicization,
    y: Seq<u8>,
    u: Seq<u8>,
    v: Seq<u8>,
    j: int,
    k: int,
    c: int,
)
    requires
        size.wf(),
        0 <= j < size.chroma_len(),
        0 <= k < 4,
        0 <= c < 4,
    ensures
        ({
            let i = size.chroma_member(strategy, j, k);
            &&& 0 <= i < size.pixels()
            &&& packed_frame(size, layout, strategy, y, u, v)[4 * i + c] == layout.channel(
                c,
                y[i] as int,
                u[j] as int,
                v[j] as int,
            ) as u8
        }),
{
    size.lemma_chroma_member(strategy, j, k);
}

/// What every strategy of the inverse converter offers: a context is made for
/// fixed dimensions, and converts three planes into a packed frame.
pub trait YUVToRGBAConversionContext: Sized {
    /// The context is fit for use.
    spec fn wf(&self) -> bool;

    /// The dimensions that the context was made for.
    spec fn size(&self) -> FrameSize;

    /// The layout of the pixels that the context writes.
    spec fn pixel_offset(&self) -> PixelOffset;

    /// The strategy by which the context pairs pixels with chroma samples.
    spec fn indicization(&self) -> Indicization;

    /// A context for frames of `width` by `height` pixels.
    fn new(width: u32, height: u32) -> (context: Self)
        requires
            (FrameSize { width, height }).wf(),
        ensures
            context.wf(),
            context.size() == (FrameSize { width, height }),
            context.pixel_offset().wf(),
    ;

    /// Converts the planes `y`, `u` and `v` into the packed frame `out`.
    ///
    /// The four lengths are checked first. When one of them is not what the
    /// dimensions call for, nothing is written and the error names the buffer.
    /// Otherwise every byte of `out` is written.
    fn convert(&self, y: &[u8], u: &[u8], v: &[u8], out: &mut [u8]) -> (result: Result<
        (),
        SizeMismatch,
    >)
        requires
            self.wf(),
        ensures
            result == self.size().check(old(out)@.len(), y@.len(), u@.len(), v@.len()),
            result is Ok ==> final(out)@ == packed_frame(
                self.size(),
                self.pixel_offset(),
                self.indicization(),
                y@,
                u@,
                v@,
            ),
            result is Ok ==> self.pixel_offset().opaque(final(out)@),
            result is Err ==> final(out)@ == old(out)@,
    ;
}

/// The inverse converter with a selectable layout and a selectable strategy.
pub struct ConversionContext {
    size: FrameSize,
    layout: PixelOffset,
    strategy: Indicization,
}

impl ConversionContext {
    /// Selects the layout of the pixels to write.
    pub fn set_pixel_offset(&mut self, offset: PixelOffset)
        requires
            old(self).wf(),
            offset.wf(),
        ensures
            final(self).wf(),
            final(self).size() == old(self).size(),
            final(self).indicization() == old(self).indicization(),
            final(self).pixel_offset() == offset,
    {
        self.layout = offset;
    }

    /// Selects the addressing strategy.
    pub fn set_indicization(&mut self, indicization: Indicization)
        requires
            old(self).wf(),
        ensures
            final(self).wf(),
            final(self).size() == old(self).size(),
            final(self).pixel_offset() == old(self).pixel_offset(),
            final(self).indicization() == indicization,
    {
        self.strategy = indicization;
    }
}

impl YUVToRGBAConversionContext for ConversionContext {
    closed spec fn wf(&self) -> bool {
        self.size.wf() && self.layout.wf()
    }

    closed spec fn size(&self) -> FrameSize {
        self.size
    }

    closed spec fn pixel_offset(&self) -> PixelOffset {
        self.layout
    }

    closed spec fn indicization(&self) -> Indicization {
        self.strategy
    }

    /// A context that writes red, green, blue, alpha with the spatial strategy.
    fn new(width: u32, height: u32) -> (context: Self)
        ensures
            context.pixel_offset() == PixelOffset::rgba_offsets(),
            context.indicization() == Indicization::Squared,
    {
        ConversionContext {
            size: FrameSize::new(width, height),
            layout: PixelOffset::rgba(),
            strategy: Indicization::Squared,
        }
    }

    fn convert(&self, y: &[u8], u: &[u8], v: &[u8], out: &mut [u8]) -> (result: Result<
        (),
        SizeMismatch,
    >) {
        convert_planes(&self.size, &self.layout, self.strategy, y, u, v, out)
    }
}

/// Converts the planes that a frame holds into the packed buffer that it
/// holds, each found under the name that `ids` has for it.
///
/// The four buffers are taken out of the frame, the conversion is made, and
/// the four are put back, whether the conversion was made or not. When a buffer
/// is missing or has the wrong length, the frame is left holding what it held.
pub fn convert_frame<C: YUVToRGBAConversionContext>(
    context: &C,
    ids: &BufferIds,
    frame_data: &mut FrameData,
) -> (result: Result<(), StageError>)
    requires
        context.wf(),
        old(frame_data).wf(),
    ensures
        final(frame_data).wf(),
        final(frame_data).stats() == old(frame_data).stats(),
        final(frame_data).drop_reason() == old(frame_data).drop_reason(),
        result == ids.verdict(context.size(), old(frame_data).writable_buffers()),
        result is Ok ==> final(frame_data).writable_buffers() == old(
            frame_data,
        ).writable_buffers().insert(
            ids.raw_frame_buffer_id@,
            packed_frame(
                context.size(),
                context.pixel_offset(),
                context.indicization(),
                old(frame_data).writable_buffers()[ids.y_buffer_id@],
                old(frame_data).writable_buffers()[ids.u_buffer_id@],
                old(frame_data).writable_buffers()[ids.v_buffer_id@],
            ),
        ),
        result is Ok ==> context.pixel_offset().opaque(
            final(frame_data).writable_buffers()[ids.raw_frame_buffer_id@],
        ),
        result is Err ==> final(frame_data).writable_buffers() == old(
            frame_data,
        ).writable_buffers(),
{
    let ghost held = frame_data.writable_buffers();
    match ids.take(frame_data) {
        Err(kind) => Err(StageError::MissingBuffer(kind)),
        Ok((raw, y, u, v)) => {
            let mut raw: Vec<u8> = raw;
            let converted: Result<(), SizeMismatch> = context.convert(
                y.as_slice(),
                u.as_slice(),
                v.as_slice(),
                raw.as_mut_slice(),
            );
            let ghost written = raw@;
            ids.put_back(frame_data, raw, y, u, v);
            match converted {
                Ok(()) => {
                    assert(frame_data.writable_buffers() =~= held.insert(
                        ids.raw_frame_buffer_id@,
                        written,
                    ));
                    Ok(())
                },
                Err(mismatch) => {
                    assert(frame_data.writable_buffers() =~= held);
                    Err(StageError::SizeMismatch(mismatch))
                },
            }
        },
    }
}

/// A stage that converts the planes of a frame into its packed buffer with a
/// context of the strategy `C`.
pub struct ConverterProcessor<C: YUVToRGBAConversionContext> {
    conversion_context: C,
    ids: BufferIds,
}

/// The stage of the linear strategy.
pub type VectorizedYUV420PToRGBAConverter = ConverterProcessor<vectorized::ConversionContext>;

impl<C: YUVToRGBAConversionContext> ConverterProcessor<C> {
    /// The stage is fit for use.
    pub closed spec fn wf(&self) -> bool {
        self.conversion_context.wf()
    }

    /// The context that converts for the stage.
    pub closed spec fn context(&self) -> C {
        self.conversion_context
    }

    /// The names under which the stage finds its buffers.
    pub closed spec fn ids(&self) -> BufferIds {
        self.ids
    }

    /// A stage for frames of `width` by `height` pixels, which finds its
    /// buffers under the usual names.
    pub fn new(width: u32, height: u32) -> (stage: Self)
        requires
            (FrameSize { width, height }).wf(),
        ensures
            stage.wf(),
            stage.context().wf(),
            stage.context().size() == (FrameSize { width, height }),
            stage.ids().raw_frame_buffer_id@ == "raw_frame_buffer"@,
            stage.ids().y_buffer_id@ == "y_channel_buffer"@,
            stage.ids().u_buffer_id@ == "cb_channel_buffer"@,
            stage.ids().v_buffer_id@ == "cr_channel_buffer"@,
    {
        ConverterProcessor { conversion_context: C::new(width, height), ids: BufferIds::new() }
    }

    /// The same stage, finding its luma plane under another name.
    pub fn y_buffer_id(self, y_buffer_id: &str) -> (stage: Self)
        ensures
            stage.wf() == self.wf(),
            stage.context() == self.context(),
            stage.ids() == (BufferIds { y_buffer_id: stage.ids().y_buffer_id, ..self.ids() }),
            stage.ids().y_buffer_id@ == y_buffer_id@,
    {
        let mut stage = self;
        stage.ids.y_buffer_id = y_buffer_id.to_owned();
        stage
    }

    /// The same stage, finding its blue-difference chroma plane under another
    /// name.
    pub fn u_buffer_id(self, u_buffer_id: &str) -> (stage: Self)
        ensures
            stage.wf() == self.wf(),
            stage.context() == self.context(),
            stage.ids() == (BufferIds { u_buffer_id: stage.ids().u_buffer_id, ..self.ids() }),
            stage.ids().u_buffer_id@ == u_buffer_id@,
    {
        let mut stage = self;
        stage.ids.u_buffer_id = u_buffer_id.to_owned();
        stage
    }

    /// The same stage, finding its red-difference chroma plane under another
    /// name.
    pub fn v_buffer_id(self, v_buffer_id: &str) -> (stage: Self)
        ensures
            stage.wf() == self.wf(),
            stage.context() == self.context(),
            stage.ids() == (BufferIds { v_buffer_id: stage.ids().v_buffer_id, ..self.ids() }),
            stage.ids().v_buffer_id@ == v_buffer_id@,
    {
        let mut stage = self;
        stage.ids.v_buffer_id = v_buffer_id.to_owned();
        stage
    }

    /// The same stage, finding its packed buffer under another name.
    pub fn raw_frame_buffer_id(self, raw_frame_buffer_id: &str) -> (stage: Self)
        ensures
            stage.wf() == self.wf(),
            stage.context() == self.context(),
            stage.ids() == (BufferIds {
                raw_frame_buffer_id: stage.ids().raw_frame_buffer_id,
                ..self.ids()
            }),
            stage.ids().raw_frame_buffer_id@ == raw_frame_buffer_id@,
    {
        let mut stage = self;
        stage.ids.raw_frame_buffer_id = raw_frame_buffer_id.to_owned();
        stage
    }

    /// Converts the planes of the frame into its packed buffer.
    pub fn process(&self, frame_data: &mut FrameData) -> (result: Result<(), StageError>)
        requires
            self.wf(),
            old(frame_data).wf(),
        ensures
            final(frame_data).wf(),
            final(frame_data).stats() == old(frame_data).stats(),
            final(frame_data).drop_reason() == old(frame_data).drop_reason(),
            result == self.ids().verdict(self.context().size(), old(frame_data).writable_buffers()),
            result is Ok ==> final(frame_data).writable_buffers() == old(
                frame_data,
            ).writable_buffers().insert(
                self.ids().raw_frame_buffer_id@,
                packed_frame(
                    self.context().size(),
                    self.context().pixel_offset(),
                    self.context().indicization(),
                    old(frame_data).writable_buffers()[self.ids().y_buffer_id@],
                    old(frame_data).writable_buffers()[self.ids().u_buffer_id@],
                    old(frame_data).writable_buffers()[self.ids().v_buffer_id@],
                ),
            ),
            result is Ok ==> self.context().pixel_offset().opaque(
                final(frame_data).writable_buffers()[self.ids().raw_frame_buffer_id@],
            ),
            result is Err ==> final(frame_data).writable_buffers() == old(
                frame_data,
            ).writable_buffers(),
    {
        convert_frame(&self.conversion_context, &self.ids, frame_data)
    }
}

/// A stage that converts the planes of a frame into its packed buffer, with
/// a layout and a strategy that can be chosen when the stage is built.
pub struct YUV420PToRGBAConverter {
    stage: ConverterProcessor<ConversionContext>,
}

impl YUV420PToRGBAConverter {
    /// The stage is fit for use.
    pub closed spec fn wf(&self) -> bool {
        self.stage.wf()
    }

    /// The context that converts for the stage.
    pub closed spec fn context(&self) -> ConversionContext {
        self.stage.context()
    }

    /// The names under which the stage finds its buffers.
    pub closed spec fn ids(&self) -> BufferIds {
        self.stage.ids()
    }

    /// A stage for frames of `width` by `height` pixels, which finds its
    /// buffers under the usual names, writes red,
    /// green, blue, alpha, and converts with the spatial strategy.
    pub fn new(width: u32, height: u32) -> (stage: Self)
        requires
            (FrameSize { width, height }).wf(),
        ensures
            stage.wf(),
            stage.context().wf(),
            stage.context().size() == (FrameSize { width, height }),
            stage.context().pixel_offset() == PixelOffset::rgba_offsets(),
            stage.context().indicization() == Indicization::Squared,
            stage.ids().raw_frame_buffer_id@ == "raw_frame_buffer"@,
            stage.ids().y_buffer_id@ == "y_channel_buffer"@,
            stage.ids().u_buffer_id@ == "cb_channel_buffer"@,
            stage.ids().v_buffer_id@ == "cr_channel_buffer"@,
    {
        YUV420PToRGBAConverter {
            stage: ConverterProcessor {
                conversion_context: ConversionContext::new(width, height),
                ids: BufferIds::new(),
            },
        }
    }

    /// The same stage, writing blue, green, red, alpha.
    pub fn bgra(self) -> (stage: Self)
        requires
            self.wf(),
        ensures
            stage.wf(),
            stage.context().wf(),
            stage.context().size() == self.context().size(),
            stage.context().indicization() == self.context().indicization(),
            stage.context().pixel_offset() == PixelOffset::bgra_offsets(),
            stage.ids() == self.ids(),
    {
        let mut stage = self;
        stage.stage.conversion_context.set_pixel_offset(PixelOffset::bgra());
        stage
    }

    /// The same stage, converting with the linear strategy.
    pub fn vectorized_indices(self) -> (stage: Self)
        requires
            self.wf(),
        ensures
            stage.wf(),
            stage.context().wf(),
            stage.context().size() == self.context().size(),
            stage.context().pixel_offset() == self.context().pixel_offset(),
            stage.context().indicization() == Indicization::Vectorized,
            stage.ids() == self.ids(),
    {
        let mut stage = self;
        stage.stage.conversion_context.set_indicization(Indicization::Vectorized);
        stage
    }

    /// The same stage, finding its luma plane under another name.
    pub fn y_buffer_id(self, y_buffer_id: &str) -> (stage: Self)
        ensures
            stage.wf() == self.wf(),
            stage.context() == self.context(),
            stage.ids() == (BufferIds { y_buffer_id: stage.ids().y_buffer_id, ..self.ids() }),
            stage.ids().y_buffer_id@ == y_buffer_id@,
    {
        YUV420PToRGBAConverter { stage: self.stage.y_buffer_id(y_buffer_id) }
    }

    /// The same stage, finding its blue-difference chroma plane under another
    /// name.
    pub fn u_buffer_id(self, u_buffer_id: &str) -> (stage: Self)
        ensures
            stage.wf() == self.wf(),
            stage.context() == self.context(),
            stage.ids() == (BufferIds { u_buffer_id: stage.ids().u_buffer_id, ..self.ids() }),
            stage.ids().u_buffer_id@ == u_buffer_id@,
    {
        YUV420PToRGBAConverter { stage: self.stage.u_buffer_id(u_buffer_id) }
    }

    /// The same stage, finding its red-difference chroma plane under another
    /// name.
    pub fn v_buffer_id(self, v_buffer_id: &str) -> (stage: Self)
        ensures
            stage.wf() == self.wf(),
            stage.context() == self.context(),
            stage.ids() == (BufferIds { v_buffer_id: stage.ids().v_buffer_id, ..self.ids() }),
            stage.ids().v_buffer_id@ == v_buffer_id@,
    {
        YUV420PToRGBAConverter { stage: self.stage.v_buffer_id(v_buffer_id) }
    }

    /// The same stage, finding its packed buffer under another name.
    pub fn raw_frame_buffer_id(self, raw_frame_buffer_id: &str) -> (stage: Self)
        ensures
            stage.wf() == self.wf(),
            stage.context() == self.context(),
            stage.ids() == (BufferIds {
                raw_frame_buffer_id: stage.ids().raw_frame_buffer_id,
                ..self.ids()
            }),
            stage.ids().raw_frame_buffer_id@ == raw_frame_buffer_id@,
    {
        YUV420PToRGBAConverter { stage: self.stage.raw_frame_buffer_id(raw_frame_buffer_id) }
    }

    /// Converts the planes of the frame into its packed buffer.
    ///
    /// The four buffers are taken out of the frame and put back, whether the
    /// conversion was made or not. When a buffer is missing or has the wrong
    /// length, the frame is left holding what it held.
    pub fn process(&self, frame_data: &mut FrameData) -> (result: Result<(), StageError>)
        requires
            self.wf(),
            old(frame_data).wf(),
        ensures
            final(frame_data).wf(),
            final(frame_data).stats() == old(frame_data).stats(),
            final(frame_data).drop_reason() == old(frame_data).drop_reason(),
            result == self.ids().verdict(self.context().size(), old(frame_data).writable_buffers()),
            result is Ok ==> final(frame_data).writable_buffers() == old(
                frame_data,
            ).writable_buffers().insert(
                self.ids().raw_frame_buffer_id@,
                packed_frame(
                    self.context().size(),
                    self.context().pixel_offset(),
                    self.context().indicization(),
                    old(frame_data).writable_buffers()[self.ids().y_buffer_id@],
                    old(frame_data).writable_buffers()[self.ids().u_buffer_id@],
                    old(frame_data).writable_buffers()[self.ids().v_buffer_id@],
                ),
            ),
            result is Ok ==> self.context().pixel_offset().opaque(
                final(frame_data).writable_buffers()[self.ids().raw_frame_buffer_id@],
            ),
            result is Err ==> final(frame_data).writable_buffers() == old(
                frame_data,
            ).writable_buffers(),
    {
        self.stage.process(frame_data)
    }
}

} // verus!
