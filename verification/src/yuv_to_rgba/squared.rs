//! The inverse converter with the spatial strategy.

use crate::buffers::{BufferIds, SizeMismatch, StageError};
use crate::frame_data::FrameData;
use crate::geometry::{FrameSize, Indicization};
use crate::layout::PixelOffset;
use crate::yuv_to_rgba::{
    convert_planes, packed_frame, ConverterProcessor, YUVToRGBAConversionContext,
};
use vstd::prelude::*;

verus! {

/// An inverse converter that pairs the pixel at `(row, column)` with the
/// chroma sample at `(row / 2, column / 2)`, and writes red, green, blue,
/// alpha.
pub struct ConversionContext {
    size: FrameSize,
}

impl YUVToRGBAConversionContext for ConversionContext {
    closed spec fn wf(&self) -> bool {
        self.size.wf()
    }

    closed spec fn size(&self) -> FrameSize {
        self.size
    }

    open spec fn pixel_offset(&self) -> PixelOffset {
        PixelOffset::rgba_offsets()
    }

    open spec fn indicization(&self) -> Indicization {
        Indicization::Squared
    }

    fn new(width: u32, height: u32) -> (context: Self) {
        ConversionContext { size: FrameSize::new(width, height) }
    }

    fn convert(&self, y: &[u8], u: &[u8], v: &[u8], out: &mut [u8]) -> (result: Result<
        (),
        SizeMismatch,
    >) {
        let layout: PixelOffset = PixelOffset::rgba();
        convert_planes(&self.size, &layout, Indicization::Squared, y, u, v, out)
    }
}

/// A stage that converts the planes of a frame into its packed buffer with
/// the spatial strategy.
pub struct SquaredYUV420PToRGBAConverter {
    stage: ConverterProcessor<ConversionContext>,
}

impl SquaredYUV420PToRGBAConverter {
    /// The stage is fit for use.
    pub closed spec fn wf(&self) -> bool {
        self.stage.wf()
    }

    /// The context that converts for the stage.
    pub closed spec fn context(&self) -> ConversionContext {
        self.stage.context()
    }

    /// The names under which the stage finds its buffers.
    pub closed spec fn ids(&self) -> BufferIds {
        self.stage.ids()
    }

    /// A stage for frames of `width` by `height` pixels, which finds its
    /// buffers under the usual names.
    pub fn new(width: u32, height: u32) -> (stage: Self)
        requires
            (FrameSize { width, height }).wf(),
        ensures
            stage.wf(),
            stage.context().wf(),
            stage.context().size() == (FrameSize { width, height }),
            stage.ids().raw_frame_buffer_id@ == "raw_frame_buffer"@,
            stage.ids().y_buffer_id@ == "y_channel_buffer"@,
            stage.ids().u_buffer_id@ == "cb_channel_buffer"@,
            stage.ids().v_buffer_id@ == "cr_channel_buffer"@,
    {
        SquaredYUV420PToRGBAConverter { stage: ConverterProcessor::new(width, height) }
    }

    /// The same stage, finding its luma plane under another name.
    pub fn y_buffer_id(self, y_buffer_id: &str) -> (stage: Self)
        ensures
            stage.wf() == self.wf(),
            stage.context() == self.context(),
            stage.ids() == (BufferIds { y_buffer_id: stage.ids().y_buffer_id, ..self.ids() }),
            stage.ids().y_buffer_id@ == y_buffer_id@,
    {
        SquaredYUV420PToRGBAConverter { stage: self.stage.y_buffer_id(y_buffer_id) }
    }

    /// The same stage, finding its blue-difference chroma plane under another
    /// name.
    pub fn u_buffer_id(self, u_buffer_id: &str) -> (stage: Self)
        ensures
            stage.wf() == self.wf(),
            stage.context() == self.context(),
            stage.ids() == (BufferIds { u_buffer_id: stage.ids().u_buffer_id, ..self.ids() }),
            stage.ids().u_buffer_id@ == u_buffer_id@,
    {
        SquaredYUV420PToRGBAConverter { stage: self.stage.u_buffer_id(u_buffer_id) }
    }

    /// The same stage, finding its red-difference chroma plane under another
    /// name.
    pub fn v_buffer_id(self, v_buffer_id: &str) -> (stage: Self)
        ensures
            stage.wf() == self.wf(),
            stage.context() == self.context(),
            stage.ids() == (BufferIds { v_buffer_id: stage.ids().v_buffer_id, ..self.ids() }),
            stage.ids().v_buffer_id@ == v_buffer_id@,
    {
        SquaredYUV420PToRGBAConverter { stage: self.stage.v_buffer_id(v_buffer_id) }
    }

    /// The same stage, finding its packed buffer under another name.
    pub fn raw_frame_buffer_id(self, raw_frame_buffer_id: &str) -> (stage: Self)
        ensures
            stage.wf() == self.wf(),
            stage.context() == self.context(),
            stage.ids() == (BufferIds {
                raw_frame_buffer_id: stage.ids().raw_frame_buffer_id,
                ..self.ids()
            }),
            stage.ids().raw_frame_buffer_id@ == raw_frame_buffer_id@,
    {
        SquaredYUV420PToRGBAConverter { stage: self.stage.raw_frame_buffer_id(raw_frame_buffer_id) }
    }

    /// Converts the planes of the frame into its packed buffer.
    ///
    /// The four buffers are taken out of the frame and put back, whether the
    /// conversion was made or not. When a buffer is missing or has the wrong
    /// length, the frame is left holding what it held.
    pub fn process(&self, frame_data: &mut FrameData) -> (result: Result<(), StageError>)
        requires
            self.wf(),
            old(frame_data).wf(),
        ensures
            final(frame_data).wf(),
            final(frame_data).stats() == old(frame_data).stats(),
            final(frame_data).drop_reason() == old(frame_data).drop_reason(),
            result == self.ids().verdict(self.context().size(), old(frame_data).writable_buffers()),
            result is Ok ==> final(frame_data).writable_buffers() == old(
                frame_data,
            ).writable_buffers().insert(
                self.ids().raw_frame_buffer_id@,
                packed_frame(
                    self.context().size(),
                    self.context().pixel_offset(),
                    self.context().indicization(),
                    old(frame_data).writable_buffers()[self.ids().y_buffer_id@],
                    old(frame_data).writable_buffers()[self.ids().u_buffer_id@],
                    old(frame_data).writable_buffers()[self.ids().v_buffer_id@],
                ),
            ),
            result is Ok ==> self.context().pixel_offset().opaque(
                final(frame_data).writable_buffers()[self.ids().raw_frame_buffer_id@],
            ),
            result is Err ==> final(frame_data).writable_buffers() == old(
                frame_data,
            ).writable_buffers(),
    {
        self.stage.process(frame_data)
    }
}

} // verus!
