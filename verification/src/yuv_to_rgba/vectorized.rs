//! The inverse converter with the linear strategy.

use crate::buffers::SizeMismatch;
use crate::geometry::{FrameSize, Indicization};
use crate::layout::PixelOffset;
use crate::yuv_to_rgba::{convert_planes, YUVToRGBAConversionContext};
use vstd::prelude::*;

verus! {

/// An inverse converter that pairs pixel `i` of the row-major scan with
/// chroma sample `i / 4`, and writes red, green, blue, alpha.
pub struct ConversionContext {
    size: FrameSize,
}

impl YUVToRGBAConversionContext for ConversionContext {
    closed spec fn wf(&self) -> bool {
        self.size.wf()
    }

    closed spec fn size(&self) -> FrameSize {
        self.size
    }

    open spec fn pixel_offset(&self) -> PixelOffset {
        PixelOffset::rgba_offsets()
    }

    open spec fn indicization(&self) -> Indicization {
        Indicization::Vectorized
    }

    fn new(width: u32, height: u32) -> (context: Self) {
        ConversionContext { size: FrameSize::new(width, height) }
    }

    fn convert(&self, y: &[u8], u: &[u8], v: &[u8], out: &mut [u8]) -> (result: Result<
        (),
        SizeMismatch,
    >) {
        let layout: PixelOffset = PixelOffset::rgba();
        convert_planes(&self.size, &layout, Indicization::Vectorized, y, u, v, out)
    }
}

} // verus!
