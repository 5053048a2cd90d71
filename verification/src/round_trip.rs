//! What is left of the chroma planes after they have been converted to a
//! packed frame and back.
//!
//! The inverse transform truncates each channel, so the way back does not
//! reproduce every sample: where no channel was cut to the range of a byte, a
//! chroma sample comes back as itself or as one less.

use crate::geometry::{FrameSize, Indicization};
use crate::layout::PixelOffset;
use crate::pixel::{
    blue, blue_exact, chroma_blue, chroma_red, green, green_exact, lemma_channels_near,
    lemma_samples_near, red, red_exact,
};
use crate::rgba_to_yuv::{
    block_mean, chroma_blue_plane, chroma_red_plane, full_chroma_blue, full_chroma_red,
    pixel_chroma_blue, pixel_chroma_red,
};
use crate::yuv_to_rgba::{packed_byte, packed_frame};
use vstd::prelude::*;

verus! {

/// The exact red, green and blue of the sample `(y, u, v)` all lie within the
/// range of a byte, so that the inverse transform cuts none of them.
pub open spec fn unsaturated(y: int, u: int, v: int) -> bool {
    &&& 0 <= red_exact(y, v) < 256_000
    &&& 0 <= green_exact(y, u, v) < 25_600_000
    &&& 0 <= blue_exact(y, u) < 256_000
}

/// A sample whose pixel is not cut comes back from the pixel with each chroma
/// value unchanged or one less.
pub proof fn lemma_sample_round_trip(y: int, u: int, v: int)
    requires
        0 <= y <= 255,
        0 <= u <= 255,
        0 <= v <= 255,
        unsaturated(y, u, v),
    ensures
        u - 1 <= chroma_blue(blue(y, u), green(y, u, v), red(y, v)) <= u,
        v - 1 <= chroma_red(blue(y, u), green(y, u, v), red(y, v)) <= v,
{
    let b = blue(y, u);
    let g = green(y, u, v);
    let r = red(y, v);
    lemma_channels_near(y, u, v);
    lemma_samples_near(b, g, r);
}

/// Pixel `i` of the frame that the inverse converter would make from the
/// planes, in the layout blue, green, red, alpha, is cut in no channel.
pub open spec fn pixel_unsaturated(
    size: FrameSize,
    strategy: Indicization,
    y: Seq<u8>,
    u: Seq<u8>,
    v: Seq<u8>,
    i: int,
) -> bool {
    let c = size.chroma_index(strategy, i);
    unsaturated(y[i] as int, u[c] as int, v[c] as int)
}

/// Chroma of a pixel of the packed frame made from three planes, in the layout
/// blue, green, red, alpha: where the pixel is not cut, each chroma value is
/// that of the sample the pixel was made from, or one less.
pub proof fn lemma_pixel_round_trip(
    size: FrameSize,
    strategy: Indicization,
    y: Seq<u8>,
    u: Seq<u8>,
    v: Seq<u8>,
    i: int,
)
    requires
        size.wf(),
        0 <= i < size.pixels(),
        pixel_unsaturated(size, strategy, y, u, v, i),
    ensures
        ({
            let raw = packed_frame(size, PixelOffset::bgra_offsets(), strategy, y, u, v);
            let c = size.chroma_index(strategy, i);
            &&& u[c] - 1 <= pixel_chroma_blue(raw, i) <= u[c]
            &&& v[c] - 1 <= pixel_chroma_red(raw, i) <= v[c]
        }),
{
    let layout = PixelOffset::bgra_offsets();
    let raw = packed_frame(size, layout, strategy, y, u, v);
    let c = size.chroma_index(strategy, i);
    assert(raw[4 * i] == packed_byte(size, layout, strategy, y, u, v, 4 * i));
    assert(raw[4 * i + 1] == packed_byte(size, layout, strategy, y, u, v, 4 * i + 1));
    assert(raw[4 * i + 2] == packed_byte(size, layout, strategy, y, u, v, 4 * i + 2));
    lemma_sample_round_trip(y[i] as int, u[c] as int, v[c] as int);
}

/// Converting three planes to a packed frame and the frame back to planes,
/// both with the same strategy, gives back each chroma sample as itself or as
/// one less, wherever none of the four pixels that the sample covers is cut.
pub proof fn lemma_chroma_round_trip(
    size: FrameSize,
    strategy: Indicization,
    y: Seq<u8>,
    u: Seq<u8>,
    v: Seq<u8>,
    j: int,
)
    requires
        size.wf(),
        0 <= j < size.chroma_len(),
        forall|k: int|
            0 <= k < 4 ==> pixel_unsaturated(
                size,
                strategy,
                y,
                u,
                v,
                #[trigger] size.chroma_member(strategy, j, k),
            ),
    ensures
        ({
            let raw = packed_frame(size, PixelOffset::bgra_offsets(), strategy, y, u, v);
            &&& u[j] - 1 <= chroma_blue_plane(size, strategy, raw)[j] <= u[j]
            &&& v[j] - 1 <= chroma_red_plane(size, strategy, raw)[j] <= v[j]
        }),
{
    let raw = packed_frame(size, PixelOffset::bgra_offsets(), strategy, y, u, v);
    size.lemma_chroma_member(strategy, j, 0);
    size.lemma_chroma_member(strategy, j, 1);
    size.lemma_chroma_member(strategy, j, 2);
    size.lemma_chroma_member(strategy, j, 3);
    lemma_pixel_round_trip(size, strategy, y, u, v, size.chroma_member(strategy, j, 0));
    lemma_pixel_round_trip(size, strategy, y, u, v, size.chroma_member(strategy, j, 1));
    lemma_pixel_round_trip(size, strategy, y, u, v, size.chroma_member(strategy, j, 2));
    lemma_pixel_round_trip(size, strategy, y, u, v, size.chroma_member(strategy, j, 3));
}

/// Where each of the four pixels that a chroma sample covers has the chroma of
/// that sample, the sample comes back as it was. On such planes the forward
/// converter undoes the inverse converter.
pub proof fn lemma_settled_chroma_comes_back(
    size: FrameSize,
    strategy: Indicization,
    y: Seq<u8>,
    u: Seq<u8>,
    v: Seq<u8>,
    j: int,
)
    requires
        size.wf(),
        0 <= j < size.chroma_len(),
        ({
            let raw = packed_frame(size, PixelOffset::bgra_offsets(), strategy, y, u, v);
            forall|k: int|
                0 <= k < 4 ==> {
                    let i = #[trigger] size.chroma_member(strategy, j, k);
                    pixel_chroma_blue(raw, i) == u[j] && pixel_chroma_red(raw, i) == v[j]
                }
        }),
    ensures
        ({
            let raw = packed_frame(size, PixelOffset::bgra_offsets(), strategy, y, u, v);
            &&& chroma_blue_plane(size, strategy, raw)[j] == u[j]
            &&& chroma_red_plane(size, strategy, raw)[j] == v[j]
        }),
{
    let raw = packed_frame(size, PixelOffset::bgra_offsets(), strategy, y, u, v);
    let blue_full = full_chroma_blue(size, raw);
    let red_full = full_chroma_red(size, raw);
    let i0 = size.chroma_member(strategy, j, 0);
    let i1 = size.chroma_member(strategy, j, 1);
    let i2 = size.chroma_member(strategy, j, 2);
    let i3 = size.chroma_member(strategy, j, 3);
    size.lemma_chroma_member(strategy, j, 0);
    size.lemma_chroma_member(strategy, j, 1);
    size.lemma_chroma_member(strategy, j, 2);
    size.lemma_chroma_member(strategy, j, 3);
    assert(blue_full[i0] == u[j] && blue_full[i1] == u[j] && blue_full[i2] == u[j] && blue_full[i3]
        == u[j]);
    assert(red_full[i0] == v[j] && red_full[i1] == v[j] && red_full[i2] == v[j] && red_full[i3]
        == v[j]);
    assert(chroma_blue_plane(size, strategy, raw)[j] == block_mean(size, strategy, blue_full, j));
    assert(chroma_red_plane(size, strategy, raw)[j] == block_mean(size, strategy, red_full, j));
}

} // verus!
