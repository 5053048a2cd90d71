//! The places of the four channels in a packed pixel.

use crate::pixel::{blue, green, red};
use vstd::prelude::*;

verus! {

/// The value of a fully opaque alpha channel.
pub const OPAQUE: u8 = 255;

/// Where each channel stands among the four bytes of a packed pixel.
#[derive(Clone, Copy, Debug, PartialEq, Eq, Structural)]
pub struct PixelOffset {
    pub r: usize,
    pub g: usize,
    pub b: usize,
    pub a: usize,
}

impl PixelOffset {
    /// The four offsets are the four positions of a pixel, each taken once.
    pub open spec fn wf(&self) -> bool {
        &&& self.r < 4 && self.g < 4 && self.b < 4 && self.a < 4
        &&& self.r != self.g && self.r != self.b && self.r != self.a
        &&& self.g != self.b && self.g != self.a
        &&& self.b != self.a
    }

    /// Red, green, blue, alpha.
    pub open spec fn rgba_offsets() -> PixelOffset {
        PixelOffset { r: 0, g: 1, b: 2, a: 3 }
    }

    /// Blue, green, red, alpha.
    pub open spec fn bgra_offsets() -> PixelOffset {
        PixelOffset { r: 2, g: 1, b: 0, a: 3 }
    }

    /// The byte at position `c` of the pixel made from luma `y` and chroma
    /// `(u, v)`: alpha is opaque whatever the samples are.
    pub open spec fn channel(&self, c: int, y: int, u: int, v: int) -> int {
        if c == self.a {
            OPAQUE as int
        } else if c == self.r {
            red(y, v)
        } else if c == self.g {
            green(y, u, v)
        } else {
            blue(y, u)
        }
    }

    /// Position of the alpha byte of pixel `i` in a packed frame.
    pub open spec fn alpha_index(&self, i: int) -> int {
        4 * i + self.a
    }

    /// Every pixel of the packed frame is fully opaque.
    pub open spec fn opaque(&self, frame: Seq<u8>) -> bool {
        forall|i: int|
            0 <= i && 4 * i + 4 <= frame.len() ==> frame[#[trigger] self.alpha_index(i)] == OPAQUE
    }

    /// The layout red, green, blue, alpha.
    #[verifier::when_used_as_spec(rgba_offsets)]
    pub fn rgba() -> (layout: Self)
        ensures
            layout == Self::rgba_offsets(),
            layout.wf(),
    {
        PixelOffset { r: 0, g: 1, b: 2, a: 3 }
    }

    /// The layout blue, green, red, alpha.
    #[verifier::when_used_as_spec(bgra_offsets)]
    pub fn bgra() -> (layout: Self)
        ensures
            layout == Self::bgra_offsets(),
            layout.wf(),
    {
        PixelOffset { r: 2, g: 1, b: 0, a: 3 }
    }

    /// Says whether the four offsets are a valid layout.
    pub fn is_valid(&self) -> (ok: bool)
        ensures
            ok == self.wf(),
    {
        self.r < 4 && self.g < 4 && self.b < 4 && self.a < 4 && self.r != self.g && self.r
            != self.b && self.r != self.a && self.g != self.b && self.g != self.a && self.b
            != self.a
    }
}

} // verus!
