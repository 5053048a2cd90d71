//! The four buffers of a frame, and the check of their sizes that every
//! conversion makes before it touches a byte.

use crate::frame_data::FrameData;
use crate::geometry::FrameSize;
use vstd::prelude::*;

verus! {

/// One of the buffers that a conversion reads or writes.
#[derive(Clone, Copy, Debug, PartialEq, Eq, Structural)]
pub enum BufferKind {
    /// The packed frame, four bytes per pixel.
    RawFrame,
    /// The luma plane.
    YChannel,
    /// The blue-difference chroma plane.
    CbChannel,
    /// The red-difference chroma plane.
    CrChannel,
}

/// A buffer whose length is not the one that the frame dimensions call for.
#[derive(Clone, Copy, Debug, PartialEq, Eq, Structural)]
pub struct SizeMismatch {
    pub buffer: BufferKind,
    pub expected: usize,
    pub actual: usize,
}

impl FrameSize {
    /// The verdict on four buffer lengths: `Ok` when each is the length that
    /// the dimensions call for, else the first buffer that is not, in the order
    /// packed frame, luma, blue-difference chroma, red-difference chroma.
    pub open spec fn check(&self, raw_len: nat, y_len: nat, cb_len: nat, cr_len: nat) -> Result<
        (),
        SizeMismatch,
    > {
        if raw_len != self.packed_len() {
            Err(
                SizeMismatch {
                    buffer: BufferKind::RawFrame,
                    expected: self.packed_len() as usize,
                    actual: raw_len as usize,
                },
            )
        } else if y_len != self.luma_len() {
            Err(
                SizeMismatch {
                    buffer: BufferKind::YChannel,
                    expected: self.luma_len() as usize,
                    actual: y_len as usize,
                },
            )
        } else if cb_len != self.chroma_len() {
            Err(
                SizeMismatch {
                    buffer: BufferKind::CbChannel,
                    expected: self.chroma_len() as usize,
                    actual: cb_len as usize,
                },
            )
        } else if cr_len != self.chroma_len() {
            Err(
                SizeMismatch {
                    buffer: BufferKind::CrChannel,
                    expected: self.chroma_len() as usize,
                    actual: cr_len as usize,
                },
            )
        } else {
            Ok(())
        }
    }

    /// Checks four buffer lengths against the dimensions.
    pub fn validate(&self, raw_len: usize, y_len: usize, cb_len: usize, cr_len: usize) -> (result:
        Result<(), SizeMismatch>)
        requires
            self.wf(),
        ensures
            result == self.check(raw_len as nat, y_len as nat, cb_len as nat, cr_len as nat),
    {
        let pixels: usize = self.pixel_count();
        if raw_len != pixels * 4 {
            Err(SizeMismatch { buffer: BufferKind::RawFrame, expected: pixels * 4, actual: raw_len })
        } else if y_len != pixels {
            Err(SizeMismatch { buffer: BufferKind::YChannel, expected: pixels, actual: y_len })
        } else if cb_len != pixels / 4 {
            Err(SizeMismatch { buffer: BufferKind::CbChannel, expected: pixels / 4, actual: cb_len })
        } else if cr_len != pixels / 4 {
            Err(SizeMismatch { buffer: BufferKind::CrChannel, expected: pixels / 4, actual: cr_len })
        } else {
            Ok(())
        }
    }
}

/// The four usual names of the buffers are four names.
pub proof fn lemma_usual_names_differ()
    ensures
        "raw_frame_buffer"@ != "y_channel_buffer"@,
        "raw_frame_buffer"@ != "cb_channel_buffer"@,
        "raw_frame_buffer"@ != "cr_channel_buffer"@,
        "y_channel_buffer"@ != "cb_channel_buffer"@,
        "y_channel_buffer"@ != "cr_channel_buffer"@,
        "cb_channel_buffer"@ != "cr_channel_buffer"@,
{
    reveal_strlit("raw_frame_buffer");
    reveal_strlit("y_channel_buffer");
    reveal_strlit("cb_channel_buffer");
    reveal_strlit("cr_channel_buffer");
    assert("raw_frame_buffer"@[0] != "y_channel_buffer"@[0]);
    assert("cb_channel_buffer"@[1] != "cr_channel_buffer"@[1]);
}

/// Why a conversion stage left a frame as it found it.
#[derive(Clone, Copy, Debug, PartialEq, Eq, Structural)]
pub enum StageError {
    /// The frame holds no buffer under the name that the stage has for it.
    MissingBuffer(BufferKind),
    /// A buffer of the frame has the wrong length.
    SizeMismatch(SizeMismatch),
}

/// The names under which a conversion stage finds its four buffers in a frame.
pub struct BufferIds {
    pub raw_frame_buffer_id: String,
    pub y_buffer_id: String,
    pub u_buffer_id: String,
    pub v_buffer_id: String,
}

impl BufferIds {
    /// The first of the four buffers that a stage would not find, taking them
    /// out of `buffers` one after the other in the order packed frame, luma,
    /// blue-difference chroma, red-difference chroma. A name that stands for
    /// two buffers finds the first of them only.
    pub open spec fn missing(&self, buffers: Map<Seq<char>, Seq<u8>>) -> Option<BufferKind> {
        let raw = self.raw_frame_buffer_id@;
        let y = self.y_buffer_id@;
        let u = self.u_buffer_id@;
        let v = self.v_buffer_id@;
        if !buffers.dom().contains(raw) {
            Some(BufferKind::RawFrame)
        } else if y == raw || !buffers.dom().contains(y) {
            Some(BufferKind::YChannel)
        } else if u == raw || u == y || !buffers.dom().contains(u) {
            Some(BufferKind::CbChannel)
        } else if v == raw || v == y || v == u || !buffers.dom().contains(v) {
            Some(BufferKind::CrChannel)
        } else {
            None
        }
    }

    /// The verdict of a stage on the buffers of a frame: the first buffer that
    /// is missing, else the first buffer of the wrong length, else `Ok`.
    pub open spec fn verdict(&self, size: FrameSize, buffers: Map<Seq<char>, Seq<u8>>) -> Result<
        (),
        StageError,
    > {
        match self.missing(buffers) {
            Some(kind) => Err(StageError::MissingBuffer(kind)),
            None => match size.check(
                buffers[self.raw_frame_buffer_id@].len(),
                buffers[self.y_buffer_id@].len(),
                buffers[self.u_buffer_id@].len(),
                buffers[self.v_buffer_id@].len(),
            ) {
                Ok(()) => Ok(()),
                Err(mismatch) => Err(StageError::SizeMismatch(mismatch)),
            },
        }
    }

    /// The usual names: `raw_frame_buffer`, `y_channel_buffer`,
    /// `cb_channel_buffer` and `cr_channel_buffer`.
    pub fn new() -> (ids: Self)
        ensures
            ids.raw_frame_buffer_id@ == "raw_frame_buffer"@,
            ids.y_buffer_id@ == "y_channel_buffer"@,
            ids.u_buffer_id@ == "cb_channel_buffer"@,
            ids.v_buffer_id@ == "cr_channel_buffer"@,
    {
        BufferIds {
            raw_frame_buffer_id: "raw_frame_buffer".to_owned(),
            y_buffer_id: "y_channel_buffer".to_owned(),
            u_buffer_id: "cb_channel_buffer".to_owned(),
            v_buffer_id: "cr_channel_buffer".to_owned(),
        }
    }

    /// Takes the four buffers out of the frame. When one of them is missing,
    /// those already taken are put back, and the frame holds what it held.
    pub fn take(&self, frame: &mut FrameData) -> (taken: Result<
        (Vec<u8>, Vec<u8>, Vec<u8>, Vec<u8>),
        BufferKind,
    >)
        requires
            old(frame).wf(),
        ensures
            final(frame).wf(),
            final(frame).stats() == old(frame).stats(),
            final(frame).drop_reason() == old(frame).drop_reason(),
            match taken {
                Ok((raw, y, u, v)) => {
                    let held = old(frame).writable_buffers();
                    &&& self.missing(held) is None
                    &&& raw@ == held[self.raw_frame_buffer_id@]
                    &&& y@ == held[self.y_buffer_id@]
                    &&& u@ == held[self.u_buffer_id@]
                    &&& v@ == held[self.v_buffer_id@]
                    &&& final(frame).writable_buffers() == held.remove(
                        self.raw_frame_buffer_id@,
                    ).remove(self.y_buffer_id@).remove(self.u_buffer_id@).remove(self.v_buffer_id@)
                },
                Err(kind) => {
                    &&& self.missing(old(frame).writable_buffers()) == Some(kind)
                    &&& final(frame).writable_buffers() == old(frame).writable_buffers()
                },
            },
    {
        let ghost held = frame.writable_buffers();
        let raw: Vec<u8> = match frame.extract_writable_buffer(self.raw_frame_buffer_id.as_str()) {
            Some(raw) => raw,
            None => {
                return Err(BufferKind::RawFrame);
            },
        };
        let y: Vec<u8> = match frame.extract_writable_buffer(self.y_buffer_id.as_str()) {
            Some(y) => y,
            None => {
                frame.insert_writable_buffer(self.raw_frame_buffer_id.as_str(), raw);
                assert(frame.writable_buffers() =~= held);
                return Err(BufferKind::YChannel);
            },
        };
        let u: Vec<u8> = match frame.extract_writable_buffer(self.u_buffer_id.as_str()) {
            Some(u) => u,
            None => {
                frame.insert_writable_buffer(self.y_buffer_id.as_str(), y);
                frame.insert_writable_buffer(self.raw_frame_buffer_id.as_str(), raw);
                assert(frame.writable_buffers() =~= held);
                return Err(BufferKind::CbChannel);
            },
        };
        let v: Vec<u8> = match frame.extract_writable_buffer(self.v_buffer_id.as_str()) {
            Some(v) => v,
            None => {
                frame.insert_writable_buffer(self.u_buffer_id.as_str(), u);
                frame.insert_writable_buffer(self.y_buffer_id.as_str(), y);
                frame.insert_writable_buffer(self.raw_frame_buffer_id.as_str(), raw);
                assert(frame.writable_buffers() =~= held);
                return Err(BufferKind::CrChannel);
            },
        };
        Ok((raw, y, u, v))
    }

    /// Puts four buffers into the frame under the four names.
    pub fn put_back(&self, frame: &mut FrameData, raw: Vec<u8>, y: Vec<u8>, u: Vec<u8>, v: Vec<u8>)
        requires
            old(frame).wf(),
        ensures
            final(frame).wf(),
            final(frame).stats() == old(frame).stats(),
            final(frame).drop_reason() == old(frame).drop_reason(),
            final(frame).writable_buffers() == old(frame).writable_buffers().insert(
                self.raw_frame_buffer_id@,
                raw@,
            ).insert(self.y_buffer_id@, y@).insert(self.u_buffer_id@, u@).insert(
                self.v_buffer_id@,
                v@,
            ),
    {
        frame.insert_writable_buffer(self.raw_frame_buffer_id.as_str(), raw);
        frame.insert_writable_buffer(self.y_buffer_id.as_str(), y);
        frame.insert_writable_buffer(self.u_buffer_id.as_str(), u);
        frame.insert_writable_buffer(self.v_buffer_id.as_str(), v);
    }
}

} // verus!
