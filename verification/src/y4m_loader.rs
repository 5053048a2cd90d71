//! The part of a YUV4MPEG2 source that decides: how many frames to give, and
//! where the planes of a frame go. Reading the file is left to the caller.

use crate::buffers::{lemma_usual_names_differ, BufferKind, SizeMismatch, StageError};
use crate::frame_data::{DropReason, FrameData};
use crate::transfer::copy_bytes;
use vstd::prelude::*;

verus! {

/// What the source does for the next frame.
#[derive(Clone, Copy, Debug, PartialEq, Eq, Structural)]
pub enum LoaderStep {
    /// The source has given as many frames as it was to give: it ends.
    Terminate,
    /// The source reads the next frame of the file.
    ReadFrame,
}

/// The state of a source that gives the frames of one file, at most a set
/// number of them.
pub struct Y4MLoader {
    path: String,
    extracted_frames: u64,
    stop_after: Option<u64>,
}

/// The verdict on the three plane buffers of a frame, taken in the order luma,
/// blue-difference chroma, red-difference chroma: each must be there and have
/// the length of the plane that goes into it.
pub open spec fn store_verdict(
    buffers: Map<Seq<char>, Seq<u8>>,
    y_len: nat,
    cb_len: nat,
    cr_len: nat,
) -> Result<(), StageError> {
    if !buffers.dom().contains("y_channel_buffer"@) {
        Err(StageError::MissingBuffer(BufferKind::YChannel))
    } else if buffers["y_channel_buffer"@].len() != y_len {
        Err(
            StageError::SizeMismatch(
                SizeMismatch {
                    buffer: BufferKind::YChannel,
                    expected: y_len as usize,
                    actual: buffers["y_channel_buffer"@].len() as usize,
                },
            ),
        )
    } else if !buffers.dom().contains("cb_channel_buffer"@) {
        Err(StageError::MissingBuffer(BufferKind::CbChannel))
    } else if buffers["cb_channel_buffer"@].len() != cb_len {
        Err(
            StageError::SizeMismatch(
                SizeMismatch {
                    buffer: BufferKind::CbChannel,
                    expected: cb_len as usize,
                    actual: buffers["cb_channel_buffer"@].len() as usize,
                },
            ),
        )
    } else if !buffers.dom().contains("cr_channel_buffer"@) {
        Err(StageError::MissingBuffer(BufferKind::CrChannel))
    } else if buffers["cr_channel_buffer"@].len() != cr_len {
        Err(
            StageError::SizeMismatch(
                SizeMismatch {
                    buffer: BufferKind::CrChannel,
                    expected: cr_len as usize,
                    actual: buffers["cr_channel_buffer"@].len() as usize,
                },
            ),
        )
    } else {
        Ok(())
    }
}

/// Takes the buffer named `key` out of the frame if it has `len` bytes.
fn take_plane(frame_data: &mut FrameData, key: &str, kind: BufferKind, len: usize) -> (taken:
    Result<Vec<u8>, StageError>)
    requires
        old(frame_data).wf(),
    ensures
        final(frame_data).wf(),
        final(frame_data).stats() == old(frame_data).stats(),
        final(frame_data).drop_reason() == old(frame_data).drop_reason(),
        match taken {
            Ok(buffer) => {
                &&& old(frame_data).writable_buffers().dom().contains(key@)
                &&& buffer@ == old(frame_data).writable_buffers()[key@]
                &&& buffer@.len() == len
                &&& final(frame_data).writable_buffers() == old(frame_data).writable_buffers().remove(
                    key@,
                )
            },
            Err(error) => {
                &&& final(frame_data).writable_buffers() == old(frame_data).writable_buffers()
                &&& error == (if !old(frame_data).writable_buffers().dom().contains(key@) {
                    StageError::MissingBuffer(kind)
                } else {
                    StageError::SizeMismatch(
                        SizeMismatch {
                            buffer: kind,
                            expected: len,
                            actual: old(frame_data).writable_buffers()[key@].len() as usize,
                        },
                    )
                })
                &&& old(frame_data).writable_buffers().dom().contains(key@) ==> old(
                    frame_data,
                ).writable_buffers()[key@].len() != len
            },
        },
{
    match frame_data.extract_writable_buffer(key) {
        None => Err(StageError::MissingBuffer(kind)),
        Some(buffer) => {
            if buffer.len() == len {
                Ok(buffer)
            } else {
                let actual: usize = buffer.len();
                frame_data.insert_writable_buffer(key, buffer);
                assert(frame_data.writable_buffers() =~= old(frame_data).writable_buffers());
                Err(
                    StageError::SizeMismatch(SizeMismatch { buffer: kind, expected: len, actual }),
                )
            }
        },
    }
}

impl Y4MLoader {
    /// The path of the file that the source reads.
    pub closed spec fn path(&self) -> Seq<char> {
        self.path@
    }

    /// The number of frames that the source has given.
    pub closed spec fn extracted_frames(&self) -> u64 {
        self.extracted_frames
    }

    /// The number of frames after which the source ends, if one is set.
    pub closed spec fn limit(&self) -> Option<u64> {
        self.stop_after
    }

    /// The state of a source that has given no frame of the file at `path`, and
    /// gives frames as long as the file has any.
    pub fn new(path: &str) -> (loader: Self)
        ensures
            loader.path() == path@,
            loader.extracted_frames() == 0,
            loader.limit() is None,
    {
        Self { path: path.to_owned(), stop_after: None, extracted_frames: 0 }
    }

    /// The same source, ending after `value` frames.
    pub fn stop_after(self, value: u64) -> (loader: Self)
        ensures
            loader.path() == self.path(),
            loader.extracted_frames() == self.extracted_frames(),
            loader.limit() == Some(value),
    {
        let mut loader = self;
        loader.stop_after = Some(value);
        loader
    }

    /// The path of the file that the source reads.
    pub fn file_path(&self) -> (path: &str)
        ensures
            path@ == self.path(),
    {
        self.path.as_str()
    }

    /// The number of frames that the source has given.
    pub fn frames_given(&self) -> (count: u64)
        ensures
            count == self.extracted_frames(),
    {
        self.extracted_frames
    }

    /// What the source does for the next frame: it ends once it has given as
    /// many frames as it was to give, and reads on otherwise.
    pub fn next_step(&self) -> (step: LoaderStep)
        ensures
            step == (match self.limit() {
                Some(max_frames) if self.extracted_frames() >= max_frames => LoaderStep::Terminate,
                _ => LoaderStep::ReadFrame,
            }),
    {
        match self.stop_after {
            Some(max_frames) => {
                if self.extracted_frames >= max_frames {
                    LoaderStep::Terminate
                } else {
                    LoaderStep::ReadFrame
                }
            },
            None => LoaderStep::ReadFrame,
        }
    }

    /// The file has no frame left: the frame is marked as empty, to be dropped
    /// further on, and nothing else of it changes.
    pub fn end_of_stream(&self, frame_data: &mut FrameData)
        requires
            old(frame_data).wf(),
        ensures
            final(frame_data).wf(),
            final(frame_data).drop_reason() == Some(DropReason::EmptyFrame),
            final(frame_data).writable_buffers() == old(frame_data).writable_buffers(),
            final(frame_data).stats() == old(frame_data).stats(),
    {
        frame_data.set_drop_reason(Some(DropReason::EmptyFrame));
    }

    /// Stores the three planes of a frame of the file in the buffers of the
    /// frame, and counts the frame.
    ///
    /// The luma plane goes into `y_channel_buffer`, the U plane, which holds
    /// blue-difference chroma, into `cb_channel_buffer`, and the V plane, which
    /// holds red-difference chroma, into `cr_channel_buffer`. Each buffer must be
    /// in the frame with the length of its plane; where one is not, nothing is
    /// stored and the frame is not counted.
    pub fn store_frame(
        &mut self,
        frame_data: &mut FrameData,
        y_plane: &[u8],
        u_plane: &[u8],
        v_plane: &[u8],
    ) -> (result: Result<(), StageError>)
        requires
            old(self).extracted_frames() < u64::MAX,
            old(frame_data).wf(),
        ensures
            final(self).path() == old(self).path(),
            final(self).limit() == old(self).limit(),
            final(frame_data).wf(),
            final(frame_data).stats() == old(frame_data).stats(),
            final(frame_data).drop_reason() == old(frame_data).drop_reason(),
            result == store_verdict(
                old(frame_data).writable_buffers(),
                y_plane@.len(),
                u_plane@.len(),
                v_plane@.len(),
            ),
            result is Ok ==> {
                &&& final(self).extracted_frames() == old(self).extracted_frames() + 1
                &&& final(frame_data).writable_buffers() == old(
                    frame_data,
                ).writable_buffers().insert("y_channel_buffer"@, y_plane@).insert(
                    "cb_channel_buffer"@,
                    u_plane@,
                ).insert("cr_channel_buffer"@, v_plane@)
            },
            result is Err ==> {
                &&& final(self).extracted_frames() == old(self).extracted_frames()
                &&& final(frame_data).writable_buffers() == old(frame_data).writable_buffers()
            },
    {
        let ghost held = frame_data.writable_buffers();
        proof {
            lemma_usual_names_differ();
        }
        let mut y: Vec<u8> = match take_plane(
            frame_data,
            "y_channel_buffer",
            BufferKind::YChannel,
            y_plane.len(),
        ) {
            Ok(y) => y,
            Err(error) => {
                return Err(error);
            },
        };
        let mut cb: Vec<u8> = match take_plane(
            frame_data,
            "cb_channel_buffer",
            BufferKind::CbChannel,
            u_plane.len(),
        ) {
            Ok(cb) => cb,
            Err(error) => {
                frame_data.insert_writable_buffer("y_channel_buffer", y);
                assert(frame_data.writable_buffers() =~= held);
                return Err(error);
            },
        };
        let mut cr: Vec<u8> = match take_plane(
            frame_data,
            "cr_channel_buffer",
            BufferKind::CrChannel,
            v_plane.len(),
        ) {
            Ok(cr) => cr,
            Err(error) => {
                frame_data.insert_writable_buffer("cb_channel_buffer", cb);
                frame_data.insert_writable_buffer("y_channel_buffer", y);
                assert(frame_data.writable_buffers() =~= held);
                return Err(error);
            },
        };
        copy_bytes(y_plane, y.as_mut_slice());
        copy_bytes(u_plane, cb.as_mut_slice());
        copy_bytes(v_plane, cr.as_mut_slice());
        frame_data.insert_writable_buffer("y_channel_buffer", y);
        frame_data.insert_writable_buffer("cb_channel_buffer", cb);
        frame_data.insert_writable_buffer("cr_channel_buffer", cr);
        assert(frame_data.writable_buffers() =~= held.insert("y_channel_buffer"@, y_plane@).insert(
            "cb_channel_buffer"@,
            u_plane@,
        ).insert("cr_channel_buffer"@, v_plane@));
        self.extracted_frames = self.extracted_frames + 1;
        Ok(())
    }
}

} // verus!
