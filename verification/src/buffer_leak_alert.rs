//! A stage for the end of a pipeline, where a frame should hold no buffer any
//! more.

use crate::frame_data::FrameData;
use vstd::prelude::*;

verus! {

/// Finds the buffers that the stages before it have left in a frame.
pub struct BufferLeakAlert {}

impl BufferLeakAlert {
    /// The stage.
    pub fn new() -> (alert: Self) {
        Self {  }
    }

    /// The names of the buffers that the frame still holds, each once, if it
    /// holds any. The frame is not changed.
    pub fn process(&self, frame_data: &FrameData) -> (leaked: Option<Vec<String>>)
        requires
            frame_data.wf(),
        ensures
            leaked is None <==> frame_data.writable_buffers().dom().is_empty(),
            match leaked {
                Some(keys) => {
                    &&& keys@.len() > 0
                    &&& forall|i: int|
                        0 <= i < keys@.len() ==> frame_data.writable_buffers().dom().contains(
                            #[trigger] keys@[i]@,
                        )
                    &&& forall|key: Seq<char>|
                        frame_data.writable_buffers().dom().contains(key) ==> exists|i: int|
                            0 <= i < keys@.len() && #[trigger] keys@[i]@ == key
                    &&& forall|i: int, j: int| 0 <= i < j < keys@.len() ==> keys@[i]@ != keys@[j]@
                },
                None => true,
            },
    {
        let buffer_keys: Vec<String> = frame_data.get_writable_buffers_keys();
        if buffer_keys.len() > 0 {
            proof {
                assert(frame_data.writable_buffers().dom().contains(buffer_keys@[0]@));
            }
            Some(buffer_keys)
        } else {
            proof {
                assert(frame_data.writable_buffers().dom() =~= Set::<Seq<char>>::empty());
            }
            None
        }
    }
}

} // verus!
