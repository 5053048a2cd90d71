//! Small decisions that stages of a pipeline make on a frame.

use crate::frame_data::DropReason;
use vstd::prelude::*;

verus! {

/// Says whether a frame goes on through the pipeline: a frame that carries a
/// reason to be dropped is dropped, every other frame is kept.
pub fn void_dropper(reason: Option<DropReason>) -> (keep: bool)
    ensures
        keep == reason is None,
{
    reason.is_none()
}

} // verus!
