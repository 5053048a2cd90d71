//! The data of one frame as it travels through the stages of a pipeline:
//! named buffers, named measurements, and the reason for which the frame is to
//! be dropped, if there is one.

use crate::registry::Registry;
use vstd::prelude::*;

verus! {

/// Why a frame is to be dropped.
#[derive(Clone, Copy, Debug, PartialEq, Eq, Structural)]
pub enum DropReason {
    /// The source had no frame to give.
    EmptyFrame,
    /// The frame is older than its stage accepts.
    StaleFrame,
    /// A codec failed on the frame.
    CodecError,
}

/// The data of one frame.
pub struct FrameData {
    writable_buffers: Registry<Vec<u8>>,
    stats: Registry<u128>,
    drop_reason: Option<DropReason>,
}

impl FrameData {
    /// Both tables of the frame are well formed.
    pub closed spec fn wf(&self) -> bool {
        self.writable_buffers.wf() && self.stats.wf()
    }

    /// The buffers that the frame holds, by name.
    pub closed spec fn writable_buffers(&self) -> Map<Seq<char>, Seq<u8>> {
        self.writable_buffers.map().map_values(|buffer: Vec<u8>| buffer@)
    }

    /// The measurements that the frame holds, by name.
    pub closed spec fn stats(&self) -> Map<Seq<char>, u128> {
        self.stats.map()
    }

    /// The reason for which the frame is to be dropped, if there is one.
    pub closed spec fn drop_reason(&self) -> Option<DropReason> {
        self.drop_reason
    }

    /// A frame that holds nothing.
    pub fn new() -> (frame: Self)
        ensures
            frame.wf(),
            frame.writable_buffers() == Map::<Seq<char>, Seq<u8>>::empty(),
            frame.stats() == Map::<Seq<char>, u128>::empty(),
            frame.drop_reason() is None,
    {
        let frame = FrameData {
            writable_buffers: Registry::new(),
            stats: Registry::new(),
            drop_reason: None,
        };
        assert(frame.writable_buffers() =~= Map::<Seq<char>, Seq<u8>>::empty());
        frame
    }

    /// Records the measurement `value` under `key`.
    pub fn set(&mut self, key: &str, value: u128)
        requires
            old(self).wf(),
        ensures
            final(self).wf(),
            final(self).stats() == old(self).stats().insert(key@, value),
            final(self).writable_buffers() == old(self).writable_buffers(),
            final(self).drop_reason() == old(self).drop_reason(),
    {
        self.stats.insert(key, value);
    }

    /// The measurement recorded under `key`, if there is one.
    pub fn get_opt(&self, key: &str) -> (value: Option<u128>)
        requires
            self.wf(),
        ensures
            value == (if self.stats().dom().contains(key@) {
                Some(self.stats()[key@])
            } else {
                None
            }),
    {
        match self.stats.get(key) {
            Some(value) => Some(*value),
            None => None,
        }
    }

    /// Says whether a measurement is recorded under `key`.
    pub fn has(&self, key: &str) -> (found: bool)
        requires
            self.wf(),
        ensures
            found == self.stats().dom().contains(key@),
    {
        self.stats.contains(key)
    }

    /// The names of the measurements that the frame holds, each once, in no
    /// stated order.
    pub fn get_stats_keys(&self) -> (keys: Vec<String>)
        requires
            self.wf(),
        ensures
            forall|i: int| 0 <= i < keys@.len() ==> self.stats().dom().contains(#[trigger] keys@[i]@),
            forall|key: Seq<char>|
                self.stats().dom().contains(key) ==> exists|i: int|
                    0 <= i < keys@.len() && #[trigger] keys@[i]@ == key,
            forall|i: int, j: int| 0 <= i < j < keys@.len() ==> keys@[i]@ != keys@[j]@,
    {
        self.stats.names()
    }

    /// Puts `buffer` into the frame under `key`, in place of the buffer that
    /// was there under that name, if any.
    pub fn insert_writable_buffer(&mut self, key: &str, buffer: Vec<u8>)
        requires
            old(self).wf(),
        ensures
            final(self).wf(),
            final(self).writable_buffers() == old(self).writable_buffers().insert(key@, buffer@),
            final(self).stats() == old(self).stats(),
            final(self).drop_reason() == old(self).drop_reason(),
    {
        self.writable_buffers.insert(key, buffer);
        assert(self.writable_buffers() =~= old(self).writable_buffers().insert(key@, buffer@));
    }

    /// Takes the buffer named `key` out of the frame, if it is there.
    pub fn extract_writable_buffer(&mut self, key: &str) -> (buffer: Option<Vec<u8>>)
        requires
            old(self).wf(),
        ensures
            final(self).wf(),
            final(self).stats() == old(self).stats(),
            final(self).drop_reason() == old(self).drop_reason(),
            match buffer {
                Some(bytes) => {
                    &&& old(self).writable_buffers().dom().contains(key@)
                    &&& bytes@ == old(self).writable_buffers()[key@]
                    &&& final(self).writable_buffers() == old(self).writable_buffers().remove(key@)
                },
                None => {
                    &&& !old(self).writable_buffers().dom().contains(key@)
                    &&& final(self).writable_buffers() == old(self).writable_buffers()
                },
            },
    {
        let buffer: Option<Vec<u8>> = self.writable_buffers.remove(key);
        proof {
            if buffer is Some {
                assert(self.writable_buffers() =~= old(self).writable_buffers().remove(key@));
            }
        }
        buffer
    }

    /// Says whether the frame holds a buffer named `key`.
    pub fn has_writable_buffer(&self, key: &str) -> (found: bool)
        requires
            self.wf(),
        ensures
            found == self.writable_buffers().dom().contains(key@),
    {
        self.writable_buffers.contains(key)
    }

    /// The names of the buffers that the frame holds, each once, in no stated
    /// order.
    pub fn get_writable_buffers_keys(&self) -> (keys: Vec<String>)
        requires
            self.wf(),
        ensures
            forall|i: int|
                0 <= i < keys@.len() ==> self.writable_buffers().dom().contains(
                    #[trigger] keys@[i]@,
                ),
            forall|key: Seq<char>|
                self.writable_buffers().dom().contains(key) ==> exists|i: int|
                    0 <= i < keys@.len() && #[trigger] keys@[i]@ == key,
            forall|i: int, j: int| 0 <= i < j < keys@.len() ==> keys@[i]@ != keys@[j]@,
    {
        self.writable_buffers.names()
    }

    /// Says whether the frame holds no buffer.
    pub fn has_no_writable_buffer(&self) -> (none: bool)
        requires
            self.wf(),
        ensures
            none == self.writable_buffers().dom().is_empty(),
    {
        let none: bool = self.writable_buffers.is_empty();
        proof {
            if none {
                assert(self.writable_buffers().dom() =~= Set::<Seq<char>>::empty());
            } else {
                assert(!(self.writable_buffers.map().dom() =~= Set::<Seq<char>>::empty()));
                let key = choose|key: Seq<char>| self.writable_buffers.map().dom().contains(key);
                assert(self.writable_buffers().dom().contains(key));
            }
        }
        none
    }

    /// Marks the frame as one to be dropped, or as one to be kept.
    pub fn set_drop_reason(&mut self, reason: Option<DropReason>)
        requires
            old(self).wf(),
        ensures
            final(self).wf(),
            final(self).drop_reason() == reason,
            final(self).writable_buffers() == old(self).writable_buffers(),
            final(self).stats() == old(self).stats(),
    {
        self.drop_reason = reason;
    }

    /// The reason for which the frame is to be dropped, if there is one.
    pub fn get_drop_reason(&self) -> (reason: Option<DropReason>)
        ensures
            reason == self.drop_reason(),
    {
        self.drop_reason
    }
}

} // verus!
