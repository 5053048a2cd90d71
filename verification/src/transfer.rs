//! Stages that move bytes between the buffers of a frame without changing
//! them: the codec that encodes nothing, the receiver that stands in for a
//! network, and the pass that makes a packed frame opaque.

use crate::frame_data::FrameData;
use crate::layout::OPAQUE;
use vstd::prelude::*;

verus! {

/// Why a transfer left a frame as it found it.
#[derive(Clone, Copy, Debug, PartialEq, Eq, Structural)]
pub enum TransferError {
    /// The frame holds no buffer to read from.
    MissingSource,
    /// The frame holds no buffer to write to.
    MissingDestination,
    /// The buffer to write to has not the length of the buffer to read from.
    LengthMismatch { expected: usize, actual: usize },
}

/// The verdict on a copy from the buffer named `source` to the one named
/// `destination`: both must be there, be two buffers, and have one length.
pub open spec fn copy_verdict(
    buffers: Map<Seq<char>, Seq<u8>>,
    source: Seq<char>,
    destination: Seq<char>,
) -> Result<(), TransferError> {
    if !buffers.dom().contains(source) {
        Err(TransferError::MissingSource)
    } else if destination == source || !buffers.dom().contains(destination) {
        Err(TransferError::MissingDestination)
    } else if buffers[destination].len() != buffers[source].len() {
        Err(
            TransferError::LengthMismatch {
                expected: buffers[source].len() as usize,
                actual: buffers[destination].len() as usize,
            },
        )
    } else {
        Ok(())
    }
}

/// Copies `source` over `destination`, which has the same length.
pub fn copy_bytes(source: &[u8], destination: &mut [u8])
    requires
        old(destination)@.len() == source@.len(),
    ensures
        final(destination)@ == source@,
{
    let count: usize = source.len();
    let mut i: usize = 0;
    while i < count
        invariant
            i <= count,
            count == source@.len(),
            destination@.len() == count,
            forall|k: int| 0 <= k < i ==> destination@[k] == source@[k],
        decreases count - i,
    {
        destination[i] = source[i];
        i += 1;
    }
    assert(destination@ =~= source@);
}

/// Copies the bytes of the buffer named `source` over those of the buffer
/// named `destination`, and gives the number of bytes copied. Both buffers stay
/// in the frame. Where the copy cannot be made the frame is left as it was.
pub fn copy_buffer(frame_data: &mut FrameData, source: &str, destination: &str) -> (result: Result<
    usize,
    TransferError,
>)
    requires
        old(frame_data).wf(),
    ensures
        final(frame_data).wf(),
        final(frame_data).stats() == old(frame_data).stats(),
        final(frame_data).drop_reason() == old(frame_data).drop_reason(),
        match result {
            Ok(count) => {
                &&& copy_verdict(old(frame_data).writable_buffers(), source@, destination@) is Ok
                &&& count == old(frame_data).writable_buffers()[source@].len()
                &&& final(frame_data).writable_buffers() == old(
                    frame_data,
                ).writable_buffers().insert(
                    destination@,
                    old(frame_data).writable_buffers()[source@],
                )
            },
            Err(error) => {
                &&& copy_verdict(old(frame_data).writable_buffers(), source@, destination@) == Err::<
                    (),
                    TransferError,
                >(error)
                &&& final(frame_data).writable_buffers() == old(frame_data).writable_buffers()
            },
        },
{
    let ghost held = frame_data.writable_buffers();
    let from: Vec<u8> = match frame_data.extract_writable_buffer(source) {
        Some(from) => from,
        None => {
            return Err(TransferError::MissingSource);
        },
    };
    let mut to: Vec<u8> = match frame_data.extract_writable_buffer(destination) {
        Some(to) => to,
        None => {
            frame_data.insert_writable_buffer(source, from);
            assert(frame_data.writable_buffers() =~= held);
            return Err(TransferError::MissingDestination);
        },
    };
    let count: usize = from.len();
    let result: Result<usize, TransferError> = if to.len() != count {
        Err(TransferError::LengthMismatch { expected: count, actual: to.len() })
    } else {
        copy_bytes(from.as_slice(), to.as_mut_slice());
        Ok(count)
    };
    let ghost written = to@;
    frame_data.insert_writable_buffer(source, from);
    frame_data.insert_writable_buffer(destination, to);
    assert(frame_data.writable_buffers() =~= held.insert(destination@, written));
    assert(result is Err ==> held.insert(destination@, written) =~= held);
    result
}

/// The encoder that encodes nothing: copies `raw_frame_buffer` over
/// `encoded_frame_buffer` and records the number of bytes as `encoded_size`.
pub fn identity_encode(frame_data: &mut FrameData) -> (result: Result<(), TransferError>)
    requires
        old(frame_data).wf(),
    ensures
        final(frame_data).wf(),
        final(frame_data).drop_reason() == old(frame_data).drop_reason(),
        result == copy_verdict(
            old(frame_data).writable_buffers(),
            "raw_frame_buffer"@,
            "encoded_frame_buffer"@,
        ),
        result is Ok ==> {
            let raw = old(frame_data).writable_buffers()["raw_frame_buffer"@];
            &&& final(frame_data).writable_buffers() == old(frame_data).writable_buffers().insert(
                "encoded_frame_buffer"@,
                raw,
            )
            &&& final(frame_data).stats() == old(frame_data).stats().insert(
                "encoded_size"@,
                raw.len() as u128,
            )
        },
        result is Err ==> {
            &&& final(frame_data).writable_buffers() == old(frame_data).writable_buffers()
            &&& final(frame_data).stats() == old(frame_data).stats()
        },
{
    match copy_buffer(frame_data, "raw_frame_buffer", "encoded_frame_buffer") {
        Ok(count) => {
            frame_data.set("encoded_size", count as u128);
            Ok(())
        },
        Err(error) => Err(error),
    }
}

/// The decoder that decodes nothing: copies `encoded_frame_buffer` over
/// `raw_frame_buffer`.
pub fn identity_decode(frame_data: &mut FrameData) -> (result: Result<(), TransferError>)
    requires
        old(frame_data).wf(),
    ensures
        final(frame_data).wf(),
        final(frame_data).stats() == old(frame_data).stats(),
        final(frame_data).drop_reason() == old(frame_data).drop_reason(),
        result == copy_verdict(
            old(frame_data).writable_buffers(),
            "encoded_frame_buffer"@,
            "raw_frame_buffer"@,
        ),
        result is Ok ==> final(frame_data).writable_buffers() == old(
            frame_data,
        ).writable_buffers().insert(
            "raw_frame_buffer"@,
            old(frame_data).writable_buffers()["encoded_frame_buffer"@],
        ),
        result is Err ==> final(frame_data).writable_buffers() == old(
            frame_data,
        ).writable_buffers(),
{
    match copy_buffer(frame_data, "encoded_frame_buffer", "raw_frame_buffer") {
        Ok(_) => Ok(()),
        Err(error) => Err(error),
    }
}

/// First half of a reception within one process: the buffer that the sending
/// side filled, `encoded_frame_buffer`, is set aside as
/// `received_encoded_frame_buffer`, so that the receiving side can borrow an
/// `encoded_frame_buffer` of its own.
pub fn set_received_aside(frame_data: &mut FrameData) -> (result: Result<(), TransferError>)
    requires
        old(frame_data).wf(),
    ensures
        final(frame_data).wf(),
        final(frame_data).stats() == old(frame_data).stats(),
        final(frame_data).drop_reason() == old(frame_data).drop_reason(),
        result is Ok <==> old(frame_data).writable_buffers().dom().contains(
            "encoded_frame_buffer"@,
        ),
        result is Ok ==> final(frame_data).writable_buffers() == old(
            frame_data,
        ).writable_buffers().remove("encoded_frame_buffer"@).insert(
            "received_encoded_frame_buffer"@,
            old(frame_data).writable_buffers()["encoded_frame_buffer"@],
        ),
        result is Err ==> result == Err::<(), TransferError>(TransferError::MissingSource)
            && final(frame_data).writable_buffers() == old(frame_data).writable_buffers(),
{
    match frame_data.extract_writable_buffer("encoded_frame_buffer") {
        Some(buffer) => {
            frame_data.insert_writable_buffer("received_encoded_frame_buffer", buffer);
            Ok(())
        },
        None => Err(TransferError::MissingSource),
    }
}

/// Second half of a reception within one process: the bytes set aside as
/// `received_encoded_frame_buffer` are copied over the receiving side's
/// `encoded_frame_buffer`, and the buffer that was set aside leaves the frame.
pub fn take_received(frame_data: &mut FrameData) -> (result: Result<(), TransferError>)
    requires
        old(frame_data).wf(),
    ensures
        final(frame_data).wf(),
        final(frame_data).stats() == old(frame_data).stats(),
        final(frame_data).drop_reason() == old(frame_data).drop_reason(),
        result == copy_verdict(
            old(frame_data).writable_buffers(),
            "received_encoded_frame_buffer"@,
            "encoded_frame_buffer"@,
        ),
        result is Ok ==> final(frame_data).writable_buffers() == old(
            frame_data,
        ).writable_buffers().remove("received_encoded_frame_buffer"@).insert(
            "encoded_frame_buffer"@,
            old(frame_data).writable_buffers()["received_encoded_frame_buffer"@],
        ),
        result is Err ==> final(frame_data).writable_buffers() == old(
            frame_data,
        ).writable_buffers(),
{
    let ghost held = frame_data.writable_buffers();
    match copy_buffer(frame_data, "received_encoded_frame_buffer", "encoded_frame_buffer") {
        Ok(_) => {
            let _received: Option<Vec<u8>> = frame_data.extract_writable_buffer(
                "received_encoded_frame_buffer",
            );
            assert(frame_data.writable_buffers() =~= held.remove(
                "received_encoded_frame_buffer"@,
            ).insert("encoded_frame_buffer"@, held["received_encoded_frame_buffer"@]));
            Ok(())
        },
        Err(error) => Err(error),
    }
}

/// A packed frame with the fourth byte of every pixel set to opaque and every
/// other byte as it was. Bytes after the last whole pixel stay.
pub open spec fn opaque_copy(frame: Seq<u8>) -> Seq<u8> {
    Seq::new(
        frame.len(),
        |k: int|
            if k % 4 == 3 {
                OPAQUE
            } else {
                frame[k]
            },
    )
}

/// Sets the fourth byte of every pixel of a packed frame to opaque.
pub fn make_opaque(buffer: &mut [u8])
    ensures
        final(buffer)@ == opaque_copy(old(buffer)@),
{
    let len: usize = buffer.len();
    let pixels: usize = len / 4;
    let mut i: usize = 0;
    while i < pixels
        invariant
            i <= pixels,
            pixels == len / 4,
            len == old(buffer)@.len(),
            buffer@.len() == len,
            forall|k: int| 0 <= k < 4 * i ==> buffer@[k] == opaque_copy(old(buffer)@)[k],
            forall|k: int| 4 * i <= k < buffer@.len() ==> buffer@[k] == old(buffer)@[k],
        decreases pixels - i,
    {
        buffer[i * 4 + 3] = OPAQUE;
        i += 1;
    }
    assert(buffer@ =~= opaque_copy(old(buffer)@));
}

/// Makes the packed frame that the frame holds under `buffer_id` opaque, and
/// says whether the frame holds such a buffer.
pub fn make_buffer_opaque(frame_data: &mut FrameData, buffer_id: &str) -> (found: bool)
    requires
        old(frame_data).wf(),
    ensures
        final(frame_data).wf(),
        final(frame_data).stats() == old(frame_data).stats(),
        final(frame_data).drop_reason() == old(frame_data).drop_reason(),
        found == old(frame_data).writable_buffers().dom().contains(buffer_id@),
        found ==> final(frame_data).writable_buffers() == old(frame_data).writable_buffers().insert(
            buffer_id@,
            opaque_copy(old(frame_data).writable_buffers()[buffer_id@]),
        ),
        !found ==> final(frame_data).writable_buffers() == old(frame_data).writable_buffers(),
{
    match frame_data.extract_writable_buffer(buffer_id) {
        Some(buffer) => {
            let mut buffer: Vec<u8> = buffer;
            make_opaque(buffer.as_mut_slice());
            frame_data.insert_writable_buffer(buffer_id, buffer);
            assert(frame_data.writable_buffers() =~= old(frame_data).writable_buffers().insert(
                buffer_id@,
                opaque_copy(old(frame_data).writable_buffers()[buffer_id@]),
            ));
            true
        },
        None => false,
    }
}

} // verus!
