use paper_experiments::buffer_leak_alert::BufferLeakAlert;
use paper_experiments::buffers::{BufferKind, SizeMismatch, StageError};
use paper_experiments::frame_data::{DropReason, FrameData};
use paper_experiments::panicker::Panicker;
use paper_experiments::registry::Registry;
use paper_experiments::transfer::{
    copy_buffer, copy_bytes, identity_decode, identity_encode, make_buffer_opaque, make_opaque,
    set_received_aside, take_received, TransferError,
};
use paper_experiments::utils::void_dropper;
use paper_experiments::y4m_loader::{LoaderStep, Y4MLoader};

fn buffer(frame: &mut FrameData, key: &str) -> Vec<u8> {
    let bytes = frame.extract_writable_buffer(key).unwrap();
    frame.insert_writable_buffer(key, bytes.clone());
    bytes
}

fn count(frame: &FrameData) -> usize {
    frame.get_writable_buffers_keys().len()
}

#[test]
fn the_countdown_expires_on_the_last_frame() {
    let mut panicker = Panicker::new(3);
    assert_eq!(panicker.remaining(), 3);
    assert!(!panicker.process());
    assert_eq!(panicker.remaining(), 2);
    assert!(!panicker.process());
    assert!(panicker.process());
    assert_eq!(panicker.remaining(), 0);
}

#[test]
fn a_countdown_of_one_expires_at_once() {
    let mut panicker = Panicker::new(1);
    assert!(panicker.process());
}

#[test]
fn the_longest_countdown_counts() {
    let mut panicker = Panicker::new(u64::MAX);
    assert!(!panicker.process());
    assert_eq!(panicker.remaining(), u64::MAX - 1);
}

#[test]
fn a_frame_without_buffers_leaks_nothing() {
    let alert = BufferLeakAlert::new();
    let mut frame = FrameData::new();
    frame.set("encoded_size", 4);
    assert_eq!(alert.process(&frame), None);
}

#[test]
fn buffers_left_in_a_frame_are_named() {
    let alert = BufferLeakAlert::new();
    let mut frame = FrameData::new();
    frame.insert_writable_buffer("raw_frame_buffer", vec![]);
    assert_eq!(alert.process(&frame), Some(vec!["raw_frame_buffer".to_string()]));
    frame.insert_writable_buffer("encoded_frame_buffer", vec![1]);
    let mut leaked = alert.process(&frame).unwrap();
    leaked.sort();
    assert_eq!(leaked, vec!["encoded_frame_buffer", "raw_frame_buffer"]);
    assert_eq!(count(&frame), 2);
}

#[test]
fn bytes_are_copied() {
    let mut destination = [0u8; 5];
    copy_bytes(&[1, 2, 3, 4, 5], &mut destination);
    assert_eq!(destination, [1, 2, 3, 4, 5]);
    let mut nothing: [u8; 0] = [];
    copy_bytes(&[], &mut nothing);
}

#[test]
fn a_buffer_is_copied_over_another() {
    let mut frame = FrameData::new();
    frame.insert_writable_buffer("from", vec![1, 2, 3]);
    frame.insert_writable_buffer("to", vec![9, 9, 9]);
    assert_eq!(copy_buffer(&mut frame, "from", "to"), Ok(3));
    assert_eq!(buffer(&mut frame, "from"), vec![1, 2, 3]);
    assert_eq!(buffer(&mut frame, "to"), vec![1, 2, 3]);
    assert_eq!(count(&frame), 2);
}

#[test]
fn a_copy_that_cannot_be_made_changes_nothing() {
    let mut frame = FrameData::new();
    frame.insert_writable_buffer("to", vec![9, 9]);
    assert_eq!(copy_buffer(&mut frame, "from", "to"), Err(TransferError::MissingSource));
    assert_eq!(copy_buffer(&mut frame, "to", "from"), Err(TransferError::MissingDestination));
    assert_eq!(copy_buffer(&mut frame, "to", "to"), Err(TransferError::MissingDestination));
    frame.insert_writable_buffer("from", vec![1, 2, 3]);
    assert_eq!(
        copy_buffer(&mut frame, "from", "to"),
        Err(TransferError::LengthMismatch { expected: 3, actual: 2 })
    );
    assert_eq!(buffer(&mut frame, "from"), vec![1, 2, 3]);
    assert_eq!(buffer(&mut frame, "to"), vec![9, 9]);
    assert_eq!(count(&frame), 2);
}

#[test]
fn the_encoder_that_encodes_nothing() {
    let mut frame = FrameData::new();
    frame.insert_writable_buffer("raw_frame_buffer", vec![5, 6, 7, 8]);
    frame.insert_writable_buffer("encoded_frame_buffer", vec![0; 4]);
    assert_eq!(identity_encode(&mut frame), Ok(()));
    assert_eq!(buffer(&mut frame, "encoded_frame_buffer"), vec![5, 6, 7, 8]);
    assert_eq!(buffer(&mut frame, "raw_frame_buffer"), vec![5, 6, 7, 8]);
    assert_eq!(frame.get_opt("encoded_size").unwrap(), 4);
}

#[test]
fn the_encoder_records_no_size_when_it_fails() {
    let mut frame = FrameData::new();
    frame.insert_writable_buffer("raw_frame_buffer", vec![5, 6, 7, 8]);
    assert_eq!(identity_encode(&mut frame), Err(TransferError::MissingDestination));
    frame.insert_writable_buffer("encoded_frame_buffer", vec![0; 5]);
    assert_eq!(
        identity_encode(&mut frame),
        Err(TransferError::LengthMismatch { expected: 4, actual: 5 })
    );
    assert!(!frame.has("encoded_size"));
    let mut empty = FrameData::new();
    assert_eq!(identity_encode(&mut empty), Err(TransferError::MissingSource));
}

#[test]
fn the_decoder_that_decodes_nothing() {
    let mut frame = FrameData::new();
    frame.insert_writable_buffer("raw_frame_buffer", vec![0; 3]);
    frame.insert_writable_buffer("encoded_frame_buffer", vec![1, 2, 3]);
    assert_eq!(identity_decode(&mut frame), Ok(()));
    assert_eq!(buffer(&mut frame, "raw_frame_buffer"), vec![1, 2, 3]);
    assert!(!frame.has("encoded_size"));
    frame.extract_writable_buffer("encoded_frame_buffer");
    assert_eq!(identity_decode(&mut frame), Err(TransferError::MissingSource));
    assert_eq!(buffer(&mut frame, "raw_frame_buffer"), vec![1, 2, 3]);
}

#[test]
fn a_frame_is_received_within_one_process() {
    let mut frame = FrameData::new();
    frame.insert_writable_buffer("encoded_frame_buffer", vec![1, 2, 3]);
    assert_eq!(set_received_aside(&mut frame), Ok(()));
    assert!(!frame.has_writable_buffer("encoded_frame_buffer"));
    assert_eq!(buffer(&mut frame, "received_encoded_frame_buffer"), vec![1, 2, 3]);
    // The receiving side borrows a buffer of its own.
    frame.insert_writable_buffer("encoded_frame_buffer", vec![0; 3]);
    assert_eq!(take_received(&mut frame), Ok(()));
    assert_eq!(buffer(&mut frame, "encoded_frame_buffer"), vec![1, 2, 3]);
    assert!(!frame.has_writable_buffer("received_encoded_frame_buffer"));
    assert_eq!(count(&frame), 1);
}

#[test]
fn a_reception_that_cannot_be_made_changes_nothing() {
    let mut frame = FrameData::new();
    assert_eq!(set_received_aside(&mut frame), Err(TransferError::MissingSource));
    assert_eq!(take_received(&mut frame), Err(TransferError::MissingSource));
    frame.insert_writable_buffer("received_encoded_frame_buffer", vec![1, 2]);
    assert_eq!(take_received(&mut frame), Err(TransferError::MissingDestination));
    frame.insert_writable_buffer("encoded_frame_buffer", vec![0]);
    assert_eq!(
        take_received(&mut frame),
        Err(TransferError::LengthMismatch { expected: 2, actual: 1 })
    );
    assert_eq!(buffer(&mut frame, "received_encoded_frame_buffer"), vec![1, 2]);
    assert_eq!(buffer(&mut frame, "encoded_frame_buffer"), vec![0]);
}

#[test]
fn every_fourth_byte_is_made_opaque() {
    let mut frame = vec![1u8, 2, 3, 4, 5, 6, 7, 8];
    make_opaque(&mut frame);
    assert_eq!(frame, vec![1, 2, 3, 255, 5, 6, 7, 255]);
    let mut ragged = vec![1u8, 2, 3, 4, 5, 6, 7];
    make_opaque(&mut ragged);
    assert_eq!(ragged, vec![1, 2, 3, 255, 5, 6, 7]);
    let mut short = vec![1u8, 2, 3];
    make_opaque(&mut short);
    assert_eq!(short, vec![1, 2, 3]);
    let mut empty: Vec<u8> = vec![];
    make_opaque(&mut empty);
}

#[test]
fn a_buffer_of_a_frame_is_made_opaque() {
    let mut frame = FrameData::new();
    frame.insert_writable_buffer("raw_frame_buffer", vec![0u8; 8]);
    frame.insert_writable_buffer("other", vec![0u8; 8]);
    assert!(make_buffer_opaque(&mut frame, "raw_frame_buffer"));
    assert!(!make_buffer_opaque(&mut frame, "absent"));
    assert_eq!(buffer(&mut frame, "raw_frame_buffer"), vec![0, 0, 0, 255, 0, 0, 0, 255]);
    assert_eq!(buffer(&mut frame, "other"), vec![0u8; 8]);
}

#[test]
fn a_source_without_a_limit_reads_on() {
    let mut loader = Y4MLoader::new("clip.y4m");
    assert_eq!(loader.file_path(), "clip.y4m");
    assert_eq!(loader.frames_given(), 0);
    assert_eq!(loader.next_step(), LoaderStep::ReadFrame);
    let mut frame = planes_frame();
    for given in 1..=5 {
        assert_eq!(loader.store_frame(&mut frame, &[1; 4], &[2], &[3]), Ok(()));
        assert_eq!(loader.frames_given(), given);
        assert_eq!(loader.next_step(), LoaderStep::ReadFrame);
    }
}

fn planes_frame() -> FrameData {
    let mut frame = FrameData::new();
    frame.insert_writable_buffer("y_channel_buffer", vec![0u8; 4]);
    frame.insert_writable_buffer("cb_channel_buffer", vec![0u8; 1]);
    frame.insert_writable_buffer("cr_channel_buffer", vec![0u8; 1]);
    frame
}

#[test]
fn a_source_ends_after_its_limit() {
    let mut loader = Y4MLoader::new("clip.y4m").stop_after(2);
    assert_eq!(loader.file_path(), "clip.y4m");
    let mut frame = planes_frame();
    assert_eq!(loader.next_step(), LoaderStep::ReadFrame);
    assert_eq!(loader.store_frame(&mut frame, &[1; 4], &[2], &[3]), Ok(()));
    assert_eq!(loader.next_step(), LoaderStep::ReadFrame);
    assert_eq!(loader.store_frame(&mut frame, &[1; 4], &[2], &[3]), Ok(()));
    assert_eq!(loader.next_step(), LoaderStep::Terminate);
    assert_eq!(loader.frames_given(), 2);
}

#[test]
fn a_limit_of_zero_ends_at_once() {
    assert_eq!(Y4MLoader::new("clip.y4m").stop_after(0).next_step(), LoaderStep::Terminate);
}

#[test]
fn the_planes_of_the_file_go_into_their_buffers() {
    let mut loader = Y4MLoader::new("clip.y4m");
    let mut frame = planes_frame();
    frame.insert_writable_buffer("raw_frame_buffer", vec![7u8; 16]);
    frame.set("capture_timestamp", 1);
    assert_eq!(loader.store_frame(&mut frame, &[1, 2, 3, 4], &[50], &[60]), Ok(()));
    assert_eq!(buffer(&mut frame, "y_channel_buffer"), vec![1, 2, 3, 4]);
    assert_eq!(buffer(&mut frame, "cb_channel_buffer"), vec![50]);
    assert_eq!(buffer(&mut frame, "cr_channel_buffer"), vec![60]);
    assert_eq!(buffer(&mut frame, "raw_frame_buffer"), vec![7u8; 16]);
    assert_eq!(frame.get_drop_reason(), None);
    assert_eq!(frame.get_opt("capture_timestamp").unwrap(), 1);
}

#[test]
fn planes_of_different_lengths_go_into_buffers_of_their_lengths() {
    let mut loader = Y4MLoader::new("clip.y4m");
    let mut frame = FrameData::new();
    frame.insert_writable_buffer("y_channel_buffer", vec![0u8; 4]);
    frame.insert_writable_buffer("cb_channel_buffer", vec![0u8; 2]);
    frame.insert_writable_buffer("cr_channel_buffer", vec![0u8; 3]);
    assert_eq!(loader.store_frame(&mut frame, &[1; 4], &[2, 3], &[4, 5, 6]), Ok(()));
    assert_eq!(buffer(&mut frame, "cb_channel_buffer"), vec![2, 3]);
    assert_eq!(buffer(&mut frame, "cr_channel_buffer"), vec![4, 5, 6]);
    assert_eq!(
        loader.store_frame(&mut frame, &[1; 4], &[4, 5, 6], &[2, 3]),
        Err(StageError::SizeMismatch(SizeMismatch {
            buffer: BufferKind::CbChannel,
            expected: 3,
            actual: 2
        }))
    );
    assert_eq!(loader.frames_given(), 1);
}

#[test]
fn a_frame_that_cannot_be_stored_is_not_counted() {
    let mut loader = Y4MLoader::new("clip.y4m");
    let mut frame = planes_frame();
    assert_eq!(
        loader.store_frame(&mut frame, &[1; 5], &[2], &[3]),
        Err(StageError::SizeMismatch(SizeMismatch {
            buffer: BufferKind::YChannel,
            expected: 5,
            actual: 4
        }))
    );
    assert_eq!(
        loader.store_frame(&mut frame, &[1; 4], &[2, 2], &[3]),
        Err(StageError::SizeMismatch(SizeMismatch {
            buffer: BufferKind::CbChannel,
            expected: 2,
            actual: 1
        }))
    );
    assert_eq!(
        loader.store_frame(&mut frame, &[1; 4], &[2], &[]),
        Err(StageError::SizeMismatch(SizeMismatch {
            buffer: BufferKind::CrChannel,
            expected: 0,
            actual: 1
        }))
    );
    assert_eq!(buffer(&mut frame, "y_channel_buffer"), vec![0u8; 4]);
    assert_eq!(buffer(&mut frame, "cb_channel_buffer"), vec![0u8; 1]);
    frame.extract_writable_buffer("cb_channel_buffer");
    assert_eq!(
        loader.store_frame(&mut frame, &[1; 4], &[2], &[3]),
        Err(StageError::MissingBuffer(BufferKind::CbChannel))
    );
    frame.insert_writable_buffer("cb_channel_buffer", vec![0u8; 1]);
    frame.extract_writable_buffer("cr_channel_buffer");
    assert_eq!(
        loader.store_frame(&mut frame, &[1; 4], &[2], &[3]),
        Err(StageError::MissingBuffer(BufferKind::CrChannel))
    );
    assert_eq!(buffer(&mut frame, "y_channel_buffer"), vec![0u8; 4]);
    assert_eq!(buffer(&mut frame, "cb_channel_buffer"), vec![0u8; 1]);
    frame.extract_writable_buffer("y_channel_buffer");
    assert_eq!(
        loader.store_frame(&mut frame, &[1; 4], &[2], &[3]),
        Err(StageError::MissingBuffer(BufferKind::YChannel))
    );
    assert_eq!(buffer(&mut frame, "cb_channel_buffer"), vec![0u8; 1]);
    assert_eq!(loader.frames_given(), 0);
    assert_eq!(count(&frame), 1);
}

#[test]
fn the_end_of_the_file_marks_the_frame_as_empty() {
    let loader = Y4MLoader::new("clip.y4m");
    let mut frame = planes_frame();
    loader.end_of_stream(&mut frame);
    assert_eq!(frame.get_drop_reason(), Some(DropReason::EmptyFrame));
    assert_eq!(count(&frame), 3);
    assert_eq!(loader.frames_given(), 0);
}

#[test]
fn a_frame_with_a_reason_to_be_dropped_is_dropped() {
    assert!(void_dropper(None));
    assert!(!void_dropper(Some(DropReason::EmptyFrame)));
    assert!(!void_dropper(Some(DropReason::StaleFrame)));
    assert!(!void_dropper(Some(DropReason::CodecError)));
    let mut frame = FrameData::new();
    assert!(void_dropper(frame.get_drop_reason()));
    Y4MLoader::new("clip.y4m").end_of_stream(&mut frame);
    assert!(!void_dropper(frame.get_drop_reason()));
}

#[test]
fn a_table_files_values_under_names() {
    let mut table: Registry<u32> = Registry::new();
    assert!(table.is_empty());
    table.insert("encoding", 1);
    table.insert("decoding", 2);
    table.insert("encoding", 3);
    assert!(!table.is_empty());
    assert!(table.contains("decoding"));
    assert!(!table.contains("decode_error"));
    assert_eq!(table.get("encoding"), Some(&3));
    assert_eq!(table.get("decode_error"), None);
    let mut names = table.names();
    names.sort();
    assert_eq!(names, vec!["decoding", "encoding"]);
    assert_eq!(table.remove("encoding"), Some(3));
    assert_eq!(table.remove("encoding"), None);
    assert_eq!(table.names(), vec!["decoding"]);
}

#[test]
fn a_value_of_a_table_is_changed_in_place() {
    let mut table: Registry<Vec<u8>> = Registry::new();
    table.insert("a", vec![1]);
    table.insert("b", vec![2]);
    table.insert("c", vec![3]);
    table.get_mut("b").unwrap().push(20);
    *table.get_mut("c").unwrap() = vec![];
    assert!(table.get_mut("d").is_none());
    assert_eq!(table.get("a"), Some(&vec![1]));
    assert_eq!(table.get("b"), Some(&vec![2, 20]));
    assert_eq!(table.get("c"), Some(&vec![]));
    assert_eq!(table.names().len(), 3);
}
