use ocr_intake::framing::{FrameReader, ReaderPhase, END_SEARCH_LIMIT};

fn frame(payload: &[u8]) -> Vec<u8> {
    let mut bytes = b"IMGSTART".to_vec();
    bytes.extend_from_slice(&(payload.len() as u32).to_le_bytes());
    bytes.extend_from_slice(payload);
    bytes.extend_from_slice(b"IMGEND");
    bytes
}

#[test]
fn bare_frame_yields_its_payload() {
    let mut reader = FrameReader::new();
    let frames = reader.feed(&frame(&[1, 2, 3, 4, 5]));
    assert_eq!(frames, vec![vec![1u8, 2, 3, 4, 5]]);
    assert_eq!(reader.phase(), ReaderPhase::SeekStart);
}

#[test]
fn wire_format_is_sentinel_length_payload_sentinel() {
    let stream: Vec<u8> = vec![
        0x49, 0x4D, 0x47, 0x53, 0x54, 0x41, 0x52, 0x54, // IMGSTART
        0x03, 0x00, 0x00, 0x00, // length 3, little endian
        0xAA, 0xBB, 0xCC, // payload
        0x49, 0x4D, 0x47, 0x45, 0x4E, 0x44, // IMGEND
    ];
    let mut reader = FrameReader::new();
    assert_eq!(reader.feed(&stream), vec![vec![0xAAu8, 0xBB, 0xCC]]);
}

#[test]
fn reader_resynchronizes_after_noise() {
    let mut stream = vec![0u8, 255, 17, 73, 77, 9];
    stream.extend_from_slice(&frame(b"picture"));
    let mut reader = FrameReader::new();
    assert_eq!(reader.feed(&stream), vec![b"picture".to_vec()]);
}

#[test]
fn noise_that_ends_in_a_partial_sentinel_is_skipped() {
    let mut stream = b"IMGSTAR".to_vec();
    stream.extend_from_slice(&frame(b"x"));
    let mut reader = FrameReader::new();
    assert_eq!(reader.feed(&stream), vec![b"x".to_vec()]);
}

#[test]
fn length_field_is_little_endian() {
    let payload: Vec<u8> = (0..258u32).map(|i| (i % 251) as u8).collect();
    let stream = frame(&payload);
    assert_eq!(&stream[8..12], &[2u8, 1, 0, 0]);
    let mut reader = FrameReader::new();
    assert_eq!(reader.feed(&stream), vec![payload]);
}

#[test]
fn empty_payload_is_a_frame() {
    let mut reader = FrameReader::new();
    assert_eq!(reader.feed(&frame(&[])), vec![Vec::<u8>::new()]);
}

#[test]
fn frames_in_sequence_come_out_in_order() {
    let mut stream = frame(b"first");
    stream.extend_from_slice(b"between frames");
    stream.extend_from_slice(&frame(b"second"));
    stream.extend_from_slice(&frame(b"third"));
    let mut reader = FrameReader::new();
    assert_eq!(
        reader.feed(&stream),
        vec![b"first".to_vec(), b"second".to_vec(), b"third".to_vec()]
    );
}

#[test]
fn payload_may_hold_the_sentinels() {
    let payload = b"IMGENDIMGSTART".to_vec();
    let mut reader = FrameReader::new();
    assert_eq!(reader.feed(&frame(&payload)), vec![payload]);
}

#[test]
fn bytes_between_payload_and_end_sentinel_are_passed_over() {
    let mut stream = b"IMGSTART".to_vec();
    stream.extend_from_slice(&[2, 0, 0, 0, 7, 8]);
    stream.extend_from_slice(b"IMGEN?junk");
    stream.extend_from_slice(b"IMGEND");
    let mut reader = FrameReader::new();
    assert_eq!(reader.feed(&stream), vec![vec![7u8, 8]]);
}

#[test]
fn frame_is_not_yielded_before_its_last_byte() {
    let stream = frame(b"abc");
    let mut reader = FrameReader::new();
    for byte in &stream[..stream.len() - 1] {
        assert_eq!(reader.push(*byte), None);
    }
    assert_eq!(reader.phase(), ReaderPhase::SeekEnd);
    assert_eq!(reader.push(stream[stream.len() - 1]), Some(b"abc".to_vec()));
    assert_eq!(reader.phase(), ReaderPhase::SeekStart);
}

#[test]
fn feed_in_pieces_equals_feed_at_once() {
    let mut stream = vec![1u8, 2, 3];
    stream.extend_from_slice(&frame(b"hello"));
    stream.extend_from_slice(&frame(b"world"));
    for cut in 0..stream.len() {
        let mut reader = FrameReader::new();
        let mut frames = reader.feed(&stream[..cut]);
        frames.extend(reader.feed(&stream[cut..]));
        assert_eq!(frames, vec![b"hello".to_vec(), b"world".to_vec()]);
    }
}

#[test]
fn bytes_wanted_follows_the_frame_layout() {
    let mut reader = FrameReader::new();
    assert_eq!(reader.bytes_wanted(), 1);
    reader.feed(b"IMGSTART");
    assert_eq!(reader.phase(), ReaderPhase::Length);
    assert_eq!(reader.bytes_wanted(), 4);
    reader.feed(&[10]);
    assert_eq!(reader.bytes_wanted(), 3);
    reader.feed(&[0, 0, 0]);
    assert_eq!(reader.phase(), ReaderPhase::Payload);
    assert_eq!(reader.bytes_wanted(), 10);
    reader.feed(&[9, 9, 9, 9]);
    assert_eq!(reader.bytes_wanted(), 6);
    reader.feed(&[9, 9, 9, 9, 9, 9]);
    assert_eq!(reader.phase(), ReaderPhase::SeekEnd);
    assert_eq!(reader.bytes_wanted(), 1);
}

#[test]
fn reset_gives_up_a_partial_frame() {
    let mut reader = FrameReader::new();
    let partial = frame(b"lost on the way");
    assert!(reader.feed(&partial[..15]).is_empty());
    assert_eq!(reader.phase(), ReaderPhase::Payload);
    reader.reset();
    assert_eq!(reader.phase(), ReaderPhase::SeekStart);
    assert_eq!(reader.feed(&frame(b"next")), vec![b"next".to_vec()]);
}

#[test]
fn without_reset_a_partial_frame_swallows_what_follows() {
    let mut reader = FrameReader::new();
    let partial = frame(&[5u8; 40]);
    assert!(reader.feed(&partial[..20]).is_empty());
    let next = frame(b"ab");
    assert!(reader.feed(&next).is_empty());
}

fn unclosed(payload: &[u8], junk: usize) -> Vec<u8> {
    let mut bytes = b"IMGSTART".to_vec();
    bytes.extend_from_slice(&(payload.len() as u32).to_le_bytes());
    bytes.extend_from_slice(payload);
    bytes.extend(std::iter::repeat(0x55u8).take(junk));
    bytes
}

#[test]
fn end_sentinel_is_looked_for_within_sixty_four_bytes() {
    assert_eq!(END_SEARCH_LIMIT, 64);
}

#[test]
fn payload_not_closed_within_the_bound_is_dropped() {
    let mut reader = FrameReader::new();
    assert!(reader.feed(&unclosed(b"lost", 63)).is_empty());
    assert!(!reader.is_desynced());
    assert_eq!(reader.phase(), ReaderPhase::SeekEnd);
    assert_eq!(reader.push(0x55), None);
    assert!(reader.is_desynced());
    assert_eq!(reader.phase(), ReaderPhase::Desynced);
    assert!(reader.feed(b"IMGEND").is_empty());
    assert!(reader.is_desynced());
}

#[test]
fn reader_out_of_step_yields_nothing_until_reset() {
    let mut reader = FrameReader::new();
    reader.feed(&unclosed(b"lost", 64));
    assert!(reader.is_desynced());
    assert!(reader.feed(&frame(b"ignored")).is_empty());
    assert!(reader.is_desynced());
    assert_eq!(reader.bytes_wanted(), 1);
    reader.reset();
    assert!(!reader.is_desynced());
    assert_eq!(reader.feed(&frame(b"taken")), vec![b"taken".to_vec()]);
}

#[test]
fn end_sentinel_that_ends_at_the_bound_is_found() {
    let mut stream = unclosed(b"kept", 58);
    stream.extend_from_slice(b"IMGEND");
    let mut reader = FrameReader::new();
    assert_eq!(reader.feed(&stream), vec![b"kept".to_vec()]);
    assert!(!reader.is_desynced());
}

#[test]
fn end_sentinel_that_ends_past_the_bound_is_not_found() {
    let mut stream = unclosed(b"late", 59);
    stream.extend_from_slice(b"IMGEND");
    let mut reader = FrameReader::new();
    assert!(reader.feed(&stream).is_empty());
    assert!(reader.is_desynced());
}

#[test]
fn bound_counts_from_the_end_of_each_payload() {
    let mut stream = unclosed(b"one", 50);
    stream.extend_from_slice(b"IMGEND");
    stream.extend_from_slice(&unclosed(b"two", 50));
    stream.extend_from_slice(b"IMGEND");
    let mut reader = FrameReader::new();
    assert_eq!(reader.feed(&stream), vec![b"one".to_vec(), b"two".to_vec()]);
}
