use stt_service::frame::{encode_frame, FrameProgress, FrameReader, FrameStage};

const MAGIC: [u8; 4] = [0x53, 0x54, 0x54, 0x53];

/// Hands a reader the bytes it wants, piece by piece, until a frame ends.
fn read_one(reader: &mut FrameReader, bytes: &[u8]) -> (FrameProgress, usize) {
    let mut at = 0;
    loop {
        let wanted = reader.wanted() as usize;
        let progress = reader.accept(bytes[at..at + wanted].to_vec());
        at += wanted;
        match progress {
            FrameProgress::More => {}
            done => return (done, at),
        }
    }
}

#[test]
fn frame_is_magic_length_payload() {
    assert_eq!(
        encode_frame(&[1, 2, 3, 4], &[9, 8]),
        vec![1, 2, 3, 4, 0, 0, 0, 0, 0, 0, 0, 2, 9, 8]
    );
}

#[test]
fn empty_payload_has_length_zero() {
    assert_eq!(
        encode_frame(&MAGIC, &[]),
        vec![0x53, 0x54, 0x54, 0x53, 0, 0, 0, 0, 0, 0, 0, 0]
    );
}

#[test]
fn length_is_big_endian() {
    let bytes = encode_frame(&MAGIC, &vec![7; 0x0102]);
    assert_eq!(bytes[4..12], [0, 0, 0, 0, 0, 0, 1, 2]);
    assert_eq!(bytes.len(), 12 + 0x0102);
}

#[test]
fn length_is_read_big_endian() {
    let mut reader = FrameReader {
        magic: MAGIC,
        stage: FrameStage::Length,
    };
    assert!(matches!(
        reader.accept(vec![1, 2, 3, 4, 5, 6, 7, 8]),
        FrameProgress::More
    ));
    assert_eq!(
        reader.stage,
        FrameStage::Payload {
            len: 0x0102_0304_0506_0708
        }
    );
    assert_eq!(reader.wanted(), 0x0102_0304_0506_0708);
}

#[test]
fn frame_is_read_back_with_what_follows() {
    let mut bytes = encode_frame(&MAGIC, &[1, 2, 3]);
    bytes.extend(encode_frame(&MAGIC, &[4]));
    let mut reader = FrameReader::new(MAGIC);
    let (first, used) = read_one(&mut reader, &bytes);
    assert!(matches!(first, FrameProgress::Frame(payload) if payload == [1, 2, 3]));
    assert_eq!(used, 15);
    let (second, _) = read_one(&mut reader, &bytes[used..]);
    assert!(matches!(second, FrameProgress::Frame(payload) if payload == [4]));
}

#[test]
fn empty_frame_is_read_back() {
    let mut reader = FrameReader::new(MAGIC);
    let (progress, used) = read_one(&mut reader, &encode_frame(&MAGIC, &[]));
    assert!(matches!(progress, FrameProgress::Frame(payload) if payload.is_empty()));
    assert_eq!(used, 12);
}

#[test]
fn reader_asks_for_one_three_eight_and_the_payload() {
    let mut reader = FrameReader::new(MAGIC);
    assert_eq!(reader.wanted(), 1);
    reader.accept(vec![0x53]);
    assert_eq!(reader.wanted(), 3);
    reader.accept(vec![0x54, 0x54, 0x53]);
    assert_eq!(reader.wanted(), 8);
    reader.accept(vec![0, 0, 0, 0, 0, 0, 0, 5]);
    assert_eq!(reader.wanted(), 5);
}

#[test]
fn foreign_magic_is_refused_and_named() {
    for wrong in [
        [0x52, 0x54, 0x54, 0x53],
        [0x53, 0x55, 0x54, 0x53],
        [0x53, 0x54, 0x00, 0x53],
        [0x53, 0x54, 0x54, 0xff],
    ] {
        let mut reader = FrameReader::new(MAGIC);
        reader.accept(vec![wrong[0]]);
        let progress = reader.accept(wrong[1..].to_vec());
        assert!(matches!(progress, FrameProgress::InvalidMagic(found) if found == wrong));
        assert_eq!(reader.stage, FrameStage::Start);
    }
}
