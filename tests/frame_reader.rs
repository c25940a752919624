use bubble_codec::frame_reader::{BubFrame, BubFrameReader};
use bubble_codec::metadata::{BubSampleKind, BubbleMetadata, LpcmKind};
use bubble_codec::{BubError, BubState, Crc};
use BubState::{Body, Ended, Head, Stopped};

fn stream_metadata(
    lpcm_kind: LpcmKind,
    bub_sample_kind: BubSampleKind,
    name: &str,
    next_head: u64,
) -> BubbleMetadata {
    BubbleMetadata {
        spec_version: 0,
        bub_id: 0,
        bub_version: 0,
        frames: 8,
        samples_per_sec: 96000.0f64.to_bits(),
        lpcm_kind,
        bub_sample_kind,
        name: String::from(name),
        bub_state: BubState::Stopped,
        head_absolute_frame: 0,
        bub_functions: Vec::new(),
        foot_absolute_frame_plus_one: 0,
        next_head_absolute_frame: Some(next_head),
        crc: Crc::new(),
    }
}

fn lpcm_stream() -> Vec<u8> {
    [
        // Frame 1
        &15u16.to_le_bytes()[..],
        b"1 2 3 X<3 0.1*N",
        &2u64.to_le_bytes(),
        &3u64.to_le_bytes(),
        &1.0f32.to_le_bytes(),
        // Frame 2
        &1.0f32.to_le_bytes(),
        &[253, 24, 123, 85],
        // Frame 3
        &11u16.to_le_bytes()[..],
        b"1 2 3 X<3 1",
        &1u64.to_le_bytes(),
        &3u64.to_le_bytes(),
        &0.3f32.to_le_bytes(),
        &[250, 147, 10, 142],
        // Frame 5
        &12u16.to_le_bytes()[..],
        b"0 0 0 0==0 1",
        &1u64.to_le_bytes(),
        &2u64.to_le_bytes(),
        &0.4f32.to_le_bytes(),
        &[84, 232, 255, 6],
        // Frame 6
        &13u16.to_le_bytes()[..],
        b"0 0 n X>=3 -z",
        &1u64.to_le_bytes(),
        &0u64.to_le_bytes(),
        &1.0f32.to_le_bytes(),
        &[227, 183, 22, 42],
    ]
    .concat()
}

fn lpcm_reader(data: Vec<u8>) -> BubFrameReader {
    let mut metadata = stream_metadata(LpcmKind::F32LE, BubSampleKind::Lpcm, "0.1*N", 1);
    let mut skip: Vec<u8> = Vec::new();
    metadata.write(&mut skip).unwrap();
    BubFrameReader::new(data, metadata)
}

fn lpcm(x: f32) -> BubFrame {
    BubFrame::Lpcm(x.to_bits() as u64)
}

#[test]
fn read_lpcm_frames() {
    let mut bub_frame_reader = lpcm_reader(lpcm_stream());
    let expects = vec![
        (Head, lpcm(1.0), &b"1 2 3 X<3 0.1*N"[..]),
        (Body, lpcm(1.0), &b"1 2 3 X<3 0.1*N"[..]),
        (Head, lpcm(0.3), &b"1 2 3 X<3 1"[..]),
        (Stopped, BubFrame::Silence, &b"1 2 3 X<3 1"[..]),
        (Head, lpcm(0.4), &b"0 0 0 0==0 1"[..]),
        (Head, lpcm(1.0), &b"0 0 n X>=3 -z"[..]),
        (Ended, BubFrame::Silence, &b"0 0 n X>=3 -z"[..]),
        (Ended, BubFrame::Silence, &b"0 0 n X>=3 -z"[..]),
    ];
    for expect in expects {
        let frame = bub_frame_reader.next().unwrap().unwrap();
        assert_eq!(bub_frame_reader.metadata.bub_state, expect.0);
        assert_eq!(frame, expect.1);
        assert_eq!(&bub_frame_reader.metadata.bub_functions[..], expect.2);
    }
    assert!(bub_frame_reader.next().is_none());
}

fn expr_stream() -> Vec<u8> {
    [
        // Frame 2
        &14u16.to_le_bytes()[..],
        b"1 2 3 Z==1 0.1",
        &1u64.to_le_bytes(),
        &3u64.to_le_bytes(),
        &1u16.to_le_bytes(),
        b"1",
        &[17, 247, 225, 70],
        // Frame 4
        &12u16.to_le_bytes()[..],
        b"1 2 3 Z==1 1",
        &2u64.to_le_bytes(),
        &3u64.to_le_bytes(),
        &3u16.to_le_bytes(),
        b"1/n",
        &[48, 94, 190, 151],
        // Frame 6
        &11u16.to_le_bytes()[..],
        b"1 2 3 Z<1 n",
        &1u64.to_le_bytes(),
        &0u64.to_le_bytes(),
        &3u16.to_le_bytes(),
        b"0.1",
        &[248, 137, 58, 64],
    ]
    .concat()
}

fn expr_reader(data: Vec<u8>) -> BubFrameReader {
    let mut metadata = stream_metadata(
        LpcmKind::F64LE,
        BubSampleKind::default_expr(),
        "Expression",
        2,
    );
    let mut skip: Vec<u8> = Vec::new();
    metadata.write(&mut skip).unwrap();
    BubFrameReader::new(data, metadata)
}

fn expr_source(reader: &BubFrameReader) -> Vec<u8> {
    match &reader.metadata.bub_sample_kind {
        BubSampleKind::Expr(source) => source.clone(),
        BubSampleKind::Lpcm => panic!("expected an expression stream"),
    }
}

#[test]
fn read_expr_frames() {
    let mut bub_frame_reader = expr_reader(expr_stream());
    let expects = vec![
        (Stopped, BubFrame::Silence, &b"0"[..]),
        (Head, BubFrame::Expr, &b"1"[..]),
        (Stopped, BubFrame::Silence, &b"1"[..]),
        (Head, BubFrame::Expr, &b"1/n"[..]),
        (Body, BubFrame::Expr, &b"1/n"[..]),
        (Head, BubFrame::Expr, &b"0.1"[..]),
        (Ended, BubFrame::Silence, &b"0.1"[..]),
        (Ended, BubFrame::Silence, &b"0.1"[..]),
    ];
    for expect in expects {
        let frame = bub_frame_reader.next().unwrap().unwrap();
        assert_eq!(bub_frame_reader.metadata.bub_state, expect.0);
        assert_eq!(frame, expect.1);
        assert_eq!(&expr_source(&bub_frame_reader)[..], expect.2);
    }
}

#[test]
fn segment_positions_follow_headers() {
    let mut reader = expr_reader(expr_stream());
    reader.next().unwrap().unwrap();
    reader.next().unwrap().unwrap();
    assert_eq!(reader.metadata.head_absolute_frame, 2);
    assert_eq!(reader.metadata.foot_absolute_frame_plus_one, 3);
    assert_eq!(reader.metadata.next_head_absolute_frame, Some(4));
    reader.next().unwrap().unwrap();
    reader.next().unwrap().unwrap();
    assert_eq!(reader.metadata.head_absolute_frame, 4);
    assert_eq!(reader.metadata.foot_absolute_frame_plus_one, 6);
    assert_eq!(reader.metadata.next_head_absolute_frame, Some(6));
}

#[test]
fn yields_frames_then_none_forever() {
    let mut reader = expr_reader(expr_stream());
    let mut produced = 0;
    while let Some(frame) = reader.next() {
        assert!(frame.is_ok());
        produced += 1;
    }
    assert_eq!(produced, 8);
    assert_eq!(reader.pos, 8);
    for _ in 0..3 {
        assert!(reader.next().is_none());
    }
    assert_eq!(reader.pos, 8);
}

#[test]
fn silent_states_give_silence() {
    let mut reader = lpcm_reader(lpcm_stream());
    while let Some(frame) = reader.next() {
        let frame = frame.unwrap();
        let state = reader.metadata.bub_state;
        if state.is_stopped() || state.is_ended() {
            assert_eq!(frame, BubFrame::Silence);
        } else {
            assert_ne!(frame, BubFrame::Silence);
        }
    }
}

#[test]
fn corrupted_trailer_gives_crc_mismatch() {
    let mut data = lpcm_stream();
    // The first trailer sits after the first segment's header and two samples.
    let trailer = 2 + 15 + 16 + 4 + 4;
    data[trailer] ^= 0x01;
    let mut reader = lpcm_reader(data);
    assert!(reader.next().unwrap().is_ok());
    assert_eq!(reader.next().unwrap(), Err(BubError::CrcMismatch));
}

#[test]
fn corrupted_expression_trailer_gives_crc_mismatch() {
    let mut data = expr_stream();
    let trailer = 2 + 14 + 16 + 2 + 1;
    data[trailer + 3] ^= 0x80;
    let mut reader = expr_reader(data);
    assert!(reader.next().unwrap().is_ok());
    assert_eq!(reader.next().unwrap(), Err(BubError::CrcMismatch));
}

#[test]
fn corrupted_payload_gives_crc_mismatch() {
    let mut data = lpcm_stream();
    data[2 + 15 + 16] ^= 0x10;
    let mut reader = lpcm_reader(data);
    assert!(reader.next().unwrap().is_ok());
    assert_eq!(reader.next().unwrap(), Err(BubError::CrcMismatch));
}

#[test]
fn short_stream_gives_unexpected_eof() {
    let data = lpcm_stream();
    let mut reader = lpcm_reader(data[..10].to_vec());
    assert_eq!(reader.next().unwrap(), Err(BubError::UnexpectedEof));
    let mut reader = lpcm_reader(data[..2 + 15 + 16 + 2].to_vec());
    assert_eq!(reader.next().unwrap(), Err(BubError::UnexpectedEof));
}

#[test]
fn empty_segment_is_invalid() {
    let data = [
        &12u16.to_le_bytes()[..],
        b"0 0 0 0==0 1",
        &0u64.to_le_bytes(),
        &0u64.to_le_bytes(),
        &1.0f32.to_le_bytes(),
    ]
    .concat();
    let mut reader = lpcm_reader(data);
    assert_eq!(reader.next().unwrap(), Err(BubError::InvalidData));
}

#[test]
fn next_head_past_the_last_frame_number_is_invalid() {
    let data = [
        &12u16.to_le_bytes()[..],
        b"0 0 0 0==0 1",
        &1u64.to_le_bytes(),
        &u64::MAX.to_le_bytes(),
        &1.0f32.to_le_bytes(),
    ]
    .concat();
    let mut metadata = stream_metadata(LpcmKind::F32LE, BubSampleKind::Lpcm, "x", 2);
    metadata.bub_state = BubState::Stopped;
    let mut reader = BubFrameReader::new(data, metadata);
    assert_eq!(reader.next().unwrap(), Ok(BubFrame::Silence));
    assert_eq!(reader.next().unwrap(), Err(BubError::InvalidData));
}

#[test]
fn f64_samples_are_read_eight_bytes_wide() {
    let mut metadata = stream_metadata(LpcmKind::F64LE, BubSampleKind::Lpcm, "wide", 1);
    let mut header: Vec<u8> = Vec::new();
    metadata.write(&mut header).unwrap();
    let mut segment = [
        &12u16.to_le_bytes()[..],
        b"0 0 0 0==0 1",
        &1u64.to_le_bytes(),
        &0u64.to_le_bytes(),
        &0.25f64.to_le_bytes(),
    ]
    .concat();
    let mut crc = metadata.crc;
    crc.calc_bytes(&segment);
    segment.extend_from_slice(&crc.finalize_to_endian_bytes());
    let mut reader = BubFrameReader::new(segment, metadata);
    assert_eq!(reader.next().unwrap(), Ok(BubFrame::Lpcm(0.25f64.to_bits())));
    assert_eq!(reader.metadata.bub_state, BubState::Head);
    assert_eq!(reader.next().unwrap(), Ok(BubFrame::Silence));
    assert_eq!(reader.metadata.bub_state, BubState::Ended);
}

#[test]
fn malformed_functions_are_invalid() {
    let data = [
        &9u16.to_le_bytes()[..],
        b"1 2 3 X<3",
        &1u64.to_le_bytes(),
        &0u64.to_le_bytes(),
        &1.0f32.to_le_bytes(),
    ]
    .concat();
    let mut reader = lpcm_reader(data);
    assert_eq!(reader.next().unwrap(), Err(BubError::InvalidData));
}

#[test]
fn malformed_expression_is_invalid() {
    let mut metadata = stream_metadata(
        LpcmKind::F64LE,
        BubSampleKind::default_expr(),
        "Expression",
        1,
    );
    let mut skip: Vec<u8> = Vec::new();
    metadata.write(&mut skip).unwrap();
    let mut data = [
        &12u16.to_le_bytes()[..],
        b"0 0 0 0==0 1",
        &1u64.to_le_bytes(),
        &0u64.to_le_bytes(),
        &2u16.to_le_bytes(),
        b"1+",
    ]
    .concat();
    let mut crc = metadata.crc;
    crc.calc_bytes(&data);
    data.extend_from_slice(&crc.finalize_to_endian_bytes());
    let mut reader = BubFrameReader::new(data, metadata);
    assert_eq!(reader.next().unwrap(), Err(BubError::InvalidData));
}

#[test]
fn parsed_trees_follow_the_segments() {
    let mut reader = expr_reader(expr_stream());
    assert!(reader.expr.is_some());
    assert!(reader.functions.is_empty());
    reader.next().unwrap().unwrap();
    reader.next().unwrap().unwrap();
    assert_eq!(reader.functions.len(), 1);
    assert!(matches!(reader.expr, Some(bubble_codec::functions::Expr::Num(ref d)) if d == b"1"));
    reader.next().unwrap().unwrap();
    reader.next().unwrap().unwrap();
    assert!(matches!(reader.expr, Some(bubble_codec::functions::Expr::Bin(..))));
}
