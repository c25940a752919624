use bubble_codec::wav::{FormatTag, WavError, WavFrameWriter, WavMetadata};

fn mono_f32(frames: u32) -> WavMetadata {
    WavMetadata {
        frames,
        format_tag: FormatTag::IEEEFloatingPoint,
        channels: 1,
        samples_per_sec: 44100,
        bits_per_sample: 32,
    }
}

#[test]
fn write() {
    let data: Vec<u8> = Vec::new();
    let metadata = mono_f32(2);
    let mut wav_frame_writer = WavFrameWriter::new(data, metadata);

    wav_frame_writer.write_wav_frame(vec![1.0f32.to_bits() as u64]).unwrap();
    wav_frame_writer.write_wav_frame(vec![0.0f32.to_bits() as u64]).unwrap();

    assert_eq!(wav_frame_writer.get_ref(), &[0, 0, 0x80, 0x3F, 0, 0, 0, 0]);
    assert!(wav_frame_writer.write_wav_frame(vec![0.0f32.to_bits() as u64]).is_err());
    assert!(wav_frame_writer.write_wav_frame(vec![0.0f32.to_bits() as u64]).is_err());
}

#[test]
fn metadata() {
    let format_tag = FormatTag::IEEEFloatingPoint;
    let frames = 0;
    let samples_per_sec = 44100;
    let bits_per_sample = 32;

    let metadata = WavMetadata {
        frames,
        format_tag,
        channels: 1,
        samples_per_sec,
        bits_per_sample,
    };
    assert_eq!(metadata.format_tag(), FormatTag::IEEEFloatingPoint);
    assert_eq!(metadata.channels(), 1);
    assert_eq!(metadata.samples_per_sec(), 44100);
    assert_eq!(metadata.avg_bytes_per_sec(), 176400);
    assert_eq!(metadata.block_align(), 4);
    assert_eq!(metadata.bits_per_sample(), 32);
    assert_eq!(metadata.bytes_per_sample(), 4);

    let metadata = WavMetadata {
        frames,
        format_tag,
        channels: 2,
        samples_per_sec,
        bits_per_sample,
    };
    assert_eq!(metadata.format_tag(), FormatTag::IEEEFloatingPoint);
    assert_eq!(metadata.channels(), 2);
    assert_eq!(metadata.samples_per_sec(), 44100);
    assert_eq!(metadata.avg_bytes_per_sec(), 352800);
    assert_eq!(metadata.block_align(), 8);
    assert_eq!(metadata.bits_per_sample(), 32);
    assert_eq!(metadata.bytes_per_sample(), 4);
}

#[test]
fn writer_refuses_wrong_channel_count() {
    let mut writer = WavFrameWriter::new(Vec::new(), mono_f32(4));
    assert_eq!(writer.write_wav_frame(vec![1, 2]), Err(WavError::InvalidData));
    assert_eq!(writer.pos, 0);
    assert!(writer.get_ref().is_empty());
    assert_eq!(writer.flush(), Ok(()));
}

#[test]
fn writer_uses_the_sample_width() {
    let metadata = WavMetadata {
        frames: 1,
        format_tag: FormatTag::UncompressedPCM,
        channels: 2,
        samples_per_sec: 8000,
        bits_per_sample: 16,
    };
    let mut writer = WavFrameWriter::new(vec![9], metadata);
    writer.write_wav_frame(vec![0x1234, 0xfffe]).unwrap();
    assert_eq!(writer.into_inner(), vec![9, 0x34, 0x12, 0xfe, 0xff]);
}

#[test]
fn frame_count_formula() {
    assert_eq!(WavMetadata::calculate_frames(176400, 2, 32), 22050);
    assert_eq!(WavMetadata::calculate_frames(10, 1, 16), 5);
    assert_eq!(WavMetadata::calculate_frames(11, 1, 16), 5);
}

#[test]
fn format_tags_convert_both_ways() {
    assert_eq!(FormatTag::from(1u16), FormatTag::UncompressedPCM);
    assert_eq!(FormatTag::from(3u16), FormatTag::IEEEFloatingPoint);
    assert_eq!(FormatTag::from(65534u16), FormatTag::Other(65534));
    assert_eq!(u16::from(FormatTag::IEEEFloatingPoint), 3);
    assert_eq!(u16::from(FormatTag::Other(7)), 7);
}

#[test]
fn invalid_data_check() {
    assert_eq!(WavMetadata::return_invalid_data_if_not_equal(4, 4), Ok(()));
    assert_eq!(
        WavMetadata::return_invalid_data_if_not_equal(4, 5),
        Err(WavError::InvalidData)
    );
}

fn wav_file(extra_chunk: bool, avg: u32) -> Vec<u8> {
    let mut v = Vec::new();
    v.extend_from_slice(b"RIFF");
    v.extend_from_slice(&0u32.to_le_bytes());
    v.extend_from_slice(b"WAVE");
    if extra_chunk {
        v.extend_from_slice(b"LIST");
        v.extend_from_slice(&3u32.to_le_bytes());
        v.extend_from_slice(&[1, 2, 3]);
    }
    v.extend_from_slice(b"fmt ");
    v.extend_from_slice(&16u32.to_le_bytes());
    v.extend_from_slice(&3u16.to_le_bytes());
    v.extend_from_slice(&2u16.to_le_bytes());
    v.extend_from_slice(&44100u32.to_le_bytes());
    v.extend_from_slice(&avg.to_le_bytes());
    v.extend_from_slice(&8u16.to_le_bytes());
    v.extend_from_slice(&32u16.to_le_bytes());
    if extra_chunk {
        v.extend_from_slice(b"fact");
        v.extend_from_slice(&4u32.to_le_bytes());
        v.extend_from_slice(&[0, 0, 0, 0]);
    }
    v.extend_from_slice(b"data");
    v.extend_from_slice(&80u32.to_le_bytes());
    v
}

#[test]
fn reads_wav_header() {
    let expected = WavMetadata {
        frames: 10,
        format_tag: FormatTag::IEEEFloatingPoint,
        channels: 2,
        samples_per_sec: 44100,
        bits_per_sample: 32,
    };
    assert_eq!(WavMetadata::read(&wav_file(false, 352800)), Ok(expected));
    assert_eq!(WavMetadata::read(&wav_file(true, 352800)), Ok(expected));
}

#[test]
fn wav_header_errors() {
    assert_eq!(WavMetadata::read(&wav_file(false, 352801)), Err(WavError::InvalidData));
    let file = wav_file(true, 352800);
    assert_eq!(WavMetadata::read(&file[..file.len() - 2]), Err(WavError::UnexpectedEof));
    let mut not_riff = file.clone();
    not_riff[0] = b'X';
    assert_eq!(WavMetadata::read(&not_riff), Err(WavError::InvalidData));
    assert_eq!(WavMetadata::read(b"RIF"), Err(WavError::UnexpectedEof));
}
