//! The RIFF/WAVE header fields that the codec's output is written with, and a
//! writer of interleaved sample frames.
use vstd::bytes::{
    spec_u16_from_le_bytes, spec_u32_from_le_bytes, spec_u64_to_le_bytes, u16_from_le_bytes,
    u32_from_le_bytes, u64_to_le_bytes,
};
use vstd::prelude::*;
use vstd::slice::slice_subrange;

verus! {

/// Why a WAV header could not be read or a frame not written.
#[derive(Clone, Copy, Debug, PartialEq, Eq, Structural)]
pub enum WavError {
    /// The source ended inside a chunk.
    UnexpectedEof,
    /// A field does not hold what the format requires.
    InvalidData,
}

/// The `wFormatTag` of a WAV `fmt ` chunk.
#[derive(Clone, Copy, Debug, PartialEq, Eq, Structural)]
pub enum FormatTag {
    UncompressedPCM,
    IEEEFloatingPoint,
    Other(u16),
}

/// The tag value of a format.
pub open spec fn format_tag_value(tag: FormatTag) -> u16 {
    match tag {
        FormatTag::UncompressedPCM => 1,
        FormatTag::IEEEFloatingPoint => 3,
        FormatTag::Other(n) => n,
    }
}

/// The format of a tag value.
pub open spec fn format_tag_of(n: u16) -> FormatTag {
    if n == 1 {
        FormatTag::UncompressedPCM
    } else if n == 3 {
        FormatTag::IEEEFloatingPoint
    } else {
        FormatTag::Other(n)
    }
}

impl From<FormatTag> for u16 {
    fn from(format_tag: FormatTag) -> (r: u16) {
        match format_tag {
            FormatTag::UncompressedPCM => 1,
            FormatTag::IEEEFloatingPoint => 3,
            FormatTag::Other(n) => n,
        }
    }
}

impl vstd::std_specs::convert::FromSpecImpl<FormatTag> for u16 {
    open spec fn obeys_from_spec() -> bool {
        true
    }

    open spec fn from_spec(v: FormatTag) -> u16 {
        format_tag_value(v)
    }
}

impl From<u16> for FormatTag {
    fn from(n: u16) -> (r: FormatTag) {
        match n {
            1 => FormatTag::UncompressedPCM,
            3 => FormatTag::IEEEFloatingPoint,
            _ => FormatTag::Other(n),
        }
    }
}

impl vstd::std_specs::convert::FromSpecImpl<u16> for FormatTag {
    open spec fn obeys_from_spec() -> bool {
        true
    }

    open spec fn from_spec(n: u16) -> FormatTag {
        format_tag_of(n)
    }
}

/// The fields of a WAV header.
#[derive(Clone, Copy, Debug, PartialEq, Eq, Structural)]
pub struct WavMetadata {
    /// Number of sample frames.
    pub frames: u32,
    /// Sample format.
    pub format_tag: FormatTag,
    /// Number of channels.
    pub channels: u16,
    /// Sample frames per second.
    pub samples_per_sec: u32,
    /// Bits of one sample.
    pub bits_per_sample: u16,
}

/// Bytes of one sample frame of `channels` samples of `bits_per_sample` bits.
pub open spec fn frame_bytes(channels: u16, bits_per_sample: u16) -> int {
    (channels * bits_per_sample) / 8
}

impl WavMetadata {
    /// Whether the derived sizes of the header fit their fields.
    pub open spec fn sizes_fit(&self) -> bool {
        &&& (self.bits_per_sample / 8) * self.channels <= u16::MAX
        &&& self.samples_per_sec * ((self.bits_per_sample / 8) * self.channels) <= u32::MAX
    }

    /// Number of sample frames in a data chunk of `data_size` bytes.
    pub fn calculate_frames(data_size: u32, channels: u16, bits_per_sample: u16) -> (r: u32)
        requires
            channels * bits_per_sample <= u16::MAX,
            frame_bytes(channels, bits_per_sample) > 0,
        ensures
            r == data_size as int / frame_bytes(channels, bits_per_sample),
    {
        let block = (channels * bits_per_sample / 8) as u32;
        data_size / block
    }

    pub fn frames(&self) -> (r: u32)
        ensures
            r == self.frames,
    {
        self.frames
    }

    pub fn format_tag(&self) -> (r: FormatTag)
        ensures
            r == self.format_tag,
    {
        self.format_tag
    }

    pub fn channels(&self) -> (r: u16)
        ensures
            r == self.channels,
    {
        self.channels
    }

    pub fn samples_per_sec(&self) -> (r: u32)
        ensures
            r == self.samples_per_sec,
    {
        self.samples_per_sec
    }

    pub fn bits_per_sample(&self) -> (r: u16)
        ensures
            r == self.bits_per_sample,
    {
        self.bits_per_sample
    }

    /// Bytes of one sample.
    pub fn bytes_per_sample(&self) -> (r: u16)
        ensures
            r == self.bits_per_sample / 8,
    {
        self.bits_per_sample / 8
    }

    /// Bytes of one sample frame.
    pub fn block_align(&self) -> (r: u16)
        requires
            (self.bits_per_sample / 8) * self.channels <= u16::MAX,
        ensures
            r == (self.bits_per_sample / 8) * self.channels,
    {
        self.bytes_per_sample() * self.channels()
    }

    /// Bytes of one second of sample frames.
    pub fn avg_bytes_per_sec(&self) -> (r: u32)
        requires
            self.sizes_fit(),
        ensures
            r == self.samples_per_sec * ((self.bits_per_sample / 8) * self.channels),
    {
        self.samples_per_sec() * self.block_align() as u32
    }

    /// `InvalidData` unless the field read, `val`, is the one expected.
    pub fn return_invalid_data_if_not_equal(val: u32, expect: u32) -> (r: Result<(), WavError>)
        ensures
            r is Ok <==> val == expect,
            r matches Err(e) ==> e == WavError::InvalidData,
    {
        if val != expect {
            return Err(WavError::InvalidData);
        }
        Ok(())
    }
}

/// The little-endian `u16` at `at` of `d`.
pub open spec fn le_u16_at(d: Seq<u8>, at: int) -> u16 {
    spec_u16_from_le_bytes(d.subrange(at, at + 2))
}

/// The little-endian `u32` at `at` of `d`.
pub open spec fn le_u32_at(d: Seq<u8>, at: int) -> u32 {
    spec_u32_from_le_bytes(d.subrange(at, at + 4))
}

/// Chunk identifier `RIFF`.
pub open spec fn riff_id() -> Seq<u8> {
    seq![0x52u8, 0x49u8, 0x46u8, 0x46u8]
}

/// Form type `WAVE`.
pub open spec fn wave_id() -> Seq<u8> {
    seq![0x57u8, 0x41u8, 0x56u8, 0x45u8]
}

/// Chunk identifier `fmt `.
pub open spec fn fmt_id() -> Seq<u8> {
    seq![0x66u8, 0x6du8, 0x74u8, 0x20u8]
}

/// Chunk identifier `data`.
pub open spec fn data_id() -> Seq<u8> {
    seq![0x64u8, 0x61u8, 0x74u8, 0x61u8]
}

/// The fields of a `fmt ` chunk as they stand in the file.
#[derive(Clone, Copy, Debug, PartialEq, Eq, Structural)]
pub struct WavFmt {
    pub format_tag: u16,
    pub channels: u16,
    pub samples_per_sec: u32,
    pub avg_bytes_per_sec: u32,
    pub block_align: u16,
    pub bits_per_sample: u16,
}

/// The fields of the `fmt ` chunk body at `at` of `d`.
pub open spec fn fmt_at(d: Seq<u8>, at: int) -> WavFmt {
    WavFmt {
        format_tag: le_u16_at(d, at),
        channels: le_u16_at(d, at + 2),
        samples_per_sec: le_u32_at(d, at + 4),
        avg_bytes_per_sec: le_u32_at(d, at + 8),
        block_align: le_u16_at(d, at + 12),
        bits_per_sample: le_u16_at(d, at + 14),
    }
}

/// The header described by `fmt` and a data chunk of `data_size` bytes, or
/// `InvalidData` where the sizes are empty, do not fit, or disagree with the
/// ones the chunk states.
pub open spec fn wav_from_fmt(fmt: WavFmt, data_size: u32) -> Result<WavMetadata, WavError> {
    if fmt.channels * fmt.bits_per_sample > u16::MAX || frame_bytes(
        fmt.channels,
        fmt.bits_per_sample,
    ) == 0 {
        Err(WavError::InvalidData)
    } else {
        let m = WavMetadata {
            frames: (data_size as int / frame_bytes(fmt.channels, fmt.bits_per_sample)) as u32,
            format_tag: format_tag_of(fmt.format_tag),
            channels: fmt.channels,
            samples_per_sec: fmt.samples_per_sec,
            bits_per_sample: fmt.bits_per_sample,
        };
        if !m.sizes_fit() {
            Err(WavError::InvalidData)
        } else if fmt.avg_bytes_per_sec != m.samples_per_sec * ((m.bits_per_sample / 8)
            * m.channels) {
            Err(WavError::InvalidData)
        } else if fmt.block_align != (m.bits_per_sample / 8) * m.channels {
            Err(WavError::InvalidData)
        } else {
            Ok(m)
        }
    }
}

/// The header found by walking the chunks from `at` to the `data` chunk,
/// skipping every other chunk, once the `fmt ` chunk gave `fmt`.
pub open spec fn wav_data_search(d: Seq<u8>, at: int, fmt: WavFmt) -> Result<WavMetadata, WavError>
    decreases d.len() - at,
{
    if at < 0 || at + 8 > d.len() {
        Err(WavError::UnexpectedEof)
    } else if d.subrange(at, at + 4) == data_id() {
        wav_from_fmt(fmt, le_u32_at(d, at + 4))
    } else if at + 8 + le_u32_at(d, at + 4) > d.len() {
        Err(WavError::UnexpectedEof)
    } else {
        wav_data_search(d, at + 8 + le_u32_at(d, at + 4), fmt)
    }
}

/// The header found by walking the chunks from `at` to the `fmt ` chunk,
/// skipping every other chunk, and then on to the `data` chunk.
pub open spec fn wav_fmt_search(d: Seq<u8>, at: int) -> Result<WavMetadata, WavError>
    decreases d.len() - at,
{
    if at < 0 || at + 8 > d.len() {
        Err(WavError::UnexpectedEof)
    } else if d.subrange(at, at + 4) == fmt_id() {
        if le_u32_at(d, at + 4) != 16 {
            Err(WavError::InvalidData)
        } else if at + 24 > d.len() {
            Err(WavError::UnexpectedEof)
        } else {
            wav_data_search(d, at + 24, fmt_at(d, at + 8))
        }
    } else if at + 8 + le_u32_at(d, at + 4) > d.len() {
        Err(WavError::UnexpectedEof)
    } else {
        wav_fmt_search(d, at + 8 + le_u32_at(d, at + 4))
    }
}

/// The header of the WAV file `d`.
pub open spec fn wav_header(d: Seq<u8>) -> Result<WavMetadata, WavError> {
    if d.len() < 4 {
        Err(WavError::UnexpectedEof)
    } else if d.subrange(0, 4) != riff_id() {
        Err(WavError::InvalidData)
    } else if d.len() < 12 {
        Err(WavError::UnexpectedEof)
    } else if d.subrange(8, 12) != wave_id() {
        Err(WavError::InvalidData)
    } else {
        wav_fmt_search(d, 12)
    }
}

/// Whether the four bytes at `at` of `data` are `id`.
fn id_at(data: &[u8], at: usize, id: [u8; 4]) -> (r: bool)
    requires
        at + 4 <= data@.len(),
    ensures
        r == (data@.subrange(at as int, at + 4) == id@),
{
    let r = data[at] == id[0] && data[at + 1] == id[1] && data[at + 2] == id[2] && data[at + 3]
        == id[3];
    proof {
        if r {
            assert(data@.subrange(at as int, at + 4) =~= id@);
        } else if data@.subrange(at as int, at + 4) == id@ {
            assert(data@.subrange(at as int, at + 4)[0] == id@[0]);
            assert(data@.subrange(at as int, at + 4)[1] == id@[1]);
            assert(data@.subrange(at as int, at + 4)[2] == id@[2]);
            assert(data@.subrange(at as int, at + 4)[3] == id@[3]);
        }
    }
    r
}

/// The little-endian `u16` at `at` of `data`.
fn read_u16(data: &[u8], at: usize) -> (r: u16)
    requires
        at + 2 <= data@.len(),
    ensures
        r == le_u16_at(data@, at as int),
{
    let len = data.len();
    assert(at + 2 <= len);
    u16_from_le_bytes(slice_subrange(data, at, at + 2))
}

/// The little-endian `u32` at `at` of `data`.
fn read_u32(data: &[u8], at: usize) -> (r: u32)
    requires
        at + 4 <= data@.len(),
    ensures
        r == le_u32_at(data@, at as int),
{
    let len = data.len();
    assert(at + 4 <= len);
    u32_from_le_bytes(slice_subrange(data, at, at + 4))
}

impl WavMetadata {
    /// The header described by `fmt` and a data chunk of `data_size` bytes.
    fn from_fmt(fmt: WavFmt, data_size: u32) -> (r: Result<WavMetadata, WavError>)
        ensures
            r == wav_from_fmt(fmt, data_size),
    {
        assert(fmt.channels as u32 * fmt.bits_per_sample as u32 <= 0xffff * 0xffff) by (nonlinear_arith);
        if fmt.channels as u32 * fmt.bits_per_sample as u32 > u16::MAX as u32 {
            return Err(WavError::InvalidData);
        }
        if fmt.channels * fmt.bits_per_sample / 8 == 0 {
            return Err(WavError::InvalidData);
        }
        let frames = Self::calculate_frames(data_size, fmt.channels, fmt.bits_per_sample);
        let m = WavMetadata {
            frames,
            format_tag: FormatTag::from(fmt.format_tag),
            channels: fmt.channels,
            samples_per_sec: fmt.samples_per_sec,
            bits_per_sample: fmt.bits_per_sample,
        };
        let bytes_per_sample = m.bytes_per_sample() as u32;
        assert(bytes_per_sample * m.channels as u32 <= 0xffff * 0xffff) by (nonlinear_arith)
            requires
                bytes_per_sample <= 0xffff,
        ;
        if bytes_per_sample * m.channels as u32 > u16::MAX as u32 {
            return Err(WavError::InvalidData);
        }
        let block_align = m.block_align();
        assert(m.samples_per_sec as u64 * block_align as u64 <= 0xffff_ffff * 0xffff) by (nonlinear_arith);
        if m.samples_per_sec as u64 * block_align as u64 > u32::MAX as u64 {
            return Err(WavError::InvalidData);
        }
        match Self::return_invalid_data_if_not_equal(fmt.avg_bytes_per_sec, m.avg_bytes_per_sec()) {
            Ok(()) => {},
            Err(e) => return Err(e),
        }
        match Self::return_invalid_data_if_not_equal(fmt.block_align as u32, block_align as u32) {
            Ok(()) => {},
            Err(e) => return Err(e),
        }
        Ok(m)
    }

    /// Reads the header of the WAV file `data`: the `RIFF`/`WAVE` preamble,
    /// the `fmt ` chunk and the size of the `data` chunk, skipping any other
    /// chunk on the way.
    pub fn read(data: &[u8]) -> (r: Result<WavMetadata, WavError>)
        ensures
            r == wav_header(data@),
    {
        let ghost d = data@;
        let riff: [u8; 4] = [0x52, 0x49, 0x46, 0x46];
        let wave: [u8; 4] = [0x57, 0x41, 0x56, 0x45];
        let fmt_tag: [u8; 4] = [0x66, 0x6d, 0x74, 0x20];
        let data_tag: [u8; 4] = [0x64, 0x61, 0x74, 0x61];
        assert(riff@ =~= riff_id());
        assert(wave@ =~= wave_id());
        assert(fmt_tag@ =~= fmt_id());
        assert(data_tag@ =~= data_id());
        if data.len() < 4 {
            return Err(WavError::UnexpectedEof);
        }
        if !id_at(data, 0, riff) {
            return Err(WavError::InvalidData);
        }
        if data.len() < 12 {
            return Err(WavError::UnexpectedEof);
        }
        if !id_at(data, 8, wave) {
            return Err(WavError::InvalidData);
        }
        let mut at: usize = 12;
        loop
            invariant
                d == data@,
                fmt_tag@ == fmt_id(),
                data_tag@ == data_id(),
                wav_fmt_search(d, at as int) == wav_header(d),
            decreases d.len() - at,
        {
            if at > data.len() || data.len() - at < 8 {
                return Err(WavError::UnexpectedEof);
            }
            let size = read_u32(data, at + 4);
            if id_at(data, at, fmt_tag) {
                if size != 16 {
                    return Err(WavError::InvalidData);
                }
                if data.len() - at < 24 {
                    return Err(WavError::UnexpectedEof);
                }
                let fmt = WavFmt {
                    format_tag: read_u16(data, at + 8),
                    channels: read_u16(data, at + 10),
                    samples_per_sec: read_u32(data, at + 12),
                    avg_bytes_per_sec: read_u32(data, at + 16),
                    block_align: read_u16(data, at + 20),
                    bits_per_sample: read_u16(data, at + 22),
                };
                assert(fmt == fmt_at(d, at + 8));
                return Self::read_data_chunk(data, at + 24, fmt, data_tag);
            }
            if size as usize > data.len() - at - 8 {
                return Err(WavError::UnexpectedEof);
            }
            at = at + 8 + size as usize;
        }
    }

    /// Walks the chunks from `at` to the `data` chunk and builds the header.
    fn read_data_chunk(data: &[u8], start: usize, fmt: WavFmt, data_tag: [u8; 4]) -> (r: Result<
        WavMetadata,
        WavError,
    >)
        requires
            data_tag@ == data_id(),
        ensures
            r == wav_data_search(data@, start as int, fmt),
    {
        let mut at = start;
        loop
            invariant
                data_tag@ == data_id(),
                wav_data_search(data@, at as int, fmt) == wav_data_search(data@, start as int, fmt),
            decreases data@.len() - at,
        {
            if at > data.len() || data.len() - at < 8 {
                return Err(WavError::UnexpectedEof);
            }
            let size = read_u32(data, at + 4);
            if id_at(data, at, data_tag) {
                return Self::from_fmt(fmt, size);
            }
            if size as usize > data.len() - at - 8 {
                return Err(WavError::UnexpectedEof);
            }
            at = at + 8 + size as usize;
        }
    }
}

/// The bytes of one sample given as the bit pattern `bits`, `width` bytes
/// wide, little-endian.
pub open spec fn sample_encoding(bits: u64, width: nat) -> Seq<u8> {
    spec_u64_to_le_bytes(bits).subrange(0, width as int)
}

/// The bytes of the samples `samples`, one after the other.
pub open spec fn samples_encoding(samples: Seq<u64>, width: nat) -> Seq<u8>
    decreases samples.len(),
{
    if samples.len() == 0 {
        Seq::empty()
    } else {
        samples_encoding(samples.drop_last(), width) + sample_encoding(samples.last(), width)
    }
}

/// Writer of the sample frames of a WAV data chunk into a byte buffer.
pub struct WavFrameWriter {
    /// The bytes written so far.
    pub inner: Vec<u8>,
    /// The header the frames follow.
    pub metadata: WavMetadata,
    /// Number of frames written so far.
    pub pos: u32,
}

impl WavFrameWriter {
    /// A writer that appends to `inner`, with no frame written yet.
    pub fn new(inner: Vec<u8>, metadata: WavMetadata) -> (r: WavFrameWriter)
        ensures
            r.inner == inner,
            r.metadata == metadata,
            r.pos == 0,
    {
        let pos: u32 = 0;
        WavFrameWriter { inner, metadata, pos }
    }

    /// A byte buffer needs no flushing; this always succeeds.
    pub fn flush(&mut self) -> (r: Result<(), WavError>)
        ensures
            r is Ok,
            *final(self) == *old(self),
    {
        Ok(())
    }

    pub fn get_ref(&self) -> (r: &Vec<u8>)
        ensures
            *r == self.inner,
    {
        &self.inner
    }

    pub fn get_mut(&mut self) -> (r: &mut Vec<u8>)
        ensures
            *r == old(self).inner,
            *final(self) == (WavFrameWriter { inner: *final(r), ..*old(self) }),
    {
        &mut self.inner
    }

    pub fn into_inner(self) -> (r: Vec<u8>)
        ensures
            r == self.inner,
    {
        self.inner
    }

    /// Appends one frame, given as the bit patterns of its samples, each
    /// written `bytes_per_sample` bytes wide. A frame whose length is not the
    /// channel count, a frame past the header's frame count, or samples wider
    /// than eight bytes are refused.
    pub fn write_wav_frame(&mut self, wav_frame: Vec<u64>) -> (r: Result<(), WavError>)
        ensures
            ({
                let width = (old(self).metadata.bits_per_sample / 8) as nat;
                &&& r is Ok <==> {
                    &&& wav_frame@.len() == old(self).metadata.channels
                    &&& old(self).pos < old(self).metadata.frames
                    &&& width <= 8
                }
                &&& r matches Err(e) ==> e == WavError::InvalidData && *final(self) == *old(self)
                &&& r is Ok ==> *final(self) == (WavFrameWriter {
                    inner: final(self).inner,
                    pos: (old(self).pos + 1) as u32,
                    ..*old(self)
                }) && final(self).inner@ == old(self).inner@ + samples_encoding(wav_frame@, width)
            }),
    {
        if wav_frame.len() != self.metadata.channels() as usize {
            return Err(WavError::InvalidData);
        }
        if self.metadata.frames() <= self.pos {
            return Err(WavError::InvalidData);
        }
        let width = self.metadata.bytes_per_sample() as usize;
        if width > 8 {
            return Err(WavError::InvalidData);
        }
        self.pos = self.pos + 1;
        let ghost start = self.inner@;
        let mut i: usize = 0;
        while i < wav_frame.len()
            invariant
                i <= wav_frame@.len(),
                width <= 8,
                width == (self.metadata.bits_per_sample / 8) as nat,
                self.metadata == old(self).metadata,
                self.pos == old(self).pos + 1,
                self.inner@ == start + samples_encoding(wav_frame@.take(i as int), width as nat),
            decreases wav_frame@.len() - i,
        {
            let bytes = u64_to_le_bytes(wav_frame[i]);
            proof {
                vstd::bytes::lemma_auto_spec_u64_to_from_le_bytes();
            }
            let sample = slice_subrange(bytes.as_slice(), 0, width);
            self.inner.extend_from_slice(sample);
            proof {
                let t = wav_frame@.take(i + 1);
                assert(t.drop_last() =~= wav_frame@.take(i as int));
                assert(t.last() == wav_frame@[i as int]);
            }
            i = i + 1;
        }
        assert(wav_frame@.take(wav_frame@.len() as int) =~= wav_frame@);
        Ok(())
    }
}

} // verus!
