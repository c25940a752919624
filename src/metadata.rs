//! The stream-wide header of a bubble stream and the per-frame state it carries.
use crate::crc::{crc_error_free, crc_feed, crc_trailer, Crc, CRC_INIT};
use vstd::string::StrSliceExecFns;
use crate::bytes::take;
use crate::error::BubError;
use crate::state::{boundary_state, next_state, BubState};
use vstd::bytes::{
    spec_u128_from_le_bytes, spec_u128_to_le_bytes, spec_u16_from_le_bytes, spec_u16_to_le_bytes,
    spec_u64_from_le_bytes, spec_u64_to_le_bytes, u128_from_le_bytes, u16_from_le_bytes,
    u16_to_le_bytes, u128_to_le_bytes, u64_from_le_bytes, u64_to_le_bytes,
};
use vstd::prelude::*;
use vstd::slice::{slice_subrange, slice_to_vec};
use vstd::utf8::{decode_utf8, encode_utf8, valid_utf8};

verus! {

/// Width of the PCM samples of a stream.
#[derive(Clone, Copy, Debug, PartialEq, Eq, Hash, Structural)]
pub enum LpcmKind {
    /// 32-bit IEEE float, little-endian.
    F32LE,
    /// 64-bit IEEE float, little-endian.
    F64LE,
}

impl LpcmKind {
    /// The header tag of the kind.
    pub open spec fn spec_to_u8(self) -> u8 {
        match self {
            LpcmKind::F32LE => 0,
            LpcmKind::F64LE => 1,
        }
    }

    /// Number of bytes of one sample.
    pub open spec fn spec_bytes(self) -> nat {
        match self {
            LpcmKind::F32LE => 4,
            LpcmKind::F64LE => 8,
        }
    }

    pub fn to_u8(&self) -> (r: u8)
        ensures
            r == self.spec_to_u8(),
    {
        match self {
            LpcmKind::F32LE => 0,
            LpcmKind::F64LE => 1,
        }
    }

    /// The kind with header tag `value`, if any.
    pub fn from_u8(value: u8) -> (r: Option<LpcmKind>)
        ensures
            value <= 1 <==> r is Some,
            r matches Some(k) ==> k.spec_to_u8() == value,
    {
        match value {
            0 => Some(LpcmKind::F32LE),
            1 => Some(LpcmKind::F64LE),
            _ => None,
        }
    }

    /// Number of bytes of one sample.
    pub fn bytes(&self) -> (r: usize)
        ensures
            r == self.spec_bytes(),
    {
        match self {
            LpcmKind::F32LE => 4,
            LpcmKind::F64LE => 8,
        }
    }
}

/// What the segments of a stream carry: PCM samples, or an expression
/// evaluated for every frame, held as its source text.
#[derive(Clone, Debug, PartialEq)]
pub enum BubSampleKind {
    Lpcm,
    Expr(Vec<u8>),
}

impl View for BubSampleKind {
    /// `None` for PCM, the expression's source for an expression.
    type V = Option<Seq<u8>>;

    open spec fn view(&self) -> Option<Seq<u8>> {
        match self {
            BubSampleKind::Lpcm => None,
            BubSampleKind::Expr(src) => Some(src@),
        }
    }
}

/// Source of the expression that a stream header announces before any segment
/// has supplied one: the constant zero.
pub open spec fn default_expr_source() -> Seq<u8> {
    seq![0x30u8]
}

/// The sample kind that header tag `tag` stands for.
pub open spec fn sample_kind_of_tag(tag: u8) -> Option<Seq<u8>> {
    if tag == 0 {
        None
    } else {
        Some(default_expr_source())
    }
}

impl BubSampleKind {
    /// The expression kind holding the constant zero.
    pub fn default_expr() -> (r: BubSampleKind)
        ensures
            r@ == Some(default_expr_source()),
    {
        let r = BubSampleKind::Expr(vec![0x30u8]);
        assert(r@ =~= Some(default_expr_source()));
        r
    }

    /// The header tag of the kind.
    pub open spec fn spec_to_u8(&self) -> u8 {
        match self {
            BubSampleKind::Lpcm => 0,
            BubSampleKind::Expr(_) => 1,
        }
    }

    pub fn to_u8(&self) -> (r: u8)
        ensures
            r == self.spec_to_u8(),
    {
        match self {
            BubSampleKind::Lpcm => 0,
            BubSampleKind::Expr(_) => 1,
        }
    }

    /// The kind with header tag `value`; tags other than 0 and 1 are refused.
    pub fn from_u8(value: u8) -> (r: Result<BubSampleKind, BubError>)
        ensures
            value <= 1 <==> r is Ok,
            r matches Ok(k) ==> k@ == sample_kind_of_tag(value),
            r matches Err(e) ==> e == BubError::InvalidData,
    {
        match value {
            0 => Ok(BubSampleKind::Lpcm),
            1 => Ok(BubSampleKind::default_expr()),
            _ => Err(BubError::InvalidData),
        }
    }

    /// Reads the kind's tag at `*at` of `data`.
    pub fn read(data: &[u8], at: &mut usize) -> (r: Result<BubSampleKind, BubError>)
        requires
            *old(at) <= data@.len(),
        ensures
            *old(at) == data@.len() ==> r == Err::<BubSampleKind, BubError>(
                BubError::UnexpectedEof,
            ) && *final(at) == *old(at),
            *old(at) < data@.len() ==> {
                &&& (data@[*old(at) as int] <= 1 <==> r is Ok)
                &&& (r matches Ok(k) ==> k@ == sample_kind_of_tag(data@[*old(at) as int]))
                &&& (r matches Err(e) ==> e == BubError::InvalidData)
                &&& *final(at) == *old(at) + 1
            },
    {
        if *at >= data.len() {
            return Err(BubError::UnexpectedEof);
        }
        let tag = data[*at];
        *at = *at + 1;
        BubSampleKind::from_u8(tag)
    }

    /// Reads the kind's tag at `*at` of `data`, feeding it to `crc`.
    pub fn read_and_calc_bytes(data: &[u8], at: &mut usize, crc: &mut Crc) -> (r: Result<
        BubSampleKind,
        BubError,
    >)
        requires
            *old(at) <= data@.len(),
        ensures
            *old(at) == data@.len() ==> r == Err::<BubSampleKind, BubError>(
                BubError::UnexpectedEof,
            ) && *final(at) == *old(at) && *final(crc) == *old(crc),
            *old(at) < data@.len() ==> {
                &&& (data@[*old(at) as int] <= 1 <==> r is Ok)
                &&& (r matches Ok(k) ==> k@ == sample_kind_of_tag(data@[*old(at) as int]))
                &&& (r matches Err(e) ==> e == BubError::InvalidData)
                &&& *final(at) == *old(at) + 1
                &&& final(crc).value == crc_feed(old(crc).value, seq![data@[*old(at) as int]])
            },
    {
        let start = *at;
        let r = BubSampleKind::read(data, at);
        if start < data.len() {
            let tag = slice_subrange(data, start, start + 1);
            assert(tag@ =~= seq![data@[start as int]]);
            crc.calc_bytes(tag);
        }
        r
    }

    /// Appends the kind's tag to `out`, feeding it to `crc`.
    pub fn write_and_calc_bytes(&self, out: &mut Vec<u8>, crc: &mut Crc)
        ensures
            final(out)@ == old(out)@.push(self.spec_to_u8()),
            final(crc).value == crc_feed(old(crc).value, seq![self.spec_to_u8()]),
    {
        let tag = [self.to_u8()];
        assert(tag@ =~= seq![self.spec_to_u8()]);
        crc.calc_bytes(&tag);
        out.push(tag[0]);
    }

    /// Appends the kind's tag to `out`.
    pub fn write(&self, out: &mut Vec<u8>)
        ensures
            final(out)@ == old(out)@.push(self.spec_to_u8()),
    {
        out.push(self.to_u8());
    }
}

/// The fields of a stream header as they stand in the file.
pub struct HeaderView {
    pub spec_version: u8,
    pub bub_id: u128,
    pub bub_version: u16,
    pub frames: u64,
    pub next_head_absolute_frame: Option<u64>,
    pub samples_per_sec: u64,
    pub lpcm_kind: LpcmKind,
    pub bub_sample_kind: Option<Seq<u8>>,
    pub name: Seq<char>,
}

/// The relative form of the next head as the stream header stores it
/// (frame positions count from 1, so the absolute frame is its own relative).
pub open spec fn next_head_relative(next_head: Option<u64>) -> u64 {
    match next_head {
        Some(n) => n,
        None => 0,
    }
}

/// The absolute next head stored as `relative` in a header read at frame
/// `pos`; 0 stands for none.
pub open spec fn next_head_from_relative(relative: u64, pos: u64) -> Option<u64> {
    if relative == 0 {
        None
    } else {
        Some((relative + pos - 1) as u64)
    }
}

/// The header tag of a sample kind.
pub open spec fn sample_kind_tag(kind: Option<Seq<u8>>) -> u8 {
    if kind is None {
        0
    } else {
        1
    }
}

/// The bytes of a stream header, without its CRC trailer.
pub open spec fn encode_header(h: HeaderView) -> Seq<u8> {
    seq![h.spec_version] + spec_u128_to_le_bytes(h.bub_id) + spec_u16_to_le_bytes(h.bub_version)
        + spec_u64_to_le_bytes(h.frames) + spec_u64_to_le_bytes(
        next_head_relative(h.next_head_absolute_frame),
    ) + spec_u64_to_le_bytes(h.samples_per_sec) + seq![
        h.lpcm_kind.spec_to_u8(),
        sample_kind_tag(h.bub_sample_kind),
        encode_utf8(h.name).len() as u8,
    ] + encode_utf8(h.name)
}

/// Size of the name of the header at the start of `d`.
pub open spec fn name_size(d: Seq<u8>) -> int {
    d[45] as int
}

/// Length of the header at the start of `d`, without its trailer.
pub open spec fn header_len(d: Seq<u8>) -> int {
    46 + name_size(d)
}

/// The error met when reading a stream header from the start of `d`, if any;
/// fields are read in order and the first failure is the one reported.
pub open spec fn header_error(d: Seq<u8>) -> Option<BubError> {
    if d.len() < 44 {
        Some(BubError::UnexpectedEof)
    } else if d[43] > 1 {
        Some(BubError::InvalidData)
    } else if d.len() < 45 {
        Some(BubError::UnexpectedEof)
    } else if d[44] > 1 {
        Some(BubError::InvalidData)
    } else if d.len() < 46 || d.len() < header_len(d) {
        Some(BubError::UnexpectedEof)
    } else if !valid_utf8(d.subrange(46, header_len(d))) {
        Some(BubError::InvalidData)
    } else if d.len() < header_len(d) + 4 {
        Some(BubError::UnexpectedEof)
    } else if !crc_error_free(
        crc_feed(
            crc_feed(CRC_INIT, d.subrange(0, header_len(d))),
            d.subrange(header_len(d), header_len(d) + 4),
        ),
    ) {
        Some(BubError::CrcMismatch)
    } else {
        None
    }
}

/// The fields of the header at the start of `d`.
pub open spec fn decode_header(d: Seq<u8>) -> HeaderView {
    HeaderView {
        spec_version: d[0],
        bub_id: spec_u128_from_le_bytes(d.subrange(1, 17)),
        bub_version: spec_u16_from_le_bytes(d.subrange(17, 19)),
        frames: spec_u64_from_le_bytes(d.subrange(19, 27)),
        next_head_absolute_frame: next_head_from_relative(
            spec_u64_from_le_bytes(d.subrange(27, 35)),
            1,
        ),
        samples_per_sec: spec_u64_from_le_bytes(d.subrange(35, 43)),
        lpcm_kind: if d[43] == 0 {
            LpcmKind::F32LE
        } else {
            LpcmKind::F64LE
        },
        bub_sample_kind: sample_kind_of_tag(d[44]),
        name: decode_utf8(d.subrange(46, header_len(d))),
    }
}

/// Relies on std's `String::from_utf8`: it accepts exactly the valid UTF-8
/// sequences and then holds the text they encode.
#[verifier::external_body]
fn string_from_utf8(bytes: Vec<u8>) -> (r: Option<String>)
    ensures
        r is Some <==> valid_utf8(bytes@),
        r matches Some(s) ==> s@ == decode_utf8(bytes@),
{
    String::from_utf8(bytes).ok()
}

/// The stream-wide header of a bubble stream, with the decode state that
/// advances frame by frame.
#[derive(Clone, Debug, PartialEq)]
pub struct BubbleMetadata {
    /// Version of the bubble file format.
    pub spec_version: u8,
    /// Identifier of the bubble.
    pub bub_id: u128,
    /// Version of the bubble.
    pub bub_version: u16,
    /// Total number of frames of the stream.
    pub frames: u64,
    /// Sample rate, as the bit pattern of an IEEE-754 binary64 value.
    pub samples_per_sec: u64,
    /// Width of the PCM samples.
    pub lpcm_kind: LpcmKind,
    /// Payload of the segments.
    pub bub_sample_kind: BubSampleKind,
    /// Name of the bubble.
    pub name: String,
    /// State of the current frame.
    pub bub_state: BubState,
    /// Frame at which the current segment started.
    pub head_absolute_frame: u64,
    /// Source text of the current segment's bubble functions.
    pub bub_functions: Vec<u8>,
    /// First frame after the current segment.
    pub foot_absolute_frame_plus_one: u64,
    /// Frame at which the next segment starts, if any.
    pub next_head_absolute_frame: Option<u64>,
    /// Running CRC of the current segment.
    pub crc: Crc,
}

impl BubbleMetadata {
    /// The header fields of the metadata.
    pub open spec fn header_view(&self) -> HeaderView {
        HeaderView {
            spec_version: self.spec_version,
            bub_id: self.bub_id,
            bub_version: self.bub_version,
            frames: self.frames,
            next_head_absolute_frame: self.next_head_absolute_frame,
            samples_per_sec: self.samples_per_sec,
            lpcm_kind: self.lpcm_kind,
            bub_sample_kind: self.bub_sample_kind@,
            name: self.name@,
        }
    }

    pub fn frames(&self) -> (r: u64)
        ensures
            r == self.frames,
    {
        self.frames
    }

    pub fn lpcm_kind(&self) -> (r: LpcmKind)
        ensures
            r == self.lpcm_kind,
    {
        self.lpcm_kind
    }

    /// Bit pattern of the sample rate.
    pub fn samples_per_sec(&self) -> (r: u64)
        ensures
            r == self.samples_per_sec,
    {
        self.samples_per_sec
    }

    pub fn set_as_head(&mut self, pos: u64)
        ensures
            *final(self) == (BubbleMetadata {
                bub_state: BubState::Head,
                head_absolute_frame: pos,
                ..*old(self)
            }),
    {
        self.head_absolute_frame = pos;
        self.bub_state = BubState::Head;
    }

    pub fn set_as_body(&mut self)
        ensures
            *final(self) == (BubbleMetadata { bub_state: BubState::Body, ..*old(self) }),
    {
        self.bub_state = BubState::Body;
    }

    pub fn set_as_stopped(&mut self)
        ensures
            *final(self) == (BubbleMetadata { bub_state: BubState::Stopped, ..*old(self) }),
    {
        self.bub_state = BubState::Stopped;
    }

    pub fn set_as_ended(&mut self)
        ensures
            *final(self) == (BubbleMetadata { bub_state: BubState::Ended, ..*old(self) }),
    {
        self.bub_state = BubState::Ended;
    }

    /// Enters the state that follows the end of a segment at frame `pos`.
    pub fn set_bub_state_from_connected_and_ended(&mut self, pos: u64)
        ensures
            final(self).bub_state == boundary_state(pos, old(self).next_head_absolute_frame),
            final(self).head_absolute_frame == if final(self).bub_state == BubState::Head {
                pos
            } else {
                old(self).head_absolute_frame
            },
            *final(self) == (BubbleMetadata {
                bub_state: final(self).bub_state,
                head_absolute_frame: final(self).head_absolute_frame,
                ..*old(self)
            }),
    {
        match self.next_head_absolute_frame {
            Some(next_head_absolute_frame) => {
                if next_head_absolute_frame == pos {
                    self.set_as_head(pos)
                } else {
                    self.set_as_stopped()
                }
            },
            None => self.set_as_ended(),
        }
    }

    /// Steps the state machine to frame `pos`; entering a head records `pos`
    /// as the segment's first frame.
    pub fn init_with_pos(&mut self, pos: u64)
        ensures
            final(self).bub_state == next_state(
                old(self).bub_state,
                pos,
                old(self).foot_absolute_frame_plus_one,
                old(self).next_head_absolute_frame,
            ),
            final(self).head_absolute_frame == if final(self).bub_state == BubState::Head {
                pos
            } else {
                old(self).head_absolute_frame
            },
            *final(self) == (BubbleMetadata {
                bub_state: final(self).bub_state,
                head_absolute_frame: final(self).head_absolute_frame,
                ..*old(self)
            }),
    {
        match self.bub_state {
            BubState::Head => {
                if self.foot_absolute_frame_plus_one == pos {
                    self.set_bub_state_from_connected_and_ended(pos);
                } else {
                    self.set_as_body();
                }
            },
            BubState::Body => {
                if self.foot_absolute_frame_plus_one == pos {
                    self.set_bub_state_from_connected_and_ended(pos);
                }
            },
            BubState::Stopped => {
                if self.next_head_absolute_frame == Some(pos) {
                    self.set_as_head(pos);
                }
            },
            BubState::Ended => {},
        }
    }

    /// Records the next head stored as `next_head_relative_frame` in a header
    /// read at frame `pos`; a value that lies beyond the last frame number is
    /// refused.
    pub fn set_next_head_absolute_frame_from_relative(
        &mut self,
        next_head_relative_frame: u64,
        pos: u64,
    ) -> (r: Result<(), BubError>)
        requires
            pos >= 1,
        ensures
            r is Ok <==> next_head_relative_frame + pos - 1 <= u64::MAX,
            r is Ok ==> *final(self) == (BubbleMetadata {
                next_head_absolute_frame: next_head_from_relative(next_head_relative_frame, pos),
                ..*old(self)
            }),
            r matches Err(e) ==> e == BubError::InvalidData && *final(self) == *old(self),
    {
        if next_head_relative_frame == 0 {
            self.next_head_absolute_frame = None;
            Ok(())
        } else if next_head_relative_frame > u64::MAX - (pos - 1) {
            Err(BubError::InvalidData)
        } else {
            self.next_head_absolute_frame = Some(next_head_relative_frame + (pos - 1));
            Ok(())
        }
    }

    /// The next head relative to frame `pos`, 0 for none.
    pub fn next_head_absolute_frame_into_relative(&self, pos: u64) -> (r: u64)
        requires
            pos >= 1,
            self.next_head_absolute_frame matches Some(n) ==> n >= pos - 1,
        ensures
            r == match self.next_head_absolute_frame {
                Some(n) => (n - pos + 1) as u64,
                None => 0u64,
            },
    {
        match self.next_head_absolute_frame {
            Some(n) => n - (pos - 1),
            None => 0,
        }
    }

    /// Reads a stream header with its CRC trailer from the start of `data`;
    /// returns the metadata, positioned before the first frame, and the number
    /// of bytes read.
    pub fn read(data: &[u8]) -> (r: Result<(BubbleMetadata, usize), BubError>)
        ensures
            r is Err <==> header_error(data@) is Some,
            r matches Err(e) ==> header_error(data@) == Some(e),
            r matches Ok((m, n)) ==> {
                &&& n == header_len(data@) + 4
                &&& m.header_view() == decode_header(data@)
                &&& m.bub_state == BubState::Stopped
                &&& m.head_absolute_frame == 0
                &&& m.bub_functions@.len() == 0
                &&& m.foot_absolute_frame_plus_one == 0
                &&& m.crc.value == crc_feed(
                    CRC_INIT,
                    data@.subrange(header_len(data@), header_len(data@) + 4),
                )
            },
    {
        let ghost d = data@;
        let mut at: usize = 0;
        let fixed = match take(data, &mut at, 43) {
            Ok(s) => s,
            Err(e) => return Err(e),
        };
        let lpcm_tag = match take(data, &mut at, 1) {
            Ok(s) => s[0],
            Err(e) => return Err(e),
        };
        let lpcm_kind = match LpcmKind::from_u8(lpcm_tag) {
            Some(k) => k,
            None => return Err(BubError::InvalidData),
        };
        let bub_sample_kind = match BubSampleKind::read(data, &mut at) {
            Ok(k) => k,
            Err(e) => return Err(e),
        };
        let name_size = match take(data, &mut at, 1) {
            Ok(s) => s[0] as usize,
            Err(e) => return Err(e),
        };
        let name_bytes = match take(data, &mut at, name_size) {
            Ok(s) => s,
            Err(e) => return Err(e),
        };
        assert(name_bytes@ == d.subrange(46, header_len(d)));
        let name = match string_from_utf8(slice_to_vec(name_bytes)) {
            Some(n) => n,
            None => return Err(BubError::InvalidData),
        };
        let header_end = at;
        let trailer = match take(data, &mut at, 4) {
            Ok(s) => s,
            Err(e) => return Err(e),
        };
        let mut crc = Crc::new();
        crc.calc_bytes(slice_subrange(data, 0, header_end));
        crc.calc_bytes(trailer);
        if !crc.is_error_free() {
            return Err(BubError::CrcMismatch);
        }
        crc.initialize();
        crc.calc_bytes(trailer);

        let bub_id_bytes = slice_subrange(fixed, 1, 17);
        let bub_version_bytes = slice_subrange(fixed, 17, 19);
        let frames_bytes = slice_subrange(fixed, 19, 27);
        let next_head_bytes = slice_subrange(fixed, 27, 35);
        let samples_per_sec_bytes = slice_subrange(fixed, 35, 43);
        assert(bub_id_bytes@ == d.subrange(1, 17));
        assert(bub_version_bytes@ == d.subrange(17, 19));
        assert(frames_bytes@ == d.subrange(19, 27));
        assert(next_head_bytes@ == d.subrange(27, 35));
        assert(samples_per_sec_bytes@ == d.subrange(35, 43));
        let next_head_relative = u64_from_le_bytes(next_head_bytes);
        let m = BubbleMetadata {
            spec_version: fixed[0],
            bub_id: u128_from_le_bytes(bub_id_bytes),
            bub_version: u16_from_le_bytes(bub_version_bytes),
            frames: u64_from_le_bytes(frames_bytes),
            samples_per_sec: u64_from_le_bytes(samples_per_sec_bytes),
            lpcm_kind,
            bub_sample_kind,
            name,
            bub_state: BubState::Stopped,
            head_absolute_frame: 0,
            bub_functions: Vec::new(),
            foot_absolute_frame_plus_one: 0,
            next_head_absolute_frame: if next_head_relative == 0 {
                None
            } else {
                Some(next_head_relative)
            },
            crc,
        };
        assert(m.header_view() == decode_header(d));
        Ok((m, at))
    }

    /// Appends the stream header and its CRC trailer to `out`, then seeds the
    /// CRC with the trailer; a name longer than 255 bytes is refused.
    pub fn write(&mut self, out: &mut Vec<u8>) -> (r: Result<(), BubError>)
        ensures
            r is Err <==> encode_utf8(old(self).name@).len() > 255,
            r matches Err(e) ==> e == BubError::InvalidData && *final(self) == *old(self)
                && final(out)@ == old(out)@,
            r is Ok ==> {
                let header = encode_header(old(self).header_view());
                let trailer = crc_trailer(crc_feed(old(self).crc.value, header));
                &&& final(out)@ == old(out)@ + header + trailer
                &&& crc_error_free(crc_feed(crc_feed(old(self).crc.value, header), trailer))
                &&& final(self).crc.value == crc_feed(CRC_INIT, trailer)
                &&& *final(self) == (BubbleMetadata { crc: final(self).crc, ..*old(self) })
            },
    {
        let name_bytes = self.name.as_str().as_bytes_vec();
        if name_bytes.len() > 255 {
            return Err(BubError::InvalidData);
        }
        let mut header: Vec<u8> = Vec::new();
        header.push(self.spec_version);
        header.append(&mut u128_to_le_bytes(self.bub_id));
        header.append(&mut u16_to_le_bytes(self.bub_version));
        header.append(&mut u64_to_le_bytes(self.frames));
        let next_head_relative: u64 = match self.next_head_absolute_frame {
            Some(n) => n,
            None => 0,
        };
        header.append(&mut u64_to_le_bytes(next_head_relative));
        header.append(&mut u64_to_le_bytes(self.samples_per_sec));
        header.push(self.lpcm_kind.to_u8());
        self.bub_sample_kind.write(&mut header);
        header.push(name_bytes.len() as u8);
        header.extend_from_slice(name_bytes.as_slice());
        assert(header@ =~= encode_header(self.header_view()));

        self.crc.calc_bytes(header.as_slice());
        out.append(&mut header);
        self.write_crc(out);
        Ok(())
    }

    /// Appends the trailer that closes the bytes fed so far, then seeds the
    /// CRC with it.
    pub fn write_crc(&mut self, out: &mut Vec<u8>)
        ensures
            ({
                let trailer = crc_trailer(old(self).crc.value);
                &&& final(out)@ == old(out)@ + trailer
                &&& crc_error_free(crc_feed(old(self).crc.value, trailer))
                &&& *final(self) == (BubbleMetadata {
                    crc: Crc { value: crc_feed(CRC_INIT, trailer) },
                    ..*old(self)
                })
            }),
    {
        let trailer = self.crc.finalize_to_endian_bytes();
        out.extend_from_slice(&trailer);
        self.crc.initialize();
        self.crc.calc_bytes(&trailer);
    }
}

/// Writing a stream header and reading it back gives the same header fields:
/// for any header whose name fits its one-byte size and whose next head is
/// absent or a frame number, with the trailer that the CRC gives it, the read
/// succeeds and decodes every field as written.
pub proof fn lemma_header_round_trip(h: HeaderView)
    requires
        encode_utf8(h.name).len() <= 255,
        h.next_head_absolute_frame != Some(0u64),
        h.bub_sample_kind matches Some(src) ==> src == default_expr_source(),
        crc_error_free(
            crc_feed(
                crc_feed(CRC_INIT, encode_header(h)),
                crc_trailer(crc_feed(CRC_INIT, encode_header(h))),
            ),
        ),
    ensures
        ({
            let d = encode_header(h) + crc_trailer(crc_feed(CRC_INIT, encode_header(h)));
            &&& header_error(d) is None
            &&& decode_header(d) == h
            &&& header_len(d) + 4 == d.len()
        }),
{
    broadcast use vstd::utf8::encode_utf8_valid_utf8, vstd::utf8::encode_utf8_decode_utf8;

    vstd::bytes::lemma_auto_spec_u128_to_from_le_bytes();
    vstd::bytes::lemma_auto_spec_u16_to_from_le_bytes();
    vstd::bytes::lemma_auto_spec_u64_to_from_le_bytes();
    vstd::bytes::lemma_auto_spec_u32_to_from_le_bytes();
    let header = encode_header(h);
    let trailer = crc_trailer(crc_feed(CRC_INIT, header));
    let d = header + trailer;
    let name = encode_utf8(h.name);
    assert(header.len() == 46 + name.len());
    assert(d[45] == name.len() as u8);
    assert(header_len(d) == header.len());
    assert(d.subrange(0, header_len(d)) =~= header);
    assert(d.subrange(header_len(d), header_len(d) + 4) =~= trailer);
    assert(d.subrange(46, header_len(d)) =~= name);
    assert(d.subrange(1, 17) =~= spec_u128_to_le_bytes(h.bub_id));
    assert(d.subrange(17, 19) =~= spec_u16_to_le_bytes(h.bub_version));
    assert(d.subrange(19, 27) =~= spec_u64_to_le_bytes(h.frames));
    assert(d.subrange(27, 35) =~= spec_u64_to_le_bytes(
        next_head_relative(h.next_head_absolute_frame),
    ));
    assert(d.subrange(35, 43) =~= spec_u64_to_le_bytes(h.samples_per_sec));
    assert(decode_header(d).bub_sample_kind == h.bub_sample_kind);
    assert(decode_header(d).lpcm_kind == h.lpcm_kind);
}

} // verus!
