//! The frame-by-frame decoder of a bubble stream.
//!
//! Each step advances the frame position, runs the state machine, reads the
//! bytes that the new state demands and reports what the frame carries; the
//! spatial mixing of that payload over the speakers is left to the caller.
use crate::bytes::take;
use crate::crc::{crc_error_free, crc_feed, Crc, CRC_INIT};
use crate::error::BubError;
use crate::functions::{
    bub_fn_written_as, is_bub_fns_text, is_sum_text, parse_bub_fns, parse_sum, show, tuple_at,
    wf_expr, words_from, BubFn, Expr,
};
use crate::metadata::{next_head_from_relative, BubSampleKind, BubbleMetadata, LpcmKind};
use crate::state::{next_state, BubState};
use vstd::bytes::{
    spec_u16_from_le_bytes, spec_u32_from_le_bytes, spec_u64_from_le_bytes, u16_from_le_bytes,
    u32_from_le_bytes, u64_from_le_bytes,
};
use vstd::prelude::*;
use vstd::slice::{slice_subrange, slice_to_vec};

verus! {

/// What one frame of a bubble stream carries.
#[derive(Clone, Copy, Debug, PartialEq, Eq, Structural)]
pub enum BubFrame {
    /// Every channel is silent.
    Silence,
    /// One PCM sample, as the bit pattern of an IEEE-754 value of the stream's
    /// sample width, to be spread over the speakers by the segment's functions.
    Lpcm(u64),
    /// The segment's expression is evaluated for this frame.
    Expr,
}

/// The little-endian `u16` at `at` of `d`.
pub open spec fn le_u16_at(d: Seq<u8>, at: int) -> u16 {
    spec_u16_from_le_bytes(d.subrange(at, at + 2))
}

/// The little-endian `u64` at `at` of `d`.
pub open spec fn le_u64_at(d: Seq<u8>, at: int) -> u64 {
    spec_u64_from_le_bytes(d.subrange(at, at + 8))
}

/// The bit pattern of the PCM sample of width `kind` at `at` of `d`.
pub open spec fn lpcm_sample_at(d: Seq<u8>, at: int, kind: LpcmKind) -> u64 {
    match kind {
        LpcmKind::F32LE => spec_u32_from_le_bytes(d.subrange(at, at + 4)) as u64,
        LpcmKind::F64LE => le_u64_at(d, at),
    }
}

/// Size of the functions of the segment header at `at`.
pub open spec fn functions_size_at(d: Seq<u8>, at: int) -> int {
    le_u16_at(d, at) as int
}

/// The text of the functions of the segment header at `at`.
pub open spec fn functions_at(d: Seq<u8>, at: int) -> Seq<u8> {
    d.subrange(at + 2, at + 2 + functions_size_at(d, at))
}

/// Whether `fns` are the tuples written as `text`.
pub open spec fn functions_written_as(fns: Seq<BubFn>, text: Seq<u8>) -> bool {
    let w = words_from(text, 0);
    &&& w.len() == 5 * fns.len()
    &&& forall|k: int| 0 <= k < fns.len() ==> bub_fn_written_as(#[trigger] fns[k], tuple_at(w, k))
}

/// Length of the segment header at `at`: functions size, functions, foot and
/// next head.
pub open spec fn segment_header_len(d: Seq<u8>, at: int) -> int {
    18 + functions_size_at(d, at)
}

/// The foot, relative to the head, of the segment header at `at`.
pub open spec fn foot_relative_at(d: Seq<u8>, at: int) -> u64 {
    le_u64_at(d, at + 2 + functions_size_at(d, at))
}

/// The next head, relative to the head, of the segment header at `at`.
pub open spec fn next_head_relative_at(d: Seq<u8>, at: int) -> u64 {
    le_u64_at(d, at + 10 + functions_size_at(d, at))
}

/// The error met when reading the segment header at `at` at frame `pos`, if
/// any: a short source, functions that do not parse, an empty segment, or a
/// frame number past `u64::MAX`.
pub open spec fn segment_header_error(d: Seq<u8>, at: int, pos: u64) -> Option<BubError> {
    if at + 2 > d.len() || at + 2 + functions_size_at(d, at) > d.len() {
        Some(BubError::UnexpectedEof)
    } else if !is_bub_fns_text(words_from(functions_at(d, at), 0)) {
        Some(BubError::InvalidData)
    } else if at + segment_header_len(d, at) > d.len() {
        Some(BubError::UnexpectedEof)
    } else if foot_relative_at(d, at) == 0 || pos + foot_relative_at(d, at) > u64::MAX {
        Some(BubError::InvalidData)
    } else if next_head_relative_at(d, at) != 0 && next_head_relative_at(d, at) + pos - 1
        > u64::MAX {
        Some(BubError::InvalidData)
    } else {
        None
    }
}

/// The error met when reading, with the CRC at `crc`, a PCM sample of `width`
/// bytes at `at`, followed by the segment's trailer when `last`, if any.
pub open spec fn lpcm_step_error(d: Seq<u8>, at: int, width: int, last: bool, crc: u32) -> Option<
    BubError,
> {
    if at + width > d.len() {
        Some(BubError::UnexpectedEof)
    } else if !last {
        None
    } else if at + width + 4 > d.len() {
        Some(BubError::UnexpectedEof)
    } else if !crc_error_free(
        crc_feed(crc_feed(crc, d.subrange(at, at + width)), d.subrange(at + width, at + width + 4)),
    ) {
        Some(BubError::CrcMismatch)
    } else {
        None
    }
}

/// Size of the expression at `at`.
pub open spec fn expr_size_at(d: Seq<u8>, at: int) -> int {
    le_u16_at(d, at) as int
}

/// The error met when reading, with the CRC at `crc`, an expression and its
/// trailer at `at`, if any.
pub open spec fn expr_step_error(d: Seq<u8>, at: int, crc: u32) -> Option<BubError> {
    if at + 2 > d.len() || at + 2 + expr_size_at(d, at) + 4 > d.len() {
        Some(BubError::UnexpectedEof)
    } else if !crc_error_free(
        crc_feed(
            crc_feed(crc, d.subrange(at, at + 2 + expr_size_at(d, at))),
            d.subrange(at + 2 + expr_size_at(d, at), at + 6 + expr_size_at(d, at)),
        ),
    ) {
        Some(BubError::CrcMismatch)
    } else {
        None
    }
}

/// Whether frame `pos` is the last of the segment that ends before `foot`.
pub open spec fn is_last_frame(foot: u64, pos: u64) -> bool {
    foot != 0 && foot - 1 == pos
}

impl BubbleMetadata {
    /// Reads the four-byte trailer at `*at` of `data` and checks it against
    /// the bytes fed so far; on success the CRC restarts seeded with it.
    pub fn read_crc(&mut self, data: &[u8], at: &mut usize) -> (r: Result<(), BubError>)
        ensures
            *final(self) == (BubbleMetadata { crc: final(self).crc, ..*old(self) }),
            *old(at) + 4 > data@.len() ==> (r matches Err(e) && e == BubError::UnexpectedEof),
            *old(at) + 4 <= data@.len() ==> {
                let trailer = data@.subrange(*old(at) as int, *old(at) + 4);
                &&& r is Ok <==> crc_error_free(crc_feed(old(self).crc.value, trailer))
                &&& r matches Err(e) ==> e == BubError::CrcMismatch
                &&& r is Ok ==> *final(at) == *old(at) + 4 && *final(self) == (BubbleMetadata {
                    crc: Crc { value: crc_feed(CRC_INIT, trailer) },
                    ..*old(self)
                })
            },
    {
        let trailer = match take(data, at, 4) {
            Ok(s) => s,
            Err(e) => return Err(e),
        };
        self.crc.calc_bytes(trailer);
        if !self.crc.is_error_free() {
            return Err(BubError::CrcMismatch);
        }
        self.crc.initialize();
        self.crc.calc_bytes(trailer);
        Ok(())
    }
}

/// Decoder of the frames of one bubble stream, from the bytes that follow its
/// stream header.
pub struct BubFrameReader {
    /// The bytes of the stream after its header.
    pub inner: Vec<u8>,
    /// Index in `inner` of the next byte to read.
    pub at: usize,
    /// Position of the last frame produced; frames count from 1.
    pub pos: u64,
    /// The stream header and the decode state.
    pub metadata: BubbleMetadata,
    /// The parsed functions of the current segment.
    pub functions: Vec<BubFn>,
    /// The parsed expression of the current segment, in an expression stream.
    pub expr: Option<Expr>,
}

impl BubFrameReader {
    /// A reader positioned before the first frame.
    /// A reader positioned before the first frame; the functions and the
    /// expression that `metadata` already holds are parsed, and left empty
    /// where they do not parse.
    pub fn new(inner: Vec<u8>, metadata: BubbleMetadata) -> (r: BubFrameReader)
        ensures
            r.inner == inner,
            r.at == 0,
            r.pos == 0,
            r.metadata == metadata,
            is_bub_fns_text(words_from(metadata.bub_functions@, 0)) ==> functions_written_as(
                r.functions@,
                metadata.bub_functions@,
            ),
            !is_bub_fns_text(words_from(metadata.bub_functions@, 0)) ==> r.functions@.len() == 0,
            r.expr is Some <==> (metadata.bub_sample_kind@ matches Some(src) && is_sum_text(src)),
            r.expr matches Some(e) ==> metadata.bub_sample_kind@ == Some(show(e)) && wf_expr(e, 2),
    {
        let functions = match parse_bub_fns(metadata.bub_functions.as_slice()) {
            Some(f) => f,
            None => Vec::new(),
        };
        let expr = match &metadata.bub_sample_kind {
            BubSampleKind::Expr(src) => parse_sum(src.as_slice()),
            BubSampleKind::Lpcm => None,
        };
        BubFrameReader { inner, at: 0, pos: 0, metadata, functions, expr }
    }

    pub fn get_ref(&self) -> (r: &Vec<u8>)
        ensures
            *r == self.inner,
    {
        &self.inner
    }

    pub fn get_mut(&mut self) -> (r: &mut Vec<u8>)
        ensures
            *r == old(self).inner,
            *final(self) == (BubFrameReader { inner: *final(r), ..*old(self) }),
    {
        &mut self.inner
    }

    pub fn into_inner(self) -> (r: Vec<u8>)
        ensures
            r == self.inner,
    {
        self.inner
    }

    /// Whether `self` stands at the same frame of the same stream as `other`,
    /// in the same state, whatever bytes a read consumed.
    pub open spec fn keeps_position(&self, other: &BubFrameReader) -> bool {
        &&& self.inner == other.inner
        &&& self.pos == other.pos
        &&& self.metadata.frames == other.metadata.frames
        &&& self.metadata.bub_state == other.metadata.bub_state
        &&& self.metadata.head_absolute_frame == other.metadata.head_absolute_frame
    }

    /// Number of frames still to come.
    pub open spec fn remaining(&self) -> int {
        if self.pos < self.metadata.frames {
            self.metadata.frames - self.pos
        } else {
            0
        }
    }

    /// Reads the header of the segment that starts at the current frame: its
    /// bubble functions, its foot and the next head.
    pub fn read_head_metadata_and_calc_bytes(&mut self) -> (r: Result<(), BubError>)
        requires
            old(self).pos >= 1,
        ensures
            final(self).keeps_position(old(self)),
            r is Err <==> segment_header_error(old(self).inner@, old(self).at as int, old(self).pos)
                is Some,
            r matches Err(e) ==> segment_header_error(
                old(self).inner@,
                old(self).at as int,
                old(self).pos,
            ) == Some(e),
            r is Ok ==> {
                let d = old(self).inner@;
                let at = old(self).at as int;
                let pos = old(self).pos;
                &&& final(self).at == at + segment_header_len(d, at)
                &&& final(self).metadata.bub_functions@ == functions_at(d, at)
                &&& functions_written_as(final(self).functions@, functions_at(d, at))
                &&& *final(self) == (BubFrameReader {
                    at: final(self).at,
                    functions: final(self).functions,
                    metadata: BubbleMetadata {
                        bub_functions: final(self).metadata.bub_functions,
                        foot_absolute_frame_plus_one: (pos + foot_relative_at(d, at)) as u64,
                        next_head_absolute_frame: next_head_from_relative(
                            next_head_relative_at(d, at),
                            pos,
                        ),
                        crc: Crc {
                            value: crc_feed(
                                old(self).metadata.crc.value,
                                d.subrange(at, at + segment_header_len(d, at)),
                            ),
                        },
                        ..old(self).metadata
                    },
                    ..*old(self)
                })
            },
    {
        let ghost d = self.inner@;
        let start = self.at;
        let mut at = self.at;
        let size_bytes = match take(self.inner.as_slice(), &mut at, 2) {
            Ok(s) => s,
            Err(e) => return Err(e),
        };
        let functions_size = u16_from_le_bytes(size_bytes) as usize;
        let functions = match take(self.inner.as_slice(), &mut at, functions_size) {
            Ok(s) => s,
            Err(e) => return Err(e),
        };
        let parsed = match parse_bub_fns(functions) {
            Some(f) => f,
            None => return Err(BubError::InvalidData),
        };
        let frames_bytes = match take(self.inner.as_slice(), &mut at, 16) {
            Ok(s) => s,
            Err(e) => return Err(e),
        };
        let foot_bytes = slice_subrange(frames_bytes, 0, 8);
        let next_bytes = slice_subrange(frames_bytes, 8, 16);
        assert(foot_bytes@ == d.subrange(start + 2 + functions_size, start + 10 + functions_size));
        assert(next_bytes@ == d.subrange(start + 10 + functions_size, start + 18 + functions_size));
        let foot_relative = u64_from_le_bytes(foot_bytes);
        let next_head_relative = u64_from_le_bytes(next_bytes);
        if foot_relative == 0 || foot_relative > u64::MAX - self.pos {
            return Err(BubError::InvalidData);
        }
        let bub_functions = slice_to_vec(functions);
        let header = slice_subrange(self.inner.as_slice(), start, at);
        let mut crc = self.metadata.crc;
        crc.calc_bytes(header);
        let pos = self.pos;
        match self.metadata.set_next_head_absolute_frame_from_relative(next_head_relative, pos) {
            Ok(()) => {},
            Err(e) => return Err(e),
        }
        self.metadata.bub_functions = bub_functions;
        self.functions = parsed;
        self.metadata.foot_absolute_frame_plus_one = pos + foot_relative;
        self.metadata.crc = crc;
        self.at = at;
        Ok(())
    }

    /// Reads the PCM sample of the current frame, and the segment's trailer
    /// when the frame is the segment's last.
    pub fn read_lpcm_and_crc(&mut self) -> (r: Result<u64, BubError>)
        ensures
            final(self).keeps_position(old(self)),
            ({
                let d = old(self).inner@;
                let at = old(self).at as int;
                let kind = old(self).metadata.lpcm_kind;
                let width = kind.spec_bytes() as int;
                let last = is_last_frame(
                    old(self).metadata.foot_absolute_frame_plus_one,
                    old(self).pos,
                );
                let crc = old(self).metadata.crc.value;
                &&& r is Err <==> lpcm_step_error(d, at, width, last, crc) is Some
                &&& r matches Err(e) ==> lpcm_step_error(d, at, width, last, crc) == Some(e)
                &&& r matches Ok(v) ==> {
                    &&& v == lpcm_sample_at(d, at, kind)
                    &&& final(self).at == at + width + if last {
                        4int
                    } else {
                        0int
                    }
                    &&& *final(self) == (BubFrameReader {
                        at: final(self).at,
                        metadata: BubbleMetadata {
                            crc: Crc {
                                value: if last {
                                    crc_feed(CRC_INIT, d.subrange(at + width, at + width + 4))
                                } else {
                                    crc_feed(crc, d.subrange(at, at + width))
                                },
                            },
                            ..old(self).metadata
                        },
                        ..*old(self)
                    })
                }
            }),
    {
        let ghost d = self.inner@;
        let mut at = self.at;
        let width = self.metadata.lpcm_kind.bytes();
        let bytes = match take(self.inner.as_slice(), &mut at, width) {
            Ok(s) => s,
            Err(e) => return Err(e),
        };
        let sample: u64 = match self.metadata.lpcm_kind {
            LpcmKind::F32LE => u32_from_le_bytes(bytes) as u64,
            LpcmKind::F64LE => u64_from_le_bytes(bytes),
        };
        self.metadata.crc.calc_bytes(bytes);
        let foot = self.metadata.foot_absolute_frame_plus_one;
        if foot != 0 && foot - 1 == self.pos {
            match self.metadata.read_crc(self.inner.as_slice(), &mut at) {
                Ok(()) => {},
                Err(e) => return Err(e),
            }
        }
        self.at = at;
        Ok(sample)
    }

    /// Reads the expression of the segment that starts at the current frame,
    /// and the segment's trailer; returns the expression's source.
    pub fn read_expression_and_crc(&mut self) -> (r: Result<Vec<u8>, BubError>)
        ensures
            final(self).keeps_position(old(self)),
            ({
                let d = old(self).inner@;
                let at = old(self).at as int;
                let size = expr_size_at(d, at);
                let crc = old(self).metadata.crc.value;
                &&& r is Err <==> expr_step_error(d, at, crc) is Some
                &&& r matches Err(e) ==> expr_step_error(d, at, crc) == Some(e)
                &&& r matches Ok(src) ==> {
                    &&& src@ == d.subrange(at + 2, at + 2 + size)
                    &&& final(self).at == at + 6 + size
                    &&& *final(self) == (BubFrameReader {
                        at: final(self).at,
                        metadata: BubbleMetadata {
                            crc: Crc {
                                value: crc_feed(CRC_INIT, d.subrange(at + 2 + size, at + 6 + size)),
                            },
                            ..old(self).metadata
                        },
                        ..*old(self)
                    })
                }
            }),
    {
        let ghost d = self.inner@;
        let start = self.at;
        let mut at = self.at;
        let size_bytes = match take(self.inner.as_slice(), &mut at, 2) {
            Ok(s) => s,
            Err(e) => return Err(e),
        };
        let expr_size = u16_from_le_bytes(size_bytes) as usize;
        let expr = match take(self.inner.as_slice(), &mut at, expr_size) {
            Ok(s) => s,
            Err(e) => return Err(e),
        };
        if at > self.inner.len() || 4 > self.inner.len() - at {
            return Err(BubError::UnexpectedEof);
        }
        let source = slice_to_vec(expr);
        self.metadata.crc.calc_bytes(slice_subrange(self.inner.as_slice(), start, at));
        match self.metadata.read_crc(self.inner.as_slice(), &mut at) {
            Ok(()) => {},
            Err(e) => return Err(e),
        }
        self.at = at;
        Ok(source)
    }

    /// Decodes the next frame: `None` once all frames have been produced;
    /// otherwise advances the position, steps the state machine and reads what
    /// the new state demands.
    pub fn next(&mut self) -> (r: Option<Result<BubFrame, BubError>>)
        ensures
            r is None <==> old(self).remaining() == 0,
            old(self).pos >= old(self).metadata.frames ==> r is None && *final(self) == *old(self),
            old(self).pos < old(self).metadata.frames ==> {
                &&& r is Some
                &&& final(self).pos == old(self).pos + 1
                &&& final(self).remaining() == old(self).remaining() - 1
                &&& final(self).inner == old(self).inner
                &&& final(self).metadata.frames == old(self).metadata.frames
                &&& final(self).metadata.bub_state == next_state(
                    old(self).metadata.bub_state,
                    final(self).pos,
                    old(self).metadata.foot_absolute_frame_plus_one,
                    old(self).metadata.next_head_absolute_frame,
                )
            },
            r is Some ==> (final(self).metadata.bub_state == BubState::Stopped
                || final(self).metadata.bub_state == BubState::Ended) ==> {
                &&& r == Some(Ok::<BubFrame, BubError>(BubFrame::Silence))
                &&& final(self).at == old(self).at
                &&& final(self).metadata.crc == old(self).metadata.crc
            },
            r is Some && final(self).metadata.bub_state == BubState::Body ==> ({
                let d = old(self).inner@;
                let at = old(self).at as int;
                let kind = old(self).metadata.lpcm_kind;
                let err = lpcm_step_error(
                    d,
                    at,
                    kind.spec_bytes() as int,
                    is_last_frame(old(self).metadata.foot_absolute_frame_plus_one, final(self).pos),
                    old(self).metadata.crc.value,
                );
                if old(self).metadata.bub_sample_kind is Expr {
                    &&& r == Some(Ok::<BubFrame, BubError>(BubFrame::Expr))
                    &&& final(self).at == old(self).at
                } else {
                    &&& (r matches Some(Ok(f)) <==> err is None)
                    &&& (r matches Some(Ok(f)) ==> f == BubFrame::Lpcm(lpcm_sample_at(d, at, kind)))
                    &&& (r matches Some(Err(e)) ==> err == Some(e))
                }
            }),
            r is Some && final(self).metadata.bub_state == BubState::Head ==> ({
                let d = old(self).inner@;
                let at = old(self).at as int;
                let pos = final(self).pos;
                let kind = old(self).metadata.lpcm_kind;
                let body = at + segment_header_len(d, at);
                let err = head_step_error(
                    d,
                    at,
                    pos,
                    old(self).metadata.crc.value,
                    kind,
                    old(self).metadata.bub_sample_kind is Lpcm,
                );
                &&& (r matches Some(Ok(f)) <==> err is None)
                &&& (r matches Some(Err(e)) ==> err == Some(e))
                &&& (r matches Some(Ok(f)) ==> {
                    &&& final(self).metadata.head_absolute_frame == pos
                    &&& final(self).metadata.bub_functions@ == functions_at(d, at)
                    &&& functions_written_as(final(self).functions@, functions_at(d, at))
                    &&& final(self).metadata.foot_absolute_frame_plus_one == pos
                        + foot_relative_at(d, at)
                    &&& final(self).metadata.next_head_absolute_frame == next_head_from_relative(
                        next_head_relative_at(d, at),
                        pos,
                    )
                    &&& if old(self).metadata.bub_sample_kind is Lpcm {
                        f == BubFrame::Lpcm(lpcm_sample_at(d, body, kind))
                    } else {
                        &&& f == BubFrame::Expr
                        &&& final(self).metadata.bub_sample_kind@ == Some(
                            d.subrange(body + 2, body + 2 + expr_size_at(d, body)),
                        )
                        &&& final(self).expr matches Some(e) && show(e) == d.subrange(
                            body + 2,
                            body + 2 + expr_size_at(d, body),
                        ) && wf_expr(e, 2)
                    }
                })
            }),
    {
        if self.metadata.frames() <= self.pos {
            return None;
        }
        self.pos = self.pos + 1;
        let pos = self.pos;
        self.metadata.init_with_pos(pos);
        match self.metadata.bub_state {
            BubState::Head => {
                match self.read_head_metadata_and_calc_bytes() {
                    Ok(()) => {},
                    Err(e) => return Some(Err(e)),
                }
                match self.metadata.bub_sample_kind {
                    BubSampleKind::Lpcm => match self.read_lpcm_and_crc() {
                        Ok(sample) => Some(Ok(BubFrame::Lpcm(sample))),
                        Err(e) => Some(Err(e)),
                    },
                    BubSampleKind::Expr(_) => match self.read_expression_and_crc() {
                        Ok(source) => match parse_sum(source.as_slice()) {
                            Some(e) => {
                                self.expr = Some(e);
                                self.metadata.bub_sample_kind = BubSampleKind::Expr(source);
                                Some(Ok(BubFrame::Expr))
                            },
                            None => Some(Err(BubError::InvalidData)),
                        },
                        Err(e) => Some(Err(e)),
                    },
                }
            },
            BubState::Body => match self.metadata.bub_sample_kind {
                BubSampleKind::Lpcm => match self.read_lpcm_and_crc() {
                    Ok(sample) => Some(Ok(BubFrame::Lpcm(sample))),
                    Err(e) => Some(Err(e)),
                },
                BubSampleKind::Expr(_) => Some(Ok(BubFrame::Expr)),
            },
            BubState::Stopped => Some(Ok(BubFrame::Silence)),
            BubState::Ended => Some(Ok(BubFrame::Silence)),
        }
    }
}

/// The error met at a head frame `pos` when reading, with the CRC at `crc`,
/// the segment header at `at` and then the segment's first PCM sample (with
/// its trailer if the segment is one frame long) or its expression, which
/// must parse, if any.
pub open spec fn head_step_error(
    d: Seq<u8>,
    at: int,
    pos: u64,
    crc: u32,
    kind: LpcmKind,
    lpcm: bool,
) -> Option<BubError> {
    match segment_header_error(d, at, pos) {
        Some(e) => Some(e),
        None => {
            let body = at + segment_header_len(d, at);
            let crc_body = crc_feed(crc, d.subrange(at, body));
            if lpcm {
                lpcm_step_error(d, body, kind.spec_bytes() as int, foot_relative_at(d, at) == 1, crc_body)
            } else if expr_step_error(d, body, crc_body) is Some {
                expr_step_error(d, body, crc_body)
            } else if !is_sum_text(d.subrange(body + 2, body + 2 + expr_size_at(d, body))) {
                Some(BubError::InvalidData)
            } else {
                None
            }
        },
    }
}

} // verus!
