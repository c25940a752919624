//! The CRC-32K/4.2 envelope that chains the segments of a bubble stream.
//!
//! The engine is mycrc's `CRC<u32>`; the library keeps its register as a plain
//! `u32` and rebuilds the engine around it for every call.
use mycrc::{Endian, CRC};
use vstd::bytes::spec_u32_to_le_bytes;
use vstd::prelude::*;

verus! {

/// Generator polynomial of CRC-32K/4.2 (Koopman), in normal form.
pub const CRC_POLY: u32 = 0x93a4_09eb;

/// Initial register value before reflection.
pub const CRC_INIT: u32 = 0xffff_ffff;

/// Value xored into the register to form the checksum.
pub const CRC_XOROUT: u32 = 0xffff_ffff;

/// The register that results from feeding `bytes` to a CRC-32K/4.2 engine whose
/// register holds `value`.
pub uninterp spec fn crc_feed(value: u32, bytes: Seq<u8>) -> u32;

/// Whether a CRC-32K/4.2 engine whose register holds `value` has reached the
/// residue of an error-free message followed by its checksum.
pub uninterp spec fn crc_error_free(value: u32) -> bool;

/// The four trailer bytes that close a message whose register is `value`.
pub open spec fn crc_trailer(value: u32) -> Seq<u8> {
    spec_u32_to_le_bytes(value ^ CRC_XOROUT)
}

/// Relies on mycrc's `CRC::calc_bytes`: the new register depends on the old
/// register and the bytes alone.
#[verifier::external_body]
fn crc_calc_bytes(value: u32, bytes: &[u8]) -> (r: u32)
    ensures
        r == crc_feed(value, bytes@),
{
    let mut engine = CRC::<u32>::new(Endian::Little, CRC_POLY, CRC_INIT, true, true, CRC_XOROUT);
    engine.value = value;
    engine.calc_bytes(bytes).value
}

/// Relies on mycrc's `CRC::is_error_free`: a comparison of the register with
/// the algorithm's residue.
#[verifier::external_body]
fn crc_is_error_free(value: u32) -> (r: bool)
    ensures
        r == crc_error_free(value),
{
    let mut engine = CRC::<u32>::new(Endian::Little, CRC_POLY, CRC_INIT, true, true, CRC_XOROUT);
    engine.value = value;
    engine.is_error_free()
}

/// Relies on mycrc's `CRC::initialize`: with reflected input the register
/// becomes the reflected initial value, and all ones reflect to all ones.
#[verifier::external_body]
fn crc_initial() -> (r: u32)
    ensures
        r == CRC_INIT,
{
    let mut engine = CRC::<u32>::new(Endian::Little, CRC_POLY, CRC_INIT, true, true, CRC_XOROUT);
    engine.initialize().value
}

/// Relies on mycrc's `CRC::finalize_to_endian_bytes`: with reflected input and
/// output the checksum is the register xored with `xorout`, in little-endian
/// order; a message followed by its checksum is error-free.
#[verifier::external_body]
fn crc_finalize(value: u32) -> (r: [u8; 4])
    ensures
        r@ == crc_trailer(value),
        crc_error_free(crc_feed(value, r@)),
{
    let mut engine = CRC::<u32>::new(Endian::Little, CRC_POLY, CRC_INIT, true, true, CRC_XOROUT);
    engine.value = value;
    engine.finalize_to_endian_bytes()
}

/// Running CRC-32K/4.2 over the bytes of a segment.
#[derive(Clone, Copy, Debug, PartialEq, Eq)]
pub struct Crc {
    /// The engine's register.
    pub value: u32,
}

impl Crc {
    /// A freshly initialized CRC.
    pub fn new() -> (r: Crc)
        ensures
            r.value == CRC_INIT,
    {
        Crc { value: crc_initial() }
    }

    /// Resets the register to its initial value.
    pub fn initialize(&mut self)
        ensures
            final(self).value == CRC_INIT,
    {
        self.value = crc_initial();
    }

    /// Feeds `bytes` into the register.
    pub fn calc_bytes(&mut self, bytes: &[u8])
        ensures
            final(self).value == crc_feed(old(self).value, bytes@),
    {
        self.value = crc_calc_bytes(self.value, bytes);
    }

    /// Whether the bytes fed so far end in a matching checksum.
    pub fn is_error_free(&self) -> (r: bool)
        ensures
            r == crc_error_free(self.value),
    {
        crc_is_error_free(self.value)
    }

    /// The checksum of the bytes fed so far, as trailer bytes.
    pub fn finalize_to_endian_bytes(&self) -> (r: [u8; 4])
        ensures
            r@ == crc_trailer(self.value),
            crc_error_free(crc_feed(self.value, r@)),
    {
        crc_finalize(self.value)
    }
}

} // verus!
