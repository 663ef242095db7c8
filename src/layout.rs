//! Sizes and offsets of the save image, little-endian reads, and the error type.
use byteorder::{ByteOrder, LittleEndian};
use vstd::prelude::*;

verus! {

/// Size in bytes of a whole save image.
pub const SAVE_SIZE: usize = 0x20000;

/// Size in bytes of one sector.
pub const SECTOR_SIZE: usize = 0x1000;

/// Number of sectors in a save image.
pub const SECTOR_COUNT: usize = 32;

/// Number of sectors in one slot.
pub const SLOT_SECTORS: usize = 14;

/// Value of the security field of every sector that was written by the game.
pub const SECURITY_MARKER: u32 = 0x08012025;

/// Offset of the section id within a sector.
pub const SECTION_ID_OFFSET: usize = 0xFF4;

/// Offset of the stored checksum within a sector.
pub const CHECKSUM_OFFSET: usize = 0xFF6;

/// Offset of the security marker within a sector.
pub const MARKER_OFFSET: usize = 0xFF8;

/// Offset of the save counter within a sector.
pub const COUNTER_OFFSET: usize = 0xFFC;

/// Errors reported by the decoder.
#[derive(Debug, Clone, Copy, PartialEq, Eq, Structural)]
pub enum SaveError {
    /// The buffer is not exactly `SAVE_SIZE` bytes long.
    InvalidLength,
    /// A sector id of 32 or more was asked for.
    SectorOutOfRange,
    /// A section id of 14 or more (other than the unwritten marker 0xFF) was used
    /// to look up a payload length.
    SectionOutOfRange,
    /// A slot index other than 0 (slot A) or 1 (slot B) was asked for.
    SlotOutOfRange,
    /// Neither slot holds a valid save.
    NoActiveSlot,
    /// The gender byte of the trainer record is neither 0 nor 1.
    InvalidGender,
}

/// The 16-bit unsigned integer stored little-endian in the first two bytes of `b`.
pub open spec fn le_u16(b: Seq<u8>) -> u16 {
    (b[0] as int + b[1] as int * 0x100) as u16
}

/// The 32-bit unsigned integer stored little-endian in the first four bytes of `b`.
pub open spec fn le_u32(b: Seq<u8>) -> u32 {
    (b[0] as int + b[1] as int * 0x100 + b[2] as int * 0x10000 + b[3] as int * 0x1000000) as u32
}

/// The two bytes that store `v` little-endian.
pub open spec fn u16_le_bytes(v: u16) -> Seq<u8> {
    seq![(v % 0x100) as u8, (v / 0x100) as u8]
}

/// The four bytes that store `v` little-endian.
pub open spec fn u32_le_bytes(v: u32) -> Seq<u8> {
    seq![
        (v % 0x100) as u8,
        ((v / 0x100) % 0x100) as u8,
        ((v / 0x10000) % 0x100) as u8,
        (v / 0x1000000) as u8,
    ]
}

/// Relies on byteorder's `LittleEndian::read_u16`: the first two bytes of the
/// slice, least significant first. It panics on a shorter slice.
#[verifier::external_body]
pub(crate) fn read_u16_le(b: &[u8]) -> (r: u16)
    requires
        b@.len() >= 2,
    ensures
        r == le_u16(b@),
{
    LittleEndian::read_u16(b)
}

/// Relies on byteorder's `LittleEndian::read_u32`: the first four bytes of the
/// slice, least significant first. It panics on a shorter slice.
#[verifier::external_body]
pub(crate) fn read_u32_le(b: &[u8]) -> (r: u32)
    requires
        b@.len() >= 4,
    ensures
        r == le_u32(b@),
{
    LittleEndian::read_u32(b)
}

/// Reading back the bytes that store a 16-bit value gives the value.
pub proof fn lemma_u16_round_trip(b: Seq<u8>)
    requires
        b.len() == 2,
    ensures
        u16_le_bytes(le_u16(b)) == b,
{
    let v = le_u16(b);
    assert(v as int == b[0] as int + b[1] as int * 0x100);
    assert(u16_le_bytes(v) =~= b);
}

/// Reading back the bytes that store a 32-bit value gives the value.
pub proof fn lemma_u32_round_trip(b: Seq<u8>)
    requires
        b.len() == 4,
    ensures
        u32_le_bytes(le_u32(b)) == b,
{
    let v = le_u32(b);
    let (b0, b1, b2, b3) = (b[0] as int, b[1] as int, b[2] as int, b[3] as int);
    assert(v as int == b0 + b1 * 0x100 + b2 * 0x10000 + b3 * 0x1000000);
    assert(u32_le_bytes(v) =~= b);
}

} // verus!
