//! One 4 KiB sector: its decoded fields and its checksum outcome.
use vstd::array::array_as_slice;
use vstd::prelude::*;
use vstd::slice::slice_subrange;

use crate::checksum::{calculate_checksum, checksum_of, section_len, section_length};
use crate::layout::{
    le_u16, le_u32, read_u16_le, read_u32_le, SaveError, CHECKSUM_OFFSET, COUNTER_OFFSET,
    MARKER_OFFSET, SECTION_ID_OFFSET, SECTOR_SIZE, SECURITY_MARKER,
};

verus! {

/// Section id of a sector that was never written.
pub const UNWRITTEN_SECTION: u8 = 0xFF;

/// What a sector means: its bytes and the fields decoded from them.
pub struct SectorView {
    pub data: Seq<u8>,
    pub section_id: u8,
    pub stored_checksum: u16,
    pub security_marker: u32,
    pub save_counter: u32,
}

impl SectorView {
    /// The sector carries the security marker, so the game wrote it.
    pub open spec fn written(self) -> bool {
        self.security_marker == SECURITY_MARKER
    }

    /// The section id indexes the length table and the checksum of the payload
    /// equals the stored one.
    pub open spec fn checksum_ok(self) -> bool {
        &&& self.section_id < 14
        &&& checksum_of(self.data.subrange(0, section_len(self.section_id as int)))
            == self.stored_checksum
    }

    /// The sector was written and its checksum holds.
    pub open spec fn sound(self) -> bool {
        self.written() && self.checksum_ok()
    }
}

/// The sector that the 4096 bytes `b` hold.
pub open spec fn decode_sector(b: Seq<u8>) -> SectorView {
    SectorView {
        data: b,
        section_id: b[0xFF4],
        stored_checksum: le_u16(b.subrange(0xFF6, 0xFF8)),
        security_marker: le_u32(b.subrange(0xFF8, 0xFFC)),
        save_counter: le_u32(b.subrange(0xFFC, 0x1000)),
    }
}

/// Result of checking the checksum of one sector.
#[derive(Debug, Clone, Copy, PartialEq, Eq, Structural)]
pub enum ChecksumOutcome {
    /// The computed checksum equals the stored one.
    Pass,
    /// The computed checksum differs from the stored one.
    Fail,
    /// The sector carries the unwritten section id and was not checked.
    Skipped,
}

/// One decoded sector of a save image.
#[derive(Clone, Copy)]
pub struct Sector {
    /// The raw bytes of the sector.
    pub data: [u8; 0x1000],
    /// Section kind, 0..14, or 0xFF for a sector that was never written.
    pub section_id: u8,
    /// Checksum stored in the sector.
    pub stored_checksum: u16,
    /// Security marker; equals `SECURITY_MARKER` in a written sector.
    pub security_marker: u32,
    /// Sequence number of the save operation that wrote the sector.
    pub save_counter: u32,
}

impl View for Sector {
    type V = SectorView;

    open spec fn view(&self) -> SectorView {
        SectorView {
            data: self.data@,
            section_id: self.section_id,
            stored_checksum: self.stored_checksum,
            security_marker: self.security_marker,
            save_counter: self.save_counter,
        }
    }
}

impl Sector {
    /// A sector that was never written: zero bytes, the unwritten section id and
    /// zero fields.
    pub fn new() -> (r: Sector)
        ensures
            r.data@ == Seq::new(0x1000, |i: int| 0u8),
            r.section_id == UNWRITTEN_SECTION,
            r.stored_checksum == 0,
            r.security_marker == 0,
            r.save_counter == 0,
    {
        let data = [0u8; 0x1000];
        assert(data@ =~= Seq::new(0x1000, |i: int| 0u8));
        Sector { data, section_id: UNWRITTEN_SECTION, stored_checksum: 0, security_marker: 0, save_counter: 0 }
    }

    /// Decodes a sector from its 4096 bytes.
    pub fn from_slice(slice: &[u8]) -> (r: Sector)
        requires
            slice@.len() == SECTOR_SIZE,
        ensures
            r@ == decode_sector(slice@),
    {
        let mut data = [0u8; 0x1000];
        let mut i: usize = 0;
        while i < SECTOR_SIZE
            invariant
                slice@.len() == SECTOR_SIZE,
                i <= SECTOR_SIZE,
                forall|j: int| 0 <= j < i ==> data@[j] == slice@[j],
            decreases SECTOR_SIZE - i,
        {
            data[i] = slice[i];
            i = i + 1;
        }
        assert(data@ =~= slice@);
        let section_id = slice[SECTION_ID_OFFSET];
        let stored_checksum = read_u16_le(slice_subrange(slice, CHECKSUM_OFFSET, MARKER_OFFSET));
        let security_marker = read_u32_le(slice_subrange(slice, MARKER_OFFSET, COUNTER_OFFSET));
        let save_counter = read_u32_le(slice_subrange(slice, COUNTER_OFFSET, SECTOR_SIZE));
        Sector { data, section_id, stored_checksum, security_marker, save_counter }
    }

    /// Checks the sector's checksum. A sector with the unwritten section id is
    /// skipped; any other section id of 14 or more is an error.
    pub fn checksum_outcome(&self) -> (r: Result<ChecksumOutcome, SaveError>)
        ensures
            self.section_id == UNWRITTEN_SECTION ==> r == Ok::<ChecksumOutcome, SaveError>(
                ChecksumOutcome::Skipped,
            ),
            14 <= self.section_id < UNWRITTEN_SECTION ==> r == Err::<ChecksumOutcome, SaveError>(
                SaveError::SectionOutOfRange,
            ),
            self.section_id < 14 ==> r == Ok::<ChecksumOutcome, SaveError>(
                if self@.checksum_ok() {
                    ChecksumOutcome::Pass
                } else {
                    ChecksumOutcome::Fail
                },
            ),
    {
        if self.section_id == UNWRITTEN_SECTION {
            return Ok(ChecksumOutcome::Skipped);
        }
        match section_length(self.section_id) {
            None => Err(SaveError::SectionOutOfRange),
            Some(len) => {
                let computed = calculate_checksum(slice_subrange(array_as_slice(&self.data), 0, len));
                if computed == self.stored_checksum {
                    Ok(ChecksumOutcome::Pass)
                } else {
                    Ok(ChecksumOutcome::Fail)
                }
            },
        }
    }

    /// Whether the section id indexes the length table and the checksum holds.
    pub fn checksum_passed(&self) -> (r: bool)
        ensures
            r == self@.checksum_ok(),
    {
        match self.checksum_outcome() {
            Ok(ChecksumOutcome::Pass) => true,
            _ => false,
        }
    }
}

} // verus!
