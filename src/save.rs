//! A whole save image: its 32 sectors and the slot that holds the latest save.
use vstd::prelude::*;
use vstd::slice::slice_subrange;

use crate::layout::{
    lemma_u16_round_trip, lemma_u32_round_trip, u16_le_bytes, u32_le_bytes, SaveError, SAVE_SIZE,
    SECTOR_COUNT, SECTOR_SIZE, SLOT_SECTORS,
};
use crate::sector::{decode_sector, ChecksumOutcome, Sector, SectorView, UNWRITTEN_SECTION};
use crate::slot::{resolve, slot_start, slot_summary, views, SlotStruct, SlotUsed};

verus! {

/// The 4096 bytes of sector `id` of `buffer`.
pub open spec fn sector_bytes(buffer: Seq<u8>, id: int) -> Seq<u8> {
    buffer.subrange(id * 0x1000, id * 0x1000 + 0x1000)
}

/// The 32 sectors that `buffer` holds.
pub open spec fn decode_save(buffer: Seq<u8>) -> Seq<SectorView> {
    Seq::new(32, |i: int| decode_sector(sector_bytes(buffer, i)))
}

/// The sectors of `slot` among the 32 sectors `s` of an image.
pub open spec fn slot_of(s: Seq<SectorView>, slot: SlotUsed) -> Seq<SectorView> {
    s.subrange(slot_start(slot), slot_start(slot) + 14)
}

/// The slot that holds the latest save among the 32 sectors `s`.
pub open spec fn active_slot_of(s: Seq<SectorView>) -> Option<SlotUsed> {
    resolve(slot_summary(slot_of(s, SlotUsed::A)), slot_summary(slot_of(s, SlotUsed::B)))
}

/// The slot that holds the latest save in the image `buffer`.
pub open spec fn active_slot(buffer: Seq<u8>) -> Option<SlotUsed> {
    active_slot_of(decode_save(buffer))
}

/// The view of a sector that was never written.
pub open spec fn blank_sector() -> SectorView {
    SectorView {
        data: Seq::new(0x1000, |i: int| 0u8),
        section_id: 0xFF,
        stored_checksum: 0,
        security_marker: 0,
        save_counter: 0,
    }
}

/// A decoded save image.
pub struct Save {
    /// The 32 sectors of the image.
    pub sectors: Vec<Sector>,
    /// The slot that holds the latest save, if any slot is valid.
    pub slot_used: Option<SlotUsed>,
}

impl Save {
    /// The image holds its 32 sectors.
    pub open spec fn wf(&self) -> bool {
        self.sectors@.len() == 32
    }

    /// An image of 32 sectors that were never written, with no active slot.
    pub fn new() -> (r: Save)
        ensures
            r.wf(),
            views(r.sectors@) == Seq::new(32, |i: int| blank_sector()),
            r.slot_used is None,
    {
        let mut sectors: Vec<Sector> = Vec::new();
        let mut i: usize = 0;
        while i < SECTOR_COUNT
            invariant
                i <= SECTOR_COUNT,
                sectors@.len() == i,
                forall|j: int| 0 <= j < i ==> #[trigger] sectors@[j]@ == blank_sector(),
            decreases SECTOR_COUNT - i,
        {
            let blank = Sector::new();
            assert(blank@ == blank_sector()) by {
                assert(blank@.data =~= blank_sector().data);
            }
            sectors.push(blank);
            i = i + 1;
        }
        assert(views(sectors@) =~= Seq::new(32, |i: int| blank_sector()));
        Save { sectors, slot_used: None }
    }

    /// Decodes a save image: its 32 sectors and the slot that holds the latest
    /// save. Fails when the buffer is not exactly `SAVE_SIZE` bytes long.
    pub fn from_buffer(buffer: &[u8]) -> (r: Result<Save, SaveError>)
        ensures
            buffer@.len() != SAVE_SIZE ==> r == Err::<Save, SaveError>(SaveError::InvalidLength),
            buffer@.len() == SAVE_SIZE ==> {
                &&& r is Ok
                &&& r->Ok_0.wf()
                &&& views(r->Ok_0.sectors@) == decode_save(buffer@)
                &&& r->Ok_0.slot_used == active_slot(buffer@)
            },
    {
        if buffer.len() != SAVE_SIZE {
            return Err(SaveError::InvalidLength);
        }
        let mut save = Save::new();
        let mut i: usize = 0;
        while i < SECTOR_COUNT
            invariant
                buffer@.len() == SAVE_SIZE,
                i <= SECTOR_COUNT,
                save.sectors@.len() == 32,
                forall|j: int| 0 <= j < i ==> #[trigger] save.sectors@[j]@ == decode_save(buffer@)[j],
            decreases SECTOR_COUNT - i,
        {
            let offset = i * SECTOR_SIZE;
            let sector = Sector::from_slice(slice_subrange(buffer, offset, offset + SECTOR_SIZE));
            save.sectors.set(i, sector);
            i = i + 1;
        }
        assert(views(save.sectors@) =~= decode_save(buffer@));
        Ok(save.get_slot())
    }

    /// Sets the active slot from the summaries of slots A and B.
    fn get_slot(self) -> (r: Save)
        requires
            self.wf(),
        ensures
            r.sectors@ == self.sectors@,
            r.slot_used == active_slot_of(views(self.sectors@)),
    {
        let all = self.sectors.as_slice();
        let slot_a = SlotStruct::from_slot(slice_subrange(all, 0, SLOT_SECTORS));
        let slot_b = SlotStruct::from_slot(slice_subrange(all, SLOT_SECTORS, 2 * SLOT_SECTORS));
        assert(views(self.sectors@.subrange(0, 14)) =~= slot_of(views(self.sectors@), SlotUsed::A));
        assert(views(self.sectors@.subrange(14, 28)) =~= slot_of(views(self.sectors@), SlotUsed::B));
        let slot_used = SlotUsed::from_slots(slot_a, slot_b);
        Save { sectors: self.sectors, slot_used }
    }

    /// The 14 sectors of slot A (`slot_index` 0) or slot B (`slot_index` 1).
    pub fn to_slot(&self, slot_index: u8) -> (r: Result<Vec<Sector>, SaveError>)
        requires
            self.wf(),
        ensures
            slot_index == 0 ==> r is Ok && r->Ok_0@ == self.sectors@.subrange(0, 14),
            slot_index == 1 ==> r is Ok && r->Ok_0@ == self.sectors@.subrange(14, 28),
            slot_index > 1 ==> r == Err::<Vec<Sector>, SaveError>(SaveError::SlotOutOfRange),
    {
        let offset = if slot_index == 0 {
            0
        } else if slot_index == 1 {
            SLOT_SECTORS
        } else {
            return Err(SaveError::SlotOutOfRange);
        };
        let mut slot: Vec<Sector> = Vec::new();
        let mut j: usize = 0;
        while j < SLOT_SECTORS
            invariant
                self.wf(),
                offset == 0 || offset == 14,
                j <= SLOT_SECTORS,
                slot@ == self.sectors@.subrange(offset as int, offset + j),
            decreases SLOT_SECTORS - j,
        {
            slot.push(self.sectors[offset + j]);
            j = j + 1;
            assert(slot@ =~= self.sectors@.subrange(offset as int, offset + j));
        }
        Ok(slot)
    }
}

/// Decodes sector `sector_id` of a save image. Fails when the id is 32 or more,
/// or else when the buffer is not exactly `SAVE_SIZE` bytes long.
pub fn sector_by_id(sector_id: u8, buffer: &[u8]) -> (r: Result<Sector, SaveError>)
    ensures
        sector_id >= 32 ==> r == Err::<Sector, SaveError>(SaveError::SectorOutOfRange),
        sector_id < 32 && buffer@.len() != SAVE_SIZE ==> r == Err::<Sector, SaveError>(
            SaveError::InvalidLength,
        ),
        sector_id < 32 && buffer@.len() == SAVE_SIZE ==> r is Ok && r->Ok_0@ == decode_sector(
            sector_bytes(buffer@, sector_id as int),
        ),
{
    if sector_id as usize >= SECTOR_COUNT {
        return Err(SaveError::SectorOutOfRange);
    }
    if buffer.len() != SAVE_SIZE {
        return Err(SaveError::InvalidLength);
    }
    let offset = (sector_id as usize) << 12;
    assert(offset == sector_id * 0x1000) by (bit_vector)
        requires
            offset == (sector_id as usize) << 12,
            sector_id < 32,
    ;
    Ok(Sector::from_slice(slice_subrange(buffer, offset, offset + SECTOR_SIZE)))
}

/// The slot that holds the latest save of an image.
#[derive(Debug, Clone, Copy, PartialEq, Eq, Structural)]
pub struct Gen3Save {
    pub save_slot: SlotUsed,
}

impl Gen3Save {
    /// Finds the slot that holds the latest save. Fails when the buffer is not
    /// exactly `SAVE_SIZE` bytes long, or when neither slot is valid.
    pub fn from_buffer(buffer: &[u8]) -> (r: Result<Gen3Save, SaveError>)
        ensures
            r == (if buffer@.len() != SAVE_SIZE {
                Err(SaveError::InvalidLength)
            } else {
                match active_slot(buffer@) {
                    Some(s) => Ok(Gen3Save { save_slot: s }),
                    None => Err(SaveError::NoActiveSlot),
                }
            }),
    {
        match Save::from_buffer(buffer) {
            Err(e) => Err(e),
            Ok(save) => match save.slot_used {
                Some(save_slot) => Ok(Gen3Save { save_slot }),
                None => Err(SaveError::NoActiveSlot),
            },
        }
    }
}

/// The verdict of checking the checksums of sectors `s`, first to last: `Ok(false)`
/// at the first sector whose checksum fails, an error at the first sector whose
/// section id is neither in the table nor the unwritten marker, else `Ok(true)`.
/// Sectors with the unwritten marker are skipped.
pub open spec fn checksums_verdict(s: Seq<SectorView>) -> Result<bool, SaveError>
    decreases s.len(),
{
    if s.len() == 0 {
        Ok(true)
    } else if s[0].section_id == 0xFF || s[0].checksum_ok() {
        checksums_verdict(s.drop_first())
    } else if s[0].section_id >= 14 {
        Err(SaveError::SectionOutOfRange)
    } else {
        Ok(false)
    }
}

/// Checks the checksums of the sectors of both slots (sectors 0..28), skipping
/// unwritten sectors. Fails when the buffer is not exactly `SAVE_SIZE` bytes
/// long, or at a sector whose section id is out of range.
pub fn is_valid_checksum(buffer: &[u8]) -> (r: Result<bool, SaveError>)
    ensures
        buffer@.len() != SAVE_SIZE ==> r == Err::<bool, SaveError>(SaveError::InvalidLength),
        buffer@.len() == SAVE_SIZE ==> r == checksums_verdict(decode_save(buffer@).subrange(0, 28)),
{
    let save = match Save::from_buffer(buffer) {
        Err(e) => return Err(e),
        Ok(save) => save,
    };
    let ghost s = decode_save(buffer@).subrange(0, 28);
    assert(s.subrange(0, 28) =~= s);
    let mut i: usize = 0;
    while i < 2 * SLOT_SECTORS
        invariant
            buffer@.len() == SAVE_SIZE,
            save.wf(),
            views(save.sectors@) == decode_save(buffer@),
            s == decode_save(buffer@).subrange(0, 28),
            i <= 28,
            checksums_verdict(s) == checksums_verdict(s.subrange(i as int, 28)),
        decreases 28 - i,
    {
        let ghost rest = s.subrange(i as int, 28);
        assert(rest[0] == save.sectors@[i as int]@);
        assert(rest.drop_first() =~= s.subrange(i + 1, 28));
        match save.sectors[i].checksum_outcome() {
            Err(e) => return Err(e),
            Ok(ChecksumOutcome::Fail) => return Ok(false),
            _ => {},
        }
        i = i + 1;
    }
    assert(s.subrange(28, 28) =~= Seq::<SectorView>::empty());
    Ok(true)
}

/// Whether the buffer is a save image with a valid slot.
pub fn is_valid_save(buffer: &[u8]) -> (r: bool)
    ensures
        r == (buffer@.len() == SAVE_SIZE && active_slot(buffer@) is Some),
{
    match Save::from_buffer(buffer) {
        Err(_) => false,
        Ok(save) => save.slot_used.is_some(),
    }
}

/// Re-encoding the section id, stored checksum, security marker and save counter
/// of any decoded sector of an image gives back the bytes they were read from.
pub proof fn lemma_sector_fields_round_trip(buffer: Seq<u8>, sector_id: int)
    requires
        buffer.len() == SAVE_SIZE,
        0 <= sector_id < 32,
    ensures
        ({
            let s = decode_save(buffer)[sector_id];
            let b = sector_bytes(buffer, sector_id);
            &&& seq![s.section_id] == b.subrange(0xFF4, 0xFF5)
            &&& u16_le_bytes(s.stored_checksum) == b.subrange(0xFF6, 0xFF8)
            &&& u32_le_bytes(s.security_marker) == b.subrange(0xFF8, 0xFFC)
            &&& u32_le_bytes(s.save_counter) == b.subrange(0xFFC, 0x1000)
        }),
{
    let b = sector_bytes(buffer, sector_id);
    assert(seq![b[0xFF4]] =~= b.subrange(0xFF4, 0xFF5));
    lemma_u16_round_trip(b.subrange(0xFF6, 0xFF8));
    lemma_u32_round_trip(b.subrange(0xFF8, 0xFFC));
    lemma_u32_round_trip(b.subrange(0xFFC, 0x1000));
}

} // verus!
