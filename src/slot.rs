//! Classification of a slot and choice of the slot that holds the latest save.
use vstd::prelude::*;

use crate::checksum::{lemma_checksum_detects_byte_change, section_len};
use crate::layout::{SECURITY_MARKER, SLOT_SECTORS};
use crate::sector::{Sector, SectorView};

verus! {

/// State of one slot.
#[derive(Debug, Clone, Copy, PartialEq, Eq, Structural)]
pub enum SlotStatus {
    /// No sector of the slot was written.
    Empty,
    /// Every sector of the slot was written and passes its checksum.
    Valid,
    /// Some sector was written, but not every sector passes its checksum.
    Corrupt,
}

/// The slot that holds the latest valid save.
#[derive(Debug, Clone, Copy, PartialEq, Eq, Structural)]
pub enum SlotUsed {
    /// Sectors 0..14.
    A,
    /// Sectors 14..28.
    B,
}

/// Index of the first sector of a slot.
pub open spec fn slot_start(slot: SlotUsed) -> int {
    match slot {
        SlotUsed::A => 0,
        SlotUsed::B => 14,
    }
}

impl SlotUsed {
    /// Index of the first sector of the slot.
    pub fn first_sector(&self) -> (r: usize)
        ensures
            r == slot_start(*self),
    {
        match self {
            SlotUsed::A => 0,
            SlotUsed::B => SLOT_SECTORS,
        }
    }
}

/// Status of a slot with the save counter that goes with it.
#[derive(Debug, Clone, Copy, PartialEq, Eq, Structural)]
pub struct SlotStruct {
    pub counter: u32,
    pub status: SlotStatus,
}

/// The views of a sequence of sectors.
pub open spec fn views(s: Seq<Sector>) -> Seq<SectorView> {
    s.map_values(|x: Sector| x@)
}

/// `Valid` when every sector is sound, else `Corrupt` when some sector was
/// written, else `Empty`.
pub open spec fn slot_status(slot: Seq<SectorView>) -> SlotStatus {
    if forall|i: int| 0 <= i < slot.len() ==> #[trigger] slot[i].sound() {
        SlotStatus::Valid
    } else if exists|i: int| 0 <= i < slot.len() && #[trigger] slot[i].written() {
        SlotStatus::Corrupt
    } else {
        SlotStatus::Empty
    }
}

/// Save counter of the sound sector with the highest index; 0 when no sector is
/// sound.
pub open spec fn slot_counter(slot: Seq<SectorView>) -> u32
    decreases slot.len(),
{
    if slot.len() == 0 {
        0
    } else if slot.last().sound() {
        slot.last().save_counter
    } else {
        slot_counter(slot.drop_last())
    }
}

/// Status and counter of a slot.
pub open spec fn slot_summary(slot: Seq<SectorView>) -> SlotStruct {
    SlotStruct { counter: slot_counter(slot), status: slot_status(slot) }
}

/// The slot that holds the latest save, given the summaries of slots A and B.
/// Only a valid slot is chosen. Of two valid slots the one with the greater
/// counter wins, except that a counter of 0 follows a counter of `u32::MAX`
/// (the counter wrapped around); on equal counters slot A wins.
pub open spec fn resolve(a: SlotStruct, b: SlotStruct) -> Option<SlotUsed> {
    if a.status == SlotStatus::Valid && b.status == SlotStatus::Valid {
        if a.counter == u32::MAX && b.counter == 0 {
            Some(SlotUsed::B)
        } else if b.counter == u32::MAX && a.counter == 0 {
            Some(SlotUsed::A)
        } else if b.counter > a.counter {
            Some(SlotUsed::B)
        } else {
            Some(SlotUsed::A)
        }
    } else if a.status == SlotStatus::Valid {
        Some(SlotUsed::A)
    } else if b.status == SlotStatus::Valid {
        Some(SlotUsed::B)
    } else {
        None
    }
}

/// When no sector at or above `n` is sound, the counter of the slot is that of
/// its first `n` sectors.
pub proof fn lemma_counter_below(slot: Seq<SectorView>, n: int)
    requires
        0 <= n <= slot.len(),
        forall|j: int| n <= j < slot.len() ==> !(#[trigger] slot[j].sound()),
    ensures
        slot_counter(slot) == slot_counter(slot.subrange(0, n)),
    decreases slot.len() - n,
{
    if n < slot.len() {
        let shorter = slot.drop_last();
        assert(!slot.last().sound());
        lemma_counter_below(shorter, n);
        assert(shorter.subrange(0, n) =~= slot.subrange(0, n));
    } else {
        assert(slot.subrange(0, n) =~= slot);
    }
}

impl SlotStruct {
    /// Classifies a slot of 14 sectors and finds its counter.
    ///
    /// The sectors are scanned from the last to the first. The counter is taken
    /// from the first sound sector met. Once a sound sector has been met and some
    /// scanned sector is not sound, the slot cannot be valid and the scan stops.
    pub fn from_slot(slot: &[Sector]) -> (r: SlotStruct)
        requires
            slot@.len() == SLOT_SECTORS,
        ensures
            r == slot_summary(views(slot@)),
            (forall|i: int| 0 <= i < slot@.len() ==> #[trigger] slot@[i]@.sound()) ==> r.status
                == SlotStatus::Valid,
            (forall|i: int| 0 <= i < slot@.len() ==> !(#[trigger] slot@[i]@.written())) ==> r
                == (SlotStruct { counter: 0, status: SlotStatus::Empty }),
    {
        let ghost v = views(slot@);
        let mut written_seen = false;
        let mut checksums_passed: u32 = 0;
        let mut counter: u32 = 0;
        let mut stopped = false;
        let mut k: usize = 0;
        assert(v.subrange(0, 14) =~= v);
        while k < SLOT_SECTORS && !stopped
            invariant
                slot@.len() == 14,
                v == views(slot@),
                k <= 14,
                checksums_passed <= k,
                written_seen == exists|j: int| 14 - k <= j < 14 && #[trigger] v[j].written(),
                !stopped ==> (checksums_passed == 0 && counter == 0 && (forall|j: int|
                    14 - k <= j < 14 ==> !(#[trigger] v[j].sound())) && slot_counter(v)
                    == slot_counter(v.subrange(0, 14 - k))) || (k > 0 && checksums_passed == k
                    && (forall|j: int| 14 - k <= j < 14 ==> #[trigger] v[j].sound()) && counter
                    == slot_counter(v)),
                stopped ==> checksums_passed < k && written_seen && counter == slot_counter(v) && exists|j: int|
                    0 <= j < 14 && !(#[trigger] v[j].sound()),
            decreases 14 - k,
        {
            let idx = SLOT_SECTORS - 1 - k;
            let sector = &slot[idx];
            let ghost cur = v[idx as int];
            let ghost old_written = written_seen;
            let ghost old_passed = checksums_passed;
            assert(cur == sector@);
            if sector.security_marker == SECURITY_MARKER {
                written_seen = true;
                if sector.checksum_passed() {
                    if checksums_passed == 0 {
                        counter = sector.save_counter;
                    }
                    checksums_passed = checksums_passed + 1;
                }
            }
            proof {
                if cur.written() {
                    assert(v[idx as int].written());
                } else {
                    if exists|j: int| 14 - (k + 1) <= j < 14 && #[trigger] v[j].written() {
                        let j = choose|j: int| 14 - (k + 1) <= j < 14 && #[trigger] v[j].written();
                        assert(j != idx);
                    }
                }
                let pre = v.subrange(0, idx + 1);
                assert(pre.last() == cur);
                assert(pre.drop_last() =~= v.subrange(0, idx as int));
                if old_passed == 0 {
                    assert(slot_counter(v) == slot_counter(pre));
                    if cur.sound() {
                        assert(k > 0 ==> !v[13].sound());
                    } else {
                        assert forall|j: int| 14 - (k + 1) <= j < 14 implies !(
                        #[trigger] v[j].sound()) by {
                            if j != idx {
                            }
                        }
                    }
                } else {
                    assert(v[13].sound());
                    assert(v[13].written());
                    if cur.sound() {
                        assert forall|j: int| 14 - (k + 1) <= j < 14 implies #[trigger] v[j].sound() by {
                            if j != idx {
                            }
                        }
                    }
                }
            }
            k = k + 1;
            if checksums_passed != 0 && checksums_passed != k as u32 {
                stopped = true;
            }
        }
        let status = if checksums_passed == 14 {
            SlotStatus::Valid
        } else if written_seen {
            SlotStatus::Corrupt
        } else {
            SlotStatus::Empty
        };
        proof {
            if !stopped && checksums_passed == 0 {
                assert(v.subrange(0, 0) =~= Seq::<SectorView>::empty());
                assert(!v[0].sound());
            }
            if stopped {
                let j = choose|j: int| 0 <= j < 14 && !(#[trigger] v[j].sound());
                assert(!v[j].sound());
            }
        }
        SlotStruct { counter, status }
    }
}

impl SlotUsed {
    /// Picks the slot that holds the latest save from the summaries of slots A
    /// and B; `None` when neither slot is valid.
    pub fn from_slots(slot_a: SlotStruct, slot_b: SlotStruct) -> (r: Option<SlotUsed>)
        ensures
            r == resolve(slot_a, slot_b),
    {
        if slot_a.status == SlotStatus::Valid && slot_b.status == SlotStatus::Valid {
            if slot_a.counter == u32::MAX && slot_b.counter == 0 || slot_b.counter == u32::MAX
                && slot_a.counter == 0 {
                if slot_a.counter < slot_b.counter {
                    return Some(SlotUsed::A);
                }
                return Some(SlotUsed::B);
            }
            if slot_a.counter < slot_b.counter {
                return Some(SlotUsed::B);
            }
            return Some(SlotUsed::A);
        }
        if slot_a.status == SlotStatus::Valid {
            return Some(SlotUsed::A);
        }
        if slot_b.status == SlotStatus::Valid {
            return Some(SlotUsed::B);
        }
        None
    }
}

/// The slot with byte `k` of the data of sector `j` set to `v`.
pub open spec fn with_byte(slot: Seq<SectorView>, j: int, k: int, v: u8) -> Seq<SectorView> {
    slot.update(
        j,
        SectorView {
            data: slot[j].data.update(k, v),
            section_id: slot[j].section_id,
            stored_checksum: slot[j].stored_checksum,
            security_marker: slot[j].security_marker,
            save_counter: slot[j].save_counter,
        },
    )
}

/// A slot whose sectors are all sound is valid. Changing one byte of the
/// checksummed payload of one of its sectors makes it corrupt, and its counter
/// is then that of the highest sector that is still sound.
pub proof fn lemma_slot_payload_byte_change(slot: Seq<SectorView>, j: int, k: int, v: u8)
    requires
        slot.len() == 14,
        forall|i: int| 0 <= i < 14 ==> #[trigger] slot[i].sound(),
        0 <= j < 14,
        slot[j].data.len() == 0x1000,
        0 <= k < section_len(slot[j].section_id as int),
        v != slot[j].data[k],
    ensures
        slot_status(slot) == SlotStatus::Valid,
        slot_status(with_byte(slot, j, k, v)) == SlotStatus::Corrupt,
        slot_counter(with_byte(slot, j, k, v)) == if j == 13 {
            slot[12].save_counter
        } else {
            slot[13].save_counter
        },
{
    let changed = with_byte(slot, j, k, v);
    assert(slot[j].sound());
    let len = section_len(slot[j].section_id as int);
    let payload = slot[j].data.subrange(0, len);
    assert(changed[j].data.subrange(0, len) =~= payload.update(k, v));
    lemma_checksum_detects_byte_change(payload, k, v);
    assert(!changed[j].sound());
    assert(changed[j].written());
    let shorter = changed.drop_last();
    if j == 13 {
        assert(slot[12].sound());
        assert(shorter.last() == slot[12]);
        assert(slot_counter(shorter) == slot[12].save_counter);
        assert(changed.last() == changed[j]);
    } else {
        assert(slot[13].sound());
        assert(changed.last() == slot[13]);
    }
}

} // verus!
