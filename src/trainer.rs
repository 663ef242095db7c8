//! The trainer record read from the active slot of a decoded save.
use vstd::array::array_as_slice;
use vstd::prelude::*;
use vstd::slice::slice_subrange;

use crate::layout::{le_u16, read_u16_le, SaveError};
use crate::save::Save;
use crate::sector::Sector;
use crate::slot::{slot_start, SlotUsed};

verus! {

/// Offset of the gender byte within the trainer sector.
pub const GENDER_OFFSET: usize = 0x8;

/// Length of the encoded trainer name.
pub const NAME_LEN: usize = 7;

/// The trainer's gender.
#[derive(Debug, Clone, Copy, PartialEq, Eq, Structural)]
pub enum Gender {
    Boy,
    Girl,
}

/// The gender that the byte `b` encodes: 0 for a boy, 1 for a girl.
pub open spec fn gender_of(b: u8) -> Option<Gender> {
    if b == 0 {
        Some(Gender::Boy)
    } else if b == 1 {
        Some(Gender::Girl)
    } else {
        None
    }
}

impl Gender {
    /// Reads the gender byte of the trainer sector. Fails when it is neither 0
    /// nor 1.
    pub fn from_sector(sector: &Sector) -> (r: Result<Gender, SaveError>)
        ensures
            r == (match gender_of(sector.data@[0x8]) {
                Some(g) => Ok(g),
                None => Err(SaveError::InvalidGender),
            }),
    {
        let gender = sector.data[GENDER_OFFSET];
        if gender == 0 {
            Ok(Gender::Boy)
        } else if gender == 1 {
            Ok(Gender::Girl)
        } else {
            Err(SaveError::InvalidGender)
        }
    }
}

/// The trainer's encoded name and public and secret ids.
#[derive(Debug, Clone, Copy)]
pub struct Trainer {
    pub name: [u8; 7],
    pub public: u16,
    pub secret: u16,
}

impl Trainer {
    /// Reads the name (bytes 0..7), the public id (bytes 0xA..0xC) and the
    /// secret id (bytes 0xD..0xF) of the trainer sector.
    pub fn from_sector(sector: &Sector) -> (r: Trainer)
        ensures
            r.name@ == sector.data@.subrange(0, 7),
            r.public == le_u16(sector.data@.subrange(0xA, 0xC)),
            r.secret == le_u16(sector.data@.subrange(0xD, 0xF)),
    {
        let mut name = [0u8; 7];
        let mut i: usize = 0;
        while i < NAME_LEN
            invariant
                i <= NAME_LEN,
                forall|j: int| 0 <= j < i ==> name@[j] == sector.data@[j],
            decreases NAME_LEN - i,
        {
            name[i] = sector.data[i];
            i = i + 1;
        }
        assert(name@ =~= sector.data@.subrange(0, 7));
        let data = array_as_slice(&sector.data);
        let public = read_u16_le(slice_subrange(data, 0xA, 0xC));
        let secret = read_u16_le(slice_subrange(data, 0xD, 0xF));
        Trainer { name, public, secret }
    }
}

/// The trainer record of the active slot of a save.
#[derive(Debug, Clone, Copy)]
pub struct SaveStruct {
    pub slot_used: SlotUsed,
    pub trainer: Trainer,
    pub gender: Gender,
}

impl SaveStruct {
    /// Reads the trainer record from the second sector of the active slot. Fails
    /// when the save has no active slot, or when the gender byte is invalid.
    pub fn from_save(save: Save) -> (r: Result<SaveStruct, SaveError>)
        requires
            save.wf(),
        ensures
            save.slot_used is None ==> r == Err::<SaveStruct, SaveError>(SaveError::NoActiveSlot),
            save.slot_used matches Some(s) ==> {
                let sector = save.sectors@[slot_start(s) + 1];
                match gender_of(sector.data@[0x8]) {
                    None => r == Err::<SaveStruct, SaveError>(SaveError::InvalidGender),
                    Some(g) => r is Ok && r->Ok_0.slot_used == s && r->Ok_0.gender == g
                        && r->Ok_0.trainer.name@ == sector.data@.subrange(0, 7)
                        && r->Ok_0.trainer.public == le_u16(sector.data@.subrange(0xA, 0xC))
                        && r->Ok_0.trainer.secret == le_u16(sector.data@.subrange(0xD, 0xF)),
                }
            },
    {
        let slot_used = match save.slot_used {
            None => return Err(SaveError::NoActiveSlot),
            Some(s) => s,
        };
        let sector = &save.sectors[slot_used.first_sector() + 1];
        let trainer = Trainer::from_sector(sector);
        let gender = match Gender::from_sector(sector) {
            Err(e) => return Err(e),
            Ok(g) => g,
        };
        Ok(SaveStruct { slot_used, trainer, gender })
    }
}

} // verus!
