//! Integrity checks and slot resolution for generation-3 handheld save files.
//!
//! A save file is a 128 KiB image made of 32 sectors of 4 KiB. Sectors 0..14
//! form slot A and sectors 14..28 form slot B; each slot is a full copy of the
//! game state. The library decodes the sectors, checks their checksums,
//! classifies each slot and picks the slot that holds the latest save.
pub mod checksum;
pub mod layout;
pub mod save;
pub mod sector;
pub mod slot;
pub mod trainer;

pub use layout::{
    SaveError, SAVE_SIZE, SECTOR_COUNT, SECTOR_SIZE, SECURITY_MARKER, SLOT_SECTORS,
};
pub use checksum::{calculate_checksum, section_length};
pub use sector::{ChecksumOutcome, Sector};
pub use slot::{SlotStatus, SlotStruct, SlotUsed};
pub use save::{is_valid_checksum, is_valid_save, sector_by_id, Gen3Save, Save};
pub use trainer::{Gender, SaveStruct, Trainer};
