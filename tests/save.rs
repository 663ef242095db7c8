use libpomeg::{
    is_valid_checksum, is_valid_save, sector_by_id, ChecksumOutcome, Gen3Save, Gender, Save,
    SaveError, SaveStruct, Sector, SlotUsed, SAVE_SIZE, SECURITY_MARKER,
};

fn reference_checksum(payload: &[u8]) -> u16 {
    let mut sum: u32 = 0;
    for chunk in payload.chunks(4) {
        sum = sum.wrapping_add(u32::from_le_bytes([chunk[0], chunk[1], chunk[2], chunk[3]]));
    }
    ((sum >> 16) as u16).wrapping_add(sum as u16)
}

fn payload_len(section_id: u8) -> usize {
    match section_id {
        0 => 3884,
        4 => 3848,
        13 => 2000,
        _ => 3968,
    }
}

/// Writes the footer of sector `sector_id` of `image` and a checksum that holds.
fn seal(image: &mut [u8], sector_id: usize, section_id: u8, counter: u32) {
    let s = &mut image[sector_id * 0x1000..(sector_id + 1) * 0x1000];
    s[0xFF4] = section_id;
    s[0xFF8..0xFFC].copy_from_slice(&SECURITY_MARKER.to_le_bytes());
    s[0xFFC..0x1000].copy_from_slice(&counter.to_le_bytes());
    let sum = reference_checksum(&s[..payload_len(section_id)]);
    s[0xFF6..0xFF8].copy_from_slice(&sum.to_le_bytes());
}

/// An image whose slots hold sound sectors with the given counters; `None`
/// leaves a slot unwritten.
fn image(counter_a: Option<u32>, counter_b: Option<u32>) -> Vec<u8> {
    let mut image: Vec<u8> = (0..SAVE_SIZE as u32).map(|i| (i % 251) as u8).collect();
    for sector in 0..32 {
        let s = sector * 0x1000;
        for b in &mut image[s + 0xFF4..s + 0x1000] {
            *b = 0;
        }
    }
    for (first, counter) in [(0, counter_a), (14, counter_b)] {
        if let Some(c) = counter {
            for i in 0..14 {
                seal(&mut image, first + i, i as u8, c);
            }
        }
    }
    image
}

#[test]
fn from_buffer_rejects_every_other_length() {
    for len in [0usize, 1, 0x1000, 0x1FFFF, 0x20001, 0x40000] {
        let buffer = vec![0u8; len];
        assert!(matches!(Save::from_buffer(&buffer), Err(SaveError::InvalidLength)), "{}", len);
        assert_eq!(Gen3Save::from_buffer(&buffer), Err(SaveError::InvalidLength));
        assert_eq!(is_valid_checksum(&buffer), Err(SaveError::InvalidLength));
        assert!(!is_valid_save(&buffer));
    }
}

#[test]
fn from_buffer_decodes_every_sector() {
    let buffer = image(Some(5), Some(3));
    let save = Save::from_buffer(&buffer).unwrap();
    assert_eq!(save.sectors.len(), 32);
    for (i, sector) in save.sectors.iter().enumerate() {
        assert_eq!(&sector.data[..], &buffer[i * 0x1000..(i + 1) * 0x1000]);
    }
    assert_eq!(save.sectors[3].section_id, 3);
    assert_eq!(save.sectors[17].section_id, 3);
    assert_eq!(save.sectors[17].save_counter, 3);
    assert_eq!(save.sectors[30].security_marker, 0);
}

#[test]
fn slot_a_with_greater_counter_is_active() {
    let save = Save::from_buffer(&image(Some(5), Some(3))).unwrap();
    assert_eq!(save.slot_used, Some(SlotUsed::A));
}

#[test]
fn slot_b_with_greater_counter_is_active() {
    let save = Save::from_buffer(&image(Some(3), Some(5))).unwrap();
    assert_eq!(save.slot_used, Some(SlotUsed::B));
}

#[test]
fn wrapped_counter_in_slot_b_is_active() {
    let save = Save::from_buffer(&image(Some(0xFFFF_FFFF), Some(0))).unwrap();
    assert_eq!(save.slot_used, Some(SlotUsed::B));
}

#[test]
fn only_written_slot_is_active() {
    let save = Save::from_buffer(&image(None, Some(1))).unwrap();
    assert_eq!(save.slot_used, Some(SlotUsed::B));
}

#[test]
fn unwritten_image_has_no_active_slot() {
    let buffer = image(None, None);
    let save = Save::from_buffer(&buffer).unwrap();
    assert_eq!(save.slot_used, None);
    assert_eq!(Gen3Save::from_buffer(&buffer), Err(SaveError::NoActiveSlot));
    assert!(!is_valid_save(&buffer));
}

#[test]
fn corrupt_slot_loses_to_valid_slot() {
    let mut buffer = image(Some(9), Some(2));
    buffer[4 * 0x1000 + 100] ^= 0x01;
    let save = Save::from_buffer(&buffer).unwrap();
    assert_eq!(save.slot_used, Some(SlotUsed::B));
    assert_eq!(Gen3Save::from_buffer(&buffer), Ok(Gen3Save { save_slot: SlotUsed::B }));
    assert!(is_valid_save(&buffer));
}

#[test]
fn two_corrupt_slots_have_no_active_slot() {
    let mut buffer = image(Some(9), Some(2));
    buffer[4 * 0x1000 + 100] ^= 0x01;
    buffer[20 * 0x1000 + 7] ^= 0x80;
    let save = Save::from_buffer(&buffer).unwrap();
    assert_eq!(save.slot_used, None);
}

#[test]
fn new_save_is_blank() {
    let save = Save::new();
    assert_eq!(save.sectors.len(), 32);
    assert_eq!(save.slot_used, None);
    for sector in &save.sectors {
        assert_eq!(sector.section_id, 0xFF);
        assert_eq!(sector.save_counter, 0);
        assert!(sector.data.iter().all(|b| *b == 0));
    }
}

#[test]
fn to_slot_returns_the_sectors_of_each_slot() {
    let save = Save::from_buffer(&image(Some(1), Some(2))).unwrap();
    let a = save.to_slot(0).unwrap();
    let b = save.to_slot(1).unwrap();
    assert_eq!(a.len(), 14);
    assert_eq!(b.len(), 14);
    assert_eq!(a[0].save_counter, 1);
    assert_eq!(b[13].save_counter, 2);
    assert_eq!(b[13].section_id, 13);
    assert!(matches!(save.to_slot(2), Err(SaveError::SlotOutOfRange)));
}

#[test]
fn sector_by_id_reads_the_footer() {
    let mut buffer = image(None, None);
    seal(&mut buffer, 31, 7, 0x0A0B_0C0D);
    let s = sector_by_id(31, &buffer).unwrap();
    assert_eq!(s.section_id, 7);
    assert_eq!(s.security_marker, 0x0801_2025);
    assert_eq!(s.save_counter, 0x0A0B_0C0D);
    let stored = u16::from_le_bytes([buffer[31 * 0x1000 + 0xFF6], buffer[31 * 0x1000 + 0xFF7]]);
    assert_eq!(s.stored_checksum, stored);
    assert_eq!(s.checksum_outcome(), Ok(ChecksumOutcome::Pass));
}

#[test]
fn sector_fields_re_encode_to_their_bytes() {
    let buffer = image(Some(0x1234_5678), Some(0x9ABC_DEF0));
    for id in 0..32u8 {
        let s = sector_by_id(id, &buffer).unwrap();
        let base = id as usize * 0x1000;
        assert_eq!(s.section_id, buffer[base + 0xFF4]);
        assert_eq!(&s.stored_checksum.to_le_bytes()[..], &buffer[base + 0xFF6..base + 0xFF8]);
        assert_eq!(&s.security_marker.to_le_bytes()[..], &buffer[base + 0xFF8..base + 0xFFC]);
        assert_eq!(&s.save_counter.to_le_bytes()[..], &buffer[base + 0xFFC..base + 0x1000]);
    }
}

#[test]
fn sector_by_id_errors() {
    let buffer = image(None, None);
    assert!(matches!(sector_by_id(32, &buffer), Err(SaveError::SectorOutOfRange)));
    assert!(matches!(sector_by_id(255, &[0u8; 10]), Err(SaveError::SectorOutOfRange)));
    assert!(matches!(sector_by_id(0, &[0u8; 10]), Err(SaveError::InvalidLength)));
}

#[test]
fn checksum_outcomes_of_a_sector() {
    let buffer = image(Some(1), None);
    let mut s = sector_by_id(2, &buffer).unwrap();
    assert_eq!(s.checksum_outcome(), Ok(ChecksumOutcome::Pass));
    assert!(s.checksum_passed());
    s.stored_checksum ^= 1;
    assert_eq!(s.checksum_outcome(), Ok(ChecksumOutcome::Fail));
    assert!(!s.checksum_passed());
    s.section_id = 0xFF;
    assert_eq!(s.checksum_outcome(), Ok(ChecksumOutcome::Skipped));
    assert!(!s.checksum_passed());
    s.section_id = 14;
    assert_eq!(s.checksum_outcome(), Err(SaveError::SectionOutOfRange));
    assert!(!s.checksum_passed());
}

#[test]
fn blank_sector_is_skipped() {
    assert_eq!(Sector::new().checksum_outcome(), Ok(ChecksumOutcome::Skipped));
}

#[test]
fn is_valid_checksum_verdicts() {
    let good = image(Some(1), Some(2));
    assert_eq!(is_valid_checksum(&good), Ok(true));

    let mut bad = good.clone();
    bad[3 * 0x1000 + 8] ^= 0x10;
    assert_eq!(is_valid_checksum(&bad), Ok(false));

    let mut out_of_range = good.clone();
    out_of_range[5 * 0x1000 + 0xFF4] = 20;
    assert_eq!(is_valid_checksum(&out_of_range), Err(SaveError::SectionOutOfRange));

    // The first failing sector decides.
    let mut both = bad.clone();
    both[5 * 0x1000 + 0xFF4] = 20;
    assert_eq!(is_valid_checksum(&both), Ok(false));

    let mut skipped = good.clone();
    skipped[6 * 0x1000 + 0xFF4] = 0xFF;
    skipped[6 * 0x1000 + 0xFF6] ^= 0xFF;
    assert_eq!(is_valid_checksum(&skipped), Ok(true));

    // Sectors 28..32 are outside both slots.
    let mut tail = good.clone();
    tail[30 * 0x1000 + 0xFF4] = 20;
    assert_eq!(is_valid_checksum(&tail), Ok(true));
}

fn trainer_image(slot_b: bool, gender: u8) -> Vec<u8> {
    let (ca, cb) = if slot_b { (Some(1), Some(2)) } else { (Some(2), Some(1)) };
    let mut buffer = image(ca, cb);
    let sector = if slot_b { 15 } else { 1 };
    let base = sector * 0x1000;
    buffer[base..base + 7].copy_from_slice(&[0xBB, 0xC9, 0xC8, 0xBF, 0xCC, 0xFF, 0x00]);
    buffer[base + 8] = gender;
    buffer[base + 0xA..base + 0xC].copy_from_slice(&12345u16.to_le_bytes());
    buffer[base + 0xD..base + 0xF].copy_from_slice(&54321u16.to_le_bytes());
    seal(&mut buffer, sector, 1, 2);
    buffer
}

#[test]
fn trainer_record_of_active_slot() {
    for slot_b in [false, true] {
        let buffer = trainer_image(slot_b, 1);
        let save = Save::from_buffer(&buffer).unwrap();
        let record = SaveStruct::from_save(save).unwrap();
        assert_eq!(record.slot_used, if slot_b { SlotUsed::B } else { SlotUsed::A });
        assert_eq!(record.gender, Gender::Girl);
        assert_eq!(record.trainer.name, [0xBB, 0xC9, 0xC8, 0xBF, 0xCC, 0xFF, 0x00]);
        assert_eq!(record.trainer.public, 12345);
        assert_eq!(record.trainer.secret, 54321);
    }
}

#[test]
fn trainer_gender_boy() {
    let save = Save::from_buffer(&trainer_image(false, 0)).unwrap();
    assert_eq!(SaveStruct::from_save(save).unwrap().gender, Gender::Boy);
}

#[test]
fn trainer_record_errors() {
    let save = Save::from_buffer(&trainer_image(true, 2)).unwrap();
    assert!(matches!(SaveStruct::from_save(save), Err(SaveError::InvalidGender)));
    let blank = Save::from_buffer(&image(None, None)).unwrap();
    assert!(matches!(SaveStruct::from_save(blank), Err(SaveError::NoActiveSlot)));
}
