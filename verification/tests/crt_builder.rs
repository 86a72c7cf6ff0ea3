use vice_snapshot_to_prg_converter::crt_builder::{CRTBuilder, CartridgeType};

#[test]
fn test_create_crt_builder() {
    let builder = CRTBuilder::new(CartridgeType::EasyFlash, 8, "Test Cartridge").unwrap();
    assert_eq!(builder.bank_count(), 8);
}

#[test]
fn test_add_bank() {
    let mut builder = CRTBuilder::new(CartridgeType::EasyFlash, 1, "Test").unwrap();
    assert_eq!(builder.bank_count(), 1);
    builder.add_bank();
    assert_eq!(builder.bank_count(), 2);
}

#[test]
fn test_fill_bank() {
    let mut builder = CRTBuilder::new(CartridgeType::EasyFlash, 1, "Test").unwrap();
    let data = [0x12, 0x34, 0x56];
    builder.fill_bank(0, &data, 0).unwrap();
    let bank = builder.get_bank(0).unwrap();
    assert_eq!(&bank[0..3], &data);
}

#[test]
fn builder_rejects_no_banks_and_long_names() {
    assert_eq!(
        CRTBuilder::new(CartridgeType::EasyFlash, 0, "X").err(),
        Some("Must have at least one bank".to_string())
    );
    let long = "ABCDEFGHIJKLMNOPQRSTUVWXYZ0123456";
    assert_eq!(long.len(), 33);
    assert_eq!(
        CRTBuilder::new(CartridgeType::MagicDesk, 1, long).err(),
        Some("Name cannot be longer than 32 characters".to_string())
    );
    assert!(CRTBuilder::new(CartridgeType::MagicDesk, 1, &long[..32]).is_ok());
}

#[test]
fn cartridge_types_have_their_tags() {
    assert_eq!(CartridgeType::EasyFlash.hardware_type(), 32);
    assert_eq!(CartridgeType::EasyFlash.exrom(), 1);
    assert_eq!(CartridgeType::EasyFlash.game(), 0);
    assert_eq!(CartridgeType::MagicDesk.hardware_type(), 19);
    assert_eq!(CartridgeType::MagicDesk.exrom(), 0);
    assert_eq!(CartridgeType::MagicDesk.game(), 1);
}

#[test]
fn bank_errors_name_the_bank() {
    let mut builder = CRTBuilder::new(CartridgeType::EasyFlash, 2, "x").unwrap();
    assert_eq!(
        builder.get_bank(2).err(),
        Some("Bank 2 does not exist. Valid banks: 0-1".to_string())
    );
    assert_eq!(
        builder.fill_bank(7, &[1], 0).err(),
        Some("Bank 7 does not exist. Valid banks: 0-1".to_string())
    );
    assert_eq!(
        builder.clear_bank(12, 0).err(),
        Some("Bank 12 does not exist. Valid banks: 0-1".to_string())
    );
    assert_eq!(
        builder.set_bank_romh(2, &[0u8; 8192]).err(),
        Some("Bank 2 does not exist. Valid banks: 0-1".to_string())
    );
    assert_eq!(
        builder.set_bank_romh(1, &[0u8; 100]).err(),
        Some("ROMH data must be exactly 8KB (got 100 bytes)".to_string())
    );
    assert_eq!(
        builder.fill_bank(1, &[0u8; 3], 8190).err(),
        Some("Data does not fit in bank (3 bytes + offset 8190 > 8192)".to_string())
    );
    assert!(builder.fill_bank(1, &[9u8; 2], 8190).is_ok());
    assert_eq!(builder.get_bank(1).unwrap()[8191], 9);
    assert_eq!(builder.get_bank(1).unwrap()[8189], 0);
}

#[test]
fn clear_bank_fills_the_low_window() {
    let mut builder = CRTBuilder::new(CartridgeType::EasyFlash, 1, "x").unwrap();
    builder.clear_bank(0, 0xEA).unwrap();
    assert!(builder.get_bank(0).unwrap().iter().all(|&b| b == 0xEA));
}

#[test]
fn high_window_is_absent_until_set() {
    let mut builder = CRTBuilder::new(CartridgeType::EasyFlash, 2, "x").unwrap();
    assert!(builder.get_bank_romh(0).is_none());
    assert!(builder.get_bank_romh(5).is_none());
    let mut high = [0u8; 8192];
    high[0] = 0x40;
    high[8191] = 0xE0;
    builder.set_bank_romh(0, &high).unwrap();
    assert_eq!(builder.get_bank_romh(0).unwrap()[0], 0x40);
    assert_eq!(builder.get_bank_romh(0).unwrap()[8191], 0xE0);
    assert!(builder.get_bank_romh(1).is_none());
}

#[test]
fn file_layout_of_a_16k_cartridge() {
    let mut builder = CRTBuilder::new(CartridgeType::EasyFlash, 2, "Vice Snapshot").unwrap();
    builder.fill_bank(0, &[0xAA, 0xBB], 0).unwrap();
    builder.fill_bank(1, &[0xCC], 8191).unwrap();
    let mut high = [0u8; 8192];
    high[0x1FFC] = 0x01;
    high[0x1FFD] = 0xE0;
    builder.set_bank_romh(0, &high).unwrap();

    let file = builder.generate_crt_data();
    assert_eq!(file.len(), 64 + 3 * 8208);
    assert_eq!(&file[0..16], b"C64 CARTRIDGE   ");
    assert_eq!(&file[16..20], &[0x00, 0x00, 0x00, 0x40]);
    assert_eq!(&file[20..22], &[0x01, 0x00]);
    assert_eq!(&file[22..24], &[0x00, 0x20]);
    assert_eq!(file[24], 1);
    assert_eq!(file[25], 0);
    assert_eq!(&file[26..32], &[0u8; 6]);
    assert_eq!(&file[32..45], b"VICE SNAPSHOT");
    assert!(file[45..64].iter().all(|&b| b == 0));

    let p0 = &file[64..64 + 8208];
    assert_eq!(&p0[0..4], b"CHIP");
    assert_eq!(&p0[4..8], &[0x00, 0x00, 0x20, 0x10]);
    assert_eq!(&p0[8..10], &[0x00, 0x02]);
    assert_eq!(&p0[10..12], &[0x00, 0x00]);
    assert_eq!(&p0[12..14], &[0x80, 0x00]);
    assert_eq!(&p0[14..16], &[0x20, 0x00]);
    assert_eq!(&p0[16..18], &[0xAA, 0xBB]);

    let p1 = &file[64 + 8208..64 + 2 * 8208];
    assert_eq!(&p1[0..4], b"CHIP");
    assert_eq!(&p1[10..12], &[0x00, 0x00]);
    assert_eq!(&p1[12..14], &[0xE0, 0x00]);
    assert_eq!(p1[16 + 0x1FFC], 0x01);
    assert_eq!(p1[16 + 0x1FFD], 0xE0);

    let p2 = &file[64 + 2 * 8208..];
    assert_eq!(&p2[0..4], b"CHIP");
    assert_eq!(&p2[10..12], &[0x00, 0x01]);
    assert_eq!(&p2[12..14], &[0x80, 0x00]);
    assert_eq!(p2[16 + 8191], 0xCC);
}

#[test]
fn file_layout_of_an_8k_cartridge() {
    let builder = CRTBuilder::new(CartridgeType::MagicDesk, 8, "abc").unwrap();
    let file = builder.generate_crt_data();
    assert_eq!(file.len(), 64 + 8 * 8208);
    assert_eq!(&file[22..24], &[0x00, 0x13]);
    assert_eq!(file[24], 0);
    assert_eq!(file[25], 1);
    assert_eq!(&file[32..35], b"ABC");
    for k in 0..8usize {
        let p = &file[64 + k * 8208..64 + (k + 1) * 8208];
        assert_eq!(&p[0..4], b"CHIP");
        assert_eq!(&p[10..12], &[0x00, k as u8]);
        assert_eq!(&p[12..14], &[0x80, 0x00]);
    }
}

#[test]
fn name_of_32_bytes_keeps_31() {
    let name = "abcdefghijklmnopqrstuvwxyz012345";
    assert_eq!(name.len(), 32);
    let builder = CRTBuilder::new(CartridgeType::EasyFlash, 1, name).unwrap();
    let header = builder.create_file_header();
    assert_eq!(&header[32..63], b"ABCDEFGHIJKLMNOPQRSTUVWXYZ01234");
    assert_eq!(header[63], 0);
}

#[test]
fn a_bank_can_be_written_in_place() {
    let mut builder = CRTBuilder::new(CartridgeType::EasyFlash, 2, "x").unwrap();
    {
        let bank = builder.get_bank_mut(1).unwrap();
        bank[0] = 0x4C;
        bank[8191] = 0x60;
    }
    assert_eq!(builder.get_bank(1).unwrap()[0], 0x4C);
    assert_eq!(builder.get_bank(1).unwrap()[8191], 0x60);
    assert!(builder.get_bank(0).unwrap().iter().all(|&b| b == 0));
    assert_eq!(
        builder.get_bank_mut(2).err(),
        Some("Bank 2 does not exist. Valid banks: 0-1".to_string())
    );
}
