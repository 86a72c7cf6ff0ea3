use vice_snapshot_to_prg_converter::asm_text::format_bytes;
use vice_snapshot_to_prg_converter::bytes::{append_all, append_range, copy_range, write_bytes};
use vice_snapshot_to_prg_converter::config::{Config, CrtConfig, VERSION};
use vice_snapshot_to_prg_converter::text::{
    decimal, decimal64, hex, hex2, hex4, hex_digit, hex_len, hex_width,
};

#[test]
fn numbers_in_decimal() {
    assert_eq!(decimal(0), "0");
    assert_eq!(decimal(9), "9");
    assert_eq!(decimal(10), "10");
    assert_eq!(decimal(8192), "8192");
    assert_eq!(decimal(65536), "65536");
    assert_eq!(decimal(4294967295), "4294967295");
    assert_eq!(decimal64(u64::MAX), "18446744073709551615");
}

#[test]
fn numbers_in_hexadecimal() {
    assert_eq!(hex_digit(0), "0");
    assert_eq!(hex_digit(10), "A");
    assert_eq!(hex_digit(15), "F");
    assert_eq!(hex(0), "0");
    assert_eq!(hex(255), "FF");
    assert_eq!(hex(0x1000), "1000");
    assert_eq!(hex_len(0), 1);
    assert_eq!(hex_len(0xFFFF), 4);
    assert_eq!(hex_len(0x10000), 5);
    assert_eq!(hex_width(0x2A, 2), "2A");
    assert_eq!(hex_width(0x5, 2), "05");
    assert_eq!(hex_width(0x100, 2), "100");
    assert_eq!(hex_width(0xFE00, 4), "FE00");
    assert_eq!(hex_width(0x10000, 4), "10000");
    assert_eq!(hex_width(0, 4), "0000");
    assert_eq!(hex_width(7, 0), "7");
    assert_eq!(hex2(0x00), "00");
    assert_eq!(hex2(0x9F), "9F");
    assert_eq!(hex4(0x0340), "0340");
    assert_eq!(hex4(0xC0DE), "C0DE");
}

#[test]
fn data_listings() {
    assert_eq!(format_bytes(&[]), "    .byte $00");
    assert_eq!(format_bytes(&[0xAB]), "    .byte $AB");
    assert_eq!(format_bytes(&[1, 2, 255]), "    .byte $01,$02,$FF");
    let sixteen: Vec<u8> = (0..16).collect();
    assert_eq!(
        format_bytes(&sixteen),
        "    .byte $00,$01,$02,$03,$04,$05,$06,$07,$08,$09,$0A,$0B,$0C,$0D,$0E,$0F"
    );
    let seventeen: Vec<u8> = (0..17).collect();
    assert_eq!(
        format_bytes(&seventeen),
        "    .byte $00,$01,$02,$03,$04,$05,$06,$07,$08,$09,$0A,$0B,$0C,$0D,$0E,$0F\n    .byte $10"
    );
    let many: Vec<u8> = vec![0x20; 33];
    assert_eq!(format_bytes(&many).lines().count(), 3);
}

#[test]
fn byte_helpers() {
    let mut target = [9u8; 6];
    write_bytes(&mut target, 2, &[1, 2, 3]);
    assert_eq!(target, [9, 9, 1, 2, 3, 9]);
    write_bytes(&mut target, 6, &[]);
    assert_eq!(target, [9, 9, 1, 2, 3, 9]);
    let mut out = vec![7u8];
    append_range(&mut out, &[1, 2, 3, 4], 1, 3);
    assert_eq!(out, vec![7, 2, 3]);
    append_all(&mut out, &[5, 6]);
    assert_eq!(out, vec![7, 2, 3, 5, 6]);
    assert_eq!(copy_range(&[1, 2, 3, 4], 2, 4), vec![3, 4]);
    assert_eq!(copy_range(&[1, 2, 3, 4], 4, 4), Vec::<u8>::new());
}

#[test]
fn configurations() {
    assert_eq!(VERSION, "1.90-Beta");
    let config = Config::new("/tmp/work");
    assert_eq!(config.work_str(), "/tmp/work");
    let auto = Config::auto("/tmp", 1700000000123);
    assert_eq!(auto.work_str(), "/tmp/ViceSnapshotConvert.1700000000123");

    let crt = CrtConfig::new(config);
    assert!(crt.include_dir.is_none());
    assert!(crt.trampoline_address.is_none());
    assert!(crt.auto_location);
    assert!(crt.cartridge_name.is_none());
    assert!(!crt.patch_load_save);

    let crt = crt.with_include_dir("files");
    assert_eq!(crt.include_dir.as_deref(), Some("files"));
    assert!(crt.patch_load_save);
    let crt = crt.with_trampoline_address(0x0334);
    assert_eq!(crt.trampoline_address, Some(0x0334));
    assert!(!crt.auto_location);
    let crt = crt.with_cartridge_name("My Game");
    assert_eq!(crt.cartridge_name.as_deref(), Some("My Game"));
    let crt = crt.with_patch_load_save(false);
    assert!(!crt.patch_load_save);
    assert_eq!(crt.include_dir.as_deref(), Some("files"));
    assert_eq!(crt.base_config.work_str(), "/tmp/work");

    let auto = CrtConfig::auto("/var/tmp", 5);
    assert_eq!(auto.base_config.work_str(), "/var/tmp/ViceSnapshotConvert.5");
    assert!(auto.auto_location);
}
