use std::collections::HashMap;
use vice_snapshot_to_prg_converter::crt_builder::{CRTBuilder, CartridgeType};
use vice_snapshot_to_prg_converter::file_system_manager::{
    ascii_to_petscii, is_prg_name, strip_prg_extension, FileAllocation, FileSystemManager,
    PRGFile,
};

fn file(name: &str, load_address: u16, size: usize) -> PRGFile {
    PRGFile {
        filename: name.to_string(),
        load_address,
        data: (0..size).map(|i| (i % 253) as u8 + 1).collect(),
        total_size: size + 2,
    }
}

#[test]
fn two_files_share_the_first_bank() {
    let manager = FileSystemManager::new("files");
    let files = vec![file("ALPHA.PRG", 0x0801, 5000), file("beta.prg", 0x1000, 4000)];
    let allocations = manager.allocate_files(&files, &[1, 2, 3]).unwrap();
    assert_eq!(allocations.len(), 2);
    assert_eq!(allocations[0].banks, vec![1]);
    assert_eq!(allocations[0].start_offset, 0);
    assert_eq!(allocations[0].filename_offset, 0);
    assert_eq!(allocations[1].banks, vec![1, 2]);
    assert_eq!(allocations[1].start_offset, 5000);
    assert_eq!(allocations[1].filename_offset, 6);
    assert_eq!(allocations[1].file.filename, "beta.prg");
    assert_eq!(allocations[1].file.data, files[1].data);
}

#[test]
fn files_that_fit_do_not_cross_the_bank() {
    let manager = FileSystemManager::new("files");
    let files = vec![file("A", 0x0801, 5000), file("B", 0x1000, 3192), file("C", 0x2000, 1)];
    let allocations = manager.allocate_files(&files, &[1, 2, 3]).unwrap();
    assert_eq!(allocations[0].banks, vec![1]);
    assert_eq!(allocations[1].banks, vec![1]);
    assert_eq!(allocations[1].start_offset, 5000);
    assert_eq!(allocations[2].banks, vec![2]);
    assert_eq!(allocations[2].start_offset, 0);
    assert_eq!(allocations[2].filename_offset, 4);
}

#[test]
fn a_file_starts_in_the_open_bank_with_the_smallest_number() {
    let manager = FileSystemManager::new("files");
    let files = vec![file("A", 0, 9000), file("B", 0, 100), file("C", 0, 8000)];
    let allocations = manager.allocate_files(&files, &[5, 3, 4]).unwrap();
    assert_eq!(allocations[0].banks, vec![5, 3]);
    assert_eq!(allocations[1].banks, vec![3]);
    assert_eq!(allocations[1].start_offset, 808);
    assert_eq!(allocations[2].banks, vec![3, 4]);
    assert_eq!(allocations[2].start_offset, 908);
}

#[test]
fn an_empty_list_of_files_takes_no_bank() {
    let manager = FileSystemManager::new("files");
    assert!(manager.allocate_files(&[], &[]).unwrap().is_empty());
}

#[test]
fn files_need_banks() {
    let manager = FileSystemManager::new("files");
    assert_eq!(
        manager.allocate_files(&[file("GAME.PRG", 0, 10)], &[]).err(),
        Some("No more banks available for file: GAME.PRG".to_string())
    );
    assert_eq!(
        manager.allocate_files(&[file("BIG.PRG", 0, 8193)], &[7]).err(),
        Some("No more banks available for file: BIG.PRG".to_string())
    );
    let banks: Vec<usize> = (1..20).collect();
    assert_eq!(
        manager
            .allocate_files(&[file("A", 0, 1), file("HUGE.PRG", 0, 65536)], &banks)
            .err(),
        Some("File too large to fit in 8 banks: HUGE.PRG".to_string())
    );
    let allocations = manager.allocate_files(&[file("FULL", 0, 65536)], &banks).unwrap();
    assert_eq!(allocations[0].banks, vec![1, 2, 3, 4, 5, 6, 7, 8]);
}

#[test]
fn single_file_placement_updates_the_usage() {
    let manager = FileSystemManager::new("files");
    let mut usage: HashMap<usize, usize> = HashMap::new();
    usage.insert(9, 8000);
    usage.insert(2, 8192);
    let a = manager.allocate_file(&file("X", 0, 500), &mut usage, 17, &[2, 9, 4]).unwrap();
    assert_eq!(a.banks, vec![9, 4]);
    assert_eq!(a.start_offset, 8000);
    assert_eq!(a.filename_offset, 17);
    assert_eq!(usage.get(&9), Some(&8192));
    assert_eq!(usage.get(&4), Some(&308));
    let a = manager.allocate_file(&file("Y", 0, 0), &mut usage, 0, &[2, 9, 4]).unwrap();
    assert_eq!(a.banks, vec![4]);
    assert_eq!(a.start_offset, 308);
    assert_eq!(usage.get(&4), Some(&308));
}

#[test]
fn directory_entries() {
    let manager = FileSystemManager::new("files");
    let files = vec![file("HELLO.PRG", 0x0801, 3), file("LOADER.PRG", 0x1000, 9000)];
    let allocations = manager.allocate_files(&files, &[2, 3, 4]).unwrap();
    let metadata = manager.generate_metadata(&allocations).unwrap();
    assert_eq!(metadata.len(), 2048);
    assert_eq!(
        &metadata[0..16],
        &[0x00, 0xB8, 2, 0, 0, 0, 0, 0, 0, 0, 0x00, 0x00, 0x03, 0x00, 0x01, 0x08]
    );
    assert_eq!(
        &metadata[16..32],
        &[0x06, 0xB8, 2, 3, 0, 0, 0, 0, 0, 0, 0x03, 0x00, 0x28, 0x23, 0x00, 0x10]
    );
    assert!(metadata[32..].iter().all(|&b| b == 0));
    assert_eq!(manager.generate_metadata(&[]).unwrap(), vec![0u8; 2048]);
}

#[test]
fn the_directory_holds_128_files() {
    let manager = FileSystemManager::new("files");
    let one = |k: usize| FileAllocation {
        file: file("F", 0x0801, 1),
        banks: vec![1],
        start_offset: k,
        filename_offset: 2 * k,
    };
    let full: Vec<FileAllocation> = (0..128).map(one).collect();
    let metadata = manager.generate_metadata(&full).unwrap();
    assert_eq!(&metadata[2032..2034], &[0xFE, 0xB8]);
    let over: Vec<FileAllocation> = (0..129).map(one).collect();
    assert_eq!(
        manager.generate_metadata(&over).err(),
        Some("Too many files - metadata area full".to_string())
    );
}

#[test]
fn file_names_are_stored_in_upper_case_without_extension() {
    let manager = FileSystemManager::new("files");
    let files = vec![file("hello.prg", 0x0801, 3), file("Loader.PRG", 0x1000, 3), file("x.y", 0, 1)];
    let allocations = manager.allocate_files(&files, &[1]).unwrap();
    let names = manager.generate_filenames(&allocations).unwrap();
    assert_eq!(names.len(), 2048);
    assert_eq!(&names[..17], b"HELLO\0LOADER\0X.Y\0");
    assert!(names[17..].iter().all(|&b| b == 0));
    assert_eq!(allocations[2].filename_offset, 13);
}

#[test]
fn the_block_of_file_names_holds_2048_bytes() {
    let manager = FileSystemManager::new("files");
    let named = |name: String| FileAllocation {
        file: PRGFile { filename: name, load_address: 0, data: vec![], total_size: 2 },
        banks: vec![1],
        start_offset: 0,
        filename_offset: 0,
    };
    let fits = vec![named("A".repeat(1023)), named("B".repeat(1023))];
    let names = manager.generate_filenames(&fits).unwrap();
    assert_eq!(names[1022], b'A');
    assert_eq!(names[1023], 0);
    assert_eq!(names[2046], b'B');
    assert_eq!(names[2047], 0);
    let over = vec![named("A".repeat(1023)), named("B".repeat(1024))];
    assert_eq!(manager.generate_filenames(&over).err(), Some("Filename area full".to_string()));
}

#[test]
fn extension_and_character_set() {
    assert_eq!(strip_prg_extension(b"GAME.PRG"), b"GAME");
    assert_eq!(strip_prg_extension(b"game.PrG"), b"game");
    assert_eq!(strip_prg_extension(b".prg"), b".prg");
    assert_eq!(strip_prg_extension(b"a.prg"), b"a");
    assert_eq!(strip_prg_extension(b"a.prgx"), b"a.prgx");
    assert_eq!(strip_prg_extension(b"aXprg"), b"aXprg");
    assert_eq!(strip_prg_extension(b""), b"");
    assert!(is_prg_name(b"GAME.PRG"));
    assert!(is_prg_name(b"a.b.pRg"));
    assert!(!is_prg_name(b".prg"));
    assert!(!is_prg_name(b"game.prg.bak"));
    assert!(!is_prg_name(b"gameprg"));
    assert!(!is_prg_name(b""));
    assert_eq!(ascii_to_petscii(b'a'), b'A');
    assert_eq!(ascii_to_petscii(b'z'), b'Z');
    assert_eq!(ascii_to_petscii(b'`'), b'`');
    assert_eq!(ascii_to_petscii(b'{'), b'{');
    assert_eq!(ascii_to_petscii(b'A'), b'A');
    assert_eq!(ascii_to_petscii(b'1'), b'1');
}

#[test]
fn program_files_are_decoded() {
    let manager = FileSystemManager::new("dir");
    assert_eq!(manager.include_dir(), "dir");
    let f = manager.parse_prg_file("dir/HELLO.PRG", "HELLO.PRG", &[0x01, 0x08, 0xA9, 0x00, 0x60]).unwrap();
    assert_eq!(f.filename, "HELLO.PRG");
    assert_eq!(f.load_address, 0x0801);
    assert_eq!(f.data, vec![0xA9, 0x00, 0x60]);
    assert_eq!(f.total_size, 5);
    assert_eq!(
        manager.parse_prg_file("dir/S.PRG", "S.PRG", &[1]).err(),
        Some("PRG file too small: dir/S.PRG (1 bytes)".to_string())
    );
    assert!(manager.parse_prg_file("p", "n", &vec![0u8; 65538]).is_ok());
    assert_eq!(
        manager.parse_prg_file("dir/L.PRG", "L.PRG", &vec![0u8; 65539]).err(),
        Some("File too large: dir/L.PRG (65537 bytes, max 65536)".to_string())
    );
}

#[test]
fn files_are_written_into_their_banks() {
    let manager = FileSystemManager::new("files");
    let files = vec![file("A", 0, 5000), file("B", 0, 4000)];
    let allocations = manager.allocate_files(&files, &[1, 2, 3]).unwrap();
    let mut crt = CRTBuilder::new(CartridgeType::EasyFlash, 3, "x").unwrap();
    manager.write_files_to_banks(&mut crt, &allocations).unwrap();
    assert!(crt.get_bank(0).unwrap().iter().all(|&b| b == 0));
    assert_eq!(&crt.get_bank(1).unwrap()[..5000], &files[0].data[..]);
    assert_eq!(&crt.get_bank(1).unwrap()[5000..], &files[1].data[..3192]);
    assert_eq!(&crt.get_bank(2).unwrap()[..808], &files[1].data[3192..]);
    assert!(crt.get_bank(2).unwrap()[808..].iter().all(|&b| b == 0));

    let mut small = CRTBuilder::new(CartridgeType::EasyFlash, 2, "x").unwrap();
    assert_eq!(
        manager.write_files_to_banks(&mut small, &allocations).err(),
        Some("Bank 2 does not exist. Valid banks: 0-1".to_string())
    );
    assert_eq!(&small.get_bank(1).unwrap()[5000..], &files[1].data[..3192]);
}

#[test]
fn banks_with_file_data() {
    let manager = FileSystemManager::new("files");
    let files = vec![file("A", 0, 9000), file("B", 0, 100)];
    let allocations = manager.allocate_files(&files, &[7, 4, 9]).unwrap();
    let banks = manager.get_allocated_banks(&allocations);
    assert_eq!(banks.len(), 2);
    assert!(banks.contains(&7) && banks.contains(&4));
    assert_eq!(manager.last_allocated_bank(&allocations), Some(7));
    assert_eq!(manager.last_allocated_bank(&[]), None);
    assert!(manager.get_allocated_banks(&[]).is_empty());
}
