use vice_snapshot_to_prg_converter::find_ram::{FindRam, RamBlock};

/// An image without any run of 32 equal bytes in the scanned window.
fn noisy_image() -> [u8; 65536] {
    let mut ram = [0u8; 65536];
    for i in 0..65536usize {
        ram[i] = (i % 251) as u8 ^ ((i / 251) as u8).wrapping_mul(7);
        if i > 0 && ram[i] == ram[i - 1] {
            ram[i] = ram[i].wrapping_add(1);
        }
    }
    ram
}

/// A noisy image with `len` bytes of `value` from `at` on, fenced by other
/// bytes.
fn plant(ram: &mut [u8; 65536], at: usize, len: usize, value: u8) {
    for i in at..at + len {
        ram[i] = value;
    }
    if ram[at - 1] == value {
        ram[at - 1] = value.wrapping_add(1);
    }
    if at + len < 65536 && ram[at + len] == value {
        ram[at + len] = value.wrapping_add(1);
    }
}

// An image of zeros is one run from `$0200` to `$FFEF`: what is written into
// it splits that run, and requests are served from its parts.

#[test]
fn test_find_sequences() {
    let mut ram = [0u8; 65536];
    for i in 0x2500..0x2540 {
        ram[i] = 0x00;
    }
    for i in 0x3000..0x3020 {
        ram[i] = 0x21;
    }
    for i in 0x4000..0x4010 {
        ram[i] = 0xFF;
    }

    let finder = FindRam::new(&ram);

    assert_eq!(
        finder.blocks().to_vec(),
        vec![
            RamBlock { address: 0x0200, value: 0x00, count: 0x2E00 },
            RamBlock { address: 0x3000, value: 0x21, count: 32 },
            RamBlock { address: 0x3020, value: 0x00, count: 0x0FE0 },
            RamBlock { address: 0x4010, value: 0x00, count: 0xBFE0 },
        ]
    );
    assert_eq!(finder.block_count(), 4);
    assert_eq!(finder.find_max(), 0xBFE0);
}

#[test]
fn test_allocate_exact_match() {
    let mut ram = [0u8; 65536];
    for i in 0x2500..0x2520 {
        ram[i] = 0x00;
    }

    let mut finder = FindRam::new(&ram);

    let result = finder.allocate(32);
    assert_eq!(result, Some((0x0200, 0x00)));
    assert_eq!(finder.block_count(), 1);
    assert_eq!(finder.blocks()[0], RamBlock { address: 0x0220, value: 0x00, count: 0xFDD0 });
}

#[test]
fn test_allocate_partial() {
    let mut ram = [0u8; 65536];
    for i in 0x5000..0x5040 {
        ram[i] = 0x00;
    }

    let mut finder = FindRam::new(&ram);

    let result = finder.allocate(32);
    assert_eq!(result, Some((0x0200, 0x00)));

    assert_eq!(finder.block_count(), 1);
    assert_eq!(finder.blocks()[0].address, 0x0220);
    assert_eq!(finder.blocks()[0].count, 0xFDD0);
    assert_eq!(finder.blocks()[0].value, 0x00);
}

#[test]
fn test_allocate_best_fit() {
    let mut ram = [0u8; 65536];
    for i in 0x2000..0x2064 {
        ram[i] = 0x00;
    }
    for i in 0x3000..0x3032 {
        ram[i] = 0x00;
    }

    let mut finder = FindRam::new(&ram);

    let result = finder.allocate(40);
    assert_eq!(result, Some((0x0200, 0x00)));
    assert_eq!(finder.block_count(), 1);
    assert_eq!(finder.blocks()[0], RamBlock { address: 0x0228, value: 0x00, count: 0xFDC8 });
}

#[test]
fn test_allocate_not_found() {
    let mut ram = [0u8; 65536];
    for i in 0x2500..0x2520 {
        ram[i] = 0x00;
    }

    let mut finder = FindRam::new(&ram);

    // The one run has room for 64 bytes, and for no more than it holds.
    assert_eq!(finder.allocate(64), Some((0x0200, 0x00)));
    assert_eq!(finder.allocate(0xFDB1), None);
    assert_eq!(finder.allocate(0xFDB0), Some((0x0240, 0x00)));
    assert_eq!(finder.allocate(32), None);
}

#[test]
fn test_ignores_area_below_0x200() {
    let mut ram = [0u8; 65536];
    for i in 0x0000..0x0200 {
        ram[i] = 0x00;
    }

    let finder = FindRam::new(&ram);

    assert_eq!(finder.block_count(), 1);
    assert_eq!(finder.blocks()[0].address, 0x0200);
}

// The same on an image that has no run of its own.

#[test]
fn planted_runs_are_found() {
    let mut ram = noisy_image();
    plant(&mut ram, 0x2500, 64, 0x00);
    plant(&mut ram, 0x3000, 32, 0x21);
    plant(&mut ram, 0x4000, 16, 0xFF);

    let finder = FindRam::new(&ram);

    assert_eq!(finder.block_count(), 2);
    assert_eq!(finder.find_max(), 64);
}

#[test]
fn a_block_of_the_size_asked_for_is_removed() {
    let mut ram = noisy_image();
    plant(&mut ram, 0x2500, 32, 0x00);

    let mut finder = FindRam::new(&ram);

    let result = finder.allocate(32);
    assert_eq!(result, Some((0x2500, 0x00)));
    assert_eq!(finder.block_count(), 0);
}

#[test]
fn a_larger_block_keeps_its_tail() {
    let mut ram = noisy_image();
    plant(&mut ram, 0x5000, 64, 0x00);

    let mut finder = FindRam::new(&ram);

    let result = finder.allocate(32);
    assert_eq!(result, Some((0x5000, 0x00)));

    assert_eq!(finder.block_count(), 1);
    assert_eq!(finder.blocks()[0].address, 0x5020);
    assert_eq!(finder.blocks()[0].count, 32);
    assert_eq!(finder.blocks()[0].value, 0x00);
}

#[test]
fn the_smallest_block_that_fits_is_taken() {
    let mut ram = noisy_image();
    plant(&mut ram, 0x2000, 100, 0x00);
    plant(&mut ram, 0x3000, 50, 0x00);

    let mut finder = FindRam::new(&ram);

    let result = finder.allocate(40);
    assert_eq!(result, Some((0x3000, 0x00)));
    assert_eq!(finder.block_count(), 2);
}

#[test]
fn a_request_larger_than_every_block_fails() {
    let mut ram = noisy_image();
    plant(&mut ram, 0x2500, 32, 0x00);

    let mut finder = FindRam::new(&ram);

    let result = finder.allocate(64);
    assert_eq!(result, None);
    assert_eq!(finder.block_count(), 1);
}

#[test]
fn zero_page_and_stack_are_not_scanned() {
    let mut ram = noisy_image();
    for i in 0x0000..0x0200 {
        ram[i] = 0x00;
    }
    if ram[0x0200] == 0 {
        ram[0x0200] = 1;
    }

    let finder = FindRam::new(&ram);

    assert_eq!(finder.block_count(), 0);
}

#[test]
fn all_zero_image_is_one_block() {
    let ram = [0u8; 65536];
    let finder = FindRam::new(&ram);
    assert_eq!(finder.block_count(), 1);
    assert_eq!(
        finder.blocks()[0],
        RamBlock { address: 0x0200, value: 0, count: 0xFDF0 }
    );
    assert_eq!(finder.find_max(), 0xFDF0);
    assert_eq!(finder.total_free_bytes(), 0xFDF0);
}

#[test]
fn vector_tail_is_not_scanned() {
    let mut ram = noisy_image();
    for i in 0xFFD0..0x10000 {
        ram[i] = 0xAA;
    }
    if ram[0xFFCF] == 0xAA {
        ram[0xFFCF] = 0;
    }
    let finder = FindRam::new(&ram);
    assert_eq!(finder.block_count(), 1);
    assert_eq!(
        finder.blocks()[0],
        RamBlock { address: 0xFFD0, value: 0xAA, count: 32 }
    );
}

#[test]
fn run_of_31_is_no_block_and_run_of_32_is_one() {
    let mut ram = noisy_image();
    plant(&mut ram, 0x6000, 31, 0x55);
    assert_eq!(FindRam::new(&ram).block_count(), 0);

    let mut ram = noisy_image();
    plant(&mut ram, 0x6000, 32, 0x55);
    let finder = FindRam::new(&ram);
    assert_eq!(finder.block_count(), 1);
    assert_eq!(
        finder.blocks()[0],
        RamBlock { address: 0x6000, value: 0x55, count: 32 }
    );
}

#[test]
fn noisy_image_has_no_blocks() {
    let ram = noisy_image();
    let finder = FindRam::new(&ram);
    assert_eq!(finder.block_count(), 0);
    assert_eq!(finder.find_max(), 0);
    assert_eq!(finder.total_free_bytes(), 0);
}

#[test]
fn best_fit_leaves_the_larger_block_and_the_tail() {
    let mut ram = noisy_image();
    plant(&mut ram, 0x2000, 100, 0x00);
    plant(&mut ram, 0x3000, 50, 0x00);
    let mut finder = FindRam::new(&ram);

    assert_eq!(finder.allocate(40), Some((0x3000, 0x00)));
    assert_eq!(finder.block_count(), 2);
    assert_eq!(
        finder.blocks()[0],
        RamBlock { address: 0x2000, value: 0, count: 100 }
    );
    assert_eq!(
        finder.blocks()[1],
        RamBlock { address: 0x3000 + 40, value: 0, count: 10 }
    );
    assert_eq!(finder.total_free_bytes(), 110);
}

#[test]
fn equal_blocks_are_served_first_come() {
    let mut ram = noisy_image();
    plant(&mut ram, 0x2000, 40, 0x11);
    plant(&mut ram, 0x3000, 40, 0x22);
    let mut finder = FindRam::new(&ram);
    assert_eq!(finder.allocate(33), Some((0x2000, 0x11)));
    assert_eq!(finder.allocate(33), Some((0x3000, 0x22)));
    assert_eq!(finder.allocate(8), None);
    assert_eq!(finder.allocate(7), Some((0x2000 + 33, 0x11)));
    assert_eq!(finder.block_count(), 1);
}

#[test]
fn nothing_is_allocated_for_a_request_of_zero() {
    let ram = [0u8; 65536];
    let mut finder = FindRam::new(&ram);
    assert_eq!(finder.allocate(0), None);
    assert_eq!(finder.block_count(), 1);
    assert_eq!(finder.total_free_bytes(), 0xFDF0);
}
