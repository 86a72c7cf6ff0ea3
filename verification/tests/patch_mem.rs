use vice_snapshot_to_prg_converter::find_ram::FindRam;
use vice_snapshot_to_prg_converter::parse_vsf::{
    C64Mem, C64Snapshot, Cia6526, Cpu6510, Sid6581, VicII,
};
use vice_snapshot_to_prg_converter::patch_mem::{
    size_of_block, BlockAllocation, PatchError, PatchMem,
};

fn boxed<const N: usize>(bytes: Vec<u8>) -> Box<[u8; N]> {
    bytes.into_boxed_slice().try_into().unwrap()
}

fn cia(seed: u8, ier: u8) -> Cia6526 {
    Cia6526 {
        ddra: seed,
        ddrb: seed + 1,
        ora: seed + 2,
        orb: seed + 3,
        tac: 0x1111,
        tbc: 0x2222,
        tal: 0x3333,
        tbl: 0x4444,
        tod_10ths: 1,
        tod_sec: 2,
        tod_min: 3,
        tod_hr: 4,
        cra: seed + 4,
        crb: seed + 5,
        ier,
    }
}

/// RAM without runs in the scanned window; the stack page, the zero page and
/// the vector tail hold values that tell the addresses apart.
fn noisy_ram() -> Vec<u8> {
    let mut ram = vec![0u8; 65536];
    for i in 0..65536usize {
        ram[i] = (i % 251) as u8 ^ ((i / 251) as u8).wrapping_mul(7);
        if i > 0 && ram[i] == ram[i - 1] {
            ram[i] = ram[i].wrapping_add(1);
        }
    }
    ram
}

fn plant(ram: &mut [u8], at: usize, len: usize, value: u8) {
    for b in &mut ram[at..at + len] {
        *b = value;
    }
    if ram[at - 1] == value {
        ram[at - 1] = value.wrapping_add(1);
    }
    if ram[at + len] == value {
        ram[at + len] = value.wrapping_add(1);
    }
}

fn snapshot(ram: Vec<u8>, sp: u8, ier1: u8, ier2: u8) -> C64Snapshot {
    let mut registers = [0u8; 47];
    registers[0x1A] = 0x81;
    C64Snapshot {
        cpu: Cpu6510 { a: 0x01, x: 0x02, y: 0x03, sp, pc: 0xC000, p: 0x24 },
        mem: C64Mem { cpu_port_data: 0x37, cpu_port_dir: 0x2F, ram: boxed(ram) },
        vic: VicII { registers, color_ram: boxed(vec![0u8; 1024]) },
        cia1: cia(0x10, ier1),
        cia2: cia(0x50, ier2),
        sid: Sid6581 { regs_25: [0u8; 25] },
    }
}

/// RAM with room for the ten blocks, of different run bytes.
fn roomy_ram() -> Vec<u8> {
    let mut ram = noisy_ram();
    plant(&mut ram, 0x2000, 48, 0x00);
    plant(&mut ram, 0x2100, 40, 0x11);
    plant(&mut ram, 0x2200, 32, 0x22);
    plant(&mut ram, 0x2300, 32, 0x33);
    plant(&mut ram, 0x2400, 32, 0x44);
    plant(&mut ram, 0x2500, 32, 0x55);
    plant(&mut ram, 0x2600, 32, 0x66);
    plant(&mut ram, 0x2700, 32, 0x77);
    plant(&mut ram, 0x3000, 230, 0x99);
    plant(&mut ram, 0x4000, 35, 0xAA);
    ram
}

struct Patched {
    snap: C64Snapshot,
    before: Vec<u8>,
    after: Vec<u8>,
    block9: u16,
}

fn patch(ram: Vec<u8>, sp: u8, ier1: u8, ier2: u8) -> Result<Patched, PatchError> {
    let snap = snapshot(ram.clone(), sp, ier1, ier2);
    let mut image: [u8; 65536] = *snap.mem.ram;
    let mut finder = FindRam::new(&image);
    let patch = PatchMem::new(&snap, &mut image, &mut finder)?;
    Ok(Patched { snap, before: ram, after: image.to_vec(), block9: patch.get_block9_addr() })
}

/// The part of a 6502 that the restore routines use. Writes to `$D000..$DFFF`
/// go to the chips while the port shows them, else to RAM.
struct Machine {
    mem: Vec<u8>,
    a: u8,
    x: u8,
    y: u8,
    sp: u8,
    p: u8,
    pc: u16,
    zero: bool,
    negative: bool,
    port: u8,
    port_dir: u8,
    chip_writes: Vec<(u16, u8)>,
    chip_reads: Vec<u16>,
    returned: bool,
}

impl Machine {
    fn io_visible(&self) -> bool {
        self.port & 0x04 != 0 && self.port & 0x03 != 0
    }

    fn read(&mut self, addr: u16) -> u8 {
        if (0xD000..0xE000).contains(&addr) && self.io_visible() {
            self.chip_reads.push(addr);
            0x5A
        } else if addr == 1 {
            self.port
        } else if addr == 0 {
            self.port_dir
        } else {
            self.mem[addr as usize]
        }
    }

    fn write(&mut self, addr: u16, value: u8) {
        if (0xD000..0xE000).contains(&addr) && self.io_visible() {
            self.chip_writes.push((addr, value));
        } else if addr == 1 {
            self.port = value;
        } else if addr == 0 {
            self.port_dir = value;
        } else {
            self.mem[addr as usize] = value;
        }
    }

    fn fetch(&mut self) -> u8 {
        let b = self.mem[self.pc as usize];
        self.pc = self.pc.wrapping_add(1);
        b
    }

    fn fetch16(&mut self) -> u16 {
        let lo = self.fetch() as u16;
        let hi = self.fetch() as u16;
        lo | (hi << 8)
    }

    fn flags(&mut self, value: u8) {
        self.zero = value == 0;
        self.negative = value & 0x80 != 0;
    }

    fn push(&mut self, value: u8) {
        self.mem[0x0100 + self.sp as usize] = value;
        self.sp = self.sp.wrapping_sub(1);
    }

    fn pull(&mut self) -> u8 {
        self.sp = self.sp.wrapping_add(1);
        self.mem[0x0100 + self.sp as usize]
    }

    fn branch(&mut self, taken: bool) {
        let offset = self.fetch() as i8;
        if taken {
            self.pc = self.pc.wrapping_add(offset as u16);
        }
    }

    fn step(&mut self) {
        let opcode = self.fetch();
        match opcode {
            0xA2 => {
                self.x = self.fetch();
                self.flags(self.x);
            }
            0xA0 => {
                self.y = self.fetch();
                self.flags(self.y);
            }
            0xA9 => {
                self.a = self.fetch();
                self.flags(self.a);
            }
            0xBD => {
                let base = self.fetch16();
                self.a = self.read(base.wrapping_add(self.x as u16));
                self.flags(self.a);
            }
            0xAD => {
                let addr = self.fetch16();
                self.a = self.read(addr);
                self.flags(self.a);
            }
            0x9D => {
                let base = self.fetch16();
                self.write(base.wrapping_add(self.x as u16), self.a);
            }
            0x99 => {
                let base = self.fetch16();
                self.write(base.wrapping_add(self.y as u16), self.a);
            }
            0x8D => {
                let addr = self.fetch16();
                self.write(addr, self.a);
            }
            0x85 => {
                let addr = self.fetch() as u16;
                self.write(addr, self.a);
            }
            0xCA => {
                self.x = self.x.wrapping_sub(1);
                self.flags(self.x);
            }
            0x88 => {
                self.y = self.y.wrapping_sub(1);
                self.flags(self.y);
            }
            0xE8 => {
                self.x = self.x.wrapping_add(1);
                self.flags(self.x);
            }
            0xE0 => {
                let operand = self.fetch();
                self.flags(self.x.wrapping_sub(operand));
            }
            0x10 => {
                let taken = !self.negative;
                self.branch(taken);
            }
            0xD0 => {
                let taken = !self.zero;
                self.branch(taken);
            }
            0x4C => {
                self.pc = self.fetch16();
            }
            0x9A => {
                self.sp = self.x;
            }
            0x48 => {
                self.push(self.a);
            }
            0x40 => {
                self.p = self.pull();
                let lo = self.pull() as u16;
                let hi = self.pull() as u16;
                self.pc = lo | (hi << 8);
                self.returned = true;
            }
            other => panic!("opcode {:02X} at {:04X}", other, self.pc.wrapping_sub(1)),
        }
    }
}

/// Runs the restore routines on the machine as the decompressor leaves it:
/// RAM from `$0200` to `$FFEF` as in the patched image, everything else
/// overwritten.
fn restore(patched: &Patched) -> Machine {
    let mut mem = patched.after.clone();
    for a in 0x0000..0x0200 {
        mem[a] = 0xE7;
    }
    for a in 0xFFF0..0x10000 {
        mem[a] = 0xE7;
    }
    let mut m = Machine {
        mem,
        a: 0xE7,
        x: 0xE7,
        y: 0xE7,
        sp: 0x10,
        p: 0,
        pc: patched.block9,
        zero: false,
        negative: false,
        port: 0x34,
        port_dir: 0xFF,
        chip_writes: Vec::new(),
        chip_reads: Vec::new(),
        returned: false,
    };
    let mut steps = 0;
    while !m.returned {
        m.step();
        steps += 1;
        assert!(steps < 100_000);
    }
    m
}

fn restore_code_range(patched: &Patched) -> (usize, usize) {
    let mut first = None;
    let mut last = 0;
    for a in 0x0100..0x0200 {
        if patched.after[a] != patched.before[a] {
            if first.is_none() {
                first = Some(a);
            }
            last = a;
        }
    }
    (first.unwrap(), last + 1)
}

#[test]
fn restoring_brings_back_the_machine() {
    for (ier1, ier2) in [(0x00u8, 0x00u8), (0x01, 0x00), (0x00, 0x10), (0x81, 0x7F)] {
        let patched = patch(roomy_ram(), 0xF7, ier1, ier2).unwrap();
        let m = restore(&patched);
        let snap = &patched.snap;

        assert_eq!(m.pc, 0xC000);
        assert_eq!((m.a, m.x, m.y, m.sp, m.p), (0x01, 0x02, 0x03, 0xF7, 0x24));
        assert_eq!(m.port, snap.mem.cpu_port_data);
        assert_eq!(m.port_dir, snap.mem.cpu_port_dir);

        for a in 0x0200..0xFFF0 {
            assert_eq!(m.mem[a], patched.before[a], "address {:04X}", a);
        }
        for a in 0xFFF0..0x10000 {
            assert_eq!(m.mem[a], patched.before[a], "address {:04X}", a);
        }
        for a in 0x00F8..0x0100 {
            assert_eq!(m.mem[a], patched.before[a], "address {:04X}", a);
        }
        let (code_start, code_end) = restore_code_range(&patched);
        assert_eq!(code_end, 0x0100 + 0xF7 - 6);
        for a in 0x0100..0x0200 {
            let in_code = code_start <= a && a < code_end;
            let in_frame = (0x01F5..=0x01F7).contains(&a);
            if !in_code && !in_frame {
                assert_eq!(m.mem[a], patched.before[a], "address {:04X}", a);
            }
        }
        assert_eq!(&m.mem[0x01F5..0x01F8], &[0x24, 0x00, 0xC0]);

        let mut expected = vec![
            (0xD01A, 0x00),
            (0xD019, 0xFF),
            (0xD019, 0xFF),
            (0xD01A, 0x81),
        ];
        if ier1 != 0 {
            expected.push((0xDC0D, ier1 | 0x80));
        }
        if ier2 != 0 {
            expected.push((0xDD0D, ier2 | 0x80));
        }
        expected.extend_from_slice(&[
            (0xDC0E, snap.cia1.cra),
            (0xDC0F, snap.cia1.crb),
            (0xDD0E, snap.cia2.cra),
            (0xDD0F, snap.cia2.crb),
        ]);
        assert_eq!(m.chip_writes, expected);
        assert_eq!(m.chip_reads, vec![0xDC0D, 0xDD0D, 0xDC0D, 0xDD0D]);
    }
}

#[test]
fn blocks_keep_what_the_loader_overwrites() {
    let patched = patch(roomy_ram(), 0xF7, 0, 0).unwrap();
    let (code_start, code_end) = restore_code_range(&patched);
    let mut page1 = patched.before[0x0100..0x0200].to_vec();
    page1[code_start - 0x100..code_end - 0x100]
        .copy_from_slice(&patched.after[code_start..code_end]);
    assert_eq!(&patched.after[0x0100..0x0200], &page1[..]);

    assert_eq!(&patched.after[0x2000..0x2020], &page1[0x00..0x20]);
    assert_eq!(&patched.after[0x2020..0x2030], &patched.before[0xFFF0..0x10000]);
    assert_eq!(&patched.after[0x2100..0x2120], &page1[0x20..0x40]);
    assert_eq!(&patched.after[0x2120..0x2128], &patched.before[0x00F8..0x0100]);
    for k in 2..8 {
        let at = 0x2000 + 0x100 * k;
        assert_eq!(&patched.after[at..at + 32], &page1[32 * k..32 * k + 32]);
    }
    assert_eq!(patched.block9, 0x3000);
    assert_eq!(&patched.after[0x3000..0x3002], &[0xA2, 31]);
    assert_eq!(&patched.after[0x3000 + 227..0x3000 + 230], &[0x4C, 0x00, 0x40]);
    assert_eq!(&patched.after[0x4000..0x4003], &[0xA2, 0xF7, 0x9A]);
    let start = code_start as u16;
    assert_eq!(
        &patched.after[0x4000 + 32..0x4000 + 35],
        &[0x4C, (start & 0xFF) as u8, (start >> 8) as u8]
    );
    assert_eq!(patched.after[code_end - 1], 0x40);
}

#[test]
fn restore_code_ends_with_the_page_where_the_stack_is_low() {
    let patched = patch(roomy_ram(), 0x20, 0, 0).unwrap();
    let (code_start, code_end) = restore_code_range(&patched);
    assert_eq!(code_end, 0x0200);
    assert_eq!(code_end - code_start, 73);
    let patched = patch(roomy_ram(), 0x03, 0x7F, 0x7F).unwrap();
    let (code_start, code_end) = restore_code_range(&patched);
    assert_eq!(code_end, 0x0200);
    assert_eq!(code_end - code_start, 83);
}

#[test]
fn restoring_works_with_the_routine_at_the_end_of_the_page() {
    for sp in [0x02u8, 0x03, 0x20, 0x58] {
        let patched = patch(roomy_ram(), sp, 0x7F, 0x7F).unwrap();
        let m = restore(&patched);
        let snap = &patched.snap;

        assert_eq!(m.pc, 0xC000);
        assert_eq!((m.a, m.x, m.y, m.sp, m.p), (0x01, 0x02, 0x03, sp, 0x24));
        assert_eq!(m.port, snap.mem.cpu_port_data);
        assert_eq!(m.port_dir, snap.mem.cpu_port_dir);

        for a in 0x0200..0x10000 {
            assert_eq!(m.mem[a], patched.before[a], "address {:04X}", a);
        }
        for a in 0x00F8..0x0100 {
            assert_eq!(m.mem[a], patched.before[a], "address {:04X}", a);
        }
        let frame = 0x0100 + sp as usize - 2..=0x0100 + sp as usize;
        for a in 0x0100..0x0200 - 83 {
            if !frame.contains(&a) {
                assert_eq!(m.mem[a], patched.before[a], "address {:04X}", a);
            }
        }
        assert_eq!(&m.mem[*frame.start()..=*frame.end()], &[0x24, 0x00, 0xC0]);
        assert_eq!(&m.mem[0x0200 - 83..0x0200], &patched.after[0x0200 - 83..0x0200]);
    }
}

#[test]
fn the_first_block_without_room_is_named() {
    let err = patch(noisy_ram(), 0xF7, 0, 0).err().unwrap();
    match &err {
        PatchError::AllocationFailed(m) => {
            assert_eq!(m, "Failed to allocate block 1 (48 bytes)");
        }
        other => panic!("{:?}", other),
    }
    assert_eq!(err.message(), "Failed to allocate block 1 (48 bytes)");
    assert_eq!(
        PatchError::StackTooLow("SP too low".to_string()).message(),
        "Stack too low: SP too low"
    );
    assert_eq!(
        PatchError::CodeTooLarge("300 bytes".to_string()).message(),
        "Code too large: 300 bytes"
    );

    let mut ram = noisy_ram();
    plant(&mut ram, 0x2000, 48 + 40 + 32, 0);
    match patch(ram, 0xF7, 0, 0).err().unwrap() {
        PatchError::AllocationFailed(m) => assert_eq!(m, "Failed to allocate block 4 (32 bytes)"),
        other => panic!("{:?}", other),
    }

    let mut ram = noisy_ram();
    plant(&mut ram, 0x2000, 48 + 40 + 6 * 32, 0);
    match patch(ram, 0xF7, 0, 0).err().unwrap() {
        PatchError::AllocationFailed(m) => assert_eq!(
            m,
            "Failed to allocate block 9 (230 bytes). Try with a cleaner snapshot"
        ),
        other => panic!("{:?}", other),
    }

    let mut ram = noisy_ram();
    plant(&mut ram, 0x2000, 48 + 40 + 6 * 32 + 230 + 34, 0);
    match patch(ram, 0xF7, 0, 0).err().unwrap() {
        PatchError::AllocationFailed(m) => assert_eq!(
            m,
            "Failed to allocate block 10 (35 bytes). Try with a cleaner snapshot"
        ),
        other => panic!("{:?}", other),
    }
}

#[test]
fn a_failed_patch_leaves_the_image() {
    let ram = noisy_ram();
    let snap = snapshot(ram.clone(), 0xF7, 0, 0);
    let mut image: [u8; 65536] = *snap.mem.ram;
    let mut finder = FindRam::new(&image);
    assert!(PatchMem::new(&snap, &mut image, &mut finder).is_err());
    assert_eq!(&image[..], &ram[..]);
}

#[test]
fn one_large_run_serves_all_blocks() {
    let mut ram = noisy_ram();
    plant(&mut ram, 0x5000, 0x400, 0xEE);
    let patched = patch(ram, 0xF7, 0x01, 0x02).unwrap();
    let m = restore(&patched);
    for a in 0x0200..0x10000 {
        assert_eq!(m.mem[a], patched.before[a], "address {:04X}", a);
    }
    assert_eq!(m.pc, 0xC000);
}

#[test]
fn block_sizes_and_messages() {
    let sizes: Vec<u16> = (0..10).map(size_of_block).collect();
    assert_eq!(sizes, vec![48, 40, 32, 32, 32, 32, 32, 32, 230, 35]);
    assert_eq!(PatchError::StackTooLow("x".to_string()).message(), "Stack too low: x");
    assert_eq!(PatchError::CodeTooLarge("y".to_string()).message(), "Code too large: y");
}

#[test]
fn routines_are_generated_byte_for_byte() {
    let blocks: Vec<BlockAllocation> = (0..8)
        .map(|k| BlockAllocation {
            address: 0x2000 + 0x100 * k as u16,
            original_value: k as u8,
            size: size_of_block(k),
        })
        .collect();
    let core = PatchMem::generate_block9_core(&blocks);
    assert_eq!(core.len(), 8 * 11 + 11 + 8 * 12);
    assert_eq!(
        &core[0..11],
        &[0xA2, 31, 0xBD, 0x00, 0x20, 0x9D, 0x00, 0x01, 0xCA, 0x10, 0xF7]
    );
    assert_eq!(
        &core[77..88],
        &[0xA2, 31, 0xBD, 0x00, 0x27, 0x9D, 0xE0, 0x01, 0xCA, 0x10, 0xF7]
    );
    assert_eq!(
        &core[88..99],
        &[0xA2, 15, 0xBD, 0x20, 0x20, 0x9D, 0xF0, 0xFF, 0xCA, 0x10, 0xF7]
    );
    assert_eq!(
        &core[99..111],
        &[0xA9, 0, 0xA2, 0, 0x9D, 0x00, 0x20, 0xE8, 0xE0, 48, 0xD0, 0xF8]
    );
    let f8 = [1, 2, 3, 4, 5, 6, 7, 8];
    let full = PatchMem::generate_block9_final(&blocks, &f8, 0x1234);
    assert_eq!(full.len(), 230);
    assert_eq!(&full[195..199], &[0xA9, 1, 0x85, 0xF8]);
    assert_eq!(&full[223..227], &[0xA9, 8, 0x85, 0xFF]);
    assert_eq!(&full[227..], &[0x4C, 0x34, 0x12]);

    let snap = snapshot(noisy_ram(), 0xF7, 0, 0x05);
    let block9 = BlockAllocation { address: 0x3000, original_value: 0x99, size: 230 };
    let code = PatchMem::generate_block10(&snap, block9, 0xAA, 35, 0x0196);
    assert_eq!(
        code,
        vec![
            0xA2, 0xF7, 0x9A, 0xA9, 0x99, 0xA2, 0x00, 0x9D, 0x00, 0x30, 0xE8, 0xE0, 230, 0xD0,
            0xF8, 0xA9, 0x2F, 0x85, 0x00, 0xA9, 0xC0, 0x48, 0xA9, 0x00, 0x48, 0xA9, 0x24, 0x48,
            0xA9, 0xAA, 0xA0, 35, 0x4C, 0x96, 0x01
        ]
    );
    let block10 = BlockAllocation { address: 0x4000, original_value: 0xAA, size: 35 };
    let code = PatchMem::generate_restore_code(&snap, block10);
    assert_eq!(code.len(), 78);
    assert_eq!(&code[0..6], &[0x99, 0xFF, 0x3F, 0x88, 0xD0, 0xFA]);
    assert_eq!(&code[6..10], &[0xA9, 0x35, 0x85, 0x01]);
    assert_eq!(&code[42..47], &[0xA9, 0x85, 0x8D, 0x0D, 0xDD]);
    assert_eq!(&code[67..71], &[0xA9, 0x37, 0x85, 0x01]);
    assert_eq!(&code[71..], &[0xA2, 2, 0xA0, 3, 0xA9, 1, 0x40]);
    assert_eq!(PatchMem::place_restore_code(0xF7, 78), 0x0100 + 0xF7 - 6 - 78);
    assert_eq!(PatchMem::place_restore_code(0x05, 78), 0x0200 - 78);
    assert_eq!(PatchMem::place_restore_code(0x53, 78), 0x0200 - 78);
    assert_eq!(PatchMem::place_restore_code(0x54, 78), 0x0100);
}
