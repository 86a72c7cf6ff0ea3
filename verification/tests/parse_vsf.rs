use vice_snapshot_to_prg_converter::parse_vsf::{
    bytes_equal, cia_bytes, ensure, ensure_eq, parse_cia, parse_cpu, parse_memory, parse_sid,
    parse_vic, read_fixed, read_fixed_opt, read_u16, read_u32, read_u8, restore_all, restore_cia,
    sniff_compression_prefix, trim_nul, validate_cpu, vsf_magic_ok, C64Snapshot, Cia6526,
    Cpu6510, ParseVSF, ParserConfig, RecordingBus, RecordingCpu,
};

fn header(terminator: u8, major: u8, minor: u8, machine: &str) -> Vec<u8> {
    let mut out = Vec::new();
    out.extend_from_slice(b"VICE Snapshot File");
    out.push(terminator);
    out.push(major);
    out.push(minor);
    let mut name = [0u8; 16];
    name[..machine.len()].copy_from_slice(machine.as_bytes());
    out.extend_from_slice(&name);
    out.extend_from_slice(b"VICE Version");
    out.push(0x1A);
    out.extend_from_slice(&[3, 7, 1, 0]);
    out.extend_from_slice(&[0, 0, 0, 0]);
    assert_eq!(out.len(), 58);
    out
}

fn module(name: &str, payload: &[u8]) -> Vec<u8> {
    let mut out = Vec::new();
    let mut field = [0u8; 16];
    field[..name.len()].copy_from_slice(name.as_bytes());
    out.extend_from_slice(&field);
    out.push(1);
    out.push(0);
    out.extend_from_slice(&((payload.len() + 22) as u32).to_le_bytes());
    out.extend_from_slice(payload);
    out
}

fn cpu_payload() -> Vec<u8> {
    let mut p = vec![0x11, 0x22, 0x33, 0x44, 0, 0, 0, 0];
    p.extend_from_slice(&[0x01, 0x02, 0x03, 0xF7, 0x00, 0xC0, 0x24]);
    p.extend_from_slice(&[0xEE; 8]);
    p
}

fn ram_image(color: impl Fn(usize) -> u8) -> Vec<u8> {
    let mut ram = vec![0u8; 65536];
    for (i, b) in ram.iter_mut().enumerate() {
        *b = (i as u8).wrapping_mul(31).wrapping_add((i >> 8) as u8);
    }
    for i in 0..1024 {
        ram[0xD800 + i] = color(i);
    }
    ram
}

fn mem_payload(ram: &[u8]) -> Vec<u8> {
    let mut p = vec![0x37, 0x2F, 0x01, 0x01];
    p.extend_from_slice(ram);
    p
}

fn vic_payload() -> Vec<u8> {
    let mut p = vec![0u8; 761 + 1024 + 5];
    p[0] = 0x99;
    for i in 0..47 {
        p[1 + i] = 0x40 + i as u8;
    }
    for i in 0..1024 {
        p[761 + i] = 0xA0 | (i as u8 & 0x0F);
    }
    p
}

fn cia_payload(seed: u8, orb: u8) -> Vec<u8> {
    vec![
        seed,
        orb,
        seed + 2,
        seed + 3,
        0x34,
        0x12,
        0x78,
        0x56,
        seed + 8,
        seed + 9,
        seed + 10,
        seed + 11,
        0x5D,
        seed + 13,
        seed + 14,
        seed + 15,
        0xBC,
        0x9A,
        0xF0,
        0xDE,
        0x77,
    ]
}

fn sid_payload() -> Vec<u8> {
    let mut p = vec![0xAA, 0xBB, 0xCC, 0xDD];
    for i in 0..25 {
        p.push(0x80 + i as u8);
    }
    p.extend_from_slice(&[1, 2, 3]);
    p
}

fn stream_with(ram: &[u8], cia1_orb: u8) -> Vec<u8> {
    let mut s = header(0x1A, 2, 0, "C64SC");
    s.extend(module("MAINCPU", &cpu_payload()));
    s.extend(module("C64MEM", &mem_payload(ram)));
    s.extend(module("DRIVE", &[1, 2, 3, 4, 5]));
    s.extend(module("VIC-II", &vic_payload()));
    s.extend(module("CIA1", &cia_payload(0x10, cia1_orb)));
    s.extend(module("CIA2", &cia_payload(0x50, 0x51)));
    s.extend(module("SID", &sid_payload()));
    s
}

fn stream_without(skip: &str) -> Vec<u8> {
    let ram = ram_image(|i| (i % 16) as u8);
    let mut s = header(0x1A, 2, 0, "C64SC");
    let all: Vec<(&str, Vec<u8>)> = vec![
        ("MAINCPU", cpu_payload()),
        ("C64MEM", mem_payload(&ram)),
        ("VIC-II", vic_payload()),
        ("CIA1", cia_payload(0x10, 0x11)),
        ("CIA2", cia_payload(0x50, 0x51)),
        ("SID", sid_payload()),
    ];
    for (name, payload) in all {
        if name != skip {
            s.extend(module(name, &payload));
        }
    }
    s
}

fn parse(stream: Vec<u8>) -> Result<C64Snapshot, String> {
    ParseVSF::new(stream).parse_import()
}

#[test]
fn happy_path_reproduces_every_field() {
    let ram = ram_image(|i| (i % 16) as u8);
    let snap = parse(stream_with(&ram, 0x11)).unwrap();
    assert_eq!(snap.cpu.a, 0x01);
    assert_eq!(snap.cpu.x, 0x02);
    assert_eq!(snap.cpu.y, 0x03);
    assert_eq!(snap.cpu.sp, 0xF7);
    assert_eq!(snap.cpu.pc, 0xC000);
    assert_eq!(snap.cpu.p, 0x24);
    assert_eq!(snap.mem.cpu_port_data, 0x37);
    assert_eq!(snap.mem.cpu_port_dir, 0x2F);
    assert_eq!(&snap.mem.ram[..], &ram[..]);
    for i in 0..47 {
        assert_eq!(snap.vic.registers[i], 0x40 + i as u8);
    }
    assert_eq!(
        snap.cia1,
        Cia6526 {
            ora: 0x10,
            orb: 0x11,
            ddra: 0x12,
            ddrb: 0x13,
            tac: 0x1234,
            tbc: 0x5678,
            tod_10ths: 0x18,
            tod_sec: 0x19,
            tod_min: 0x1A,
            tod_hr: 0x1B,
            ier: 0x1D,
            cra: 0x1E,
            crb: 0x1F,
            tal: 0x9ABC,
            tbl: 0xDEF0,
        }
    );
    assert_eq!(snap.cia2.ora, 0x50);
    assert_eq!(snap.cia2.orb, 0x51);
    assert_eq!(snap.cia2.tal, 0x9ABC);
    for i in 0..25 {
        assert_eq!(snap.sid.regs_25[i], 0x80 + i as u8);
    }
}

#[test]
fn color_memory_comes_from_ram_where_it_looks_like_color_memory() {
    let ram = ram_image(|i| (i % 16) as u8);
    let snap = parse(stream_with(&ram, 0x11)).unwrap();
    assert_eq!(&snap.vic.color_ram[..], &ram[0xD800..0xDC00]);
}

#[test]
fn color_memory_stays_where_ram_has_a_high_nibble() {
    let ram = ram_image(|i| if i == 1000 { 0x10 } else { (i % 16) as u8 });
    let snap = parse(stream_with(&ram, 0x11)).unwrap();
    for i in 0..1024 {
        assert_eq!(snap.vic.color_ram[i], 0xA0 | (i as u8 & 0x0F));
    }
}

#[test]
fn color_memory_stays_where_ram_is_mostly_zero() {
    let ram = ram_image(|i| if i < 900 { 0 } else { 1 });
    let snap = parse(stream_with(&ram, 0x11)).unwrap();
    assert_eq!(snap.vic.color_ram[0], 0xA0);
    let ram = ram_image(|i| if i < 899 { 0 } else { 1 });
    let snap = parse(stream_with(&ram, 0x11)).unwrap();
    assert_eq!(&snap.vic.color_ram[..], &ram[0xD800..0xDC00]);
}

#[test]
fn held_key_is_read_as_all_lines_high() {
    let ram = ram_image(|i| (i % 16) as u8);
    let parser = ParseVSF::new(stream_with(&ram, 0x00));
    let snap = parser.parse_import().unwrap();
    assert_eq!(snap.cia1.orb, 0xFF);
    let parts = parser.extract_ram(&snap);
    assert_eq!(parts.cia1[1], 0xFF);
    assert_eq!(parts.cia2[1], 0x51);
}

#[test]
fn terminators_of_the_magic() {
    let ram = ram_image(|i| (i % 16) as u8);
    for t in [0x20u8, 0x00, 0x1A] {
        let mut s = stream_with(&ram, 0x11);
        s[18] = t;
        assert!(parse(s).is_ok());
    }
    let mut s = stream_with(&ram, 0x11);
    s[18] = 0x21;
    assert_eq!(parse(s).err(), Some("Not a VSF file".to_string()));
}

#[test]
fn wrong_magic_is_refused() {
    let mut s = stream_without("");
    s[0] = b'X';
    assert_eq!(parse(s).err(), Some("Not a VSF file".to_string()));
    assert_eq!(parse(vec![1, 2, 3]).err(), Some("Unexpected EOF".to_string()));
    assert_eq!(parse(Vec::new()).err(), Some("Unexpected EOF".to_string()));
}

#[test]
fn compressed_streams_get_a_hint() {
    let mut s = stream_without("");
    s[0] = 0x1F;
    s[1] = 0x8B;
    assert_eq!(
        parse(s).err(),
        Some("Not a VSF file (looks like gzip-compressed; decompress first)".to_string())
    );
    let mut s = stream_without("");
    s[..3].copy_from_slice(b"BZh");
    assert_eq!(
        parse(s).err(),
        Some("Not a VSF file (looks like bzip2-compressed; decompress first)".to_string())
    );
    let mut s = stream_without("");
    s[..4].copy_from_slice(&[0x50, 0x4B, 0x03, 0x04]);
    assert_eq!(
        parse(s).err(),
        Some("Not a VSF file (looks like zip-compressed; decompress first)".to_string())
    );
}

#[test]
fn other_format_versions_are_refused() {
    let mut s = header(0x1A, 1, 1, "C64SC");
    s.extend(module("MAINCPU", &cpu_payload()));
    assert_eq!(
        parse(s).err(),
        Some(
            "Unsupported snapshot format version 1.1\n\nOnly snapshot format 2.0 is supported.\nYour snapshot is format 1.1.\n\nPlease create a new snapshot using VICE x64sc emulator."
                .to_string()
        )
    );
    let s = header(0x1A, 2, 10, "C64SC");
    assert!(parse(s).err().unwrap().starts_with("Unsupported snapshot format version 2.10\n"));
}

#[test]
fn other_machines_are_refused() {
    let s = header(0x1A, 2, 0, "C64");
    assert_eq!(
        parse(s).err(),
        Some(
            "Unsupported machine type 'C64'\n\nOnly snapshots from x64sc emulator (C64SC) are supported.\nYour snapshot is from 'C64'.\n\nPlease create a new snapshot using x64sc emulator\n(not x64, x64dtv, or other variants)."
                .to_string()
        )
    );
    let s = header(0x1A, 2, 0, "C64SCX");
    assert!(parse(s).err().unwrap().starts_with("Unsupported machine type 'C64SCX'"));
    let mut s = header(0x1A, 2, 0, "C64SC");
    s[21] = 0xFF;
    assert!(parse(s).err().unwrap().starts_with("Unsupported machine type ''"));
}

#[test]
fn truncated_modules_are_refused() {
    let mut s = header(0x1A, 2, 0, "C64SC");
    let m = module("MAINCPU", &cpu_payload());
    s.extend_from_slice(&m[..m.len() - 1]);
    assert_eq!(parse(s).err(), Some("Module 'MAINCPU' beyond EOF".to_string()));

    let mut s = header(0x1A, 2, 0, "C64SC");
    s.extend_from_slice(&m[..20]);
    assert_eq!(parse(s).err(), Some("Unexpected EOF".to_string()));

    let mut s = header(0x1A, 2, 0, "C64SC");
    let mut bad = module("SID", &sid_payload());
    bad[18..22].copy_from_slice(&21u32.to_le_bytes());
    s.extend(bad);
    assert_eq!(parse(s).err(), Some("Module size corrupt".to_string()));
}

#[test]
fn short_module_payloads_are_refused() {
    let base = header(0x1A, 2, 0, "C64SC");
    let cases: Vec<(&str, usize, &str)> = vec![
        ("MAINCPU", 14, "Unexpected EOF"),
        ("C64MEM", 65539, "C64MEM too short"),
        ("VIC-II", 1784, "VIC-II module too small"),
        ("CIA1", 19, "Unexpected EOF"),
        ("CIA2", 19, "Unexpected EOF"),
        ("SID", 28, "SID regs offset out of range"),
    ];
    for (name, len, message) in cases {
        let mut s = base.clone();
        s.extend(module(name, &vec![0u8; len]));
        assert_eq!(parse(s).err(), Some(message.to_string()));
    }
}

#[test]
fn missing_modules_are_named() {
    for name in ["MAINCPU", "C64MEM", "VIC-II", "CIA1", "CIA2", "SID"] {
        assert_eq!(parse(stream_without(name)).err(), Some(format!("{} missing", name)));
    }
    assert_eq!(
        parse(header(0x1A, 2, 0, "C64SC")).err(),
        Some("MAINCPU missing".to_string())
    );
}

#[test]
fn trailing_bytes_short_of_a_name_are_left_alone() {
    let mut s = stream_without("");
    s.extend_from_slice(&[0xFF; 15]);
    assert!(parse(s).is_ok());
}

#[test]
fn a_later_module_replaces_an_earlier_one() {
    let mut s = stream_without("");
    let mut cpu = cpu_payload();
    cpu[8] = 0x77;
    s.extend(module("MAINCPU", &cpu));
    assert_eq!(parse(s).unwrap().cpu.a, 0x77);
}

#[test]
fn modules_are_found_in_any_order_and_between_others() {
    let ram = ram_image(|i| (i % 16) as u8);
    let mut s = header(0x1A, 2, 0, "C64SC");
    s.extend(module("SID", &sid_payload()));
    s.extend(module("KEYBOARD", &[]));
    s.extend(module("CIA2", &cia_payload(0x50, 0x51)));
    s.extend(module("CIA1", &cia_payload(0x10, 0x11)));
    s.extend(module("TAPE", &[9; 40]));
    s.extend(module("VIC-II", &vic_payload()));
    s.extend(module("C64MEM", &mem_payload(&ram)));
    s.extend(module("MAINCPU", &cpu_payload()));
    s.extend(module("DRIVE", &[1, 2, 3]));
    let shuffled = parse(s).unwrap();
    let plain = parse(stream_without("")).unwrap();
    assert_eq!(shuffled.cpu, plain.cpu);
    assert_eq!(shuffled.mem.ram[..], plain.mem.ram[..]);
    assert_eq!(shuffled.mem.cpu_port_data, plain.mem.cpu_port_data);
    assert_eq!(shuffled.vic.registers, plain.vic.registers);
    assert_eq!(shuffled.vic.color_ram[..], plain.vic.color_ram[..]);
    assert_eq!(shuffled.cia1, plain.cia1);
    assert_eq!(shuffled.cia2, plain.cia2);
    assert_eq!(shuffled.sid.regs_25, plain.sid.regs_25);
}

#[test]
fn parse_import_with_takes_a_configuration() {
    let cfg = ParserConfig::default_vice_like();
    assert!(cfg.vic_regs_off.is_none() && cfg.vic_color_off.is_none() && cfg.sid_regs_off.is_none());
    let parser = ParseVSF::new(stream_without(""));
    assert_eq!(parser.parse_import_with(&cfg).unwrap().cpu.pc, 0xC000);
}

#[test]
fn readers_of_numbers() {
    let data = [0x34u8, 0x12, 0x78, 0x56, 0x9A];
    assert_eq!(read_u8(&data, 4), Ok(0x9A));
    assert_eq!(read_u8(&data, 5), Err("Unexpected EOF".to_string()));
    assert_eq!(read_u16(&data, 1), Ok(0x7812));
    assert_eq!(read_u16(&data, 4), Err("Unexpected EOF".to_string()));
    assert_eq!(read_u32(&data, 0), Ok(0x5678_1234));
    assert_eq!(read_u32(&data, 1), Ok(0x9A56_7812));
    assert_eq!(read_u32(&data, 2), Err("Unexpected EOF".to_string()));
    assert_eq!(read_fixed(&data, 1, 3), Ok(vec![0x12, 0x78, 0x56]));
    assert_eq!(read_fixed(&data, 3, 3), Err("Unexpected EOF".to_string()));
    assert_eq!(read_fixed_opt(&data, 3, 2), Some(vec![0x56, 0x9A]));
    assert_eq!(read_fixed_opt(&data, 6, 0), None);
    assert_eq!(read_fixed_opt(&data, 5, 0), Some(vec![]));
}

#[test]
fn small_helpers() {
    assert_eq!(trim_nul(b"CIA1\0\0junk"), b"CIA1");
    assert_eq!(trim_nul(b"SID"), b"SID");
    assert_eq!(trim_nul(b"\0abc"), b"");
    assert!(bytes_equal(b"abc", b"abc"));
    assert!(!bytes_equal(b"abc", b"abd"));
    assert!(!bytes_equal(b"abc", b"ab"));
    assert_eq!(ensure(true, "no"), Ok(()));
    assert_eq!(ensure(false, "no"), Err("no".to_string()));
    assert_eq!(ensure_eq(b"a", b"a", "differs"), Ok(()));
    assert_eq!(ensure_eq(b"a", b"b", "differs"), Err("differs".to_string()));
    assert!(vsf_magic_ok(b"VICE Snapshot File\x1A"));
    assert!(!vsf_magic_ok(b"VICE Snapshot File"));
    assert!(!vsf_magic_ok(b"VICE Snapshot Film\x1A"));
    assert_eq!(sniff_compression_prefix(&[0x1F, 0x8B]), Some("gzip"));
    assert_eq!(sniff_compression_prefix(b"BZh9"), Some("bzip2"));
    assert_eq!(sniff_compression_prefix(&[0x50, 0x4B, 0x03, 0x04]), Some("zip"));
    assert_eq!(sniff_compression_prefix(&[0x50, 0x4B, 0x03]), None);
    assert_eq!(sniff_compression_prefix(&[]), None);
}

#[test]
fn module_decoders() {
    let cfg = ParserConfig::default_vice_like();
    let cpu = parse_cpu(&cpu_payload()).unwrap();
    assert_eq!((cpu.a, cpu.x, cpu.y, cpu.sp, cpu.pc, cpu.p), (1, 2, 3, 0xF7, 0xC000, 0x24));
    assert!(validate_cpu(&cpu).is_ok());
    let ram = ram_image(|_| 0);
    let mem = parse_memory(&mem_payload(&ram)).unwrap();
    assert_eq!(mem.ram[0x1234], ram[0x1234]);
    let vic = parse_vic(&vic_payload(), &cfg).unwrap();
    assert_eq!(vic.registers[46], 0x40 + 46);
    assert_eq!(vic.color_ram[1023], 0xAF);
    let cia = parse_cia(&cia_payload(0x10, 0)).unwrap();
    assert_eq!(cia.orb, 0xFF);
    assert_eq!(cia.tbc, 0x5678);
    let sid = parse_sid(&sid_payload(), &cfg).unwrap();
    assert_eq!(sid.regs_25[24], 0x80 + 24);
}

#[test]
fn streams_are_cut_out_of_the_snapshot() {
    let ram = ram_image(|i| (i % 16) as u8);
    let parser = ParseVSF::new(stream_with(&ram, 0x11));
    let snap = parser.parse_import().unwrap();
    let parts = parser.extract_ram(&snap);
    assert_eq!(&parts.ram[..], &ram[0x0200..0xFFF0]);
    assert_eq!(&parts.zp[..], &ram[0x02..0xF8]);
    assert_eq!(&parts.color[..], &ram[0xD800..0xDC00]);
    assert_eq!(parts.vic.len(), 47);
    assert_eq!(parts.sid.len(), 25);
    assert_eq!(
        parts.cia1,
        vec![
            0x10, 0x11, 0x12, 0x13, 0xBC, 0x9A, 0xF0, 0xDE, 0x18, 0x19, 0x1A, 0x1B, 0x00, 0x1D,
            0x1E, 0x1F, 0x34, 0x12, 0x78, 0x56
        ]
    );
    assert_eq!(cia_bytes(&snap.cia2)[0], 0x50);
}

#[test]
fn an_interface_adapter_is_restored_in_order() {
    let cia = parse_cia(&cia_payload(0x10, 0x11)).unwrap();
    let mut bus = RecordingBus::new();
    restore_cia(&mut bus, 0xDC00, &cia);
    assert_eq!(
        bus.log,
        vec![
            (0xDC0E, 0x00),
            (0xDC0F, 0x00),
            (0xDC02, 0x12),
            (0xDC03, 0x13),
            (0xDC00, 0x10),
            (0xDC01, 0x11),
            (0xDC04, 0xBC),
            (0xDC05, 0x9A),
            (0xDC06, 0xF0),
            (0xDC07, 0xDE),
            (0xDC0E, 0x10),
            (0xDC0E, 0x00),
            (0xDC0F, 0x10),
            (0xDC0F, 0x00),
            (0xDC0D, 0x7F),
            (0xDC0D, 0x9D),
            (0xDC0E, 0x0E),
            (0xDC0F, 0x0F),
        ]
    );
    let mut quiet = cia;
    quiet.ier = 0x80;
    let mut bus = RecordingBus::new();
    restore_cia(&mut bus, 0xDD00, &quiet);
    assert_eq!(bus.log.len(), 17);
    assert_eq!(bus.log[14], (0xDD0D, 0x7F));
    assert_eq!(bus.log[15], (0xDD0E, 0x0E));
}

#[test]
fn the_whole_machine_is_restored() {
    let ram = ram_image(|i| (i % 16) as u8 | 0x30);
    let snap = parse(stream_with(&ram, 0x11)).unwrap();
    let mut bus = RecordingBus::new();
    let mut cpu = RecordingCpu::new();
    restore_all(&mut bus, &mut cpu, &snap);
    assert_eq!(
        cpu.last,
        Some(Cpu6510 { a: 1, x: 2, y: 3, sp: 0xF7, pc: 0xC000, p: 0x24 })
    );
    let w = &bus.log;
    assert_eq!(w.len(), 18 + 18 + 47 + 1024 + 25 + 2 + (65536 - 1024) + 2);
    assert_eq!(w[0], (0xDC0E, 0));
    assert_eq!(w[18], (0xDD0E, 0));
    assert_eq!(w[36], (0xD000, 0x40));
    assert_eq!(w[36 + 47], (0xD800, snap.vic.color_ram[0] & 0x0F));
    assert_eq!(w[36 + 47 + 1023], (0xDBFF, snap.vic.color_ram[1023] & 0x0F));
    assert_eq!(w[36 + 47 + 1024], (0xD400, 0x80));
    let r = 36 + 47 + 1024 + 25;
    assert_eq!(w[r], (0x0001, 0x07));
    assert_eq!(w[r + 1], (0x0001, 0x00));
    assert_eq!(w[r + 2], (0x0000, ram[0]));
    assert_eq!(w[r + 2 + 0xD7FF], (0xD7FF, ram[0xD7FF]));
    assert_eq!(w[r + 2 + 0xD800], (0xDC00, ram[0xDC00]));
    assert_eq!(w[w.len() - 3], (0xFFFF, ram[0xFFFF]));
    assert_eq!(w[w.len() - 2], (0x0001, 0x2F));
    assert_eq!(w[w.len() - 1], (0x0001, 0x37));
}
