use vice_snapshot_to_prg_converter::config::{Config, CrtConfig};
use vice_snapshot_to_prg_converter::convert_snapshot::{
    compress_components, patch_snapshot, prepare_streams, zero_extra_blocks, zero_page_tail,
    ConvertSnapshot,
};
use vice_snapshot_to_prg_converter::convert_snapshot_crt::ConvertSnapshotCRT;
use vice_snapshot_to_prg_converter::convert_snapshot_magic_desk_crt::{
    CartridgeCode, ConvertSnapshotMagicDeskCRT,
};
use vice_snapshot_to_prg_converter::file_system_manager::PRGFile;
use vice_snapshot_to_prg_converter::parse_vsf::ParseVSF;
use vice_snapshot_to_prg_converter::toolchain::{ToolRequest, Toolchain};

fn module(name: &str, payload: &[u8]) -> Vec<u8> {
    let mut out = Vec::new();
    let mut field = [0u8; 16];
    field[..name.len()].copy_from_slice(name.as_bytes());
    out.extend_from_slice(&field);
    out.push(1);
    out.push(0);
    out.extend_from_slice(&((payload.len() + 22) as u32).to_le_bytes());
    out.extend_from_slice(payload);
    out
}

fn noisy_ram() -> Vec<u8> {
    let mut ram = vec![0u8; 65536];
    for i in 0..65536usize {
        ram[i] = (i % 251) as u8 ^ ((i / 251) as u8).wrapping_mul(7);
        if i > 0 && ram[i] == ram[i - 1] {
            ram[i] = ram[i].wrapping_add(1);
        }
    }
    ram
}

fn roomy_ram() -> Vec<u8> {
    let mut ram = noisy_ram();
    for b in &mut ram[0x5000..0x5400] {
        *b = 0;
    }
    ram[0x4FFF] = 1;
    ram[0x5400] = 1;
    ram
}

fn stream(ram: &[u8], sp: u8) -> Vec<u8> {
    let mut s = Vec::new();
    s.extend_from_slice(b"VICE Snapshot File\x1A");
    s.extend_from_slice(&[2, 0]);
    s.extend_from_slice(b"C64SC\0\0\0\0\0\0\0\0\0\0\0");
    s.extend_from_slice(&[0u8; 21]);
    let mut cpu = vec![0u8; 8];
    cpu.extend_from_slice(&[0x01, 0x02, 0x03, sp, 0x00, 0xC0, 0x24]);
    s.extend(module("MAINCPU", &cpu));
    let mut mem = vec![0x37, 0x2F, 0, 0];
    mem.extend_from_slice(ram);
    s.extend(module("C64MEM", &mem));
    s.extend(module("VIC-II", &vec![0x0B; 761 + 1024]));
    let cia: Vec<u8> = (1..=20).collect();
    s.extend(module("CIA1", &cia));
    s.extend(module("CIA2", &cia));
    s.extend(module("SID", &vec![0x0C; 29]));
    s
}

fn trampoline() -> Vec<u8> {
    let mut code = vec![0x85, 0x93, 0x78, 0xEA];
    code.extend_from_slice(&[0x18, 0x60, 0x8E, 0x00, 0xDE, 0x8C, 0x02, 0xDE, 0x60, 0x20]);
    code
}

/// Stands in for the outside tools: every request has one answer.
fn answer(request: &ToolRequest) -> Result<Vec<u8>, String> {
    match request {
        ToolRequest::Compress(data) => {
            let mut out = vec![0x4C, 0x5A];
            out.extend_from_slice(&(data.len() as u32).to_le_bytes());
            out.extend(data.iter().take(8));
            Ok(out)
        }
        ToolRequest::Assemble(source) | ToolRequest::AssembleWithFiles(source, _) => {
            if source.contains("load_trampoline:") {
                Ok(trampoline())
            } else if source.contains("load_handler:") {
                Ok(vec![0xAD, 0x0D, 0xDD, 0x60])
            } else if source.starts_with("; Magic Desk Boot Code") {
                let mut boot = vec![0x09, 0x80, 0x09, 0x80, 0xC3, 0xC2, 0xCD, 0x38, 0x30];
                boot.extend(vec![0xEA; 91]);
                Ok(boot)
            } else if source.starts_with("; C64 EasyFlash ROMH") {
                let mut startup = vec![0x40, 0x78, 0xD8];
                startup.resize(8192, 0);
                Ok(startup)
            } else if source.starts_with("*=$0100") {
                Ok(vec![0xA0; 0xB0])
            } else if source.contains("Snapshot Restore Code") {
                Ok(vec![0x78; 0x0350])
            } else if source.starts_with("; C64 LZSA1 Snapshot Loader") {
                Ok(vec![0x0B, 0x08, 0x0A, 0x00, 0x9E, 0x32, 0x30, 0x36, 0x31])
            } else {
                Err("unknown source".to_string())
            }
        }
    }
}

/// Runs a conversion to its end: whenever it waits for a tool, the tool's
/// answer joins the list and the conversion starts again.
fn drive(
    convert: impl Fn(&mut Toolchain) -> Result<Vec<u8>, String>,
    answer: impl Fn(&ToolRequest) -> Result<Vec<u8>, String>,
) -> (Result<Vec<u8>, String>, Vec<ToolRequest>) {
    let mut replies: Vec<Result<Vec<u8>, String>> = Vec::new();
    let mut requests = Vec::new();
    loop {
        let mut tools = Toolchain::new(replies.clone());
        let result = convert(&mut tools);
        match tools.into_pending() {
            Some(request) => {
                assert!(result.is_err());
                replies.push(answer(&request));
                requests.push(request);
                assert!(requests.len() < 50);
            }
            None => return (result, requests),
        }
    }
}

fn kinds(requests: &[ToolRequest]) -> String {
    requests
        .iter()
        .map(|r| match r {
            ToolRequest::Compress(_) => 'c',
            ToolRequest::Assemble(_) => 'a',
            ToolRequest::AssembleWithFiles(_, _) => 'f',
        })
        .collect()
}

#[test]
fn program_from_a_snapshot() {
    let input = stream(&roomy_ram(), 0xF7);
    let converter = ConvertSnapshot::new(Config::new("/tmp/w"));
    let (result, requests) = drive(|tools| converter.convert(&input, tools), answer);
    let program = result.unwrap();
    assert_eq!(&program[..2], &[0x01, 0x08]);
    assert_eq!(program.len(), 11);
    assert_eq!(kinds(&requests), "cccccaf");
    let lengths: Vec<usize> = requests
        .iter()
        .take(5)
        .map(|r| match r {
            ToolRequest::Compress(data) => data.len(),
            _ => 0,
        })
        .collect();
    assert_eq!(lengths, vec![0xFDF0, 1024, 0xF6, 47, 25]);
    match &requests[5] {
        ToolRequest::Assemble(source) => {
            assert!(source.contains("    JMP $5118\n"));
        }
        other => panic!("{:?}", other),
    }
    match &requests[6] {
        ToolRequest::AssembleWithFiles(source, files) => {
            assert!(source.contains(".incbin \"/tmp/w/relocated.bin\""));
            assert_eq!(files[6].content, vec![0xA0; 0xB0]);
            assert_eq!(files[3].content.len(), 20);
            assert_eq!(files[3].content[0], 1);
            assert_eq!(&files[7].content[..6], &[0x4C, 0x5A, 0xF0, 0xFD, 0x00, 0x00]);
        }
        other => panic!("{:?}", other),
    }
}

#[test]
fn a_conversion_waits_for_each_tool() {
    let input = stream(&roomy_ram(), 0xF7);
    let converter = ConvertSnapshot::new(Config::new("/tmp/w"));
    let mut tools = Toolchain::new(vec![]);
    assert_eq!(
        converter.convert(&input, &mut tools),
        Err("Failed to compress RAM: LZSA compression failed: Waiting for an outside tool".to_string())
    );
    assert!(tools.is_waiting());
    let mut tools = Toolchain::new(vec![Ok(vec![1]), Err("disk full".to_string())]);
    assert_eq!(
        converter.convert(&input, &mut tools),
        Err("Failed to compress color RAM: LZSA compression failed: disk full".to_string())
    );
    assert!(!tools.is_waiting());
    let five: Vec<Result<Vec<u8>, String>> = (0..5).map(|k| Ok(vec![k])).collect();
    let mut replies = five.clone();
    replies.push(Err("bad opcode".to_string()));
    let mut tools = Toolchain::new(replies);
    assert_eq!(
        converter.convert(&input, &mut tools),
        Err("Failed to generate PRG: Relocated code assembly failed: bad opcode".to_string())
    );
}

#[test]
fn an_image_without_free_memory_is_refused() {
    let input = stream(&noisy_ram(), 0xF7);
    let expected = Err("Failed to allocate block 1 (48 bytes)".to_string());
    let converter = ConvertSnapshot::new(Config::new("/tmp/w"));
    let (result, requests) = drive(|tools| converter.convert(&input, tools), answer);
    assert_eq!(result, expected);
    assert!(result.err().unwrap().starts_with("Failed to allocate block"));
    assert!(requests.is_empty());

    let crt = ConvertSnapshotCRT::new(CrtConfig::new(Config::new("/tmp/w")));
    let (result, requests) = drive(|tools| crt.convert(&input, &[], tools), answer);
    assert_eq!(result, expected);
    assert!(requests.is_empty());

    let md = ConvertSnapshotMagicDeskCRT::new(CrtConfig::new(Config::new("/tmp/w")));
    let (result, _) = drive(|tools| md.convert(&input, tools), answer);
    assert_eq!(result, expected);
}

#[test]
fn ranges_given_up_become_free_memory() {
    let input = stream(&noisy_ram(), 0xF7);
    let md = ConvertSnapshotMagicDeskCRT::with_extra_blocks(
        CrtConfig::new(Config::new("/tmp/w")),
        vec![(0x6000, 0x0400)],
    );
    let (result, requests) = drive(|tools| md.convert(&input, tools), answer);
    assert!(result.is_ok());
    match &requests[0] {
        ToolRequest::Compress(ram) => {
            assert_eq!(ram.len(), 0xFDF0);
            assert!(ram[0x6000 - 0x200..0x6400 - 0x200].iter().any(|&b| b != 0));
            assert_eq!(ram[0x63FF - 0x200], 0);
            assert_ne!(ram[0x6400 - 0x200], 0);
        }
        other => panic!("{:?}", other),
    }
    let mut ram = [0x55u8; 65536];
    zero_extra_blocks(&mut ram, &[(0x1000, 2), (0xFFFE, 100), (0x2000, 0)]);
    assert_eq!(&ram[0x0FFF..0x1003], &[0x55, 0, 0, 0x55]);
    assert_eq!(&ram[0xFFFD..], &[0x55, 0, 0]);
    assert_eq!(ram[0x2000], 0x55);
}

#[test]
fn broken_streams_are_refused_by_every_converter() {
    let converter = ConvertSnapshot::new(Config::new("/tmp/w"));
    let mut tools = Toolchain::new(vec![]);
    assert_eq!(
        converter.convert(b"not a snapshot at all, no", &mut tools),
        Err("Failed to parse VSF: Not a VSF file".to_string())
    );
    assert!(!tools.is_waiting());
    let crt = ConvertSnapshotCRT::new(CrtConfig::new(Config::new("/tmp/w")));
    assert_eq!(
        crt.convert(&[0x1F, 0x8B, 0, 0, 0, 0, 0, 0, 0, 0, 0, 0, 0, 0, 0, 0, 0, 0, 0], &[], &mut tools),
        Err("Failed to parse VSF: Not a VSF file (looks like gzip-compressed; decompress first)"
            .to_string())
    );
    let md = ConvertSnapshotMagicDeskCRT::new(CrtConfig::new(Config::new("/tmp/w")));
    assert_eq!(
        md.convert(&[], &mut tools),
        Err("Failed to parse VSF: Unexpected EOF".to_string())
    );
}

#[test]
fn cartridge_of_8k_banks() {
    let input = stream(&roomy_ram(), 0xF7);
    let md = ConvertSnapshotMagicDeskCRT::new(CrtConfig::new(Config::new("/tmp/w")));
    let (result, requests) = drive(|tools| md.convert(&input, tools), answer);
    let file = result.unwrap();
    assert_eq!(kinds(&requests), "cccccaaaaaa");
    assert_eq!(file.len(), 64 + 8 * 8208);
    assert_eq!(&file[0..16], b"C64 CARTRIDGE   ");
    assert_eq!(&file[22..24], &[0x00, 0x13]);
    assert_eq!(&file[32..45], b"VICE SNAPSHOT");
    let bank0 = &file[64 + 16..64 + 8208];
    assert_eq!(&bank0[4..9], &[0xC3, 0xC2, 0xCD, 0x38, 0x30]);
    assert_eq!(&bank0[100..103], &[0x78; 3]);
    assert_eq!(bank0[100 + 0x350], 0xA0);
    assert_eq!(&bank0[100 + 0x350 + 0xB0..100 + 0x350 + 0xB0 + 2], &[0x4C, 0x5A]);
    assert!(bank0[100 + 0x350 + 0xB0 + 14..].iter().all(|&b| b == 0));
    for k in 0..8 {
        let packet = &file[64 + k * 8208..64 + (k + 1) * 8208];
        assert_eq!(&packet[0..4], b"CHIP");
        assert_eq!(&packet[10..14], &[0, k as u8, 0x80, 0x00]);
    }
    match &requests[10] {
        ToolRequest::Assemble(source) => {
            assert!(source.contains("    ; Pages to copy\n    LDA #$04\n"));
        }
        other => panic!("{:?}", other),
    }
    match &requests[8] {
        ToolRequest::Assemble(source) => {
            assert!(source.contains("RELOCATED_SIZE = 176\n"));
            assert!(source.contains("    LDA #$83\n    STA $FC\n    LDA #$B4\n    STA $FB"));
        }
        other => panic!("{:?}", other),
    }
}

#[test]
fn bank_counts_of_the_8k_cartridge() {
    assert_eq!(ConvertSnapshotMagicDeskCRT::required_bank_count(0, 100), 1);
    assert_eq!(ConvertSnapshotMagicDeskCRT::required_bank_count(8092, 100), 1);
    assert_eq!(ConvertSnapshotMagicDeskCRT::required_bank_count(8093, 100), 2);
    assert_eq!(ConvertSnapshotMagicDeskCRT::required_bank_count(8092 + 8192, 100), 2);
    assert_eq!(ConvertSnapshotMagicDeskCRT::required_bank_count(8092 + 8193, 100), 3);
    assert_eq!(ConvertSnapshotMagicDeskCRT::bank_count(0, 100), 8);
    assert_eq!(ConvertSnapshotMagicDeskCRT::bank_count(8092 + 7 * 8192, 100), 8);
    assert_eq!(ConvertSnapshotMagicDeskCRT::bank_count(8092 + 7 * 8192 + 1, 100), 9);
    assert_eq!(ConvertSnapshotMagicDeskCRT::bank_count(60000, 8192), 9);
}

#[test]
fn the_8k_cartridge_has_at_most_64_banks() {
    let md = ConvertSnapshotMagicDeskCRT::new(
        CrtConfig::new(Config::new("/tmp/w")).with_cartridge_name("big one"),
    );
    let code = CartridgeCode { boot: vec![1; 100], restore: vec![2; 0x300], relocated: vec![3; 0xB0] };
    let fits = vec![4u8; 64 * 8192 - 100 - 0x300 - 0xB0];
    let file = md.build_cartridge(&code, &fits).unwrap();
    assert_eq!(file.len(), 64 + 64 * 8208);
    assert_eq!(&file[32..39], b"BIG ONE");
    assert_eq!(file[file.len() - 1], 4);
    let over = vec![4u8; 64 * 8192 - 100 - 0x300 - 0xB0 + 1];
    assert_eq!(
        md.build_cartridge(&code, &over).err(),
        Some(
            "Snapshot data is too large for Magic Desk cartridge!\n\nRequired banks: 65\nMaximum banks:  64 (524288 bytes)\n\nThe snapshot is too large or doesn't compress well enough."
                .to_string()
        )
    );
    let long_name = ConvertSnapshotMagicDeskCRT::new(
        CrtConfig::new(Config::new("/tmp/w"))
            .with_cartridge_name("a name of more than thirty-two bytes"),
    );
    assert_eq!(
        long_name.build_cartridge(&code, &[1]).err(),
        Some("Name cannot be longer than 32 characters".to_string())
    );
    let wide = CartridgeCode { boot: vec![1; 8193], restore: vec![], relocated: vec![] };
    assert_eq!(
        md.build_cartridge(&wide, &[]).err(),
        Some("Data does not fit in bank (8193 bytes + offset 0 > 8192)".to_string())
    );
}

#[test]
fn boot_code_must_keep_its_size() {
    let input = stream(&roomy_ram(), 0xF7);
    let md = ConvertSnapshotMagicDeskCRT::new(CrtConfig::new(Config::new("/tmp/w")));
    let changing = |request: &ToolRequest| match request {
        ToolRequest::Assemble(source)
            if source.starts_with("; Magic Desk Boot Code") && !source.contains("LDA #$00\n    STA $F8") =>
        {
            Ok(vec![0xEA; 101])
        }
        other => answer(other),
    };
    let (result, _) = drive(|tools| md.convert(&input, tools), changing);
    assert_eq!(
        result,
        Err("Boot code size changed between passes: 100 -> 101. This is a bug - please report it."
            .to_string())
    );
    let huge = |request: &ToolRequest| match request {
        ToolRequest::Assemble(source) if source.contains("Snapshot Restore Code") => {
            Ok(vec![0x78; 65281])
        }
        other => answer(other),
    };
    let (result, _) = drive(|tools| md.convert(&input, tools), huge);
    assert_eq!(
        result,
        Err("Restore code too large: 65281 bytes = 256 pages (max 255 pages)".to_string())
    );
    let fat = |request: &ToolRequest| match request {
        ToolRequest::Assemble(source) if source.starts_with("*=$0100") => Ok(vec![0xA0; 65530]),
        other => answer(other),
    };
    let (result, _) = drive(|tools| md.convert(&input, tools), fat);
    assert_eq!(
        result,
        Err("Restore data does not fit into RAM: 65530 + 14 bytes (max 65536)".to_string())
    );
}

fn hello_and_loader() -> Vec<PRGFile> {
    vec![
        PRGFile {
            filename: "HELLO.PRG".to_string(),
            load_address: 0x0801,
            data: vec![0xA9, 0x00, 0x60],
            total_size: 5,
        },
        PRGFile {
            filename: "LOADER.PRG".to_string(),
            load_address: 0x1000,
            data: vec![0xA9, 0xFF, 0x60],
            total_size: 5,
        },
    ]
}

#[test]
fn cartridge_of_16k_banks_with_two_files() {
    let input = stream(&roomy_ram(), 0xF7);
    let config = CrtConfig::new(Config::new("/tmp/w")).with_include_dir("files");
    let crt = ConvertSnapshotCRT::new(config);
    let files = hello_and_loader();
    let (result, requests) = drive(|tools| crt.convert(&input, &files, tools), answer);
    let file = result.unwrap();
    assert_eq!(kinds(&requests), "aacccccaaaaaa");
    assert_eq!(file.len(), 64 + 3 * 8208);
    assert_eq!(&file[22..26], &[0x00, 0x20, 1, 0]);
    assert_eq!(&file[32..45], b"VICE SNAPSHOT");
    assert_eq!(file[45], 0);

    let low0 = &file[64 + 16..64 + 8208];
    assert_eq!(&low0[0..3], &[0x78; 3]);
    assert_eq!(low0[0x350], 0xA0);
    assert_eq!(&low0[0x350 + 0xB0..0x350 + 0xB0 + 2], &[0x4C, 0x5A]);

    let high = &file[64 + 8208..64 + 2 * 8208];
    assert_eq!(&high[0..4], b"CHIP");
    assert_eq!(&high[10..14], &[0, 0, 0xE0, 0x00]);
    let high0 = &high[16..];
    assert_eq!(&high0[0..3], &[0x40, 0x78, 0xD8]);
    assert_eq!(&high0[0x0600..0x0604], &[0xAD, 0x0D, 0xDD, 0x60]);
    assert_eq!(
        &high0[0x1000..0x1010],
        &[0x00, 0xB8, 1, 0, 0, 0, 0, 0, 0, 0, 0x00, 0x00, 0x03, 0x00, 0x01, 0x08]
    );
    assert_eq!(
        &high0[0x1010..0x1020],
        &[0x06, 0xB8, 1, 0, 0, 0, 0, 0, 0, 0, 0x03, 0x00, 0x03, 0x00, 0x00, 0x10]
    );
    assert!(high0[0x1020..0x1800].iter().all(|&b| b == 0));
    assert_eq!(&high0[0x1800..0x180D], b"HELLO\0LOADER\0");
    assert_eq!(&high0[0x1FFA..], &[0x00, 0xE0, 0x01, 0xE0, 0x00, 0xE0]);

    let bank1 = &file[64 + 2 * 8208..];
    assert_eq!(&bank1[10..14], &[0, 1, 0x80, 0x00]);
    assert_eq!(&bank1[16..22], &[0xA9, 0x00, 0x60, 0xA9, 0xFF, 0x60]);

    match &requests[2] {
        ToolRequest::Compress(ram) => {
            assert_eq!(&ram[0x0330 - 0x0200..0x0334 - 0x0200], &[0x00, 0x01, 0x04, 0x01]);
        }
        other => panic!("{:?}", other),
    }
}

#[test]
fn the_trampoline_goes_behind_the_vectors_where_the_stack_is_deep() {
    let input = stream(&roomy_ram(), 0x80);
    let config = CrtConfig::new(Config::new("/tmp/w")).with_include_dir("files");
    let crt = ConvertSnapshotCRT::new(config);
    assert_eq!(crt.trampoline_address(0x80), 0x0334);
    assert_eq!(crt.trampoline_address(0xF2), 0x0100);
    assert!(crt.serves_files());
    let files = hello_and_loader();
    let (result, requests) = drive(|tools| crt.convert(&input, &files, tools), answer);
    assert!(result.is_ok());
    match &requests[2] {
        ToolRequest::Compress(ram) => {
            assert_eq!(&ram[0x0330 - 0x0200..0x0334 - 0x0200], &[0x34, 0x03, 0x38, 0x03]);
            assert_eq!(&ram[0x0334 - 0x0200..0x0334 - 0x0200 + 14], &trampoline()[..]);
        }
        other => panic!("{:?}", other),
    }
    let fixed = ConvertSnapshotCRT::new(
        CrtConfig::new(Config::new("/tmp/w"))
            .with_include_dir("files")
            .with_trampoline_address(0xC000),
    );
    assert_eq!(fixed.trampoline_address(0xFF), 0xC000);
}

#[test]
fn cartridge_of_16k_banks_without_files() {
    let input = stream(&roomy_ram(), 0xF7);
    let crt = ConvertSnapshotCRT::new(
        CrtConfig::new(Config::new("/tmp/w")).with_cartridge_name("Plain"),
    );
    assert!(!crt.serves_files());
    let (result, requests) = drive(|tools| crt.convert(&input, &hello_and_loader(), tools), answer);
    let file = result.unwrap();
    assert_eq!(kinds(&requests), "cccccaaaaa");
    assert_eq!(file.len(), 64 + 2 * 8208);
    assert_eq!(&file[32..37], b"PLAIN");
    let high0 = &file[64 + 8208 + 16..];
    assert!(high0[0x0600..0x1FFA].iter().all(|&b| b == 0));
    assert_eq!(ConvertSnapshotCRT::banks_needed(0, 0, 0), 0);
    assert_eq!(ConvertSnapshotCRT::banks_needed(8000, 100, 92), 1);
    assert_eq!(ConvertSnapshotCRT::banks_needed(8000, 100, 93), 2);
    assert_eq!(ConvertSnapshotCRT::banks_for_files(62), vec![62, 63]);
    assert!(ConvertSnapshotCRT::banks_for_files(64).is_empty());
}

#[test]
fn restore_data_runs_on_through_the_banks() {
    let input = stream(&roomy_ram(), 0xF7);
    let crt = ConvertSnapshotCRT::new(CrtConfig::new(Config::new("/tmp/w")));
    let large = |request: &ToolRequest| match request {
        ToolRequest::Compress(data) if data.len() == 0xFDF0 => {
            Ok((0..20000u32).map(|i| (i % 199) as u8 + 1).collect())
        }
        other => answer(other),
    };
    let (result, _) = drive(|tools| crt.convert(&input, &[], tools), large);
    let file = result.unwrap();
    assert_eq!(file.len(), 64 + 4 * 8208);
    let mut image = Vec::new();
    image.extend_from_slice(&file[64 + 16..64 + 8208]);
    image.extend_from_slice(&file[64 + 2 * 8208 + 16..64 + 3 * 8208]);
    image.extend_from_slice(&file[64 + 3 * 8208 + 16..64 + 4 * 8208]);
    let start = 0x350 + 0xB0;
    for i in 0..20000usize {
        assert_eq!(image[start + i], (i % 199) as u8 + 1);
    }
    assert!(image[start + 20000..].iter().all(|&b| b == 0));

    let wide = |request: &ToolRequest| match request {
        ToolRequest::Assemble(source) if source.contains("Snapshot Restore Code") => {
            Ok(vec![0x78; 8193])
        }
        other => answer(other),
    };
    let (result, _) = drive(|tools| crt.convert(&input, &[], tools), wide);
    assert_eq!(result, Err("Data does not fit in bank (8193 bytes + offset 0 > 8192)".to_string()));
}

#[test]
fn shared_steps() {
    let ram = roomy_ram();
    let input = stream(&ram, 0xF7);
    let parser = ParseVSF::new(input);
    let snap = parser.parse_import().unwrap();
    assert_eq!(zero_page_tail(&snap.mem.ram), [ram[0xF8], ram[0xF9], ram[0xFA], ram[0xFB], ram[0xFC], ram[0xFD], ram[0xFE], ram[0xFF]]);
    let image: [u8; 65536] = *snap.mem.ram;
    let (patched, block9) = patch_snapshot(&snap, image).unwrap();
    assert_eq!(block9, 0x5000 + 48 + 40 + 6 * 32);
    assert_eq!(patched.cpu, snap.cpu);
    assert_ne!(&patched.mem.ram[0x5000..0x5030], &ram[0x5000..0x5030]);
    assert_eq!(&patched.mem.ram[0x5400..], &ram[0x5400..]);
    let parts = parser.extract_ram(&patched);
    let mut tools = Toolchain::new((0..5).map(|k| Ok(vec![k as u8])).collect());
    let compressed = compress_components(&parser, &parts, &mut tools).unwrap();
    assert_eq!((compressed.ram, compressed.color, compressed.zp), (vec![0], vec![1], vec![2]));
    assert_eq!((compressed.vic, compressed.sid), (vec![3], vec![4]));
    let mut tools = Toolchain::new(vec![Ok(vec![]), Ok(vec![]), Ok(vec![]), Err("x".to_string())]);
    assert_eq!(
        compress_components(&parser, &parts, &mut tools).err(),
        Some("Failed to compress VIC: LZSA compression failed: x".to_string())
    );
    let mut tools = Toolchain::new((0..5).map(|k| Ok(vec![k as u8])).collect());
    let streams = prepare_streams(&parser, &snap, image, &mut tools).unwrap();
    assert_eq!(streams.block9_addr, block9);
    assert_eq!(streams.cia1.len(), 20);
    assert_eq!(streams.f8_ff, zero_page_tail(&snap.mem.ram));
}

#[test]
fn the_restore_routine_is_assembled_until_its_size_settles() {
    let input = stream(&roomy_ram(), 0xF7);
    let crt = ConvertSnapshotCRT::new(CrtConfig::new(Config::new("/tmp/w")));
    let growing = |request: &ToolRequest| match request {
        ToolRequest::Assemble(source) if source.contains("Snapshot Restore Code") => {
            if source.contains("    STA $01\n\n    LDA #$80\n    STA $FC\n    LDA #$00\n    STA $FB") {
                Ok(vec![0x78; 0x0350])
            } else {
                Ok(vec![0x78; 0x0351])
            }
        }
        other => answer(other),
    };
    let (result, requests) = drive(|tools| crt.convert(&input, &[], tools), growing);
    assert!(result.is_ok());
    assert_eq!(kinds(&requests), "cccccaaaaaa");
    match &requests[8] {
        ToolRequest::Assemble(source) => {
            assert!(source.contains("    STA $01\n\n    LDA #$83\n    STA $FC\n    LDA #$51\n    STA $FB"));
        }
        other => panic!("{:?}", other),
    }
    let file = result.unwrap();
    assert_eq!(file[64 + 16 + 0x350], 0x78);
    assert_eq!(file[64 + 16 + 0x351], 0xA0);

    let restless = |request: &ToolRequest| match request {
        ToolRequest::Assemble(source) if source.contains("Snapshot Restore Code") => {
            if source.contains("    STA $01\n\n    LDA #$83\n    STA $FC\n    LDA #$51\n    STA $FB") {
                Ok(vec![0x78; 0x0352])
            } else if source.contains("    STA $01\n\n    LDA #$80\n    STA $FC\n    LDA #$00\n    STA $FB") {
                Ok(vec![0x78; 0x0350])
            } else {
                Ok(vec![0x78; 0x0351])
            }
        }
        other => answer(other),
    };
    let (result, _) = drive(|tools| crt.convert(&input, &[], tools), restless);
    assert_eq!(result, Err("Code size unstable: 849 vs 850".to_string()));
    let md = ConvertSnapshotMagicDeskCRT::new(CrtConfig::new(Config::new("/tmp/w")));
    let restless = |request: &ToolRequest| match request {
        ToolRequest::Assemble(source) if source.contains("Snapshot Restore Code") => {
            if source.contains("(ROML)\n    LDA #$80\n    STA $FC\n    LDA #$64\n    STA $FB") {
                Ok(vec![0x78; 0x0100])
            } else if source.contains("(ROML)\n    LDA #$81\n    STA $FC\n    LDA #$64\n    STA $FB") {
                Ok(vec![0x78; 0x0200])
            } else {
                Ok(vec![0x78; 0x0300])
            }
        }
        other => answer(other),
    };
    let (result, _) = drive(|tools| md.convert(&input, tools), restless);
    assert_eq!(result, Err("Code size unstable: 512 vs 768".to_string()));
}
