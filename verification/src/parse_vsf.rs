//! Snapshot container reader and component extractor.
//!
//! A snapshot is a chunked byte stream: a fixed header, then named modules.
//! The reader decodes the modules that describe the processor, the memory, the
//! video chip, the two interface adapters and the sound chip.

use vstd::prelude::*;
use vstd::string::*;
use crate::bytes::{copy_range, write_bytes};
use crate::text::{decimal, decimal_chars};
use crate::toolchain::{reply_view, spec_compress, ReplyView, ToolRequest, ToolState, Toolchain};

verus! {

/// Processor registers.
#[derive(Debug, Clone, Copy, PartialEq, Eq, Structural)]
pub struct Cpu6510 {
    pub a: u8,
    pub x: u8,
    pub y: u8,
    pub sp: u8,
    pub pc: u16,
    pub p: u8,
}

/// Processor port and the 64 KiB of RAM.
#[derive(Debug, Clone)]
pub struct C64Mem {
    pub cpu_port_data: u8,
    pub cpu_port_dir: u8,
    pub ram: Box<[u8; 65536]>,
}

/// Video chip registers and color memory.
#[derive(Debug, Clone)]
pub struct VicII {
    pub registers: [u8; 47],
    pub color_ram: Box<[u8; 1024]>,
}

/// One interface adapter.
#[derive(Debug, Clone, Copy, PartialEq, Eq, Structural)]
pub struct Cia6526 {
    pub ddra: u8,
    pub ddrb: u8,
    pub ora: u8,
    pub orb: u8,
    pub tac: u16,
    pub tbc: u16,
    pub tal: u16,
    pub tbl: u16,
    pub tod_10ths: u8,
    pub tod_sec: u8,
    pub tod_min: u8,
    pub tod_hr: u8,
    pub cra: u8,
    pub crb: u8,
    pub ier: u8,
}

/// Sound chip registers.
#[derive(Debug, Clone)]
pub struct Sid6581 {
    pub regs_25: [u8; 25],
}

/// The machine state that a snapshot holds.
#[derive(Debug, Clone)]
pub struct C64Snapshot {
    pub cpu: Cpu6510,
    pub mem: C64Mem,
    pub vic: VicII,
    pub cia1: Cia6526,
    pub cia2: Cia6526,
    pub sid: Sid6581,
}

} // verus!

verus! {

/// The memory record as a spec value.
pub struct MemView {
    pub cpu_port_data: u8,
    pub cpu_port_dir: u8,
    pub ram: Seq<u8>,
}

/// The video chip record as a spec value.
pub struct VicView {
    pub registers: Seq<u8>,
    pub color_ram: Seq<u8>,
}

/// A snapshot as a spec value.
pub struct SnapshotView {
    pub cpu: Cpu6510,
    pub mem: MemView,
    pub vic: VicView,
    pub cia1: Cia6526,
    pub cia2: Cia6526,
    pub sid: Seq<u8>,
}

impl View for C64Mem {
    type V = MemView;

    open spec fn view(&self) -> MemView {
        MemView {
            cpu_port_data: self.cpu_port_data,
            cpu_port_dir: self.cpu_port_dir,
            ram: self.ram@,
        }
    }
}

impl View for VicII {
    type V = VicView;

    open spec fn view(&self) -> VicView {
        VicView { registers: self.registers@, color_ram: self.color_ram@ }
    }
}

impl View for C64Snapshot {
    type V = SnapshotView;

    open spec fn view(&self) -> SnapshotView {
        SnapshotView {
            cpu: self.cpu,
            mem: self.mem@,
            vic: self.vic@,
            cia1: self.cia1,
            cia2: self.cia2,
            sid: self.sid.regs_25@,
        }
    }
}

/// The modules found so far, as spec values.
pub struct Parts {
    pub cpu: Option<Cpu6510>,
    pub mem: Option<MemView>,
    pub vic: Option<VicView>,
    pub cia1: Option<Cia6526>,
    pub cia2: Option<Cia6526>,
    pub sid: Option<Seq<u8>>,
}

/// Length of the fixed header in front of the first module.
pub const HEADER_LEN: usize = 58;

/// Length of the header of a module.
pub const MODULE_HEADER_LEN: usize = 22;

/// Offset of the color memory in the video chip module.
pub const COLOR_RAM_OFFSET: usize = 761;

/// Offset of the registers in the video chip module.
pub const REGISTERS_OFFSET: usize = 1;

/// Offset of the registers in the sound chip module.
pub const SID_REGS_OFFSET: usize = 4;

/// `"VICE Snapshot File"`.
pub open spec fn magic_prefix() -> Seq<u8> {
    seq![
        0x56, 0x49, 0x43, 0x45, 0x20, 0x53, 0x6E, 0x61, 0x70, 0x73, 0x68, 0x6F, 0x74, 0x20, 0x46,
        0x69, 0x6C, 0x65,
    ]
}

/// `"C64SC"`, the name of the cycle-accurate machine.
pub open spec fn machine_name() -> Seq<u8> {
    seq![0x43, 0x36, 0x34, 0x53, 0x43]
}

/// `"MAINCPU"`.
pub open spec fn name_maincpu() -> Seq<u8> {
    seq![0x4D, 0x41, 0x49, 0x4E, 0x43, 0x50, 0x55]
}

/// `"C64MEM"`.
pub open spec fn name_c64mem() -> Seq<u8> {
    seq![0x43, 0x36, 0x34, 0x4D, 0x45, 0x4D]
}

/// `"VIC-II"`.
pub open spec fn name_vic() -> Seq<u8> {
    seq![0x56, 0x49, 0x43, 0x2D, 0x49, 0x49]
}

/// `"CIA1"`.
pub open spec fn name_cia1() -> Seq<u8> {
    seq![0x43, 0x49, 0x41, 0x31]
}

/// `"CIA2"`.
pub open spec fn name_cia2() -> Seq<u8> {
    seq![0x43, 0x49, 0x41, 0x32]
}

/// `"SID"`.
pub open spec fn name_sid() -> Seq<u8> {
    seq![0x53, 0x49, 0x44]
}

/// The 19 bytes are the magic: the prefix and one of the three accepted
/// terminators.
pub open spec fn magic_ok(magic19: Seq<u8>) -> bool {
    &&& magic19.len() == 19
    &&& magic19.take(18) == magic_prefix()
    &&& (magic19[18] == 0x20 || magic19[18] == 0x00 || magic19[18] == 0x1A)
}

/// The compression that the first bytes give away, if any.
pub open spec fn compression_of(head: Seq<u8>) -> Option<Seq<char>> {
    if head.len() >= 2 && head[0] == 0x1F && head[1] == 0x8B {
        Some("gzip"@)
    } else if head.len() >= 3 && head[0] == 0x42 && head[1] == 0x5A && head[2] == 0x68 {
        Some("bzip2"@)
    } else if head.len() >= 4 && head[0] == 0x50 && head[1] == 0x4B && head[2] == 0x03 && head[3]
        == 0x04 {
        Some("zip"@)
    } else {
        None
    }
}

/// Index of the first zero byte at or after `from`, or the length if there is
/// none.
pub open spec fn nul_index(bytes: Seq<u8>, from: int) -> int
    decreases bytes.len() - from,
{
    if from < 0 || from >= bytes.len() {
        bytes.len() as int
    } else if bytes[from] == 0 {
        from
    } else {
        nul_index(bytes, from + 1)
    }
}

/// The bytes in front of the first zero byte.
pub open spec fn trim_nul_bytes(bytes: Seq<u8>) -> Seq<u8> {
    bytes.take(nul_index(bytes, 0))
}

/// The bytes as text, or nothing where they are not UTF-8.
pub open spec fn text_of(bytes: Seq<u8>) -> Seq<char> {
    if vstd::utf8::valid_utf8(bytes) {
        vstd::utf8::decode_utf8(bytes)
    } else {
        Seq::empty()
    }
}

/// The 16-bit value stored low byte first at `at`.
pub open spec fn le16_at(bytes: Seq<u8>, at: int) -> u16 {
    (bytes[at] as int + 256 * bytes[at + 1] as int) as u16
}

/// The 32-bit value stored low byte first at `at`.
pub open spec fn le32_at(bytes: Seq<u8>, at: int) -> u32 {
    (bytes[at] as int + 256 * bytes[at + 1] as int + 65536 * bytes[at + 2] as int + 16777216
        * bytes[at + 3] as int) as u32
}

/// The message for a stream that ends too early.
pub open spec fn eof_message() -> Seq<char> {
    "Unexpected EOF"@
}

/// The message for a stream that does not start with the magic.
pub open spec fn magic_message(head: Seq<u8>) -> Seq<char> {
    match compression_of(head) {
        Some(kind) => "Not a VSF file"@ + " (looks like "@ + kind + "-compressed; decompress first)"@,
        None => "Not a VSF file"@,
    }
}

/// The message for a format version other than 2.0.
pub open spec fn version_message(major: u8, minor: u8) -> Seq<char> {
    "Unsupported snapshot format version "@ + decimal_chars(major as nat) + "."@ + decimal_chars(
        minor as nat,
    ) + "\n\nOnly snapshot format 2.0 is supported.\nYour snapshot is format "@ + decimal_chars(
        major as nat,
    ) + "."@ + decimal_chars(minor as nat)
        + ".\n\nPlease create a new snapshot using VICE x64sc emulator."@
}

/// The message for a machine other than the cycle-accurate one.
pub open spec fn machine_message(found: Seq<char>) -> Seq<char> {
    "Unsupported machine type '"@ + found
        + "'\n\nOnly snapshots from x64sc emulator (C64SC) are supported.\nYour snapshot is from '"@
        + found
        + "'.\n\nPlease create a new snapshot using x64sc emulator\n(not x64, x64dtv, or other variants)."@
}

/// The message for a module that reaches beyond the end of the stream.
pub open spec fn beyond_eof_message(name: Seq<char>) -> Seq<char> {
    "Module '"@ + name + "' beyond EOF"@
}

/// The processor module.
pub open spec fn cpu_of(p: Seq<u8>) -> Result<Cpu6510, Seq<char>> {
    if p.len() < 15 {
        Err(eof_message())
    } else {
        Ok(Cpu6510 { a: p[8], x: p[9], y: p[10], sp: p[11], pc: le16_at(p, 12), p: p[14] })
    }
}

/// The memory module.
pub open spec fn mem_of(p: Seq<u8>) -> Result<MemView, Seq<char>> {
    if p.len() < 4 + 65536 {
        Err("C64MEM too short"@)
    } else {
        Ok(MemView { cpu_port_data: p[0], cpu_port_dir: p[1], ram: p.subrange(4, 65540) })
    }
}

/// The video chip module.
pub open spec fn vic_of(p: Seq<u8>) -> Result<VicView, Seq<char>> {
    if p.len() < COLOR_RAM_OFFSET + 1024 {
        Err("VIC-II module too small"@)
    } else {
        Ok(
            VicView {
                registers: p.subrange(REGISTERS_OFFSET as int, REGISTERS_OFFSET + 47),
                color_ram: p.subrange(COLOR_RAM_OFFSET as int, COLOR_RAM_OFFSET + 1024),
            },
        )
    }
}

/// An interface adapter module. An output register B of zero, which is what
/// a held key leaves in the snapshot, is read as `$FF`.
pub open spec fn cia_of(p: Seq<u8>) -> Result<Cia6526, Seq<char>> {
    if p.len() < 20 {
        Err(eof_message())
    } else {
        Ok(
            Cia6526 {
                ora: p[0],
                orb: if p[1] == 0 {
                    0xFF
                } else {
                    p[1]
                },
                ddra: p[2],
                ddrb: p[3],
                tac: le16_at(p, 4),
                tbc: le16_at(p, 6),
                tod_10ths: p[8],
                tod_sec: p[9],
                tod_min: p[10],
                tod_hr: p[11],
                ier: p[13],
                cra: p[14],
                crb: p[15],
                tal: le16_at(p, 16),
                tbl: le16_at(p, 18),
            },
        )
    }
}

/// The sound chip module.
pub open spec fn sid_of(p: Seq<u8>) -> Result<Seq<u8>, Seq<char>> {
    if p.len() < SID_REGS_OFFSET + 25 {
        Err("SID regs offset out of range"@)
    } else {
        Ok(p.subrange(SID_REGS_OFFSET as int, SID_REGS_OFFSET + 25))
    }
}

/// No module found yet.
pub open spec fn no_parts() -> Parts {
    Parts { cpu: None, mem: None, vic: None, cia1: None, cia2: None, sid: None }
}

/// `parts` with the module `name` decoded from `payload`. A module of
/// another name changes nothing.
pub open spec fn with_module(parts: Parts, name: Seq<u8>, payload: Seq<u8>) -> Result<
    Parts,
    Seq<char>,
> {
    if name == name_maincpu() {
        match cpu_of(payload) {
            Ok(cpu) => Ok(Parts { cpu: Some(cpu), ..parts }),
            Err(e) => Err(e),
        }
    } else if name == name_c64mem() {
        match mem_of(payload) {
            Ok(mem) => Ok(Parts { mem: Some(mem), ..parts }),
            Err(e) => Err(e),
        }
    } else if name == name_vic() {
        match vic_of(payload) {
            Ok(vic) => Ok(Parts { vic: Some(vic), ..parts }),
            Err(e) => Err(e),
        }
    } else if name == name_cia1() {
        match cia_of(payload) {
            Ok(cia) => Ok(Parts { cia1: Some(cia), ..parts }),
            Err(e) => Err(e),
        }
    } else if name == name_cia2() {
        match cia_of(payload) {
            Ok(cia) => Ok(Parts { cia2: Some(cia), ..parts }),
            Err(e) => Err(e),
        }
    } else if name == name_sid() {
        match sid_of(payload) {
            Ok(sid) => Ok(Parts { sid: Some(sid), ..parts }),
            Err(e) => Err(e),
        }
    } else {
        Ok(parts)
    }
}

/// The modules of `bytes` from `pos` on, added to `parts`. Reading stops
/// where fewer than 16 bytes are left.
pub open spec fn modules_from(bytes: Seq<u8>, pos: int, parts: Parts) -> Result<Parts, Seq<char>>
    decreases bytes.len() - pos,
{
    if pos < 0 || pos + 16 > bytes.len() {
        Ok(parts)
    } else if pos + MODULE_HEADER_LEN > bytes.len() {
        Err(eof_message())
    } else {
        let name = trim_nul_bytes(bytes.subrange(pos, pos + 16));
        let size = le32_at(bytes, pos + 18);
        if size < MODULE_HEADER_LEN {
            Err("Module size corrupt"@)
        } else if pos + size > bytes.len() {
            Err(beyond_eof_message(text_of(name)))
        } else {
            match with_module(parts, name, bytes.subrange(pos + MODULE_HEADER_LEN, pos + size)) {
                Err(e) => Err(e),
                Ok(next) => modules_from(bytes, pos + size, next),
            }
        }
    }
}

/// Number of zero bytes in `s`.
pub open spec fn zero_count(s: Seq<u8>) -> nat
    decreases s.len(),
{
    if s.len() == 0 {
        0
    } else {
        zero_count(s.drop_last()) + if s.last() == 0 {
            1nat
        } else {
            0nat
        }
    }
}

/// The RAM at `$D800..=$DBFF` looks like color memory: every high nibble is
/// zero and fewer than 900 bytes are zero.
pub open spec fn is_color_ram(ram: Seq<u8>) -> bool {
    &&& forall|i: int| 0xD800 <= i < 0xDC00 ==> #[trigger] ram[i] & 0xF0 == 0
    &&& zero_count(ram.subrange(0xD800, 0xDC00)) < 900
}

/// The snapshot made of the modules found, or the message that names the
/// first required module that is missing. The color memory is taken from RAM
/// where that looks like color memory.
pub open spec fn finish(parts: Parts) -> Result<SnapshotView, Seq<char>> {
    if parts.cpu is None {
        Err("MAINCPU missing"@)
    } else if parts.mem is None {
        Err("C64MEM missing"@)
    } else if parts.vic is None {
        Err("VIC-II missing"@)
    } else if parts.cia1 is None {
        Err("CIA1 missing"@)
    } else if parts.cia2 is None {
        Err("CIA2 missing"@)
    } else if parts.sid is None {
        Err("SID missing"@)
    } else {
        let mem = parts.mem->0;
        let vic = parts.vic->0;
        Ok(
            SnapshotView {
                cpu: parts.cpu->0,
                mem,
                vic: VicView {
                    registers: vic.registers,
                    color_ram: if is_color_ram(mem.ram) {
                        mem.ram.subrange(0xD800, 0xDC00)
                    } else {
                        vic.color_ram
                    },
                },
                cia1: parts.cia1->0,
                cia2: parts.cia2->0,
                sid: parts.sid->0,
            },
        )
    }
}

/// What a snapshot stream decodes to: the snapshot, or the message that says
/// why it is refused.
pub open spec fn parse_snapshot(bytes: Seq<u8>) -> Result<SnapshotView, Seq<char>> {
    if bytes.len() < 19 {
        Err(eof_message())
    } else if !magic_ok(bytes.take(19)) {
        Err(magic_message(bytes.take(19)))
    } else if bytes.len() < 21 {
        Err(eof_message())
    } else if bytes[19] != 2 || bytes[20] != 0 {
        Err(version_message(bytes[19], bytes[20]))
    } else if bytes.len() < 37 {
        Err(eof_message())
    } else if trim_nul_bytes(bytes.subrange(21, 37)) != machine_name() {
        Err(machine_message(text_of(trim_nul_bytes(bytes.subrange(21, 37)))))
    } else if bytes.len() < HEADER_LEN {
        Err(eof_message())
    } else {
        match modules_from(bytes, HEADER_LEN as int, no_parts()) {
            Err(e) => Err(e),
            Ok(parts) => finish(parts),
        }
    }
}

} // verus!

verus! {

/// Where named offsets would be configured; the container format fixes them
/// all, so there is nothing to set.
#[derive(Debug, Clone, Copy)]
pub struct ParserConfig {
    pub vic_regs_off: Option<usize>,
    pub vic_color_off: Option<usize>,
    pub sid_regs_off: Option<usize>,
}

impl ParserConfig {
    /// The configuration that leaves every offset at its fixed value.
    pub fn default_vice_like() -> (r: Self)
        ensures
            r.vic_regs_off is None,
            r.vic_color_off is None,
            r.sid_regs_off is None,
    {
        ParserConfig { vic_regs_off: None, vic_color_off: None, sid_regs_off: None }
    }
}

/// The result of the reader as a spec value.
pub open spec fn result_view(r: Result<C64Snapshot, String>) -> Result<SnapshotView, Seq<char>> {
    match r {
        Ok(s) => Ok(s@),
        Err(m) => Err(m@),
    }
}

/// The modules found so far.
struct Found {
    cpu: Option<Cpu6510>,
    mem: Option<C64Mem>,
    vic: Option<VicII>,
    cia1: Option<Cia6526>,
    cia2: Option<Cia6526>,
    sid: Option<Sid6581>,
}

impl View for Found {
    type V = Parts;

    closed spec fn view(&self) -> Parts {
        Parts {
            cpu: self.cpu,
            mem: match self.mem {
                Some(m) => Some(m@),
                None => None,
            },
            vic: match self.vic {
                Some(v) => Some(v@),
                None => None,
            },
            cia1: self.cia1,
            cia2: self.cia2,
            sid: match self.sid {
                Some(s) => Some(s.regs_25@),
                None => None,
            },
        }
    }
}

/// `std::str::from_utf8`: the text that the bytes encode; where they are not
/// UTF-8 the call fails and the result is the empty string.
#[verifier::external_body]
fn utf8_text(bytes: &[u8]) -> (r: String)
    ensures
        r@ == text_of(bytes@),
{
    std::str::from_utf8(bytes).unwrap_or("").to_string()
}

/// `Ok` if `cond` holds, else the message.
pub fn ensure(cond: bool, msg: &str) -> (r: Result<(), String>)
    ensures
        cond ==> r is Ok,
        !cond ==> (r matches Err(m) && m@ == msg@),
{
    if cond {
        Ok(())
    } else {
        Err(String::from_str(msg))
    }
}

/// Whether two byte strings are equal.
pub fn bytes_equal(a: &[u8], b: &[u8]) -> (r: bool)
    ensures
        r == (a@ == b@),
{
    if a.len() != b.len() {
        return false;
    }
    let mut i: usize = 0;
    while i < a.len()
        invariant
            0 <= i <= a@.len(),
            a@.len() == b@.len(),
            forall|j: int| 0 <= j < i ==> a@[j] == b@[j],
        decreases a@.len() - i,
    {
        if a[i] != b[i] {
            return false;
        }
        i += 1;
    }
    assert(a@ =~= b@);
    true
}

/// `Ok` if the two byte strings are equal, else the message.
pub fn ensure_eq(actual: &[u8], expected: &[u8], msg: &str) -> (r: Result<(), String>)
    ensures
        actual@ == expected@ ==> r is Ok,
        actual@ != expected@ ==> (r matches Err(m) && m@ == msg@),
{
    if bytes_equal(actual, expected) {
        Ok(())
    } else {
        Err(String::from_str(msg))
    }
}

/// The `n` bytes at `pos`, or an error where the stream ends before them.
pub fn read_fixed(data: &[u8], pos: usize, n: usize) -> (r: Result<Vec<u8>, String>)
    ensures
        pos + n <= data@.len() ==> (r matches Ok(v) && v@ == data@.subrange(
            pos as int,
            pos + n,
        )),
        pos + n > data@.len() ==> (r matches Err(m) && m@ == eof_message()),
{
    if pos > data.len() || n > data.len() - pos {
        Err(String::from_str("Unexpected EOF"))
    } else {
        Ok(copy_range(data, pos, pos + n))
    }
}

/// The `n` bytes at `pos`, or `None` where the stream ends before them.
pub fn read_fixed_opt(data: &[u8], pos: usize, n: usize) -> (r: Option<Vec<u8>>)
    ensures
        pos + n <= data@.len() ==> (r matches Some(v) && v@ == data@.subrange(
            pos as int,
            pos + n,
        )),
        pos + n > data@.len() ==> r is None,
{
    if pos > data.len() || n > data.len() - pos {
        None
    } else {
        Some(copy_range(data, pos, pos + n))
    }
}

/// The byte at `pos`.
pub fn read_u8(data: &[u8], pos: usize) -> (r: Result<u8, String>)
    ensures
        pos < data@.len() ==> r == Ok::<u8, String>(data@[pos as int]),
        pos >= data@.len() ==> (r matches Err(m) && m@ == eof_message()),
{
    if pos < data.len() {
        Ok(data[pos])
    } else {
        Err(String::from_str("Unexpected EOF"))
    }
}

/// The 16-bit value at `pos`, low byte first.
pub fn read_u16(data: &[u8], pos: usize) -> (r: Result<u16, String>)
    ensures
        pos + 2 <= data@.len() ==> r == Ok::<u16, String>(le16_at(data@, pos as int)),
        pos + 2 > data@.len() ==> (r matches Err(m) && m@ == eof_message()),
{
    if pos < data.len() && data.len() - pos >= 2 {
        Ok(data[pos] as u16 + 256 * (data[pos + 1] as u16))
    } else {
        Err(String::from_str("Unexpected EOF"))
    }
}

/// The 32-bit value at `pos`, low byte first.
pub fn read_u32(data: &[u8], pos: usize) -> (r: Result<u32, String>)
    ensures
        pos + 4 <= data@.len() ==> r == Ok::<u32, String>(le32_at(data@, pos as int)),
        pos + 4 > data@.len() ==> (r matches Err(m) && m@ == eof_message()),
{
    if pos < data.len() && data.len() - pos >= 4 {
        Ok(
            data[pos] as u32 + 256 * (data[pos + 1] as u32) + 65536 * (data[pos + 2] as u32)
                + 16777216 * (data[pos + 3] as u32),
        )
    } else {
        Err(String::from_str("Unexpected EOF"))
    }
}

/// The bytes in front of the first zero byte.
pub fn trim_nul(bytes: &[u8]) -> (r: &[u8])
    ensures
        r@ == trim_nul_bytes(bytes@),
{
    let mut end: usize = 0;
    while end < bytes.len() && bytes[end] != 0
        invariant
            0 <= end <= bytes@.len(),
            nul_index(bytes@, 0) == nul_index(bytes@, end as int),
        decreases bytes@.len() - end,
    {
        end += 1;
    }
    vstd::slice::slice_subrange(bytes, 0, end)
}

/// Whether the 19 bytes are the magic.
pub fn vsf_magic_ok(magic19: &[u8]) -> (r: bool)
    ensures
        r == magic_ok(magic19@),
{
    if magic19.len() != 19 {
        return false;
    }
    let prefix: [u8; 18] = [
        0x56, 0x49, 0x43, 0x45, 0x20, 0x53, 0x6E, 0x61, 0x70, 0x73, 0x68, 0x6F, 0x74, 0x20, 0x46,
        0x69, 0x6C, 0x65,
    ];
    assert(prefix@ =~= magic_prefix());
    let head = vstd::slice::slice_subrange(magic19, 0, 18);
    assert(head@ =~= magic19@.take(18));
    if !bytes_equal(head, prefix.as_slice()) {
        return false;
    }
    let sep = magic19[18];
    sep == 0x20 || sep == 0x00 || sep == 0x1A
}

/// The compression that the first bytes give away, if any.
pub fn sniff_compression_prefix(head: &[u8]) -> (r: Option<&'static str>)
    ensures
        match compression_of(head@) {
            Some(kind) => r matches Some(s) && s@ == kind,
            None => r is None,
        },
{
    if head.len() >= 2 && head[0] == 0x1F && head[1] == 0x8B {
        return Some("gzip");
    }
    if head.len() >= 3 && head[0] == 0x42 && head[1] == 0x5A && head[2] == 0x68 {
        return Some("bzip2");
    }
    if head.len() >= 4 && head[0] == 0x50 && head[1] == 0x4B && head[2] == 0x03 && head[3]
        == 0x04 {
        return Some("zip");
    }
    None
}

/// Decodes the processor module.
pub fn parse_cpu(payload: &[u8]) -> (r: Result<Cpu6510, String>)
    ensures
        match cpu_of(payload@) {
            Ok(cpu) => r == Ok::<Cpu6510, String>(cpu),
            Err(e) => r matches Err(m) && m@ == e,
        },
{
    if payload.len() < 15 {
        return Err(String::from_str("Unexpected EOF"));
    }
    Ok(
        Cpu6510 {
            a: payload[8],
            x: payload[9],
            y: payload[10],
            sp: payload[11],
            pc: payload[12] as u16 + 256 * (payload[13] as u16),
            p: payload[14],
        },
    )
}

/// Decodes the memory module.
pub fn parse_memory(payload: &[u8]) -> (r: Result<C64Mem, String>)
    ensures
        match mem_of(payload@) {
            Ok(mem) => r matches Ok(m) && m@ == mem,
            Err(e) => r matches Err(m) && m@ == e,
        },
{
    if payload.len() < 4 + 65536 {
        return Err(String::from_str("C64MEM too short"));
    }
    let mut ram = [0u8; 65536];
    let image = vstd::slice::slice_subrange(payload, 4, 65540);
    write_bytes(&mut ram, 0, image);
    assert(ram@ =~= payload@.subrange(4, 65540));
    Ok(C64Mem { cpu_port_data: payload[0], cpu_port_dir: payload[1], ram: Box::new(ram) })
}

/// Decodes the video chip module.
pub fn parse_vic(payload: &[u8], _cfg: &ParserConfig) -> (r: Result<VicII, String>)
    ensures
        match vic_of(payload@) {
            Ok(vic) => r matches Ok(v) && v@ == vic,
            Err(e) => r matches Err(m) && m@ == e,
        },
{
    if payload.len() < COLOR_RAM_OFFSET + 1024 {
        return Err(String::from_str("VIC-II module too small"));
    }
    let mut color_ram = [0u8; 1024];
    write_bytes(
        &mut color_ram,
        0,
        vstd::slice::slice_subrange(payload, COLOR_RAM_OFFSET, COLOR_RAM_OFFSET + 1024),
    );
    assert(color_ram@ =~= payload@.subrange(COLOR_RAM_OFFSET as int, COLOR_RAM_OFFSET + 1024));
    let mut registers = [0u8; 47];
    write_bytes(
        &mut registers,
        0,
        vstd::slice::slice_subrange(payload, REGISTERS_OFFSET, REGISTERS_OFFSET + 47),
    );
    assert(registers@ =~= payload@.subrange(REGISTERS_OFFSET as int, REGISTERS_OFFSET + 47));
    Ok(VicII { registers, color_ram: Box::new(color_ram) })
}

/// Decodes an interface adapter module.
pub fn parse_cia(payload: &[u8]) -> (r: Result<Cia6526, String>)
    ensures
        match cia_of(payload@) {
            Ok(cia) => r == Ok::<Cia6526, String>(cia),
            Err(e) => r matches Err(m) && m@ == e,
        },
{
    if payload.len() < 20 {
        return Err(String::from_str("Unexpected EOF"));
    }
    let orb = payload[1];
    let orb_fixed = if orb == 0x00 {
        0xFF
    } else {
        orb
    };
    Ok(
        Cia6526 {
            ddra: payload[2],
            ddrb: payload[3],
            ora: payload[0],
            orb: orb_fixed,
            tac: payload[4] as u16 + 256 * (payload[5] as u16),
            tbc: payload[6] as u16 + 256 * (payload[7] as u16),
            tal: payload[16] as u16 + 256 * (payload[17] as u16),
            tbl: payload[18] as u16 + 256 * (payload[19] as u16),
            tod_10ths: payload[8],
            tod_sec: payload[9],
            tod_min: payload[10],
            tod_hr: payload[11],
            cra: payload[14],
            crb: payload[15],
            ier: payload[13],
        },
    )
}

/// Decodes the sound chip module.
pub fn parse_sid(payload: &[u8], _cfg: &ParserConfig) -> (r: Result<Sid6581, String>)
    ensures
        match sid_of(payload@) {
            Ok(sid) => r matches Ok(s) && s.regs_25@ == sid,
            Err(e) => r matches Err(m) && m@ == e,
        },
{
    if payload.len() < SID_REGS_OFFSET + 25 {
        return Err(String::from_str("SID regs offset out of range"));
    }
    let mut regs_25 = [0u8; 25];
    write_bytes(
        &mut regs_25,
        0,
        vstd::slice::slice_subrange(payload, SID_REGS_OFFSET, SID_REGS_OFFSET + 25),
    );
    assert(regs_25@ =~= payload@.subrange(SID_REGS_OFFSET as int, SID_REGS_OFFSET + 25));
    Ok(Sid6581 { regs_25 })
}

/// Every register set is accepted as it is.
pub fn validate_cpu(_c: &Cpu6510) -> (r: Result<(), String>)
    ensures
        r is Ok,
{
    Ok(())
}

/// The error for a stream that does not start with the magic.
fn magic_error(head: &[u8]) -> (m: String)
    ensures
        m@ == magic_message(head@),
{
    let mut m = String::from_str("Not a VSF file");
    match sniff_compression_prefix(head) {
        Some(kind) => {
            m.append(" (looks like ");
            m.append(kind);
            m.append("-compressed; decompress first)");
            assert(m@ =~= "Not a VSF file"@ + " (looks like "@ + kind@
                + "-compressed; decompress first)"@);
        },
        None => {},
    }
    m
}

/// The error for a format version other than 2.0.
fn version_error(major: u8, minor: u8) -> (m: String)
    ensures
        m@ == version_message(major, minor),
{
    let mut m = String::from_str("Unsupported snapshot format version ");
    m.append(decimal(major as usize).as_str());
    m.append(".");
    m.append(decimal(minor as usize).as_str());
    m.append("\n\nOnly snapshot format 2.0 is supported.\nYour snapshot is format ");
    m.append(decimal(major as usize).as_str());
    m.append(".");
    m.append(decimal(minor as usize).as_str());
    m.append(".\n\nPlease create a new snapshot using VICE x64sc emulator.");
    m
}

/// The error for a machine other than the cycle-accurate one.
fn machine_error(found: &str) -> (m: String)
    ensures
        m@ == machine_message(found@),
{
    let mut m = String::from_str("Unsupported machine type '");
    m.append(found);
    m.append(
        "'\n\nOnly snapshots from x64sc emulator (C64SC) are supported.\nYour snapshot is from '",
    );
    m.append(found);
    m.append(
        "'.\n\nPlease create a new snapshot using x64sc emulator\n(not x64, x64dtv, or other variants).",
    );
    m
}

/// Number of zero bytes in `ram[0xD800..0xDC00]`, and whether every byte
/// there has a zero high nibble.
fn looks_like_color_ram(ram: &[u8; 65536]) -> (r: bool)
    ensures
        r == is_color_ram(ram@),
{
    let mut all_low_nibble = true;
    let mut count_0: usize = 0;
    let mut i: usize = 0xD800;
    while i < 0xDC00
        invariant
            0xD800 <= i <= 0xDC00,
            count_0 == zero_count(ram@.subrange(0xD800, i as int)),
            count_0 <= i - 0xD800,
            all_low_nibble == (forall|j: int| 0xD800 <= j < i ==> #[trigger] ram@[j] & 0xF0 == 0),
        decreases 0xDC00 - i,
    {
        assert(ram@.subrange(0xD800, i + 1).drop_last() =~= ram@.subrange(0xD800, i as int));
        if ram[i] & 0xF0 != 0 {
            all_low_nibble = false;
        }
        if ram[i] == 0x00 {
            count_0 += 1;
        }
        i += 1;
    }
    all_low_nibble && count_0 < 900
}

/// The snapshot made of the modules found.
fn finish_snapshot(found: Found) -> (r: Result<C64Snapshot, String>)
    ensures
        result_view(r) == finish(found@),
{
    let cpu = match found.cpu {
        Some(cpu) => cpu,
        None => {
            return Err(String::from_str("MAINCPU missing"));
        },
    };
    let mem = match found.mem {
        Some(mem) => mem,
        None => {
            return Err(String::from_str("C64MEM missing"));
        },
    };
    let mut vic = match found.vic {
        Some(vic) => vic,
        None => {
            return Err(String::from_str("VIC-II missing"));
        },
    };
    let cia1 = match found.cia1 {
        Some(cia) => cia,
        None => {
            return Err(String::from_str("CIA1 missing"));
        },
    };
    let cia2 = match found.cia2 {
        Some(cia) => cia,
        None => {
            return Err(String::from_str("CIA2 missing"));
        },
    };
    let sid = match found.sid {
        Some(sid) => sid,
        None => {
            return Err(String::from_str("SID missing"));
        },
    };
    if looks_like_color_ram(&mem.ram) {
        let mut color_ram = [0u8; 1024];
        write_bytes(
            &mut color_ram,
            0,
            vstd::slice::slice_subrange(mem.ram.as_slice(), 0xD800, 0xDC00),
        );
        assert(color_ram@ =~= mem.ram@.subrange(0xD800, 0xDC00));
        vic = VicII { registers: vic.registers, color_ram: Box::new(color_ram) };
    }
    Ok(C64Snapshot { cpu, mem, vic, cia1, cia2, sid })
}

/// A reader for one snapshot stream.
pub struct ParseVSF {
    raw: Vec<u8>,
}

impl View for ParseVSF {
    type V = Seq<u8>;

    closed spec fn view(&self) -> Seq<u8> {
        self.raw@
    }
}

impl ParseVSF {
    /// A reader for the stream `raw`.
    pub fn new(raw: Vec<u8>) -> (r: Self)
        ensures
            r@ == raw@,
    {
        ParseVSF { raw }
    }

    /// Decodes the stream.
    pub fn parse_import(&self) -> (r: Result<C64Snapshot, String>)
        ensures
            result_view(r) == parse_snapshot(self@),
    {
        self.parse_import_with(&ParserConfig::default_vice_like())
    }

    /// Decodes the stream. The snapshot is returned only if the whole stream
    /// is well formed and holds all six required modules; else the message
    /// says what is wrong first.
    pub fn parse_import_with(&self, cfg: &ParserConfig) -> (r: Result<C64Snapshot, String>)
        ensures
            result_view(r) == parse_snapshot(self@),
    {
        let data = self.raw.as_slice();
        if data.len() < 19 {
            return Err(String::from_str("Unexpected EOF"));
        }
        let magic = vstd::slice::slice_subrange(data, 0, 19);
        assert(magic@ =~= data@.take(19));
        if !vsf_magic_ok(magic) {
            return Err(magic_error(magic));
        }
        if data.len() < 21 {
            return Err(String::from_str("Unexpected EOF"));
        }
        let vmaj = data[19];
        let vmin = data[20];
        if vmaj != 2 || vmin != 0 {
            return Err(version_error(vmaj, vmin));
        }
        if data.len() < 37 {
            return Err(String::from_str("Unexpected EOF"));
        }
        let mach = trim_nul(vstd::slice::slice_subrange(data, 21, 37));
        let expected: [u8; 5] = [0x43, 0x36, 0x34, 0x53, 0x43];
        assert(expected@ =~= machine_name());
        if !bytes_equal(mach, expected.as_slice()) {
            let found = utf8_text(mach);
            return Err(machine_error(found.as_str()));
        }
        if data.len() < HEADER_LEN {
            return Err(String::from_str("Unexpected EOF"));
        }
        let maincpu: [u8; 7] = [0x4D, 0x41, 0x49, 0x4E, 0x43, 0x50, 0x55];
        let c64mem: [u8; 6] = [0x43, 0x36, 0x34, 0x4D, 0x45, 0x4D];
        let vic_ii: [u8; 6] = [0x56, 0x49, 0x43, 0x2D, 0x49, 0x49];
        let cia1_name: [u8; 4] = [0x43, 0x49, 0x41, 0x31];
        let cia2_name: [u8; 4] = [0x43, 0x49, 0x41, 0x32];
        let sid_name: [u8; 3] = [0x53, 0x49, 0x44];
        assert(maincpu@ =~= name_maincpu());
        assert(c64mem@ =~= name_c64mem());
        assert(vic_ii@ =~= name_vic());
        assert(cia1_name@ =~= name_cia1());
        assert(cia2_name@ =~= name_cia2());
        assert(sid_name@ =~= name_sid());

        let mut found = Found { cpu: None, mem: None, vic: None, cia1: None, cia2: None, sid: None };
        let mut pos: usize = HEADER_LEN;
        while data.len() - pos >= 16
            invariant
                HEADER_LEN <= pos <= data@.len(),
                data@ == self@,
                parse_snapshot(self@) == match modules_from(
                    data@,
                    HEADER_LEN as int,
                    no_parts(),
                ) {
                    Err(e) => Err(e),
                    Ok(parts) => finish(parts),
                },
                maincpu@ == name_maincpu(),
                c64mem@ == name_c64mem(),
                vic_ii@ == name_vic(),
                cia1_name@ == name_cia1(),
                cia2_name@ == name_cia2(),
                sid_name@ == name_sid(),
                modules_from(data@, HEADER_LEN as int, no_parts()) == modules_from(
                    data@,
                    pos as int,
                    found@,
                ),
            decreases data@.len() - pos,
        {
            if data.len() - pos < MODULE_HEADER_LEN {
                return Err(String::from_str("Unexpected EOF"));
            }
            let name = trim_nul(vstd::slice::slice_subrange(data, pos, pos + 16));
            let size = (data[pos + 18] as u32 + 256 * (data[pos + 19] as u32) + 65536 * (data[pos
                + 20] as u32) + 16777216 * (data[pos + 21] as u32)) as usize;
            if size < MODULE_HEADER_LEN {
                return Err(String::from_str("Module size corrupt"));
            }
            if size > data.len() - pos {
                let mut m = String::from_str("Module '");
                m.append(utf8_text(name).as_str());
                m.append("' beyond EOF");
                return Err(m);
            }
            let payload = vstd::slice::slice_subrange(data, pos + MODULE_HEADER_LEN, pos + size);
            let ghost before = found@;
            if bytes_equal(name, maincpu.as_slice()) {
                match parse_cpu(payload) {
                    Ok(cpu) => {
                        found.cpu = Some(cpu);
                    },
                    Err(e) => {
                        return Err(e);
                    },
                }
            } else if bytes_equal(name, c64mem.as_slice()) {
                match parse_memory(payload) {
                    Ok(mem) => {
                        found.mem = Some(mem);
                    },
                    Err(e) => {
                        return Err(e);
                    },
                }
            } else if bytes_equal(name, vic_ii.as_slice()) {
                match parse_vic(payload, cfg) {
                    Ok(vic) => {
                        found.vic = Some(vic);
                    },
                    Err(e) => {
                        return Err(e);
                    },
                }
            } else if bytes_equal(name, cia1_name.as_slice()) {
                match parse_cia(payload) {
                    Ok(cia) => {
                        found.cia1 = Some(cia);
                    },
                    Err(e) => {
                        return Err(e);
                    },
                }
            } else if bytes_equal(name, cia2_name.as_slice()) {
                match parse_cia(payload) {
                    Ok(cia) => {
                        found.cia2 = Some(cia);
                    },
                    Err(e) => {
                        return Err(e);
                    },
                }
            } else if bytes_equal(name, sid_name.as_slice()) {
                match parse_sid(payload, cfg) {
                    Ok(sid) => {
                        found.sid = Some(sid);
                    },
                    Err(e) => {
                        return Err(e);
                    },
                }
            }
            assert(with_module(before, name@, payload@) == Ok::<Parts, Seq<char>>(found@));
            pos = pos + size;
        }
        match validate_cpu_found(&found) {
            _ => {},
        }
        finish_snapshot(found)
    }
}

/// Checks the processor registers where there are any.
fn validate_cpu_found(found: &Found) -> (r: Result<(), String>)
    ensures
        r is Ok,
{
    match &found.cpu {
        Some(cpu) => validate_cpu(cpu),
        None => Ok(()),
    }
}

} // verus!

verus! {

/// The byte streams that the loader is built from.
#[derive(Debug)]
pub struct Components {
    /// RAM from `$0200` to `$FFEF`.
    pub ram: Vec<u8>,
    /// Color memory.
    pub color: Vec<u8>,
    /// Zero page from `$02` to `$F7`.
    pub zp: Vec<u8>,
    /// Video chip registers.
    pub vic: Vec<u8>,
    /// Sound chip registers.
    pub sid: Vec<u8>,
    /// Register block of the first interface adapter.
    pub cia1: Vec<u8>,
    /// Register block of the second interface adapter.
    pub cia2: Vec<u8>,
}

/// The 20-byte register block of an interface adapter: ports and directions,
/// latches, time of day, a zero for the serial register, interrupt enable,
/// control registers, counters.
pub open spec fn cia_block(c: Cia6526) -> Seq<u8> {
    seq![
        c.ora,
        c.orb,
        c.ddra,
        c.ddrb,
        (c.tal % 256) as u8,
        (c.tal / 256) as u8,
        (c.tbl % 256) as u8,
        (c.tbl / 256) as u8,
        c.tod_10ths,
        c.tod_sec,
        c.tod_min,
        c.tod_hr,
        0x00,
        c.ier,
        c.cra,
        c.crb,
        (c.tac % 256) as u8,
        (c.tac / 256) as u8,
        (c.tbc % 256) as u8,
        (c.tbc / 256) as u8,
    ]
}

/// The register block of an interface adapter.
pub fn cia_bytes(c: &Cia6526) -> (r: Vec<u8>)
    ensures
        r@ == cia_block(*c),
{
    let mut r: Vec<u8> = Vec::new();
    r.push(c.ora);
    r.push(c.orb);
    r.push(c.ddra);
    r.push(c.ddrb);
    r.push((c.tal % 256) as u8);
    r.push((c.tal / 256) as u8);
    r.push((c.tbl % 256) as u8);
    r.push((c.tbl / 256) as u8);
    r.push(c.tod_10ths);
    r.push(c.tod_sec);
    r.push(c.tod_min);
    r.push(c.tod_hr);
    r.push(0x00);
    r.push(c.ier);
    r.push(c.cra);
    r.push(c.crb);
    r.push((c.tac % 256) as u8);
    r.push((c.tac / 256) as u8);
    r.push((c.tbc % 256) as u8);
    r.push((c.tbc / 256) as u8);
    assert(r@ =~= cia_block(*c));
    r
}

/// The byte streams as spec values.
pub struct ComponentsView {
    pub ram: Seq<u8>,
    pub color: Seq<u8>,
    pub zp: Seq<u8>,
    pub vic: Seq<u8>,
    pub sid: Seq<u8>,
    pub cia1: Seq<u8>,
    pub cia2: Seq<u8>,
}

impl View for Components {
    type V = ComponentsView;

    open spec fn view(&self) -> ComponentsView {
        ComponentsView {
            ram: self.ram@,
            color: self.color@,
            zp: self.zp@,
            vic: self.vic@,
            sid: self.sid@,
            cia1: self.cia1@,
            cia2: self.cia2@,
        }
    }
}

/// The streams of a snapshot: RAM from `$0200` to `$FFEF`, the color memory,
/// the zero page from `$02` to `$F7`, the registers of the video and sound
/// chips, and the register blocks of the interface adapters.
pub open spec fn components_of(snap: SnapshotView) -> ComponentsView {
    ComponentsView {
        ram: snap.mem.ram.subrange(0x0200, 0xFFF0),
        color: snap.vic.color_ram,
        zp: snap.mem.ram.subrange(0x02, 0xF8),
        vic: snap.vic.registers,
        sid: snap.sid,
        cia1: cia_block(snap.cia1),
        cia2: cia_block(snap.cia2),
    }
}

/// What compressing `data` gives in tool state `st`, and the state after
/// it.
pub open spec fn lzsa_compressed(st: ToolState, data: Seq<u8>) -> (ReplyView, ToolState) {
    let (reply, after) = spec_compress(st, data);
    (
        match reply {
            Ok(bytes) => Ok(bytes),
            Err(message) => Err("LZSA compression failed: "@ + message),
        },
        after,
    )
}

impl ParseVSF {
    /// Compresses `data` with the LZSA1 compressor.
    pub fn compress_lzsa(&self, tools: &mut Toolchain, data: &[u8]) -> (r: Result<Vec<u8>, String>)
        ensures
            (reply_view(r), final(tools)@) == lzsa_compressed(old(tools)@, data@),
    {
        let copy = copy_range(data, 0, data.len());
        assert(copy@ =~= data@);
        match tools.run(ToolRequest::Compress(copy)) {
            Ok(bytes) => Ok(bytes),
            Err(message) => Err(
                String::from_str("LZSA compression failed: ").concat(message.as_str()),
            ),
        }
    }

    /// Cuts the snapshot into the streams that the loader is built from.
    pub fn extract_ram(&self, snap: &C64Snapshot) -> (r: Components)
        ensures
            r@ == components_of(snap@),
    {
        let color = copy_range(snap.vic.color_ram.as_slice(), 0, 1024);
        assert(color@ =~= snap.vic.color_ram@);
        let vic = copy_range(snap.vic.registers.as_slice(), 0, 47);
        assert(vic@ =~= snap.vic.registers@);
        let sid = copy_range(snap.sid.regs_25.as_slice(), 0, 25);
        assert(sid@ =~= snap.sid.regs_25@);
        Components {
            ram: copy_range(snap.mem.ram.as_slice(), 0x0200, 0xFFF0),
            color,
            zp: copy_range(snap.mem.ram.as_slice(), 0x02, 0xF8),
            vic,
            sid,
            cia1: cia_bytes(&snap.cia1),
            cia2: cia_bytes(&snap.cia2),
        }
    }
}

/// Something that bytes can be written to by address. `writes` is the record
/// of what was written, in order.
pub trait Bus {
    /// The writes so far.
    spec fn writes(&self) -> Seq<(u16, u8)>;

    /// Writes `val` to `addr`.
    fn write8(&mut self, addr: u16, val: u8)
        ensures
            final(self).writes() == old(self).writes().push((addr, val)),
    ;

    /// Reads from `addr`, without a trace in the record.
    fn read8(&mut self, addr: u16) -> (r: u8)
        ensures
            final(self).writes() == old(self).writes(),
    ;
}

/// Something whose processor registers can be set. `registers` is what was
/// set last.
pub trait CpuControl {
    /// The registers set last, if any were.
    spec fn registers(&self) -> Option<Cpu6510>;

    /// Sets all registers.
    fn set_cpu(&mut self, a: u8, x: u8, y: u8, sp: u8, p: u8, pc: u16)
        ensures
            final(self).registers() == Some(Cpu6510 { a, x, y, sp, pc, p }),
    ;
}

/// A bus that only records what is written to it.
#[derive(Debug)]
pub struct RecordingBus {
    /// The writes so far, each an address and a value.
    pub log: Vec<(u16, u8)>,
}

impl RecordingBus {
    /// A bus without writes.
    pub fn new() -> (r: Self)
        ensures
            r.log@ == Seq::<(u16, u8)>::empty(),
    {
        RecordingBus { log: Vec::new() }
    }
}

impl Bus for RecordingBus {
    open spec fn writes(&self) -> Seq<(u16, u8)> {
        self.log@
    }

    fn write8(&mut self, addr: u16, val: u8) {
        self.log.push((addr, val));
    }

    fn read8(&mut self, addr: u16) -> (r: u8) {
        0
    }
}

/// A processor that only records the registers that are set.
#[derive(Debug)]
pub struct RecordingCpu {
    /// The registers set last, if any were.
    pub last: Option<Cpu6510>,
}

impl RecordingCpu {
    /// A processor whose registers were not set yet.
    pub fn new() -> (r: Self)
        ensures
            r.last is None,
    {
        RecordingCpu { last: None }
    }
}

impl CpuControl for RecordingCpu {
    open spec fn registers(&self) -> Option<Cpu6510> {
        self.last
    }

    fn set_cpu(&mut self, a: u8, x: u8, y: u8, sp: u8, p: u8, pc: u16) {
        self.last = Some(Cpu6510 { a, x, y, sp, pc, p });
    }
}

/// Base address of the first interface adapter.
pub const CIA1_BASE: u16 = 0xDC00;

/// Base address of the second interface adapter.
pub const CIA2_BASE: u16 = 0xDD00;

/// The writes that bring an interface adapter at `base` to the state `s`:
/// timers stopped, directions and ports, latches loaded into the counters,
/// interrupts masked and then enabled as in `s`, and the control registers
/// without the load bit.
pub open spec fn cia_writes(base: u16, s: Cia6526) -> Seq<(u16, u8)> {
    let init = seq![
        ((base + 0x0E) as u16, 0x00u8),
        ((base + 0x0F) as u16, 0x00u8),
        ((base + 0x02) as u16, s.ddra),
        ((base + 0x03) as u16, s.ddrb),
        ((base + 0x00) as u16, s.ora),
        ((base + 0x01) as u16, s.orb),
        ((base + 0x04) as u16, (s.tal % 256) as u8),
        ((base + 0x05) as u16, (s.tal / 256) as u8),
        ((base + 0x06) as u16, (s.tbl % 256) as u8),
        ((base + 0x07) as u16, (s.tbl / 256) as u8),
        ((base + 0x0E) as u16, 0x10u8),
        ((base + 0x0E) as u16, 0x00u8),
        ((base + 0x0F) as u16, 0x10u8),
        ((base + 0x0F) as u16, 0x00u8),
        ((base + 0x0D) as u16, 0x7Fu8),
    ];
    let enable = if s.ier & 0x7F != 0 {
        seq![((base + 0x0D) as u16, 0x80u8 | (s.ier & 0x7F))]
    } else {
        Seq::empty()
    };
    init + enable + seq![
        ((base + 0x0E) as u16, s.cra & !0x10u8),
        ((base + 0x0F) as u16, s.crb & !0x10u8),
    ]
}

/// The writes that restore the video chip: its registers from `$D000` on,
/// then the low nibbles of the color memory from `$D800` on.
pub open spec fn vic_writes(v: VicView) -> Seq<(u16, u8)> {
    Seq::new(47, |i: int| ((0xD000 + i) as u16, v.registers[i])) + Seq::new(
        1024,
        |i: int| ((0xD800 + i) as u16, v.color_ram[i] & 0x0F),
    )
}

/// The writes that restore the sound chip registers from `$D400` on.
pub open spec fn sid_writes(regs: Seq<u8>) -> Seq<(u16, u8)> {
    Seq::new(25, |i: int| ((0xD400 + i) as u16, regs[i]))
}

/// The writes that restore RAM: the port opened, every byte but those under
/// the color memory, then the port as in the snapshot.
pub open spec fn ram_writes(m: MemView) -> Seq<(u16, u8)> {
    seq![(0x0001u16, 0x07u8), (0x0001u16, 0x00u8)] + Seq::new(0xD800, |i: int| (i as u16, m.ram[i]))
        + Seq::new(0x2400, |i: int| ((0xDC00 + i) as u16, m.ram[0xDC00 + i])) + seq![
        (0x0001u16, m.cpu_port_dir),
        (0x0001u16, m.cpu_port_data),
    ]
}

/// Brings the interface adapter at `base` to the state `s`.
pub fn restore_cia<B: Bus>(b: &mut B, base: u16, s: &Cia6526)
    requires
        base <= 0xFFF0,
    ensures
        final(b).writes() == old(b).writes() + cia_writes(base, *s),
{
    b.write8(base + 0x0E, 0x00);
    b.write8(base + 0x0F, 0x00);
    b.write8(base + 0x02, s.ddra);
    b.write8(base + 0x03, s.ddrb);
    b.write8(base + 0x00, s.ora);
    b.write8(base + 0x01, s.orb);
    b.write8(base + 0x04, (s.tal % 256) as u8);
    b.write8(base + 0x05, (s.tal / 256) as u8);
    b.write8(base + 0x06, (s.tbl % 256) as u8);
    b.write8(base + 0x07, (s.tbl / 256) as u8);
    b.write8(base + 0x0E, 0x10);
    b.write8(base + 0x0E, 0x00);
    b.write8(base + 0x0F, 0x10);
    b.write8(base + 0x0F, 0x00);
    b.write8(base + 0x0D, 0x7F);
    if (s.ier & 0x7F) != 0 {
        b.write8(base + 0x0D, 0x80 | (s.ier & 0x7F));
    }
    b.write8(base + 0x0E, s.cra & !0x10);
    b.write8(base + 0x0F, s.crb & !0x10);
    assert(b.writes() =~= old(b).writes() + cia_writes(base, *s));
}

/// Restores the video chip registers and the color memory.
pub fn restore_vic<B: Bus>(b: &mut B, v: &VicII)
    ensures
        final(b).writes() == old(b).writes() + vic_writes(v@),
{
    let mut i: usize = 0;
    while i < 47
        invariant
            0 <= i <= 47,
            b.writes() == old(b).writes() + Seq::new(
                i as nat,
                |k: int| ((0xD000 + k) as u16, v.registers@[k]),
            ),
        decreases 47 - i,
    {
        b.write8(0xD000 + i as u16, v.registers[i]);
        assert(b.writes() =~= old(b).writes() + Seq::new(
            (i + 1) as nat,
            |k: int| ((0xD000 + k) as u16, v.registers@[k]),
        ));
        i += 1;
    }
    let ghost head = b.writes();
    let mut i: usize = 0;
    while i < 1024
        invariant
            0 <= i <= 1024,
            b.writes() == head + Seq::new(
                i as nat,
                |k: int| ((0xD800 + k) as u16, v.color_ram@[k] & 0x0F),
            ),
        decreases 1024 - i,
    {
        b.write8(0xD800 + i as u16, v.color_ram[i] & 0x0F);
        assert(b.writes() =~= head + Seq::new(
            (i + 1) as nat,
            |k: int| ((0xD800 + k) as u16, v.color_ram@[k] & 0x0F),
        ));
        i += 1;
    }
    assert(b.writes() =~= old(b).writes() + vic_writes(v@));
}

/// Restores the sound chip registers.
pub fn restore_sid<B: Bus>(b: &mut B, sid: &Sid6581)
    ensures
        final(b).writes() == old(b).writes() + sid_writes(sid.regs_25@),
{
    let mut i: usize = 0;
    while i < 25
        invariant
            0 <= i <= 25,
            b.writes() == old(b).writes() + Seq::new(
                i as nat,
                |k: int| ((0xD400 + k) as u16, sid.regs_25@[k]),
            ),
        decreases 25 - i,
    {
        b.write8(0xD400 + i as u16, sid.regs_25[i]);
        assert(b.writes() =~= old(b).writes() + Seq::new(
            (i + 1) as nat,
            |k: int| ((0xD400 + k) as u16, sid.regs_25@[k]),
        ));
        i += 1;
    }
}

/// Restores RAM, but for the bytes under the color memory.
pub fn restore_ram<B: Bus>(b: &mut B, m: &C64Mem)
    ensures
        final(b).writes() == old(b).writes() + ram_writes(m@),
{
    b.write8(0x0001, 0x07);
    b.write8(0x0001, 0x00);
    let ghost head = b.writes();
    let mut i: usize = 0;
    while i < 0xD800
        invariant
            0 <= i <= 0xD800,
            b.writes() == head + Seq::new(i as nat, |k: int| (k as u16, m.ram@[k])),
        decreases 0xD800 - i,
    {
        b.write8(i as u16, m.ram[i]);
        assert(b.writes() =~= head + Seq::new((i + 1) as nat, |k: int| (k as u16, m.ram@[k])));
        i += 1;
    }
    let ghost low = b.writes();
    let mut i: usize = 0xDC00;
    while i < 0x10000
        invariant
            0xDC00 <= i <= 0x10000,
            b.writes() == low + Seq::new(
                (i - 0xDC00) as nat,
                |k: int| ((0xDC00 + k) as u16, m.ram@[0xDC00 + k]),
            ),
        decreases 0x10000 - i,
    {
        b.write8(i as u16, m.ram[i]);
        assert(b.writes() =~= low + Seq::new(
            (i + 1 - 0xDC00) as nat,
            |k: int| ((0xDC00 + k) as u16, m.ram@[0xDC00 + k]),
        ));
        i += 1;
    }
    b.write8(0x0001, m.cpu_port_dir);
    b.write8(0x0001, m.cpu_port_data);
    assert(b.writes() =~= old(b).writes() + ram_writes(m@));
}

/// Sets the processor registers.
pub fn restore_cpu<C: CpuControl>(ctrl: &mut C, c: &Cpu6510)
    ensures
        final(ctrl).registers() == Some(*c),
{
    ctrl.set_cpu(c.a, c.x, c.y, c.sp, c.p, c.pc);
}

/// Restores the whole machine: both interface adapters, the video chip, the
/// sound chip, RAM, and last the processor.
pub fn restore_all<B: Bus, C: CpuControl>(bus: &mut B, cpu: &mut C, snap: &C64Snapshot)
    ensures
        final(bus).writes() == old(bus).writes() + cia_writes(CIA1_BASE, snap.cia1) + cia_writes(
            CIA2_BASE,
            snap.cia2,
        ) + vic_writes(snap.vic@) + sid_writes(snap.sid.regs_25@) + ram_writes(snap.mem@),
        final(cpu).registers() == Some(snap.cpu),
{
    restore_cia(bus, CIA1_BASE, &snap.cia1);
    restore_cia(bus, CIA2_BASE, &snap.cia2);
    restore_vic(bus, &snap.vic);
    restore_sid(bus, &snap.sid);
    restore_ram(bus, &snap.mem);
    restore_cpu(cpu, &snap.cpu);
}

} // verus!

verus! {

/// The fixed header of the stream is accepted: the magic, format version
/// 2.0, the name of the cycle-accurate machine, and the producer's version
/// record behind them.
pub open spec fn header_ok(bytes: Seq<u8>) -> bool {
    &&& bytes.len() >= HEADER_LEN
    &&& magic_ok(bytes.take(19))
    &&& bytes[19] == 2
    &&& bytes[20] == 0
    &&& trim_nul_bytes(bytes.subrange(21, 37)) == machine_name()
}

/// A well-formed module named `name` begins at `pos` or further on.
pub open spec fn names_module(bytes: Seq<u8>, pos: int, name: Seq<u8>) -> bool
    decreases bytes.len() - pos,
{
    if pos < 0 || pos + MODULE_HEADER_LEN > bytes.len() {
        false
    } else {
        let size = le32_at(bytes, pos + 18);
        if size < MODULE_HEADER_LEN || pos + size > bytes.len() {
            false
        } else {
            trim_nul_bytes(bytes.subrange(pos, pos + 16)) == name || names_module(
                bytes,
                pos + size,
                name,
            )
        }
    }
}

/// A stream too short for the magic, or without it, is refused with the
/// message of its kind; so is one of another format version or machine.
pub proof fn lemma_header_rejections(bytes: Seq<u8>)
    ensures
        bytes.len() < 19 ==> parse_snapshot(bytes) == Err::<SnapshotView, Seq<char>>(eof_message()),
        bytes.len() >= 19 && !magic_ok(bytes.take(19)) ==> parse_snapshot(bytes) == Err::<
            SnapshotView,
            Seq<char>,
        >(magic_message(bytes.take(19))),
        bytes.len() >= 21 && magic_ok(bytes.take(19)) && (bytes[19] != 2 || bytes[20] != 0)
            ==> parse_snapshot(bytes) == Err::<SnapshotView, Seq<char>>(
            version_message(bytes[19], bytes[20]),
        ),
        bytes.len() >= 37 && magic_ok(bytes.take(19)) && bytes[19] == 2 && bytes[20] == 0
            && trim_nul_bytes(bytes.subrange(21, 37)) != machine_name() ==> parse_snapshot(bytes)
            == Err::<SnapshotView, Seq<char>>(
            machine_message(text_of(trim_nul_bytes(bytes.subrange(21, 37)))),
        ),
        parse_snapshot(bytes) is Ok ==> header_ok(bytes),
{
}

/// A stream that starts like a gzip, bzip2 or zip file does not start with
/// the magic, and the message for it names the compression.
pub proof fn lemma_compressed_prefix(head: Seq<u8>)
    requires
        head.len() == 19,
        compression_of(head) is Some,
    ensures
        !magic_ok(head),
        magic_message(head) == "Not a VSF file"@ + " (looks like "@ + compression_of(head)->0
            + "-compressed; decompress first)"@,
        head[0] == 0x1F ==> compression_of(head) == Some("gzip"@),
        head[0] == 0x42 ==> compression_of(head) == Some("bzip2"@),
        head[0] == 0x50 ==> compression_of(head) == Some("zip"@),
{
    assert(head.take(18)[0] == head[0]);
    assert(magic_prefix()[0] == 0x56);
}

/// The names of the required modules differ from each other.
proof fn lemma_names_differ()
    ensures
        name_maincpu() != name_c64mem(),
        name_maincpu() != name_vic(),
        name_maincpu() != name_cia1(),
        name_maincpu() != name_cia2(),
        name_maincpu() != name_sid(),
        name_c64mem() != name_vic(),
        name_c64mem() != name_cia1(),
        name_c64mem() != name_cia2(),
        name_c64mem() != name_sid(),
        name_vic() != name_cia1(),
        name_vic() != name_cia2(),
        name_vic() != name_sid(),
        name_cia1() != name_cia2(),
        name_cia1() != name_sid(),
        name_cia2() != name_sid(),
{
    assert(name_maincpu().len() == 7);
    assert(name_c64mem().len() == 6);
    assert(name_vic().len() == 6);
    assert(name_cia1().len() == 4);
    assert(name_cia2().len() == 4);
    assert(name_sid().len() == 3);
    assert(name_c64mem()[0] != name_vic()[0]);
    assert(name_cia1()[3] != name_cia2()[3]);
}

/// A module that no part of the stream names is not found: the part for it
/// stays as it was.
pub proof fn lemma_unnamed_module_not_found(bytes: Seq<u8>, pos: int, parts: Parts)
    requires
        modules_from(bytes, pos, parts) is Ok,
    ensures
        !names_module(bytes, pos, name_maincpu()) ==> modules_from(bytes, pos, parts)->Ok_0.cpu
            == parts.cpu,
        !names_module(bytes, pos, name_c64mem()) ==> modules_from(bytes, pos, parts)->Ok_0.mem
            == parts.mem,
        !names_module(bytes, pos, name_vic()) ==> modules_from(bytes, pos, parts)->Ok_0.vic
            == parts.vic,
        !names_module(bytes, pos, name_cia1()) ==> modules_from(bytes, pos, parts)->Ok_0.cia1
            == parts.cia1,
        !names_module(bytes, pos, name_cia2()) ==> modules_from(bytes, pos, parts)->Ok_0.cia2
            == parts.cia2,
        !names_module(bytes, pos, name_sid()) ==> modules_from(bytes, pos, parts)->Ok_0.sid
            == parts.sid,
    decreases bytes.len() - pos,
{
    lemma_names_differ();
    if pos < 0 || pos + 16 > bytes.len() {
    } else {
        let name = trim_nul_bytes(bytes.subrange(pos, pos + 16));
        let size = le32_at(bytes, pos + 18);
        let next = with_module(parts, name, bytes.subrange(pos + MODULE_HEADER_LEN, pos + size));
        lemma_unnamed_module_not_found(bytes, pos + size, next->Ok_0);
    }
}

/// A stream with an accepted header whose modules are well formed is
/// refused if it names no module of a required name, with the message that
/// says which module is missing: that one, or one that is looked for before
/// it.
pub proof fn lemma_missing_modules(bytes: Seq<u8>)
    requires
        header_ok(bytes),
        modules_from(bytes, HEADER_LEN as int, no_parts()) is Ok,
    ensures
        !names_module(bytes, HEADER_LEN as int, name_maincpu()) ==> parse_snapshot(bytes) == Err::<
            SnapshotView,
            Seq<char>,
        >("MAINCPU missing"@),
        !names_module(bytes, HEADER_LEN as int, name_c64mem()) ==> parse_snapshot(bytes) == Err::<
            SnapshotView,
            Seq<char>,
        >("MAINCPU missing"@) || parse_snapshot(bytes) == Err::<SnapshotView, Seq<char>>(
            "C64MEM missing"@,
        ),
        !names_module(bytes, HEADER_LEN as int, name_vic()) ==> parse_snapshot(bytes) is Err && (
        parse_snapshot(bytes)->Err_0 == "MAINCPU missing"@ || parse_snapshot(bytes)->Err_0
            == "C64MEM missing"@ || parse_snapshot(bytes)->Err_0 == "VIC-II missing"@),
        !names_module(bytes, HEADER_LEN as int, name_cia1()) ==> parse_snapshot(bytes) is Err && (
        parse_snapshot(bytes)->Err_0 == "MAINCPU missing"@ || parse_snapshot(bytes)->Err_0
            == "C64MEM missing"@ || parse_snapshot(bytes)->Err_0 == "VIC-II missing"@
            || parse_snapshot(bytes)->Err_0 == "CIA1 missing"@),
        !names_module(bytes, HEADER_LEN as int, name_cia2()) ==> parse_snapshot(bytes) is Err && (
        parse_snapshot(bytes)->Err_0 == "MAINCPU missing"@ || parse_snapshot(bytes)->Err_0
            == "C64MEM missing"@ || parse_snapshot(bytes)->Err_0 == "VIC-II missing"@
            || parse_snapshot(bytes)->Err_0 == "CIA1 missing"@ || parse_snapshot(bytes)->Err_0
            == "CIA2 missing"@),
        !names_module(bytes, HEADER_LEN as int, name_sid()) ==> parse_snapshot(bytes) is Err,
{
    lemma_unnamed_module_not_found(bytes, HEADER_LEN as int, no_parts());
}

/// A stream with an accepted header whose first module says that it is
/// longer than what is left of the stream is refused, with the message that
/// names the module.
pub proof fn lemma_truncated_module(bytes: Seq<u8>)
    requires
        header_ok(bytes),
        bytes.len() >= HEADER_LEN + MODULE_HEADER_LEN,
        le32_at(bytes, HEADER_LEN + 18) >= MODULE_HEADER_LEN,
        HEADER_LEN + le32_at(bytes, HEADER_LEN + 18) > bytes.len(),
    ensures
        parse_snapshot(bytes) == Err::<SnapshotView, Seq<char>>(
            beyond_eof_message(
                text_of(trim_nul_bytes(bytes.subrange(HEADER_LEN as int, HEADER_LEN + 16))),
            ),
        ),
{
}

/// A stream that ends inside the header of a module, with the name there
/// but not the size, is refused.
pub proof fn lemma_truncated_size_field(bytes: Seq<u8>)
    requires
        header_ok(bytes),
        HEADER_LEN + 16 <= bytes.len() < HEADER_LEN + MODULE_HEADER_LEN,
    ensures
        parse_snapshot(bytes) == Err::<SnapshotView, Seq<char>>(eof_message()),
{
}

} // verus!

verus! {

/// The 32-bit value `n`, low byte first.
pub open spec fn le32_bytes(n: int) -> Seq<u8> {
    seq![
        (n % 256) as u8,
        (n / 256 % 256) as u8,
        (n / 65536 % 256) as u8,
        (n / 16777216 % 256) as u8,
    ]
}

/// A module as it lies in a stream: its name in a field of 16 bytes, a
/// version of 1.0, its size with the header, and its payload.
pub open spec fn module_bytes(name: Seq<u8>, payload: Seq<u8>) -> Seq<u8> {
    name + crate::bytes::repeat(0, (16 - name.len()) as nat) + seq![1u8, 0u8] + le32_bytes(
        payload.len() + MODULE_HEADER_LEN,
    ) + payload
}

/// The fixed header of a stream, with a producer's version record of zeros.
pub open spec fn header_bytes() -> Seq<u8> {
    magic_prefix() + seq![0x1Au8, 2u8, 0u8] + machine_name() + crate::bytes::repeat(0, 11)
        + crate::bytes::repeat(0, 21)
}

/// The name is one that a module can have: shorter than its field, and
/// without a zero byte.
pub open spec fn is_module_name(name: Seq<u8>) -> bool {
    &&& name.len() < 16
    &&& forall|i: int| 0 <= i < name.len() ==> #[trigger] name[i] != 0
}

/// The first zero byte of a name field is behind the name.
proof fn lemma_nul_index(field: Seq<u8>, name: Seq<u8>, from: int)
    requires
        is_module_name(name),
        field.len() == 16,
        field.take(name.len() as int) == name,
        field[name.len() as int] == 0,
        0 <= from <= name.len(),
    ensures
        nul_index(field, from) == name.len(),
    decreases name.len() - from,
{
    if from < name.len() {
        assert(field[from] == field.take(name.len() as int)[from]);
        lemma_nul_index(field, name, from + 1);
    }
}

/// The fields of a module that lies at `pos`: its name, its size and its
/// payload.
#[verifier::rlimit(80)]
proof fn lemma_module_fields(bytes: Seq<u8>, pos: int, name: Seq<u8>, payload: Seq<u8>)
    requires
        0 <= pos,
        is_module_name(name),
        payload.len() + MODULE_HEADER_LEN < 0x1_0000_0000,
        pos + MODULE_HEADER_LEN + payload.len() <= bytes.len(),
        bytes.subrange(pos, pos + MODULE_HEADER_LEN + payload.len()) == module_bytes(name, payload),
    ensures
        trim_nul_bytes(bytes.subrange(pos, pos + 16)) == name,
        le32_at(bytes, pos + 18) == payload.len() + MODULE_HEADER_LEN,
        bytes.subrange(pos + MODULE_HEADER_LEN, pos + MODULE_HEADER_LEN + payload.len())
            == payload,
{
    let m = module_bytes(name, payload);
    let n = payload.len() + MODULE_HEADER_LEN;
    let size_field = le32_bytes(n);
    assert(m.len() == n);
    assert forall|i: int| 0 <= i < n implies bytes[pos + i] == m[i] by {
        assert(bytes.subrange(pos, pos + n)[i] == bytes[pos + i]);
    }
    let field = bytes.subrange(pos, pos + 16);
    assert(field.take(name.len() as int) =~= name) by {
        assert forall|i: int| 0 <= i < name.len() implies field[i] == name[i] by {
            assert(bytes[pos + i] == m[i]);
        }
    }
    assert(field[name.len() as int] == 0) by {
        assert(bytes[pos + name.len()] == m[name.len() as int]);
    }
    lemma_nul_index(field, name, 0);
    assert(trim_nul_bytes(field) =~= name);
    assert(bytes[pos + 18] == m[18]);
    assert(bytes[pos + 19] == m[19]);
    assert(bytes[pos + 20] == m[20]);
    assert(bytes[pos + 21] == m[21]);
    assert(m[18] == size_field[0]);
    assert(m[19] == size_field[1]);
    assert(m[20] == size_field[2]);
    assert(m[21] == size_field[3]);
    assert(le32_at(bytes, pos + 18) == n);
    assert(bytes.subrange(pos + MODULE_HEADER_LEN, pos + n) =~= payload) by {
        assert forall|i: int| 0 <= i < payload.len() implies bytes[pos + MODULE_HEADER_LEN + i]
            == payload[i] by {
            assert(bytes[pos + (MODULE_HEADER_LEN + i)] == m[MODULE_HEADER_LEN + i]);
        }
    }
}

/// A module that lies at `pos` is decoded, and reading goes on behind it.
pub proof fn lemma_module_step(bytes: Seq<u8>, pos: int, parts: Parts, name: Seq<u8>, payload: Seq<u8>)
    requires
        0 <= pos,
        is_module_name(name),
        payload.len() + MODULE_HEADER_LEN < 0x1_0000_0000,
        pos + MODULE_HEADER_LEN + payload.len() <= bytes.len(),
        bytes.subrange(pos, pos + MODULE_HEADER_LEN + payload.len()) == module_bytes(name, payload),
    ensures
        modules_from(bytes, pos, parts) == match with_module(parts, name, payload) {
            Err(e) => Err::<Parts, Seq<char>>(e),
            Ok(next) => modules_from(bytes, pos + MODULE_HEADER_LEN + payload.len(), next),
        },
{
    lemma_module_fields(bytes, pos, name, payload);
}

} // verus!

verus! {

/// The payload of a processor module that holds `cpu`.
pub open spec fn cpu_payload(cpu: Cpu6510) -> Seq<u8> {
    crate::bytes::repeat(0, 8) + seq![
        cpu.a,
        cpu.x,
        cpu.y,
        cpu.sp,
        (cpu.pc % 256) as u8,
        (cpu.pc / 256) as u8,
        cpu.p,
    ]
}

/// The payload of a memory module that holds `mem`.
pub open spec fn mem_payload(mem: MemView) -> Seq<u8> {
    seq![mem.cpu_port_data, mem.cpu_port_dir, 0u8, 0u8] + mem.ram
}

/// The payload of a video chip module that holds `vic`.
pub open spec fn vic_payload(vic: VicView) -> Seq<u8> {
    seq![0u8] + vic.registers + crate::bytes::repeat(0, 713) + vic.color_ram
}

/// The payload of an interface adapter module that holds `c`.
pub open spec fn cia_payload(c: Cia6526) -> Seq<u8> {
    seq![
        c.ora,
        c.orb,
        c.ddra,
        c.ddrb,
        (c.tac % 256) as u8,
        (c.tac / 256) as u8,
        (c.tbc % 256) as u8,
        (c.tbc / 256) as u8,
        c.tod_10ths,
        c.tod_sec,
        c.tod_min,
        c.tod_hr,
        0u8,
        c.ier,
        c.cra,
        c.crb,
        (c.tal % 256) as u8,
        (c.tal / 256) as u8,
        (c.tbl % 256) as u8,
        (c.tbl / 256) as u8,
    ]
}

/// The payload of a sound chip module that holds `regs`.
pub open spec fn sid_payload(regs: Seq<u8>) -> Seq<u8> {
    crate::bytes::repeat(0, 4) + regs
}

/// A stream that holds the snapshot `v`: the header and the six required
/// modules.
pub open spec fn snapshot_stream(v: SnapshotView) -> Seq<u8> {
    header_bytes() + module_bytes(name_maincpu(), cpu_payload(v.cpu)) + module_bytes(
        name_c64mem(),
        mem_payload(v.mem),
    ) + module_bytes(name_vic(), vic_payload(v.vic)) + module_bytes(
        name_cia1(),
        cia_payload(v.cia1),
    ) + module_bytes(name_cia2(), cia_payload(v.cia2)) + module_bytes(
        name_sid(),
        sid_payload(v.sid),
    )
}

/// The record of an interface adapter as it is read back: an output register
/// B of zero is read as `$FF`.
pub open spec fn cia_read_back(c: Cia6526) -> Cia6526 {
    Cia6526 {
        orb: if c.orb == 0 {
            0xFF
        } else {
            c.orb
        },
        ..c
    }
}

/// The snapshot as it is read back from a stream that holds `v`: the output
/// registers B are normalized, and the color memory is taken from RAM where
/// that looks like color memory.
pub open spec fn read_back(v: SnapshotView) -> SnapshotView {
    SnapshotView {
        cia1: cia_read_back(v.cia1),
        cia2: cia_read_back(v.cia2),
        vic: VicView {
            registers: v.vic.registers,
            color_ram: if is_color_ram(v.mem.ram) {
                v.mem.ram.subrange(0xD800, 0xDC00)
            } else {
                v.vic.color_ram
            },
        },
        ..v
    }
}

/// The parts of a snapshot have the sizes that the machine has.
pub open spec fn is_sized(v: SnapshotView) -> bool {
    &&& v.mem.ram.len() == 65536
    &&& v.vic.registers.len() == 47
    &&& v.vic.color_ram.len() == 1024
    &&& v.sid.len() == 25
}

/// The payloads decode to what they hold.
proof fn lemma_payloads(v: SnapshotView)
    requires
        is_sized(v),
    ensures
        cpu_of(cpu_payload(v.cpu)) == Ok::<Cpu6510, Seq<char>>(v.cpu),
        mem_of(mem_payload(v.mem)) == Ok::<MemView, Seq<char>>(v.mem),
        vic_of(vic_payload(v.vic)) == Ok::<VicView, Seq<char>>(v.vic),
        cia_of(cia_payload(v.cia1)) == Ok::<Cia6526, Seq<char>>(cia_read_back(v.cia1)),
        cia_of(cia_payload(v.cia2)) == Ok::<Cia6526, Seq<char>>(cia_read_back(v.cia2)),
        sid_of(sid_payload(v.sid)) == Ok::<Seq<u8>, Seq<char>>(v.sid),
        cpu_payload(v.cpu).len() == 15,
        mem_payload(v.mem).len() == 65540,
        vic_payload(v.vic).len() == 1785,
        cia_payload(v.cia1).len() == 20,
        cia_payload(v.cia2).len() == 20,
        sid_payload(v.sid).len() == 29,
{
    let m = mem_payload(v.mem);
    assert(m.subrange(4, 65540) =~= v.mem.ram);
    let p = vic_payload(v.vic);
    assert(p.subrange(1, 48) =~= v.vic.registers);
    assert(p.subrange(761, 1785) =~= v.vic.color_ram);
    let s = sid_payload(v.sid);
    assert(s.subrange(4, 29) =~= v.sid);
    let c = cpu_payload(v.cpu);
    assert(c.len() == 15);
    assert(c[8] == v.cpu.a);
    assert(c[12] == (v.cpu.pc % 256) as u8);
    assert(c[13] == (v.cpu.pc / 256) as u8);
    assert(le16_at(c, 12) == v.cpu.pc);
}

/// The six names are names that modules can have.
proof fn lemma_names_are_names()
    ensures
        is_module_name(name_maincpu()),
        is_module_name(name_c64mem()),
        is_module_name(name_vic()),
        is_module_name(name_cia1()),
        is_module_name(name_cia2()),
        is_module_name(name_sid()),
{
}

/// A stream that begins with the fixed header has its header accepted.
pub proof fn lemma_header_accepted(rest: Seq<u8>)
    ensures
        header_ok(header_bytes() + rest),
        header_bytes().len() == HEADER_LEN,
{
    let h = header_bytes();
    let s = h + rest;
    assert(h.len() == HEADER_LEN);
    assert forall|i: int| 0 <= i < HEADER_LEN implies s[i] == h[i] by {}
    assert(s.take(19).take(18) =~= magic_prefix()) by {
        assert forall|i: int| 0 <= i < 18 implies s.take(19).take(18)[i] == magic_prefix()[i] by {
            assert(s[i] == h[i]);
        }
    }
    assert(s.take(19)[18] == h[18]);
    assert(s[19] == h[19]);
    assert(s[20] == h[20]);
    let field = s.subrange(21, 37);
    assert(field.take(5) =~= machine_name()) by {
        assert forall|i: int| 0 <= i < 5 implies field[i] == machine_name()[i] by {
            assert(s[21 + i] == h[21 + i]);
        }
    }
    assert(field[5] == 0) by {
        assert(s[26] == h[26]);
    }
    assert(is_module_name(machine_name()));
    lemma_nul_index(field, machine_name(), 0);
    assert(trim_nul_bytes(field) =~= machine_name());
}

/// The header of a stream that holds a snapshot is accepted.
proof fn lemma_stream_header(v: SnapshotView)
    requires
        is_sized(v),
    ensures
        header_ok(snapshot_stream(v)),
{
    let rest = module_bytes(name_maincpu(), cpu_payload(v.cpu)) + module_bytes(
        name_c64mem(),
        mem_payload(v.mem),
    ) + module_bytes(name_vic(), vic_payload(v.vic)) + module_bytes(
        name_cia1(),
        cia_payload(v.cia1),
    ) + module_bytes(name_cia2(), cia_payload(v.cia2)) + module_bytes(
        name_sid(),
        sid_payload(v.sid),
    );
    lemma_header_accepted(rest);
    assert(snapshot_stream(v) =~= header_bytes() + rest);
}

} // verus!

verus! {

/// The end of a joined sequence is its second part, and what lies in its
/// first part lies there.
proof fn lemma_joined(a: Seq<u8>, b: Seq<u8>, i: int, j: int)
    requires
        0 <= i <= j <= a.len(),
    ensures
        (a + b).subrange(a.len() as int, (a.len() + b.len()) as int) == b,
        (a + b).subrange(i, j) == a.subrange(i, j),
{
    assert((a + b).subrange(a.len() as int, (a.len() + b.len()) as int) =~= b);
    assert((a + b).subrange(i, j) =~= a.subrange(i, j));
}

/// Where the modules lie in a stream that holds a snapshot.
proof fn lemma_stream_pieces(v: SnapshotView)
    requires
        is_sized(v),
    ensures
        snapshot_stream(v).len() == 67599,
        snapshot_stream(v).subrange(58, 95) == module_bytes(name_maincpu(), cpu_payload(v.cpu)),
        snapshot_stream(v).subrange(95, 65657) == module_bytes(
            name_c64mem(),
            mem_payload(v.mem),
        ),
        snapshot_stream(v).subrange(65657, 67464) == module_bytes(
            name_vic(),
            vic_payload(v.vic),
        ),
        snapshot_stream(v).subrange(67464, 67506) == module_bytes(
            name_cia1(),
            cia_payload(v.cia1),
        ),
        snapshot_stream(v).subrange(67506, 67548) == module_bytes(
            name_cia2(),
            cia_payload(v.cia2),
        ),
        snapshot_stream(v).subrange(67548, 67599) == module_bytes(
            name_sid(),
            sid_payload(v.sid),
        ),
{
    lemma_payloads(v);
    let m0 = module_bytes(name_maincpu(), cpu_payload(v.cpu));
    let m1 = module_bytes(name_c64mem(), mem_payload(v.mem));
    let m2 = module_bytes(name_vic(), vic_payload(v.vic));
    let m3 = module_bytes(name_cia1(), cia_payload(v.cia1));
    let m4 = module_bytes(name_cia2(), cia_payload(v.cia2));
    let m5 = module_bytes(name_sid(), sid_payload(v.sid));
    let s0 = header_bytes();
    let s1 = s0 + m0;
    let s2 = s1 + m1;
    let s3 = s2 + m2;
    let s4 = s3 + m3;
    let s5 = s4 + m4;
    let s6 = s5 + m5;
    assert(snapshot_stream(v) == s6);
    assert(s0.len() == 58);
    assert(m0.len() == 37);
    assert(m1.len() == 65562);
    assert(m2.len() == 1807);
    assert(m3.len() == 42);
    assert(m4.len() == 42);
    assert(m5.len() == 51);
    lemma_joined(s0, m0, 0, 0);
    lemma_joined(s1, m1, 58, 95);
    lemma_joined(s2, m2, 58, 95);
    lemma_joined(s2, m2, 95, 65657);
    lemma_joined(s3, m3, 58, 95);
    lemma_joined(s3, m3, 95, 65657);
    lemma_joined(s3, m3, 65657, 67464);
    lemma_joined(s4, m4, 58, 95);
    lemma_joined(s4, m4, 95, 65657);
    lemma_joined(s4, m4, 65657, 67464);
    lemma_joined(s4, m4, 67464, 67506);
    lemma_joined(s5, m5, 58, 95);
    lemma_joined(s5, m5, 95, 65657);
    lemma_joined(s5, m5, 65657, 67464);
    lemma_joined(s5, m5, 67464, 67506);
    lemma_joined(s5, m5, 67506, 67548);
}

/// The parts that reading a stream that holds `v` finds.
pub open spec fn parts_of(v: SnapshotView) -> Parts {
    Parts {
        cpu: Some(v.cpu),
        mem: Some(v.mem),
        vic: Some(v.vic),
        cia1: Some(cia_read_back(v.cia1)),
        cia2: Some(cia_read_back(v.cia2)),
        sid: Some(v.sid),
    }
}

/// All six modules of a stream that holds a snapshot are found.
#[verifier::rlimit(80)]
proof fn lemma_stream_modules(v: SnapshotView)
    requires
        is_sized(v),
    ensures
        modules_from(snapshot_stream(v), HEADER_LEN as int, no_parts()) == Ok::<Parts, Seq<char>>(
            parts_of(v),
        ),
{
    lemma_payloads(v);
    lemma_names_are_names();
    lemma_names_differ();
    lemma_stream_pieces(v);
    let s = snapshot_stream(v);
    let q0 = no_parts();
    let q1 = Parts { cpu: Some(v.cpu), ..q0 };
    let q2 = Parts { mem: Some(v.mem), ..q1 };
    let q3 = Parts { vic: Some(v.vic), ..q2 };
    let q4 = Parts { cia1: Some(cia_read_back(v.cia1)), ..q3 };
    let q5 = Parts { cia2: Some(cia_read_back(v.cia2)), ..q4 };
    let q6 = Parts { sid: Some(v.sid), ..q5 };
    assert(modules_from(s, 67599, q6) == Ok::<Parts, Seq<char>>(q6));
    lemma_module_step(s, 67548, q5, name_sid(), sid_payload(v.sid));
    assert(modules_from(s, 67548, q5) == Ok::<Parts, Seq<char>>(q6));
    lemma_module_step(s, 67506, q4, name_cia2(), cia_payload(v.cia2));
    assert(modules_from(s, 67506, q4) == Ok::<Parts, Seq<char>>(q6));
    lemma_module_step(s, 67464, q3, name_cia1(), cia_payload(v.cia1));
    assert(modules_from(s, 67464, q3) == Ok::<Parts, Seq<char>>(q6));
    lemma_module_step(s, 65657, q2, name_vic(), vic_payload(v.vic));
    assert(modules_from(s, 65657, q2) == Ok::<Parts, Seq<char>>(q6));
    lemma_module_step(s, 95, q1, name_c64mem(), mem_payload(v.mem));
    assert(modules_from(s, 95, q1) == Ok::<Parts, Seq<char>>(q6));
    lemma_module_step(s, 58, q0, name_maincpu(), cpu_payload(v.cpu));
    assert(modules_from(s, 58, q0) == Ok::<Parts, Seq<char>>(q6));
}

/// A stream that holds a snapshot is read back as that snapshot.
///
/// Every field comes back as it went in, but for what the reader
/// normalizes: an output register B of zero in an interface adapter, and the
/// color memory where RAM at `$D800..=$DBFF` looks like color memory.
pub proof fn lemma_round_trip(v: SnapshotView)
    requires
        is_sized(v),
    ensures
        parse_snapshot(snapshot_stream(v)) == Ok::<SnapshotView, Seq<char>>(read_back(v)),
{
    lemma_stream_header(v);
    lemma_stream_modules(v);
    assert(finish(parts_of(v)) == Ok::<SnapshotView, Seq<char>>(read_back(v)));
}

} // verus!

verus! {

/// Modules as they lie in a stream, one behind the other; each is given by
/// its name and its payload.
pub open spec fn modules_bytes(modules: Seq<(Seq<u8>, Seq<u8>)>) -> Seq<u8>
    decreases modules.len(),
{
    if modules.len() == 0 {
        Seq::empty()
    } else {
        module_bytes(modules[0].0, modules[0].1) + modules_bytes(modules.drop_first())
    }
}

/// The parts that reading the modules in their order adds to `parts`: a
/// module with one of the six names is decoded and takes the place of an
/// earlier one of that name, any other module is passed over.
pub open spec fn parts_from(parts: Parts, modules: Seq<(Seq<u8>, Seq<u8>)>) -> Result<
    Parts,
    Seq<char>,
>
    decreases modules.len(),
{
    if modules.len() == 0 {
        Ok(parts)
    } else {
        match with_module(parts, modules[0].0, modules[0].1) {
            Err(e) => Err(e),
            Ok(next) => parts_from(next, modules.drop_first()),
        }
    }
}

/// Each module has a name that a module can have, and a size that its size
/// field can hold.
pub open spec fn are_modules(modules: Seq<(Seq<u8>, Seq<u8>)>) -> bool {
    forall|i: int|
        0 <= i < modules.len() ==> is_module_name((#[trigger] modules[i]).0) && modules[i].1.len()
            + MODULE_HEADER_LEN < 0x1_0000_0000
}

/// A module is its header of 22 bytes and its payload.
proof fn lemma_module_len(name: Seq<u8>, payload: Seq<u8>)
    requires
        is_module_name(name),
    ensures
        module_bytes(name, payload).len() == MODULE_HEADER_LEN + payload.len(),
{
}

/// Modules that lie one behind the other are read one after the other.
pub proof fn lemma_modules_read(prefix: Seq<u8>, modules: Seq<(Seq<u8>, Seq<u8>)>, parts: Parts)
    requires
        are_modules(modules),
    ensures
        modules_from(prefix + modules_bytes(modules), prefix.len() as int, parts) == parts_from(
            parts,
            modules,
        ),
    decreases modules.len(),
{
    let bytes = prefix + modules_bytes(modules);
    let pos = prefix.len() as int;
    if modules.len() == 0 {
        assert(bytes =~= prefix);
    } else {
        let name = modules[0].0;
        let payload = modules[0].1;
        let first = module_bytes(name, payload);
        let rest = modules.drop_first();
        assert(is_module_name(name));
        lemma_module_len(name, payload);
        assert(bytes.subrange(pos, pos + MODULE_HEADER_LEN + payload.len()) =~= first);
        lemma_module_step(bytes, pos, parts, name, payload);
        assert(are_modules(rest)) by {
            assert forall|i: int| 0 <= i < rest.len() implies is_module_name(
                (#[trigger] rest[i]).0,
            ) && rest[i].1.len() + MODULE_HEADER_LEN < 0x1_0000_0000 by {
                assert(rest[i] == modules[i + 1]);
            }
        }
        assert(bytes =~= (prefix + first) + modules_bytes(rest));
        match with_module(parts, name, payload) {
            Ok(next) => {
                lemma_modules_read(prefix + first, rest, next);
            },
            Err(_) => {},
        }
    }
}

/// What a stream of modules is read as, whatever modules it holds and in
/// whatever order.
///
/// The snapshot is made of the parts that the modules give when they are
/// read in their order: each of the six required modules is decoded from its
/// payload, a later one takes the place of an earlier one, modules of other
/// names are passed over, and a required module that is never found is
/// named. The first payload that cannot be decoded ends the reading.
pub proof fn lemma_stream_of_modules(modules: Seq<(Seq<u8>, Seq<u8>)>)
    requires
        are_modules(modules),
    ensures
        parse_snapshot(header_bytes() + modules_bytes(modules)) == match parts_from(
            no_parts(),
            modules,
        ) {
            Err(e) => Err::<SnapshotView, Seq<char>>(e),
            Ok(parts) => finish(parts),
        },
{
    lemma_header_accepted(modules_bytes(modules));
    lemma_modules_read(header_bytes(), modules, no_parts());
}

/// Modules of other names, wherever they stand between the six required
/// ones, change nothing: a module that is none of the six leaves the parts
/// as they are.
pub proof fn lemma_other_module_is_passed_over(parts: Parts, name: Seq<u8>, payload: Seq<u8>)
    requires
        name != name_maincpu(),
        name != name_c64mem(),
        name != name_vic(),
        name != name_cia1(),
        name != name_cia2(),
        name != name_sid(),
    ensures
        with_module(parts, name, payload) == Ok::<Parts, Seq<char>>(parts),
{
}

} // verus!

verus! {

/// The payload of the last module named `name`, if there is such a module.
pub open spec fn last_payload(modules: Seq<(Seq<u8>, Seq<u8>)>, name: Seq<u8>) -> Option<Seq<u8>>
    decreases modules.len(),
{
    if modules.len() == 0 {
        None
    } else {
        match last_payload(modules.drop_first(), name) {
            Some(payload) => Some(payload),
            None => if modules[0].0 == name {
                Some(modules[0].1)
            } else {
                None
            },
        }
    }
}

/// Every module with one of the six names has a payload long enough to be
/// decoded.
pub open spec fn are_decodable(modules: Seq<(Seq<u8>, Seq<u8>)>) -> bool {
    forall|i: int|
        0 <= i < modules.len() ==> with_module(
            no_parts(),
            (#[trigger] modules[i]).0,
            modules[i].1,
        ) is Ok
}

/// `parts`, with each part for which `modules` holds a module decoded from
/// the last such module.
pub open spec fn merged(parts: Parts, modules: Seq<(Seq<u8>, Seq<u8>)>) -> Parts {
    Parts {
        cpu: match last_payload(modules, name_maincpu()) {
            Some(p) => Some(cpu_of(p)->Ok_0),
            None => parts.cpu,
        },
        mem: match last_payload(modules, name_c64mem()) {
            Some(p) => Some(mem_of(p)->Ok_0),
            None => parts.mem,
        },
        vic: match last_payload(modules, name_vic()) {
            Some(p) => Some(vic_of(p)->Ok_0),
            None => parts.vic,
        },
        cia1: match last_payload(modules, name_cia1()) {
            Some(p) => Some(cia_of(p)->Ok_0),
            None => parts.cia1,
        },
        cia2: match last_payload(modules, name_cia2()) {
            Some(p) => Some(cia_of(p)->Ok_0),
            None => parts.cia2,
        },
        sid: match last_payload(modules, name_sid()) {
            Some(p) => Some(sid_of(p)->Ok_0),
            None => parts.sid,
        },
    }
}

/// Reading modules that can all be decoded gives, for each part, what the
/// last module of its name holds.
pub proof fn lemma_parts_are_last_modules(parts: Parts, modules: Seq<(Seq<u8>, Seq<u8>)>)
    requires
        are_decodable(modules),
    ensures
        parts_from(parts, modules) == Ok::<Parts, Seq<char>>(merged(parts, modules)),
    decreases modules.len(),
{
    lemma_names_differ();
    if modules.len() > 0 {
        let rest = modules.drop_first();
        assert(with_module(no_parts(), modules[0].0, modules[0].1) is Ok);
        let next = with_module(parts, modules[0].0, modules[0].1)->Ok_0;
        assert(are_decodable(rest)) by {
            assert forall|i: int| 0 <= i < rest.len() implies with_module(
                no_parts(),
                (#[trigger] rest[i]).0,
                rest[i].1,
            ) is Ok by {
                assert(rest[i] == modules[i + 1]);
            }
        }
        lemma_parts_are_last_modules(next, rest);
        assert(merged(next, rest) == merged(parts, modules));
    }
}

/// A stream that holds each of the six required modules, in any order, with
/// other modules between them or not, is read as the snapshot of the last
/// module of each name.
///
/// The fields are those that `cpu_of`, `mem_of`, `vic_of`, `cia_of` and
/// `sid_of` take from the payloads; the color memory is taken from RAM where
/// RAM at `$D800..=$DBFF` looks like color memory, and from the video chip
/// module where it does not.
pub proof fn lemma_snapshot_of_modules(modules: Seq<(Seq<u8>, Seq<u8>)>)
    requires
        are_modules(modules),
        are_decodable(modules),
        last_payload(modules, name_maincpu()) is Some,
        last_payload(modules, name_c64mem()) is Some,
        last_payload(modules, name_vic()) is Some,
        last_payload(modules, name_cia1()) is Some,
        last_payload(modules, name_cia2()) is Some,
        last_payload(modules, name_sid()) is Some,
    ensures
        parse_snapshot(header_bytes() + modules_bytes(modules)) == Ok::<SnapshotView, Seq<char>>(
            ({
                let mem = mem_of(last_payload(modules, name_c64mem())->0)->Ok_0;
                let vic = vic_of(last_payload(modules, name_vic())->0)->Ok_0;
                SnapshotView {
                    cpu: cpu_of(last_payload(modules, name_maincpu())->0)->Ok_0,
                    mem,
                    vic: VicView {
                        registers: vic.registers,
                        color_ram: if is_color_ram(mem.ram) {
                            mem.ram.subrange(0xD800, 0xDC00)
                        } else {
                            vic.color_ram
                        },
                    },
                    cia1: cia_of(last_payload(modules, name_cia1())->0)->Ok_0,
                    cia2: cia_of(last_payload(modules, name_cia2())->0)->Ok_0,
                    sid: sid_of(last_payload(modules, name_sid())->0)->Ok_0,
                }
            }),
        ),
{
    lemma_stream_of_modules(modules);
    lemma_parts_are_last_modules(no_parts(), modules);
}

} // verus!

verus! {

/// An output register B of zero, which a held key leaves in the snapshot, is
/// read as `$FF`; any other value of it, and the three registers beside it,
/// are read as they are.
pub proof fn lemma_held_key(payload: Seq<u8>)
    requires
        payload.len() >= 20,
    ensures
        cia_of(payload) matches Ok(cia) && cia.ora == payload[0] && cia.ddra == payload[2]
            && cia.ddrb == payload[3] && cia.orb == if payload[1] == 0 {
            0xFFu8
        } else {
            payload[1]
        },
{
}

} // verus!
