//! A model of the processor, as far as the restore routines use it.
//!
//! The model has the registers, the zero and negative flags, 64 KiB of RAM,
//! the processor port, and the chips behind `$D000..=$DFFF`: while the port
//! shows them, writes there go to the chips and are recorded, and reads come
//! from the chips with values that the model does not fix.

use vstd::prelude::*;

verus! {

/// The state of the machine.
pub struct Machine {
    pub a: u8,
    pub x: u8,
    pub y: u8,
    pub sp: u8,
    /// The status register as the last return from interrupt set it.
    pub p: u8,
    pub pc: u16,
    pub zero: bool,
    pub negative: bool,
    /// RAM, 65 536 bytes.
    pub ram: Seq<u8>,
    /// The data register of the processor port.
    pub port: u8,
    /// The direction register of the processor port.
    pub port_dir: u8,
    /// The writes to the chips so far, each an address and a value.
    pub chip_writes: Seq<(u16, u8)>,
    /// The values that reads from the chips will return, in order.
    pub chip_inputs: Seq<u8>,
    /// Whether a return from interrupt was executed.
    pub returned: bool,
}

/// The port shows the chips at `$D000..=$DFFF`.
pub open spec fn io_visible(port: u8) -> bool {
    port & 0x04 != 0 && port & 0x03 != 0
}

/// The address is one of a chip, and the port shows the chips.
pub open spec fn is_chip_access(m: Machine, addr: u16) -> bool {
    0xD000 <= addr < 0xE000 && io_visible(m.port)
}

/// `addr + offset`, wrapping around the address space.
pub open spec fn offset_address(addr: u16, offset: int) -> u16 {
    ((addr + offset) % 65536) as u16
}

/// The word whose low byte is `low` and whose high byte is `high`.
pub open spec fn word_of(low: u8, high: u8) -> u16 {
    (low + 256 * high) as u16
}

/// The byte at `addr` as the processor reads it.
pub open spec fn read_value(m: Machine, addr: u16) -> u8 {
    if is_chip_access(m, addr) {
        if m.chip_inputs.len() > 0 {
            m.chip_inputs[0]
        } else {
            0
        }
    } else if addr == 1 {
        m.port
    } else if addr == 0 {
        m.port_dir
    } else {
        m.ram[addr as int]
    }
}

/// The machine after a read from `addr`: a read from a chip uses up one of
/// the values that the chips return.
pub open spec fn after_read(m: Machine, addr: u16) -> Machine {
    if is_chip_access(m, addr) && m.chip_inputs.len() > 0 {
        Machine { chip_inputs: m.chip_inputs.drop_first(), ..m }
    } else {
        m
    }
}

/// The machine after `value` was written to `addr`.
pub open spec fn after_write(m: Machine, addr: u16, value: u8) -> Machine {
    if is_chip_access(m, addr) {
        Machine { chip_writes: m.chip_writes.push((addr, value)), ..m }
    } else if addr == 1 {
        Machine { port: value, ..m }
    } else if addr == 0 {
        Machine { port_dir: value, ..m }
    } else {
        Machine { ram: m.ram.update(addr as int, value), ..m }
    }
}

/// The machine with the flags set for `value`.
pub open spec fn with_flags(m: Machine, value: u8) -> Machine {
    Machine { zero: value == 0, negative: value >= 0x80, ..m }
}

/// The byte `k` bytes behind the program counter.
pub open spec fn operand(m: Machine, k: int) -> u8 {
    m.ram[(m.pc + k) % 65536]
}

/// The word in the two bytes behind the opcode.
pub open spec fn operand_word(m: Machine) -> u16 {
    word_of(operand(m, 1), operand(m, 2))
}

/// The machine with the program counter moved on by `k`.
pub open spec fn advance(m: Machine, k: int) -> Machine {
    Machine { pc: offset_address(m.pc, k), ..m }
}

/// Where a branch with the operand `offset` leads from the instruction
/// behind it.
pub open spec fn branch_target(next: u16, offset: u8) -> u16 {
    if offset < 0x80 {
        offset_address(next, offset as int)
    } else {
        offset_address(next, offset as int - 256)
    }
}

/// The machine after a branch that is taken or not.
pub open spec fn after_branch(m: Machine, taken: bool) -> Machine {
    let next = offset_address(m.pc, 2);
    Machine {
        pc: if taken {
            branch_target(next, operand(m, 1))
        } else {
            next
        },
        ..m
    }
}

/// `value + delta` as a byte, wrapping around.
pub open spec fn wrap_byte(value: int) -> u8 {
    (value % 256) as u8
}

/// The machine after one instruction. An opcode that the restore routines
/// do not use leaves the machine as it is.
#[verifier::opaque]
pub open spec fn step(m: Machine) -> Machine {
    let opcode = m.ram[m.pc as int];
    if opcode == 0xA2 {
        with_flags(Machine { x: operand(m, 1), ..advance(m, 2) }, operand(m, 1))
    } else if opcode == 0xA0 {
        with_flags(Machine { y: operand(m, 1), ..advance(m, 2) }, operand(m, 1))
    } else if opcode == 0xA9 {
        with_flags(Machine { a: operand(m, 1), ..advance(m, 2) }, operand(m, 1))
    } else if opcode == 0xBD {
        let addr = offset_address(operand_word(m), m.x as int);
        let value = read_value(m, addr);
        with_flags(Machine { a: value, ..advance(after_read(m, addr), 3) }, value)
    } else if opcode == 0xAD {
        let addr = operand_word(m);
        let value = read_value(m, addr);
        with_flags(Machine { a: value, ..advance(after_read(m, addr), 3) }, value)
    } else if opcode == 0x9D {
        advance(after_write(m, offset_address(operand_word(m), m.x as int), m.a), 3)
    } else if opcode == 0x99 {
        advance(after_write(m, offset_address(operand_word(m), m.y as int), m.a), 3)
    } else if opcode == 0x8D {
        advance(after_write(m, operand_word(m), m.a), 3)
    } else if opcode == 0x85 {
        advance(after_write(m, operand(m, 1) as u16, m.a), 2)
    } else if opcode == 0xCA {
        with_flags(Machine { x: wrap_byte(m.x - 1), ..advance(m, 1) }, wrap_byte(m.x - 1))
    } else if opcode == 0x88 {
        with_flags(Machine { y: wrap_byte(m.y - 1), ..advance(m, 1) }, wrap_byte(m.y - 1))
    } else if opcode == 0xE8 {
        with_flags(Machine { x: wrap_byte(m.x + 1), ..advance(m, 1) }, wrap_byte(m.x + 1))
    } else if opcode == 0xE0 {
        with_flags(advance(m, 2), wrap_byte(m.x - operand(m, 1)))
    } else if opcode == 0x10 {
        after_branch(m, !m.negative)
    } else if opcode == 0xD0 {
        after_branch(m, !m.zero)
    } else if opcode == 0x4C {
        Machine { pc: operand_word(m), ..m }
    } else if opcode == 0x9A {
        Machine { sp: m.x, ..advance(m, 1) }
    } else if opcode == 0x48 {
        Machine {
            ram: m.ram.update(0x0100 + m.sp, m.a),
            sp: wrap_byte(m.sp - 1),
            ..advance(m, 1)
        }
    } else if opcode == 0x40 {
        Machine {
            p: m.ram[0x0100 + wrap_byte(m.sp + 1)],
            pc: word_of(
                m.ram[0x0100 + wrap_byte(m.sp + 2)],
                m.ram[0x0100 + wrap_byte(m.sp + 3)],
            ),
            sp: wrap_byte(m.sp + 3),
            returned: true,
            ..m
        }
    } else {
        m
    }
}

/// The machine after `n` instructions.
pub open spec fn run(m: Machine, n: nat) -> Machine
    decreases n,
{
    if n == 0 {
        m
    } else {
        run(step(m), (n - 1) as nat)
    }
}

/// The machine gets from `m` to `f` in some number of instructions.
pub open spec fn reaches(m: Machine, f: Machine) -> bool {
    exists|n: nat| run(m, n) == f
}

/// Running `a` instructions and then `b` is running `a + b`.
pub proof fn lemma_run_add(m: Machine, a: nat, b: nat)
    ensures
        run(run(m, a), b) == run(m, a + b),
    decreases a,
{
    if a > 0 {
        lemma_run_add(step(m), (a - 1) as nat, b);
    }
}

/// A machine reaches itself.
pub proof fn lemma_reaches_self(m: Machine)
    ensures
        reaches(m, m),
{
    assert(run(m, 0) == m);
}

/// A machine reaches what it is after one instruction.
pub proof fn lemma_reaches_step(m: Machine)
    ensures
        reaches(m, step(m)),
{
    assert(run(step(m), 0) == step(m));
    assert(run(m, 1) == run(step(m), 0));
    assert(run(m, 1) == step(m));
}

/// What is reached from what is reached, is reached.
pub proof fn lemma_reaches_trans(m: Machine, g: Machine, f: Machine)
    requires
        reaches(m, g),
        reaches(g, f),
    ensures
        reaches(m, f),
{
    let a = choose|n: nat| run(m, n) == g;
    let b = choose|n: nat| run(g, n) == f;
    lemma_run_add(m, a, b);
    assert(run(m, a + b) == f);
}

/// `LDX #value`.
pub proof fn lemma_ldx(m: Machine, value: u8)
    requires
        m.pc + 2 <= 65536,
        m.ram[m.pc as int] == 0xA2,
        m.ram[m.pc + 1] == value,
    ensures
        step(m) == (Machine {
            x: value,
            zero: value == 0,
            negative: value >= 0x80,
            pc: ((m.pc + 2) % 65536) as u16,
            ..m
        }),
{
    reveal(step);
}

/// `LDY #value`.
pub proof fn lemma_ldy(m: Machine, value: u8)
    requires
        m.pc + 2 <= 65536,
        m.ram[m.pc as int] == 0xA0,
        m.ram[m.pc + 1] == value,
    ensures
        step(m) == (Machine {
            y: value,
            zero: value == 0,
            negative: value >= 0x80,
            pc: ((m.pc + 2) % 65536) as u16,
            ..m
        }),
{
    reveal(step);
}

/// `LDA #value`.
pub proof fn lemma_lda(m: Machine, value: u8)
    requires
        m.pc + 2 <= 65536,
        m.ram[m.pc as int] == 0xA9,
        m.ram[m.pc + 1] == value,
    ensures
        step(m) == (Machine {
            a: value,
            zero: value == 0,
            negative: value >= 0x80,
            pc: ((m.pc + 2) % 65536) as u16,
            ..m
        }),
{
    reveal(step);
}

/// `LDA base,X` from RAM.
pub proof fn lemma_lda_x(m: Machine, base: u16)
    requires
        m.pc + 3 <= 65536,
        m.ram[m.pc as int] == 0xBD,
        word_of(m.ram[m.pc + 1], m.ram[m.pc + 2]) == base,
        !io_visible(m.port),
        2 <= base + m.x < 65536,
    ensures
        step(m) == (Machine {
            a: m.ram[base + m.x],
            zero: m.ram[base + m.x] == 0,
            negative: m.ram[base + m.x] >= 0x80,
            pc: ((m.pc + 3) % 65536) as u16,
            ..m
        }),
{
    reveal(step);
}

/// `LDA addr` from a chip.
pub proof fn lemma_lda_chip(m: Machine, addr: u16)
    requires
        m.pc + 3 <= 65536,
        m.ram[m.pc as int] == 0xAD,
        word_of(m.ram[m.pc + 1], m.ram[m.pc + 2]) == addr,
        io_visible(m.port),
        0xD000 <= addr < 0xE000,
    ensures
        step(m) == (Machine {
            a: step(m).a,
            zero: step(m).zero,
            negative: step(m).negative,
            chip_inputs: step(m).chip_inputs,
            pc: ((m.pc + 3) % 65536) as u16,
            ..m
        }),
{
    reveal(step);
}

/// `STA base,X` to RAM.
pub proof fn lemma_sta_x(m: Machine, base: u16)
    requires
        m.pc + 3 <= 65536,
        m.ram[m.pc as int] == 0x9D,
        word_of(m.ram[m.pc + 1], m.ram[m.pc + 2]) == base,
        !io_visible(m.port),
        2 <= base + m.x < 65536,
    ensures
        step(m) == (Machine {
            ram: m.ram.update(base + m.x, m.a),
            pc: ((m.pc + 3) % 65536) as u16,
            ..m
        }),
{
    reveal(step);
}

/// `STA base,Y` to RAM.
pub proof fn lemma_sta_y(m: Machine, base: u16)
    requires
        m.pc + 3 <= 65536,
        m.ram[m.pc as int] == 0x99,
        word_of(m.ram[m.pc + 1], m.ram[m.pc + 2]) == base,
        !io_visible(m.port),
        2 <= base + m.y < 65536,
    ensures
        step(m) == (Machine {
            ram: m.ram.update(base + m.y, m.a),
            pc: ((m.pc + 3) % 65536) as u16,
            ..m
        }),
{
    reveal(step);
}

/// `STA addr` to a chip.
pub proof fn lemma_sta_chip(m: Machine, addr: u16)
    requires
        m.pc + 3 <= 65536,
        m.ram[m.pc as int] == 0x8D,
        word_of(m.ram[m.pc + 1], m.ram[m.pc + 2]) == addr,
        io_visible(m.port),
        0xD000 <= addr < 0xE000,
    ensures
        step(m) == (Machine {
            chip_writes: m.chip_writes.push((addr, m.a)),
            pc: ((m.pc + 3) % 65536) as u16,
            ..m
        }),
{
    reveal(step);
}

/// `STA zp` to the zero page behind the processor port.
pub proof fn lemma_sta_zp(m: Machine, zp: u8)
    requires
        m.pc + 2 <= 65536,
        m.ram[m.pc as int] == 0x85,
        m.ram[m.pc + 1] == zp,
        zp >= 2,
    ensures
        step(m) == (Machine {
            ram: m.ram.update(zp as int, m.a),
            pc: ((m.pc + 2) % 65536) as u16,
            ..m
        }),
{
    reveal(step);
}

/// `STA $01`: the data register of the processor port.
pub proof fn lemma_sta_port(m: Machine)
    requires
        m.pc + 2 <= 65536,
        m.ram[m.pc as int] == 0x85,
        m.ram[m.pc + 1] == 1,
    ensures
        step(m) == (Machine { port: m.a, pc: ((m.pc + 2) % 65536) as u16, ..m }),
{
    reveal(step);
}

/// `STA $00`: the direction register of the processor port.
pub proof fn lemma_sta_port_dir(m: Machine)
    requires
        m.pc + 2 <= 65536,
        m.ram[m.pc as int] == 0x85,
        m.ram[m.pc + 1] == 0,
    ensures
        step(m) == (Machine { port_dir: m.a, pc: ((m.pc + 2) % 65536) as u16, ..m }),
{
    reveal(step);
}

/// `DEX`.
pub proof fn lemma_dex(m: Machine)
    requires
        m.pc + 1 <= 65536,
        m.ram[m.pc as int] == 0xCA,
    ensures
        step(m) == (Machine {
            x: wrap_byte(m.x - 1),
            zero: wrap_byte(m.x - 1) == 0,
            negative: wrap_byte(m.x - 1) >= 0x80,
            pc: ((m.pc + 1) % 65536) as u16,
            ..m
        }),
{
    reveal(step);
}

/// `DEY`.
pub proof fn lemma_dey(m: Machine)
    requires
        m.pc + 1 <= 65536,
        m.ram[m.pc as int] == 0x88,
    ensures
        step(m) == (Machine {
            y: wrap_byte(m.y - 1),
            zero: wrap_byte(m.y - 1) == 0,
            negative: wrap_byte(m.y - 1) >= 0x80,
            pc: ((m.pc + 1) % 65536) as u16,
            ..m
        }),
{
    reveal(step);
}

/// `INX`.
pub proof fn lemma_inx(m: Machine)
    requires
        m.pc + 1 <= 65536,
        m.ram[m.pc as int] == 0xE8,
    ensures
        step(m) == (Machine {
            x: wrap_byte(m.x + 1),
            zero: wrap_byte(m.x + 1) == 0,
            negative: wrap_byte(m.x + 1) >= 0x80,
            pc: ((m.pc + 1) % 65536) as u16,
            ..m
        }),
{
    reveal(step);
}

/// `CPX #value`.
pub proof fn lemma_cpx(m: Machine, value: u8)
    requires
        m.pc + 2 <= 65536,
        m.ram[m.pc as int] == 0xE0,
        m.ram[m.pc + 1] == value,
    ensures
        step(m) == (Machine {
            zero: m.x == value,
            negative: wrap_byte(m.x - value) >= 0x80,
            pc: ((m.pc + 2) % 65536) as u16,
            ..m
        }),
{
    reveal(step);
}

/// `BPL` or `BNE` back by `back` bytes from the instruction behind it.
pub proof fn lemma_branch_back(m: Machine, back: int)
    requires
        m.pc + 2 <= 65536,
        m.ram[m.pc as int] == 0x10 || m.ram[m.pc as int] == 0xD0,
        1 <= back <= 128,
        m.ram[m.pc + 1] == 256 - back,
        m.pc + 2 - back >= 0,
    ensures
        step(m) == (Machine {
            pc: if (m.ram[m.pc as int] == 0x10 && !m.negative) || (m.ram[m.pc as int] == 0xD0
                && !m.zero) {
                (m.pc + 2 - back) as u16
            } else {
                ((m.pc + 2) % 65536) as u16
            },
            ..m
        }),
{
    reveal(step);
}

/// `JMP target`.
pub proof fn lemma_jmp(m: Machine, target: u16)
    requires
        m.pc + 3 <= 65536,
        m.ram[m.pc as int] == 0x4C,
        word_of(m.ram[m.pc + 1], m.ram[m.pc + 2]) == target,
    ensures
        step(m) == (Machine { pc: target, ..m }),
{
    reveal(step);
}

/// `TXS`.
pub proof fn lemma_txs(m: Machine)
    requires
        m.pc + 1 <= 65536,
        m.ram[m.pc as int] == 0x9A,
    ensures
        step(m) == (Machine { sp: m.x, pc: ((m.pc + 1) % 65536) as u16, ..m }),
{
    reveal(step);
}

/// `PHA`.
pub proof fn lemma_pha(m: Machine)
    requires
        m.pc + 1 <= 65536,
        m.ram[m.pc as int] == 0x48,
    ensures
        step(m) == (Machine {
            ram: m.ram.update(0x0100 + m.sp, m.a),
            sp: wrap_byte(m.sp - 1),
            pc: ((m.pc + 1) % 65536) as u16,
            ..m
        }),
{
    reveal(step);
}

/// `RTI`.
pub proof fn lemma_rti(m: Machine)
    requires
        m.ram[m.pc as int] == 0x40,
    ensures
        step(m) == (Machine {
            p: m.ram[0x0100 + wrap_byte(m.sp + 1)],
            pc: word_of(
                m.ram[0x0100 + wrap_byte(m.sp + 2)],
                m.ram[0x0100 + wrap_byte(m.sp + 3)],
            ),
            sp: wrap_byte(m.sp + 3),
            returned: true,
            ..m
        }),
{
    reveal(step);
}

} // verus!
