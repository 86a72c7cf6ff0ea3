//! Cartridge image builder.
//!
//! A cartridge file is a 64-byte header followed by one CHIP packet for the
//! low window of each bank and, where a bank has one, a second packet for its
//! high window.

use vstd::prelude::*;
use vstd::string::*;
use vstd::utf8::*;
use crate::bytes::{append_all, be16, overlay, repeat, write_bytes};
use crate::text::{decimal, decimal_chars};

verus! {

/// Supported cartridge formats.
#[derive(Debug, Clone, Copy, PartialEq, Eq, Structural)]
pub enum CartridgeType {
    /// 16 KiB banks: a low window at `$8000` and a high window at `$E000`.
    EasyFlash,
    /// 8 KiB banks: the low window only.
    MagicDesk,
}

/// Size of one window of a bank.
pub const BANK_SIZE_8K: usize = 8192;

/// Load address of the low window.
pub const LOAD_ADDRESS_ROML: u16 = 0x8000;

/// Load address of the high window.
pub const LOAD_ADDRESS_ROMH: u16 = 0xE000;

/// Length of the file header.
pub const HEADER_SIZE: usize = 64;

/// Length of a CHIP packet: 16 bytes of header and one window.
pub const PACKET_SIZE: usize = 8208;

impl CartridgeType {
    /// The hardware-type tag of the format.
    pub open spec fn spec_hardware_type(&self) -> u16 {
        match self {
            CartridgeType::EasyFlash => 32,
            CartridgeType::MagicDesk => 19,
        }
    }

    /// The level of the EXROM line.
    pub open spec fn spec_exrom(&self) -> u8 {
        match self {
            CartridgeType::EasyFlash => 1,
            CartridgeType::MagicDesk => 0,
        }
    }

    /// The level of the GAME line.
    pub open spec fn spec_game(&self) -> u8 {
        match self {
            CartridgeType::EasyFlash => 0,
            CartridgeType::MagicDesk => 1,
        }
    }

    /// The hardware-type tag of the format.
    #[verifier::when_used_as_spec(spec_hardware_type)]
    pub fn hardware_type(&self) -> (r: u16)
        ensures
            r == self.spec_hardware_type(),
    {
        match self {
            CartridgeType::EasyFlash => 32,
            CartridgeType::MagicDesk => 19,
        }
    }

    /// The level of the EXROM line.
    #[verifier::when_used_as_spec(spec_exrom)]
    pub fn exrom(&self) -> (r: u8)
        ensures
            r == self.spec_exrom(),
    {
        match self {
            CartridgeType::EasyFlash => 1,
            CartridgeType::MagicDesk => 0,
        }
    }

    /// The level of the GAME line.
    #[verifier::when_used_as_spec(spec_game)]
    pub fn game(&self) -> (r: u8)
        ensures
            r == self.spec_game(),
    {
        match self {
            CartridgeType::EasyFlash => 0,
            CartridgeType::MagicDesk => 1,
        }
    }
}

/// What `str::to_uppercase` returns for a string.
pub uninterp spec fn uppercase(s: Seq<char>) -> Seq<char>;

/// A character in upper case, where it is an ASCII letter.
pub open spec fn ascii_upper(c: char) -> char {
    if 'a' <= c && c <= 'z' {
        ((c as u8 - 32) as u8) as char
    } else {
        c
    }
}

/// A name in upper case: for a name of ASCII characters its letters `a..=z`
/// replaced by `A..=Z`, for another name what `str::to_uppercase` returns.
pub open spec fn upper_name(name: Seq<char>) -> Seq<char> {
    if is_ascii_chars(name) {
        name.map_values(|c: char| ascii_upper(c))
    } else {
        uppercase(name)
    }
}

/// `"C64 CARTRIDGE   "`.
pub open spec fn file_signature() -> Seq<u8> {
    seq![
        0x43, 0x36, 0x34, 0x20, 0x43, 0x41, 0x52, 0x54, 0x52, 0x49, 0x44, 0x47, 0x45, 0x20, 0x20,
        0x20,
    ]
}

/// The name field of the header: at most 31 bytes of the name, then zeros up
/// to 32 bytes.
pub open spec fn name_field(name: Seq<u8>) -> Seq<u8> {
    let kept = if name.len() < 31 {
        name.len()
    } else {
        31
    };
    name.take(kept as int) + repeat(0, (32 - kept) as nat)
}

/// The 64-byte file header.
pub open spec fn file_header(kind: CartridgeType, name: Seq<u8>) -> Seq<u8> {
    file_signature() + seq![0x00, 0x00, 0x00, 0x40, 0x01, 0x00] + be16(kind.spec_hardware_type())
        + seq![kind.spec_exrom(), kind.spec_game()] + repeat(0, 6) + name_field(name)
}

/// The 16 bytes in front of the data of a CHIP packet.
pub open spec fn chip_header(bank: int, load_address: u16) -> Seq<u8> {
    seq![0x43, 0x48, 0x49, 0x50, 0x00, 0x00, 0x20, 0x10, 0x00, 0x02] + be16((bank % 65536) as u16)
        + be16(load_address) + seq![0x20, 0x00]
}

/// A CHIP packet: its header and the 8 192 bytes of one window.
pub open spec fn chip_packet(bank: int, load_address: u16, data: Seq<u8>) -> Seq<u8> {
    chip_header(bank, load_address) + data
}

/// The packets of bank `k`: the low window, then the high window if there is
/// one.
pub open spec fn bank_packets(
    roml: Seq<Seq<u8>>,
    romh: Seq<Option<Seq<u8>>>,
    k: int,
) -> Seq<u8> {
    chip_packet(k, LOAD_ADDRESS_ROML, roml[k]) + match romh[k] {
        Some(high) => chip_packet(k, LOAD_ADDRESS_ROMH, high),
        None => Seq::empty(),
    }
}

/// The packets of the first `k` banks.
pub open spec fn packets(roml: Seq<Seq<u8>>, romh: Seq<Option<Seq<u8>>>, k: int) -> Seq<u8>
    decreases k,
{
    if k <= 0 {
        Seq::empty()
    } else {
        packets(roml, romh, k - 1) + bank_packets(roml, romh, k - 1)
    }
}

/// The whole cartridge file.
pub open spec fn crt_file(
    kind: CartridgeType,
    name: Seq<u8>,
    roml: Seq<Seq<u8>>,
    romh: Seq<Option<Seq<u8>>>,
) -> Seq<u8> {
    file_header(kind, name) + packets(roml, romh, roml.len() as int)
}

/// The message for a bank that does not exist.
pub open spec fn missing_bank_message(bank: nat, banks: nat) -> Seq<char> {
    "Bank "@ + decimal_chars(bank) + " does not exist. Valid banks: 0-"@ + decimal_chars(
        if banks == 0 {
            0
        } else {
            (banks - 1) as nat
        },
    )
}

/// The message for data that does not fit into a bank.
pub open spec fn overflow_message(len: nat, offset: nat) -> Seq<char> {
    "Data does not fit in bank ("@ + decimal_chars(len) + " bytes + offset "@ + decimal_chars(
        offset,
    ) + " > 8192)"@
}

/// The message for a high window of the wrong size.
pub open spec fn romh_size_message(len: nat) -> Seq<char> {
    "ROMH data must be exactly 8KB (got "@ + decimal_chars(len) + " bytes)"@
}

/// `str::to_uppercase`: the string in upper case as Unicode defines it. For a
/// string of ASCII characters that is the string with `a..=z` replaced by
/// `A..=Z`.
#[verifier::external_body]
fn to_uppercase(name: &str) -> (r: String)
    ensures
        r@ == uppercase(name@),
        is_ascii_chars(name@) ==> r@ == name@.map_values(|c: char| ascii_upper(c)),
{
    name.to_uppercase()
}

/// Builder for cartridge files.
pub struct CRTBuilder {
    cartridge_type: CartridgeType,
    name: String,
    banks: Vec<[u8; 8192]>,
    banks_romh: Vec<Option<[u8; 8192]>>,
}

/// The high window of a bank as a sequence, if there is one.
pub open spec fn window_view(w: Option<[u8; 8192]>) -> Option<Seq<u8>> {
    match w {
        Some(a) => Some(a@),
        None => None,
    }
}

impl CRTBuilder {
    /// The format of the cartridge.
    pub closed spec fn kind(&self) -> CartridgeType {
        self.cartridge_type
    }

    /// The name of the cartridge, in upper case.
    pub closed spec fn name(&self) -> Seq<char> {
        self.name@
    }

    /// The low windows of the banks.
    pub closed spec fn roml(&self) -> Seq<Seq<u8>> {
        Seq::new(self.banks@.len(), |i: int| self.banks@[i]@)
    }

    /// The high windows of the banks.
    pub closed spec fn romh(&self) -> Seq<Option<Seq<u8>>> {
        Seq::new(self.banks_romh@.len(), |i: int| window_view(self.banks_romh@[i]))
    }

    /// Every bank has a low window of 8 192 bytes and a place for a high
    /// window.
    pub open spec fn wf(&self) -> bool {
        &&& self.roml().len() == self.romh().len()
        &&& forall|i: int| 0 <= i < self.roml().len() ==> (#[trigger] self.roml()[i]).len() == 8192
        &&& forall|i: int|
            0 <= i < self.romh().len() ==> ((#[trigger] self.romh()[i]) matches Some(h)
                ==> h.len() == 8192)
    }

    /// The file that the builder stands for.
    pub open spec fn file(&self) -> Seq<u8> {
        crt_file(self.kind(), encode_utf8(self.name()), self.roml(), self.romh())
    }

    /// The message for `bank_number`, which this builder does not have.
    pub open spec fn missing_bank(&self, bank_number: usize) -> Seq<char> {
        missing_bank_message(bank_number as nat, self.roml().len())
    }

    fn missing_bank_error(&self, bank_number: usize) -> (m: String)
        ensures
            m@ == self.missing_bank(bank_number),
    {
        let mut m = String::from_str("Bank ");
        m.append(decimal(bank_number).as_str());
        m.append(" does not exist. Valid banks: 0-");
        let last = if self.banks.len() == 0 {
            0
        } else {
            self.banks.len() - 1
        };
        m.append(decimal(last).as_str());
        m
    }

    /// A builder with `initial_banks` zero-filled banks and the name in upper
    /// case.
    ///
    /// Fails if no bank is asked for, or if the name is longer than 32 bytes.
    pub fn new(cartridge_type: CartridgeType, initial_banks: usize, name: &str) -> (r: Result<
        Self,
        String,
    >)
        ensures
            initial_banks == 0 ==> (r matches Err(m) && m@ == "Must have at least one bank"@),
            initial_banks != 0 && encode_utf8(name@).len() > 32 ==> (r matches Err(m) && m@
                == "Name cannot be longer than 32 characters"@),
            initial_banks != 0 && encode_utf8(name@).len() <= 32 ==> {
                &&& r matches Ok(b)
                &&& b.wf()
                &&& b.kind() == cartridge_type
                &&& b.name() == upper_name(name@)
                &&& b.roml() == Seq::new(initial_banks as nat, |i: int| repeat(0, 8192))
                &&& b.romh() == Seq::new(initial_banks as nat, |i: int| None::<Seq<u8>>)
                &&& b.roml().len() == initial_banks
            },
    {
        if initial_banks == 0 {
            return Err(String::from_str("Must have at least one bank"));
        }
        if name.as_bytes().len() > 32 {
            return Err(String::from_str("Name cannot be longer than 32 characters"));
        }
        let mut builder = CRTBuilder {
            cartridge_type,
            name: to_uppercase(name),
            banks: Vec::new(),
            banks_romh: Vec::new(),
        };
        let mut i: usize = 0;
        while i < initial_banks
            invariant
                0 <= i <= initial_banks,
                builder.wf(),
                builder.cartridge_type == cartridge_type,
                builder.name@ == upper_name(name@),
                builder.roml() =~= Seq::new(i as nat, |j: int| repeat(0, 8192)),
                builder.romh() =~= Seq::new(i as nat, |j: int| None::<Seq<u8>>),
            decreases initial_banks - i,
        {
            builder.add_bank();
            i += 1;
        }
        Ok(builder)
    }

    /// Appends a zero-filled bank without a high window and returns its
    /// number.
    pub fn add_bank(&mut self) -> (r: usize)
        requires
            old(self).wf(),
        ensures
            final(self).wf(),
            r == old(self).roml().len(),
            final(self).kind() == old(self).kind(),
            final(self).name() == old(self).name(),
            final(self).roml() == old(self).roml().push(repeat(0, 8192)),
            final(self).romh() == old(self).romh().push(None),
    {
        let bank = [0u8; 8192];
        assert(bank@ =~= repeat(0, 8192));
        self.banks.push(bank);
        self.banks_romh.push(None);
        assert(self.roml() =~= old(self).roml().push(repeat(0, 8192)));
        assert(self.romh() =~= old(self).romh().push(None));
        self.banks.len() - 1
    }

    /// The number of banks.
    pub fn bank_count(&self) -> (r: usize)
        ensures
            r == self.roml().len(),
    {
        self.banks.len()
    }

    /// The low window of a bank.
    pub fn get_bank(&self, bank_number: usize) -> (r: Result<&[u8; 8192], String>)
        ensures
            bank_number < self.roml().len() ==> (r matches Ok(bank) && bank@
                == self.roml()[bank_number as int]),
            bank_number >= self.roml().len() ==> (r matches Err(m) && m@ == self.missing_bank(
                bank_number,
            )),
    {
        if bank_number < self.banks.len() {
            Ok(&self.banks[bank_number])
        } else {
            Err(self.missing_bank_error(bank_number))
        }
    }

    /// The low window of a bank, to be written to.
    pub fn get_bank_mut(&mut self, bank_number: usize) -> (r: Result<&mut [u8; 8192], String>)
        ensures
            final(self).kind() == old(self).kind(),
            final(self).name() == old(self).name(),
            final(self).romh() == old(self).romh(),
            match r {
                Ok(bank) => {
                    &&& bank_number < old(self).roml().len()
                    &&& bank@ == old(self).roml()[bank_number as int]
                    &&& final(self).roml() == old(self).roml().update(
                        bank_number as int,
                        final(bank)@,
                    )
                },
                Err(m) => {
                    &&& bank_number >= old(self).roml().len()
                    &&& m@ == old(self).missing_bank(bank_number)
                    &&& final(self).roml() == old(self).roml()
                },
            },
    {
        if bank_number < self.banks.len() {
            Ok(&mut self.banks[bank_number])
        } else {
            Err(self.missing_bank_error(bank_number))
        }
    }

    /// Sets the high window of a bank to `data`, which must be 8 192 bytes.
    pub fn set_bank_romh(&mut self, bank_number: usize, data: &[u8]) -> (r: Result<(), String>)
        requires
            old(self).wf(),
        ensures
            final(self).wf(),
            final(self).kind() == old(self).kind(),
            final(self).name() == old(self).name(),
            final(self).roml() == old(self).roml(),
            bank_number >= old(self).roml().len() ==> (r matches Err(m) && m@ == old(self).missing_bank(bank_number) && final(self).romh() == old(self).romh()),
            bank_number < old(self).roml().len() && data@.len() != 8192 ==> (r matches Err(m) && m@
                == romh_size_message(data@.len()) && final(self).romh() == old(self).romh()),
            bank_number < old(self).roml().len() && data@.len() == 8192 ==> r is Ok && final(self).romh() == old(self).romh().update(bank_number as int, Some(data@)),
    {
        if bank_number >= self.banks.len() {
            return Err(self.missing_bank_error(bank_number));
        }
        if data.len() != BANK_SIZE_8K {
            let mut m = String::from_str("ROMH data must be exactly 8KB (got ");
            m.append(decimal(data.len()).as_str());
            m.append(" bytes)");
            return Err(m);
        }
        let mut romh_data = [0u8; 8192];
        write_bytes(&mut romh_data, 0, data);
        assert(romh_data@ =~= data@);
        self.banks_romh.set(bank_number, Some(romh_data));
        assert(self.romh() =~= old(self).romh().update(bank_number as int, Some(data@)));
        assert(self.roml() =~= old(self).roml());
        Ok(())
    }

    /// The high window of a bank, if the bank exists and has one.
    pub fn get_bank_romh(&self, bank_number: usize) -> (r: Option<&[u8; 8192]>)
        requires
            self.wf(),
        ensures
            bank_number >= self.romh().len() ==> r is None,
            bank_number < self.romh().len() ==> match self.romh()[bank_number as int] {
                Some(high) => r matches Some(b) && b@ == high,
                None => r is None,
            },
    {
        if bank_number >= self.banks_romh.len() {
            return None;
        }
        match &self.banks_romh[bank_number] {
            Some(b) => Some(b),
            None => None,
        }
    }

    /// Writes `data` into the low window of a bank from `offset` on.
    pub fn fill_bank(&mut self, bank_number: usize, data: &[u8], offset: usize) -> (r: Result<
        (),
        String,
    >)
        requires
            old(self).wf(),
        ensures
            final(self).wf(),
            final(self).kind() == old(self).kind(),
            final(self).name() == old(self).name(),
            final(self).romh() == old(self).romh(),
            bank_number >= old(self).roml().len() ==> (r matches Err(m) && m@ == old(self).missing_bank(bank_number) && final(self).roml() == old(self).roml()),
            bank_number < old(self).roml().len() && offset + data@.len() > 8192 ==> (r matches Err(
                m,
            ) && m@ == overflow_message(data@.len(), offset as nat) && final(self).roml() == old(self).roml()),
            bank_number < old(self).roml().len() && offset + data@.len() <= 8192 ==> r is Ok
                && final(self).roml() == old(self).roml().update(
                bank_number as int,
                overlay(old(self).roml()[bank_number as int], offset as int, data@),
            ),
    {
        if bank_number >= self.banks.len() {
            return Err(self.missing_bank_error(bank_number));
        }
        if offset > BANK_SIZE_8K || data.len() > BANK_SIZE_8K - offset {
            let mut m = String::from_str("Data does not fit in bank (");
            m.append(decimal(data.len()).as_str());
            m.append(" bytes + offset ");
            m.append(decimal(offset).as_str());
            m.append(" > 8192)");
            return Err(m);
        }
        let mut bank = self.banks[bank_number];
        write_bytes(&mut bank, offset, data);
        self.banks.set(bank_number, bank);
        assert(self.roml() =~= old(self).roml().update(
            bank_number as int,
            overlay(old(self).roml()[bank_number as int], offset as int, data@),
        ));
        assert(self.romh() =~= old(self).romh());
        Ok(())
    }

    /// Fills the low window of a bank with `value`.
    pub fn clear_bank(&mut self, bank_number: usize, value: u8) -> (r: Result<(), String>)
        requires
            old(self).wf(),
        ensures
            final(self).wf(),
            final(self).kind() == old(self).kind(),
            final(self).name() == old(self).name(),
            final(self).romh() == old(self).romh(),
            bank_number >= old(self).roml().len() ==> (r matches Err(m) && m@ == old(self).missing_bank(bank_number) && final(self).roml() == old(self).roml()),
            bank_number < old(self).roml().len() ==> r is Ok && final(self).roml() == old(self).roml().update(bank_number as int, repeat(value, 8192)),
    {
        if bank_number >= self.banks.len() {
            return Err(self.missing_bank_error(bank_number));
        }
        let bank = [value; 8192];
        assert(bank@ =~= repeat(value, 8192));
        self.banks.set(bank_number, bank);
        assert(self.roml() =~= old(self).roml().update(bank_number as int, repeat(value, 8192)));
        assert(self.romh() =~= old(self).romh());
        Ok(())
    }

    /// The 64-byte file header.
    pub fn create_file_header(&self) -> (header: [u8; 64])
        ensures
            header@ == file_header(self.kind(), encode_utf8(self.name())),
    {
        let mut header = [0u8; 64];
        let signature: [u8; 16] = [
            0x43, 0x36, 0x34, 0x20, 0x43, 0x41, 0x52, 0x54, 0x52, 0x49, 0x44, 0x47, 0x45, 0x20,
            0x20, 0x20,
        ];
        write_bytes(&mut header, 0, signature.as_slice());
        header[19] = 0x40;
        header[20] = 0x01;
        let hardware = self.cartridge_type.hardware_type();
        header[22] = (hardware / 256) as u8;
        header[23] = (hardware % 256) as u8;
        header[24] = self.cartridge_type.exrom();
        header[25] = self.cartridge_type.game();
        let name_bytes = self.name.as_str().as_bytes();
        let copy_len: usize = if name_bytes.len() < 31 {
            name_bytes.len()
        } else {
            31
        };
        let ghost before = header@;
        let mut i: usize = 0;
        while i < copy_len
            invariant
                0 <= i <= copy_len <= 31,
                copy_len <= name_bytes@.len(),
                header@.len() == 64,
                forall|j: int| 0 <= j < 32 ==> #[trigger] header@[j] == before[j],
                forall|j: int| 32 <= j < 32 + i ==> #[trigger] header@[j] == name_bytes@[j - 32],
                forall|j: int| 32 + i <= j < 64 ==> #[trigger] header@[j] == 0,
            decreases copy_len - i,
        {
            header[32 + i] = name_bytes[i];
            i += 1;
        }
        assert(header@ =~= file_header(self.kind(), encode_utf8(self.name())));
        header
    }

    /// The CHIP packet for one window of bank `bank_number`.
    pub fn create_chip_packet(&self, bank_number: usize, start_address: u16, data: &[u8; 8192]) -> (packet:
        Vec<u8>)
        ensures
            packet@ == chip_packet(bank_number as int, start_address, data@),
            packet@.len() == PACKET_SIZE,
    {
        let mut packet: Vec<u8> = Vec::new();
        let head: [u8; 10] = [0x43, 0x48, 0x49, 0x50, 0x00, 0x00, 0x20, 0x10, 0x00, 0x02];
        append_all(&mut packet, head.as_slice());
        let bank = (bank_number % 65536) as u16;
        packet.push((bank / 256) as u8);
        packet.push((bank % 256) as u8);
        packet.push((start_address / 256) as u8);
        packet.push((start_address % 256) as u8);
        packet.push(0x20);
        packet.push(0x00);
        assert(packet@ =~= chip_header(bank_number as int, start_address));
        append_all(&mut packet, data.as_slice());
        packet
    }

    /// The complete cartridge file.
    pub fn generate_crt_data(&self) -> (output: Vec<u8>)
        requires
            self.wf(),
        ensures
            output@ == self.file(),
    {
        let mut output: Vec<u8> = Vec::new();
        let header = self.create_file_header();
        append_all(&mut output, header.as_slice());
        let ghost head = output@;
        let mut index: usize = 0;
        while index < self.banks.len()
            invariant
                0 <= index <= self.banks@.len(),
                self.wf(),
                output@ == head + packets(self.roml(), self.romh(), index as int),
            decreases self.banks@.len() - index,
        {
            let low = self.create_chip_packet(index, LOAD_ADDRESS_ROML, &self.banks[index]);
            append_all(&mut output, low.as_slice());
            match &self.banks_romh[index] {
                Some(high) => {
                    let packet = self.create_chip_packet(index, LOAD_ADDRESS_ROMH, high);
                    append_all(&mut output, packet.as_slice());
                },
                None => {},
            }
            assert(output@ =~= head + packets(self.roml(), self.romh(), index + 1));
            index += 1;
        }
        output
    }
}

/// Window `k` of `data`: the 8 192 bytes from `8192 * k` on, with zeros
/// where `data` has ended.
pub open spec fn window(data: Seq<u8>, k: int) -> Seq<u8> {
    Seq::new(
        BANK_SIZE_8K as nat,
        |i: int|
            if BANK_SIZE_8K * k + i < data.len() {
                data[BANK_SIZE_8K * k + i]
            } else {
                0u8
            },
    )
}

/// `data` cut into `banks` windows.
pub open spec fn bank_image(data: Seq<u8>, banks: nat) -> Seq<Seq<u8>> {
    Seq::new(banks, |k: int| window(data, k))
}

/// `banks` low windows of zeros.
pub open spec fn empty_banks(banks: nat) -> Seq<Seq<u8>> {
    Seq::new(banks, |i: int| repeat(0, 8192))
}

/// `banks` banks without a high window.
pub open spec fn no_high_windows(banks: nat) -> Seq<Option<Seq<u8>>> {
    Seq::new(banks, |i: int| None::<Seq<u8>>)
}

impl CRTBuilder {
    /// Writes `image` into the low windows of the banks, 8 192 bytes into
    /// each, from bank 0 on.
    pub fn fill_image(&mut self, image: &[u8])
        requires
            old(self).wf(),
            old(self).roml() == empty_banks(old(self).roml().len()),
        ensures
            final(self).wf(),
            final(self).kind() == old(self).kind(),
            final(self).name() == old(self).name(),
            final(self).romh() == old(self).romh(),
            final(self).roml() == bank_image(image@, old(self).roml().len()),
    {
        let num_banks = self.banks.len();
        let mut bank_idx: usize = 0;
        while bank_idx < num_banks
            invariant
                0 <= bank_idx <= num_banks,
                num_banks == old(self).roml().len(),
                self.wf(),
                self.kind() == old(self).kind(),
                self.name() == old(self).name(),
                self.romh() == old(self).romh(),
                self.roml().len() == num_banks,
                forall|k: int| 0 <= k < bank_idx ==> #[trigger] self.roml()[k] == window(image@, k),
                forall|k: int|
                    bank_idx <= k < num_banks ==> #[trigger] self.roml()[k] == repeat(0, 8192),
            decreases num_banks - bank_idx,
        {
            if image.len() / BANK_SIZE_8K > bank_idx || (image.len() / BANK_SIZE_8K == bank_idx
                && image.len() % BANK_SIZE_8K > 0) {
                let start = bank_idx * BANK_SIZE_8K;
                let end = if image.len() - start < BANK_SIZE_8K {
                    image.len()
                } else {
                    start + BANK_SIZE_8K
                };
                let chunk = vstd::slice::slice_subrange(image, start, end);
                match self.fill_bank(bank_idx, chunk, 0) {
                    Ok(()) => {},
                    Err(_) => {},
                }
                assert(self.roml()[bank_idx as int] =~= window(image@, bank_idx as int));
            } else {
                assert(repeat(0, 8192) =~= window(image@, bank_idx as int));
            }
            bank_idx += 1;
        }
        assert(self.roml() =~= bank_image(image@, num_banks as nat));
    }
}

/// Number of CHIP packets of the first `k` banks: one for each bank, and one
/// more for each high window.
pub open spec fn packet_count(romh: Seq<Option<Seq<u8>>>, k: int) -> int
    decreases k,
{
    if k <= 0 {
        0
    } else {
        packet_count(romh, k - 1) + if romh[k - 1] is Some {
            2int
        } else {
            1int
        }
    }
}

/// Every window is 8 192 bytes long, and there is a place for a high window
/// for each low window.
pub open spec fn windows_wf(roml: Seq<Seq<u8>>, romh: Seq<Option<Seq<u8>>>) -> bool {
    &&& roml.len() == romh.len()
    &&& forall|i: int| 0 <= i < roml.len() ==> (#[trigger] roml[i]).len() == 8192
    &&& forall|i: int|
        0 <= i < romh.len() ==> ((#[trigger] romh[i]) matches Some(h) ==> h.len() == 8192)
}

/// The packets of the first `k` banks are 8 208 bytes each.
pub proof fn lemma_packets_len(roml: Seq<Seq<u8>>, romh: Seq<Option<Seq<u8>>>, k: int)
    requires
        windows_wf(roml, romh),
        0 <= k <= roml.len(),
    ensures
        packets(roml, romh, k).len() == PACKET_SIZE * packet_count(romh, k),
        packet_count(romh, k) >= k,
    decreases k,
{
    if k > 0 {
        lemma_packets_len(roml, romh, k - 1);
    }
}

/// The packets of the first `j` banks are the beginning of the packets of
/// the first `k`.
pub proof fn lemma_packets_prefix(roml: Seq<Seq<u8>>, romh: Seq<Option<Seq<u8>>>, j: int, k: int)
    requires
        0 <= j <= k,
    ensures
        packets(roml, romh, j).len() <= packets(roml, romh, k).len(),
        packets(roml, romh, k).take(packets(roml, romh, j).len() as int) == packets(roml, romh, j),
    decreases k - j,
{
    if j < k {
        lemma_packets_prefix(roml, romh, j, k - 1);
        let shorter = packets(roml, romh, k - 1);
        let longer = packets(roml, romh, k);
        let n = packets(roml, romh, j).len() as int;
        assert(longer.take(n) =~= shorter.take(n));
    } else {
        assert(packets(roml, romh, k).take(packets(roml, romh, k).len() as int) =~= packets(
            roml,
            romh,
            k,
        ));
    }
}

/// The packets of bank `k` lie behind those of the banks before it: first
/// the packet of the low window, with load address `$8000`, then, where the
/// bank has a high window, its packet, with load address `$E000`.
pub proof fn lemma_packet_places(roml: Seq<Seq<u8>>, romh: Seq<Option<Seq<u8>>>, k: int)
    requires
        windows_wf(roml, romh),
        0 <= k < roml.len(),
    ensures
        ({
            let all = packets(roml, romh, roml.len() as int);
            let at = PACKET_SIZE * packet_count(romh, k);
            &&& all.len() == PACKET_SIZE * packet_count(romh, roml.len() as int)
            &&& 0 <= at
            &&& at + PACKET_SIZE <= all.len()
            &&& all.subrange(at, at + PACKET_SIZE) == chip_packet(k, LOAD_ADDRESS_ROML, roml[k])
            &&& romh[k] matches Some(high) ==> {
                &&& at + 2 * PACKET_SIZE <= all.len()
                &&& all.subrange(at + PACKET_SIZE, at + 2 * PACKET_SIZE) == chip_packet(
                    k,
                    LOAD_ADDRESS_ROMH,
                    high,
                )
            }
        }),
{
    let all = packets(roml, romh, roml.len() as int);
    lemma_packets_len(roml, romh, roml.len() as int);
    lemma_packets_len(roml, romh, k);
    lemma_packets_len(roml, romh, k + 1);
    lemma_packets_prefix(roml, romh, k + 1, roml.len() as int);
    let before = packets(roml, romh, k);
    let upto = packets(roml, romh, k + 1);
    let at = PACKET_SIZE * packet_count(romh, k);
    let low = chip_packet(k, LOAD_ADDRESS_ROML, roml[k]);
    assert(upto == before + bank_packets(roml, romh, k));
    assert(low.len() == PACKET_SIZE);
    assert(before.len() == at);
    assert forall|i: int| 0 <= i < upto.len() implies all[i] == upto[i] by {
        assert(all.take(upto.len() as int)[i] == all[i]);
    }
    assert forall|i: int| 0 <= i < PACKET_SIZE implies all.subrange(at, at + PACKET_SIZE)[i]
        == low[i] by {
        assert(all[at + i] == upto[at + i]);
        assert(upto[at + i] == bank_packets(roml, romh, k)[i]);
    }
    assert(all.subrange(at, at + PACKET_SIZE) =~= low);
    match romh[k] {
        Some(high) => {
            let second = chip_packet(k, LOAD_ADDRESS_ROMH, high);
            assert(second.len() == PACKET_SIZE);
            assert forall|i: int| 0 <= i < PACKET_SIZE implies all.subrange(
                at + PACKET_SIZE,
                at + 2 * PACKET_SIZE,
            )[i] == second[i] by {
                assert(all[at + PACKET_SIZE + i] == upto[at + PACKET_SIZE + i]);
                assert(upto[at + PACKET_SIZE + i] == bank_packets(roml, romh, k)[PACKET_SIZE + i]);
            }
            assert(all.subrange(at + PACKET_SIZE, at + 2 * PACKET_SIZE) =~= second);
        },
        None => {},
    }
}

/// The layout of the file header: the signature, the header length of 64,
/// version 1.0, the hardware type, the two lines, six zeros and the name
/// field of 32 bytes, numbers with the high byte first.
pub proof fn lemma_file_header_layout(kind: CartridgeType, name: Seq<u8>)
    ensures
        file_header(kind, name).len() == HEADER_SIZE,
        file_header(kind, name).subrange(0, 16) == file_signature(),
        file_header(kind, name).subrange(16, 20) == seq![0x00u8, 0x00u8, 0x00u8, 0x40u8],
        file_header(kind, name).subrange(20, 22) == seq![0x01u8, 0x00u8],
        file_header(kind, name).subrange(22, 24) == be16(kind.spec_hardware_type()),
        file_header(kind, name)[24] == kind.spec_exrom(),
        file_header(kind, name)[25] == kind.spec_game(),
        file_header(kind, name).subrange(26, 32) == repeat(0, 6),
        file_header(kind, name).subrange(32, 64) == name_field(name),
        name.len() <= 31 ==> file_header(kind, name).subrange(32, 32 + name.len() as int) == name,
{
    let header = file_header(kind, name);
    assert(header.subrange(0, 16) =~= file_signature());
    assert(header.subrange(16, 20) =~= seq![0x00u8, 0x00u8, 0x00u8, 0x40u8]);
    assert(header.subrange(20, 22) =~= seq![0x01u8, 0x00u8]);
    assert(header.subrange(22, 24) =~= be16(kind.spec_hardware_type()));
    assert(header.subrange(26, 32) =~= repeat(0, 6));
    assert(header.subrange(32, 64) =~= name_field(name));
    if name.len() <= 31 {
        assert(header.subrange(32, 32 + name.len() as int) =~= name);
    }
}

/// The layout of a cartridge file: the header of 64 bytes, then the packets,
/// 8 208 bytes each, those of bank `k` behind those of the banks before it.
pub proof fn lemma_file_layout(
    kind: CartridgeType,
    name: Seq<u8>,
    roml: Seq<Seq<u8>>,
    romh: Seq<Option<Seq<u8>>>,
    k: int,
)
    requires
        windows_wf(roml, romh),
        0 <= k < roml.len(),
    ensures
        crt_file(kind, name, roml, romh).len() == HEADER_SIZE + PACKET_SIZE * packet_count(
            romh,
            roml.len() as int,
        ),
        crt_file(kind, name, roml, romh).subrange(0, HEADER_SIZE as int) == file_header(kind, name),
        ({
            let at = HEADER_SIZE + PACKET_SIZE * packet_count(romh, k);
            &&& at + PACKET_SIZE <= crt_file(kind, name, roml, romh).len()
            &&& crt_file(kind, name, roml, romh).subrange(at, at + PACKET_SIZE) == chip_packet(
                k,
                LOAD_ADDRESS_ROML,
                roml[k],
            )
            &&& romh[k] matches Some(high) ==> {
                &&& at + 2 * PACKET_SIZE <= crt_file(kind, name, roml, romh).len()
                &&& crt_file(kind, name, roml, romh).subrange(
                    at + PACKET_SIZE,
                    at + 2 * PACKET_SIZE,
                ) == chip_packet(k, LOAD_ADDRESS_ROMH, high)
            }
        }),
{
    let file = crt_file(kind, name, roml, romh);
    let header = file_header(kind, name);
    let all = packets(roml, romh, roml.len() as int);
    lemma_file_header_layout(kind, name);
    lemma_packet_places(roml, romh, k);
    let at = PACKET_SIZE * packet_count(romh, k);
    assert(file == header + all);
    assert(file.subrange(0, HEADER_SIZE as int) =~= header);
    assert(file.subrange(HEADER_SIZE + at, HEADER_SIZE + at + PACKET_SIZE) =~= all.subrange(
        at,
        at + PACKET_SIZE,
    ));
    if romh[k] is Some {
        assert(file.subrange(HEADER_SIZE + at + PACKET_SIZE, HEADER_SIZE + at + 2 * PACKET_SIZE)
            =~= all.subrange(at + PACKET_SIZE, at + 2 * PACKET_SIZE));
    }
}

/// The header of a CHIP packet: the signature `CHIP`, the packet length of
/// 8 208, chip type 2, the bank number, the load address and the data length
/// of 8 192, numbers with the high byte first.
pub proof fn lemma_chip_packet_layout(bank: int, load_address: u16, data: Seq<u8>)
    requires
        data.len() == 8192,
    ensures
        chip_packet(bank, load_address, data).len() == PACKET_SIZE,
        chip_packet(bank, load_address, data).subrange(0, 4) == seq![0x43u8, 0x48u8, 0x49u8, 0x50u8],
        chip_packet(bank, load_address, data).subrange(4, 8) == seq![0x00u8, 0x00u8, 0x20u8, 0x10u8],
        0x2010 == PACKET_SIZE,
        chip_packet(bank, load_address, data).subrange(8, 10) == seq![0x00u8, 0x02u8],
        chip_packet(bank, load_address, data).subrange(10, 12) == be16((bank % 65536) as u16),
        chip_packet(bank, load_address, data).subrange(12, 14) == be16(load_address),
        chip_packet(bank, load_address, data).subrange(14, 16) == seq![0x20u8, 0x00u8],
        chip_packet(bank, load_address, data).subrange(16, PACKET_SIZE as int) == data,
{
    let p = chip_packet(bank, load_address, data);
    assert(p.subrange(0, 4) =~= seq![0x43u8, 0x48u8, 0x49u8, 0x50u8]);
    assert(p.subrange(4, 8) =~= seq![0x00u8, 0x00u8, 0x20u8, 0x10u8]);
    assert(p.subrange(8, 10) =~= seq![0x00u8, 0x02u8]);
    assert(p.subrange(10, 12) =~= be16((bank % 65536) as u16));
    assert(p.subrange(12, 14) =~= be16(load_address));
    assert(p.subrange(14, 16) =~= seq![0x20u8, 0x00u8]);
    assert(p.subrange(16, PACKET_SIZE as int) =~= data);
}

/// A name of ASCII characters is stored with its lower-case letters in upper
/// case and its other characters as they are, one byte for each.
pub proof fn lemma_ascii_name_upper(name: Seq<char>, i: int)
    requires
        is_ascii_chars(name),
        0 <= i < name.len(),
    ensures
        is_ascii_chars(upper_name(name)),
        encode_utf8(upper_name(name)).len() == name.len(),
        encode_utf8(upper_name(name))[i] == ascii_upper(name[i]) as u8,
        'a' <= name[i] && name[i] <= 'z' ==> encode_utf8(upper_name(name))[i] == name[i] as u8
            - 32,
        !('a' <= name[i] && name[i] <= 'z') ==> encode_utf8(upper_name(name))[i] == name[i] as u8,
{
    let upper = upper_name(name);
    assert(is_ascii_chars(upper)) by {
        assert forall|j: int| 0 <= j < upper.len() implies '\0' <= #[trigger] upper[j]
            <= '\u{7f}' by {
            assert('\0' <= name[j] <= '\u{7f}');
        }
    }
    vstd::utf8::is_ascii_chars_encode_utf8(upper);
    assert(upper[i] == ascii_upper(name[i]));
}

} // verus!

verus! {

/// `VICE SNAPSHOT`, as bytes.
pub open spec fn default_name_bytes() -> Seq<u8> {
    seq![0x56u8, 0x49, 0x43, 0x45, 0x20, 0x53, 0x4E, 0x41, 0x50, 0x53, 0x48, 0x4F, 0x54]
}

/// A name of ASCII characters whose letters in upper case are `bytes` is
/// stored as `bytes`.
pub proof fn lemma_upper_name_bytes(name: Seq<char>, bytes: Seq<u8>)
    requires
        is_ascii_chars(name),
        bytes.len() == name.len(),
        forall|i: int| 0 <= i < name.len() ==> #[trigger] bytes[i] == ascii_upper(name[i]) as u8,
    ensures
        encode_utf8(upper_name(name)) == bytes,
{
    assert forall|i: int| 0 <= i < name.len() implies encode_utf8(upper_name(name))[i]
        == #[trigger] bytes[i] by {
        lemma_ascii_name_upper(name, i);
    }
    if name.len() > 0 {
        lemma_ascii_name_upper(name, 0);
    } else {
        assert(upper_name(name) =~= Seq::<char>::empty());
        assert(is_ascii_chars(upper_name(name)));
        vstd::utf8::is_ascii_chars_encode_utf8(upper_name(name));
    }
    assert(encode_utf8(upper_name(name)) =~= bytes);
}

/// A file whose name is `VICE SNAPSHOT` holds the name in bytes 32 to 44,
/// and zeros from there to the end of the header.
pub proof fn lemma_default_name_in_file(
    kind: CartridgeType,
    roml: Seq<Seq<u8>>,
    romh: Seq<Option<Seq<u8>>>,
)
    ensures
        crt_file(kind, default_name_bytes(), roml, romh).len() >= HEADER_SIZE,
        crt_file(kind, default_name_bytes(), roml, romh).subrange(32, 45) == default_name_bytes(),
        crt_file(kind, default_name_bytes(), roml, romh).subrange(45, 64) == repeat(0, 19),
{
    let name = default_name_bytes();
    let file = crt_file(kind, name, roml, romh);
    lemma_file_header_layout(kind, name);
    let header = file_header(kind, name);
    assert(file.subrange(0, 64) =~= header);
    assert(file.subrange(32, 64) =~= header.subrange(32, 64));
    assert(name.take(13) =~= name);
    assert(file.subrange(32, 45) =~= name_field(name).subrange(0, 13));
    assert(file.subrange(45, 64) =~= name_field(name).subrange(13, 32));
    assert(name_field(name).subrange(0, 13) =~= name);
    assert(name_field(name).subrange(13, 32) =~= repeat(0, 19));
}

} // verus!
