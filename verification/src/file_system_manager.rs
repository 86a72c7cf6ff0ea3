//! Files embedded in a cartridge.
//!
//! Loadable files are packed into the banks that the restore data leaves
//! free. A directory of 16-byte entries and a block of file names describe
//! where each file lies; both go into the high window of bank 0.

use vstd::prelude::*;
use vstd::string::*;
use vstd::utf8::*;
use crate::bytes::{copy_range, le16, repeat};
use crate::crt_builder::{missing_bank_message, CRTBuilder, BANK_SIZE_8K};
use crate::text::{decimal, decimal_chars};

verus! {

/// First address of the directory.
pub const METADATA_START: u16 = 0xB000;

/// Last address of the directory.
pub const METADATA_END: u16 = 0xB7FF;

/// First address of the file names.
pub const FILENAME_START: u16 = 0xB800;

/// Last address of the file names.
pub const FILENAME_END: u16 = 0xBFFF;

/// Most banks that one file may span.
pub const MAX_BANKS_PER_FILE: usize = 8;

/// Largest payload of a file.
pub const MAX_FILE_SIZE: usize = 65536;

/// Size of a directory entry.
pub const METADATA_ENTRY_SIZE: usize = 16;

/// Size of the directory, and of the block of file names.
pub const AREA_SIZE: usize = 2048;

/// A loadable file.
#[derive(Debug)]
pub struct PRGFile {
    pub filename: String,
    pub load_address: u16,
    pub data: Vec<u8>,
    pub total_size: usize,
}

/// Where a file lies in the cartridge.
#[derive(Debug)]
pub struct FileAllocation {
    pub file: PRGFile,
    pub banks: Vec<usize>,
    pub start_offset: usize,
    pub filename_offset: usize,
}

/// A loadable file as a spec value; the name as its bytes.
pub struct FileView {
    pub filename: Seq<u8>,
    pub load_address: u16,
    pub data: Seq<u8>,
    pub total_size: usize,
}

/// The place of a file as a spec value.
pub struct AllocationView {
    pub file: FileView,
    pub banks: Seq<usize>,
    pub start_offset: usize,
    pub filename_offset: usize,
}

impl View for PRGFile {
    type V = FileView;

    open spec fn view(&self) -> FileView {
        FileView {
            filename: encode_utf8(self.filename@),
            load_address: self.load_address,
            data: self.data@,
            total_size: self.total_size,
        }
    }
}

impl View for FileAllocation {
    type V = AllocationView;

    open spec fn view(&self) -> AllocationView {
        AllocationView {
            file: self.file@,
            banks: self.banks@,
            start_offset: self.start_offset,
            filename_offset: self.filename_offset,
        }
    }
}

/// The views of a list of allocations.
pub open spec fn allocation_views(allocations: Seq<FileAllocation>) -> Seq<AllocationView> {
    Seq::new(allocations.len(), |i: int| allocations[i]@)
}

/// An ASCII letter in lower case; any other byte as it is.
pub open spec fn ascii_lower(b: u8) -> u8 {
    if 0x41 <= b <= 0x5A {
        (b + 0x20) as u8
    } else {
        b
    }
}

/// The name ends in `.prg`, in any mix of cases, and holds more than that.
pub open spec fn has_prg_extension(name: Seq<u8>) -> bool {
    &&& name.len() > 4
    &&& name[name.len() - 4] == 0x2E
    &&& ascii_lower(name[name.len() - 3]) == 0x70
    &&& ascii_lower(name[name.len() - 2]) == 0x72
    &&& ascii_lower(name[name.len() - 1]) == 0x67
}

/// The name without its `.prg` extension.
pub open spec fn stripped(name: Seq<u8>) -> Seq<u8> {
    if has_prg_extension(name) {
        name.take(name.len() - 4)
    } else {
        name
    }
}

/// A byte of ASCII text in the target's upper-case character set: `a..=z`
/// become `A..=Z`, everything else stays.
pub open spec fn petscii(b: u8) -> u8 {
    if 0x61 <= b <= 0x7A {
        (b - 0x20) as u8
    } else {
        b
    }
}

/// A file name as it is stored: without extension, in upper case, and with a
/// zero at its end.
pub open spec fn stored_name(name: Seq<u8>) -> Seq<u8> {
    stripped(name).map_values(|b: u8| petscii(b)).push(0)
}

/// The stored names of the first `k` files, one after the other.
pub open spec fn stored_names(allocations: Seq<AllocationView>, k: int) -> Seq<u8>
    decreases k,
{
    if k <= 0 {
        Seq::empty()
    } else {
        stored_names(allocations, k - 1) + stored_name(allocations[k - 1].file.filename)
    }
}

/// The bank list of a directory entry: up to eight bank numbers, then zeros.
pub open spec fn bank_list(banks: Seq<usize>) -> Seq<u8> {
    Seq::new(
        8,
        |i: int|
            if i < banks.len() {
                (banks[i] % 256) as u8
            } else {
                0u8
            },
    )
}

/// The directory entry of a file: the address of its name, its banks, the
/// offset in its first bank, its length and its load address.
pub open spec fn metadata_entry(a: AllocationView) -> Seq<u8> {
    le16(((FILENAME_START + a.filename_offset) % 65536) as u16) + bank_list(a.banks) + le16(
        (a.start_offset % 65536) as u16,
    ) + le16((a.file.data.len() % 65536) as u16) + le16(a.file.load_address)
}

/// The directory entries of the first `k` files.
pub open spec fn metadata_entries(allocations: Seq<AllocationView>, k: int) -> Seq<u8>
    decreases k,
{
    if k <= 0 {
        Seq::empty()
    } else {
        metadata_entries(allocations, k - 1) + metadata_entry(allocations[k - 1])
    }
}

/// The message for a file of fewer than two bytes.
pub open spec fn too_small_message(path: Seq<char>, len: nat) -> Seq<char> {
    "PRG file too small: "@ + path + " ("@ + decimal_chars(len) + " bytes)"@
}

/// The message for a file with a payload of more than 64 KiB.
pub open spec fn too_large_message(path: Seq<char>, len: nat) -> Seq<char> {
    "File too large: "@ + path + " ("@ + decimal_chars(len) + " bytes, max 65536)"@
}

/// Whether a file of this name is a program file to embed: the name ends in
/// `.prg`, in any mix of cases, and holds more than that.
pub fn is_prg_name(filename: &[u8]) -> (r: bool)
    ensures
        r == has_prg_extension(filename@),
{
    let n = filename.len();
    n > 4 && filename[n - 4] == 0x2E && to_lower(filename[n - 3]) == 0x70 && to_lower(
        filename[n - 2],
    ) == 0x72 && to_lower(filename[n - 1]) == 0x67
}

/// Strips the `.prg` extension, in any mix of cases, from a file name.
pub fn strip_prg_extension(filename: &[u8]) -> (r: &[u8])
    ensures
        r@ == stripped(filename@),
{
    if is_prg_name(filename) {
        vstd::slice::slice_subrange(filename, 0, filename.len() - 4)
    } else {
        filename
    }
}

/// An ASCII letter in lower case; any other byte as it is.
fn to_lower(b: u8) -> (r: u8)
    ensures
        r == ascii_lower(b),
{
    if 0x41 <= b && b <= 0x5A {
        b + 0x20
    } else {
        b
    }
}

/// Converts a byte of ASCII text to the target's upper-case character set.
pub fn ascii_to_petscii(ascii: u8) -> (r: u8)
    ensures
        r == petscii(ascii),
{
    if 0x61 <= ascii && ascii <= 0x7A {
        ascii - 0x20
    } else {
        ascii
    }
}

/// Appends the stored form of a file name to `out`.
fn append_stored_name(out: &mut Vec<u8>, filename: &[u8])
    ensures
        final(out)@ == old(out)@ + stored_name(filename@),
{
    let name = strip_prg_extension(filename);
    let mut i: usize = 0;
    while i < name.len()
        invariant
            0 <= i <= name@.len(),
            out@ == old(out)@ + name@.take(i as int).map_values(|b: u8| petscii(b)),
        decreases name@.len() - i,
    {
        out.push(ascii_to_petscii(name[i]));
        assert(out@ =~= old(out)@ + name@.take(i + 1).map_values(|b: u8| petscii(b)));
        i += 1;
    }
    out.push(0x00);
    assert(name@.take(name@.len() as int) =~= name@);
    assert(out@ =~= old(out)@ + stored_name(filename@));
}

/// Manages the files of one include directory.
pub struct FileSystemManager {
    include_dir: String,
}

impl FileSystemManager {
    /// The directory that the files come from.
    pub closed spec fn directory(&self) -> Seq<char> {
        self.include_dir@
    }

    /// A manager for the files of `include_dir`.
    pub fn new(include_dir: &str) -> (r: Self)
        ensures
            r.directory() == include_dir@,
    {
        FileSystemManager { include_dir: String::from_str(include_dir) }
    }

    /// The directory that the files come from.
    pub fn include_dir(&self) -> (r: &str)
        ensures
            r@ == self.directory(),
    {
        self.include_dir.as_str()
    }

    /// Decodes a file: a load address of two bytes, low byte first, then the
    /// payload. `path` is how messages name the file, `filename` its name
    /// in the directory.
    pub fn parse_prg_file(&self, path: &str, filename: &str, bytes: &[u8]) -> (r: Result<
        PRGFile,
        String,
    >)
        ensures
            bytes@.len() < 2 ==> (r matches Err(m) && m@ == too_small_message(
                path@,
                bytes@.len(),
            )),
            bytes@.len() >= 2 && bytes@.len() - 2 > MAX_FILE_SIZE ==> (r matches Err(m) && m@
                == too_large_message(path@, (bytes@.len() - 2) as nat)),
            2 <= bytes@.len() <= MAX_FILE_SIZE + 2 ==> (r matches Ok(f) && f.filename@
                == filename@ && f.load_address == bytes@[0] as int + 256 * bytes@[1] as int
                && f.data@ == bytes@.subrange(2, bytes@.len() as int) && f.total_size
                == bytes@.len()),
    {
        if bytes.len() < 2 {
            let mut m = String::from_str("PRG file too small: ");
            m.append(path);
            m.append(" (");
            m.append(decimal(bytes.len()).as_str());
            m.append(" bytes)");
            return Err(m);
        }
        let load_address: u16 = bytes[0] as u16 + 256 * (bytes[1] as u16);
        if bytes.len() - 2 > MAX_FILE_SIZE {
            let mut m = String::from_str("File too large: ");
            m.append(path);
            m.append(" (");
            m.append(decimal(bytes.len() - 2).as_str());
            m.append(" bytes, max 65536)");
            return Err(m);
        }
        Ok(
            PRGFile {
                filename: String::from_str(filename),
                load_address,
                data: copy_range(bytes, 2, bytes.len()),
                total_size: bytes.len(),
            },
        )
    }

    /// The directory: one entry of 16 bytes for each file, in order, then
    /// zeros up to 2 048 bytes. Fails if there are more than 128 files.
    pub fn generate_metadata(&self, allocations: &[FileAllocation]) -> (r: Result<Vec<u8>, String>)
        ensures
            allocations@.len() > 128 ==> (r matches Err(m) && m@
                == "Too many files - metadata area full"@),
            allocations@.len() <= 128 ==> (r matches Ok(v) && v@ == metadata_entries(
                allocation_views(allocations@),
                allocations@.len() as int,
            ) + repeat(0, (AREA_SIZE - 16 * allocations@.len()) as nat)),
    {
        if allocations.len() > 128 {
            return Err(String::from_str("Too many files - metadata area full"));
        }
        let ghost views = allocation_views(allocations@);
        let mut metadata: Vec<u8> = Vec::new();
        let mut k: usize = 0;
        while k < allocations.len()
            invariant
                0 <= k <= allocations@.len() <= 128,
                views == allocation_views(allocations@),
                metadata@ == metadata_entries(views, k as int),
                metadata@.len() == 16 * k,
            decreases allocations@.len() - k,
        {
            let allocation = &allocations[k];
            let ghost before = metadata@;
            let filename_ptr: usize = (FILENAME_START as usize + allocation.filename_offset % 65536)
                % 65536;
            assert(filename_ptr == (FILENAME_START + allocation.filename_offset) % 65536);
            metadata.push((filename_ptr % 256) as u8);
            metadata.push((filename_ptr / 256) as u8);
            let mut i: usize = 0;
            while i < MAX_BANKS_PER_FILE
                invariant
                    0 <= i <= 8,
                    metadata@ == before + le16(filename_ptr as u16) + bank_list(
                        allocation.banks@,
                    ).take(i as int),
                decreases 8 - i,
            {
                if i < allocation.banks.len() {
                    metadata.push((allocation.banks[i] % 256) as u8);
                } else {
                    metadata.push(0x00);
                }
                assert(metadata@ =~= before + le16(filename_ptr as u16) + bank_list(
                    allocation.banks@,
                ).take(i + 1));
                i += 1;
            }
            assert(bank_list(allocation.banks@).take(8) =~= bank_list(allocation.banks@));
            let start = allocation.start_offset % 65536;
            metadata.push((start % 256) as u8);
            metadata.push((start / 256) as u8);
            let file_len = allocation.file.data.len() % 65536;
            metadata.push((file_len % 256) as u8);
            metadata.push((file_len / 256) as u8);
            metadata.push((allocation.file.load_address % 256) as u8);
            metadata.push((allocation.file.load_address / 256) as u8);
            assert(views[k as int] == allocation@);
            assert(metadata@ =~= before + metadata_entry(allocation@));
            k += 1;
        }
        let ghost entries = metadata@;
        while metadata.len() < AREA_SIZE
            invariant
                entries.len() <= metadata@.len() <= AREA_SIZE,
                metadata@ == entries + repeat(0, (metadata@.len() - entries.len()) as nat),
            decreases AREA_SIZE - metadata@.len(),
        {
            metadata.push(0x00);
            assert(metadata@ =~= entries + repeat(0, (metadata@.len() - entries.len()) as nat));
        }
        Ok(metadata)
    }

    /// The block of file names: the stored name of each file, in order, then
    /// zeros up to 2 048 bytes. Fails if the names do not fit.
    pub fn generate_filenames(&self, allocations: &[FileAllocation]) -> (r: Result<Vec<u8>, String>)
        ensures
            stored_names(allocation_views(allocations@), allocations@.len() as int).len()
                > AREA_SIZE ==> (r matches Err(m) && m@ == "Filename area full"@),
            stored_names(allocation_views(allocations@), allocations@.len() as int).len()
                <= AREA_SIZE ==> (r matches Ok(v) && v@ == stored_names(
                allocation_views(allocations@),
                allocations@.len() as int,
            ) + repeat(
                0,
                (AREA_SIZE - stored_names(
                    allocation_views(allocations@),
                    allocations@.len() as int,
                ).len()) as nat,
            )),
    {
        let ghost views = allocation_views(allocations@);
        let mut filenames: Vec<u8> = Vec::new();
        let mut k: usize = 0;
        while k < allocations.len()
            invariant
                0 <= k <= allocations@.len(),
                views == allocation_views(allocations@),
                filenames@ == stored_names(views, k as int),
                filenames@.len() <= AREA_SIZE,
            decreases allocations@.len() - k,
        {
            let allocation = &allocations[k];
            assert(views[k as int] == allocation@);
            append_stored_name(&mut filenames, allocation.file.filename.as_str().as_bytes());
            if filenames.len() > AREA_SIZE {
                proof {
                    lemma_stored_names_grow(views, k + 1, allocations@.len() as int);
                }
                return Err(String::from_str("Filename area full"));
            }
            k += 1;
        }
        let ghost names = filenames@;
        while filenames.len() < AREA_SIZE
            invariant
                names.len() <= filenames@.len() <= AREA_SIZE,
                filenames@ == names + repeat(0, (filenames@.len() - names.len()) as nat),
            decreases AREA_SIZE - filenames@.len(),
        {
            filenames.push(0x00);
            assert(filenames@ =~= names + repeat(0, (filenames@.len() - names.len()) as nat));
        }
        Ok(filenames)
    }
}

/// The block of names only grows with more files.
pub proof fn lemma_stored_names_grow(allocations: Seq<AllocationView>, j: int, k: int)
    requires
        0 <= j <= k,
    ensures
        stored_names(allocations, j).len() <= stored_names(allocations, k).len(),
    decreases k - j,
{
    if j < k {
        lemma_stored_names_grow(allocations, j, k - 1);
    }
}

} // verus!

verus! {

broadcast use vstd::std_specs::hash::group_hash_axioms;

/// Why a file could not be placed.
pub enum PlaceError {
    /// No bank is left to start or continue the file in.
    NoBanks,
    /// The file would span more than eight banks.
    TooLarge,
}

/// Where a file was placed.
pub struct Placement {
    pub banks: Seq<usize>,
    pub start_offset: usize,
}

/// Bank `b` is among the banks for files, holds file data already, and has
/// room left.
pub open spec fn is_open(usage: Map<usize, usize>, available: Seq<usize>, b: usize) -> bool {
    available.contains(b) && usage.contains_key(b) && usage[b] < BANK_SIZE_8K
}

/// Bank `b` is the open bank with the smallest number.
pub open spec fn is_first_open(usage: Map<usize, usize>, available: Seq<usize>, b: usize) -> bool {
    &&& is_open(usage, available, b)
    &&& forall|c: usize| #[trigger] is_open(usage, available, c) ==> b <= c
}

/// The open bank with the smallest number, if there is an open bank.
pub open spec fn first_open(usage: Map<usize, usize>, available: Seq<usize>) -> Option<usize> {
    if exists|b: usize| is_first_open(usage, available, b) {
        Some(choose|b: usize| is_first_open(usage, available, b))
    } else {
        None
    }
}

/// Index in `available`, at or after `from`, of the first bank that holds no
/// file data yet; the length of `available` if there is none.
pub open spec fn unused_index(usage: Map<usize, usize>, available: Seq<usize>, from: int) -> int
    decreases available.len() - from,
{
    if from < 0 || from >= available.len() {
        available.len() as int
    } else if !usage.contains_key(available[from]) {
        from
    } else {
        unused_index(usage, available, from + 1)
    }
}

/// The smaller of two numbers.
pub open spec fn min_nat(a: nat, b: nat) -> nat {
    if a <= b {
        a
    } else {
        b
    }
}

/// Continues a file whose first banks are `banks` and of which `remaining`
/// bytes are not placed yet: each further bank is the first unused one and
/// takes up to 8 192 bytes.
pub open spec fn spill(
    usage: Map<usize, usize>,
    available: Seq<usize>,
    banks: Seq<usize>,
    remaining: nat,
) -> Result<(Seq<usize>, Map<usize, usize>), PlaceError>
    decreases MAX_BANKS_PER_FILE - banks.len(),
{
    if remaining == 0 {
        Ok((banks, usage))
    } else if banks.len() >= MAX_BANKS_PER_FILE {
        Err(PlaceError::TooLarge)
    } else {
        let i = unused_index(usage, available, 0);
        if i >= available.len() {
            Err(PlaceError::NoBanks)
        } else {
            let chunk = min_nat(remaining, BANK_SIZE_8K as nat);
            spill(
                usage.insert(available[i], chunk as usize),
                available,
                banks.push(available[i]),
                (remaining - chunk) as nat,
            )
        }
    }
}

/// Places a file of `size` bytes. It starts at the end of the data in the
/// open bank with the smallest number, or, where no bank is open, at the
/// start of the first unused bank, and spills into further unused banks.
pub open spec fn place(usage: Map<usize, usize>, available: Seq<usize>, size: nat) -> Result<
    (Placement, Map<usize, usize>),
    PlaceError,
> {
    let start_bank: Option<(usize, Map<usize, usize>)> = match first_open(usage, available) {
        Some(b) => Some((b, usage)),
        None => {
            let i = unused_index(usage, available, 0);
            if i >= available.len() {
                None
            } else {
                Some((available[i], usage.insert(available[i], 0)))
            }
        },
    };
    match start_bank {
        None => Err(PlaceError::NoBanks),
        Some((bank, used)) => {
            let start = used[bank];
            let space = (BANK_SIZE_8K - start) as nat;
            if size <= space {
                Ok(
                    (
                        Placement { banks: seq![bank], start_offset: start },
                        used.insert(bank, (start + size) as usize),
                    ),
                )
            } else {
                match spill(
                    used.insert(bank, BANK_SIZE_8K),
                    available,
                    seq![bank],
                    (size - space) as nat,
                ) {
                    Ok((banks, after)) => Ok((Placement { banks, start_offset: start }, after)),
                    Err(e) => Err(e),
                }
            }
        },
    }
}

/// The message for a file that could not be placed.
pub open spec fn place_error_message(e: PlaceError, filename: Seq<char>) -> Seq<char> {
    match e {
        PlaceError::NoBanks => "No more banks available for file: "@ + filename,
        PlaceError::TooLarge => "File too large to fit in 8 banks: "@ + filename,
    }
}

/// The state after the first `k` files were placed: their places, the bytes
/// used in each bank, and the offset of the next file name; or the message
/// for the first file that could not be placed.
pub open spec fn place_all(files: Seq<PRGFile>, available: Seq<usize>, k: int) -> Result<
    (Seq<AllocationView>, Map<usize, usize>, nat),
    Seq<char>,
>
    decreases k,
{
    if k <= 0 {
        Ok((Seq::empty(), Map::empty(), 0))
    } else {
        match place_all(files, available, k - 1) {
            Err(e) => Err(e),
            Ok((done, usage, name_offset)) => {
                let file = files[k - 1];
                match place(usage, available, file.data@.len()) {
                    Err(e) => Err(place_error_message(e, file.filename@)),
                    Ok((placement, after)) => Ok(
                        (
                            done.push(
                                AllocationView {
                                    file: file@,
                                    banks: placement.banks,
                                    start_offset: placement.start_offset,
                                    filename_offset: name_offset as usize,
                                },
                            ),
                            after,
                            name_offset + stripped(file@.filename).len() + 1,
                        ),
                    ),
                }
            },
        }
    }
}

/// The length of the stored names of the first `k` files.
pub open spec fn names_length(files: Seq<PRGFile>, k: int) -> nat
    decreases k,
{
    if k <= 0 {
        0
    } else {
        names_length(files, k - 1) + stripped(files[k - 1]@.filename).len() + 1
    }
}

/// The banks that hold data of the first `k` files.
pub open spec fn allocated_banks(allocations: Seq<AllocationView>, k: int) -> Set<usize>
    decreases k,
{
    if k <= 0 {
        Set::empty()
    } else {
        allocated_banks(allocations, k - 1).union(allocations[k - 1].banks.to_set())
    }
}

/// A copy of a file.
fn clone_file(file: &PRGFile) -> (r: PRGFile)
    ensures
        r@ == file@,
        r.filename@ == file.filename@,
{
    let data = copy_range(file.data.as_slice(), 0, file.data.len());
    assert(data@ =~= file.data@);
    PRGFile {
        filename: file.filename.clone(),
        load_address: file.load_address,
        data,
        total_size: file.total_size,
    }
}

/// The open bank with the smallest number.
fn find_first_open(bank_usage: &std::collections::HashMap<usize, usize>, available_banks: &[usize]) -> (r:
    Option<usize>)
    ensures
        r == first_open(bank_usage@, available_banks@),
{
    let mut best: Option<usize> = None;
    let mut i: usize = 0;
    while i < available_banks.len()
        invariant
            0 <= i <= available_banks@.len(),
            best matches Some(b) ==> is_open(bank_usage@, available_banks@, b),
            forall|j: int|
                0 <= j < i && is_open(bank_usage@, available_banks@, #[trigger] available_banks@[j])
                    ==> (best matches Some(b) && b <= available_banks@[j]),
        decreases available_banks@.len() - i,
    {
        let bank = available_banks[i];
        let open = match bank_usage.get(&bank) {
            Some(used) => *used < BANK_SIZE_8K,
            None => false,
        };
        if open {
            assert(available_banks@.contains(bank));
            match best {
                Some(b) => {
                    if bank < b {
                        best = Some(bank);
                    }
                },
                None => {
                    best = Some(bank);
                },
            }
        }
        i += 1;
    }
    proof {
        match best {
            Some(b) => {
                assert forall|c: usize| #[trigger]
                    is_open(bank_usage@, available_banks@, c) implies b <= c by {
                    let j = choose|j: int|
                        0 <= j < available_banks@.len() && available_banks@[j] == c;
                    assert(is_open(bank_usage@, available_banks@, available_banks@[j]));
                }
                assert(is_first_open(bank_usage@, available_banks@, b));
                let chosen = choose|c: usize| is_first_open(bank_usage@, available_banks@, c);
                assert(is_open(bank_usage@, available_banks@, chosen));
                assert(is_open(bank_usage@, available_banks@, b));
            },
            None => {
                assert forall|c: usize| !is_first_open(bank_usage@, available_banks@, c) by {
                    if is_open(bank_usage@, available_banks@, c) {
                        let j = choose|j: int|
                            0 <= j < available_banks@.len() && available_banks@[j] == c;
                        assert(is_open(bank_usage@, available_banks@, available_banks@[j]));
                    }
                }
            },
        }
    }
    best
}

/// The first bank that holds no file data yet.
fn find_unused(bank_usage: &std::collections::HashMap<usize, usize>, available_banks: &[usize]) -> (r:
    Option<usize>)
    ensures
        match r {
            Some(b) => unused_index(bank_usage@, available_banks@, 0) < available_banks@.len() && b
                == available_banks@[unused_index(bank_usage@, available_banks@, 0)],
            None => unused_index(bank_usage@, available_banks@, 0) >= available_banks@.len(),
        },
{
    let mut i: usize = 0;
    while i < available_banks.len()
        invariant
            0 <= i <= available_banks@.len(),
            unused_index(bank_usage@, available_banks@, 0) == unused_index(
                bank_usage@,
                available_banks@,
                i as int,
            ),
        decreases available_banks@.len() - i,
    {
        let bank = available_banks[i];
        if !bank_usage.contains_key(&bank) {
            return Some(bank);
        }
        i += 1;
    }
    None
}

/// The error for a file that could not be placed.
fn place_error(e: PlaceError, filename: &str) -> (m: String)
    ensures
        m@ == place_error_message(e, filename@),
{
    match e {
        PlaceError::NoBanks => String::from_str("No more banks available for file: ").concat(
            filename,
        ),
        PlaceError::TooLarge => String::from_str("File too large to fit in 8 banks: ").concat(
            filename,
        ),
    }
}

impl FileSystemManager {
    /// Places one file in the banks of `available_banks`, given the bytes
    /// that `bank_usage` says are used in each bank.
    pub fn allocate_file(
        &self,
        file: &PRGFile,
        bank_usage: &mut std::collections::HashMap<usize, usize>,
        filename_offset: usize,
        available_banks: &[usize],
    ) -> (r: Result<FileAllocation, String>)
        ensures
            match place(old(bank_usage)@, available_banks@, file.data@.len()) {
                Ok((placement, after)) => {
                    &&& r matches Ok(a)
                    &&& a@ == (AllocationView {
                        file: file@,
                        banks: placement.banks,
                        start_offset: placement.start_offset,
                        filename_offset,
                    })
                    &&& final(bank_usage)@ == after
                },
                Err(e) => r matches Err(m) && m@ == place_error_message(e, file.filename@),
            },
            r matches Ok(a) ==> a.start_offset < BANK_SIZE_8K,
    {
        let file_size = file.data.len();
        let current_bank = match find_first_open(bank_usage, available_banks) {
            Some(bank) => bank,
            None => {
                match find_unused(bank_usage, available_banks) {
                    Some(bank) => {
                        bank_usage.insert(bank, 0);
                        bank
                    },
                    None => {
                        return Err(place_error(PlaceError::NoBanks, file.filename.as_str()));
                    },
                }
            },
        };
        let start_offset: usize = match bank_usage.get(&current_bank) {
            Some(used) => *used,
            None => 0,
        };
        let mut banks: Vec<usize> = Vec::new();
        banks.push(current_bank);
        assert(banks@ =~= seq![current_bank]);
        let space_in_bank = BANK_SIZE_8K - start_offset;
        if file_size <= space_in_bank {
            bank_usage.insert(current_bank, start_offset + file_size);
        } else {
            bank_usage.insert(current_bank, BANK_SIZE_8K);
            let mut remaining_size = file_size - space_in_bank;
            let ghost target = spill(bank_usage@, available_banks@, banks@, remaining_size as nat);
            while remaining_size > 0 && banks.len() < MAX_BANKS_PER_FILE
                invariant
                    banks@.len() <= MAX_BANKS_PER_FILE,
                    spill(bank_usage@, available_banks@, banks@, remaining_size as nat) == target,
                    place(old(bank_usage)@, available_banks@, file.data@.len()) == match target {
                        Ok((banks, after)) => Ok::<(Placement, Map<usize, usize>), PlaceError>(
                            (Placement { banks, start_offset }, after),
                        ),
                        Err(e) => Err(e),
                    },
                decreases MAX_BANKS_PER_FILE - banks@.len(),
            {
                match find_unused(bank_usage, available_banks) {
                    Some(next_bank) => {
                        banks.push(next_bank);
                        let chunk_size = if remaining_size < BANK_SIZE_8K {
                            remaining_size
                        } else {
                            BANK_SIZE_8K
                        };
                        bank_usage.insert(next_bank, chunk_size);
                        remaining_size -= chunk_size;
                    },
                    None => {
                        return Err(place_error(PlaceError::NoBanks, file.filename.as_str()));
                    },
                }
            }
            if remaining_size > 0 {
                return Err(place_error(PlaceError::TooLarge, file.filename.as_str()));
            }
        }
        Ok(FileAllocation { file: clone_file(file), banks, start_offset, filename_offset })
    }

    /// Places the files, in order, in the banks of `unused_banks`, and gives
    /// each the offset of its name in the block of file names.
    pub fn allocate_files(&self, files: &[PRGFile], unused_banks: &[usize]) -> (r: Result<
        Vec<FileAllocation>,
        String,
    >)
        requires
            names_length(files@, files@.len() as int) <= usize::MAX,
        ensures
            match place_all(files@, unused_banks@, files@.len() as int) {
                Ok((placed, _, _)) => r matches Ok(v) && allocation_views(v@) == placed,
                Err(e) => r matches Err(m) && m@ == e,
            },
            r matches Ok(v) ==> forall|i: int|
                0 <= i < v@.len() ==> (#[trigger] v@[i]).start_offset <= BANK_SIZE_8K,
    {
        let mut allocations: Vec<FileAllocation> = Vec::new();
        let mut bank_usage: std::collections::HashMap<usize, usize> =
            std::collections::HashMap::new();
        let mut filename_offset: usize = 0;
        let mut k: usize = 0;
        assert(allocation_views(allocations@) =~= Seq::empty());
        assert(bank_usage@ =~= Map::empty());
        while k < files.len()
            invariant
                0 <= k <= files@.len(),
                names_length(files@, files@.len() as int) <= usize::MAX,
                forall|i: int|
                    0 <= i < allocations@.len() ==> (#[trigger] allocations@[i]).start_offset
                        <= BANK_SIZE_8K,
                filename_offset == names_length(files@, k as int),
                place_all(files@, unused_banks@, k as int) == Ok::<
                    (Seq<AllocationView>, Map<usize, usize>, nat),
                    Seq<char>,
                >((allocation_views(allocations@), bank_usage@, filename_offset as nat)),
            decreases files@.len() - k,
        {
            let file = &files[k];
            proof {
                lemma_names_length_grows(files@, k + 1, files@.len() as int);
            }
            match self.allocate_file(file, &mut bank_usage, filename_offset, unused_banks) {
                Ok(allocation) => {
                    let ghost before = allocation_views(allocations@);
                    let stripped_name = strip_prg_extension(file.filename.as_str().as_bytes());
                    filename_offset = filename_offset + stripped_name.len() + 1;
                    allocations.push(allocation);
                    assert(allocation_views(allocations@) =~= before.push(allocation@));
                },
                Err(e) => {
                    proof {
                        lemma_place_all_stays_failed(
                            files@,
                            unused_banks@,
                            k + 1,
                            files@.len() as int,
                        );
                    }
                    return Err(e);
                },
            }
            k += 1;
        }
        Ok(allocations)
    }

    /// The set of all banks that hold file data.
    pub fn get_allocated_banks(&self, allocations: &[FileAllocation]) -> (r:
        std::collections::HashSet<usize>)
        ensures
            r@ == allocated_banks(allocation_views(allocations@), allocations@.len() as int),
    {
        let ghost views = allocation_views(allocations@);
        let mut banks: std::collections::HashSet<usize> = std::collections::HashSet::new();
        let mut k: usize = 0;
        assert(banks@ =~= Set::empty());
        while k < allocations.len()
            invariant
                0 <= k <= allocations@.len(),
                views == allocation_views(allocations@),
                banks@ == allocated_banks(views, k as int),
            decreases allocations@.len() - k,
        {
            let allocation = &allocations[k];
            assert(views[k as int] == allocation@);
            let ghost before = banks@;
            let mut i: usize = 0;
            while i < allocation.banks.len()
                invariant
                    0 <= i <= allocation.banks@.len(),
                    banks@ == before.union(allocation.banks@.take(i as int).to_set()),
                decreases allocation.banks@.len() - i,
            {
                banks.insert(allocation.banks[i]);
                assert(allocation.banks@.take(i + 1) =~= allocation.banks@.take(i as int).push(
                    allocation.banks@[i as int],
                ));
                assert(allocation.banks@.take(i + 1).to_set() =~= allocation.banks@.take(
                    i as int,
                ).to_set().insert(allocation.banks@[i as int])) by {
                    vstd::seq_lib::seq_to_set_is_finite(allocation.banks@.take(i as int));
                    lemma_push_to_set(allocation.banks@.take(i as int), allocation.banks@[i as int]);
                }
                assert(banks@ =~= before.union(allocation.banks@.take(i + 1).to_set()));
                i += 1;
            }
            assert(allocation.banks@.take(allocation.banks@.len() as int) =~= allocation.banks@);
            k += 1;
        }
        banks
    }

    /// The largest bank number that holds file data, if any bank does.
    pub fn last_allocated_bank(&self, allocations: &[FileAllocation]) -> (r: Option<usize>)
        ensures
            match r {
                Some(b) => allocated_banks(
                    allocation_views(allocations@),
                    allocations@.len() as int,
                ).contains(b) && forall|c: usize|
                    allocated_banks(
                        allocation_views(allocations@),
                        allocations@.len() as int,
                    ).contains(c) ==> c <= b,
                None => allocated_banks(
                    allocation_views(allocations@),
                    allocations@.len() as int,
                ) == Set::<usize>::empty(),
            },
    {
        let ghost views = allocation_views(allocations@);
        let mut best: Option<usize> = None;
        let mut k: usize = 0;
        while k < allocations.len()
            invariant
                0 <= k <= allocations@.len(),
                views == allocation_views(allocations@),
                best matches Some(b) ==> allocated_banks(views, k as int).contains(b),
                forall|c: usize| #[trigger]
                    allocated_banks(views, k as int).contains(c) ==> (best matches Some(b) && c
                        <= b),
            decreases allocations@.len() - k,
        {
            let allocation = &allocations[k];
            assert(views[k as int] == allocation@);
            let ghost before = allocated_banks(views, k as int);
            let ghost banks = allocation.banks@;
            let mut i: usize = 0;
            while i < allocation.banks.len()
                invariant
                    0 <= i <= banks.len(),
                    banks == allocation.banks@,
                    best matches Some(b) ==> (before.contains(b) || exists|j: int|
                        0 <= j < i && banks[j] == b),
                    forall|c: usize| before.contains(c) ==> (best matches Some(b) && c <= b),
                    forall|j: int| 0 <= j < i ==> (best matches Some(b) && #[trigger] banks[j] <= b),
                decreases banks.len() - i,
            {
                let bank = allocation.banks[i];
                match best {
                    Some(b) => {
                        if bank > b {
                            best = Some(bank);
                        }
                    },
                    None => {
                        best = Some(bank);
                    },
                }
                i += 1;
            }
            proof {
                assert(allocated_banks(views, k + 1) =~= before.union(banks.to_set()));
                assert forall|c: usize| #[trigger]
                    allocated_banks(views, k + 1).contains(c) implies (best matches Some(b) && c
                    <= b) by {
                    if !before.contains(c) {
                        assert(banks.contains(c));
                        let j = choose|j: int| 0 <= j < banks.len() && banks[j] == c;
                        assert(banks[j] == c);
                    }
                }
                match best {
                    Some(b) => {
                        if !before.contains(b) {
                            let j = choose|j: int| 0 <= j < banks.len() && banks[j] == b;
                            assert(banks.contains(b));
                        }
                    },
                    None => {},
                }
            }
            k += 1;
        }
        proof {
            if best is None {
                assert(allocated_banks(views, allocations@.len() as int) =~= Set::<usize>::empty());
            }
        }
        best
    }
}

/// The set of a sequence with one more element.
proof fn lemma_push_to_set(s: Seq<usize>, x: usize)
    ensures
        s.push(x).to_set() =~= s.to_set().insert(x),
{
    assert forall|y: usize| s.push(x).to_set().contains(y) <==> s.to_set().insert(x).contains(
        y,
    ) by {
        if s.push(x).contains(y) {
            let j = choose|j: int| 0 <= j < s.push(x).len() && s.push(x)[j] == y;
            if j < s.len() {
                assert(s[j] == y);
            }
        }
        if s.contains(y) {
            let j = choose|j: int| 0 <= j < s.len() && s[j] == y;
            assert(s.push(x)[j] == y);
        }
        if y == x {
            assert(s.push(x)[s.len() as int] == x);
        }
    }
}

/// The length of the names only grows with more files.
pub proof fn lemma_names_length_grows(files: Seq<PRGFile>, j: int, k: int)
    requires
        0 <= j <= k,
    ensures
        names_length(files, j) <= names_length(files, k),
    decreases k - j,
{
    if j < k {
        lemma_names_length_grows(files, j, k - 1);
    }
}

/// Once a file could not be placed, the message stays.
pub proof fn lemma_place_all_stays_failed(files: Seq<PRGFile>, available: Seq<usize>, j: int, k: int)
    requires
        0 <= j <= k,
        place_all(files, available, j) is Err,
    ensures
        place_all(files, available, k) == place_all(files, available, j),
    decreases k - j,
{
    if j < k {
        lemma_place_all_stays_failed(files, available, j, k - 1);
    }
}

} // verus!

verus! {

/// Offset in its bank at which the part of a file in its bank number `j`
/// begins: the start offset in the first bank, 0 in the others.
pub open spec fn bank_offset(a: AllocationView, j: int) -> int {
    if j == 0 {
        a.start_offset as int
    } else {
        0
    }
}

/// Offset in the payload at which the part for bank number `j` begins. Each
/// bank takes what is left of the payload, up to the end of the bank.
pub open spec fn chunk_start(a: AllocationView, j: int) -> int
    decreases j,
{
    if j <= 0 {
        0
    } else {
        let start = chunk_start(a, j - 1);
        let left = a.file.data.len() - start;
        let room = BANK_SIZE_8K - bank_offset(a, j - 1);
        start + if left < room {
            left
        } else {
            room
        }
    }
}

/// The low windows after the parts of a file for its first `j` banks were
/// written, and the first bank that was found missing, if one was.
pub open spec fn write_file(roml: Seq<Seq<u8>>, a: AllocationView, j: int) -> (
    Seq<Seq<u8>>,
    Option<usize>,
)
    decreases j,
{
    if j <= 0 {
        (roml, None)
    } else {
        let (prev, failed) = write_file(roml, a, j - 1);
        let bank = a.banks[j - 1];
        if failed is Some {
            (prev, failed)
        } else if bank >= prev.len() {
            (prev, Some(bank))
        } else {
            (
                prev.update(
                    bank as int,
                    crate::bytes::overlay(
                        prev[bank as int],
                        bank_offset(a, j - 1),
                        a.file.data.subrange(chunk_start(a, j - 1), chunk_start(a, j)),
                    ),
                ),
                None,
            )
        }
    }
}

/// The low windows after the first `k` files were written, and the first
/// bank that was found missing, if one was.
pub open spec fn write_files(roml: Seq<Seq<u8>>, allocations: Seq<AllocationView>, k: int) -> (
    Seq<Seq<u8>>,
    Option<usize>,
)
    decreases k,
{
    if k <= 0 {
        (roml, None)
    } else {
        let (prev, failed) = write_files(roml, allocations, k - 1);
        if failed is Some {
            (prev, failed)
        } else {
            write_file(prev, allocations[k - 1], allocations[k - 1].banks.len() as int)
        }
    }
}

/// Writing keeps the number of banks.
pub proof fn lemma_write_file_len(roml: Seq<Seq<u8>>, a: AllocationView, j: int)
    ensures
        write_file(roml, a, j).0.len() == roml.len(),
    decreases j,
{
    if j > 0 {
        lemma_write_file_len(roml, a, j - 1);
    }
}

/// The parts of a file lie inside its payload, in order.
pub proof fn lemma_chunk_start_bounds(a: AllocationView, j: int)
    requires
        a.start_offset <= BANK_SIZE_8K,
        0 <= j,
    ensures
        0 <= chunk_start(a, j) <= a.file.data.len(),
        chunk_start(a, j) <= chunk_start(a, j + 1),
        chunk_start(a, j + 1) - chunk_start(a, j) <= BANK_SIZE_8K - bank_offset(a, j),
    decreases j,
{
    if j > 0 {
        lemma_chunk_start_bounds(a, j - 1);
    }
}

/// Once a bank was found missing, nothing more is written.
pub proof fn lemma_write_file_stays_failed(roml: Seq<Seq<u8>>, a: AllocationView, i: int, j: int)
    requires
        0 <= i <= j,
        write_file(roml, a, i).1 is Some,
    ensures
        write_file(roml, a, j) == write_file(roml, a, i),
    decreases j - i,
{
    if i < j {
        lemma_write_file_stays_failed(roml, a, i, j - 1);
    }
}

/// Once a bank was found missing, no further file is written.
pub proof fn lemma_write_files_stays_failed(
    roml: Seq<Seq<u8>>,
    allocations: Seq<AllocationView>,
    i: int,
    k: int,
)
    requires
        0 <= i <= k,
        write_files(roml, allocations, i).1 is Some,
    ensures
        write_files(roml, allocations, k) == write_files(roml, allocations, i),
    decreases k - i,
{
    if i < k {
        lemma_write_files_stays_failed(roml, allocations, i, k - 1);
    }
}

impl FileSystemManager {
    /// Writes the payload of every file into the low windows of its banks.
    ///
    /// Stops at the first bank that the builder does not have, with the
    /// message that names it.
    pub fn write_files_to_banks(&self, crt: &mut CRTBuilder, allocations: &[FileAllocation]) -> (r:
        Result<(), String>)
        requires
            old(crt).wf(),
            forall|i: int|
                0 <= i < allocations@.len() ==> (#[trigger] allocations@[i]).start_offset
                    <= BANK_SIZE_8K,
        ensures
            final(crt).wf(),
            final(crt).kind() == old(crt).kind(),
            final(crt).name() == old(crt).name(),
            final(crt).romh() == old(crt).romh(),
            final(crt).roml() == write_files(
                old(crt).roml(),
                allocation_views(allocations@),
                allocations@.len() as int,
            ).0,
            match write_files(
                old(crt).roml(),
                allocation_views(allocations@),
                allocations@.len() as int,
            ).1 {
                None => r is Ok,
                Some(bank) => r matches Err(m) && m@ == missing_bank_message(
                    bank as nat,
                    old(crt).roml().len(),
                ),
            },
    {
        let ghost views = allocation_views(allocations@);
        let ghost roml0 = crt.roml();
        let mut k: usize = 0;
        while k < allocations.len()
            invariant
                0 <= k <= allocations@.len(),
                views == allocation_views(allocations@),
                roml0 == old(crt).roml(),
                forall|i: int|
                    0 <= i < allocations@.len() ==> (#[trigger] allocations@[i]).start_offset
                        <= BANK_SIZE_8K,
                crt.wf(),
                crt.kind() == old(crt).kind(),
                crt.name() == old(crt).name(),
                crt.romh() == old(crt).romh(),
                crt.roml().len() == roml0.len(),
                write_files(roml0, views, k as int) == (crt.roml(), None::<usize>),
            decreases allocations@.len() - k,
        {
            let allocation = &allocations[k];
            assert(views[k as int] == allocation@);
            let ghost a = allocation@;
            let ghost before = crt.roml();
            let mut data_offset: usize = 0;
            let mut j: usize = 0;
            while j < allocation.banks.len()
                invariant
                    0 <= j <= allocation.banks@.len(),
                    a == allocation@,
                    a.start_offset <= BANK_SIZE_8K,
                    views == allocation_views(allocations@),
                    views[k as int] == a,
                    k < allocations@.len(),
                    roml0 == old(crt).roml(),
                    before.len() == roml0.len(),
                    write_files(roml0, views, k as int) == (before, None::<usize>),
                    crt.wf(),
                    crt.kind() == old(crt).kind(),
                    crt.name() == old(crt).name(),
                    crt.romh() == old(crt).romh(),
                    crt.roml().len() == roml0.len(),
                    data_offset == chunk_start(a, j as int),
                    data_offset <= allocation.file.data@.len(),
                    write_file(before, a, j as int) == (crt.roml(), None::<usize>),
                decreases allocation.banks@.len() - j,
            {
                let bank_number = allocation.banks[j];
                let start_offset = if j == 0 {
                    allocation.start_offset
                } else {
                    0
                };
                let remaining_size = allocation.file.data.len() - data_offset;
                let room = BANK_SIZE_8K - start_offset;
                let chunk_size = if remaining_size < room {
                    remaining_size
                } else {
                    room
                };
                let chunk = vstd::slice::slice_subrange(
                    allocation.file.data.as_slice(),
                    data_offset,
                    data_offset + chunk_size,
                );
                match crt.fill_bank(bank_number, chunk, start_offset) {
                    Ok(()) => {},
                    Err(e) => {
                        proof {
                            assert(write_file(before, a, j + 1).1 == Some(bank_number));
                            lemma_write_file_stays_failed(
                                before,
                                a,
                                j + 1,
                                allocation.banks@.len() as int,
                            );
                            assert(write_files(roml0, views, k + 1).1 == Some(bank_number));
                            lemma_write_files_stays_failed(
                                roml0,
                                views,
                                k + 1,
                                allocations@.len() as int,
                            );
                        }
                        return Err(e);
                    },
                }
                data_offset += chunk_size;
                j += 1;
            }
            k += 1;
        }
        Ok(())
    }
}

} // verus!

verus! {

/// The offset of the name of file `k` is the length of the stored names of
/// the files in front of it, each with its zero.
pub proof fn lemma_name_offsets(files: Seq<PRGFile>, available: Seq<usize>, n: int, k: int)
    requires
        0 <= k < n <= files.len(),
        place_all(files, available, n) is Ok,
        names_length(files, n) <= usize::MAX,
    ensures
        place_all(files, available, n)->Ok_0.0.len() == n,
        place_all(files, available, n)->Ok_0.2 == names_length(files, n),
        place_all(files, available, n)->Ok_0.0[k].filename_offset == names_length(files, k),
        place_all(files, available, n)->Ok_0.0[k].file == files[k]@,
    decreases n,
{
    lemma_names_length_grows(files, n - 1, n);
    if n - 1 > 0 {
        if k < n - 1 {
            lemma_name_offsets(files, available, n - 1, k);
        } else {
            lemma_name_offsets(files, available, n - 1, 0);
        }
    }
}

/// The first file starts the first bank, where it fits into a bank.
pub proof fn lemma_first_file(available: Seq<usize>, size: nat)
    requires
        available.len() > 0,
        size <= BANK_SIZE_8K,
    ensures
        place(Map::empty(), available, size) == Ok::<(Placement, Map<usize, usize>), PlaceError>(
            (
                Placement { banks: seq![available[0]], start_offset: 0 },
                Map::<usize, usize>::empty().insert(available[0], 0).insert(
                    available[0],
                    size as usize,
                ),
            ),
        ),
{
    let usage = Map::<usize, usize>::empty();
    assert forall|b: usize| !is_first_open(usage, available, b) by {
        assert(!usage.contains_key(b));
    }
    assert(first_open(usage, available) is None);
    assert(unused_index(usage, available, 0) == 0);
}

/// A file starts where the file in front of it ends, where that one is the
/// only one so far and has left room in its bank: files share banks.
pub proof fn lemma_second_file(available: Seq<usize>, first: nat, second: nat)
    requires
        available.len() > 0,
        first < BANK_SIZE_8K,
    ensures
        ({
            let usage = Map::<usize, usize>::empty().insert(available[0], 0).insert(
                available[0],
                first as usize,
            );
            match place(usage, available, second) {
                Ok((placement, _)) => placement.start_offset == first && placement.banks[0]
                    == available[0] && (first + second <= BANK_SIZE_8K ==> placement.banks
                    == seq![available[0]]),
                Err(_) => first + second > BANK_SIZE_8K,
            }
        }),
{
    let usage = Map::<usize, usize>::empty().insert(available[0], 0).insert(
        available[0],
        first as usize,
    );
    let b = available[0];
    assert(available.contains(b));
    assert(is_open(usage, available, b));
    assert forall|c: usize| #[trigger] is_open(usage, available, c) implies b <= c by {
        assert(usage.contains_key(c));
        assert(c == b);
    }
    assert(is_first_open(usage, available, b));
    let chosen = choose|c: usize| is_first_open(usage, available, c);
    assert(is_open(usage, available, chosen));
    assert(usage.contains_key(chosen));
    assert(chosen == b);
    assert(first_open(usage, available) == Some(b));
    assert(usage[b] == first);
    if first + second > BANK_SIZE_8K {
        let rest = (second - (BANK_SIZE_8K - first)) as nat;
        lemma_spill_keeps_start(usage.insert(b, BANK_SIZE_8K), available, seq![b], rest);
        match spill(usage.insert(b, BANK_SIZE_8K), available, seq![b], rest) {
            Ok((all, _)) => {
                assert(all.take(1)[0] == all[0]);
            },
            Err(_) => {},
        }
    }
}

/// Further banks come behind the banks that a file has.
pub proof fn lemma_spill_keeps_start(
    usage: Map<usize, usize>,
    available: Seq<usize>,
    banks: Seq<usize>,
    remaining: nat,
)
    requires
        banks.len() >= 1,
    ensures
        spill(usage, available, banks, remaining) matches Ok((all, _)) ==> all.len() >= banks.len()
            && all.take(banks.len() as int) == banks,
    decreases MAX_BANKS_PER_FILE - banks.len(),
{
    if remaining == 0 {
        assert(banks.take(banks.len() as int) =~= banks);
    } else if banks.len() >= MAX_BANKS_PER_FILE {
    } else {
        let i = unused_index(usage, available, 0);
        if i < available.len() {
            let chunk = min_nat(remaining, BANK_SIZE_8K as nat);
            let next = banks.push(available[i]);
            lemma_spill_keeps_start(
                usage.insert(available[i], chunk as usize),
                available,
                next,
                (remaining - chunk) as nat,
            );
            match spill(usage, available, banks, remaining) {
                Ok((all, _)) => {
                    assert(all.take(next.len() as int) == next);
                    assert(all.take(banks.len() as int) =~= next.take(banks.len() as int));
                    assert(next.take(banks.len() as int) =~= banks);
                },
                Err(_) => {},
            }
        }
    }
}

} // verus!

verus! {

/// A file that lies in one bank is written into that bank from its start
/// offset on, and nothing else is changed.
pub proof fn lemma_file_in_one_bank(roml: Seq<Seq<u8>>, a: AllocationView)
    requires
        a.banks.len() == 1,
        a.banks[0] < roml.len(),
        roml[a.banks[0] as int].len() == BANK_SIZE_8K,
        a.start_offset + a.file.data.len() <= BANK_SIZE_8K,
    ensures
        write_file(roml, a, 1).1 is None,
        write_file(roml, a, 1).0.len() == roml.len(),
        write_file(roml, a, 1).0[a.banks[0] as int].subrange(
            a.start_offset as int,
            a.start_offset + a.file.data.len(),
        ) == a.file.data,
        forall|i: int|
            0 <= i < BANK_SIZE_8K && !(a.start_offset <= i < a.start_offset + a.file.data.len())
                ==> write_file(roml, a, 1).0[a.banks[0] as int][i] == roml[a.banks[0] as int][i],
        forall|b: int|
            0 <= b < roml.len() && b != a.banks[0] ==> write_file(roml, a, 1).0[b] == roml[b],
{
    assert(write_file(roml, a, 0) == (roml, None::<usize>));
    assert(chunk_start(a, 0) == 0);
    assert(chunk_start(a, 1) == a.file.data.len());
    assert(a.file.data.subrange(0, a.file.data.len() as int) =~= a.file.data);
    let bank = a.banks[0] as int;
    let written = crate::bytes::overlay(roml[bank], a.start_offset as int, a.file.data);
    assert(write_file(roml, a, 1).0 == roml.update(bank, written));
    assert(written.subrange(a.start_offset as int, a.start_offset + a.file.data.len())
        =~= a.file.data);
}

} // verus!
