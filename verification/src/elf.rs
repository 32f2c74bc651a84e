//! Loading of static x86-64 ELF executables: the checks on the file
//! header, the program headers and each loadable segment, and the plan of
//! pages and copies that puts a segment into a user address space.

use vstd::prelude::*;

use crate::memory::{lemma_page_round_down, PAGE_SIZE, USER_MAX, USER_MIN};
use crate::serial::LogPiece;

verus! {

/// Size of the ELF64 file header.
pub const ELF_HEADER_SIZE: usize = 64;

/// Size of an ELF64 program header.
pub const PROGRAM_HEADER_SIZE: usize = 56;

/// `ELFCLASS64`.
pub const ELFCLASS64: u8 = 2;

/// `ELFDATA2LSB`: little-endian.
pub const ELFDATA2LSB: u8 = 1;

/// `EM_X86_64`.
pub const EM_X86_64: u16 = 0x3E;

/// Program header type of a loadable segment.
pub const PT_LOAD: u32 = 1;

/// Segment flag: executable.
pub const PF_X: u32 = 1;

/// Segment flag: writable.
pub const PF_W: u32 = 2;

/// Why an ELF file was refused.
#[derive(Clone, Copy, Debug, PartialEq, Eq)]
pub enum ElfError {
    ParseError(&'static str),
    InvalidFormat(&'static str),
    AllocationFailed,
}

/// A loaded executable.
#[derive(Clone, Copy, Debug, PartialEq, Eq)]
pub struct LoadedElf {
    pub entry_point: u64,
}

/// The fields of an ELF64 file header.
#[derive(Clone, Copy, Debug)]
pub struct Elf64Header {
    pub magic: [u8; 4],
    pub class: u8,
    pub data: u8,
    pub version: u8,
    pub os_abi: u8,
    pub abi_version: u8,
    pub e_type: u16,
    pub e_machine: u16,
    pub e_version: u32,
    pub e_entry: u64,
    pub e_phoff: u64,
    pub e_shoff: u64,
    pub e_flags: u32,
    pub e_ehsize: u16,
    pub e_phentsize: u16,
    pub e_phnum: u16,
    pub e_shentsize: u16,
    pub e_shnum: u16,
    pub e_shstrndx: u16,
}

/// The fields of an ELF64 program header.
#[derive(Clone, Copy, Debug, PartialEq, Eq, Structural)]
pub struct Elf64ProgramHeader {
    pub p_type: u32,
    pub p_flags: u32,
    pub p_offset: u64,
    pub p_vaddr: u64,
    pub p_paddr: u64,
    pub p_filesz: u64,
    pub p_memsz: u64,
    pub p_align: u64,
}

// ============================================================
// Little-endian fields
// ============================================================

/// The unsigned number whose little-endian bytes are the `n` bytes of
/// `bytes` from `offset`.
pub open spec fn le_value(bytes: Seq<u8>, offset: int, n: nat) -> nat
    decreases n,
{
    if n == 0 {
        0
    } else {
        bytes[offset] as nat + 256 * le_value(bytes, offset + 1, (n - 1) as nat)
    }
}

/// `256` to the power `n`.
pub open spec fn byte_power(n: nat) -> nat
    decreases n,
{
    if n == 0 {
        1
    } else {
        256 * byte_power((n - 1) as nat)
    }
}

/// `n` bytes hold a number below `256` to the power `n`.
pub proof fn lemma_le_value_bound(bytes: Seq<u8>, offset: int, n: nat)
    ensures
        le_value(bytes, offset, n) < byte_power(n),
    decreases n,
{
    if n > 0 {
        lemma_le_value_bound(bytes, offset + 1, (n - 1) as nat);
    }
}

/// The little-endian number in the `n` bytes of `bytes` from `offset`.
fn read_le(bytes: &[u8], offset: usize, n: usize) -> (r: u64)
    requires
        n <= 8,
        offset + n <= bytes@.len(),
        bytes@.len() <= usize::MAX,
    ensures
        r == le_value(bytes@, offset as int, n as nat),
        n == 2 ==> r < 0x1_0000,
        n == 4 ==> r < 0x1_0000_0000,
{
    proof {
        reveal_with_fuel(byte_power, 9);
    }
    let mut value: u64 = 0;
    let mut k: usize = n;
    while k > 0
        invariant
            k <= n <= 8,
            offset + n <= bytes@.len(),
            bytes@.len() <= usize::MAX,
            value == le_value(bytes@, offset + k, (n - k) as nat),
        decreases k,
    {
        k = k - 1;
        proof {
            lemma_le_value_bound(bytes@, offset + k + 1, (n - k - 1) as nat);
            assert(byte_power((n - k - 1) as nat) * 256 <= 0x1_0000_0000_0000_0000) by {
                assert(n - k - 1 <= 7);
                reveal_with_fuel(byte_power, 9);
            }
            assert(value * 256 + 255 < 0x1_0000_0000_0000_0000) by (nonlinear_arith)
                requires
                    value < byte_power((n - k - 1) as nat),
                    byte_power((n - k - 1) as nat) * 256 <= 0x1_0000_0000_0000_0000,
            ;
        }
        assert(value <= 0x00FF_FFFF_FFFF_FFFF);
        let shifted = value * 256;
        assert(shifted <= 0xFFFF_FFFF_FFFF_FF00);
        let byte = bytes[offset + k] as u64;
        assert(byte <= 255);
        value = byte + shifted;
    }
    proof {
        lemma_le_value_bound(bytes@, offset as int, n as nat);
        reveal_with_fuel(byte_power, 5);
    }
    value
}

/// The header fields of the 64 bytes at the start of `bytes`.
pub open spec fn header_of(bytes: Seq<u8>) -> Elf64Header {
    Elf64Header {
        magic: [bytes[0], bytes[1], bytes[2], bytes[3]],
        class: bytes[4],
        data: bytes[5],
        version: bytes[6],
        os_abi: bytes[7],
        abi_version: bytes[8],
        e_type: le_value(bytes, 16, 2) as u16,
        e_machine: le_value(bytes, 18, 2) as u16,
        e_version: le_value(bytes, 20, 4) as u32,
        e_entry: le_value(bytes, 24, 8) as u64,
        e_phoff: le_value(bytes, 32, 8) as u64,
        e_shoff: le_value(bytes, 40, 8) as u64,
        e_flags: le_value(bytes, 48, 4) as u32,
        e_ehsize: le_value(bytes, 52, 2) as u16,
        e_phentsize: le_value(bytes, 54, 2) as u16,
        e_phnum: le_value(bytes, 56, 2) as u16,
        e_shentsize: le_value(bytes, 58, 2) as u16,
        e_shnum: le_value(bytes, 60, 2) as u16,
        e_shstrndx: le_value(bytes, 62, 2) as u16,
    }
}

/// The program header fields of the 56 bytes of `bytes` from `offset`.
pub open spec fn program_header_of(bytes: Seq<u8>, offset: int) -> Elf64ProgramHeader {
    Elf64ProgramHeader {
        p_type: le_value(bytes, offset, 4) as u32,
        p_flags: le_value(bytes, offset + 4, 4) as u32,
        p_offset: le_value(bytes, offset + 8, 8) as u64,
        p_vaddr: le_value(bytes, offset + 16, 8) as u64,
        p_paddr: le_value(bytes, offset + 24, 8) as u64,
        p_filesz: le_value(bytes, offset + 32, 8) as u64,
        p_memsz: le_value(bytes, offset + 40, 8) as u64,
        p_align: le_value(bytes, offset + 48, 8) as u64,
    }
}

/// Reads the file header from the first 64 bytes.
pub fn parse_header(bytes: &[u8]) -> (r: Elf64Header)
    requires
        bytes@.len() >= ELF_HEADER_SIZE,
    ensures
        r == header_of(bytes@),
{
    let _ = bytes.len();
    Elf64Header {
        magic: [bytes[0], bytes[1], bytes[2], bytes[3]],
        class: bytes[4],
        data: bytes[5],
        version: bytes[6],
        os_abi: bytes[7],
        abi_version: bytes[8],
        e_type: read_le(bytes, 16, 2) as u16,
        e_machine: read_le(bytes, 18, 2) as u16,
        e_version: read_le(bytes, 20, 4) as u32,
        e_entry: read_le(bytes, 24, 8),
        e_phoff: read_le(bytes, 32, 8),
        e_shoff: read_le(bytes, 40, 8),
        e_flags: read_le(bytes, 48, 4) as u32,
        e_ehsize: read_le(bytes, 52, 2) as u16,
        e_phentsize: read_le(bytes, 54, 2) as u16,
        e_phnum: read_le(bytes, 56, 2) as u16,
        e_shentsize: read_le(bytes, 58, 2) as u16,
        e_shnum: read_le(bytes, 60, 2) as u16,
        e_shstrndx: read_le(bytes, 62, 2) as u16,
    }
}

/// Reads the program header at `offset`.
pub fn parse_program_header(bytes: &[u8], offset: usize) -> (r: Elf64ProgramHeader)
    requires
        offset + PROGRAM_HEADER_SIZE <= bytes@.len(),
    ensures
        r == program_header_of(bytes@, offset as int),
{
    let _ = bytes.len();
    Elf64ProgramHeader {
        p_type: read_le(bytes, offset, 4) as u32,
        p_flags: read_le(bytes, offset + 4, 4) as u32,
        p_offset: read_le(bytes, offset + 8, 8),
        p_vaddr: read_le(bytes, offset + 16, 8),
        p_paddr: read_le(bytes, offset + 24, 8),
        p_filesz: read_le(bytes, offset + 32, 8),
        p_memsz: read_le(bytes, offset + 40, 8),
        p_align: read_le(bytes, offset + 48, 8),
    }
}

// ============================================================
// The file header
// ============================================================

/// What the file header leaves for loading: the header itself and where
/// the program header table is.
#[derive(Clone, Copy, Debug)]
pub struct ElfLayout {
    pub header: Elf64Header,
    pub phoff: usize,
    pub phnum: usize,
}

/// The checks on the file header, in order, and the program header table
/// they accept.
pub open spec fn layout_check(bytes: Seq<u8>) -> Result<(usize, usize), ElfError> {
    let h = header_of(bytes);
    if bytes.len() < ELF_HEADER_SIZE {
        Err(ElfError::InvalidFormat("ELF file too small"))
    } else if !(h.magic[0] == 0x7F && h.magic[1] == 0x45 && h.magic[2] == 0x4C && h.magic[3] == 0x46) {
        Err(ElfError::InvalidFormat("Invalid ELF magic"))
    } else if h.class != ELFCLASS64 {
        Err(ElfError::InvalidFormat("Expected ELF64"))
    } else if h.data != ELFDATA2LSB {
        Err(ElfError::InvalidFormat("Expected little-endian ELF"))
    } else if h.version != 1 {
        Err(ElfError::InvalidFormat("Invalid ELF version"))
    } else if h.e_machine != EM_X86_64 {
        Err(ElfError::InvalidFormat("Expected x86_64 ELF"))
    } else if h.e_phentsize != PROGRAM_HEADER_SIZE {
        Err(ElfError::InvalidFormat("Unexpected program header size"))
    } else if h.e_phoff > usize::MAX {
        Err(ElfError::InvalidFormat("Program header offset overflow"))
    } else if PROGRAM_HEADER_SIZE * h.e_phnum > usize::MAX {
        Err(ElfError::InvalidFormat("Program header table overflow"))
    } else if h.e_phoff + PROGRAM_HEADER_SIZE * h.e_phnum > usize::MAX {
        Err(ElfError::InvalidFormat("Program header table range overflow"))
    } else if h.e_phoff + PROGRAM_HEADER_SIZE * h.e_phnum > bytes.len() {
        Err(ElfError::InvalidFormat("Program header table outside ELF"))
    } else {
        Ok((h.e_phoff as usize, h.e_phnum as usize))
    }
}

/// Checks the file header: an ELF64, little-endian, version-1 x86-64
/// file whose program header table has 56-byte entries and lies inside
/// the file.
pub fn check_header(elf_data: &[u8]) -> (r: Result<ElfLayout, ElfError>)
    ensures
        match layout_check(elf_data@) {
            Ok((phoff, phnum)) => r matches Ok(layout) && layout.phoff == phoff && layout.phnum == phnum
                && layout.header == header_of(elf_data@),
            Err(e) => r == Err::<ElfLayout, ElfError>(e),
        },
{
    if elf_data.len() < ELF_HEADER_SIZE {
        return Err(ElfError::InvalidFormat("ELF file too small"));
    }
    let header = parse_header(elf_data);
    if !(header.magic[0] == 0x7F && header.magic[1] == 0x45 && header.magic[2] == 0x4C && header.magic[3] == 0x46) {
        return Err(ElfError::InvalidFormat("Invalid ELF magic"));
    }
    if header.class != ELFCLASS64 {
        return Err(ElfError::InvalidFormat("Expected ELF64"));
    }
    if header.data != ELFDATA2LSB {
        return Err(ElfError::InvalidFormat("Expected little-endian ELF"));
    }
    if header.version != 1 {
        return Err(ElfError::InvalidFormat("Invalid ELF version"));
    }
    if header.e_machine != EM_X86_64 {
        return Err(ElfError::InvalidFormat("Expected x86_64 ELF"));
    }
    if header.e_phentsize as usize != PROGRAM_HEADER_SIZE {
        return Err(ElfError::InvalidFormat("Unexpected program header size"));
    }
    if header.e_phoff > usize::MAX as u64 {
        return Err(ElfError::InvalidFormat("Program header offset overflow"));
    }
    let phoff = header.e_phoff as usize;
    let phnum = header.e_phnum as usize;
    let ph_table_size = match PROGRAM_HEADER_SIZE.checked_mul(phnum) {
        Some(size) => size,
        None => return Err(ElfError::InvalidFormat("Program header table overflow")),
    };
    let ph_end = match phoff.checked_add(ph_table_size) {
        Some(end) => end,
        None => return Err(ElfError::InvalidFormat("Program header table range overflow")),
    };
    if ph_end > elf_data.len() {
        return Err(ElfError::InvalidFormat("Program header table outside ELF"));
    }
    Ok(ElfLayout { header, phoff, phnum })
}

// ============================================================
// Program headers
// ============================================================

/// A loadable segment that passed its checks.
#[derive(Clone, Copy, Debug, PartialEq, Eq, Structural)]
pub struct LoadSegment {
    pub vaddr: u64,
    pub mem_size: u64,
    pub file_offset: usize,
    pub file_end: usize,
    pub writable: bool,
    pub executable: bool,
    /// Whether the entry point lies in this segment and the segment is
    /// executable.
    pub holds_entry: bool,
}

/// The checks on a `PT_LOAD` program header of a file `file_len` bytes
/// long, in order, and the segment they accept.
pub open spec fn segment_check(file_len: int, entry: u64, ph: Elf64ProgramHeader) -> Result<LoadSegment, ElfError> {
    if ph.p_memsz < ph.p_filesz {
        Err(ElfError::InvalidFormat("PT_LOAD memsz < filesz"))
    } else if ph.p_offset > usize::MAX {
        Err(ElfError::InvalidFormat("PT_LOAD file offset overflow"))
    } else if ph.p_filesz > usize::MAX {
        Err(ElfError::InvalidFormat("PT_LOAD file size overflow"))
    } else if ph.p_offset + ph.p_filesz > usize::MAX {
        Err(ElfError::InvalidFormat("PT_LOAD file range overflow"))
    } else if ph.p_offset + ph.p_filesz > file_len {
        Err(ElfError::InvalidFormat("PT_LOAD outside ELF file"))
    } else if ph.p_vaddr + ph.p_memsz > u64::MAX {
        Err(ElfError::InvalidFormat("PT_LOAD virtual range overflow"))
    } else if ph.p_memsz != 0 && ph.p_vaddr < USER_MIN {
        Err(ElfError::InvalidFormat("PT_LOAD starts below userspace"))
    } else if ph.p_memsz != 0 && ph.p_vaddr + ph.p_memsz > USER_MAX {
        Err(ElfError::InvalidFormat("PT_LOAD ends above userspace"))
    } else {
        Ok(
            LoadSegment {
                vaddr: ph.p_vaddr,
                mem_size: ph.p_memsz,
                file_offset: ph.p_offset as usize,
                file_end: (ph.p_offset + ph.p_filesz) as usize,
                writable: ph.p_flags & PF_W != 0,
                executable: ph.p_flags & PF_X != 0,
                holds_entry: ph.p_vaddr <= entry < ph.p_vaddr + ph.p_memsz && ph.p_flags & PF_X != 0,
            },
        )
    }
}

/// An accepted segment is the program header's own range and rights: it
/// starts at `p_vaddr` and spans `p_memsz` bytes, its file bytes are
/// `p_offset` to `p_offset + p_filesz` (inside the file, and no more than
/// the memory size), it lies in userspace when not empty, it is writable
/// exactly when flag bit 1 (write) is set and executable exactly when flag
/// bit 0 (execute) is set, whatever the other flag bits, and it holds the
/// entry point exactly when it is executable and the entry falls inside it.
pub proof fn lemma_accepted_segment(file_len: int, entry: u64, ph: Elf64ProgramHeader)
    ensures
        segment_check(file_len, entry, ph) matches Ok(seg) ==> ({
            &&& seg.vaddr == ph.p_vaddr
            &&& seg.mem_size == ph.p_memsz
            &&& seg.file_offset == ph.p_offset
            &&& seg.file_end == ph.p_offset + ph.p_filesz
            &&& ph.p_filesz <= ph.p_memsz
            &&& seg.file_end <= file_len
            &&& ph.p_memsz != 0 ==> USER_MIN <= ph.p_vaddr && ph.p_vaddr + ph.p_memsz <= USER_MAX
            &&& seg.writable == (ph.p_flags % 4 >= 2)
            &&& seg.executable == (ph.p_flags % 2 == 1)
            &&& seg.holds_entry == (ph.p_flags % 2 == 1 && ph.p_vaddr <= entry && entry < ph.p_vaddr + ph.p_memsz)
        }),
{
    let f = ph.p_flags;
    assert((f & 2u32 != 0) == (f % 4 >= 2)) by (bit_vector);
    assert((f & 1u32 != 0) == (f % 2 == 1)) by (bit_vector);
}

/// Checks one `PT_LOAD` program header of a file `file_len` bytes long
/// whose entry point is `entry`.
pub fn check_segment(file_len: usize, entry: u64, ph: &Elf64ProgramHeader) -> (r: Result<LoadSegment, ElfError>)
    ensures
        r == segment_check(file_len as int, entry, *ph),
{
    if ph.p_memsz < ph.p_filesz {
        return Err(ElfError::InvalidFormat("PT_LOAD memsz < filesz"));
    }
    if ph.p_offset > usize::MAX as u64 {
        return Err(ElfError::InvalidFormat("PT_LOAD file offset overflow"));
    }
    let file_offset = ph.p_offset as usize;
    if ph.p_filesz > usize::MAX as u64 {
        return Err(ElfError::InvalidFormat("PT_LOAD file size overflow"));
    }
    let file_size = ph.p_filesz as usize;
    let file_end = match file_offset.checked_add(file_size) {
        Some(end) => end,
        None => return Err(ElfError::InvalidFormat("PT_LOAD file range overflow")),
    };
    if file_end > file_len {
        return Err(ElfError::InvalidFormat("PT_LOAD outside ELF file"));
    }
    let virtual_end = match ph.p_vaddr.checked_add(ph.p_memsz) {
        Some(end) => end,
        None => return Err(ElfError::InvalidFormat("PT_LOAD virtual range overflow")),
    };
    if ph.p_memsz != 0 {
        if ph.p_vaddr < USER_MIN {
            return Err(ElfError::InvalidFormat("PT_LOAD starts below userspace"));
        }
        if virtual_end > USER_MAX {
            return Err(ElfError::InvalidFormat("PT_LOAD ends above userspace"));
        }
    }
    let executable = ph.p_flags & PF_X != 0;
    Ok(
        LoadSegment {
            vaddr: ph.p_vaddr,
            mem_size: ph.p_memsz,
            file_offset,
            file_end,
            writable: ph.p_flags & PF_W != 0,
            executable,
            holds_entry: entry >= ph.p_vaddr && entry < virtual_end && executable,
        },
    )
}

// ============================================================
// Walking the program header table
// ============================================================

/// Program header `i` of the table at `phoff`.
pub open spec fn program_header_at(bytes: Seq<u8>, phoff: usize, i: int) -> Elf64ProgramHeader {
    program_header_of(bytes, phoff + PROGRAM_HEADER_SIZE * i)
}

/// The first `PT_LOAD` program header at or after `i`, or `phnum` when
/// there is none.
pub open spec fn next_load_index(bytes: Seq<u8>, phoff: usize, phnum: usize, i: int) -> int
    decreases phnum - i,
{
    if i >= phnum {
        phnum as int
    } else if program_header_at(bytes, phoff, i).p_type == PT_LOAD {
        i
    } else {
        next_load_index(bytes, phoff, phnum, i + 1)
    }
}

/// Program header `i` is a `PT_LOAD` header that passes its checks.
pub open spec fn accepted_load(bytes: Seq<u8>, layout: ElfLayout, i: int) -> bool {
    &&& program_header_at(bytes, layout.phoff, i).p_type == PT_LOAD
    &&& segment_check(bytes.len() as int, layout.header.e_entry, program_header_at(bytes, layout.phoff, i)) is Ok
}

/// Program header `i` is an accepted segment that holds the entry point
/// and is executable.
pub open spec fn accepted_entry_segment(bytes: Seq<u8>, layout: ElfLayout, i: int) -> bool {
    &&& accepted_load(bytes, layout, i)
    &&& segment_check(bytes.len() as int, layout.header.e_entry, program_header_at(bytes, layout.phoff, i))->Ok_0.holds_entry
}

/// The next index, or `phnum` when there is none, is a `PT_LOAD` header
/// and the headers before it are not.
pub proof fn lemma_next_load_index(bytes: Seq<u8>, phoff: usize, phnum: usize, i: int)
    requires
        0 <= i <= phnum,
    ensures
        i <= next_load_index(bytes, phoff, phnum, i) <= phnum,
        next_load_index(bytes, phoff, phnum, i) < phnum ==> program_header_at(
            bytes,
            phoff,
            next_load_index(bytes, phoff, phnum, i),
        ).p_type == PT_LOAD,
        forall|j: int|
            i <= j < next_load_index(bytes, phoff, phnum, i) ==> #[trigger] program_header_at(bytes, phoff, j).p_type
                != PT_LOAD,
    decreases phnum - i,
{
    if i < phnum && program_header_at(bytes, phoff, i).p_type != PT_LOAD {
        lemma_next_load_index(bytes, phoff, phnum, i + 1);
    }
}

/// The walk over the program headers of one file: the file layout, the
/// next header to look at, and whether a loadable segment, and one that
/// holds the entry point, have been accepted.
#[derive(Clone, Copy, Debug)]
pub struct ElfLoader {
    pub layout: ElfLayout,
    pub next_index: usize,
    pub found_load: bool,
    pub entry_executable: bool,
}

impl ElfLoader {
    /// The walk belongs to the file `bytes`: its layout is the one the
    /// header check gives, and the flags record what the headers before
    /// `next_index` held.
    pub open spec fn wf(&self, bytes: Seq<u8>) -> bool {
        &&& layout_check(bytes) == Ok::<(usize, usize), ElfError>((self.layout.phoff, self.layout.phnum))
        &&& self.layout.header == header_of(bytes)
        &&& self.next_index <= self.layout.phnum
        &&& self.found_load ==> exists|i: int| 0 <= i < self.next_index && #[trigger] accepted_load(bytes, self.layout, i)
        &&& self.entry_executable ==> exists|i: int|
            0 <= i < self.next_index && #[trigger] accepted_entry_segment(bytes, self.layout, i)
    }

    /// Starts the walk over the program headers of a file whose header
    /// passes its checks.
    pub fn new(elf_data: &[u8]) -> (r: Result<Self, ElfError>)
        ensures
            match layout_check(elf_data@) {
                Ok(_) => r matches Ok(loader) && loader.wf(elf_data@) && loader.next_index == 0 && !loader.found_load
                    && !loader.entry_executable,
                Err(e) => r == Err::<Self, ElfError>(e),
            },
    {
        match check_header(elf_data) {
            Ok(layout) => Ok(ElfLoader { layout, next_index: 0, found_load: false, entry_executable: false }),
            Err(e) => Err(e),
        }
    }

    /// The next loadable segment, checked, or `None` when the table has no
    /// more.  Other program headers are skipped.
    pub fn next_segment(&mut self, elf_data: &[u8]) -> (r: Result<Option<LoadSegment>, ElfError>)
        requires
            old(self).wf(elf_data@),
        ensures
            final(self).layout == old(self).layout,
            ({
                let k = next_load_index(
                    elf_data@,
                    old(self).layout.phoff,
                    old(self).layout.phnum,
                    old(self).next_index as int,
                );
                let ph = program_header_at(elf_data@, old(self).layout.phoff, k);
                if k >= old(self).layout.phnum {
                    &&& r == Ok::<Option<LoadSegment>, ElfError>(None)
                    &&& final(self).next_index == old(self).layout.phnum
                    &&& final(self).found_load == old(self).found_load
                    &&& final(self).entry_executable == old(self).entry_executable
                    &&& final(self).wf(elf_data@)
                } else {
                    match segment_check(elf_data@.len() as int, old(self).layout.header.e_entry, ph) {
                        Ok(segment) => {
                            &&& r == Ok::<Option<LoadSegment>, ElfError>(Some(segment))
                            &&& final(self).next_index == k + 1
                            &&& final(self).found_load
                            &&& final(self).entry_executable == (old(self).entry_executable || segment.holds_entry)
                            &&& final(self).wf(elf_data@)
                        },
                        Err(e) => r == Err::<Option<LoadSegment>, ElfError>(e),
                    }
                }
            }),
    {
        let ghost start = self.next_index as int;
        let ghost bytes = elf_data@;
        let len = elf_data.len();
        proof {
            lemma_next_load_index(bytes, self.layout.phoff, self.layout.phnum, start);
        }
        while self.next_index < self.layout.phnum
            invariant
                self.wf(bytes),
                bytes == elf_data@,
                len == bytes.len(),
                self.layout == old(self).layout,
                self.found_load == old(self).found_load,
                self.entry_executable == old(self).entry_executable,
                start <= self.next_index <= next_load_index(bytes, self.layout.phoff, self.layout.phnum, start),
                start == old(self).next_index,
                next_load_index(bytes, self.layout.phoff, self.layout.phnum, start) <= self.layout.phnum,
                next_load_index(bytes, self.layout.phoff, self.layout.phnum, start) < self.layout.phnum
                    ==> program_header_at(
                    bytes,
                    self.layout.phoff,
                    next_load_index(bytes, self.layout.phoff, self.layout.phnum, start),
                ).p_type == PT_LOAD,
                forall|j: int|
                    start <= j < next_load_index(bytes, self.layout.phoff, self.layout.phnum, start)
                        ==> #[trigger] program_header_at(bytes, self.layout.phoff, j).p_type != PT_LOAD,
            decreases self.layout.phnum - self.next_index,
        {
            let index = self.next_index;
            proof {
                assert(self.layout.phoff + PROGRAM_HEADER_SIZE * index + PROGRAM_HEADER_SIZE <= self.layout.phoff
                    + PROGRAM_HEADER_SIZE * self.layout.phnum) by (nonlinear_arith)
                    requires
                        index < self.layout.phnum,
                ;
            }
            let offset = self.layout.phoff + PROGRAM_HEADER_SIZE * index;
            let ph = parse_program_header(elf_data, offset);
            if ph.p_type != PT_LOAD {
                self.next_index = index + 1;
                continue;
            }
            proof {
                assert(ph == program_header_at(bytes, self.layout.phoff, index as int));
                assert(index as int == next_load_index(bytes, self.layout.phoff, self.layout.phnum, start));
            }
            let segment = check_segment(len, self.layout.header.e_entry, &ph);
            match segment {
                Ok(segment) => {
                    self.next_index = index + 1;
                    self.found_load = true;
                    if segment.holds_entry {
                        self.entry_executable = true;
                    }
                    proof {
                        assert(accepted_load(bytes, self.layout, index as int));
                        if segment.holds_entry {
                            assert(accepted_entry_segment(bytes, self.layout, index as int));
                        }
                    }
                    return Ok(Some(segment));
                },
                Err(e) => {
                    return Err(e);
                },
            }
        }
        Ok(None)
    }

    /// The result of the walk once the table is exhausted: the file needs
    /// a loadable segment and an executable one that holds the entry
    /// point.
    pub fn finish(&self) -> (r: Result<LoadedElf, ElfError>)
        ensures
            !self.found_load ==> r == Err::<LoadedElf, ElfError>(ElfError::InvalidFormat("ELF has no PT_LOAD segments")),
            self.found_load && !self.entry_executable ==> r == Err::<LoadedElf, ElfError>(
                ElfError::InvalidFormat("ELF entry is not executable"),
            ),
            self.found_load && self.entry_executable ==> r == Ok::<LoadedElf, ElfError>(
                LoadedElf { entry_point: self.layout.header.e_entry },
            ),
    {
        if !self.found_load {
            return Err(ElfError::InvalidFormat("ELF has no PT_LOAD segments"));
        }
        if !self.entry_executable {
            return Err(ElfError::InvalidFormat("ELF entry is not executable"));
        }
        Ok(LoadedElf { entry_point: self.layout.header.e_entry })
    }
}

/// A file is loaded only if it has a loadable segment that holds its entry
/// point and is executable.
pub proof fn lemma_loaded_entry_is_executable(loader: ElfLoader, bytes: Seq<u8>)
    requires
        loader.wf(bytes),
        loader.found_load && loader.entry_executable,
    ensures
        exists|i: int| 0 <= i < loader.layout.phnum && #[trigger] accepted_entry_segment(bytes, loader.layout, i),
{
    let i = choose|i: int| 0 <= i < loader.next_index && #[trigger] accepted_entry_segment(bytes, loader.layout, i);
    assert(accepted_entry_segment(bytes, loader.layout, i));
}

// ============================================================
// Placing one segment
// ============================================================

/// The pages that one segment occupies and where its file bytes end in
/// memory.
#[derive(Clone, Copy, Debug, PartialEq, Eq, Structural)]
pub struct SegmentPlan {
    pub virt_addr: u64,
    pub mem_size: u64,
    pub start_addr: u64,
    pub end_addr: u64,
    pub data_end: u64,
}

/// Bytes to copy into one page: from `source_offset` in the segment's file
/// bytes to `destination_offset` in the page, `len` of them.
#[derive(Clone, Copy, Debug, PartialEq, Eq, Structural)]
pub struct PageCopy {
    pub source_offset: usize,
    pub destination_offset: usize,
    pub len: usize,
}

/// The checks on a segment of `mem_size` bytes at `virt_addr` with
/// `data_len` file bytes, in order, and the pages they give: from the page
/// holding the first byte to the end of the page holding the last.
pub open spec fn plan_check(virt_addr: u64, mem_size: u64, data_len: usize) -> Result<Option<SegmentPlan>, ElfError> {
    if mem_size == 0 {
        Ok(None)
    } else if virt_addr + mem_size > u64::MAX {
        Err(ElfError::InvalidFormat("Segment address overflow"))
    } else if virt_addr + mem_size + (PAGE_SIZE - 1) > u64::MAX {
        Err(ElfError::InvalidFormat("Segment alignment overflow"))
    } else {
        let start = virt_addr & !0xFFFu64;
        let end = ((virt_addr + mem_size + (PAGE_SIZE - 1)) as u64) & !0xFFFu64;
        if start < USER_MIN {
            Err(ElfError::InvalidFormat("Segment starts below userspace"))
        } else if end > USER_MAX {
            Err(ElfError::InvalidFormat("Segment ends above userspace"))
        } else if virt_addr + data_len > u64::MAX {
            Err(ElfError::InvalidFormat("Segment data overflow"))
        } else {
            Ok(
                Some(
                    SegmentPlan {
                        virt_addr,
                        mem_size,
                        start_addr: start,
                        end_addr: end,
                        data_end: (virt_addr + data_len) as u64,
                    },
                ),
            )
        }
    }
}

impl SegmentPlan {
    /// The pages are whole, in userspace, and cover the segment; the file
    /// bytes end inside it.
    pub open spec fn wf(&self) -> bool {
        &&& self.start_addr % 4096 == 0
        &&& self.end_addr % 4096 == 0
        &&& USER_MIN <= self.start_addr <= self.virt_addr
        &&& self.virt_addr + self.mem_size <= self.end_addr <= USER_MAX
        &&& self.end_addr < self.virt_addr + self.mem_size + 4096
        &&& self.virt_addr <= self.data_end
    }
}

/// Checks a segment of `mem_size` bytes at `virt_addr` with `data_len`
/// file bytes and gives the pages to map; `None` for an empty segment.
pub fn plan_segment(virt_addr: u64, mem_size: u64, data_len: usize) -> (r: Result<Option<SegmentPlan>, ElfError>)
    ensures
        r == plan_check(virt_addr, mem_size, data_len),
        r matches Ok(Some(plan)) ==> plan.wf(),
{
    if mem_size == 0 {
        return Ok(None);
    }
    let segment_end = match virt_addr.checked_add(mem_size) {
        Some(end) => end,
        None => return Err(ElfError::InvalidFormat("Segment address overflow")),
    };
    let start_addr = virt_addr & !(PAGE_SIZE - 1);
    let end_addr = match segment_end.checked_add(PAGE_SIZE - 1) {
        Some(end) => end & !(PAGE_SIZE - 1),
        None => return Err(ElfError::InvalidFormat("Segment alignment overflow")),
    };
    proof {
        lemma_page_round_down(virt_addr);
        lemma_page_round_down((segment_end + 0xFFF) as u64);
    }
    if start_addr < USER_MIN {
        return Err(ElfError::InvalidFormat("Segment starts below userspace"));
    }
    if end_addr > USER_MAX {
        return Err(ElfError::InvalidFormat("Segment ends above userspace"));
    }
    let data_end = match virt_addr.checked_add(data_len as u64) {
        Some(end) => end,
        None => return Err(ElfError::InvalidFormat("Segment data overflow")),
    };
    Ok(Some(SegmentPlan { virt_addr, mem_size, start_addr, end_addr, data_end }))
}

/// The file bytes that land in the page at `page_addr`: the overlap of the
/// page with the bytes from `virt_addr` to `data_end`.
pub open spec fn page_copy_of(plan: SegmentPlan, page_addr: u64) -> Option<PageCopy> {
    let copy_start = if plan.virt_addr > page_addr { plan.virt_addr as int } else { page_addr as int };
    let copy_end = if plan.data_end < page_addr + PAGE_SIZE { plan.data_end as int } else { page_addr + PAGE_SIZE };
    if copy_start < copy_end {
        Some(
            PageCopy {
                source_offset: (copy_start - plan.virt_addr) as usize,
                destination_offset: (copy_start - page_addr) as usize,
                len: (copy_end - copy_start) as usize,
            },
        )
    } else {
        None
    }
}

/// The copy into the page at `page_addr` of a planned segment with
/// `data_len` file bytes.  The copy stays inside the page and inside the
/// file bytes, and each byte lands at its own address.
pub fn page_copy(plan: &SegmentPlan, data_len: usize, page_addr: u64) -> (r: Option<PageCopy>)
    requires
        plan.wf(),
        plan.data_end == plan.virt_addr + data_len,
        plan.start_addr <= page_addr < plan.end_addr,
    ensures
        r == page_copy_of(*plan, page_addr),
        r matches Some(c) ==> {
            &&& c.destination_offset + c.len <= PAGE_SIZE
            &&& c.source_offset + c.len <= data_len
            &&& page_addr + c.destination_offset == plan.virt_addr + c.source_offset
            &&& c.len > 0
        },
{
    let page_end = page_addr + PAGE_SIZE;
    let copy_start = if plan.virt_addr > page_addr { plan.virt_addr } else { page_addr };
    let copy_end = if plan.data_end < page_end { plan.data_end } else { page_end };
    if copy_start < copy_end {
        Some(
            PageCopy {
                source_offset: (copy_start - plan.virt_addr) as usize,
                destination_offset: (copy_start - page_addr) as usize,
                len: (copy_end - copy_start) as usize,
            },
        )
    } else {
        None
    }
}

/// What the launcher writes to the serial port when loading fails: the
/// failure, the kind of error with its message, and a line feed.
pub open spec fn elf_error_log_of(error: ElfError) -> Seq<LogPiece> {
    seq![LogPiece::Text("ELF LAUNCH: load_elf FAILED\n")] + match error {
        ElfError::ParseError(message) => seq![LogPiece::Text("ELF error: ParseError: "), LogPiece::Text(message)],
        ElfError::InvalidFormat(message) => seq![
            LogPiece::Text("ELF error: InvalidFormat: "),
            LogPiece::Text(message),
        ],
        ElfError::AllocationFailed => seq![LogPiece::Text("ELF error: AllocationFailed")],
    } + seq![LogPiece::Text("\n")]
}

/// The report of a failed load, for the serial port.
pub fn elf_error_log(error: ElfError) -> (r: Vec<LogPiece>)
    ensures
        r@ == elf_error_log_of(error),
{
    let mut pieces: Vec<LogPiece> = Vec::new();
    pieces.push(LogPiece::Text("ELF LAUNCH: load_elf FAILED\n"));
    match error {
        ElfError::ParseError(message) => {
            pieces.push(LogPiece::Text("ELF error: ParseError: "));
            pieces.push(LogPiece::Text(message));
        },
        ElfError::InvalidFormat(message) => {
            pieces.push(LogPiece::Text("ELF error: InvalidFormat: "));
            pieces.push(LogPiece::Text(message));
        },
        ElfError::AllocationFailed => {
            pieces.push(LogPiece::Text("ELF error: AllocationFailed"));
        },
    }
    pieces.push(LogPiece::Text("\n"));
    pieces
}

} // verus!
