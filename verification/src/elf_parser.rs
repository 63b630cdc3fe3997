//! Reading the object file: the file header, the program header table and
//! the section header table.
//!
//! All multi-byte fields are read as little-endian. A file of 64-bit class
//! has the 64-bit layout, any other file the 32-bit one. A table entry that
//! does not lie inside the file makes the file malformed.

use vstd::prelude::*;
use vstd::slice::{slice_subrange, slice_to_vec};
use vstd::utf8::{decode_utf8, valid_utf8};
use crate::endian::{in_range, le_value, read_u16, read_u32, read_u64};
use crate::error::EmulatorError;

verus! {

/// The operating system ABI that the file was made for, with the ABI
/// version byte that follows it in the file.
#[derive(Debug, Clone, Copy, PartialEq, Eq, Structural)]
pub enum ABI {
    SystemV(u8),
    HpUx(u8),
    NetBSD(u8),
    Linux(u8),
    GnuHurd(u8),
    Solaris(u8),
    AixMonterey(u8),
    IRIX(u8),
    FreeBSD(u8),
    Tru64(u8),
    NovellModesto(u8),
    OpenBSD(u8),
    OpenVMS(u8),
    NonStopKernel(u8),
    AROS(u8),
    FenixOS(u8),
    NuxiCloudAbi(u8),
    StratusTechnologiesOpenVos(u8),
    /// A tag that names none of the above, with the version byte.
    Unknown(u8, u8),
}

/// The class of the file.
#[derive(Debug, Clone, Copy, PartialEq, Eq, Structural)]
pub enum BinArc {
    X32,
    X64,
}

/// The byte order that the file announces.
#[derive(Debug, Clone, Copy, PartialEq, Eq, Structural)]
pub enum Endian {
    Little,
    Big,
}

/// The kind of object file.
#[derive(Debug, Clone, Copy, PartialEq, Eq, Structural)]
pub enum ObjType {
    EtNone,
    EtRel,
    EtExec,
    EtDyn,
    EtCore,
    EtLoos,
    EtHios,
    EtLoproc,
    EtHiproc,
    /// A value that names none of the above.
    Unknown(u16),
}

/// The file header.
#[derive(Debug, Clone, Copy, PartialEq, Eq, Structural)]
pub struct ELF {
    pub magic: u32,
    pub bin_arc: BinArc,
    pub endian: Endian,
    pub abi: ABI,
    pub obj_type: ObjType,
    pub machine: u16,
    pub entry_point: u64,
    pub program_header_address: u64,
    pub section_header_address: u64,
    pub elf_header_size: u16,
    pub program_header_size: u16,
    pub program_header_entries: u16,
    pub section_header_size: u16,
    pub section_header_entries: u16,
    pub section_header_names: u16,
}

/// The four magic bytes, read as a little-endian word.
pub const ELF_MAGIC: u32 = 0x464C_457F;

/// The machine number of RISC-V.
pub const MACHINE_RISCV: u16 = 0xF3;

/// The machine number of a file that names no machine.
pub const MACHINE_NONE: u16 = 0;

impl ABI {
    /// The ABI that the tag byte names.
    pub open spec fn of(tag: u8, version: u8) -> ABI {
        match tag {
            0x00 => ABI::SystemV(version),
            0x01 => ABI::HpUx(version),
            0x02 => ABI::NetBSD(version),
            0x03 => ABI::Linux(version),
            0x04 => ABI::GnuHurd(version),
            0x06 => ABI::Solaris(version),
            0x07 => ABI::AixMonterey(version),
            0x08 => ABI::IRIX(version),
            0x09 => ABI::FreeBSD(version),
            0x0A => ABI::Tru64(version),
            0x0B => ABI::NovellModesto(version),
            0x0C => ABI::OpenBSD(version),
            0x0D => ABI::OpenVMS(version),
            0x0E => ABI::NonStopKernel(version),
            0x0F => ABI::AROS(version),
            0x10 => ABI::FenixOS(version),
            0x11 => ABI::NuxiCloudAbi(version),
            0x12 => ABI::StratusTechnologiesOpenVos(version),
            _ => ABI::Unknown(tag, version),
        }
    }

    /// Decodes the tag byte and keeps the version byte.
    pub fn from_bytes(tag: u8, version: u8) -> (r: ABI)
        ensures
            r == ABI::of(tag, version),
    {
        match tag {
            0x00 => ABI::SystemV(version),
            0x01 => ABI::HpUx(version),
            0x02 => ABI::NetBSD(version),
            0x03 => ABI::Linux(version),
            0x04 => ABI::GnuHurd(version),
            0x06 => ABI::Solaris(version),
            0x07 => ABI::AixMonterey(version),
            0x08 => ABI::IRIX(version),
            0x09 => ABI::FreeBSD(version),
            0x0A => ABI::Tru64(version),
            0x0B => ABI::NovellModesto(version),
            0x0C => ABI::OpenBSD(version),
            0x0D => ABI::OpenVMS(version),
            0x0E => ABI::NonStopKernel(version),
            0x0F => ABI::AROS(version),
            0x10 => ABI::FenixOS(version),
            0x11 => ABI::NuxiCloudAbi(version),
            0x12 => ABI::StratusTechnologiesOpenVos(version),
            _ => ABI::Unknown(tag, version),
        }
    }
}

impl BinArc {
    /// The class that the class byte names: 2 is the 64-bit class.
    pub open spec fn of(class: u8) -> BinArc {
        if class == 2 {
            BinArc::X64
        } else {
            BinArc::X32
        }
    }

    /// The length of the file header in this class.
    pub open spec fn header_len(self) -> nat {
        match self {
            BinArc::X64 => 64,
            BinArc::X32 => 52,
        }
    }

    /// The length of a program header in this class.
    pub open spec fn program_header_len(self) -> nat {
        match self {
            BinArc::X64 => 56,
            BinArc::X32 => 32,
        }
    }

    /// The length of a section header in this class.
    pub open spec fn section_header_len(self) -> nat {
        match self {
            BinArc::X64 => 64,
            BinArc::X32 => 40,
        }
    }

    /// An address-sized field of a file of this class: eight bytes at
    /// `wide` in the 64-bit class, four bytes at `narrow` in the other.
    pub open spec fn word(self, file: Seq<u8>, wide: int, narrow: int) -> u64 {
        match self {
            BinArc::X64 => le_value(file, wide, 8) as u64,
            BinArc::X32 => le_value(file, narrow, 4) as u64,
        }
    }
}

impl Endian {
    /// The byte order that the data byte names: 2 is big-endian.
    pub open spec fn of(data: u8) -> Endian {
        if data == 2 {
            Endian::Big
        } else {
            Endian::Little
        }
    }
}

impl ObjType {
    /// The kind that the type field names.
    pub open spec fn of(value: u16) -> ObjType {
        match value {
            0x0000 => ObjType::EtNone,
            0x0001 => ObjType::EtRel,
            0x0002 => ObjType::EtExec,
            0x0003 => ObjType::EtDyn,
            0x0004 => ObjType::EtCore,
            0xFE00 => ObjType::EtLoos,
            0xFEFF => ObjType::EtHios,
            0xFF00 => ObjType::EtLoproc,
            0xFFFF => ObjType::EtHiproc,
            _ => ObjType::Unknown(value),
        }
    }

    /// Decodes the type field.
    pub fn from_u16(value: u16) -> (r: ObjType)
        ensures
            r == ObjType::of(value),
    {
        match value {
            0x0000 => ObjType::EtNone,
            0x0001 => ObjType::EtRel,
            0x0002 => ObjType::EtExec,
            0x0003 => ObjType::EtDyn,
            0x0004 => ObjType::EtCore,
            0xFE00 => ObjType::EtLoos,
            0xFEFF => ObjType::EtHios,
            0xFF00 => ObjType::EtLoproc,
            0xFFFF => ObjType::EtHiproc,
            _ => ObjType::Unknown(value),
        }
    }
}

/// Whether the file starts with `0x7F 'E' 'L' 'F'`.
pub open spec fn has_magic(file: Seq<u8>) -> bool {
    file.len() >= 4 && file[0] == 0x7F && file[1] == 0x45 && file[2] == 0x4C && file[3] == 0x46
}

/// The header that a file with a sound header holds.
pub open spec fn header_fields(file: Seq<u8>) -> ELF {
    let class = BinArc::of(file[4]);
    let rp: int = if class == BinArc::X64 {
        48
    } else {
        36
    };
    ELF {
        magic: le_value(file, 0, 4) as u32,
        bin_arc: class,
        endian: Endian::of(file[5]),
        abi: ABI::of(file[7], file[8]),
        obj_type: ObjType::of(le_value(file, 16, 2) as u16),
        machine: le_value(file, 18, 2) as u16,
        entry_point: class.word(file, 24, 24),
        program_header_address: class.word(file, 32, 28),
        section_header_address: class.word(file, 40, 32),
        elf_header_size: le_value(file, rp + 4, 2) as u16,
        program_header_size: le_value(file, rp + 6, 2) as u16,
        program_header_entries: le_value(file, rp + 8, 2) as u16,
        section_header_size: le_value(file, rp + 10, 2) as u16,
        section_header_entries: le_value(file, rp + 12, 2) as u16,
        section_header_names: le_value(file, rp + 14, 2) as u16,
    }
}

/// What reading the file header yields. The checks come in this order: the
/// magic bytes; the length of the file, which must hold a whole header of
/// its class; the version byte, which must be 1; the machine, which must be
/// RISC-V or unspecified.
pub open spec fn header_spec(file: Seq<u8>) -> Result<ELF, EmulatorError> {
    if !has_magic(file) {
        Err(EmulatorError::InvalidMagic)
    } else if file.len() < 52 || file.len() < BinArc::of(file[4]).header_len() {
        Err(EmulatorError::WrongHeaderProvieded)
    } else if file[6] != 1 {
        Err(EmulatorError::WrongHeaderProvieded)
    } else if header_fields(file).machine != MACHINE_RISCV && header_fields(file).machine
        != MACHINE_NONE {
        Err(EmulatorError::UnsupportedMachine)
    } else {
        Ok(header_fields(file))
    }
}

/// Reads the file header.
pub fn elf_parser(data: &[u8]) -> (r: Result<ELF, EmulatorError>)
    ensures
        r == header_spec(data@),
{
    proof {
        reveal_with_fuel(le_value, 5);
    }
    let len = data.len();
    if len < 4 || data[0] != 0x7F || data[1] != 0x45 || data[2] != 0x4C || data[3] != 0x46 {
        return Err(EmulatorError::InvalidMagic);
    }
    if len < 52 {
        return Err(EmulatorError::WrongHeaderProvieded);
    }
    let magic = read_u32(data, 0);
    let wide = data[4] == 2;
    if wide && len < 64 {
        return Err(EmulatorError::WrongHeaderProvieded);
    }
    if data[6] != 1 {
        return Err(EmulatorError::WrongHeaderProvieded);
    }
    let machine = read_u16(data, 18);
    if machine != MACHINE_RISCV && machine != MACHINE_NONE {
        return Err(EmulatorError::UnsupportedMachine);
    }
    let bin_arc = if wide {
        BinArc::X64
    } else {
        BinArc::X32
    };
    let endian = if data[5] == 2 {
        Endian::Big
    } else {
        Endian::Little
    };
    let rp: usize = if wide {
        48
    } else {
        36
    };
    Ok(
        ELF {
            magic,
            bin_arc,
            endian,
            abi: ABI::from_bytes(data[7], data[8]),
            obj_type: ObjType::from_u16(read_u16(data, 16)),
            machine,
            entry_point: if wide {
                read_u64(data, 24)
            } else {
                read_u32(data, 24) as u64
            },
            program_header_address: if wide {
                read_u64(data, 32)
            } else {
                read_u32(data, 28) as u64
            },
            section_header_address: if wide {
                read_u64(data, 40)
            } else {
                read_u32(data, 32) as u64
            },
            elf_header_size: read_u16(data, rp + 4),
            program_header_size: read_u16(data, rp + 6),
            program_header_entries: read_u16(data, rp + 8),
            section_header_size: read_u16(data, rp + 10),
            section_header_entries: read_u16(data, rp + 12),
            section_header_names: read_u16(data, rp + 14),
        },
    )
}

/// Whether the identification bytes announce the one layout that is read as
/// announced: 64-bit class and little-endian data. Any other file is read
/// all the same, as little-endian and in the layout of its class.
pub fn announces_rv64_layout(data: &[u8]) -> (r: bool)
    ensures
        r == (data@.len() >= 6 && data@[4] == 2 && data@[5] == 1),
{
    data.len() >= 6 && data[4] == 2 && data[5] == 1
}

/// Where entry `index` of a table starts that begins at `start` and whose
/// entries are `size` bytes apart.
pub open spec fn entry_at(start: u64, size: u16, index: int) -> int {
    start + index * size
}

/// Whether the first `count` entries of a table, each `need` bytes long,
/// all lie inside a file of `len` bytes.
pub open spec fn table_fits(len: nat, start: u64, size: u16, count: int, need: nat) -> bool {
    forall|i: int| 0 <= i < count ==> in_range(len, #[trigger] entry_at(start, size, i), need)
}

/// The offset of entry `index`, if the entry lies inside the file.
fn entry_offset(len: usize, start: u64, size: u16, index: u16, need: usize) -> (r: Option<usize>)
    requires
        need <= 64,
    ensures
        r == if in_range(len as nat, entry_at(start, size, index as int), need as nat) {
            Some(entry_at(start, size, index as int) as usize)
        } else {
            None::<usize>
        },
{
    assert(0 <= index * size <= 0xFFFF * 0xFFFF) by (nonlinear_arith)
        requires
            0 <= index <= 0xFFFF,
            0 <= size <= 0xFFFF,
    ;
    let rel = index as u64 * size as u64;
    if start > u64::MAX - rel {
        return None;
    }
    let at = start + rel;
    if at > len as u64 || len as u64 - at < need as u64 {
        return None;
    }
    Some(at as usize)
}

/// The kind of a segment.
#[derive(Debug, Clone, Copy, PartialEq, Eq, Structural)]
pub enum ProgramHeaderType {
    PtNull,
    PtLoad,
    PtDynamic,
    PtInterp,
    PtNote,
    PtShlib,
    PtPhdr,
    PtTls,
    PtLoos,
    PtHios,
    PtLoproc,
    PtHiproc,
    /// A value that names none of the above.
    Unknown(u32),
}

/// A permission of a segment.
#[derive(Debug, Clone, Copy, PartialEq, Eq, Structural)]
pub enum ProgramHeaderFlags {
    /// The segment may be executed: bit 0 of the flags.
    PfX,
    /// The segment may be written: bit 1 of the flags.
    PfW,
    /// The segment may be read: bit 2 of the flags.
    PfR,
    /// No permission. The parser never yields it.
    Error,
}

/// An entry of the program header table. The table is read for the
/// caller's information: what is placed in memory is decided by the section
/// headers.
#[derive(Debug, Clone)]
pub struct ProgramHeader {
    pub p_type: ProgramHeaderType,
    pub p_flags: Vec<ProgramHeaderFlags>,
    pub segment_offset: u64,
    pub virtual_address: u64,
    pub physical_address: u64,
    pub segment_size: u64,
    pub mem_size: u64,
    pub alignment: u64,
}

impl ProgramHeaderType {
    /// The kind that the type field names.
    pub open spec fn of(value: u32) -> ProgramHeaderType {
        match value {
            0x0000_0000 => ProgramHeaderType::PtNull,
            0x0000_0001 => ProgramHeaderType::PtLoad,
            0x0000_0002 => ProgramHeaderType::PtDynamic,
            0x0000_0003 => ProgramHeaderType::PtInterp,
            0x0000_0004 => ProgramHeaderType::PtNote,
            0x0000_0005 => ProgramHeaderType::PtShlib,
            0x0000_0006 => ProgramHeaderType::PtPhdr,
            0x0000_0007 => ProgramHeaderType::PtTls,
            0x6000_0000 => ProgramHeaderType::PtLoos,
            0x6FFF_FFFF => ProgramHeaderType::PtHios,
            0x7000_0000 => ProgramHeaderType::PtLoproc,
            0x7FFF_FFFF => ProgramHeaderType::PtHiproc,
            _ => ProgramHeaderType::Unknown(value),
        }
    }

    /// Decodes the type field.
    pub fn from_u32(value: u32) -> (r: ProgramHeaderType)
        ensures
            r == ProgramHeaderType::of(value),
    {
        match value {
            0x0000_0000 => ProgramHeaderType::PtNull,
            0x0000_0001 => ProgramHeaderType::PtLoad,
            0x0000_0002 => ProgramHeaderType::PtDynamic,
            0x0000_0003 => ProgramHeaderType::PtInterp,
            0x0000_0004 => ProgramHeaderType::PtNote,
            0x0000_0005 => ProgramHeaderType::PtShlib,
            0x0000_0006 => ProgramHeaderType::PtPhdr,
            0x0000_0007 => ProgramHeaderType::PtTls,
            0x6000_0000 => ProgramHeaderType::PtLoos,
            0x6FFF_FFFF => ProgramHeaderType::PtHios,
            0x7000_0000 => ProgramHeaderType::PtLoproc,
            0x7FFF_FFFF => ProgramHeaderType::PtHiproc,
            _ => ProgramHeaderType::Unknown(value),
        }
    }
}

/// One permission, where its bit is set in `bits`.
pub open spec fn flag_if(bits: u32, mask: u32, flag: ProgramHeaderFlags) -> Seq<
    ProgramHeaderFlags,
> {
    if bits & mask != 0 {
        seq![flag]
    } else {
        seq![]
    }
}

/// The permissions that the flags field grants, in the order execute,
/// write, read.
pub open spec fn flags_of(bits: u32) -> Seq<ProgramHeaderFlags> {
    flag_if(bits, 0x1, ProgramHeaderFlags::PfX) + flag_if(bits, 0x2, ProgramHeaderFlags::PfW)
        + flag_if(bits, 0x4, ProgramHeaderFlags::PfR)
}

/// Decodes the flags field.
pub fn decode_flags(bits: u32) -> (flags: Vec<ProgramHeaderFlags>)
    ensures
        flags@ == flags_of(bits),
{
    let mut flags = Vec::new();
    if bits & 0x1 != 0 {
        flags.push(ProgramHeaderFlags::PfX);
    }
    if bits & 0x2 != 0 {
        flags.push(ProgramHeaderFlags::PfW);
    }
    if bits & 0x4 != 0 {
        flags.push(ProgramHeaderFlags::PfR);
    }
    assert(flags@ =~= flags_of(bits));
    flags
}

/// The offset of the flags field inside a program header.
pub open spec fn flags_offset(class: BinArc) -> int {
    match class {
        BinArc::X64 => 8,
        BinArc::X32 => 24,
    }
}

/// Whether `header` holds the fields of the program header that starts at
/// `at` in a file of the given class.
pub open spec fn is_program_header(file: Seq<u8>, class: BinArc, at: int, header: ProgramHeader)
    -> bool {
    &&& header.p_type == ProgramHeaderType::of(le_value(file, at, 4) as u32)
    &&& header.p_flags@ == flags_of(le_value(file, at + flags_offset(class), 4) as u32)
    &&& header.segment_offset == class.word(file, at + 8, at + 4)
    &&& header.virtual_address == class.word(file, at + 16, at + 8)
    &&& header.physical_address == class.word(file, at + 24, at + 12)
    &&& header.segment_size == class.word(file, at + 32, at + 16)
    &&& header.mem_size == class.word(file, at + 40, at + 20)
    &&& header.alignment == class.word(file, at + 48, at + 28)
}

/// Reads the program header that starts at `at`.
fn read_program_header(data: &[u8], wide: bool, at: usize) -> (header: ProgramHeader)
    requires
        in_range(
            data.len() as nat,
            at as int,
            if wide {
                56
            } else {
                32
            },
        ),
    ensures
        is_program_header(
            data@,
            if wide {
                BinArc::X64
            } else {
                BinArc::X32
            },
            at as int,
            header,
        ),
{
    let p_type = ProgramHeaderType::from_u32(read_u32(data, at));
    if wide {
        ProgramHeader {
            p_type,
            p_flags: decode_flags(read_u32(data, at + 8)),
            segment_offset: read_u64(data, at + 8),
            virtual_address: read_u64(data, at + 16),
            physical_address: read_u64(data, at + 24),
            segment_size: read_u64(data, at + 32),
            mem_size: read_u64(data, at + 40),
            alignment: read_u64(data, at + 48),
        }
    } else {
        ProgramHeader {
            p_type,
            p_flags: decode_flags(read_u32(data, at + 24)),
            segment_offset: read_u32(data, at + 4) as u64,
            virtual_address: read_u32(data, at + 8) as u64,
            physical_address: read_u32(data, at + 12) as u64,
            segment_size: read_u32(data, at + 16) as u64,
            mem_size: read_u32(data, at + 20) as u64,
            alignment: read_u32(data, at + 28) as u64,
        }
    }
}

/// Whether the program header table of `elf` lies inside the file.
pub open spec fn program_table_fits(file: Seq<u8>, elf: ELF) -> bool {
    table_fits(
        file.len(),
        elf.program_header_address,
        elf.program_header_size,
        elf.program_header_entries as int,
        elf.bin_arc.program_header_len(),
    )
}

/// Whether `headers` is the program header table of `elf` in `file`.
pub open spec fn is_program_table(file: Seq<u8>, elf: ELF, headers: Seq<ProgramHeader>) -> bool {
    &&& headers.len() == elf.program_header_entries
    &&& forall|i: int|
        0 <= i < headers.len() ==> is_program_header(
            file,
            elf.bin_arc,
            entry_at(elf.program_header_address, elf.program_header_size, i),
            #[trigger] headers[i],
        )
}

/// Reads the program header table that the file header points at.
///
/// The result is the table, entry by entry, if every entry lies inside the
/// file, and `WrongHeaderProvieded` if one does not.
pub fn program_header_parser(data: &[u8], elf: &ELF) -> (r: Result<
    Vec<ProgramHeader>,
    EmulatorError,
>)
    ensures
        program_table_fits(data@, *elf) ==> r is Ok && is_program_table(data@, *elf, r->Ok_0@),
        !program_table_fits(data@, *elf) ==> r is Err && r->Err_0
            == EmulatorError::WrongHeaderProvieded,
{
    let wide = match elf.bin_arc {
        BinArc::X64 => true,
        BinArc::X32 => false,
    };
    let need: usize = if wide {
        56
    } else {
        32
    };
    let len = data.len();
    let mut v: Vec<ProgramHeader> = Vec::new();
    let mut i: u16 = 0;
    while i < elf.program_header_entries
        invariant
            len == data.len(),
            need == elf.bin_arc.program_header_len(),
            wide == (elf.bin_arc == BinArc::X64),
            i <= elf.program_header_entries,
            v@.len() == i,
            table_fits(
                len as nat,
                elf.program_header_address,
                elf.program_header_size,
                i as int,
                need as nat,
            ),
            forall|k: int|
                0 <= k < i ==> is_program_header(
                    data@,
                    elf.bin_arc,
                    entry_at(elf.program_header_address, elf.program_header_size, k),
                    #[trigger] v@[k],
                ),
        decreases elf.program_header_entries - i,
    {
        match entry_offset(len, elf.program_header_address, elf.program_header_size, i, need) {
            Some(at) => {
                v.push(read_program_header(data, wide, at));
            },
            None => {
                assert(!in_range(
                    len as nat,
                    entry_at(elf.program_header_address, elf.program_header_size, i as int),
                    need as nat,
                ));
                return Err(EmulatorError::WrongHeaderProvieded);
            },
        }
        i += 1;
    }
    Ok(v)
}

/// The kind of a section.
#[derive(Debug, Clone, Copy, PartialEq, Eq, Structural)]
pub enum SectionHeaderType {
    ShtNull,
    ShtProgbits,
    ShtSymtab,
    ShtStrtab,
    ShtRela,
    ShtHash,
    ShtDynamic,
    ShtNote,
    ShtNobits,
    ShtRel,
    ShtShlib,
    ShtDynsym,
    ShtInitArray,
    ShtFiniArray,
    ShtPreinitArray,
    ShtGroup,
    ShtSymtabShndx,
    ShtNum,
    ShtLoos,
    /// A value that names none of the above.
    Unknown(u32),
}

/// An entry of the section header table. `name` is where the name starts
/// in the string table; `name_str` is the name itself, once it has been
/// looked up there.
#[derive(Debug, Clone)]
pub struct SectionHeader {
    pub name: u32,
    pub name_str: Option<String>,
    pub section_type: SectionHeaderType,
    pub flags: u64,
    pub section_address: u64,
    pub section_offset: u64,
    pub section_size: u64,
    pub link: u32,
    pub info: u32,
    pub alignment: u64,
    pub entry_size: u64,
}

impl SectionHeaderType {
    /// The kind that the type field names.
    pub open spec fn of(value: u32) -> SectionHeaderType {
        match value {
            0x00 => SectionHeaderType::ShtNull,
            0x01 => SectionHeaderType::ShtProgbits,
            0x02 => SectionHeaderType::ShtSymtab,
            0x03 => SectionHeaderType::ShtStrtab,
            0x04 => SectionHeaderType::ShtRela,
            0x05 => SectionHeaderType::ShtHash,
            0x06 => SectionHeaderType::ShtDynamic,
            0x07 => SectionHeaderType::ShtNote,
            0x08 => SectionHeaderType::ShtNobits,
            0x09 => SectionHeaderType::ShtRel,
            0x0A => SectionHeaderType::ShtShlib,
            0x0B => SectionHeaderType::ShtDynsym,
            0x0E => SectionHeaderType::ShtInitArray,
            0x0F => SectionHeaderType::ShtFiniArray,
            0x10 => SectionHeaderType::ShtPreinitArray,
            0x11 => SectionHeaderType::ShtGroup,
            0x12 => SectionHeaderType::ShtSymtabShndx,
            0x13 => SectionHeaderType::ShtNum,
            0x6000_0000 => SectionHeaderType::ShtLoos,
            _ => SectionHeaderType::Unknown(value),
        }
    }

    /// Decodes the type field.
    pub fn from_u32(value: u32) -> (r: SectionHeaderType)
        ensures
            r == SectionHeaderType::of(value),
    {
        match value {
            0x00 => SectionHeaderType::ShtNull,
            0x01 => SectionHeaderType::ShtProgbits,
            0x02 => SectionHeaderType::ShtSymtab,
            0x03 => SectionHeaderType::ShtStrtab,
            0x04 => SectionHeaderType::ShtRela,
            0x05 => SectionHeaderType::ShtHash,
            0x06 => SectionHeaderType::ShtDynamic,
            0x07 => SectionHeaderType::ShtNote,
            0x08 => SectionHeaderType::ShtNobits,
            0x09 => SectionHeaderType::ShtRel,
            0x0A => SectionHeaderType::ShtShlib,
            0x0B => SectionHeaderType::ShtDynsym,
            0x0E => SectionHeaderType::ShtInitArray,
            0x0F => SectionHeaderType::ShtFiniArray,
            0x10 => SectionHeaderType::ShtPreinitArray,
            0x11 => SectionHeaderType::ShtGroup,
            0x12 => SectionHeaderType::ShtSymtabShndx,
            0x13 => SectionHeaderType::ShtNum,
            0x6000_0000 => SectionHeaderType::ShtLoos,
            _ => SectionHeaderType::Unknown(value),
        }
    }
}

/// A four-byte field of a section header: at `wide` in the 64-bit class,
/// at `narrow` in the other.
pub open spec fn half_word(class: BinArc, file: Seq<u8>, wide: int, narrow: int) -> u32 {
    match class {
        BinArc::X64 => le_value(file, wide, 4) as u32,
        BinArc::X32 => le_value(file, narrow, 4) as u32,
    }
}

/// The section header that starts at `at` in a file of the given class,
/// with its name not yet looked up.
pub open spec fn section_header_spec(file: Seq<u8>, class: BinArc, at: int) -> SectionHeader {
    SectionHeader {
        name: le_value(file, at, 4) as u32,
        name_str: None,
        section_type: SectionHeaderType::of(le_value(file, at + 4, 4) as u32),
        flags: class.word(file, at + 8, at + 8),
        section_address: class.word(file, at + 16, at + 12),
        section_offset: class.word(file, at + 24, at + 16),
        section_size: class.word(file, at + 32, at + 20),
        link: half_word(class, file, at + 40, at + 24),
        info: half_word(class, file, at + 44, at + 28),
        alignment: class.word(file, at + 48, at + 32),
        entry_size: class.word(file, at + 56, at + 36),
    }
}

/// Reads the section header that starts at `at`.
fn read_section_header(data: &[u8], wide: bool, at: usize) -> (header: SectionHeader)
    requires
        in_range(
            data.len() as nat,
            at as int,
            if wide {
                64
            } else {
                40
            },
        ),
    ensures
        header == section_header_spec(
            data@,
            if wide {
                BinArc::X64
            } else {
                BinArc::X32
            },
            at as int,
        ),
{
    let name = read_u32(data, at);
    let section_type = SectionHeaderType::from_u32(read_u32(data, at + 4));
    if wide {
        SectionHeader {
            name,
            name_str: None,
            section_type,
            flags: read_u64(data, at + 8),
            section_address: read_u64(data, at + 16),
            section_offset: read_u64(data, at + 24),
            section_size: read_u64(data, at + 32),
            link: read_u32(data, at + 40),
            info: read_u32(data, at + 44),
            alignment: read_u64(data, at + 48),
            entry_size: read_u64(data, at + 56),
        }
    } else {
        SectionHeader {
            name,
            name_str: None,
            section_type,
            flags: read_u32(data, at + 8) as u64,
            section_address: read_u32(data, at + 12) as u64,
            section_offset: read_u32(data, at + 16) as u64,
            section_size: read_u32(data, at + 20) as u64,
            link: read_u32(data, at + 24),
            info: read_u32(data, at + 28),
            alignment: read_u32(data, at + 32) as u64,
            entry_size: read_u32(data, at + 36) as u64,
        }
    }
}

/// Whether the section header table of `elf` lies inside the file.
pub open spec fn section_table_fits(file: Seq<u8>, elf: ELF) -> bool {
    table_fits(
        file.len(),
        elf.section_header_address,
        elf.section_header_size,
        elf.section_header_entries as int,
        elf.bin_arc.section_header_len(),
    )
}

/// The section header table of `elf` in `file`, names not yet looked up.
pub open spec fn raw_section_table(file: Seq<u8>, elf: ELF) -> Seq<SectionHeader> {
    Seq::new(
        elf.section_header_entries as nat,
        |i: int|
            section_header_spec(
                file,
                elf.bin_arc,
                entry_at(elf.section_header_address, elf.section_header_size, i),
            ),
    )
}

/// What reading the section header table yields.
pub open spec fn raw_sections_spec(file: Seq<u8>, elf: ELF) -> Result<
    Seq<SectionHeader>,
    EmulatorError,
> {
    if section_table_fits(file, elf) {
        Ok(raw_section_table(file, elf))
    } else {
        Err(EmulatorError::WrongHeaderProvieded)
    }
}

/// Reads the section header table that the file header points at, without
/// looking up the names.
///
/// The result is the table, entry by entry, if every entry lies inside the
/// file, and `WrongHeaderProvieded` if one does not.
pub fn raw_section_header_parser(data: &[u8], elf: &ELF) -> (r: Result<
    Vec<SectionHeader>,
    EmulatorError,
>)
    ensures
        match raw_sections_spec(data@, *elf) {
            Ok(table) => r is Ok && r->Ok_0@ == table,
            Err(e) => r is Err && r->Err_0 == e,
        },
{
    let wide = match elf.bin_arc {
        BinArc::X64 => true,
        BinArc::X32 => false,
    };
    let need: usize = if wide {
        64
    } else {
        40
    };
    let len = data.len();
    let mut v: Vec<SectionHeader> = Vec::new();
    let mut i: u16 = 0;
    while i < elf.section_header_entries
        invariant
            len == data.len(),
            need == elf.bin_arc.section_header_len(),
            wide == (elf.bin_arc == BinArc::X64),
            i <= elf.section_header_entries,
            v@.len() == i,
            table_fits(
                len as nat,
                elf.section_header_address,
                elf.section_header_size,
                i as int,
                need as nat,
            ),
            forall|k: int| 0 <= k < i ==> #[trigger] v@[k] == raw_section_table(data@, *elf)[k],
        decreases elf.section_header_entries - i,
    {
        match entry_offset(len, elf.section_header_address, elf.section_header_size, i, need) {
            Some(at) => {
                v.push(read_section_header(data, wide, at));
            },
            None => {
                assert(!in_range(
                    len as nat,
                    entry_at(elf.section_header_address, elf.section_header_size, i as int),
                    need as nat,
                ));
                return Err(EmulatorError::WrongHeaderProvieded);
            },
        }
        i += 1;
    }
    assert(v@ =~= raw_section_table(data@, *elf));
    Ok(v)
}

/// Whether `index` is the first position of `s` whose item satisfies `p`.
pub open spec fn is_first_where<T>(s: Seq<T>, p: spec_fn(T) -> bool, index: int) -> bool {
    &&& 0 <= index < s.len()
    &&& p(s[index])
    &&& forall|j: int| 0 <= j < index ==> !p(#[trigger] s[j])
}

/// The first position of `s` whose item satisfies `p`, if there is one.
pub open spec fn first_where<T>(s: Seq<T>, p: spec_fn(T) -> bool) -> Option<int> {
    if exists|i: int| is_first_where(s, p, i) {
        Some(choose|i: int| is_first_where(s, p, i))
    } else {
        None
    }
}

/// A first position is the first position, and where no item satisfies
/// `p` there is none.
pub proof fn lemma_first_where<T>(s: Seq<T>, p: spec_fn(T) -> bool, found: Option<int>)
    requires
        match found {
            Some(i) => is_first_where(s, p, i),
            None => forall|j: int| 0 <= j < s.len() ==> !p(#[trigger] s[j]),
        },
    ensures
        first_where(s, p) == found,
{
    match found {
        Some(i) => {
            let c = choose|c: int| is_first_where(s, p, c);
            assert(is_first_where(s, p, c));
            if c < i {
                assert(!p(s[c]));
            } else if i < c {
                assert(!p(s[i]));
            }
        },
        None => {
            assert forall|i: int| !is_first_where(s, p, i) by {
                if 0 <= i < s.len() {
                    assert(!p(s[i]));
                }
            }
        },
    }
}

/// Whether a section is a string table.
pub open spec fn is_string_table() -> spec_fn(SectionHeader) -> bool {
    |h: SectionHeader| h.section_type == SectionHeaderType::ShtStrtab
}

/// Whether a section has been given the name `name`.
pub open spec fn is_named(name: Seq<char>) -> spec_fn(SectionHeader) -> bool {
    |h: SectionHeader| h.name_view() == Some(name)
}

impl SectionHeader {
    /// The name that has been looked up, as a sequence of characters.
    pub open spec fn name_view(self) -> Option<Seq<char>> {
        match self.name_str {
            Some(name) => Some(name@),
            None => None,
        }
    }

    /// Whether the two headers agree in every field but the looked-up name.
    pub open spec fn same_fields(self, other: SectionHeader) -> bool {
        &&& self.name == other.name
        &&& self.section_type == other.section_type
        &&& self.flags == other.flags
        &&& self.section_address == other.section_address
        &&& self.section_offset == other.section_offset
        &&& self.section_size == other.section_size
        &&& self.link == other.link
        &&& self.info == other.info
        &&& self.alignment == other.alignment
        &&& self.entry_size == other.entry_size
    }
}

/// Whether the name that starts at `start` ends at `end`: there is the
/// first zero byte at or after `start`.
pub open spec fn is_name_end(file: Seq<u8>, start: int, end: int) -> bool {
    &&& 0 <= start <= end < file.len()
    &&& file[end] == 0
    &&& forall|k: int| start <= k < end ==> file[k] != 0
}

/// The bytes of the name that starts at `start`, without the zero byte
/// that ends it; nothing if the file ends before the name does.
pub open spec fn name_bytes(file: Seq<u8>, start: int) -> Option<Seq<u8>> {
    if exists|end: int| is_name_end(file, start, end) {
        Some(file.subrange(start, choose|end: int| is_name_end(file, start, end)))
    } else {
        None
    }
}

/// The name that starts at `start`. A name that the file cuts short makes
/// the file malformed; a name that is not UTF-8 is an error of its own.
pub open spec fn section_name(file: Seq<u8>, start: int) -> Result<Seq<char>, EmulatorError> {
    match name_bytes(file, start) {
        None => Err(EmulatorError::WrongHeaderProvieded),
        Some(bytes) => if valid_utf8(bytes) {
            Ok(decode_utf8(bytes))
        } else {
            Err(EmulatorError::FromUtf8)
        },
    }
}

/// The names of the first `count` sections, looked up in the string table
/// that starts at `table`. The first name that cannot be had decides the
/// error.
pub open spec fn resolved_names(
    file: Seq<u8>,
    headers: Seq<SectionHeader>,
    table: u64,
    count: nat,
) -> Result<Seq<Seq<char>>, EmulatorError>
    decreases count,
{
    if count == 0 {
        Ok(Seq::empty())
    } else {
        match resolved_names(file, headers, table, (count - 1) as nat) {
            Err(e) => Err(e),
            Ok(names) => match section_name(file, table + headers[count - 1].name) {
                Ok(name) => Ok(names.push(name)),
                Err(e) => Err(e),
            },
        }
    }
}

/// The names of all sections. They are looked up in the first section of
/// string-table type; without such a section there are no names.
pub open spec fn names_spec(file: Seq<u8>, headers: Seq<SectionHeader>) -> Result<
    Seq<Seq<char>>,
    EmulatorError,
> {
    match first_where(headers, is_string_table()) {
        None => Err(EmulatorError::StrTabError),
        Some(t) => resolved_names(file, headers, headers[t].section_offset, headers.len()),
    }
}

/// `std::string::String::from_utf8`. It succeeds exactly on valid UTF-8,
/// and the string it then returns is made of the characters that the bytes
/// encode.
#[verifier::external_body]
fn string_from_utf8(bytes: Vec<u8>) -> (r: Result<String, std::string::FromUtf8Error>)
    ensures
        r is Ok <==> valid_utf8(bytes@),
        r matches Ok(s) ==> s@ == decode_utf8(bytes@),
{
    String::from_utf8(bytes)
}

/// Finds the zero byte that ends the name starting at `start`.
fn find_name_end(data: &[u8], start: usize) -> (r: Option<usize>)
    ensures
        match r {
            Some(end) => is_name_end(data@, start as int, end as int),
            None => forall|end: int| !is_name_end(data@, start as int, end),
        },
{
    let len = data.len();
    let mut end = start;
    while end < len
        invariant
            len == data.len(),
            start <= end,
            forall|k: int| start <= k < end && k < len ==> data@[k] != 0,
        decreases len - end,
    {
        if data[end] == 0 {
            return Some(end);
        }
        end += 1;
    }
    assert forall|e: int| !is_name_end(data@, start as int, e) by {
        if start <= e < len {
            assert(data@[e] != 0);
        }
    }
    None
}

/// Looks up the name that starts `name` bytes into the string table at
/// `table`.
fn read_name(data: &[u8], table: u64, name: u32) -> (r: Result<String, EmulatorError>)
    ensures
        match section_name(data@, table + name) {
            Ok(n) => r is Ok && r->Ok_0@ == n,
            Err(e) => r is Err && r->Err_0 == e,
        },
{
    let len = data.len();
    if table > len as u64 || name as u64 > len as u64 - table {
        proof {
            let start: int = table + name;
            assert forall|e: int| !is_name_end(data@, start, e) by {}
        }
        return Err(EmulatorError::WrongHeaderProvieded);
    }
    let start = (table + name as u64) as usize;
    match find_name_end(data, start) {
        None => Err(EmulatorError::WrongHeaderProvieded),
        Some(end) => {
            proof {
                let c = choose|c: int| is_name_end(data@, start as int, c);
                assert(is_name_end(data@, start as int, c));
                if c < end {
                    assert(data@[c] != 0);
                } else if end < c {
                    assert(data@[end as int] != 0);
                }
            }
            let bytes = slice_to_vec(slice_subrange(data, start, end));
            match string_from_utf8(bytes) {
                Ok(s) => Ok(s),
                Err(e) => Err(EmulatorError::from(e)),
            }
        },
    }
}

/// Finds the first section of string-table type.
fn find_string_table(v: &Vec<SectionHeader>) -> (r: Option<usize>)
    ensures
        match r {
            Some(t) => first_where(v@, is_string_table()) == Some(t as int) && t < v@.len(),
            None => first_where(v@, is_string_table()) == None::<int>,
        },
{
    let mut i: usize = 0;
    while i < v.len()
        invariant
            i <= v@.len(),
            forall|j: int| 0 <= j < i ==> !is_string_table()(#[trigger] v@[j]),
        decreases v@.len() - i,
    {
        if v[i].section_type == SectionHeaderType::ShtStrtab {
            proof {
                lemma_first_where(v@, is_string_table(), Some(i as int));
            }
            return Some(i);
        }
        i += 1;
    }
    proof {
        lemma_first_where(v@, is_string_table(), None);
    }
    None
}

/// The names of a list of strings, as sequences of characters.
pub open spec fn views(names: Seq<String>) -> Seq<Seq<char>> {
    Seq::new(names.len(), |i: int| names[i]@)
}

/// Looks up the name of every section and stores it in the section's
/// header.
///
/// The names are found in the first section of string-table type, each at
/// the offset that its header gives, and end at the first zero byte. On
/// success every header has its name, nothing else in it has changed, and
/// the names are returned in the order of the headers. On failure the
/// headers are as they were.
pub fn section_header_final(data: &[u8], v: &mut Vec<SectionHeader>) -> (r: Result<
    Vec<String>,
    EmulatorError,
>)
    ensures
        match names_spec(data@, old(v)@) {
            Ok(names) => {
                &&& r is Ok
                &&& views(r->Ok_0@) == names
                &&& names.len() == old(v)@.len()
                &&& final(v)@.len() == old(v)@.len()
                &&& forall|i: int|
                    0 <= i < names.len() ==> (#[trigger] final(v)@[i]).same_fields(old(v)@[i])
                        && final(v)@[i].name_view() == Some(names[i])
            },
            Err(e) => r is Err && r->Err_0 == e && final(v)@ == old(v)@,
        },
{
    let table = match find_string_table(v) {
        Some(t) => v[t].section_offset,
        None => {
            return Err(EmulatorError::StrTabError);
        },
    };
    let count = v.len();
    let mut names: Vec<String> = Vec::new();
    let mut i: usize = 0;
    assert(views(names@) =~= Seq::empty());
    while i < count
        invariant
            v@ == old(v)@,
            names_spec(data@, v@) == resolved_names(data@, v@, table, count as nat),
            count == v@.len(),
            i <= count,
            names@.len() == i,
            resolved_names(data@, v@, table, i as nat) == Ok::<Seq<Seq<char>>, EmulatorError>(
                views(names@),
            ),
        decreases count - i,
    {
        let ghost before = views(names@);
        match read_name(data, table, v[i].name) {
            Ok(name) => {
                names.push(name);
                assert(views(names@) =~= before.push(name@));
            },
            Err(e) => {
                proof {
                    assert(resolved_names(data@, v@, table, (i + 1) as nat) == Err::<
                        Seq<Seq<char>>,
                        EmulatorError,
                    >(e));
                    lemma_resolved_names_fail(data@, v@, table, (i + 1) as nat, count as nat);
                }
                return Err(e);
            },
        }
        i += 1;
    }
    let mut k: usize = 0;
    while k < count
        invariant
            count == v@.len(),
            count == names@.len(),
            count == old(v)@.len(),
            k <= count,
            forall|j: int|
                0 <= j < k ==> (#[trigger] v@[j]).same_fields(old(v)@[j]) && v@[j].name_view()
                    == Some(names@[j]@),
            forall|j: int| k <= j < count ==> v@[j] == old(v)@[j],
        decreases count - k,
    {
        v[k].name_str = Some(names[k].clone());
        k += 1;
    }
    Ok(names)
}

/// Once a name cannot be had, no longer list of names can be had either,
/// and the error stays the same.
proof fn lemma_resolved_names_fail(
    file: Seq<u8>,
    headers: Seq<SectionHeader>,
    table: u64,
    failed: nat,
    count: nat,
)
    requires
        failed <= count,
        resolved_names(file, headers, table, failed) is Err,
    ensures
        resolved_names(file, headers, table, count) == resolved_names(file, headers, table, failed),
    decreases count,
{
    if failed < count {
        lemma_resolved_names_fail(file, headers, table, failed, (count - 1) as nat);
    }
}

/// Finds the first section that has been given the name `name`.
pub fn find_section(headers: &Vec<SectionHeader>, name: &str) -> (r: Option<usize>)
    ensures
        match r {
            Some(i) => first_where(headers@, is_named(name@)) == Some(i as int) && i
                < headers@.len(),
            None => first_where(headers@, is_named(name@)) == None::<int>,
        },
{
    let wanted = name.to_owned();
    let mut i: usize = 0;
    while i < headers.len()
        invariant
            i <= headers@.len(),
            wanted@ == name@,
            forall|j: int| 0 <= j < i ==> !is_named(name@)(#[trigger] headers@[j]),
        decreases headers@.len() - i,
    {
        let found = match &headers[i].name_str {
            Some(s) => *s == wanted,
            None => false,
        };
        if found {
            proof {
                lemma_first_where(headers@, is_named(name@), Some(i as int));
            }
            return Some(i);
        }
        i += 1;
    }
    proof {
        lemma_first_where(headers@, is_named(name@), None);
    }
    None
}

/// The name of the section that holds the code.
pub open spec fn text_name() -> Seq<char> {
    ".text"@
}

/// The name of the section that holds the initialised data.
pub open spec fn data_name() -> Seq<char> {
    ".data"@
}

/// The first section named `.text`. A file without one cannot be run.
pub fn find_text_section(headers: &Vec<SectionHeader>) -> (r: Result<
    &SectionHeader,
    EmulatorError,
>)
    ensures
        match first_where(headers@, is_named(text_name())) {
            Some(i) => r is Ok && *r->Ok_0 == headers@[i] && 0 <= i < headers@.len(),
            None => r is Err && r->Err_0 == EmulatorError::NoTextSection,
        },
{
    match find_section(headers, ".text") {
        Some(i) => Ok(&headers[i]),
        None => Err(EmulatorError::NoTextSection),
    }
}

/// The first section named `.data`, if there is one.
pub fn find_data_section(headers: &Vec<SectionHeader>) -> (r: Option<&SectionHeader>)
    ensures
        match first_where(headers@, is_named(data_name())) {
            Some(i) => r is Some && *r->Some_0 == headers@[i] && 0 <= i < headers@.len(),
            None => r is None,
        },
{
    match find_section(headers, ".data") {
        Some(i) => Some(&headers[i]),
        None => None,
    }
}

/// The bytes of a section: those of the file from the section's offset on,
/// as many as its size says. A section that does not lie inside the file
/// makes the file malformed.
pub open spec fn section_bytes(file: Seq<u8>, section: SectionHeader) -> Result<
    Seq<u8>,
    EmulatorError,
> {
    if in_range(file.len(), section.section_offset as int, section.section_size as nat) {
        Ok(
            file.subrange(
                section.section_offset as int,
                section.section_offset + section.section_size,
            ),
        )
    } else {
        Err(EmulatorError::WrongHeaderProvieded)
    }
}

/// Borrows the bytes of `section` from the file.
pub fn extract_prog_bits<'a>(data: &'a [u8], section: &SectionHeader) -> (r: Result<
    &'a [u8],
    EmulatorError,
>)
    ensures
        match section_bytes(data@, *section) {
            Ok(bytes) => r is Ok && r->Ok_0@ == bytes,
            Err(e) => r is Err && r->Err_0 == e,
        },
{
    let len = data.len() as u64;
    if section.section_offset > len || section.section_size > len - section.section_offset {
        return Err(EmulatorError::WrongHeaderProvieded);
    }
    let start = section.section_offset as usize;
    let end = start + section.section_size as usize;
    Ok(slice_subrange(data, start, end))
}

} // verus!
