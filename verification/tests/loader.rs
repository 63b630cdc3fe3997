use riscv_emulator::cpu::{A0, A1, A2, A7, GP, SP};
use riscv_emulator::dram::DRAM_SIZE;
use riscv_emulator::elf_parser::{
    announces_rv64_layout, decode_flags, elf_parser, extract_prog_bits, find_data_section,
    find_section, find_text_section, program_header_parser, raw_section_header_parser,
    section_header_final, BinArc, Endian, ObjType, ProgramHeaderFlags, ProgramHeaderType,
    SectionHeaderType, ABI, ELF_MAGIC,
};
use riscv_emulator::error::EmulatorError;
use riscv_emulator::machine::{Machine, Status};

/// A section of a file under construction.
struct Part {
    name: &'static [u8],
    kind: u32,
    address: u64,
    bytes: Vec<u8>,
}

fn part(name: &'static [u8], kind: u32, address: u64, bytes: &[u8]) -> Part {
    Part { name, kind, address, bytes: bytes.to_vec() }
}

/// Where things lie in a file made by `build_64`.
const PROGRAM_HEADERS_AT: usize = 64;
const CONTENTS_AT: usize = 64 + 56;

/// A 64-bit little-endian file with one program header, the given sections
/// after a null section, and a string table as the last section.
fn build_64(parts: &[Part]) -> Vec<u8> {
    let mut names = vec![0u8];
    let mut name_at = Vec::new();
    for p in parts {
        name_at.push(names.len() as u32);
        names.extend_from_slice(p.name);
        names.push(0);
    }
    let table_name = names.len() as u32;
    names.extend_from_slice(b".shstrtab\0");

    let mut file = vec![0u8; CONTENTS_AT];
    let mut offsets = Vec::new();
    for p in parts {
        offsets.push(file.len() as u64);
        file.extend_from_slice(&p.bytes);
    }
    let names_at = file.len() as u64;
    file.extend_from_slice(&names);
    let headers_at = file.len() as u64;

    let mut header = |name: u32, kind: u32, address: u64, offset: u64, size: u64| {
        file.extend_from_slice(&name.to_le_bytes());
        file.extend_from_slice(&kind.to_le_bytes());
        file.extend_from_slice(&0x6u64.to_le_bytes());
        file.extend_from_slice(&address.to_le_bytes());
        file.extend_from_slice(&offset.to_le_bytes());
        file.extend_from_slice(&size.to_le_bytes());
        file.extend_from_slice(&0x11u32.to_le_bytes());
        file.extend_from_slice(&0x22u32.to_le_bytes());
        file.extend_from_slice(&4u64.to_le_bytes());
        file.extend_from_slice(&0x33u64.to_le_bytes());
    };
    header(0, 0, 0, 0, 0);
    for (i, p) in parts.iter().enumerate() {
        header(name_at[i], p.kind, p.address, offsets[i], p.bytes.len() as u64);
    }
    header(table_name, 3, 0, names_at, names.len() as u64);

    file[0..4].copy_from_slice(&[0x7F, b'E', b'L', b'F']);
    file[4] = 2;
    file[5] = 1;
    file[6] = 1;
    file[7] = 3;
    file[8] = 9;
    file[16..18].copy_from_slice(&2u16.to_le_bytes());
    file[18..20].copy_from_slice(&0xF3u16.to_le_bytes());
    file[20..24].copy_from_slice(&1u32.to_le_bytes());
    file[24..32].copy_from_slice(&0x1_0000u64.to_le_bytes());
    file[32..40].copy_from_slice(&(PROGRAM_HEADERS_AT as u64).to_le_bytes());
    file[40..48].copy_from_slice(&headers_at.to_le_bytes());
    file[52..54].copy_from_slice(&64u16.to_le_bytes());
    file[54..56].copy_from_slice(&56u16.to_le_bytes());
    file[56..58].copy_from_slice(&1u16.to_le_bytes());
    file[58..60].copy_from_slice(&64u16.to_le_bytes());
    file[60..62].copy_from_slice(&(parts.len() as u16 + 2).to_le_bytes());
    file[62..64].copy_from_slice(&(parts.len() as u16 + 1).to_le_bytes());

    let ph = PROGRAM_HEADERS_AT;
    file[ph..ph + 4].copy_from_slice(&1u32.to_le_bytes());
    file[ph + 4..ph + 8].copy_from_slice(&0u32.to_le_bytes());
    file[ph + 8..ph + 16].copy_from_slice(&0x0000_0001_0000_0005u64.to_le_bytes());
    file[ph + 16..ph + 24].copy_from_slice(&0x1_0000u64.to_le_bytes());
    file[ph + 24..ph + 32].copy_from_slice(&0x2_0000u64.to_le_bytes());
    file[ph + 32..ph + 40].copy_from_slice(&0x30u64.to_le_bytes());
    file[ph + 40..ph + 48].copy_from_slice(&0x40u64.to_le_bytes());
    file[ph + 48..ph + 56].copy_from_slice(&0x1000u64.to_le_bytes());
    file
}

fn words(ws: &[u32]) -> Vec<u8> {
    ws.iter().flat_map(|w| w.to_le_bytes()).collect()
}

fn addi_word(rd: u32, rs1: u32, imm: i32) -> u32 {
    (((imm as u32) & 0xFFF) << 20) | (rs1 << 15) | (rd << 7) | 0b0010011
}

/// li a0,1; li a7,64; lui a1,0x20; li a2,5; ecall
fn hello_program() -> Vec<u8> {
    words(&[
        addi_word(A0, 0, 1),
        addi_word(A7, 0, 64),
        (0x20 << 12) | (A1 << 7) | 0b0110111,
        addi_word(A2, 0, 5),
        0x0000_0073,
    ])
}

fn hello_file() -> Vec<u8> {
    build_64(&[
        part(b".text", 1, 0x1_0000, &hello_program()),
        part(b".data", 1, 0x2_0000, b"HELLO"),
    ])
}

/// A 32-bit file that holds nothing but a header, one program header and
/// one section header.
fn build_32() -> Vec<u8> {
    let mut file = vec![0u8; 52 + 32 + 40];
    file[0..4].copy_from_slice(&[0x7F, b'E', b'L', b'F']);
    file[4] = 1;
    file[5] = 2;
    file[6] = 1;
    file[7] = 0x55;
    file[8] = 2;
    file[16..18].copy_from_slice(&0x1234u16.to_le_bytes());
    file[24..28].copy_from_slice(&0x1111_2222u32.to_le_bytes());
    file[28..32].copy_from_slice(&52u32.to_le_bytes());
    file[32..36].copy_from_slice(&84u32.to_le_bytes());
    file[40..42].copy_from_slice(&52u16.to_le_bytes());
    file[42..44].copy_from_slice(&32u16.to_le_bytes());
    file[44..46].copy_from_slice(&1u16.to_le_bytes());
    file[46..48].copy_from_slice(&40u16.to_le_bytes());
    file[48..50].copy_from_slice(&1u16.to_le_bytes());
    file[50..52].copy_from_slice(&0u16.to_le_bytes());
    for (i, v) in [6u32, 0x100, 0x200, 0x300, 0x400, 0x500, 0x7, 0x8].iter().enumerate() {
        file[52 + 4 * i..56 + 4 * i].copy_from_slice(&v.to_le_bytes());
    }
    for (i, v) in [1u32, 8, 0xA, 0xB, 0xC, 0xD, 0xE, 0xF, 0x10, 0x11].iter().enumerate() {
        file[84 + 4 * i..88 + 4 * i].copy_from_slice(&v.to_le_bytes());
    }
    file
}

// ---- the file header ----

#[test]
fn header_of_a_64_bit_file() {
    let file = hello_file();
    let elf = elf_parser(&file).unwrap();
    assert_eq!(elf.magic, ELF_MAGIC);
    assert_eq!(elf.magic, 0x464C_457F);
    assert_eq!(elf.bin_arc, BinArc::X64);
    assert_eq!(elf.endian, Endian::Little);
    assert_eq!(elf.abi, ABI::Linux(9));
    assert_eq!(elf.obj_type, ObjType::EtExec);
    assert_eq!(elf.machine, 0xF3);
    assert_eq!(elf.entry_point, 0x1_0000);
    assert_eq!(elf.program_header_address, 64);
    assert_eq!(elf.section_header_address as usize, file.len() - 4 * 64);
    assert_eq!(elf.elf_header_size, 64);
    assert_eq!(elf.program_header_size, 56);
    assert_eq!(elf.program_header_entries, 1);
    assert_eq!(elf.section_header_size, 64);
    assert_eq!(elf.section_header_entries, 4);
    assert_eq!(elf.section_header_names, 3);
    assert!(announces_rv64_layout(&file));
}

#[test]
fn header_of_a_32_bit_file() {
    let file = build_32();
    let elf = elf_parser(&file).unwrap();
    assert_eq!(elf.bin_arc, BinArc::X32);
    assert_eq!(elf.endian, Endian::Big);
    assert_eq!(elf.abi, ABI::Unknown(0x55, 2));
    assert_eq!(elf.obj_type, ObjType::Unknown(0x1234));
    assert_eq!(elf.machine, 0);
    assert_eq!(elf.entry_point, 0x1111_2222);
    assert_eq!(elf.program_header_address, 52);
    assert_eq!(elf.section_header_address, 84);
    assert_eq!(elf.elf_header_size, 52);
    assert_eq!(elf.program_header_size, 32);
    assert_eq!(elf.program_header_entries, 1);
    assert_eq!(elf.section_header_size, 40);
    assert_eq!(elf.section_header_entries, 1);
    assert_eq!(elf.section_header_names, 0);
    assert!(!announces_rv64_layout(&file));
}

#[test]
fn layout_announcement_looks_at_class_and_data() {
    let mut file = hello_file();
    assert!(announces_rv64_layout(&file));
    file[5] = 2;
    assert!(!announces_rv64_layout(&file));
    file[5] = 1;
    file[4] = 1;
    assert!(!announces_rv64_layout(&file));
    assert!(!announces_rv64_layout(&[0x7F, b'E', b'L', b'F', 2]));
    assert!(announces_rv64_layout(&[0, 0, 0, 0, 2, 1]));
}

#[test]
fn abi_and_type_tables() {
    assert_eq!(ABI::from_bytes(0x00, 0), ABI::SystemV(0));
    assert_eq!(ABI::from_bytes(0x01, 1), ABI::HpUx(1));
    assert_eq!(ABI::from_bytes(0x02, 2), ABI::NetBSD(2));
    assert_eq!(ABI::from_bytes(0x03, 3), ABI::Linux(3));
    assert_eq!(ABI::from_bytes(0x04, 4), ABI::GnuHurd(4));
    assert_eq!(ABI::from_bytes(0x05, 5), ABI::Unknown(5, 5));
    assert_eq!(ABI::from_bytes(0x06, 6), ABI::Solaris(6));
    assert_eq!(ABI::from_bytes(0x07, 7), ABI::AixMonterey(7));
    assert_eq!(ABI::from_bytes(0x08, 8), ABI::IRIX(8));
    assert_eq!(ABI::from_bytes(0x09, 9), ABI::FreeBSD(9));
    assert_eq!(ABI::from_bytes(0x0A, 0), ABI::Tru64(0));
    assert_eq!(ABI::from_bytes(0x0B, 0), ABI::NovellModesto(0));
    assert_eq!(ABI::from_bytes(0x0C, 0), ABI::OpenBSD(0));
    assert_eq!(ABI::from_bytes(0x0D, 0), ABI::OpenVMS(0));
    assert_eq!(ABI::from_bytes(0x0E, 0), ABI::NonStopKernel(0));
    assert_eq!(ABI::from_bytes(0x0F, 0), ABI::AROS(0));
    assert_eq!(ABI::from_bytes(0x10, 0), ABI::FenixOS(0));
    assert_eq!(ABI::from_bytes(0x11, 0), ABI::NuxiCloudAbi(0));
    assert_eq!(ABI::from_bytes(0x12, 0xFF), ABI::StratusTechnologiesOpenVos(0xFF));
    assert_eq!(ABI::from_bytes(0x13, 1), ABI::Unknown(0x13, 1));
    assert_eq!(ABI::from_bytes(0xFF, 0), ABI::Unknown(0xFF, 0));
    assert_eq!(ObjType::from_u16(0), ObjType::EtNone);
    assert_eq!(ObjType::from_u16(1), ObjType::EtRel);
    assert_eq!(ObjType::from_u16(2), ObjType::EtExec);
    assert_eq!(ObjType::from_u16(3), ObjType::EtDyn);
    assert_eq!(ObjType::from_u16(4), ObjType::EtCore);
    assert_eq!(ObjType::from_u16(5), ObjType::Unknown(5));
    assert_eq!(ObjType::from_u16(0xFE00), ObjType::EtLoos);
    assert_eq!(ObjType::from_u16(0xFEFF), ObjType::EtHios);
    assert_eq!(ObjType::from_u16(0xFF00), ObjType::EtLoproc);
    assert_eq!(ObjType::from_u16(0xFFFF), ObjType::EtHiproc);
}

#[test]
fn a_file_without_the_magic_is_rejected() {
    let mut file = hello_file();
    file[1] = b'F';
    assert_eq!(elf_parser(&file), Err(EmulatorError::InvalidMagic));
    assert_eq!(elf_parser(&[]), Err(EmulatorError::InvalidMagic));
    assert_eq!(elf_parser(&[0x7F, b'E', b'L']), Err(EmulatorError::InvalidMagic));
    assert_eq!(elf_parser(&[0u8; 64]), Err(EmulatorError::InvalidMagic));
    assert_eq!(Machine::load(&[0u8; 64]).err(), Some(EmulatorError::InvalidMagic));
}

#[test]
fn a_cut_off_header_is_malformed() {
    let file = hello_file();
    assert_eq!(elf_parser(&file[..4]), Err(EmulatorError::WrongHeaderProvieded));
    assert_eq!(elf_parser(&file[..51]), Err(EmulatorError::WrongHeaderProvieded));
    assert_eq!(elf_parser(&file[..63]), Err(EmulatorError::WrongHeaderProvieded));
    assert!(elf_parser(&file[..64]).is_ok());
    let narrow = build_32();
    assert_eq!(elf_parser(&narrow[..51]), Err(EmulatorError::WrongHeaderProvieded));
    assert!(elf_parser(&narrow[..52]).is_ok());
}

#[test]
fn a_version_byte_other_than_one_is_malformed() {
    let mut file = hello_file();
    file[6] = 0;
    assert_eq!(elf_parser(&file), Err(EmulatorError::WrongHeaderProvieded));
    file[6] = 2;
    assert_eq!(elf_parser(&file), Err(EmulatorError::WrongHeaderProvieded));
}

#[test]
fn only_riscv_and_no_machine_are_supported() {
    let mut file = hello_file();
    file[18] = 0x3E;
    assert_eq!(elf_parser(&file), Err(EmulatorError::UnsupportedMachine));
    assert_eq!(Machine::load(&file).err(), Some(EmulatorError::UnsupportedMachine));
    file[18] = 0xF3;
    file[19] = 1;
    assert_eq!(elf_parser(&file), Err(EmulatorError::UnsupportedMachine));
    file[18] = 0;
    file[19] = 0;
    assert_eq!(elf_parser(&file).map(|e| e.machine), Ok(0));
}

#[test]
fn header_checks_come_in_order() {
    let mut file = hello_file();
    file[6] = 0;
    file[18] = 0x3E;
    assert_eq!(elf_parser(&file), Err(EmulatorError::WrongHeaderProvieded));
    file[0] = 0;
    assert_eq!(elf_parser(&file), Err(EmulatorError::InvalidMagic));
}

// ---- program headers ----

#[test]
fn program_headers_of_a_64_bit_file() {
    let file = hello_file();
    let elf = elf_parser(&file).unwrap();
    let table = program_header_parser(&file, &elf).unwrap();
    assert_eq!(table.len(), 1);
    let h = &table[0];
    assert_eq!(h.p_type, ProgramHeaderType::PtLoad);
    assert_eq!(h.p_flags, vec![ProgramHeaderFlags::PfX, ProgramHeaderFlags::PfR]);
    assert_eq!(h.segment_offset, 0x0000_0001_0000_0005);
    assert_eq!(h.virtual_address, 0x1_0000);
    assert_eq!(h.physical_address, 0x2_0000);
    assert_eq!(h.segment_size, 0x30);
    assert_eq!(h.mem_size, 0x40);
    assert_eq!(h.alignment, 0x1000);
}

#[test]
fn program_headers_of_a_32_bit_file() {
    let file = build_32();
    let elf = elf_parser(&file).unwrap();
    let table = program_header_parser(&file, &elf).unwrap();
    assert_eq!(table.len(), 1);
    let h = &table[0];
    assert_eq!(h.p_type, ProgramHeaderType::PtPhdr);
    assert_eq!(h.segment_offset, 0x100);
    assert_eq!(h.virtual_address, 0x200);
    assert_eq!(h.physical_address, 0x300);
    assert_eq!(h.segment_size, 0x400);
    assert_eq!(h.mem_size, 0x500);
    assert_eq!(
        h.p_flags,
        vec![ProgramHeaderFlags::PfX, ProgramHeaderFlags::PfW, ProgramHeaderFlags::PfR]
    );
    assert_eq!(h.alignment, 0x8);
}

#[test]
fn permission_bits_decode_to_x_w_r() {
    let (x, w, r) = (ProgramHeaderFlags::PfX, ProgramHeaderFlags::PfW, ProgramHeaderFlags::PfR);
    assert_eq!(decode_flags(0), vec![]);
    assert_eq!(decode_flags(1), vec![x]);
    assert_eq!(decode_flags(2), vec![w]);
    assert_eq!(decode_flags(3), vec![x, w]);
    assert_eq!(decode_flags(4), vec![r]);
    assert_eq!(decode_flags(5), vec![x, r]);
    assert_eq!(decode_flags(6), vec![w, r]);
    assert_eq!(decode_flags(7), vec![x, w, r]);
    assert_eq!(decode_flags(0xFFFF_FFF8), vec![]);
    assert_eq!(decode_flags(u32::MAX), vec![x, w, r]);
}

#[test]
fn segment_kinds() {
    let cases = [
        (0, ProgramHeaderType::PtNull),
        (1, ProgramHeaderType::PtLoad),
        (2, ProgramHeaderType::PtDynamic),
        (3, ProgramHeaderType::PtInterp),
        (4, ProgramHeaderType::PtNote),
        (5, ProgramHeaderType::PtShlib),
        (6, ProgramHeaderType::PtPhdr),
        (7, ProgramHeaderType::PtTls),
        (8, ProgramHeaderType::Unknown(8)),
        (0x6000_0000, ProgramHeaderType::PtLoos),
        (0x6474_E551, ProgramHeaderType::Unknown(0x6474_E551)),
        (0x6FFF_FFFF, ProgramHeaderType::PtHios),
        (0x7000_0000, ProgramHeaderType::PtLoproc),
        (0x7FFF_FFFF, ProgramHeaderType::PtHiproc),
        (0xFFFF_FFFF, ProgramHeaderType::Unknown(0xFFFF_FFFF)),
    ];
    for (value, kind) in cases {
        assert_eq!(ProgramHeaderType::from_u32(value), kind);
    }
}

#[test]
fn a_program_header_past_the_end_is_malformed() {
    let file = hello_file();
    let mut elf = elf_parser(&file).unwrap();
    elf.program_header_address = file.len() as u64 - 55;
    assert_eq!(
        program_header_parser(&file, &elf).err(),
        Some(EmulatorError::WrongHeaderProvieded)
    );
    elf.program_header_address = file.len() as u64 - 56;
    assert_eq!(program_header_parser(&file, &elf).map(|t| t.len()), Ok(1));
    elf.program_header_entries = 2;
    elf.program_header_size = 1;
    assert_eq!(
        program_header_parser(&file, &elf).err(),
        Some(EmulatorError::WrongHeaderProvieded)
    );
    elf.program_header_address = u64::MAX;
    assert_eq!(
        program_header_parser(&file, &elf).err(),
        Some(EmulatorError::WrongHeaderProvieded)
    );
    elf.program_header_entries = 0;
    assert_eq!(program_header_parser(&file, &elf).map(|t| t.len()), Ok(0));
}

#[test]
fn overlapping_program_headers_are_read_where_they_lie() {
    let file = hello_file();
    let mut elf = elf_parser(&file).unwrap();
    elf.program_header_entries = 3;
    elf.program_header_size = 8;
    let table = program_header_parser(&file, &elf).unwrap();
    assert_eq!(table.len(), 3);
    assert_eq!(table[1].p_type, ProgramHeaderType::PtShlib);
    assert_eq!(table[1].segment_offset, 0x1_0000);
    assert_eq!(table[2].segment_offset, 0x2_0000);
}

// ---- section headers ----

#[test]
fn raw_section_headers_of_a_64_bit_file() {
    let file = hello_file();
    let elf = elf_parser(&file).unwrap();
    let table = raw_section_header_parser(&file, &elf).unwrap();
    assert_eq!(table.len(), 4);
    assert!(table.iter().all(|h| h.name_str.is_none()));
    assert_eq!(table[0].section_type, SectionHeaderType::ShtNull);
    assert_eq!(table[0].name, 0);
    let text = &table[1];
    assert_eq!(text.name, 1);
    assert_eq!(text.section_type, SectionHeaderType::ShtProgbits);
    assert_eq!(text.flags, 6);
    assert_eq!(text.section_address, 0x1_0000);
    assert_eq!(text.section_offset, CONTENTS_AT as u64);
    assert_eq!(text.section_size, 20);
    assert_eq!(text.link, 0x11);
    assert_eq!(text.info, 0x22);
    assert_eq!(text.alignment, 4);
    assert_eq!(text.entry_size, 0x33);
    assert_eq!(table[2].name, 7);
    assert_eq!(table[2].section_address, 0x2_0000);
    assert_eq!(table[2].section_offset, CONTENTS_AT as u64 + 20);
    assert_eq!(table[2].section_size, 5);
    assert_eq!(table[3].name, 13);
    assert_eq!(table[3].section_type, SectionHeaderType::ShtStrtab);
    assert_eq!(table[3].section_size, 23);
}

#[test]
fn raw_section_headers_of_a_32_bit_file() {
    let file = build_32();
    let elf = elf_parser(&file).unwrap();
    let table = raw_section_header_parser(&file, &elf).unwrap();
    assert_eq!(table.len(), 1);
    let h = &table[0];
    assert_eq!(h.name, 1);
    assert_eq!(h.section_type, SectionHeaderType::ShtNobits);
    assert_eq!(h.flags, 0xA);
    assert_eq!(h.section_address, 0xB);
    assert_eq!(h.section_offset, 0xC);
    assert_eq!(h.section_size, 0xD);
    assert_eq!(h.link, 0xE);
    assert_eq!(h.info, 0xF);
    assert_eq!(h.alignment, 0x10);
    assert_eq!(h.entry_size, 0x11);
    assert!(h.name_str.is_none());
}

#[test]
fn section_kinds() {
    let cases = [
        (0x0, SectionHeaderType::ShtNull),
        (0x1, SectionHeaderType::ShtProgbits),
        (0x2, SectionHeaderType::ShtSymtab),
        (0x3, SectionHeaderType::ShtStrtab),
        (0x4, SectionHeaderType::ShtRela),
        (0x5, SectionHeaderType::ShtHash),
        (0x6, SectionHeaderType::ShtDynamic),
        (0x7, SectionHeaderType::ShtNote),
        (0x8, SectionHeaderType::ShtNobits),
        (0x9, SectionHeaderType::ShtRel),
        (0xA, SectionHeaderType::ShtShlib),
        (0xB, SectionHeaderType::ShtDynsym),
        (0xC, SectionHeaderType::Unknown(0xC)),
        (0xD, SectionHeaderType::Unknown(0xD)),
        (0xE, SectionHeaderType::ShtInitArray),
        (0xF, SectionHeaderType::ShtFiniArray),
        (0x10, SectionHeaderType::ShtPreinitArray),
        (0x11, SectionHeaderType::ShtGroup),
        (0x12, SectionHeaderType::ShtSymtabShndx),
        (0x13, SectionHeaderType::ShtNum),
        (0x14, SectionHeaderType::Unknown(0x14)),
        (0x6000_0000, SectionHeaderType::ShtLoos),
        (0x7000_0003, SectionHeaderType::Unknown(0x7000_0003)),
    ];
    for (value, kind) in cases {
        assert_eq!(SectionHeaderType::from_u32(value), kind);
    }
}

#[test]
fn a_section_header_past_the_end_is_malformed() {
    let file = hello_file();
    let elf = elf_parser(&file).unwrap();
    let cut = &file[..file.len() - 1];
    assert_eq!(
        raw_section_header_parser(cut, &elf).err(),
        Some(EmulatorError::WrongHeaderProvieded)
    );
    assert_eq!(Machine::load(cut).err(), Some(EmulatorError::WrongHeaderProvieded));
    let mut more = elf;
    more.section_header_entries = 5;
    assert_eq!(
        raw_section_header_parser(&file, &more).err(),
        Some(EmulatorError::WrongHeaderProvieded)
    );
}

// ---- names ----

#[test]
fn names_are_looked_up_in_the_string_table() {
    let file = hello_file();
    let elf = elf_parser(&file).unwrap();
    let mut table = raw_section_header_parser(&file, &elf).unwrap();
    let names = section_header_final(&file, &mut table).unwrap();
    assert_eq!(names, vec!["", ".text", ".data", ".shstrtab"]);
    let stored: Vec<Option<&str>> = table.iter().map(|h| h.name_str.as_deref()).collect();
    assert_eq!(stored, vec![Some(""), Some(".text"), Some(".data"), Some(".shstrtab")]);
    assert_eq!(table[1].section_address, 0x1_0000);
    assert_eq!(table[1].name, 1);
    assert_eq!(table[3].section_type, SectionHeaderType::ShtStrtab);
}

#[test]
fn names_go_by_offset_and_end_at_the_first_zero_byte() {
    let file = hello_file();
    let elf = elf_parser(&file).unwrap();
    let mut table = raw_section_header_parser(&file, &elf).unwrap();
    table[1].name = 3;
    table[2].name = 22;
    table[0].name = 14;
    let names = section_header_final(&file, &mut table).unwrap();
    assert_eq!(names, vec!["shstrtab", "ext", "", ".shstrtab"]);
}

#[test]
fn the_first_string_table_is_used() {
    let file = build_64(&[
        part(b".text", 1, 0, &[0x13, 0, 0, 0]),
        part(b".strtab", 3, 0, b"\0AB\0CDEFGHIJKLMNOPQRSTUVW\0"),
    ]);
    let elf = elf_parser(&file).unwrap();
    let mut table = raw_section_header_parser(&file, &elf).unwrap();
    let names = section_header_final(&file, &mut table).unwrap();
    assert_eq!(names, vec!["", "AB", "FGHIJKLMNOPQRSTUVW", "NOPQRSTUVW"]);
    assert_eq!(find_text_section(&table).err(), Some(EmulatorError::NoTextSection));
}

#[test]
fn without_a_string_table_there_are_no_names() {
    let file = hello_file();
    let elf = elf_parser(&file).unwrap();
    let mut table = raw_section_header_parser(&file, &elf).unwrap();
    table[3].section_type = SectionHeaderType::ShtProgbits;
    assert_eq!(section_header_final(&file, &mut table).err(), Some(EmulatorError::StrTabError));
    assert!(table.iter().all(|h| h.name_str.is_none()));
    let mut empty = Vec::new();
    assert_eq!(section_header_final(&file, &mut empty).err(), Some(EmulatorError::StrTabError));
}

#[test]
fn a_name_that_is_not_utf8_is_an_error() {
    let file = build_64(&[part(b".te\xFFt", 1, 0, &[0x13, 0, 0, 0])]);
    let elf = elf_parser(&file).unwrap();
    let mut table = raw_section_header_parser(&file, &elf).unwrap();
    assert_eq!(section_header_final(&file, &mut table).err(), Some(EmulatorError::FromUtf8));
    assert!(table.iter().all(|h| h.name_str.is_none()));
    assert_eq!(Machine::load(&file).err(), Some(EmulatorError::FromUtf8));
    let fine = build_64(&[part(".t\u{e9}xt".as_bytes(), 1, 0, &[0x13, 0, 0, 0])]);
    let elf = elf_parser(&fine).unwrap();
    let mut table = raw_section_header_parser(&fine, &elf).unwrap();
    let names = section_header_final(&fine, &mut table).unwrap();
    assert_eq!(names[1], ".t\u{e9}xt");
}

#[test]
fn a_name_that_runs_off_the_file_is_malformed() {
    let file = hello_file();
    let elf = elf_parser(&file).unwrap();
    let mut table = raw_section_header_parser(&file, &elf).unwrap();
    let mut solid = file.clone();
    let from = table[3].section_offset as usize;
    for b in solid[from..].iter_mut() {
        if *b == 0 {
            *b = b'x';
        }
    }
    assert_eq!(
        section_header_final(&solid, &mut table).err(),
        Some(EmulatorError::WrongHeaderProvieded)
    );
    table[2].name = u32::MAX;
    assert_eq!(
        section_header_final(&file, &mut table).err(),
        Some(EmulatorError::WrongHeaderProvieded)
    );
    table[2].name = 7;
    table[3].section_offset = u64::MAX;
    assert_eq!(
        section_header_final(&file, &mut table).err(),
        Some(EmulatorError::WrongHeaderProvieded)
    );
    assert!(table.iter().all(|h| h.name_str.is_none()));
}

#[test]
fn the_first_name_that_fails_decides_the_error() {
    let file = build_64(&[
        part(b".a\xFF", 1, 0, &[]),
        part(b".text", 1, 0, &[]),
    ]);
    let elf = elf_parser(&file).unwrap();
    let mut table = raw_section_header_parser(&file, &elf).unwrap();
    table[2].name = u32::MAX;
    assert_eq!(section_header_final(&file, &mut table).err(), Some(EmulatorError::FromUtf8));
    table[0].name = u32::MAX;
    assert_eq!(
        section_header_final(&file, &mut table).err(),
        Some(EmulatorError::WrongHeaderProvieded)
    );
}

// ---- finding sections ----

#[test]
fn text_and_data_are_found_by_name() {
    let file = hello_file();
    let elf = elf_parser(&file).unwrap();
    let mut table = raw_section_header_parser(&file, &elf).unwrap();
    assert_eq!(find_text_section(&table).err(), Some(EmulatorError::NoTextSection));
    assert!(find_data_section(&table).is_none());
    section_header_final(&file, &mut table).unwrap();
    assert_eq!(find_text_section(&table).map(|h| h.section_address), Ok(0x1_0000));
    assert_eq!(find_data_section(&table).map(|h| h.section_address), Some(0x2_0000));
    assert_eq!(find_section(&table, ""), Some(0));
    assert_eq!(find_section(&table, ".text"), Some(1));
    assert_eq!(find_section(&table, ".data"), Some(2));
    assert_eq!(find_section(&table, ".shstrtab"), Some(3));
    assert_eq!(find_section(&table, ".bss"), None);
    assert_eq!(find_section(&table, ".tex"), None);
    assert_eq!(find_section(&table, ".text "), None);
}

#[test]
fn the_first_section_of_a_name_wins() {
    let file = build_64(&[
        part(b".data", 1, 0x100, &[1]),
        part(b".text", 1, 0x200, &[2, 2]),
        part(b".text", 1, 0x300, &[3, 3, 3]),
        part(b".data", 1, 0x400, &[4, 4, 4, 4]),
    ]);
    let elf = elf_parser(&file).unwrap();
    let mut table = raw_section_header_parser(&file, &elf).unwrap();
    section_header_final(&file, &mut table).unwrap();
    assert_eq!(find_text_section(&table).map(|h| h.section_address), Ok(0x200));
    assert_eq!(find_data_section(&table).map(|h| h.section_address), Some(0x100));
}

#[test]
fn a_file_without_text_cannot_be_loaded() {
    let file = build_64(&[part(b".data", 1, 0x2_0000, b"HELLO"), part(b".txt", 1, 0, &[])]);
    assert_eq!(Machine::load(&file).err(), Some(EmulatorError::NoTextSection));
    let elf = elf_parser(&file).unwrap();
    let mut table = raw_section_header_parser(&file, &elf).unwrap();
    section_header_final(&file, &mut table).unwrap();
    assert_eq!(find_text_section(&table).err(), Some(EmulatorError::NoTextSection));
    assert_eq!(find_data_section(&table).map(|h| h.section_size), Some(5));
}

#[test]
fn section_bytes_are_a_slice_of_the_file() {
    let file = hello_file();
    let elf = elf_parser(&file).unwrap();
    let mut table = raw_section_header_parser(&file, &elf).unwrap();
    section_header_final(&file, &mut table).unwrap();
    let text = &table[1];
    assert_eq!(extract_prog_bits(&file, text), Ok(&hello_program()[..]));
    assert_eq!(extract_prog_bits(&file, &table[2]), Ok(&b"HELLO"[..]));
    assert_eq!(extract_prog_bits(&file, &table[0]), Ok(&b""[..]));
    let mut wrong = table[2].clone();
    wrong.section_size = file.len() as u64;
    assert_eq!(extract_prog_bits(&file, &wrong), Err(EmulatorError::WrongHeaderProvieded));
    wrong.section_size = 0;
    wrong.section_offset = file.len() as u64;
    assert_eq!(extract_prog_bits(&file, &wrong), Ok(&b""[..]));
    wrong.section_offset = file.len() as u64 + 1;
    assert_eq!(extract_prog_bits(&file, &wrong), Err(EmulatorError::WrongHeaderProvieded));
    wrong.section_offset = u64::MAX;
    wrong.section_size = u64::MAX;
    assert_eq!(extract_prog_bits(&file, &wrong), Err(EmulatorError::WrongHeaderProvieded));
}

// ---- loading ----

#[test]
fn a_loaded_machine_is_ready_to_start() {
    let file = hello_file();
    let m = Machine::load(&file).ok().unwrap();
    assert_eq!(m.text_base, 0x1_0000);
    assert_eq!(m.text_size, 20);
    assert_eq!(m.cpu.pc(), 0x1_0000);
    assert_eq!(m.cpu.read_reg(SP), 64 * 1024 * 1024);
    assert_eq!(m.cpu.read_reg(SP), DRAM_SIZE as u64);
    assert_eq!(m.cpu.read_reg(GP), 0x2_0000);
    for i in 0..32 {
        if i != SP && i != GP {
            assert_eq!(m.cpu.read_reg(i), 0);
        }
    }
    assert_eq!(m.dram.bytes(0x1_0000, 20), Ok(&hello_program()[..]));
    assert_eq!(m.dram.bytes(0x2_0000, 5), Ok(&b"HELLO"[..]));
    assert_eq!(m.dram.get_u64(0x1_0000 - 8), Ok(0));
    assert_eq!(m.dram.get_u64(0x1_0000 + 20), Ok(0));
    assert_eq!(m.dram.get_u64(0x2_0000 + 5), Ok(0));
    assert!(!m.halted());
}

#[test]
fn a_loaded_hello_program_writes_hello() {
    let mut m = Machine::load(&hello_file()).ok().unwrap();
    let run = m.run(1000);
    assert_eq!(run.status, Status::Halted);
    assert_eq!(run.output, b"HELLO".to_vec());
    assert_eq!(m.cpu.pc(), 0x1_0014);
}

#[test]
fn without_data_the_global_pointer_stays_zero() {
    let file = build_64(&[part(b".text", 1, 0x400, &words(&[addi_word(1, 0, 1)]))]);
    let mut m = Machine::load(&file).ok().unwrap();
    assert_eq!(m.cpu.read_reg(GP), 0);
    assert_eq!(m.cpu.read_reg(SP), DRAM_SIZE as u64);
    assert_eq!(m.cpu.pc(), 0x400);
    assert_eq!(m.run(10).status, Status::Halted);
    assert_eq!(m.cpu.read_reg(1), 1);
}

#[test]
fn data_is_placed_after_text() {
    let file = build_64(&[
        part(b".text", 1, 0x100, &[1, 1, 1, 1, 1, 1, 1, 1]),
        part(b".data", 1, 0x104, &[2, 2]),
    ]);
    let m = Machine::load(&file).ok().unwrap();
    assert_eq!(m.dram.bytes(0x100, 8), Ok(&[1u8, 1, 1, 1, 2, 2, 1, 1][..]));
}

#[test]
fn sections_must_fit_into_the_memory() {
    let size = DRAM_SIZE as u64;
    let at_the_end = build_64(&[part(b".text", 1, size - 4, &[0x13, 0, 0, 0])]);
    let m = Machine::load(&at_the_end).ok().unwrap();
    assert_eq!(m.dram.get_u32(DRAM_SIZE - 4), Ok(0x13));
    assert_eq!(m.text_base + m.text_size, size);
    let too_far = build_64(&[part(b".text", 1, size - 3, &[0x13, 0, 0, 0])]);
    assert_eq!(Machine::load(&too_far).err(), Some(EmulatorError::BadAddress));
    let way_off = build_64(&[part(b".text", 1, u64::MAX, &[0x13, 0, 0, 0])]);
    assert_eq!(Machine::load(&way_off).err(), Some(EmulatorError::BadAddress));
    let data_off = build_64(&[
        part(b".text", 1, 0, &[0x13, 0, 0, 0]),
        part(b".data", 1, size, &[1]),
    ]);
    assert_eq!(Machine::load(&data_off).err(), Some(EmulatorError::BadAddress));
    let empty_at_end = build_64(&[
        part(b".text", 1, size, &[]),
        part(b".data", 1, size, &[]),
    ]);
    assert!(Machine::load(&empty_at_end).is_ok());
}

#[test]
fn sections_must_lie_inside_the_file() {
    let mut file = hello_file();
    let elf = elf_parser(&file).unwrap();
    let text_header = elf.section_header_address as usize + 64;
    let huge = (file.len() as u64).to_le_bytes();
    file[text_header + 32..text_header + 40].copy_from_slice(&huge);
    assert_eq!(Machine::load(&file).err(), Some(EmulatorError::WrongHeaderProvieded));
    let mut file = hello_file();
    let data_header = elf.section_header_address as usize + 128;
    file[data_header + 24..data_header + 32].copy_from_slice(&u64::MAX.to_le_bytes());
    assert_eq!(Machine::load(&file).err(), Some(EmulatorError::WrongHeaderProvieded));
}
