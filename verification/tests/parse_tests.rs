use std::path::PathBuf;

use peekpe::pe::{cstr_at, parse, rva_to_offset, u16_at, u32_at, u64_at, PeError, Section};

fn put16(b: &mut Vec<u8>, at: usize, v: u16) {
    b[at..at + 2].copy_from_slice(&v.to_le_bytes());
}

fn put32(b: &mut Vec<u8>, at: usize, v: u32) {
    b[at..at + 4].copy_from_slice(&v.to_le_bytes());
}

fn put64(b: &mut Vec<u8>, at: usize, v: u64) {
    b[at..at + 8].copy_from_slice(&v.to_le_bytes());
}

fn put_str(b: &mut Vec<u8>, at: usize, s: &str) {
    b[at..at + s.len()].copy_from_slice(s.as_bytes());
}

fn put_section(b: &mut Vec<u8>, at: usize, name: &str, vsize: u32, va: u32, raw_size: u32, raw: u32, ch: u32) {
    put_str(b, at, name);
    put32(b, at + 8, vsize);
    put32(b, at + 12, va);
    put32(b, at + 16, raw_size);
    put32(b, at + 20, raw);
    put32(b, at + 36, ch);
}

/// A small 64-bit image: two sections, two exports, one DLL with a named
/// import and an import by ordinal, and a relocation directory.
fn sample_pe32_plus() -> Vec<u8> {
    let mut b = vec![0u8; 0x600];
    put16(&mut b, 0, 0x5A4D);
    put32(&mut b, 0x3C, 0x40);
    put32(&mut b, 0x40, 0x4550);
    let coff = 0x44;
    put16(&mut b, coff, 0x8664);
    put16(&mut b, coff + 2, 2);
    put16(&mut b, coff + 16, 0xF0);
    put16(&mut b, coff + 18, 0x0022);
    let opt = 0x58;
    put16(&mut b, opt, 0x20B);
    put32(&mut b, opt + 16, 0x1010);
    put64(&mut b, opt + 24, 0x1_4000_0000);
    put32(&mut b, opt + 32, 0x1000);
    put32(&mut b, opt + 36, 0x200);
    put32(&mut b, opt + 56, 0x3000);
    put16(&mut b, opt + 70, 0x8160);
    put32(&mut b, opt + 108, 16);
    put32(&mut b, opt + 112, 0x2000);
    put32(&mut b, opt + 116, 0x40);
    put32(&mut b, opt + 120, 0x2100);
    put32(&mut b, opt + 124, 0x28);
    put32(&mut b, opt + 152, 0x2200);
    let sec = opt + 0xF0;
    put_section(&mut b, sec, ".text", 0x100, 0x1000, 0x200, 0x200, 0x6000_0020);
    put_section(&mut b, sec + 40, ".rdata", 0x300, 0x2000, 0x200, 0x400, 0x4000_0040);
    put32(&mut b, 0x400 + 24, 2);
    put32(&mut b, 0x400 + 32, 0x2040);
    put32(&mut b, 0x440, 0x2060);
    put32(&mut b, 0x444, 0x2070);
    put_str(&mut b, 0x460, "alpha");
    put_str(&mut b, 0x470, "beta");
    put32(&mut b, 0x500, 0x2140);
    put32(&mut b, 0x500 + 12, 0x2180);
    put32(&mut b, 0x500 + 16, 0x2140);
    put64(&mut b, 0x540, 0x2190);
    put64(&mut b, 0x548, 0x8000_0000_0000_0005);
    put_str(&mut b, 0x580, "KERNEL32.dll");
    put_str(&mut b, 0x592, "ExitProcess");
    b
}

/// The same kind of image in the 32-bit layout.
fn sample_pe32() -> Vec<u8> {
    let mut b = vec![0u8; 0x600];
    put16(&mut b, 0, 0x5A4D);
    put32(&mut b, 0x3C, 0x80);
    put32(&mut b, 0x80, 0x4550);
    let coff = 0x84;
    put16(&mut b, coff, 0x014c);
    put16(&mut b, coff + 2, 1);
    put16(&mut b, coff + 16, 0xE0);
    put16(&mut b, coff + 18, 0x2102);
    let opt = 0x98;
    put16(&mut b, opt, 0x10B);
    put32(&mut b, opt + 16, 0x1234);
    put32(&mut b, opt + 28, 0x0040_0000);
    put32(&mut b, opt + 32, 0x1000);
    put32(&mut b, opt + 36, 0x200);
    put32(&mut b, opt + 56, 0x2000);
    put16(&mut b, opt + 70, 0x0140);
    put32(&mut b, opt + 92, 3);
    put32(&mut b, opt + 104, 0x1100);
    put32(&mut b, opt + 112, 0x1800);
    let sec = opt + 0xE0;
    put_section(&mut b, sec, ".data", 0x1000, 0x1000, 0x400, 0x200, 0xC000_0040);
    put32(&mut b, 0x300, 0x1140);
    put32(&mut b, 0x300 + 12, 0x1180);
    put32(&mut b, 0x300 + 16, 0x1160);
    put32(&mut b, 0x340, 0x1190);
    put32(&mut b, 0x344, 0x8000_0010);
    put_str(&mut b, 0x380, "USER32.dll");
    put_str(&mut b, 0x392, "MessageBoxA");
    b
}

fn read(data: &[u8]) -> Result<peekpe::pe::PeInfo, PeError> {
    parse("sample.exe".to_string(), PathBuf::from("/tmp/sample.exe"), data)
}

#[test]
fn parses_pe32_plus_headers() {
    let pe = read(&sample_pe32_plus()).unwrap();
    assert_eq!(pe.name, "sample.exe");
    assert_eq!(pe.path, PathBuf::from("/tmp/sample.exe"));
    assert_eq!(pe.size, 0x600);
    assert_eq!(pe.machine, 0x8664);
    assert_eq!(pe.characteristics, 0x0022);
    assert_eq!(pe.magic, 0x20B);
    assert!(pe.is_pe32_plus);
    assert_eq!(pe.entry_point, 0x1010);
    assert_eq!(pe.image_base, 0x1_4000_0000);
    assert_eq!(pe.section_alignment, 0x1000);
    assert_eq!(pe.file_alignment, 0x200);
    assert_eq!(pe.size_of_image, 0x3000);
    assert_eq!(pe.dll_characteristics, 0x8160);
    assert!(pe.has_relocations);
    assert!(!pe.has_resources);
}

#[test]
fn parses_sections() {
    let pe = read(&sample_pe32_plus()).unwrap();
    assert_eq!(pe.sections.len(), 2);
    assert_eq!(pe.sections[0].name, ".text");
    assert_eq!(pe.sections[0].virtual_size, 0x100);
    assert_eq!(pe.sections[0].virtual_address, 0x1000);
    assert_eq!(pe.sections[0].raw_size, 0x200);
    assert_eq!(pe.sections[0].raw_offset, 0x200);
    assert_eq!(pe.sections[0].characteristics, 0x6000_0020);
    assert_eq!(pe.sections[1].name, ".rdata");
}

#[test]
fn parses_exports_and_imports() {
    let pe = read(&sample_pe32_plus()).unwrap();
    assert_eq!(pe.exports, vec!["alpha".to_string(), "beta".to_string()]);
    assert_eq!(pe.imports.len(), 1);
    assert_eq!(pe.imports[0].name, "KERNEL32.dll");
    assert_eq!(pe.imports[0].functions, vec!["ExitProcess".to_string(), "Ordinal #5".to_string()]);
}

#[test]
fn parses_pe32_layout() {
    let pe = read(&sample_pe32()).unwrap();
    assert!(!pe.is_pe32_plus);
    assert_eq!(pe.machine, 0x014c);
    assert_eq!(pe.image_base, 0x0040_0000);
    assert_eq!(pe.entry_point, 0x1234);
    assert_eq!(pe.dll_characteristics, 0x0140);
    assert!(pe.exports.is_empty());
    assert!(!pe.has_relocations);
    assert!(pe.has_resources);
    assert_eq!(pe.imports.len(), 1);
    assert_eq!(pe.imports[0].name, "USER32.dll");
    assert_eq!(pe.imports[0].functions, vec!["MessageBoxA".to_string(), "Ordinal #16".to_string()]);
}

#[test]
fn rejects_missing_mz() {
    let mut b = sample_pe32_plus();
    b[0] = b'X';
    assert_eq!(read(&b).err(), Some(PeError::NoDosSignature));
}

#[test]
fn rejects_empty_file() {
    assert_eq!(read(&[]).err(), Some(PeError::ReadOutOfBounds { offset: 0, width: 2 }));
}

#[test]
fn rejects_missing_pe_signature() {
    let mut b = sample_pe32_plus();
    b[0x41] = b'X';
    assert_eq!(read(&b).err(), Some(PeError::NoPeSignature { offset: 0x40 }));
}

#[test]
fn rejects_e_lfanew_past_end() {
    let mut b = sample_pe32_plus();
    put32(&mut b, 0x3C, 0x5FE);
    assert_eq!(read(&b).err(), Some(PeError::ReadOutOfBounds { offset: 0x5FE, width: 4 }));
}

#[test]
fn rejects_unknown_magic() {
    let mut b = sample_pe32_plus();
    put16(&mut b, 0x58, 0x107);
    assert_eq!(read(&b).err(), Some(PeError::UnknownMagic { magic: 0x107 }));
}

#[test]
fn rejects_section_table_past_end() {
    let mut b = sample_pe32_plus();
    put16(&mut b, 0x44 + 2, 40);
    let err = read(&b).err().unwrap();
    // The table starts at 0x148; entry 30 starts at 0x5F8: its name still
    // fits, its virtual size at 0x600 does not.
    assert_eq!(err, PeError::ReadOutOfBounds { offset: 0x600, width: 4 });
    put16(&mut b, 0x44 + 2, 60);
    let err = read(&b).err().unwrap();
    assert_eq!(err, PeError::ReadOutOfBounds { offset: 0x600, width: 4 });
}

#[test]
fn section_name_past_end_is_reported_by_index() {
    let mut b = sample_pe32_plus();
    b.truncate(0x148 + 40 + 4);
    put16(&mut b, 0x44 + 2, 2);
    // Export and import data are gone, but the headers still read; the second
    // section's name is cut off.
    assert_eq!(read(&b).err(), Some(PeError::SectionHeaderOutOfBounds { index: 1 }));
}

#[test]
fn broken_export_table_leaves_exports_empty() {
    let mut b = sample_pe32_plus();
    put32(&mut b, 0x58 + 112, 0x9000);
    let pe = read(&b).unwrap();
    assert!(pe.exports.is_empty());
    assert_eq!(pe.imports.len(), 1);
}

#[test]
fn broken_import_table_leaves_imports_empty() {
    let mut b = sample_pe32_plus();
    // The thunk table runs to the end of the file without a terminating zero.
    for at in (0x540..0x600).step_by(8) {
        put64(&mut b, at, 0x8000_0000_0000_0001);
    }
    let pe = read(&b).unwrap();
    assert!(pe.imports.is_empty());
    assert_eq!(pe.exports.len(), 2);
}

#[test]
fn fewer_directories_read_as_absent() {
    let mut b = sample_pe32_plus();
    put32(&mut b, 0x58 + 108, 1);
    let pe = read(&b).unwrap();
    assert_eq!(pe.exports.len(), 2);
    assert!(pe.imports.is_empty());
    assert!(!pe.has_relocations);
}

#[test]
fn reads_little_endian_numbers() {
    let b = [0x01u8, 0x02, 0x03, 0x04, 0x05, 0x06, 0x07, 0x08, 0x09];
    assert_eq!(u16_at(&b, 0), Ok(0x0201));
    assert_eq!(u32_at(&b, 1), Ok(0x05040302));
    assert_eq!(u64_at(&b, 1), Ok(0x0908070605040302));
    assert_eq!(u16_at(&b, 8), Err(PeError::ReadOutOfBounds { offset: 8, width: 2 }));
    assert_eq!(u32_at(&b, 6), Err(PeError::ReadOutOfBounds { offset: 6, width: 4 }));
    assert_eq!(u64_at(&b, 2), Err(PeError::ReadOutOfBounds { offset: 2, width: 8 }));
    assert_eq!(u16_at(&b, u64::MAX), Err(PeError::ReadOutOfBounds { offset: u64::MAX, width: 2 }));
}

#[test]
fn reads_nul_terminated_strings() {
    let b = b"abc\0def";
    assert_eq!(cstr_at(b, 0), "abc");
    assert_eq!(cstr_at(b, 4), "def");
    assert_eq!(cstr_at(b, 3), "");
    assert_eq!(cstr_at(b, 7), "");
    assert_eq!(cstr_at(b, 100), "");
    assert_eq!(cstr_at(&[b'a', 0xFF, b'b'], 0), "a\u{FFFD}b");
}

fn section(va: u32, vsize: u32, raw: u32, raw_size: u32) -> Section {
    Section {
        name: String::new(),
        virtual_size: vsize,
        virtual_address: va,
        raw_size,
        raw_offset: raw,
        characteristics: 0,
    }
}

#[test]
fn translates_rva_through_sections() {
    let secs = vec![section(0x1000, 0x100, 0x400, 0x200), section(0x1100, 0x100, 0x800, 0x100)];
    assert_eq!(rva_to_offset(&secs, 0x1010), Some(0x410));
    // The first section's raw size widens it past its virtual size, so it wins.
    assert_eq!(rva_to_offset(&secs, 0x1150), Some(0x550));
    assert_eq!(rva_to_offset(&secs, 0x11FF), Some(0x5FF));
    assert_eq!(rva_to_offset(&secs, 0x1200), None);
    assert_eq!(rva_to_offset(&secs, 0xFFF), None);
    assert_eq!(rva_to_offset(&Vec::new(), 0x1000), None);
}

#[test]
fn rva_ranges_stop_at_u32_max() {
    let secs = vec![section(0xFFFF_FF00, 0x1000, 0xFFFF_FFF0, 0)];
    assert_eq!(rva_to_offset(&secs, 0xFFFF_FFFE), Some(0x1_0000_00EE));
    assert_eq!(rva_to_offset(&secs, 0xFFFF_FFFF), None);
}

#[test]
fn error_messages() {
    assert_eq!(
        PeError::ReadOutOfBounds { offset: 0x3c, width: 4 }.message(),
        "чтение u32 за границей файла @ 0x3c"
    );
    assert_eq!(PeError::NoDosSignature.message(), "нет DOS-сигнатуры MZ");
    assert_eq!(PeError::NoPeSignature { offset: 0x80 }.message(), "нет PE-сигнатуры по смещению 0x80");
    assert_eq!(
        PeError::UnknownMagic { magic: 0x107 }.message(),
        "неизвестный Magic опционального заголовка: 0x107"
    );
    assert_eq!(
        PeError::SectionHeaderOutOfBounds { index: 3 }.message(),
        "заголовок секции #3 за границей файла"
    );
    assert_eq!(PeError::ExportDirectoryOutside.message(), "export dir вне секций");
    assert_eq!(PeError::ExportNamesOutside.message(), "AddressOfNames вне секций");
    assert_eq!(PeError::ImportDirectoryOutside.message(), "import dir вне секций");
}

#[test]
fn thunk_tables_stop_after_the_limit() {
    let mut b = sample_pe32();
    let entries = 65537usize;
    let table = 0x600usize;
    b.resize(table + 4 * entries + 4, 0);
    // Widen the section so that it covers the long lookup table.
    put32(&mut b, 0x98 + 0xE0 + 8, 0x0010_0000);
    put32(&mut b, 0x98 + 0xE0 + 16, 0x0010_0000);
    put32(&mut b, 0x300, 0x1000 + (table as u32 - 0x200));
    for i in 0..entries {
        put32(&mut b, table + 4 * i, 0x8000_0000 | (i as u32 & 0xFFFF));
    }
    let pe = read(&b).unwrap();
    assert_eq!(pe.imports.len(), 1);
    assert_eq!(pe.imports[0].functions.len(), 65536);
    assert_eq!(pe.imports[0].functions[65535], "Ordinal #65535");
}

#[test]
fn file_offsets_do_not_wrap() {
    let secs = vec![section(0, 0x10, 0xFFFF_FFFF, 0x10)];
    assert_eq!(rva_to_offset(&secs, 5), Some(0x1_0000_0004));
    // A read there fails instead of landing near the start of the file.
    assert!(u32_at(b"MZ\0\0\0\0", 0x1_0000_0004).is_err());
}

#[test]
fn strings_hold_no_nul() {
    let b = [0xC3u8, 0x00, 0x41];
    assert_eq!(cstr_at(&b, 0), "\u{FFFD}");
    assert!(!cstr_at(&b, 0).contains('\0'));
    assert_eq!(cstr_at(&b, 2), "A");
}
