use std::path::PathBuf;

use peekpe::detail::{detail_lines, DetailLine, LineKind};
use peekpe::pe::{ImportDll, PeInfo, Section};

fn section(name: &str, va: u32, vsize: u32, raw: u32, raw_size: u32, ch: u32) -> Section {
    Section {
        name: name.to_string(),
        virtual_size: vsize,
        virtual_address: va,
        raw_size,
        raw_offset: raw,
        characteristics: ch,
    }
}

fn dll(name: &str, n: usize) -> ImportDll {
    ImportDll { name: name.to_string(), functions: (0..n).map(|i| format!("f{i}")).collect() }
}

fn pe(exports: usize, imports: Vec<ImportDll>) -> PeInfo {
    PeInfo {
        name: "tool.exe".to_string(),
        path: PathBuf::from("/work/tool.exe"),
        size: 1536,
        machine: 0x8664,
        characteristics: 0x0022,
        magic: 0x20B,
        is_pe32_plus: true,
        entry_point: 0x1010,
        image_base: 0x1_4000_0000,
        file_alignment: 0x200,
        section_alignment: 0x1000,
        size_of_image: 0x3000,
        dll_characteristics: 0x0140,
        sections: vec![section(".text", 0x1000, 0x100, 0x200, 0x200, 0x6000_0020)],
        exports: (0..exports).map(|i| format!("e{i}")).collect(),
        imports,
        has_relocations: true,
        has_resources: false,
    }
}

fn texts(lines: &[DetailLine]) -> Vec<String> {
    lines.iter().map(|l| format!("{}{}", l.lead, l.text)).collect()
}

#[test]
fn header_fields_as_formatted() {
    let lines = detail_lines(&pe(0, Vec::new()), "/work/tool.exe");
    let t = texts(&lines);
    assert_eq!(t[0], "Файл: tool.exe");
    assert_eq!(t[1], "Путь: /work/tool.exe");
    assert_eq!(t[2], "Размер файла: 1536 байт");
    assert_eq!(t[3], format!("Архитектура (Machine): {} ({:#06x})", "x64 (AMD64)", 0x8664));
    assert_eq!(t[4], format!("Magic: {} ({:#06x})", "PE32+ (64-бит)", 0x20B));
    assert_eq!(t[5], format!("Entry Point (RVA): {:#010x}", 0x1010));
    assert_eq!(t[6], format!("Image Base: {:#018x}", 0x1_4000_0000u64));
    assert_eq!(t[7], format!("File Alignment (физ.): {:#x} ({})", 0x200, 0x200));
    assert_eq!(t[8], format!("Section Alignment (вирт.): {:#x} ({})", 0x1000, 0x1000));
    assert_eq!(t[9], format!("Size Of Image: {:#x} ({} байт)", 0x3000, 0x3000));
    assert_eq!(lines[0].kind, LineKind::Field);
    assert_eq!(lines[0].lead, "Файл: ");
    assert_eq!(lines[0].text, "tool.exe");
}

#[test]
fn flags_presence_and_sections() {
    let lines = detail_lines(&pe(0, Vec::new()), "p");
    let t = texts(&lines);
    assert_eq!(t[10], format!("Characteristics: {:#06x}", 0x0022));
    assert_eq!(t[11], "  • EXECUTABLE_IMAGE");
    assert_eq!(t[12], "  • LARGE_ADDRESS_AWARE");
    assert_eq!(lines[11].kind, LineKind::Flag);
    assert_eq!(t[13], format!("DLL Characteristics: {:#06x}", 0x0140));
    assert_eq!(t[14], "  • DYNAMIC_BASE");
    assert_eq!(t[15], "  • NX_COMPAT");
    assert_eq!(t[16], "Релокации: присутствуют");
    assert_eq!(t[17], "Ресурсы: отсутствуют");
    assert_eq!(lines[18].kind, LineKind::Blank);
    assert_eq!(t[19], "Секции (1)");
    assert_eq!(lines[19].kind, LineKind::Heading);
    assert_eq!(lines[20].kind, LineKind::SectionName);
    assert_eq!(lines[20].lead, format!("  {:<8} ", ".text"));
    assert_eq!(
        lines[20].text,
        format!(
            "VA {:#010x}  VSize {:#x}  Raw {:#010x}  RawSize {:#x}",
            0x1000, 0x100, 0x200, 0x200
        )
    );
    assert_eq!(lines[21].kind, LineKind::SectionFlags);
    assert_eq!(lines[21].lead, "           ");
    assert_eq!(lines[21].text, format!("[{}]  ({:#010x})", "R X CODE", 0x6000_0020));
}

#[test]
fn no_tables() {
    let lines = detail_lines(&pe(0, Vec::new()), "p");
    let t = texts(&lines);
    let n = t.len();
    assert_eq!(t[n - 4], "");
    assert_eq!(t[n - 3], "Экспорт: таблица отсутствует");
    assert_eq!(t[n - 2], "");
    assert_eq!(t[n - 1], "Импорт: таблица отсутствует");
}

#[test]
fn export_preview_is_cut_at_eight() {
    let lines = detail_lines(&pe(10, Vec::new()), "p");
    let t = texts(&lines);
    let start = t.iter().position(|s| s == "Экспорт (10 функций)").unwrap();
    for i in 0..8 {
        assert_eq!(t[start + 1 + i], format!("  e{i}"));
    }
    assert_eq!(t[start + 9], "  ↳ показать полностью (ещё 2) — клавиша «e»");
    assert_eq!(lines[start + 9].kind, LineKind::Hint);
    assert_eq!(t[start + 10], "");
}

#[test]
fn short_export_list_has_no_hint() {
    let lines = detail_lines(&pe(8, Vec::new()), "p");
    let t = texts(&lines);
    let start = t.iter().position(|s| s == "Экспорт (8 функций)").unwrap();
    assert_eq!(t[start + 8], "  e7");
    assert_eq!(t[start + 9], "");
}

#[test]
fn import_preview_cuts_dlls_and_functions() {
    let imports = vec![dll("A.dll", 2), dll("B.dll", 6), dll("C.dll", 0), dll("D.dll", 1), dll("E.dll", 3)];
    let lines = detail_lines(&pe(0, imports), "p");
    let t = texts(&lines);
    let start = t.iter().position(|s| s == "Импорт (5 DLL, 12 функций)").unwrap();
    let expected = vec![
        "  A.dll",
        "      f0",
        "      f1",
        "  B.dll",
        "      f0",
        "      f1",
        "      f2",
        "      f3",
        "      … ещё 2 функций",
        "  C.dll",
        "  D.dll",
        "      f0",
        "  … ещё 1 DLL",
        "  ↳ показать импорт полностью — клавиша «i»",
    ];
    assert_eq!(&t[start + 1..], &expected[..]);
    assert_eq!(lines[start + 1].kind, LineKind::DllName);
    assert_eq!(lines[start + 10].kind, LineKind::DllName);
    assert_eq!(lines[start + 9].kind, LineKind::Muted);
    assert_eq!(lines[start + 13].kind, LineKind::Muted);
    assert_eq!(lines[start + 14].kind, LineKind::Hint);
}

#[test]
fn complete_import_preview_has_no_hint() {
    let lines = detail_lines(&pe(0, vec![dll("A.dll", 4)]), "p");
    let t = texts(&lines);
    let start = t.iter().position(|s| s == "Импорт (1 DLL, 4 функций)").unwrap();
    assert_eq!(t.len(), start + 6);
}

#[test]
fn one_long_dll_brings_the_hint() {
    let lines = detail_lines(&pe(0, vec![dll("A.dll", 5)]), "p");
    let t = texts(&lines);
    assert_eq!(t[t.len() - 2], "      … ещё 1 функций");
    assert_eq!(t[t.len() - 1], "  ↳ показать импорт полностью — клавиша «i»");
}
