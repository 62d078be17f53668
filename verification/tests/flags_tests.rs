use peekpe::pe::{
    characteristics_flags, dll_characteristics_flags, machine_name, magic_name, section_flags,
    set_flags,
};

#[test]
fn names_machines() {
    assert_eq!(machine_name(0x014c), "x86 (i386)");
    assert_eq!(machine_name(0x8664), "x64 (AMD64)");
    assert_eq!(machine_name(0x01c0), "ARM");
    assert_eq!(machine_name(0x01c4), "ARM Thumb-2");
    assert_eq!(machine_name(0xaa64), "ARM64");
    assert_eq!(machine_name(0x0200), "Intel IA-64");
    assert_eq!(machine_name(0x0000), "неизвестно");
    assert_eq!(machine_name(0x1234), "прочая");
}

#[test]
fn names_magics() {
    assert_eq!(magic_name(0x10B), "PE32");
    assert_eq!(magic_name(0x20B), "PE32+ (64-бит)");
    assert_eq!(magic_name(0x107), "ROM");
    assert_eq!(magic_name(0x999), "?");
}

#[test]
fn decodes_characteristics() {
    assert_eq!(characteristics_flags(0x0022), vec!["EXECUTABLE_IMAGE", "LARGE_ADDRESS_AWARE"]);
    assert_eq!(characteristics_flags(0x2102), vec!["EXECUTABLE_IMAGE", "32BIT_MACHINE", "DLL"]);
    assert!(characteristics_flags(0).is_empty());
    // 0x0040 has no name: it is skipped.
    assert!(characteristics_flags(0x0040).is_empty());
    assert_eq!(characteristics_flags(0xFFFF).len(), 15);
}

#[test]
fn decodes_dll_characteristics() {
    assert_eq!(
        dll_characteristics_flags(0x8160),
        vec!["HIGH_ENTROPY_VA", "DYNAMIC_BASE", "NX_COMPAT", "TERMINAL_SERVER_AWARE"]
    );
    assert!(dll_characteristics_flags(0x001F).is_empty());
    assert_eq!(dll_characteristics_flags(0xFFFF).len(), 11);
}

#[test]
fn decodes_section_flags_rights_first() {
    assert_eq!(section_flags(0x6000_0020), vec!["R", "X", "CODE"]);
    assert_eq!(section_flags(0xC000_0040), vec!["R", "W", "INIT_DATA"]);
    assert_eq!(section_flags(0x4200_0040), vec!["R", "INIT_DATA", "DISCARDABLE"]);
    assert_eq!(section_flags(0x1000_0080), vec!["UNINIT_DATA", "SHARED"]);
    assert!(section_flags(0).is_empty());
}

#[test]
fn set_flags_keeps_table_order() {
    let table = [(4u32, "c"), (1u32, "a"), (2u32, "b")];
    assert_eq!(set_flags(&table, 7), vec!["c", "a", "b"]);
    assert_eq!(set_flags(&table, 3), vec!["a", "b"]);
    assert!(set_flags(&table, 8).is_empty());
    assert!(set_flags(&[], 0xFFFF_FFFF).is_empty());
}

#[test]
fn more_bits_only_add_names() {
    let few = characteristics_flags(0x0002);
    let more = characteristics_flags(0x0022);
    assert_eq!(few, vec!["EXECUTABLE_IMAGE"]);
    assert_eq!(more, vec!["EXECUTABLE_IMAGE", "LARGE_ADDRESS_AWARE"]);
    let all = section_flags(u32::MAX);
    assert_eq!(all, vec!["R", "W", "X", "CODE", "INIT_DATA", "UNINIT_DATA", "DISCARDABLE", "SHARED"]);
    let table = [(0u32, "never"), (1u32, "one")];
    assert_eq!(set_flags(&table, u32::MAX), vec!["one"]);
}
