//! Decoding numeric and bit fields of PE headers into readable names.

use vstd::prelude::*;

verus! {

/// The architecture named by the COFF `Machine` field.
pub open spec fn spec_machine_name(machine: u16) -> &'static str {
    if machine == 0x014c {
        "x86 (i386)"
    } else if machine == 0x8664 {
        "x64 (AMD64)"
    } else if machine == 0x01c0 {
        "ARM"
    } else if machine == 0x01c4 {
        "ARM Thumb-2"
    } else if machine == 0xaa64 {
        "ARM64"
    } else if machine == 0x0200 {
        "Intel IA-64"
    } else if machine == 0x0000 {
        "неизвестно"
    } else {
        "прочая"
    }
}

/// Names the architecture given by the `Machine` field.
pub fn machine_name(machine: u16) -> (r: &'static str)
    ensures
        r == spec_machine_name(machine),
{
    match machine {
        0x014c => "x86 (i386)",
        0x8664 => "x64 (AMD64)",
        0x01c0 => "ARM",
        0x01c4 => "ARM Thumb-2",
        0xaa64 => "ARM64",
        0x0200 => "Intel IA-64",
        0x0000 => "неизвестно",
        _ => "прочая",
    }
}

/// The image format named by the optional header's `Magic` field.
pub open spec fn spec_magic_name(magic: u16) -> &'static str {
    if magic == 0x10B {
        "PE32"
    } else if magic == 0x20B {
        "PE32+ (64-бит)"
    } else if magic == 0x107 {
        "ROM"
    } else {
        "?"
    }
}

/// Names the image format given by the optional header's `Magic` field.
pub fn magic_name(magic: u16) -> (r: &'static str)
    ensures
        r == spec_magic_name(magic),
{
    match magic {
        0x10B => "PE32",
        0x20B => "PE32+ (64-бит)",
        0x107 => "ROM",
        _ => "?",
    }
}

/// The names of the entries of `table` whose bit is set in `value`, in table order.
pub open spec fn selected(table: Seq<(u32, &'static str)>, value: u32) -> Seq<&'static str>
    decreases table.len(),
{
    if table.len() == 0 {
        Seq::empty()
    } else {
        let last = table.last();
        let before = selected(table.drop_last(), value);
        if value & last.0 != 0 {
            before.push(last.1)
        } else {
            before
        }
    }
}

/// The bits of the COFF `Characteristics` field and their names.
pub open spec fn spec_characteristics_table() -> Seq<(u32, &'static str)> {
    seq![
        (0x0001u32, "RELOCS_STRIPPED"),
        (0x0002u32, "EXECUTABLE_IMAGE"),
        (0x0004u32, "LINE_NUMS_STRIPPED"),
        (0x0008u32, "LOCAL_SYMS_STRIPPED"),
        (0x0010u32, "AGGRESSIVE_WS_TRIM"),
        (0x0020u32, "LARGE_ADDRESS_AWARE"),
        (0x0080u32, "BYTES_REVERSED_LO"),
        (0x0100u32, "32BIT_MACHINE"),
        (0x0200u32, "DEBUG_STRIPPED"),
        (0x0400u32, "REMOVABLE_RUN_FROM_SWAP"),
        (0x0800u32, "NET_RUN_FROM_SWAP"),
        (0x1000u32, "SYSTEM"),
        (0x2000u32, "DLL"),
        (0x4000u32, "UP_SYSTEM_ONLY"),
        (0x8000u32, "BYTES_REVERSED_HI"),
    ]
}

/// The bits of the optional header's `DllCharacteristics` field and their names.
pub open spec fn spec_dll_characteristics_table() -> Seq<(u32, &'static str)> {
    seq![
        (0x0020u32, "HIGH_ENTROPY_VA"),
        (0x0040u32, "DYNAMIC_BASE"),
        (0x0080u32, "FORCE_INTEGRITY"),
        (0x0100u32, "NX_COMPAT"),
        (0x0200u32, "NO_ISOLATION"),
        (0x0400u32, "NO_SEH"),
        (0x0800u32, "NO_BIND"),
        (0x1000u32, "APPCONTAINER"),
        (0x2000u32, "WDM_DRIVER"),
        (0x4000u32, "GUARD_CF"),
        (0x8000u32, "TERMINAL_SERVER_AWARE"),
    ]
}

/// The bits of a section's `Characteristics` field that are shown, and their
/// names: access rights first, then the kind of content.
pub open spec fn spec_section_table() -> Seq<(u32, &'static str)> {
    seq![
        (0x4000_0000u32, "R"),
        (0x8000_0000u32, "W"),
        (0x2000_0000u32, "X"),
        (0x0000_0020u32, "CODE"),
        (0x0000_0040u32, "INIT_DATA"),
        (0x0000_0080u32, "UNINIT_DATA"),
        (0x0200_0000u32, "DISCARDABLE"),
        (0x1000_0000u32, "SHARED"),
    ]
}

fn characteristics_table() -> (t: Vec<(u32, &'static str)>)
    ensures
        t@ == spec_characteristics_table(),
{
    let t = vec![
        (0x0001u32, "RELOCS_STRIPPED"),
        (0x0002u32, "EXECUTABLE_IMAGE"),
        (0x0004u32, "LINE_NUMS_STRIPPED"),
        (0x0008u32, "LOCAL_SYMS_STRIPPED"),
        (0x0010u32, "AGGRESSIVE_WS_TRIM"),
        (0x0020u32, "LARGE_ADDRESS_AWARE"),
        (0x0080u32, "BYTES_REVERSED_LO"),
        (0x0100u32, "32BIT_MACHINE"),
        (0x0200u32, "DEBUG_STRIPPED"),
        (0x0400u32, "REMOVABLE_RUN_FROM_SWAP"),
        (0x0800u32, "NET_RUN_FROM_SWAP"),
        (0x1000u32, "SYSTEM"),
        (0x2000u32, "DLL"),
        (0x4000u32, "UP_SYSTEM_ONLY"),
        (0x8000u32, "BYTES_REVERSED_HI"),
    ];
    assert(t@ =~= spec_characteristics_table());
    t
}

fn dll_characteristics_table() -> (t: Vec<(u32, &'static str)>)
    ensures
        t@ == spec_dll_characteristics_table(),
{
    let t = vec![
        (0x0020u32, "HIGH_ENTROPY_VA"),
        (0x0040u32, "DYNAMIC_BASE"),
        (0x0080u32, "FORCE_INTEGRITY"),
        (0x0100u32, "NX_COMPAT"),
        (0x0200u32, "NO_ISOLATION"),
        (0x0400u32, "NO_SEH"),
        (0x0800u32, "NO_BIND"),
        (0x1000u32, "APPCONTAINER"),
        (0x2000u32, "WDM_DRIVER"),
        (0x4000u32, "GUARD_CF"),
        (0x8000u32, "TERMINAL_SERVER_AWARE"),
    ];
    assert(t@ =~= spec_dll_characteristics_table());
    t
}

fn section_table() -> (t: Vec<(u32, &'static str)>)
    ensures
        t@ == spec_section_table(),
{
    let t = vec![
        (0x4000_0000u32, "R"),
        (0x8000_0000u32, "W"),
        (0x2000_0000u32, "X"),
        (0x0000_0020u32, "CODE"),
        (0x0000_0040u32, "INIT_DATA"),
        (0x0000_0080u32, "UNINIT_DATA"),
        (0x0200_0000u32, "DISCARDABLE"),
        (0x1000_0000u32, "SHARED"),
    ];
    assert(t@ =~= spec_section_table());
    t
}

/// Keeps the names of those flags whose bits are set in `value`, in table order.
pub fn set_flags(flags: &[(u32, &'static str)], value: u32) -> (r: Vec<&'static str>)
    ensures
        r@ == selected(flags@, value),
{
    let mut r: Vec<&'static str> = Vec::new();
    let mut i: usize = 0;
    while i < flags.len()
        invariant
            i <= flags.len(),
            r@ == selected(flags@.take(i as int), value),
        decreases flags.len() - i,
    {
        let (bit, name) = flags[i];
        assert(flags@.take(i + 1).drop_last() =~= flags@.take(i as int));
        if value & bit != 0 {
            r.push(name);
        }
        i = i + 1;
    }
    assert(flags@.take(flags.len() as int) =~= flags@);
    r
}

/// The names of the COFF `Characteristics` bits set in `value`.
pub fn characteristics_flags(value: u16) -> (r: Vec<&'static str>)
    ensures
        r@ == selected(spec_characteristics_table(), value as u32),
{
    let t = characteristics_table();
    set_flags(t.as_slice(), value as u32)
}

/// The names of the `DllCharacteristics` bits set in `value`.
pub fn dll_characteristics_flags(value: u16) -> (r: Vec<&'static str>)
    ensures
        r@ == selected(spec_dll_characteristics_table(), value as u32),
{
    let t = dll_characteristics_table();
    set_flags(t.as_slice(), value as u32)
}

/// A section's rights and content kind, by the bits set in its `Characteristics`.
pub fn section_flags(value: u32) -> (r: Vec<&'static str>)
    ensures
        r@ == selected(spec_section_table(), value),
{
    let t = section_table();
    set_flags(t.as_slice(), value)
}

/// Every name in the selection belongs to an entry of the table whose bit is
/// set in `value`, and the selection is no longer than the table.
pub proof fn lemma_selected_sound(table: Seq<(u32, &'static str)>, value: u32)
    ensures
        selected(table, value).len() <= table.len(),
        forall|x: &'static str|
            #[trigger] selected(table, value).contains(x) ==> exists|i: int|
                0 <= i < table.len() && #[trigger] table[i].1 == x && value & table[i].0 != 0,
    decreases table.len(),
{
    if table.len() > 0 {
        let t = table.drop_last();
        lemma_selected_sound(t, value);
        let before = selected(t, value);
        assert forall|x: &'static str| #[trigger]
            selected(table, value).contains(x) implies exists|i: int|
            0 <= i < table.len() && #[trigger] table[i].1 == x && value & table[i].0 != 0 by {
            if before.contains(x) {
                let i = choose|i: int|
                    0 <= i < t.len() && #[trigger] t[i].1 == x && value & t[i].0 != 0;
                assert(table[i] == t[i]);
            } else {
                assert(table[table.len() - 1] == table.last());
            }
        }
    }
}

/// Every entry of the table whose bit is set in `value` has its name in the
/// selection.
pub proof fn lemma_selected_complete(table: Seq<(u32, &'static str)>, value: u32, i: int)
    requires
        0 <= i < table.len(),
        value & table[i].0 != 0,
    ensures
        selected(table, value).contains(table[i].1),
    decreases table.len(),
{
    let t = table.drop_last();
    let before = selected(t, value);
    if i == table.len() - 1 {
        assert(selected(table, value).last() == table[i].1);
    } else {
        lemma_selected_complete(t, value, i);
        let k = choose|k: int| 0 <= k < before.len() && before[k] == t[i].1;
        if value & table.last().0 != 0 {
            assert(selected(table, value)[k] == before[k]);
        }
    }
}

/// With no bit set, no flag is named.
pub proof fn lemma_selected_none(table: Seq<(u32, &'static str)>)
    ensures
        selected(table, 0u32) == Seq::<&'static str>::empty(),
    decreases table.len(),
{
    if table.len() > 0 {
        lemma_selected_none(table.drop_last());
        let b = table.last().0;
        assert(0u32 & b == 0) by (bit_vector);
    }
}

/// `x` can be had from `y` by leaving entries out, keeping the order.
pub open spec fn sub_list(x: Seq<&'static str>, y: Seq<&'static str>) -> bool
    decreases y.len(),
{
    x.len() == 0 || (y.len() > 0 && ((x.last() == y.last() && sub_list(x.drop_last(), y.drop_last()))
        || sub_list(x, y.drop_last())))
}

/// Setting more bits only adds names: every bit set in `a` being set in
/// `b`, the names for `a` are the names for `b` with some left out, in the
/// same order.
pub proof fn lemma_selected_monotone(table: Seq<(u32, &'static str)>, a: u32, b: u32)
    requires
        a & !b == 0,
    ensures
        sub_list(selected(table, a), selected(table, b)),
    decreases table.len(),
{
    if table.len() > 0 {
        let t = table.drop_last();
        let bit = table.last().0;
        lemma_selected_monotone(t, a, b);
        let sa = selected(t, a);
        let sb = selected(t, b);
        assert(a & !b == 0 && a & bit != 0 ==> b & bit != 0) by (bit_vector);
        if b & bit != 0 {
            let sb2 = sb.push(table.last().1);
            assert(sb2.drop_last() =~= sb);
            if a & bit != 0 {
                let sa2 = sa.push(table.last().1);
                assert(sa2.drop_last() =~= sa);
            } else if sa.len() > 0 {
                assert(sub_list(sa, sb2));
            }
        }
    }
}

/// With every bit set, each entry whose bit is not zero is named, in table order.
pub proof fn lemma_selected_all(table: Seq<(u32, &'static str)>)
    requires
        forall|i: int| 0 <= i < table.len() ==> (#[trigger] table[i]).0 != 0,
    ensures
        selected(table, u32::MAX) == table.map_values(|e: (u32, &'static str)| e.1),
    decreases table.len(),
{
    if table.len() > 0 {
        let t = table.drop_last();
        lemma_selected_all(t);
        let bit = table.last().0;
        assert(table[table.len() - 1].0 != 0);
        assert(bit != 0 ==> 0xFFFF_FFFFu32 & bit != 0) by (bit_vector);
        assert(table.map_values(|e: (u32, &'static str)| e.1) =~= t.map_values(
            |e: (u32, &'static str)| e.1,
        ).push(table.last().1));
    }
}

/// Each `Characteristics` bit decodes, on its own, to its PE name (0x0040 has
/// none); with every bit set, all names come in the order of their bits.
pub proof fn lemma_characteristics_names()
    ensures
        selected(spec_characteristics_table(), 0x1u32) == seq!["RELOCS_STRIPPED"],
        selected(spec_characteristics_table(), 0x2u32) == seq!["EXECUTABLE_IMAGE"],
        selected(spec_characteristics_table(), 0x4u32) == seq!["LINE_NUMS_STRIPPED"],
        selected(spec_characteristics_table(), 0x8u32) == seq!["LOCAL_SYMS_STRIPPED"],
        selected(spec_characteristics_table(), 0x10u32) == seq!["AGGRESSIVE_WS_TRIM"],
        selected(spec_characteristics_table(), 0x20u32) == seq!["LARGE_ADDRESS_AWARE"],
        selected(spec_characteristics_table(), 0x80u32) == seq!["BYTES_REVERSED_LO"],
        selected(spec_characteristics_table(), 0x100u32) == seq!["32BIT_MACHINE"],
        selected(spec_characteristics_table(), 0x200u32) == seq!["DEBUG_STRIPPED"],
        selected(spec_characteristics_table(), 0x400u32) == seq!["REMOVABLE_RUN_FROM_SWAP"],
        selected(spec_characteristics_table(), 0x800u32) == seq!["NET_RUN_FROM_SWAP"],
        selected(spec_characteristics_table(), 0x1000u32) == seq!["SYSTEM"],
        selected(spec_characteristics_table(), 0x2000u32) == seq!["DLL"],
        selected(spec_characteristics_table(), 0x4000u32) == seq!["UP_SYSTEM_ONLY"],
        selected(spec_characteristics_table(), 0x8000u32) == seq!["BYTES_REVERSED_HI"],
        selected(spec_characteristics_table(), 0x40u32) == Seq::<&'static str>::empty(),
        selected(spec_characteristics_table(), 0xFFFFu32) == seq!["RELOCS_STRIPPED", "EXECUTABLE_IMAGE", "LINE_NUMS_STRIPPED", "LOCAL_SYMS_STRIPPED", "AGGRESSIVE_WS_TRIM", "LARGE_ADDRESS_AWARE", "BYTES_REVERSED_LO", "32BIT_MACHINE", "DEBUG_STRIPPED", "REMOVABLE_RUN_FROM_SWAP", "NET_RUN_FROM_SWAP", "SYSTEM", "DLL", "UP_SYSTEM_ONLY", "BYTES_REVERSED_HI"],
{
    reveal_with_fuel(selected, 16);
    assert(0x1u32 & 0x1u32 != 0
        && 0x1u32 & 0x2u32 == 0
        && 0x1u32 & 0x4u32 == 0
        && 0x1u32 & 0x8u32 == 0
        && 0x1u32 & 0x10u32 == 0
        && 0x1u32 & 0x20u32 == 0
        && 0x1u32 & 0x80u32 == 0
        && 0x1u32 & 0x100u32 == 0
        && 0x1u32 & 0x200u32 == 0
        && 0x1u32 & 0x400u32 == 0
        && 0x1u32 & 0x800u32 == 0
        && 0x1u32 & 0x1000u32 == 0
        && 0x1u32 & 0x2000u32 == 0
        && 0x1u32 & 0x4000u32 == 0
        && 0x1u32 & 0x8000u32 == 0
        && 0x2u32 & 0x1u32 == 0
        && 0x2u32 & 0x2u32 != 0
        && 0x2u32 & 0x4u32 == 0
        && 0x2u32 & 0x8u32 == 0
        && 0x2u32 & 0x10u32 == 0
        && 0x2u32 & 0x20u32 == 0
        && 0x2u32 & 0x80u32 == 0
        && 0x2u32 & 0x100u32 == 0
        && 0x2u32 & 0x200u32 == 0
        && 0x2u32 & 0x400u32 == 0
        && 0x2u32 & 0x800u32 == 0
        && 0x2u32 & 0x1000u32 == 0
        && 0x2u32 & 0x2000u32 == 0
        && 0x2u32 & 0x4000u32 == 0
        && 0x2u32 & 0x8000u32 == 0
        && 0x4u32 & 0x1u32 == 0
        && 0x4u32 & 0x2u32 == 0
        && 0x4u32 & 0x4u32 != 0
        && 0x4u32 & 0x8u32 == 0
        && 0x4u32 & 0x10u32 == 0
        && 0x4u32 & 0x20u32 == 0
        && 0x4u32 & 0x80u32 == 0
        && 0x4u32 & 0x100u32 == 0
        && 0x4u32 & 0x200u32 == 0
        && 0x4u32 & 0x400u32 == 0
        && 0x4u32 & 0x800u32 == 0
        && 0x4u32 & 0x1000u32 == 0
        && 0x4u32 & 0x2000u32 == 0
        && 0x4u32 & 0x4000u32 == 0
        && 0x4u32 & 0x8000u32 == 0
        && 0x8u32 & 0x1u32 == 0
        && 0x8u32 & 0x2u32 == 0
        && 0x8u32 & 0x4u32 == 0
        && 0x8u32 & 0x8u32 != 0
        && 0x8u32 & 0x10u32 == 0
        && 0x8u32 & 0x20u32 == 0
        && 0x8u32 & 0x80u32 == 0
        && 0x8u32 & 0x100u32 == 0
        && 0x8u32 & 0x200u32 == 0
        && 0x8u32 & 0x400u32 == 0
        && 0x8u32 & 0x800u32 == 0
        && 0x8u32 & 0x1000u32 == 0
        && 0x8u32 & 0x2000u32 == 0
        && 0x8u32 & 0x4000u32 == 0
        && 0x8u32 & 0x8000u32 == 0
        && 0x10u32 & 0x1u32 == 0
        && 0x10u32 & 0x2u32 == 0
        && 0x10u32 & 0x4u32 == 0
        && 0x10u32 & 0x8u32 == 0
        && 0x10u32 & 0x10u32 != 0
        && 0x10u32 & 0x20u32 == 0
        && 0x10u32 & 0x80u32 == 0
        && 0x10u32 & 0x100u32 == 0
        && 0x10u32 & 0x200u32 == 0
        && 0x10u32 & 0x400u32 == 0
        && 0x10u32 & 0x800u32 == 0
        && 0x10u32 & 0x1000u32 == 0
        && 0x10u32 & 0x2000u32 == 0
        && 0x10u32 & 0x4000u32 == 0
        && 0x10u32 & 0x8000u32 == 0
        && 0x20u32 & 0x1u32 == 0
        && 0x20u32 & 0x2u32 == 0
        && 0x20u32 & 0x4u32 == 0
        && 0x20u32 & 0x8u32 == 0
        && 0x20u32 & 0x10u32 == 0
        && 0x20u32 & 0x20u32 != 0
        && 0x20u32 & 0x80u32 == 0
        && 0x20u32 & 0x100u32 == 0
        && 0x20u32 & 0x200u32 == 0
        && 0x20u32 & 0x400u32 == 0
        && 0x20u32 & 0x800u32 == 0
        && 0x20u32 & 0x1000u32 == 0
        && 0x20u32 & 0x2000u32 == 0
        && 0x20u32 & 0x4000u32 == 0
        && 0x20u32 & 0x8000u32 == 0
        && 0x80u32 & 0x1u32 == 0
        && 0x80u32 & 0x2u32 == 0
        && 0x80u32 & 0x4u32 == 0
        && 0x80u32 & 0x8u32 == 0
        && 0x80u32 & 0x10u32 == 0
        && 0x80u32 & 0x20u32 == 0
        && 0x80u32 & 0x80u32 != 0
        && 0x80u32 & 0x100u32 == 0
        && 0x80u32 & 0x200u32 == 0
        && 0x80u32 & 0x400u32 == 0
        && 0x80u32 & 0x800u32 == 0
        && 0x80u32 & 0x1000u32 == 0
        && 0x80u32 & 0x2000u32 == 0
        && 0x80u32 & 0x4000u32 == 0
        && 0x80u32 & 0x8000u32 == 0
        && 0x100u32 & 0x1u32 == 0
        && 0x100u32 & 0x2u32 == 0
        && 0x100u32 & 0x4u32 == 0
        && 0x100u32 & 0x8u32 == 0
        && 0x100u32 & 0x10u32 == 0
        && 0x100u32 & 0x20u32 == 0
        && 0x100u32 & 0x80u32 == 0
        && 0x100u32 & 0x100u32 != 0
        && 0x100u32 & 0x200u32 == 0
        && 0x100u32 & 0x400u32 == 0
        && 0x100u32 & 0x800u32 == 0
        && 0x100u32 & 0x1000u32 == 0
        && 0x100u32 & 0x2000u32 == 0
        && 0x100u32 & 0x4000u32 == 0
        && 0x100u32 & 0x8000u32 == 0
        && 0x200u32 & 0x1u32 == 0
        && 0x200u32 & 0x2u32 == 0
        && 0x200u32 & 0x4u32 == 0
        && 0x200u32 & 0x8u32 == 0
        && 0x200u32 & 0x10u32 == 0
        && 0x200u32 & 0x20u32 == 0
        && 0x200u32 & 0x80u32 == 0
        && 0x200u32 & 0x100u32 == 0
        && 0x200u32 & 0x200u32 != 0
        && 0x200u32 & 0x400u32 == 0
        && 0x200u32 & 0x800u32 == 0
        && 0x200u32 & 0x1000u32 == 0
        && 0x200u32 & 0x2000u32 == 0
        && 0x200u32 & 0x4000u32 == 0
        && 0x200u32 & 0x8000u32 == 0
        && 0x400u32 & 0x1u32 == 0
        && 0x400u32 & 0x2u32 == 0
        && 0x400u32 & 0x4u32 == 0
        && 0x400u32 & 0x8u32 == 0
        && 0x400u32 & 0x10u32 == 0
        && 0x400u32 & 0x20u32 == 0
        && 0x400u32 & 0x80u32 == 0
        && 0x400u32 & 0x100u32 == 0
        && 0x400u32 & 0x200u32 == 0
        && 0x400u32 & 0x400u32 != 0
        && 0x400u32 & 0x800u32 == 0
        && 0x400u32 & 0x1000u32 == 0
        && 0x400u32 & 0x2000u32 == 0
        && 0x400u32 & 0x4000u32 == 0
        && 0x400u32 & 0x8000u32 == 0
        && 0x800u32 & 0x1u32 == 0
        && 0x800u32 & 0x2u32 == 0
        && 0x800u32 & 0x4u32 == 0
        && 0x800u32 & 0x8u32 == 0
        && 0x800u32 & 0x10u32 == 0
        && 0x800u32 & 0x20u32 == 0
        && 0x800u32 & 0x80u32 == 0
        && 0x800u32 & 0x100u32 == 0
        && 0x800u32 & 0x200u32 == 0
        && 0x800u32 & 0x400u32 == 0
        && 0x800u32 & 0x800u32 != 0
        && 0x800u32 & 0x1000u32 == 0
        && 0x800u32 & 0x2000u32 == 0
        && 0x800u32 & 0x4000u32 == 0
        && 0x800u32 & 0x8000u32 == 0
        && 0x1000u32 & 0x1u32 == 0
        && 0x1000u32 & 0x2u32 == 0
        && 0x1000u32 & 0x4u32 == 0
        && 0x1000u32 & 0x8u32 == 0
        && 0x1000u32 & 0x10u32 == 0
        && 0x1000u32 & 0x20u32 == 0
        && 0x1000u32 & 0x80u32 == 0
        && 0x1000u32 & 0x100u32 == 0
        && 0x1000u32 & 0x200u32 == 0
        && 0x1000u32 & 0x400u32 == 0
        && 0x1000u32 & 0x800u32 == 0
        && 0x1000u32 & 0x1000u32 != 0
        && 0x1000u32 & 0x2000u32 == 0
        && 0x1000u32 & 0x4000u32 == 0
        && 0x1000u32 & 0x8000u32 == 0
        && 0x2000u32 & 0x1u32 == 0
        && 0x2000u32 & 0x2u32 == 0
        && 0x2000u32 & 0x4u32 == 0
        && 0x2000u32 & 0x8u32 == 0
        && 0x2000u32 & 0x10u32 == 0
        && 0x2000u32 & 0x20u32 == 0
        && 0x2000u32 & 0x80u32 == 0
        && 0x2000u32 & 0x100u32 == 0
        && 0x2000u32 & 0x200u32 == 0
        && 0x2000u32 & 0x400u32 == 0
        && 0x2000u32 & 0x800u32 == 0
        && 0x2000u32 & 0x1000u32 == 0
        && 0x2000u32 & 0x2000u32 != 0
        && 0x2000u32 & 0x4000u32 == 0
        && 0x2000u32 & 0x8000u32 == 0
        && 0x4000u32 & 0x1u32 == 0
        && 0x4000u32 & 0x2u32 == 0
        && 0x4000u32 & 0x4u32 == 0
        && 0x4000u32 & 0x8u32 == 0
        && 0x4000u32 & 0x10u32 == 0
        && 0x4000u32 & 0x20u32 == 0
        && 0x4000u32 & 0x80u32 == 0
        && 0x4000u32 & 0x100u32 == 0
        && 0x4000u32 & 0x200u32 == 0
        && 0x4000u32 & 0x400u32 == 0
        && 0x4000u32 & 0x800u32 == 0
        && 0x4000u32 & 0x1000u32 == 0
        && 0x4000u32 & 0x2000u32 == 0
        && 0x4000u32 & 0x4000u32 != 0
        && 0x4000u32 & 0x8000u32 == 0
        && 0x8000u32 & 0x1u32 == 0
        && 0x8000u32 & 0x2u32 == 0
        && 0x8000u32 & 0x4u32 == 0
        && 0x8000u32 & 0x8u32 == 0
        && 0x8000u32 & 0x10u32 == 0
        && 0x8000u32 & 0x20u32 == 0
        && 0x8000u32 & 0x80u32 == 0
        && 0x8000u32 & 0x100u32 == 0
        && 0x8000u32 & 0x200u32 == 0
        && 0x8000u32 & 0x400u32 == 0
        && 0x8000u32 & 0x800u32 == 0
        && 0x8000u32 & 0x1000u32 == 0
        && 0x8000u32 & 0x2000u32 == 0
        && 0x8000u32 & 0x4000u32 == 0
        && 0x8000u32 & 0x8000u32 != 0
        && 0x40u32 & 0x1u32 == 0
        && 0x40u32 & 0x2u32 == 0
        && 0x40u32 & 0x4u32 == 0
        && 0x40u32 & 0x8u32 == 0
        && 0x40u32 & 0x10u32 == 0
        && 0x40u32 & 0x20u32 == 0
        && 0x40u32 & 0x80u32 == 0
        && 0x40u32 & 0x100u32 == 0
        && 0x40u32 & 0x200u32 == 0
        && 0x40u32 & 0x400u32 == 0
        && 0x40u32 & 0x800u32 == 0
        && 0x40u32 & 0x1000u32 == 0
        && 0x40u32 & 0x2000u32 == 0
        && 0x40u32 & 0x4000u32 == 0
        && 0x40u32 & 0x8000u32 == 0
        && 0xFFFFu32 & 0x1u32 != 0
        && 0xFFFFu32 & 0x2u32 != 0
        && 0xFFFFu32 & 0x4u32 != 0
        && 0xFFFFu32 & 0x8u32 != 0
        && 0xFFFFu32 & 0x10u32 != 0
        && 0xFFFFu32 & 0x20u32 != 0
        && 0xFFFFu32 & 0x80u32 != 0
        && 0xFFFFu32 & 0x100u32 != 0
        && 0xFFFFu32 & 0x200u32 != 0
        && 0xFFFFu32 & 0x400u32 != 0
        && 0xFFFFu32 & 0x800u32 != 0
        && 0xFFFFu32 & 0x1000u32 != 0
        && 0xFFFFu32 & 0x2000u32 != 0
        && 0xFFFFu32 & 0x4000u32 != 0
        && 0xFFFFu32 & 0x8000u32 != 0) by (bit_vector);
}

/// Each `DllCharacteristics` bit decodes, on its own, to its PE name; with
/// every bit set, all names come in the order of their bits.
pub proof fn lemma_dll_characteristics_names()
    ensures
        selected(spec_dll_characteristics_table(), 0x20u32) == seq!["HIGH_ENTROPY_VA"],
        selected(spec_dll_characteristics_table(), 0x40u32) == seq!["DYNAMIC_BASE"],
        selected(spec_dll_characteristics_table(), 0x80u32) == seq!["FORCE_INTEGRITY"],
        selected(spec_dll_characteristics_table(), 0x100u32) == seq!["NX_COMPAT"],
        selected(spec_dll_characteristics_table(), 0x200u32) == seq!["NO_ISOLATION"],
        selected(spec_dll_characteristics_table(), 0x400u32) == seq!["NO_SEH"],
        selected(spec_dll_characteristics_table(), 0x800u32) == seq!["NO_BIND"],
        selected(spec_dll_characteristics_table(), 0x1000u32) == seq!["APPCONTAINER"],
        selected(spec_dll_characteristics_table(), 0x2000u32) == seq!["WDM_DRIVER"],
        selected(spec_dll_characteristics_table(), 0x4000u32) == seq!["GUARD_CF"],
        selected(spec_dll_characteristics_table(), 0x8000u32) == seq!["TERMINAL_SERVER_AWARE"],
        selected(spec_dll_characteristics_table(), 0xFFFFu32) == seq!["HIGH_ENTROPY_VA", "DYNAMIC_BASE", "FORCE_INTEGRITY", "NX_COMPAT", "NO_ISOLATION", "NO_SEH", "NO_BIND", "APPCONTAINER", "WDM_DRIVER", "GUARD_CF", "TERMINAL_SERVER_AWARE"],
{
    reveal_with_fuel(selected, 12);
    assert(0x20u32 & 0x20u32 != 0
        && 0x20u32 & 0x40u32 == 0
        && 0x20u32 & 0x80u32 == 0
        && 0x20u32 & 0x100u32 == 0
        && 0x20u32 & 0x200u32 == 0
        && 0x20u32 & 0x400u32 == 0
        && 0x20u32 & 0x800u32 == 0
        && 0x20u32 & 0x1000u32 == 0
        && 0x20u32 & 0x2000u32 == 0
        && 0x20u32 & 0x4000u32 == 0
        && 0x20u32 & 0x8000u32 == 0
        && 0x40u32 & 0x20u32 == 0
        && 0x40u32 & 0x40u32 != 0
        && 0x40u32 & 0x80u32 == 0
        && 0x40u32 & 0x100u32 == 0
        && 0x40u32 & 0x200u32 == 0
        && 0x40u32 & 0x400u32 == 0
        && 0x40u32 & 0x800u32 == 0
        && 0x40u32 & 0x1000u32 == 0
        && 0x40u32 & 0x2000u32 == 0
        && 0x40u32 & 0x4000u32 == 0
        && 0x40u32 & 0x8000u32 == 0
        && 0x80u32 & 0x20u32 == 0
        && 0x80u32 & 0x40u32 == 0
        && 0x80u32 & 0x80u32 != 0
        && 0x80u32 & 0x100u32 == 0
        && 0x80u32 & 0x200u32 == 0
        && 0x80u32 & 0x400u32 == 0
        && 0x80u32 & 0x800u32 == 0
        && 0x80u32 & 0x1000u32 == 0
        && 0x80u32 & 0x2000u32 == 0
        && 0x80u32 & 0x4000u32 == 0
        && 0x80u32 & 0x8000u32 == 0
        && 0x100u32 & 0x20u32 == 0
        && 0x100u32 & 0x40u32 == 0
        && 0x100u32 & 0x80u32 == 0
        && 0x100u32 & 0x100u32 != 0
        && 0x100u32 & 0x200u32 == 0
        && 0x100u32 & 0x400u32 == 0
        && 0x100u32 & 0x800u32 == 0
        && 0x100u32 & 0x1000u32 == 0
        && 0x100u32 & 0x2000u32 == 0
        && 0x100u32 & 0x4000u32 == 0
        && 0x100u32 & 0x8000u32 == 0
        && 0x200u32 & 0x20u32 == 0
        && 0x200u32 & 0x40u32 == 0
        && 0x200u32 & 0x80u32 == 0
        && 0x200u32 & 0x100u32 == 0
        && 0x200u32 & 0x200u32 != 0
        && 0x200u32 & 0x400u32 == 0
        && 0x200u32 & 0x800u32 == 0
        && 0x200u32 & 0x1000u32 == 0
        && 0x200u32 & 0x2000u32 == 0
        && 0x200u32 & 0x4000u32 == 0
        && 0x200u32 & 0x8000u32 == 0
        && 0x400u32 & 0x20u32 == 0
        && 0x400u32 & 0x40u32 == 0
        && 0x400u32 & 0x80u32 == 0
        && 0x400u32 & 0x100u32 == 0
        && 0x400u32 & 0x200u32 == 0
        && 0x400u32 & 0x400u32 != 0
        && 0x400u32 & 0x800u32 == 0
        && 0x400u32 & 0x1000u32 == 0
        && 0x400u32 & 0x2000u32 == 0
        && 0x400u32 & 0x4000u32 == 0
        && 0x400u32 & 0x8000u32 == 0
        && 0x800u32 & 0x20u32 == 0
        && 0x800u32 & 0x40u32 == 0
        && 0x800u32 & 0x80u32 == 0
        && 0x800u32 & 0x100u32 == 0
        && 0x800u32 & 0x200u32 == 0
        && 0x800u32 & 0x400u32 == 0
        && 0x800u32 & 0x800u32 != 0
        && 0x800u32 & 0x1000u32 == 0
        && 0x800u32 & 0x2000u32 == 0
        && 0x800u32 & 0x4000u32 == 0
        && 0x800u32 & 0x8000u32 == 0
        && 0x1000u32 & 0x20u32 == 0
        && 0x1000u32 & 0x40u32 == 0
        && 0x1000u32 & 0x80u32 == 0
        && 0x1000u32 & 0x100u32 == 0
        && 0x1000u32 & 0x200u32 == 0
        && 0x1000u32 & 0x400u32 == 0
        && 0x1000u32 & 0x800u32 == 0
        && 0x1000u32 & 0x1000u32 != 0
        && 0x1000u32 & 0x2000u32 == 0
        && 0x1000u32 & 0x4000u32 == 0
        && 0x1000u32 & 0x8000u32 == 0
        && 0x2000u32 & 0x20u32 == 0
        && 0x2000u32 & 0x40u32 == 0
        && 0x2000u32 & 0x80u32 == 0
        && 0x2000u32 & 0x100u32 == 0
        && 0x2000u32 & 0x200u32 == 0
        && 0x2000u32 & 0x400u32 == 0
        && 0x2000u32 & 0x800u32 == 0
        && 0x2000u32 & 0x1000u32 == 0
        && 0x2000u32 & 0x2000u32 != 0
        && 0x2000u32 & 0x4000u32 == 0
        && 0x2000u32 & 0x8000u32 == 0
        && 0x4000u32 & 0x20u32 == 0
        && 0x4000u32 & 0x40u32 == 0
        && 0x4000u32 & 0x80u32 == 0
        && 0x4000u32 & 0x100u32 == 0
        && 0x4000u32 & 0x200u32 == 0
        && 0x4000u32 & 0x400u32 == 0
        && 0x4000u32 & 0x800u32 == 0
        && 0x4000u32 & 0x1000u32 == 0
        && 0x4000u32 & 0x2000u32 == 0
        && 0x4000u32 & 0x4000u32 != 0
        && 0x4000u32 & 0x8000u32 == 0
        && 0x8000u32 & 0x20u32 == 0
        && 0x8000u32 & 0x40u32 == 0
        && 0x8000u32 & 0x80u32 == 0
        && 0x8000u32 & 0x100u32 == 0
        && 0x8000u32 & 0x200u32 == 0
        && 0x8000u32 & 0x400u32 == 0
        && 0x8000u32 & 0x800u32 == 0
        && 0x8000u32 & 0x1000u32 == 0
        && 0x8000u32 & 0x2000u32 == 0
        && 0x8000u32 & 0x4000u32 == 0
        && 0x8000u32 & 0x8000u32 != 0
        && 0xFFFFu32 & 0x20u32 != 0
        && 0xFFFFu32 & 0x40u32 != 0
        && 0xFFFFu32 & 0x80u32 != 0
        && 0xFFFFu32 & 0x100u32 != 0
        && 0xFFFFu32 & 0x200u32 != 0
        && 0xFFFFu32 & 0x400u32 != 0
        && 0xFFFFu32 & 0x800u32 != 0
        && 0xFFFFu32 & 0x1000u32 != 0
        && 0xFFFFu32 & 0x2000u32 != 0
        && 0xFFFFu32 & 0x4000u32 != 0
        && 0xFFFFu32 & 0x8000u32 != 0) by (bit_vector);
}

/// Each section flag bit decodes, on its own, to its name; with every bit
/// set, the access rights come first (R, W, X), then the kinds of content.
pub proof fn lemma_section_names()
    ensures
        selected(spec_section_table(), 0x40000000u32) == seq!["R"],
        selected(spec_section_table(), 0x80000000u32) == seq!["W"],
        selected(spec_section_table(), 0x20000000u32) == seq!["X"],
        selected(spec_section_table(), 0x20u32) == seq!["CODE"],
        selected(spec_section_table(), 0x40u32) == seq!["INIT_DATA"],
        selected(spec_section_table(), 0x80u32) == seq!["UNINIT_DATA"],
        selected(spec_section_table(), 0x2000000u32) == seq!["DISCARDABLE"],
        selected(spec_section_table(), 0x10000000u32) == seq!["SHARED"],
        selected(spec_section_table(), 0xFFFFFFFFu32) == seq!["R", "W", "X", "CODE", "INIT_DATA", "UNINIT_DATA", "DISCARDABLE", "SHARED"],
{
    reveal_with_fuel(selected, 9);
    assert(0x40000000u32 & 0x40000000u32 != 0
        && 0x40000000u32 & 0x80000000u32 == 0
        && 0x40000000u32 & 0x20000000u32 == 0
        && 0x40000000u32 & 0x20u32 == 0
        && 0x40000000u32 & 0x40u32 == 0
        && 0x40000000u32 & 0x80u32 == 0
        && 0x40000000u32 & 0x2000000u32 == 0
        && 0x40000000u32 & 0x10000000u32 == 0
        && 0x80000000u32 & 0x40000000u32 == 0
        && 0x80000000u32 & 0x80000000u32 != 0
        && 0x80000000u32 & 0x20000000u32 == 0
        && 0x80000000u32 & 0x20u32 == 0
        && 0x80000000u32 & 0x40u32 == 0
        && 0x80000000u32 & 0x80u32 == 0
        && 0x80000000u32 & 0x2000000u32 == 0
        && 0x80000000u32 & 0x10000000u32 == 0
        && 0x20000000u32 & 0x40000000u32 == 0
        && 0x20000000u32 & 0x80000000u32 == 0
        && 0x20000000u32 & 0x20000000u32 != 0
        && 0x20000000u32 & 0x20u32 == 0
        && 0x20000000u32 & 0x40u32 == 0
        && 0x20000000u32 & 0x80u32 == 0
        && 0x20000000u32 & 0x2000000u32 == 0
        && 0x20000000u32 & 0x10000000u32 == 0
        && 0x20u32 & 0x40000000u32 == 0
        && 0x20u32 & 0x80000000u32 == 0
        && 0x20u32 & 0x20000000u32 == 0
        && 0x20u32 & 0x20u32 != 0
        && 0x20u32 & 0x40u32 == 0
        && 0x20u32 & 0x80u32 == 0
        && 0x20u32 & 0x2000000u32 == 0
        && 0x20u32 & 0x10000000u32 == 0
        && 0x40u32 & 0x40000000u32 == 0
        && 0x40u32 & 0x80000000u32 == 0
        && 0x40u32 & 0x20000000u32 == 0
        && 0x40u32 & 0x20u32 == 0
        && 0x40u32 & 0x40u32 != 0
        && 0x40u32 & 0x80u32 == 0
        && 0x40u32 & 0x2000000u32 == 0
        && 0x40u32 & 0x10000000u32 == 0
        && 0x80u32 & 0x40000000u32 == 0
        && 0x80u32 & 0x80000000u32 == 0
        && 0x80u32 & 0x20000000u32 == 0
        && 0x80u32 & 0x20u32 == 0
        && 0x80u32 & 0x40u32 == 0
        && 0x80u32 & 0x80u32 != 0
        && 0x80u32 & 0x2000000u32 == 0
        && 0x80u32 & 0x10000000u32 == 0
        && 0x2000000u32 & 0x40000000u32 == 0
        && 0x2000000u32 & 0x80000000u32 == 0
        && 0x2000000u32 & 0x20000000u32 == 0
        && 0x2000000u32 & 0x20u32 == 0
        && 0x2000000u32 & 0x40u32 == 0
        && 0x2000000u32 & 0x80u32 == 0
        && 0x2000000u32 & 0x2000000u32 != 0
        && 0x2000000u32 & 0x10000000u32 == 0
        && 0x10000000u32 & 0x40000000u32 == 0
        && 0x10000000u32 & 0x80000000u32 == 0
        && 0x10000000u32 & 0x20000000u32 == 0
        && 0x10000000u32 & 0x20u32 == 0
        && 0x10000000u32 & 0x40u32 == 0
        && 0x10000000u32 & 0x80u32 == 0
        && 0x10000000u32 & 0x2000000u32 == 0
        && 0x10000000u32 & 0x10000000u32 != 0
        && 0xFFFFFFFFu32 & 0x40000000u32 != 0
        && 0xFFFFFFFFu32 & 0x80000000u32 != 0
        && 0xFFFFFFFFu32 & 0x20000000u32 != 0
        && 0xFFFFFFFFu32 & 0x20u32 != 0
        && 0xFFFFFFFFu32 & 0x40u32 != 0
        && 0xFFFFFFFFu32 & 0x80u32 != 0
        && 0xFFFFFFFFu32 & 0x2000000u32 != 0
        && 0xFFFFFFFFu32 & 0x10000000u32 != 0) by (bit_vector);
}

} // verus!
