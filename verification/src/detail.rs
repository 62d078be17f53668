//! The lines of the card that describes an opened PE file.

use vstd::prelude::*;

use crate::app::function_total;
use crate::pe::flags::{
    selected, spec_characteristics_table, spec_dll_characteristics_table, spec_machine_name,
    spec_magic_name, spec_section_table,
};
use crate::pe::{
    characteristics_flags, dll_characteristics_flags, machine_name, magic_name, section_flags,
    ImportDll, ImportModel, PeInfo, PeModel, Section, SectionModel,
};
use crate::text::{decimal, hex_padded, padded_right, push_decimal, push_hex_padded, push_padded};

verus! {

/// How many exported names the card shows before it offers the full list.
pub const PREVIEW_EXPORTS: usize = 8;

/// How many DLLs the card shows.
pub const PREVIEW_DLLS: usize = 4;

/// How many functions of each DLL the card shows.
pub const PREVIEW_FUNCS: usize = 4;

/// What a line of the card is, which decides how it is drawn.
#[derive(Clone, Copy, Debug, PartialEq, Eq)]
pub enum LineKind {
    /// A header field: its label (`lead`) and its value.
    Field,
    /// One flag set in a bit field.
    Flag,
    /// An empty separator line.
    Blank,
    Heading,
    /// A section's name (`lead`) and its addresses and sizes.
    SectionName,
    /// Indentation (`lead`), then a section's flags and characteristics.
    SectionFlags,
    Plain,
    /// The name of an imported DLL.
    DllName,
    /// A note that more entries exist than are shown.
    Muted,
    /// A hint that a key shows the whole table.
    Hint,
}

/// One line of the card: a leading part and the rest.
pub struct DetailLine {
    pub kind: LineKind,
    pub lead: String,
    pub text: String,
}

impl DeepView for DetailLine {
    type V = (LineKind, Seq<char>, Seq<char>);

    open spec fn deep_view(&self) -> (LineKind, Seq<char>, Seq<char>) {
        (self.kind, self.lead@, self.text@)
    }
}

/// A line with no leading part.
pub open spec fn line(kind: LineKind, text: Seq<char>) -> (LineKind, Seq<char>, Seq<char>) {
    (kind, Seq::empty(), text)
}

/// A header field line: `key: value`.
pub open spec fn field(key: Seq<char>, value: Seq<char>) -> (LineKind, Seq<char>, Seq<char>) {
    (LineKind::Field, key + ": "@, value)
}

/// `0x` and the hexadecimal digits of `n`, zero-padded to `digits` digits
/// (as `{:#0w$x}` writes it, with `w` two more than `digits`).
pub open spec fn hex_text(n: nat, digits: nat) -> Seq<char> {
    "0x"@ + hex_padded(n, digits)
}

/// The header fields of the card.
pub open spec fn header_lines(pe: PeModel, name: Seq<char>, path: Seq<char>) -> Seq<
    (LineKind, Seq<char>, Seq<char>),
> {
    seq![
        field("Файл"@, name),
        field("Путь"@, path),
        field("Размер файла"@, decimal(pe.size as nat) + " байт"@),
        field(
            "Архитектура (Machine)"@,
            spec_machine_name(pe.machine)@ + " ("@ + hex_text(pe.machine as nat, 4) + ")"@,
        ),
        field("Magic"@, spec_magic_name(pe.magic)@ + " ("@ + hex_text(pe.magic as nat, 4) + ")"@),
        field("Entry Point (RVA)"@, hex_text(pe.entry_point as nat, 8)),
        field("Image Base"@, hex_text(pe.image_base as nat, 16)),
        field(
            "File Alignment (физ.)"@,
            hex_text(pe.file_alignment as nat, 0) + " ("@ + decimal(pe.file_alignment as nat)
                + ")"@,
        ),
        field(
            "Section Alignment (вирт.)"@,
            hex_text(pe.section_alignment as nat, 0) + " ("@ + decimal(
                pe.section_alignment as nat,
            ) + ")"@,
        ),
        field(
            "Size Of Image"@,
            hex_text(pe.size_of_image as nat, 0) + " ("@ + decimal(pe.size_of_image as nat)
                + " байт)"@,
        ),
    ]
}

/// One line per flag name, marked with a bullet.
pub open spec fn flag_lines(names: Seq<&'static str>) -> Seq<(LineKind, Seq<char>, Seq<char>)> {
    names.map_values(|n: &'static str| line(LineKind::Flag, "  • "@ + n@))
}

/// The two bit fields of the headers, each with the flags set in it.
pub open spec fn characteristics_lines(pe: PeModel) -> Seq<(LineKind, Seq<char>, Seq<char>)> {
    seq![field("Characteristics"@, hex_text(pe.characteristics as nat, 4))] + flag_lines(
        selected(spec_characteristics_table(), pe.characteristics as u32),
    ) + seq![field("DLL Characteristics"@, hex_text(pe.dll_characteristics as nat, 4))]
        + flag_lines(selected(spec_dll_characteristics_table(), pe.dll_characteristics as u32))
}

/// Whether a table is there, in words.
pub open spec fn presence(present: bool) -> Seq<char> {
    if present {
        "присутствуют"@
    } else {
        "отсутствуют"@
    }
}

/// Whether the image has relocations and resources.
pub open spec fn presence_lines(pe: PeModel) -> Seq<(LineKind, Seq<char>, Seq<char>)> {
    seq![
        field("Релокации"@, presence(pe.has_relocations)),
        field("Ресурсы"@, presence(pe.has_resources)),
    ]
}

/// Flag names separated by single spaces.
pub open spec fn joined(names: Seq<&'static str>) -> Seq<char>
    decreases names.len(),
{
    if names.len() == 0 {
        Seq::empty()
    } else if names.len() == 1 {
        names[0]@
    } else {
        joined(names.drop_last()) + " "@ + names.last()@
    }
}

/// The two lines of one section: name, addresses and sizes; then its flags.
pub open spec fn section_lines(sec: SectionModel) -> Seq<(LineKind, Seq<char>, Seq<char>)> {
    seq![
        (
            LineKind::SectionName,
            "  "@ + padded_right(sec.name, 8) + " "@,
            "VA "@ + hex_text(sec.virtual_address as nat, 8) + "  VSize "@ + hex_text(
                sec.virtual_size as nat,
                0,
            ) + "  Raw "@ + hex_text(sec.raw_offset as nat, 8) + "  RawSize "@ + hex_text(
                sec.raw_size as nat,
                0,
            ),
        ),
        (
            LineKind::SectionFlags,
            "           "@,
            "["@ + joined(selected(spec_section_table(), sec.characteristics)) + "]  ("@
                + hex_text(sec.characteristics as nat, 8) + ")"@,
        ),
    ]
}

/// The lines of all sections, in table order.
pub open spec fn all_section_lines(secs: Seq<SectionModel>) -> Seq<
    (LineKind, Seq<char>, Seq<char>),
>
    decreases secs.len(),
{
    if secs.len() == 0 {
        Seq::empty()
    } else {
        all_section_lines(secs.drop_last()) + section_lines(secs.last())
    }
}

/// The section block: a blank line, a heading with the number of sections,
/// then each section.
pub open spec fn sections_block(secs: Seq<SectionModel>) -> Seq<(LineKind, Seq<char>, Seq<char>)> {
    seq![
        line(LineKind::Blank, Seq::empty()),
        line(LineKind::Heading, "Секции ("@ + decimal(secs.len()) + ")"@),
    ] + all_section_lines(secs)
}

/// The smaller of two numbers.
pub open spec fn at_most(n: nat, limit: nat) -> nat {
    if n < limit {
        n
    } else {
        limit
    }
}

/// The export block: a blank line, then either a note that there is no
/// export table, or a heading with the number of names, the first few names,
/// and how many more the full list holds.
pub open spec fn exports_block(exports: Seq<Seq<char>>) -> Seq<(LineKind, Seq<char>, Seq<char>)> {
    let n = exports.len();
    seq![line(LineKind::Blank, Seq::empty())] + if n == 0 {
        seq![line(LineKind::Heading, "Экспорт: таблица отсутствует"@)]
    } else {
        seq![line(LineKind::Heading, "Экспорт ("@ + decimal(n) + " функций)"@)] + exports.take(
            at_most(n, PREVIEW_EXPORTS as nat) as int,
        ).map_values(|e: Seq<char>| line(LineKind::Plain, "  "@ + e)) + if n > PREVIEW_EXPORTS {
            seq![
                line(
                    LineKind::Hint,
                    "  ↳ показать полностью (ещё "@ + decimal((n - PREVIEW_EXPORTS) as nat)
                        + ") — клавиша «e»"@,
                ),
            ]
        } else {
            Seq::empty()
        }
    }
}

/// The preview of one DLL: its name, its first few functions, and how many
/// more it has.
pub open spec fn dll_preview(dll: ImportModel) -> Seq<(LineKind, Seq<char>, Seq<char>)> {
    let n = dll.functions.len();
    seq![line(LineKind::DllName, "  "@ + dll.name)] + dll.functions.take(
        at_most(n, PREVIEW_FUNCS as nat) as int,
    ).map_values(|f: Seq<char>| line(LineKind::Plain, "      "@ + f)) + if n > PREVIEW_FUNCS {
        seq![
            line(
                LineKind::Muted,
                "      … ещё "@ + decimal((n - PREVIEW_FUNCS) as nat) + " функций"@,
            ),
        ]
    } else {
        Seq::empty()
    }
}

/// The previews of the DLLs, in table order.
pub open spec fn dll_previews(dlls: Seq<ImportModel>) -> Seq<(LineKind, Seq<char>, Seq<char>)>
    decreases dlls.len(),
{
    if dlls.len() == 0 {
        Seq::empty()
    } else {
        dll_previews(dlls.drop_last()) + dll_preview(dlls.last())
    }
}

/// The preview leaves something out: more DLLs than are shown, or a shown
/// DLL with more functions than are shown.
pub open spec fn imports_truncated(imports: Seq<ImportModel>) -> bool {
    ||| imports.len() > PREVIEW_DLLS
    ||| exists|k: int|
        0 <= k < at_most(imports.len(), PREVIEW_DLLS as nat) && #[trigger] imports[k].functions.len()
            > PREVIEW_FUNCS
}

/// The number of imported functions, held at `usize::MAX`.
pub open spec fn capped_total(imports: Seq<ImportModel>) -> nat {
    if function_total(imports) > usize::MAX {
        usize::MAX as nat
    } else {
        function_total(imports)
    }
}

/// The import block: a blank line, then either a note that there is no
/// import table, or a heading with the numbers of DLLs and functions, the
/// first few DLLs, how many more there are, and a hint where anything was
/// left out.
pub open spec fn imports_block(imports: Seq<ImportModel>) -> Seq<(LineKind, Seq<char>, Seq<char>)> {
    let n = imports.len();
    seq![line(LineKind::Blank, Seq::empty())] + if n == 0 {
        seq![line(LineKind::Heading, "Импорт: таблица отсутствует"@)]
    } else {
        seq![
            line(
                LineKind::Heading,
                "Импорт ("@ + decimal(n) + " DLL, "@ + decimal(capped_total(imports))
                    + " функций)"@,
            ),
        ] + dll_previews(imports.take(at_most(n, PREVIEW_DLLS as nat) as int)) + (if n
            > PREVIEW_DLLS {
            seq![
                line(LineKind::Muted, "  … ещё "@ + decimal((n - PREVIEW_DLLS) as nat) + " DLL"@),
            ]
        } else {
            Seq::empty()
        }) + if imports_truncated(imports) {
            seq![line(LineKind::Hint, "  ↳ показать импорт полностью — клавиша «i»"@)]
        } else {
            Seq::empty()
        }
    }
}

/// All the lines of the card of a PE file named `name` at `path`.
pub open spec fn spec_detail_lines(pe: PeModel, name: Seq<char>, path: Seq<char>) -> Seq<
    (LineKind, Seq<char>, Seq<char>),
> {
    header_lines(pe, name, path) + characteristics_lines(pe) + presence_lines(pe) + sections_block(
        pe.sections,
    ) + exports_block(pe.exports) + imports_block(pe.imports)
}

/// Adds one line.
fn push_line(lines: &mut Vec<DetailLine>, kind: LineKind, lead: String, text: String)
    ensures
        final(lines).deep_view() == old(lines).deep_view().push((kind, lead@, text@)),
{
    let ghost before = lines.deep_view();
    lines.push(DetailLine { kind, lead, text });
    assert(lines.deep_view() =~= before.push((kind, lead@, text@)));
}

/// Adds a header field line.
fn push_field(lines: &mut Vec<DetailLine>, key: &str, value: String)
    ensures
        final(lines).deep_view() == old(lines).deep_view().push(field(key@, value@)),
{
    let mut lead = String::from_str(key);
    lead.append(": ");
    push_line(lines, LineKind::Field, lead, value);
}

/// `0x` and the hexadecimal digits of `n`, zero-padded to `digits` digits.
fn hex_string(n: u64, digits: usize) -> (s: String)
    ensures
        s@ == hex_text(n as nat, digits as nat),
{
    let mut s = String::from_str("0x");
    push_hex_padded(&mut s, n, digits);
    s
}

/// `0x` and the hexadecimal digits of `n`, then ` (`, its decimal digits
/// and `suffix`.
fn hex_and_decimal(n: u64, suffix: &str) -> (s: String)
    ensures
        s@ == hex_text(n as nat, 0) + " ("@ + decimal(n as nat) + suffix@,
{
    let mut s = hex_string(n, 0);
    s.append(" (");
    push_decimal(&mut s, n);
    s.append(suffix);
    s
}

/// A name, then ` (`, the hexadecimal code zero-padded to 4 digits, and `)`.
fn named_code(name: &str, code: u16) -> (s: String)
    ensures
        s@ == name@ + " ("@ + hex_text(code as nat, 4) + ")"@,
{
    let mut s = String::from_str(name);
    s.append(" (");
    let h = hex_string(code as u64, 4);
    s.append(h.as_str());
    s.append(")");
    s
}

fn push_header_lines(lines: &mut Vec<DetailLine>, pe: &PeInfo, path: &str)
    ensures
        final(lines).deep_view() == old(lines).deep_view() + header_lines(
            pe.model(),
            pe.name@,
            path@,
        ),
{
    let ghost before = lines.deep_view();
    push_field(lines, "Файл", pe.name.clone());
    push_field(lines, "Путь", String::from_str(path));
    let mut size = String::new();
    push_decimal(&mut size, pe.size);
    size.append(" байт");
    push_field(lines, "Размер файла", size);
    push_field(lines, "Архитектура (Machine)", named_code(machine_name(pe.machine), pe.machine));
    push_field(lines, "Magic", named_code(magic_name(pe.magic), pe.magic));
    push_field(lines, "Entry Point (RVA)", hex_string(pe.entry_point as u64, 8));
    push_field(lines, "Image Base", hex_string(pe.image_base, 16));
    push_field(lines, "File Alignment (физ.)", hex_and_decimal(pe.file_alignment as u64, ")"));
    push_field(
        lines,
        "Section Alignment (вирт.)",
        hex_and_decimal(pe.section_alignment as u64, ")"),
    );
    push_field(lines, "Size Of Image", hex_and_decimal(pe.size_of_image as u64, " байт)"));
    assert(lines.deep_view() =~= before + header_lines(pe.model(), pe.name@, path@));
}

/// Adds one bulleted line per flag name.
fn push_flag_lines(lines: &mut Vec<DetailLine>, names: &Vec<&'static str>)
    ensures
        final(lines).deep_view() == old(lines).deep_view() + flag_lines(names@),
{
    let ghost before = lines.deep_view();
    let mut i: usize = 0;
    while i < names.len()
        invariant
            i <= names.len(),
            lines.deep_view() == before + flag_lines(names@.take(i as int)),
        decreases names.len() - i,
    {
        let mut text = String::from_str("  • ");
        text.append(names[i]);
        push_line(lines, LineKind::Flag, String::new(), text);
        assert(flag_lines(names@.take(i + 1)) =~= flag_lines(names@.take(i as int)).push(
            line(LineKind::Flag, "  • "@ + names@[i as int]@),
        ));
        assert(lines.deep_view() =~= before + flag_lines(names@.take(i + 1)));
        i = i + 1;
    }
    assert(names@.take(i as int) =~= names@);
}

fn push_characteristics_lines(lines: &mut Vec<DetailLine>, pe: &PeInfo)
    ensures
        final(lines).deep_view() == old(lines).deep_view() + characteristics_lines(pe.model()),
{
    let ghost before = lines.deep_view();
    push_field(lines, "Characteristics", hex_string(pe.characteristics as u64, 4));
    let flags = characteristics_flags(pe.characteristics);
    push_flag_lines(lines, &flags);
    push_field(lines, "DLL Characteristics", hex_string(pe.dll_characteristics as u64, 4));
    let flags = dll_characteristics_flags(pe.dll_characteristics);
    push_flag_lines(lines, &flags);
    assert(lines.deep_view() =~= before + characteristics_lines(pe.model()));
}

fn presence_text(present: bool) -> (s: String)
    ensures
        s@ == presence(present),
{
    if present {
        String::from_str("присутствуют")
    } else {
        String::from_str("отсутствуют")
    }
}

fn push_presence_lines(lines: &mut Vec<DetailLine>, pe: &PeInfo)
    ensures
        final(lines).deep_view() == old(lines).deep_view() + presence_lines(pe.model()),
{
    let ghost before = lines.deep_view();
    push_field(lines, "Релокации", presence_text(pe.has_relocations));
    push_field(lines, "Ресурсы", presence_text(pe.has_resources));
    assert(lines.deep_view() =~= before + presence_lines(pe.model()));
}

/// Flag names separated by single spaces.
fn join_names(names: &Vec<&'static str>) -> (s: String)
    ensures
        s@ == joined(names@),
{
    let mut s = String::new();
    let mut i: usize = 0;
    while i < names.len()
        invariant
            i <= names.len(),
            s@ == joined(names@.take(i as int)),
        decreases names.len() - i,
    {
        if i > 0 {
            s.append(" ");
        }
        s.append(names[i]);
        proof {
            let t = names@.take(i + 1);
            assert(t.drop_last() =~= names@.take(i as int));
            if i == 0 {
                assert(s@ =~= joined(t));
            }
        }
        i = i + 1;
    }
    assert(names@.take(i as int) =~= names@);
    s
}

fn push_section_lines(lines: &mut Vec<DetailLine>, sec: &Section)
    ensures
        final(lines).deep_view() == old(lines).deep_view() + section_lines(sec.deep_view()),
{
    let ghost before = lines.deep_view();
    let mut lead = String::from_str("  ");
    push_padded(&mut lead, sec.name.as_str(), 8);
    lead.append(" ");
    let mut text = String::from_str("VA ");
    text.append(hex_string(sec.virtual_address as u64, 8).as_str());
    text.append("  VSize ");
    text.append(hex_string(sec.virtual_size as u64, 0).as_str());
    text.append("  Raw ");
    text.append(hex_string(sec.raw_offset as u64, 8).as_str());
    text.append("  RawSize ");
    text.append(hex_string(sec.raw_size as u64, 0).as_str());
    push_line(lines, LineKind::SectionName, lead, text);
    let flags = section_flags(sec.characteristics);
    let mut text = String::from_str("[");
    text.append(join_names(&flags).as_str());
    text.append("]  (");
    text.append(hex_string(sec.characteristics as u64, 8).as_str());
    text.append(")");
    push_line(lines, LineKind::SectionFlags, String::from_str("           "), text);
    assert(lines.deep_view() =~= before + section_lines(sec.deep_view()));
}

fn push_sections_block(lines: &mut Vec<DetailLine>, sections: &Vec<Section>)
    ensures
        final(lines).deep_view() == old(lines).deep_view() + sections_block(
            sections.deep_view(),
        ),
{
    let ghost before = lines.deep_view();
    let ghost secs = sections.deep_view();
    push_line(lines, LineKind::Blank, String::new(), String::new());
    let mut heading = String::from_str("Секции (");
    push_decimal(&mut heading, sections.len() as u64);
    heading.append(")");
    push_line(lines, LineKind::Heading, String::new(), heading);
    let ghost head = lines.deep_view();
    let mut i: usize = 0;
    while i < sections.len()
        invariant
            i <= sections.len(),
            secs == sections.deep_view(),
            lines.deep_view() == head + all_section_lines(secs.take(i as int)),
        decreases sections.len() - i,
    {
        push_section_lines(lines, &sections[i]);
        assert(secs.take(i + 1).drop_last() =~= secs.take(i as int));
        assert(secs[i as int] == sections[i as int].deep_view());
        assert(lines.deep_view() =~= head + all_section_lines(secs.take(i + 1)));
        i = i + 1;
    }
    assert(secs.take(i as int) =~= secs);
    assert(lines.deep_view() =~= before + sections_block(secs));
}

/// Adds `prefix` + each of the first `count` of `items` as lines of `kind`.
fn push_prefixed(
    lines: &mut Vec<DetailLine>,
    kind: LineKind,
    prefix: &str,
    items: &Vec<String>,
    count: usize,
)
    requires
        count <= items.len(),
    ensures
        final(lines).deep_view() == old(lines).deep_view() + items.deep_view().take(
            count as int,
        ).map_values(|e: Seq<char>| line(kind, prefix@ + e)),
{
    let ghost before = lines.deep_view();
    let ghost all = items.deep_view();
    let mut i: usize = 0;
    while i < count
        invariant
            i <= count <= items.len(),
            all == items.deep_view(),
            lines.deep_view() == before + all.take(i as int).map_values(
                |e: Seq<char>| line(kind, prefix@ + e),
            ),
        decreases count - i,
    {
        let mut text = String::from_str(prefix);
        text.append(items[i].as_str());
        push_line(lines, kind, String::new(), text);
        assert(all[i as int] == items[i as int]@);
        assert(all.take(i + 1).map_values(|e: Seq<char>| line(kind, prefix@ + e)) =~= all.take(
            i as int,
        ).map_values(|e: Seq<char>| line(kind, prefix@ + e)).push(line(kind, prefix@ + all[i as int])));
        assert(lines.deep_view() =~= before + all.take(i + 1).map_values(
            |e: Seq<char>| line(kind, prefix@ + e),
        ));
        i = i + 1;
    }
}

fn push_exports_block(lines: &mut Vec<DetailLine>, exports: &Vec<String>)
    ensures
        final(lines).deep_view() == old(lines).deep_view() + exports_block(exports.deep_view()),
{
    let ghost before = lines.deep_view();
    let n = exports.len();
    push_line(lines, LineKind::Blank, String::new(), String::new());
    if n == 0 {
        push_line(
            lines,
            LineKind::Heading,
            String::new(),
            String::from_str("Экспорт: таблица отсутствует"),
        );
    } else {
        let mut heading = String::from_str("Экспорт (");
        push_decimal(&mut heading, n as u64);
        heading.append(" функций)");
        push_line(lines, LineKind::Heading, String::new(), heading);
        let shown = if n < PREVIEW_EXPORTS {
            n
        } else {
            PREVIEW_EXPORTS
        };
        push_prefixed(lines, LineKind::Plain, "  ", exports, shown);
        if n > PREVIEW_EXPORTS {
            let mut text = String::from_str("  ↳ показать полностью (ещё ");
            push_decimal(&mut text, (n - PREVIEW_EXPORTS) as u64);
            text.append(") — клавиша «e»");
            push_line(lines, LineKind::Hint, String::new(), text);
        }
    }
    assert(lines.deep_view() =~= before + exports_block(exports.deep_view()));
}

fn push_dll_preview(lines: &mut Vec<DetailLine>, dll: &ImportDll)
    ensures
        final(lines).deep_view() == old(lines).deep_view() + dll_preview(dll.deep_view()),
{
    let ghost before = lines.deep_view();
    let n = dll.functions.len();
    let mut name = String::from_str("  ");
    name.append(dll.name.as_str());
    push_line(lines, LineKind::DllName, String::new(), name);
    let shown = if n < PREVIEW_FUNCS {
        n
    } else {
        PREVIEW_FUNCS
    };
    push_prefixed(lines, LineKind::Plain, "      ", &dll.functions, shown);
    if n > PREVIEW_FUNCS {
        let mut text = String::from_str("      … ещё ");
        push_decimal(&mut text, (n - PREVIEW_FUNCS) as u64);
        text.append(" функций");
        push_line(lines, LineKind::Muted, String::new(), text);
    }
    assert(lines.deep_view() =~= before + dll_preview(dll.deep_view()));
}

fn push_imports_block(lines: &mut Vec<DetailLine>, imports: &Vec<ImportDll>)
    ensures
        final(lines).deep_view() == old(lines).deep_view() + imports_block(imports.deep_view()),
{
    let ghost before = lines.deep_view();
    let ghost dlls = imports.deep_view();
    let n = imports.len();
    push_line(lines, LineKind::Blank, String::new(), String::new());
    if n == 0 {
        push_line(
            lines,
            LineKind::Heading,
            String::new(),
            String::from_str("Импорт: таблица отсутствует"),
        );
        assert(lines.deep_view() =~= before + imports_block(dlls));
        return;
    }
    let mut total: usize = 0;
    let mut d: usize = 0;
    while d < n
        invariant
            d <= n == imports.len(),
            dlls == imports.deep_view(),
            total == capped_total(dlls.take(d as int)),
        decreases n - d,
    {
        assert(dlls.take(d + 1).drop_last() =~= dlls.take(d as int));
        assert(dlls[d as int] == imports[d as int].deep_view());
        total = total.saturating_add(imports[d].functions.len());
        d = d + 1;
    }
    assert(dlls.take(n as int) =~= dlls);
    let mut heading = String::from_str("Импорт (");
    push_decimal(&mut heading, n as u64);
    heading.append(" DLL, ");
    push_decimal(&mut heading, total as u64);
    heading.append(" функций)");
    push_line(lines, LineKind::Heading, String::new(), heading);
    let ghost head = lines.deep_view();
    let shown = if n < PREVIEW_DLLS {
        n
    } else {
        PREVIEW_DLLS
    };
    let mut truncated = n > PREVIEW_DLLS;
    let mut i: usize = 0;
    while i < shown
        invariant
            i <= shown == at_most(n as nat, PREVIEW_DLLS as nat),
            n == imports.len(),
            dlls == imports.deep_view(),
            lines.deep_view() == head + dll_previews(dlls.take(i as int)),
            truncated == (n > PREVIEW_DLLS || exists|k: int|
                0 <= k < i && #[trigger] dlls[k].functions.len() > PREVIEW_FUNCS),
        decreases shown - i,
    {
        let dll = &imports[i];
        push_dll_preview(lines, dll);
        assert(dlls.take(i + 1).drop_last() =~= dlls.take(i as int));
        assert(dlls[i as int] == dll.deep_view());
        assert(lines.deep_view() =~= head + dll_previews(dlls.take(i + 1)));
        if dll.functions.len() > PREVIEW_FUNCS {
            truncated = true;
        }
        assert(truncated == (n > PREVIEW_DLLS || exists|k: int|
            0 <= k < i + 1 && #[trigger] dlls[k].functions.len() > PREVIEW_FUNCS)) by {
            if dlls[i as int].functions.len() > PREVIEW_FUNCS {
                assert(dlls[i as int].functions.len() > PREVIEW_FUNCS);
            }
        }
        i = i + 1;
    }
    assert(truncated == imports_truncated(dlls));
    if n > PREVIEW_DLLS {
        let mut text = String::from_str("  … ещё ");
        push_decimal(&mut text, (n - PREVIEW_DLLS) as u64);
        text.append(" DLL");
        push_line(lines, LineKind::Muted, String::new(), text);
    }
    if truncated {
        push_line(
            lines,
            LineKind::Hint,
            String::new(),
            String::from_str("  ↳ показать импорт полностью — клавиша «i»"),
        );
    }
    assert(lines.deep_view() =~= before + imports_block(dlls));
}

/// Builds every line of the card of an opened PE file, `path` being how its
/// location is shown.
pub fn detail_lines(pe: &PeInfo, path: &str) -> (lines: Vec<DetailLine>)
    ensures
        lines.deep_view() == spec_detail_lines(pe.model(), pe.name@, path@),
{
    let mut lines: Vec<DetailLine> = Vec::new();
    assert(lines.deep_view() =~= Seq::<(LineKind, Seq<char>, Seq<char>)>::empty());
    push_header_lines(&mut lines, pe, path);
    push_characteristics_lines(&mut lines, pe);
    push_presence_lines(&mut lines, pe);
    push_sections_block(&mut lines, &pe.sections);
    push_exports_block(&mut lines, &pe.exports);
    push_imports_block(&mut lines, &pe.imports);
    assert(lines.deep_view() =~= spec_detail_lines(pe.model(), pe.name@, path@));
    lines
}

/// The lines of all sections: two per section, in section order.
proof fn lemma_all_section_lines(secs: Seq<SectionModel>, j: int)
    requires
        0 <= j < secs.len(),
    ensures
        all_section_lines(secs).len() == 2 * secs.len(),
        all_section_lines(secs)[2 * j] == section_lines(secs[j])[0],
        all_section_lines(secs)[2 * j + 1] == section_lines(secs[j])[1],
    decreases secs.len(),
{
    let t = secs.drop_last();
    if secs.len() == 1 {
        assert(all_section_lines(t) =~= Seq::<(LineKind, Seq<char>, Seq<char>)>::empty());
    } else if j < secs.len() - 1 {
        lemma_all_section_lines(t, j);
        assert(t[j] == secs[j]);
    } else {
        lemma_all_section_lines(t, 0);
    }
}

/// In the card, section `j` takes two lines after the section heading:
/// its name padded to 8 characters, then its virtual address (8 hex digits),
/// virtual size, raw data offset (8 hex digits) and raw size; then its flag
/// names and characteristics (8 hex digits). The heading counts the sections.
/// The section block starts after the 10 header fields, the two bit fields
/// with their flags, the two presence lines and a blank line.
pub proof fn lemma_card_section_lines(pe: PeModel, name: Seq<char>, path: Seq<char>, j: int)
    requires
        0 <= j < pe.sections.len(),
    ensures
        ({
            let lines = spec_detail_lines(pe, name, path);
            let heading = (15 + selected(spec_characteristics_table(), pe.characteristics as u32).len()
                + selected(spec_dll_characteristics_table(), pe.dll_characteristics as u32).len()) as int;
            let sec = pe.sections[j];
            &&& lines[heading] == (
                LineKind::Heading,
                Seq::<char>::empty(),
                "Секции ("@ + decimal(pe.sections.len()) + ")"@,
            )
            &&& lines[heading + 1 + 2 * j] == (
                LineKind::SectionName,
                "  "@ + padded_right(sec.name, 8) + " "@,
                "VA "@ + "0x"@ + hex_padded(sec.virtual_address as nat, 8) + "  VSize "@ + "0x"@
                    + hex_padded(sec.virtual_size as nat, 0) + "  Raw "@ + "0x"@ + hex_padded(
                    sec.raw_offset as nat,
                    8,
                ) + "  RawSize "@ + "0x"@ + hex_padded(sec.raw_size as nat, 0),
            )
            &&& lines[heading + 2 + 2 * j] == (
                LineKind::SectionFlags,
                "           "@,
                "["@ + joined(selected(spec_section_table(), sec.characteristics)) + "]  ("@ + "0x"@
                    + hex_padded(sec.characteristics as nat, 8) + ")"@,
            )
        }),
{
    let a = header_lines(pe, name, path);
    let b = characteristics_lines(pe);
    let c = presence_lines(pe);
    let d = sections_block(pe.sections);
    let e = exports_block(pe.exports);
    let f = imports_block(pe.imports);
    let all = all_section_lines(pe.sections);
    lemma_all_section_lines(pe.sections, j);
    let sec = pe.sections[j];
    assert(a.len() == 10);
    assert(c.len() == 2);
    let lines = spec_detail_lines(pe, name, path);
    assert(lines == a + b + c + d + e + f);
    let heading = (a.len() + b.len() + c.len() + 1) as int;
    assert(lines[heading] == d[1]);
    assert(lines[heading + 1 + 2 * j] == d[2 + 2 * j]);
    assert(lines[heading + 2 + 2 * j] == d[3 + 2 * j]);
    assert(d[2 + 2 * j] == all[2 * j]);
    assert(d[3 + 2 * j] == all[2 * j + 1]);
    assert("VA "@ + hex_text(sec.virtual_address as nat, 8) + "  VSize "@ + hex_text(
        sec.virtual_size as nat,
        0,
    ) + "  Raw "@ + hex_text(sec.raw_offset as nat, 8) + "  RawSize "@ + hex_text(
        sec.raw_size as nat,
        0,
    ) =~= "VA "@ + "0x"@ + hex_padded(sec.virtual_address as nat, 8) + "  VSize "@ + "0x"@
        + hex_padded(sec.virtual_size as nat, 0) + "  Raw "@ + "0x"@ + hex_padded(
        sec.raw_offset as nat,
        8,
    ) + "  RawSize "@ + "0x"@ + hex_padded(sec.raw_size as nat, 0));
    assert("["@ + joined(selected(spec_section_table(), sec.characteristics)) + "]  ("@ + hex_text(
        sec.characteristics as nat,
        8,
    ) + ")"@ =~= "["@ + joined(selected(spec_section_table(), sec.characteristics)) + "]  ("@
        + "0x"@ + hex_padded(sec.characteristics as nat, 8) + ")"@);
}

/// The sections take two lines each.
proof fn lemma_all_section_lines_len(secs: Seq<SectionModel>)
    ensures
        all_section_lines(secs).len() == 2 * secs.len(),
    decreases secs.len(),
{
    if secs.len() > 0 {
        lemma_all_section_lines_len(secs.drop_last());
    }
}

/// The card opens with ten header fields, each `label: value`: the file's
/// name, its path, its size in bytes, the machine and the magic by name with
/// their codes (4 hex digits), the entry point (8 hex digits), the image base
/// (16 hex digits), the file and section alignments and the image size in
/// hex and decimal; then the two bit fields (4 hex digits) each followed by
/// one bulleted line per flag set.
pub proof fn lemma_card_header(pe: PeModel, name: Seq<char>, path: Seq<char>)
    ensures
        ({
            let lines = spec_detail_lines(pe, name, path);
            let f1 = selected(spec_characteristics_table(), pe.characteristics as u32);
            let f2 = selected(spec_dll_characteristics_table(), pe.dll_characteristics as u32);
            let n1 = f1.len() as int;
            let n2 = f2.len() as int;
            &&& lines[0] == (LineKind::Field, "Файл"@ + ": "@, name)
            &&& lines[1] == (LineKind::Field, "Путь"@ + ": "@, path)
            &&& lines[2] == (LineKind::Field, "Размер файла"@ + ": "@, decimal(pe.size as nat)
                + " байт"@)
            &&& lines[3] == (
                LineKind::Field,
                "Архитектура (Machine)"@ + ": "@,
                spec_machine_name(pe.machine)@ + " ("@ + "0x"@ + hex_padded(pe.machine as nat, 4)
                    + ")"@,
            )
            &&& lines[4] == (
                LineKind::Field,
                "Magic"@ + ": "@,
                spec_magic_name(pe.magic)@ + " ("@ + "0x"@ + hex_padded(pe.magic as nat, 4) + ")"@,
            )
            &&& lines[5] == (
                LineKind::Field,
                "Entry Point (RVA)"@ + ": "@,
                "0x"@ + hex_padded(pe.entry_point as nat, 8),
            )
            &&& lines[6] == (
                LineKind::Field,
                "Image Base"@ + ": "@,
                "0x"@ + hex_padded(pe.image_base as nat, 16),
            )
            &&& lines[7] == (
                LineKind::Field,
                "File Alignment (физ.)"@ + ": "@,
                "0x"@ + hex_padded(pe.file_alignment as nat, 0) + " ("@ + decimal(
                    pe.file_alignment as nat,
                ) + ")"@,
            )
            &&& lines[8] == (
                LineKind::Field,
                "Section Alignment (вирт.)"@ + ": "@,
                "0x"@ + hex_padded(pe.section_alignment as nat, 0) + " ("@ + decimal(
                    pe.section_alignment as nat,
                ) + ")"@,
            )
            &&& lines[9] == (
                LineKind::Field,
                "Size Of Image"@ + ": "@,
                "0x"@ + hex_padded(pe.size_of_image as nat, 0) + " ("@ + decimal(
                    pe.size_of_image as nat,
                ) + " байт)"@,
            )
            &&& lines[10] == (
                LineKind::Field,
                "Characteristics"@ + ": "@,
                "0x"@ + hex_padded(pe.characteristics as nat, 4),
            )
            &&& forall|k: int|
                0 <= k < f1.len() ==> #[trigger] lines[11 + k] == (
                    LineKind::Flag,
                    Seq::<char>::empty(),
                    "  • "@ + f1[k]@,
                )
            &&& lines[11 + n1] == (
                LineKind::Field,
                "DLL Characteristics"@ + ": "@,
                "0x"@ + hex_padded(pe.dll_characteristics as nat, 4),
            )
            &&& forall|k: int|
                0 <= k < f2.len() ==> #[trigger] lines[12 + n1 + k] == (
                    LineKind::Flag,
                    Seq::<char>::empty(),
                    "  • "@ + f2[k]@,
                )
            &&& lines[12 + n1 + n2] == (
                LineKind::Field,
                "Релокации"@ + ": "@,
                if pe.has_relocations {
                    "присутствуют"@
                } else {
                    "отсутствуют"@
                },
            )
            &&& lines[13 + n1 + n2] == (
                LineKind::Field,
                "Ресурсы"@ + ": "@,
                if pe.has_resources {
                    "присутствуют"@
                } else {
                    "отсутствуют"@
                },
            )
        }),
{
    let a = header_lines(pe, name, path);
    let b = characteristics_lines(pe);
    let c = presence_lines(pe);
    let rest = sections_block(pe.sections) + exports_block(pe.exports) + imports_block(pe.imports);
    let lines = spec_detail_lines(pe, name, path);
    let f1 = selected(spec_characteristics_table(), pe.characteristics as u32);
    let f2 = selected(spec_dll_characteristics_table(), pe.dll_characteristics as u32);
    let n1 = f1.len() as int;
    let n2 = f2.len() as int;
    assert(lines =~= a + b + c + rest);
    assert(a.len() == 10);
    assert forall|k: int| 0 <= k < 10 implies lines[k] == a[k] by {}
    assert(b.len() == 2 + n1 + n2);
    assert forall|k: int| 0 <= k < b.len() implies lines[10 + k] == b[k] by {}
    assert(lines[12 + n1 + n2] == c[0]);
    assert(lines[13 + n1 + n2] == c[1]);
    assert forall|k: int| 0 <= k < f1.len() implies #[trigger] lines[11 + k] == (
        LineKind::Flag,
        Seq::<char>::empty(),
        "  • "@ + f1[k]@,
    ) by {
        assert(lines[11 + k] == b[1 + k]);
    }
    assert forall|k: int| 0 <= k < f2.len() implies #[trigger] lines[12 + n1 + k] == (
        LineKind::Flag,
        Seq::<char>::empty(),
        "  • "@ + f2[k]@,
    ) by {
        assert(lines[12 + n1 + k] == b[2 + n1 + k]);
    }
}

/// After the header, the flags, the presence lines and the sections comes
/// the export preview: a blank line and, where there are exports, a heading
/// with their number, the first eight names indented by two spaces, and a
/// hint with the number of names left out where there are more than eight;
/// where there are none, a note that the table is absent.
pub proof fn lemma_card_exports(pe: PeModel, name: Seq<char>, path: Seq<char>)
    ensures
        ({
            let lines = spec_detail_lines(pe, name, path);
            let e = (16 + selected(spec_characteristics_table(), pe.characteristics as u32).len()
                + selected(spec_dll_characteristics_table(), pe.dll_characteristics as u32).len()
                + 2 * pe.sections.len()) as int;
            let n = pe.exports.len();
            &&& lines[e] == (LineKind::Blank, Seq::<char>::empty(), Seq::<char>::empty())
            &&& n == 0 ==> lines[e + 1] == (
                LineKind::Heading,
                Seq::<char>::empty(),
                "Экспорт: таблица отсутствует"@,
            )
            &&& n > 0 ==> lines[e + 1] == (
                LineKind::Heading,
                Seq::<char>::empty(),
                "Экспорт ("@ + decimal(n) + " функций)"@,
            )
            &&& forall|i: int|
                0 <= i < n && i < 8 ==> #[trigger] lines[e + 2 + i] == (
                    LineKind::Plain,
                    Seq::<char>::empty(),
                    "  "@ + pe.exports[i],
                )
            &&& n > 8 ==> lines[e + 10] == (
                LineKind::Hint,
                Seq::<char>::empty(),
                "  ↳ показать полностью (ещё "@ + decimal((n - 8) as nat) + ") — клавиша «e»"@,
            )
            &&& 0 < n <= 8 ==> lines[e + 2 + n] == (
                LineKind::Blank,
                Seq::<char>::empty(),
                Seq::<char>::empty(),
            )
        }),
{
    let a = header_lines(pe, name, path);
    let b = characteristics_lines(pe);
    let c = presence_lines(pe);
    let d = sections_block(pe.sections);
    let x = exports_block(pe.exports);
    let y = imports_block(pe.imports);
    lemma_all_section_lines_len(pe.sections);
    let lines = spec_detail_lines(pe, name, path);
    assert(lines =~= a + b + c + d + x + y);
    let e = (a.len() + b.len() + c.len() + d.len()) as int;
    assert(d.len() == 2 + 2 * pe.sections.len());
    assert forall|k: int| 0 <= k < x.len() implies lines[e + k] == x[k] by {}
    assert forall|k: int| 0 <= k < y.len() implies lines[e + x.len() + k] == y[k] by {}
    let n = pe.exports.len();
    if n > 0 {
        let shown = pe.exports.take(at_most(n, 8) as int).map_values(
            |t: Seq<char>| line(LineKind::Plain, "  "@ + t),
        );
        assert(x == seq![line(LineKind::Blank, Seq::empty())] + (seq![
            line(LineKind::Heading, "Экспорт ("@ + decimal(n) + " функций)"@),
        ] + shown + if n > PREVIEW_EXPORTS {
            seq![
                line(
                    LineKind::Hint,
                    "  ↳ показать полностью (ещё "@ + decimal((n - PREVIEW_EXPORTS) as nat)
                        + ") — клавиша «e»"@,
                ),
            ]
        } else {
            Seq::empty()
        }));
        assert forall|i: int| 0 <= i < n && i < 8 implies #[trigger] lines[e + 2 + i] == (
            LineKind::Plain,
            Seq::<char>::empty(),
            "  "@ + pe.exports[i],
        ) by {
            assert(x[2 + i] == shown[i]);
        }
        if n <= 8 {
            assert(x.len() == 2 + n);
            assert(lines[e + 2 + n] == y[0]);
        } else {
            assert(x[10] == line(
                LineKind::Hint,
                "  ↳ показать полностью (ещё "@ + decimal((n - 8) as nat) + ") — клавиша «e»"@,
            ));
        }
    }
}

/// The previews of DLLs begin with the preview of the first DLL, and the
/// last line of a preview is never a hint.
proof fn lemma_dll_previews_shape(ds: Seq<ImportModel>, k: int)
    requires
        ds.len() > 0,
        0 <= k < dll_preview(ds[0]).len(),
    ensures
        dll_previews(ds).len() >= dll_preview(ds[0]).len(),
        dll_previews(ds)[k] == dll_preview(ds[0])[k],
        dll_previews(ds).last().0 != LineKind::Hint,
    decreases ds.len(),
{
    let t = ds.drop_last();
    let p = dll_preview(ds.last());
    assert(p.len() > 0);
    let n = ds.last().functions.len();
    if n > PREVIEW_FUNCS {
        assert(p.last().0 == LineKind::Muted);
    } else if n > 0 {
        assert(p.last() == ds.last().functions.take(at_most(n, PREVIEW_FUNCS as nat) as int).map_values(
            |f: Seq<char>| line(LineKind::Plain, "      "@ + f),
        ).last());
    } else {
        assert(p.last().0 == LineKind::DllName);
    }
    assert(dll_previews(ds).last() == p.last());
    if ds.len() == 1 {
        assert(t =~= Seq::<ImportModel>::empty());
        assert(dll_previews(t) == Seq::<(LineKind, Seq<char>, Seq<char>)>::empty());
        assert(ds.last() == ds[0]);
        assert(dll_previews(ds) =~= p);
    } else {
        assert(t[0] == ds[0]);
        lemma_dll_previews_shape(t, k);
    }
}

/// The import block alone: a blank line, then either the note that the
/// table is absent, or the heading, the first DLL with its first functions,
/// and a last line that is the hint exactly when something is left out.
proof fn lemma_imports_block_shape(imports: Seq<ImportModel>)
    ensures
        ({
            let y = imports_block(imports);
            let m = imports.len();
            &&& y[0] == (LineKind::Blank, Seq::<char>::empty(), Seq::<char>::empty())
            &&& m == 0 ==> y.len() == 2 && y[1] == (
                LineKind::Heading,
                Seq::<char>::empty(),
                "Импорт: таблица отсутствует"@,
            )
            &&& m > 0 ==> y[1] == (
                LineKind::Heading,
                Seq::<char>::empty(),
                "Импорт ("@ + decimal(m) + " DLL, "@ + decimal(capped_total(imports))
                    + " функций)"@,
            )
            &&& m > 0 ==> y.len() >= 3 + at_most(imports[0].functions.len(), 4)
            &&& m > 0 ==> y[2] == (LineKind::DllName, Seq::<char>::empty(), "  "@ + imports[0].name)
            &&& forall|k: int|
                0 <= k < 4 && m > 0 && k < imports[0].functions.len() ==> #[trigger] y[3 + k] == (
                    LineKind::Plain,
                    Seq::<char>::empty(),
                    "      "@ + imports[0].functions[k],
                )
            &&& m > 0 ==> ((y.last() == (
                LineKind::Hint,
                Seq::<char>::empty(),
                "  ↳ показать импорт полностью — клавиша «i»"@,
            )) <==> imports_truncated(imports))
        }),
{
    let y = imports_block(imports);
    let m = imports.len();
    if m > 0 {
        let ds = imports.take(at_most(m, 4) as int);
        let pv = dll_previews(ds);
        let more = if m > PREVIEW_DLLS {
            seq![
                line(LineKind::Muted, "  … ещё "@ + decimal((m - PREVIEW_DLLS) as nat) + " DLL"@),
            ]
        } else {
            Seq::<(LineKind, Seq<char>, Seq<char>)>::empty()
        };
        let hint = if imports_truncated(imports) {
            seq![line(LineKind::Hint, "  ↳ показать импорт полностью — клавиша «i»"@)]
        } else {
            Seq::<(LineKind, Seq<char>, Seq<char>)>::empty()
        };
        let head = seq![
            line(LineKind::Blank, Seq::empty()),
            line(
                LineKind::Heading,
                "Импорт ("@ + decimal(m) + " DLL, "@ + decimal(capped_total(imports))
                    + " функций)"@,
            ),
        ];
        assert(y =~= head + pv + more + hint);
        assert(ds[0] == imports[0]);
        let p0 = dll_preview(imports[0]);
        lemma_dll_previews_shape(ds, 0);
        assert(p0.len() >= 1 + at_most(imports[0].functions.len(), 4));
        assert(y[2] == pv[0]);
        assert forall|k: int| 0 <= k < 4 && k < imports[0].functions.len() implies #[trigger] y[3
            + k] == (LineKind::Plain, Seq::<char>::empty(), "      "@ + imports[0].functions[k]) by {
            lemma_dll_previews_shape(ds, 1 + k);
            assert(y[3 + k] == pv[1 + k]);
        }
        if !imports_truncated(imports) {
            assert(y.last() == pv.last());
        }
    }
}

/// After the export preview comes the import preview: a blank line and,
/// where there are imports, a heading with the number of DLLs and of
/// functions, the first DLL's name indented by two spaces followed by its
/// first four functions indented by six; the card ends with a hint to open
/// the full list exactly when the preview leaves something out (more than
/// four DLLs, or one of the first four DLLs with more than four functions).
/// Where there are no imports, the card ends with a note that the table is
/// absent.
pub proof fn lemma_card_imports(pe: PeModel, name: Seq<char>, path: Seq<char>)
    ensures
        ({
            let lines = spec_detail_lines(pe, name, path);
            let n = pe.exports.len();
            let m = pe.imports.len();
            let x = if n == 0 {
                2
            } else {
                2 + at_most(n, 8) + if n > 8 {
                    1int
                } else {
                    0int
                }
            };
            let i0 = (16 + selected(spec_characteristics_table(), pe.characteristics as u32).len()
                + selected(spec_dll_characteristics_table(), pe.dll_characteristics as u32).len()
                + 2 * pe.sections.len() + x) as int;
            let total = if function_total(pe.imports) > usize::MAX {
                usize::MAX as nat
            } else {
                function_total(pe.imports)
            };
            &&& lines[i0] == (LineKind::Blank, Seq::<char>::empty(), Seq::<char>::empty())
            &&& m == 0 ==> lines.len() == i0 + 2 && lines[i0 + 1] == (
                LineKind::Heading,
                Seq::<char>::empty(),
                "Импорт: таблица отсутствует"@,
            )
            &&& m > 0 ==> lines[i0 + 1] == (
                LineKind::Heading,
                Seq::<char>::empty(),
                "Импорт ("@ + decimal(m) + " DLL, "@ + decimal(total) + " функций)"@,
            )
            &&& m > 0 ==> lines[i0 + 2] == (
                LineKind::DllName,
                Seq::<char>::empty(),
                "  "@ + pe.imports[0].name,
            )
            &&& forall|k: int|
                0 <= k < 4 && m > 0 && k < pe.imports[0].functions.len() ==> #[trigger] lines[i0 + 3
                    + k] == (
                    LineKind::Plain,
                    Seq::<char>::empty(),
                    "      "@ + pe.imports[0].functions[k],
                )
            &&& m > 0 ==> ((lines.last() == (
                LineKind::Hint,
                Seq::<char>::empty(),
                "  ↳ показать импорт полностью — клавиша «i»"@,
            )) <==> (m > 4 || exists|j: int|
                0 <= j < m && j < 4 && #[trigger] pe.imports[j].functions.len() > 4))
        }),
{
    let a = header_lines(pe, name, path);
    let b = characteristics_lines(pe);
    let c = presence_lines(pe);
    let d = sections_block(pe.sections);
    let x = exports_block(pe.exports);
    let y = imports_block(pe.imports);
    lemma_all_section_lines_len(pe.sections);
    lemma_imports_block_shape(pe.imports);
    let lines = spec_detail_lines(pe, name, path);
    assert(lines =~= (a + b + c + d + x) + y);
    let n = pe.exports.len();
    if n > 0 {
        let shown = pe.exports.take(at_most(n, 8) as int).map_values(
            |t: Seq<char>| line(LineKind::Plain, "  "@ + t),
        );
        assert(shown.len() == at_most(n, 8));
    }
    let i0 = (a.len() + b.len() + c.len() + d.len() + x.len()) as int;
    assert forall|k: int| 0 <= k < y.len() implies lines[i0 + k] == y[k] by {}
    assert(lines.len() == i0 + y.len());
    if pe.imports.len() > 0 {
        assert(lines.last() == y.last());
        assert forall|k: int|
            0 <= k < 4 && k < pe.imports[0].functions.len() implies #[trigger] lines[i0 + 3 + k]
            == (LineKind::Plain, Seq::<char>::empty(), "      "@ + pe.imports[0].functions[k]) by {
            assert(lines[i0 + 3 + k] == y[3 + k]);
            assert(y[3 + k] == (
                LineKind::Plain,
                Seq::<char>::empty(),
                "      "@ + pe.imports[0].functions[k],
            ));
        }
    }
}

} // verus!
