//! The walk through a PE image: DOS header, PE signature, COFF header,
//! optional header, data directories, section table, exports and imports.

use vstd::prelude::*;

use super::reader::{
    bytes_until_nul, cstr_at, fits, le16, le32, le64, rva_to_offset, spec_cstr_at, spec_rva_to_offset, spec_u16_at,
    spec_u32_at, spec_u64_at, u16_at, u32_at, u64_at, until_nul,
};
use super::{ImportDll, ImportModel, PeError, PeInfo, PeModel, Section, SectionModel};
use crate::text::{decimal, lossy_string, push_decimal, utf8_lossy};
use std::path::PathBuf;

verus! {

/// `MZ`, read as a little-endian `u16`.
pub const DOS_MAGIC: u16 = 0x5A4D;

/// `PE\0\0`, read as a little-endian `u32`.
pub const PE_SIGNATURE: u32 = 0x0000_4550;

/// Optional-header magic of a 32-bit image.
pub const MAGIC_PE32: u16 = 0x10B;

/// Optional-header magic of a 64-bit image.
pub const MAGIC_PE32_PLUS: u16 = 0x20B;

/// Where `e_lfanew`, the offset of the PE signature, stands in the DOS header.
pub const E_LFANEW_OFFSET: u64 = 0x3C;

/// The COFF file header fields that the reader keeps.
pub struct CoffHeader {
    pub machine: u16,
    pub section_count: u16,
    pub optional_size: u16,
    pub characteristics: u16,
}

/// The optional header fields that the reader keeps.
pub struct OptionalHeader {
    pub magic: u16,
    pub is_pe32_plus: bool,
    pub entry_point: u32,
    pub image_base: u64,
    pub section_alignment: u32,
    pub file_alignment: u32,
    pub size_of_image: u32,
    pub dll_characteristics: u16,
    /// The number of data directories.
    pub dir_count: u32,
}

/// Both headers, with the offset where the optional header starts.
pub struct Headers {
    pub coff: CoffHeader,
    pub optional: OptionalHeader,
    pub optional_at: u64,
}

/// The COFF file header at `at` (right after the PE signature).
pub open spec fn spec_coff(s: Seq<u8>, at: int) -> Result<CoffHeader, PeError> {
    match spec_u16_at(s, at) {
        Err(e) => Err(e),
        Ok(machine) => match spec_u16_at(s, at + 2) {
            Err(e) => Err(e),
            Ok(section_count) => match spec_u16_at(s, at + 16) {
                Err(e) => Err(e),
                Ok(optional_size) => match spec_u16_at(s, at + 18) {
                    Err(e) => Err(e),
                    Ok(characteristics) => Ok(
                        CoffHeader { machine, section_count, optional_size, characteristics },
                    ),
                },
            },
        },
    }
}

/// The optional header fields that follow the magic, at the offsets of PE32
/// or of PE32+.
pub open spec fn spec_optional_fields(s: Seq<u8>, at: int, magic: u16, plus: bool) -> Result<
    OptionalHeader,
    PeError,
> {
    match spec_u32_at(s, at + 16) {
        Err(e) => Err(e),
        Ok(entry_point) => match (if plus {
            spec_u64_at(s, at + 24)
        } else {
            match spec_u32_at(s, at + 28) {
                Ok(v) => Ok(v as u64),
                Err(e) => Err(e),
            }
        }) {
            Err(e) => Err(e),
            Ok(image_base) => match spec_u32_at(s, at + 32) {
                Err(e) => Err(e),
                Ok(section_alignment) => match spec_u32_at(s, at + 36) {
                    Err(e) => Err(e),
                    Ok(file_alignment) => match spec_u32_at(s, at + 56) {
                        Err(e) => Err(e),
                        Ok(size_of_image) => match spec_u16_at(s, at + 70) {
                            Err(e) => Err(e),
                            Ok(dll_characteristics) => match spec_u32_at(
                                s,
                                at + if plus {
                                    108int
                                } else {
                                    92int
                                },
                            ) {
                                Err(e) => Err(e),
                                Ok(dir_count) => Ok(
                                    OptionalHeader {
                                        magic,
                                        is_pe32_plus: plus,
                                        entry_point,
                                        image_base,
                                        section_alignment,
                                        file_alignment,
                                        size_of_image,
                                        dll_characteristics,
                                        dir_count,
                                    },
                                ),
                            },
                        },
                    },
                },
            },
        },
    }
}

/// The optional header at `at`: its magic decides between PE32 and PE32+.
pub open spec fn spec_optional(s: Seq<u8>, at: int) -> Result<OptionalHeader, PeError> {
    match spec_u16_at(s, at) {
        Err(e) => Err(e),
        Ok(magic) => if magic == MAGIC_PE32 {
            spec_optional_fields(s, at, magic, false)
        } else if magic == MAGIC_PE32_PLUS {
            spec_optional_fields(s, at, magic, true)
        } else {
            Err(PeError::UnknownMagic { magic })
        },
    }
}

/// The headers of the image: `MZ` at offset 0, `e_lfanew` at 0x3C pointing to
/// `PE\0\0`, the COFF header after it and the optional header after that.
pub open spec fn spec_headers(s: Seq<u8>) -> Result<Headers, PeError> {
    match spec_u16_at(s, 0) {
        Err(e) => Err(e),
        Ok(mz) => if mz != DOS_MAGIC {
            Err(PeError::NoDosSignature)
        } else {
            match spec_u32_at(s, E_LFANEW_OFFSET as int) {
                Err(e) => Err(e),
                Ok(pe_at) => match spec_u32_at(s, pe_at as int) {
                    Err(e) => Err(e),
                    Ok(sig) => if sig != PE_SIGNATURE {
                        Err(PeError::NoPeSignature { offset: pe_at as u64 })
                    } else {
                        match spec_coff(s, pe_at + 4) {
                            Err(e) => Err(e),
                            Ok(coff) => match spec_optional(s, pe_at + 24) {
                                Err(e) => Err(e),
                                Ok(optional) => Ok(
                                    Headers { coff, optional, optional_at: (pe_at + 24) as u64 },
                                ),
                            },
                        }
                    },
                },
            }
        },
    }
}

fn read_coff(data: &[u8], at: u64) -> (r: Result<CoffHeader, PeError>)
    requires
        at <= u32::MAX + 4,
    ensures
        r == spec_coff(data@, at as int),
{
    let machine = match u16_at(data, at) {
        Ok(v) => v,
        Err(e) => return Err(e),
    };
    let section_count = match u16_at(data, at + 2) {
        Ok(v) => v,
        Err(e) => return Err(e),
    };
    let optional_size = match u16_at(data, at + 16) {
        Ok(v) => v,
        Err(e) => return Err(e),
    };
    let characteristics = match u16_at(data, at + 18) {
        Ok(v) => v,
        Err(e) => return Err(e),
    };
    Ok(CoffHeader { machine, section_count, optional_size, characteristics })
}

fn read_optional_fields(data: &[u8], at: u64, magic: u16, plus: bool) -> (r: Result<
    OptionalHeader,
    PeError,
>)
    requires
        at <= u32::MAX + 24,
    ensures
        r == spec_optional_fields(data@, at as int, magic, plus),
{
    let entry_point = match u32_at(data, at + 16) {
        Ok(v) => v,
        Err(e) => return Err(e),
    };
    let image_base = if plus {
        match u64_at(data, at + 24) {
            Ok(v) => v,
            Err(e) => return Err(e),
        }
    } else {
        match u32_at(data, at + 28) {
            Ok(v) => v as u64,
            Err(e) => return Err(e),
        }
    };
    let section_alignment = match u32_at(data, at + 32) {
        Ok(v) => v,
        Err(e) => return Err(e),
    };
    let file_alignment = match u32_at(data, at + 36) {
        Ok(v) => v,
        Err(e) => return Err(e),
    };
    let size_of_image = match u32_at(data, at + 56) {
        Ok(v) => v,
        Err(e) => return Err(e),
    };
    let dll_characteristics = match u16_at(data, at + 70) {
        Ok(v) => v,
        Err(e) => return Err(e),
    };
    let dir_count = match u32_at(
        data,
        at + if plus {
            108
        } else {
            92
        },
    ) {
        Ok(v) => v,
        Err(e) => return Err(e),
    };
    Ok(
        OptionalHeader {
            magic,
            is_pe32_plus: plus,
            entry_point,
            image_base,
            section_alignment,
            file_alignment,
            size_of_image,
            dll_characteristics,
            dir_count,
        },
    )
}

fn read_optional(data: &[u8], at: u64) -> (r: Result<OptionalHeader, PeError>)
    requires
        at <= u32::MAX + 24,
    ensures
        r == spec_optional(data@, at as int),
{
    let magic = match u16_at(data, at) {
        Ok(v) => v,
        Err(e) => return Err(e),
    };
    if magic == MAGIC_PE32 {
        read_optional_fields(data, at, magic, false)
    } else if magic == MAGIC_PE32_PLUS {
        read_optional_fields(data, at, magic, true)
    } else {
        Err(PeError::UnknownMagic { magic })
    }
}

fn read_headers(data: &[u8]) -> (r: Result<Headers, PeError>)
    ensures
        r == spec_headers(data@),
{
    let mz = match u16_at(data, 0) {
        Ok(v) => v,
        Err(e) => return Err(e),
    };
    if mz != DOS_MAGIC {
        return Err(PeError::NoDosSignature);
    }
    let pe_at = match u32_at(data, E_LFANEW_OFFSET) {
        Ok(v) => v as u64,
        Err(e) => return Err(e),
    };
    let sig = match u32_at(data, pe_at) {
        Ok(v) => v,
        Err(e) => return Err(e),
    };
    if sig != PE_SIGNATURE {
        return Err(PeError::NoPeSignature { offset: pe_at });
    }
    let coff = match read_coff(data, pe_at + 4) {
        Ok(v) => v,
        Err(e) => return Err(e),
    };
    let optional = match read_optional(data, pe_at + 24) {
        Ok(v) => v,
        Err(e) => return Err(e),
    };
    Ok(Headers { coff, optional, optional_at: pe_at + 24 })
}

/// Index of the export table in the data directory.
pub const DIR_EXPORT: u64 = 0;

/// Index of the import table in the data directory.
pub const DIR_IMPORT: u64 = 1;

/// Index of the resource table in the data directory.
pub const DIR_RESOURCE: u64 = 2;

/// Index of the base relocation table in the data directory.
pub const DIR_BASERELOC: u64 = 5;

/// Size of one section table entry.
pub const SECTION_HEADER_SIZE: u64 = 40;

/// Where the data directory starts: 96 bytes into a PE32 optional header, 112
/// into a PE32+ one.
pub open spec fn dir_start(h: Headers) -> int {
    h.optional_at + if h.optional.is_pe32_plus {
        112int
    } else {
        96int
    }
}

/// The RVA of data directory `index`, 0 where the image declares fewer
/// directories. Both 4-byte fields of the entry (RVA and size) must be readable.
pub open spec fn spec_directory_rva(s: Seq<u8>, h: Headers, index: int) -> Result<u32, PeError> {
    if index >= h.optional.dir_count {
        Ok(0u32)
    } else {
        let at = dir_start(h) + index * 8;
        match spec_u32_at(s, at) {
            Err(e) => Err(e),
            Ok(rva) => match spec_u32_at(s, at + 4) {
                Err(e) => Err(e),
                Ok(_size) => Ok(rva),
            },
        }
    }
}

fn directory_rva(data: &[u8], h: &Headers, index: u64) -> (r: Result<u32, PeError>)
    requires
        h.optional_at <= u32::MAX + 24,
        index <= 15,
    ensures
        r == spec_directory_rva(data@, *h, index as int),
{
    if index >= h.optional.dir_count as u64 {
        return Ok(0);
    }
    let start = h.optional_at + if h.optional.is_pe32_plus {
        112
    } else {
        96
    };
    let at = start + index * 8;
    let rva = match u32_at(data, at) {
        Ok(v) => v,
        Err(e) => return Err(e),
    };
    match u32_at(data, at + 4) {
        Ok(_) => Ok(rva),
        Err(e) => Err(e),
    }
}

/// `acc` followed by what `r` holds, or the error of `r`.
pub open spec fn prepend<T>(acc: Seq<T>, r: Result<Seq<T>, PeError>) -> Result<Seq<T>, PeError> {
    match r {
        Ok(rest) => Ok(acc + rest),
        Err(e) => Err(e),
    }
}

/// The section table entry at `head`, entry number `index`: an 8-byte name
/// (up to its first NUL), then the sizes, addresses and characteristics.
pub open spec fn spec_section_at(s: Seq<u8>, head: int, index: int) -> Result<
    SectionModel,
    PeError,
> {
    if !fits(s, head, 8) {
        Err(PeError::SectionHeaderOutOfBounds { index: index as u64 })
    } else {
        let name = utf8_lossy(until_nul(s.subrange(head, head + 8)));
        match spec_u32_at(s, head + 8) {
            Err(e) => Err(e),
            Ok(virtual_size) => match spec_u32_at(s, head + 12) {
                Err(e) => Err(e),
                Ok(virtual_address) => match spec_u32_at(s, head + 16) {
                    Err(e) => Err(e),
                    Ok(raw_size) => match spec_u32_at(s, head + 20) {
                        Err(e) => Err(e),
                        Ok(raw_offset) => match spec_u32_at(s, head + 36) {
                            Err(e) => Err(e),
                            Ok(characteristics) => Ok(
                                SectionModel {
                                    name,
                                    virtual_size,
                                    virtual_address,
                                    raw_size,
                                    raw_offset,
                                    characteristics,
                                },
                            ),
                        },
                    },
                },
            },
        }
    }
}

/// `remaining` section table entries from `head` on, the first numbered
/// `index`; the first entry that cannot be read decides the error.
pub open spec fn spec_sections_from(s: Seq<u8>, head: int, index: int, remaining: nat) -> Result<
    Seq<SectionModel>,
    PeError,
>
    decreases remaining,
{
    if remaining == 0 {
        Ok(Seq::empty())
    } else {
        match spec_section_at(s, head, index) {
            Err(e) => Err(e),
            Ok(sec) => prepend(
                seq![sec],
                spec_sections_from(
                    s,
                    head + SECTION_HEADER_SIZE,
                    index + 1,
                    (remaining - 1) as nat,
                ),
            ),
        }
    }
}

/// The section table: `count` entries of 40 bytes from `start`.
pub open spec fn spec_sections(s: Seq<u8>, start: int, count: nat) -> Result<
    Seq<SectionModel>,
    PeError,
> {
    spec_sections_from(s, start, 0, count)
}

fn read_section(data: &[u8], head: u64, index: u64) -> (r: Result<Section, PeError>)
    requires
        head <= u32::MAX * 4,
    ensures
        match r {
            Ok(sec) => spec_section_at(data@, head as int, index as int) == Ok::<
                SectionModel,
                PeError,
            >(sec.deep_view()),
            Err(e) => spec_section_at(data@, head as int, index as int) == Err::<
                SectionModel,
                PeError,
            >(e),
        },
{
    let len = data.len() as u64;
    if head > len || len - head < 8 {
        return Err(PeError::SectionHeaderOutOfBounds { index });
    }
    let raw = bytes_until_nul(data, head as usize, (head + 8) as usize);
    let name = lossy_string(raw.as_slice());
    let virtual_size = match u32_at(data, head + 8) {
        Ok(v) => v,
        Err(e) => return Err(e),
    };
    let virtual_address = match u32_at(data, head + 12) {
        Ok(v) => v,
        Err(e) => return Err(e),
    };
    let raw_size = match u32_at(data, head + 16) {
        Ok(v) => v,
        Err(e) => return Err(e),
    };
    let raw_offset = match u32_at(data, head + 20) {
        Ok(v) => v,
        Err(e) => return Err(e),
    };
    let characteristics = match u32_at(data, head + 36) {
        Ok(v) => v,
        Err(e) => return Err(e),
    };
    Ok(Section { name, virtual_size, virtual_address, raw_size, raw_offset, characteristics })
}

/// Reads the section table: `count` entries of 40 bytes from `start`.
fn read_sections(data: &[u8], start: u64, count: u16) -> (r: Result<Vec<Section>, PeError>)
    requires
        start <= u32::MAX * 2,
    ensures
        match r {
            Ok(v) => spec_sections(data@, start as int, count as nat) == Ok::<
                Seq<SectionModel>,
                PeError,
            >(v.deep_view()),
            Err(e) => spec_sections(data@, start as int, count as nat) == Err::<
                Seq<SectionModel>,
                PeError,
            >(e),
        },
{
    let ghost s = data@;
    let mut sections: Vec<Section> = Vec::new();
    let mut i: u64 = 0;
    while i < count as u64
        invariant
            s == data@,
            start <= u32::MAX * 2,
            i <= count,
            spec_sections(s, start as int, count as nat) == prepend(
                sections.deep_view(),
                spec_sections_from(
                    s,
                    start + i * SECTION_HEADER_SIZE,
                    i as int,
                    (count - i) as nat,
                ),
            ),
        decreases count - i,
    {
        let head = start + i * SECTION_HEADER_SIZE;
        let sec = match read_section(data, head, i) {
            Ok(v) => v,
            Err(e) => return Err(e),
        };
        let ghost before = sections.deep_view();
        let ghost rest = spec_sections_from(
            s,
            head + SECTION_HEADER_SIZE,
            i + 1,
            (count - i - 1) as nat,
        );
        sections.push(sec);
        proof {
            assert(sections.deep_view() =~= before.push(sec.deep_view()));
            assert(start + (i + 1) * SECTION_HEADER_SIZE == head + SECTION_HEADER_SIZE);
            match rest {
                Ok(r) => {
                    assert(before + (seq![sec.deep_view()] + r) =~= before.push(sec.deep_view())
                        + r);
                },
                Err(_) => {},
            }
        }
        i = i + 1;
    }
    proof {
        assert(sections.deep_view() + Seq::<SectionModel>::empty() =~= sections.deep_view());
    }
    Ok(sections)
}

/// At most this many functions are read from one DLL's thunk table.
pub const MAX_FUNCS_PER_DLL: u64 = 65536;

/// At most this many import descriptors are read.
pub const MAX_IMPORT_DLLS: u64 = 4096;

/// Size of one import descriptor.
pub const IMPORT_DESCRIPTOR_SIZE: u64 = 20;

/// The bit that marks an import by ordinal: the top bit of a thunk entry.
pub open spec fn ordinal_flag(plus: bool) -> u64 {
    if plus {
        0x8000_0000_0000_0000u64
    } else {
        0x8000_0000u64
    }
}

/// The size of one thunk entry: 8 bytes in PE32+, 4 in PE32.
pub open spec fn thunk_size(plus: bool) -> int {
    if plus {
        8
    } else {
        4
    }
}

/// How a function imported by ordinal is shown: `Ordinal #` and the ordinal
/// in decimal.
pub open spec fn ordinal_label(ordinal: nat) -> Seq<char> {
    "Ordinal #"@ + decimal(ordinal)
}

/// The thunk entry at `at`, widened to 64 bits.
pub open spec fn spec_thunk_entry(s: Seq<u8>, at: int, plus: bool) -> Result<u64, PeError> {
    if plus {
        spec_u64_at(s, at)
    } else {
        match spec_u32_at(s, at) {
            Ok(v) => Ok(v as u64),
            Err(e) => Err(e),
        }
    }
}

/// The function that a non-zero thunk entry names: its ordinal if the ordinal
/// bit is set, else the name of the hint/name entry that its (32-bit) RVA
/// points to, skipping the 2-byte hint; nothing if that RVA is in no section.
pub open spec fn spec_thunk_names(
    s: Seq<u8>,
    secs: Seq<SectionModel>,
    entry: u64,
    plus: bool,
) -> Seq<Seq<char>> {
    if entry & ordinal_flag(plus) != 0 {
        seq![ordinal_label((entry & 0xFFFF) as nat)]
    } else {
        match spec_rva_to_offset(secs, entry as u32) {
            Some(at) => seq![spec_cstr_at(s, at + 2)],
            None => Seq::empty(),
        }
    }
}

/// The functions of a thunk table from `at` on, reading at most `remaining`
/// entries and stopping at a zero entry.
pub open spec fn spec_thunks_from(
    s: Seq<u8>,
    secs: Seq<SectionModel>,
    plus: bool,
    at: int,
    remaining: nat,
) -> Result<Seq<Seq<char>>, PeError>
    decreases remaining,
{
    if remaining == 0 {
        Ok(Seq::empty())
    } else {
        match spec_thunk_entry(s, at, plus) {
            Err(e) => Err(e),
            Ok(entry) => if entry == 0 {
                Ok(Seq::empty())
            } else {
                prepend(
                    spec_thunk_names(s, secs, entry, plus),
                    spec_thunks_from(s, secs, plus, at + thunk_size(plus), (remaining - 1) as nat),
                )
            },
        }
    }
}

/// The functions of the thunk table at `rva`: none where `rva` is in no section.
pub open spec fn spec_thunks(s: Seq<u8>, secs: Seq<SectionModel>, rva: u32, plus: bool) -> Result<
    Seq<Seq<char>>,
    PeError,
> {
    match spec_rva_to_offset(secs, rva) {
        None => Ok(Seq::empty()),
        Some(at) => spec_thunks_from(s, secs, plus, at as int, MAX_FUNCS_PER_DLL as nat),
    }
}

/// The text `Ordinal #n`.
fn ordinal_text(ordinal: u64) -> (r: String)
    ensures
        r@ == ordinal_label(ordinal as nat),
{
    let mut r = String::from_str("Ordinal #");
    push_decimal(&mut r, ordinal);
    r
}

/// Reads the thunk table of one DLL: function names, or ordinals.
fn read_thunks(data: &[u8], sections: &Vec<Section>, rva: u32, plus: bool) -> (r: Result<
    Vec<String>,
    PeError,
>)
    ensures
        match r {
            Ok(v) => spec_thunks(data@, sections.deep_view(), rva, plus) == Ok::<
                Seq<Seq<char>>,
                PeError,
            >(v.deep_view()),
            Err(e) => spec_thunks(data@, sections.deep_view(), rva, plus) == Err::<
                Seq<Seq<char>>,
                PeError,
            >(e),
        },
{
    let ghost s = data@;
    let ghost secs = sections.deep_view();
    let mut functions: Vec<String> = Vec::new();
    let start = match rva_to_offset(sections, rva) {
        Some(at) => at,
        None => {
            assert(functions.deep_view() =~= Seq::<Seq<char>>::empty());
            return Ok(functions);
        },
    };
    let step: u64 = if plus {
        8
    } else {
        4
    };
    let flag: u64 = if plus {
        0x8000_0000_0000_0000
    } else {
        0x8000_0000
    };
    let mut at = start;
    let mut n: u64 = 0;
    while n < MAX_FUNCS_PER_DLL
        invariant
            s == data@,
            secs == sections.deep_view(),
            n <= MAX_FUNCS_PER_DLL,
            start <= 2 * (u32::MAX as int),
            at == start + n * step,
            step == thunk_size(plus),
            flag == ordinal_flag(plus),
            spec_thunks(s, secs, rva, plus) == prepend(
                functions.deep_view(),
                spec_thunks_from(s, secs, plus, at as int, (MAX_FUNCS_PER_DLL - n) as nat),
            ),
        decreases MAX_FUNCS_PER_DLL - n,
    {
        let entry = if plus {
            match u64_at(data, at) {
                Ok(v) => v,
                Err(e) => return Err(e),
            }
        } else {
            match u32_at(data, at) {
                Ok(v) => v as u64,
                Err(e) => return Err(e),
            }
        };
        if entry == 0 {
            assert(functions.deep_view() + Seq::<Seq<char>>::empty() =~= functions.deep_view());
            return Ok(functions);
        }
        let ghost before = functions.deep_view();
        let ghost names = spec_thunk_names(s, secs, entry, plus);
        let ghost rest = spec_thunks_from(
            s,
            secs,
            plus,
            at + step,
            (MAX_FUNCS_PER_DLL - n - 1) as nat,
        );
        if entry & flag != 0 {
            let text = ordinal_text(entry & 0xFFFF);
            functions.push(text);
            assert(functions.deep_view() =~= before + names);
        } else {
            match rva_to_offset(sections, entry as u32) {
                Some(name_at) => {
                    let text = cstr_at(data, name_at + 2);
                    functions.push(text);
                    assert(functions.deep_view() =~= before + names);
                },
                None => {
                    assert(functions.deep_view() =~= before + names);
                },
            }
        }
        proof {
            match rest {
                Ok(r) => {
                    assert(before + (names + r) =~= (before + names) + r);
                },
                Err(_) => {},
            }
        }
        at = at + step;
        n = n + 1;
    }
    assert(functions.deep_view() + Seq::<Seq<char>>::empty() =~= functions.deep_view());
    Ok(functions)
}

/// The names of the export name table from `at` on: `remaining` RVAs of 4
/// bytes, each naming a NUL-terminated string; an RVA in no section adds no name.
pub open spec fn spec_export_names_from(
    s: Seq<u8>,
    secs: Seq<SectionModel>,
    at: int,
    remaining: nat,
) -> Result<Seq<Seq<char>>, PeError>
    decreases remaining,
{
    if remaining == 0 {
        Ok(Seq::empty())
    } else {
        match spec_u32_at(s, at) {
            Err(e) => Err(e),
            Ok(name_rva) => prepend(
                match spec_rva_to_offset(secs, name_rva) {
                    Some(o) => seq![spec_cstr_at(s, o as int)],
                    None => Seq::empty(),
                },
                spec_export_names_from(s, secs, at + 4, (remaining - 1) as nat),
            ),
        }
    }
}

/// The exported names: the export directory at `rva` holds the number of
/// names at +24 and the RVA of the name table at +32.
pub open spec fn spec_exports(s: Seq<u8>, secs: Seq<SectionModel>, rva: u32) -> Result<
    Seq<Seq<char>>,
    PeError,
> {
    match spec_rva_to_offset(secs, rva) {
        None => Err(PeError::ExportDirectoryOutside),
        Some(dir) => match spec_u32_at(s, dir + 24) {
            Err(e) => Err(e),
            Ok(count) => match spec_u32_at(s, dir + 32) {
                Err(e) => Err(e),
                Ok(names_rva) => match spec_rva_to_offset(secs, names_rva) {
                    None => Err(PeError::ExportNamesOutside),
                    Some(names) => spec_export_names_from(s, secs, names as int, count as nat),
                },
            },
        },
    }
}

/// Reads the export table: the names from the AddressOfNames array.
fn read_exports(data: &[u8], sections: &Vec<Section>, export_rva: u32) -> (r: Result<
    Vec<String>,
    PeError,
>)
    ensures
        match r {
            Ok(v) => spec_exports(data@, sections.deep_view(), export_rva) == Ok::<
                Seq<Seq<char>>,
                PeError,
            >(v.deep_view()),
            Err(e) => spec_exports(data@, sections.deep_view(), export_rva) == Err::<
                Seq<Seq<char>>,
                PeError,
            >(e),
        },
{
    let ghost s = data@;
    let ghost secs = sections.deep_view();
    let dir = match rva_to_offset(sections, export_rva) {
        Some(v) => v,
        None => return Err(PeError::ExportDirectoryOutside),
    };
    let count = match u32_at(data, dir + 24) {
        Ok(v) => v as u64,
        Err(e) => return Err(e),
    };
    let names_rva = match u32_at(data, dir + 32) {
        Ok(v) => v,
        Err(e) => return Err(e),
    };
    let names = match rva_to_offset(sections, names_rva) {
        Some(v) => v,
        None => return Err(PeError::ExportNamesOutside),
    };
    let mut exports: Vec<String> = Vec::new();
    let mut i: u64 = 0;
    while i < count
        invariant
            s == data@,
            secs == sections.deep_view(),
            i <= count <= u32::MAX,
            names <= 2 * (u32::MAX as int),
            spec_exports(s, secs, export_rva) == prepend(
                exports.deep_view(),
                spec_export_names_from(s, secs, names + i * 4, (count - i) as nat),
            ),
        decreases count - i,
    {
        let at = names + i * 4;
        let name_rva = match u32_at(data, at) {
            Ok(v) => v,
            Err(e) => return Err(e),
        };
        let ghost before = exports.deep_view();
        let ghost added = match spec_rva_to_offset(secs, name_rva) {
            Some(o) => seq![spec_cstr_at(s, o as int)],
            None => Seq::<Seq<char>>::empty(),
        };
        let ghost rest = spec_export_names_from(s, secs, at + 4, (count - i - 1) as nat);
        match rva_to_offset(sections, name_rva) {
            Some(name_at) => {
                let text = cstr_at(data, name_at);
                exports.push(text);
            },
            None => {},
        }
        proof {
            assert(exports.deep_view() =~= before + added);
            assert(names + (i + 1) * 4 == at + 4);
            match rest {
                Ok(r) => {
                    assert(before + (added + r) =~= (before + added) + r);
                },
                Err(_) => {},
            }
        }
        i = i + 1;
    }
    assert(exports.deep_view() + Seq::<Seq<char>>::empty() =~= exports.deep_view());
    Ok(exports)
}

/// The name of an imported DLL: empty where its RVA is in no section.
pub open spec fn spec_import_name(s: Seq<u8>, secs: Seq<SectionModel>, name_rva: u32) -> Seq<
    char,
> {
    match spec_rva_to_offset(secs, name_rva) {
        Some(at) => spec_cstr_at(s, at as int),
        None => Seq::empty(),
    }
}

/// The import descriptors from `at` on, at most `remaining` of them, up to
/// the one whose name RVA (at +12) is zero. Each DLL's functions come from
/// its lookup table (at +0), or from its address table (at +16) where the
/// lookup RVA is zero.
pub open spec fn spec_imports_from(
    s: Seq<u8>,
    secs: Seq<SectionModel>,
    plus: bool,
    at: int,
    remaining: nat,
) -> Result<Seq<ImportModel>, PeError>
    decreases remaining,
{
    if remaining == 0 {
        Ok(Seq::empty())
    } else {
        match spec_u32_at(s, at) {
            Err(e) => Err(e),
            Ok(lookup_rva) => match spec_u32_at(s, at + 12) {
                Err(e) => Err(e),
                Ok(name_rva) => match spec_u32_at(s, at + 16) {
                    Err(e) => Err(e),
                    Ok(iat_rva) => if name_rva == 0 {
                        Ok(Seq::empty())
                    } else {
                        match spec_thunks(
                            s,
                            secs,
                            if lookup_rva != 0 {
                                lookup_rva
                            } else {
                                iat_rva
                            },
                            plus,
                        ) {
                            Err(e) => Err(e),
                            Ok(functions) => prepend(
                                seq![
                                    ImportModel {
                                        name: spec_import_name(s, secs, name_rva),
                                        functions,
                                    },
                                ],
                                spec_imports_from(
                                    s,
                                    secs,
                                    plus,
                                    at + IMPORT_DESCRIPTOR_SIZE,
                                    (remaining - 1) as nat,
                                ),
                            ),
                        }
                    },
                },
            },
        }
    }
}

/// The imported DLLs: the import directory at `rva` is an array of descriptors.
pub open spec fn spec_imports(s: Seq<u8>, secs: Seq<SectionModel>, rva: u32, plus: bool) -> Result<
    Seq<ImportModel>,
    PeError,
> {
    match spec_rva_to_offset(secs, rva) {
        None => Err(PeError::ImportDirectoryOutside),
        Some(at) => spec_imports_from(s, secs, plus, at as int, MAX_IMPORT_DLLS as nat),
    }
}

/// Reads the import table: the DLLs and, for each, its functions.
fn read_imports(data: &[u8], sections: &Vec<Section>, import_rva: u32, plus: bool) -> (r: Result<
    Vec<ImportDll>,
    PeError,
>)
    ensures
        match r {
            Ok(v) => spec_imports(data@, sections.deep_view(), import_rva, plus) == Ok::<
                Seq<ImportModel>,
                PeError,
            >(v.deep_view()),
            Err(e) => spec_imports(data@, sections.deep_view(), import_rva, plus) == Err::<
                Seq<ImportModel>,
                PeError,
            >(e),
        },
{
    let ghost s = data@;
    let ghost secs = sections.deep_view();
    let start = match rva_to_offset(sections, import_rva) {
        Some(v) => v,
        None => return Err(PeError::ImportDirectoryOutside),
    };
    let mut dlls: Vec<ImportDll> = Vec::new();
    let mut descriptor = start;
    let mut n: u64 = 0;
    while n < MAX_IMPORT_DLLS
        invariant
            s == data@,
            secs == sections.deep_view(),
            n <= MAX_IMPORT_DLLS,
            start <= 2 * (u32::MAX as int),
            descriptor == start + n * IMPORT_DESCRIPTOR_SIZE,
            spec_imports(s, secs, import_rva, plus) == prepend(
                dlls.deep_view(),
                spec_imports_from(s, secs, plus, descriptor as int, (MAX_IMPORT_DLLS - n) as nat),
            ),
        decreases MAX_IMPORT_DLLS - n,
    {
        let lookup_rva = match u32_at(data, descriptor) {
            Ok(v) => v,
            Err(e) => return Err(e),
        };
        let name_rva = match u32_at(data, descriptor + 12) {
            Ok(v) => v,
            Err(e) => return Err(e),
        };
        let iat_rva = match u32_at(data, descriptor + 16) {
            Ok(v) => v,
            Err(e) => return Err(e),
        };
        if name_rva == 0 {
            assert(dlls.deep_view() + Seq::<ImportModel>::empty() =~= dlls.deep_view());
            return Ok(dlls);
        }
        let name = match rva_to_offset(sections, name_rva) {
            Some(at) => cstr_at(data, at),
            None => String::new(),
        };
        let thunks_rva = if lookup_rva != 0 {
            lookup_rva
        } else {
            iat_rva
        };
        let functions = match read_thunks(data, sections, thunks_rva, plus) {
            Ok(v) => v,
            Err(e) => return Err(e),
        };
        let ghost before = dlls.deep_view();
        let ghost dll = ImportModel { name: name@, functions: functions.deep_view() };
        let ghost rest = spec_imports_from(
            s,
            secs,
            plus,
            descriptor + IMPORT_DESCRIPTOR_SIZE,
            (MAX_IMPORT_DLLS - n - 1) as nat,
        );
        dlls.push(ImportDll { name, functions });
        proof {
            assert(dlls.deep_view() =~= before.push(dll));
            match rest {
                Ok(r) => {
                    assert(before + (seq![dll] + r) =~= before.push(dll) + r);
                },
                Err(_) => {},
            }
        }
        descriptor = descriptor + IMPORT_DESCRIPTOR_SIZE;
        n = n + 1;
    }
    assert(dlls.deep_view() + Seq::<ImportModel>::empty() =~= dlls.deep_view());
    Ok(dlls)
}

/// What a table that could not be read is shown as: no entries.
pub open spec fn or_empty<T>(r: Result<Seq<T>, PeError>) -> Seq<T> {
    match r {
        Ok(v) => v,
        Err(_) => Seq::empty(),
    }
}

/// The RVAs of the four data directories that the reader looks at.
pub struct DirectoryRvas {
    pub export: u32,
    pub import: u32,
    pub resource: u32,
    pub reloc: u32,
}

/// The export, import, resource and base relocation directory entries, read
/// in that order.
pub open spec fn spec_directories(s: Seq<u8>, h: Headers) -> Result<DirectoryRvas, PeError> {
    match spec_directory_rva(s, h, DIR_EXPORT as int) {
        Err(e) => Err(e),
        Ok(export) => match spec_directory_rva(s, h, DIR_IMPORT as int) {
            Err(e) => Err(e),
            Ok(import) => match spec_directory_rva(s, h, DIR_RESOURCE as int) {
                Err(e) => Err(e),
                Ok(resource) => match spec_directory_rva(s, h, DIR_BASERELOC as int) {
                    Err(e) => Err(e),
                    Ok(reloc) => Ok(DirectoryRvas { export, import, resource, reloc }),
                },
            },
        },
    }
}

/// The exported names of an image whose export directory is at `rva`: none
/// where `rva` is zero or the table cannot be read.
pub open spec fn spec_export_list(s: Seq<u8>, secs: Seq<SectionModel>, rva: u32) -> Seq<
    Seq<char>,
> {
    if rva == 0 {
        Seq::empty()
    } else {
        or_empty(spec_exports(s, secs, rva))
    }
}

/// The imported DLLs of an image whose import directory is at `rva`: none
/// where `rva` is zero or the table cannot be read.
pub open spec fn spec_import_list(s: Seq<u8>, secs: Seq<SectionModel>, rva: u32, plus: bool) -> Seq<
    ImportModel,
> {
    if rva == 0 {
        Seq::empty()
    } else {
        or_empty(spec_imports(s, secs, rva, plus))
    }
}

/// The model of an image from its headers, directory entries and sections.
pub open spec fn spec_model(
    s: Seq<u8>,
    h: Headers,
    d: DirectoryRvas,
    secs: Seq<SectionModel>,
) -> PeModel {
    PeModel {
        size: s.len() as u64,
        machine: h.coff.machine,
        characteristics: h.coff.characteristics,
        magic: h.optional.magic,
        is_pe32_plus: h.optional.is_pe32_plus,
        entry_point: h.optional.entry_point,
        image_base: h.optional.image_base,
        file_alignment: h.optional.file_alignment,
        section_alignment: h.optional.section_alignment,
        size_of_image: h.optional.size_of_image,
        dll_characteristics: h.optional.dll_characteristics,
        sections: secs,
        exports: spec_export_list(s, secs, d.export),
        imports: spec_import_list(s, secs, d.import, h.optional.is_pe32_plus),
        has_relocations: d.reloc != 0,
        has_resources: d.resource != 0,
    }
}

/// What the bytes of a PE file hold. The headers, the four data directory
/// entries and the section table must be readable; a broken export or import
/// table leaves that table empty instead of failing the whole file.
pub open spec fn spec_parse(s: Seq<u8>) -> Result<PeModel, PeError> {
    match spec_headers(s) {
        Err(e) => Err(e),
        Ok(h) => match spec_directories(s, h) {
            Err(e) => Err(e),
            Ok(d) => match spec_sections(
                s,
                h.optional_at + h.coff.optional_size,
                h.coff.section_count as nat,
            ) {
                Err(e) => Err(e),
                Ok(secs) => Ok(spec_model(s, h, d, secs)),
            },
        },
    }
}

fn read_directories(data: &[u8], h: &Headers) -> (r: Result<DirectoryRvas, PeError>)
    requires
        h.optional_at <= u32::MAX + 24,
    ensures
        r == spec_directories(data@, *h),
{
    let export = match directory_rva(data, h, DIR_EXPORT) {
        Ok(v) => v,
        Err(e) => return Err(e),
    };
    let import = match directory_rva(data, h, DIR_IMPORT) {
        Ok(v) => v,
        Err(e) => return Err(e),
    };
    let resource = match directory_rva(data, h, DIR_RESOURCE) {
        Ok(v) => v,
        Err(e) => return Err(e),
    };
    let reloc = match directory_rva(data, h, DIR_BASERELOC) {
        Ok(v) => v,
        Err(e) => return Err(e),
    };
    Ok(DirectoryRvas { export, import, resource, reloc })
}

fn export_list(data: &[u8], sections: &Vec<Section>, rva: u32) -> (v: Vec<String>)
    ensures
        v.deep_view() == spec_export_list(data@, sections.deep_view(), rva),
{
    if rva == 0 {
        let v: Vec<String> = Vec::new();
        assert(v.deep_view() =~= Seq::<Seq<char>>::empty());
        v
    } else {
        match read_exports(data, sections, rva) {
            Ok(v) => v,
            Err(_) => {
                let v: Vec<String> = Vec::new();
                assert(v.deep_view() =~= Seq::<Seq<char>>::empty());
                v
            },
        }
    }
}

fn import_list(data: &[u8], sections: &Vec<Section>, rva: u32, plus: bool) -> (v: Vec<ImportDll>)
    ensures
        v.deep_view() == spec_import_list(data@, sections.deep_view(), rva, plus),
{
    if rva == 0 {
        let v: Vec<ImportDll> = Vec::new();
        assert(v.deep_view() =~= Seq::<ImportModel>::empty());
        v
    } else {
        match read_imports(data, sections, rva, plus) {
            Ok(v) => v,
            Err(_) => {
                let v: Vec<ImportDll> = Vec::new();
                assert(v.deep_view() =~= Seq::<ImportModel>::empty());
                v
            },
        }
    }
}

/// Reads a PE image from the bytes of the file: headers, section table,
/// exports and imports. `name` and `path` say which file the bytes came from.
pub fn parse(name: String, path: PathBuf, data: &[u8]) -> (r: Result<PeInfo, PeError>)
    ensures
        match r {
            Ok(info) => {
                &&& spec_parse(data@) == Ok::<PeModel, PeError>(info.model())
                &&& info.name == name
                &&& info.path == path
            },
            Err(e) => spec_parse(data@) == Err::<PeModel, PeError>(e),
        },
{
    let h = match read_headers(data) {
        Ok(v) => v,
        Err(e) => return Err(e),
    };
    let d = match read_directories(data, &h) {
        Ok(v) => v,
        Err(e) => return Err(e),
    };
    let sections = match read_sections(
        data,
        h.optional_at + h.coff.optional_size as u64,
        h.coff.section_count,
    ) {
        Ok(v) => v,
        Err(e) => return Err(e),
    };
    let exports = export_list(data, &sections, d.export);
    let imports = import_list(data, &sections, d.import, h.optional.is_pe32_plus);
    let info = PeInfo {
        name,
        path,
        size: data.len() as u64,
        machine: h.coff.machine,
        characteristics: h.coff.characteristics,
        magic: h.optional.magic,
        is_pe32_plus: h.optional.is_pe32_plus,
        entry_point: h.optional.entry_point,
        image_base: h.optional.image_base,
        file_alignment: h.optional.file_alignment,
        section_alignment: h.optional.section_alignment,
        size_of_image: h.optional.size_of_image,
        dll_characteristics: h.optional.dll_characteristics,
        sections,
        exports,
        imports,
        has_relocations: d.reloc != 0,
        has_resources: d.resource != 0,
    };
    assert(info.model() == spec_model(data@, h, d, info.sections.deep_view()));
    Ok(info)
}

/// Reading `remaining` section headers gives exactly that many sections.
pub proof fn lemma_sections_count(s: Seq<u8>, head: int, index: int, remaining: nat)
    ensures
        spec_sections_from(s, head, index, remaining) matches Ok(v) ==> v.len() == remaining,
    decreases remaining,
{
    if remaining > 0 {
        lemma_sections_count(s, head + SECTION_HEADER_SIZE, index + 1, (remaining - 1) as nat);
    }
}

/// A thunk table read with at most `remaining` entries names at most that
/// many functions.
pub proof fn lemma_thunks_count(
    s: Seq<u8>,
    secs: Seq<SectionModel>,
    plus: bool,
    at: int,
    remaining: nat,
)
    ensures
        spec_thunks_from(s, secs, plus, at, remaining) matches Ok(v) ==> v.len() <= remaining,
    decreases remaining,
{
    if remaining > 0 {
        lemma_thunks_count(s, secs, plus, at + thunk_size(plus), (remaining - 1) as nat);
    }
}

/// Every thunk table names at most `MAX_FUNCS_PER_DLL` functions.
pub proof fn lemma_thunks_bounded(s: Seq<u8>, secs: Seq<SectionModel>, rva: u32, plus: bool)
    ensures
        spec_thunks(s, secs, rva, plus) matches Ok(v) ==> v.len() <= MAX_FUNCS_PER_DLL,
{
    if let Some(at) = spec_rva_to_offset(secs, rva) {
        lemma_thunks_count(s, secs, plus, at as int, MAX_FUNCS_PER_DLL as nat);
    }
}

/// Reading at most `remaining` import descriptors gives at most that many
/// DLLs, each with at most `MAX_FUNCS_PER_DLL` functions.
pub proof fn lemma_imports_count(
    s: Seq<u8>,
    secs: Seq<SectionModel>,
    plus: bool,
    at: int,
    remaining: nat,
)
    ensures
        spec_imports_from(s, secs, plus, at, remaining) matches Ok(v) ==> {
            &&& v.len() <= remaining
            &&& forall|i: int| 0 <= i < v.len() ==> #[trigger] v[i].functions.len() <= MAX_FUNCS_PER_DLL
        },
    decreases remaining,
{
    if remaining > 0 {
        lemma_imports_count(s, secs, plus, at + IMPORT_DESCRIPTOR_SIZE, (remaining - 1) as nat);
        if let Ok(lookup_rva) = spec_u32_at(s, at) {
            if let Ok(iat_rva) = spec_u32_at(s, at + 16) {
                lemma_thunks_bounded(
                    s,
                    secs,
                    if lookup_rva != 0 {
                        lookup_rva
                    } else {
                        iat_rva
                    },
                    plus,
                );
            }
        }
        if let Ok(v) = spec_imports_from(s, secs, plus, at, remaining) {
            if v.len() > 0 {
                let rest = spec_imports_from(
                    s,
                    secs,
                    plus,
                    at + IMPORT_DESCRIPTOR_SIZE,
                    (remaining - 1) as nat,
                );
                assert forall|i: int| 0 <= i < v.len() implies #[trigger] v[i].functions.len()
                    <= MAX_FUNCS_PER_DLL by {
                    if i > 0 {
                        assert(v[i] == rest->Ok_0[i - 1]);
                    }
                }
            }
        }
    }
}

/// A file is rejected only for its headers, its four data directory entries
/// or its section table: export and import tables never make reading fail.
pub proof fn lemma_tables_never_fail(s: Seq<u8>)
    ensures
        spec_parse(s) is Ok <==> {
            &&& spec_headers(s) is Ok
            &&& spec_directories(s, spec_headers(s)->Ok_0) is Ok
            &&& spec_sections(
                s,
                spec_headers(s)->Ok_0.optional_at + spec_headers(s)->Ok_0.coff.optional_size,
                spec_headers(s)->Ok_0.coff.section_count as nat,
            ) is Ok
        },
{
}

/// What every successfully read file satisfies: its size is the number of
/// bytes read; its magic is PE32 or PE32+ and decides the 64-bit flag; it
/// has as many sections as its COFF header declares; and the import table
/// holds at most `MAX_IMPORT_DLLS` DLLs of at most `MAX_FUNCS_PER_DLL`
/// functions each.
pub proof fn lemma_parse_bounds(s: Seq<u8>)
    requires
        s.len() <= usize::MAX,
    ensures
        spec_parse(s) matches Ok(m) ==> {
            &&& m.size == s.len()
            &&& m.magic == MAGIC_PE32 || m.magic == MAGIC_PE32_PLUS
            &&& m.is_pe32_plus <==> m.magic == MAGIC_PE32_PLUS
            &&& m.sections.len() == spec_headers(s)->Ok_0.coff.section_count
            &&& m.imports.len() <= MAX_IMPORT_DLLS
            &&& forall|i: int|
                0 <= i < m.imports.len() ==> #[trigger] m.imports[i].functions.len()
                    <= MAX_FUNCS_PER_DLL
        },
{
    if let Ok(h) = spec_headers(s) {
        let start = h.optional_at + h.coff.optional_size;
        lemma_sections_count(s, start, 0, h.coff.section_count as nat);
        if let Ok(d) = spec_directories(s, h) {
            if let Ok(secs) = spec_sections(s, start, h.coff.section_count as nat) {
                if let Some(at) = spec_rva_to_offset(secs, d.import) {
                    lemma_imports_count(
                        s,
                        secs,
                        h.optional.is_pe32_plus,
                        at as int,
                        MAX_IMPORT_DLLS as nat,
                    );
                }
            }
        }
    }
}

/// The name table from `at` on: when all `count` slots can be read and each
/// names an RVA inside a section, there are exactly `count` names, name `i`
/// being the string at the RVA in slot `i`.
pub proof fn lemma_export_names_all(s: Seq<u8>, secs: Seq<SectionModel>, at: int, count: nat)
    requires
        forall|i: int| 0 <= i < count ==> #[trigger] fits(s, at + 4 * i, 4),
        forall|i: int|
            0 <= i < count ==> (#[trigger] spec_rva_to_offset(secs, le32(s, at + 4 * i) as u32))
                is Some,
    ensures
        spec_export_names_from(s, secs, at, count) is Ok,
        spec_export_names_from(s, secs, at, count)->Ok_0.len() == count,
        forall|i: int|
            0 <= i < count ==> #[trigger] spec_export_names_from(s, secs, at, count)->Ok_0[i]
                == spec_cstr_at(
                s,
                spec_rva_to_offset(secs, le32(s, at + 4 * i) as u32)->Some_0 as int,
            ),
    decreases count,
{
    if count > 0 {
        assert(fits(s, at + 4 * 0, 4));
        assert(spec_rva_to_offset(secs, le32(s, at + 4 * 0) as u32) is Some);
        assert forall|i: int| 0 <= i < count - 1 implies #[trigger] fits(s, (at + 4) + 4 * i, 4) by {
            assert(fits(s, at + 4 * (i + 1), 4));
        }
        assert forall|i: int| 0 <= i < count - 1 implies (#[trigger] spec_rva_to_offset(
            secs,
            le32(s, (at + 4) + 4 * i) as u32,
        )) is Some by {
            assert(spec_rva_to_offset(secs, le32(s, at + 4 * (i + 1)) as u32) is Some);
            assert(at + 4 * (i + 1) == (at + 4) + 4 * i);
        }
        lemma_export_names_all(s, secs, at + 4, (count - 1) as nat);
        let rest = spec_export_names_from(s, secs, at + 4, (count - 1) as nat)->Ok_0;
        let v = spec_export_names_from(s, secs, at, count)->Ok_0;
        assert forall|i: int| 0 <= i < count implies #[trigger] v[i] == spec_cstr_at(
            s,
            spec_rva_to_offset(secs, le32(s, at + 4 * i) as u32)->Some_0 as int,
        ) by {
            if i > 0 {
                assert(v[i] == rest[i - 1]);
                assert(at + 4 * i == (at + 4) + 4 * (i - 1));
            }
        }
    }
}

/// The export table lists every name of its name table: when the export
/// directory at `rva` (file offset `dir`) can be read, its name table (whose
/// RVA is at `dir + 32`) lies at `names`, and each of the NumberOfNames
/// (`dir + 24`) slots holds an RVA inside a section, then there are exactly
/// NumberOfNames exported names, name `i` being the NUL-terminated string at
/// the RVA in slot `i`.
pub proof fn lemma_exports_all_named(
    s: Seq<u8>,
    secs: Seq<SectionModel>,
    rva: u32,
    dir: u64,
    names: u64,
)
    requires
        spec_rva_to_offset(secs, rva) == Some(dir),
        fits(s, dir + 24, 4),
        fits(s, dir + 32, 4),
        spec_rva_to_offset(secs, le32(s, dir + 32) as u32) == Some(names),
        forall|i: int| 0 <= i < le32(s, dir + 24) ==> #[trigger] fits(s, names + 4 * i, 4),
        forall|i: int|
            0 <= i < le32(s, dir + 24) ==> (#[trigger] spec_rva_to_offset(
                secs,
                le32(s, names + 4 * i) as u32,
            )) is Some,
    ensures
        spec_exports(s, secs, rva) is Ok,
        spec_exports(s, secs, rva)->Ok_0.len() == le32(s, dir + 24),
        forall|i: int|
            0 <= i < le32(s, dir + 24) ==> #[trigger] spec_exports(s, secs, rva)->Ok_0[i]
                == spec_cstr_at(
                s,
                spec_rva_to_offset(secs, le32(s, names + 4 * i) as u32)->Some_0 as int,
            ),
{
    let count = le32(s, dir + 24);
    assert(0 <= count <= u32::MAX);
    assert(spec_u32_at(s, dir + 24) == Ok::<u32, PeError>(count as u32));
    lemma_export_names_all(s, secs, names as int, count as nat);
}

/// The RVA of the thunk table of the import descriptor at `d`: its lookup
/// table (at +0), or its address table (at +16) where the lookup RVA is zero.
pub open spec fn descriptor_thunks_rva(s: Seq<u8>, d: int) -> u32 {
    if le32(s, d) != 0 {
        le32(s, d) as u32
    } else {
        le32(s, d + 16) as u32
    }
}

/// The name of the DLL of the import descriptor at `d`: the string at the RVA
/// at +12, empty where that RVA is in no section.
pub open spec fn descriptor_name(s: Seq<u8>, secs: Seq<SectionModel>, d: int) -> Seq<char> {
    match spec_rva_to_offset(secs, le32(s, d + 12) as u32) {
        Some(o) => spec_cstr_at(s, o as int),
        None => Seq::empty(),
    }
}

/// Descriptors `0..k` from `at` with non-zero names, descriptor `k` with a
/// zero name, all of them readable and their thunk tables too, give exactly
/// `k` DLLs, one per descriptor in order (while fewer than `remaining`).
pub proof fn lemma_imports_follow(
    s: Seq<u8>,
    secs: Seq<SectionModel>,
    plus: bool,
    at: int,
    k: nat,
    remaining: nat,
)
    requires
        k < remaining,
        forall|i: int| 0 <= i <= k ==> #[trigger] fits(s, at + 20 * i, 20),
        forall|i: int| 0 <= i < k ==> le32(s, #[trigger] (at + 20 * i) + 12) != 0,
        le32(s, at + 20 * k + 12) == 0,
        forall|i: int|
            0 <= i < k ==> (#[trigger] spec_thunks(
                s,
                secs,
                descriptor_thunks_rva(s, at + 20 * i),
                plus,
            )) is Ok,
    ensures
        spec_imports_from(s, secs, plus, at, remaining) is Ok,
        spec_imports_from(s, secs, plus, at, remaining)->Ok_0.len() == k,
        forall|i: int|
            0 <= i < k ==> {
                let dll = #[trigger] spec_imports_from(s, secs, plus, at, remaining)->Ok_0[i];
                &&& dll.name == descriptor_name(s, secs, at + 20 * i)
                &&& dll.functions == spec_thunks(
                    s,
                    secs,
                    descriptor_thunks_rva(s, at + 20 * i),
                    plus,
                )->Ok_0
            },
    decreases k,
{
    assert(fits(s, at + 20 * 0, 20));
    assert(at + 20 * 0 == at);
    assert(0 <= le32(s, at) <= u32::MAX);
    assert(0 <= le32(s, at + 12) <= u32::MAX);
    assert(0 <= le32(s, at + 16) <= u32::MAX);
    if k == 0 {
        assert(at + 20 * 0 + 12 == at + 12);
    } else {
        assert(le32(s, (at + 20 * 0) + 12) != 0);
        assert(spec_thunks(s, secs, descriptor_thunks_rva(s, at + 20 * 0), plus) is Ok);
        let next = at + IMPORT_DESCRIPTOR_SIZE;
        assert forall|i: int| 0 <= i <= k - 1 implies #[trigger] fits(s, next + 20 * i, 20) by {
            assert(fits(s, at + 20 * (i + 1), 20));
            assert(at + 20 * (i + 1) == next + 20 * i);
        }
        assert forall|i: int| 0 <= i < k - 1 implies le32(s, #[trigger] (next + 20 * i) + 12) != 0 by {
            assert(le32(s, (at + 20 * (i + 1)) + 12) != 0);
            assert(at + 20 * (i + 1) == next + 20 * i);
        }
        assert(at + 20 * k + 12 == next + 20 * (k - 1) + 12);
        assert forall|i: int| 0 <= i < k - 1 implies (#[trigger] spec_thunks(
            s,
            secs,
            descriptor_thunks_rva(s, next + 20 * i),
            plus,
        )) is Ok by {
            assert(spec_thunks(s, secs, descriptor_thunks_rva(s, at + 20 * (i + 1)), plus) is Ok);
            assert(at + 20 * (i + 1) == next + 20 * i);
        }
        lemma_imports_follow(s, secs, plus, next, (k - 1) as nat, (remaining - 1) as nat);
        let rest = spec_imports_from(s, secs, plus, next, (remaining - 1) as nat)->Ok_0;
        let v = spec_imports_from(s, secs, plus, at, remaining)->Ok_0;
        assert forall|i: int| 0 <= i < k implies {
            let dll = #[trigger] v[i];
            &&& dll.name == descriptor_name(s, secs, at + 20 * i)
            &&& dll.functions == spec_thunks(
                s,
                secs,
                descriptor_thunks_rva(s, at + 20 * i),
                plus,
            )->Ok_0
        } by {
            if i > 0 {
                assert(v[i] == rest[i - 1]);
                assert(at + 20 * i == next + 20 * (i - 1));
            }
        }
    }
}

/// The import table lists one DLL per descriptor up to the first descriptor
/// whose name RVA is zero: when the import directory at `rva` lies at file
/// offset `at`, descriptors `0..k` (20 bytes apart) have non-zero name RVAs,
/// descriptor `k` has a zero one (`k` below the limit of 4096), all of them
/// can be read and so can their thunk tables, then there are exactly `k`
/// DLLs, DLL `i` named and filled by descriptor `i`.
pub proof fn lemma_imports_all_listed(
    s: Seq<u8>,
    secs: Seq<SectionModel>,
    rva: u32,
    plus: bool,
    at: u64,
    k: nat,
)
    requires
        spec_rva_to_offset(secs, rva) == Some(at),
        k < MAX_IMPORT_DLLS,
        forall|i: int| 0 <= i <= k ==> #[trigger] fits(s, at + 20 * i, 20),
        forall|i: int| 0 <= i < k ==> le32(s, #[trigger] (at + 20 * i) + 12) != 0,
        le32(s, at + 20 * k + 12) == 0,
        forall|i: int|
            0 <= i < k ==> (#[trigger] spec_thunks(
                s,
                secs,
                descriptor_thunks_rva(s, at + 20 * i),
                plus,
            )) is Ok,
    ensures
        spec_imports(s, secs, rva, plus) is Ok,
        spec_imports(s, secs, rva, plus)->Ok_0.len() == k,
        forall|i: int|
            0 <= i < k ==> {
                let dll = #[trigger] spec_imports(s, secs, rva, plus)->Ok_0[i];
                &&& dll.name == descriptor_name(s, secs, at + 20 * i)
                &&& dll.functions == spec_thunks(
                    s,
                    secs,
                    descriptor_thunks_rva(s, at + 20 * i),
                    plus,
                )->Ok_0
            },
{
    lemma_imports_follow(s, secs, plus, at as int, k, MAX_IMPORT_DLLS as nat);
}

/// Every section read from `head` on is the 40-byte entry at its place: its
/// name is the 8-byte field up to the first NUL, and its sizes, addresses and
/// characteristics are the numbers at +8, +12, +16, +20 and +36.
pub proof fn lemma_sections_fields(s: Seq<u8>, head: int, index: int, remaining: nat)
    ensures
        spec_sections_from(s, head, index, remaining) matches Ok(v) ==> {
            &&& v.len() == remaining
            &&& forall|j: int|
                0 <= j < remaining ==> {
                    let h = head + 40 * j;
                    let sec = #[trigger] v[j];
                    &&& sec.name == utf8_lossy(until_nul(s.subrange(h, h + 8)))
                    &&& sec.virtual_size == le32(s, h + 8)
                    &&& sec.virtual_address == le32(s, h + 12)
                    &&& sec.raw_size == le32(s, h + 16)
                    &&& sec.raw_offset == le32(s, h + 20)
                    &&& sec.characteristics == le32(s, h + 36)
                }
        },
    decreases remaining,
{
    if remaining > 0 {
        lemma_sections_fields(s, head + 40, index + 1, (remaining - 1) as nat);
        if let Ok(v) = spec_sections_from(s, head, index, remaining) {
            let rest = spec_sections_from(s, head + 40, index + 1, (remaining - 1) as nat)->Ok_0;
            assert forall|j: int| 0 <= j < remaining implies {
                let h = head + 40 * j;
                let sec = #[trigger] v[j];
                &&& sec.name == utf8_lossy(until_nul(s.subrange(h, h + 8)))
                &&& sec.virtual_size == le32(s, h + 8)
                &&& sec.virtual_address == le32(s, h + 12)
                &&& sec.raw_size == le32(s, h + 16)
                &&& sec.raw_offset == le32(s, h + 20)
                &&& sec.characteristics == le32(s, h + 36)
            } by {
                if j > 0 {
                    assert(v[j] == rest[j - 1]);
                    assert(head + 40 * j == (head + 40) + 40 * (j - 1));
                }
            }
        }
    }
}

/// Where the data directory of a file whose optional header is at `opt`
/// starts, and how many entries it has: PE32+ (magic 0x20B) keeps the count
/// at +108 and the entries from +112, PE32 at +92 and from +96.
pub open spec fn directory_layout(s: Seq<u8>, opt: int) -> (int, int) {
    if le16(s, opt) == 0x20B {
        (le32(s, opt + 108), opt + 112)
    } else {
        (le32(s, opt + 92), opt + 96)
    }
}

/// The RVA of data directory `index` (8 bytes per entry), 0 past the count.
pub open spec fn directory_entry(s: Seq<u8>, opt: int, index: int) -> int {
    let (count, start) = directory_layout(s, opt);
    if index < count {
        le32(s, start + 8 * index)
    } else {
        0
    }
}

/// A file that reads starts with `MZ`, has `PE\0\0` where the number at
/// 0x3C points, and every field is the little-endian number at its place in
/// the PE format: the COFF header right after the signature, the optional
/// header 20 bytes after that (laid out for PE32 or PE32+ by its magic), the
/// section table `SizeOfOptionalHeader` bytes further, with 40 bytes per
/// section; relocations and resources are there where their directory
/// entries (5 and 2) are non-zero.
pub proof fn lemma_parse_reads_fields(s: Seq<u8>)
    requires
        s.len() <= usize::MAX,
    ensures
        spec_parse(s) matches Ok(m) ==> {
            let p = le32(s, 0x3C);
            let opt = p + 24;
            let plus = le16(s, opt) == 0x20B;
            &&& le16(s, 0) == 0x5A4D
            &&& le32(s, p) == 0x4550
            &&& m.size == s.len()
            &&& m.machine == le16(s, p + 4)
            &&& m.characteristics == le16(s, p + 22)
            &&& m.magic == le16(s, opt)
            &&& m.is_pe32_plus == plus
            &&& m.entry_point == le32(s, opt + 16)
            &&& m.image_base == if plus {
                le64(s, opt + 24)
            } else {
                le32(s, opt + 28)
            }
            &&& m.section_alignment == le32(s, opt + 32)
            &&& m.file_alignment == le32(s, opt + 36)
            &&& m.size_of_image == le32(s, opt + 56)
            &&& m.dll_characteristics == le16(s, opt + 70)
            &&& m.has_resources == (directory_entry(s, opt, 2) != 0)
            &&& m.has_relocations == (directory_entry(s, opt, 5) != 0)
            &&& m.exports == if directory_entry(s, opt, 0) == 0 {
                Seq::<Seq<char>>::empty()
            } else {
                or_empty(spec_exports(s, m.sections, directory_entry(s, opt, 0) as u32))
            }
            &&& m.imports == if directory_entry(s, opt, 1) == 0 {
                Seq::<ImportModel>::empty()
            } else {
                or_empty(spec_imports(s, m.sections, directory_entry(s, opt, 1) as u32, plus))
            }
            &&& m.sections.len() == le16(s, p + 6)
            &&& forall|j: int|
                0 <= j < m.sections.len() ==> {
                    let h = opt + le16(s, p + 20) + 40 * j;
                    let sec = #[trigger] m.sections[j];
                    &&& sec.name == utf8_lossy(until_nul(s.subrange(h, h + 8)))
                    &&& sec.virtual_size == le32(s, h + 8)
                    &&& sec.virtual_address == le32(s, h + 12)
                    &&& sec.raw_size == le32(s, h + 16)
                    &&& sec.raw_offset == le32(s, h + 20)
                    &&& sec.characteristics == le32(s, h + 36)
                }
        },
{
    if let Ok(h) = spec_headers(s) {
        let start = h.optional_at + h.coff.optional_size;
        lemma_sections_fields(s, start, 0, h.coff.section_count as nat);
    }
}

/// How the top bit, the low 16 bits and the low 32 bits of a thunk entry
/// read.
proof fn lemma_entry_bits(e: u64)
    by (bit_vector)
    ensures
        (e & 0x8000_0000_0000_0000u64 != 0) == (e >= 0x8000_0000_0000_0000u64),
        e < 0x1_0000_0000u64 ==> ((e & 0x8000_0000u64 != 0) == (e >= 0x8000_0000u64)),
        e & 0xFFFFu64 == e % 0x10000,
        e as u32 == e % 0x1_0000_0000,
{
}

/// Thunk entry `i` of the table at `at`: 8 bytes each in PE32+, 4 in PE32.
pub open spec fn thunk_entry_at(s: Seq<u8>, at: int, plus: bool, i: int) -> u64 {
    if plus {
        le64(s, at + 8 * i) as u64
    } else {
        le32(s, at + 4 * i) as u64
    }
}

/// What a non-zero thunk entry names: with its top bit set (bit 63 in PE32+,
/// bit 31 in PE32) the import is by ordinal, the low 16 bits, shown as
/// `Ordinal #` and the decimal ordinal; otherwise its low 32 bits are the
/// RVA of a hint/name entry, whose name follows the 2-byte hint. Nothing
/// where that RVA is in no section.
pub open spec fn thunk_function(s: Seq<u8>, secs: Seq<SectionModel>, e: u64, plus: bool) -> Option<
    Seq<char>,
> {
    if (plus && e >= 0x8000_0000_0000_0000) || (!plus && e >= 0x8000_0000) {
        Some("Ordinal #"@ + decimal((e % 0x10000) as nat))
    } else {
        match spec_rva_to_offset(secs, (e % 0x1_0000_0000) as u32) {
            Some(o) => Some(spec_cstr_at(s, o + 2)),
            None => None,
        }
    }
}

/// Entries `0..k` from `at`, all non-zero and each naming a function, then a
/// zero entry `k`, all readable, give exactly `k` functions in entry order
/// (while fewer than `remaining`).
pub proof fn lemma_thunks_follow(
    s: Seq<u8>,
    secs: Seq<SectionModel>,
    plus: bool,
    at: int,
    k: nat,
    remaining: nat,
)
    requires
        k < remaining,
        forall|i: int|
            0 <= i <= k ==> #[trigger] fits(
                s,
                at + thunk_size(plus) * i,
                thunk_size(plus),
            ),
        forall|i: int|
            0 <= i < k ==> #[trigger] thunk_entry_at(s, at, plus, i) != 0 && thunk_function(
                s,
                secs,
                thunk_entry_at(s, at, plus, i),
                plus,
            ) is Some,
        thunk_entry_at(s, at, plus, k as int) == 0,
    ensures
        spec_thunks_from(s, secs, plus, at, remaining) is Ok,
        spec_thunks_from(s, secs, plus, at, remaining)->Ok_0.len() == k,
        forall|i: int|
            0 <= i < k ==> #[trigger] spec_thunks_from(s, secs, plus, at, remaining)->Ok_0[i]
                == thunk_function(s, secs, thunk_entry_at(s, at, plus, i), plus)->Some_0,
    decreases k,
{
    let step = thunk_size(plus);
    assert(fits(s, at + step * 0, step));
    assert(at + step * 0 == at);
    assert(0 <= le32(s, at) <= u32::MAX);
    assert(0 <= le64(s, at) <= u64::MAX);
    assert(thunk_entry_at(s, at, plus, 0) == spec_thunk_entry(s, at, plus)->Ok_0);
    if k > 0 {
        let e = thunk_entry_at(s, at, plus, 0);
        assert(e != 0 && thunk_function(s, secs, e, plus) is Some);
        lemma_entry_bits(e);
        assert(spec_thunk_names(s, secs, e, plus) == seq![thunk_function(s, secs, e, plus)->Some_0]);
        let next = at + step;
        assert forall|i: int| 0 <= i <= k - 1 implies #[trigger] fits(s, next + step * i, step) by {
            assert(fits(s, at + step * (i + 1), step));
            assert(at + step * (i + 1) == next + step * i);
        }
        assert forall|i: int| 0 <= i < k - 1 implies #[trigger] thunk_entry_at(s, next, plus, i) != 0
            && thunk_function(s, secs, thunk_entry_at(s, next, plus, i), plus) is Some by {
            assert(thunk_entry_at(s, at, plus, i + 1) != 0);
            assert(at + step * (i + 1) == next + step * i);
            assert(thunk_entry_at(s, at, plus, i + 1) == thunk_entry_at(s, next, plus, i));
        }
        assert(thunk_entry_at(s, at, plus, k as int) == thunk_entry_at(s, next, plus, k - 1));
        lemma_thunks_follow(s, secs, plus, next, (k - 1) as nat, (remaining - 1) as nat);
        let rest = spec_thunks_from(s, secs, plus, next, (remaining - 1) as nat)->Ok_0;
        let v = spec_thunks_from(s, secs, plus, at, remaining)->Ok_0;
        assert forall|i: int| 0 <= i < k implies #[trigger] v[i] == thunk_function(
            s,
            secs,
            thunk_entry_at(s, at, plus, i),
            plus,
        )->Some_0 by {
            if i > 0 {
                assert(v[i] == rest[i - 1]);
                assert(thunk_entry_at(s, at, plus, i) == thunk_entry_at(s, next, plus, i - 1));
            }
        }
    }
}

/// A DLL's thunk table at `rva` (file offset `at`) lists one function per
/// entry up to the first zero entry: imports by ordinal as `Ordinal #n`,
/// imports by name as the name after the 2-byte hint.
pub proof fn lemma_thunks_all_listed(
    s: Seq<u8>,
    secs: Seq<SectionModel>,
    rva: u32,
    plus: bool,
    at: u64,
    k: nat,
)
    requires
        spec_rva_to_offset(secs, rva) == Some(at),
        k < MAX_FUNCS_PER_DLL,
        forall|i: int|
            0 <= i <= k ==> #[trigger] fits(
                s,
                at + thunk_size(plus) * i,
                thunk_size(plus),
            ),
        forall|i: int|
            0 <= i < k ==> #[trigger] thunk_entry_at(s, at as int, plus, i) != 0 && thunk_function(
                s,
                secs,
                thunk_entry_at(s, at as int, plus, i),
                plus,
            ) is Some,
        thunk_entry_at(s, at as int, plus, k as int) == 0,
    ensures
        spec_thunks(s, secs, rva, plus) is Ok,
        spec_thunks(s, secs, rva, plus)->Ok_0.len() == k,
        forall|i: int|
            0 <= i < k ==> #[trigger] spec_thunks(s, secs, rva, plus)->Ok_0[i] == thunk_function(
                s,
                secs,
                thunk_entry_at(s, at as int, plus, i),
                plus,
            )->Some_0,
{
    lemma_thunks_follow(s, secs, plus, at as int, k, MAX_FUNCS_PER_DLL as nat);
}

} // verus!
