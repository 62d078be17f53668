//! The data read out of a PE file.

pub mod flags;
pub mod parser;
pub mod reader;

use std::path::PathBuf;
use vstd::prelude::*;

use crate::text::{decimal, hex, push_decimal, push_hex};

pub use flags::{
    characteristics_flags, dll_characteristics_flags, machine_name, magic_name, section_flags,
    set_flags,
};
pub use parser::parse;
pub use reader::{cstr_at, rva_to_offset, u16_at, u32_at, u64_at};

verus! {

/// `PathBuf` is carried through as it is; nothing here looks inside it.
#[verifier::external_type_specification]
#[verifier::external_body]
pub struct ExPathBuf(PathBuf);

/// Why a PE file could not be read.
#[derive(Debug, Clone, Copy, PartialEq, Eq)]
pub enum PeError {
    /// A `width`-byte little-endian number at `offset` lies past the end of the file.
    ReadOutOfBounds { offset: u64, width: u8 },
    /// The file does not start with the DOS signature `MZ`.
    NoDosSignature,
    /// No `PE\0\0` signature where `e_lfanew` points.
    NoPeSignature { offset: u64 },
    /// The optional header's magic is neither PE32 nor PE32+.
    UnknownMagic { magic: u16 },
    /// The 8-byte name of section header `index` lies past the end of the file.
    SectionHeaderOutOfBounds { index: u64 },
    /// The export directory's RVA falls in no section.
    ExportDirectoryOutside,
    /// The export name table's RVA falls in no section.
    ExportNamesOutside,
    /// The import directory's RVA falls in no section.
    ImportDirectoryOutside,
}

/// One entry of the section table.
pub struct Section {
    pub name: String,
    pub virtual_size: u32,
    pub virtual_address: u32,
    pub raw_size: u32,
    pub raw_offset: u32,
    pub characteristics: u32,
}

/// A section table entry with its name as characters.
pub struct SectionModel {
    pub name: Seq<char>,
    pub virtual_size: u32,
    pub virtual_address: u32,
    pub raw_size: u32,
    pub raw_offset: u32,
    pub characteristics: u32,
}

impl DeepView for Section {
    type V = SectionModel;

    open spec fn deep_view(&self) -> SectionModel {
        SectionModel {
            name: self.name@,
            virtual_size: self.virtual_size,
            virtual_address: self.virtual_address,
            raw_size: self.raw_size,
            raw_offset: self.raw_offset,
            characteristics: self.characteristics,
        }
    }
}

/// One imported DLL and the functions taken from it.
pub struct ImportDll {
    pub name: String,
    pub functions: Vec<String>,
}

/// An imported DLL as characters.
pub struct ImportModel {
    pub name: Seq<char>,
    pub functions: Seq<Seq<char>>,
}

impl DeepView for ImportDll {
    type V = ImportModel;

    open spec fn deep_view(&self) -> ImportModel {
        ImportModel { name: self.name@, functions: self.functions.deep_view() }
    }
}

/// Everything read out of one PE file.
pub struct PeInfo {
    /// The file's name.
    pub name: String,
    /// Where the file was read from.
    pub path: PathBuf,
    /// The file's size in bytes.
    pub size: u64,
    pub machine: u16,
    pub characteristics: u16,
    pub magic: u16,
    pub is_pe32_plus: bool,
    pub entry_point: u32,
    pub image_base: u64,
    pub file_alignment: u32,
    pub section_alignment: u32,
    pub size_of_image: u32,
    pub dll_characteristics: u16,
    pub sections: Vec<Section>,
    pub exports: Vec<String>,
    pub imports: Vec<ImportDll>,
    pub has_relocations: bool,
    pub has_resources: bool,
}

/// What a PE image holds, as read from its bytes alone.
pub struct PeModel {
    pub size: u64,
    pub machine: u16,
    pub characteristics: u16,
    pub magic: u16,
    pub is_pe32_plus: bool,
    pub entry_point: u32,
    pub image_base: u64,
    pub file_alignment: u32,
    pub section_alignment: u32,
    pub size_of_image: u32,
    pub dll_characteristics: u16,
    pub sections: Seq<SectionModel>,
    pub exports: Seq<Seq<char>>,
    pub imports: Seq<ImportModel>,
    pub has_relocations: bool,
    pub has_resources: bool,
}

impl PeInfo {
    /// The part of the information that comes from the file's bytes.
    pub open spec fn model(&self) -> PeModel {
        PeModel {
            size: self.size,
            machine: self.machine,
            characteristics: self.characteristics,
            magic: self.magic,
            is_pe32_plus: self.is_pe32_plus,
            entry_point: self.entry_point,
            image_base: self.image_base,
            file_alignment: self.file_alignment,
            section_alignment: self.section_alignment,
            size_of_image: self.size_of_image,
            dll_characteristics: self.dll_characteristics,
            sections: self.sections.deep_view(),
            exports: self.exports.deep_view(),
            imports: self.imports.deep_view(),
            has_relocations: self.has_relocations,
            has_resources: self.has_resources,
        }
    }
}

/// The text that explains a `PeError`.
pub open spec fn error_text(e: PeError) -> Seq<char> {
    match e {
        PeError::ReadOutOfBounds { offset, width } => "чтение u"@ + decimal((width * 8) as nat)
            + " за границей файла @ 0x"@ + hex(offset as nat),
        PeError::NoDosSignature => "нет DOS-сигнатуры MZ"@,
        PeError::NoPeSignature { offset } => "нет PE-сигнатуры по смещению 0x"@ + hex(
            offset as nat,
        ),
        PeError::UnknownMagic { magic } => "неизвестный Magic опционального заголовка: 0x"@ + hex(
            magic as nat,
        ),
        PeError::SectionHeaderOutOfBounds { index } => "заголовок секции #"@ + decimal(
            index as nat,
        ) + " за границей файла"@,
        PeError::ExportDirectoryOutside => "export dir вне секций"@,
        PeError::ExportNamesOutside => "AddressOfNames вне секций"@,
        PeError::ImportDirectoryOutside => "import dir вне секций"@,
    }
}

impl PeError {
    /// Explains the error in words.
    pub fn message(&self) -> (r: String)
        ensures
            r@ == error_text(*self),
    {
        match *self {
            PeError::ReadOutOfBounds { offset, width } => {
                let mut r = String::from_str("чтение u");
                push_decimal(&mut r, width as u64 * 8);
                r.append(" за границей файла @ 0x");
                push_hex(&mut r, offset);
                r
            },
            PeError::NoDosSignature => String::from_str("нет DOS-сигнатуры MZ"),
            PeError::NoPeSignature { offset } => {
                let mut r = String::from_str("нет PE-сигнатуры по смещению 0x");
                push_hex(&mut r, offset);
                r
            },
            PeError::UnknownMagic { magic } => {
                let mut r = String::from_str("неизвестный Magic опционального заголовка: 0x");
                push_hex(&mut r, magic as u64);
                r
            },
            PeError::SectionHeaderOutOfBounds { index } => {
                let mut r = String::from_str("заголовок секции #");
                push_decimal(&mut r, index);
                r.append(" за границей файла");
                r
            },
            PeError::ExportDirectoryOutside => String::from_str("export dir вне секций"),
            PeError::ExportNamesOutside => String::from_str("AddressOfNames вне секций"),
            PeError::ImportDirectoryOutside => String::from_str("import dir вне секций"),
        }
    }
}

} // verus!
