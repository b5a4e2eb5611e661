//! Reading an executable image. The `elf` crate parses the file; what it
//! finds is handed on as plain values.

use crate::error::ConvertError;
use crate::image::{
    sections_view, symbols_view, ElfImage, ElfImageView, Section, SectionView, Segment, Symbol,
    SymbolView,
};
use elf::endian::AnyEndian;
use elf::ElfBytes;
use vstd::prelude::*;

verus! {

/// The machine and the entry point that the file header of an image names,
/// as the `elf` crate reads them; `None` for bytes that it does not parse.
pub uninterp spec fn elf_header_of(data: Seq<u8>) -> Option<(u16, u64)>;

/// The program header table of an image, as the `elf` crate reads it;
/// `None` where the image has none.
pub uninterp spec fn elf_segments_of(data: Seq<u8>) -> Option<Seq<Segment>>;

/// The section header table of an image with the name and the bytes of
/// each section, as the `elf` crate reads them; `None` where the image has
/// no such table, no string table for it, or a name that cannot be read.
pub uninterp spec fn elf_sections_of(data: Seq<u8>) -> Option<Seq<SectionView>>;

/// The symbol table of an image, as the `elf` crate reads it; `None` where
/// the image has none that can be read.
pub uninterp spec fn elf_symbols_of(data: Seq<u8>) -> Option<Seq<SymbolView>>;

/// Calls `elf::ElfBytes::minimal_parse` and hands on two fields of the file
/// header that it returns: the machine and the entry point. The result is
/// `None` where the parser returns an error. Nothing is claimed of the
/// values but that the same bytes give the same values.
#[verifier::external_body]
fn read_header(data: &[u8]) -> (header: Option<(u16, u64)>)
    ensures
        header == elf_header_of(data@),
{
    let file = ElfBytes::<AnyEndian>::minimal_parse(data).ok()?;
    Some((file.ehdr.e_machine, file.ehdr.e_entry))
}

/// Calls `elf::ElfBytes::segments` on the parsed image and hands on the
/// fields of each program header that its iterator yields. The result is
/// `None` where the image does not parse or has no program header table.
/// Nothing is claimed of the values but that the same bytes give the same
/// values.
#[verifier::external_body]
fn read_segments(data: &[u8]) -> (segments: Option<Vec<Segment>>)
    ensures
        match segments {
            Some(list) => elf_segments_of(data@) == Some(list@),
            None => elf_segments_of(data@).is_none(),
        },
{
    let file = ElfBytes::<AnyEndian>::minimal_parse(data).ok()?;
    let mut list = Vec::new();
    for p in file.segments()?.iter() {
        let (p_type, p_flags, p_offset) = (p.p_type, p.p_flags, p.p_offset);
        let (p_vaddr, p_paddr, p_filesz, p_memsz) = (p.p_vaddr, p.p_paddr, p.p_filesz, p.p_memsz);
        list.push(Segment { p_type, p_flags, p_offset, p_vaddr, p_paddr, p_filesz, p_memsz });
    }
    Some(list)
}

/// Calls `elf::ElfBytes::section_headers_with_strtab` on the parsed image
/// and hands on, for each section header that the iterator yields, its
/// fields, its name from `elf::string_table::StringTable::get`, and its
/// bytes from `elf::ElfBytes::section_data`, which are taken as empty where
/// that returns an error. The result is `None` where the image does not
/// parse, where the table or its string table is missing, and where a name
/// cannot be read. Nothing is claimed of the values but that the same bytes
/// give the same values.
#[verifier::external_body]
fn read_sections(data: &[u8]) -> (sections: Option<Vec<Section>>)
    ensures
        match sections {
            Some(list) => elf_sections_of(data@) == Some(sections_view(list@)),
            None => elf_sections_of(data@).is_none(),
        },
{
    let file = ElfBytes::<AnyEndian>::minimal_parse(data).ok()?;
    let (headers, names) = file.section_headers_with_strtab().ok()?;
    let names = names?;
    let mut list = Vec::new();
    for s in headers?.iter() {
        let name = names.get(s.sh_name as usize).ok()?.as_bytes().to_vec();
        let data = file.section_data(&s).map_or(Vec::new(), |found| found.0.to_vec());
        let (sh_type, sh_flags, sh_addr, sh_offset) = (s.sh_type, s.sh_flags, s.sh_addr, s.sh_offset);
        list.push(Section { name, sh_type, sh_flags, sh_addr, sh_offset, sh_size: s.sh_size, data });
    }
    Some(list)
}

/// Calls `elf::ElfBytes::symbol_table` on the parsed image and hands on,
/// for each symbol that the iterator yields, its value and its name from
/// `elf::string_table::StringTable::get`; a name that cannot be read is
/// `None`. The result is `None` where the image does not parse and where
/// the call returns an error or no table. Nothing is claimed of the values
/// but that the same bytes give the same values.
#[verifier::external_body]
fn read_symbols(data: &[u8]) -> (symbols: Option<Vec<Symbol>>)
    ensures
        match symbols {
            Some(list) => elf_symbols_of(data@) == Some(symbols_view(list@)),
            None => elf_symbols_of(data@).is_none(),
        },
{
    let file = ElfBytes::<AnyEndian>::minimal_parse(data).ok()?;
    let (table, names) = file.symbol_table().ok()??;
    let mut list = Vec::new();
    for s in table.iter() {
        let name = names.get(s.st_name as usize).ok().map(|name| name.as_bytes().to_vec());
        list.push(Symbol { name, value: s.st_value });
    }
    Some(list)
}

/// What an image file holds for the conversion: the machine and the entry
/// point, the sections, the segments and the symbols. A file that does not
/// parse, one without section headers and one without program headers are
/// refused, in this order.
pub open spec fn spec_parse_elf(data: Seq<u8>) -> Result<ElfImageView, ConvertError> {
    match elf_header_of(data) {
        None => Err(ConvertError::UnparsableImage),
        Some((machine, entry)) => match elf_sections_of(data) {
            None => Err(ConvertError::MissingSectionHeaders),
            Some(sections) => match elf_segments_of(data) {
                None => Err(ConvertError::MissingProgramHeaders),
                Some(segments) => Ok(
                    ElfImageView { machine, entry, segments, sections, symbols: elf_symbols_of(data) },
                ),
            },
        },
    }
}

/// Reads from an image file what the conversion needs.
pub fn parse_elf(data: &[u8]) -> (parsed: Result<ElfImage, ConvertError>)
    ensures
        match parsed {
            Ok(image) => spec_parse_elf(data@) == Ok::<ElfImageView, ConvertError>(image@),
            Err(error) => spec_parse_elf(data@) == Err::<ElfImageView, ConvertError>(error),
        },
{
    let header: (u16, u64) = match read_header(data) {
        Some(header) => header,
        None => {
            return Err(ConvertError::UnparsableImage);
        },
    };
    let sections: Vec<Section> = match read_sections(data) {
        Some(sections) => sections,
        None => {
            return Err(ConvertError::MissingSectionHeaders);
        },
    };
    let segments: Vec<Segment> = match read_segments(data) {
        Some(segments) => segments,
        None => {
            return Err(ConvertError::MissingProgramHeaders);
        },
    };
    let symbols: Option<Vec<Symbol>> = read_symbols(data);
    Ok(ElfImage { machine: header.0, entry: header.1, segments, sections, symbols })
}

} // verus!
