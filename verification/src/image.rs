//! The parts of an executable image that the conversion reads: its
//! segments, its sections and its symbols, as plain values.

use vstd::prelude::*;

verus! {

/// Segment type: a loadable segment.
pub const PT_LOAD: u32 = 1;

/// Segment type: dynamic linking information.
pub const PT_DYNAMIC: u32 = 2;

/// Segment type: the thread-local storage template.
pub const PT_TLS: u32 = 7;

/// Segment type: the exception handling frame.
pub const PT_GNU_EH_FRAME: u32 = 0x6474e550;

/// Segment type: stack executability.
pub const PT_GNU_STACK: u32 = 0x6474e551;

/// Segment type: read-only after relocation.
pub const PT_GNU_RELRO: u32 = 0x6474e552;

/// Segment flag: executable.
pub const PF_X: u32 = 1;

/// Segment flag: writable.
pub const PF_W: u32 = 2;

/// Section type: a section that takes up no space in the file.
pub const SHT_NOBITS: u32 = 8;

/// Section flag: writable at run time.
pub const SHF_WRITE: u64 = 1;

/// Section flag: takes up memory at run time.
pub const SHF_ALLOC: u64 = 2;

/// Section flag: holds thread-local storage.
pub const SHF_TLS: u64 = 0x400;

/// Machine: Intel 80386.
pub const EM_386: u16 = 3;

/// Machine: ARM.
pub const EM_ARM: u16 = 40;

/// One entry of the program header table.
#[derive(Clone, Copy, Debug)]
pub struct Segment {
    pub p_type: u32,
    pub p_flags: u32,
    pub p_offset: u64,
    pub p_vaddr: u64,
    pub p_paddr: u64,
    pub p_filesz: u64,
    pub p_memsz: u64,
}

/// One entry of the section header table, with the name of the section and
/// the bytes that the section holds in the file.
#[derive(Debug)]
pub struct Section {
    /// The name in UTF-8.
    pub name: Vec<u8>,
    pub sh_type: u32,
    pub sh_flags: u64,
    pub sh_addr: u64,
    pub sh_offset: u64,
    pub sh_size: u64,
    /// What the section holds in the file; empty where that cannot be read.
    pub data: Vec<u8>,
}

/// One entry of the symbol table. The name is missing where the string
/// table does not give one.
#[derive(Debug)]
pub struct Symbol {
    /// The name in UTF-8.
    pub name: Option<Vec<u8>>,
    pub value: u64,
}

/// What the conversion reads of an executable image.
#[derive(Debug)]
pub struct ElfImage {
    pub machine: u16,
    pub entry: u64,
    pub segments: Vec<Segment>,
    pub sections: Vec<Section>,
    /// The symbol table, where the image has one that can be read.
    pub symbols: Option<Vec<Symbol>>,
}

/// A section as a mathematical value.
pub struct SectionView {
    pub name: Seq<u8>,
    pub sh_type: u32,
    pub sh_flags: u64,
    pub sh_addr: u64,
    pub sh_offset: u64,
    pub sh_size: u64,
    pub data: Seq<u8>,
}

/// A symbol as a mathematical value.
pub struct SymbolView {
    pub name: Option<Seq<u8>>,
    pub value: u64,
}

/// An image as a mathematical value.
pub struct ElfImageView {
    pub machine: u16,
    pub entry: u64,
    pub segments: Seq<Segment>,
    pub sections: Seq<SectionView>,
    pub symbols: Option<Seq<SymbolView>>,
}

impl View for Section {
    type V = SectionView;

    open spec fn view(&self) -> SectionView {
        SectionView {
            name: self.name@,
            sh_type: self.sh_type,
            sh_flags: self.sh_flags,
            sh_addr: self.sh_addr,
            sh_offset: self.sh_offset,
            sh_size: self.sh_size,
            data: self.data@,
        }
    }
}

impl View for Symbol {
    type V = SymbolView;

    open spec fn view(&self) -> SymbolView {
        SymbolView {
            name: match self.name {
                Some(name) => Some(name@),
                None => None,
            },
            value: self.value,
        }
    }
}

/// The sections of a list as mathematical values.
pub open spec fn sections_view(sections: Seq<Section>) -> Seq<SectionView> {
    Seq::new(sections.len(), |i: int| sections[i]@)
}

/// The symbols of a list as mathematical values.
pub open spec fn symbols_view(symbols: Seq<Symbol>) -> Seq<SymbolView> {
    Seq::new(symbols.len(), |i: int| symbols[i]@)
}

impl View for ElfImage {
    type V = ElfImageView;

    open spec fn view(&self) -> ElfImageView {
        ElfImageView {
            machine: self.machine,
            entry: self.entry,
            segments: self.segments@,
            sections: sections_view(self.sections@),
            symbols: match self.symbols {
                Some(symbols) => Some(symbols_view(symbols@)),
                None => None,
            },
        }
    }
}

/// Whether `section` belongs to `segment`: the kinds of the two go
/// together, and the section lies inside the segment both by its address,
/// where it takes up memory, and by its place in the file, where it takes
/// up space there. An empty section at the very end of a segment does not
/// belong to it.
pub open spec fn spec_section_in_segment(section: SectionView, segment: Segment) -> bool {
    let tls = section.sh_flags & SHF_TLS != 0;
    let alloc = section.sh_flags & SHF_ALLOC != 0;
    let kinds_agree = if tls {
        segment.p_type == PT_TLS || segment.p_type == PT_GNU_RELRO || segment.p_type == PT_LOAD
    } else {
        !(segment.p_type == PT_TLS || segment.p_type == PT_GNU_RELRO)
    };
    let alloc_agrees = alloc || !(segment.p_type == PT_LOAD || segment.p_type == PT_DYNAMIC
        || segment.p_type == PT_GNU_EH_FRAME || segment.p_type == PT_GNU_RELRO || segment.p_type
        == PT_GNU_STACK);
    let in_memory = !alloc || (section.sh_addr >= segment.p_vaddr && section.sh_addr
        - segment.p_vaddr + section.sh_size <= segment.p_memsz && section.sh_addr - segment.p_vaddr
        <= segment.p_memsz - 1);
    let in_file = section.sh_type == SHT_NOBITS || (section.sh_offset >= segment.p_offset
        && section.sh_offset - segment.p_offset + section.sh_size <= segment.p_filesz
        && section.sh_offset - segment.p_offset <= segment.p_filesz - 1);
    kinds_agree && alloc_agrees && in_memory && in_file
}

/// Whether the range of `size` bytes at `start` lies inside the range of
/// `outer_size` bytes at `outer_start` and begins before its end.
fn range_within(start: u64, size: u64, outer_start: u64, outer_size: u64) -> (within: bool)
    ensures
        within == (start >= outer_start && start - outer_start + size <= outer_size && start
            - outer_start <= outer_size - 1),
{
    start >= outer_start && size <= outer_size && start - outer_start <= outer_size - size
        && start - outer_start < outer_size
}

/// Decides whether `section` belongs to `segment`.
pub fn section_in_segment(section: &Section, segment: &Segment) -> (inside: bool)
    ensures
        inside == spec_section_in_segment(section@, *segment),
{
    let segtype: u32 = segment.p_type;
    let tls: bool = section.sh_flags & SHF_TLS != 0;
    let alloc: bool = section.sh_flags & SHF_ALLOC != 0;

    // Only loadable, read-only-after-relocation and thread-local segments
    // hold thread-local sections.
    if tls && (segtype == PT_TLS || segtype == PT_GNU_RELRO || segtype == PT_LOAD) {
    } else if !tls && !(segtype == PT_TLS || segtype == PT_GNU_RELRO) {
    } else {
        return false;
    }

    // Loadable and similar segments hold only sections that take up memory.
    if !alloc && (segtype == PT_LOAD || segtype == PT_DYNAMIC || segtype == PT_GNU_EH_FRAME
        || segtype == PT_GNU_RELRO || segtype == PT_GNU_STACK) {
        return false;
    }

    // A section that takes up memory lies inside the segment by its address.
    if alloc && !range_within(section.sh_addr, section.sh_size, segment.p_vaddr, segment.p_memsz) {
        return false;
    }

    // A section without bytes in the file has no place there to compare.
    if section.sh_type == SHT_NOBITS {
        return true;
    }
    range_within(section.sh_offset, section.sh_size, segment.p_offset, segment.p_filesz)
}

/// Whether some section that is not empty belongs to `segment`.
pub open spec fn spec_section_exists_in_segment(
    sections: Seq<SectionView>,
    segment: Segment,
) -> bool {
    exists|i: int|
        0 <= i < sections.len() && (#[trigger] sections[i]).sh_size > 0 && spec_section_in_segment(
            sections[i],
            segment,
        )
}

/// Decides whether some section that is not empty belongs to `segment`.
pub fn section_exists_in_segment(sections: &Vec<Section>, segment: &Segment) -> (exists: bool)
    ensures
        exists == spec_section_exists_in_segment(sections_view(sections@), *segment),
{
    let ghost views = sections_view(sections@);
    let mut index: usize = 0;
    while index < sections.len()
        invariant
            index <= sections@.len(),
            views == sections_view(sections@),
            forall|i: int|
                0 <= i < index ==> !((#[trigger] views[i]).sh_size > 0 && spec_section_in_segment(
                    views[i],
                    *segment,
                )),
        decreases sections@.len() - index,
    {
        if sections[index].sh_size > 0 && section_in_segment(&sections[index], segment) {
            assert(views[index as int].sh_size > 0 && spec_section_in_segment(
                views[index as int],
                *segment,
            ));
            return true;
        }
        index += 1;
    }
    false
}

/// Whether `pattern` occurs in `text` at `at`.
pub open spec fn occurs_at(text: Seq<u8>, pattern: Seq<u8>, at: int) -> bool {
    0 <= at && at + pattern.len() <= text.len() && text.subrange(at, at + pattern.len())
        == pattern
}

/// Whether `pattern` occurs somewhere in `text`.
pub open spec fn spec_contains(text: Seq<u8>, pattern: Seq<u8>) -> bool {
    exists|at: int| occurs_at(text, pattern, at)
}

/// Decides whether the bytes of `left` and `right` are the same.
pub fn bytes_equal(left: &[u8], right: &[u8]) -> (equal: bool)
    ensures
        equal == (left@ == right@),
{
    if left.len() != right.len() {
        return false;
    }
    let mut index: usize = 0;
    while index < left.len()
        invariant
            index <= left@.len(),
            left@.len() == right@.len(),
            forall|i: int| 0 <= i < index ==> left@[i] == right@[i],
        decreases left@.len() - index,
    {
        if left[index] != right[index] {
            return false;
        }
        index += 1;
    }
    assert(left@ =~= right@);
    true
}

/// Decides whether `pattern` occurs in `text` at `at`.
fn matches_at(text: &[u8], pattern: &[u8], at: usize) -> (found: bool)
    requires
        at + pattern@.len() <= text@.len(),
    ensures
        found == occurs_at(text@, pattern@, at as int),
{
    let length: usize = text.len();
    let mut index: usize = 0;
    while index < pattern.len()
        invariant
            index <= pattern@.len(),
            length == text@.len(),
            at + pattern@.len() <= text@.len(),
            forall|i: int| 0 <= i < index ==> text@[at + i] == pattern@[i],
        decreases pattern@.len() - index,
    {
        if text[at + index] != pattern[index] {
            assert(text@.subrange(at as int, at + pattern@.len())[index as int] != pattern@[index as int]);
            return false;
        }
        index += 1;
    }
    assert(text@.subrange(at as int, at + pattern@.len()) =~= pattern@);
    true
}

/// Decides whether `pattern` occurs somewhere in `text`.
pub fn contains(text: &[u8], pattern: &[u8]) -> (found: bool)
    ensures
        found == spec_contains(text@, pattern@),
{
    if pattern.len() > text.len() {
        return false;
    }
    let last: usize = text.len() - pattern.len();
    let mut at: usize = 0;
    while at < last
        invariant
            at <= last,
            last + pattern@.len() == text@.len(),
            forall|i: int| 0 <= i < at ==> !occurs_at(text@, pattern@, i),
        decreases last - at,
    {
        if matches_at(text, pattern, at) {
            return true;
        }
        at += 1;
    }
    matches_at(text, pattern, last)
}

/// The name of the section that holds the relocations of the section
/// called `name`: `.rel` before the name.
pub open spec fn spec_relocation_name(name: Seq<u8>) -> Seq<u8> {
    seq![0x2eu8, 0x72u8, 0x65u8, 0x6cu8] + name
}

/// Builds the name of the section that holds the relocations of the
/// section called `name`.
pub fn relocation_name(name: &[u8]) -> (relocation: Vec<u8>)
    ensures
        relocation@ == spec_relocation_name(name@),
{
    let mut relocation: Vec<u8> = Vec::new();
    relocation.push(0x2eu8);
    relocation.push(0x72u8);
    relocation.push(0x65u8);
    relocation.push(0x6cu8);
    relocation.extend_from_slice(name);
    assert(relocation@ =~= spec_relocation_name(name@));
    relocation
}

} // verus!
