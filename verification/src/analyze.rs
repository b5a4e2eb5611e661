//! What the conversion derives from an image before it builds the header:
//! the stack length, the minimum RAM size, the fixed addresses and the
//! number of writeable flash regions.

use crate::error::ConvertError;
use crate::image::{
    bytes_equal, contains, section_exists_in_segment, section_in_segment, sections_view,
    spec_contains, spec_section_exists_in_segment, spec_section_in_segment, symbols_view, Section,
    SectionView, Segment, Symbol, SymbolView, PF_W, PF_X, PT_LOAD,
};
use crate::util::{checked_align_to, lemma_align_to_monotonic, lemma_alignment_needed, spec_align_to};
use vstd::prelude::*;

verus! {

/// The stack length where neither the caller nor the image gives one.
pub const DEFAULT_STACK_LENGTH: u32 = 2048;

/// The address at which position-independent code is linked to lie in
/// flash.
pub const PIC_FLASH_BASE: u64 = 0x8000_0000;

/// `.stack`, the name of the section whose size is the stack length.
pub open spec fn stack_section_name() -> Seq<u8> {
    seq![0x2eu8, 0x73u8, 0x74u8, 0x61u8, 0x63u8, 0x6bu8]
}

/// `.wfr`, which the name of every writeable flash region holds.
pub open spec fn wfr_pattern() -> Seq<u8> {
    seq![0x2eu8, 0x77u8, 0x66u8, 0x72u8]
}

/// `_sram_origin`, the name of the symbol that marks the start of RAM.
pub open spec fn sram_origin_name() -> Seq<u8> {
    seq![
        0x5fu8,
        0x73u8,
        0x72u8,
        0x61u8,
        0x6du8,
        0x5fu8,
        0x6fu8,
        0x72u8,
        0x69u8,
        0x67u8,
        0x69u8,
        0x6eu8,
    ]
}

/// The low 32 bits of `value`.
pub open spec fn low_word(value: u64) -> u32 {
    (value % 0x1_0000_0000) as u32
}

/// The low 32 bits of `value`.
pub fn low_u32(value: u64) -> (low: u32)
    ensures
        low == low_word(value),
{
    (value % 0x1_0000_0000) as u32
}

// ---------------------------------------------------------------------
// Stack length
// ---------------------------------------------------------------------

/// Whether `index` is the place of the first section called `name`.
pub open spec fn is_first_named(sections: Seq<SectionView>, name: Seq<u8>, index: int) -> bool {
    &&& 0 <= index < sections.len()
    &&& sections[index].name == name
    &&& forall|j: int| 0 <= j < index ==> (#[trigger] sections[j]).name != name
}

/// The place of the first section called `name`, if there is one.
pub open spec fn first_named(sections: Seq<SectionView>, name: Seq<u8>) -> Option<int> {
    if exists|index: int| is_first_named(sections, name, index) {
        Some(choose|index: int| is_first_named(sections, name, index))
    } else {
        None
    }
}

/// There is one first section of a name at most.
pub proof fn lemma_first_named(sections: Seq<SectionView>, name: Seq<u8>, index: int)
    requires
        is_first_named(sections, name, index),
    ensures
        first_named(sections, name) == Some(index),
{
    let chosen = choose|i: int| is_first_named(sections, name, i);
    if chosen < index {
        assert(sections[chosen].name != name);
    }
    if index < chosen {
        assert(sections[index].name != name);
    }
}

/// Finds the first section called `name`.
pub fn find_section(sections: &Vec<Section>, name: &[u8]) -> (found: Option<usize>)
    ensures
        match found {
            Some(index) => first_named(sections_view(sections@), name@) == Some(index as int),
            None => first_named(sections_view(sections@), name@).is_none(),
        },
{
    let ghost views = sections_view(sections@);
    let mut index: usize = 0;
    while index < sections.len()
        invariant
            index <= sections@.len(),
            views == sections_view(sections@),
            forall|j: int| 0 <= j < index ==> (#[trigger] views[j]).name != name@,
        decreases sections@.len() - index,
    {
        if bytes_equal(sections[index].name.as_slice(), name) {
            proof {
                assert(views[index as int].name == name@);
                lemma_first_named(views, name@, index as int);
            }
            return Some(index);
        }
        index += 1;
    }
    assert forall|i: int| !is_first_named(views, name@, i) by {
        if 0 <= i < views.len() {
            assert(views[i].name != name@);
        }
    }
    None
}

/// The stack length: what the caller asks for; else the size of the first
/// section called `.stack`, of which the low 32 bits count; else the default.
pub open spec fn spec_stack_length(explicit: Option<u32>, sections: Seq<SectionView>) -> u32 {
    match explicit {
        Some(length) => length,
        None => match first_named(sections, stack_section_name()) {
            Some(index) => low_word(sections[index].sh_size),
            None => DEFAULT_STACK_LENGTH,
        },
    }
}

/// Determines the stack length.
pub fn stack_length(explicit: Option<u32>, sections: &Vec<Section>) -> (length: u32)
    ensures
        length == spec_stack_length(explicit, sections_view(sections@)),
{
    match explicit {
        Some(length) => length,
        None => {
            let name: Vec<u8> = vec![0x2eu8, 0x73u8, 0x74u8, 0x61u8, 0x63u8, 0x6bu8];
            assert(name@ =~= stack_section_name());
            match find_section(sections, name.as_slice()) {
                Some(index) => low_u32(sections[index].sh_size),
                None => DEFAULT_STACK_LENGTH,
            }
        },
    }
}

// ---------------------------------------------------------------------
// Minimum RAM size
// ---------------------------------------------------------------------

/// Whether `segment` is copied from flash into RAM when the application is
/// loaded: it is loadable and writable, takes up memory, and its virtual
/// address is not its physical address.
pub open spec fn lives_in_ram(segment: Segment) -> bool {
    segment.p_type == PT_LOAD && segment.p_vaddr != segment.p_paddr && segment.p_memsz > 0 && (
    segment.p_flags & PF_W) > 0
}

/// The sum of the memory sizes of the segments that live in RAM.
pub open spec fn ram_in_segments(segments: Seq<Segment>) -> nat
    decreases segments.len(),
{
    if segments.len() == 0 {
        0
    } else {
        ram_in_segments(segments.drop_last()) + if lives_in_ram(segments.last()) {
            segments.last().p_memsz as nat
        } else {
            0nat
        }
    }
}

/// What the stack and the two heaps take: the stack length rounded up to
/// a multiple of 8, and each heap size rounded up to a multiple of 4.
pub open spec fn reserved_ram(stack_len: u32, app_heap_len: u32, kernel_heap_len: u32) -> nat {
    (spec_align_to(stack_len as int, 8) + spec_align_to(app_heap_len as int, 4) + spec_align_to(
        kernel_heap_len as int,
        4,
    )) as nat
}

/// The RAM that the application needs at least: its segments that live in
/// RAM, its stack and its heaps.
pub open spec fn spec_minimum_ram_size(
    segments: Seq<Segment>,
    stack_len: u32,
    app_heap_len: u32,
    kernel_heap_len: u32,
) -> nat {
    ram_in_segments(segments) + reserved_ram(stack_len, app_heap_len, kernel_heap_len)
}

/// A longer list of segments takes at least as much RAM.
pub proof fn lemma_ram_in_segments_grows(segments: Seq<Segment>, count: int)
    requires
        0 <= count <= segments.len(),
    ensures
        ram_in_segments(segments.take(count)) <= ram_in_segments(segments),
    decreases segments.len() - count,
{
    if count < segments.len() {
        lemma_ram_in_segments_grows(segments, count + 1);
        assert(segments.take(count + 1).drop_last() =~= segments.take(count));
    } else {
        assert(segments.take(count) =~= segments);
    }
}

/// The minimum RAM size is at least the sum of the memory sizes of the
/// segments that live in RAM, and it grows with the stack length and with
/// each heap size: it never falls when none of the three falls, and it
/// rises whenever the stack length rises by 8 or more or a heap size by 4
/// or more.
pub proof fn lemma_minimum_ram_size_grows(
    segments: Seq<Segment>,
    stack_len: u32,
    app_heap_len: u32,
    kernel_heap_len: u32,
    more_stack: u32,
    more_app_heap: u32,
    more_kernel_heap: u32,
)
    requires
        stack_len <= more_stack,
        app_heap_len <= more_app_heap,
        kernel_heap_len <= more_kernel_heap,
    ensures
        spec_minimum_ram_size(segments, stack_len, app_heap_len, kernel_heap_len)
            >= ram_in_segments(segments),
        spec_minimum_ram_size(segments, stack_len, app_heap_len, kernel_heap_len)
            <= spec_minimum_ram_size(segments, more_stack, more_app_heap, more_kernel_heap),
        (more_stack - stack_len >= 8 || more_app_heap - app_heap_len >= 4 || more_kernel_heap
            - kernel_heap_len >= 4) ==> spec_minimum_ram_size(
            segments,
            stack_len,
            app_heap_len,
            kernel_heap_len,
        ) < spec_minimum_ram_size(segments, more_stack, more_app_heap, more_kernel_heap),
{
    lemma_align_to_monotonic(stack_len as int, more_stack as int, 8);
    lemma_align_to_monotonic(app_heap_len as int, more_app_heap as int, 4);
    lemma_align_to_monotonic(kernel_heap_len as int, more_kernel_heap as int, 4);
    lemma_alignment_needed(stack_len as int, 8);
    lemma_alignment_needed(app_heap_len as int, 4);
    lemma_alignment_needed(kernel_heap_len as int, 4);
    lemma_alignment_needed(more_stack as int, 8);
    lemma_alignment_needed(more_app_heap as int, 4);
    lemma_alignment_needed(more_kernel_heap as int, 4);
}

/// Computes the minimum RAM size, or `None` where it does not fit in 32
/// bits.
pub fn minimum_ram_size(
    segments: &Vec<Segment>,
    stack_len: u32,
    app_heap_len: u32,
    kernel_heap_len: u32,
) -> (size: Option<u32>)
    ensures
        size == if spec_minimum_ram_size(segments@, stack_len, app_heap_len, kernel_heap_len)
            <= u32::MAX {
            Some(
                spec_minimum_ram_size(segments@, stack_len, app_heap_len, kernel_heap_len) as u32,
            )
        } else {
            None
        },
{
    proof {
        lemma_alignment_needed(stack_len as int, 8);
        lemma_alignment_needed(app_heap_len as int, 4);
        lemma_alignment_needed(kernel_heap_len as int, 4);
    }
    let mut total: u64 = 0;
    let mut index: usize = 0;
    assert(segments@.take(0) =~= Seq::<Segment>::empty());
    while index < segments.len()
        invariant
            index <= segments@.len(),
            total == ram_in_segments(segments@.take(index as int)),
            total <= u32::MAX,
        decreases segments@.len() - index,
    {
        let segment: Segment = segments[index];
        proof {
            assert(segments@.take(index + 1).drop_last() =~= segments@.take(index as int));
            lemma_ram_in_segments_grows(segments@, index + 1);
        }
        if segment.p_type == PT_LOAD && segment.p_vaddr != segment.p_paddr && segment.p_memsz > 0
            && (segment.p_flags & PF_W) > 0 {
            if segment.p_memsz > 0xFFFF_FFFF - total {
                return None;
            }
            total = total + segment.p_memsz;
        }
        index += 1;
    }
    assert(segments@.take(index as int) =~= segments@);
    let stack: u32 = match checked_align_to(stack_len, 8) {
        Some(aligned) => aligned,
        None => {
            return None;
        },
    };
    let app_heap: u32 = match checked_align_to(app_heap_len, 4) {
        Some(aligned) => aligned,
        None => {
            return None;
        },
    };
    let kernel_heap: u32 = match checked_align_to(kernel_heap_len, 4) {
        Some(aligned) => aligned,
        None => {
            return None;
        },
    };
    let sum: u64 = total + stack as u64 + app_heap as u64 + kernel_heap as u64;
    if sum > 0xFFFF_FFFF {
        None
    } else {
        Some(sum as u32)
    }
}

// ---------------------------------------------------------------------
// Fixed addresses
// ---------------------------------------------------------------------

/// Whether `segment` is loaded from the file: it is loadable and takes up
/// space in the file.
pub open spec fn loads_from_file(segment: Segment) -> bool {
    segment.p_type == PT_LOAD && segment.p_filesz != 0
}

/// Whether `segment` holds code that lies in flash: it is loaded from the
/// file, is executable, and a section that is not empty belongs to it.
pub open spec fn holds_code(sections: Seq<SectionView>, segment: Segment) -> bool {
    loads_from_file(segment) && (segment.p_flags & PF_X) > 0 && spec_section_exists_in_segment(
        sections,
        segment,
    )
}

/// Whether the image is position independent: one of its segments that
/// hold code is linked at the address that stands for that.
pub open spec fn spec_is_pic(sections: Seq<SectionView>, segments: Seq<Segment>) -> bool {
    exists|i: int|
        0 <= i < segments.len() && holds_code(sections, #[trigger] segments[i]) && segments[i].p_vaddr
            == PIC_FLASH_BASE
}

/// The lowest address of the sections that are not empty and belong to
/// `segment`, or `None` where there is none.
pub open spec fn lowest_section_address(sections: Seq<SectionView>, segment: Segment) -> Option<
    u64,
>
    decreases sections.len(),
{
    if sections.len() == 0 {
        None
    } else {
        let before = lowest_section_address(sections.drop_last(), segment);
        let last = sections.last();
        if last.sh_size > 0 && spec_section_in_segment(last, segment) {
            match before {
                Some(address) if address <= last.sh_addr => Some(address),
                _ => Some(last.sh_addr),
            }
        } else {
            before
        }
    }
}

/// Where the code of `segment` begins in flash: the lowest address of the
/// sections that belong to it, of which the low 32 bits count.
pub open spec fn code_address(sections: Seq<SectionView>, segment: Segment) -> u32 {
    match lowest_section_address(sections, segment) {
        Some(address) => low_word(address),
        None => low_word(segment.p_paddr),
    }
}

/// The lowest code address of the segments that hold code, or `None` where
/// no segment does.
pub open spec fn lowest_code_address(sections: Seq<SectionView>, segments: Seq<Segment>) -> Option<
    u32,
>
    decreases segments.len(),
{
    if segments.len() == 0 {
        None
    } else {
        let before = lowest_code_address(sections, segments.drop_last());
        let last = segments.last();
        if holds_code(sections, last) {
            match before {
                Some(address) if address <= code_address(sections, last) => Some(address),
                _ => Some(code_address(sections, last)),
            }
        } else {
            before
        }
    }
}

/// The address in flash at which the application must lie: none for a
/// position-independent image, else the lowest code address.
pub open spec fn spec_fixed_address_flash(
    sections: Seq<SectionView>,
    segments: Seq<Segment>,
) -> Option<u32> {
    if spec_is_pic(sections, segments) {
        None
    } else {
        lowest_code_address(sections, segments)
    }
}

/// What the image says of flash: whether it is position independent, and
/// the address at which it must lie if it is not.
pub struct FlashPlacement {
    pub pic: bool,
    pub fixed_address: Option<u32>,
}

/// Finds where the code of `segment` begins in flash.
fn find_code_address(sections: &Vec<Section>, segment: &Segment) -> (address: u32)
    ensures
        address == code_address(sections_view(sections@), *segment),
{
    let ghost views = sections_view(sections@);
    let mut lowest: Option<u64> = None;
    let mut index: usize = 0;
    assert(views.take(0) =~= Seq::<SectionView>::empty());
    while index < sections.len()
        invariant
            index <= sections@.len(),
            views == sections_view(sections@),
            lowest == lowest_section_address(views.take(index as int), *segment),
        decreases sections@.len() - index,
    {
        proof {
            assert(views.take(index + 1).drop_last() =~= views.take(index as int));
            assert(views.take(index + 1).last() == sections@[index as int]@);
        }
        if sections[index].sh_size > 0 && section_in_segment(&sections[index], segment) {
            let address: u64 = sections[index].sh_addr;
            lowest = match lowest {
                Some(before) => if before <= address {
                    Some(before)
                } else {
                    Some(address)
                },
                None => Some(address),
            };
        }
        index += 1;
    }
    assert(views.take(index as int) =~= views);
    match lowest {
        Some(address) => low_u32(address),
        None => low_u32(segment.p_paddr),
    }
}

/// Determines whether the image is position independent and, if it is
/// not, the address in flash at which it must lie.
pub fn flash_placement(sections: &Vec<Section>, segments: &Vec<Segment>) -> (placement:
    FlashPlacement)
    ensures
        placement.pic == spec_is_pic(sections_view(sections@), segments@),
        placement.fixed_address == spec_fixed_address_flash(sections_view(sections@), segments@),
{
    let ghost views = sections_view(sections@);
    let mut pic: bool = false;
    let mut lowest: Option<u32> = None;
    let mut index: usize = 0;
    assert(segments@.take(0) =~= Seq::<Segment>::empty());
    while index < segments.len()
        invariant
            index <= segments@.len(),
            views == sections_view(sections@),
            lowest == lowest_code_address(views, segments@.take(index as int)),
            pic == spec_is_pic(views, segments@.take(index as int)),
        decreases segments@.len() - index,
    {
        let segment: Segment = segments[index];
        let ghost before = segments@.take(index as int);
        let ghost after = segments@.take(index + 1);
        proof {
            assert(after.drop_last() =~= before);
            assert(after.last() == segment);
        }
        let mut code: bool = false;
        if segment.p_type == PT_LOAD && segment.p_filesz != 0 && (segment.p_flags & PF_X) > 0 {
            code = section_exists_in_segment(sections, &segment);
        }
        assert(code == holds_code(views, segment));
        if code {
            if segment.p_vaddr == PIC_FLASH_BASE {
                pic = true;
            }
            let address: u32 = find_code_address(sections, &segment);
            lowest = match lowest {
                Some(found) => if found <= address {
                    Some(found)
                } else {
                    Some(address)
                },
                None => Some(address),
            };
        }
        proof {
            if spec_is_pic(views, after) {
                let i = choose|i: int|
                    0 <= i < after.len() && holds_code(views, #[trigger] after[i]) && after[i].p_vaddr
                        == PIC_FLASH_BASE;
                if i < index {
                    assert(before[i] == after[i]);
                }
            }
            if spec_is_pic(views, before) {
                let i = choose|i: int|
                    0 <= i < before.len() && holds_code(views, #[trigger] before[i])
                        && before[i].p_vaddr == PIC_FLASH_BASE;
                assert(after[i] == before[i]);
            }
            if code && segment.p_vaddr == PIC_FLASH_BASE {
                assert(after[index as int] == segment);
            }
        }
        index += 1;
    }
    assert(segments@.take(index as int) =~= segments@);
    FlashPlacement {
        pic,
        fixed_address: if pic {
            None
        } else {
            lowest
        },
    }
}

/// Whether `index` is the place of the first symbol that ends the search
/// for the start of RAM: one called `_sram_origin`, or one without a name.
pub open spec fn ends_symbol_search(symbols: Seq<SymbolView>, index: int) -> bool {
    &&& 0 <= index < symbols.len()
    &&& (symbols[index].name.is_none() || symbols[index].name == Some(sram_origin_name()))
    &&& forall|j: int|
        0 <= j < index ==> (#[trigger] symbols[j]).name.is_some() && symbols[j].name != Some(
            sram_origin_name(),
        )
}

/// What the symbols say of the start of RAM. They are gone through in
/// their order up to the one called `_sram_origin`: the low 32 bits of its
/// value are the address, unless they are zero, which stands for no fixed
/// address. A symbol without a name that comes before it ends the search
/// with an error. Where no symbol has that name, there is no fixed address.
pub open spec fn sram_origin(symbols: Seq<SymbolView>) -> Result<Option<u32>, ConvertError> {
    if exists|index: int| ends_symbol_search(symbols, index) {
        let index = choose|index: int| ends_symbol_search(symbols, index);
        if symbols[index].name.is_none() {
            Err(ConvertError::BadSymbolName)
        } else if low_word(symbols[index].value) != 0 {
            Ok(Some(low_word(symbols[index].value)))
        } else {
            Ok(None)
        }
    } else {
        Ok(None)
    }
}

/// The address in RAM at which the application must lie: what the symbols
/// say of the start of RAM, and none for an image without a symbol table.
pub open spec fn spec_fixed_address_ram(symbols: Option<Seq<SymbolView>>) -> Result<
    Option<u32>,
    ConvertError,
> {
    match symbols {
        None => Ok(None),
        Some(symbols) => sram_origin(symbols),
    }
}

/// The search for the start of RAM ends at one place at most.
pub proof fn lemma_ends_symbol_search(symbols: Seq<SymbolView>, index: int)
    requires
        ends_symbol_search(symbols, index),
    ensures
        (choose|i: int| ends_symbol_search(symbols, i)) == index,
{
    let chosen = choose|i: int| ends_symbol_search(symbols, i);
    if chosen < index {
        assert(symbols[chosen].name.is_some());
    }
    if index < chosen {
        assert(symbols[index].name.is_some());
    }
}

/// Looks for the start of RAM among the symbols.
fn find_sram_origin(list: &Vec<Symbol>) -> (address: Result<Option<u32>, ConvertError>)
    ensures
        address == sram_origin(symbols_view(list@)),
{
    let ghost views = symbols_view(list@);
    let wanted: Vec<u8> = vec![
        0x5fu8,
        0x73u8,
        0x72u8,
        0x61u8,
        0x6du8,
        0x5fu8,
        0x6fu8,
        0x72u8,
        0x69u8,
        0x67u8,
        0x69u8,
        0x6eu8,
    ];
    assert(wanted@ =~= sram_origin_name());
    let mut index: usize = 0;
    while index < list.len()
        invariant
            index <= list@.len(),
            views == symbols_view(list@),
            wanted@ == sram_origin_name(),
            forall|j: int|
                0 <= j < index ==> (#[trigger] views[j]).name.is_some() && views[j].name != Some(
                    sram_origin_name(),
                ),
        decreases list@.len() - index,
    {
        match &list[index].name {
            None => {
                proof {
                    assert(views[index as int].name.is_none());
                    lemma_ends_symbol_search(views, index as int);
                }
                return Err(ConvertError::BadSymbolName);
            },
            Some(name) => {
                if bytes_equal(name.as_slice(), wanted.as_slice()) {
                    proof {
                        assert(views[index as int].name == Some(sram_origin_name()));
                        lemma_ends_symbol_search(views, index as int);
                    }
                    let value: u32 = low_u32(list[index].value);
                    if value != 0 {
                        return Ok(Some(value));
                    } else {
                        return Ok(None);
                    }
                }
                assert(views[index as int].name != Some(sram_origin_name()));
            },
        }
        index += 1;
    }
    assert forall|i: int| !ends_symbol_search(views, i) by {
        if 0 <= i < views.len() {
            assert(views[i].name.is_some() && views[i].name != Some(sram_origin_name()));
        }
    }
    Ok(None)
}

/// The symbol table of an image as a mathematical value.
pub open spec fn symbol_table_view(symbols: Option<Vec<Symbol>>) -> Option<Seq<SymbolView>> {
    match symbols {
        Some(list) => Some(symbols_view(list@)),
        None => None,
    }
}

/// Determines the address in RAM at which the application must lie.
pub fn fixed_address_ram(symbols: &Option<Vec<Symbol>>) -> (address: Result<
    Option<u32>,
    ConvertError,
>)
    ensures
        address == spec_fixed_address_ram(symbol_table_view(*symbols)),
{
    match symbols {
        None => Ok(None),
        Some(list) => find_sram_origin(list),
    }
}

// ---------------------------------------------------------------------
// Writeable flash regions
// ---------------------------------------------------------------------

/// Whether `section` is a writeable flash region of `segment`: it is not
/// empty, belongs to the segment, and its name holds `.wfr`.
pub open spec fn is_region(section: SectionView, segment: Segment) -> bool {
    section.sh_size > 0 && spec_section_in_segment(section, segment) && spec_contains(
        section.name,
        wfr_pattern(),
    )
}

/// The number of writeable flash regions of `segment`.
pub open spec fn regions_in_segment(sections: Seq<SectionView>, segment: Segment) -> nat
    decreases sections.len(),
{
    if sections.len() == 0 {
        0
    } else {
        regions_in_segment(sections.drop_last(), segment) + if is_region(
            sections.last(),
            segment,
        ) {
            1nat
        } else {
            0nat
        }
    }
}

/// The number of writeable flash regions of the segments that are loaded
/// from the file. A section counts once for each such segment that it
/// belongs to.
pub open spec fn spec_region_count(sections: Seq<SectionView>, segments: Seq<Segment>) -> nat
    decreases segments.len(),
{
    if segments.len() == 0 {
        0
    } else {
        spec_region_count(sections, segments.drop_last()) + if loads_from_file(segments.last()) {
            regions_in_segment(sections, segments.last())
        } else {
            0nat
        }
    }
}

/// A longer list of segments has at least as many regions.
pub proof fn lemma_region_count_grows(
    sections: Seq<SectionView>,
    segments: Seq<Segment>,
    count: int,
)
    requires
        0 <= count <= segments.len(),
    ensures
        spec_region_count(sections, segments.take(count)) <= spec_region_count(sections, segments),
    decreases segments.len() - count,
{
    if count < segments.len() {
        lemma_region_count_grows(sections, segments, count + 1);
        assert(segments.take(count + 1).drop_last() =~= segments.take(count));
    } else {
        assert(segments.take(count) =~= segments);
    }
}

/// Decides whether `section` is a writeable flash region of `segment`.
pub fn is_writeable_flash_region(section: &Section, segment: &Segment) -> (region: bool)
    ensures
        region == is_region(section@, *segment),
{
    if section.sh_size > 0 && section_in_segment(section, segment) {
        let pattern: Vec<u8> = vec![0x2eu8, 0x77u8, 0x66u8, 0x72u8];
        assert(pattern@ =~= wfr_pattern());
        contains(section.name.as_slice(), pattern.as_slice())
    } else {
        false
    }
}

/// Counts the writeable flash regions of `segment`.
fn count_regions_in_segment(sections: &Vec<Section>, segment: &Segment) -> (count: usize)
    ensures
        count == regions_in_segment(sections_view(sections@), *segment),
{
    let ghost views = sections_view(sections@);
    let mut count: usize = 0;
    let mut index: usize = 0;
    assert(views.take(0) =~= Seq::<SectionView>::empty());
    while index < sections.len()
        invariant
            index <= sections@.len(),
            views == sections_view(sections@),
            count == regions_in_segment(views.take(index as int), *segment),
            count <= index,
        decreases sections@.len() - index,
    {
        proof {
            assert(views.take(index + 1).drop_last() =~= views.take(index as int));
            assert(views.take(index + 1).last() == sections@[index as int]@);
        }
        if is_writeable_flash_region(&sections[index], segment) {
            count += 1;
        }
        index += 1;
    }
    assert(views.take(index as int) =~= views);
    count
}

/// Counts the writeable flash regions of the image, or returns `None`
/// where there are more than the machine can count.
pub fn region_count(sections: &Vec<Section>, segments: &Vec<Segment>) -> (count: Option<usize>)
    ensures
        count == if spec_region_count(sections_view(sections@), segments@) <= usize::MAX {
            Some(spec_region_count(sections_view(sections@), segments@) as usize)
        } else {
            None
        },
{
    let ghost views = sections_view(sections@);
    let mut count: usize = 0;
    let mut index: usize = 0;
    assert(segments@.take(0) =~= Seq::<Segment>::empty());
    while index < segments.len()
        invariant
            index <= segments@.len(),
            views == sections_view(sections@),
            count == spec_region_count(views, segments@.take(index as int)),
        decreases segments@.len() - index,
    {
        let segment: Segment = segments[index];
        proof {
            assert(segments@.take(index + 1).drop_last() =~= segments@.take(index as int));
            lemma_region_count_grows(views, segments@, index + 1);
        }
        if segment.p_type == PT_LOAD && segment.p_filesz != 0 {
            let found: usize = count_regions_in_segment(sections, &segment);
            if found > usize::MAX - count {
                return None;
            }
            count = count + found;
        }
        index += 1;
    }
    assert(segments@.take(index as int) =~= segments@);
    Some(count)
}

} // verus!
