//! The layout of what follows the header: the protected region, the
//! segments of the image with the padding between them, and the
//! relocation data.

use crate::analyze::{
    find_section, first_named, is_region, is_writeable_flash_region, loads_from_file, low_u32,
    low_word,
};
use crate::error::ConvertError;
use crate::image::{
    relocation_name, section_in_segment, sections_view, spec_relocation_name,
    spec_section_in_segment, Section, SectionView, Segment, PT_LOAD, SHF_WRITE,
};
use crate::util::{align_down, append_bytes, do_pad, zeros};
use vstd::prelude::*;
use vstd::slice::slice_subrange;

verus! {

/// The alignment that the start of the container is given where the
/// application must lie at a fixed address in flash.
pub const CONTAINER_ALIGNMENT: u32 = 256;

/// The padding between two segments from which on a warning is given.
pub const LARGE_PADDING: u64 = 4096;

// ---------------------------------------------------------------------
// Protected region
// ---------------------------------------------------------------------

/// The size of the protected region, the header included.
///
/// A size that the caller asks for is taken as it is, and refused where the
/// header does not fit in it. Else, for an image that is not position
/// independent, the region reaches from the last multiple of 256 before the
/// fixed flash address, or before address 0 where there is none, up to that
/// address, if the header fits in there. In every other case the region is
/// the header.
pub open spec fn spec_protected_region_size(
    requested: Option<u32>,
    header_length: u32,
    fixed_address_flash: Option<u32>,
    pic: bool,
) -> Result<u32, ConvertError> {
    match requested {
        Some(size) => if size < header_length {
            Err(ConvertError::ProtectedRegionTooSmall { requested: size, header_length })
        } else {
            Ok(size)
        },
        None => {
            let address: u32 = match fixed_address_flash {
                Some(address) => address,
                None => 0,
            };
            let before: u32 = (address % CONTAINER_ALIGNMENT) as u32;
            if !pic && before > header_length {
                Ok(before)
            } else {
                Ok(header_length)
            }
        },
    }
}

/// The protected region always holds the whole header, and a request for a
/// smaller one is refused.
pub proof fn lemma_protected_region_holds_header(
    requested: Option<u32>,
    header_length: u32,
    fixed_address_flash: Option<u32>,
    pic: bool,
)
    ensures
        match spec_protected_region_size(requested, header_length, fixed_address_flash, pic) {
            Ok(size) => size >= header_length && (requested matches Some(asked) ==> size == asked),
            Err(error) => requested matches Some(asked) && asked < header_length && error
                == (ConvertError::ProtectedRegionTooSmall { requested: asked, header_length }),
        },
        (requested matches Some(asked) && asked < header_length) ==> spec_protected_region_size(
            requested,
            header_length,
            fixed_address_flash,
            pic,
        ).is_err(),
{
}

/// Determines the size of the protected region.
pub fn protected_region_size(
    requested: Option<u32>,
    header_length: u32,
    fixed_address_flash: Option<u32>,
    pic: bool,
) -> (size: Result<u32, ConvertError>)
    ensures
        size == spec_protected_region_size(requested, header_length, fixed_address_flash, pic),
        size matches Ok(region) ==> region >= header_length,
{
    match requested {
        Some(size) => {
            if size < header_length {
                Err(ConvertError::ProtectedRegionTooSmall { requested: size, header_length })
            } else {
                Ok(size)
            }
        },
        None => {
            if !pic {
                let address: u32 = match fixed_address_flash {
                    Some(address) => address,
                    None => 0,
                };
                let container_start: u32 = align_down(address, CONTAINER_ALIGNMENT);
                let before: u32 = address - container_start;
                if before > header_length {
                    Ok(before)
                } else {
                    Ok(header_length)
                }
            } else {
                Ok(header_length)
            }
        },
    }
}

// ---------------------------------------------------------------------
// What is gathered while the segments are placed
// ---------------------------------------------------------------------

/// A condition that is worth a warning and does not stop the conversion.
#[derive(Clone, Copy, Debug, PartialEq, Eq, Structural)]
pub enum Advisory {
    /// A segment lies before the end of the one placed before it; no
    /// padding is inserted between the two.
    SegmentsOutOfOrder,
    /// That much padding was inserted before a segment.
    LargePadding { padding: u64 },
    /// A segment was placed at this offset, which is no multiple of 4.
    MisalignedContent { offset: u32 },
    /// The relocation data was placed at this offset, which is no multiple
    /// of 4.
    MisalignedRelocation { offset: u32 },
    /// A second segment holds the entry point; the application is marked as
    /// disabled, so this is let pass.
    DuplicateEntryPoint,
}

/// What is known once some segments are placed.
#[derive(Debug)]
pub struct Assembly {
    /// What follows the header: the rest of the protected region, then the
    /// segments with the padding between them.
    pub binary: Vec<u8>,
    /// The relocation data found so far.
    pub relocation: Vec<u8>,
    /// The offset of the entry point from the end of the protected region.
    pub init_fn_offset: Option<u32>,
    /// Offset and size of each writeable flash region found so far.
    pub regions: Vec<(u32, u32)>,
    /// The physical address at which the last segment ends.
    pub last_end: Option<u64>,
    pub advisories: Vec<Advisory>,
}

/// An assembly as a mathematical value.
pub struct AssemblyView {
    pub binary: Seq<u8>,
    pub relocation: Seq<u8>,
    pub init_fn_offset: Option<u32>,
    pub regions: Seq<(u32, u32)>,
    pub last_end: Option<u64>,
    pub advisories: Seq<Advisory>,
}

impl View for Assembly {
    type V = AssemblyView;

    open spec fn view(&self) -> AssemblyView {
        AssemblyView {
            binary: self.binary@,
            relocation: self.relocation@,
            init_fn_offset: self.init_fn_offset,
            regions: self.regions@,
            last_end: self.last_end,
            advisories: self.advisories@,
        }
    }
}

/// What the placing of segments is given.
pub struct Placement<'a> {
    pub sections: &'a Vec<Section>,
    /// The bytes of the image file.
    pub file: &'a [u8],
    /// The address of the entry point.
    pub entry: u64,
    pub header_length: u32,
    /// The size of the protected region, the header included.
    pub protected_size: u32,
    /// Whether the application is marked as disabled.
    pub disabled: bool,
}

/// A placement as a mathematical value.
pub struct PlacementView {
    pub sections: Seq<SectionView>,
    pub file: Seq<u8>,
    pub entry: u64,
    pub header_length: u32,
    pub protected_size: u32,
    pub disabled: bool,
}

impl<'a> View for Placement<'a> {
    type V = PlacementView;

    open spec fn view(&self) -> PlacementView {
        PlacementView {
            sections: sections_view(self.sections@),
            file: self.file@,
            entry: self.entry,
            header_length: self.header_length,
            protected_size: self.protected_size,
            disabled: self.disabled,
        }
    }
}

/// The assembly before any segment is placed: the part of the protected
/// region that follows the header, filled with zero bytes.
pub open spec fn initial_assembly(header_length: u32, protected_size: u32) -> AssemblyView {
    AssemblyView {
        binary: zeros((protected_size - header_length) as nat),
        relocation: Seq::empty(),
        init_fn_offset: None,
        regions: Seq::empty(),
        last_end: None,
        advisories: Seq::empty(),
    }
}

/// Whether the assembly goes with the placement: the protected region
/// holds the header, the binary holds the rest of the protected region, and
/// the end of the binary lies at an offset that fits in 32 bits.
pub open spec fn well_placed(placement: PlacementView, assembly: AssemblyView) -> bool {
    &&& placement.header_length <= placement.protected_size
    &&& assembly.binary.len() >= placement.protected_size - placement.header_length
    &&& placement.header_length + assembly.binary.len() <= u32::MAX
}

// ---------------------------------------------------------------------
// The sections of a segment
// ---------------------------------------------------------------------

/// Whether relocation data is looked for on behalf of `section`: it is
/// not empty, belongs to `segment`, and is writable.
pub open spec fn needs_relocation(section: SectionView, segment: Segment) -> bool {
    section.sh_size > 0 && spec_section_in_segment(section, segment) && section.sh_flags
        & SHF_WRITE != 0
}

/// The relocation data of `section`: what the first section holds whose
/// name is `.rel` followed by the name of `section`; nothing where there is
/// no such section.
pub open spec fn relocation_of(sections: Seq<SectionView>, section: SectionView) -> Seq<u8> {
    match first_named(sections, spec_relocation_name(section.name)) {
        Some(index) => sections[index].data,
        None => Seq::empty(),
    }
}

/// The relocation data of the sections in `prefix` that belong to
/// `segment`, in their order.
pub open spec fn relocations_in(
    sections: Seq<SectionView>,
    prefix: Seq<SectionView>,
    segment: Segment,
) -> Seq<u8>
    decreases prefix.len(),
{
    if prefix.len() == 0 {
        Seq::empty()
    } else {
        relocations_in(sections, prefix.drop_last(), segment) + if needs_relocation(
            prefix.last(),
            segment,
        ) {
            relocation_of(sections, prefix.last())
        } else {
            Seq::empty()
        }
    }
}

/// Offset and size of the writeable flash region `section` of `segment`,
/// where the segment is placed at offset `start` of the container: the
/// region lies as far behind `start` as its address lies behind that of
/// the segment, and of its size the low 32 bits count. The offset must fit
/// in 32 bits.
pub open spec fn region_place(section: SectionView, segment: Segment, start: u32) -> Result<
    (u32, u32),
    ConvertError,
> {
    if section.sh_addr < segment.p_vaddr || start + (section.sh_addr - segment.p_vaddr)
        > u32::MAX {
        Err(ConvertError::SizeOverflow)
    } else {
        Ok(((start + (section.sh_addr - segment.p_vaddr)) as u32, low_word(section.sh_size)))
    }
}

/// Offset and size of the writeable flash regions in `prefix` that belong
/// to `segment`, in their order, or the error of the first that has no
/// place.
pub open spec fn regions_in(prefix: Seq<SectionView>, segment: Segment, start: u32) -> Result<
    Seq<(u32, u32)>,
    ConvertError,
>
    decreases prefix.len(),
{
    if prefix.len() == 0 {
        Ok(Seq::empty())
    } else {
        match regions_in(prefix.drop_last(), segment, start) {
            Err(error) => Err(error),
            Ok(regions) => if is_region(prefix.last(), segment) {
                match region_place(prefix.last(), segment, start) {
                    Ok(region) => Ok(regions.push(region)),
                    Err(error) => Err(error),
                }
            } else {
                Ok(regions)
            },
        }
    }
}

/// Once a region has no place, no longer list of sections has a result.
proof fn lemma_regions_in_fails(
    list: Seq<SectionView>,
    segment: Segment,
    start: u32,
    count: int,
)
    requires
        0 <= count <= list.len(),
        regions_in(list.take(count), segment, start).is_err(),
    ensures
        regions_in(list, segment, start) == regions_in(list.take(count), segment, start),
    decreases list.len() - count,
{
    if count < list.len() {
        assert(list.take(count + 1).drop_last() =~= list.take(count));
        lemma_regions_in_fails(list, segment, start, count + 1);
    } else {
        assert(list.take(count) =~= list);
    }
}

/// Gathers the relocation data and the writeable flash regions of the
/// sections that belong to `segment`.
fn gather_sections(sections: &Vec<Section>, segment: &Segment, start: u32) -> (gathered: Result<
    (Vec<u8>, Vec<(u32, u32)>),
    ConvertError,
>)
    ensures
        match gathered {
            Ok((relocation, regions)) => {
                &&& relocation@ == relocations_in(
                    sections_view(sections@),
                    sections_view(sections@),
                    *segment,
                )
                &&& regions_in(sections_view(sections@), *segment, start) == Ok::<
                    Seq<(u32, u32)>,
                    ConvertError,
                >(regions@)
            },
            Err(error) => regions_in(sections_view(sections@), *segment, start) == Err::<
                Seq<(u32, u32)>,
                ConvertError,
            >(error),
        },
{
    let ghost views = sections_view(sections@);
    let mut relocation: Vec<u8> = Vec::new();
    let mut regions: Vec<(u32, u32)> = Vec::new();
    let mut index: usize = 0;
    assert(views.take(0) =~= Seq::<SectionView>::empty());
    while index < sections.len()
        invariant
            index <= sections@.len(),
            views == sections_view(sections@),
            relocation@ == relocations_in(views, views.take(index as int), *segment),
            regions_in(views.take(index as int), *segment, start) == Ok::<
                Seq<(u32, u32)>,
                ConvertError,
            >(regions@),
        decreases sections@.len() - index,
    {
        let section: &Section = &sections[index];
        proof {
            assert(views.take(index + 1).drop_last() =~= views.take(index as int));
            assert(views.take(index + 1).last() == section@);
        }
        if section.sh_size > 0 && section_in_segment(section, segment) {
            if section.sh_flags & SHF_WRITE != 0 {
                let wanted: Vec<u8> = relocation_name(section.name.as_slice());
                let ghost before = relocation@;
                match find_section(sections, wanted.as_slice()) {
                    Some(found) => {
                        append_bytes(&mut relocation, sections[found].data.as_slice());
                    },
                    None => {
                        assert(relocation@ =~= before + Seq::<u8>::empty());
                    },
                }
            } else {
                assert(relocation@ =~= relocation@ + Seq::<u8>::empty());
            }
        } else {
            assert(relocation@ =~= relocation@ + Seq::<u8>::empty());
        }
        if is_writeable_flash_region(section, segment) {
            if section.sh_addr < segment.p_vaddr || section.sh_addr - segment.p_vaddr > (u32::MAX
                - start) as u64 {
                proof {
                    lemma_regions_in_fails(views, *segment, start, index + 1);
                }
                return Err(ConvertError::SizeOverflow);
            }
            let offset: u32 = start + (section.sh_addr - segment.p_vaddr) as u32;
            regions.push((offset, low_u32(section.sh_size)));
        }
        index += 1;
    }
    assert(views.take(index as int) =~= views);
    Ok((relocation, regions))
}

// ---------------------------------------------------------------------
// One segment
// ---------------------------------------------------------------------

/// The padding before `segment`: what lies between the end of the segment
/// placed before it and its own physical address.
pub open spec fn gap_before(last_end: Option<u64>, segment: Segment) -> nat {
    match last_end {
        Some(end) if segment.p_paddr > end => (segment.p_paddr - end) as nat,
        _ => 0,
    }
}

/// Whether the entry point lies in `segment`.
pub open spec fn holds_entry(segment: Segment, entry: u64) -> bool {
    entry >= segment.p_paddr && entry < segment.p_paddr + segment.p_filesz
}

/// The warnings that placing `segment` at offset `start` gives.
pub open spec fn segment_advisories(
    placement: PlacementView,
    assembly: AssemblyView,
    segment: Segment,
    start: u32,
) -> Seq<Advisory> {
    (if assembly.last_end matches Some(end) && segment.p_paddr < end {
        seq![Advisory::SegmentsOutOfOrder]
    } else {
        Seq::empty()
    }) + (if gap_before(assembly.last_end, segment) >= LARGE_PADDING {
        seq![Advisory::LargePadding { padding: gap_before(assembly.last_end, segment) as u64 }]
    } else {
        Seq::empty()
    }) + (if start % 4 != 0 {
        seq![Advisory::MisalignedContent { offset: start }]
    } else {
        Seq::empty()
    }) + (if holds_entry(segment, placement.entry) && assembly.init_fn_offset.is_some() {
        seq![Advisory::DuplicateEntryPoint]
    } else {
        Seq::empty()
    })
}

/// The assembly once `segment` is placed.
///
/// A segment that is not loaded from the file changes nothing. Any other
/// segment is placed behind what is there, after as many zero bytes as lie
/// between the end of the segment before it and its own physical address.
/// Its bytes are those of the file from its file offset on. Where it holds
/// the entry point, the offset of the entry point from the end of the
/// protected region is recorded; a second segment that holds it is an
/// error unless the application is disabled. The relocation data and the
/// writeable flash regions of its sections are added to those found
/// before.
///
/// Placing fails where the segment would end past what 32 bits can
/// address, where it reaches past the end of the file, and where a
/// writeable flash region has no place.
pub open spec fn place_segment(
    placement: PlacementView,
    assembly: AssemblyView,
    segment: Segment,
) -> Result<AssemblyView, ConvertError> {
    if !loads_from_file(segment) {
        Ok(assembly)
    } else {
        let gap = gap_before(assembly.last_end, segment);
        let start = placement.header_length + assembly.binary.len() + gap;
        if start + segment.p_filesz > u32::MAX || segment.p_paddr + segment.p_filesz > u64::MAX {
            Err(ConvertError::SizeOverflow)
        } else if segment.p_offset + segment.p_filesz > placement.file.len() {
            Err(ConvertError::SegmentOutOfBounds)
        } else if holds_entry(segment, placement.entry) && assembly.init_fn_offset.is_some()
            && !placement.disabled {
            Err(ConvertError::DuplicateEntryPoint)
        } else {
            match regions_in(placement.sections, segment, start as u32) {
                Err(error) => Err(error),
                Ok(regions) => Ok(
                    AssemblyView {
                        binary: assembly.binary + zeros(gap) + placement.file.subrange(
                            segment.p_offset as int,
                            segment.p_offset + segment.p_filesz,
                        ),
                        relocation: assembly.relocation + relocations_in(
                            placement.sections,
                            placement.sections,
                            segment,
                        ),
                        init_fn_offset: if holds_entry(segment, placement.entry)
                            && assembly.init_fn_offset.is_none() {
                            Some(
                                (start + (placement.entry - segment.p_paddr)
                                    - placement.protected_size) as u32,
                            )
                        } else {
                            assembly.init_fn_offset
                        },
                        regions: assembly.regions + regions,
                        last_end: Some((segment.p_paddr + segment.p_filesz) as u64),
                        advisories: assembly.advisories + segment_advisories(
                            placement,
                            assembly,
                            segment,
                            start as u32,
                        ),
                    },
                ),
            }
        }
    }
}

/// Placing a segment keeps the assembly in step with the placement.
pub proof fn lemma_place_segment_well_placed(
    placement: PlacementView,
    assembly: AssemblyView,
    segment: Segment,
)
    requires
        well_placed(placement, assembly),
    ensures
        place_segment(placement, assembly, segment) matches Ok(placed) ==> well_placed(
            placement,
            placed,
        ),
{
}

fn push_all<T: Copy>(list: &mut Vec<T>, more: &Vec<T>)
    ensures
        final(list)@ == old(list)@ + more@,
{
    let mut index: usize = 0;
    assert(list@ =~= old(list)@ + more@.take(0));
    while index < more.len()
        invariant
            index <= more@.len(),
            list@ == old(list)@ + more@.take(index as int),
        decreases more@.len() - index,
    {
        list.push(more[index]);
        index += 1;
        assert(list@ =~= old(list)@ + more@.take(index as int));
    }
    assert(more@.take(index as int) =~= more@);
}

/// Places one segment.
pub fn add_segment(placement: &Placement, assembly: Assembly, segment: &Segment) -> (placed:
    Result<Assembly, ConvertError>)
    requires
        well_placed(placement@, assembly@),
    ensures
        match placed {
            Ok(after) => place_segment(placement@, assembly@, *segment) == Ok::<
                AssemblyView,
                ConvertError,
            >(after@) && well_placed(placement@, after@),
            Err(error) => place_segment(placement@, assembly@, *segment) == Err::<
                AssemblyView,
                ConvertError,
            >(error),
        },
{
    if segment.p_type != PT_LOAD || segment.p_filesz == 0 {
        return Ok(assembly);
    }
    let mut assembly = assembly;
    let ghost before = assembly@;
    let mut advisories: Vec<Advisory> = Vec::new();

    // The padding that fills the distance from the segment before.
    let mut gap: u64 = 0;
    if let Some(end) = assembly.last_end {
        if segment.p_paddr > end {
            gap = segment.p_paddr - end;
        } else if segment.p_paddr < end {
            advisories.push(Advisory::SegmentsOutOfOrder);
        }
    }
    assert(gap == gap_before(before.last_end, *segment));
    let index: u32 = placement.header_length + assembly.binary.len() as u32;
    if gap > (u32::MAX - index) as u64 {
        return Err(ConvertError::SizeOverflow);
    }
    let start: u32 = index + gap as u32;
    if segment.p_filesz > (u32::MAX - start) as u64 || segment.p_filesz > u64::MAX
        - segment.p_paddr {
        return Err(ConvertError::SizeOverflow);
    }
    if gap >= LARGE_PADDING {
        advisories.push(Advisory::LargePadding { padding: gap });
    }
    if start % 4 != 0 {
        advisories.push(Advisory::MisalignedContent { offset: start });
    }

    // The bytes of the segment in the file.
    let file_length: u64 = placement.file.len() as u64;
    if segment.p_offset > file_length || segment.p_filesz > file_length - segment.p_offset {
        return Err(ConvertError::SegmentOutOfBounds);
    }
    let from: usize = segment.p_offset as usize;
    let to: usize = (segment.p_offset + segment.p_filesz) as usize;

    // The entry point, if it lies in this segment.
    let mut init_fn_offset: Option<u32> = assembly.init_fn_offset;
    if placement.entry >= segment.p_paddr && placement.entry - segment.p_paddr < segment.p_filesz {
        if assembly.init_fn_offset.is_some() {
            if !placement.disabled {
                return Err(ConvertError::DuplicateEntryPoint);
            }
            advisories.push(Advisory::DuplicateEntryPoint);
        } else {
            let entry_offset: u32 = (placement.entry - segment.p_paddr) as u32;
            init_fn_offset = Some(start + entry_offset - placement.protected_size);
        }
    }
    assert(advisories@ =~= segment_advisories(placement@, before, *segment, start));

    let gathered = gather_sections(placement.sections, segment, start)?;
    let relocation: Vec<u8> = gathered.0;
    let regions: Vec<(u32, u32)> = gathered.1;

    do_pad(&mut assembly.binary, gap as usize);
    append_bytes(&mut assembly.binary, slice_subrange(placement.file, from, to));
    append_bytes(&mut assembly.relocation, relocation.as_slice());
    push_all(&mut assembly.regions, &regions);
    push_all(&mut assembly.advisories, &advisories);
    assembly.init_fn_offset = init_fn_offset;
    assembly.last_end = Some(segment.p_paddr + segment.p_filesz);
    Ok(assembly)
}

// ---------------------------------------------------------------------
// All segments
// ---------------------------------------------------------------------

/// The assembly once every segment of `segments` is placed in its order,
/// or the error of the first segment that cannot be placed.
pub open spec fn place_segments(
    placement: PlacementView,
    assembly: AssemblyView,
    segments: Seq<Segment>,
) -> Result<AssemblyView, ConvertError>
    decreases segments.len(),
{
    if segments.len() == 0 {
        Ok(assembly)
    } else {
        match place_segments(placement, assembly, segments.drop_last()) {
            Ok(placed) => place_segment(placement, placed, segments.last()),
            Err(error) => Err(error),
        }
    }
}

/// Once a segment cannot be placed, no longer list of segments has a
/// result.
proof fn lemma_place_segments_fails(
    placement: PlacementView,
    assembly: AssemblyView,
    segments: Seq<Segment>,
    count: int,
)
    requires
        0 <= count <= segments.len(),
        place_segments(placement, assembly, segments.take(count)).is_err(),
    ensures
        place_segments(placement, assembly, segments) == place_segments(
            placement,
            assembly,
            segments.take(count),
        ),
    decreases segments.len() - count,
{
    if count < segments.len() {
        assert(segments.take(count + 1).drop_last() =~= segments.take(count));
        lemma_place_segments_fails(placement, assembly, segments, count + 1);
    } else {
        assert(segments.take(count) =~= segments);
    }
}

/// Placing segments keeps the assembly in step with the placement.
pub proof fn lemma_place_segments_well_placed(
    placement: PlacementView,
    assembly: AssemblyView,
    segments: Seq<Segment>,
)
    requires
        well_placed(placement, assembly),
    ensures
        place_segments(placement, assembly, segments) matches Ok(placed) ==> well_placed(
            placement,
            placed,
        ),
    decreases segments.len(),
{
    if segments.len() > 0 {
        lemma_place_segments_well_placed(placement, assembly, segments.drop_last());
        if let Ok(before) = place_segments(placement, assembly, segments.drop_last()) {
            lemma_place_segment_well_placed(placement, before, segments.last());
        }
    }
}

/// An assembly goes with its placement.
pub proof fn lemma_assemble_well_placed(placement: PlacementView, segments: Seq<Segment>)
    requires
        placement.header_length <= placement.protected_size,
    ensures
        spec_assemble(placement, segments) matches Ok(assembly) ==> well_placed(
            placement,
            assembly,
        ),
{
    lemma_place_segments_well_placed(
        placement,
        initial_assembly(placement.header_length, placement.protected_size),
        segments,
    );
}

/// The assembly of an image: every segment placed behind the protected
/// region.
pub open spec fn spec_assemble(placement: PlacementView, segments: Seq<Segment>) -> Result<
    AssemblyView,
    ConvertError,
> {
    place_segments(
        placement,
        initial_assembly(placement.header_length, placement.protected_size),
        segments,
    )
}

/// Places the segments of an image behind the protected region.
pub fn assemble(placement: &Placement, segments: &Vec<Segment>) -> (assembled: Result<
    Assembly,
    ConvertError,
>)
    requires
        placement.header_length <= placement.protected_size,
    ensures
        match assembled {
            Ok(assembly) => spec_assemble(placement@, segments@) == Ok::<
                AssemblyView,
                ConvertError,
            >(assembly@) && well_placed(placement@, assembly@),
            Err(error) => spec_assemble(placement@, segments@) == Err::<
                AssemblyView,
                ConvertError,
            >(error),
        },
{
    let mut assembly = Assembly {
        binary: Vec::new(),
        relocation: Vec::new(),
        init_fn_offset: None,
        regions: Vec::new(),
        last_end: None,
        advisories: Vec::new(),
    };
    do_pad(&mut assembly.binary, (placement.protected_size - placement.header_length) as usize);
    let ghost initial = initial_assembly(placement.header_length, placement.protected_size);
    assert(assembly@.binary =~= initial.binary);
    assert(assembly@.relocation =~= initial.relocation);
    assert(assembly@.regions =~= initial.regions);
    assert(assembly@.advisories =~= initial.advisories);
    assert(assembly@ == initial);
    let mut index: usize = 0;
    assert(segments@.take(0) =~= Seq::<Segment>::empty());
    while index < segments.len()
        invariant
            index <= segments@.len(),
            well_placed(placement@, assembly@),
            place_segments(placement@, initial, segments@.take(index as int)) == Ok::<
                AssemblyView,
                ConvertError,
            >(assembly@),
            initial == initial_assembly(placement.header_length, placement.protected_size),
        decreases segments@.len() - index,
    {
        proof {
            assert(segments@.take(index + 1).drop_last() =~= segments@.take(index as int));
        }
        match add_segment(placement, assembly, &segments[index]) {
            Ok(placed) => {
                assembly = placed;
            },
            Err(error) => {
                proof {
                    lemma_place_segments_fails(placement@, initial, segments@, index + 1);
                }
                return Err(error);
            },
        }
        index += 1;
    }
    assert(segments@.take(index as int) =~= segments@);
    Ok(assembly)
}

} // verus!
