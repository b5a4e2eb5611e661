//! The conversion of an executable image into a container: header,
//! binary, relocation data and footers.

use crate::analyze::{
    fixed_address_ram, flash_placement, minimum_ram_size, region_count, spec_fixed_address_flash,
    spec_fixed_address_ram, spec_is_pic, spec_minimum_ram_size, spec_region_count,
    spec_stack_length, stack_length,
};
use crate::crypto::{
    rsa_modulus_length, rsa_modulus_length_of, rsa_pkcs1_sha512_of, rsa_sign_pkcs1_sha512, sha256,
    sha256_of, sha384, sha384_of, sha512, sha512_of,
};
use crate::error::ConvertError;
use crate::footer::{
    answers, append_footers, footer_bytes, footer_plan, lemma_footer_length, lemma_footer_plan,
    optional_bytes, rsa4096_credential, rsa4096_payload, spec_footer_plan, spec_trailing_padding,
    trailing_padding, Credentials, CredentialsView, FooterPlan, FooterRequest, RSA4096_LENGTH,
};
use crate::header::{
    filled, header_bytes, header_length, lemma_header_bytes, lemma_length_ignores_size,
    lemma_with_region_len, new_header, program_from_main, storage_ids_view, unpadded_length,
    with_header_size, with_region, StorageIds, TbfHeader, TbfHeaderBase, TbfHeaderMain,
    TbfHeaderProgram, TbfHeaderView, TbfHeaderWriteableFlashRegion, MAX_HEADER_LENGTH,
};
use crate::image::{ElfImage, ElfImageView};
use crate::layout::{
    assemble, lemma_assemble_well_placed, protected_region_size, spec_assemble,
    spec_protected_region_size, Advisory, Assembly, AssemblyView, Placement, PlacementView,
};
use crate::source::{parse_elf, spec_parse_elf};
use crate::util::{append_bytes, le_u32, put_u32};
use vstd::prelude::*;

verus! {

/// The parameters of a conversion.
#[derive(Debug)]
pub struct Options {
    pub package_name: Option<String>,
    /// The stack length; taken from the image, or the default, where it is
    /// not given.
    pub stack_len: Option<u32>,
    pub app_heap_len: u32,
    pub kernel_heap_len: u32,
    /// The size of the protected region, the header included.
    pub protected_region_size: Option<u32>,
    /// Pairs of a driver number and a command number that is allowed.
    pub permissions: Vec<(u32, u32)>,
    pub storage_ids: StorageIds,
    /// Major and minor version of the kernel that is required.
    pub kernel_version: Option<(u16, u16)>,
    pub disabled: bool,
    pub minimum_footer_size: u32,
    pub app_version: u32,
    pub sha256: bool,
    pub sha384: bool,
    pub sha512: bool,
    /// The RSA private key in DER with which the container is signed.
    pub rsa4096_private_key: Option<Vec<u8>>,
    /// The modulus of the public key that goes with the private key, most
    /// significant byte first.
    pub rsa4096_public_modulus: Option<Vec<u8>>,
}

/// The parameters of a conversion as a mathematical value.
pub struct OptionsView {
    /// The package name in UTF-8; empty where none is given.
    pub package_name: Seq<u8>,
    pub stack_len: Option<u32>,
    pub app_heap_len: u32,
    pub kernel_heap_len: u32,
    pub protected_region_size: Option<u32>,
    pub permissions: Seq<(u32, u32)>,
    pub storage_ids: (Option<u32>, Option<Seq<u32>>, Option<Seq<u32>>),
    pub kernel_version: Option<(u16, u16)>,
    pub disabled: bool,
    pub minimum_footer_size: u32,
    pub app_version: u32,
    pub sha256: bool,
    pub sha384: bool,
    pub sha512: bool,
    pub rsa4096_private_key: Option<Seq<u8>>,
    pub rsa4096_public_modulus: Option<Seq<u8>>,
}

impl View for Options {
    type V = OptionsView;

    open spec fn view(&self) -> OptionsView {
        OptionsView {
            package_name: match self.package_name {
                Some(name) => vstd::utf8::encode_utf8(name@),
                None => Seq::empty(),
            },
            stack_len: self.stack_len,
            app_heap_len: self.app_heap_len,
            kernel_heap_len: self.kernel_heap_len,
            protected_region_size: self.protected_region_size,
            permissions: self.permissions@,
            storage_ids: storage_ids_view(self.storage_ids),
            kernel_version: self.kernel_version,
            disabled: self.disabled,
            minimum_footer_size: self.minimum_footer_size,
            app_version: self.app_version,
            sha256: self.sha256,
            sha384: self.sha384,
            sha512: self.sha512,
            rsa4096_private_key: optional_bytes(self.rsa4096_private_key),
            rsa4096_public_modulus: optional_bytes(self.rsa4096_public_modulus),
        }
    }
}

/// The credentials that the options ask for. An RSA credential is asked
/// for with the private key.
pub open spec fn footer_request(options: OptionsView) -> FooterRequest {
    FooterRequest {
        sha256: options.sha256,
        sha384: options.sha384,
        sha512: options.sha512,
        rsa4096: options.rsa4096_private_key.is_some(),
    }
}

// ---------------------------------------------------------------------
// What the image says
// ---------------------------------------------------------------------

/// What the conversion derives from an image before it builds the header.
#[derive(Clone, Copy, Debug)]
pub struct Analysis {
    pub minimum_ram_size: u32,
    /// Whether the image is position independent.
    pub pic: bool,
    pub fixed_address_flash: Option<u32>,
    pub fixed_address_ram: Option<u32>,
    /// The number of writeable flash regions.
    pub region_count: usize,
}

/// What the image says of the application.
///
/// The analysis fails where the minimum RAM size does not fit in 32 bits,
/// where a symbol without a name comes before the one that marks the start
/// of RAM, and where there are more writeable flash regions than any header
/// could hold, in this order.
pub open spec fn spec_analyze(
    image: ElfImageView,
    stack_len: Option<u32>,
    app_heap_len: u32,
    kernel_heap_len: u32,
) -> Result<Analysis, ConvertError> {
    let ram = spec_minimum_ram_size(
        image.segments,
        spec_stack_length(stack_len, image.sections),
        app_heap_len,
        kernel_heap_len,
    );
    let regions = spec_region_count(image.sections, image.segments);
    if ram > u32::MAX {
        Err(ConvertError::SizeOverflow)
    } else {
        match spec_fixed_address_ram(image.symbols) {
            Err(error) => Err(error),
            Ok(fixed_address_ram) => if regions > MAX_HEADER_LENGTH {
                Err(ConvertError::HeaderTooLarge)
            } else {
                Ok(
                    Analysis {
                        minimum_ram_size: ram as u32,
                        pic: spec_is_pic(image.sections, image.segments),
                        fixed_address_flash: spec_fixed_address_flash(
                            image.sections,
                            image.segments,
                        ),
                        fixed_address_ram,
                        region_count: regions as usize,
                    },
                )
            },
        }
    }
}

/// Derives from an image what the header needs.
pub fn analyze(
    image: &ElfImage,
    stack_len: Option<u32>,
    app_heap_len: u32,
    kernel_heap_len: u32,
) -> (analysis: Result<Analysis, ConvertError>)
    ensures
        analysis == spec_analyze(image@, stack_len, app_heap_len, kernel_heap_len),
{
    let stack: u32 = stack_length(stack_len, &image.sections);
    let ram: u32 = match minimum_ram_size(&image.segments, stack, app_heap_len, kernel_heap_len) {
        Some(ram) => ram,
        None => {
            return Err(ConvertError::SizeOverflow);
        },
    };
    let flash = flash_placement(&image.sections, &image.segments);
    let fixed_ram: Option<u32> = fixed_address_ram(&image.symbols)?;
    let regions: usize = match region_count(&image.sections, &image.segments) {
        Some(count) => count,
        None => {
            return Err(ConvertError::HeaderTooLarge);
        },
    };
    if regions > MAX_HEADER_LENGTH {
        return Err(ConvertError::HeaderTooLarge);
    }
    Ok(
        Analysis {
            minimum_ram_size: ram,
            pic: flash.pic,
            fixed_address_flash: flash.fixed_address,
            fixed_address_ram: fixed_ram,
            region_count: regions,
        },
    )
}

// ---------------------------------------------------------------------
// The header
// ---------------------------------------------------------------------

/// The header before the binary is laid out: a new header with the
/// parameters of the application filled in. A header that is longer than
/// its 16-bit size field can say is refused.
pub open spec fn spec_draft_header(analysis: Analysis, options: OptionsView) -> Result<
    TbfHeaderView,
    ConvertError,
> {
    let target = filled(
        new_header(),
        analysis.minimum_ram_size,
        analysis.region_count as nat,
        options.package_name,
        analysis.fixed_address_ram,
        analysis.fixed_address_flash,
        options.permissions,
        options.storage_ids,
        options.kernel_version,
        options.disabled,
    );
    if header_length(target) > MAX_HEADER_LENGTH {
        Err(ConvertError::HeaderTooLarge)
    } else {
        Ok(with_header_size(target, header_length(target) as u16))
    }
}

/// `list` once each of `regions`, an offset and a size, is recorded in
/// its first unused record, in their order.
pub open spec fn with_regions(
    list: Seq<TbfHeaderWriteableFlashRegion>,
    regions: Seq<(u32, u32)>,
) -> Seq<TbfHeaderWriteableFlashRegion>
    decreases regions.len(),
{
    if regions.len() == 0 {
        list
    } else {
        with_region(with_regions(list, regions.drop_last()), regions.last().0, regions.last().1)
    }
}

/// The header once the binary is laid out: the main record and the
/// program record say how far the protected region reaches past the header
/// and where the entry point lies; the program record says where the
/// binary ends and which version the application has; the writeable flash
/// regions have their places; the base record says how large the container
/// is.
pub open spec fn finished_header(
    draft: TbfHeaderView,
    protected_past_header: u32,
    init_fn_offset: Option<u32>,
    regions: Seq<(u32, u32)>,
    binary_end: u32,
    app_version: u32,
    total_size: u32,
) -> TbfHeaderView {
    let main = TbfHeaderMain {
        base: draft.main.base,
        init_fn_offset: match init_fn_offset {
            Some(offset) => offset,
            None => draft.main.init_fn_offset,
        },
        protected_size: protected_past_header,
        minimum_ram_size: draft.main.minimum_ram_size,
    };
    let program = program_from_main(main, binary_end);
    TbfHeaderView {
        base: TbfHeaderBase {
            version: draft.base.version,
            header_size: draft.base.header_size,
            total_size,
            flags: draft.base.flags,
        },
        main,
        program: Some(
            TbfHeaderProgram {
                base: program.base,
                init_fn_offset: program.init_fn_offset,
                protected_size: program.protected_size,
                minimum_ram_size: program.minimum_ram_size,
                binary_end_offset: program.binary_end_offset,
                app_version,
            },
        ),
        wfr: with_regions(draft.wfr, regions),
        ..draft
    }
}

fn copy_list<T: Copy>(list: &Vec<T>) -> (copy: Vec<T>)
    ensures
        copy@ == list@,
{
    let mut copy: Vec<T> = Vec::new();
    let mut index: usize = 0;
    while index < list.len()
        invariant
            index <= list@.len(),
            copy@ == list@.take(index as int),
        decreases list@.len() - index,
    {
        copy.push(list[index]);
        index += 1;
        assert(copy@ =~= list@.take(index as int));
    }
    assert(list@.take(index as int) =~= list@);
    copy
}

fn copy_ids(ids: &Option<Vec<u32>>) -> (copy: Option<Vec<u32>>)
    ensures
        match (copy, *ids) {
            (Some(copy), Some(ids)) => copy@ == ids@,
            (None, None) => true,
            _ => false,
        },
{
    match ids {
        Some(ids) => Some(copy_list(ids)),
        None => None,
    }
}

/// Builds the header as far as it is known before the binary is laid out.
pub fn draft_header(analysis: &Analysis, options: &Options) -> (draft: Result<
    TbfHeader,
    ConvertError,
>)
    ensures
        match draft {
            Ok(header) => spec_draft_header(*analysis, options@) == Ok::<
                TbfHeaderView,
                ConvertError,
            >(header@),
            Err(error) => spec_draft_header(*analysis, options@) == Err::<
                TbfHeaderView,
                ConvertError,
            >(error),
        },
{
    let package_name: String = match &options.package_name {
        Some(name) => name.clone(),
        None => String::new(),
    };
    assert(vstd::utf8::encode_utf8(package_name@) =~= options@.package_name);
    let storage_ids: StorageIds = (
        options.storage_ids.0,
        copy_ids(&options.storage_ids.1),
        copy_ids(&options.storage_ids.2),
    );
    assert(storage_ids_view(storage_ids) == options@.storage_ids);
    let mut header = TbfHeader::new();
    let length: Option<usize> = header.try_create(
        analysis.minimum_ram_size,
        analysis.region_count,
        package_name,
        analysis.fixed_address_ram,
        analysis.fixed_address_flash,
        copy_list(&options.permissions),
        storage_ids,
        options.kernel_version,
        options.disabled,
    );
    match length {
        Some(_) => Ok(header),
        None => Err(ConvertError::HeaderTooLarge),
    }
}

/// Records in the header what the layout of the binary has settled.
pub fn finish_header(
    header: &mut TbfHeader,
    protected_past_header: u32,
    init_fn_offset: Option<u32>,
    regions: &Vec<(u32, u32)>,
    binary_end: u32,
    app_version: u32,
    total_size: u32,
)
    ensures
        final(header)@ == finished_header(
            old(header)@,
            protected_past_header,
            init_fn_offset,
            regions@,
            binary_end,
            app_version,
            total_size,
        ),
{
    header.set_protected_size(protected_past_header);
    if let Some(offset) = init_fn_offset {
        header.set_init_fn_offset(offset);
    }
    let ghost placed = header@;
    let mut index: usize = 0;
    assert(regions@.take(0) =~= Seq::<(u32, u32)>::empty());
    while index < regions.len()
        invariant
            index <= regions@.len(),
            header@ == (TbfHeaderView {
                wfr: with_regions(placed.wfr, regions@.take(index as int)),
                ..placed
            }),
        decreases regions@.len() - index,
    {
        proof {
            assert(regions@.take(index + 1).drop_last() =~= regions@.take(index as int));
        }
        header.set_writeable_flash_region_values(regions[index].0, regions[index].1);
        index += 1;
    }
    assert(regions@.take(index as int) =~= regions@);
    header.set_binary_end_offset(binary_end);
    header.set_app_version(app_version);
    header.set_total_size(total_size);
}

// ---------------------------------------------------------------------
// The container up to its footers
// ---------------------------------------------------------------------

/// A container without its footers.
#[derive(Debug)]
pub struct Draft {
    /// The header of the container.
    pub header: TbfHeader,
    /// The header, the binary and the relocation data: what the
    /// credentials cover.
    pub covered: Vec<u8>,
    /// The layout of the footers.
    pub plan: FooterPlan,
    pub advisories: Vec<Advisory>,
}

/// A draft as a mathematical value.
pub struct DraftView {
    pub header: TbfHeaderView,
    pub covered: Seq<u8>,
    pub plan: FooterPlan,
    pub advisories: Seq<Advisory>,
}

impl View for Draft {
    type V = DraftView;

    open spec fn view(&self) -> DraftView {
        DraftView {
            header: self.header@,
            covered: self.covered@,
            plan: self.plan,
            advisories: self.advisories@,
        }
    }
}

/// Where the binary of an assembly ends in the container: behind the
/// header, what follows it, the four bytes that say how long the
/// relocation data is, and the relocation data.
pub open spec fn binary_end_of(header_length: u32, assembly: AssemblyView) -> nat {
    (header_length + assembly.binary.len() + 4 + assembly.relocation.len()) as nat
}

/// The warning that is given where relocation data is placed at an offset
/// that is no multiple of 4.
pub open spec fn relocation_advisory(header_length: u32, assembly: AssemblyView) -> Seq<Advisory> {
    if assembly.relocation.len() > 0 && (header_length + assembly.binary.len()) % 4 != 0 {
        seq![
            Advisory::MisalignedRelocation {
                offset: (header_length + assembly.binary.len()) as u32,
            },
        ]
    } else {
        Seq::empty()
    }
}

/// The container without its footers, from what the image says and how its
/// segments are placed.
///
/// The header comes first, then what the assembly holds behind it, then
/// the length of the relocation data in four bytes and the relocation data.
/// The binary must end, and the whole container must fit, within what 32
/// bits can address.
pub open spec fn spec_compose(
    machine: u16,
    draft_header: TbfHeaderView,
    protected_size: u32,
    assembly: AssemblyView,
    options: OptionsView,
) -> Result<DraftView, ConvertError> {
    let header_length = draft_header.base.header_size as u32;
    let binary_end = binary_end_of(header_length, assembly);
    if binary_end > u32::MAX {
        Err(ConvertError::SizeOverflow)
    } else {
        match spec_footer_plan(
            binary_end as u32,
            footer_request(options),
            options.minimum_footer_size,
            spec_trailing_padding(machine),
        ) {
            Err(error) => Err(error),
            Ok(plan) => {
                let header = finished_header(
                    draft_header,
                    (protected_size - header_length) as u32,
                    assembly.init_fn_offset,
                    assembly.regions,
                    binary_end as u32,
                    options.app_version,
                    plan.total_size,
                );
                Ok(
                    DraftView {
                        header,
                        covered: header_bytes(header) + assembly.binary + le_u32(
                            assembly.relocation.len() as u32,
                        ) + assembly.relocation,
                        plan,
                        advisories: assembly.advisories + relocation_advisory(
                            header_length,
                            assembly,
                        ),
                    },
                )
            },
        }
    }
}

/// What is settled before the container is composed: the header as far as
/// it is known, the size of the protected region, and the segments in
/// their places.
pub struct PlacedView {
    pub header: TbfHeaderView,
    pub protected_size: u32,
    pub assembly: AssemblyView,
}

/// The image in its place. It is analysed, the header is drafted, the
/// protected region is sized and the segments are placed; the first of
/// these steps that fails gives the error.
pub open spec fn spec_place(image: ElfImageView, file: Seq<u8>, options: OptionsView) -> Result<
    PlacedView,
    ConvertError,
> {
    match spec_analyze(image, options.stack_len, options.app_heap_len, options.kernel_heap_len) {
        Err(error) => Err(error),
        Ok(analysis) => match spec_draft_header(analysis, options) {
            Err(error) => Err(error),
            Ok(header) => match spec_protected_region_size(
                options.protected_region_size,
                header.base.header_size as u32,
                analysis.fixed_address_flash,
                analysis.pic,
            ) {
                Err(error) => Err(error),
                Ok(protected_size) => match spec_assemble(
                    PlacementView {
                        sections: image.sections,
                        file,
                        entry: image.entry,
                        header_length: header.base.header_size as u32,
                        protected_size,
                        disabled: options.disabled,
                    },
                    image.segments,
                ) {
                    Err(error) => Err(error),
                    Ok(assembly) => Ok(PlacedView { header, protected_size, assembly }),
                },
            },
        },
    }
}

/// The container without its footers: the image is put in its place, and
/// the container is composed of the parts.
pub open spec fn spec_lay_out(image: ElfImageView, file: Seq<u8>, options: OptionsView) -> Result<
    DraftView,
    ConvertError,
> {
    match spec_place(image, file, options) {
        Err(error) => Err(error),
        Ok(placed) => spec_compose(
            image.machine,
            placed.header,
            placed.protected_size,
            placed.assembly,
            options,
        ),
    }
}

/// Composes the container without its footers.
pub fn compose(
    machine: u16,
    header: TbfHeader,
    protected_size: u32,
    assembly: Assembly,
    options: &Options,
) -> (draft: Result<Draft, ConvertError>)
    requires
        header@.base.header_size <= protected_size,
        header@.base.header_size + assembly@.binary.len() <= u32::MAX,
    ensures
        match draft {
            Ok(draft) => spec_compose(machine, header@, protected_size, assembly@, options@) == Ok::<
                DraftView,
                ConvertError,
            >(draft@),
            Err(error) => spec_compose(machine, header@, protected_size, assembly@, options@)
                == Err::<DraftView, ConvertError>(error),
        },
{
    let mut header = header;
    let ghost draft_header = header@;
    let header_length: u32 = header.header_size() as u32;
    let content_end: u64 = header_length as u64 + assembly.binary.len() as u64;
    if content_end > 0xFFFF_FFFF - 4 || assembly.relocation.len() as u64 > 0xFFFF_FFFF - 4
        - content_end {
        return Err(ConvertError::SizeOverflow);
    }
    let binary_end: u32 = (content_end + 4 + assembly.relocation.len() as u64) as u32;
    let request = FooterRequest {
        sha256: options.sha256,
        sha384: options.sha384,
        sha512: options.sha512,
        rsa4096: options.rsa4096_private_key.is_some(),
    };
    let plan: FooterPlan = footer_plan(
        binary_end,
        request,
        options.minimum_footer_size,
        trailing_padding(machine),
    )?;
    finish_header(
        &mut header,
        protected_size - header_length,
        assembly.init_fn_offset,
        &assembly.regions,
        binary_end,
        options.app_version,
        plan.total_size,
    );
    let mut advisories: Vec<Advisory> = assembly.advisories;
    if assembly.relocation.len() > 0 && content_end % 4 != 0 {
        advisories.push(Advisory::MisalignedRelocation { offset: content_end as u32 });
        assert(advisories@ =~= assembly@.advisories + relocation_advisory(
            header_length,
            assembly@,
        ));
    } else {
        assert(advisories@ =~= assembly@.advisories + relocation_advisory(
            header_length,
            assembly@,
        ));
    }
    let mut covered: Vec<u8> = header.generate();
    append_bytes(&mut covered, assembly.binary.as_slice());
    put_u32(&mut covered, assembly.relocation.len() as u32);
    append_bytes(&mut covered, assembly.relocation.as_slice());
    Ok(Draft { header, covered, plan, advisories })
}

/// Lays out the container without its footers.
pub fn lay_out(image: &ElfImage, file: &[u8], options: &Options) -> (draft: Result<
    Draft,
    ConvertError,
>)
    ensures
        match draft {
            Ok(draft) => spec_lay_out(image@, file@, options@) == Ok::<DraftView, ConvertError>(
                draft@,
            ),
            Err(error) => spec_lay_out(image@, file@, options@) == Err::<DraftView, ConvertError>(
                error,
            ),
        },
{
    let analysis: Analysis = analyze(
        image,
        options.stack_len,
        options.app_heap_len,
        options.kernel_heap_len,
    )?;
    let header: TbfHeader = draft_header(&analysis, options)?;
    let header_length: u32 = header.header_size() as u32;
    let protected_size: u32 = protected_region_size(
        options.protected_region_size,
        header_length,
        analysis.fixed_address_flash,
        analysis.pic,
    )?;
    let placement = Placement {
        sections: &image.sections,
        file,
        entry: image.entry,
        header_length,
        protected_size,
        disabled: options.disabled,
    };
    let assembly: Assembly = assemble(&placement, &image.segments)?;
    compose(image.machine, header, protected_size, assembly, options)
}

// ---------------------------------------------------------------------
// Credentials and footers
// ---------------------------------------------------------------------

/// A container and the warnings that its conversion gave.
#[derive(Debug)]
pub struct Conversion {
    /// The header of the container.
    pub header: TbfHeader,
    /// The container.
    pub bytes: Vec<u8>,
    pub advisories: Vec<Advisory>,
}

/// A conversion as a mathematical value.
pub struct ConversionView {
    pub header: TbfHeaderView,
    pub bytes: Seq<u8>,
    pub advisories: Seq<Advisory>,
}

impl View for Conversion {
    type V = ConversionView;

    open spec fn view(&self) -> ConversionView {
        ConversionView { header: self.header@, bytes: self.bytes@, advisories: self.advisories@ }
    }
}

/// The draft with its footers.
pub open spec fn sealed(draft: DraftView, credentials: CredentialsView) -> ConversionView {
    ConversionView {
        header: draft.header,
        bytes: draft.covered + footer_bytes(credentials, draft.plan),
        advisories: draft.advisories,
    }
}

/// Appends the footers to a draft.
pub fn seal(draft: Draft, credentials: Credentials) -> (conversion: Conversion)
    requires
        credentials.sha256 matches Some(bytes) ==> bytes@.len() + 4 <= u16::MAX,
        credentials.sha384 matches Some(bytes) ==> bytes@.len() + 4 <= u16::MAX,
        credentials.sha512 matches Some(bytes) ==> bytes@.len() + 4 <= u16::MAX,
        credentials.rsa4096 matches Some(bytes) ==> bytes@.len() + 4 <= u16::MAX,
    ensures
        conversion@ == sealed(draft@, credentials@),
{
    let mut bytes: Vec<u8> = draft.covered;
    append_footers(&mut bytes, credentials, &draft.plan);
    Conversion { header: draft.header, bytes, advisories: draft.advisories }
}

/// The payload of the RSA credential for what the container holds before
/// its footers, or `None` where no key is given.
///
/// A private key without a public key and a public key without a private
/// key are refused. So are, in this order, a private key that cannot be
/// used, one whose modulus is not 512 bytes long, a message that cannot be
/// signed, and a public modulus of less than 512 bytes.
pub open spec fn spec_signature(covered: Seq<u8>, options: OptionsView) -> Result<
    Option<Seq<u8>>,
    ConvertError,
> {
    match (options.rsa4096_private_key, options.rsa4096_public_modulus) {
        (None, None) => Ok(None),
        (Some(_), None) => Err(ConvertError::MissingPublicKey),
        (None, Some(_)) => Err(ConvertError::MissingPrivateKey),
        (Some(key), Some(modulus)) => match rsa_modulus_length_of(key) {
            None => Err(ConvertError::InvalidPrivateKey),
            Some(length) => if length != RSA4096_LENGTH {
                Err(ConvertError::WrongModulusSize)
            } else {
                match rsa_pkcs1_sha512_of(key, covered) {
                    None => Err(ConvertError::SigningFailed),
                    Some(signature) => if modulus.len() < RSA4096_LENGTH {
                        Err(ConvertError::PublicKeyTooShort)
                    } else {
                        Ok(Some(rsa4096_payload(modulus, signature)))
                    },
                }
            },
        },
    }
}

/// The credentials for what the container holds before its footers: each
/// digest that is asked for, and the RSA credential where a key is given.
pub open spec fn spec_credentials(covered: Seq<u8>, options: OptionsView) -> Result<
    CredentialsView,
    ConvertError,
> {
    match spec_signature(covered, options) {
        Err(error) => Err(error),
        Ok(rsa4096) => Ok(
            CredentialsView {
                sha256: if options.sha256 {
                    Some(sha256_of(covered))
                } else {
                    None
                },
                sha384: if options.sha384 {
                    Some(sha384_of(covered))
                } else {
                    None
                },
                sha512: if options.sha512 {
                    Some(sha512_of(covered))
                } else {
                    None
                },
                rsa4096,
            },
        ),
    }
}

/// The container for an image, and the warnings that its conversion
/// gives.
pub open spec fn spec_convert(image: ElfImageView, file: Seq<u8>, options: OptionsView) -> Result<
    ConversionView,
    ConvertError,
> {
    match spec_lay_out(image, file, options) {
        Err(error) => Err(error),
        Ok(draft) => match spec_credentials(draft.covered, options) {
            Err(error) => Err(error),
            Ok(credentials) => Ok(sealed(draft, credentials)),
        },
    }
}

/// Makes the RSA credential for `covered`, where a key is given.
fn sign(covered: &[u8], options: &Options) -> (payload: Result<Option<Vec<u8>>, ConvertError>)
    ensures
        match payload {
            Ok(payload) => spec_signature(covered@, options@) == Ok::<
                Option<Seq<u8>>,
                ConvertError,
            >(optional_bytes(payload)) && (payload matches Some(bytes) ==> bytes@.len() == 2
                * RSA4096_LENGTH),
            Err(error) => spec_signature(covered@, options@) == Err::<
                Option<Seq<u8>>,
                ConvertError,
            >(error),
        },
{
    match (&options.rsa4096_private_key, &options.rsa4096_public_modulus) {
        (None, None) => Ok(None),
        (Some(_), None) => Err(ConvertError::MissingPublicKey),
        (None, Some(_)) => Err(ConvertError::MissingPrivateKey),
        (Some(key), Some(modulus)) => {
            match rsa_modulus_length(key.as_slice()) {
                None => {
                    return Err(ConvertError::InvalidPrivateKey);
                },
                Some(length) => {
                    if length != RSA4096_LENGTH {
                        return Err(ConvertError::WrongModulusSize);
                    }
                },
            }
            let signature: Vec<u8> = match rsa_sign_pkcs1_sha512(key.as_slice(), covered) {
                Some(signature) => signature,
                None => {
                    return Err(ConvertError::SigningFailed);
                },
            };
            let payload: Vec<u8> = rsa4096_credential(modulus.as_slice(), signature.as_slice())?;
            Ok(Some(payload))
        },
    }
}

/// Converts an image into a container.
///
/// `file` holds the bytes of the image file, from which the segments are
/// taken.
pub fn convert(image: &ElfImage, file: &[u8], options: &Options) -> (conversion: Result<
    Conversion,
    ConvertError,
>)
    ensures
        match conversion {
            Ok(conversion) => {
                &&& spec_convert(image@, file@, options@) == Ok::<ConversionView, ConvertError>(
                    conversion@,
                )
                &&& conversion@.bytes.len() == conversion@.header.base.total_size
                &&& conversion@.bytes.len() - TbfHeader::spec_binary_end_offset(
                    conversion@.header,
                ) >= options.minimum_footer_size
            },
            Err(error) => spec_convert(image@, file@, options@) == Err::<
                ConversionView,
                ConvertError,
            >(error),
        },
{
    let draft: Draft = lay_out(image, file, options)?;
    let rsa4096: Option<Vec<u8>> = sign(draft.covered.as_slice(), options)?;
    let credentials = Credentials {
        sha256: if options.sha256 {
            Some(sha256(draft.covered.as_slice()))
        } else {
            None
        },
        sha384: if options.sha384 {
            Some(sha384(draft.covered.as_slice()))
        } else {
            None
        },
        sha512: if options.sha512 {
            Some(sha512(draft.covered.as_slice()))
        } else {
            None
        },
        rsa4096,
    };
    proof {
        assert(answers(credentials@, footer_request(options@)));
        lemma_container_size(image@, file@, options@, credentials@);
        lemma_total_size(image@, file@, options@);
    }
    Ok(seal(draft, credentials))
}

/// The container for the image that `input` holds.
pub open spec fn spec_elf_to_tbf(input: Seq<u8>, options: OptionsView) -> Result<
    ConversionView,
    ConvertError,
> {
    match spec_parse_elf(input) {
        Err(error) => Err(error),
        Ok(image) => spec_convert(image, input, options),
    }
}

/// What a conversion leaves: on success the container behind what the
/// output held before, and the warnings as the result; on failure the
/// output as it was, and the error as the result.
pub open spec fn converts_to(
    input: Seq<u8>,
    options: OptionsView,
    before: Seq<u8>,
    after: Seq<u8>,
    result: Result<Seq<Advisory>, ConvertError>,
) -> bool {
    match spec_elf_to_tbf(input, options) {
        Ok(conversion) => after == before + conversion.bytes && result == Ok::<
            Seq<Advisory>,
            ConvertError,
        >(conversion.advisories),
        Err(error) => after == before && result == Err::<Seq<Advisory>, ConvertError>(error),
    }
}

/// Converting the same input with the same parameters again gives the
/// same bytes, the same warnings and the same error.
pub proof fn lemma_conversion_repeats(
    input: Seq<u8>,
    options: OptionsView,
    before: Seq<u8>,
    first: Seq<u8>,
    first_result: Result<Seq<Advisory>, ConvertError>,
    second: Seq<u8>,
    second_result: Result<Seq<Advisory>, ConvertError>,
)
    requires
        converts_to(input, options, before, first, first_result),
        converts_to(input, options, before, second, second_result),
    ensures
        first == second,
        first_result == second_result,
{
}

/// Recording regions keeps the number of records.
proof fn lemma_with_regions_len(list: Seq<TbfHeaderWriteableFlashRegion>, regions: Seq<(u32, u32)>)
    ensures
        with_regions(list, regions).len() == list.len(),
    decreases regions.len(),
{
    if regions.len() > 0 {
        lemma_with_regions_len(list, regions.drop_last());
        lemma_with_region_len(
            with_regions(list, regions.drop_last()),
            regions.last().0,
            regions.last().1,
        );
    }
}

/// Where the segments are placed, the protected region holds the header,
/// the header is as long as its size field says, and the binary begins
/// with what the protected region holds past the header.
pub proof fn lemma_place(image: ElfImageView, file: Seq<u8>, options: OptionsView)
    ensures
        spec_place(image, file, options) matches Ok(placed) ==> {
            &&& placed.header.base.header_size == header_length(placed.header)
            &&& placed.header.program.is_some()
            &&& placed.header.base.header_size % 4 == 0
            &&& placed.protected_size >= placed.header.base.header_size
            &&& placed.assembly.binary.len() >= placed.protected_size
                - placed.header.base.header_size
            &&& placed.header.base.header_size + placed.assembly.binary.len() <= u32::MAX
        },
{
    if let Ok(placed) = spec_place(image, file, options) {
        let analysis = spec_analyze(
            image,
            options.stack_len,
            options.app_heap_len,
            options.kernel_heap_len,
        )->Ok_0;
        let target = filled(
            new_header(),
            analysis.minimum_ram_size,
            analysis.region_count as nat,
            options.package_name,
            analysis.fixed_address_ram,
            analysis.fixed_address_flash,
            options.permissions,
            options.storage_ids,
            options.kernel_version,
            options.disabled,
        );
        lemma_header_bytes(target);
        lemma_header_bytes(placed.header);
        lemma_length_ignores_size(target, header_length(target) as u16);
        let placement = PlacementView {
            sections: image.sections,
            file,
            entry: image.entry,
            header_length: placed.header.base.header_size as u32,
            protected_size: placed.protected_size,
            disabled: options.disabled,
        };
        lemma_assemble_well_placed(placement, image.segments);
    }
}

/// Finishing a header keeps its length.
proof fn lemma_finished_header_length(
    draft: TbfHeaderView,
    protected_past_header: u32,
    init_fn_offset: Option<u32>,
    regions: Seq<(u32, u32)>,
    binary_end: u32,
    app_version: u32,
    total_size: u32,
)
    requires
        draft.program.is_some(),
    ensures
        header_length(
            finished_header(
                draft,
                protected_past_header,
                init_fn_offset,
                regions,
                binary_end,
                app_version,
                total_size,
            ),
        ) == header_length(draft),
{
    lemma_with_regions_len(draft.wfr, regions);
}

/// What is composed holds the finished header, the binary and the
/// relocation data, and its header says where the binary ends and how large
/// the container is.
proof fn lemma_covered_length(
    machine: u16,
    draft_header: TbfHeaderView,
    protected_size: u32,
    assembly: AssemblyView,
    options: OptionsView,
)
    requires
        draft_header.base.header_size == header_length(draft_header),
        draft_header.program.is_some(),
    ensures
        spec_compose(machine, draft_header, protected_size, assembly, options) matches Ok(draft)
            ==> {
            &&& draft.covered.len() == draft_header.base.header_size + assembly.binary.len() + 4
                + assembly.relocation.len()
            &&& TbfHeader::spec_binary_end_offset(draft.header) == draft.covered.len()
            &&& draft.header.base.total_size == draft.plan.total_size
            &&& draft.header.base.header_size == draft_header.base.header_size
            &&& header_length(draft.header) == draft_header.base.header_size
        },
{
    if let Ok(draft) = spec_compose(machine, draft_header, protected_size, assembly, options) {
        let header_length = draft_header.base.header_size as u32;
        let binary_end = binary_end_of(header_length, assembly);
        lemma_finished_header_length(
            draft_header,
            (protected_size - header_length) as u32,
            assembly.init_fn_offset,
            assembly.regions,
            binary_end as u32,
            options.app_version,
            draft.plan.total_size,
        );
        lemma_header_bytes(draft.header);
        assert(header_bytes(draft.header).len() == header_length);
        assert(le_u32(assembly.relocation.len() as u32).len() == 4);
    }
}

/// A container that is composed is as long as its total size says, and its
/// footers begin where its binary ends.
proof fn lemma_compose_size(
    machine: u16,
    draft_header: TbfHeaderView,
    protected_size: u32,
    assembly: AssemblyView,
    options: OptionsView,
    credentials: CredentialsView,
)
    requires
        draft_header.base.header_size == header_length(draft_header),
        draft_header.program.is_some(),
        answers(credentials, footer_request(options)),
    ensures
        spec_compose(machine, draft_header, protected_size, assembly, options) matches Ok(draft)
            ==> {
            &&& draft.covered.len() == draft_header.base.header_size + assembly.binary.len() + 4
                + assembly.relocation.len()
            &&& draft.covered.len() + footer_bytes(credentials, draft.plan).len()
                == draft.plan.total_size
            &&& footer_bytes(credentials, draft.plan).len() >= options.minimum_footer_size
        },
{
    if let Ok(draft) = spec_compose(machine, draft_header, protected_size, assembly, options) {
        lemma_covered_length(machine, draft_header, protected_size, assembly, options);
        lemma_footer_plan(
            draft.covered.len() as u32,
            footer_request(options),
            options.minimum_footer_size,
            spec_trailing_padding(machine),
        );
        lemma_footer_length(credentials, footer_request(options), draft.plan);
    }
}

/// The header of a container that is laid out says how long the header
/// is, where the binary ends and how large the container is.
pub proof fn lemma_total_size(image: ElfImageView, file: Seq<u8>, options: OptionsView)
    ensures
        spec_lay_out(image, file, options) matches Ok(draft) ==> {
            &&& draft.header.base.total_size == draft.plan.total_size
            &&& draft.header.base.header_size == header_length(draft.header)
            &&& TbfHeader::spec_binary_end_offset(draft.header) == draft.covered.len()
        },
{
    if let Ok(placed) = spec_place(image, file, options) {
        lemma_place(image, file, options);
        lemma_covered_length(
            image.machine,
            placed.header,
            placed.protected_size,
            placed.assembly,
            options,
        );
    }
}

/// The footers fill the container exactly. For a container that is laid
/// out, with the credentials that were asked for: the container is as long
/// as its total size says; the total size less the length of the footers
/// is where the binary ends; and the binary ends behind the protected
/// region, the segments with their padding, the four bytes that say how
/// long the relocation data is, and the relocation data.
pub proof fn lemma_container_size(
    image: ElfImageView,
    file: Seq<u8>,
    options: OptionsView,
    credentials: CredentialsView,
)
    requires
        answers(credentials, footer_request(options)),
    ensures
        match (spec_place(image, file, options), spec_lay_out(image, file, options)) {
            (Ok(placed), Ok(draft)) => {
                let footers = footer_bytes(credentials, draft.plan);
                let segments = placed.assembly.binary.len() - (placed.protected_size
                    - placed.header.base.header_size);
                &&& sealed(draft, credentials).bytes.len() == draft.plan.total_size
                &&& draft.plan.total_size - footers.len() == draft.covered.len()
                &&& draft.covered.len() == placed.protected_size + segments + 4
                    + placed.assembly.relocation.len()
                &&& footers.len() >= options.minimum_footer_size
            },
            _ => true,
        },
{
    if let Ok(placed) = spec_place(image, file, options) {
        lemma_place(image, file, options);
        lemma_compose_size(
            image.machine,
            placed.header,
            placed.protected_size,
            placed.assembly,
            options,
            credentials,
        );
    }
}

/// The warnings of a result as a mathematical value.
pub open spec fn result_view(result: Result<Vec<Advisory>, ConvertError>) -> Result<
    Seq<Advisory>,
    ConvertError,
> {
    match result {
        Ok(advisories) => Ok(advisories@),
        Err(error) => Err(error),
    }
}

/// Converts the executable image that `input` holds into a container and
/// appends the container to `output`.
///
/// The container holds the header, the segments of the image that are
/// loaded from the file, the relocation data of their writable sections
/// behind its length in four bytes, and the footers. Where the conversion
/// fails, `output` is left as it was.
pub fn elf_to_tbf(
    input: &[u8],
    output: &mut Vec<u8>,
    package_name: Option<String>,
    stack_len: Option<u32>,
    app_heap_len: u32,
    kernel_heap_len: u32,
    protected_region_size_arg: Option<u32>,
    permissions: Vec<(u32, u32)>,
    storage_ids: StorageIds,
    kernel_version: Option<(u16, u16)>,
    disabled: bool,
    minimum_footer_size: u32,
    app_version: u32,
    sha256: bool,
    sha384: bool,
    sha512: bool,
    rsa4096_private_key: Option<Vec<u8>>,
    rsa4096_public_modulus: Option<Vec<u8>>,
) -> (result: Result<Vec<Advisory>, ConvertError>)
    ensures
        converts_to(
            input@,
            (Options {
                package_name,
                stack_len,
                app_heap_len,
                kernel_heap_len,
                protected_region_size: protected_region_size_arg,
                permissions,
                storage_ids,
                kernel_version,
                disabled,
                minimum_footer_size,
                app_version,
                sha256,
                sha384,
                sha512,
                rsa4096_private_key,
                rsa4096_public_modulus,
            })@,
            old(output)@,
            final(output)@,
            result_view(result),
        ),
{
    let options = Options {
        package_name,
        stack_len,
        app_heap_len,
        kernel_heap_len,
        protected_region_size: protected_region_size_arg,
        permissions,
        storage_ids,
        kernel_version,
        disabled,
        minimum_footer_size,
        app_version,
        sha256,
        sha384,
        sha512,
        rsa4096_private_key,
        rsa4096_public_modulus,
    };
    let image: ElfImage = parse_elf(input)?;
    let conversion: Conversion = convert(&image, input, &options)?;
    append_bytes(output, conversion.bytes.as_slice());
    Ok(conversion.advisories)
}

} // verus!
