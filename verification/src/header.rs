//! The Tock Binary Format header: its records, their byte layout and the
//! checksum that closes it.

use crate::checksum::{
    inject_checksum, lemma_checksum_folds_to_zero, with_checksum, word_at, xor_fold,
};
use crate::permissions::{merge_all, merge_permissions};
use crate::util::{
    append_bytes, do_pad, le_u16, le_u32, le_u64, lemma_alignment_needed, put_u16, put_u32,
    put_u64, spec_align_to, spec_alignment_needed, zeros,
};
use vstd::prelude::*;

verus! {

/// The kinds of Type-Length-Value records.
#[derive(Clone, Copy, Debug)]
pub enum TbfHeaderTypes {
    Main,
    WriteableFlashRegions,
    PackageName,
    PicOption1,
    FixedAddresses,
    Permissions,
    Persistent,
    KernelVersion,
    Program,
    Credentials,
}

impl TbfHeaderTypes {
    /// The number that stands for this kind in the binary.
    pub open spec fn spec_code(self) -> u16 {
        match self {
            TbfHeaderTypes::Main => 1,
            TbfHeaderTypes::WriteableFlashRegions => 2,
            TbfHeaderTypes::PackageName => 3,
            TbfHeaderTypes::PicOption1 => 4,
            TbfHeaderTypes::FixedAddresses => 5,
            TbfHeaderTypes::Permissions => 6,
            TbfHeaderTypes::Persistent => 7,
            TbfHeaderTypes::KernelVersion => 8,
            TbfHeaderTypes::Program => 9,
            TbfHeaderTypes::Credentials => 128,
        }
    }

    /// The number that stands for this kind in the binary.
    pub fn code(self) -> (code: u16)
        ensures
            code == self.spec_code(),
    {
        match self {
            TbfHeaderTypes::Main => 1,
            TbfHeaderTypes::WriteableFlashRegions => 2,
            TbfHeaderTypes::PackageName => 3,
            TbfHeaderTypes::PicOption1 => 4,
            TbfHeaderTypes::FixedAddresses => 5,
            TbfHeaderTypes::Permissions => 6,
            TbfHeaderTypes::Persistent => 7,
            TbfHeaderTypes::KernelVersion => 8,
            TbfHeaderTypes::Program => 9,
            TbfHeaderTypes::Credentials => 128,
        }
    }
}

/// What a credentials footer carries.
#[derive(Clone, Copy, Debug)]
pub enum TbfFooterCredentialsType {
    Reserved,
    Rsa3072Key,
    Rsa4096Key,
    SHA256,
    SHA384,
    SHA512,
}

impl TbfFooterCredentialsType {
    /// The number that stands for this format in the binary.
    pub open spec fn spec_code(self) -> u32 {
        match self {
            TbfFooterCredentialsType::Reserved => 0,
            TbfFooterCredentialsType::Rsa3072Key => 1,
            TbfFooterCredentialsType::Rsa4096Key => 2,
            TbfFooterCredentialsType::SHA256 => 3,
            TbfFooterCredentialsType::SHA384 => 4,
            TbfFooterCredentialsType::SHA512 => 5,
        }
    }

    /// The number that stands for this format in the binary.
    pub fn code(self) -> (code: u32)
        ensures
            code == self.spec_code(),
    {
        match self {
            TbfFooterCredentialsType::Reserved => 0,
            TbfFooterCredentialsType::Rsa3072Key => 1,
            TbfFooterCredentialsType::Rsa4096Key => 2,
            TbfFooterCredentialsType::SHA256 => 3,
            TbfFooterCredentialsType::SHA384 => 4,
            TbfFooterCredentialsType::SHA512 => 5,
        }
    }
}

/// The four bytes that open every record: its kind and the length of what
/// follows.
#[derive(Clone, Copy, Debug)]
pub struct TbfHeaderTlv {
    pub tipe: TbfHeaderTypes,
    pub length: u16,
}

/// The fixed record at the start of the header. Its checksum field is
/// filled in when the header is serialized.
#[derive(Clone, Copy, Debug)]
pub struct TbfHeaderBase {
    pub version: u16,
    pub header_size: u16,
    pub total_size: u32,
    pub flags: u32,
}

/// The main record, which kernels of every version read.
#[derive(Clone, Copy, Debug)]
pub struct TbfHeaderMain {
    pub base: TbfHeaderTlv,
    pub init_fn_offset: u32,
    pub protected_size: u32,
    pub minimum_ram_size: u32,
}

/// The program record, which says what the main record says and, beyond
/// it, where the binary ends and which version the application has.
#[derive(Clone, Copy, Debug)]
pub struct TbfHeaderProgram {
    pub base: TbfHeaderTlv,
    pub init_fn_offset: u32,
    pub protected_size: u32,
    pub minimum_ram_size: u32,
    pub binary_end_offset: u32,
    pub app_version: u32,
}

/// The place of one region of flash that the application writes to.
#[derive(Clone, Copy, Debug)]
pub struct TbfHeaderWriteableFlashRegion {
    pub base: TbfHeaderTlv,
    pub offset: u32,
    pub size: u32,
}

/// The addresses at which the application must lie in RAM and in flash.
#[derive(Clone, Copy, Debug)]
pub struct TbfHeaderFixedAddresses {
    pub base: TbfHeaderTlv,
    pub start_process_ram: u32,
    pub start_process_flash: u32,
}

/// The commands of one driver that fall into one 64-bit word, one bit each.
#[derive(Clone, Copy, Debug)]
pub struct TbfHeaderDriverPermission {
    pub driver_number: u32,
    pub offset: u32,
    pub allowed_commands: u64,
}

/// The commands that the application may call, driver by driver.
#[derive(Debug)]
pub struct TbfHeaderPermissions {
    pub base: TbfHeaderTlv,
    pub length: u16,
    pub perms: Vec<TbfHeaderDriverPermission>,
}

/// The identifiers under which the application writes, reads and
/// accesses stored data.
#[derive(Debug)]
pub struct TbfHeaderPersistentAcl {
    pub base: TbfHeaderTlv,
    pub write_id: u32,
    pub read_length: u16,
    pub read_ids: Vec<u32>,
    pub access_length: u16,
    pub access_ids: Vec<u32>,
}

/// The kernel version that the application requires.
#[derive(Clone, Copy, Debug)]
pub struct TbfHeaderKernelVersion {
    pub base: TbfHeaderTlv,
    pub major: u16,
    pub minor: u16,
}

/// The permissions record as a mathematical value.
pub struct PermissionsView {
    pub base: TbfHeaderTlv,
    pub length: u16,
    pub perms: Seq<TbfHeaderDriverPermission>,
}

/// The storage record as a mathematical value.
pub struct PersistentAclView {
    pub base: TbfHeaderTlv,
    pub write_id: u32,
    pub read_length: u16,
    pub read_ids: Seq<u32>,
    pub access_length: u16,
    pub access_ids: Seq<u32>,
}

impl View for TbfHeaderPermissions {
    type V = PermissionsView;

    open spec fn view(&self) -> PermissionsView {
        PermissionsView { base: self.base, length: self.length, perms: self.perms@ }
    }
}

impl View for TbfHeaderPersistentAcl {
    type V = PersistentAclView;

    open spec fn view(&self) -> PersistentAclView {
        PersistentAclView {
            base: self.base,
            write_id: self.write_id,
            read_length: self.read_length,
            read_ids: self.read_ids@,
            access_length: self.access_length,
            access_ids: self.access_ids@,
        }
    }
}

/// A footer record: the record opening, the format of the credential and
/// its payload.
#[derive(Debug)]
pub struct TbfFooterCredentials {
    pub base: TbfHeaderTlv,
    pub format: TbfFooterCredentialsType,
    pub data: Vec<u8>,
}

/// The bytes of a record opening.
pub open spec fn tlv_bytes(tlv: TbfHeaderTlv) -> Seq<u8> {
    le_u16(tlv.tipe.spec_code()) + le_u16(tlv.length)
}

/// The bytes of a footer record.
pub open spec fn credentials_bytes(
    base: TbfHeaderTlv,
    format: TbfFooterCredentialsType,
    data: Seq<u8>,
) -> Seq<u8> {
    tlv_bytes(base) + le_u32(format.spec_code()) + data
}

fn put_tlv(output: &mut Vec<u8>, tlv: &TbfHeaderTlv)
    ensures
        final(output)@ == old(output)@ + tlv_bytes(*tlv),
{
    put_u16(output, tlv.tipe.code());
    put_u16(output, tlv.length);
    assert(output@ =~= old(output)@ + tlv_bytes(*tlv));
}

impl TbfFooterCredentials {
    /// The footer in binary form.
    pub open spec fn spec_bytes(&self) -> Seq<u8> {
        credentials_bytes(self.base, self.format, self.data@)
    }

    /// Creates the footer in binary form.
    pub fn generate(&self) -> (bytes: Vec<u8>)
        ensures
            bytes@ == self.spec_bytes(),
            bytes@.len() == 8 + self.data@.len(),
    {
        let mut buffer: Vec<u8> = Vec::new();
        put_tlv(&mut buffer, &self.base);
        put_u32(&mut buffer, self.format.code());
        append_bytes(&mut buffer, self.data.as_slice());
        assert(buffer@ =~= self.spec_bytes());
        buffer
    }
}


/// The flag bit that marks an application as enabled.
pub const FLAGS_ENABLE: u32 = 0x0000_0001;

/// The value that stands for an address that is not fixed.
pub const ADDRESS_UNSET: u32 = 0xFFFF_FFFF;

/// The largest header that the header-size field can describe.
pub const MAX_HEADER_LENGTH: usize = 0xFFFF;

/// A header under construction.
#[derive(Debug)]
pub struct TbfHeader {
    hdr_base: TbfHeaderBase,
    hdr_main: TbfHeaderMain,
    hdr_program: Option<TbfHeaderProgram>,
    hdr_pkg_name_tlv: Option<TbfHeaderTlv>,
    hdr_wfr: Vec<TbfHeaderWriteableFlashRegion>,
    hdr_fixed_addresses: Option<TbfHeaderFixedAddresses>,
    hdr_permissions: Option<TbfHeaderPermissions>,
    hdr_persistent: Option<TbfHeaderPersistentAcl>,
    hdr_kernel_version: Option<TbfHeaderKernelVersion>,
    package_name: String,
    package_name_pad: usize,
}

/// A header as a mathematical value.
pub struct TbfHeaderView {
    pub base: TbfHeaderBase,
    pub main: TbfHeaderMain,
    pub program: Option<TbfHeaderProgram>,
    pub pkg_name_tlv: Option<TbfHeaderTlv>,
    pub wfr: Seq<TbfHeaderWriteableFlashRegion>,
    pub fixed_addresses: Option<TbfHeaderFixedAddresses>,
    pub permissions: Option<PermissionsView>,
    pub persistent: Option<PersistentAclView>,
    pub kernel_version: Option<TbfHeaderKernelVersion>,
    /// The package name in UTF-8.
    pub package_name: Seq<u8>,
    pub package_name_pad: nat,
}

impl View for TbfHeader {
    type V = TbfHeaderView;

    closed spec fn view(&self) -> TbfHeaderView {
        TbfHeaderView {
            base: self.hdr_base,
            main: self.hdr_main,
            program: self.hdr_program,
            pkg_name_tlv: self.hdr_pkg_name_tlv,
            wfr: self.hdr_wfr@,
            fixed_addresses: self.hdr_fixed_addresses,
            permissions: match self.hdr_permissions {
                Some(permissions) => Some(permissions@),
                None => None,
            },
            persistent: match self.hdr_persistent {
                Some(persistent) => Some(persistent@),
                None => None,
            },
            kernel_version: self.hdr_kernel_version,
            package_name: vstd::utf8::encode_utf8(self.package_name@),
            package_name_pad: self.package_name_pad as nat,
        }
    }
}

// ---------------------------------------------------------------------
// Byte layout
// ---------------------------------------------------------------------

/// The sixteen bytes of the base record, with a zero checksum field.
pub open spec fn base_bytes(base: TbfHeaderBase) -> Seq<u8> {
    le_u16(base.version) + le_u16(base.header_size) + le_u32(base.total_size) + le_u32(base.flags)
        + zeros(4)
}

/// The main record: its opening and three 32-bit fields.
pub open spec fn main_bytes(main: TbfHeaderMain) -> Seq<u8> {
    tlv_bytes(main.base) + le_u32(main.init_fn_offset) + le_u32(main.protected_size) + le_u32(
        main.minimum_ram_size,
    )
}

/// The program record: its opening and five 32-bit fields.
pub open spec fn program_bytes(program: TbfHeaderProgram) -> Seq<u8> {
    tlv_bytes(program.base) + le_u32(program.init_fn_offset) + le_u32(program.protected_size)
        + le_u32(program.minimum_ram_size) + le_u32(program.binary_end_offset) + le_u32(
        program.app_version,
    )
}

/// One writeable flash region record: its opening, the offset and the
/// size.
pub open spec fn wfr_bytes(wfr: TbfHeaderWriteableFlashRegion) -> Seq<u8> {
    tlv_bytes(wfr.base) + le_u32(wfr.offset) + le_u32(wfr.size)
}

/// The writeable flash region records, one behind the other.
pub open spec fn wfr_list_bytes(list: Seq<TbfHeaderWriteableFlashRegion>) -> Seq<u8>
    decreases list.len(),
{
    if list.len() == 0 {
        Seq::empty()
    } else {
        wfr_list_bytes(list.drop_last()) + wfr_bytes(list.last())
    }
}

/// The fixed-addresses record: its opening, the address in RAM and the
/// address in flash.
pub open spec fn fixed_addresses_bytes(fixed: TbfHeaderFixedAddresses) -> Seq<u8> {
    tlv_bytes(fixed.base) + le_u32(fixed.start_process_ram) + le_u32(fixed.start_process_flash)
}

/// One permission entry: the driver number, the number of the word and
/// the 64 bits of the word.
pub open spec fn permission_bytes(perm: TbfHeaderDriverPermission) -> Seq<u8> {
    le_u32(perm.driver_number) + le_u32(perm.offset) + le_u64(perm.allowed_commands)
}

/// The permission entries, one behind the other.
pub open spec fn permission_list_bytes(list: Seq<TbfHeaderDriverPermission>) -> Seq<u8>
    decreases list.len(),
{
    if list.len() == 0 {
        Seq::empty()
    } else {
        permission_list_bytes(list.drop_last()) + permission_bytes(list.last())
    }
}

/// The permissions record: its opening, the number of entries in 16 bits,
/// the entries and two zero bytes.
pub open spec fn permissions_bytes(permissions: PermissionsView) -> Seq<u8> {
    tlv_bytes(permissions.base) + le_u16(permissions.length) + permission_list_bytes(
        permissions.perms,
    ) + zeros(2)
}

/// Storage identifiers, one behind the other.
pub open spec fn id_list_bytes(ids: Seq<u32>) -> Seq<u8>
    decreases ids.len(),
{
    if ids.len() == 0 {
        Seq::empty()
    } else {
        id_list_bytes(ids.drop_last()) + le_u32(ids.last())
    }
}

/// The storage record: its opening, the identifier to write under, then
/// the identifiers that may be read and those that may be accessed, each
/// list behind its length in 16 bits.
pub open spec fn persistent_bytes(persistent: PersistentAclView) -> Seq<u8> {
    tlv_bytes(persistent.base) + le_u32(persistent.write_id) + le_u16(persistent.read_length)
        + id_list_bytes(persistent.read_ids) + le_u16(persistent.access_length) + id_list_bytes(
        persistent.access_ids,
    )
}

/// The kernel version record: its opening, the major and the minor
/// version.
pub open spec fn kernel_version_bytes(kernel_version: TbfHeaderKernelVersion) -> Seq<u8> {
    tlv_bytes(kernel_version.base) + le_u16(kernel_version.major) + le_u16(kernel_version.minor)
}

/// The program record, where the header has one.
pub open spec fn program_part(h: TbfHeaderView) -> Seq<u8> {
    match h.program {
        Some(program) => program_bytes(program),
        None => Seq::empty(),
    }
}

/// The package name record, where the header has one: the record opening,
/// the name and its padding.
pub open spec fn package_name_part(h: TbfHeaderView) -> Seq<u8> {
    match h.pkg_name_tlv {
        Some(tlv) => tlv_bytes(tlv) + h.package_name + zeros(h.package_name_pad),
        None => Seq::empty(),
    }
}

/// The fixed-addresses record, where the header has one.
pub open spec fn fixed_addresses_part(h: TbfHeaderView) -> Seq<u8> {
    match h.fixed_addresses {
        Some(fixed) => fixed_addresses_bytes(fixed),
        None => Seq::empty(),
    }
}

/// The permissions record, where the header has one.
pub open spec fn permissions_part(h: TbfHeaderView) -> Seq<u8> {
    match h.permissions {
        Some(permissions) => permissions_bytes(permissions),
        None => Seq::empty(),
    }
}

/// The storage record, where the header has one.
pub open spec fn persistent_part(h: TbfHeaderView) -> Seq<u8> {
    match h.persistent {
        Some(persistent) => persistent_bytes(persistent),
        None => Seq::empty(),
    }
}

/// The kernel version record, where the header has one.
pub open spec fn kernel_version_part(h: TbfHeaderView) -> Seq<u8> {
    match h.kernel_version {
        Some(kernel_version) => kernel_version_bytes(kernel_version),
        None => Seq::empty(),
    }
}

/// All records of the header in their order, before the closing padding
/// and with a zero checksum field.
pub open spec fn unpadded_bytes(h: TbfHeaderView) -> Seq<u8> {
    base_bytes(h.base) + main_bytes(h.main) + program_part(h) + package_name_part(h)
        + wfr_list_bytes(h.wfr) + fixed_addresses_part(h) + permissions_part(h) + persistent_part(
        h,
    ) + kernel_version_part(h)
}

/// The records of the header, padded with zero bytes to a multiple of 4,
/// with a zero checksum field.
pub open spec fn padded_bytes(h: TbfHeaderView) -> Seq<u8> {
    unpadded_bytes(h) + zeros(spec_alignment_needed(unpadded_bytes(h).len() as int, 4) as nat)
}

/// The header in binary form.
pub open spec fn header_bytes(h: TbfHeaderView) -> Seq<u8> {
    with_checksum(padded_bytes(h))
}

/// The length of the records of the header before the closing padding.
pub open spec fn unpadded_length(h: TbfHeaderView) -> nat {
    (32 + (if h.program.is_some() {
        24nat
    } else {
        0nat
    }) + (if h.pkg_name_tlv.is_some() {
        4 + h.package_name.len() + h.package_name_pad
    } else {
        0nat
    }) + 12 * h.wfr.len() + (if h.fixed_addresses.is_some() {
        12nat
    } else {
        0nat
    }) + (match h.permissions {
        Some(permissions) => 8 + 16 * permissions.perms.len(),
        None => 0nat,
    }) + (match h.persistent {
        Some(persistent) => 12 + 4 * persistent.read_ids.len() + 4 * persistent.access_ids.len(),
        None => 0nat,
    }) + (if h.kernel_version.is_some() {
        8nat
    } else {
        0nat
    })) as nat
}

/// The length of the header in binary form.
pub open spec fn header_length(h: TbfHeaderView) -> nat {
    spec_align_to(unpadded_length(h) as int, 4) as nat
}

proof fn lemma_wfr_list_len(list: Seq<TbfHeaderWriteableFlashRegion>)
    ensures
        wfr_list_bytes(list).len() == 12 * list.len(),
    decreases list.len(),
{
    if list.len() > 0 {
        lemma_wfr_list_len(list.drop_last());
    }
}

proof fn lemma_permission_list_len(list: Seq<TbfHeaderDriverPermission>)
    ensures
        permission_list_bytes(list).len() == 16 * list.len(),
    decreases list.len(),
{
    if list.len() > 0 {
        lemma_permission_list_len(list.drop_last());
    }
}

proof fn lemma_id_list_len(ids: Seq<u32>)
    ensures
        id_list_bytes(ids).len() == 4 * ids.len(),
    decreases ids.len(),
{
    if ids.len() > 0 {
        lemma_id_list_len(ids.drop_last());
    }
}

/// The length of the serialized records is the sum of the record sizes.
pub proof fn lemma_unpadded_length(h: TbfHeaderView)
    ensures
        unpadded_bytes(h).len() == unpadded_length(h),
        unpadded_bytes(h).len() >= 32,
        unpadded_bytes(h).subrange(12, 16) == zeros(4),
{
    lemma_part_lengths(h);
    let base = base_bytes(h.base);
    let rest = main_bytes(h.main) + program_part(h) + package_name_part(h) + wfr_list_bytes(h.wfr)
        + fixed_addresses_part(h) + permissions_part(h) + persistent_part(h)
        + kernel_version_part(h);
    assert(unpadded_bytes(h) =~= base + rest);
    assert(base.subrange(12, 16) =~= zeros(4));
    assert((base + rest).subrange(12, 16) =~= base.subrange(12, 16));
}

/// The length of each part of the header.
proof fn lemma_part_lengths(h: TbfHeaderView)
    ensures
        base_bytes(h.base).len() == 16,
        main_bytes(h.main).len() == 16,
        program_part(h).len() == if h.program.is_some() {
            24nat
        } else {
            0nat
        },
        package_name_part(h).len() == if h.pkg_name_tlv.is_some() {
            4 + h.package_name.len() + h.package_name_pad
        } else {
            0nat
        },
        wfr_list_bytes(h.wfr).len() == 12 * h.wfr.len(),
        fixed_addresses_part(h).len() == if h.fixed_addresses.is_some() {
            12nat
        } else {
            0nat
        },
        permissions_part(h).len() == match h.permissions {
            Some(permissions) => 8 + 16 * permissions.perms.len(),
            None => 0nat,
        },
        persistent_part(h).len() == match h.persistent {
            Some(persistent) => 12 + 4 * persistent.read_ids.len() + 4
                * persistent.access_ids.len(),
            None => 0nat,
        },
        kernel_version_part(h).len() == if h.kernel_version.is_some() {
            8nat
        } else {
            0nat
        },
{
    lemma_wfr_list_len(h.wfr);
    if let Some(permissions) = h.permissions {
        lemma_permission_list_len(permissions.perms);
    }
    if let Some(persistent) = h.persistent {
        lemma_id_list_len(persistent.read_ids);
        lemma_id_list_len(persistent.access_ids);
    }
}

/// The header in binary form has the length that its records add up to,
/// rounded up to a multiple of 4, and the exclusive-or of all its 32-bit
/// words, the checksum among them, is zero.
pub proof fn lemma_header_bytes(h: TbfHeaderView)
    ensures
        header_bytes(h).len() == header_length(h),
        header_bytes(h).len() % 4 == 0,
        header_bytes(h).len() >= 32,
        xor_fold(header_bytes(h)) == 0,
{
    lemma_unpadded_length(h);
    lemma_alignment_needed(unpadded_length(h) as int, 4);
    let padded = padded_bytes(h);
    assert(padded.len() == header_length(h));
    assert(padded[12] == 0 && padded[13] == 0 && padded[14] == 0 && padded[15] == 0) by {
        assert(unpadded_bytes(h).subrange(12, 16)[0] == 0);
        assert(unpadded_bytes(h).subrange(12, 16)[1] == 0);
        assert(unpadded_bytes(h).subrange(12, 16)[2] == 0);
        assert(unpadded_bytes(h).subrange(12, 16)[3] == 0);
    }
    assert(word_at(padded, 3) == 0) by {
        assert((0u8 as u32) | ((0u8 as u32) << 8) | ((0u8 as u32) << 16) | ((0u8 as u32) << 24)
            == 0) by (bit_vector);
    }
    lemma_checksum_folds_to_zero(padded);
}

// ---------------------------------------------------------------------
// Serialization
// ---------------------------------------------------------------------

fn put_main(output: &mut Vec<u8>, main: &TbfHeaderMain)
    ensures
        final(output)@ == old(output)@ + main_bytes(*main),
{
    put_tlv(output, &main.base);
    put_u32(output, main.init_fn_offset);
    put_u32(output, main.protected_size);
    put_u32(output, main.minimum_ram_size);
    assert(output@ =~= old(output)@ + main_bytes(*main));
}

fn put_program(output: &mut Vec<u8>, program: &TbfHeaderProgram)
    ensures
        final(output)@ == old(output)@ + program_bytes(*program),
{
    put_tlv(output, &program.base);
    put_u32(output, program.init_fn_offset);
    put_u32(output, program.protected_size);
    put_u32(output, program.minimum_ram_size);
    put_u32(output, program.binary_end_offset);
    put_u32(output, program.app_version);
    assert(output@ =~= old(output)@ + program_bytes(*program));
}

fn put_wfr_list(output: &mut Vec<u8>, list: &Vec<TbfHeaderWriteableFlashRegion>)
    ensures
        final(output)@ == old(output)@ + wfr_list_bytes(list@),
{
    let mut index: usize = 0;
    assert(old(output)@ + wfr_list_bytes(list@.take(0)) =~= old(output)@);
    while index < list.len()
        invariant
            index <= list@.len(),
            output@ == old(output)@ + wfr_list_bytes(list@.take(index as int)),
        decreases list@.len() - index,
    {
        let ghost before = output@;
        put_tlv(output, &list[index].base);
        put_u32(output, list[index].offset);
        put_u32(output, list[index].size);
        proof {
            let taken = list@.take(index + 1);
            assert(taken.drop_last() =~= list@.take(index as int));
            assert(output@ =~= before + wfr_bytes(list@[index as int]));
            assert(output@ =~= old(output)@ + wfr_list_bytes(taken));
        }
        index += 1;
    }
    assert(list@.take(index as int) =~= list@);
}

fn put_permission_list(output: &mut Vec<u8>, list: &Vec<TbfHeaderDriverPermission>)
    ensures
        final(output)@ == old(output)@ + permission_list_bytes(list@),
{
    let mut index: usize = 0;
    assert(old(output)@ + permission_list_bytes(list@.take(0)) =~= old(output)@);
    while index < list.len()
        invariant
            index <= list@.len(),
            output@ == old(output)@ + permission_list_bytes(list@.take(index as int)),
        decreases list@.len() - index,
    {
        let ghost before = output@;
        put_u32(output, list[index].driver_number);
        put_u32(output, list[index].offset);
        put_u64(output, list[index].allowed_commands);
        proof {
            let taken = list@.take(index + 1);
            assert(taken.drop_last() =~= list@.take(index as int));
            assert(output@ =~= before + permission_bytes(list@[index as int]));
            assert(output@ =~= old(output)@ + permission_list_bytes(taken));
        }
        index += 1;
    }
    assert(list@.take(index as int) =~= list@);
}

fn put_id_list(output: &mut Vec<u8>, ids: &Vec<u32>)
    ensures
        final(output)@ == old(output)@ + id_list_bytes(ids@),
{
    let mut index: usize = 0;
    assert(old(output)@ + id_list_bytes(ids@.take(0)) =~= old(output)@);
    while index < ids.len()
        invariant
            index <= ids@.len(),
            output@ == old(output)@ + id_list_bytes(ids@.take(index as int)),
        decreases ids@.len() - index,
    {
        put_u32(output, ids[index]);
        proof {
            let taken = ids@.take(index + 1);
            assert(taken.drop_last() =~= ids@.take(index as int));
            assert(output@ =~= old(output)@ + id_list_bytes(taken));
        }
        index += 1;
    }
    assert(ids@.take(index as int) =~= ids@);
}

fn put_permissions(output: &mut Vec<u8>, permissions: &TbfHeaderPermissions)
    ensures
        final(output)@ == old(output)@ + permissions_bytes(permissions@),
{
    put_tlv(output, &permissions.base);
    put_u16(output, permissions.length);
    put_permission_list(output, &permissions.perms);
    do_pad(output, 2);
    assert(output@ =~= old(output)@ + permissions_bytes(permissions@));
}

fn put_persistent(output: &mut Vec<u8>, persistent: &TbfHeaderPersistentAcl)
    ensures
        final(output)@ == old(output)@ + persistent_bytes(persistent@),
{
    put_tlv(output, &persistent.base);
    put_u32(output, persistent.write_id);
    put_u16(output, persistent.read_length);
    put_id_list(output, &persistent.read_ids);
    put_u16(output, persistent.access_length);
    put_id_list(output, &persistent.access_ids);
    assert(output@ =~= old(output)@ + persistent_bytes(persistent@));
}

// ---------------------------------------------------------------------
// Construction
// ---------------------------------------------------------------------

/// The record opening of a record of kind `tipe` with `length` bytes.
pub open spec fn tlv(tipe: TbfHeaderTypes, length: u16) -> TbfHeaderTlv {
    TbfHeaderTlv { tipe, length }
}

/// A header that holds the base record and an empty main record.
pub open spec fn new_header() -> TbfHeaderView {
    TbfHeaderView {
        base: TbfHeaderBase { version: 2, header_size: 0, total_size: 0, flags: 0 },
        main: TbfHeaderMain {
            base: tlv(TbfHeaderTypes::Main, 12),
            init_fn_offset: 0,
            protected_size: 0,
            minimum_ram_size: 0,
        },
        program: None,
        pkg_name_tlv: None,
        wfr: Seq::empty(),
        fixed_addresses: None,
        permissions: None,
        persistent: None,
        kernel_version: None,
        package_name: Seq::empty(),
        package_name_pad: 0,
    }
}

/// A writeable flash region record whose place is not known yet.
pub open spec fn empty_wfr() -> TbfHeaderWriteableFlashRegion {
    TbfHeaderWriteableFlashRegion {
        base: tlv(TbfHeaderTypes::WriteableFlashRegions, 8),
        offset: 0,
        size: 0,
    }
}

/// The program record that takes its first three fields from the main
/// record.
pub open spec fn program_from_main(
    main: TbfHeaderMain,
    binary_end_offset: u32,
) -> TbfHeaderProgram {
    TbfHeaderProgram {
        base: tlv(TbfHeaderTypes::Program, 20),
        init_fn_offset: main.init_fn_offset,
        protected_size: main.protected_size,
        minimum_ram_size: main.minimum_ram_size,
        binary_end_offset,
        app_version: 0,
    }
}

/// What was asked of the storage record: the identifier to write under, the
/// identifiers that may be read and those that may be accessed.
pub type StorageIds = (Option<u32>, Option<Vec<u32>>, Option<Vec<u32>>);

/// The storage identifiers as mathematical values.
pub open spec fn storage_ids_view(storage_ids: StorageIds) -> (
    Option<u32>,
    Option<Seq<u32>>,
    Option<Seq<u32>>,
) {
    (
        storage_ids.0,
        match storage_ids.1 {
            Some(ids) => Some(ids@),
            None => None,
        },
        match storage_ids.2 {
            Some(ids) => Some(ids@),
            None => None,
        },
    )
}

/// A list of identifiers, or the empty list where none was given.
pub open spec fn ids_or_empty(ids: Option<Seq<u32>>) -> Seq<u32> {
    match ids {
        Some(ids) => ids,
        None => Seq::empty(),
    }
}

/// The header `h` with what is said of the application itself: whether it
/// is enabled, its minimum RAM size, its package name and the number of
/// its writeable flash regions.
///
/// The main record and the program record take the minimum RAM size, and a
/// program record is added where there was none. A package name that is
/// not empty gives a package name record, padded to a multiple of 4; an
/// empty one removes it. `wfr_count` empty writeable flash region records
/// are added.
pub open spec fn filled_application(
    h: TbfHeaderView,
    minimum_ram_size: u32,
    wfr_count: nat,
    package_name: Seq<u8>,
    disabled: bool,
) -> TbfHeaderView {
    TbfHeaderView {
        base: TbfHeaderBase {
            version: h.base.version,
            header_size: h.base.header_size,
            total_size: h.base.total_size,
            flags: if disabled {
                0
            } else {
                FLAGS_ENABLE
            },
        },
        main: TbfHeaderMain {
            base: h.main.base,
            init_fn_offset: h.main.init_fn_offset,
            protected_size: h.main.protected_size,
            minimum_ram_size,
        },
        program: Some(
            match h.program {
                Some(program) => TbfHeaderProgram {
                    base: program.base,
                    init_fn_offset: program.init_fn_offset,
                    protected_size: program.protected_size,
                    minimum_ram_size,
                    binary_end_offset: program.binary_end_offset,
                    app_version: program.app_version,
                },
                None => TbfHeaderProgram {
                    base: tlv(TbfHeaderTypes::Program, 20),
                    init_fn_offset: h.main.init_fn_offset,
                    protected_size: h.main.protected_size,
                    minimum_ram_size,
                    binary_end_offset: 0,
                    app_version: 0,
                },
            },
        ),
        pkg_name_tlv: if package_name.len() > 0 {
            Some(tlv(TbfHeaderTypes::PackageName, package_name.len() as u16))
        } else {
            None
        },
        wfr: h.wfr + Seq::new(wfr_count, |i: int| empty_wfr()),
        fixed_addresses: h.fixed_addresses,
        permissions: h.permissions,
        persistent: h.persistent,
        kernel_version: h.kernel_version,
        package_name,
        package_name_pad: if package_name.len() > 0 {
            spec_alignment_needed(package_name.len() as int, 4) as nat
        } else {
            0
        },
    }
}

/// The fixed-addresses record for the addresses that are given, or what
/// was there where none is given. An address that is not given is written
/// as unset.
pub open spec fn filled_fixed_addresses(
    before: Option<TbfHeaderFixedAddresses>,
    fixed_address_ram: Option<u32>,
    fixed_address_flash: Option<u32>,
) -> Option<TbfHeaderFixedAddresses> {
    if fixed_address_ram.is_some() || fixed_address_flash.is_some() {
        Some(
            TbfHeaderFixedAddresses {
                base: tlv(TbfHeaderTypes::FixedAddresses, 8),
                start_process_ram: match fixed_address_ram {
                    Some(address) => address,
                    None => ADDRESS_UNSET,
                },
                start_process_flash: match fixed_address_flash {
                    Some(address) => address,
                    None => ADDRESS_UNSET,
                },
            },
        )
    } else {
        before
    }
}

/// The permissions record for the requests, or what was there where the
/// requests come to no entry.
pub open spec fn filled_permissions(
    before: Option<PermissionsView>,
    permissions: Seq<(u32, u32)>,
) -> Option<PermissionsView> {
    let merged = merge_all(permissions);
    if merged.len() > 0 {
        Some(
            PermissionsView {
                base: tlv(TbfHeaderTypes::Permissions, (16 * merged.len() + 2) as u16),
                length: merged.len() as u16,
                perms: merged,
            },
        )
    } else {
        before
    }
}

/// The storage record for the identifiers, or what was there where none
/// of the three parts is given. An identifier to write under that is not
/// given is written as 0.
pub open spec fn filled_persistent(
    before: Option<PersistentAclView>,
    storage_ids: (Option<u32>, Option<Seq<u32>>, Option<Seq<u32>>),
) -> Option<PersistentAclView> {
    let read_ids = ids_or_empty(storage_ids.1);
    let access_ids = ids_or_empty(storage_ids.2);
    if storage_ids.0.is_some() || storage_ids.1.is_some() || storage_ids.2.is_some() {
        Some(
            PersistentAclView {
                base: tlv(
                    TbfHeaderTypes::Persistent,
                    (8 + 4 * read_ids.len() + 4 * access_ids.len()) as u16,
                ),
                write_id: match storage_ids.0 {
                    Some(id) => id,
                    None => 0,
                },
                read_length: read_ids.len() as u16,
                read_ids,
                access_length: access_ids.len() as u16,
                access_ids,
            },
        )
    } else {
        before
    }
}

/// The kernel version record for the version, or what was there where
/// none is given.
pub open spec fn filled_kernel_version(
    before: Option<TbfHeaderKernelVersion>,
    kernel_version: Option<(u16, u16)>,
) -> Option<TbfHeaderKernelVersion> {
    match kernel_version {
        Some((major, minor)) => Some(
            TbfHeaderKernelVersion { base: tlv(TbfHeaderTypes::KernelVersion, 4), major, minor },
        ),
        None => before,
    }
}

/// The header `h` with the records that say where the application must
/// lie, what it may do and what it needs: a fixed-addresses record where
/// either address is given, a permissions record where the requests come
/// to at least one entry, a storage record where any of the three parts is
/// given, and a kernel version record where a version is given. A record
/// that is not asked for stays as it was.
pub open spec fn filled_records(
    h: TbfHeaderView,
    fixed_address_ram: Option<u32>,
    fixed_address_flash: Option<u32>,
    permissions: Seq<(u32, u32)>,
    storage_ids: (Option<u32>, Option<Seq<u32>>, Option<Seq<u32>>),
    kernel_version: Option<(u16, u16)>,
) -> TbfHeaderView {
    TbfHeaderView {
        fixed_addresses: filled_fixed_addresses(
            h.fixed_addresses,
            fixed_address_ram,
            fixed_address_flash,
        ),
        permissions: filled_permissions(h.permissions, permissions),
        persistent: filled_persistent(h.persistent, storage_ids),
        kernel_version: filled_kernel_version(h.kernel_version, kernel_version),
        ..h
    }
}

/// The header `h` once the parameters of an application are filled in;
/// the header-size field is left as it was.
pub open spec fn filled(
    h: TbfHeaderView,
    minimum_ram_size: u32,
    wfr_count: nat,
    package_name: Seq<u8>,
    fixed_address_ram: Option<u32>,
    fixed_address_flash: Option<u32>,
    permissions: Seq<(u32, u32)>,
    storage_ids: (Option<u32>, Option<Seq<u32>>, Option<Seq<u32>>),
    kernel_version: Option<(u16, u16)>,
    disabled: bool,
) -> TbfHeaderView {
    filled_records(
        filled_application(h, minimum_ram_size, wfr_count, package_name, disabled),
        fixed_address_ram,
        fixed_address_flash,
        permissions,
        storage_ids,
        kernel_version,
    )
}

/// `h` with `header_size` in its header-size field.
pub open spec fn with_header_size(h: TbfHeaderView, header_size: u16) -> TbfHeaderView {
    TbfHeaderView {
        base: TbfHeaderBase {
            version: h.base.version,
            header_size,
            total_size: h.base.total_size,
            flags: h.base.flags,
        },
        main: h.main,
        program: h.program,
        pkg_name_tlv: h.pkg_name_tlv,
        wfr: h.wfr,
        fixed_addresses: h.fixed_addresses,
        permissions: h.permissions,
        persistent: h.persistent,
        kernel_version: h.kernel_version,
        package_name: h.package_name,
        package_name_pad: h.package_name_pad,
    }
}

/// `list` with the first record whose size is zero set to `offset` and
/// `size`; `list` itself where no record has size zero.
pub open spec fn with_region(
    list: Seq<TbfHeaderWriteableFlashRegion>,
    offset: u32,
    size: u32,
) -> Seq<TbfHeaderWriteableFlashRegion>
    decreases list.len(),
{
    if list.len() == 0 {
        list
    } else if list[0].size == 0 {
        list.update(0, TbfHeaderWriteableFlashRegion { base: list[0].base, offset, size })
    } else {
        seq![list[0]] + with_region(list.drop_first(), offset, size)
    }
}

/// How many identifiers may be read and how many accessed, where a
/// storage record is asked for.
pub open spec fn storage_counts(
    storage_ids: (Option<u32>, Option<Seq<u32>>, Option<Seq<u32>>),
) -> Option<(nat, nat)> {
    if storage_ids.0.is_some() || storage_ids.1.is_some() || storage_ids.2.is_some() {
        Some((ids_or_empty(storage_ids.1).len(), ids_or_empty(storage_ids.2).len()))
    } else {
        None
    }
}

/// The length of the records of a header from their sizes: the base, main
/// and program records; the package name with its record opening and
/// padding; 12 bytes for each writeable flash region; the fixed-addresses
/// record; the permissions record with 16 bytes for each entry; the storage
/// record with 4 bytes for each identifier; the kernel version record.
pub open spec fn sizes_length(
    name_length: nat,
    regions: nat,
    fixed: bool,
    entries: Option<nat>,
    storage: Option<(nat, nat)>,
    kernel: bool,
) -> nat {
    (56 + (if name_length > 0 {
        4 + name_length + spec_alignment_needed(name_length as int, 4)
    } else {
        0
    }) + 12 * regions + (if fixed {
        12nat
    } else {
        0nat
    }) + (match entries {
        Some(entries) => 8 + 16 * entries,
        None => 0nat,
    }) + (match storage {
        Some((read_count, access_count)) => 12 + 4 * read_count + 4 * access_count,
        None => 0nat,
    }) + (if kernel {
        8nat
    } else {
        0nat
    })) as nat
}

/// The length of the records of a header once parameters are filled in,
/// from the sizes of the parameters. Each record that is asked for counts
/// with its new size, and each that is not with the size that it had.
pub open spec fn planned_unpadded_length(
    h: TbfHeaderView,
    wfr_count: nat,
    name_length: nat,
    fixed: bool,
    entries: nat,
    storage: Option<(nat, nat)>,
    kernel: bool,
) -> nat {
    sizes_length(
        name_length,
        h.wfr.len() + wfr_count,
        fixed || h.fixed_addresses.is_some(),
        if entries > 0 {
            Some(entries)
        } else {
            match h.permissions {
                Some(permissions) => Some(permissions.perms.len()),
                None => None,
            }
        },
        match storage {
            Some(counts) => Some(counts),
            None => match h.persistent {
                Some(persistent) => Some(
                    (persistent.read_ids.len(), persistent.access_ids.len()),
                ),
                None => None,
            },
        },
        kernel || h.kernel_version.is_some(),
    )
}

/// The records of a filled-in header have the planned length.
pub proof fn lemma_planned_length(
    h: TbfHeaderView,
    minimum_ram_size: u32,
    wfr_count: nat,
    package_name: Seq<u8>,
    fixed_address_ram: Option<u32>,
    fixed_address_flash: Option<u32>,
    permissions: Seq<(u32, u32)>,
    storage_ids: (Option<u32>, Option<Seq<u32>>, Option<Seq<u32>>),
    kernel_version: Option<(u16, u16)>,
    disabled: bool,
)
    ensures
        unpadded_length(
            filled(
                h,
                minimum_ram_size,
                wfr_count,
                package_name,
                fixed_address_ram,
                fixed_address_flash,
                permissions,
                storage_ids,
                kernel_version,
                disabled,
            ),
        ) == planned_unpadded_length(
            h,
            wfr_count,
            package_name.len(),
            fixed_address_ram.is_some() || fixed_address_flash.is_some(),
            merge_all(permissions).len(),
            storage_counts(storage_ids),
            kernel_version.is_some(),
        ),
{
    lemma_alignment_needed(package_name.len() as int, 4);
}

fn push_empty_regions(list: &mut Vec<TbfHeaderWriteableFlashRegion>, count: usize)
    ensures
        final(list)@ == old(list)@ + Seq::new(count as nat, |i: int| empty_wfr()),
{
    let mut added: usize = 0;
    assert(list@ =~= old(list)@ + Seq::new(0, |i: int| empty_wfr()));
    while added < count
        invariant
            added <= count,
            list@ == old(list)@ + Seq::new(added as nat, |i: int| empty_wfr()),
        decreases count - added,
    {
        list.push(
            TbfHeaderWriteableFlashRegion {
                base: TbfHeaderTlv { tipe: TbfHeaderTypes::WriteableFlashRegions, length: 8 },
                offset: 0,
                size: 0,
            },
        );
        added += 1;
        assert(list@ =~= old(list)@ + Seq::new(added as nat, |i: int| empty_wfr()));
    }
}

/// The length of a header in binary form from the sizes of its records,
/// or `None` where that length is more than the header-size field can hold.
fn length_of_sizes(
    name_length: usize,
    regions_before: usize,
    regions_added: usize,
    fixed: bool,
    entries: Option<usize>,
    storage: Option<(usize, usize)>,
    kernel: bool,
) -> (length: Option<usize>)
    ensures
        ({
            let unpadded = sizes_length(
                name_length as nat,
                (regions_before + regions_added) as nat,
                fixed,
                match entries {
                    Some(entries) => Some(entries as nat),
                    None => None,
                },
                match storage {
                    Some((read_count, access_count)) => Some(
                        (read_count as nat, access_count as nat),
                    ),
                    None => None,
                },
                kernel,
            );
            length == if spec_align_to(unpadded as int, 4) <= MAX_HEADER_LENGTH {
                Some(spec_align_to(unpadded as int, 4) as usize)
            } else {
                None
            }
        }),
{
    let ghost unpadded = sizes_length(
        name_length as nat,
        (regions_before + regions_added) as nat,
        fixed,
        match entries {
            Some(entries) => Some(entries as nat),
            None => None,
        },
        match storage {
            Some((read_count, access_count)) => Some((read_count as nat, access_count as nat)),
            None => None,
        },
        kernel,
    );
    proof {
        lemma_alignment_needed(unpadded as int, 4);
        lemma_alignment_needed(name_length as int, 4);
    }
    if name_length > MAX_HEADER_LENGTH || regions_before > MAX_HEADER_LENGTH || regions_added
        > MAX_HEADER_LENGTH {
        return None;
    }
    let name_part: usize = if name_length > 0 {
        4 + name_length + (4 - name_length % 4) % 4
    } else {
        0
    };
    let fixed_part: usize = if fixed {
        12
    } else {
        0
    };
    let permissions_part: usize = match entries {
        Some(entries) => {
            if entries > MAX_HEADER_LENGTH {
                return None;
            }
            8 + 16 * entries
        },
        None => 0,
    };
    let storage_part: usize = match storage {
        Some((read_count, access_count)) => {
            if read_count > MAX_HEADER_LENGTH || access_count > MAX_HEADER_LENGTH {
                return None;
            }
            12 + 4 * read_count + 4 * access_count
        },
        None => 0,
    };
    let kernel_part: usize = if kernel {
        8
    } else {
        0
    };
    let unpadded_length: usize = 56 + name_part + 12 * (regions_before + regions_added)
        + fixed_part + permissions_part + storage_part + kernel_part;
    assert(unpadded_length == unpadded);
    let length: usize = unpadded_length + (4 - unpadded_length % 4) % 4;
    if length > MAX_HEADER_LENGTH {
        None
    } else {
        Some(length)
    }
}

impl TbfHeader {
    /// A header that holds the base record and an empty main record.
    pub fn new() -> (header: Self)
        ensures
            header@ == new_header(),
    {
        let header = Self {
            hdr_base: TbfHeaderBase { version: 2, header_size: 0, total_size: 0, flags: 0 },
            hdr_main: TbfHeaderMain {
                base: TbfHeaderTlv { tipe: TbfHeaderTypes::Main, length: 12 },
                init_fn_offset: 0,
                protected_size: 0,
                minimum_ram_size: 0,
            },
            hdr_program: None,
            hdr_pkg_name_tlv: None,
            hdr_wfr: Vec::new(),
            hdr_fixed_addresses: None,
            hdr_permissions: None,
            hdr_persistent: None,
            hdr_kernel_version: None,
            package_name: String::new(),
            package_name_pad: 0,
        };
        assert(header@.package_name =~= Seq::<u8>::empty());
        assert(header@.wfr =~= Seq::empty());
        header
    }

    /// Sets how far the protected region reaches past the header, in the
    /// main record and in the program record.
    pub fn set_protected_size(&mut self, protected_size: u32)
        ensures
            final(self)@ == (TbfHeaderView {
                main: TbfHeaderMain {
                    base: old(self)@.main.base,
                    init_fn_offset: old(self)@.main.init_fn_offset,
                    protected_size,
                    minimum_ram_size: old(self)@.main.minimum_ram_size,
                },
                program: match old(self)@.program {
                    Some(program) => Some(
                        TbfHeaderProgram {
                            base: program.base,
                            init_fn_offset: program.init_fn_offset,
                            protected_size,
                            minimum_ram_size: program.minimum_ram_size,
                            binary_end_offset: program.binary_end_offset,
                            app_version: program.app_version,
                        },
                    ),
                    None => None,
                },
                ..old(self)@
            }),
    {
        self.hdr_main.protected_size = protected_size;
        if let Some(program) = self.hdr_program {
            self.hdr_program = Some(
                TbfHeaderProgram {
                    base: program.base,
                    init_fn_offset: program.init_fn_offset,
                    protected_size,
                    minimum_ram_size: program.minimum_ram_size,
                    binary_end_offset: program.binary_end_offset,
                    app_version: program.app_version,
                },
            );
        }
    }

    /// The base record.
    pub fn base(&self) -> (base: TbfHeaderBase)
        ensures
            base == self@.base,
    {
        self.hdr_base
    }

    /// The main record.
    pub fn main(&self) -> (main: TbfHeaderMain)
        ensures
            main == self@.main,
    {
        self.hdr_main
    }

    /// The program record, where the header has one.
    pub fn program(&self) -> (program: Option<TbfHeaderProgram>)
        ensures
            program == self@.program,
    {
        self.hdr_program
    }

    /// The records of the writeable flash regions.
    pub fn writeable_flash_regions(&self) -> (regions: &Vec<TbfHeaderWriteableFlashRegion>)
        ensures
            regions@ == self@.wfr,
    {
        &self.hdr_wfr
    }

    /// The fixed-addresses record, where the header has one.
    pub fn fixed_addresses(&self) -> (fixed: Option<TbfHeaderFixedAddresses>)
        ensures
            fixed == self@.fixed_addresses,
    {
        self.hdr_fixed_addresses
    }

    /// The permissions record, where the header has one.
    pub fn permissions(&self) -> (permissions: &Option<TbfHeaderPermissions>)
        ensures
            match *permissions {
                Some(record) => self@.permissions == Some(record@),
                None => self@.permissions.is_none(),
            },
    {
        &self.hdr_permissions
    }

    /// The storage record, where the header has one.
    pub fn persistent(&self) -> (persistent: &Option<TbfHeaderPersistentAcl>)
        ensures
            match *persistent {
                Some(record) => self@.persistent == Some(record@),
                None => self@.persistent.is_none(),
            },
    {
        &self.hdr_persistent
    }

    /// The kernel version record, where the header has one.
    pub fn kernel_version(&self) -> (kernel_version: Option<TbfHeaderKernelVersion>)
        ensures
            kernel_version == self@.kernel_version,
    {
        self.hdr_kernel_version
    }

    /// The package name.
    pub fn package_name(&self) -> (name: &String)
        ensures
            vstd::utf8::encode_utf8(name@) == self@.package_name,
    {
        &self.package_name
    }

    /// What the header-size field holds: the length of the header in binary
    /// form, once `create` has set it.
    pub fn header_size(&self) -> (size: u16)
        ensures
            size == self@.base.header_size,
    {
        self.hdr_base.header_size
    }

    /// Sets the size of the whole application binary.
    pub fn set_total_size(&mut self, total_size: u32)
        ensures
            final(self)@ == (TbfHeaderView {
                base: TbfHeaderBase {
                    version: old(self)@.base.version,
                    header_size: old(self)@.base.header_size,
                    total_size,
                    flags: old(self)@.base.flags,
                },
                ..old(self)@
            }),
    {
        self.hdr_base.total_size = total_size;
    }

    /// Sets the offset of the entry point, in the main record and in the
    /// program record.
    pub fn set_init_fn_offset(&mut self, init_fn_offset: u32)
        ensures
            final(self)@ == (TbfHeaderView {
                main: TbfHeaderMain {
                    base: old(self)@.main.base,
                    init_fn_offset,
                    protected_size: old(self)@.main.protected_size,
                    minimum_ram_size: old(self)@.main.minimum_ram_size,
                },
                program: match old(self)@.program {
                    Some(program) => Some(
                        TbfHeaderProgram {
                            base: program.base,
                            init_fn_offset,
                            protected_size: program.protected_size,
                            minimum_ram_size: program.minimum_ram_size,
                            binary_end_offset: program.binary_end_offset,
                            app_version: program.app_version,
                        },
                    ),
                    None => None,
                },
                ..old(self)@
            }),
    {
        self.hdr_main.init_fn_offset = init_fn_offset;
        if let Some(program) = self.hdr_program {
            self.hdr_program = Some(
                TbfHeaderProgram {
                    base: program.base,
                    init_fn_offset,
                    protected_size: program.protected_size,
                    minimum_ram_size: program.minimum_ram_size,
                    binary_end_offset: program.binary_end_offset,
                    app_version: program.app_version,
                },
            );
        }
    }

    /// Sets the minimum RAM size, in the main record and in the program
    /// record.
    pub fn set_minimum_ram_size(&mut self, minimum_ram_size: u32)
        ensures
            final(self)@ == (TbfHeaderView {
                main: TbfHeaderMain {
                    base: old(self)@.main.base,
                    init_fn_offset: old(self)@.main.init_fn_offset,
                    protected_size: old(self)@.main.protected_size,
                    minimum_ram_size,
                },
                program: match old(self)@.program {
                    Some(program) => Some(
                        TbfHeaderProgram {
                            base: program.base,
                            init_fn_offset: program.init_fn_offset,
                            protected_size: program.protected_size,
                            minimum_ram_size,
                            binary_end_offset: program.binary_end_offset,
                            app_version: program.app_version,
                        },
                    ),
                    None => None,
                },
                ..old(self)@
            }),
    {
        self.hdr_main.minimum_ram_size = minimum_ram_size;
        if let Some(program) = self.hdr_program {
            self.hdr_program = Some(
                TbfHeaderProgram {
                    base: program.base,
                    init_fn_offset: program.init_fn_offset,
                    protected_size: program.protected_size,
                    minimum_ram_size,
                    binary_end_offset: program.binary_end_offset,
                    app_version: program.app_version,
                },
            );
        }
    }

    /// Sets where the binary ends and the footers begin. This writes a new
    /// program record, which takes its other fields from the main record
    /// and has application version 0.
    pub fn set_binary_end_offset(&mut self, binary_end_offset: u32)
        ensures
            final(self)@ == (TbfHeaderView {
                program: Some(program_from_main(old(self)@.main, binary_end_offset)),
                ..old(self)@
            }),
    {
        self.hdr_program = Some(
            TbfHeaderProgram {
                base: TbfHeaderTlv { tipe: TbfHeaderTypes::Program, length: 20 },
                init_fn_offset: self.hdr_main.init_fn_offset,
                protected_size: self.hdr_main.protected_size,
                minimum_ram_size: self.hdr_main.minimum_ram_size,
                binary_end_offset,
                app_version: 0,
            },
        );
    }

    /// Where the binary ends: the field of the program record, or the total
    /// size where the header has no program record.
    pub open spec fn spec_binary_end_offset(h: TbfHeaderView) -> u32 {
        match h.program {
            Some(program) => program.binary_end_offset,
            None => h.base.total_size,
        }
    }

    /// Where the binary ends: the field of the program record, or the total
    /// size where the header has no program record.
    pub fn binary_end_offset(&self) -> (offset: u32)
        ensures
            offset == Self::spec_binary_end_offset(self@),
    {
        match self.hdr_program {
            Some(program) => program.binary_end_offset,
            None => self.hdr_base.total_size,
        }
    }

    /// Sets the application version in the program record; a header without
    /// a program record stays as it is.
    pub fn set_app_version(&mut self, version: u32)
        ensures
            final(self)@ == (TbfHeaderView {
                program: match old(self)@.program {
                    Some(program) => Some(
                        TbfHeaderProgram {
                            base: program.base,
                            init_fn_offset: program.init_fn_offset,
                            protected_size: program.protected_size,
                            minimum_ram_size: program.minimum_ram_size,
                            binary_end_offset: program.binary_end_offset,
                            app_version: version,
                        },
                    ),
                    None => None,
                },
                ..old(self)@
            }),
    {
        if let Some(program) = self.hdr_program {
            self.hdr_program = Some(
                TbfHeaderProgram {
                    base: program.base,
                    init_fn_offset: program.init_fn_offset,
                    protected_size: program.protected_size,
                    minimum_ram_size: program.minimum_ram_size,
                    binary_end_offset: program.binary_end_offset,
                    app_version: version,
                },
            );
        }
    }

    /// Records the place of a writeable flash region in the first record
    /// that is still unused, that is whose size is zero. Where every record
    /// is in use the header stays as it is.
    pub fn set_writeable_flash_region_values(&mut self, offset: u32, size: u32)
        ensures
            final(self)@ == (TbfHeaderView {
                wfr: with_region(old(self)@.wfr, offset, size),
                ..old(self)@
            }),
    {
        let mut index: usize = 0;
        let ghost regions = self.hdr_wfr@;
        assert(regions.skip(0) =~= regions);
        while index < self.hdr_wfr.len()
            invariant
                index <= regions.len(),
                self.hdr_wfr@ == regions,
                regions == old(self)@.wfr,
                (TbfHeaderView { wfr: regions, ..self@ }) == old(self)@,
                with_region(regions, offset, size) == regions.take(index as int) + with_region(
                    regions.skip(index as int),
                    offset,
                    size,
                ),
            decreases regions.len() - index,
        {
            let region: TbfHeaderWriteableFlashRegion = self.hdr_wfr[index];
            let ghost tail = regions.skip(index as int);
            assert(tail[0] == region);
            if region.size == 0 {
                self.hdr_wfr[index] = TbfHeaderWriteableFlashRegion {
                    base: region.base,
                    offset,
                    size,
                };
                assert(self.hdr_wfr@ =~= regions.take(index as int) + with_region(
                    tail,
                    offset,
                    size,
                ));
                return ;
            }
            proof {
                assert(tail.drop_first() =~= regions.skip(index + 1));
                assert(regions.take(index + 1) =~= regions.take(index as int) + seq![region]);
                assert(regions.take(index as int) + (seq![tail[0]] + with_region(
                    tail.drop_first(),
                    offset,
                    size,
                )) =~= regions.take(index + 1) + with_region(
                    regions.skip(index + 1),
                    offset,
                    size,
                ));
            }
            index += 1;
        }
        proof {
            assert(regions.skip(index as int) =~= Seq::empty());
            assert(regions.take(index as int) + Seq::empty() =~= regions);
        }
    }

    /// Appends the base record, the main record and the program record.
    fn put_fixed_part(&self, output: &mut Vec<u8>)
        ensures
            final(output)@ == old(output)@ + base_bytes(self@.base) + main_bytes(self@.main)
                + program_part(self@),
    {
        let ghost start = output@;
        put_u16(output, self.hdr_base.version);
        put_u16(output, self.hdr_base.header_size);
        put_u32(output, self.hdr_base.total_size);
        put_u32(output, self.hdr_base.flags);
        do_pad(output, 4);
        assert(output@ =~= start + base_bytes(self@.base));
        put_main(output, &self.hdr_main);
        let ghost with_main = output@;
        match &self.hdr_program {
            Some(program) => {
                put_program(output, program);
            },
            None => {
                assert(output@ =~= with_main + program_part(self@));
            },
        }
    }

    /// Appends the package name record, where the header has one.
    fn put_package_name(&self, output: &mut Vec<u8>)
        ensures
            final(output)@ == old(output)@ + package_name_part(self@),
    {
        let ghost start = output@;
        match &self.hdr_pkg_name_tlv {
            Some(tlv) => {
                put_tlv(output, tlv);
                append_bytes(output, self.package_name.as_str().as_bytes());
                do_pad(output, self.package_name_pad);
                assert(output@ =~= start + package_name_part(self@));
            },
            None => {
                assert(output@ =~= start + package_name_part(self@));
            },
        }
    }

    /// Appends the records that follow the writeable flash regions.
    fn put_optional_records(&self, output: &mut Vec<u8>)
        ensures
            final(output)@ == old(output)@ + fixed_addresses_part(self@) + permissions_part(self@)
                + persistent_part(self@) + kernel_version_part(self@),
    {
        let ghost start = output@;
        match &self.hdr_fixed_addresses {
            Some(fixed) => {
                put_tlv(output, &fixed.base);
                put_u32(output, fixed.start_process_ram);
                put_u32(output, fixed.start_process_flash);
                assert(output@ =~= start + fixed_addresses_part(self@));
            },
            None => {
                assert(output@ =~= start + fixed_addresses_part(self@));
            },
        }
        let ghost with_fixed = output@;
        match &self.hdr_permissions {
            Some(permissions) => {
                put_permissions(output, permissions);
            },
            None => {
                assert(output@ =~= with_fixed + permissions_part(self@));
            },
        }
        let ghost with_permissions = output@;
        match &self.hdr_persistent {
            Some(persistent) => {
                put_persistent(output, persistent);
            },
            None => {
                assert(output@ =~= with_permissions + persistent_part(self@));
            },
        }
        let ghost with_persistent = output@;
        match &self.hdr_kernel_version {
            Some(kernel_version) => {
                put_tlv(output, &kernel_version.base);
                put_u16(output, kernel_version.major);
                put_u16(output, kernel_version.minor);
                assert(output@ =~= with_persistent + kernel_version_part(self@));
            },
            None => {
                assert(output@ =~= with_persistent + kernel_version_part(self@));
            },
        }
    }

    /// Creates the header in binary form: the records in their order, zero
    /// bytes up to a multiple of 4, and the checksum in its field.
    pub fn generate(&self) -> (bytes: Vec<u8>)
        ensures
            bytes@ == header_bytes(self@),
            bytes@.len() == header_length(self@),
            bytes@.len() % 4 == 0,
            xor_fold(bytes@) == 0,
    {
        let mut buffer: Vec<u8> = Vec::new();
        self.put_fixed_part(&mut buffer);
        let ghost fixed_part = buffer@;
        self.put_package_name(&mut buffer);
        put_wfr_list(&mut buffer, &self.hdr_wfr);
        let ghost middle = buffer@;
        assert(middle == fixed_part + package_name_part(self@) + wfr_list_bytes(self@.wfr));
        self.put_optional_records(&mut buffer);
        assert(buffer@ == unpadded_bytes(self@));
        proof {
            lemma_unpadded_length(self@);
            lemma_header_bytes(self@);
        }
        let current_length: usize = buffer.len();
        do_pad(&mut buffer, (4 - current_length % 4) % 4);
        assert(buffer@ == padded_bytes(self@));
        inject_checksum(&mut buffer);
        buffer
    }

    /// The header that `create` leaves: the parameters filled in, and the
    /// length of the header in binary form in the header-size field.
    pub open spec fn spec_create(
        h: TbfHeaderView,
        minimum_ram_size: u32,
        wfr_count: nat,
        package_name: Seq<u8>,
        fixed_address_ram: Option<u32>,
        fixed_address_flash: Option<u32>,
        permissions: Seq<(u32, u32)>,
        storage_ids: (Option<u32>, Option<Seq<u32>>, Option<Seq<u32>>),
        kernel_version: Option<(u16, u16)>,
        disabled: bool,
    ) -> TbfHeaderView {
        let target = filled(
            h,
            minimum_ram_size,
            wfr_count,
            package_name,
            fixed_address_ram,
            fixed_address_flash,
            permissions,
            storage_ids,
            kernel_version,
            disabled,
        );
        with_header_size(target, header_length(target) as u16)
    }

    /// The length that the header would have in binary form once the
    /// parameters are filled in, or `None` where that length is more than
    /// the header-size field can hold.
    pub fn planned_length(
        &self,
        writeable_flash_regions: usize,
        package_name: &String,
        fixed_address_ram: Option<u32>,
        fixed_address_flash: Option<u32>,
        permissions: &Vec<(u32, u32)>,
        storage_ids: &StorageIds,
        kernel_version: Option<(u16, u16)>,
    ) -> (length: Option<usize>)
        ensures
            ({
                let target = filled(
                    self@,
                    0,
                    writeable_flash_regions as nat,
                    vstd::utf8::encode_utf8(package_name@),
                    fixed_address_ram,
                    fixed_address_flash,
                    permissions@,
                    storage_ids_view(*storage_ids),
                    kernel_version,
                    false,
                );
                length == if header_length(target) <= MAX_HEADER_LENGTH {
                    Some(header_length(target) as usize)
                } else {
                    None
                }
            }),
    {
        proof {
            lemma_planned_length(
                self@,
                0,
                writeable_flash_regions as nat,
                vstd::utf8::encode_utf8(package_name@),
                fixed_address_ram,
                fixed_address_flash,
                permissions@,
                storage_ids_view(*storage_ids),
                kernel_version,
                false,
            );
        }
        let merged: Vec<TbfHeaderDriverPermission> = merge_permissions(permissions);
        let entries: Option<usize> = if merged.len() > 0 {
            Some(merged.len())
        } else {
            match &self.hdr_permissions {
                Some(present) => Some(present.perms.len()),
                None => None,
            }
        };
        let storage: Option<(usize, usize)> = if storage_ids.0.is_some() || storage_ids.1.is_some()
            || storage_ids.2.is_some() {
            Some(
                (
                    match &storage_ids.1 {
                        Some(ids) => ids.len(),
                        None => 0,
                    },
                    match &storage_ids.2 {
                        Some(ids) => ids.len(),
                        None => 0,
                    },
                ),
            )
        } else {
            match &self.hdr_persistent {
                Some(present) => Some((present.read_ids.len(), present.access_ids.len())),
                None => None,
            }
        };
        length_of_sizes(
            package_name.as_str().as_bytes().len(),
            self.hdr_wfr.len(),
            writeable_flash_regions,
            fixed_address_ram.is_some() || fixed_address_flash.is_some()
                || self.hdr_fixed_addresses.is_some(),
            entries,
            storage,
            kernel_version.is_some() || self.hdr_kernel_version.is_some(),
        )
    }

    /// Fills in what is said of the application itself.
    fn fill_application(
        &mut self,
        minimum_ram_size: u32,
        writeable_flash_regions: usize,
        package_name: String,
        disabled: bool,
    )
        requires
            vstd::utf8::encode_utf8(package_name@).len() <= u16::MAX,
        ensures
            final(self)@ == filled_application(
                old(self)@,
                minimum_ram_size,
                writeable_flash_regions as nat,
                vstd::utf8::encode_utf8(package_name@),
                disabled,
            ),
    {
        self.hdr_base.flags = if disabled {
            0
        } else {
            FLAGS_ENABLE
        };
        self.hdr_main.minimum_ram_size = minimum_ram_size;
        self.hdr_program = Some(
            match self.hdr_program {
                Some(program) => TbfHeaderProgram {
                    base: program.base,
                    init_fn_offset: program.init_fn_offset,
                    protected_size: program.protected_size,
                    minimum_ram_size,
                    binary_end_offset: program.binary_end_offset,
                    app_version: program.app_version,
                },
                None => TbfHeaderProgram {
                    base: TbfHeaderTlv { tipe: TbfHeaderTypes::Program, length: 20 },
                    init_fn_offset: self.hdr_main.init_fn_offset,
                    protected_size: self.hdr_main.protected_size,
                    minimum_ram_size,
                    binary_end_offset: 0,
                    app_version: 0,
                },
            },
        );

        // The package name and the padding that brings what follows it onto a
        // multiple of 4.
        let name_length: usize = package_name.as_str().as_bytes().len();
        if name_length > 0 {
            self.hdr_pkg_name_tlv = Some(
                TbfHeaderTlv { tipe: TbfHeaderTypes::PackageName, length: name_length as u16 },
            );
            self.package_name_pad = (4 - name_length % 4) % 4;
        } else {
            self.hdr_pkg_name_tlv = None;
            self.package_name_pad = 0;
        }
        self.package_name = package_name;

        // Room for the writeable flash regions, whose places are set later.
        push_empty_regions(&mut self.hdr_wfr, writeable_flash_regions);
    }

    /// Fills in the records that say where the application must lie, what
    /// it may do and what it needs.
    fn fill_records(
        &mut self,
        fixed_address_ram: Option<u32>,
        fixed_address_flash: Option<u32>,
        permissions: Vec<(u32, u32)>,
        storage_ids: StorageIds,
        kernel_version: Option<(u16, u16)>,
    )
        requires
            16 * merge_all(permissions@).len() + 2 <= u16::MAX,
            8 + 4 * ids_or_empty(storage_ids_view(storage_ids).1).len() + 4 * ids_or_empty(
                storage_ids_view(storage_ids).2,
            ).len() <= u16::MAX,
        ensures
            final(self)@ == filled_records(
                old(self)@,
                fixed_address_ram,
                fixed_address_flash,
                permissions@,
                storage_ids_view(storage_ids),
                kernel_version,
            ),
    {
        if fixed_address_ram.is_some() || fixed_address_flash.is_some() {
            self.hdr_fixed_addresses = Some(
                TbfHeaderFixedAddresses {
                    base: TbfHeaderTlv { tipe: TbfHeaderTypes::FixedAddresses, length: 8 },
                    start_process_ram: match fixed_address_ram {
                        Some(address) => address,
                        None => ADDRESS_UNSET,
                    },
                    start_process_flash: match fixed_address_flash {
                        Some(address) => address,
                        None => ADDRESS_UNSET,
                    },
                },
            );
        }

        let perms: Vec<TbfHeaderDriverPermission> = merge_permissions(&permissions);
        if perms.len() > 0 {
            self.hdr_permissions = Some(
                TbfHeaderPermissions {
                    base: TbfHeaderTlv {
                        tipe: TbfHeaderTypes::Permissions,
                        length: (perms.len() * 16) as u16 + 2,
                    },
                    length: perms.len() as u16,
                    perms,
                },
            );
        }

        if storage_ids.0.is_some() || storage_ids.1.is_some() || storage_ids.2.is_some() {
            let write_id: u32 = match storage_ids.0 {
                Some(id) => id,
                None => 0,
            };
            let read_ids: Vec<u32> = match storage_ids.1 {
                Some(ids) => ids,
                None => Vec::new(),
            };
            let access_ids: Vec<u32> = match storage_ids.2 {
                Some(ids) => ids,
                None => Vec::new(),
            };
            self.hdr_persistent = Some(
                TbfHeaderPersistentAcl {
                    base: TbfHeaderTlv {
                        tipe: TbfHeaderTypes::Persistent,
                        length: (8 + 4 * read_ids.len() + 4 * access_ids.len()) as u16,
                    },
                    write_id,
                    read_length: read_ids.len() as u16,
                    read_ids,
                    access_length: access_ids.len() as u16,
                    access_ids,
                },
            );
        }

        if let Some((kernel_major, kernel_minor)) = kernel_version {
            self.hdr_kernel_version = Some(
                TbfHeaderKernelVersion {
                    base: TbfHeaderTlv { tipe: TbfHeaderTypes::KernelVersion, length: 4 },
                    major: kernel_major,
                    minor: kernel_minor,
                },
            );
        }
    }

    /// Fills in what is known of the application before its binary is laid
    /// out, and returns the length of the header in binary form, which is a
    /// multiple of 4. The places of things in the binary are set later.
    ///
    /// The main record and the program record take the minimum RAM size, and
    /// a program record is added where there was none. A package name that
    /// is not empty gives a package name record; an empty one removes it.
    /// Empty writeable flash region records are added. Each of the other
    /// records is written where it is asked for, and stays as it was where
    /// it is not.
    ///
    /// The header must fit the 16-bit header-size field; `planned_length`
    /// tells whether it does, and `try_create` tests it first.
    pub fn create(
        &mut self,
        minimum_ram_size: u32,
        writeable_flash_regions: usize,
        package_name: String,
        fixed_address_ram: Option<u32>,
        fixed_address_flash: Option<u32>,
        permissions: Vec<(u32, u32)>,
        storage_ids: StorageIds,
        kernel_version: Option<(u16, u16)>,
        disabled: bool,
    ) -> (length: usize)
        requires
            header_length(
                filled(
                    old(self)@,
                    minimum_ram_size,
                    writeable_flash_regions as nat,
                    vstd::utf8::encode_utf8(package_name@),
                    fixed_address_ram,
                    fixed_address_flash,
                    permissions@,
                    storage_ids_view(storage_ids),
                    kernel_version,
                    disabled,
                ),
            ) <= MAX_HEADER_LENGTH,
        ensures
            final(self)@ == Self::spec_create(
                old(self)@,
                minimum_ram_size,
                writeable_flash_regions as nat,
                vstd::utf8::encode_utf8(package_name@),
                fixed_address_ram,
                fixed_address_flash,
                permissions@,
                storage_ids_view(storage_ids),
                kernel_version,
                disabled,
            ),
            length == header_bytes(final(self)@).len(),
            length == final(self)@.base.header_size,
            length % 4 == 0,
            56 <= length <= MAX_HEADER_LENGTH,
    {
        let ghost target = filled(
            old(self)@,
            minimum_ram_size,
            writeable_flash_regions as nat,
            vstd::utf8::encode_utf8(package_name@),
            fixed_address_ram,
            fixed_address_flash,
            permissions@,
            storage_ids_view(storage_ids),
            kernel_version,
            disabled,
        );
        proof {
            lemma_planned_length(
                old(self)@,
                minimum_ram_size,
                writeable_flash_regions as nat,
                vstd::utf8::encode_utf8(package_name@),
                fixed_address_ram,
                fixed_address_flash,
                permissions@,
                storage_ids_view(storage_ids),
                kernel_version,
                disabled,
            );
            lemma_alignment_needed(unpadded_length(target) as int, 4);
            assert(unpadded_length(target) <= MAX_HEADER_LENGTH);
        }
        self.fill_application(minimum_ram_size, writeable_flash_regions, package_name, disabled);
        self.fill_records(
            fixed_address_ram,
            fixed_address_flash,
            permissions,
            storage_ids,
            kernel_version,
        );
        assert(self@ == target);

        // The length is that of the header in binary form.
        let length: usize = self.generate().len();
        self.hdr_base.header_size = length as u16;
        proof {
            lemma_header_bytes(self@);
            lemma_unpadded_length(target);
            assert(unpadded_length(self@) == unpadded_length(target));
        }
        length
    }

    /// Does what `create` does where the header fits the 16-bit header-size
    /// field, and returns its length; where it does not fit, returns `None`
    /// and leaves the header as it was.
    pub fn try_create(
        &mut self,
        minimum_ram_size: u32,
        writeable_flash_regions: usize,
        package_name: String,
        fixed_address_ram: Option<u32>,
        fixed_address_flash: Option<u32>,
        permissions: Vec<(u32, u32)>,
        storage_ids: StorageIds,
        kernel_version: Option<(u16, u16)>,
        disabled: bool,
    ) -> (length: Option<usize>)
        ensures
            ({
                let target = filled(
                    old(self)@,
                    minimum_ram_size,
                    writeable_flash_regions as nat,
                    vstd::utf8::encode_utf8(package_name@),
                    fixed_address_ram,
                    fixed_address_flash,
                    permissions@,
                    storage_ids_view(storage_ids),
                    kernel_version,
                    disabled,
                );
                if header_length(target) <= MAX_HEADER_LENGTH {
                    &&& length == Some(header_length(target) as usize)
                    &&& final(self)@ == with_header_size(target, header_length(target) as u16)
                    &&& header_bytes(final(self)@).len() == header_length(target)
                    &&& header_length(target) % 4 == 0
                    &&& header_length(target) >= 56
                } else {
                    &&& length.is_none()
                    &&& final(self)@ == old(self)@
                }
            }),
    {
        let planned: Option<usize> = self.planned_length(
            writeable_flash_regions,
            &package_name,
            fixed_address_ram,
            fixed_address_flash,
            &permissions,
            &storage_ids,
            kernel_version,
        );
        proof {
            lemma_length_ignores_values(
                self@,
                minimum_ram_size,
                writeable_flash_regions as nat,
                vstd::utf8::encode_utf8(package_name@),
                fixed_address_ram,
                fixed_address_flash,
                permissions@,
                storage_ids_view(storage_ids),
                kernel_version,
                disabled,
            );
        }
        match planned {
            Some(_) => Some(
                self.create(
                    minimum_ram_size,
                    writeable_flash_regions,
                    package_name,
                    fixed_address_ram,
                    fixed_address_flash,
                    permissions,
                    storage_ids,
                    kernel_version,
                    disabled,
                ),
            ),
            None => None,
        }
    }
}

/// Recording a region keeps the number of records.
pub proof fn lemma_with_region_len(
    list: Seq<TbfHeaderWriteableFlashRegion>,
    offset: u32,
    size: u32,
)
    ensures
        with_region(list, offset, size).len() == list.len(),
    decreases list.len(),
{
    if list.len() > 0 && list[0].size != 0 {
        lemma_with_region_len(list.drop_first(), offset, size);
    }
}

/// The length of a header does not depend on what its size field holds.
pub proof fn lemma_length_ignores_size(h: TbfHeaderView, header_size: u16)
    ensures
        header_length(with_header_size(h, header_size)) == header_length(h),
{
}

/// The length of the filled-in header depends neither on the minimum RAM
/// size nor on whether the application is disabled.
pub proof fn lemma_length_ignores_values(
    h: TbfHeaderView,
    minimum_ram_size: u32,
    wfr_count: nat,
    package_name: Seq<u8>,
    fixed_address_ram: Option<u32>,
    fixed_address_flash: Option<u32>,
    permissions: Seq<(u32, u32)>,
    storage_ids: (Option<u32>, Option<Seq<u32>>, Option<Seq<u32>>),
    kernel_version: Option<(u16, u16)>,
    disabled: bool,
)
    ensures
        header_length(
            filled(
                h,
                minimum_ram_size,
                wfr_count,
                package_name,
                fixed_address_ram,
                fixed_address_flash,
                permissions,
                storage_ids,
                kernel_version,
                disabled,
            ),
        ) == header_length(
            filled(
                h,
                0,
                wfr_count,
                package_name,
                fixed_address_ram,
                fixed_address_flash,
                permissions,
                storage_ids,
                kernel_version,
                false,
            ),
        ),
{
    lemma_planned_length(
        h,
        minimum_ram_size,
        wfr_count,
        package_name,
        fixed_address_ram,
        fixed_address_flash,
        permissions,
        storage_ids,
        kernel_version,
        disabled,
    );
    lemma_planned_length(
        h,
        0,
        wfr_count,
        package_name,
        fixed_address_ram,
        fixed_address_flash,
        permissions,
        storage_ids,
        kernel_version,
        false,
    );
}

} // verus!
