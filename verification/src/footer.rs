//! The footers that follow the binary: credentials, reserved space, and
//! the padding that brings the container to its full size.

use crate::error::ConvertError;
use crate::header::{
    credentials_bytes, tlv, TbfFooterCredentials, TbfFooterCredentialsType, TbfHeaderTlv,
    TbfHeaderTypes,
};
use crate::image::{EM_386, EM_ARM};
use crate::util::{
    append_bytes, do_pad, lemma_alignment_needed, lemma_concat_assoc, spec_align_to, zeros,
};
use vstd::arithmetic::power2::{is_pow2, lemma_pow2, pow2};
use vstd::prelude::*;

verus! {

/// The bytes that open a footer: the record opening and the format.
pub const FOOTER_OPENING: u32 = 8;

/// The length of a SHA-256 digest.
pub const SHA256_LENGTH: usize = 32;

/// The length of a SHA-384 digest.
pub const SHA384_LENGTH: usize = 48;

/// The length of a SHA-512 digest.
pub const SHA512_LENGTH: usize = 64;

/// The length of the modulus of a 4096-bit RSA key, and of each signature
/// made with one.
pub const RSA4096_LENGTH: usize = 512;

/// The smallest size of a container that is rounded to a power of two.
pub const SMALLEST_POWER_OF_TWO: u64 = 512;

/// The multiple to which a container is rounded for machines with pages.
pub const PAGE_SIZE: u32 = 4096;

/// The credentials that are asked for.
#[derive(Clone, Copy, Debug)]
pub struct FooterRequest {
    pub sha256: bool,
    pub sha384: bool,
    pub sha512: bool,
    pub rsa4096: bool,
}

/// How the size of the whole container is rounded.
#[derive(Clone, Copy, Debug)]
pub enum TrailingPadding {
    /// The size is a power of two, and 512 at least.
    TotalSizePowerOfTwo,
    /// The size is a multiple of this.
    TotalSizeMultiple(u32),
}

/// Where the footers end and what fills the space that no credential
/// takes.
#[derive(Clone, Copy, Debug)]
pub struct FooterPlan {
    /// The size of the whole container.
    pub total_size: u32,
    /// The size of the reserved footer, its opening included; 0 where there
    /// is none.
    pub reserved: u32,
    /// The number of zero bytes after the last footer.
    pub trailing: u32,
}

/// How containers for `machine` are rounded: to a power of two for ARM, to
/// a multiple of 4096 for the 80386, and not at all for any other.
pub open spec fn spec_trailing_padding(machine: u16) -> Option<TrailingPadding> {
    if machine == EM_ARM {
        Some(TrailingPadding::TotalSizePowerOfTwo)
    } else if machine == EM_386 {
        Some(TrailingPadding::TotalSizeMultiple(PAGE_SIZE))
    } else {
        None
    }
}

/// Determines how containers for `machine` are rounded.
pub fn trailing_padding(machine: u16) -> (padding: Option<TrailingPadding>)
    ensures
        padding == spec_trailing_padding(machine),
{
    if machine == EM_ARM {
        Some(TrailingPadding::TotalSizePowerOfTwo)
    } else if machine == EM_386 {
        Some(TrailingPadding::TotalSizeMultiple(PAGE_SIZE))
    } else {
        None
    }
}

/// The length of the credentials footers that are asked for: a digest or a
/// modulus with a signature, and the footer opening before each.
pub open spec fn credentials_length(request: FooterRequest) -> nat {
    ((if request.sha256 {
        FOOTER_OPENING + SHA256_LENGTH
    } else {
        0
    }) + (if request.sha384 {
        FOOTER_OPENING + SHA384_LENGTH
    } else {
        0
    }) + (if request.sha512 {
        FOOTER_OPENING + SHA512_LENGTH
    } else {
        0
    }) + (if request.rsa4096 {
        FOOTER_OPENING + 2 * RSA4096_LENGTH
    } else {
        0
    })) as nat
}

/// The space that is reserved so that the footers reach the minimum size:
/// what the credentials leave of it, but a footer opening at least, rounded
/// up to a multiple of 4; none where the credentials reach the minimum.
pub open spec fn reserved_for_minimum(minimum_footer_size: u32, credentials: nat) -> nat {
    if minimum_footer_size > credentials {
        let missing = minimum_footer_size - credentials;
        spec_align_to(
            if missing > FOOTER_OPENING {
                missing
            } else {
                FOOTER_OPENING as int
            },
            4,
        ) as nat
    } else {
        0
    }
}

/// `candidate`, doubled until it is `size` at least.
pub open spec fn doubled_up_to(candidate: nat, size: nat) -> nat
    decreases
        (if size > candidate {
            size - candidate
        } else {
            0
        }),
{
    if candidate >= size || candidate == 0 {
        candidate
    } else {
        doubled_up_to(2 * candidate, size)
    }
}

/// The size of a container whose parts take `size` bytes.
pub open spec fn rounded_size(size: nat, padding: Option<TrailingPadding>) -> nat {
    match padding {
        None => size,
        Some(TrailingPadding::TotalSizePowerOfTwo) => doubled_up_to(
            SMALLEST_POWER_OF_TWO as nat,
            size,
        ),
        Some(TrailingPadding::TotalSizeMultiple(multiple)) => if multiple > 0 {
            spec_align_to(size as int, multiple as int) as nat
        } else {
            size
        },
    }
}

/// Doubling a power of two up to a size gives the least power of two that
/// is neither below the size nor below where the doubling began.
pub proof fn lemma_doubled_up_to(exponent: nat, size: nat)
    ensures
        is_pow2(doubled_up_to(pow2(exponent), size) as int),
        doubled_up_to(pow2(exponent), size) >= size,
        doubled_up_to(pow2(exponent), size) >= pow2(exponent),
        doubled_up_to(pow2(exponent), size) == pow2(exponent) || doubled_up_to(
            pow2(exponent),
            size,
        ) < 2 * size,
    decreases
        (if size > pow2(exponent) {
            size - pow2(exponent)
        } else {
            0
        }),
{
    lemma_pow2(exponent);
    vstd::arithmetic::power2::lemma_pow2_pos(exponent);
    vstd::arithmetic::power2::lemma_pow2_unfold(exponent + 1);
    let candidate = pow2(exponent);
    if candidate >= size {
        vstd::arithmetic::power2::is_pow2_equiv(candidate as int);
        assert(vstd::arithmetic::power2::is_pow2_exists(candidate as int));
    } else {
        lemma_doubled_up_to(exponent + 1, size);
    }
}

/// A rounded container is never smaller than its parts. A container for ARM
/// takes the least power of two that holds its parts and is 512 at least.
pub proof fn lemma_rounded_size(size: nat, padding: Option<TrailingPadding>)
    ensures
        rounded_size(size, padding) >= size,
        padding matches Some(TrailingPadding::TotalSizePowerOfTwo) ==> {
            &&& is_pow2(rounded_size(size, padding) as int)
            &&& rounded_size(size, padding) >= 512
            &&& (rounded_size(size, padding) == 512 || rounded_size(size, padding) < 2 * size)
        },
        padding matches Some(TrailingPadding::TotalSizeMultiple(multiple)) ==> multiple > 0
            ==> rounded_size(size, padding) % (multiple as nat) == 0 && rounded_size(size, padding)
            < size + multiple,
{
    match padding {
        None => {},
        Some(TrailingPadding::TotalSizePowerOfTwo) => {
            vstd::arithmetic::power2::lemma2_to64();
            assert(pow2(9) == 512);
            lemma_doubled_up_to(9, size);
        },
        Some(TrailingPadding::TotalSizeMultiple(multiple)) => {
            if multiple > 0 {
                lemma_alignment_needed(size as int, multiple as int);
            }
        },
    }
}

/// The size of the parts of a container: the binary, the credentials and
/// the space reserved to reach the minimum footer size.
pub open spec fn unrounded_size(
    binary_end: u32,
    request: FooterRequest,
    minimum_footer_size: u32,
) -> nat {
    (binary_end + credentials_length(request) + reserved_for_minimum(
        minimum_footer_size,
        credentials_length(request),
    )) as nat
}

/// The layout of the footers of a binary that ends at `binary_end`.
///
/// The container holds the binary, the credentials and the space reserved
/// to reach the minimum footer size, and is then rounded to its full size.
/// What the credentials leave of the footers is taken by one reserved
/// footer where it is big enough for a footer opening, and by zero bytes
/// where it is not. The full size must fit in 32 bits.
pub open spec fn spec_footer_plan(
    binary_end: u32,
    request: FooterRequest,
    minimum_footer_size: u32,
    padding: Option<TrailingPadding>,
) -> Result<FooterPlan, ConvertError> {
    let credentials = credentials_length(request);
    let total = rounded_size(unrounded_size(binary_end, request, minimum_footer_size), padding);
    let remaining = total - binary_end - credentials;
    if total > u32::MAX {
        Err(ConvertError::SizeOverflow)
    } else if remaining >= FOOTER_OPENING {
        Ok(FooterPlan { total_size: total as u32, reserved: remaining as u32, trailing: 0 })
    } else {
        Ok(FooterPlan { total_size: total as u32, reserved: 0, trailing: remaining as u32 })
    }
}

/// The footers fill the container exactly: the size of the whole
/// container, less the credentials, the reserved footer and the trailing
/// zero bytes, is where the binary ends. The footers are as long as the
/// minimum asks.
pub proof fn lemma_footer_plan(
    binary_end: u32,
    request: FooterRequest,
    minimum_footer_size: u32,
    padding: Option<TrailingPadding>,
)
    ensures
        spec_footer_plan(binary_end, request, minimum_footer_size, padding) matches Ok(plan) ==> {
            &&& plan.total_size - (credentials_length(request) + plan.reserved + plan.trailing)
                == binary_end
            &&& credentials_length(request) + plan.reserved + plan.trailing >= minimum_footer_size
            &&& plan.total_size == rounded_size(
                unrounded_size(binary_end, request, minimum_footer_size),
                padding,
            )
            &&& (plan.reserved == 0 || plan.reserved >= FOOTER_OPENING)
            &&& (plan.reserved == 0 || plan.trailing == 0)
            &&& plan.trailing < FOOTER_OPENING
        },
{
    let credentials = credentials_length(request);
    let needed = reserved_for_minimum(minimum_footer_size, credentials);
    lemma_rounded_size(unrounded_size(binary_end, request, minimum_footer_size), padding);
    if minimum_footer_size > credentials {
        let missing = minimum_footer_size - credentials;
        lemma_alignment_needed(
            if missing > FOOTER_OPENING {
                missing
            } else {
                FOOTER_OPENING as int
            },
            4,
        );
    }
}

/// Doubles 512 until it is `size` at least.
fn round_to_power_of_two(size: u64) -> (rounded: u64)
    requires
        size <= 0x1_0000_0000,
    ensures
        rounded == doubled_up_to(SMALLEST_POWER_OF_TWO as nat, size as nat),
        rounded <= 0x1_0000_0000,
{
    let mut candidate: u64 = SMALLEST_POWER_OF_TWO;
    let ghost mut exponent: nat = 9;
    proof {
        vstd::arithmetic::power2::lemma2_to64();
    }
    while candidate < size
        invariant
            candidate == pow2(exponent),
            9 <= exponent <= 32,
            size <= 0x1_0000_0000,
            doubled_up_to(candidate as nat, size as nat) == doubled_up_to(
                SMALLEST_POWER_OF_TWO as nat,
                size as nat,
            ),
        decreases 32 - exponent,
    {
        proof {
            vstd::arithmetic::power2::lemma2_to64();
            vstd::arithmetic::power2::lemma_pow2_unfold(exponent + 1);
            if exponent >= 32 {
                assert(false);
            }
            if exponent == 31 {
                assert(pow2(32) == 0x1_0000_0000);
            } else {
                vstd::arithmetic::power2::lemma_pow2_strictly_increases(exponent + 1, 32);
            }
            exponent = exponent + 1;
        }
        candidate = 2 * candidate;
    }
    proof {
        vstd::arithmetic::power2::lemma2_to64();
        if exponent < 32 {
            vstd::arithmetic::power2::lemma_pow2_strictly_increases(exponent, 32);
        }
    }
    candidate
}

/// Lays out the footers of a binary that ends at `binary_end`.
pub fn footer_plan(
    binary_end: u32,
    request: FooterRequest,
    minimum_footer_size: u32,
    padding: Option<TrailingPadding>,
) -> (plan: Result<FooterPlan, ConvertError>)
    ensures
        plan == spec_footer_plan(binary_end, request, minimum_footer_size, padding),
{
    let mut credentials: u64 = 0;
    if request.sha256 {
        credentials = credentials + 40;
    }
    if request.sha384 {
        credentials = credentials + 56;
    }
    if request.sha512 {
        credentials = credentials + 72;
    }
    if request.rsa4096 {
        credentials = credentials + 1032;
    }
    assert(credentials == credentials_length(request));
    let mut needed: u64 = 0;
    if minimum_footer_size as u64 > credentials {
        let missing: u64 = minimum_footer_size as u64 - credentials;
        let at_least: u64 = if missing > 8 {
            missing
        } else {
            8
        };
        proof {
            lemma_alignment_needed(at_least as int, 4);
        }
        needed = at_least + (4 - at_least % 4) % 4;
    }
    assert(needed == reserved_for_minimum(minimum_footer_size, credentials as nat));
    let size: u64 = binary_end as u64 + credentials + needed;
    proof {
        lemma_rounded_size(size as nat, padding);
    }
    if size > 0xFFFF_FFFF {
        return Err(ConvertError::SizeOverflow);
    }
    let total: u64 = match padding {
        None => size,
        Some(TrailingPadding::TotalSizePowerOfTwo) => round_to_power_of_two(size),
        Some(TrailingPadding::TotalSizeMultiple(multiple)) => {
            if multiple > 0 {
                let box_size: u64 = multiple as u64;
                proof {
                    lemma_alignment_needed(size as int, box_size as int);
                }
                size + (box_size - size % box_size) % box_size
            } else {
                size
            }
        },
    };
    assert(total == rounded_size(size as nat, padding));
    if total > 0xFFFF_FFFF {
        return Err(ConvertError::SizeOverflow);
    }
    let remaining: u64 = total - binary_end as u64 - credentials;
    if remaining >= 8 {
        Ok(FooterPlan { total_size: total as u32, reserved: remaining as u32, trailing: 0 })
    } else {
        Ok(FooterPlan { total_size: total as u32, reserved: 0, trailing: remaining as u32 })
    }
}

// ---------------------------------------------------------------------
// The footers in binary form
// ---------------------------------------------------------------------

/// The credentials of a container: the digests of what comes before the
/// footers, and for an RSA credential the modulus of the public key
/// followed by the signature.
#[derive(Debug)]
pub struct Credentials {
    pub sha256: Option<Vec<u8>>,
    pub sha384: Option<Vec<u8>>,
    pub sha512: Option<Vec<u8>>,
    pub rsa4096: Option<Vec<u8>>,
}

/// Credentials as a mathematical value.
pub struct CredentialsView {
    pub sha256: Option<Seq<u8>>,
    pub sha384: Option<Seq<u8>>,
    pub sha512: Option<Seq<u8>>,
    pub rsa4096: Option<Seq<u8>>,
}

/// Bytes that may be missing, as a mathematical value.
pub open spec fn optional_bytes(bytes: Option<Vec<u8>>) -> Option<Seq<u8>> {
    match bytes {
        Some(bytes) => Some(bytes@),
        None => None,
    }
}

impl View for Credentials {
    type V = CredentialsView;

    open spec fn view(&self) -> CredentialsView {
        CredentialsView {
            sha256: optional_bytes(self.sha256),
            sha384: optional_bytes(self.sha384),
            sha512: optional_bytes(self.sha512),
            rsa4096: optional_bytes(self.rsa4096),
        }
    }
}

/// The footer that carries `payload` in `format`. The length in its
/// opening counts the format and the payload.
pub open spec fn credential_footer(format: TbfFooterCredentialsType, payload: Seq<u8>) -> Seq<u8> {
    credentials_bytes(tlv(TbfHeaderTypes::Credentials, (4 + payload.len()) as u16), format, payload)
}

/// The footer for a credential that may be missing.
pub open spec fn optional_footer(
    format: TbfFooterCredentialsType,
    payload: Option<Seq<u8>>,
) -> Seq<u8> {
    match payload {
        Some(payload) => credential_footer(format, payload),
        None => Seq::empty(),
    }
}

/// The reserved footer that takes `size` bytes in all, filled with zero
/// bytes; nothing where `size` is less than a footer opening. Of the
/// length in its opening the low 16 bits are written.
pub open spec fn reserved_footer(size: u32) -> Seq<u8> {
    if size >= FOOTER_OPENING {
        credentials_bytes(
            tlv(TbfHeaderTypes::Credentials, ((size - 4) % 0x1_0000) as u16),
            TbfFooterCredentialsType::Reserved,
            zeros((size - FOOTER_OPENING) as nat),
        )
    } else {
        Seq::empty()
    }
}

/// The footers in binary form: the credentials in the order SHA-256,
/// SHA-384, SHA-512, RSA; the reserved footer; the trailing zero bytes.
pub open spec fn footer_bytes(credentials: CredentialsView, plan: FooterPlan) -> Seq<u8> {
    optional_footer(TbfFooterCredentialsType::SHA256, credentials.sha256) + optional_footer(
        TbfFooterCredentialsType::SHA384,
        credentials.sha384,
    ) + optional_footer(TbfFooterCredentialsType::SHA512, credentials.sha512) + optional_footer(
        TbfFooterCredentialsType::Rsa4096Key,
        credentials.rsa4096,
    ) + reserved_footer(plan.reserved) + zeros(plan.trailing as nat)
}

/// Whether the credentials are those that `request` asks for, each of its
/// length.
pub open spec fn answers(credentials: CredentialsView, request: FooterRequest) -> bool {
    &&& credentials.sha256.is_some() == request.sha256
    &&& credentials.sha384.is_some() == request.sha384
    &&& credentials.sha512.is_some() == request.sha512
    &&& credentials.rsa4096.is_some() == request.rsa4096
    &&& credentials.sha256 matches Some(digest) ==> digest.len() == SHA256_LENGTH
    &&& credentials.sha384 matches Some(digest) ==> digest.len() == SHA384_LENGTH
    &&& credentials.sha512 matches Some(digest) ==> digest.len() == SHA512_LENGTH
    &&& credentials.rsa4096 matches Some(payload) ==> payload.len() == 2 * RSA4096_LENGTH
}

/// The footers of credentials that answer a request are as long as the
/// plan for that request says.
pub proof fn lemma_footer_length(
    credentials: CredentialsView,
    request: FooterRequest,
    plan: FooterPlan,
)
    requires
        answers(credentials, request),
        plan.reserved == 0 || plan.reserved >= FOOTER_OPENING,
    ensures
        footer_bytes(credentials, plan).len() == credentials_length(request) + plan.reserved
            + plan.trailing,
{
}

/// Builds the footer that carries `payload` in `format`.
pub fn new_credential(format: TbfFooterCredentialsType, payload: Vec<u8>) -> (footer:
    TbfFooterCredentials)
    requires
        payload@.len() + 4 <= u16::MAX,
    ensures
        footer.spec_bytes() == credential_footer(format, payload@),
        footer.format == format,
        footer.data@ == payload@,
        footer.base == tlv(TbfHeaderTypes::Credentials, (4 + payload@.len()) as u16),
{
    TbfFooterCredentials {
        base: TbfHeaderTlv {
            tipe: TbfHeaderTypes::Credentials,
            length: (payload.len() + 4) as u16,
        },
        format,
        data: payload,
    }
}

/// Appends the footer for a credential that may be missing.
fn put_optional_footer(
    output: &mut Vec<u8>,
    format: TbfFooterCredentialsType,
    payload: Option<Vec<u8>>,
)
    requires
        payload matches Some(bytes) ==> bytes@.len() + 4 <= u16::MAX,
    ensures
        final(output)@ == old(output)@ + optional_footer(format, optional_bytes(payload)),
{
    match payload {
        Some(bytes) => {
            let footer: TbfFooterCredentials = new_credential(format, bytes);
            let generated: Vec<u8> = footer.generate();
            append_bytes(output, generated.as_slice());
        },
        None => {
            assert(output@ =~= old(output)@ + Seq::<u8>::empty());
        },
    }
}

/// Appends the reserved footer that takes `size` bytes in all.
fn put_reserved_footer(output: &mut Vec<u8>, size: u32)
    ensures
        final(output)@ == old(output)@ + reserved_footer(size),
{
    if size >= FOOTER_OPENING {
        let mut data: Vec<u8> = Vec::new();
        do_pad(&mut data, (size - FOOTER_OPENING) as usize);
        assert(data@ =~= zeros((size - FOOTER_OPENING) as nat));
        let footer = TbfFooterCredentials {
            base: TbfHeaderTlv {
                tipe: TbfHeaderTypes::Credentials,
                length: ((size - 4) % 0x1_0000) as u16,
            },
            format: TbfFooterCredentialsType::Reserved,
            data,
        };
        let generated: Vec<u8> = footer.generate();
        append_bytes(output, generated.as_slice());
    } else {
        assert(output@ =~= old(output)@ + Seq::<u8>::empty());
    }
}

/// Appends the footers to `output`.
pub fn append_footers(output: &mut Vec<u8>, credentials: Credentials, plan: &FooterPlan)
    requires
        credentials.sha256 matches Some(bytes) ==> bytes@.len() + 4 <= u16::MAX,
        credentials.sha384 matches Some(bytes) ==> bytes@.len() + 4 <= u16::MAX,
        credentials.sha512 matches Some(bytes) ==> bytes@.len() + 4 <= u16::MAX,
        credentials.rsa4096 matches Some(bytes) ==> bytes@.len() + 4 <= u16::MAX,
    ensures
        final(output)@ == old(output)@ + footer_bytes(credentials@, *plan),
{
    let ghost start = output@;
    let ghost f1 = optional_footer(
        TbfFooterCredentialsType::SHA256,
        optional_bytes(credentials.sha256),
    );
    let ghost f2 = optional_footer(
        TbfFooterCredentialsType::SHA384,
        optional_bytes(credentials.sha384),
    );
    let ghost f3 = optional_footer(
        TbfFooterCredentialsType::SHA512,
        optional_bytes(credentials.sha512),
    );
    let ghost f4 = optional_footer(
        TbfFooterCredentialsType::Rsa4096Key,
        optional_bytes(credentials.rsa4096),
    );
    let ghost f5 = reserved_footer(plan.reserved);
    let ghost f6 = zeros(plan.trailing as nat);
    assert(footer_bytes(credentials@, *plan) == f1 + f2 + f3 + f4 + f5 + f6);
    let Credentials { sha256, sha384, sha512, rsa4096 } = credentials;
    put_optional_footer(output, TbfFooterCredentialsType::SHA256, sha256);
    put_optional_footer(output, TbfFooterCredentialsType::SHA384, sha384);
    put_optional_footer(output, TbfFooterCredentialsType::SHA512, sha512);
    put_optional_footer(output, TbfFooterCredentialsType::Rsa4096Key, rsa4096);
    put_reserved_footer(output, plan.reserved);
    do_pad(output, plan.trailing as usize);
    proof {
        assert(output@ == start + f1 + f2 + f3 + f4 + f5 + f6);
        lemma_concat_assoc(start, f1, f2);
        lemma_concat_assoc(start, f1 + f2, f3);
        lemma_concat_assoc(start, f1 + f2 + f3, f4);
        lemma_concat_assoc(start, f1 + f2 + f3 + f4, f5);
        lemma_concat_assoc(start, f1 + f2 + f3 + f4 + f5, f6);
    }
}

/// The payload of an RSA credential: the first 512 bytes of the modulus
/// of the public key, then the signature.
pub open spec fn rsa4096_payload(modulus: Seq<u8>, signature: Seq<u8>) -> Seq<u8> {
    modulus.subrange(0, RSA4096_LENGTH as int) + signature
}

/// Builds the payload of an RSA credential from the modulus of the public
/// key and a signature of 512 bytes. A modulus of less than 512 bytes is
/// refused.
pub fn rsa4096_credential(modulus: &[u8], signature: &[u8]) -> (payload: Result<
    Vec<u8>,
    ConvertError,
>)
    requires
        signature@.len() == RSA4096_LENGTH,
    ensures
        payload matches Ok(bytes) ==> modulus@.len() >= RSA4096_LENGTH && bytes@
            == rsa4096_payload(modulus@, signature@) && bytes@.len() == 2 * RSA4096_LENGTH,
        payload matches Err(error) ==> modulus@.len() < RSA4096_LENGTH && error
            == ConvertError::PublicKeyTooShort,
{
    if modulus.len() < RSA4096_LENGTH {
        return Err(ConvertError::PublicKeyTooShort);
    }
    let mut payload: Vec<u8> = Vec::new();
    append_bytes(&mut payload, vstd::slice::slice_subrange(modulus, 0, RSA4096_LENGTH));
    append_bytes(&mut payload, signature);
    assert(payload@ =~= rsa4096_payload(modulus@, signature@));
    Ok(payload)
}

} // verus!
