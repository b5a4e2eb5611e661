//! Why a conversion fails.

use vstd::prelude::*;

verus! {

/// The two kinds of failure.
#[derive(Clone, Copy, Debug, PartialEq, Eq, Structural)]
pub enum ErrorKind {
    /// The image cannot be read as far as the conversion needs it.
    Format,
    /// The image can be read, but no container can be laid out for it with
    /// the parameters given.
    Layout,
}

/// Why a conversion fails.
#[derive(Clone, Copy, Debug, PartialEq, Eq, Structural)]
pub enum ConvertError {
    /// The image is no executable image that can be parsed.
    UnparsableImage,
    /// The image has no section header table, no string table for the names
    /// of its sections, or a section whose name cannot be read.
    MissingSectionHeaders,
    /// The image has no program header table.
    MissingProgramHeaders,
    /// A symbol that comes before the one looked for has a name that cannot
    /// be read.
    BadSymbolName,
    /// A segment reaches past the end of the file.
    SegmentOutOfBounds,
    /// The protected region asked for is smaller than the header.
    ProtectedRegionTooSmall { requested: u32, header_length: u32 },
    /// Two segments hold the entry point, and the application is not marked
    /// as disabled.
    DuplicateEntryPoint,
    /// A private key was given without a public key.
    MissingPublicKey,
    /// A public key was given without a private key.
    MissingPrivateKey,
    /// The private key cannot be used.
    InvalidPrivateKey,
    /// The modulus of the private key is not 512 bytes long.
    WrongModulusSize,
    /// The modulus of the public key is shorter than that of the private
    /// key.
    PublicKeyTooShort,
    /// No signature could be made.
    SigningFailed,
    /// The header is longer than its 16-bit size field can say.
    HeaderTooLarge,
    /// A size or an offset does not fit in 32 bits.
    SizeOverflow,
}

impl ConvertError {
    /// The kind of this failure.
    pub open spec fn spec_kind(self) -> ErrorKind {
        match self {
            ConvertError::UnparsableImage => ErrorKind::Format,
            ConvertError::MissingSectionHeaders => ErrorKind::Format,
            ConvertError::MissingProgramHeaders => ErrorKind::Format,
            ConvertError::BadSymbolName => ErrorKind::Format,
            ConvertError::SegmentOutOfBounds => ErrorKind::Format,
            _ => ErrorKind::Layout,
        }
    }

    /// The kind of this failure.
    pub fn kind(&self) -> (kind: ErrorKind)
        ensures
            kind == self.spec_kind(),
    {
        match self {
            ConvertError::UnparsableImage => ErrorKind::Format,
            ConvertError::MissingSectionHeaders => ErrorKind::Format,
            ConvertError::MissingProgramHeaders => ErrorKind::Format,
            ConvertError::BadSymbolName => ErrorKind::Format,
            ConvertError::SegmentOutOfBounds => ErrorKind::Format,
            _ => ErrorKind::Layout,
        }
    }
}

} // verus!
