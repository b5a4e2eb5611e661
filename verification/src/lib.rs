//! Conversion of linked executable images into Tock Binary Format
//! containers.
//!
//! A container begins with a header of Type-Length-Value records that is
//! closed by a checksum. The segments of the image that are loaded from its
//! file follow, with the relocation data of their writable sections, and
//! then the footers: digests, a signature, and reserved space.
//!
//! * [`source`] reads an image file, [`image`] holds what was read.
//! * [`analyze`] derives what the header needs from the image.
//! * [`header`], [`permissions`] and [`checksum`] build the header.
//! * [`layout`] places the segments, [`footer`] lays out the footers.
//! * [`convert`] puts the conversion together; [`crypto`] makes digests
//!   and signatures.
//! * [`cmdline`] reads the options of the command line, [`manifest`] writes
//!   the description of a bundle.

pub mod analyze;
pub mod checksum;
pub mod cmdline;
pub mod convert;
pub mod crypto;
pub mod error;
pub mod footer;
pub mod header;
pub mod image;
pub mod layout;
pub mod manifest;
pub mod permissions;
pub mod source;
pub mod util;
