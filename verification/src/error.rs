//! The library's error type.
//!
//! Decoding is all-or-nothing: a malformed wire document surfaces as a
//! typed error and no partial schematic is returned. I/O and tag-tree
//! codec failures are carried through unchanged from the layers that
//! produce them.

use fastnbt::error::Error as FastnbtError;
use std::io::Error as IoError;
use vstd::prelude::*;

verus! {

/// Declares the tag-tree codec's error type as opaque, so the library's
/// error type can carry it through unchanged.
#[verifier::external_type_specification]
#[verifier::external_body]
pub struct ExNbtError(FastnbtError);

/// Declares the standard I/O error type as opaque, so the library's error
/// type can carry it through unchanged.
#[verifier::external_type_specification]
#[verifier::external_body]
pub struct ExIoError(IoError);

/// Why a wire-shaped region was rejected during decoding. Each variant
/// names one structural fault that would break the region's invariants.
#[derive(Debug, Clone, Copy, PartialEq, Eq, Structural)]
pub enum RegionDecodeError {
    /// A size component is the minimum signed value, the volume exceeds
    /// the format's 32-bit budget, or the position plus size leaves the
    /// signed 32-bit range.
    GeometryOutOfRange,
    /// The palette holds no entry at all, so no cell could refer to one.
    EmptyPalette,
    /// The packed word array holds fewer bits than the volume needs.
    TruncatedBlockStates,
    /// A packed cell refers to a palette entry past the end of the palette.
    PaletteIndexOutOfRange,
}

/// The error type for decoding, encoding and I/O failures.
#[derive(Debug)]
pub enum Error {
    /// A tag-tree (NBT) codec failure.
    Nbt(FastnbtError),
    /// An I/O failure, carried through unchanged.
    Io(IoError),
    /// A structurally invalid wire region.
    InvalidRegion(RegionDecodeError),
}

} // verus!
