//! Why a byte string is not a playable module.

use vstd::prelude::*;

verus! {

/// The first fault found while parsing a module header.
#[derive(Clone, Copy, Debug, PartialEq, Eq, Structural)]
pub enum S3mError {
    /// The file ends before the fixed part of the header does.
    ShortHeader,
    /// The `SCRM` signature is not at offset 0x2C.
    MissingSignature,
    /// The type byte at offset 0x1D is this value instead of 0x10.
    WrongType(u8),
    /// The file ends inside the order table.
    ShortOrderTable,
    /// The file ends inside the instrument parapointer table.
    ShortInstrumentTable,
    /// An instrument header reaches past the end of the file.
    ShortInstrument,
    /// The file ends inside the pattern parapointer table.
    ShortPatternTable,
}

} // verus!
