use vstd::prelude::*;

verus! {

/// All possible error variants when parsing a BSOR replay.
#[derive(Debug, Clone, Copy, PartialEq, Eq)]
pub enum BsorError {
    /// The magic number or a section tag does not match the fixed layout.
    InvalidBsor,
    /// The version byte holds an unsupported value; the variant carries the
    /// raw byte for diagnostics.
    UnsupportedVersion(u8),
    /// The buffer ended before the requested bytes could be read.
    Io,
    /// A field-local conversion failed: a string field holds invalid UTF-8,
    /// or the timestamp field does not parse as a decimal number.
    Decoding,
}

} // verus!
