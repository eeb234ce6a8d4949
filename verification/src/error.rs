//! The ways in which a read or a lookup can fail.

use vstd::prelude::*;

verus! {

/// A read asked for bytes that lie beyond the end of the buffer.
#[derive(Clone, Copy, Debug, PartialEq, Eq, Structural)]
pub struct OutOfBounds;

/// Why a tag's value could not be produced.
#[derive(Clone, Copy, Debug, PartialEq, Eq, Structural)]
pub enum ExifError {
    /// The buffer does not begin with the start-of-image marker `FF D8`.
    NotJpeg,
    /// No APP1 marker `FF E1` occurs anywhere in the buffer.
    SegmentNotFound,
    /// An offset or a length met while parsing points beyond the buffer.
    Malformed,
    /// The directory was read in full and holds no entry with the tag.
    TagNotFound,
    /// The value was found but has not the length its meaning calls for.
    UnexpectedValueShape,
}

/// A position in a buffer, or the reason why there is none, with the
/// position as a mathematical integer.
pub open spec fn position_of(r: Result<usize, ExifError>) -> Result<int, ExifError> {
    match r {
        Ok(position) => Ok(position as int),
        Err(e) => Err(e),
    }
}

/// The bytes of a value, or the reason why there are none, with the bytes
/// as a sequence.
pub open spec fn bytes_of(r: Result<Vec<u8>, ExifError>) -> Result<Seq<u8>, ExifError> {
    match r {
        Ok(bytes) => Ok(bytes@),
        Err(e) => Err(e),
    }
}

} // verus!
