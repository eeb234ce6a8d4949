//! Locating the APP1 segment that carries the Exif data.

use crate::bytes::{starts_with_soi, ImgBytes};
use crate::error::{position_of, ExifError};
use vstd::prelude::*;

verus! {

/// The bytes between an APP1 marker and the TIFF header behind it: two of
/// the marker, two of the segment's length and the six of `"Exif\0\0"`.
pub const APP1_PREFIX_LEN: usize = 10;

/// Whether the two bytes `FF E1` stand at index `i` of `s`.
pub open spec fn marker_at(s: Seq<u8>, i: int) -> bool {
    0 <= i && i + 1 < s.len() && s[i] == 0xFF && s[i + 1] == 0xE1
}

/// Whether `FF E1` occurs anywhere in `s`.
pub open spec fn has_marker(s: Seq<u8>) -> bool {
    exists|i: int| marker_at(s, i)
}

/// Whether `m` is the lowest index at which `FF E1` stands.
pub open spec fn is_first_marker(s: Seq<u8>, m: int) -> bool {
    marker_at(s, m) && forall|j: int| 0 <= j < m ==> !marker_at(s, j)
}

/// The lowest index at which `FF E1` stands, where there is one.
pub open spec fn first_marker(s: Seq<u8>) -> int {
    choose|m: int| is_first_marker(s, m)
}

/// The marker that parsing goes by: the first `FF E1` of a buffer that
/// opens as a JPEG file. Later occurrences play no part.
pub open spec fn app1_marker(s: Seq<u8>) -> Option<int> {
    if starts_with_soi(s) && has_marker(s) {
        Some(first_marker(s))
    } else {
        None
    }
}

/// Where the TIFF header of `s` begins, or why it cannot be told. The
/// header must begin inside the buffer or right at its end.
pub open spec fn tiff_header_of(s: Seq<u8>) -> Result<int, ExifError> {
    if !starts_with_soi(s) {
        Err(ExifError::NotJpeg)
    } else if !has_marker(s) {
        Err(ExifError::SegmentNotFound)
    } else if first_marker(s) + APP1_PREFIX_LEN > s.len() {
        Err(ExifError::Malformed)
    } else {
        Ok(first_marker(s) + APP1_PREFIX_LEN)
    }
}

/// An index that holds the marker and has none before it is the first
/// marker: there is only one such index.
pub proof fn lemma_first_marker_is(s: Seq<u8>, m: int)
    requires
        is_first_marker(s, m),
    ensures
        has_marker(s),
        first_marker(s) == m,
{
    let chosen = first_marker(s);
    assert(is_first_marker(s, chosen));
    if chosen < m {
        assert(!marker_at(s, chosen));
    } else if m < chosen {
        assert(!marker_at(s, m));
    }
}

/// Where `FF E1` occurs more than once, only the first occurrence counts:
/// the TIFF header is looked for ten bytes behind it, whatever follows.
pub proof fn lemma_first_marker_wins(s: Seq<u8>, first: int, later: int)
    requires
        starts_with_soi(s),
        is_first_marker(s, first),
        marker_at(s, later),
        first < later,
    ensures
        app1_marker(s) == Some(first),
        first + APP1_PREFIX_LEN <= s.len() ==> tiff_header_of(s) == Ok::<int, ExifError>(
            first + APP1_PREFIX_LEN,
        ),
        first + APP1_PREFIX_LEN > s.len() ==> tiff_header_of(s) == Err::<int, ExifError>(
            ExifError::Malformed,
        ),
{
    lemma_first_marker_is(s, first);
}

/// The offset of the TIFF header that belongs to the marker at `marker`.
pub fn tiff_header_offset(marker: usize) -> (offset: usize)
    requires
        marker + APP1_PREFIX_LEN <= usize::MAX,
    ensures
        offset == marker + APP1_PREFIX_LEN,
{
    marker + APP1_PREFIX_LEN
}

impl<'a> ImgBytes<'a> {
    /// Looks at every index in turn, odd and even alike, and returns the
    /// first at which `FF E1` stands. A buffer that is no JPEG file has no
    /// marker, whatever it holds.
    pub fn find_app1(&self) -> (marker: Option<usize>)
        ensures
            marker is Some <==> app1_marker(self@) is Some,
            marker is Some ==> marker->Some_0 == app1_marker(self@)->Some_0,
            marker is Some ==> is_first_marker(self@, marker->Some_0 as int),
    {
        if !self.is_jpeg() {
            return None;
        }
        let bytes = self.as_slice();
        let len: usize = bytes.len();
        let mut i: usize = 0;
        while i + 1 < len
            invariant
                bytes@ == self@,
                len == bytes@.len(),
                starts_with_soi(self@),
                i + 1 <= len,
                forall|j: int| 0 <= j < i ==> !marker_at(self@, j),
            decreases len - i,
        {
            if bytes[i] == 0xFF && bytes[i + 1] == 0xE1 {
                proof {
                    lemma_first_marker_is(self@, i as int);
                }
                return Some(i);
            }
            i += 1;
        }
        None
    }

    /// The offset of the TIFF header: ten bytes behind the first APP1
    /// marker.
    pub fn exif_start_idx(&self) -> (start: Result<usize, ExifError>)
        ensures
            position_of(start) == tiff_header_of(self@),
    {
        if !self.is_jpeg() {
            return Err(ExifError::NotJpeg);
        }
        match self.find_app1() {
            None => Err(ExifError::SegmentNotFound),
            Some(marker) => {
                if self.len() - marker < APP1_PREFIX_LEN {
                    Err(ExifError::Malformed)
                } else {
                    Ok(tiff_header_offset(marker))
                }
            },
        }
    }
}

} // verus!
