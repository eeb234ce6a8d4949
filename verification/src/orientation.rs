//! Looking a tag up from the raw bytes of a file, and the orientation in
//! particular.

use crate::bytes::{starts_with_soi, uint_at, ImgBytes};
use crate::error::{bytes_of, ExifError};
use crate::ifd::{entry_count_of, found_entry, has_match, ifd_base_of};
use crate::segment::tiff_header_of;
use crate::value::resolved;
use vstd::prelude::*;

verus! {

/// The id of the Orientation tag.
pub const ORIENTATION_TAG: u16 = 0x0112;

/// The first directory of `s`: its base and the number of entries that it
/// announces.
pub open spec fn ifd0_of(s: Seq<u8>) -> Result<(int, int), ExifError> {
    match tiff_header_of(s) {
        Ok(tiff_header_offset) => match ifd_base_of(s, tiff_header_offset) {
            Ok(ifd_base) => match entry_count_of(s, ifd_base) {
                Ok(count) => Ok((ifd_base, count)),
                Err(e) => Err(e),
            },
            Err(e) => Err(e),
        },
        Err(e) => Err(e),
    }
}

/// The bytes of the value of `tag` in the first directory of `s`: the
/// marker is located, the directory is found through the TIFF header, the
/// first entry that carries `tag` is picked and its value resolved. The
/// first step that fails gives the error.
pub open spec fn tag_value_of(s: Seq<u8>, tag: u16) -> Result<Seq<u8>, ExifError> {
    match ifd0_of(s) {
        Ok((ifd_base, count)) => match found_entry(s, ifd_base, count, tag) {
            Ok(entry) => resolved(s, entry),
            Err(e) => Err(e),
        },
        Err(e) => Err(e),
    }
}

/// The orientation that `s` records, with the reason where it records
/// none: the low-order byte of the Orientation tag's value, which has to
/// be exactly two bytes long.
pub open spec fn orientation_code_of(s: Seq<u8>) -> Result<u8, ExifError> {
    match tag_value_of(s, ORIENTATION_TAG) {
        Ok(value) => if value.len() == 2 {
            Ok(value[1])
        } else {
            Err(ExifError::UnexpectedValueShape)
        },
        Err(e) => Err(e),
    }
}

/// The orientation that `s` records, if it records one.
pub open spec fn orientation_of(s: Seq<u8>) -> Option<u8> {
    match orientation_code_of(s) {
        Ok(code) => Some(code),
        Err(_) => None,
    }
}

impl<'a> ImgBytes<'a> {
    /// The bytes of the value of `tag` in the first directory, or the
    /// reason why they cannot be had.
    pub fn exif_tag_value(&self, tag: u16) -> (value: Result<Vec<u8>, ExifError>)
        ensures
            bytes_of(value) == tag_value_of(self@, tag),
            !starts_with_soi(self@) ==> value == Err::<Vec<u8>, ExifError>(ExifError::NotJpeg),
    {
        let tiff_header_offset: usize = match self.exif_start_idx() {
            Ok(start) => start,
            Err(e) => { return Err(e); },
        };
        let ifd_base: usize = match self.ifd_base(tiff_header_offset) {
            Ok(base) => base,
            Err(e) => { return Err(e); },
        };
        let count: usize = match self.entry_count(ifd_base) {
            Ok(count) => count,
            Err(e) => { return Err(e); },
        };
        match self.find_entry(ifd_base, count, tag) {
            Ok(entry) => self.resolve(tiff_header_offset, &entry),
            Err(e) => Err(e),
        }
    }

    /// The orientation code, or the reason why there is none.
    pub fn orientation(&self) -> (code: Result<u8, ExifError>)
        ensures
            code == orientation_code_of(self@),
            !starts_with_soi(self@) ==> code == Err::<u8, ExifError>(ExifError::NotJpeg),
    {
        match self.exif_tag_value(ORIENTATION_TAG) {
            Ok(value) => {
                if value.len() == 2 {
                    Ok(value[1])
                } else {
                    Err(ExifError::UnexpectedValueShape)
                }
            },
            Err(e) => Err(e),
        }
    }
}

/// The orientation code that the bytes of a JPEG file record. Every way in
/// which the file can fail to record one gives `None`.
pub fn get_orientation(bytes: &[u8]) -> (code: Option<u8>)
    ensures
        code == orientation_of(bytes@),
        !starts_with_soi(bytes@) ==> code is None,
{
    match ImgBytes::new(bytes).orientation() {
        Ok(code) => Some(code),
        Err(_) => None,
    }
}

/// A file whose first directory announces no entries records no
/// orientation.
pub proof fn lemma_empty_directory_no_orientation(s: Seq<u8>)
    requires
        ifd0_of(s) matches Ok((_, count)) && count == 0,
    ensures
        orientation_code_of(s) == Err::<u8, ExifError>(ExifError::TagNotFound),
        orientation_of(s) is None,
{
}

/// A file whose first directory has no entries, or none that carries the
/// Orientation tag, records no orientation.
pub proof fn lemma_no_entry_no_orientation(s: Seq<u8>)
    requires
        ifd0_of(s) matches Ok((ifd_base, count)) ==> !has_match(s, ifd_base, count, ORIENTATION_TAG),
    ensures
        orientation_of(s) is None,
        tag_value_of(s, ORIENTATION_TAG) is Err,
{
}

/// A pointer in the TIFF header that leads to where no entry count can be
/// read makes every lookup fail as malformed.
pub proof fn lemma_forged_ifd_offset(s: Seq<u8>, tag: u16)
    requires
        tiff_header_of(s) is Ok,
        uint_at(s, tiff_header_of(s)->Ok_0 + 4, 4) matches Some(distance) ==> tiff_header_of(s)->Ok_0
            + distance + 2 > s.len(),
    ensures
        tag_value_of(s, tag) == Err::<Seq<u8>, ExifError>(ExifError::Malformed),
        orientation_of(s) is None,
{
}

} // verus!
