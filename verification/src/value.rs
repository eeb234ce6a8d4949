//! The length of an entry's value and the bytes of the value itself.

use crate::bytes::{be_value, in_range, window, ImgBytes};
use crate::error::{bytes_of, ExifError};
use crate::ifd::IfdEntry;
use vstd::prelude::*;
use vstd::slice::slice_to_vec;

verus! {

/// The longest value that is kept in the entry itself.
pub const INLINE_LEN: u64 = 4;

/// Where in an entry its value field begins.
pub const VALUE_FIELD_AT: usize = 8;

/// The width in bytes of one element of each TIFF type. A code that names
/// no type has width 0.
pub open spec fn data_length_of(type_code: u16) -> nat {
    match type_code {
        1 => 1,
        2 => 1,
        3 => 2,
        4 => 4,
        5 => 8,
        6 => 1,
        7 => 1,
        8 => 2,
        9 => 4,
        10 => 8,
        11 => 4,
        12 => 8,
        _ => 0,
    }
}

/// The length in bytes of `count` elements of the type with code
/// `type_code`.
pub open spec fn value_len_of(type_code: u16, count: u32) -> nat {
    data_length_of(type_code) * count as nat
}

/// The length in bytes of an entry's value: the width of its type times
/// the number of its elements.
pub open spec fn value_size_of(entry: IfdEntry) -> nat {
    value_len_of(entry.type_code, entry.count)
}

/// The bytes of an entry's value. A value of at most four bytes is the
/// front of the entry's value field. A longer one lies in the buffer: the
/// value field holds a big-endian pointer, counted from the place of the
/// value field itself, to where it begins.
pub open spec fn resolved(s: Seq<u8>, entry: IfdEntry) -> Result<Seq<u8>, ExifError> {
    let size = value_size_of(entry) as int;
    let start = entry.offset + VALUE_FIELD_AT + be_value(entry.value@);
    if size <= INLINE_LEN {
        Ok(entry.value@.take(size))
    } else if in_range(s, start, size) {
        Ok(window(s, start, size))
    } else {
        Err(ExifError::Malformed)
    }
}

/// The length of the value of the entry that begins at `tag_start`, read
/// from the entry's type and count fields.
pub open spec fn value_size_at(s: Seq<u8>, tag_start: int) -> Result<nat, ExifError> {
    if in_range(s, tag_start + 2, 6) {
        Ok(
            value_len_of(
                be_value(window(s, tag_start + 2, 2)) as u16,
                be_value(window(s, tag_start + 4, 4)) as u32,
            ),
        )
    } else {
        Err(ExifError::Malformed)
    }
}

/// The width in bytes of one element of the type with code `type_code`.
pub fn data_length(type_code: u16) -> (width: u64)
    ensures
        width == data_length_of(type_code),
        !(1 <= type_code <= 12) ==> width == 0,
        width <= 8,
{
    match type_code {
        1 | 2 | 6 | 7 => 1,
        3 | 8 => 2,
        4 | 9 | 11 => 4,
        5 | 10 | 12 => 8,
        _ => 0,
    }
}

/// The length in bytes of `count` elements of the type with code
/// `type_code`. Eight times the largest count still fits the result.
pub fn value_len(type_code: u16, count: u32) -> (size: u64)
    ensures
        size == value_len_of(type_code, count),
        !(1 <= type_code <= 12) || count == 0 ==> size == 0,
{
    let width: u64 = data_length(type_code);
    let count: u64 = count as u64;
    assert(width * count <= 8 * 0xffff_ffff) by (nonlinear_arith)
        requires
            width <= 8,
            count <= 0xffff_ffff,
    ;
    width * count
}

impl IfdEntry {
    /// The length in bytes of the entry's value.
    pub fn value_size(&self) -> (size: u64)
        ensures
            size == value_size_of(*self),
            !(1 <= self.type_code <= 12) || self.count == 0 ==> size == 0,
    {
        value_len(self.type_code, self.count)
    }
}

impl<'a> ImgBytes<'a> {
    /// The bytes of `entry`'s value. The pointer of a long value is counted
    /// from the entry's own value field, so `tiff_header_offset` has no
    /// part in the result.
    #[allow(unused_variables)]
    pub fn resolve(&self, tiff_header_offset: usize, entry: &IfdEntry) -> (value: Result<
        Vec<u8>,
        ExifError,
    >)
        ensures
            bytes_of(value) == resolved(self@, *entry),
            value_size_of(*entry) <= 4 ==> bytes_of(value) == Ok::<Seq<u8>, ExifError>(
                entry.value@.take(value_size_of(*entry) as int),
            ),
            value_size_of(*entry) > 4 ==> (value is Ok <==> in_range(
                self@,
                entry.offset + 8 + be_value(entry.value@),
                value_size_of(*entry) as int,
            )),
            value_size_of(*entry) > 4 && value is Ok ==> value->Ok_0@ == window(
                self@,
                entry.offset + 8 + be_value(entry.value@),
                value_size_of(*entry) as int,
            ),
            value is Ok ==> value->Ok_0@.len() == value_size_of(*entry),
            value is Err ==> value->Err_0 == ExifError::Malformed,
    {
        let size: u64 = entry.value_size();
        let field = ImgBytes::new(entry.value.as_slice());
        if size <= INLINE_LEN {
            return match field.slice(0, size as usize) {
                Ok(front) => {
                    assert(front@ =~= entry.value@.take(size as int));
                    Ok(slice_to_vec(front))
                },
                Err(_) => Err(ExifError::Malformed),
            };
        }
        let pointer: u32 = match field.read_u32(0) {
            Ok(pointer) => pointer,
            Err(_) => { return Err(ExifError::Malformed); },
        };
        assert(window(entry.value@, 0, 4) =~= entry.value@);
        let len: usize = self.len();
        if entry.offset > len {
            return Err(ExifError::Malformed);
        }
        let room: u64 = (len - entry.offset) as u64;
        if VALUE_FIELD_AT as u64 + pointer as u64 + size > room {
            return Err(ExifError::Malformed);
        }
        let start: usize = entry.offset + VALUE_FIELD_AT + pointer as usize;
        match self.slice(start, size as usize) {
            Ok(bytes) => Ok(slice_to_vec(bytes)),
            Err(_) => Err(ExifError::Malformed),
        }
    }

    /// The length of the value of the entry that begins at `tag_start`.
    pub fn exif_tag_value_size(&self, tag_start: usize) -> (size: Result<u64, ExifError>)
        ensures
            size is Ok <==> value_size_at(self@, tag_start as int) is Ok,
            size is Ok ==> size->Ok_0 == value_size_at(self@, tag_start as int)->Ok_0,
            size is Err ==> size->Err_0 == ExifError::Malformed,
    {
        let len: usize = self.len();
        if tag_start > len || len - tag_start < 8 {
            return Err(ExifError::Malformed);
        }
        let type_code: u16 = match self.read_u16(tag_start + 2) {
            Ok(type_code) => type_code,
            Err(_) => { return Err(ExifError::Malformed); },
        };
        let count: u32 = match self.read_u32(tag_start + 4) {
            Ok(count) => count,
            Err(_) => { return Err(ExifError::Malformed); },
        };
        Ok(value_len(type_code, count))
    }
}

} // verus!
