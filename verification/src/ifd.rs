//! Walking an image file directory: its base, its entry count and its
//! twelve-byte entries.

use crate::bytes::{be_value, in_range, uint_at, window, ImgBytes};
use crate::error::{position_of, ExifError};
use vstd::prelude::*;

verus! {

/// The length of the TIFF header: byte-order mark, magic number and the
/// pointer to the first directory.
pub const TIFF_HEADER_LEN: usize = 8;

/// Where in the TIFF header the pointer to the first directory begins.
pub const IFD_POINTER_AT: usize = 4;

/// The length of one directory entry.
pub const ENTRY_LEN: usize = 12;

/// The length of the entry count that opens a directory.
pub const COUNT_LEN: usize = 2;

/// One record of a directory, decoded, together with the place it was
/// read from.
#[derive(Clone, Copy, Debug, PartialEq, Eq)]
pub struct IfdEntry {
    /// The index in the buffer at which the record begins.
    pub offset: usize,
    /// The tag id: the record's first two bytes.
    pub tag: u16,
    /// The type code of the value's elements: the next two bytes.
    pub type_code: u16,
    /// The number of elements: the next four bytes.
    pub count: u32,
    /// The last four bytes as they stand: the value itself where it fits,
    /// else a pointer to it.
    pub value: [u8; 4],
}

/// Where the first directory begins: the TIFF header's offset plus the
/// big-endian number in the header's bytes 4 to 8. A sum that no `usize`
/// can hold lies beyond every buffer.
pub open spec fn ifd_base_of(s: Seq<u8>, tiff_header_offset: int) -> Result<int, ExifError> {
    match uint_at(s, tiff_header_offset + IFD_POINTER_AT, 4) {
        Some(distance) => if tiff_header_offset + distance <= usize::MAX {
            Ok(tiff_header_offset + distance)
        } else {
            Err(ExifError::Malformed)
        },
        None => Err(ExifError::Malformed),
    }
}

/// How many entries the directory at `ifd_base` announces.
pub open spec fn entry_count_of(s: Seq<u8>, ifd_base: int) -> Result<int, ExifError> {
    match uint_at(s, ifd_base, 2) {
        Some(count) => Ok(count as int),
        None => Err(ExifError::Malformed),
    }
}

/// Where entry number `index` of the directory at `ifd_base` begins.
pub open spec fn entry_pos(ifd_base: int, index: int) -> int {
    ifd_base + COUNT_LEN + ENTRY_LEN * index
}

/// The record in the twelve bytes of `s` from `pos` on.
pub open spec fn entry_at(s: Seq<u8>, pos: int) -> IfdEntry
    recommends
        in_range(s, pos, 12),
{
    IfdEntry {
        offset: pos as usize,
        tag: be_value(window(s, pos, 2)) as u16,
        type_code: be_value(window(s, pos + 2, 2)) as u16,
        count: be_value(window(s, pos + 4, 4)) as u32,
        value: [s[pos + 8], s[pos + 9], s[pos + 10], s[pos + 11]],
    }
}

/// Entry number `index` of the directory at `ifd_base`, where all of its
/// twelve bytes lie inside `s`.
pub open spec fn entry_of(s: Seq<u8>, ifd_base: int, index: int) -> Result<IfdEntry, ExifError> {
    if in_range(s, entry_pos(ifd_base, index), 12) {
        Ok(entry_at(s, entry_pos(ifd_base, index)))
    } else {
        Err(ExifError::Malformed)
    }
}

/// The first `count` entries of the directory at `ifd_base`, in directory
/// order, where the last of them still lies inside `s`.
pub open spec fn entries_of(s: Seq<u8>, ifd_base: int, count: int) -> Result<
    Seq<IfdEntry>,
    ExifError,
> {
    if count <= 0 || in_range(s, entry_pos(ifd_base, count - 1), 12) {
        Ok(Seq::new(count as nat, |i: int| entry_at(s, entry_pos(ifd_base, i))))
    } else {
        Err(ExifError::Malformed)
    }
}

/// Whether entry number `index` can be read and carries `tag`.
pub open spec fn tag_matches(s: Seq<u8>, ifd_base: int, index: int, tag: u16) -> bool {
    in_range(s, entry_pos(ifd_base, index), 12) && entry_at(s, entry_pos(ifd_base, index)).tag
        == tag
}

/// Whether one of the first `count` entries carries `tag`.
pub open spec fn has_match(s: Seq<u8>, ifd_base: int, count: int, tag: u16) -> bool {
    exists|i: int| 0 <= i < count && tag_matches(s, ifd_base, i, tag)
}

/// Whether `index` is the first of the first `count` entries to carry `tag`.
pub open spec fn is_first_match(s: Seq<u8>, ifd_base: int, count: int, tag: u16, index: int) -> bool {
    &&& 0 <= index < count
    &&& tag_matches(s, ifd_base, index, tag)
    &&& forall|j: int| 0 <= j < index ==> !tag_matches(s, ifd_base, j, tag)
}

/// The number of the first entry that carries `tag`, where there is one.
pub open spec fn first_match(s: Seq<u8>, ifd_base: int, count: int, tag: u16) -> int {
    choose|i: int| is_first_match(s, ifd_base, count, tag, i)
}

/// What a search of the first `count` entries for `tag` gives: the first
/// entry that carries it; failing that, `Malformed` where the directory
/// runs past the end of the buffer and `TagNotFound` where it was read in
/// full. The order of the tag ids plays no part.
pub open spec fn found_entry(s: Seq<u8>, ifd_base: int, count: int, tag: u16) -> Result<
    IfdEntry,
    ExifError,
> {
    if has_match(s, ifd_base, count, tag) {
        Ok(entry_at(s, entry_pos(ifd_base, first_match(s, ifd_base, count, tag))))
    } else if count > 0 && !in_range(s, entry_pos(ifd_base, count - 1), 12) {
        Err(ExifError::Malformed)
    } else {
        Err(ExifError::TagNotFound)
    }
}

/// An entry that carries the tag and has none before it that does is the
/// first match: there is only one such entry.
pub proof fn lemma_first_match_is(s: Seq<u8>, ifd_base: int, count: int, tag: u16, index: int)
    requires
        is_first_match(s, ifd_base, count, tag, index),
    ensures
        has_match(s, ifd_base, count, tag),
        first_match(s, ifd_base, count, tag) == index,
{
    let chosen = first_match(s, ifd_base, count, tag);
    assert(is_first_match(s, ifd_base, count, tag, chosen));
    if chosen < index {
        assert(!tag_matches(s, ifd_base, chosen, tag));
    } else if index < chosen {
        assert(!tag_matches(s, ifd_base, index, tag));
    }
}

impl<'a> ImgBytes<'a> {
    /// The base of the first directory, from the pointer in the TIFF
    /// header. The header's byte-order mark and magic number are stepped
    /// over unread.
    pub fn ifd_base(&self, tiff_header_offset: usize) -> (base: Result<usize, ExifError>)
        ensures
            position_of(base) == ifd_base_of(self@, tiff_header_offset as int),
    {
        let len: usize = self.len();
        if tiff_header_offset > len || len - tiff_header_offset < TIFF_HEADER_LEN {
            return Err(ExifError::Malformed);
        }
        match self.as_usize(tiff_header_offset + IFD_POINTER_AT, 4) {
            Ok(distance) => match tiff_header_offset.checked_add(distance) {
                Some(base) => Ok(base),
                None => Err(ExifError::Malformed),
            },
            Err(_) => Err(ExifError::Malformed),
        }
    }

    /// The number of entries that the directory at `ifd_base` announces in
    /// its first two bytes.
    pub fn entry_count(&self, ifd_base: usize) -> (count: Result<usize, ExifError>)
        ensures
            position_of(count) == entry_count_of(self@, ifd_base as int),
    {
        match self.as_usize(ifd_base, COUNT_LEN) {
            Ok(count) => Ok(count),
            Err(_) => Err(ExifError::Malformed),
        }
    }

    /// Decodes the record in the twelve bytes from `pos` on.
    pub fn read_entry(&self, pos: usize) -> (entry: Result<IfdEntry, ExifError>)
        ensures
            entry is Ok <==> in_range(self@, pos as int, 12),
            entry is Ok ==> entry->Ok_0 == entry_at(self@, pos as int),
            entry is Err ==> entry->Err_0 == ExifError::Malformed,
    {
        let record = match self.slice(pos, ENTRY_LEN) {
            Ok(record) => record,
            Err(_) => { return Err(ExifError::Malformed); },
        };
        let fields = ImgBytes::new(record);
        let tag = match fields.read_u16(0) {
            Ok(tag) => tag,
            Err(_) => { return Err(ExifError::Malformed); },
        };
        let type_code = match fields.read_u16(2) {
            Ok(type_code) => type_code,
            Err(_) => { return Err(ExifError::Malformed); },
        };
        let count = match fields.read_u32(4) {
            Ok(count) => count,
            Err(_) => { return Err(ExifError::Malformed); },
        };
        let value = [record[8], record[9], record[10], record[11]];
        proof {
            let s = self@;
            let p = pos as int;
            assert(window(record@, 0, 2) =~= window(s, p, 2));
            assert(window(record@, 2, 2) =~= window(s, p + 2, 2));
            assert(window(record@, 4, 4) =~= window(s, p + 4, 4));
        }
        let entry = IfdEntry { offset: pos, tag, type_code, count, value };
        assert(entry.value =~= entry_at(self@, pos as int).value);
        Ok(entry)
    }

    /// Entry number `index` of the directory at `ifd_base`. The place is
    /// worked out anew from the two numbers on every call.
    pub fn entry(&self, ifd_base: usize, index: usize) -> (entry: Result<IfdEntry, ExifError>)
        ensures
            entry == entry_of(self@, ifd_base as int, index as int),
    {
        let len: usize = self.len();
        if ifd_base > len || len - ifd_base < COUNT_LEN {
            return Err(ExifError::Malformed);
        }
        let room: usize = (len - ifd_base - COUNT_LEN) / ENTRY_LEN;
        if index >= room {
            return Err(ExifError::Malformed);
        }
        self.read_entry(ifd_base + COUNT_LEN + ENTRY_LEN * index)
    }

    /// The first `count` entries of the directory at `ifd_base`, in
    /// directory order.
    pub fn entries(&self, ifd_base: usize, count: usize) -> (list: Result<Vec<IfdEntry>, ExifError>)
        ensures
            list is Ok <==> entries_of(self@, ifd_base as int, count as int) is Ok,
            list is Ok ==> list->Ok_0@ == entries_of(self@, ifd_base as int, count as int)->Ok_0,
            list is Err ==> list->Err_0 == ExifError::Malformed,
    {
        let mut list: Vec<IfdEntry> = Vec::new();
        let mut i: usize = 0;
        while i < count
            invariant
                i <= count,
                list@.len() == i,
                forall|j: int|
                    #![trigger entry_pos(ifd_base as int, j)]
                    0 <= j < i ==> in_range(self@, entry_pos(ifd_base as int, j), 12)
                        && list@[j] == entry_at(self@, entry_pos(ifd_base as int, j)),
            decreases count - i,
        {
            match self.entry(ifd_base, i) {
                Ok(entry) => {
                    list.push(entry);
                },
                Err(_) => {
                    return Err(ExifError::Malformed);
                },
            }
            i += 1;
        }
        proof {
            if count > 0 {
                assert(in_range(self@, entry_pos(ifd_base as int, count - 1), 12));
            }
            assert forall|j: int| 0 <= j < count implies list@[j] == entry_at(
                self@,
                entry_pos(ifd_base as int, j),
            ) by {
                assert(in_range(self@, entry_pos(ifd_base as int, j), 12));
            }
            assert(list@ =~= entries_of(self@, ifd_base as int, count as int)->Ok_0);
        }
        Ok(list)
    }

    /// Searches the first `count` entries of the directory at `ifd_base`,
    /// in directory order, for the first that carries `target_tag`.
    pub fn find_entry(&self, ifd_base: usize, count: usize, target_tag: u16) -> (found: Result<
        IfdEntry,
        ExifError,
    >)
        ensures
            found == found_entry(self@, ifd_base as int, count as int, target_tag),
            count == 0 ==> found == Err::<IfdEntry, ExifError>(ExifError::TagNotFound),
            found is Ok ==> found->Ok_0.tag == target_tag,
    {
        let mut i: usize = 0;
        while i < count
            invariant
                i <= count,
                forall|j: int|
                    #![trigger entry_pos(ifd_base as int, j)]
                    0 <= j < i ==> in_range(self@, entry_pos(ifd_base as int, j), 12)
                        && !tag_matches(self@, ifd_base as int, j, target_tag),
            decreases count - i,
        {
            match self.entry(ifd_base, i) {
                Ok(entry) => {
                    if entry.tag == target_tag {
                        proof {
                            lemma_first_match_is(
                                self@,
                                ifd_base as int,
                                count as int,
                                target_tag,
                                i as int,
                            );
                        }
                        return Ok(entry);
                    }
                },
                Err(_) => {
                    return Err(ExifError::Malformed);
                },
            }
            i += 1;
        }
        proof {
            if count > 0 {
                assert(in_range(self@, entry_pos(ifd_base as int, count - 1), 12));
            }
        }
        Err(ExifError::TagNotFound)
    }
}

} // verus!
