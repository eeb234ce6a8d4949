//! Reads the Exif orientation of a JPEG file straight from its bytes.
//!
//! The crate walks the APP1 segment by hand: it finds the segment's marker,
//! steps over the TIFF header into the first image file directory, looks for
//! a tag among the directory's twelve-byte entries and returns the bytes of
//! its value. Every read is checked against the length of the buffer, so a
//! truncated or forged file gives an error and never a fault.
//!
//! All multi-byte integers are read big-endian; the byte-order mark of the
//! TIFF header is not consulted. The pointer to a value that is longer than
//! four bytes is counted from the value field of its entry, not from the
//! TIFF header.

pub mod bytes;
pub mod error;
pub mod ifd;
pub mod orientation;
pub mod segment;
pub mod value;

pub use bytes::ImgBytes;
pub use error::{ExifError, OutOfBounds};
pub use ifd::IfdEntry;
pub use orientation::{get_orientation, ORIENTATION_TAG};
pub use segment::tiff_header_offset;
pub use value::{data_length, value_len};
