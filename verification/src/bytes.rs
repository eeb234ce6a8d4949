//! A bounds-checked, read-only window over the bytes of a file.

use crate::error::OutOfBounds;
use vstd::prelude::*;

verus! {

/// The number that `s` spells when read as big-endian base-256 digits.
pub open spec fn be_value(s: Seq<u8>) -> nat
    decreases s.len(),
{
    if s.len() == 0 {
        0
    } else {
        be_value(s.drop_last()) * 256 + s.last() as nat
    }
}

/// `256` to the power `n`: one more than the largest value of `n` bytes.
pub open spec fn radix_pow(n: nat) -> nat
    decreases n,
{
    if n == 0 {
        1
    } else {
        256 * radix_pow((n - 1) as nat)
    }
}

/// Whether the `size` bytes from `start` on all lie inside `s`.
pub open spec fn in_range(s: Seq<u8>, start: int, size: int) -> bool {
    0 <= start && 0 <= size && start + size <= s.len()
}

/// The `size` bytes of `s` from `start` on.
pub open spec fn window(s: Seq<u8>, start: int, size: int) -> Seq<u8> {
    s.subrange(start, start + size)
}

/// The big-endian number held in the `size` bytes from `start` on, where
/// they lie inside `s`.
pub open spec fn uint_at(s: Seq<u8>, start: int, size: int) -> Option<nat> {
    if in_range(s, start, size) {
        Some(be_value(window(s, start, size)))
    } else {
        None
    }
}

/// The sixteen lowercase hexadecimal digits, in order of value.
pub open spec fn hex_digits() -> Seq<char> {
    seq!['0', '1', '2', '3', '4', '5', '6', '7', '8', '9', 'a', 'b', 'c', 'd', 'e', 'f']
}

/// The rendering of `s` in lowercase hexadecimal: two digits for every
/// byte, the high nibble first, with nothing between the bytes.
pub open spec fn hex_of(s: Seq<u8>) -> Seq<char> {
    Seq::new(
        2 * s.len(),
        |i: int|
            if i % 2 == 0 {
                hex_digits()[s[i / 2] as int / 16]
            } else {
                hex_digits()[s[i / 2] as int % 16]
            },
    )
}

/// Whether `s` opens with the JPEG start-of-image marker.
pub open spec fn starts_with_soi(s: Seq<u8>) -> bool {
    s.len() >= 2 && s[0] == 0xFF && s[1] == 0xD8
}

/// A number of `n` bytes is below `256^n`.
pub proof fn lemma_be_value_bound(s: Seq<u8>)
    ensures
        be_value(s) < radix_pow(s.len()),
    decreases s.len(),
{
    if s.len() > 0 {
        lemma_be_value_bound(s.drop_last());
    }
}

/// The powers of 256 that fit a machine word.
pub proof fn lemma_radix_pow_values()
    ensures
        radix_pow(0) == 1,
        radix_pow(1) == 0x100,
        radix_pow(2) == 0x1_0000,
        radix_pow(3) == 0x100_0000,
        radix_pow(4) == 0x1_0000_0000,
        radix_pow(5) == 0x100_0000_0000,
        radix_pow(6) == 0x1_0000_0000_0000,
        radix_pow(7) == 0x100_0000_0000_0000,
        radix_pow(8) == 0x1_0000_0000_0000_0000,
{
    reveal_with_fuel(radix_pow, 10);
}

/// The digit that stands for a nibble, as a string of one character.
fn hex_digit(nibble: u8) -> (digit: &'static str)
    requires
        nibble < 16,
    ensures
        digit@ == seq![hex_digits()[nibble as int]],
{
    proof {
        reveal_strlit("0");
        reveal_strlit("1");
        reveal_strlit("2");
        reveal_strlit("3");
        reveal_strlit("4");
        reveal_strlit("5");
        reveal_strlit("6");
        reveal_strlit("7");
        reveal_strlit("8");
        reveal_strlit("9");
        reveal_strlit("a");
        reveal_strlit("b");
        reveal_strlit("c");
        reveal_strlit("d");
        reveal_strlit("e");
        reveal_strlit("f");
    }
    let digit = match nibble {
        0 => "0",
        1 => "1",
        2 => "2",
        3 => "3",
        4 => "4",
        5 => "5",
        6 => "6",
        7 => "7",
        8 => "8",
        9 => "9",
        10 => "a",
        11 => "b",
        12 => "c",
        13 => "d",
        14 => "e",
        _ => "f",
    };
    assert(digit@ =~= seq![hex_digits()[nibble as int]]);
    digit
}

/// A borrowed buffer together with the reads that parsing needs. No read
/// reaches outside the buffer: one that would is answered with an error.
#[derive(Clone, Copy, Debug)]
pub struct ImgBytes<'a> {
    bytes: &'a [u8],
}

impl<'a> View for ImgBytes<'a> {
    type V = Seq<u8>;

    closed spec fn view(&self) -> Seq<u8> {
        self.bytes@
    }
}

impl<'a> ImgBytes<'a> {
    /// Wraps a buffer without copying it.
    pub fn new(bytes: &'a [u8]) -> (view: Self)
        ensures
            view@ == bytes@,
    {
        Self { bytes }
    }

    /// The number of bytes in the buffer.
    pub fn len(&self) -> (n: usize)
        ensures
            n == self@.len(),
    {
        self.bytes.len()
    }

    /// The whole buffer.
    pub fn as_slice(&self) -> (bytes: &'a [u8])
        ensures
            bytes@ == self@,
    {
        self.bytes
    }

    /// True exactly when the first two bytes are `FF D8`.
    pub fn is_jpeg(&self) -> (jpeg: bool)
        ensures
            jpeg == starts_with_soi(self@),
    {
        self.bytes.len() >= 2 && self.bytes[0] == 0xFF && self.bytes[1] == 0xD8
    }

    /// Borrows the `size` bytes from `start` on.
    pub fn slice(&self, start: usize, size: usize) -> (r: Result<&'a [u8], OutOfBounds>)
        ensures
            r is Ok <==> in_range(self@, start as int, size as int),
            r is Ok ==> r->Ok_0@ == window(self@, start as int, size as int),
    {
        let len: usize = self.bytes.len();
        if start > len || size > len - start {
            return Err(OutOfBounds);
        }
        Ok(&self.bytes[start..start + size])
    }

    /// Reads `size` bytes from `start` on as one big-endian unsigned number:
    /// the byte at `start` is the most significant. A `u64` holds eight
    /// bytes and no more.
    pub fn read_uint(&self, start: usize, size: usize) -> (r: Result<u64, OutOfBounds>)
        requires
            size <= 8,
        ensures
            r is Ok <==> in_range(self@, start as int, size as int),
            r is Ok ==> r->Ok_0 == be_value(window(self@, start as int, size as int)),
    {
        let digits = match self.slice(start, size) {
            Ok(digits) => digits,
            Err(e) => { return Err(e); },
        };
        let mut value: u64 = 0;
        let mut i: usize = 0;
        while i < size
            invariant
                i <= size <= 8,
                digits@.len() == size,
                value == be_value(digits@.take(i as int)),
            decreases size - i,
        {
            proof {
                lemma_be_value_bound(digits@.take(i as int));
                lemma_radix_pow_values();
                assert(digits@.take(i + 1).drop_last() =~= digits@.take(i as int));
            }
            value = value * 256 + digits[i] as u64;
            i += 1;
        }
        assert(digits@.take(size as int) =~= digits@);
        Ok(value)
    }

    /// Reads an offset or a count of at most four bytes, big-endian, as a
    /// `usize`. Four bytes fit a `usize` of 32 bits or more.
    pub fn as_usize(&self, start: usize, size: usize) -> (r: Result<usize, OutOfBounds>)
        requires
            size <= 4,
        ensures
            r is Ok <==> in_range(self@, start as int, size as int),
            r is Ok ==> r->Ok_0 == be_value(window(self@, start as int, size as int)),
    {
        match self.read_uint(start, size) {
            Ok(value) => {
                proof {
                    lemma_be_value_bound(window(self@, start as int, size as int));
                    lemma_radix_pow_values();
                }
                Ok(value as usize)
            },
            Err(e) => Err(e),
        }
    }

    /// Reads the two bytes from `start` on as a big-endian `u16`.
    pub fn read_u16(&self, start: usize) -> (r: Result<u16, OutOfBounds>)
        ensures
            r is Ok <==> in_range(self@, start as int, 2),
            r is Ok ==> r->Ok_0 == be_value(window(self@, start as int, 2)),
    {
        match self.read_uint(start, 2) {
            Ok(value) => {
                proof {
                    lemma_be_value_bound(window(self@, start as int, 2));
                    lemma_radix_pow_values();
                }
                Ok(value as u16)
            },
            Err(e) => Err(e),
        }
    }

    /// Reads the four bytes from `start` on as a big-endian `u32`.
    pub fn read_u32(&self, start: usize) -> (r: Result<u32, OutOfBounds>)
        ensures
            r is Ok <==> in_range(self@, start as int, 4),
            r is Ok ==> r->Ok_0 == be_value(window(self@, start as int, 4)),
    {
        match self.read_uint(start, 4) {
            Ok(value) => {
                proof {
                    lemma_be_value_bound(window(self@, start as int, 4));
                    lemma_radix_pow_values();
                }
                Ok(value as u32)
            },
            Err(e) => Err(e),
        }
    }

    /// Renders the `size` bytes from `start` on in lowercase hexadecimal,
    /// every byte as exactly two digits.
    pub fn hex_str(&self, start: usize, size: usize) -> (r: Result<String, OutOfBounds>)
        ensures
            r is Ok <==> in_range(self@, start as int, size as int),
            r is Ok ==> r->Ok_0@ == hex_of(window(self@, start as int, size as int)),
    {
        let octets = match self.slice(start, size) {
            Ok(octets) => octets,
            Err(e) => { return Err(e); },
        };
        let mut text = String::new();
        let mut i: usize = 0;
        while i < size
            invariant
                i <= size,
                octets@.len() == size,
                text@ == hex_of(octets@.take(i as int)),
            decreases size - i,
        {
            let octet: u8 = octets[i];
            text.append(hex_digit(octet / 16));
            text.append(hex_digit(octet % 16));
            assert(text@ =~= hex_of(octets@.take(i + 1)));
            i += 1;
        }
        assert(octets@.take(size as int) =~= octets@);
        Ok(text)
    }
}

} // verus!
