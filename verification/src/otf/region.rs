use std::ops::Range;
use vstd::prelude::*;

verus! {

/// Big-endian unsigned 16-bit integer stored at `o` in `s`.
pub open spec fn be_u16(s: Seq<u8>, o: int) -> int {
    s[o] * 256 + s[o + 1]
}

/// Big-endian unsigned 32-bit integer stored at `o` in `s`.
pub open spec fn be_u32(s: Seq<u8>, o: int) -> int {
    be_u16(s, o) * 65536 + be_u16(s, o + 2)
}

/// Big-endian unsigned 64-bit integer stored at `o` in `s`.
pub open spec fn be_u64(s: Seq<u8>, o: int) -> int {
    be_u32(s, o) * 4294967296 + be_u32(s, o + 4)
}

/// Two's complement reading of an unsigned value `u` of `bits` bits.
pub open spec fn signed(u: int, half: int) -> int {
    if u < half {
        u
    } else {
        u - 2 * half
    }
}

/// Big-endian signed 8-bit integer stored at `o` in `s`.
pub open spec fn be_i8(s: Seq<u8>, o: int) -> int {
    signed(s[o] as int, 128)
}

/// Big-endian signed 16-bit integer stored at `o` in `s`.
pub open spec fn be_i16(s: Seq<u8>, o: int) -> int {
    signed(be_u16(s, o), 32768)
}

/// Big-endian signed 32-bit integer stored at `o` in `s`.
pub open spec fn be_i32(s: Seq<u8>, o: int) -> int {
    signed(be_u32(s, o), 2147483648)
}

/// Big-endian signed 64-bit integer stored at `o` in `s`.
pub open spec fn be_i64(s: Seq<u8>, o: int) -> int {
    signed(be_u64(s, o), 9223372036854775808)
}

/// Whether `n` bytes starting at `o` lie within a sequence of length `len`.
pub open spec fn fits(len: int, o: int, n: int) -> bool {
    0 <= o && o + n <= len
}

/// The big-endian `u8` at `o`, or zero if it lies outside `s`.
pub open spec fn u8_or_zero(s: Seq<u8>, o: int) -> int {
    if fits(s.len() as int, o, 1) {
        s[o] as int
    } else {
        0
    }
}

/// The big-endian `u16` at `o`, or zero if it lies outside `s`.
pub open spec fn u16_or_zero(s: Seq<u8>, o: int) -> int {
    if fits(s.len() as int, o, 2) {
        be_u16(s, o)
    } else {
        0
    }
}

/// The big-endian `i16` at `o`, or zero if it lies outside `s`.
pub open spec fn i16_or_zero(s: Seq<u8>, o: int) -> int {
    if fits(s.len() as int, o, 2) {
        be_i16(s, o)
    } else {
        0
    }
}

/// The big-endian `u32` at `o`, or zero if it lies outside `s`.
pub open spec fn u32_or_zero(s: Seq<u8>, o: int) -> int {
    if fits(s.len() as int, o, 4) {
        be_u32(s, o)
    } else {
        0
    }
}

/// The big-endian `i64` at `o`, or zero if it lies outside `s`.
pub open spec fn i64_or_zero(s: Seq<u8>, o: int) -> int {
    if fits(s.len() as int, o, 8) {
        be_i64(s, o)
    } else {
        0
    }
}

/// A byte region within an OTF font file.
///
/// `start` and `end` record where the region lies within the region it was cut out of,
/// while `bytes` holds exactly the bytes of the region.
#[derive(Copy, Clone)]
pub struct Region<'a> {
    start: usize,
    end: usize,
    bytes: &'a [u8],
}

impl<'a> View for Region<'a> {
    type V = Seq<u8>;

    closed spec fn view(&self) -> Seq<u8> {
        self.bytes@
    }
}

impl<'a> Region<'a> {
    /// Start of the region within its parent region.
    pub closed spec fn spec_start(&self) -> int {
        self.start as int
    }

    /// End of the region within its parent region.
    pub closed spec fn spec_end(&self) -> int {
        self.end as int
    }

    /// Creates a region covering all of `bytes`.
    pub fn new(bytes: &'a [u8]) -> (r: Self)
        ensures
            r@ == bytes@,
            r.spec_start() == 0,
            r.spec_end() == bytes@.len(),
    {
        Region { start: 0, end: bytes.len(), bytes }
    }

    /// The range this region occupies in the region it was cut from.
    pub fn range(&self) -> (r: Range<usize>)
        ensures
            r.start == self.spec_start(),
            r.end == self.spec_end(),
    {
        self.start..self.end
    }

    /// All bytes of the region.
    pub fn bytes(&self) -> (r: &'a [u8])
        ensures
            r@ == self@,
    {
        self.bytes
    }

    /// The bytes at `range`, if it lies within the region.
    pub fn get(&self, range: Range<usize>) -> (r: Option<&'a [u8]>)
        ensures
            r matches Some(b) ==> range.start <= range.end <= self@.len() && b@ == self@.subrange(
                range.start as int,
                range.end as int,
            ),
            r is None ==> !(range.start <= range.end <= self@.len()),
    {
        if range.start <= range.end && range.end <= self.bytes.len() {
            Some(&self.bytes[range.start..range.end])
        } else {
            None
        }
    }

    /// Number of bytes in the region.
    pub fn len(&self) -> (r: usize)
        ensures
            r == self@.len(),
    {
        self.bytes.len()
    }

    /// Whether `n` bytes are available at `offset`, computed without overflow.
    fn has(&self, offset: usize, n: usize) -> (r: bool)
        ensures
            r == fits(self@.len() as int, offset as int, n as int),
            r ==> offset + n <= usize::MAX,
    {
        offset <= self.bytes.len() && n <= self.bytes.len() - offset
    }

    /// Reads the byte at `offset`.
    pub fn read_u8_at(&self, offset: usize) -> (r: Option<u8>)
        ensures
            r is Some <==> fits(self@.len() as int, offset as int, 1),
            r matches Some(v) ==> v == self@[offset as int],
    {
        if self.has(offset, 1) {
            Some(self.bytes[offset])
        } else {
            None
        }
    }

    /// Reads the signed byte at `offset`.
    pub fn read_i8_at(&self, offset: usize) -> (r: Option<i8>)
        ensures
            r is Some <==> fits(self@.len() as int, offset as int, 1),
            r matches Some(v) ==> v == be_i8(self@, offset as int),
    {
        if self.has(offset, 1) {
            let b = self.bytes[offset];
            if b < 128 {
                Some(b as i8)
            } else {
                Some((b as i16 - 256) as i8)
            }
        } else {
            None
        }
    }

    /// Reads the big-endian `u16` at `offset`.
    pub fn read_u16_at(&self, offset: usize) -> (r: Option<u16>)
        ensures
            r is Some <==> fits(self@.len() as int, offset as int, 2),
            r matches Some(v) ==> v == be_u16(self@, offset as int),
    {
        if self.has(offset, 2) {
            let b0 = self.bytes[offset] as u16;
            let b1 = self.bytes[offset + 1] as u16;
            Some(b0 * 256 + b1)
        } else {
            None
        }
    }

    /// Reads the big-endian `i16` at `offset`.
    pub fn read_i16_at(&self, offset: usize) -> (r: Option<i16>)
        ensures
            r is Some <==> fits(self@.len() as int, offset as int, 2),
            r matches Some(v) ==> v == be_i16(self@, offset as int),
    {
        match self.read_u16_at(offset) {
            Some(u) => {
                if u < 32768 {
                    Some(u as i16)
                } else {
                    Some((u as i32 - 65536) as i16)
                }
            },
            None => None,
        }
    }

    /// Reads the big-endian `u32` at `offset`.
    pub fn read_u32_at(&self, offset: usize) -> (r: Option<u32>)
        ensures
            r is Some <==> fits(self@.len() as int, offset as int, 4),
            r matches Some(v) ==> v == be_u32(self@, offset as int),
    {
        if self.has(offset, 4) {
            let hi = self.bytes[offset] as u32 * 256 + self.bytes[offset + 1] as u32;
            let lo = self.bytes[offset + 2] as u32 * 256 + self.bytes[offset + 3] as u32;
            Some(hi * 65536 + lo)
        } else {
            None
        }
    }

    /// Reads the big-endian `i32` at `offset`.
    pub fn read_i32_at(&self, offset: usize) -> (r: Option<i32>)
        ensures
            r is Some <==> fits(self@.len() as int, offset as int, 4),
            r matches Some(v) ==> v == be_i32(self@, offset as int),
    {
        match self.read_u32_at(offset) {
            Some(u) => {
                if u < 2147483648 {
                    Some(u as i32)
                } else {
                    Some((u as i64 - 4294967296) as i32)
                }
            },
            None => None,
        }
    }

    /// Reads the big-endian `u64` at `offset`.
    pub fn read_u64_at(&self, offset: usize) -> (r: Option<u64>)
        ensures
            r is Some <==> fits(self@.len() as int, offset as int, 8),
            r matches Some(v) ==> v == be_u64(self@, offset as int),
    {
        if self.has(offset, 8) {
            let hi = self.read_u32_at(offset).unwrap() as u64;
            let lo = self.read_u32_at(offset + 4).unwrap() as u64;
            assert(hi * 4294967296 + lo <= u64::MAX) by (nonlinear_arith)
                requires
                    hi <= u32::MAX,
                    lo <= u32::MAX,
            ;
            Some(hi * 4294967296 + lo)
        } else {
            None
        }
    }

    /// Reads the big-endian `i64` at `offset`.
    pub fn read_i64_at(&self, offset: usize) -> (r: Option<i64>)
        ensures
            r is Some <==> fits(self@.len() as int, offset as int, 8),
            r matches Some(v) ==> v == be_i64(self@, offset as int),
    {
        match self.read_u64_at(offset) {
            Some(u) => {
                if u < 9223372036854775808 {
                    Some(u as i64)
                } else {
                    Some((u as i128 - 18446744073709551616) as i64)
                }
            },
            None => None,
        }
    }

    /// Reads two consecutive big-endian `u8` values at `offset`.
    pub fn read_2x_u8_at(&self, offset: usize) -> (r: Option<(u8, u8)>)
        ensures
            r is Some <==> fits(self@.len() as int, offset as int, 2),
            r matches Some(v) ==> v.0 == self@[offset as int] && v.1 == self@[offset + 1],
    {
        if self.has(offset, 2) {
            Some((self.bytes[offset], self.bytes[offset + 1]))
        } else {
            None
        }
    }

    /// Reads two consecutive big-endian `u16` values at `offset`.
    pub fn read_2x_u16_at(&self, offset: usize) -> (r: Option<(u16, u16)>)
        ensures
            r is Some <==> fits(self@.len() as int, offset as int, 4),
            r matches Some(v) ==> v.0 == be_u16(self@, offset as int) && v.1 == be_u16(
                self@,
                offset + 2,
            ),
    {
        if self.has(offset, 4) {
            Some((self.read_u16_at(offset).unwrap(), self.read_u16_at(offset + 2).unwrap()))
        } else {
            None
        }
    }

    /// Reads two consecutive big-endian `i16` values at `offset`.
    pub fn read_2x_i16_at(&self, offset: usize) -> (r: Option<(i16, i16)>)
        ensures
            r is Some <==> fits(self@.len() as int, offset as int, 4),
            r matches Some(v) ==> v.0 == be_i16(self@, offset as int) && v.1 == be_i16(
                self@,
                offset + 2,
            ),
    {
        if self.has(offset, 4) {
            Some((self.read_i16_at(offset).unwrap(), self.read_i16_at(offset + 2).unwrap()))
        } else {
            None
        }
    }

    /// Reads two consecutive big-endian `u32` values at `offset`.
    pub fn read_2x_u32_at(&self, offset: usize) -> (r: Option<(u32, u32)>)
        ensures
            r is Some <==> fits(self@.len() as int, offset as int, 8),
            r matches Some(v) ==> v.0 == be_u32(self@, offset as int) && v.1 == be_u32(
                self@,
                offset + 4,
            ),
    {
        if self.has(offset, 8) {
            Some((self.read_u32_at(offset).unwrap(), self.read_u32_at(offset + 4).unwrap()))
        } else {
            None
        }
    }

    /// Reads the `u8` at `offset`, or zero if out of range.
    pub(crate) fn u8_or_zero_at(&self, offset: usize) -> (r: u8)
        ensures
            r == u8_or_zero(self@, offset as int),
    {
        match self.read_u8_at(offset) {
            Some(v) => v,
            None => 0,
        }
    }

    /// Reads the big-endian `u16` at `offset`, or zero if out of range.
    pub(crate) fn u16_or_zero_at(&self, offset: usize) -> (r: u16)
        ensures
            r == u16_or_zero(self@, offset as int),
    {
        match self.read_u16_at(offset) {
            Some(v) => v,
            None => 0,
        }
    }

    /// Reads the big-endian `i16` at `offset`, or zero if out of range.
    pub(crate) fn i16_or_zero_at(&self, offset: usize) -> (r: i16)
        ensures
            r == i16_or_zero(self@, offset as int),
    {
        match self.read_i16_at(offset) {
            Some(v) => v,
            None => 0,
        }
    }

    /// Reads the big-endian `u32` at `offset`, or zero if out of range.
    pub(crate) fn u32_or_zero_at(&self, offset: usize) -> (r: u32)
        ensures
            r == u32_or_zero(self@, offset as int),
    {
        match self.read_u32_at(offset) {
            Some(v) => v,
            None => 0,
        }
    }

    /// Reads the big-endian `i64` at `offset`, or zero if out of range.
    pub(crate) fn i64_or_zero_at(&self, offset: usize) -> (r: i64)
        ensures
            r == i64_or_zero(self@, offset as int),
    {
        match self.read_i64_at(offset) {
            Some(v) => v,
            None => 0,
        }
    }

    /// Cuts out the region at `range`, which must lie within this region.
    pub fn subregion(&self, range: Range<usize>) -> (r: Option<Region<'a>>)
        ensures
            r is Some <==> (range.start <= range.end && range.end <= isize::MAX && range.end
                <= self@.len()),
            r matches Some(sub) ==> {
                &&& sub@ == self@.subrange(range.start as int, range.end as int)
                &&& sub.spec_start() == range.start
                &&& sub.spec_end() == range.end
            },
    {
        if range.start > (isize::MAX as usize) || range.end > (isize::MAX as usize) || range.start
            > range.end || range.end > self.bytes.len() {
            return None;
        }
        let bytes = &self.bytes[range.start..range.end];
        Some(Region { start: range.start, end: range.end, bytes })
    }
}

} // verus!
