//! Little-endian scalars and a bounds-checked cursor over a byte buffer.

use vstd::prelude::*;

verus! {

/// The unsigned 16-bit value stored little-endian at `s[at..at + 2]`.
pub open spec fn le_u16(s: Seq<u8>, at: int) -> u16 {
    (s[at] as int + 0x100 * (s[at + 1] as int)) as u16
}

/// The unsigned 32-bit value stored little-endian at `s[at..at + 4]`.
pub open spec fn le_u32(s: Seq<u8>, at: int) -> u32 {
    (le_u16(s, at) as int + 0x1_0000 * (le_u16(s, at + 2) as int)) as u32
}

/// The unsigned 64-bit value stored little-endian at `s[at..at + 8]`.
pub open spec fn le_u64(s: Seq<u8>, at: int) -> u64 {
    (le_u32(s, at) as int + 0x1_0000_0000 * (le_u32(s, at + 4) as int)) as u64
}

/// A value read at an offset is the value at the start of what follows the
/// offset.
pub proof fn lemma_le_u64_skip(s: Seq<u8>, at: int)
    requires
        0 <= at,
        at + 8 <= s.len(),
    ensures
        le_u64(s.skip(at), 0) == le_u64(s, at),
{
    let t = s.skip(at);
    assert(t[0] == s[at] && t[1] == s[at + 1] && t[2] == s[at + 2] && t[3] == s[at + 3]);
    assert(t[4] == s[at + 4] && t[5] == s[at + 5] && t[6] == s[at + 6] && t[7] == s[at + 7]);
}

/// The two's-complement reading of a byte.
pub open spec fn signed8(v: u8) -> i8 {
    if v < 0x80 {
        v as i8
    } else {
        (v - 0x100) as i8
    }
}

/// The two's-complement reading of a 16-bit value.
pub open spec fn signed16(v: u16) -> i16 {
    if v < 0x8000 {
        v as i16
    } else {
        (v - 0x1_0000) as i16
    }
}

/// The two's-complement reading of a 32-bit value.
pub open spec fn signed32(v: u32) -> i32 {
    if v < 0x8000_0000 {
        v as i32
    } else {
        (v - 0x1_0000_0000) as i32
    }
}

/// The two's-complement reading of a 64-bit value.
pub open spec fn signed64(v: u64) -> i64 {
    if v < 0x8000_0000_0000_0000 {
        v as i64
    } else {
        (v - 0x1_0000_0000_0000_0000) as i64
    }
}

/// Reinterprets a byte as a signed value.
pub fn to_i8(v: u8) -> (r: i8)
    ensures
        r == signed8(v),
{
    if v < 0x80 {
        v as i8
    } else {
        (v - 0x80) as i8 + i8::MIN
    }
}

/// Reinterprets a 16-bit value as a signed value.
pub fn to_i16(v: u16) -> (r: i16)
    ensures
        r == signed16(v),
{
    if v < 0x8000 {
        v as i16
    } else {
        (v - 0x8000) as i16 + i16::MIN
    }
}

/// Reinterprets a 32-bit value as a signed value.
pub fn to_i32(v: u32) -> (r: i32)
    ensures
        r == signed32(v),
{
    if v < 0x8000_0000 {
        v as i32
    } else {
        (v - 0x8000_0000) as i32 + i32::MIN
    }
}

/// Reinterprets a 64-bit value as a signed value.
pub fn to_i64(v: u64) -> (r: i64)
    ensures
        r == signed64(v),
{
    if v < 0x8000_0000_0000_0000 {
        v as i64
    } else {
        (v - 0x8000_0000_0000_0000) as i64 + i64::MIN
    }
}

/// The standard library's `TryFromSliceError`: a slice had another length
/// than the array asked for. Nothing is read from it here.
#[verifier::external_type_specification]
#[verifier::external_body]
pub struct ExTryFromSliceError(core::array::TryFromSliceError);

/// `TryFrom<&[u8]>` for `&[u8; N]` of the standard library: the slice as an
/// array of the same bytes, which succeeds exactly when the slice has `N`
/// bytes.
#[verifier::external_body]
fn as_array<'a, const N: usize>(bytes: &'a [u8]) -> (r: Result<
    &'a [u8; N],
    core::array::TryFromSliceError,
>)
    ensures
        r is Ok <==> bytes@.len() == N,
        r is Ok ==> r->Ok_0@ == bytes@,
{
    <&[u8; N]>::try_from(bytes)
}

/// The one failure a read can report: the buffer ends too early.
#[derive(Clone, Copy, Debug, PartialEq, Eq)]
pub struct NotEnoughData;

/// A cursor over an immutable byte buffer. Reading borrows from the buffer
/// and moves the cursor past what was read; a failed read moves nothing.
pub struct Reader<'d> {
    rest: &'d [u8],
}

impl<'d> View for Reader<'d> {
    type V = Seq<u8>;

    /// The bytes that have not been read yet.
    closed spec fn view(&self) -> Seq<u8> {
        self.rest@
    }
}

impl<'d> Reader<'d> {
    /// A cursor at the start of `data`.
    pub fn new(data: &'d [u8]) -> (r: Self)
        ensures
            r@ == data@,
    {
        Reader { rest: data }
    }

    /// The bytes that have not been read yet.
    pub fn remaining(&self) -> (r: &'d [u8])
        ensures
            r@ == self@,
    {
        self.rest
    }

    /// Borrows the next `n` bytes and moves past them.
    pub fn read_slice(&mut self, n: usize) -> (r: Result<&'d [u8], NotEnoughData>)
        ensures
            match r {
                Ok(bytes) => {
                    &&& n <= old(self)@.len()
                    &&& bytes@ == old(self)@.take(n as int)
                    &&& final(self)@ == old(self)@.skip(n as int)
                },
                Err(_) => n > old(self)@.len() && final(self)@ == old(self)@,
            },
    {
        if self.rest.len() < n {
            return Err(NotEnoughData);
        }
        let (bytes, rest) = self.rest.split_at(n);
        self.rest = rest;
        Ok(bytes)
    }

    /// Reads one byte.
    pub fn read_u8(&mut self) -> (r: Result<u8, NotEnoughData>)
        ensures
            match r {
                Ok(v) => {
                    &&& 1 <= old(self)@.len()
                    &&& v == old(self)@[0]
                    &&& final(self)@ == old(self)@.skip(1)
                },
                Err(_) => 1 > old(self)@.len() && final(self)@ == old(self)@,
            },
    {
        let b = self.read_slice(1)?;
        Ok(b[0])
    }

    /// Reads a little-endian `u16`.
    pub fn read_u16(&mut self) -> (r: Result<u16, NotEnoughData>)
        ensures
            match r {
                Ok(v) => {
                    &&& 2 <= old(self)@.len()
                    &&& v == le_u16(old(self)@, 0)
                    &&& final(self)@ == old(self)@.skip(2)
                },
                Err(_) => 2 > old(self)@.len() && final(self)@ == old(self)@,
            },
    {
        let b = self.read_slice(2)?;
        Ok(b[0] as u16 + 0x100 * (b[1] as u16))
    }

    /// Reads a little-endian `u32`.
    pub fn read_u32(&mut self) -> (r: Result<u32, NotEnoughData>)
        ensures
            match r {
                Ok(v) => {
                    &&& 4 <= old(self)@.len()
                    &&& v == le_u32(old(self)@, 0)
                    &&& final(self)@ == old(self)@.skip(4)
                },
                Err(_) => 4 > old(self)@.len() && final(self)@ == old(self)@,
            },
    {
        let b = self.read_slice(4)?;
        let lo: u32 = b[0] as u32 + 0x100 * (b[1] as u32);
        let hi: u32 = b[2] as u32 + 0x100 * (b[3] as u32);
        Ok(lo + 0x1_0000 * hi)
    }
    /// Reads a little-endian `u64`.
    pub fn read_u64(&mut self) -> (r: Result<u64, NotEnoughData>)
        ensures
            match r {
                Ok(v) => {
                    &&& 8 <= old(self)@.len()
                    &&& v == le_u64(old(self)@, 0)
                    &&& final(self)@ == old(self)@.skip(8)
                },
                Err(_) => 8 > old(self)@.len() && final(self)@ == old(self)@,
            },
    {
        let b = self.read_slice(8)?;
        let w0: u64 = b[0] as u64 + 0x100 * (b[1] as u64);
        let w1: u64 = b[2] as u64 + 0x100 * (b[3] as u64);
        let w2: u64 = b[4] as u64 + 0x100 * (b[5] as u64);
        let w3: u64 = b[6] as u64 + 0x100 * (b[7] as u64);
        let lo: u64 = w0 + 0x1_0000 * w1;
        let hi: u64 = w2 + 0x1_0000 * w3;
        Ok(lo + 0x1_0000_0000 * hi)
    }

    /// Reads one byte as a signed value.
    pub fn read_i8(&mut self) -> (r: Result<i8, NotEnoughData>)
        ensures
            match r {
                Ok(v) => {
                    &&& 1 <= old(self)@.len()
                    &&& v == signed8(old(self)@[0])
                    &&& final(self)@ == old(self)@.skip(1)
                },
                Err(_) => 1 > old(self)@.len() && final(self)@ == old(self)@,
            },
    {
        let v = self.read_u8()?;
        Ok(to_i8(v))
    }

    /// Reads a little-endian `i16`.
    pub fn read_i16(&mut self) -> (r: Result<i16, NotEnoughData>)
        ensures
            match r {
                Ok(v) => {
                    &&& 2 <= old(self)@.len()
                    &&& v == signed16(le_u16(old(self)@, 0))
                    &&& final(self)@ == old(self)@.skip(2)
                },
                Err(_) => 2 > old(self)@.len() && final(self)@ == old(self)@,
            },
    {
        let v = self.read_u16()?;
        Ok(to_i16(v))
    }

    /// Reads a little-endian `i32`.
    pub fn read_i32(&mut self) -> (r: Result<i32, NotEnoughData>)
        ensures
            match r {
                Ok(v) => {
                    &&& 4 <= old(self)@.len()
                    &&& v == signed32(le_u32(old(self)@, 0))
                    &&& final(self)@ == old(self)@.skip(4)
                },
                Err(_) => 4 > old(self)@.len() && final(self)@ == old(self)@,
            },
    {
        let v = self.read_u32()?;
        Ok(to_i32(v))
    }

    /// Reads a little-endian `i64`.
    pub fn read_i64(&mut self) -> (r: Result<i64, NotEnoughData>)
        ensures
            match r {
                Ok(v) => {
                    &&& 8 <= old(self)@.len()
                    &&& v == signed64(le_u64(old(self)@, 0))
                    &&& final(self)@ == old(self)@.skip(8)
                },
                Err(_) => 8 > old(self)@.len() && final(self)@ == old(self)@,
            },
    {
        let v = self.read_u64()?;
        Ok(to_i64(v))
    }

    /// Borrows the next `N` bytes as an array and moves past them.
    pub fn read_array<const N: usize>(&mut self) -> (r: Result<&'d [u8; N], NotEnoughData>)
        ensures
            match r {
                Ok(bytes) => {
                    &&& N <= old(self)@.len()
                    &&& bytes@ == old(self)@.take(N as int)
                    &&& final(self)@ == old(self)@.skip(N as int)
                },
                Err(_) => N > old(self)@.len() && final(self)@ == old(self)@,
            },
    {
        let bytes = self.read_slice(N)?;
        match as_array::<N>(bytes) {
            Ok(array) => Ok(array),
            Err(_) => Err(NotEnoughData),
        }
    }
}

} // verus!
