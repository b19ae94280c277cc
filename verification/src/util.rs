//! A bounds-checked, forward-only cursor over bytes, and the big-endian
//! integers that font tables are made of.

use byteorder::{BigEndian, ByteOrder};
use vstd::prelude::*;
use vstd::slice::slice_subrange;

use crate::error::FontError;

verus! {

/// The unsigned 16-bit integer whose big-endian bytes are `s[at]`, `s[at + 1]`.
pub open spec fn u16_at(s: Seq<u8>, at: int) -> int {
    s[at] as int * 0x100 + s[at + 1] as int
}

/// The unsigned 32-bit integer whose big-endian bytes start at `s[at]`.
pub open spec fn u32_at(s: Seq<u8>, at: int) -> int {
    s[at] as int * 0x100_0000 + s[at + 1] as int * 0x1_0000 + s[at + 2] as int * 0x100 + s[at
        + 3] as int
}

/// The value of the low 16 bits of `v`, read as a two's complement number.
pub open spec fn signed16(v: int) -> int {
    (v + 0x8000) % 0x1_0000 - 0x8000
}

/// The value of the low 32 bits of `v`, read as a two's complement number.
pub open spec fn signed32(v: int) -> int {
    (v + 0x8000_0000) % 0x1_0000_0000 - 0x8000_0000
}

/// The signed 16-bit integer whose big-endian bytes are `s[at]`, `s[at + 1]`.
pub open spec fn i16_at(s: Seq<u8>, at: int) -> int {
    signed16(u16_at(s, at))
}

/// The signed 32-bit integer whose big-endian bytes start at `s[at]`.
pub open spec fn i32_at(s: Seq<u8>, at: int) -> int {
    signed32(u32_at(s, at))
}

/// `byteorder::BigEndian::read_u16`: the first two bytes of `buf`, most
/// significant first. It panics on fewer than two bytes, which the
/// precondition rules out.
#[verifier::external_body]
fn big_endian_u16(buf: &[u8]) -> (r: u16)
    requires
        buf@.len() >= 2,
    ensures
        r as int == u16_at(buf@, 0),
{
    BigEndian::read_u16(buf)
}

/// `byteorder::BigEndian::read_i16`: the first two bytes of `buf`, most
/// significant first, as a two's complement number. It panics on fewer
/// than two bytes, which the precondition rules out.
#[verifier::external_body]
fn big_endian_i16(buf: &[u8]) -> (r: i16)
    requires
        buf@.len() >= 2,
    ensures
        r as int == i16_at(buf@, 0),
{
    BigEndian::read_i16(buf)
}

/// `byteorder::BigEndian::read_u32`: the first four bytes of `buf`, most
/// significant first. It panics on fewer than four bytes, which the
/// precondition rules out.
#[verifier::external_body]
fn big_endian_u32(buf: &[u8]) -> (r: u32)
    requires
        buf@.len() >= 4,
    ensures
        r as int == u32_at(buf@, 0),
{
    BigEndian::read_u32(buf)
}

/// `byteorder::BigEndian::read_i32`: the first four bytes of `buf`, most
/// significant first, as a two's complement number. It panics on fewer
/// than four bytes, which the precondition rules out.
#[verifier::external_body]
fn big_endian_i32(buf: &[u8]) -> (r: i32)
    requires
        buf@.len() >= 4,
    ensures
        r as int == i32_at(buf@, 0),
{
    BigEndian::read_i32(buf)
}

/// A position in a byte slice that only moves forward and never past the
/// end. A read or a jump that would need bytes that are not there fails
/// and leaves the cursor where it was.
#[derive(Clone, Copy, Debug)]
pub struct Cursor<'a> {
    bytes: &'a [u8],
    pos: usize,
}

impl<'a> Cursor<'a> {
    /// All the bytes the cursor was made over, read or not.
    pub closed spec fn data(&self) -> Seq<u8> {
        self.bytes@
    }

    /// How many bytes lie behind the cursor.
    pub closed spec fn offset(&self) -> int {
        self.pos as int
    }

    /// The cursor lies within its data. This holds of every cursor there is.
    #[verifier::type_invariant]
    pub open spec fn in_bounds(self) -> bool {
        0 <= self.offset() <= self.data().len()
    }

    /// The bytes still ahead of the cursor.
    pub open spec fn rest(&self) -> Seq<u8> {
        self.data().subrange(self.offset(), self.data().len() as int)
    }

    /// A cursor at the start of `bytes`.
    pub fn new(bytes: &'a [u8]) -> (cursor: Cursor<'a>)
        ensures
            cursor.data() == bytes@,
            cursor.offset() == 0,
    {
        Cursor { bytes, pos: 0 }
    }

    /// The number of bytes that lie behind the cursor.
    pub fn position(&self) -> (n: usize)
        ensures
            n == self.offset(),
    {
        self.pos
    }

    /// The number of bytes still ahead.
    pub fn remaining(&self) -> (n: usize)
        ensures
            n == self.data().len() - self.offset(),
    {
        proof {
            use_type_invariant(self);
        }
        self.bytes.len() - self.pos
    }

    /// The bytes still ahead, as a slice.
    pub fn as_slice(&self) -> (rest: &'a [u8])
        ensures
            rest@ == self.rest(),
    {
        proof {
            use_type_invariant(self);
        }
        slice_subrange(self.bytes, self.pos, self.bytes.len())
    }

    /// Moves `n` bytes forward. Landing on the end of the data is allowed;
    /// beyond it is not.
    pub fn jump(&mut self, n: usize) -> (r: Result<(), FontError>)
        ensures
            final(self).data() == old(self).data(),
            r is Ok <==> old(self).offset() + n <= old(self).data().len(),
            r is Ok ==> final(self).offset() == old(self).offset() + n,
            r matches Err(e) ==> e == FontError::UnexpectedEof && final(self).offset() == old(
                self,
            ).offset(),
    {
        proof {
            use_type_invariant(&*self);
        }
        if n <= self.bytes.len() - self.pos {
            self.pos = self.pos + n;
            Ok(())
        } else {
            Err(FontError::UnexpectedEof)
        }
    }

    /// Reads one byte.
    pub fn read_u8(&mut self) -> (r: Result<u8, FontError>)
        ensures
            final(self).data() == old(self).data(),
            r is Ok <==> old(self).offset() + 1 <= old(self).data().len(),
            r matches Ok(v) ==> v == old(self).data()[old(self).offset()] && final(self).offset()
                == old(self).offset() + 1,
            r matches Err(e) ==> e == FontError::UnexpectedEof && final(self).offset() == old(
                self,
            ).offset(),
    {
        proof {
            use_type_invariant(&*self);
        }
        if self.pos < self.bytes.len() {
            let b = self.bytes[self.pos];
            self.pos = self.pos + 1;
            Ok(b)
        } else {
            Err(FontError::UnexpectedEof)
        }
    }

    /// Reads a big-endian unsigned 16-bit integer.
    pub fn read_u16(&mut self) -> (r: Result<u16, FontError>)
        ensures
            final(self).data() == old(self).data(),
            r is Ok <==> old(self).offset() + 2 <= old(self).data().len(),
            r matches Ok(v) ==> v as int == u16_at(old(self).data(), old(self).offset())
                && final(self).offset() == old(self).offset() + 2,
            r matches Err(e) ==> e == FontError::UnexpectedEof && final(self).offset() == old(
                self,
            ).offset(),
    {
        proof {
            use_type_invariant(&*self);
        }
        if 2 <= self.bytes.len() - self.pos {
            let v = big_endian_u16(slice_subrange(self.bytes, self.pos, self.pos + 2));
            self.pos = self.pos + 2;
            Ok(v)
        } else {
            Err(FontError::UnexpectedEof)
        }
    }

    /// Reads a big-endian signed 16-bit integer.
    pub fn read_i16(&mut self) -> (r: Result<i16, FontError>)
        ensures
            final(self).data() == old(self).data(),
            r is Ok <==> old(self).offset() + 2 <= old(self).data().len(),
            r matches Ok(v) ==> v as int == i16_at(old(self).data(), old(self).offset())
                && final(self).offset() == old(self).offset() + 2,
            r matches Err(e) ==> e == FontError::UnexpectedEof && final(self).offset() == old(
                self,
            ).offset(),
    {
        proof {
            use_type_invariant(&*self);
        }
        if 2 <= self.bytes.len() - self.pos {
            let v = big_endian_i16(slice_subrange(self.bytes, self.pos, self.pos + 2));
            self.pos = self.pos + 2;
            Ok(v)
        } else {
            Err(FontError::UnexpectedEof)
        }
    }

    /// Reads a big-endian unsigned 32-bit integer.
    pub fn read_u32(&mut self) -> (r: Result<u32, FontError>)
        ensures
            final(self).data() == old(self).data(),
            r is Ok <==> old(self).offset() + 4 <= old(self).data().len(),
            r matches Ok(v) ==> v as int == u32_at(old(self).data(), old(self).offset())
                && final(self).offset() == old(self).offset() + 4,
            r matches Err(e) ==> e == FontError::UnexpectedEof && final(self).offset() == old(
                self,
            ).offset(),
    {
        proof {
            use_type_invariant(&*self);
        }
        if 4 <= self.bytes.len() - self.pos {
            let v = big_endian_u32(slice_subrange(self.bytes, self.pos, self.pos + 4));
            self.pos = self.pos + 4;
            Ok(v)
        } else {
            Err(FontError::UnexpectedEof)
        }
    }

    /// Reads a big-endian signed 32-bit integer.
    pub fn read_i32(&mut self) -> (r: Result<i32, FontError>)
        ensures
            final(self).data() == old(self).data(),
            r is Ok <==> old(self).offset() + 4 <= old(self).data().len(),
            r matches Ok(v) ==> v as int == i32_at(old(self).data(), old(self).offset())
                && final(self).offset() == old(self).offset() + 4,
            r matches Err(e) ==> e == FontError::UnexpectedEof && final(self).offset() == old(
                self,
            ).offset(),
    {
        proof {
            use_type_invariant(&*self);
        }
        if 4 <= self.bytes.len() - self.pos {
            let v = big_endian_i32(slice_subrange(self.bytes, self.pos, self.pos + 4));
            self.pos = self.pos + 4;
            Ok(v)
        } else {
            Err(FontError::UnexpectedEof)
        }
    }
}

} // verus!
