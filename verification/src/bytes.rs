//! A cursor over a byte buffer and the fixed-width little-endian fields.

use byteorder::{ByteOrder, LittleEndian};
use vstd::prelude::*;
use vstd::slice::slice_subrange;

use crate::error::{decodes_as, Decoded, Error, ErrorView};

verus! {

/// The unsigned integer that four bytes spell, least significant first.
pub open spec fn le_u32(b0: u8, b1: u8, b2: u8, b3: u8) -> u32 {
    (b0 as int + 0x100 * b1 as int + 0x1_0000 * b2 as int + 0x100_0000 * b3 as int) as u32
}

/// The two's-complement reading of an unsigned 32-bit integer.
pub open spec fn as_signed(v: u32) -> i32 {
    if v < 0x8000_0000 {
        v as i32
    } else {
        (v as int - 0x1_0000_0000) as i32
    }
}

/// A single-precision floating-point number, held as its IEEE 754 bit
/// pattern. The library carries such numbers through and never computes with
/// them.
#[derive(Debug, Clone, Copy, PartialEq, Eq)]
pub struct Float32 {
    pub bits: u32,
}

impl DeepView for Float32 {
    type V = Float32;

    open spec fn deep_view(&self) -> Float32 {
        *self
    }
}

/// `n` bytes lie at `pos` within `input`.
pub open spec fn has_bytes(input: Seq<u8>, pos: int, n: int) -> bool {
    0 <= pos && 0 <= n && pos + n <= input.len()
}

/// The little-endian `u32` at `pos`.
pub open spec fn u32_at(input: Seq<u8>, pos: int) -> u32 {
    le_u32(input[pos], input[pos + 1], input[pos + 2], input[pos + 3])
}

/// Reading one byte.
pub open spec fn spec_read_u8(input: Seq<u8>, pos: int) -> Decoded<u8> {
    if has_bytes(input, pos, 1) {
        Ok((input[pos], pos + 1))
    } else {
        Err(ErrorView::Io)
    }
}

/// Reading a little-endian `u32`.
pub open spec fn spec_read_u32(input: Seq<u8>, pos: int) -> Decoded<u32> {
    if has_bytes(input, pos, 4) {
        Ok((u32_at(input, pos), pos + 4))
    } else {
        Err(ErrorView::Io)
    }
}

/// Reading a little-endian `i32`.
pub open spec fn spec_read_i32(input: Seq<u8>, pos: int) -> Decoded<i32> {
    if has_bytes(input, pos, 4) {
        Ok((as_signed(u32_at(input, pos)), pos + 4))
    } else {
        Err(ErrorView::Io)
    }
}

/// Reading a little-endian single-precision number.
pub open spec fn spec_read_float(input: Seq<u8>, pos: int) -> Decoded<Float32> {
    if has_bytes(input, pos, 4) {
        Ok((Float32 { bits: u32_at(input, pos) }, pos + 4))
    } else {
        Err(ErrorView::Io)
    }
}

/// Reading `n` raw bytes.
pub open spec fn spec_read_exact(input: Seq<u8>, pos: int, n: int) -> Decoded<Seq<u8>> {
    if has_bytes(input, pos, n) {
        Ok((input.subrange(pos, pos + n), pos + n))
    } else {
        Err(ErrorView::Io)
    }
}

/// `byteorder::LittleEndian::read_u32`: the first four bytes of `buf`, read as
/// a little-endian unsigned integer. It panics on a shorter slice, which the
/// precondition excludes.
#[verifier::external_body]
fn le_read_u32(buf: &[u8]) -> (v: u32)
    requires
        buf@.len() >= 4,
    ensures
        v == le_u32(buf@[0], buf@[1], buf@[2], buf@[3]),
{
    LittleEndian::read_u32(buf)
}

/// `byteorder::LittleEndian::read_i32`: the first four bytes of `buf`, read as
/// a little-endian unsigned integer and reinterpreted in two's complement. It
/// panics on a shorter slice, which the precondition excludes.
#[verifier::external_body]
fn le_read_i32(buf: &[u8]) -> (v: i32)
    requires
        buf@.len() >= 4,
    ensures
        v == as_signed(le_u32(buf@[0], buf@[1], buf@[2], buf@[3])),
{
    LittleEndian::read_i32(buf)
}

/// A read position within a borrowed byte buffer. Reading never moves the
/// position past the end of the buffer.
pub struct Reader<'a> {
    data: &'a [u8],
    pos: usize,
}

impl<'a> Reader<'a> {
    /// The position lies within the buffer.
    #[verifier::type_invariant]
    pub open spec fn in_bounds(&self) -> bool {
        0 <= self.position() <= self.input().len()
    }

    /// The whole buffer, read or not.
    pub closed spec fn input(&self) -> Seq<u8> {
        self.data@
    }

    /// The index of the next byte to read.
    pub closed spec fn position(&self) -> int {
        self.pos as int
    }

    /// A reader at the start of `data`.
    pub fn new(data: &'a [u8]) -> (rdr: Reader<'a>)
        ensures
            rdr.input() == data@,
            rdr.position() == 0,
    {
        Reader { data, pos: 0 }
    }

    /// The index of the next byte to read.
    pub fn offset(&self) -> (p: usize)
        ensures
            p == self.position(),
            p <= self.input().len(),
    {
        proof {
            use_type_invariant(self);
        }
        self.pos
    }

    /// The number of bytes not yet read.
    pub fn remaining(&self) -> (n: usize)
        ensures
            n == self.input().len() - self.position(),
    {
        proof {
            use_type_invariant(self);
        }
        self.data.len() - self.pos
    }

    /// Reads one byte.
    pub fn read_u8(&mut self) -> (r: Result<u8, Error>)
        ensures
            final(self).input() == old(self).input(),
            decodes_as(r, final(self).position(), spec_read_u8(old(self).input(), old(self).position())),
    {
        proof {
            use_type_invariant(&*self);
        }
        if self.pos < self.data.len() {
            let b = self.data[self.pos];
            self.pos = self.pos + 1;
            Ok(b)
        } else {
            Err(Error::Io)
        }
    }

    /// Reads a little-endian `u32`.
    pub fn read_u32(&mut self) -> (r: Result<u32, Error>)
        ensures
            final(self).input() == old(self).input(),
            decodes_as(r, final(self).position(), spec_read_u32(old(self).input(), old(self).position())),
    {
        proof {
            use_type_invariant(&*self);
        }
        if self.data.len() - self.pos >= 4 {
            let field = slice_subrange(self.data, self.pos, self.pos + 4);
            let v = le_read_u32(field);
            self.pos = self.pos + 4;
            Ok(v)
        } else {
            Err(Error::Io)
        }
    }

    /// Reads a little-endian `i32`.
    pub fn read_i32(&mut self) -> (r: Result<i32, Error>)
        ensures
            final(self).input() == old(self).input(),
            decodes_as(r, final(self).position(), spec_read_i32(old(self).input(), old(self).position())),
    {
        proof {
            use_type_invariant(&*self);
        }
        if self.data.len() - self.pos >= 4 {
            let field = slice_subrange(self.data, self.pos, self.pos + 4);
            let v = le_read_i32(field);
            self.pos = self.pos + 4;
            Ok(v)
        } else {
            Err(Error::Io)
        }
    }

    /// Reads a little-endian single-precision number.
    pub fn read_float(&mut self) -> (r: Result<Float32, Error>)
        ensures
            final(self).input() == old(self).input(),
            decodes_as(r, final(self).position(), spec_read_float(old(self).input(), old(self).position())),
    {
        match self.read_u32() {
            Ok(bits) => Ok(Float32 { bits }),
            Err(e) => Err(e),
        }
    }

    /// Reads the next `n` bytes and hands them out as a slice of the buffer.
    pub fn read_exact(&mut self, n: usize) -> (r: Result<&'a [u8], Error>)
        ensures
            final(self).input() == old(self).input(),
            match r {
                Ok(bytes) => spec_read_exact(old(self).input(), old(self).position(), n as int)
                    == Ok::<(Seq<u8>, int), ErrorView>((bytes@, final(self).position())),
                Err(e) => spec_read_exact(old(self).input(), old(self).position(), n as int)
                    == Err::<(Seq<u8>, int), ErrorView>(e.deep_view()),
            },
    {
        proof {
            use_type_invariant(&*self);
        }
        if self.data.len() - self.pos >= n {
            let bytes = slice_subrange(self.data, self.pos, self.pos + n);
            self.pos = self.pos + n;
            Ok(bytes)
        } else {
            Err(Error::Io)
        }
    }

    /// Hands out every byte not yet read and moves to the end of the buffer.
    pub fn read_to_end(&mut self) -> (bytes: &'a [u8])
        ensures
            final(self).input() == old(self).input(),
            final(self).position() == old(self).input().len(),
            bytes@ == old(self).input().subrange(old(self).position(), old(self).input().len() as int),
    {
        proof {
            use_type_invariant(&*self);
        }
        let bytes = slice_subrange(self.data, self.pos, self.data.len());
        self.pos = self.data.len();
        bytes
    }
}

} // verus!
