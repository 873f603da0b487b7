//! Reading a byte buffer bit by bit, as the block decompressor of compressed
//! containers needs it: bits come in words of sixteen, each stored low byte
//! first, and leave a word from its most significant bit down.

use vstd::prelude::*;

use crate::bytes::{has_bytes, spec_read_u32, spec_read_u8, Reader};

verus! {

/// Why reading bits stopped.
#[derive(Debug, PartialEq, Eq)]
pub enum Error {
    /// The input ended before the bits asked for.
    Io,
}

/// The sixteen-bit word that two bytes spell, low byte first.
pub open spec fn word_at(input: Seq<u8>, pos: int) -> u32 {
    (input[pos] as int + 0x100 * input[pos + 1] as int) as u32
}

/// The buffer, the number of its bits and the read position, in this order.
pub type BitState = (u32, int, int);

/// Filling a buffer that holds `available` bits at its top until it holds at
/// least `bit_count`: each step reads one word and puts it just below the
/// bits that are there. The input must hold every word that is needed.
pub open spec fn spec_fill(
    buffer: u32,
    available: int,
    input: Seq<u8>,
    pos: int,
    bit_count: int,
) -> Option<BitState>
    decreases bit_count - available + 16,
{
    if available >= bit_count {
        Some((buffer, available, pos))
    } else if !has_bytes(input, pos, 2) {
        None
    } else {
        spec_fill(
            buffer | (word_at(input, pos) << ((16 - available) as u32)),
            available + 16,
            input,
            pos + 2,
            bit_count,
        )
    }
}

/// Taking `bit_count` bits as a number: none are the number zero and change
/// nothing; else the buffer is filled, the bits leave it at the top, and
/// what stays moves up.
pub open spec fn spec_take(
    buffer: u32,
    available: int,
    input: Seq<u8>,
    pos: int,
    bit_count: int,
) -> Option<(u32, BitState)> {
    if bit_count == 0 {
        Some((0, (buffer, available, pos)))
    } else {
        match spec_fill(buffer, available, input, pos, bit_count) {
            Some((filled, held, end)) => Some(
                (
                    filled >> ((32 - bit_count) as u32),
                    (filled << (bit_count as u32), held - bit_count, end),
                ),
            ),
            None => None,
        }
    }
}

/// A buffer with `available` bits can be filled up to `bit_count` bits word
/// by word: each word that is read finds room below the bits that are
/// there.
pub open spec fn can_fill(available: int, bit_count: int) -> bool {
    available >= bit_count || (0 <= available <= 16 && (available + 16 >= bit_count || available
        == 0))
}

/// A reader of bits over a reader of bytes. The bits that are buffered
/// stand at the top of a 32-bit buffer, the next one topmost.
pub struct BitReader<'a> {
    rdr: Reader<'a>,
    remaining: u8,
    bit_buffer: u32,
}

impl<'a> BitReader<'a> {
    /// The number of buffered bits.
    pub closed spec fn available(&self) -> int {
        self.remaining as int
    }

    /// The buffer.
    pub closed spec fn buffer(&self) -> u32 {
        self.bit_buffer
    }

    /// The whole input.
    pub closed spec fn input(&self) -> Seq<u8> {
        self.rdr.input()
    }

    /// The index of the next byte that will be read.
    pub closed spec fn position(&self) -> int {
        self.rdr.position()
    }

    /// The buffer, the number of its bits and the read position.
    pub open spec fn state(&self) -> BitState {
        (self.buffer(), self.available(), self.position())
    }

    /// A reader of bits that has buffered none, over `rdr`.
    pub fn new(rdr: Reader<'a>) -> (bits: BitReader<'a>)
        ensures
            bits.available() == 0,
            bits.buffer() == 0,
            bits.input() == rdr.input(),
            bits.position() == rdr.position(),
    {
        BitReader { rdr, remaining: 0, bit_buffer: 0 }
    }

    /// Reads words until at least `bit_count` bits are buffered.
    pub fn ensure(&mut self, bit_count: u8) -> (r: Result<(), Error>)
        requires
            bit_count <= 32,
            can_fill(old(self).available(), bit_count as int),
        ensures
            final(self).input() == old(self).input(),
            match r {
                Ok(()) => spec_fill(
                    old(self).buffer(),
                    old(self).available(),
                    old(self).input(),
                    old(self).position(),
                    bit_count as int,
                ) == Some(final(self).state()) && bit_count <= final(self).available(),
                Err(e) => spec_fill(
                    old(self).buffer(),
                    old(self).available(),
                    old(self).input(),
                    old(self).position(),
                    bit_count as int,
                ) is None,
            },
    {
        while self.remaining < bit_count
            invariant
                bit_count <= 32,
                can_fill(self.available(), bit_count as int),
                self.input() == old(self).input(),
                spec_fill(
                    old(self).buffer(),
                    old(self).available(),
                    old(self).input(),
                    old(self).position(),
                    bit_count as int,
                ) == spec_fill(
                    self.buffer(),
                    self.available(),
                    self.input(),
                    self.position(),
                    bit_count as int,
                ),
            decreases 32 - self.remaining,
        {
            let lo = match self.rdr.read_u8() {
                Ok(lo) => lo,
                Err(_) => {
                    return Err(Error::Io);
                },
            };
            let hi = match self.rdr.read_u8() {
                Ok(hi) => hi,
                Err(_) => {
                    return Err(Error::Io);
                },
            };
            let word: u32 = ((hi as u32) << 8) | lo as u32;
            assert(word == (lo as int + 0x100 * hi as int) as u32) by (bit_vector)
                requires
                    word == ((hi as u32) << 8) | lo as u32,
            ;
            self.bit_buffer = self.bit_buffer | (word << (16 - self.remaining) as u32);
            self.remaining = self.remaining + 16;
        }
        Ok(())
    }

    /// The next `bit_count` bits, as a number; they stay buffered.
    pub fn peek(&self, bit_count: u8) -> (bits: u32)
        requires
            1 <= bit_count <= 32,
            bit_count <= self.available(),
        ensures
            bits == self.buffer() >> ((32 - bit_count) as u32),
    {
        self.bit_buffer >> (32 - bit_count) as u32
    }

    /// Drops the next `bit_count` bits.
    pub fn remove(&mut self, bit_count: u8)
        requires
            bit_count < 32,
            bit_count <= old(self).available(),
        ensures
            final(self).buffer() == old(self).buffer() << (bit_count as u32),
            final(self).available() == old(self).available() - bit_count,
            final(self).input() == old(self).input(),
            final(self).position() == old(self).position(),
    {
        self.bit_buffer = self.bit_buffer << bit_count as u32;
        self.remaining = self.remaining - bit_count;
    }

    /// Reads the next `bit_count` bits as a number; no bits are the number
    /// zero.
    pub fn read(&mut self, bit_count: u8) -> (r: Result<u32, Error>)
        requires
            bit_count < 32,
            can_fill(old(self).available(), bit_count as int),
        ensures
            final(self).input() == old(self).input(),
            match r {
                Ok(bits) => spec_take(
                    old(self).buffer(),
                    old(self).available(),
                    old(self).input(),
                    old(self).position(),
                    bit_count as int,
                ) == Some((bits, final(self).state())),
                Err(e) => spec_take(
                    old(self).buffer(),
                    old(self).available(),
                    old(self).input(),
                    old(self).position(),
                    bit_count as int,
                ) is None,
            },
    {
        if bit_count > 0 {
            match self.ensure(bit_count) {
                Ok(()) => {},
                Err(e) => {
                    return Err(e);
                },
            }
            let bits = self.peek(bit_count);
            self.remove(bit_count);
            Ok(bits)
        } else {
            Ok(0)
        }
    }

    /// Reads one byte past the buffered bits, which stay as they are.
    pub fn read_u8(&mut self) -> (r: Result<u8, Error>)
        ensures
            final(self).input() == old(self).input(),
            final(self).buffer() == old(self).buffer(),
            final(self).available() == old(self).available(),
            match r {
                Ok(b) => spec_read_u8(old(self).input(), old(self).position()) == Ok::<
                    (u8, int),
                    crate::error::ErrorView,
                >((b, final(self).position())),
                Err(e) => spec_read_u8(old(self).input(), old(self).position()) is Err,
            },
    {
        match self.rdr.read_u8() {
            Ok(b) => Ok(b),
            Err(_) => Err(Error::Io),
        }
    }

    /// Reads a little-endian `u32` past the buffered bits, which stay as
    /// they are.
    pub fn read_u32(&mut self) -> (r: Result<u32, Error>)
        ensures
            final(self).input() == old(self).input(),
            final(self).buffer() == old(self).buffer(),
            final(self).available() == old(self).available(),
            match r {
                Ok(v) => spec_read_u32(old(self).input(), old(self).position()) == Ok::<
                    (u32, int),
                    crate::error::ErrorView,
                >((v, final(self).position())),
                Err(e) => spec_read_u32(old(self).input(), old(self).position()) is Err,
            },
    {
        match self.rdr.read_u32() {
            Ok(v) => Ok(v),
            Err(_) => Err(Error::Io),
        }
    }
}

} // verus!
