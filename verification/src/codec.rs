//! Typed scalars on the wire.
//!
//! A scalar type has a type id, a fixed width, and an encoding of each of
//! its values in that many bytes. [`ZpWrite`] writes the encoding,
//! [`ZpRead`] decodes it, and [`ZpScalar`] states that the two agree.

use vstd::prelude::*;
use crate::errors::Error;
use crate::primitives::{
    bits_of_i16, bits_of_i32, bits_of_i64, bits_of_i8, bool_byte, i16_bits, i16_of_bits, i32_bits,
    i32_of_bits, i64_bits, i64_of_bits, i8_bits, i8_of_bits, lemma_bits_round_trip,
    lemma_u16_round_trip, lemma_u32_round_trip, lemma_u64_round_trip, splice, u16_from_le, u16_le,
    u32_from_le, u32_le, u64_from_le, u64_le, Endian,
};

verus! {

/// The byte order of the wire format.
pub const ENDIANNESS: Endian = Endian::Little;

/// A type with a place in the wire format: a type id and a fixed width.
pub trait ZpType: Sized {
    /// The type id under which values of this type are stored.
    spec fn wire_id() -> u8;

    /// The number of bytes that a value of this type takes.
    spec fn wire_width() -> nat;

    /// A value takes at least one byte.
    proof fn lemma_width_positive()
        ensures
            Self::wire_width() >= 1,
    ;

    /// The type id under which values of this type are stored.
    fn type_id() -> (id: u8)
        ensures
            id == Self::wire_id(),
    ;
}

/// Types that can be read from a buffer.
pub trait ZpRead<'a>: ZpType {
    /// The value that `wire_width()` bytes stand for.
    spec fn decode(bytes: Seq<u8>) -> Self;

    /// Reads a value at `offset`, or fails with `OutOfBounds` where the
    /// buffer ends before the value does.
    fn read(buf: &'a [u8], offset: usize) -> (r: Result<Self, Error>)
        ensures
            offset + Self::wire_width() <= buf@.len() ==> r == Ok::<Self, Error>(
                Self::decode(buf@.subrange(offset as int, offset + Self::wire_width())),
            ),
            offset + Self::wire_width() > buf@.len() ==> r == Err::<Self, Error>(
                Error::OutOfBounds,
            ),
    ;

    /// The number of bytes that a value takes.
    fn size() -> (n: usize)
        ensures
            n == Self::wire_width(),
    ;
}

/// Types that can be written to a buffer.
pub trait ZpWrite: ZpType {
    /// The bytes that stand for this value.
    spec fn encoding(&self) -> Seq<u8>;

    /// Every value takes `wire_width()` bytes.
    proof fn lemma_encoding_width(&self)
        ensures
            self.encoding().len() == Self::wire_width(),
    ;

    /// Writes the value at `offset`, or fails with `OutOfBounds`, and
    /// leaves the buffer as it was, where the buffer ends before the value
    /// does.
    fn write(&self, buf: &mut [u8], offset: usize) -> (r: Result<(), Error>)
        ensures
            offset + Self::wire_width() <= old(buf)@.len() ==> r is Ok && final(buf)@ == splice(
                old(buf)@,
                offset as int,
                self.encoding(),
            ),
            offset + Self::wire_width() > old(buf)@.len() ==> r == Err::<(), Error>(
                Error::OutOfBounds,
            ) && final(buf)@ == old(buf)@,
    ;

    /// The number of bytes that the value takes.
    fn size(&self) -> (n: usize)
        ensures
            n == Self::wire_width(),
    ;
}

/// Types that are read back as they were written.
pub trait ZpScalar<'a>: ZpRead<'a> + ZpWrite {
    /// Decoding the encoding of a value gives the value.
    proof fn lemma_round_trip(v: Self)
        ensures
            Self::decode(v.encoding()) == v,
    ;
}

/// The bit pattern of a 32-bit floating-point number. The codec moves the
/// pattern and never interprets it, so every pattern, those of NaNs
/// included, is read back as it was written.
#[derive(Debug, Clone, Copy, PartialEq, Eq, Structural)]
pub struct F32Bits {
    pub bits: u32,
}

/// The bit pattern of a 64-bit floating-point number.
#[derive(Debug, Clone, Copy, PartialEq, Eq, Structural)]
pub struct F64Bits {
    pub bits: u64,
}

/// Whether `width` bytes fit in a buffer of `len` bytes from `offset` on.
fn fits(len: usize, offset: usize, width: usize) -> (b: bool)
    ensures
        b == (offset + width <= len),
{
    offset <= len && len - offset >= width
}

impl ZpType for u8 {
    open spec fn wire_id() -> u8 {
        0
    }

    open spec fn wire_width() -> nat {
        1
    }

    proof fn lemma_width_positive() {
    }

    fn type_id() -> (id: u8) {
        0
    }
}

impl<'a> ZpRead<'a> for u8 {
    open spec fn decode(bytes: Seq<u8>) -> u8 {
        bytes[0]
    }

    fn read(buf: &'a [u8], offset: usize) -> (r: Result<Self, Error>) {
        if !fits(buf.len(), offset, 1) {
            return Err(Error::OutOfBounds);
        }
        Ok(ENDIANNESS.read_u8(buf, offset))
    }

    fn size() -> (n: usize) {
        1
    }
}

impl ZpWrite for u8 {
    open spec fn encoding(&self) -> Seq<u8> {
        seq![*self]
    }

    proof fn lemma_encoding_width(&self) {
    }

    fn write(&self, buf: &mut [u8], offset: usize) -> (r: Result<(), Error>) {
        if !fits(buf.len(), offset, 1) {
            return Err(Error::OutOfBounds);
        }
        ENDIANNESS.write_u8(*self, buf, offset);
        Ok(())
    }

    fn size(&self) -> (n: usize) {
        1
    }
}

impl<'a> ZpScalar<'a> for u8 {
    proof fn lemma_round_trip(v: Self) {
    }
}

impl ZpType for u16 {
    open spec fn wire_id() -> u8 {
        1
    }

    open spec fn wire_width() -> nat {
        2
    }

    proof fn lemma_width_positive() {
    }

    fn type_id() -> (id: u8) {
        1
    }
}

impl<'a> ZpRead<'a> for u16 {
    open spec fn decode(bytes: Seq<u8>) -> u16 {
        u16_from_le(bytes)
    }

    fn read(buf: &'a [u8], offset: usize) -> (r: Result<Self, Error>) {
        if !fits(buf.len(), offset, 2) {
            return Err(Error::OutOfBounds);
        }
        Ok(ENDIANNESS.read_u16(buf, offset))
    }

    fn size() -> (n: usize) {
        2
    }
}

impl ZpWrite for u16 {
    open spec fn encoding(&self) -> Seq<u8> {
        u16_le(*self)
    }

    proof fn lemma_encoding_width(&self) {
    }

    fn write(&self, buf: &mut [u8], offset: usize) -> (r: Result<(), Error>) {
        if !fits(buf.len(), offset, 2) {
            return Err(Error::OutOfBounds);
        }
        ENDIANNESS.write_u16(*self, buf, offset);
        Ok(())
    }

    fn size(&self) -> (n: usize) {
        2
    }
}

impl<'a> ZpScalar<'a> for u16 {
    proof fn lemma_round_trip(v: Self) {
        lemma_u16_round_trip(v, Seq::empty());
    }
}

impl ZpType for u32 {
    open spec fn wire_id() -> u8 {
        2
    }

    open spec fn wire_width() -> nat {
        4
    }

    proof fn lemma_width_positive() {
    }

    fn type_id() -> (id: u8) {
        2
    }
}

impl<'a> ZpRead<'a> for u32 {
    open spec fn decode(bytes: Seq<u8>) -> u32 {
        u32_from_le(bytes)
    }

    fn read(buf: &'a [u8], offset: usize) -> (r: Result<Self, Error>) {
        if !fits(buf.len(), offset, 4) {
            return Err(Error::OutOfBounds);
        }
        Ok(ENDIANNESS.read_u32(buf, offset))
    }

    fn size() -> (n: usize) {
        4
    }
}

impl ZpWrite for u32 {
    open spec fn encoding(&self) -> Seq<u8> {
        u32_le(*self)
    }

    proof fn lemma_encoding_width(&self) {
    }

    fn write(&self, buf: &mut [u8], offset: usize) -> (r: Result<(), Error>) {
        if !fits(buf.len(), offset, 4) {
            return Err(Error::OutOfBounds);
        }
        ENDIANNESS.write_u32(*self, buf, offset);
        Ok(())
    }

    fn size(&self) -> (n: usize) {
        4
    }
}

impl<'a> ZpScalar<'a> for u32 {
    proof fn lemma_round_trip(v: Self) {
        lemma_u32_round_trip(v, Seq::empty());
    }
}

impl ZpType for u64 {
    open spec fn wire_id() -> u8 {
        3
    }

    open spec fn wire_width() -> nat {
        8
    }

    proof fn lemma_width_positive() {
    }

    fn type_id() -> (id: u8) {
        3
    }
}

impl<'a> ZpRead<'a> for u64 {
    open spec fn decode(bytes: Seq<u8>) -> u64 {
        u64_from_le(bytes)
    }

    fn read(buf: &'a [u8], offset: usize) -> (r: Result<Self, Error>) {
        if !fits(buf.len(), offset, 8) {
            return Err(Error::OutOfBounds);
        }
        Ok(ENDIANNESS.read_u64(buf, offset))
    }

    fn size() -> (n: usize) {
        8
    }
}

impl ZpWrite for u64 {
    open spec fn encoding(&self) -> Seq<u8> {
        u64_le(*self)
    }

    proof fn lemma_encoding_width(&self) {
    }

    fn write(&self, buf: &mut [u8], offset: usize) -> (r: Result<(), Error>) {
        if !fits(buf.len(), offset, 8) {
            return Err(Error::OutOfBounds);
        }
        ENDIANNESS.write_u64(*self, buf, offset);
        Ok(())
    }

    fn size(&self) -> (n: usize) {
        8
    }
}

impl<'a> ZpScalar<'a> for u64 {
    proof fn lemma_round_trip(v: Self) {
        lemma_u64_round_trip(v, Seq::empty());
    }
}

impl ZpType for i8 {
    open spec fn wire_id() -> u8 {
        4
    }

    open spec fn wire_width() -> nat {
        1
    }

    proof fn lemma_width_positive() {
    }

    fn type_id() -> (id: u8) {
        4
    }
}

impl<'a> ZpRead<'a> for i8 {
    open spec fn decode(bytes: Seq<u8>) -> i8 {
        i8_of_bits(bytes[0])
    }

    fn read(buf: &'a [u8], offset: usize) -> (r: Result<Self, Error>) {
        if !fits(buf.len(), offset, 1) {
            return Err(Error::OutOfBounds);
        }
        Ok(ENDIANNESS.read_i8(buf, offset))
    }

    fn size() -> (n: usize) {
        1
    }
}

impl ZpWrite for i8 {
    open spec fn encoding(&self) -> Seq<u8> {
        seq![i8_bits(*self)]
    }

    proof fn lemma_encoding_width(&self) {
    }

    fn write(&self, buf: &mut [u8], offset: usize) -> (r: Result<(), Error>) {
        if !fits(buf.len(), offset, 1) {
            return Err(Error::OutOfBounds);
        }
        ENDIANNESS.write_i8(*self, buf, offset);
        Ok(())
    }

    fn size(&self) -> (n: usize) {
        1
    }
}

impl<'a> ZpScalar<'a> for i8 {
    proof fn lemma_round_trip(v: Self) {
        lemma_bits_round_trip(v, 0, 0, 0);
    }
}

impl ZpType for i16 {
    open spec fn wire_id() -> u8 {
        5
    }

    open spec fn wire_width() -> nat {
        2
    }

    proof fn lemma_width_positive() {
    }

    fn type_id() -> (id: u8) {
        5
    }
}

impl<'a> ZpRead<'a> for i16 {
    open spec fn decode(bytes: Seq<u8>) -> i16 {
        i16_of_bits(u16_from_le(bytes))
    }

    fn read(buf: &'a [u8], offset: usize) -> (r: Result<Self, Error>) {
        if !fits(buf.len(), offset, 2) {
            return Err(Error::OutOfBounds);
        }
        Ok(ENDIANNESS.read_i16(buf, offset))
    }

    fn size() -> (n: usize) {
        2
    }
}

impl ZpWrite for i16 {
    open spec fn encoding(&self) -> Seq<u8> {
        u16_le(i16_bits(*self))
    }

    proof fn lemma_encoding_width(&self) {
    }

    fn write(&self, buf: &mut [u8], offset: usize) -> (r: Result<(), Error>) {
        if !fits(buf.len(), offset, 2) {
            return Err(Error::OutOfBounds);
        }
        ENDIANNESS.write_i16(*self, buf, offset);
        Ok(())
    }

    fn size(&self) -> (n: usize) {
        2
    }
}

impl<'a> ZpScalar<'a> for i16 {
    proof fn lemma_round_trip(v: Self) {
        lemma_u16_round_trip(i16_bits(v), Seq::empty());
        lemma_bits_round_trip(0, v, 0, 0);
    }
}

impl ZpType for i32 {
    open spec fn wire_id() -> u8 {
        6
    }

    open spec fn wire_width() -> nat {
        4
    }

    proof fn lemma_width_positive() {
    }

    fn type_id() -> (id: u8) {
        6
    }
}

impl<'a> ZpRead<'a> for i32 {
    open spec fn decode(bytes: Seq<u8>) -> i32 {
        i32_of_bits(u32_from_le(bytes))
    }

    fn read(buf: &'a [u8], offset: usize) -> (r: Result<Self, Error>) {
        if !fits(buf.len(), offset, 4) {
            return Err(Error::OutOfBounds);
        }
        Ok(ENDIANNESS.read_i32(buf, offset))
    }

    fn size() -> (n: usize) {
        4
    }
}

impl ZpWrite for i32 {
    open spec fn encoding(&self) -> Seq<u8> {
        u32_le(i32_bits(*self))
    }

    proof fn lemma_encoding_width(&self) {
    }

    fn write(&self, buf: &mut [u8], offset: usize) -> (r: Result<(), Error>) {
        if !fits(buf.len(), offset, 4) {
            return Err(Error::OutOfBounds);
        }
        ENDIANNESS.write_i32(*self, buf, offset);
        Ok(())
    }

    fn size(&self) -> (n: usize) {
        4
    }
}

impl<'a> ZpScalar<'a> for i32 {
    proof fn lemma_round_trip(v: Self) {
        lemma_u32_round_trip(i32_bits(v), Seq::empty());
        lemma_bits_round_trip(0, 0, v, 0);
    }
}

impl ZpType for i64 {
    open spec fn wire_id() -> u8 {
        7
    }

    open spec fn wire_width() -> nat {
        8
    }

    proof fn lemma_width_positive() {
    }

    fn type_id() -> (id: u8) {
        7
    }
}

impl<'a> ZpRead<'a> for i64 {
    open spec fn decode(bytes: Seq<u8>) -> i64 {
        i64_of_bits(u64_from_le(bytes))
    }

    fn read(buf: &'a [u8], offset: usize) -> (r: Result<Self, Error>) {
        if !fits(buf.len(), offset, 8) {
            return Err(Error::OutOfBounds);
        }
        Ok(ENDIANNESS.read_i64(buf, offset))
    }

    fn size() -> (n: usize) {
        8
    }
}

impl ZpWrite for i64 {
    open spec fn encoding(&self) -> Seq<u8> {
        u64_le(i64_bits(*self))
    }

    proof fn lemma_encoding_width(&self) {
    }

    fn write(&self, buf: &mut [u8], offset: usize) -> (r: Result<(), Error>) {
        if !fits(buf.len(), offset, 8) {
            return Err(Error::OutOfBounds);
        }
        ENDIANNESS.write_i64(*self, buf, offset);
        Ok(())
    }

    fn size(&self) -> (n: usize) {
        8
    }
}

impl<'a> ZpScalar<'a> for i64 {
    proof fn lemma_round_trip(v: Self) {
        lemma_u64_round_trip(i64_bits(v), Seq::empty());
        lemma_bits_round_trip(0, 0, 0, v);
    }
}

impl ZpType for F32Bits {
    open spec fn wire_id() -> u8 {
        8
    }

    open spec fn wire_width() -> nat {
        4
    }

    proof fn lemma_width_positive() {
    }

    fn type_id() -> (id: u8) {
        8
    }
}

impl<'a> ZpRead<'a> for F32Bits {
    open spec fn decode(bytes: Seq<u8>) -> F32Bits {
        F32Bits { bits: u32_from_le(bytes) }
    }

    fn read(buf: &'a [u8], offset: usize) -> (r: Result<Self, Error>) {
        if !fits(buf.len(), offset, 4) {
            return Err(Error::OutOfBounds);
        }
        Ok(F32Bits { bits: ENDIANNESS.read_u32(buf, offset) })
    }

    fn size() -> (n: usize) {
        4
    }
}

impl ZpWrite for F32Bits {
    open spec fn encoding(&self) -> Seq<u8> {
        u32_le(self.bits)
    }

    proof fn lemma_encoding_width(&self) {
    }

    fn write(&self, buf: &mut [u8], offset: usize) -> (r: Result<(), Error>) {
        if !fits(buf.len(), offset, 4) {
            return Err(Error::OutOfBounds);
        }
        ENDIANNESS.write_u32(self.bits, buf, offset);
        Ok(())
    }

    fn size(&self) -> (n: usize) {
        4
    }
}

impl<'a> ZpScalar<'a> for F32Bits {
    proof fn lemma_round_trip(v: Self) {
        lemma_u32_round_trip(v.bits, Seq::empty());
    }
}

impl ZpType for F64Bits {
    open spec fn wire_id() -> u8 {
        9
    }

    open spec fn wire_width() -> nat {
        8
    }

    proof fn lemma_width_positive() {
    }

    fn type_id() -> (id: u8) {
        9
    }
}

impl<'a> ZpRead<'a> for F64Bits {
    open spec fn decode(bytes: Seq<u8>) -> F64Bits {
        F64Bits { bits: u64_from_le(bytes) }
    }

    fn read(buf: &'a [u8], offset: usize) -> (r: Result<Self, Error>) {
        if !fits(buf.len(), offset, 8) {
            return Err(Error::OutOfBounds);
        }
        Ok(F64Bits { bits: ENDIANNESS.read_u64(buf, offset) })
    }

    fn size() -> (n: usize) {
        8
    }
}

impl ZpWrite for F64Bits {
    open spec fn encoding(&self) -> Seq<u8> {
        u64_le(self.bits)
    }

    proof fn lemma_encoding_width(&self) {
    }

    fn write(&self, buf: &mut [u8], offset: usize) -> (r: Result<(), Error>) {
        if !fits(buf.len(), offset, 8) {
            return Err(Error::OutOfBounds);
        }
        ENDIANNESS.write_u64(self.bits, buf, offset);
        Ok(())
    }

    fn size(&self) -> (n: usize) {
        8
    }
}

impl<'a> ZpScalar<'a> for F64Bits {
    proof fn lemma_round_trip(v: Self) {
        lemma_u64_round_trip(v.bits, Seq::empty());
    }
}

impl ZpType for bool {
    open spec fn wire_id() -> u8 {
        10
    }

    open spec fn wire_width() -> nat {
        1
    }

    proof fn lemma_width_positive() {
    }

    fn type_id() -> (id: u8) {
        10
    }
}

impl<'a> ZpRead<'a> for bool {
    open spec fn decode(bytes: Seq<u8>) -> bool {
        bytes[0] != 0
    }

    fn read(buf: &'a [u8], offset: usize) -> (r: Result<Self, Error>) {
        if !fits(buf.len(), offset, 1) {
            return Err(Error::OutOfBounds);
        }
        Ok(ENDIANNESS.read_bool(buf, offset))
    }

    fn size() -> (n: usize) {
        1
    }
}

impl ZpWrite for bool {
    open spec fn encoding(&self) -> Seq<u8> {
        seq![bool_byte(*self)]
    }

    proof fn lemma_encoding_width(&self) {
    }

    fn write(&self, buf: &mut [u8], offset: usize) -> (r: Result<(), Error>) {
        if !fits(buf.len(), offset, 1) {
            return Err(Error::OutOfBounds);
        }
        ENDIANNESS.write_bool(*self, buf, offset);
        Ok(())
    }

    fn size(&self) -> (n: usize) {
        1
    }
}

impl<'a> ZpScalar<'a> for bool {
    proof fn lemma_round_trip(v: Self) {
    }
}

} // verus!
