//! Wire type tags and the fixed-width byte codec.
//!
//! The bytes of an integer are defined arithmetically: byte `k` of the
//! little-endian form of `x` is `x / 256^k % 256`. The executable codec
//! reads and writes them at an offset that the caller has checked.

use vstd::prelude::*;

verus! {

/// Byte order.
#[derive(Debug, Clone, Copy, PartialEq, Eq, Structural)]
pub enum Endian {
    /// Least significant byte first.
    Little,
    /// Most significant byte first.
    Big,
}

/// The kinds of payload that a field can hold.
#[derive(Debug, Clone, Copy, PartialEq, Eq, Structural)]
pub enum PrimitiveType {
    U8,
    U16,
    U32,
    U64,
    I8,
    I16,
    I32,
    I64,
    F32,
    F64,
    Bool,
    String,
    Bytes,
    Message,
    Vector,
    /// The field is absent.
    Unset,
}

impl PrimitiveType {
    /// The one-byte tag of this kind on the wire.
    pub open spec fn id(self) -> u8 {
        match self {
            PrimitiveType::U8 => 0,
            PrimitiveType::U16 => 1,
            PrimitiveType::U32 => 2,
            PrimitiveType::U64 => 3,
            PrimitiveType::I8 => 4,
            PrimitiveType::I16 => 5,
            PrimitiveType::I32 => 6,
            PrimitiveType::I64 => 7,
            PrimitiveType::F32 => 8,
            PrimitiveType::F64 => 9,
            PrimitiveType::Bool => 10,
            PrimitiveType::String => 11,
            PrimitiveType::Bytes => 12,
            PrimitiveType::Message => 13,
            PrimitiveType::Vector => 14,
            PrimitiveType::Unset => 255,
        }
    }

    /// The width in bytes of a fixed-width kind.
    pub open spec fn width(self) -> Option<nat> {
        match self {
            PrimitiveType::U8 | PrimitiveType::I8 | PrimitiveType::Bool => Some(1),
            PrimitiveType::U16 | PrimitiveType::I16 => Some(2),
            PrimitiveType::U32 | PrimitiveType::I32 | PrimitiveType::F32 => Some(4),
            PrimitiveType::U64 | PrimitiveType::I64 | PrimitiveType::F64 => Some(8),
            PrimitiveType::String
            | PrimitiveType::Bytes
            | PrimitiveType::Message
            | PrimitiveType::Vector
            | PrimitiveType::Unset => None,
        }
    }

    /// The kind that a tag stands for.
    pub open spec fn of_id(value: u8) -> Option<PrimitiveType> {
        if value == 0 {
            Some(PrimitiveType::U8)
        } else if value == 1 {
            Some(PrimitiveType::U16)
        } else if value == 2 {
            Some(PrimitiveType::U32)
        } else if value == 3 {
            Some(PrimitiveType::U64)
        } else if value == 4 {
            Some(PrimitiveType::I8)
        } else if value == 5 {
            Some(PrimitiveType::I16)
        } else if value == 6 {
            Some(PrimitiveType::I32)
        } else if value == 7 {
            Some(PrimitiveType::I64)
        } else if value == 8 {
            Some(PrimitiveType::F32)
        } else if value == 9 {
            Some(PrimitiveType::F64)
        } else if value == 10 {
            Some(PrimitiveType::Bool)
        } else if value == 11 {
            Some(PrimitiveType::String)
        } else if value == 12 {
            Some(PrimitiveType::Bytes)
        } else if value == 13 {
            Some(PrimitiveType::Message)
        } else if value == 14 {
            Some(PrimitiveType::Vector)
        } else if value == 255 {
            Some(PrimitiveType::Unset)
        } else {
            None
        }
    }

    /// The one-byte tag of this kind on the wire.
    pub fn type_id(self) -> (id: u8)
        ensures
            id == self.id(),
    {
        match self {
            PrimitiveType::U8 => 0,
            PrimitiveType::U16 => 1,
            PrimitiveType::U32 => 2,
            PrimitiveType::U64 => 3,
            PrimitiveType::I8 => 4,
            PrimitiveType::I16 => 5,
            PrimitiveType::I32 => 6,
            PrimitiveType::I64 => 7,
            PrimitiveType::F32 => 8,
            PrimitiveType::F64 => 9,
            PrimitiveType::Bool => 10,
            PrimitiveType::String => 11,
            PrimitiveType::Bytes => 12,
            PrimitiveType::Message => 13,
            PrimitiveType::Vector => 14,
            PrimitiveType::Unset => 255,
        }
    }

    /// The width in bytes of a fixed-width kind, `None` for the others.
    pub fn size(self) -> (n: Option<usize>)
        ensures
            match self.width() {
                Some(w) => n == Some(w as usize),
                None => n is None,
            },
    {
        match self {
            PrimitiveType::U8 => Some(1),
            PrimitiveType::U16 => Some(2),
            PrimitiveType::U32 => Some(4),
            PrimitiveType::U64 => Some(8),
            PrimitiveType::I8 => Some(1),
            PrimitiveType::I16 => Some(2),
            PrimitiveType::I32 => Some(4),
            PrimitiveType::I64 => Some(8),
            PrimitiveType::F32 => Some(4),
            PrimitiveType::F64 => Some(8),
            PrimitiveType::Bool => Some(1),
            PrimitiveType::String
            | PrimitiveType::Bytes
            | PrimitiveType::Message
            | PrimitiveType::Vector
            | PrimitiveType::Unset => None,
        }
    }

    /// The kind that a tag stands for, `None` for a tag that is not in use.
    pub fn from_u8(value: u8) -> (t: Option<PrimitiveType>)
        ensures
            t == PrimitiveType::of_id(value),
            t matches Some(kind) ==> kind.id() == value,
            t is None ==> forall|kind: PrimitiveType| kind.id() != value,
    {
        match value {
            0 => Some(PrimitiveType::U8),
            1 => Some(PrimitiveType::U16),
            2 => Some(PrimitiveType::U32),
            3 => Some(PrimitiveType::U64),
            4 => Some(PrimitiveType::I8),
            5 => Some(PrimitiveType::I16),
            6 => Some(PrimitiveType::I32),
            7 => Some(PrimitiveType::I64),
            8 => Some(PrimitiveType::F32),
            9 => Some(PrimitiveType::F64),
            10 => Some(PrimitiveType::Bool),
            11 => Some(PrimitiveType::String),
            12 => Some(PrimitiveType::Bytes),
            13 => Some(PrimitiveType::Message),
            14 => Some(PrimitiveType::Vector),
            255 => Some(PrimitiveType::Unset),
            _ => None,
        }
    }
}

/// Whether a tag is that of one of the eleven fixed-width scalars.
pub open spec fn is_scalar_id(id: u8) -> bool {
    id <= 10
}

/// A tag and the kind it stands for name each other.
pub proof fn lemma_id_round_trip(kind: PrimitiveType)
    ensures
        PrimitiveType::of_id(kind.id()) == Some(kind),
{
}

/// The two bytes of `x`, least significant first.
pub open spec fn u16_le(x: u16) -> Seq<u8> {
    seq![(x as int % 256) as u8, (x as int / 256) as u8]
}

/// The four bytes of `x`, least significant first.
pub open spec fn u32_le(x: u32) -> Seq<u8> {
    seq![
        (x as int % 256) as u8,
        (x as int / 0x100 % 256) as u8,
        (x as int / 0x1_0000 % 256) as u8,
        (x as int / 0x100_0000) as u8,
    ]
}

/// The eight bytes of `x`, least significant first.
pub open spec fn u64_le(x: u64) -> Seq<u8> {
    seq![
        (x as int % 256) as u8,
        (x as int / 0x100 % 256) as u8,
        (x as int / 0x1_0000 % 256) as u8,
        (x as int / 0x100_0000 % 256) as u8,
        (x as int / 0x1_0000_0000 % 256) as u8,
        (x as int / 0x100_0000_0000 % 256) as u8,
        (x as int / 0x1_0000_0000_0000 % 256) as u8,
        (x as int / 0x100_0000_0000_0000) as u8,
    ]
}

/// The number whose little-endian bytes are the first two of `b`.
pub open spec fn u16_from_le(b: Seq<u8>) -> u16 {
    (b[0] as int + 0x100 * b[1] as int) as u16
}

/// The number whose little-endian bytes are the first four of `b`.
pub open spec fn u32_from_le(b: Seq<u8>) -> u32 {
    (b[0] as int + 0x100 * b[1] as int + 0x1_0000 * b[2] as int + 0x100_0000 * b[3] as int) as u32
}

/// The number whose little-endian bytes are the first eight of `b`.
pub open spec fn u64_from_le(b: Seq<u8>) -> u64 {
    (b[0] as int + 0x100 * b[1] as int + 0x1_0000 * b[2] as int + 0x100_0000 * b[3] as int
        + 0x1_0000_0000 * b[4] as int + 0x100_0000_0000 * b[5] as int + 0x1_0000_0000_0000
        * b[6] as int + 0x100_0000_0000_0000 * b[7] as int) as u64
}

/// The bit pattern of a signed byte in two's complement.
pub open spec fn i8_bits(x: i8) -> u8 {
    if x < 0 {
        (x + 0x100) as u8
    } else {
        x as u8
    }
}

/// The signed byte with the bit pattern `b`.
pub open spec fn i8_of_bits(b: u8) -> i8 {
    if b >= 0x80 {
        (b - 0x100) as i8
    } else {
        b as i8
    }
}

/// The bit pattern of a signed 16-bit number in two's complement.
pub open spec fn i16_bits(x: i16) -> u16 {
    if x < 0 {
        (x + 0x1_0000) as u16
    } else {
        x as u16
    }
}

/// The signed 16-bit number with the bit pattern `b`.
pub open spec fn i16_of_bits(b: u16) -> i16 {
    if b >= 0x8000 {
        (b - 0x1_0000) as i16
    } else {
        b as i16
    }
}

/// The bit pattern of a signed 32-bit number in two's complement.
pub open spec fn i32_bits(x: i32) -> u32 {
    if x < 0 {
        (x + 0x1_0000_0000) as u32
    } else {
        x as u32
    }
}

/// The signed 32-bit number with the bit pattern `b`.
pub open spec fn i32_of_bits(b: u32) -> i32 {
    if b >= 0x8000_0000 {
        (b - 0x1_0000_0000) as i32
    } else {
        b as i32
    }
}

/// The bit pattern of a signed 64-bit number in two's complement.
pub open spec fn i64_bits(x: i64) -> u64 {
    if x < 0 {
        (x + 0x1_0000_0000_0000_0000) as u64
    } else {
        x as u64
    }
}

/// The signed 64-bit number with the bit pattern `b`.
pub open spec fn i64_of_bits(b: u64) -> i64 {
    if b >= 0x8000_0000_0000_0000 {
        (b - 0x1_0000_0000_0000_0000) as i64
    } else {
        b as i64
    }
}

/// `s` with `bytes` written over it from position `at` on.
pub open spec fn splice(s: Seq<u8>, at: int, bytes: Seq<u8>) -> Seq<u8> {
    s.subrange(0, at) + bytes + s.subrange(at + bytes.len(), s.len() as int)
}

proof fn lemma_u16_parts(x: u16)
    by (bit_vector)
    ensures
        x == (x % 256) + 256 * (x / 256),
        x / 256 < 256,
{
}

proof fn lemma_u32_parts(x: u32)
    by (bit_vector)
    ensures
        x == (x % 256) + 0x100 * (x / 0x100 % 256) + 0x1_0000 * (x / 0x1_0000 % 256) + 0x100_0000
            * (x / 0x100_0000),
        x / 0x100_0000 < 256,
{
}

proof fn lemma_u64_parts(x: u64)
    by (bit_vector)
    ensures
        x == (x % 256) + 0x100 * (x / 0x100 % 256) + 0x1_0000 * (x / 0x1_0000 % 256) + 0x100_0000
            * (x / 0x100_0000 % 256) + 0x1_0000_0000 * (x / 0x1_0000_0000 % 256)
            + 0x100_0000_0000 * (x / 0x100_0000_0000 % 256) + 0x1_0000_0000_0000 * (x
            / 0x1_0000_0000_0000 % 256) + 0x100_0000_0000_0000 * (x / 0x100_0000_0000_0000),
        x / 0x100_0000_0000_0000 < 256,
{
}

proof fn lemma_u16_digits(b0: u8, b1: u8, x: u16)
    by (bit_vector)
    requires
        x == b0 as u16 + 0x100 * (b1 as u16),
    ensures
        x % 256 == b0,
        x / 256 == b1,
{
}

proof fn lemma_u32_digits(b0: u8, b1: u8, b2: u8, b3: u8, x: u32)
    by (bit_vector)
    requires
        x == b0 as u32 + 0x100 * (b1 as u32) + 0x1_0000 * (b2 as u32) + 0x100_0000 * (b3 as u32),
    ensures
        x % 256 == b0,
        x / 0x100 % 256 == b1,
        x / 0x1_0000 % 256 == b2,
        x / 0x100_0000 == b3,
{
}

proof fn lemma_u64_digits(
    b0: u8,
    b1: u8,
    b2: u8,
    b3: u8,
    b4: u8,
    b5: u8,
    b6: u8,
    b7: u8,
    x: u64,
)
    by (bit_vector)
    requires
        x == b0 as u64 + 0x100 * (b1 as u64) + 0x1_0000 * (b2 as u64) + 0x100_0000 * (b3 as u64)
            + 0x1_0000_0000 * (b4 as u64) + 0x100_0000_0000 * (b5 as u64) + 0x1_0000_0000_0000
            * (b6 as u64) + 0x100_0000_0000_0000 * (b7 as u64),
    ensures
        x % 256 == b0,
        x / 0x100 % 256 == b1,
        x / 0x1_0000 % 256 == b2,
        x / 0x100_0000 % 256 == b3,
        x / 0x1_0000_0000 % 256 == b4,
        x / 0x100_0000_0000 % 256 == b5,
        x / 0x1_0000_0000_0000 % 256 == b6,
        x / 0x100_0000_0000_0000 == b7,
{
}

/// Decoding the bytes of a number gives the number back, and encoding what
/// two bytes decode to gives the bytes back.
pub proof fn lemma_u16_round_trip(x: u16, b: Seq<u8>)
    ensures
        u16_le(x).len() == 2,
        u16_from_le(u16_le(x)) == x,
        b.len() == 2 ==> u16_le(u16_from_le(b)) == b,
{
    lemma_u16_parts(x);
    if b.len() == 2 {
        lemma_u16_digits(b[0], b[1], u16_from_le(b));
    }
}

/// Decoding the bytes of a number gives the number back, and encoding what
/// four bytes decode to gives the bytes back.
pub proof fn lemma_u32_round_trip(x: u32, b: Seq<u8>)
    ensures
        u32_le(x).len() == 4,
        u32_from_le(u32_le(x)) == x,
        b.len() == 4 ==> u32_le(u32_from_le(b)) == b,
{
    lemma_u32_parts(x);
    if b.len() == 4 {
        lemma_u32_digits(b[0], b[1], b[2], b[3], u32_from_le(b));
    }
}

/// Decoding the bytes of a number gives the number back, and encoding what
/// eight bytes decode to gives the bytes back.
pub proof fn lemma_u64_round_trip(x: u64, b: Seq<u8>)
    ensures
        u64_le(x).len() == 8,
        u64_from_le(u64_le(x)) == x,
        b.len() == 8 ==> u64_le(u64_from_le(b)) == b,
{
    lemma_u64_parts(x);
    if b.len() == 8 {
        lemma_u64_digits(b[0], b[1], b[2], b[3], b[4], b[5], b[6], b[7], u64_from_le(b));
    }
}

/// A signed number and its bit pattern determine each other.
pub proof fn lemma_bits_round_trip(a: i8, b: i16, c: i32, d: i64)
    ensures
        i8_of_bits(i8_bits(a)) == a,
        i16_of_bits(i16_bits(b)) == b,
        i32_of_bits(i32_bits(c)) == c,
        i64_of_bits(i64_bits(d)) == d,
{
}

/// A bit pattern and the signed number it stands for determine each other.
pub proof fn lemma_of_bits_round_trip(a: u8, b: u16, c: u32, d: u64)
    ensures
        i8_bits(i8_of_bits(a)) == a,
        i16_bits(i16_of_bits(b)) == b,
        i32_bits(i32_of_bits(c)) == c,
        i64_bits(i64_of_bits(d)) == d,
{
}

impl Endian {
    /// The two bytes of `x` in this byte order.
    pub open spec fn u16_bytes(self, x: u16) -> Seq<u8> {
        match self {
            Endian::Little => u16_le(x),
            Endian::Big => u16_le(x).reverse(),
        }
    }

    /// The four bytes of `x` in this byte order.
    pub open spec fn u32_bytes(self, x: u32) -> Seq<u8> {
        match self {
            Endian::Little => u32_le(x),
            Endian::Big => u32_le(x).reverse(),
        }
    }

    /// The eight bytes of `x` in this byte order.
    pub open spec fn u64_bytes(self, x: u64) -> Seq<u8> {
        match self {
            Endian::Little => u64_le(x),
            Endian::Big => u64_le(x).reverse(),
        }
    }

    /// The number that the first two bytes of `b` hold in this byte order.
    pub open spec fn u16_of(self, b: Seq<u8>) -> u16 {
        match self {
            Endian::Little => u16_from_le(b),
            Endian::Big => u16_from_le(b.subrange(0, 2).reverse()),
        }
    }

    /// The number that the first four bytes of `b` hold in this byte order.
    pub open spec fn u32_of(self, b: Seq<u8>) -> u32 {
        match self {
            Endian::Little => u32_from_le(b),
            Endian::Big => u32_from_le(b.subrange(0, 4).reverse()),
        }
    }

    /// The number that the first eight bytes of `b` hold in this byte order.
    pub open spec fn u64_of(self, b: Seq<u8>) -> u64 {
        match self {
            Endian::Little => u64_from_le(b),
            Endian::Big => u64_from_le(b.subrange(0, 8).reverse()),
        }
    }

    /// Reads the byte at `offset`.
    #[inline]
    pub fn read_u8(self, buf: &[u8], offset: usize) -> (v: u8)
        requires
            offset < buf@.len(),
        ensures
            v == buf@[offset as int],
    {
        buf[offset]
    }

    /// Reads the two bytes at `offset` as a number.
    #[inline]
    pub fn read_u16(self, buf: &[u8], offset: usize) -> (v: u16)
        requires
            offset + 2 <= buf@.len(),
        ensures
            v == self.u16_of(buf@.subrange(offset as int, offset + 2)),
    {
        let b0 = buf[offset] as u16;
        let b1 = buf[offset + 1] as u16;
        match self {
            Endian::Little => b0 + b1 * 0x100,
            Endian::Big => b1 + b0 * 0x100,
        }
    }

    /// Reads the four bytes at `offset` as a number.
    #[inline]
    pub fn read_u32(self, buf: &[u8], offset: usize) -> (v: u32)
        requires
            offset + 4 <= buf@.len(),
        ensures
            v == self.u32_of(buf@.subrange(offset as int, offset + 4)),
    {
        let b0 = buf[offset] as u32;
        let b1 = buf[offset + 1] as u32;
        let b2 = buf[offset + 2] as u32;
        let b3 = buf[offset + 3] as u32;
        match self {
            Endian::Little => b0 + b1 * 0x100 + b2 * 0x1_0000 + b3 * 0x100_0000,
            Endian::Big => b3 + b2 * 0x100 + b1 * 0x1_0000 + b0 * 0x100_0000,
        }
    }

    /// Reads the eight bytes at `offset` as a number.
    #[inline]
    pub fn read_u64(self, buf: &[u8], offset: usize) -> (v: u64)
        requires
            offset + 8 <= buf@.len(),
        ensures
            v == self.u64_of(buf@.subrange(offset as int, offset + 8)),
    {
        let b0 = buf[offset] as u64;
        let b1 = buf[offset + 1] as u64;
        let b2 = buf[offset + 2] as u64;
        let b3 = buf[offset + 3] as u64;
        let b4 = buf[offset + 4] as u64;
        let b5 = buf[offset + 5] as u64;
        let b6 = buf[offset + 6] as u64;
        let b7 = buf[offset + 7] as u64;
        match self {
            Endian::Little => b0 + b1 * 0x100 + b2 * 0x1_0000 + b3 * 0x100_0000 + b4
                * 0x1_0000_0000 + b5 * 0x100_0000_0000 + b6 * 0x1_0000_0000_0000 + b7
                * 0x100_0000_0000_0000,
            Endian::Big => b7 + b6 * 0x100 + b5 * 0x1_0000 + b4 * 0x100_0000 + b3 * 0x1_0000_0000
                + b2 * 0x100_0000_0000 + b1 * 0x1_0000_0000_0000 + b0 * 0x100_0000_0000_0000,
        }
    }

    /// Reads the byte at `offset` as a signed number.
    #[inline]
    pub fn read_i8(self, buf: &[u8], offset: usize) -> (v: i8)
        requires
            offset < buf@.len(),
        ensures
            v == i8_of_bits(buf@[offset as int]),
    {
        let bits = self.read_u8(buf, offset);
        if bits >= 0x80 {
            ((bits - 0x80) as i8) + i8::MIN
        } else {
            bits as i8
        }
    }

    /// Reads the two bytes at `offset` as a signed number.
    #[inline]
    pub fn read_i16(self, buf: &[u8], offset: usize) -> (v: i16)
        requires
            offset + 2 <= buf@.len(),
        ensures
            v == i16_of_bits(self.u16_of(buf@.subrange(offset as int, offset + 2))),
    {
        let bits = self.read_u16(buf, offset);
        if bits >= 0x8000 {
            ((bits - 0x8000) as i16) + i16::MIN
        } else {
            bits as i16
        }
    }

    /// Reads the four bytes at `offset` as a signed number.
    #[inline]
    pub fn read_i32(self, buf: &[u8], offset: usize) -> (v: i32)
        requires
            offset + 4 <= buf@.len(),
        ensures
            v == i32_of_bits(self.u32_of(buf@.subrange(offset as int, offset + 4))),
    {
        let bits = self.read_u32(buf, offset);
        if bits >= 0x8000_0000 {
            ((bits - 0x8000_0000) as i32) + i32::MIN
        } else {
            bits as i32
        }
    }

    /// Reads the eight bytes at `offset` as a signed number.
    #[inline]
    pub fn read_i64(self, buf: &[u8], offset: usize) -> (v: i64)
        requires
            offset + 8 <= buf@.len(),
        ensures
            v == i64_of_bits(self.u64_of(buf@.subrange(offset as int, offset + 8))),
    {
        let bits = self.read_u64(buf, offset);
        if bits >= 0x8000_0000_0000_0000 {
            ((bits - 0x8000_0000_0000_0000) as i64) + i64::MIN
        } else {
            bits as i64
        }
    }

    /// Reads the byte at `offset` as a truth value: any byte but zero is
    /// true.
    #[inline]
    pub fn read_bool(self, buf: &[u8], offset: usize) -> (v: bool)
        requires
            offset < buf@.len(),
        ensures
            v == (buf@[offset as int] != 0),
    {
        self.read_u8(buf, offset) != 0
    }

    /// Writes `value` at `offset`.
    #[inline]
    pub fn write_u8(self, value: u8, buf: &mut [u8], offset: usize)
        requires
            offset < old(buf)@.len(),
        ensures
            final(buf)@ == splice(old(buf)@, offset as int, seq![value]),
    {
        buf[offset] = value;
    }

    /// Writes the two bytes of `value` at `offset`.
    #[inline]
    pub fn write_u16(self, value: u16, buf: &mut [u8], offset: usize)
        requires
            offset + 2 <= old(buf)@.len(),
        ensures
            final(buf)@ == splice(old(buf)@, offset as int, self.u16_bytes(value)),
    {
        let b0 = (value % 0x100) as u8;
        let b1 = (value / 0x100) as u8;
        match self {
            Endian::Little => {
                buf[offset] = b0;
                buf[offset + 1] = b1;
            },
            Endian::Big => {
                buf[offset] = b1;
                buf[offset + 1] = b0;
            },
        }
    }

    /// Writes the four bytes of `value` at `offset`.
    #[inline]
    pub fn write_u32(self, value: u32, buf: &mut [u8], offset: usize)
        requires
            offset + 4 <= old(buf)@.len(),
        ensures
            final(buf)@ == splice(old(buf)@, offset as int, self.u32_bytes(value)),
    {
        let b0 = (value % 0x100) as u8;
        let b1 = (value / 0x100 % 0x100) as u8;
        let b2 = (value / 0x1_0000 % 0x100) as u8;
        let b3 = (value / 0x100_0000) as u8;
        match self {
            Endian::Little => {
                buf[offset] = b0;
                buf[offset + 1] = b1;
                buf[offset + 2] = b2;
                buf[offset + 3] = b3;
            },
            Endian::Big => {
                buf[offset] = b3;
                buf[offset + 1] = b2;
                buf[offset + 2] = b1;
                buf[offset + 3] = b0;
            },
        }
    }

    /// Writes the eight bytes of `value` at `offset`.
    #[inline]
    pub fn write_u64(self, value: u64, buf: &mut [u8], offset: usize)
        requires
            offset + 8 <= old(buf)@.len(),
        ensures
            final(buf)@ == splice(old(buf)@, offset as int, self.u64_bytes(value)),
    {
        let b0 = (value % 0x100) as u8;
        let b1 = (value / 0x100 % 0x100) as u8;
        let b2 = (value / 0x1_0000 % 0x100) as u8;
        let b3 = (value / 0x100_0000 % 0x100) as u8;
        let b4 = (value / 0x1_0000_0000 % 0x100) as u8;
        let b5 = (value / 0x100_0000_0000 % 0x100) as u8;
        let b6 = (value / 0x1_0000_0000_0000 % 0x100) as u8;
        let b7 = (value / 0x100_0000_0000_0000) as u8;
        match self {
            Endian::Little => {
                buf[offset] = b0;
                buf[offset + 1] = b1;
                buf[offset + 2] = b2;
                buf[offset + 3] = b3;
                buf[offset + 4] = b4;
                buf[offset + 5] = b5;
                buf[offset + 6] = b6;
                buf[offset + 7] = b7;
            },
            Endian::Big => {
                buf[offset] = b7;
                buf[offset + 1] = b6;
                buf[offset + 2] = b5;
                buf[offset + 3] = b4;
                buf[offset + 4] = b3;
                buf[offset + 5] = b2;
                buf[offset + 6] = b1;
                buf[offset + 7] = b0;
            },
        }
    }

    /// Writes the bit pattern of `value` at `offset`.
    #[inline]
    pub fn write_i8(self, value: i8, buf: &mut [u8], offset: usize)
        requires
            offset < old(buf)@.len(),
        ensures
            final(buf)@ == splice(old(buf)@, offset as int, seq![i8_bits(value)]),
    {
        self.write_u8(bits_of_i8(value), buf, offset);
    }

    /// Writes the bit pattern of `value` at `offset`.
    #[inline]
    pub fn write_i16(self, value: i16, buf: &mut [u8], offset: usize)
        requires
            offset + 2 <= old(buf)@.len(),
        ensures
            final(buf)@ == splice(old(buf)@, offset as int, self.u16_bytes(i16_bits(value))),
    {
        self.write_u16(bits_of_i16(value), buf, offset);
    }

    /// Writes the bit pattern of `value` at `offset`.
    #[inline]
    pub fn write_i32(self, value: i32, buf: &mut [u8], offset: usize)
        requires
            offset + 4 <= old(buf)@.len(),
        ensures
            final(buf)@ == splice(old(buf)@, offset as int, self.u32_bytes(i32_bits(value))),
    {
        self.write_u32(bits_of_i32(value), buf, offset);
    }

    /// Writes the bit pattern of `value` at `offset`.
    #[inline]
    pub fn write_i64(self, value: i64, buf: &mut [u8], offset: usize)
        requires
            offset + 8 <= old(buf)@.len(),
        ensures
            final(buf)@ == splice(old(buf)@, offset as int, self.u64_bytes(i64_bits(value))),
    {
        self.write_u64(bits_of_i64(value), buf, offset);
    }

    /// Writes a truth value at `offset`: one for true, zero for false.
    #[inline]
    pub fn write_bool(self, value: bool, buf: &mut [u8], offset: usize)
        requires
            offset < old(buf)@.len(),
        ensures
            final(buf)@ == splice(old(buf)@, offset as int, seq![bool_byte(value)]),
    {
        self.write_u8(if value { 1 } else { 0 }, buf, offset);
    }
}

/// The byte that stands for a truth value.
pub open spec fn bool_byte(value: bool) -> u8 {
    if value {
        1
    } else {
        0
    }
}

/// The bit pattern of `x`.
pub fn bits_of_i8(x: i8) -> (b: u8)
    ensures
        b == i8_bits(x),
{
    if x < 0 {
        ((x - i8::MIN) as u8) + 0x80
    } else {
        x as u8
    }
}

/// The bit pattern of `x`.
pub fn bits_of_i16(x: i16) -> (b: u16)
    ensures
        b == i16_bits(x),
{
    if x < 0 {
        ((x - i16::MIN) as u16) + 0x8000
    } else {
        x as u16
    }
}

/// The bit pattern of `x`.
pub fn bits_of_i32(x: i32) -> (b: u32)
    ensures
        b == i32_bits(x),
{
    if x < 0 {
        ((x - i32::MIN) as u32) + 0x8000_0000
    } else {
        x as u32
    }
}

/// The bit pattern of `x`.
pub fn bits_of_i64(x: i64) -> (b: u64)
    ensures
        b == i64_bits(x),
{
    if x < 0 {
        ((x - i64::MIN) as u64) + 0x8000_0000_0000_0000
    } else {
        x as u64
    }
}

} // verus!
