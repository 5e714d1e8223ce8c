//! Readers of message buffers.
//!
//! What each accessor returns is a function of the bytes of the buffer;
//! those functions are written down here, and the accessors compute them.
//! No accessor asks anything of the buffer: whatever the bytes are, the
//! answer is a value or one of the errors.

use vstd::prelude::*;
use vstd::string::*;
use vstd::utf8::{decode_utf8, encode_utf8, encode_utf8_decode_utf8, valid_utf8};
use crate::codec::{ZpRead, ZpType};
use crate::errors::Error;
use crate::primitives::{u16_from_le, u32_from_le, Endian, PrimitiveType};

verus! {

/// The number of fields that the first two bytes of a buffer announce.
pub open spec fn field_count_of(buf: Seq<u8>) -> int {
    u16_from_le(buf) as int
}

/// A buffer that holds its header and the whole field table.
pub open spec fn valid_header(buf: Seq<u8>) -> bool {
    buf.len() >= 2 && buf.len() >= 2 + 5 * field_count_of(buf)
}

/// The type id in entry `k` of the field table.
pub open spec fn entry_type_id(buf: Seq<u8>, k: int) -> u8 {
    buf[2 + 5 * k]
}

/// The offset in entry `k` of the field table.
pub open spec fn entry_offset(buf: Seq<u8>, k: int) -> int {
    u32_from_le(buf.subrange(3 + 5 * k, 7 + 5 * k)) as int
}

/// Entry `k` of the field table: the kind of the field and the offset of
/// its payload, `None` for a field that is unset. An index that is not in
/// the table is `OutOfBounds`, a type id that is not in use
/// `InvalidFieldType`.
pub open spec fn field_entry_spec(buf: Seq<u8>, k: u16) -> Result<
    Option<(PrimitiveType, int)>,
    Error,
> {
    if k >= field_count_of(buf) {
        Err(Error::OutOfBounds)
    } else {
        match PrimitiveType::of_id(entry_type_id(buf, k as int)) {
            None => Err(Error::InvalidFieldType),
            Some(PrimitiveType::Unset) => Ok(None),
            Some(kind) => Ok(Some((kind, entry_offset(buf, k as int)))),
        }
    }
}

/// Whether field `k` is in the table and set.
pub open spec fn has_field_spec(buf: Seq<u8>, k: u16) -> bool {
    k < field_count_of(buf) && entry_type_id(buf, k as int) != 255
}

/// What a strict accessor returns where the lenient one returns `found`:
/// a field that is unset is missing.
pub open spec fn required<V>(found: Result<Option<V>, Error>) -> Result<V, Error> {
    match found {
        Err(e) => Err(e),
        Ok(None) => Err(Error::MissingField),
        Ok(Some(v)) => Ok(v),
    }
}

/// The scalar of type `T` in field `k`. The stored type id must be that
/// of `T`, and the value must end within the buffer.
pub open spec fn try_get_scalar_spec<'a, T: ZpRead<'a>>(buf: Seq<u8>, k: u16) -> Result<
    Option<T>,
    Error,
> {
    match field_entry_spec(buf, k) {
        Err(e) => Err(e),
        Ok(None) => Ok(None),
        Ok(Some((kind, offset))) => if kind.id() != T::wire_id() {
            Err(Error::InvalidFieldType)
        } else if offset + T::wire_width() > buf.len() {
            Err(Error::OutOfBounds)
        } else {
            Ok(Some(T::decode(buf.subrange(offset, offset + T::wire_width()))))
        },
    }
}

/// Where the body of the length-prefixed payload of field `k` lies: its
/// start and its length. The field must be of kind `kind`, and the prefix
/// and the body must end within the buffer.
pub open spec fn locate_body(buf: Seq<u8>, k: u16, kind: PrimitiveType) -> Result<
    Option<(int, int)>,
    Error,
> {
    match field_entry_spec(buf, k) {
        Err(e) => Err(e),
        Ok(None) => Ok(None),
        Ok(Some((found, offset))) => if found != kind {
            Err(Error::InvalidFieldType)
        } else if offset + 4 > buf.len() {
            Err(Error::OutOfBounds)
        } else {
            let length = u32_from_le(buf.subrange(offset, offset + 4)) as int;
            if offset + 4 + length > buf.len() {
                Err(Error::OutOfBounds)
            } else {
                Ok(Some((offset + 4, length)))
            }
        },
    }
}

/// The bytes in field `k`.
pub open spec fn try_get_bytes_spec(buf: Seq<u8>, k: u16) -> Result<Option<Seq<u8>>, Error> {
    match locate_body(buf, k, PrimitiveType::Bytes) {
        Err(e) => Err(e),
        Ok(None) => Ok(None),
        Ok(Some((start, length))) => Ok(Some(buf.subrange(start, start + length))),
    }
}

/// The string in field `k`; its bytes must be valid UTF-8.
pub open spec fn try_get_string_spec(buf: Seq<u8>, k: u16) -> Result<Option<Seq<char>>, Error> {
    match locate_body(buf, k, PrimitiveType::String) {
        Err(e) => Err(e),
        Ok(None) => Ok(None),
        Ok(Some((start, length))) => if valid_utf8(buf.subrange(start, start + length)) {
            Ok(Some(decode_utf8(buf.subrange(start, start + length))))
        } else {
            Err(Error::InvalidUtf8)
        },
    }
}

/// The buffer of the message nested in field `k`; it must hold its own
/// header and field table.
pub open spec fn try_get_message_spec(buf: Seq<u8>, k: u16) -> Result<Option<Seq<u8>>, Error> {
    match locate_body(buf, k, PrimitiveType::Message) {
        Err(e) => Err(e),
        Ok(None) => Ok(None),
        Ok(Some((start, length))) => if valid_header(buf.subrange(start, start + length)) {
            Ok(Some(buf.subrange(start, start + length)))
        } else {
            Err(Error::InvalidMessage)
        },
    }
}

/// The `count` values of type `T` that lie one after the other from
/// `start` on.
pub open spec fn vector_elements<'a, T: ZpRead<'a>>(buf: Seq<u8>, start: int, count: int) -> Seq<T> {
    Seq::new(
        count as nat,
        |i: int|
            T::decode(
                buf.subrange(start + i * T::wire_width(), start + (i + 1) * T::wire_width()),
            ),
    )
}

/// The vector of values of type `T` in field `k`. The count and all the
/// elements must end within the buffer.
pub open spec fn try_get_vector_spec<'a, T: ZpRead<'a>>(buf: Seq<u8>, k: u16) -> Result<
    Option<Seq<T>>,
    Error,
> {
    match field_entry_spec(buf, k) {
        Err(e) => Err(e),
        Ok(None) => Ok(None),
        Ok(Some((kind, offset))) => if kind != PrimitiveType::Vector {
            Err(Error::InvalidFieldType)
        } else if offset + 4 > buf.len() {
            Err(Error::OutOfBounds)
        } else {
            let count = u32_from_le(buf.subrange(offset, offset + 4)) as int;
            if offset + 4 + count * T::wire_width() > buf.len() {
                Err(Error::OutOfBounds)
            } else {
                Ok(Some(vector_elements::<T>(buf, offset + 4, count)))
            }
        },
    }
}

/// `r` is the string slice that `expected` tells, or its error.
pub open spec fn is_str_result(r: Result<&str, Error>, expected: Result<Seq<char>, Error>) -> bool {
    match expected {
        Ok(text) => r matches Ok(s) && s@ == text,
        Err(e) => r matches Err(x) && x == e,
    }
}

/// `r` is the byte slice that `expected` tells, or its error.
pub open spec fn is_bytes_result(r: Result<&[u8], Error>, expected: Result<Seq<u8>, Error>) -> bool {
    match expected {
        Ok(bytes) => r matches Ok(s) && s@ == bytes,
        Err(e) => r matches Err(x) && x == e,
    }
}

/// `core::str::Utf8Error` of the standard library, which tells why bytes
/// are not a string. Nothing is read from it.
#[verifier::external_type_specification]
#[verifier::external_body]
pub struct ExUtf8Error(core::str::Utf8Error);

/// `core::str::from_utf8` of the standard library. Trusted: it succeeds
/// exactly on byte slices that are valid UTF-8, and the string slice it
/// returns is made of the bytes it was given.
#[verifier::external_body]
fn str_from_utf8<'a>(bytes: &'a [u8]) -> (r: Result<&'a str, core::str::Utf8Error>)
    ensures
        r is Ok <==> valid_utf8(bytes@),
        r matches Ok(s) ==> encode_utf8(s@) == bytes@,
{
    core::str::from_utf8(bytes)
}

/// Reads a message from a borrowed buffer without copying payloads.
#[derive(Debug)]
pub struct MessageReader<'a> {
    buffer: &'a [u8],
    field_count: u16,
    field_table_offset: usize,
}

impl<'a> View for MessageReader<'a> {
    type V = Seq<u8>;

    closed spec fn view(&self) -> Seq<u8> {
        self.buffer@
    }
}

impl<'a> MessageReader<'a> {
    #[verifier::type_invariant]
    spec fn well_formed(&self) -> bool {
        &&& valid_header(self.buffer@)
        &&& self.field_count == field_count_of(self.buffer@)
        &&& self.field_table_offset == 2
    }

    /// Opens a reader on `buffer`. The buffer must hold the header and the
    /// field table that the header announces; payloads are checked when
    /// they are read.
    pub fn new(buffer: &'a [u8]) -> (r: Result<MessageReader<'a>, Error>)
        ensures
            valid_header(buffer@) ==> (r matches Ok(reader) && reader@ == buffer@),
            !valid_header(buffer@) ==> (r matches Err(e) && e == Error::InvalidMessage),
    {
        if buffer.len() < 2 {
            return Err(Error::InvalidMessage);
        }
        let field_count = Endian::Little.read_u16(buffer, 0);
        let field_table_size = field_count as usize * 5;
        if buffer.len() - 2 < field_table_size {
            return Err(Error::InvalidMessage);
        }
        Ok(MessageReader { buffer, field_count, field_table_offset: 2 })
    }

    /// The number of fields in the message.
    pub fn field_count(&self) -> (n: u16)
        ensures
            n == field_count_of(self@),
    {
        proof {
            use_type_invariant(self);
        }
        self.field_count
    }

    /// The entry of the field table for `field_index`.
    fn field_entry(&self, field_index: u16) -> (r: Result<Option<(PrimitiveType, usize)>, Error>)
        ensures
            match field_entry_spec(self@, field_index) {
                Err(e) => r matches Err(x) && x == e,
                Ok(None) => r matches Ok(None),
                Ok(Some((kind, offset))) => r matches Ok(Some((k, o))) && k == kind && o == offset,
            },
    {
        proof {
            use_type_invariant(self);
        }
        if field_index >= self.field_count {
            return Err(Error::OutOfBounds);
        }
        let entry_offset = self.field_table_offset + field_index as usize * 5;
        let type_id = self.buffer[entry_offset];
        let primitive_type = match PrimitiveType::from_u8(type_id) {
            Some(kind) => kind,
            None => {
                return Err(Error::InvalidFieldType);
            },
        };
        if primitive_type == PrimitiveType::Unset {
            return Ok(None);
        }
        let offset = Endian::Little.read_u32(self.buffer, entry_offset + 1) as usize;
        Ok(Some((primitive_type, offset)))
    }

    /// Whether field `field_index` is in the table and set.
    pub fn has_field(&self, field_index: u16) -> (r: Result<bool, Error>)
        ensures
            r matches Ok(b) && b == has_field_spec(self@, field_index),
    {
        proof {
            use_type_invariant(self);
        }
        if field_index >= self.field_count {
            return Ok(false);
        }
        let entry_offset = self.field_table_offset + field_index as usize * 5;
        let type_id = self.buffer[entry_offset];
        Ok(type_id != 255)
    }

    /// The scalar in field `field_index`, `None` where the field is unset.
    pub fn try_get_scalar<T: ZpRead<'a>>(&self, field_index: u16) -> (r: Result<Option<T>, Error>)
        ensures
            r == try_get_scalar_spec::<T>(self@, field_index),
    {
        match self.field_entry(field_index) {
            Err(e) => Err(e),
            Ok(None) => Ok(None),
            Ok(Some((kind, field_offset))) => {
                if kind.type_id() != T::type_id() {
                    return Err(Error::InvalidFieldType);
                }
                match T::read(self.buffer, field_offset) {
                    Ok(value) => Ok(Some(value)),
                    Err(e) => Err(e),
                }
            },
        }
    }

    /// The scalar in field `field_index`; an unset field is an error.
    pub fn get_scalar<T: ZpRead<'a>>(&self, field_index: u16) -> (r: Result<T, Error>)
        ensures
            r == required(try_get_scalar_spec::<T>(self@, field_index)),
    {
        match self.try_get_scalar(field_index) {
            Err(e) => Err(e),
            Ok(None) => Err(Error::MissingField),
            Ok(Some(value)) => Ok(value),
        }
    }

    /// The string in field `field_index`; an unset field is an error.
    pub fn get_string(&self, field_index: u16) -> (r: Result<&'a str, Error>)
        ensures
            is_str_result(r, required(try_get_string_spec(self@, field_index))),
    {
        match self.try_get_string(field_index) {
            Err(e) => Err(e),
            Ok(None) => Err(Error::MissingField),
            Ok(Some(value)) => Ok(value),
        }
    }

    /// The bytes in field `field_index`; an unset field is an error.
    pub fn get_bytes(&self, field_index: u16) -> (r: Result<&'a [u8], Error>)
        ensures
            is_bytes_result(r, required(try_get_bytes_spec(self@, field_index))),
    {
        match self.try_get_bytes(field_index) {
            Err(e) => Err(e),
            Ok(None) => Err(Error::MissingField),
            Ok(Some(value)) => Ok(value),
        }
    }

    /// A reader on the message nested in field `field_index`; an unset
    /// field is an error.
    pub fn get_message(&self, field_index: u16) -> (r: Result<MessageReader<'a>, Error>)
        ensures
            match required(try_get_message_spec(self@, field_index)) {
                Ok(bytes) => r matches Ok(reader) && reader@ == bytes,
                Err(e) => r matches Err(x) && x == e,
            },
    {
        match self.try_get_message(field_index) {
            Err(e) => Err(e),
            Ok(None) => Err(Error::MissingField),
            Ok(Some(value)) => Ok(value),
        }
    }

    /// The vector in field `field_index`; an unset field is an error.
    pub fn get_vector<T: ZpRead<'a>>(&self, field_index: u16) -> (r: Result<
        VectorReader<'a, T>,
        Error,
    >)
        ensures
            match required(try_get_vector_spec::<T>(self@, field_index)) {
                Ok(elements) => r matches Ok(vector) && vector@ == elements,
                Err(e) => r matches Err(x) && x == e,
            },
    {
        match self.try_get_vector(field_index) {
            Err(e) => Err(e),
            Ok(None) => Err(Error::MissingField),
            Ok(Some(value)) => Ok(value),
        }
    }

    /// The body of the length-prefixed payload of field `field_index`.
    fn body(&self, field_index: u16, kind: PrimitiveType) -> (r: Result<Option<&'a [u8]>, Error>)
        ensures
            match locate_body(self@, field_index, kind) {
                Err(e) => r matches Err(x) && x == e,
                Ok(None) => r matches Ok(None),
                Ok(Some((start, length))) => r matches Ok(Some(b)) && b@ == self@.subrange(
                    start,
                    start + length,
                ),
            },
    {
        match self.field_entry(field_index) {
            Err(e) => Err(e),
            Ok(None) => Ok(None),
            Ok(Some((field_type, field_offset))) => {
                if field_type != kind {
                    return Err(Error::InvalidFieldType);
                }
                let size = self.buffer.len();
                if field_offset > size || size - field_offset < 4 {
                    return Err(Error::OutOfBounds);
                }
                let len = Endian::Little.read_u32(self.buffer, field_offset) as usize;
                let start = field_offset + 4;
                if size - start < len {
                    return Err(Error::OutOfBounds);
                }
                Ok(Some(vstd::slice::slice_subrange(self.buffer, start, start + len)))
            },
        }
    }

    /// The string in field `field_index`, `None` where the field is unset.
    pub fn try_get_string(&self, field_index: u16) -> (r: Result<Option<&'a str>, Error>)
        ensures
            match try_get_string_spec(self@, field_index) {
                Err(e) => r matches Err(x) && x == e,
                Ok(None) => r matches Ok(None),
                Ok(Some(text)) => r matches Ok(Some(s)) && s@ == text,
            },
    {
        match self.body(field_index, PrimitiveType::String) {
            Err(e) => Err(e),
            Ok(None) => Ok(None),
            Ok(Some(string_bytes)) => match str_from_utf8(string_bytes) {
                Ok(s) => {
                    proof {
                        encode_utf8_decode_utf8(s@);
                    }
                    Ok(Some(s))
                },
                Err(_) => Err(Error::InvalidUtf8),
            },
        }
    }

    /// The bytes in field `field_index`, `None` where the field is unset.
    pub fn try_get_bytes(&self, field_index: u16) -> (r: Result<Option<&'a [u8]>, Error>)
        ensures
            match try_get_bytes_spec(self@, field_index) {
                Err(e) => r matches Err(x) && x == e,
                Ok(None) => r matches Ok(None),
                Ok(Some(bytes)) => r matches Ok(Some(s)) && s@ == bytes,
            },
    {
        self.body(field_index, PrimitiveType::Bytes)
    }

    /// A reader on the message nested in field `field_index`, `None`
    /// where the field is unset.
    pub fn try_get_message(&self, field_index: u16) -> (r: Result<Option<MessageReader<'a>>, Error>)
        ensures
            match try_get_message_spec(self@, field_index) {
                Err(e) => r matches Err(x) && x == e,
                Ok(None) => r matches Ok(None),
                Ok(Some(bytes)) => r matches Ok(Some(reader)) && reader@ == bytes,
            },
    {
        match self.body(field_index, PrimitiveType::Message) {
            Err(e) => Err(e),
            Ok(None) => Ok(None),
            Ok(Some(message_buffer)) => match MessageReader::new(message_buffer) {
                Ok(reader) => Ok(Some(reader)),
                Err(e) => Err(e),
            },
        }
    }

    /// The vector in field `field_index`, `None` where the field is unset.
    pub fn try_get_vector<T: ZpRead<'a>>(&self, field_index: u16) -> (r: Result<
        Option<VectorReader<'a, T>>,
        Error,
    >)
        ensures
            match try_get_vector_spec::<T>(self@, field_index) {
                Err(e) => r matches Err(x) && x == e,
                Ok(None) => r matches Ok(None),
                Ok(Some(elements)) => r matches Ok(Some(vector)) && vector@ == elements,
            },
    {
        match self.field_entry(field_index) {
            Err(e) => Err(e),
            Ok(None) => Ok(None),
            Ok(Some((field_type, field_offset))) => {
                if field_type != PrimitiveType::Vector {
                    return Err(Error::InvalidFieldType);
                }
                let size = self.buffer.len();
                if field_offset > size || size - field_offset < 4 {
                    return Err(Error::OutOfBounds);
                }
                let count = Endian::Little.read_u32(self.buffer, field_offset) as usize;
                let vector_offset = field_offset + 4;
                let fits = match count.checked_mul(T::size()) {
                    Some(body) => body <= size - vector_offset,
                    None => false,
                };
                if !fits {
                    return Err(Error::OutOfBounds);
                }
                Ok(
                    Some(
                        VectorReader {
                            buffer: self.buffer,
                            offset: vector_offset,
                            count,
                            _phantom: core::marker::PhantomData,
                        },
                    ),
                )
            },
        }
    }
}

/// Reads the elements of a vector from a borrowed buffer, one at a time.
#[derive(Debug)]
pub struct VectorReader<'a, T: ZpRead<'a>> {
    buffer: &'a [u8],
    offset: usize,
    count: usize,
    _phantom: core::marker::PhantomData<T>,
}

impl<'a, T: ZpRead<'a>> View for VectorReader<'a, T> {
    type V = Seq<T>;

    closed spec fn view(&self) -> Seq<T> {
        vector_elements::<T>(self.buffer@, self.offset as int, self.count as int)
    }
}

impl<'a, T: ZpRead<'a>> VectorReader<'a, T> {
    #[verifier::type_invariant]
    spec fn well_formed(&self) -> bool {
        self.offset + self.count * T::wire_width() <= self.buffer@.len()
    }

    /// The number of elements.
    pub fn len(&self) -> (n: usize)
        ensures
            n == self@.len(),
    {
        self.count
    }

    /// Whether there is no element.
    pub fn is_empty(&self) -> (b: bool)
        ensures
            b == (self@.len() == 0),
    {
        self.count == 0
    }

    /// The element at `index`, or `OutOfBounds` for an index that is not
    /// below the number of elements.
    pub fn get(&self, index: usize) -> (r: Result<T, Error>)
        ensures
            index < self@.len() ==> r == Ok::<T, Error>(self@[index as int]),
            index >= self@.len() ==> r == Err::<T, Error>(Error::OutOfBounds),
    {
        proof {
            use_type_invariant(self);
        }
        if index >= self.count {
            return Err(Error::OutOfBounds);
        }
        let width = T::size();
        let size = self.buffer.len();
        proof {
            let w = T::wire_width() as int;
            assert((index + 1) * w <= self.count * w) by (nonlinear_arith)
                requires
                    index + 1 <= self.count,
                    w >= 0,
            ;
            assert((index + 1) * w == index * w + w) by (nonlinear_arith);
            assert(index * w >= 0) by (nonlinear_arith)
                requires
                    index >= 0,
                    w >= 0,
            ;
            assert(self.offset + index * w + w <= size);
        }
        let element_offset = self.offset + index * width;
        T::read(self.buffer, element_offset)
    }

    /// The elements in order, each as the outcome of reading it.
    pub fn iter(&self) -> (items: Vec<Result<T, Error>>)
        ensures
            items@.len() == self@.len(),
            forall|i: int| 0 <= i < self@.len() ==> items@[i] == Ok::<T, Error>(self@[i]),
    {
        let mut items: Vec<Result<T, Error>> = Vec::new();
        let mut i: usize = 0;
        while i < self.count
            invariant
                i <= self.count == self@.len(),
                items@.len() == i,
                forall|j: int| 0 <= j < i ==> items@[j] == Ok::<T, Error>(self@[j]),
            decreases self.count - i,
        {
            items.push(self.get(i));
            i += 1;
        }
        items
    }

    /// The elements in order.
    pub fn collect(&self) -> (r: Result<Vec<T>, Error>)
        ensures
            r matches Ok(elements) && elements@ == self@,
    {
        let mut elements: Vec<T> = Vec::new();
        let mut i: usize = 0;
        while i < self.count
            invariant
                i <= self.count == self@.len(),
                elements@.len() == i,
                forall|j: int| 0 <= j < i ==> elements@[j] == self@[j],
            decreases self.count - i,
        {
            match self.get(i) {
                Ok(element) => {
                    elements.push(element);
                },
                Err(e) => {
                    return Err(e);
                },
            }
            i += 1;
        }
        Ok(elements)
    }
}

} // verus!
