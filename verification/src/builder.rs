//! Builders of message buffers.
//!
//! A builder holds a field table and a payload. Its value is a
//! [`BuilderView`]; [`BuilderView::bytes`] is the buffer that
//! [`MessageBuilder::finish`] returns for it.

use vstd::prelude::*;
use crate::codec::{ZpType, ZpWrite};
use crate::errors::Error;
use crate::primitives::{is_scalar_id, u16_le, u32_le};

verus! {

/// The largest number of fields in a message.
pub const MAX_FIELDS: u16 = 65535;

/// The size in bytes of an entry of the field table: the type id and the
/// offset.
pub const FIELD_ENTRY_SIZE: usize = 5;

/// The largest payload of a message: with the header and a field table of
/// any size before it, every byte of it has an offset of 32 bits.
pub const MAX_PAYLOAD: u32 = 4_294_639_618;

/// An entry of the field table of a builder: the type id of the field and
/// the offset of its payload within the payload region.
#[derive(Debug, Clone, Copy, PartialEq, Eq, Structural)]
pub struct FieldEntry {
    pub type_id: u8,
    pub offset: u32,
}

/// The value of a builder.
pub struct BuilderView {
    /// The field table; entry `k` describes the field of index `k`.
    pub entries: Seq<FieldEntry>,
    /// The payloads of all fields set so far, in the order they were set.
    pub payload: Seq<u8>,
}

/// The entry of a field that was never set.
pub open spec fn unset_entry() -> FieldEntry {
    FieldEntry { type_id: 255, offset: 0 }
}

/// The size of the header and of a field table of `n` entries.
pub open spec fn header_size(n: int) -> int {
    2 + 5 * n
}

/// Byte `j` of the five bytes of `entry` in a buffer whose payload region
/// starts at `base`: the type id, then the offset from the start of the
/// buffer, least significant byte first.
pub open spec fn entry_byte(entry: FieldEntry, base: int, j: int) -> u8 {
    if j == 0 {
        entry.type_id
    } else {
        u32_le((entry.offset + base) as u32)[j - 1]
    }
}

/// A payload with its length in front, as four bytes.
pub open spec fn length_prefixed(body: Seq<u8>) -> Seq<u8> {
    u32_le(body.len() as u32) + body
}

/// The encodings of `values`, one after the other.
pub open spec fn elements_bytes<T: ZpWrite>(values: Seq<T>) -> Seq<u8>
    decreases values.len(),
{
    if values.len() == 0 {
        Seq::empty()
    } else {
        elements_bytes(values.drop_last()) + values.last().encoding()
    }
}

/// The payload of a vector: the number of elements as four bytes, then
/// the elements.
pub open spec fn vector_payload<T: ZpWrite>(values: Seq<T>) -> Seq<u8> {
    u32_le(values.len() as u32) + elements_bytes(values)
}

/// The elements of a vector take as many bytes as their number times
/// their width.
pub proof fn lemma_elements_len<T: ZpWrite>(values: Seq<T>)
    ensures
        elements_bytes(values).len() == values.len() * T::wire_width(),
    decreases values.len(),
{
    if values.len() > 0 {
        lemma_elements_len(values.drop_last());
        values.last().lemma_encoding_width();
        assert(values.len() * T::wire_width() == (values.len() - 1) * T::wire_width()
            + T::wire_width()) by (nonlinear_arith);
    }
}

impl BuilderView {
    /// The empty builder.
    pub open spec fn empty() -> BuilderView {
        BuilderView { entries: Seq::empty(), payload: Seq::empty() }
    }

    /// What holds of every builder: at most 65 535 fields, a payload
    /// within its limit, and no offset behind the end of the payload.
    pub open spec fn wf(self) -> bool {
        &&& self.entries.len() <= 65535
        &&& self.payload.len() <= MAX_PAYLOAD
        &&& forall|i: int|
            0 <= i < self.entries.len() ==> (#[trigger] self.entries[i]).offset
                <= self.payload.len()
    }

    /// The field table grown to hold index `k`; new entries are unset.
    pub open spec fn grown(self, k: int) -> Seq<FieldEntry> {
        if k < self.entries.len() {
            self.entries
        } else {
            Seq::new(
                (k + 1) as nat,
                |i: int|
                    if i < self.entries.len() {
                        self.entries[i]
                    } else {
                        unset_entry()
                    },
            )
        }
    }

    /// The builder after field `k` was set to a payload `bytes` of type
    /// `type_id`: the payload is appended, and the entry of `k` points at
    /// it. An earlier payload of the field stays where it is.
    pub open spec fn with_field(self, k: int, type_id: u8, bytes: Seq<u8>) -> BuilderView {
        BuilderView {
            entries: self.grown(k).update(
                k,
                FieldEntry { type_id, offset: self.payload.len() as u32 },
            ),
            payload: self.payload + bytes,
        }
    }

    /// The field table as it stands in the finished buffer.
    pub open spec fn table(self) -> Seq<u8> {
        Seq::new(
            (5 * self.entries.len()) as nat,
            |i: int| entry_byte(self.entries[i / 5], header_size(self.entries.len() as int), i % 5),
        )
    }

    /// The finished buffer: the number of fields as two bytes, the field
    /// table with offsets counted from the start of the buffer, and the
    /// payload.
    pub open spec fn bytes(self) -> Seq<u8> {
        u16_le(self.entries.len() as u16) + self.table() + self.payload
    }
}

/// The outcome of setting field `k` to a payload `bytes` of type
/// `type_id`, and the builder after it. The index is checked first, then
/// whether the type is accepted, then whether the payload still fits;
/// a failed call leaves the builder as it was.
pub open spec fn set_field_spec(
    b: BuilderView,
    k: u16,
    accepted: bool,
    type_id: u8,
    bytes: Seq<u8>,
) -> (Result<(), Error>, BuilderView) {
    if k >= 65535 {
        (Err(Error::OutOfBounds), b)
    } else if !accepted {
        (Err(Error::InvalidFieldType), b)
    } else if b.payload.len() + bytes.len() > MAX_PAYLOAD {
        (Err(Error::OutOfBounds), b)
    } else {
        (Ok(()), b.with_field(k as int, type_id, bytes))
    }
}

/// Appends the four bytes of `v`, least significant first.
fn append_u32(out: &mut Vec<u8>, v: u32)
    ensures
        final(out)@ == old(out)@ + u32_le(v),
{
    out.push((v % 0x100) as u8);
    out.push((v / 0x100 % 0x100) as u8);
    out.push((v / 0x1_0000 % 0x100) as u8);
    out.push((v / 0x100_0000) as u8);
}

/// Appends the encoding of `value`.
fn append_value<T: ZpWrite>(out: &mut Vec<u8>, value: &T)
    requires
        old(out)@.len() + T::wire_width() <= usize::MAX,
    ensures
        final(out)@ == old(out)@ + value.encoding(),
{
    let start = out.len();
    let width = value.size();
    proof {
        value.lemma_encoding_width();
    }
    out.resize(start + width, 0);
    let _ = value.write(out.as_mut_slice(), start);
}

/// Appends the bytes of `body` with their length in front.
fn append_length_prefixed(out: &mut Vec<u8>, body: &[u8])
    requires
        body@.len() <= u32::MAX,
    ensures
        final(out)@ == old(out)@ + length_prefixed(body@),
{
    append_u32(out, body.len() as u32);
    out.extend_from_slice(body);
}

/// Appends the payload of a vector of `values`.
fn append_vector<T: ZpWrite>(out: &mut Vec<u8>, values: &[T])
    requires
        values@.len() <= u32::MAX,
        old(out)@.len() + 4 + values@.len() * T::wire_width() <= usize::MAX,
    ensures
        final(out)@ == old(out)@ + vector_payload(values@),
{
    append_u32(out, values.len() as u32);
    let ghost start = out@;
    let mut i: usize = 0;
    while i < values.len()
        invariant
            i <= values@.len(),
            start == old(out)@ + u32_le(values@.len() as u32),
            out@ == start + elements_bytes(values@.take(i as int)),
            old(out)@.len() + 4 + values@.len() * T::wire_width() <= usize::MAX,
        decreases values@.len() - i,
    {
        proof {
            lemma_elements_len(values@.take(i as int));
            assert((i + 1) * T::wire_width() <= values@.len() * T::wire_width())
                by (nonlinear_arith)
                requires
                    i + 1 <= values@.len(),
            ;
            assert((i + 1) * T::wire_width() == i * T::wire_width() + T::wire_width())
                by (nonlinear_arith);
            assert(values@.take(i + 1).drop_last() =~= values@.take(i as int));
        }
        append_value(out, &values[i]);
        i += 1;
    }
    assert(values@.take(i as int) =~= values@);
}

/// Builds the buffer of one message, field by field.
#[derive(Debug)]
pub struct MessageBuilder {
    payload: Vec<u8>,
    field_entries: Vec<FieldEntry>,
}

impl View for MessageBuilder {
    type V = BuilderView;

    closed spec fn view(&self) -> BuilderView {
        BuilderView { entries: self.field_entries@, payload: self.payload@ }
    }
}

impl MessageBuilder {
    /// Creates a builder without fields.
    pub fn new() -> (b: MessageBuilder)
        ensures
            b@ == BuilderView::empty(),
            b@.wf(),
    {
        MessageBuilder { payload: Vec::new(), field_entries: Vec::new() }
    }

    /// The number of fields: one more than the largest index set so far.
    pub fn field_count(&self) -> (n: u16)
        requires
            self@.wf(),
        ensures
            n == self@.entries.len(),
    {
        self.field_entries.len() as u16
    }

    /// Sets field `field_index` to a scalar.
    ///
    /// Fails with `OutOfBounds` for an index of 65 535, with
    /// `InvalidFieldType` for a type whose id is not that of a scalar, and
    /// with `OutOfBounds` where the payload would pass its limit.
    pub fn set_scalar<T: ZpWrite>(&mut self, field_index: u16, value: T) -> (r: Result<(), Error>)
        requires
            old(self)@.wf(),
        ensures
            final(self)@.wf(),
            (r, final(self)@) == set_field_spec(
                old(self)@,
                field_index,
                is_scalar_id(T::wire_id()),
                T::wire_id(),
                value.encoding(),
            ),
    {
        proof {
            value.lemma_encoding_width();
        }
        if field_index >= MAX_FIELDS {
            return Err(Error::OutOfBounds);
        }
        let type_id = match self.get_type_id::<T>() {
            Ok(id) => id,
            Err(e) => {
                return Err(e);
            },
        };
        let width = value.size();
        if width > MAX_PAYLOAD as usize - self.payload.len() {
            return Err(Error::OutOfBounds);
        }
        let offset = self.payload.len() as u32;
        append_value(&mut self.payload, &value);
        self.set_field_entry(field_index, type_id, offset);
        Ok(())
    }

    /// Sets field `field_index` to a string: the length of its UTF-8 form
    /// as four bytes, then the UTF-8 form.
    pub fn set_string(&mut self, field_index: u16, value: &str) -> (r: Result<(), Error>)
        requires
            old(self)@.wf(),
        ensures
            final(self)@.wf(),
            (r, final(self)@) == set_field_spec(
                old(self)@,
                field_index,
                true,
                11,
                length_prefixed(vstd::utf8::encode_utf8(value@)),
            ),
    {
        self.set_length_prefixed(field_index, 11, value.as_bytes())
    }

    /// Sets field `field_index` to a byte string: its length as four
    /// bytes, then the bytes.
    pub fn set_bytes(&mut self, field_index: u16, value: &[u8]) -> (r: Result<(), Error>)
        requires
            old(self)@.wf(),
        ensures
            final(self)@.wf(),
            (r, final(self)@) == set_field_spec(
                old(self)@,
                field_index,
                true,
                12,
                length_prefixed(value@),
            ),
    {
        self.set_length_prefixed(field_index, 12, value)
    }

    /// Sets field `field_index` to a nested message: the length of its
    /// buffer as four bytes, then the buffer as it is.
    pub fn set_message(&mut self, field_index: u16, message: &[u8]) -> (r: Result<(), Error>)
        requires
            old(self)@.wf(),
        ensures
            final(self)@.wf(),
            (r, final(self)@) == set_field_spec(
                old(self)@,
                field_index,
                true,
                13,
                length_prefixed(message@),
            ),
    {
        self.set_length_prefixed(field_index, 13, message)
    }

    /// Sets field `field_index` to a vector of scalars: the number of
    /// elements as four bytes, then the elements.
    ///
    /// Fails like [`Self::set_scalar`]; the element type must be a scalar.
    pub fn set_vector<T: ZpWrite>(&mut self, field_index: u16, values: &[T]) -> (r: Result<
        (),
        Error,
    >)
        requires
            old(self)@.wf(),
        ensures
            final(self)@.wf(),
            (r, final(self)@) == set_field_spec(
                old(self)@,
                field_index,
                is_scalar_id(T::wire_id()),
                14,
                vector_payload(values@),
            ),
    {
        proof {
            lemma_elements_len(values@);
        }
        if field_index >= MAX_FIELDS {
            return Err(Error::OutOfBounds);
        }
        match self.get_type_id::<T>() {
            Ok(_) => {},
            Err(e) => {
                return Err(e);
            },
        }
        let room = MAX_PAYLOAD as usize - self.payload.len();
        let width = if values.len() == 0 {
            0
        } else {
            values[0].size()
        };
        let fits = match values.len().checked_mul(width) {
            Some(body) => room >= 4 && body <= room - 4,
            None => false,
        };
        if !fits {
            proof {
                if values@.len() == 0 {
                    assert(values@.len() * T::wire_width() == 0) by (nonlinear_arith)
                        requires
                            values@.len() == 0,
                    ;
                }
            }
            return Err(Error::OutOfBounds);
        }
        proof {
            T::lemma_width_positive();
            assert(values@.len() <= values@.len() * T::wire_width()) by (nonlinear_arith)
                requires
                    T::wire_width() >= 1,
            ;
        }
        let offset = self.payload.len() as u32;
        append_vector(&mut self.payload, values);
        self.set_field_entry(field_index, 14, offset);
        Ok(())
    }

    /// Sets field `field_index` to a payload with a length prefix.
    fn set_length_prefixed(&mut self, field_index: u16, type_id: u8, body: &[u8]) -> (r: Result<
        (),
        Error,
    >)
        requires
            old(self)@.wf(),
        ensures
            final(self)@.wf(),
            (r, final(self)@) == set_field_spec(
                old(self)@,
                field_index,
                true,
                type_id,
                length_prefixed(body@),
            ),
    {
        if field_index >= MAX_FIELDS {
            return Err(Error::OutOfBounds);
        }
        let room = MAX_PAYLOAD as usize - self.payload.len();
        if room < 4 || body.len() > room - 4 {
            return Err(Error::OutOfBounds);
        }
        let offset = self.payload.len() as u32;
        append_length_prefixed(&mut self.payload, body);
        self.set_field_entry(field_index, type_id, offset);
        Ok(())
    }

    /// Makes the field table hold index `field_index`; entries that it
    /// adds are unset.
    fn ensure_field_index(&mut self, field_index: u16) -> (r: Result<(), Error>)
        requires
            old(self)@.wf(),
        ensures
            final(self)@.wf(),
            field_index >= 65535 ==> r == Err::<(), Error>(Error::OutOfBounds) && final(self)@
                == old(self)@,
            field_index < 65535 ==> r is Ok && final(self)@ == (BuilderView {
                entries: old(self)@.grown(field_index as int),
                payload: old(self)@.payload,
            }),
    {
        if field_index >= MAX_FIELDS {
            return Err(Error::OutOfBounds);
        }
        if (field_index as usize) < self.field_entries.len() {
            return Ok(());
        }
        while self.field_entries.len() <= field_index as usize
            invariant
                field_index < 65535,
                old(self)@.entries.len() <= self.field_entries@.len() <= field_index + 1,
                self.payload@ == old(self)@.payload,
                old(self)@.wf(),
                forall|i: int|
                    0 <= i < self.field_entries@.len() ==> self.field_entries@[i] == if i < old(
                        self,
                    )@.entries.len() {
                        old(self)@.entries[i]
                    } else {
                        unset_entry()
                    },
            decreases field_index + 1 - self.field_entries@.len(),
        {
            self.field_entries.push(FieldEntry { type_id: 255, offset: 0 });
        }
        assert(self@.entries =~= old(self)@.grown(field_index as int));
        Ok(())
    }

    /// Records the type and the offset of field `field_index`.
    fn set_field_entry(&mut self, field_index: u16, type_id: u8, offset: u32)
        requires
            old(self)@.wf(),
            field_index < 65535,
            offset <= old(self)@.payload.len(),
        ensures
            final(self)@.wf(),
            final(self)@ == (BuilderView {
                entries: old(self)@.grown(field_index as int).update(
                    field_index as int,
                    FieldEntry { type_id, offset },
                ),
                payload: old(self)@.payload,
            }),
    {
        let _ = self.ensure_field_index(field_index);
        self.field_entries.set(field_index as usize, FieldEntry { type_id, offset });
    }

    /// The type id of a scalar type, or `InvalidFieldType` for a type that
    /// is none.
    fn get_type_id<T: ZpWrite>(&self) -> (r: Result<u8, Error>)
        ensures
            is_scalar_id(T::wire_id()) ==> r == Ok::<u8, Error>(T::wire_id()),
            !is_scalar_id(T::wire_id()) ==> r == Err::<u8, Error>(Error::InvalidFieldType),
    {
        let id = T::type_id();
        if id <= 10 {
            Ok(id)
        } else {
            Err(Error::InvalidFieldType)
        }
    }

    /// Finishes the message and returns its buffer.
    pub fn finish(self) -> (buffer: Vec<u8>)
        requires
            self@.wf(),
        ensures
            buffer@ == self@.bytes(),
    {
        let count = self.field_entries.len();
        let base: u32 = (2 + 5 * count) as u32;
        let mut buffer: Vec<u8> = Vec::new();
        buffer.push((count % 0x100) as u8);
        buffer.push((count / 0x100) as u8);
        assert(buffer@ =~= u16_le(count as u16));
        let mut i: usize = 0;
        while i < count
            invariant
                i <= count == self.field_entries@.len(),
                self@.wf(),
                base == header_size(count as int),
                buffer@ == u16_le(count as u16) + self@.table().subrange(0, 5 * i),
            decreases count - i,
        {
            let entry = self.field_entries[i];
            let ghost before = buffer@;
            buffer.push(entry.type_id);
            append_u32(&mut buffer, entry.offset + base);
            i += 1;
            assert(buffer@ =~= u16_le(count as u16) + self@.table().subrange(0, 5 * i)) by {
                let table = self@.table();
                let added = seq![entry.type_id] + u32_le((entry.offset + base) as u32);
                assert(buffer@ =~= before + added);
                assert forall|j: int| 0 <= j < 5 implies table[5 * (i - 1) + j] == added[j] by {
                    assert((5 * (i - 1) + j) / 5 == i - 1);
                    assert((5 * (i - 1) + j) % 5 == j);
                }
                assert(table.subrange(0, 5 * i) =~= table.subrange(0, 5 * (i - 1)) + added);
            }
        }
        assert(self@.table().subrange(0, 5 * i) =~= self@.table());
        buffer.extend_from_slice(self.payload.as_slice());
        buffer
    }
}

impl Default for MessageBuilder {
    fn default() -> (b: MessageBuilder)
        ensures
            b@ == BuilderView::empty(),
            b@.wf(),
    {
        MessageBuilder::new()
    }
}

/// Collects the elements of a vector.
#[derive(Debug)]
pub struct VectorBuilder<T> {
    elements: Vec<T>,
}

impl<T> View for VectorBuilder<T> {
    type V = Seq<T>;

    closed spec fn view(&self) -> Seq<T> {
        self.elements@
    }
}

impl<T: ZpWrite> VectorBuilder<T> {
    /// Creates a builder without elements.
    pub fn new() -> (b: VectorBuilder<T>)
        ensures
            b@ == Seq::<T>::empty(),
    {
        VectorBuilder { elements: Vec::new() }
    }

    /// Adds an element at the end.
    pub fn push(&mut self, element: T)
        ensures
            final(self)@ == old(self)@.push(element),
    {
        self.elements.push(element);
    }

    /// The number of elements.
    pub fn len(&self) -> (n: usize)
        ensures
            n == self@.len(),
    {
        self.elements.len()
    }

    /// Whether there is no element.
    pub fn is_empty(&self) -> (b: bool)
        ensures
            b == (self@.len() == 0),
    {
        self.elements.len() == 0
    }

    /// The elements, in the order they were added.
    pub fn finish(self) -> (elements: Vec<T>)
        ensures
            elements@ == self@,
    {
        self.elements
    }
}

impl<T> Default for VectorBuilder<T> {
    fn default() -> (b: VectorBuilder<T>)
        ensures
            b@ == Seq::<T>::empty(),
    {
        VectorBuilder { elements: Vec::new() }
    }
}

} // verus!
