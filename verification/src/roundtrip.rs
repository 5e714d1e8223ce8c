//! What is written is what is read.
//!
//! The theorems here connect the two halves of the codec: the buffer that
//! a builder finishes ([`BuilderView::bytes`]) and the functions of a
//! buffer that the reader computes. A field that was set is read back as
//! it was set, whatever other fields were set before or after it.

use vstd::prelude::*;
use vstd::utf8::{encode_utf8, encode_utf8_decode_utf8, encode_utf8_valid_utf8};
use crate::builder::{
    elements_bytes, entry_byte, header_size, lemma_elements_len, length_prefixed, set_field_spec,
    vector_payload, BuilderView, FieldEntry, MAX_PAYLOAD,
};
use crate::codec::{ZpRead, ZpScalar, ZpType, ZpWrite};
use crate::errors::Error;
use crate::primitives::{
    is_scalar_id, lemma_u16_round_trip, lemma_u32_round_trip, u16_le, u32_from_le, u32_le,
    PrimitiveType,
};
use crate::reader::{
    entry_offset, entry_type_id, field_count_of, field_entry_spec, has_field_spec, locate_body,
    required, try_get_bytes_spec, try_get_message_spec, try_get_scalar_spec, try_get_string_spec,
    try_get_vector_spec, valid_header, vector_elements,
};

verus! {

/// Field `k` of the builder holds the payload `bytes` under the type id
/// `type_id`.
pub open spec fn field_holds(b: BuilderView, k: int, type_id: u8, bytes: Seq<u8>) -> bool {
    &&& 0 <= k < b.entries.len()
    &&& b.entries[k].type_id == type_id
    &&& b.entries[k].offset + bytes.len() <= b.payload.len()
    &&& b.payload.subrange(b.entries[k].offset as int, b.entries[k].offset + bytes.len()) == bytes
}

/// A field holds what it was set to.
pub proof fn lemma_set_holds(b: BuilderView, k: int, type_id: u8, bytes: Seq<u8>)
    requires
        b.wf(),
        0 <= k < 65535,
        b.payload.len() + bytes.len() <= MAX_PAYLOAD,
    ensures
        b.with_field(k, type_id, bytes).wf(),
        field_holds(b.with_field(k, type_id, bytes), k, type_id, bytes),
{
    let after = b.with_field(k, type_id, bytes);
    assert(after.payload.subrange(b.payload.len() as int, b.payload.len() + bytes.len() as int)
        =~= bytes);
}

/// A field keeps what it holds when another field is set.
pub proof fn lemma_set_keeps(
    b: BuilderView,
    j: int,
    other_id: u8,
    other: Seq<u8>,
    k: int,
    type_id: u8,
    bytes: Seq<u8>,
)
    requires
        b.wf(),
        0 <= j < 65535,
        j != k,
        b.payload.len() + other.len() <= MAX_PAYLOAD,
        field_holds(b, k, type_id, bytes),
    ensures
        field_holds(b.with_field(j, other_id, other), k, type_id, bytes),
{
    let after = b.with_field(j, other_id, other);
    let offset = b.entries[k].offset as int;
    assert(after.payload.subrange(offset, offset + bytes.len()) =~= b.payload.subrange(
        offset,
        offset + bytes.len(),
    ));
}

/// The finished buffer holds a valid header that announces the fields of
/// the builder.
pub proof fn lemma_finished_header(b: BuilderView)
    requires
        b.wf(),
    ensures
        b.bytes().len() == header_size(b.entries.len() as int) + b.payload.len(),
        field_count_of(b.bytes()) == b.entries.len(),
        valid_header(b.bytes()),
{
    let n = b.entries.len() as u16;
    lemma_u16_round_trip(n, Seq::empty());
    let buf = b.bytes();
    assert(buf[0] == u16_le(n)[0]);
    assert(buf[1] == u16_le(n)[1]);
}

/// Entry `k` of the table of the finished buffer holds the type id of
/// field `k` and the offset of its payload from the start of the buffer.
pub proof fn lemma_finished_entry(b: BuilderView, k: int)
    requires
        b.wf(),
        0 <= k < b.entries.len(),
    ensures
        entry_type_id(b.bytes(), k) == b.entries[k].type_id,
        entry_offset(b.bytes(), k) == b.entries[k].offset + header_size(b.entries.len() as int),
{
    let buf = b.bytes();
    let table = b.table();
    let base = header_size(b.entries.len() as int);
    let entry = b.entries[k];
    let stored = (entry.offset + base) as u32;
    lemma_u32_round_trip(stored, Seq::empty());
    assert forall|j: int| 0 <= j < 5 implies #[trigger] buf[2 + 5 * k + j] == entry_byte(
        entry,
        base,
        j,
    ) by {
        assert(buf[2 + 5 * k + j] == table[5 * k + j]);
        assert((5 * k + j) / 5 == k);
        assert((5 * k + j) % 5 == j);
    }
    assert(buf[2 + 5 * k + 0] == entry.type_id);
    let word = buf.subrange(3 + 5 * k, 7 + 5 * k);
    assert forall|j: int| 0 <= j < 4 implies word[j] == u32_le(stored)[j] by {
        assert(word[j] == buf[2 + 5 * k + (j + 1)]);
    }
    assert(word =~= u32_le(stored));
}

/// The payload of the builder stands in the finished buffer behind the
/// header and the field table.
pub proof fn lemma_finished_payload(b: BuilderView, from: int, to: int)
    requires
        b.wf(),
        0 <= from <= to <= b.payload.len(),
    ensures
        b.bytes().subrange(
            header_size(b.entries.len() as int) + from,
            header_size(b.entries.len() as int) + to,
        ) == b.payload.subrange(from, to),
{
    let base = header_size(b.entries.len() as int);
    assert(b.bytes().subrange(base + from, base + to) =~= b.payload.subrange(from, to));
}

/// What the reader finds in entry `k` of the finished buffer of a builder
/// whose field `k` holds a payload of a type id in use.
pub proof fn lemma_entry_found(b: BuilderView, k: u16, kind: PrimitiveType, bytes: Seq<u8>)
    requires
        b.wf(),
        kind != PrimitiveType::Unset,
        field_holds(b, k as int, kind.id(), bytes),
    ensures
        field_entry_spec(b.bytes(), k) == Ok::<Option<(PrimitiveType, int)>, Error>(
            Some((kind, b.entries[k as int].offset + header_size(b.entries.len() as int))),
        ),
        has_field_spec(b.bytes(), k),
{
    lemma_finished_header(b);
    lemma_finished_entry(b, k as int);
}

/// The kind whose type id is `id`, for the id of a scalar.
pub open spec fn scalar_kind(id: u8) -> PrimitiveType {
    PrimitiveType::of_id(id)->0
}

/// Reading a scalar from the finished buffer gives the value that the
/// field holds.
pub proof fn lemma_read_scalar<'a, T: ZpScalar<'a>>(b: BuilderView, k: u16, v: T)
    requires
        b.wf(),
        is_scalar_id(T::wire_id()),
        field_holds(b, k as int, T::wire_id(), v.encoding()),
    ensures
        try_get_scalar_spec::<T>(b.bytes(), k) == Ok::<Option<T>, Error>(Some(v)),
{
    let kind = scalar_kind(T::wire_id());
    lemma_entry_found(b, k, kind, v.encoding());
    lemma_finished_header(b);
    v.lemma_encoding_width();
    T::lemma_round_trip(v);
    let offset = b.entries[k as int].offset as int;
    lemma_finished_payload(b, offset, offset + T::wire_width());
}

/// Where the reader finds the body of a length-prefixed payload that a
/// field holds.
pub proof fn lemma_body_found(b: BuilderView, k: u16, kind: PrimitiveType, body: Seq<u8>)
    requires
        b.wf(),
        kind != PrimitiveType::Unset,
        field_holds(b, k as int, kind.id(), length_prefixed(body)),
    ensures
        locate_body(b.bytes(), k, kind) matches Ok(Some((start, length))) && length == body.len()
            && b.bytes().subrange(start, start + length) == body,
{
    lemma_entry_found(b, k, kind, length_prefixed(body));
    lemma_finished_header(b);
    let offset = b.entries[k as int].offset as int;
    let stored = body.len() as u32;
    lemma_u32_round_trip(stored, Seq::empty());
    let whole = length_prefixed(body);
    assert(whole.len() == 4 + body.len());
    lemma_finished_payload(b, offset, offset + 4);
    lemma_finished_payload(b, offset + 4, offset + 4 + body.len());
    assert(b.payload.subrange(offset, offset + 4) =~= whole.subrange(0, 4));
    assert(whole.subrange(0, 4) =~= u32_le(stored));
    assert(b.payload.subrange(offset + 4, offset + 4 + body.len()) =~= whole.subrange(
        4,
        4 + body.len() as int,
    ));
    assert(whole.subrange(4, 4 + body.len() as int) =~= body);
}

/// Reading bytes from the finished buffer gives the bytes that the field
/// holds.
pub proof fn lemma_read_bytes(b: BuilderView, k: u16, body: Seq<u8>)
    requires
        b.wf(),
        field_holds(b, k as int, 12, length_prefixed(body)),
    ensures
        try_get_bytes_spec(b.bytes(), k) == Ok::<Option<Seq<u8>>, Error>(Some(body)),
{
    lemma_body_found(b, k, PrimitiveType::Bytes, body);
}

/// Reading a string from the finished buffer gives the string that the
/// field holds.
pub proof fn lemma_read_string(b: BuilderView, k: u16, text: Seq<char>)
    requires
        b.wf(),
        field_holds(b, k as int, 11, length_prefixed(encode_utf8(text))),
    ensures
        try_get_string_spec(b.bytes(), k) == Ok::<Option<Seq<char>>, Error>(Some(text)),
{
    lemma_body_found(b, k, PrimitiveType::String, encode_utf8(text));
    encode_utf8_valid_utf8(text);
    encode_utf8_decode_utf8(text);
}

/// Reading a nested message from the finished buffer gives the buffer
/// that the field holds, for a buffer with a valid header.
pub proof fn lemma_read_message(b: BuilderView, k: u16, message: Seq<u8>)
    requires
        b.wf(),
        valid_header(message),
        field_holds(b, k as int, 13, length_prefixed(message)),
    ensures
        try_get_message_spec(b.bytes(), k) == Ok::<Option<Seq<u8>>, Error>(Some(message)),
{
    lemma_body_found(b, k, PrimitiveType::Message, message);
}

/// The encoding of element `i` stands at `i` times the width in the
/// encodings of the elements.
pub proof fn lemma_element_at<T: ZpWrite>(values: Seq<T>, i: int)
    requires
        0 <= i < values.len(),
    ensures
        (i + 1) * T::wire_width() <= elements_bytes(values).len(),
        elements_bytes(values).subrange(i * T::wire_width(), (i + 1) * T::wire_width())
            == values[i].encoding(),
    decreases values.len(),
{
    let w = T::wire_width() as int;
    let front = values.drop_last();
    lemma_elements_len(values);
    lemma_elements_len(front);
    values.last().lemma_encoding_width();
    assert((i + 1) * w == i * w + w) by (nonlinear_arith);
    assert(values.len() * w == (values.len() - 1) * w + w) by (nonlinear_arith);
    if i == values.len() - 1 {
        assert(elements_bytes(values).subrange(i * w, (i + 1) * w) =~= values[i].encoding());
    } else {
        lemma_element_at(front, i);
        assert((i + 1) * w <= (values.len() - 1) * w) by (nonlinear_arith)
            requires
                i + 1 <= values.len() - 1,
                w >= 0,
        ;
        assert(elements_bytes(values).subrange(i * w, (i + 1) * w) =~= elements_bytes(
            front,
        ).subrange(i * w, (i + 1) * w));
    }
}

/// Reading a vector from the finished buffer gives the elements that the
/// field holds.
pub proof fn lemma_read_vector<'a, T: ZpScalar<'a>>(b: BuilderView, k: u16, values: Seq<T>)
    requires
        b.wf(),
        field_holds(b, k as int, 14, vector_payload(values)),
    ensures
        try_get_vector_spec::<T>(b.bytes(), k) == Ok::<Option<Seq<T>>, Error>(Some(values)),
{
    let whole = vector_payload(values);
    let w = T::wire_width() as int;
    lemma_entry_found(b, k, PrimitiveType::Vector, whole);
    lemma_finished_header(b);
    lemma_elements_len(values);
    T::lemma_width_positive();
    assert(values.len() <= values.len() * w) by (nonlinear_arith)
        requires
            w >= 1,
    ;
    let base = header_size(b.entries.len() as int);
    let offset = b.entries[k as int].offset as int;
    let stored = values.len() as u32;
    lemma_u32_round_trip(stored, Seq::empty());
    assert(whole.len() == 4 + values.len() * w);
    lemma_finished_payload(b, offset, offset + 4);
    assert(b.payload.subrange(offset, offset + 4) =~= whole.subrange(0, 4));
    assert(whole.subrange(0, 4) =~= u32_le(stored));
    let buf = b.bytes();
    let start = base + offset + 4;
    let read = vector_elements::<T>(buf, start, values.len() as int);
    assert forall|i: int| 0 <= i < values.len() implies read[i] == values[i] by {
        lemma_element_at(values, i);
        T::lemma_round_trip(values[i]);
        assert((i + 1) * w == i * w + w) by (nonlinear_arith);
        assert(i * w >= 0) by (nonlinear_arith)
            requires
                i >= 0,
                w >= 0,
        ;
        lemma_finished_payload(b, offset + 4 + i * w, offset + 4 + (i + 1) * w);
        assert(b.payload.subrange(offset + 4 + i * w, offset + 4 + (i + 1) * w)
            =~= whole.subrange(4 + i * w, 4 + (i + 1) * w));
        assert(whole.subrange(4 + i * w, 4 + (i + 1) * w) =~= elements_bytes(values).subrange(
            i * w,
            (i + 1) * w,
        ));
        assert(buf.subrange(start + i * w, start + (i + 1) * w) == values[i].encoding());
    }
    assert(read =~= values);
}

/// A scalar that is set is read back: after `set_scalar(k, v)` succeeds,
/// `get_scalar` at `k` of the finished buffer is `v`. Floating-point
/// values are carried as bit patterns and so compare by bit pattern.
pub proof fn lemma_scalar_round_trip<'a, T: ZpScalar<'a>>(b: BuilderView, k: u16, v: T)
    requires
        b.wf(),
        set_field_spec(b, k, is_scalar_id(T::wire_id()), T::wire_id(), v.encoding()).0 is Ok,
    ensures
        required(
            try_get_scalar_spec::<T>(
                set_field_spec(b, k, is_scalar_id(T::wire_id()), T::wire_id(), v.encoding()).1.bytes(),
                k,
            ),
        ) == Ok::<T, Error>(v),
{
    lemma_set_holds(b, k as int, T::wire_id(), v.encoding());
    lemma_read_scalar::<T>(b.with_field(k as int, T::wire_id(), v.encoding()), k, v);
}

/// A string that is set is read back: after `set_string(k, s)` succeeds,
/// `get_string` at `k` of the finished buffer has the characters of `s`,
/// and its bytes are bytes of the buffer.
pub proof fn lemma_string_round_trip(b: BuilderView, k: u16, text: Seq<char>)
    requires
        b.wf(),
        set_field_spec(b, k, true, 11, length_prefixed(encode_utf8(text))).0 is Ok,
    ensures
        ({
            let buf = set_field_spec(b, k, true, 11, length_prefixed(encode_utf8(text))).1.bytes();
            &&& required(try_get_string_spec(buf, k)) == Ok::<Seq<char>, Error>(text)
            &&& locate_body(buf, k, PrimitiveType::String) matches Ok(Some((start, length)))
                && 0 <= start && start + length <= buf.len() && buf.subrange(
                start,
                start + length,
            ) == encode_utf8(text)
        }),
{
    let body = encode_utf8(text);
    lemma_set_holds(b, k as int, 11, length_prefixed(body));
    let after = b.with_field(k as int, 11, length_prefixed(body));
    lemma_read_string(after, k, text);
    lemma_body_found(after, k, PrimitiveType::String, body);
}

/// Bytes that are set are read back.
pub proof fn lemma_bytes_round_trip(b: BuilderView, k: u16, body: Seq<u8>)
    requires
        b.wf(),
        set_field_spec(b, k, true, 12, length_prefixed(body)).0 is Ok,
    ensures
        required(
            try_get_bytes_spec(set_field_spec(b, k, true, 12, length_prefixed(body)).1.bytes(), k),
        ) == Ok::<Seq<u8>, Error>(body),
{
    lemma_set_holds(b, k as int, 12, length_prefixed(body));
    lemma_read_bytes(b.with_field(k as int, 12, length_prefixed(body)), k, body);
}

/// A vector that is set is read back: after `set_vector(k, values)`
/// succeeds, the vector at `k` of the finished buffer has exactly the
/// elements of `values`, in order.
pub proof fn lemma_vector_round_trip<'a, T: ZpScalar<'a>>(b: BuilderView, k: u16, values: Seq<T>)
    requires
        b.wf(),
        set_field_spec(b, k, is_scalar_id(T::wire_id()), 14, vector_payload(values)).0 is Ok,
    ensures
        required(
            try_get_vector_spec::<T>(
                set_field_spec(b, k, is_scalar_id(T::wire_id()), 14, vector_payload(values)).1.bytes(),
                k,
            ),
        ) == Ok::<Seq<T>, Error>(values),
{
    lemma_set_holds(b, k as int, 14, vector_payload(values));
    lemma_read_vector::<T>(b.with_field(k as int, 14, vector_payload(values)), k, values);
}

/// A message that is nested is read back: after `set_message(k, m)`
/// succeeds for a buffer `m` with a valid header, the sub-reader at `k` of
/// the finished buffer reads a slice of it whose bytes are those of `m`.
pub proof fn lemma_nesting_round_trip(b: BuilderView, k: u16, message: Seq<u8>)
    requires
        b.wf(),
        valid_header(message),
        set_field_spec(b, k, true, 13, length_prefixed(message)).0 is Ok,
    ensures
        ({
            let buf = set_field_spec(b, k, true, 13, length_prefixed(message)).1.bytes();
            &&& required(try_get_message_spec(buf, k)) == Ok::<Seq<u8>, Error>(message)
            &&& locate_body(buf, k, PrimitiveType::Message) matches Ok(Some((start, length)))
                && buf.subrange(start, start + length) == message
        }),
{
    lemma_set_holds(b, k as int, 13, length_prefixed(message));
    let after = b.with_field(k as int, 13, length_prefixed(message));
    lemma_read_message(after, k, message);
    lemma_body_found(after, k, PrimitiveType::Message, message);
}

/// A scalar that a field holds is still read back after any other field
/// was set.
pub proof fn lemma_scalar_survives<'a, T: ZpScalar<'a>>(
    b: BuilderView,
    k: u16,
    v: T,
    j: u16,
    other_id: u8,
    other: Seq<u8>,
)
    requires
        b.wf(),
        is_scalar_id(T::wire_id()),
        field_holds(b, k as int, T::wire_id(), v.encoding()),
        j != k,
        j < 65535,
        b.payload.len() + other.len() <= MAX_PAYLOAD,
    ensures
        try_get_scalar_spec::<T>(b.with_field(j as int, other_id, other).bytes(), k) == Ok::<
            Option<T>,
            Error,
        >(Some(v)),
{
    lemma_set_holds(b, j as int, other_id, other);
    lemma_set_keeps(b, j as int, other_id, other, k as int, T::wire_id(), v.encoding());
    lemma_read_scalar::<T>(b.with_field(j as int, other_id, other), k, v);
}

} // verus!
