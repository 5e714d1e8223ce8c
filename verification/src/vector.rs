//! A vector container and the vector payload outside of a message.

use vstd::prelude::*;
use crate::builder::{elements_bytes, lemma_elements_len, vector_payload};
use crate::codec::{ZpRead, ZpType, ZpWrite};
use crate::errors::Error;
use crate::primitives::{lemma_u32_round_trip, splice, u32_from_le, u32_le, Endian};
use crate::reader::vector_elements;

verus! {

/// A growable sequence of elements.
#[derive(Debug, Clone)]
pub struct Vector<T> {
    pub elements: Vec<T>,
}

impl<T> View for Vector<T> {
    type V = Seq<T>;

    open spec fn view(&self) -> Seq<T> {
        self.elements@
    }
}

impl<T> Vector<T> {
    /// Creates an empty vector.
    pub fn new() -> (v: Vector<T>)
        ensures
            v@ == Seq::<T>::empty(),
    {
        Vector { elements: Vec::new() }
    }

    /// Creates an empty vector with room for `capacity` elements.
    pub fn with_capacity(capacity: usize) -> (v: Vector<T>)
        ensures
            v@ == Seq::<T>::empty(),
    {
        Vector { elements: Vec::with_capacity(capacity) }
    }

    /// The number of elements.
    pub fn len(&self) -> (n: usize)
        ensures
            n == self@.len(),
    {
        self.elements.len()
    }

    /// Whether there is no element.
    pub fn is_empty(&self) -> (b: bool)
        ensures
            b == (self@.len() == 0),
    {
        self.elements.len() == 0
    }

    /// An iterator over the elements, in order.
    pub fn iter(&self) -> (it: core::slice::Iter<'_, T>)
        ensures
            vstd::std_specs::slice::into_iter_elts(it) == self@,
    {
        let slice = self.elements.as_slice();
        let it = slice.iter();
        proof {
            vstd::std_specs::slice::axiom_spec_slice_iter(slice);
        }
        it
    }

    /// The element at `index`, `None` for an index that is not below the
    /// number of elements.
    pub fn get(&self, index: usize) -> (r: Option<&T>)
        ensures
            index < self@.len() ==> r == Some(&self@[index as int]),
            index >= self@.len() ==> r is None,
    {
        if index < self.elements.len() {
            Some(&self.elements[index])
        } else {
            None
        }
    }

    /// The element at `index`, to be written to; `None` for an index that
    /// is not below the number of elements.
    pub fn get_mut(&mut self, index: usize) -> (r: Option<&mut T>)
        ensures
            index >= old(self)@.len() ==> r is None && final(self)@ == old(self)@,
            index < old(self)@.len() ==> (r matches Some(element) && *element == old(
                self,
            )@[index as int] && final(self)@ == old(self)@.update(index as int, *final(element))),
    {
        if index < self.elements.len() {
            Some(&mut self.elements[index])
        } else {
            None
        }
    }

    /// Adds an element at the end.
    pub fn push(&mut self, element: T)
        ensures
            final(self)@ == old(self)@.push(element),
    {
        self.elements.push(element);
    }

    /// Removes the last element and returns it, `None` for an empty
    /// vector.
    pub fn pop(&mut self) -> (r: Option<T>)
        ensures
            old(self)@.len() == 0 ==> r is None && final(self)@ == old(self)@,
            old(self)@.len() > 0 ==> r == Some(old(self)@.last()) && final(self)@ == old(
                self,
            )@.drop_last(),
    {
        self.elements.pop()
    }

    /// Removes all elements.
    pub fn clear(&mut self)
        ensures
            final(self)@ == Seq::<T>::empty(),
    {
        self.elements.clear();
    }

    /// The elements as a `Vec`.
    pub fn into_vec(self) -> (v: Vec<T>)
        ensures
            v@ == self@,
    {
        self.elements
    }

    /// The elements as a slice.
    pub fn as_slice(&self) -> (s: &[T])
        ensures
            s@ == self@,
    {
        self.elements.as_slice()
    }

    /// The elements as a slice that can be written to.
    pub fn as_mut_slice(&mut self) -> (s: &mut [T])
        ensures
            s@ == old(self)@,
            final(s)@ == final(self)@,
    {
        self.elements.as_mut_slice()
    }
}

impl<T> Default for Vector<T> {
    fn default() -> (v: Vector<T>)
        ensures
            v@ == Seq::<T>::empty(),
    {
        Vector::new()
    }
}

impl<T> From<Vec<T>> for Vector<T> {
    fn from(elements: Vec<T>) -> (v: Vector<T>) {
        Vector { elements }
    }
}

impl<T> vstd::std_specs::convert::FromSpecImpl<Vec<T>> for Vector<T> {
    open spec fn obeys_from_spec() -> bool {
        true
    }

    open spec fn from_spec(elements: Vec<T>) -> Vector<T> {
        Vector { elements }
    }
}

/// The elements of the vector payload at `offset` of `buf` and the number
/// of bytes it takes, `None` where the count or the elements end behind
/// the buffer.
pub open spec fn read_vector_spec<'a, T: ZpRead<'a>>(buf: Seq<u8>, offset: int) -> Option<
    (Seq<T>, int),
> {
    if offset + 4 > buf.len() {
        None
    } else {
        let count = u32_from_le(buf.subrange(offset, offset + 4)) as int;
        if offset + 4 + count * T::wire_width() > buf.len() {
            None
        } else {
            Some((vector_elements::<T>(buf, offset + 4, count), 4 + count * T::wire_width()))
        }
    }
}

/// The vector payload on its own: the number of elements as four bytes,
/// then the elements.
pub struct VectorUtils;

impl VectorUtils {
    /// The number of bytes that the payload of a vector of `elements`
    /// takes.
    pub fn calculate_serialized_size<T: ZpWrite>(elements: &[T]) -> (n: usize)
        requires
            4 + elements@.len() * T::wire_width() <= usize::MAX,
        ensures
            n == 4 + elements@.len() * T::wire_width(),
            elements@.len() <= u32::MAX ==> n == vector_payload(elements@).len(),
    {
        proof {
            lemma_elements_len(elements@);
        }
        if elements.len() == 0 {
            assert(elements@.len() * T::wire_width() == 0) by (nonlinear_arith)
                requires
                    elements@.len() == 0,
            ;
            4
        } else {
            4 + elements.len() * elements[0].size()
        }
    }

    /// Writes the payload of a vector of `elements` at `offset` and
    /// returns the number of bytes written. Fails with `OutOfBounds`, and
    /// leaves the buffer as it was, where the payload does not fit or
    /// there are more elements than four bytes can count.
    pub fn write_vector<T: ZpWrite>(elements: &[T], buffer: &mut [u8], offset: usize) -> (r: Result<
        usize,
        Error,
    >)
        ensures
            ({
                let payload = vector_payload(elements@);
                let fits = elements@.len() <= u32::MAX && offset + payload.len() <= old(
                    buffer,
                )@.len();
                &&& fits ==> r == Ok::<usize, Error>(payload.len() as usize) && final(buffer)@
                    == splice(old(buffer)@, offset as int, payload)
                &&& !fits ==> r == Err::<usize, Error>(Error::OutOfBounds) && final(buffer)@
                    == old(buffer)@
            }),
    {
        let count = elements.len();
        let size = buffer.len();
        let width = if count == 0 {
            0
        } else {
            elements[0].size()
        };
        proof {
            lemma_elements_len(elements@);
            if count == 0 {
                assert(elements@.len() * T::wire_width() == 0) by (nonlinear_arith)
                    requires
                        elements@.len() == 0,
                ;
            }
        }
        let fits = count as u64 <= 0xffff_ffff && offset <= size && size - offset >= 4
            && match count.checked_mul(width) {
            Some(body) => body <= size - offset - 4,
            None => false,
        };
        if !fits {
            return Err(Error::OutOfBounds);
        }
        Endian::Little.write_u32(count as u32, buffer, offset);
        let ghost prefix = u32_le(count as u32);
        let mut current = offset + 4;
        let mut i: usize = 0;
        while i < count
            invariant
                i <= count == elements@.len(),
                count <= u32::MAX,
                prefix == u32_le(count as u32),
                buffer@.len() == old(buffer)@.len(),
                size == buffer@.len(),
                offset + 4 + count * T::wire_width() <= buffer@.len(),
                current == offset + 4 + i * T::wire_width(),
                buffer@ == splice(
                    old(buffer)@,
                    offset as int,
                    prefix + elements_bytes(elements@.take(i as int)),
                ),
            decreases count - i,
        {
            proof {
                lemma_elements_len(elements@.take(i as int));
                elements@[i as int].lemma_encoding_width();
                assert((i + 1) * T::wire_width() <= count * T::wire_width()) by (nonlinear_arith)
                    requires
                        i + 1 <= count,
                ;
                assert((i + 1) * T::wire_width() == i * T::wire_width() + T::wire_width())
                    by (nonlinear_arith);
                assert(elements@.take(i + 1).drop_last() =~= elements@.take(i as int));
            }
            let _ = elements[i].write(buffer, current);
            current += elements[i].size();
            i += 1;
        }
        assert(elements@.take(i as int) =~= elements@);
        Ok(current - offset)
    }

    /// Reads the payload of a vector at `offset`: the elements and the
    /// number of bytes read. Fails with `OutOfBounds` where the count or
    /// the elements end behind the buffer.
    pub fn read_vector<'a, T: ZpRead<'a>>(buffer: &'a [u8], offset: usize) -> (r: Result<
        (Vec<T>, usize),
        Error,
    >)
        ensures
            match read_vector_spec::<T>(buffer@, offset as int) {
                Some((values, read)) => r matches Ok((elements, n)) && elements@ == values && n
                    == read,
                None => r matches Err(e) && e == Error::OutOfBounds,
            },
    {
        let size = buffer.len();
        if offset > size || size - offset < 4 {
            return Err(Error::OutOfBounds);
        }
        let count = Endian::Little.read_u32(buffer, offset) as usize;
        let width = T::size();
        let fits = match count.checked_mul(width) {
            Some(body) => body <= size - offset - 4,
            None => false,
        };
        if !fits {
            return Err(Error::OutOfBounds);
        }
        let start = offset + 4;
        let mut elements: Vec<T> = Vec::with_capacity(count);
        let mut i: usize = 0;
        while i < count
            invariant
                i <= count,
                width == T::wire_width(),
                size == buffer@.len(),
                start == offset + 4,
                start + count * width <= buffer@.len(),
                elements@.len() == i,
                forall|j: int|
                    0 <= j < i ==> elements@[j] == vector_elements::<T>(
                        buffer@,
                        start as int,
                        count as int,
                    )[j],
            decreases count - i,
        {
            proof {
                assert((i + 1) * width <= count * width) by (nonlinear_arith)
                    requires
                        i + 1 <= count,
                ;
                assert((i + 1) * width == i * width + width) by (nonlinear_arith);
                assert(i * width >= 0) by (nonlinear_arith)
                    requires
                        i >= 0,
                        width >= 0,
                ;
            }
            match T::read(buffer, start + i * width) {
                Ok(element) => {
                    elements.push(element);
                },
                Err(e) => {
                    return Err(e);
                },
            }
            i += 1;
        }
        Ok((elements, 4 + count * width))
    }
}

} // verus!
