//! Fixed-capacity collections used inside TLV messages.
//!
//! `FixedVec<T, N>` and `FixedStr<N>` keep all of their storage inline
//! (`N` slots) and track how many of those slots are in use.  Unused slots
//! hold default values (zero for bytes) so that the wire image of a value is
//! deterministic.
use vstd::prelude::*;
use vstd::utf8::valid_utf8;
use vstd::string::StringSliceAdditionalSpecFns;
use vstd::bytes::*;
use crate::wire::{all_zero, append_bytes, append_u16, append_zeros, check_zero, lemma_le_roundtrip, zeros};
use crate::text::{decimal, push_decimal, push_str};

verus! {

/// Largest number of pool addresses carried in one message.
pub const MAX_POOL_ADDRESSES: usize = 4;

/// Largest symbol length carried in one message.
pub const MAX_SYMBOL_LENGTH: usize = 32;

/// Error type for fixed collection operations.
#[derive(Debug, Clone, PartialEq, Eq, Structural)]
pub enum FixedVecError {
    /// Attempted to insert more elements than the capacity allows.
    CapacityExceeded { max_capacity: usize, attempted: usize },
    /// A slice or string was longer than the capacity.
    InvalidLength { expected_max: usize, got: usize },
}

/// The text of a fixed collection error.
pub open spec fn fixed_vec_error_text(e: FixedVecError) -> Seq<char> {
    match e {
        FixedVecError::CapacityExceeded { max_capacity, attempted } => "Capacity exceeded: max="@
            + decimal(max_capacity as nat) + ", attempted="@ + decimal(attempted as nat),
        FixedVecError::InvalidLength { expected_max, got } => "Invalid length: expected max "@
            + decimal(expected_max as nat) + ", got "@ + decimal(got as nat),
    }
}

impl FixedVecError {
    /// Text of the error.
    pub fn to_string(&self) -> (r: String)
        ensures
            r@ == fixed_vec_error_text(*self),
    {
        let mut s = String::new();
        match self {
            FixedVecError::CapacityExceeded { max_capacity, attempted } => {
                push_str(&mut s, "Capacity exceeded: max=");
                push_decimal(&mut s, *max_capacity as u64);
                push_str(&mut s, ", attempted=");
                push_decimal(&mut s, *attempted as u64);
            },
            FixedVecError::InvalidLength { expected_max, got } => {
                push_str(&mut s, "Invalid length: expected max ");
                push_decimal(&mut s, *expected_max as u64);
                push_str(&mut s, ", got ");
                push_decimal(&mut s, *got as u64);
            },
        }
        proof {
            assert(Seq::<char>::empty() + "Capacity exceeded: max="@ =~= "Capacity exceeded: max="@);
            assert(Seq::<char>::empty() + "Invalid length: expected max "@
                =~= "Invalid length: expected max "@);
        }
        s
    }
}

/// Fixed-capacity vector: a count, six padding bytes and `N` inline slots,
/// of which the first `count` hold the elements. A value read from the wire
/// may carry any count; the slice accessors need it within `N`.
#[derive(Debug)]
pub struct FixedVec<T: Copy, const N: usize> {
    count: u16,
    padding: [u8; 6],
    elements: Vec<T>,
}

impl<T: Copy, const N: usize> View for FixedVec<T, N> {
    type V = Seq<T>;

    /// The valid elements, in order (all slots when the count is beyond
    /// them).
    closed spec fn view(&self) -> Seq<T> {
        if self.count as int <= self.elements@.len() {
            self.elements@.take(self.count as int)
        } else {
            self.elements@
        }
    }
}

impl<T: Copy, const N: usize> FixedVec<T, N> {
    /// Well-formedness: `N` slots.
    pub closed spec fn wf(&self) -> bool {
        self.elements@.len() == N
    }

    /// The count field as stored.
    pub closed spec fn length_field(&self) -> nat {
        self.count as nat
    }

    /// The count is within the `N` slots.
    pub open spec fn in_bounds(&self) -> bool {
        self.length_field() <= N
    }

    /// The six padding bytes.
    pub closed spec fn pad(&self) -> Seq<u8> {
        self.padding@
    }


    /// All `N` slots, the unused ones included.
    pub closed spec fn slots(&self) -> Seq<T> {
        self.elements@
    }

    /// Every slot past the length holds a value that `T::default()` gives
    /// (zero for the integer types): unused slots are kept zeroed.
    pub open spec fn unused_default(&self) -> bool
        where T: Default,
    {
        forall|i: int|
            self.view().len() <= i < self.slots().len() ==> call_ensures(
                T::default,
                (),
                #[trigger] self.slots()[i],
            )
    }

    /// Creates an empty vector whose `N` slots hold `T::default()`.
    pub fn new() -> (r: Self)
        where T: Default,
        ensures
            r.wf(),
            r.in_bounds(),
            r.view() == Seq::<T>::empty(),
            r.slots().len() == N,
            r.pad() == zeros(6),
            r.unused_default(),
    {
        let mut elements: Vec<T> = Vec::new();
        let mut i: usize = 0;
        while i < N
            invariant
                i <= N,
                elements@.len() == i,
                forall|k: int| 0 <= k < i ==> call_ensures(T::default, (), #[trigger] elements@[k]),
            decreases N - i,
        {
            elements.push(T::default());
            i = i + 1;
        }
        let r = FixedVec { count: 0, padding: [0u8; 6], elements };
        proof {
            assert(r.pad() =~= zeros(6));
        }
        r
    }

    /// All `N` slots, the unused ones included.
    pub fn as_array(&self) -> (r: &[T])
        requires
            self.wf(),
        ensures
            r@ == self.slots(),
    {
        self.elements.as_slice()
    }

    /// Overwrites slot `index` (used for direct construction before `set_count`).
    pub fn as_array_mut(&mut self, index: usize, value: T)
        requires
            old(self).wf(),
            index < N,
        ensures
            final(self).wf(),
            final(self).slots() == old(self).slots().update(index as int, value),
            final(self).view().len() == old(self).view().len(),
            final(self).length_field() == old(self).length_field(),
            final(self).pad() == old(self).pad(),
    {
        self.elements.set(index, value);
    }

    /// Sets the number of valid elements (the first `count` slots) and
    /// resets the slots past them to `T::default()`.
    pub fn set_count(&mut self, count: usize)
        where T: Default,
        requires
            old(self).wf(),
            count <= N,
        ensures
            final(self).wf(),
            final(self).view().len() == (count as u16) as int,
            final(self).view() == old(self).slots().take((count as u16) as int),
            final(self).slots().len() == N,
            final(self).in_bounds(),
            final(self).pad() == old(self).pad(),
            final(self).unused_default(),
    {
        let c: u16 = if count < N { count as u16 } else { N as u16 };
        proof {
            assert(c as int <= N) by {
                if count < N {
                } else {
                    assert(count == N);
                }
            }
            if count >= N {
                assert(count == N);
            }
            assert(c == count as u16);
        }
        let mut i: usize = c as usize;
        while i < N
            invariant
                c <= i <= N,
                self.elements@.len() == N,
                self.padding == old(self).padding,
                forall|k: int| 0 <= k < c ==> self.elements@[k] == old(self).elements@[k],
                forall|k: int| c <= k < i ==> call_ensures(T::default, (), #[trigger] self.elements@[k]),
            decreases N - i,
        {
            self.elements.set(i, T::default());
            i = i + 1;
        }
        self.count = c;
        proof {
            assert(self.view() =~= old(self).slots().take(c as int));
        }
    }

    /// Appends `element` if a slot is free.
    pub fn try_push(&mut self, element: T) -> (r: Result<(), FixedVecError>)
        where T: Default,
        requires
            old(self).wf(),
            old(self).length_field() < u16::MAX || old(self).length_field() >= N,
        ensures
            final(self).wf(),
            old(self).length_field() < N ==> r is Ok && final(self).view() == old(self).view().push(
                element,
            ) && final(self).slots() == old(self).slots().update(
                old(self).length_field() as int,
                element,
            ) && final(self).length_field() == old(self).length_field() + 1,
            old(self).length_field() >= N ==> r == Err::<(), FixedVecError>(
                FixedVecError::CapacityExceeded {
                    max_capacity: N,
                    attempted: (old(self).length_field() + 1) as usize,
                },
            ) && final(self).slots() == old(self).slots() && final(self).length_field() == old(
                self,
            ).length_field(),
            final(self).pad() == old(self).pad(),
            final(self).slots().len() == N,
            old(self).in_bounds() ==> final(self).in_bounds(),
            old(self).unused_default() ==> final(self).unused_default(),
    {
        let count = self.count;
        if count as usize >= N {
            return Err(FixedVecError::CapacityExceeded {
                max_capacity: N,
                attempted: count as usize + 1,
            });
        }
        self.elements.set(count as usize, element);
        self.count = count + 1;
        proof {
            assert(self.view() =~= old(self).view().push(element));
            if old(self).unused_default() {
                assert forall|k: int| self.view().len() <= k < self.slots().len() implies call_ensures(
                    T::default,
                    (),
                    #[trigger] self.slots()[k],
                ) by {
                    assert(self.slots()[k] == old(self).slots()[k]);
                }
            }
        }
        Ok(())
    }

    /// Removes every element and resets all slots to `T::default()`.
    pub fn clear(&mut self)
        where T: Default,
        ensures
            final(self).wf(),
            final(self).view() == Seq::<T>::empty(),
            final(self).in_bounds(),
            final(self).slots().len() == N,
            final(self).pad() == zeros(6),
            final(self).unused_default(),
    {
        *self = Self::new();
    }

    /// The capacity `N`.
    pub fn capacity() -> (r: usize)
        ensures
            r == N,
    {
        N
    }

    /// Number of valid elements: the count field.
    pub fn len(&self) -> (r: usize)
        ensures
            r == self.length_field(),
            self.wf() && self.in_bounds() ==> r == self.view().len(),
    {
        self.count as usize
    }

    /// True when no element is stored.
    pub fn is_empty(&self) -> (r: bool)
        ensures
            r == (self.length_field() == 0),
    {
        self.count == 0
    }

    /// Element at `index`, if `index` is below the count (which must then be
    /// a slot).
    pub fn get(&self, index: usize) -> (r: Option<&T>)
        requires
            self.wf(),
            index < self.length_field() ==> index < N,
        ensures
            index < self.length_field() ==> r == Some(&self.slots()[index as int]),
            self.in_bounds() && index < self.view().len() ==> r == Some(&self.view()[index as int]),
            index >= self.length_field() ==> r is None,
    {
        if index < self.count as usize {
            Some(&self.elements[index])
        } else {
            None
        }
    }

    /// The valid elements as a slice.
    pub fn as_slice(&self) -> (r: &[T])
        requires
            self.wf(),
            self.in_bounds(),
        ensures
            r@ == self.view(),
    {
        let n = self.count as usize;
        let s = self.elements.as_slice();
        &s[0..n]
    }

    /// Builds a vector holding the elements of `slice`.
    ///
    /// Fails with `InvalidLength` when the slice is longer than `N`.
    pub fn from_slice(slice: &[T]) -> (r: Result<Self, FixedVecError>)
        where T: Default,
        ensures
            slice@.len() > N ==> r == Err::<Self, FixedVecError>(FixedVecError::InvalidLength {
                expected_max: N,
                got: slice@.len() as usize,
            }),
            slice@.len() <= N ==> r is Ok && r->Ok_0.wf() && r->Ok_0.view() == slice@.take(
                (slice@.len() as u16) as int,
            ) && r->Ok_0.in_bounds() && r->Ok_0.pad() == zeros(6),
            slice@.len() <= N && slice@.len() <= u16::MAX ==> r is Ok && r->Ok_0.unused_default(),
    {
        if slice.len() > N {
            return Err(FixedVecError::InvalidLength { expected_max: N, got: slice.len() });
        }
        let base = Self::new();
        let ghost base_slots = base.slots();
        let padding = base.padding;
        let mut elements = base.elements;
        let mut i: usize = 0;
        while i < slice.len()
            invariant
                i <= slice@.len(),
                slice@.len() <= N,
                elements@.len() == N,
                base_slots.len() == N,
                forall|j: int| 0 <= j < i ==> elements@[j] == slice@[j],
                forall|j: int| i <= j < N ==> elements@[j] == base_slots[j],
                forall|j: int| 0 <= j < N ==> call_ensures(T::default, (), #[trigger] base_slots[j]),
            decreases slice@.len() - i,
        {
            elements.set(i, slice[i]);
            i = i + 1;
        }
        let r = FixedVec { count: slice.len() as u16, padding, elements };
        proof {
            if slice@.len() > u16::MAX {
                assert(r.count <= u16::MAX);
            }
            assert(r.view() =~= slice@.take((slice@.len() as u16) as int));
            if slice@.len() <= u16::MAX {
                assert forall|k: int| r.view().len() <= k < r.slots().len() implies call_ensures(
                    T::default,
                    (),
                    #[trigger] r.slots()[k],
                ) by {
                    assert(r.slots()[k] == base_slots[k]);
                }
            }
        }
        Ok(r)
    }

    /// Copies the valid elements into a new `Vec`.
    pub fn to_vec(&self) -> (r: Vec<T>)
        requires
            self.wf(),
            self.in_bounds(),
        ensures
            r@ == self.view(),
    {
        let s = self.as_slice();
        let mut out: Vec<T> = Vec::new();
        let mut i: usize = 0;
        while i < s.len()
            invariant
                i <= s@.len(),
                out@ == s@.take(i as int),
            decreases s@.len() - i,
        {
            out.push(s[i]);
            i = i + 1;
            proof {
                assert(out@ =~= s@.take(i as int));
            }
        }
        proof {
            assert(s@.take(s@.len() as int) =~= s@);
        }
        out
    }
}

impl<T: Copy, const N: usize> Clone for FixedVec<T, N> {
    /// Copies every slot, the count and the padding.
    fn clone(&self) -> (r: Self)
        ensures
            r.wf() == self.wf(),
            r.view() == self.view(),
            r.slots() == self.slots(),
            r.length_field() == self.length_field(),
            r.pad() == self.pad(),
    {
        let mut elements: Vec<T> = Vec::new();
        let mut i: usize = 0;
        while i < self.elements.len()
            invariant
                i <= self.elements@.len(),
                elements@ == self.elements@.take(i as int),
            decreases self.elements@.len() - i,
        {
            elements.push(self.elements[i]);
            i = i + 1;
            proof { assert(elements@ =~= self.elements@.take(i as int)); }
        }
        proof { assert(elements@ =~= self.elements@); }
        FixedVec { count: self.count, padding: self.padding, elements }
    }
}

/// Law: a slice that fits comes back unchanged from `from_slice` followed by
/// `to_vec`.
pub proof fn lemma_from_slice_to_vec<T: Copy, const N: usize>(
    slice: Seq<T>,
    v: FixedVec<T, N>,
)
    requires
        slice.len() <= N,
        slice.len() <= u16::MAX,
        v.view() == slice.take((slice.len() as u16) as int),
    ensures
        v.view() == slice,
{
    assert(slice.take(slice.len() as int) =~= slice);
}

/// Fixed-capacity UTF-8 string: a length, six padding bytes and `N` inline
/// bytes, of which the first `len` hold the text. A value read from the wire
/// may carry any length; the text accessors need it within `N`.
#[derive(Debug)]
pub struct FixedStr<const N: usize> {
    len: u16,
    padding: [u8; 6],
    data: Vec<u8>,
}

impl<const N: usize> View for FixedStr<N> {
    type V = Seq<u8>;

    /// The stored bytes (all of them when the length is beyond them).
    closed spec fn view(&self) -> Seq<u8> {
        if self.len as int <= self.data@.len() {
            self.data@.take(self.len as int)
        } else {
            self.data@
        }
    }
}

impl<const N: usize> FixedStr<N> {
    /// Well-formedness: `N` bytes of storage.
    pub closed spec fn wf(&self) -> bool {
        self.data@.len() == N
    }

    /// The length field as stored.
    pub closed spec fn length_field(&self) -> nat {
        self.len as nat
    }

    /// The length is within the `N` bytes.
    pub open spec fn in_bounds(&self) -> bool {
        self.length_field() <= N
    }

    /// The six padding bytes.
    pub closed spec fn pad(&self) -> Seq<u8> {
        self.padding@
    }

    /// All `N` bytes of storage, the unused ones included.
    pub closed spec fn slots(&self) -> Seq<u8> {
        self.data@
    }

    /// Creates an empty string with all bytes zeroed.
    pub fn new() -> (r: Self)
        ensures
            r.wf(),
            r.in_bounds(),
            r.view() == Seq::<u8>::empty(),
            r.slots() == Seq::new(N as nat, |i: int| 0u8),
            r.pad() == zeros(6),
    {
        let mut data: Vec<u8> = Vec::new();
        let mut i: usize = 0;
        while i < N
            invariant
                i <= N,
                data@ == Seq::new(i as nat, |k: int| 0u8),
            decreases N - i,
        {
            data.push(0u8);
            i = i + 1;
            proof {
                assert(data@ =~= Seq::new(i as nat, |k: int| 0u8));
            }
        }
        let r = FixedStr { len: 0, padding: [0u8; 6], data };
        proof {
            assert(r.pad() =~= zeros(6));
        }
        r
    }

    /// Builds a string holding the UTF-8 bytes of `s`; unused bytes are zero.
    ///
    /// Fails with `InvalidLength` when `s` needs more than `N` bytes.
    pub fn from_str(s: &str) -> (r: Result<Self, FixedVecError>)
        ensures
            s.spec_bytes().len() > N ==> r == Err::<Self, FixedVecError>(FixedVecError::InvalidLength {
                expected_max: N,
                got: s.spec_bytes().len() as usize,
            }),
            s.spec_bytes().len() <= N ==> r is Ok && r->Ok_0.wf() && r->Ok_0.view() == s.spec_bytes().take(
                (s.spec_bytes().len() as u16) as int,
            ) && r->Ok_0.in_bounds() && r->Ok_0.pad() == zeros(6),
    {
        let bytes = s.as_bytes();
        let n = bytes.len();
        if n > N {
            return Err(FixedVecError::InvalidLength { expected_max: N, got: n });
        }
        let base = Self::new();
        let padding = base.padding;
        let mut data = base.data;
        let mut i: usize = 0;
        while i < n
            invariant
                i <= n,
                n == bytes@.len(),
                n <= N,
                data@.len() == N,
                forall|j: int| 0 <= j < i ==> data@[j] == bytes@[j],
            decreases n - i,
        {
            data.set(i, bytes[i]);
            i = i + 1;
        }
        let r = FixedStr { len: n as u16, padding, data };
        proof {
            if n > u16::MAX {
                assert(r.len <= u16::MAX);
            }
            assert(r.view() =~= bytes@.take((n as u16) as int));
        }
        Ok(r)
    }

    /// The stored text, when the stored bytes are valid UTF-8.
    pub fn as_str(&self) -> (r: Result<&str, std::str::Utf8Error>)
        requires
            self.wf(),
            self.in_bounds(),
        ensures
            r is Ok <==> valid_utf8(self.view()),
            r matches Ok(t) ==> t.spec_bytes() == self.view(),
    {
        let n = self.len as usize;
        let s = self.data.as_slice();
        crate::text::utf8_from_bytes(&s[0..n])
    }

    /// The stored bytes.
    pub fn as_bytes(&self) -> (r: &[u8])
        requires
            self.wf(),
            self.in_bounds(),
        ensures
            r@ == self.view(),
    {
        let n = self.len as usize;
        let s = self.data.as_slice();
        &s[0..n]
    }

    /// Number of stored bytes: the length field.
    pub fn len(&self) -> (r: usize)
        ensures
            r == self.length_field(),
            self.wf() && self.in_bounds() ==> r == self.view().len(),
    {
        self.len as usize
    }

    /// True when no byte is stored.
    pub fn is_empty(&self) -> (r: bool)
        ensures
            r == (self.length_field() == 0),
    {
        self.len == 0
    }

    /// The capacity `N` in bytes.
    pub fn capacity() -> (r: usize)
        ensures
            r == N,
    {
        N
    }
}

impl<const N: usize> Clone for FixedStr<N> {
    /// Copies every byte, the length and the padding.
    fn clone(&self) -> (r: Self)
        ensures
            r.wf() == self.wf(),
            r.view() == self.view(),
            r.slots() == self.slots(),
            r.length_field() == self.length_field(),
            r.pad() == self.pad(),
    {
        let mut data: Vec<u8> = Vec::new();
        let mut i: usize = 0;
        while i < self.data.len()
            invariant
                i <= self.data@.len(),
                data@ == self.data@.take(i as int),
            decreases self.data@.len() - i,
        {
            data.push(self.data[i]);
            i = i + 1;
            proof { assert(data@ =~= self.data@.take(i as int)); }
        }
        proof { assert(data@ =~= self.data@); }
        FixedStr { len: self.len, padding: self.padding, data }
    }
}


impl<const N: usize> FixedStr<N> {
    /// Wire image: the length (`u16` little-endian), the six padding bytes,
    /// then all `N` bytes of storage.
    pub closed spec fn wire(&self) -> Seq<u8> {
        spec_u16_to_le_bytes(self.len) + self.padding@ + self.data@
    }

    /// True when `bytes` is the wire image of some `FixedStr<N>`: exactly
    /// when it has its size.
    pub open spec fn wire_ok(bytes: Seq<u8>) -> bool {
        bytes.len() == 8 + N
    }

    /// The wire image of a well-formed value has `8 + N` bytes.
    pub proof fn lemma_wire(&self)
        requires
            self.wf(),
        ensures
            Self::wire_ok(self.wire()),
            self.wire().len() == 8 + N,
    {
        lemma_le_roundtrip();
    }

    /// Two well-formed values with the same wire image hold the same
    /// length, padding and storage.
    pub proof fn lemma_wire_injective(a: Self, b: Self)
        requires
            a.wf(),
            b.wf(),
            a.wire() == b.wire(),
        ensures
            a.view() == b.view(),
            a.slots() == b.slots(),
            a.length_field() == b.length_field(),
            a.pad() == b.pad(),
    {
        lemma_le_roundtrip();
        assert(a.wire().subrange(0, 2) =~= spec_u16_to_le_bytes(a.len));
        assert(b.wire().subrange(0, 2) =~= spec_u16_to_le_bytes(b.len));
        assert(a.wire().subrange(2, 8) =~= a.padding@);
        assert(b.wire().subrange(2, 8) =~= b.padding@);
        assert(a.wire().subrange(8, 8 + N as int) =~= a.data@);
        assert(b.wire().subrange(8, 8 + N as int) =~= b.data@);
        assert(a.padding@ =~= b.padding@);
    }

    /// Appends the wire image to `out`.
    pub fn write_wire(&self, out: &mut Vec<u8>)
        requires
            self.wf(),
        ensures
            final(out)@ == old(out)@ + self.wire(),
    {
        append_u16(out, self.len);
        append_bytes(out, self.padding.as_slice());
        append_bytes(out, self.data.as_slice());
        proof {
            assert(final(out)@ =~= old(out)@ + self.wire());
        }
    }

    /// Parses a wire image; `None` exactly when `bytes` does not have its
    /// size. Any length and padding are kept as they are.
    pub fn read_wire(bytes: &[u8]) -> (r: Option<Self>)
        ensures
            r is Some <==> Self::wire_ok(bytes@),
            r matches Some(v) ==> v.wf() && v.wire() == bytes@,
    {
        let total = bytes.len();
        if total < 8 || total - 8 != N {
            return None;
        }
        let len = crate::wire::read_u16(bytes, 0);
        let padding: [u8; 6] = [bytes[2], bytes[3], bytes[4], bytes[5], bytes[6], bytes[7]];
        let mut data: Vec<u8> = Vec::new();
        append_bytes(&mut data, &bytes[8..total]);
        let r = FixedStr { len, padding, data };
        proof {
            lemma_le_roundtrip();
            assert(spec_u16_to_le_bytes(len) =~= bytes@.subrange(0, 2));
            assert(padding@ =~= bytes@.subrange(2, 8));
            assert(r.wire() =~= bytes@);
        }
        Some(r)
    }
}

/// Flattened storage of a vector of 20-byte items.
pub open spec fn flat20(s: Seq<[u8; 20]>) -> Seq<u8> {
    Seq::new(20 * s.len(), |k: int| s[k / 20]@[k % 20])
}

impl<const N: usize> FixedVec<[u8; 20], N> {
    /// Wire image: the count (`u16` little-endian), the six padding bytes,
    /// then all `N` slots of 20 bytes each.
    pub closed spec fn wire(&self) -> Seq<u8> {
        spec_u16_to_le_bytes(self.count) + self.padding@ + flat20(self.elements@)
    }

    /// True when `bytes` is the wire image of some vector: exactly when it
    /// has its size.
    pub open spec fn wire_ok(bytes: Seq<u8>) -> bool {
        bytes.len() == 8 + 20 * N
    }

    /// The wire image of a well-formed value is accepted and has `8 + 20 * N` bytes.
    pub proof fn lemma_wire(&self)
        requires
            self.wf(),
        ensures
            Self::wire_ok(self.wire()),
            self.wire().len() == 8 + 20 * N,
    {
        lemma_le_roundtrip();
    }

    /// Two well-formed values with the same wire image hold the same count,
    /// padding and slots.
    pub proof fn lemma_wire_injective(a: Self, b: Self)
        requires
            a.wf(),
            b.wf(),
            a.wire() == b.wire(),
        ensures
            a.view() == b.view(),
            a.slots() == b.slots(),
            a.length_field() == b.length_field(),
            a.pad() == b.pad(),
    {
        lemma_le_roundtrip();
        assert(a.wire().subrange(0, 2) =~= spec_u16_to_le_bytes(a.count));
        assert(b.wire().subrange(0, 2) =~= spec_u16_to_le_bytes(b.count));
        assert(a.wire().subrange(2, 8) =~= a.padding@);
        assert(b.wire().subrange(2, 8) =~= b.padding@);
        assert(a.padding@ =~= b.padding@);
        let fa = flat20(a.elements@);
        let fb = flat20(b.elements@);
        assert(a.wire().subrange(8, 8 + 20 * N as int) =~= fa);
        assert(b.wire().subrange(8, 8 + 20 * N as int) =~= fb);
        assert forall|i: int| 0 <= i < N implies a.elements@[i] == b.elements@[i] by {
            assert forall|j: int| 0 <= j < 20 implies a.elements@[i]@[j] == b.elements@[i]@[j] by {
                let k = 20 * i + j;
                assert(k / 20 == i && k % 20 == j) by (nonlinear_arith)
                    requires k == 20 * i + j, 0 <= j < 20;
                assert(fa[k] == fb[k]);
            }
            assert(a.elements@[i]@ =~= b.elements@[i]@);
        }
        assert(a.elements@ =~= b.elements@);
    }

    /// Appends the wire image to `out`.
    pub fn write_wire(&self, out: &mut Vec<u8>)
        requires
            self.wf(),
        ensures
            final(out)@ == old(out)@ + self.wire(),
    {
        let ghost start = out@;
        append_u16(out, self.count);
        append_bytes(out, self.padding.as_slice());
        let ghost head = out@;
        proof {
            lemma_le_roundtrip();
            assert(flat20(self.elements@.take(0)) =~= Seq::<u8>::empty());
            assert(out@ =~= head + flat20(self.elements@.take(0)));
        }
        let mut i: usize = 0;
        while i < self.elements.len()
            invariant
                i <= self.elements@.len(),
                head.len() == start.len() + 8,
                out@ == head + flat20(self.elements@.take(i as int)),
            decreases self.elements@.len() - i,
        {
            let item: [u8; 20] = self.elements[i];
            let mut j: usize = 0;
            while j < 20
                invariant
                    j <= 20,
                    i < self.elements@.len(),
                    item == self.elements@[i as int],
                    out@ == head + flat20(self.elements@.take(i as int)) + item@.take(j as int),
                decreases 20 - j,
            {
                out.push(item[j]);
                j = j + 1;
                proof {
                    assert(out@ =~= head + flat20(self.elements@.take(i as int)) + item@.take(j as int));
                }
            }
            proof {
                let prev = flat20(self.elements@.take(i as int));
                let next = flat20(self.elements@.take(i + 1));
                assert forall|k: int| 0 <= k < next.len() implies next[k] == (prev + item@)[k] by {
                    assert(k / 20 <= i) by (nonlinear_arith)
                        requires 0 <= k < 20 * (i + 1);
                    if k < 20 * i {
                        assert(k / 20 < i) by (nonlinear_arith)
                            requires 0 <= k < 20 * i;
                    } else {
                        assert(k / 20 == i && k % 20 == k - 20 * i) by (nonlinear_arith)
                            requires 20 * i <= k < 20 * (i + 1);
                    }
                }
                assert(next.len() == prev.len() + 20) by (nonlinear_arith)
                    requires next.len() == 20 * (i + 1), prev.len() == 20 * i;
                assert(item@.take(20) =~= item@);
                assert(next =~= prev + item@);
            }
            i = i + 1;
        }
        proof {
            assert(self.elements@.take(self.elements@.len() as int) =~= self.elements@);
            assert(final(out)@ =~= old(out)@ + self.wire());
        }
    }

    /// Parses a wire image; `None` when `bytes` is not one.
    pub fn read_wire(bytes: &[u8]) -> (r: Option<Self>)
        ensures
            r is Some <==> Self::wire_ok(bytes@),
            r matches Some(v) ==> v.wf() && v.wire() == bytes@,
    {
        let total = bytes.len();
        if total < 8 || (total - 8) / 20 != N || (total - 8) % 20 != 0 {
            proof {
                if total >= 8 && total == 8 + 20 * N {
                    assert((total - 8) / 20 == N && (total - 8) % 20 == 0) by (nonlinear_arith)
                        requires total - 8 == 20 * N;
                }
            }
            return None;
        }
        proof {
            assert(total == 8 + 20 * N) by (nonlinear_arith)
                requires total >= 8, (total - 8) / 20 == N, (total - 8) % 20 == 0;
        }
        let count = crate::wire::read_u16(bytes, 0);
        let padding: [u8; 6] = [bytes[2], bytes[3], bytes[4], bytes[5], bytes[6], bytes[7]];
        let mut elements: Vec<[u8; 20]> = Vec::new();
        let mut i: usize = 0;
        while i < N
            invariant
                i <= N,
                total == bytes@.len(),
                total == 8 + 20 * N,
                elements@.len() == i,
                forall|k: int| 0 <= k < 20 * i ==> #[trigger] flat20(elements@)[k] == bytes@[8 + k],
            decreases N - i,
        {
            let mut item: [u8; 20] = [0u8; 20];
            let base: usize = 8 + 20 * i;
            proof {
                assert(8 + 20 * i + 20 <= total) by (nonlinear_arith)
                    requires i < N, total == 8 + 20 * N;
            }
            let mut j: usize = 0;
            while j < 20
                invariant
                    j <= 20,
                    base + 20 <= bytes@.len(),
                    total == bytes@.len(),
                    forall|t: int| 0 <= t < j ==> #[trigger] item@[t] == bytes@[base + t],
                decreases 20 - j,
            {
                item[j] = bytes[base + j];
                j = j + 1;
            }
            let ghost prev = elements@;
            elements.push(item);
            proof {
                assert forall|k: int| 0 <= k < 20 * (i + 1) implies #[trigger] flat20(elements@)[k] == bytes@[8 + k] by {
                    if k < 20 * i {
                        assert(k / 20 < i) by (nonlinear_arith)
                            requires 0 <= k < 20 * i;
                        assert(flat20(elements@)[k] == flat20(prev)[k]) by {
                            assert(elements@[k / 20] == prev[k / 20]);
                            assert(k < 20 * prev.len()) by (nonlinear_arith)
                                requires k < 20 * i, prev.len() == i;
                        }
                    } else {
                        assert(k / 20 == i && k % 20 == k - 20 * i) by (nonlinear_arith)
                            requires 20 * i <= k < 20 * (i + 1);
                        assert(k < 20 * elements@.len()) by (nonlinear_arith)
                            requires k < 20 * (i + 1), elements@.len() == i + 1;
                    }
                }
            }
            i = i + 1;
        }
        let r = FixedVec { count, padding, elements };
        proof {
            lemma_le_roundtrip();
            assert(spec_u16_to_le_bytes(count) =~= bytes@.subrange(0, 2));
            assert(padding@ =~= bytes@.subrange(2, 8));
            assert(flat20(r.elements@).len() == 20 * N);
            assert(r.wire() =~= bytes@);
        }
        Some(r)
    }
}

impl<T: Copy + Default, const N: usize> TryFrom<&[T]> for FixedVec<T, N> {
    type Error = FixedVecError;

    fn try_from(slice: &[T]) -> (r: Result<Self, Self::Error>)
        ensures
            slice@.len() > N ==> r == Err::<Self, FixedVecError>(FixedVecError::InvalidLength {
                expected_max: N,
                got: slice@.len() as usize,
            }),
            slice@.len() <= N ==> r is Ok && r->Ok_0.wf() && r->Ok_0.view() == slice@.take(
                (slice@.len() as u16) as int,
            ),
    {
        Self::from_slice(slice)
    }
}

impl<T: Copy + Default, const N: usize> vstd::std_specs::convert::TryFromSpecImpl<&[T]> for FixedVec<T, N> {
    open spec fn obeys_try_from_spec() -> bool {
        false
    }

    open spec fn try_from_spec(v: &[T]) -> Result<Self, FixedVecError> {
        arbitrary()
    }
}

impl<T: Copy + Default, const N: usize> TryFrom<Vec<T>> for FixedVec<T, N> {
    type Error = FixedVecError;

    fn try_from(v: Vec<T>) -> (r: Result<Self, Self::Error>)
        ensures
            v@.len() > N ==> r == Err::<Self, FixedVecError>(FixedVecError::InvalidLength {
                expected_max: N,
                got: v@.len() as usize,
            }),
            v@.len() <= N ==> r is Ok && r->Ok_0.wf() && r->Ok_0.view() == v@.take(
                (v@.len() as u16) as int,
            ),
    {
        Self::from_slice(v.as_slice())
    }
}

impl<T: Copy + Default, const N: usize> vstd::std_specs::convert::TryFromSpecImpl<Vec<T>> for FixedVec<T, N> {
    open spec fn obeys_try_from_spec() -> bool {
        false
    }

    open spec fn try_from_spec(v: Vec<T>) -> Result<Self, FixedVecError> {
        arbitrary()
    }
}

impl<const N: usize> TryFrom<&str> for FixedStr<N> {
    type Error = FixedVecError;

    fn try_from(s: &str) -> (r: Result<Self, Self::Error>)
        ensures
            s.spec_bytes().len() > N ==> r == Err::<Self, FixedVecError>(FixedVecError::InvalidLength {
                expected_max: N,
                got: s.spec_bytes().len() as usize,
            }),
            s.spec_bytes().len() <= N ==> r is Ok && r->Ok_0.wf() && r->Ok_0.view() == s.spec_bytes().take(
                (s.spec_bytes().len() as u16) as int,
            ),
    {
        Self::from_str(s)
    }
}

impl<const N: usize> vstd::std_specs::convert::TryFromSpecImpl<&str> for FixedStr<N> {
    open spec fn obeys_try_from_spec() -> bool {
        false
    }

    open spec fn try_from_spec(v: &str) -> Result<Self, FixedVecError> {
        arbitrary()
    }
}

impl<const N: usize> TryFrom<String> for FixedStr<N> {
    type Error = FixedVecError;

    fn try_from(s: String) -> (r: Result<Self, Self::Error>)
        ensures
            vstd::utf8::encode_utf8(s@).len() > N ==> r == Err::<Self, FixedVecError>(FixedVecError::InvalidLength {
                expected_max: N,
                got: vstd::utf8::encode_utf8(s@).len() as usize,
            }),
            vstd::utf8::encode_utf8(s@).len() <= N ==> r is Ok && r->Ok_0.wf() && r->Ok_0.view() == vstd::utf8::encode_utf8(s@).take(
                (vstd::utf8::encode_utf8(s@).len() as u16) as int,
            ),
    {
        Self::from_str(s.as_str())
    }
}

impl<const N: usize> vstd::std_specs::convert::TryFromSpecImpl<String> for FixedStr<N> {
    open spec fn obeys_try_from_spec() -> bool {
        false
    }

    open spec fn try_from_spec(v: String) -> Result<Self, FixedVecError> {
        arbitrary()
    }
}

} // verus!
