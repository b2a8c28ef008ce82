//! Buffers with explicit ownership: owned bytes, borrowed views and a
//! copy-on-write choice between the two.
//!
//! Every type views as the byte sequence it holds; copying into an owned
//! buffer keeps that sequence.
use vstd::prelude::*;
use vstd::slice::slice_to_vec;

verus! {

/// A buffer that owns its bytes.
#[derive(Debug, Clone)]
pub struct OwnedBuf {
    data: Vec<u8>,
}

impl View for OwnedBuf {
    type V = Seq<u8>;

    closed spec fn view(&self) -> Seq<u8> {
        self.data@
    }
}

impl OwnedBuf {
    /// Takes ownership of `data`.
    pub fn from_vec(data: Vec<u8>) -> (r: Self)
        ensures
            r@ == data@,
    {
        OwnedBuf { data }
    }

    /// Copies `data` into a new buffer.
    pub fn copy_from(data: &[u8]) -> (r: Self)
        ensures
            r@ == data@,
    {
        OwnedBuf { data: slice_to_vec(data) }
    }

    /// An empty buffer with room for `capacity` bytes.
    pub fn with_capacity(capacity: usize) -> (r: Self)
        ensures
            r@ == Seq::<u8>::empty(),
    {
        OwnedBuf { data: Vec::with_capacity(capacity) }
    }

    /// The bytes.
    pub fn as_slice(&self) -> (r: &[u8])
        ensures
            r@ == self@,
    {
        self.data.as_slice()
    }

    /// The bytes, writable in place.
    pub fn as_mut_slice(&mut self) -> (r: &mut [u8])
        ensures
            r@ == old(self)@,
            final(r)@ == final(self)@,
    {
        self.data.as_mut_slice()
    }

    /// Gives up the buffer for its bytes.
    pub fn into_vec(self) -> (r: Vec<u8>)
        ensures
            r@ == self@,
    {
        self.data
    }

    /// Number of bytes.
    pub fn len(&self) -> (r: usize)
        ensures
            r == self@.len(),
    {
        self.data.len()
    }

    /// True when there are no bytes.
    pub fn is_empty(&self) -> (r: bool)
        ensures
            r == (self@.len() == 0),
    {
        self.data.len() == 0
    }
}

/// A read-only view of borrowed bytes.
#[derive(Debug, Clone, Copy)]
pub struct SharedView<'a> {
    data: &'a [u8],
}

impl<'a> View for SharedView<'a> {
    type V = Seq<u8>;

    closed spec fn view(&self) -> Seq<u8> {
        self.data@
    }
}

impl<'a> SharedView<'a> {
    /// A view of `data`.
    pub fn from_slice(data: &'a [u8]) -> (r: Self)
        ensures
            r@ == data@,
    {
        SharedView { data }
    }

    /// Copies the viewed bytes into an owned buffer.
    pub fn to_owned(&self) -> (r: OwnedBuf)
        ensures
            r@ == self@,
    {
        OwnedBuf::copy_from(self.data)
    }

    /// The viewed bytes.
    pub fn as_slice(&self) -> (r: &'a [u8])
        ensures
            r@ == self@,
    {
        self.data
    }

    /// Number of bytes.
    pub fn len(&self) -> (r: usize)
        ensures
            r == self@.len(),
    {
        self.data.len()
    }

    /// True when there are no bytes.
    pub fn is_empty(&self) -> (r: bool)
        ensures
            r == (self@.len() == 0),
    {
        self.data.len() == 0
    }
}

/// Bytes that are either borrowed (no copy made) or owned.
#[derive(Debug, Clone)]
pub enum Cow<'a> {
    /// A borrowed view.
    Borrowed(SharedView<'a>),
    /// An owned buffer.
    Owned(OwnedBuf),
}

impl<'a> View for Cow<'a> {
    type V = Seq<u8>;

    open spec fn view(&self) -> Seq<u8> {
        match self {
            Cow::Borrowed(v) => v@,
            Cow::Owned(b) => b@,
        }
    }
}

impl<'a> Cow<'a> {
    /// Borrows `data`.
    pub fn borrowed(data: &'a [u8]) -> (r: Self)
        ensures
            r is Borrowed,
            r@ == data@,
    {
        Cow::Borrowed(SharedView::from_slice(data))
    }

    /// Owns `data`.
    pub fn owned(data: Vec<u8>) -> (r: Self)
        ensures
            r is Owned,
            r@ == data@,
    {
        Cow::Owned(OwnedBuf::from_vec(data))
    }

    /// An owned buffer with the same bytes, copying only when borrowed.
    pub fn into_owned(self) -> (r: OwnedBuf)
        ensures
            r@ == self@,
    {
        match self {
            Cow::Borrowed(view) => view.to_owned(),
            Cow::Owned(buf) => buf,
        }
    }

    /// The bytes.
    pub fn as_slice(&self) -> (r: &[u8])
        ensures
            r@ == self@,
    {
        match self {
            Cow::Borrowed(view) => view.as_slice(),
            Cow::Owned(buf) => buf.as_slice(),
        }
    }

    /// Number of bytes.
    pub fn len(&self) -> (r: usize)
        ensures
            r == self@.len(),
    {
        self.as_slice().len()
    }

    /// True when there are no bytes.
    pub fn is_empty(&self) -> (r: bool)
        ensures
            r == (self@.len() == 0),
    {
        self.as_slice().len() == 0
    }

    /// True for borrowed bytes.
    pub fn is_borrowed(&self) -> (r: bool)
        ensures
            r == (self is Borrowed),
    {
        match self {
            Cow::Borrowed(_) => true,
            Cow::Owned(_) => false,
        }
    }

    /// True for owned bytes.
    pub fn is_owned(&self) -> (r: bool)
        ensures
            r == (self is Owned),
    {
        match self {
            Cow::Borrowed(_) => false,
            Cow::Owned(_) => true,
        }
    }
}

} // verus!
