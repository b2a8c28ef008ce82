//! Settings of bounded publisher channels.
use std::marker::PhantomData;
use vstd::prelude::*;
use crate::message::Message;

verus! {

/// Default capacity of a bounded channel.
pub const DEFAULT_BOUNDED_CAPACITY: usize = 100;

/// Builds a bounded publisher/subscriber pair for messages of type `M`.
pub struct BoundedPublisherBuilder<M: Message> {
    capacity: usize,
    marker: PhantomData<M>,
}

impl<M: Message> BoundedPublisherBuilder<M> {
    /// The capacity of the channel to build.
    pub closed spec fn spec_capacity(&self) -> usize {
        self.capacity
    }

    /// A builder with the default capacity.
    pub fn new() -> (r: Self)
        ensures
            r.spec_capacity() == DEFAULT_BOUNDED_CAPACITY,
    {
        BoundedPublisherBuilder { capacity: DEFAULT_BOUNDED_CAPACITY, marker: PhantomData }
    }

    /// The same builder with another capacity.
    pub fn capacity(self, capacity: usize) -> (r: Self)
        ensures
            r.spec_capacity() == capacity,
    {
        BoundedPublisherBuilder { capacity, marker: PhantomData }
    }

    /// The capacity of the channel to build.
    pub fn get_capacity(&self) -> (r: usize)
        ensures
            r == self.spec_capacity(),
    {
        self.capacity
    }
}

impl<M: Message> Default for BoundedPublisherBuilder<M> {
    fn default() -> (r: Self)
        ensures
            r.spec_capacity() == DEFAULT_BOUNDED_CAPACITY,
    {
        BoundedPublisherBuilder::new()
    }
}

} // verus!
