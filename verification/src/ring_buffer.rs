//! A byte buffer with room for one byte.

use crate::fifo::{pop_model, push_model};
use vstd::prelude::*;

verus! {

/// A queue of bytes that holds one byte at most, whatever `SIZE` is.
///
/// Its abstract value is the sequence of the bytes that wait, which has no
/// element or one.
#[derive(Debug)]
pub struct RingBuffer<const SIZE: usize> {
    /// The byte that waits, if one does.
    data: Option<u8>,
}

impl<const SIZE: usize> View for RingBuffer<SIZE> {
    type V = Seq<u8>;

    closed spec fn view(&self) -> Seq<u8> {
        match self.data {
            Some(byte) => seq![byte],
            None => Seq::empty(),
        }
    }
}

impl<const SIZE: usize> RingBuffer<SIZE> {
    /// An empty buffer.
    pub fn new() -> (buffer: Self)
        ensures
            buffer@ == Seq::<u8>::empty(),
    {
        Self { data: None }
    }

    /// Number of bytes available to read: none or one.
    pub fn available(&self) -> (count: usize)
        ensures
            count == self@.len(),
            count <= 1,
    {
        if self.data.is_some() {
            1
        } else {
            0
        }
    }

    /// Whether the buffer can take no byte.
    pub fn is_full(&self) -> (full: bool)
        ensures
            full <==> self@.len() == 1,
    {
        self.available() == 1
    }

    /// Stores `data` unless a byte waits already; says whether it did.
    pub fn push_back(&mut self, data: u8) -> (pushed: bool)
        ensures
            (final(self)@, pushed) == push_model(old(self)@, 1, data),
    {
        if self.is_full() {
            return false;
        }
        self.data = Some(data);
        assert(self@ =~= old(self)@.push(data));
        true
    }

    /// Hands out the byte that waits, if one does.
    pub fn pop_front(&mut self) -> (popped: Option<u8>)
        ensures
            (final(self)@, popped) == pop_model(old(self)@),
    {
        if self.available() == 0 {
            return None;
        }
        let popped = self.data.take();
        assert(self@ =~= old(self)@.drop_first());
        popped
    }
}

} // verus!
