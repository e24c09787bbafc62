//! Append-only cursor over a fixed-capacity byte region.
//!
//! A [`BoundedWriter`] accumulates bytes single-pass, never past the
//! capacity it was created with; a caller checks the remaining room before
//! a multi-byte append and receives `BufferOverflow` when it is short.

use vstd::prelude::*;

use crate::BTHomeError;

verus! {

/// An append-only byte writer with a fixed capacity.
pub struct BoundedWriter {
    buf: Vec<u8>,
    cap: usize,
}

impl View for BoundedWriter {
    type V = Seq<u8>;

    /// The bytes written so far, in order.
    closed spec fn view(&self) -> Seq<u8> {
        self.buf@
    }
}

impl BoundedWriter {
    /// The capacity the writer was created with.
    pub closed spec fn cap_spec(&self) -> int {
        self.cap as int
    }

    /// Well-formed: never filled past capacity.
    pub open spec fn wf(&self) -> bool {
        self@.len() <= self.cap_spec()
    }

    /// An empty writer that accepts at most `capacity` bytes.
    pub fn new(capacity: usize) -> (w: BoundedWriter)
        ensures
            w@ == Seq::<u8>::empty(),
            w.cap_spec() == capacity,
            w.wf(),
    {
        BoundedWriter { buf: Vec::new(), cap: capacity }
    }

    /// The number of bytes written so far.
    pub fn len(&self) -> (n: usize)
        ensures
            n == self@.len(),
    {
        self.buf.len()
    }

    /// The fixed capacity.
    pub fn capacity(&self) -> (n: usize)
        ensures
            n == self.cap_spec(),
    {
        self.cap
    }

    /// Ok exactly when `needed` more bytes still fit; otherwise the
    /// buffer-overflow error.
    pub fn check_remaining_capacity(&self, needed: usize) -> (r: Result<(), BTHomeError>)
        requires
            self.wf(),
        ensures
            r is Ok <==> self@.len() + needed <= self.cap_spec(),
            r is Err ==> r == Err::<(), BTHomeError>(BTHomeError::BufferOverflow),
    {
        if self.cap - self.buf.len() < needed {
            Err(BTHomeError::BufferOverflow)
        } else {
            Ok(())
        }
    }

    /// Appends one byte; the caller has already checked the room.
    pub fn push(&mut self, byte: u8)
        requires
            old(self).wf(),
            old(self)@.len() < old(self).cap_spec(),
        ensures
            final(self)@ == old(self)@.push(byte),
            final(self).cap_spec() == old(self).cap_spec(),
            final(self).wf(),
    {
        self.buf.push(byte);
    }

    /// Gives up the writer and hands back the bytes written.
    pub fn into_vec(self) -> (v: Vec<u8>)
        ensures
            v@ == self@,
    {
        self.buf
    }
}

} // verus!
