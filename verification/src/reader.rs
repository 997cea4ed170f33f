//! Bounds-checked read-only cursor over one inbound message's payload.
//!
//! A logical field that spans several messages is handled by the state
//! machine's own remaining-size bookkeeping; the cursor itself never reads
//! past the message boundary and fails explicitly instead of panicking.

use vstd::prelude::*;
use vstd::slice::{slice_subrange, slice_to_vec};

use crate::error::ParserError;

verus! {

/// Read-only view over one message's bytes with a current position.
pub struct ByteReader<'a> {
    data: &'a [u8],
    pos: usize,
}

impl<'a> ByteReader<'a> {
    /// The whole payload the cursor was created over.
    pub closed spec fn all_bytes(&self) -> Seq<u8> {
        self.data@
    }

    /// How far the cursor has advanced.
    pub closed spec fn position(&self) -> int {
        self.pos as int
    }

    pub open spec fn wf(&self) -> bool {
        0 <= self.position() <= self.all_bytes().len()
    }

    /// The bytes not yet consumed.
    pub open spec fn remaining(&self) -> Seq<u8> {
        self.all_bytes().skip(self.position())
    }

    pub fn new(data: &'a [u8]) -> (r: Self)
        ensures
            r.wf(),
            r.all_bytes() == data@,
            r.position() == 0,
    {
        ByteReader { data, pos: 0 }
    }

    /// How many bytes remain in this message.
    pub fn remaining_len(&self) -> (n: usize)
        requires
            self.wf(),
        ensures
            n == self.remaining().len(),
    {
        self.data.len() - self.pos
    }

    /// The bytes not yet consumed, without advancing.
    pub fn remaining_slice(&self) -> (s: &'a [u8])
        requires
            self.wf(),
        ensures
            s@ == self.remaining(),
    {
        let s = slice_subrange(self.data, self.pos, self.data.len());
        proof {
            assert(s@ =~= self.remaining());
        }
        s
    }

    /// Reads exactly `n` bytes, advancing the cursor; fails with
    /// `InsufficientData` (leaving the cursor unchanged) if fewer remain.
    pub fn read_exact(&mut self, n: usize) -> (r: Result<Vec<u8>, ParserError>)
        requires
            old(self).wf(),
        ensures
            final(self).wf(),
            final(self).all_bytes() == old(self).all_bytes(),
            match r {
                Ok(v) => {
                    &&& old(self).remaining().len() >= n
                    &&& v@ == old(self).remaining().take(n as int)
                    &&& final(self).position() == old(self).position() + n
                },
                Err(e) => {
                    &&& e == ParserError::InsufficientData
                    &&& old(self).remaining().len() < n
                    &&& final(self).position() == old(self).position()
                },
            },
    {
        if n > self.data.len() - self.pos {
            return Err(ParserError::InsufficientData);
        }
        let s = slice_subrange(self.data, self.pos, self.pos + n);
        let v = slice_to_vec(s);
        proof {
            assert(v@ =~= self.remaining().take(n as int));
        }
        self.pos = self.pos + n;
        Ok(v)
    }

    /// Skips `n` bytes; fails with `InsufficientData` (leaving the cursor
    /// unchanged) if fewer remain.
    pub fn advance(&mut self, n: usize) -> (r: Result<(), ParserError>)
        requires
            old(self).wf(),
        ensures
            final(self).wf(),
            final(self).all_bytes() == old(self).all_bytes(),
            match r {
                Ok(()) => {
                    &&& old(self).remaining().len() >= n
                    &&& final(self).position() == old(self).position() + n
                },
                Err(e) => {
                    &&& e == ParserError::InsufficientData
                    &&& old(self).remaining().len() < n
                    &&& final(self).position() == old(self).position()
                },
            },
    {
        if n > self.data.len() - self.pos {
            return Err(ParserError::InsufficientData);
        }
        self.pos = self.pos + n;
        Ok(())
    }
}

} // verus!
