//! A zero-copy reader over an input byte slice.
//!
//! Reads hand out sub-slices of the input itself, so decoded values can
//! borrow their variable-length fields straight from the bytes that
//! carried them.
use vstd::prelude::*;

use crate::error::Error;
use crate::le::u16_of_le;

verus! {

/// A reader over the unread part of an input slice.
pub struct Reader<'a> {
    rest: &'a [u8],
}

impl<'a> Reader<'a> {
    /// The bytes not yet read.
    pub closed spec fn data(&self) -> Seq<u8> {
        self.rest@
    }

    /// `after` is this reader after reading `n` bytes.
    pub open spec fn advanced(&self, after: &Reader<'a>, n: int) -> bool {
        after.data() == self.data().skip(n)
    }

    /// Creates a reader over `bytes`.
    pub fn new(bytes: &'a [u8]) -> (r: Self)
        ensures
            r.data() == bytes@,
    {
        Reader { rest: bytes }
    }

    /// The number of bytes not yet read.
    pub fn remaining_data(&self) -> (r: usize)
        ensures
            r == self.data().len(),
    {
        self.rest.len()
    }

    /// Reads the next `n` bytes, as a slice of the input.
    ///
    /// Fails with `BufferExhausted`, reading nothing, if fewer remain.
    pub fn read_slice(&mut self, n: usize) -> (r: Result<&'a [u8], Error>)
        ensures
            r is Ok <==> n <= old(self).data().len(),
            r matches Ok(s) ==> s@ == old(self).data().take(n as int) && old(self).advanced(
                final(self),
                n as int,
            ),
            r is Err ==> final(self).data() == old(self).data() && r == Err::<&[u8], Error>(
                Error::BufferExhausted,
            ),
    {
        if n > self.rest.len() {
            return Err(Error::BufferExhausted);
        }
        let (head, tail) = self.rest.split_at(n);
        self.rest = tail;
        Ok(head)
    }

    /// Reads exactly `out.len()` bytes into `out`.
    ///
    /// Fails with `BufferExhausted`, reading and writing nothing, if fewer
    /// remain.
    pub fn read_bytes(&mut self, out: &mut [u8]) -> (r: Result<(), Error>)
        ensures
            r is Ok <==> old(out)@.len() <= old(self).data().len(),
            r is Ok ==> final(out)@ == old(self).data().take(old(out)@.len() as int)
                && old(self).advanced(final(self), old(out)@.len() as int),
            r is Err ==> final(out)@ == old(out)@ && final(self).data() == old(self).data() && r
                == Err::<(), Error>(Error::BufferExhausted),
    {
        let n = out.len();
        let src = self.read_slice(n)?;
        let mut i: usize = 0;
        while i < n
            invariant
                n == out@.len(),
                src@.len() == n,
                i <= n,
                forall|j: int| 0 <= j < i ==> out@[j] == src@[j],
            decreases n - i,
        {
            out[i] = src[i];
            i += 1;
        }
        assert(out@ =~= src@);
        Ok(())
    }

    /// Reads all the bytes that remain, as a slice of the input.
    pub fn read_rest(&mut self) -> (r: &'a [u8])
        ensures
            r@ == old(self).data(),
            final(self).data().len() == 0,
    {
        let (head, tail) = self.rest.split_at(self.rest.len());
        self.rest = tail;
        head
    }

    /// Reads one byte.
    pub fn read_u8(&mut self) -> (r: Result<u8, Error>)
        ensures
            r is Ok <==> 1 <= old(self).data().len(),
            r matches Ok(x) ==> x == old(self).data()[0] && old(self).advanced(final(self), 1),
            r is Err ==> final(self).data() == old(self).data() && r == Err::<u8, Error>(
                Error::BufferExhausted,
            ),
    {
        if self.rest.len() < 1 {
            return Err(Error::BufferExhausted);
        }
        let x = self.rest[0];
        self.rest = self.rest.split_at(1).1;
        Ok(x)
    }

    /// Reads a `u16` stored least significant byte first.
    pub fn read_u16_le(&mut self) -> (r: Result<u16, Error>)
        ensures
            r is Ok <==> 2 <= old(self).data().len(),
            r matches Ok(x) ==> x == u16_of_le(old(self).data()[0], old(self).data()[1])
                && old(self).advanced(final(self), 2),
            r is Err ==> final(self).data() == old(self).data() && r == Err::<u16, Error>(
                Error::BufferExhausted,
            ),
    {
        if self.rest.len() < 2 {
            return Err(Error::BufferExhausted);
        }
        let x = self.rest[0] as u16 + 256 * (self.rest[1] as u16);
        self.rest = self.rest.split_at(2).1;
        Ok(x)
    }
}

} // verus!
