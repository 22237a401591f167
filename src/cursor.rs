//! A cursor over a scratch buffer of bytes.
//!
//! The cursor splits its buffer into a consumed prefix and an unconsumed
//! rest. Writes fill the rest from its start and move the split point;
//! `seek` moves it back and forth so that a length written early can be
//! patched later; `take_consumed_bytes` hands out the prefix and leaves the
//! cursor over what remains.
use vstd::prelude::*;

use crate::error::Error;
use crate::le::{le_u16, le_u32};

verus! {

/// A position for [`Cursor::seek`].
#[derive(Clone, Copy, Debug, PartialEq, Eq, PartialOrd, Ord, Hash, Structural)]
pub enum SeekPos {
    /// Seek absolutely, from the start of the buffer.
    Abs(usize),
    /// Seek relatively, from the current position.
    Rel(isize),
}

/// The offset that `pos` names when the cursor stands at `cur`; it may lie
/// outside the buffer.
pub open spec fn seek_target(cur: nat, pos: SeekPos) -> int {
    match pos {
        SeekPos::Abs(o) => o as int,
        SeekPos::Rel(d) => cur + d,
    }
}

/// `buf` with `bytes` written over it from offset `at`.
pub open spec fn overwrite(buf: Seq<u8>, at: int, bytes: Seq<u8>) -> Seq<u8> {
    buf.take(at) + bytes + buf.skip(at + bytes.len())
}

/// Two writes one after the other are one write of both.
pub proof fn lemma_overwrite_twice(buf: Seq<u8>, at: int, a: Seq<u8>, b: Seq<u8>)
    requires
        0 <= at,
        at + a.len() + b.len() <= buf.len(),
    ensures
        overwrite(overwrite(buf, at, a), at + a.len(), b) == overwrite(buf, at, a + b),
        overwrite(overwrite(buf, at, a), at + a.len(), b).len() == buf.len(),
{
    assert(overwrite(overwrite(buf, at, a), at + a.len(), b) =~= overwrite(buf, at, a + b));
}

/// A write of `a` and then one of `b` leave the cursor as one write of
/// `a + b` does.
pub proof fn lemma_wrote_twice(c0: &Cursor, c1: &Cursor, c2: &Cursor, a: Seq<u8>, b: Seq<u8>)
    requires
        c0.wf(),
        c0.position() + a.len() + b.len() <= c0.buffer().len(),
        c0.wrote(c1, a),
        c1.wrote(c2, b),
    ensures
        c0.wrote(c2, a + b),
        c2.wf(),
{
    lemma_overwrite_twice(c0.buffer(), c0.position() as int, a, b);
}

/// A cursor over a buffer of bytes.
pub struct Cursor {
    buf: Vec<u8>,
    cursor: usize,
}

impl Cursor {
    /// The bytes of the buffer, consumed and unconsumed.
    pub closed spec fn buffer(&self) -> Seq<u8> {
        self.buf@
    }

    /// The number of bytes consumed.
    pub closed spec fn position(&self) -> nat {
        self.cursor as nat
    }

    /// The consumed prefix.
    pub open spec fn consumed(&self) -> Seq<u8> {
        self.buffer().take(self.position() as int)
    }

    /// The number of bytes not yet consumed.
    pub open spec fn remaining(&self) -> int {
        self.buffer().len() - self.position()
    }

    /// The position lies within the buffer, whose length fits a `usize`.
    pub open spec fn wf(&self) -> bool {
        &&& self.position() <= self.buffer().len()
        &&& self.buffer().len() <= usize::MAX
    }

    /// `after` is this cursor after a call `consume(n)` that succeeded if and
    /// only if `ok`: the position moves past the `n` bytes, or stays.
    pub open spec fn consume_step(&self, n: int, after: &Cursor, ok: bool) -> bool {
        &&& ok <==> n <= self.remaining()
        &&& after.position() == if ok { self.position() + n } else { self.position() as int }
    }

    /// `after` is this cursor after a call `seek(pos)` that succeeded if and
    /// only if `ok`.
    pub open spec fn seek_step(&self, pos: SeekPos, after: &Cursor, ok: bool) -> bool {
        let t = seek_target(self.position(), pos);
        &&& after.buffer() == self.buffer()
        &&& ok <==> 0 <= t <= self.buffer().len()
        &&& after.position() == if ok { t } else { self.position() as int }
    }

    /// `after` is this cursor after a call `take_consumed_bytes()` that
    /// returned `taken`.
    pub open spec fn take_step(&self, after: &Cursor, taken: Seq<u8>) -> bool {
        &&& taken == self.consumed()
        &&& after.buffer() == self.buffer().skip(self.position() as int)
        &&& after.position() == 0
    }

    /// This cursor after `bytes` were written at its position.
    pub open spec fn wrote(&self, after: &Cursor, bytes: Seq<u8>) -> bool {
        &&& after.buffer() == overwrite(self.buffer(), self.position() as int, bytes)
        &&& after.position() == self.position() + bytes.len()
    }

    /// Creates a cursor over `buf`, with nothing consumed.
    pub fn new(buf: Vec<u8>) -> (r: Self)
        ensures
            r.wf(),
            r.buffer() == buf@,
            r.position() == 0,
    {
        // The length of a `Vec` fits a `usize`; reading it makes that known.
        let _ = buf.len();
        Cursor { buf, cursor: 0 }
    }

    /// Consumes the next `n` bytes and returns a mutable view of exactly
    /// those bytes, for the caller to fill.
    ///
    /// Once the caller is done with the view, the buffer holds the consumed
    /// prefix, then what the view holds in the end, then the rest as it was.
    /// Fails with `BufferExhausted`, and changes nothing, if fewer than `n`
    /// bytes remain.
    pub fn consume(&mut self, n: usize) -> (r: Result<&mut [u8], Error>)
        requires
            old(self).wf(),
        ensures
            old(self).consume_step(n as int, final(self), r is Ok),
            r matches Ok(v) ==> {
                let p = old(self).position() as int;
                &&& v@ == old(self).buffer().subrange(p, p + n)
                &&& final(self).buffer() == old(self).buffer().take(p) + final(v)@ + old(
                    self,
                ).buffer().skip(p + n)
            },
            r is Err ==> *final(self) == *old(self),
            r matches Err(e) ==> e == Error::BufferExhausted,
    {
        match self.consume_with_prior(n) {
            Ok((_, fresh)) => Ok(fresh),
            Err(e) => Err(e),
        }
    }

    /// Consumes the next `n` bytes, as `consume` does, and returns mutable
    /// views of the bytes consumed before this call and of the `n` new ones.
    ///
    /// This lets a caller compute what it writes next from what it wrote
    /// before (a checksum over a growing prefix, say). Once the caller is
    /// done with the views, the buffer holds what they hold in the end,
    /// then the rest as it was.
    pub fn consume_with_prior(&mut self, n: usize) -> (r: Result<(&mut [u8], &mut [u8]), Error>)
        requires
            old(self).wf(),
        ensures
            old(self).consume_step(n as int, final(self), r is Ok),
            r matches Ok(v) ==> {
                let p = old(self).position() as int;
                &&& v.0@ == old(self).consumed()
                &&& v.1@ == old(self).buffer().subrange(p, p + n)
                &&& final(self).buffer() == final(v.0)@ + final(v.1)@ + old(self).buffer().skip(p + n)
            },
            r is Err ==> *final(self) == *old(self),
            r matches Err(e) ==> e == Error::BufferExhausted,
    {
        let len = self.buf.len();
        let start = self.cursor;
        let end = match start.checked_add(n) {
            Some(end) => end,
            None => return Err(Error::BufferExhausted),
        };
        if len < end {
            return Err(Error::BufferExhausted);
        }
        self.cursor = end;
        let (head, _) = self.buf.as_mut_slice().split_at_mut(end);
        Ok(head.split_at_mut(start))
    }

    /// Moves the position to the offset that `pos` names.
    ///
    /// Fails with `BufferExhausted`, and changes nothing, if that offset is
    /// negative or past the end of the buffer.
    pub fn seek(&mut self, pos: SeekPos) -> (r: Result<(), Error>)
        requires
            old(self).wf(),
        ensures
            final(self).wf(),
            old(self).seek_step(pos, final(self), r is Ok),
            r is Err ==> r == Err::<(), Error>(Error::BufferExhausted),
    {
        let len = self.buf.len();
        let target: usize = match pos {
            SeekPos::Abs(o) => o,
            SeekPos::Rel(d) => {
                if d >= 0 {
                    match self.cursor.checked_add(d as usize) {
                        Some(t) => t,
                        None => return Err(Error::BufferExhausted),
                    }
                } else {
                    let back: usize = (-(d + 1)) as usize;
                    if back >= self.cursor {
                        return Err(Error::BufferExhausted);
                    }
                    self.cursor - back - 1
                }
            },
        };
        if target > len {
            return Err(Error::BufferExhausted);
        }
        self.cursor = target;
        Ok(())
    }

    /// The number of bytes consumed so far.
    pub fn consumed_len(&self) -> (r: usize)
        ensures
            r == self.position(),
    {
        self.cursor
    }

    /// The number of bytes not yet consumed.
    pub fn remaining_len(&self) -> (r: usize)
        requires
            self.wf(),
        ensures
            r == self.remaining(),
    {
        self.buf.len() - self.cursor
    }

    /// The part of the buffer consumed so far.
    pub fn consumed_bytes(&self) -> (r: &[u8])
        requires
            self.wf(),
        ensures
            r@ == self.consumed(),
    {
        self.buf.as_slice().split_at(self.cursor).0
    }

    /// Takes the part of the buffer consumed so far, and leaves the cursor
    /// as if newly made over the unconsumed rest.
    ///
    /// Called twice with nothing in between, the second call returns no bytes.
    pub fn take_consumed_bytes(&mut self) -> (r: Vec<u8>)
        requires
            old(self).wf(),
        ensures
            final(self).wf(),
            old(self).take_step(final(self), r@),
    {
        let mut taken = self.buf.split_off(self.cursor);
        core::mem::swap(&mut self.buf, &mut taken);
        self.cursor = 0;
        taken
    }

    /// Writes `bytes` at the position and moves past them.
    ///
    /// Fails with `BufferExhausted`, and changes nothing, if fewer than
    /// `bytes.len()` bytes remain.
    pub fn write_bytes(&mut self, bytes: &[u8]) -> (r: Result<(), Error>)
        requires
            old(self).wf(),
        ensures
            final(self).wf(),
            r is Ok <==> bytes@.len() <= old(self).remaining(),
            r is Ok ==> old(self).wrote(final(self), bytes@),
            r is Err ==> *final(self) == *old(self) && r == Err::<(), Error>(Error::BufferExhausted),
    {
        let n = bytes.len();
        let dest = self.consume(n)?;
        let mut i: usize = 0;
        while i < n
            invariant
                n == bytes@.len(),
                dest@.len() == n,
                i <= n,
                forall|j: int| 0 <= j < i ==> dest@[j] == bytes@[j],
            decreases n - i,
        {
            dest[i] = bytes[i];
            i += 1;
        }
        assert(dest@ =~= bytes@);
        Ok(())
    }

    /// Writes one byte.
    pub fn write_u8(&mut self, x: u8) -> (r: Result<(), Error>)
        requires
            old(self).wf(),
        ensures
            final(self).wf(),
            r is Ok <==> 1 <= old(self).remaining(),
            r is Ok ==> old(self).wrote(final(self), seq![x]),
            r is Err ==> *final(self) == *old(self) && r == Err::<(), Error>(Error::BufferExhausted),
    {
        let b = [x];
        assert(b@ =~= seq![x]);
        self.write_bytes(&b)
    }

    /// Writes a `u16`, least significant byte first.
    pub fn write_u16_le(&mut self, x: u16) -> (r: Result<(), Error>)
        requires
            old(self).wf(),
        ensures
            final(self).wf(),
            r is Ok <==> 2 <= old(self).remaining(),
            r is Ok ==> old(self).wrote(final(self), le_u16(x)),
            r is Err ==> *final(self) == *old(self) && r == Err::<(), Error>(Error::BufferExhausted),
    {
        let b = [(x % 256) as u8, (x / 256) as u8];
        assert(b@ =~= le_u16(x));
        self.write_bytes(&b)
    }

    /// Writes a `u32`, least significant byte first.
    pub fn write_u32_le(&mut self, x: u32) -> (r: Result<(), Error>)
        requires
            old(self).wf(),
        ensures
            final(self).wf(),
            r is Ok <==> 4 <= old(self).remaining(),
            r is Ok ==> old(self).wrote(final(self), le_u32(x)),
            r is Err ==> *final(self) == *old(self) && r == Err::<(), Error>(Error::BufferExhausted),
    {
        let b = [
            (x % 256) as u8,
            ((x / 256) % 256) as u8,
            ((x / 65536) % 256) as u8,
            (x / 16777216) as u8,
        ];
        assert(b@ =~= le_u32(x));
        self.write_bytes(&b)
    }
}

/// Repeated calls of `consume` never decrease the consumed length, and one
/// that fails leaves it unchanged: in a run of cursors `cs` where each is
/// the one before after `consume(ns[i])`, the positions never go down.
pub proof fn lemma_consume_monotone(cs: Seq<Cursor>, ns: Seq<usize>, oks: Seq<bool>)
    requires
        cs.len() == ns.len() + 1,
        oks.len() == ns.len(),
        forall|i: int| 0 <= i < ns.len() ==> #[trigger] cs[i].consume_step(ns[i] as int, &cs[i + 1], oks[i]),
    ensures
        forall|i: int, j: int| 0 <= i <= j < cs.len() ==> cs[i].position() <= cs[j].position(),
        forall|i: int| 0 <= i < ns.len() && !oks[i] ==> cs[i + 1].position() == cs[i].position(),
    decreases ns.len(),
{
    if ns.len() > 0 {
        let k = ns.len() - 1;
        lemma_consume_monotone(cs.take(k + 1), ns.take(k), oks.take(k));
        assert forall|i: int| 0 <= i < ns.take(k).len() implies #[trigger] cs.take(k + 1)[i].consume_step(
            ns.take(k)[i] as int,
            &cs.take(k + 1)[i + 1],
            oks.take(k)[i],
        ) by {
            assert(cs[i].consume_step(ns[i] as int, &cs[i + 1], oks[i]));
        }
        assert(cs[k].consume_step(ns[k] as int, &cs[k + 1], oks[k]));
        assert forall|i: int, j: int| 0 <= i <= j < cs.len() implies cs[i].position() <= cs[j].position() by {
            if j < cs.len() - 1 {
                assert(cs.take(k + 1)[i] == cs[i] && cs.take(k + 1)[j] == cs[j]);
            } else if i < j {
                assert(cs.take(k + 1)[i] == cs[i] && cs.take(k + 1)[k] == cs[k]);
            }
        }
        assert forall|i: int| 0 <= i < ns.len() && !oks[i] implies cs[i + 1].position() == cs[i].position() by {
            assert(cs[i].consume_step(ns[i] as int, &cs[i + 1], oks[i]));
        }
    }
}

/// Seeking to the consumed length succeeds and changes nothing.
pub proof fn lemma_seek_to_position(c: Cursor, d: Cursor, ok: bool)
    requires
        c.wf(),
        c.seek_step(SeekPos::Abs(c.position() as usize), &d, ok),
    ensures
        ok,
        d.buffer() == c.buffer(),
        d.position() == c.position(),
{
}

/// A relative seek by `k` and then by `-k`, both in bounds, brings the
/// position back where it was.
pub proof fn lemma_seek_back_and_forth(c: Cursor, d: Cursor, e: Cursor, k: isize)
    requires
        c.wf(),
        k > isize::MIN,
        c.seek_step(SeekPos::Rel(k), &d, true),
        d.seek_step(SeekPos::Rel(-k as isize), &e, true),
    ensures
        e.buffer() == c.buffer(),
        e.position() == c.position(),
{
}

/// After `take_consumed_bytes` nothing is consumed, and a second call with
/// nothing in between takes no bytes.
pub proof fn lemma_take_resets(c: Cursor, d: Cursor, e: Cursor, first: Seq<u8>, second: Seq<u8>)
    requires
        c.wf(),
        c.take_step(&d, first),
        d.take_step(&e, second),
    ensures
        d.position() == 0,
        second.len() == 0,
{
}

/// With exactly `n` bytes left, `consume(n)` succeeds and moves the position
/// to the end of the buffer, and `consume(n + 1)` fails.
pub proof fn lemma_exhaustion_boundary(c: Cursor, d: Cursor, e: Cursor, n: usize, ok: bool, ok1: bool)
    requires
        c.wf(),
        c.remaining() == n,
        c.consume_step(n as int, &d, ok),
        c.consume_step(n + 1, &e, ok1),
    ensures
        ok,
        d.position() == c.buffer().len(),
        !ok1,
        e.position() == c.position(),
{
}

} // verus!
