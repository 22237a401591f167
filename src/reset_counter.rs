//! The `ResetCounter` command: how many resets a device has undergone since
//! it powered on.
use vstd::prelude::*;

use crate::cursor::{lemma_wrote_twice, Cursor};
use crate::error::Error;
use crate::le::{le_u16, lemma_le_u16_round_trip, lemma_u16_of_le_round_trip};
use crate::reader::Reader;

verus! {

/// The kind of reset counter queried.
#[derive(Clone, Copy, Debug, PartialEq, Eq, Structural)]
pub enum ResetType {
    /// A reset of the device handling the request: `0x00`.
    Local,
    /// A reset of an external device connected to it, such as an external
    /// flash: `0x01`.
    External,
}

impl ResetType {
    /// The byte that stands for this kind on the wire.
    pub open spec fn byte(&self) -> u8 {
        match self {
            ResetType::Local => 0,
            ResetType::External => 1,
        }
    }

    /// The byte that stands for this kind on the wire.
    pub fn to_byte(&self) -> (b: u8)
        ensures
            b == self.byte(),
    {
        match self {
            ResetType::Local => 0,
            ResetType::External => 1,
        }
    }

    /// The kind that `b` stands for, if any.
    pub fn from_byte(b: u8) -> (r: Result<Self, Error>)
        ensures
            r is Ok <==> b <= 1,
            r matches Ok(t) ==> t.byte() == b,
            r is Err ==> r == Err::<Self, Error>(Error::OutOfRange),
    {
        if b == 0 {
            Ok(ResetType::Local)
        } else if b == 1 {
            Ok(ResetType::External)
        } else {
            Err(Error::OutOfRange)
        }
    }
}

/// A request for a reset counter.
#[derive(Clone, Copy, Debug, PartialEq, Eq, Structural)]
pub struct ResetCounterRequest {
    /// The kind of counter looked up.
    pub reset_type: ResetType,
    /// The port of the device whose counter is looked up.
    pub port_id: u8,
}

impl ResetCounterRequest {
    /// The encoding: the reset type's byte, then the port.
    pub open spec fn wire(&self) -> Seq<u8> {
        seq![self.reset_type.byte(), self.port_id]
    }

    /// `s` starts with a whole request: a known reset type and a port.
    pub open spec fn accepts(s: Seq<u8>) -> bool {
        s.len() >= 2 && s[0] <= 1
    }

    /// The error of decoding `s`: `OutOfRange` for an unknown reset type,
    /// else `BufferExhausted`.
    pub open spec fn decode_error(s: Seq<u8>) -> Error {
        if s.len() > 0 && s[0] > 1 {
            Error::OutOfRange
        } else {
            Error::BufferExhausted
        }
    }

    /// Decodes a request from the next two bytes of `r`.
    ///
    /// Fails with `OutOfRange` on an unknown reset type, and with
    /// `BufferExhausted` if the input ends early.
    pub fn from_wire(r: &mut Reader) -> (res: Result<Self, Error>)
        ensures
            res is Ok <==> Self::accepts(old(r).data()),
            res matches Ok(v) ==> v.wire() == old(r).data().take(2) && old(r).advanced(final(r), 2),
            res matches Err(e) ==> e == Self::decode_error(old(r).data()),
    {
        let ghost s = r.data();
        let b = r.read_u8()?;
        let reset_type = ResetType::from_byte(b)?;
        let port_id = r.read_u8()?;
        let v = ResetCounterRequest { reset_type, port_id };
        proof {
            assert(v.wire() =~= s.take(2));
            assert(r.data() =~= s.skip(2));
        }
        Ok(v)
    }

    /// Writes the encoding of the request at the cursor.
    ///
    /// Fails with `BufferExhausted`, writing nothing, if it does not fit.
    pub fn to_wire(&self, w: &mut Cursor) -> (r: Result<(), Error>)
        requires
            old(w).wf(),
        ensures
            final(w).wf(),
            r is Ok <==> self.wire().len() <= old(w).remaining(),
            r is Ok ==> old(w).wrote(final(w), self.wire()),
            r is Err ==> *final(w) == *old(w) && r == Err::<(), Error>(Error::BufferExhausted),
    {
        if w.remaining_len() < 2 {
            return Err(Error::BufferExhausted);
        }
        let ghost w0 = *w;
        let t = self.reset_type.to_byte();
        w.write_u8(t)?;
        let ghost w1 = *w;
        w.write_u8(self.port_id)?;
        proof {
            lemma_wrote_twice(&w0, &w1, w, seq![t], seq![self.port_id]);
            assert(seq![t] + seq![self.port_id] =~= self.wire());
        }
        Ok(())
    }
}

/// Round trip of a request: its encoding decodes, taking both bytes, and no
/// other request has the same encoding.
pub proof fn lemma_reset_counter_request_round_trip(v: ResetCounterRequest, u: ResetCounterRequest)
    ensures
        ResetCounterRequest::accepts(v.wire()),
        v.wire().len() == 2,
        u.wire() == v.wire() ==> u == v,
{
    if u.wire() == v.wire() {
        assert(u.wire()[0] == v.wire()[0] && u.wire()[1] == v.wire()[1]);
    }
}

/// A request whose reset type byte names no known kind is rejected with
/// `OutOfRange`, whatever follows it.
pub proof fn lemma_unknown_reset_type_rejected(s: Seq<u8>)
    requires
        s.len() > 0,
        s[0] > 1,
    ensures
        !ResetCounterRequest::accepts(s),
        ResetCounterRequest::decode_error(s) == Error::OutOfRange,
{
}

/// A reset counter, answering a [`ResetCounterRequest`].
#[derive(Clone, Copy, Debug, PartialEq, Eq, Structural)]
pub struct ResetCounterResponse {
    /// The number of resets since power-on of the device asked about.
    pub count: u16,
}

impl ResetCounterResponse {
    /// The encoding: the count as a little-endian `u16`.
    pub open spec fn wire(&self) -> Seq<u8> {
        le_u16(self.count)
    }

    /// Decodes a response from the next two bytes of `r`.
    ///
    /// Fails with `BufferExhausted` if fewer than two bytes remain.
    pub fn from_wire(r: &mut Reader) -> (res: Result<Self, Error>)
        ensures
            res is Ok <==> old(r).data().len() >= 2,
            res matches Ok(v) ==> v.wire() == old(r).data().take(2) && old(r).advanced(final(r), 2),
            res is Err ==> res == Err::<Self, Error>(Error::BufferExhausted),
    {
        let ghost s = r.data();
        let count = r.read_u16_le()?;
        proof {
            lemma_u16_of_le_round_trip(s[0], s[1]);
            assert(le_u16(count) =~= s.take(2));
        }
        Ok(ResetCounterResponse { count })
    }

    /// Writes the encoding of the response at the cursor.
    ///
    /// Fails with `BufferExhausted`, writing nothing, if it does not fit.
    pub fn to_wire(&self, w: &mut Cursor) -> (r: Result<(), Error>)
        requires
            old(w).wf(),
        ensures
            final(w).wf(),
            r is Ok <==> self.wire().len() <= old(w).remaining(),
            r is Ok ==> old(w).wrote(final(w), self.wire()),
            r is Err ==> *final(w) == *old(w) && r == Err::<(), Error>(Error::BufferExhausted),
    {
        w.write_u16_le(self.count)
    }
}

/// Round trip of a response: its encoding decodes, taking both bytes, and no
/// other response has the same encoding.
pub proof fn lemma_reset_counter_response_round_trip(v: ResetCounterResponse, u: ResetCounterResponse)
    ensures
        v.wire().len() == 2,
        u.wire() == v.wire() ==> u == v,
{
    lemma_le_u16_round_trip(u.count);
    lemma_le_u16_round_trip(v.count);
}

} // verus!
