//! The `GetCert` command: reading a chunk of a certificate from one of the
//! device's certificate chains.
use vstd::prelude::*;

use crate::cursor::{lemma_wrote_twice, Cursor};
use crate::error::Error;
use crate::le::{le_u16, lemma_le_u16_round_trip, lemma_u16_of_le_round_trip};
use crate::reader::Reader;

verus! {

/// A request for a chunk of a certificate.
#[derive(Clone, Copy, Debug, PartialEq, Eq, Structural)]
pub struct GetCertRequest {
    /// The slot number of the chain to read from.
    pub slot: u8,
    /// The number of the cert to request, indexed from the root.
    pub cert_number: u8,
    /// The offset in bytes from the start of the certificate to read from.
    pub offset: u16,
    /// The number of bytes to read.
    pub len: u16,
}

impl GetCertRequest {
    /// The encoding: `slot`, `cert_number`, then `offset` and `len` as
    /// little-endian `u16`s.
    pub open spec fn wire(&self) -> Seq<u8> {
        seq![self.slot, self.cert_number] + le_u16(self.offset) + le_u16(self.len)
    }

    /// The number of bytes a request takes on the wire.
    pub open spec fn wire_len() -> nat {
        6
    }

    /// Decodes a request from the next six bytes of `r`.
    ///
    /// Fails with `BufferExhausted` if fewer than six bytes remain.
    pub fn from_wire(r: &mut Reader) -> (res: Result<Self, Error>)
        ensures
            res is Ok <==> old(r).data().len() >= Self::wire_len(),
            res matches Ok(v) ==> v.wire() == old(r).data().take(Self::wire_len() as int)
                && old(r).advanced(final(r), Self::wire_len() as int),
            res is Err ==> res == Err::<Self, Error>(Error::BufferExhausted),
    {
        let ghost s = r.data();
        let slot = r.read_u8()?;
        let cert_number = r.read_u8()?;
        let offset = r.read_u16_le()?;
        let len = r.read_u16_le()?;
        let v = GetCertRequest { slot, cert_number, offset, len };
        proof {
            lemma_u16_of_le_round_trip(s[2], s[3]);
            lemma_u16_of_le_round_trip(s[4], s[5]);
            assert(v.wire() =~= s.take(6));
            assert(r.data() =~= s.skip(6));
        }
        Ok(v)
    }

    /// Writes the encoding of the request at the cursor.
    ///
    /// Fails with `BufferExhausted`, writing nothing, if it does not fit.
    pub fn to_wire(&self, w: &mut Cursor) -> (r: Result<(), Error>)
        requires
            old(w).wf(),
        ensures
            final(w).wf(),
            r is Ok <==> self.wire().len() <= old(w).remaining(),
            r is Ok ==> old(w).wrote(final(w), self.wire()),
            r is Err ==> *final(w) == *old(w) && r == Err::<(), Error>(Error::BufferExhausted),
    {
        if w.remaining_len() < 6 {
            return Err(Error::BufferExhausted);
        }
        let ghost w0 = *w;
        w.write_u8(self.slot)?;
        let ghost w1 = *w;
        w.write_u8(self.cert_number)?;
        proof { lemma_wrote_twice(&w0, &w1, w, seq![self.slot], seq![self.cert_number]); }
        let ghost w2 = *w;
        w.write_u16_le(self.offset)?;
        proof {
            lemma_wrote_twice(&w0, &w2, w, seq![self.slot] + seq![self.cert_number], le_u16(self.offset));
        }
        let ghost w3 = *w;
        w.write_u16_le(self.len)?;
        proof {
            lemma_wrote_twice(
                &w0,
                &w3,
                w,
                seq![self.slot] + seq![self.cert_number] + le_u16(self.offset),
                le_u16(self.len),
            );
            assert(seq![self.slot] + seq![self.cert_number] =~= seq![self.slot, self.cert_number]);
        }
        Ok(())
    }
}

/// Round trip of a request: its encoding decodes, taking all six bytes, and
/// no other request has the same encoding.
pub proof fn lemma_get_cert_request_round_trip(v: GetCertRequest, u: GetCertRequest)
    ensures
        v.wire().len() == GetCertRequest::wire_len(),
        u.wire() == v.wire() ==> u == v,
{
    if u.wire() == v.wire() {
        assert(u.wire()[0] == v.wire()[0] && u.wire()[1] == v.wire()[1]);
        assert(le_u16(u.offset) =~= u.wire().subrange(2, 4));
        assert(le_u16(v.offset) =~= v.wire().subrange(2, 4));
        assert(le_u16(u.len) =~= u.wire().subrange(4, 6));
        assert(le_u16(v.len) =~= v.wire().subrange(4, 6));
        lemma_le_u16_round_trip(u.offset);
        lemma_le_u16_round_trip(v.offset);
        lemma_le_u16_round_trip(u.len);
        lemma_le_u16_round_trip(v.len);
    }
}

/// A chunk of a certificate, answering a [`GetCertRequest`].
#[derive(Clone, Copy, Debug, PartialEq, Eq)]
pub struct GetCertResponse<'wire> {
    /// The slot number of the chain read from.
    pub slot: u8,
    /// The number of the cert, indexed from the root.
    pub cert_number: u8,
    /// The data read from the certificate.
    pub data: &'wire [u8],
}

impl<'wire> GetCertResponse<'wire> {
    /// The encoding: `slot`, `cert_number`, then the data up to the end.
    pub open spec fn wire(&self) -> Seq<u8> {
        seq![self.slot, self.cert_number] + self.data@
    }

    /// Decodes a response from all the bytes left in `r`; the data borrows
    /// from the input.
    ///
    /// Fails with `BufferExhausted` if fewer than two bytes remain.
    pub fn from_wire(r: &mut Reader<'wire>) -> (res: Result<Self, Error>)
        ensures
            res is Ok <==> old(r).data().len() >= 2,
            res matches Ok(v) ==> v.wire() == old(r).data() && final(r).data().len() == 0,
            res is Err ==> res == Err::<Self, Error>(Error::BufferExhausted),
    {
        let ghost s = r.data();
        let slot = r.read_u8()?;
        let cert_number = r.read_u8()?;
        let data = r.read_rest();
        let v = GetCertResponse { slot, cert_number, data };
        assert(v.wire() =~= s);
        Ok(v)
    }

    /// Writes the encoding of the response at the cursor.
    ///
    /// Fails with `BufferExhausted`, writing nothing, if it does not fit.
    pub fn to_wire(&self, w: &mut Cursor) -> (r: Result<(), Error>)
        requires
            old(w).wf(),
        ensures
            final(w).wf(),
            r is Ok <==> self.wire().len() <= old(w).remaining(),
            r is Ok ==> old(w).wrote(final(w), self.wire()),
            r is Err ==> *final(w) == *old(w) && r == Err::<(), Error>(Error::BufferExhausted),
    {
        let rem = w.remaining_len();
        if rem < 2 || rem - 2 < self.data.len() {
            return Err(Error::BufferExhausted);
        }
        let ghost w0 = *w;
        w.write_u8(self.slot)?;
        let ghost w1 = *w;
        w.write_u8(self.cert_number)?;
        proof { lemma_wrote_twice(&w0, &w1, w, seq![self.slot], seq![self.cert_number]); }
        let ghost w2 = *w;
        w.write_bytes(self.data)?;
        proof {
            lemma_wrote_twice(&w0, &w2, w, seq![self.slot] + seq![self.cert_number], self.data@);
            assert(seq![self.slot] + seq![self.cert_number] =~= seq![self.slot, self.cert_number]);
        }
        Ok(())
    }
}

/// Round trip of a response: its encoding decodes, and no other response has
/// the same encoding.
pub proof fn lemma_get_cert_response_round_trip(v: GetCertResponse, u: GetCertResponse)
    ensures
        v.wire().len() >= 2,
        u.wire() == v.wire() ==> u == v,
{
    if u.wire() == v.wire() {
        assert(u.wire()[0] == v.wire()[0] && u.wire()[1] == v.wire()[1]);
        assert(u.data@ =~= u.wire().skip(2));
        assert(v.data@ =~= v.wire().skip(2));
        assert(u.data =~= v.data);
    }
}

} // verus!
