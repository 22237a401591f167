//! The `KeyExchange` command: negotiating, pairing and destroying an
//! encrypted session.
//!
//! Requests and responses start with one tag byte that selects the variant;
//! the variant's fields follow.
use vstd::prelude::*;

use crate::cursor::{lemma_wrote_twice, Cursor};
use crate::error::Error;
use crate::le::{le_u16, lemma_le_u16_round_trip, lemma_u16_of_le_round_trip, u16_of_le};
use crate::reader::Reader;

verus! {

/// The kind of a key exchange message, sent as its first byte.
#[derive(Clone, Copy, Debug, PartialEq, Eq, Structural)]
pub enum RequestType {
    /// Establish a shared session key: `0x00`.
    SessionKey,
    /// Compare pairing keys, or generate them the first time: `0x01`.
    PairedKeyHmac,
    /// Destroy an encrypted session: `0x02`.
    DestroySession,
}

impl RequestType {
    /// The tag byte of this kind.
    pub open spec fn byte(&self) -> u8 {
        match self {
            RequestType::SessionKey => 0,
            RequestType::PairedKeyHmac => 1,
            RequestType::DestroySession => 2,
        }
    }

    /// The tag byte of this kind.
    pub fn to_byte(&self) -> (b: u8)
        ensures
            b == self.byte(),
    {
        match self {
            RequestType::SessionKey => 0,
            RequestType::PairedKeyHmac => 1,
            RequestType::DestroySession => 2,
        }
    }

    /// Reads a tag byte.
    ///
    /// Fails with `BufferExhausted` on empty input, and with `OutOfRange` on
    /// a byte that names no kind.
    pub fn from_wire(r: &mut Reader) -> (res: Result<Self, Error>)
        ensures
            res is Ok <==> old(r).data().len() >= 1 && old(r).data()[0] <= 2,
            res matches Ok(t) ==> t.byte() == old(r).data()[0] && old(r).advanced(final(r), 1),
            res matches Err(e) ==> e == tag_error(old(r).data()),
    {
        let b = r.read_u8()?;
        if b == 0 {
            Ok(RequestType::SessionKey)
        } else if b == 1 {
            Ok(RequestType::PairedKeyHmac)
        } else if b == 2 {
            Ok(RequestType::DestroySession)
        } else {
            Err(Error::OutOfRange)
        }
    }
}

/// The error of a message whose tag cannot be read from `s`, or whose body
/// is too short: `OutOfRange` for an unknown tag, else `BufferExhausted`.
pub open spec fn tag_error(s: Seq<u8>) -> Error {
    if s.len() > 0 && s[0] > 2 {
        Error::OutOfRange
    } else {
        Error::BufferExhausted
    }
}

/// A key exchange request.
#[derive(Clone, Copy, Debug, PartialEq, Eq)]
pub enum KeyExchangeRequest<'wire> {
    /// A request to establish a shared session key.
    SessionKey {
        /// The HMAC algorithm to use throughout the session.
        hmac_algorithm: u8,
        /// A DER-encoded ECDSA public key, to be fed into the ECDH.
        pk_req: &'wire [u8],
    },
    /// A request to compare pairing keys, or generate them the first time.
    PairedKeyHmac {
        /// The length of the pairing key, in bytes.
        key_len: usize,
        /// The HMAC of the pairing key with the session's MAC key.
        key_hmac: &'wire [u8],
    },
    /// A request to destroy an encrypted session.
    DestroySession {
        /// The HMAC of the session key with the session's MAC key.
        session_hmac: &'wire [u8],
    },
}

impl<'wire> KeyExchangeRequest<'wire> {
    /// The request can be encoded: a pairing key length fits a `u16`.
    pub open spec fn wire_ok(&self) -> bool {
        match self {
            KeyExchangeRequest::PairedKeyHmac { key_len, .. } => *key_len <= u16::MAX,
            _ => true,
        }
    }

    /// The encoding: the tag, then the variant's fields, the last of which
    /// runs to the end.
    pub open spec fn wire(&self) -> Seq<u8> {
        match self {
            KeyExchangeRequest::SessionKey { hmac_algorithm, pk_req } => seq![0u8, *hmac_algorithm]
                + pk_req@,
            KeyExchangeRequest::PairedKeyHmac { key_len, key_hmac } => seq![1u8] + le_u16(
                *key_len as u16,
            ) + key_hmac@,
            KeyExchangeRequest::DestroySession { session_hmac } => seq![2u8] + session_hmac@,
        }
    }

    /// `s` holds a whole request: a known tag and the fixed fields of its
    /// variant.
    pub open spec fn accepts(s: Seq<u8>) -> bool {
        &&& s.len() >= 1
        &&& s[0] <= 2
        &&& s[0] == 0 ==> s.len() >= 2
        &&& s[0] == 1 ==> s.len() >= 3
    }

    /// Decodes a request from all the bytes left in `r`; the variable-length
    /// field borrows from the input.
    ///
    /// Fails with `OutOfRange` on an unknown tag, and with `BufferExhausted`
    /// if the input ends early.
    pub fn from_wire(r: &mut Reader<'wire>) -> (res: Result<Self, Error>)
        ensures
            res is Ok <==> Self::accepts(old(r).data()),
            res matches Ok(v) ==> v.wire_ok() && v.wire() == old(r).data() && final(r).data().len()
                == 0,
            res matches Err(e) ==> e == tag_error(old(r).data()),
    {
        let ghost s = r.data();
        let t = RequestType::from_wire(r)?;
        match t {
            RequestType::SessionKey => {
                let hmac_algorithm = r.read_u8()?;
                let pk_req = r.read_rest();
                let v = KeyExchangeRequest::SessionKey { hmac_algorithm, pk_req };
                assert(v.wire() =~= s);
                Ok(v)
            },
            RequestType::PairedKeyHmac => {
                let key_len = r.read_u16_le()? as usize;
                let key_hmac = r.read_rest();
                let v = KeyExchangeRequest::PairedKeyHmac { key_len, key_hmac };
                proof {
                    lemma_u16_of_le_round_trip(s[1], s[2]);
                    assert(v.wire() =~= s);
                }
                Ok(v)
            },
            RequestType::DestroySession => {
                let session_hmac = r.read_rest();
                let v = KeyExchangeRequest::DestroySession { session_hmac };
                assert(v.wire() =~= s);
                Ok(v)
            },
        }
    }

    /// Writes the encoding of the request at the cursor.
    ///
    /// Fails with `OutOfRange` if a pairing key length does not fit a `u16`,
    /// else with `BufferExhausted` if the encoding does not fit; either way
    /// it writes nothing.
    pub fn to_wire(&self, w: &mut Cursor) -> (r: Result<(), Error>)
        requires
            old(w).wf(),
        ensures
            final(w).wf(),
            r is Ok <==> self.wire_ok() && self.wire().len() <= old(w).remaining(),
            r is Ok ==> old(w).wrote(final(w), self.wire()),
            r is Err ==> *final(w) == *old(w),
            r matches Err(e) ==> e == if self.wire_ok() {
                Error::BufferExhausted
            } else {
                Error::OutOfRange
            },
    {
        let rem = w.remaining_len();
        let ghost w0 = *w;
        match self {
            KeyExchangeRequest::SessionKey { hmac_algorithm, pk_req } => {
                if rem < 2 || rem - 2 < pk_req.len() {
                    return Err(Error::BufferExhausted);
                }
                w.write_u8(RequestType::SessionKey.to_byte())?;
                let ghost w1 = *w;
                w.write_u8(*hmac_algorithm)?;
                proof { lemma_wrote_twice(&w0, &w1, w, seq![0u8], seq![*hmac_algorithm]); }
                let ghost w2 = *w;
                w.write_bytes(pk_req)?;
                proof {
                    lemma_wrote_twice(&w0, &w2, w, seq![0u8] + seq![*hmac_algorithm], pk_req@);
                    assert(seq![0u8] + seq![*hmac_algorithm] =~= seq![0u8, *hmac_algorithm]);
                }
            },
            KeyExchangeRequest::PairedKeyHmac { key_len, key_hmac } => {
                if *key_len > 65535 {
                    return Err(Error::OutOfRange);
                }
                if rem < 3 || rem - 3 < key_hmac.len() {
                    return Err(Error::BufferExhausted);
                }
                w.write_u8(RequestType::PairedKeyHmac.to_byte())?;
                let ghost w1 = *w;
                w.write_u16_le(*key_len as u16)?;
                proof { lemma_wrote_twice(&w0, &w1, w, seq![1u8], le_u16(*key_len as u16)); }
                let ghost w2 = *w;
                w.write_bytes(key_hmac)?;
                proof {
                    lemma_wrote_twice(&w0, &w2, w, seq![1u8] + le_u16(*key_len as u16), key_hmac@);
                }
            },
            KeyExchangeRequest::DestroySession { session_hmac } => {
                if rem < 1 || rem - 1 < session_hmac.len() {
                    return Err(Error::BufferExhausted);
                }
                w.write_u8(RequestType::DestroySession.to_byte())?;
                let ghost w1 = *w;
                w.write_bytes(session_hmac)?;
                proof { lemma_wrote_twice(&w0, &w1, w, seq![2u8], session_hmac@); }
            },
        }
        Ok(())
    }
}

/// Round trip of a request: the encoding of an encodable request is
/// accepted by the decoder, and no other encodable request has the same
/// encoding.
pub proof fn lemma_key_exchange_request_round_trip(v: KeyExchangeRequest, u: KeyExchangeRequest)
    requires
        v.wire_ok(),
        u.wire_ok(),
    ensures
        KeyExchangeRequest::accepts(v.wire()),
        u.wire() == v.wire() ==> u == v,
{
    if u.wire() == v.wire() {
        let s = v.wire();
        assert(u.wire()[0] == s[0]);
        match (u, v) {
            (
                KeyExchangeRequest::SessionKey { hmac_algorithm: a1, pk_req: pk1 },
                KeyExchangeRequest::SessionKey { hmac_algorithm: a2, pk_req: pk2 },
            ) => {
                assert(u.wire()[1] == s[1]);
                assert(pk1@ =~= u.wire().skip(2));
                assert(pk2@ =~= s.skip(2));
                assert(pk1 =~= pk2);
            },
            (
                KeyExchangeRequest::PairedKeyHmac { key_len: l1, key_hmac: h1 },
                KeyExchangeRequest::PairedKeyHmac { key_len: l2, key_hmac: h2 },
            ) => {
                assert(le_u16(l1 as u16) =~= u.wire().subrange(1, 3));
                assert(le_u16(l2 as u16) =~= s.subrange(1, 3));
                lemma_le_u16_round_trip(l1 as u16);
                lemma_le_u16_round_trip(l2 as u16);
                assert(h1@ =~= u.wire().skip(3));
                assert(h2@ =~= s.skip(3));
                assert(h1 =~= h2);
            },
            (
                KeyExchangeRequest::DestroySession { session_hmac: h1 },
                KeyExchangeRequest::DestroySession { session_hmac: h2 },
            ) => {
                assert(h1@ =~= u.wire().skip(1));
                assert(h2@ =~= s.skip(1));
                assert(h1 =~= h2);
            },
            _ => {},
        }
    }
}

/// A key exchange response.
#[derive(Clone, Copy, Debug, PartialEq, Eq)]
pub enum KeyExchangeResponse<'wire> {
    /// A response to a session establishment request.
    SessionKey {
        /// A DER-encoded ECDSA public key, to be fed into the ECDH.
        pk_resp: &'wire [u8],
        /// A signature over `pk_req || pk_resp`, made with the private key of
        /// the previously negotiated alias certificate.
        signature: &'wire [u8],
        /// The HMAC of the encoded alias cert with the session's MAC key.
        alias_cert_hmac: &'wire [u8],
    },
    /// A response to a paired-key HMAC request; indicates success.
    PairedKeyHmac,
    /// A response to a session-destruction request; indicates success.
    DestroySession,
}

/// The length held in the two bytes of `s` at `at`, least significant first.
pub open spec fn len_at(s: Seq<u8>, at: int) -> int {
    u16_of_le(s[at], s[at + 1]) as int
}

impl<'wire> KeyExchangeResponse<'wire> {
    /// The response can be encoded: both length-prefixed fields are at most
    /// `u16::MAX` bytes long.
    pub open spec fn wire_ok(&self) -> bool {
        match self {
            KeyExchangeResponse::SessionKey { pk_resp, signature, .. } => pk_resp@.len()
                <= u16::MAX && signature@.len() <= u16::MAX,
            _ => true,
        }
    }

    /// The encoding: the tag, then for a session key the public key and the
    /// signature, each after its length as a little-endian `u16`, then the
    /// HMAC up to the end.
    pub open spec fn wire(&self) -> Seq<u8> {
        match self {
            KeyExchangeResponse::SessionKey { pk_resp, signature, alias_cert_hmac } => seq![0u8]
                + le_u16(pk_resp@.len() as u16) + pk_resp@ + le_u16(signature@.len() as u16)
                + signature@ + alias_cert_hmac@,
            KeyExchangeResponse::PairedKeyHmac => seq![1u8],
            KeyExchangeResponse::DestroySession => seq![2u8],
        }
    }

    /// `s` starts with a whole response: a known tag and, for a session key,
    /// both length-prefixed fields in full.
    pub open spec fn accepts(s: Seq<u8>) -> bool {
        &&& s.len() >= 1
        &&& s[0] <= 2
        &&& s[0] == 0 ==> {
            &&& s.len() >= 5
            &&& s.len() >= 5 + len_at(s, 1)
            &&& s.len() >= 5 + len_at(s, 1) + len_at(s, 3 + len_at(s, 1))
        }
    }

    /// The number of bytes a response decoded from `s` takes: all of them
    /// for a session key, else the tag alone.
    pub open spec fn consumed(s: Seq<u8>) -> int {
        if s[0] == 0 {
            s.len() as int
        } else {
            1
        }
    }

    /// Decodes a response from `r`; the fields borrow from the input. A
    /// session key takes all the bytes left, the other kinds the tag alone.
    ///
    /// Fails with `OutOfRange` on an unknown tag, and with `BufferExhausted`
    /// if the input ends early.
    pub fn from_wire(r: &mut Reader<'wire>) -> (res: Result<Self, Error>)
        ensures
            res is Ok <==> Self::accepts(old(r).data()),
            res matches Ok(v) ==> v.wire_ok() && v.wire() == old(r).data().take(
                Self::consumed(old(r).data()),
            ) && old(r).advanced(final(r), Self::consumed(old(r).data())),
            res matches Err(e) ==> e == tag_error(old(r).data()),
    {
        let ghost s = r.data();
        let t = RequestType::from_wire(r)?;
        match t {
            RequestType::SessionKey => {
                let pk_len = r.read_u16_le()? as usize;
                let pk_resp = r.read_slice(pk_len)?;
                let ghost p = pk_len as int;
                assert(r.data() =~= s.skip(3 + p));
                let sig_len = r.read_u16_le()? as usize;
                let signature = r.read_slice(sig_len)?;
                let alias_cert_hmac = r.read_rest();
                let v = KeyExchangeResponse::SessionKey { pk_resp, signature, alias_cert_hmac };
                proof {
                    lemma_u16_of_le_round_trip(s[1], s[2]);
                    lemma_u16_of_le_round_trip(s[3 + p], s[4 + p]);
                    assert(v.wire() =~= s);
                    assert(s.take(s.len() as int) =~= s);
                    assert(r.data() =~= s.skip(s.len() as int));
                }
                Ok(v)
            },
            RequestType::PairedKeyHmac => {
                assert(s.take(1) =~= seq![1u8]);
                Ok(KeyExchangeResponse::PairedKeyHmac)
            },
            RequestType::DestroySession => {
                assert(s.take(1) =~= seq![2u8]);
                Ok(KeyExchangeResponse::DestroySession)
            },
        }
    }

    /// Writes the encoding of the response at the cursor.
    ///
    /// Fails with `OutOfRange` if a length-prefixed field is longer than
    /// `u16::MAX`, else with `BufferExhausted` if the encoding does not fit;
    /// either way it writes nothing.
    pub fn to_wire(&self, w: &mut Cursor) -> (r: Result<(), Error>)
        requires
            old(w).wf(),
        ensures
            final(w).wf(),
            r is Ok <==> self.wire_ok() && self.wire().len() <= old(w).remaining(),
            r is Ok ==> old(w).wrote(final(w), self.wire()),
            r is Err ==> *final(w) == *old(w),
            r matches Err(e) ==> e == if self.wire_ok() {
                Error::BufferExhausted
            } else {
                Error::OutOfRange
            },
    {
        let rem = w.remaining_len();
        let ghost w0 = *w;
        match self {
            KeyExchangeResponse::SessionKey { pk_resp, signature, alias_cert_hmac } => {
                if pk_resp.len() > 65535 || signature.len() > 65535 {
                    return Err(Error::OutOfRange);
                }
                let fixed = 5 + pk_resp.len() + signature.len();
                if rem < fixed || rem - fixed < alias_cert_hmac.len() {
                    return Err(Error::BufferExhausted);
                }
                let ghost a = seq![0u8];
                let ghost b = a + le_u16(pk_resp@.len() as u16);
                let ghost c = b + pk_resp@;
                let ghost d = c + le_u16(signature@.len() as u16);
                let ghost e = d + signature@;
                w.write_u8(RequestType::SessionKey.to_byte())?;
                let ghost w1 = *w;
                w.write_u16_le(pk_resp.len() as u16)?;
                proof { lemma_wrote_twice(&w0, &w1, w, a, le_u16(pk_resp@.len() as u16)); }
                let ghost w2 = *w;
                w.write_bytes(pk_resp)?;
                proof { lemma_wrote_twice(&w0, &w2, w, b, pk_resp@); }
                let ghost w3 = *w;
                w.write_u16_le(signature.len() as u16)?;
                proof { lemma_wrote_twice(&w0, &w3, w, c, le_u16(signature@.len() as u16)); }
                let ghost w4 = *w;
                w.write_bytes(signature)?;
                proof { lemma_wrote_twice(&w0, &w4, w, d, signature@); }
                let ghost w5 = *w;
                w.write_bytes(alias_cert_hmac)?;
                proof { lemma_wrote_twice(&w0, &w5, w, e, alias_cert_hmac@); }
                Ok(())
            },
            KeyExchangeResponse::PairedKeyHmac => w.write_u8(RequestType::PairedKeyHmac.to_byte()),
            KeyExchangeResponse::DestroySession => w.write_u8(RequestType::DestroySession.to_byte()),
        }
    }
}

/// Round trip of a response: the encoding of an encodable response is
/// accepted by the decoder, which takes exactly its bytes, and no other
/// encodable response has the same encoding.
pub proof fn lemma_key_exchange_response_round_trip(v: KeyExchangeResponse, u: KeyExchangeResponse)
    requires
        v.wire_ok(),
        u.wire_ok(),
    ensures
        KeyExchangeResponse::accepts(v.wire()),
        KeyExchangeResponse::consumed(v.wire()) == v.wire().len(),
        u.wire() == v.wire() ==> u == v,
{
    let s = v.wire();
    if let KeyExchangeResponse::SessionKey { pk_resp, signature, alias_cert_hmac } = v {
        let p = pk_resp@.len() as int;
        lemma_le_u16_round_trip(pk_resp@.len() as u16);
        lemma_le_u16_round_trip(signature@.len() as u16);
        assert(s[1] == le_u16(pk_resp@.len() as u16)[0] && s[2] == le_u16(pk_resp@.len() as u16)[1]);
        assert(len_at(s, 1) == p);
        assert(s[3 + p] == le_u16(signature@.len() as u16)[0]);
        assert(s[4 + p] == le_u16(signature@.len() as u16)[1]);
        assert(len_at(s, 3 + p) == signature@.len());
    }
    if u.wire() == v.wire() {
        assert(u.wire()[0] == s[0]);
        if let (
            KeyExchangeResponse::SessionKey { pk_resp: pk1, signature: g1, alias_cert_hmac: h1 },
            KeyExchangeResponse::SessionKey { pk_resp: pk2, signature: g2, alias_cert_hmac: h2 },
        ) = (u, v) {
            let t = u.wire();
            lemma_le_u16_round_trip(pk1@.len() as u16);
            lemma_le_u16_round_trip(pk2@.len() as u16);
            assert(t[1] == le_u16(pk1@.len() as u16)[0] && t[2] == le_u16(pk1@.len() as u16)[1]);
            assert(s[1] == le_u16(pk2@.len() as u16)[0] && s[2] == le_u16(pk2@.len() as u16)[1]);
            let p = pk1@.len() as int;
            assert(pk2@.len() == p);
            assert(pk1@ =~= t.subrange(3, 3 + p));
            assert(pk2@ =~= s.subrange(3, 3 + p));
            lemma_le_u16_round_trip(g1@.len() as u16);
            lemma_le_u16_round_trip(g2@.len() as u16);
            assert(t[3 + p] == le_u16(g1@.len() as u16)[0] && t[4 + p] == le_u16(g1@.len() as u16)[1]);
            assert(s[3 + p] == le_u16(g2@.len() as u16)[0] && s[4 + p] == le_u16(g2@.len() as u16)[1]);
            let g = g1@.len() as int;
            assert(g2@.len() == g);
            assert(g1@ =~= t.subrange(5 + p, 5 + p + g));
            assert(g2@ =~= s.subrange(5 + p, 5 + p + g));
            assert(h1@ =~= t.skip(5 + p + g));
            assert(h2@ =~= s.skip(5 + p + g));
            assert(pk1 =~= pk2);
            assert(g1 =~= g2);
            assert(h1 =~= h2);
        }
    }
}

} // verus!
