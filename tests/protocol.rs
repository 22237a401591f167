use manticore::command::{Command, CommandType, GetCert, KeyExchange, Request, ResetCounter, Response};
use manticore::cursor::Cursor;
use manticore::error::Error;
use manticore::get_cert::{GetCertRequest, GetCertResponse};
use manticore::key_exchange::{KeyExchangeRequest, KeyExchangeResponse, RequestType};
use manticore::reader::Reader;
use manticore::reset_counter::{ResetCounterRequest, ResetCounterResponse, ResetType};

fn scratch() -> Cursor {
    Cursor::new(vec![0; 256])
}

#[test]
fn get_cert_request_round_trip() {
    let bytes: &[u8] = &[0x01, 0x02, 0x01, 0x01, 0xff, 0x00];
    let value = GetCertRequest { slot: 1, cert_number: 2, offset: 257, len: 255 };
    let mut w = scratch();
    value.to_wire(&mut w).unwrap();
    assert_eq!(w.consumed_bytes(), bytes);
    let mut r = Reader::new(bytes);
    assert_eq!(GetCertRequest::from_wire(&mut r), Ok(value));
    assert_eq!(r.remaining_data(), 0);
}

#[test]
fn get_cert_request_leaves_trailing_bytes() {
    let bytes: &[u8] = &[1, 2, 3, 4, 5, 6, 7, 8];
    let mut r = Reader::new(bytes);
    let v = GetCertRequest::from_wire(&mut r).unwrap();
    assert_eq!(v, GetCertRequest { slot: 1, cert_number: 2, offset: 0x0403, len: 0x0605 });
    assert_eq!(r.remaining_data(), 2);
}

#[test]
fn get_cert_request_short_input() {
    let mut r = Reader::new(&[1, 2, 3, 4, 5]);
    assert_eq!(GetCertRequest::from_wire(&mut r), Err(Error::BufferExhausted));
}

#[test]
fn get_cert_request_does_not_fit() {
    let mut w = Cursor::new(vec![0; 5]);
    let value = GetCertRequest { slot: 1, cert_number: 2, offset: 3, len: 4 };
    assert_eq!(value.to_wire(&mut w), Err(Error::BufferExhausted));
    assert_eq!(w.consumed_len(), 0);
}

#[test]
fn get_cert_response_round_trip() {
    let bytes: &[u8] = &[0x01, 0x02, b'x', b'.', b'5', b'0', b'9'];
    let value = GetCertResponse { slot: 1, cert_number: 2, data: b"x.509" };
    let mut w = scratch();
    value.to_wire(&mut w).unwrap();
    assert_eq!(w.consumed_bytes(), bytes);
    let mut r = Reader::new(bytes);
    assert_eq!(GetCertResponse::from_wire(&mut r), Ok(value));
    assert_eq!(r.remaining_data(), 0);
}

#[test]
fn get_cert_response_errors() {
    let mut r = Reader::new(&[1]);
    assert_eq!(GetCertResponse::from_wire(&mut r), Err(Error::BufferExhausted));
    let value = GetCertResponse { slot: 1, cert_number: 2, data: b"abc" };
    let mut w = Cursor::new(vec![0; 4]);
    assert_eq!(value.to_wire(&mut w), Err(Error::BufferExhausted));
    assert_eq!(w.consumed_len(), 0);
}

#[test]
fn key_exchange_request_round_trip_session_key() {
    let bytes: &[u8] = &[0x00, 0x00, b'e', b'c', b'd', b's', b'a'];
    let value = KeyExchangeRequest::SessionKey { hmac_algorithm: 0, pk_req: b"ecdsa" };
    let mut w = scratch();
    value.to_wire(&mut w).unwrap();
    assert_eq!(w.consumed_bytes(), bytes);
    let mut r = Reader::new(bytes);
    assert_eq!(KeyExchangeRequest::from_wire(&mut r), Ok(value));
}

#[test]
fn key_exchange_request_round_trip_pairing_key() {
    let bytes: &[u8] = &[0x01, 0x02, 0x01, b'h', b'm', b'a', b'c'];
    let value = KeyExchangeRequest::PairedKeyHmac { key_len: 258, key_hmac: b"hmac" };
    let mut w = scratch();
    value.to_wire(&mut w).unwrap();
    assert_eq!(w.consumed_bytes(), bytes);
    let mut r = Reader::new(bytes);
    assert_eq!(KeyExchangeRequest::from_wire(&mut r), Ok(value));
}

#[test]
fn key_exchange_request_round_trip_destroy() {
    let bytes: &[u8] = &[0x02, b'h', b'm', b'a', b'c'];
    let value = KeyExchangeRequest::DestroySession { session_hmac: b"hmac" };
    let mut w = scratch();
    value.to_wire(&mut w).unwrap();
    assert_eq!(w.consumed_bytes(), bytes);
    let mut r = Reader::new(bytes);
    assert_eq!(KeyExchangeRequest::from_wire(&mut r), Ok(value));
}

#[test]
fn key_exchange_request_errors() {
    assert_eq!(KeyExchangeRequest::from_wire(&mut Reader::new(&[])), Err(Error::BufferExhausted));
    assert_eq!(KeyExchangeRequest::from_wire(&mut Reader::new(&[3, 0])), Err(Error::OutOfRange));
    assert_eq!(KeyExchangeRequest::from_wire(&mut Reader::new(&[0])), Err(Error::BufferExhausted));
    assert_eq!(KeyExchangeRequest::from_wire(&mut Reader::new(&[1, 5])), Err(Error::BufferExhausted));

    let too_long = KeyExchangeRequest::PairedKeyHmac { key_len: 65536, key_hmac: b"h" };
    let mut w = scratch();
    assert_eq!(too_long.to_wire(&mut w), Err(Error::OutOfRange));
    assert_eq!(w.consumed_len(), 0);

    let fits_not = KeyExchangeRequest::DestroySession { session_hmac: b"hmac" };
    let mut small = Cursor::new(vec![0; 4]);
    assert_eq!(fits_not.to_wire(&mut small), Err(Error::BufferExhausted));
    assert_eq!(small.consumed_len(), 0);
}

#[test]
fn key_exchange_response_round_trip_session_key() {
    let bytes: &[u8] = &[
        0x00, 0x05, 0x00, b'e', b'c', b'd', b's', b'a', 0x09, 0x00, b's', b'i', b'g', b'n', b'a',
        b't', b'u', b'r', b'e', b'a', b'l', b'i', b'a', b's',
    ];
    let value = KeyExchangeResponse::SessionKey {
        pk_resp: b"ecdsa",
        signature: b"signature",
        alias_cert_hmac: b"alias",
    };
    let mut w = scratch();
    value.to_wire(&mut w).unwrap();
    assert_eq!(w.consumed_bytes(), bytes);
    let mut r = Reader::new(bytes);
    assert_eq!(KeyExchangeResponse::from_wire(&mut r), Ok(value));
    assert_eq!(r.remaining_data(), 0);
}

#[test]
fn key_exchange_response_round_trip_pairing_key() {
    let bytes: &[u8] = &[0x01];
    let value = KeyExchangeResponse::PairedKeyHmac;
    let mut w = scratch();
    value.to_wire(&mut w).unwrap();
    assert_eq!(w.consumed_bytes(), bytes);
    let mut r = Reader::new(bytes);
    assert_eq!(KeyExchangeResponse::from_wire(&mut r), Ok(value));
}

#[test]
fn key_exchange_response_round_trip_destroy() {
    let bytes: &[u8] = &[0x02];
    let value = KeyExchangeResponse::DestroySession;
    let mut w = scratch();
    value.to_wire(&mut w).unwrap();
    assert_eq!(w.consumed_bytes(), bytes);
    let mut r = Reader::new(bytes);
    assert_eq!(KeyExchangeResponse::from_wire(&mut r), Ok(value));
}

#[test]
fn key_exchange_response_tag_alone_leaves_rest() {
    let mut r = Reader::new(&[0x01, 0xaa, 0xbb]);
    assert_eq!(KeyExchangeResponse::from_wire(&mut r), Ok(KeyExchangeResponse::PairedKeyHmac));
    assert_eq!(r.remaining_data(), 2);
}

#[test]
fn key_exchange_response_errors() {
    assert_eq!(KeyExchangeResponse::from_wire(&mut Reader::new(&[])), Err(Error::BufferExhausted));
    assert_eq!(KeyExchangeResponse::from_wire(&mut Reader::new(&[7])), Err(Error::OutOfRange));
    // The public key claims five bytes but only two follow.
    assert_eq!(
        KeyExchangeResponse::from_wire(&mut Reader::new(&[0, 5, 0, 1, 2])),
        Err(Error::BufferExhausted)
    );
    // The signature's length is missing.
    assert_eq!(
        KeyExchangeResponse::from_wire(&mut Reader::new(&[0, 1, 0, 9])),
        Err(Error::BufferExhausted)
    );

    let big = vec![0u8; 65536];
    let too_long = KeyExchangeResponse::SessionKey {
        pk_resp: &big,
        signature: b"s",
        alias_cert_hmac: b"a",
    };
    let mut w = scratch();
    assert_eq!(too_long.to_wire(&mut w), Err(Error::OutOfRange));
    assert_eq!(w.consumed_len(), 0);

    let mut empty = Cursor::new(vec![]);
    assert_eq!(KeyExchangeResponse::PairedKeyHmac.to_wire(&mut empty), Err(Error::BufferExhausted));
}

#[test]
fn key_exchange_response_empty_fields() {
    let value = KeyExchangeResponse::SessionKey { pk_resp: b"", signature: b"", alias_cert_hmac: b"" };
    let mut w = scratch();
    value.to_wire(&mut w).unwrap();
    assert_eq!(w.consumed_bytes(), &[0, 0, 0, 0, 0]);
    let bytes = w.take_consumed_bytes();
    let mut r = Reader::new(&bytes);
    assert_eq!(KeyExchangeResponse::from_wire(&mut r), Ok(value));
}

#[test]
fn reset_counter_request_round_trip() {
    let bytes: &[u8] = &[0x01, 0x00];
    let value = ResetCounterRequest { reset_type: ResetType::External, port_id: 0 };
    let mut w = scratch();
    value.to_wire(&mut w).unwrap();
    assert_eq!(w.consumed_bytes(), bytes);
    let mut r = Reader::new(bytes);
    assert_eq!(ResetCounterRequest::from_wire(&mut r), Ok(value));
}

#[test]
fn reset_counter_request_round_trip2() {
    let bytes: &[u8] = &[0x00, 0xaa];
    let value = ResetCounterRequest { reset_type: ResetType::Local, port_id: 0xaa };
    let mut w = scratch();
    value.to_wire(&mut w).unwrap();
    assert_eq!(w.consumed_bytes(), bytes);
    let mut r = Reader::new(bytes);
    assert_eq!(ResetCounterRequest::from_wire(&mut r), Ok(value));
}

#[test]
fn reset_counter_request_unknown_type() {
    let mut r = Reader::new(&[0x02, 0x00]);
    assert_eq!(ResetCounterRequest::from_wire(&mut r), Err(Error::OutOfRange));
    assert_eq!(ResetCounterRequest::from_wire(&mut Reader::new(&[0x01])), Err(Error::BufferExhausted));
    assert_eq!(ResetCounterRequest::from_wire(&mut Reader::new(&[])), Err(Error::BufferExhausted));
}

#[test]
fn reset_counter_response_round_trip() {
    let bytes: &[u8] = &[0x20, 0x00];
    let value = ResetCounterResponse { count: 32 };
    let mut w = scratch();
    value.to_wire(&mut w).unwrap();
    assert_eq!(w.consumed_bytes(), bytes);
    let mut r = Reader::new(bytes);
    assert_eq!(ResetCounterResponse::from_wire(&mut r), Ok(value));
    assert_eq!(ResetCounterResponse::from_wire(&mut Reader::new(&[1])), Err(Error::BufferExhausted));
}

#[test]
fn tag_bytes() {
    assert_eq!(RequestType::SessionKey.to_byte(), 0);
    assert_eq!(RequestType::PairedKeyHmac.to_byte(), 1);
    assert_eq!(RequestType::DestroySession.to_byte(), 2);
    assert_eq!(ResetType::Local.to_byte(), 0);
    assert_eq!(ResetType::External.to_byte(), 1);
    assert_eq!(ResetType::from_byte(1), Ok(ResetType::External));
    assert_eq!(ResetType::from_byte(2), Err(Error::OutOfRange));
}

fn tags_of<'wire, C: Command<'wire>>() -> (CommandType, CommandType) {
    (<C::Req as Request>::command_type(), <C::Resp as Response>::command_type())
}

#[test]
fn commands_pair_their_tags() {
    assert_eq!(tags_of::<GetCert>(), (CommandType::GetCert, CommandType::GetCert));
    assert_eq!(tags_of::<KeyExchange>(), (CommandType::KeyExchange, CommandType::KeyExchange));
    assert_eq!(tags_of::<ResetCounter>(), (CommandType::ResetCounter, CommandType::ResetCounter));
}
