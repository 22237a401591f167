//! Commands: each pairs a request type with a response type under one
//! command tag.
use vstd::prelude::*;

use crate::get_cert::{GetCertRequest, GetCertResponse};
use crate::key_exchange::{KeyExchangeRequest, KeyExchangeResponse};
use crate::reset_counter::{ResetCounterRequest, ResetCounterResponse};

verus! {

/// The tag of a command, carried by the envelope that frames a message.
#[derive(Clone, Copy, Debug, PartialEq, Eq, Structural)]
pub enum CommandType {
    /// Reading a chunk of a certificate.
    GetCert,
    /// Negotiating, pairing and destroying a session.
    KeyExchange,
    /// Querying a reset counter.
    ResetCounter,
}

/// A request message, which names the command it belongs to.
pub trait Request {
    /// The command this request belongs to.
    spec fn spec_type() -> CommandType;

    /// The command this request belongs to.
    fn command_type() -> (t: CommandType)
        ensures
            t == Self::spec_type(),
    ;
}

/// A response message, which names the command it belongs to.
pub trait Response {
    /// The command this response belongs to.
    spec fn spec_type() -> CommandType;

    /// The command this response belongs to.
    fn command_type() -> (t: CommandType)
        ensures
            t == Self::spec_type(),
    ;
}

/// A command: its tag, its request type and its response type, whose tags
/// agree with it.
pub trait Command<'wire> {
    /// The request of the command.
    type Req: Request;

    /// The response of the command.
    type Resp: Response;

    /// The tag of the command.
    spec fn spec_type() -> CommandType;

    /// The request and the response carry the command's own tag.
    proof fn lemma_tags_agree()
        ensures
            Self::Req::spec_type() == Self::spec_type(),
            Self::Resp::spec_type() == Self::spec_type(),
    ;
}

/// The command for reading a chunk of a certificate.
pub struct GetCert;

/// The command for negotiating, pairing and destroying a session.
pub struct KeyExchange;

/// The command for querying a reset counter.
pub struct ResetCounter;

impl Request for GetCertRequest {
    open spec fn spec_type() -> CommandType {
        CommandType::GetCert
    }

    fn command_type() -> (t: CommandType) {
        CommandType::GetCert
    }
}

impl<'wire> Response for GetCertResponse<'wire> {
    open spec fn spec_type() -> CommandType {
        CommandType::GetCert
    }

    fn command_type() -> (t: CommandType) {
        CommandType::GetCert
    }
}

impl<'wire> Command<'wire> for GetCert {
    type Req = GetCertRequest;

    type Resp = GetCertResponse<'wire>;

    open spec fn spec_type() -> CommandType {
        CommandType::GetCert
    }

    proof fn lemma_tags_agree() {
    }
}

impl<'wire> Request for KeyExchangeRequest<'wire> {
    open spec fn spec_type() -> CommandType {
        CommandType::KeyExchange
    }

    fn command_type() -> (t: CommandType) {
        CommandType::KeyExchange
    }
}

impl<'wire> Response for KeyExchangeResponse<'wire> {
    open spec fn spec_type() -> CommandType {
        CommandType::KeyExchange
    }

    fn command_type() -> (t: CommandType) {
        CommandType::KeyExchange
    }
}

impl<'wire> Command<'wire> for KeyExchange {
    type Req = KeyExchangeRequest<'wire>;

    type Resp = KeyExchangeResponse<'wire>;

    open spec fn spec_type() -> CommandType {
        CommandType::KeyExchange
    }

    proof fn lemma_tags_agree() {
    }
}

impl Request for ResetCounterRequest {
    open spec fn spec_type() -> CommandType {
        CommandType::ResetCounter
    }

    fn command_type() -> (t: CommandType) {
        CommandType::ResetCounter
    }
}

impl Response for ResetCounterResponse {
    open spec fn spec_type() -> CommandType {
        CommandType::ResetCounter
    }

    fn command_type() -> (t: CommandType) {
        CommandType::ResetCounter
    }
}

impl<'wire> Command<'wire> for ResetCounter {
    type Req = ResetCounterRequest;

    type Resp = ResetCounterResponse;

    open spec fn spec_type() -> CommandType {
        CommandType::ResetCounter
    }

    proof fn lemma_tags_agree() {
    }
}

} // verus!
