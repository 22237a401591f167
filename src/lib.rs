//! Wire codec for a challenge-response attestation protocol: a byte cursor
//! over a scratch buffer, a zero-copy reader, and the request/response
//! messages of the protocol with their canonical encodings.
pub mod command;
pub mod cursor;
pub mod error;
pub mod get_cert;
pub mod key_exchange;
pub mod le;
pub mod reader;
pub mod reset_counter;
